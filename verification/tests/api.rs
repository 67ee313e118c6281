use market_stream_gateway::api::rest;
use market_stream_gateway::api::rest::{CandleQuery, Origin};
use market_stream_gateway::api::session::{Opening, Outgoing, SessionInput};
use market_stream_gateway::api::{expand_subscriptions, parse_command, Gateway};
use market_stream_gateway::catalog::fetch::CatalogFetch;
use market_stream_gateway::catalog::payload::parse_binance_catalog;
use market_stream_gateway::catalog::{Catalog, CatalogSources};
use market_stream_gateway::domain::{
    Channel, MarketKind, MarketPayload, ObservedDecimal, Provider, ProviderEvent, Subscription,
    SubscriptionKey, Ticker, SCHEMA_VERSION,
};
use market_stream_gateway::gateway::{DeliveryOutcome, ProviderLimits};
use market_stream_gateway::health::{ConnectionState, HealthRegistry};
use market_stream_gateway::history::HistoryError;
use market_stream_gateway::metrics::{EndpointLabels, ProviderLabels};
use market_stream_gateway::protocol::ControlMessage;
use market_stream_gateway::providers::EndpointKind;
use market_stream_gateway::venues::ProviderSet;
use market_stream_gateway::wire;

const START: u64 = 1_700_000_040_000;

fn document(message: &ControlMessage) -> serde_json::Value {
    serde_json::from_str(&message.to_text()).unwrap()
}

fn catalog() -> Catalog {
    let mut catalog = Catalog::new(CatalogSources {
        enabled_providers: ProviderSet::from_list(&[Provider::Binance]),
        ..CatalogSources::default()
    });
    let item = |symbol: &str| {
        format!(
            r#"{{"symbol":"{symbol}","contractType":"PERPETUAL","status":"TRADING","baseAsset":"ETH","quoteAsset":"USDT","marginAsset":"USDT","filters":[{{"filterType":"PRICE_FILTER","tickSize":"0.01"}},{{"filterType":"LOT_SIZE","stepSize":"0.001"}}]}}"#
        )
    };
    let body = format!(
        r#"{{"symbols":[{},{}]}}"#,
        item("ETHUSDT"),
        item("BTCUSDT")
    );
    catalog
        .refresh_provider(Provider::Binance, 1, 2, parse_binance_catalog(&body))
        .unwrap();
    catalog
}

fn gateway(client_limit: usize) -> Gateway {
    Gateway::new(
        2,
        2,
        client_limit,
        ProviderLimits::new(vec![(Provider::Binance, 3)], 3),
    )
}

fn command(op: &str, symbol: &str, channels: &str) -> String {
    format!(
        r#"{{"op":"{op}","request_id":"r","subscriptions":[{{"provider":"binance","market":"linear_perpetual","symbol":"{symbol}","channels":[{channels}]}}]}}"#
    )
}

fn answer(gateway: &mut Gateway, client: u128, text: &str) -> serde_json::Value {
    let step = gateway.step_session(
        client,
        SessionInput::Text(text.to_owned()),
        1_024,
        &ProviderSet::from_list(&[Provider::Binance, Provider::Okx]),
        &catalog(),
    );
    assert!(!step.ends);
    match step.outgoing {
        Some(Outgoing::Control(message)) => {
            let json = document(&message);
            assert_eq!(step.rejected, json["type"] == "error");
            json
        }
        other => panic!("{other:?}"),
    }
}

fn event(symbol: &str) -> ProviderEvent {
    ProviderEvent {
        connection_epoch: 0,
        provider: Provider::Binance,
        market: MarketKind::LinearPerpetual,
        symbol: symbol.to_owned(),
        exchange_time_ms: None,
        gateway_received_time_ms: 1,
        source_sequence: None,
        payload: MarketPayload::Ticker(Ticker {
            last: Some(ObservedDecimal::new("1.0", 1).unwrap()),
            ..Ticker::default()
        }),
    }
}

#[test]
fn client_subscriptions_expand_to_channel_keys() {
    let keys = expand_subscriptions(vec![Subscription {
        provider: Provider::Bybit,
        market: MarketKind::LinearPerpetual,
        symbol: "btcusdt".to_owned(),
        channels: vec![Channel::Ticker, Channel::Candle1m],
    }])
    .unwrap();
    assert_eq!(keys.len(), 2);
    assert!(keys.iter().all(|key| key.symbol == "BTCUSDT"));
}

#[test]
fn malformed_json_has_stable_public_error() {
    let error = parse_command("{").unwrap_err();
    let json = document(&error);
    assert_eq!(json["type"], "error");
    assert_eq!(json["schema_version"], SCHEMA_VERSION);
    assert_eq!(json["code"], "invalid_json");
    assert_eq!(json["message"], "invalid client command");
}

#[test]
fn expansion_is_ordered_and_without_duplicates() {
    let wish = |symbol: &str, channel: Channel| Subscription {
        provider: Provider::Bybit,
        market: MarketKind::LinearPerpetual,
        symbol: symbol.to_owned(),
        channels: vec![channel],
    };
    let keys = expand_subscriptions(vec![
        wish("ethusdt", Channel::Candle1m),
        wish("btcusdt", Channel::Ticker),
        wish("ETHUSDT", Channel::Candle1m),
        wish("ETHUSDT", Channel::Ticker),
    ])
    .unwrap();
    let names: Vec<(String, Channel)> = keys
        .into_iter()
        .map(|key| (key.symbol, key.channel))
        .collect();
    assert_eq!(
        names,
        vec![
            ("BTCUSDT".to_owned(), Channel::Ticker),
            ("ETHUSDT".to_owned(), Channel::Ticker),
            ("ETHUSDT".to_owned(), Channel::Candle1m),
        ]
    );
    assert_eq!(
        expand_subscriptions(Vec::new()).unwrap_err(),
        "subscriptions must not be empty"
    );
    assert_eq!(
        expand_subscriptions(vec![wish("?", Channel::Ticker)]).unwrap_err(),
        "invalid venue symbol: ?"
    );
}

#[test]
fn websocket_subscriptions_receive_only_matching_normalized_events() {
    let mut fetch = CatalogFetch::begin(Provider::Bybit, "http://127.0.0.1:9/catalog");
    fetch = fetch
        .take_answer(
            r#"{"retCode":0,"retMsg":"OK","result":{"category":"linear","nextPageCursor":"","list":[{"symbol":"BTCUSDT","contractType":"LinearPerpetual","status":"Trading","baseCoin":"BTC","quoteCoin":"USDT","settleCoin":"USDT","launchTime":"1584230400000","deliveryTime":"0","priceFilter":{"tickSize":"0.10"},"lotSizeFilter":{"qtyStep":"0.001"},"leverageFilter":{"maxLeverage":"100.00"}}]}}"#,
        )
        .unwrap();
    assert!(fetch.is_done());
    let enabled = ProviderSet::from_list(&[Provider::Bybit]);
    let mut catalog = Catalog::new(CatalogSources {
        enabled_providers: ProviderSet::from_list(&[Provider::Bybit]),
        ..CatalogSources::default()
    });
    catalog
        .refresh_provider(Provider::Bybit, 1, 2, Ok(fetch.finish()))
        .unwrap();
    let mut gateway = Gateway::new(16, usize::MAX, 8, ProviderLimits::uniform(usize::MAX));

    let Opening::Opened { hello, .. } = gateway.open_session(1) else {
        panic!("expected a session");
    };
    assert_eq!(document(&hello)["type"], "hello");

    let step = gateway.step_session(
        1,
        SessionInput::Text(
            r#"{"op":"subscribe","request_id":"integration-1","subscriptions":[{"provider":"bybit","market":"linear_perpetual","symbol":"BTCUSDT","channels":["ticker"]}]}"#
                .to_owned(),
        ),
        4096,
        &enabled,
        &catalog,
    );
    let Some(Outgoing::Control(acknowledgement)) = step.outgoing else {
        panic!("expected an acknowledgement");
    };
    assert_eq!(document(&acknowledgement)["type"], "ack");
    assert_eq!(gateway.subscriptions().desired_snapshot().len(), 1);

    let published = |symbol: &str, last: &str, exchange_time_ms: u64| ProviderEvent {
        connection_epoch: 0x5eed,
        provider: Provider::Bybit,
        market: MarketKind::LinearPerpetual,
        symbol: symbol.to_owned(),
        exchange_time_ms: Some(exchange_time_ms),
        gateway_received_time_ms: exchange_time_ms + 1,
        source_sequence: None,
        payload: MarketPayload::Ticker(Ticker {
            last: Some(ObservedDecimal::new(last, exchange_time_ms).unwrap()),
            ..Ticker::default()
        }),
    };
    let (_, clients) = gateway
        .publish(published("ETHUSDT", "2000", 1_750_000_000_000))
        .unwrap();
    assert!(clients.is_empty());
    let (event, clients) = gateway
        .publish(published("BTCUSDT", "100000.5", 1_750_000_000_002))
        .unwrap();
    assert_eq!(clients, vec![1]);
    let step = gateway.step_session(1, SessionInput::Event(event), 4096, &enabled, &catalog);
    let Some(Outgoing::Event(event)) = step.outgoing else {
        panic!("expected an event");
    };
    let event: serde_json::Value = serde_json::from_str(&wire::event_text(&event)).unwrap();
    assert_eq!(event["type"], "ticker");
    assert_eq!(event["symbol"], "BTCUSDT");
    assert_eq!(event["data"]["last"]["value"], "100000.5");

    let step = gateway.step_session(1, SessionInput::Disconnected, 4096, &enabled, &catalog);
    assert!(step.ends);
    gateway.close_session(1);
    assert!(gateway.subscriptions().desired_snapshot().is_empty());
}

#[test]
fn sessions_are_greeted_fed_and_forgotten() {
    let mut gateway = gateway(8);
    let Opening::Opened { feed, hello } = gateway.open_session(1) else {
        panic!("expected a session");
    };
    assert_eq!(feed.capacity, 2);
    let hello = document(&hello);
    assert_eq!(hello["type"], "hello");
    assert_eq!(hello["max_subscriptions"], 8);
    assert_eq!(hello["max_provider_subscriptions"], 3);
    assert_eq!(hello["provider_subscription_limits"]["binance"], 3);
    assert_eq!(
        hello["stream_epoch"],
        wire::uuid_text(gateway.hub().stream_epoch())
    );

    let ack = answer(
        &mut gateway,
        1,
        &command("subscribe", "btcusdt", r#""ticker""#),
    );
    assert_eq!(ack["type"], "ack");
    assert_eq!(ack["operation"], "subscribe");
    assert_eq!(ack["subscriptions"][0]["symbol"], "BTCUSDT");

    let (other, clients) = gateway.publish(event("ETHUSDT")).unwrap();
    assert_eq!(other.delivery_sequence, 1);
    assert!(clients.is_empty());
    let (wanted, clients) = gateway.publish(event("BTCUSDT")).unwrap();
    assert_eq!(wanted.delivery_sequence, 2);
    assert_eq!(clients, vec![1]);
    let step = gateway.step_session(
        1,
        SessionInput::Event(wanted),
        1_024,
        &ProviderSet::all(),
        &catalog(),
    );
    assert!(matches!(step.outgoing, Some(Outgoing::Event(sent)) if sent.symbol == "BTCUSDT"));

    let ack = answer(
        &mut gateway,
        1,
        &command("unsubscribe", "BTCUSDT", r#""ticker""#),
    );
    assert_eq!(ack["operation"], "unsubscribe");
    let (_, clients) = gateway.publish(event("BTCUSDT")).unwrap();
    assert!(clients.is_empty());
    gateway.close_session(1);
    assert_eq!(gateway.hub().receiver_count(), 0);
}

#[test]
fn refused_commands_change_nothing_and_say_why() {
    let mut gateway = gateway(2);
    gateway.open_session(1);
    let cases = [
        (
            command("subscribe", "ETHUSDT", ""),
            "invalid_command",
            "subscription must contain at least one channel",
        ),
        (
            r#"{"op":"subscribe","request_id":"r","subscriptions":[]}"#.to_owned(),
            "invalid_command",
            "subscriptions must not be empty",
        ),
        (
            command("subscribe", "ETHUSDT", r#""ticker""#).replace("binance", "bybit"),
            "unsupported_subscription",
            "bybit is disabled",
        ),
        (
            command("subscribe", "BTC-USDT-SWAP", r#""ticker""#).replace("binance", "okx"),
            "unsupported_subscription",
            "okx instrument catalog is disabled",
        ),
        (
            command("subscribe", "SOLUSDT", r#""ticker""#),
            "unsupported_subscription",
            "instrument is not available: binance:linear_perpetual:SOLUSDT",
        ),
        (
            r#"{"op":"ping","request_id":""}"#.to_owned(),
            "invalid_command",
            "request_id must contain between 1 and 128 bytes",
        ),
        (
            format!(r#"{{"op":"ping","request_id":"{}"}}"#, "x".repeat(129)),
            "invalid_command",
            "request_id must contain between 1 and 128 bytes",
        ),
        (
            format!(r#"{{"op":"ping","request_id":"{}"}}"#, "x".repeat(1_024)),
            "limit_exceeded",
            "command exceeds maximum size",
        ),
        (
            command("unsubscribe", "?", r#""ticker""#),
            "invalid_command",
            "invalid venue symbol: ?",
        ),
    ];
    for (text, code, message) in cases {
        let json = answer(&mut gateway, 1, &text);
        assert_eq!(json["code"], code, "{text}");
        assert_eq!(json["message"], message);
        assert!(gateway.subscriptions().client_snapshot(1).is_empty());
    }
    let pong = answer(&mut gateway, 1, r#"{"op":"ping","request_id":"p"}"#);
    assert_eq!(pong["type"], "pong");
    assert_eq!(pong["request_id"], "p");
}

#[test]
fn limits_are_answered_with_what_was_asked() {
    let mut gateway = gateway(2);
    gateway.open_session(1);
    gateway.open_session(2);
    let both = r#""ticker","candle_1m""#;
    assert_eq!(
        answer(&mut gateway, 1, &command("subscribe", "ETHUSDT", both))["type"],
        "ack"
    );
    let json = answer(&mut gateway, 1, &command("subscribe", "BTCUSDT", r#""ticker""#));
    assert_eq!(json["code"], "limit_exceeded");
    assert_eq!(json["request_id"], "r");
    assert_eq!(
        json["message"],
        "subscription limit exceeded: requested 3, maximum 2"
    );
    let json = answer(&mut gateway, 2, &command("subscribe", "BTCUSDT", both));
    assert_eq!(
        json["message"],
        "binance subscription limit exceeded: requested 4, maximum 3"
    );
    assert_eq!(gateway.subscriptions().client_snapshot(1).len(), 2);
    assert!(gateway.subscriptions().client_snapshot(2).is_empty());
}

#[test]
fn clients_beyond_the_limit_are_turned_away() {
    let mut gateway = gateway(2);
    assert!(matches!(gateway.open_session(1), Opening::Opened { .. }));
    assert!(matches!(gateway.open_session(2), Opening::Opened { .. }));
    let Opening::Rejected(message) = gateway.open_session(3) else {
        panic!("expected a refusal");
    };
    let json = document(&message);
    assert_eq!(json["code"], "limit_exceeded");
    assert_eq!(json["message"], "downstream client limit exceeded");
}

#[test]
fn sessions_answer_every_kind_of_message() {
    let mut gateway = gateway(2);
    gateway.open_session(1);
    let enabled = ProviderSet::all();
    let catalog = catalog();
    let mut step = |input: SessionInput| gateway.step_session(1, input, 64, &enabled, &catalog);
    let ping = step(SessionInput::Ping(vec![1, 2]));
    assert!(matches!(ping.outgoing, Some(Outgoing::Pong(echo)) if echo == vec![1, 2]));
    assert!(!ping.ends);
    let pong = step(SessionInput::Pong);
    assert!(pong.outgoing.is_none() && !pong.ends);
    let binary = step(SessionInput::Binary);
    assert!(binary.rejected && !binary.ends);
    match binary.outgoing {
        Some(Outgoing::Control(message)) => assert_eq!(
            document(&message)["message"],
            "commands must be UTF-8 JSON text"
        ),
        other => panic!("{other:?}"),
    }
    assert!(step(SessionInput::Disconnected).ends);
    assert!(step(SessionInput::FeedClosed).ends);
    let lagged = step(SessionInput::Lagged(4));
    assert!(lagged.ends && lagged.lagged);
    match lagged.outgoing {
        Some(Outgoing::Control(message)) => {
            let json = document(&message);
            assert_eq!(json["type"], "gap");
            assert_eq!(json["dropped_messages"], 4);
            assert_eq!(
                json["message"],
                "downstream buffer overrun; reconnect and repair gaps"
            );
        }
        other => panic!("{other:?}"),
    }
    let shutdown = step(SessionInput::Shutdown);
    assert!(shutdown.ends && matches!(shutdown.outgoing, Some(Outgoing::Close)));
}

#[test]
fn overrun_clients_keep_their_demand_until_they_are_gone() {
    let mut gateway = gateway(2);
    gateway.open_session(1);
    answer(
        &mut gateway,
        1,
        &command("subscribe", "ETHUSDT", r#""ticker""#),
    );
    gateway.record_delivery(1, DeliveryOutcome::QueueFull);
    assert!(gateway.publish(event("ETHUSDT")).unwrap().1.is_empty());
    assert_eq!(gateway.subscriptions().desired_snapshot().len(), 1);
    gateway.close_session(1);
    assert!(gateway.subscriptions().desired_snapshot().is_empty());
}

#[test]
fn candle_requests_are_planned() {
    let catalog = catalog();
    let query = |symbol: &str, start: u64, end: u64, limit: Option<usize>| CandleQuery {
        provider: Provider::Binance,
        symbol: symbol.to_owned(),
        start_time_ms: start,
        end_time_ms: end,
        limit,
    };
    let request = rest::plan_candles(&query("ethusdt", START, START + 60_000, None), &catalog)
        .unwrap();
    assert_eq!(request.symbol(), "ETHUSDT");
    assert_eq!(request.limit(), 1_000);
    let request =
        rest::plan_candles(&query("ETHUSDT", START, START + 60_000, Some(5)), &catalog).unwrap();
    assert_eq!(request.limit(), 5);

    let failure =
        rest::plan_candles(&query("?", START, START + 60_000, None), &catalog).unwrap_err();
    assert_eq!((failure.status, failure.code), (400, "invalid_request"));
    assert_eq!(failure.message, "invalid venue symbol: ?");
    let failure = rest::plan_candles(
        &query("UNKNOWNUSDT", START, START + 60_000, None),
        &catalog,
    )
    .unwrap_err();
    assert_eq!(
        (failure.status, failure.code),
        (422, "unsupported_instrument")
    );
    let failure =
        rest::plan_candles(&query("ETHUSDT", START + 1, START + 60_000, None), &catalog)
            .unwrap_err();
    assert_eq!((failure.status, failure.code), (400, "invalid_request"));
    assert!(failure.message.starts_with("invalid history request: "));
    assert_eq!(
        wire::written(&rest::history_busy().to_json()),
        r#"{"code":"history_busy","message":"too many concurrent history requests"}"#
    );
    assert_eq!(rest::history_busy().status, 429);
}

#[test]
fn history_failures_hide_what_the_venue_said() {
    let failure = rest::history_failure(
        Provider::Okx,
        &HistoryError::ProviderRejected {
            provider: Provider::Okx,
            code: "1".to_owned(),
            message: "secret".to_owned(),
        },
    );
    assert_eq!((failure.status, failure.code), (502, "provider_unavailable"));
    assert_eq!(failure.message, "okx history request failed");
    let failure = rest::history_failure(
        Provider::Okx,
        &HistoryError::InvalidRequest("bad".to_owned()),
    );
    assert_eq!((failure.status, failure.message.as_str()), (400, "bad"));
    let long = rest::api_error(400, "invalid_request", &"\u{5e01}".repeat(600));
    assert_eq!(long.message.chars().count(), 500);
}

#[test]
fn readiness_needs_catalogs_and_live_streams() {
    let mut health = HealthRegistry::new();
    let report = rest::readiness(&health, &Catalog::new(CatalogSources::default()));
    assert!(!report.ready);
    assert_eq!(report.status, 503);
    let catalog = catalog();
    let report = rest::readiness(&health, &catalog);
    assert!(report.ready);
    assert_eq!(report.status, 200);

    let mut entry = health.entry(Provider::Binance, EndpointKind::Primary);
    entry.desired_subscriptions = 1;
    entry.state = ConnectionState::Connecting;
    health.update(Provider::Binance, EndpointKind::Primary, entry);
    let report = rest::readiness(&health, &catalog);
    assert!(!report.ready);
    let json: serde_json::Value =
        serde_json::from_str(&wire::written(&report.to_json())).unwrap();
    assert_eq!(json["ready"], false);
    assert_eq!(json["status"], "degraded");
    assert_eq!(json["endpoints"][0]["provider"], "binance");
    assert_eq!(json["endpoints"][0]["state"], "connecting");
    assert_eq!(json["catalogs"][1]["last_success_at_ms"], 2);
    assert_eq!(wire::written(&rest::liveness()), r#"{"status":"live"}"#);
}

#[test]
fn venues_are_described() {
    let json: serde_json::Value = serde_json::from_str(&wire::written(&rest::providers(
        &ProviderSet::from_list(&[Provider::Okx]),
    )))
    .unwrap();
    assert_eq!(json.as_array().unwrap().len(), 6);
    assert_eq!(json[0]["provider"], "bybit");
    assert_eq!(json[0]["enabled"], false);
    assert_eq!(json[2]["enabled"], true);
    assert_eq!(json[5]["provider"], "bingx");
    assert_eq!(json[5]["markets"][0], "linear_perpetual");
    assert_eq!(json[5]["channels"][1], "candle_1m");
}

#[test]
fn origins_are_denied_unless_allowed() {
    let none: Vec<String> = Vec::new();
    assert!(!rest::origin_allowed(&none, Origin::Named("https://a.example")));
    assert!(rest::origin_allowed(&none, Origin::Absent));
    let some = vec!["https://a.example".to_owned()];
    assert!(rest::origin_allowed(&some, Origin::Named("https://a.example")));
    assert!(!rest::origin_allowed(&some, Origin::Named("https://b.example")));
    assert!(!rest::origin_allowed(&some, Origin::Unreadable));
    let all = vec!["*".to_owned()];
    assert!(rest::origin_allowed(&all, Origin::Named("https://b.example")));
    assert!(!rest::origin_allowed(&all, Origin::Unreadable));
}

#[test]
fn labels_are_names() {
    let labels = EndpointLabels::new(Provider::Kucoin, EndpointKind::Primary);
    assert_eq!(labels.provider, "kucoin");
    assert_eq!(labels.endpoint, "primary");
    assert_eq!(ProviderLabels::new(Provider::Mexc).provider, "mexc");
}

#[test]
fn keys_can_be_sent_back() {
    let key = SubscriptionKey::new(
        Provider::Binance,
        MarketKind::LinearPerpetual,
        "ETHUSDT",
        Channel::Candle1m,
    )
    .unwrap();
    let json: serde_json::Value =
        serde_json::from_str(&wire::written(&wire::key_json(&key))).unwrap();
    let mut gateway = gateway(4);
    gateway.open_session(1);
    let text = command(
        "subscribe",
        json["symbol"].as_str().unwrap(),
        &json["channel"].to_string(),
    );
    let ack = answer(&mut gateway, 1, &text);
    assert_eq!(ack["subscriptions"][0], json);
}
