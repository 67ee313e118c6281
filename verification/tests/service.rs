use market_stream_gateway::api::rest;
use market_stream_gateway::api::Gateway;
use market_stream_gateway::catalog::fetch::CatalogFetch;
use market_stream_gateway::catalog::{Catalog, CatalogFilter, CatalogSources};
use market_stream_gateway::domain::{
    CandleFinality, Channel, MarketKind, MarketPayload, Provider, SubscriptionKey,
};
use market_stream_gateway::gateway::{ProviderLimits, SubscriptionRegistry};
use market_stream_gateway::health::HealthRegistry;
use market_stream_gateway::history::fetch::{HistorySources, Retrieval};
use market_stream_gateway::json::Json;
use market_stream_gateway::keyset::KeySet;
use market_stream_gateway::providers::binance::{BinanceAdapter, BinanceSession};
use market_stream_gateway::providers::bingx::{BingxAdapter, BingxSession};
use market_stream_gateway::providers::bybit::{BybitAdapter, BybitSession};
use market_stream_gateway::providers::kucoin::KucoinAdapter;
use market_stream_gateway::providers::mexc::MexcAdapter;
use market_stream_gateway::providers::okx::OkxAdapter;
use market_stream_gateway::providers::{
    AdapterError, AdapterSession, EndpointKind, ParsedFrame, SubscriptionAction,
};
use market_stream_gateway::runtime::connection::{filter_desired, Connection};
use market_stream_gateway::venues::ProviderSet;
use market_stream_gateway::wire;

const START: u64 = 1_700_000_040_000;

const INSTRUMENTS: &str = r#"{"retCode":0,"retMsg":"OK","result":{"category":"linear","nextPageCursor":"","list":[{"symbol":"BTCUSDT","contractType":"LinearPerpetual","status":"Trading","baseCoin":"BTC","quoteCoin":"USDT","settleCoin":"USDT","launchTime":"1584230400000","deliveryTime":"0","priceFilter":{"tickSize":"0.10"},"lotSizeFilter":{"qtyStep":"0.001"},"leverageFilter":{"maxLeverage":"100.00"}}]}}"#;

fn document(value: &Json) -> serde_json::Value {
    serde_json::from_str(&wire::written(value)).unwrap()
}

fn subscription(provider: Provider, symbol: &str, channel: Channel) -> SubscriptionKey {
    SubscriptionKey::new(provider, MarketKind::LinearPerpetual, symbol, channel).unwrap()
}

#[test]
fn rest_api_exposes_catalog_and_normalized_history() {
    let root = "http://127.0.0.1:9/";
    let mut catalog = Catalog::new(CatalogSources {
        bybit: format!("{root}v5/market/instruments-info"),
        enabled_providers: ProviderSet::from_list(&[Provider::Bybit]),
        ..CatalogSources::default()
    });
    let fetch = CatalogFetch::begin(Provider::Bybit, catalog.endpoint(Provider::Bybit));
    assert_eq!(
        fetch.next_url().unwrap(),
        format!("{root}v5/market/instruments-info?category=linear&limit=1000")
    );
    let fetch = fetch.take_answer(INSTRUMENTS).unwrap();
    assert!(fetch.is_done());
    catalog
        .refresh_provider(Provider::Bybit, 1, 2, Ok(fetch.finish()))
        .unwrap();

    let ready = rest::readiness(&HealthRegistry::default(), &catalog);
    assert_eq!(ready.status, 200);
    assert_eq!(document(&ready.to_json())["ready"], true);

    let instruments = document(&wire::instruments_json(&catalog.filter(&CatalogFilter {
        provider: Some(Provider::Bybit),
        symbol: Some("BTCUSDT".to_owned()),
        ..CatalogFilter::default()
    })));
    assert_eq!(instruments.as_array().unwrap().len(), 1);
    assert_eq!(
        instruments[0]["instrument_id"],
        "bybit:linear_perpetual:BTCUSDT"
    );
    assert_eq!(instruments[0]["tick_size"], "0.10");

    let mut query = rest::CandleQuery {
        provider: Provider::Bybit,
        symbol: "BTCUSDT".to_owned(),
        start_time_ms: START,
        end_time_ms: START + 120_000,
        limit: None,
    };
    let request = rest::plan_candles(&query, &catalog).unwrap();
    let sources = HistorySources {
        bybit: root.to_owned(),
        ..HistorySources::default()
    };
    let mut retrieval = Retrieval::begin(request, &sources);
    let url = retrieval.next_url().unwrap().unwrap();
    assert_eq!(
        url,
        format!(
            "{root}v5/market/kline?category=linear&symbol=BTCUSDT&interval=1&start={START}&end={}&limit=1000",
            START + 119_999
        )
    );
    retrieval
        .take_answer(&format!(
            r#"{{"retCode":0,"retMsg":"OK","time":{},"result":{{"category":"linear","symbol":"BTCUSDT","list":[["{}","2","4","1.5","3","20","60"],["{START}","1","3","0.5","2","10","20"]]}}}}"#,
            START + 180_000,
            START + 60_000
        ))
        .unwrap();
    assert_eq!(retrieval.next_url().unwrap(), None);
    retrieval.take_answer("is not asked for").unwrap();
    let candles = document(&wire::history_json(&retrieval.finish().unwrap()));
    assert_eq!(candles["candles"].as_array().unwrap().len(), 2);
    assert_eq!(candles["candles"][0]["start_time_ms"], START);
    assert_eq!(candles["candles"][0]["end_time_ms"], START + 60_000);
    assert_eq!(candles["candles"][0]["base_volume"], "10");
    assert_eq!(candles["candles"][0]["quote_volume"], "20");
    assert_eq!(candles["candles"][0]["finality"], "closed");

    query.symbol = "UNKNOWNUSDT".to_owned();
    query.end_time_ms = START + 60_000;
    let unknown = rest::plan_candles(&query, &catalog).unwrap_err();
    assert_eq!(unknown.status, 422);
    assert_eq!(document(&unknown.to_json())["code"], "unsupported_instrument");
}

#[test]
fn supervisor_subscribes_and_publishes_normalized_provider_data() {
    let adapter = BybitAdapter::with_url("ws://127.0.0.1:9/".to_owned());
    let mut gateway = Gateway::new(8, usize::MAX, 8, ProviderLimits::uniform(usize::MAX));
    let mut subscriptions = SubscriptionRegistry::new(8);
    subscriptions
        .add(1, vec![subscription(Provider::Bybit, "BTCUSDT", Channel::Ticker)])
        .unwrap();
    let desired = filter_desired(
        &adapter,
        EndpointKind::Primary,
        &subscriptions.desired_snapshot(),
    );
    let target = adapter.connection_target(EndpointKind::Primary).unwrap();
    let mut session: BybitSession = adapter.session(EndpointKind::Primary, 3);
    let mut connection = Connection::open(&mut session, desired, &target, 0).unwrap();

    let text = connection.next_command().unwrap();
    let command: serde_json::Value = serde_json::from_str(&text).unwrap();
    assert_eq!(command["op"], "subscribe");
    assert_eq!(command["args"].as_array().unwrap().len(), 1);
    assert_eq!(command["args"][0], "tickers.BTCUSDT");
    assert!(!connection.command_sent(1).unwrap().over);
    let acknowledged = connection
        .take_text(
            &mut session,
            r#"{"success":true,"op":"subscribe","req_id":"gateway-1"}"#,
            2,
            2,
        )
        .unwrap();
    assert!(acknowledged.became_live);
    let mut step = connection
        .take_text(
            &mut session,
            r#"{"topic":"tickers.BTCUSDT","type":"snapshot","ts":1750000000100,"cs":10,"data":{"symbol":"BTCUSDT","lastPrice":"100001.25","markPrice":"100000.75","indexPrice":"100000.50","bid1Price":"100001.00","ask1Price":"100001.50"}}"#,
            3,
            3,
        )
        .unwrap();
    assert!(step.demanded);
    let (event, _) = gateway.publish(step.events.remove(0)).unwrap();
    assert_eq!(event.provider, Provider::Bybit);
    assert_eq!(event.symbol, "BTCUSDT");
    let MarketPayload::Ticker(ticker) = &event.payload else {
        panic!("expected ticker event");
    };
    assert_eq!(ticker.last.as_ref().unwrap().value.as_str(), "100001.25");
    assert_eq!(ticker.mark.as_ref().unwrap().value.as_str(), "100000.75");
}

#[test]
fn publish_sequences_match_delivery_order() {
    let mut gateway = Gateway::new(8, 2, 8, ProviderLimits::uniform(8));
    let mut session = BinanceSession::new(5);
    for expected in 1..=64 {
        let frame = format!(
            r#"{{"e":"24hrTicker","E":{expected},"s":"BTCUSDT","c":"1.5","F":1,"L":2}}"#
        );
        let ParsedFrame::Events(mut events) = session.parse(&frame, 7).unwrap() else {
            panic!("expected events");
        };
        let (event, _) = gateway.publish(events.remove(0)).unwrap();
        assert_eq!(event.delivery_sequence, expected);
        assert_eq!(event.connection_epoch, 5);
        assert_eq!(event.gateway_received_time_ms, 7);
    }
}

#[test]
fn updates_are_stamped_and_no_price_stands_in_for_another() {
    let mut session = BingxSession::new(9);
    let frame = r#"{"code":0,"dataType":"FET-USDT@ticker","data":{"s":"FET-USDT","c":"0.1420"}}"#;
    let ParsedFrame::Events(events) = session.parse(frame, 11).unwrap() else {
        panic!("expected events");
    };
    assert_eq!(events[0].provider, Provider::Bingx);
    assert_eq!(events[0].market, MarketKind::LinearPerpetual);
    assert_eq!(events[0].connection_epoch, 9);
    assert_eq!(events[0].gateway_received_time_ms, 11);
    let MarketPayload::Ticker(ticker) = &events[0].payload else {
        panic!("expected ticker");
    };
    assert!(ticker.mark.is_none() && ticker.bid.is_none() && ticker.index.is_none());

    let mut session = OkxAdapter::default().session(EndpointKind::Public, 1);
    let mark = r#"{"arg":{"channel":"mark-price","instId":"BTC-USDT-SWAP"},"data":[{"instId":"BTC-USDT-SWAP","markPx":"0.99","ts":"11"}]}"#;
    let ParsedFrame::Events(events) = session.parse(mark, 2).unwrap() else {
        panic!("expected events");
    };
    let MarketPayload::Ticker(ticker) = &events[0].payload else {
        panic!("expected ticker");
    };
    assert!(ticker.last.is_none());

    let mut session = KucoinAdapter::default().session(EndpointKind::Primary, 4);
    let candle = r#"{"topic":"/contractMarket/limitCandle:XBTUSDTM_1min","type":"message","subject":"candle.stick","data":{"symbol":"XBTUSDTM","candles":["1731898200","1","2","3","0.5","21.0","19"],"time":1731898208357}}"#;
    let ParsedFrame::Events(events) = session.parse(candle, 2).unwrap() else {
        panic!("expected events");
    };
    assert_eq!(events[0].connection_epoch, 4);
    let MarketPayload::Candle(candle) = &events[0].payload else {
        panic!("expected candle");
    };
    assert_eq!(candle.finality, CandleFinality::Unknown);
    assert_eq!(candle.end_time_ms, candle.start_time_ms + 60_000);
}

#[test]
fn refused_frames_and_subscriptions_say_why() {
    let mut binance = BinanceSession::new(0);
    let refusal = binance
        .parse(r#"{"e":"24hrTicker","E":10,"s":"BTCUSDT","c":"x\ty","F":1,"L":2}"#, 11)
        .unwrap_err()
        .message();
    assert_eq!(
        refusal,
        r#"binance returned invalid data: invalid last price "x\ty": invalid decimal value: x	y"#
    );
    let foreign = binance
        .subscription_messages(
            SubscriptionAction::Subscribe,
            &[subscription(Provider::Okx, "BTC-USDT-SWAP", Channel::Ticker)],
        )
        .unwrap_err();
    assert!(matches!(
        foreign,
        AdapterError::InvalidSubscription {
            provider: Provider::Binance,
            ..
        }
    ));
    let mut bingx = BingxSession::new(0);
    let refusal = bingx
        .subscription_messages(
            SubscriptionAction::Subscribe,
            &[subscription(Provider::Bingx, "FETUSDT", Channel::Ticker)],
        )
        .unwrap_err();
    assert_eq!(
        refusal,
        AdapterError::InvalidSubscription {
            provider: Provider::Bingx,
            message: r#"symbol "FETUSDT" must use uppercase BASE-QUOTE grammar"#.to_owned()
        }
    );
    assert_eq!(
        bingx.parse("[]", 1).unwrap_err(),
        AdapterError::InvalidPayload {
            provider: Provider::Bingx,
            message: "top-level payload must be an object".to_owned()
        }
    );
}

#[test]
fn endpoints_that_a_venue_does_not_have_are_refused() {
    let refused = |error: AdapterError| matches!(error, AdapterError::UnsupportedEndpoint { .. });
    let other = EndpointKind::Business;
    assert!(refused(BybitAdapter::new().connection_target(other).unwrap_err()));
    assert!(refused(BinanceAdapter::new().connection_target(other).unwrap_err()));
    assert!(refused(MexcAdapter::new().connection_target(other).unwrap_err()));
    assert!(refused(BingxAdapter::new().connection_target(other).unwrap_err()));
    assert!(refused(
        OkxAdapter::default()
            .connection_target(EndpointKind::Primary)
            .unwrap_err()
    ));
    assert!(refused(KucoinAdapter::default().discovery_url(other).unwrap_err()));
    assert_eq!(
        KucoinAdapter::new("https://futures.example/base/".to_owned())
            .discovery_url(EndpointKind::Primary)
            .unwrap(),
        "https://futures.example/api/v1/bullet-public"
    );
    assert!(matches!(
        KucoinAdapter::default().connection_target(EndpointKind::Primary, "{}", 0),
        Err(AdapterError::Discovery { .. })
    ));
    assert_eq!(BinanceAdapter::new().max_subscriptions(), 200);
}

#[test]
fn key_sets_are_ordered_and_without_duplicates() {
    let btc = || subscription(Provider::Binance, "BTCUSDT", Channel::Ticker);
    let eth = || subscription(Provider::Binance, "ETHUSDT", Channel::Ticker);
    let bybit = || subscription(Provider::Bybit, "ETHUSDT", Channel::Ticker);
    let mut set = KeySet::from_list(vec![eth(), btc(), bybit(), eth()]);
    assert_eq!(set.to_vec(), vec![bybit(), btc(), eth()]);
    assert!(!set.insert(eth()));
    assert!(set.remove(&eth()));
    assert!(!set.contains(&eth()));
    let other = KeySet::from_list(vec![btc(), eth()]);
    assert_eq!(set.difference(&other), vec![bybit()]);
    assert_eq!(set.intersection(&other), vec![btc()]);
}
