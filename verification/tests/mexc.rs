use market_stream_gateway::domain::{
    CandleFinality, Channel, MarketKind, MarketPayload, Provider, SubscriptionKey,
};
use market_stream_gateway::providers::mexc::{MexcAdapter, MexcSession, MEXC_URL};
use market_stream_gateway::providers::{
    AdapterError, AdapterSession, EndpointKind, Heartbeat, ParsedFrame, SubscriptionAction,
};
use serde_json::Value;

fn session() -> MexcSession {
    MexcAdapter::new().session(EndpointKind::Primary, 0)
}

fn subscription(symbol: &str, channel: Channel) -> SubscriptionKey {
    SubscriptionKey::new(Provider::Mexc, MarketKind::LinearPerpetual, symbol, channel).unwrap()
}

#[test]
fn target_and_heartbeat_match_mexc_contract() {
    let adapter = MexcAdapter::new();
    let target = adapter
        .connection_target(EndpointKind::Primary)
        .unwrap();
    assert_eq!(target.url.as_str(), MEXC_URL);
    assert_eq!(target.command_interval_ms, 250);
    assert_eq!(target.subscription_ack_timeout_ms, 15_000);
    assert_eq!(target.heartbeat_interval_ms, 15_000);
    assert_eq!(target.stale_after_ms, 45_000);
    assert_eq!(target.rotate_after_ms, None);
    assert_eq!(
        session().heartbeat(),
        Heartbeat::Text("{\"method\":\"ping\"}".to_owned())
    );
}

#[test]
fn subscriptions_expand_deduplicate_and_model_asymmetric_acks() {
    let mut session = session();
    let subscriptions = [
        subscription("FET_USDT", Channel::Ticker),
        subscription("FET_USDT", Channel::Ticker),
        subscription("FET_USDT", Channel::Candle1m),
    ];
    let commands = session
        .subscription_messages(SubscriptionAction::Subscribe, &subscriptions)
        .unwrap();
    assert_eq!(commands.len(), 3);
    assert_eq!(commands[0].request_id, "mexc-1");
    assert_eq!(commands[0].expected_acknowledgements, 1);
    assert_eq!(
        serde_json::from_str::<Value>(&commands[0].text).unwrap(),
        serde_json::from_str::<Value>(r#"{ "method": "sub.ticker", "param": {"symbol": "FET_USDT"}, "gzip": false }"#).unwrap()
    );
    assert_eq!(
        serde_json::from_str::<Value>(&commands[1].text).unwrap()["method"],
        "sub.funding.rate"
    );
    assert_eq!(
        serde_json::from_str::<Value>(&commands[2].text).unwrap(),
        serde_json::from_str::<Value>(r#"{ "method": "sub.kline", "param": {"symbol": "FET_USDT", "interval": "Min1"}, "gzip": false }"#).unwrap()
    );

    let commands = session
        .subscription_messages(SubscriptionAction::Unsubscribe, &subscriptions)
        .unwrap();
    assert_eq!(commands.len(), 3);
    assert!(
        commands
            .iter()
            .all(|command| command.expected_acknowledgements == 0)
    );
    let kline = serde_json::from_str::<Value>(&commands[2].text).unwrap();
    assert_eq!(kline["method"], "unsub.kline");
    assert!(kline["param"].get("interval").is_none());
}

#[test]
fn acknowledgement_fifo_restores_internal_request_ids() {
    let mut adapter_session = session();
    adapter_session
        .subscription_messages(
            SubscriptionAction::Subscribe,
            &[subscription("FET_USDT", Channel::Ticker)],
        )
        .unwrap();
    assert_eq!(
        adapter_session
            .parse(
                r#"{"channel":"rs.sub.ticker","data":"success","ts":1785558226831}"#,
                1
            )
            .unwrap(),
        ParsedFrame::Acknowledgement {
            request_id: "mexc-1".to_owned()
        }
    );
    assert_eq!(
        adapter_session
            .parse(
                r#"{"channel":"rs.sub.funding.rate","data":"success","ts":1785558227344}"#,
                1
            )
            .unwrap(),
        ParsedFrame::Acknowledgement {
            request_id: "mexc-2".to_owned()
        }
    );

    let mut mismatched = session();
    mismatched
        .subscription_messages(
            SubscriptionAction::Subscribe,
            &[subscription("FET_USDT", Channel::Candle1m)],
        )
        .unwrap();
    assert!(matches!(
        mismatched.parse(r#"{"channel":"rs.sub.ticker","data":"success","ts":1}"#, 1),
        Err(AdapterError::InvalidPayload { .. })
    ));
}

#[test]
fn live_ticker_shape_normalizes_all_price_fields() {
    let frame = r#"{
        "symbol":"FET_USDT",
        "data":{"symbol":"FET_USDT","lastPrice":0.1419,"fairPrice":0.1418,
        "indexPrice":0.1420,"timestamp":1785558225941,"bid1":0.1418,
        "ask1":0.1419,"fundingRate":0.000062},
        "channel":"push.ticker","ts":1785558225941
    }"#;
    let ParsedFrame::Events(events) = session().parse(frame, 1_785_558_225_950).unwrap() else {
        panic!("expected ticker event");
    };
    assert_eq!(events.len(), 1);
    assert_eq!(events[0].provider, Provider::Mexc);
    assert_eq!(events[0].symbol, "FET_USDT");
    assert_eq!(events[0].exchange_time_ms, Some(1_785_558_225_941));
    let MarketPayload::Ticker(ticker) = &events[0].payload else {
        panic!("expected ticker");
    };
    assert_eq!(ticker.last.as_ref().unwrap().value.as_str(), "0.1419");
    assert_eq!(ticker.mark.as_ref().unwrap().value.as_str(), "0.1418");
    assert_eq!(ticker.index.as_ref().unwrap().value.as_str(), "0.1420");
    assert_eq!(ticker.bid.as_ref().unwrap().value.as_str(), "0.1418");
    assert_eq!(ticker.ask.as_ref().unwrap().value.as_str(), "0.1419");
    assert_eq!(
        ticker.funding_rate.as_ref().unwrap().value.as_str(),
        "0.000062"
    );
    assert_eq!(
        ticker.mark.as_ref().unwrap().observed_at_ms,
        1_785_558_225_941
    );
}

#[test]
fn funding_updates_merge_with_ticker_and_preserve_next_settlement() {
    let mut session = session();
    let funding = r#"{"symbol":"FET_USDT","data":{"symbol":"FET_USDT",
        "rate":0.000064,"nextSettleTime":1785571200000},
        "channel":"push.funding.rate","ts":1785558240772}"#;
    let ParsedFrame::Events(events) = session.parse(funding, 1).unwrap() else {
        panic!("expected an empty event batch");
    };
    assert!(events.is_empty());

    let ticker = r#"{"symbol":"FET_USDT","data":{"symbol":"FET_USDT",
        "lastPrice":0.1420,"fairPrice":0.1419,"indexPrice":0.1420,
        "timestamp":1785558241000,"bid1":0.1419,"ask1":0.1420},
        "channel":"push.ticker","ts":1785558241000}"#;
    let ParsedFrame::Events(events) = session.parse(ticker, 2).unwrap() else {
        panic!("expected ticker event");
    };
    let MarketPayload::Ticker(ticker) = &events[0].payload else {
        panic!("expected ticker");
    };
    assert_eq!(ticker.next_funding_time_ms, Some(1_785_571_200_000));
    assert_eq!(
        ticker.funding_rate.as_ref().unwrap().value.as_str(),
        "0.000064"
    );
    assert_eq!(
        ticker.funding_rate.as_ref().unwrap().observed_at_ms,
        1_785_558_240_772
    );

    let documented_alias = r#"{"symbol":"FET_USDT","data":{"symbol":"FET_USDT",
        "fundingRate":0.000075,"nextSettleTime":1785571200000},
        "channel":"push.funding.rate","ts":1785558242000}"#;
    let ParsedFrame::Events(events) = session.parse(documented_alias, 3).unwrap() else {
        panic!("expected ticker event");
    };
    let MarketPayload::Ticker(ticker) = &events[0].payload else {
        panic!("expected ticker");
    };
    assert_eq!(
        ticker.funding_rate.as_ref().unwrap().value.as_str(),
        "0.000075"
    );
}

#[test]
fn candle_preserves_documented_contract_and_quote_units() {
    let frame = r#"{
        "symbol":"FET_USDT",
        "data":{"symbol":"FET_USDT","interval":"Min1","t":1785558180,
        "o":0.1420,"c":0.1420,"h":0.1420,"l":0.1419,
        "a":1.066397E3,"q":751,"ro":0.1419,"rc":0.1420,"rh":0.1420,"rl":0.1419},
        "channel":"push.kline"
    }"#;
    let ParsedFrame::Events(events) = session().parse(frame, 1_785_558_231_250).unwrap() else {
        panic!("expected candle event");
    };
    let MarketPayload::Candle(candle) = &events[0].payload else {
        panic!("expected candle");
    };
    assert_eq!(candle.start_time_ms, 1_785_558_180_000);
    assert_eq!(candle.end_time_ms, 1_785_558_240_000);
    assert_eq!(candle.open.as_str(), "0.1420");
    assert_eq!(candle.contract_volume.as_ref().unwrap().as_str(), "751");
    assert_eq!(candle.quote_volume.as_ref().unwrap().as_str(), "1066.397");
    assert_eq!(candle.base_volume, None);
    assert_eq!(candle.finality, CandleFinality::Unknown);
    assert_eq!(events[0].exchange_time_ms, None);
}

#[test]
fn errors_pongs_and_invalid_contracts_are_explicit() {
    let mut session = session();
    assert_eq!(
        session
            .parse(
                r#"{"channel":"pong","data":1785558227616,"ts":1785558227616}"#,
                1
            )
            .unwrap(),
        ParsedFrame::Pong
    );
    assert!(matches!(
        session.parse(
            r#"{"channel":"rs.error","data":"Contract [NOPE_USDT] not exists","ts":1}"#,
            1
        ),
        Err(AdapterError::CommandRejected { .. })
    ));
    assert!(matches!(
        session.subscription_messages(
            SubscriptionAction::Subscribe,
            &[subscription("FETUSDT", Channel::Ticker)]
        ),
        Err(AdapterError::InvalidSubscription { .. })
    ));
    assert!(matches!(
        session.parse(
            r#"{"symbol":"FET_USDT","data":{"symbol":"BTC_USDT","lastPrice":1,
            "timestamp":2},"channel":"push.ticker","ts":2}"#,
            3
        ),
        Err(AdapterError::InvalidPayload { .. })
    ));
    assert!(matches!(
        session.parse("not-json", 1),
        Err(AdapterError::InvalidPayload { .. })
    ));
}
