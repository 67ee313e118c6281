use market_stream_gateway::domain::{
    CandleFinality, Channel, MarketKind, MarketPayload, Provider, SubscriptionKey,
};
use market_stream_gateway::providers::bybit::{BybitAdapter, BybitSession, BYBIT_LINEAR_URL};
use market_stream_gateway::providers::{
    AdapterError, AdapterSession, EndpointKind, Heartbeat, ParsedFrame, SubscriptionAction,
};
use serde_json::Value;

fn session() -> BybitSession {
    BybitSession::new(0)
}

fn subscription(symbol: &str, channel: Channel) -> SubscriptionKey {
    SubscriptionKey::new(
        Provider::Bybit,
        MarketKind::LinearPerpetual,
        symbol,
        channel,
    )
    .unwrap()
}

#[test]
fn target_and_heartbeat_match_bybit_contract() {
    let adapter = BybitAdapter::new();
    let target = adapter
        .connection_target(EndpointKind::Primary)
        .unwrap();
    assert_eq!(target.url.as_str(), BYBIT_LINEAR_URL);
    assert_eq!(target.command_interval_ms, 150);
    assert_eq!(target.subscription_ack_timeout_ms, 15_000);
    assert_eq!(target.heartbeat_interval_ms, 20_000);
    assert_eq!(
        session().heartbeat(),
        Heartbeat::Text("{\"op\":\"ping\"}".to_owned())
    );
}

#[test]
fn subscriptions_are_dynamic_deduplicated_and_batched() {
    let mut session = session();
    let mut subscriptions = Vec::new();
    for index in 0..101 {
        subscriptions.push(subscription(&format!("COIN{index}USDT"), Channel::Ticker));
    }
    subscriptions.push(subscriptions[0].clone());

    let messages = session
        .subscription_messages(SubscriptionAction::Subscribe, &subscriptions)
        .unwrap();
    assert_eq!(messages.len(), 2);
    assert_eq!(messages[0].expected_acknowledgements, 1);
    assert_eq!(messages[0].request_id, "gateway-1");
    let first: Value = serde_json::from_str(&messages[0].text).unwrap();
    let second: Value = serde_json::from_str(&messages[1].text).unwrap();
    assert_eq!(first["op"], "subscribe");
    assert_eq!(first["args"].as_array().unwrap().len(), 100);
    assert_eq!(second["args"].as_array().unwrap().len(), 1);

    let unsubscribe = session
        .subscription_messages(
            SubscriptionAction::Unsubscribe,
            &[subscription("BTCUSDT", Channel::Candle1m)],
        )
        .unwrap();
    let unsubscribe: Value = serde_json::from_str(&unsubscribe[0].text).unwrap();
    assert_eq!(unsubscribe["op"], "unsubscribe");
    assert_eq!(unsubscribe["args"][0], "kline.1.BTCUSDT");
}

#[test]
fn sparse_ticker_deltas_materialize_cached_state() {
    let mut session = session();
    let snapshot = r#"{
        "topic":"tickers.BTCUSDT","type":"snapshot","ts":1760325052630,"cs":9532239429,
        "data":{"symbol":"BTCUSDT","lastPrice":"66666.60","markPrice":"66665.50",
                "indexPrice":"66664.40","bid1Price":"66666.50","ask1Price":"66666.60",
                "fundingRate":"-0.005","nextFundingTime":"1760342400000"}}
    "#;
    let delta = r#"{
        "topic":"tickers.BTCUSDT","type":"delta","ts":1760325052730,"cs":9532239430,
        "data":{"symbol":"BTCUSDT","lastPrice":"66667.10","bid1Price":"66667.00"}}
    "#;
    session.parse(snapshot, 1_760_325_052_637).unwrap();
    let ParsedFrame::Events(events) = session.parse(delta, 1_760_325_052_735).unwrap() else {
        panic!("expected events");
    };
    let MarketPayload::Ticker(ticker) = &events[0].payload else {
        panic!("expected ticker");
    };
    assert_eq!(ticker.last.as_ref().unwrap().value.as_str(), "66667.10");
    assert_eq!(
        ticker.last.as_ref().unwrap().observed_at_ms,
        1_760_325_052_730
    );
    assert_eq!(ticker.mark.as_ref().unwrap().value.as_str(), "66665.50");
    assert_eq!(
        ticker.mark.as_ref().unwrap().observed_at_ms,
        1_760_325_052_630
    );
    assert_eq!(ticker.ask.as_ref().unwrap().value.as_str(), "66666.60");
    assert_eq!(ticker.next_funding_time_ms, Some(1_760_342_400_000));
    assert_eq!(
        events[0].source_sequence.as_ref().unwrap().last.as_deref(),
        Some("9532239430")
    );
}

#[test]
fn kline_table_preserves_units_and_finality() {
    for (confirm, finality) in [
        (false, CandleFinality::Open),
        (true, CandleFinality::Closed),
    ] {
        let frame = format!(
            r#"{{
                "topic":"kline.1.ETHUSDT","type":"snapshot","ts":1672324988882,
                "data":[{{"start":1672324800000,"end":1672324859999,"interval":"1",
                "open":"16649.5","close":"16677","high":"16677","low":"16608",
                "volume":"2.081","turnover":"34666.4005","confirm":{confirm},
                "timestamp":1672324988881}}]
            }}"#
        );
        let ParsedFrame::Events(events) = session().parse(&frame, 1_672_324_988_888).unwrap()
        else {
            panic!("expected events");
        };
        let MarketPayload::Candle(candle) = &events[0].payload else {
            panic!("expected candle");
        };
        assert_eq!(candle.interval, "1m");
        assert_eq!(candle.end_time_ms, 1_672_324_860_000);
        assert_eq!(candle.base_volume.as_ref().unwrap().as_str(), "2.081");
        assert_eq!(candle.quote_volume.as_ref().unwrap().as_str(), "34666.4005");
        assert_eq!(candle.contract_volume, None);
        assert_eq!(candle.finality, finality);
    }
}

#[test]
fn acknowledgements_errors_and_malformed_payloads_are_explicit() {
    let mut session = session();
    assert_eq!(
        session
            .parse(
                r#"{"success":true,"ret_msg":"","op":"subscribe","req_id":"gateway-1"}"#,
                1
            )
            .unwrap(),
        ParsedFrame::Acknowledgement {
            request_id: "gateway-1".to_owned()
        }
    );
    assert_eq!(
        session
            .parse(r#"{"success":true,"ret_msg":"pong","op":"ping"}"#, 1)
            .unwrap(),
        ParsedFrame::Pong
    );
    assert!(matches!(
        session.parse(
            r#"{"success":false,"ret_msg":"invalid topic","op":"subscribe"}"#,
            1
        ),
        Err(AdapterError::CommandRejected { .. })
    ));
    assert!(matches!(
        session.parse(
            r#"{"topic":"tickers.BTCUSDT","type":"delta","ts":1,"cs":2,"data":{"symbol":"BTCUSDT","lastPrice":12.3}}"#,
            1
        ),
        Err(AdapterError::InvalidPayload { .. })
    ));
    assert!(matches!(
        session.parse("not-json", 1),
        Err(AdapterError::InvalidPayload { .. })
    ));
}

#[test]
fn bybit_values_may_stand_in_an_array() {
    let frame = r#"{"topic":"kline.1.ETHUSDT","type":"snapshot","ts":1672324988882,
        "data":[[1672324800000,1672324859999,"1","16649.5","16677","16608","16670","2.081",
                 "34666.4005",true,1672324988881]]}"#;
    let ParsedFrame::Events(events) = session().parse(frame, 1_672_324_988_888).unwrap() else {
        panic!("expected events");
    };
    let MarketPayload::Candle(candle) = &events[0].payload else {
        panic!("expected candle");
    };
    assert_eq!(candle.high.as_str(), "16677");
    assert_eq!(candle.close.as_str(), "16670");
    assert_eq!(candle.finality, CandleFinality::Closed);
    let ticker = r#"{"topic":"tickers.ETHUSDT","type":"snapshot","ts":1,"cs":2,
        "data":[["ETHUSDT","1.5",null,null,null,null,null,null]]}"#;
    let ParsedFrame::Events(events) = session().parse(ticker, 3).unwrap() else {
        panic!("expected events");
    };
    let MarketPayload::Ticker(ticker) = &events[0].payload else {
        panic!("expected ticker");
    };
    assert_eq!(ticker.last.as_ref().unwrap().value.as_str(), "1.5");
}
