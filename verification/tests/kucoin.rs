use market_stream_gateway::domain::{
    CandleFinality, Channel, DataQuality, MarketKind, MarketPayload, Provider, SubscriptionKey,
    Ticker,
};
use market_stream_gateway::providers::kucoin::{KucoinAdapter, KucoinSession, ROTATE_AFTER_MS};
use market_stream_gateway::providers::{
    AdapterError, AdapterSession, EndpointKind, ParsedFrame, SubscriptionAction,
};
use std::collections::HashMap;
use url::Url;

fn subscription(symbol: &str, channel: Channel) -> SubscriptionKey {
    SubscriptionKey::new(
        Provider::Kucoin,
        MarketKind::LinearPerpetual,
        symbol,
        channel,
    )
    .unwrap()
}

fn session() -> KucoinSession {
    KucoinAdapter::default().session(EndpointKind::Primary, 0)
}

fn ticker(frame: ParsedFrame) -> Ticker {
    let ParsedFrame::Events(events) = frame else {
        panic!("expected events");
    };
    let MarketPayload::Ticker(ticker) = &events[0].payload else {
        panic!("expected ticker");
    };
    ticker.clone()
}

#[test]
fn discovery_uses_server_heartbeat_and_authenticated_url() {
    let body = r#"{"code":"200000","data":{"token":"public-token","instanceServers":[{"endpoint":"wss://ws-api-futures.kucoin.com/","encrypt":true,"protocol":"websocket","pingInterval":18000,"pingTimeout":10000}]}}"#;
    let target = KucoinAdapter::default()
        .connection_target(EndpointKind::Primary, body, 0)
        .unwrap();
    let url = Url::parse(&target.url).unwrap();
    let query = url.query_pairs().collect::<HashMap<_, _>>();
    assert_eq!(query.get("token").unwrap(), "public-token");
    assert_eq!(query.get("connectId").unwrap().len(), 32);
    assert_eq!(target.heartbeat_interval_ms, 9_000);
    assert_eq!(target.stale_after_ms, 28_000);
    assert_eq!(target.command_interval_ms, 125);
    assert_eq!(target.subscription_ack_timeout_ms, 15_000);
    assert_eq!(target.rotate_after_ms, Some(ROTATE_AFTER_MS));
}

#[test]
fn batches_dynamic_ticker_and_candle_commands() {
    let mut session = session();
    let subscriptions = vec![
        subscription("XBTUSDTM", Channel::Ticker),
        subscription("ETHUSDTM", Channel::Ticker),
        subscription("XBTUSDTM", Channel::Candle1m),
    ];
    let subscribe = session
        .subscription_messages(SubscriptionAction::Subscribe, &subscriptions)
        .unwrap();
    let unsubscribe = session
        .subscription_messages(SubscriptionAction::Unsubscribe, &subscriptions)
        .unwrap();
    assert_eq!(subscribe.len(), 7);
    assert_eq!(subscribe[0].expected_acknowledgements, 1);
    assert!(
        subscribe[0]
            .text
            .contains("/contractMarket/tickerV2:XBTUSDTM")
    );
    assert!(subscribe[2].text.contains("/contract/instrument:XBTUSDTM"));
    assert!(
        subscribe[3]
            .text
            .contains("/contractMarket/tickerV2:ETHUSDTM")
    );
    assert!(subscribe[6].text.contains("XBTUSDTM_1min"));
    assert!(
        unsubscribe
            .iter()
            .all(|message| message.text.contains("unsubscribe"))
    );
}

#[test]
fn merges_bbo_execution_and_instrument_state() {
    let mut session = session();
    let bbo = r#"{"topic":"/contractMarket/tickerV2:XBTUSDTM","type":"message","subject":"tickerV2","sn":1713516609293,"data":{"symbol":"XBTUSDTM","sequence":1713516609293,"bestBidSize":5044,"bestBidPrice":"86454.500","bestAskPrice":"86454.6","bestAskSize":73,"ts":1740641976241000000}}"#;
    let execution = r#"{"topic":"/contractMarket/execution:XBTUSDTM","type":"message","subject":"match","sn":1794100537695,"data":{"symbol":"XBTUSDTM","sequence":1794100537695,"price":"90503.9000","ts":1731898619520000000}}"#;
    let instrument = r#"{"topic":"/contract/instrument:XBTUSDTM","type":"message","subject":"mark.index.price","data":{"markPrice":90445.020000000000000001,"indexPrice":90444.9900,"granularity":1000,"timestamp":1731899129000}}"#;

    let value = ticker(session.parse(bbo, 1).unwrap());
    assert_eq!(value.bid.unwrap().value.as_str(), "86454.500");
    let value = ticker(session.parse(execution, 2).unwrap());
    assert_eq!(value.last.unwrap().value.as_str(), "90503.9000");
    assert!(value.bid.is_some());
    let value = ticker(session.parse(instrument, 3).unwrap());
    assert_eq!(
        value.mark.unwrap().value.as_str(),
        "90445.020000000000000001"
    );
    assert_eq!(value.index.unwrap().value.as_str(), "90444.9900");
    assert!(value.last.is_some());
}

#[test]
fn parses_funding_and_untrusted_unknown_finality_candle() {
    let mut session = session();
    let funding = r#"{"topic":"/contract/instrument:XBTUSDTM","type":"message","subject":"funding.rate","data":{"granularity":60000,"fundingRate":-0.002966000000000001,"timestamp":1551770400000}}"#;
    let candle = r#"{"topic":"/contractMarket/limitCandle:XBTUSDTM_1min","type":"message","subject":"candle.stick","data":{"symbol":"XBTUSDTM","candles":["1731898200","90638.60","90638.6","90640.1","90630.2","21.0","1903410.6"],"time":1731898208357}}"#;

    let value = ticker(session.parse(funding, 1).unwrap());
    assert_eq!(
        value.funding_rate.unwrap().value.as_str(),
        "-0.002966000000000001"
    );

    let ParsedFrame::Events(events) = session.parse(candle, 2).unwrap() else {
        panic!("expected candle event");
    };
    let MarketPayload::Candle(value) = &events[0].payload else {
        panic!("expected candle");
    };
    assert_eq!(value.start_time_ms, 1_731_898_200_000);
    assert_eq!(value.open.as_str(), "90638.60");
    assert_eq!(value.finality, CandleFinality::Unknown);
    assert_eq!(
        value.data_quality,
        vec![DataQuality::ProviderVolumeUntrusted]
    );
    assert!(value.base_volume.is_none());
    assert!(value.contract_volume.is_none());
    assert!(value.quote_volume.is_none());
}

#[test]
fn handles_control_frames_and_malformed_payloads() {
    let mut session = session();
    assert_eq!(
        session.parse(r#"{"id":"1","type":"welcome"}"#, 1).unwrap(),
        ParsedFrame::Ignored
    );
    assert_eq!(
        session.parse(r#"{"id":"1","type":"ack"}"#, 1).unwrap(),
        ParsedFrame::Acknowledgement {
            request_id: "1".to_owned()
        }
    );
    assert_eq!(
        session.parse(r#"{"id":"1","type":"pong"}"#, 1).unwrap(),
        ParsedFrame::Pong
    );
    assert!(matches!(
        session.parse(
            r#"{"id":"1","type":"error","code":400,"data":"bad topic"}"#,
            1
        ),
        Err(AdapterError::CommandRejected { .. })
    ));
    assert!(session.parse("{", 1).is_err());
    assert!(
        session
            .parse(
                r#"{"topic":"/contractMarket/tickerV2:XBTUSDTM","type":"message","subject":"tickerV2","sn":1,"data":{"symbol":"XBTUSDTM","sequence":2,"bestBidPrice":"1","bestAskPrice":"2","ts":1000000}}"#,
                1
            )
            .is_err()
    );
}

#[test]
fn rejects_inverse_futures_symbols() {
    let mut session = session();
    assert!(
        session
            .subscription_messages(
                SubscriptionAction::Subscribe,
                &[subscription("XBTUSDM", Channel::Ticker)]
            )
            .is_err()
    );
}

#[test]
fn the_values_of_a_discovery_answer_may_stand_in_arrays() {
    let body = r#"["200000",["public-token",[["wss://ws-api-futures.kucoin.com/",true,"websocket",18000,10000]]]]"#;
    let target = KucoinAdapter::default()
        .connection_target(EndpointKind::Primary, body, 0)
        .unwrap();
    assert!(target.url.starts_with("wss://ws-api-futures.kucoin.com/"));
    assert_eq!(target.heartbeat_interval_ms, 9_000);
}

#[test]
fn a_field_that_comes_twice_makes_no_discovery_answer() {
    let adapter = KucoinAdapter::default();
    let server = r#"{"endpoint":"wss://ws-api-futures.kucoin.com/","encrypt":true,"protocol":"websocket","pingInterval":18000,"pingTimeout":10000}"#;
    let body = |token: &str| {
        format!(r#"{{"code":"200000","data":{{{token},"instanceServers":[{server}]}}}}"#)
    };
    for (token, fits) in [
        (r#""token":"t""#, true),
        (r#""token":"t","note":1,"note":"\ud800""#, true),
        (r#""token":"t","token":"t""#, false),
    ] {
        let target = adapter.connection_target(EndpointKind::Primary, &body(token), 0);
        assert_eq!(target.is_ok(), fits, "{token}");
    }
}
