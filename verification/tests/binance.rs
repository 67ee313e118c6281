use market_stream_gateway::domain::{
    CandleFinality, Channel, MarketKind, MarketPayload, Provider, SubscriptionKey,
};
use market_stream_gateway::providers::binance::{BinanceAdapter, BinanceSession, BINANCE_MARKET_URL};
use market_stream_gateway::providers::{
    AdapterError, AdapterSession, EndpointKind, Heartbeat, ParsedFrame, SubscriptionAction,
};
use serde_json::Value;

fn session() -> BinanceSession {
    BinanceSession::new(0)
}

fn subscription(symbol: &str, channel: Channel) -> SubscriptionKey {
    SubscriptionKey::new(
        Provider::Binance,
        MarketKind::LinearPerpetual,
        symbol,
        channel,
    )
    .unwrap()
}

#[test]
fn target_uses_new_market_route_and_rotates_before_forced_close() {
    let adapter = BinanceAdapter::new();
    let target = adapter
        .connection_target(EndpointKind::Primary)
        .unwrap();
    assert_eq!(target.url.as_str(), BINANCE_MARKET_URL);
    assert_eq!(target.command_interval_ms, 125);
    assert_eq!(target.subscription_ack_timeout_ms, 15_000);
    assert_eq!(target.heartbeat_interval_ms, 180_000);
    assert_eq!(target.rotate_after_ms, Some(86_100_000));
    assert_eq!(session().heartbeat(), Heartbeat::WebSocketPing(Vec::new()));
}

#[test]
fn ticker_subscription_expands_to_ticker_and_mark_price() {
    let mut session = session();
    let messages = session
        .subscription_messages(
            SubscriptionAction::Subscribe,
            &[
                subscription("BTCUSDT", Channel::Ticker),
                subscription("BTCUSDT", Channel::Candle1m),
                subscription("BTCUSDT", Channel::Ticker),
            ],
        )
        .unwrap();
    assert_eq!(messages.len(), 1);
    assert_eq!(messages[0].request_id, "1");
    assert_eq!(messages[0].expected_acknowledgements, 1);
    let command: Value = serde_json::from_str(&messages[0].text).unwrap();
    assert_eq!(command["method"], "SUBSCRIBE");
    assert_eq!(
        command["params"],
        serde_json::from_str::<Value>(r#"["btcusdt@ticker", "btcusdt@markPrice@1s", "btcusdt@kline_1m"]"#).unwrap()
    );
    assert_eq!(command["id"], 1);
}

#[test]
fn large_subscription_sets_are_batched() {
    let subscriptions = (0..101)
        .map(|index| subscription(&format!("COIN{index}USDT"), Channel::Ticker))
        .collect::<Vec<_>>();
    let messages = session()
        .subscription_messages(SubscriptionAction::Subscribe, &subscriptions)
        .unwrap();
    assert_eq!(messages.len(), 2);
    let first: Value = serde_json::from_str(&messages[0].text).unwrap();
    let second: Value = serde_json::from_str(&messages[1].text).unwrap();
    assert_eq!(first["params"].as_array().unwrap().len(), 200);
    assert_eq!(second["params"].as_array().unwrap().len(), 2);
}

#[test]
fn ticker_and_mark_price_updates_materialize_one_ticker() {
    let mut session = session();
    let ticker = r#"{
        "e":"24hrTicker","E":1720000000000,"s":"BTCUSDT","c":"60123.40",
        "F":100,"L":200,"p":"1","P":"2","w":"3","Q":"4","o":"5",
        "h":"6","l":"7","v":"8","q":"9","O":1,"C":2,"n":101
    }"#;
    let mark = r#"{
        "e":"markPriceUpdate","E":1720000000100,"s":"BTCUSDT",
        "p":"60120.10","i":"60118.20","P":"60119.00","r":"0.00010000",
        "T":1720022400000
    }"#;

    session.parse(ticker, 1_720_000_000_005).unwrap();
    let ParsedFrame::Events(events) = session.parse(mark, 1_720_000_000_107).unwrap() else {
        panic!("expected events");
    };
    let MarketPayload::Ticker(ticker) = &events[0].payload else {
        panic!("expected ticker");
    };
    assert_eq!(ticker.last.as_ref().unwrap().value.as_str(), "60123.40");
    assert_eq!(
        ticker.last.as_ref().unwrap().observed_at_ms,
        1_720_000_000_000
    );
    assert_eq!(ticker.mark.as_ref().unwrap().value.as_str(), "60120.10");
    assert_eq!(
        ticker.mark.as_ref().unwrap().observed_at_ms,
        1_720_000_000_100
    );
    assert_eq!(ticker.index.as_ref().unwrap().value.as_str(), "60118.20");
    assert_eq!(
        ticker.funding_rate.as_ref().unwrap().value.as_str(),
        "0.00010000"
    );
    assert_eq!(ticker.next_funding_time_ms, Some(1_720_022_400_000));
}

#[test]
fn kline_table_preserves_volume_units_finality_and_sequence() {
    for (closed, finality) in [
        (false, CandleFinality::Open),
        (true, CandleFinality::Closed),
    ] {
        let frame = format!(
            r#"{{
              "e":"kline","E":1672515782136,"s":"ETHUSDT","k":{{
                "t":1672515780000,"T":1672515839999,"s":"ETHUSDT","i":"1m",
                "f":100,"L":200,"o":"0.0010","c":"0.0020","h":"0.0025",
                "l":"0.0015","v":"1000","n":100,"x":{closed},"q":"1.0000",
                "V":"500","Q":"0.500","B":"123456"
              }}
            }}"#
        );
        let ParsedFrame::Events(events) = session().parse(&frame, 1_672_515_782_140).unwrap()
        else {
            panic!("expected events");
        };
        let MarketPayload::Candle(candle) = &events[0].payload else {
            panic!("expected candle");
        };
        assert_eq!(candle.base_volume.as_ref().unwrap().as_str(), "1000");
        assert_eq!(candle.quote_volume.as_ref().unwrap().as_str(), "1.0000");
        assert_eq!(candle.contract_volume, None);
        assert_eq!(candle.end_time_ms, 1_672_515_840_000);
        assert_eq!(candle.finality, finality);
        let sequence = events[0].source_sequence.as_ref().unwrap();
        assert_eq!(sequence.first.as_deref(), Some("100"));
        assert_eq!(sequence.last.as_deref(), Some("200"));
    }
}

#[test]
fn combined_frames_ack_errors_and_malformed_decimals_are_handled() {
    let mut session = session();
    assert_eq!(
        session.parse(r#"{"result":null,"id":1}"#, 1).unwrap(),
        ParsedFrame::Acknowledgement {
            request_id: "1".to_owned()
        }
    );
    assert!(matches!(
        session.parse(r#"{"code":2,"msg":"Invalid request","id":1}"#, 1),
        Err(AdapterError::CommandRejected { .. })
    ));

    let combined = r#"{
        "stream":"btcusdt@markPrice@1s",
        "data":{"e":"markPriceUpdate","E":10,"s":"BTCUSDT","p":"2.1",
                "i":"2.0","r":"0.01","T":20}
    }"#;
    assert!(matches!(
        session.parse(combined, 11).unwrap(),
        ParsedFrame::Events(_)
    ));
    assert!(matches!(
        session.parse(
            r#"{"e":"24hrTicker","E":10,"s":"BTCUSDT","c":2.1,"F":1,"L":2}"#,
            11
        ),
        Err(AdapterError::InvalidPayload { .. })
    ));
    assert!(matches!(
        session.parse("[]", 1),
        Err(AdapterError::InvalidPayload { .. })
    ));
}

#[test]
fn binance_kline_values_may_stand_in_an_array() {
    let kline = r#"[1672515780000,1672515839999,"ETHUSDT","1m",100,200,"0.0010","0.0020","0.0025","0.0015","1000","1.0000",true"#;
    let frame = |end: &str| {
        format!(r#"{{"e":"kline","E":1672515782136,"s":"ETHUSDT","k":{kline}{end}}}"#)
    };
    let ParsedFrame::Events(events) = session()
        .parse(&frame("]"), 1_672_515_782_140)
        .unwrap()
    else {
        panic!("expected events");
    };
    let MarketPayload::Candle(candle) = &events[0].payload else {
        panic!("expected candle");
    };
    assert_eq!(candle.open.as_str(), "0.0010");
    assert_eq!(candle.close.as_str(), "0.0020");
    assert_eq!(candle.high.as_str(), "0.0025");
    assert_eq!(candle.low.as_str(), "0.0015");
    assert_eq!(candle.finality, CandleFinality::Closed);
    assert!(session().parse(&frame(",1]"), 1_672_515_782_140).is_err());
}
