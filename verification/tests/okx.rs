use market_stream_gateway::domain::{
    CandleFinality, Channel, MarketKind, MarketPayload, Provider, SubscriptionKey,
};
use market_stream_gateway::providers::okx::{OkxAdapter, OkxSession};
use market_stream_gateway::providers::{
    AdapterError, AdapterSession, EndpointKind, ParsedFrame, SubscriptionAction,
};
use serde_json::Value;

fn subscription(symbol: &str, channel: Channel) -> SubscriptionKey {
    SubscriptionKey::new(Provider::Okx, MarketKind::LinearPerpetual, symbol, channel).unwrap()
}

fn session(endpoint: EndpointKind) -> OkxSession {
    OkxAdapter::default().session(endpoint, 0)
}

#[test]
fn routes_tickers_and_candles_to_separate_endpoints() {
    let adapter = OkxAdapter::default();
    assert_eq!(adapter.endpoint_for(Channel::Ticker), EndpointKind::Public);
    assert_eq!(
        adapter.endpoint_for(Channel::Candle1m),
        EndpointKind::Business
    );
}

#[test]
fn target_paces_commands_and_bounds_subscription_ack_waits() {
    let target = OkxAdapter::default()
        .connection_target(EndpointKind::Public)
        .unwrap();
    assert_eq!(target.command_interval_ms, 400);
    assert_eq!(target.subscription_ack_timeout_ms, 15_000);
}

#[test]
fn expands_ticker_subscriptions_and_unsubscribes_symmetrically() {
    let mut session = session(EndpointKind::Public);
    let key = subscription("btc-usdt-swap", Channel::Ticker);
    let subscribe = session
        .subscription_messages(SubscriptionAction::Subscribe, std::slice::from_ref(&key))
        .unwrap();
    let unsubscribe = session
        .subscription_messages(SubscriptionAction::Unsubscribe, &[key])
        .unwrap();

    assert_eq!(subscribe.len(), 1);
    assert_eq!(subscribe[0].request_id, "1");
    assert_eq!(subscribe[0].expected_acknowledgements, 3);
    let subscribe: Value = serde_json::from_str(&subscribe[0].text).unwrap();
    let unsubscribe: Value = serde_json::from_str(&unsubscribe[0].text).unwrap();
    assert_eq!(subscribe["op"], "subscribe");
    assert_eq!(unsubscribe["op"], "unsubscribe");
    assert_eq!(subscribe["args"].as_array().unwrap().len(), 3);
    assert_eq!(subscribe["args"], unsubscribe["args"]);
    assert_eq!(subscribe["args"][1]["channel"], "mark-price");
}

#[test]
fn rejects_wrong_endpoint_and_inverse_contract() {
    let mut public = session(EndpointKind::Public);
    assert!(
        public
            .subscription_messages(
                SubscriptionAction::Subscribe,
                &[subscription("BTC-USDT-SWAP", Channel::Candle1m)]
            )
            .is_err()
    );
    assert!(
        public
            .subscription_messages(
                SubscriptionAction::Subscribe,
                &[subscription("BTC-USD-SWAP", Channel::Ticker)]
            )
            .is_err()
    );
}

#[test]
fn parses_ticker_mark_and_funding_updates_losslessly() {
    let mut session = session(EndpointKind::Public);
    let ticker = r#"{"arg":{"channel":"tickers","instId":"BTC-USDT-SWAP"},"data":[{"instType":"SWAP","instId":"BTC-USDT-SWAP","last":"9999.9900","askPx":"10000.01","bidPx":"9999.98","ts":"1597026383085"}]}"#;
    let mark = r#"{"arg":{"channel":"mark-price","instId":"BTC-USDT-SWAP"},"data":[{"instType":"SWAP","instId":"BTC-USDT-SWAP","markPx":"9999.00000001","ts":"1597026383090"}]}"#;
    let funding = r#"{"arg":{"channel":"funding-rate","instId":"BTC-USDT-SWAP"},"data":[{"instType":"SWAP","instId":"BTC-USDT-SWAP","fundingRate":"0.0001875391284828","fundingTime":"1700726400000","nextFundingTime":"1700755200000","ts":"1700724675402"}]}"#;

    let ParsedFrame::Events(events) = session.parse(ticker, 10).unwrap() else {
        panic!("expected ticker event");
    };
    let MarketPayload::Ticker(value) = &events[0].payload else {
        panic!("expected ticker payload");
    };
    assert_eq!(value.last.as_ref().unwrap().value.as_str(), "9999.9900");

    let ParsedFrame::Events(events) = session.parse(mark, 11).unwrap() else {
        panic!("expected mark event");
    };
    let MarketPayload::Ticker(value) = &events[0].payload else {
        panic!("expected ticker payload");
    };
    assert_eq!(value.mark.as_ref().unwrap().value.as_str(), "9999.00000001");
    assert_eq!(value.last.as_ref().unwrap().value.as_str(), "9999.9900");

    let ParsedFrame::Events(events) = session.parse(funding, 12).unwrap() else {
        panic!("expected funding event");
    };
    let MarketPayload::Ticker(value) = &events[0].payload else {
        panic!("expected ticker payload");
    };
    assert_eq!(value.next_funding_time_ms, Some(1_700_726_400_000));
    assert!(value.mark.is_some());
}

#[test]
fn parses_derivative_candle_volume_and_finality() {
    let mut session = session(EndpointKind::Business);
    let message = r#"{"arg":{"channel":"candle1m","instId":"BTC-USDT-SWAP"},"data":[["1597026360000","8533.0200","8553.74","8527.17","8548.26","45247","529.5858061","4529585.22","1"]]}"#;
    let ParsedFrame::Events(events) = session.parse(message, 1_597_026_383_100).unwrap() else {
        panic!("expected candle event");
    };
    let MarketPayload::Candle(candle) = &events[0].payload else {
        panic!("expected candle payload");
    };
    assert_eq!(candle.start_time_ms, 1_597_026_360_000);
    assert_eq!(candle.end_time_ms, 1_597_026_420_000);
    assert_eq!(candle.open.as_str(), "8533.0200");
    assert_eq!(candle.contract_volume.as_ref().unwrap().as_str(), "45247");
    assert_eq!(candle.base_volume.as_ref().unwrap().as_str(), "529.5858061");
    assert_eq!(candle.finality, CandleFinality::Closed);
}

#[test]
fn handles_acks_errors_pongs_and_malformed_payloads() {
    let mut session = session(EndpointKind::Public);
    assert_eq!(session.parse("pong", 1).unwrap(), ParsedFrame::Pong);
    assert_eq!(
        session
            .parse(
                r#"{"id":"1","event":"subscribe","arg":{"channel":"tickers"}}"#,
                1,
            )
            .unwrap(),
        ParsedFrame::Acknowledgement {
            request_id: "1".to_owned()
        }
    );
    assert!(matches!(
        session.parse(
            r#"{"event":"error","code":"60012","msg":"invalid request"}"#,
            1
        ),
        Err(AdapterError::CommandRejected { .. })
    ));
    assert!(session.parse("{", 1).is_err());
    assert!(
        session
            .parse(
                r#"{"arg":{"channel":"tickers","instId":"BTC-USDT-SWAP"},"data":[{"instId":"BTC-USDT-SWAP","last":"not-a-price","ts":"1"}]}"#,
                1
            )
            .is_err()
    );
}

#[test]
fn empty_data_is_valid_and_unsubscribe_clears_ticker_state() {
    let mut session = session(EndpointKind::Public);
    let ticker = r#"{"arg":{"channel":"tickers","instId":"BTC-USDT-SWAP"},"data":[{"instId":"BTC-USDT-SWAP","last":"1.00","ts":"10"}]}"#;
    let mark = r#"{"arg":{"channel":"mark-price","instId":"BTC-USDT-SWAP"},"data":[{"instId":"BTC-USDT-SWAP","markPx":"0.99","ts":"11"}]}"#;
    session.parse(ticker, 1).unwrap();
    session
        .subscription_messages(
            SubscriptionAction::Unsubscribe,
            &[subscription("BTC-USDT-SWAP", Channel::Ticker)],
        )
        .unwrap();
    let ParsedFrame::Events(events) = session.parse(mark, 2).unwrap() else {
        panic!("expected mark event");
    };
    let MarketPayload::Ticker(value) = &events[0].payload else {
        panic!("expected ticker payload");
    };
    assert!(value.last.is_none());
    assert!(value.mark.is_some());
    assert_eq!(
        session
            .parse(
                r#"{"arg":{"channel":"tickers","instId":"BTC-USDT-SWAP"},"data":[]}"#,
                3,
            )
            .unwrap(),
        ParsedFrame::Events(Vec::new())
    );
}
