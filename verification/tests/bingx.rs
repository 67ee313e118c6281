use market_stream_gateway::domain::{
    CandleFinality, Channel, MarketKind, MarketPayload, Provider, SubscriptionKey,
};
use market_stream_gateway::providers::bingx::{BingxAdapter, BingxSession, BINGX_SWAP_URL};
use market_stream_gateway::providers::{
    AdapterError, AdapterSession, EndpointKind, Heartbeat, ParsedFrame, SubscriptionAction,
};
use serde_json::Value;

fn session() -> BingxSession {
    BingxSession::new(0)
}

fn subscription(symbol: &str, channel: Channel) -> SubscriptionKey {
    SubscriptionKey::new(
        Provider::Bingx,
        MarketKind::LinearPerpetual,
        symbol,
        channel,
    )
    .unwrap()
}

#[test]
fn target_and_heartbeat_match_bingx_contract() {
    let target = BingxAdapter::new()
        .connection_target(EndpointKind::Primary)
        .unwrap();
    assert_eq!(target.url.as_str(), BINGX_SWAP_URL);
    assert_eq!(target.command_interval_ms, 100);
    assert_eq!(target.subscription_ack_timeout_ms, 15_000);
    assert_eq!(target.heartbeat_interval_ms, 4_000);
    assert_eq!(target.rotate_after_ms, None);
    assert_eq!(session().heartbeat(), Heartbeat::Text("Pong".to_owned()));
}

#[test]
fn subscriptions_expand_deduplicate_and_enforce_topic_limit() {
    let mut session = session();
    let messages = session
        .subscription_messages(
            SubscriptionAction::Subscribe,
            &[
                subscription("FET-USDT", Channel::Ticker),
                subscription("FET-USDT", Channel::Candle1m),
                subscription("FET-USDT", Channel::Ticker),
            ],
        )
        .unwrap();
    assert_eq!(messages.len(), 4);
    assert_eq!(messages[0].request_id, "gateway-1");
    assert_eq!(messages[0].expected_acknowledgements, 1);
    let commands = messages
        .iter()
        .map(|message| serde_json::from_str::<Value>(&message.text).unwrap())
        .collect::<Vec<_>>();
    assert_eq!(commands[0]["reqType"], "sub");
    assert_eq!(commands[0]["dataType"], "FET-USDT@ticker");
    assert_eq!(commands[1]["dataType"], "FET-USDT@markPrice");
    assert_eq!(commands[2]["dataType"], "FET-USDT@bookTicker");
    assert_eq!(commands[3]["dataType"], "FET-USDT@kline_1m");

    assert!(
        session
            .subscription_messages(
                SubscriptionAction::Subscribe,
                &(0..100)
                    .map(|index| subscription(&format!("COIN{index}-USDT"), Channel::Ticker))
                    .collect::<Vec<_>>(),
            )
            .is_err()
    );
}

#[test]
fn unsubscribe_only_emits_active_topics_and_clears_cached_ticker() {
    let mut session = session();
    let key = subscription("FET-USDT", Channel::Ticker);
    session
        .subscription_messages(SubscriptionAction::Subscribe, std::slice::from_ref(&key))
        .unwrap();
    session
        .parse(
            r#"{"code":0,"dataType":"FET-USDT@ticker","data":{"s":"FET-USDT","c":"0.1420"}}"#,
            1,
        )
        .unwrap();

    let messages = session
        .subscription_messages(SubscriptionAction::Unsubscribe, std::slice::from_ref(&key))
        .unwrap();
    assert_eq!(messages.len(), 3);
    assert!(
        messages
            .iter()
            .all(|message| message.text.contains("unsub"))
    );
    let ParsedFrame::Events(events) = session
        .parse(
            r#"{"code":0,"dataType":"FET-USDT@markPrice","data":{"E":2,"s":"FET-USDT","p":"0.15"}}"#,
            2,
        )
        .unwrap()
    else {
        panic!("expected events");
    };
    let MarketPayload::Ticker(ticker) = &events[0].payload else {
        panic!("expected ticker");
    };
    assert!(ticker.last.is_none());
    assert!(
        session
            .subscription_messages(SubscriptionAction::Unsubscribe, &[key])
            .unwrap()
            .is_empty()
    );
}

#[test]
fn ticker_and_mark_updates_materialize_one_ticker() {
    let mut session = session();
    let ticker = r#"{
        "code":0,"dataType":"FET-USDT@ticker","data":{
          "e":"24hTicker","E":1785558332089,"s":"FET-USDT","p":"0.0001",
          "P":"0.07","c":"0.1420","L":"56","h":"0.1437","l":"0.1402",
          "v":"18854367","q":"2672510.54","o":"0.1419","O":1785557986213,
          "C":1785558331217,"A":"0.1444","a":"242870","B":"0.1417","b":"10116617"
        }}"#;
    let mark = r#"{
        "code":0,"dataType":"FET-USDT@markPrice","data":{
          "e":"markPriceUpdate","E":1785558332239,"s":"FET-USDT","p":"0.1420"
        }}"#;
    let book = r#"{
        "code":0,"dataType":"FET-USDT@bookTicker","data":{
          "e":"bookTicker","u":267107655,"E":1785558331765,"T":1785558331777,
          "s":"FET-USDT","b":"0.1417","B":"10116617","a":"0.1422","A":"7223530"
        }}"#;

    session.parse(ticker, 1_785_558_332_100).unwrap();
    session.parse(mark, 1_785_558_332_250).unwrap();
    let ParsedFrame::Events(events) = session.parse(book, 1_785_558_332_260).unwrap() else {
        panic!("expected events");
    };
    let MarketPayload::Ticker(ticker) = &events[0].payload else {
        panic!("expected ticker");
    };
    assert_eq!(ticker.last.as_ref().unwrap().value.as_str(), "0.1420");
    assert_eq!(
        ticker.last.as_ref().unwrap().observed_at_ms,
        1_785_558_332_089
    );
    assert_eq!(ticker.bid.as_ref().unwrap().value.as_str(), "0.1417");
    assert_eq!(ticker.ask.as_ref().unwrap().value.as_str(), "0.1422");
    assert_eq!(
        ticker.ask.as_ref().unwrap().observed_at_ms,
        1_785_558_331_777
    );
    assert_eq!(ticker.mark.as_ref().unwrap().value.as_str(), "0.1420");
    assert_eq!(
        ticker.mark.as_ref().unwrap().observed_at_ms,
        1_785_558_332_239
    );
    assert_eq!(ticker.index, None);
    assert_eq!(ticker.funding_rate, None);
    assert_eq!(
        events[0].source_sequence.as_ref().unwrap().last.as_deref(),
        Some("267107655")
    );
}

#[test]
fn kline_preserves_base_volume_and_unknown_finality() {
    let frame = r#"{
      "code":0,"dataType":"FET-USDT@kline_1m","s":"FET-USDT",
      "data":[{"c":"0.1420","o":"0.1419","h":"0.1420","l":"0.1419",
               "v":"6835","T":1785558300000}]
    }"#;
    let ParsedFrame::Events(events) = session().parse(frame, 1_785_558_332_300).unwrap() else {
        panic!("expected events");
    };
    assert_eq!(events[0].exchange_time_ms, None);
    let MarketPayload::Candle(candle) = &events[0].payload else {
        panic!("expected candle");
    };
    assert_eq!(candle.start_time_ms, 1_785_558_300_000);
    assert_eq!(candle.end_time_ms, 1_785_558_360_000);
    assert_eq!(candle.base_volume.as_ref().unwrap().as_str(), "6835");
    assert_eq!(candle.quote_volume, None);
    assert_eq!(candle.finality, CandleFinality::Unknown);
}

#[test]
fn documented_and_timestamp_sparse_shapes_remain_compatible() {
    let mut session = session();
    let ticker = r#"{
      "code":0,"dataType":"FET-USDT@ticker","data":{
        "s":"FET-USDT","c":"0.1420"
      }
    }"#;
    let ParsedFrame::Events(events) = session.parse(ticker, 1_785_558_332_100).unwrap() else {
        panic!("expected ticker event");
    };
    assert_eq!(events[0].exchange_time_ms, Some(1_785_558_332_100));
    let MarketPayload::Ticker(ticker) = &events[0].payload else {
        panic!("expected ticker");
    };
    assert_eq!(
        ticker.last.as_ref().unwrap().observed_at_ms,
        1_785_558_332_100
    );

    let book = r#"{
      "code":0,"dataType":"FET-USDT@bookTicker","data":{
        "T":1785558332177,"s":"FET-USDT","b":"0.1417","a":"0.1422"
      }
    }"#;
    let ParsedFrame::Events(events) = session.parse(book, 1_785_558_332_200).unwrap() else {
        panic!("expected book-ticker event");
    };
    assert_eq!(events[0].source_sequence, None);

    let documented_kline = r#"{
      "code":0,"dataType":"FET-USDT@kline_1m","data":{
        "s":"FET-USDT","K":{"t":1785558300000,"T":1785558359999,
          "o":"0.1419","h":"0.1420","l":"0.1419","c":"0.1420","v":"6835"}
      }
    }"#;
    let ParsedFrame::Events(events) =
        session.parse(documented_kline, 1_785_558_332_300).unwrap()
    else {
        panic!("expected documented kline event");
    };
    assert_eq!(events[0].symbol, "FET-USDT");
    let MarketPayload::Candle(candle) = &events[0].payload else {
        panic!("expected candle");
    };
    assert_eq!(candle.start_time_ms, 1_785_558_300_000);
    assert_eq!(candle.end_time_ms, 1_785_558_360_000);
    assert_eq!(candle.base_volume.as_ref().unwrap().as_str(), "6835");
    assert_eq!(candle.finality, CandleFinality::Unknown);
}

#[test]
fn acknowledgements_ping_errors_and_malformed_frames_are_explicit() {
    let mut session = session();
    assert_eq!(
        session
            .parse(
                r#"{"id":"gateway-1","code":0,"msg":"","dataType":"","data":null}"#,
                1
            )
            .unwrap(),
        ParsedFrame::Acknowledgement {
            request_id: "gateway-1".to_owned()
        }
    );
    assert_eq!(
        session.parse("Ping", 1).unwrap(),
        ParsedFrame::Reply(Heartbeat::Text("Pong".to_owned()))
    );
    assert!(matches!(
        session.parse(
            r#"{"id":"gateway-2","code":80403,"msg":"too many topics"}"#,
            1
        ),
        Err(AdapterError::CommandRejected { .. })
    ));
    assert!(matches!(
        session.parse(
            r#"{"code":0,"dataType":"BTC-USDT@markPrice","data":{"E":10,"s":"ETH-USDT","p":"1"}}"#,
            11
        ),
        Err(AdapterError::InvalidPayload { .. })
    ));
    assert!(matches!(
        session.parse(
            r#"{"code":0,"dataType":"FET-USDT@ticker","data":{"E":10,"s":"FET-USDT","c":0.142}}"#,
            11
        ),
        Err(AdapterError::InvalidPayload { .. })
    ));
    assert!(matches!(
        session.parse("not-json", 1),
        Err(AdapterError::InvalidPayload { .. })
    ));
}

#[test]
fn topics_never_outnumber_what_a_connection_takes() {
    let mut session = session();
    let keys = (0..50)
        .map(|index| subscription(&format!("COIN{index}-USDT"), Channel::Ticker))
        .collect::<Vec<_>>();
    let candles = (0..50)
        .map(|index| subscription(&format!("COIN{index}-USDT"), Channel::Candle1m))
        .collect::<Vec<_>>();
    let mut sent = |action, keys: &[SubscriptionKey]| {
        session
            .subscription_messages(action, keys)
            .map(|messages| messages.len())
            .map_err(|error| error.message())
    };
    assert_eq!(sent(SubscriptionAction::Subscribe, &keys), Ok(150));
    assert_eq!(sent(SubscriptionAction::Subscribe, &candles), Ok(50));
    // Topics that are active already take no more room.
    assert_eq!(sent(SubscriptionAction::Subscribe, &keys), Ok(0));
    let one_more = [subscription("MORE-USDT", Channel::Candle1m)];
    assert!(sent(SubscriptionAction::Subscribe, &one_more)
        .unwrap_err()
        .contains("subscription would exceed BingX's 200-topic connection limit"));
    assert_eq!(
        sent(SubscriptionAction::Unsubscribe, &candles[..1]),
        Ok(1)
    );
    assert_eq!(sent(SubscriptionAction::Subscribe, &one_more), Ok(1));
}

#[test]
fn bingx_values_may_stand_in_an_array() {
    let candle = |frame: &str| {
        let ParsedFrame::Events(events) = session().parse(frame, 1_785_558_332_300).unwrap() else {
            panic!("expected events");
        };
        let MarketPayload::Candle(candle) = &events[0].payload else {
            panic!("expected candle");
        };
        (candle.start_time_ms, candle.close.as_str().to_owned())
    };
    let wanted = (1_785_558_300_000, "0.1420".to_owned());
    assert_eq!(
        candle(
            r#"{"code":0,"dataType":"FET-USDT@kline_1m","s":"FET-USDT",
                "data":[[1785558300000,"0.1419","0.1420","0.1419","0.1420","6835"]]}"#
        ),
        wanted
    );
    assert_eq!(
        candle(
            r#"{"code":0,"dataType":"FET-USDT@kline_1m",
                "data":["FET-USDT",[1785558300000,1785558359999,"0.1419","0.1420","0.1419",
                        "0.1420","6835"]]}"#
        ),
        wanted
    );
    let book = r#"{"code":0,"dataType":"FET-USDT@bookTicker",
        "data":[7,1785558332177,"FET-USDT","0.1417","0.1422"]}"#;
    let ParsedFrame::Events(events) = session().parse(book, 1_785_558_332_200).unwrap() else {
        panic!("expected events");
    };
    let MarketPayload::Ticker(ticker) = &events[0].payload else {
        panic!("expected ticker");
    };
    assert_eq!(ticker.ask.as_ref().unwrap().value.as_str(), "0.1422");
    assert_eq!(
        events[0].source_sequence.as_ref().unwrap().last.as_deref(),
        Some("7")
    );
}
