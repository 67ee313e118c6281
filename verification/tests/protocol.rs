use market_stream_gateway::api::parse_command;
use market_stream_gateway::domain::{
    Channel, MarketKind, Provider, SubscriptionKey, SCHEMA_VERSION,
};
use market_stream_gateway::gateway::ProviderLimits;
use market_stream_gateway::protocol::{ClientCommand, ControlMessage, ErrorCode};

fn document(message: &ControlMessage) -> serde_json::Value {
    serde_json::from_str(&message.to_text()).unwrap()
}

#[test]
fn commands_reject_unknown_fields() {
    assert!(parse_command(r#"{"op":"ping", "request_id":"p1", "extra":true}"#).is_err());
}

#[test]
fn control_messages_carry_schema_version() {
    let message = ControlMessage::hello("epoch", 100, &ProviderLimits::uniform(50));
    let value = document(&message);
    assert_eq!(value["type"], "hello");
    assert_eq!(value["schema_version"], SCHEMA_VERSION);
    assert_eq!(value["max_provider_subscriptions"], 50);
}

#[test]
fn hello_advertises_per_provider_limits_and_a_safe_uniform_scalar() {
    let limits = ProviderLimits::new(
        vec![(Provider::Bybit, 1_000), (Provider::Bingx, 200)],
        1_000,
    );
    let value = document(&ControlMessage::hello("epoch", 512, &limits));

    assert_eq!(value["provider_subscription_limits"]["bybit"], 1_000);
    assert_eq!(value["provider_subscription_limits"]["bingx"], 200);
    // The scalar is the minimum, so a client that only reads it cannot
    // oversubscribe the strictest venue.
    assert_eq!(value["max_provider_subscriptions"], 200);
}

#[test]
fn commands_are_read() {
    let command = parse_command(
        r#"{"op":"subscribe","request_id":"client-1","subscriptions":[{"provider":"bybit","market":"linear_perpetual","symbol":"BTCUSDT","channels":["ticker","candle_1m"]}]}"#,
    )
    .unwrap();
    assert_eq!(command.request_id(), "client-1");
    match command {
        ClientCommand::Subscribe { subscriptions, .. } => {
            assert_eq!(subscriptions.len(), 1);
            assert_eq!(subscriptions[0].provider, Provider::Bybit);
            assert_eq!(subscriptions[0].market, MarketKind::LinearPerpetual);
            assert_eq!(
                subscriptions[0].channels,
                vec![Channel::Ticker, Channel::Candle1m]
            );
        }
        other => panic!("{other:?}"),
    }
    assert!(matches!(
        parse_command(r#"{"op":"unsubscribe","request_id":"u","subscriptions":[]}"#),
        Ok(ClientCommand::Unsubscribe { .. })
    ));
    assert!(matches!(
        parse_command(r#"{"request_id":"p","op":"ping"}"#),
        Ok(ClientCommand::Ping { request_id }) if request_id == "p"
    ));
}

#[test]
fn malformed_commands_are_refused() {
    for text in [
        r#"{"op":"stop","request_id":"p"}"#,
        r#"{"op":"ping"}"#,
        r#"{"op":"ping","request_id":1}"#,
        r#"{"op":"subscribe","request_id":"p"}"#,
        r#"{"op":"subscribe","request_id":"p","subscriptions":[{"provider":"nasdaq","market":"linear_perpetual","symbol":"A","channels":[]}]}"#,
        r#"{"op":"subscribe","request_id":"p","subscriptions":[{"provider":"okx","market":"spot","symbol":"A","channels":[]}]}"#,
        r#"{"op":"subscribe","request_id":"p","subscriptions":[{"provider":"okx","market":"linear_perpetual","symbol":"A","channels":["trades"]}]}"#,
        r#"{"op":"subscribe","request_id":"p","subscriptions":[{"provider":"okx","market":"linear_perpetual","symbol":"A","channels":[],"depth":1}]}"#,
        "[]",
    ] {
        let error = parse_command(text).unwrap_err();
        assert_eq!(document(&error)["code"], "invalid_command", "{text}");
    }
    let error = parse_command("nope").unwrap_err();
    assert_eq!(document(&error)["code"], "invalid_json");
}

#[test]
fn messages_are_written_exactly() {
    let key = SubscriptionKey::new(
        Provider::Bybit,
        MarketKind::LinearPerpetual,
        "BTCUSDT",
        Channel::Ticker,
    )
    .unwrap();
    let ack = ControlMessage::Ack {
        schema_version: SCHEMA_VERSION,
        request_id: "client-1".to_owned(),
        operation: "subscribe".to_owned(),
        subscriptions: vec![key],
    };
    assert_eq!(
        ack.to_text(),
        r#"{"type":"ack","schema_version":1,"request_id":"client-1","operation":"subscribe","subscriptions":[{"provider":"bybit","market":"linear_perpetual","symbol":"BTCUSDT","channel":"ticker"}]}"#
    );
    let pong = ControlMessage::Pong {
        schema_version: SCHEMA_VERSION,
        request_id: "p".to_owned(),
    };
    assert_eq!(
        pong.to_text(),
        r#"{"type":"pong","schema_version":1,"request_id":"p"}"#
    );
    let gap = ControlMessage::Gap {
        schema_version: SCHEMA_VERSION,
        dropped_messages: 3,
        message: "late".to_owned(),
    };
    assert_eq!(
        gap.to_text(),
        r#"{"type":"gap","schema_version":1,"dropped_messages":3,"message":"late"}"#
    );
    let error = ControlMessage::error(None, ErrorCode::Lagged, "slow");
    assert_eq!(
        error.to_text(),
        r#"{"type":"error","schema_version":1,"code":"lagged","message":"slow"}"#
    );
}

#[test]
fn error_codes_have_stable_names() {
    let names: Vec<&str> = [
        ErrorCode::InvalidJson,
        ErrorCode::InvalidCommand,
        ErrorCode::LimitExceeded,
        ErrorCode::UnsupportedSubscription,
        ErrorCode::Lagged,
        ErrorCode::Internal,
    ]
    .into_iter()
    .map(ErrorCode::name)
    .collect();
    assert_eq!(
        names,
        vec![
            "invalid_json",
            "invalid_command",
            "limit_exceeded",
            "unsupported_subscription",
            "lagged",
            "internal"
        ]
    );
}

#[test]
fn the_values_of_a_command_may_stand_in_an_array() {
    assert!(matches!(
        parse_command(r#"["ping","p"]"#),
        Ok(ClientCommand::Ping { request_id }) if request_id == "p"
    ));
    let command = parse_command(
        r#"["subscribe","s",[["okx","linear_perpetual","BTC-USDT-SWAP",["ticker"]]]]"#,
    )
    .unwrap();
    let ClientCommand::Subscribe { request_id, subscriptions } = command else {
        panic!("expected a subscription");
    };
    assert_eq!(request_id, "s");
    assert_eq!(subscriptions.len(), 1);
    assert_eq!(subscriptions[0].provider, Provider::Okx);
    assert_eq!(subscriptions[0].symbol, "BTC-USDT-SWAP");
    assert_eq!(subscriptions[0].channels, vec![Channel::Ticker]);
    for text in [
        r#"["ping"]"#,
        r#"["ping","p",[]]"#,
        r#"["subscribe","s"]"#,
        r#"["subscribe","s",[],1]"#,
        r#"["subscribe","s",[["okx","linear_perpetual","A"]]]"#,
    ] {
        let error = parse_command(text).unwrap_err();
        assert_eq!(document(&error)["code"], "invalid_command", "{text}");
    }
}

#[test]
fn a_name_may_stand_as_the_one_member_of_an_object() {
    let command = parse_command(
        r#"{"op":"subscribe","request_id":"s","subscriptions":[{"provider":{"okx":null},"market":{"linear_perpetual":{}},"symbol":"A","channels":[{"ticker":null},"candle_1m"]}]}"#,
    )
    .unwrap();
    let ClientCommand::Subscribe { subscriptions, .. } = command else {
        panic!("expected a subscription");
    };
    assert_eq!(subscriptions[0].provider, Provider::Okx);
    assert_eq!(
        subscriptions[0].channels,
        vec![Channel::Ticker, Channel::Candle1m]
    );
    for provider in [r#"{"okx":1}"#, r#"{"okx":null,"bybit":null}"#, "{}"] {
        assert!(parse_command(&format!(
            r#"{{"op":"subscribe","request_id":"s","subscriptions":[{{"provider":{provider},"market":"linear_perpetual","symbol":"A","channels":["ticker"]}}]}}"#
        ))
        .is_err());
    }
}

#[test]
fn a_field_that_comes_twice_makes_no_command() {
    for text in [
        r#"{"op":"ping","op":"ping","request_id":"p"}"#,
        r#"{"op":"ping","request_id":"p","request_id":"p"}"#,
        r#"{"op":"unsubscribe","request_id":"u","subscriptions":[],"subscriptions":[]}"#,
        r#"{"op":"subscribe","request_id":"s","subscriptions":[{"provider":"okx","provider":"okx","market":"linear_perpetual","symbol":"A","channels":["ticker"]}]}"#,
        r#"{"op":"subscribe","request_id":"s","subscriptions":[{"provider":"okx","market":"linear_perpetual","symbol":"A","symbol":"B","channels":["ticker"]}]}"#,
        r#"{"op":"subscribe","request_id":"s","subscriptions":[{"provider":{"okx":null,"okx":null},"market":"linear_perpetual","symbol":"A","channels":["ticker"]}]}"#,
        r#"{"op":"subscribe","request_id":"s","subscriptions":[{"provider":"okx","market":"linear_perpetual","symbol":"A","channels":[{"ticker":null,"ticker":null}]}]}"#,
    ] {
        let error = parse_command(text).unwrap_err();
        assert_eq!(document(&error)["code"], "invalid_command", "{text}");
    }
}

#[test]
fn the_first_fault_of_a_text_decides_what_it_is_called() {
    for (text, code) in [
        // A document that is no command, and whatever follows it.
        (r#"{"op":"stop","request_id":"p"} x"#, "invalid_command"),
        (r#"{"request_id":"p"}}"#, "invalid_command"),
        (r#"{} {}"#, "invalid_command"),
        (r#"[] nope"#, "invalid_command"),
        (r#"7 8"#, "invalid_command"),
        // An operation that is none comes before what is no JSON.
        (r#"{"op":"stop","request_id":"#, "invalid_command"),
        (r#"{"op":["ping"#, "invalid_command"),
        (r#"{"request_id":"p","op":"ping","op":"ping",,"#, "invalid_command"),
        (r#"["stop","#, "invalid_command"),
        // A command that is followed by something else.
        (r#"{"op":"ping","request_id":"p"} x"#, "invalid_json"),
        (r#"{"op":"ping","request_id":"p"}}"#, "invalid_json"),
        // What is no JSON comes before the operation.
        (r#"{"request_id":"p",,"op":"stop"}"#, "invalid_json"),
        (r#"{"request_id":"\ud800","op":"stop"}"#, "invalid_json"),
        (r#"{"op":"ping","request_id":"p""#, "invalid_json"),
        (r#"{"op":"ping","request_id":"p","extra":}"#, "invalid_json"),
        ("", "invalid_json"),
    ] {
        let error = parse_command(text).unwrap_err();
        assert_eq!(document(&error)["code"], code, "{text}");
    }
    let deep = format!(
        r#"{{"op":"ping","request_id":"p","extra":{}{}}}"#,
        "[".repeat(200),
        "]".repeat(200)
    );
    let error = parse_command(&deep).unwrap_err();
    assert_eq!(document(&error)["code"], "invalid_json");
}

#[test]
fn space_between_the_parts_of_a_command_has_no_meaning() {
    let command = parse_command(
        " \t\r\n{ \"op\" : \"subscribe\" ,\n\"request_id\":\"\\u0073\" , \"subscriptions\" : [ { \"provider\":\"okx\", \"market\" :\"linear_perpetual\",\"symbol\":\"A\" , \"channels\": [ \"ticker\" , \"candle_1m\" ] } ] } \n",
    )
    .unwrap();
    let ClientCommand::Subscribe { request_id, subscriptions } = command else {
        panic!("expected a subscription");
    };
    assert_eq!(request_id, "s");
    assert_eq!(
        subscriptions[0].channels,
        vec![Channel::Ticker, Channel::Candle1m]
    );
    assert!(parse_command("\u{a0}{\"op\":\"ping\",\"request_id\":\"p\"}").is_err());
}
