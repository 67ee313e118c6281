use market_stream_gateway::domain::{Channel, MarketKind, Provider, SubscriptionKey};
use market_stream_gateway::keyset::KeySet;
use market_stream_gateway::providers::bybit::{BybitAdapter, BybitSession};
use market_stream_gateway::providers::mexc::MexcAdapter;
use market_stream_gateway::providers::okx::OkxAdapter;
use market_stream_gateway::providers::{
    ConnectionTarget, EndpointKind, OutboundCommand, ProviderAdapter,
};
use market_stream_gateway::runtime::connection::{filter_desired, Connection, DemandStep};
use market_stream_gateway::runtime::supervisor::{Backoff, ConnectionExit, NextStep};
use market_stream_gateway::runtime::{
    bounded_millis, duration_text, millis_of, unix_time_ms, CommandState, RuntimeError,
};

fn outbound(request_id: &str, expected_acknowledgements: usize) -> OutboundCommand {
    OutboundCommand {
        request_id: request_id.to_owned(),
        text: format!(r#"{{"id":"{request_id}"}}"#),
        expected_acknowledgements,
    }
}

fn send_next(commands: &mut CommandState) {
    let command = commands.pop_front().expect("expected a queued command");
    commands
        .mark_sent(command.request_id, command.expected_acknowledgements)
        .unwrap();
}

fn key(provider: Provider, symbol: &str, channel: Channel) -> SubscriptionKey {
    SubscriptionKey::new(provider, MarketKind::LinearPerpetual, symbol, channel).unwrap()
}

fn target() -> ConnectionTarget {
    ConnectionTarget {
        url: "wss://stream.example/".to_owned(),
        command_interval_ms: 100,
        subscription_ack_timeout_ms: 10_000,
        heartbeat_interval_ms: 20_000,
        stale_after_ms: 60_000,
        max_message_bytes: 1_000_000,
        rotate_after_ms: None,
    }
}

#[test]
fn desired_subscriptions_are_partitioned_by_provider_and_endpoint() {
    let adapter = OkxAdapter::default();
    let snapshot = KeySet::from_list(vec![
        key(Provider::Okx, "BTC-USDT-SWAP", Channel::Ticker),
        key(Provider::Okx, "BTC-USDT-SWAP", Channel::Candle1m),
        key(Provider::Bybit, "BTCUSDT", Channel::Ticker),
    ]);

    let public = filter_desired(&adapter, EndpointKind::Public, &snapshot);
    assert_eq!(public.len(), 1);
    assert_eq!(public.get(0).channel, Channel::Ticker);
    let business = filter_desired(&adapter, EndpointKind::Business, &snapshot);
    assert_eq!(business.len(), 1);
    assert_eq!(business.get(0).channel, Channel::Candle1m);
}

#[test]
fn wall_clock_is_in_milliseconds() {
    assert!(unix_time_ms() > 1_700_000_000_000);
}

#[test]
fn milliseconds_are_bounded() {
    assert_eq!(bounded_millis(5), 5);
    assert_eq!(bounded_millis(u128::MAX), u64::MAX);
}

#[test]
fn a_clock_before_the_epoch_reads_zero() {
    assert_eq!(millis_of(None), 0);
    assert_eq!(millis_of(Some(0)), 0);
    assert_eq!(
        millis_of(Some(1_700_000_000_123)),
        1_700_000_000_123
    );
    assert_eq!(millis_of(Some(u128::from(u64::MAX) + 1)), u64::MAX);
}

#[test]
fn a_run_of_commands_is_ready_only_when_all_are_acknowledged() {
    let mut commands = CommandState::default();
    assert!(commands.readiness_complete());
    commands
        .enqueue(vec![outbound("a", 2), outbound("b", 1)])
        .unwrap();
    send_next(&mut commands);
    commands.acknowledge("a").unwrap();
    assert!(!commands.readiness_complete());
    send_next(&mut commands);
    commands.acknowledge("b").unwrap();
    assert!(!commands.readiness_complete());
    commands.acknowledge("a").unwrap();
    assert!(commands.readiness_complete());
    // The same request id can be used again, and is waited for again.
    commands.enqueue(vec![outbound("a", 1)]).unwrap();
    assert!(!commands.readiness_complete());
    send_next(&mut commands);
    commands.acknowledge("a").unwrap();
    assert!(commands.readiness_complete());
    assert!(commands.acknowledge("a").is_err());
}

#[test]
fn readiness_waits_for_every_command_send_and_native_acknowledgement() {
    let mut commands = CommandState::default();
    commands
        .enqueue(vec![outbound("okx-1", 3), outbound("okx-2", 1)])
        .unwrap();
    assert!(!commands.readiness_complete());

    send_next(&mut commands);
    assert!(!commands.readiness_complete());
    for _ in 0..3 {
        commands.acknowledge("okx-1").unwrap();
    }
    // The first request is complete, but the second command has not even been sent yet.
    assert!(!commands.readiness_complete());

    send_next(&mut commands);
    assert!(!commands.readiness_complete());
    commands.acknowledge("okx-2").unwrap();
    assert!(commands.readiness_complete());
}

#[test]
fn unknown_and_duplicate_acknowledgements_are_rejected() {
    let mut commands = CommandState::default();
    commands.enqueue(vec![outbound("1", 1)]).unwrap();
    send_next(&mut commands);

    assert!(commands.acknowledge("1").is_ok());
    assert!(matches!(
        commands.acknowledge("1"),
        Err(RuntimeError::UnexpectedAcknowledgement(request_id)) if request_id == "1"
    ));
    assert!(matches!(
        commands.acknowledge("missing"),
        Err(RuntimeError::UnexpectedAcknowledgement(request_id)) if request_id == "missing"
    ));
}

#[test]
fn dynamic_commands_regress_readiness_until_their_acknowledgement() {
    let mut commands = CommandState::default();
    assert!(commands.readiness_complete());
    commands.enqueue(vec![outbound("dynamic", 1)]).unwrap();
    assert!(!commands.readiness_complete());
    send_next(&mut commands);
    assert!(!commands.readiness_complete());
    commands.acknowledge("dynamic").unwrap();
    assert!(commands.readiness_complete());
}

#[test]
fn commands_are_checked_before_they_are_queued() {
    let mut commands = CommandState::new();
    assert!(matches!(
        commands.enqueue(vec![outbound("1", 1), outbound("1", 1)]),
        Err(RuntimeError::DuplicateOutboundRequestId(id)) if id == "1"
    ));
    let mut commands = CommandState::new();
    assert!(matches!(
        commands.enqueue(vec![outbound("", 1)]),
        Err(RuntimeError::InvalidOutboundCommand)
    ));
}

#[test]
fn errors_have_words() {
    assert_eq!(
        RuntimeError::UnexpectedAcknowledgement("7".to_owned()).message(),
        "provider acknowledged unknown or already completed request id 7"
    );
    assert_eq!(
        RuntimeError::DuplicateOutboundRequestId("7".to_owned()).message(),
        "provider reused outbound request id 7"
    );
    assert_eq!(
        RuntimeError::Stale(60_000).message(),
        "upstream websocket was stale for 60s"
    );
    assert_eq!(
        RuntimeError::ConnectTimeout(1_500).message(),
        "upstream websocket connect timed out after 1.5s"
    );
    assert_eq!(duration_text(250), "250ms");
    assert_eq!(duration_text(0), "0ns");
    assert_eq!(
        RuntimeError::NonUtf8Binary.message(),
        "provider sent a non-UTF-8 binary frame"
    );
}

#[test]
fn connections_become_live_publish_and_follow_demand() {
    let adapter = BybitAdapter::default();
    let mut session: BybitSession = adapter.session(EndpointKind::Primary, 77);
    let btc = key(Provider::Bybit, "BTCUSDT", Channel::Ticker);
    let eth = key(Provider::Bybit, "ETHUSDT", Channel::Ticker);
    let mut connection = Connection::open(
        &mut session,
        KeySet::from_list(vec![btc.clone()]),
        &target(),
        1_000,
    )
    .unwrap();
    assert_eq!(connection.desired_count(), 1);
    assert!(!connection.is_live());
    let command = connection.next_command().unwrap();
    assert!(command.contains("tickers.BTCUSDT"));
    let step = connection.command_sent(1_100).unwrap();
    assert!(!step.over && !step.became_live);
    let request: serde_json::Value = serde_json::from_str(&command).unwrap();
    let ack = format!(
        r#"{{"success":true,"ret_msg":"","conn_id":"c","req_id":"{}","op":"subscribe"}}"#,
        request["req_id"].as_str().unwrap()
    );
    let step = connection
        .take_text(&mut session, &ack, 1_200, 1_200)
        .unwrap();
    assert!(step.events.is_empty());
    assert!(connection.is_live());

    let frame = r#"{"topic":"tickers.BTCUSDT","type":"snapshot","cs":9,"ts":1720000000000,"data":{"symbol":"BTCUSDT","lastPrice":"1.5"}}"#;
    let step = connection
        .take_text(&mut session, frame, 1_300, 1_300)
        .unwrap();
    assert_eq!(step.events.len(), 1);
    assert_eq!(step.events[0].connection_epoch, 77);
    assert!(connection.check_fresh(61_299).is_ok());
    assert!(matches!(
        connection.check_fresh(61_300),
        Err(RuntimeError::Stale(60_000))
    ));

    let step = connection
        .demand(&mut session, KeySet::from_list(vec![eth]))
        .unwrap();
    assert_eq!(
        step,
        DemandStep {
            changed: true,
            close: false
        }
    );
    assert!(!connection.is_live());
    let mut texts = String::new();
    while let Some(text) = connection.next_command() {
        texts.push_str(&text);
        connection.command_sent(1_500).unwrap();
    }
    assert!(texts.contains("unsubscribe") && texts.contains("tickers.ETHUSDT"));
    assert!(connection.check_acknowledged(1_501).is_ok());
    assert!(connection
        .take_binary(&mut session, &[0xff], 1_600, 1_600)
        .is_err());
}

#[test]
fn failures_lengthen_the_wait_and_stable_connections_reset_it() {
    let mut backoff = Backoff::new(500, 30_000, 60_000);
    let step = backoff.connection_ended(Err(RuntimeError::Closed), 10, false);
    assert!(matches!(
        step,
        NextStep::Reconnect { longest_wait_ms: 500, error } if error == "upstream websocket closed"
    ));
    backoff.waited();
    assert_eq!(backoff.current_ms, 1_000);
    for _ in 0..10 {
        backoff.waited();
    }
    assert_eq!(backoff.current_ms, 30_000);
    let step = backoff.connection_ended(Ok(ConnectionExit::Rotate), 60_000, false);
    assert!(matches!(
        step,
        NextStep::Reconnect { longest_wait_ms: 500, error } if error == "planned connection rotation"
    ));
    assert!(matches!(
        backoff.connection_ended(Ok(ConnectionExit::Idle), 5, false),
        NextStep::WaitForDemand
    ));
    assert!(matches!(
        backoff.connection_ended(Err(RuntimeError::Closed), 5, true),
        NextStep::Stop
    ));
}

#[test]
fn commands_that_expect_no_acknowledgement_are_complete_once_sent() {
    let mut commands = CommandState::new();
    commands
        .enqueue(vec![outbound("1", 0), outbound("2", 1)])
        .unwrap();
    send_next(&mut commands);
    assert!(matches!(
        commands.acknowledge("1"),
        Err(RuntimeError::UnexpectedAcknowledgement(id)) if id == "1"
    ));
    assert!(!commands.readiness_complete());
    send_next(&mut commands);
    commands.acknowledge("2").unwrap();
    assert!(commands.readiness_complete());
    // The request id is free again.
    commands.enqueue(vec![outbound("1", 0)]).unwrap();
    assert!(!commands.readiness_complete());
    send_next(&mut commands);
    assert!(commands.readiness_complete());
}

#[test]
fn mexc_connections_stay_open_when_demand_shrinks() {
    let adapter = MexcAdapter::default();
    let mut session = adapter.session(EndpointKind::Primary, 7);
    let fet = key(Provider::Mexc, "FET_USDT", Channel::Candle1m);
    let btc = key(Provider::Mexc, "BTC_USDT", Channel::Candle1m);
    let mut connection = Connection::open(
        &mut session,
        KeySet::from_list(vec![fet, btc.clone()]),
        &target(),
        0,
    )
    .unwrap();
    for now in 1..=2 {
        assert!(connection.next_command().is_some());
        assert!(!connection.command_sent(now).unwrap().became_live);
    }
    for now in 3..=4 {
        connection
            .take_text(
                &mut session,
                r#"{"channel":"rs.sub.kline","data":"success"}"#,
                now,
                now,
            )
            .unwrap();
    }
    assert!(connection.is_live());
    let step = connection
        .demand(&mut session, KeySet::from_list(vec![btc]))
        .unwrap();
    assert!(step.changed && !step.close);
    assert!(!connection.is_live());
    let text = connection.next_command().unwrap();
    assert!(text.contains("unsub.kline"));
    let step = connection.command_sent(5).unwrap();
    assert!(step.became_live && !step.over);
    assert!(connection.is_live());
    assert_eq!(connection.acknowledgement_deadline(), None);
}
