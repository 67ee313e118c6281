use market_stream_gateway::domain::Provider;
use market_stream_gateway::health::{ConnectionState, HealthRegistry};
use market_stream_gateway::providers::EndpointKind;

#[test]
fn idle_endpoints_are_ready_but_demand_requires_live_connection() {
    let mut health = HealthRegistry::default();
    health.register(Provider::Bybit, EndpointKind::Primary);
    assert!(health.readiness().ready);

    let mut entry = health.entry(Provider::Bybit, EndpointKind::Primary);
    entry.desired_subscriptions = 1;
    entry.state = ConnectionState::Connecting;
    health.update(Provider::Bybit, EndpointKind::Primary, entry);
    assert!(!health.readiness().ready);
    assert_eq!(health.readiness().status, "degraded");

    let mut entry = health.entry(Provider::Bybit, EndpointKind::Primary);
    entry.state = ConnectionState::Live;
    health.update(Provider::Bybit, EndpointKind::Primary, entry);
    assert!(health.readiness().ready);
    assert_eq!(health.readiness().status, "ready");
}

#[test]
fn errors_are_bounded() {
    let mut health = HealthRegistry::default();
    let mut entry = health.entry(Provider::Okx, EndpointKind::Public);
    entry.last_error = Some("x".repeat(1000));
    health.update(Provider::Okx, EndpointKind::Public, entry);
    assert_eq!(
        health.readiness().endpoints[0]
            .last_error
            .as_ref()
            .unwrap()
            .len(),
        500
    );
}

#[test]
fn marks_follow_the_course_of_a_connection() {
    let mut health = HealthRegistry::new();
    let mut entry = health.entry(Provider::Mexc, EndpointKind::Primary);
    entry.desired_subscriptions = 2;
    entry.mark_connecting();
    assert_eq!(entry.state, ConnectionState::Connecting);
    entry.mark_connected(9, 1_000);
    assert_eq!(entry.connection_epoch, Some(9));
    assert_eq!(entry.connected_at_ms, Some(1_000));
    entry.mark_live();
    assert_eq!(entry.state, ConnectionState::Live);
    entry.mark_changing();
    assert_ne!(entry.state, ConnectionState::Live);
    entry.mark_backoff("lost".to_owned());
    assert_eq!(entry.state, ConnectionState::Backoff);
    assert_eq!(entry.last_error.as_deref(), Some("lost"));
    entry.mark_stopped();
    assert_eq!(entry.state, ConnectionState::Stopped);
    health.update(Provider::Mexc, EndpointKind::Primary, entry);
    let snapshot = health.readiness();
    assert_eq!(snapshot.endpoints.len(), 1);
    assert_eq!(snapshot.endpoints[0].endpoint, "primary");
    assert!(!snapshot.ready);
}
