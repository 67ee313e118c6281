use market_stream_gateway::domain::{
    Channel, MarketKind, MarketPayload, ObservedDecimal, Provider, ProviderEvent, SubscriptionKey,
    Ticker,
};
use market_stream_gateway::gateway::{
    DeliveryOutcome, GatewayHub, ProviderLimits, RegistryError, SubscriptionRegistry,
};
use market_stream_gateway::keyset::KeySet;

fn key(provider: Provider, symbol: &str, channel: Channel) -> SubscriptionKey {
    SubscriptionKey::new(provider, MarketKind::LinearPerpetual, symbol, channel).unwrap()
}

fn provider_event(symbol: &str, received_at_ms: u64) -> ProviderEvent {
    ProviderEvent {
        connection_epoch: 0,
        provider: Provider::Bybit,
        market: MarketKind::LinearPerpetual,
        symbol: symbol.to_owned(),
        exchange_time_ms: Some(received_at_ms),
        gateway_received_time_ms: received_at_ms,
        source_sequence: None,
        payload: MarketPayload::Ticker(Ticker {
            last: Some(ObservedDecimal::new("1.0", received_at_ms).unwrap()),
            ..Ticker::default()
        }),
    }
}

#[test]
fn one_stream_epoch_is_used_for_every_event() {
    let mut hub = GatewayHub::new(4);
    let first = hub.publish(provider_event("BTCUSDT", 1)).unwrap();
    let second = hub.publish(provider_event("ETHUSDT", 2)).unwrap();

    assert_eq!(first.stream_epoch, hub.stream_epoch());
    assert_eq!(second.stream_epoch, first.stream_epoch);
    assert_eq!(first.delivery_sequence, 1);
    assert_eq!(second.delivery_sequence, 2);
}

#[test]
fn stream_epochs_differ_between_hubs() {
    assert_ne!(
        GatewayHub::new(1).stream_epoch(),
        GatewayHub::new(1).stream_epoch()
    );
}

#[test]
fn routed_clients_only_receive_matching_subscriptions() {
    let mut hub = GatewayHub::new(2);
    let client = 11;
    let feed = hub.register_client(client);
    assert_eq!(feed.client_id, client);
    assert_eq!(feed.capacity, 2);
    let subscribed = key(Provider::Bybit, "BTCUSDT", Channel::Ticker);
    assert!(hub.update_client_subscriptions(client, &KeySet::from_list(vec![subscribed])));

    let other = hub.publish(provider_event("ETHUSDT", 1)).unwrap();
    let wanted = hub.publish(provider_event("BTCUSDT", 2)).unwrap();

    assert!(hub.route_event(&other).is_empty());
    assert_eq!(hub.route_event(&wanted), vec![client]);
    assert_eq!(hub.lagged(client), Some(0));
}

#[test]
fn unrelated_volume_cannot_lag_a_routed_client() {
    let mut hub = GatewayHub::new(1);
    let client = 11;
    hub.register_client(client);
    let subscribed = key(Provider::Bybit, "BTCUSDT", Channel::Ticker);
    hub.update_client_subscriptions(client, &KeySet::from_list(vec![subscribed]));

    for sequence in 0..100 {
        let event = hub.publish(provider_event("ETHUSDT", sequence)).unwrap();
        assert!(hub.route_event(&event).is_empty());
    }
    let event = hub.publish(provider_event("BTCUSDT", 101)).unwrap();

    assert_eq!(hub.route_event(&event), vec![client]);
    assert_eq!(hub.lagged(client), Some(0));
}

#[test]
fn matching_queue_overrun_notifies_and_deactivates_client() {
    let mut hub = GatewayHub::new(1);
    let client = 11;
    hub.register_client(client);
    let subscribed = key(Provider::Bybit, "BTCUSDT", Channel::Ticker);
    hub.update_client_subscriptions(client, &KeySet::from_list(vec![subscribed]));

    let first = hub.publish(provider_event("BTCUSDT", 1)).unwrap();
    assert_eq!(hub.route_event(&first), vec![client]);
    hub.record_delivery(client, DeliveryOutcome::Delivered);
    let second = hub.publish(provider_event("BTCUSDT", 2)).unwrap();
    assert_eq!(hub.route_event(&second), vec![client]);
    hub.record_delivery(client, DeliveryOutcome::QueueFull);

    assert_eq!(hub.lagged(client), Some(1));
    let third = hub.publish(provider_event("BTCUSDT", 3)).unwrap();
    assert!(hub.route_event(&third).is_empty());
    hub.record_delivery(client, DeliveryOutcome::Closed);
    assert_eq!(hub.lagged(client), None);
    assert!(!hub.update_client_subscriptions(client, &KeySet::new()));
}

#[test]
fn overruns_concern_one_client() {
    let mut hub = GatewayHub::new(1);
    let subscribed = key(Provider::Bybit, "BTCUSDT", Channel::Ticker);
    for client in [3, 1, 2] {
        hub.register_client(client);
        hub.update_client_subscriptions(client, &KeySet::from_list(vec![subscribed.clone()]));
    }
    let event = hub.publish(provider_event("BTCUSDT", 1)).unwrap();
    assert_eq!(hub.route_event(&event), vec![1, 2, 3]);
    hub.record_delivery(2, DeliveryOutcome::QueueFull);
    assert_eq!(hub.route_event(&event), vec![1, 3]);
}

#[test]
fn routed_client_limit_is_atomic() {
    let mut hub = GatewayHub::with_client_limit(2, 1);
    let first = 1;
    let second = 2;

    assert!(hub.try_register_client(first).is_some());
    assert!(hub.try_register_client(second).is_none());
    assert_eq!(hub.receiver_count(), 1);
    hub.remove_client(first);
    assert!(hub.try_register_client(second).is_some());
}

#[test]
fn registry_ref_counts_shared_subscriptions() {
    let mut registry = SubscriptionRegistry::new(8);
    let subscription = key(Provider::Binance, "BTCUSDT", Channel::Ticker);

    let first = registry.add(1, vec![subscription.clone()]).unwrap();
    assert_eq!(first.activated, vec![subscription.clone()]);
    assert!(first.desired_state_changed());

    let second = registry.add(2, vec![subscription.clone()]).unwrap();
    assert!(second.activated.is_empty());
    assert!(!second.desired_state_changed());
    assert_eq!(registry.reference_count(&subscription), 2);
}

#[test]
fn one_client_cannot_unsubscribe_another_clients_demand() {
    let mut registry = SubscriptionRegistry::new(8);
    let subscription = key(Provider::Okx, "BTC-USDT-SWAP", Channel::Candle1m);
    registry.add(1, vec![subscription.clone()]).unwrap();
    registry.add(2, vec![subscription.clone()]).unwrap();

    let change = registry.remove(1, vec![subscription.clone()]);

    assert!(change.deactivated.is_empty());
    assert_eq!(registry.reference_count(&subscription), 1);
    assert!(registry.desired_snapshot().contains(&subscription));
}

#[test]
fn cleanup_removes_all_client_references() {
    let mut registry = SubscriptionRegistry::new(8);
    let ticker = key(Provider::Kucoin, "XBTUSDTM", Channel::Ticker);
    let candle = key(Provider::Kucoin, "XBTUSDTM", Channel::Candle1m);
    registry.add(1, vec![ticker.clone()]).unwrap();
    registry
        .add(2, vec![ticker.clone(), candle.clone()])
        .unwrap();

    let change = registry.cleanup_client(2);

    assert_eq!(change.removed, vec![ticker.clone(), candle.clone()]);
    assert_eq!(change.deactivated, vec![candle.clone()]);
    assert_eq!(registry.reference_count(&ticker), 1);
    assert_eq!(registry.reference_count(&candle), 0);
    assert_eq!(
        registry.desired_snapshot(),
        KeySet::from_list(vec![ticker])
    );
}

#[test]
fn add_limit_is_atomic_and_counts_unique_keys() {
    let mut registry = SubscriptionRegistry::new(1);
    let ticker = key(Provider::Bybit, "BTCUSDT", Channel::Ticker);
    let candle = key(Provider::Bybit, "BTCUSDT", Channel::Candle1m);
    registry
        .add(1, vec![ticker.clone(), ticker.clone()])
        .unwrap();

    let error = registry.add(1, vec![candle.clone()]).unwrap_err();

    assert_eq!(
        error,
        RegistryError::ClientLimitExceeded {
            limit: 1,
            requested: 2
        }
    );
    assert_eq!(
        error.message(),
        "client subscription limit exceeded: requested 2, maximum is 1"
    );
    assert_eq!(
        registry.client_snapshot(1),
        KeySet::from_list(vec![ticker.clone()])
    );
    assert!(!registry.desired_snapshot().contains(&candle));
}

#[test]
fn provider_limit_is_global_and_atomic_across_clients() {
    let mut registry = SubscriptionRegistry::with_provider_limit(8, 1);
    let ticker = key(Provider::Binance, "BTCUSDT", Channel::Ticker);
    let candle = key(Provider::Binance, "BTCUSDT", Channel::Candle1m);
    registry.add(1, vec![ticker.clone()]).unwrap();

    let error = registry.add(2, vec![candle.clone()]).unwrap_err();

    assert_eq!(
        error,
        RegistryError::ProviderLimitExceeded {
            provider: Provider::Binance,
            limit: 1,
            requested: 2,
        }
    );
    assert_eq!(
        error.message(),
        "provider subscription limit exceeded for binance: requested 2, maximum is 1"
    );
    assert_eq!(
        registry.desired_snapshot(),
        KeySet::from_list(vec![ticker])
    );
    assert_eq!(registry.reference_count(&candle), 0);
}

#[test]
fn many_clients_share_one_key() {
    let client_count = 64;
    let mut registry = SubscriptionRegistry::new(2);
    let shared = key(Provider::Binance, "ETHUSDT", Channel::Ticker);
    for client in 0..client_count {
        registry.add(client, vec![shared.clone()]).unwrap();
    }
    assert_eq!(registry.reference_count(&shared), 64);
    let mut deactivations = 0;
    for client in 0..client_count {
        deactivations += registry.cleanup_client(client).deactivated.len();
    }
    assert_eq!(deactivations, 1);
    assert_eq!(registry.reference_count(&shared), 0);
    assert!(registry.desired_snapshot().is_empty());
}

#[test]
fn removing_undoes_adding() {
    let mut registry = SubscriptionRegistry::new(8);
    let kept = key(Provider::Bybit, "BTCUSDT", Channel::Ticker);
    let passing = key(Provider::Bybit, "ETHUSDT", Channel::Ticker);
    registry.add(1, vec![kept.clone()]).unwrap();
    let before = registry.client_snapshot(1);
    registry.add(1, vec![passing.clone()]).unwrap();
    let change = registry.remove(1, vec![passing.clone()]);
    assert_eq!(change.removed, vec![passing.clone()]);
    assert_eq!(registry.client_snapshot(1), before);
    let again = registry.add(1, vec![kept]).unwrap();
    assert!(again.added.is_empty());
    let nothing = registry.remove(1, vec![passing]);
    assert!(nothing.removed.is_empty() && !nothing.desired_state_changed());
}

#[test]
fn a_ceiling_only_tightens_limits() {
    let limits = ProviderLimits::new(vec![(Provider::Bybit, 1_000), (Provider::Bingx, 200)], 500);
    assert_eq!(limits.minimum(), 200);
    assert_eq!(limits.limit_for(Provider::Okx), 500);
    let tight = limits.tightened(400);
    assert_eq!(tight.limit_for(Provider::Bybit), 400);
    assert_eq!(tight.limit_for(Provider::Bingx), 200);
    assert_eq!(tight.limit_for(Provider::Okx), 400);
    assert_eq!(
        tight.entries(),
        vec![(Provider::Bybit, 400), (Provider::Bingx, 200)]
    );
    assert_eq!(ProviderLimits::uniform(7).minimum(), 7);
}

#[test]
fn events_of_a_fresh_hub_are_numbered_from_one() {
    let mut hub = GatewayHub::with_client_limit(1, 2);
    let epoch = hub.stream_epoch();
    for number in 1..=50u64 {
        // Clients come and go in between; mostly nobody receives anything.
        if number % 7 == 0 {
            let _feed = hub.try_register_client(u128::from(number));
        }
        if number % 11 == 0 {
            hub.remove_client(7);
        }
        let event = hub.publish(provider_event("BTCUSDT", number)).unwrap();
        assert_eq!(event.delivery_sequence, number);
        assert_eq!(event.stream_epoch, epoch);
    }
}

#[test]
fn a_key_is_desired_while_it_has_an_owner_and_limits_hold() {
    let mut registry = SubscriptionRegistry::with_provider_limit(3, 4);
    let keys: Vec<SubscriptionKey> = ["AAA", "BBB", "CCC", "DDD", "EEE"]
        .iter()
        .map(|symbol| key(Provider::Bybit, symbol, Channel::Ticker))
        .collect();
    // A fixed walk through additions, removals and departures of three clients.
    for step in 0..60usize {
        let client = (step % 3) as u128;
        let wanted = keys[(step * 7) % keys.len()].clone();
        match step % 5 {
            0..=2 => drop(registry.add(client, vec![wanted])),
            3 => drop(registry.remove(client, vec![wanted])),
            _ => drop(registry.cleanup_client((step % 2) as u128)),
        }
        let desired = registry.desired_snapshot();
        assert!(desired.len() <= 4);
        for one in &keys {
            assert_eq!(registry.reference_count(one) > 0, desired.contains(one));
        }
        for owner in 0..3u128 {
            assert!(registry.client_snapshot(owner).len() <= 3);
        }
    }
}
