//! What single operations do, said of what goes in and what comes out.
use vstd::prelude::*;

use super::documents::venue;
use crate::api::rest;
use crate::api::rest::{ApiFailure, Origin, Readiness};
use crate::api::session::{Opening, Outgoing, SessionInput, SessionStep};
use crate::api::Gateway;
use crate::catalog;
use crate::catalog::{
    CandleFinalitySupport, CandleVolumeSupport, Catalog, CatalogFilter, CatalogSources, Instrument,
    InstrumentCapabilities,
};
use crate::config;
use crate::config::Settings;
use crate::domain;
use crate::domain::{
    CandleView, Channel, DecimalValue, DomainError, KeyView, MarketEvent, MarketKind, PayloadView,
    Provider, ProviderEvent, SubscriptionKey,
};
use crate::gateway::hub::{ClientFeed, DeliveryOutcome, GatewayHub, PublishError};
use crate::gateway::limits::ProviderLimits;
use crate::gateway::registry::{
    ClientId, Demand, RegistryError, SubscriptionChange, SubscriptionRegistry,
};
use crate::health;
use crate::health::{ConnectionState, EndpointHealth, HealthRegistry};
use crate::history;
use crate::history::fetch::HistorySources;
use crate::history::{HistoryError, HistoryRequest, HistoryResult};
use crate::json::{Json, JsonView};
use crate::keyset::KeySet;
use crate::protocol::{ControlView, ErrorCode};
use crate::providers::binance::BinanceAdapter;
use crate::providers::bingx::BingxAdapter;
use crate::providers::bybit::BybitAdapter;
use crate::providers::mexc::MexcAdapter;
use crate::providers::okx::OkxAdapter;
use crate::providers::{AdapterError, AdapterErrorView, ConnectionTarget, EndpointKind, TargetView};
use crate::runtime;
use crate::venues;
use crate::venues::ProviderSet;

verus! {

// ---------------------------------------------------------------------------------------------
// Connections
// ---------------------------------------------------------------------------------------------

/// Whether a result is a target for the right endpoint, and a refusal for any other.
pub open spec fn leads_to(
    r: Result<ConnectionTarget, AdapterError>,
    provider: Provider,
    endpoint: EndpointKind,
    fits: bool,
    target: TargetView,
) -> bool {
    match r {
        Ok(found) => fits && found@ == target,
        Err(error) => !fits && error@ == (AdapterErrorView::UnsupportedEndpoint {
            provider,
            endpoint,
        }),
    }
}

/// Each venue is reached at its own address, with commands as often, signs of life as often and
/// patience as long as the venue wants it.
pub proof fn law_venues_are_reached_at_their_pace(
    bybit: &BybitAdapter,
    binance: &BinanceAdapter,
    okx: &OkxAdapter,
    mexc: &MexcAdapter,
    bingx: &BingxAdapter,
    endpoint: EndpointKind,
    r: Result<ConnectionTarget, AdapterError>,
)
    ensures
        call_ensures(BybitAdapter::connection_target, (bybit, endpoint), r) ==> leads_to(
            r,
            Provider::Bybit,
            endpoint,
            endpoint == EndpointKind::Primary,
            TargetView {
                url: bybit.url(),
                command_interval_ms: 150,
                subscription_ack_timeout_ms: 15_000,
                heartbeat_interval_ms: 20_000,
                stale_after_ms: 45_000,
                max_message_bytes: 1_048_576,
                rotate_after_ms: None,
            },
        ),
        call_ensures(BinanceAdapter::connection_target, (binance, endpoint), r) ==> leads_to(
            r,
            Provider::Binance,
            endpoint,
            endpoint == EndpointKind::Primary,
            TargetView {
                url: binance.url(),
                command_interval_ms: 125,
                subscription_ack_timeout_ms: 15_000,
                heartbeat_interval_ms: 180_000,
                stale_after_ms: 600_000,
                max_message_bytes: 1_048_576,
                rotate_after_ms: Some(86_100_000),
            },
        ),
        call_ensures(OkxAdapter::connection_target, (okx, endpoint), r) ==> leads_to(
            r,
            Provider::Okx,
            endpoint,
            endpoint != EndpointKind::Primary,
            TargetView {
                url: okx.url_of(endpoint)->0,
                command_interval_ms: 400,
                subscription_ack_timeout_ms: 15_000,
                heartbeat_interval_ms: 20_000,
                stale_after_ms: 45_000,
                max_message_bytes: 4_194_304,
                rotate_after_ms: None,
            },
        ),
        call_ensures(MexcAdapter::connection_target, (mexc, endpoint), r) ==> leads_to(
            r,
            Provider::Mexc,
            endpoint,
            endpoint == EndpointKind::Primary,
            TargetView {
                url: mexc.url(),
                command_interval_ms: 250,
                subscription_ack_timeout_ms: 15_000,
                heartbeat_interval_ms: 15_000,
                stale_after_ms: 45_000,
                max_message_bytes: 1_048_576,
                rotate_after_ms: None,
            },
        ),
        call_ensures(BingxAdapter::connection_target, (bingx, endpoint), r) ==> leads_to(
            r,
            Provider::Bingx,
            endpoint,
            endpoint == EndpointKind::Primary,
            TargetView {
                url: bingx.url(),
                command_interval_ms: 100,
                subscription_ack_timeout_ms: 15_000,
                heartbeat_interval_ms: 4_000,
                stale_after_ms: 20_000,
                max_message_bytes: 1_048_576,
                rotate_after_ms: None,
            },
        ),
{
}

// ---------------------------------------------------------------------------------------------
// Health
// ---------------------------------------------------------------------------------------------

/// Whether two states of health tell the same of the demand and of the connections before.
pub open spec fn keeps_count(before: health::HealthView, after: health::HealthView) -> bool {
    &&& after.provider == before.provider
    &&& after.endpoint == before.endpoint
    &&& after.desired_subscriptions == before.desired_subscriptions
    &&& after.reconnects == before.reconnects
}

/// Whether a state of health tells of no connection.
pub open spec fn has_no_connection(after: health::HealthView) -> bool {
    after.connection_epoch is None && after.connected_at_ms is None && after.last_event_at_ms
        is None
}

/// Where nothing is wanted, the endpoint is idle, without a connection or an error.
pub proof fn law_idle_endpoints(health: &mut EndpointHealth)
    requires
        call_ensures(EndpointHealth::mark_idle, (health,), ()),
    ensures
        final(health)@.state == ConnectionState::Idle,
        final(health)@.last_error is None,
        has_no_connection(final(health)@),
        keeps_count(old(health)@, final(health)@),
{
}

/// While a connection is attempted, there is none yet.
pub proof fn law_connecting_endpoints(health: &mut EndpointHealth)
    requires
        call_ensures(EndpointHealth::mark_connecting, (health,), ()),
    ensures
        final(health)@.state == ConnectionState::Connecting,
        final(health)@.last_error is None,
        has_no_connection(final(health)@),
        keeps_count(old(health)@, final(health)@),
{
}

/// A connection that is open is told with its epoch and its time, and is not live yet.
pub proof fn law_connected_endpoints(
    health: &mut EndpointHealth,
    connection_epoch: u128,
    now_ms: u64,
)
    requires
        call_ensures(EndpointHealth::mark_connected, (health, connection_epoch, now_ms), ()),
    ensures
        final(health)@.state == ConnectionState::Connecting,
        final(health)@.connection_epoch == Some(connection_epoch),
        final(health)@.connected_at_ms == Some(now_ms),
        final(health)@.last_event_at_ms is None,
        final(health)@.last_error is None,
        keeps_count(old(health)@, final(health)@),
{
}

/// A connection whose subscriptions are all acknowledged is live.
pub proof fn law_live_endpoints(health: &mut EndpointHealth)
    requires
        call_ensures(EndpointHealth::mark_live, (health,), ()),
    ensures
        final(health)@.state == ConnectionState::Live,
        final(health)@.last_error is None,
        final(health)@.connection_epoch == old(health)@.connection_epoch,
        final(health)@.connected_at_ms == old(health)@.connected_at_ms,
        final(health)@.last_event_at_ms == old(health)@.last_event_at_ms,
        keeps_count(old(health)@, final(health)@),
{
}

/// While subscriptions change, a connection is no longer live, and goes on.
pub proof fn law_changing_endpoints(health: &mut EndpointHealth)
    requires
        call_ensures(EndpointHealth::mark_changing, (health,), ()),
    ensures
        final(health)@.state == ConnectionState::Connecting,
        final(health)@.connection_epoch == old(health)@.connection_epoch,
        final(health)@.connected_at_ms == old(health)@.connected_at_ms,
        keeps_count(old(health)@, final(health)@),
{
}

/// A connection that is lost is told with its error, and one more connection is counted.
pub proof fn law_lost_endpoints(health: &mut EndpointHealth, error: String)
    requires
        call_ensures(EndpointHealth::mark_backoff, (health, error), ()),
    ensures
        final(health)@.state == ConnectionState::Backoff,
        final(health)@.last_error == Some(error@),
        has_no_connection(final(health)@),
        old(health)@.reconnects < u64::MAX ==> final(health)@.reconnects == old(health)@.reconnects
            + 1,
        final(health)@.desired_subscriptions == old(health)@.desired_subscriptions,
{
}

/// An endpoint that stopped has no connection.
pub proof fn law_stopped_endpoints(health: &mut EndpointHealth)
    requires
        call_ensures(EndpointHealth::mark_stopped, (health,), ()),
    ensures
        final(health)@.state == ConnectionState::Stopped,
        final(health)@.last_error == old(health)@.last_error,
        has_no_connection(final(health)@),
        keeps_count(old(health)@, final(health)@),
{
}

/// What is said of an endpoint is what was said of it last, and before anything was said it is idle.
pub proof fn law_health_is_remembered(
    registry: &mut HealthRegistry,
    provider: Provider,
    endpoint: EndpointKind,
    health: EndpointHealth,
)
    requires
        registry@.len() == 18,
        call_ensures(HealthRegistry::update, (registry, provider, endpoint, health), ()),
    ensures
        final(registry).known(provider, endpoint) is Some,
        ({
            let known = final(registry).known(provider, endpoint)->0;
            &&& known.provider == health@.provider
            &&& known.endpoint == health@.endpoint
            &&& known.state == health@.state
            &&& known.desired_subscriptions == health@.desired_subscriptions
            &&& known.reconnects == health@.reconnects
            &&& known.connection_epoch == health@.connection_epoch
            &&& known.connected_at_ms == health@.connected_at_ms
            &&& known.last_event_at_ms == health@.last_event_at_ms
            &&& known.last_error is Some == health@.last_error is Some
            &&& health@.last_error matches Some(error) ==> (crate::text::byte_length(error) <= 500
                ==> known.last_error == Some(error))
        }),
{
}

/// An endpoint of which nothing is known is idle, wants nothing and has no connection.
pub proof fn law_unknown_endpoints_are_idle(
    registry: &HealthRegistry,
    provider: Provider,
    endpoint: EndpointKind,
    health: EndpointHealth,
)
    requires
        call_ensures(HealthRegistry::entry, (registry, provider, endpoint), health),
    ensures
        registry.known(provider, endpoint) matches Some(known) ==> health@ == known,
        registry.known(provider, endpoint) is None ==> {
            &&& health@.provider == provider
            &&& health@.endpoint == match endpoint {
                EndpointKind::Primary => "primary"@,
                EndpointKind::Public => "public"@,
                EndpointKind::Business => "business"@,
            }
            &&& health@.state == ConnectionState::Idle
            &&& health@.desired_subscriptions == 0
            &&& health@.reconnects == 0
            &&& health@.last_error is None
            &&& has_no_connection(health@)
        },
{
}

/// Everything is ready exactly if every endpoint from which something is wanted is live and every
/// enabled venue has a list of instruments.
pub proof fn law_readiness(health: &HealthRegistry, catalog: &Catalog, report: Readiness)
    requires
        call_ensures(rest::readiness, (health, catalog), report),
    ensures
        report.ready <==> (forall|i: int|
            0 <= i < health@.len() ==> match #[trigger] health@[i] {
                Some(known) => known.desired_subscriptions > 0 ==> known.state
                    == ConnectionState::Live,
                None => true,
            }) && (forall|provider: Provider| #[trigger]
            catalog.snapshot(provider).status.enabled ==> catalog.snapshot(
                provider,
            ).status.last_success_at_ms is Some),
        report.status == if report.ready {
            200u16
        } else {
            503u16
        },
        report.catalogs@.len() == 6,
        forall|i: int|
            0 <= i < 6 ==> (#[trigger] report.catalogs@[i])@ == catalog.snapshot(
                seq![
                    Provider::Bybit,
                    Provider::Binance,
                    Provider::Okx,
                    Provider::Kucoin,
                    Provider::Mexc,
                    Provider::Bingx,
                ][i],
            ).status,
{
    health::law_readiness_is_of_demanded_endpoints(health@);
}

// ---------------------------------------------------------------------------------------------
// Clients
// ---------------------------------------------------------------------------------------------

/// Whether a client asked for a key.
pub open spec fn wants(demand: Demand, client: ClientId, key: KeyView) -> bool {
    demand.contains_key(client) && demand[client].contains(key)
}

/// A client that adds keys has them besides those that it had, and no other client has more or less.
pub proof fn law_added_keys_are_wanted(
    registry: &mut SubscriptionRegistry,
    client: ClientId,
    keys: Vec<SubscriptionKey>,
    r: Result<SubscriptionChange, RegistryError>,
    other: ClientId,
    key: KeyView,
)
    requires
        call_ensures(SubscriptionRegistry::add, (registry, client, keys), r),
    ensures
        r is Ok ==> (wants(final(registry).demand(), client, key) <==> wants(
            old(registry).demand(),
            client,
            key,
        ) || domain::key_views(keys@).contains(key)),
        r is Err ==> final(registry).demand() == old(registry).demand(),
        other != client ==> (wants(final(registry).demand(), other, key) <==> wants(
            old(registry).demand(),
            other,
            key,
        )),
{
    let requested = domain::key_views(keys@).to_set();
    let own = crate::gateway::registry::owned(old(registry).demand(), client);
    let all = own.union(requested);
    assert(all.contains(key) <==> own.contains(key) || requested.contains(key));
    assert(all == Set::<KeyView>::empty() ==> !all.contains(key));
}

/// A client that gives keys up no longer has them, keeps its others, and no other client has more or
/// less.
pub proof fn law_removed_keys_are_not_wanted(
    registry: &mut SubscriptionRegistry,
    client: ClientId,
    keys: Vec<SubscriptionKey>,
    change: SubscriptionChange,
    other: ClientId,
    key: KeyView,
)
    requires
        call_ensures(SubscriptionRegistry::remove, (registry, client, keys), change),
    ensures
        wants(final(registry).demand(), client, key) <==> wants(old(registry).demand(), client, key)
            && !domain::key_views(keys@).contains(key),
        other != client ==> (wants(final(registry).demand(), other, key) <==> wants(
            old(registry).demand(),
            other,
            key,
        )),
{
    let requested = domain::key_views(keys@).to_set();
    let own = crate::gateway::registry::owned(old(registry).demand(), client);
    let all = own.difference(requested);
    assert(all.contains(key) <==> own.contains(key) && !requested.contains(key));
    assert(all == Set::<KeyView>::empty() ==> !all.contains(key));
}

/// A client that is gone wants nothing, and no other client wants more or less.
pub proof fn law_gone_clients_want_nothing(
    registry: &mut SubscriptionRegistry,
    client: ClientId,
    change: SubscriptionChange,
    other: ClientId,
    key: KeyView,
)
    requires
        call_ensures(SubscriptionRegistry::cleanup_client, (registry, client), change),
    ensures
        !wants(final(registry).demand(), client, key),
        other != client ==> (wants(final(registry).demand(), other, key) <==> wants(
            old(registry).demand(),
            other,
            key,
        )),
{
}

/// Whether some client asked for a key.
pub open spec fn is_wanted(demand: Demand, key: KeyView) -> bool {
    exists|client: ClientId| #[trigger] wants(demand, client, key)
}

proof fn lemma_demanded(demand: Demand, key: KeyView)
    ensures
        crate::gateway::registry::demanded(demand).contains(key) <==> is_wanted(demand, key),
{
    if crate::gateway::registry::demanded(demand).contains(key) {
        let client = choose|client: ClientId| #[trigger]
            demand.contains_key(client) && demand[client].contains(key);
        assert(wants(demand, client, key));
    }
    if is_wanted(demand, key) {
        let client = choose|client: ClientId| #[trigger] wants(demand, client, key);
        assert(demand.contains_key(client) && demand[client].contains(key));
    }
}

/// Whether a change tells what became of a key: whether its client gained or lost it, whether it is now
/// wanted that was not, or no longer wanted, and whether the client has it in the end.
pub open spec fn tells_of(
    change: SubscriptionChange,
    before: Demand,
    after: Demand,
    client: ClientId,
    key: KeyView,
) -> bool {
    &&& domain::key_views(change.added@).contains(key) <==> wants(after, client, key) && !wants(
        before,
        client,
        key,
    )
    &&& domain::key_views(change.removed@).contains(key) <==> wants(before, client, key) && !wants(
        after,
        client,
        key,
    )
    &&& domain::key_views(change.activated@).contains(key) <==> is_wanted(after, key) && !is_wanted(
        before,
        key,
    )
    &&& domain::key_views(change.deactivated@).contains(key) <==> is_wanted(before, key)
        && !is_wanted(after, key)
    &&& change.client_subscriptions@.contains(key) <==> wants(after, client, key)
}

proof fn lemma_reports(
    change: SubscriptionChange,
    before: Demand,
    after: Demand,
    client: ClientId,
    key: KeyView,
)
    requires
        change.reports(before, after, client),
    ensures
        tells_of(change, before, after, client, key),
{
    lemma_demanded(before, key);
    lemma_demanded(after, key);
    let added = domain::key_views(change.added@);
    let removed = domain::key_views(change.removed@);
    let activated = domain::key_views(change.activated@);
    let deactivated = domain::key_views(change.deactivated@);
    assert(added.to_set().contains(key) <==> added.contains(key));
    assert(removed.to_set().contains(key) <==> removed.contains(key));
    assert(activated.to_set().contains(key) <==> activated.contains(key));
    assert(deactivated.to_set().contains(key) <==> deactivated.contains(key));
}

/// Whoever adds keys is told what became of every key.
pub proof fn law_additions_are_reported(
    registry: &mut SubscriptionRegistry,
    client: ClientId,
    keys: Vec<SubscriptionKey>,
    r: Result<SubscriptionChange, RegistryError>,
    key: KeyView,
)
    requires
        call_ensures(SubscriptionRegistry::add, (registry, client, keys), r),
        r is Ok,
    ensures
        tells_of(r->Ok_0, old(registry).demand(), final(registry).demand(), client, key),
{
    lemma_reports(r->Ok_0, old(registry).demand(), final(registry).demand(), client, key);
}

/// Whoever gives keys up is told what became of every key.
pub proof fn law_removals_are_reported(
    registry: &mut SubscriptionRegistry,
    client: ClientId,
    keys: Vec<SubscriptionKey>,
    change: SubscriptionChange,
    key: KeyView,
)
    requires
        call_ensures(SubscriptionRegistry::remove, (registry, client, keys), change),
    ensures
        tells_of(change, old(registry).demand(), final(registry).demand(), client, key),
{
    lemma_reports(change, old(registry).demand(), final(registry).demand(), client, key);
}

/// What becomes of every key where a client goes is told.
pub proof fn law_departures_are_reported(
    registry: &mut SubscriptionRegistry,
    client: ClientId,
    change: SubscriptionChange,
    key: KeyView,
)
    requires
        call_ensures(SubscriptionRegistry::cleanup_client, (registry, client), change),
    ensures
        tells_of(change, old(registry).demand(), final(registry).demand(), client, key),
{
    lemma_reports(change, old(registry).demand(), final(registry).demand(), client, key);
}

/// The keys that a client has together with those that it adds.
pub open spec fn with_keys(demand: Demand, client: ClientId, keys: Seq<KeyView>) -> Set<KeyView> {
    Set::new(|key: KeyView| wants(demand, client, key) || keys.contains(key))
}

/// The keys of a venue that some client has or that are added.
pub open spec fn with_keys_of(demand: Demand, keys: Seq<KeyView>, provider: Provider) -> Set<
    KeyView,
> {
    Set::new(
        |key: KeyView| key.provider == provider && (is_wanted(demand, key) || keys.contains(key)),
    )
}

/// Keys are added exactly where the client stays within its limit and each venue within its own; else the
/// limit that is exceeded is told with what was asked for, the client's before a venue's.
pub proof fn law_additions_stay_within_the_limits(
    registry: &mut SubscriptionRegistry,
    client: ClientId,
    keys: Vec<SubscriptionKey>,
    r: Result<SubscriptionChange, RegistryError>,
    venue: Provider,
)
    requires
        call_ensures(SubscriptionRegistry::add, (registry, client, keys), r),
    ensures
        ({
            let demand = old(registry).demand();
            let views = domain::key_views(keys@);
            let own = with_keys(demand, client, views).len();
            match r {
                Ok(_) => own <= old(registry).client_limit() && with_keys_of(
                    demand,
                    views,
                    venue,
                ).len() <= old(registry).venue_limits().limit_of(venue),
                Err(RegistryError::ClientLimitExceeded { limit, requested }) => {
                    &&& own > old(registry).client_limit()
                    &&& limit == old(registry).client_limit()
                    &&& own <= usize::MAX ==> requested == own
                },
                Err(RegistryError::ProviderLimitExceeded { provider, limit, requested }) => {
                    &&& own <= old(registry).client_limit()
                    &&& limit == old(registry).venue_limits().limit_of(provider)
                    &&& requested == with_keys_of(demand, views, provider).len()
                    &&& requested > limit
                },
            }
        }),
{
    let demand = old(registry).demand();
    let views = domain::key_views(keys@);
    let requested = views.to_set();
    let own = crate::gateway::registry::owned(demand, client).union(requested);
    assert forall|key: KeyView| requested.contains(key) == #[trigger] views.contains(key) by {}
    assert(own =~= with_keys(demand, client, views));
    let all = crate::gateway::registry::demanded(demand).union(requested);
    assert forall|p: Provider| #[trigger]
        crate::gateway::registry::provider_total(all, p) == with_keys_of(demand, views, p).len() by {
        assert forall|key: KeyView| all.contains(key) <==> #[trigger] is_wanted(demand, key)
            || views.contains(key) by {
            lemma_demanded(demand, key);
        }
        assert(all.filter(|key: KeyView| key.provider == p) =~= with_keys_of(demand, views, p));
    }
    assert(old(registry).venue_limits().limit_of(venue) >= crate::gateway::registry::provider_total(
        all,
        venue,
    ) || r is Err);
    if let Err(RegistryError::ProviderLimitExceeded { provider, .. }) = r {
        assert(crate::gateway::registry::provider_total(all, provider) == with_keys_of(
            demand,
            views,
            provider,
        ).len());
    }
}

/// A snapshot of a client is what the client wants, and that of all is what any of them wants.
pub proof fn law_snapshots_are_what_is_wanted(
    registry: &SubscriptionRegistry,
    client: ClientId,
    snapshot: KeySet,
    key: KeyView,
)
    ensures
        call_ensures(SubscriptionRegistry::client_snapshot, (registry, client), snapshot) ==> (
        snapshot@.contains(key) <==> wants(registry.demand(), client, key)),
        call_ensures(SubscriptionRegistry::desired_snapshot, (registry,), snapshot) ==> (
        snapshot@.contains(key) <==> is_wanted(registry.demand(), key)),
{
    lemma_demanded(registry.demand(), key);
}

/// What a client of the hub gets is what was set for it last; a client that is not there gets nothing.
pub proof fn law_set_keys_are_routed(
    hub: &mut GatewayHub,
    client: ClientId,
    keys: &KeySet,
    known: bool,
    other: ClientId,
)
    requires
        call_ensures(GatewayHub::update_client_subscriptions, (hub, client, keys), known),
    ensures
        known <==> old(hub).routes().contains_key(client),
        known ==> final(hub).routes()[client].subscriptions == keys@,
        known ==> final(hub).routes()[client].lagged == old(hub).routes()[client].lagged,
        final(hub).routes().contains_key(other) <==> old(hub).routes().contains_key(other),
        other != client ==> final(hub).routes()[other] == old(hub).routes()[other],
{
}

/// A client is taken in where there is room, or where it is in already, and starts with nothing.
pub proof fn law_clients_are_taken_in_where_there_is_room(
    hub: &mut GatewayHub,
    client: ClientId,
    feed: Option<ClientFeed>,
    other: ClientId,
)
    requires
        call_ensures(GatewayHub::try_register_client, (hub, client), feed),
    ensures
        feed is Some <==> old(hub).routes().contains_key(client) || old(hub).routes().dom().len()
            < old(hub).client_limit(),
        feed matches Some(made) ==> {
            &&& made.client_id == client
            &&& made.capacity == old(hub).capacity()
            &&& final(hub).routes().contains_key(client)
            &&& final(hub).routes()[client].subscriptions == Set::<KeyView>::empty()
            &&& final(hub).routes()[client].lagged == 0
        },
        other != client ==> final(hub).routes().contains_key(other) == old(
            hub,
        ).routes().contains_key(other) && final(hub).routes()[other] == old(hub).routes()[other],
        final(hub).next_sequence() == old(hub).next_sequence(),
        final(hub).epoch() == old(hub).epoch(),
{
}

/// A client that is removed gets nothing more.
pub proof fn law_removed_clients_get_nothing(hub: &mut GatewayHub, client: ClientId, other: ClientId)
    requires
        call_ensures(GatewayHub::remove_client, (hub, client), ()),
    ensures
        !final(hub).routes().contains_key(client),
        other != client ==> final(hub).routes().contains_key(other) == old(
            hub,
        ).routes().contains_key(other) && final(hub).routes()[other] == old(hub).routes()[other],
{
}

/// An event goes to exactly the clients that asked for its venue, its instrument and its kind, and to
/// each of them once.
pub proof fn law_events_go_to_those_who_asked(
    hub: &GatewayHub,
    event: &MarketEvent,
    clients: Vec<ClientId>,
    client: ClientId,
)
    requires
        call_ensures(GatewayHub::route_event, (hub, event), clients),
    ensures
        clients@.contains(client) <==> hub.routes().contains_key(client)
            && hub.routes()[client].subscriptions.contains(
            KeyView {
                provider: event@.provider,
                market: event@.market,
                symbol: event@.symbol,
                channel: match event@.payload {
                    PayloadView::Ticker(_) => Channel::Ticker,
                    PayloadView::Candle(_) => Channel::Candle1m,
                },
            },
        ),
        clients@.no_duplicates(),
{
    assert(clients@.to_set().contains(client) <==> clients@.contains(client));
}

/// A delivery leaves everything as it is where it went well. A queue that is full costs its client what
/// it asked for and counts one more; a queue that is closed removes its client.
pub proof fn law_deliveries_concern_their_client(
    hub: &mut GatewayHub,
    client: ClientId,
    outcome: DeliveryOutcome,
    other: ClientId,
)
    requires
        call_ensures(GatewayHub::record_delivery, (hub, client, outcome), ()),
    ensures
        outcome == DeliveryOutcome::Delivered ==> final(hub).routes() == old(hub).routes(),
        outcome == DeliveryOutcome::Closed ==> !final(hub).routes().contains_key(client),
        outcome == DeliveryOutcome::QueueFull && old(hub).routes().contains_key(client) ==> {
            &&& final(hub).routes().contains_key(client)
            &&& final(hub).routes()[client].subscriptions == Set::<KeyView>::empty()
            &&& old(hub).routes()[client].lagged < u64::MAX ==> final(hub).routes()[client].lagged
                == old(hub).routes()[client].lagged + 1
        },
        other != client ==> final(hub).routes().contains_key(other) == old(
            hub,
        ).routes().contains_key(other) && final(hub).routes()[other] == old(hub).routes()[other],
{
}

/// A session opens with a greeting that has the limits of the gateway, and is refused where there are
/// too many clients.
pub proof fn law_sessions_open_with_a_greeting(
    gateway: &mut Gateway,
    client: ClientId,
    opening: Opening,
)
    requires
        call_ensures(Gateway::open_session, (gateway, client), opening),
    ensures
        match opening {
            Opening::Opened { feed, hello } => {
                &&& feed.client_id == client
                &&& feed.capacity == old(gateway).hub().capacity()
                &&& final(gateway).hub().routes().contains_key(client)
                &&& final(gateway).hub().routes()[client].subscriptions == Set::<KeyView>::empty()
                &&& match hello@ {
                    ControlView::Hello {
                        schema_version,
                        stream_epoch,
                        max_subscriptions,
                        provider_subscription_limits,
                        ..
                    } => {
                        &&& schema_version == 1
                        &&& stream_epoch == crate::wire::uuid(old(gateway).hub().epoch())
                        &&& max_subscriptions == old(gateway).subscriptions().client_limit()
                    },
                    _ => false,
                }
            },
            Opening::Rejected(message) => {
                &&& !old(gateway).hub().routes().contains_key(client)
                &&& old(gateway).hub().routes().dom().len() >= old(gateway).hub().client_limit()
                &&& final(gateway).hub().routes() == old(gateway).hub().routes()
                &&& message@ == (ControlView::Error {
                    schema_version: 1,
                    request_id: None,
                    code: ErrorCode::LimitExceeded,
                    message: "downstream client limit exceeded"@,
                })
            },
        },
{
}

/// A session that is closed leaves neither a client nor a demand.
pub proof fn law_closed_sessions_are_gone(
    gateway: &mut Gateway,
    client: ClientId,
    other: ClientId,
    key: KeyView,
)
    requires
        call_ensures(Gateway::close_session, (gateway, client), ()),
    ensures
        !final(gateway).hub().routes().contains_key(client),
        !wants(final(gateway).subscriptions().demand(), client, key),
        other != client ==> (wants(final(gateway).subscriptions().demand(), other, key) <==> wants(
            old(gateway).subscriptions().demand(),
            other,
            key,
        )),
{
}

/// In a session a ping is echoed, an event is passed on as it is, and bytes are refused. A client that is
/// gone or too slow ends it, the latter with the number of messages that it lost, and so does a stop.
pub proof fn law_sessions_pass_on_what_comes(
    gateway: &mut Gateway,
    client: ClientId,
    input: SessionInput,
    max_command_bytes: usize,
    enabled: &ProviderSet,
    catalog: &Catalog,
    step: SessionStep,
)
    requires
        call_ensures(
            Gateway::step_session,
            (gateway, client, input, max_command_bytes, enabled, catalog),
            step,
        ),
    ensures
        !(input is Text) ==> final(gateway).hub().routes() == old(gateway).hub().routes(),
        step.ends <==> (input is Disconnected || input is FeedClosed || input is Lagged
            || input is Shutdown),
        step.lagged <==> input is Lagged,
        input matches SessionInput::Ping(payload) ==> (step.outgoing is Some && match step.outgoing->0 {
            Outgoing::Pong(echo) => echo@ == payload@,
            _ => false,
        }),
        input matches SessionInput::Event(event) ==> (step.outgoing is Some && match step.outgoing->0 {
            Outgoing::Event(sent) => sent@ == event@,
            _ => false,
        }),
        input is Binary ==> step.rejected && step.outgoing is Some && match step.outgoing->0 {
            Outgoing::Control(message) => match message@ {
                ControlView::Error { code, .. } => code == ErrorCode::InvalidCommand,
                _ => false,
            },
            _ => false,
        },
        input matches SessionInput::Lagged(lost) ==> (step.outgoing is Some && match step.outgoing->0 {
            Outgoing::Control(message) => match message@ {
                ControlView::Gap { schema_version, dropped_messages, .. } => schema_version == 1
                    && dropped_messages == lost,
                _ => false,
            },
            _ => false,
        }),
        input is Shutdown ==> step.outgoing == Some(Outgoing::Close),
        input is Pong || input is Disconnected || input is FeedClosed ==> step.outgoing is None,
{
}

/// An update is given the next number of the stream and goes to exactly the clients that asked for it.
pub proof fn law_published_updates_reach_those_who_asked(
    gateway: &mut Gateway,
    event: ProviderEvent,
    r: Result<(MarketEvent, Vec<ClientId>), PublishError>,
    client: ClientId,
)
    requires
        call_ensures(Gateway::publish, (gateway, event), r),
    ensures
        r is Ok <==> old(gateway).hub().next_sequence() < u64::MAX,
        r matches Ok((published, clients)) ==> {
            &&& published@.delivery_sequence == old(gateway).hub().next_sequence()
            &&& published@.stream_epoch == old(gateway).hub().epoch()
            &&& published@.symbol == event@.symbol
            &&& published@.provider == event@.provider
            &&& published@.payload == event@.payload
            &&& published@.exchange_time_ms == event@.exchange_time_ms
            &&& published@.gateway_received_time_ms == event@.gateway_received_time_ms
            &&& final(gateway).hub().next_sequence() == old(gateway).hub().next_sequence() + 1
            &&& clients@.contains(client) <==> old(gateway).hub().routes().contains_key(client)
                && old(gateway).hub().routes()[client].subscriptions.contains(
                KeyView {
                    provider: event@.provider,
                    market: event@.market,
                    symbol: event@.symbol,
                    channel: match event@.payload {
                        PayloadView::Ticker(_) => Channel::Ticker,
                        PayloadView::Candle(_) => Channel::Candle1m,
                    },
                },
            )
        },
{
    if let Ok((published, clients)) = r {
        assert(clients@.to_set().contains(client) <==> clients@.contains(client));
    }
}

/// A stream may be opened from no origin, from one that is listed, and from any where all are.
pub proof fn law_origins_are_listed(allowed: &Vec<String>, name: &str, answer: bool)
    ensures
        call_ensures(rest::origin_allowed, (allowed, Origin::Absent), answer) ==> answer,
        call_ensures(rest::origin_allowed, (allowed, Origin::Unreadable), answer) ==> !answer,
        call_ensures(rest::origin_allowed, (allowed, Origin::Named(name)), answer) ==> (answer
            <==> exists|i: int|
            0 <= i < allowed@.len() && ((#[trigger] allowed@[i])@ == "*"@ || allowed@[i]@
                == name@)),
{
    let listed = crate::providers::text_views(allowed@);
    if listed.contains("*"@) {
        let i = choose|i: int| 0 <= i < listed.len() && listed[i] == "*"@;
        assert(allowed@[i]@ == "*"@);
    }
    if listed.contains(name@) {
        let i = choose|i: int| 0 <= i < listed.len() && listed[i] == name@;
        assert(allowed@[i]@ == name@);
    }
    assert forall|i: int| 0 <= i < allowed@.len() implies #[trigger] listed[i] == allowed@[i]@ by {}
    if exists|i: int|
        0 <= i < allowed@.len() && ((#[trigger] allowed@[i])@ == "*"@ || allowed@[i]@ == name@) {
        let i = choose|i: int|
            0 <= i < allowed@.len() && ((#[trigger] allowed@[i])@ == "*"@ || allowed@[i]@ == name@);
        assert(listed[i] == allowed@[i]@);
    }
}

// ---------------------------------------------------------------------------------------------
// The catalog
// ---------------------------------------------------------------------------------------------

proof fn lemma_id(list: Seq<catalog::InstrumentView>, id: Seq<char>)
    ensures
        match catalog::with_id(list, id) {
            Some(found) => list.contains(found) && found.instrument_id == id,
            None => forall|i: int| 0 <= i < list.len() ==> (#[trigger] list[i]).instrument_id != id,
        },
    decreases list.len(),
{
    if list.len() > 0 {
        let rest = list.drop_last();
        lemma_id(rest, id);
        match catalog::with_id(rest, id) {
            Some(found) => {
                let k = choose|k: int| 0 <= k < rest.len() && rest[k] == found;
                assert(list[k] == found);
            },
            None => {
                assert(list[list.len() - 1] == list.last());
                assert forall|i: int| 0 <= i < rest.len() implies (
                #[trigger] list[i]).instrument_id != id by {
                    assert(rest[i] == list[i]);
                }
            },
        }
    }
}

/// An instrument is found by its identifier exactly if one of the venues lists it.
pub proof fn law_instruments_are_found_by_identifier(
    catalog: &Catalog,
    id: &str,
    found: Option<Instrument>,
)
    requires
        call_ensures(Catalog::get_by_id, (catalog, id), found),
    ensures
        found matches Some(instrument) ==> instrument@.instrument_id == id@
            && catalog.everything().contains(instrument@),
        found is None ==> forall|i: int|
            0 <= i < catalog.everything().len() ==> (
            #[trigger] catalog.everything()[i]).instrument_id != id@,
{
    lemma_id(catalog.everything(), id@);
}

/// Every instrument that a filter gives has the values that it names, and every listed instrument that
/// has them is given.
pub proof fn law_filtered_instruments_have_the_named_values(
    catalog: &Catalog,
    filter: &CatalogFilter,
    list: Vec<Instrument>,
    instrument: catalog::InstrumentView,
)
    requires
        call_ensures(Catalog::filter, (catalog, filter), list),
    ensures
        catalog::instrument_views(list@).contains(instrument)
            <==> catalog.everything().contains(instrument) && super::catalogs::has_named_values(
            *filter,
            instrument,
        ),
{
    let all = catalog.everything();
    let kept = catalog::passing(all, *filter);
    let places = super::catalogs::law_filters_keep_what_has_the_named_values(all, *filter);
    if kept.contains(instrument) {
        let i = choose|i: int| 0 <= i < kept.len() && kept[i] == instrument;
        assert(kept[i] == all[places[i]]);
        assert(0 <= places[i] < all.len());
        assert(places.contains(places[i]));
        assert(has(*filter, all[places[i]]));
    }
    if all.contains(instrument) && super::catalogs::has_named_values(*filter, instrument) {
        let k = choose|k: int| 0 <= k < all.len() && all[k] == instrument;
        assert(super::catalogs::has_named_values(*filter, all[k]));
        assert(places.contains(k));
        let i = choose|i: int| 0 <= i < places.len() && places[i] == k;
        assert(kept[i] == all[places[i]]);
    }
}

spec fn has(filter: CatalogFilter, instrument: catalog::InstrumentView) -> bool {
    super::catalogs::has_named_values(filter, instrument)
}

/// A catalog starts without instruments, with the venues that its sources enable.
pub proof fn law_new_catalogs_are_empty(sources: CatalogSources, made: Catalog, provider: Provider)
    requires
        call_ensures(Catalog::new, (sources,), made),
    ensures
        made.enabled() == sources.enabled_providers@,
        made.url(provider) == sources.url(provider),
        made.snapshot(provider).instruments.len() == 0,
        made.snapshot(provider).status.provider == provider,
        made.snapshot(provider).status.enabled <==> sources.enabled_providers@.contains(provider),
        made.snapshot(provider).status.instrument_count == 0,
        made.snapshot(provider).status.last_attempt_at_ms is None,
        made.snapshot(provider).status.last_success_at_ms is None,
        made.snapshot(provider).status.last_error is None,
{
}

/// Every venue streams tickers and candles. Three of them say when a candle is final, and all but KuCoin
/// tell volumes.
pub proof fn law_venues_have_their_features(provider: Provider, features: InstrumentCapabilities)
    requires
        call_ensures(catalog::capabilities, (provider,), features),
    ensures
        features.ticker && features.candle_1m,
        features.candle_1m_finality == CandleFinalitySupport::Authoritative <==> provider
            == Provider::Bybit || provider == Provider::Binance || provider == Provider::Okx,
        features.candle_1m_volume == CandleVolumeSupport::Available <==> provider
            != Provider::Kucoin,
        features.offers(Channel::Ticker) && features.offers(Channel::Candle1m),
{
}

// ---------------------------------------------------------------------------------------------
// Settings
// ---------------------------------------------------------------------------------------------

/// Durations that are set in seconds are kept in milliseconds.
pub proof fn law_durations_are_in_milliseconds(settings: &Settings, millis: u128)
    ensures
        call_ensures(Settings::stable_connection_duration, (settings,), millis) ==> millis == 1_000
            * settings.stable_connection_seconds,
        call_ensures(Settings::shutdown_grace, (settings,), millis) ==> millis == 1_000
            * settings.shutdown_grace_seconds,
        call_ensures(Settings::catalog_refresh_interval, (settings,), millis) ==> millis == 1_000
            * settings.catalog_refresh_seconds,
{
}

/// Histories are taken from the roots that are set for their venues.
pub proof fn law_histories_come_from_the_roots(settings: &Settings, sources: HistorySources)
    requires
        call_ensures(Settings::history_sources, (settings,), sources),
    ensures
        sources.root(Provider::Bybit) == settings.bybit_rest_url@,
        sources.root(Provider::Binance) == settings.binance_futures_rest_url@,
        sources.root(Provider::Okx) == settings.okx_rest_url@,
        sources.root(Provider::Kucoin) == settings.kucoin_futures_rest_url@,
        sources.root(Provider::Mexc) == settings.mexc_futures_rest_url@,
        sources.root(Provider::Bingx) == settings.bingx_swap_rest_url@,
{
}

/// Settings are taken exactly if every limit leaves room, the waits are in order, every address fits its
/// purpose, some choice of venues is made, and no origin is empty.
pub proof fn law_settings_are_taken(settings: &Settings, r: Result<(), String>)
    requires
        call_ensures(Settings::validate, (settings,), r),
    ensures
        r is Ok <==> {
            &&& settings.downstream_buffer > 0
            &&& settings.max_downstream_clients > 0
            &&& settings.max_client_subscriptions > 0
            &&& settings.max_provider_subscriptions != Some(0usize)
            &&& settings.max_command_bytes > 0
            &&& settings.max_history_requests > 0
            &&& 0 < settings.upstream_backoff_min_ms <= settings.upstream_backoff_max_ms
            &&& settings.stable_connection_seconds > 0
            &&& settings.shutdown_grace_seconds > 0
            &&& settings.catalog_refresh_seconds > 0
            &&& is_stream_address(settings.bybit_ws_url@)
            &&& is_stream_address(settings.binance_ws_url@)
            &&& is_stream_address(settings.okx_public_ws_url@)
            &&& is_stream_address(settings.okx_business_ws_url@)
            &&& is_stream_address(settings.mexc_ws_url@)
            &&& is_stream_address(settings.bingx_ws_url@)
            &&& is_root_address(settings.bybit_rest_url@)
            &&& is_root_address(settings.binance_futures_rest_url@)
            &&& is_root_address(settings.okx_rest_url@)
            &&& is_root_address(settings.kucoin_futures_rest_url@)
            &&& is_root_address(settings.mexc_futures_rest_url@)
            &&& is_root_address(settings.bingx_swap_rest_url@)
            &&& settings.providers@.len() > 0
            &&& settings.providers@.len() == 1 || !(settings.providers@.contains(
                config::ProviderSelection::All,
            ) || settings.providers@.contains(config::ProviderSelection::Nothing))
            &&& forall|i: int|
                0 <= i < settings.allowed_origins@.len() ==> (
                #[trigger] settings.allowed_origins@[i])@.len() > 0
        },
{
}

/// Whether an address can be that of a stream.
pub open spec fn is_stream_address(value: Seq<char>) -> bool {
    match crate::weburl::url_of(value) {
        Ok(url) => url.scheme == "ws"@ || url.scheme == "wss"@,
        Err(_) => false,
    }
}

/// Whether an address can be a root.
pub open spec fn is_root_address(value: Seq<char>) -> bool {
    match crate::weburl::url_of(value) {
        Ok(url) => (url.scheme == "http"@ || url.scheme == "https"@) && !url.has_query
            && !url.has_fragment && crate::text::finishes_with(url.path, "/"@),
        Err(_) => false,
    }
}

/// Of what a venue can carry on one connection only a number for Binance is known.
pub proof fn law_known_capacities(enabled: &ProviderSet, limits: ProviderLimits, provider: Provider)
    requires
        call_ensures(config::declared_limits, (enabled,), limits),
    ensures
        limits@.contains_key(provider) <==> enabled@.contains(provider),
        limits.limit_of(provider) == if provider == Provider::Binance && enabled@.contains(provider) {
            200usize
        } else {
            usize::MAX
        },
{
}

/// A gateway starts without clients and without demand, and its first event has the number one.
pub proof fn law_new_gateways_are_empty(
    buffer: usize,
    clients: usize,
    keys: usize,
    limits: ProviderLimits,
    gateway: Gateway,
    client: ClientId,
    key: KeyView,
)
    requires
        call_ensures(Gateway::new, (buffer, clients, keys, limits), gateway),
    ensures
        !gateway.hub().routes().contains_key(client),
        !wants(gateway.subscriptions().demand(), client, key),
        gateway.hub().next_sequence() == 1,
        gateway.hub().capacity() == buffer,
        gateway.hub().client_limit() == clients,
        gateway.subscriptions().client_limit() == keys,
        gateway.subscriptions().venue_limits() == limits,
{
}

// ---------------------------------------------------------------------------------------------
// Histories
// ---------------------------------------------------------------------------------------------

/// A history names what was asked for. Its candles lie in the window, go up, are among those that were
/// read, and are no more than were asked for; one that was read and lies in the window is missing only
/// where there are as many as were asked for and all of them are earlier.
pub proof fn law_histories_answer_the_request(
    request: &HistoryRequest,
    candles: Vec<crate::domain::Candle>,
    r: Result<HistoryResult, HistoryError>,
    i: int,
    read: CandleView,
)
    requires
        call_ensures(history::finish_result, (request, candles), r),
        r is Ok,
        history::candle_views(candles@).contains(read),
    ensures
        ({
            let result = r->Ok_0;
            &&& result.provider == request@.provider
            &&& result.symbol@ == request@.symbol
            &&& result.start_time_ms == request@.start_time_ms
            &&& result.end_time_ms == request@.end_time_ms
            &&& result.candles@.len() <= request@.limit
            &&& 0 <= i < result.candles@.len() ==> {
                &&& result.candles@[i].provider == request@.provider
                &&& result.candles@[i].symbol@ == request@.symbol
                &&& request@.start_time_ms <= result.candles@[i].candle@.start_time_ms
                &&& result.candles@[i].candle@.end_time_ms <= request@.end_time_ms
                &&& history::candle_views(candles@).contains(result.candles@[i].candle@)
                &&& i > 0 ==> result.candles@[i - 1].candle@.start_time_ms
                    < result.candles@[i].candle@.start_time_ms
            }
            &&& request@.start_time_ms <= read.start_time_ms && read.end_time_ms
                <= request@.end_time_ms ==> (exists|k: int|
                0 <= k < result.candles@.len() && (#[trigger] result.candles@[k]).candle@ == read)
                || (result.candles@.len() == request@.limit && forall|k: int|
                0 <= k < result.candles@.len() ==> (
                #[trigger] result.candles@[k]).candle@.start_time_ms < read.start_time_ms)
        }),
{
    let all = history::candle_views(candles@);
    let result = r->Ok_0;
    let kept = history::within(request@, all);
    let list = choose|list: Seq<CandleView>| #[trigger]
        history::arranges(list, kept) && history::answers(
            result,
            request@,
            history::limited(list, request@.limit),
        );
    history::law_results_are_ordered_bounded_and_earliest(request@, all, list);
    let told = history::limited(list, request@.limit);
    if 0 <= i < result.candles@.len() {
        assert(result.candles@[i].candle@ == told[i]);
        assert(history::in_range(request@, told[i]));
        if i > 0 {
            assert(result.candles@[i - 1].candle@ == told[i - 1]);
        }
    }
    if history::in_range(request@, read) {
        let k = choose|k: int| 0 <= k < all.len() && all[k] == read;
        assert(history::in_range(request@, all[k]));
        if told.contains(all[k]) {
            let m = choose|m: int| 0 <= m < told.len() && told[m] == all[k];
            assert(result.candles@[m].candle@ == read);
        } else {
            assert forall|m: int| 0 <= m < result.candles@.len() implies (
            #[trigger] result.candles@[m]).candle@.start_time_ms < read.start_time_ms by {
                assert(result.candles@[m].candle@ == told[m]);
            }
        }
    }
}

// ---------------------------------------------------------------------------------------------
// Values
// ---------------------------------------------------------------------------------------------

/// A key is made of the symbol that a text names, and of what it was made for.
pub proof fn law_keys_are_made_of_symbols(
    provider: Provider,
    market: MarketKind,
    symbol: &str,
    channel: Channel,
    r: Result<SubscriptionKey, DomainError>,
)
    requires
        call_ensures(SubscriptionKey::new, (provider, market, symbol, channel), r),
    ensures
        r is Ok <==> domain::symbol_identity(symbol@) is Ok,
        r matches Ok(key) ==> key@.provider == provider && key@.market == market && key@.channel
            == channel && domain::symbol_identity(symbol@) == Ok::<
            Seq<char>,
            domain::DomainErrorView,
        >(key@.symbol),
{
}

/// The identifier of an instrument names its venue, its market and its symbol.
pub proof fn law_instruments_have_identifiers(key: &SubscriptionKey, id: String)
    requires
        call_ensures(SubscriptionKey::instrument_id, (key,), id),
    ensures
        id@ == venue(key@.provider) + ":"@ + "linear_perpetual"@ + ":"@ + key@.symbol,
{
}

/// A decimal is kept as it is written.
pub proof fn law_decimals_are_kept_as_written(value: &str, r: Result<DecimalValue, DomainError>)
    requires
        call_ensures(DecimalValue::new, (value,), r),
    ensures
        r is Ok <==> crate::decimal::decimal_of(value@) is Some,
        r matches Ok(kept) ==> kept@ == value@,
{
}

/// A time is told in milliseconds, and one that is too late, or before the epoch, as near as can be.
pub proof fn law_times_are_bounded(elapsed: u128, reading: Option<u128>, millis: u64)
    ensures
        call_ensures(runtime::bounded_millis, (elapsed,), millis) ==> millis <= elapsed && (elapsed
            <= u64::MAX ==> millis == elapsed) && (elapsed > u64::MAX ==> millis == u64::MAX),
        call_ensures(runtime::millis_of, (reading,), millis) ==> match reading {
            Some(elapsed) => millis <= elapsed && (elapsed <= u64::MAX ==> millis == elapsed),
            None => millis == 0,
        },
{
}

/// The venues are told in one order, each once.
pub proof fn law_venues_are_told_in_order(enabled: &ProviderSet, value: Json)
    requires
        call_ensures(rest::providers, (enabled,), value),
    ensures
        value@ == JsonView::List(
            seq![
                rest::descriptor(Provider::Bybit, enabled@.contains(Provider::Bybit)),
                rest::descriptor(Provider::Binance, enabled@.contains(Provider::Binance)),
                rest::descriptor(Provider::Okx, enabled@.contains(Provider::Okx)),
                rest::descriptor(Provider::Kucoin, enabled@.contains(Provider::Kucoin)),
                rest::descriptor(Provider::Mexc, enabled@.contains(Provider::Mexc)),
                rest::descriptor(Provider::Bingx, enabled@.contains(Provider::Bingx)),
            ],
        ),
{
    assert(value@->List_0 =~= seq![
        rest::descriptor(Provider::Bybit, enabled@.contains(Provider::Bybit)),
        rest::descriptor(Provider::Binance, enabled@.contains(Provider::Binance)),
        rest::descriptor(Provider::Okx, enabled@.contains(Provider::Okx)),
        rest::descriptor(Provider::Kucoin, enabled@.contains(Provider::Kucoin)),
        rest::descriptor(Provider::Mexc, enabled@.contains(Provider::Mexc)),
        rest::descriptor(Provider::Bingx, enabled@.contains(Provider::Bingx)),
    ]);
}

/// A failure is told with its status and its code, and with no more than five hundred characters.
pub proof fn law_failures_are_told(
    status: u16,
    code: &'static str,
    message: &str,
    failure: ApiFailure,
)
    requires
        call_ensures(rest::api_error, (status, code, message), failure),
    ensures
        failure@.status == status,
        failure@.code == code@,
        message@.len() <= 500 ==> failure@.message == message@,
        message@.len() > 500 ==> failure@.message == message@.take(500),
{
}

} // verus!
