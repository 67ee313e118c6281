//! The state of every upstream endpoint, and whether what is demanded is live.
use vstd::prelude::*;

use crate::domain::Provider;
use crate::keyset;
use crate::providers;
use crate::providers::EndpointKind;
use crate::text;

verus! {

/// The longest error that is kept, in bytes.
pub const MAX_ERROR_BYTES: usize = 500;

/// How many endpoints there can be: three for each venue.
pub const SLOTS: usize = 18;

/// The state of a connection.
#[derive(Debug, Clone, Copy, PartialEq, Eq, Structural)]
pub enum ConnectionState {
    Idle,
    Connecting,
    Live,
    Backoff,
    Stopped,
}

/// The state of an endpoint.
#[derive(Debug)]
pub struct EndpointHealth {
    pub provider: Provider,
    pub endpoint: String,
    pub state: ConnectionState,
    pub desired_subscriptions: usize,
    pub reconnects: u64,
    pub connection_epoch: Option<u128>,
    pub connected_at_ms: Option<u64>,
    pub last_event_at_ms: Option<u64>,
    pub last_error: Option<String>,
}

/// The mathematical value of an [`EndpointHealth`].
pub struct HealthView {
    pub provider: Provider,
    pub endpoint: Seq<char>,
    pub state: ConnectionState,
    pub desired_subscriptions: usize,
    pub reconnects: u64,
    pub connection_epoch: Option<u128>,
    pub connected_at_ms: Option<u64>,
    pub last_event_at_ms: Option<u64>,
    pub last_error: Option<Seq<char>>,
}

impl View for EndpointHealth {
    type V = HealthView;

    open spec fn view(&self) -> HealthView {
        HealthView {
            provider: self.provider,
            endpoint: self.endpoint@,
            state: self.state,
            desired_subscriptions: self.desired_subscriptions,
            reconnects: self.reconnects,
            connection_epoch: self.connection_epoch,
            connected_at_ms: self.connected_at_ms,
            last_event_at_ms: self.last_event_at_ms,
            last_error: match self.last_error {
                Some(error) => Some(error@),
                None => None,
            },
        }
    }
}

impl Clone for EndpointHealth {
    fn clone(&self) -> (copy: Self)
        ensures
            copy@ == self@,
    {
        EndpointHealth {
            provider: self.provider,
            endpoint: self.endpoint.clone(),
            state: self.state,
            desired_subscriptions: self.desired_subscriptions,
            reconnects: self.reconnects,
            connection_epoch: self.connection_epoch,
            connected_at_ms: self.connected_at_ms,
            last_event_at_ms: self.last_event_at_ms,
            last_error: match &self.last_error {
                Some(error) => Some(error.clone()),
                None => None,
            },
        }
    }
}

/// An endpoint of which nothing is known.
pub open spec fn unknown(provider: Provider, endpoint: EndpointKind) -> HealthView {
    HealthView {
        provider,
        endpoint: providers::endpoint_name(endpoint),
        state: ConnectionState::Idle,
        desired_subscriptions: 0,
        reconnects: 0,
        connection_epoch: None,
        connected_at_ms: None,
        last_event_at_ms: None,
        last_error: None,
    }
}

impl EndpointHealth {
    /// An endpoint of which nothing is known.
    fn new(provider: Provider, endpoint: EndpointKind) -> (health: Self)
        ensures
            health@ == unknown(provider, endpoint),
    {
        EndpointHealth {
            provider,
            endpoint: endpoint.name().to_owned(),
            state: ConnectionState::Idle,
            desired_subscriptions: 0,
            reconnects: 0,
            connection_epoch: None,
            connected_at_ms: None,
            last_event_at_ms: None,
            last_error: None,
        }
    }
}

/// An endpoint without a connection.
pub open spec fn disconnected(health: HealthView, state: ConnectionState) -> HealthView {
    HealthView {
        state,
        connection_epoch: None,
        connected_at_ms: None,
        last_event_at_ms: None,
        ..health
    }
}

impl EndpointHealth {
    /// Nothing is demanded: there is no connection and no error.
    pub fn mark_idle(&mut self)
        ensures
            final(self)@ == (HealthView {
                last_error: None,
                ..disconnected(old(self)@, ConnectionState::Idle)
            }),
    {
        self.disconnect(ConnectionState::Idle);
        self.last_error = None;
    }

    /// A connection is attempted.
    pub fn mark_connecting(&mut self)
        ensures
            final(self)@ == (HealthView {
                last_error: None,
                ..disconnected(old(self)@, ConnectionState::Connecting)
            }),
    {
        self.disconnect(ConnectionState::Connecting);
        self.last_error = None;
    }

    /// A connection is open, and its subscriptions are not acknowledged yet.
    pub fn mark_connected(&mut self, connection_epoch: u128, now_ms: u64)
        ensures
            final(self)@ == (HealthView {
                state: ConnectionState::Connecting,
                connection_epoch: Some(connection_epoch),
                connected_at_ms: Some(now_ms),
                last_event_at_ms: None,
                last_error: None,
                ..old(self)@
            }),
    {
        self.state = ConnectionState::Connecting;
        self.connection_epoch = Some(connection_epoch);
        self.connected_at_ms = Some(now_ms);
        self.last_event_at_ms = None;
        self.last_error = None;
    }

    /// The subscriptions of the connection changed.
    pub fn mark_changing(&mut self)
        ensures
            final(self)@ == (HealthView {
                state: ConnectionState::Connecting,
                last_error: None,
                ..old(self)@
            }),
    {
        self.state = ConnectionState::Connecting;
        self.last_error = None;
    }

    /// Every subscription of the connection is acknowledged.
    pub fn mark_live(&mut self)
        ensures
            final(self)@ == (HealthView {
                state: ConnectionState::Live,
                last_error: None,
                ..old(self)@
            }),
    {
        self.state = ConnectionState::Live;
        self.last_error = None;
    }

    /// The connection is gone, and another one follows after a wait.
    pub fn mark_backoff(&mut self, error: String)
        ensures
            final(self)@ == (HealthView {
                reconnects: if old(self)@.reconnects == u64::MAX {
                    u64::MAX
                } else {
                    (old(self)@.reconnects + 1) as u64
                },
                last_error: Some(error@),
                ..disconnected(old(self)@, ConnectionState::Backoff)
            }),
    {
        self.disconnect(ConnectionState::Backoff);
        self.reconnects = match self.reconnects.checked_add(1) {
            Some(count) => count,
            None => u64::MAX,
        };
        self.last_error = Some(error);
    }

    /// No connection follows.
    pub fn mark_stopped(&mut self)
        ensures
            final(self)@ == disconnected(old(self)@, ConnectionState::Stopped),
    {
        self.disconnect(ConnectionState::Stopped);
    }

    /// There is no connection.
    fn disconnect(&mut self, state: ConnectionState)
        ensures
            final(self)@ == disconnected(old(self)@, state),
    {
        self.state = state;
        self.connection_epoch = None;
        self.connected_at_ms = None;
        self.last_event_at_ms = None;
    }
}

/// The place of an endpoint in the order of endpoints: by venue, then by kind.
pub open spec fn slot_of(provider: Provider, endpoint: EndpointKind) -> int {
    keyset::provider_rank(provider) * 3 + match endpoint {
        EndpointKind::Primary => 0int,
        EndpointKind::Public => 1,
        EndpointKind::Business => 2,
    }
}

/// The place of an endpoint in the order of endpoints.
fn slot(provider: Provider, endpoint: EndpointKind) -> (at: usize)
    ensures
        at == slot_of(provider, endpoint),
        at < SLOTS,
{
    let kind: usize = match endpoint {
        EndpointKind::Primary => 0,
        EndpointKind::Public => 1,
        EndpointKind::Business => 2,
    };
    (keyset::rank_of(provider) as usize) * 3 + kind
}

/// Whether an endpoint is as ready as its demand asks for.
pub open spec fn is_ready(health: HealthView) -> bool {
    health.desired_subscriptions == 0 || health.state == ConnectionState::Live
}

/// The endpoints that are known, in order.
pub open spec fn listed(slots: Seq<Option<HealthView>>) -> Seq<HealthView>
    decreases slots.len(),
{
    if slots.len() == 0 {
        Seq::empty()
    } else {
        match slots.last() {
            Some(health) => listed(slots.drop_last()).push(health),
            None => listed(slots.drop_last()),
        }
    }
}

/// Whether every one of some endpoints is ready.
pub open spec fn all_ready(list: Seq<HealthView>) -> bool {
    forall|i: int| 0 <= i < list.len() ==> is_ready(#[trigger] list[i])
}

/// The word for a state of readiness.
pub open spec fn readiness_word(ready: bool) -> Seq<char> {
    if ready {
        "ready"@
    } else {
        "degraded"@
    }
}

/// The readiness of all endpoints.
#[derive(Debug)]
pub struct ReadinessSnapshot {
    pub ready: bool,
    pub status: &'static str,
    pub endpoints: Vec<EndpointHealth>,
}

/// The values of some endpoints.
pub open spec fn health_views(list: Seq<EndpointHealth>) -> Seq<HealthView> {
    Seq::new(list.len(), |i: int| list[i]@)
}

/// An endpoint with its error cut to what is kept of one.
pub open spec fn bounded(health: HealthView) -> HealthView {
    HealthView {
        last_error: match health.last_error {
            Some(error) => Some(text::cut(error, MAX_ERROR_BYTES as nat)),
            None => None,
        },
        ..health
    }
}

/// The states of the endpoints.
#[derive(Debug)]
pub struct HealthRegistry {
    slots: Vec<Option<EndpointHealth>>,
}

/// The values of the places of a registry.
pub closed spec fn slot_views(slots: Seq<Option<EndpointHealth>>) -> Seq<Option<HealthView>> {
    Seq::new(
        slots.len(),
        |i: int|
            match slots[i] {
                Some(health) => Some(health@),
                None => None,
            },
    )
}

impl View for HealthRegistry {
    type V = Seq<Option<HealthView>>;

    /// What is known of each endpoint, in the order of their places.
    closed spec fn view(&self) -> Seq<Option<HealthView>> {
        slot_views(self.slots@)
    }
}

impl HealthRegistry {
    /// There is a place for every endpoint.
    #[verifier::type_invariant]
    spec fn complete(&self) -> bool {
        self.slots@.len() == SLOTS
    }

    /// What is known of an endpoint.
    pub open spec fn known(&self, provider: Provider, endpoint: EndpointKind) -> Option<HealthView> {
        self@[slot_of(provider, endpoint)]
    }

    /// A registry without endpoints.
    pub fn new() -> (registry: Self)
        ensures
            registry@ == Seq::new(SLOTS as nat, |i: int| None::<HealthView>),
    {
        let mut slots: Vec<Option<EndpointHealth>> = Vec::new();
        let mut i: usize = 0;
        while i < SLOTS
            invariant
                i <= SLOTS,
                slots@.len() == i,
                forall|k: int| 0 <= k < i ==> #[trigger] slots@[k] is None,
            decreases SLOTS - i,
        {
            slots.push(None);
            i += 1;
        }
        let registry = HealthRegistry { slots };
        proof {
            assert(registry@ =~= Seq::new(SLOTS as nat, |i: int| None::<HealthView>));
        }
        registry
    }

    /// What is known of an endpoint, or its first state where nothing is.
    pub fn entry(&self, provider: Provider, endpoint: EndpointKind) -> (health: EndpointHealth)
        ensures
            health@ == match self.known(provider, endpoint) {
                Some(known) => known,
                None => unknown(provider, endpoint),
            },
    {
        proof {
            use_type_invariant(self);
        }
        let at = slot(provider, endpoint);
        match &self.slots[at] {
            Some(health) => health.clone(),
            None => EndpointHealth::new(provider, endpoint),
        }
    }

    /// Put a state in a place.
    fn place(&mut self, at: usize, health: EndpointHealth)
        requires
            at < SLOTS,
        ensures
            final(self)@ == old(self)@.update(at as int, Some(health@)),
    {
        proof {
            use_type_invariant(&*self);
        }
        let ghost before = self@;
        let ghost value = health@;
        let mut slots: Vec<Option<EndpointHealth>> = vec![];
        let mut i: usize = 0;
        let mut kept: Option<EndpointHealth> = Some(health);
        while i < SLOTS
            invariant
                i <= SLOTS,
                at < SLOTS,
                self.slots@.len() == SLOTS,
                before == slot_views(self.slots@),
                slots@.len() == i,
                i <= at ==> kept is Some && kept->0@ == value,
                forall|k: int|
                    0 <= k < i ==> slot_views(slots@)[k] == #[trigger] before.update(
                        at as int,
                        Some(value),
                    )[k],
            decreases SLOTS - i,
        {
            let ghost earlier = slots@;
            if i == at {
                let mut taken: Option<EndpointHealth> = None;
                core::mem::swap(&mut taken, &mut kept);
                slots.push(taken);
            } else {
                match &self.slots[i] {
                    Some(health) => {
                        slots.push(Some(health.clone()));
                    },
                    None => {
                        slots.push(None);
                    },
                }
            }
            proof {
                assert forall|k: int| 0 <= k < i + 1 implies slot_views(slots@)[k]
                    == #[trigger] before.update(at as int, Some(value))[k] by {
                    if k < i {
                        assert(slots@[k] == earlier[k]);
                        assert(slot_views(slots@)[k] == slot_views(earlier)[k]);
                    }
                }
            }
            i += 1;
        }
        self.slots = slots;
        proof {
            assert(self@ =~= before.update(at as int, Some(value)));
        }
    }

    /// Make an endpoint known.
    pub fn register(&mut self, provider: Provider, endpoint: EndpointKind)
        ensures
            final(self)@ == match old(self).known(provider, endpoint) {
                Some(_) => old(self)@,
                None => old(self)@.update(
                    slot_of(provider, endpoint),
                    Some(unknown(provider, endpoint)),
                ),
            },
    {
        proof {
            use_type_invariant(&*self);
        }
        let at = slot(provider, endpoint);
        if self.slots[at].is_none() {
            self.place(at, EndpointHealth::new(provider, endpoint));
        }
    }

    /// Give an endpoint a state. Of an error no more than its first bytes is kept.
    pub fn update(&mut self, provider: Provider, endpoint: EndpointKind, health: EndpointHealth)
        requires
            match health@.last_error {
                Some(error) => text::can_cut(error, MAX_ERROR_BYTES as nat),
                None => true,
            },
        ensures
            final(self)@ == old(self)@.update(
                slot_of(provider, endpoint),
                Some(bounded(health@)),
            ),
    {
        let mut kept = health;
        kept.last_error = match kept.last_error {
            Some(error) => Some(text::truncated(error.as_str(), MAX_ERROR_BYTES)),
            None => None,
        };
        self.place(slot(provider, endpoint), kept);
    }

    /// The states of all endpoints, and whether all are ready.
    pub fn readiness(&self) -> (snapshot: ReadinessSnapshot)
        ensures
            health_views(snapshot.endpoints@) == listed(self@),
            snapshot.ready == all_ready(listed(self@)),
            snapshot.status@ == readiness_word(snapshot.ready),
    {
        proof {
            use_type_invariant(self);
        }
        let ghost all = self@;
        let mut endpoints: Vec<EndpointHealth> = Vec::new();
        let mut ready: bool = true;
        let mut i: usize = 0;
        proof {
            assert(all.take(0) =~= Seq::empty());
            assert(health_views(endpoints@) =~= Seq::empty());
        }
        while i < self.slots.len()
            invariant
                i <= self.slots@.len(),
                all == slot_views(self.slots@),
                health_views(endpoints@) == listed(all.take(i as int)),
                ready == all_ready(listed(all.take(i as int))),
            decreases self.slots.len() - i,
        {
            let ghost before = listed(all.take(i as int));
            proof {
                let longer = all.take(i + 1);
                assert(longer.drop_last() =~= all.take(i as int));
                assert(longer.last() == all[i as int]);
            }
            if let Some(health) = &self.slots[i] {
                ready = ready && (health.desired_subscriptions == 0 || health.state
                    == ConnectionState::Live);
                endpoints.push(health.clone());
                proof {
                    let after = before.push(health@);
                    assert(health_views(endpoints@) =~= after);
                    assert(after[before.len() as int] == health@);
                    assert(all_ready(after) ==> all_ready(before)) by {
                        assert forall|k: int| all_ready(after) && 0 <= k < before.len() implies is_ready(
                            #[trigger] before[k],
                        ) by {
                            assert(after[k] == before[k]);
                        }
                    }
                }
            }
            i += 1;
        }
        proof {
            assert(all.take(i as int) =~= all);
        }
        ReadinessSnapshot {
            ready,
            status: if ready {
                "ready"
            } else {
                "degraded"
            },
            endpoints,
        }
    }
}

impl Default for HealthRegistry {
    /// A registry without endpoints.
    fn default() -> (registry: Self)
        ensures
            registry@ == Seq::new(SLOTS as nat, |i: int| None::<HealthView>),
    {
        HealthRegistry::new()
    }
}

/// What is noted of one endpoint changes nothing of what is known of another.
pub proof fn law_endpoints_are_kept_apart(
    slots: Seq<Option<HealthView>>,
    provider: Provider,
    endpoint: EndpointKind,
    health: HealthView,
    other_provider: Provider,
    other_endpoint: EndpointKind,
)
    requires
        slots.len() == SLOTS,
        provider != other_provider || endpoint != other_endpoint,
    ensures
        slots.update(slot_of(provider, endpoint), Some(bounded(health)))[slot_of(
            other_provider,
            other_endpoint,
        )] == slots[slot_of(other_provider, other_endpoint)],
{
}

/// A registry is ready exactly if every endpoint that something is demanded of is live.
pub proof fn law_readiness_is_of_demanded_endpoints(slots: Seq<Option<HealthView>>)
    ensures
        all_ready(listed(slots)) <==> forall|i: int|
            0 <= i < slots.len() ==> match #[trigger] slots[i] {
                Some(health) => health.desired_subscriptions > 0 ==> health.state
                    == ConnectionState::Live,
                None => true,
            },
    decreases slots.len(),
{
    if slots.len() > 0 {
        let rest = slots.drop_last();
        let last = slots.last();
        law_readiness_is_of_demanded_endpoints(rest);
        assert(last == slots[slots.len() - 1]);
        assert forall|i: int| 0 <= i < rest.len() implies rest[i] == slots[i] by {}
        match last {
            Some(health) => {
                let before = listed(rest);
                let after = before.push(health);
                assert(after[before.len() as int] == health);
                assert forall|k: int| all_ready(after) && 0 <= k < before.len() implies is_ready(
                    #[trigger] before[k],
                ) by {
                    assert(after[k] == before[k]);
                }
                if all_ready(before) && is_ready(health) {
                    assert forall|k: int| 0 <= k < after.len() implies is_ready(
                        #[trigger] after[k],
                    ) by {
                        if k < before.len() {
                            assert(after[k] == before[k]);
                        }
                    }
                }
            },
            None => {},
        }
    }
}

} // verus!
