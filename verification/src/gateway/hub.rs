//! Numbering of events and their routing to the clients that subscribed to them.
use std::collections::HashMap;

use vstd::prelude::*;

use super::registry;
use super::registry::{ClientId, Demand};
use crate::domain;
use crate::domain::{
    KeyView, MarketEvent, MarketEventView, ProviderEvent, ProviderEventView, SubscriptionKey,
};
use crate::keyset::KeySet;
use crate::table::Table;

verus! {

broadcast use vstd::std_specs::hash::group_hash_axioms;

/// Outside function: `uuid::Uuid::new_v4`, as a number. It is random, so nothing is claimed of it.
#[verifier::external_body]
fn fresh_epoch() -> u128 {
    uuid::Uuid::new_v4().as_u128()
}

// ---------------------------------------------------------------------------------------------
// Ordered sets of clients
// ---------------------------------------------------------------------------------------------

/// Whether a list of clients is strictly ascending.
pub open spec fn ids_ascending(list: Seq<ClientId>) -> bool {
    forall|i: int, j: int| 0 <= i < j < list.len() ==> list[i] < list[j]
}

/// Whether a list names every member of a set of clients once, in order.
pub open spec fn ids_enumerate(list: Seq<ClientId>, set: Set<ClientId>) -> bool {
    &&& ids_ascending(list)
    &&& list.to_set() == set
}

/// A set of clients, held in ascending order.
#[derive(Debug)]
struct ClientSet {
    ids: Vec<u128>,
}

impl ClientSet {
    spec fn view(&self) -> Set<ClientId> {
        self.ids@.to_set()
    }

    /// The clients are held in ascending order.
    #[verifier::type_invariant]
    spec fn ordered(&self) -> bool {
        ids_ascending(self.ids@)
    }

    fn new() -> (set: ClientSet)
        ensures
            set@ == Set::<ClientId>::empty(),
    {
        let set = ClientSet { ids: Vec::new() };
        proof {
            assert(set@ =~= Set::empty());
        }
        set
    }

    fn is_empty(&self) -> (answer: bool)
        ensures
            answer == (self@ == Set::<ClientId>::empty()),
    {
        let n = self.ids.len();
        proof {
            if n == 0 {
                assert(self@ =~= Set::empty());
            } else {
                assert(self.ids@.contains(self.ids@[0]));
                assert(self@.contains(self.ids@[0]));
            }
        }
        n == 0
    }

    /// The clients in order.
    fn to_vec(&self) -> (list: Vec<ClientId>)
        ensures
            ids_enumerate(list@, self@),
    {
        proof {
            use_type_invariant(self);
        }
        let mut list: Vec<u128> = Vec::new();
        let mut i: usize = 0;
        while i < self.ids.len()
            invariant
                i <= self.ids@.len(),
                list@ == self.ids@.take(i as int),
            decreases self.ids.len() - i,
        {
            list.push(self.ids[i]);
            proof {
                assert(self.ids@.take(i + 1) == self.ids@.take(i as int).push(self.ids@[i as int]));
            }
            i += 1;
        }
        proof {
            assert(self.ids@.take(i as int) == self.ids@);
        }
        list
    }

    /// The first place whose client is not less than the given one.
    fn place(&self, id: u128) -> (at: usize)
        ensures
            at <= self.ids@.len(),
            forall|i: int| 0 <= i < at ==> self.ids@[i] < id,
            forall|i: int| at <= i < self.ids@.len() ==> self.ids@[i] >= id,
    {
        proof {
            use_type_invariant(self);
        }
        let mut i: usize = 0;
        while i < self.ids.len() && self.ids[i] < id
            invariant
                i <= self.ids@.len(),
                forall|k: int| 0 <= k < i ==> self.ids@[k] < id,
            decreases self.ids.len() - i,
        {
            i += 1;
        }
        i
    }

    fn insert(&mut self, id: u128)
        ensures
            final(self)@ == old(self)@.insert(id),
    {
        let at = self.place(id);
        proof {
            use_type_invariant(&*self);
        }
        let ghost before = self.ids@;
        if at < self.ids.len() && self.ids[at] == id {
            proof {
                assert(before.contains(before[at as int]));
                assert(self@ =~= old(self)@.insert(id));
            }
            return;
        }
        let mut ids: Vec<u128> = Vec::new();
        core::mem::swap(&mut ids, &mut self.ids);
        ids.insert(at, id);
        proof {
            let after = ids@;
            assert forall|i: int, j: int| 0 <= i < j < after.len() implies after[i] < after[j] by {
                let p = if i < at { i } else { i - 1 };
                let q = if j < at { j } else { j - 1 };
                if i != at && j != at {
                    assert(before[p] < before[q]);
                }
            }
            assert forall|x: u128| after.to_set().contains(x) == before.to_set().insert(
                id,
            ).contains(x) by {
                if after.contains(x) {
                    let i = choose|i: int| 0 <= i < after.len() && after[i] == x;
                    if i != at {
                        assert(before[if i < at { i } else { i - 1 }] == x);
                    }
                }
                if before.contains(x) {
                    let i = choose|i: int| 0 <= i < before.len() && before[i] == x;
                    assert(after[if i < at { i } else { i + 1 }] == x);
                }
                assert(after[at as int] == id);
            }
            assert(after.to_set() =~= before.to_set().insert(id));
        }
        self.ids = ids;
    }

    fn remove(&mut self, id: u128)
        ensures
            final(self)@ == old(self)@.remove(id),
    {
        let at = self.place(id);
        proof {
            use_type_invariant(&*self);
        }
        let ghost before = self.ids@;
        if at >= self.ids.len() || self.ids[at] != id {
            proof {
                assert(!before.contains(id));
                assert(self@ =~= old(self)@.remove(id));
            }
            return;
        }
        let mut ids: Vec<u128> = Vec::new();
        core::mem::swap(&mut ids, &mut self.ids);
        let _gone = ids.remove(at);
        proof {
            let after = ids@;
            assert forall|i: int, j: int| 0 <= i < j < after.len() implies after[i] < after[j] by {
                let p = if i < at { i } else { i + 1 };
                let q = if j < at { j } else { j + 1 };
                assert(before[p] < before[q]);
            }
            assert forall|x: u128| after.to_set().contains(x) == before.to_set().remove(
                id,
            ).contains(x) by {
                if after.contains(x) {
                    let i = choose|i: int| 0 <= i < after.len() && after[i] == x;
                    let p = if i < at { i } else { i + 1 };
                    assert(before[p] == x);
                    assert(p < at ==> before[p] < before[at as int]);
                    assert(p > at ==> before[at as int] < before[p]);
                }
                if before.contains(x) && x != id {
                    let i = choose|i: int| 0 <= i < before.len() && before[i] == x;
                    assert(after[if i < at { i } else { i - 1 }] == x);
                }
            }
            assert(after.to_set() =~= before.to_set().remove(id));
        }
        self.ids = ids;
    }
}

// ---------------------------------------------------------------------------------------------
// Routes
// ---------------------------------------------------------------------------------------------

/// The route of one registered client: the keys that are routed to it, and how often its queue
/// was overrun.
#[derive(Debug)]
struct ClientRoute {
    subscriptions: KeySet,
    lagged: u64,
}

/// What is known of a registered client.
pub struct RouteView {
    pub subscriptions: Set<KeyView>,
    pub lagged: u64,
}

/// The keys that are routed to each registered client.
pub open spec fn routed_keys(routes: Map<ClientId, RouteView>) -> Demand {
    Map::new(
        |client: ClientId| routes.contains_key(client),
        |client: ClientId| routes[client].subscriptions,
    )
}

/// The clients that an event under a key goes to.
pub open spec fn recipients(routes: Map<ClientId, RouteView>, key: KeyView) -> Set<ClientId> {
    routes.dom().filter(|client: ClientId| routes[client].subscriptions.contains(key))
}

/// Whether an index from keys to clients is the inverse of an assignment of keys to clients.
spec fn inverse(index: Map<KeyView, ClientSet>, assigned: Demand) -> bool {
    forall|key: KeyView| #[trigger]
        registry::owners(assigned, key) == if index.contains_key(key) {
            index[key]@
        } else {
            Set::empty()
        }
}

/// Why an event was not published.
#[derive(Debug, Clone, Copy, PartialEq, Eq, Structural)]
pub enum PublishError {
    SequenceExhausted,
}

impl PublishError {
    /// The error in words.
    pub fn message(&self) -> (message: &'static str)
        ensures
            message@ == "delivery sequence exhausted"@,
    {
        "delivery sequence exhausted"
    }
}

/// The value of what became of a publication.
pub open spec fn outcome_view(outcome: Result<MarketEvent, PublishError>) -> Result<
    MarketEventView,
    PublishError,
> {
    match outcome {
        Ok(event) => Ok(event@),
        Err(error) => Err(error),
    }
}

/// What becomes of an event that is published: it carries the hub's epoch and its next number, or
/// the numbers are used up. The clients do not matter, and nothing about them changes.
pub open spec fn published(
    before: GatewayHub,
    after: GatewayHub,
    event: ProviderEventView,
    outcome: Result<MarketEventView, PublishError>,
) -> bool {
    &&& after.routes() == before.routes()
    &&& after.epoch() == before.epoch()
    &&& after.capacity() == before.capacity()
    &&& after.client_limit() == before.client_limit()
    &&& if before.next_sequence() < u64::MAX {
        &&& outcome == Ok::<MarketEventView, PublishError>(
            domain::numbered(event, before.epoch(), before.next_sequence()),
        )
        &&& after.next_sequence() == before.next_sequence() + 1
    } else {
        &&& outcome == Err::<MarketEventView, PublishError>(PublishError::SequenceExhausted)
        &&& after.next_sequence() == before.next_sequence()
    }
}

/// What became of an event that was offered to a client's queue.
#[derive(Debug, Clone, Copy, PartialEq, Eq, Structural)]
pub enum DeliveryOutcome {
    Delivered,
    QueueFull,
    Closed,
}

/// The routes once it is known what became of an event that was offered to a client's queue.
pub open spec fn after_delivery(
    routes: Map<ClientId, RouteView>,
    client: ClientId,
    outcome: DeliveryOutcome,
) -> Map<ClientId, RouteView> {
    match outcome {
        DeliveryOutcome::Delivered => routes,
        DeliveryOutcome::QueueFull => if routes.contains_key(client) {
            routes.insert(
                client,
                RouteView {
                    subscriptions: Set::empty(),
                    lagged: if routes[client].lagged < u64::MAX {
                        (routes[client].lagged + 1) as u64
                    } else {
                        u64::MAX
                    },
                },
            )
        } else {
            routes
        },
        DeliveryOutcome::Closed => routes.remove(client),
    }
}

/// The bounded queue to open for a registered client.
#[derive(Debug, Clone, Copy, PartialEq, Eq, Structural)]
pub struct ClientFeed {
    pub client_id: ClientId,
    pub capacity: usize,
}

/// The registered clients with the index from keys to the clients that they are routed to.
#[derive(Debug)]
struct RouteTable {
    clients: HashMap<u128, ClientRoute>,
    clients_by_key: Table<SubscriptionKey, ClientSet>,
}

impl RouteTable {
    spec fn view(&self) -> Map<ClientId, RouteView> {
        Map::new(
            |client: ClientId| self.clients@.contains_key(client),
            |client: ClientId|
                RouteView {
                    subscriptions: self.clients@[client].subscriptions@,
                    lagged: self.clients@[client].lagged,
                },
        )
    }

    /// The index by key is the inverse of the clients' keys.
    spec fn indexed(&self) -> bool {
        &&& self@.dom().finite()
        &&& inverse(self.clients_by_key@, routed_keys(self@))
    }

    fn new() -> (table: RouteTable)
        ensures
            table.indexed(),
            table@ == Map::<ClientId, RouteView>::empty(),
    {
        let table = RouteTable { clients: HashMap::new(), clients_by_key: Table::new() };
        proof {
            assert(table@ =~= Map::empty());
            assert forall|key: KeyView| #[trigger]
                registry::owners(routed_keys(table@), key) == if table.clients_by_key@.contains_key(
                    key,
                ) {
                    table.clients_by_key@[key]@
                } else {
                    Set::empty()
                } by {
                assert(registry::owners(routed_keys(table@), key) =~= Set::empty());
            }
        }
        table
    }

    /// Route a key to a client.
    fn add_key_route(&mut self, key: &SubscriptionKey, client_id: ClientId, Ghost(assigned): Ghost<
        Demand,
    >)
        requires
            inverse(old(self).clients_by_key@, assigned),
            assigned.contains_key(client_id),
            !assigned[client_id].contains(key@),
            assigned.dom().finite(),
        ensures
            inverse(
                final(self).clients_by_key@,
                assigned.insert(client_id, assigned[client_id].insert(key@)),
            ),
            final(self).clients == old(self).clients,
    {
        let mut ids = match self.clients_by_key.remove(key) {
            Some(ids) => ids,
            None => ClientSet::new(),
        };
        ids.insert(client_id);
        self.clients_by_key.insert(key.clone(), ids);
        proof {
            registry::lemma_key_gained(assigned, client_id, key@);
            let after = assigned.insert(client_id, assigned[client_id].insert(key@));
            assert forall|k: KeyView| #[trigger]
                registry::owners(after, k) == if self.clients_by_key@.contains_key(k) {
                    self.clients_by_key@[k]@
                } else {
                    Set::empty()
                } by {
                if k != key@ {
                    assert(registry::owners(after, k) == registry::owners(assigned, k));
                } else {
                    assert(registry::owners(assigned, k) == registry::owners(assigned, key@));
                }
            }
        }
    }

    /// Stop routing a key to a client. A key without clients leaves the index.
    fn remove_key_route(
        &mut self,
        key: &SubscriptionKey,
        client_id: ClientId,
        Ghost(assigned): Ghost<Demand>,
    )
        requires
            inverse(old(self).clients_by_key@, assigned),
            assigned.contains_key(client_id),
            assigned[client_id].contains(key@),
            assigned.dom().finite(),
        ensures
            inverse(
                final(self).clients_by_key@,
                assigned.insert(client_id, assigned[client_id].remove(key@)),
            ),
            final(self).clients == old(self).clients,
    {
        proof {
            registry::lemma_key_lost(assigned, client_id, key@);
        }
        if let Some(mut ids) = self.clients_by_key.remove(key) {
            ids.remove(client_id);
            if !ids.is_empty() {
                self.clients_by_key.insert(key.clone(), ids);
            }
        }
        proof {
            let after = assigned.insert(client_id, assigned[client_id].remove(key@));
            assert forall|k: KeyView| #[trigger]
                registry::owners(after, k) == if self.clients_by_key@.contains_key(k) {
                    self.clients_by_key@[k]@
                } else {
                    Set::empty()
                } by {
                if k != key@ {
                    assert(registry::owners(after, k) == registry::owners(assigned, k));
                } else {
                    assert(registry::owners(assigned, k) == registry::owners(assigned, key@));
                    assert(registry::owners(after, k) =~= registry::owners(assigned, k).remove(
                        client_id,
                    ));
                }
            }
        }
    }

    /// Stop routing anything to a client, and forget the client where it is to be dropped.
    fn clear(&mut self, client_id: ClientId, drop_client: bool)
        requires
            old(self).indexed(),
        ensures
            final(self).indexed(),
            final(self)@ == if !old(self)@.contains_key(client_id) {
                old(self)@
            } else if drop_client {
                old(self)@.remove(client_id)
            } else {
                old(self)@.insert(
                    client_id,
                    RouteView {
                        subscriptions: Set::empty(),
                        lagged: old(self)@[client_id].lagged,
                    },
                )
            },
    {
        let ghost before = self@;
        let route = match self.clients.remove(&client_id) {
            Some(route) => route,
            None => {
                proof {
                    assert(self.clients@ =~= old(self).clients@);
                    assert(self@ =~= before);
                }
                return;
            },
        };
        let keys = route.subscriptions;
        let n = keys.len();
        let ghost list = keys.list();
        let ghost assigned = routed_keys(before);
        let ghost held = self.clients;
        let mut i: usize = 0;
        proof {
            assert(assigned[client_id] == keys@);
            assert(keys@.difference(list.take(0).to_set()) =~= keys@);
            assert(assigned.insert(client_id, keys@) =~= assigned);
            assert(assigned.dom() =~= before.dom());
        }
        while i < n
            invariant
                i <= n,
                n == list.len(),
                list == keys.list(),
                crate::keyset::ascending(list),
                list.to_set() == keys@,
                assigned.dom().finite(),
                assigned.contains_key(client_id),
                inverse(
                    self.clients_by_key@,
                    assigned.insert(client_id, keys@.difference(list.take(i as int).to_set())),
                ),
                self.clients == held,
            decreases n - i,
        {
            let key = keys.get(i);
            let ghost rest = keys@.difference(list.take(i as int).to_set());
            let ghost current = assigned.insert(client_id, rest);
            proof {
                crate::keyset::lemma_ascending_distinct(list);
                assert(rest.contains(key@)) by {
                    if list.take(i as int).to_set().contains(key@) {
                        let j = choose|j: int|
                            0 <= j < list.take(i as int).len() && list.take(i as int)[j] == key@;
                        assert(list[j] == list[i as int]);
                    }
                }
                crate::keyset::lemma_take_to_set(list, i as int);
                assert(keys@.difference(list.take(i + 1).to_set()) =~= rest.remove(key@));
                assert(current.insert(client_id, rest.remove(key@)) =~= assigned.insert(
                    client_id,
                    rest.remove(key@),
                ));
            }
            self.remove_key_route(key, client_id, Ghost(current));
            i += 1;
        }
        proof {
            assert(list.take(n as int) =~= list);
            assert(keys@.difference(list.to_set()) =~= Set::empty());
        }
        let ghost emptied = assigned.insert(client_id, Set::empty());
        if !drop_client {
            let _previous = self.clients.insert(
                client_id,
                ClientRoute { subscriptions: KeySet::new(), lagged: route.lagged },
            );
        }
        proof {
            let after = self@;
            registry::lemma_empty_entry(emptied, client_id);
            if drop_client {
                assert(after =~= before.remove(client_id));
                assert(routed_keys(after) =~= emptied.remove(client_id));
                vstd::set_lib::lemma_len_subset(after.dom(), before.dom());
            } else {
                assert(after =~= before.insert(
                    client_id,
                    RouteView { subscriptions: Set::empty(), lagged: before[client_id].lagged },
                ));
                assert(routed_keys(after) =~= emptied);
                assert(after.dom() =~= before.dom());
            }
        }
    }

    /// Replace the keys that are routed to a registered client.
    fn assign(&mut self, client_id: ClientId, subscriptions: &KeySet, lagged: u64)
        requires
            old(self).indexed(),
            old(self)@.contains_key(client_id),
        ensures
            final(self).indexed(),
            final(self)@ == old(self)@.insert(
                client_id,
                RouteView { subscriptions: subscriptions@, lagged },
            ),
    {
        let ghost before = self@;
        self.clear(client_id, false);
        let n = subscriptions.len();
        let ghost list = subscriptions.list();
        let ghost assigned = routed_keys(self@);
        let ghost held = self.clients;
        let ghost cleared = self@;
        let mut i: usize = 0;
        proof {
            assert(list.take(0).to_set() =~= Set::empty());
            assert(assigned.insert(client_id, Set::empty()) =~= assigned);
            assert(assigned.dom() =~= cleared.dom());
        }
        while i < n
            invariant
                i <= n,
                n == list.len(),
                list == subscriptions.list(),
                crate::keyset::ascending(list),
                list.to_set() == subscriptions@,
                assigned.dom().finite(),
                assigned.contains_key(client_id),
                inverse(
                    self.clients_by_key@,
                    assigned.insert(client_id, list.take(i as int).to_set()),
                ),
                self.clients == held,
            decreases n - i,
        {
            let key = subscriptions.get(i);
            let ghost part = list.take(i as int).to_set();
            let ghost current = assigned.insert(client_id, part);
            proof {
                crate::keyset::lemma_ascending_distinct(list);
                assert(!part.contains(key@)) by {
                    if part.contains(key@) {
                        let j = choose|j: int|
                            0 <= j < list.take(i as int).len() && list.take(i as int)[j] == key@;
                        assert(list[j] == list[i as int]);
                    }
                }
                crate::keyset::lemma_take_to_set(list, i as int);
                assert(current.insert(client_id, part.insert(key@)) =~= assigned.insert(
                    client_id,
                    part.insert(key@),
                ));
            }
            self.add_key_route(key, client_id, Ghost(current));
            i += 1;
        }
        let _previous = self.clients.insert(
            client_id,
            ClientRoute { subscriptions: subscriptions.clone(), lagged },
        );
        proof {
            assert(list.take(n as int) =~= list);
            let after = self@;
            assert(after =~= cleared.insert(
                client_id,
                RouteView { subscriptions: subscriptions@, lagged },
            ));
            assert(after =~= before.insert(
                client_id,
                RouteView { subscriptions: subscriptions@, lagged },
            ));
            assert(routed_keys(after) =~= assigned.insert(client_id, subscriptions@));
            assert(after.dom() =~= before.dom());
        }
    }

    /// Register a client that is routed nothing.
    fn register(&mut self, client_id: ClientId)
        requires
            old(self).indexed(),
        ensures
            final(self).indexed(),
            final(self)@ == old(self)@.insert(
                client_id,
                RouteView { subscriptions: Set::empty(), lagged: 0 },
            ),
    {
        self.clear(client_id, true);
        let ghost before = old(self)@;
        let ghost cleared = self@;
        let _previous = self.clients.insert(
            client_id,
            ClientRoute { subscriptions: KeySet::new(), lagged: 0 },
        );
        proof {
            let after = self@;
            assert(cleared =~= before.remove(client_id));
            assert(after =~= cleared.insert(
                client_id,
                RouteView { subscriptions: Set::empty(), lagged: 0 },
            ));
            assert(after =~= before.insert(
                client_id,
                RouteView { subscriptions: Set::empty(), lagged: 0 },
            ));
            registry::lemma_empty_entry(routed_keys(cleared), client_id);
            assert(routed_keys(after) =~= routed_keys(cleared).insert(client_id, Set::empty()));
            assert(after.dom() =~= before.dom().insert(client_id));
        }
    }

    /// The overruns of a registered client.
    fn lagged(&self, client_id: ClientId) -> (count: Option<u64>)
        ensures
            count == if self@.contains_key(client_id) {
                Some(self@[client_id].lagged)
            } else {
                None
            },
    {
        match self.clients.get(&client_id) {
            Some(route) => Some(route.lagged),
            None => None,
        }
    }
}

/// Numbers normalized provider events and decides which clients receive them.
#[derive(Debug)]
pub struct GatewayHub {
    stream_epoch: u128,
    next_delivery_sequence: u64,
    client_capacity: usize,
    max_clients: usize,
    table: RouteTable,
}

impl GatewayHub {
    /// The registered clients.
    pub closed spec fn routes(&self) -> Map<ClientId, RouteView> {
        self.table@
    }

    /// The number that the next event gets.
    pub closed spec fn next_sequence(&self) -> u64 {
        self.next_delivery_sequence
    }

    /// The epoch of every event of this hub.
    pub closed spec fn epoch(&self) -> u128 {
        self.stream_epoch
    }

    /// The length of a client's queue.
    pub closed spec fn capacity(&self) -> usize {
        self.client_capacity
    }

    /// The most clients that can be registered at one time.
    pub closed spec fn client_limit(&self) -> usize {
        self.max_clients
    }

    /// The index by key is the inverse of the clients' keys, numbers start at one, and the limits
    /// are positive and kept.
    #[verifier::type_invariant]
    spec fn consistent(&self) -> bool {
        &&& self.table.indexed()
        &&& self.next_delivery_sequence >= 1
        &&& self.client_capacity > 0
        &&& self.max_clients > 0
        &&& self.table@.dom().len() <= self.max_clients
    }

    /// What holds of every hub: it has finitely many clients and no more than it may have, their
    /// queues have room, and numbers start at one.
    pub open spec fn is_sound(&self) -> bool {
        &&& self.routes().dom().finite()
        &&& self.routes().dom().len() <= self.client_limit()
        &&& self.client_limit() > 0
        &&& self.capacity() > 0
        &&& self.next_sequence() >= 1
    }

    /// Whether nothing but the routes differs between two states of a hub.
    pub open spec fn same_but_routes(&self, other: &GatewayHub) -> bool {
        &&& self.epoch() == other.epoch()
        &&& self.next_sequence() == other.next_sequence()
        &&& self.capacity() == other.capacity()
        &&& self.client_limit() == other.client_limit()
    }

    /// Create a hub without a limit on the number of clients. Its epoch is random, so nothing is
    /// said of it.
    pub fn new(capacity: usize) -> (hub: Self)
        requires
            capacity > 0,
        ensures
            hub.is_sound(),
            hub.routes() == Map::<ClientId, RouteView>::empty(),
            hub.next_sequence() == 1,
            hub.capacity() == capacity,
            hub.client_limit() == usize::MAX,
    {
        Self::with_client_limit(capacity, usize::MAX)
    }

    /// Create a hub with bounded per-client queues and a global client limit. Its epoch is random,
    /// so nothing is said of it.
    pub fn with_client_limit(capacity: usize, max_clients: usize) -> (hub: Self)
        requires
            capacity > 0,
            max_clients > 0,
        ensures
            hub.is_sound(),
            hub.routes() == Map::<ClientId, RouteView>::empty(),
            hub.next_sequence() == 1,
            hub.capacity() == capacity,
            hub.client_limit() == max_clients,
    {
        GatewayHub {
            stream_epoch: fresh_epoch(),
            next_delivery_sequence: 1,
            client_capacity: capacity,
            max_clients,
            table: RouteTable::new(),
        }
    }

    /// A hub without clients that stands in for another one while that is worked on.
    pub(crate) fn vacant() -> (hub: Self)
        ensures
            hub.routes() == Map::<ClientId, RouteView>::empty(),
    {
        GatewayHub {
            stream_epoch: 0,
            next_delivery_sequence: 1,
            client_capacity: 1,
            max_clients: 1,
            table: RouteTable::new(),
        }
    }

    /// The epoch shared by every event emitted during this process lifetime.
    pub fn stream_epoch(&self) -> (epoch: u128)
        ensures
            epoch == self.epoch(),
    {
        self.stream_epoch
    }

    /// Number of active routed downstream clients.
    pub fn receiver_count(&self) -> (count: usize)
        ensures
            self.is_sound(),
            count == self.routes().dom().len(),
    {
        proof {
            use_type_invariant(self);
            assert(self.table@.dom() =~= self.table.clients@.dom());
        }
        self.table.clients.len()
    }

    /// How often the queue of a registered client was overrun.
    pub fn lagged(&self, client_id: ClientId) -> (count: Option<u64>)
        ensures
            count == if self.routes().contains_key(client_id) {
                Some(self.routes()[client_id].lagged)
            } else {
                None
            },
    {
        self.table.lagged(client_id)
    }

    /// Register a downstream client and return its bounded, initially unsubscribed feed.
    pub fn register_client(&mut self, client_id: ClientId) -> (feed: ClientFeed)
        requires
            old(self).routes().contains_key(client_id) || old(self).routes().dom().len() < old(
                self,
            ).client_limit(),
        ensures
            final(self).is_sound(),
            final(self).same_but_routes(old(self)),
            feed == (ClientFeed { client_id, capacity: old(self).capacity() }),
            final(self).routes() == old(self).routes().insert(
                client_id,
                RouteView { subscriptions: Set::empty(), lagged: 0 },
            ),
    {
        proof {
            use_type_invariant(&*self);
        }
        let ghost before = self.routes();
        let mut table = RouteTable::new();
        core::mem::swap(&mut table, &mut self.table);
        table.register(client_id);
        proof {
            assert(table@.dom() =~= before.dom().insert(client_id));
        }
        self.table = table;
        ClientFeed { client_id, capacity: self.client_capacity }
    }

    /// Register a downstream client unless the configured global limit is reached.
    pub fn try_register_client(&mut self, client_id: ClientId) -> (feed: Option<ClientFeed>)
        ensures
            final(self).is_sound(),
            final(self).same_but_routes(old(self)),
            match feed {
                Some(feed) => {
                    &&& old(self).routes().contains_key(client_id) || old(self).routes().dom().len()
                        < old(self).client_limit()
                    &&& feed == (ClientFeed { client_id, capacity: old(self).capacity() })
                    &&& final(self).routes() == old(self).routes().insert(
                        client_id,
                        RouteView { subscriptions: Set::empty(), lagged: 0 },
                    )
                },
                None => {
                    &&& !old(self).routes().contains_key(client_id)
                    &&& old(self).routes().dom().len() >= old(self).client_limit()
                    &&& final(self).routes() == old(self).routes()
                },
            },
    {
        let count = self.receiver_count();
        if self.lagged(client_id).is_none() && count >= self.max_clients {
            return None;
        }
        Some(self.register_client(client_id))
    }

    /// Atomically replace the keys routed to one registered client.
    ///
    /// Returns `false` when the client has already disconnected.
    pub fn update_client_subscriptions(
        &mut self,
        client_id: ClientId,
        subscriptions: &KeySet,
    ) -> (registered: bool)
        ensures
            final(self).is_sound(),
            final(self).same_but_routes(old(self)),
            registered == old(self).routes().contains_key(client_id),
            final(self).routes() == if registered {
                old(self).routes().insert(
                    client_id,
                    RouteView {
                        subscriptions: subscriptions@,
                        lagged: old(self).routes()[client_id].lagged,
                    },
                )
            } else {
                old(self).routes()
            },
    {
        proof {
            use_type_invariant(&*self);
        }
        let ghost before = self.routes();
        match self.table.lagged(client_id) {
            Some(lagged) => {
                let mut table = RouteTable::new();
                core::mem::swap(&mut table, &mut self.table);
                table.assign(client_id, subscriptions, lagged);
                proof {
                    assert(table@.dom() =~= before.dom());
                }
                self.table = table;
                true
            },
            None => false,
        }
    }

    /// Remove a downstream route.
    pub fn remove_client(&mut self, client_id: ClientId)
        ensures
            final(self).is_sound(),
            final(self).same_but_routes(old(self)),
            final(self).routes() == old(self).routes().remove(client_id),
    {
        proof {
            use_type_invariant(&*self);
        }
        let ghost before = self.routes();
        let mut table = RouteTable::new();
        core::mem::swap(&mut table, &mut self.table);
        table.clear(client_id, true);
        proof {
            vstd::set_lib::lemma_len_subset(table@.dom(), before.dom());
        }
        self.table = table;
        proof {
            if !old(self).routes().contains_key(client_id) {
                assert(old(self).routes().remove(client_id) =~= old(self).routes());
            }
        }
    }

    /// Number one provider event for delivery.
    ///
    /// # Errors
    ///
    /// Returns [`PublishError::SequenceExhausted`] instead of allowing the sequence to wrap.
    pub fn publish(&mut self, event: ProviderEvent) -> (r: Result<MarketEvent, PublishError>)
        ensures
            final(self).is_sound(),
            published(*old(self), *final(self), event@, outcome_view(r)),
    {
        proof {
            use_type_invariant(&*self);
        }
        let sequence = self.next_delivery_sequence;
        match sequence.checked_add(1) {
            Some(next) => {
                self.next_delivery_sequence = next;
                Ok(event.into_market_event(self.stream_epoch, sequence))
            },
            None => Err(PublishError::SequenceExhausted),
        }
    }

    /// The clients that an event goes to, in order.
    pub fn route_event(&self, event: &MarketEvent) -> (clients: Vec<ClientId>)
        ensures
            ids_enumerate(
                clients@,
                recipients(
                    self.routes(),
                    (KeyView {
                        provider: event@.provider,
                        market: event@.market,
                        symbol: event@.symbol,
                        channel: domain::payload_channel(event@.payload),
                    }),
                ),
            ),
    {
        let key = event.subscription_key();
        proof {
            use_type_invariant(self);
            assert(registry::owners(routed_keys(self.routes()), key@) =~= recipients(
                self.routes(),
                key@,
            ));
        }
        match self.table.clients_by_key.get(&key) {
            Some(ids) => ids.to_vec(),
            None => {
                let none: Vec<ClientId> = Vec::new();
                proof {
                    assert(none@.to_set() =~= Set::empty());
                }
                none
            },
        }
    }

    /// Take note of what became of an event that was offered to a client's queue.
    ///
    /// A client whose queue overran is no longer routed anything, but stays registered until its
    /// session has seen the overrun. A client whose queue is closed is forgotten.
    pub fn record_delivery(&mut self, client_id: ClientId, outcome: DeliveryOutcome)
        ensures
            final(self).is_sound(),
            final(self).same_but_routes(old(self)),
            final(self).routes() == after_delivery(old(self).routes(), client_id, outcome),
    {
        proof {
            use_type_invariant(&*self);
        }
        match outcome {
            DeliveryOutcome::Delivered => {},
            DeliveryOutcome::QueueFull => {
                if let Some(lagged) = self.table.lagged(client_id) {
                    let ghost before = self.routes();
                    let mut table = RouteTable::new();
                    core::mem::swap(&mut table, &mut self.table);
                    table.assign(client_id, &KeySet::new(), lagged.saturating_add(1));
                    proof {
                        assert(table@.dom() =~= before.dom());
                    }
                    self.table = table;
                }
            },
            DeliveryOutcome::Closed => {
                self.remove_client(client_id);
            },
        }
    }
}

// ---------------------------------------------------------------------------------------------
// Laws
// ---------------------------------------------------------------------------------------------

/// Events that are published one after the other by a fresh hub carry the numbers one, two, three and
/// so on, each once, under the one epoch of the hub, whatever happens to its clients in between and
/// whether anyone receives them or not. The only failure is that the numbers are used up.
pub proof fn law_events_are_numbered_in_turn(
    before: Seq<GatewayHub>,
    after: Seq<GatewayHub>,
    events: Seq<ProviderEventView>,
    outcomes: Seq<Result<MarketEventView, PublishError>>,
    i: int,
)
    requires
        before.len() == events.len(),
        after.len() == events.len(),
        outcomes.len() == events.len(),
        0 <= i < events.len(),
        before[0].next_sequence() == 1,
        forall|k: int|
            0 <= k < events.len() ==> #[trigger] published(
                before[k],
                after[k],
                events[k],
                outcomes[k],
            ),
        forall|k: int|
            0 < k < events.len() ==> (#[trigger] before[k]).same_but_routes(&after[k - 1]),
    ensures
        before[i].epoch() == before[0].epoch(),
        i + 1 < u64::MAX ==> outcomes[i] == Ok::<MarketEventView, PublishError>(
            domain::numbered(events[i], before[0].epoch(), (i + 1) as u64),
        ),
        i + 1 < u64::MAX ==> outcomes[i]->Ok_0.delivery_sequence == i + 1
            && outcomes[i]->Ok_0.stream_epoch == before[0].epoch(),
        i + 1 >= u64::MAX ==> outcomes[i] == Err::<MarketEventView, PublishError>(
            PublishError::SequenceExhausted,
        ),
{
    lemma_next_number(before, after, events, outcomes, i);
    assert(published(before[i], after[i], events[i], outcomes[i]));
}

/// The number that each event of a fresh hub gets.
proof fn lemma_next_number(
    before: Seq<GatewayHub>,
    after: Seq<GatewayHub>,
    events: Seq<ProviderEventView>,
    outcomes: Seq<Result<MarketEventView, PublishError>>,
    i: int,
)
    requires
        before.len() == events.len(),
        after.len() == events.len(),
        outcomes.len() == events.len(),
        0 <= i < events.len(),
        before[0].next_sequence() == 1,
        forall|k: int|
            0 <= k < events.len() ==> #[trigger] published(
                before[k],
                after[k],
                events[k],
                outcomes[k],
            ),
        forall|k: int|
            0 < k < events.len() ==> (#[trigger] before[k]).same_but_routes(&after[k - 1]),
    ensures
        before[i].epoch() == before[0].epoch(),
        before[i].next_sequence() == if i + 1 < u64::MAX {
            i + 1
        } else {
            u64::MAX as int
        },
    decreases i,
{
    if i > 0 {
        lemma_next_number(before, after, events, outcomes, i - 1);
        assert(published(before[i - 1], after[i - 1], events[i - 1], outcomes[i - 1]));
        assert(before[i].same_but_routes(&after[i - 1]));
    }
}

/// A client whose queue was overrun receives nothing more, and the other clients receive what they
/// did.
pub proof fn law_overruns_concern_one_client(
    routes: Map<ClientId, RouteView>,
    client: ClientId,
    other: ClientId,
    key: KeyView,
)
    ensures
        ({
            let after = after_delivery(routes, client, DeliveryOutcome::QueueFull);
            &&& !recipients(after, key).contains(client)
            &&& other != client ==> recipients(after, key).contains(other) == recipients(
                routes,
                key,
            ).contains(other)
        }),
{
}

/// An event goes to a client exactly where the client is registered and routed the event's key.
pub proof fn law_events_reach_exactly_the_matching_clients(
    routes: Map<ClientId, RouteView>,
    client: ClientId,
    key: KeyView,
)
    ensures
        recipients(routes, key).contains(client) <==> routes.contains_key(client)
            && routes[client].subscriptions.contains(key),
{
}

} // verus!
