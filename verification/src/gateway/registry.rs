//! Reference-counted downstream demand.
use std::collections::HashMap;

use vstd::prelude::*;

use super::limits;
use super::limits::ProviderLimits;
use crate::domain;
use crate::domain::{KeyView, Provider, SubscriptionKey};
use crate::keyset;
use crate::keyset::KeySet;
use crate::table::Table;
use crate::text;

verus! {

broadcast use vstd::std_specs::hash::group_hash_axioms;

/// A stable identity for one connected downstream client.
pub type ClientId = u128;

/// An immutable, deterministically ordered view of every currently desired subscription.
pub type DesiredSubscriptions = KeySet;

/// The demand of each client that demands anything.
pub type Demand = Map<ClientId, Set<KeyView>>;

/// The keys that a client demands.
pub open spec fn owned(demand: Demand, client: ClientId) -> Set<KeyView> {
    if demand.contains_key(client) {
        demand[client]
    } else {
        Set::empty()
    }
}

/// The clients that demand a key.
pub open spec fn owners(demand: Demand, key: KeyView) -> Set<ClientId> {
    demand.dom().filter(|client: ClientId| demand[client].contains(key))
}

/// The keys that at least one client demands.
pub open spec fn demanded(demand: Demand) -> Set<KeyView> {
    Set::new(
        |key: KeyView|
            exists|client: ClientId| #[trigger]
                demand.contains_key(client) && demand[client].contains(key),
    )
}

/// The demand once a client's keys are replaced. A client without keys has no place in it.
pub open spec fn reassigned(demand: Demand, client: ClientId, keys: Set<KeyView>) -> Demand {
    if keys == Set::<KeyView>::empty() {
        demand.remove(client)
    } else {
        demand.insert(client, keys)
    }
}

/// The number of keys of a venue in a set.
pub open spec fn provider_total(keys: Set<KeyView>, provider: Provider) -> nat {
    keys.filter(|key: KeyView| key.provider == provider).len()
}

/// A total as a machine number, which stops at the largest one.
pub open spec fn capped(total: nat) -> usize {
    if total <= usize::MAX {
        total as usize
    } else {
        usize::MAX
    }
}

/// Whether counts and keys are those of a demand.
pub open spec fn tracks(
    counts: Map<KeyView, usize>,
    desired: Set<KeyView>,
    demand: Demand,
) -> bool {
    &&& desired == demanded(demand)
    &&& counts.dom() == demanded(demand)
    &&& forall|key: KeyView| #[trigger]
        counts.contains_key(key) ==> counts[key] == owners(demand, key).len()
}

/// Whether a client may demand keys on top of its own: neither would it have more keys than a
/// client may, nor would all clients together have more keys of a venue than the venue takes.
pub open spec fn admitted(
    demand: Demand,
    client_limit: usize,
    limits: ProviderLimits,
    client: ClientId,
    keys: Set<KeyView>,
) -> bool {
    &&& owned(demand, client).union(keys).len() <= client_limit
    &&& within(demanded(demand).union(keys), limits)
}

/// Whether keys are no more of any venue than the venue takes.
pub open spec fn within(keys: Set<KeyView>, limits: ProviderLimits) -> bool {
    forall|p: Provider| provider_total(keys, p) <= #[trigger] limits.limit_of(p)
}

/// Whether a demand is one that a registry can have: it is finite, every listed client demands
/// something, and no limit is exceeded.
pub open spec fn sound(demand: Demand, client_limit: usize, limits: ProviderLimits) -> bool {
    &&& demand.dom().finite()
    &&& demanded(demand).finite()
    &&& forall|client: ClientId| #[trigger]
        demand.contains_key(client) ==> {
            &&& demand[client].finite()
            &&& demand[client] != Set::<KeyView>::empty()
            &&& demand[client].len() <= client_limit
        }
    &&& within(demanded(demand), limits)
}

/// Why demand was refused.
#[derive(Debug, Clone, Copy, PartialEq, Eq)]
pub enum RegistryError {
    ClientLimitExceeded { limit: usize, requested: usize },
    ProviderLimitExceeded { provider: Provider, limit: usize, requested: usize },
}

impl RegistryError {
    /// The error in words.
    pub fn message(&self) -> (message: String)
        ensures
            message@ == registry_message(*self),
    {
        match self {
            RegistryError::ClientLimitExceeded { limit, requested } => text::cat4(
                "client subscription limit exceeded: requested ",
                text::unsigned_text(*requested as u64).as_str(),
                ", maximum is ",
                text::unsigned_text(*limit as u64).as_str(),
            ),
            RegistryError::ProviderLimitExceeded { provider, limit, requested } => text::cat6(
                "provider subscription limit exceeded for ",
                provider.name(),
                ": requested ",
                text::unsigned_text(*requested as u64).as_str(),
                ", maximum is ",
                text::unsigned_text(*limit as u64).as_str(),
            ),
        }
    }
}

/// The words for a refusal.
pub open spec fn registry_message(error: RegistryError) -> Seq<char> {
    match error {
        RegistryError::ClientLimitExceeded { limit, requested } => {
            "client subscription limit exceeded: requested "@ + text::digits(requested as nat)
                + ", maximum is "@ + text::digits(limit as nat)
        },
        RegistryError::ProviderLimitExceeded { provider, limit, requested } => {
            "provider subscription limit exceeded for "@ + domain::provider_name(provider)
                + ": requested "@ + text::digits(requested as nat) + ", maximum is "@
                + text::digits(limit as nat)
        },
    }
}

/// The observable result of one client's registry mutation.
#[derive(Debug, Clone, PartialEq, Eq)]
pub struct SubscriptionChange {
    /// Keys newly owned by this client during this operation.
    pub added: Vec<SubscriptionKey>,
    /// Keys no longer owned by this client after this operation.
    pub removed: Vec<SubscriptionKey>,
    /// Keys whose global reference count changed from zero to one.
    pub activated: Vec<SubscriptionKey>,
    /// Keys whose global reference count changed from one to zero.
    pub deactivated: Vec<SubscriptionKey>,
    /// The client's complete subscription set after the operation.
    pub client_subscriptions: DesiredSubscriptions,
}

impl SubscriptionChange {
    /// Whether a change from one demand to another is what this change reports for a client.
    pub open spec fn reports(&self, before: Demand, after: Demand, client: ClientId) -> bool {
        let old_keys = owned(before, client);
        let new_keys = owned(after, client);
        &&& keyset::enumerates(domain::key_views(self.added@), new_keys.difference(old_keys))
        &&& keyset::enumerates(domain::key_views(self.removed@), old_keys.difference(new_keys))
        &&& keyset::enumerates(
            domain::key_views(self.activated@),
            demanded(after).difference(demanded(before)),
        )
        &&& keyset::enumerates(
            domain::key_views(self.deactivated@),
            demanded(before).difference(demanded(after)),
        )
        &&& self.client_subscriptions@ == new_keys
    }

    /// The report of an operation that changed nothing.
    fn unchanged(client_subscriptions: KeySet) -> (change: Self)
        ensures
            change.added@.len() == 0,
            change.removed@.len() == 0,
            change.activated@.len() == 0,
            change.deactivated@.len() == 0,
            change.client_subscriptions@ == client_subscriptions@,
    {
        SubscriptionChange {
            added: Vec::new(),
            removed: Vec::new(),
            activated: Vec::new(),
            deactivated: Vec::new(),
            client_subscriptions,
        }
    }

    /// Whether a key's global reference count crossed zero.
    pub fn desired_state_changed(&self) -> (answer: bool)
        ensures
            answer == (self.activated@.len() > 0 || self.deactivated@.len() > 0),
    {
        self.activated.len() > 0 || self.deactivated.len() > 0
    }
}

/// Ref-counts downstream demand and keeps the complete set of desired subscriptions.
#[derive(Debug)]
pub struct SubscriptionRegistry {
    max_subscriptions_per_client: usize,
    limits: ProviderLimits,
    clients: HashMap<u128, KeySet>,
    reference_counts: Table<SubscriptionKey, usize>,
    desired: KeySet,
}

/// The demand that a table of clients stands for.
spec fn demand_of(clients: Map<u128, KeySet>) -> Demand {
    Map::new(
        |client: ClientId| clients.contains_key(client),
        |client: ClientId| clients[client]@,
    )
}

// ---------------------------------------------------------------------------------------------
// How counts and keys follow the demand
// ---------------------------------------------------------------------------------------------

/// The demand without clients is sound.
proof fn lemma_no_demand_is_sound(client_limit: usize, limits: ProviderLimits)
    ensures
        demanded(Map::empty()) == Set::<KeyView>::empty(),
        sound(Map::empty(), client_limit, limits),
{
    let none: Demand = Map::empty();
    assert(demanded(none) =~= Set::empty());
    assert forall|p: Provider| provider_total(
        demanded(none),
        p,
    ) <= #[trigger] limits.limit_of(p) by {
        assert(demanded(none).filter(|key: KeyView| key.provider == p) =~= Set::empty());
    }
}

/// Fewer keys are within limits where more are.
proof fn lemma_fewer_are_within(fewer: Set<KeyView>, more: Set<KeyView>, limits: ProviderLimits)
    requires
        fewer.subset_of(more),
        more.finite(),
        within(more, limits),
    ensures
        fewer.finite(),
        within(fewer, limits),
{
    vstd::set_lib::lemma_len_subset(fewer, more);
    assert forall|p: Provider| provider_total(fewer, p) <= #[trigger] limits.limit_of(p) by {
        let of_p = |key: KeyView| key.provider == p;
        assert(fewer.filter(of_p).subset_of(more.filter(of_p)));
        vstd::set_lib::lemma_len_subset(fewer.filter(of_p), more.filter(of_p));
    }
}

/// What the demanded keys are once a client's keys are replaced.
proof fn lemma_demanded_after(demand: Demand, client: ClientId, keys: Set<KeyView>)
    ensures
        demanded(reassigned(demand, client, keys)).subset_of(demanded(demand).union(keys)),
        owned(demand, client).subset_of(keys) ==> demanded(reassigned(demand, client, keys))
            == demanded(demand).union(keys),
{
    let after = reassigned(demand, client, keys);
    let all = demanded(demand).union(keys);
    assert forall|key: KeyView| demanded(after).contains(key) implies all.contains(key) by {
        let c = choose|c: ClientId| #[trigger] after.contains_key(c) && after[c].contains(key);
        if c != client {
            assert(demand.contains_key(c) && demand[c].contains(key));
        }
    }
    if owned(demand, client).subset_of(keys) {
        assert forall|key: KeyView| all.contains(key) implies demanded(after).contains(key) by {
            if keys.contains(key) {
                assert(after.contains_key(client) && after[client].contains(key));
            } else {
                let c = choose|c: ClientId| #[trigger]
                    demand.contains_key(c) && demand[c].contains(key);
                if c == client {
                    assert(owned(demand, client).contains(key));
                }
                assert(after.contains_key(c) && after[c].contains(key));
            }
        }
        assert(demanded(after) =~= all);
    }
}

/// More keys of a client leave a demand sound where they are admitted.
proof fn lemma_admitted_is_sound(
    demand: Demand,
    client_limit: usize,
    limits: ProviderLimits,
    client: ClientId,
    keys: Set<KeyView>,
)
    requires
        sound(demand, client_limit, limits),
        keys.finite(),
        admitted(demand, client_limit, limits, client, keys),
    ensures
        sound(
            reassigned(demand, client, owned(demand, client).union(keys)),
            client_limit,
            limits,
        ),
{
    let wanted = owned(demand, client).union(keys);
    let after = reassigned(demand, client, wanted);
    lemma_demanded_after(demand, client, wanted);
    lemma_owned_is_demanded(demand, client);
    assert(demanded(demand).union(wanted) =~= demanded(demand).union(keys));
    assert(demanded(after) == demanded(demand).union(keys));
    assert forall|c: ClientId| #[trigger] after.contains_key(c) implies {
        &&& after[c].finite()
        &&& after[c] != Set::<KeyView>::empty()
        &&& after[c].len() <= client_limit
    } by {
        if c != client {
            assert(demand.contains_key(c));
        }
    }
}

/// Fewer keys of a client leave a demand sound.
proof fn lemma_fewer_is_sound(
    demand: Demand,
    client_limit: usize,
    limits: ProviderLimits,
    client: ClientId,
    keys: Set<KeyView>,
)
    requires
        sound(demand, client_limit, limits),
    ensures
        sound(
            reassigned(demand, client, owned(demand, client).difference(keys)),
            client_limit,
            limits,
        ),
{
    let own = owned(demand, client);
    let kept = own.difference(keys);
    let after = reassigned(demand, client, kept);
    lemma_demanded_after(demand, client, kept);
    lemma_owned_is_demanded(demand, client);
    assert(demanded(demand).union(kept) =~= demanded(demand));
    lemma_fewer_are_within(demanded(after), demanded(demand), limits);
    vstd::set_lib::lemma_len_subset(own, demanded(demand));
    vstd::set_lib::lemma_len_subset(kept, own);
    assert forall|c: ClientId| #[trigger] after.contains_key(c) implies {
        &&& after[c].finite()
        &&& after[c] != Set::<KeyView>::empty()
        &&& after[c].len() <= client_limit
    } by {
        if c != client {
            assert(demand.contains_key(c));
        } else {
            assert(own != Set::<KeyView>::empty()) by {
                if own == Set::<KeyView>::empty() {
                    assert(kept =~= Set::empty());
                }
            }
            assert(demand.contains_key(client));
        }
    }
}

/// An empty list enumerates the empty set.
pub proof fn lemma_empty_enumeration(list: Seq<KeyView>, set: Set<KeyView>)
    requires
        list.len() == 0,
        set == Set::<KeyView>::empty(),
    ensures
        keyset::enumerates(list, set),
{
    assert(list.to_set() =~= set);
}

/// An entry without keys neither demands nor owns anything.
pub proof fn lemma_empty_entry(demand: Demand, client: ClientId)
    requires
        owned(demand, client) == Set::<KeyView>::empty(),
    ensures
        demanded(demand.insert(client, Set::empty())) == demanded(demand),
        demanded(demand.remove(client)) == demanded(demand),
        forall|key: KeyView| #[trigger]
            owners(demand.insert(client, Set::empty()), key) == owners(demand, key),
        forall|key: KeyView| #[trigger] owners(demand.remove(client), key) == owners(demand, key),
{
    let with = demand.insert(client, Set::empty());
    let without = demand.remove(client);
    assert forall|key: KeyView| #[trigger] owners(with, key) == owners(demand, key) by {
        assert(owners(with, key) =~= owners(demand, key));
    }
    assert forall|key: KeyView| #[trigger] owners(without, key) == owners(demand, key) by {
        assert(owners(without, key) =~= owners(demand, key));
    }
    assert forall|key: KeyView|
        demanded(with).contains(key) == demanded(demand).contains(key) && demanded(
            without,
        ).contains(key) == demanded(demand).contains(key) by {
        if demanded(demand).contains(key) {
            let c = choose|c: ClientId| #[trigger]
                demand.contains_key(c) && demand[c].contains(key);
            assert(with.contains_key(c) && with[c].contains(key));
            assert(without.contains_key(c) && without[c].contains(key));
        }
        if demanded(with).contains(key) {
            let c = choose|c: ClientId| #[trigger] with.contains_key(c) && with[c].contains(key);
            assert(demand.contains_key(c) && demand[c].contains(key));
        }
        if demanded(without).contains(key) {
            let c = choose|c: ClientId| #[trigger]
                without.contains_key(c) && without[c].contains(key);
            assert(demand.contains_key(c) && demand[c].contains(key));
        }
    }
    assert(demanded(with) =~= demanded(demand));
    assert(demanded(without) =~= demanded(demand));
}

/// What one more key of a client does to the owners of keys and to the demanded keys.
pub proof fn lemma_key_gained(demand: Demand, client: ClientId, key: KeyView)
    requires
        demand.contains_key(client),
        !demand[client].contains(key),
        demand.dom().finite(),
    ensures
        ({
            let after = demand.insert(client, demand[client].insert(key));
            &&& owners(after, key) == owners(demand, key).insert(client)
            &&& owners(after, key).len() == owners(demand, key).len() + 1
            &&& owners(after, key).len() <= demand.dom().len()
            &&& forall|other: KeyView|
                other != key ==> #[trigger] owners(after, other) == owners(demand, other)
            &&& demanded(after) == demanded(demand).insert(key)
            &&& !demanded(demand).contains(key) <==> owners(demand, key).len() == 0
        }),
{
    let after = demand.insert(client, demand[client].insert(key));
    assert(owners(after, key) =~= owners(demand, key).insert(client));
    assert(!owners(demand, key).contains(client));
    assert(owners(demand, key).subset_of(demand.dom()));
    vstd::set_lib::lemma_len_subset(owners(demand, key), demand.dom());
    assert(owners(after, key).subset_of(demand.dom()));
    vstd::set_lib::lemma_len_subset(owners(after, key), demand.dom());
    assert forall|other: KeyView| other != key implies #[trigger] owners(after, other) == owners(
        demand,
        other,
    ) by {
        assert(owners(after, other) =~= owners(demand, other));
    }
    assert forall|k: KeyView|
        demanded(after).contains(k) == demanded(demand).insert(key).contains(k) by {
        if demanded(after).contains(k) && k != key {
            let c = choose|c: ClientId| #[trigger] after.contains_key(c) && after[c].contains(k);
            assert(demand.contains_key(c) && demand[c].contains(k));
        }
        if demanded(demand).contains(k) {
            let c = choose|c: ClientId| #[trigger] demand.contains_key(c) && demand[c].contains(k);
            assert(after.contains_key(c) && after[c].contains(k));
        }
        assert(after.contains_key(client) && after[client].contains(key));
    }
    assert(demanded(after) =~= demanded(demand).insert(key));
    lemma_owners_nonempty(demand, key);
}

/// A key is demanded exactly when it has an owner.
pub proof fn lemma_owners_nonempty(demand: Demand, key: KeyView)
    requires
        demand.dom().finite(),
    ensures
        demanded(demand).contains(key) <==> owners(demand, key).len() > 0,
        owners(demand, key).finite(),
        owners(demand, key).len() <= demand.dom().len(),
{
    assert(owners(demand, key).subset_of(demand.dom()));
    vstd::set_lib::lemma_len_subset(owners(demand, key), demand.dom());
    if demanded(demand).contains(key) {
        let c = choose|c: ClientId| #[trigger] demand.contains_key(c) && demand[c].contains(key);
        assert(owners(demand, key).contains(c));
        if owners(demand, key).len() == 0 {
            assert(owners(demand, key) =~= Set::empty());
        }
    } else if owners(demand, key).len() > 0 {
        let c = owners(demand, key).choose();
        assert(owners(demand, key).contains(c));
        assert(demand.contains_key(c) && demand[c].contains(key));
    }
}

/// What one key less of a client does to the owners of keys and to the demanded keys.
pub proof fn lemma_key_lost(demand: Demand, client: ClientId, key: KeyView)
    requires
        demand.contains_key(client),
        demand[client].contains(key),
        demand.dom().finite(),
    ensures
        ({
            let after = demand.insert(client, demand[client].remove(key));
            &&& owners(after, key) == owners(demand, key).remove(client)
            &&& owners(demand, key).len() == owners(after, key).len() + 1
            &&& forall|other: KeyView|
                other != key ==> #[trigger] owners(after, other) == owners(demand, other)
            &&& owners(after, key).len() > 0 ==> demanded(after) == demanded(demand)
            &&& owners(after, key).len() == 0 ==> demanded(after) == demanded(demand).remove(key)
            &&& demanded(demand).contains(key)
        }),
{
    let after = demand.insert(client, demand[client].remove(key));
    assert(after.insert(client, after[client].insert(key)) =~= demand);
    lemma_key_gained(after, client, key);
    assert(owners(after, key) =~= owners(demand, key).remove(client));
    assert forall|other: KeyView| other != key implies #[trigger] owners(after, other) == owners(
        demand,
        other,
    ) by {}
    lemma_owners_nonempty(after, key);
    if owners(after, key).len() > 0 {
        assert(demanded(after) =~= demanded(demand));
    } else {
        assert(demanded(after) =~= demanded(demand).remove(key));
    }
}

/// The keys of a venue in a set, counted.
pub fn provider_count(set: &KeySet, provider: Provider) -> (count: usize)
    ensures
        count == provider_total(set@, provider),
{
    let n = set.len();
    let ghost all = set.list();
    let ghost of_provider = |key: KeyView| key.provider == provider;
    let mut count: usize = 0;
    let mut i: usize = 0;
    proof {
        keyset::lemma_ascending_distinct(all);
        assert(all.take(0).to_set().filter(of_provider) =~= Set::empty());
    }
    while i < n
        invariant
            i <= n,
            n == all.len(),
            all == set.list(),
            all.no_duplicates(),
            of_provider == (|key: KeyView| key.provider == provider),
            count <= i,
            all.take(i as int).to_set().finite(),
            count == all.take(i as int).to_set().filter(of_provider).len(),
        decreases n - i,
    {
        let key = set.get(i);
        proof {
            let shorter = all.take(i as int).to_set();
            let longer = all.take(i + 1).to_set();
            keyset::lemma_take_to_set(all, i as int);
            vstd::seq_lib::seq_to_set_is_finite(all.take(i + 1));
            assert(!shorter.contains(key@)) by {
                if shorter.contains(key@) {
                    let j = choose|j: int|
                        0 <= j < all.take(i as int).len() && all.take(i as int)[j] == key@;
                    assert(all[j] == all[i as int]);
                }
            }
            if key@.provider == provider {
                assert(longer.filter(of_provider) =~= shorter.filter(of_provider).insert(key@));
            } else {
                assert(longer.filter(of_provider) =~= shorter.filter(of_provider));
            }
        }
        if key.provider == provider {
            count += 1;
        }
        i += 1;
    }
    proof {
        assert(all.take(n as int) =~= all);
    }
    count
}

impl SubscriptionRegistry {
    /// The demand of each client that demands anything.
    pub closed spec fn demand(&self) -> Demand {
        demand_of(self.clients@)
    }

    /// The most keys that one client may demand.
    pub closed spec fn client_limit(&self) -> usize {
        self.max_subscriptions_per_client
    }

    /// The most keys of a venue that all clients together may demand.
    pub open spec fn provider_limit(&self, provider: Provider) -> usize {
        self.venue_limits().limit_of(provider)
    }

    /// The venue limits.
    pub closed spec fn venue_limits(&self) -> ProviderLimits {
        self.limits
    }

    /// Whether a client may demand keys on top of its own.
    pub open spec fn admits(&self, client: ClientId, keys: Set<KeyView>) -> bool {
        admitted(self.demand(), self.client_limit(), self.venue_limits(), client, keys)
    }

    /// Whether an error is why a client may not demand keys on top of its own: it would have too
    /// many, or else the first venue in order of which all clients together would have too many.
    pub open spec fn refuses(
        &self,
        client: ClientId,
        keys: Set<KeyView>,
        error: RegistryError,
    ) -> bool {
        let wanted = owned(self.demand(), client).union(keys);
        let all = demanded(self.demand()).union(keys);
        match error {
            RegistryError::ClientLimitExceeded { limit, requested } => {
                &&& wanted.len() > self.client_limit()
                &&& limit == self.client_limit()
                &&& requested == capped(wanted.len())
            },
            RegistryError::ProviderLimitExceeded { provider, limit, requested } => {
                &&& wanted.len() <= self.client_limit()
                &&& limit == self.provider_limit(provider)
                &&& requested == provider_total(all, provider)
                &&& requested > limit
                &&& forall|p: Provider|
                    keyset::provider_rank(p) < keyset::provider_rank(provider) ==> provider_total(
                        all,
                        p,
                    ) <= #[trigger] self.provider_limit(p)
            },
        }
    }

    /// Counts and desired keys follow the demand, and no limit is exceeded.
    #[verifier::type_invariant]
    spec fn consistent(&self) -> bool {
        &&& tracks(self.reference_counts@, self.desired@, demand_of(self.clients@))
        &&& sound(demand_of(self.clients@), self.max_subscriptions_per_client, self.limits)
    }

    /// What holds of every registry: its demand is finite and keeps the limits.
    pub open spec fn is_sound(&self) -> bool {
        sound(self.demand(), self.client_limit(), self.venue_limits())
    }

    /// A registry without venue limits.
    pub fn new(max_subscriptions_per_client: usize) -> (registry: Self)
        ensures
            registry.is_sound(),
            registry.demand() == Map::<ClientId, Set<KeyView>>::empty(),
            registry.client_limit() == max_subscriptions_per_client,
            registry.venue_limits()@ == Map::<Provider, usize>::empty(),
            registry.venue_limits().default_limit() == usize::MAX,
    {
        Self::with_provider_limit(max_subscriptions_per_client, usize::MAX)
    }

    /// A registry with one limit for every venue.
    pub fn with_provider_limit(
        max_subscriptions_per_client: usize,
        max_subscriptions_per_provider: usize,
    ) -> (registry: Self)
        ensures
            registry.is_sound(),
            registry.demand() == Map::<ClientId, Set<KeyView>>::empty(),
            registry.client_limit() == max_subscriptions_per_client,
            registry.venue_limits()@ == Map::<Provider, usize>::empty(),
            registry.venue_limits().default_limit() == max_subscriptions_per_provider,
    {
        Self::with_provider_limits(
            max_subscriptions_per_client,
            ProviderLimits::uniform(max_subscriptions_per_provider),
        )
    }

    /// A registry with a limit for each venue.
    pub fn with_provider_limits(max_subscriptions_per_client: usize, limits: ProviderLimits) -> (
        registry: Self)
        ensures
            registry.is_sound(),
            registry.demand() == Map::<ClientId, Set<KeyView>>::empty(),
            registry.client_limit() == max_subscriptions_per_client,
            registry.venue_limits() == limits,
    {
        let clients: HashMap<u128, KeySet> = HashMap::new();
        let reference_counts: Table<SubscriptionKey, usize> = Table::new();
        let desired = KeySet::new();
        proof {
            assert(demand_of(clients@) =~= Map::empty());
            lemma_no_demand_is_sound(max_subscriptions_per_client, limits);
            assert(reference_counts@.dom() =~= Set::empty());
        }
        SubscriptionRegistry {
            max_subscriptions_per_client,
            limits,
            clients,
            reference_counts,
            desired,
        }
    }

    /// The most keys that one client may demand.
    pub fn max_subscriptions_per_client(&self) -> (limit: usize)
        ensures
            limit == self.client_limit(),
    {
        self.max_subscriptions_per_client
    }

    /// The venue limits.
    pub fn provider_limits(&self) -> (limits: &ProviderLimits)
        ensures
            *limits == self.venue_limits(),
    {
        &self.limits
    }

    /// The ceiling that is safe to apply to every venue alike.
    pub fn max_subscriptions_per_provider(&self) -> (limit: usize)
        ensures
            self.is_safe_ceiling(limit),
    {
        self.limits.minimum()
    }

    /// Whether a number is the least of the declared venue limits, or the default where none is
    /// declared.
    pub open spec fn is_safe_ceiling(&self, limit: usize) -> bool {
        limits::is_least(self.venue_limits()@, self.venue_limits().default_limit(), limit)
    }

    /// Return the latest complete desired-state snapshot.
    pub fn desired_snapshot(&self) -> (snapshot: DesiredSubscriptions)
        ensures
            self.is_sound(),
            snapshot@ == demanded(self.demand()),
    {
        proof {
            use_type_invariant(self);
        }
        self.desired.clone()
    }

    /// The keys of a client.
    fn keys_of(&self, client_id: ClientId) -> (keys: KeySet)
        ensures
            keys@ == owned(self.demand(), client_id),
    {
        match self.clients.get(&client_id) {
            Some(keys) => keys.clone(),
            None => KeySet::new(),
        }
    }

    /// Return one client's current subscriptions as an immutable snapshot.
    pub fn client_snapshot(&self, client_id: ClientId) -> (snapshot: DesiredSubscriptions)
        ensures
            self.is_sound(),
            snapshot@ == owned(self.demand(), client_id),
    {
        proof {
            use_type_invariant(self);
        }
        self.keys_of(client_id)
    }

    /// Return the number of clients currently demanding a key.
    pub fn reference_count(&self, key: &SubscriptionKey) -> (count: usize)
        ensures
            self.is_sound(),
            count == owners(self.demand(), key@).len(),
            (count > 0) == demanded(self.demand()).contains(key@),
    {
        proof {
            use_type_invariant(self);
            lemma_owners_nonempty(self.demand(), key@);
        }
        match self.reference_counts.get(key) {
            Some(count) => *count,
            None => 0,
        }
    }

    /// The first venue whose share of a set exceeds its limit, with that share.
    fn exceeding(&self, keys: &KeySet) -> (found: Option<(Provider, usize)>)
        ensures
            match found {
                Some((provider, total)) => {
                    &&& total == provider_total(keys@, provider)
                    &&& total > self.limits.limit_of(provider)
                    &&& forall|p: Provider|
                        keyset::provider_rank(p) < keyset::provider_rank(provider)
                            ==> provider_total(keys@, p) <= #[trigger] self.limits.limit_of(p)
                },
                None => forall|p: Provider|
                    provider_total(keys@, p) <= #[trigger] self.limits.limit_of(p),
            },
    {
        let mut rank: usize = 0;
        while rank < limits::PROVIDER_COUNT
            invariant
                rank <= limits::PROVIDER_COUNT,
                forall|p: Provider|
                    keyset::provider_rank(p) < rank ==> provider_total(keys@, p)
                        <= #[trigger] self.limits.limit_of(p),
            decreases limits::PROVIDER_COUNT - rank,
        {
            let provider = limits::provider_at(rank);
            let total = provider_count(keys, provider);
            if total > self.limits.limit_for(provider) {
                return Some((provider, total));
            }
            proof {
                assert forall|p: Provider| keyset::provider_rank(p) == rank implies p
                    == provider by {}
            }
            rank += 1;
        }
        proof {
            assert forall|p: Provider| keyset::provider_rank(p) < limits::PROVIDER_COUNT by {}
        }
        None
    }

    /// Add subscriptions for a client atomically.
    ///
    /// Duplicate keys, including keys already owned by the client, are idempotent. If the unique
    /// resulting set exceeds the per-client limit, or the unique keys of a venue that all clients
    /// would then demand exceed that venue's limit, nothing is changed.
    ///
    /// # Errors
    ///
    /// Returns [`RegistryError::ClientLimitExceeded`] when the resulting unique client set would
    /// exceed the configured maximum, and [`RegistryError::ProviderLimitExceeded`] when it would
    /// not but a venue's limit would be exceeded.
    pub fn add(&mut self, client_id: ClientId, keys: Vec<SubscriptionKey>) -> (r: Result<
        SubscriptionChange,
        RegistryError,
    >)
        ensures
            final(self).is_sound(),
            final(self).client_limit() == old(self).client_limit(),
            final(self).venue_limits() == old(self).venue_limits(),
            ({
                let before = old(self).demand();
                let requested = domain::key_views(keys@).to_set();
                match r {
                    Ok(change) => {
                        &&& old(self).admits(client_id, requested)
                        &&& final(self).demand() == reassigned(
                            before,
                            client_id,
                            owned(before, client_id).union(requested),
                        )
                        &&& change.reports(before, final(self).demand(), client_id)
                    },
                    Err(error) => {
                        &&& old(self).refuses(client_id, requested, error)
                        &&& final(self).demand() == before
                    },
                }
            }),
    {
        proof {
            use_type_invariant(&*self);
        }
        let ghost before = self.demand();
        let ghost wanted = owned(before, client_id).union(domain::key_views(keys@).to_set());
        let ghost all = demanded(before).union(domain::key_views(keys@).to_set());
        let requested = KeySet::from_list(keys);
        let existing = self.keys_of(client_id);
        let fresh = requested.minus(&existing);
        let existing_len = existing.len();
        let fresh_len = fresh.len();
        let requested_total = existing_len.saturating_add(fresh_len);
        proof {
            assert(wanted =~= existing@.union(fresh@));
            vstd::set_lib::lemma_set_disjoint_lens(existing@, fresh@);
            lemma_owned_is_demanded(before, client_id);
        }
        if existing_len > self.max_subscriptions_per_client || fresh_len
            > self.max_subscriptions_per_client - existing_len {
            return Err(
                RegistryError::ClientLimitExceeded {
                    limit: self.max_subscriptions_per_client,
                    requested: requested_total,
                },
            );
        }
        if fresh_len == 0 {
            proof {
                assert(fresh@ =~= Set::empty());
                assert(wanted =~= existing@);
                assert(all =~= demanded(before));
                assert(reassigned(before, client_id, wanted) =~= before);
                lemma_unchanged_report(before, client_id);
            }
            return Ok(SubscriptionChange::unchanged(existing));
        }
        let mut candidate = self.desired.clone();
        candidate.extend(&fresh);
        proof {
            assert(candidate@ =~= all);
        }
        if let Some((provider, total)) = self.exceeding(&candidate) {
            return Err(
                RegistryError::ProviderLimitExceeded {
                    provider,
                    limit: self.limits.limit_for(provider),
                    requested: total,
                },
            );
        }
        let activated = fresh.difference(&self.desired);
        let mut owned_keys = existing.clone();
        owned_keys.extend(&fresh);
        let client_subscriptions = owned_keys.clone();
        let mut taken = Self::new(0);
        core::mem::swap(self, &mut taken);
        let SubscriptionRegistry {
            max_subscriptions_per_client,
            limits,
            mut clients,
            mut reference_counts,
            desired: _,
        } = taken;
        let _previous = clients.insert(client_id, owned_keys);
        let client_count = clients.len();
        let ghost after = demand_of(clients@);
        proof {
            assert(after =~= before.insert(client_id, wanted));
            assert(after.dom() =~= clients@.dom());
        }
        // Count the fresh keys one by one.
        let ghost list = fresh.list();
        let ghost start = before.insert(client_id, existing@);
        let mut i: usize = 0;
        proof {
            if !before.contains_key(client_id) {
                lemma_empty_entry(before, client_id);
            } else {
                assert(start =~= before);
            }
            assert(existing@.union(list.take(0).to_set()) =~= existing@);
        }
        while i < fresh_len
            invariant
                i <= fresh_len,
                fresh_len == list.len(),
                list == fresh.list(),
                keyset::ascending(list),
                list.to_set() == fresh@,
                fresh@ == requested@.difference(existing@),
                start == before.insert(client_id, existing@),
                start.dom().finite(),
                start.dom().len() == client_count,
                ({
                    let current = before.insert(
                        client_id,
                        existing@.union(list.take(i as int).to_set()),
                    );
                    tracks(reference_counts@, demanded(current), current)
                }),
                demanded(before.insert(client_id, existing@.union(list.take(i as int).to_set())))
                    == demanded(before).union(list.take(i as int).to_set()),
            decreases fresh_len - i,
        {
            let key = fresh.get(i);
            let ghost held = existing@.union(list.take(i as int).to_set());
            let ghost current = before.insert(client_id, held);
            let ghost next = before.insert(client_id, held.insert(key@));
            proof {
                keyset::lemma_ascending_distinct(list);
                assert(current.dom() =~= start.dom());
                assert(!held.contains(key@)) by {
                    if list.take(i as int).to_set().contains(key@) {
                        let j = choose|j: int|
                            0 <= j < list.take(i as int).len() && list.take(i as int)[j] == key@;
                        assert(list[j] == list[i as int]);
                    }
                }
                lemma_key_gained(current, client_id, key@);
                assert(current.insert(client_id, current[client_id].insert(key@)) =~= next);
                keyset::lemma_take_to_set(list, i as int);
                assert(existing@.union(list.take(i + 1).to_set()) =~= held.insert(key@));
                assert(demanded(before).union(list.take(i + 1).to_set()) =~= demanded(
                    before,
                ).union(list.take(i as int).to_set()).insert(key@));
            }
            let count: usize = match reference_counts.get(key) {
                Some(count) => *count,
                None => 0,
            };
            let ghost counts = reference_counts@;
            reference_counts.insert(key.clone(), count + 1);
            proof {
                assert(reference_counts@.dom() =~= demanded(next));
                assert forall|k: KeyView| #[trigger]
                    reference_counts@.contains_key(k) implies reference_counts@[k]
                    == owners(next, k).len() by {
                    if k != key@ {
                        assert(counts.contains_key(k));
                    }
                }
            }
            i += 1;
        }
        proof {
            assert(list.take(fresh_len as int) =~= list);
            assert(wanted =~= existing@.union(list.to_set()));
            assert(demanded(after) =~= all);
            assert(wanted != Set::<KeyView>::empty()) by {
                assert(fresh@.contains(list[0])) by {
                    assert(list.contains(list[0]));
                }
                assert(wanted.contains(list[0]));
            }
            assert(reassigned(before, client_id, wanted) =~= after);
            lemma_admitted_is_sound(
                before,
                max_subscriptions_per_client,
                limits,
                client_id,
                requested@,
            );
        }
        *self = SubscriptionRegistry {
            max_subscriptions_per_client,
            limits,
            clients,
            reference_counts,
            desired: candidate,
        };
        let change = SubscriptionChange {
            added: fresh.to_vec(),
            removed: Vec::new(),
            activated,
            deactivated: Vec::new(),
            client_subscriptions,
        };
        proof {
            assert(wanted.difference(owned(before, client_id)) =~= fresh@);
            assert(owned(before, client_id).difference(wanted) =~= Set::empty());
            assert(demanded(before).difference(demanded(after)) =~= Set::empty());
            lemma_empty_enumeration(
                domain::key_views(change.removed@),
                owned(before, client_id).difference(wanted),
            );
            lemma_empty_enumeration(
                domain::key_views(change.deactivated@),
                demanded(before).difference(demanded(after)),
            );
            assert(demanded(after).difference(demanded(before)) =~= fresh@.difference(
                demanded(before),
            ));
        }
        Ok(change)
    }

    /// Take keys of a client out of the demand, and report which of them nobody demands any more.
    fn release(&mut self, client_id: ClientId, gone: &KeySet) -> (change: SubscriptionChange)
        requires
            old(self).demand().contains_key(client_id),
            gone@.subset_of(old(self).demand()[client_id]),
        ensures
            final(self).is_sound(),
            final(self).client_limit() == old(self).client_limit(),
            final(self).venue_limits() == old(self).venue_limits(),
            final(self).demand() == reassigned(
                old(self).demand(),
                client_id,
                owned(old(self).demand(), client_id).difference(gone@),
            ),
            change.reports(old(self).demand(), final(self).demand(), client_id),
    {
        proof {
            use_type_invariant(&*self);
        }
        let ghost before = self.demand();
        let existing = self.keys_of(client_id);
        let mut taken = Self::new(0);
        core::mem::swap(self, &mut taken);
        let SubscriptionRegistry {
            max_subscriptions_per_client,
            limits,
            mut clients,
            mut reference_counts,
            mut desired,
        } = taken;
        let remaining = existing.minus(gone);
        let client_subscriptions = remaining.clone();
        let emptied = remaining.is_empty();
        if emptied {
            let _keys = clients.remove(&client_id);
        } else {
            let _previous = clients.insert(client_id, remaining);
        }
        let ghost kept = existing@.difference(gone@);
        let ghost after = reassigned(before, client_id, kept);
        let gone_len = gone.len();
        let ghost list = gone.list();
        let mut i: usize = 0;
        proof {
            assert(demand_of(clients@) =~= after);
            assert(existing@.difference(list.take(0).to_set()) =~= existing@);
            assert(before.insert(client_id, existing@) =~= before);
        }
        while i < gone_len
            invariant
                i <= gone_len,
                gone_len == list.len(),
                list == gone.list(),
                keyset::ascending(list),
                list.to_set() == gone@,
                gone@.subset_of(existing@),
                before.dom().finite(),
                before.contains_key(client_id),
                ({
                    let current = before.insert(
                        client_id,
                        existing@.difference(list.take(i as int).to_set()),
                    );
                    tracks(reference_counts@, desired@, current)
                }),
            decreases gone_len - i,
        {
            let key = gone.get(i);
            let ghost held = existing@.difference(list.take(i as int).to_set());
            let ghost current = before.insert(client_id, held);
            let ghost next = before.insert(client_id, held.remove(key@));
            let ghost counts = reference_counts@;
            proof {
                keyset::lemma_ascending_distinct(list);
                assert(held.contains(key@)) by {
                    if list.take(i as int).to_set().contains(key@) {
                        let j = choose|j: int|
                            0 <= j < list.take(i as int).len() && list.take(i as int)[j] == key@;
                        assert(list[j] == list[i as int]);
                    }
                }
                lemma_key_lost(current, client_id, key@);
                assert(current.insert(client_id, current[client_id].remove(key@)) =~= next);
                keyset::lemma_take_to_set(list, i as int);
                assert(existing@.difference(list.take(i + 1).to_set()) =~= held.remove(key@));
            }
            let count: usize = match reference_counts.get(key) {
                Some(count) => *count,
                None => 0,
            };
            if count > 1 {
                reference_counts.insert(key.clone(), count - 1);
            } else {
                let _count = reference_counts.remove(key);
                let _present = desired.remove(key);
            }
            proof {
                assert(reference_counts@.dom() =~= demanded(next));
                assert forall|k: KeyView| #[trigger]
                    reference_counts@.contains_key(k) implies reference_counts@[k]
                    == owners(next, k).len() by {
                    if k != key@ {
                        assert(counts.contains_key(k));
                    }
                }
                assert(tracks(reference_counts@, desired@, next));
            }
            i += 1;
        }
        let deactivated = gone.difference(&desired);
        let change = SubscriptionChange {
            added: Vec::new(),
            removed: gone.to_vec(),
            activated: Vec::new(),
            deactivated,
            client_subscriptions,
        };
        proof {
            assert(list.take(gone_len as int) =~= list);
            let last = before.insert(client_id, kept);
            assert(tracks(reference_counts@, desired@, last));
            if emptied {
                lemma_empty_entry(last, client_id);
                assert(last.remove(client_id) =~= after);
            }
            assert(tracks(reference_counts@, desired@, after));
            lemma_fewer_is_sound(
                before,
                max_subscriptions_per_client,
                limits,
                client_id,
                gone@,
            );
            assert(existing@.difference(kept) =~= gone@);
            assert(kept.difference(existing@) =~= Set::empty());
            lemma_empty_enumeration(
                domain::key_views(change.added@),
                kept.difference(existing@),
            );
            assert(demanded(after).difference(demanded(before)) =~= Set::empty());
            lemma_empty_enumeration(
                domain::key_views(change.activated@),
                demanded(after).difference(demanded(before)),
            );
            assert forall|key: KeyView| demanded(before).contains(key) && !demanded(
                after,
            ).contains(key) implies gone@.contains(key) by {
                let c = choose|c: ClientId| #[trigger]
                    before.contains_key(c) && before[c].contains(key);
                if c != client_id || kept.contains(key) {
                    assert(after.contains_key(c) && after[c].contains(key));
                }
            }
            lemma_owned_is_demanded(before, client_id);
            assert(demanded(before).difference(demanded(after)) =~= gone@.difference(
                demanded(after),
            ));
        }
        *self = SubscriptionRegistry {
            max_subscriptions_per_client,
            limits,
            clients,
            reference_counts,
            desired,
        };
        change
    }

    /// Remove keys owned by a client. Unknown keys are ignored.
    pub fn remove(&mut self, client_id: ClientId, keys: Vec<SubscriptionKey>) -> (change:
        SubscriptionChange)
        ensures
            final(self).is_sound(),
            final(self).client_limit() == old(self).client_limit(),
            final(self).venue_limits() == old(self).venue_limits(),
            final(self).demand() == reassigned(
                old(self).demand(),
                client_id,
                owned(old(self).demand(), client_id).difference(domain::key_views(keys@).to_set()),
            ),
            change.reports(old(self).demand(), final(self).demand(), client_id),
    {
        proof {
            use_type_invariant(&*self);
        }
        let ghost before = self.demand();
        let requested = KeySet::from_list(keys);
        let existing = self.keys_of(client_id);
        let gone = requested.common(&existing);
        proof {
            assert(existing@.difference(requested@) =~= existing@.difference(gone@));
        }
        if gone.is_empty() {
            proof {
                assert(existing@.difference(gone@) =~= existing@);
                assert(reassigned(before, client_id, existing@) =~= before);
                lemma_unchanged_report(before, client_id);
            }
            return SubscriptionChange::unchanged(existing);
        }
        proof {
            assert(before.contains_key(client_id)) by {
                if !before.contains_key(client_id) {
                    assert(gone@ =~= Set::empty());
                }
            }
        }
        self.release(client_id, &gone)
    }

    /// Remove every key owned by a disconnected client in one atomic operation.
    pub fn cleanup_client(&mut self, client_id: ClientId) -> (change: SubscriptionChange)
        ensures
            final(self).is_sound(),
            final(self).client_limit() == old(self).client_limit(),
            final(self).venue_limits() == old(self).venue_limits(),
            final(self).demand() == old(self).demand().remove(client_id),
            change.reports(old(self).demand(), final(self).demand(), client_id),
    {
        proof {
            use_type_invariant(&*self);
        }
        let ghost before = self.demand();
        let existing = self.keys_of(client_id);
        if existing.is_empty() {
            proof {
                assert(!before.contains_key(client_id));
                assert(before.remove(client_id) =~= before);
                lemma_unchanged_report(before, client_id);
            }
            return SubscriptionChange::unchanged(existing);
        }
        proof {
            assert(existing@.difference(existing@) =~= Set::empty());
        }
        self.release(client_id, &existing)
    }
}

/// A client's keys are among the demanded ones.
pub proof fn lemma_owned_is_demanded(demand: Demand, client: ClientId)
    ensures
        owned(demand, client).subset_of(demanded(demand)),
{
    assert forall|key: KeyView| owned(demand, client).contains(key) implies demanded(
        demand,
    ).contains(key) by {
        assert(demand.contains_key(client) && demand[client].contains(key));
    }
}

/// Empty lists report that nothing changed.
pub proof fn lemma_unchanged_report(demand: Demand, client: ClientId)
    ensures
        owned(demand, client).difference(owned(demand, client)) == Set::<KeyView>::empty(),
        demanded(demand).difference(demanded(demand)) == Set::<KeyView>::empty(),
        forall|list: Seq<KeyView>|
            list.len() == 0 ==> #[trigger] keyset::enumerates(list, Set::<KeyView>::empty()),
{
    assert(owned(demand, client).difference(owned(demand, client)) =~= Set::empty());
    assert(demanded(demand).difference(demanded(demand)) =~= Set::empty());
    assert forall|list: Seq<KeyView>| list.len() == 0 implies #[trigger] keyset::enumerates(
        list,
        Set::<KeyView>::empty(),
    ) by {
        lemma_empty_enumeration(list, Set::empty());
    }
}

// ---------------------------------------------------------------------------------------------
// Laws
// ---------------------------------------------------------------------------------------------

/// What a client demands already, it can demand again without any change.
pub proof fn law_adding_again_changes_nothing(demand: Demand, client: ClientId, keys: Set<KeyView>)
    requires
        keys.subset_of(owned(demand, client)),
        owned(demand, client) != Set::<KeyView>::empty(),
    ensures
        reassigned(demand, client, owned(demand, client).union(keys)) == demand,
{
    assert(owned(demand, client).union(keys) =~= owned(demand, client));
    assert(demand.insert(client, demand[client]) =~= demand);
}

/// Ending what was begun gives back the demand from before.
pub proof fn law_removing_undoes_adding(demand: Demand, client: ClientId, keys: Set<KeyView>)
    requires
        keys.disjoint(owned(demand, client)),
        demand.contains_key(client) ==> demand[client] != Set::<KeyView>::empty(),
    ensures
        ({
            let after = reassigned(demand, client, owned(demand, client).union(keys));
            reassigned(after, client, owned(after, client).difference(keys)) == demand
        }),
{
    let own = owned(demand, client);
    let after = reassigned(demand, client, own.union(keys));
    assert(own.union(keys).difference(keys) =~= own);
    assert(owned(after, client) =~= own.union(keys));
    assert(reassigned(after, client, own) =~= demand);
}

/// What one client does not demand any more, the other clients still do.
pub proof fn law_one_client_cannot_end_anothers_demand(
    demand: Demand,
    client: ClientId,
    other: ClientId,
    keys: Set<KeyView>,
    key: KeyView,
)
    requires
        other != client,
        owned(demand, other).contains(key),
    ensures
        ({
            let after = reassigned(demand, client, owned(demand, client).difference(keys));
            owned(after, other) == owned(demand, other) && demanded(after).contains(key)
        }),
{
    let after = reassigned(demand, client, owned(demand, client).difference(keys));
    assert(after.contains_key(other) && after[other].contains(key));
}

/// A client that is gone owns nothing, and every key keeps its other owners.
pub proof fn law_cleanup_removes_one_owner(demand: Demand, client: ClientId, key: KeyView)
    ensures
        owned(demand.remove(client), client) == Set::<KeyView>::empty(),
        owners(demand.remove(client), key) == owners(demand, key).remove(client),
{
    assert(owners(demand.remove(client), key) =~= owners(demand, key).remove(client));
}

/// What can be done to a demand.
pub enum DemandStep {
    /// A client asks for more keys.
    Add(ClientId, Seq<KeyView>),
    /// A client gives keys up.
    Remove(ClientId, Seq<KeyView>),
    /// A client is gone.
    Cleanup(ClientId),
}

/// The demand after a step. A client that asks for too much gets nothing.
pub open spec fn after_demand_step(
    demand: Demand,
    client_limit: usize,
    limits: ProviderLimits,
    step: DemandStep,
) -> Demand {
    match step {
        DemandStep::Add(client, keys) => if admitted(
            demand,
            client_limit,
            limits,
            client,
            keys.to_set(),
        ) {
            reassigned(demand, client, owned(demand, client).union(keys.to_set()))
        } else {
            demand
        },
        DemandStep::Remove(client, keys) => reassigned(
            demand,
            client,
            owned(demand, client).difference(keys.to_set()),
        ),
        DemandStep::Cleanup(client) => demand.remove(client),
    }
}

/// The demand after a run of steps from the start.
pub open spec fn after_demand_steps(
    client_limit: usize,
    limits: ProviderLimits,
    steps: Seq<DemandStep>,
) -> Demand
    decreases steps.len(),
{
    if steps.len() == 0 {
        Map::empty()
    } else {
        after_demand_step(
            after_demand_steps(client_limit, limits, steps.drop_last()),
            client_limit,
            limits,
            steps.last(),
        )
    }
}

/// Whatever clients asked for and gave up so far: no client has more keys than a client may, and no
/// venue more than it takes; a key is desired exactly as long as it has an owner, and it has no
/// more owners than there are clients with demand.
pub proof fn law_limits_are_never_exceeded(
    client_limit: usize,
    limits: ProviderLimits,
    steps: Seq<DemandStep>,
)
    ensures
        ({
            let demand = after_demand_steps(client_limit, limits, steps);
            &&& sound(demand, client_limit, limits)
            &&& forall|client: ClientId| #[trigger]
                owned(demand, client).len() <= client_limit
            &&& forall|p: Provider|
                provider_total(demanded(demand), p) <= #[trigger] limits.limit_of(p)
            &&& forall|key: KeyView| #[trigger]
                demanded(demand).contains(key) <==> owners(demand, key).len() > 0
            &&& forall|key: KeyView| #[trigger] owners(demand, key).len() <= demand.dom().len()
        }),
    decreases steps.len(),
{
    let demand = after_demand_steps(client_limit, limits, steps);
    if steps.len() == 0 {
        lemma_no_demand_is_sound(client_limit, limits);
    } else {
        let before = after_demand_steps(client_limit, limits, steps.drop_last());
        law_limits_are_never_exceeded(client_limit, limits, steps.drop_last());
        match steps.last() {
            DemandStep::Add(client, keys) => {
                vstd::seq_lib::seq_to_set_is_finite(keys);
                if admitted(before, client_limit, limits, client, keys.to_set()) {
                    lemma_admitted_is_sound(before, client_limit, limits, client, keys.to_set());
                }
            },
            DemandStep::Remove(client, keys) => {
                lemma_fewer_is_sound(before, client_limit, limits, client, keys.to_set());
            },
            DemandStep::Cleanup(client) => {
                let own = owned(before, client);
                lemma_fewer_is_sound(before, client_limit, limits, client, own);
                assert(own.difference(own) =~= Set::empty());
            },
        }
    }
    law_sound_demand_counts_owners(demand, client_limit, limits);
}

/// In a sound demand no client has more keys than a client may; a key is demanded exactly as long as
/// it has an owner, and it has no more owners than there are clients with demand.
pub proof fn law_sound_demand_counts_owners(
    demand: Demand,
    client_limit: usize,
    limits: ProviderLimits,
)
    requires
        sound(demand, client_limit, limits),
    ensures
        forall|client: ClientId| #[trigger] owned(demand, client).len() <= client_limit,
        forall|key: KeyView| #[trigger]
            demanded(demand).contains(key) <==> owners(demand, key).len() > 0,
        forall|key: KeyView| #[trigger] owners(demand, key).len() <= demand.dom().len(),
{
    assert forall|key: KeyView| #[trigger]
        demanded(demand).contains(key) <==> owners(demand, key).len() > 0 by {
        lemma_owners_nonempty(demand, key);
    }
    assert forall|key: KeyView| #[trigger] owners(demand, key).len() <= demand.dom().len() by {
        lemma_owners_nonempty(demand, key);
    }
}

/// A demand is refused exactly where it is not admitted.
pub proof fn law_refusal_is_the_absence_of_admission(
    registry: SubscriptionRegistry,
    client: ClientId,
    keys: Set<KeyView>,
    error: RegistryError,
)
    requires
        registry.refuses(client, keys, error),
    ensures
        !registry.admits(client, keys),
{
}

} // verus!
