//! Ordered sets of subscription keys.
use vstd::prelude::*;

use crate::domain;
use crate::domain::{Channel, KeyView, Provider, SubscriptionKey};
use crate::text;

verus! {

/// The place of a venue in the order of venues.
pub open spec fn provider_rank(provider: Provider) -> int {
    match provider {
        Provider::Bybit => 0,
        Provider::Binance => 1,
        Provider::Okx => 2,
        Provider::Kucoin => 3,
        Provider::Mexc => 4,
        Provider::Bingx => 5,
    }
}

/// The place of a channel in the order of channels.
pub open spec fn channel_rank(channel: Channel) -> int {
    match channel {
        Channel::Ticker => 0,
        Channel::Candle1m => 1,
    }
}

/// The order of keys: by venue, then by symbol, then by channel.
pub open spec fn key_less(a: KeyView, b: KeyView) -> bool {
    if a.provider != b.provider {
        provider_rank(a.provider) < provider_rank(b.provider)
    } else if a.symbol != b.symbol {
        text::precedes(a.symbol, b.symbol)
    } else {
        channel_rank(a.channel) < channel_rank(b.channel)
    }
}

/// Whether a list of keys is strictly ascending.
pub open spec fn ascending(list: Seq<KeyView>) -> bool {
    forall|i: int, j: int| 0 <= i < j < list.len() ==> key_less(#[trigger] list[i], #[trigger] list[j])
}

/// Whether a list names every member of a set once, in order.
pub open spec fn enumerates(list: Seq<KeyView>, set: Set<KeyView>) -> bool {
    &&& ascending(list)
    &&& list.to_set() == set
}

/// No text precedes itself.
pub proof fn lemma_precedes_irreflexive(a: Seq<char>)
    ensures
        !text::precedes(a, a),
    decreases a.len(),
{
    if a.len() > 0 {
        lemma_precedes_irreflexive(a.skip(1));
    }
}

/// Of two different texts one precedes the other.
pub proof fn lemma_precedes_total(a: Seq<char>, b: Seq<char>)
    requires
        a != b,
    ensures
        text::precedes(a, b) || text::precedes(b, a),
    decreases a.len(),
{
    if a.len() > 0 && b.len() > 0 && a[0] == b[0] {
        if a.skip(1) == b.skip(1) {
            assert(a == seq![a[0]] + a.skip(1));
            assert(b == seq![b[0]] + b.skip(1));
        }
        lemma_precedes_total(a.skip(1), b.skip(1));
    } else if a.len() == 0 && b.len() == 0 {
        assert(a =~= b);
    }
}

/// The order of texts is transitive.
pub proof fn lemma_precedes_transitive(a: Seq<char>, b: Seq<char>, c: Seq<char>)
    requires
        text::precedes(a, b),
        text::precedes(b, c),
    ensures
        text::precedes(a, c),
    decreases a.len(),
{
    if a.len() > 0 && b.len() > 0 && c.len() > 0 && a[0] == b[0] && b[0] == c[0] {
        lemma_precedes_transitive(a.skip(1), b.skip(1), c.skip(1));
    }
}

/// No key is less than itself.
pub proof fn lemma_key_irreflexive(a: KeyView)
    ensures
        !key_less(a, a),
{
}

/// Of two different keys one is less.
pub proof fn lemma_key_total(a: KeyView, b: KeyView)
    requires
        a != b,
    ensures
        key_less(a, b) || key_less(b, a),
{
    if a.symbol != b.symbol {
        lemma_precedes_total(a.symbol, b.symbol);
    }
}

/// The order of keys is transitive.
pub proof fn lemma_key_transitive(a: KeyView, b: KeyView, c: KeyView)
    requires
        key_less(a, b),
        key_less(b, c),
    ensures
        key_less(a, c),
{
    if a.provider == b.provider && b.provider == c.provider {
        if a.symbol != b.symbol && b.symbol != c.symbol {
            lemma_precedes_transitive(a.symbol, b.symbol, c.symbol);
            lemma_precedes_irreflexive(c.symbol);
            if a.symbol == c.symbol {
                lemma_precedes_transitive(b.symbol, c.symbol, b.symbol);
                lemma_precedes_irreflexive(b.symbol);
            }
        }
    }
}

/// An ascending list repeats nothing.
pub proof fn lemma_ascending_distinct(list: Seq<KeyView>)
    requires
        ascending(list),
    ensures
        list.no_duplicates(),
        list.to_set().finite(),
        list.to_set().len() == list.len(),
{
    assert forall|i: int, j: int| 0 <= i < list.len() && 0 <= j < list.len() && i != j implies list[i]
        != list[j] by {
        lemma_key_irreflexive(list[i]);
        if i < j {
            assert(key_less(list[i], list[j]));
        } else {
            assert(key_less(list[j], list[i]));
        }
    }
    list.unique_seq_to_set();
    vstd::seq_lib::seq_to_set_is_finite(list);
}

/// A set has one ordered enumeration.
pub proof fn lemma_enumeration_unique(a: Seq<KeyView>, b: Seq<KeyView>, set: Set<KeyView>)
    requires
        enumerates(a, set),
        enumerates(b, set),
    ensures
        a == b,
    decreases a.len(),
{
    lemma_ascending_distinct(a);
    lemma_ascending_distinct(b);
    if a.len() > 0 {
        let n = a.len() - 1;
        let x = a[n];
        let y = b[n];
        assert(set.contains(x) && set.contains(y)) by {
            assert(a.to_set().contains(x));
            assert(b.to_set().contains(y));
        }
        assert(x == y) by {
            let i = choose|i: int| 0 <= i < b.len() && b[i] == x;
            let j = choose|j: int| 0 <= j < a.len() && a[j] == y;
            assert(b.to_set().contains(x) && a.to_set().contains(y));
            if x != y {
                assert(key_less(b[i], b[n]));
                assert(key_less(a[j], a[n]));
                lemma_key_transitive(x, y, x);
                lemma_key_irreflexive(x);
            }
        }
        let rest = set.remove(x);
        assert(a.drop_last().to_set() =~= rest) by {
            assert forall|k: KeyView| a.drop_last().to_set().contains(k) == rest.contains(k) by {
                if rest.contains(k) {
                    assert(a.to_set().contains(k));
                    let i = choose|i: int| 0 <= i < a.len() && a[i] == k;
                    assert(a.drop_last()[i] == k);
                }
                if a.drop_last().to_set().contains(k) {
                    let i = choose|i: int| 0 <= i < a.drop_last().len() && a.drop_last()[i] == k;
                    assert(a[i] == k);
                    assert(a.to_set().contains(k));
                }
            }
        }
        assert(b.drop_last().to_set() =~= rest) by {
            assert forall|k: KeyView| b.drop_last().to_set().contains(k) == rest.contains(k) by {
                if rest.contains(k) {
                    assert(b.to_set().contains(k));
                    let i = choose|i: int| 0 <= i < b.len() && b[i] == k;
                    assert(b.drop_last()[i] == k);
                }
                if b.drop_last().to_set().contains(k) {
                    let i = choose|i: int| 0 <= i < b.drop_last().len() && b.drop_last()[i] == k;
                    assert(b[i] == k);
                    assert(b.to_set().contains(k));
                }
            }
        }
        assert(ascending(a.drop_last()));
        assert(ascending(b.drop_last()));
        lemma_enumeration_unique(a.drop_last(), b.drop_last(), rest);
        assert(a == a.drop_last().push(x));
        assert(b == b.drop_last().push(y));
    } else {
        assert(a =~= b);
    }
}

/// The place of a venue in the order of venues.
pub fn rank_of(provider: Provider) -> (rank: u8)
    ensures
        rank == provider_rank(provider),
{
    match provider {
        Provider::Bybit => 0,
        Provider::Binance => 1,
        Provider::Okx => 2,
        Provider::Kucoin => 3,
        Provider::Mexc => 4,
        Provider::Bingx => 5,
    }
}

/// Whether two keys are the same.
pub fn same_key(a: &SubscriptionKey, b: &SubscriptionKey) -> (equal: bool)
    ensures
        equal == (a@ == b@),
{
    a.provider == b.provider && a.market == b.market && a.channel == b.channel && text::same(
        a.symbol.as_str(),
        b.symbol.as_str(),
    )
}

/// Whether one key is less than another.
pub fn less(a: &SubscriptionKey, b: &SubscriptionKey) -> (answer: bool)
    ensures
        answer == key_less(a@, b@),
{
    if a.provider != b.provider {
        rank_of(a.provider) < rank_of(b.provider)
    } else if !text::same(a.symbol.as_str(), b.symbol.as_str()) {
        text::before(a.symbol.as_str(), b.symbol.as_str())
    } else {
        a.channel == Channel::Ticker && b.channel == Channel::Candle1m
    }
}

/// A set of keys, held in ascending order.
#[derive(Debug, PartialEq, Eq)]
pub struct KeySet {
    keys: Vec<SubscriptionKey>,
}

impl View for KeySet {
    type V = Set<KeyView>;

    closed spec fn view(&self) -> Set<KeyView> {
        self.list().to_set()
    }
}

impl KeySet {
    /// The keys in order.
    pub closed spec fn list(&self) -> Seq<KeyView> {
        domain::key_views(self.keys@)
    }

    /// The keys are held in ascending order.
    #[verifier::type_invariant]
    spec fn ordered(&self) -> bool {
        ascending(self.list())
    }

    /// The set without keys.
    pub fn new() -> (set: KeySet)
        ensures
            set@ == Set::<KeyView>::empty(),
            set.list() == Seq::<KeyView>::empty(),
    {
        let set = KeySet { keys: Vec::new() };
        proof {
            assert(set.list() =~= Seq::empty());
            assert(set@ =~= Set::empty());
        }
        set
    }

    /// The number of keys.
    pub fn len(&self) -> (n: usize)
        ensures
            n == self@.len(),
            n == self.list().len(),
            self@.finite(),
            enumerates(self.list(), self@),
    {
        proof {
            use_type_invariant(self);
            lemma_ascending_distinct(self.list());
        }
        self.keys.len()
    }

    /// Whether there is no key.
    pub fn is_empty(&self) -> (answer: bool)
        ensures
            answer == (self@ == Set::<KeyView>::empty()),
    {
        let n = self.len();
        proof {
            if n == 0 {
                assert(self@ =~= Set::empty());
            } else {
                assert(self@.contains(self.list()[0]));
            }
        }
        n == 0
    }

    /// The key at a place.
    pub fn get(&self, i: usize) -> (key: &SubscriptionKey)
        requires
            i < self.list().len(),
        ensures
            key@ == self.list()[i as int],
            self@.contains(key@),
    {
        proof {
            assert(self.list().contains(self.list()[i as int]));
        }
        &self.keys[i]
    }

    /// The first place whose key is not less than the given one.
    fn place(&self, key: &SubscriptionKey) -> (at: usize)
        ensures
            at <= self.list().len(),
            forall|i: int| 0 <= i < at ==> key_less(#[trigger] self.list()[i], key@),
            forall|i: int|
                at <= i < self.list().len() ==> !key_less(#[trigger] self.list()[i], key@),
    {
        proof {
            use_type_invariant(self);
        }
        let mut low: usize = 0;
        let mut high: usize = self.keys.len();
        while low < high
            invariant
                low <= high <= self.list().len(),
                self.list().len() == self.keys@.len(),
                ascending(self.list()),
                forall|i: int| 0 <= i < low ==> key_less(#[trigger] self.list()[i], key@),
                forall|i: int|
                    high <= i < self.list().len() ==> !key_less(#[trigger] self.list()[i], key@),
            decreases high - low,
        {
            let middle = low + (high - low) / 2;
            assert(self.list()[middle as int] == self.keys@[middle as int]@);
            if less(&self.keys[middle], key) {
                proof {
                    assert forall|i: int| 0 <= i < middle + 1 implies key_less(
                        #[trigger] self.list()[i],
                        key@,
                    ) by {
                        if i < middle {
                            assert(key_less(self.list()[i], self.list()[middle as int]));
                            lemma_key_transitive(self.list()[i], self.list()[middle as int], key@);
                        }
                    }
                }
                low = middle + 1;
            } else {
                proof {
                    assert forall|i: int| middle <= i < self.list().len() implies !key_less(
                        #[trigger] self.list()[i],
                        key@,
                    ) by {
                        if i > middle && key_less(self.list()[i], key@) {
                            assert(key_less(self.list()[middle as int], self.list()[i]));
                            lemma_key_transitive(self.list()[middle as int], self.list()[i], key@);
                        }
                    }
                }
                high = middle;
            }
        }
        low
    }

    /// Whether the key is in the set.
    pub fn contains(&self, key: &SubscriptionKey) -> (answer: bool)
        ensures
            answer == self@.contains(key@),
    {
        let at = self.place(key);
        proof {
            use_type_invariant(self);
        }
        let found = at < self.keys.len() && same_key(&self.keys[at], key);
        proof {
            if found {
                assert(self.list()[at as int] == key@);
            } else if self@.contains(key@) {
                let i = choose|i: int| 0 <= i < self.list().len() && self.list()[i] == key@;
                lemma_key_irreflexive(key@);
                assert(i >= at);
                if i > at {
                    assert(key_less(self.list()[at as int], self.list()[i]));
                } else {
                    assert(self.keys@[at as int]@ == key@);
                }
            }
        }
        found
    }

    /// Put a key into the set. The answer is whether it was new.
    pub fn insert(&mut self, key: SubscriptionKey) -> (new: bool)
        ensures
            final(self)@ == old(self)@.insert(key@),
            new == !old(self)@.contains(key@),
    {
        let present = self.contains(&key);
        let at = self.place(&key);
        proof {
            use_type_invariant(&*self);
        }
        if present {
            proof {
                assert(self@ =~= old(self)@.insert(key@));
            }
            return false;
        }
        let ghost before = self.list();
        let ghost added = key@;
        let mut keys: Vec<SubscriptionKey> = Vec::new();
        core::mem::swap(&mut keys, &mut self.keys);
        keys.insert(at, key);
        proof {
            let after = domain::key_views(keys@);
            assert(after =~= before.insert(at as int, added));
            assert(ascending(after)) by {
                assert forall|i: int, j: int| 0 <= i < j < after.len() implies key_less(
                    #[trigger] after[i],
                    #[trigger] after[j],
                ) by {
                    if i < at && j > at {
                        assert(key_less(before[i], before[j - 1]));
                    } else if i < at && j < at {
                        assert(key_less(before[i], before[j]));
                    } else if i > at {
                        assert(key_less(before[i - 1], before[j - 1]));
                    } else if i == at {
                        assert(!key_less(before[j - 1], added));
                        if before[j - 1] == added {
                            assert(before.to_set().contains(added));
                        }
                        lemma_key_total(added, before[j - 1]);
                    }
                }
            }
            assert(after.to_set() =~= before.to_set().insert(added)) by {
                assert forall|k: KeyView| after.to_set().contains(k) == before.to_set().insert(
                    added,
                ).contains(k) by {
                    if after.to_set().contains(k) {
                        let i = choose|i: int| 0 <= i < after.len() && after[i] == k;
                        if i < at {
                            assert(before[i] == k);
                        } else if i > at {
                            assert(before[i - 1] == k);
                        }
                    }
                    if before.to_set().contains(k) {
                        let i = choose|i: int| 0 <= i < before.len() && before[i] == k;
                        if i < at {
                            assert(after[i] == k);
                        } else {
                            assert(after[i + 1] == k);
                        }
                    }
                    assert(after[at as int] == added);
                }
            }
        }
        self.keys = keys;
        true
    }

    /// Take a key out of the set. The answer is whether it was there.
    pub fn remove(&mut self, key: &SubscriptionKey) -> (present: bool)
        ensures
            final(self)@ == old(self)@.remove(key@),
            present == old(self)@.contains(key@),
    {
        let present = self.contains(key);
        let at = self.place(key);
        proof {
            use_type_invariant(&*self);
        }
        if !present {
            proof {
                assert(self@ =~= old(self)@.remove(key@));
            }
            return false;
        }
        let ghost before = self.list();
        proof {
            let i = choose|i: int| 0 <= i < before.len() && before[i] == key@;
            lemma_key_irreflexive(key@);
            assert(i >= at);
            if i > at {
                assert(key_less(before[at as int], before[i]));
            }
            assert(before[at as int] == key@);
        }
        let mut keys: Vec<SubscriptionKey> = Vec::new();
        core::mem::swap(&mut keys, &mut self.keys);
        let _gone = keys.remove(at);
        proof {
            let after = domain::key_views(keys@);
            assert(after =~= before.remove(at as int));
            assert(ascending(after)) by {
                assert forall|i: int, j: int| 0 <= i < j < after.len() implies key_less(
                    #[trigger] after[i],
                    #[trigger] after[j],
                ) by {
                    let p = if i < at { i } else { i + 1 };
                    let q = if j < at { j } else { j + 1 };
                    assert(key_less(before[p], before[q]));
                }
            }
            lemma_ascending_distinct(before);
            assert(after.to_set() =~= before.to_set().remove(key@)) by {
                assert forall|k: KeyView| after.to_set().contains(k) == before.to_set().remove(
                    key@,
                ).contains(k) by {
                    if after.to_set().contains(k) {
                        let i = choose|i: int| 0 <= i < after.len() && after[i] == k;
                        let p = if i < at { i } else { i + 1 };
                        assert(before[p] == k);
                        assert(before[p] != before[at as int]);
                    }
                    if before.to_set().remove(key@).contains(k) {
                        let i = choose|i: int| 0 <= i < before.len() && before[i] == k;
                        if i < at {
                            assert(after[i] == k);
                        } else {
                            assert(after[i - 1] == k);
                        }
                    }
                }
            }
        }
        self.keys = keys;
        true
    }

    /// The set of the keys of a list.
    pub fn from_list(list: Vec<SubscriptionKey>) -> (set: KeySet)
        ensures
            set@ == domain::key_views(list@).to_set(),
    {
        let mut set = KeySet::new();
        let mut i: usize = 0;
        let ghost all = domain::key_views(list@);
        proof {
            assert(all.take(0).to_set() =~= Set::empty());
        }
        while i < list.len()
            invariant
                i <= list@.len(),
                all == domain::key_views(list@),
                set@ == all.take(i as int).to_set(),
            decreases list.len() - i,
        {
            let _new = set.insert(list[i].clone());
            proof {
                lemma_take_to_set(all, i as int);
            }
            i += 1;
        }
        proof {
            assert(all.take(i as int) == all);
        }
        set
    }

    /// The keys of this set that are not in the other, in order.
    pub fn difference(&self, other: &KeySet) -> (list: Vec<SubscriptionKey>)
        ensures
            enumerates(domain::key_views(list@), self@.difference(other@)),
    {
        self.selected(other, false)
    }

    /// The keys of this set that are in the other too, in order.
    pub fn intersection(&self, other: &KeySet) -> (list: Vec<SubscriptionKey>)
        ensures
            enumerates(domain::key_views(list@), self@.intersect(other@)),
    {
        self.selected(other, true)
    }

    /// The keys of the set in order.
    pub fn to_vec(&self) -> (list: Vec<SubscriptionKey>)
        ensures
            domain::key_views(list@) == self.list(),
            enumerates(self.list(), self@),
    {
        let copy = self.clone();
        proof {
            use_type_invariant(self);
        }
        copy.keys
    }

    /// The set of the keys of this set that are not in the other.
    pub fn minus(&self, other: &KeySet) -> (set: KeySet)
        ensures
            set@ == self@.difference(other@),
    {
        KeySet::from_list(self.difference(other))
    }

    /// The set of the keys of this set that are in the other too.
    pub fn common(&self, other: &KeySet) -> (set: KeySet)
        ensures
            set@ == self@.intersect(other@),
    {
        KeySet::from_list(self.intersection(other))
    }

    /// Put every key of another set into this one.
    pub fn extend(&mut self, other: &KeySet)
        ensures
            final(self)@ == old(self)@.union(other@),
    {
        let n = other.len();
        let ghost all = other.list();
        let mut i: usize = 0;
        proof {
            assert(all.take(0).to_set() =~= Set::empty());
            assert(old(self)@.union(Set::empty()) =~= old(self)@);
        }
        while i < n
            invariant
                i <= n,
                n == all.len(),
                all == other.list(),
                self@ == old(self)@.union(all.take(i as int).to_set()),
            decreases n - i,
        {
            let _new = self.insert(other.get(i).clone());
            proof {
                lemma_take_to_set(all, i as int);
                assert(self@ =~= old(self)@.union(all.take(i + 1).to_set()));
            }
            i += 1;
        }
        proof {
            assert(all.take(n as int) =~= all);
        }
    }

    /// The keys of this set that are, or are not, in the other, in order.
    fn selected(&self, other: &KeySet, wanted: bool) -> (list: Vec<SubscriptionKey>)
        ensures
            enumerates(
                domain::key_views(list@),
                if wanted {
                    self@.intersect(other@)
                } else {
                    self@.difference(other@)
                },
            ),
    {
        proof {
            use_type_invariant(self);
        }
        let ghost goal = if wanted {
            self@.intersect(other@)
        } else {
            self@.difference(other@)
        };
        let ghost all = self.list();
        let mut list: Vec<SubscriptionKey> = Vec::new();
        let mut i: usize = 0;
        while i < self.keys.len()
            invariant
                i <= self.keys@.len(),
                all == domain::key_views(self.keys@),
                all == self.list(),
                ascending(all),
                goal == if wanted {
                    self@.intersect(other@)
                } else {
                    self@.difference(other@)
                },
                ascending(domain::key_views(list@)),
                forall|k: KeyView| #[trigger]
                    domain::key_views(list@).contains(k) <==> all.take(i as int).contains(k)
                        && goal.contains(k),
            decreases self.keys.len() - i,
        {
            let ghost before = domain::key_views(list@);
            let ghost current = self.keys@[i as int]@;
            proof {
                assert(all[i as int] == current);
                assert(all.to_set().contains(current));
                lemma_take_contains(all, i as int);
            }
            if other.contains(&self.keys[i]) == wanted {
                list.push(self.keys[i].clone());
                proof {
                    let after = domain::key_views(list@);
                    assert(after =~= before.push(current));
                    assert(ascending(after)) by {
                        assert forall|p: int, q: int| 0 <= p < q < after.len() implies key_less(
                            #[trigger] after[p],
                            #[trigger] after[q],
                        ) by {
                            if q == before.len() {
                                assert(before.contains(before[p]));
                                let r = choose|r: int|
                                    0 <= r < all.take(i as int).len() && all.take(i as int)[r]
                                        == before[p];
                                assert(key_less(all[r], all[i as int]));
                            } else {
                                assert(key_less(before[p], before[q]));
                            }
                        }
                    }
                    assert forall|k: KeyView| #[trigger] after.contains(k) <==> all.take(
                        i + 1,
                    ).contains(k) && goal.contains(k) by {
                        if after.contains(k) && k != current {
                            let r = choose|r: int| 0 <= r < after.len() && after[r] == k;
                            assert(before[r] == k);
                        }
                        if before.contains(k) {
                            let r = choose|r: int| 0 <= r < before.len() && before[r] == k;
                            assert(after[r] == k);
                        }
                        assert(after[before.len() as int] == current);
                    }
                }
            }
            i += 1;
        }
        proof {
            assert(all.take(i as int) == all);
            let result = domain::key_views(list@);
            assert forall|k: KeyView| result.to_set().contains(k) == goal.contains(k) by {
                if goal.contains(k) {
                    assert(all.to_set().contains(k));
                    assert(all.contains(k));
                    assert(result.contains(k));
                }
                if result.to_set().contains(k) {
                    assert(result.contains(k));
                }
            }
            assert(result.to_set() =~= goal);
        }
        list
    }
}

/// What a longer prefix of a list holds beside a shorter one.
pub proof fn lemma_take_contains(list: Seq<KeyView>, i: int)
    requires
        0 <= i < list.len(),
    ensures
        forall|k: KeyView| #[trigger]
            list.take(i + 1).contains(k) <==> list.take(i).contains(k) || k == list[i],
{
    assert forall|k: KeyView| #[trigger] list.take(i + 1).contains(k) <==> list.take(i).contains(k)
        || k == list[i] by {
        if list.take(i + 1).contains(k) {
            let longer = list.take(i + 1);
            let r = choose|r: int| 0 <= r < longer.len() && longer[r] == k;
            if r < i {
                assert(list.take(i)[r] == k);
            }
        }
        if list.take(i).contains(k) {
            let r = choose|r: int| 0 <= r < list.take(i).len() && list.take(i)[r] == k;
            assert(list.take(i + 1)[r] == k);
        }
        assert(list.take(i + 1)[i] == list[i]);
    }
}

/// The set of a longer prefix of a list.
pub proof fn lemma_take_to_set(list: Seq<KeyView>, i: int)
    requires
        0 <= i < list.len(),
    ensures
        list.take(i + 1).to_set() == list.take(i).to_set().insert(list[i]),
{
    lemma_take_contains(list, i);
    assert forall|k: KeyView| list.take(i + 1).to_set().contains(k) == list.take(i).to_set().insert(
        list[i],
    ).contains(k) by {
        assert(list.take(i + 1).contains(k) <==> list.take(i).contains(k) || k == list[i]);
    }
    assert(list.take(i + 1).to_set() =~= list.take(i).to_set().insert(list[i]));
}

impl Clone for KeySet {
    fn clone(&self) -> (copy: Self)
        ensures
            copy@ == self@,
            copy.list() == self.list(),
    {
        proof {
            use_type_invariant(self);
        }
        let mut keys: Vec<SubscriptionKey> = Vec::new();
        let mut i: usize = 0;
        while i < self.keys.len()
            invariant
                i <= self.keys@.len(),
                domain::key_views(keys@) == domain::key_views(self.keys@).take(i as int),
            decreases self.keys.len() - i,
        {
            let ghost before = keys@;
            keys.push(self.keys[i].clone());
            proof {
                assert(domain::key_views(keys@) =~= domain::key_views(before).push(
                    self.keys@[i as int]@,
                ));
                assert(domain::key_views(self.keys@).take(i + 1) =~= domain::key_views(
                    self.keys@,
                ).take(i as int).push(self.keys@[i as int]@));
            }
            i += 1;
        }
        proof {
            assert(domain::key_views(self.keys@).take(i as int) =~= domain::key_views(self.keys@));
        }
        KeySet { keys }
    }
}

} // verus!
