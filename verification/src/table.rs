//! Small tables that associate values with keys compared by their mathematical value.
use vstd::prelude::*;

use crate::domain::SubscriptionKey;
use crate::keyset;
use crate::text;

verus! {

/// A key that can be compared with another by its mathematical value.
pub trait TableKey: Sized + View {
    /// Whether two keys have the same value.
    fn same_as(&self, other: &Self) -> (equal: bool)
        ensures
            equal == (self@ == other@),
    ;
}

impl TableKey for SubscriptionKey {
    fn same_as(&self, other: &Self) -> (equal: bool) {
        keyset::same_key(self, other)
    }
}

impl TableKey for String {
    fn same_as(&self, other: &Self) -> (equal: bool) {
        text::same(self.as_str(), other.as_str())
    }
}

/// One association of a table.
#[derive(Debug)]
struct Entry<K, V> {
    key: K,
    value: V,
}

/// A table with at most one value for each key.
#[derive(Debug)]
pub struct Table<K: TableKey, V> {
    entries: Vec<Entry<K, V>>,
}

impl<K: TableKey, V> Table<K, V> {
    /// The place of the key in the list of associations.
    spec fn slot(&self, key: K::V) -> int {
        choose|i: int| 0 <= i < self.entries@.len() && #[trigger] self.entries@[i].key@ == key
    }

    /// Whether the list of associations has the key.
    spec fn listed(&self, key: K::V) -> bool {
        exists|i: int| 0 <= i < self.entries@.len() && #[trigger] self.entries@[i].key@ == key
    }

    /// No key occurs twice.
    #[verifier::type_invariant]
    spec fn distinct(&self) -> bool {
        forall|i: int, j: int|
            0 <= i < self.entries@.len() && 0 <= j < self.entries@.len() && i != j ==> (
            #[trigger] self.entries@[i]).key@ != (#[trigger] self.entries@[j]).key@
    }

    /// The associations of the table.
    pub closed spec fn view(&self) -> Map<K::V, V> {
        Map::new(|key: K::V| self.listed(key), |key: K::V| self.entries@[self.slot(key)].value)
    }

    /// The table without associations.
    pub fn new() -> (table: Self)
        ensures
            table@ == Map::<K::V, V>::empty(),
    {
        let table = Table { entries: Vec::new() };
        proof {
            assert(table@ =~= Map::empty());
        }
        table
    }

    /// The place of the key, or the number of associations where it has none.
    fn position(&self, key: &K) -> (at: usize)
        ensures
            at <= self.entries@.len(),
            at < self.entries@.len() ==> self.entries@[at as int].key@ == key@,
            at < self.entries@.len() <==> self.listed(key@),
    {
        let mut i: usize = 0;
        while i < self.entries.len()
            invariant
                i <= self.entries@.len(),
                forall|k: int| 0 <= k < i ==> #[trigger] self.entries@[k].key@ != key@,
            decreases self.entries.len() - i,
        {
            if self.entries[i].key.same_as(key) {
                return i;
            }
            i += 1;
        }
        i
    }

    /// The value of a key.
    pub fn get(&self, key: &K) -> (value: Option<&V>)
        ensures
            match value {
                Some(found) => self@.contains_key(key@) && *found == self@[key@],
                None => !self@.contains_key(key@),
            },
    {
        let at = self.position(key);
        proof {
            use_type_invariant(self);
        }
        if at < self.entries.len() {
            proof {
                assert(self.slot(key@) == at);
            }
            Some(&self.entries[at].value)
        } else {
            None
        }
    }

    /// Whether the table has no association.
    pub fn is_empty(&self) -> (answer: bool)
        ensures
            answer == (self@ == Map::<K::V, V>::empty()),
    {
        let answer = self.entries.len() == 0;
        proof {
            if answer {
                assert(self@ =~= Map::empty());
            } else {
                assert(self@.contains_key(self.entries@[0].key@));
            }
        }
        answer
    }

    /// Take the association of a key out of the table.
    pub fn remove(&mut self, key: &K) -> (value: Option<V>)
        ensures
            final(self)@ == old(self)@.remove(key@),
            match value {
                Some(found) => old(self)@.contains_key(key@) && found == old(self)@[key@],
                None => !old(self)@.contains_key(key@),
            },
    {
        let at = self.position(key);
        proof {
            use_type_invariant(&*self);
        }
        if at < self.entries.len() {
            let ghost before = *self;
            let mut entries: Vec<Entry<K, V>> = Vec::new();
            core::mem::swap(&mut entries, &mut self.entries);
            let gone = entries.swap_remove(at);
            let ghost after = Table { entries };
            proof {
                let n = before.entries@.len();
                assert(after.distinct());
                assert(before.slot(key@) == at);
                assert forall|k: K::V| after.listed(k) <==> before.listed(k) && k != key@ by {
                    if after.listed(k) {
                        let i = after.slot(k);
                        if i == at {
                            assert(before.entries@[n - 1].key@ == k);
                        } else {
                            assert(before.entries@[i].key@ == k);
                        }
                    }
                    if before.listed(k) && k != key@ {
                        let i = before.slot(k);
                        if i == n - 1 {
                            assert(after.entries@[at as int].key@ == k);
                        } else {
                            assert(after.entries@[i].key@ == k);
                        }
                    }
                }
                assert forall|k: K::V| after.listed(k) implies after@[k] == before@[k] by {
                    let i = after.slot(k);
                    let j = if i == at { n - 1 } else { i };
                    assert(before.entries@[j].key@ == k);
                    assert(before.slot(k) == j);
                }
                assert(after@ =~= before@.remove(key@));
            }
            self.entries = entries;
            Some(gone.value)
        } else {
            proof {
                assert(self@ =~= old(self)@.remove(key@));
            }
            None
        }
    }

    /// Give a key a value, in place of the one that it may have.
    pub fn insert(&mut self, key: K, value: V)
        ensures
            final(self)@ == old(self)@.insert(key@, value),
    {
        let ghost original = self@;
        let ghost name = key@;
        let _previous = self.remove(&key);
        proof {
            use_type_invariant(&*self);
        }
        let ghost before = *self;
        proof {
            assert(!before@.contains_key(name));
        }
        let mut entries: Vec<Entry<K, V>> = Vec::new();
        core::mem::swap(&mut entries, &mut self.entries);
        entries.push(Entry { key, value });
        let ghost after = Table { entries };
        proof {
            let n = before.entries@.len() as int;
            assert(!before.listed(name));
            assert(after.distinct()) by {
                assert forall|i: int, j: int|
                    0 <= i < after.entries@.len() && 0 <= j < after.entries@.len() && i != j implies (
                #[trigger] after.entries@[i]).key@ != (#[trigger] after.entries@[j]).key@ by {
                    if i < n {
                        assert(after.entries@[i] == before.entries@[i]);
                    }
                    if j < n {
                        assert(after.entries@[j] == before.entries@[j]);
                    }
                }
            }
            assert(after.entries@[n].key@ == name);
            assert forall|k: K::V| after.listed(k) <==> before.listed(k) || k == name by {
                if after.listed(k) && k != name {
                    let i = after.slot(k);
                    assert(before.entries@[i].key@ == k);
                }
                if before.listed(k) {
                    let i = before.slot(k);
                    assert(after.entries@[i].key@ == k);
                }
            }
            assert forall|k: K::V| after.listed(k) implies after@[k] == original.insert(
                name,
                value,
            )[k] by {
                if k == name {
                    assert(after.slot(k) == n);
                } else {
                    let i = after.slot(k);
                    assert(before.entries@[i].key@ == k);
                    assert(before.slot(k) == i);
                    assert(before@[k] == original[k]);
                }
            }
            assert forall|k: K::V| after.listed(k) == original.insert(name, value).contains_key(
                k,
            ) by {
                assert(before@.contains_key(k) == before.listed(k));
            }
            assert(after@ =~= original.insert(name, value));
        }
        self.entries = entries;
    }
}

} // verus!
