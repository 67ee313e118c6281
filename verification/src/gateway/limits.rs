//! Subscription limits of the venues.
use vstd::prelude::*;

use crate::domain::Provider;
use crate::keyset;

verus! {

/// The number of venues.
pub const PROVIDER_COUNT: usize = 6;

/// The venue at a place in the order of venues.
pub fn provider_at(rank: usize) -> (provider: Provider)
    requires
        rank < PROVIDER_COUNT,
    ensures
        keyset::provider_rank(provider) == rank,
{
    if rank == 0 {
        Provider::Bybit
    } else if rank == 1 {
        Provider::Binance
    } else if rank == 2 {
        Provider::Okx
    } else if rank == 3 {
        Provider::Kucoin
    } else if rank == 4 {
        Provider::Mexc
    } else {
        Provider::Bingx
    }
}

/// The most subscriptions that each venue takes, with a default for venues that declare none.
#[derive(Debug, PartialEq, Eq)]
pub struct ProviderLimits {
    table: Vec<Option<usize>>,
    default: usize,
}

/// The associations of a list, of which a later one replaces an earlier one.
pub open spec fn declared(list: Seq<(Provider, usize)>) -> Map<Provider, usize>
    decreases list.len(),
{
    if list.len() == 0 {
        Map::empty()
    } else {
        declared(list.drop_last()).insert(list.last().0, list.last().1)
    }
}

/// Whether a number is the least of the declared limits, or the default where there are none.
pub open spec fn is_least(entries: Map<Provider, usize>, default: usize, n: usize) -> bool {
    if entries.dom() == Set::<Provider>::empty() {
        n == default
    } else {
        &&& exists|p: Provider| #[trigger] entries.contains_key(p) && entries[p] == n
        &&& forall|p: Provider| #[trigger] entries.contains_key(p) ==> n <= entries[p]
    }
}

impl ProviderLimits {
    /// There is a place for each venue.
    #[verifier::type_invariant]
    spec fn complete(&self) -> bool {
        self.table@.len() == PROVIDER_COUNT
    }

    /// The declared limits.
    pub closed spec fn view(&self) -> Map<Provider, usize> {
        Map::new(
            |p: Provider| self.table@[keyset::provider_rank(p)] is Some,
            |p: Provider| self.table@[keyset::provider_rank(p)]->0,
        )
    }

    /// The limit for venues that declare none.
    pub closed spec fn default_limit(&self) -> usize {
        self.default
    }

    /// The limit of a venue.
    pub open spec fn limit_of(&self, provider: Provider) -> usize {
        if self@.contains_key(provider) {
            self@[provider]
        } else {
            self.default_limit()
        }
    }

    /// Limits from a list of declarations.
    pub fn new(entries: Vec<(Provider, usize)>, default: usize) -> (limits: Self)
        ensures
            limits@ == declared(entries@),
            limits.default_limit() == default,
    {
        let mut table: Vec<Option<usize>> = Vec::new();
        let mut rank: usize = 0;
        while rank < PROVIDER_COUNT
            invariant
                rank <= PROVIDER_COUNT,
                table@.len() == rank,
                forall|k: int| 0 <= k < rank ==> table@[k] is None,
            decreases PROVIDER_COUNT - rank,
        {
            table.push(None);
            rank += 1;
        }
        let mut limits = ProviderLimits { table, default };
        let mut i: usize = 0;
        proof {
            assert(entries@.take(0) =~= Seq::empty());
            assert(limits@ =~= declared(entries@.take(0)));
        }
        while i < entries.len()
            invariant
                i <= entries@.len(),
                limits@ == declared(entries@.take(i as int)),
                limits.default_limit() == default,
            decreases entries.len() - i,
        {
            proof {
                use_type_invariant(&limits);
                assert(entries@.take(i + 1).drop_last() =~= entries@.take(i as int));
            }
            let (provider, limit) = entries[i];
            let at = keyset::rank_of(provider) as usize;
            let ghost before = limits;
            let mut table: Vec<Option<usize>> = limits.table;
            table.set(at, Some(limit));
            limits = ProviderLimits { table, default };
            proof {
                assert(limits@ =~= before@.insert(provider, limit));
            }
            i += 1;
        }
        proof {
            assert(entries@.take(i as int) =~= entries@);
        }
        limits
    }

    /// The same limit for every venue.
    pub fn uniform(limit: usize) -> (limits: Self)
        ensures
            limits@ == Map::<Provider, usize>::empty(),
            limits.default_limit() == limit,
            forall|p: Provider| #[trigger] limits.limit_of(p) == limit,
    {
        let limits = ProviderLimits::new(Vec::new(), limit);
        proof {
            assert(limits@ =~= Map::empty());
        }
        limits
    }

    /// The limit of a venue.
    pub fn limit_for(&self, provider: Provider) -> (limit: usize)
        ensures
            limit == self.limit_of(provider),
    {
        proof {
            use_type_invariant(self);
        }
        match self.table[keyset::rank_of(provider) as usize] {
            Some(limit) => limit,
            None => self.default,
        }
    }

    /// The ceiling that is safe to apply to every venue alike: the least of the declared limits,
    /// or the default where none is declared.
    pub fn minimum(&self) -> (least: usize)
        ensures
            is_least(self@, self.default_limit(), least),
    {
        proof {
            use_type_invariant(self);
        }
        let mut found: Option<usize> = None;
        let mut rank: usize = 0;
        while rank < PROVIDER_COUNT
            invariant
                rank <= PROVIDER_COUNT,
                self.table@.len() == PROVIDER_COUNT,
                match found {
                    None => forall|p: Provider|
                        keyset::provider_rank(p) < rank ==> !#[trigger] self@.contains_key(p),
                    Some(n) => {
                        &&& exists|p: Provider| #[trigger] self@.contains_key(p) && self@[p] == n
                        &&& forall|p: Provider|
                            keyset::provider_rank(p) < rank && #[trigger] self@.contains_key(p)
                                ==> n <= self@[p]
                    },
                },
            decreases PROVIDER_COUNT - rank,
        {
            let provider = provider_at(rank);
            proof {
                assert forall|p: Provider| keyset::provider_rank(p) == rank implies p
                    == provider by {}
            }
            if let Some(limit) = self.table[rank] {
                proof {
                    assert(self@.contains_key(provider) && self@[provider] == limit);
                }
                found = match found {
                    Some(n) => Some(if n <= limit { n } else { limit }),
                    None => Some(limit),
                };
            } else {
                proof {
                    assert(!self@.contains_key(provider));
                }
            }
            rank += 1;
        }
        proof {
            assert forall|p: Provider| keyset::provider_rank(p) < PROVIDER_COUNT by {}
            if found is None {
                assert(self@.dom() =~= Set::empty());
            } else {
                let p = choose|p: Provider| #[trigger] self@.contains_key(p) && self@[p] == found->0;
                assert(self@.dom().contains(p));
            }
        }
        match found {
            Some(n) => n,
            None => self.default,
        }
    }

    /// The declared limits in the order of venues.
    pub fn entries(&self) -> (list: Vec<(Provider, usize)>)
        ensures
            declared(list@) == self@,
            forall|i: int, j: int|
                0 <= i < j < list@.len() ==> keyset::provider_rank((#[trigger] list@[i]).0)
                    < keyset::provider_rank((#[trigger] list@[j]).0),
    {
        proof {
            use_type_invariant(self);
        }
        let mut list: Vec<(Provider, usize)> = Vec::new();
        let mut rank: usize = 0;
        while rank < PROVIDER_COUNT
            invariant
                rank <= PROVIDER_COUNT,
                self.table@.len() == PROVIDER_COUNT,
                forall|i: int|
                    0 <= i < list@.len() ==> keyset::provider_rank((#[trigger] list@[i]).0) < rank,
                forall|i: int, j: int|
                    0 <= i < j < list@.len() ==> keyset::provider_rank((#[trigger] list@[i]).0)
                        < keyset::provider_rank((#[trigger] list@[j]).0),
                forall|p: Provider| #[trigger]
                    declared(list@).contains_key(p) <==> keyset::provider_rank(p) < rank
                        && self@.contains_key(p),
                forall|p: Provider|
                    declared(list@).contains_key(p) ==> #[trigger] declared(list@)[p] == self@[p],
            decreases PROVIDER_COUNT - rank,
        {
            let provider = provider_at(rank);
            proof {
                assert forall|p: Provider| keyset::provider_rank(p) == rank implies p
                    == provider by {}
            }
            if let Some(limit) = self.table[rank] {
                let ghost before = list@;
                list.push((provider, limit));
                proof {
                    assert(self@.contains_key(provider) && self@[provider] == limit);
                    assert(list@.drop_last() =~= before);
                    assert(declared(list@) == declared(before).insert(provider, limit));
                }
            } else {
                proof {
                    assert(!self@.contains_key(provider));
                }
            }
            rank += 1;
        }
        proof {
            assert forall|p: Provider| keyset::provider_rank(p) < PROVIDER_COUNT by {}
            assert(declared(list@) =~= self@);
        }
        list
    }

    /// The limits with a ceiling on top of each: a ceiling only ever tightens a limit.
    pub fn tightened(&self, ceiling: usize) -> (limits: Self)
        ensures
            limits@.dom() == self@.dom(),
            limits.default_limit() == if self.default_limit() <= ceiling {
                self.default_limit()
            } else {
                ceiling
            },
            forall|p: Provider| #[trigger]
                limits.limit_of(p) == if self.limit_of(p) <= ceiling {
                    self.limit_of(p)
                } else {
                    ceiling
                },
    {
        proof {
            use_type_invariant(self);
        }
        let mut table: Vec<Option<usize>> = Vec::new();
        let mut rank: usize = 0;
        while rank < PROVIDER_COUNT
            invariant
                rank <= PROVIDER_COUNT,
                self.table@.len() == PROVIDER_COUNT,
                table@.len() == rank,
                forall|k: int|
                    0 <= k < rank ==> #[trigger] table@[k] == match self.table@[k] {
                        Some(limit) => Some(if limit <= ceiling { limit } else { ceiling }),
                        None => None::<usize>,
                    },
            decreases PROVIDER_COUNT - rank,
        {
            table.push(
                match self.table[rank] {
                    Some(limit) => Some(if limit <= ceiling { limit } else { ceiling }),
                    None => None,
                },
            );
            rank += 1;
        }
        let default = if self.default <= ceiling { self.default } else { ceiling };
        let limits = ProviderLimits { table, default };
        proof {
            assert forall|p: Provider| 0 <= #[trigger] keyset::provider_rank(p)
                < PROVIDER_COUNT by {}
            assert(limits@.dom() =~= self@.dom());
        }
        limits
    }
}

/// The ceiling that is safe for all venues exceeds no declared limit.
pub proof fn law_the_least_limit_is_safe(
    entries: Map<Provider, usize>,
    default: usize,
    least: usize,
    provider: Provider,
)
    requires
        is_least(entries, default, least),
        entries.contains_key(provider),
    ensures
        least <= entries[provider],
{
    assert(entries.dom().contains(provider));
}

} // verus!
