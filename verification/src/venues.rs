//! Sets of venues.
use vstd::prelude::*;

use crate::domain::Provider;

verus! {

/// Every venue, in the order of venues.
pub open spec fn every_provider() -> Seq<Provider> {
    seq![
        Provider::Bybit,
        Provider::Binance,
        Provider::Okx,
        Provider::Kucoin,
        Provider::Mexc,
        Provider::Bingx,
    ]
}

/// The venues of a list that a set holds, in the order of the list.
pub open spec fn members_of(list: Seq<Provider>, set: Set<Provider>) -> Seq<Provider>
    decreases list.len(),
{
    if list.len() == 0 {
        Seq::empty()
    } else if set.contains(list.last()) {
        members_of(list.drop_last(), set).push(list.last())
    } else {
        members_of(list.drop_last(), set)
    }
}

/// Every venue, in the order of venues.
pub fn all_providers() -> (list: Vec<Provider>)
    ensures
        list@ == every_provider(),
        forall|provider: Provider| #[trigger] list@.contains(provider),
{
    let list = vec![
        Provider::Bybit,
        Provider::Binance,
        Provider::Okx,
        Provider::Kucoin,
        Provider::Mexc,
        Provider::Bingx,
    ];
    proof {
        assert(list@ =~= every_provider());
        assert forall|provider: Provider| #[trigger] list@.contains(provider) by {
            let at: int = match provider {
                Provider::Bybit => 0,
                Provider::Binance => 1,
                Provider::Okx => 2,
                Provider::Kucoin => 3,
                Provider::Mexc => 4,
                Provider::Bingx => 5,
            };
            assert(list@[at] == provider);
        }
    }
    list
}

/// A set of venues.
#[derive(Debug, Clone, Copy, PartialEq, Eq)]
pub struct ProviderSet {
    bybit: bool,
    binance: bool,
    okx: bool,
    kucoin: bool,
    mexc: bool,
    bingx: bool,
}

impl View for ProviderSet {
    type V = Set<Provider>;

    closed spec fn view(&self) -> Set<Provider> {
        Set::new(|provider: Provider| self.has(provider))
    }
}

impl ProviderSet {
    /// Whether the set holds a venue.
    spec fn has(&self, provider: Provider) -> bool {
        match provider {
            Provider::Bybit => self.bybit,
            Provider::Binance => self.binance,
            Provider::Okx => self.okx,
            Provider::Kucoin => self.kucoin,
            Provider::Mexc => self.mexc,
            Provider::Bingx => self.bingx,
        }
    }

    /// The set without venues.
    pub fn new() -> (set: ProviderSet)
        ensures
            set@ == Set::<Provider>::empty(),
    {
        let set = ProviderSet {
            bybit: false,
            binance: false,
            okx: false,
            kucoin: false,
            mexc: false,
            bingx: false,
        };
        proof {
            assert(set@ =~= Set::empty());
        }
        set
    }

    /// The set of all venues.
    pub fn all() -> (set: ProviderSet)
        ensures
            set@ == Set::<Provider>::full(),
    {
        let set = ProviderSet {
            bybit: true,
            binance: true,
            okx: true,
            kucoin: true,
            mexc: true,
            bingx: true,
        };
        proof {
            assert(set@ =~= Set::full());
        }
        set
    }

    /// The set of the venues of a list.
    pub fn from_list(list: &[Provider]) -> (set: ProviderSet)
        ensures
            set@ == list@.to_set(),
    {
        let mut set = ProviderSet::new();
        let mut i: usize = 0;
        proof {
            assert(list@.take(0).to_set() =~= Set::empty());
        }
        while i < list.len()
            invariant
                i <= list@.len(),
                set@ == list@.take(i as int).to_set(),
            decreases list.len() - i,
        {
            proof {
                let longer = list@.take(i + 1);
                assert(longer =~= list@.take(i as int).push(list@[i as int]));
                assert forall|p: Provider| longer.to_set().contains(p) == list@.take(
                    i as int,
                ).to_set().insert(list@[i as int]).contains(p) by {
                    if list@.take(i as int).contains(p) {
                        let k = choose|k: int| 0 <= k < i && list@.take(i as int)[k] == p;
                        assert(longer[k] == p);
                    }
                    if p == list@[i as int] {
                        assert(longer[i as int] == p);
                    }
                }
                assert(longer.to_set() =~= list@.take(i as int).to_set().insert(list@[i as int]));
            }
            set.insert(list[i]);
            i += 1;
        }
        proof {
            assert(list@.take(i as int) =~= list@);
        }
        set
    }

    /// Whether the set holds a venue.
    pub fn contains(&self, provider: Provider) -> (answer: bool)
        ensures
            answer == self@.contains(provider),
    {
        match provider {
            Provider::Bybit => self.bybit,
            Provider::Binance => self.binance,
            Provider::Okx => self.okx,
            Provider::Kucoin => self.kucoin,
            Provider::Mexc => self.mexc,
            Provider::Bingx => self.bingx,
        }
    }

    /// Put a venue into the set.
    pub fn insert(&mut self, provider: Provider)
        ensures
            final(self)@ == old(self)@.insert(provider),
    {
        match provider {
            Provider::Bybit => {
                self.bybit = true;
            },
            Provider::Binance => {
                self.binance = true;
            },
            Provider::Okx => {
                self.okx = true;
            },
            Provider::Kucoin => {
                self.kucoin = true;
            },
            Provider::Mexc => {
                self.mexc = true;
            },
            Provider::Bingx => {
                self.bingx = true;
            },
        }
        proof {
            assert(self@ =~= old(self)@.insert(provider));
        }
    }

    /// The venues of the set, in the order of venues.
    pub fn to_vec(&self) -> (list: Vec<Provider>)
        ensures
            list@ == members_of(every_provider(), self@),
    {
        let every = all_providers();
        let mut list: Vec<Provider> = Vec::new();
        let mut i: usize = 0;
        while i < every.len()
            invariant
                i <= every@.len(),
                every@ == every_provider(),
                list@ == members_of(every@.take(i as int), self@),
            decreases every.len() - i,
        {
            proof {
                assert(every@.take(i + 1).drop_last() =~= every@.take(i as int));
            }
            if self.contains(every[i]) {
                list.push(every[i]);
            }
            i += 1;
        }
        proof {
            assert(every@.take(i as int) =~= every@);
        }
        list
    }
}

} // verus!
