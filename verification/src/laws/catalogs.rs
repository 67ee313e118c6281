//! What the catalog lists, and what is found in it.
use vstd::prelude::*;

use crate::catalog;
use crate::catalog::{Catalog, CatalogFilter, InstrumentView};
use crate::domain::Provider;
use crate::laws;
use crate::text;
use crate::venues;

verus! {

/// Whether two characters are the same, or the small and the capital form of one ASCII letter.
pub open spec fn same_letter(a: char, b: char) -> bool {
    ||| a == b
    ||| 'a' <= a <= 'z' && b as int == a as int - 32
    ||| 'A' <= a <= 'Z' && b as int == a as int + 32
}

/// Whether two texts are the same but for the case of ASCII letters.
pub open spec fn same_but_for_case(a: Seq<char>, b: Seq<char>) -> bool {
    a.len() == b.len() && forall|i: int| 0 <= i < a.len() ==> same_letter(#[trigger] a[i], b[i])
}

proof fn lemma_same_letter(a: char, b: char)
    ensures
        (text::lower(a) == text::lower(b)) == same_letter(a, b),
{
    assert('A' <= a <= 'Z' ==> text::lower(a) as int == a as int + 32);
    assert('A' <= b <= 'Z' ==> text::lower(b) as int == b as int + 32);
}

proof fn lemma_same_but_for_case(a: Seq<char>, b: Seq<char>)
    ensures
        (text::lowered(a) == text::lowered(b)) == same_but_for_case(a, b),
{
    let x = text::lowered(a);
    let y = text::lowered(b);
    if x == y {
        assert(x.len() == a.len() && y.len() == b.len());
        assert forall|i: int| 0 <= i < a.len() implies same_letter(#[trigger] a[i], b[i]) by {
            assert(x[i] == y[i]);
            lemma_same_letter(a[i], b[i]);
        }
    }
    if same_but_for_case(a, b) {
        assert forall|i: int| 0 <= i < a.len() implies #[trigger] x[i] == y[i] by {
            lemma_same_letter(a[i], b[i]);
        }
        assert(x =~= y);
    }
}

/// Whether an instrument has every value that a filter names: the venue and the market exactly, the
/// symbol and the assets but for the case of letters.
pub open spec fn has_named_values(filter: CatalogFilter, instrument: InstrumentView) -> bool {
    &&& filter.provider matches Some(provider) ==> instrument.provider == provider
    &&& filter.market matches Some(market) ==> instrument.market == market
    &&& filter.symbol matches Some(symbol) ==> same_but_for_case(symbol@, instrument.symbol)
    &&& filter.base_asset matches Some(asset) ==> same_but_for_case(asset@, instrument.base_asset)
    &&& filter.quote_asset matches Some(asset) ==> same_but_for_case(asset@, instrument.quote_asset)
    &&& filter.settle_asset matches Some(asset) ==> same_but_for_case(
        asset@,
        instrument.settle_asset,
    )
}

proof fn lemma_passes(filter: CatalogFilter, instrument: InstrumentView)
    ensures
        filter.passes(instrument) == has_named_values(filter, instrument),
{
    if let Some(symbol) = filter.symbol {
        lemma_same_but_for_case(symbol@, instrument.symbol);
    }
    if let Some(asset) = filter.base_asset {
        lemma_same_but_for_case(asset@, instrument.base_asset);
    }
    if let Some(asset) = filter.quote_asset {
        lemma_same_but_for_case(asset@, instrument.quote_asset);
    }
    if let Some(asset) = filter.settle_asset {
        lemma_same_but_for_case(asset@, instrument.settle_asset);
    }
}

/// Whether places go up.
pub open spec fn going_up(places: Seq<int>, end: int) -> bool {
    &&& forall|i: int| 0 <= i < places.len() ==> 0 <= #[trigger] places[i] < end
    &&& forall|i: int, j: int|
        0 <= i < j < places.len() ==> (#[trigger] places[i]) < (#[trigger] places[j])
}

/// A filter keeps, in their order, exactly the instruments that have every value that it names.
pub proof fn law_filters_keep_what_has_the_named_values(
    list: Seq<InstrumentView>,
    filter: CatalogFilter,
) -> (places: Seq<int>)
    ensures
        catalog::passing(list, filter).len() == places.len(),
        going_up(places, list.len() as int),
        forall|i: int|
            0 <= i < places.len() ==> #[trigger] catalog::passing(list, filter)[i]
                == list[places[i]],
        forall|k: int|
            0 <= k < list.len() ==> (has_named_values(filter, #[trigger] list[k])
                == places.contains(k)),
    decreases list.len(),
{
    if list.len() == 0 {
        Seq::empty()
    } else {
        let rest = list.drop_last();
        let last = list.len() - 1;
        let before = law_filters_keep_what_has_the_named_values(rest, filter);
        lemma_passes(filter, list.last());
        let kept = catalog::passing(rest, filter);
        assert forall|i: int| 0 <= i < before.len() implies #[trigger] kept[i]
            == list[before[i]] by {
            assert(0 <= before[i] < last);
        }
        let places = if filter.passes(list.last()) {
            before.push(last)
        } else {
            before
        };
        assert forall|k: int| 0 <= k < list.len() implies (has_named_values(
            filter,
            #[trigger] list[k],
        ) == places.contains(k)) by {
            laws::lemma_pushed(before, last, k);
            if k < last {
                assert(rest[k] == list[k]);
            } else if before.contains(last) {
                let i = choose|i: int| 0 <= i < before.len() && before[i] == last;
                assert(0 <= before[i] < last);
            }
        }
        assert forall|i: int| 0 <= i < places.len() implies #[trigger] catalog::passing(
            list,
            filter,
        )[i] == list[places[i]] by {
            if i < before.len() {
                assert(kept[i] == list[before[i]]);
            }
        }
        places
    }
}

/// What a catalog holds is what its snapshots hold, venue after venue.
pub proof fn law_everything_is_what_the_venues_list(catalog: Catalog)
    ensures
        catalog.everything() == catalog.snapshot(Provider::Bybit).instruments + catalog.snapshot(
            Provider::Binance,
        ).instruments + catalog.snapshot(Provider::Okx).instruments + catalog.snapshot(
            Provider::Kucoin,
        ).instruments + catalog.snapshot(Provider::Mexc).instruments + catalog.snapshot(
            Provider::Bingx,
        ).instruments,
{
    let every = seq![
        Provider::Bybit,
        Provider::Binance,
        Provider::Okx,
        Provider::Kucoin,
        Provider::Mexc,
        Provider::Bingx,
    ];
    assert(venues::every_provider() =~= every);
    let five = every.drop_last();
    let four = five.drop_last();
    let three = four.drop_last();
    let two = three.drop_last();
    let one = two.drop_last();
    reveal_with_fuel(Catalog::instruments_of, 8);
    assert(one.drop_last() =~= Seq::empty());
    assert(catalog.instruments_of(one) =~= catalog.snapshot(Provider::Bybit).instruments);
    assert(catalog.everything() =~= catalog.snapshot(Provider::Bybit).instruments
        + catalog.snapshot(Provider::Binance).instruments + catalog.snapshot(
        Provider::Okx,
    ).instruments + catalog.snapshot(Provider::Kucoin).instruments + catalog.snapshot(
        Provider::Mexc,
    ).instruments + catalog.snapshot(Provider::Bingx).instruments);
}

} // verus!
