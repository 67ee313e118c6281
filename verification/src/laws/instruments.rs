//! What the lists of instruments of the venues mean.
use vstd::prelude::*;

use super::{says, tallies};
use crate::catalog;
use crate::catalog::payload;
use crate::catalog::{
    CandleFinalitySupport, CandleVolumeSupport, CatalogErrorView, InstrumentCapabilities,
    InstrumentStatus, InstrumentView,
};
use crate::decimal;
use crate::domain;
use crate::domain::{MarketKind, Provider};
use crate::json;
use crate::json::reading;
use crate::json::{JsonView, LayoutView};
use crate::laws;
use crate::text;

verus! {

// ---------------------------------------------------------------------------------------------
// Fields
// ---------------------------------------------------------------------------------------------

/// Whether an object has a text or a number of that name with that spelling.
pub open spec fn writes(object: JsonView, name: Seq<char>, raw: Seq<char>) -> bool {
    match json::member_of(object, name) {
        Some(JsonView::Text(text)) => text == raw,
        Some(JsonView::Number(number)) => number.text == raw,
        _ => false,
    }
}

/// Whether an object has a text or a number of that name with that spelling, or nothing.
pub open spec fn may_write(object: JsonView, name: Seq<char>, raw: Option<Seq<char>>) -> bool {
    match raw {
        Some(raw) => writes(object, name, raw),
        None => json::member_of(object, name) is None || json::member_of(object, name) == Some(
            JsonView::Null,
        ),
    }
}

/// Whether an object has an object of that name with such a field, or nothing.
pub open spec fn may_nest(
    object: JsonView,
    name: Seq<char>,
    inner: Seq<char>,
    raw: Option<Seq<char>>,
) -> bool {
    match raw {
        Some(raw) => match json::member_of(object, name) {
            Some(part) => part is Object && writes(part, inner, raw),
            None => false,
        },
        None => json::member_of(object, name) is None || json::member_of(object, name) == Some(
            JsonView::Null,
        ),
    }
}

/// Whether a text is a decimal above zero, with or without an exponent.
pub open spec fn is_positive(raw: Seq<char>) -> bool {
    match decimal::decimal_of(raw) {
        Some(number) => number.mantissa > 0,
        None => match decimal::scientific_of(raw) {
            Some(number) => number.mantissa > 0 && decimal::decimal_of(number.text) is Some,
            None => false,
        },
    }
}

/// A decimal without an exponent.
pub open spec fn plain(raw: Seq<char>) -> Seq<char> {
    if decimal::decimal_of(raw) is Some {
        raw
    } else {
        decimal::scientific_of(raw)->0.text
    }
}

/// Whether a text is a time in milliseconds, or stands for none.
pub open spec fn is_moment(raw: Option<Seq<char>>) -> bool {
    raw matches Some(raw) ==> raw.len() == 0 || (text::all_digits(raw) && text::digits_value(raw)
        <= u64::MAX)
}

/// A time. An empty text and a zero stand for none.
pub open spec fn moment(raw: Option<Seq<char>>) -> Option<u64> {
    match raw {
        Some(raw) => if raw.len() == 0 || raw == "0"@ {
            None
        } else {
            Some(text::digits_value(raw) as u64)
        },
        None => None,
    }
}

/// Whether a text can be the name of an asset: no white space and no control character, and not
/// longer than sixty-four bytes.
pub open spec fn is_asset(name: Seq<char>) -> bool {
    &&& 0 < name.len()
    &&& text::byte_length(name) <= 64
    &&& forall|i: int|
        0 <= i < name.len() ==> !text::is_white(#[trigger] name[i]) && name[i] as u32 >= 0x20 && !(
        0x7f <= name[i] as u32 <= 0x9f)
}

/// Whether a symbol is written as the venue and everyone else writes it.
pub open spec fn is_canonical(symbol: Seq<char>) -> bool {
    domain::symbol_identity(symbol) == Ok::<Seq<char>, domain::DomainErrorView>(symbol)
}

/// What a venue says of an instrument, as it spells it.
pub struct Entry {
    pub symbol: Seq<char>,
    pub base: Seq<char>,
    pub quote: Seq<char>,
    pub settle: Seq<char>,
    pub status: Seq<char>,
    pub tick: Seq<char>,
    pub step: Seq<char>,
    pub size: Option<Seq<char>>,
    pub size_asset: Option<Seq<char>>,
    pub leverage: Option<Seq<char>>,
    pub listed: Option<Seq<char>>,
    pub expires: Option<Seq<char>>,
}

/// Whether everything that a venue says of an instrument makes sense.
pub open spec fn is_sound(entry: Entry) -> bool {
    &&& is_canonical(entry.symbol)
    &&& is_asset(entry.base)
    &&& is_asset(entry.quote)
    &&& is_asset(entry.settle)
    &&& is_positive(entry.tick)
    &&& is_positive(entry.step)
    &&& entry.size matches Some(size) ==> is_positive(size)
    &&& entry.leverage matches Some(leverage) ==> is_positive(leverage)
    &&& is_moment(entry.listed)
    &&& is_moment(entry.expires)
}

/// The instrument of an entry: each field in its own place.
pub open spec fn instrument(provider: Provider, name: Seq<char>, entry: Entry) -> InstrumentView {
    InstrumentView {
        instrument_id: name + ":"@ + "linear_perpetual"@ + ":"@ + entry.symbol,
        symbol: entry.symbol,
        provider,
        market: MarketKind::LinearPerpetual,
        base_asset: entry.base,
        quote_asset: entry.quote,
        settle_asset: entry.settle,
        status: InstrumentStatus::Live,
        venue_status: entry.status,
        tick_size: plain(entry.tick),
        quantity_step: plain(entry.step),
        contract_size: match entry.size {
            Some(size) => Some(plain(size)),
            None => None,
        },
        contract_size_asset: entry.size_asset,
        max_leverage: match entry.leverage {
            Some(leverage) => Some(plain(leverage)),
            None => None,
        },
        listing_time_ms: moment(entry.listed),
        expiry_time_ms: moment(entry.expires),
        capabilities: InstrumentCapabilities {
            ticker: true,
            candle_1m: true,
            candle_1m_finality: match provider {
                Provider::Bybit | Provider::Binance | Provider::Okx =>
                    CandleFinalitySupport::Authoritative,
                _ => CandleFinalitySupport::Unknown,
            },
            candle_1m_volume: match provider {
                Provider::Kucoin => CandleVolumeSupport::Unavailable,
                _ => CandleVolumeSupport::Available,
            },
        },
    }
}

proof fn lemma_positive(field: Seq<char>, raw: Seq<char>)
    requires
        is_positive(raw),
    ensures
        payload::positive_problem(field, raw) is None,
        payload::positive_text(raw) == plain(raw),
{
}

proof fn lemma_moment(field: Seq<char>, raw: Option<Seq<char>>)
    requires
        is_moment(raw),
    ensures
        payload::time_problem(field, raw) is None,
        payload::time_of(raw) == moment(raw),
{
    if let Some(raw) = raw {
        if raw.len() > 0 {
            assert(text::is_digit(raw[0]));
            text::lemma_leading_digits(raw);
            assert(raw.take(raw.len() as int) =~= raw);
        }
    }
}

proof fn lemma_asset(field: Seq<char>, name: Seq<char>)
    requires
        is_asset(name),
    ensures
        payload::asset_problem(field, name) is None,
        payload::is_asset(name),
{
    assert forall|i: int| 0 <= i < name.len() implies !text::is_white(#[trigger] name[i])
        && !payload::is_control(name[i]) by {}
}

// ---------------------------------------------------------------------------------------------
// Lists
// ---------------------------------------------------------------------------------------------

/// The instruments of a list, without the places that have none.
pub open spec fn present(entries: Seq<Option<InstrumentView>>) -> Seq<InstrumentView>
    decreases entries.len(),
{
    if entries.len() == 0 {
        Seq::empty()
    } else {
        match entries.last() {
            Some(instrument) => present(entries.drop_last()).push(instrument),
            None => present(entries.drop_last()),
        }
    }
}

/// Whether two places of a list have instruments with one symbol.
pub open spec fn has_twice(entries: Seq<Option<InstrumentView>>) -> bool {
    exists|i: int, j: int|
        0 <= i < j < entries.len() && (#[trigger] entries[i]) is Some && (#[trigger] entries[j])
            is Some && entries[i]->0.symbol == entries[j]->0.symbol
}

/// Whether a result has exactly the instruments of a list: it is refused if and only if a symbol
/// comes twice.
pub open spec fn lists(
    result: Result<Seq<InstrumentView>, CatalogErrorView>,
    entries: Seq<Option<InstrumentView>>,
) -> bool {
    &&& result is Err <==> has_twice(entries)
    &&& result matches Ok(list) ==> {
        &&& list.len() == present(entries).len()
        &&& forall|instrument: InstrumentView| #[trigger]
            list.contains(instrument) <==> entries.contains(Some(instrument))
    }
}

proof fn lemma_symbol_found(list: Seq<InstrumentView>, symbol: Seq<char>)
    ensures
        catalog::with_symbol(list, symbol) is Some <==> exists|i: int|
            0 <= i < list.len() && (#[trigger] list[i]).symbol == symbol,
    decreases list.len(),
{
    if list.len() > 0 {
        let rest = list.drop_last();
        lemma_symbol_found(rest, symbol);
        if catalog::with_symbol(rest, symbol) is Some {
            let i = choose|i: int| 0 <= i < rest.len() && (#[trigger] rest[i]).symbol == symbol;
            assert(list[i].symbol == symbol);
        } else if list.last().symbol == symbol {
            assert(list[list.len() - 1].symbol == symbol);
        } else {
            assert forall|i: int| 0 <= i < list.len() implies (#[trigger] list[i]).symbol
                != symbol by {
                if i < rest.len() {
                    assert(rest[i] == list[i]);
                }
            }
        }
    }
}

proof fn lemma_inserted(
    list: Seq<InstrumentView>,
    at: int,
    last: InstrumentView,
    item: InstrumentView,
)
    requires
        0 <= at <= list.len(),
    ensures
        list.insert(at, last).contains(item) == (list.contains(item) || item == last),
{
    let longer = list.insert(at, last);
    if list.contains(item) {
        let i = choose|i: int| 0 <= i < list.len() && list[i] == item;
        assert(longer[if i < at {
            i
        } else {
            i + 1
        }] == item);
    }
    if item == last {
        assert(longer[at] == item);
    }
    if longer.contains(item) && item != last {
        let i = choose|i: int| 0 <= i < longer.len() && longer[i] == item;
        assert(list[if i < at {
            i
        } else {
            i - 1
        }] == item);
    }
}

proof fn lemma_collected(
    provider: Provider,
    items: Seq<JsonView>,
    entries: Seq<Option<InstrumentView>>,
)
    requires
        items.len() == entries.len(),
        forall|i: int|
            0 <= i < items.len() ==> payload::item_result(provider, #[trigger] items[i]) == Ok::<
                Option<InstrumentView>,
                Seq<char>,
            >(entries[i]),
    ensures
        lists(payload::collected(provider, items), entries),
    decreases items.len(),
{
    if items.len() > 0 {
        let rest = items.drop_last();
        let before = entries.drop_last();
        let last = items.len() - 1;
        assert forall|i: int| 0 <= i < rest.len() implies payload::item_result(
            provider,
            #[trigger] rest[i],
        ) == Ok::<Option<InstrumentView>, Seq<char>>(before[i]) by {
            assert(rest[i] == items[i]);
        }
        lemma_collected(provider, rest, before);
        assert(payload::item_result(provider, items[last]) == Ok::<
            Option<InstrumentView>,
            Seq<char>,
        >(entries[last]));
        assert(has_twice(before) ==> has_twice(entries)) by {
            if has_twice(before) {
                let (i, j) = choose|i: int, j: int|
                    0 <= i < j < before.len() && (#[trigger] before[i]) is Some && (
                    #[trigger] before[j]) is Some && before[i]->0.symbol == before[j]->0.symbol;
                assert(entries[i] == before[i] && entries[j] == before[j]);
            }
        }
        if !has_twice(before) {
            let list = payload::collected(provider, rest)->Ok_0;
            if has_twice(entries) {
                let (i, j) = choose|i: int, j: int|
                    0 <= i < j < entries.len() && (#[trigger] entries[i]) is Some && (
                    #[trigger] entries[j]) is Some && entries[i]->0.symbol
                        == entries[j]->0.symbol;
                assert(before[i] == entries[i]);
                if j < last {
                    assert(before[j] == entries[j]);
                    assert(has_twice(before));
                }
            }
            assert forall|item: InstrumentView| entries.contains(Some(item)) <==> (
            #[trigger] before.contains(Some(item)) || entries[last] == Some(item)) by {
                assert(before.push(entries[last]) =~= entries);
                laws::lemma_pushed(before, entries[last], Some(item));
            }
            if let Some(instrument) = entries[last] {
                lemma_symbol_found(list, instrument.symbol);
                catalog::lemma_place(list, instrument.symbol);
                if catalog::with_symbol(list, instrument.symbol) is Some {
                    let k = choose|k: int|
                        0 <= k < list.len() && (#[trigger] list[k]).symbol == instrument.symbol;
                    assert(list.contains(list[k]));
                    assert(before.contains(Some(list[k])));
                    let i = choose|i: int| 0 <= i < before.len() && before[i] == Some(list[k]);
                    assert(entries[i] is Some && entries[last] is Some);
                    assert(has_twice(entries));
                } else {
                    let at = catalog::place(list, instrument.symbol);
                    let longer = list.insert(at, instrument);
                    assert(payload::collected(provider, items) == Ok::<
                        Seq<InstrumentView>,
                        CatalogErrorView,
                    >(longer));
                    assert forall|item: InstrumentView| #[trigger]
                        longer.contains(item) <==> entries.contains(Some(item)) by {
                        lemma_inserted(list, at, instrument, item);
                        assert(before.contains(Some(item)) == list.contains(item));
                    }
                    if has_twice(entries) {
                        let i = choose|i: int|
                            0 <= i < last && (#[trigger] entries[i]) is Some
                                && entries[i]->0.symbol == instrument.symbol;
                        assert(before[i] == entries[i]);
                        assert(before.contains(Some(entries[i]->0)));
                        assert(list.contains(entries[i]->0));
                        let k = choose|k: int| 0 <= k < list.len() && list[k] == entries[i]->0;
                        assert(list[k].symbol == instrument.symbol);
                    }
                }
            } else {
                assert forall|item: InstrumentView| #[trigger]
                    list.contains(item) <==> entries.contains(Some(item)) by {
                    assert(before.contains(Some(item)) == list.contains(item));
                }
            }
        }
    }
}

proof fn lemma_gathered(
    provider: Provider,
    items: Seq<JsonView>,
    entries: Seq<Option<InstrumentView>>,
)
    requires
        items.len() == entries.len(),
        forall|i: int|
            0 <= i < items.len() ==> payload::item_result(provider, #[trigger] items[i]) == Ok::<
                Option<InstrumentView>,
                Seq<char>,
            >(entries[i]),
    ensures
        payload::gathered(provider, items) == Ok::<Seq<InstrumentView>, Seq<char>>(
            present(entries),
        ),
    decreases items.len(),
{
    if items.len() > 0 {
        let rest = items.drop_last();
        let last = items.len() - 1;
        assert forall|i: int| 0 <= i < rest.len() implies payload::item_result(
            provider,
            #[trigger] rest[i],
        ) == Ok::<Option<InstrumentView>, Seq<char>>(entries.drop_last()[i]) by {
            assert(rest[i] == items[i]);
        }
        lemma_gathered(provider, rest, entries.drop_last());
        assert(payload::item_result(provider, items[last]) == Ok::<
            Option<InstrumentView>,
            Seq<char>,
        >(entries[last]));
    }
}

proof fn lemma_shapes(provider: Provider, items: Seq<JsonView>)
    requires
        forall|i: int|
            0 <= i < items.len() ==> payload::item_shape(provider, #[trigger] items[i]) is None,
    ensures
        payload::list_shape(provider, items) is None,
{
    laws::lemma_no_complaint(items, |item: JsonView| payload::item_shape(provider, item));
}

// ---------------------------------------------------------------------------------------------
// Bybit
// ---------------------------------------------------------------------------------------------

/// Whether an object is what Bybit says of an instrument.
pub open spec fn is_bybit_item(item: JsonView, kind: Seq<char>, entry: Entry) -> bool {
    &&& item is Object
    &&& says(item, "symbol"@, entry.symbol)
    &&& says(item, "contractType"@, kind)
    &&& says(item, "status"@, entry.status)
    &&& says(item, "baseCoin"@, entry.base)
    &&& says(item, "quoteCoin"@, entry.quote)
    &&& says(item, "settleCoin"@, entry.settle)
    &&& may_write(item, "launchTime"@, entry.listed)
    &&& may_write(item, "deliveryTime"@, entry.expires)
    &&& may_nest(item, "priceFilter"@, "tickSize"@, Some(entry.tick))
    &&& may_nest(item, "lotSizeFilter"@, "qtyStep"@, Some(entry.step))
    &&& may_nest(item, "leverageFilter"@, "maxLeverage"@, entry.leverage)
    &&& entry.size is None
    &&& entry.size_asset is None
    &&& is_sound(entry)
}

/// What is listed of an item of Bybit: perpetuals in trading, and nothing else.
pub open spec fn bybit_listed(kind: Seq<char>, entry: Entry) -> Option<InstrumentView> {
    if kind == "LinearPerpetual"@ && entry.status == "Trading"@ {
        Some(instrument(Provider::Bybit, "bybit"@, entry))
    } else {
        None
    }
}

proof fn lemma_bybit_item(item: JsonView, kind: Seq<char>, entry: Entry)
    requires
        is_bybit_item(item, kind, entry),
    ensures
        payload::item_shape(Provider::Bybit, item) is None,
        payload::item_result(Provider::Bybit, item) == Ok::<Option<InstrumentView>, Seq<char>>(
            bybit_listed(kind, entry),
        ),
{
    lemma_asset("baseCoin"@, entry.base);
    lemma_asset("quoteCoin"@, entry.quote);
    lemma_asset("settleCoin"@, entry.settle);
    lemma_positive("priceFilter.tickSize"@, entry.tick);
    lemma_positive("lotSizeFilter.qtyStep"@, entry.step);
    if let Some(leverage) = entry.leverage {
        lemma_positive("leverageFilter.maxLeverage"@, leverage);
    }
    lemma_moment("launchTime"@, entry.listed);
    lemma_moment("deliveryTime"@, entry.expires);
    assert(payload::bybit_problem(item) is None);
    assert(payload::bybit_shape(item) is None);
}

/// A page of Bybit lists, in their order, exactly the perpetuals that trade, each with its fields in
/// their own places, and goes on where the page says.
pub proof fn law_bybit_pages_are_read(
    body: Seq<char>,
    root: JsonView,
    result: JsonView,
    cursor: Seq<char>,
    items: Seq<JsonView>,
    kinds: Seq<Seq<char>>,
    entries: Seq<Entry>,
)
    requires
        reading::laid_out(
            body,
            json::with_field(
                json::flat("retCode,retMsg,result"@, 3),
                "result"@,
                json::with_field(
                    json::flat("category,nextPageCursor,list"@, 3),
                    "list"@,
                    LayoutView::Each(
                        Box::new(
                            json::with_field(
                                json::with_field(
                                    json::with_field(
                                        json::flat(
                                            "symbol,contractType,status,baseCoin,quoteCoin,settleCoin,launchTime,deliveryTime,priceFilter,lotSizeFilter,leverageFilter"@,
                                            11,
                                        ),
                                        "priceFilter"@,
                                        json::flat("tickSize"@, 1),
                                    ),
                                    "lotSizeFilter"@,
                                    json::flat("qtyStep"@, 1),
                                ),
                                "leverageFilter"@,
                                json::flat("maxLeverage"@, 1),
                            ),
                        ),
                    ),
                ),
            ),
        ) == Ok::<JsonView, Seq<char>>(root),
        tallies(root, "retCode"@, 0),
        json::member_of(root, "retMsg"@) is None || json::member_of(root, "retMsg"@)->0 is Text,
        json::member_of(root, "result"@) == Some(result),
        result is Object,
        says(result, "category"@, "linear"@),
        says(result, "nextPageCursor"@, cursor),
        json::member_of(result, "list"@) == Some(JsonView::List(items)),
        items.len() == kinds.len(),
        items.len() == entries.len(),
        forall|i: int|
            0 <= i < items.len() ==> is_bybit_item(#[trigger] items[i], kinds[i], entries[i]),
    ensures
        payload::bybit_page_in(body) == Ok::<payload::PageView, CatalogErrorView>(
            payload::PageView {
                instruments: present(
                    Seq::new(items.len(), |i: int| bybit_listed(kinds[i], entries[i])),
                ),
                next_page_cursor: cursor,
            },
        ),
{
    let listed = Seq::new(items.len(), |i: int| bybit_listed(kinds[i], entries[i]));
    assert forall|i: int| 0 <= i < items.len() implies payload::item_shape(
        Provider::Bybit,
        #[trigger] items[i],
    ) is None && payload::item_result(Provider::Bybit, items[i]) == Ok::<
        Option<InstrumentView>,
        Seq<char>,
    >(listed[i]) by {
        lemma_bybit_item(items[i], kinds[i], entries[i]);
    }
    lemma_shapes(Provider::Bybit, items);
    lemma_gathered(Provider::Bybit, items, listed);
    assert(payload::bybit_result_shape(result) is None);
    assert(payload::bybit_answer_shape(root) is None);
}

// ---------------------------------------------------------------------------------------------
// Binance
// ---------------------------------------------------------------------------------------------

/// Whether an object is a filter of Binance.
pub open spec fn is_filter(filter: JsonView, kind: Seq<char>) -> bool {
    &&& filter is Object
    &&& says(filter, "filterType"@, kind)
    &&& json::member_of(filter, "tickSize"@) matches Some(value) ==> value is Text || value is Number
        || value is Null
    &&& json::member_of(filter, "stepSize"@) matches Some(value) ==> value is Text || value is Number
        || value is Null
}

/// Whether the filters have one price filter and one lot size, with those steps.
pub open spec fn has_steps(
    filters: Seq<JsonView>,
    kinds: Seq<Seq<char>>,
    price: int,
    lot: int,
    entry: Entry,
) -> bool {
    &&& filters.len() == kinds.len()
    &&& forall|k: int| 0 <= k < filters.len() ==> is_filter(#[trigger] filters[k], kinds[k])
    &&& 0 <= price < kinds.len()
    &&& 0 <= lot < kinds.len()
    &&& forall|k: int| 0 <= k < kinds.len() ==> (kinds[k] == "PRICE_FILTER"@ <==> k == price)
    &&& forall|k: int| 0 <= k < kinds.len() ==> (kinds[k] == "LOT_SIZE"@ <==> k == lot)
    &&& writes(filters[price], "tickSize"@, entry.tick)
    &&& writes(filters[lot], "stepSize"@, entry.step)
}

/// Whether an object is what Binance says of an instrument.
pub open spec fn is_binance_item(
    item: JsonView,
    kind: Seq<char>,
    filters: Seq<JsonView>,
    kinds: Seq<Seq<char>>,
    price: int,
    lot: int,
    onboard: Option<u64>,
    entry: Entry,
) -> bool {
    &&& item is Object
    &&& says(item, "symbol"@, entry.symbol)
    &&& says(item, "contractType"@, kind)
    &&& says(item, "status"@, entry.status)
    &&& says(item, "baseAsset"@, entry.base)
    &&& says(item, "quoteAsset"@, entry.quote)
    &&& says(item, "marginAsset"@, entry.settle)
    &&& super::bingx::may_count(item, "onboardDate"@, onboard)
    &&& json::member_of(item, "filters"@) == Some(JsonView::List(filters))
    &&& has_steps(filters, kinds, price, lot, entry)
    &&& entry.size is None
    &&& entry.size_asset is None
    &&& entry.leverage is None
    &&& entry.listed is None
    &&& entry.expires is None
    &&& is_sound(entry)
}

/// What is listed of an item of Binance: perpetuals in trading, and nothing else.
pub open spec fn binance_listed(
    kind: Seq<char>,
    onboard: Option<u64>,
    entry: Entry,
) -> Option<InstrumentView> {
    if kind == "PERPETUAL"@ && entry.status == "TRADING"@ {
        Some(
            InstrumentView {
                listing_time_ms: if onboard == Some(0u64) {
                    None
                } else {
                    onboard
                },
                ..instrument(Provider::Binance, "binance"@, entry)
            },
        )
    } else {
        None
    }
}

proof fn lemma_one_filter(filters: Seq<JsonView>, kinds: Seq<Seq<char>>, kind: Seq<char>, at: int)
    requires
        filters.len() == kinds.len(),
        forall|k: int| 0 <= k < filters.len() ==> is_filter(#[trigger] filters[k], kinds[k]),
        forall|k: int| 0 <= k < kinds.len() ==> ((#[trigger] kinds[k]) == kind <==> k == at),
    ensures
        0 <= at < filters.len() ==> payload::filters_of(filters, kind) == seq![filters[at]],
        !(0 <= at < filters.len()) ==> payload::filters_of(filters, kind).len() == 0,
    decreases filters.len(),
{
    if filters.len() > 0 {
        let last = filters.len() - 1;
        let rest = filters.drop_last();
        let others = kinds.drop_last();
        assert forall|k: int| 0 <= k < rest.len() implies is_filter(#[trigger] rest[k], others[k])
            by {
            assert(is_filter(filters[k], kinds[k]));
        }
        assert forall|k: int| 0 <= k < others.len() implies ((#[trigger] others[k]) == kind <==> k
            == at) by {
            assert(others[k] == kinds[k]);
        }
        lemma_one_filter(rest, others, kind, at);
        assert(is_filter(filters[last], kinds[last]));
        assert(filters.last() == filters[last]);
        if at == last {
            assert(payload::filters_of(rest, kind) =~= Seq::<JsonView>::empty());
            assert(payload::filters_of(filters, kind) =~= seq![filters[at]]);
        } else if 0 <= at < last {
            assert(rest[at] == filters[at]);
        }
    }
}

proof fn lemma_binance_item(
    item: JsonView,
    kind: Seq<char>,
    filters: Seq<JsonView>,
    kinds: Seq<Seq<char>>,
    price: int,
    lot: int,
    onboard: Option<u64>,
    entry: Entry,
)
    requires
        is_binance_item(item, kind, filters, kinds, price, lot, onboard, entry),
    ensures
        payload::item_shape(Provider::Binance, item) is None,
        payload::item_result(Provider::Binance, item) == Ok::<Option<InstrumentView>, Seq<char>>(
            binance_listed(kind, onboard, entry),
        ),
{
    lemma_asset("baseAsset"@, entry.base);
    lemma_asset("quoteAsset"@, entry.quote);
    lemma_asset("marginAsset"@, entry.settle);
    lemma_positive("PRICE_FILTER"@ + "."@ + "tickSize"@, entry.tick);
    lemma_positive("LOT_SIZE"@ + "."@ + "stepSize"@, entry.step);
    lemma_one_filter(filters, kinds, "PRICE_FILTER"@, price);
    lemma_one_filter(filters, kinds, "LOT_SIZE"@, lot);
    assert forall|k: int| 0 <= k < filters.len() implies payload::filter_shape(
        #[trigger] filters[k],
    ) is None by {
        assert(is_filter(filters[k], kinds[k]));
    }
    laws::lemma_no_complaint(filters, |filter: JsonView| payload::filter_shape(filter));
    assert(payload::binance_problem(item) is None);
    assert(payload::binance_shape(item) is None);
}

/// What Binance says of one instrument, with the places of its two steps.
pub struct BinanceItem {
    pub kind: Seq<char>,
    pub filters: Seq<JsonView>,
    pub kinds: Seq<Seq<char>>,
    pub price: int,
    pub lot: int,
    pub onboard: Option<u64>,
    pub entry: Entry,
}

/// An answer of Binance lists exactly the perpetuals that trade, each with its fields in their own
/// places and its steps from the filters of their kinds.
pub proof fn law_binance_lists_are_read(
    body: Seq<char>,
    root: JsonView,
    items: Seq<JsonView>,
    said: Seq<BinanceItem>,
)
    requires
        reading::laid_out(
            body,
            json::with_field(
                json::flat("symbols"@, 1),
                "symbols"@,
                LayoutView::Each(
                    Box::new(
                        json::with_field(
                            json::flat(
                                "symbol,contractType,status,baseAsset,quoteAsset,marginAsset,onboardDate,filters"@,
                                8,
                            ),
                            "filters"@,
                            LayoutView::Each(
                                Box::new(json::flat("filterType,tickSize,stepSize"@, 3)),
                            ),
                        ),
                    ),
                ),
            ),
        ) == Ok::<JsonView, Seq<char>>(root),
        json::member_of(root, "symbols"@) == Some(JsonView::List(items)),
        items.len() == said.len(),
        forall|i: int|
            0 <= i < items.len() ==> is_binance_item(
                #[trigger] items[i],
                said[i].kind,
                said[i].filters,
                said[i].kinds,
                said[i].price,
                said[i].lot,
                said[i].onboard,
                said[i].entry,
            ),
    ensures
        lists(
            payload::answer_in(Provider::Binance, body),
            Seq::new(
                items.len(),
                |i: int| binance_listed(said[i].kind, said[i].onboard, said[i].entry),
            ),
        ),
{
    let listed = Seq::new(
        items.len(),
        |i: int| binance_listed(said[i].kind, said[i].onboard, said[i].entry),
    );
    assert forall|i: int| 0 <= i < items.len() implies payload::item_shape(
        Provider::Binance,
        #[trigger] items[i],
    ) is None && payload::item_result(Provider::Binance, items[i]) == Ok::<
        Option<InstrumentView>,
        Seq<char>,
    >(listed[i]) by {
        lemma_binance_item(
            items[i],
            said[i].kind,
            said[i].filters,
            said[i].kinds,
            said[i].price,
            said[i].lot,
            said[i].onboard,
            said[i].entry,
        );
    }
    lemma_shapes(Provider::Binance, items);
    lemma_collected(Provider::Binance, items, listed);
    assert(payload::binance_answer_shape(root) is None);
}

// ---------------------------------------------------------------------------------------------
// OKX
// ---------------------------------------------------------------------------------------------

/// Whether an object has a text of that name, where an empty one may be left out.
pub open spec fn says_or_leaves(object: JsonView, name: Seq<char>, text: Seq<char>) -> bool {
    says(object, name, text) || (text.len() == 0 && json::member_of(object, name) is None)
}

/// What OKX says of an instrument beside its entry.
pub struct OkxNames {
    pub kind: Seq<char>,
    pub contract: Seq<char>,
    pub base: Seq<char>,
    pub quote: Seq<char>,
    pub size_asset: Seq<char>,
    pub underlying: Seq<char>,
    pub family: Seq<char>,
    pub first: Seq<char>,
    pub second: Seq<char>,
}

/// Whether an object is what OKX says of an instrument. Assets that it does not name are those of the
/// underlying or else of the family.
pub open spec fn is_okx_item(item: JsonView, names: OkxNames, entry: Entry) -> bool {
    &&& item is Object
    &&& says(item, "instId"@, entry.symbol)
    &&& says(item, "instType"@, names.kind)
    &&& says(item, "ctType"@, names.contract)
    &&& says(item, "state"@, entry.status)
    &&& says(item, "settleCcy"@, entry.settle)
    &&& says_or_leaves(item, "baseCcy"@, names.base)
    &&& says_or_leaves(item, "quoteCcy"@, names.quote)
    &&& says_or_leaves(item, "ctValCcy"@, names.size_asset)
    &&& says_or_leaves(item, "uly"@, names.underlying)
    &&& says_or_leaves(item, "instFamily"@, names.family)
    &&& entry.size is Some && writes(item, "ctVal"@, entry.size->0)
    &&& writes(item, "tickSz"@, entry.tick)
    &&& writes(item, "lotSz"@, entry.step)
    &&& may_write(item, "listTime"@, entry.listed)
    &&& may_write(item, "expTime"@, entry.expires)
    &&& match entry.leverage {
        Some(leverage) => leverage.len() > 0 && writes(item, "lever"@, leverage),
        None => may_write(item, "lever"@, None) || says(item, "lever"@, Seq::empty()),
    }
    &&& (if names.underlying.len() > 0 {
        names.underlying
    } else {
        names.family
    }) == names.first + "-"@ + names.second
    &&& is_asset(names.first) && !names.first.contains('-')
    &&& is_asset(names.second) && !names.second.contains('-')
    &&& entry.base == if names.base.len() > 0 {
        names.base
    } else {
        names.first
    }
    &&& entry.quote == if names.quote.len() > 0 {
        names.quote
    } else {
        names.second
    }
    &&& entry.size_asset == Some(
        if names.size_asset.len() > 0 {
            names.size_asset
        } else {
            entry.base
        },
    )
    &&& is_asset(entry.size_asset->0)
    &&& is_sound(entry)
}

/// What is listed of an item of OKX: linear swaps that are live, and nothing else.
pub open spec fn okx_listed(names: OkxNames, entry: Entry) -> Option<InstrumentView> {
    if names.kind == "SWAP"@ && names.contract == "linear"@ && entry.status == "live"@ {
        Some(instrument(Provider::Okx, "okx"@, entry))
    } else {
        None
    }
}

proof fn lemma_okx_item(item: JsonView, names: OkxNames, entry: Entry)
    requires
        is_okx_item(item, names, entry),
    ensures
        payload::item_shape(Provider::Okx, item) is None,
        payload::item_result(Provider::Okx, item) == Ok::<Option<InstrumentView>, Seq<char>>(
            okx_listed(names, entry),
        ),
{
    reveal_strlit("-");
    let underlying = names.first + "-"@ + names.second;
    assert(payload::okx_underlying(item) == underlying);
    assert(underlying[names.first.len() as int] == '-');
    assert forall|i: int| 0 <= i < names.first.len() implies underlying[i] != '-' by {
        assert(names.first.contains(names.first[i]));
    }
    text::lemma_first_position(underlying, '-');
    assert(text::first_position(underlying, '-') == names.first.len());
    assert(underlying.take(names.first.len() as int) =~= names.first);
    assert(underlying.skip(names.first.len() as int + 1) =~= names.second);
    assert(!text::holds(names.second, '-'));
    lemma_asset("underlying base"@, names.first);
    lemma_asset("underlying quote"@, names.second);
    lemma_asset("baseCcy"@, entry.base);
    lemma_asset("quoteCcy"@, entry.quote);
    lemma_asset("ctValCcy"@, entry.size_asset->0);
    lemma_asset("settleCcy"@, entry.settle);
    lemma_positive("tickSz"@, entry.tick);
    lemma_positive("lotSz"@, entry.step);
    lemma_positive("ctVal"@, entry.size->0);
    if let Some(leverage) = entry.leverage {
        lemma_positive("lever"@, leverage);
    }
    lemma_moment("listTime"@, entry.listed);
    lemma_moment("expTime"@, entry.expires);
    assert(payload::underlying_problem(underlying) is None);
    assert(payload::okx_problem(item) is None);
    assert(payload::okx_shape(item) is None);
}

/// An answer of OKX lists exactly the linear swaps that are live, each with its fields in their own
/// places.
pub proof fn law_okx_lists_are_read(
    body: Seq<char>,
    root: JsonView,
    items: Seq<JsonView>,
    names: Seq<OkxNames>,
    entries: Seq<Entry>,
)
    requires
        reading::laid_out(
            body,
            json::with_field(
                json::flat("code,msg,data"@, 3),
                "data"@,
                LayoutView::Each(
                    Box::new(
                        json::flat(
                            "instId,instType,state,baseCcy,quoteCcy,settleCcy,ctType,ctVal,ctValCcy,tickSz,lotSz,lever,listTime,expTime,uly,instFamily"@,
                            11,
                        ),
                    ),
                ),
            ),
        ) == Ok::<JsonView, Seq<char>>(root),
        says(root, "code"@, "0"@),
        json::member_of(root, "msg"@) is None || json::member_of(root, "msg"@)->0 is Text,
        json::member_of(root, "data"@) == Some(JsonView::List(items)),
        items.len() == names.len(),
        items.len() == entries.len(),
        forall|i: int|
            0 <= i < items.len() ==> is_okx_item(#[trigger] items[i], names[i], entries[i]),
    ensures
        lists(
            payload::answer_in(Provider::Okx, body),
            Seq::new(items.len(), |i: int| okx_listed(names[i], entries[i])),
        ),
{
    let listed = Seq::new(items.len(), |i: int| okx_listed(names[i], entries[i]));
    assert forall|i: int| 0 <= i < items.len() implies payload::item_shape(
        Provider::Okx,
        #[trigger] items[i],
    ) is None && payload::item_result(Provider::Okx, items[i]) == Ok::<
        Option<InstrumentView>,
        Seq<char>,
    >(listed[i]) by {
        lemma_okx_item(items[i], names[i], entries[i]);
    }
    lemma_shapes(Provider::Okx, items);
    lemma_collected(Provider::Okx, items, listed);
    assert(payload::okx_answer_shape(root) is None);
}

// ---------------------------------------------------------------------------------------------
// KuCoin
// ---------------------------------------------------------------------------------------------

/// Whether an object is what KuCoin says of an instrument.
pub open spec fn is_kucoin_item(
    item: JsonView,
    kind: Seq<char>,
    inverse: bool,
    entry: Entry,
) -> bool {
    &&& item is Object
    &&& says(item, "symbol"@, entry.symbol)
    &&& says(item, "type"@, kind)
    &&& says(item, "status"@, entry.status)
    &&& says(item, "baseCurrency"@, entry.base)
    &&& says(item, "quoteCurrency"@, entry.quote)
    &&& says(item, "settleCurrency"@, entry.settle)
    &&& may_write(item, "firstOpenDate"@, entry.listed)
    &&& may_write(item, "expireDate"@, entry.expires)
    &&& writes(item, "tickSize"@, entry.tick)
    &&& writes(item, "lotSize"@, entry.step)
    &&& entry.size is Some && writes(item, "multiplier"@, entry.size->0)
    &&& entry.size_asset == Some(entry.base)
    &&& match entry.leverage {
        Some(leverage) => leverage.len() > 0 && writes(item, "maxLeverage"@, leverage),
        None => may_write(item, "maxLeverage"@, None) || says(item, "maxLeverage"@, Seq::empty()),
    }
    &&& laws::holds(item, "isInverse"@, inverse)
    &&& is_sound(entry)
}

/// What is listed of an item of KuCoin: open linear perpetuals that settle in USDT or USDC and do not
/// expire, and nothing else.
pub open spec fn kucoin_listed(
    kind: Seq<char>,
    inverse: bool,
    entry: Entry,
) -> Option<InstrumentView> {
    if kind == "FFWCSX"@ && entry.status == "Open"@ && !inverse && moment(entry.expires) is None && (
    text::finishes_with(entry.symbol, "USDTM"@) || text::finishes_with(entry.symbol, "USDCM"@)) {
        Some(instrument(Provider::Kucoin, "kucoin"@, entry))
    } else {
        None
    }
}

proof fn lemma_kucoin_item(item: JsonView, kind: Seq<char>, inverse: bool, entry: Entry)
    requires
        is_kucoin_item(item, kind, inverse, entry),
    ensures
        payload::item_shape(Provider::Kucoin, item) is None,
        payload::item_result(Provider::Kucoin, item) == Ok::<Option<InstrumentView>, Seq<char>>(
            kucoin_listed(kind, inverse, entry),
        ),
{
    lemma_asset("baseCurrency"@, entry.base);
    lemma_asset("quoteCurrency"@, entry.quote);
    lemma_asset("settleCurrency"@, entry.settle);
    lemma_positive("tickSize"@, entry.tick);
    lemma_positive("lotSize"@, entry.step);
    lemma_positive("multiplier"@, entry.size->0);
    if let Some(leverage) = entry.leverage {
        lemma_positive("maxLeverage"@, leverage);
    }
    lemma_moment("firstOpenDate"@, entry.listed);
    lemma_moment("expireDate"@, entry.expires);
    assert(payload::kucoin_problem(item) is None);
    assert(payload::kucoin_shape(item) is None);
}

/// The layout of an instrument of KuCoin.
pub open spec fn kucoin_fields() -> LayoutView {
    json::flat(
        "symbol,type,status,baseCurrency,quoteCurrency,settleCurrency,firstOpenDate,expireDate,tickSize,lotSize,multiplier,maxLeverage,isInverse"@,
        13,
    )
}

/// An answer of KuCoin lists exactly the open perpetuals, each with its fields in their own places.
pub proof fn law_kucoin_lists_are_read(
    body: Seq<char>,
    one: Result<JsonView, Seq<char>>,
    root: JsonView,
    items: Seq<JsonView>,
    kinds: Seq<Seq<char>>,
    inverse: Seq<bool>,
    entries: Seq<Entry>,
)
    requires
        reading::laid_out(
            body,
            json::with_field(
                json::flat("code,data"@, 2),
                "data"@,
                LayoutView::Whole(Box::new(kucoin_fields())),
            ),
        ) == one,
        one matches Ok(other) ==> !(json::member_of(other, "data"@) matches Some(data)
            && data is Object),
        reading::laid_out(
            body,
            json::with_field(
                json::flat("code,data"@, 2),
                "data"@,
                LayoutView::Whole(Box::new(LayoutView::Each(Box::new(kucoin_fields())))),
            ),
        ) == Ok::<JsonView, Seq<char>>(root),
        says(root, "code"@, "200000"@),
        json::member_of(root, "data"@) == Some(JsonView::List(items)),
        items.len() == kinds.len(),
        items.len() == inverse.len(),
        items.len() == entries.len(),
        forall|i: int|
            0 <= i < items.len() ==> is_kucoin_item(
                #[trigger] items[i],
                kinds[i],
                inverse[i],
                entries[i],
            ),
    ensures
        lists(
            payload::answer_in(Provider::Kucoin, body),
            Seq::new(items.len(), |i: int| kucoin_listed(kinds[i], inverse[i], entries[i])),
        ),
{
    let listed = Seq::new(items.len(), |i: int| kucoin_listed(kinds[i], inverse[i], entries[i]));
    assert forall|i: int| 0 <= i < items.len() implies payload::item_shape(
        Provider::Kucoin,
        #[trigger] items[i],
    ) is None && payload::item_result(Provider::Kucoin, items[i]) == Ok::<
        Option<InstrumentView>,
        Seq<char>,
    >(listed[i]) by {
        lemma_kucoin_item(items[i], kinds[i], inverse[i], entries[i]);
    }
    lemma_shapes(Provider::Kucoin, items);
    lemma_collected(Provider::Kucoin, items, listed);
    assert(payload::kucoin_answer_shape(root) is None);
    assert(payload::answer_document(Provider::Kucoin, body) == Ok::<JsonView, Seq<char>>(root));
}

} // verus!
