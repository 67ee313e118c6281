//! What every instrument that a venue lists has, and which lists are refused.
use vstd::prelude::*;

use super::candles::is_decimal_where_given;
use super::documents::venue;
use super::instruments::{is_asset, is_canonical};
use super::{says, tallies};
use crate::catalog;
use crate::catalog::payload;
use crate::catalog::{InstrumentStatus, InstrumentView};
use crate::decimal;
use crate::domain::{MarketKind, Provider};
use crate::json;
use crate::json::reading;
use crate::json::JsonView;
use crate::laws;
use crate::text;

verus! {

/// Whether an instrument is a live one of a venue, with a canonical symbol, an identifier of its own,
/// names of assets, and decimals for its steps.
pub open spec fn is_usable(provider: Provider, instrument: InstrumentView) -> bool {
    &&& instrument.provider == provider
    &&& instrument.market == MarketKind::LinearPerpetual
    &&& instrument.status == InstrumentStatus::Live
    &&& is_canonical(instrument.symbol)
    &&& instrument.instrument_id == venue(provider) + ":"@ + "linear_perpetual"@ + ":"@
        + instrument.symbol
    &&& is_asset(instrument.base_asset)
    &&& is_asset(instrument.quote_asset)
    &&& is_asset(instrument.settle_asset)
    &&& decimal::decimal_of(instrument.tick_size) is Some
    &&& decimal::decimal_of(instrument.quantity_step) is Some
    &&& is_decimal_where_given(instrument.contract_size)
    &&& is_decimal_where_given(instrument.max_leverage)
}

proof fn lemma_asset(field: Seq<char>, name: Seq<char>)
    requires
        payload::asset_problem(field, name) is None,
    ensures
        is_asset(name),
{
    assert(payload::is_asset(name));
    assert forall|i: int| 0 <= i < name.len() implies !text::is_white(#[trigger] name[i])
        && name[i] as u32 >= 0x20 && !(0x7f <= name[i] as u32 <= 0x9f) by {
        assert(!payload::is_control(name[i]));
    }
}

proof fn lemma_positive(field: Seq<char>, raw: Seq<char>)
    requires
        payload::positive_problem(field, raw) is None,
    ensures
        decimal::decimal_of(payload::positive_text(raw)) is Some,
{
}

proof fn lemma_bybit(item: JsonView)
    requires
        payload::bybit_shape(item) is None,
        payload::bybit_problem(item) is None,
    ensures
        is_usable(Provider::Bybit, payload::bybit_instrument_of(item)),
{
    lemma_asset("baseCoin"@, json::text_at(item, "baseCoin"@));
    lemma_asset("quoteCoin"@, json::text_at(item, "quoteCoin"@));
    lemma_asset("settleCoin"@, json::text_at(item, "settleCoin"@));
    assert(payload::nested_at(item, "priceFilter"@, "tickSize"@) is Some);
    assert(payload::nested_at(item, "lotSizeFilter"@, "qtyStep"@) is Some);
    lemma_positive(
        "priceFilter.tickSize"@,
        payload::nested_at(item, "priceFilter"@, "tickSize"@)->0,
    );
    lemma_positive(
        "lotSizeFilter.qtyStep"@,
        payload::nested_at(item, "lotSizeFilter"@, "qtyStep"@)->0,
    );
    if let Some(raw) = payload::nested_at(item, "leverageFilter"@, "maxLeverage"@) {
        lemma_positive("leverageFilter.maxLeverage"@, raw);
    }
}

proof fn lemma_binance(item: JsonView)
    requires
        payload::binance_problem(item) is None,
    ensures
        is_usable(Provider::Binance, payload::binance_instrument_of(item)),
{
    let filters = json::list_at(item, "filters"@);
    lemma_asset("baseAsset"@, json::text_at(item, "baseAsset"@));
    lemma_asset("quoteAsset"@, json::text_at(item, "quoteAsset"@));
    lemma_asset("marginAsset"@, json::text_at(item, "marginAsset"@));
    let prices = payload::filters_of(filters, "PRICE_FILTER"@);
    let lots = payload::filters_of(filters, "LOT_SIZE"@);
    assert(payload::scalar_at(prices[0], "tickSize"@) is Some);
    assert(payload::scalar_at(lots[0], "stepSize"@) is Some);
    lemma_positive(
        "PRICE_FILTER"@ + "."@ + "tickSize"@,
        payload::scalar_at(prices[0], "tickSize"@)->0,
    );
    lemma_positive("LOT_SIZE"@ + "."@ + "stepSize"@, payload::scalar_at(lots[0], "stepSize"@)->0);
}

proof fn lemma_okx(item: JsonView)
    requires
        payload::okx_shape(item) is None,
        payload::okx_problem(item) is None,
    ensures
        is_usable(Provider::Okx, payload::okx_instrument_of(item)),
{
    let assets = payload::underlying_assets(payload::okx_underlying(item));
    lemma_asset("underlying base"@, assets.0);
    lemma_asset("underlying quote"@, assets.1);
    if json::text_at(item, "baseCcy"@).len() != 0 {
        lemma_asset("baseCcy"@, json::text_at(item, "baseCcy"@));
    }
    if json::text_at(item, "quoteCcy"@).len() != 0 {
        lemma_asset("quoteCcy"@, json::text_at(item, "quoteCcy"@));
    }
    lemma_asset("settleCcy"@, json::text_at(item, "settleCcy"@));
    assert(payload::scalar_at(item, "tickSz"@) is Some ==> payload::positive_problem(
        "tickSz"@,
        payload::scalar_at(item, "tickSz"@)->0,
    ) is None);
    lemma_scalar(item, "tickSz"@);
    lemma_scalar(item, "lotSz"@);
    lemma_scalar(item, "ctVal"@);
    lemma_positive("tickSz"@, payload::scalar_at(item, "tickSz"@)->0);
    lemma_positive("lotSz"@, payload::scalar_at(item, "lotSz"@)->0);
    lemma_positive("ctVal"@, payload::scalar_at(item, "ctVal"@)->0);
    if let Some(raw) = payload::filled_scalar_at(item, "lever"@) {
        lemma_positive("lever"@, raw);
    }
}

proof fn lemma_scalar(item: JsonView, name: Seq<char>)
    requires
        payload::scalar_shape(item, name) is None,
    ensures
        payload::scalar_at(item, name) is Some,
{
}

proof fn lemma_kucoin(item: JsonView)
    requires
        payload::kucoin_shape(item) is None,
        payload::kucoin_problem(item) is None,
    ensures
        is_usable(Provider::Kucoin, payload::kucoin_instrument_of(item)),
{
    lemma_asset("baseCurrency"@, json::text_at(item, "baseCurrency"@));
    lemma_asset("quoteCurrency"@, json::text_at(item, "quoteCurrency"@));
    lemma_asset("settleCurrency"@, json::text_at(item, "settleCurrency"@));
    lemma_scalar(item, "tickSize"@);
    lemma_scalar(item, "lotSize"@);
    lemma_scalar(item, "multiplier"@);
    lemma_positive("tickSize"@, payload::scalar_at(item, "tickSize"@)->0);
    lemma_positive("lotSize"@, payload::scalar_at(item, "lotSize"@)->0);
    lemma_positive("multiplier"@, payload::scalar_at(item, "multiplier"@)->0);
    if let Some(raw) = payload::filled_scalar_at(item, "maxLeverage"@) {
        lemma_positive("maxLeverage"@, raw);
    }
}

proof fn lemma_item(provider: Provider, item: JsonView)
    requires
        payload::item_shape(provider, item) is None,
    ensures
        payload::item_result(provider, item) matches Ok(Some(instrument)) ==> is_usable(
            provider,
            instrument,
        ),
{
    if let Ok(Some(_)) = payload::item_result(provider, item) {
        match provider {
            Provider::Bybit => lemma_bybit(item),
            Provider::Binance => lemma_binance(item),
            Provider::Okx => lemma_okx(item),
            Provider::Kucoin => lemma_kucoin(item),
            _ => {},
        }
    }
}

proof fn lemma_shape(provider: Provider, items: Seq<JsonView>)
    requires
        payload::list_shape(provider, items) is None,
    ensures
        forall|i: int|
            0 <= i < items.len() ==> payload::item_shape(provider, #[trigger] items[i]) is None,
{
    assert forall|i: int| 0 <= i < items.len() implies payload::item_shape(
        provider,
        #[trigger] items[i],
    ) is None by {
        laws::lemma_every_item_passes(
            items,
            |item: JsonView| payload::item_shape(provider, item),
            i,
        );
    }
}

proof fn lemma_gathered(provider: Provider, items: Seq<JsonView>, k: int)
    requires
        forall|i: int|
            0 <= i < items.len() ==> payload::item_shape(provider, #[trigger] items[i]) is None,
    ensures
        payload::gathered(provider, items) matches Ok(list) ==> (0 <= k < list.len() ==> is_usable(
            provider,
            list[k],
        )),
    decreases items.len(),
{
    if items.len() > 0 {
        let rest = items.drop_last();
        assert forall|i: int| 0 <= i < rest.len() implies payload::item_shape(
            provider,
            #[trigger] rest[i],
        ) is None by {
            assert(rest[i] == items[i]);
        }
        lemma_gathered(provider, rest, k);
        assert(items.last() == items[items.len() - 1]);
        lemma_item(provider, items.last());
    }
}

proof fn lemma_collected(provider: Provider, items: Seq<JsonView>, k: int)
    requires
        forall|i: int|
            0 <= i < items.len() ==> payload::item_shape(provider, #[trigger] items[i]) is None,
    ensures
        payload::collected(provider, items) matches Ok(list) ==> (0 <= k < list.len() ==> is_usable(
            provider,
            list[k],
        )),
    decreases items.len(),
{
    if items.len() > 0 {
        let rest = items.drop_last();
        assert forall|i: int| 0 <= i < rest.len() implies payload::item_shape(
            provider,
            #[trigger] rest[i],
        ) is None by {
            assert(rest[i] == items[i]);
        }
        assert(items.last() == items[items.len() - 1]);
        lemma_item(provider, items.last());
        lemma_collected(provider, rest, k);
        lemma_collected(provider, rest, k - 1);
        if let Ok(before) = payload::collected(provider, rest) {
            if let Ok(Some(instrument)) = payload::item_result(provider, items.last()) {
                if catalog::added_once(before, instrument) is Ok {
                    let at = catalog::place(before, instrument.symbol);
                    let after = catalog::added(before, instrument);
                    catalog::lemma_place(before, instrument.symbol);
                    if 0 <= k < after.len() {
                        if k < at {
                            assert(after[k] == before[k]);
                        } else if k > at {
                            assert(after[k] == before[k - 1]);
                        }
                    }
                }
            }
        }
    }
}

/// Every instrument of a page or of an answer is usable.
pub proof fn law_listed_instruments_are_usable(body: Seq<char>, provider: Provider, k: int)
    ensures
        payload::bybit_page_in(body) matches Ok(page) ==> (0 <= k < page.instruments.len()
            ==> is_usable(Provider::Bybit, page.instruments[k])),
        payload::answer_in(provider, body) matches Ok(list) ==> (0 <= k < list.len() ==> is_usable(
            provider,
            list[k],
        )),
{
    if payload::bybit_page_in(body) is Ok {
        let value = reading::laid_out(body, payload::bybit_layout())->Ok_0;
        let result = json::value_at(value, "result"@);
        let items = json::list_at(result, "list"@);
        lemma_shape(Provider::Bybit, items);
        lemma_gathered(Provider::Bybit, items, k);
    }
    if payload::answer_in(provider, body) is Ok {
        let value = payload::answer_document(provider, body)->Ok_0;
        let items = payload::answer_items(provider, value);
        lemma_shape(provider, items);
        lemma_collected(provider, items, k);
    }
}

/// A page of Bybit with a code other than nought, or of another category than linear contracts, is
/// refused.
pub proof fn law_bybit_pages_are_of_linear_contracts(
    body: Seq<char>,
    value: JsonView,
    result: JsonView,
    code: i64,
    category: Seq<char>,
)
    requires
        reading::laid_out(body, payload::bybit_layout()) == Ok::<JsonView, Seq<char>>(value),
        tallies(value, "retCode"@, code),
        json::member_of(value, "result"@) == Some(result),
        says(result, "category"@, category),
        code != 0 || category != "linear"@,
    ensures
        payload::bybit_page_in(body) is Err,
{
}

/// A list of OKX with a code other than nought is refused.
pub proof fn law_okx_lists_are_successes(body: Seq<char>, value: JsonView, code: Seq<char>)
    requires
        reading::laid_out(body, payload::okx_layout()) == Ok::<JsonView, Seq<char>>(value),
        says(value, "code"@, code),
        code != "0"@,
    ensures
        payload::answer_in(Provider::Okx, body) is Err,
{
}

/// A list of KuCoin with a code other than two hundred thousand is refused.
pub proof fn law_kucoin_lists_are_successes(body: Seq<char>, value: JsonView, code: Seq<char>)
    requires
        payload::answer_document(Provider::Kucoin, body) == Ok::<JsonView, Seq<char>>(value),
        says(value, "code"@, code),
        code != "200000"@,
    ensures
        payload::answer_in(Provider::Kucoin, body) is Err,
{
}

} // verus!
