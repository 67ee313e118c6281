//! What the venues' catalog answers mean.
use vstd::prelude::*;

use crate::catalog;
use crate::catalog::{
    CatalogError, CatalogErrorView, Instrument, InstrumentStatus, InstrumentView, Listing,
};
use crate::decimal;
use crate::domain;
use crate::domain::{DecimalValue, MarketKind, Provider};
use crate::json;
use crate::json::reading;
use crate::json::{Json, JsonView, Layout, LayoutView};
use crate::providers;
use crate::providers::Complaints;
use crate::text;

verus! {

/// The most bytes of an answer.
pub const MAX_CATALOG_RESPONSE_BYTES: usize = 8_388_608;

/// The most bytes of an asset identifier.
pub const MAX_ASSET_BYTES: usize = 64;

// ---------------------------------------------------------------------------------------------
// Scalars
// ---------------------------------------------------------------------------------------------

/// Whether a value is a text or a number.
pub open spec fn is_scalar(value: JsonView) -> bool {
    value is Text || value is Number
}

/// The text of a text or number.
pub open spec fn scalar_text(value: JsonView) -> Seq<char> {
    match value {
        JsonView::Text(text) => text,
        JsonView::Number(number) => number.text,
        _ => Seq::empty(),
    }
}

/// Why an object has no text or number of that name.
pub open spec fn scalar_shape(object: JsonView, name: Seq<char>) -> Option<Seq<char>> {
    match json::member_of(object, name) {
        Some(value) => providers::unless(
            is_scalar(value),
            json::mistyped_message(name, "a string or number"@),
        ),
        None => Some(json::missing_message(name)),
    }
}

/// Why what an object has under a name is neither absent, nor null, nor a text or number.
pub open spec fn optional_scalar_shape(object: JsonView, name: Seq<char>) -> Option<Seq<char>> {
    match json::member_of(object, name) {
        Some(JsonView::Null) | None => None,
        Some(value) => providers::unless(
            is_scalar(value),
            json::mistyped_message(name, "a string or number"@),
        ),
    }
}

/// Why what an object has under a name is neither absent nor a text.
pub open spec fn default_text_shape(object: JsonView, name: Seq<char>) -> Option<Seq<char>> {
    match json::member_of(object, name) {
        Some(value) => providers::unless(
            value is Text,
            json::mistyped_message(name, "a string"@),
        ),
        None => None,
    }
}

/// The text of an optional text or number of that name.
pub open spec fn scalar_at(object: JsonView, name: Seq<char>) -> Option<Seq<char>> {
    match json::member_of(object, name) {
        Some(JsonView::Null) | None => None,
        Some(value) => Some(scalar_text(value)),
    }
}

/// Whether an object has the empty text under a name.
pub open spec fn is_blank_text(object: JsonView, name: Seq<char>) -> bool {
    json::member_of(object, name) == Some(JsonView::Text(Seq::empty()))
}

fn scalar(value: &Json) -> (found: Option<String>)
    ensures
        match found {
            Some(text) => is_scalar(value@) && text@ == scalar_text(value@),
            None => !is_scalar(value@),
        },
{
    match value {
        Json::Text(text) => Some(text.clone()),
        Json::Number(number) => Some(number.text.clone()),
        _ => None,
    }
}

fn need_scalar(object: &Json, name: &str) -> (r: Result<String, String>)
    ensures
        match r {
            Ok(text) => {
                &&& scalar_shape(object@, name@) is None
                &&& scalar_at(object@, name@) == Some(text@)
            },
            Err(message) => scalar_shape(object@, name@) == Some(message@),
        },
{
    match object.member(name) {
        Some(value) => match scalar(value) {
            Some(text) => Ok(text),
            None => Err(json::mistyped(name, "a string or number")),
        },
        None => Err(json::missing(name)),
    }
}

fn may_scalar(object: &Json, name: &str) -> (r: Result<Option<String>, String>)
    ensures
        match r {
            Ok(found) => {
                &&& optional_scalar_shape(object@, name@) is None
                &&& scalar_at(object@, name@) == domain::text_view(found)
            },
            Err(message) => optional_scalar_shape(object@, name@) == Some(message@),
        },
{
    match object.member(name) {
        Some(value) => if value.is_null() {
            Ok(None)
        } else {
            match scalar(value) {
                Some(text) => Ok(Some(text)),
                None => Err(json::mistyped(name, "a string or number")),
            }
        },
        None => Ok(None),
    }
}

fn default_text(object: &Json, name: &str) -> (r: Result<String, String>)
    ensures
        match r {
            Ok(text) => {
                &&& default_text_shape(object@, name@) is None
                &&& text@ == json::text_at(object@, name@)
            },
            Err(message) => default_text_shape(object@, name@) == Some(message@),
        },
{
    match object.member(name) {
        Some(value) => match value.as_text() {
            Some(text) => Ok(text.to_owned()),
            None => Err(json::mistyped(name, "a string")),
        },
        None => {
            let empty = String::new();
            proof {
                assert(empty@ =~= Seq::empty());
            }
            Ok(empty)
        },
    }
}

// ---------------------------------------------------------------------------------------------
// Checked values
// ---------------------------------------------------------------------------------------------

/// The number that a text is, in plain or else in scientific notation.
pub open spec fn number_in(raw: Seq<char>) -> Option<decimal::ParsedDecimalView> {
    match decimal::decimal_of(raw) {
        Some(number) => Some(number),
        None => decimal::scientific_of(raw),
    }
}

/// Why a text is no positive decimal.
pub open spec fn positive_problem(field: Seq<char>, raw: Seq<char>) -> Option<Seq<char>> {
    let no_decimal = field + " is not a decimal: "@ + raw;
    match number_in(raw) {
        None => Some(no_decimal),
        Some(number) => providers::unless(
            number.mantissa > 0,
            field + " must be greater than zero"@,
        ).or_next(
            providers::unless(
                domain::is_decimal(raw) || domain::is_decimal(number.text),
                no_decimal,
            ),
        ),
    }
}

/// A positive decimal as it is kept: as it was written, or in plain notation where it was not.
pub open spec fn positive_text(raw: Seq<char>) -> Seq<char> {
    if domain::is_decimal(raw) {
        raw
    } else {
        number_in(raw)->0.text
    }
}

/// Why an optional text is no positive decimal.
pub open spec fn optional_positive_problem(field: Seq<char>, raw: Option<Seq<char>>) -> Option<
    Seq<char>,
> {
    match raw {
        Some(raw) => positive_problem(field, raw),
        None => None,
    }
}

/// An optional positive decimal as it is kept.
pub open spec fn optional_positive(raw: Option<Seq<char>>) -> Option<Seq<char>> {
    match raw {
        Some(raw) => Some(positive_text(raw)),
        None => None,
    }
}

/// What an object has under a name, where the empty text stands for nothing.
pub open spec fn filled_scalar_at(object: JsonView, name: Seq<char>) -> Option<Seq<char>> {
    if is_blank_text(object, name) {
        None
    } else {
        scalar_at(object, name)
    }
}

/// A time that is given: neither empty nor zero.
pub open spec fn given_time(raw: Option<Seq<char>>) -> Option<Seq<char>> {
    match raw {
        Some(raw) => if raw.len() == 0 || raw == "0"@ {
            None
        } else {
            Some(raw)
        },
        None => None,
    }
}

/// Why a given time is none.
pub open spec fn time_problem(field: Seq<char>, raw: Option<Seq<char>>) -> Option<Seq<char>> {
    match given_time(raw) {
        Some(raw) => providers::unless(
            text::unsigned_problem(raw) is None,
            field + " must be an unsigned millisecond timestamp"@,
        ),
        None => None,
    }
}

/// The time in milliseconds.
pub open spec fn time_of(raw: Option<Seq<char>>) -> Option<u64> {
    match given_time(raw) {
        Some(raw) => Some(text::digits_value(text::unsigned_run(raw)) as u64),
        None => None,
    }
}

/// A control character.
pub open spec fn is_control(c: char) -> bool {
    c as u32 <= 0x1f || 0x7f <= c as u32 <= 0x9f
}

/// Whether a text identifies an asset.
pub open spec fn is_asset(value: Seq<char>) -> bool {
    &&& value.len() > 0
    &&& text::byte_length(value) <= MAX_ASSET_BYTES
    &&& forall|i: int|
        0 <= i < value.len() ==> !text::is_white(#[trigger] value[i]) && !is_control(value[i])
}

/// Why a text does not identify an asset.
pub open spec fn asset_problem(field: Seq<char>, value: Seq<char>) -> Option<Seq<char>> {
    providers::unless(is_asset(value), field + " must be a non-empty venue asset identifier"@)
}

/// Why a text is no symbol in its canonical form.
pub open spec fn symbol_problem(value: Seq<char>) -> Option<Seq<char>> {
    match domain::symbol_identity(value) {
        Ok(normal) => providers::unless(
            normal == value,
            "symbol is not in its exact canonical form: "@ + value,
        ),
        Err(error) => Some("invalid symbol: "@ + domain::domain_message(error)),
    }
}

fn positive_decimal(field: &str, raw: &str) -> (r: Result<DecimalValue, String>)
    ensures
        match r {
            Ok(value) => positive_problem(field@, raw@) is None && value@ == positive_text(raw@),
            Err(message) => positive_problem(field@, raw@) == Some(message@),
        },
{
    let number = match decimal::read(raw) {
        Some(number) => number,
        None => match decimal::read_scientific(raw) {
            Some(number) => number,
            None => {
                return Err(text::cat3(field, " is not a decimal: ", raw));
            },
        },
    };
    if number.mantissa <= 0 {
        return Err(text::cat2(field, " must be greater than zero"));
    }
    if let Ok(value) = DecimalValue::new(raw) {
        return Ok(value);
    }
    match DecimalValue::new(number.text.as_str()) {
        Ok(value) => Ok(value),
        Err(_) => Err(text::cat3(field, " is not a decimal: ", raw)),
    }
}

fn optional_positive_decimal(field: &str, raw: &Option<String>) -> (r: Result<
    Option<DecimalValue>,
    String,
>)
    ensures
        match r {
            Ok(value) => {
                &&& optional_positive_problem(field@, domain::text_view(*raw)) is None
                &&& domain::decimal_view(value) == optional_positive(domain::text_view(*raw))
            },
            Err(message) => optional_positive_problem(field@, domain::text_view(*raw)) == Some(
                message@,
            ),
        },
{
    match raw {
        Some(raw) => {
            let value = positive_decimal(field, raw.as_str())?;
            Ok(Some(value))
        },
        None => Ok(None),
    }
}

/// What an object has under a name, where the empty text stands for nothing.
fn filled_scalar(object: &Json, name: &str) -> (raw: Option<String>)
    requires
        optional_scalar_shape(object@, name@) is None,
    ensures
        domain::text_view(raw) == filled_scalar_at(object@, name@),
{
    match object.member(name) {
        Some(value) => match value {
            Json::Text(text) => {
                if text.as_str().is_empty() {
                    proof {
                        assert(text@ =~= Seq::empty());
                    }
                    None
                } else {
                    Some(text.clone())
                }
            },
            Json::Number(number) => Some(number.text.clone()),
            _ => None,
        },
        None => None,
    }
}

/// What an object has under a name.
fn any_scalar(object: &Json, name: &str) -> (raw: Option<String>)
    requires
        optional_scalar_shape(object@, name@) is None,
    ensures
        domain::text_view(raw) == scalar_at(object@, name@),
{
    match object.member(name) {
        Some(value) => match value {
            Json::Text(text) => Some(text.clone()),
            Json::Number(number) => Some(number.text.clone()),
            _ => None,
        },
        None => None,
    }
}

fn optional_timestamp_ms(field: &str, raw: &Option<String>) -> (r: Result<Option<u64>, String>)
    ensures
        match r {
            Ok(value) => {
                &&& time_problem(field@, domain::text_view(*raw)) is None
                &&& value == time_of(domain::text_view(*raw))
            },
            Err(message) => time_problem(field@, domain::text_view(*raw)) == Some(message@),
        },
{
    let raw = match raw {
        Some(raw) => raw.as_str(),
        None => {
            return Ok(None);
        },
    };
    if raw.is_empty() || text::same(raw, "0") {
        return Ok(None);
    }
    match text::parse_unsigned(raw) {
        Ok(value) => Ok(Some(value)),
        Err(_) => Err(text::cat2(field, " must be an unsigned millisecond timestamp")),
    }
}

fn exact_asset(field: &str, value: &str) -> (r: Result<String, String>)
    ensures
        match r {
            Ok(asset) => asset_problem(field@, value@) is None && asset@ == value@,
            Err(message) => asset_problem(field@, value@) == Some(message@),
        },
{
    let refusal = text::cat2(field, " must be a non-empty venue asset identifier");
    let list = text::characters(value);
    if list.len() == 0 || text::length(value) > MAX_ASSET_BYTES {
        return Err(refusal);
    }
    let mut i: usize = 0;
    while i < list.len()
        invariant
            i <= list@.len(),
            list@ == value@,
            refusal@ == field@ + " must be a non-empty venue asset identifier"@,
            forall|k: int|
                0 <= k < i ==> !text::is_white(#[trigger] value@[k]) && !is_control(value@[k]),
        decreases list.len() - i,
    {
        let code = list[i] as u32;
        if text::white(list[i]) || code <= 0x1f || (0x7f <= code && code <= 0x9f) {
            return Err(refusal);
        }
        i += 1;
    }
    Ok(value.to_owned())
}

fn exact_symbol(value: &str) -> (r: Result<String, String>)
    ensures
        match r {
            Ok(symbol) => symbol_problem(value@) is None && symbol@ == value@,
            Err(message) => symbol_problem(value@) == Some(message@),
        },
{
    match domain::normalize_symbol(value) {
        Ok(normal) => if text::same(normal.as_str(), value) {
            Ok(normal)
        } else {
            Err(text::cat2("symbol is not in its exact canonical form: ", value))
        },
        Err(error) => Err(text::cat2("invalid symbol: ", error.message().as_str())),
    }
}

/// The text or number of that name.
fn scalar_of(object: &Json, name: &str) -> (raw: String)
    requires
        scalar_shape(object@, name@) is None,
    ensures
        scalar_at(object@, name@) == Some(raw@),
{
    match any_scalar(object, name) {
        Some(raw) => raw,
        None => String::new(),
    }
}

/// The text of that name.
fn text_of<'a>(object: &'a Json, name: &str) -> (found: &'a str)
    ensures
        found@ == json::text_at(object@, name@),
{
    match json::find_text(object, name) {
        Some(found) => found,
        None => {
            proof {
                reveal_strlit("");
                assert(""@ =~= Seq::empty());
            }
            ""
        },
    }
}

/// The value of what an item came to.
pub open spec fn item_view(r: Result<Option<Instrument>, String>) -> Result<
    Option<InstrumentView>,
    Seq<char>,
> {
    match r {
        Ok(Some(instrument)) => Ok(Some(instrument@)),
        Ok(None) => Ok(None),
        Err(message) => Err(message@),
    }
}

/// An item that is listed unless there is a complaint about it.
pub open spec fn listed_unless(problem: Option<Seq<char>>, instrument: InstrumentView) -> Result<
    Option<InstrumentView>,
    Seq<char>,
> {
    match problem {
        Some(message) => Err(message),
        None => Ok(Some(instrument)),
    }
}

// ---------------------------------------------------------------------------------------------
// Bybit
// ---------------------------------------------------------------------------------------------

/// Why an object has no object of that name with a text or number in it.
pub open spec fn nested_shape(object: JsonView, outer: Seq<char>, inner: Seq<char>) -> Option<
    Seq<char>,
> {
    match json::member_of(object, outer) {
        Some(value) => scalar_shape(value, inner),
        None => Some(json::missing_message(outer)),
    }
}

/// Why what an object has under a name is neither absent, nor null, nor an object with a text or
/// number in it.
pub open spec fn optional_nested_shape(object: JsonView, outer: Seq<char>, inner: Seq<char>) -> Option<
    Seq<char>,
> {
    match json::member_of(object, outer) {
        Some(JsonView::Null) | None => None,
        Some(value) => scalar_shape(value, inner),
    }
}

/// The text or number in the object of that name.
pub open spec fn nested_at(object: JsonView, outer: Seq<char>, inner: Seq<char>) -> Option<Seq<char>> {
    match json::member_of(object, outer) {
        Some(JsonView::Null) | None => None,
        Some(value) => scalar_at(value, inner),
    }
}

fn check_nested(object: &Json, outer: &str, inner: &str) -> (r: Result<(), String>)
    ensures
        match r {
            Ok(()) => nested_shape(object@, outer@, inner@) is None,
            Err(message) => nested_shape(object@, outer@, inner@) == Some(message@),
        },
{
    match object.member(outer) {
        Some(value) => {
            need_scalar(value, inner)?;
            Ok(())
        },
        None => Err(json::missing(outer)),
    }
}

fn check_optional_nested(object: &Json, outer: &str, inner: &str) -> (r: Result<(), String>)
    ensures
        match r {
            Ok(()) => optional_nested_shape(object@, outer@, inner@) is None,
            Err(message) => optional_nested_shape(object@, outer@, inner@) == Some(message@),
        },
{
    match object.member(outer) {
        Some(value) => if value.is_null() {
            Ok(())
        } else {
            need_scalar(value, inner)?;
            Ok(())
        },
        None => Ok(()),
    }
}

fn nested(object: &Json, outer: &str, inner: &str) -> (raw: Option<String>)
    requires
        optional_nested_shape(object@, outer@, inner@) is None,
    ensures
        domain::text_view(raw) == nested_at(object@, outer@, inner@),
{
    match object.member(outer) {
        Some(value) => if value.is_null() {
            None
        } else {
            Some(scalar_of(value, inner))
        },
        None => None,
    }
}

/// Why an object is no Bybit instrument.
pub open spec fn bybit_shape(item: JsonView) -> Option<Seq<char>> {
    json::text_problem(item, "symbol"@)
        .or_next(json::text_problem(item, "contractType"@))
        .or_next(json::text_problem(item, "status"@))
        .or_next(json::text_problem(item, "baseCoin"@))
        .or_next(json::text_problem(item, "quoteCoin"@))
        .or_next(json::text_problem(item, "settleCoin"@))
        .or_next(optional_scalar_shape(item, "launchTime"@))
        .or_next(optional_scalar_shape(item, "deliveryTime"@))
        .or_next(nested_shape(item, "priceFilter"@, "tickSize"@))
        .or_next(nested_shape(item, "lotSizeFilter"@, "qtyStep"@))
        .or_next(optional_nested_shape(item, "leverageFilter"@, "maxLeverage"@))
}

fn check_bybit(item: &Json) -> (r: Result<(), String>)
    ensures
        match r {
            Ok(()) => bybit_shape(item@) is None,
            Err(message) => bybit_shape(item@) == Some(message@),
        },
{
    json::need_text(item, "symbol")?;
    json::need_text(item, "contractType")?;
    json::need_text(item, "status")?;
    json::need_text(item, "baseCoin")?;
    json::need_text(item, "quoteCoin")?;
    json::need_text(item, "settleCoin")?;
    may_scalar(item, "launchTime")?;
    may_scalar(item, "deliveryTime")?;
    check_nested(item, "priceFilter", "tickSize")?;
    check_nested(item, "lotSizeFilter", "qtyStep")?;
    check_optional_nested(item, "leverageFilter", "maxLeverage")
}

/// Whether a Bybit instrument is a linear perpetual in trading.
pub open spec fn bybit_is_live(item: JsonView) -> bool {
    json::text_at(item, "contractType"@) == "LinearPerpetual"@ && json::text_at(item, "status"@)
        == "Trading"@
}

/// Why a Bybit instrument is refused.
pub open spec fn bybit_problem(item: JsonView) -> Option<Seq<char>> {
    symbol_problem(json::text_at(item, "symbol"@))
        .or_next(
        optional_positive_problem(
            "leverageFilter.maxLeverage"@,
            nested_at(item, "leverageFilter"@, "maxLeverage"@),
        ),
    )
        .or_next(asset_problem("baseCoin"@, json::text_at(item, "baseCoin"@)))
        .or_next(asset_problem("quoteCoin"@, json::text_at(item, "quoteCoin"@)))
        .or_next(asset_problem("settleCoin"@, json::text_at(item, "settleCoin"@)))
        .or_next(
        optional_positive_problem(
            "priceFilter.tickSize"@,
            nested_at(item, "priceFilter"@, "tickSize"@),
        ),
    )
        .or_next(
        optional_positive_problem(
            "lotSizeFilter.qtyStep"@,
            nested_at(item, "lotSizeFilter"@, "qtyStep"@),
        ),
    )
        .or_next(time_problem("launchTime"@, scalar_at(item, "launchTime"@)))
        .or_next(time_problem("deliveryTime"@, scalar_at(item, "deliveryTime"@)))
}

/// The instrument of a Bybit item.
pub open spec fn bybit_instrument_of(item: JsonView) -> InstrumentView {
    let symbol = json::text_at(item, "symbol"@);
    InstrumentView {
        instrument_id: domain::instrument_identifier(
            Provider::Bybit,
            MarketKind::LinearPerpetual,
            symbol,
        ),
        symbol,
        provider: Provider::Bybit,
        market: MarketKind::LinearPerpetual,
        base_asset: json::text_at(item, "baseCoin"@),
        quote_asset: json::text_at(item, "quoteCoin"@),
        settle_asset: json::text_at(item, "settleCoin"@),
        status: InstrumentStatus::Live,
        venue_status: json::text_at(item, "status"@),
        tick_size: positive_text(nested_at(item, "priceFilter"@, "tickSize"@)->0),
        quantity_step: positive_text(nested_at(item, "lotSizeFilter"@, "qtyStep"@)->0),
        contract_size: None,
        contract_size_asset: None,
        max_leverage: optional_positive(nested_at(item, "leverageFilter"@, "maxLeverage"@)),
        listing_time_ms: time_of(scalar_at(item, "launchTime"@)),
        expiry_time_ms: time_of(scalar_at(item, "deliveryTime"@)),
        capabilities: catalog::venue_capabilities(Provider::Bybit),
    }
}

/// What a Bybit item comes to.
pub open spec fn bybit_item(item: JsonView) -> Result<Option<InstrumentView>, Seq<char>> {
    if bybit_is_live(item) {
        listed_unless(bybit_problem(item), bybit_instrument_of(item))
    } else {
        Ok(None)
    }
}

fn bybit_instrument(item: &Json) -> (r: Result<Option<Instrument>, String>)
    requires
        bybit_shape(item@) is None,
    ensures
        item_view(r) == bybit_item(item@),
{
    let status = text_of(item, "status");
    if !text::same(text_of(item, "contractType"), "LinearPerpetual") || !text::same(
        status,
        "Trading",
    ) {
        return Ok(None);
    }
    let symbol = exact_symbol(text_of(item, "symbol"))?;
    let leverage = nested(item, "leverageFilter", "maxLeverage");
    let max_leverage = optional_positive_decimal("leverageFilter.maxLeverage", &leverage)?;
    let base_asset = exact_asset("baseCoin", text_of(item, "baseCoin"))?;
    let quote_asset = exact_asset("quoteCoin", text_of(item, "quoteCoin"))?;
    let settle_asset = exact_asset("settleCoin", text_of(item, "settleCoin"))?;
    let tick = required_nested(item, "priceFilter", "tickSize");
    let tick_size = positive_decimal("priceFilter.tickSize", tick.as_str())?;
    let step = required_nested(item, "lotSizeFilter", "qtyStep");
    let quantity_step = positive_decimal("lotSizeFilter.qtyStep", step.as_str())?;
    let launch = any_scalar(item, "launchTime");
    let listing_time_ms = optional_timestamp_ms("launchTime", &launch)?;
    let delivery = any_scalar(item, "deliveryTime");
    let expiry_time_ms = optional_timestamp_ms("deliveryTime", &delivery)?;
    Ok(
        Some(
            Instrument {
                instrument_id: catalog::identifier(
                    Provider::Bybit,
                    MarketKind::LinearPerpetual,
                    symbol.as_str(),
                ),
                symbol,
                provider: Provider::Bybit,
                market: MarketKind::LinearPerpetual,
                base_asset,
                quote_asset,
                settle_asset,
                status: InstrumentStatus::Live,
                venue_status: status.to_owned(),
                tick_size,
                quantity_step,
                contract_size: None,
                contract_size_asset: None,
                max_leverage,
                listing_time_ms,
                expiry_time_ms,
                capabilities: catalog::capabilities(Provider::Bybit),
            },
        ),
    )
}

/// The text or number in the object of that name.
fn required_nested(object: &Json, outer: &str, inner: &str) -> (raw: String)
    requires
        nested_shape(object@, outer@, inner@) is None,
    ensures
        nested_at(object@, outer@, inner@) == Some(raw@),
{
    match object.member(outer) {
        Some(value) => scalar_of(value, inner),
        None => String::new(),
    }
}

// ---------------------------------------------------------------------------------------------
// Binance
// ---------------------------------------------------------------------------------------------

/// Why an object is no Binance filter.
pub open spec fn filter_shape(filter: JsonView) -> Option<Seq<char>> {
    json::text_problem(filter, "filterType"@)
        .or_next(optional_scalar_shape(filter, "tickSize"@))
        .or_next(optional_scalar_shape(filter, "stepSize"@))
}

/// Why an object is no Binance instrument.
pub open spec fn binance_shape(item: JsonView) -> Option<Seq<char>> {
    json::text_problem(item, "symbol"@)
        .or_next(json::text_problem(item, "contractType"@))
        .or_next(json::text_problem(item, "status"@))
        .or_next(json::text_problem(item, "baseAsset"@))
        .or_next(json::text_problem(item, "quoteAsset"@))
        .or_next(json::text_problem(item, "marginAsset"@))
        .or_next(json::optional_unsigned_problem(item, "onboardDate"@))
        .or_next(json::list_problem(item, "filters"@))
        .or_next(
        providers::first_complaint(
            json::list_at(item, "filters"@),
            |filter: JsonView| filter_shape(filter),
        ),
    )
}

fn check_filter(filter: &Json) -> (r: Result<(), String>)
    ensures
        match r {
            Ok(()) => filter_shape(filter@) is None,
            Err(message) => filter_shape(filter@) == Some(message@),
        },
{
    json::need_text(filter, "filterType")?;
    may_scalar(filter, "tickSize")?;
    may_scalar(filter, "stepSize")?;
    Ok(())
}

fn check_filters(filters: &Vec<Json>) -> (r: Result<(), String>)
    ensures
        ({
            let complaint = providers::first_complaint(
                json::views(filters@),
                |filter: JsonView| filter_shape(filter),
            );
            match r {
                Ok(()) => complaint is None,
                Err(message) => complaint == Some(message@),
            }
        }),
{
    let ghost all = json::views(filters@);
    let ghost check = |filter: JsonView| filter_shape(filter);
    let mut i: usize = 0;
    while i < filters.len()
        invariant
            i <= filters@.len(),
            all == json::views(filters@),
            check == (|filter: JsonView| filter_shape(filter)),
            providers::first_complaint(all.take(i as int), check) is None,
        decreases filters.len() - i,
    {
        proof {
            providers::lemma_next_complaint(all, i as int, check);
        }
        check_filter(&filters[i])?;
        i += 1;
    }
    proof {
        assert(all.take(i as int) =~= all);
    }
    Ok(())
}

fn check_binance(item: &Json) -> (r: Result<(), String>)
    ensures
        match r {
            Ok(()) => binance_shape(item@) is None,
            Err(message) => binance_shape(item@) == Some(message@),
        },
{
    json::need_text(item, "symbol")?;
    json::need_text(item, "contractType")?;
    json::need_text(item, "status")?;
    json::need_text(item, "baseAsset")?;
    json::need_text(item, "quoteAsset")?;
    json::need_text(item, "marginAsset")?;
    json::may_unsigned(item, "onboardDate")?;
    let filters = json::need_list(item, "filters")?;
    check_filters(filters)
}

/// The filters of a kind.
pub open spec fn filters_of(filters: Seq<JsonView>, kind: Seq<char>) -> Seq<JsonView>
    decreases filters.len(),
{
    if filters.len() == 0 {
        Seq::empty()
    } else if json::text_at(filters.last(), "filterType"@) == kind {
        filters_of(filters.drop_last(), kind).push(filters.last())
    } else {
        filters_of(filters.drop_last(), kind)
    }
}

/// Why the decimal of the only filter of a kind cannot be taken.
pub open spec fn filter_problem(filters: Seq<JsonView>, kind: Seq<char>, field: Seq<char>) -> Option<
    Seq<char>,
> {
    let matching = filters_of(filters, kind);
    providers::unless(
        matching.len() == 1,
        "expected exactly one "@ + kind + ", got "@ + text::digits(matching.len()),
    ).or_next(
        match scalar_at(matching[0], field) {
            Some(raw) => positive_problem(kind + "."@ + field, raw),
            None => Some(kind + " is missing "@ + field),
        },
    )
}

/// The decimal of the only filter of a kind.
pub open spec fn filter_decimal(filters: Seq<JsonView>, kind: Seq<char>, field: Seq<char>) -> Seq<
    char,
> {
    positive_text(scalar_at(filters_of(filters, kind)[0], field)->0)
}

/// A filter of a list without complaints has the right shape.
proof fn lemma_filter_shapes(filters: Seq<JsonView>, i: int)
    requires
        0 <= i < filters.len(),
        providers::first_complaint(filters, |filter: JsonView| filter_shape(filter)) is None,
    ensures
        filter_shape(filters[i]) is None,
    decreases filters.len(),
{
    if i < filters.len() - 1 {
        assert(filters.drop_last()[i] == filters[i]);
        lemma_filter_shapes(filters.drop_last(), i);
    }
}

fn unique_filter_decimal(filters: &Vec<Json>, kind: &str, field: &str) -> (r: Result<
    DecimalValue,
    String,
>)
    requires
        providers::first_complaint(
            json::views(filters@),
            |filter: JsonView| filter_shape(filter),
        ) is None,
        field@ == "tickSize"@ || field@ == "stepSize"@,
    ensures
        match r {
            Ok(value) => {
                &&& filter_problem(json::views(filters@), kind@, field@) is None
                &&& value@ == filter_decimal(json::views(filters@), kind@, field@)
            },
            Err(message) => filter_problem(json::views(filters@), kind@, field@) == Some(message@),
        },
{
    let ghost all = json::views(filters@);
    let mut count: usize = 0;
    let mut first: usize = 0;
    let mut i: usize = 0;
    while i < filters.len()
        invariant
            i <= filters@.len(),
            count <= i,
            all == json::views(filters@),
            filters_of(all.take(i as int), kind@).len() == count,
            count > 0 ==> first < i && filters_of(all.take(i as int), kind@)[0]
                == all[first as int],
        decreases filters.len() - i,
    {
        proof {
            assert(all.take(i + 1).drop_last() =~= all.take(i as int));
            assert(all.take(i + 1).last() == all[i as int]);
        }
        if text::same(text_of(&filters[i], "filterType"), kind) {
            if count == 0 {
                first = i;
            }
            count += 1;
        }
        i += 1;
    }
    proof {
        assert(all.take(i as int) =~= all);
    }
    if count != 1 {
        return Err(
            text::cat4(
                "expected exactly one ",
                kind,
                ", got ",
                text::unsigned_text(count as u64).as_str(),
            ),
        );
    }
    proof {
        lemma_filter_shapes(all, first as int);
    }
    match any_scalar(&filters[first], field) {
        Some(raw) => positive_decimal(text::cat3(kind, ".", field).as_str(), raw.as_str()),
        None => Err(text::cat3(kind, " is missing ", field)),
    }
}

/// Whether a Binance instrument is a perpetual in trading.
pub open spec fn binance_is_live(item: JsonView) -> bool {
    json::text_at(item, "contractType"@) == "PERPETUAL"@ && json::text_at(item, "status"@)
        == "TRADING"@
}

/// Why a Binance instrument is refused.
pub open spec fn binance_problem(item: JsonView) -> Option<Seq<char>> {
    let filters = json::list_at(item, "filters"@);
    filter_problem(filters, "PRICE_FILTER"@, "tickSize"@)
        .or_next(filter_problem(filters, "LOT_SIZE"@, "stepSize"@))
        .or_next(symbol_problem(json::text_at(item, "symbol"@)))
        .or_next(asset_problem("baseAsset"@, json::text_at(item, "baseAsset"@)))
        .or_next(asset_problem("quoteAsset"@, json::text_at(item, "quoteAsset"@)))
        .or_next(asset_problem("marginAsset"@, json::text_at(item, "marginAsset"@)))
}

/// The instrument of a Binance item. The venue's distant delivery date of a perpetual is no expiry.
pub open spec fn binance_instrument_of(item: JsonView) -> InstrumentView {
    let filters = json::list_at(item, "filters"@);
    let symbol = json::text_at(item, "symbol"@);
    InstrumentView {
        instrument_id: domain::instrument_identifier(
            Provider::Binance,
            MarketKind::LinearPerpetual,
            symbol,
        ),
        symbol,
        provider: Provider::Binance,
        market: MarketKind::LinearPerpetual,
        base_asset: json::text_at(item, "baseAsset"@),
        quote_asset: json::text_at(item, "quoteAsset"@),
        settle_asset: json::text_at(item, "marginAsset"@),
        status: InstrumentStatus::Live,
        venue_status: json::text_at(item, "status"@),
        tick_size: filter_decimal(filters, "PRICE_FILTER"@, "tickSize"@),
        quantity_step: filter_decimal(filters, "LOT_SIZE"@, "stepSize"@),
        contract_size: None,
        contract_size_asset: None,
        max_leverage: None,
        listing_time_ms: match json::member_unsigned(item, "onboardDate"@) {
            Some(time) => if time != 0 {
                Some(time)
            } else {
                None
            },
            None => None,
        },
        expiry_time_ms: None,
        capabilities: catalog::venue_capabilities(Provider::Binance),
    }
}

/// What a Binance item comes to.
pub open spec fn binance_item(item: JsonView) -> Result<Option<InstrumentView>, Seq<char>> {
    if binance_is_live(item) {
        listed_unless(binance_problem(item), binance_instrument_of(item))
    } else {
        Ok(None)
    }
}

fn binance_instrument(item: &Json) -> (r: Result<Option<Instrument>, String>)
    requires
        binance_shape(item@) is None,
    ensures
        item_view(r) == binance_item(item@),
{
    let status = text_of(item, "status");
    if !text::same(text_of(item, "contractType"), "PERPETUAL") || !text::same(status, "TRADING") {
        return Ok(None);
    }
    let filters = json::need_list(item, "filters")?;
    let tick_size = unique_filter_decimal(filters, "PRICE_FILTER", "tickSize")?;
    let quantity_step = unique_filter_decimal(filters, "LOT_SIZE", "stepSize")?;
    let symbol = exact_symbol(text_of(item, "symbol"))?;
    let base_asset = exact_asset("baseAsset", text_of(item, "baseAsset"))?;
    let quote_asset = exact_asset("quoteAsset", text_of(item, "quoteAsset"))?;
    let settle_asset = exact_asset("marginAsset", text_of(item, "marginAsset"))?;
    let listing_time_ms = match json::find_unsigned(item, "onboardDate") {
        Some(time) => if time != 0 {
            Some(time)
        } else {
            None
        },
        None => None,
    };
    Ok(
        Some(
            Instrument {
                instrument_id: catalog::identifier(
                    Provider::Binance,
                    MarketKind::LinearPerpetual,
                    symbol.as_str(),
                ),
                symbol,
                provider: Provider::Binance,
                market: MarketKind::LinearPerpetual,
                base_asset,
                quote_asset,
                settle_asset,
                status: InstrumentStatus::Live,
                venue_status: status.to_owned(),
                tick_size,
                quantity_step,
                contract_size: None,
                contract_size_asset: None,
                max_leverage: None,
                listing_time_ms,
                expiry_time_ms: None,
                capabilities: catalog::capabilities(Provider::Binance),
            },
        ),
    )
}

// ---------------------------------------------------------------------------------------------
// OKX
// ---------------------------------------------------------------------------------------------

/// Why an object is no OKX instrument.
pub open spec fn okx_shape(item: JsonView) -> Option<Seq<char>> {
    json::text_problem(item, "instId"@)
        .or_next(json::text_problem(item, "instType"@))
        .or_next(json::text_problem(item, "state"@))
        .or_next(default_text_shape(item, "baseCcy"@))
        .or_next(default_text_shape(item, "quoteCcy"@))
        .or_next(json::text_problem(item, "settleCcy"@))
        .or_next(json::text_problem(item, "ctType"@))
        .or_next(scalar_shape(item, "ctVal"@))
        .or_next(default_text_shape(item, "ctValCcy"@))
        .or_next(scalar_shape(item, "tickSz"@))
        .or_next(scalar_shape(item, "lotSz"@))
        .or_next(optional_scalar_shape(item, "lever"@))
        .or_next(optional_scalar_shape(item, "listTime"@))
        .or_next(optional_scalar_shape(item, "expTime"@))
        .or_next(default_text_shape(item, "uly"@))
        .or_next(default_text_shape(item, "instFamily"@))
}

fn check_okx(item: &Json) -> (r: Result<(), String>)
    ensures
        match r {
            Ok(()) => okx_shape(item@) is None,
            Err(message) => okx_shape(item@) == Some(message@),
        },
{
    json::need_text(item, "instId")?;
    json::need_text(item, "instType")?;
    json::need_text(item, "state")?;
    default_text(item, "baseCcy")?;
    default_text(item, "quoteCcy")?;
    json::need_text(item, "settleCcy")?;
    json::need_text(item, "ctType")?;
    need_scalar(item, "ctVal")?;
    default_text(item, "ctValCcy")?;
    need_scalar(item, "tickSz")?;
    need_scalar(item, "lotSz")?;
    may_scalar(item, "lever")?;
    may_scalar(item, "listTime")?;
    may_scalar(item, "expTime")?;
    default_text(item, "uly")?;
    default_text(item, "instFamily")?;
    Ok(())
}

/// The underlying of an OKX instrument, or else its family.
pub open spec fn okx_underlying(item: JsonView) -> Seq<char> {
    if json::text_at(item, "uly"@).len() == 0 {
        json::text_at(item, "instFamily"@)
    } else {
        json::text_at(item, "uly"@)
    }
}

/// Why an underlying is no pair of assets.
pub open spec fn underlying_problem(underlying: Seq<char>) -> Option<Seq<char>> {
    match text::parts_around(underlying, '-') {
        None => Some("could not derive assets from underlying "@ + underlying),
        Some((base, quote)) => providers::unless(
            !text::holds(quote, '-'),
            "underlying must contain exactly two assets: "@ + underlying,
        )
            .or_next(asset_problem("underlying base"@, base))
            .or_next(asset_problem("underlying quote"@, quote)),
    }
}

/// The assets of an underlying.
pub open spec fn underlying_assets(underlying: Seq<char>) -> (Seq<char>, Seq<char>) {
    text::parts_around(underlying, '-')->0
}

/// Whether an OKX instrument is a linear swap in trading.
pub open spec fn okx_is_live(item: JsonView) -> bool {
    json::text_at(item, "instType"@) == "SWAP"@ && json::text_at(item, "ctType"@) == "linear"@
        && json::text_at(item, "state"@) == "live"@
}

/// Why an asset that may be left out is none.
pub open spec fn named_asset_problem(item: JsonView, name: Seq<char>) -> Option<Seq<char>> {
    if json::text_at(item, name).len() == 0 {
        None
    } else {
        asset_problem(name, json::text_at(item, name))
    }
}

/// An asset that may be left out, with what it is then.
pub open spec fn named_asset(item: JsonView, name: Seq<char>, otherwise: Seq<char>) -> Seq<char> {
    if json::text_at(item, name).len() == 0 {
        otherwise
    } else {
        json::text_at(item, name)
    }
}

/// Why an OKX instrument is refused.
pub open spec fn okx_problem(item: JsonView) -> Option<Seq<char>> {
    underlying_problem(okx_underlying(item))
        .or_next(named_asset_problem(item, "baseCcy"@))
        .or_next(named_asset_problem(item, "quoteCcy"@))
        .or_next(named_asset_problem(item, "ctValCcy"@))
        .or_next(symbol_problem(json::text_at(item, "instId"@)))
        .or_next(asset_problem("settleCcy"@, json::text_at(item, "settleCcy"@)))
        .or_next(optional_positive_problem("tickSz"@, scalar_at(item, "tickSz"@)))
        .or_next(optional_positive_problem("lotSz"@, scalar_at(item, "lotSz"@)))
        .or_next(optional_positive_problem("ctVal"@, scalar_at(item, "ctVal"@)))
        .or_next(optional_positive_problem("lever"@, filled_scalar_at(item, "lever"@)))
        .or_next(time_problem("listTime"@, scalar_at(item, "listTime"@)))
        .or_next(time_problem("expTime"@, scalar_at(item, "expTime"@)))
}

/// The instrument of an OKX item.
pub open spec fn okx_instrument_of(item: JsonView) -> InstrumentView {
    let symbol = json::text_at(item, "instId"@);
    let assets = underlying_assets(okx_underlying(item));
    let base_asset = named_asset(item, "baseCcy"@, assets.0);
    InstrumentView {
        instrument_id: domain::instrument_identifier(
            Provider::Okx,
            MarketKind::LinearPerpetual,
            symbol,
        ),
        symbol,
        provider: Provider::Okx,
        market: MarketKind::LinearPerpetual,
        base_asset,
        quote_asset: named_asset(item, "quoteCcy"@, assets.1),
        settle_asset: json::text_at(item, "settleCcy"@),
        status: InstrumentStatus::Live,
        venue_status: json::text_at(item, "state"@),
        tick_size: positive_text(scalar_at(item, "tickSz"@)->0),
        quantity_step: positive_text(scalar_at(item, "lotSz"@)->0),
        contract_size: Some(positive_text(scalar_at(item, "ctVal"@)->0)),
        contract_size_asset: Some(named_asset(item, "ctValCcy"@, base_asset)),
        max_leverage: optional_positive(filled_scalar_at(item, "lever"@)),
        listing_time_ms: time_of(scalar_at(item, "listTime"@)),
        expiry_time_ms: time_of(scalar_at(item, "expTime"@)),
        capabilities: catalog::venue_capabilities(Provider::Okx),
    }
}

/// What an OKX item comes to.
pub open spec fn okx_item(item: JsonView) -> Result<Option<InstrumentView>, Seq<char>> {
    if okx_is_live(item) {
        listed_unless(okx_problem(item), okx_instrument_of(item))
    } else {
        Ok(None)
    }
}

fn okx_underlying_assets(item: &Json) -> (r: Result<(String, String), String>)
    ensures
        match r {
            Ok((base, quote)) => {
                &&& underlying_problem(okx_underlying(item@)) is None
                &&& (base@, quote@) == underlying_assets(okx_underlying(item@))
            },
            Err(message) => underlying_problem(okx_underlying(item@)) == Some(message@),
        },
{
    let direct = text_of(item, "uly");
    let underlying = if direct.is_empty() {
        text_of(item, "instFamily")
    } else {
        direct
    };
    let (base, quote) = match text::split_once(underlying, '-') {
        Some((base, quote)) => (base, quote),
        None => {
            return Err(text::cat2("could not derive assets from underlying ", underlying));
        },
    };
    if text::contains(quote, '-') {
        return Err(text::cat2("underlying must contain exactly two assets: ", underlying));
    }
    let base = exact_asset("underlying base", base)?;
    let quote = exact_asset("underlying quote", quote)?;
    Ok((base, quote))
}

fn asset_or(item: &Json, name: &str, otherwise: String) -> (r: Result<String, String>)
    ensures
        match r {
            Ok(asset) => {
                &&& named_asset_problem(item@, name@) is None
                &&& asset@ == named_asset(item@, name@, otherwise@)
            },
            Err(message) => named_asset_problem(item@, name@) == Some(message@),
        },
{
    let given = text_of(item, name);
    if given.is_empty() {
        Ok(otherwise)
    } else {
        exact_asset(name, given)
    }
}

fn okx_instrument(item: &Json) -> (r: Result<Option<Instrument>, String>)
    requires
        okx_shape(item@) is None,
    ensures
        item_view(r) == okx_item(item@),
{
    let state = text_of(item, "state");
    if !text::same(text_of(item, "instType"), "SWAP") || !text::same(
        text_of(item, "ctType"),
        "linear",
    ) || !text::same(state, "live") {
        return Ok(None);
    }
    let (derived_base, derived_quote) = okx_underlying_assets(item)?;
    let base_asset = asset_or(item, "baseCcy", derived_base)?;
    let quote_asset = asset_or(item, "quoteCcy", derived_quote)?;
    let contract_size_asset = asset_or(item, "ctValCcy", base_asset.clone())?;
    let symbol = exact_symbol(text_of(item, "instId"))?;
    let settle_asset = exact_asset("settleCcy", text_of(item, "settleCcy"))?;
    let tick_size = positive_decimal("tickSz", scalar_of(item, "tickSz").as_str())?;
    let quantity_step = positive_decimal("lotSz", scalar_of(item, "lotSz").as_str())?;
    let contract_size = positive_decimal("ctVal", scalar_of(item, "ctVal").as_str())?;
    let max_leverage = optional_positive_decimal("lever", &filled_scalar(item, "lever"))?;
    let listing_time_ms = optional_timestamp_ms("listTime", &any_scalar(item, "listTime"))?;
    let expiry_time_ms = optional_timestamp_ms("expTime", &any_scalar(item, "expTime"))?;
    Ok(
        Some(
            Instrument {
                instrument_id: catalog::identifier(
                    Provider::Okx,
                    MarketKind::LinearPerpetual,
                    symbol.as_str(),
                ),
                symbol,
                provider: Provider::Okx,
                market: MarketKind::LinearPerpetual,
                base_asset,
                quote_asset,
                settle_asset,
                status: InstrumentStatus::Live,
                venue_status: state.to_owned(),
                tick_size,
                quantity_step,
                contract_size: Some(contract_size),
                contract_size_asset: Some(contract_size_asset),
                max_leverage,
                listing_time_ms,
                expiry_time_ms,
                capabilities: catalog::capabilities(Provider::Okx),
            },
        ),
    )
}

// ---------------------------------------------------------------------------------------------
// KuCoin
// ---------------------------------------------------------------------------------------------

/// Why an object is no KuCoin instrument.
pub open spec fn kucoin_shape(item: JsonView) -> Option<Seq<char>> {
    json::text_problem(item, "symbol"@)
        .or_next(json::text_problem(item, "type"@))
        .or_next(json::text_problem(item, "status"@))
        .or_next(json::text_problem(item, "baseCurrency"@))
        .or_next(json::text_problem(item, "quoteCurrency"@))
        .or_next(json::text_problem(item, "settleCurrency"@))
        .or_next(optional_scalar_shape(item, "firstOpenDate"@))
        .or_next(optional_scalar_shape(item, "expireDate"@))
        .or_next(scalar_shape(item, "tickSize"@))
        .or_next(scalar_shape(item, "lotSize"@))
        .or_next(scalar_shape(item, "multiplier"@))
        .or_next(optional_scalar_shape(item, "maxLeverage"@))
        .or_next(json::flag_problem(item, "isInverse"@))
}

fn check_kucoin(item: &Json) -> (r: Result<(), String>)
    ensures
        match r {
            Ok(()) => kucoin_shape(item@) is None,
            Err(message) => kucoin_shape(item@) == Some(message@),
        },
{
    json::need_text(item, "symbol")?;
    json::need_text(item, "type")?;
    json::need_text(item, "status")?;
    json::need_text(item, "baseCurrency")?;
    json::need_text(item, "quoteCurrency")?;
    json::need_text(item, "settleCurrency")?;
    may_scalar(item, "firstOpenDate")?;
    may_scalar(item, "expireDate")?;
    need_scalar(item, "tickSize")?;
    need_scalar(item, "lotSize")?;
    need_scalar(item, "multiplier")?;
    may_scalar(item, "maxLeverage")?;
    json::need_flag(item, "isInverse")?;
    Ok(())
}

/// Whether a KuCoin instrument is an open linear contract of the perpetual kind.
pub open spec fn kucoin_is_open(item: JsonView) -> bool {
    json::text_at(item, "type"@) == "FFWCSX"@ && json::text_at(item, "status"@) == "Open"@
        && !json::flag_at(item, "isInverse"@)
}

/// Whether a KuCoin instrument has no expiry and settles in USDT or USDC.
pub open spec fn kucoin_is_perpetual(item: JsonView) -> bool {
    let symbol = json::text_at(item, "symbol"@);
    &&& time_of(scalar_at(item, "expireDate"@)) is None
    &&& text::finishes_with(symbol, "USDTM"@) || text::finishes_with(symbol, "USDCM"@)
}

/// Why a KuCoin instrument is refused.
pub open spec fn kucoin_problem(item: JsonView) -> Option<Seq<char>> {
    symbol_problem(json::text_at(item, "symbol"@))
        .or_next(asset_problem("baseCurrency"@, json::text_at(item, "baseCurrency"@)))
        .or_next(asset_problem("quoteCurrency"@, json::text_at(item, "quoteCurrency"@)))
        .or_next(asset_problem("settleCurrency"@, json::text_at(item, "settleCurrency"@)))
        .or_next(optional_positive_problem("tickSize"@, scalar_at(item, "tickSize"@)))
        .or_next(optional_positive_problem("lotSize"@, scalar_at(item, "lotSize"@)))
        .or_next(optional_positive_problem("multiplier"@, scalar_at(item, "multiplier"@)))
        .or_next(optional_positive_problem("maxLeverage"@, filled_scalar_at(item, "maxLeverage"@)))
        .or_next(time_problem("firstOpenDate"@, scalar_at(item, "firstOpenDate"@)))
}

/// The instrument of a KuCoin item.
pub open spec fn kucoin_instrument_of(item: JsonView) -> InstrumentView {
    let symbol = json::text_at(item, "symbol"@);
    InstrumentView {
        instrument_id: domain::instrument_identifier(
            Provider::Kucoin,
            MarketKind::LinearPerpetual,
            symbol,
        ),
        symbol,
        provider: Provider::Kucoin,
        market: MarketKind::LinearPerpetual,
        base_asset: json::text_at(item, "baseCurrency"@),
        quote_asset: json::text_at(item, "quoteCurrency"@),
        settle_asset: json::text_at(item, "settleCurrency"@),
        status: InstrumentStatus::Live,
        venue_status: json::text_at(item, "status"@),
        tick_size: positive_text(scalar_at(item, "tickSize"@)->0),
        quantity_step: positive_text(scalar_at(item, "lotSize"@)->0),
        contract_size: Some(positive_text(scalar_at(item, "multiplier"@)->0)),
        contract_size_asset: Some(json::text_at(item, "baseCurrency"@)),
        max_leverage: optional_positive(filled_scalar_at(item, "maxLeverage"@)),
        listing_time_ms: time_of(scalar_at(item, "firstOpenDate"@)),
        expiry_time_ms: None,
        capabilities: catalog::venue_capabilities(Provider::Kucoin),
    }
}

/// What a KuCoin item comes to.
pub open spec fn kucoin_item(item: JsonView) -> Result<Option<InstrumentView>, Seq<char>> {
    if !kucoin_is_open(item) {
        Ok(None)
    } else {
        match time_problem("expireDate"@, scalar_at(item, "expireDate"@)) {
            Some(message) => Err(message),
            None => if kucoin_is_perpetual(item) {
                listed_unless(kucoin_problem(item), kucoin_instrument_of(item))
            } else {
                Ok(None)
            },
        }
    }
}

fn kucoin_instrument(item: &Json) -> (r: Result<Option<Instrument>, String>)
    requires
        kucoin_shape(item@) is None,
    ensures
        item_view(r) == kucoin_item(item@),
{
    let status = text_of(item, "status");
    let inverse = match json::find_flag(item, "isInverse") {
        Some(inverse) => inverse,
        None => false,
    };
    if !text::same(text_of(item, "type"), "FFWCSX") || !text::same(status, "Open") || inverse {
        return Ok(None);
    }
    let expiry = optional_timestamp_ms("expireDate", &any_scalar(item, "expireDate"))?;
    if expiry.is_some() {
        return Ok(None);
    }
    let given = text_of(item, "symbol");
    if !(text::ends_with(given, "USDTM") || text::ends_with(given, "USDCM")) {
        return Ok(None);
    }
    let symbol = exact_symbol(given)?;
    let base_asset = exact_asset("baseCurrency", text_of(item, "baseCurrency"))?;
    let quote_asset = exact_asset("quoteCurrency", text_of(item, "quoteCurrency"))?;
    let settle_asset = exact_asset("settleCurrency", text_of(item, "settleCurrency"))?;
    let tick_size = positive_decimal("tickSize", scalar_of(item, "tickSize").as_str())?;
    let quantity_step = positive_decimal("lotSize", scalar_of(item, "lotSize").as_str())?;
    let contract_size = positive_decimal("multiplier", scalar_of(item, "multiplier").as_str())?;
    let max_leverage = optional_positive_decimal(
        "maxLeverage",
        &filled_scalar(item, "maxLeverage"),
    )?;
    let listing_time_ms = optional_timestamp_ms(
        "firstOpenDate",
        &any_scalar(item, "firstOpenDate"),
    )?;
    Ok(
        Some(
            Instrument {
                instrument_id: catalog::identifier(
                    Provider::Kucoin,
                    MarketKind::LinearPerpetual,
                    symbol.as_str(),
                ),
                symbol,
                provider: Provider::Kucoin,
                market: MarketKind::LinearPerpetual,
                base_asset: base_asset.clone(),
                quote_asset,
                settle_asset,
                status: InstrumentStatus::Live,
                venue_status: status.to_owned(),
                tick_size,
                quantity_step,
                contract_size: Some(contract_size),
                contract_size_asset: Some(base_asset),
                max_leverage,
                listing_time_ms,
                expiry_time_ms: None,
                capabilities: catalog::capabilities(Provider::Kucoin),
            },
        ),
    )
}

// ---------------------------------------------------------------------------------------------
// Lists of instruments
// ---------------------------------------------------------------------------------------------

/// Why a value is no instrument of a venue.
pub open spec fn item_shape(provider: Provider, item: JsonView) -> Option<Seq<char>> {
    match provider {
        Provider::Bybit => bybit_shape(item),
        Provider::Binance => binance_shape(item),
        Provider::Okx => okx_shape(item),
        Provider::Kucoin => kucoin_shape(item),
        Provider::Mexc | Provider::Bingx => None,
    }
}

/// What an item of a venue comes to. No format is known for two of the venues.
pub open spec fn item_result(provider: Provider, item: JsonView) -> Result<
    Option<InstrumentView>,
    Seq<char>,
> {
    match provider {
        Provider::Bybit => bybit_item(item),
        Provider::Binance => binance_item(item),
        Provider::Okx => okx_item(item),
        Provider::Kucoin => kucoin_item(item),
        Provider::Mexc | Provider::Bingx => Ok(None),
    }
}

/// Why a list is none of instruments of a venue.
pub open spec fn list_shape(provider: Provider, items: Seq<JsonView>) -> Option<Seq<char>> {
    providers::first_complaint(items, |item: JsonView| item_shape(provider, item))
}

/// The live instruments of a list in the order of the list, or the complaint about the first item
/// that is refused.
pub open spec fn gathered(provider: Provider, items: Seq<JsonView>) -> Result<
    Seq<InstrumentView>,
    Seq<char>,
>
    decreases items.len(),
{
    if items.len() == 0 {
        Ok(Seq::empty())
    } else {
        match gathered(provider, items.drop_last()) {
            Err(message) => Err(message),
            Ok(list) => match item_result(provider, items.last()) {
                Err(message) => Err(message),
                Ok(None) => Ok(list),
                Ok(Some(instrument)) => Ok(list.push(instrument)),
            },
        }
    }
}

/// A listing with more instruments, or the error about the first that it has already.
pub open spec fn joined(list: Seq<InstrumentView>, more: Seq<InstrumentView>) -> Result<
    Seq<InstrumentView>,
    CatalogErrorView,
>
    decreases more.len(),
{
    if more.len() == 0 {
        Ok(list)
    } else {
        match joined(list, more.drop_last()) {
            Err(error) => Err(error),
            Ok(list) => catalog::added_once(list, more.last()),
        }
    }
}

/// The listing of the live instruments of a list, or the error about the first item that is
/// refused or comes again.
pub open spec fn collected(provider: Provider, items: Seq<JsonView>) -> Result<
    Seq<InstrumentView>,
    CatalogErrorView,
>
    decreases items.len(),
{
    if items.len() == 0 {
        Ok(Seq::empty())
    } else {
        match collected(provider, items.drop_last()) {
            Err(error) => Err(error),
            Ok(list) => match item_result(provider, items.last()) {
                Err(message) => Err(CatalogErrorView::InvalidPayload { provider, message }),
                Ok(None) => Ok(list),
                Ok(Some(instrument)) => catalog::added_once(list, instrument),
            },
        }
    }
}

/// The value of what a list came to.
pub open spec fn listing_view(r: Result<Listing, CatalogError>) -> Result<
    Seq<InstrumentView>,
    CatalogErrorView,
> {
    catalog::fetched_view(r)
}

/// An error about a prefix of a list is the error about the list.
proof fn lemma_gathered_error(provider: Provider, items: Seq<JsonView>, count: int)
    requires
        0 <= count <= items.len(),
        gathered(provider, items.take(count)) is Err,
    ensures
        gathered(provider, items) == gathered(provider, items.take(count)),
    decreases items.len(),
{
    if count < items.len() {
        assert(items.drop_last().take(count) =~= items.take(count));
        lemma_gathered_error(provider, items.drop_last(), count);
    } else {
        assert(items.take(count) =~= items);
    }
}

/// An error about a prefix of a list is the error about the list.
proof fn lemma_collected_error(provider: Provider, items: Seq<JsonView>, count: int)
    requires
        0 <= count <= items.len(),
        collected(provider, items.take(count)) is Err,
    ensures
        collected(provider, items) == collected(provider, items.take(count)),
    decreases items.len(),
{
    if count < items.len() {
        assert(items.drop_last().take(count) =~= items.take(count));
        lemma_collected_error(provider, items.drop_last(), count);
    } else {
        assert(items.take(count) =~= items);
    }
}

/// An item of a list without complaints has the right shape.
proof fn lemma_item_shapes(provider: Provider, items: Seq<JsonView>, i: int)
    requires
        0 <= i < items.len(),
        list_shape(provider, items) is None,
    ensures
        item_shape(provider, items[i]) is None,
    decreases items.len(),
{
    if i < items.len() - 1 {
        assert(items.drop_last()[i] == items[i]);
        lemma_item_shapes(provider, items.drop_last(), i);
    }
}

fn check_item(provider: Provider, item: &Json) -> (r: Result<(), String>)
    ensures
        match r {
            Ok(()) => item_shape(provider, item@) is None,
            Err(message) => item_shape(provider, item@) == Some(message@),
        },
{
    match provider {
        Provider::Bybit => check_bybit(item),
        Provider::Binance => check_binance(item),
        Provider::Okx => check_okx(item),
        Provider::Kucoin => check_kucoin(item),
        Provider::Mexc | Provider::Bingx => Ok(()),
    }
}

fn check_list(provider: Provider, items: &Vec<Json>) -> (r: Result<(), String>)
    ensures
        match r {
            Ok(()) => list_shape(provider, json::views(items@)) is None,
            Err(message) => list_shape(provider, json::views(items@)) == Some(message@),
        },
{
    let ghost all = json::views(items@);
    let ghost check = |item: JsonView| item_shape(provider, item);
    let mut i: usize = 0;
    while i < items.len()
        invariant
            i <= items@.len(),
            all == json::views(items@),
            check == (|item: JsonView| item_shape(provider, item)),
            providers::first_complaint(all.take(i as int), check) is None,
        decreases items.len() - i,
    {
        proof {
            providers::lemma_next_complaint(all, i as int, check);
        }
        check_item(provider, &items[i])?;
        i += 1;
    }
    proof {
        assert(all.take(i as int) =~= all);
    }
    Ok(())
}

/// An item of a venue. An instrument that it gives is one of the venue.
fn read_item(provider: Provider, item: &Json) -> (r: Result<Option<Instrument>, String>)
    requires
        item_shape(provider, item@) is None,
    ensures
        item_view(r) == item_result(provider, item@),
        r matches Ok(Some(instrument)) ==> catalog::belongs(provider, instrument@),
{
    match provider {
        Provider::Bybit => bybit_instrument(item),
        Provider::Binance => binance_instrument(item),
        Provider::Okx => okx_instrument(item),
        Provider::Kucoin => kucoin_instrument(item),
        Provider::Mexc | Provider::Bingx => Ok(None),
    }
}

fn invalid_payload(provider: Provider, message: String) -> (error: CatalogError)
    ensures
        error@ == (CatalogErrorView::InvalidPayload { provider, message: message@ }),
{
    CatalogError::InvalidPayload { provider, message }
}

fn gather(provider: Provider, items: &Vec<Json>) -> (r: Result<Vec<Instrument>, String>)
    requires
        list_shape(provider, json::views(items@)) is None,
    ensures
        match r {
            Ok(list) => {
                &&& gathered(provider, json::views(items@)) == Ok::<
                    Seq<InstrumentView>,
                    Seq<char>,
                >(catalog::instrument_views(list@))
                &&& forall|k: int|
                    0 <= k < list@.len() ==> catalog::belongs(provider, (#[trigger] list@[k])@)
            },
            Err(message) => gathered(provider, json::views(items@)) == Err::<
                Seq<InstrumentView>,
                Seq<char>,
            >(message@),
        },
{
    let ghost all = json::views(items@);
    let mut list: Vec<Instrument> = Vec::new();
    let mut i: usize = 0;
    proof {
        assert(catalog::instrument_views(list@) =~= Seq::empty());
    }
    while i < items.len()
        invariant
            i <= items@.len(),
            all == json::views(items@),
            list_shape(provider, all) is None,
            gathered(provider, all.take(i as int)) == Ok::<Seq<InstrumentView>, Seq<char>>(
                catalog::instrument_views(list@),
            ),
            forall|k: int|
                0 <= k < list@.len() ==> catalog::belongs(provider, (#[trigger] list@[k])@),
        decreases items.len() - i,
    {
        let ghost kept = catalog::instrument_views(list@);
        proof {
            lemma_item_shapes(provider, all, i as int);
            assert(all.take(i + 1).drop_last() =~= all.take(i as int));
            assert(all.take(i + 1).last() == all[i as int]);
            if item_result(provider, all[i as int]) is Err {
                lemma_gathered_error(provider, all, i + 1);
            }
        }
        if let Some(instrument) = read_item(provider, &items[i])? {
            let ghost fresh = instrument@;
            list.push(instrument);
            proof {
                assert(catalog::instrument_views(list@) =~= kept.push(fresh));
            }
        }
        i += 1;
    }
    proof {
        assert(all.take(i as int) =~= all);
    }
    Ok(list)
}

fn collect(provider: Provider, items: &Vec<Json>) -> (r: Result<Listing, CatalogError>)
    requires
        list_shape(provider, json::views(items@)) is None,
    ensures
        listing_view(r) == collected(provider, json::views(items@)),
        r matches Ok(listing) ==> listing.venue() == provider,
{
    let ghost all = json::views(items@);
    let mut listing = Listing::new(provider);
    let mut i: usize = 0;
    while i < items.len()
        invariant
            i <= items@.len(),
            all == json::views(items@),
            list_shape(provider, all) is None,
            listing.venue() == provider,
            collected(provider, all.take(i as int)) == Ok::<Seq<InstrumentView>, CatalogErrorView>(
                listing@,
            ),
        decreases items.len() - i,
    {
        proof {
            lemma_item_shapes(provider, all, i as int);
            assert(all.take(i + 1).drop_last() =~= all.take(i as int));
            assert(all.take(i + 1).last() == all[i as int]);
            if collected(provider, all.take(i + 1)) is Err {
                lemma_collected_error(provider, all, i + 1);
            }
        }
        match read_item(provider, &items[i]) {
            Ok(Some(instrument)) => {
                listing.insert_unique(instrument)?;
            },
            Ok(None) => {},
            Err(message) => {
                return Err(invalid_payload(provider, message));
            },
        }
        i += 1;
    }
    proof {
        assert(all.take(i as int) =~= all);
    }
    Ok(listing)
}

// ---------------------------------------------------------------------------------------------
// Answers
// ---------------------------------------------------------------------------------------------

/// One page of Bybit's catalog.
#[derive(Debug)]
pub struct BybitPage {
    pub instruments: Vec<Instrument>,
    pub next_page_cursor: String,
}

/// The mathematical value of a page.
pub struct PageView {
    pub instruments: Seq<InstrumentView>,
    pub next_page_cursor: Seq<char>,
}

impl View for BybitPage {
    type V = PageView;

    open spec fn view(&self) -> PageView {
        PageView {
            instruments: catalog::instrument_views(self.instruments@),
            next_page_cursor: self.next_page_cursor@,
        }
    }
}

/// Why the result of a Bybit answer is none.
pub open spec fn bybit_result_shape(result: JsonView) -> Option<Seq<char>> {
    json::text_problem(result, "category"@)
        .or_next(default_text_shape(result, "nextPageCursor"@))
        .or_next(json::list_problem(result, "list"@))
        .or_next(list_shape(Provider::Bybit, json::list_at(result, "list"@)))
}

/// Why a document is no Bybit answer.
pub open spec fn bybit_answer_shape(value: JsonView) -> Option<Seq<char>> {
    json::signed_problem(value, "retCode"@)
        .or_next(default_text_shape(value, "retMsg"@))
        .or_next(
        match json::member_of(value, "result"@) {
            Some(JsonView::Null) | None => None,
            Some(result) => bybit_result_shape(result),
        },
    )
}

/// The page of a Bybit answer, or the complaint about the answer.
pub open spec fn bybit_page(value: JsonView) -> Result<PageView, Seq<char>> {
    let result = json::value_at(value, "result"@);
    let complaint = providers::prefixed("invalid JSON: "@, bybit_answer_shape(value))
        .or_next(
        providers::unless(
            json::signed_at(value, "retCode"@) == 0,
            "endpoint returned code "@ + text::integer_text(
                json::signed_at(value, "retCode"@) as int,
            ) + ": "@ + json::text_at(value, "retMsg"@),
        ),
    )
        .or_next(providers::unless(result != JsonView::Null, "missing result"@))
        .or_next(
        providers::unless(
            json::text_at(result, "category"@) == "linear"@,
            "expected linear category, got "@ + json::text_at(result, "category"@),
        ),
    );
    match complaint {
        Some(message) => Err(message),
        None => match gathered(Provider::Bybit, json::list_at(result, "list"@)) {
            Ok(instruments) => Ok(
                PageView {
                    instruments,
                    next_page_cursor: json::text_at(result, "nextPageCursor"@),
                },
            ),
            Err(message) => Err(message),
        },
    }
}

fn check_bybit_result(result: &Json) -> (r: Result<(), String>)
    ensures
        match r {
            Ok(()) => bybit_result_shape(result@) is None,
            Err(message) => bybit_result_shape(result@) == Some(message@),
        },
{
    json::need_text(result, "category")?;
    default_text(result, "nextPageCursor")?;
    let items = json::need_list(result, "list")?;
    check_list(Provider::Bybit, items)
}

fn check_bybit_answer(value: &Json) -> (r: Result<(), String>)
    ensures
        match r {
            Ok(()) => bybit_answer_shape(value@) is None,
            Err(message) => bybit_answer_shape(value@) == Some(message@),
        },
{
    json::need_signed(value, "retCode")?;
    default_text(value, "retMsg")?;
    match value.member("result") {
        Some(result) => if result.is_null() {
            Ok(())
        } else {
            check_bybit_result(result)
        },
        None => Ok(()),
    }
}

/// Read the document of a Bybit answer.
///
/// # Errors
///
/// The complaint about a document that is no page.
pub fn read_bybit_page(value: &Json) -> (r: Result<BybitPage, String>)
    ensures
        match r {
            Ok(page) => {
                &&& bybit_page(value@) == Ok::<PageView, Seq<char>>(page@)
                &&& forall|k: int|
                    0 <= k < page.instruments@.len() ==> catalog::belongs(
                        Provider::Bybit,
                        (#[trigger] page.instruments@[k])@,
                    )
            },
            Err(message) => bybit_page(value@) == Err::<PageView, Seq<char>>(message@),
        },
{
    if let Err(message) = check_bybit_answer(value) {
        return Err(text::cat2("invalid JSON: ", message.as_str()));
    }
    let code = json::need_signed(value, "retCode")?;
    if code != 0 {
        return Err(
            text::cat4(
                "endpoint returned code ",
                text::signed_text(code).as_str(),
                ": ",
                text_of(value, "retMsg"),
            ),
        );
    }
    let result = match value.member("result") {
        Some(result) => result,
        None => {
            return Err("missing result".to_owned());
        },
    };
    if result.is_null() {
        return Err("missing result".to_owned());
    }
    let category = text_of(result, "category");
    if !text::same(category, "linear") {
        return Err(text::cat2("expected linear category, got ", category));
    }
    let items = json::need_list(result, "list")?;
    let instruments = gather(Provider::Bybit, items)?;
    Ok(
        BybitPage {
            instruments,
            next_page_cursor: text_of(result, "nextPageCursor").to_owned(),
        },
    )
}

// ---------------------------------------------------------------------------------------------
// How answers are laid out
// ---------------------------------------------------------------------------------------------

/// How a Bybit instrument is laid out.
pub open spec fn bybit_item_layout() -> LayoutView {
    json::with_field(
        json::with_field(
            json::with_field(
                json::flat("symbol,contractType,status,baseCoin,quoteCoin,settleCoin,launchTime,deliveryTime,priceFilter,lotSizeFilter,leverageFilter"@, 11),
                "priceFilter"@,
                json::flat("tickSize"@, 1),
            ),
            "lotSizeFilter"@,
            json::flat("qtyStep"@, 1),
        ),
        "leverageFilter"@,
        json::flat("maxLeverage"@, 1),
    )
}

fn bybit_item_record() -> (layout: Layout)
    ensures
        layout@ == bybit_item_layout(),
{
    json::nest(
        json::nest(
            json::nest(
                json::flat_record("symbol,contractType,status,baseCoin,quoteCoin,settleCoin,launchTime,deliveryTime,priceFilter,lotSizeFilter,leverageFilter", 11),
                "priceFilter",
                json::flat_record("tickSize", 1),
            ),
            "lotSizeFilter",
            json::flat_record("qtyStep", 1),
        ),
        "leverageFilter",
        json::flat_record("maxLeverage", 1),
    )
}

/// How a Bybit answer is laid out.
pub open spec fn bybit_layout() -> LayoutView {
    json::with_field(
        json::flat("retCode,retMsg,result"@, 3),
        "result"@,
        json::with_field(
            json::flat("category,nextPageCursor,list"@, 3),
            "list"@,
            LayoutView::Each(
                Box::new(
                    bybit_item_layout(),
                ),
            ),
        ),
    )
}

fn bybit_record() -> (layout: Layout)
    ensures
        layout@ == bybit_layout(),
{
    json::nest(
        json::flat_record("retCode,retMsg,result", 3),
        "result",
        json::nest(
            json::flat_record("category,nextPageCursor,list", 3),
            "list",
            Layout::Each(
                Box::new(
                    bybit_item_record(),
                ),
            ),
        ),
    )
}

/// How a Binance answer is laid out.
pub open spec fn binance_layout() -> LayoutView {
    json::with_field(
        json::flat("symbols"@, 1),
        "symbols"@,
        LayoutView::Each(
            Box::new(
                json::with_field(
                    json::flat("symbol,contractType,status,baseAsset,quoteAsset,marginAsset,onboardDate,filters"@, 8),
                    "filters"@,
                    LayoutView::Each(
                        Box::new(
                            json::flat("filterType,tickSize,stepSize"@, 3),
                        ),
                    ),
                ),
            ),
        ),
    )
}

fn binance_record() -> (layout: Layout)
    ensures
        layout@ == binance_layout(),
{
    json::nest(
        json::flat_record("symbols", 1),
        "symbols",
        Layout::Each(
            Box::new(
                json::nest(
                    json::flat_record("symbol,contractType,status,baseAsset,quoteAsset,marginAsset,onboardDate,filters", 8),
                    "filters",
                    Layout::Each(
                        Box::new(
                            json::flat_record("filterType,tickSize,stepSize", 3),
                        ),
                    ),
                ),
            ),
        ),
    )
}

/// How an OKX answer is laid out.
pub open spec fn okx_layout() -> LayoutView {
    json::with_field(
        json::flat("code,msg,data"@, 3),
        "data"@,
        LayoutView::Each(
            Box::new(
                json::flat("instId,instType,state,baseCcy,quoteCcy,settleCcy,ctType,ctVal,ctValCcy,tickSz,lotSz,lever,listTime,expTime,uly,instFamily"@, 11),
            ),
        ),
    )
}

fn okx_record() -> (layout: Layout)
    ensures
        layout@ == okx_layout(),
{
    json::nest(
        json::flat_record("code,msg,data", 3),
        "data",
        Layout::Each(
            Box::new(
                json::flat_record("instId,instType,state,baseCcy,quoteCcy,settleCcy,ctType,ctVal,ctValCcy,tickSz,lotSz,lever,listTime,expTime,uly,instFamily", 11),
            ),
        ),
    )
}

/// How a KuCoin instrument is laid out.
pub open spec fn kucoin_item_layout() -> LayoutView {
    json::flat("symbol,type,status,baseCurrency,quoteCurrency,settleCurrency,firstOpenDate,expireDate,tickSize,lotSize,multiplier,maxLeverage,isInverse"@, 13)
}

fn kucoin_item_record() -> (layout: Layout)
    ensures
        layout@ == kucoin_item_layout(),
{
    json::flat_record("symbol,type,status,baseCurrency,quoteCurrency,settleCurrency,firstOpenDate,expireDate,tickSize,lotSize,multiplier,maxLeverage,isInverse", 13)
}

/// How a KuCoin answer with one instrument is laid out.
pub open spec fn kucoin_one_layout() -> LayoutView {
    json::with_field(
        json::flat("code,data"@, 2),
        "data"@,
        LayoutView::Whole(Box::new(kucoin_item_layout())),
    )
}

fn kucoin_one_record() -> (layout: Layout)
    ensures
        layout@ == kucoin_one_layout(),
{
    json::nest(
        json::flat_record("code,data", 2),
        "data",
        Layout::Whole(Box::new(kucoin_item_record())),
    )
}

/// How a KuCoin answer with a list of instruments is laid out.
pub open spec fn kucoin_many_layout() -> LayoutView {
    json::with_field(
        json::flat("code,data"@, 2),
        "data"@,
        LayoutView::Whole(Box::new(LayoutView::Each(Box::new(kucoin_item_layout())))),
    )
}

fn kucoin_many_record() -> (layout: Layout)
    ensures
        layout@ == kucoin_many_layout(),
{
    proof {
        reveal_with_fuel(json::layout_view, 3);
    }
    json::nest(
        json::flat_record("code,data", 2),
        "data",
        Layout::Whole(Box::new(Layout::Each(Box::new(kucoin_item_record())))),
    )
}

/// Whether a KuCoin document holds one instrument.
pub open spec fn holds_one(value: JsonView) -> bool {
    let data = json::value_at(value, "data"@);
    data is Object && item_shape(Provider::Kucoin, data) is None
}

/// The document of a KuCoin answer: with one instrument where it is laid out so, else with a list.
pub open spec fn kucoin_document(
    one: Result<JsonView, Seq<char>>,
    many: Result<JsonView, Seq<char>>,
) -> Result<JsonView, Seq<char>> {
    match (one, many) {
        (Ok(value), _) if holds_one(value) => Ok(value),
        (Err(_), Ok(value)) if json::value_at(value, "data"@) is Object => Err(no_variant()),
        _ => many,
    }
}

fn holds_one_instrument(value: &Json) -> (answer: bool)
    ensures
        answer == holds_one(value@),
{
    match value.member("data") {
        Some(data) => data.is_object() && check_item(Provider::Kucoin, data).is_ok(),
        None => false,
    }
}

fn choose_kucoin(one: Result<Json, String>, many: Result<Json, String>) -> (r: Result<Json, String>)
    ensures
        reading::reads(r, kucoin_document(reading::outcome(one), reading::outcome(many))),
{
    match one {
        Ok(value) => if holds_one_instrument(&value) {
            Ok(value)
        } else {
            many
        },
        Err(_) => match many {
            Ok(value) => {
                let object = match value.member("data") {
                    Some(data) => data.is_object(),
                    None => false,
                };
                if object {
                    Err("data did not match any variant of untagged enum OneOrMany".to_owned())
                } else {
                    Ok(value)
                }
            },
            Err(message) => Err(message),
        },
    }
}

/// The document of an answer in one piece.
pub open spec fn answer_document(provider: Provider, body: Seq<char>) -> Result<
    JsonView,
    Seq<char>,
> {
    match provider {
        Provider::Binance => reading::laid_out(body, binance_layout()),
        Provider::Okx => reading::laid_out(body, okx_layout()),
        Provider::Kucoin => kucoin_document(
            reading::laid_out(body, kucoin_one_layout()),
            reading::laid_out(body, kucoin_many_layout()),
        ),
        Provider::Bybit | Provider::Mexc | Provider::Bingx => json::document_of(body),
    }
}

/// What a text comes to as a Bybit answer.
pub open spec fn bybit_page_in(body: Seq<char>) -> Result<PageView, CatalogErrorView> {
    let provider = Provider::Bybit;
    match reading::laid_out(body, bybit_layout()) {
        Ok(value) => match bybit_page(value) {
            Ok(page) => Ok(page),
            Err(message) => Err(CatalogErrorView::InvalidPayload { provider, message }),
        },
        Err(message) => Err(
            CatalogErrorView::InvalidPayload { provider, message: "invalid JSON: "@ + message },
        ),
    }
}

/// Read a Bybit answer.
///
/// # Errors
///
/// An answer that is no page is refused.
pub fn parse_bybit_page(body: &str) -> (r: Result<BybitPage, CatalogError>)
    ensures
        match r {
            Ok(page) => {
                &&& bybit_page_in(body@) == Ok::<PageView, CatalogErrorView>(page@)
                &&& forall|k: int|
                    0 <= k < page.instruments@.len() ==> catalog::belongs(
                        Provider::Bybit,
                        (#[trigger] page.instruments@[k])@,
                    )
            },
            Err(error) => bybit_page_in(body@) == Err::<PageView, CatalogErrorView>(error@),
        },
{
    match reading::read(body, &bybit_record()) {
        Ok(value) => match read_bybit_page(&value) {
            Ok(page) => Ok(page),
            Err(message) => Err(invalid_payload(Provider::Bybit, message)),
        },
        Err(message) => Err(
            invalid_payload(Provider::Bybit, text::cat2("invalid JSON: ", message.as_str())),
        ),
    }
}

/// Why a document is no Binance answer.
pub open spec fn binance_answer_shape(value: JsonView) -> Option<Seq<char>> {
    json::list_problem(value, "symbols"@)
        .or_next(list_shape(Provider::Binance, json::list_at(value, "symbols"@)))
}

/// Why a document is no OKX answer.
pub open spec fn okx_answer_shape(value: JsonView) -> Option<Seq<char>> {
    json::text_problem(value, "code"@)
        .or_next(default_text_shape(value, "msg"@))
        .or_next(json::list_problem(value, "data"@))
        .or_next(list_shape(Provider::Okx, json::list_at(value, "data"@)))
}

/// The complaint about data that is neither one instrument nor a list of instruments.
pub open spec fn no_variant() -> Seq<char> {
    "data did not match any variant of untagged enum OneOrMany"@
}

/// The items of a KuCoin answer: one, or a list of them.
pub open spec fn one_or_many(data: JsonView) -> Seq<JsonView> {
    match data {
        JsonView::List(items) => items,
        _ => seq![data],
    }
}

/// Why a document is no KuCoin answer.
pub open spec fn kucoin_answer_shape(value: JsonView) -> Option<Seq<char>> {
    json::text_problem(value, "code"@)
        .or_next(
        match json::member_of(value, "data"@) {
            Some(JsonView::Null) | None => None,
            Some(data) => providers::unless(
                list_shape(Provider::Kucoin, one_or_many(data)) is None,
                no_variant(),
            ),
        },
    )
}

/// Why a document is refused before its instruments are read.
pub open spec fn answer_problem(provider: Provider, value: JsonView) -> Option<Seq<char>> {
    match provider {
        Provider::Binance => providers::prefixed("invalid JSON: "@, binance_answer_shape(value)),
        Provider::Okx => providers::prefixed("invalid JSON: "@, okx_answer_shape(value))
            .or_next(
            providers::unless(
                json::text_at(value, "code"@) == "0"@,
                "endpoint returned code "@ + json::text_at(value, "code"@) + ": "@ + json::text_at(
                    value,
                    "msg"@,
                ),
            ),
        ),
        Provider::Kucoin => providers::prefixed("invalid JSON: "@, kucoin_answer_shape(value))
            .or_next(
            providers::unless(
                json::text_at(value, "code"@) == "200000"@,
                "endpoint returned code "@ + json::text_at(value, "code"@),
            ),
        )
            .or_next(
            providers::unless(json::value_at(value, "data"@) != JsonView::Null, "missing data"@),
        ),
        Provider::Bybit | Provider::Mexc | Provider::Bingx => Some(
            "no catalog in one piece is known for this venue"@,
        ),
    }
}

/// The items of an answer.
pub open spec fn answer_items(provider: Provider, value: JsonView) -> Seq<JsonView> {
    match provider {
        Provider::Binance => json::list_at(value, "symbols"@),
        Provider::Kucoin => one_or_many(json::value_at(value, "data"@)),
        _ => json::list_at(value, "data"@),
    }
}

/// What the document of an answer in one piece comes to.
pub open spec fn answer(provider: Provider, value: JsonView) -> Result<
    Seq<InstrumentView>,
    CatalogErrorView,
> {
    match answer_problem(provider, value) {
        Some(message) => Err(CatalogErrorView::InvalidPayload { provider, message }),
        None => collected(provider, answer_items(provider, value)),
    }
}

/// What a text comes to as an answer in one piece.
pub open spec fn answer_in(provider: Provider, body: Seq<char>) -> Result<
    Seq<InstrumentView>,
    CatalogErrorView,
> {
    match answer_document(provider, body) {
        Ok(value) => answer(provider, value),
        Err(message) => Err(
            CatalogErrorView::InvalidPayload { provider, message: "invalid JSON: "@ + message },
        ),
    }
}

fn check_binance_answer(value: &Json) -> (r: Result<(), String>)
    ensures
        match r {
            Ok(()) => binance_answer_shape(value@) is None,
            Err(message) => binance_answer_shape(value@) == Some(message@),
        },
{
    let items = json::need_list(value, "symbols")?;
    check_list(Provider::Binance, items)
}

fn check_okx_answer(value: &Json) -> (r: Result<(), String>)
    ensures
        match r {
            Ok(()) => okx_answer_shape(value@) is None,
            Err(message) => okx_answer_shape(value@) == Some(message@),
        },
{
    json::need_text(value, "code")?;
    default_text(value, "msg")?;
    let items = json::need_list(value, "data")?;
    check_list(Provider::Okx, items)
}

/// Read the document of a Binance answer.
///
/// # Errors
///
/// A document that is no catalog is refused, and so is an instrument that comes twice.
pub fn read_binance_catalog(value: &Json) -> (r: Result<Listing, CatalogError>)
    ensures
        listing_view(r) == answer(Provider::Binance, value@),
        r matches Ok(listing) ==> listing.venue() == Provider::Binance,
{
    let provider = Provider::Binance;
    if let Err(message) = check_binance_answer(value) {
        return Err(invalid_payload(provider, text::cat2("invalid JSON: ", message.as_str())));
    }
    match json::need_list(value, "symbols") {
        Ok(items) => collect(provider, items),
        Err(message) => Err(invalid_payload(provider, message)),
    }
}

/// Read the document of an OKX answer.
///
/// # Errors
///
/// A document that is no catalog is refused, and so is an instrument that comes twice.
pub fn read_okx_catalog(value: &Json) -> (r: Result<Listing, CatalogError>)
    ensures
        listing_view(r) == answer(Provider::Okx, value@),
        r matches Ok(listing) ==> listing.venue() == Provider::Okx,
{
    let provider = Provider::Okx;
    if let Err(message) = check_okx_answer(value) {
        return Err(invalid_payload(provider, text::cat2("invalid JSON: ", message.as_str())));
    }
    let code = text_of(value, "code");
    if !text::same(code, "0") {
        return Err(
            invalid_payload(
                provider,
                text::cat4("endpoint returned code ", code, ": ", text_of(value, "msg")),
            ),
        );
    }
    match json::need_list(value, "data") {
        Ok(items) => collect(provider, items),
        Err(message) => Err(invalid_payload(provider, message)),
    }
}

/// Read the one instrument of a KuCoin answer.
fn collect_one(item: &Json) -> (r: Result<Listing, CatalogError>)
    requires
        kucoin_shape(item@) is None,
    ensures
        listing_view(r) == collected(Provider::Kucoin, seq![item@]),
        r matches Ok(listing) ==> listing.venue() == Provider::Kucoin,
{
    let provider = Provider::Kucoin;
    let mut listing = Listing::new(provider);
    proof {
        assert(seq![item@].drop_last() =~= Seq::empty());
        assert(collected(provider, Seq::<JsonView>::empty()) == Ok::<
            Seq<InstrumentView>,
            CatalogErrorView,
        >(listing@));
    }
    match read_item(provider, item) {
        Ok(Some(instrument)) => {
            listing.insert_unique(instrument)?;
        },
        Ok(None) => {},
        Err(message) => {
            return Err(invalid_payload(provider, message));
        },
    }
    Ok(listing)
}

/// Read the document of a KuCoin answer.
///
/// # Errors
///
/// A document that is no catalog is refused, and so is an instrument that comes twice.
pub fn read_kucoin_catalog(value: &Json) -> (r: Result<Listing, CatalogError>)
    ensures
        listing_view(r) == answer(Provider::Kucoin, value@),
        r matches Ok(listing) ==> listing.venue() == Provider::Kucoin,
{
    let provider = Provider::Kucoin;
    if let Err(message) = json::need_text(value, "code") {
        return Err(invalid_payload(provider, text::cat2("invalid JSON: ", message.as_str())));
    }
    let data = value.member("data");
    if let Some(data) = data {
        if !data.is_null() && !kucoin_data_fits(data) {
            return Err(
                invalid_payload(
                    provider,
                    text::cat2(
                        "invalid JSON: ",
                        "data did not match any variant of untagged enum OneOrMany",
                    ),
                ),
            );
        }
    }
    let code = text_of(value, "code");
    if !text::same(code, "200000") {
        return Err(invalid_payload(provider, text::cat2("endpoint returned code ", code)));
    }
    match data {
        Some(data) => if data.is_null() {
            Err(invalid_payload(provider, "missing data".to_owned()))
        } else {
            match data.as_list() {
                Some(items) => collect(provider, items),
                None => {
                    proof {
                        lemma_item_shapes(provider, one_or_many(data@), 0);
                    }
                    collect_one(data)
                },
            }
        },
        None => Err(invalid_payload(provider, "missing data".to_owned())),
    }
}

/// Whether data is one instrument or a list of instruments.
fn kucoin_data_fits(data: &Json) -> (answer: bool)
    ensures
        answer == (list_shape(Provider::Kucoin, one_or_many(data@)) is None),
{
    match data.as_list() {
        Some(items) => check_list(Provider::Kucoin, items).is_ok(),
        None => {
            proof {
                let one = seq![data@];
                assert(one.drop_last() =~= Seq::empty());
                assert(one.last() == data@);
                assert(providers::first_complaint(
                    Seq::<JsonView>::empty(),
                    |item: JsonView| item_shape(Provider::Kucoin, item),
                ) is None);
            }
            check_kucoin(data).is_ok()
        },
    }
}

/// Read a Binance answer.
///
/// # Errors
///
/// An answer that is no catalog is refused, and so is an instrument that comes twice.
pub fn parse_binance_catalog(body: &str) -> (r: Result<Listing, CatalogError>)
    ensures
        listing_view(r) == answer_in(Provider::Binance, body@),
        r matches Ok(listing) ==> listing.venue() == Provider::Binance,
{
    match reading::read(body, &binance_record()) {
        Ok(value) => read_binance_catalog(&value),
        Err(message) => Err(
            invalid_payload(Provider::Binance, text::cat2("invalid JSON: ", message.as_str())),
        ),
    }
}

/// Read an OKX answer.
///
/// # Errors
///
/// An answer that is no catalog is refused, and so is an instrument that comes twice.
pub fn parse_okx_catalog(body: &str) -> (r: Result<Listing, CatalogError>)
    ensures
        listing_view(r) == answer_in(Provider::Okx, body@),
        r matches Ok(listing) ==> listing.venue() == Provider::Okx,
{
    match reading::read(body, &okx_record()) {
        Ok(value) => read_okx_catalog(&value),
        Err(message) => Err(
            invalid_payload(Provider::Okx, text::cat2("invalid JSON: ", message.as_str())),
        ),
    }
}

/// Read a KuCoin answer.
///
/// # Errors
///
/// An answer that is no catalog is refused, and so is an instrument that comes twice.
pub fn parse_kucoin_catalog(body: &str) -> (r: Result<Listing, CatalogError>)
    ensures
        listing_view(r) == answer_in(Provider::Kucoin, body@),
        r matches Ok(listing) ==> listing.venue() == Provider::Kucoin,
{
    let document = choose_kucoin(
        reading::read(body, &kucoin_one_record()),
        reading::read(body, &kucoin_many_record()),
    );
    match document {
        Ok(value) => read_kucoin_catalog(&value),
        Err(message) => Err(
            invalid_payload(Provider::Kucoin, text::cat2("invalid JSON: ", message.as_str())),
        ),
    }
}

/// The refusal of the answer of a venue whose instruments cannot be read in one piece.
fn refuse_answer(provider: Provider, body: &str) -> (error: CatalogError)
    requires
        provider == Provider::Bybit || provider == Provider::Mexc || provider == Provider::Bingx,
    ensures
        answer_in(provider, body@) == Err::<Seq<InstrumentView>, CatalogErrorView>(error@),
{
    match json::read(body) {
        Ok(_) => invalid_payload(
            provider,
            "no catalog in one piece is known for this venue".to_owned(),
        ),
        Err(message) => invalid_payload(
            provider,
            text::cat2("invalid JSON: ", message.as_str()),
        ),
    }
}

/// Read an answer in one piece.
///
/// # Errors
///
/// An answer that is no catalog is refused, and so is an instrument that comes twice.
pub fn parse_catalog(provider: Provider, body: &str) -> (r: Result<Listing, CatalogError>)
    ensures
        listing_view(r) == answer_in(provider, body@),
        r matches Ok(listing) ==> listing.venue() == provider,
{
    match provider {
        Provider::Binance => parse_binance_catalog(body),
        Provider::Okx => parse_okx_catalog(body),
        Provider::Kucoin => parse_kucoin_catalog(body),
        Provider::Bybit | Provider::Mexc | Provider::Bingx => Err(refuse_answer(provider, body)),
    }
}

// ---------------------------------------------------------------------------------------------
// Transport
// ---------------------------------------------------------------------------------------------

/// What the status and the bytes of an answer come to: its text, or why there is none.
pub open spec fn body_of(provider: Provider, status: u16, bytes: Seq<u8>) -> Result<
    Seq<char>,
    CatalogErrorView,
> {
    if !(200 <= status <= 299) {
        Err(CatalogErrorView::HttpStatus { provider, status })
    } else if bytes.len() > MAX_CATALOG_RESPONSE_BYTES {
        Err(
            CatalogErrorView::InvalidPayload {
                provider,
                message: "response exceeds the 8388608 byte limit"@,
            },
        )
    } else if !vstd::utf8::valid_utf8(bytes) {
        Err(
            CatalogErrorView::InvalidPayload {
                provider,
                message: "response body is not UTF-8"@,
            },
        )
    } else {
        Ok(vstd::utf8::decode_utf8(bytes))
    }
}

/// The text of an answer.
///
/// # Errors
///
/// An unsuccessful status, too many bytes and bytes that are no text are refused.
pub fn check_answer(provider: Provider, status: u16, bytes: &[u8]) -> (r: Result<
    String,
    CatalogError,
>)
    ensures
        match r {
            Ok(body) => body_of(provider, status, bytes@) == Ok::<Seq<char>, CatalogErrorView>(
                body@,
            ),
            Err(error) => body_of(provider, status, bytes@) == Err::<Seq<char>, CatalogErrorView>(
                error@,
            ),
        },
{
    if status < 200 || status > 299 {
        return Err(CatalogError::HttpStatus { provider, status });
    }
    if bytes.len() > MAX_CATALOG_RESPONSE_BYTES {
        return Err(
            invalid_payload(provider, "response exceeds the 8388608 byte limit".to_owned()),
        );
    }
    match text::decode(bytes) {
        Some(body) => Ok(body),
        None => Err(invalid_payload(provider, "response body is not UTF-8".to_owned())),
    }
}

} // verus!
