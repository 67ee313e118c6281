//! What the venues' history answers mean.
use vstd::prelude::*;

use crate::decimal;
use crate::domain;
use crate::domain::{
    Candle, CandleFinality, CandleView, DataQuality, DecimalValue, Provider, CANDLE_INTERVAL_MS,
};
use crate::history;
use crate::history::{HistoryError, HistoryErrorView};
use crate::json;
use crate::json::reading;
use crate::json::{Json, JsonView, Layout, LayoutView};
use crate::providers;
use crate::providers::Complaints;
use crate::text;

verus! {

/// The most bytes of an answer.
pub const MAX_RESPONSE_BYTES: usize = 4_194_304;

/// The most characters of a failed answer that are kept.
pub const MAX_SUMMARY_CHARACTERS: usize = 256;

// ---------------------------------------------------------------------------------------------
// Candles
// ---------------------------------------------------------------------------------------------

/// Why a text is no decimal. Scientific notation is accepted.
pub open spec fn decimal_problem(value: Seq<char>, field: Seq<char>) -> Option<Seq<char>> {
    let plain = in_plain_notation(value);
    if is_scientific(value) && decimal::scientific_of(value) is None {
        Some("invalid "@ + field + ": "@ + value)
    } else {
        providers::unless(
            domain::is_decimal(plain),
            "invalid "@ + field + ": "@ + domain::domain_message(
                domain::DomainErrorView::InvalidDecimal(plain),
            ),
        )
    }
}

/// Whether a text is in scientific notation.
pub open spec fn is_scientific(value: Seq<char>) -> bool {
    text::holds(value, 'e') || text::holds(value, 'E')
}

/// A decimal in plain notation.
pub open spec fn in_plain_notation(value: Seq<char>) -> Seq<char> {
    if is_scientific(value) {
        decimal::scientific_of(value)->0.text
    } else {
        value
    }
}

/// Why an optional text is no decimal.
pub open spec fn optional_decimal_problem(value: Option<Seq<char>>, field: Seq<char>) -> Option<
    Seq<char>,
> {
    match value {
        Some(value) => decimal_problem(value, field),
        None => None,
    }
}

/// An optional decimal in plain notation.
pub open spec fn optional_plain(value: Option<Seq<char>>) -> Option<Seq<char>> {
    match value {
        Some(value) => Some(in_plain_notation(value)),
        None => None,
    }
}

/// The fields of a candle as a venue writes them.
pub struct FieldsView {
    pub start_time_ms: u64,
    pub open: Seq<char>,
    pub high: Seq<char>,
    pub low: Seq<char>,
    pub close: Seq<char>,
    pub base_volume: Option<Seq<char>>,
    pub quote_volume: Option<Seq<char>>,
    pub contract_volume: Option<Seq<char>>,
    pub finality: CandleFinality,
    pub data_quality: Seq<DataQuality>,
}

/// The fields of a candle as a venue writes them.
#[derive(Debug)]
struct CandleFields {
    start_time_ms: u64,
    open: String,
    high: String,
    low: String,
    close: String,
    base_volume: Option<String>,
    quote_volume: Option<String>,
    contract_volume: Option<String>,
    finality: CandleFinality,
    data_quality: Vec<DataQuality>,
}

impl View for CandleFields {
    type V = FieldsView;

    closed spec fn view(&self) -> FieldsView {
        FieldsView {
            start_time_ms: self.start_time_ms,
            open: self.open@,
            high: self.high@,
            low: self.low@,
            close: self.close@,
            base_volume: domain::text_view(self.base_volume),
            quote_volume: domain::text_view(self.quote_volume),
            contract_volume: domain::text_view(self.contract_volume),
            finality: self.finality,
            data_quality: self.data_quality@,
        }
    }
}

/// The complaint about a candle that ends too late.
pub open spec fn end_problem(start_time_ms: u64) -> Option<Seq<char>> {
    providers::unless(
        start_time_ms + CANDLE_INTERVAL_MS <= u64::MAX,
        "candle end timestamp overflow"@,
    )
}

/// Why fields make no candle.
pub open spec fn candle_problem(fields: FieldsView) -> Option<Seq<char>> {
    providers::unless(
        fields.start_time_ms % CANDLE_INTERVAL_MS == 0,
        "candle start "@ + text::digits(fields.start_time_ms as nat)
            + " is not a UTC minute boundary"@,
    )
        .or_next(end_problem(fields.start_time_ms))
        .or_next(decimal_problem(fields.open, "open"@))
        .or_next(decimal_problem(fields.high, "high"@))
        .or_next(decimal_problem(fields.low, "low"@))
        .or_next(decimal_problem(fields.close, "close"@))
        .or_next(optional_decimal_problem(fields.base_volume, "base volume"@))
        .or_next(optional_decimal_problem(fields.quote_volume, "quote volume"@))
        .or_next(optional_decimal_problem(fields.contract_volume, "contract volume"@))
}

/// The candle that fields make. Its end is exclusive.
pub open spec fn candle_of(fields: FieldsView) -> CandleView {
    CandleView {
        interval: "1m"@,
        start_time_ms: fields.start_time_ms,
        end_time_ms: (fields.start_time_ms + CANDLE_INTERVAL_MS) as u64,
        open: in_plain_notation(fields.open),
        high: in_plain_notation(fields.high),
        low: in_plain_notation(fields.low),
        close: in_plain_notation(fields.close),
        base_volume: optional_plain(fields.base_volume),
        quote_volume: optional_plain(fields.quote_volume),
        contract_volume: optional_plain(fields.contract_volume),
        finality: fields.finality,
        data_quality: fields.data_quality,
    }
}

/// Every candle that is made of a venue's fields covers exactly one minute.
pub proof fn law_candles_cover_one_minute(fields: FieldsView)
    requires
        candle_problem(fields) is None,
    ensures
        domain::covers_one_minute(candle_of(fields)),
        candle_of(fields).end_time_ms == candle_of(fields).start_time_ms + CANDLE_INTERVAL_MS,
        candle_of(fields).start_time_ms % CANDLE_INTERVAL_MS == 0,
{
}

/// Read a decimal.
fn read_decimal(value: &str, field: &str) -> (r: Result<DecimalValue, String>)
    ensures
        match r {
            Ok(decimal) => {
                &&& decimal_problem(value@, field@) is None
                &&& decimal@ == in_plain_notation(value@)
            },
            Err(message) => decimal_problem(value@, field@) == Some(message@),
        },
{
    let scientific = text::contains(value, 'e') || text::contains(value, 'E');
    let made = if scientific {
        match decimal::read_scientific(value) {
            Some(parsed) => DecimalValue::new(parsed.text.as_str()),
            None => {
                return Err(text::cat4("invalid ", field, ": ", value));
            },
        }
    } else {
        DecimalValue::new(value)
    };
    match made {
        Ok(decimal) => Ok(decimal),
        Err(error) => Err(text::cat4("invalid ", field, ": ", error.message().as_str())),
    }
}

/// Read an optional decimal.
fn read_optional(value: &Option<String>, field: &str) -> (r: Result<Option<DecimalValue>, String>)
    ensures
        match r {
            Ok(decimal) => {
                &&& optional_decimal_problem(domain::text_view(*value), field@) is None
                &&& domain::decimal_view(decimal) == optional_plain(domain::text_view(*value))
            },
            Err(message) => optional_decimal_problem(domain::text_view(*value), field@) == Some(
                message@,
            ),
        },
{
    match value {
        Some(value) => Ok(Some(read_decimal(value.as_str(), field)?)),
        None => Ok(None),
    }
}

/// The candle that fields make.
fn build_candle(fields: CandleFields) -> (r: Result<Candle, String>)
    ensures
        match r {
            Ok(candle) => candle_problem(fields@) is None && candle@ == candle_of(fields@),
            Err(message) => candle_problem(fields@) == Some(message@),
        },
{
    if fields.start_time_ms % CANDLE_INTERVAL_MS != 0 {
        return Err(
            text::cat3(
                "candle start ",
                text::unsigned_text(fields.start_time_ms).as_str(),
                " is not a UTC minute boundary",
            ),
        );
    }
    let end_time_ms = candle_end(fields.start_time_ms)?;
    Ok(
        Candle {
            interval: "1m".to_owned(),
            start_time_ms: fields.start_time_ms,
            end_time_ms,
            open: read_decimal(fields.open.as_str(), "open")?,
            high: read_decimal(fields.high.as_str(), "high")?,
            low: read_decimal(fields.low.as_str(), "low")?,
            close: read_decimal(fields.close.as_str(), "close")?,
            base_volume: read_optional(&fields.base_volume, "base volume")?,
            quote_volume: read_optional(&fields.quote_volume, "quote volume")?,
            contract_volume: read_optional(&fields.contract_volume, "contract volume")?,
            finality: fields.finality,
            data_quality: fields.data_quality,
        },
    )
}

/// The end of a candle.
fn candle_end(start_time_ms: u64) -> (r: Result<u64, String>)
    ensures
        match r {
            Ok(end) => end_problem(start_time_ms) is None && end == start_time_ms
                + CANDLE_INTERVAL_MS,
            Err(message) => end_problem(start_time_ms) == Some(message@),
        },
{
    match start_time_ms.checked_add(CANDLE_INTERVAL_MS) {
        Some(end) => Ok(end),
        None => Err("candle end timestamp overflow".to_owned()),
    }
}

/// The finality of a candle that ends at a time, by the clock of the venue.
pub open spec fn finality_at(end_time_ms: int, server_time_ms: u64) -> CandleFinality {
    if end_time_ms <= server_time_ms {
        CandleFinality::Closed
    } else {
        CandleFinality::Open
    }
}

/// The finality of a candle that ends at a time, by the clock of the venue.
pub fn elapsed_finality(end_time_ms: u64, server_time_ms: u64) -> (finality: CandleFinality)
    ensures
        finality == finality_at(end_time_ms as int, server_time_ms),
{
    if end_time_ms <= server_time_ms {
        CandleFinality::Closed
    } else {
        CandleFinality::Open
    }
}

/// A candle is closed exactly if the clock of the venue has reached its exclusive end, and once it
/// is closed it stays so.
pub proof fn law_finality_follows_the_clock(end_time_ms: u64, earlier_ms: u64, later_ms: u64)
    requires
        earlier_ms <= later_ms,
    ensures
        finality_at(end_time_ms as int, earlier_ms) == CandleFinality::Closed <==> end_time_ms
            <= earlier_ms,
        finality_at(end_time_ms as int, earlier_ms) == CandleFinality::Closed ==> finality_at(
            end_time_ms as int,
            later_ms,
        ) == CandleFinality::Closed,
{
}

// ---------------------------------------------------------------------------------------------
// Cells and rows
// ---------------------------------------------------------------------------------------------

/// What stands for a cell: the text in its quotes, or all of it where it has none. Numbers keep
/// every digit of the venue, and the way in which it writes them.
pub open spec fn cell_in(raw: Seq<char>) -> Result<Seq<char>, Seq<char>> {
    if reading::starts(raw, '"') {
        match json::document_of(raw) {
            Ok(JsonView::Text(text)) => Ok(text),
            Ok(_) => Ok(raw),
            Err(message) => Err(message),
        }
    } else {
        Ok(raw)
    }
}

/// Why nothing stands for a cell.
pub open spec fn cell_problem(value: JsonView, field: Seq<char>) -> Option<Seq<char>> {
    match cell_in(raw_of(value)) {
        Ok(_) => None,
        Err(message) => Some("invalid "@ + field + ": "@ + message),
    }
}

/// What stands for a cell.
pub open spec fn cell_text(value: JsonView) -> Seq<char> {
    cell_in(raw_of(value))->Ok_0
}

/// The text of a document that is one.
pub open spec fn raw_of(value: JsonView) -> Seq<char> {
    match value {
        JsonView::Text(raw) => raw,
        _ => Seq::empty(),
    }
}

/// The text of a document that is one.
fn read_raw<'a>(value: &'a Json) -> (raw: &'a str)
    ensures
        raw@ == raw_of(value@),
{
    match value {
        Json::Text(raw) => raw.as_str(),
        _ => {
            proof {
                reveal_strlit("");
                assert(""@ =~= Seq::empty());
            }
            ""
        },
    }
}

/// Read a cell.
fn read_cell(value: &Json, field: &str) -> (r: Result<String, String>)
    ensures
        match r {
            Ok(text) => cell_problem(value@, field@) is None && text@ == cell_text(value@),
            Err(message) => cell_problem(value@, field@) == Some(message@),
        },
{
    let raw = read_raw(value);
    if text::after_character(raw, '"').is_none() {
        return Ok(raw.to_owned());
    }
    match json::read(raw) {
        Ok(Json::Text(text)) => Ok(text),
        Ok(_) => Ok(raw.to_owned()),
        Err(message) => Err(text::cat4("invalid ", field, ": ", message.as_str())),
    }
}

/// Why a cell is no unsigned 64-bit integer.
pub open spec fn number_cell_problem(value: JsonView, field: Seq<char>) -> Option<Seq<char>> {
    cell_problem(value, field).or_next(number_problem(cell_text(value), field))
}

/// Read an unsigned 64-bit integer.
fn read_number_cell(value: &Json, field: &str) -> (r: Result<u64, String>)
    ensures
        match r {
            Ok(n) => number_cell_problem(value@, field@) is None && n == number_of(
                cell_text(value@),
            ),
            Err(message) => number_cell_problem(value@, field@) == Some(message@),
        },
{
    let text = read_cell(value, field)?;
    read_number(text.as_str(), field)
}

/// The texts of a row of texts.
pub open spec fn texts_of(row: Seq<JsonView>) -> Seq<Seq<char>> {
    Seq::new(row.len(), |i: int| raw_of(row[i]))
}

/// What stands for the cells of a row.
pub open spec fn cells_of(row: Seq<JsonView>) -> Seq<Seq<char>> {
    Seq::new(row.len(), |i: int| cell_text(row[i]))
}

/// Why a text is no unsigned 64-bit integer.
pub open spec fn number_problem(value: Seq<char>, field: Seq<char>) -> Option<Seq<char>> {
    providers::unless(
        value.len() > 0 && text::all_digits(value),
        field + " must be an unsigned integer"@,
    ).or_next(
        providers::unless(text::digits_value(value) <= u64::MAX, field + " is out of range"@),
    )
}

/// The number that a text is.
pub open spec fn number_of(value: Seq<char>) -> u64 {
    text::digits_value(value) as u64
}

/// Read an unsigned 64-bit integer.
fn read_number(value: &str, field: &str) -> (r: Result<u64, String>)
    ensures
        match r {
            Ok(n) => number_problem(value@, field@) is None && n == number_of(value@),
            Err(message) => number_problem(value@, field@) == Some(message@),
        },
{
    if !text::is_digits(value) {
        return Err(text::cat2(field, " must be an unsigned integer"));
    }
    match text::parse_digits(value) {
        Some(n) => Ok(n),
        None => Err(text::cat2(field, " is out of range")),
    }
}

/// Why a row does not have the right number of cells.
pub open spec fn length_problem(actual: nat, expected: nat) -> Option<Seq<char>> {
    providers::unless(
        actual == expected,
        "candle row has "@ + text::digits(actual) + " fields; expected "@ + text::digits(expected),
    )
}

/// Check the number of cells of a row.
fn require_len(actual: usize, expected: usize) -> (r: Result<(), String>)
    ensures
        match r {
            Ok(_) => length_problem(actual as nat, expected as nat) is None,
            Err(message) => length_problem(actual as nat, expected as nat) == Some(message@),
        },
{
    if actual == expected {
        Ok(())
    } else {
        Err(
            text::cat4(
                "candle row has ",
                text::unsigned_text(actual as u64).as_str(),
                " fields; expected ",
                text::unsigned_text(expected as u64).as_str(),
            ),
        )
    }
}

/// The forms of rows.
#[derive(Debug, Clone, Copy, PartialEq, Eq, Structural)]
pub enum RowForm {
    Bybit,
    Binance,
    Okx,
    Kucoin,
    Bingx,
}

/// The venue of a form.
pub open spec fn venue_of(form: RowForm) -> Provider {
    match form {
        RowForm::Bybit => Provider::Bybit,
        RowForm::Binance => Provider::Binance,
        RowForm::Okx => Provider::Okx,
        RowForm::Kucoin => Provider::Kucoin,
        RowForm::Bingx => Provider::Bingx,
    }
}

/// The fields of a Bybit row.
pub open spec fn bybit_fields(cells: Seq<Seq<char>>, server_time_ms: u64) -> FieldsView {
    let start = number_of(cells[0]);
    FieldsView {
        start_time_ms: start,
        open: cells[1],
        high: cells[2],
        low: cells[3],
        close: cells[4],
        base_volume: Some(cells[5]),
        quote_volume: Some(cells[6]),
        contract_volume: None,
        finality: finality_at(start + CANDLE_INTERVAL_MS, server_time_ms),
        data_quality: Seq::empty(),
    }
}

/// The fields of a row in which the close time stands between the volumes.
pub open spec fn timed_fields(cells: Seq<Seq<char>>, server_time_ms: u64) -> FieldsView {
    let start = number_of(cells[0]);
    FieldsView {
        start_time_ms: start,
        open: cells[1],
        high: cells[2],
        low: cells[3],
        close: cells[4],
        base_volume: Some(cells[5]),
        quote_volume: Some(cells[7]),
        contract_volume: None,
        finality: finality_at(start + CANDLE_INTERVAL_MS, server_time_ms),
        data_quality: Seq::empty(),
    }
}

/// The fields of an OKX row: contracts, base and quote volume, and whether it is confirmed.
pub open spec fn okx_fields(cells: Seq<Seq<char>>) -> FieldsView {
    FieldsView {
        start_time_ms: number_of(cells[0]),
        open: cells[1],
        high: cells[2],
        low: cells[3],
        close: cells[4],
        base_volume: Some(cells[6]),
        quote_volume: Some(cells[7]),
        contract_volume: Some(cells[5]),
        finality: if cells[8] == "0"@ {
            CandleFinality::Open
        } else {
            CandleFinality::Closed
        },
        data_quality: Seq::empty(),
    }
}

/// The fields of a KuCoin row. Neither of its volumes is trustworthy, and it says nothing of
/// finality.
pub open spec fn kucoin_fields(cells: Seq<Seq<char>>) -> FieldsView {
    FieldsView {
        start_time_ms: number_of(cells[0]),
        open: cells[1],
        high: cells[2],
        low: cells[3],
        close: cells[4],
        base_volume: None,
        quote_volume: None,
        contract_volume: None,
        finality: CandleFinality::Unknown,
        data_quality: seq![DataQuality::ProviderVolumeUntrusted],
    }
}

/// The fields of a BingX object row.
pub open spec fn object_fields(row: JsonView, server_time_ms: u64) -> FieldsView {
    let start = number_of(cell_text(json::value_at(row, "time"@)));
    FieldsView {
        start_time_ms: start,
        open: cell_text(json::value_at(row, "open"@)),
        high: cell_text(json::value_at(row, "high"@)),
        low: cell_text(json::value_at(row, "low"@)),
        close: cell_text(json::value_at(row, "close"@)),
        base_volume: Some(cell_text(json::value_at(row, "volume"@))),
        quote_volume: None,
        contract_volume: None,
        finality: finality_at(start + CANDLE_INTERVAL_MS, server_time_ms),
        data_quality: Seq::empty(),
    }
}

/// Why a document has no value of that name.
pub open spec fn absence(value: JsonView, name: Seq<char>) -> Option<Seq<char>> {
    providers::unless(json::member_of(value, name) is Some, json::missing_message(name))
}

/// Why an object is no BingX row.
pub open spec fn object_shape(row: JsonView) -> Option<Seq<char>> {
    absence(row, "open"@)
        .or_next(absence(row, "close"@))
        .or_next(absence(row, "high"@))
        .or_next(absence(row, "low"@))
        .or_next(absence(row, "volume"@))
        .or_next(absence(row, "time"@))
}

/// How a BingX object row is laid out.
pub open spec fn object_row_layout() -> LayoutView {
    json::raws("open,close,high,low,volume,time"@, 6)
}

/// The document of a BingX row: an object, or an array of cells.
pub open spec fn bingx_row(row: JsonView) -> Result<JsonView, Seq<char>> {
    let raw = raw_of(row);
    if reading::starts(raw, '{') {
        match reading::laid_out(raw, object_row_layout()) {
            Ok(object) => Ok(object),
            Err(message) => Err("invalid object candle row: "@ + message),
        }
    } else if reading::starts(raw, '[') {
        match reading::laid_out(raw, json::raw_list()) {
            Ok(list) => Ok(list),
            Err(message) => Err("invalid array candle row: "@ + message),
        }
    } else {
        Err("candle row must be an object or array"@)
    }
}

/// Why the prices and the base volume of an object are no cells.
pub open spec fn object_cells_problem(row: JsonView) -> Option<Seq<char>> {
    cell_problem(json::value_at(row, "open"@), "open"@)
        .or_next(cell_problem(json::value_at(row, "high"@), "high"@))
        .or_next(cell_problem(json::value_at(row, "low"@), "low"@))
        .or_next(cell_problem(json::value_at(row, "close"@), "close"@))
        .or_next(cell_problem(json::value_at(row, "volume"@), "base volume"@))
}

/// Why the prices of a row are no cells.
pub open spec fn prices_problem(row: Seq<JsonView>) -> Option<Seq<char>> {
    cell_problem(row[1], "open"@)
        .or_next(cell_problem(row[2], "high"@))
        .or_next(cell_problem(row[3], "low"@))
        .or_next(cell_problem(row[4], "close"@))
}

/// Why the prices and volumes of a row are no cells.
pub open spec fn timed_cells_problem(row: Seq<JsonView>) -> Option<Seq<char>> {
    prices_problem(row)
        .or_next(cell_problem(row[5], "base volume"@))
        .or_next(cell_problem(row[7], "quote volume"@))
}

/// Why a BingX document is refused.
pub open spec fn bingx_row_problem(document: JsonView, server_time_ms: u64) -> Option<Seq<char>> {
    match document {
        JsonView::Object(_) => providers::prefixed(
            "invalid object candle row: "@,
            object_shape(document),
        )
            .or_next(number_cell_problem(json::value_at(document, "time"@), "time"@))
            .or_next(end_problem(number_of(cell_text(json::value_at(document, "time"@)))))
            .or_next(object_cells_problem(document))
            .or_next(candle_problem(object_fields(document, server_time_ms))),
        JsonView::List(row) => {
            let cells = cells_of(row);
            length_problem(row.len(), 11)
                .or_next(number_cell_problem(row[0], "open time"@))
                .or_next(end_problem(number_of(cells[0])))
                .or_next(number_cell_problem(row[6], "close time"@))
                .or_next(providers::unless(
                    number_of(cells[6]) + 1 == number_of(cells[0]) + CANDLE_INTERVAL_MS,
                    "one-minute candle close time is inconsistent with open time"@,
                ))
                .or_next(timed_cells_problem(row))
                .or_next(candle_problem(timed_fields(cells, server_time_ms)))
        },
        _ => Some("candle row must be an object or array"@),
    }
}

/// Why a row is refused.
pub open spec fn row_problem(form: RowForm, row: JsonView, server_time_ms: u64) -> Option<
    Seq<char>,
> {
    let list = row->List_0;
    let texts = texts_of(list);
    let cells = cells_of(list);
    match form {
        RowForm::Bybit => length_problem(texts.len(), 7)
            .or_next(number_problem(texts[0], "start time"@))
            .or_next(end_problem(number_of(texts[0])))
            .or_next(candle_problem(bybit_fields(texts, server_time_ms))),
        RowForm::Binance => length_problem(list.len(), 12)
            .or_next(number_cell_problem(list[0], "open time"@))
            .or_next(number_cell_problem(list[6], "close time"@))
            .or_next(end_problem(number_of(cells[0])))
            .or_next(providers::unless(
                number_of(cells[6]) + 1 == number_of(cells[0]) + CANDLE_INTERVAL_MS,
                "one-minute close time is not open time plus 59,999 milliseconds"@,
            ))
            .or_next(timed_cells_problem(list))
            .or_next(candle_problem(timed_fields(cells, server_time_ms))),
        RowForm::Okx => length_problem(texts.len(), 9)
            .or_next(providers::unless(
                texts[8] == "0"@ || texts[8] == "1"@,
                "unknown confirm value "@ + texts[8],
            ))
            .or_next(number_problem(texts[0], "start time"@))
            .or_next(candle_problem(okx_fields(texts))),
        RowForm::Kucoin => length_problem(list.len(), 7)
            .or_next(number_cell_problem(list[0], "start time"@))
            .or_next(prices_problem(list))
            .or_next(candle_problem(kucoin_fields(cells))),
        RowForm::Bingx => match bingx_row(row) {
            Ok(document) => bingx_row_problem(document, server_time_ms),
            Err(message) => Some(message),
        },
    }
}

/// The candle of a row.
pub open spec fn row_candle(form: RowForm, row: JsonView, server_time_ms: u64) -> CandleView {
    let texts = texts_of(row->List_0);
    let cells = cells_of(row->List_0);
    match form {
        RowForm::Bybit => candle_of(bybit_fields(texts, server_time_ms)),
        RowForm::Binance => candle_of(timed_fields(cells, server_time_ms)),
        RowForm::Okx => candle_of(okx_fields(texts)),
        RowForm::Kucoin => candle_of(kucoin_fields(cells)),
        RowForm::Bingx => bingx_candle(bingx_row(row)->Ok_0, server_time_ms),
    }
}

/// The candle of a BingX document.
pub open spec fn bingx_candle(document: JsonView, server_time_ms: u64) -> CandleView {
    match document {
        JsonView::Object(_) => candle_of(object_fields(document, server_time_ms)),
        _ => candle_of(timed_fields(cells_of(document->List_0), server_time_ms)),
    }
}

/// The texts of a row of texts.
fn read_texts(row: &Vec<Json>) -> (texts: Vec<String>)
    ensures
        providers::text_views(texts@) == texts_of(json::views(row@)),
{
    let mut texts: Vec<String> = Vec::new();
    let mut i: usize = 0;
    while i < row.len()
        invariant
            i <= row@.len(),
            texts@.len() == i,
            forall|k: int| 0 <= k < i ==> (#[trigger] texts@[k])@ == raw_of(row@[k]@),
        decreases row.len() - i,
    {
        texts.push(read_raw(&row[i]).to_owned());
        i += 1;
    }
    proof {
        assert(providers::text_views(texts@) =~= texts_of(json::views(row@)));
    }
    texts
}

/// A text of a row.
fn cell(texts: &Vec<String>, i: usize) -> (text: &str)
    requires
        i < texts@.len(),
    ensures
        text@ == providers::text_views(texts@)[i as int],
{
    texts[i].as_str()
}

/// The candle of a Bybit row.
fn parse_bybit_row(cells: &Vec<String>, server_time_ms: u64, Ghost(row): Ghost<JsonView>) -> (r:
    Result<Candle, String>)
    requires
        providers::text_views(cells@) == texts_of(row->List_0),
    ensures
        match r {
            Ok(candle) => row_problem(RowForm::Bybit, row, server_time_ms) is None && candle@
                == row_candle(RowForm::Bybit, row, server_time_ms),
            Err(message) => row_problem(RowForm::Bybit, row, server_time_ms) == Some(message@),
        },
{
    require_len(cells.len(), 7)?;
    let start_time_ms = read_number(cell(cells, 0), "start time")?;
    let end_time_ms = candle_end(start_time_ms)?;
    let fields = CandleFields {
        start_time_ms,
        open: cell(cells, 1).to_owned(),
        high: cell(cells, 2).to_owned(),
        low: cell(cells, 3).to_owned(),
        close: cell(cells, 4).to_owned(),
        base_volume: Some(cell(cells, 5).to_owned()),
        quote_volume: Some(cell(cells, 6).to_owned()),
        contract_volume: None,
        finality: elapsed_finality(end_time_ms, server_time_ms),
        data_quality: Vec::new(),
    };
    proof {
        assert(fields.data_quality@ =~= Seq::empty());
    }
    build_candle(fields)
}

/// The candle of a row in which the close time stands between the volumes.
fn build_timed(row: &Vec<Json>, start_time_ms: u64, end_time_ms: u64, server_time_ms: u64) -> (r:
    Result<Candle, String>)
    requires
        row@.len() > 7,
        start_time_ms == number_of(cells_of(json::views(row@))[0]),
        end_time_ms == start_time_ms + CANDLE_INTERVAL_MS,
    ensures
        ({
            let list = json::views(row@);
            let fields = timed_fields(cells_of(list), server_time_ms);
            let problem = timed_cells_problem(list).or_next(candle_problem(fields));
            match r {
                Ok(candle) => problem is None && candle@ == candle_of(fields),
                Err(message) => problem == Some(message@),
            }
        }),
{
    let ghost list = json::views(row@);
    let open = read_cell(&row[1], "open")?;
    let high = read_cell(&row[2], "high")?;
    let low = read_cell(&row[3], "low")?;
    let close = read_cell(&row[4], "close")?;
    let base_volume = read_cell(&row[5], "base volume")?;
    let quote_volume = read_cell(&row[7], "quote volume")?;
    let fields = CandleFields {
        start_time_ms,
        open,
        high,
        low,
        close,
        base_volume: Some(base_volume),
        quote_volume: Some(quote_volume),
        contract_volume: None,
        finality: elapsed_finality(end_time_ms, server_time_ms),
        data_quality: Vec::new(),
    };
    proof {
        assert(fields.data_quality@ =~= Seq::empty());
        assert(fields@ == timed_fields(cells_of(list), server_time_ms));
    }
    build_candle(fields)
}

/// The candle of a Binance row.
fn parse_binance_row(row: &Vec<Json>, server_time_ms: u64, Ghost(value): Ghost<JsonView>) -> (r:
    Result<Candle, String>)
    requires
        value == JsonView::List(json::views(row@)),
    ensures
        match r {
            Ok(candle) => row_problem(RowForm::Binance, value, server_time_ms) is None && candle@
                == row_candle(RowForm::Binance, value, server_time_ms),
            Err(message) => row_problem(RowForm::Binance, value, server_time_ms) == Some(message@),
        },
{
    require_len(row.len(), 12)?;
    let start_time_ms = read_number_cell(&row[0], "open time")?;
    let close_time_ms = read_number_cell(&row[6], "close time")?;
    let end_time_ms = candle_end(start_time_ms)?;
    if close_time_ms != end_time_ms - 1 {
        return Err("one-minute close time is not open time plus 59,999 milliseconds".to_owned());
    }
    build_timed(row, start_time_ms, end_time_ms, server_time_ms)
}

/// The candle of an OKX row.
fn parse_okx_row(cells: &Vec<String>, Ghost(row): Ghost<JsonView>) -> (r: Result<Candle, String>)
    requires
        providers::text_views(cells@) == texts_of(row->List_0),
    ensures
        forall|server_time_ms: u64|
            match r {
                Ok(candle) => #[trigger] row_problem(RowForm::Okx, row, server_time_ms) is None
                    && candle@ == row_candle(RowForm::Okx, row, server_time_ms),
                Err(message) => row_problem(RowForm::Okx, row, server_time_ms) == Some(message@),
            },
{
    require_len(cells.len(), 9)?;
    let confirm = cell(cells, 8);
    let open = text::same(confirm, "0");
    if !open && !text::same(confirm, "1") {
        return Err(text::cat2("unknown confirm value ", confirm));
    }
    let start_time_ms = read_number(cell(cells, 0), "start time")?;
    let fields = CandleFields {
        start_time_ms,
        open: cell(cells, 1).to_owned(),
        high: cell(cells, 2).to_owned(),
        low: cell(cells, 3).to_owned(),
        close: cell(cells, 4).to_owned(),
        contract_volume: Some(cell(cells, 5).to_owned()),
        base_volume: Some(cell(cells, 6).to_owned()),
        quote_volume: Some(cell(cells, 7).to_owned()),
        finality: if open {
            CandleFinality::Open
        } else {
            CandleFinality::Closed
        },
        data_quality: Vec::new(),
    };
    proof {
        assert(fields.data_quality@ =~= Seq::empty());
    }
    build_candle(fields)
}

/// The candle of a KuCoin row.
fn parse_kucoin_row(row: &Vec<Json>, Ghost(value): Ghost<JsonView>) -> (r: Result<Candle, String>)
    requires
        value == JsonView::List(json::views(row@)),
    ensures
        forall|server_time_ms: u64|
            match r {
                Ok(candle) => #[trigger] row_problem(RowForm::Kucoin, value, server_time_ms) is None
                    && candle@ == row_candle(RowForm::Kucoin, value, server_time_ms),
                Err(message) => row_problem(RowForm::Kucoin, value, server_time_ms) == Some(message@),
            },
{
    require_len(row.len(), 7)?;
    let start_time_ms = read_number_cell(&row[0], "start time")?;
    let open = read_cell(&row[1], "open")?;
    let high = read_cell(&row[2], "high")?;
    let low = read_cell(&row[3], "low")?;
    let close = read_cell(&row[4], "close")?;
    let fields = CandleFields {
        start_time_ms,
        open,
        high,
        low,
        close,
        base_volume: None,
        quote_volume: None,
        contract_volume: None,
        finality: CandleFinality::Unknown,
        data_quality: vec![DataQuality::ProviderVolumeUntrusted],
    };
    proof {
        assert(fields.data_quality@ =~= seq![DataQuality::ProviderVolumeUntrusted]);
        assert(fields@ == kucoin_fields(cells_of(json::views(row@))));
    }
    build_candle(fields)
}

/// A value that must be there.
fn need_value<'a>(row: &'a Json, name: &str) -> (r: Result<&'a Json, String>)
    ensures
        match r {
            Ok(value) => absence(row@, name@) is None && value@ == json::value_at(row@, name@),
            Err(message) => absence(row@, name@) == Some(message@),
        },
{
    match row.member(name) {
        Some(value) => Ok(value),
        None => Err(json::missing(name)),
    }
}

/// The values of a BingX object row.
struct ObjectRow<'a> {
    open: &'a Json,
    close: &'a Json,
    high: &'a Json,
    low: &'a Json,
    volume: &'a Json,
    time: &'a Json,
}

/// Read the values of a BingX object row.
fn read_object<'a>(row: &'a Json) -> (r: Result<ObjectRow<'a>, String>)
    ensures
        match r {
            Ok(values) => {
                &&& object_shape(row@) is None
                &&& values.open@ == json::value_at(row@, "open"@)
                &&& values.close@ == json::value_at(row@, "close"@)
                &&& values.high@ == json::value_at(row@, "high"@)
                &&& values.low@ == json::value_at(row@, "low"@)
                &&& values.volume@ == json::value_at(row@, "volume"@)
                &&& values.time@ == json::value_at(row@, "time"@)
            },
            Err(message) => object_shape(row@) == Some(message@),
        },
{
    Ok(
        ObjectRow {
            open: need_value(row, "open")?,
            close: need_value(row, "close")?,
            high: need_value(row, "high")?,
            low: need_value(row, "low")?,
            volume: need_value(row, "volume")?,
            time: need_value(row, "time")?,
        },
    )
}

/// Read the document of a BingX row.
fn read_bingx_row(row: &Json) -> (r: Result<Json, String>)
    ensures
        reading::reads(r, bingx_row(row@)),
{
    let raw = read_raw(row);
    if text::after_character(raw, '{').is_some() {
        let layout = json::raw_record("open,close,high,low,volume,time", 6);
        return match reading::read(raw, &layout) {
            Ok(object) => Ok(object),
            Err(message) => Err(text::cat2("invalid object candle row: ", message.as_str())),
        };
    }
    if text::after_character(raw, '[').is_some() {
        return match reading::read(raw, &json::raw_array()) {
            Ok(list) => Ok(list),
            Err(message) => Err(text::cat2("invalid array candle row: ", message.as_str())),
        };
    }
    Err("candle row must be an object or array".to_owned())
}

/// The candle of a BingX object row.
fn parse_bingx_object(document: &Json, server_time_ms: u64) -> (r: Result<Candle, String>)
    requires
        document@ is Object,
    ensures
        match r {
            Ok(candle) => bingx_row_problem(document@, server_time_ms) is None && candle@
                == bingx_candle(document@, server_time_ms),
            Err(message) => bingx_row_problem(document@, server_time_ms) == Some(message@),
        },
{
    let values = match read_object(document) {
        Ok(values) => values,
        Err(message) => {
            return Err(text::cat2("invalid object candle row: ", message.as_str()));
        },
    };
    let start_time_ms = read_number_cell(values.time, "time")?;
    let end_time_ms = candle_end(start_time_ms)?;
    let open = read_cell(values.open, "open")?;
    let high = read_cell(values.high, "high")?;
    let low = read_cell(values.low, "low")?;
    let close = read_cell(values.close, "close")?;
    let base_volume = read_cell(values.volume, "base volume")?;
    let fields = CandleFields {
        start_time_ms,
        open,
        high,
        low,
        close,
        base_volume: Some(base_volume),
        quote_volume: None,
        contract_volume: None,
        finality: elapsed_finality(end_time_ms, server_time_ms),
        data_quality: Vec::new(),
    };
    proof {
        assert(fields.data_quality@ =~= Seq::empty());
        assert(fields@ == object_fields(document@, server_time_ms));
    }
    build_candle(fields)
}

/// The candle of a BingX document.
///
/// # Errors
///
/// Says why the document is no row.
pub fn parse_bingx_document(document: &Json, server_time_ms: u64) -> (r: Result<Candle, String>)
    ensures
        match r {
            Ok(candle) => bingx_row_problem(document@, server_time_ms) is None && candle@
                == bingx_candle(document@, server_time_ms),
            Err(message) => bingx_row_problem(document@, server_time_ms) == Some(message@),
        },
{
    if document.is_object() {
        return parse_bingx_object(document, server_time_ms);
    }
    let row = match document.as_list() {
        Some(row) => row,
        None => {
            return Err("candle row must be an object or array".to_owned());
        },
    };
    require_len(row.len(), 11)?;
    let start_time_ms = read_number_cell(&row[0], "open time")?;
    let end_time_ms = candle_end(start_time_ms)?;
    let close_time_ms = read_number_cell(&row[6], "close time")?;
    if close_time_ms != end_time_ms - 1 {
        return Err("one-minute candle close time is inconsistent with open time".to_owned());
    }
    build_timed(row, start_time_ms, end_time_ms, server_time_ms)
}

/// The candle of a row.
fn parse_row(form: RowForm, row: &Json, server_time_ms: u64) -> (r: Result<Candle, String>)
    requires
        form == RowForm::Bingx || row@ is List,
    ensures
        match r {
            Ok(candle) => row_problem(form, row@, server_time_ms) is None && candle@ == row_candle(
                form,
                row@,
                server_time_ms,
            ),
            Err(message) => row_problem(form, row@, server_time_ms) == Some(message@),
        },
{
    if let RowForm::Bingx = form {
        let document = read_bingx_row(row)?;
        return parse_bingx_document(&document, server_time_ms);
    }
    let none: Vec<Json> = Vec::new();
    let list = match row.as_list() {
        Some(list) => list,
        None => &none,
    };
    match form {
        RowForm::Bybit => parse_bybit_row(&read_texts(list), server_time_ms, Ghost(row@)),
        RowForm::Binance => parse_binance_row(list, server_time_ms, Ghost(row@)),
        RowForm::Okx => parse_okx_row(&read_texts(list), Ghost(row@)),
        RowForm::Kucoin | RowForm::Bingx => parse_kucoin_row(list, Ghost(row@)),
    }
}

/// The candles of rows, or the complaint about the first one that is refused.
pub open spec fn rows_read(form: RowForm, rows: Seq<JsonView>, server_time_ms: u64) -> Result<
    Seq<CandleView>,
    HistoryErrorView,
> {
    match providers::first_complaint(
        rows,
        |row: JsonView| row_problem(form, row, server_time_ms),
    ) {
        Some(message) => Err(history::bad_payload(venue_of(form), message)),
        None => Ok(Seq::new(rows.len(), |i: int| row_candle(form, rows[i], server_time_ms))),
    }
}

/// Whether a result is what is read.
pub open spec fn reads(
    r: Result<Vec<Candle>, HistoryError>,
    value: Result<Seq<CandleView>, HistoryErrorView>,
) -> bool {
    match r {
        Ok(list) => value == Ok::<Seq<CandleView>, HistoryErrorView>(
            history::candle_views(list@),
        ),
        Err(error) => value == Err::<Seq<CandleView>, HistoryErrorView>(error@),
    }
}

/// The candles of rows.
fn parse_rows(form: RowForm, rows: &Vec<Json>, server_time_ms: u64) -> (r: Result<
    Vec<Candle>,
    HistoryError,
>)
    requires
        form == RowForm::Bingx || forall|i: int|
            0 <= i < rows@.len() ==> (#[trigger] rows@[i])@ is List,
    ensures
        reads(r, rows_read(form, json::views(rows@), server_time_ms)),
{
    let ghost all = json::views(rows@);
    let ghost check = |row: JsonView| row_problem(form, row, server_time_ms);
    let mut list: Vec<Candle> = Vec::new();
    let mut i: usize = 0;
    while i < rows.len()
        invariant
            form == RowForm::Bingx || forall|i: int|
                0 <= i < rows@.len() ==> (#[trigger] rows@[i])@ is List,
            i <= rows@.len(),
            all == json::views(rows@),
            check == (|row: JsonView| row_problem(form, row, server_time_ms)),
            providers::first_complaint(all.take(i as int), check) is None,
            list@.len() == i,
            forall|k: int|
                0 <= k < i ==> (#[trigger] list@[k])@ == row_candle(
                    form,
                    all[k],
                    server_time_ms,
                ),
        decreases rows.len() - i,
    {
        proof {
            assert(all[i as int] == rows@[i as int]@);
            providers::lemma_next_complaint(all, i as int, check);
        }
        match parse_row(form, &rows[i], server_time_ms) {
            Ok(candle) => {
                list.push(candle);
            },
            Err(message) => {
                return history::invalid_payload(form.venue(), message.as_str());
            },
        }
        i += 1;
    }
    proof {
        assert(all.take(i as int) =~= all);
        assert(history::candle_views(list@) =~= Seq::new(
            all.len(),
            |i: int| row_candle(form, all[i], server_time_ms),
        ));
    }
    Ok(list)
}

impl RowForm {
    /// The venue of a form.
    fn venue(self) -> (provider: Provider)
        ensures
            provider == venue_of(self),
    {
        match self {
            RowForm::Bybit => Provider::Bybit,
            RowForm::Binance => Provider::Binance,
            RowForm::Okx => Provider::Okx,
            RowForm::Kucoin => Provider::Kucoin,
            RowForm::Bingx => Provider::Bingx,
        }
    }
}

// ---------------------------------------------------------------------------------------------
// Shapes
// ---------------------------------------------------------------------------------------------

/// The complaint about a row that is no list.
pub open spec fn row_shape(row: JsonView) -> Option<Seq<char>> {
    providers::unless(row is List, "a row must be a list"@)
}

/// The complaint about a cell that is no text.
pub open spec fn text_cell_shape(cell: JsonView) -> Option<Seq<char>> {
    providers::unless(cell is Text, "a cell must be a text"@)
}

/// The complaint about a row that is no list of texts.
pub open spec fn text_row_shape(row: JsonView) -> Option<Seq<char>> {
    row_shape(row).or_next(
        providers::first_complaint(row->List_0, |cell: JsonView| text_cell_shape(cell)),
    )
}

/// Why rows are no lists, or no lists of texts.
pub open spec fn rows_shape(rows: Seq<JsonView>, texts: bool) -> Option<Seq<char>> {
    providers::first_complaint(
        rows,
        |row: JsonView|
            if texts {
                text_row_shape(row)
            } else {
                row_shape(row)
            },
    )
}

/// Check that a row is a list of texts.
fn check_text_row(row: &Json) -> (r: Result<(), String>)
    ensures
        match r {
            Ok(_) => text_row_shape(row@) is None,
            Err(message) => text_row_shape(row@) == Some(message@),
        },
{
    let cells = match row.as_list() {
        Some(cells) => cells,
        None => {
            return Err("a row must be a list".to_owned());
        },
    };
    let ghost all = json::views(cells@);
    let ghost check = |cell: JsonView| text_cell_shape(cell);
    let mut i: usize = 0;
    while i < cells.len()
        invariant
            i <= cells@.len(),
            all == json::views(cells@),
            row@ is List,
            row@->List_0 == all,
            check == (|cell: JsonView| text_cell_shape(cell)),
            providers::first_complaint(all.take(i as int), check) is None,
        decreases cells.len() - i,
    {
        proof {
            assert(all[i as int] == cells@[i as int]@);
            providers::lemma_next_complaint(all, i as int, check);
        }
        if cells[i].as_text().is_none() {
            return Err("a cell must be a text".to_owned());
        }
        i += 1;
    }
    proof {
        assert(all.take(i as int) =~= all);
    }
    Ok(())
}

/// Check that rows are lists, or lists of texts.
fn check_rows(rows: &Vec<Json>, texts: bool) -> (r: Result<(), String>)
    ensures
        match r {
            Ok(_) => {
                &&& rows_shape(json::views(rows@), texts) is None
                &&& forall|i: int| 0 <= i < rows@.len() ==> (#[trigger] rows@[i])@ is List
            },
            Err(message) => rows_shape(json::views(rows@), texts) == Some(message@),
        },
{
    let ghost all = json::views(rows@);
    let ghost check = |row: JsonView|
        if texts {
            text_row_shape(row)
        } else {
            row_shape(row)
        };
    let mut i: usize = 0;
    while i < rows.len()
        invariant
            i <= rows@.len(),
            all == json::views(rows@),
            check == (|row: JsonView|
                if texts {
                    text_row_shape(row)
                } else {
                    row_shape(row)
                }),
            providers::first_complaint(all.take(i as int), check) is None,
            forall|k: int| 0 <= k < i ==> (#[trigger] rows@[k])@ is List,
        decreases rows.len() - i,
    {
        proof {
            assert(all[i as int] == rows@[i as int]@);
            providers::lemma_next_complaint(all, i as int, check);
        }
        if texts {
            check_text_row(&rows[i])?;
        } else if rows[i].as_list().is_none() {
            return Err("a row must be a list".to_owned());
        }
        i += 1;
    }
    proof {
        assert(all.take(i as int) =~= all);
    }
    Ok(())
}

/// The error for an answer that is no document of the right shape.
pub open spec fn not_json(provider: Provider, message: Seq<char>) -> HistoryErrorView {
    history::bad_payload(provider, "invalid JSON: "@ + message)
}

/// The error for an answer that is no document of the right shape.
fn invalid_json<T>(provider: Provider, message: String) -> (r: Result<T, HistoryError>)
    ensures
        r is Err && r->Err_0@ == not_json(provider, message@),
{
    history::invalid_payload(
        provider,
        text::cat2("invalid JSON: ", message.as_str()).as_str(),
    )
}

// ---------------------------------------------------------------------------------------------
// Bybit
// ---------------------------------------------------------------------------------------------

/// Why a document is no Bybit answer.
pub open spec fn bybit_header_shape(root: JsonView) -> Option<Seq<char>> {
    json::signed_problem(root, "retCode"@).or_next(json::text_problem(root, "retMsg"@))
}

/// Why a document is no Bybit answer with candles.
pub open spec fn bybit_shape(root: JsonView) -> Option<Seq<char>> {
    let result = json::value_at(root, "result"@);
    json::signed_problem(root, "retCode"@)
        .or_next(absence(root, "result"@))
        .or_next(json::text_problem(result, "category"@))
        .or_next(json::text_problem(result, "symbol"@))
        .or_next(json::list_problem(result, "list"@))
        .or_next(rows_shape(json::list_at(result, "list"@), true))
        .or_next(json::unsigned_problem(root, "time"@))
}

/// How a Bybit answer with candles is laid out.
pub open spec fn bybit_layout() -> LayoutView {
    json::with_field(
        json::flat("retCode,result,time"@, 3),
        "result"@,
        json::flat("category,symbol,list"@, 3),
    )
}

fn bybit_record() -> (layout: Layout)
    ensures
        layout@ == bybit_layout(),
{
    json::nest(
        json::flat_record("retCode,result,time", 3),
        "result",
        json::flat_record("category,symbol,list", 3),
    )
}

/// What the two readings of a Bybit answer mean: the one of its header and the one of its candles.
pub open spec fn bybit_candles(
    header: Result<JsonView, Seq<char>>,
    response: Result<JsonView, Seq<char>>,
    symbol: Seq<char>,
) -> Result<Seq<CandleView>, HistoryErrorView> {
    match header {
        Err(message) => Err(not_json(Provider::Bybit, message)),
        Ok(head) => if let Some(message) = bybit_header_shape(head) {
            Err(not_json(Provider::Bybit, message))
        } else if json::signed_at(head, "retCode"@) != 0 {
            Err(
                history::refusal(
                    Provider::Bybit,
                    text::integer_text(json::signed_at(head, "retCode"@) as int),
                    json::text_at(head, "retMsg"@),
                ),
            )
        } else {
            match response {
                Err(message) => Err(not_json(Provider::Bybit, message)),
                Ok(root) => bybit_rows(root, symbol),
            }
        },
    }
}

/// What a Bybit document with candles means.
pub open spec fn bybit_rows(root: JsonView, symbol: Seq<char>) -> Result<
    Seq<CandleView>,
    HistoryErrorView,
> {
    let result = json::value_at(root, "result"@);
    if let Some(message) = bybit_shape(root) {
        Err(not_json(Provider::Bybit, message))
    } else if json::signed_at(root, "retCode"@) != 0 {
        Err(
            history::bad_payload(
                Provider::Bybit,
                "successful envelope changed retCode while parsing"@,
            ),
        )
    } else if json::text_at(result, "category"@) != "linear"@ || json::text_at(result, "symbol"@)
        != symbol {
        Err(
            history::bad_payload(
                Provider::Bybit,
                "response category or symbol does not match request"@,
            ),
        )
    } else {
        rows_read(
            RowForm::Bybit,
            json::list_at(result, "list"@),
            json::unsigned_at(root, "time"@),
        )
    }
}

/// What a text means as a Bybit answer.
pub open spec fn bybit_candles_in(body: Seq<char>, symbol: Seq<char>) -> Result<
    Seq<CandleView>,
    HistoryErrorView,
> {
    bybit_candles(
        reading::laid_out(body, json::flat("retCode,retMsg"@, 2)),
        reading::laid_out(body, bybit_layout()),
        symbol,
    )
}

/// The parts of a Bybit answer with candles.
struct BybitParts<'a> {
    code: i64,
    category: &'a str,
    symbol: &'a str,
    rows: &'a Vec<Json>,
    time: u64,
}

/// Read the parts of a Bybit answer with candles.
fn read_bybit_parts<'a>(root: &'a Json) -> (r: Result<BybitParts<'a>, String>)
    ensures
        match r {
            Ok(parts) => {
                let result = json::value_at(root@, "result"@);
                &&& bybit_shape(root@) is None
                &&& parts.code == json::signed_at(root@, "retCode"@)
                &&& parts.category@ == json::text_at(result, "category"@)
                &&& parts.symbol@ == json::text_at(result, "symbol"@)
                &&& json::views(parts.rows@) == json::list_at(result, "list"@)
                &&& parts.time == json::unsigned_at(root@, "time"@)
                &&& forall|i: int|
                    0 <= i < parts.rows@.len() ==> (#[trigger] parts.rows@[i])@ is List
            },
            Err(message) => bybit_shape(root@) == Some(message@),
        },
{
    let code = json::need_signed(root, "retCode")?;
    let result = need_value(root, "result")?;
    let category = json::need_text(result, "category")?;
    let symbol = json::need_text(result, "symbol")?;
    let rows = json::need_list(result, "list")?;
    check_rows(rows, true)?;
    let time = json::need_unsigned(root, "time")?;
    Ok(BybitParts { code, category, symbol, rows, time })
}

/// What the two readings of a Bybit answer mean.
///
/// # Errors
///
/// Returns why the venue refused the request, or why its answer is invalid.
pub fn read_bybit(
    header: Result<Json, String>,
    response: Result<Json, String>,
    expected_symbol: &str,
) -> (r: Result<Vec<Candle>, HistoryError>)
    ensures
        reads(r, bybit_candles(reading::outcome(header), reading::outcome(response), expected_symbol@)),
{
    let provider = Provider::Bybit;
    let head = match header {
        Ok(head) => head,
        Err(message) => {
            return invalid_json(provider, message);
        },
    };
    let code = match json::need_signed(&head, "retCode") {
        Ok(code) => code,
        Err(message) => {
            return invalid_json(provider, message);
        },
    };
    let message = match json::need_text(&head, "retMsg") {
        Ok(message) => message,
        Err(message) => {
            return invalid_json(provider, message);
        },
    };
    if code != 0 {
        return history::provider_rejected(provider, text::signed_text(code), message.to_owned());
    }
    let root = match response {
        Ok(root) => root,
        Err(message) => {
            return invalid_json(provider, message);
        },
    };
    let parts = match read_bybit_parts(&root) {
        Ok(parts) => parts,
        Err(message) => {
            return invalid_json(provider, message);
        },
    };
    if parts.code != 0 {
        return history::invalid_payload(
            provider,
            "successful envelope changed retCode while parsing",
        );
    }
    if !text::same(parts.category, "linear") || !text::same(parts.symbol, expected_symbol) {
        return history::invalid_payload(
            provider,
            "response category or symbol does not match request",
        );
    }
    parse_rows(RowForm::Bybit, parts.rows, parts.time)
}

/// What a Bybit answer means.
///
/// # Errors
///
/// Returns why the venue refused the request, or why its answer is invalid.
pub fn parse_bybit(body: &str, expected_symbol: &str) -> (r: Result<Vec<Candle>, HistoryError>)
    ensures
        reads(r, bybit_candles_in(body@, expected_symbol@)),
{
    read_bybit(
        reading::read(body, &json::flat_record("retCode,retMsg", 2)),
        reading::read(body, &bybit_record()),
        expected_symbol,
    )
}

// ---------------------------------------------------------------------------------------------
// Binance
// ---------------------------------------------------------------------------------------------

/// What a Binance answer means.
pub open spec fn binance_candles(root: JsonView, server_time_ms: u64) -> Result<
    Seq<CandleView>,
    HistoryErrorView,
> {
    let shape = match root {
        JsonView::List(rows) => rows_shape(rows, false),
        _ => Some("the answer must be a list"@),
    };
    match shape {
        Some(message) => Err(
            history::bad_payload(
                Provider::Binance,
                "response is not a kline array: "@ + message,
            ),
        ),
        None => rows_read(RowForm::Binance, root->List_0, server_time_ms),
    }
}

/// How a Binance answer is laid out.
pub open spec fn binance_layout() -> LayoutView {
    LayoutView::Each(Box::new(json::raw_list()))
}

/// What a text means as a Binance answer.
pub open spec fn binance_candles_in(body: Seq<char>, server_time_ms: u64) -> Result<
    Seq<CandleView>,
    HistoryErrorView,
> {
    match reading::laid_out(body, binance_layout()) {
        Ok(root) => binance_candles(root, server_time_ms),
        Err(message) => Err(
            history::bad_payload(
                Provider::Binance,
                "response is not a kline array: "@ + message,
            ),
        ),
    }
}

/// The error for a Binance answer that is no list of rows.
fn no_kline_array<T>(message: &str) -> (r: Result<T, HistoryError>)
    ensures
        r is Err && r->Err_0@ == history::bad_payload(
            Provider::Binance,
            "response is not a kline array: "@ + message@,
        ),
{
    history::invalid_payload(
        Provider::Binance,
        text::cat2("response is not a kline array: ", message).as_str(),
    )
}

/// What a Binance document means.
///
/// # Errors
///
/// Returns why the answer is invalid.
pub fn read_binance(root: &Json, server_time_ms: u64) -> (r: Result<Vec<Candle>, HistoryError>)
    ensures
        reads(r, binance_candles(root@, server_time_ms)),
{
    let rows = match root.as_list() {
        Some(rows) => rows,
        None => {
            return no_kline_array("the answer must be a list");
        },
    };
    if let Err(message) = check_rows(rows, false) {
        return no_kline_array(message.as_str());
    }
    parse_rows(RowForm::Binance, rows, server_time_ms)
}

/// What a Binance answer means.
///
/// # Errors
///
/// Returns why the answer is invalid.
pub fn parse_binance(body: &str, server_time_ms: u64) -> (r: Result<Vec<Candle>, HistoryError>)
    ensures
        reads(r, binance_candles_in(body@, server_time_ms)),
{
    proof {
        reveal_with_fuel(json::layout_view, 2);
    }
    match reading::read(body, &Layout::Each(Box::new(json::raw_array()))) {
        Ok(root) => read_binance(&root, server_time_ms),
        Err(message) => no_kline_array(message.as_str()),
    }
}

// ---------------------------------------------------------------------------------------------
// OKX
// ---------------------------------------------------------------------------------------------

/// What the two readings of an OKX answer mean: the one of its header and the one of its candles.
pub open spec fn okx_candles(
    header: Result<JsonView, Seq<char>>,
    response: Result<JsonView, Seq<char>>,
) -> Result<Seq<CandleView>, HistoryErrorView> {
    match header {
        Err(message) => Err(not_json(Provider::Okx, message)),
        Ok(head) => if let Some(message) = json::text_problem(head, "code"@).or_next(
            json::text_problem(head, "msg"@),
        ) {
            Err(not_json(Provider::Okx, message))
        } else if json::text_at(head, "code"@) != "0"@ {
            Err(
                history::refusal(
                    Provider::Okx,
                    json::text_at(head, "code"@),
                    json::text_at(head, "msg"@),
                ),
            )
        } else {
            match response {
                Err(message) => Err(not_json(Provider::Okx, message)),
                Ok(root) => okx_rows(root),
            }
        },
    }
}

/// What an OKX document with candles means.
pub open spec fn okx_rows(root: JsonView) -> Result<Seq<CandleView>, HistoryErrorView> {
    if let Some(message) = json::text_problem(root, "code"@).or_next(
        json::list_problem(root, "data"@),
    ).or_next(rows_shape(json::list_at(root, "data"@), true)) {
        Err(not_json(Provider::Okx, message))
    } else if json::text_at(root, "code"@) != "0"@ {
        Err(
            history::bad_payload(
                Provider::Okx,
                "successful envelope changed code while parsing"@,
            ),
        )
    } else {
        rows_read(RowForm::Okx, json::list_at(root, "data"@), 0)
    }
}

/// What a text means as an OKX answer.
pub open spec fn okx_candles_in(body: Seq<char>) -> Result<Seq<CandleView>, HistoryErrorView> {
    okx_candles(
        reading::laid_out(body, json::flat("code,msg"@, 2)),
        reading::laid_out(body, json::flat("code,data"@, 2)),
    )
}

/// The rows of an answer.
fn read_data_rows<'a>(root: &'a Json, texts: bool) -> (r: Result<&'a Vec<Json>, String>)
    ensures
        match r {
            Ok(rows) => {
                &&& json::list_problem(root@, "data"@) is None
                &&& rows_shape(json::list_at(root@, "data"@), texts) is None
                &&& json::views(rows@) == json::list_at(root@, "data"@)
                &&& forall|i: int| 0 <= i < rows@.len() ==> (#[trigger] rows@[i])@ is List
            },
            Err(message) => json::list_problem(root@, "data"@).or_next(
                rows_shape(json::list_at(root@, "data"@), texts),
            ) == Some(message@),
        },
{
    let rows = json::need_list(root, "data")?;
    check_rows(rows, texts)?;
    Ok(rows)
}

/// What the two readings of an OKX answer mean.
///
/// # Errors
///
/// Returns why the venue refused the request, or why its answer is invalid.
pub fn read_okx(header: Result<Json, String>, response: Result<Json, String>) -> (r: Result<
    Vec<Candle>,
    HistoryError,
>)
    ensures
        reads(r, okx_candles(reading::outcome(header), reading::outcome(response))),
{
    let provider = Provider::Okx;
    let head = match header {
        Ok(head) => head,
        Err(message) => {
            return invalid_json(provider, message);
        },
    };
    let code = match json::need_text(&head, "code") {
        Ok(code) => code,
        Err(message) => {
            return invalid_json(provider, message);
        },
    };
    let message = match json::need_text(&head, "msg") {
        Ok(message) => message,
        Err(message) => {
            return invalid_json(provider, message);
        },
    };
    if !text::same(code, "0") {
        return history::provider_rejected(provider, code.to_owned(), message.to_owned());
    }
    let root = match response {
        Ok(root) => root,
        Err(message) => {
            return invalid_json(provider, message);
        },
    };
    let again = match json::need_text(&root, "code") {
        Ok(again) => again,
        Err(message) => {
            return invalid_json(provider, message);
        },
    };
    let rows = match read_data_rows(&root, true) {
        Ok(rows) => rows,
        Err(message) => {
            return invalid_json(provider, message);
        },
    };
    if !text::same(again, "0") {
        return history::invalid_payload(
            provider,
            "successful envelope changed code while parsing",
        );
    }
    parse_rows(RowForm::Okx, rows, 0)
}

/// What an OKX answer means.
///
/// # Errors
///
/// Returns why the venue refused the request, or why its answer is invalid.
pub fn parse_okx(body: &str) -> (r: Result<Vec<Candle>, HistoryError>)
    ensures
        reads(r, okx_candles_in(body@)),
{
    read_okx(
        reading::read(body, &json::flat_record("code,msg", 2)),
        reading::read(body, &json::flat_record("code,data", 2)),
    )
}

// ---------------------------------------------------------------------------------------------
// KuCoin
// ---------------------------------------------------------------------------------------------

/// Why a document has a value of that name that is no text.
pub open spec fn defaulted_text_problem(root: JsonView, name: Seq<char>) -> Option<Seq<char>> {
    match json::member_of(root, name) {
        Some(_) => json::text_problem(root, name),
        None => None,
    }
}

/// The text of that name, or the empty one where there is none.
fn defaulted_text<'a>(root: &'a Json, name: &str) -> (r: Result<&'a str, String>)
    ensures
        match r {
            Ok(text) => {
                &&& defaulted_text_problem(root@, name@) is None
                &&& text@ == json::text_at(root@, name@)
            },
            Err(message) => defaulted_text_problem(root@, name@) == Some(message@),
        },
{
    match root.member(name) {
        Some(_) => json::need_text(root, name),
        None => {
            proof {
                reveal_strlit("");
                assert(""@ =~= Seq::empty());
            }
            Ok("")
        },
    }
}

/// How a KuCoin answer with candles is laid out.
pub open spec fn kucoin_layout() -> LayoutView {
    json::with_field(
        json::flat("code,data"@, 2),
        "data"@,
        LayoutView::Each(Box::new(json::raw_list())),
    )
}

fn kucoin_record() -> (layout: Layout)
    ensures
        layout@ == kucoin_layout(),
{
    json::nest(
        json::flat_record("code,data", 2),
        "data",
        Layout::Each(Box::new(json::raw_array())),
    )
}

/// What the two readings of a KuCoin answer mean: the one of its header and the one of its candles.
pub open spec fn kucoin_candles(
    header: Result<JsonView, Seq<char>>,
    response: Result<JsonView, Seq<char>>,
) -> Result<Seq<CandleView>, HistoryErrorView> {
    match header {
        Err(message) => Err(not_json(Provider::Kucoin, message)),
        Ok(head) => if let Some(message) = json::text_problem(head, "code"@).or_next(
            defaulted_text_problem(head, "msg"@),
        ) {
            Err(not_json(Provider::Kucoin, message))
        } else if json::text_at(head, "code"@) != "200000"@ {
            Err(
                history::refusal(
                    Provider::Kucoin,
                    json::text_at(head, "code"@),
                    json::text_at(head, "msg"@),
                ),
            )
        } else {
            match response {
                Err(message) => Err(not_json(Provider::Kucoin, message)),
                Ok(root) => kucoin_rows(root),
            }
        },
    }
}

/// What a KuCoin document with candles means.
pub open spec fn kucoin_rows(root: JsonView) -> Result<Seq<CandleView>, HistoryErrorView> {
    if let Some(message) = json::text_problem(root, "code"@).or_next(
        json::list_problem(root, "data"@),
    ).or_next(rows_shape(json::list_at(root, "data"@), false)) {
        Err(not_json(Provider::Kucoin, message))
    } else if json::text_at(root, "code"@) != "200000"@ {
        Err(
            history::bad_payload(
                Provider::Kucoin,
                "successful envelope changed code while parsing"@,
            ),
        )
    } else {
        rows_read(RowForm::Kucoin, json::list_at(root, "data"@), 0)
    }
}

/// What a text means as a KuCoin answer.
pub open spec fn kucoin_candles_in(body: Seq<char>) -> Result<Seq<CandleView>, HistoryErrorView> {
    kucoin_candles(
        reading::laid_out(body, json::flat("code,msg"@, 1)),
        reading::laid_out(body, kucoin_layout()),
    )
}

/// What the two readings of a KuCoin answer mean.
///
/// # Errors
///
/// Returns why the venue refused the request, or why its answer is invalid.
pub fn read_kucoin(header: Result<Json, String>, response: Result<Json, String>) -> (r: Result<
    Vec<Candle>,
    HistoryError,
>)
    ensures
        reads(r, kucoin_candles(reading::outcome(header), reading::outcome(response))),
{
    let provider = Provider::Kucoin;
    let head = match header {
        Ok(head) => head,
        Err(message) => {
            return invalid_json(provider, message);
        },
    };
    let code = match json::need_text(&head, "code") {
        Ok(code) => code,
        Err(message) => {
            return invalid_json(provider, message);
        },
    };
    let message = match defaulted_text(&head, "msg") {
        Ok(message) => message,
        Err(message) => {
            return invalid_json(provider, message);
        },
    };
    if !text::same(code, "200000") {
        return history::provider_rejected(provider, code.to_owned(), message.to_owned());
    }
    let root = match response {
        Ok(root) => root,
        Err(message) => {
            return invalid_json(provider, message);
        },
    };
    let again = match json::need_text(&root, "code") {
        Ok(again) => again,
        Err(message) => {
            return invalid_json(provider, message);
        },
    };
    let rows = match read_data_rows(&root, false) {
        Ok(rows) => rows,
        Err(message) => {
            return invalid_json(provider, message);
        },
    };
    if !text::same(again, "200000") {
        return history::invalid_payload(
            provider,
            "successful envelope changed code while parsing",
        );
    }
    parse_rows(RowForm::Kucoin, rows, 0)
}

/// What a KuCoin answer means.
///
/// # Errors
///
/// Returns why the venue refused the request, or why its answer is invalid.
pub fn parse_kucoin(body: &str) -> (r: Result<Vec<Candle>, HistoryError>)
    ensures
        reads(r, kucoin_candles_in(body@)),
{
    read_kucoin(
        reading::read(body, &json::flat_record("code,msg", 1)),
        reading::read(body, &kucoin_record()),
    )
}

// ---------------------------------------------------------------------------------------------
// MEXC
// ---------------------------------------------------------------------------------------------

/// Why a document has no status of MEXC.
pub open spec fn mexc_status_shape(root: JsonView) -> Option<Seq<char>> {
    json::flag_problem(root, "success"@).or_next(json::signed_problem(root, "code"@))
}

/// Why a document is no MEXC answer with candles.
pub open spec fn mexc_shape(root: JsonView) -> Option<Seq<char>> {
    let data = json::value_at(root, "data"@);
    mexc_status_shape(root)
        .or_next(absence(root, "data"@))
        .or_next(json::list_problem(data, "time"@))
        .or_next(json::list_problem(data, "open"@))
        .or_next(json::list_problem(data, "close"@))
        .or_next(json::list_problem(data, "high"@))
        .or_next(json::list_problem(data, "low"@))
        .or_next(json::list_problem(data, "vol"@))
        .or_next(json::list_problem(data, "amount"@))
}

/// Why a MEXC answer is a refusal.
pub open spec fn mexc_refusal(root: JsonView) -> Option<HistoryErrorView> {
    let success = json::flag_at(root, "success"@);
    let code = json::signed_at(root, "code"@);
    if !success || code != 0 {
        Some(
            history::refusal(
                Provider::Mexc,
                text::integer_text(code as int),
                if success {
                    "success=true"@
                } else {
                    "success=false"@
                },
            ),
        )
    } else {
        None
    }
}

/// Why a column is not as long as the one of the times.
pub open spec fn column_problem(data: JsonView, name: Seq<char>) -> Option<Seq<char>> {
    let actual = json::list_at(data, name).len();
    let expected = json::list_at(data, "time"@).len();
    providers::unless(
        actual == expected,
        "parallel "@ + name + " array has "@ + text::digits(actual) + " rows; expected "@
            + text::digits(expected),
    )
}

/// Why the columns of a MEXC answer do not fit together.
pub open spec fn columns_problem(data: JsonView) -> Option<Seq<char>> {
    column_problem(data, "open"@)
        .or_next(column_problem(data, "close"@))
        .or_next(column_problem(data, "high"@))
        .or_next(column_problem(data, "low"@))
        .or_next(column_problem(data, "vol"@))
        .or_next(column_problem(data, "amount"@))
}

/// The start of a candle of a MEXC answer, which counts seconds.
pub open spec fn mexc_start(data: JsonView, i: int) -> int {
    number_of(cell_text(json::list_at(data, "time"@)[i])) * 1_000
}

/// The fields of a candle of a MEXC answer: vol counts contracts and amount is the quote turnover.
pub open spec fn mexc_fields(data: JsonView, i: int, server_time_ms: u64) -> FieldsView {
    FieldsView {
        start_time_ms: mexc_start(data, i) as u64,
        open: cell_text(json::list_at(data, "open"@)[i]),
        high: cell_text(json::list_at(data, "high"@)[i]),
        low: cell_text(json::list_at(data, "low"@)[i]),
        close: cell_text(json::list_at(data, "close"@)[i]),
        base_volume: None,
        quote_volume: Some(cell_text(json::list_at(data, "amount"@)[i])),
        contract_volume: Some(cell_text(json::list_at(data, "vol"@)[i])),
        finality: finality_at(mexc_start(data, i) + CANDLE_INTERVAL_MS, server_time_ms),
        data_quality: Seq::empty(),
    }
}

/// Why the prices and volumes of a candle of a MEXC answer are no cells.
pub open spec fn mexc_cells_problem(data: JsonView, i: int) -> Option<Seq<char>> {
    cell_problem(json::list_at(data, "open"@)[i], "open"@)
        .or_next(cell_problem(json::list_at(data, "high"@)[i], "high"@))
        .or_next(cell_problem(json::list_at(data, "low"@)[i], "low"@))
        .or_next(cell_problem(json::list_at(data, "close"@)[i], "close"@))
        .or_next(cell_problem(json::list_at(data, "amount"@)[i], "quote volume"@))
        .or_next(cell_problem(json::list_at(data, "vol"@)[i], "contract volume"@))
}

/// Why a candle of a MEXC answer is refused.
pub open spec fn mexc_row_problem(data: JsonView, i: int, server_time_ms: u64) -> Option<
    Seq<char>,
> {
    number_cell_problem(json::list_at(data, "time"@)[i], "time"@)
        .or_next(providers::unless(
            mexc_start(data, i) <= u64::MAX,
            "candle start timestamp overflow"@,
        ))
        .or_next(end_problem(mexc_start(data, i) as u64))
        .or_next(mexc_cells_problem(data, i))
        .or_next(candle_problem(mexc_fields(data, i, server_time_ms)))
}

/// The complaint about the first refused one of the first candles of a MEXC answer.
pub open spec fn mexc_rows_problem(data: JsonView, count: nat, server_time_ms: u64) -> Option<
    Seq<char>,
>
    decreases count,
{
    if count == 0 {
        None
    } else {
        mexc_rows_problem(data, (count - 1) as nat, server_time_ms).or_next(
            mexc_row_problem(data, count - 1, server_time_ms),
        )
    }
}

/// A complaint about the first candles is the complaint about all.
proof fn lemma_mexc_rows(data: JsonView, count: nat, total: nat, server_time_ms: u64)
    requires
        count <= total,
        mexc_rows_problem(data, count, server_time_ms) is Some,
    ensures
        mexc_rows_problem(data, total, server_time_ms) == mexc_rows_problem(
            data,
            count,
            server_time_ms,
        ),
    decreases total,
{
    if count < total {
        lemma_mexc_rows(data, count, (total - 1) as nat, server_time_ms);
    }
}

/// How a MEXC answer with candles is laid out.
pub open spec fn mexc_layout() -> LayoutView {
    json::with_field(
        json::flat("success,code,data"@, 3),
        "data"@,
        json::columns("time,open,close,high,low,vol,amount"@, 7),
    )
}

fn mexc_record() -> (layout: Layout)
    ensures
        layout@ == mexc_layout(),
{
    json::nest(
        json::flat_record("success,code,data", 3),
        "data",
        json::columns_record("time,open,close,high,low,vol,amount", 7),
    )
}

/// What a MEXC answer means.
pub open spec fn mexc_candles(root: JsonView, server_time_ms: u64) -> Result<
    Seq<CandleView>,
    HistoryErrorView,
> {
    let data = json::value_at(root, "data"@);
    let count = json::list_at(data, "time"@).len();
    if let Some(message) = mexc_shape(root) {
        Err(not_json(Provider::Mexc, message))
    } else if let Some(error) = mexc_refusal(root) {
        Err(error)
    } else if let Some(message) = columns_problem(data) {
        Err(history::bad_payload(Provider::Mexc, message))
    } else if let Some(message) = mexc_rows_problem(data, count, server_time_ms) {
        Err(history::bad_payload(Provider::Mexc, message))
    } else {
        Ok(Seq::new(count, |i: int| candle_of(mexc_fields(data, i, server_time_ms))))
    }
}

/// What a text means as a MEXC answer.
pub open spec fn mexc_candles_in(body: Seq<char>, server_time_ms: u64) -> Result<
    Seq<CandleView>,
    HistoryErrorView,
> {
    match reading::laid_out(body, mexc_layout()) {
        Ok(root) => mexc_candles(root, server_time_ms),
        Err(message) => Err(not_json(Provider::Mexc, message)),
    }
}

/// The columns of a MEXC answer.
struct MexcColumns<'a> {
    time: &'a Vec<Json>,
    open: &'a Vec<Json>,
    close: &'a Vec<Json>,
    high: &'a Vec<Json>,
    low: &'a Vec<Json>,
    vol: &'a Vec<Json>,
    amount: &'a Vec<Json>,
}

impl<'a> MexcColumns<'a> {
    /// Whether the columns are those of a document.
    closed spec fn of(&self, data: JsonView) -> bool {
        &&& json::views(self.time@) == json::list_at(data, "time"@)
        &&& json::views(self.open@) == json::list_at(data, "open"@)
        &&& json::views(self.close@) == json::list_at(data, "close"@)
        &&& json::views(self.high@) == json::list_at(data, "high"@)
        &&& json::views(self.low@) == json::list_at(data, "low"@)
        &&& json::views(self.vol@) == json::list_at(data, "vol"@)
        &&& json::views(self.amount@) == json::list_at(data, "amount"@)
    }
}

/// The success flag and code of a MEXC answer.
fn read_mexc_status(root: &Json) -> (r: Result<(bool, i64), String>)
    ensures
        match r {
            Ok((success, code)) => {
                &&& mexc_status_shape(root@) is None
                &&& success == json::flag_at(root@, "success"@)
                &&& code == json::signed_at(root@, "code"@)
            },
            Err(message) => mexc_status_shape(root@) == Some(message@),
        },
{
    let success = json::need_flag(root, "success")?;
    let code = json::need_signed(root, "code")?;
    Ok((success, code))
}

/// Read the columns of a MEXC answer.
fn read_mexc_columns<'a>(root: &'a Json) -> (r: Result<MexcColumns<'a>, String>)
    ensures
        match r {
            Ok(columns) => {
                &&& mexc_shape(root@) is None
                &&& columns.of(json::value_at(root@, "data"@))
            },
            Err(message) => mexc_shape(root@) == Some(message@),
        },
{
    let _status = read_mexc_status(root)?;
    let data = need_value(root, "data")?;
    Ok(
        MexcColumns {
            time: json::need_list(data, "time")?,
            open: json::need_list(data, "open")?,
            close: json::need_list(data, "close")?,
            high: json::need_list(data, "high")?,
            low: json::need_list(data, "low")?,
            vol: json::need_list(data, "vol")?,
            amount: json::need_list(data, "amount")?,
        },
    )
}

/// Refuse an answer that is a refusal.
fn check_mexc_status(root: &Json) -> (r: Result<(), HistoryError>)
    requires
        mexc_status_shape(root@) is None,
    ensures
        match r {
            Ok(_) => mexc_refusal(root@) is None,
            Err(error) => mexc_refusal(root@) == Some(error@),
        },
{
    match read_mexc_status(root) {
        Ok((success, code)) => {
            if !success || code != 0 {
                return history::provider_rejected(
                    Provider::Mexc,
                    text::signed_text(code),
                    if success {
                        "success=true".to_owned()
                    } else {
                        "success=false".to_owned()
                    },
                );
            }
            Ok(())
        },
        Err(_) => Ok(()),
    }
}

/// Check the length of a column.
fn check_column(name: &str, actual: usize, expected: usize, Ghost(data): Ghost<JsonView>) -> (r:
    Result<(), String>)
    requires
        actual == json::list_at(data, name@).len(),
        expected == json::list_at(data, "time"@).len(),
    ensures
        match r {
            Ok(_) => column_problem(data, name@) is None,
            Err(message) => column_problem(data, name@) == Some(message@),
        },
{
    if actual == expected {
        Ok(())
    } else {
        Err(
            text::cat6(
                "parallel ",
                name,
                " array has ",
                text::unsigned_text(actual as u64).as_str(),
                " rows; expected ",
                text::unsigned_text(expected as u64).as_str(),
            ),
        )
    }
}

/// Check that the columns of a MEXC answer fit together.
fn check_columns(columns: &MexcColumns, Ghost(data): Ghost<JsonView>) -> (r: Result<(), String>)
    requires
        columns.of(data),
    ensures
        match r {
            Ok(_) => columns_problem(data) is None,
            Err(message) => columns_problem(data) == Some(message@),
        },
{
    let expected = columns.time.len();
    check_column("open", columns.open.len(), expected, Ghost(data))?;
    check_column("close", columns.close.len(), expected, Ghost(data))?;
    check_column("high", columns.high.len(), expected, Ghost(data))?;
    check_column("low", columns.low.len(), expected, Ghost(data))?;
    check_column("vol", columns.vol.len(), expected, Ghost(data))?;
    check_column("amount", columns.amount.len(), expected, Ghost(data))?;
    Ok(())
}

/// The candle of a MEXC answer at a place.
fn parse_mexc_row(
    columns: &MexcColumns,
    i: usize,
    server_time_ms: u64,
    Ghost(data): Ghost<JsonView>,
) -> (r: Result<Candle, String>)
    requires
        columns.of(data),
        columns_problem(data) is None,
        i < json::list_at(data, "time"@).len(),
    ensures
        match r {
            Ok(candle) => {
                &&& mexc_row_problem(data, i as int, server_time_ms) is None
                &&& candle@ == candle_of(mexc_fields(data, i as int, server_time_ms))
            },
            Err(message) => mexc_row_problem(data, i as int, server_time_ms) == Some(message@),
        },
{
    proof {
        assert(json::views(columns.time@)[i as int] == columns.time@[i as int]@);
        assert(json::views(columns.open@)[i as int] == columns.open@[i as int]@);
        assert(json::views(columns.close@)[i as int] == columns.close@[i as int]@);
        assert(json::views(columns.high@)[i as int] == columns.high@[i as int]@);
        assert(json::views(columns.low@)[i as int] == columns.low@[i as int]@);
        assert(json::views(columns.vol@)[i as int] == columns.vol@[i as int]@);
        assert(json::views(columns.amount@)[i as int] == columns.amount@[i as int]@);
    }
    let seconds = read_number_cell(&columns.time[i], "time")?;
    let start_time_ms = match seconds.checked_mul(1_000) {
        Some(start) => start,
        None => {
            return Err("candle start timestamp overflow".to_owned());
        },
    };
    let end_time_ms = candle_end(start_time_ms)?;
    let open = read_cell(&columns.open[i], "open")?;
    let high = read_cell(&columns.high[i], "high")?;
    let low = read_cell(&columns.low[i], "low")?;
    let close = read_cell(&columns.close[i], "close")?;
    let quote_volume = read_cell(&columns.amount[i], "quote volume")?;
    let contract_volume = read_cell(&columns.vol[i], "contract volume")?;
    let fields = CandleFields {
        start_time_ms,
        open,
        high,
        low,
        close,
        base_volume: None,
        quote_volume: Some(quote_volume),
        contract_volume: Some(contract_volume),
        finality: elapsed_finality(end_time_ms, server_time_ms),
        data_quality: Vec::new(),
    };
    proof {
        assert(fields.data_quality@ =~= Seq::empty());
        assert(fields@ == mexc_fields(data, i as int, server_time_ms));
    }
    build_candle(fields)
}

/// What a MEXC document means.
///
/// # Errors
///
/// Returns why the venue refused the request, or why its answer is invalid.
pub fn read_mexc(root: &Json, server_time_ms: u64) -> (r: Result<Vec<Candle>, HistoryError>)
    ensures
        reads(r, mexc_candles(root@, server_time_ms)),
{
    let provider = Provider::Mexc;
    let ghost data = json::value_at(root@, "data"@);
    let columns = match read_mexc_columns(root) {
        Ok(columns) => columns,
        Err(message) => {
            return invalid_json(provider, message);
        },
    };
    check_mexc_status(root)?;
    if let Err(message) = check_columns(&columns, Ghost(data)) {
        return history::invalid_payload(provider, message.as_str());
    }
    let count = columns.time.len();
    let mut list: Vec<Candle> = Vec::new();
    let mut i: usize = 0;
    while i < count
        invariant
            i <= count,
            provider == Provider::Mexc,
            data == json::value_at(root@, "data"@),
            count == json::list_at(data, "time"@).len(),
            columns.of(data),
            columns_problem(data) is None,
            mexc_shape(root@) is None,
            mexc_refusal(root@) is None,
            mexc_rows_problem(data, i as nat, server_time_ms) is None,
            list@.len() == i,
            forall|k: int|
                0 <= k < i ==> (#[trigger] list@[k])@ == candle_of(
                    mexc_fields(data, k, server_time_ms),
                ),
        decreases count - i,
    {
        match parse_mexc_row(&columns, i, server_time_ms, Ghost(data)) {
            Ok(candle) => {
                list.push(candle);
            },
            Err(message) => {
                proof {
                    assert(mexc_rows_problem(data, (i + 1) as nat, server_time_ms) == Some(
                        message@,
                    ));
                    lemma_mexc_rows(data, (i + 1) as nat, count as nat, server_time_ms);
                }
                return history::invalid_payload(provider, message.as_str());
            },
        }
        proof {
            assert(mexc_rows_problem(data, (i + 1) as nat, server_time_ms) is None);
        }
        i += 1;
    }
    proof {
        assert(history::candle_views(list@) =~= Seq::new(
            count as nat,
            |i: int| candle_of(mexc_fields(data, i, server_time_ms)),
        ));
    }
    Ok(list)
}

/// What a MEXC answer means.
///
/// # Errors
///
/// Returns why the venue refused the request, or why its answer is invalid.
pub fn parse_mexc(body: &str, server_time_ms: u64) -> (r: Result<Vec<Candle>, HistoryError>)
    ensures
        reads(r, mexc_candles_in(body@, server_time_ms)),
{
    match reading::read(body, &mexc_record()) {
        Ok(root) => read_mexc(&root, server_time_ms),
        Err(message) => invalid_json(Provider::Mexc, message),
    }
}

// ---------------------------------------------------------------------------------------------
// BingX
// ---------------------------------------------------------------------------------------------

/// Why a document has no status of BingX.
pub open spec fn bingx_status_shape(root: JsonView) -> Option<Seq<char>> {
    json::signed_problem(root, "code"@).or_next(defaulted_text_problem(root, "msg"@))
}

/// The error for a BingX answer that is a refusal.
pub open spec fn bingx_refusal(root: JsonView) -> HistoryErrorView {
    history::refusal(
        Provider::Bingx,
        text::integer_text(json::signed_at(root, "code"@) as int),
        json::text_at(root, "msg"@),
    )
}

/// How a BingX answer with candles is laid out.
pub open spec fn bingx_layout() -> LayoutView {
    json::with_field(json::flat("code,msg,data"@, 3), "data"@, json::raw_list())
}

fn bingx_record() -> (layout: Layout)
    ensures
        layout@ == bingx_layout(),
{
    json::nest(json::flat_record("code,msg,data", 3), "data", json::raw_array())
}

/// What a text means as a BingX answer.
pub open spec fn bingx_candles_in(body: Seq<char>, server_time_ms: u64) -> Result<
    Seq<CandleView>,
    HistoryErrorView,
> {
    match reading::laid_out(body, bingx_layout()) {
        Ok(root) => bingx_candles(root, server_time_ms),
        Err(message) => Err(not_json(Provider::Bingx, message)),
    }
}

/// What a BingX answer means.
pub open spec fn bingx_candles(root: JsonView, server_time_ms: u64) -> Result<
    Seq<CandleView>,
    HistoryErrorView,
> {
    if let Some(message) = bingx_status_shape(root).or_next(json::list_problem(root, "data"@)) {
        Err(not_json(Provider::Bingx, message))
    } else if json::signed_at(root, "code"@) != 0 {
        Err(bingx_refusal(root))
    } else {
        rows_read(RowForm::Bingx, json::list_at(root, "data"@), server_time_ms)
    }
}

/// The code and words of a BingX answer.
fn read_bingx_status<'a>(root: &'a Json) -> (r: Result<(i64, &'a str), String>)
    ensures
        match r {
            Ok((code, message)) => {
                &&& bingx_status_shape(root@) is None
                &&& code == json::signed_at(root@, "code"@)
                &&& message@ == json::text_at(root@, "msg"@)
            },
            Err(message) => bingx_status_shape(root@) == Some(message@),
        },
{
    let code = json::need_signed(root, "code")?;
    let message = defaulted_text(root, "msg")?;
    Ok((code, message))
}

/// What a BingX document means.
///
/// # Errors
///
/// Returns why the venue refused the request, or why its answer is invalid.
pub fn read_bingx(root: &Json, server_time_ms: u64) -> (r: Result<Vec<Candle>, HistoryError>)
    ensures
        reads(r, bingx_candles(root@, server_time_ms)),
{
    let provider = Provider::Bingx;
    let (code, message) = match read_bingx_status(root) {
        Ok(status) => status,
        Err(message) => {
            return invalid_json(provider, message);
        },
    };
    let rows = match json::need_list(root, "data") {
        Ok(rows) => rows,
        Err(message) => {
            return invalid_json(provider, message);
        },
    };
    if code != 0 {
        return history::provider_rejected(provider, text::signed_text(code), message.to_owned());
    }
    parse_rows(RowForm::Bingx, rows, server_time_ms)
}

/// What a BingX answer means.
///
/// # Errors
///
/// Returns why the venue refused the request, or why its answer is invalid.
pub fn parse_bingx(body: &str, server_time_ms: u64) -> (r: Result<Vec<Candle>, HistoryError>)
    ensures
        reads(r, bingx_candles_in(body@, server_time_ms)),
{
    match reading::read(body, &bingx_record()) {
        Ok(root) => read_bingx(&root, server_time_ms),
        Err(message) => invalid_json(Provider::Bingx, message),
    }
}

// ---------------------------------------------------------------------------------------------
// The venues' clocks
// ---------------------------------------------------------------------------------------------

/// Whether a result is what is read of a clock.
pub open spec fn tells(r: Result<u64, HistoryError>, value: Result<u64, HistoryErrorView>) -> bool {
    match r {
        Ok(time) => value == Ok::<u64, HistoryErrorView>(time),
        Err(error) => value == Err::<u64, HistoryErrorView>(error@),
    }
}

/// What the answer of Binance's clock means.
pub open spec fn binance_time(root: JsonView) -> Result<u64, HistoryErrorView> {
    let time = json::unsigned_at(root, "serverTime"@);
    if let Some(message) = json::unsigned_problem(root, "serverTime"@) {
        Err(not_json(Provider::Binance, message))
    } else if time == 0 {
        Err(history::bad_payload(Provider::Binance, "serverTime must be positive"@))
    } else {
        Ok(time)
    }
}

/// What the answer of MEXC's clock means.
pub open spec fn mexc_time(root: JsonView) -> Result<u64, HistoryErrorView> {
    let time = json::unsigned_at(root, "data"@);
    if let Some(message) = mexc_status_shape(root).or_next(json::unsigned_problem(root, "data"@)) {
        Err(not_json(Provider::Mexc, message))
    } else if let Some(error) = mexc_refusal(root) {
        Err(error)
    } else if time == 0 {
        Err(history::bad_payload(Provider::Mexc, "server time must be positive"@))
    } else {
        Ok(time)
    }
}

/// How the answer of BingX's clock is laid out.
pub open spec fn bingx_time_layout() -> LayoutView {
    json::with_field(
        json::flat("code,msg,data"@, 3),
        "data"@,
        json::flat("serverTime"@, 1),
    )
}

fn bingx_time_record() -> (layout: Layout)
    ensures
        layout@ == bingx_time_layout(),
{
    json::nest(
        json::flat_record("code,msg,data", 3),
        "data",
        json::flat_record("serverTime", 1),
    )
}

/// What the answer of BingX's clock means.
pub open spec fn bingx_time(root: JsonView) -> Result<u64, HistoryErrorView> {
    let data = json::value_at(root, "data"@);
    let time = json::unsigned_at(data, "serverTime"@);
    if let Some(message) = bingx_status_shape(root).or_next(absence(root, "data"@)).or_next(
        json::unsigned_problem(data, "serverTime"@),
    ) {
        Err(not_json(Provider::Bingx, message))
    } else if json::signed_at(root, "code"@) != 0 {
        Err(bingx_refusal(root))
    } else if time == 0 {
        Err(history::bad_payload(Provider::Bingx, "serverTime must be positive"@))
    } else {
        Ok(time)
    }
}

/// What a text means as the answer of Binance's clock.
pub open spec fn binance_time_in(body: Seq<char>) -> Result<u64, HistoryErrorView> {
    match reading::laid_out(body, json::flat("serverTime"@, 1)) {
        Ok(root) => binance_time(root),
        Err(message) => Err(not_json(Provider::Binance, message)),
    }
}

/// What the document of Binance's clock means.
///
/// # Errors
///
/// Returns why the answer is invalid.
pub fn read_binance_time(root: &Json) -> (r: Result<u64, HistoryError>)
    ensures
        tells(r, binance_time(root@)),
{
    match json::need_unsigned(root, "serverTime") {
        Ok(time) => {
            if time == 0 {
                return history::invalid_payload(Provider::Binance, "serverTime must be positive");
            }
            Ok(time)
        },
        Err(message) => invalid_json(Provider::Binance, message),
    }
}

/// What the answer of Binance's clock means.
///
/// # Errors
///
/// Returns why the answer is invalid.
pub fn parse_binance_server_time(body: &str) -> (r: Result<u64, HistoryError>)
    ensures
        tells(r, binance_time_in(body@)),
{
    match reading::read(body, &json::flat_record("serverTime", 1)) {
        Ok(root) => read_binance_time(&root),
        Err(message) => invalid_json(Provider::Binance, message),
    }
}

/// What a text means as the answer of MEXC's clock.
pub open spec fn mexc_time_in(body: Seq<char>) -> Result<u64, HistoryErrorView> {
    match reading::laid_out(body, json::flat("success,code,data"@, 3)) {
        Ok(root) => mexc_time(root),
        Err(message) => Err(not_json(Provider::Mexc, message)),
    }
}

/// What the document of MEXC's clock means.
///
/// # Errors
///
/// Returns why the venue refused the request, or why its answer is invalid.
pub fn read_mexc_time(root: &Json) -> (r: Result<u64, HistoryError>)
    ensures
        tells(r, mexc_time(root@)),
{
    if let Err(message) = read_mexc_status(root) {
        return invalid_json(Provider::Mexc, message);
    }
    let time = match json::need_unsigned(root, "data") {
        Ok(time) => time,
        Err(message) => {
            return invalid_json(Provider::Mexc, message);
        },
    };
    check_mexc_status(root)?;
    if time == 0 {
        return history::invalid_payload(Provider::Mexc, "server time must be positive");
    }
    Ok(time)
}

/// What the answer of MEXC's clock means.
///
/// # Errors
///
/// Returns why the venue refused the request, or why its answer is invalid.
pub fn parse_mexc_server_time(body: &str) -> (r: Result<u64, HistoryError>)
    ensures
        tells(r, mexc_time_in(body@)),
{
    match reading::read(body, &json::flat_record("success,code,data", 3)) {
        Ok(root) => read_mexc_time(&root),
        Err(message) => invalid_json(Provider::Mexc, message),
    }
}

/// What a text means as the answer of BingX's clock.
pub open spec fn bingx_time_in(body: Seq<char>) -> Result<u64, HistoryErrorView> {
    match reading::laid_out(body, bingx_time_layout()) {
        Ok(root) => bingx_time(root),
        Err(message) => Err(not_json(Provider::Bingx, message)),
    }
}

/// What the document of BingX's clock means.
///
/// # Errors
///
/// Returns why the venue refused the request, or why its answer is invalid.
pub fn read_bingx_time(root: &Json) -> (r: Result<u64, HistoryError>)
    ensures
        tells(r, bingx_time(root@)),
{
    let (code, message) = match read_bingx_status(root) {
        Ok(status) => status,
        Err(message) => {
            return invalid_json(Provider::Bingx, message);
        },
    };
    let data = match need_value(root, "data") {
        Ok(data) => data,
        Err(message) => {
            return invalid_json(Provider::Bingx, message);
        },
    };
    let time = match json::need_unsigned(data, "serverTime") {
        Ok(time) => time,
        Err(message) => {
            return invalid_json(Provider::Bingx, message);
        },
    };
    if code != 0 {
        return history::provider_rejected(
            Provider::Bingx,
            text::signed_text(code),
            message.to_owned(),
        );
    }
    if time == 0 {
        return history::invalid_payload(Provider::Bingx, "serverTime must be positive");
    }
    Ok(time)
}

/// What the answer of BingX's clock means.
///
/// # Errors
///
/// Returns why the venue refused the request, or why its answer is invalid.
pub fn parse_bingx_server_time(body: &str) -> (r: Result<u64, HistoryError>)
    ensures
        tells(r, bingx_time_in(body@)),
{
    match reading::read(body, &bingx_time_record()) {
        Ok(root) => read_bingx_time(&root),
        Err(message) => invalid_json(Provider::Bingx, message),
    }
}

// ---------------------------------------------------------------------------------------------
// Answers as they come
// ---------------------------------------------------------------------------------------------

/// The first characters of a failed answer.
pub open spec fn summary(body: Seq<char>) -> Seq<char> {
    if body.len() == 0 {
        "empty response"@
    } else if body.len() <= MAX_SUMMARY_CHARACTERS {
        body
    } else {
        body.take(MAX_SUMMARY_CHARACTERS as int)
    }
}

/// The code and words of a venue's error document.
pub open spec fn error_details(provider: Provider, root: JsonView) -> Option<
    (Seq<char>, Seq<char>),
> {
    let code_name = if provider == Provider::Bybit {
        "retCode"@
    } else {
        "code"@
    };
    let message_name = if provider == Provider::Bybit {
        "retMsg"@
    } else {
        "msg"@
    };
    match json::member_of(root, code_name) {
        None => None,
        Some(code) => Some(
            (
                match code {
                    JsonView::Text(text) => text,
                    _ => json::text_of(code),
                },
                match json::member_text(root, message_name) {
                    Some(message) => message,
                    None => "provider rejected request"@,
                },
            ),
        ),
    }
}

/// The error of an answer with a status that is no success.
pub open spec fn status_error(provider: Provider, status: u16, body: Seq<char>) -> HistoryErrorView {
    let details = match json::document_of(body) {
        Ok(root) => error_details(provider, root),
        Err(_) => None,
    };
    match details {
        Some((code, message)) => history::refusal(provider, code, message),
        None => HistoryErrorView::HttpStatus { provider, status, message: summary(body) },
    }
}

/// Whether a status is a success.
pub open spec fn is_success(status: u16) -> bool {
    200 <= status < 300
}

/// The text of an answer, or the error that it stands for.
pub open spec fn answer_text(provider: Provider, status: u16, bytes: Seq<u8>) -> Result<
    Seq<char>,
    HistoryErrorView,
> {
    if bytes.len() > MAX_RESPONSE_BYTES {
        Err(history::bad_payload(provider, "response exceeds 4194304 bytes"@))
    } else if !vstd::utf8::valid_utf8(bytes) {
        Err(history::bad_payload(provider, "response is not UTF-8"@))
    } else if !is_success(status) {
        Err(status_error(provider, status, vstd::utf8::decode_utf8(bytes)))
    } else {
        Ok(vstd::utf8::decode_utf8(bytes))
    }
}

/// The first characters of a failed answer.
pub fn summarize(body: &str) -> (words: String)
    ensures
        words@ == summary(body@),
{
    let list = text::characters(body);
    if list.len() == 0 {
        return "empty response".to_owned();
    }
    if list.len() <= MAX_SUMMARY_CHARACTERS {
        return body.to_owned();
    }
    let mut first: Vec<char> = Vec::new();
    let mut i: usize = 0;
    while i < MAX_SUMMARY_CHARACTERS
        invariant
            i <= MAX_SUMMARY_CHARACTERS < list@.len(),
            list@ == body@,
            first@ == body@.take(i as int),
        decreases MAX_SUMMARY_CHARACTERS - i,
    {
        first.push(list[i]);
        proof {
            assert(first@ =~= body@.take(i + 1));
        }
        i += 1;
    }
    text::assembled(&first)
}

/// The code and words of a venue's error document.
pub fn provider_error_details(provider: Provider, root: &Json) -> (details: Option<
    (String, String),
>)
    ensures
        match details {
            Some((code, message)) => error_details(provider, root@) == Some((code@, message@)),
            None => error_details(provider, root@) is None,
        },
{
    let (code_name, message_name) = match provider {
        Provider::Bybit => ("retCode", "retMsg"),
        _ => ("code", "msg"),
    };
    let code = match root.member(code_name) {
        Some(code) => code,
        None => {
            return None;
        },
    };
    let code = match code.as_text() {
        Some(text) => text.to_owned(),
        None => json::write(code),
    };
    let message = match json::find_text(root, message_name) {
        Some(message) => message,
        None => "provider rejected request",
    };
    Some((code, message.to_owned()))
}

/// The error of an answer with a status that is no success.
pub fn http_error(provider: Provider, status: u16, body: &str) -> (error: HistoryError)
    ensures
        error@ == status_error(provider, status, body@),
{
    if let Ok(root) = json::read(body) {
        if let Some((code, message)) = provider_error_details(provider, &root) {
            return HistoryError::ProviderRejected { provider, code, message };
        }
    }
    HistoryError::HttpStatus { provider, status, message: summarize(body) }
}

/// The text of an answer.
///
/// # Errors
///
/// An answer that is too long, is no text or reports a failure is refused.
pub fn check_answer(provider: Provider, status: u16, bytes: &[u8]) -> (r: Result<
    String,
    HistoryError,
>)
    ensures
        match r {
            Ok(body) => answer_text(provider, status, bytes@) == Ok::<Seq<char>, HistoryErrorView>(
                body@,
            ),
            Err(error) => answer_text(provider, status, bytes@) == Err::<
                Seq<char>,
                HistoryErrorView,
            >(error@),
        },
{
    if bytes.len() > MAX_RESPONSE_BYTES {
        return history::invalid_payload(provider, "response exceeds 4194304 bytes");
    }
    let body = match text::decode(bytes) {
        Some(body) => body,
        None => {
            return history::invalid_payload(provider, "response is not UTF-8");
        },
    };
    if status < 200 || status >= 300 {
        return Err(http_error(provider, status, body.as_str()));
    }
    Ok(body)
}

} // verus!
