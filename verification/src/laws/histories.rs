//! What the candle histories of the venues mean.
use vstd::prelude::*;

use super::{counts, holds, says, tallies};
use crate::decimal;
use crate::domain::{CandleFinality, CandleView, DataQuality};
use crate::history::payload;
use crate::history::payload::RowForm;
use crate::history::HistoryErrorView;
use crate::json;
use crate::json::reading;
use crate::json::{JsonView, LayoutView};
use crate::laws;
use crate::text;

verus! {

// ---------------------------------------------------------------------------------------------
// Cells
// ---------------------------------------------------------------------------------------------

/// Whether a cell, as it stands in an answer, is written as a text: between quotation marks, or
/// without them as a number is.
pub open spec fn is_written(cell: JsonView, text: Seq<char>) -> bool {
    match cell {
        JsonView::Text(raw) => if raw.len() > 0 && raw[0] == '"' {
            json::document_of(raw) == Ok::<JsonView, Seq<char>>(JsonView::Text(text))
        } else {
            raw == text
        },
        _ => false,
    }
}

/// A text without an exponent: one with an exponent is the number that it denotes, written out.
pub open spec fn written_out(text: Seq<char>) -> Seq<char> {
    if text.contains('e') || text.contains('E') {
        decimal::scientific_of(text)->0.text
    } else {
        text
    }
}

/// Whether a text is a decimal, with or without an exponent.
pub open spec fn is_price(text: Seq<char>) -> bool {
    &&& text.contains('e') || text.contains('E') ==> decimal::scientific_of(text) is Some
    &&& decimal::decimal_of(written_out(text)) is Some
}

/// Whether a text is a number that fits.
pub open spec fn is_number(text: Seq<char>, n: u64) -> bool {
    text.len() > 0 && text::all_digits(text) && text::digits_value(text) == n
}

proof fn lemma_price(text: Seq<char>, field: Seq<char>)
    requires
        is_price(text),
    ensures
        payload::decimal_problem(text, field) is None,
        payload::in_plain_notation(text) == written_out(text),
{
    assert(text::holds(text, 'e') == text.contains('e'));
    assert(text::holds(text, 'E') == text.contains('E'));
}

proof fn lemma_written(cell: JsonView, text: Seq<char>, field: Seq<char>)
    requires
        is_written(cell, text),
    ensures
        payload::cell_problem(cell, field) is None,
        payload::cell_text(cell) == text,
{
}

// ---------------------------------------------------------------------------------------------
// Rows
// ---------------------------------------------------------------------------------------------

/// What a candle of a history is written as.
pub struct Row {
    pub start: u64,
    pub open: Seq<char>,
    pub high: Seq<char>,
    pub low: Seq<char>,
    pub close: Seq<char>,
    pub base: Seq<char>,
    pub quote: Seq<char>,
    pub contracts: Seq<char>,
}

/// Whether the start of a row is a full minute with room for another one after it, and its prices
/// are decimals.
pub open spec fn is_sound(row: Row) -> bool {
    &&& row.start % 60_000 == 0
    &&& row.start + 60_000 <= u64::MAX
    &&& is_price(row.open)
    &&& is_price(row.high)
    &&& is_price(row.low)
    &&& is_price(row.close)
}

/// The candle of a row, with the volumes that the venue tells: each price in its own place.
pub open spec fn candle(
    row: Row,
    base: bool,
    quote: bool,
    contracts: bool,
    finality: CandleFinality,
    data_quality: Seq<DataQuality>,
) -> CandleView {
    CandleView {
        interval: "1m"@,
        start_time_ms: row.start,
        end_time_ms: (row.start + 60_000) as u64,
        open: written_out(row.open),
        high: written_out(row.high),
        low: written_out(row.low),
        close: written_out(row.close),
        base_volume: if base {
            Some(written_out(row.base))
        } else {
            None
        },
        quote_volume: if quote {
            Some(written_out(row.quote))
        } else {
            None
        },
        contract_volume: if contracts {
            Some(written_out(row.contracts))
        } else {
            None
        },
        finality,
        data_quality,
    }
}

/// Closed exactly if the clock has reached the end of the minute.
pub open spec fn by_clock(row: Row, server_time_ms: u64) -> CandleFinality {
    if row.start + 60_000 <= server_time_ms {
        CandleFinality::Closed
    } else {
        CandleFinality::Open
    }
}

proof fn lemma_prices(row: Row)
    requires
        is_sound(row),
    ensures
        payload::decimal_problem(row.open, "open"@) is None,
        payload::decimal_problem(row.high, "high"@) is None,
        payload::decimal_problem(row.low, "low"@) is None,
        payload::decimal_problem(row.close, "close"@) is None,
        payload::in_plain_notation(row.open) == written_out(row.open),
        payload::in_plain_notation(row.high) == written_out(row.high),
        payload::in_plain_notation(row.low) == written_out(row.low),
        payload::in_plain_notation(row.close) == written_out(row.close),
{
    lemma_price(row.open, "open"@);
    lemma_price(row.high, "high"@);
    lemma_price(row.low, "low"@);
    lemma_price(row.close, "close"@);
}

/// What rows come to where every one of them is read as a candle.
proof fn lemma_rows(
    form: RowForm,
    rows: Seq<JsonView>,
    server_time_ms: u64,
    candles: Seq<CandleView>,
)
    requires
        rows.len() == candles.len(),
        forall|i: int|
            0 <= i < rows.len() ==> payload::row_problem(form, #[trigger] rows[i], server_time_ms)
                is None && payload::row_candle(form, rows[i], server_time_ms) == candles[i],
    ensures
        payload::rows_read(form, rows, server_time_ms) == Ok::<Seq<CandleView>, HistoryErrorView>(
            candles,
        ),
{
    laws::lemma_no_complaint(rows, |row: JsonView| payload::row_problem(form, row, server_time_ms));
    assert(Seq::new(rows.len(), |i: int| payload::row_candle(form, rows[i], server_time_ms))
        =~= candles);
}

proof fn lemma_shapes(rows: Seq<JsonView>, texts: bool)
    requires
        forall|i: int|
            0 <= i < rows.len() ==> payload::row_shape(#[trigger] rows[i]) is None && (texts
                ==> payload::text_row_shape(rows[i]) is None),
    ensures
        payload::rows_shape(rows, texts) is None,
{
    laws::lemma_no_complaint(
        rows,
        |row: JsonView|
            if texts {
                payload::text_row_shape(row)
            } else {
                payload::row_shape(row)
            },
    );
}

// ---------------------------------------------------------------------------------------------
// Bybit
// ---------------------------------------------------------------------------------------------

/// Whether a document is a row of Bybit: start, open, high, low, close, base and quote volume.
pub open spec fn is_bybit_row(item: JsonView, start: Seq<char>, row: Row) -> bool {
    &&& item == JsonView::List(
        seq![
            JsonView::Text(start),
            JsonView::Text(row.open),
            JsonView::Text(row.high),
            JsonView::Text(row.low),
            JsonView::Text(row.close),
            JsonView::Text(row.base),
            JsonView::Text(row.quote),
        ],
    )
    &&& is_number(start, row.start)
    &&& is_sound(row)
    &&& is_price(row.base)
    &&& is_price(row.quote)
}

proof fn lemma_texts(item: JsonView)
    requires
        item is List,
        forall|k: int| 0 <= k < item->List_0.len() ==> #[trigger] item->List_0[k] is Text,
    ensures
        payload::text_row_shape(item) is None,
{
    laws::lemma_no_complaint(item->List_0, |cell: JsonView| payload::text_cell_shape(cell));
}

proof fn lemma_bybit_row(item: JsonView, start: Seq<char>, row: Row, server_time_ms: u64)
    requires
        is_bybit_row(item, start, row),
    ensures
        payload::text_row_shape(item) is None,
        payload::row_problem(RowForm::Bybit, item, server_time_ms) is None,
        payload::row_candle(RowForm::Bybit, item, server_time_ms) == candle(
            row,
            true,
            true,
            false,
            by_clock(row, server_time_ms),
            Seq::empty(),
        ),
{
    lemma_prices(row);
    lemma_price(row.base, "base volume"@);
    lemma_price(row.quote, "quote volume"@);
    lemma_texts(item);
    let texts = payload::texts_of(item->List_0);
    assert(texts.len() == 7);
    assert(texts[0] == start && texts[1] == row.open && texts[2] == row.high);
    assert(texts[3] == row.low && texts[4] == row.close);
    assert(texts[5] == row.base && texts[6] == row.quote);
}

/// The candles of a Bybit answer are its rows, in their order: open, high, low and close stand at
/// the second to fifth place of a row, then the volume in the base and in the quote asset. The time
/// of the answer tells which are closed.
pub proof fn law_bybit_rows_are_candles(
    body: Seq<char>,
    symbol: Seq<char>,
    header: JsonView,
    message: Seq<char>,
    root: JsonView,
    result: JsonView,
    time: u64,
    items: Seq<JsonView>,
    starts: Seq<Seq<char>>,
    rows: Seq<Row>,
)
    requires
        reading::laid_out(body, json::flat("retCode,retMsg"@, 2)) == Ok::<JsonView, Seq<char>>(
            header,
        ),
        tallies(header, "retCode"@, 0),
        says(header, "retMsg"@, message),
        reading::laid_out(
            body,
            json::with_field(
                json::flat("retCode,result,time"@, 3),
                "result"@,
                json::flat("category,symbol,list"@, 3),
            ),
        ) == Ok::<JsonView, Seq<char>>(root),
        tallies(root, "retCode"@, 0),
        json::member_of(root, "result"@) == Some(result),
        says(result, "category"@, "linear"@),
        says(result, "symbol"@, symbol),
        counts(root, "time"@, time),
        json::member_of(result, "list"@) == Some(JsonView::List(items)),
        items.len() == rows.len(),
        items.len() == starts.len(),
        forall|i: int|
            0 <= i < items.len() ==> is_bybit_row(#[trigger] items[i], starts[i], rows[i]),
    ensures
        payload::bybit_candles_in(body, symbol) == Ok::<Seq<CandleView>, HistoryErrorView>(
            Seq::new(
                rows.len(),
                |i: int|
                    candle(rows[i], true, true, false, by_clock(rows[i], time), Seq::empty()),
            ),
        ),
{
    let candles = Seq::new(
        rows.len(),
        |i: int| candle(rows[i], true, true, false, by_clock(rows[i], time), Seq::empty()),
    );
    assert forall|i: int| 0 <= i < items.len() implies payload::row_problem(
        RowForm::Bybit,
        #[trigger] items[i],
        time,
    ) is None && payload::row_candle(RowForm::Bybit, items[i], time) == candles[i]
        && payload::text_row_shape(items[i]) is None by {
        lemma_bybit_row(items[i], starts[i], rows[i], time);
    }
    lemma_shapes(items, true);
    lemma_rows(RowForm::Bybit, items, time, candles);
}

// ---------------------------------------------------------------------------------------------
// Binance
// ---------------------------------------------------------------------------------------------

/// Whether a document is a row of Binance: open time, open, high, low, close, base volume, close
/// time, quote volume, and four cells that no candle needs.
pub open spec fn is_binance_row(
    item: JsonView,
    start: Seq<char>,
    close_time: Seq<char>,
    row: Row,
) -> bool {
    &&& item is List
    &&& item->List_0.len() == 12
    &&& is_written(item->List_0[0], start)
    &&& is_written(item->List_0[1], row.open)
    &&& is_written(item->List_0[2], row.high)
    &&& is_written(item->List_0[3], row.low)
    &&& is_written(item->List_0[4], row.close)
    &&& is_written(item->List_0[5], row.base)
    &&& is_written(item->List_0[6], close_time)
    &&& is_written(item->List_0[7], row.quote)
    &&& is_number(start, row.start)
    &&& is_number(close_time, (row.start + 59_999) as u64)
    &&& is_sound(row)
    &&& is_price(row.base)
    &&& is_price(row.quote)
}

proof fn lemma_binance_row(
    item: JsonView,
    start: Seq<char>,
    close_time: Seq<char>,
    row: Row,
    server_time_ms: u64,
)
    requires
        is_binance_row(item, start, close_time, row),
    ensures
        payload::row_problem(RowForm::Binance, item, server_time_ms) is None,
        payload::row_candle(RowForm::Binance, item, server_time_ms) == candle(
            row,
            true,
            true,
            false,
            by_clock(row, server_time_ms),
            Seq::empty(),
        ),
{
    lemma_prices(row);
    lemma_price(row.base, "base volume"@);
    lemma_price(row.quote, "quote volume"@);
    let list = item->List_0;
    lemma_written(list[0], start, "open time"@);
    lemma_written(list[1], row.open, "open"@);
    lemma_written(list[2], row.high, "high"@);
    lemma_written(list[3], row.low, "low"@);
    lemma_written(list[4], row.close, "close"@);
    lemma_written(list[5], row.base, "base volume"@);
    lemma_written(list[6], close_time, "close time"@);
    lemma_written(list[7], row.quote, "quote volume"@);
    let cells = payload::cells_of(list);
    assert(cells[0] == start && cells[1] == row.open && cells[2] == row.high);
    assert(cells[3] == row.low && cells[4] == row.close && cells[5] == row.base);
    assert(cells[6] == close_time && cells[7] == row.quote);
}

/// The candles of a Binance answer are its rows, in their order: open, high, low and close stand at
/// the second to fifth place of a row, then the volume in the base asset, and behind the close time
/// the one in the quote asset. The clock of the venue tells which are closed.
pub proof fn law_binance_rows_are_candles(
    body: Seq<char>,
    server_time_ms: u64,
    items: Seq<JsonView>,
    starts: Seq<Seq<char>>,
    close_times: Seq<Seq<char>>,
    rows: Seq<Row>,
)
    requires
        reading::laid_out(
            body,
            LayoutView::Each(Box::new(LayoutView::Each(Box::new(LayoutView::Raw)))),
        ) == Ok::<JsonView, Seq<char>>(JsonView::List(items)),
        items.len() == rows.len(),
        items.len() == starts.len(),
        items.len() == close_times.len(),
        forall|i: int|
            0 <= i < items.len() ==> is_binance_row(
                #[trigger] items[i],
                starts[i],
                close_times[i],
                rows[i],
            ),
    ensures
        payload::binance_candles_in(body, server_time_ms) == Ok::<
            Seq<CandleView>,
            HistoryErrorView,
        >(
            Seq::new(
                rows.len(),
                |i: int|
                    candle(
                        rows[i],
                        true,
                        true,
                        false,
                        by_clock(rows[i], server_time_ms),
                        Seq::empty(),
                    ),
            ),
        ),
{
    let candles = Seq::new(
        rows.len(),
        |i: int|
            candle(rows[i], true, true, false, by_clock(rows[i], server_time_ms), Seq::empty()),
    );
    assert forall|i: int| 0 <= i < items.len() implies payload::row_problem(
        RowForm::Binance,
        #[trigger] items[i],
        server_time_ms,
    ) is None && payload::row_candle(RowForm::Binance, items[i], server_time_ms) == candles[i]
        && payload::row_shape(items[i]) is None by {
        lemma_binance_row(items[i], starts[i], close_times[i], rows[i], server_time_ms);
    }
    lemma_shapes(items, false);
    lemma_rows(RowForm::Binance, items, server_time_ms, candles);
}

// ---------------------------------------------------------------------------------------------
// OKX
// ---------------------------------------------------------------------------------------------

/// Whether a document is a row of OKX: start, open, high, low, close, the volume in contracts, in the
/// base and in the quote asset, and whether it is confirmed.
pub open spec fn is_okx_row(item: JsonView, start: Seq<char>, confirmed: bool, row: Row) -> bool {
    &&& item == JsonView::List(
        seq![
            JsonView::Text(start),
            JsonView::Text(row.open),
            JsonView::Text(row.high),
            JsonView::Text(row.low),
            JsonView::Text(row.close),
            JsonView::Text(row.contracts),
            JsonView::Text(row.base),
            JsonView::Text(row.quote),
            JsonView::Text(
                if confirmed {
                    "1"@
                } else {
                    "0"@
                },
            ),
        ],
    )
    &&& is_number(start, row.start)
    &&& is_sound(row)
    &&& is_price(row.base)
    &&& is_price(row.quote)
    &&& is_price(row.contracts)
}

/// Closed exactly if the venue says so.
pub open spec fn by_word(confirmed: bool) -> CandleFinality {
    if confirmed {
        CandleFinality::Closed
    } else {
        CandleFinality::Open
    }
}

proof fn lemma_okx_row(item: JsonView, start: Seq<char>, confirmed: bool, row: Row)
    requires
        is_okx_row(item, start, confirmed, row),
    ensures
        payload::text_row_shape(item) is None,
        payload::row_problem(RowForm::Okx, item, 0) is None,
        payload::row_candle(RowForm::Okx, item, 0) == candle(
            row,
            true,
            true,
            true,
            by_word(confirmed),
            Seq::empty(),
        ),
{
    reveal_strlit("0");
    reveal_strlit("1");
    assert("0"@[0] != "1"@[0]);
    lemma_prices(row);
    lemma_price(row.base, "base volume"@);
    lemma_price(row.quote, "quote volume"@);
    lemma_price(row.contracts, "contract volume"@);
    lemma_texts(item);
    let texts = payload::texts_of(item->List_0);
    assert(texts.len() == 9);
    assert(texts[0] == start && texts[1] == row.open && texts[2] == row.high);
    assert(texts[3] == row.low && texts[4] == row.close && texts[5] == row.contracts);
    assert(texts[6] == row.base && texts[7] == row.quote);
    assert(texts[8] == if confirmed {
        "1"@
    } else {
        "0"@
    });
}

/// The candles of an OKX answer are its rows, in their order: open, high, low and close stand at the
/// second to fifth place of a row, then the volume in contracts, in the base and in the quote asset,
/// and whether the candle is confirmed.
pub proof fn law_okx_rows_are_candles(
    body: Seq<char>,
    header: JsonView,
    message: Seq<char>,
    root: JsonView,
    items: Seq<JsonView>,
    starts: Seq<Seq<char>>,
    confirmed: Seq<bool>,
    rows: Seq<Row>,
)
    requires
        reading::laid_out(body, json::flat("code,msg"@, 2)) == Ok::<JsonView, Seq<char>>(header),
        says(header, "code"@, "0"@),
        says(header, "msg"@, message),
        reading::laid_out(body, json::flat("code,data"@, 2)) == Ok::<JsonView, Seq<char>>(root),
        says(root, "code"@, "0"@),
        json::member_of(root, "data"@) == Some(JsonView::List(items)),
        items.len() == rows.len(),
        items.len() == starts.len(),
        items.len() == confirmed.len(),
        forall|i: int|
            0 <= i < items.len() ==> is_okx_row(#[trigger] items[i], starts[i], confirmed[i], rows[i]),
    ensures
        payload::okx_candles_in(body) == Ok::<Seq<CandleView>, HistoryErrorView>(
            Seq::new(
                rows.len(),
                |i: int|
                    candle(rows[i], true, true, true, by_word(confirmed[i]), Seq::empty()),
            ),
        ),
{
    let candles = Seq::new(
        rows.len(),
        |i: int| candle(rows[i], true, true, true, by_word(confirmed[i]), Seq::empty()),
    );
    assert forall|i: int| 0 <= i < items.len() implies payload::row_problem(
        RowForm::Okx,
        #[trigger] items[i],
        0,
    ) is None && payload::row_candle(RowForm::Okx, items[i], 0) == candles[i]
        && payload::text_row_shape(items[i]) is None by {
        lemma_okx_row(items[i], starts[i], confirmed[i], rows[i]);
    }
    lemma_shapes(items, true);
    lemma_rows(RowForm::Okx, items, 0, candles);
}

// ---------------------------------------------------------------------------------------------
// KuCoin
// ---------------------------------------------------------------------------------------------

/// Whether a document is a row of KuCoin: start, open, high, low, close, and two volumes that are
/// not to be trusted.
pub open spec fn is_kucoin_row(item: JsonView, start: Seq<char>, row: Row) -> bool {
    &&& item is List
    &&& item->List_0.len() == 7
    &&& is_written(item->List_0[0], start)
    &&& is_written(item->List_0[1], row.open)
    &&& is_written(item->List_0[2], row.high)
    &&& is_written(item->List_0[3], row.low)
    &&& is_written(item->List_0[4], row.close)
    &&& is_number(start, row.start)
    &&& is_sound(row)
}

proof fn lemma_kucoin_row(item: JsonView, start: Seq<char>, row: Row)
    requires
        is_kucoin_row(item, start, row),
    ensures
        payload::row_problem(RowForm::Kucoin, item, 0) is None,
        payload::row_candle(RowForm::Kucoin, item, 0) == candle(
            row,
            false,
            false,
            false,
            CandleFinality::Unknown,
            seq![DataQuality::ProviderVolumeUntrusted],
        ),
{
    lemma_prices(row);
    let list = item->List_0;
    lemma_written(list[0], start, "start time"@);
    lemma_written(list[1], row.open, "open"@);
    lemma_written(list[2], row.high, "high"@);
    lemma_written(list[3], row.low, "low"@);
    lemma_written(list[4], row.close, "close"@);
    let cells = payload::cells_of(list);
    assert(cells[0] == start && cells[1] == row.open && cells[2] == row.high);
    assert(cells[3] == row.low && cells[4] == row.close);
}

/// The candles of a KuCoin answer are its rows, in their order: open, high, low and close stand at
/// the second to fifth place of a row. No volume is told, and nothing of finality.
pub proof fn law_kucoin_rows_are_candles(
    body: Seq<char>,
    header: JsonView,
    root: JsonView,
    items: Seq<JsonView>,
    starts: Seq<Seq<char>>,
    rows: Seq<Row>,
)
    requires
        reading::laid_out(body, json::flat("code,msg"@, 1)) == Ok::<JsonView, Seq<char>>(header),
        says(header, "code"@, "200000"@),
        json::member_of(header, "msg"@) matches Some(words) ==> words is Text,
        reading::laid_out(
            body,
            json::with_field(
                json::flat("code,data"@, 2),
                "data"@,
                LayoutView::Each(Box::new(LayoutView::Each(Box::new(LayoutView::Raw)))),
            ),
        ) == Ok::<JsonView, Seq<char>>(root),
        says(root, "code"@, "200000"@),
        json::member_of(root, "data"@) == Some(JsonView::List(items)),
        items.len() == rows.len(),
        items.len() == starts.len(),
        forall|i: int|
            0 <= i < items.len() ==> is_kucoin_row(#[trigger] items[i], starts[i], rows[i]),
    ensures
        payload::kucoin_candles_in(body) == Ok::<Seq<CandleView>, HistoryErrorView>(
            Seq::new(
                rows.len(),
                |i: int|
                    candle(
                        rows[i],
                        false,
                        false,
                        false,
                        CandleFinality::Unknown,
                        seq![DataQuality::ProviderVolumeUntrusted],
                    ),
            ),
        ),
{
    let candles = Seq::new(
        rows.len(),
        |i: int|
            candle(
                rows[i],
                false,
                false,
                false,
                CandleFinality::Unknown,
                seq![DataQuality::ProviderVolumeUntrusted],
            ),
    );
    assert forall|i: int| 0 <= i < items.len() implies payload::row_problem(
        RowForm::Kucoin,
        #[trigger] items[i],
        0,
    ) is None && payload::row_candle(RowForm::Kucoin, items[i], 0) == candles[i]
        && payload::row_shape(items[i]) is None by {
        lemma_kucoin_row(items[i], starts[i], rows[i]);
    }
    lemma_shapes(items, false);
    lemma_rows(RowForm::Kucoin, items, 0, candles);
}

// ---------------------------------------------------------------------------------------------
// MEXC
// ---------------------------------------------------------------------------------------------

/// The columns of a MEXC answer.
pub struct Columns {
    pub time: Seq<JsonView>,
    pub open: Seq<JsonView>,
    pub close: Seq<JsonView>,
    pub high: Seq<JsonView>,
    pub low: Seq<JsonView>,
    pub vol: Seq<JsonView>,
    pub amount: Seq<JsonView>,
}

/// Whether the columns stand under their names and are of one length.
pub open spec fn are_columns(data: JsonView, columns: Columns, count: nat) -> bool {
    &&& json::member_of(data, "time"@) == Some(JsonView::List(columns.time))
    &&& json::member_of(data, "open"@) == Some(JsonView::List(columns.open))
    &&& json::member_of(data, "close"@) == Some(JsonView::List(columns.close))
    &&& json::member_of(data, "high"@) == Some(JsonView::List(columns.high))
    &&& json::member_of(data, "low"@) == Some(JsonView::List(columns.low))
    &&& json::member_of(data, "vol"@) == Some(JsonView::List(columns.vol))
    &&& json::member_of(data, "amount"@) == Some(JsonView::List(columns.amount))
    &&& columns.time.len() == count
    &&& columns.open.len() == count
    &&& columns.close.len() == count
    &&& columns.high.len() == count
    &&& columns.low.len() == count
    &&& columns.vol.len() == count
    &&& columns.amount.len() == count
}

/// Whether the cells of the columns at a place are those of a row. Times count seconds, the volume
/// counts contracts, and the amount is in the quote asset.
pub open spec fn is_mexc_row(columns: Columns, i: int, seconds: Seq<char>, row: Row) -> bool {
    &&& is_written(columns.time[i], seconds)
    &&& is_written(columns.open[i], row.open)
    &&& is_written(columns.close[i], row.close)
    &&& is_written(columns.high[i], row.high)
    &&& is_written(columns.low[i], row.low)
    &&& is_written(columns.vol[i], row.contracts)
    &&& is_written(columns.amount[i], row.quote)
    &&& row.start % 1_000 == 0
    &&& is_number(seconds, row.start / 1_000)
    &&& is_sound(row)
    &&& is_price(row.quote)
    &&& is_price(row.contracts)
}

proof fn lemma_mexc_row(
    data: JsonView,
    columns: Columns,
    count: nat,
    i: int,
    seconds: Seq<char>,
    row: Row,
    server_time_ms: u64,
)
    requires
        are_columns(data, columns, count),
        0 <= i < count,
        is_mexc_row(columns, i, seconds, row),
    ensures
        payload::mexc_row_problem(data, i, server_time_ms) is None,
        payload::candle_of(payload::mexc_fields(data, i, server_time_ms)) == candle(
            row,
            false,
            true,
            true,
            by_clock(row, server_time_ms),
            Seq::empty(),
        ),
{
    lemma_prices(row);
    lemma_price(row.quote, "quote volume"@);
    lemma_price(row.contracts, "contract volume"@);
    lemma_written(columns.time[i], seconds, "time"@);
    lemma_written(columns.open[i], row.open, "open"@);
    lemma_written(columns.high[i], row.high, "high"@);
    lemma_written(columns.low[i], row.low, "low"@);
    lemma_written(columns.close[i], row.close, "close"@);
    lemma_written(columns.amount[i], row.quote, "quote volume"@);
    lemma_written(columns.vol[i], row.contracts, "contract volume"@);
    assert((row.start / 1_000) * 1_000 == row.start) by (nonlinear_arith)
        requires
            row.start % 1_000 == 0,
    ;
    assert(payload::mexc_start(data, i) == row.start);
}

proof fn lemma_mexc_rows(
    data: JsonView,
    columns: Columns,
    count: nat,
    seconds: Seq<Seq<char>>,
    rows: Seq<Row>,
    server_time_ms: u64,
    some: nat,
)
    requires
        are_columns(data, columns, count),
        rows.len() == count,
        seconds.len() == count,
        some <= count,
        forall|i: int| 0 <= i < count ==> is_mexc_row(columns, i, #[trigger] seconds[i], rows[i]),
    ensures
        payload::mexc_rows_problem(data, some, server_time_ms) is None,
    decreases some,
{
    if some > 0 {
        lemma_mexc_rows(
            data,
            columns,
            count,
            seconds,
            rows,
            server_time_ms,
            (some - 1) as nat,
        );
        assert(is_mexc_row(columns, some - 1, seconds[some - 1], rows[some - 1]));
        lemma_mexc_row(
            data,
            columns,
            count,
            some - 1,
            seconds[some - 1],
            rows[some - 1],
            server_time_ms,
        );
    }
}

/// The candles of a MEXC answer are its columns read across: open, high, low and close come from the
/// columns of that name, the volume in contracts from `vol` and the one in the quote asset from
/// `amount`. The clock of the venue tells which are closed.
pub proof fn law_mexc_columns_are_candles(
    body: Seq<char>,
    server_time_ms: u64,
    root: JsonView,
    data: JsonView,
    columns: Columns,
    count: nat,
    seconds: Seq<Seq<char>>,
    rows: Seq<Row>,
)
    requires
        reading::laid_out(
            body,
            json::with_field(
                json::flat("success,code,data"@, 3),
                "data"@,
                json::columns("time,open,close,high,low,vol,amount"@, 7),
            ),
        ) == Ok::<JsonView, Seq<char>>(root),
        holds(root, "success"@, true),
        tallies(root, "code"@, 0),
        json::member_of(root, "data"@) == Some(data),
        are_columns(data, columns, count),
        rows.len() == count,
        seconds.len() == count,
        forall|i: int| 0 <= i < count ==> is_mexc_row(columns, i, #[trigger] seconds[i], rows[i]),
    ensures
        payload::mexc_candles_in(body, server_time_ms) == Ok::<Seq<CandleView>, HistoryErrorView>(
            Seq::new(
                count,
                |i: int|
                    candle(
                        rows[i],
                        false,
                        true,
                        true,
                        by_clock(rows[i], server_time_ms),
                        Seq::empty(),
                    ),
            ),
        ),
{
    lemma_mexc_rows(data, columns, count, seconds, rows, server_time_ms, count);
    let read = Seq::new(
        count,
        |i: int| payload::candle_of(payload::mexc_fields(data, i, server_time_ms)),
    );
    let wanted = Seq::new(
        count,
        |i: int|
            candle(rows[i], false, true, true, by_clock(rows[i], server_time_ms), Seq::empty()),
    );
    assert forall|i: int| 0 <= i < count implies #[trigger] read[i] == wanted[i] by {
        assert(is_mexc_row(columns, i, seconds[i], rows[i]));
        lemma_mexc_row(data, columns, count, i, seconds[i], rows[i], server_time_ms);
    }
    assert(read =~= wanted);
}

// ---------------------------------------------------------------------------------------------
// BingX
// ---------------------------------------------------------------------------------------------

/// Whether a row of BingX, as it stands in an answer, is an object with the fields of a candle.
pub open spec fn is_bingx_object(item: JsonView, object: JsonView, time: Seq<char>, row: Row) -> bool {
    &&& item is Text
    &&& item->Text_0.len() > 0
    &&& item->Text_0[0] == '{'
    &&& reading::laid_out(item->Text_0, json::raws("open,close,high,low,volume,time"@, 6)) == Ok::<
        JsonView,
        Seq<char>,
    >(object)
    &&& object is Object
    &&& json::member_of(object, "open"@) is Some
    &&& json::member_of(object, "close"@) is Some
    &&& json::member_of(object, "high"@) is Some
    &&& json::member_of(object, "low"@) is Some
    &&& json::member_of(object, "volume"@) is Some
    &&& json::member_of(object, "time"@) is Some
    &&& is_written(json::member_of(object, "open"@)->0, row.open)
    &&& is_written(json::member_of(object, "close"@)->0, row.close)
    &&& is_written(json::member_of(object, "high"@)->0, row.high)
    &&& is_written(json::member_of(object, "low"@)->0, row.low)
    &&& is_written(json::member_of(object, "volume"@)->0, row.base)
    &&& is_written(json::member_of(object, "time"@)->0, time)
    &&& is_number(time, row.start)
    &&& is_sound(row)
    &&& is_price(row.base)
}

/// Whether a row of BingX, as it stands in an answer, is an array: open time, open, high, low, close,
/// base volume, close time, quote volume, and three cells that no candle needs.
pub open spec fn is_bingx_array(
    item: JsonView,
    list: Seq<JsonView>,
    start: Seq<char>,
    close_time: Seq<char>,
    row: Row,
) -> bool {
    &&& item is Text
    &&& item->Text_0.len() > 0
    &&& item->Text_0[0] == '['
    &&& reading::laid_out(item->Text_0, LayoutView::Each(Box::new(LayoutView::Raw))) == Ok::<
        JsonView,
        Seq<char>,
    >(JsonView::List(list))
    &&& list.len() == 11
    &&& is_written(list[0], start)
    &&& is_written(list[1], row.open)
    &&& is_written(list[2], row.high)
    &&& is_written(list[3], row.low)
    &&& is_written(list[4], row.close)
    &&& is_written(list[5], row.base)
    &&& is_written(list[6], close_time)
    &&& is_written(list[7], row.quote)
    &&& is_number(start, row.start)
    &&& is_number(close_time, (row.start + 59_999) as u64)
    &&& is_sound(row)
    &&& is_price(row.base)
    &&& is_price(row.quote)
}

/// A row of BingX that is an object is the candle of its fields.
pub proof fn law_bingx_objects_are_candles(
    item: JsonView,
    object: JsonView,
    time: Seq<char>,
    row: Row,
    server_time_ms: u64,
)
    requires
        is_bingx_object(item, object, time, row),
    ensures
        payload::row_problem(RowForm::Bingx, item, server_time_ms) is None,
        payload::row_candle(RowForm::Bingx, item, server_time_ms) == candle(
            row,
            true,
            false,
            false,
            by_clock(row, server_time_ms),
            Seq::empty(),
        ),
{
    lemma_prices(row);
    lemma_price(row.base, "base volume"@);
    lemma_written(json::value_at(object, "time"@), time, "time"@);
    lemma_written(json::value_at(object, "open"@), row.open, "open"@);
    lemma_written(json::value_at(object, "high"@), row.high, "high"@);
    lemma_written(json::value_at(object, "low"@), row.low, "low"@);
    lemma_written(json::value_at(object, "close"@), row.close, "close"@);
    lemma_written(json::value_at(object, "volume"@), row.base, "base volume"@);
}

/// A row of BingX that is an array is the candle of its cells.
pub proof fn law_bingx_arrays_are_candles(
    item: JsonView,
    list: Seq<JsonView>,
    start: Seq<char>,
    close_time: Seq<char>,
    row: Row,
    server_time_ms: u64,
)
    requires
        is_bingx_array(item, list, start, close_time, row),
    ensures
        payload::row_problem(RowForm::Bingx, item, server_time_ms) is None,
        payload::row_candle(RowForm::Bingx, item, server_time_ms) == candle(
            row,
            true,
            true,
            false,
            by_clock(row, server_time_ms),
            Seq::empty(),
        ),
{
    lemma_prices(row);
    lemma_price(row.base, "base volume"@);
    lemma_price(row.quote, "quote volume"@);
    lemma_written(list[0], start, "open time"@);
    lemma_written(list[1], row.open, "open"@);
    lemma_written(list[2], row.high, "high"@);
    lemma_written(list[3], row.low, "low"@);
    lemma_written(list[4], row.close, "close"@);
    lemma_written(list[5], row.base, "base volume"@);
    lemma_written(list[6], close_time, "close time"@);
    lemma_written(list[7], row.quote, "quote volume"@);
    let cells = payload::cells_of(list);
    assert(cells[0] == start && cells[1] == row.open && cells[2] == row.high);
    assert(cells[3] == row.low && cells[4] == row.close && cells[5] == row.base);
    assert(cells[6] == close_time && cells[7] == row.quote);
}

/// The candles of a BingX answer are its rows, in their order, each an object or an array.
pub proof fn law_bingx_rows_are_candles(
    body: Seq<char>,
    server_time_ms: u64,
    root: JsonView,
    items: Seq<JsonView>,
    documents: Seq<JsonView>,
    starts: Seq<Seq<char>>,
    close_times: Seq<Seq<char>>,
    rows: Seq<Row>,
)
    requires
        reading::laid_out(
            body,
            json::with_field(
                json::flat("code,msg,data"@, 3),
                "data"@,
                LayoutView::Each(Box::new(LayoutView::Raw)),
            ),
        ) == Ok::<JsonView, Seq<char>>(root),
        tallies(root, "code"@, 0),
        json::member_of(root, "msg"@) matches Some(words) ==> words is Text,
        json::member_of(root, "data"@) == Some(JsonView::List(items)),
        items.len() == rows.len(),
        items.len() == documents.len(),
        items.len() == starts.len(),
        items.len() == close_times.len(),
        forall|i: int|
            0 <= i < items.len() ==> is_bingx_object(
                #[trigger] items[i],
                documents[i],
                starts[i],
                rows[i],
            ) || (documents[i] is List && is_bingx_array(
                items[i],
                documents[i]->List_0,
                starts[i],
                close_times[i],
                rows[i],
            )),
    ensures
        payload::bingx_candles_in(body, server_time_ms) == Ok::<Seq<CandleView>, HistoryErrorView>(
            Seq::new(
                rows.len(),
                |i: int|
                    candle(
                        rows[i],
                        true,
                        documents[i] is List,
                        false,
                        by_clock(rows[i], server_time_ms),
                        Seq::empty(),
                    ),
            ),
        ),
{
    let candles = Seq::new(
        rows.len(),
        |i: int|
            candle(
                rows[i],
                true,
                documents[i] is List,
                false,
                by_clock(rows[i], server_time_ms),
                Seq::empty(),
            ),
    );
    assert forall|i: int| 0 <= i < items.len() implies payload::row_problem(
        RowForm::Bingx,
        #[trigger] items[i],
        server_time_ms,
    ) is None && payload::row_candle(RowForm::Bingx, items[i], server_time_ms) == candles[i] by {
        if is_bingx_object(items[i], documents[i], starts[i], rows[i]) {
            law_bingx_objects_are_candles(
                items[i],
                documents[i],
                starts[i],
                rows[i],
                server_time_ms,
            );
        } else {
            law_bingx_arrays_are_candles(
                items[i],
                documents[i]->List_0,
                starts[i],
                close_times[i],
                rows[i],
                server_time_ms,
            );
        }
    }
    lemma_rows(RowForm::Bingx, items, server_time_ms, candles);
}

} // verus!
