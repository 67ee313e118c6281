//! What a history never holds, and which answers are no histories.
use vstd::prelude::*;

use super::histories::is_number;
use super::{holds, says, tallies};
use crate::decimal;
use crate::domain::{CandleView, Provider};
use crate::history::payload;
use crate::history::payload::{FieldsView, RowForm};
use crate::history::HistoryErrorView;
use crate::json;
use crate::json::reading;
use crate::json::{JsonView, LayoutView};
use crate::laws;
use crate::text;

verus! {

// ---------------------------------------------------------------------------------------------
// Candles
// ---------------------------------------------------------------------------------------------

/// Whether a value that may be there is a decimal where it is there.
pub open spec fn is_decimal_where_given(value: Option<Seq<char>>) -> bool {
    value matches Some(text) ==> decimal::decimal_of(text) is Some
}

/// Whether a candle covers a full minute of the clock, and everything that it tells is a decimal.
pub open spec fn is_sound(candle: CandleView) -> bool {
    &&& candle.interval == "1m"@
    &&& candle.start_time_ms % 60_000 == 0
    &&& candle.end_time_ms == candle.start_time_ms + 60_000
    &&& decimal::decimal_of(candle.open) is Some
    &&& decimal::decimal_of(candle.high) is Some
    &&& decimal::decimal_of(candle.low) is Some
    &&& decimal::decimal_of(candle.close) is Some
    &&& is_decimal_where_given(candle.base_volume)
    &&& is_decimal_where_given(candle.quote_volume)
    &&& is_decimal_where_given(candle.contract_volume)
}

proof fn lemma_fields(fields: FieldsView)
    requires
        payload::candle_problem(fields) is None,
    ensures
        is_sound(payload::candle_of(fields)),
{
}

proof fn lemma_row(form: RowForm, rows: Seq<JsonView>, server_time_ms: u64, i: int)
    requires
        payload::rows_read(form, rows, server_time_ms) is Ok,
        0 <= i < rows.len(),
    ensures
        payload::row_problem(form, rows[i], server_time_ms) is None,
        payload::rows_read(form, rows, server_time_ms)->Ok_0.len() == rows.len(),
        is_sound(payload::rows_read(form, rows, server_time_ms)->Ok_0[i]),
{
    laws::lemma_every_item_passes(
        rows,
        |row: JsonView| payload::row_problem(form, row, server_time_ms),
        i,
    );
    let texts = payload::texts_of(rows[i]->List_0);
    let cells = payload::cells_of(rows[i]->List_0);
    match form {
        RowForm::Bybit => lemma_fields(payload::bybit_fields(texts, server_time_ms)),
        RowForm::Binance => lemma_fields(payload::timed_fields(cells, server_time_ms)),
        RowForm::Okx => lemma_fields(payload::okx_fields(texts)),
        RowForm::Kucoin => lemma_fields(payload::kucoin_fields(cells)),
        RowForm::Bingx => {
            let document = payload::bingx_row(rows[i])->Ok_0;
            match document {
                JsonView::Object(_) => lemma_fields(
                    payload::object_fields(document, server_time_ms),
                ),
                _ => lemma_fields(
                    payload::timed_fields(payload::cells_of(document->List_0), server_time_ms),
                ),
            }
        },
    }
}

proof fn lemma_mexc_row(data: JsonView, count: nat, server_time_ms: u64, i: int)
    requires
        payload::mexc_rows_problem(data, count, server_time_ms) is None,
        0 <= i < count,
    ensures
        payload::mexc_row_problem(data, i, server_time_ms) is None,
    decreases count,
{
    if i < count - 1 {
        lemma_mexc_row(data, (count - 1) as nat, server_time_ms, i);
    }
}

/// Every candle that is read from an answer, whatever the venue, covers a full minute of the clock and
/// tells only decimals.
pub proof fn law_candles_are_full_minutes_of_decimals(
    body: Seq<char>,
    symbol: Seq<char>,
    server_time_ms: u64,
    i: int,
)
    ensures
        payload::bybit_candles_in(body, symbol) matches Ok(list) ==> (0 <= i < list.len()
            ==> is_sound(list[i])),
        payload::binance_candles_in(body, server_time_ms) matches Ok(list) ==> (0 <= i < list.len()
            ==> is_sound(list[i])),
        payload::okx_candles_in(body) matches Ok(list) ==> (0 <= i < list.len() ==> is_sound(
            list[i],
        )),
        payload::kucoin_candles_in(body) matches Ok(list) ==> (0 <= i < list.len() ==> is_sound(
            list[i],
        )),
        payload::mexc_candles_in(body, server_time_ms) matches Ok(list) ==> (0 <= i < list.len()
            ==> is_sound(list[i])),
        payload::bingx_candles_in(body, server_time_ms) matches Ok(list) ==> (0 <= i < list.len()
            ==> is_sound(list[i])),
{
    if let Ok(list) = payload::bybit_candles_in(body, symbol) {
        if 0 <= i < list.len() {
            let root = reading::laid_out(body, payload::bybit_layout())->Ok_0;
            let result = json::value_at(root, "result"@);
            lemma_row(
                RowForm::Bybit,
                json::list_at(result, "list"@),
                json::unsigned_at(root, "time"@),
                i,
            );
        }
    }
    if let Ok(list) = payload::binance_candles_in(body, server_time_ms) {
        if 0 <= i < list.len() {
            let root = reading::laid_out(body, payload::binance_layout())->Ok_0;
            lemma_row(RowForm::Binance, root->List_0, server_time_ms, i);
        }
    }
    if let Ok(list) = payload::okx_candles_in(body) {
        if 0 <= i < list.len() {
            let root = reading::laid_out(body, json::flat("code,data"@, 2))->Ok_0;
            lemma_row(RowForm::Okx, json::list_at(root, "data"@), 0, i);
        }
    }
    if let Ok(list) = payload::kucoin_candles_in(body) {
        if 0 <= i < list.len() {
            let root = reading::laid_out(body, payload::kucoin_layout())->Ok_0;
            lemma_row(RowForm::Kucoin, json::list_at(root, "data"@), 0, i);
        }
    }
    if let Ok(list) = payload::mexc_candles_in(body, server_time_ms) {
        if 0 <= i < list.len() {
            let root = reading::laid_out(body, payload::mexc_layout())->Ok_0;
            let data = json::value_at(root, "data"@);
            lemma_mexc_row(data, json::list_at(data, "time"@).len(), server_time_ms, i);
            lemma_fields(payload::mexc_fields(data, i, server_time_ms));
        }
    }
    if let Ok(list) = payload::bingx_candles_in(body, server_time_ms) {
        if 0 <= i < list.len() {
            let root = reading::laid_out(body, payload::bingx_layout())->Ok_0;
            lemma_row(RowForm::Bingx, json::list_at(root, "data"@), server_time_ms, i);
        }
    }
}

// ---------------------------------------------------------------------------------------------
// Rows
// ---------------------------------------------------------------------------------------------

/// Whether a list of texts tells a minute that ends one millisecond after the close time.
pub open spec fn closes_with_its_minute(item: JsonView, cells: nat) -> bool {
    item matches JsonView::List(row) && row.len() == cells && exists|start: u64, close: u64|
        #![trigger starts_and_closes(row, start, close)]
        starts_and_closes(row, start, close) && close + 1 == start + 60_000
}

/// Whether the first cell of a row is one number and the seventh another.
pub open spec fn starts_and_closes(row: Seq<JsonView>, start: u64, close: u64) -> bool {
    is_number(payload::cell_text(row[0]), start) && is_number(payload::cell_text(row[6]), close)
}

proof fn lemma_shape(items: Seq<JsonView>, texts: bool, i: int)
    requires
        payload::rows_shape(items, texts) is None,
        0 <= i < items.len(),
    ensures
        items[i] is List,
        texts ==> forall|k: int|
            0 <= k < items[i]->List_0.len() ==> (#[trigger] items[i]->List_0[k]) is Text,
{
    laws::lemma_every_item_passes(
        items,
        |row: JsonView|
            if texts {
                payload::text_row_shape(row)
            } else {
                payload::row_shape(row)
            },
        i,
    );
    if texts {
        let row = items[i]->List_0;
        assert forall|k: int| 0 <= k < row.len() implies (#[trigger] row[k]) is Text by {
            laws::lemma_every_item_passes(row, |cell: JsonView| payload::text_cell_shape(cell), k);
        }
    }
}

/// Where an answer of Binance is read, every row has twelve cells and closes with its minute.
pub proof fn law_binance_rows_are_whole(
    body: Seq<char>,
    server_time_ms: u64,
    items: Seq<JsonView>,
    i: int,
)
    requires
        reading::laid_out(
            body,
            LayoutView::Each(Box::new(LayoutView::Each(Box::new(LayoutView::Raw)))),
        ) == Ok::<JsonView, Seq<char>>(JsonView::List(items)),
        payload::binance_candles_in(body, server_time_ms) is Ok,
        0 <= i < items.len(),
    ensures
        closes_with_its_minute(items[i], 12),
{
    lemma_row(RowForm::Binance, items, server_time_ms, i);
    lemma_shape(items, false, i);
    let row = items[i]->List_0;
    assert(payload::cells_of(row)[0] == payload::cell_text(row[0]));
    assert(payload::cells_of(row)[6] == payload::cell_text(row[6]));
    let start = payload::number_of(payload::cell_text(row[0]));
    let close = payload::number_of(payload::cell_text(row[6]));
    assert(starts_and_closes(row, start, close));
}

/// Where an answer of OKX is read, every row has nine texts, and the last one says whether the minute is
/// over.
pub proof fn law_okx_rows_are_whole(
    body: Seq<char>,
    root: JsonView,
    items: Seq<JsonView>,
    i: int,
)
    requires
        reading::laid_out(body, json::flat("code,data"@, 2)) == Ok::<JsonView, Seq<char>>(root),
        json::member_of(root, "data"@) == Some(JsonView::List(items)),
        payload::okx_candles_in(body) is Ok,
        0 <= i < items.len(),
    ensures
        match items[i] {
            JsonView::List(row) => row.len() == 9 && (row[8] == JsonView::Text("0"@) || row[8]
                == JsonView::Text("1"@)),
            _ => false,
        },
{
    lemma_row(RowForm::Okx, items, 0, i);
    lemma_shape(items, true, i);
    let row = items[i]->List_0;
    assert(payload::texts_of(row)[8] == payload::raw_of(row[8]));
    assert(row[8] is Text);
}

/// Where an answer of KuCoin is read, every row has seven cells.
pub proof fn law_kucoin_rows_are_whole(
    body: Seq<char>,
    root: JsonView,
    items: Seq<JsonView>,
    i: int,
)
    requires
        reading::laid_out(
            body,
            json::with_field(
                json::flat("code,data"@, 2),
                "data"@,
                LayoutView::Each(Box::new(LayoutView::Each(Box::new(LayoutView::Raw)))),
            ),
        ) == Ok::<JsonView, Seq<char>>(root),
        json::member_of(root, "data"@) == Some(JsonView::List(items)),
        payload::kucoin_candles_in(body) is Ok,
        0 <= i < items.len(),
    ensures
        match items[i] {
            JsonView::List(row) => row.len() == 7,
            _ => false,
        },
{
    lemma_row(RowForm::Kucoin, items, 0, i);
    lemma_shape(items, false, i);
}

// ---------------------------------------------------------------------------------------------
// Answers
// ---------------------------------------------------------------------------------------------

/// Whether an outcome is that the venue refused, with its code and its words.
pub open spec fn is_refused(
    outcome: Result<Seq<CandleView>, HistoryErrorView>,
    provider: Provider,
    code: Seq<char>,
    message: Seq<char>,
) -> bool {
    outcome == Err::<Seq<CandleView>, HistoryErrorView>(
        HistoryErrorView::ProviderRejected { provider, code, message },
    )
}

/// An answer of Bybit with a code other than nought is told with its code and its words.
pub proof fn law_bybit_refusals_are_told(
    body: Seq<char>,
    symbol: Seq<char>,
    header: JsonView,
    code: i64,
    message: Seq<char>,
)
    requires
        reading::laid_out(body, json::flat("retCode,retMsg"@, 2)) == Ok::<JsonView, Seq<char>>(
            header,
        ),
        tallies(header, "retCode"@, code),
        says(header, "retMsg"@, message),
        code != 0,
    ensures
        is_refused(
            payload::bybit_candles_in(body, symbol),
            Provider::Bybit,
            text::integer_text(code as int),
            message,
        ),
{
}

/// An answer of OKX with a code other than nought, and one of KuCoin with a code other than two hundred
/// thousand, is told with its code and its words.
pub proof fn law_worded_refusals_are_told(
    body: Seq<char>,
    header: JsonView,
    code: Seq<char>,
    message: Seq<char>,
)
    requires
        says(header, "code"@, code),
        says(header, "msg"@, message),
    ensures
        reading::laid_out(body, json::flat("code,msg"@, 2)) == Ok::<JsonView, Seq<char>>(header)
            && code != "0"@ ==> is_refused(
            payload::okx_candles_in(body),
            Provider::Okx,
            code,
            message,
        ),
        reading::laid_out(body, json::flat("code,msg"@, 1)) == Ok::<JsonView, Seq<char>>(header)
            && code != "200000"@ ==> is_refused(
            payload::kucoin_candles_in(body),
            Provider::Kucoin,
            code,
            message,
        ),
{
}

/// An answer of BingX with a code other than nought is told with its code and its words.
pub proof fn law_bingx_refusals_are_told(
    body: Seq<char>,
    server_time_ms: u64,
    root: JsonView,
    code: i64,
    message: Seq<char>,
    items: Seq<JsonView>,
)
    requires
        reading::laid_out(
            body,
            json::with_field(
                json::flat("code,msg,data"@, 3),
                "data"@,
                LayoutView::Each(Box::new(LayoutView::Raw)),
            ),
        ) == Ok::<JsonView, Seq<char>>(root),
        tallies(root, "code"@, code),
        says(root, "msg"@, message),
        json::member_of(root, "data"@) == Some(JsonView::List(items)),
        code != 0,
    ensures
        is_refused(
            payload::bingx_candles_in(body, server_time_ms),
            Provider::Bingx,
            text::integer_text(code as int),
            message,
        ),
{
}

/// What Bybit tells of another category or another symbol than was asked for is no history.
pub proof fn law_bybit_answers_are_of_the_request(
    body: Seq<char>,
    symbol: Seq<char>,
    root: JsonView,
    result: JsonView,
    category: Seq<char>,
    other: Seq<char>,
)
    requires
        reading::laid_out(
            body,
            json::with_field(
                json::flat("retCode,result,time"@, 3),
                "result"@,
                json::flat("category,symbol,list"@, 3),
            ),
        ) == Ok::<JsonView, Seq<char>>(root),
        json::member_of(root, "result"@) == Some(result),
        says(result, "category"@, category),
        says(result, "symbol"@, other),
        category != "linear"@ || other != symbol,
    ensures
        payload::bybit_candles_in(body, symbol) is Err,
{
}

/// An answer of MEXC is a history only where it says that it succeeded, with nought for a code, and where
/// its columns are of one length.
pub proof fn law_mexc_answers_are_whole(
    body: Seq<char>,
    server_time_ms: u64,
    root: JsonView,
    data: JsonView,
)
    requires
        reading::laid_out(
            body,
            json::with_field(
                json::flat("success,code,data"@, 3),
                "data"@,
                json::columns("time,open,close,high,low,vol,amount"@, 7),
            ),
        ) == Ok::<JsonView, Seq<char>>(root),
        json::member_of(root, "data"@) == Some(data),
        payload::mexc_candles_in(body, server_time_ms) is Ok,
    ensures
        holds(root, "success"@, true),
        tallies(root, "code"@, 0),
        ({
            let count = payload::mexc_candles_in(body, server_time_ms)->Ok_0.len();
            &&& has_column(data, "time"@, count)
            &&& has_column(data, "open"@, count)
            &&& has_column(data, "high"@, count)
            &&& has_column(data, "low"@, count)
            &&& has_column(data, "close"@, count)
            &&& has_column(data, "vol"@, count)
            &&& has_column(data, "amount"@, count)
        }),
{
}

/// Whether a document has a list of a length under a name.
pub open spec fn has_column(data: JsonView, name: Seq<char>, count: nat) -> bool {
    match json::member_of(data, name) {
        Some(JsonView::List(items)) => items.len() == count,
        _ => false,
    }
}

} // verus!
