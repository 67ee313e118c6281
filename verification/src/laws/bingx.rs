//! What the messages of BingX mean, and which topics are asked of it.
use vstd::prelude::*;

use super::{counts, says, tallies};
use crate::decimal;
use crate::domain;
use crate::domain::{
    CandleFinality, CandleView, Channel, KeyView, MarketKind, ObservedView, PayloadView, Provider,
    ProviderEventView, SequenceView, TickerView,
};
use crate::json;
use crate::json::{JsonView, LayoutView};
use crate::laws;
use crate::providers;
use crate::providers::bingx;
use crate::providers::bingx::{BingxView, TickerStream};
use crate::providers::{AdapterErrorView, FrameView, HeartbeatView, SubscriptionAction};
use crate::text;

verus! {

/// Whether an object has an unsigned number of that name, or nothing.
pub open spec fn may_count(object: JsonView, name: Seq<char>, n: Option<u64>) -> bool {
    match n {
        Some(n) => counts(object, name, n),
        None => json::member_of(object, name) is None || json::member_of(object, name) == Some(
            JsonView::Null,
        ),
    }
}

/// Whether an object has a decimal of that name.
pub open spec fn prices(object: JsonView, name: Seq<char>, price: Seq<char>) -> bool {
    says(object, name, price) && decimal::decimal_of(price) is Some
}

/// Whether a text is a message of a topic with the data of an instrument.
pub open spec fn is_message(
    text: Seq<char>,
    root: JsonView,
    topic: Seq<char>,
    data: JsonView,
) -> bool {
    &&& text != "Ping"@
    &&& text != "Pong"@
    &&& json::document_of(text) == Ok::<JsonView, Seq<char>>(root)
    &&& root is Object
    &&& json::member_of(root, "id"@) is None
    &&& says(root, "dataType"@, topic)
    &&& tallies(root, "code"@, 0)
    &&& json::member_of(root, "msg"@) is None
    &&& json::member_of(root, "data"@) == Some(data)
}

/// Whether two names are those of one instrument.
pub open spec fn names_one(name: Seq<char>, other: Seq<char>, symbol: Seq<char>) -> bool {
    &&& domain::symbol_identity(name) == Ok::<Seq<char>, domain::DomainErrorView>(symbol)
    &&& domain::symbol_identity(other) == Ok::<Seq<char>, domain::DomainErrorView>(symbol)
}

/// What is known of an instrument.
pub open spec fn known(state: BingxView, symbol: Seq<char>) -> TickerView {
    if state.common.tickers.contains_key(symbol) {
        state.common.tickers[symbol]
    } else {
        domain::empty_ticker()
    }
}

/// A price that was observed at a time.
pub open spec fn observed(text: Seq<char>, time: u64) -> Option<ObservedView> {
    Some(ObservedView { value: text, observed_at_ms: time })
}

/// The event of an update.
pub open spec fn event(
    state: BingxView,
    symbol: Seq<char>,
    time: Option<u64>,
    received_at_ms: u64,
    sequence: Option<Seq<char>>,
    payload: PayloadView,
) -> ProviderEventView {
    ProviderEventView {
        connection_epoch: state.common.connection_epoch,
        provider: Provider::Bingx,
        market: MarketKind::LinearPerpetual,
        symbol,
        exchange_time_ms: time,
        gateway_received_time_ms: received_at_ms,
        source_sequence: match sequence {
            Some(last) => Some(SequenceView { first: None, last: Some(last), previous: None }),
            None => None,
        },
        payload,
    }
}

/// Whether a ticker is published, and kept.
pub open spec fn publishes_ticker(
    state: BingxView,
    outcome: (BingxView, Result<FrameView, AdapterErrorView>),
    symbol: Seq<char>,
    time: u64,
    received_at_ms: u64,
    sequence: Option<Seq<char>>,
    ticker: TickerView,
) -> bool {
    &&& outcome.1 == Ok::<FrameView, AdapterErrorView>(
        FrameView::Events(
            seq![
                event(
                    state,
                    symbol,
                    Some(time),
                    received_at_ms,
                    sequence,
                    PayloadView::Ticker(ticker),
                ),
            ],
        ),
    )
    &&& outcome.0.active == state.active
    &&& outcome.0.common.connection_epoch == state.common.connection_epoch
    &&& outcome.0.common.next_request_id == state.common.next_request_id
    &&& outcome.0.common.tickers == state.common.tickers.insert(symbol, ticker)
}

proof fn lemma_suffixes()
    ensures
        "@ticker"@.len() == 7,
        "@ticker"@[2] == 'i',
        "@ticker"@[0] == '@',
        "@markPrice"@.len() == 10,
        "@markPrice"@[9] == 'e',
        "@bookTicker"@.len() == 11,
        "@bookTicker"@[4] == 'k',
        "@bookTicker"@[5] == 'T',
        "@bookTicker"@[10] == 'r',
        "@kline_1m"@.len() == 9,
        "@kline_1m"@[8] == 'm',
        "@ticker"@[6] == 'r',
{
    reveal_strlit("@ticker");
    reveal_strlit("@markPrice");
    reveal_strlit("@bookTicker");
    reveal_strlit("@kline_1m");
}

/// The stream of a topic.
pub proof fn lemma_topic(name: Seq<char>)
    ensures
        text::before_suffix(name + "@ticker"@, "@ticker"@) == Some(name),
        text::finishes_with(name + "@ticker"@, "@ticker"@),
        text::before_suffix(name + "@markPrice"@, "@markPrice"@) == Some(name),
        text::finishes_with(name + "@markPrice"@, "@markPrice"@),
        !text::finishes_with(name + "@markPrice"@, "@ticker"@),
        text::before_suffix(name + "@bookTicker"@, "@bookTicker"@) == Some(name),
        text::finishes_with(name + "@bookTicker"@, "@bookTicker"@),
        !text::finishes_with(name + "@bookTicker"@, "@ticker"@),
        !text::finishes_with(name + "@bookTicker"@, "@markPrice"@),
        text::before_suffix(name + "@kline_1m"@, "@kline_1m"@) == Some(name),
        text::finishes_with(name + "@kline_1m"@, "@kline_1m"@),
        !text::finishes_with(name + "@kline_1m"@, "@ticker"@),
        !text::finishes_with(name + "@kline_1m"@, "@markPrice"@),
        !text::finishes_with(name + "@kline_1m"@, "@bookTicker"@),
        (name + "@ticker"@).len() > 0,
        (name + "@markPrice"@).len() > 0,
        (name + "@bookTicker"@).len() > 0,
        (name + "@kline_1m"@).len() > 0,
{
    lemma_suffixes();
    laws::lemma_suffixed(name, "@ticker"@);
    laws::lemma_suffixed(name, "@markPrice"@);
    laws::lemma_suffixed(name, "@bookTicker"@);
    laws::lemma_suffixed(name, "@kline_1m"@);
    laws::lemma_other_suffix(name, "@markPrice"@, "@ticker"@, 1);
    laws::lemma_other_suffix(name, "@bookTicker"@, "@ticker"@, 7);
    laws::lemma_other_suffix(name, "@bookTicker"@, "@markPrice"@, 1);
    laws::lemma_other_suffix(name, "@kline_1m"@, "@ticker"@, 1);
    laws::lemma_other_suffix(name, "@kline_1m"@, "@markPrice"@, 1);
    laws::lemma_other_suffix(name, "@kline_1m"@, "@bookTicker"@, 1);
}

pub proof fn lemma_arranged(root: JsonView, data: JsonView, stream: TickerStream)
    requires
        root is Object,
        json::member_of(root, "data"@) == Some(data),
        data is Object,
    ensures
        ({
            let after = json::arranged(root, bingx::ticker_layout(stream));
            &&& json::member_of(after, "code"@) == json::member_of(root, "code"@)
            &&& json::member_of(after, "msg"@) == json::member_of(root, "msg"@)
            &&& json::member_of(after, "data"@) == Some(data)
        }),
{
    reveal_strlit("code");
    reveal_strlit("msg");
    reveal_strlit("data");
    assert("code"@[0] == 'c' && "data"@[0] == 'd' && "msg"@[0] == 'm');
    let inner = bingx::stream_fields(stream);
    laws::lemma_nested_object(root, "code,msg,data"@, 3, "data"@, inner, "code"@);
    laws::lemma_nested_object(root, "code,msg,data"@, 3, "data"@, inner, "msg"@);
    laws::lemma_nested_object(root, "code,msg,data"@, 3, "data"@, inner, "data"@);
    laws::lemma_flat_object(data, "E,T,s,c"@, 4);
    laws::lemma_flat_object(data, "E,T,s,p"@, 4);
    laws::lemma_flat_object(data, "u,T,s,b,a"@, 5);
}

/// A ticker message sets the last price, at the time of the event, or else at the other time that it
/// gives, or else when it came.
pub proof fn law_last_prices_are_published(
    state: BingxView,
    text: Seq<char>,
    received_at_ms: u64,
    root: JsonView,
    data: JsonView,
    name: Seq<char>,
    other: Seq<char>,
    symbol: Seq<char>,
    event_time: Option<u64>,
    time: Option<u64>,
    price: Seq<char>,
)
    requires
        is_message(text, root, name + "@ticker"@, data),
        data is Object,
        says(data, "s"@, other),
        names_one(name, other, symbol),
        may_count(data, "E"@, event_time),
        may_count(data, "T"@, time),
        prices(data, "c"@, price),
    ensures
        ({
            let at = match (event_time, time) {
                (Some(at), _) => at,
                (None, Some(at)) => at,
                (None, None) => received_at_ms,
            };
            publishes_ticker(
                state,
                bingx::text_frame(state, text, received_at_ms),
                symbol,
                at,
                received_at_ms,
                None,
                TickerView { last: observed(price, at), ..known(state, symbol) },
            )
        }),
{
    lemma_topic(name);
    lemma_arranged(root, data, TickerStream::Last);
}

/// A mark-price message sets the mark price, at the time of the event, or else at the other time that
/// it gives.
pub proof fn law_mark_prices_are_published(
    state: BingxView,
    text: Seq<char>,
    received_at_ms: u64,
    root: JsonView,
    data: JsonView,
    name: Seq<char>,
    other: Seq<char>,
    symbol: Seq<char>,
    event_time: Option<u64>,
    time: Option<u64>,
    price: Seq<char>,
)
    requires
        is_message(text, root, name + "@markPrice"@, data),
        data is Object,
        says(data, "s"@, other),
        names_one(name, other, symbol),
        may_count(data, "E"@, event_time),
        may_count(data, "T"@, time),
        event_time is Some || time is Some,
        prices(data, "p"@, price),
    ensures
        ({
            let at = match event_time {
                Some(at) => at,
                None => time->0,
            };
            publishes_ticker(
                state,
                bingx::text_frame(state, text, received_at_ms),
                symbol,
                at,
                received_at_ms,
                None,
                TickerView { mark: observed(price, at), ..known(state, symbol) },
            )
        }),
{
    lemma_topic(name);
    lemma_arranged(root, data, TickerStream::Mark);
}

/// A book message sets the best bid and the best ask, at its time. The identifier of the update, where
/// there is one, is told as the last of a sequence.
pub proof fn law_book_tops_are_published(
    state: BingxView,
    text: Seq<char>,
    received_at_ms: u64,
    root: JsonView,
    data: JsonView,
    name: Seq<char>,
    other: Seq<char>,
    symbol: Seq<char>,
    time: u64,
    id: Option<u64>,
    bid: Seq<char>,
    ask: Seq<char>,
)
    requires
        is_message(text, root, name + "@bookTicker"@, data),
        data is Object,
        says(data, "s"@, other),
        names_one(name, other, symbol),
        counts(data, "T"@, time),
        may_count(data, "u"@, id),
        prices(data, "b"@, bid),
        prices(data, "a"@, ask),
    ensures
        publishes_ticker(
            state,
            bingx::text_frame(state, text, received_at_ms),
            symbol,
            time,
            received_at_ms,
            match id {
                Some(id) => Some(text::digits(id as nat)),
                None => None,
            },
            TickerView {
                bid: observed(bid, time),
                ask: observed(ask, time),
                ..known(state, symbol)
            },
        ),
{
    lemma_topic(name);
    lemma_arranged(root, data, TickerStream::Book);
}

/// The prices of a candle.
pub struct Row {
    pub start: u64,
    pub open: Seq<char>,
    pub high: Seq<char>,
    pub low: Seq<char>,
    pub close: Seq<char>,
    pub volume: Seq<char>,
}

/// Whether an object has the prices of a candle under its letters.
pub open spec fn has_row(item: JsonView, row: Row) -> bool {
    &&& item is Object
    &&& row.start % 60_000 == 0
    &&& row.start + 60_000 <= u64::MAX
    &&& prices(item, "o"@, row.open)
    &&& prices(item, "h"@, row.high)
    &&& prices(item, "l"@, row.low)
    &&& prices(item, "c"@, row.close)
    &&& prices(item, "v"@, row.volume)
}

/// The candle of a row.
pub open spec fn candle(row: Row) -> CandleView {
    CandleView {
        interval: "1m"@,
        start_time_ms: row.start,
        end_time_ms: (row.start + 60_000) as u64,
        open: row.open,
        high: row.high,
        low: row.low,
        close: row.close,
        base_volume: Some(row.volume),
        quote_volume: None,
        contract_volume: None,
        finality: CandleFinality::Unknown,
        data_quality: Seq::empty(),
    }
}

/// A candle whose object has its start and its end is published with the prices under its letters.
/// The volume is that of the base asset, and nothing is told of finality.
pub proof fn law_candles_are_published(
    state: BingxView,
    text: Seq<char>,
    received_at_ms: u64,
    root: JsonView,
    data: JsonView,
    item: JsonView,
    name: Seq<char>,
    other: Seq<char>,
    symbol: Seq<char>,
    end: u64,
    row: Row,
)
    requires
        is_message(text, root, name + "@kline_1m"@, data),
        json::member_of(root, "s"@) is None,
        data is Object,
        says(data, "s"@, other),
        json::member_of(data, "K"@) == Some(item),
        names_one(name, other, symbol),
        has_row(item, row),
        counts(item, "t"@, row.start),
        counts(item, "T"@, end),
        end == row.start + 60_000 || end == row.start + 59_999,
    ensures
        bingx::text_frame(state, text, received_at_ms) == (
            state,
            Ok::<FrameView, AdapterErrorView>(
                FrameView::Events(
                    seq![
                        event(
                            state,
                            symbol,
                            None,
                            received_at_ms,
                            None,
                            PayloadView::Candle(candle(row)),
                        ),
                    ],
                ),
            ),
        ),
{
    lemma_topic(name);
    reveal_strlit("code");
    reveal_strlit("msg");
    reveal_strlit("data");
    reveal_strlit("s");
    reveal_strlit("K");
    assert("code"@[0] == 'c' && "data"@[0] == 'd' && "msg"@[0] == 'm' && "s"@[0] == 's'
        && "K"@[0] == 'K');
    let each = LayoutView::Each(Box::new(json::flat("T,o,h,l,c,v"@, 6)));
    let legacy = json::arranged(root, bingx::legacy_layout());
    laws::lemma_nested_object(root, "code,msg,s,data"@, 4, "data"@, each, "data"@);
    assert(json::member_of(legacy, "data"@) == Some(data));
    let part = json::flat("t,T,o,h,l,c,v"@, 7);
    let inner = json::with_field(json::flat("s,K"@, 2), "K"@, part);
    let after = json::arranged(root, bingx::documented_layout());
    laws::lemma_nested_object(root, "code,msg,s,data"@, 4, "data"@, inner, "code"@);
    laws::lemma_nested_object(root, "code,msg,s,data"@, 4, "data"@, inner, "msg"@);
    laws::lemma_nested_object(root, "code,msg,s,data"@, 4, "data"@, inner, "s"@);
    laws::lemma_nested_object(root, "code,msg,s,data"@, 4, "data"@, inner, "data"@);
    laws::lemma_nested_object(data, "s,K"@, 2, "K"@, part, "s"@);
    laws::lemma_nested_object(data, "s,K"@, 2, "K"@, part, "K"@);
    laws::lemma_flat_object(item, "t,T,o,h,l,c,v"@, 7);
    let read = json::value_at(after, "data"@);
    assert(bingx::kline_message(root) == after);
    assert(says(read, "s"@, other));
    assert(json::member_of(read, "K"@) == Some(item));
    assert(read is Object);
    let items = bingx::kline_items(read);
    assert(items =~= seq![item]);
    assert(!bingx::is_legacy(read));
    assert forall|i: int| 0 <= i < items.len() implies bingx::kline_item_problem(
        bingx::is_legacy(read),
        #[trigger] items[i],
    ) is None by {}
    laws::lemma_no_complaint(
        items,
        |item: JsonView| bingx::kline_item_problem(bingx::is_legacy(read), item),
    );
    assert(bingx::kline_problem(after, name + "@kline_1m"@) is None);
    assert(bingx::kline_shape(after) is None);
    assert(bingx::kline_events(state, after, received_at_ms) =~= seq![
        event(state, symbol, None, received_at_ms, None, PayloadView::Candle(candle(row))),
    ]);
}

/// A list of candles is published in turn, each with the prices under its letters and its one time as
/// the start.
pub proof fn law_listed_candles_are_published(
    state: BingxView,
    text: Seq<char>,
    received_at_ms: u64,
    root: JsonView,
    items: Seq<JsonView>,
    name: Seq<char>,
    other: Seq<char>,
    symbol: Seq<char>,
    rows: Seq<Row>,
)
    requires
        is_message(text, root, name + "@kline_1m"@, JsonView::List(items)),
        says(root, "s"@, other),
        names_one(name, other, symbol),
        items.len() > 0,
        rows.len() == items.len(),
        forall|i: int|
            0 <= i < items.len() ==> has_row(#[trigger] items[i], rows[i]) && counts(
                items[i],
                "T"@,
                rows[i].start,
            ),
    ensures
        bingx::text_frame(state, text, received_at_ms) == (
            state,
            Ok::<FrameView, AdapterErrorView>(
                FrameView::Events(
                    Seq::new(
                        items.len(),
                        |i: int|
                            event(
                                state,
                                symbol,
                                None,
                                received_at_ms,
                                None,
                                PayloadView::Candle(candle(rows[i])),
                            ),
                    ),
                ),
            ),
        ),
{
    lemma_topic(name);
    reveal_strlit("code");
    reveal_strlit("msg");
    reveal_strlit("data");
    reveal_strlit("s");
    assert("code"@[0] == 'c' && "data"@[0] == 'd' && "msg"@[0] == 'm' && "s"@[0] == 's');
    let each = LayoutView::Each(Box::new(json::flat("T,o,h,l,c,v"@, 6)));
    let after = json::arranged(root, bingx::legacy_layout());
    laws::lemma_nested_object(root, "code,msg,s,data"@, 4, "data"@, each, "code"@);
    laws::lemma_nested_object(root, "code,msg,s,data"@, 4, "data"@, each, "msg"@);
    laws::lemma_nested_object(root, "code,msg,s,data"@, 4, "data"@, each, "s"@);
    laws::lemma_nested_object(root, "code,msg,s,data"@, 4, "data"@, each, "data"@);
    laws::lemma_flat_objects(items, "T,o,h,l,c,v"@, 6);
    let read = json::value_at(after, "data"@);
    assert(read == JsonView::List(items));
    assert forall|i: int| 0 <= i < items.len() implies bingx::legacy_shape(#[trigger] items[i])
        is None by {}
    laws::lemma_no_complaint(items, |item: JsonView| bingx::legacy_shape(item));
    assert(bingx::is_legacy(read));
    assert forall|i: int| 0 <= i < items.len() implies bingx::kline_item_problem(
        bingx::is_legacy(read),
        #[trigger] items[i],
    ) is None by {}
    laws::lemma_no_complaint(
        items,
        |item: JsonView| bingx::kline_item_problem(bingx::is_legacy(read), item),
    );
    assert(bingx::kline_problem(after, name + "@kline_1m"@) is None);
    assert(bingx::kline_shape(after) is None);
    let told = bingx::kline_events(state, after, received_at_ms);
    assert(told =~= Seq::new(
        items.len(),
        |i: int|
            event(
                state,
                symbol,
                None,
                received_at_ms,
                None,
                PayloadView::Candle(candle(rows[i])),
            ),
    )) by {
        assert forall|i: int| 0 <= i < items.len() implies #[trigger] bingx::kline_candle(
            true,
            items[i],
        ) == candle(rows[i]) by {
            assert(has_row(items[i], rows[i]));
        }
    }
}

// ---------------------------------------------------------------------------------------------
// Commands
// ---------------------------------------------------------------------------------------------

/// The topics of a key.
pub open spec fn topics_of(key: KeyView) -> Seq<Seq<char>> {
    match key.channel {
        Channel::Ticker => seq![
            key.symbol + "@ticker"@,
            key.symbol + "@markPrice"@,
            key.symbol + "@bookTicker"@,
        ],
        Channel::Candle1m => seq![key.symbol + "@kline_1m"@],
    }
}

/// Whether one of the keys has a topic.
pub open spec fn is_wanted(keys: Seq<KeyView>, topic: Seq<char>) -> bool {
    exists|i: int| 0 <= i < keys.len() && topics_of(#[trigger] keys[i]).contains(topic)
}

/// Whether a key is one that the venue takes: an upper-case base and quote with a hyphen between.
pub open spec fn is_taken(key: KeyView, base: Seq<char>, quote: Seq<char>) -> bool {
    &&& key.provider == Provider::Bingx
    &&& key.symbol == base + "-"@ + quote
    &&& base.len() > 0 && text::all_ascii_alphanumeric(base)
    &&& quote.len() > 0 && text::all_ascii_alphanumeric(quote)
    &&& domain::symbol_identity(key.symbol) == Ok::<Seq<char>, domain::DomainErrorView>(key.symbol)
}

/// Whether a key is one that the venue takes.
pub open spec fn takes(key: KeyView) -> bool {
    exists|base: Seq<char>, quote: Seq<char>| is_taken(key, base, quote)
}

proof fn lemma_taken(key: KeyView)
    requires
        takes(key),
    ensures
        bingx::symbol_fault(key.symbol) is None,
        key.provider == Provider::Bingx,
{
    let (base, quote) = choose|base: Seq<char>, quote: Seq<char>| is_taken(key, base, quote);
    let symbol = key.symbol;
    reveal_strlit("-");
    assert(symbol[base.len() as int] == '-');
    assert forall|i: int| 0 <= i < base.len() implies symbol[i] != '-' by {
        assert(text::is_ascii_alphanumeric(base[i]));
    }
    text::lemma_first_position(symbol, '-');
    text::lemma_first_position(quote, '-');
    assert(text::first_position(symbol, '-') == base.len());
    assert(symbol.take(base.len() as int) =~= base);
    assert(symbol.skip(base.len() as int + 1) =~= quote);
    let at = text::first_position(quote, '-');
    if at < quote.len() {
        assert(text::is_ascii_alphanumeric(quote[at]));
    }
    assert(text::pieces(quote, '-') =~= seq![quote]);
    assert(text::pieces(symbol, '-') =~= seq![base, quote]);
}

proof fn lemma_no_fault(keys: Seq<KeyView>)
    requires
        forall|i: int| 0 <= i < keys.len() ==> takes(#[trigger] keys[i]),
    ensures
        bingx::first_faulty(keys) == keys.len(),
    decreases keys.len(),
{
    if keys.len() > 0 {
        lemma_taken(keys[0]);
        assert forall|i: int| 0 <= i < keys.skip(1).len() implies takes(#[trigger] keys.skip(1)[i])
            by {
            assert(keys.skip(1)[i] == keys[i + 1]);
        }
        lemma_no_fault(keys.skip(1));
    }
}

proof fn lemma_sifted(items: Seq<Seq<char>>, others: Seq<Seq<char>>, among: bool, item: Seq<char>)
    ensures
        bingx::sifted(items, others, among).contains(item) == (items.contains(item)
            && others.contains(item) == among),
    decreases items.len(),
{
    if items.len() > 0 {
        let rest = items.drop_last();
        lemma_sifted(rest, others, among, item);
        laws::lemma_pushed(rest, items.last(), item);
        laws::lemma_pushed(bingx::sifted(rest, others, among), items.last(), item);
        assert(rest.push(items.last()) =~= items);
    }
}

proof fn lemma_wanted(keys: Seq<KeyView>, topic: Seq<char>)
    requires
        forall|i: int| 0 <= i < keys.len() ==> (#[trigger] keys[i]).provider == Provider::Bingx,
    ensures
        providers::gathered(keys).contains(topic) == is_wanted(keys, topic),
{
    laws::lemma_gathered(keys, topic);
    assert forall|i: int| 0 <= i < keys.len() implies providers::native_topics(#[trigger] keys[i])
        == topics_of(keys[i]) by {}
    if is_wanted(keys, topic) {
        let i = choose|i: int|
            0 <= i < keys.len() && topics_of(#[trigger] keys[i]).contains(topic);
        assert(providers::native_topics(keys[i]).contains(topic));
    }
    if laws::some_topic(keys, topic) {
        let i = choose|i: int|
            0 <= i < keys.len() && providers::native_topics(#[trigger] keys[i]).contains(topic);
        assert(topics_of(keys[i]).contains(topic));
    }
}

/// A change of subscriptions is asked for in one command for each topic that changes: when
/// subscribing, those of the keys that are not active; when unsubscribing, those that are. What is
/// active afterwards follows, and a change that would make more than two hundred active is refused.
pub proof fn law_commands_name_the_topics_of_the_keys(
    state: BingxView,
    action: SubscriptionAction,
    keys: Seq<KeyView>,
) -> (topics: Seq<Seq<char>>)
    requires
        forall|i: int| 0 <= i < keys.len() ==> takes(#[trigger] keys[i]),
        state.active.no_duplicates(),
    ensures
        ({
            let (after, outcome) = bingx::subscription_outcome(state, action, keys);
            let too_many = action == SubscriptionAction::Subscribe && state.active.len()
                + topics.len() > 200;
            &&& outcome is Err <==> too_many
            &&& too_many ==> after == state
            &&& outcome matches Ok(list) ==> {
                &&& list.len() == topics.len()
                &&& forall|i: int|
                    0 <= i < list.len() ==> (#[trigger] list[i]).expected_acknowledgements == 1
                        && list[i].text == json::text_of(
                        JsonView::Object(
                            seq![
                                ("dataType"@, JsonView::Text(topics[i])),
                                ("id"@, JsonView::Text(list[i].request_id)),
                                (
                                    "reqType"@,
                                    JsonView::Text(
                                        match action {
                                            SubscriptionAction::Subscribe => "sub"@,
                                            SubscriptionAction::Unsubscribe => "unsub"@,
                                        },
                                    ),
                                ),
                            ],
                        ),
                    )
                &&& forall|topic: Seq<char>| #[trigger]
                    after.active.contains(topic) <==> match action {
                        SubscriptionAction::Subscribe => state.active.contains(topic) || is_wanted(
                            keys,
                            topic,
                        ),
                        SubscriptionAction::Unsubscribe => state.active.contains(topic)
                            && !is_wanted(keys, topic),
                    }
            }
        }),
        topics.no_duplicates(),
        forall|topic: Seq<char>| #[trigger]
            topics.contains(topic) <==> is_wanted(keys, topic) && (state.active.contains(topic) == (
            action == SubscriptionAction::Unsubscribe)),
{
    lemma_no_fault(keys);
    assert forall|i: int| 0 <= i < keys.len() implies (#[trigger] keys[i]).provider
        == Provider::Bingx by {
        lemma_taken(keys[i]);
    }
    assert(!laws::has_foreign(Provider::Bingx, keys));
    laws::lemma_foreign(Provider::Bingx, keys);
    let all = providers::gathered(keys);
    let among = action == SubscriptionAction::Unsubscribe;
    let topics = bingx::changed_topics(state.active, action, keys);
    providers::lemma_gathered_once(keys);
    lemma_apart(all, state.active, among);
    assert forall|topic: Seq<char>| #[trigger]
        topics.contains(topic) <==> is_wanted(keys, topic) && (state.active.contains(topic)
            == among) by {
        lemma_sifted(all, state.active, among, topic);
        lemma_wanted(keys, topic);
    }
    let (after, outcome) = bingx::subscription_outcome(state, action, keys);
    if outcome is Ok {
        assert forall|topic: Seq<char>| #[trigger]
            after.active.contains(topic) <==> match action {
                SubscriptionAction::Subscribe => state.active.contains(topic) || is_wanted(
                    keys,
                    topic,
                ),
                SubscriptionAction::Unsubscribe => state.active.contains(topic) && !is_wanted(
                    keys,
                    topic,
                ),
            } by {
            lemma_wanted(keys, topic);
            assert(topics.contains(topic) <==> is_wanted(keys, topic) && (state.active.contains(
                topic,
            ) == among));
            lemma_sifted(state.active, all, false, topic);
            lemma_both(state.active, topics, topic);
        }
        let list = outcome->Ok_0;
        assert forall|i: int| 0 <= i < list.len() implies #[trigger] list[i] == bingx::command(
            action,
            topics[i],
            providers::id_after(state.common.next_request_id, i as nat),
        ) by {}
    }
    topics
}

proof fn lemma_both(list: Seq<Seq<char>>, other: Seq<Seq<char>>, item: Seq<char>)
    ensures
        (list + other).contains(item) == (list.contains(item) || other.contains(item)),
{
    let all = list + other;
    if list.contains(item) {
        let k = choose|k: int| 0 <= k < list.len() && list[k] == item;
        assert(all[k] == item);
    }
    if other.contains(item) {
        let k = choose|k: int| 0 <= k < other.len() && other[k] == item;
        assert(all[list.len() + k] == item);
    }
    if all.contains(item) {
        let k = choose|k: int| 0 <= k < all.len() && all[k] == item;
        if k < list.len() {
            assert(list[k] == item);
        } else {
            assert(other[k - list.len()] == item);
        }
    }
}

proof fn lemma_apart(items: Seq<Seq<char>>, others: Seq<Seq<char>>, among: bool)
    requires
        items.no_duplicates(),
    ensures
        bingx::sifted(items, others, among).no_duplicates(),
    decreases items.len(),
{
    if items.len() > 0 {
        let rest = items.drop_last();
        lemma_apart(rest, others, among);
        lemma_sifted(rest, others, among, items.last());
        if rest.contains(items.last()) {
            let k = choose|k: int| 0 <= k < rest.len() && rest[k] == items.last();
            assert(items[k] == items[items.len() - 1]);
        }
    }
}

/// What the venue says of a command is told under the identifier of the command: a code of zero
/// acknowledges it, any other refuses it. A ping is answered, and an answer to a ping is told.
pub proof fn law_answers_to_commands_are_told(
    state: BingxView,
    text: Seq<char>,
    received_at_ms: u64,
    root: JsonView,
    id: Seq<char>,
    code: i64,
)
    ensures
        text == "Ping"@ ==> bingx::text_frame(state, text, received_at_ms) == (
            state,
            Ok::<FrameView, AdapterErrorView>(FrameView::Reply(HeartbeatView::Text("Pong"@))),
        ),
        text == "Pong"@ ==> bingx::text_frame(state, text, received_at_ms) == (
            state,
            Ok::<FrameView, AdapterErrorView>(FrameView::Pong),
        ),
        text != "Ping"@ && text != "Pong"@ && json::document_of(text) == Ok::<JsonView, Seq<char>>(
            root,
        ) && root is Object && says(root, "id"@, id) && 0 < text::byte_length(id) <= 64
            && id.len() > 0 && tallies(root, "code"@, code) ==> {
            let outcome = bingx::text_frame(state, text, received_at_ms);
            &&& outcome.0 == state
            &&& code == 0 ==> outcome.1 == Ok::<FrameView, AdapterErrorView>(
                FrameView::Acknowledgement { request_id: id },
            )
            &&& code != 0 ==> laws::is_rejection(outcome.1, Provider::Bingx)
        },
{
    reveal_strlit("Ping");
    reveal_strlit("Pong");
    assert("Ping"@[1] == 'i' && "Pong"@[1] == 'o');
}

} // verus!
