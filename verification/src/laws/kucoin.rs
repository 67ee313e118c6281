//! What the messages of KuCoin mean, and which topics are asked of it.
use vstd::prelude::*;

use super::{in_some_part, says};
use crate::decimal;
use crate::domain;
use crate::domain::{
    CandleFinality, CandleView, Channel, DataQuality, KeyView, MarketKind, ObservedView,
    PayloadView, Provider, ProviderEventView, SequenceView, TickerView,
};
use crate::json;
use crate::json::JsonView;
use crate::laws;
use crate::providers;
use crate::providers::fields;
use crate::providers::kucoin;
use crate::providers::{
    AdapterErrorView, EndpointKind, FrameView, SessionView, SubscriptionAction,
};
use crate::text;

verus! {

/// Whether an object has a number of that name, as a number or as a text of digits.
pub open spec fn numbers(object: JsonView, name: Seq<char>, digits: Seq<char>, n: nat) -> bool {
    &&& digits.len() > 0
    &&& text::all_digits(digits)
    &&& text::digits_value(digits) == n
    &&& match json::member_of(object, name) {
        Some(JsonView::Text(text)) => text == digits,
        Some(JsonView::Number(number)) => number.text == digits,
        _ => false,
    }
}

/// Whether a value is a decimal with that spelling, as a text or as a number.
pub open spec fn is_spelled(value: JsonView, spelling: Seq<char>) -> bool {
    &&& spelling.len() > 0
    &&& decimal::decimal_of(spelling) is Some
    &&& match value {
        JsonView::Text(text) => text == spelling,
        JsonView::Number(number) => number.text == spelling,
        _ => false,
    }
}

/// Whether an object has a decimal of that name with that spelling.
pub open spec fn spells(object: JsonView, name: Seq<char>, spelling: Seq<char>) -> bool {
    json::member_of(object, name) matches Some(value) && is_spelled(value, spelling)
}

/// Whether an object has a decimal of that name whose spelling is kept: a text as it is, and a number
/// as it is spelled in the message.
pub open spec fn keeps_spelling(
    object: JsonView,
    name: Seq<char>,
    spelling: Seq<char>,
    text: Seq<char>,
) -> bool {
    &&& spelling.len() > 0
    &&& decimal::decimal_of(spelling) is Some
    &&& match json::member_of(object, name) {
        Some(JsonView::Text(written)) => written == spelling,
        Some(JsonView::Number(number)) => fields::raw_number(text, name) == Some(spelling),
        _ => false,
    }
}

/// Whether a text is a message with data under a topic.
pub open spec fn is_message(
    text: Seq<char>,
    root: JsonView,
    topic: Seq<char>,
    subject: Seq<char>,
    data: JsonView,
) -> bool {
    &&& json::document_of(text) == Ok::<JsonView, Seq<char>>(root)
    &&& root is Object
    &&& says(root, "type"@, "message"@)
    &&& says(root, "topic"@, topic)
    &&& says(root, "subject"@, subject)
    &&& json::member_of(root, "data"@) == Some(data)
    &&& data is Object
}

/// Whether a symbol is one of a USDT or USDC perpetual, and one symbol only.
pub open spec fn is_symbol(symbol: Seq<char>) -> bool {
    &&& text::finishes_with(symbol, "USDTM"@) || text::finishes_with(symbol, "USDCM"@)
    &&& !symbol.contains(',')
}

/// What is known of an instrument.
pub open spec fn known(state: SessionView, symbol: Seq<char>) -> TickerView {
    if state.tickers.contains_key(symbol) {
        state.tickers[symbol]
    } else {
        domain::empty_ticker()
    }
}

/// A price that was observed at a time.
pub open spec fn observed(text: Seq<char>, time: u64) -> Option<ObservedView> {
    Some(ObservedView { value: text, observed_at_ms: time })
}

/// The event of a ticker, and the session that keeps the ticker.
pub open spec fn publishes_ticker(
    state: SessionView,
    outcome: (SessionView, Result<FrameView, AdapterErrorView>),
    symbol: Seq<char>,
    time: u64,
    received_at_ms: u64,
    sequence: Option<Seq<char>>,
    ticker: TickerView,
) -> bool {
    &&& outcome.1 == Ok::<FrameView, AdapterErrorView>(
        FrameView::Events(
            seq![
                ProviderEventView {
                    connection_epoch: state.connection_epoch,
                    provider: Provider::Kucoin,
                    market: MarketKind::LinearPerpetual,
                    symbol,
                    exchange_time_ms: Some(time),
                    gateway_received_time_ms: received_at_ms,
                    source_sequence: match sequence {
                        Some(last) => Some(
                            SequenceView { first: None, last: Some(last), previous: None },
                        ),
                        None => None,
                    },
                    payload: PayloadView::Ticker(ticker),
                },
            ],
        ),
    )
    &&& outcome.0 == (SessionView { tickers: state.tickers.insert(symbol, ticker), ..state })
}

/// A text without a comma is one piece.
proof fn lemma_one_piece(symbol: Seq<char>)
    requires
        !symbol.contains(','),
    ensures
        text::pieces(symbol, ',') == seq![symbol],
        !text::holds(symbol, ','),
{
    text::lemma_first_position(symbol, ',');
    if text::holds(symbol, ',') {
        let i = choose|i: int| 0 <= i < symbol.len() && symbol[i] == ',';
        assert(symbol.contains(','));
    }
}

proof fn lemma_symbol(symbol: Seq<char>)
    requires
        is_symbol(symbol),
    ensures
        kucoin::is_linear(symbol),
        symbol.len() > 0,
{
    reveal_strlit("USDTM");
    reveal_strlit("USDCM");
}

pub proof fn lemma_topics()
    ensures
        "tickerV2"@ != "match"@,
        "mark.index.price"@ != "tickerV2"@,
        "mark.index.price"@ != "match"@,
        "funding.rate"@ != "tickerV2"@,
        "funding.rate"@ != "match"@,
        "funding.rate"@ != "mark.index.price"@,
        "candle.stick"@ != "tickerV2"@,
        "candle.stick"@ != "match"@,
        "candle.stick"@ != "mark.index.price"@,
        "candle.stick"@ != "funding.rate"@,
        "message"@ != "ack"@,
        "message"@ != "pong"@,
        "message"@ != "error"@,
        "/contractMarket/tickerV2:"@.len() == 25,
        "/contractMarket/tickerV2:"@[9] == 'M',
        "/contractMarket/tickerV2:"@[16] == 't',
        "/contractMarket/execution:"@.len() == 26,
        "/contractMarket/execution:"@[9] == 'M',
        "/contractMarket/execution:"@[16] == 'e',
        "/contractMarket/limitCandle:"@.len() == 28,
        "/contractMarket/limitCandle:"@[9] == 'M',
        "/contractMarket/limitCandle:"@[16] == 'l',
        "/contract/instrument:"@.len() == 21,
        "/contract/instrument:"@[9] == '/',
{
    reveal_strlit("tickerV2");
    reveal_strlit("match");
    reveal_strlit("mark.index.price");
    reveal_strlit("funding.rate");
    reveal_strlit("candle.stick");
    reveal_strlit("message");
    reveal_strlit("ack");
    reveal_strlit("pong");
    reveal_strlit("error");
    reveal_strlit("/contractMarket/tickerV2:");
    reveal_strlit("/contractMarket/execution:");
    reveal_strlit("/contractMarket/limitCandle:");
    reveal_strlit("/contract/instrument:");
    assert("tickerV2"@.len() == 8 && "match"@.len() == 5 && "mark.index.price"@.len() == 16);
    assert("funding.rate"@.len() == 12 && "candle.stick"@.len() == 12);
    assert("funding.rate"@[0] != "candle.stick"@[0]);
    assert("message"@.len() == 7 && "ack"@.len() == 3 && "pong"@.len() == 4);
    assert("error"@.len() == 5);
}

/// The best bid and ask of the book are published as they are spelled, at the time of the message,
/// which counts nanoseconds. Everything else that is known stays.
pub proof fn law_book_tops_are_published(
    state: SessionView,
    text: Seq<char>,
    received_at_ms: u64,
    root: JsonView,
    data: JsonView,
    symbol: Seq<char>,
    time_digits: Seq<char>,
    nanos: u64,
    sequence: Seq<char>,
    number: nat,
    bid: Seq<char>,
    ask: Seq<char>,
)
    requires
        is_message(text, root, "/contractMarket/tickerV2:"@ + symbol, "tickerV2"@, data),
        is_symbol(symbol),
        says(data, "symbol"@, symbol),
        numbers(data, "ts"@, time_digits, nanos as nat),
        spells(data, "bestBidPrice"@, bid),
        spells(data, "bestAskPrice"@, ask),
        numbers(root, "sn"@, sequence, number),
        numbers(data, "sequence"@, sequence, number),
    ensures
        publishes_ticker(
            state,
            kucoin::text_frame(state, text, received_at_ms),
            symbol,
            nanos / 1_000_000,
            received_at_ms,
            Some(sequence),
            TickerView {
                bid: observed(bid, nanos / 1_000_000),
                ask: observed(ask, nanos / 1_000_000),
                ..known(state, symbol)
            },
        ),
{
    lemma_topics();
    lemma_symbol(symbol);
    lemma_one_piece(symbol);
    laws::lemma_prefixed("/contractMarket/tickerV2:"@, symbol);
    assert(symbol + Seq::<char>::empty() =~= symbol);
    assert(seq![symbol][0] == symbol);
    assert(kucoin::quote_problem(kucoin::QuoteStream::TickerV2, root) is None);
    assert(kucoin::sequence_problem(root, data) is None);
}

/// A trade is published as the last price as it is spelled, at the time of the message, which counts
/// nanoseconds. Everything else that is known stays.
pub proof fn law_trades_are_published(
    state: SessionView,
    text: Seq<char>,
    received_at_ms: u64,
    root: JsonView,
    data: JsonView,
    symbol: Seq<char>,
    time_digits: Seq<char>,
    nanos: u64,
    sequence: Seq<char>,
    number: nat,
    price: Seq<char>,
)
    requires
        is_message(text, root, "/contractMarket/execution:"@ + symbol, "match"@, data),
        is_symbol(symbol),
        says(data, "symbol"@, symbol),
        numbers(data, "ts"@, time_digits, nanos as nat),
        spells(data, "price"@, price),
        numbers(root, "sn"@, sequence, number),
        numbers(data, "sequence"@, sequence, number),
    ensures
        publishes_ticker(
            state,
            kucoin::text_frame(state, text, received_at_ms),
            symbol,
            nanos / 1_000_000,
            received_at_ms,
            Some(sequence),
            TickerView { last: observed(price, nanos / 1_000_000), ..known(state, symbol) },
        ),
{
    lemma_topics();
    lemma_symbol(symbol);
    lemma_one_piece(symbol);
    laws::lemma_prefixed("/contractMarket/execution:"@, symbol);
    laws::lemma_other_prefix(
        "/contractMarket/execution:"@,
        symbol,
        "/contractMarket/tickerV2:"@,
        16,
    );
    assert(symbol + Seq::<char>::empty() =~= symbol);
    assert(seq![symbol][0] == symbol);
    assert(kucoin::quote_problem(kucoin::QuoteStream::Execution, root) is None);
    assert(kucoin::sequence_problem(root, data) is None);
}

/// Mark and index price are published as they are spelled, at the time of the message. Everything
/// else that is known stays.
pub proof fn law_mark_prices_are_published(
    state: SessionView,
    text: Seq<char>,
    received_at_ms: u64,
    root: JsonView,
    data: JsonView,
    symbol: Seq<char>,
    time_digits: Seq<char>,
    time: u64,
    mark: Seq<char>,
    index: Seq<char>,
)
    requires
        is_message(text, root, "/contract/instrument:"@ + symbol, "mark.index.price"@, data),
        is_symbol(symbol),
        numbers(data, "timestamp"@, time_digits, time as nat),
        keeps_spelling(data, "markPrice"@, mark, text),
        keeps_spelling(data, "indexPrice"@, index, text),
    ensures
        publishes_ticker(
            state,
            kucoin::text_frame(state, text, received_at_ms),
            symbol,
            time,
            received_at_ms,
            None,
            TickerView {
                mark: observed(mark, time),
                index: observed(index, time),
                ..known(state, symbol)
            },
        ),
{
    lemma_topics();
    lemma_symbol(symbol);
    lemma_one_piece(symbol);
    laws::lemma_prefixed("/contract/instrument:"@, symbol);
    laws::lemma_other_prefix("/contract/instrument:"@, symbol, "/contractMarket/tickerV2:"@, 9);
    laws::lemma_other_prefix("/contract/instrument:"@, symbol, "/contractMarket/execution:"@, 9);
    assert(kucoin::instrument_problem(kucoin::InstrumentStream::MarkIndex, root, text) is None);
}

/// The funding rate is published as it is spelled, at the time of the message. Everything else that
/// is known stays.
pub proof fn law_funding_rates_are_published(
    state: SessionView,
    text: Seq<char>,
    received_at_ms: u64,
    root: JsonView,
    data: JsonView,
    symbol: Seq<char>,
    time_digits: Seq<char>,
    time: u64,
    rate: Seq<char>,
)
    requires
        is_message(text, root, "/contract/instrument:"@ + symbol, "funding.rate"@, data),
        is_symbol(symbol),
        numbers(data, "timestamp"@, time_digits, time as nat),
        keeps_spelling(data, "fundingRate"@, rate, text),
    ensures
        publishes_ticker(
            state,
            kucoin::text_frame(state, text, received_at_ms),
            symbol,
            time,
            received_at_ms,
            None,
            TickerView { funding_rate: observed(rate, time), ..known(state, symbol) },
        ),
{
    lemma_topics();
    lemma_symbol(symbol);
    lemma_one_piece(symbol);
    laws::lemma_prefixed("/contract/instrument:"@, symbol);
    laws::lemma_other_prefix("/contract/instrument:"@, symbol, "/contractMarket/tickerV2:"@, 9);
    laws::lemma_other_prefix("/contract/instrument:"@, symbol, "/contractMarket/execution:"@, 9);
    assert(kucoin::instrument_problem(kucoin::InstrumentStream::Funding, root, text) is None);
}

/// A candle is published with the open, close, high and low price that stand at the second to fifth
/// place of its array. Its time counts seconds; no volume is told, and nothing of finality.
pub proof fn law_candles_are_published(
    state: SessionView,
    text: Seq<char>,
    received_at_ms: u64,
    root: JsonView,
    data: JsonView,
    symbol: Seq<char>,
    values: Seq<JsonView>,
    start_digits: Seq<char>,
    seconds: u64,
    time_digits: Seq<char>,
    time: u64,
    open: Seq<char>,
    close: Seq<char>,
    high: Seq<char>,
    low: Seq<char>,
)
    requires
        is_message(
            text,
            root,
            "/contractMarket/limitCandle:"@ + (symbol + "_1min"@),
            "candle.stick"@,
            data,
        ),
        is_symbol(symbol),
        says(data, "symbol"@, symbol),
        json::member_of(data, "candles"@) == Some(JsonView::List(values)),
        values.len() == 7,
        values[0] == JsonView::Text(start_digits),
        start_digits.len() > 0,
        text::all_digits(start_digits),
        text::digits_value(start_digits) == seconds,
        seconds * 1_000 + 60_000 <= u64::MAX,
        is_spelled(values[1], open),
        is_spelled(values[2], close),
        is_spelled(values[3], high),
        is_spelled(values[4], low),
        numbers(data, "time"@, time_digits, time as nat),
    ensures
        kucoin::text_frame(state, text, received_at_ms) == (
            state,
            Ok::<FrameView, AdapterErrorView>(
                FrameView::Events(
                    seq![
                        ProviderEventView {
                            connection_epoch: state.connection_epoch,
                            provider: Provider::Kucoin,
                            market: MarketKind::LinearPerpetual,
                            symbol,
                            exchange_time_ms: Some(time),
                            gateway_received_time_ms: received_at_ms,
                            source_sequence: None,
                            payload: PayloadView::Candle(
                                CandleView {
                                    interval: "1m"@,
                                    start_time_ms: (seconds * 1_000) as u64,
                                    end_time_ms: (seconds * 1_000 + 60_000) as u64,
                                    open,
                                    high,
                                    low,
                                    close,
                                    base_volume: None,
                                    quote_volume: None,
                                    contract_volume: None,
                                    finality: CandleFinality::Unknown,
                                    data_quality: seq![DataQuality::ProviderVolumeUntrusted],
                                },
                            ),
                        },
                    ],
                ),
            ),
        ),
{
    lemma_topics();
    lemma_symbol(symbol);
    reveal_strlit("_1min");
    let name = symbol + "_1min"@;
    assert(!name.contains(',')) by {
        if name.contains(',') {
            let i = choose|i: int| 0 <= i < name.len() && name[i] == ',';
            if i < symbol.len() {
                assert(symbol[i] == ',');
            }
        }
    }
    lemma_one_piece(name);
    let prefix = "/contractMarket/limitCandle:"@;
    laws::lemma_prefixed(prefix, name);
    laws::lemma_other_prefix(prefix, name, "/contractMarket/tickerV2:"@, 16);
    laws::lemma_other_prefix(prefix, name, "/contractMarket/execution:"@, 16);
    assert(seq![name][0] == name);
    assert(kucoin::candle_problem(root) is None);
}

// ---------------------------------------------------------------------------------------------
// Commands
// ---------------------------------------------------------------------------------------------

/// Whether one of the keys asks for a channel of a symbol.
pub open spec fn asks(keys: Seq<KeyView>, channel: Channel, symbol: Seq<char>) -> bool {
    exists|i: int|
        0 <= i < keys.len() && (#[trigger] keys[i]).channel == channel && keys[i].symbol == symbol
}

proof fn lemma_symbols(keys: Seq<KeyView>, channel: Channel, symbol: Seq<char>)
    ensures
        kucoin::symbols_of(keys, channel).contains(symbol) == asks(keys, channel, symbol),
    decreases keys.len(),
{
    if keys.len() > 0 {
        let rest = keys.drop_last();
        lemma_symbols(rest, channel, symbol);
        laws::lemma_pushed(kucoin::symbols_of(rest, channel), keys.last().symbol, symbol);
        assert(keys[keys.len() - 1] == keys.last());
        if asks(keys, channel, symbol) {
            let i = choose|i: int|
                0 <= i < keys.len() && (#[trigger] keys[i]).channel == channel && keys[i].symbol
                    == symbol;
            if i < rest.len() {
                assert(rest[i] == keys[i]);
            }
        }
        if asks(rest, channel, symbol) {
            let i = choose|i: int|
                0 <= i < rest.len() && (#[trigger] rest[i]).channel == channel && rest[i].symbol
                    == symbol;
            assert(keys[i] == rest[i]);
        }
    }
}

proof fn lemma_ticker_topics(symbols: Seq<Seq<char>>, i: int)
    requires
        0 <= i < symbols.len(),
    ensures
        kucoin::ticker_topics(symbols).len() == 3 * symbols.len(),
        kucoin::ticker_topics(symbols)[3 * i] == "/contractMarket/tickerV2:"@ + symbols[i],
        kucoin::ticker_topics(symbols)[3 * i + 1] == "/contractMarket/execution:"@ + symbols[i],
        kucoin::ticker_topics(symbols)[3 * i + 2] == "/contract/instrument:"@ + symbols[i],
    decreases symbols.len(),
{
    reveal_with_fuel(kucoin::ticker_topics, 2);
    let rest = symbols.drop_last();
    if rest.len() > 0 {
        lemma_ticker_topics(rest, if i < rest.len() {
            i
        } else {
            0
        });
    }
    if i < rest.len() {
        assert(rest[i] == symbols[i]);
    }
}

proof fn lemma_refusal(keys: Seq<KeyView>)
    requires
        forall|i: int| 0 <= i < keys.len() ==> kucoin::is_linear((#[trigger] keys[i]).symbol),
    ensures
        kucoin::symbol_refusal(keys) is None,
    decreases keys.len(),
{
    if keys.len() > 0 {
        lemma_refusal(keys.drop_last());
        assert(keys[keys.len() - 1] == keys.last());
    }
}

/// What the commands for a change of subscriptions name: the symbols of tickers, and groups of
/// symbols of candles.
pub struct Named {
    pub tickers: Seq<Seq<char>>,
    pub candles: Seq<Seq<Seq<char>>>,
}

/// The topic of a command at a place: three for each ticker (the top of the book, trades and the
/// instrument), and one for each group of candles.
pub open spec fn topic_at(named: Named, i: int) -> Seq<char> {
    if i < 3 * named.tickers.len() {
        let symbol = named.tickers[i / 3];
        if i % 3 == 0 {
            "/contractMarket/tickerV2:"@ + symbol
        } else if i % 3 == 1 {
            "/contractMarket/execution:"@ + symbol
        } else {
            "/contract/instrument:"@ + symbol
        }
    } else {
        let group = named.candles[i - 3 * named.tickers.len()];
        "/contractMarket/limitCandle:"@ + text::joined_with(
            Seq::new(group.len(), |k: int| group[k] + "_1min"@),
            ","@,
        )
    }
}

/// A change of subscriptions is asked for in one command for each topic. Together they name exactly
/// the instruments that the keys ask for.
pub proof fn law_commands_name_the_topics_of_the_keys(
    state: SessionView,
    action: SubscriptionAction,
    keys: Seq<KeyView>,
) -> (named: Named)
    requires
        forall|i: int|
            0 <= i < keys.len() ==> (#[trigger] keys[i]).provider == Provider::Kucoin && (
            text::finishes_with(keys[i].symbol, "USDTM"@) || text::finishes_with(
                keys[i].symbol,
                "USDCM"@,
            )),
    ensures
        kucoin::subscription_outcome(EndpointKind::Primary, state, action, keys).1 is Ok,
        ({
            let list = kucoin::subscription_outcome(
                EndpointKind::Primary,
                state,
                action,
                keys,
            ).1->Ok_0;
            &&& list.len() == 3 * named.tickers.len() + named.candles.len()
            &&& forall|i: int|
                0 <= i < list.len() ==> (#[trigger] list[i]).expected_acknowledgements == 1
                    && list[i].text == json::text_of(
                    JsonView::Object(
                        seq![
                            ("id"@, JsonView::Text(list[i].request_id)),
                            (
                                "type"@,
                                JsonView::Text(
                                    match action {
                                        SubscriptionAction::Subscribe => "subscribe"@,
                                        SubscriptionAction::Unsubscribe => "unsubscribe"@,
                                    },
                                ),
                            ),
                            ("topic"@, JsonView::Text(topic_at(named, i))),
                            ("privateChannel"@, JsonView::Bool(false)),
                            ("response"@, JsonView::Bool(true)),
                        ],
                    ),
                )
        }),
        forall|symbol: Seq<char>| #[trigger]
            named.tickers.contains(symbol) <==> asks(keys, Channel::Ticker, symbol),
        forall|symbol: Seq<char>| #[trigger]
            in_some_part(named.candles, symbol) <==> asks(keys, Channel::Candle1m, symbol),
        forall|i: int|
            0 <= i < named.candles.len() ==> 0 < (#[trigger] named.candles[i]).len() <= 100,
{
    assert(!laws::has_foreign(Provider::Kucoin, keys));
    laws::lemma_foreign(Provider::Kucoin, keys);
    lemma_refusal(keys);
    let tickers = kucoin::symbols_of(keys, Channel::Ticker);
    let symbols = kucoin::symbols_of(keys, Channel::Candle1m);
    let candles = providers::chunks(symbols, kucoin::TOPICS_PER_COMMAND as nat);
    providers::law_chunks_partition(symbols, kucoin::TOPICS_PER_COMMAND as nat);
    let named = Named { tickers, candles };
    assert forall|symbol: Seq<char>| #[trigger]
        named.tickers.contains(symbol) <==> asks(keys, Channel::Ticker, symbol) by {
        lemma_symbols(keys, Channel::Ticker, symbol);
    }
    assert forall|symbol: Seq<char>| #[trigger]
        in_some_part(named.candles, symbol) <==> asks(keys, Channel::Candle1m, symbol) by {
        laws::lemma_joined(candles, symbol);
        lemma_symbols(keys, Channel::Candle1m, symbol);
    }
    let topics = kucoin::topics_of(keys);
    if tickers.len() > 0 {
        lemma_ticker_topics(tickers, 0);
    }
    assert(topics.len() == 3 * tickers.len() + candles.len());
    assert forall|i: int| 0 <= i < topics.len() implies #[trigger] topics[i] == topic_at(
        named,
        i,
    ) by {
        if i < 3 * tickers.len() {
            lemma_ticker_topics(tickers, i / 3);
            assert(i == 3 * (i / 3) + i % 3);
        }
    }
    let list = kucoin::subscription_outcome(EndpointKind::Primary, state, action, keys).1->Ok_0;
    assert forall|i: int| 0 <= i < list.len() implies #[trigger] list[i] == kucoin::command(
        action,
        topic_at(named, i),
        providers::id_after(state.next_request_id, i as nat),
    ) by {
        assert(topics[i] == topic_at(named, i));
    }
    named
}

/// What the venue says of a command is told under the identifier of the command: an accepted one is
/// acknowledged, and an error is one. The answer to a sign of life is told as one.
pub proof fn law_answers_to_commands_are_told(
    state: SessionView,
    text: Seq<char>,
    received_at_ms: u64,
    root: JsonView,
    kind: Seq<char>,
    request_id: Seq<char>,
)
    requires
        json::document_of(text) == Ok::<JsonView, Seq<char>>(root),
        root is Object,
        says(root, "type"@, kind),
        says(root, "id"@, request_id),
        request_id.len() > 0,
        text::byte_length(request_id) <= 64,
    ensures
        kind == "ack"@ ==> kucoin::text_frame(state, text, received_at_ms) == (
            state,
            Ok::<FrameView, AdapterErrorView>(FrameView::Acknowledgement { request_id }),
        ),
        kind == "pong"@ ==> kucoin::text_frame(state, text, received_at_ms) == (
            state,
            Ok::<FrameView, AdapterErrorView>(FrameView::Pong),
        ),
        kind == "error"@ ==> laws::is_rejection(
            kucoin::text_frame(state, text, received_at_ms).1,
            Provider::Kucoin,
        ),
{
    reveal_strlit("ack");
    reveal_strlit("pong");
    reveal_strlit("error");
    assert("ack"@.len() != "pong"@.len());
    assert("ack"@.len() != "error"@.len());
    assert("pong"@.len() != "error"@.len());
}

} // verus!
