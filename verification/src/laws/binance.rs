//! What the messages of Binance mean, and which streams are asked of it.
use vstd::prelude::*;

use super::{counts, decimal_or_none, holds, in_some_part, offers, says, tallies};
use crate::decimal;
use crate::domain;
use crate::domain::{
    CandleFinality, CandleView, Channel, KeyView, MarketKind, ObservedView, PayloadView, Provider,
    ProviderEventView, SequenceView, TickerView,
};
use crate::json;
use crate::json::JsonView;
use crate::laws;
use crate::providers;
use crate::providers::binance;
use crate::providers::{AdapterErrorView, FrameView, SessionView, SubscriptionAction};
use crate::text;

verus! {

/// Whether a text is the document of an event, by itself or as the data of a combined stream, and
/// no answer to a command.
pub open spec fn is_event(text: Seq<char>, event: JsonView, stream: Option<Seq<char>>) -> bool {
    match json::document_of(text) {
        Ok(root) => {
            &&& root is Object
            &&& json::member_of(root, "code"@) is None
            &&& json::member_of(root, "error"@) is None
            &&& json::member_of(root, "result"@) is None
            &&& match stream {
                None => root == event && json::member_of(root, "stream"@) is None,
                Some(name) => says(root, "stream"@, name) && json::member_of(root, "data"@) == Some(
                    event,
                ),
            }
        },
        Err(_) => false,
    }
}

/// Whether a stream is the one of a symbol, but for the case of letters.
pub open spec fn is_stream(
    stream: Option<Seq<char>>,
    symbol: Seq<char>,
    suffix: Seq<char>,
) -> bool {
    stream matches Some(name) ==> text::lowered(name) == text::lowered(symbol) + text::lowered(
        suffix,
    )
}

/// Whether an event is of a USD-M instrument: it says so, or says nothing.
pub open spec fn is_usdm(event: JsonView) -> bool {
    match json::member_of(event, "st"@) {
        None | Some(JsonView::Null) => true,
        Some(_) => counts(event, "st"@, 1),
    }
}

/// What is known of an instrument.
pub open spec fn known(state: SessionView, symbol: Seq<char>) -> TickerView {
    if state.tickers.contains_key(symbol) {
        state.tickers[symbol]
    } else {
        domain::empty_ticker()
    }
}

/// A price that was observed at a time.
pub open spec fn observed(text: Seq<char>, time: u64) -> Option<ObservedView> {
    Some(ObservedView { value: text, observed_at_ms: time })
}

/// A price that was observed at a time, where there is one.
pub open spec fn observed_if(text: Option<Seq<char>>, time: u64) -> Option<ObservedView> {
    match text {
        Some(value) => observed(value, time),
        None => None,
    }
}

/// The event of a ticker, and the session that keeps the ticker.
pub open spec fn publishes_ticker(
    state: SessionView,
    outcome: (SessionView, Result<FrameView, AdapterErrorView>),
    symbol: Seq<char>,
    time: u64,
    received_at_ms: u64,
    sequence: Option<SequenceView>,
    ticker: TickerView,
) -> bool {
    &&& outcome.1 == Ok::<FrameView, AdapterErrorView>(
        FrameView::Events(
            seq![
                ProviderEventView {
                    connection_epoch: state.connection_epoch,
                    provider: Provider::Binance,
                    market: MarketKind::LinearPerpetual,
                    symbol,
                    exchange_time_ms: Some(time),
                    gateway_received_time_ms: received_at_ms,
                    source_sequence: sequence,
                    payload: PayloadView::Ticker(ticker),
                },
            ],
        ),
    )
    &&& outcome.0 == (SessionView { tickers: state.tickers.insert(symbol, ticker), ..state })
}

pub proof fn lemma_event(state: SessionView, text: Seq<char>, event: JsonView, stream: Option<Seq<char>>, received_at_ms: u64)
    requires
        is_event(text, event, stream),
    ensures
        binance::text_frame(state, text, received_at_ms) == providers::labelled(
            Provider::Binance,
            binance::event_frame(state, event, received_at_ms, stream),
        ),
{
}

/// A day ticker is published as the last price, the best bid and the best ask that it gives, at the
/// time of the event. What is known of mark and index price and of funding stays.
pub proof fn law_day_tickers_are_published(
    state: SessionView,
    text: Seq<char>,
    received_at_ms: u64,
    event: JsonView,
    stream: Option<Seq<char>>,
    name: Seq<char>,
    symbol: Seq<char>,
    time: u64,
    last: Seq<char>,
    bid: Option<Seq<char>>,
    ask: Option<Seq<char>>,
    first_trade: i64,
    last_trade: i64,
)
    requires
        is_event(text, event, stream),
        says(event, "e"@, "24hrTicker"@),
        counts(event, "E"@, time),
        says(event, "s"@, name),
        domain::symbol_identity(name) == Ok::<Seq<char>, domain::DomainErrorView>(symbol),
        is_stream(stream, symbol, "@ticker"@),
        says(event, "c"@, last),
        decimal::decimal_of(last) is Some,
        offers(event, "b"@, bid),
        offers(event, "a"@, ask),
        decimal_or_none(bid),
        decimal_or_none(ask),
        tallies(event, "F"@, first_trade),
        tallies(event, "L"@, last_trade),
        is_usdm(event),
    ensures
        publishes_ticker(
            state,
            binance::text_frame(state, text, received_at_ms),
            symbol,
            time,
            received_at_ms,
            Some(
                SequenceView {
                    first: Some(text::integer_text(first_trade as int)),
                    last: Some(text::integer_text(last_trade as int)),
                    previous: None,
                },
            ),
            TickerView {
                last: observed(last, time),
                bid: observed_if(bid, time),
                ask: observed_if(ask, time),
                ..known(state, symbol)
            },
        ),
{
    lemma_event(state, text, event, stream, received_at_ms);
    reveal_strlit("@ticker");
    reveal_strlit("@markPrice");
    assert("@ticker"@.len() != "@markPrice"@.len());
    assert(binance::ticker_problem(event, stream) is None);
}

/// A mark price is published with the index price, the funding rate and the time of the next funding
/// that come with it, at the time of the event. What is known of last price, bid and ask stays.
pub proof fn law_mark_prices_are_published(
    state: SessionView,
    text: Seq<char>,
    received_at_ms: u64,
    event: JsonView,
    stream: Option<Seq<char>>,
    name: Seq<char>,
    symbol: Seq<char>,
    time: u64,
    mark: Seq<char>,
    index: Seq<char>,
    rate: Seq<char>,
    funding_time: u64,
)
    requires
        is_event(text, event, stream),
        says(event, "e"@, "markPriceUpdate"@),
        counts(event, "E"@, time),
        says(event, "s"@, name),
        domain::symbol_identity(name) == Ok::<Seq<char>, domain::DomainErrorView>(symbol),
        is_stream(stream, symbol, "@markPrice"@) || stream == Some(
            text::lowered(symbol) + text::lowered("@markPrice"@) + "@1s"@,
        ) && text::lowered(stream->0) == stream->0,
        says(event, "p"@, mark),
        says(event, "i"@, index),
        says(event, "r"@, rate),
        counts(event, "T"@, funding_time),
        decimal::decimal_of(mark) is Some,
        decimal::decimal_of(index) is Some,
        decimal::decimal_of(rate) is Some,
        is_usdm(event),
    ensures
        publishes_ticker(
            state,
            binance::text_frame(state, text, received_at_ms),
            symbol,
            time,
            received_at_ms,
            None,
            TickerView {
                mark: observed(mark, time),
                index: observed(index, time),
                funding_rate: observed(rate, time),
                next_funding_time_ms: Some(funding_time),
                ..known(state, symbol)
            },
        ),
{
    lemma_event(state, text, event, stream, received_at_ms);
    reveal_strlit("24hrTicker");
    reveal_strlit("markPriceUpdate");
    assert("24hrTicker"@.len() != "markPriceUpdate"@.len());
    assert(binance::mark_problem(event, stream) is None);
}

/// A candle is published as it is written: its prices in their own places, the last millisecond
/// made the exclusive end, and closed exactly if the venue says so.
pub proof fn law_klines_are_published(
    state: SessionView,
    text: Seq<char>,
    received_at_ms: u64,
    event: JsonView,
    kline: JsonView,
    stream: Option<Seq<char>>,
    name: Seq<char>,
    inner_name: Seq<char>,
    symbol: Seq<char>,
    time: u64,
    start: u64,
    end: u64,
    open: Seq<char>,
    high: Seq<char>,
    low: Seq<char>,
    close: Seq<char>,
    base: Seq<char>,
    quote: Seq<char>,
    closed: bool,
    first_trade: i64,
    last_trade: i64,
)
    requires
        is_event(text, event, stream),
        event is Object,
        says(event, "e"@, "kline"@),
        counts(event, "E"@, time),
        says(event, "s"@, name),
        json::member_of(event, "k"@) == Some(kline),
        kline is Object,
        is_usdm(event),
        says(kline, "s"@, inner_name),
        domain::symbol_identity(name) == Ok::<Seq<char>, domain::DomainErrorView>(symbol),
        domain::symbol_identity(inner_name) == Ok::<Seq<char>, domain::DomainErrorView>(symbol),
        is_stream(stream, symbol, "@kline_1m"@),
        says(kline, "i"@, "1m"@),
        counts(kline, "t"@, start),
        counts(kline, "T"@, end),
        end < u64::MAX,
        tallies(kline, "f"@, first_trade),
        tallies(kline, "L"@, last_trade),
        says(kline, "o"@, open),
        says(kline, "h"@, high),
        says(kline, "l"@, low),
        says(kline, "c"@, close),
        says(kline, "v"@, base),
        says(kline, "q"@, quote),
        holds(kline, "x"@, closed),
        decimal::decimal_of(open) is Some,
        decimal::decimal_of(high) is Some,
        decimal::decimal_of(low) is Some,
        decimal::decimal_of(close) is Some,
        decimal::decimal_of(base) is Some,
        decimal::decimal_of(quote) is Some,
    ensures
        binance::text_frame(state, text, received_at_ms) == (
            state,
            Ok::<FrameView, AdapterErrorView>(
                FrameView::Events(
                    seq![
                        ProviderEventView {
                            connection_epoch: state.connection_epoch,
                            provider: Provider::Binance,
                            market: MarketKind::LinearPerpetual,
                            symbol,
                            exchange_time_ms: Some(time),
                            gateway_received_time_ms: received_at_ms,
                            source_sequence: Some(
                                SequenceView {
                                    first: Some(text::integer_text(first_trade as int)),
                                    last: Some(text::integer_text(last_trade as int)),
                                    previous: None,
                                },
                            ),
                            payload: PayloadView::Candle(
                                CandleView {
                                    interval: "1m"@,
                                    start_time_ms: start,
                                    end_time_ms: (end + 1) as u64,
                                    open,
                                    high,
                                    low,
                                    close,
                                    base_volume: Some(base),
                                    quote_volume: Some(quote),
                                    contract_volume: None,
                                    finality: if closed {
                                        CandleFinality::Closed
                                    } else {
                                        CandleFinality::Open
                                    },
                                    data_quality: Seq::empty(),
                                },
                            ),
                        },
                    ],
                ),
            ),
        ),
{
    lemma_event(state, text, event, stream, received_at_ms);
    reveal_strlit("24hrTicker");
    reveal_strlit("markPriceUpdate");
    reveal_strlit("kline");
    reveal_strlit("@kline_1m");
    reveal_strlit("@markPrice");
    assert("kline"@.len() != "markPriceUpdate"@.len());
    assert("kline"@.len() != "24hrTicker"@.len());
    assert("@kline_1m"@.len() != "@markPrice"@.len());
    reveal_strlit("E");
    reveal_strlit("s");
    reveal_strlit("k");
    reveal_strlit("st");
    assert("E"@[0] != "k"@[0]);
    assert("s"@[0] != "k"@[0]);
    assert("st"@.len() != "k"@.len());
    let inner = json::flat("t,T,s,i,f,L,o,c,h,l,v,q,x"@, 13);
    let value = json::arranged(event, binance::kline_layout());
    assert(binance::kline_layout() == json::with_field(json::flat("E,s,k,st"@, 4), "k"@, inner));
    laws::lemma_nested_object(event, "E,s,k,st"@, 4, "k"@, inner, "E"@);
    laws::lemma_nested_object(event, "E,s,k,st"@, 4, "k"@, inner, "s"@);
    laws::lemma_nested_object(event, "E,s,k,st"@, 4, "k"@, inner, "st"@);
    laws::lemma_flat_object(kline, "t,T,s,i,f,L,o,c,h,l,v,q,x"@, 13);
    assert(json::member_of(value, "k"@) == Some(kline));
    assert(binance::kline_shape(kline) is None);
    assert(binance::kline_envelope_shape(value) is None);
    assert(binance::kline_prices_problem(kline) is None);
    assert(binance::kline_problem(value, stream) is None);
}

/// The streams of a key.
pub open spec fn streams_of(key: KeyView) -> Seq<Seq<char>> {
    match key.channel {
        Channel::Ticker => seq![
            text::lowered(key.symbol) + "@ticker"@,
            text::lowered(key.symbol) + "@markPrice@1s"@,
        ],
        Channel::Candle1m => seq![text::lowered(key.symbol) + "@kline_1m"@],
    }
}

/// Whether one of the keys is served by a stream.
pub open spec fn is_wanted(keys: Seq<KeyView>, stream: Seq<char>) -> bool {
    exists|i: int| 0 <= i < keys.len() && streams_of(#[trigger] keys[i]).contains(stream)
}

/// A change of subscriptions is asked for in commands that together name every stream of every key
/// and no other stream, once each. A key of another venue is refused, and nothing changes.
pub proof fn law_commands_name_the_streams_of_the_keys(
    state: SessionView,
    action: SubscriptionAction,
    keys: Seq<KeyView>,
) -> (parts: Seq<Seq<Seq<char>>>)
    ensures
        laws::has_foreign(Provider::Binance, keys) ==> {
            &&& binance::subscription_outcome(state, action, keys).0 == state
            &&& binance::subscription_outcome(state, action, keys).1 is Err
        },
        !laws::has_foreign(Provider::Binance, keys) ==> {
            &&& binance::subscription_outcome(state, action, keys).1 is Ok
            &&& ({
                let list = binance::subscription_outcome(state, action, keys).1->Ok_0;
                &&& list.len() == parts.len()
                &&& forall|i: int|
                    0 <= i < list.len() ==> {
                        let id = providers::id_after(state.next_request_id, i as nat);
                        &&& (#[trigger] list[i]).request_id == text::digits(id as nat)
                        &&& list[i].text == json::text_of(
                            JsonView::Object(
                                seq![
                                    ("id"@, json::unsigned_document(id)),
                                    (
                                        "method"@,
                                        JsonView::Text(
                                            match action {
                                                SubscriptionAction::Subscribe => "SUBSCRIBE"@,
                                                SubscriptionAction::Unsubscribe => "UNSUBSCRIBE"@,
                                            },
                                        ),
                                    ),
                                    (
                                        "params"@,
                                        JsonView::List(
                                            Seq::new(
                                                parts[i].len(),
                                                |k: int| JsonView::Text(parts[i][k]),
                                            ),
                                        ),
                                    ),
                                ],
                            ),
                        )
                        &&& list[i].expected_acknowledgements == 1
                        &&& 0 < parts[i].len() <= 200
                    }
            })
        },
        !laws::has_foreign(Provider::Binance, keys) ==> forall|stream: Seq<char>| #[trigger]
            in_some_part(parts, stream) <==> is_wanted(keys, stream),
        !laws::has_foreign(Provider::Binance, keys) ==> providers::joined(parts).no_duplicates(),
{
    laws::lemma_foreign(Provider::Binance, keys);
    let topics = providers::gathered(keys);
    let parts = providers::chunks(topics, binance::MAX_STREAMS_PER_COMMAND as nat);
    if !laws::has_foreign(Provider::Binance, keys) {
        providers::law_chunks_partition(topics, binance::MAX_STREAMS_PER_COMMAND as nat);
        providers::lemma_gathered_once(keys);
        assert forall|i: int| 0 <= i < keys.len() implies providers::native_topics(
            #[trigger] keys[i],
        ) == streams_of(keys[i]) by {
            assert(keys[i].provider == Provider::Binance);
        }
        assert forall|stream: Seq<char>| #[trigger]
            in_some_part(parts, stream) <==> is_wanted(keys, stream) by {
            laws::lemma_joined(parts, stream);
            laws::lemma_gathered(keys, stream);
            if is_wanted(keys, stream) {
                let i = choose|i: int|
                    0 <= i < keys.len() && streams_of(#[trigger] keys[i]).contains(stream);
                assert(providers::native_topics(keys[i]).contains(stream));
            }
            if laws::some_topic(keys, stream) {
                let i = choose|i: int|
                    0 <= i < keys.len() && providers::native_topics(#[trigger] keys[i]).contains(
                        stream,
                    );
                assert(streams_of(keys[i]).contains(stream));
            }
        }
        let list = binance::subscription_outcome(state, action, keys).1->Ok_0;
        assert forall|i: int| 0 <= i < list.len() implies 0 < (#[trigger] parts[i]).len()
            <= 200 && list[i] == binance::command(
            action,
            parts[i],
            providers::id_after(state.next_request_id, i as nat),
        ) by {}
    }
    parts
}

/// What the venue says of a command is told under the number of the command: an empty result
/// acknowledges it, an error refuses it.
pub proof fn law_answers_to_commands_are_told(
    state: SessionView,
    text: Seq<char>,
    received_at_ms: u64,
    root: JsonView,
    id: json::NumberView,
)
    requires
        json::document_of(text) == Ok::<JsonView, Seq<char>>(root),
        root is Object,
        json::member_of(root, "id"@) == Some(JsonView::Number(id)),
        id.unsigned is Some,
    ensures
        json::member_of(root, "code"@) is None && json::member_of(root, "error"@) is None
            && json::member_of(root, "result"@) == Some(JsonView::Null) ==> binance::text_frame(
            state,
            text,
            received_at_ms,
        ) == (
            state,
            Ok::<FrameView, AdapterErrorView>(
                FrameView::Acknowledgement { request_id: id.text },
            ),
        ),
        json::member_of(root, "code"@) is Some || json::member_of(root, "error"@) is Some
            ==> laws::is_rejection(
            binance::text_frame(state, text, received_at_ms).1,
            Provider::Binance,
        ) && binance::text_frame(state, text, received_at_ms).0 == state,
{
}

} // verus!
