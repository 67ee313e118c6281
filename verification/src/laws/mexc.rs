//! What the messages of MEXC mean, and which streams are asked of it.
use vstd::prelude::*;

use super::kucoin::keeps_spelling;
use super::says;
use crate::decimal;
use crate::domain;
use crate::domain::{
    CandleFinality, CandleView, Channel, KeyView, MarketKind, ObservedView, PayloadView, Provider,
    ProviderEventView, TickerView,
};
use crate::json;
use crate::json::JsonView;
use crate::laws;
use crate::providers;
use crate::providers::fields;
use crate::providers::mexc;
use crate::providers::mexc::{MexcView, NativeStream, PendingView};
use crate::providers::{AdapterErrorView, EndpointKind, FrameView, SubscriptionAction};
use crate::text;

verus! {

/// Whether an object has a number of that name, as a number or as a text of digits.
pub open spec fn numbers(object: JsonView, name: Seq<char>, n: u64) -> bool {
    match json::member_of(object, name) {
        Some(JsonView::Number(number)) => number.unsigned == Some(n),
        Some(JsonView::Text(digits)) => digits.len() > 0 && text::all_digits(digits)
            && text::digits_value(digits) == n,
        _ => false,
    }
}

/// Whether a symbol is one of a USDT perpetual.
pub open spec fn is_symbol(symbol: Seq<char>, base: Seq<char>) -> bool {
    &&& symbol == base + "_USDT"@
    &&& base.len() > 0
    &&& text::all_ascii_alphanumeric(base)
}

/// Whether a text is a message of a channel with the data of an instrument.
pub open spec fn is_message(
    text: Seq<char>,
    root: JsonView,
    channel: Seq<char>,
    data: JsonView,
    name: Seq<char>,
    base: Seq<char>,
    symbol: Seq<char>,
) -> bool {
    &&& json::document_of(text) == Ok::<JsonView, Seq<char>>(root)
    &&& root is Object
    &&& says(root, "channel"@, channel)
    &&& says(root, "symbol"@, name)
    &&& json::member_of(root, "data"@) == Some(data)
    &&& data is Object
    &&& says(data, "symbol"@, name)
    &&& is_symbol(name, base)
    &&& domain::symbol_identity(name) == Ok::<Seq<char>, domain::DomainErrorView>(symbol)
}

/// Whether an object offers a decimal of that name with that spelling, or nothing.
pub open spec fn may_spell(
    object: JsonView,
    name: Seq<char>,
    spelling: Option<Seq<char>>,
    text: Seq<char>,
) -> bool {
    match spelling {
        Some(spelling) => keeps_spelling(object, name, spelling, text),
        None => match json::member_of(object, name) {
            None => true,
            Some(value) => value == JsonView::Null || value == JsonView::Text(Seq::empty()),
        },
    }
}

/// What is known of an instrument.
pub open spec fn known(state: MexcView, symbol: Seq<char>) -> TickerView {
    if state.common.tickers.contains_key(symbol) {
        state.common.tickers[symbol]
    } else {
        domain::empty_ticker()
    }
}

/// The event of an update.
pub open spec fn event(
    state: MexcView,
    symbol: Seq<char>,
    time: Option<u64>,
    received_at_ms: u64,
    payload: PayloadView,
) -> ProviderEventView {
    ProviderEventView {
        connection_epoch: state.common.connection_epoch,
        provider: Provider::Mexc,
        market: MarketKind::LinearPerpetual,
        symbol,
        exchange_time_ms: time,
        gateway_received_time_ms: received_at_ms,
        source_sequence: None,
        payload,
    }
}

/// The session once a ticker is kept.
pub open spec fn keeps(
    state: MexcView,
    after: MexcView,
    symbol: Seq<char>,
    ticker: TickerView,
) -> bool {
    &&& after.pending == state.pending
    &&& after.common.connection_epoch == state.common.connection_epoch
    &&& after.common.next_request_id == state.common.next_request_id
    &&& after.common.tickers == state.common.tickers.insert(symbol, ticker)
}

/// The prices of a ticker message, as far as it offers them.
pub struct Offer {
    pub last: Option<Seq<char>>,
    pub fair: Option<Seq<char>>,
    pub index: Option<Seq<char>>,
    pub bid: Option<Seq<char>>,
    pub ask: Option<Seq<char>>,
    pub funding_rate: Option<Seq<char>>,
}

proof fn lemma_kept(object: JsonView, name: Seq<char>, spelling: Option<Seq<char>>, text: Seq<char>)
    requires
        may_spell(object, name, spelling, text),
    ensures
        mexc::update_problem(object, name, text) is None,
        forall|kept: Option<ObservedView>, time: u64| #[trigger]
            mexc::updated(kept, object, name, time, text) == laws::latest(spelling, time, kept),
{
}

proof fn lemma_identity(name: Seq<char>, base: Seq<char>)
    requires
        is_symbol(name, base),
    ensures
        mexc::symbol_fault(name) is None,
        name.len() > 0,
{
    laws::lemma_suffixed(base, "_USDT"@);
}

proof fn lemma_channels()
    ensures
        "push.ticker"@.len() > 0,
        "push.funding.rate"@.len() > 0,
        "push.kline"@.len() > 0,
        "push.ticker"@ != "pong"@,
        "push.ticker"@ != "rs.error"@,
        "push.funding.rate"@ != "pong"@,
        "push.funding.rate"@ != "rs.error"@,
        "push.funding.rate"@ != "push.ticker"@,
        "push.kline"@ != "pong"@,
        "push.kline"@ != "rs.error"@,
        "push.kline"@ != "push.ticker"@,
        "push.kline"@ != "push.funding.rate"@,
        !text::begins_with("push.ticker"@, "rs.sub."@),
        !text::begins_with("push.ticker"@, "rs.unsub."@),
        !text::begins_with("push.funding.rate"@, "rs.sub."@),
        !text::begins_with("push.funding.rate"@, "rs.unsub."@),
        !text::begins_with("push.kline"@, "rs.sub."@),
        !text::begins_with("push.kline"@, "rs.unsub."@),
{
    reveal_strlit("push.ticker");
    reveal_strlit("push.funding.rate");
    reveal_strlit("push.kline");
    reveal_strlit("pong");
    reveal_strlit("rs.error");
    reveal_strlit("rs.sub.");
    reveal_strlit("rs.unsub.");
    assert("push.ticker"@.len() == 11 && "push.funding.rate"@.len() == 17);
    assert("push.kline"@.len() == 10 && "pong"@.len() == 4 && "rs.error"@.len() == 8);
    assert("push.ticker"@.take(7)[0] == 'p' && "push.ticker"@.take(9)[0] == 'p');
    assert("push.funding.rate"@.take(7)[0] == 'p' && "push.funding.rate"@.take(9)[0] == 'p');
    assert("push.kline"@.take(7)[0] == 'p' && "push.kline"@.take(9)[0] == 'p');
    assert("rs.sub."@[0] == 'r' && "rs.unsub."@[0] == 'r');
}

/// A ticker message is published: each price that it offers as it is spelled, in its own place and
/// at the time of the message, and else what was known before. The fair price is the mark price.
pub proof fn law_tickers_are_published(
    state: MexcView,
    text: Seq<char>,
    received_at_ms: u64,
    root: JsonView,
    data: JsonView,
    name: Seq<char>,
    base: Seq<char>,
    symbol: Seq<char>,
    time: u64,
    offer: Offer,
)
    requires
        is_message(text, root, "push.ticker"@, data, name, base, symbol),
        numbers(data, "timestamp"@, time),
        may_spell(data, "lastPrice"@, offer.last, text),
        may_spell(data, "fairPrice"@, offer.fair, text),
        may_spell(data, "indexPrice"@, offer.index, text),
        may_spell(data, "bid1"@, offer.bid, text),
        may_spell(data, "ask1"@, offer.ask, text),
        may_spell(data, "fundingRate"@, offer.funding_rate, text),
        offer.last is Some || offer.fair is Some || offer.index is Some || offer.bid is Some
            || offer.ask is Some,
    ensures
        ({
            let before = known(state, symbol);
            let ticker = TickerView {
                last: laws::latest(offer.last, time, before.last),
                mark: laws::latest(offer.fair, time, before.mark),
                index: laws::latest(offer.index, time, before.index),
                bid: laws::latest(offer.bid, time, before.bid),
                ask: laws::latest(offer.ask, time, before.ask),
                funding_rate: laws::latest(offer.funding_rate, time, before.funding_rate),
                next_funding_time_ms: before.next_funding_time_ms,
            };
            let (after, outcome) = mexc::text_frame(state, text, received_at_ms);
            &&& outcome == Ok::<FrameView, AdapterErrorView>(
                FrameView::Events(
                    seq![
                        event(
                            state,
                            symbol,
                            Some(time),
                            received_at_ms,
                            PayloadView::Ticker(ticker),
                        ),
                    ],
                ),
            )
            &&& keeps(state, after, symbol, ticker)
        }),
{
    lemma_channels();
    lemma_identity(name, base);
    lemma_kept(data, "lastPrice"@, offer.last, text);
    lemma_kept(data, "fairPrice"@, offer.fair, text);
    lemma_kept(data, "indexPrice"@, offer.index, text);
    lemma_kept(data, "bid1"@, offer.bid, text);
    lemma_kept(data, "ask1"@, offer.ask, text);
    lemma_kept(data, "fundingRate"@, offer.funding_rate, text);
    assert(mexc::ticker_problem(root, text) is None);
}

/// A funding message sets the funding rate as it is spelled, at the time of the message, and the
/// time of the next settlement. It is published once a price of the instrument is known.
pub proof fn law_funding_rates_are_published(
    state: MexcView,
    text: Seq<char>,
    received_at_ms: u64,
    root: JsonView,
    data: JsonView,
    name: Seq<char>,
    base: Seq<char>,
    symbol: Seq<char>,
    time: u64,
    rate: Seq<char>,
    next: u64,
)
    requires
        is_message(text, root, "push.funding.rate"@, data, name, base, symbol),
        numbers(root, "ts"@, time),
        keeps_spelling(data, "rate"@, rate, text) || (json::member_of(data, "rate"@) is None
            && keeps_spelling(data, "fundingRate"@, rate, text)),
        numbers(data, "nextSettleTime"@, next),
    ensures
        ({
            let before = known(state, symbol);
            let ticker = TickerView {
                funding_rate: Some(ObservedView { value: rate, observed_at_ms: time }),
                next_funding_time_ms: Some(next),
                ..before
            };
            let (after, outcome) = mexc::text_frame(state, text, received_at_ms);
            &&& outcome == Ok::<FrameView, AdapterErrorView>(
                FrameView::Events(
                    if before.last is Some || before.mark is Some || before.index is Some
                        || before.bid is Some || before.ask is Some {
                        seq![
                            event(
                                state,
                                symbol,
                                Some(time),
                                received_at_ms,
                                PayloadView::Ticker(ticker),
                            ),
                        ]
                    } else {
                        Seq::empty()
                    },
                ),
            )
            &&& keeps(state, after, symbol, ticker)
        }),
{
    lemma_channels();
    lemma_identity(name, base);
    assert(mexc::funding_problem(root, text) is None);
}

/// Whether an object has a decimal of that name, with or without an exponent, that comes to a plain
/// text.
pub open spec fn is_plainly(
    object: JsonView,
    name: Seq<char>,
    plain: Seq<char>,
    text: Seq<char>,
) -> bool {
    &&& decimal::decimal_of(plain) is Some
    &&& exists|spelling: Seq<char>| #[trigger]
        is_written(object, name, spelling, text) && if spelling.contains('e') || spelling.contains(
            'E',
        ) {
            decimal::scientific_of(spelling) matches Some(parsed) && parsed.text == plain
        } else {
            spelling == plain
        }
}

/// Whether an object has a value of that name with that spelling: a text as it is, and a number as
/// it is spelled in the message.
pub open spec fn is_written(
    object: JsonView,
    name: Seq<char>,
    spelling: Seq<char>,
    text: Seq<char>,
) -> bool {
    match json::member_of(object, name) {
        Some(JsonView::Text(written)) => written == spelling && spelling.len() > 0,
        Some(JsonView::Number(number)) => fields::raw_number(text, name) == Some(spelling),
        _ => false,
    }
}

proof fn lemma_plain(object: JsonView, name: Seq<char>, plain: Seq<char>, text: Seq<char>)
    requires
        is_plainly(object, name, plain, text),
    ensures
        mexc::price_problem(object, name, text) is None,
        mexc::volume_problem(object, name, text) is None,
        mexc::decimal_of(json::value_at(object, name), name, text) == plain,
        mexc::volume_of(object, name, text) == Some(plain),
{
    let spelling = choose|spelling: Seq<char>| #[trigger]
        is_written(object, name, spelling, text) && if spelling.contains('e') || spelling.contains(
            'E',
        ) {
            decimal::scientific_of(spelling) matches Some(parsed) && parsed.text == plain
        } else {
            spelling == plain
        };
    assert(text::holds(spelling, 'e') == spelling.contains('e'));
    assert(text::holds(spelling, 'E') == spelling.contains('E'));
    assert(fields::exact(json::value_at(object, name), name, Some(text)) == spelling);
}

/// A candle is published with the prices under its letters, the amount as the quote volume and the
/// quantity as the volume in contracts. Its time counts seconds, and nothing is told of finality.
pub proof fn law_candles_are_published(
    state: MexcView,
    text: Seq<char>,
    received_at_ms: u64,
    root: JsonView,
    data: JsonView,
    name: Seq<char>,
    base: Seq<char>,
    symbol: Seq<char>,
    time: u64,
    seconds: u64,
    open: Seq<char>,
    high: Seq<char>,
    low: Seq<char>,
    close: Seq<char>,
    amount: Seq<char>,
    quantity: Seq<char>,
)
    requires
        is_message(text, root, "push.kline"@, data, name, base, symbol),
        says(data, "interval"@, "Min1"@),
        numbers(root, "ts"@, time),
        numbers(data, "t"@, seconds),
        seconds * 1_000 + 60_000 <= u64::MAX,
        is_plainly(data, "o"@, open, text),
        is_plainly(data, "h"@, high, text),
        is_plainly(data, "l"@, low, text),
        is_plainly(data, "c"@, close, text),
        is_plainly(data, "a"@, amount, text),
        is_plainly(data, "q"@, quantity, text),
    ensures
        mexc::text_frame(state, text, received_at_ms) == (
            state,
            Ok::<FrameView, AdapterErrorView>(
                FrameView::Events(
                    seq![
                        event(
                            state,
                            symbol,
                            Some(time),
                            received_at_ms,
                            PayloadView::Candle(
                                CandleView {
                                    interval: "1m"@,
                                    start_time_ms: (seconds * 1_000) as u64,
                                    end_time_ms: (seconds * 1_000 + 60_000) as u64,
                                    open,
                                    high,
                                    low,
                                    close,
                                    base_volume: None,
                                    quote_volume: Some(amount),
                                    contract_volume: Some(quantity),
                                    finality: CandleFinality::Unknown,
                                    data_quality: Seq::empty(),
                                },
                            ),
                        ),
                    ],
                ),
            ),
        ),
{
    lemma_channels();
    lemma_identity(name, base);
    reveal_strlit("Min1");
    lemma_plain(data, "o"@, open, text);
    lemma_plain(data, "h"@, high, text);
    lemma_plain(data, "l"@, low, text);
    lemma_plain(data, "c"@, close, text);
    lemma_plain(data, "a"@, amount, text);
    lemma_plain(data, "q"@, quantity, text);
    assert(mexc::candle_problem(root, text) is None);
}

// ---------------------------------------------------------------------------------------------
// Commands
// ---------------------------------------------------------------------------------------------

/// The native streams of a kind of update.
pub open spec fn native_names(channel: Channel) -> Seq<Seq<char>> {
    match channel {
        Channel::Ticker => seq!["ticker"@, "funding.rate"@],
        Channel::Candle1m => seq!["kline"@],
    }
}

/// Whether one of the keys is served by a native stream of an instrument.
pub open spec fn is_wanted(keys: Seq<KeyView>, stream: (Seq<char>, Seq<char>)) -> bool {
    exists|i: int|
        0 <= i < keys.len() && (#[trigger] keys[i]).symbol == stream.1 && native_names(
            keys[i].channel,
        ).contains(stream.0)
}

/// The names of native streams.
pub open spec fn names(list: Seq<(NativeStream, Seq<char>)>) -> Seq<(Seq<char>, Seq<char>)> {
    Seq::new(list.len(), |i: int| (mexc::stream_name(list[i].0), list[i].1))
}

proof fn lemma_stream_names(a: NativeStream, b: NativeStream)
    ensures
        (mexc::stream_name(a) == mexc::stream_name(b)) == (a == b),
{
    reveal_strlit("ticker");
    reveal_strlit("funding.rate");
    reveal_strlit("kline");
    assert("ticker"@.len() == 6 && "funding.rate"@.len() == 12 && "kline"@.len() == 5);
}

proof fn lemma_natives(keys: Seq<KeyView>, stream: NativeStream, symbol: Seq<char>)
    ensures
        mexc::natives(keys).contains((stream, symbol)) == is_wanted(
            keys,
            (mexc::stream_name(stream), symbol),
        ),
    decreases keys.len(),
{
    let wanted = (mexc::stream_name(stream), symbol);
    if keys.len() > 0 {
        let rest = keys.drop_last();
        let key = keys.last();
        assert(keys[keys.len() - 1] == key);
        lemma_natives(rest, stream, symbol);
        let own = mexc::natives_of(key);
        let native = native_names(key.channel);
        laws::lemma_all_new(mexc::natives(rest), own, (stream, symbol));
        lemma_stream_names(stream, NativeStream::Ticker);
        lemma_stream_names(stream, NativeStream::Funding);
        lemma_stream_names(stream, NativeStream::Kline);
        assert(own.contains((stream, symbol)) == (key.symbol == symbol && native.contains(
            mexc::stream_name(stream),
        ))) by {
            if own.contains((stream, symbol)) {
                let k = choose|k: int| 0 <= k < own.len() && own[k] == (stream, symbol);
                assert(native[k] == mexc::stream_name(stream));
            }
            if key.symbol == symbol && native.contains(mexc::stream_name(stream)) {
                let k = choose|k: int| 0 <= k < native.len() && native[k] == mexc::stream_name(
                    stream,
                );
                assert(own[k] == (stream, symbol));
            }
        }
        if is_wanted(keys, wanted) {
            let i = choose|i: int|
                0 <= i < keys.len() && (#[trigger] keys[i]).symbol == wanted.1 && native_names(
                    keys[i].channel,
                ).contains(wanted.0);
            if i < rest.len() {
                assert(rest[i] == keys[i]);
            }
        }
        if is_wanted(rest, wanted) {
            let i = choose|i: int|
                0 <= i < rest.len() && (#[trigger] rest[i]).symbol == wanted.1 && native_names(
                    rest[i].channel,
                ).contains(wanted.0);
            assert(keys[i] == rest[i]);
        }
    }
}

/// Whether a key is one that the venue takes.
pub open spec fn is_taken(key: KeyView) -> bool {
    key.provider == Provider::Mexc && exists|base: Seq<char>| is_symbol(key.symbol, base)
}

proof fn lemma_no_fault(keys: Seq<KeyView>)
    requires
        forall|i: int| 0 <= i < keys.len() ==> is_taken(#[trigger] keys[i]),
    ensures
        mexc::first_faulty(keys) == keys.len(),
    decreases keys.len(),
{
    if keys.len() > 0 {
        let base = choose|base: Seq<char>| is_symbol(keys[0].symbol, base);
        assert(is_taken(keys[0]));
        lemma_identity(keys[0].symbol, base);
        assert forall|i: int| 0 <= i < keys.skip(1).len() implies is_taken(
            #[trigger] keys.skip(1)[i],
        ) by {
            assert(keys.skip(1)[i] == keys[i + 1]);
        }
        lemma_no_fault(keys.skip(1));
    }
}

/// A change of subscriptions is asked for in one command for each native stream of each key, and for
/// no other stream. Only subscribing commands are answered, and the answers are awaited in turn.
pub proof fn law_commands_name_the_streams_of_the_keys(
    state: MexcView,
    action: SubscriptionAction,
    keys: Seq<KeyView>,
) -> (streams: Seq<(Seq<char>, Seq<char>)>)
    requires
        forall|i: int| 0 <= i < keys.len() ==> is_taken(#[trigger] keys[i]),
    ensures
        mexc::subscription_outcome(EndpointKind::Primary, state, action, keys).1 is Ok,
        ({
            let (after, outcome) = mexc::subscription_outcome(
                EndpointKind::Primary,
                state,
                action,
                keys,
            );
            let list = outcome->Ok_0;
            &&& list.len() == streams.len()
            &&& forall|i: int|
                0 <= i < list.len() ==> (#[trigger] list[i]).expected_acknowledgements == if action
                    == SubscriptionAction::Subscribe {
                    1usize
                } else {
                    0usize
                } && list[i].text == json::text_of(
                    JsonView::Object(
                        seq![
                            ("gzip"@, JsonView::Bool(false)),
                            (
                                "method"@,
                                JsonView::Text(
                                    match action {
                                        SubscriptionAction::Subscribe => "sub"@,
                                        SubscriptionAction::Unsubscribe => "unsub"@,
                                    } + "."@ + streams[i].0,
                                ),
                            ),
                            (
                                "param"@,
                                if streams[i].0 == "kline"@ && action
                                    == SubscriptionAction::Subscribe {
                                    JsonView::Object(
                                        seq![
                                            ("interval"@, JsonView::Text("Min1"@)),
                                            ("symbol"@, JsonView::Text(streams[i].1)),
                                        ],
                                    )
                                } else {
                                    JsonView::Object(
                                        seq![("symbol"@, JsonView::Text(streams[i].1))],
                                    )
                                },
                            ),
                        ],
                    ),
                )
            &&& action == SubscriptionAction::Unsubscribe ==> after.pending == state.pending
            &&& action == SubscriptionAction::Subscribe ==> after.pending == state.pending
                + Seq::new(
                streams.len(),
                |i: int|
                    PendingView {
                        response_channel: "rs."@ + ("sub"@ + "."@ + streams[i].0),
                        request_id: list[i].request_id,
                    },
            )
        }),
        forall|stream: (Seq<char>, Seq<char>)| #[trigger]
            streams.contains(stream) <==> is_wanted(keys, stream),
{
    assert(!laws::has_foreign(Provider::Mexc, keys)) by {
        if laws::has_foreign(Provider::Mexc, keys) {
            let i = choose|i: int| 0 <= i < keys.len() && (#[trigger] keys[i]).provider
                != Provider::Mexc;
            assert(is_taken(keys[i]));
        }
    }
    laws::lemma_foreign(Provider::Mexc, keys);
    lemma_no_fault(keys);
    let list = mexc::natives(keys);
    let streams = names(list);
    assert forall|stream: (Seq<char>, Seq<char>)| #[trigger]
        streams.contains(stream) <==> is_wanted(keys, stream) by {
        lemma_natives(keys, NativeStream::Ticker, stream.1);
        lemma_natives(keys, NativeStream::Funding, stream.1);
        lemma_natives(keys, NativeStream::Kline, stream.1);
        if streams.contains(stream) {
            let k = choose|k: int| 0 <= k < streams.len() && streams[k] == stream;
            lemma_natives(keys, list[k].0, list[k].1);
            assert(list.contains(list[k]));
        }
        if is_wanted(keys, stream) {
            let i = choose|i: int|
                0 <= i < keys.len() && (#[trigger] keys[i]).symbol == stream.1 && native_names(
                    keys[i].channel,
                ).contains(stream.0);
            let native = native_names(keys[i].channel);
            let n = choose|n: int| 0 <= n < native.len() && native[n] == stream.0;
            let kind = match keys[i].channel {
                Channel::Ticker => if n == 0 {
                    NativeStream::Ticker
                } else {
                    NativeStream::Funding
                },
                Channel::Candle1m => NativeStream::Kline,
            };
            assert(mexc::stream_name(kind) == stream.0);
            assert(list.contains((kind, stream.1)));
            let k = choose|k: int| 0 <= k < list.len() && list[k] == (kind, stream.1);
            assert(streams[k] == stream);
        }
    }
    let (after, outcome) = mexc::subscription_outcome(EndpointKind::Primary, state, action, keys);
    let issued = outcome->Ok_0;
    assert forall|i: int| 0 <= i < issued.len() implies #[trigger] issued[i] == mexc::command(
        action,
        list[i],
        providers::id_after(state.common.next_request_id, i as nat),
    ) && (streams[i].0 == "kline"@) == (list[i].0 == NativeStream::Kline) by {
        lemma_stream_names(list[i].0, NativeStream::Kline);
    }
    if action == SubscriptionAction::Subscribe {
        assert(mexc::awaited(action, list, state.common.next_request_id) =~= Seq::new(
            streams.len(),
            |i: int|
                PendingView {
                    response_channel: "rs."@ + ("sub"@ + "."@ + streams[i].0),
                    request_id: issued[i].request_id,
                },
        ));
    } else {
        assert(state.pending + Seq::<PendingView>::empty() =~= state.pending);
    }
    streams
}

/// An answer is told under the identifier of the command that was waiting for it first, and then no
/// longer awaited: it is acknowledged where the venue says success, and refused where it says
/// anything else. An error refuses it too.
pub proof fn law_answers_to_commands_are_told(
    state: MexcView,
    text: Seq<char>,
    received_at_ms: u64,
    root: JsonView,
    method: Seq<char>,
    result: Seq<char>,
)
    requires
        json::document_of(text) == Ok::<JsonView, Seq<char>>(root),
        root is Object,
        says(root, "data"@, result),
        result.len() > 0,
        state.pending.len() > 0,
    ensures
        says(root, "channel"@, "rs.sub."@ + method) && state.pending[0].response_channel
            == "rs.sub."@ + method && result == "success"@ ==> {
            let (after, outcome) = mexc::text_frame(state, text, received_at_ms);
            &&& outcome == Ok::<FrameView, AdapterErrorView>(
                FrameView::Acknowledgement { request_id: state.pending[0].request_id },
            )
            &&& after == (MexcView { pending: state.pending.skip(1), ..state })
        },
        says(root, "channel"@, "rs.sub."@ + method) && result != "success"@ ==> {
            let (after, outcome) = mexc::text_frame(state, text, received_at_ms);
            &&& laws::is_rejection(outcome, Provider::Mexc)
            &&& after == (MexcView { pending: state.pending.skip(1), ..state })
        },
        says(root, "channel"@, "rs.error"@) ==> {
            let (after, outcome) = mexc::text_frame(state, text, received_at_ms);
            &&& laws::is_rejection(outcome, Provider::Mexc)
            &&& after == (MexcView { pending: state.pending.skip(1), ..state })
        },
        says(root, "channel"@, "pong"@) ==> mexc::text_frame(state, text, received_at_ms) == (
            state,
            Ok::<FrameView, AdapterErrorView>(FrameView::Pong),
        ),
{
    reveal_strlit("rs.sub.");
    reveal_strlit("rs.error");
    reveal_strlit("pong");
    laws::lemma_prefixed("rs.sub."@, method);
    assert(("rs.sub."@ + method)[0] == 'r' && "pong"@[0] == 'p');
    assert(("rs.sub."@ + method)[3] == 's' && "rs.error"@[3] == 'e');
}

} // verus!
