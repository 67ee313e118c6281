//! What the messages of Bybit mean, and which topics are asked of it.
use vstd::prelude::*;

use super::{counts, decimal_or_none, holds, in_some_part, latest, offers, says};
use crate::decimal;
use crate::domain;
use crate::domain::{
    CandleFinality, CandleView, Channel, KeyView, MarketKind, PayloadView, Provider,
    ProviderEventView, SequenceView, TickerView,
};
use crate::json;
use crate::json::JsonView;
use crate::laws;
use crate::providers;
use crate::providers::bybit;
use crate::providers::{FrameView, SessionView, SubscriptionAction};
use crate::text;

verus! {

/// The prices of a ticker update, as far as it offers them.
pub struct Offer {
    pub last: Option<Seq<char>>,
    pub mark: Option<Seq<char>>,
    pub index: Option<Seq<char>>,
    pub bid: Option<Seq<char>>,
    pub ask: Option<Seq<char>>,
    pub funding_rate: Option<Seq<char>>,
    pub next_funding_time: Option<Seq<char>>,
}

/// Whether a document offers just that.
pub open spec fn is_offer(data: JsonView, offer: Offer) -> bool {
    &&& offers(data, "lastPrice"@, offer.last)
    &&& offers(data, "markPrice"@, offer.mark)
    &&& offers(data, "indexPrice"@, offer.index)
    &&& offers(data, "bid1Price"@, offer.bid)
    &&& offers(data, "ask1Price"@, offer.ask)
    &&& offers(data, "fundingRate"@, offer.funding_rate)
    &&& offers(data, "nextFundingTime"@, offer.next_funding_time)
}

/// Whether the prices of an offer are decimals and its time is a number.
pub open spec fn is_sound(offer: Offer) -> bool {
    &&& decimal_or_none(offer.last)
    &&& decimal_or_none(offer.mark)
    &&& decimal_or_none(offer.index)
    &&& decimal_or_none(offer.bid)
    &&& decimal_or_none(offer.ask)
    &&& decimal_or_none(offer.funding_rate)
    &&& offer.next_funding_time matches Some(time) ==> text::all_digits(time) && text::digits_value(
        time,
    ) <= u64::MAX
}

/// An update puts each price that it offers in its own place, observed at the time of the message,
/// and leaves every other one.
pub proof fn law_updates_set_what_they_offer(
    base: TickerView,
    data: JsonView,
    time: u64,
    offer: Offer,
)
    requires
        is_offer(data, offer),
    ensures
        ({
            let after = bybit::ticker_after(base, data, time);
            &&& after.last == latest(offer.last, time, base.last)
            &&& after.mark == latest(offer.mark, time, base.mark)
            &&& after.index == latest(offer.index, time, base.index)
            &&& after.bid == latest(offer.bid, time, base.bid)
            &&& after.ask == latest(offer.ask, time, base.ask)
            &&& after.funding_rate == latest(offer.funding_rate, time, base.funding_rate)
            &&& offer.next_funding_time is None ==> after.next_funding_time_ms
                == base.next_funding_time_ms
            &&& offer.next_funding_time matches Some(given) ==> (text::all_digits(given)
                && text::digits_value(given) <= u64::MAX ==> after.next_funding_time_ms == Some(
                text::digits_value(given) as u64,
            ))
        }),
{
    if let Some(given) = offer.next_funding_time {
        if text::all_digits(given) {
            assert(text::is_digit(given[0]));
        }
    }
}

/// A snapshot or delta of one instrument is published as one ticker: what it offers as it is
/// written, at the time of the message, and else what was known before (after a snapshot, nothing).
/// The ticker is kept for the next delta.
pub proof fn law_ticker_messages_are_published(
    state: SessionView,
    text: Seq<char>,
    received_at_ms: u64,
    root: JsonView,
    data: JsonView,
    name: Seq<char>,
    payload_name: Seq<char>,
    symbol: Seq<char>,
    snapshot: bool,
    time: u64,
    sequence: u64,
    offer: Offer,
)
    requires
        json::document_of(text) == Ok::<JsonView, Seq<char>>(root),
        root is Object,
        json::member_of(root, "op"@) is None,
        json::member_of(root, "success"@) is None,
        says(root, "topic"@, "tickers."@ + name),
        says(
            root,
            "type"@,
            if snapshot {
                "snapshot"@
            } else {
                "delta"@
            },
        ),
        counts(root, "ts"@, time),
        counts(root, "cs"@, sequence),
        json::member_of(root, "data"@) == Some(data),
        data is Object,
        says(data, "symbol"@, payload_name),
        domain::symbol_identity(name) == Ok::<Seq<char>, domain::DomainErrorView>(symbol),
        domain::symbol_identity(payload_name) == Ok::<Seq<char>, domain::DomainErrorView>(symbol),
        is_offer(data, offer),
        is_sound(offer),
    ensures
        ({
            let before = if !snapshot && state.tickers.contains_key(symbol) {
                state.tickers[symbol]
            } else {
                domain::empty_ticker()
            };
            let ticker = TickerView {
                last: latest(offer.last, time, before.last),
                mark: latest(offer.mark, time, before.mark),
                index: latest(offer.index, time, before.index),
                bid: latest(offer.bid, time, before.bid),
                ask: latest(offer.ask, time, before.ask),
                funding_rate: latest(offer.funding_rate, time, before.funding_rate),
                next_funding_time_ms: match offer.next_funding_time {
                    Some(given) => Some(text::digits_value(given) as u64),
                    None => before.next_funding_time_ms,
                },
            };
            let (after, outcome) = bybit::text_frame(state, text, received_at_ms);
            &&& outcome == Ok::<FrameView, providers::AdapterErrorView>(
                FrameView::Events(
                    seq![
                        ProviderEventView {
                            connection_epoch: state.connection_epoch,
                            provider: Provider::Bybit,
                            market: MarketKind::LinearPerpetual,
                            symbol,
                            exchange_time_ms: Some(time),
                            gateway_received_time_ms: received_at_ms,
                            source_sequence: Some(
                                SequenceView {
                                    first: None,
                                    last: Some(text::digits(sequence as nat)),
                                    previous: None,
                                },
                            ),
                            payload: PayloadView::Ticker(ticker),
                        },
                    ],
                ),
            )
            &&& after.tickers == state.tickers.insert(symbol, ticker)
            &&& after.next_request_id == state.next_request_id
            &&& after.connection_epoch == state.connection_epoch
        }),
{
    reveal_strlit("snapshot");
    reveal_strlit("delta");
    reveal_strlit("COMMAND_RESP");
    assert("snapshot"@.len() != "COMMAND_RESP"@.len());
    assert("delta"@.len() != "COMMAND_RESP"@.len());
    assert("delta"@.len() != "snapshot"@.len());
    reveal_strlit("data");
    reveal_strlit("topic");
    reveal_strlit("type");
    reveal_strlit("ts");
    reveal_strlit("cs");
    assert("topic"@.len() != "data"@.len());
    assert("type"@[0] != "data"@[0]);
    assert("ts"@.len() != "data"@.len());
    assert("cs"@.len() != "data"@.len());
    laws::lemma_prefixed("tickers."@, name);
    let inner = json::LayoutView::Each(
        Box::new(
            json::flat(
                "symbol,lastPrice,markPrice,indexPrice,bid1Price,ask1Price,fundingRate,nextFundingTime"@,
                8,
            ),
        ),
    );
    let names = "topic,type,ts,cs,data"@;
    let value = json::arranged(root, bybit::tickers_layout());
    assert(bybit::tickers_layout() == json::with_field(json::flat(names, 5), "data"@, inner));
    laws::lemma_nested_object(root, names, 5, "data"@, inner, "topic"@);
    laws::lemma_nested_object(root, names, 5, "data"@, inner, "type"@);
    laws::lemma_nested_object(root, names, 5, "data"@, inner, "ts"@);
    laws::lemma_nested_object(root, names, 5, "data"@, inner, "cs"@);
    assert(json::arranged(data, inner) == data);
    assert(json::member_of(value, "data"@) == Some(data));
    if let Some(given) = offer.next_funding_time {
        assert(text::is_digit(given[0]));
        text::lemma_leading_digits(given);
        assert(given.take(given.len() as int) =~= given);
    }
    let base = if snapshot {
        domain::empty_ticker()
    } else {
        providers::known(state.tickers, symbol)
    };
    law_updates_set_what_they_offer(base, data, time, offer);
    let updates = seq![data];
    assert(updates.drop_last() =~= Seq::empty());
    assert(bybit::tickers_along(
        providers::known(state.tickers, symbol),
        updates.drop_last(),
        snapshot,
        time,
        symbol,
    ) == Ok::<Seq<TickerView>, Seq<char>>(Seq::empty()));
    assert(bybit::update_shape(data) is None);
    assert(bybit::update_problem(data, symbol) is None);
    let tickers = seq![bybit::ticker_after(base, data, time)];
    assert(Seq::<TickerView>::empty().push(bybit::ticker_after(base, data, time)) =~= tickers);
    assert(bybit::tickers_along(
        providers::known(state.tickers, symbol),
        updates,
        snapshot,
        time,
        symbol,
    ) == Ok::<Seq<TickerView>, Seq<char>>(tickers));
    let events = bybit::text_frame(state, text, received_at_ms).1->Ok_0->Events_0;
    assert(events.len() == 1);
    assert(events =~= seq![events[0]]);
}

/// Along a run of updates, each ticker is the one before with what its update offers.
proof fn lemma_along(
    start: TickerView,
    updates: Seq<JsonView>,
    snapshot: bool,
    time: u64,
    symbol: Seq<char>,
    i: int,
)
    requires
        bybit::tickers_along(start, updates, snapshot, time, symbol) is Ok,
        0 <= i < updates.len(),
    ensures
        ({
            let tickers = bybit::tickers_along(start, updates, snapshot, time, symbol)->Ok_0;
            &&& tickers.len() == updates.len()
            &&& tickers[i] == bybit::ticker_after(
                if snapshot {
                    domain::empty_ticker()
                } else if i == 0 {
                    start
                } else {
                    tickers[i - 1]
                },
                updates[i],
                time,
            )
        }),
    decreases updates.len(),
{
    reveal_with_fuel(bybit::tickers_along, 2);
    let rest = updates.drop_last();
    if rest.len() > 0 {
        lemma_along(start, rest, snapshot, time, symbol, if i < rest.len() {
            i
        } else {
            i - 1
        });
    }
    if i < rest.len() {
        assert(rest[i] == updates[i]);
    }
}

/// The ticker of an event.
pub open spec fn ticker_of(event: ProviderEventView) -> TickerView {
    event.payload->Ticker_0
}

/// Every update of a list is published in its turn: each one adds what it offers to the one before.
pub proof fn law_listed_updates_are_published_in_turn(
    state: SessionView,
    text: Seq<char>,
    received_at_ms: u64,
    root: JsonView,
    items: Seq<JsonView>,
    name: Seq<char>,
    symbol: Seq<char>,
    snapshot: bool,
    time: u64,
    events: Seq<ProviderEventView>,
    i: int,
    offer: Offer,
)
    requires
        json::document_of(text) == Ok::<JsonView, Seq<char>>(root),
        root is Object,
        says(root, "topic"@, "tickers."@ + name),
        says(
            root,
            "type"@,
            if snapshot {
                "snapshot"@
            } else {
                "delta"@
            },
        ),
        counts(root, "ts"@, time),
        json::member_of(root, "data"@) == Some(JsonView::List(items)),
        forall|k: int| 0 <= k < items.len() ==> #[trigger] items[k] is Object,
        domain::symbol_identity(name) == Ok::<Seq<char>, domain::DomainErrorView>(symbol),
        bybit::text_frame(state, text, received_at_ms).1 == Ok::<
            FrameView,
            providers::AdapterErrorView,
        >(FrameView::Events(events)),
        0 <= i < items.len(),
        is_offer(items[i], offer),
    ensures
        events.len() == items.len(),
        events[i].symbol == symbol,
        events[i].provider == Provider::Bybit,
        events[i].exchange_time_ms == Some(time),
        events[i].payload is Ticker,
        ({
            let before = if snapshot {
                domain::empty_ticker()
            } else if i > 0 {
                ticker_of(events[i - 1])
            } else if state.tickers.contains_key(symbol) {
                state.tickers[symbol]
            } else {
                domain::empty_ticker()
            };
            let ticker = ticker_of(events[i]);
            &&& ticker.last == latest(offer.last, time, before.last)
            &&& ticker.mark == latest(offer.mark, time, before.mark)
            &&& ticker.index == latest(offer.index, time, before.index)
            &&& ticker.bid == latest(offer.bid, time, before.bid)
            &&& ticker.ask == latest(offer.ask, time, before.ask)
            &&& ticker.funding_rate == latest(offer.funding_rate, time, before.funding_rate)
        }),
        bybit::text_frame(state, text, received_at_ms).0.tickers == state.tickers.insert(
            symbol,
            ticker_of(events.last()),
        ),
{
    reveal_strlit("snapshot");
    reveal_strlit("delta");
    assert("delta"@.len() != "snapshot"@.len());
    reveal_strlit("data");
    reveal_strlit("topic");
    reveal_strlit("type");
    reveal_strlit("ts");
    assert("topic"@.len() != "data"@.len());
    assert("type"@[0] != "data"@[0]);
    assert("ts"@.len() != "data"@.len());
    laws::lemma_prefixed("tickers."@, name);
    let fields = "symbol,lastPrice,markPrice,indexPrice,bid1Price,ask1Price,fundingRate,nextFundingTime"@;
    let inner = json::LayoutView::Each(Box::new(json::flat(fields, 8)));
    let names = "topic,type,ts,cs,data"@;
    let value = json::arranged(root, bybit::tickers_layout());
    assert(bybit::tickers_layout() == json::with_field(json::flat(names, 5), "data"@, inner));
    laws::lemma_nested_object(root, names, 5, "data"@, inner, "topic"@);
    laws::lemma_nested_object(root, names, 5, "data"@, inner, "type"@);
    laws::lemma_nested_object(root, names, 5, "data"@, inner, "ts"@);
    laws::lemma_flat_objects(items, fields, 8);
    assert(json::member_of(value, "data"@) == Some(JsonView::List(items)));
    assert(bybit::control(root) is None);
    let start = providers::known(state.tickers, symbol);
    let along = bybit::tickers_along(start, items, snapshot, time, symbol);
    assert(along is Ok);
    lemma_along(start, items, snapshot, time, symbol, i);
    let tickers = along->Ok_0;
    assert(events.len() == tickers.len());
    assert(ticker_of(events[i]) == tickers[i]);
    assert(i > 0 ==> ticker_of(events[i - 1]) == tickers[i - 1]);
    assert(ticker_of(events.last()) == tickers.last());
    let base = if snapshot {
        domain::empty_ticker()
    } else if i == 0 {
        start
    } else {
        tickers[i - 1]
    };
    law_updates_set_what_they_offer(base, items[i], time, offer);
}

/// What a candle item of Bybit holds.
pub struct Kline {
    pub start: u64,
    pub end: u64,
    pub open: Seq<char>,
    pub high: Seq<char>,
    pub low: Seq<char>,
    pub close: Seq<char>,
    pub volume: Seq<char>,
    pub turnover: Seq<char>,
    pub confirm: bool,
    pub timestamp: u64,
}

/// Whether a document is just that, with decimals as prices and volumes.
pub open spec fn is_kline(item: JsonView, kline: Kline) -> bool {
    &&& item is Object
    &&& counts(item, "start"@, kline.start)
    &&& counts(item, "end"@, kline.end)
    &&& says(item, "interval"@, "1"@)
    &&& says(item, "open"@, kline.open)
    &&& says(item, "high"@, kline.high)
    &&& says(item, "low"@, kline.low)
    &&& says(item, "close"@, kline.close)
    &&& says(item, "volume"@, kline.volume)
    &&& says(item, "turnover"@, kline.turnover)
    &&& holds(item, "confirm"@, kline.confirm)
    &&& counts(item, "timestamp"@, kline.timestamp)
    &&& kline.end < u64::MAX
    &&& decimal::decimal_of(kline.open) is Some
    &&& decimal::decimal_of(kline.high) is Some
    &&& decimal::decimal_of(kline.low) is Some
    &&& decimal::decimal_of(kline.close) is Some
    &&& decimal::decimal_of(kline.volume) is Some
    &&& decimal::decimal_of(kline.turnover) is Some
}

/// The event that a candle item is published as: its prices in their own places, the last
/// millisecond of the item made the exclusive end, and closed exactly if the venue confirms it.
pub open spec fn kline_event(
    connection_epoch: u128,
    symbol: Seq<char>,
    time: u64,
    received_at_ms: u64,
    kline: Kline,
) -> ProviderEventView {
    ProviderEventView {
        connection_epoch,
        provider: Provider::Bybit,
        market: MarketKind::LinearPerpetual,
        symbol,
        exchange_time_ms: Some(time),
        gateway_received_time_ms: received_at_ms,
        source_sequence: None,
        payload: PayloadView::Candle(
            CandleView {
                interval: "1m"@,
                start_time_ms: kline.start,
                end_time_ms: (kline.end + 1) as u64,
                open: kline.open,
                high: kline.high,
                low: kline.low,
                close: kline.close,
                base_volume: Some(kline.volume),
                quote_volume: Some(kline.turnover),
                contract_volume: None,
                finality: if kline.confirm {
                    CandleFinality::Closed
                } else {
                    CandleFinality::Open
                },
                data_quality: Seq::empty(),
            },
        ),
    }
}

/// The candles of a message are published as they are written, one event for each.
pub proof fn law_kline_messages_are_published(
    state: SessionView,
    text: Seq<char>,
    received_at_ms: u64,
    root: JsonView,
    items: Seq<JsonView>,
    klines: Seq<Kline>,
    name: Seq<char>,
    symbol: Seq<char>,
    time: u64,
)
    requires
        json::document_of(text) == Ok::<JsonView, Seq<char>>(root),
        root is Object,
        json::member_of(root, "op"@) is None,
        json::member_of(root, "success"@) is None,
        says(root, "topic"@, "kline.1."@ + name),
        says(root, "type"@, "snapshot"@),
        counts(root, "ts"@, time),
        json::member_of(root, "data"@) == Some(JsonView::List(items)),
        domain::symbol_identity(name) == Ok::<Seq<char>, domain::DomainErrorView>(symbol),
        items.len() == klines.len(),
        forall|i: int| 0 <= i < items.len() ==> is_kline(#[trigger] items[i], klines[i]),
    ensures
        bybit::text_frame(state, text, received_at_ms) == (
            state,
            Ok::<FrameView, providers::AdapterErrorView>(
                FrameView::Events(
                    Seq::new(
                        items.len(),
                        |i: int|
                            kline_event(
                                state.connection_epoch,
                                symbol,
                                time,
                                received_at_ms,
                                klines[i],
                            ),
                    ),
                ),
            ),
        ),
{
    reveal_strlit("snapshot");
    reveal_strlit("COMMAND_RESP");
    assert("snapshot"@.len() != "COMMAND_RESP"@.len());
    reveal_strlit("data");
    reveal_strlit("topic");
    reveal_strlit("type");
    reveal_strlit("ts");
    reveal_strlit("tickers.");
    reveal_strlit("kline.");
    reveal_strlit("kline.1.");
    assert("topic"@.len() != "data"@.len());
    assert("type"@[0] != "data"@[0]);
    assert("ts"@.len() != "data"@.len());
    laws::lemma_prefixed("kline.1."@, name);
    laws::lemma_other_prefix("kline.1."@, name, "tickers."@, 0);
    let topic = "kline.1."@ + name;
    assert(topic.take(6) =~= "kline."@);
    let fields = "start,end,interval,open,high,low,close,volume,turnover,confirm,timestamp"@;
    let inner = json::LayoutView::Each(Box::new(json::flat(fields, 11)));
    let names = "topic,type,ts,data"@;
    let value = json::arranged(root, bybit::klines_layout());
    assert(bybit::klines_layout() == json::with_field(json::flat(names, 4), "data"@, inner));
    laws::lemma_nested_object(root, names, 4, "data"@, inner, "topic"@);
    laws::lemma_nested_object(root, names, 4, "data"@, inner, "type"@);
    laws::lemma_nested_object(root, names, 4, "data"@, inner, "ts"@);
    laws::lemma_flat_objects(items, fields, 11);
    assert(json::member_of(value, "data"@) == Some(JsonView::List(items)));
    laws::lemma_no_complaint(items, |item: JsonView| bybit::kline_shape(item));
    laws::lemma_no_complaint(items, |item: JsonView| bybit::kline_problem(item));
    let events = bybit::kline_events(
        state.connection_epoch,
        symbol,
        time,
        received_at_ms,
        items,
    );
    assert(bybit::klines_frame(state, value, received_at_ms) == Ok::<FrameView, Seq<char>>(
        FrameView::Events(events),
    ));
    let wanted = Seq::new(
        items.len(),
        |i: int|
            kline_event(state.connection_epoch, symbol, time, received_at_ms, klines[i]),
    );
    assert forall|i: int| 0 <= i < items.len() implies #[trigger] events[i] == wanted[i] by {
        assert(is_kline(items[i], klines[i]));
    }
    assert(events =~= wanted);
}

/// The topic of a key.
pub open spec fn topic_of(key: KeyView) -> Seq<char> {
    match key.channel {
        Channel::Ticker => "tickers."@ + key.symbol,
        Channel::Candle1m => "kline.1."@ + key.symbol,
    }
}

/// Whether one of the keys has that topic.
pub open spec fn is_wanted(keys: Seq<KeyView>, topic: Seq<char>) -> bool {
    exists|i: int| 0 <= i < keys.len() && topic == topic_of(#[trigger] keys[i])
}

/// A change of subscriptions is asked for in commands that together name the topic of every key and
/// no other topic, once each. Each command has its own request identifier, and the venue answers it
/// once. A key of another venue is refused, and nothing changes.
pub proof fn law_commands_name_the_topics_of_the_keys(
    state: SessionView,
    action: SubscriptionAction,
    keys: Seq<KeyView>,
) -> (parts: Seq<Seq<Seq<char>>>)
    ensures
        laws::has_foreign(Provider::Bybit, keys) ==> {
            &&& bybit::subscription_outcome(state, action, keys).0 == state
            &&& bybit::subscription_outcome(state, action, keys).1 is Err
        },
        !laws::has_foreign(Provider::Bybit, keys) ==> {
            &&& bybit::subscription_outcome(state, action, keys).1 is Ok
            &&& ({
                let list = bybit::subscription_outcome(state, action, keys).1->Ok_0;
                &&& list.len() == parts.len()
                &&& forall|i: int|
                    0 <= i < list.len() ==> (#[trigger] list[i]).text == json::text_of(
                        JsonView::Object(
                            seq![
                                (
                                    "args"@,
                                    JsonView::List(
                                        Seq::new(
                                            parts[i].len(),
                                            |k: int| JsonView::Text(parts[i][k]),
                                        ),
                                    ),
                                ),
                                (
                                    "op"@,
                                    JsonView::Text(
                                        match action {
                                            SubscriptionAction::Subscribe => "subscribe"@,
                                            SubscriptionAction::Unsubscribe => "unsubscribe"@,
                                        },
                                    ),
                                ),
                                ("req_id"@, JsonView::Text(list[i].request_id)),
                            ],
                        ),
                    ) && list[i].expected_acknowledgements == 1 && 0 < parts[i].len() <= 100
            })
        },
        !laws::has_foreign(Provider::Bybit, keys) ==> forall|topic: Seq<char>| #[trigger]
            in_some_part(parts, topic) <==> is_wanted(keys, topic),
        !laws::has_foreign(Provider::Bybit, keys) ==> providers::joined(parts).no_duplicates(),
{
    laws::lemma_foreign(Provider::Bybit, keys);
    let topics = providers::gathered(keys);
    let parts = bybit::batches(topics);
    if !laws::has_foreign(Provider::Bybit, keys) {
        bybit::law_batches_partition(topics);
        providers::lemma_gathered_once(keys);
        assert forall|topic: Seq<char>| #[trigger]
            in_some_part(parts, topic) <==> is_wanted(keys, topic) by {
            laws::lemma_joined(parts, topic);
            laws::lemma_gathered(keys, topic);
            if is_wanted(keys, topic) {
                let i = choose|i: int| 0 <= i < keys.len() && topic == topic_of(#[trigger] keys[i]);
                assert(keys[i].provider == Provider::Bybit);
                assert(providers::native_topics(keys[i])[0] == topic);
            }
            if laws::some_topic(keys, topic) {
                let i = choose|i: int|
                    0 <= i < keys.len() && providers::native_topics(#[trigger] keys[i]).contains(
                        topic,
                    );
                assert(keys[i].provider == Provider::Bybit);
                assert(topic == topic_of(keys[i]));
            }
        }
        let list = bybit::subscription_outcome(state, action, keys).1->Ok_0;
        assert forall|i: int| 0 <= i < list.len() implies (#[trigger] list[i]).expected_acknowledgements
            == 1 && bybit::fits(parts[i]) by {}
    }
    parts
}

/// What the venue says of a command is told under the identifier of the command: an accepted one is
/// acknowledged, a refused one is an error, and a sign of life is one.
pub proof fn law_answers_to_commands_are_told(
    state: SessionView,
    text: Seq<char>,
    received_at_ms: u64,
    root: JsonView,
    operation: Seq<char>,
    success: bool,
    request_id: Seq<char>,
)
    requires
        json::document_of(text) == Ok::<JsonView, Seq<char>>(root),
        root is Object,
        json::member_of(root, "type"@) is None,
        says(root, "op"@, operation),
        holds(root, "success"@, success),
        says(root, "req_id"@, request_id),
        request_id.len() > 0,
        text::byte_length(request_id) <= 36,
    ensures
        bybit::text_frame(state, text, received_at_ms).0 == state,
        !success ==> laws::is_rejection(
            bybit::text_frame(state, text, received_at_ms).1,
            Provider::Bybit,
        ),
        success && (operation == "subscribe"@ || operation == "unsubscribe"@) ==> bybit::text_frame(
            state,
            text,
            received_at_ms,
        ).1 == Ok::<FrameView, providers::AdapterErrorView>(
            FrameView::Acknowledgement { request_id },
        ),
        success && (operation == "ping"@ || operation == "pong"@) ==> bybit::text_frame(
            state,
            text,
            received_at_ms,
        ).1 == Ok::<FrameView, providers::AdapterErrorView>(FrameView::Pong),
{
    reveal_strlit("subscribe");
    reveal_strlit("unsubscribe");
    reveal_strlit("ping");
    reveal_strlit("pong");
    assert("subscribe"@.len() != "ping"@.len());
    assert("unsubscribe"@.len() != "ping"@.len());
}

} // verus!
