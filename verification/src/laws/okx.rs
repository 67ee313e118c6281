//! What the messages of OKX mean, and which channels are asked of it.
use vstd::prelude::*;

use super::{decimal_or_none, in_some_part, latest, offers, says};
use crate::decimal;
use crate::domain;
use crate::domain::{
    CandleFinality, CandleView, Channel, KeyView, MarketKind, PayloadView, Provider,
    ProviderEventView, TickerView,
};
use crate::json;
use crate::json::JsonView;
use crate::laws;
use crate::providers;
use crate::providers::okx;
use crate::providers::okx::TickerChannel;
use crate::providers::{AdapterErrorView, EndpointKind, FrameView, SessionView, SubscriptionAction};
use crate::text;

verus! {

/// Whether a text is a number that fits.
pub open spec fn is_number(text: Seq<char>) -> bool {
    text.len() > 0 && text::all_digits(text) && text::digits_value(text) <= u64::MAX
}

/// A number is read as what it says.
proof fn lemma_number(text: Seq<char>)
    requires
        is_number(text),
    ensures
        text::unsigned_problem(text) is None,
        text::unsigned_run(text) == text,
{
    assert(text::is_digit(text[0]));
    text::lemma_leading_digits(text);
    assert(text.take(text.len() as int) =~= text);
}

/// What an item of one of the ticker channels offers.
pub struct Offer {
    pub time: Seq<char>,
    pub last: Option<Seq<char>>,
    pub bid: Option<Seq<char>>,
    pub ask: Option<Seq<char>>,
    pub mark: Option<Seq<char>>,
    pub funding_rate: Option<Seq<char>>,
    pub funding_time: Option<Seq<char>>,
    pub next_funding_time: Option<Seq<char>>,
}

/// The native name of a channel.
pub open spec fn channel_name(channel: TickerChannel) -> Seq<char> {
    match channel {
        TickerChannel::Tickers => "tickers"@,
        TickerChannel::MarkPrice => "mark-price"@,
        TickerChannel::FundingRate => "funding-rate"@,
    }
}

/// Whether an item of a channel offers just that of an instrument.
pub open spec fn is_item(
    channel: TickerChannel,
    item: JsonView,
    symbol: Seq<char>,
    offer: Offer,
) -> bool {
    &&& item is Object
    &&& says(item, "instId"@, symbol)
    &&& says(item, "ts"@, offer.time)
    &&& is_number(offer.time)
    &&& match json::member_of(item, "instType"@) {
        Some(kind) => kind == JsonView::Text("SWAP"@),
        None => true,
    }
    &&& match channel {
        TickerChannel::Tickers => {
            &&& offers(item, "last"@, offer.last)
            &&& offers(item, "bidPx"@, offer.bid)
            &&& offers(item, "askPx"@, offer.ask)
            &&& decimal_or_none(offer.last)
            &&& decimal_or_none(offer.bid)
            &&& decimal_or_none(offer.ask)
            &&& offer.last is Some || offer.bid is Some || offer.ask is Some
            &&& offer.mark is None && offer.funding_rate is None
        },
        TickerChannel::MarkPrice => {
            &&& offer.mark is Some
            &&& offers(item, "markPx"@, offer.mark)
            &&& decimal_or_none(offer.mark)
            &&& offer.last is None && offer.bid is None && offer.ask is None
            &&& offer.funding_rate is None
        },
        TickerChannel::FundingRate => {
            &&& offer.funding_rate is Some
            &&& offers(item, "fundingRate"@, offer.funding_rate)
            &&& decimal_or_none(offer.funding_rate)
            &&& offers(item, "fundingTime"@, offer.funding_time)
            &&& offers(item, "nextFundingTime"@, offer.next_funding_time)
            &&& offer.funding_time matches Some(time) ==> is_number(time)
            &&& offer.next_funding_time matches Some(time) ==> is_number(time)
            &&& offer.last is None && offer.bid is None && offer.ask is None && offer.mark is None
        },
    }
}

/// The number that an optional text is.
pub open spec fn number_in(text: Option<Seq<char>>) -> Option<u64> {
    match text {
        Some(digits) => Some(text::digits_value(digits) as u64),
        None => None,
    }
}

/// A ticker with what an item of a channel offers: its own prices, observed at the time of the item.
/// The rate comes with the time of the next settlement.
pub open spec fn with_offer(channel: TickerChannel, before: TickerView, offer: Offer) -> TickerView {
    let time = text::digits_value(offer.time) as u64;
    TickerView {
        last: latest(offer.last, time, before.last),
        mark: latest(offer.mark, time, before.mark),
        index: before.index,
        bid: latest(offer.bid, time, before.bid),
        ask: latest(offer.ask, time, before.ask),
        funding_rate: latest(offer.funding_rate, time, before.funding_rate),
        next_funding_time_ms: if channel == TickerChannel::FundingRate {
            match offer.funding_time {
                Some(_) => number_in(offer.funding_time),
                None => number_in(offer.next_funding_time),
            }
        } else {
            before.next_funding_time_ms
        },
    }
}

/// An item passes, and adds what it offers.
proof fn lemma_item(
    channel: TickerChannel,
    base: TickerView,
    item: JsonView,
    symbol: Seq<char>,
    offer: Offer,
)
    requires
        is_item(channel, item, symbol, offer),
        symbol.len() > 0,
    ensures
        okx::item_problem(channel, item, symbol) is None,
        okx::ticker_after(channel, base, item) == with_offer(channel, base, offer),
        okx::item_time(item) == text::digits_value(offer.time) as u64,
{
    lemma_number(offer.time);
    if let Some(time) = offer.funding_time {
        if is_number(time) {
            lemma_number(time);
        }
    }
    if let Some(time) = offer.next_funding_time {
        if is_number(time) {
            lemma_number(time);
        }
    }
}

/// The event of a ticker.
pub open spec fn ticker_event(
    connection_epoch: u128,
    symbol: Seq<char>,
    time: u64,
    received_at_ms: u64,
    ticker: TickerView,
) -> ProviderEventView {
    ProviderEventView {
        connection_epoch,
        provider: Provider::Okx,
        market: MarketKind::LinearPerpetual,
        symbol,
        exchange_time_ms: Some(time),
        gateway_received_time_ms: received_at_ms,
        source_sequence: None,
        payload: PayloadView::Ticker(ticker),
    }
}

/// What is known of an instrument before the event at a place.
pub open spec fn before_event(
    state: SessionView,
    symbol: Seq<char>,
    events: Seq<ProviderEventView>,
    i: int,
) -> TickerView {
    if i > 0 {
        events[i - 1].payload->Ticker_0
    } else if state.tickers.contains_key(symbol) {
        state.tickers[symbol]
    } else {
        domain::empty_ticker()
    }
}

proof fn lemma_items_along(
    state: SessionView,
    channel: TickerChannel,
    items: Seq<JsonView>,
    list: Seq<Offer>,
    symbol: Seq<char>,
    received_at_ms: u64,
    i: int,
)
    requires
        symbol.len() > 0,
        items.len() == list.len(),
        forall|k: int| 0 <= k < items.len() ==> is_item(channel, #[trigger] items[k], symbol, list[k]),
        0 <= i < items.len(),
    ensures
        ({
            let (after, outcome) = okx::items_along(state, channel, items, symbol, received_at_ms);
            let events = outcome->Ok_0;
            &&& outcome is Ok
            &&& events.len() == list.len()
            &&& events[i] == ticker_event(
                state.connection_epoch,
                symbol,
                text::digits_value(list[i].time) as u64,
                received_at_ms,
                with_offer(channel, before_event(state, symbol, events, i), list[i]),
            )
            &&& after.connection_epoch == state.connection_epoch
            &&& after.next_request_id == state.next_request_id
            &&& after.tickers == state.tickers.insert(symbol, events.last().payload->Ticker_0)
        }),
    decreases items.len(),
{
    reveal_with_fuel(okx::items_along, 2);
    let rest = items.drop_last();
    let others = list.drop_last();
    assert forall|k: int| 0 <= k < rest.len() implies is_item(
        channel,
        #[trigger] rest[k],
        symbol,
        others[k],
    ) by {
        assert(rest[k] == items[k]);
    }
    if rest.len() > 0 {
        lemma_items_along(
            state,
            channel,
            rest,
            others,
            symbol,
            received_at_ms,
            if i < rest.len() {
                i
            } else {
                i - 1
            },
        );
    }
    let (before, outcome) = okx::items_along(state, channel, rest, symbol, received_at_ms);
    let base = providers::known(before.tickers, symbol);
    assert(is_item(channel, items[items.len() - 1], symbol, list[items.len() - 1]));
    lemma_item(channel, base, items.last(), symbol, list.last());
    let events = okx::items_along(state, channel, items, symbol, received_at_ms).1->Ok_0;
    let earlier = outcome->Ok_0;
    assert(rest.len() > 0 ==> events[rest.len() - 1] == earlier[rest.len() - 1]);
    assert(rest.len() > 0 ==> earlier.last() == earlier[rest.len() - 1]);
    if i < rest.len() {
        assert(events[i] == earlier[i]);
        assert(i > 0 ==> events[i - 1] == earlier[i - 1]);
        assert(others[i] == list[i]);
    }
    assert(before.tickers.insert(symbol, events.last().payload->Ticker_0) =~= state.tickers.insert(
        symbol,
        events.last().payload->Ticker_0,
    ));
}

/// The items of the channels for prices, mark prices and funding rates are published in turn: each
/// one adds what it offers, at its own time, to what was known of the instrument, and the last
/// ticker is kept.
pub proof fn law_ticker_items_are_published(
    state: SessionView,
    text: Seq<char>,
    received_at_ms: u64,
    root: JsonView,
    argument: JsonView,
    channel: TickerChannel,
    symbol: Seq<char>,
    items: Seq<JsonView>,
    list: Seq<Offer>,
    i: int,
)
    requires
        text::trimmed(text) != "pong"@,
        json::document_of(text) == Ok::<JsonView, Seq<char>>(root),
        root is Object,
        json::member_of(root, "event"@) is None,
        json::member_of(root, "arg"@) == Some(argument),
        argument is Object,
        says(argument, "channel"@, channel_name(channel)),
        says(argument, "instId"@, symbol),
        text::finishes_with(symbol, "-USDT-SWAP"@) || text::finishes_with(symbol, "-USDC-SWAP"@),
        json::member_of(root, "data"@) == Some(JsonView::List(items)),
        items.len() == list.len(),
        0 <= i < items.len(),
        forall|k: int| 0 <= k < items.len() ==> is_item(channel, #[trigger] items[k], symbol, list[k]),
    ensures
        ({
            let (after, outcome) = okx::text_frame(state, text, received_at_ms);
            let events = outcome->Ok_0->Events_0;
            &&& outcome is Ok
            &&& outcome->Ok_0 is Events
            &&& events.len() == list.len()
            &&& events[i] == ticker_event(
                state.connection_epoch,
                symbol,
                text::digits_value(list[i].time) as u64,
                received_at_ms,
                with_offer(channel, before_event(state, symbol, events, i), list[i]),
            )
            &&& after.connection_epoch == state.connection_epoch
            &&& after.next_request_id == state.next_request_id
            &&& after.tickers == state.tickers.insert(symbol, events.last().payload->Ticker_0)
        }),
{
    reveal_strlit("-USDT-SWAP");
    reveal_strlit("-USDC-SWAP");
    reveal_strlit("tickers");
    reveal_strlit("mark-price");
    reveal_strlit("funding-rate");
    assert("tickers"@.len() != "mark-price"@.len());
    assert("tickers"@.len() != "funding-rate"@.len());
    assert("mark-price"@.len() != "funding-rate"@.len());
    lemma_items_along(state, channel, items, list, symbol, received_at_ms, i);
}

/// What a candle array of OKX holds.
pub struct Row {
    pub start: Seq<char>,
    pub open: Seq<char>,
    pub high: Seq<char>,
    pub low: Seq<char>,
    pub close: Seq<char>,
    pub contracts: Option<Seq<char>>,
    pub base: Option<Seq<char>>,
    pub quote: Option<Seq<char>>,
    pub confirmed: bool,
}

/// Whether a value is that text, or stands for none.
pub open spec fn is_optional(value: JsonView, text: Option<Seq<char>>) -> bool {
    match text {
        Some(text) => value == JsonView::Text(text) && text.len() > 0,
        None => value == JsonView::Null || value == JsonView::Text(Seq::empty()),
    }
}

/// Whether a document is just that array: the start, the open, high, low and close price, the volume
/// in contracts, in the base and in the quote asset, and whether it is confirmed.
pub open spec fn is_row(item: JsonView, row: Row) -> bool {
    &&& item is List
    &&& item->List_0.len() == 9
    &&& item->List_0[0] == JsonView::Text(row.start)
    &&& item->List_0[1] == JsonView::Text(row.open)
    &&& item->List_0[2] == JsonView::Text(row.high)
    &&& item->List_0[3] == JsonView::Text(row.low)
    &&& item->List_0[4] == JsonView::Text(row.close)
    &&& is_optional(item->List_0[5], row.contracts)
    &&& is_optional(item->List_0[6], row.base)
    &&& is_optional(item->List_0[7], row.quote)
    &&& item->List_0[8] == JsonView::Text(
        if row.confirmed {
            "1"@
        } else {
            "0"@
        },
    )
}

/// Whether the start of a row is a number with room for a minute after it, and the rest decimals.
pub open spec fn is_sound(row: Row) -> bool {
    &&& is_number(row.start)
    &&& text::digits_value(row.start) + 60_000 <= u64::MAX
    &&& row.open.len() > 0 && decimal::decimal_of(row.open) is Some
    &&& row.high.len() > 0 && decimal::decimal_of(row.high) is Some
    &&& row.low.len() > 0 && decimal::decimal_of(row.low) is Some
    &&& row.close.len() > 0 && decimal::decimal_of(row.close) is Some
    &&& decimal_or_none(row.contracts)
    &&& decimal_or_none(row.base)
    &&& decimal_or_none(row.quote)
}

/// The event that a candle array is published as.
pub open spec fn row_event(
    connection_epoch: u128,
    symbol: Seq<char>,
    received_at_ms: u64,
    row: Row,
) -> ProviderEventView {
    let start = text::digits_value(row.start);
    ProviderEventView {
        connection_epoch,
        provider: Provider::Okx,
        market: MarketKind::LinearPerpetual,
        symbol,
        exchange_time_ms: Some(start as u64),
        gateway_received_time_ms: received_at_ms,
        source_sequence: None,
        payload: PayloadView::Candle(
            CandleView {
                interval: "1m"@,
                start_time_ms: start as u64,
                end_time_ms: (start + 60_000) as u64,
                open: row.open,
                high: row.high,
                low: row.low,
                close: row.close,
                base_volume: row.base,
                quote_volume: row.quote,
                contract_volume: row.contracts,
                finality: if row.confirmed {
                    CandleFinality::Closed
                } else {
                    CandleFinality::Open
                },
                data_quality: Seq::empty(),
            },
        ),
    }
}

/// Candle arrays are published as they are written, one event for each.
pub proof fn law_candle_arrays_are_published(
    state: SessionView,
    text: Seq<char>,
    received_at_ms: u64,
    root: JsonView,
    argument: JsonView,
    symbol: Seq<char>,
    items: Seq<JsonView>,
    rows: Seq<Row>,
)
    requires
        text::trimmed(text) != "pong"@,
        json::document_of(text) == Ok::<JsonView, Seq<char>>(root),
        root is Object,
        json::member_of(root, "event"@) is None,
        json::member_of(root, "arg"@) == Some(argument),
        argument is Object,
        says(argument, "channel"@, "candle1m"@),
        says(argument, "instId"@, symbol),
        text::finishes_with(symbol, "-USDT-SWAP"@) || text::finishes_with(symbol, "-USDC-SWAP"@),
        json::member_of(root, "data"@) == Some(JsonView::List(items)),
        items.len() == rows.len(),
        forall|i: int|
            0 <= i < items.len() ==> is_row(#[trigger] items[i], rows[i]) && is_sound(rows[i]),
    ensures
        okx::text_frame(state, text, received_at_ms) == (
            state,
            Ok::<FrameView, AdapterErrorView>(
                FrameView::Events(
                    Seq::new(
                        items.len(),
                        |i: int|
                            row_event(state.connection_epoch, symbol, received_at_ms, rows[i]),
                    ),
                ),
            ),
        ),
{
    reveal_strlit("-USDT-SWAP");
    reveal_strlit("-USDC-SWAP");
    reveal_strlit("tickers");
    reveal_strlit("mark-price");
    reveal_strlit("funding-rate");
    reveal_strlit("candle1m");
    reveal_strlit("0");
    reveal_strlit("1");
    assert("0"@[0] != "1"@[0]);
    assert("candle1m"@.len() != "tickers"@.len());
    assert("candle1m"@.len() != "mark-price"@.len());
    assert("candle1m"@.len() != "funding-rate"@.len());
    assert forall|i: int| 0 <= i < items.len() implies okx::candle_problem(
        #[trigger] items[i],
    ) is None && okx::item_candle(items[i]) == row_event(
        state.connection_epoch,
        symbol,
        received_at_ms,
        rows[i],
    ).payload->Candle_0 by {
        lemma_number(rows[i].start);
        assert(is_row(items[i], rows[i]));
    }
    laws::lemma_no_complaint(items, |item: JsonView| okx::candle_problem(item));
    let events = okx::candle_events(state.connection_epoch, symbol, received_at_ms, items);
    let wanted = Seq::new(
        items.len(),
        |i: int| row_event(state.connection_epoch, symbol, received_at_ms, rows[i]),
    );
    assert forall|i: int| 0 <= i < items.len() implies #[trigger] events[i] == wanted[i] by {
        assert(is_row(items[i], rows[i]));
    }
    assert(events =~= wanted);
    assert(Seq::<ProviderEventView>::empty() =~= events || items.len() > 0);
}

/// Every candle of an accepted candle message has the prices at the second, third, fourth and fifth
/// place of its array.
pub proof fn law_accepted_candles_have_their_prices(
    connection_epoch: u128,
    symbol: Seq<char>,
    received_at_ms: u64,
    items: Seq<JsonView>,
    events: Seq<ProviderEventView>,
    i: int,
)
    requires
        okx::candles_frame(connection_epoch, symbol, received_at_ms, items) == Ok::<
            FrameView,
            Seq<char>,
        >(FrameView::Events(events)),
        0 <= i < items.len(),
    ensures
        events.len() == items.len(),
        items[i] is List,
        items[i]->List_0.len() == 9,
        events[i].payload is Candle,
        items[i]->List_0[1] == JsonView::Text(events[i].payload->Candle_0.open),
        items[i]->List_0[2] == JsonView::Text(events[i].payload->Candle_0.high),
        items[i]->List_0[3] == JsonView::Text(events[i].payload->Candle_0.low),
        items[i]->List_0[4] == JsonView::Text(events[i].payload->Candle_0.close),
        events[i].payload->Candle_0.end_time_ms == events[i].payload->Candle_0.start_time_ms
            + 60_000,
{
    laws::lemma_every_item_passes(items, |item: JsonView| okx::candle_problem(item), i);
}

/// The native channels of a kind of update.
pub open spec fn native_channels(channel: Channel) -> Seq<Seq<char>> {
    match channel {
        Channel::Ticker => seq!["tickers"@, "mark-price"@, "funding-rate"@],
        Channel::Candle1m => seq!["candle1m"@],
    }
}

/// Whether one of the keys is served by a native channel of an instrument.
pub open spec fn is_wanted(keys: Seq<KeyView>, arg: (Seq<char>, Seq<char>)) -> bool {
    exists|i: int|
        0 <= i < keys.len() && (#[trigger] keys[i]).symbol == arg.1 && native_channels(
            keys[i].channel,
        ).contains(arg.0)
}

/// Whether an endpoint takes a key.
pub open spec fn is_taken(endpoint: EndpointKind, key: KeyView) -> bool {
    &&& key.provider == Provider::Okx
    &&& text::finishes_with(key.symbol, "-USDT-SWAP"@) || text::finishes_with(
        key.symbol,
        "-USDC-SWAP"@,
    )
    &&& match key.channel {
        Channel::Ticker => endpoint == EndpointKind::Public,
        Channel::Candle1m => endpoint == EndpointKind::Business,
    }
}

proof fn lemma_args(endpoint: EndpointKind, keys: Seq<KeyView>, arg: (Seq<char>, Seq<char>))
    requires
        forall|i: int| 0 <= i < keys.len() ==> is_taken(endpoint, #[trigger] keys[i]),
    ensures
        okx::gathered_args(endpoint, keys) is Ok,
        okx::gathered_args(endpoint, keys)->Ok_0.contains(arg) == is_wanted(keys, arg),
    decreases keys.len(),
{
    if keys.len() > 0 {
        let rest = keys.drop_last();
        let key = keys.last();
        assert(keys[keys.len() - 1] == key);
        assert forall|i: int| 0 <= i < rest.len() implies is_taken(endpoint, #[trigger] rest[i]) by {
            assert(rest[i] == keys[i]);
        }
        lemma_args(endpoint, rest, arg);
        let args = okx::args_of(endpoint, key)->Ok_0;
        laws::lemma_all_new(okx::gathered_args(endpoint, rest)->Ok_0, args, arg);
        let names = native_channels(key.channel);
        assert(args.len() == names.len());
        assert forall|k: int| 0 <= k < args.len() implies #[trigger] args[k] == (
            names[k],
            key.symbol,
        ) by {}
        assert(args.contains(arg) == (arg.1 == key.symbol && names.contains(arg.0))) by {
            if args.contains(arg) {
                let k = choose|k: int| 0 <= k < args.len() && args[k] == arg;
                assert(names[k] == arg.0);
            }
            if arg.1 == key.symbol && names.contains(arg.0) {
                let k = choose|k: int| 0 <= k < names.len() && names[k] == arg.0;
                assert(args[k] == arg);
            }
        }
        if is_wanted(keys, arg) {
            let i = choose|i: int|
                0 <= i < keys.len() && (#[trigger] keys[i]).symbol == arg.1 && native_channels(
                    keys[i].channel,
                ).contains(arg.0);
            if i < rest.len() {
                assert(rest[i] == keys[i]);
            }
        }
        if is_wanted(rest, arg) {
            let i = choose|i: int|
                0 <= i < rest.len() && (#[trigger] rest[i]).symbol == arg.1 && native_channels(
                    rest[i].channel,
                ).contains(arg.0);
            assert(keys[i] == rest[i]);
        }
    }
}

/// A change of subscriptions that the endpoint takes is asked for in commands that together name
/// every native channel of every key and nothing else. The venue answers each argument by itself.
pub proof fn law_commands_name_the_channels_of_the_keys(
    endpoint: EndpointKind,
    state: SessionView,
    action: SubscriptionAction,
    keys: Seq<KeyView>,
) -> (parts: Seq<Seq<(Seq<char>, Seq<char>)>>)
    requires
        forall|i: int| 0 <= i < keys.len() ==> is_taken(endpoint, #[trigger] keys[i]),
    ensures
        okx::subscription_outcome(endpoint, state, action, keys).1 is Ok,
        ({
            let list = okx::subscription_outcome(endpoint, state, action, keys).1->Ok_0;
            &&& list.len() == parts.len()
            &&& forall|i: int|
                0 <= i < list.len() ==> (#[trigger] list[i]).text == json::text_of(
                    JsonView::Object(
                        seq![
                            ("id"@, JsonView::Text(list[i].request_id)),
                            (
                                "op"@,
                                JsonView::Text(
                                    match action {
                                        SubscriptionAction::Subscribe => "subscribe"@,
                                        SubscriptionAction::Unsubscribe => "unsubscribe"@,
                                    },
                                ),
                            ),
                            (
                                "args"@,
                                JsonView::List(
                                    Seq::new(
                                        parts[i].len(),
                                        |k: int|
                                            JsonView::Object(
                                                seq![
                                                    ("channel"@, JsonView::Text(parts[i][k].0)),
                                                    ("instId"@, JsonView::Text(parts[i][k].1)),
                                                ],
                                            ),
                                    ),
                                ),
                            ),
                        ],
                    ),
                ) && list[i].expected_acknowledgements == parts[i].len() && 0 < parts[i].len()
                    <= 100
        }),
        forall|arg: (Seq<char>, Seq<char>)| #[trigger]
            in_some_part(parts, arg) <==> is_wanted(keys, arg),
{
    assert(!laws::has_foreign(Provider::Okx, keys)) by {
        if laws::has_foreign(Provider::Okx, keys) {
            let i = choose|i: int| 0 <= i < keys.len() && (#[trigger] keys[i]).provider
                != Provider::Okx;
            assert(is_taken(endpoint, keys[i]));
        }
    }
    laws::lemma_foreign(Provider::Okx, keys);
    lemma_args(endpoint, keys, (Seq::empty(), Seq::empty()));
    let args = okx::gathered_args(endpoint, keys)->Ok_0;
    let parts = providers::chunks(args, okx::COMMAND_ARGS_LIMIT as nat);
    providers::law_chunks_partition(args, okx::COMMAND_ARGS_LIMIT as nat);
    assert forall|arg: (Seq<char>, Seq<char>)| #[trigger]
        in_some_part(parts, arg) <==> is_wanted(keys, arg) by {
        laws::lemma_joined(parts, arg);
        lemma_args(endpoint, keys, arg);
    }
    let list = okx::subscription_outcome(endpoint, state, action, keys).1->Ok_0;
    assert forall|i: int| 0 <= i < list.len() implies (#[trigger] list[i]).text == json::text_of(
        JsonView::Object(
            seq![
                ("id"@, JsonView::Text(list[i].request_id)),
                (
                    "op"@,
                    JsonView::Text(
                        match action {
                            SubscriptionAction::Subscribe => "subscribe"@,
                            SubscriptionAction::Unsubscribe => "unsubscribe"@,
                        },
                    ),
                ),
                (
                    "args"@,
                    JsonView::List(
                        Seq::new(
                            parts[i].len(),
                            |k: int|
                                JsonView::Object(
                                    seq![
                                        ("channel"@, JsonView::Text(parts[i][k].0)),
                                        ("instId"@, JsonView::Text(parts[i][k].1)),
                                    ],
                                ),
                        ),
                    ),
                ),
            ],
        ),
    ) && list[i].expected_acknowledgements == parts[i].len() by {
        assert(0 < parts[i].len() <= 100);
        assert(Seq::new(
            parts[i].len(),
            |k: int|
                JsonView::Object(
                    seq![
                        ("channel"@, JsonView::Text(parts[i][k].0)),
                        ("instId"@, JsonView::Text(parts[i][k].1)),
                    ],
                ),
        ) =~= Seq::new(parts[i].len(), |k: int| okx::arg_document(parts[i][k])));
    }
    parts
}

/// Data of any native channel of a key is read, and never passed over.
pub proof fn law_asked_channels_are_read(
    state: SessionView,
    received_at_ms: u64,
    root: JsonView,
    argument: JsonView,
    items: Seq<JsonView>,
    key: KeyView,
    channel: Seq<char>,
)
    requires
        root is Object,
        json::member_of(root, "event"@) is None,
        json::member_of(root, "arg"@) == Some(argument),
        native_channels(key.channel).contains(channel),
        says(argument, "channel"@, channel),
        says(argument, "instId"@, key.symbol),
        json::member_of(root, "data"@) == Some(JsonView::List(items)),
    ensures
        okx::document_frame(state, root, received_at_ms).1 != Ok::<FrameView, AdapterErrorView>(
            FrameView::Ignored,
        ),
        okx::document_frame(state, root, received_at_ms).1 matches Ok(frame) ==> frame is Events
            && frame->Events_0.len() == items.len() && forall|i: int|
            0 <= i < items.len() ==> (#[trigger] frame->Events_0[i]).symbol == key.symbol && match (
                frame->Events_0[i].payload
            ) {
                PayloadView::Ticker(_) => key.channel == Channel::Ticker,
                PayloadView::Candle(_) => key.channel == Channel::Candle1m,
            },
{
    reveal_strlit("tickers");
    reveal_strlit("mark-price");
    reveal_strlit("funding-rate");
    reveal_strlit("candle1m");
    assert("tickers"@.len() != "mark-price"@.len());
    assert("tickers"@.len() != "funding-rate"@.len());
    assert("mark-price"@.len() != "funding-rate"@.len());
    assert("candle1m"@.len() != "tickers"@.len());
    assert("candle1m"@.len() != "mark-price"@.len());
    assert("candle1m"@.len() != "funding-rate"@.len());
    lemma_items_of(state, TickerChannel::Tickers, items, key.symbol, received_at_ms);
    lemma_items_of(state, TickerChannel::MarkPrice, items, key.symbol, received_at_ms);
    lemma_items_of(state, TickerChannel::FundingRate, items, key.symbol, received_at_ms);
}

proof fn lemma_items_of(
    state: SessionView,
    channel: TickerChannel,
    items: Seq<JsonView>,
    symbol: Seq<char>,
    received_at_ms: u64,
)
    ensures
        okx::items_along(state, channel, items, symbol, received_at_ms).1 matches Ok(events) ==> {
            &&& events.len() == items.len()
            &&& forall|i: int|
                0 <= i < events.len() ==> (#[trigger] events[i]).symbol == symbol
                    && events[i].payload is Ticker
        },
    decreases items.len(),
{
    if items.len() > 0 {
        lemma_items_of(state, channel, items.drop_last(), symbol, received_at_ms);
    }
}

/// What the venue says of a command is told under the identifier of the command: an accepted one is
/// acknowledged, and an error is one. The answer to a sign of life is told as one.
pub proof fn law_answers_to_commands_are_told(
    state: SessionView,
    text: Seq<char>,
    received_at_ms: u64,
    root: JsonView,
    event: Seq<char>,
    request_id: Seq<char>,
)
    requires
        text::trimmed(text) != "pong"@,
        json::document_of(text) == Ok::<JsonView, Seq<char>>(root),
        root is Object,
        says(root, "event"@, event),
        says(root, "id"@, request_id),
        request_id.len() > 0,
        text::byte_length(request_id) <= 32,
    ensures
        okx::text_frame(state, text, received_at_ms).0 == state,
        event == "subscribe"@ || event == "unsubscribe"@ ==> okx::text_frame(
            state,
            text,
            received_at_ms,
        ).1 == Ok::<FrameView, AdapterErrorView>(FrameView::Acknowledgement { request_id }),
        event == "error"@ ==> laws::is_rejection(
            okx::text_frame(state, text, received_at_ms).1,
            Provider::Okx,
        ),
        okx::text_frame(state, "pong"@, received_at_ms).1 == Ok::<FrameView, AdapterErrorView>(
            FrameView::Pong,
        ),
{
    reveal_strlit("subscribe");
    reveal_strlit("unsubscribe");
    reveal_strlit("error");
    assert("error"@.len() != "subscribe"@.len());
    assert("error"@.len() != "unsubscribe"@.len());
    reveal_strlit("pong");
    reveal_with_fuel(text::without_leading_white, 2);
    reveal_with_fuel(text::without_trailing_white, 2);
    assert(!text::is_white("pong"@[0]) && !text::is_white("pong"@.last()));
}

} // verus!
