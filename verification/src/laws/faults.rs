//! Which messages of the venues are refused because something in them is no price, or no candle of a
//! minute.
use vstd::prelude::*;

use super::says;
use crate::decimal;
use crate::domain::{KeyView, Provider};
use crate::json;
use crate::json::{JsonView, LayoutView};
use crate::laws;
use crate::providers;
use crate::providers::binance;
use crate::providers::bingx;
use crate::providers::bingx::{BingxView, TickerStream};
use crate::providers::bybit;
use crate::providers::kucoin;
use crate::providers::mexc;
use crate::providers::mexc::MexcView;
use crate::providers::okx;
use crate::providers::okx::TickerChannel;
use crate::providers::{EndpointKind, SessionView, SubscriptionAction};
use crate::text;

verus! {

/// Whether an object has a text of that name that is not empty and no decimal.
pub open spec fn misspells(object: JsonView, name: Seq<char>) -> bool {
    match json::member_of(object, name) {
        Some(JsonView::Text(text)) => text.len() > 0 && decimal::decimal_of(text) is None,
        _ => false,
    }
}

/// A ticker of Bybit with a price that is no decimal is refused, and nothing is kept of it.
pub proof fn law_bybit_tickers_tell_decimals(
    state: SessionView,
    text: Seq<char>,
    received_at_ms: u64,
    root: JsonView,
    data: JsonView,
    name: Seq<char>,
)
    requires
        json::document_of(text) == Ok::<JsonView, Seq<char>>(root),
        root is Object,
        json::member_of(root, "op"@) is None,
        json::member_of(root, "success"@) is None,
        says(root, "topic"@, "tickers."@ + name),
        says(root, "type"@, "snapshot"@) || says(root, "type"@, "delta"@),
        json::member_of(root, "data"@) == Some(data),
        data is Object,
        misspells(data, "lastPrice"@) || misspells(data, "markPrice"@) || misspells(
            data,
            "indexPrice"@,
        ) || misspells(data, "bid1Price"@) || misspells(data, "ask1Price"@) || misspells(
            data,
            "fundingRate"@,
        ),
    ensures
        bybit::text_frame(state, text, received_at_ms).0 == state,
        bybit::text_frame(state, text, received_at_ms).1 is Err,
{
    reveal_strlit("snapshot");
    reveal_strlit("delta");
    reveal_strlit("COMMAND_RESP");
    assert("snapshot"@.len() == 8 && "COMMAND_RESP"@.len() == 12 && "delta"@.len() == 5);
    reveal_strlit("data");
    reveal_strlit("topic");
    reveal_strlit("type");
    assert("topic"@.len() == 5 && "data"@.len() == 4);
    assert("type"@[0] == 't' && "data"@[0] == 'd');
    laws::lemma_prefixed("tickers."@, name);
    let names =
        "symbol,lastPrice,markPrice,indexPrice,bid1Price,ask1Price,fundingRate,nextFundingTime"@;
    let inner = LayoutView::Each(Box::new(json::flat(names, 8)));
    laws::lemma_nested_object(root, "topic,type,ts,cs,data"@, 5, "data"@, inner, "topic"@);
    laws::lemma_nested_object(root, "topic,type,ts,cs,data"@, 5, "data"@, inner, "type"@);
    laws::lemma_nested_object(root, "topic,type,ts,cs,data"@, 5, "data"@, inner, "data"@);
    let value = json::arranged(root, bybit::tickers_layout());
    assert(json::member_of(value, "data"@) == Some(data));
    reveal_with_fuel(bybit::tickers_along, 2);
    assert(seq![data].drop_last() =~= Seq::<JsonView>::empty());
    assert(seq![data].last() == data);
    assert(bybit::update_problem(data, providers::symbol_of(name)) is Some);
}

/// A candle of Bybit that is not of one minute, or with a price that is no decimal, is refused with its
/// message.
pub proof fn law_bybit_candles_are_of_one_minute(
    state: SessionView,
    text: Seq<char>,
    received_at_ms: u64,
    root: JsonView,
    items: Seq<JsonView>,
    name: Seq<char>,
    i: int,
    interval: Seq<char>,
)
    requires
        json::document_of(text) == Ok::<JsonView, Seq<char>>(root),
        root is Object,
        json::member_of(root, "op"@) is None,
        json::member_of(root, "success"@) is None,
        says(root, "topic"@, "kline.1."@ + name),
        says(root, "type"@, "snapshot"@),
        json::member_of(root, "data"@) == Some(JsonView::List(items)),
        forall|k: int| 0 <= k < items.len() ==> (#[trigger] items[k]) is Object,
        0 <= i < items.len(),
        (says(items[i], "interval"@, interval) && interval != "1"@) || misspells(items[i], "open"@)
            || misspells(items[i], "high"@) || misspells(items[i], "low"@) || misspells(
            items[i],
            "close"@,
        ),
    ensures
        bybit::text_frame(state, text, received_at_ms).0 == state,
        bybit::text_frame(state, text, received_at_ms).1 is Err,
{
    reveal_strlit("snapshot");
    reveal_strlit("COMMAND_RESP");
    assert("snapshot"@.len() != "COMMAND_RESP"@.len());
    reveal_strlit("data");
    reveal_strlit("topic");
    reveal_strlit("type");
    reveal_strlit("tickers.");
    reveal_strlit("kline.");
    reveal_strlit("kline.1.");
    assert("topic"@.len() != "data"@.len());
    assert("type"@[0] != "data"@[0]);
    laws::lemma_prefixed("kline.1."@, name);
    laws::lemma_other_prefix("kline.1."@, name, "tickers."@, 0);
    let topic = "kline.1."@ + name;
    assert(topic.take(6) =~= "kline."@);
    let fields = "start,end,interval,open,high,low,close,volume,turnover,confirm,timestamp"@;
    let inner = LayoutView::Each(Box::new(json::flat(fields, 11)));
    let names = "topic,type,ts,data"@;
    let value = json::arranged(root, bybit::klines_layout());
    assert(bybit::klines_layout() == json::with_field(json::flat(names, 4), "data"@, inner));
    laws::lemma_nested_object(root, names, 4, "data"@, inner, "topic"@);
    laws::lemma_nested_object(root, names, 4, "data"@, inner, "type"@);
    laws::lemma_flat_objects(items, fields, 11);
    assert(json::member_of(value, "data"@) == Some(JsonView::List(items)));
    if providers::first_complaint(items, |item: JsonView| bybit::kline_problem(item)) is None {
        laws::lemma_every_item_passes(items, |item: JsonView| bybit::kline_problem(item), i);
    }
}

proof fn lemma_okx_items(
    state: SessionView,
    channel: TickerChannel,
    items: Seq<JsonView>,
    symbol: Seq<char>,
    received_at_ms: u64,
    i: int,
)
    requires
        0 <= i < items.len(),
        okx::items_along(state, channel, items, symbol, received_at_ms).1 is Ok,
    ensures
        okx::item_problem(channel, items[i], symbol) is None,
    decreases items.len(),
{
    if i < items.len() - 1 {
        lemma_okx_items(state, channel, items.drop_last(), symbol, received_at_ms, i);
    }
}

/// An item of OKX with a price that is no decimal, or with none at all, is refused with its message.
pub proof fn law_okx_items_tell_decimals(
    state: SessionView,
    text: Seq<char>,
    received_at_ms: u64,
    root: JsonView,
    argument: JsonView,
    channel: TickerChannel,
    symbol: Seq<char>,
    items: Seq<JsonView>,
    i: int,
)
    requires
        text::trimmed(text) != "pong"@,
        json::document_of(text) == Ok::<JsonView, Seq<char>>(root),
        root is Object,
        json::member_of(root, "event"@) is None,
        json::member_of(root, "arg"@) == Some(argument),
        argument is Object,
        says(argument, "channel"@, super::okx::channel_name(channel)),
        says(argument, "instId"@, symbol),
        json::member_of(root, "data"@) == Some(JsonView::List(items)),
        0 <= i < items.len(),
        match channel {
            TickerChannel::Tickers => misspells(items[i], "last"@) || misspells(items[i], "bidPx"@)
                || misspells(items[i], "askPx"@) || (json::member_of(items[i], "last"@) is None
                && json::member_of(items[i], "bidPx"@) is None && json::member_of(
                items[i],
                "askPx"@,
            ) is None),
            TickerChannel::MarkPrice => misspells(items[i], "markPx"@) || json::member_of(
                items[i],
                "markPx"@,
            ) is None,
            TickerChannel::FundingRate => misspells(items[i], "fundingRate"@) || json::member_of(
                items[i],
                "fundingRate"@,
            ) is None,
        },
    ensures
        okx::text_frame(state, text, received_at_ms).1 is Err,
{
    reveal_strlit("tickers");
    reveal_strlit("mark-price");
    reveal_strlit("funding-rate");
    assert("tickers"@.len() == 7 && "mark-price"@.len() == 10 && "funding-rate"@.len() == 12);
    if okx::items_along(state, channel, items, symbol, received_at_ms).1 is Ok {
        lemma_okx_items(state, channel, items, symbol, received_at_ms, i);
    }
}

/// A candle of OKX without nine values, or with one of the four prices that is no decimal, is refused with
/// its message.
pub proof fn law_okx_candles_are_whole(
    state: SessionView,
    text: Seq<char>,
    received_at_ms: u64,
    root: JsonView,
    argument: JsonView,
    symbol: Seq<char>,
    items: Seq<JsonView>,
    i: int,
    k: int,
    word: Seq<char>,
)
    requires
        text::trimmed(text) != "pong"@,
        json::document_of(text) == Ok::<JsonView, Seq<char>>(root),
        root is Object,
        json::member_of(root, "event"@) is None,
        json::member_of(root, "arg"@) == Some(argument),
        argument is Object,
        says(argument, "channel"@, "candle1m"@),
        says(argument, "instId"@, symbol),
        json::member_of(root, "data"@) == Some(JsonView::List(items)),
        0 <= i < items.len(),
        match items[i] {
            JsonView::List(values) => values.len() != 9 || (1 <= k <= 4 && values[k]
                == JsonView::Text(word) && decimal::decimal_of(word) is None),
            _ => true,
        },
    ensures
        okx::text_frame(state, text, received_at_ms).1 is Err,
{
    reveal_strlit("tickers");
    reveal_strlit("mark-price");
    reveal_strlit("funding-rate");
    reveal_strlit("candle1m");
    assert("candle1m"@.len() != "tickers"@.len());
    assert("candle1m"@.len() != "mark-price"@.len());
    assert("candle1m"@.len() != "funding-rate"@.len());
    if providers::first_complaint(items, |item: JsonView| okx::candle_problem(item)) is None {
        laws::lemma_every_item_passes(items, |item: JsonView| okx::candle_problem(item), i);
    }
}

/// A ticker or a mark price of Binance with a price that is no decimal is refused, and nothing is kept of
/// it.
pub proof fn law_binance_tickers_tell_decimals(
    state: SessionView,
    text: Seq<char>,
    received_at_ms: u64,
    event: JsonView,
    stream: Option<Seq<char>>,
)
    requires
        super::binance::is_event(text, event, stream),
        (says(event, "e"@, "24hrTicker"@) && (misspells(event, "c"@) || misspells(event, "b"@)
            || misspells(event, "a"@))) || (says(event, "e"@, "markPriceUpdate"@) && (misspells(
            event,
            "p"@,
        ) || misspells(event, "i"@) || misspells(event, "r"@))),
    ensures
        binance::text_frame(state, text, received_at_ms).0 == state,
        binance::text_frame(state, text, received_at_ms).1 is Err,
{
    super::binance::lemma_event(state, text, event, stream, received_at_ms);
    reveal_strlit("24hrTicker");
    reveal_strlit("markPriceUpdate");
    assert("24hrTicker"@.len() != "markPriceUpdate"@.len());
}

/// A ticker of MEXC with a price that is no decimal, and a candle that is not of one minute, is refused,
/// and nothing is kept of it.
pub proof fn law_mexc_messages_tell_decimals(
    state: MexcView,
    text: Seq<char>,
    received_at_ms: u64,
    root: JsonView,
    data: JsonView,
    interval: Seq<char>,
)
    requires
        json::document_of(text) == Ok::<JsonView, Seq<char>>(root),
        root is Object,
        json::member_of(root, "data"@) == Some(data),
        (says(root, "channel"@, "push.ticker"@) && (misspells(data, "lastPrice"@) || misspells(
            data,
            "fairPrice"@,
        ) || misspells(data, "indexPrice"@) || misspells(data, "bid1"@) || misspells(data, "ask1"@)
            || misspells(data, "fundingRate"@))) || (says(root, "channel"@, "push.kline"@) && says(
            data,
            "interval"@,
            interval,
        ) && interval != "Min1"@),
    ensures
        mexc::text_frame(state, text, received_at_ms).0 == state,
        mexc::text_frame(state, text, received_at_ms).1 is Err,
{
    reveal_strlit("push.ticker");
    reveal_strlit("push.funding.rate");
    reveal_strlit("push.kline");
    reveal_strlit("pong");
    reveal_strlit("rs.error");
    reveal_strlit("rs.sub.");
    reveal_strlit("rs.unsub.");
    assert("push.ticker"@.len() == 11 && "push.funding.rate"@.len() == 17);
    assert("push.kline"@.len() == 10 && "pong"@.len() == 4 && "rs.error"@.len() == 8);
    assert("push.ticker"@.take(7)[0] == 'p' && "push.ticker"@.take(9)[0] == 'p');
    assert("push.kline"@.take(7)[0] == 'p' && "push.kline"@.take(9)[0] == 'p');
    assert("rs.sub."@[0] == 'r' && "rs.unsub."@[0] == 'r');
}

/// A candle of KuCoin of another instrument than its topic, or without seven values, is refused.
pub proof fn law_kucoin_candles_are_of_their_topic(
    state: SessionView,
    text: Seq<char>,
    received_at_ms: u64,
    root: JsonView,
    data: JsonView,
    names: Seq<char>,
    symbol: Seq<char>,
    values: Seq<JsonView>,
)
    requires
        super::kucoin::is_message(
            text,
            root,
            "/contractMarket/limitCandle:"@ + names,
            "candle.stick"@,
            data,
        ),
        says(data, "symbol"@, symbol),
        json::member_of(data, "candles"@) == Some(JsonView::List(values)),
        !text::pieces(names, ',').contains(symbol + "_1min"@) || values.len() != 7,
    ensures
        kucoin::text_frame(state, text, received_at_ms).0 == state,
        kucoin::text_frame(state, text, received_at_ms).1 is Err,
{
    super::kucoin::lemma_topics();
    let prefix = "/contractMarket/limitCandle:"@;
    laws::lemma_prefixed(prefix, names);
    laws::lemma_other_prefix(prefix, names, "/contractMarket/tickerV2:"@, 16);
    laws::lemma_other_prefix(prefix, names, "/contractMarket/execution:"@, 16);
    assert(kucoin::candle_problem(root) is Some);
}

/// A ticker of BingX with a price that is no decimal is refused, and nothing is kept of it.
pub proof fn law_bingx_tickers_tell_decimals(
    state: BingxView,
    text: Seq<char>,
    received_at_ms: u64,
    root: JsonView,
    data: JsonView,
    name: Seq<char>,
    suffix: Seq<char>,
)
    requires
        text != "Ping"@,
        text != "Pong"@,
        json::document_of(text) == Ok::<JsonView, Seq<char>>(root),
        root is Object,
        json::member_of(root, "id"@) is None,
        says(root, "dataType"@, name + suffix),
        (suffix == "@ticker"@ && misspells(data, "c"@)) || (suffix == "@markPrice"@ && misspells(
            data,
            "p"@,
        )) || (suffix == "@bookTicker"@ && (misspells(data, "b"@) || misspells(data, "a"@))),
        json::member_of(root, "data"@) == Some(data),
        data is Object,
    ensures
        bingx::text_frame(state, text, received_at_ms).0 == state,
        bingx::text_frame(state, text, received_at_ms).1 is Err,
{
    super::bingx::lemma_topic(name);
    super::bingx::lemma_arranged(root, data, TickerStream::Last);
    super::bingx::lemma_arranged(root, data, TickerStream::Mark);
    super::bingx::lemma_arranged(root, data, TickerStream::Book);
}

// ---------------------------------------------------------------------------------------------
// Keys
// ---------------------------------------------------------------------------------------------

/// A key of another venue is refused with all keys that come with it, and nothing changes.
pub proof fn law_keys_of_other_venues_are_refused(
    endpoint: EndpointKind,
    state: SessionView,
    mexc: MexcView,
    bingx: BingxView,
    action: SubscriptionAction,
    keys: Seq<KeyView>,
)
    ensures
        laws::has_foreign(Provider::Okx, keys) ==> okx::subscription_outcome(
            endpoint,
            state,
            action,
            keys,
        ).0 == state && okx::subscription_outcome(endpoint, state, action, keys).1 is Err,
        laws::has_foreign(Provider::Kucoin, keys) ==> kucoin::subscription_outcome(
            endpoint,
            state,
            action,
            keys,
        ).0 == state && kucoin::subscription_outcome(endpoint, state, action, keys).1 is Err,
        laws::has_foreign(Provider::Mexc, keys) ==> mexc::subscription_outcome(
            endpoint,
            mexc,
            action,
            keys,
        ).0 == mexc && mexc::subscription_outcome(endpoint, mexc, action, keys).1 is Err,
        laws::has_foreign(Provider::Bingx, keys) ==> bingx::subscription_outcome(
            bingx,
            action,
            keys,
        ).0 == bingx && bingx::subscription_outcome(bingx, action, keys).1 is Err,
{
    laws::lemma_foreign(Provider::Okx, keys);
    laws::lemma_foreign(Provider::Kucoin, keys);
    laws::lemma_foreign(Provider::Mexc, keys);
    laws::lemma_foreign(Provider::Bingx, keys);
}

proof fn lemma_okx_args(endpoint: EndpointKind, keys: Seq<KeyView>, i: int)
    requires
        okx::gathered_args(endpoint, keys) is Ok,
        0 <= i < keys.len(),
    ensures
        okx::args_of(endpoint, keys[i]) is Ok,
    decreases keys.len(),
{
    if i < keys.len() - 1 {
        lemma_okx_args(endpoint, keys.drop_last(), i);
    }
}

/// A key that OKX does not take on an endpoint, for its symbol or for its channel, is refused with all keys
/// that come with it, and nothing changes.
pub proof fn law_okx_refuses_what_it_does_not_take(
    endpoint: EndpointKind,
    state: SessionView,
    action: SubscriptionAction,
    keys: Seq<KeyView>,
    i: int,
)
    requires
        0 <= i < keys.len(),
        !super::okx::is_taken(endpoint, keys[i]),
    ensures
        okx::subscription_outcome(endpoint, state, action, keys).0 == state,
        okx::subscription_outcome(endpoint, state, action, keys).1 is Err,
{
    laws::lemma_foreign(Provider::Okx, keys);
    if okx::gathered_args(endpoint, keys) is Ok {
        lemma_okx_args(endpoint, keys, i);
        assert(keys[i].provider != Provider::Okx);
    }
}

proof fn lemma_kucoin_symbols(keys: Seq<KeyView>, i: int)
    requires
        kucoin::symbol_refusal(keys) is None,
        0 <= i < keys.len(),
    ensures
        kucoin::is_linear(keys[i].symbol),
    decreases keys.len(),
{
    if i < keys.len() - 1 {
        lemma_kucoin_symbols(keys.drop_last(), i);
    }
}

/// KuCoin refuses symbols that are not settled in USDT or USDC, and has one endpoint only.
pub proof fn law_kucoin_refuses_what_it_does_not_take(
    endpoint: EndpointKind,
    state: SessionView,
    action: SubscriptionAction,
    keys: Seq<KeyView>,
    i: int,
)
    requires
        endpoint != EndpointKind::Primary || (0 <= i < keys.len() && !text::finishes_with(
            keys[i].symbol,
            "USDTM"@,
        ) && !text::finishes_with(keys[i].symbol, "USDCM"@)),
    ensures
        kucoin::subscription_outcome(endpoint, state, action, keys).0 == state,
        kucoin::subscription_outcome(endpoint, state, action, keys).1 is Err,
{
    if endpoint == EndpointKind::Primary && kucoin::symbol_refusal(keys) is None {
        lemma_kucoin_symbols(keys, i);
    }
}

proof fn lemma_mexc_symbols(keys: Seq<KeyView>, i: int)
    requires
        mexc::first_faulty(keys) >= keys.len(),
        0 <= i < keys.len(),
    ensures
        mexc::symbol_fault(keys[i].symbol) is None,
    decreases keys.len(),
{
    if i > 0 {
        lemma_mexc_symbols(keys.skip(1), i - 1);
        assert(keys.skip(1)[i - 1] == keys[i]);
    }
}

/// MEXC refuses symbols that are not an asset in USDT, and has one endpoint only.
pub proof fn law_mexc_refuses_what_it_does_not_take(
    endpoint: EndpointKind,
    state: MexcView,
    action: SubscriptionAction,
    keys: Seq<KeyView>,
    i: int,
)
    requires
        endpoint != EndpointKind::Primary || (0 <= i < keys.len() && !super::mexc::is_taken(
            keys[i],
        )),
    ensures
        mexc::subscription_outcome(endpoint, state, action, keys).1 is Err,
{
    laws::lemma_foreign(Provider::Mexc, keys);
    if endpoint == EndpointKind::Primary && mexc::first_faulty(keys) >= keys.len() {
        lemma_mexc_symbols(keys, i);
        let symbol = keys[i].symbol;
        let base = symbol.take(symbol.len() - "_USDT"@.len());
        assert(symbol =~= base + "_USDT"@);
        assert(super::mexc::is_symbol(symbol, base));
        assert(keys[i].provider != Provider::Mexc);
    }
}

} // verus!
