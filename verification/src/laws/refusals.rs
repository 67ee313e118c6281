//! What is not taken from a venue.
use vstd::prelude::*;

use super::says;
use crate::domain;
use crate::json;
use crate::json::{JsonView, LayoutView};
use crate::laws;
use crate::providers;
use crate::providers::binance;
use crate::providers::bingx;
use crate::providers::bingx::{BingxView, TickerStream};
use crate::providers::bybit;
use crate::providers::kucoin;
use crate::providers::mexc;
use crate::providers::mexc::MexcView;
use crate::providers::okx;
use crate::providers::okx::TickerChannel;
use crate::providers::SessionView;
use crate::text;

verus! {

/// Whether two names are not those of one instrument.
pub open spec fn name_different(name: Seq<char>, other: Seq<char>) -> bool {
    match (domain::symbol_identity(name), domain::symbol_identity(other)) {
        (Ok(one), Ok(two)) => one != two,
        _ => true,
    }
}

/// A ticker of Bybit whose data are of another instrument than its topic is refused, and nothing is
/// kept of it.
pub proof fn law_bybit_tickers_are_of_their_topic(
    state: SessionView,
    text: Seq<char>,
    received_at_ms: u64,
    root: JsonView,
    data: JsonView,
    name: Seq<char>,
    other: Seq<char>,
)
    requires
        json::document_of(text) == Ok::<JsonView, Seq<char>>(root),
        root is Object,
        json::member_of(root, "op"@) is None,
        json::member_of(root, "success"@) is None,
        says(root, "topic"@, "tickers."@ + name),
        says(root, "type"@, "snapshot"@) || says(root, "type"@, "delta"@),
        json::member_of(root, "data"@) == Some(data),
        data is Object,
        says(data, "symbol"@, other),
        name_different(name, other),
    ensures
        bybit::text_frame(state, text, received_at_ms).0 == state,
        bybit::text_frame(state, text, received_at_ms).1 is Err,
{
    reveal_strlit("snapshot");
    reveal_strlit("delta");
    reveal_strlit("COMMAND_RESP");
    assert("snapshot"@.len() == 8 && "COMMAND_RESP"@.len() == 12 && "delta"@.len() == 5);
    reveal_strlit("data");
    reveal_strlit("topic");
    reveal_strlit("type");
    assert("topic"@.len() == 5 && "data"@.len() == 4);
    assert("type"@[0] == 't' && "data"@[0] == 'd');
    laws::lemma_prefixed("tickers."@, name);
    let names =
        "symbol,lastPrice,markPrice,indexPrice,bid1Price,ask1Price,fundingRate,nextFundingTime"@;
    let inner = LayoutView::Each(Box::new(json::flat(names, 8)));
    laws::lemma_nested_object(root, "topic,type,ts,cs,data"@, 5, "data"@, inner, "topic"@);
    laws::lemma_nested_object(root, "topic,type,ts,cs,data"@, 5, "data"@, inner, "type"@);
    laws::lemma_nested_object(root, "topic,type,ts,cs,data"@, 5, "data"@, inner, "data"@);
    let value = json::arranged(root, bybit::tickers_layout());
    assert(json::member_of(value, "data"@) == Some(data));
    reveal_with_fuel(bybit::tickers_along, 2);
    assert(seq![data].drop_last() =~= Seq::<JsonView>::empty());
    assert(seq![data].last() == data);
    assert(bybit::update_problem(data, providers::symbol_of(name)) is Some);
}

proof fn lemma_okx_items(
    state: SessionView,
    channel: TickerChannel,
    items: Seq<JsonView>,
    symbol: Seq<char>,
    received_at_ms: u64,
    i: int,
)
    requires
        0 <= i < items.len(),
        okx::items_along(state, channel, items, symbol, received_at_ms).1 is Ok,
    ensures
        okx::item_problem(channel, items[i], symbol) is None,
    decreases items.len(),
{
    if i < items.len() - 1 {
        lemma_okx_items(state, channel, items.drop_last(), symbol, received_at_ms, i);
    }
}

/// An item of OKX that names another instrument than the argument of its message, or one that is no
/// swap, is refused with its message.
pub proof fn law_okx_items_are_of_their_argument(
    state: SessionView,
    text: Seq<char>,
    received_at_ms: u64,
    root: JsonView,
    argument: JsonView,
    channel: TickerChannel,
    symbol: Seq<char>,
    items: Seq<JsonView>,
    i: int,
    other: Seq<char>,
    kind: Seq<char>,
)
    requires
        text::trimmed(text) != "pong"@,
        json::document_of(text) == Ok::<JsonView, Seq<char>>(root),
        root is Object,
        json::member_of(root, "event"@) is None,
        json::member_of(root, "arg"@) == Some(argument),
        argument is Object,
        says(argument, "channel"@, super::okx::channel_name(channel)),
        says(argument, "instId"@, symbol),
        json::member_of(root, "data"@) == Some(JsonView::List(items)),
        0 <= i < items.len(),
        (says(items[i], "instId"@, other) && other != symbol) || (says(items[i], "instType"@, kind)
            && kind != "SWAP"@),
    ensures
        okx::text_frame(state, text, received_at_ms).1 is Err,
{
    reveal_strlit("tickers");
    reveal_strlit("mark-price");
    reveal_strlit("funding-rate");
    assert("tickers"@.len() == 7 && "mark-price"@.len() == 10 && "funding-rate"@.len() == 12);
    if okx::items_along(state, channel, items, symbol, received_at_ms).1 is Ok {
        lemma_okx_items(state, channel, items, symbol, received_at_ms, i);
    }
}

/// A message of OKX of an instrument that is no swap in USDT or USDC is refused.
pub proof fn law_okx_messages_are_of_linear_swaps(
    state: SessionView,
    text: Seq<char>,
    received_at_ms: u64,
    root: JsonView,
    argument: JsonView,
    symbol: Seq<char>,
)
    requires
        text::trimmed(text) != "pong"@,
        json::document_of(text) == Ok::<JsonView, Seq<char>>(root),
        root is Object,
        json::member_of(root, "event"@) is None,
        json::member_of(root, "arg"@) == Some(argument),
        says(argument, "instId"@, symbol),
        !text::finishes_with(symbol, "-USDT-SWAP"@),
        !text::finishes_with(symbol, "-USDC-SWAP"@),
    ensures
        okx::text_frame(state, text, received_at_ms).0 == state,
        okx::text_frame(state, text, received_at_ms).1 is Err,
{
}

/// A message of MEXC whose data are of another instrument than the message, or that names no USDT
/// perpetual, is refused, and nothing is kept of it.
pub proof fn law_mexc_messages_are_of_one_instrument(
    state: MexcView,
    text: Seq<char>,
    received_at_ms: u64,
    root: JsonView,
    data: JsonView,
    name: Seq<char>,
    other: Seq<char>,
)
    requires
        json::document_of(text) == Ok::<JsonView, Seq<char>>(root),
        root is Object,
        says(root, "channel"@, "push.ticker"@) || says(root, "channel"@, "push.funding.rate"@)
            || says(root, "channel"@, "push.kline"@),
        says(root, "symbol"@, name),
        json::member_of(root, "data"@) == Some(data),
        says(data, "symbol"@, other),
        other.len() > 0,
        other != name,
    ensures
        mexc::text_frame(state, text, received_at_ms).0 == state,
        mexc::text_frame(state, text, received_at_ms).1 is Err,
{
    reveal_strlit("push.ticker");
    reveal_strlit("push.funding.rate");
    reveal_strlit("push.kline");
    reveal_strlit("pong");
    reveal_strlit("rs.error");
    reveal_strlit("rs.sub.");
    reveal_strlit("rs.unsub.");
    assert("push.ticker"@.len() == 11 && "push.funding.rate"@.len() == 17);
    assert("push.kline"@.len() == 10 && "pong"@.len() == 4 && "rs.error"@.len() == 8);
    assert("push.ticker"@.take(7)[0] == 'p' && "push.ticker"@.take(9)[0] == 'p');
    assert("push.funding.rate"@.take(7)[0] == 'p' && "push.funding.rate"@.take(9)[0] == 'p');
    assert("push.kline"@.take(7)[0] == 'p' && "push.kline"@.take(9)[0] == 'p');
    assert("rs.sub."@[0] == 'r' && "rs.unsub."@[0] == 'r');
    assert(mexc::envelope_problem(root) is Some);
}

/// A message of BingX whose data are of another instrument than its topic is refused, and nothing is
/// kept of it.
pub proof fn law_bingx_tickers_are_of_their_topic(
    state: BingxView,
    text: Seq<char>,
    received_at_ms: u64,
    root: JsonView,
    data: JsonView,
    name: Seq<char>,
    other: Seq<char>,
    suffix: Seq<char>,
)
    requires
        text != "Ping"@,
        text != "Pong"@,
        json::document_of(text) == Ok::<JsonView, Seq<char>>(root),
        root is Object,
        json::member_of(root, "id"@) is None,
        says(root, "dataType"@, name + suffix),
        suffix == "@ticker"@ || suffix == "@markPrice"@ || suffix == "@bookTicker"@,
        json::member_of(root, "data"@) == Some(data),
        data is Object,
        says(data, "s"@, other),
        name_different(name, other),
    ensures
        bingx::text_frame(state, text, received_at_ms).0 == state,
        bingx::text_frame(state, text, received_at_ms).1 is Err,
{
    super::bingx::lemma_topic(name);
    super::bingx::lemma_arranged(root, data, TickerStream::Last);
    super::bingx::lemma_arranged(root, data, TickerStream::Mark);
    super::bingx::lemma_arranged(root, data, TickerStream::Book);
}

/// A candle of Binance whose inner and outer names are of different instruments, or that is not of one
/// minute, is refused.
pub proof fn law_binance_candles_are_of_one_instrument_and_minute(
    state: SessionView,
    text: Seq<char>,
    received_at_ms: u64,
    event: JsonView,
    kline: JsonView,
    stream: Option<Seq<char>>,
    name: Seq<char>,
    other: Seq<char>,
    interval: Seq<char>,
)
    requires
        super::binance::is_event(text, event, stream),
        event is Object,
        says(event, "e"@, "kline"@),
        says(event, "s"@, name),
        json::member_of(event, "k"@) == Some(kline),
        kline is Object,
        says(kline, "s"@, other),
        says(kline, "i"@, interval),
        name_different(name, other) || interval != "1m"@,
    ensures
        binance::text_frame(state, text, received_at_ms).1 is Err,
{
    reveal_strlit("kline");
    reveal_strlit("24hrTicker");
    reveal_strlit("markPriceUpdate");
    assert("kline"@.len() == 5 && "24hrTicker"@.len() == 10 && "markPriceUpdate"@.len() == 15);
    let value = json::arranged(event, binance::kline_layout());
    super::binance::lemma_event(state, text, event, stream, received_at_ms);
    reveal_strlit("s");
    reveal_strlit("k");
    assert("s"@[0] == 's' && "k"@[0] == 'k');
    let inner = json::flat("t,T,s,i,f,L,o,c,h,l,v,q,x"@, 13);
    laws::lemma_nested_object(event, "E,s,k,st"@, 4, "k"@, inner, "s"@);
    laws::lemma_nested_object(event, "E,s,k,st"@, 4, "k"@, inner, "k"@);
    laws::lemma_flat_object(kline, "t,T,s,i,f,L,o,c,h,l,v,q,x"@, 13);
    assert(json::member_of(value, "k"@) == Some(kline));
    assert(binance::kline_problem(value, stream) is Some);
}

/// A quote of KuCoin whose data are of an instrument that its topic does not name is refused.
pub proof fn law_kucoin_quotes_are_of_their_topic(
    state: SessionView,
    text: Seq<char>,
    received_at_ms: u64,
    root: JsonView,
    data: JsonView,
    topic: Seq<char>,
    names: Seq<char>,
    symbol: Seq<char>,
)
    requires
        super::kucoin::is_message(text, root, topic, "tickerV2"@, data) || super::kucoin::is_message(
            text,
            root,
            topic,
            "match"@,
            data,
        ),
        topic == "/contractMarket/tickerV2:"@ + names || topic == "/contractMarket/execution:"@
            + names,
        says(data, "symbol"@, symbol),
        !text::pieces(names, ',').contains(symbol),
    ensures
        kucoin::text_frame(state, text, received_at_ms).0 == state,
        kucoin::text_frame(state, text, received_at_ms).1 is Err,
{
    super::kucoin::lemma_topics();
    laws::lemma_prefixed("/contractMarket/tickerV2:"@, names);
    laws::lemma_prefixed("/contractMarket/execution:"@, names);
    laws::lemma_other_prefix(
        "/contractMarket/tickerV2:"@,
        names,
        "/contractMarket/execution:"@,
        16,
    );
    laws::lemma_other_prefix(
        "/contractMarket/execution:"@,
        names,
        "/contractMarket/tickerV2:"@,
        16,
    );
    assert(symbol + Seq::<char>::empty() =~= symbol);
}

} // verus!
