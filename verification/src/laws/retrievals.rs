//! What is asked for a history, page after page, and how the pages are put together.
use vstd::prelude::*;

use super::{counts, holds, says, tallies};
use crate::domain;
use crate::domain::{CandleView, Provider};
use crate::history;
use crate::history::fetch;
use crate::history::fetch::RetrievalView;
use crate::history::payload;
use crate::history::{HistoryErrorView, RequestView};
use crate::json;
use crate::json::reading;
use crate::json::JsonView;
use crate::laws;
use crate::text;
use crate::weburl;

verus! {

// ---------------------------------------------------------------------------------------------
// Requests
// ---------------------------------------------------------------------------------------------

/// Whether a text is a name of ASCII letters and digits.
pub open spec fn is_word(name: Seq<char>) -> bool {
    name.len() > 0 && text::all_ascii_alphanumeric(name)
}

/// Whether a symbol has the form that a venue gives to its perpetuals in USDT and USDC.
pub open spec fn has_form(provider: Provider, symbol: Seq<char>) -> bool {
    match provider {
        Provider::Bybit => is_word(symbol) && exists|base: Seq<char>|
            symbol == base + "USDT"@ || symbol == base + "USDC"@,
        Provider::Binance => symbol.len() > 0 && (forall|i: int|
            0 <= i < symbol.len() ==> text::is_alphanumeric(#[trigger] symbol[i])) && exists|
            base: Seq<char>,
        |
            symbol == base + "USDT"@ || symbol == base + "USDC"@,
        Provider::Okx => exists|base: Seq<char>|
            is_word(base) && (symbol == base + "-USDT"@ + "-SWAP"@ || symbol == base + "-USDC"@
                + "-SWAP"@),
        Provider::Kucoin => is_word(symbol) && exists|base: Seq<char>|
            symbol == base + "USDTM"@ || symbol == base + "USDCM"@,
        Provider::Mexc => exists|base: Seq<char>|
            is_word(base) && (symbol == base + "_USDT"@ || symbol == base + "_USDC"@),
        Provider::Bingx => exists|base: Seq<char>|
            is_word(base) && (symbol == base + "-USDT"@ || symbol == base + "-USDC"@),
    }
}

proof fn lemma_suffix(symbol: Seq<char>, suffix: Seq<char>)
    ensures
        text::finishes_with(symbol, suffix) <==> exists|base: Seq<char>| symbol == base + suffix,
{
    if text::finishes_with(symbol, suffix) {
        let base = symbol.take(symbol.len() - suffix.len());
        assert(base + suffix =~= symbol);
    }
    if exists|base: Seq<char>| symbol == base + suffix {
        let base = choose|base: Seq<char>| symbol == base + suffix;
        laws::lemma_suffixed(base, suffix);
    }
}

proof fn lemma_either(symbol: Seq<char>, one: Seq<char>, other: Seq<char>)
    ensures
        (text::finishes_with(symbol, one) || text::finishes_with(symbol, other)) <==> exists|
            base: Seq<char>,
        |
            symbol == base + one || symbol == base + other,
{
    lemma_suffix(symbol, one);
    lemma_suffix(symbol, other);
    if exists|base: Seq<char>| symbol == base + one || symbol == base + other {
        let base = choose|base: Seq<char>| symbol == base + one || symbol == base + other;
        assert(symbol == base + one || symbol == base + other);
    }
    if exists|base: Seq<char>| symbol == base + one {
        let base = choose|base: Seq<char>| symbol == base + one;
        assert(symbol == base + one || symbol == base + other);
    }
    if exists|base: Seq<char>| symbol == base + other {
        let base = choose|base: Seq<char>| symbol == base + other;
        assert(symbol == base + one || symbol == base + other);
    }
}

proof fn lemma_pair(symbol: Seq<char>, separator: char, usdt: Seq<char>, usdc: Seq<char>)
    requires
        usdt == seq![separator] + "USDT"@,
        usdc == seq![separator] + "USDC"@,
        !text::is_ascii_alphanumeric(separator),
    ensures
        history::is_separated_pair(symbol, separator) <==> exists|base: Seq<char>|
            is_word(base) && (symbol == base + usdt || symbol == base + usdc),
{
    text::lemma_first_position(symbol, separator);
    let at = text::first_position(symbol, separator);
    if history::is_separated_pair(symbol, separator) {
        let base = symbol.take(at);
        let quote = symbol.skip(at + 1);
        assert(base + (seq![separator] + quote) =~= symbol);
        assert(is_word(base) && (symbol == base + usdt || symbol == base + usdc));
    }
    if exists|base: Seq<char>| is_word(base) && (symbol == base + usdt || symbol == base + usdc) {
        let base = choose|base: Seq<char>|
            is_word(base) && (symbol == base + usdt || symbol == base + usdc);
        let n = base.len() as int;
        assert(symbol[n] == separator);
        assert forall|i: int| 0 <= i < n implies symbol[i] != separator by {
            assert(text::is_ascii_alphanumeric(base[i]));
        }
        assert(at == n);
        assert(symbol.take(n) =~= base);
        assert(symbol.skip(n + 1) =~= "USDT"@ || symbol.skip(n + 1) =~= "USDC"@) by {
            if symbol == base + usdt {
                assert(symbol.skip(n + 1) =~= "USDT"@);
            } else {
                assert(symbol.skip(n + 1) =~= "USDC"@);
            }
        }
        text::lemma_first_position(base, separator);
        if text::holds(base, separator) {
            let k = text::first_position(base, separator);
            assert(text::is_ascii_alphanumeric(base[k]));
        }
    }
}

/// A symbol is taken for a venue exactly if it has the form that the venue gives to its perpetuals.
pub proof fn law_symbols_have_the_form_of_their_venue(provider: Provider, symbol: Seq<char>)
    ensures
        history::is_venue_symbol(provider, symbol) == has_form(provider, symbol),
{
    reveal_strlit("USDT");
    reveal_strlit("USDC");
    reveal_strlit("_USDT");
    reveal_strlit("_USDC");
    reveal_strlit("-USDT");
    reveal_strlit("-USDC");
    assert("_USDT"@ =~= seq!['_'] + "USDT"@);
    assert("_USDC"@ =~= seq!['_'] + "USDC"@);
    assert("-USDT"@ =~= seq!['-'] + "USDT"@);
    assert("-USDC"@ =~= seq!['-'] + "USDC"@);
    lemma_either(symbol, "USDT"@, "USDC"@);
    lemma_either(symbol, "USDTM"@, "USDCM"@);
    lemma_pair(symbol, '_', "_USDT"@, "_USDC"@);
    lemma_pair(symbol, '-', "-USDT"@, "-USDC"@);
    if provider == Provider::Okx {
        lemma_suffix(symbol, "-SWAP"@);
        if history::is_venue_symbol(provider, symbol) {
            let pair = text::before_suffix(symbol, "-SWAP"@)->0;
            lemma_pair(pair, '-', "-USDT"@, "-USDC"@);
            let base = choose|base: Seq<char>|
                is_word(base) && (pair == base + "-USDT"@ || pair == base + "-USDC"@);
            assert(pair + "-SWAP"@ =~= symbol);
            assert(symbol == base + "-USDT"@ + "-SWAP"@ || symbol == base + "-USDC"@ + "-SWAP"@);
        }
        if has_form(provider, symbol) {
            let base = choose|base: Seq<char>|
                is_word(base) && (symbol == base + "-USDT"@ + "-SWAP"@ || symbol == base + "-USDC"@
                    + "-SWAP"@);
            let pair = if symbol == base + "-USDT"@ + "-SWAP"@ {
                base + "-USDT"@
            } else {
                base + "-USDC"@
            };
            laws::lemma_suffixed(pair, "-SWAP"@);
            lemma_pair(pair, '-', "-USDT"@, "-USDC"@);
        }
    }
}

/// A request is taken exactly if its symbol is one of the venue, written as the venue writes it, and
/// its bounds are full minutes after the epoch, in order and not further apart than ten thousand
/// minutes, and it asks for at least one candle and at most ten thousand.
pub proof fn law_requests_are_bounded_windows(request: RequestView)
    ensures
        history::request_problem(request) is None <==> {
            &&& domain::symbol_identity(request.symbol) == Ok::<Seq<char>, domain::DomainErrorView>(
                request.symbol,
            )
            &&& has_form(request.provider, request.symbol)
            &&& 0 < request.start_time_ms < request.end_time_ms
            &&& request.start_time_ms % 60_000 == 0
            &&& request.end_time_ms % 60_000 == 0
            &&& request.end_time_ms - request.start_time_ms <= 10_000 * 60_000
            &&& 1 <= request.limit <= 10_000
        },
{
    law_symbols_have_the_form_of_their_venue(request.provider, request.symbol);
}

// ---------------------------------------------------------------------------------------------
// Questions
// ---------------------------------------------------------------------------------------------

/// A retrieval of a valid request that is under way.
pub open spec fn is_under_way(state: RetrievalView) -> bool {
    &&& history::request_problem(state.request) is None
    &&& state.request.start_time_ms <= state.cursor_ms <= state.request.end_time_ms
    &&& !state.done
    &&& state.pages < 40
}

/// A retrieval begins at the end of the window where the venue lists backwards, and else at its
/// start, with nothing asked or found.
pub proof fn law_retrievals_begin_at_an_end(request: RequestView, root: Seq<char>)
    ensures
        ({
            let state = fetch::begun(request, root);
            &&& state.request == request
            &&& state.root == root
            &&& state.server_time_ms is None
            &&& state.pages == 0
            &&& !state.done
            &&& state.candles.len() == 0
            &&& state.cursor_ms == match request.provider {
                Provider::Bybit | Provider::Okx => request.end_time_ms,
                _ => request.start_time_ms,
            }
        }),
{
}

/// A result with its value as one that may be missing.
pub open spec fn maybe(result: Result<Seq<char>, HistoryErrorView>) -> Result<
    Option<Seq<char>>,
    HistoryErrorView,
> {
    match result {
        Ok(url) => Ok(Some(url)),
        Err(error) => Err(error),
    }
}

/// The clock of a venue is asked for first, where candles do not tell whether they are closed.
pub proof fn law_clocks_are_asked_first(state: RetrievalView)
    requires
        state.server_time_ms is None,
    ensures
        state.request.provider == Provider::Binance ==> fetch::asked(state) == (
            state,
            maybe(fetch::endpoint(state.root, "fapi/v1/time"@, Provider::Binance)),
        ),
        state.request.provider == Provider::Mexc ==> fetch::asked(state) == (
            state,
            maybe(fetch::endpoint(state.root, "api/v1/contract/ping"@, Provider::Mexc)),
        ),
        state.request.provider == Provider::Bingx ==> fetch::asked(state) == (
            state,
            maybe(fetch::endpoint(state.root, "openApi/swap/v2/server/time"@, Provider::Bingx)),
        ),
{
}

/// Whether a page is asked for: at the joined address, with those pairs, as one page more.
pub open spec fn asks(
    state: RetrievalView,
    path: Seq<char>,
    pairs: Seq<(Seq<char>, Seq<char>)>,
) -> bool {
    &&& fetch::asked(state).0 == (RetrievalView { pages: state.pages + 1, ..state })
    &&& weburl::joined_url(state.root, path) matches Ok(joined) ==> (weburl::url_with_pairs(
        joined.text,
        pairs,
    ) matches Some(url) ==> fetch::asked(state).1 == Ok::<
        Option<Seq<char>>,
        HistoryErrorView,
    >(Some(url)))
    &&& fetch::asked(state).1 is Ok <==> (weburl::joined_url(state.root, path) is Ok
        && weburl::url_with_pairs(weburl::joined_url(state.root, path)->Ok_0.text, pairs) is Some)
}

/// A number in digits.
pub open spec fn number(n: int) -> Seq<char> {
    text::digits(n as nat)
}

/// Bybit is asked for the minutes from the start of the window up to where the last page began.
pub proof fn law_bybit_pages_go_back(state: RetrievalView)
    requires
        is_under_way(state),
        state.request.provider == Provider::Bybit,
    ensures
        asks(
            state,
            "v5/market/kline"@,
            seq![
                ("category"@, "linear"@),
                ("symbol"@, state.request.symbol),
                ("interval"@, "1"@),
                ("start"@, number(state.request.start_time_ms as int)),
                ("end"@, number(state.cursor_ms - 1)),
                ("limit"@, "1000"@),
            ],
        ),
{
}

/// OKX is asked for the minutes after the start of the window, or at it, and before where the last
/// page began.
pub proof fn law_okx_pages_go_back(state: RetrievalView)
    requires
        is_under_way(state),
        state.request.provider == Provider::Okx,
    ensures
        asks(
            state,
            "api/v5/market/history-candles"@,
            seq![
                ("instId"@, state.request.symbol),
                ("bar"@, "1m"@),
                ("after"@, number(state.cursor_ms as int)),
                ("before"@, number(state.request.start_time_ms - 1)),
                ("limit"@, "300"@),
            ],
        ),
{
}

/// Binance is asked for the minutes from where the last page ended to the end of the window.
pub proof fn law_binance_pages_go_forth(state: RetrievalView)
    requires
        is_under_way(state),
        state.request.provider == Provider::Binance,
        state.server_time_ms is Some,
        state.cursor_ms < state.request.end_time_ms,
    ensures
        asks(
            state,
            "fapi/v1/klines"@,
            seq![
                ("symbol"@, state.request.symbol),
                ("interval"@, "1m"@),
                ("startTime"@, number(state.cursor_ms as int)),
                ("endTime"@, number(state.request.end_time_ms - 1)),
                ("limit"@, "1500"@),
            ],
        ),
{
}

/// The end of a stretch of minutes from a time: so many minutes later, or the end of the window where
/// that is sooner.
pub open spec fn stretch_end(state: RetrievalView, minutes: int) -> int {
    if state.cursor_ms + minutes * 60_000 <= state.request.end_time_ms {
        state.cursor_ms + minutes * 60_000
    } else {
        state.request.end_time_ms as int
    }
}

/// KuCoin is asked for the next five hundred minutes, or for what is left of the window.
pub proof fn law_kucoin_pages_go_forth(state: RetrievalView)
    requires
        is_under_way(state),
        state.request.provider == Provider::Kucoin,
        state.cursor_ms < state.request.end_time_ms,
    ensures
        asks(
            state,
            "api/v1/kline/query"@,
            seq![
                ("symbol"@, state.request.symbol),
                ("granularity"@, "60"@),
                ("from"@, number(state.cursor_ms as int)),
                ("to"@, number(stretch_end(state, 500) - 1)),
            ],
        ),
{
}

/// MEXC is asked, in seconds, for the next two thousand minutes, or for what is left of the window.
pub proof fn law_mexc_pages_go_forth(state: RetrievalView)
    requires
        is_under_way(state),
        state.request.provider == Provider::Mexc,
        state.server_time_ms is Some,
        state.cursor_ms < state.request.end_time_ms,
        state.cursor_ms % 60_000 == 0,
    ensures
        asks(
            state,
            "api/v1/contract/kline/"@ + state.request.symbol,
            seq![
                ("interval"@, "Min1"@),
                ("start"@, number(state.cursor_ms as int / 1_000)),
                ("end"@, number((stretch_end(state, 2_000) - 60_000) / 1_000)),
            ],
        ),
{
    assert(stretch_end(state, 2_000) >= state.cursor_ms + 60_000);
}

/// BingX is asked for the next day, or for what is left of the window, with just so many candles as
/// there are minutes.
pub proof fn law_bingx_pages_go_forth(state: RetrievalView)
    requires
        is_under_way(state),
        state.request.provider == Provider::Bingx,
        state.server_time_ms is Some,
        state.cursor_ms < state.request.end_time_ms,
    ensures
        asks(
            state,
            "openApi/swap/v3/quote/klines"@,
            seq![
                ("symbol"@, state.request.symbol),
                ("interval"@, "1m"@),
                ("startTime"@, number(state.cursor_ms as int)),
                ("endTime"@, number(stretch_end(state, 1_440) - 1)),
                ("limit"@, number((stretch_end(state, 1_440) - state.cursor_ms) / 60_000)),
            ],
        ),
{
}

/// Nothing more is asked once the retrieval is done or, where a venue lists forwards, has reached the
/// end of the window; and no more than forty pages are asked.
pub proof fn law_retrievals_end(state: RetrievalView)
    ensures
        (state.request.provider == Provider::Bybit || state.request.provider == Provider::Okx
            || state.request.provider == Provider::Kucoin || state.server_time_ms is Some) ==> {
            let backward = state.request.provider == Provider::Bybit || state.request.provider
                == Provider::Okx;
            let over = state.done || (!backward && state.cursor_ms >= state.request.end_time_ms);
            &&& fetch::asked(state).1 == Ok::<Option<Seq<char>>, HistoryErrorView>(None) <==> over
            &&& over ==> fetch::asked(state).0 == state
            &&& !over && state.pages >= 40 ==> fetch::asked(state) == (
                state,
                Err::<Option<Seq<char>>, HistoryErrorView>(
                    HistoryErrorView::PaginationStalled {
                        provider: state.request.provider,
                        cursor_ms: 0,
                    },
                ),
            )
        },
{
}

// ---------------------------------------------------------------------------------------------
// Pages
// ---------------------------------------------------------------------------------------------

proof fn lemma_earliest(page: Seq<CandleView>, at: int)
    requires
        0 <= at < page.len(),
        forall|i: int|
            0 <= i < page.len() ==> page[at].start_time_ms <= (#[trigger] page[i]).start_time_ms,
    ensures
        fetch::earliest(page) == page[at].start_time_ms,
    decreases page.len(),
{
    if page.len() > 1 {
        let rest = page.drop_last();
        if at < rest.len() {
            assert forall|i: int| 0 <= i < rest.len() implies rest[at].start_time_ms <= (
            #[trigger] rest[i]).start_time_ms by {
                assert(rest[i] == page[i]);
            }
            lemma_earliest(rest, at);
        } else {
            lemma_some_start(rest);
            let k = choose|k: int|
                0 <= k < rest.len() && (#[trigger] rest[k]).start_time_ms == fetch::earliest(rest);
            assert(page[k] == rest[k]);
        }
    }
}

proof fn lemma_some_start(page: Seq<CandleView>)
    requires
        page.len() > 0,
    ensures
        exists|k: int|
            0 <= k < page.len() && (#[trigger] page[k]).start_time_ms == fetch::earliest(page),
        exists|k: int|
            0 <= k < page.len() && (#[trigger] page[k]).start_time_ms == fetch::latest(page),
    decreases page.len(),
{
    if page.len() > 1 {
        let rest = page.drop_last();
        lemma_some_start(rest);
        let k = choose|k: int|
            0 <= k < rest.len() && (#[trigger] rest[k]).start_time_ms == fetch::earliest(rest);
        let m = choose|m: int|
            0 <= m < rest.len() && (#[trigger] rest[m]).start_time_ms == fetch::latest(rest);
        assert(page[k] == rest[k] && page[m] == rest[m]);
        assert(page[page.len() - 1] == page.last());
    } else {
        assert(page[0].start_time_ms == fetch::earliest(page));
    }
}

proof fn lemma_latest(page: Seq<CandleView>, at: int)
    requires
        0 <= at < page.len(),
        forall|i: int|
            0 <= i < page.len() ==> page[at].start_time_ms >= (#[trigger] page[i]).start_time_ms,
    ensures
        fetch::latest(page) == page[at].start_time_ms,
    decreases page.len(),
{
    if page.len() > 1 {
        let rest = page.drop_last();
        if at < rest.len() {
            assert forall|i: int| 0 <= i < rest.len() implies rest[at].start_time_ms >= (
            #[trigger] rest[i]).start_time_ms by {
                assert(rest[i] == page[i]);
            }
            lemma_latest(rest, at);
        } else {
            lemma_some_start(rest);
            let k = choose|k: int|
                0 <= k < rest.len() && (#[trigger] rest[k]).start_time_ms == fetch::latest(rest);
            assert(page[k] == rest[k]);
        }
    }
}

/// A page that goes back is kept. It is the last one where it reaches the start of the window or is
/// not full, and else the next one ends before its first candle. One that goes nowhere is refused.
pub proof fn law_pages_that_go_back_are_kept(state: RetrievalView, page: Seq<CandleView>, at: int)
    requires
        state.request.provider == Provider::Bybit || state.request.provider == Provider::Okx,
        0 <= at < page.len(),
        forall|i: int|
            0 <= i < page.len() ==> page[at].start_time_ms <= (#[trigger] page[i]).start_time_ms,
    ensures
        ({
            let first = page[at].start_time_ms;
            let full: nat = if state.request.provider == Provider::Bybit {
                1_000
            } else {
                300
            };
            let kept = RetrievalView { candles: state.candles + page, ..state };
            fetch::page_taken(state, page) == if first >= state.cursor_ms {
                (
                    state,
                    Some(
                        HistoryErrorView::PaginationStalled {
                            provider: state.request.provider,
                            cursor_ms: state.cursor_ms,
                        },
                    ),
                )
            } else if first <= state.request.start_time_ms || page.len() < full {
                (RetrievalView { done: true, ..kept }, None)
            } else {
                (RetrievalView { cursor_ms: first, ..kept }, None)
            }
        }),
{
    lemma_earliest(page, at);
}

/// A page of Binance is kept. It is the last one where it reaches the end of the window or is not
/// full, and else the next one begins after its last candle. One that goes nowhere is refused.
pub proof fn law_binance_pages_are_kept(state: RetrievalView, page: Seq<CandleView>, at: int)
    requires
        state.request.provider == Provider::Binance,
        0 <= at < page.len(),
        page[at].start_time_ms + 60_000 <= u64::MAX,
        forall|i: int|
            0 <= i < page.len() ==> page[at].start_time_ms >= (#[trigger] page[i]).start_time_ms,
    ensures
        ({
            let next = page[at].start_time_ms + 60_000;
            let kept = RetrievalView { candles: state.candles + page, ..state };
            fetch::page_taken(state, page) == if next <= state.cursor_ms {
                (
                    state,
                    Some(
                        HistoryErrorView::PaginationStalled {
                            provider: Provider::Binance,
                            cursor_ms: state.cursor_ms,
                        },
                    ),
                )
            } else if next >= state.request.end_time_ms || page.len() < 1_500 {
                (RetrievalView { done: true, ..kept }, None)
            } else {
                (RetrievalView { cursor_ms: next as u64, ..kept }, None)
            }
        }),
{
    lemma_latest(page, at);
}

/// A page of KuCoin, MEXC or BingX is kept, and the next one begins where its stretch of minutes
/// ended.
pub proof fn law_stretches_are_kept(state: RetrievalView, page: Seq<CandleView>)
    requires
        state.request.provider == Provider::Kucoin || state.request.provider == Provider::Mexc
            || state.request.provider == Provider::Bingx,
        state.cursor_ms < state.request.end_time_ms,
    ensures
        fetch::page_taken(state, page) == (
            RetrievalView {
                candles: state.candles + page,
                cursor_ms: stretch_end(
                    state,
                    match state.request.provider {
                        Provider::Kucoin => 500,
                        Provider::Mexc => 2_000,
                        _ => 1_440,
                    },
                ) as u64,
                ..state
            },
            None::<HistoryErrorView>,
        ),
{
}

/// An empty page ends a retrieval of Bybit, OKX or Binance.
pub proof fn law_empty_pages_end(state: RetrievalView)
    requires
        state.request.provider == Provider::Bybit || state.request.provider == Provider::Okx
            || state.request.provider == Provider::Binance,
    ensures
        fetch::page_taken(state, Seq::empty()) == (
            RetrievalView { done: true, ..state },
            None::<HistoryErrorView>,
        ),
{
}

// ---------------------------------------------------------------------------------------------
// Answers
// ---------------------------------------------------------------------------------------------

/// The answer of a clock is kept as the time of the venue, and nothing else changes.
pub proof fn law_clocks_are_kept(
    state: RetrievalView,
    body: Seq<char>,
    root: JsonView,
    data: JsonView,
    time: u64,
)
    requires
        state.server_time_ms is None,
        time > 0,
        match state.request.provider {
            Provider::Binance => reading::laid_out(body, json::flat("serverTime"@, 1)) == Ok::<
                JsonView,
                Seq<char>,
            >(root) && counts(root, "serverTime"@, time),
            Provider::Mexc => reading::laid_out(body, json::flat("success,code,data"@, 3)) == Ok::<
                JsonView,
                Seq<char>,
            >(root) && holds(root, "success"@, true) && tallies(root, "code"@, 0) && counts(
                root,
                "data"@,
                time,
            ),
            Provider::Bingx => reading::laid_out(
                body,
                json::with_field(
                    json::flat("code,msg,data"@, 3),
                    "data"@,
                    json::flat("serverTime"@, 1),
                ),
            ) == Ok::<JsonView, Seq<char>>(root) && tallies(root, "code"@, 0) && says(
                root,
                "msg"@,
                Seq::empty(),
            ) && json::member_of(root, "data"@) == Some(data) && counts(
                data,
                "serverTime"@,
                time,
            ),
            _ => false,
        },
    ensures
        fetch::answered(state, body) == (
            RetrievalView { server_time_ms: Some(time), ..state },
            None::<HistoryErrorView>,
        ),
{
}

/// The answer to a page is read as the answer of the venue that was asked, with the symbol that was
/// asked for and by the clock of the venue.
pub proof fn law_pages_are_read_by_venue(state: RetrievalView, body: Seq<char>)
    requires
        fetch::question(state) is Page,
    ensures
        ({
            let read = match state.request.provider {
                Provider::Bybit => payload::bybit_candles_in(body, state.request.symbol),
                Provider::Binance => payload::binance_candles_in(body, state.server_time_ms->0),
                Provider::Okx => payload::okx_candles_in(body),
                Provider::Kucoin => payload::kucoin_candles_in(body),
                Provider::Mexc => payload::mexc_candles_in(body, state.server_time_ms->0),
                Provider::Bingx => payload::bingx_candles_in(body, state.server_time_ms->0),
            };
            fetch::answered(state, body) == match read {
                Ok(page) => fetch::page_taken(state, page),
                Err(error) => (state, Some(error)),
            }
        }),
{
}

} // verus!
