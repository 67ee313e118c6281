//! Which history requests go out to a venue, one after the other, and when they are enough.
use vstd::prelude::*;

use super::payload;
use crate::domain;
use crate::domain::{Candle, CandleView, Provider, CANDLE_INTERVAL_MS};
use crate::history;
use crate::history::{HistoryError, HistoryErrorView, HistoryRequest, HistoryResult, RequestView};
use crate::text;
use crate::weburl;
use crate::weburl::QueryPair;

verus! {

pub const BYBIT_KLINE_PATH: &'static str = "v5/market/kline";

pub const BINANCE_KLINE_PATH: &'static str = "fapi/v1/klines";

pub const BINANCE_TIME_PATH: &'static str = "fapi/v1/time";

pub const OKX_HISTORY_CANDLES_PATH: &'static str = "api/v5/market/history-candles";

pub const KUCOIN_KLINE_PATH: &'static str = "api/v1/kline/query";

pub const MEXC_KLINE_PATH_PREFIX: &'static str = "api/v1/contract/kline/";

pub const MEXC_TIME_PATH: &'static str = "api/v1/contract/ping";

pub const BINGX_KLINE_PATH: &'static str = "openApi/swap/v3/quote/klines";

pub const BINGX_TIME_PATH: &'static str = "openApi/swap/v2/server/time";

pub const BYBIT_PAGE_LIMIT: usize = 1_000;

pub const BINANCE_PAGE_LIMIT: usize = 1_500;

pub const OKX_PAGE_LIMIT: usize = 300;

pub const KUCOIN_PAGE_LIMIT: u64 = 500;

pub const MEXC_PAGE_LIMIT: u64 = 2_000;

pub const BINGX_PAGE_LIMIT: u64 = 1_440;

/// The most pages of one request.
pub const MAX_UPSTREAM_PAGES: usize = 40;

/// Provider REST roots.
///
/// Keeping these independently configurable makes regional endpoints and deterministic local
/// tests possible without changing request semantics.
#[derive(Debug, Clone, PartialEq, Eq)]
pub struct HistorySources {
    pub bybit: String,
    pub binance: String,
    pub okx: String,
    pub kucoin: String,
    pub mexc: String,
    pub bingx: String,
}

impl HistorySources {
    /// The REST root of a venue.
    pub open spec fn root(&self, provider: Provider) -> Seq<char> {
        match provider {
            Provider::Bybit => self.bybit@,
            Provider::Binance => self.binance@,
            Provider::Okx => self.okx@,
            Provider::Kucoin => self.kucoin@,
            Provider::Mexc => self.mexc@,
            Provider::Bingx => self.bingx@,
        }
    }

    /// The REST root of a venue.
    pub fn root_of(&self, provider: Provider) -> (root: &str)
        ensures
            root@ == self.root(provider),
    {
        match provider {
            Provider::Bybit => self.bybit.as_str(),
            Provider::Binance => self.binance.as_str(),
            Provider::Okx => self.okx.as_str(),
            Provider::Kucoin => self.kucoin.as_str(),
            Provider::Mexc => self.mexc.as_str(),
            Provider::Bingx => self.bingx.as_str(),
        }
    }
}

/// The official REST root of a venue.
pub open spec fn official_root(provider: Provider) -> Seq<char> {
    match provider {
        Provider::Bybit => "https://api.bybit.com/"@,
        Provider::Binance => "https://fapi.binance.com/"@,
        Provider::Okx => "https://www.okx.com/"@,
        Provider::Kucoin => "https://api-futures.kucoin.com/"@,
        Provider::Mexc => "https://api.mexc.com/"@,
        Provider::Bingx => "https://open-api.bingx.com/"@,
    }
}

impl Default for HistorySources {
    /// The official REST roots.
    fn default() -> (sources: Self)
        ensures
            forall|provider: Provider| #[trigger]
                sources.root(provider) == official_root(provider),
    {
        HistorySources {
            bybit: "https://api.bybit.com/".to_owned(),
            binance: "https://fapi.binance.com/".to_owned(),
            okx: "https://www.okx.com/".to_owned(),
            kucoin: "https://api-futures.kucoin.com/".to_owned(),
            mexc: "https://api.mexc.com/".to_owned(),
            bingx: "https://open-api.bingx.com/".to_owned(),
        }
    }
}

// ---------------------------------------------------------------------------------------------
// The state of a retrieval
// ---------------------------------------------------------------------------------------------

/// The retrieval of the candles of one request, page by page.
#[derive(Debug)]
pub struct Retrieval {
    request: HistoryRequest,
    root: String,
    server_time_ms: Option<u64>,
    cursor_ms: u64,
    pages: usize,
    done: bool,
    candles: Vec<Candle>,
}

/// The mathematical value of a [`Retrieval`]. The cursor of a venue that is asked backwards is the
/// end of what is still missing, that of the others its start.
pub struct RetrievalView {
    pub request: RequestView,
    pub root: Seq<char>,
    pub server_time_ms: Option<u64>,
    pub cursor_ms: u64,
    pub pages: nat,
    pub done: bool,
    pub candles: Seq<CandleView>,
}

impl View for Retrieval {
    type V = RetrievalView;

    closed spec fn view(&self) -> RetrievalView {
        RetrievalView {
            request: self.request@,
            root: self.root@,
            server_time_ms: self.server_time_ms,
            cursor_ms: self.cursor_ms,
            pages: self.pages as nat,
            done: self.done,
            candles: history::candle_views(self.candles@),
        }
    }
}

/// Whether a venue is asked for the latest candles first.
pub open spec fn is_backward(provider: Provider) -> bool {
    provider == Provider::Bybit || provider == Provider::Okx
}

/// Whether a venue's clock is asked first.
pub open spec fn needs_clock(provider: Provider) -> bool {
    provider == Provider::Binance || provider == Provider::Mexc || provider == Provider::Bingx
}

/// How much time one page of a venue covers that is asked for fixed spans.
pub open spec fn page_span(provider: Provider) -> u64 {
    match provider {
        Provider::Kucoin => (KUCOIN_PAGE_LIMIT * CANDLE_INTERVAL_MS) as u64,
        Provider::Mexc => (MEXC_PAGE_LIMIT * CANDLE_INTERVAL_MS) as u64,
        _ => (BINGX_PAGE_LIMIT * CANDLE_INTERVAL_MS) as u64,
    }
}

/// The end of the next page of a venue that is asked for fixed spans.
pub open spec fn page_end(state: RetrievalView) -> u64 {
    if state.cursor_ms + page_span(state.request.provider) <= state.request.end_time_ms {
        (state.cursor_ms + page_span(state.request.provider)) as u64
    } else {
        state.request.end_time_ms
    }
}

/// A new retrieval.
pub open spec fn begun(request: RequestView, root: Seq<char>) -> RetrievalView {
    RetrievalView {
        request,
        root,
        server_time_ms: None,
        cursor_ms: if is_backward(request.provider) {
            request.end_time_ms
        } else {
            request.start_time_ms
        },
        pages: 0,
        done: false,
        candles: Seq::empty(),
    }
}

/// Whether the cursor of a retrieval lies in the range of its request.
pub open spec fn is_sound(state: RetrievalView) -> bool {
    &&& history::request_problem(state.request) is None
    &&& state.pages <= MAX_UPSTREAM_PAGES
    &&& if is_backward(state.request.provider) {
        state.request.start_time_ms < state.cursor_ms <= state.request.end_time_ms
    } else {
        state.request.start_time_ms <= state.cursor_ms <= state.request.end_time_ms
    }
}

// ---------------------------------------------------------------------------------------------
// What is asked
// ---------------------------------------------------------------------------------------------

/// What a retrieval asks next.
pub enum Question {
    /// Nothing more.
    Nothing,
    /// The venue's clock.
    Clock,
    /// A page of candles.
    Page,
}

/// What a retrieval asks next.
pub open spec fn question(state: RetrievalView) -> Question {
    if needs_clock(state.request.provider) && state.server_time_ms is None {
        Question::Clock
    } else if state.done || (!is_backward(state.request.provider) && state.cursor_ms
        >= state.request.end_time_ms) {
        Question::Nothing
    } else {
        Question::Page
    }
}

/// The path of a venue's clock.
pub open spec fn clock_path(provider: Provider) -> Seq<char> {
    match provider {
        Provider::Binance => BINANCE_TIME_PATH@,
        Provider::Mexc => MEXC_TIME_PATH@,
        _ => BINGX_TIME_PATH@,
    }
}

/// The path of a venue's candles.
pub open spec fn page_path(request: RequestView) -> Seq<char> {
    match request.provider {
        Provider::Bybit => BYBIT_KLINE_PATH@,
        Provider::Binance => BINANCE_KLINE_PATH@,
        Provider::Okx => OKX_HISTORY_CANDLES_PATH@,
        Provider::Kucoin => KUCOIN_KLINE_PATH@,
        Provider::Mexc => MEXC_KLINE_PATH_PREFIX@ + request.symbol,
        Provider::Bingx => BINGX_KLINE_PATH@,
    }
}

/// The query for the next page. The ends that venues take are inclusive, or exclusive on both
/// sides for OKX.
pub open spec fn page_query(state: RetrievalView) -> Seq<(Seq<char>, Seq<char>)> {
    let request = state.request;
    let end = page_end(state);
    match request.provider {
        Provider::Bybit => seq![
            ("category"@, "linear"@),
            ("symbol"@, request.symbol),
            ("interval"@, "1"@),
            ("start"@, text::digits(request.start_time_ms as nat)),
            ("end"@, text::digits((state.cursor_ms - 1) as nat)),
            ("limit"@, "1000"@),
        ],
        Provider::Binance => seq![
            ("symbol"@, request.symbol),
            ("interval"@, "1m"@),
            ("startTime"@, text::digits(state.cursor_ms as nat)),
            ("endTime"@, text::digits((request.end_time_ms - 1) as nat)),
            ("limit"@, "1500"@),
        ],
        Provider::Okx => seq![
            ("instId"@, request.symbol),
            ("bar"@, "1m"@),
            ("after"@, text::digits(state.cursor_ms as nat)),
            ("before"@, text::digits((request.start_time_ms - 1) as nat)),
            ("limit"@, "300"@),
        ],
        Provider::Kucoin => seq![
            ("symbol"@, request.symbol),
            ("granularity"@, "60"@),
            ("from"@, text::digits(state.cursor_ms as nat)),
            ("to"@, text::digits((end - 1) as nat)),
        ],
        Provider::Mexc => seq![
            ("interval"@, "Min1"@),
            ("start"@, text::digits((state.cursor_ms / 1_000) as nat)),
            ("end"@, text::digits((end - CANDLE_INTERVAL_MS) as nat / 1_000)),
        ],
        Provider::Bingx => seq![
            ("symbol"@, request.symbol),
            ("interval"@, "1m"@),
            ("startTime"@, text::digits(state.cursor_ms as nat)),
            ("endTime"@, text::digits((end - 1) as nat)),
            ("limit"@, text::digits((end - state.cursor_ms) as nat / 60_000)),
        ],
    }
}

/// The URL of a path below a REST root.
pub open spec fn endpoint(root: Seq<char>, path: Seq<char>, provider: Provider) -> Result<
    Seq<char>,
    HistoryErrorView,
> {
    match weburl::joined_url(root, path) {
        Ok(url) => Ok(url.text),
        Err(message) => Err(history::bad_payload(provider, "invalid REST source: "@ + message)),
    }
}

/// The URL of the next page.
pub open spec fn page_url(state: RetrievalView) -> Result<Seq<char>, HistoryErrorView> {
    let provider = state.request.provider;
    match endpoint(state.root, page_path(state.request), provider) {
        Err(error) => Err(error),
        Ok(url) => match weburl::url_with_pairs(url, page_query(state)) {
            Some(url) => Ok(url),
            None => Err(history::bad_payload(provider, "invalid REST source"@)),
        },
    }
}

/// The error for pages that do not advance.
pub open spec fn stalled(provider: Provider, cursor_ms: u64) -> HistoryErrorView {
    HistoryErrorView::PaginationStalled { provider, cursor_ms }
}

/// What asking does and which URL is asked. Every page is counted, and there is a most of them.
pub open spec fn asked(state: RetrievalView) -> (
    RetrievalView,
    Result<Option<Seq<char>>, HistoryErrorView>,
) {
    let provider = state.request.provider;
    match question(state) {
        Question::Nothing => (state, Ok(None)),
        Question::Clock => (
            state,
            match endpoint(state.root, clock_path(provider), provider) {
                Ok(url) => Ok(Some(url)),
                Err(error) => Err(error),
            },
        ),
        Question::Page => if state.pages >= MAX_UPSTREAM_PAGES {
            (state, Err(stalled(provider, 0)))
        } else {
            (
                RetrievalView { pages: state.pages + 1, ..state },
                match page_url(state) {
                    Ok(url) => Ok(Some(url)),
                    Err(error) => Err(error),
                },
            )
        },
    }
}

// ---------------------------------------------------------------------------------------------
// What is answered
// ---------------------------------------------------------------------------------------------

/// The earliest start of candles.
pub open spec fn earliest(candles: Seq<CandleView>) -> u64
    decreases candles.len(),
{
    if candles.len() <= 1 {
        candles[0].start_time_ms
    } else {
        let rest = earliest(candles.drop_last());
        if candles.last().start_time_ms < rest {
            candles.last().start_time_ms
        } else {
            rest
        }
    }
}

/// The latest start of candles.
pub open spec fn latest(candles: Seq<CandleView>) -> u64
    decreases candles.len(),
{
    if candles.len() <= 1 {
        candles[0].start_time_ms
    } else {
        let rest = latest(candles.drop_last());
        if candles.last().start_time_ms > rest {
            candles.last().start_time_ms
        } else {
            rest
        }
    }
}

/// How many candles a full page of a venue has that is asked until a page is not full.
pub open spec fn page_limit(provider: Provider) -> nat {
    match provider {
        Provider::Bybit => 1_000,
        Provider::Okx => 300,
        _ => 1_500,
    }
}

/// What a page of candles makes of a retrieval, or why it is refused.
pub open spec fn page_taken(state: RetrievalView, page: Seq<CandleView>) -> (
    RetrievalView,
    Option<HistoryErrorView>,
) {
    let request = state.request;
    let provider = request.provider;
    let longer = RetrievalView { candles: state.candles + page, ..state };
    if is_backward(provider) {
        if page.len() == 0 {
            (RetrievalView { done: true, ..state }, None)
        } else if earliest(page) >= state.cursor_ms {
            (state, Some(stalled(provider, state.cursor_ms)))
        } else if earliest(page) <= request.start_time_ms || page.len() < page_limit(provider) {
            (RetrievalView { done: true, ..longer }, None)
        } else {
            (RetrievalView { cursor_ms: earliest(page), ..longer }, None)
        }
    } else if provider == Provider::Binance {
        if page.len() == 0 {
            (RetrievalView { done: true, ..state }, None)
        } else if latest(page) + CANDLE_INTERVAL_MS > u64::MAX {
            (
                state,
                Some(history::bad_payload(provider, "pagination timestamp overflow"@)),
            )
        } else if latest(page) + CANDLE_INTERVAL_MS <= state.cursor_ms {
            (state, Some(stalled(provider, state.cursor_ms)))
        } else if latest(page) + CANDLE_INTERVAL_MS >= request.end_time_ms || page.len()
            < page_limit(provider) {
            (RetrievalView { done: true, ..longer }, None)
        } else {
            (
                RetrievalView {
                    cursor_ms: (latest(page) + CANDLE_INTERVAL_MS) as u64,
                    ..longer
                },
                None,
            )
        }
    } else if page_end(state) <= state.cursor_ms {
        (longer, Some(stalled(provider, state.cursor_ms)))
    } else {
        (RetrievalView { cursor_ms: page_end(state), ..longer }, None)
    }
}

/// The candles of a page, from the text of the answer.
pub open spec fn page_candles(state: RetrievalView, body: Seq<char>) -> Result<
    Seq<CandleView>,
    HistoryErrorView,
> {
    let provider = state.request.provider;
    let clock = match state.server_time_ms {
        Some(time) => time,
        None => 0,
    };
    match provider {
        Provider::Bybit => payload::bybit_candles_in(body, state.request.symbol),
        Provider::Binance => payload::binance_candles_in(body, clock),
        Provider::Okx => payload::okx_candles_in(body),
        Provider::Kucoin => payload::kucoin_candles_in(body),
        Provider::Mexc => payload::mexc_candles_in(body, clock),
        Provider::Bingx => payload::bingx_candles_in(body, clock),
    }
}

/// The time of a venue's clock, from the text of the answer.
pub open spec fn clock_time(provider: Provider, body: Seq<char>) -> Result<u64, HistoryErrorView> {
    match provider {
        Provider::Binance => payload::binance_time_in(body),
        Provider::Mexc => payload::mexc_time_in(body),
        _ => payload::bingx_time_in(body),
    }
}

/// What an answer makes of a retrieval, or why it is refused.
pub open spec fn answered(state: RetrievalView, body: Seq<char>) -> (
    RetrievalView,
    Option<HistoryErrorView>,
) {
    match question(state) {
        Question::Clock => match clock_time(state.request.provider, body) {
            Ok(time) => (RetrievalView { server_time_ms: Some(time), ..state }, None),
            Err(error) => (state, Some(error)),
        },
        _ => match page_candles(state, body) {
            Ok(page) => page_taken(state, page),
            Err(error) => (state, Some(error)),
        },
    }
}

/// What is left of the range of a request.
pub open spec fn remaining(state: RetrievalView) -> int {
    if is_backward(state.request.provider) {
        state.cursor_ms - state.request.start_time_ms
    } else {
        state.request.end_time_ms - state.cursor_ms
    }
}

/// Every page that is asked for and accepted ends the retrieval or makes what is left of the range
/// smaller; the cursor stays in the range, and nothing that was taken in is lost.
pub proof fn law_accepted_pages_make_progress(state: RetrievalView, page: Seq<CandleView>)
    requires
        is_sound(state),
        question(state) is Page,
        page_taken(state, page).1 is None,
    ensures
        ({
            let after = page_taken(state, page).0;
            &&& is_sound(after)
            &&& after.done || remaining(after) < remaining(state)
            &&& after.candles == state.candles + page || (page.len() == 0 && after.candles
                == state.candles)
        }),
{
}

/// No retrieval asks for more than the most pages, however its venue answers.
pub proof fn law_pages_are_bounded(state: RetrievalView, body: Seq<char>)
    requires
        state.pages <= MAX_UPSTREAM_PAGES,
    ensures
        asked(state).0.pages <= MAX_UPSTREAM_PAGES,
        answered(state, body).0.pages == state.pages,
        question(state) is Page && state.pages == MAX_UPSTREAM_PAGES ==> asked(state).1 is Err,
{
}

/// The earliest and the latest start belong to candles.
proof fn lemma_extremes(candles: Seq<CandleView>)
    requires
        candles.len() > 0,
    ensures
        forall|i: int|
            0 <= i < candles.len() ==> earliest(candles) <= (#[trigger] candles[i]).start_time_ms
                <= latest(candles),
        exists|i: int|
            0 <= i < candles.len() && (#[trigger] candles[i]).start_time_ms == earliest(candles),
        exists|i: int|
            0 <= i < candles.len() && (#[trigger] candles[i]).start_time_ms == latest(candles),
    decreases candles.len(),
{
    if candles.len() > 1 {
        let rest = candles.drop_last();
        lemma_extremes(rest);
        let a = choose|i: int|
            0 <= i < rest.len() && (#[trigger] rest[i]).start_time_ms == earliest(rest);
        let b = choose|i: int|
            0 <= i < rest.len() && (#[trigger] rest[i]).start_time_ms == latest(rest);
        assert(candles[a] == rest[a] && candles[b] == rest[b]);
        assert(candles[candles.len() - 1] == candles.last());
        assert forall|i: int| 0 <= i < candles.len() implies earliest(candles) <= (
        #[trigger] candles[i]).start_time_ms <= latest(candles) by {
            if i < rest.len() {
                assert(rest[i] == candles[i]);
            }
        }
    } else {
        assert(candles[0].start_time_ms == earliest(candles));
    }
}

/// A venue that is asked backwards is asked next for what comes before the earliest candle it gave,
/// and one that is asked forwards for what comes after the latest: nothing between is skipped.
pub proof fn law_next_page_continues_the_last(state: RetrievalView, page: Seq<CandleView>)
    requires
        page.len() > 0,
        page_taken(state, page).1 is None,
        !page_taken(state, page).0.done,
        !state.done,
    ensures
        ({
            let after = page_taken(state, page).0;
            &&& is_backward(state.request.provider) ==> (exists|i: int|
                0 <= i < page.len() && (#[trigger] page[i]).start_time_ms == after.cursor_ms)
                && forall|i: int|
                0 <= i < page.len() ==> (#[trigger] page[i]).start_time_ms >= after.cursor_ms
            &&& state.request.provider == Provider::Binance ==> forall|i: int|
                0 <= i < page.len() ==> (#[trigger] page[i]).start_time_ms + CANDLE_INTERVAL_MS
                    <= after.cursor_ms
        }),
{
    lemma_extremes(page);
}

// ---------------------------------------------------------------------------------------------
// The retrieval
// ---------------------------------------------------------------------------------------------

/// The earliest start of candles.
fn oldest_start(page: &Vec<Candle>) -> (time: u64)
    requires
        page@.len() > 0,
    ensures
        time == earliest(history::candle_views(page@)),
{
    let ghost all = history::candle_views(page@);
    let mut time = page[0].start_time_ms;
    let mut i: usize = 1;
    proof {
        assert(all.take(1)[0] == all[0]);
    }
    while i < page.len()
        invariant
            1 <= i <= page@.len(),
            all == history::candle_views(page@),
            time == earliest(all.take(i as int)),
        decreases page.len() - i,
    {
        proof {
            assert(all.take(i + 1).drop_last() =~= all.take(i as int));
            assert(all.take(i + 1).last() == page@[i as int]@);
        }
        if page[i].start_time_ms < time {
            time = page[i].start_time_ms;
        }
        i += 1;
    }
    proof {
        assert(all.take(i as int) =~= all);
    }
    time
}

/// The latest start of candles.
fn newest_start(page: &Vec<Candle>) -> (time: u64)
    requires
        page@.len() > 0,
    ensures
        time == latest(history::candle_views(page@)),
{
    let ghost all = history::candle_views(page@);
    let mut time = page[0].start_time_ms;
    let mut i: usize = 1;
    proof {
        assert(all.take(1)[0] == all[0]);
    }
    while i < page.len()
        invariant
            1 <= i <= page@.len(),
            all == history::candle_views(page@),
            time == latest(all.take(i as int)),
        decreases page.len() - i,
    {
        proof {
            assert(all.take(i + 1).drop_last() =~= all.take(i as int));
            assert(all.take(i + 1).last() == page@[i as int]@);
        }
        if page[i].start_time_ms > time {
            time = page[i].start_time_ms;
        }
        i += 1;
    }
    proof {
        assert(all.take(i as int) =~= all);
    }
    time
}

/// A pair of a query.
fn pair(name: &'static str, value: &str) -> (made: QueryPair)
    ensures
        made.name@ == name@,
        made.value@ == value@,
{
    QueryPair { name, value: value.to_owned() }
}

/// A pair of a query with a number.
fn number_pair(name: &'static str, value: u64) -> (made: QueryPair)
    ensures
        made.name@ == name@,
        made.value@ == text::digits(value as nat),
{
    QueryPair { name, value: text::unsigned_text(value) }
}

impl Retrieval {
    /// The cursor lies in the range of the request.
    #[verifier::type_invariant]
    spec fn sound(&self) -> bool {
        is_sound(self@)
    }

    /// A new retrieval.
    pub fn begin(request: HistoryRequest, sources: &HistorySources) -> (retrieval: Self)
        ensures
            retrieval@ == begun(request@, sources.root(request@.provider)),
    {
        request.confirm();
        let provider = request.provider();
        let backward = match provider {
            Provider::Bybit => true,
            Provider::Okx => true,
            _ => false,
        };
        let cursor_ms = if backward {
            request.end_time_ms()
        } else {
            request.start_time_ms()
        };
        let root = sources.root_of(provider).to_owned();
        let ghost empty: Seq<CandleView> = Seq::empty();
        let candles: Vec<Candle> = Vec::new();
        proof {
            assert(history::candle_views(candles@) =~= empty);
        }
        Retrieval {
            request,
            root,
            server_time_ms: None,
            cursor_ms,
            pages: 0,
            done: false,
            candles,
        }
    }

    /// The venue.
    pub fn provider(&self) -> (provider: Provider)
        ensures
            provider == self@.request.provider,
    {
        self.request.provider()
    }

    /// Whether the venue's clock is asked next.
    fn asks_clock(&self) -> (answer: bool)
        ensures
            answer == (question(self@) is Clock),
    {
        let needed = match self.request.provider() {
            Provider::Binance => true,
            Provider::Mexc => true,
            Provider::Bingx => true,
            _ => false,
        };
        needed && self.server_time_ms.is_none()
    }

    /// Whether the venue is asked backwards.
    fn asks_backward(&self) -> (answer: bool)
        ensures
            answer == is_backward(self@.request.provider),
    {
        match self.request.provider() {
            Provider::Bybit => true,
            Provider::Okx => true,
            _ => false,
        }
    }

    /// The end of the next page of a venue that is asked for fixed spans.
    fn next_page_end(&self) -> (end: u64)
        ensures
            end == page_end(self@),
    {
        let span: u64 = match self.request.provider() {
            Provider::Kucoin => KUCOIN_PAGE_LIMIT * CANDLE_INTERVAL_MS,
            Provider::Mexc => MEXC_PAGE_LIMIT * CANDLE_INTERVAL_MS,
            _ => BINGX_PAGE_LIMIT * CANDLE_INTERVAL_MS,
        };
        match self.cursor_ms.checked_add(span) {
            Some(end) => if end <= self.request.end_time_ms() {
                end
            } else {
                self.request.end_time_ms()
            },
            None => self.request.end_time_ms(),
        }
    }

    /// The query for the next page.
    fn next_query(&self) -> (pairs: Vec<QueryPair>)
        requires
            question(self@) is Page,
        ensures
            weburl::pair_views(pairs@) == page_query(self@),
    {
        proof {
            use_type_invariant(self);
        }
        let symbol = self.request.symbol();
        let start = self.request.start_time_ms();
        let end = self.next_page_end();
        let cursor = self.cursor_ms;
        let last_ms: u64 = end - 1;
        let last_start: u64 = end - CANDLE_INTERVAL_MS;
        let before_cursor: u64 = cursor - 1;
        let before_start: u64 = start - 1;
        let before_end: u64 = self.request.end_time_ms() - 1;
        let minutes: u64 = if cursor <= end {
            (end - cursor) / CANDLE_INTERVAL_MS
        } else {
            0
        };
        let pairs = match self.request.provider() {
            Provider::Bybit => vec![
                pair("category", "linear"),
                pair("symbol", symbol),
                pair("interval", "1"),
                number_pair("start", start),
                number_pair("end", before_cursor),
                pair("limit", "1000"),
            ],
            Provider::Binance => vec![
                pair("symbol", symbol),
                pair("interval", "1m"),
                number_pair("startTime", self.cursor_ms),
                number_pair("endTime", before_end),
                pair("limit", "1500"),
            ],
            Provider::Okx => vec![
                pair("instId", symbol),
                pair("bar", "1m"),
                number_pair("after", self.cursor_ms),
                number_pair("before", before_start),
                pair("limit", "300"),
            ],
            Provider::Kucoin => vec![
                pair("symbol", symbol),
                pair("granularity", "60"),
                number_pair("from", self.cursor_ms),
                number_pair("to", last_ms),
            ],
            Provider::Mexc => vec![
                pair("interval", "Min1"),
                number_pair("start", self.cursor_ms / 1_000),
                number_pair("end", last_start / 1_000),
            ],
            Provider::Bingx => vec![
                pair("symbol", symbol),
                pair("interval", "1m"),
                number_pair("startTime", self.cursor_ms),
                number_pair("endTime", last_ms),
                number_pair("limit", minutes),
            ],
        };
        proof {
            assert(weburl::pair_views(pairs@) =~= page_query(self@));
        }
        pairs
    }

    /// The URL of a path below the REST root.
    fn join_root(&self, path: &str) -> (r: Result<String, HistoryError>)
        ensures
            match r {
                Ok(url) => endpoint(self@.root, path@, self@.request.provider) == Ok::<
                    Seq<char>,
                    HistoryErrorView,
                >(url@),
                Err(error) => endpoint(self@.root, path@, self@.request.provider) == Err::<
                    Seq<char>,
                    HistoryErrorView,
                >(error@),
            },
    {
        match weburl::join(self.root.as_str(), path) {
            Ok(url) => Ok(url.text),
            Err(message) => history::invalid_payload(
                self.request.provider(),
                text::cat2("invalid REST source: ", message.as_str()).as_str(),
            ),
        }
    }

    /// The URL of the next page.
    fn next_page_url(&self) -> (r: Result<String, HistoryError>)
        requires
            question(self@) is Page,
        ensures
            match r {
                Ok(url) => page_url(self@) == Ok::<Seq<char>, HistoryErrorView>(url@),
                Err(error) => page_url(self@) == Err::<Seq<char>, HistoryErrorView>(error@),
            },
    {
        let path = match self.request.provider() {
            Provider::Bybit => BYBIT_KLINE_PATH.to_owned(),
            Provider::Binance => BINANCE_KLINE_PATH.to_owned(),
            Provider::Okx => OKX_HISTORY_CANDLES_PATH.to_owned(),
            Provider::Kucoin => KUCOIN_KLINE_PATH.to_owned(),
            Provider::Mexc => text::cat2(MEXC_KLINE_PATH_PREFIX, self.request.symbol()),
            Provider::Bingx => BINGX_KLINE_PATH.to_owned(),
        };
        let url = self.join_root(path.as_str())?;
        let pairs = self.next_query();
        match weburl::extend_pairs(url.as_str(), &pairs) {
            Some(url) => Ok(url),
            None => history::invalid_payload(self.request.provider(), "invalid REST source"),
        }
    }

    /// The URL to ask next, or nothing once the candles are complete.
    ///
    /// # Errors
    ///
    /// Too many pages and a REST root that is no base are refused.
    pub fn next_url(&mut self) -> (r: Result<Option<String>, HistoryError>)
        ensures
            final(self)@ == asked(old(self)@).0,
            match r {
                Ok(Some(url)) => asked(old(self)@).1 == Ok::<
                    Option<Seq<char>>,
                    HistoryErrorView,
                >(Some(url@)),
                Ok(None) => asked(old(self)@).1 == Ok::<Option<Seq<char>>, HistoryErrorView>(None),
                Err(error) => asked(old(self)@).1 == Err::<Option<Seq<char>>, HistoryErrorView>(
                    error@,
                ),
            },
    {
        proof {
            use_type_invariant(&*self);
        }
        if self.asks_clock() {
            let path = match self.request.provider() {
                Provider::Binance => BINANCE_TIME_PATH,
                Provider::Mexc => MEXC_TIME_PATH,
                _ => BINGX_TIME_PATH,
            };
            return Ok(Some(self.join_root(path)?));
        }
        if self.done || (!self.asks_backward() && self.cursor_ms >= self.request.end_time_ms()) {
            return Ok(None);
        }
        if self.pages >= MAX_UPSTREAM_PAGES {
            return Err(
                HistoryError::PaginationStalled {
                    provider: self.request.provider(),
                    cursor_ms: 0,
                },
            );
        }
        let url = self.next_page_url();
        self.pages = self.pages + 1;
        Ok(Some(url?))
    }

    /// Add candles to those that came.
    fn keep(&mut self, page: Vec<Candle>)
        ensures
            final(self)@ == (RetrievalView {
                candles: old(self)@.candles + history::candle_views(page@),
                ..old(self)@
            }),
    {
        proof {
            use_type_invariant(&*self);
        }
        let ghost before = self@;
        let mut candles: Vec<Candle> = Vec::new();
        core::mem::swap(&mut candles, &mut self.candles);
        let ghost kept = history::candle_views(candles@);
        let ghost added = history::candle_views(page@);
        let mut page = page;
        candles.append(&mut page);
        proof {
            assert(history::candle_views(candles@) =~= kept + added);
        }
        self.candles = candles;
    }

    /// Take in a page of candles.
    ///
    /// # Errors
    ///
    /// A page that does not advance is refused.
    pub fn take_page(&mut self, page: Vec<Candle>) -> (r: Result<(), HistoryError>)
        ensures
            question(old(self)@) is Page ==> {
                &&& final(self)@ == page_taken(old(self)@, history::candle_views(page@)).0
                &&& match r {
                    Ok(_) => page_taken(old(self)@, history::candle_views(page@)).1 is None,
                    Err(error) => page_taken(old(self)@, history::candle_views(page@)).1 == Some(
                        error@,
                    ),
                }
            },
            !(question(old(self)@) is Page) ==> final(self)@ == old(self)@ && r is Ok,
    {
        proof {
            use_type_invariant(&*self);
        }
        let backward = self.asks_backward();
        if self.asks_clock() || self.done || (!backward && self.cursor_ms
            >= self.request.end_time_ms()) {
            return Ok(());
        }
        let provider = self.request.provider();
        let count = page.len();
        let cursor_ms = self.cursor_ms;
        if backward {
            if count == 0 {
                self.done = true;
                return Ok(());
            }
            let oldest = oldest_start(&page);
            if oldest >= cursor_ms {
                return Err(HistoryError::PaginationStalled { provider, cursor_ms });
            }
            let limit: usize = match provider {
                Provider::Bybit => BYBIT_PAGE_LIMIT,
                _ => OKX_PAGE_LIMIT,
            };
            self.keep(page);
            if oldest <= self.request.start_time_ms() || count < limit {
                self.done = true;
            } else {
                self.cursor_ms = oldest;
            }
            return Ok(());
        }
        if let Provider::Binance = provider {
            if count == 0 {
                self.done = true;
                return Ok(());
            }
            let newest = newest_start(&page);
            let next = match newest.checked_add(CANDLE_INTERVAL_MS) {
                Some(next) => next,
                None => {
                    return history::invalid_payload(provider, "pagination timestamp overflow");
                },
            };
            if next <= cursor_ms {
                return Err(HistoryError::PaginationStalled { provider, cursor_ms });
            }
            self.keep(page);
            if next >= self.request.end_time_ms() || count < BINANCE_PAGE_LIMIT {
                self.done = true;
            } else {
                self.cursor_ms = next;
            }
            return Ok(());
        }
        let end = self.next_page_end();
        self.keep(page);
        if end <= cursor_ms {
            return Err(HistoryError::PaginationStalled { provider, cursor_ms });
        }
        self.cursor_ms = end;
        Ok(())
    }

    /// The candles of a page, from the text of the answer.
    fn read_page(&self, body: &str) -> (r: Result<Vec<Candle>, HistoryError>)
        ensures
            payload::reads(r, page_candles(self@, body@)),
    {
        let clock = match self.server_time_ms {
            Some(time) => time,
            None => 0,
        };
        match self.request.provider() {
            Provider::Bybit => payload::parse_bybit(body, self.request.symbol()),
            Provider::Binance => payload::parse_binance(body, clock),
            Provider::Okx => payload::parse_okx(body),
            Provider::Kucoin => payload::parse_kucoin(body),
            Provider::Mexc => payload::parse_mexc(body, clock),
            Provider::Bingx => payload::parse_bingx(body, clock),
        }
    }

    /// Take in the answer to what was asked.
    ///
    /// # Errors
    ///
    /// An invalid answer, a refusal and a page that does not advance are refused.
    pub fn take_answer(&mut self, body: &str) -> (r: Result<(), HistoryError>)
        ensures
            !(question(old(self)@) is Nothing) ==> {
                &&& final(self)@ == answered(old(self)@, body@).0
                &&& match r {
                    Ok(_) => answered(old(self)@, body@).1 is None,
                    Err(error) => answered(old(self)@, body@).1 == Some(error@),
                }
            },
            question(old(self)@) is Nothing ==> final(self)@ == old(self)@ && r is Ok,
    {
        proof {
            use_type_invariant(&*self);
        }
        if self.asks_clock() {
            let time = match self.request.provider() {
                Provider::Binance => payload::parse_binance_server_time(body),
                Provider::Mexc => payload::parse_mexc_server_time(body),
                _ => payload::parse_bingx_server_time(body),
            };
            self.server_time_ms = Some(time?);
            return Ok(());
        }
        if self.done || (!self.asks_backward() && self.cursor_ms >= self.request.end_time_ms()) {
            return Ok(());
        }
        let page = self.read_page(body)?;
        self.take_page(page)
    }

    /// The result of the retrieval.
    ///
    /// # Errors
    ///
    /// Two different candles that start at the same time are refused.
    pub fn finish(self) -> (r: Result<HistoryResult, HistoryError>)
        ensures
            history::is_finished(r, self@.request, self@.candles),
    {
        history::finish_result(&self.request, self.candles)
    }
}

} // verus!
