//! Bounded, provider-neutral retrieval of historical one-minute candles.
//!
//! The public exchanges use different pagination directions, response envelopes, volume units,
//! and finality signals. The venue symbol stays exact, and only the candle representation is
//! normalized. Request bounds use a half-open interval: `[start_time_ms, end_time_ms)`.
pub mod fetch;
pub mod payload;

use vstd::prelude::*;

use crate::domain;
use crate::domain::{Candle, CandleView, MarketKind, Provider, CANDLE_INTERVAL_MS};
use crate::text;

verus! {

pub const MAX_HISTORY_CANDLES: usize = 10_000;

pub const MAX_HISTORY_RANGE_MS: u64 = 600_000_000;

// ---------------------------------------------------------------------------------------------
// Errors
// ---------------------------------------------------------------------------------------------

/// Failures are provider-labelled so API callers can distinguish bad user input, venue rejection,
/// upstream availability, and corrupt market data.
#[derive(Debug)]
pub enum HistoryError {
    InvalidRequest(String),
    ClientBuild(String),
    Transport { provider: Provider, source: String },
    HttpStatus { provider: Provider, status: u16, message: String },
    ProviderRejected { provider: Provider, code: String, message: String },
    InvalidPayload { provider: Provider, message: String },
    PaginationStalled { provider: Provider, cursor_ms: u64 },
}

/// The mathematical value of a [`HistoryError`].
pub enum HistoryErrorView {
    InvalidRequest(Seq<char>),
    ClientBuild(Seq<char>),
    Transport { provider: Provider, source: Seq<char> },
    HttpStatus { provider: Provider, status: u16, message: Seq<char> },
    ProviderRejected { provider: Provider, code: Seq<char>, message: Seq<char> },
    InvalidPayload { provider: Provider, message: Seq<char> },
    PaginationStalled { provider: Provider, cursor_ms: u64 },
}

impl View for HistoryError {
    type V = HistoryErrorView;

    open spec fn view(&self) -> HistoryErrorView {
        match self {
            HistoryError::InvalidRequest(message) => HistoryErrorView::InvalidRequest(message@),
            HistoryError::ClientBuild(message) => HistoryErrorView::ClientBuild(message@),
            HistoryError::Transport { provider, source } => HistoryErrorView::Transport {
                provider: *provider,
                source: source@,
            },
            HistoryError::HttpStatus { provider, status, message } => HistoryErrorView::HttpStatus {
                provider: *provider,
                status: *status,
                message: message@,
            },
            HistoryError::ProviderRejected { provider, code, message } =>
                HistoryErrorView::ProviderRejected {
                provider: *provider,
                code: code@,
                message: message@,
            },
            HistoryError::InvalidPayload { provider, message } => HistoryErrorView::InvalidPayload {
                provider: *provider,
                message: message@,
            },
            HistoryError::PaginationStalled { provider, cursor_ms } =>
                HistoryErrorView::PaginationStalled { provider: *provider, cursor_ms: *cursor_ms },
        }
    }
}

/// An error in words.
pub open spec fn history_message(error: HistoryErrorView) -> Seq<char> {
    match error {
        HistoryErrorView::InvalidRequest(message) => "invalid history request: "@ + message,
        HistoryErrorView::ClientBuild(message) => "could not build history HTTP client: "@
            + message,
        HistoryErrorView::Transport { provider, source } => domain::provider_name(provider)
            + " history transport error: "@ + source,
        HistoryErrorView::HttpStatus { provider, status, message } => domain::provider_name(
            provider,
        ) + " history endpoint returned HTTP "@ + text::digits(status as nat) + ": "@ + message,
        HistoryErrorView::ProviderRejected { provider, code, message } => domain::provider_name(
            provider,
        ) + " rejected history request with code "@ + code + ": "@ + message,
        HistoryErrorView::InvalidPayload { provider, message } => "invalid "@
            + domain::provider_name(provider) + " history payload: "@ + message,
        HistoryErrorView::PaginationStalled { provider, cursor_ms } => domain::provider_name(
            provider,
        ) + " history pagination did not advance from "@ + text::digits(cursor_ms as nat),
    }
}

impl HistoryError {
    /// The error in words.
    pub fn message(&self) -> (message: String)
        ensures
            message@ == history_message(self@),
    {
        match self {
            HistoryError::InvalidRequest(message) => text::cat2(
                "invalid history request: ",
                message.as_str(),
            ),
            HistoryError::ClientBuild(message) => text::cat2(
                "could not build history HTTP client: ",
                message.as_str(),
            ),
            HistoryError::Transport { provider, source } => text::cat3(
                provider.name(),
                " history transport error: ",
                source.as_str(),
            ),
            HistoryError::HttpStatus { provider, status, message } => text::cat5(
                provider.name(),
                " history endpoint returned HTTP ",
                text::unsigned_text(*status as u64).as_str(),
                ": ",
                message.as_str(),
            ),
            HistoryError::ProviderRejected { provider, code, message } => text::cat5(
                provider.name(),
                " rejected history request with code ",
                code.as_str(),
                ": ",
                message.as_str(),
            ),
            HistoryError::InvalidPayload { provider, message } => text::cat4(
                "invalid ",
                provider.name(),
                " history payload: ",
                message.as_str(),
            ),
            HistoryError::PaginationStalled { provider, cursor_ms } => text::cat3(
                provider.name(),
                " history pagination did not advance from ",
                text::unsigned_text(*cursor_ms).as_str(),
            ),
        }
    }
}

/// The error for a request that cannot be met.
pub open spec fn bad_request(message: Seq<char>) -> HistoryErrorView {
    HistoryErrorView::InvalidRequest(message)
}

/// The error for data that a venue should not have sent.
pub open spec fn bad_payload(provider: Provider, message: Seq<char>) -> HistoryErrorView {
    HistoryErrorView::InvalidPayload { provider, message }
}

/// The error for a request that a venue refuses.
pub open spec fn refusal(provider: Provider, code: Seq<char>, message: Seq<char>) -> HistoryErrorView {
    HistoryErrorView::ProviderRejected { provider, code, message }
}

/// The error for a request that cannot be met.
pub(crate) fn invalid_request<T>(message: &str) -> (r: Result<T, HistoryError>)
    ensures
        r is Err && r->Err_0@ == bad_request(message@),
{
    Err(HistoryError::InvalidRequest(message.to_owned()))
}

/// The error for data that a venue should not have sent.
pub(crate) fn invalid_payload<T>(provider: Provider, message: &str) -> (r: Result<T, HistoryError>)
    ensures
        r is Err && r->Err_0@ == bad_payload(provider, message@),
{
    Err(HistoryError::InvalidPayload { provider, message: message.to_owned() })
}

/// The error for a request that a venue refuses.
pub(crate) fn provider_rejected<T>(provider: Provider, code: String, message: String) -> (r: Result<
    T,
    HistoryError,
>)
    ensures
        r is Err && r->Err_0@ == refusal(provider, code@, message@),
{
    Err(HistoryError::ProviderRejected { provider, code, message })
}

// ---------------------------------------------------------------------------------------------
// Requests
// ---------------------------------------------------------------------------------------------

/// Whether a text is a nonempty run of ASCII letters and digits.
pub open spec fn is_ascii_name(name: Seq<char>) -> bool {
    name.len() > 0 && text::all_ascii_alphanumeric(name)
}

/// Whether a text is a nonempty run of letters and digits of any script.
pub open spec fn is_name(name: Seq<char>) -> bool {
    name.len() > 0 && forall|i: int| 0 <= i < name.len() ==> text::is_alphanumeric(#[trigger] name[i])
}

/// Whether a text ends with the name of a stable coin.
pub open spec fn ends_in_stable_coin(symbol: Seq<char>) -> bool {
    text::finishes_with(symbol, "USDT"@) || text::finishes_with(symbol, "USDC"@)
}

/// Whether a text is a base asset and a stable coin around a separator.
pub open spec fn is_separated_pair(symbol: Seq<char>, separator: char) -> bool {
    match text::parts_around(symbol, separator) {
        Some((base, quote)) => {
            &&& !text::holds(base, separator)
            &&& is_ascii_name(base)
            &&& quote == "USDT"@ || quote == "USDC"@
        },
        None => false,
    }
}

/// Whether a text is the symbol of a linear perpetual of a venue.
pub open spec fn is_venue_symbol(provider: Provider, symbol: Seq<char>) -> bool {
    match provider {
        Provider::Bybit => is_ascii_name(symbol) && ends_in_stable_coin(symbol),
        Provider::Binance => is_name(symbol) && ends_in_stable_coin(symbol),
        Provider::Okx => match text::before_suffix(symbol, "-SWAP"@) {
            Some(pair) => is_separated_pair(pair, '-'),
            None => false,
        },
        Provider::Kucoin => is_ascii_name(symbol) && (text::finishes_with(symbol, "USDTM"@)
            || text::finishes_with(symbol, "USDCM"@)),
        Provider::Mexc => is_separated_pair(symbol, '_'),
        Provider::Bingx => is_separated_pair(symbol, '-'),
    }
}

/// Whether a text is a nonempty run of letters and digits of any script.
fn unicode_alphanumeric(name: &str) -> (answer: bool)
    ensures
        answer == is_name(name@),
{
    let list = text::characters(name);
    let mut i: usize = 0;
    while i < list.len()
        invariant
            i <= list@.len(),
            list@ == name@,
            forall|k: int| 0 <= k < i ==> text::is_alphanumeric(#[trigger] name@[k]),
        decreases list.len() - i,
    {
        if !text::alphanumeric(list[i]) {
            proof {
                assert(!text::is_alphanumeric(name@[i as int]));
            }
            return false;
        }
        i += 1;
    }
    list.len() > 0
}

/// Whether a text is a nonempty run of ASCII letters and digits.
fn ascii_alphanumeric(name: &str) -> (answer: bool)
    ensures
        answer == is_ascii_name(name@),
{
    !name.is_empty() && text::is_ascii_word(name)
}

/// Whether a text is a base asset and a stable coin around a separator.
fn validate_separated(symbol: &str, separator: char) -> (answer: bool)
    ensures
        answer == is_separated_pair(symbol@, separator),
{
    match text::split_once(symbol, separator) {
        Some((base, quote)) => !text::contains(base, separator) && ascii_alphanumeric(base) && (
        text::same(quote, "USDT") || text::same(quote, "USDC")),
        None => false,
    }
}

/// Whether a text is the symbol of a linear perpetual of a venue.
fn validate_provider_symbol(provider: Provider, symbol: &str) -> (answer: bool)
    ensures
        answer == is_venue_symbol(provider, symbol@),
{
    match provider {
        Provider::Bybit => ascii_alphanumeric(symbol) && (text::ends_with(symbol, "USDT")
            || text::ends_with(symbol, "USDC")),
        Provider::Binance => unicode_alphanumeric(symbol) && (text::ends_with(symbol, "USDT")
            || text::ends_with(symbol, "USDC")),
        Provider::Okx => match text::strip_suffix(symbol, "-SWAP") {
            Some(pair) => validate_separated(pair, '-'),
            None => false,
        },
        Provider::Kucoin => ascii_alphanumeric(symbol) && (text::ends_with(symbol, "USDTM")
            || text::ends_with(symbol, "USDCM")),
        Provider::Mexc => validate_separated(symbol, '_'),
        Provider::Bingx => validate_separated(symbol, '-'),
    }
}

/// A validated request for complete one-minute buckets in a half-open time range.
///
/// The symbol is an exact, uppercase venue symbol. In particular, this layer never translates
/// `BTC` to `XBT`, inserts OKX separators, or otherwise guesses an instrument.
#[derive(Debug, PartialEq, Eq)]
pub struct HistoryRequest {
    provider: Provider,
    symbol: String,
    start_time_ms: u64,
    end_time_ms: u64,
    limit: usize,
}

/// The mathematical value of a [`HistoryRequest`].
pub struct RequestView {
    pub provider: Provider,
    pub symbol: Seq<char>,
    pub start_time_ms: u64,
    pub end_time_ms: u64,
    pub limit: usize,
}

impl View for HistoryRequest {
    type V = RequestView;

    closed spec fn view(&self) -> RequestView {
        RequestView {
            provider: self.provider,
            symbol: self.symbol@,
            start_time_ms: self.start_time_ms,
            end_time_ms: self.end_time_ms,
            limit: self.limit,
        }
    }
}

impl Clone for HistoryRequest {
    fn clone(&self) -> (copy: Self)
        ensures
            copy@ == self@,
    {
        proof {
            use_type_invariant(self);
        }
        HistoryRequest {
            provider: self.provider,
            symbol: self.symbol.clone(),
            start_time_ms: self.start_time_ms,
            end_time_ms: self.end_time_ms,
            limit: self.limit,
        }
    }
}

/// Why a request cannot be met, in words.
pub open spec fn request_problem(request: RequestView) -> Option<Seq<char>> {
    match domain::symbol_identity(request.symbol) {
        Err(error) => Some(domain::domain_message(error)),
        Ok(identity) => if identity != request.symbol {
            Some("symbol must be the exact uppercase venue symbol without surrounding whitespace"@)
        } else if !is_venue_symbol(request.provider, request.symbol) {
            Some(
                request.symbol + " is not an exact "@ + domain::provider_name(request.provider)
                    + " linear perpetual symbol"@,
            )
        } else if request.start_time_ms == 0 || request.start_time_ms % CANDLE_INTERVAL_MS != 0
            || request.end_time_ms % CANDLE_INTERVAL_MS != 0 {
            Some("history bounds must be positive UTC minute boundaries"@)
        } else if request.end_time_ms <= request.start_time_ms {
            Some("end_time_ms must be greater than start_time_ms"@)
        } else if request.end_time_ms - request.start_time_ms > MAX_HISTORY_RANGE_MS {
            Some("history range exceeds 600000000 milliseconds"@)
        } else if !(1 <= request.limit <= MAX_HISTORY_CANDLES) {
            Some("history limit must be between 1 and 10000"@)
        } else {
            None
        },
    }
}

impl HistoryRequest {
    /// Every request can be met.
    #[verifier::type_invariant]
    spec fn valid(&self) -> bool {
        request_problem(self@) is None
    }

    /// Validate a bounded one-minute history request.
    ///
    /// `end_time_ms` is exclusive. Both timestamps must be UTC minute boundaries. If the range
    /// contains more available candles than `limit`, the earliest candles are returned.
    ///
    /// # Errors
    ///
    /// Returns [`HistoryError::InvalidRequest`] for an invalid venue symbol, unaligned or empty
    /// range, excessive range, or a zero/excessive result limit.
    pub fn new(
        provider: Provider,
        symbol: &str,
        start_time_ms: u64,
        end_time_ms: u64,
        limit: usize,
    ) -> (r: Result<Self, HistoryError>)
        ensures
            ({
                let wanted = RequestView {
                    provider,
                    symbol: symbol@,
                    start_time_ms,
                    end_time_ms,
                    limit,
                };
                match r {
                    Ok(request) => request_problem(wanted) is None && request@ == wanted,
                    Err(error) => {
                        &&& request_problem(wanted) is Some
                        &&& error@ == bad_request(request_problem(wanted)->0)
                    },
                }
            }),
    {
        let normalized = match domain::normalize_symbol(symbol) {
            Ok(normalized) => normalized,
            Err(error) => {
                return invalid_request(error.message().as_str());
            },
        };
        if !text::same(symbol, normalized.as_str()) {
            return invalid_request(
                "symbol must be the exact uppercase venue symbol without surrounding whitespace",
            );
        }
        if !validate_provider_symbol(provider, symbol) {
            return invalid_request(
                text::cat4(
                    symbol,
                    " is not an exact ",
                    provider.name(),
                    " linear perpetual symbol",
                ).as_str(),
            );
        }
        if start_time_ms == 0 || start_time_ms % CANDLE_INTERVAL_MS != 0 || end_time_ms
            % CANDLE_INTERVAL_MS != 0 {
            return invalid_request("history bounds must be positive UTC minute boundaries");
        }
        if end_time_ms <= start_time_ms {
            return invalid_request("end_time_ms must be greater than start_time_ms");
        }
        if end_time_ms - start_time_ms > MAX_HISTORY_RANGE_MS {
            return invalid_request("history range exceeds 600000000 milliseconds");
        }
        if limit < 1 || limit > MAX_HISTORY_CANDLES {
            return invalid_request("history limit must be between 1 and 10000");
        }
        Ok(HistoryRequest { provider, symbol: normalized, start_time_ms, end_time_ms, limit })
    }

    /// The venue.
    pub fn provider(&self) -> (provider: Provider)
        ensures
            provider == self@.provider,
    {
        self.provider
    }

    /// The venue symbol.
    pub fn symbol(&self) -> (symbol: &str)
        ensures
            symbol@ == self@.symbol,
    {
        self.symbol.as_str()
    }

    /// The start of the first candle.
    pub fn start_time_ms(&self) -> (time: u64)
        ensures
            time == self@.start_time_ms,
    {
        self.start_time_ms
    }

    /// The end of the last candle.
    pub fn end_time_ms(&self) -> (time: u64)
        ensures
            time == self@.end_time_ms,
    {
        self.end_time_ms
    }

    /// The most candles to return.
    pub fn limit(&self) -> (limit: usize)
        ensures
            limit == self@.limit,
    {
        self.limit
    }

    /// Learn that the request can be met.
    pub(crate) fn confirm(&self)
        ensures
            request_problem(self@) is None,
    {
        proof {
            use_type_invariant(self);
        }
    }
}

// ---------------------------------------------------------------------------------------------
// Results
// ---------------------------------------------------------------------------------------------

/// One normalized candle with its exact venue identity.
#[derive(Debug, Clone)]
pub struct HistoryCandle {
    pub provider: Provider,
    pub market: MarketKind,
    pub symbol: String,
    pub candle: Candle,
}

/// The stable, provider-neutral result of a history request.
#[derive(Debug, Clone)]
pub struct HistoryResult {
    pub provider: Provider,
    pub market: MarketKind,
    pub symbol: String,
    pub start_time_ms: u64,
    pub end_time_ms: u64,
    pub candles: Vec<HistoryCandle>,
}

/// The values of candles.
pub open spec fn candle_views(list: Seq<Candle>) -> Seq<CandleView> {
    Seq::new(list.len(), |i: int| list[i]@)
}

/// Whether a candle lies in the range of a request.
pub open spec fn in_range(request: RequestView, candle: CandleView) -> bool {
    candle.start_time_ms >= request.start_time_ms && candle.end_time_ms <= request.end_time_ms
}

/// The candles that lie in the range of a request, in their order.
pub open spec fn within(request: RequestView, candles: Seq<CandleView>) -> Seq<CandleView>
    decreases candles.len(),
{
    if candles.len() == 0 {
        Seq::empty()
    } else if in_range(request, candles.last()) {
        within(request, candles.drop_last()).push(candles.last())
    } else {
        within(request, candles.drop_last())
    }
}

/// Whether two candles of a list start at a time and differ.
pub open spec fn conflicting(candles: Seq<CandleView>, time: u64) -> bool {
    exists|i: int, j: int|
        0 <= i < candles.len() && 0 <= j < candles.len() && (#[trigger] candles[i]).start_time_ms
            == time && (#[trigger] candles[j]).start_time_ms == time && candles[i] != candles[j]
}

/// Whether a time is the first at which two candles of a list conflict.
pub open spec fn first_conflict(candles: Seq<CandleView>, time: u64) -> bool {
    conflicting(candles, time) && forall|earlier: u64|
        earlier < time ==> !#[trigger] conflicting(candles, earlier)
}

/// Whether candles are in strictly ascending order.
pub open spec fn is_ascending(candles: Seq<CandleView>) -> bool {
    forall|i: int, j: int|
        0 <= i < j < candles.len() ==> (#[trigger] candles[i]).start_time_ms < (
        #[trigger] candles[j]).start_time_ms
}

/// Whether a list has the candles of another one, each once, in ascending order.
pub open spec fn arranges(list: Seq<CandleView>, candles: Seq<CandleView>) -> bool {
    &&& is_ascending(list)
    &&& forall|i: int| 0 <= i < list.len() ==> candles.contains(#[trigger] list[i])
    &&& forall|i: int| 0 <= i < candles.len() ==> list.contains(#[trigger] candles[i])
}

/// The first items of a list, no more than a limit.
pub open spec fn limited(list: Seq<CandleView>, limit: usize) -> Seq<CandleView> {
    if list.len() <= limit {
        list
    } else {
        list.take(limit as int)
    }
}

/// A result with candles for a request.
pub open spec fn answers(
    result: HistoryResult,
    request: RequestView,
    candles: Seq<CandleView>,
) -> bool {
    &&& result.provider == request.provider
    &&& result.market == MarketKind::LinearPerpetual
    &&& result.symbol@ == request.symbol
    &&& result.start_time_ms == request.start_time_ms
    &&& result.end_time_ms == request.end_time_ms
    &&& result.candles@.len() == candles.len()
    &&& forall|i: int|
        0 <= i < candles.len() ==> {
            &&& (#[trigger] result.candles@[i]).provider == request.provider
            &&& result.candles@[i].market == MarketKind::LinearPerpetual
            &&& result.candles@[i].symbol@ == request.symbol
            &&& result.candles@[i].candle@ == candles[i]
        }
}

/// Whether a result is what candles make of a request: those in its range, each once, in ascending
/// order, no more than its limit; or the error about the first time at which two conflict.
pub open spec fn is_finished(
    r: Result<HistoryResult, HistoryError>,
    request: RequestView,
    candles: Seq<CandleView>,
) -> bool {
    let kept = within(request, candles);
    match r {
        Ok(result) => exists|list: Seq<CandleView>| #[trigger]
            arranges(list, kept) && answers(result, request, limited(list, request.limit)),
        Err(error) => exists|time: u64| #[trigger]
            first_conflict(kept, time) && error@ == bad_payload(
                request.provider,
                "conflicting duplicate candle at "@ + text::digits(time as nat),
            ),
    }
}

/// The candles in the range of a request, those of one time once, and the first time at which two
/// conflict.
struct Arranged {
    list: Vec<Candle>,
    conflict: Option<u64>,
}

/// Whether a list and a conflict are what is kept of candles that were taken in.
spec fn keeps(list: Seq<CandleView>, conflict: Option<u64>, candles: Seq<CandleView>) -> bool {
    &&& is_ascending(list)
    &&& forall|i: int| 0 <= i < list.len() ==> candles.contains(#[trigger] list[i])
    &&& forall|i: int|
        0 <= i < candles.len() ==> has_start(list, (#[trigger] candles[i]).start_time_ms)
    &&& match conflict {
        Some(time) => first_conflict(candles, time),
        None => forall|i: int| 0 <= i < candles.len() ==> list.contains(#[trigger] candles[i]),
    }
}

impl Arranged {
    /// Whether the candles of a list were taken in.
    spec fn of(&self, candles: Seq<CandleView>) -> bool {
        keeps(candle_views(self.list@), self.conflict, candles)
    }
}

/// Whether a candle of a list starts at a time.
spec fn has_start(list: Seq<CandleView>, time: u64) -> bool {
    exists|i: int| 0 <= i < list.len() && (#[trigger] list[i]).start_time_ms == time
}

/// The place of the first candle that starts no earlier than a time.
fn place(list: &Vec<Candle>, time: u64) -> (at: usize)
    requires
        is_ascending(candle_views(list@)),
    ensures
        at <= list@.len(),
        forall|i: int| 0 <= i < at ==> (#[trigger] list@[i])@.start_time_ms < time,
        forall|i: int| at <= i < list@.len() ==> (#[trigger] list@[i])@.start_time_ms >= time,
{
    let mut low: usize = 0;
    let mut high: usize = list.len();
    while low < high
        invariant
            low <= high <= list@.len(),
            is_ascending(candle_views(list@)),
            forall|i: int| 0 <= i < low ==> (#[trigger] list@[i])@.start_time_ms < time,
            forall|i: int| high <= i < list@.len() ==> (#[trigger] list@[i])@.start_time_ms >= time,
        decreases high - low,
    {
        let middle = low + (high - low) / 2;
        let ghost views = candle_views(list@);
        if list[middle].start_time_ms < time {
            proof {
                assert forall|i: int| 0 <= i < middle + 1 implies (
                #[trigger] list@[i])@.start_time_ms < time by {
                    if i < middle {
                        assert(views[i].start_time_ms < views[middle as int].start_time_ms);
                    }
                }
            }
            low = middle + 1;
        } else {
            proof {
                assert forall|i: int| middle <= i < list@.len() implies (
                #[trigger] list@[i])@.start_time_ms >= time by {
                    if middle < i {
                        assert(views[middle as int].start_time_ms < views[i].start_time_ms);
                    }
                }
            }
            high = middle;
        }
    }
    low
}

/// One more candle joins a conflict or starts one: what the first conflict is then.
proof fn lemma_conflicts_grow(candles: Seq<CandleView>, added: CandleView, time: u64)
    ensures
        conflicting(candles, time) ==> conflicting(candles.push(added), time),
        time != added.start_time_ms ==> (conflicting(candles.push(added), time) == conflicting(
            candles,
            time,
        )),
{
    let longer = candles.push(added);
    if conflicting(candles, time) {
        let (i, j) = choose|i: int, j: int|
            0 <= i < candles.len() && 0 <= j < candles.len() && (
            #[trigger] candles[i]).start_time_ms == time && (#[trigger] candles[j]).start_time_ms
                == time && candles[i] != candles[j];
        assert(longer[i] == candles[i] && longer[j] == candles[j]);
    }
    if time != added.start_time_ms && conflicting(longer, time) {
        let (i, j) = choose|i: int, j: int|
            0 <= i < longer.len() && 0 <= j < longer.len() && (
            #[trigger] longer[i]).start_time_ms == time && (#[trigger] longer[j]).start_time_ms
                == time && longer[i] != longer[j];
        assert(longer[candles.len() as int] == added);
        assert(i < candles.len() && j < candles.len());
        assert(candles[i] == longer[i] && candles[j] == longer[j]);
    }
}

/// In a list whose candles another one arranges, no two candles conflict.
proof fn lemma_arranged_agree(list: Seq<CandleView>, candles: Seq<CandleView>, time: u64)
    requires
        arranges(list, candles),
    ensures
        !conflicting(candles, time),
{
    if conflicting(candles, time) {
        let (i, j) = choose|i: int, j: int|
            0 <= i < candles.len() && 0 <= j < candles.len() && (
            #[trigger] candles[i]).start_time_ms == time && (#[trigger] candles[j]).start_time_ms
                == time && candles[i] != candles[j];
        let a = choose|a: int| 0 <= a < list.len() && list[a] == candles[i];
        let b = choose|b: int| 0 <= b < list.len() && list[b] == candles[j];
        if a < b {
            assert(list[a].start_time_ms < list[b].start_time_ms);
        } else if b < a {
            assert(list[b].start_time_ms < list[a].start_time_ms);
        }
    }
}

/// The earlier of the known first conflict and another one.
spec fn earlier_conflict(known: Option<u64>, time: u64) -> Option<u64> {
    match known {
        Some(earlier) => if earlier <= time {
            Some(earlier)
        } else {
            Some(time)
        },
        None => Some(time),
    }
}

/// A candle comes that starts when one that is kept does.
proof fn lemma_met(
    list: Seq<CandleView>,
    conflict: Option<u64>,
    candles: Seq<CandleView>,
    added: CandleView,
    at: int,
)
    requires
        keeps(list, conflict, candles),
        0 <= at < list.len(),
        list[at].start_time_ms == added.start_time_ms,
    ensures
        keeps(
            list,
            if list[at] == added {
                conflict
            } else {
                earlier_conflict(conflict, added.start_time_ms)
            },
            candles.push(added),
        ),
{
    let longer = candles.push(added);
    let kept = list[at];
    let k = choose|k: int| 0 <= k < candles.len() && candles[k] == kept;
    assert(candles.contains(kept));
    assert(longer[candles.len() as int] == added);
    assert(longer[k] == kept);
    assert forall|i: int| 0 <= i < list.len() implies longer.contains(#[trigger] list[i]) by {
        let m = choose|m: int| 0 <= m < candles.len() && candles[m] == list[i];
        assert(longer[m] == list[i]);
    }
    assert forall|i: int| 0 <= i < longer.len() implies has_start(
        list,
        (#[trigger] longer[i]).start_time_ms,
    ) by {
        if i < candles.len() {
            assert(candles[i] == longer[i]);
        } else {
            assert(list[at].start_time_ms == longer[i].start_time_ms);
        }
    }
    if kept == added {
        assert forall|t: u64| #[trigger] conflicting(longer, t) == conflicting(candles, t) by {
            lemma_conflicts_grow(candles, added, t);
            if conflicting(longer, t) {
                let (i, j) = choose|i: int, j: int|
                    0 <= i < longer.len() && 0 <= j < longer.len() && (
                    #[trigger] longer[i]).start_time_ms == t && (
                    #[trigger] longer[j]).start_time_ms == t && longer[i] != longer[j];
                let a = if i < candles.len() { i } else { k };
                let b = if j < candles.len() { j } else { k };
                assert(candles[a] == longer[i] && candles[b] == longer[j]);
            }
        }
        assert forall|i: int| 0 <= i < longer.len() && conflict is None implies list.contains(
            #[trigger] longer[i],
        ) by {
            if i < candles.len() {
                assert(list.contains(candles[i]));
            } else {
                assert(list[at] == longer[i]);
            }
        }
    } else {
        assert(longer[k] != longer[candles.len() as int]);
        assert(conflicting(longer, added.start_time_ms));
        assert forall|t: u64| t != added.start_time_ms implies #[trigger] conflicting(longer, t)
            == conflicting(candles, t) by {
            lemma_conflicts_grow(candles, added, t);
        }
        if conflict is None {
            assert forall|t: u64| !#[trigger] conflicting(candles, t) by {
                lemma_arranged_agree(list, candles, t);
            }
        } else {
            lemma_conflicts_grow(candles, added, conflict->0);
        }
    }
}

/// A candle comes that starts when none that is kept does.
proof fn lemma_new(
    list: Seq<CandleView>,
    conflict: Option<u64>,
    candles: Seq<CandleView>,
    added: CandleView,
    at: int,
)
    requires
        keeps(list, conflict, candles),
        0 <= at <= list.len(),
        forall|i: int|
            0 <= i < at ==> (#[trigger] list[i]).start_time_ms < added.start_time_ms,
        forall|i: int|
            at <= i < list.len() ==> (#[trigger] list[i]).start_time_ms > added.start_time_ms,
    ensures
        keeps(list.insert(at, added), conflict, candles.push(added)),
{
    let longer = candles.push(added);
    let after = list.insert(at, added);
    assert(longer[candles.len() as int] == added);
    assert(after[at] == added);
    assert forall|i: int, j: int| 0 <= i < j < after.len() implies (
    #[trigger] after[i]).start_time_ms < (#[trigger] after[j]).start_time_ms by {
        let a = if i < at { i } else { i - 1 };
        let b = if j < at { j } else { j - 1 };
        if i != at {
            assert(after[i] == list[a]);
        }
        if j != at {
            assert(after[j] == list[b]);
        }
    }
    assert forall|i: int| 0 <= i < after.len() implies longer.contains(#[trigger] after[i]) by {
        if i != at {
            let a = if i < at { i } else { i - 1 };
            assert(after[i] == list[a]);
            let m = choose|m: int| 0 <= m < candles.len() && candles[m] == list[a];
            assert(longer[m] == after[i]);
        }
    }
    assert forall|i: int| 0 <= i < list.len() implies after.contains(#[trigger] list[i]) by {
        let a = if i < at { i } else { i + 1 };
        assert(after[a] == list[i]);
    }
    assert forall|i: int| 0 <= i < longer.len() implies has_start(
        after,
        (#[trigger] longer[i]).start_time_ms,
    ) by {
        if i < candles.len() {
            assert(candles[i] == longer[i]);
            let m = choose|m: int|
                0 <= m < list.len() && (#[trigger] list[m]).start_time_ms
                    == candles[i].start_time_ms;
            assert(after.contains(list[m]));
        }
    }
    assert forall|i: int| 0 <= i < candles.len() implies (#[trigger] candles[i]).start_time_ms
        != added.start_time_ms by {
        let m = choose|m: int|
            0 <= m < list.len() && (#[trigger] list[m]).start_time_ms == candles[i].start_time_ms;
    }
    assert forall|t: u64| #[trigger] conflicting(longer, t) == conflicting(candles, t) by {
        lemma_conflicts_grow(candles, added, t);
        if t == added.start_time_ms && conflicting(longer, t) {
            let (i, j) = choose|i: int, j: int|
                0 <= i < longer.len() && 0 <= j < longer.len() && (
                #[trigger] longer[i]).start_time_ms == t && (#[trigger] longer[j]).start_time_ms
                    == t && longer[i] != longer[j];
            if i < candles.len() {
                assert(candles[i] == longer[i]);
            }
            if j < candles.len() {
                assert(candles[j] == longer[j]);
            }
        }
    }
    if conflict is None {
        assert forall|i: int| 0 <= i < longer.len() implies after.contains(
            #[trigger] longer[i],
        ) by {
            if i < candles.len() {
                assert(list.contains(candles[i]));
                let m = choose|m: int| 0 <= m < list.len() && list[m] == candles[i];
                assert(after.contains(list[m]));
            }
        }
    }
}

impl Arranged {
    /// Take in one more candle.
    fn take(&mut self, candle: Candle, Ghost(candles): Ghost<Seq<CandleView>>)
        requires
            old(self).of(candles),
        ensures
            final(self).of(candles.push(candle@)),
    {
        let time = candle.start_time_ms;
        let ghost added = candle@;
        let ghost before = candle_views(self.list@);
        let at = place(&self.list, time);
        if at < self.list.len() && self.list[at].start_time_ms == time {
            proof {
                lemma_met(before, self.conflict, candles, added, at as int);
            }
            if !self.list[at].same(&candle) {
                self.conflict = match self.conflict {
                    Some(earlier) => if earlier <= time {
                        Some(earlier)
                    } else {
                        Some(time)
                    },
                    None => Some(time),
                };
            }
        } else {
            proof {
                assert forall|i: int| 0 <= i < at implies (#[trigger] before[i]).start_time_ms
                    < time by {
                    assert(before[i] == self.list@[i]@);
                }
                assert forall|i: int| at <= i < before.len() implies (
                #[trigger] before[i]).start_time_ms > time by {
                    assert(before[i] == self.list@[i]@);
                    assert(before[at as int] == self.list@[at as int]@);
                    if i > at {
                        assert(before[at as int].start_time_ms < before[i].start_time_ms);
                    }
                }
                lemma_new(before, self.conflict, candles, added, at as int);
            }
            self.list.insert(at, candle);
            proof {
                assert(candle_views(self.list@) =~= before.insert(at as int, added));
            }
        }
    }
}

/// Order the candles of a request, drop those outside its range and repeated ones, and keep the
/// earliest.
///
/// # Errors
///
/// Two different candles that start at the same time are refused.
pub fn finish_result(request: &HistoryRequest, candles: Vec<Candle>) -> (r: Result<
    HistoryResult,
    HistoryError,
>)
    ensures
        is_finished(r, request@, candle_views(candles@)),
{
    let ghost all = candle_views(candles@);
    let mut arranged = Arranged { list: Vec::new(), conflict: None };
    let mut i: usize = 0;
    proof {
        assert(all.take(0) =~= Seq::empty());
    }
    while i < candles.len()
        invariant
            i <= candles@.len(),
            all == candle_views(candles@),
            arranged.of(within(request@, all.take(i as int))),
        decreases candles.len() - i,
    {
        let candle = &candles[i];
        proof {
            let longer = all.take(i + 1);
            assert(longer.drop_last() =~= all.take(i as int));
            assert(longer.last() == candle@);
        }
        if candle.start_time_ms >= request.start_time_ms && candle.end_time_ms
            <= request.end_time_ms {
            arranged.take(candle.clone(), Ghost(within(request@, all.take(i as int))));
        }
        i += 1;
    }
    proof {
        assert(all.take(i as int) =~= all);
    }
    let ghost kept = within(request@, all);
    if let Some(time) = arranged.conflict {
        proof {
            assert(first_conflict(kept, time));
        }
        return invalid_payload(
            request.provider,
            text::cat2(
                "conflicting duplicate candle at ",
                text::unsigned_text(time).as_str(),
            ).as_str(),
        );
    }
    let ghost list = candle_views(arranged.list@);
    let count = if arranged.list.len() <= request.limit {
        arranged.list.len()
    } else {
        request.limit
    };
    let mut named: Vec<HistoryCandle> = Vec::new();
    let mut j: usize = 0;
    while j < count
        invariant
            j <= count <= arranged.list@.len(),
            list == candle_views(arranged.list@),
            named@.len() == j,
            forall|k: int|
                0 <= k < j ==> {
                    &&& (#[trigger] named@[k]).provider == request@.provider
                    &&& named@[k].market == MarketKind::LinearPerpetual
                    &&& named@[k].symbol@ == request@.symbol
                    &&& named@[k].candle@ == list[k]
                },
        decreases count - j,
    {
        named.push(
            HistoryCandle {
                provider: request.provider,
                market: MarketKind::LinearPerpetual,
                symbol: request.symbol.clone(),
                candle: arranged.list[j].clone(),
            },
        );
        j += 1;
    }
    let result = HistoryResult {
        provider: request.provider,
        market: MarketKind::LinearPerpetual,
        symbol: request.symbol.clone(),
        start_time_ms: request.start_time_ms,
        end_time_ms: request.end_time_ms,
        candles: named,
    };
    proof {
        assert(arranges(list, kept));
        assert(answers(result, request@, limited(list, request@.limit)));
    }
    Ok(result)
}

/// The candles in the range of a request are some of those that were given.
proof fn lemma_within(request: RequestView, candles: Seq<CandleView>)
    ensures
        forall|i: int|
            0 <= i < within(request, candles).len() ==> in_range(
                request,
                #[trigger] within(request, candles)[i],
            ) && candles.contains(within(request, candles)[i]),
        forall|i: int|
            0 <= i < candles.len() && in_range(request, #[trigger] candles[i]) ==> within(
                request,
                candles,
            ).contains(candles[i]),
    decreases candles.len(),
{
    if candles.len() > 0 {
        let shorter = candles.drop_last();
        let inner = within(request, shorter);
        let outer = within(request, candles);
        lemma_within(request, shorter);
        assert(candles[candles.len() - 1] == candles.last());
        assert forall|i: int| 0 <= i < outer.len() implies in_range(request, #[trigger] outer[i])
            && candles.contains(outer[i]) by {
            if i < inner.len() {
                assert(outer[i] == inner[i]);
                let k = choose|k: int| 0 <= k < shorter.len() && shorter[k] == inner[i];
                assert(candles[k] == outer[i]);
            }
        }
        assert forall|i: int| 0 <= i < candles.len() && in_range(
            request,
            #[trigger] candles[i],
        ) implies outer.contains(candles[i]) by {
            if i < shorter.len() {
                assert(shorter[i] == candles[i]);
                let k = choose|k: int| 0 <= k < inner.len() && inner[k] == candles[i];
                assert(outer[k] == candles[i]);
            } else {
                assert(outer[inner.len() as int] == candles[i]);
            }
        }
    }
}

/// The candles of a result are in strictly ascending order, lie in the half-open range of the
/// request, are no more than its limit, and were all given by the venue; and any given candle of
/// the range that is not among them starts after all of them, where the limit is reached.
pub proof fn law_results_are_ordered_bounded_and_earliest(
    request: RequestView,
    candles: Seq<CandleView>,
    list: Seq<CandleView>,
)
    requires
        arranges(list, within(request, candles)),
    ensures
        ({
            let result = limited(list, request.limit);
            &&& is_ascending(result)
            &&& result.len() <= request.limit
            &&& forall|i: int|
                0 <= i < result.len() ==> in_range(request, #[trigger] result[i])
                    && candles.contains(result[i])
            &&& forall|i: int|
                0 <= i < candles.len() && in_range(request, #[trigger] candles[i])
                    && !result.contains(candles[i]) ==> result.len() == request.limit && forall|
                    j: int,
                |
                    0 <= j < result.len() ==> (#[trigger] result[j]).start_time_ms
                        < candles[i].start_time_ms
        }),
{
    let result = limited(list, request.limit);
    let kept = within(request, candles);
    lemma_within(request, candles);
    assert forall|i: int, j: int| 0 <= i < j < result.len() implies (
    #[trigger] result[i]).start_time_ms < (#[trigger] result[j]).start_time_ms by {
        assert(result[i] == list[i] && result[j] == list[j]);
    }
    assert forall|i: int| 0 <= i < result.len() implies in_range(request, #[trigger] result[i])
        && candles.contains(result[i]) by {
        assert(result[i] == list[i]);
        let k = choose|k: int| 0 <= k < kept.len() && kept[k] == list[i];
        assert(in_range(request, kept[k]));
    }
    assert forall|i: int|
        0 <= i < candles.len() && in_range(request, #[trigger] candles[i]) && !result.contains(
            candles[i],
        ) implies result.len() == request.limit && forall|j: int|
        0 <= j < result.len() ==> (#[trigger] result[j]).start_time_ms
            < candles[i].start_time_ms by {
        let k = choose|k: int| 0 <= k < kept.len() && kept[k] == candles[i];
        let m = choose|m: int| 0 <= m < list.len() && list[m] == kept[k];
        if m < result.len() {
            assert(result[m] == candles[i]);
        }
        assert forall|j: int| 0 <= j < result.len() implies (#[trigger] result[j]).start_time_ms
            < candles[i].start_time_ms by {
            assert(result[j] == list[j]);
            assert(list[j].start_time_ms < list[m].start_time_ms);
        }
    }
}

/// Conflicting candles are refused, and nothing else is: a result is an error exactly if two
/// different candles in the range of the request start at the same time.
pub proof fn law_only_conflicts_are_refused(
    r: Result<HistoryResult, HistoryError>,
    request: RequestView,
    candles: Seq<CandleView>,
)
    requires
        is_finished(r, request, candles),
    ensures
        r is Err <==> exists|time: u64| #[trigger]
            conflicting(within(request, candles), time),
{
    let kept = within(request, candles);
    match r {
        Ok(result) => {
            let list = choose|list: Seq<CandleView>| #[trigger]
                arranges(list, kept) && answers(result, request, limited(list, request.limit));
            assert forall|time: u64| !#[trigger] conflicting(kept, time) by {
                lemma_arranged_agree(list, kept, time);
            }
        },
        Err(_) => {},
    }
}

/// The order in which pages come does not matter: two lists with the same candles give one result.
pub proof fn law_results_do_not_depend_on_page_order(
    request: RequestView,
    one: Seq<CandleView>,
    other: Seq<CandleView>,
    a: Seq<CandleView>,
    b: Seq<CandleView>,
)
    requires
        one.to_set() == other.to_set(),
        arranges(a, within(request, one)),
        arranges(b, within(request, other)),
    ensures
        limited(a, request.limit) == limited(b, request.limit),
{
    lemma_within(request, one);
    lemma_within(request, other);
    assert forall|c: CandleView| a.contains(c) == b.contains(c) by {
        lemma_arranged_members(request, one, a, c);
        lemma_arranged_members(request, other, b, c);
        assert(one.to_set().contains(c) == one.contains(c));
        assert(other.to_set().contains(c) == other.contains(c));
    }
    lemma_ascending_unique(a, b);
}

/// What a list that arranges the candles in the range of a request has.
proof fn lemma_arranged_members(
    request: RequestView,
    candles: Seq<CandleView>,
    list: Seq<CandleView>,
    c: CandleView,
)
    requires
        arranges(list, within(request, candles)),
    ensures
        list.contains(c) <==> candles.contains(c) && in_range(request, c),
{
    let kept = within(request, candles);
    lemma_within(request, candles);
    if list.contains(c) {
        let i = choose|i: int| 0 <= i < list.len() && list[i] == c;
        assert(kept.contains(list[i]));
        let k = choose|k: int| 0 <= k < kept.len() && kept[k] == c;
        assert(in_range(request, kept[k]));
    }
    if candles.contains(c) && in_range(request, c) {
        let i = choose|i: int| 0 <= i < candles.len() && candles[i] == c;
        assert(kept.contains(candles[i]));
        let k = choose|k: int| 0 <= k < kept.len() && kept[k] == c;
        assert(list.contains(kept[k]));
    }
}

/// Two ascending lists with the same candles are one.
proof fn lemma_ascending_unique(a: Seq<CandleView>, b: Seq<CandleView>)
    requires
        is_ascending(a),
        is_ascending(b),
        forall|c: CandleView| a.contains(c) == b.contains(c),
    ensures
        a == b,
    decreases a.len(),
{
    if a.len() == 0 {
        if b.len() > 0 {
            assert(b.contains(b[0]));
            assert(a.contains(b[0]));
        }
        assert(a =~= b);
    } else {
        assert(a.contains(a.last()));
        assert(b.contains(a.last()));
        let n = choose|n: int| 0 <= n < b.len() && b[n] == a.last();
        assert(b.contains(b.last()));
        assert(a.contains(b.last()));
        let m = choose|m: int| 0 <= m < a.len() && a[m] == b.last();
        if n < b.len() - 1 {
            assert(b[n].start_time_ms < b.last().start_time_ms);
            if m < a.len() - 1 {
                assert(a[m].start_time_ms < a.last().start_time_ms);
            }
        }
        assert(a.last() == b.last());
        let s = a.drop_last();
        let t = b.drop_last();
        assert forall|i: int, j: int| 0 <= i < j < s.len() implies (
        #[trigger] s[i]).start_time_ms < (#[trigger] s[j]).start_time_ms by {
            assert(a[i].start_time_ms < a[j].start_time_ms);
        }
        assert forall|i: int, j: int| 0 <= i < j < t.len() implies (
        #[trigger] t[i]).start_time_ms < (#[trigger] t[j]).start_time_ms by {
            assert(b[i].start_time_ms < b[j].start_time_ms);
        }
        assert forall|c: CandleView| s.contains(c) == t.contains(c) by {
            if s.contains(c) {
                let i = choose|i: int| 0 <= i < s.len() && s[i] == c;
                assert(a[i].start_time_ms < a.last().start_time_ms);
                assert(a.contains(a[i]));
                let k = choose|k: int| 0 <= k < b.len() && b[k] == c;
                assert(t[k] == c);
            }
            if t.contains(c) {
                let i = choose|i: int| 0 <= i < t.len() && t[i] == c;
                assert(b[i].start_time_ms < b.last().start_time_ms);
                assert(b.contains(b[i]));
                let k = choose|k: int| 0 <= k < a.len() && a[k] == c;
                assert(s[k] == c);
            }
        }
        lemma_ascending_unique(s, t);
        assert(a =~= s.push(a.last()));
        assert(b =~= t.push(b.last()));
    }
}

} // verus!
