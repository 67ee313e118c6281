//! Binance USD-M futures.
use vstd::prelude::*;

use crate::domain;
use crate::domain::{
    Candle, CandleFinality, CandleView, Channel, KeyView, MarketPayload, PayloadView, Provider,
    SequenceView, SourceSequence, SubscriptionKey, TickerView,
};
use crate::json;
use crate::json::{Json, JsonView, LayoutView};
use crate::providers;
use crate::providers::{
    AdapterError, AdapterErrorView, AdapterSession, CommandView, Complaints, ConnectionTarget,
    EndpointKind, FrameView, Heartbeat, HeartbeatView, OutboundCommand, ParsedFrame,
    ProviderAdapter, SessionView, SubscriptionAction, TargetView, TickerCache,
};
use crate::table::Table;
use crate::text;

verus! {

/// The route for ticker, mark-price, and kline streams.
pub const BINANCE_MARKET_URL: &'static str = "wss://fstream.binance.com/market/ws";

/// Subscription commands use at most eight of Binance's ten inbound messages per second, leaving
/// capacity for protocol ping/pong traffic.
pub const COMMAND_INTERVAL_MS: u64 = 125;

pub const SUBSCRIPTION_ACK_TIMEOUT_MS: u64 = 15_000;

pub const HEARTBEAT_INTERVAL_MS: u64 = 180_000;

pub const STALE_AFTER_MS: u64 = 600_000;

/// Binance closes a connection after a day; rotate five minutes before.
pub const ROTATE_AFTER_MS: u64 = 86_100_000;

pub const MAX_MESSAGE_BYTES: usize = 1_048_576;

pub const MAX_STREAMS_PER_COMMAND: usize = 200;

/// The adapter for Binance USD-M streams.
#[derive(Debug)]
pub struct BinanceAdapter {
    url: String,
}

impl BinanceAdapter {
    /// The URL that the adapter connects to.
    pub closed spec fn url(&self) -> Seq<char> {
        self.url@
    }

    /// An adapter for the official URL.
    pub fn new() -> (adapter: Self)
        ensures
            adapter.url() == BINANCE_MARKET_URL@,
    {
        Self::with_url(BINANCE_MARKET_URL.to_owned())
    }

    /// An adapter for a given URL.
    pub fn with_url(url: String) -> (adapter: Self)
        ensures
            adapter.url() == url@,
    {
        BinanceAdapter { url }
    }

    /// The venue.
    pub fn provider(&self) -> (provider: Provider)
        ensures
            provider == Provider::Binance,
    {
        Provider::Binance
    }

    /// The endpoints that the venue's streams are spread over.
    pub fn endpoints(&self) -> (list: Vec<EndpointKind>)
        ensures
            list@ == seq![EndpointKind::Primary],
    {
        vec![EndpointKind::Primary]
    }

    /// The endpoint of a channel.
    pub fn endpoint_for(&self, channel: Channel) -> (endpoint: EndpointKind)
        ensures
            endpoint == EndpointKind::Primary,
    {
        EndpointKind::Primary
    }

    /// The most subscriptions that the venue takes. The documented stream batch bound is the
    /// tightest known limit, so it is reused as the ceiling.
    pub fn max_subscriptions(&self) -> (limit: usize)
        ensures
            limit == MAX_STREAMS_PER_COMMAND,
    {
        MAX_STREAMS_PER_COMMAND
    }

    /// Where and how to connect.
    ///
    /// # Errors
    ///
    /// Returns [`AdapterError::UnsupportedEndpoint`] for any endpoint but the primary one.
    pub fn connection_target(&self, endpoint: EndpointKind) -> (r: Result<
        ConnectionTarget,
        AdapterError,
    >)
        ensures
            match r {
                Ok(target) => endpoint == EndpointKind::Primary && target@ == (TargetView {
                    url: self.url(),
                    command_interval_ms: COMMAND_INTERVAL_MS,
                    subscription_ack_timeout_ms: SUBSCRIPTION_ACK_TIMEOUT_MS,
                    heartbeat_interval_ms: HEARTBEAT_INTERVAL_MS,
                    stale_after_ms: STALE_AFTER_MS,
                    max_message_bytes: MAX_MESSAGE_BYTES,
                    rotate_after_ms: Some(ROTATE_AFTER_MS),
                }),
                Err(error) => endpoint != EndpointKind::Primary && error@
                    == (AdapterErrorView::UnsupportedEndpoint {
                    provider: Provider::Binance,
                    endpoint,
                }),
            },
    {
        if endpoint != EndpointKind::Primary {
            return Err(
                AdapterError::UnsupportedEndpoint { provider: Provider::Binance, endpoint },
            );
        }
        Ok(
            ConnectionTarget {
                url: self.url.clone(),
                command_interval_ms: COMMAND_INTERVAL_MS,
                subscription_ack_timeout_ms: SUBSCRIPTION_ACK_TIMEOUT_MS,
                heartbeat_interval_ms: HEARTBEAT_INTERVAL_MS,
                stale_after_ms: STALE_AFTER_MS,
                max_message_bytes: MAX_MESSAGE_BYTES,
                rotate_after_ms: Some(ROTATE_AFTER_MS),
            },
        )
    }

    /// A session for a new connection.
    pub fn session(&self, endpoint: EndpointKind, connection_epoch: u128) -> (session:
        BinanceSession)
        ensures
            session@ == providers::fresh(connection_epoch),
    {
        BinanceSession::new(connection_epoch)
    }
}

impl Default for BinanceAdapter {
    /// An adapter for the official URL.
    fn default() -> (adapter: Self)
        ensures
            adapter.url() == BINANCE_MARKET_URL@,
    {
        BinanceAdapter::new()
    }
}

/// One session on a Binance connection.
#[derive(Debug)]
pub struct BinanceSession {
    connection_epoch: u128,
    next_request_id: u64,
    tickers: TickerCache,
}

impl View for BinanceSession {
    type V = SessionView;

    closed spec fn view(&self) -> SessionView {
        SessionView {
            connection_epoch: self.connection_epoch,
            next_request_id: self.next_request_id,
            tickers: providers::cached(self.tickers),
        }
    }
}

// ---------------------------------------------------------------------------------------------
// Commands
// ---------------------------------------------------------------------------------------------

/// The native name of an action.
pub open spec fn method_name(action: SubscriptionAction) -> Seq<char> {
    match action {
        SubscriptionAction::Subscribe => "SUBSCRIBE"@,
        SubscriptionAction::Unsubscribe => "UNSUBSCRIBE"@,
    }
}

/// The command for a batch of streams.
pub open spec fn command(action: SubscriptionAction, batch: Seq<Seq<char>>, id: u64) -> CommandView {
    CommandView {
        request_id: text::digits(id as nat),
        text: json::text_of(
            JsonView::Object(
                seq![
                    ("id"@, json::unsigned_document(id)),
                    ("method"@, JsonView::Text(method_name(action))),
                    ("params"@, providers::text_list(batch)),
                ],
            ),
        ),
        expected_acknowledgements: 1,
    }
}

/// The commands for a run of batches, numbered from a given number on.
pub open spec fn commands(
    action: SubscriptionAction,
    batches: Seq<Seq<Seq<char>>>,
    id: u64,
) -> Seq<CommandView> {
    Seq::new(
        batches.len(),
        |i: int| command(action, batches[i], providers::id_after(id, i as nat)),
    )
}

// ---------------------------------------------------------------------------------------------
// What frames mean
// ---------------------------------------------------------------------------------------------

/// The message of a refused command, without its code.
pub open spec fn refusal_text(value: JsonView) -> Seq<char> {
    match providers::member_or(value, "msg"@, "message"@) {
        Some(JsonView::Text(message)) => message,
        _ => "unknown command error"@,
    }
}

/// The message of a refused command, after its code where it has one.
pub open spec fn refusal(root: JsonView) -> Seq<char> {
    match json::member_signed(root, "code"@) {
        Some(code) => "code "@ + text::integer_text(code as int) + ": "@ + refusal_text(root),
        None => refusal_text(root),
    }
}

/// The meaning of a control frame, or nothing where the frame is none.
pub open spec fn control(root: JsonView) -> Option<Result<FrameView, AdapterErrorView>> {
    if json::member_of(root, "code"@) is Some {
        Some(Err(providers::rejected(Provider::Binance, refusal(root))))
    } else if let Some(error) = json::member_of(root, "error"@) {
        Some(Err(providers::rejected(Provider::Binance, refusal_text(error))))
    } else if let Some(result) = json::member_of(root, "result"@) {
        match response_id(json::member_of(root, "id"@)) {
            Err(message) => Some(Err(providers::invalid_data(Provider::Binance, message))),
            Ok(request_id) => Some(
                Ok(
                    if result is Null {
                        FrameView::Acknowledgement { request_id }
                    } else {
                        FrameView::Ignored
                    },
                ),
            ),
        }
    } else {
        None
    }
}

/// The number or short name of the request that a response belongs to.
pub open spec fn response_id(id: Option<JsonView>) -> Result<Seq<char>, Seq<char>> {
    match id {
        None => Err("command response is missing id"@),
        Some(JsonView::Number(number)) => if number.unsigned is Some {
            Ok(number.text)
        } else {
            Err("command response id must be an unsigned integer or short string"@)
        },
        Some(JsonView::Text(id)) => if id.len() > 0 && text::byte_length(id) <= 36 {
            Ok(id)
        } else {
            Err("command response id must be an unsigned integer or short string"@)
        },
        Some(_) => Err("command response id must be an unsigned integer or short string"@),
    }
}

/// Why the symbol type of a payload is not that of USD-M.
pub open spec fn usdm_problem(value: JsonView) -> Option<Seq<char>> {
    match json::member_unsigned(value, "st"@) {
        None => None,
        Some(kind) => if kind == 2 {
            Some("received a COIN-M payload on the USD-M adapter"@)
        } else if kind != 1 {
            Some("unsupported Binance symbol type "@ + text::digits(kind as nat))
        } else {
            None
        },
    }
}

/// Why the optional symbol type of a payload cannot be read.
pub open spec fn symbol_type_problem(value: JsonView) -> Option<Seq<char>> {
    json::optional_unsigned_problem(value, "st"@)
        .or_next((match json::member_unsigned(value, "st"@) {
            Some(kind) => providers::unless(
                kind <= 255,
                json::mistyped_message("st"@, "an 8-bit unsigned integer"@),
            ),
            None => None,
        }))
}

/// Why the name of a combined stream does not belong to a payload.
pub open spec fn stream_problem(
    stream: Option<Seq<char>>,
    symbol: Seq<char>,
    suffix: Seq<char>,
) -> Option<Seq<char>> {
    match stream {
        None => None,
        Some(name) => {
            let expected = text::lowered(symbol) + text::lowered(suffix);
            providers::unless(
                text::lowered(name) == expected || (suffix == "@markPrice"@ && text::lowered(name)
                    == expected + "@1s"@),
                "combined stream "@ + text::debug_text(name) + " does not match "@ + symbol + " "@
                    + suffix,
            )
        },
    }
}

/// Why an optional price is no decimal. An absent or empty price is none.
pub open spec fn optional_price_problem(
    value: JsonView,
    name: Seq<char>,
    field: Seq<char>,
) -> Option<Seq<char>> {
    if json::text_at(value, name).len() == 0 {
        None
    } else {
        providers::decimal_problem(json::text_at(value, name), field)
    }
}

/// An optional price as it was observed.
pub open spec fn optional_price(value: JsonView, name: Seq<char>, time: u64) -> Option<
    domain::ObservedView,
> {
    if json::text_at(value, name).len() == 0 {
        None
    } else {
        providers::observed(json::text_at(value, name), time)
    }
}

/// Why a document is no ticker message.
pub open spec fn ticker_shape(value: JsonView) -> Option<Seq<char>> {
    providers::prefixed(
        "invalid ticker message: "@,
        json::unsigned_problem(value, "E"@)
            .or_next(json::text_problem(value, "s"@))
            .or_next(json::text_problem(value, "c"@))
            .or_next(json::optional_text_problem(value, "b"@))
            .or_next(json::optional_text_problem(value, "a"@))
            .or_next(json::optional_signed_problem(value, "F"@))
            .or_next(json::optional_signed_problem(value, "L"@))
            .or_next(symbol_type_problem(value)),
    )
}

/// Why a ticker message is refused.
pub open spec fn ticker_problem(value: JsonView, stream: Option<Seq<char>>) -> Option<Seq<char>> {
    let symbol = json::text_at(value, "s"@);
    ticker_shape(value)
        .or_next(usdm_problem(value))
        .or_next(providers::symbol_problem(symbol))
        .or_next(stream_problem(stream, providers::symbol_of(symbol), "@ticker"@))
        .or_next(providers::decimal_problem(json::text_at(value, "c"@), "last price"@))
        .or_next(optional_price_problem(value, "b"@, "bid price"@))
        .or_next(optional_price_problem(value, "a"@, "ask price"@))
}

/// The kept ticker once a ticker message has come: last price, bid and ask are replaced.
pub open spec fn ticker_update(base: TickerView, value: JsonView) -> TickerView {
    let time = json::unsigned_at(value, "E"@);
    TickerView {
        last: providers::observed(json::text_at(value, "c"@), time),
        bid: optional_price(value, "b"@, time),
        ask: optional_price(value, "a"@, time),
        ..base
    }
}

/// The text of an optional signed number.
pub open spec fn number_text(n: Option<i64>) -> Option<Seq<char>> {
    match n {
        Some(n) => Some(text::integer_text(n as int)),
        None => None,
    }
}

/// The trade numbers of a ticker message.
pub open spec fn trade_range(value: JsonView) -> Option<SequenceView> {
    let first = json::member_signed(value, "F"@);
    let last = json::member_signed(value, "L"@);
    if first is None && last is None {
        None
    } else {
        Some(SequenceView { first: number_text(first), last: number_text(last), previous: None })
    }
}

/// What a ticker message does and means.
pub open spec fn ticker_frame(
    state: SessionView,
    value: JsonView,
    received_at_ms: u64,
    stream: Option<Seq<char>>,
) -> (SessionView, Result<FrameView, Seq<char>>) {
    if let Some(message) = ticker_problem(value, stream) {
        (state, Err(message))
    } else {
        let symbol = providers::symbol_of(json::text_at(value, "s"@));
        let ticker = ticker_update(providers::known(state.tickers, symbol), value);
        (
            providers::keeping(state, symbol, ticker),
            Ok(
                FrameView::Events(
                    seq![
                        providers::event_view(
                            state.connection_epoch,
                            Provider::Binance,
                            symbol,
                            Some(json::unsigned_at(value, "E"@)),
                            received_at_ms,
                            trade_range(value),
                            PayloadView::Ticker(ticker),
                        ),
                    ],
                ),
            ),
        )
    }
}

/// Why a document is no mark-price message.
pub open spec fn mark_shape(value: JsonView) -> Option<Seq<char>> {
    providers::prefixed(
        "invalid mark-price message: "@,
        json::unsigned_problem(value, "E"@)
            .or_next(json::text_problem(value, "s"@))
            .or_next(json::text_problem(value, "p"@))
            .or_next(json::text_problem(value, "i"@))
            .or_next(json::text_problem(value, "r"@))
            .or_next(json::unsigned_problem(value, "T"@))
            .or_next(symbol_type_problem(value)),
    )
}

/// Why a mark-price message is refused.
pub open spec fn mark_problem(value: JsonView, stream: Option<Seq<char>>) -> Option<Seq<char>> {
    let symbol = json::text_at(value, "s"@);
    mark_shape(value)
        .or_next(usdm_problem(value))
        .or_next(providers::symbol_problem(symbol))
        .or_next(stream_problem(stream, providers::symbol_of(symbol), "@markPrice"@))
        .or_next(providers::decimal_problem(json::text_at(value, "p"@), "mark price"@))
        .or_next(providers::decimal_problem(json::text_at(value, "i"@), "index price"@))
        .or_next(providers::decimal_problem(json::text_at(value, "r"@), "funding rate"@))
}

/// The kept ticker once a mark-price message has come: mark, index and funding are replaced.
pub open spec fn mark_update(base: TickerView, value: JsonView) -> TickerView {
    let time = json::unsigned_at(value, "E"@);
    TickerView {
        mark: providers::observed(json::text_at(value, "p"@), time),
        index: providers::observed(json::text_at(value, "i"@), time),
        funding_rate: providers::observed(json::text_at(value, "r"@), time),
        next_funding_time_ms: Some(json::unsigned_at(value, "T"@)),
        ..base
    }
}

/// What a mark-price message does and means.
pub open spec fn mark_frame(
    state: SessionView,
    value: JsonView,
    received_at_ms: u64,
    stream: Option<Seq<char>>,
) -> (SessionView, Result<FrameView, Seq<char>>) {
    if let Some(message) = mark_problem(value, stream) {
        (state, Err(message))
    } else {
        let symbol = providers::symbol_of(json::text_at(value, "s"@));
        let ticker = mark_update(providers::known(state.tickers, symbol), value);
        (
            providers::keeping(state, symbol, ticker),
            Ok(
                FrameView::Events(
                    seq![
                        providers::event_view(
                            state.connection_epoch,
                            Provider::Binance,
                            symbol,
                            Some(json::unsigned_at(value, "E"@)),
                            received_at_ms,
                            None,
                            PayloadView::Ticker(ticker),
                        ),
                    ],
                ),
            ),
        )
    }
}

/// How a kline message is laid out.
pub open spec fn kline_layout() -> LayoutView {
    json::with_field(
        json::flat("E,s,k,st"@, 4),
        "k"@,
        json::flat("t,T,s,i,f,L,o,c,h,l,v,q,x"@, 13),
    )
}

/// Why a document is no kline.
pub open spec fn kline_shape(kline: JsonView) -> Option<Seq<char>> {
    json::unsigned_problem(kline, "t"@)
        .or_next(json::unsigned_problem(kline, "T"@))
        .or_next(json::text_problem(kline, "s"@))
        .or_next(json::text_problem(kline, "i"@))
        .or_next(json::signed_problem(kline, "f"@))
        .or_next(json::signed_problem(kline, "L"@))
        .or_next(json::text_problem(kline, "o"@))
        .or_next(json::text_problem(kline, "c"@))
        .or_next(json::text_problem(kline, "h"@))
        .or_next(json::text_problem(kline, "l"@))
        .or_next(json::text_problem(kline, "v"@))
        .or_next(json::text_problem(kline, "q"@))
        .or_next(json::flag_problem(kline, "x"@))
}

/// Why a document is no kline message.
pub open spec fn kline_envelope_shape(value: JsonView) -> Option<Seq<char>> {
    providers::prefixed(
        "invalid kline message: "@,
        json::unsigned_problem(value, "E"@)
            .or_next(json::text_problem(value, "s"@))
            .or_next((match json::member_of(value, "k"@) {
                None => Some(json::missing_message("k"@)),
                Some(kline) => kline_shape(kline)
                    .or_next(symbol_type_problem(value)),
            })),
    )
}

/// Why a kline message is refused.
pub open spec fn kline_problem(value: JsonView, stream: Option<Seq<char>>) -> Option<Seq<char>> {
    let kline = json::value_at(value, "k"@);
    let outer = providers::symbol_of(json::text_at(value, "s"@));
    let symbol = providers::symbol_of(json::text_at(kline, "s"@));
    let interval = json::text_at(kline, "i"@);
    kline_envelope_shape(value)
        .or_next(usdm_problem(value))
        .or_next(providers::symbol_problem(json::text_at(value, "s"@)))
        .or_next(providers::symbol_problem(json::text_at(kline, "s"@)))
        .or_next(providers::unless(
            outer == symbol,
            "outer kline symbol "@ + outer + " does not match inner symbol "@
                + symbol,
        ))
        .or_next(stream_problem(stream, symbol, "@kline_1m"@))
        .or_next(providers::unless(
            interval == "1m"@,
            "expected 1m kline interval, got "@ + interval,
        ))
        .or_next(providers::unless(
            json::unsigned_at(kline, "T"@) < u64::MAX,
            "kline close time cannot be normalized to exclusive"@,
        ))
        .or_next(kline_prices_problem(kline))
}

/// Why the prices and volumes of a kline are no decimals.
pub open spec fn kline_prices_problem(kline: JsonView) -> Option<Seq<char>> {
    providers::decimal_problem(json::text_at(kline, "o"@), "open"@)
        .or_next(providers::decimal_problem(json::text_at(kline, "h"@), "high"@))
        .or_next(providers::decimal_problem(json::text_at(kline, "l"@), "low"@))
        .or_next(providers::decimal_problem(json::text_at(kline, "c"@), "close"@))
        .or_next(providers::decimal_problem(json::text_at(kline, "v"@), "base volume"@))
        .or_next(providers::decimal_problem(json::text_at(kline, "q"@), "quote volume"@))
}

/// The candle of a kline. Its close time is inclusive, so the candle ends one millisecond later.
pub open spec fn kline_candle(kline: JsonView) -> CandleView {
    CandleView {
        interval: "1m"@,
        start_time_ms: json::unsigned_at(kline, "t"@),
        end_time_ms: (json::unsigned_at(kline, "T"@) + 1) as u64,
        open: json::text_at(kline, "o"@),
        high: json::text_at(kline, "h"@),
        low: json::text_at(kline, "l"@),
        close: json::text_at(kline, "c"@),
        base_volume: Some(json::text_at(kline, "v"@)),
        quote_volume: Some(json::text_at(kline, "q"@)),
        contract_volume: None,
        finality: if json::flag_at(kline, "x"@) {
            CandleFinality::Closed
        } else {
            CandleFinality::Open
        },
        data_quality: Seq::empty(),
    }
}

/// What a kline message means.
pub open spec fn kline_frame(
    state: SessionView,
    value: JsonView,
    received_at_ms: u64,
    stream: Option<Seq<char>>,
) -> Result<FrameView, Seq<char>> {
    if let Some(message) = kline_problem(value, stream) {
        Err(message)
    } else {
        let kline = json::value_at(value, "k"@);
        Ok(
            FrameView::Events(
                seq![
                    providers::event_view(
                        state.connection_epoch,
                        Provider::Binance,
                        providers::symbol_of(json::text_at(kline, "s"@)),
                        Some(json::unsigned_at(value, "E"@)),
                        received_at_ms,
                        Some(
                            SequenceView {
                                first: Some(
                                    text::integer_text(json::signed_at(kline, "f"@) as int),
                                ),
                                last: Some(
                                    text::integer_text(json::signed_at(kline, "L"@) as int),
                                ),
                                previous: None,
                            },
                        ),
                        PayloadView::Candle(kline_candle(kline)),
                    ),
                ],
            ),
        )
    }
}

/// What an event payload does and means, by its event type.
pub open spec fn event_frame(
    state: SessionView,
    value: JsonView,
    received_at_ms: u64,
    stream: Option<Seq<char>>,
) -> (SessionView, Result<FrameView, Seq<char>>) {
    match json::member_of(value, "e"@) {
        None => (state, Ok(FrameView::Ignored)),
        Some(JsonView::Text(kind)) => if kind == "24hrTicker"@ {
            ticker_frame(state, value, received_at_ms, stream)
        } else if kind == "markPriceUpdate"@ {
            mark_frame(state, value, received_at_ms, stream)
        } else if kind == "kline"@ {
            (
                state,
                kline_frame(
                    state,
                    json::arranged(value, kline_layout()),
                    received_at_ms,
                    stream,
                ),
            )
        } else {
            (state, Ok(FrameView::Ignored))
        },
        Some(_) => (state, Err("event field e must be a string"@)),
    }
}

/// What a document does and means.
pub open spec fn document_frame(state: SessionView, root: JsonView, received_at_ms: u64) -> (
    SessionView,
    Result<FrameView, AdapterErrorView>,
) {
    if !(root is Object) {
        providers::labelled(
            Provider::Binance,
            (state, Err("top-level payload must be an object"@)),
        )
    } else if let Some(outcome) = control(root) {
        (state, outcome)
    } else {
        providers::labelled(
            Provider::Binance,
            match json::member_of(root, "stream"@) {
                None => event_frame(state, root, received_at_ms, None),
                Some(JsonView::Text(stream)) => match json::member_of(root, "data"@) {
                    None => (state, Err("combined stream payload is missing data"@)),
                    Some(data) => event_frame(state, data, received_at_ms, Some(stream)),
                },
                Some(_) => (state, Err("combined stream name must be a string"@)),
            },
        )
    }
}

/// What a text frame does and means.
pub open spec fn text_frame(state: SessionView, text: Seq<char>, received_at_ms: u64) -> (
    SessionView,
    Result<FrameView, AdapterErrorView>,
) {
    match json::document_of(text) {
        Err(message) => providers::labelled(
            Provider::Binance,
            (state, Err("invalid JSON: "@ + message)),
        ),
        Ok(root) => document_frame(state, root, received_at_ms),
    }
}

/// What a subscription change makes of a session and which commands it gives.
pub open spec fn subscription_outcome(
    state: SessionView,
    action: SubscriptionAction,
    keys: Seq<domain::KeyView>,
) -> (SessionView, Result<Seq<CommandView>, AdapterErrorView>) {
    match providers::foreign_problem(Provider::Binance, keys) {
        Some(error) => (state, Err(error)),
        None => {
            let batches = providers::chunks(
                providers::gathered(keys),
                MAX_STREAMS_PER_COMMAND as nat,
            );
            (
                SessionView {
                    next_request_id: providers::id_after(state.next_request_id, batches.len()),
                    tickers: providers::tickers_after(state.tickers, action, keys),
                    ..state
                },
                Ok(commands(action, batches, state.next_request_id)),
            )
        },
    }
}

/// Every update that a frame of Binance gives names the venue, the connection it came over and when
/// it was received; a frame changes no connection.
pub proof fn law_updates_are_stamped(state: SessionView, text: Seq<char>, received_at_ms: u64)
    ensures
        text_frame(state, text, received_at_ms).0.connection_epoch == state.connection_epoch,
        text_frame(state, text, received_at_ms).1 matches Ok(frame) ==> {
            &&& providers::has_stamps(
                frame,
                Provider::Binance,
                state.connection_epoch,
                received_at_ms,
            )
        },
{
}

/// A ticker message touches neither mark nor index price nor funding, and a mark-price message
/// neither last nor best prices: no price stands in for another.
pub proof fn law_no_price_stands_in_for_another(base: TickerView, value: JsonView)
    ensures
        ticker_update(base, value).mark == base.mark,
        ticker_update(base, value).index == base.index,
        ticker_update(base, value).funding_rate == base.funding_rate,
        ticker_update(base, value).next_funding_time_ms == base.next_funding_time_ms,
        mark_update(base, value).last == base.last,
        mark_update(base, value).bid == base.bid,
        mark_update(base, value).ask == base.ask,
{
}

// ---------------------------------------------------------------------------------------------
// The session
// ---------------------------------------------------------------------------------------------

/// The command for a batch of streams.
fn build_command(action: SubscriptionAction, batch: &Vec<String>, id: u64) -> (made:
    OutboundCommand)
    ensures
        made@ == command(action, providers::text_views(batch@), id),
{
    let method = match action {
        SubscriptionAction::Subscribe => "SUBSCRIBE",
        SubscriptionAction::Unsubscribe => "UNSUBSCRIBE",
    };
    let document = providers::object3(
        providers::member("id", Json::unsigned(id)),
        providers::member("method", Json::Text(method.to_owned())),
        providers::member("params", providers::list_document(batch.as_slice())),
    );
    OutboundCommand {
        request_id: text::unsigned_text(id),
        text: json::write(&document),
        expected_acknowledgements: 1,
    }
}

/// The message of a refused command, without its code.
fn read_refusal_text<'a>(value: &'a Json) -> (message: &'a str)
    ensures
        message@ == refusal_text(value@),
{
    match providers::first_member(value, "msg", "message") {
        Some(found) => match found.as_text() {
            Some(message) => message,
            None => "unknown command error",
        },
        None => "unknown command error",
    }
}

/// The message of a refused command, after its code where it has one.
fn binance_error_message(root: &Json) -> (message: String)
    ensures
        message@ == refusal(root@),
{
    let message = read_refusal_text(root);
    match json::find_signed(root, "code") {
        Some(code) => text::cat4("code ", text::signed_text(code).as_str(), ": ", message),
        None => message.to_owned(),
    }
}

/// The number or short name of the request that a response belongs to.
fn read_response_id(id: Option<&Json>) -> (r: Result<String, &'static str>)
    ensures
        match r {
            Ok(request_id) => response_id(
                match id {
                    Some(value) => Some(value@),
                    None => None,
                },
            ) == Ok::<Seq<char>, Seq<char>>(request_id@),
            Err(message) => response_id(
                match id {
                    Some(value) => Some(value@),
                    None => None,
                },
            ) == Err::<Seq<char>, Seq<char>>(message@),
        },
{
    match id {
        None => Err("command response is missing id"),
        Some(value) => {
            match value {
                Json::Number(number) => {
                    if number.unsigned.is_some() {
                        return Ok(number.text.clone());
                    }
                },
                Json::Text(name) => {
                    if !name.as_str().is_empty() && text::length(name.as_str()) <= 36 {
                        return Ok(name.clone());
                    }
                },
                _ => {},
            }
            Err("command response id must be an unsigned integer or short string")
        },
    }
}

/// The meaning of a control frame, or nothing where the frame is none.
fn parse_control(root: &Json) -> (r: Option<Result<ParsedFrame, AdapterError>>)
    ensures
        match r {
            None => control(root@) is None,
            Some(Ok(frame)) => control(root@) == Some(Ok::<FrameView, AdapterErrorView>(frame@)),
            Some(Err(error)) => control(root@) == Some(Err::<FrameView, AdapterErrorView>(error@)),
        },
{
    if root.member("code").is_some() {
        return Some(
            Err(providers::command_rejected(Provider::Binance, binance_error_message(root))),
        );
    }
    if let Some(error) = root.member("error") {
        return Some(
            Err(
                providers::command_rejected(
                    Provider::Binance,
                    read_refusal_text(error).to_owned(),
                ),
            ),
        );
    }
    if let Some(result) = root.member("result") {
        return Some(
            match read_response_id(root.member("id")) {
                Err(message) => Err(
                    providers::invalid_payload(Provider::Binance, message.to_owned()),
                ),
                Ok(request_id) => if result.is_null() {
                    Ok(ParsedFrame::Acknowledgement { request_id })
                } else {
                    Ok(ParsedFrame::Ignored)
                },
            },
        );
    }
    None
}

/// Read the optional symbol type of a payload.
fn read_symbol_type(value: &Json) -> (r: Result<Option<u64>, String>)
    ensures
        match r {
            Ok(kind) => {
                &&& symbol_type_problem(value@) is None
                &&& kind == json::member_unsigned(value@, "st"@)
            },
            Err(message) => symbol_type_problem(value@) == Some(message@),
        },
{
    let kind = json::may_unsigned(value, "st")?;
    match kind {
        Some(number) => if number <= 255 {
            Ok(kind)
        } else {
            Err(json::mistyped("st", "an 8-bit unsigned integer"))
        },
        None => Ok(kind),
    }
}

/// Check that a payload is of USD-M.
fn ensure_usdm(value: &Json, symbol_type: Option<u64>) -> (r: Result<(), String>)
    requires
        symbol_type == json::member_unsigned(value@, "st"@),
    ensures
        match r {
            Ok(_) => usdm_problem(value@) is None,
            Err(message) => usdm_problem(value@) == Some(message@),
        },
{
    match symbol_type {
        Some(2) => Err("received a COIN-M payload on the USD-M adapter".to_owned()),
        Some(kind) => if kind != 1 {
            Err(
                text::cat2(
                    "unsupported Binance symbol type ",
                    text::unsigned_text(kind).as_str(),
                ),
            )
        } else {
            Ok(())
        },
        None => Ok(()),
    }
}

/// Check that the name of a combined stream belongs to a payload.
fn validate_stream_symbol(stream: Option<&str>, symbol: &str, suffix: &str) -> (r: Result<
    (),
    String,
>)
    ensures
        match r {
            Ok(_) => stream_problem(providers::name_view(stream), symbol@, suffix@) is None,
            Err(message) => stream_problem(providers::name_view(stream), symbol@, suffix@) == Some(
                message@,
            ),
        },
{
    let name = match stream {
        Some(name) => name,
        None => {
            return Ok(());
        },
    };
    let lower = text::to_lower(name);
    let expected = text::cat2(
        text::to_lower(symbol).as_str(),
        text::to_lower(suffix).as_str(),
    );
    if text::same(lower.as_str(), expected.as_str()) {
        return Ok(());
    }
    if text::same(suffix, "@markPrice") && text::same(
        lower.as_str(),
        text::cat2(expected.as_str(), "@1s").as_str(),
    ) {
        return Ok(());
    }
    let head = text::cat4(
        "combined stream ",
        text::quoted(name).as_str(),
        " does not match ",
        symbol,
    );
    Err(text::cat3(head.as_str(), " ", suffix))
}

/// Read an optional price. An absent or empty price is none.
fn read_optional_price(value: &Json, raw: Option<&str>, Ghost(name): Ghost<Seq<char>>, time: u64,
    field: &str) -> (r: Result<Option<domain::ObservedDecimal>, String>)
    requires
        providers::name_view(raw) == json::member_text(value@, name),
    ensures
        match r {
            Ok(price) => {
                &&& optional_price_problem(value@, name, field@) is None
                &&& domain::observed_view(price) == optional_price(value@, name, time)
            },
            Err(message) => optional_price_problem(value@, name, field@) == Some(message@),
        },
{
    match raw {
        Some(text) => if text.is_empty() {
            Ok(None)
        } else {
            Ok(Some(providers::read_observed(text, time, field)?))
        },
        None => Ok(None),
    }
}

/// The fields of a ticker message.
struct TickerMessage<'a> {
    time: u64,
    symbol: &'a str,
    last: &'a str,
    bid: Option<&'a str>,
    ask: Option<&'a str>,
    first_trade: Option<i64>,
    last_trade: Option<i64>,
    symbol_type: Option<u64>,
}

/// Read the fields of a ticker message.
fn read_ticker<'a>(value: &'a Json) -> (r: Result<TickerMessage<'a>, String>)
    ensures
        match r {
            Ok(message) => {
                &&& ticker_shape(value@) is None
                &&& message.time == json::unsigned_at(value@, "E"@)
                &&& message.symbol@ == json::text_at(value@, "s"@)
                &&& message.last@ == json::text_at(value@, "c"@)
                &&& providers::name_view(message.bid) == json::member_text(value@, "b"@)
                &&& providers::name_view(message.ask) == json::member_text(value@, "a"@)
                &&& message.first_trade == json::member_signed(value@, "F"@)
                &&& message.last_trade == json::member_signed(value@, "L"@)
                &&& message.symbol_type == json::member_unsigned(value@, "st"@)
            },
            Err(complaint) => providers::prefixed(
                "invalid ticker message: "@,
                Some(complaint@),
            ) == ticker_shape(value@),
        },
{
    Ok(
        TickerMessage {
            time: json::need_unsigned(value, "E")?,
            symbol: json::need_text(value, "s")?,
            last: json::need_text(value, "c")?,
            bid: json::may_text(value, "b")?,
            ask: json::may_text(value, "a")?,
            first_trade: json::may_signed(value, "F")?,
            last_trade: json::may_signed(value, "L")?,
            symbol_type: read_symbol_type(value)?,
        },
    )
}

/// The text of an optional signed number.
fn optional_number_text(n: Option<i64>) -> (text: Option<String>)
    ensures
        domain::text_view(text) == number_text(n),
{
    match n {
        Some(n) => Some(text::signed_text(n)),
        None => None,
    }
}

/// The fields of a mark-price message.
struct MarkMessage<'a> {
    time: u64,
    symbol: &'a str,
    mark: &'a str,
    index: &'a str,
    funding_rate: &'a str,
    next_funding_time: u64,
    symbol_type: Option<u64>,
}

/// Read the fields of a mark-price message.
fn read_mark<'a>(value: &'a Json) -> (r: Result<MarkMessage<'a>, String>)
    ensures
        match r {
            Ok(message) => {
                &&& mark_shape(value@) is None
                &&& message.time == json::unsigned_at(value@, "E"@)
                &&& message.symbol@ == json::text_at(value@, "s"@)
                &&& message.mark@ == json::text_at(value@, "p"@)
                &&& message.index@ == json::text_at(value@, "i"@)
                &&& message.funding_rate@ == json::text_at(value@, "r"@)
                &&& message.next_funding_time == json::unsigned_at(value@, "T"@)
                &&& message.symbol_type == json::member_unsigned(value@, "st"@)
            },
            Err(complaint) => providers::prefixed(
                "invalid mark-price message: "@,
                Some(complaint@),
            ) == mark_shape(value@),
        },
{
    Ok(
        MarkMessage {
            time: json::need_unsigned(value, "E")?,
            symbol: json::need_text(value, "s")?,
            mark: json::need_text(value, "p")?,
            index: json::need_text(value, "i")?,
            funding_rate: json::need_text(value, "r")?,
            next_funding_time: json::need_unsigned(value, "T")?,
            symbol_type: read_symbol_type(value)?,
        },
    )
}

/// The fields of a kline.
struct Kline<'a> {
    start_time: u64,
    close_time: u64,
    symbol: &'a str,
    interval: &'a str,
    first_trade: i64,
    last_trade: i64,
    open: &'a str,
    close: &'a str,
    high: &'a str,
    low: &'a str,
    base_volume: &'a str,
    quote_volume: &'a str,
    closed: bool,
}

impl<'a> Kline<'a> {
    /// Whether these are the fields of a document.
    spec fn of(&self, kline: JsonView) -> bool {
        &&& self.start_time == json::unsigned_at(kline, "t"@)
        &&& self.close_time == json::unsigned_at(kline, "T"@)
        &&& self.symbol@ == json::text_at(kline, "s"@)
        &&& self.interval@ == json::text_at(kline, "i"@)
        &&& self.first_trade == json::signed_at(kline, "f"@)
        &&& self.last_trade == json::signed_at(kline, "L"@)
        &&& self.open@ == json::text_at(kline, "o"@)
        &&& self.close@ == json::text_at(kline, "c"@)
        &&& self.high@ == json::text_at(kline, "h"@)
        &&& self.low@ == json::text_at(kline, "l"@)
        &&& self.base_volume@ == json::text_at(kline, "v"@)
        &&& self.quote_volume@ == json::text_at(kline, "q"@)
        &&& self.closed == json::flag_at(kline, "x"@)
    }
}

/// Read the fields of a kline.
fn read_kline<'a>(kline: &'a Json) -> (r: Result<Kline<'a>, String>)
    ensures
        match r {
            Ok(fields) => kline_shape(kline@) is None && fields.of(kline@),
            Err(complaint) => kline_shape(kline@) == Some(complaint@),
        },
{
    Ok(
        Kline {
            start_time: json::need_unsigned(kline, "t")?,
            close_time: json::need_unsigned(kline, "T")?,
            symbol: json::need_text(kline, "s")?,
            interval: json::need_text(kline, "i")?,
            first_trade: json::need_signed(kline, "f")?,
            last_trade: json::need_signed(kline, "L")?,
            open: json::need_text(kline, "o")?,
            close: json::need_text(kline, "c")?,
            high: json::need_text(kline, "h")?,
            low: json::need_text(kline, "l")?,
            base_volume: json::need_text(kline, "v")?,
            quote_volume: json::need_text(kline, "q")?,
            closed: json::need_flag(kline, "x")?,
        },
    )
}

/// The fields of a kline message.
struct KlineMessage<'a> {
    time: u64,
    symbol: &'a str,
    kline: Kline<'a>,
    symbol_type: Option<u64>,
}

/// Read the fields of a kline message.
fn read_kline_envelope<'a>(value: &'a Json) -> (r: Result<KlineMessage<'a>, String>)
    ensures
        match r {
            Ok(message) => {
                &&& kline_envelope_shape(value@) is None
                &&& message.time == json::unsigned_at(value@, "E"@)
                &&& message.symbol@ == json::text_at(value@, "s"@)
                &&& message.kline.of(json::value_at(value@, "k"@))
                &&& message.symbol_type == json::member_unsigned(value@, "st"@)
            },
            Err(complaint) => providers::prefixed(
                "invalid kline message: "@,
                Some(complaint@),
            ) == kline_envelope_shape(value@),
        },
{
    let time = json::need_unsigned(value, "E")?;
    let symbol = json::need_text(value, "s")?;
    let kline = match value.member("k") {
        Some(kline) => read_kline(kline)?,
        None => {
            return Err(json::missing("k"));
        },
    };
    let symbol_type = read_symbol_type(value)?;
    Ok(KlineMessage { time, symbol, kline, symbol_type })
}

/// The candle of a kline.
fn build_candle(kline: &Kline, Ghost(document): Ghost<JsonView>) -> (r: Result<Candle, String>)
    requires
        kline.of(document),
        kline.close_time < u64::MAX,
    ensures
        match r {
            Ok(candle) => {
                &&& kline_prices_problem(document) is None
                &&& candle@ == kline_candle(document)
            },
            Err(message) => kline_prices_problem(document) == Some(message@),
        },
{
    let open = providers::read_decimal(kline.open, "open")?;
    let high = providers::read_decimal(kline.high, "high")?;
    let low = providers::read_decimal(kline.low, "low")?;
    let close = providers::read_decimal(kline.close, "close")?;
    let base_volume = providers::read_decimal(kline.base_volume, "base volume")?;
    let quote_volume = providers::read_decimal(kline.quote_volume, "quote volume")?;
    let candle = Candle {
        interval: "1m".to_owned(),
        start_time_ms: kline.start_time,
        end_time_ms: kline.close_time + 1,
        open,
        high,
        low,
        close,
        base_volume: Some(base_volume),
        quote_volume: Some(quote_volume),
        contract_volume: None,
        finality: if kline.closed {
            CandleFinality::Closed
        } else {
            CandleFinality::Open
        },
        data_quality: Vec::new(),
    };
    proof {
        assert(candle.data_quality@ =~= Seq::empty());
    }
    Ok(candle)
}

impl BinanceSession {
    /// A session for a new connection.
    pub fn new(connection_epoch: u128) -> (session: Self)
        ensures
            session@ == providers::fresh(connection_epoch),
    {
        let session = BinanceSession { connection_epoch, next_request_id: 1, tickers: Table::new() };
        proof {
            assert(providers::cached(session.tickers) =~= Map::empty());
        }
        session
    }

    /// The commands for a list of streams.
    fn command_messages(&mut self, action: SubscriptionAction, streams: Vec<String>) -> (list: Vec<
        OutboundCommand,
    >)
        ensures
            ({
                let batches = providers::chunks(
                    providers::text_views(streams@),
                    MAX_STREAMS_PER_COMMAND as nat,
                );
                &&& providers::command_views(list@) == commands(
                    action,
                    batches,
                    old(self)@.next_request_id,
                )
                &&& final(self)@ == (SessionView {
                    next_request_id: providers::id_after(
                        old(self)@.next_request_id,
                        batches.len(),
                    ),
                    ..old(self)@
                })
            }),
    {
        proof {
            providers::lemma_text_chunks(streams@, MAX_STREAMS_PER_COMMAND as nat);
        }
        let ghost batches = providers::chunks(
            providers::text_views(streams@),
            MAX_STREAMS_PER_COMMAND as nat,
        );
        let parts = providers::cut(streams, MAX_STREAMS_PER_COMMAND);
        let ghost start = self@;
        let mut list: Vec<OutboundCommand> = Vec::new();
        let mut i: usize = 0;
        while i < parts.len()
            invariant
                i <= parts@.len(),
                parts@.len() == batches.len(),
                forall|k: int|
                    0 <= k < parts@.len() ==> #[trigger] batches[k] == providers::text_views(
                        parts@[k]@,
                    ),
                list@.len() == i,
                forall|k: int|
                    0 <= k < i ==> (#[trigger] list@[k])@ == command(
                        action,
                        batches[k],
                        providers::id_after(start.next_request_id, k as nat),
                    ),
                self@ == (SessionView {
                    next_request_id: providers::id_after(start.next_request_id, i as nat),
                    ..start
                }),
            decreases parts.len() - i,
        {
            let id = providers::take_id(&mut self.next_request_id);
            proof {
                assert(batches[i as int] == providers::text_views(parts@[i as int]@));
            }
            list.push(build_command(action, &parts[i], id));
            i += 1;
        }
        proof {
            assert(providers::command_views(list@) =~= commands(
                action,
                batches,
                start.next_request_id,
            ));
        }
        list
    }

    /// Take in a ticker message.
    fn parse_ticker(&mut self, value: &Json, received_at_ms: u64, stream: Option<&str>) -> (r:
        Result<ParsedFrame, String>)
        ensures
            providers::agrees(
                final(self)@,
                r,
                ticker_frame(old(self)@, value@, received_at_ms, providers::name_view(stream)),
            ),
    {
        let update = match read_ticker(value) {
            Ok(update) => update,
            Err(complaint) => {
                return Err(providers::complain("invalid ticker message: ", complaint));
            },
        };
        ensure_usdm(value, update.symbol_type)?;
        let symbol = providers::read_symbol(update.symbol)?;
        validate_stream_symbol(stream, symbol.as_str(), "@ticker")?;
        let mut ticker = providers::recall(&self.tickers, &symbol);
        ticker.last = Some(providers::read_observed(update.last, update.time, "last price")?);
        ticker.bid = read_optional_price(value, update.bid, Ghost("b"@), update.time, "bid price")?;
        ticker.ask = read_optional_price(value, update.ask, Ghost("a"@), update.time, "ask price")?;
        providers::remember(&mut self.tickers, &symbol, &ticker);
        let source_sequence = if update.first_trade.is_none() && update.last_trade.is_none() {
            None
        } else {
            Some(
                SourceSequence {
                    first: optional_number_text(update.first_trade),
                    last: optional_number_text(update.last_trade),
                    previous: None,
                },
            )
        };
        Ok(
            providers::one_event(
                providers::make_event(
                    self.connection_epoch,
                    Provider::Binance,
                    symbol,
                    Some(update.time),
                    received_at_ms,
                    source_sequence,
                    MarketPayload::Ticker(ticker),
                ),
            ),
        )
    }

    /// Take in a mark-price message.
    fn parse_mark_price(&mut self, value: &Json, received_at_ms: u64, stream: Option<&str>) -> (r:
        Result<ParsedFrame, String>)
        ensures
            providers::agrees(
                final(self)@,
                r,
                mark_frame(old(self)@, value@, received_at_ms, providers::name_view(stream)),
            ),
    {
        let update = match read_mark(value) {
            Ok(update) => update,
            Err(complaint) => {
                return Err(providers::complain("invalid mark-price message: ", complaint));
            },
        };
        ensure_usdm(value, update.symbol_type)?;
        let symbol = providers::read_symbol(update.symbol)?;
        validate_stream_symbol(stream, symbol.as_str(), "@markPrice")?;
        let mut ticker = providers::recall(&self.tickers, &symbol);
        ticker.mark = Some(providers::read_observed(update.mark, update.time, "mark price")?);
        ticker.index = Some(providers::read_observed(update.index, update.time, "index price")?);
        ticker.funding_rate =
        Some(providers::read_observed(update.funding_rate, update.time, "funding rate")?);
        ticker.next_funding_time_ms = Some(update.next_funding_time);
        providers::remember(&mut self.tickers, &symbol, &ticker);
        Ok(
            providers::one_event(
                providers::make_event(
                    self.connection_epoch,
                    Provider::Binance,
                    symbol,
                    Some(update.time),
                    received_at_ms,
                    None,
                    MarketPayload::Ticker(ticker),
                ),
            ),
        )
    }

    /// Take in a kline message.
    fn parse_kline(&self, value: &Json, received_at_ms: u64, stream: Option<&str>) -> (r: Result<
        ParsedFrame,
        String,
    >)
        ensures
            providers::agrees(
                self@,
                r,
                (self@, kline_frame(self@, value@, received_at_ms, providers::name_view(stream))),
            ),
    {
        let update = match read_kline_envelope(value) {
            Ok(update) => update,
            Err(complaint) => {
                return Err(providers::complain("invalid kline message: ", complaint));
            },
        };
        ensure_usdm(value, update.symbol_type)?;
        let outer = providers::read_symbol(update.symbol)?;
        let symbol = providers::read_symbol(update.kline.symbol)?;
        if !text::same(outer.as_str(), symbol.as_str()) {
            return Err(
                text::cat4(
                    "outer kline symbol ",
                    outer.as_str(),
                    " does not match inner symbol ",
                    symbol.as_str(),
                ),
            );
        }
        validate_stream_symbol(stream, symbol.as_str(), "@kline_1m")?;
        if !text::same(update.kline.interval, "1m") {
            return Err(text::cat2("expected 1m kline interval, got ", update.kline.interval));
        }
        if update.kline.close_time == u64::MAX {
            return Err("kline close time cannot be normalized to exclusive".to_owned());
        }
        let candle = build_candle(&update.kline, Ghost(json::value_at(value@, "k"@)))?;
        let source_sequence = SourceSequence {
            first: Some(text::signed_text(update.kline.first_trade)),
            last: Some(text::signed_text(update.kline.last_trade)),
            previous: None,
        };
        Ok(
            providers::one_event(
                providers::make_event(
                    self.connection_epoch,
                    Provider::Binance,
                    symbol,
                    Some(update.time),
                    received_at_ms,
                    Some(source_sequence),
                    MarketPayload::Candle(candle),
                ),
            ),
        )
    }

    /// Take in an event payload.
    fn parse_event(&mut self, value: &Json, received_at_ms: u64, stream: Option<&str>) -> (r:
        Result<ParsedFrame, String>)
        ensures
            providers::agrees(
                final(self)@,
                r,
                event_frame(old(self)@, value@, received_at_ms, providers::name_view(stream)),
            ),
    {
        let kind = match value.member("e") {
            Some(field) => match field.as_text() {
                Some(kind) => kind,
                None => {
                    return Err("event field e must be a string".to_owned());
                },
            },
            None => {
                return Ok(ParsedFrame::Ignored);
            },
        };
        if text::same(kind, "24hrTicker") {
            self.parse_ticker(value, received_at_ms, stream)
        } else if text::same(kind, "markPriceUpdate") {
            self.parse_mark_price(value, received_at_ms, stream)
        } else if text::same(kind, "kline") {
            let layout = json::nest(
                json::flat_record("E,s,k,st", 4),
                "k",
                json::flat_record("t,T,s,i,f,L,o,c,h,l,v,q,x", 13),
            );
            let message = json::arrange(value, &layout);
            self.parse_kline(&message, received_at_ms, stream)
        } else {
            Ok(ParsedFrame::Ignored)
        }
    }

    /// Take in a document.
    ///
    /// # Errors
    ///
    /// Returns an error when the document is no valid frame or the provider rejects a command.
    pub fn parse_document(&mut self, root: &Json, received_at_ms: u64) -> (r: Result<
        ParsedFrame,
        AdapterError,
    >)
        ensures
            providers::concurs(
                final(self)@,
                r,
                document_frame(old(self)@, root@, received_at_ms),
            ),
    {
        if !root.is_object() {
            return Err(
                providers::invalid_payload(
                    Provider::Binance,
                    "top-level payload must be an object".to_owned(),
                ),
            );
        }
        if let Some(outcome) = parse_control(root) {
            return outcome;
        }
        let parsed = match root.member("stream") {
            None => self.parse_event(root, received_at_ms, None),
            Some(stream) => match stream.as_text() {
                None => Err("combined stream name must be a string".to_owned()),
                Some(name) => match root.member("data") {
                    None => Err("combined stream payload is missing data".to_owned()),
                    Some(data) => self.parse_event(data, received_at_ms, Some(name)),
                },
            },
        };
        providers::label(Provider::Binance, parsed)
    }
}

impl AdapterSession for BinanceSession {
    open spec fn commands_for(&self, action: SubscriptionAction, keys: Seq<KeyView>) -> Result<
        Seq<CommandView>,
        AdapterErrorView,
    > {
        subscription_outcome(self@, action, keys).1
    }

    open spec fn after_change(
        &self,
        action: SubscriptionAction,
        keys: Seq<KeyView>,
        after: &Self,
    ) -> bool {
        after@ == subscription_outcome(self@, action, keys).0
    }

    open spec fn sign_of_life(&self) -> HeartbeatView {
        HeartbeatView::WebSocketPing(Seq::empty())
    }

    open spec fn after_sign(&self, after: &Self) -> bool {
        after@ == self@
    }

    open spec fn frame_for(&self, text: Seq<char>, received_at_ms: u64) -> Result<
        FrameView,
        AdapterErrorView,
    > {
        text_frame(self@, text, received_at_ms).1
    }

    open spec fn after_frame(&self, text: Seq<char>, received_at_ms: u64, after: &Self) -> bool {
        after@ == text_frame(self@, text, received_at_ms).0
    }

    fn subscription_messages(
        &mut self,
        action: SubscriptionAction,
        subscriptions: &[SubscriptionKey],
    ) -> (r: Result<Vec<OutboundCommand>, AdapterError>)
        ensures
            providers::issues(
                final(self)@,
                r,
                subscription_outcome(old(self)@, action, domain::key_views(subscriptions@)),
            ),
    {
        providers::validate_subscriptions(Provider::Binance, subscriptions)?;
        let streams = providers::gather(subscriptions);
        if action == SubscriptionAction::Unsubscribe {
            providers::forget_all(&mut self.tickers, subscriptions, subscriptions.len());
        }
        proof {
            let keys = domain::key_views(subscriptions@);
            assert(keys.take(keys.len() as int) =~= keys);
        }
        Ok(self.command_messages(action, streams))
    }

    fn heartbeat(&mut self) -> (heartbeat: Heartbeat)
        ensures
            heartbeat@ == HeartbeatView::WebSocketPing(Seq::empty()),
            final(self)@ == old(self)@,
    {
        // The venue's heartbeat uses protocol-level ping/pong frames rather than JSON.
        let payload: Vec<u8> = Vec::new();
        proof {
            assert(payload@ =~= Seq::empty());
        }
        Heartbeat::WebSocketPing(payload)
    }

    fn parse(&mut self, text: &str, received_at_ms: u64) -> (r: Result<ParsedFrame, AdapterError>)
        ensures
            providers::concurs(final(self)@, r, text_frame(old(self)@, text@, received_at_ms)),
    {
        match json::read(text) {
            Ok(root) => self.parse_document(&root, received_at_ms),
            Err(message) => Err(
                providers::invalid_payload(
                    Provider::Binance,
                    providers::complain("invalid JSON: ", message),
                ),
            ),
        }
    }
}

impl ProviderAdapter for BinanceAdapter {
    type Session = BinanceSession;

    open spec fn venue(&self) -> Provider {
        Provider::Binance
    }

    open spec fn route(&self, channel: Channel) -> EndpointKind {
        EndpointKind::Primary
    }

    open spec fn spread(&self) -> Seq<EndpointKind> {
        seq![EndpointKind::Primary]
    }

    open spec fn starts(
        &self,
        endpoint: EndpointKind,
        connection_epoch: u128,
        session: BinanceSession,
    ) -> bool {
        session@ == providers::fresh(connection_epoch)
    }

    fn provider(&self) -> (provider: Provider) {
        Provider::Binance
    }

    fn endpoints(&self) -> (list: Vec<EndpointKind>) {
        let list = BinanceAdapter::endpoints(self);
        proof {
            assert(list@[0] == EndpointKind::Primary);
        }
        list
    }

    fn endpoint_for(&self, channel: Channel) -> (endpoint: EndpointKind) {
        BinanceAdapter::endpoint_for(self, channel)
    }

    fn session(&self, endpoint: EndpointKind, connection_epoch: u128) -> (session: BinanceSession) {
        BinanceAdapter::session(self, endpoint, connection_epoch)
    }
}

} // verus!
