//! MEXC USDT-margined futures.
use vstd::prelude::*;

use super::fields;
use crate::decimal;
use crate::domain;
use crate::domain::{
    Candle, CandleFinality, CandleView, Channel, DecimalValue, KeyView, MarketPayload,
    ObservedDecimal, ObservedView, PayloadView, Provider, SubscriptionKey, TickerView,
    CANDLE_INTERVAL_MS,
};
use crate::json;
use crate::json::{Json, JsonView};
use crate::providers;
use crate::providers::{
    AdapterError, AdapterErrorView, AdapterSession, CommandView, Complaints, ConnectionTarget,
    EndpointKind, FrameView, Heartbeat, HeartbeatView, OutboundCommand, ParsedFrame,
    ProviderAdapter, SessionView, SubscriptionAction, TargetView, TickerCache,
};
use crate::table::Table;
use crate::text;

verus! {

pub const MEXC_URL: &'static str = "wss://contract.mexc.com/edge";

/// MEXC does not publish a Futures WebSocket command-rate limit. Four commands per second is a
/// deliberately conservative pace.
pub const COMMAND_INTERVAL_MS: u64 = 250;

pub const SUBSCRIPTION_ACK_TIMEOUT_MS: u64 = 15_000;

pub const HEARTBEAT_INTERVAL_MS: u64 = 15_000;

pub const STALE_AFTER_MS: u64 = 45_000;

pub const MAX_MESSAGE_BYTES: usize = 1_048_576;

/// The adapter for MEXC USDT-margined perpetual streams.
#[derive(Debug)]
pub struct MexcAdapter {
    url: String,
}

impl MexcAdapter {
    /// The URL that the adapter connects to.
    pub closed spec fn url(&self) -> Seq<char> {
        self.url@
    }

    /// An adapter for the official URL.
    pub fn new() -> (adapter: Self)
        ensures
            adapter.url() == MEXC_URL@,
    {
        Self::with_url(MEXC_URL.to_owned())
    }

    /// An adapter for a given URL.
    pub fn with_url(url: String) -> (adapter: Self)
        ensures
            adapter.url() == url@,
    {
        MexcAdapter { url }
    }

    /// The venue.
    pub fn provider(&self) -> (provider: Provider)
        ensures
            provider == Provider::Mexc,
    {
        Provider::Mexc
    }

    /// The endpoints that the venue's streams are spread over.
    pub fn endpoints(&self) -> (list: Vec<EndpointKind>)
        ensures
            list@ == seq![EndpointKind::Primary],
    {
        vec![EndpointKind::Primary]
    }

    /// The endpoint of a channel.
    pub fn endpoint_for(&self, channel: Channel) -> (endpoint: EndpointKind)
        ensures
            endpoint == EndpointKind::Primary,
    {
        EndpointKind::Primary
    }

    /// Where and how to connect.
    ///
    /// # Errors
    ///
    /// Returns [`AdapterError::UnsupportedEndpoint`] for any endpoint but the primary one.
    pub fn connection_target(&self, endpoint: EndpointKind) -> (r: Result<
        ConnectionTarget,
        AdapterError,
    >)
        ensures
            match r {
                Ok(target) => endpoint == EndpointKind::Primary && target@ == (TargetView {
                    url: self.url(),
                    command_interval_ms: COMMAND_INTERVAL_MS,
                    subscription_ack_timeout_ms: SUBSCRIPTION_ACK_TIMEOUT_MS,
                    heartbeat_interval_ms: HEARTBEAT_INTERVAL_MS,
                    stale_after_ms: STALE_AFTER_MS,
                    max_message_bytes: MAX_MESSAGE_BYTES,
                    rotate_after_ms: None,
                }),
                Err(error) => endpoint != EndpointKind::Primary && error@
                    == (AdapterErrorView::UnsupportedEndpoint {
                    provider: Provider::Mexc,
                    endpoint,
                }),
            },
    {
        if endpoint != EndpointKind::Primary {
            return Err(AdapterError::UnsupportedEndpoint { provider: Provider::Mexc, endpoint });
        }
        Ok(
            ConnectionTarget {
                url: self.url.clone(),
                command_interval_ms: COMMAND_INTERVAL_MS,
                subscription_ack_timeout_ms: SUBSCRIPTION_ACK_TIMEOUT_MS,
                heartbeat_interval_ms: HEARTBEAT_INTERVAL_MS,
                stale_after_ms: STALE_AFTER_MS,
                max_message_bytes: MAX_MESSAGE_BYTES,
                rotate_after_ms: None,
            },
        )
    }

    /// A session for a new connection.
    pub fn session(&self, endpoint: EndpointKind, connection_epoch: u128) -> (session: MexcSession)
        ensures
            session@ == (MexcView {
                common: providers::fresh(connection_epoch),
                pending: Seq::empty(),
            }),
            session.endpoint() == endpoint,
    {
        let session = MexcSession {
            endpoint,
            connection_epoch,
            next_request_id: 1,
            pending_acknowledgements: Vec::new(),
            tickers: Table::new(),
        };
        proof {
            assert(providers::cached(session.tickers) =~= Map::empty());
            assert(pending_views(session.pending_acknowledgements@) =~= Seq::empty());
        }
        session
    }
}

impl Default for MexcAdapter {
    /// An adapter for the official URL.
    fn default() -> (adapter: Self)
        ensures
            adapter.url() == MEXC_URL@,
    {
        MexcAdapter::new()
    }
}

/// A command whose acknowledgement is awaited.
#[derive(Debug)]
struct PendingAcknowledgement {
    response_channel: String,
    request_id: String,
}

/// One session on a MEXC connection. MEXC acknowledgement frames carry neither a client id nor the
/// symbol. Commands are emitted and acknowledged in order, so the expected response channels are
/// kept alongside the request ids, and any mismatch is refused.
#[derive(Debug)]
pub struct MexcSession {
    endpoint: EndpointKind,
    connection_epoch: u128,
    next_request_id: u64,
    pending_acknowledgements: Vec<PendingAcknowledgement>,
    tickers: TickerCache,
}

/// An awaited acknowledgement: the channel it comes on, and the request id of its command.
pub struct PendingView {
    pub response_channel: Seq<char>,
    pub request_id: Seq<char>,
}

/// The state of a session: what every venue keeps, and the awaited acknowledgements, first to
/// last.
pub struct MexcView {
    pub common: SessionView,
    pub pending: Seq<PendingView>,
}

/// The values of awaited acknowledgements.
closed spec fn pending_views(list: Seq<PendingAcknowledgement>) -> Seq<PendingView> {
    Seq::new(
        list.len(),
        |i: int|
            PendingView {
                response_channel: list[i].response_channel@,
                request_id: list[i].request_id@,
            },
    )
}

impl View for MexcSession {
    type V = MexcView;

    closed spec fn view(&self) -> MexcView {
        MexcView {
            common: SessionView {
                connection_epoch: self.connection_epoch,
                next_request_id: self.next_request_id,
                tickers: providers::cached(self.tickers),
            },
            pending: pending_views(self.pending_acknowledgements@),
        }
    }
}

// ---------------------------------------------------------------------------------------------
// Commands
// ---------------------------------------------------------------------------------------------

/// The native streams.
#[derive(Debug, Clone, Copy, PartialEq, Eq, Structural)]
pub enum NativeStream {
    Ticker,
    Funding,
    Kline,
}

/// The native name of a stream.
pub open spec fn stream_name(stream: NativeStream) -> Seq<char> {
    match stream {
        NativeStream::Ticker => "ticker"@,
        NativeStream::Funding => "funding.rate"@,
        NativeStream::Kline => "kline"@,
    }
}

/// A native stream of a symbol.
#[derive(Debug)]
struct NativeSubscription {
    stream: NativeStream,
    symbol: String,
}

/// The values of native subscriptions.
closed spec fn native_views(list: Seq<NativeSubscription>) -> Seq<(NativeStream, Seq<char>)> {
    Seq::new(list.len(), |i: int| (list[i].stream, list[i].symbol@))
}

/// The native streams of a key. The ticker has every price and the funding rate; the separate
/// funding stream is the only one that carries the next settlement time.
pub open spec fn natives_of(key: KeyView) -> Seq<(NativeStream, Seq<char>)> {
    match key.channel {
        Channel::Ticker => seq![
            (NativeStream::Ticker, key.symbol),
            (NativeStream::Funding, key.symbol),
        ],
        Channel::Candle1m => seq![(NativeStream::Kline, key.symbol)],
    }
}

/// The native streams of a run of keys, each once, in the order of their first occurrence.
pub open spec fn natives(keys: Seq<KeyView>) -> Seq<(NativeStream, Seq<char>)>
    decreases keys.len(),
{
    if keys.len() == 0 {
        Seq::empty()
    } else {
        providers::with_all_new(natives(keys.drop_last()), natives_of(keys.last()))
    }
}

/// Why a text is no symbol of a USDT-margined perpetual.
pub open spec fn symbol_fault(symbol: Seq<char>) -> Option<Seq<char>> {
    match text::before_suffix(symbol, "_USDT"@) {
        None => Some(symbol + " is not a MEXC USDT-margined perpetual symbol"@),
        Some(base) => providers::unless(
            base.len() > 0 && text::all_ascii_alphanumeric(base),
            symbol + " has invalid MEXC symbol syntax"@,
        ),
    }
}

/// The place of the first key whose symbol is faulty, or the number of keys where there is none.
pub open spec fn first_faulty(keys: Seq<KeyView>) -> int
    decreases keys.len(),
{
    if keys.len() == 0 || symbol_fault(keys[0].symbol) is Some {
        0
    } else {
        1 + first_faulty(keys.skip(1))
    }
}

/// The native name of a command.
pub open spec fn method_name(action: SubscriptionAction, stream: NativeStream) -> Seq<char> {
    match action {
        SubscriptionAction::Subscribe => "sub"@ + "."@ + stream_name(stream),
        SubscriptionAction::Unsubscribe => "unsub"@ + "."@ + stream_name(stream),
    }
}

/// The parameters of a command. The interval is named on subscribing alone.
pub open spec fn parameters(
    action: SubscriptionAction,
    stream: NativeStream,
    symbol: Seq<char>,
) -> JsonView {
    if stream == NativeStream::Kline && action == SubscriptionAction::Subscribe {
        JsonView::Object(
            seq![("interval"@, JsonView::Text("Min1"@)), ("symbol"@, JsonView::Text(symbol))],
        )
    } else {
        JsonView::Object(seq![("symbol"@, JsonView::Text(symbol))])
    }
}

/// A request id.
pub open spec fn request_id(id: u64) -> Seq<char> {
    "mexc-"@ + text::digits(id as nat)
}

/// The command for a native stream. Only subscriptions are acknowledged.
pub open spec fn command(
    action: SubscriptionAction,
    native: (NativeStream, Seq<char>),
    id: u64,
) -> CommandView {
    CommandView {
        request_id: request_id(id),
        text: json::text_of(
            JsonView::Object(
                seq![
                    ("gzip"@, JsonView::Bool(false)),
                    ("method"@, JsonView::Text(method_name(action, native.0))),
                    ("param"@, parameters(action, native.0, native.1)),
                ],
            ),
        ),
        expected_acknowledgements: if action == SubscriptionAction::Subscribe {
            1
        } else {
            0
        },
    }
}

/// The commands for native streams, numbered from a given number on.
pub open spec fn commands(
    action: SubscriptionAction,
    list: Seq<(NativeStream, Seq<char>)>,
    id: u64,
) -> Seq<CommandView> {
    Seq::new(list.len(), |i: int| command(action, list[i], providers::id_after(id, i as nat)))
}

/// The acknowledgements that commands for native streams are awaited with.
pub open spec fn awaited(
    action: SubscriptionAction,
    list: Seq<(NativeStream, Seq<char>)>,
    id: u64,
) -> Seq<PendingView> {
    match action {
        SubscriptionAction::Subscribe => Seq::new(
            list.len(),
            |i: int|
                PendingView {
                    response_channel: "rs."@ + method_name(action, list[i].0),
                    request_id: request_id(providers::id_after(id, i as nat)),
                },
        ),
        SubscriptionAction::Unsubscribe => Seq::empty(),
    }
}

/// The error for a subscription that the venue does not take.
pub open spec fn refused(message: Seq<char>) -> AdapterErrorView {
    AdapterErrorView::InvalidSubscription { provider: Provider::Mexc, message }
}

/// What a subscription change makes of a session and which commands it gives. The tickers of the
/// keys before a faulty one are forgotten even though the change is refused.
pub open spec fn subscription_outcome(
    endpoint: EndpointKind,
    state: MexcView,
    action: SubscriptionAction,
    keys: Seq<KeyView>,
) -> (MexcView, Result<Seq<CommandView>, AdapterErrorView>) {
    let at = first_faulty(keys);
    match providers::foreign_problem(Provider::Mexc, keys) {
        Some(error) => (state, Err(error)),
        None => if endpoint != EndpointKind::Primary {
            (
                state,
                Err(
                    refused(
                        "subscriptions do not belong on the "@ + providers::endpoint_name(endpoint)
                            + " endpoint"@,
                    ),
                ),
            )
        } else if at < keys.len() {
            (
                MexcView {
                    common: SessionView {
                        tickers: providers::tickers_after(
                            state.common.tickers,
                            action,
                            keys.take(at),
                        ),
                        ..state.common
                    },
                    ..state
                },
                Err(refused(symbol_fault(keys[at].symbol)->0)),
            )
        } else {
            let list = natives(keys);
            (
                MexcView {
                    common: SessionView {
                        next_request_id: providers::id_after(
                            state.common.next_request_id,
                            list.len(),
                        ),
                        tickers: providers::tickers_after(state.common.tickers, action, keys),
                        ..state.common
                    },
                    pending: state.pending + awaited(action, list, state.common.next_request_id),
                },
                Ok(commands(action, list, state.common.next_request_id)),
            )
        },
    }
}

// ---------------------------------------------------------------------------------------------
// What frames mean
// ---------------------------------------------------------------------------------------------

/// Why a value is no unsigned 64-bit integer.
pub open spec fn unsigned_problem(value: JsonView, field: Seq<char>) -> Option<Seq<char>> {
    match value {
        JsonView::Number(number) => providers::unless(
            number.unsigned is Some,
            fields::no_unsigned(field),
        ),
        JsonView::Text(text) => providers::unless(
            text.len() > 0 && text::all_digits(text) && text::digits_value(text) <= u64::MAX,
            fields::no_unsigned(field),
        ),
        _ => Some(fields::no_unsigned(field)),
    }
}

/// The number that a value is.
pub open spec fn unsigned_of(value: JsonView) -> u64 {
    match value {
        JsonView::Number(number) => number.unsigned->0,
        JsonView::Text(text) => text::digits_value(text) as u64,
        _ => 0,
    }
}

/// Why an object has no unsigned 64-bit integer of that name.
pub open spec fn unsigned_field_problem(object: JsonView, field: Seq<char>) -> Option<Seq<char>> {
    fields::value_problem(object, field).or_next(
        unsigned_problem(json::value_at(object, field), field),
    )
}

/// The number of that name.
pub open spec fn unsigned_field(object: JsonView, field: Seq<char>) -> u64 {
    unsigned_of(json::value_at(object, field))
}

/// Why the symbol of a payload is not that of its envelope.
pub open spec fn payload_symbol_problem(data: JsonView, expected: Seq<char>) -> Option<Seq<char>> {
    let symbol = json::text_at(data, "symbol"@);
    symbol_fault(expected)
        .or_next(fields::string_problem(data, "symbol"@))
        .or_next(providers::unless(
            symbol == expected,
            "payload symbol "@ + symbol + " does not match envelope symbol "@ + expected,
        ))
        .or_next(match domain::symbol_identity(symbol) {
            Ok(_) => None,
            Err(error) => Some(domain::domain_message(error)),
        })
}

/// Why a message has no payload of its symbol.
pub open spec fn envelope_problem(object: JsonView) -> Option<Seq<char>> {
    fields::string_problem(object, "symbol"@)
        .or_next(fields::object_problem(object, "data"@))
        .or_next(payload_symbol_problem(
            json::value_at(object, "data"@),
            json::text_at(object, "symbol"@),
        ))
}

/// The symbol of a message.
pub open spec fn envelope_symbol(object: JsonView) -> Seq<char> {
    providers::symbol_of(json::text_at(json::value_at(object, "data"@), "symbol"@))
}

/// Why a value is no decimal that was observed.
pub open spec fn observation_problem(value: JsonView, field: Seq<char>, text: Seq<char>) -> Option<
    Seq<char>,
> {
    fields::exact_problem(value, field).or_next(
        fields::plain_decimal_problem(fields::exact(value, field, Some(text))),
    )
}

/// Why an object has another value than a decimal of that name.
pub open spec fn update_problem(object: JsonView, field: Seq<char>, text: Seq<char>) -> Option<
    Seq<char>,
> {
    match json::member_of(object, field) {
        Some(value) => if fields::is_blank(value) {
            None
        } else {
            observation_problem(value, field, text)
        },
        None => None,
    }
}

/// A kept value after an update, which leaves it as it is where it says nothing of it.
pub open spec fn updated(
    kept: Option<ObservedView>,
    object: JsonView,
    field: Seq<char>,
    time: u64,
    text: Seq<char>,
) -> Option<ObservedView> {
    match json::member_of(object, field) {
        Some(value) => if fields::is_blank(value) {
            kept
        } else {
            providers::observed(fields::exact(value, field, Some(text)), time)
        },
        None => kept,
    }
}

/// The state of a session with another ticker kept.
pub open spec fn keeping(state: MexcView, symbol: Seq<char>, ticker: TickerView) -> MexcView {
    MexcView { common: providers::keeping(state.common, symbol, ticker), ..state }
}

/// The frame with one update.
pub open spec fn update_frame(
    state: MexcView,
    symbol: Seq<char>,
    time: Option<u64>,
    received_at_ms: u64,
    payload: PayloadView,
) -> FrameView {
    FrameView::Events(
        seq![
            providers::event_view(
                state.common.connection_epoch,
                Provider::Mexc,
                symbol,
                time,
                received_at_ms,
                None,
                payload,
            ),
        ],
    )
}

/// Why a ticker message is refused whatever is known already.
pub open spec fn ticker_problem(object: JsonView, text: Seq<char>) -> Option<Seq<char>> {
    let data = json::value_at(object, "data"@);
    envelope_problem(object)
        .or_next(unsigned_field_problem(data, "timestamp"@))
        .or_next(update_problem(data, "lastPrice"@, text))
        .or_next(update_problem(data, "fairPrice"@, text))
        .or_next(update_problem(data, "indexPrice"@, text))
        .or_next(update_problem(data, "bid1"@, text))
        .or_next(update_problem(data, "ask1"@, text))
        .or_next(update_problem(data, "fundingRate"@, text))
}

/// A kept ticker after a ticker message.
pub open spec fn ticker_update(base: TickerView, data: JsonView, text: Seq<char>) -> TickerView {
    let time = unsigned_field(data, "timestamp"@);
    TickerView {
        last: updated(base.last, data, "lastPrice"@, time, text),
        mark: updated(base.mark, data, "fairPrice"@, time, text),
        index: updated(base.index, data, "indexPrice"@, time, text),
        bid: updated(base.bid, data, "bid1"@, time, text),
        ask: updated(base.ask, data, "ask1"@, time, text),
        funding_rate: updated(base.funding_rate, data, "fundingRate"@, time, text),
        ..base
    }
}

/// What a ticker message does and means.
pub open spec fn ticker_frame(
    state: MexcView,
    object: JsonView,
    text: Seq<char>,
    received_at_ms: u64,
) -> (MexcView, Result<FrameView, Seq<char>>) {
    let data = json::value_at(object, "data"@);
    let symbol = envelope_symbol(object);
    let ticker = ticker_update(providers::known(state.common.tickers, symbol), data, text);
    match ticker_problem(object, text) {
        Some(message) => (state, Err(message)),
        None => if !domain::has_some_price(ticker) {
            (state, Err("ticker contains no usable price"@))
        } else {
            (
                keeping(state, symbol, ticker),
                Ok(
                    update_frame(
                        state,
                        symbol,
                        Some(unsigned_field(data, "timestamp"@)),
                        received_at_ms,
                        PayloadView::Ticker(ticker),
                    ),
                ),
            )
        },
    }
}

/// The name under which a funding message gives its rate.
pub open spec fn rate_field(data: JsonView) -> Seq<char> {
    if json::member_of(data, "rate"@) is Some {
        "rate"@
    } else {
        "fundingRate"@
    }
}

/// Why a funding message is refused.
pub open spec fn funding_problem(object: JsonView, text: Seq<char>) -> Option<Seq<char>> {
    let data = json::value_at(object, "data"@);
    envelope_problem(object)
        .or_next(unsigned_field_problem(object, "ts"@))
        .or_next(providers::unless(
            json::member_of(data, rate_field(data)) is Some,
            "missing rate or fundingRate"@,
        ))
        .or_next(observation_problem(
            json::value_at(data, rate_field(data)),
            rate_field(data),
            text,
        ))
        .or_next(unsigned_field_problem(data, "nextSettleTime"@))
}

/// A kept ticker after a funding message.
pub open spec fn funding_update(base: TickerView, object: JsonView, text: Seq<char>) -> TickerView {
    let data = json::value_at(object, "data"@);
    TickerView {
        funding_rate: fields::exact_observed(
            data,
            rate_field(data),
            unsigned_field(object, "ts"@),
            Some(text),
        ),
        next_funding_time_ms: Some(unsigned_field(data, "nextSettleTime"@)),
        ..base
    }
}

/// What a funding message does and means. One that comes before the first price is kept, and
/// nothing is told of it.
pub open spec fn funding_frame(
    state: MexcView,
    object: JsonView,
    text: Seq<char>,
    received_at_ms: u64,
) -> (MexcView, Result<FrameView, Seq<char>>) {
    let symbol = envelope_symbol(object);
    let ticker = funding_update(providers::known(state.common.tickers, symbol), object, text);
    match funding_problem(object, text) {
        Some(message) => (state, Err(message)),
        None => (
            keeping(state, symbol, ticker),
            Ok(
                if domain::has_some_price(ticker) {
                    update_frame(
                        state,
                        symbol,
                        Some(unsigned_field(object, "ts"@)),
                        received_at_ms,
                        PayloadView::Ticker(ticker),
                    )
                } else {
                    FrameView::Events(Seq::empty())
                },
            ),
        ),
    }
}

/// Whether a text is in scientific notation.
pub open spec fn is_scientific(text: Seq<char>) -> bool {
    text::holds(text, 'e') || text::holds(text, 'E')
}

/// Why a text is no decimal. Scientific notation is accepted.
pub open spec fn notation_problem(raw: Seq<char>, field: Seq<char>) -> Option<Seq<char>> {
    if is_scientific(raw) {
        match decimal::scientific_of(raw) {
            Some(parsed) => fields::plain_decimal_problem(parsed.text),
            None => Some(field + " is not a decimal"@),
        }
    } else {
        fields::plain_decimal_problem(raw)
    }
}

/// A decimal in plain notation.
pub open spec fn in_plain_notation(raw: Seq<char>) -> Seq<char> {
    if is_scientific(raw) {
        decimal::scientific_of(raw)->0.text
    } else {
        raw
    }
}

/// Why a value is no decimal.
pub open spec fn decimal_problem(value: JsonView, field: Seq<char>, text: Seq<char>) -> Option<
    Seq<char>,
> {
    fields::exact_problem(value, field).or_next(
        notation_problem(fields::exact(value, field, Some(text)), field),
    )
}

/// The decimal that a value is.
pub open spec fn decimal_of(value: JsonView, field: Seq<char>, text: Seq<char>) -> Seq<char> {
    in_plain_notation(fields::exact(value, field, Some(text)))
}

/// Why an object has no decimal of that name.
pub open spec fn price_problem(object: JsonView, field: Seq<char>, text: Seq<char>) -> Option<
    Seq<char>,
> {
    fields::value_problem(object, field).or_next(
        decimal_problem(json::value_at(object, field), field, text),
    )
}

/// Why an object has another value than a decimal of that name.
pub open spec fn volume_problem(object: JsonView, field: Seq<char>, text: Seq<char>) -> Option<
    Seq<char>,
> {
    match json::member_of(object, field) {
        Some(value) => if fields::is_blank(value) {
            None
        } else {
            decimal_problem(value, field, text)
        },
        None => None,
    }
}

/// The decimal of that name, where there is one.
pub open spec fn volume_of(object: JsonView, field: Seq<char>, text: Seq<char>) -> Option<
    Seq<char>,
> {
    match json::member_of(object, field) {
        Some(value) => if fields::is_blank(value) {
            None
        } else {
            Some(decimal_of(value, field, text))
        },
        None => None,
    }
}

/// Whether an object has a time of that name.
pub open spec fn timed(object: JsonView, field: Seq<char>) -> bool {
    json::value_at(object, field) != JsonView::Null
}

/// Why a candle message is refused.
pub open spec fn candle_problem(object: JsonView, text: Seq<char>) -> Option<Seq<char>> {
    let data = json::value_at(object, "data"@);
    envelope_problem(object)
        .or_next(fields::string_problem(data, "interval"@))
        .or_next(providers::unless(
            json::text_at(data, "interval"@) == "Min1"@,
            "expected Min1 candle interval"@,
        ))
        .or_next(unsigned_field_problem(data, "t"@))
        .or_next(providers::unless(
            unsigned_field(data, "t"@) * 1_000 <= u64::MAX,
            "candle start time overflow"@,
        ))
        .or_next(providers::unless(
            unsigned_field(data, "t"@) * 1_000 + CANDLE_INTERVAL_MS <= u64::MAX,
            "candle end time overflow"@,
        ))
        .or_next(if timed(object, "ts"@) {
            unsigned_field_problem(object, "ts"@)
        } else {
            None
        })
        .or_next(price_problem(data, "o"@, text))
        .or_next(price_problem(data, "h"@, text))
        .or_next(price_problem(data, "l"@, text))
        .or_next(price_problem(data, "c"@, text))
        .or_next(volume_problem(data, "a"@, text))
        .or_next(volume_problem(data, "q"@, text))
}

/// The candle of a message: q counts contracts and a is the quote turnover. The base volume needs
/// the contract size, which is not known here. No message says that a candle is closed.
pub open spec fn message_candle(object: JsonView, text: Seq<char>) -> CandleView {
    let data = json::value_at(object, "data"@);
    let start = (unsigned_field(data, "t"@) * 1_000) as u64;
    CandleView {
        interval: "1m"@,
        start_time_ms: start,
        end_time_ms: (start + CANDLE_INTERVAL_MS) as u64,
        open: decimal_of(json::value_at(data, "o"@), "o"@, text),
        high: decimal_of(json::value_at(data, "h"@), "h"@, text),
        low: decimal_of(json::value_at(data, "l"@), "l"@, text),
        close: decimal_of(json::value_at(data, "c"@), "c"@, text),
        base_volume: None,
        quote_volume: volume_of(data, "a"@, text),
        contract_volume: volume_of(data, "q"@, text),
        finality: CandleFinality::Unknown,
        data_quality: Seq::empty(),
    }
}

/// What a candle message means.
pub open spec fn candle_frame(
    state: MexcView,
    object: JsonView,
    text: Seq<char>,
    received_at_ms: u64,
) -> Result<FrameView, Seq<char>> {
    match candle_problem(object, text) {
        Some(message) => Err(message),
        None => Ok(
            update_frame(
                state,
                envelope_symbol(object),
                if timed(object, "ts"@) {
                    Some(unsigned_field(object, "ts"@))
                } else {
                    None
                },
                received_at_ms,
                PayloadView::Candle(message_candle(object, text)),
            ),
        ),
    }
}

/// The state of a session with its first awaited acknowledgement gone.
pub open spec fn answered(state: MexcView) -> MexcView {
    MexcView {
        pending: if state.pending.len() > 0 {
            state.pending.skip(1)
        } else {
            state.pending
        },
        ..state
    }
}

/// What an acknowledgement does and means: it is the first awaited one, or it is refused. Either
/// way that one is awaited no longer.
pub open spec fn acknowledgement_frame(state: MexcView, channel: Seq<char>, object: JsonView) -> (
    MexcView,
    Result<FrameView, AdapterErrorView>,
) {
    let result = json::text_at(object, "data"@);
    if let Some(message) = fields::string_problem(object, "data"@) {
        (state, Err(providers::invalid_data(Provider::Mexc, message)))
    } else if result != "success"@ {
        (
            answered(state),
            Err(providers::rejected(Provider::Mexc, channel + ": "@ + result)),
        )
    } else if state.pending.len() == 0 {
        (
            state,
            Err(
                providers::invalid_data(
                    Provider::Mexc,
                    "unexpected acknowledgement "@ + channel,
                ),
            ),
        )
    } else if state.pending[0].response_channel != channel {
        (
            answered(state),
            Err(
                providers::invalid_data(
                    Provider::Mexc,
                    "expected acknowledgement "@ + state.pending[0].response_channel + ", got "@
                        + channel,
                ),
            ),
        )
    } else {
        (
            answered(state),
            Ok(FrameView::Acknowledgement { request_id: state.pending[0].request_id }),
        )
    }
}

/// A value as words: a text as it is, anything else as a document.
pub open spec fn shown(value: JsonView) -> Seq<char> {
    match value {
        JsonView::Text(text) => text,
        _ => json::text_of(value),
    }
}

/// What a document does and means, with the text that it was read from.
pub open spec fn document_frame(
    state: MexcView,
    root: JsonView,
    text: Seq<char>,
    received_at_ms: u64,
) -> (MexcView, Result<FrameView, AdapterErrorView>) {
    let channel = json::text_at(root, "channel"@);
    if !(root is Object) {
        providers::labelled(Provider::Mexc, (state, Err("message must be a JSON object"@)))
    } else if let Some(message) = fields::string_problem(root, "channel"@) {
        providers::labelled(Provider::Mexc, (state, Err(message)))
    } else if channel == "pong"@ {
        (state, Ok(FrameView::Pong))
    } else if channel == "rs.error"@ {
        (
            answered(state),
            Err(
                providers::rejected(
                    Provider::Mexc,
                    match json::member_of(root, "data"@) {
                        Some(data) => shown(data),
                        None => "unknown command error"@,
                    },
                ),
            ),
        )
    } else if text::begins_with(channel, "rs.sub."@) {
        acknowledgement_frame(state, channel, root)
    } else if text::begins_with(channel, "rs.unsub."@) {
        (state, Ok(FrameView::Ignored))
    } else if channel == "push.ticker"@ {
        providers::labelled(Provider::Mexc, ticker_frame(state, root, text, received_at_ms))
    } else if channel == "push.funding.rate"@ {
        providers::labelled(Provider::Mexc, funding_frame(state, root, text, received_at_ms))
    } else if channel == "push.kline"@ {
        providers::labelled(
            Provider::Mexc,
            (state, candle_frame(state, root, text, received_at_ms)),
        )
    } else {
        (state, Ok(FrameView::Ignored))
    }
}

/// What a text frame does and means.
pub open spec fn text_frame(state: MexcView, text: Seq<char>, received_at_ms: u64) -> (
    MexcView,
    Result<FrameView, AdapterErrorView>,
) {
    match json::document_of(text) {
        Err(message) => providers::labelled(
            Provider::Mexc,
            (state, Err("invalid JSON: "@ + message)),
        ),
        Ok(root) => document_frame(state, root, text, received_at_ms),
    }
}

/// Every update that a frame of MEXC gives names the venue, the connection it came over and when
/// it was received, and no candle is said to be open or closed; a frame changes no connection.
pub proof fn law_updates_are_stamped(state: MexcView, text: Seq<char>, received_at_ms: u64)
    ensures
        text_frame(state, text, received_at_ms).0.common.connection_epoch
            == state.common.connection_epoch,
        text_frame(state, text, received_at_ms).1 matches Ok(frame) ==> {
            &&& providers::has_stamps(
                frame,
                Provider::Mexc,
                state.common.connection_epoch,
                received_at_ms,
            )
            &&& providers::leaves_finality_open(frame)
        },
{
}

/// A field that a ticker message does not give keeps its value and the time of its observation.
pub proof fn law_sparse_update_keeps_omitted_fields(
    base: TickerView,
    data: JsonView,
    text: Seq<char>,
)
    ensures
        ({
            let after = ticker_update(base, data, text);
            &&& json::member_of(data, "lastPrice"@) is None ==> after.last == base.last
            &&& json::member_of(data, "fairPrice"@) is None ==> after.mark == base.mark
            &&& json::member_of(data, "indexPrice"@) is None ==> after.index == base.index
            &&& json::member_of(data, "bid1"@) is None ==> after.bid == base.bid
            &&& json::member_of(data, "ask1"@) is None ==> after.ask == base.ask
            &&& json::member_of(data, "fundingRate"@) is None ==> after.funding_rate
                == base.funding_rate
            &&& after.next_funding_time_ms == base.next_funding_time_ms
        }),
{
}

/// A funding message touches no price.
pub proof fn law_no_price_stands_in_for_another(base: TickerView, object: JsonView, text: Seq<char>)
    ensures
        ({
            let after = funding_update(base, object, text);
            after == (TickerView {
                funding_rate: after.funding_rate,
                next_funding_time_ms: after.next_funding_time_ms,
                ..base
            })
        }),
{
}

// ---------------------------------------------------------------------------------------------
// The session
// ---------------------------------------------------------------------------------------------

/// The error for data that MEXC should not have sent.
fn invalid<T>(message: &str) -> (r: Result<T, AdapterError>)
    ensures
        r is Err && r->Err_0@ == providers::invalid_data(Provider::Mexc, message@),
{
    Err(providers::invalid_payload(Provider::Mexc, message.to_owned()))
}

/// Check that a symbol is one of a USDT-margined perpetual.
fn validate_mexc_symbol(symbol: &str) -> (r: Result<(), String>)
    ensures
        match r {
            Ok(_) => symbol_fault(symbol@) is None,
            Err(message) => symbol_fault(symbol@) == Some(message@),
        },
{
    let base = match text::strip_suffix(symbol, "_USDT") {
        Some(base) => base,
        None => {
            return Err(text::cat2(symbol, " is not a MEXC USDT-margined perpetual symbol"));
        },
    };
    if base.is_empty() || !text::is_ascii_word(base) {
        return Err(text::cat2(symbol, " has invalid MEXC symbol syntax"));
    }
    Ok(())
}

/// How many keys stand before the first one whose symbol is faulty.
fn count_sound(subscriptions: &[SubscriptionKey]) -> (count: usize)
    ensures
        count == first_faulty(domain::key_views(subscriptions@)),
        count <= subscriptions@.len(),
        count < subscriptions@.len() ==> symbol_fault(subscriptions@[count as int]@.symbol) is Some,
{
    let ghost keys = domain::key_views(subscriptions@);
    let mut i: usize = 0;
    proof {
        assert(keys.skip(0) =~= keys);
    }
    while i < subscriptions.len()
        invariant
            i <= subscriptions@.len(),
            keys == domain::key_views(subscriptions@),
            first_faulty(keys) == i + first_faulty(keys.skip(i as int)),
        decreases subscriptions.len() - i,
    {
        proof {
            assert(keys.skip(i as int)[0] == subscriptions@[i as int]@);
            assert(keys.skip(i as int).skip(1) =~= keys.skip(i + 1));
        }
        if validate_mexc_symbol(subscriptions[i].symbol.as_str()).is_err() {
            return i;
        }
        i += 1;
    }
    i
}

/// Add a native stream to a list unless the list has it already.
fn push_native(list: &mut Vec<NativeSubscription>, stream: NativeStream, symbol: &str)
    ensures
        native_views(final(list)@) == providers::with_new(
            native_views(old(list)@),
            (stream, symbol@),
        ),
{
    let ghost before = native_views(list@);
    let mut i: usize = 0;
    while i < list.len()
        invariant
            i <= list@.len(),
            before == native_views(list@),
            *list == *old(list),
            forall|k: int| 0 <= k < i ==> #[trigger] before[k] != (stream, symbol@),
        decreases list.len() - i,
    {
        proof {
            assert(before[i as int] == (list@[i as int].stream, list@[i as int].symbol@));
        }
        if list[i].stream == stream && text::same(list[i].symbol.as_str(), symbol) {
            return;
        }
        i += 1;
    }
    list.push(NativeSubscription { stream, symbol: symbol.to_owned() });
    proof {
        assert(native_views(list@) =~= before.push((stream, symbol@)));
    }
}

/// The native streams of a list of keys.
fn collect_natives(subscriptions: &[SubscriptionKey]) -> (list: Vec<NativeSubscription>)
    ensures
        native_views(list@) == natives(domain::key_views(subscriptions@)),
{
    let ghost keys = domain::key_views(subscriptions@);
    let mut list: Vec<NativeSubscription> = Vec::new();
    let mut i: usize = 0;
    proof {
        assert(keys.take(0) =~= Seq::empty());
        assert(native_views(list@) =~= Seq::empty());
    }
    while i < subscriptions.len()
        invariant
            i <= subscriptions@.len(),
            keys == domain::key_views(subscriptions@),
            native_views(list@) == natives(keys.take(i as int)),
        decreases subscriptions.len() - i,
    {
        let key = &subscriptions[i];
        proof {
            let longer = keys.take(i + 1);
            assert(longer.drop_last() =~= keys.take(i as int));
            assert(longer.last() == key@);
            let added = natives_of(key@);
            reveal_with_fuel(providers::with_all_new, 3);
            if key@.channel == Channel::Ticker {
                assert(added.drop_last() =~= seq![(NativeStream::Ticker, key@.symbol)]);
                assert(added.drop_last().drop_last() =~= Seq::empty());
            } else {
                assert(added.drop_last() =~= Seq::empty());
            }
        }
        match key.channel {
            Channel::Ticker => {
                push_native(&mut list, NativeStream::Ticker, key.symbol.as_str());
                push_native(&mut list, NativeStream::Funding, key.symbol.as_str());
            },
            Channel::Candle1m => {
                push_native(&mut list, NativeStream::Kline, key.symbol.as_str());
            },
        }
        i += 1;
    }
    proof {
        assert(keys.take(i as int) =~= keys);
    }
    list
}

/// The native name of a command.
fn build_method(action: SubscriptionAction, stream: NativeStream) -> (method: String)
    ensures
        method@ == method_name(action, stream),
{
    let operation = match action {
        SubscriptionAction::Subscribe => "sub",
        SubscriptionAction::Unsubscribe => "unsub",
    };
    let name = match stream {
        NativeStream::Ticker => "ticker",
        NativeStream::Funding => "funding.rate",
        NativeStream::Kline => "kline",
    };
    text::cat3(operation, ".", name)
}

/// The parameters of a command.
fn build_parameters(action: SubscriptionAction, stream: NativeStream, symbol: &str) -> (value: Json)
    ensures
        value@ == parameters(action, stream, symbol@),
{
    let named = providers::member("symbol", Json::Text(symbol.to_owned()));
    if stream == NativeStream::Kline && action == SubscriptionAction::Subscribe {
        providers::object2(providers::member("interval", Json::Text("Min1".to_owned())), named)
    } else {
        providers::object1(named)
    }
}

/// The unsigned 64-bit integer of that name.
fn required_u64(object: &Json, field: &str) -> (r: Result<u64, String>)
    ensures
        match r {
            Ok(n) => {
                &&& unsigned_field_problem(object@, field@) is None
                &&& n == unsigned_field(object@, field@)
            },
            Err(message) => unsigned_field_problem(object@, field@) == Some(message@),
        },
{
    let value = fields::required_value(object, field)?;
    match value {
        Json::Number(number) => {
            if let Some(n) = number.unsigned {
                return Ok(n);
            }
        },
        Json::Text(text) => {
            if text::is_digits(text.as_str()) {
                if let Some(n) = text::parse_digits(text.as_str()) {
                    return Ok(n);
                }
            }
        },
        _ => {},
    }
    Err(fields::complain_no_unsigned(field))
}

/// The symbol of a payload, which is that of its envelope.
fn checked_payload_symbol(data: &Json, expected: &str) -> (r: Result<String, String>)
    ensures
        match r {
            Ok(symbol) => {
                &&& payload_symbol_problem(data@, expected@) is None
                &&& symbol@ == providers::symbol_of(json::text_at(data@, "symbol"@))
            },
            Err(message) => payload_symbol_problem(data@, expected@) == Some(message@),
        },
{
    validate_mexc_symbol(expected)?;
    let symbol = fields::required_string(data, "symbol")?;
    if !text::same(symbol, expected) {
        return Err(
            text::cat4("payload symbol ", symbol, " does not match envelope symbol ", expected),
        );
    }
    match domain::normalize_symbol(symbol) {
        Ok(identity) => Ok(identity),
        Err(error) => Err(error.message()),
    }
}

/// The payload of a message and its symbol.
fn read_envelope(object: &Json) -> (r: Result<(String, &Json), String>)
    ensures
        match r {
            Ok((symbol, data)) => {
                &&& envelope_problem(object@) is None
                &&& symbol@ == envelope_symbol(object@)
                &&& data@ == json::value_at(object@, "data"@)
            },
            Err(message) => envelope_problem(object@) == Some(message@),
        },
{
    let outer = fields::required_string(object, "symbol")?;
    let data = fields::required_object(object, "data")?;
    let symbol = checked_payload_symbol(data, outer)?;
    Ok((symbol, data))
}

/// A decimal with the time at which it was observed.
fn observation(value: &Json, field: &str, time: u64, text: &str) -> (r: Result<
    ObservedDecimal,
    String,
>)
    ensures
        match r {
            Ok(decimal) => {
                &&& observation_problem(value@, field@, text@) is None
                &&& Some(decimal@) == providers::observed(
                    fields::exact(value@, field@, Some(text@)),
                    time,
                )
            },
            Err(message) => observation_problem(value@, field@, text@) == Some(message@),
        },
{
    let raw = fields::decimal_string(value, field, Some(text))?;
    fields::plain_observed(raw.as_str(), time)
}

/// A kept value after an update.
fn update_observation(
    kept: Option<ObservedDecimal>,
    object: &Json,
    field: &str,
    time: u64,
    text: &str,
) -> (r: Result<Option<ObservedDecimal>, String>)
    ensures
        match r {
            Ok(value) => {
                &&& update_problem(object@, field@, text@) is None
                &&& domain::observed_view(value) == updated(
                    domain::observed_view(kept),
                    object@,
                    field@,
                    time,
                    text@,
                )
            },
            Err(message) => update_problem(object@, field@, text@) == Some(message@),
        },
{
    match object.member(field) {
        Some(value) => {
            if fields::blank(value) {
                Ok(kept)
            } else {
                Ok(Some(observation(value, field, time, text)?))
            }
        },
        None => Ok(kept),
    }
}

/// Read a decimal.
fn decimal(value: &Json, field: &str, text: &str) -> (r: Result<DecimalValue, String>)
    ensures
        match r {
            Ok(decimal) => {
                &&& decimal_problem(value@, field@, text@) is None
                &&& decimal@ == decimal_of(value@, field@, text@)
            },
            Err(message) => decimal_problem(value@, field@, text@) == Some(message@),
        },
{
    let raw = fields::decimal_string(value, field, Some(text))?;
    if text::contains(raw.as_str(), 'e') || text::contains(raw.as_str(), 'E') {
        match decimal::read_scientific(raw.as_str()) {
            Some(parsed) => fields::plain_decimal(parsed.text.as_str()),
            None => Err(text::cat2(field, " is not a decimal")),
        }
    } else {
        fields::plain_decimal(raw.as_str())
    }
}

/// The decimal of that name.
fn required_decimal(object: &Json, field: &str, text: &str) -> (r: Result<DecimalValue, String>)
    ensures
        match r {
            Ok(value) => {
                &&& price_problem(object@, field@, text@) is None
                &&& value@ == decimal_of(json::value_at(object@, field@), field@, text@)
            },
            Err(message) => price_problem(object@, field@, text@) == Some(message@),
        },
{
    let value = fields::required_value(object, field)?;
    decimal(value, field, text)
}

/// The decimal of that name, where there is one.
fn optional_decimal(object: &Json, field: &str, text: &str) -> (r: Result<
    Option<DecimalValue>,
    String,
>)
    ensures
        match r {
            Ok(value) => {
                &&& volume_problem(object@, field@, text@) is None
                &&& domain::decimal_view(value) == volume_of(object@, field@, text@)
            },
            Err(message) => volume_problem(object@, field@, text@) == Some(message@),
        },
{
    match object.member(field) {
        Some(value) => {
            if fields::blank(value) {
                Ok(None)
            } else {
                Ok(Some(decimal(value, field, text)?))
            }
        },
        None => Ok(None),
    }
}

/// The time of that name, where there is one.
fn optional_u64(object: &Json, field: &str) -> (r: Result<Option<u64>, String>)
    ensures
        match r {
            Ok(Some(n)) => {
                &&& timed(object@, field@)
                &&& unsigned_field_problem(object@, field@) is None
                &&& n == unsigned_field(object@, field@)
            },
            Ok(None) => !timed(object@, field@),
            Err(message) => timed(object@, field@) && unsigned_field_problem(object@, field@)
                == Some(message@),
        },
{
    match object.member(field) {
        Some(value) => {
            if value.is_null() {
                Ok(None)
            } else {
                Ok(Some(required_u64(object, field)?))
            }
        },
        None => Ok(None),
    }
}

/// The candle of a message, with its symbol and time.
fn read_candle(object: &Json, text: &str) -> (r: Result<(String, Option<u64>, Candle), String>)
    ensures
        match r {
            Ok((symbol, time, candle)) => {
                &&& candle_problem(object@, text@) is None
                &&& symbol@ == envelope_symbol(object@)
                &&& time == (if timed(object@, "ts"@) {
                    Some(unsigned_field(object@, "ts"@))
                } else {
                    None
                })
                &&& candle@ == message_candle(object@, text@)
            },
            Err(message) => candle_problem(object@, text@) == Some(message@),
        },
{
    let (symbol, data) = read_envelope(object)?;
    if !text::same(fields::required_string(data, "interval")?, "Min1") {
        return Err("expected Min1 candle interval".to_owned());
    }
    let seconds = required_u64(data, "t")?;
    let start_time_ms = match seconds.checked_mul(1_000) {
        Some(start) => start,
        None => {
            return Err("candle start time overflow".to_owned());
        },
    };
    let end_time_ms = match start_time_ms.checked_add(CANDLE_INTERVAL_MS) {
        Some(end) => end,
        None => {
            return Err("candle end time overflow".to_owned());
        },
    };
    let time = optional_u64(object, "ts")?;
    let candle = Candle {
        interval: "1m".to_owned(),
        start_time_ms,
        end_time_ms,
        open: required_decimal(data, "o", text)?,
        high: required_decimal(data, "h", text)?,
        low: required_decimal(data, "l", text)?,
        close: required_decimal(data, "c", text)?,
        base_volume: None,
        quote_volume: optional_decimal(data, "a", text)?,
        contract_volume: optional_decimal(data, "q", text)?,
        finality: CandleFinality::Unknown,
        data_quality: Vec::new(),
    };
    proof {
        assert(candle.data_quality@ =~= Seq::empty());
    }
    Ok((symbol, time, candle))
}

/// A value as words.
fn display_value(value: &Json) -> (words: String)
    ensures
        words@ == shown(value@),
{
    match value.as_text() {
        Some(text) => text.to_owned(),
        None => json::write(value),
    }
}

impl MexcSession {
    /// The endpoint that the session is on.
    pub closed spec fn endpoint(&self) -> EndpointKind {
        self.endpoint
    }

    /// The command for a native stream.
    fn command(&mut self, action: SubscriptionAction, native: &NativeSubscription) -> (made:
        OutboundCommand)
        ensures
            made@ == command(
                action,
                (native.stream, native.symbol@),
                old(self)@.common.next_request_id,
            ),
            final(self).endpoint() == old(self).endpoint(),
            final(self)@.common == (SessionView {
                next_request_id: providers::next_id(old(self)@.common.next_request_id),
                ..old(self)@.common
            }),
            final(self)@.pending == old(self)@.pending + awaited(
                action,
                seq![(native.stream, native.symbol@)],
                old(self)@.common.next_request_id,
            ),
    {
        let ghost start = self@;
        let method = build_method(action, native.stream);
        let response_channel = text::cat2("rs.", method.as_str());
        let id = providers::take_id(&mut self.next_request_id);
        let request_id = text::cat2("mexc-", text::unsigned_text(id).as_str());
        let document = providers::object3(
            providers::member("gzip", Json::Bool(false)),
            providers::member("method", Json::Text(method)),
            providers::member(
                "param",
                build_parameters(action, native.stream, native.symbol.as_str()),
            ),
        );
        let expected_acknowledgements: usize = if action == SubscriptionAction::Subscribe {
            1
        } else {
            0
        };
        if expected_acknowledgements == 1 {
            self.pending_acknowledgements.push(
                PendingAcknowledgement { response_channel, request_id: request_id.clone() },
            );
        }
        proof {
            assert(self@.pending =~= start.pending + awaited(
                action,
                seq![(native.stream, native.symbol@)],
                start.common.next_request_id,
            ));
        }
        OutboundCommand { request_id, text: json::write(&document), expected_acknowledgements }
    }

    /// The commands for native streams.
    fn command_messages(&mut self, action: SubscriptionAction, natives: &Vec<NativeSubscription>)
        -> (list: Vec<OutboundCommand>)
        ensures
            providers::command_views(list@) == commands(
                action,
                native_views(natives@),
                old(self)@.common.next_request_id,
            ),
            final(self).endpoint() == old(self).endpoint(),
            final(self)@.common == (SessionView {
                next_request_id: providers::id_after(
                    old(self)@.common.next_request_id,
                    natives@.len(),
                ),
                ..old(self)@.common
            }),
            final(self)@.pending == old(self)@.pending + awaited(
                action,
                native_views(natives@),
                old(self)@.common.next_request_id,
            ),
    {
        let ghost start = self@;
        let ghost all = native_views(natives@);
        let mut list: Vec<OutboundCommand> = Vec::new();
        let mut i: usize = 0;
        proof {
            assert(self@.pending =~= start.pending + awaited(
                action,
                all.take(0),
                start.common.next_request_id,
            ));
        }
        while i < natives.len()
            invariant
                i <= natives@.len(),
                all == native_views(natives@),
                list@.len() == i,
                forall|k: int|
                    0 <= k < i ==> (#[trigger] list@[k])@ == command(
                        action,
                        all[k],
                        providers::id_after(start.common.next_request_id, k as nat),
                    ),
                self.endpoint() == old(self).endpoint(),
                self@.common == (SessionView {
                    next_request_id: providers::id_after(
                        start.common.next_request_id,
                        i as nat,
                    ),
                    ..start.common
                }),
                self@.pending == start.pending + awaited(
                    action,
                    all.take(i as int),
                    start.common.next_request_id,
                ),
            decreases natives.len() - i,
        {
            let ghost before = self@.pending;
            let made = self.command(action, &natives[i]);
            list.push(made);
            proof {
                assert(self@.pending =~= start.pending + awaited(
                    action,
                    all.take(i + 1),
                    start.common.next_request_id,
                ));
            }
            i += 1;
        }
        proof {
            assert(all.take(i as int) =~= all);
            assert(providers::command_views(list@) =~= commands(
                action,
                all,
                start.common.next_request_id,
            ));
        }
        list
    }

    /// Take the first awaited acknowledgement.
    fn answer(&mut self) -> (first: Option<PendingAcknowledgement>)
        ensures
            final(self).endpoint() == old(self).endpoint(),
            final(self)@ == answered(old(self)@),
            match first {
                Some(pending) => {
                    &&& old(self)@.pending.len() > 0
                    &&& pending.response_channel@ == old(self)@.pending[0].response_channel
                    &&& pending.request_id@ == old(self)@.pending[0].request_id
                },
                None => old(self)@.pending.len() == 0,
            },
    {
        let ghost start = self@;
        if self.pending_acknowledgements.len() == 0 {
            return None;
        }
        let first = self.pending_acknowledgements.remove(0);
        proof {
            assert(self@.pending =~= start.pending.skip(1));
        }
        Some(first)
    }

    /// Take in an acknowledgement.
    fn parse_acknowledgement(&mut self, channel: &str, object: &Json) -> (r: Result<
        ParsedFrame,
        AdapterError,
    >)
        ensures
            final(self).endpoint() == old(self).endpoint(),
            providers::concurs(
                final(self)@,
                r,
                acknowledgement_frame(old(self)@, channel@, object@),
            ),
    {
        let result = match fields::required_string(object, "data") {
            Ok(result) => result,
            Err(message) => {
                return invalid(message.as_str());
            },
        };
        let first = self.answer();
        if !text::same(result, "success") {
            return Err(
                providers::command_rejected(Provider::Mexc, text::cat3(channel, ": ", result)),
            );
        }
        let pending = match first {
            Some(pending) => pending,
            None => {
                return invalid(text::cat2("unexpected acknowledgement ", channel).as_str());
            },
        };
        if !text::same(pending.response_channel.as_str(), channel) {
            return invalid(
                text::cat4(
                    "expected acknowledgement ",
                    pending.response_channel.as_str(),
                    ", got ",
                    channel,
                ).as_str(),
            );
        }
        Ok(ParsedFrame::Acknowledgement { request_id: pending.request_id })
    }

    /// An update of a symbol.
    fn event(
        &self,
        symbol: String,
        time: Option<u64>,
        received_at_ms: u64,
        payload: MarketPayload,
    ) -> (frame: ParsedFrame)
        ensures
            frame@ == update_frame(self@, symbol@, time, received_at_ms, payload@),
    {
        providers::one_event(
            providers::make_event(
                self.connection_epoch,
                Provider::Mexc,
                symbol,
                time,
                received_at_ms,
                None,
                payload,
            ),
        )
    }

    /// Take in a ticker message.
    fn parse_ticker(&mut self, object: &Json, text: &str, received_at_ms: u64) -> (r: Result<
        ParsedFrame,
        String,
    >)
        ensures
            final(self).endpoint() == old(self).endpoint(),
            providers::agrees(
                final(self)@,
                r,
                ticker_frame(old(self)@, object@, text@, received_at_ms),
            ),
    {
        let (symbol, data) = read_envelope(object)?;
        let time = required_u64(data, "timestamp")?;
        let mut ticker = providers::recall(&self.tickers, &symbol);
        ticker.last = update_observation(ticker.last, data, "lastPrice", time, text)?;
        ticker.mark = update_observation(ticker.mark, data, "fairPrice", time, text)?;
        ticker.index = update_observation(ticker.index, data, "indexPrice", time, text)?;
        ticker.bid = update_observation(ticker.bid, data, "bid1", time, text)?;
        ticker.ask = update_observation(ticker.ask, data, "ask1", time, text)?;
        ticker.funding_rate = update_observation(
            ticker.funding_rate,
            data,
            "fundingRate",
            time,
            text,
        )?;
        if !ticker.has_price() {
            return Err("ticker contains no usable price".to_owned());
        }
        providers::remember(&mut self.tickers, &symbol, &ticker);
        Ok(self.event(symbol, Some(time), received_at_ms, MarketPayload::Ticker(ticker)))
    }

    /// Take in a funding message.
    fn parse_funding(&mut self, object: &Json, text: &str, received_at_ms: u64) -> (r: Result<
        ParsedFrame,
        String,
    >)
        ensures
            final(self).endpoint() == old(self).endpoint(),
            providers::agrees(
                final(self)@,
                r,
                funding_frame(old(self)@, object@, text@, received_at_ms),
            ),
    {
        let (symbol, data) = read_envelope(object)?;
        let time = required_u64(object, "ts")?;
        let mut ticker = providers::recall(&self.tickers, &symbol);
        // The field table says fundingRate while its sample and the live service use rate.
        let field = if data.member("rate").is_some() {
            "rate"
        } else {
            "fundingRate"
        };
        let rate = match data.member(field) {
            Some(rate) => rate,
            None => {
                return Err("missing rate or fundingRate".to_owned());
            },
        };
        ticker.funding_rate = Some(observation(rate, field, time, text)?);
        ticker.next_funding_time_ms = Some(required_u64(data, "nextSettleTime")?);
        providers::remember(&mut self.tickers, &symbol, &ticker);
        if !ticker.has_price() {
            let events: Vec<crate::domain::ProviderEvent> = Vec::new();
            proof {
                assert(providers::event_views(events@) =~= Seq::empty());
            }
            return Ok(ParsedFrame::Events(events));
        }
        Ok(self.event(symbol, Some(time), received_at_ms, MarketPayload::Ticker(ticker)))
    }

    /// Take in a candle message.
    fn parse_candle(&self, object: &Json, text: &str, received_at_ms: u64) -> (r: Result<
        ParsedFrame,
        String,
    >)
        ensures
            providers::agrees(
                self@,
                r,
                (self@, candle_frame(self@, object@, text@, received_at_ms)),
            ),
    {
        let (symbol, time, candle) = read_candle(object, text)?;
        Ok(self.event(symbol, time, received_at_ms, MarketPayload::Candle(candle)))
    }

    /// Take in a document, with the text that it was read from.
    ///
    /// # Errors
    ///
    /// Returns an error when the document is no valid frame or the provider rejects a command.
    pub fn parse_document(&mut self, root: &Json, text: &str, received_at_ms: u64) -> (r: Result<
        ParsedFrame,
        AdapterError,
    >)
        ensures
            final(self).endpoint() == old(self).endpoint(),
            providers::concurs(
                final(self)@,
                r,
                document_frame(old(self)@, root@, text@, received_at_ms),
            ),
    {
        if !root.is_object() {
            return invalid("message must be a JSON object");
        }
        let channel = match fields::required_string(root, "channel") {
            Ok(channel) => channel,
            Err(message) => {
                return invalid(message.as_str());
            },
        };
        if text::same(channel, "pong") {
            return Ok(ParsedFrame::Pong);
        }
        if text::same(channel, "rs.error") {
            let _first = self.answer();
            let message = match root.member("data") {
                Some(data) => display_value(data),
                None => "unknown command error".to_owned(),
            };
            return Err(providers::command_rejected(Provider::Mexc, message));
        }
        if text::starts_with(channel, "rs.sub.") {
            return self.parse_acknowledgement(channel, root);
        }
        if text::starts_with(channel, "rs.unsub.") {
            // The venue documents no acknowledgement of an unsubscription, and sends none.
            return Ok(ParsedFrame::Ignored);
        }
        if text::same(channel, "push.ticker") {
            let parsed = self.parse_ticker(root, text, received_at_ms);
            return providers::label(Provider::Mexc, parsed);
        }
        if text::same(channel, "push.funding.rate") {
            let parsed = self.parse_funding(root, text, received_at_ms);
            return providers::label(Provider::Mexc, parsed);
        }
        if text::same(channel, "push.kline") {
            let parsed = self.parse_candle(root, text, received_at_ms);
            return providers::label(Provider::Mexc, parsed);
        }
        Ok(ParsedFrame::Ignored)
    }
}

impl AdapterSession for MexcSession {
    open spec fn commands_for(&self, action: SubscriptionAction, keys: Seq<KeyView>) -> Result<
        Seq<CommandView>,
        AdapterErrorView,
    > {
        subscription_outcome(self.endpoint(), self@, action, keys).1
    }

    open spec fn after_change(
        &self,
        action: SubscriptionAction,
        keys: Seq<KeyView>,
        after: &Self,
    ) -> bool {
        &&& after.endpoint() == self.endpoint()
        &&& after@ == subscription_outcome(self.endpoint(), self@, action, keys).0
    }

    open spec fn sign_of_life(&self) -> HeartbeatView {
        HeartbeatView::Text("{\"method\":\"ping\"}"@)
    }

    open spec fn after_sign(&self, after: &Self) -> bool {
        after.endpoint() == self.endpoint() && after@ == self@
    }

    open spec fn frame_for(&self, text: Seq<char>, received_at_ms: u64) -> Result<
        FrameView,
        AdapterErrorView,
    > {
        text_frame(self@, text, received_at_ms).1
    }

    open spec fn after_frame(&self, text: Seq<char>, received_at_ms: u64, after: &Self) -> bool {
        after.endpoint() == self.endpoint() && after@ == text_frame(self@, text, received_at_ms).0
    }

    fn subscription_messages(
        &mut self,
        action: SubscriptionAction,
        subscriptions: &[SubscriptionKey],
    ) -> (r: Result<Vec<OutboundCommand>, AdapterError>)
        ensures
            final(self).endpoint() == old(self).endpoint(),
            providers::issues(
                final(self)@,
                r,
                subscription_outcome(
                    old(self).endpoint(),
                    old(self)@,
                    action,
                    domain::key_views(subscriptions@),
                ),
            ),
    {
        providers::validate_subscriptions(Provider::Mexc, subscriptions)?;
        if self.endpoint != EndpointKind::Primary {
            return Err(
                AdapterError::InvalidSubscription {
                    provider: Provider::Mexc,
                    message: text::cat3(
                        "subscriptions do not belong on the ",
                        self.endpoint.name(),
                        " endpoint",
                    ),
                },
            );
        }
        let sound = count_sound(subscriptions);
        if action == SubscriptionAction::Unsubscribe {
            providers::forget_all(&mut self.tickers, subscriptions, sound);
        }
        proof {
            let keys = domain::key_views(subscriptions@);
            assert(keys.take(keys.len() as int) =~= keys);
        }
        if sound < subscriptions.len() {
            if let Err(message) = validate_mexc_symbol(subscriptions[sound].symbol.as_str()) {
                return Err(AdapterError::InvalidSubscription { provider: Provider::Mexc, message });
            }
        }
        let natives = collect_natives(subscriptions);
        Ok(self.command_messages(action, &natives))
    }

    fn heartbeat(&mut self) -> (heartbeat: Heartbeat)
        ensures
            heartbeat@ == HeartbeatView::Text("{\"method\":\"ping\"}"@),
            final(self)@ == old(self)@,
            final(self).endpoint() == old(self).endpoint(),
    {
        Heartbeat::Text("{\"method\":\"ping\"}".to_owned())
    }

    fn parse(&mut self, text: &str, received_at_ms: u64) -> (r: Result<ParsedFrame, AdapterError>)
        ensures
            final(self).endpoint() == old(self).endpoint(),
            providers::concurs(final(self)@, r, text_frame(old(self)@, text@, received_at_ms)),
    {
        match json::read(text) {
            Ok(root) => self.parse_document(&root, text, received_at_ms),
            Err(message) => invalid(providers::complain("invalid JSON: ", message).as_str()),
        }
    }
}

impl ProviderAdapter for MexcAdapter {
    type Session = MexcSession;

    open spec fn venue(&self) -> Provider {
        Provider::Mexc
    }

    open spec fn route(&self, channel: Channel) -> EndpointKind {
        EndpointKind::Primary
    }

    open spec fn spread(&self) -> Seq<EndpointKind> {
        seq![EndpointKind::Primary]
    }

    open spec fn starts(
        &self,
        endpoint: EndpointKind,
        connection_epoch: u128,
        session: MexcSession,
    ) -> bool {
        &&& session@ == (MexcView {
            common: providers::fresh(connection_epoch),
            pending: Seq::empty(),
        })
        &&& session.endpoint() == endpoint
    }

    fn provider(&self) -> (provider: Provider) {
        Provider::Mexc
    }

    fn endpoints(&self) -> (list: Vec<EndpointKind>) {
        let list = MexcAdapter::endpoints(self);
        proof {
            assert(list@[0] == EndpointKind::Primary);
        }
        list
    }

    fn endpoint_for(&self, channel: Channel) -> (endpoint: EndpointKind) {
        MexcAdapter::endpoint_for(self, channel)
    }

    fn session(&self, endpoint: EndpointKind, connection_epoch: u128) -> (session: MexcSession) {
        MexcAdapter::session(self, endpoint, connection_epoch)
    }
}

} // verus!
