//! OKX V5 linear perpetual swaps.
use vstd::prelude::*;

use super::fields;
use crate::domain;
use crate::domain::{
    Candle, CandleFinality, CandleView, Channel, DecimalValue, KeyView, MarketPayload,
    ObservedDecimal, ObservedView, PayloadView, Provider, ProviderEvent, ProviderEventView,
    SubscriptionKey, TickerView, CANDLE_INTERVAL_MS,
};
use crate::json;
use crate::json::{Json, JsonView};
use crate::providers;
use crate::providers::{
    AdapterError, AdapterErrorView, AdapterSession, CommandView, Complaints, ConnectionTarget,
    EndpointKind, FrameView, Heartbeat, HeartbeatView, OutboundCommand, ParsedFrame,
    ProviderAdapter, SessionView, SubscriptionAction, TargetView, TickerCache,
};
use crate::table::Table;
use crate::text;

verus! {

pub const PRODUCTION_PUBLIC_URL: &'static str = "wss://ws.okx.com:8443/ws/v5/public";

pub const PRODUCTION_BUSINESS_URL: &'static str = "wss://ws.okx.com:8443/ws/v5/business";

pub const COMMAND_INTERVAL_MS: u64 = 400;

pub const SUBSCRIPTION_ACK_TIMEOUT_MS: u64 = 15_000;

pub const HEARTBEAT_INTERVAL_MS: u64 = 20_000;

pub const STALE_AFTER_MS: u64 = 45_000;

pub const COMMAND_ARGS_LIMIT: usize = 100;

pub const MAX_MESSAGE_BYTES: usize = 4_194_304;

/// Adapter for OKX V5 public linear-perpetual market streams.
#[derive(Debug)]
pub struct OkxAdapter {
    public_url: String,
    business_url: String,
}

impl OkxAdapter {
    /// The URL of an endpoint, where the venue has that endpoint.
    pub closed spec fn url_of(&self, endpoint: EndpointKind) -> Option<Seq<char>> {
        match endpoint {
            EndpointKind::Public => Some(self.public_url@),
            EndpointKind::Business => Some(self.business_url@),
            EndpointKind::Primary => None,
        }
    }

    /// Create an adapter using explicit V5 public and business WebSocket endpoints.
    pub fn new(public_url: String, business_url: String) -> (adapter: Self)
        ensures
            adapter.url_of(EndpointKind::Public) == Some(public_url@),
            adapter.url_of(EndpointKind::Business) == Some(business_url@),
            adapter.url_of(EndpointKind::Primary) is None,
    {
        OkxAdapter { public_url, business_url }
    }

    /// The venue.
    pub fn provider(&self) -> (provider: Provider)
        ensures
            provider == Provider::Okx,
    {
        Provider::Okx
    }

    /// The endpoints that the venue's streams are spread over.
    pub fn endpoints(&self) -> (list: Vec<EndpointKind>)
        ensures
            list@ == seq![EndpointKind::Public, EndpointKind::Business],
    {
        vec![EndpointKind::Public, EndpointKind::Business]
    }

    /// The endpoint of a channel.
    pub fn endpoint_for(&self, channel: Channel) -> (endpoint: EndpointKind)
        ensures
            endpoint == match channel {
                Channel::Ticker => EndpointKind::Public,
                Channel::Candle1m => EndpointKind::Business,
            },
    {
        match channel {
            Channel::Ticker => EndpointKind::Public,
            Channel::Candle1m => EndpointKind::Business,
        }
    }

    /// Where and how to connect.
    ///
    /// # Errors
    ///
    /// Returns [`AdapterError::UnsupportedEndpoint`] for the primary endpoint.
    pub fn connection_target(&self, endpoint: EndpointKind) -> (r: Result<
        ConnectionTarget,
        AdapterError,
    >)
        ensures
            match r {
                Ok(target) => self.url_of(endpoint) is Some && endpoint != EndpointKind::Primary
                    && target@ == (TargetView {
                    url: self.url_of(endpoint)->0,
                    command_interval_ms: COMMAND_INTERVAL_MS,
                    subscription_ack_timeout_ms: SUBSCRIPTION_ACK_TIMEOUT_MS,
                    heartbeat_interval_ms: HEARTBEAT_INTERVAL_MS,
                    stale_after_ms: STALE_AFTER_MS,
                    max_message_bytes: MAX_MESSAGE_BYTES,
                    rotate_after_ms: None,
                }),
                Err(error) => endpoint == EndpointKind::Primary && error@
                    == (AdapterErrorView::UnsupportedEndpoint {
                    provider: Provider::Okx,
                    endpoint,
                }),
            },
    {
        let url = match endpoint {
            EndpointKind::Public => self.public_url.clone(),
            EndpointKind::Business => self.business_url.clone(),
            EndpointKind::Primary => {
                return Err(AdapterError::UnsupportedEndpoint { provider: Provider::Okx, endpoint });
            },
        };
        Ok(
            ConnectionTarget {
                url,
                command_interval_ms: COMMAND_INTERVAL_MS,
                subscription_ack_timeout_ms: SUBSCRIPTION_ACK_TIMEOUT_MS,
                heartbeat_interval_ms: HEARTBEAT_INTERVAL_MS,
                stale_after_ms: STALE_AFTER_MS,
                max_message_bytes: MAX_MESSAGE_BYTES,
                rotate_after_ms: None,
            },
        )
    }

    /// A session for a new connection.
    pub fn session(&self, endpoint: EndpointKind, connection_epoch: u128) -> (session: OkxSession)
        ensures
            session@ == providers::fresh(connection_epoch),
            session.endpoint() == endpoint,
    {
        let session = OkxSession {
            endpoint,
            connection_epoch,
            next_command_id: 1,
            tickers: Table::new(),
        };
        proof {
            assert(providers::cached(session.tickers) =~= Map::empty());
        }
        session
    }
}

impl Default for OkxAdapter {
    /// An adapter for the official URLs.
    fn default() -> (adapter: Self)
        ensures
            adapter.url_of(EndpointKind::Public) == Some(PRODUCTION_PUBLIC_URL@),
            adapter.url_of(EndpointKind::Business) == Some(PRODUCTION_BUSINESS_URL@),
            adapter.url_of(EndpointKind::Primary) is None,
    {
        OkxAdapter::new(PRODUCTION_PUBLIC_URL.to_owned(), PRODUCTION_BUSINESS_URL.to_owned())
    }
}

/// One session on an OKX connection.
#[derive(Debug)]
pub struct OkxSession {
    endpoint: EndpointKind,
    connection_epoch: u128,
    next_command_id: u64,
    tickers: TickerCache,
}

impl View for OkxSession {
    type V = SessionView;

    closed spec fn view(&self) -> SessionView {
        SessionView {
            connection_epoch: self.connection_epoch,
            next_request_id: self.next_command_id,
            tickers: providers::cached(self.tickers),
        }
    }
}

// ---------------------------------------------------------------------------------------------
// Commands
// ---------------------------------------------------------------------------------------------

/// The mathematical value of a subscription argument: channel and instrument.
pub type ArgView = (Seq<char>, Seq<char>);

/// One argument of a subscription command.
#[derive(Debug)]
struct OkxSubscriptionArg {
    channel: &'static str,
    inst_id: String,
}

impl View for OkxSubscriptionArg {
    type V = ArgView;

    closed spec fn view(&self) -> ArgView {
        (self.channel@, self.inst_id@)
    }
}

/// Whether a text is a USDT or USDC linear perpetual symbol.
pub open spec fn is_linear(symbol: Seq<char>) -> bool {
    text::finishes_with(symbol, "-USDT-SWAP"@) || text::finishes_with(symbol, "-USDC-SWAP"@)
}

/// The complaint about any other symbol.
pub open spec fn not_linear(symbol: Seq<char>) -> Seq<char> {
    symbol + " is not an OKX USDT/USDC linear perpetual symbol"@
}

/// The error for a subscription that an endpoint does not take.
pub open spec fn refused(message: Seq<char>) -> AdapterErrorView {
    AdapterErrorView::InvalidSubscription { provider: Provider::Okx, message }
}

/// The arguments of a key on an endpoint.
pub open spec fn args_of(endpoint: EndpointKind, key: KeyView) -> Result<
    Seq<ArgView>,
    AdapterErrorView,
> {
    if !is_linear(key.symbol) {
        Err(refused(not_linear(key.symbol)))
    } else if endpoint == EndpointKind::Public && key.channel == Channel::Ticker {
        Ok(
            seq![
                ("tickers"@, key.symbol),
                ("mark-price"@, key.symbol),
                ("funding-rate"@, key.symbol),
            ],
        )
    } else if endpoint == EndpointKind::Business && key.channel == Channel::Candle1m {
        Ok(seq![("candle1m"@, key.symbol)])
    } else {
        Err(
            refused(
                domain::channel_name(key.channel) + " does not belong on the "@
                    + providers::endpoint_name(endpoint) + " endpoint"@,
            ),
        )
    }
}

/// The arguments of a run of keys, each once, in the order of their first occurrence.
pub open spec fn gathered_args(endpoint: EndpointKind, keys: Seq<KeyView>) -> Result<
    Seq<ArgView>,
    AdapterErrorView,
>
    decreases keys.len(),
{
    if keys.len() == 0 {
        Ok(Seq::empty())
    } else {
        match gathered_args(endpoint, keys.drop_last()) {
            Err(error) => Err(error),
            Ok(list) => match args_of(endpoint, keys.last()) {
                Err(error) => Err(error),
                Ok(args) => Ok(providers::with_all_new(list, args)),
            },
        }
    }
}

/// An error about a prefix of the keys is the error about all of them.
proof fn lemma_gathered_args_prefix(endpoint: EndpointKind, keys: Seq<KeyView>, count: int)
    requires
        0 <= count <= keys.len(),
        gathered_args(endpoint, keys.take(count)) is Err,
    ensures
        gathered_args(endpoint, keys) == gathered_args(endpoint, keys.take(count)),
    decreases keys.len(),
{
    if count < keys.len() {
        assert(keys.drop_last().take(count) =~= keys.take(count));
        lemma_gathered_args_prefix(endpoint, keys.drop_last(), count);
    } else {
        assert(keys.take(count) =~= keys);
    }
}

/// The native name of an action.
pub open spec fn operation_name(action: SubscriptionAction) -> Seq<char> {
    match action {
        SubscriptionAction::Subscribe => "subscribe"@,
        SubscriptionAction::Unsubscribe => "unsubscribe"@,
    }
}

/// An argument as a document.
pub open spec fn arg_document(arg: ArgView) -> JsonView {
    JsonView::Object(
        seq![("channel"@, JsonView::Text(arg.0)), ("instId"@, JsonView::Text(arg.1))],
    )
}

/// The command for a batch of arguments. OKX acknowledges each argument by itself.
pub open spec fn command(action: SubscriptionAction, batch: Seq<ArgView>, id: u64) -> CommandView {
    CommandView {
        request_id: text::digits(id as nat),
        text: json::text_of(
            JsonView::Object(
                seq![
                    ("id"@, JsonView::Text(text::digits(id as nat))),
                    ("op"@, JsonView::Text(operation_name(action))),
                    (
                        "args"@,
                        JsonView::List(Seq::new(batch.len(), |i: int| arg_document(batch[i]))),
                    ),
                ],
            ),
        ),
        expected_acknowledgements: batch.len() as usize,
    }
}

/// The commands for a run of batches, numbered from a given number on.
pub open spec fn commands(
    action: SubscriptionAction,
    parts: Seq<Seq<ArgView>>,
    id: u64,
) -> Seq<CommandView> {
    Seq::new(
        parts.len(),
        |i: int| command(action, parts[i], providers::id_after(id, i as nat)),
    )
}

/// What a subscription change makes of a session and which commands it gives.
pub open spec fn subscription_outcome(
    endpoint: EndpointKind,
    state: SessionView,
    action: SubscriptionAction,
    keys: Seq<KeyView>,
) -> (SessionView, Result<Seq<CommandView>, AdapterErrorView>) {
    match providers::foreign_problem(Provider::Okx, keys) {
        Some(error) => (state, Err(error)),
        None => match gathered_args(endpoint, keys) {
            Err(error) => (state, Err(error)),
            Ok(args) => {
                let parts = providers::chunks(args, COMMAND_ARGS_LIMIT as nat);
                (
                    SessionView {
                        next_request_id: providers::id_after(state.next_request_id, parts.len()),
                        tickers: providers::tickers_after(state.tickers, action, keys),
                        ..state
                    },
                    Ok(commands(action, parts, state.next_request_id)),
                )
            },
        },
    }
}

// ---------------------------------------------------------------------------------------------
// What frames mean
// ---------------------------------------------------------------------------------------------

/// The text of that name, or another one where there is none.
pub open spec fn text_or(value: JsonView, name: Seq<char>, other: Seq<char>) -> Seq<char> {
    match json::member_text(value, name) {
        Some(text) => text,
        None => other,
    }
}

/// The meaning of a command response.
pub open spec fn command_response(event: JsonView, object: JsonView) -> Result<
    FrameView,
    AdapterErrorView,
> {
    match event {
        JsonView::Text(event) => if event == "subscribe"@ || event == "unsubscribe"@ {
            let request_id = json::text_at(object, "id"@);
            if request_id.len() > 0 && text::byte_length(request_id) <= 32 {
                Ok(FrameView::Acknowledgement { request_id })
            } else {
                Err(
                    providers::invalid_data(
                        Provider::Okx,
                        "command response is missing a valid id"@,
                    ),
                )
            }
        } else if event == "error"@ {
            Err(
                providers::rejected(
                    Provider::Okx,
                    "code "@ + text_or(object, "code"@, "unknown"@) + ": "@ + text_or(
                        object,
                        "msg"@,
                        "unknown error"@,
                    ),
                ),
            )
        } else {
            Ok(FrameView::Ignored)
        },
        _ => Err(providers::invalid_data(Provider::Okx, "event must be a string"@)),
    }
}

/// Why a value is no timestamp.
pub open spec fn timestamp_problem(value: JsonView, field: Seq<char>) -> Option<Seq<char>> {
    fields::scalar_problem(value, field).or_next(
        providers::unless(
            text::unsigned_problem(fields::scalar(value)) is None,
            fields::no_unsigned(field),
        ),
    )
}

/// The timestamp that a value is.
pub open spec fn timestamp(value: JsonView) -> u64 {
    text::digits_value(text::unsigned_run(fields::scalar(value))) as u64
}

/// Whether an object gives a value of that name: present, not null and not the empty text.
pub open spec fn given(object: JsonView, name: Seq<char>) -> bool {
    json::member_of(object, name) is Some && !fields::is_blank(json::value_at(object, name))
}

/// Why an optional timestamp cannot be read.
pub open spec fn optional_timestamp_problem(object: JsonView, name: Seq<char>) -> Option<Seq<char>> {
    if given(object, name) {
        timestamp_problem(json::value_at(object, name), name)
    } else {
        None
    }
}

/// An optional timestamp.
pub open spec fn optional_timestamp(object: JsonView, name: Seq<char>) -> Option<u64> {
    if given(object, name) {
        Some(timestamp(json::value_at(object, name)))
    } else {
        None
    }
}

/// Why a value is no decimal text.
pub open spec fn decimal_problem(value: JsonView, field: Seq<char>) -> Option<Seq<char>> {
    fields::scalar_problem(value, field).or_next(
        fields::plain_decimal_problem(fields::scalar(value)),
    )
}

/// Why an optional price cannot be read.
pub open spec fn optional_price_problem(object: JsonView, name: Seq<char>) -> Option<Seq<char>> {
    if given(object, name) {
        decimal_problem(json::value_at(object, name), name)
    } else {
        None
    }
}

/// A price after an update: the new one where one is given, the old one otherwise.
pub open spec fn price_after(
    before: Option<ObservedView>,
    object: JsonView,
    name: Seq<char>,
    time: u64,
) -> Option<ObservedView> {
    if given(object, name) {
        providers::observed(fields::scalar(json::value_at(object, name)), time)
    } else {
        before
    }
}

/// Why an item does not belong to a topic.
pub open spec fn identity_problem(item: JsonView, symbol: Seq<char>) -> Option<Seq<char>> {
    let kind = json::member_text(item, "instType"@);
    fields::string_problem(item, "instId"@)
        .or_next(providers::unless(
            json::text_at(item, "instId"@) == symbol,
            "payload symbol "@ + json::text_at(item, "instId"@) + " does not match topic symbol "@
                + symbol,
        ))
        .or_next(match kind {
            Some(kind) => providers::unless(
                kind == "SWAP"@,
                "expected SWAP instrument, got "@ + kind,
            ),
            None => None,
        })
        .or_next(fields::value_problem(item, "ts"@))
        .or_next(timestamp_problem(json::value_at(item, "ts"@), "ts"@))
}

/// The time of an item.
pub open spec fn item_time(item: JsonView) -> u64 {
    timestamp(json::value_at(item, "ts"@))
}

/// A channel whose items update the kept ticker.
#[derive(Debug, Clone, Copy, PartialEq, Eq, Structural)]
pub enum TickerChannel {
    Tickers,
    MarkPrice,
    FundingRate,
}

/// The name of a channel's items in complaints.
pub open spec fn item_name(channel: TickerChannel) -> Seq<char> {
    match channel {
        TickerChannel::Tickers => "ticker item must be an object"@,
        TickerChannel::MarkPrice => "mark-price item must be an object"@,
        TickerChannel::FundingRate => "funding-rate item must be an object"@,
    }
}

/// Why an item is refused.
pub open spec fn item_problem(channel: TickerChannel, item: JsonView, symbol: Seq<char>) -> Option<
    Seq<char>,
> {
    providers::unless(item is Object, item_name(channel))
        .or_next(identity_problem(item, symbol))
        .or_next(match channel {
            TickerChannel::Tickers => optional_price_problem(item, "last"@)
                .or_next(optional_price_problem(item, "bidPx"@))
                .or_next(optional_price_problem(item, "askPx"@))
                .or_next(providers::unless(
                    given(item, "last"@) || given(item, "bidPx"@) || given(item, "askPx"@),
                    "ticker item contains no usable price"@,
                )),
            TickerChannel::MarkPrice => fields::value_problem(item, "markPx"@).or_next(
                decimal_problem(json::value_at(item, "markPx"@), "markPx"@),
            ),
            TickerChannel::FundingRate => fields::value_problem(item, "fundingRate"@)
                .or_next(decimal_problem(json::value_at(item, "fundingRate"@), "fundingRate"@))
                .or_next(optional_timestamp_problem(item, "fundingTime"@))
                .or_next(optional_timestamp_problem(item, "nextFundingTime"@)),
        })
}

/// The kept ticker after an item.
pub open spec fn ticker_after(channel: TickerChannel, base: TickerView, item: JsonView) -> TickerView {
    let time = item_time(item);
    match channel {
        TickerChannel::Tickers => TickerView {
            last: price_after(base.last, item, "last"@, time),
            bid: price_after(base.bid, item, "bidPx"@, time),
            ask: price_after(base.ask, item, "askPx"@, time),
            ..base
        },
        TickerChannel::MarkPrice => TickerView {
            mark: providers::observed(fields::scalar(json::value_at(item, "markPx"@)), time),
            ..base
        },
        TickerChannel::FundingRate => TickerView {
            funding_rate: providers::observed(
                fields::scalar(json::value_at(item, "fundingRate"@)),
                time,
            ),
            next_funding_time_ms: match optional_timestamp(item, "fundingTime"@) {
                Some(time) => Some(time),
                None => optional_timestamp(item, "nextFundingTime"@),
            },
            ..base
        },
    }
}

/// An update of OKX.
pub open spec fn okx_event(
    connection_epoch: u128,
    symbol: Seq<char>,
    time: u64,
    received_at_ms: u64,
    payload: PayloadView,
) -> ProviderEventView {
    providers::event_view(
        connection_epoch,
        Provider::Okx,
        symbol,
        Some(time),
        received_at_ms,
        None,
        payload,
    )
}

/// What a run of items does and means. Items before a refused one have been taken in.
pub open spec fn items_along(
    state: SessionView,
    channel: TickerChannel,
    items: Seq<JsonView>,
    symbol: Seq<char>,
    received_at_ms: u64,
) -> (SessionView, Result<Seq<ProviderEventView>, Seq<char>>)
    decreases items.len(),
{
    if items.len() == 0 {
        (state, Ok(Seq::empty()))
    } else {
        let (before, outcome) = items_along(
            state,
            channel,
            items.drop_last(),
            symbol,
            received_at_ms,
        );
        let item = items.last();
        match outcome {
            Err(message) => (before, Err(message)),
            Ok(events) => match item_problem(channel, item, symbol) {
                Some(message) => (before, Err(message)),
                None => {
                    let ticker = ticker_after(
                        channel,
                        providers::known(before.tickers, symbol),
                        item,
                    );
                    (
                        providers::keeping(before, symbol, ticker),
                        Ok(
                            events.push(
                                okx_event(
                                    state.connection_epoch,
                                    symbol,
                                    item_time(item),
                                    received_at_ms,
                                    PayloadView::Ticker(ticker),
                                ),
                            ),
                        ),
                    )
                },
            },
        }
    }
}

/// What happens along a prefix of the items up to a refused one is what happens along all.
proof fn lemma_items_along_prefix(
    state: SessionView,
    channel: TickerChannel,
    items: Seq<JsonView>,
    count: int,
    symbol: Seq<char>,
    received_at_ms: u64,
)
    requires
        0 <= count <= items.len(),
        items_along(state, channel, items.take(count), symbol, received_at_ms).1 is Err,
    ensures
        items_along(state, channel, items, symbol, received_at_ms) == items_along(
            state,
            channel,
            items.take(count),
            symbol,
            received_at_ms,
        ),
    decreases items.len(),
{
    if count < items.len() {
        assert(items.drop_last().take(count) =~= items.take(count));
        lemma_items_along_prefix(
            state,
            channel,
            items.drop_last(),
            count,
            symbol,
            received_at_ms,
        );
    } else {
        assert(items.take(count) =~= items);
    }
}

/// Why an optional volume cannot be read.
pub open spec fn volume_problem(value: JsonView, field: Seq<char>) -> Option<Seq<char>> {
    if fields::is_blank(value) {
        None
    } else {
        decimal_problem(value, field)
    }
}

/// An optional volume.
pub open spec fn volume(value: JsonView) -> Option<Seq<char>> {
    if fields::is_blank(value) {
        None
    } else {
        Some(fields::scalar(value))
    }
}

/// Why a candle is refused.
pub open spec fn candle_problem(item: JsonView) -> Option<Seq<char>> {
    match item {
        JsonView::List(values) => if values.len() != 9 {
            Some("candle item must contain 9 fields, got "@ + text::digits(values.len()))
        } else {
            timestamp_problem(values[0], "candle start time"@)
                .or_next(providers::unless(
                    timestamp(values[0]) <= u64::MAX - CANDLE_INTERVAL_MS,
                    "candle end time overflow"@,
                ))
                .or_next(fields::scalar_problem(values[8], "candle confirmation"@))
                .or_next(providers::unless(
                    fields::scalar(values[8]) == "0"@ || fields::scalar(values[8]) == "1"@,
                    "invalid candle confirmation: "@ + fields::scalar(values[8]),
                ))
                .or_next(decimal_problem(values[1], "candle open"@))
                .or_next(decimal_problem(values[2], "candle high"@))
                .or_next(decimal_problem(values[3], "candle low"@))
                .or_next(decimal_problem(values[4], "candle close"@))
                .or_next(volume_problem(values[5], "contract volume"@))
                .or_next(volume_problem(values[6], "base volume"@))
                .or_next(volume_problem(values[7], "quote volume"@))
        },
        _ => Some("candle item must be an array"@),
    }
}

/// The candle of an item.
pub open spec fn item_candle(item: JsonView) -> CandleView {
    let values = item->List_0;
    CandleView {
        interval: "1m"@,
        start_time_ms: timestamp(values[0]),
        end_time_ms: (timestamp(values[0]) + CANDLE_INTERVAL_MS) as u64,
        open: fields::scalar(values[1]),
        high: fields::scalar(values[2]),
        low: fields::scalar(values[3]),
        close: fields::scalar(values[4]),
        base_volume: volume(values[6]),
        quote_volume: volume(values[7]),
        contract_volume: volume(values[5]),
        finality: if fields::scalar(values[8]) == "0"@ {
            CandleFinality::Open
        } else {
            CandleFinality::Closed
        },
        data_quality: Seq::empty(),
    }
}

/// The events of a run of candles.
pub open spec fn candle_events(
    connection_epoch: u128,
    symbol: Seq<char>,
    received_at_ms: u64,
    items: Seq<JsonView>,
) -> Seq<ProviderEventView> {
    Seq::new(
        items.len(),
        |i: int|
            okx_event(
                connection_epoch,
                symbol,
                item_candle(items[i]).start_time_ms,
                received_at_ms,
                PayloadView::Candle(item_candle(items[i])),
            ),
    )
}

/// What candle items mean.
pub open spec fn candles_frame(
    connection_epoch: u128,
    symbol: Seq<char>,
    received_at_ms: u64,
    items: Seq<JsonView>,
) -> Result<FrameView, Seq<char>> {
    match providers::first_complaint(items, |item: JsonView| candle_problem(item)) {
        Some(message) => Err(message),
        None => Ok(
            FrameView::Events(candle_events(connection_epoch, symbol, received_at_ms, items)),
        ),
    }
}

/// What ticker items do and mean.
pub open spec fn items_frame(
    state: SessionView,
    channel: TickerChannel,
    items: Seq<JsonView>,
    symbol: Seq<char>,
    received_at_ms: u64,
) -> (SessionView, Result<FrameView, Seq<char>>) {
    let (after, outcome) = items_along(state, channel, items, symbol, received_at_ms);
    match outcome {
        Err(message) => (after, Err(message)),
        Ok(events) => (after, Ok(FrameView::Events(events))),
    }
}

/// What a data message does and means.
pub open spec fn data_frame(state: SessionView, object: JsonView, received_at_ms: u64) -> (
    SessionView,
    Result<FrameView, Seq<char>>,
) {
    let argument = json::value_at(object, "arg"@);
    let channel = json::text_at(argument, "channel"@);
    let symbol = json::text_at(argument, "instId"@);
    let items = json::list_at(object, "data"@);
    let problem = fields::object_problem(object, "arg"@)
        .or_next(fields::string_problem(argument, "channel"@))
        .or_next(fields::string_problem(argument, "instId"@))
        .or_next(providers::unless(is_linear(symbol), not_linear(symbol)))
        .or_next(providers::unless(
            json::member_list(object, "data"@) is Some,
            "data must be an array"@,
        ));
    if let Some(message) = problem {
        (state, Err(message))
    } else if items.len() == 0 {
        (state, Ok(FrameView::Events(Seq::empty())))
    } else if channel == "tickers"@ {
        items_frame(state, TickerChannel::Tickers, items, symbol, received_at_ms)
    } else if channel == "mark-price"@ {
        items_frame(state, TickerChannel::MarkPrice, items, symbol, received_at_ms)
    } else if channel == "funding-rate"@ {
        items_frame(state, TickerChannel::FundingRate, items, symbol, received_at_ms)
    } else if channel == "candle1m"@ {
        (state, candles_frame(state.connection_epoch, symbol, received_at_ms, items))
    } else {
        (state, Ok(FrameView::Ignored))
    }
}

/// What a document does and means.
pub open spec fn document_frame(state: SessionView, root: JsonView, received_at_ms: u64) -> (
    SessionView,
    Result<FrameView, AdapterErrorView>,
) {
    if !(root is Object) {
        providers::labelled(Provider::Okx, (state, Err("message must be a JSON object"@)))
    } else {
        match json::member_of(root, "event"@) {
            Some(event) => (state, command_response(event, root)),
            None => providers::labelled(Provider::Okx, data_frame(state, root, received_at_ms)),
        }
    }
}

/// What a text frame does and means.
pub open spec fn text_frame(state: SessionView, text: Seq<char>, received_at_ms: u64) -> (
    SessionView,
    Result<FrameView, AdapterErrorView>,
) {
    if text::trimmed(text) == "pong"@ {
        (state, Ok(FrameView::Pong))
    } else {
        match json::document_of(text) {
            Err(message) => providers::labelled(
                Provider::Okx,
                (state, Err("invalid JSON: "@ + message)),
            ),
            Ok(root) => document_frame(state, root, received_at_ms),
        }
    }
}

/// Along a run of items the connection stays, and every update is stamped.
proof fn lemma_items_are_stamped(
    state: SessionView,
    channel: TickerChannel,
    items: Seq<JsonView>,
    symbol: Seq<char>,
    received_at_ms: u64,
)
    ensures
        ({
            let (after, outcome) = items_along(state, channel, items, symbol, received_at_ms);
            &&& after.connection_epoch == state.connection_epoch
            &&& outcome matches Ok(events) ==> forall|i: int|
                0 <= i < events.len() ==> providers::is_stamped(
                    #[trigger] events[i],
                    Provider::Okx,
                    state.connection_epoch,
                    received_at_ms,
                )
        }),
    decreases items.len(),
{
    if items.len() > 0 {
        lemma_items_are_stamped(state, channel, items.drop_last(), symbol, received_at_ms);
    }
}

/// Every update that a frame of OKX gives names the venue, the connection it came over and when
/// it was received; a frame changes no connection.
pub proof fn law_updates_are_stamped(state: SessionView, text: Seq<char>, received_at_ms: u64)
    ensures
        text_frame(state, text, received_at_ms).0.connection_epoch == state.connection_epoch,
        text_frame(state, text, received_at_ms).1 matches Ok(frame) ==> {
            &&& providers::has_stamps(
                frame,
                Provider::Okx,
                state.connection_epoch,
                received_at_ms,
            )
        },
{
    if let Ok(object) = json::document_of(text) {
        let symbol = json::text_at(json::value_at(object, "arg"@), "instId"@);
        let items = json::list_at(object, "data"@);
        lemma_items_are_stamped(state, TickerChannel::Tickers, items, symbol, received_at_ms);
        lemma_items_are_stamped(state, TickerChannel::MarkPrice, items, symbol, received_at_ms);
        lemma_items_are_stamped(state, TickerChannel::FundingRate, items, symbol, received_at_ms);
    }
}

/// An item of one channel touches nothing that another channel tells: no price stands in for
/// another.
pub proof fn law_no_price_stands_in_for_another(base: TickerView, item: JsonView)
    ensures
        ({
            let after = ticker_after(TickerChannel::Tickers, base, item);
            &&& after.mark == base.mark
            &&& after.index == base.index
            &&& after.funding_rate == base.funding_rate
            &&& after.next_funding_time_ms == base.next_funding_time_ms
        }),
        ({
            let after = ticker_after(TickerChannel::MarkPrice, base, item);
            after == (TickerView { mark: after.mark, ..base })
        }),
        ({
            let after = ticker_after(TickerChannel::FundingRate, base, item);
            after == (TickerView {
                funding_rate: after.funding_rate,
                next_funding_time_ms: after.next_funding_time_ms,
                ..base
            })
        }),
{
}

// ---------------------------------------------------------------------------------------------
// The session
// ---------------------------------------------------------------------------------------------

/// The error for data that OKX should not have sent.
fn invalid<T>(message: &str) -> (r: Result<T, AdapterError>)
    ensures
        r is Err && r->Err_0@ == providers::invalid_data(Provider::Okx, message@),
{
    Err(providers::invalid_payload(Provider::Okx, message.to_owned()))
}

/// Check that a symbol is a linear perpetual.
fn validate_okx_symbol(symbol: &str) -> (r: Result<(), String>)
    ensures
        match r {
            Ok(_) => is_linear(symbol@),
            Err(message) => !is_linear(symbol@) && message@ == not_linear(symbol@),
        },
{
    if text::ends_with(symbol, "-USDT-SWAP") || text::ends_with(symbol, "-USDC-SWAP") {
        Ok(())
    } else {
        Err(text::cat2(symbol, " is not an OKX USDT/USDC linear perpetual symbol"))
    }
}

/// The values of a run of arguments.
spec fn arg_views(list: Seq<OkxSubscriptionArg>) -> Seq<ArgView> {
    list.map_values(|arg: OkxSubscriptionArg| arg@)
}

/// Put an argument at the end of a list that does not have it yet.
fn push_new_arg(list: &mut Vec<OkxSubscriptionArg>, channel: &'static str, symbol: &str)
    ensures
        arg_views(final(list)@) == providers::with_new(arg_views(old(list)@), (channel@, symbol@)),
{
    let mut i: usize = 0;
    while i < list.len()
        invariant
            i <= list@.len(),
            list@ == old(list)@,
            forall|k: int| 0 <= k < i ==> (#[trigger] list@[k])@ != (channel@, symbol@),
        decreases list.len() - i,
    {
        if text::same(list[i].channel, channel) && text::same(list[i].inst_id.as_str(), symbol) {
            proof {
                assert(arg_views(list@)[i as int] == (channel@, symbol@));
            }
            return;
        }
        i += 1;
    }
    let ghost before = arg_views(list@);
    proof {
        if before.contains((channel@, symbol@)) {
            let k = choose|k: int| 0 <= k < before.len() && before[k] == (channel@, symbol@);
            assert(list@[k]@ == before[k]);
        }
    }
    list.push(OkxSubscriptionArg { channel, inst_id: symbol.to_owned() });
    proof {
        assert(arg_views(list@) =~= before.push((channel@, symbol@)));
    }
}

/// Adding two and three items one after the other.
proof fn lemma_with_all_new(list: Seq<ArgView>, a: ArgView, b: ArgView, c: ArgView)
    ensures
        providers::with_all_new(list, seq![a]) == providers::with_new(list, a),
        providers::with_all_new(list, seq![a, b, c]) == providers::with_new(
            providers::with_new(providers::with_new(list, a), b),
            c,
        ),
{
    reveal_with_fuel(providers::with_all_new, 4);
    assert(seq![a, b, c].drop_last() =~= seq![a, b]);
    assert(seq![a, b].drop_last() =~= seq![a]);
    assert(seq![a].drop_last() =~= Seq::empty());
}

/// Read a timestamp.
fn parse_timestamp(value: &Json, field: &str) -> (r: Result<u64, String>)
    ensures
        match r {
            Ok(time) => timestamp_problem(value@, field@) is None && time == timestamp(value@),
            Err(message) => timestamp_problem(value@, field@) == Some(message@),
        },
{
    let text = fields::required_scalar(value, field)?;
    match text::parse_unsigned(text) {
        Ok(time) => Ok(time),
        Err(_) => Err(fields::complain_no_unsigned(field)),
    }
}

/// The value of that name, where one is given.
fn find_given<'a>(object: &'a Json, name: &str) -> (found: Option<&'a Json>)
    ensures
        match found {
            Some(value) => given(object@, name@) && value@ == json::value_at(object@, name@),
            None => !given(object@, name@),
        },
{
    match object.member(name) {
        Some(value) => if fields::blank(value) {
            None
        } else {
            Some(value)
        },
        None => None,
    }
}

/// Read an optional timestamp.
fn read_optional_timestamp(object: &Json, name: &str) -> (r: Result<Option<u64>, String>)
    ensures
        match r {
            Ok(time) => {
                &&& optional_timestamp_problem(object@, name@) is None
                &&& time == optional_timestamp(object@, name@)
            },
            Err(message) => optional_timestamp_problem(object@, name@) == Some(message@),
        },
{
    match find_given(object, name) {
        Some(value) => Ok(Some(parse_timestamp(value, name)?)),
        None => Ok(None),
    }
}

/// Read a decimal.
fn decimal(value: &Json, field: &str) -> (r: Result<DecimalValue, String>)
    ensures
        match r {
            Ok(decimal) => {
                &&& decimal_problem(value@, field@) is None
                &&& decimal@ == fields::scalar(value@)
            },
            Err(message) => decimal_problem(value@, field@) == Some(message@),
        },
{
    let text = fields::required_scalar(value, field)?;
    fields::plain_decimal(text)
}

/// Read an optional price.
fn read_optional_price(object: &Json, name: &str, time: u64) -> (r: Result<
    Option<ObservedDecimal>,
    String,
>)
    ensures
        match r {
            Ok(price) => {
                &&& optional_price_problem(object@, name@) is None
                &&& (price is Some) == given(object@, name@)
                &&& forall|before: Option<ObservedView>|
                    price is Some ==> domain::observed_view(price) == #[trigger] price_after(
                        before,
                        object@,
                        name@,
                        time,
                    )
            },
            Err(message) => optional_price_problem(object@, name@) == Some(message@),
        },
{
    match find_given(object, name) {
        Some(value) => {
            let value = decimal(value, name)?;
            Ok(Some(ObservedDecimal { value, observed_at_ms: time }))
        },
        None => Ok(None),
    }
}

/// Check that an item belongs to a topic, and read its time.
fn parse_item_identity(item: &Json, symbol: &str) -> (r: Result<u64, String>)
    ensures
        match r {
            Ok(time) => identity_problem(item@, symbol@) is None && time == item_time(item@),
            Err(message) => identity_problem(item@, symbol@) == Some(message@),
        },
{
    let found = fields::required_string(item, "instId")?;
    if !text::same(found, symbol) {
        return Err(
            text::cat4("payload symbol ", found, " does not match topic symbol ", symbol),
        );
    }
    if let Some(kind) = json::find_text(item, "instType") {
        if !text::same(kind, "SWAP") {
            return Err(text::cat2("expected SWAP instrument, got ", kind));
        }
    }
    let value = fields::required_value(item, "ts")?;
    parse_timestamp(value, "ts")
}

/// Read an optional volume.
fn optional_decimal_value(value: &Json, field: &str) -> (r: Result<Option<DecimalValue>, String>)
    ensures
        match r {
            Ok(decimal) => {
                &&& volume_problem(value@, field@) is None
                &&& domain::decimal_view(decimal) == volume(value@)
            },
            Err(message) => volume_problem(value@, field@) == Some(message@),
        },
{
    if fields::blank(value) {
        return Ok(None);
    }
    Ok(Some(decimal(value, field)?))
}

/// The candle of an item.
fn parse_candle(item: &Json) -> (r: Result<Candle, String>)
    ensures
        match r {
            Ok(candle) => candle_problem(item@) is None && candle@ == item_candle(item@),
            Err(message) => candle_problem(item@) == Some(message@),
        },
{
    let values = match item.as_list() {
        Some(values) => values,
        None => {
            return Err("candle item must be an array".to_owned());
        },
    };
    if values.len() != 9 {
        return Err(
            text::cat2(
                "candle item must contain 9 fields, got ",
                text::unsigned_text(values.len() as u64).as_str(),
            ),
        );
    }
    let start_time_ms = parse_timestamp(&values[0], "candle start time")?;
    if start_time_ms > u64::MAX - CANDLE_INTERVAL_MS {
        return Err("candle end time overflow".to_owned());
    }
    let end_time_ms = start_time_ms + CANDLE_INTERVAL_MS;
    let confirmation = fields::required_scalar(&values[8], "candle confirmation")?;
    let finality = if text::same(confirmation, "0") {
        CandleFinality::Open
    } else if text::same(confirmation, "1") {
        CandleFinality::Closed
    } else {
        return Err(text::cat2("invalid candle confirmation: ", confirmation));
    };
    let open = decimal(&values[1], "candle open")?;
    let high = decimal(&values[2], "candle high")?;
    let low = decimal(&values[3], "candle low")?;
    let close = decimal(&values[4], "candle close")?;
    let contract_volume = optional_decimal_value(&values[5], "contract volume")?;
    let base_volume = optional_decimal_value(&values[6], "base volume")?;
    let quote_volume = optional_decimal_value(&values[7], "quote volume")?;
    let candle = Candle {
        interval: "1m".to_owned(),
        start_time_ms,
        end_time_ms,
        open,
        high,
        low,
        close,
        base_volume,
        quote_volume,
        contract_volume,
        finality,
        data_quality: Vec::new(),
    };
    proof {
        assert(candle.data_quality@ =~= Seq::empty());
    }
    Ok(candle)
}

/// The meaning of a command response.
fn parse_command_response(event: &Json, object: &Json) -> (r: Result<ParsedFrame, AdapterError>)
    ensures
        match r {
            Ok(frame) => command_response(event@, object@) == Ok::<FrameView, AdapterErrorView>(
                frame@,
            ),
            Err(error) => command_response(event@, object@) == Err::<FrameView, AdapterErrorView>(
                error@,
            ),
        },
{
    let event = match event.as_text() {
        Some(event) => event,
        None => {
            return invalid("event must be a string");
        },
    };
    if text::same(event, "subscribe") || text::same(event, "unsubscribe") {
        if let Some(request_id) = json::find_text(object, "id") {
            if !request_id.is_empty() && text::length(request_id) <= 32 {
                return Ok(ParsedFrame::Acknowledgement { request_id: request_id.to_owned() });
            }
        }
        return invalid("command response is missing a valid id");
    }
    if text::same(event, "error") {
        let code = match json::find_text(object, "code") {
            Some(code) => code,
            None => "unknown",
        };
        let message = match json::find_text(object, "msg") {
            Some(message) => message,
            None => "unknown error",
        };
        return Err(
            providers::command_rejected(Provider::Okx, text::cat4("code ", code, ": ", message)),
        );
    }
    Ok(ParsedFrame::Ignored)
}

/// The command for a batch of arguments.
fn build_command(action: SubscriptionAction, batch: &Vec<OkxSubscriptionArg>, id: u64) -> (made:
    OutboundCommand)
    ensures
        made@ == command(action, arg_views(batch@), id),
{
    let request_id = text::unsigned_text(id);
    let operation = match action {
        SubscriptionAction::Subscribe => "subscribe",
        SubscriptionAction::Unsubscribe => "unsubscribe",
    };
    let mut args: Vec<Json> = Vec::new();
    let ghost all = arg_views(batch@);
    let mut i: usize = 0;
    while i < batch.len()
        invariant
            i <= batch@.len(),
            all == arg_views(batch@),
            args@.len() == i,
            forall|k: int| 0 <= k < i ==> (#[trigger] args@[k])@ == arg_document(all[k]),
        decreases batch.len() - i,
    {
        let arg = &batch[i];
        args.push(
            providers::object2(
                providers::member("channel", Json::Text(arg.channel.to_owned())),
                providers::member("instId", Json::Text(arg.inst_id.clone())),
            ),
        );
        i += 1;
    }
    let list = Json::List(args);
    proof {
        assert(list@->List_0 =~= Seq::new(all.len(), |i: int| arg_document(all[i])));
    }
    let document = providers::object3(
        providers::member("id", Json::Text(request_id.clone())),
        providers::member("op", Json::Text(operation.to_owned())),
        providers::member("args", list),
    );
    OutboundCommand {
        request_id,
        text: json::write(&document),
        expected_acknowledgements: batch.len(),
    }
}

impl OkxSession {
    /// The endpoint that the session is on.
    pub closed spec fn endpoint(&self) -> EndpointKind {
        self.endpoint
    }

    /// The arguments of a list of keys.
    fn subscription_args(&self, subscriptions: &[SubscriptionKey]) -> (r: Result<
        Vec<OkxSubscriptionArg>,
        AdapterError,
    >)
        ensures
            match r {
                Ok(list) => gathered_args(self.endpoint(), domain::key_views(subscriptions@))
                    == Ok::<Seq<ArgView>, AdapterErrorView>(arg_views(list@)),
                Err(error) => gathered_args(self.endpoint(), domain::key_views(subscriptions@))
                    == Err::<Seq<ArgView>, AdapterErrorView>(error@),
            },
    {
        let ghost keys = domain::key_views(subscriptions@);
        let mut args: Vec<OkxSubscriptionArg> = Vec::new();
        let mut i: usize = 0;
        proof {
            assert(keys.take(0) =~= Seq::empty());
            assert(arg_views(args@) =~= Seq::empty());
        }
        while i < subscriptions.len()
            invariant
                i <= subscriptions@.len(),
                keys == domain::key_views(subscriptions@),
                gathered_args(self.endpoint(), keys.take(i as int)) == Ok::<
                    Seq<ArgView>,
                    AdapterErrorView,
                >(arg_views(args@)),
            decreases subscriptions.len() - i,
        {
            let key = &subscriptions[i];
            let symbol = key.symbol.as_str();
            proof {
                let longer = keys.take(i + 1);
                assert(longer.drop_last() =~= keys.take(i as int));
                assert(longer.last() == key@);
                if args_of(self.endpoint(), key@) is Err {
                    lemma_gathered_args_prefix(self.endpoint(), keys, i + 1);
                }
                lemma_with_all_new(
                    arg_views(args@),
                    ("tickers"@, symbol@),
                    ("mark-price"@, symbol@),
                    ("funding-rate"@, symbol@),
                );
                lemma_with_all_new(
                    arg_views(args@),
                    ("candle1m"@, symbol@),
                    ("candle1m"@, symbol@),
                    ("candle1m"@, symbol@),
                );
            }
            if let Err(message) = validate_okx_symbol(symbol) {
                return Err(
                    AdapterError::InvalidSubscription { provider: Provider::Okx, message },
                );
            }
            if self.endpoint == EndpointKind::Public && key.channel == Channel::Ticker {
                push_new_arg(&mut args, "tickers", symbol);
                push_new_arg(&mut args, "mark-price", symbol);
                push_new_arg(&mut args, "funding-rate", symbol);
            } else if self.endpoint == EndpointKind::Business && key.channel
                == Channel::Candle1m {
                push_new_arg(&mut args, "candle1m", symbol);
            } else {
                return Err(
                    AdapterError::InvalidSubscription {
                        provider: Provider::Okx,
                        message: text::cat4(
                            key.channel.name(),
                            " does not belong on the ",
                            self.endpoint.name(),
                            " endpoint",
                        ),
                    },
                );
            }
            i += 1;
        }
        proof {
            assert(keys.take(i as int) =~= keys);
        }
        Ok(args)
    }

    /// The commands for a list of arguments.
    fn command_messages(
        &mut self,
        action: SubscriptionAction,
        args: Vec<OkxSubscriptionArg>,
    ) -> (list: Vec<OutboundCommand>)
        ensures
            ({
                let parts = providers::chunks(arg_views(args@), COMMAND_ARGS_LIMIT as nat);
                &&& providers::command_views(list@) == commands(
                    action,
                    parts,
                    old(self)@.next_request_id,
                )
                &&& final(self)@ == (SessionView {
                    next_request_id: providers::id_after(old(self)@.next_request_id, parts.len()),
                    ..old(self)@
                })
                &&& final(self).endpoint() == old(self).endpoint()
            }),
    {
        let ghost f = |arg: OkxSubscriptionArg| arg@;
        let ghost batches = providers::chunks(arg_views(args@), COMMAND_ARGS_LIMIT as nat);
        proof {
            providers::lemma_mapped_chunks(args@, f, COMMAND_ARGS_LIMIT as nat);
        }
        let parts = providers::cut(args, COMMAND_ARGS_LIMIT);
        let ghost start = self@;
        let mut list: Vec<OutboundCommand> = Vec::new();
        let mut i: usize = 0;
        while i < parts.len()
            invariant
                i <= parts@.len(),
                parts@.len() == batches.len(),
                forall|k: int|
                    0 <= k < parts@.len() ==> #[trigger] batches[k] == arg_views(parts@[k]@),
                list@.len() == i,
                forall|k: int|
                    0 <= k < i ==> (#[trigger] list@[k])@ == command(
                        action,
                        batches[k],
                        providers::id_after(start.next_request_id, k as nat),
                    ),
                self@ == (SessionView {
                    next_request_id: providers::id_after(start.next_request_id, i as nat),
                    ..start
                }),
                self.endpoint() == old(self).endpoint(),
            decreases parts.len() - i,
        {
            let id = providers::take_id(&mut self.next_command_id);
            proof {
                assert(batches[i as int] == arg_views(parts@[i as int]@));
            }
            list.push(build_command(action, &parts[i], id));
            i += 1;
        }
        proof {
            assert(providers::command_views(list@) =~= commands(
                action,
                batches,
                start.next_request_id,
            ));
        }
        list
    }

    /// Take in one item.
    fn parse_item(
        &mut self,
        channel: TickerChannel,
        item: &Json,
        symbol: &str,
        received_at_ms: u64,
    ) -> (r: Result<ProviderEvent, String>)
        ensures
            final(self).endpoint() == old(self).endpoint(),
            match r {
                Ok(event) => {
                    let ticker = ticker_after(
                        channel,
                        providers::known(old(self)@.tickers, symbol@),
                        item@,
                    );
                    &&& item_problem(channel, item@, symbol@) is None
                    &&& final(self)@ == providers::keeping(old(self)@, symbol@, ticker)
                    &&& event@ == okx_event(
                        old(self)@.connection_epoch,
                        symbol@,
                        item_time(item@),
                        received_at_ms,
                        PayloadView::Ticker(ticker),
                    )
                },
                Err(message) => {
                    &&& item_problem(channel, item@, symbol@) == Some(message@)
                    &&& final(self)@ == old(self)@
                },
            },
    {
        if !item.is_object() {
            return Err(
                (match channel {
                    TickerChannel::Tickers => "ticker item must be an object",
                    TickerChannel::MarkPrice => "mark-price item must be an object",
                    TickerChannel::FundingRate => "funding-rate item must be an object",
                }).to_owned(),
            );
        }
        let time = parse_item_identity(item, symbol)?;
        let symbol = symbol.to_owned();
        let mut ticker = providers::recall(&self.tickers, &symbol);
        let ghost base = ticker@;
        match channel {
            TickerChannel::Tickers => {
                let last = read_optional_price(item, "last", time)?;
                let bid = read_optional_price(item, "bidPx", time)?;
                let ask = read_optional_price(item, "askPx", time)?;
                if last.is_none() && bid.is_none() && ask.is_none() {
                    return Err("ticker item contains no usable price".to_owned());
                }
                proof {
                    assert(last is Some ==> domain::observed_view(last) == price_after(
                        base.last,
                        item@,
                        "last"@,
                        time,
                    ));
                    assert(bid is Some ==> domain::observed_view(bid) == price_after(
                        base.bid,
                        item@,
                        "bidPx"@,
                        time,
                    ));
                    assert(ask is Some ==> domain::observed_view(ask) == price_after(
                        base.ask,
                        item@,
                        "askPx"@,
                        time,
                    ));
                }
                if last.is_some() {
                    ticker.last = last;
                }
                if bid.is_some() {
                    ticker.bid = bid;
                }
                if ask.is_some() {
                    ticker.ask = ask;
                }
            },
            TickerChannel::MarkPrice => {
                let value = decimal(fields::required_value(item, "markPx")?, "markPx")?;
                ticker.mark = Some(ObservedDecimal { value, observed_at_ms: time });
            },
            TickerChannel::FundingRate => {
                let value = decimal(fields::required_value(item, "fundingRate")?, "fundingRate")?;
                let funding_time = read_optional_timestamp(item, "fundingTime")?;
                let next_funding_time = read_optional_timestamp(item, "nextFundingTime")?;
                ticker.funding_rate = Some(ObservedDecimal { value, observed_at_ms: time });
                ticker.next_funding_time_ms =
                if funding_time.is_some() {
                    funding_time
                } else {
                    next_funding_time
                };
            },
        }
        providers::remember(&mut self.tickers, &symbol, &ticker);
        Ok(
            providers::make_event(
                self.connection_epoch,
                Provider::Okx,
                symbol,
                Some(time),
                received_at_ms,
                None,
                MarketPayload::Ticker(ticker),
            ),
        )
    }

    /// Take in the items of a channel that updates the kept ticker.
    fn parse_items(
        &mut self,
        channel: TickerChannel,
        items: &Vec<Json>,
        symbol: &str,
        received_at_ms: u64,
    ) -> (r: Result<ParsedFrame, String>)
        ensures
            final(self).endpoint() == old(self).endpoint(),
            providers::agrees(
                final(self)@,
                r,
                items_frame(old(self)@, channel, json::views(items@), symbol@, received_at_ms),
            ),
    {
        let ghost all = json::views(items@);
        let ghost start = self@;
        let mut events: Vec<ProviderEvent> = Vec::new();
        let mut i: usize = 0;
        proof {
            assert(all.take(0) =~= Seq::empty());
            assert(providers::event_views(events@) =~= Seq::empty());
        }
        while i < items.len()
            invariant
                i <= items@.len(),
                all == json::views(items@),
                start == old(self)@,
                self.endpoint() == old(self).endpoint(),
                self@.connection_epoch == start.connection_epoch,
                items_along(start, channel, all.take(i as int), symbol@, received_at_ms) == (
                    self@,
                    Ok::<Seq<ProviderEventView>, Seq<char>>(providers::event_views(events@)),
                ),
            decreases items.len() - i,
        {
            let item = &items[i];
            let ghost shown = providers::event_views(events@);
            proof {
                let longer = all.take(i + 1);
                assert(longer.drop_last() =~= all.take(i as int));
                assert(longer.last() == item@);
                if item_problem(channel, item@, symbol@) is Some {
                    lemma_items_along_prefix(start, channel, all, i + 1, symbol@, received_at_ms);
                }
            }
            let event = self.parse_item(channel, item, symbol, received_at_ms)?;
            let ghost one = event@;
            events.push(event);
            proof {
                assert(providers::event_views(events@) =~= shown.push(one));
            }
            i += 1;
        }
        proof {
            assert(all.take(i as int) =~= all);
        }
        Ok(ParsedFrame::Events(events))
    }

    /// Take in candle items.
    fn parse_candles(&self, items: &Vec<Json>, symbol: &str, received_at_ms: u64) -> (r: Result<
        ParsedFrame,
        String,
    >)
        ensures
            providers::agrees(
                self@,
                r,
                (
                    self@,
                    candles_frame(
                        self@.connection_epoch,
                        symbol@,
                        received_at_ms,
                        json::views(items@),
                    ),
                ),
            ),
    {
        let ghost all = json::views(items@);
        let ghost check = |item: JsonView| candle_problem(item);
        let mut events: Vec<ProviderEvent> = Vec::new();
        let mut i: usize = 0;
        while i < items.len()
            invariant
                i <= items@.len(),
                all == json::views(items@),
                check == (|item: JsonView| candle_problem(item)),
                providers::first_complaint(all.take(i as int), check) is None,
                events@.len() == i,
                forall|k: int|
                    0 <= k < i ==> (#[trigger] events@[k])@ == candle_events(
                        self@.connection_epoch,
                        symbol@,
                        received_at_ms,
                        all,
                    )[k],
            decreases items.len() - i,
        {
            proof {
                assert(all[i as int] == items@[i as int]@);
                providers::lemma_next_complaint(all, i as int, check);
            }
            let candle = parse_candle(&items[i])?;
            events.push(
                providers::make_event(
                    self.connection_epoch,
                    Provider::Okx,
                    symbol.to_owned(),
                    Some(candle.start_time_ms),
                    received_at_ms,
                    None,
                    MarketPayload::Candle(candle),
                ),
            );
            i += 1;
        }
        proof {
            assert(all.take(i as int) =~= all);
            assert(providers::event_views(events@) =~= candle_events(
                self@.connection_epoch,
                symbol@,
                received_at_ms,
                all,
            ));
        }
        Ok(ParsedFrame::Events(events))
    }

    /// Take in a data message.
    fn parse_data_message(&mut self, object: &Json, received_at_ms: u64) -> (r: Result<
        ParsedFrame,
        String,
    >)
        ensures
            final(self).endpoint() == old(self).endpoint(),
            providers::agrees(
                final(self)@,
                r,
                data_frame(old(self)@, object@, received_at_ms),
            ),
    {
        let argument = fields::required_object(object, "arg")?;
        let channel = fields::required_string(argument, "channel")?;
        let symbol = fields::required_string(argument, "instId")?;
        validate_okx_symbol(symbol)?;
        let items = match json::find_list(object, "data") {
            Some(items) => items,
            None => {
                return Err("data must be an array".to_owned());
            },
        };
        if items.len() == 0 {
            let events: Vec<ProviderEvent> = Vec::new();
            proof {
                assert(providers::event_views(events@) =~= Seq::empty());
            }
            return Ok(ParsedFrame::Events(events));
        }
        if text::same(channel, "tickers") {
            self.parse_items(TickerChannel::Tickers, items, symbol, received_at_ms)
        } else if text::same(channel, "mark-price") {
            self.parse_items(TickerChannel::MarkPrice, items, symbol, received_at_ms)
        } else if text::same(channel, "funding-rate") {
            self.parse_items(TickerChannel::FundingRate, items, symbol, received_at_ms)
        } else if text::same(channel, "candle1m") {
            self.parse_candles(items, symbol, received_at_ms)
        } else {
            Ok(ParsedFrame::Ignored)
        }
    }

    /// Take in a document.
    ///
    /// # Errors
    ///
    /// Returns an error when the document is no valid frame or the provider rejects a command.
    pub fn parse_document(&mut self, root: &Json, received_at_ms: u64) -> (r: Result<
        ParsedFrame,
        AdapterError,
    >)
        ensures
            final(self).endpoint() == old(self).endpoint(),
            providers::concurs(
                final(self)@,
                r,
                document_frame(old(self)@, root@, received_at_ms),
            ),
    {
        if !root.is_object() {
            return invalid("message must be a JSON object");
        }
        if let Some(event) = root.member("event") {
            return parse_command_response(event, root);
        }
        let parsed = self.parse_data_message(root, received_at_ms);
        providers::label(Provider::Okx, parsed)
    }
}

impl AdapterSession for OkxSession {
    open spec fn commands_for(&self, action: SubscriptionAction, keys: Seq<KeyView>) -> Result<
        Seq<CommandView>,
        AdapterErrorView,
    > {
        subscription_outcome(self.endpoint(), self@, action, keys).1
    }

    open spec fn after_change(
        &self,
        action: SubscriptionAction,
        keys: Seq<KeyView>,
        after: &Self,
    ) -> bool {
        &&& after.endpoint() == self.endpoint()
        &&& after@ == subscription_outcome(self.endpoint(), self@, action, keys).0
    }

    open spec fn sign_of_life(&self) -> HeartbeatView {
        HeartbeatView::Text("ping"@)
    }

    open spec fn after_sign(&self, after: &Self) -> bool {
        after.endpoint() == self.endpoint() && after@ == self@
    }

    open spec fn frame_for(&self, text: Seq<char>, received_at_ms: u64) -> Result<
        FrameView,
        AdapterErrorView,
    > {
        text_frame(self@, text, received_at_ms).1
    }

    open spec fn after_frame(&self, text: Seq<char>, received_at_ms: u64, after: &Self) -> bool {
        after.endpoint() == self.endpoint() && after@ == text_frame(self@, text, received_at_ms).0
    }

    fn subscription_messages(
        &mut self,
        action: SubscriptionAction,
        subscriptions: &[SubscriptionKey],
    ) -> (r: Result<Vec<OutboundCommand>, AdapterError>)
        ensures
            final(self).endpoint() == old(self).endpoint(),
            providers::issues(
                final(self)@,
                r,
                subscription_outcome(
                    old(self).endpoint(),
                    old(self)@,
                    action,
                    domain::key_views(subscriptions@),
                ),
            ),
    {
        providers::validate_subscriptions(Provider::Okx, subscriptions)?;
        let args = self.subscription_args(subscriptions)?;
        if action == SubscriptionAction::Unsubscribe {
            providers::forget_all(&mut self.tickers, subscriptions, subscriptions.len());
        }
        proof {
            let keys = domain::key_views(subscriptions@);
            assert(keys.take(keys.len() as int) =~= keys);
        }
        Ok(self.command_messages(action, args))
    }

    fn heartbeat(&mut self) -> (heartbeat: Heartbeat)
        ensures
            heartbeat@ == HeartbeatView::Text("ping"@),
            final(self)@ == old(self)@,
            final(self).endpoint() == old(self).endpoint(),
    {
        Heartbeat::Text("ping".to_owned())
    }

    fn parse(&mut self, text: &str, received_at_ms: u64) -> (r: Result<ParsedFrame, AdapterError>)
        ensures
            final(self).endpoint() == old(self).endpoint(),
            providers::concurs(final(self)@, r, text_frame(old(self)@, text@, received_at_ms)),
    {
        if text::same(text::trim(text), "pong") {
            return Ok(ParsedFrame::Pong);
        }
        match json::read(text) {
            Ok(root) => self.parse_document(&root, received_at_ms),
            Err(message) => invalid(providers::complain("invalid JSON: ", message).as_str()),
        }
    }
}

impl ProviderAdapter for OkxAdapter {
    type Session = OkxSession;

    open spec fn venue(&self) -> Provider {
        Provider::Okx
    }

    open spec fn route(&self, channel: Channel) -> EndpointKind {
        match channel {
            Channel::Ticker => EndpointKind::Public,
            Channel::Candle1m => EndpointKind::Business,
        }
    }

    open spec fn spread(&self) -> Seq<EndpointKind> {
        seq![EndpointKind::Public, EndpointKind::Business]
    }

    open spec fn starts(
        &self,
        endpoint: EndpointKind,
        connection_epoch: u128,
        session: OkxSession,
    ) -> bool {
        &&& session@ == providers::fresh(connection_epoch)
        &&& session.endpoint() == endpoint
    }

    fn provider(&self) -> (provider: Provider) {
        Provider::Okx
    }

    fn endpoints(&self) -> (list: Vec<EndpointKind>) {
        let list = OkxAdapter::endpoints(self);
        proof {
            assert(list@[0] == EndpointKind::Public && list@[1] == EndpointKind::Business);
        }
        list
    }

    fn endpoint_for(&self, channel: Channel) -> (endpoint: EndpointKind) {
        OkxAdapter::endpoint_for(self, channel)
    }

    fn session(&self, endpoint: EndpointKind, connection_epoch: u128) -> (session: OkxSession) {
        OkxAdapter::session(self, endpoint, connection_epoch)
    }
}

} // verus!
