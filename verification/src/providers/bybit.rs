//! Bybit linear contracts.
use vstd::prelude::*;

use crate::domain;
use crate::domain::{
    Candle, CandleFinality, CandleView, Channel, KeyView, MarketPayload, ObservedDecimal,
    ObservedView, PayloadView, Provider, ProviderEvent, ProviderEventView, SourceSequence,
    SubscriptionKey, Ticker, TickerView,
};
use crate::json;
use crate::json::{Json, JsonView, Layout, LayoutView};
use crate::providers;
use crate::providers::{
    AdapterError, AdapterErrorView, AdapterSession, CommandView, Complaints, ConnectionTarget,
    EndpointKind, FrameView, Heartbeat, HeartbeatView, OutboundCommand, ParsedFrame,
    ProviderAdapter, SessionView, SubscriptionAction, TargetView, TickerCache,
};
use crate::table::Table;
use crate::text;

verus! {

pub const BYBIT_LINEAR_URL: &'static str = "wss://stream.bybit.com/v5/public/linear";

pub const COMMAND_INTERVAL_MS: u64 = 150;

pub const SUBSCRIPTION_ACK_TIMEOUT_MS: u64 = 15_000;

pub const HEARTBEAT_INTERVAL_MS: u64 = 20_000;

pub const STALE_AFTER_MS: u64 = 45_000;

pub const MAX_MESSAGE_BYTES: usize = 1_048_576;

/// Bybit caps the combined character count of public subscription args at 21,000 per connection.
/// Keeping commands under 20,000 leaves room for the JSON command envelope.
pub const MAX_TOPIC_CHARS_PER_COMMAND: usize = 20_000;

pub const MAX_TOPICS_PER_COMMAND: usize = 100;

/// The adapter for Bybit linear streams.
#[derive(Debug)]
pub struct BybitAdapter {
    url: String,
}

impl BybitAdapter {
    /// The URL that the adapter connects to.
    pub closed spec fn url(&self) -> Seq<char> {
        self.url@
    }

    /// An adapter for the official URL.
    pub fn new() -> (adapter: Self)
        ensures
            adapter.url() == BYBIT_LINEAR_URL@,
    {
        Self::with_url(BYBIT_LINEAR_URL.to_owned())
    }

    /// An adapter for a given URL.
    pub fn with_url(url: String) -> (adapter: Self)
        ensures
            adapter.url() == url@,
    {
        BybitAdapter { url }
    }

    /// The venue.
    pub fn provider(&self) -> (provider: Provider)
        ensures
            provider == Provider::Bybit,
    {
        Provider::Bybit
    }

    /// The endpoints that the venue's streams are spread over.
    pub fn endpoints(&self) -> (list: Vec<EndpointKind>)
        ensures
            list@ == seq![EndpointKind::Primary],
    {
        vec![EndpointKind::Primary]
    }

    /// The endpoint of a channel.
    pub fn endpoint_for(&self, channel: Channel) -> (endpoint: EndpointKind)
        ensures
            endpoint == EndpointKind::Primary,
    {
        EndpointKind::Primary
    }

    /// Where and how to connect.
    ///
    /// # Errors
    ///
    /// Returns [`AdapterError::UnsupportedEndpoint`] for any endpoint but the primary one.
    pub fn connection_target(&self, endpoint: EndpointKind) -> (r: Result<
        ConnectionTarget,
        AdapterError,
    >)
        ensures
            match r {
                Ok(target) => endpoint == EndpointKind::Primary && target@ == (TargetView {
                    url: self.url(),
                    command_interval_ms: COMMAND_INTERVAL_MS,
                    subscription_ack_timeout_ms: SUBSCRIPTION_ACK_TIMEOUT_MS,
                    heartbeat_interval_ms: HEARTBEAT_INTERVAL_MS,
                    stale_after_ms: STALE_AFTER_MS,
                    max_message_bytes: MAX_MESSAGE_BYTES,
                    rotate_after_ms: None,
                }),
                Err(error) => endpoint != EndpointKind::Primary && error@
                    == (AdapterErrorView::UnsupportedEndpoint {
                    provider: Provider::Bybit,
                    endpoint,
                }),
            },
    {
        if endpoint != EndpointKind::Primary {
            return Err(AdapterError::UnsupportedEndpoint { provider: Provider::Bybit, endpoint });
        }
        Ok(
            ConnectionTarget {
                url: self.url.clone(),
                command_interval_ms: COMMAND_INTERVAL_MS,
                subscription_ack_timeout_ms: SUBSCRIPTION_ACK_TIMEOUT_MS,
                heartbeat_interval_ms: HEARTBEAT_INTERVAL_MS,
                stale_after_ms: STALE_AFTER_MS,
                max_message_bytes: MAX_MESSAGE_BYTES,
                rotate_after_ms: None,
            },
        )
    }

    /// A session for a new connection.
    pub fn session(&self, endpoint: EndpointKind, connection_epoch: u128) -> (session: BybitSession)
        ensures
            session@ == providers::fresh(connection_epoch),
    {
        BybitSession::new(connection_epoch)
    }
}

impl Default for BybitAdapter {
    /// An adapter for the official URL.
    fn default() -> (adapter: Self)
        ensures
            adapter.url() == BYBIT_LINEAR_URL@,
    {
        BybitAdapter::new()
    }
}

/// One session on a Bybit connection.
#[derive(Debug)]
pub struct BybitSession {
    connection_epoch: u128,
    next_request_id: u64,
    tickers: TickerCache,
}

impl View for BybitSession {
    type V = SessionView;

    closed spec fn view(&self) -> SessionView {
        SessionView {
            connection_epoch: self.connection_epoch,
            next_request_id: self.next_request_id,
            tickers: providers::cached(self.tickers),
        }
    }
}

// ---------------------------------------------------------------------------------------------
// Commands
// ---------------------------------------------------------------------------------------------

/// The bytes of a run of topics together.
pub open spec fn total_bytes(topics: Seq<Seq<char>>) -> nat
    decreases topics.len(),
{
    if topics.len() == 0 {
        0
    } else {
        total_bytes(topics.drop_last()) + text::byte_length(topics.last())
    }
}

/// Whether a batch has no room for a topic.
pub open spec fn full(batch: Seq<Seq<char>>, topic: Seq<char>) -> bool {
    &&& batch.len() > 0
    &&& batch.len() == MAX_TOPICS_PER_COMMAND || total_bytes(batch) + text::byte_length(topic)
        > MAX_TOPIC_CHARS_PER_COMMAND
}

/// Topics put into batches one after the other: the batches that are full, and the one that is
/// still open.
pub open spec fn packed(topics: Seq<Seq<char>>) -> (Seq<Seq<Seq<char>>>, Seq<Seq<char>>)
    decreases topics.len(),
{
    if topics.len() == 0 {
        (Seq::empty(), Seq::empty())
    } else {
        let (done, open) = packed(topics.drop_last());
        let topic = topics.last();
        if full(open, topic) {
            (done.push(open), seq![topic])
        } else {
            (done, open.push(topic))
        }
    }
}

/// Topics in batches.
pub open spec fn batches(topics: Seq<Seq<char>>) -> Seq<Seq<Seq<char>>> {
    let (done, open) = packed(topics);
    if open.len() > 0 {
        done.push(open)
    } else {
        done
    }
}

/// Whether a batch keeps the limits of a command. A topic that is too long by itself makes a batch
/// of its own.
pub open spec fn fits(batch: Seq<Seq<char>>) -> bool {
    &&& 0 < batch.len() <= MAX_TOPICS_PER_COMMAND
    &&& batch.len() == 1 || total_bytes(batch) <= MAX_TOPIC_CHARS_PER_COMMAND
}

/// Joining one more part.
proof fn lemma_joined_push(parts: Seq<Seq<Seq<char>>>, part: Seq<Seq<char>>)
    ensures
        providers::joined(parts.push(part)) == providers::joined(parts) + part,
    decreases parts.len(),
{
    if parts.len() == 0 {
        assert(parts.push(part).skip(1) =~= Seq::empty());
        assert(providers::joined(parts.push(part).skip(1)) =~= Seq::empty());
        assert(providers::joined(parts.push(part)) =~= part);
        assert(providers::joined(parts) + part =~= part);
    } else {
        lemma_joined_push(parts.skip(1), part);
        assert(parts.push(part).skip(1) =~= parts.skip(1).push(part));
        assert(providers::joined(parts.push(part)) =~= parts[0] + (providers::joined(parts.skip(1))
            + part));
        assert(providers::joined(parts.push(part)) =~= providers::joined(parts) + part);
    }
}

/// Putting topics into batches loses nothing and changes no order.
proof fn lemma_packed(topics: Seq<Seq<char>>)
    ensures
        providers::joined(packed(topics).0) + packed(topics).1 == topics,
        forall|i: int| 0 <= i < packed(topics).0.len() ==> fits(#[trigger] packed(topics).0[i]),
        packed(topics).1.len() > 0 ==> fits(packed(topics).1),
        topics.len() > 0 ==> packed(topics).1.len() > 0,
    decreases topics.len(),
{
    if topics.len() == 0 {
        assert(providers::joined(packed(topics).0) + packed(topics).1 =~= topics);
    } else {
        lemma_packed(topics.drop_last());
        let (done, open) = packed(topics.drop_last());
        let topic = topics.last();
        assert(topics =~= topics.drop_last().push(topic));
        if full(open, topic) {
            lemma_joined_push(done, open);
            assert(providers::joined(done.push(open)) + seq![topic] =~= topics);
        } else {
            assert(providers::joined(done) + open.push(topic) =~= topics);
            assert(open.push(topic).drop_last() =~= open);
        }
    }
}

/// The batches of a list of topics hold the topics in their order, and every batch keeps the
/// limits on the number of topics and on their bytes.
pub proof fn law_batches_partition(topics: Seq<Seq<char>>)
    ensures
        providers::joined(batches(topics)) == topics,
        forall|i: int| 0 <= i < batches(topics).len() ==> fits(#[trigger] batches(topics)[i]),
{
    lemma_packed(topics);
    let (done, open) = packed(topics);
    if open.len() > 0 {
        lemma_joined_push(done, open);
        assert forall|i: int| 0 <= i < batches(topics).len() implies fits(
            #[trigger] batches(topics)[i],
        ) by {
            if i < done.len() {
                assert(batches(topics)[i] == done[i]);
            }
        }
    } else {
        assert(providers::joined(done) + open =~= providers::joined(done));
    }
}

/// The identifier of a request.
pub open spec fn request_name(id: u64) -> Seq<char> {
    "gateway-"@ + text::digits(id as nat)
}

/// The native name of an action.
pub open spec fn operation_name(action: SubscriptionAction) -> Seq<char> {
    match action {
        SubscriptionAction::Subscribe => "subscribe"@,
        SubscriptionAction::Unsubscribe => "unsubscribe"@,
    }
}

/// The command for a batch of topics.
pub open spec fn command(action: SubscriptionAction, batch: Seq<Seq<char>>, id: u64) -> CommandView {
    CommandView {
        request_id: request_name(id),
        text: json::text_of(
            JsonView::Object(
                seq![
                    ("args"@, providers::text_list(batch)),
                    ("op"@, JsonView::Text(operation_name(action))),
                    ("req_id"@, JsonView::Text(request_name(id))),
                ],
            ),
        ),
        expected_acknowledgements: 1,
    }
}

/// The commands for a run of batches, numbered from a given number on.
pub open spec fn commands(
    action: SubscriptionAction,
    parts: Seq<Seq<Seq<char>>>,
    id: u64,
) -> Seq<CommandView> {
    Seq::new(
        parts.len(),
        |i: int| command(action, parts[i], providers::id_after(id, i as nat)),
    )
}

/// What a subscription change makes of a session and which commands it gives.
pub open spec fn subscription_outcome(
    state: SessionView,
    action: SubscriptionAction,
    keys: Seq<KeyView>,
) -> (SessionView, Result<Seq<CommandView>, AdapterErrorView>) {
    match providers::foreign_problem(Provider::Bybit, keys) {
        Some(error) => (state, Err(error)),
        None => {
            let parts = batches(providers::gathered(keys));
            (
                SessionView {
                    next_request_id: providers::id_after(state.next_request_id, parts.len()),
                    tickers: providers::tickers_after(state.tickers, action, keys),
                    ..state
                },
                Ok(commands(action, parts, state.next_request_id)),
            )
        },
    }
}

// ---------------------------------------------------------------------------------------------
// What frames mean
// ---------------------------------------------------------------------------------------------

/// The first of the members that may hold the message of a refusal.
pub open spec fn refusal_member(value: JsonView) -> Option<JsonView> {
    match providers::member_or(value, "ret_msg"@, "retMsg"@) {
        Some(found) => Some(found),
        None => json::member_of(value, "message"@),
    }
}

/// The message of a refused command, without its code.
pub open spec fn refusal_text(value: JsonView) -> Seq<char> {
    match refusal_member(value) {
        Some(JsonView::Text(message)) => message,
        _ => "unknown command error"@,
    }
}

/// The message of a refused command, after its code where it has one.
pub open spec fn refusal(value: JsonView) -> Seq<char> {
    match providers::member_or(value, "ret_code"@, "retCode"@) {
        Some(code) => match json::signed_value(code) {
            Some(code) => "code "@ + text::integer_text(code as int) + ": "@ + refusal_text(value),
            None => refusal_text(value),
        },
        None => refusal_text(value),
    }
}

/// The acknowledgement that a control frame is.
pub open spec fn acknowledgement(value: JsonView) -> Result<FrameView, AdapterErrorView> {
    match providers::member_or(value, "req_id"@, "reqId"@) {
        Some(JsonView::Text(request_id)) => if request_id.len() > 0 && text::byte_length(request_id)
            <= 36 {
            Ok(FrameView::Acknowledgement { request_id })
        } else {
            missing_id()
        },
        _ => missing_id(),
    }
}

/// The complaint about a control frame without a request.
pub open spec fn missing_id() -> Result<FrameView, AdapterErrorView> {
    Err(
        providers::invalid_data(
            Provider::Bybit,
            "command response is missing a valid request id"@,
        ),
    )
}

/// The topics that a venue refused: nothing where the field is absent.
pub open spec fn fail_topics(value: JsonView) -> Option<Seq<JsonView>> {
    match json::member_of(value, "data"@) {
        Some(data) => json::member_list(data, "failTopics"@),
        None => None,
    }
}

/// The meaning of a control frame, or nothing where the frame is none.
pub open spec fn control(value: JsonView) -> Option<Result<FrameView, AdapterErrorView>> {
    let failed = json::member_flag(value, "success"@) == Some(false);
    if json::member_text(value, "type"@) == Some("COMMAND_RESP"@) {
        Some(
            match fail_topics(value) {
                Some(topics) => if topics.len() > 0 {
                    Err(
                        providers::rejected(
                            Provider::Bybit,
                            "topics rejected: "@ + json::text_of(JsonView::List(topics)),
                        ),
                    )
                } else {
                    acknowledgement(value)
                },
                None => Err(
                    providers::invalid_data(
                        Provider::Bybit,
                        "COMMAND_RESP is missing data.failTopics"@,
                    ),
                ),
            },
        )
    } else {
        match json::member_of(value, "op"@) {
            None => if failed {
                Some(Err(providers::rejected(Provider::Bybit, refusal(value))))
            } else {
                None
            },
            Some(JsonView::Text(operation)) => Some(
                if failed {
                    Err(providers::rejected(Provider::Bybit, refusal(value)))
                } else if operation == "ping"@ || operation == "pong"@ {
                    Ok(FrameView::Pong)
                } else if operation == "subscribe"@ || operation == "unsubscribe"@ {
                    match json::member_of(value, "success"@) {
                        Some(JsonView::Bool(_)) => acknowledgement(value),
                        Some(_) => Err(
                            providers::invalid_data(
                                Provider::Bybit,
                                "control field success must be a boolean"@,
                            ),
                        ),
                        None => Err(
                            providers::invalid_data(
                                Provider::Bybit,
                                operation + " response is missing success"@,
                            ),
                        ),
                    }
                } else {
                    Ok(FrameView::Ignored)
                },
            ),
            Some(_) => Some(
                Err(
                    providers::invalid_data(
                        Provider::Bybit,
                        "control field op must be a string"@,
                    ),
                ),
            ),
        }
    }
}

/// How a ticker message with an array of updates is laid out.
pub open spec fn tickers_layout() -> LayoutView {
    json::with_field(
        json::flat("topic,type,ts,cs,data"@, 5),
        "data"@,
        LayoutView::Each(
            Box::new(
                json::flat(
                    "symbol,lastPrice,markPrice,indexPrice,bid1Price,ask1Price,fundingRate,nextFundingTime"@,
                    8,
                ),
            ),
        ),
    )
}

fn tickers_record() -> (layout: Layout)
    ensures
        layout@ == tickers_layout(),
{
    json::nest(
        json::flat_record("topic,type,ts,cs,data", 5),
        "data",
        Layout::Each(
            Box::new(
                json::flat_record(
                    "symbol,lastPrice,markPrice,indexPrice,bid1Price,ask1Price,fundingRate,nextFundingTime",
                    8,
                ),
            ),
        ),
    )
}

/// How a kline message is laid out.
pub open spec fn klines_layout() -> LayoutView {
    json::with_field(
        json::flat("topic,type,ts,data"@, 4),
        "data"@,
        LayoutView::Each(
            Box::new(
                json::flat(
                    "start,end,interval,open,high,low,close,volume,turnover,confirm,timestamp"@,
                    11,
                ),
            ),
        ),
    )
}

fn klines_record() -> (layout: Layout)
    ensures
        layout@ == klines_layout(),
{
    json::nest(
        json::flat_record("topic,type,ts,data", 4),
        "data",
        Layout::Each(
            Box::new(
                json::flat_record(
                    "start,end,interval,open,high,low,close,volume,turnover,confirm,timestamp",
                    11,
                ),
            ),
        ),
    )
}

/// Why a document is no ticker update.
pub open spec fn update_shape(value: JsonView) -> Option<Seq<char>> {
    json::text_problem(value, "symbol"@)
        .or_next(json::optional_text_problem(value, "lastPrice"@))
        .or_next(json::optional_text_problem(value, "markPrice"@))
        .or_next(json::optional_text_problem(value, "indexPrice"@))
        .or_next(json::optional_text_problem(value, "bid1Price"@))
        .or_next(json::optional_text_problem(value, "ask1Price"@))
        .or_next(json::optional_text_problem(value, "fundingRate"@))
        .or_next(json::optional_text_problem(value, "nextFundingTime"@))
}

/// Why a given field is no decimal. An absent or empty field is not given.
pub open spec fn field_problem(value: JsonView, name: Seq<char>) -> Option<Seq<char>> {
    if json::text_at(value, name).len() == 0 {
        None
    } else {
        providers::decimal_problem(json::text_at(value, name), name)
    }
}

/// Why a given funding time is no number. An absent or empty one is not given.
pub open spec fn funding_time_problem(value: JsonView) -> Option<Seq<char>> {
    let given = json::text_at(value, "nextFundingTime"@);
    if given.len() == 0 {
        None
    } else {
        providers::prefixed(
            "invalid nextFundingTime "@ + text::debug_text(given) + ": "@,
            text::unsigned_problem(given),
        )
    }
}

/// Why an update of a topic is refused.
pub open spec fn update_problem(value: JsonView, topic_symbol: Seq<char>) -> Option<Seq<char>> {
    let symbol = json::text_at(value, "symbol"@);
    providers::symbol_problem(symbol)
        .or_next(providers::unless(
            providers::symbol_of(symbol) == topic_symbol,
            "ticker topic symbol "@ + topic_symbol + " does not match payload symbol "@
                + providers::symbol_of(symbol),
        ))
        .or_next(field_problem(value, "lastPrice"@))
        .or_next(field_problem(value, "markPrice"@))
        .or_next(field_problem(value, "indexPrice"@))
        .or_next(field_problem(value, "bid1Price"@))
        .or_next(field_problem(value, "ask1Price"@))
        .or_next(field_problem(value, "fundingRate"@))
        .or_next(funding_time_problem(value))
}

/// A field after an update: the new value where one is given, the old one otherwise.
pub open spec fn field_after(
    before: Option<ObservedView>,
    value: JsonView,
    name: Seq<char>,
    time: u64,
) -> Option<ObservedView> {
    if json::text_at(value, name).len() == 0 {
        before
    } else {
        providers::observed(json::text_at(value, name), time)
    }
}

/// A ticker after an update.
pub open spec fn ticker_after(base: TickerView, value: JsonView, time: u64) -> TickerView {
    let funding_time = json::text_at(value, "nextFundingTime"@);
    TickerView {
        last: field_after(base.last, value, "lastPrice"@, time),
        mark: field_after(base.mark, value, "markPrice"@, time),
        index: field_after(base.index, value, "indexPrice"@, time),
        bid: field_after(base.bid, value, "bid1Price"@, time),
        ask: field_after(base.ask, value, "ask1Price"@, time),
        funding_rate: field_after(base.funding_rate, value, "fundingRate"@, time),
        next_funding_time_ms: if funding_time.len() == 0 {
            base.next_funding_time_ms
        } else {
            Some(text::digits_value(text::unsigned_run(funding_time)) as u64)
        },
    }
}

/// A field that an update does not give keeps its value and the time of its observation.
pub proof fn law_sparse_update_keeps_omitted_fields(base: TickerView, value: JsonView, time: u64)
    ensures
        json::text_at(value, "lastPrice"@).len() == 0 ==> ticker_after(base, value, time).last
            == base.last,
        json::text_at(value, "markPrice"@).len() == 0 ==> ticker_after(base, value, time).mark
            == base.mark,
        json::text_at(value, "indexPrice"@).len() == 0 ==> ticker_after(base, value, time).index
            == base.index,
        json::text_at(value, "bid1Price"@).len() == 0 ==> ticker_after(base, value, time).bid
            == base.bid,
        json::text_at(value, "ask1Price"@).len() == 0 ==> ticker_after(base, value, time).ask
            == base.ask,
        json::text_at(value, "fundingRate"@).len() == 0 ==> ticker_after(
            base,
            value,
            time,
        ).funding_rate == base.funding_rate,
        json::text_at(value, "nextFundingTime"@).len() == 0 ==> ticker_after(
            base,
            value,
            time,
        ).next_funding_time_ms == base.next_funding_time_ms,
{
}

/// The tickers after each of a run of updates of one instrument, or the first complaint. A snapshot
/// starts from nothing; a delta goes on from what is known.
pub open spec fn tickers_along(
    start: TickerView,
    updates: Seq<JsonView>,
    snapshot: bool,
    time: u64,
    topic_symbol: Seq<char>,
) -> Result<Seq<TickerView>, Seq<char>>
    decreases updates.len(),
{
    if updates.len() == 0 {
        Ok(Seq::empty())
    } else {
        match tickers_along(start, updates.drop_last(), snapshot, time, topic_symbol) {
            Err(message) => Err(message),
            Ok(list) => {
                let base = if snapshot {
                    domain::empty_ticker()
                } else if list.len() > 0 {
                    list.last()
                } else {
                    start
                };
                match update_problem(updates.last(), topic_symbol) {
                    Some(message) => Err(message),
                    None => Ok(list.push(ticker_after(base, updates.last(), time))),
                }
            },
        }
    }
}

/// A complaint along a prefix of the updates is the complaint along all of them.
proof fn lemma_tickers_along_prefix(
    start: TickerView,
    updates: Seq<JsonView>,
    count: int,
    snapshot: bool,
    time: u64,
    topic_symbol: Seq<char>,
)
    requires
        0 <= count <= updates.len(),
        tickers_along(start, updates.take(count), snapshot, time, topic_symbol) is Err,
    ensures
        tickers_along(start, updates, snapshot, time, topic_symbol) == tickers_along(
            start,
            updates.take(count),
            snapshot,
            time,
            topic_symbol,
        ),
    decreases updates.len(),
{
    if count < updates.len() {
        assert(updates.drop_last().take(count) =~= updates.take(count));
        lemma_tickers_along_prefix(
            start,
            updates.drop_last(),
            count,
            snapshot,
            time,
            topic_symbol,
        );
    } else {
        assert(updates.take(count) =~= updates);
    }
}

/// Why a document is no ticker message.
pub open spec fn ticker_envelope_shape(value: JsonView) -> Option<Seq<char>> {
    providers::prefixed(
        "invalid ticker message: "@,
        json::text_problem(value, "topic"@)
            .or_next(json::text_problem(value, "type"@))
            .or_next(json::unsigned_problem(value, "ts"@))
            .or_next(json::unsigned_problem(value, "cs"@))
            .or_next(providers::unless(
                json::member_of(value, "data"@) is Some,
                json::missing_message("data"@),
            )),
    )
}

/// The symbol of a topic, or the complaint that it has none.
pub open spec fn topic_symbol(
    topic: Seq<char>,
    prefix: Seq<char>,
    kind: Seq<char>,
) -> Result<Seq<char>, Seq<char>> {
    match text::after_prefix(topic, prefix) {
        None => Err("invalid "@ + kind + " topic "@ + text::debug_text(topic)),
        Some(symbol) => match providers::symbol_problem(symbol) {
            Some(message) => Err(message),
            None => Ok(providers::symbol_of(symbol)),
        },
    }
}

/// The updates that a payload holds: one object, or an array of them.
pub open spec fn updates_of(data: JsonView) -> Result<Seq<JsonView>, Seq<char>> {
    match data {
        JsonView::Object(_) => match update_shape(data) {
            Some(message) => Err("invalid ticker data: "@ + message),
            None => Ok(seq![data]),
        },
        JsonView::List(items) => match providers::first_complaint(
            items,
            |item: JsonView| update_shape(item),
        ) {
            Some(message) => Err("invalid ticker data: "@ + message),
            None => Ok(items),
        },
        _ => Err("ticker data must be an object or array"@),
    }
}

/// Whether a ticker message is a snapshot, or the complaint that it is neither that nor a delta.
pub open spec fn is_snapshot(kind: Seq<char>) -> Result<bool, Seq<char>> {
    if kind == "snapshot"@ {
        Ok(true)
    } else if kind == "delta"@ {
        Ok(false)
    } else {
        Err("unsupported ticker message type "@ + kind)
    }
}

/// The events of a run of tickers.
pub open spec fn ticker_events(
    connection_epoch: u128,
    symbol: Seq<char>,
    value: JsonView,
    received_at_ms: u64,
    tickers: Seq<TickerView>,
) -> Seq<ProviderEventView> {
    Seq::new(
        tickers.len(),
        |i: int|
            providers::event_view(
                connection_epoch,
                Provider::Bybit,
                symbol,
                Some(json::unsigned_at(value, "ts"@)),
                received_at_ms,
                providers::last_sequence(text::digits(json::unsigned_at(value, "cs"@) as nat)),
                PayloadView::Ticker(tickers[i]),
            ),
    )
}

/// What a ticker message does and means. Nothing is kept of a message that is refused.
pub open spec fn tickers_frame(state: SessionView, value: JsonView, received_at_ms: u64) -> (
    SessionView,
    Result<FrameView, Seq<char>>,
) {
    if let Some(message) = ticker_envelope_shape(value) {
        (state, Err(message))
    } else {
        match topic_symbol(json::text_at(value, "topic"@), "tickers."@, "ticker"@) {
            Err(message) => (state, Err(message)),
            Ok(symbol) => match is_snapshot(json::text_at(value, "type"@)) {
                Err(message) => (state, Err(message)),
                Ok(snapshot) => match updates_of(json::value_at(value, "data"@)) {
                    Err(message) => (state, Err(message)),
                    Ok(updates) => if updates.len() == 0 {
                        (state, Err("ticker data must not be empty"@))
                    } else {
                        match tickers_along(
                            providers::known(state.tickers, symbol),
                            updates,
                            snapshot,
                            json::unsigned_at(value, "ts"@),
                            symbol,
                        ) {
                            Err(message) => (state, Err(message)),
                            Ok(tickers) => (
                                providers::keeping(state, symbol, tickers.last()),
                                Ok(
                                    FrameView::Events(
                                        ticker_events(
                                            state.connection_epoch,
                                            symbol,
                                            value,
                                            received_at_ms,
                                            tickers,
                                        ),
                                    ),
                                ),
                            ),
                        }
                    },
                },
            },
        }
    }
}

/// Why a document is no kline.
pub open spec fn kline_shape(value: JsonView) -> Option<Seq<char>> {
    json::unsigned_problem(value, "start"@)
        .or_next(json::unsigned_problem(value, "end"@))
        .or_next(json::text_problem(value, "interval"@))
        .or_next(json::text_problem(value, "open"@))
        .or_next(json::text_problem(value, "high"@))
        .or_next(json::text_problem(value, "low"@))
        .or_next(json::text_problem(value, "close"@))
        .or_next(json::text_problem(value, "volume"@))
        .or_next(json::text_problem(value, "turnover"@))
        .or_next(json::flag_problem(value, "confirm"@))
        .or_next(json::unsigned_problem(value, "timestamp"@))
}

/// Why a document is no kline message.
pub open spec fn kline_envelope_shape(value: JsonView) -> Option<Seq<char>> {
    providers::prefixed(
        "invalid kline message: "@,
        json::text_problem(value, "topic"@)
            .or_next(json::text_problem(value, "type"@))
            .or_next(json::unsigned_problem(value, "ts"@))
            .or_next(json::list_problem(value, "data"@))
            .or_next(providers::first_complaint(
                json::list_at(value, "data"@),
                |item: JsonView| kline_shape(item),
            )),
    )
}

/// Why a kline is refused.
pub open spec fn kline_problem(item: JsonView) -> Option<Seq<char>> {
    providers::unless(
        json::text_at(item, "interval"@) == "1"@,
        "expected 1m kline interval, got "@ + json::text_at(item, "interval"@),
    )
        .or_next(providers::unless(
            json::unsigned_at(item, "end"@) < u64::MAX,
            "kline end time cannot be normalized to exclusive"@,
        ))
        .or_next(providers::decimal_problem(json::text_at(item, "open"@), "open"@))
        .or_next(providers::decimal_problem(json::text_at(item, "high"@), "high"@))
        .or_next(providers::decimal_problem(json::text_at(item, "low"@), "low"@))
        .or_next(providers::decimal_problem(json::text_at(item, "close"@), "close"@))
        .or_next(providers::decimal_problem(json::text_at(item, "volume"@), "volume"@))
        .or_next(providers::decimal_problem(json::text_at(item, "turnover"@), "turnover"@))
}

/// The candle of a kline. Linear contract volume is base-coin volume; turnover is quote-coin
/// volume. The end time is inclusive, so the candle ends one millisecond later.
pub open spec fn kline_candle(item: JsonView) -> CandleView {
    CandleView {
        interval: "1m"@,
        start_time_ms: json::unsigned_at(item, "start"@),
        end_time_ms: (json::unsigned_at(item, "end"@) + 1) as u64,
        open: json::text_at(item, "open"@),
        high: json::text_at(item, "high"@),
        low: json::text_at(item, "low"@),
        close: json::text_at(item, "close"@),
        base_volume: Some(json::text_at(item, "volume"@)),
        quote_volume: Some(json::text_at(item, "turnover"@)),
        contract_volume: None,
        finality: if json::flag_at(item, "confirm"@) {
            CandleFinality::Closed
        } else {
            CandleFinality::Open
        },
        data_quality: Seq::empty(),
    }
}

/// The events of a run of klines.
pub open spec fn kline_events(
    connection_epoch: u128,
    symbol: Seq<char>,
    time: u64,
    received_at_ms: u64,
    items: Seq<JsonView>,
) -> Seq<ProviderEventView> {
    Seq::new(
        items.len(),
        |i: int|
            providers::event_view(
                connection_epoch,
                Provider::Bybit,
                symbol,
                Some(time),
                received_at_ms,
                None,
                PayloadView::Candle(kline_candle(items[i])),
            ),
    )
}

/// What a kline message means.
pub open spec fn klines_frame(
    state: SessionView,
    value: JsonView,
    received_at_ms: u64,
) -> Result<FrameView, Seq<char>> {
    let kind = json::text_at(value, "type"@);
    let items = json::list_at(value, "data"@);
    match kline_envelope_shape(value).or_next(providers::unless(
        kind == "snapshot"@,
        "unsupported kline message type "@ + kind,
    )) {
        Some(message) => Err(message),
        None => match topic_symbol(json::text_at(value, "topic"@), "kline.1."@, "1m kline"@) {
            Err(message) => Err(message),
            Ok(symbol) => match providers::first_complaint(
                items,
                |item: JsonView| kline_problem(item),
            ) {
                Some(message) => Err(message),
                None => Ok(
                    FrameView::Events(
                        kline_events(
                            state.connection_epoch,
                            symbol,
                            json::unsigned_at(value, "ts"@),
                            received_at_ms,
                            items,
                        ),
                    ),
                ),
            },
        },
    }
}

/// What an event payload does and means, by its topic.
pub open spec fn event_frame(state: SessionView, value: JsonView, received_at_ms: u64) -> (
    SessionView,
    Result<FrameView, Seq<char>>,
) {
    match json::member_of(value, "topic"@) {
        None => (state, Ok(FrameView::Ignored)),
        Some(JsonView::Text(topic)) => if text::begins_with(topic, "tickers."@) {
            tickers_frame(state, json::arranged(value, tickers_layout()), received_at_ms)
        } else if text::begins_with(topic, "kline."@) {
            (
                state,
                klines_frame(state, json::arranged(value, klines_layout()), received_at_ms),
            )
        } else {
            (state, Ok(FrameView::Ignored))
        },
        Some(_) => (state, Err("event field topic must be a string"@)),
    }
}

/// What a document does and means.
pub open spec fn document_frame(state: SessionView, root: JsonView, received_at_ms: u64) -> (
    SessionView,
    Result<FrameView, AdapterErrorView>,
) {
    if !(root is Object) {
        providers::labelled(
            Provider::Bybit,
            (state, Err("top-level payload must be an object"@)),
        )
    } else if let Some(outcome) = control(root) {
        (state, outcome)
    } else {
        providers::labelled(Provider::Bybit, event_frame(state, root, received_at_ms))
    }
}

/// What a text frame does and means.
pub open spec fn text_frame(state: SessionView, text: Seq<char>, received_at_ms: u64) -> (
    SessionView,
    Result<FrameView, AdapterErrorView>,
) {
    match json::document_of(text) {
        Err(message) => providers::labelled(
            Provider::Bybit,
            (state, Err("invalid JSON: "@ + message)),
        ),
        Ok(root) => document_frame(state, root, received_at_ms),
    }
}

/// Every update that a frame of Bybit gives names the venue, the connection it came over and when
/// it was received; a frame changes no connection.
pub proof fn law_updates_are_stamped(state: SessionView, text: Seq<char>, received_at_ms: u64)
    ensures
        text_frame(state, text, received_at_ms).0.connection_epoch == state.connection_epoch,
        text_frame(state, text, received_at_ms).1 matches Ok(frame) ==> {
            &&& providers::has_stamps(
                frame,
                Provider::Bybit,
                state.connection_epoch,
                received_at_ms,
            )
        },
{
}

// ---------------------------------------------------------------------------------------------
// The session
// ---------------------------------------------------------------------------------------------

/// The message of a refused command, after its code where it has one.
fn control_error_message(value: &Json) -> (message: String)
    ensures
        message@ == refusal(value@),
{
    let found = match providers::first_member(value, "ret_msg", "retMsg") {
        Some(found) => Some(found),
        None => value.member("message"),
    };
    let message = match found {
        Some(found) => match found.as_text() {
            Some(message) => message,
            None => "unknown command error",
        },
        None => "unknown command error",
    };
    let code = match providers::first_member(value, "ret_code", "retCode") {
        Some(found) => found.as_signed(),
        None => None,
    };
    match code {
        Some(code) => text::cat4("code ", text::signed_text(code).as_str(), ": ", message),
        None => message.to_owned(),
    }
}

/// The acknowledgement that a control frame is.
fn control_acknowledgement(value: &Json) -> (r: Result<ParsedFrame, AdapterError>)
    ensures
        match r {
            Ok(frame) => acknowledgement(value@) == Ok::<FrameView, AdapterErrorView>(frame@),
            Err(error) => acknowledgement(value@) == Err::<FrameView, AdapterErrorView>(error@),
        },
{
    if let Some(found) = providers::first_member(value, "req_id", "reqId") {
        if let Some(request_id) = found.as_text() {
            if !request_id.is_empty() && text::length(request_id) <= 36 {
                return Ok(ParsedFrame::Acknowledgement { request_id: request_id.to_owned() });
            }
        }
    }
    Err(
        providers::invalid_payload(
            Provider::Bybit,
            "command response is missing a valid request id".to_owned(),
        ),
    )
}

/// The error for data that Bybit should not have sent.
fn invalid<T>(message: &str) -> (r: Result<T, AdapterError>)
    ensures
        r is Err && r->Err_0@ == providers::invalid_data(Provider::Bybit, message@),
{
    Err(providers::invalid_payload(Provider::Bybit, message.to_owned()))
}

/// The answer of a command response.
fn parse_command_response(value: &Json) -> (r: Result<ParsedFrame, AdapterError>)
    requires
        json::member_text(value@, "type"@) == Some("COMMAND_RESP"@),
    ensures
        match r {
            Ok(frame) => control(value@) == Some(Ok::<FrameView, AdapterErrorView>(frame@)),
            Err(error) => control(value@) == Some(Err::<FrameView, AdapterErrorView>(error@)),
        },
{
    if let Some(data) = value.member("data") {
        if let Some(topics) = data.member("failTopics") {
            if let Some(items) = topics.as_list() {
                if items.len() > 0 {
                    let list = json::write(topics);
                    return Err(
                        providers::command_rejected(
                            Provider::Bybit,
                            text::cat2("topics rejected: ", list.as_str()),
                        ),
                    );
                }
                return control_acknowledgement(value);
            }
        }
    }
    invalid("COMMAND_RESP is missing data.failTopics")
}

/// The meaning of a control frame, or nothing where the frame is none.
fn parse_control(value: &Json) -> (r: Option<Result<ParsedFrame, AdapterError>>)
    ensures
        match r {
            None => control(value@) is None,
            Some(Ok(frame)) => control(value@) == Some(Ok::<FrameView, AdapterErrorView>(frame@)),
            Some(Err(error)) => control(value@) == Some(Err::<FrameView, AdapterErrorView>(error@)),
        },
{
    if let Some(kind) = json::find_text(value, "type") {
        if text::same(kind, "COMMAND_RESP") {
            return Some(parse_command_response(value));
        }
    }
    let failed = match json::find_flag(value, "success") {
        Some(flag) => !flag,
        None => false,
    };
    let operation = match value.member("op") {
        Some(field) => match field.as_text() {
            Some(operation) => operation,
            None => {
                return Some(invalid("control field op must be a string"));
            },
        },
        None => {
            if failed {
                return Some(
                    Err(
                        providers::command_rejected(Provider::Bybit, control_error_message(value)),
                    ),
                );
            }
            return None;
        },
    };
    if failed {
        return Some(
            Err(providers::command_rejected(Provider::Bybit, control_error_message(value))),
        );
    }
    if text::same(operation, "ping") || text::same(operation, "pong") {
        return Some(Ok(ParsedFrame::Pong));
    }
    if text::same(operation, "subscribe") || text::same(operation, "unsubscribe") {
        return Some(
            match value.member("success") {
                Some(success) => if success.as_flag().is_some() {
                    control_acknowledgement(value)
                } else {
                    invalid("control field success must be a boolean")
                },
                None => invalid(text::cat2(operation, " response is missing success").as_str()),
            },
        );
    }
    Some(Ok(ParsedFrame::Ignored))
}

/// The fields of a ticker update.
struct TickerUpdate<'a> {
    symbol: &'a str,
    last: Option<&'a str>,
    mark: Option<&'a str>,
    index: Option<&'a str>,
    bid: Option<&'a str>,
    ask: Option<&'a str>,
    funding_rate: Option<&'a str>,
    next_funding_time: Option<&'a str>,
}

impl<'a> TickerUpdate<'a> {
    /// Whether these are the fields of a document.
    spec fn of(&self, value: JsonView) -> bool {
        &&& self.symbol@ == json::text_at(value, "symbol"@)
        &&& providers::name_view(self.last) == json::member_text(value, "lastPrice"@)
        &&& providers::name_view(self.mark) == json::member_text(value, "markPrice"@)
        &&& providers::name_view(self.index) == json::member_text(value, "indexPrice"@)
        &&& providers::name_view(self.bid) == json::member_text(value, "bid1Price"@)
        &&& providers::name_view(self.ask) == json::member_text(value, "ask1Price"@)
        &&& providers::name_view(self.funding_rate) == json::member_text(value, "fundingRate"@)
        &&& providers::name_view(self.next_funding_time) == json::member_text(
            value,
            "nextFundingTime"@,
        )
    }
}

/// Read the fields of a ticker update.
fn read_update<'a>(value: &'a Json) -> (r: Result<TickerUpdate<'a>, String>)
    ensures
        match r {
            Ok(update) => update_shape(value@) is None && update.of(value@),
            Err(message) => update_shape(value@) == Some(message@),
        },
{
    Ok(
        TickerUpdate {
            symbol: json::need_text(value, "symbol")?,
            last: json::may_text(value, "lastPrice")?,
            mark: json::may_text(value, "markPrice")?,
            index: json::may_text(value, "indexPrice")?,
            bid: json::may_text(value, "bid1Price")?,
            ask: json::may_text(value, "ask1Price")?,
            funding_rate: json::may_text(value, "fundingRate")?,
            next_funding_time: json::may_text(value, "nextFundingTime")?,
        },
    )
}

/// A field after an update.
fn set_observation(
    before: Option<ObservedDecimal>,
    given: Option<&str>,
    time: u64,
    field: &str,
    Ghost(value): Ghost<JsonView>,
) -> (r: Result<Option<ObservedDecimal>, String>)
    requires
        providers::name_view(given) == json::member_text(value, field@),
    ensures
        match r {
            Ok(after) => {
                &&& field_problem(value, field@) is None
                &&& domain::observed_view(after) == field_after(
                    domain::observed_view(before),
                    value,
                    field@,
                    time,
                )
            },
            Err(message) => field_problem(value, field@) == Some(message@),
        },
{
    match given {
        Some(text) => if text.is_empty() {
            Ok(before)
        } else {
            Ok(Some(providers::read_observed(text, time, field)?))
        },
        None => Ok(before),
    }
}

/// A ticker after an update whose symbol has been checked.
fn apply_ticker_update(
    base: Ticker,
    update: &TickerUpdate,
    time: u64,
    Ghost(value): Ghost<JsonView>,
    Ghost(symbol): Ghost<Seq<char>>,
) -> (r: Result<Ticker, String>)
    requires
        update.of(value),
        providers::symbol_problem(json::text_at(value, "symbol"@)) is None,
        providers::symbol_of(json::text_at(value, "symbol"@)) == symbol,
    ensures
        match r {
            Ok(ticker) => {
                &&& update_problem(value, symbol) is None
                &&& ticker@ == ticker_after(base@, value, time)
            },
            Err(message) => update_problem(value, symbol) == Some(message@),
        },
{
    let last = set_observation(base.last, update.last, time, "lastPrice", Ghost(value))?;
    let mark = set_observation(base.mark, update.mark, time, "markPrice", Ghost(value))?;
    let index = set_observation(base.index, update.index, time, "indexPrice", Ghost(value))?;
    let bid = set_observation(base.bid, update.bid, time, "bid1Price", Ghost(value))?;
    let ask = set_observation(base.ask, update.ask, time, "ask1Price", Ghost(value))?;
    let funding_rate = set_observation(
        base.funding_rate,
        update.funding_rate,
        time,
        "fundingRate",
        Ghost(value),
    )?;
    let next_funding_time_ms = match update.next_funding_time {
        Some(given) => if given.is_empty() {
            base.next_funding_time_ms
        } else {
            match text::parse_unsigned(given) {
                Ok(time) => Some(time),
                Err(reason) => {
                    return Err(
                        text::cat4(
                            "invalid nextFundingTime ",
                            text::quoted(given).as_str(),
                            ": ",
                            reason,
                        ),
                    );
                },
            }
        },
        None => base.next_funding_time_ms,
    };
    Ok(Ticker { last, mark, index, bid, ask, funding_rate, next_funding_time_ms })
}

/// The symbol of a topic.
fn read_topic_symbol(topic: &str, prefix: &str, kind: &str) -> (r: Result<String, String>)
    ensures
        match r {
            Ok(symbol) => topic_symbol(topic@, prefix@, kind@) == Ok::<Seq<char>, Seq<char>>(
                symbol@,
            ),
            Err(message) => topic_symbol(topic@, prefix@, kind@) == Err::<Seq<char>, Seq<char>>(
                message@,
            ),
        },
{
    match text::strip_prefix(topic, prefix) {
        Some(symbol) => providers::read_symbol(symbol),
        None => Err(text::cat4("invalid ", kind, " topic ", text::quoted(topic).as_str())),
    }
}

/// The updates that a payload holds.
fn one_or_many<'a>(data: &'a Json) -> (r: Result<Vec<TickerUpdate<'a>>, String>)
    ensures
        match r {
            Ok(list) => {
                &&& updates_of(data@) is Ok
                &&& updates_of(data@)->Ok_0.len() == list@.len()
                &&& forall|k: int|
                    0 <= k < list@.len() ==> (#[trigger] list@[k]).of(updates_of(data@)->Ok_0[k])
            },
            Err(message) => updates_of(data@) == Err::<Seq<JsonView>, Seq<char>>(message@),
        },
{
    let mut list: Vec<TickerUpdate<'a>> = Vec::new();
    if data.is_object() {
        return match read_update(data) {
            Ok(update) => {
                list.push(update);
                Ok(list)
            },
            Err(message) => Err(providers::complain("invalid ticker data: ", message)),
        };
    }
    let items = match data.as_list() {
        Some(items) => items,
        None => {
            return Err("ticker data must be an object or array".to_owned());
        },
    };
    let ghost all = json::views(items@);
    let ghost check = |item: JsonView| update_shape(item);
    let mut i: usize = 0;
    while i < items.len()
        invariant
            i <= items@.len(),
            all == json::views(items@),
            data@ == JsonView::List(all),
            check == (|item: JsonView| update_shape(item)),
            providers::first_complaint(all.take(i as int), check) is None,
            list@.len() == i,
            forall|k: int| 0 <= k < i ==> (#[trigger] list@[k]).of(all[k]),
        decreases items.len() - i,
    {
        let item = &items[i];
        proof {
            assert(all[i as int] == item@);
            providers::lemma_next_complaint(all, i as int, check);
        }
        match read_update(item) {
            Ok(update) => {
                list.push(update);
            },
            Err(message) => {
                return Err(providers::complain("invalid ticker data: ", message));
            },
        }
        i += 1;
    }
    proof {
        assert(all.take(i as int) =~= all);
    }
    Ok(list)
}

/// The fields of a kline.
struct Kline<'a> {
    start: u64,
    end: u64,
    interval: &'a str,
    open: &'a str,
    high: &'a str,
    low: &'a str,
    close: &'a str,
    volume: &'a str,
    turnover: &'a str,
    confirm: bool,
}

impl<'a> Kline<'a> {
    /// Whether these are the fields of a document.
    spec fn of(&self, value: JsonView) -> bool {
        &&& self.start == json::unsigned_at(value, "start"@)
        &&& self.end == json::unsigned_at(value, "end"@)
        &&& self.interval@ == json::text_at(value, "interval"@)
        &&& self.open@ == json::text_at(value, "open"@)
        &&& self.high@ == json::text_at(value, "high"@)
        &&& self.low@ == json::text_at(value, "low"@)
        &&& self.close@ == json::text_at(value, "close"@)
        &&& self.volume@ == json::text_at(value, "volume"@)
        &&& self.turnover@ == json::text_at(value, "turnover"@)
        &&& self.confirm == json::flag_at(value, "confirm"@)
    }
}

/// Read the fields of a kline.
fn read_kline<'a>(value: &'a Json) -> (r: Result<Kline<'a>, String>)
    ensures
        match r {
            Ok(kline) => kline_shape(value@) is None && kline.of(value@),
            Err(message) => kline_shape(value@) == Some(message@),
        },
{
    let kline = Kline {
        start: json::need_unsigned(value, "start")?,
        end: json::need_unsigned(value, "end")?,
        interval: json::need_text(value, "interval")?,
        open: json::need_text(value, "open")?,
        high: json::need_text(value, "high")?,
        low: json::need_text(value, "low")?,
        close: json::need_text(value, "close")?,
        volume: json::need_text(value, "volume")?,
        turnover: json::need_text(value, "turnover")?,
        confirm: json::need_flag(value, "confirm")?,
    };
    let _timestamp: u64 = json::need_unsigned(value, "timestamp")?;
    Ok(kline)
}

/// The candle of a kline.
fn normalize_kline(item: &Kline, Ghost(value): Ghost<JsonView>) -> (r: Result<Candle, String>)
    requires
        item.of(value),
    ensures
        match r {
            Ok(candle) => kline_problem(value) is None && candle@ == kline_candle(value),
            Err(message) => kline_problem(value) == Some(message@),
        },
{
    if !text::same(item.interval, "1") {
        return Err(text::cat2("expected 1m kline interval, got ", item.interval));
    }
    if item.end == u64::MAX {
        return Err("kline end time cannot be normalized to exclusive".to_owned());
    }
    let open = providers::read_decimal(item.open, "open")?;
    let high = providers::read_decimal(item.high, "high")?;
    let low = providers::read_decimal(item.low, "low")?;
    let close = providers::read_decimal(item.close, "close")?;
    let base_volume = providers::read_decimal(item.volume, "volume")?;
    let quote_volume = providers::read_decimal(item.turnover, "turnover")?;
    let candle = Candle {
        interval: "1m".to_owned(),
        start_time_ms: item.start,
        end_time_ms: item.end + 1,
        open,
        high,
        low,
        close,
        base_volume: Some(base_volume),
        quote_volume: Some(quote_volume),
        contract_volume: None,
        finality: if item.confirm {
            CandleFinality::Closed
        } else {
            CandleFinality::Open
        },
        data_quality: Vec::new(),
    };
    proof {
        assert(candle.data_quality@ =~= Seq::empty());
    }
    Ok(candle)
}

/// The fields of a kline message.
struct KlineMessage<'a> {
    topic: &'a str,
    kind: &'a str,
    time: u64,
    klines: Vec<Kline<'a>>,
}

/// Read the fields of a kline message.
fn read_kline_envelope<'a>(value: &'a Json) -> (r: Result<KlineMessage<'a>, String>)
    ensures
        match r {
            Ok(message) => {
                let items = json::list_at(value@, "data"@);
                &&& kline_envelope_shape(value@) is None
                &&& message.topic@ == json::text_at(value@, "topic"@)
                &&& message.kind@ == json::text_at(value@, "type"@)
                &&& message.time == json::unsigned_at(value@, "ts"@)
                &&& message.klines@.len() == items.len()
                &&& forall|k: int|
                    0 <= k < items.len() ==> (#[trigger] message.klines@[k]).of(items[k])
            },
            Err(complaint) => providers::prefixed(
                "invalid kline message: "@,
                Some(complaint@),
            ) == kline_envelope_shape(value@),
        },
{
    let topic = json::need_text(value, "topic")?;
    let kind = json::need_text(value, "type")?;
    let time = json::need_unsigned(value, "ts")?;
    let items = json::need_list(value, "data")?;
    let ghost all = json::views(items@);
    let ghost check = |item: JsonView| kline_shape(item);
    let mut klines: Vec<Kline<'a>> = Vec::new();
    let mut i: usize = 0;
    while i < items.len()
        invariant
            i <= items@.len(),
            all == json::views(items@),
            all == json::list_at(value@, "data"@),
            check == (|item: JsonView| kline_shape(item)),
            providers::first_complaint(all.take(i as int), check) is None,
            klines@.len() == i,
            forall|k: int| 0 <= k < i ==> (#[trigger] klines@[k]).of(all[k]),
            json::text_problem(value@, "topic"@) is None,
            json::text_problem(value@, "type"@) is None,
            json::unsigned_problem(value@, "ts"@) is None,
            json::list_problem(value@, "data"@) is None,
        decreases items.len() - i,
    {
        proof {
            assert(all[i as int] == items@[i as int]@);
            providers::lemma_next_complaint(all, i as int, check);
        }
        let kline = read_kline(&items[i])?;
        klines.push(kline);
        i += 1;
    }
    proof {
        assert(all.take(i as int) =~= all);
    }
    Ok(KlineMessage { topic, kind, time, klines })
}

/// The fields of a ticker message.
struct TickerMessage<'a> {
    topic: &'a str,
    kind: &'a str,
    time: u64,
    sequence: u64,
    data: &'a Json,
}

/// Read the fields of a ticker message.
fn read_ticker_envelope<'a>(value: &'a Json) -> (r: Result<TickerMessage<'a>, String>)
    ensures
        match r {
            Ok(message) => {
                &&& ticker_envelope_shape(value@) is None
                &&& message.topic@ == json::text_at(value@, "topic"@)
                &&& message.kind@ == json::text_at(value@, "type"@)
                &&& message.time == json::unsigned_at(value@, "ts"@)
                &&& message.sequence == json::unsigned_at(value@, "cs"@)
                &&& message.data@ == json::value_at(value@, "data"@)
            },
            Err(complaint) => providers::prefixed(
                "invalid ticker message: "@,
                Some(complaint@),
            ) == ticker_envelope_shape(value@),
        },
{
    let topic = json::need_text(value, "topic")?;
    let kind = json::need_text(value, "type")?;
    let time = json::need_unsigned(value, "ts")?;
    let sequence = json::need_unsigned(value, "cs")?;
    match value.member("data") {
        Some(data) => Ok(TickerMessage { topic, kind, time, sequence, data }),
        None => Err(json::missing("data")),
    }
}

impl BybitSession {
    /// A session for a new connection.
    pub fn new(connection_epoch: u128) -> (session: Self)
        ensures
            session@ == providers::fresh(connection_epoch),
    {
        let session = BybitSession { connection_epoch, next_request_id: 1, tickers: Table::new() };
        proof {
            assert(providers::cached(session.tickers) =~= Map::empty());
        }
        session
    }

    /// The command for a batch of topics.
    fn command(&mut self, action: SubscriptionAction, batch: &Vec<String>) -> (made: OutboundCommand)
        ensures
            made@ == command(action, providers::text_views(batch@), old(self)@.next_request_id),
            final(self)@ == (SessionView {
                next_request_id: providers::next_id(old(self)@.next_request_id),
                ..old(self)@
            }),
    {
        let id = providers::take_id(&mut self.next_request_id);
        let request_id = text::cat2("gateway-", text::unsigned_text(id).as_str());
        let operation = match action {
            SubscriptionAction::Subscribe => "subscribe",
            SubscriptionAction::Unsubscribe => "unsubscribe",
        };
        let document = providers::object3(
            providers::member("args", providers::list_document(batch.as_slice())),
            providers::member("op", Json::Text(operation.to_owned())),
            providers::member("req_id", Json::Text(request_id.clone())),
        );
        OutboundCommand { request_id, text: json::write(&document), expected_acknowledgements: 1 }
    }

    /// The commands for a list of topics.
    fn command_messages(&mut self, action: SubscriptionAction, topics: &Vec<String>) -> (list: Vec<
        OutboundCommand,
    >)
        ensures
            ({
                let parts = batches(providers::text_views(topics@));
                &&& providers::command_views(list@) == commands(
                    action,
                    parts,
                    old(self)@.next_request_id,
                )
                &&& final(self)@ == (SessionView {
                    next_request_id: providers::id_after(old(self)@.next_request_id, parts.len()),
                    ..old(self)@
                })
            }),
    {
        let ghost all = providers::text_views(topics@);
        let ghost start = self@;
        let mut list: Vec<OutboundCommand> = Vec::new();
        let mut batch: Vec<String> = Vec::new();
        let mut batch_chars: usize = 0;
        let mut i: usize = 0;
        proof {
            assert(all.take(0) =~= Seq::empty());
            assert(providers::text_views(batch@) =~= Seq::empty());
            assert(providers::command_views(list@) =~= commands(
                action,
                Seq::empty(),
                start.next_request_id,
            ));
        }
        while i < topics.len()
            invariant
                i <= topics@.len(),
                all == providers::text_views(topics@),
                packed(all.take(i as int)).1 == providers::text_views(batch@),
                batch_chars == total_bytes(providers::text_views(batch@)),
                providers::command_views(list@) == commands(
                    action,
                    packed(all.take(i as int)).0,
                    start.next_request_id,
                ),
                self@ == (SessionView {
                    next_request_id: providers::id_after(start.next_request_id, list@.len()),
                    ..start
                }),
            decreases topics.len() - i,
        {
            let topic = topics[i].clone();
            let extra_chars = text::length(topic.as_str());
            let ghost done = packed(all.take(i as int)).0;
            let ghost open = providers::text_views(batch@);
            let ghost before = providers::command_views(list@);
            proof {
                assert(all.take(i + 1).drop_last() =~= all.take(i as int));
                assert(all.take(i + 1).last() == topic@);
            }
            if batch.len() > 0 && (batch.len() == MAX_TOPICS_PER_COMMAND || extra_chars
                > MAX_TOPIC_CHARS_PER_COMMAND || batch_chars > MAX_TOPIC_CHARS_PER_COMMAND
                - extra_chars) {
                let made = self.command(action, &batch);
                let ghost one = made@;
                list.push(made);
                proof {
                    assert(providers::command_views(list@) =~= before.push(one));
                    assert(before.push(one) =~= commands(
                        action,
                        done.push(open),
                        start.next_request_id,
                    ));
                }
                batch = Vec::new();
                batch_chars = 0;
                proof {
                    assert(providers::text_views(batch@) =~= Seq::empty());
                }
            }
            let ghost shorter = providers::text_views(batch@);
            batch.push(topic);
            proof {
                assert(providers::text_views(batch@) =~= shorter.push(topic@));
                assert(shorter.push(topic@).drop_last() =~= shorter);
                assert(total_bytes(shorter.push(topic@)) == total_bytes(shorter)
                    + text::byte_length(topic@));
                assert(shorter.len() == 0 ==> shorter.push(topic@) =~= seq![topic@]);
            }
            batch_chars = batch_chars + extra_chars;
            i += 1;
        }
        proof {
            assert(all.take(i as int) =~= all);
        }
        if batch.len() > 0 {
            let ghost done = packed(all).0;
            let ghost open = providers::text_views(batch@);
            let ghost before = providers::command_views(list@);
            let made = self.command(action, &batch);
            let ghost one = made@;
            list.push(made);
            proof {
                assert(providers::command_views(list@) =~= before.push(one));
                assert(before.push(one) =~= commands(
                    action,
                    done.push(open),
                    start.next_request_id,
                ));
            }
        }
        list
    }

    /// Take in a ticker message.
    fn parse_tickers(&mut self, value: &Json, received_at_ms: u64) -> (r: Result<
        ParsedFrame,
        String,
    >)
        ensures
            providers::agrees(
                final(self)@,
                r,
                tickers_frame(old(self)@, value@, received_at_ms),
            ),
    {
        let envelope = match read_ticker_envelope(value) {
            Ok(envelope) => envelope,
            Err(complaint) => {
                return Err(providers::complain("invalid ticker message: ", complaint));
            },
        };
        let symbol = read_topic_symbol(envelope.topic, "tickers.", "ticker")?;
        let snapshot = if text::same(envelope.kind, "snapshot") {
            true
        } else if text::same(envelope.kind, "delta") {
            false
        } else {
            return Err(text::cat2("unsupported ticker message type ", envelope.kind));
        };
        let updates = one_or_many(envelope.data)?;
        if updates.len() == 0 {
            return Err("ticker data must not be empty".to_owned());
        }
        let start = providers::recall(&self.tickers, &symbol);
        let ghost all = updates_of(envelope.data@)->Ok_0;
        let mut latest = start.clone();
        let mut events: Vec<ProviderEvent> = Vec::new();
        let ghost mut along: Seq<TickerView> = Seq::empty();
        let mut i: usize = 0;
        proof {
            assert(all.take(0) =~= Seq::empty());
            assert(providers::event_views(events@) =~= ticker_events(
                self@.connection_epoch,
                symbol@,
                value@,
                received_at_ms,
                along,
            ));
        }
        while i < updates.len()
            invariant
                i <= updates@.len(),
                all.len() == updates@.len(),
                forall|k: int| 0 <= k < updates@.len() ==> (#[trigger] updates@[k]).of(all[k]),
                self@ == old(self)@,
                envelope.time == json::unsigned_at(value@, "ts"@),
                envelope.sequence == json::unsigned_at(value@, "cs"@),
                start@ == providers::known(self@.tickers, symbol@),
                tickers_frame(old(self)@, value@, received_at_ms) == (match tickers_along(
                    start@,
                    all,
                    snapshot,
                    envelope.time,
                    symbol@,
                ) {
                    Err(message) => (old(self)@, Err::<FrameView, Seq<char>>(message)),
                    Ok(tickers) => (
                        providers::keeping(old(self)@, symbol@, tickers.last()),
                        Ok::<FrameView, Seq<char>>(
                            FrameView::Events(
                                ticker_events(
                                    old(self)@.connection_epoch,
                                    symbol@,
                                    value@,
                                    received_at_ms,
                                    tickers,
                                ),
                            ),
                        ),
                    ),
                }),
                tickers_along(start@, all.take(i as int), snapshot, envelope.time, symbol@) == Ok::<
                    Seq<TickerView>,
                    Seq<char>,
                >(along),
                along.len() == i,
                latest@ == (if i > 0 {
                    along.last()
                } else {
                    start@
                }),
                providers::event_views(events@) == ticker_events(
                    self@.connection_epoch,
                    symbol@,
                    value@,
                    received_at_ms,
                    along,
                ),
            decreases updates.len() - i,
        {
            let update = &updates[i];
            let ghost item = all[i as int];
            proof {
                assert(updates@[i as int].of(all[i as int]));
                assert(all.take(i + 1).drop_last() =~= all.take(i as int));
                assert(all.take(i + 1).last() == item);
                if tickers_along(start@, all.take(i + 1), snapshot, envelope.time, symbol@) is Err {
                    lemma_tickers_along_prefix(
                        start@,
                        all,
                        i + 1,
                        snapshot,
                        envelope.time,
                        symbol@,
                    );
                }
            }
            let payload_symbol = providers::read_symbol(update.symbol)?;
            if !text::same(payload_symbol.as_str(), symbol.as_str()) {
                return Err(
                    text::cat4(
                        "ticker topic symbol ",
                        symbol.as_str(),
                        " does not match payload symbol ",
                        payload_symbol.as_str(),
                    ),
                );
            }
            let base = if snapshot {
                Ticker::default()
            } else {
                latest.clone()
            };
            let ticker = apply_ticker_update(
                base,
                update,
                envelope.time,
                Ghost(item),
                Ghost(symbol@),
            )?;
            let ghost before = along;
            let ghost shown = providers::event_views(events@);
            proof {
                along = along.push(ticker@);
            }
            latest = ticker.clone();
            let event = providers::make_event(
                self.connection_epoch,
                Provider::Bybit,
                symbol.clone(),
                Some(envelope.time),
                received_at_ms,
                Some(
                    SourceSequence {
                        first: None,
                        last: Some(text::unsigned_text(envelope.sequence)),
                        previous: None,
                    },
                ),
                MarketPayload::Ticker(ticker),
            );
            let ghost one = event@;
            events.push(event);
            proof {
                assert(providers::event_views(events@) =~= shown.push(one));
                assert(shown.push(one) =~= ticker_events(
                    self@.connection_epoch,
                    symbol@,
                    value@,
                    received_at_ms,
                    along,
                ));
            }
            i += 1;
        }
        proof {
            assert(all.take(i as int) =~= all);
        }
        providers::remember(&mut self.tickers, &symbol, &latest);
        Ok(ParsedFrame::Events(events))
    }

    /// Take in a kline message.
    fn parse_klines(&self, value: &Json, received_at_ms: u64) -> (r: Result<ParsedFrame, String>)
        ensures
            providers::agrees(
                self@,
                r,
                (self@, klines_frame(self@, value@, received_at_ms)),
            ),
    {
        let envelope = match read_kline_envelope(value) {
            Ok(envelope) => envelope,
            Err(complaint) => {
                return Err(providers::complain("invalid kline message: ", complaint));
            },
        };
        if !text::same(envelope.kind, "snapshot") {
            return Err(text::cat2("unsupported kline message type ", envelope.kind));
        }
        let symbol = read_topic_symbol(envelope.topic, "kline.1.", "1m kline")?;
        let ghost items = json::list_at(value@, "data"@);
        let ghost check = |item: JsonView| kline_problem(item);
        let mut events: Vec<ProviderEvent> = Vec::new();
        let mut i: usize = 0;
        while i < envelope.klines.len()
            invariant
                i <= envelope.klines@.len(),
                envelope.klines@.len() == items.len(),
                items == json::list_at(value@, "data"@),
                envelope.time == json::unsigned_at(value@, "ts"@),
                forall|k: int|
                    0 <= k < items.len() ==> (#[trigger] envelope.klines@[k]).of(items[k]),
                check == (|item: JsonView| kline_problem(item)),
                providers::first_complaint(items.take(i as int), check) is None,
                events@.len() == i,
                forall|k: int|
                    0 <= k < i ==> (#[trigger] events@[k])@ == kline_events(
                        self@.connection_epoch,
                        symbol@,
                        envelope.time,
                        received_at_ms,
                        items,
                    )[k],
                klines_frame(self@, value@, received_at_ms) == (match providers::first_complaint(
                    items,
                    check,
                ) {
                    Some(message) => Err::<FrameView, Seq<char>>(message),
                    None => Ok::<FrameView, Seq<char>>(
                        FrameView::Events(
                            kline_events(
                                self@.connection_epoch,
                                symbol@,
                                envelope.time,
                                received_at_ms,
                                items,
                            ),
                        ),
                    ),
                }),
            decreases envelope.klines.len() - i,
        {
            proof {
                assert(envelope.klines@[i as int].of(items[i as int]));
                providers::lemma_next_complaint(items, i as int, check);
            }
            let candle = normalize_kline(&envelope.klines[i], Ghost(items[i as int]))?;
            events.push(
                providers::make_event(
                    self.connection_epoch,
                    Provider::Bybit,
                    symbol.clone(),
                    Some(envelope.time),
                    received_at_ms,
                    None,
                    MarketPayload::Candle(candle),
                ),
            );
            i += 1;
        }
        proof {
            assert(items.take(i as int) =~= items);
            assert(providers::event_views(events@) =~= kline_events(
                self@.connection_epoch,
                symbol@,
                envelope.time,
                received_at_ms,
                items,
            ));
        }
        Ok(ParsedFrame::Events(events))
    }

    /// Take in an event payload.
    fn parse_event(&mut self, value: &Json, received_at_ms: u64) -> (r: Result<ParsedFrame, String>)
        ensures
            providers::agrees(
                final(self)@,
                r,
                event_frame(old(self)@, value@, received_at_ms),
            ),
    {
        let topic = match value.member("topic") {
            Some(field) => match field.as_text() {
                Some(topic) => topic,
                None => {
                    return Err("event field topic must be a string".to_owned());
                },
            },
            None => {
                return Ok(ParsedFrame::Ignored);
            },
        };
        if text::starts_with(topic, "tickers.") {
            let message = json::arrange(value, &tickers_record());
            self.parse_tickers(&message, received_at_ms)
        } else if text::starts_with(topic, "kline.") {
            let message = json::arrange(value, &klines_record());
            self.parse_klines(&message, received_at_ms)
        } else {
            Ok(ParsedFrame::Ignored)
        }
    }

    /// Take in a document.
    ///
    /// # Errors
    ///
    /// Returns an error when the document is no valid frame or the provider rejects a command.
    pub fn parse_document(&mut self, root: &Json, received_at_ms: u64) -> (r: Result<
        ParsedFrame,
        AdapterError,
    >)
        ensures
            providers::concurs(
                final(self)@,
                r,
                document_frame(old(self)@, root@, received_at_ms),
            ),
    {
        if !root.is_object() {
            return invalid("top-level payload must be an object");
        }
        if let Some(outcome) = parse_control(root) {
            return outcome;
        }
        let parsed = self.parse_event(root, received_at_ms);
        providers::label(Provider::Bybit, parsed)
    }
}

impl AdapterSession for BybitSession {
    open spec fn commands_for(&self, action: SubscriptionAction, keys: Seq<KeyView>) -> Result<
        Seq<CommandView>,
        AdapterErrorView,
    > {
        subscription_outcome(self@, action, keys).1
    }

    open spec fn after_change(
        &self,
        action: SubscriptionAction,
        keys: Seq<KeyView>,
        after: &Self,
    ) -> bool {
        after@ == subscription_outcome(self@, action, keys).0
    }

    open spec fn sign_of_life(&self) -> HeartbeatView {
        HeartbeatView::Text(
                json::text_of(JsonView::Object(seq![("op"@, JsonView::Text("ping"@))])),
            )
    }

    open spec fn after_sign(&self, after: &Self) -> bool {
        after@ == self@
    }

    open spec fn frame_for(&self, text: Seq<char>, received_at_ms: u64) -> Result<
        FrameView,
        AdapterErrorView,
    > {
        text_frame(self@, text, received_at_ms).1
    }

    open spec fn after_frame(&self, text: Seq<char>, received_at_ms: u64, after: &Self) -> bool {
        after@ == text_frame(self@, text, received_at_ms).0
    }

    fn subscription_messages(
        &mut self,
        action: SubscriptionAction,
        subscriptions: &[SubscriptionKey],
    ) -> (r: Result<Vec<OutboundCommand>, AdapterError>)
        ensures
            providers::issues(
                final(self)@,
                r,
                subscription_outcome(old(self)@, action, domain::key_views(subscriptions@)),
            ),
    {
        providers::validate_subscriptions(Provider::Bybit, subscriptions)?;
        let topics = providers::gather(subscriptions);
        if action == SubscriptionAction::Unsubscribe {
            providers::forget_all(&mut self.tickers, subscriptions, subscriptions.len());
        }
        proof {
            let keys = domain::key_views(subscriptions@);
            assert(keys.take(keys.len() as int) =~= keys);
        }
        Ok(self.command_messages(action, &topics))
    }

    fn heartbeat(&mut self) -> (heartbeat: Heartbeat)
        ensures
            heartbeat@ == HeartbeatView::Text(
                json::text_of(JsonView::Object(seq![("op"@, JsonView::Text("ping"@))])),
            ),
            final(self)@ == old(self)@,
    {
        let document = providers::object1(providers::member("op", Json::Text("ping".to_owned())));
        Heartbeat::Text(json::write(&document))
    }

    fn parse(&mut self, text: &str, received_at_ms: u64) -> (r: Result<ParsedFrame, AdapterError>)
        ensures
            providers::concurs(final(self)@, r, text_frame(old(self)@, text@, received_at_ms)),
    {
        match json::read(text) {
            Ok(root) => self.parse_document(&root, received_at_ms),
            Err(message) => invalid(providers::complain("invalid JSON: ", message).as_str()),
        }
    }
}

impl ProviderAdapter for BybitAdapter {
    type Session = BybitSession;

    open spec fn venue(&self) -> Provider {
        Provider::Bybit
    }

    open spec fn route(&self, channel: Channel) -> EndpointKind {
        EndpointKind::Primary
    }

    open spec fn spread(&self) -> Seq<EndpointKind> {
        seq![EndpointKind::Primary]
    }

    open spec fn starts(
        &self,
        endpoint: EndpointKind,
        connection_epoch: u128,
        session: BybitSession,
    ) -> bool {
        session@ == providers::fresh(connection_epoch)
    }

    fn provider(&self) -> (provider: Provider) {
        Provider::Bybit
    }

    fn endpoints(&self) -> (list: Vec<EndpointKind>) {
        let list = BybitAdapter::endpoints(self);
        proof {
            assert(list@[0] == EndpointKind::Primary);
        }
        list
    }

    fn endpoint_for(&self, channel: Channel) -> (endpoint: EndpointKind) {
        BybitAdapter::endpoint_for(self, channel)
    }

    fn session(&self, endpoint: EndpointKind, connection_epoch: u128) -> (session: BybitSession) {
        BybitAdapter::session(self, endpoint, connection_epoch)
    }
}

} // verus!
