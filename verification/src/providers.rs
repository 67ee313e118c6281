//! What the venue adapters share: connections, commands, frames and errors.
pub mod binance;
pub mod bingx;
pub mod bybit;
pub mod fields;
pub mod kucoin;
pub mod mexc;
pub mod okx;

use vstd::prelude::*;

use crate::domain;
use crate::domain::{
    CandleFinality, Channel, KeyView, MarketKind, MarketPayload, PayloadView, Provider,
    ProviderEvent, ProviderEventView, SequenceView, SourceSequence, SubscriptionKey, Ticker,
    TickerView,
};
use crate::json::{Json, Member};
use crate::json;
use crate::table::Table;
use crate::text;

verus! {

/// One of the connections that a venue's streams are spread over.
#[derive(Debug, Clone, Copy, PartialEq, Eq, Structural, Hash, PartialOrd, Ord)]
pub enum EndpointKind {
    Primary,
    Public,
    Business,
}

/// The name of an endpoint.
pub open spec fn endpoint_name(endpoint: EndpointKind) -> Seq<char> {
    match endpoint {
        EndpointKind::Primary => "primary"@,
        EndpointKind::Public => "public"@,
        EndpointKind::Business => "business"@,
    }
}

impl EndpointKind {
    /// The name of the endpoint.
    pub fn name(self) -> (name: &'static str)
        ensures
            name@ == endpoint_name(self),
    {
        match self {
            EndpointKind::Primary => "primary",
            EndpointKind::Public => "public",
            EndpointKind::Business => "business",
        }
    }
}

/// Where and how to connect. Times are in milliseconds.
#[derive(Debug, PartialEq, Eq)]
pub struct ConnectionTarget {
    pub url: String,
    pub command_interval_ms: u64,
    pub subscription_ack_timeout_ms: u64,
    pub heartbeat_interval_ms: u64,
    pub stale_after_ms: u64,
    pub max_message_bytes: usize,
    pub rotate_after_ms: Option<u64>,
}

/// The mathematical value of a connection target.
pub struct TargetView {
    pub url: Seq<char>,
    pub command_interval_ms: u64,
    pub subscription_ack_timeout_ms: u64,
    pub heartbeat_interval_ms: u64,
    pub stale_after_ms: u64,
    pub max_message_bytes: usize,
    pub rotate_after_ms: Option<u64>,
}

impl View for ConnectionTarget {
    type V = TargetView;

    open spec fn view(&self) -> TargetView {
        TargetView {
            url: self.url@,
            command_interval_ms: self.command_interval_ms,
            subscription_ack_timeout_ms: self.subscription_ack_timeout_ms,
            heartbeat_interval_ms: self.heartbeat_interval_ms,
            stale_after_ms: self.stale_after_ms,
            max_message_bytes: self.max_message_bytes,
            rotate_after_ms: self.rotate_after_ms,
        }
    }
}

/// Whether keys are to be subscribed to or not any more.
#[derive(Debug, Clone, Copy, PartialEq, Eq, Structural)]
pub enum SubscriptionAction {
    Subscribe,
    Unsubscribe,
}

/// A sign of life to send.
#[derive(Debug, PartialEq, Eq)]
pub enum Heartbeat {
    Text(String),
    WebSocketPing(Vec<u8>),
}

/// The mathematical value of a sign of life.
pub enum HeartbeatView {
    Text(Seq<char>),
    WebSocketPing(Seq<u8>),
}

impl View for Heartbeat {
    type V = HeartbeatView;

    open spec fn view(&self) -> HeartbeatView {
        match self {
            Heartbeat::Text(text) => HeartbeatView::Text(text@),
            Heartbeat::WebSocketPing(payload) => HeartbeatView::WebSocketPing(payload@),
        }
    }
}

/// A command for a venue, with the number of acknowledgements that it gets.
#[derive(Debug, PartialEq, Eq)]
pub struct OutboundCommand {
    pub request_id: String,
    pub text: String,
    pub expected_acknowledgements: usize,
}

/// The mathematical value of a command.
pub struct CommandView {
    pub request_id: Seq<char>,
    pub text: Seq<char>,
    pub expected_acknowledgements: usize,
}

impl View for OutboundCommand {
    type V = CommandView;

    open spec fn view(&self) -> CommandView {
        CommandView {
            request_id: self.request_id@,
            text: self.text@,
            expected_acknowledgements: self.expected_acknowledgements,
        }
    }
}

impl Clone for OutboundCommand {
    fn clone(&self) -> (copy: Self)
        ensures
            copy@ == self@,
    {
        OutboundCommand {
            request_id: self.request_id.clone(),
            text: self.text.clone(),
            expected_acknowledgements: self.expected_acknowledgements,
        }
    }
}

/// The values of a run of commands.
pub open spec fn command_views(list: Seq<OutboundCommand>) -> Seq<CommandView> {
    Seq::new(list.len(), |i: int| list[i]@)
}

/// What a venue's text frame means.
#[derive(Debug, PartialEq, Eq)]
pub enum ParsedFrame {
    Events(Vec<ProviderEvent>),
    Acknowledgement { request_id: String },
    Reply(Heartbeat),
    Pong,
    Ignored,
}

/// The mathematical value of a frame's meaning.
pub enum FrameView {
    Events(Seq<ProviderEventView>),
    Acknowledgement { request_id: Seq<char> },
    Reply(HeartbeatView),
    Pong,
    Ignored,
}

/// The values of a run of events.
pub open spec fn event_views(list: Seq<ProviderEvent>) -> Seq<ProviderEventView> {
    Seq::new(list.len(), |i: int| list[i]@)
}

impl View for ParsedFrame {
    type V = FrameView;

    open spec fn view(&self) -> FrameView {
        match self {
            ParsedFrame::Events(events) => FrameView::Events(event_views(events@)),
            ParsedFrame::Acknowledgement { request_id } => FrameView::Acknowledgement {
                request_id: request_id@,
            },
            ParsedFrame::Reply(heartbeat) => FrameView::Reply(heartbeat@),
            ParsedFrame::Pong => FrameView::Pong,
            ParsedFrame::Ignored => FrameView::Ignored,
        }
    }
}

/// Why an adapter could not go on.
#[derive(Debug, PartialEq, Eq)]
pub enum AdapterError {
    UnsupportedEndpoint { provider: Provider, endpoint: EndpointKind },
    InvalidSubscription { provider: Provider, message: String },
    InvalidPayload { provider: Provider, message: String },
    CommandRejected { provider: Provider, message: String },
    Discovery { provider: Provider, message: String },
}

/// The mathematical value of an adapter error.
pub enum AdapterErrorView {
    UnsupportedEndpoint { provider: Provider, endpoint: EndpointKind },
    InvalidSubscription { provider: Provider, message: Seq<char> },
    InvalidPayload { provider: Provider, message: Seq<char> },
    CommandRejected { provider: Provider, message: Seq<char> },
    Discovery { provider: Provider, message: Seq<char> },
}

impl View for AdapterError {
    type V = AdapterErrorView;

    open spec fn view(&self) -> AdapterErrorView {
        match self {
            AdapterError::UnsupportedEndpoint { provider, endpoint } => {
                AdapterErrorView::UnsupportedEndpoint { provider: *provider, endpoint: *endpoint }
            },
            AdapterError::InvalidSubscription { provider, message } => {
                AdapterErrorView::InvalidSubscription { provider: *provider, message: message@ }
            },
            AdapterError::InvalidPayload { provider, message } => {
                AdapterErrorView::InvalidPayload { provider: *provider, message: message@ }
            },
            AdapterError::CommandRejected { provider, message } => {
                AdapterErrorView::CommandRejected { provider: *provider, message: message@ }
            },
            AdapterError::Discovery { provider, message } => {
                AdapterErrorView::Discovery { provider: *provider, message: message@ }
            },
        }
    }
}

/// The words for an adapter error.
pub open spec fn adapter_message(error: AdapterErrorView) -> Seq<char> {
    match error {
        AdapterErrorView::UnsupportedEndpoint { provider, endpoint } => {
            "unsupported "@ + domain::provider_name(provider) + " endpoint "@ + endpoint_name(
                endpoint,
            )
        },
        AdapterErrorView::InvalidSubscription { provider, message } => {
            "invalid subscription for "@ + domain::provider_name(provider) + ": "@ + message
        },
        AdapterErrorView::InvalidPayload { provider, message } => {
            domain::provider_name(provider) + " returned invalid data: "@ + message
        },
        AdapterErrorView::CommandRejected { provider, message } => {
            domain::provider_name(provider) + " rejected a command: "@ + message
        },
        AdapterErrorView::Discovery { provider, message } => {
            "could not discover "@ + domain::provider_name(provider) + " websocket endpoint: "@
                + message
        },
    }
}

impl AdapterError {
    /// The error in words.
    pub fn message(&self) -> (message: String)
        ensures
            message@ == adapter_message(self@),
    {
        match self {
            AdapterError::UnsupportedEndpoint { provider, endpoint } => text::cat4(
                "unsupported ",
                provider.name(),
                " endpoint ",
                endpoint.name(),
            ),
            AdapterError::InvalidSubscription { provider, message } => text::cat4(
                "invalid subscription for ",
                provider.name(),
                ": ",
                message.as_str(),
            ),
            AdapterError::InvalidPayload { provider, message } => text::cat3(
                provider.name(),
                " returned invalid data: ",
                message.as_str(),
            ),
            AdapterError::CommandRejected { provider, message } => text::cat3(
                provider.name(),
                " rejected a command: ",
                message.as_str(),
            ),
            AdapterError::Discovery { provider, message } => text::cat4(
                "could not discover ",
                provider.name(),
                " websocket endpoint: ",
                message.as_str(),
            ),
        }
    }
}

/// The value of the result of a subscription change.
pub open spec fn command_result(r: Result<Vec<OutboundCommand>, AdapterError>) -> Result<
    Seq<CommandView>,
    AdapterErrorView,
> {
    match r {
        Ok(list) => Ok(command_views(list@)),
        Err(error) => Err(error@),
    }
}

/// The value of the result of taking in a frame.
pub open spec fn frame_result(r: Result<ParsedFrame, AdapterError>) -> Result<
    FrameView,
    AdapterErrorView,
> {
    match r {
        Ok(frame) => Ok(frame@),
        Err(error) => Err(error@),
    }
}

/// One session on a venue connection: what to send and what frames mean.
pub trait AdapterSession: Send {
    /// The commands that a subscription change gives.
    spec fn commands_for(&self, action: SubscriptionAction, keys: Seq<KeyView>) -> Result<
        Seq<CommandView>,
        AdapterErrorView,
    >;

    /// Whether a subscription change takes this session to another one.
    spec fn after_change(&self, action: SubscriptionAction, keys: Seq<KeyView>, after: &Self) -> bool;

    /// The next sign of life.
    spec fn sign_of_life(&self) -> HeartbeatView;

    /// Whether a sign of life takes this session to another one.
    spec fn after_sign(&self, after: &Self) -> bool;

    /// What a text frame means.
    spec fn frame_for(&self, text: Seq<char>, received_at_ms: u64) -> Result<
        FrameView,
        AdapterErrorView,
    >;

    /// Whether a text frame takes this session to another one.
    spec fn after_frame(&self, text: Seq<char>, received_at_ms: u64, after: &Self) -> bool;

    /// Build provider-native subscription commands for one desired-state diff.
    ///
    /// # Errors
    ///
    /// Returns an error when a subscription is invalid for this provider.
    fn subscription_messages(
        &mut self,
        action: SubscriptionAction,
        subscriptions: &[SubscriptionKey],
    ) -> (r: Result<Vec<OutboundCommand>, AdapterError>)
        ensures
            command_result(r) == old(self).commands_for(action, domain::key_views(subscriptions@)),
            old(self).after_change(action, domain::key_views(subscriptions@), final(self)),
    ;

    /// The next sign of life to send.
    fn heartbeat(&mut self) -> (heartbeat: Heartbeat)
        ensures
            heartbeat@ == old(self).sign_of_life(),
            old(self).after_sign(final(self)),
    ;

    /// Parse one provider text frame into normalized market data or correlated control state.
    ///
    /// # Errors
    ///
    /// Returns an error when the frame is malformed or the provider rejects a command.
    fn parse(&mut self, text: &str, received_at_ms: u64) -> (r: Result<ParsedFrame, AdapterError>)
        ensures
            frame_result(r) == old(self).frame_for(text@, received_at_ms),
            old(self).after_frame(text@, received_at_ms, final(self)),
    ;
}

/// A venue: which endpoints its streams are spread over, and the sessions on them.
pub trait ProviderAdapter: Send + Sync {
    type Session: AdapterSession;

    /// The venue.
    spec fn venue(&self) -> Provider;

    /// The endpoint of a channel.
    spec fn route(&self, channel: Channel) -> EndpointKind;

    /// The endpoints that the venue's streams are spread over.
    spec fn spread(&self) -> Seq<EndpointKind>;

    /// Whether a session is as it is at the start of a connection.
    spec fn starts(
        &self,
        endpoint: EndpointKind,
        connection_epoch: u128,
        session: Self::Session,
    ) -> bool;

    /// The venue.
    fn provider(&self) -> (provider: Provider)
        ensures
            provider == self.venue(),
    ;

    /// The endpoints that the venue's streams are spread over. Every channel goes over one.
    fn endpoints(&self) -> (list: Vec<EndpointKind>)
        ensures
            list@ == self.spread(),
            forall|channel: Channel| list@.contains(#[trigger] self.route(channel)),
    ;

    /// The endpoint of a channel.
    fn endpoint_for(&self, channel: Channel) -> (endpoint: EndpointKind)
        ensures
            endpoint == self.route(channel),
    ;

    /// A session for a new connection.
    fn session(&self, endpoint: EndpointKind, connection_epoch: u128) -> (session: Self::Session)
        ensures
            self.starts(endpoint, connection_epoch, session),
    ;
}

// ---------------------------------------------------------------------------------------------
// Subscriptions of the right venue
// ---------------------------------------------------------------------------------------------

/// The place of the first key of another venue, or the number of keys where there is none.
pub open spec fn first_foreign(provider: Provider, keys: Seq<KeyView>) -> int
    decreases keys.len(),
{
    if keys.len() == 0 || keys[0].provider != provider {
        0
    } else {
        1 + first_foreign(provider, keys.skip(1))
    }
}

/// Why keys cannot be subscribed to on a venue: the first of them is of another one.
pub open spec fn foreign_problem(provider: Provider, keys: Seq<KeyView>) -> Option<
    AdapterErrorView,
> {
    let at = first_foreign(provider, keys);
    if at < keys.len() {
        Some(
            AdapterErrorView::InvalidSubscription {
                provider,
                message: "received "@ + domain::provider_name(keys[at].provider)
                    + " subscription for "@ + keys[at].symbol,
            },
        )
    } else {
        None
    }
}

/// Check that every key is of the venue.
pub(crate) fn validate_subscriptions(provider: Provider, subscriptions: &[SubscriptionKey]) -> (r:
    Result<(), AdapterError>)
    ensures
        match r {
            Ok(_) => foreign_problem(provider, domain::key_views(subscriptions@)) is None,
            Err(error) => foreign_problem(provider, domain::key_views(subscriptions@)) == Some(
                error@,
            ),
        },
{
    let ghost keys = domain::key_views(subscriptions@);
    let mut i: usize = 0;
    proof {
        assert(keys.skip(0) =~= keys);
    }
    while i < subscriptions.len()
        invariant
            i <= subscriptions@.len(),
            keys == domain::key_views(subscriptions@),
            first_foreign(provider, keys) == i + first_foreign(provider, keys.skip(i as int)),
        decreases subscriptions.len() - i,
    {
        let key = &subscriptions[i];
        proof {
            assert(keys.skip(i as int)[0] == key@);
            assert(keys.skip(i as int).skip(1) =~= keys.skip(i + 1));
        }
        if key.provider != provider {
            return Err(
                AdapterError::InvalidSubscription {
                    provider,
                    message: text::cat4(
                        "received ",
                        key.provider.name(),
                        " subscription for ",
                        key.symbol.as_str(),
                    ),
                },
            );
        }
        i += 1;
    }
    Ok(())
}

// ---------------------------------------------------------------------------------------------
// Lists of topics
// ---------------------------------------------------------------------------------------------

/// The characters of a run of texts.
pub open spec fn text_views(list: Seq<String>) -> Seq<Seq<char>> {
    Seq::new(list.len(), |i: int| list[i]@)
}

/// A list with one more item, unless it has the item already.
pub open spec fn with_new<T>(list: Seq<T>, item: T) -> Seq<T> {
    if list.contains(item) {
        list
    } else {
        list.push(item)
    }
}

/// A list with the items of another one after the other, each unless the list has it already.
pub open spec fn with_all_new<T>(list: Seq<T>, items: Seq<T>) -> Seq<T>
    decreases items.len(),
{
    if items.len() == 0 {
        list
    } else {
        with_new(with_all_new(list, items.drop_last()), items.last())
    }
}

/// The native topics of a key on the venues whose commands carry lists of topics.
pub open spec fn native_topics(key: KeyView) -> Seq<Seq<char>> {
    match (key.provider, key.channel) {
        (Provider::Bybit, Channel::Ticker) => seq!["tickers."@ + key.symbol],
        (Provider::Bybit, Channel::Candle1m) => seq!["kline.1."@ + key.symbol],
        (Provider::Binance, Channel::Ticker) => seq![
            text::lowered(key.symbol) + "@ticker"@,
            text::lowered(key.symbol) + "@markPrice@1s"@,
        ],
        (Provider::Binance, Channel::Candle1m) => seq![text::lowered(key.symbol) + "@kline_1m"@],
        (_, Channel::Ticker) => seq![
            key.symbol + "@ticker"@,
            key.symbol + "@markPrice"@,
            key.symbol + "@bookTicker"@,
        ],
        (_, Channel::Candle1m) => seq![key.symbol + "@kline_1m"@],
    }
}

/// The native topics of a run of keys, each once, in the order of their first occurrence.
pub open spec fn gathered(keys: Seq<KeyView>) -> Seq<Seq<char>>
    decreases keys.len(),
{
    if keys.len() == 0 {
        Seq::empty()
    } else {
        with_all_new(gathered(keys.drop_last()), native_topics(keys.last()))
    }
}

/// A list whose items are apart stays so when new items join it.
proof fn lemma_new_once<T>(list: Seq<T>, items: Seq<T>)
    requires
        list.no_duplicates(),
    ensures
        with_all_new(list, items).no_duplicates(),
    decreases items.len(),
{
    if items.len() > 0 {
        lemma_new_once(list, items.drop_last());
    }
}

/// No topic is gathered twice.
pub proof fn lemma_gathered_once(keys: Seq<KeyView>)
    ensures
        gathered(keys).no_duplicates(),
    decreases keys.len(),
{
    if keys.len() > 0 {
        lemma_gathered_once(keys.drop_last());
        lemma_new_once(gathered(keys.drop_last()), native_topics(keys.last()));
    }
}

/// Whether a list has a text.
pub fn has_text(list: &Vec<String>, item: &str) -> (found: bool)
    ensures
        found == text_views(list@).contains(item@),
{
    let mut i: usize = 0;
    while i < list.len()
        invariant
            i <= list@.len(),
            forall|k: int| 0 <= k < i ==> #[trigger] list@[k]@ != item@,
        decreases list.len() - i,
    {
        if text::same(list[i].as_str(), item) {
            proof {
                assert(text_views(list@)[i as int] == item@);
            }
            return true;
        }
        i += 1;
    }
    proof {
        if text_views(list@).contains(item@) {
            let k = choose|k: int| 0 <= k < list@.len() && text_views(list@)[k] == item@;
            assert(list@[k]@ == item@);
        }
    }
    false
}

/// Put a text at the end of a list that does not have it yet.
pub fn push_new(list: &mut Vec<String>, item: String)
    ensures
        text_views(final(list)@) == with_new(text_views(old(list)@), item@),
{
    if !has_text(list, item.as_str()) {
        let ghost before = text_views(list@);
        let ghost added = item@;
        list.push(item);
        proof {
            assert(text_views(list@) =~= before.push(added));
        }
    }
}

/// The native topics of a key.
fn topics_of(key: &SubscriptionKey) -> (topics: Vec<String>)
    ensures
        text_views(topics@) == native_topics(key@),
{
    let symbol = key.symbol.as_str();
    let mut topics: Vec<String> = Vec::new();
    match key.provider {
        Provider::Bybit => match key.channel {
            Channel::Ticker => {
                topics.push(text::cat2("tickers.", symbol));
            },
            Channel::Candle1m => {
                topics.push(text::cat2("kline.1.", symbol));
            },
        },
        Provider::Binance => {
            let symbol = text::to_lower(symbol);
            match key.channel {
                Channel::Ticker => {
                    topics.push(text::cat2(symbol.as_str(), "@ticker"));
                    topics.push(text::cat2(symbol.as_str(), "@markPrice@1s"));
                },
                Channel::Candle1m => {
                    topics.push(text::cat2(symbol.as_str(), "@kline_1m"));
                },
            }
        },
        _ => match key.channel {
            Channel::Ticker => {
                topics.push(text::cat2(symbol, "@ticker"));
                topics.push(text::cat2(symbol, "@markPrice"));
                topics.push(text::cat2(symbol, "@bookTicker"));
            },
            Channel::Candle1m => {
                topics.push(text::cat2(symbol, "@kline_1m"));
            },
        },
    }
    proof {
        assert(text_views(topics@) =~= native_topics(key@));
    }
    topics
}

/// Add the native topics of a key to a list.
pub fn gather_key(list: &mut Vec<String>, key: &SubscriptionKey)
    ensures
        text_views(final(list)@) == with_all_new(text_views(old(list)@), native_topics(key@)),
{
    let topics = topics_of(key);
    let ghost native = native_topics(key@);
    let ghost before = text_views(list@);
    let mut i: usize = 0;
    proof {
        assert(native.take(0) =~= Seq::empty());
    }
    while i < topics.len()
        invariant
            i <= topics@.len(),
            native == text_views(topics@),
            text_views(list@) == with_all_new(before, native.take(i as int)),
        decreases topics.len() - i,
    {
        push_new(list, topics[i].clone());
        proof {
            assert(native.take(i + 1).drop_last() =~= native.take(i as int));
            assert(native.take(i + 1).last() == topics@[i as int]@);
        }
        i += 1;
    }
    proof {
        assert(native.take(i as int) =~= native);
    }
}

/// A list cut into parts of a given length, the last of which may be shorter.
pub open spec fn chunks<T>(list: Seq<T>, size: nat) -> Seq<Seq<T>>
    decreases list.len(),
{
    if list.len() == 0 || size == 0 {
        Seq::empty()
    } else if list.len() <= size {
        seq![list]
    } else {
        seq![list.take(size as int)] + chunks(list.skip(size as int), size)
    }
}

/// The parts of a list joined again.
pub open spec fn joined<T>(parts: Seq<Seq<T>>) -> Seq<T>
    decreases parts.len(),
{
    if parts.len() == 0 {
        Seq::empty()
    } else {
        parts[0] + joined(parts.skip(1))
    }
}

/// Cutting a list into parts loses nothing, changes no order, and gives parts that are neither
/// empty nor longer than asked for.
pub proof fn law_chunks_partition<T>(list: Seq<T>, size: nat)
    requires
        size > 0,
    ensures
        joined(chunks(list, size)) == list,
        forall|i: int|
            0 <= i < chunks(list, size).len() ==> 0 < (#[trigger] chunks(list, size)[i]).len()
                <= size,
    decreases list.len(),
{
    let parts = chunks(list, size);
    if list.len() == 0 {
        assert(joined(parts) =~= list);
    } else if list.len() <= size {
        assert(parts.skip(1) =~= Seq::empty());
        assert(joined(parts.skip(1)) =~= Seq::empty());
        assert(joined(parts) =~= list);
    } else {
        let rest = list.skip(size as int);
        law_chunks_partition(rest, size);
        assert(parts.skip(1) =~= chunks(rest, size));
        assert(joined(parts) =~= list.take(size as int) + rest);
        assert(list.take(size as int) + rest =~= list);
        assert forall|i: int| 0 <= i < parts.len() implies 0 < (#[trigger] parts[i]).len()
            <= size by {
            if i > 0 {
                assert(parts[i] == chunks(rest, size)[i - 1]);
            }
        }
    }
}

/// The number of the request after a given one. Numbers start again at one.
pub open spec fn next_id(id: u64) -> u64 {
    if id == u64::MAX {
        1
    } else {
        (id + 1) as u64
    }
}

/// The number of a request that comes some requests after a given one.
pub open spec fn id_after(id: u64, count: nat) -> u64
    decreases count,
{
    if count == 0 {
        id
    } else {
        next_id(id_after(id, (count - 1) as nat))
    }
}

/// Take the number of the next request.
pub fn take_id(next: &mut u64) -> (id: u64)
    ensures
        id == *old(next),
        *final(next) == next_id(*old(next)),
{
    let id: u64 = *next;
    *next = match id.checked_add(1) {
        Some(following) => following,
        None => 1,
    };
    id
}

// ---------------------------------------------------------------------------------------------
// Tickers kept between frames
// ---------------------------------------------------------------------------------------------

/// The tickers that a session keeps, by symbol.
pub type TickerCache = Table<String, Ticker>;

/// The values of the tickers that a session keeps.
pub open spec fn cached(cache: TickerCache) -> Map<Seq<char>, TickerView> {
    Map::new(|symbol: Seq<char>| cache@.contains_key(symbol), |symbol: Seq<char>| cache@[symbol]@)
}

/// What is known of an instrument: its kept ticker, or the empty one.
pub open spec fn known(tickers: Map<Seq<char>, TickerView>, symbol: Seq<char>) -> TickerView {
    if tickers.contains_key(symbol) {
        tickers[symbol]
    } else {
        domain::empty_ticker()
    }
}

/// The kept ticker of an instrument, or the empty one.
pub fn recall(cache: &TickerCache, symbol: &String) -> (ticker: Ticker)
    ensures
        ticker@ == known(cached(*cache), symbol@),
{
    match cache.get(symbol) {
        Some(ticker) => ticker.clone(),
        None => Ticker::default(),
    }
}

/// Keep a ticker.
pub fn remember(cache: &mut TickerCache, symbol: &String, ticker: &Ticker)
    ensures
        cached(*final(cache)) == cached(*old(cache)).insert(symbol@, ticker@),
{
    cache.insert(symbol.clone(), ticker.clone());
    proof {
        assert(cached(*cache) =~= cached(*old(cache)).insert(symbol@, ticker@));
    }
}

/// Whether the ticker of a symbol is among the keys.
pub open spec fn has_ticker_of(keys: Seq<KeyView>, symbol: Seq<char>) -> bool {
    exists|i: int|
        0 <= i < keys.len() && (#[trigger] keys[i]).channel == Channel::Ticker && keys[i].symbol
            == symbol
}

/// The kept tickers without those whose ticker channel is among the keys.
pub open spec fn released(tickers: Map<Seq<char>, TickerView>, keys: Seq<KeyView>) -> Map<
    Seq<char>,
    TickerView,
> {
    Map::new(
        |symbol: Seq<char>| tickers.contains_key(symbol) && !has_ticker_of(keys, symbol),
        |symbol: Seq<char>| tickers[symbol],
    )
}

/// Forget the ticker of a key that is no longer wanted.
pub(crate) fn forget(cache: &mut TickerCache, key: &SubscriptionKey, Ghost(start): Ghost<
    Map<Seq<char>, TickerView>,
>, Ghost(keys): Ghost<Seq<KeyView>>)
    requires
        cached(*old(cache)) == released(start, keys),
    ensures
        cached(*final(cache)) == released(start, keys.push(key@)),
{
    let ghost longer = keys.push(key@);
    proof {
        assert forall|symbol: Seq<char>| has_ticker_of(longer, symbol) <==> has_ticker_of(
            keys,
            symbol,
        ) || (key@.channel == Channel::Ticker && key@.symbol == symbol) by {
            if has_ticker_of(keys, symbol) {
                let i = choose|i: int|
                    0 <= i < keys.len() && (#[trigger] keys[i]).channel == Channel::Ticker
                        && keys[i].symbol == symbol;
                assert(longer[i] == keys[i]);
            }
            if has_ticker_of(longer, symbol) {
                let i = choose|i: int|
                    0 <= i < longer.len() && (#[trigger] longer[i]).channel == Channel::Ticker
                        && longer[i].symbol == symbol;
                if i < keys.len() {
                    assert(keys[i] == longer[i]);
                }
            }
            assert(longer[keys.len() as int] == key@);
        }
    }
    if key.channel == Channel::Ticker {
        let _ticker = cache.remove(&key.symbol);
    }
    proof {
        let before = released(start, keys);
        let after = released(start, longer);
        assert forall|symbol: Seq<char>| cached(*cache).contains_key(symbol) <==> after.contains_key(
            symbol,
        ) by {
            assert(before.contains_key(symbol) <==> cached(*old(cache)).contains_key(symbol));
        }
        assert forall|symbol: Seq<char>| cached(*cache).contains_key(symbol) implies cached(*cache)[symbol]
            == after[symbol] by {
            assert(before.contains_key(symbol));
            assert(before[symbol] == cached(*old(cache))[symbol]);
        }
        assert(cached(*cache) =~= after);
    }
}

/// Forget the tickers whose channel is among the first keys of a list.
pub fn forget_all(cache: &mut TickerCache, keys: &[SubscriptionKey], count: usize)
    requires
        count <= keys@.len(),
    ensures
        cached(*final(cache)) == released(
            cached(*old(cache)),
            domain::key_views(keys@).take(count as int),
        ),
{
    let ghost start = cached(*cache);
    let ghost all = domain::key_views(keys@);
    let mut i: usize = 0;
    proof {
        assert(all.take(0) =~= Seq::empty());
        assert(released(start, all.take(0)) =~= start);
    }
    while i < count
        invariant
            i <= count <= keys@.len(),
            all == domain::key_views(keys@),
            cached(*cache) == released(start, all.take(i as int)),
        decreases count - i,
    {
        forget(cache, &keys[i], Ghost(start), Ghost(all.take(i as int)));
        proof {
            assert(all.take(i + 1) =~= all.take(i as int).push(keys@[i as int]@));
        }
        i += 1;
    }
}

/// The native topics of a list of keys, each once, in the order of their first occurrence.
pub fn gather(keys: &[SubscriptionKey]) -> (topics: Vec<String>)
    ensures
        text_views(topics@) == gathered(domain::key_views(keys@)),
{
    let ghost all = domain::key_views(keys@);
    let mut topics: Vec<String> = Vec::new();
    let mut i: usize = 0;
    proof {
        assert(all.take(0) =~= Seq::empty());
        assert(text_views(topics@) =~= Seq::empty());
    }
    while i < keys.len()
        invariant
            i <= keys@.len(),
            all == domain::key_views(keys@),
            text_views(topics@) == gathered(all.take(i as int)),
        decreases keys.len() - i,
    {
        gather_key(&mut topics, &keys[i]);
        proof {
            assert(all.take(i + 1).drop_last() =~= all.take(i as int));
            assert(all.take(i + 1).last() == keys@[i as int]@);
        }
        i += 1;
    }
    proof {
        assert(all.take(i as int) =~= all);
    }
    topics
}

// ---------------------------------------------------------------------------------------------
// Events and command texts
// ---------------------------------------------------------------------------------------------

/// An update of one venue.
pub open spec fn event_view(
    connection_epoch: u128,
    provider: Provider,
    symbol: Seq<char>,
    exchange_time_ms: Option<u64>,
    received_at_ms: u64,
    source_sequence: Option<SequenceView>,
    payload: PayloadView,
) -> ProviderEventView {
    ProviderEventView {
        connection_epoch,
        provider,
        market: MarketKind::LinearPerpetual,
        symbol,
        exchange_time_ms,
        gateway_received_time_ms: received_at_ms,
        source_sequence,
        payload,
    }
}

/// Whether an update says which venue, market and connection it comes from, and when it was
/// received.
pub open spec fn is_stamped(
    event: ProviderEventView,
    provider: Provider,
    connection_epoch: u128,
    received_at_ms: u64,
) -> bool {
    &&& event.provider == provider
    &&& event.market == MarketKind::LinearPerpetual
    &&& event.connection_epoch == connection_epoch
    &&& event.gateway_received_time_ms == received_at_ms
}

/// Whether every update of a frame is stamped.
pub open spec fn has_stamps(
    frame: FrameView,
    provider: Provider,
    connection_epoch: u128,
    received_at_ms: u64,
) -> bool {
    match frame {
        FrameView::Events(events) => forall|i: int|
            0 <= i < events.len() ==> is_stamped(
                #[trigger] events[i],
                provider,
                connection_epoch,
                received_at_ms,
            ),
        _ => true,
    }
}

/// Whether no candle of a frame is said to be open or closed.
pub open spec fn leaves_finality_open(frame: FrameView) -> bool {
    match frame {
        FrameView::Events(events) => forall|i: int|
            0 <= i < events.len() ==> match (#[trigger] events[i]).payload {
                PayloadView::Candle(candle) => candle.finality == CandleFinality::Unknown,
                _ => true,
            },
        _ => true,
    }
}

/// A frame with one event.
pub fn one_event(event: ProviderEvent) -> (frame: ParsedFrame)
    ensures
        frame@ == FrameView::Events(seq![event@]),
{
    let ghost value = event@;
    let mut events: Vec<ProviderEvent> = Vec::new();
    events.push(event);
    proof {
        assert(event_views(events@) =~= seq![value]);
    }
    ParsedFrame::Events(events)
}

/// A list of texts as a document.
pub open spec fn text_list(items: Seq<Seq<char>>) -> json::JsonView {
    json::JsonView::List(Seq::new(items.len(), |i: int| json::JsonView::Text(items[i])))
}

/// A list of texts as a document.
pub fn list_document(items: &[String]) -> (value: Json)
    ensures
        value@ == text_list(text_views(items@)),
{
    let mut list: Vec<Json> = Vec::new();
    let mut i: usize = 0;
    while i < items.len()
        invariant
            i <= items@.len(),
            list@.len() == i,
            forall|k: int|
                0 <= k < i ==> (#[trigger] list@[k])@ == json::JsonView::Text(items@[k]@),
        decreases items.len() - i,
    {
        list.push(Json::Text(items[i].clone()));
        i += 1;
    }
    let value = Json::List(list);
    proof {
        assert(value@->List_0 =~= text_list(text_views(items@))->List_0);
    }
    value
}

/// A member of an object.
pub fn member(name: &str, value: Json) -> (made: Member)
    ensures
        made.name@ == name@,
        made.value@ == value@,
{
    Member { name: name.to_owned(), value }
}

/// An object with one member.
pub fn object1(a: Member) -> (value: Json)
    ensures
        value@ == json::JsonView::Object(seq![(a.name@, a.value@)]),
{
    let ghost goal = seq![(a.name@, a.value@)];
    let value = Json::Object(vec![a]);
    proof {
        assert(value@->Object_0 =~= goal);
    }
    value
}

/// An object with two members.
pub fn object2(a: Member, b: Member) -> (value: Json)
    ensures
        value@ == json::JsonView::Object(seq![(a.name@, a.value@), (b.name@, b.value@)]),
{
    let ghost goal = seq![(a.name@, a.value@), (b.name@, b.value@)];
    let value = Json::Object(vec![a, b]);
    proof {
        assert(value@->Object_0 =~= goal);
    }
    value
}

/// An object with three members.
pub fn object3(a: Member, b: Member, c: Member) -> (value: Json)
    ensures
        value@ == json::JsonView::Object(
            seq![(a.name@, a.value@), (b.name@, b.value@), (c.name@, c.value@)],
        ),
{
    let ghost goal = seq![(a.name@, a.value@), (b.name@, b.value@), (c.name@, c.value@)];
    let value = Json::Object(vec![a, b, c]);
    proof {
        assert(value@->Object_0 =~= goal);
    }
    value
}

// ---------------------------------------------------------------------------------------------
// Checks in order
// ---------------------------------------------------------------------------------------------

/// Complaints of checks that are made one after the other.
pub trait Complaints: Sized {
    /// The complaint of the first check, or that of the next one where the first has none.
    spec fn or_next(self, next: Self) -> Self;
}

impl Complaints for Option<Seq<char>> {
    open spec fn or_next(self, next: Self) -> Self {
        match self {
            Some(_) => self,
            None => next,
        }
    }
}

/// A complaint with words before it.
pub open spec fn prefixed(prefix: Seq<char>, complaint: Option<Seq<char>>) -> Option<Seq<char>> {
    match complaint {
        Some(message) => Some(prefix + message),
        None => None,
    }
}

/// A complaint that is made under a condition.
pub open spec fn unless(condition: bool, message: Seq<char>) -> Option<Seq<char>> {
    if condition {
        None
    } else {
        Some(message)
    }
}

/// Why a named value is no decimal.
pub open spec fn decimal_problem(value: Seq<char>, field: Seq<char>) -> Option<Seq<char>> {
    unless(
        domain::is_decimal(value),
        "invalid "@ + field + " "@ + text::debug_text(value) + ": "@ + domain::domain_message(
            domain::DomainErrorView::InvalidDecimal(value),
        ),
    )
}

/// Why a text is no venue symbol.
pub open spec fn symbol_problem(symbol: Seq<char>) -> Option<Seq<char>> {
    match domain::symbol_identity(symbol) {
        Ok(_) => None,
        Err(error) => Some(
            "invalid symbol "@ + text::debug_text(symbol) + ": "@ + domain::domain_message(error),
        ),
    }
}

/// The identity of a symbol, or the empty text where it is none.
pub open spec fn symbol_of(symbol: Seq<char>) -> Seq<char> {
    match domain::symbol_identity(symbol) {
        Ok(identity) => identity,
        Err(_) => Seq::empty(),
    }
}

/// An observed value.
pub open spec fn observed(value: Seq<char>, observed_at_ms: u64) -> Option<domain::ObservedView> {
    Some(domain::ObservedView { value, observed_at_ms })
}

/// Words before a complaint.
pub fn complain(prefix: &str, message: String) -> (complaint: String)
    ensures
        complaint@ == prefix@ + message@,
{
    text::cat2(prefix, message.as_str())
}

/// Read a decimal.
pub fn read_decimal(value: &str, field: &str) -> (r: Result<domain::DecimalValue, String>)
    ensures
        match r {
            Ok(decimal) => decimal_problem(value@, field@) is None && decimal@ == value@,
            Err(message) => decimal_problem(value@, field@) == Some(message@),
        },
{
    match domain::DecimalValue::new(value) {
        Ok(decimal) => Ok(decimal),
        Err(error) => Err(
            text::cat6(
                "invalid ",
                field,
                " ",
                text::quoted(value).as_str(),
                ": ",
                error.message().as_str(),
            ),
        ),
    }
}

/// Read a decimal with the time at which it was observed.
pub fn read_observed(value: &str, observed_at_ms: u64, field: &str) -> (r: Result<
    domain::ObservedDecimal,
    String,
>)
    ensures
        match r {
            Ok(decimal) => {
                &&& decimal_problem(value@, field@) is None
                &&& Some(decimal@) == observed(value@, observed_at_ms)
            },
            Err(message) => decimal_problem(value@, field@) == Some(message@),
        },
{
    let value = read_decimal(value, field)?;
    Ok(domain::ObservedDecimal { value, observed_at_ms })
}

/// Read a venue symbol.
pub fn read_symbol(symbol: &str) -> (r: Result<String, String>)
    ensures
        match r {
            Ok(identity) => symbol_problem(symbol@) is None && identity@ == symbol_of(symbol@),
            Err(message) => symbol_problem(symbol@) == Some(message@),
        },
{
    match domain::normalize_symbol(symbol) {
        Ok(identity) => Ok(identity),
        Err(error) => Err(
            text::cat4(
                "invalid symbol ",
                text::quoted(symbol).as_str(),
                ": ",
                error.message().as_str(),
            ),
        ),
    }
}

/// The error for data that a venue should not have sent.
pub open spec fn invalid_data(provider: Provider, message: Seq<char>) -> AdapterErrorView {
    AdapterErrorView::InvalidPayload { provider, message }
}

/// The error for a command that a venue refused.
pub open spec fn rejected(provider: Provider, message: Seq<char>) -> AdapterErrorView {
    AdapterErrorView::CommandRejected { provider, message }
}

/// The error for data that a venue should not have sent.
pub fn invalid_payload(provider: Provider, message: String) -> (error: AdapterError)
    ensures
        error@ == invalid_data(provider, message@),
{
    AdapterError::InvalidPayload { provider, message }
}

/// The error for a command that a venue refused.
pub fn command_rejected(provider: Provider, message: String) -> (error: AdapterError)
    ensures
        error@ == rejected(provider, message@),
{
    AdapterError::CommandRejected { provider, message }
}

/// The parts of a list as mathematical values.
pub open spec fn part_views<T>(parts: Seq<Vec<T>>) -> Seq<Seq<T>> {
    Seq::new(parts.len(), |i: int| parts[i]@)
}

/// Cut a list into parts of a given length.
pub fn cut<T>(list: Vec<T>, size: usize) -> (parts: Vec<Vec<T>>)
    requires
        size > 0,
    ensures
        part_views(parts@) == chunks(list@, size as nat),
{
    let mut parts: Vec<Vec<T>> = Vec::new();
    let mut rest = list;
    proof {
        assert(part_views(parts@) + chunks(rest@, size as nat) =~= chunks(list@, size as nat));
    }
    while rest.len() > size
        invariant
            size > 0,
            part_views(parts@) + chunks(rest@, size as nat) == chunks(list@, size as nat),
        decreases rest.len(),
    {
        let ghost whole = rest@;
        let ghost before = part_views(parts@);
        let tail = rest.split_off(size);
        proof {
            assert(rest@ =~= whole.take(size as int));
            assert(tail@ =~= whole.skip(size as int));
        }
        parts.push(rest);
        rest = tail;
        proof {
            assert(part_views(parts@) =~= before.push(whole.take(size as int)));
            assert(part_views(parts@) + chunks(rest@, size as nat) =~= before + chunks(
                whole,
                size as nat,
            ));
        }
    }
    if rest.len() > 0 {
        let ghost before = part_views(parts@);
        let ghost last = rest@;
        parts.push(rest);
        proof {
            assert(part_views(parts@) =~= before.push(last));
            assert(chunks(last, size as nat) =~= seq![last]);
        }
    }
    proof {
        assert(part_views(parts@) =~= chunks(list@, size as nat));
    }
    parts
}

/// The parts of a list of texts are the lists of the texts of its parts.
pub proof fn lemma_text_chunks(list: Seq<String>, size: nat)
    requires
        size > 0,
    ensures
        chunks(text_views(list), size).len() == chunks(list, size).len(),
        forall|i: int|
            0 <= i < chunks(list, size).len() ==> #[trigger] chunks(text_views(list), size)[i]
                == text_views(chunks(list, size)[i]),
    decreases list.len(),
{
    if list.len() > size {
        let rest = list.skip(size as int);
        lemma_text_chunks(rest, size);
        assert(text_views(list).skip(size as int) =~= text_views(rest));
        assert(text_views(list).take(size as int) =~= text_views(list.take(size as int)));
        assert forall|i: int| 0 <= i < chunks(list, size).len() implies #[trigger] chunks(
            text_views(list),
            size,
        )[i] == text_views(chunks(list, size)[i]) by {
            if i > 0 {
                assert(chunks(text_views(list), size)[i] == chunks(text_views(rest), size)[i - 1]);
                assert(chunks(list, size)[i] == chunks(rest, size)[i - 1]);
            }
        }
    }
}

/// The parts of a mapped list are the mapped parts of the list.
pub proof fn lemma_mapped_chunks<T, U>(list: Seq<T>, f: spec_fn(T) -> U, size: nat)
    requires
        size > 0,
    ensures
        chunks(list.map_values(f), size).len() == chunks(list, size).len(),
        forall|i: int|
            0 <= i < chunks(list, size).len() ==> #[trigger] chunks(list.map_values(f), size)[i]
                == chunks(list, size)[i].map_values(f),
    decreases list.len(),
{
    let mapped = list.map_values(f);
    if list.len() > size {
        let rest = list.skip(size as int);
        lemma_mapped_chunks(rest, f, size);
        assert(mapped.skip(size as int) =~= rest.map_values(f));
        assert(mapped.take(size as int) =~= list.take(size as int).map_values(f));
        assert forall|i: int| 0 <= i < chunks(list, size).len() implies #[trigger] chunks(
            mapped,
            size,
        )[i] == chunks(list, size)[i].map_values(f) by {
            if i > 0 {
                assert(chunks(mapped, size)[i] == chunks(rest.map_values(f), size)[i - 1]);
                assert(chunks(list, size)[i] == chunks(rest, size)[i - 1]);
            }
        }
    }
}

/// The part of a session's state that every venue has.
pub struct SessionView {
    pub connection_epoch: u128,
    pub next_request_id: u64,
    pub tickers: Map<Seq<char>, TickerView>,
}

/// The kept tickers after a subscription change.
pub open spec fn tickers_after(
    tickers: Map<Seq<char>, TickerView>,
    action: SubscriptionAction,
    keys: Seq<KeyView>,
) -> Map<Seq<char>, TickerView> {
    match action {
        SubscriptionAction::Subscribe => tickers,
        SubscriptionAction::Unsubscribe => released(tickers, keys),
    }
}

/// Whether a state and a result are those of an outcome whose complaints are texts.
pub open spec fn agrees<S>(
    state: S,
    result: Result<ParsedFrame, String>,
    outcome: (S, Result<FrameView, Seq<char>>),
) -> bool {
    &&& state == outcome.0
    &&& match result {
        Ok(frame) => outcome.1 == Ok::<FrameView, Seq<char>>(frame@),
        Err(message) => outcome.1 == Err::<FrameView, Seq<char>>(message@),
    }
}

/// Whether a state and a result are those of an outcome.
pub open spec fn concurs<S>(
    state: S,
    result: Result<ParsedFrame, AdapterError>,
    outcome: (S, Result<FrameView, AdapterErrorView>),
) -> bool {
    &&& state == outcome.0
    &&& match result {
        Ok(frame) => outcome.1 == Ok::<FrameView, AdapterErrorView>(frame@),
        Err(error) => outcome.1 == Err::<FrameView, AdapterErrorView>(error@),
    }
}

/// Whether a state and a result are those of a subscription change.
pub open spec fn issues<S>(
    state: S,
    result: Result<Vec<OutboundCommand>, AdapterError>,
    outcome: (S, Result<Seq<CommandView>, AdapterErrorView>),
) -> bool {
    &&& state == outcome.0
    &&& match result {
        Ok(list) => outcome.1 == Ok::<Seq<CommandView>, AdapterErrorView>(command_views(list@)),
        Err(error) => outcome.1 == Err::<Seq<CommandView>, AdapterErrorView>(error@),
    }
}

// ---------------------------------------------------------------------------------------------
// Checks of lists
// ---------------------------------------------------------------------------------------------

/// The complaint about the first item of a list that is not in order.
pub open spec fn first_complaint(
    items: Seq<json::JsonView>,
    check: spec_fn(json::JsonView) -> Option<Seq<char>>,
) -> Option<Seq<char>>
    decreases items.len(),
{
    if items.len() == 0 {
        None
    } else {
        first_complaint(items.drop_last(), check).or_next(check(items.last()))
    }
}

/// The complaint about a prefix of a list is the complaint about the list.
pub proof fn lemma_first_complaint(
    items: Seq<json::JsonView>,
    count: int,
    check: spec_fn(json::JsonView) -> Option<Seq<char>>,
)
    requires
        0 <= count <= items.len(),
        first_complaint(items.take(count), check) is Some,
    ensures
        first_complaint(items, check) == first_complaint(items.take(count), check),
    decreases items.len(),
{
    if count < items.len() {
        assert(items.drop_last().take(count) =~= items.take(count));
        lemma_first_complaint(items.drop_last(), count, check);
    } else {
        assert(items.take(count) =~= items);
    }
}

/// One more item of a list is checked.
pub proof fn lemma_next_complaint(
    items: Seq<json::JsonView>,
    index: int,
    check: spec_fn(json::JsonView) -> Option<Seq<char>>,
)
    requires
        0 <= index < items.len(),
        first_complaint(items.take(index), check) is None,
    ensures
        check(items[index]) is None ==> first_complaint(items.take(index + 1), check) is None,
        check(items[index]) is Some ==> first_complaint(items, check) == check(items[index]),
{
    let longer = items.take(index + 1);
    assert(longer.drop_last() =~= items.take(index));
    assert(longer.last() == items[index]);
    if check(items[index]) is Some {
        lemma_first_complaint(items, index + 1, check);
    }
}

/// A sequence of which only the last number is known.
pub open spec fn last_sequence(last: Seq<char>) -> Option<SequenceView> {
    Some(SequenceView { first: None, last: Some(last), previous: None })
}

/// The first of two members that an object has.
pub open spec fn member_or(
    value: json::JsonView,
    name: Seq<char>,
    other: Seq<char>,
) -> Option<json::JsonView> {
    match json::member_of(value, name) {
        Some(found) => Some(found),
        None => json::member_of(value, other),
    }
}

/// The first of two members that an object has.
pub fn first_member<'a>(value: &'a Json, name: &str, other: &str) -> (found: Option<&'a Json>)
    ensures
        match found {
            Some(member) => member_or(value@, name@, other@) == Some(member@),
            None => member_or(value@, name@, other@) is None,
        },
{
    match value.member(name) {
        Some(found) => Some(found),
        None => value.member(other),
    }
}

/// The characters of an optional text.
pub open spec fn name_view(name: Option<&str>) -> Option<Seq<char>> {
    match name {
        Some(text) => Some(text@),
        None => None,
    }
}

/// An update of a venue.
pub fn make_event(
    connection_epoch: u128,
    provider: Provider,
    symbol: String,
    exchange_time_ms: Option<u64>,
    received_at_ms: u64,
    source_sequence: Option<SourceSequence>,
    payload: MarketPayload,
) -> (event: ProviderEvent)
    ensures
        event@ == event_view(
            connection_epoch,
            provider,
            symbol@,
            exchange_time_ms,
            received_at_ms,
            domain::sequence_view(source_sequence),
            payload@,
        ),
{
    ProviderEvent {
        connection_epoch,
        provider,
        market: MarketKind::LinearPerpetual,
        symbol,
        exchange_time_ms,
        gateway_received_time_ms: received_at_ms,
        source_sequence,
        payload,
    }
}

/// A message-level outcome with its complaint as an adapter error of a venue.
pub open spec fn labelled<S>(provider: Provider, outcome: (S, Result<FrameView, Seq<char>>)) -> (
    S,
    Result<FrameView, AdapterErrorView>,
) {
    match outcome.1 {
        Ok(frame) => (outcome.0, Ok(frame)),
        Err(message) => (outcome.0, Err(invalid_data(provider, message))),
    }
}

/// A message-level result with its complaint as an adapter error of a venue.
pub fn label(provider: Provider, result: Result<ParsedFrame, String>) -> (labelled: Result<
    ParsedFrame,
    AdapterError,
>)
    ensures
        match result {
            Ok(frame) => labelled == Ok::<ParsedFrame, AdapterError>(frame),
            Err(message) => labelled is Err && labelled->Err_0@ == invalid_data(provider, message@),
        },
{
    match result {
        Ok(frame) => Ok(frame),
        Err(message) => Err(invalid_payload(provider, message)),
    }
}

/// The state of a session with another ticker kept.
pub open spec fn keeping(state: SessionView, symbol: Seq<char>, ticker: TickerView) -> SessionView {
    SessionView { tickers: state.tickers.insert(symbol, ticker), ..state }
}

/// The state of a new session.
pub open spec fn fresh(connection_epoch: u128) -> SessionView {
    SessionView { connection_epoch, next_request_id: 1, tickers: Map::empty() }
}

} // verus!
