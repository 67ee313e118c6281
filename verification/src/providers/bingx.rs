//! BingX perpetual swaps.
use vstd::prelude::*;

use crate::domain;
use crate::domain::{
    Candle, CandleFinality, CandleView, Channel, KeyView, MarketPayload, PayloadView, Provider,
    ProviderEvent, ProviderEventView, SequenceView, SourceSequence, SubscriptionKey, TickerView,
    CANDLE_INTERVAL_MS,
};
use crate::json;
use crate::json::{Json, JsonView, Layout, LayoutView};
use crate::providers;
use crate::providers::{
    AdapterError, AdapterErrorView, AdapterSession, CommandView, Complaints, ConnectionTarget,
    EndpointKind, FrameView, Heartbeat, HeartbeatView, OutboundCommand, ParsedFrame,
    ProviderAdapter, SessionView, SubscriptionAction, TargetView, TickerCache,
};
use crate::table::Table;
use crate::text;

verus! {

pub const BINGX_SWAP_URL: &'static str = "wss://open-api-swap.bingx.com/swap-market";

/// BingX documents the topic ceiling of a connection, but no command-rate ceiling. Subscription
/// changes are paced while a full connection still becomes ready in a reasonable time.
pub const COMMAND_INTERVAL_MS: u64 = 100;

pub const SUBSCRIPTION_ACK_TIMEOUT_MS: u64 = 15_000;

/// The server sends its application-level Ping about every five seconds. The scheduled Pong is a
/// fallback if a Ping is lost; received Pings are answered at once.
pub const HEARTBEAT_INTERVAL_MS: u64 = 4_000;

pub const STALE_AFTER_MS: u64 = 20_000;

pub const MAX_MESSAGE_BYTES: usize = 1_048_576;

pub const MAX_TOPICS_PER_CONNECTION: usize = 200;

/// The adapter for BingX perpetual swap streams.
#[derive(Debug)]
pub struct BingxAdapter {
    url: String,
}

impl BingxAdapter {
    /// The URL that the adapter connects to.
    pub closed spec fn url(&self) -> Seq<char> {
        self.url@
    }

    /// An adapter for the official URL.
    pub fn new() -> (adapter: Self)
        ensures
            adapter.url() == BINGX_SWAP_URL@,
    {
        Self::with_url(BINGX_SWAP_URL.to_owned())
    }

    /// An adapter for a given URL.
    pub fn with_url(url: String) -> (adapter: Self)
        ensures
            adapter.url() == url@,
    {
        BingxAdapter { url }
    }

    /// The venue.
    pub fn provider(&self) -> (provider: Provider)
        ensures
            provider == Provider::Bingx,
    {
        Provider::Bingx
    }

    /// The endpoints that the venue's streams are spread over.
    pub fn endpoints(&self) -> (list: Vec<EndpointKind>)
        ensures
            list@ == seq![EndpointKind::Primary],
    {
        vec![EndpointKind::Primary]
    }

    /// The endpoint of a channel.
    pub fn endpoint_for(&self, channel: Channel) -> (endpoint: EndpointKind)
        ensures
            endpoint == EndpointKind::Primary,
    {
        EndpointKind::Primary
    }

    /// Where and how to connect.
    ///
    /// # Errors
    ///
    /// Returns [`AdapterError::UnsupportedEndpoint`] for any endpoint but the primary one.
    pub fn connection_target(&self, endpoint: EndpointKind) -> (r: Result<
        ConnectionTarget,
        AdapterError,
    >)
        ensures
            match r {
                Ok(target) => endpoint == EndpointKind::Primary && target@ == (TargetView {
                    url: self.url(),
                    command_interval_ms: COMMAND_INTERVAL_MS,
                    subscription_ack_timeout_ms: SUBSCRIPTION_ACK_TIMEOUT_MS,
                    heartbeat_interval_ms: HEARTBEAT_INTERVAL_MS,
                    stale_after_ms: STALE_AFTER_MS,
                    max_message_bytes: MAX_MESSAGE_BYTES,
                    rotate_after_ms: None,
                }),
                Err(error) => endpoint != EndpointKind::Primary && error@
                    == (AdapterErrorView::UnsupportedEndpoint {
                    provider: Provider::Bingx,
                    endpoint,
                }),
            },
    {
        if endpoint != EndpointKind::Primary {
            return Err(AdapterError::UnsupportedEndpoint { provider: Provider::Bingx, endpoint });
        }
        Ok(
            ConnectionTarget {
                url: self.url.clone(),
                command_interval_ms: COMMAND_INTERVAL_MS,
                subscription_ack_timeout_ms: SUBSCRIPTION_ACK_TIMEOUT_MS,
                heartbeat_interval_ms: HEARTBEAT_INTERVAL_MS,
                stale_after_ms: STALE_AFTER_MS,
                max_message_bytes: MAX_MESSAGE_BYTES,
                rotate_after_ms: None,
            },
        )
    }

    /// A session for a new connection.
    pub fn session(&self, endpoint: EndpointKind, connection_epoch: u128) -> (session: BingxSession)
        ensures
            session@ == (BingxView {
                common: providers::fresh(connection_epoch),
                active: Seq::empty(),
            }),
    {
        BingxSession::new(connection_epoch)
    }
}

impl Default for BingxAdapter {
    /// An adapter for the official URL.
    fn default() -> (adapter: Self)
        ensures
            adapter.url() == BINGX_SWAP_URL@,
    {
        BingxAdapter::new()
    }
}

/// Whether topics can be the active ones of a connection: they are no more than the venue takes on
/// one, and none is there twice.
pub open spec fn fits_connection(topics: Seq<Seq<char>>) -> bool {
    topics.len() <= MAX_TOPICS_PER_CONNECTION && topics.no_duplicates()
}

/// The topics that a connection is subscribed to.
#[derive(Debug)]
struct ActiveTopics {
    topics: Vec<String>,
}

impl ActiveTopics {
    spec fn view(&self) -> Seq<Seq<char>> {
        providers::text_views(self.topics@)
    }

    /// The topics fit on the connection.
    #[verifier::type_invariant]
    spec fn fits(&self) -> bool {
        fits_connection(providers::text_views(self.topics@))
    }

    fn new() -> (active: ActiveTopics)
        ensures
            active@ == Seq::<Seq<char>>::empty(),
    {
        let topics: Vec<String> = Vec::new();
        proof {
            assert(providers::text_views(topics@) =~= Seq::empty());
        }
        ActiveTopics { topics }
    }

    fn len(&self) -> (count: usize)
        ensures
            count == self@.len(),
            fits_connection(self@),
    {
        proof {
            use_type_invariant(self);
        }
        self.topics.len()
    }

    /// Add topics that fit.
    fn activate(&mut self, more: &Vec<String>)
        requires
            fits_connection(old(self)@ + providers::text_views(more@)),
        ensures
            final(self)@ == old(self)@ + providers::text_views(more@),
    {
        let mut topics: Vec<String> = Vec::new();
        core::mem::swap(&mut topics, &mut self.topics);
        let ghost start = old(self)@;
        let ghost all = providers::text_views(more@);
        let mut i: usize = 0;
        proof {
            assert(start + all.take(0) =~= start);
        }
        while i < more.len()
            invariant
                i <= more@.len(),
                all == providers::text_views(more@),
                providers::text_views(topics@) == start + all.take(i as int),
            decreases more.len() - i,
        {
            let ghost before = providers::text_views(topics@);
            topics.push(more[i].clone());
            proof {
                assert(providers::text_views(topics@) =~= before.push(all[i as int]));
                assert(before.push(all[i as int]) =~= start + all.take(i + 1));
            }
            i += 1;
        }
        proof {
            assert(all.take(i as int) =~= all);
        }
        self.topics = topics;
    }

    /// Take topics out.
    fn deactivate(&mut self, gone: &Vec<String>)
        ensures
            final(self)@ == sifted(old(self)@, providers::text_views(gone@), false),
    {
        proof {
            use_type_invariant(&*self);
            lemma_sifted(self@, providers::text_views(gone@), false);
        }
        let topics = sift(&self.topics, gone, false);
        self.topics = topics;
    }
}

/// One session on a BingX connection.
#[derive(Debug)]
pub struct BingxSession {
    connection_epoch: u128,
    next_request_id: u64,
    active_topics: ActiveTopics,
    tickers: TickerCache,
}

/// The state of a session: what every venue keeps, and the topics that are subscribed to, in the
/// order in which they were.
pub struct BingxView {
    pub common: SessionView,
    pub active: Seq<Seq<char>>,
}

impl View for BingxSession {
    type V = BingxView;

    closed spec fn view(&self) -> BingxView {
        BingxView {
            common: SessionView {
                connection_epoch: self.connection_epoch,
                next_request_id: self.next_request_id,
                tickers: providers::cached(self.tickers),
            },
            active: self.active_topics@,
        }
    }
}

// ---------------------------------------------------------------------------------------------
// Commands
// ---------------------------------------------------------------------------------------------

/// The error for a subscription that the venue does not take.
pub open spec fn refused(message: Seq<char>) -> AdapterErrorView {
    AdapterErrorView::InvalidSubscription { provider: Provider::Bingx, message }
}

/// Whether a text is a nonempty run of ASCII letters and digits.
pub open spec fn is_asset(name: Seq<char>) -> bool {
    name.len() > 0 && text::all_ascii_alphanumeric(name)
}

/// Why a text is no symbol of a swap.
pub open spec fn symbol_fault(symbol: Seq<char>) -> Option<AdapterErrorView> {
    match providers::symbol_problem(symbol) {
        Some(message) => Some(providers::invalid_data(Provider::Bingx, message)),
        None => {
            let parts = text::pieces(symbol, '-');
            if providers::symbol_of(symbol) != symbol || parts.len() != 2 {
                Some(
                    refused(
                        "symbol "@ + text::debug_text(symbol)
                            + " must use uppercase BASE-QUOTE grammar"@,
                    ),
                )
            } else if !is_asset(parts[0]) || !is_asset(parts[1]) {
                Some(
                    refused(
                        "symbol "@ + text::debug_text(symbol)
                            + " must use ASCII BASE-QUOTE grammar"@,
                    ),
                )
            } else {
                None
            }
        },
    }
}

/// The place of the first key whose symbol is faulty, or the number of keys where there is none.
pub open spec fn first_faulty(keys: Seq<KeyView>) -> int
    decreases keys.len(),
{
    if keys.len() == 0 || symbol_fault(keys[0].symbol) is Some {
        0
    } else {
        1 + first_faulty(keys.skip(1))
    }
}

/// The items of a list that are among others, or that are not.
pub open spec fn sifted(items: Seq<Seq<char>>, others: Seq<Seq<char>>, among: bool) -> Seq<
    Seq<char>,
>
    decreases items.len(),
{
    if items.len() == 0 {
        Seq::empty()
    } else if others.contains(items.last()) == among {
        sifted(items.drop_last(), others, among).push(items.last())
    } else {
        sifted(items.drop_last(), others, among)
    }
}

/// The topics that a subscription change is about: on subscribing, those that are not active yet;
/// on unsubscribing, those that are.
pub open spec fn changed_topics(
    active: Seq<Seq<char>>,
    action: SubscriptionAction,
    keys: Seq<KeyView>,
) -> Seq<Seq<char>> {
    sifted(providers::gathered(keys), active, action == SubscriptionAction::Unsubscribe)
}

/// The active topics after a subscription change.
pub open spec fn active_after(
    active: Seq<Seq<char>>,
    action: SubscriptionAction,
    keys: Seq<KeyView>,
) -> Seq<Seq<char>> {
    match action {
        SubscriptionAction::Subscribe => active + changed_topics(active, action, keys),
        SubscriptionAction::Unsubscribe => sifted(active, providers::gathered(keys), false),
    }
}

/// The native name of an action.
pub open spec fn operation_name(action: SubscriptionAction) -> Seq<char> {
    match action {
        SubscriptionAction::Subscribe => "sub"@,
        SubscriptionAction::Unsubscribe => "unsub"@,
    }
}

/// A request id.
pub open spec fn request_id(id: u64) -> Seq<char> {
    "gateway-"@ + text::digits(id as nat)
}

/// The command for a topic.
pub open spec fn command(action: SubscriptionAction, topic: Seq<char>, id: u64) -> CommandView {
    CommandView {
        request_id: request_id(id),
        text: json::text_of(
            JsonView::Object(
                seq![
                    ("dataType"@, JsonView::Text(topic)),
                    ("id"@, JsonView::Text(request_id(id))),
                    ("reqType"@, JsonView::Text(operation_name(action))),
                ],
            ),
        ),
        expected_acknowledgements: 1,
    }
}

/// The commands for a run of topics, numbered from a given number on.
pub open spec fn commands(action: SubscriptionAction, topics: Seq<Seq<char>>, id: u64) -> Seq<
    CommandView,
> {
    Seq::new(
        topics.len(),
        |i: int| command(action, topics[i], providers::id_after(id, i as nat)),
    )
}

/// Whether a subscription change would make more topics active than a connection takes.
pub open spec fn overfull(
    active: Seq<Seq<char>>,
    action: SubscriptionAction,
    keys: Seq<KeyView>,
) -> bool {
    action == SubscriptionAction::Subscribe && active_after(active, action, keys).len()
        > MAX_TOPICS_PER_CONNECTION
}

/// What a subscription change makes of a session and which commands it gives. The tickers of the
/// keys before a faulty one are forgotten even though the change is refused.
pub open spec fn subscription_outcome(
    state: BingxView,
    action: SubscriptionAction,
    keys: Seq<KeyView>,
) -> (BingxView, Result<Seq<CommandView>, AdapterErrorView>) {
    let at = first_faulty(keys);
    let topics = changed_topics(state.active, action, keys);
    match providers::foreign_problem(Provider::Bingx, keys) {
        Some(error) => (state, Err(error)),
        None => if at < keys.len() {
            (
                BingxView {
                    common: SessionView {
                        tickers: providers::tickers_after(
                            state.common.tickers,
                            action,
                            keys.take(at),
                        ),
                        ..state.common
                    },
                    ..state
                },
                Err(symbol_fault(keys[at].symbol)->0),
            )
        } else if overfull(state.active, action, keys) {
            (
                state,
                Err(refused("subscription would exceed BingX's 200-topic connection limit"@)),
            )
        } else {
            (
                BingxView {
                    common: SessionView {
                        next_request_id: providers::id_after(
                            state.common.next_request_id,
                            topics.len(),
                        ),
                        tickers: providers::tickers_after(state.common.tickers, action, keys),
                        ..state.common
                    },
                    active: active_after(state.active, action, keys),
                },
                Ok(commands(action, topics, state.common.next_request_id)),
            )
        },
    }
}

/// Sifting makes no list longer, keeps its items apart, and keeps just the items that it is to.
proof fn lemma_sifted(items: Seq<Seq<char>>, others: Seq<Seq<char>>, among: bool)
    ensures
        sifted(items, others, among).len() <= items.len(),
        forall|item: Seq<char>| #[trigger]
            sifted(items, others, among).contains(item) ==> items.contains(item)
                && others.contains(item) == among,
        items.no_duplicates() ==> sifted(items, others, among).no_duplicates(),
    decreases items.len(),
{
    if items.len() > 0 {
        let fewer = items.drop_last();
        let part = sifted(fewer, others, among);
        let whole = sifted(items, others, among);
        lemma_sifted(fewer, others, among);
        assert forall|item: Seq<char>| #[trigger] whole.contains(item) implies items.contains(item)
            && others.contains(item) == among by {
            let k = choose|k: int| 0 <= k < whole.len() && whole[k] == item;
            if k < part.len() {
                assert(part.contains(part[k]));
                let n = choose|n: int| 0 <= n < fewer.len() && fewer[n] == item;
                assert(items[n] == item);
            } else {
                assert(items[items.len() - 1] == item);
            }
        }
        if items.no_duplicates() {
            assert(fewer.no_duplicates());
            assert(!part.contains(items.last())) by {
                if part.contains(items.last()) {
                    let n = choose|n: int| 0 <= n < fewer.len() && fewer[n] == items.last();
                    assert(items[n] == items[items.len() - 1]);
                }
            }
            assert forall|m: int, n: int| 0 <= m < n < whole.len() implies whole[m] != whole[n] by {
                if n == part.len() {
                    assert(part.contains(part[m]));
                }
            }
        }
    }
}

/// A subscription change leaves topics that fit on the connection.
proof fn lemma_active_fits(
    active: Seq<Seq<char>>,
    action: SubscriptionAction,
    keys: Seq<KeyView>,
)
    requires
        fits_connection(active),
        !overfull(active, action, keys),
    ensures
        fits_connection(active_after(active, action, keys)),
{
    let wanted = providers::gathered(keys);
    providers::lemma_gathered_once(keys);
    lemma_sifted(active, wanted, false);
    lemma_sifted(wanted, active, false);
    if action == SubscriptionAction::Subscribe {
        let fresh = sifted(wanted, active, false);
        let all = active + fresh;
        assert forall|m: int, n: int| 0 <= m < n < all.len() implies all[m] != all[n] by {
            if m < active.len() && n >= active.len() {
                assert(fresh.contains(fresh[n - active.len()]));
                assert(active.contains(active[m]));
            }
        }
    }
}

/// Something that happens to a session.
pub enum SessionEvent {
    /// Subscriptions change.
    Change(SubscriptionAction, Seq<KeyView>),
    /// A frame comes in.
    Frame(Seq<char>, u64),
}

/// The state of a session of a new connection after some events, one after the other.
pub open spec fn after_events(connection_epoch: u128, events: Seq<SessionEvent>) -> BingxView
    decreases events.len(),
{
    if events.len() == 0 {
        BingxView { common: providers::fresh(connection_epoch), active: Seq::empty() }
    } else {
        let state = after_events(connection_epoch, events.drop_last());
        match events.last() {
            SessionEvent::Change(action, keys) => subscription_outcome(state, action, keys).0,
            SessionEvent::Frame(text, received_at_ms) => text_frame(state, text, received_at_ms).0,
        }
    }
}

/// Whatever happens to a session, no more topics are active on its connection than the venue allows,
/// and none is active twice.
pub proof fn law_topic_limit(connection_epoch: u128, events: Seq<SessionEvent>)
    ensures
        after_events(connection_epoch, events).active.len() <= MAX_TOPICS_PER_CONNECTION,
        after_events(connection_epoch, events).active.no_duplicates(),
    decreases events.len(),
{
    if events.len() > 0 {
        law_topic_limit(connection_epoch, events.drop_last());
        let state = after_events(connection_epoch, events.drop_last());
        match events.last() {
            SessionEvent::Change(action, keys) => {
                if !overfull(state.active, action, keys) {
                    lemma_active_fits(state.active, action, keys);
                }
            },
            SessionEvent::Frame(text, received_at_ms) => {
                assert(text_frame(state, text, received_at_ms).0.active == state.active);
            },
        }
    }
}

// ---------------------------------------------------------------------------------------------
// What frames mean
// ---------------------------------------------------------------------------------------------

/// Why a message is refused before its payload is looked at: it is of another shape, or it reports
/// a failure.
pub open spec fn envelope_failure(
    root: JsonView,
    prefix: Seq<char>,
    shape: Option<Seq<char>>,
) -> Option<AdapterErrorView> {
    let code = json::signed_at(root, "code"@);
    match shape {
        Some(message) => Some(providers::invalid_data(Provider::Bingx, prefix + message)),
        None => if code != 0 {
            Some(
                providers::rejected(
                    Provider::Bingx,
                    "code "@ + text::integer_text(code as int) + ": "@
                        + match json::member_text(root, "msg"@) {
                        Some(message) => message,
                        None => "unknown provider error"@,
                    },
                ),
            )
        } else {
            None
        },
    }
}

/// Why a document has no code and words.
pub open spec fn status_shape(root: JsonView) -> Option<Seq<char>> {
    json::signed_problem(root, "code"@).or_next(json::optional_text_problem(root, "msg"@))
}

/// Why a document has no payload.
pub open spec fn data_shape(root: JsonView) -> Option<Seq<char>> {
    status_shape(root).or_next(
        providers::unless(
            json::member_of(root, "data"@) is Some,
            json::missing_message("data"@),
        ),
    )
}

/// Why a topic and a payload do not name the same symbol.
pub open spec fn symbols_problem(
    topic: Seq<char>,
    suffix: Seq<char>,
    symbol: Seq<char>,
) -> Option<Seq<char>> {
    match text::before_suffix(topic, suffix) {
        None => Some("invalid BingX topic "@ + text::debug_text(topic)),
        Some(name) => providers::symbol_problem(name)
            .or_next(providers::symbol_problem(symbol))
            .or_next(providers::unless(
                providers::symbol_of(name) == providers::symbol_of(symbol),
                "topic symbol "@ + providers::symbol_of(name) + " does not match payload symbol "@
                    + providers::symbol_of(symbol),
            )),
    }
}

/// The streams that make up a ticker.
#[derive(Debug, Clone, Copy, PartialEq, Eq, Structural)]
pub enum TickerStream {
    Last,
    Mark,
    Book,
}

/// The suffix of a stream's topics.
pub open spec fn stream_suffix(stream: TickerStream) -> Seq<char> {
    match stream {
        TickerStream::Last => "@ticker"@,
        TickerStream::Mark => "@markPrice"@,
        TickerStream::Book => "@bookTicker"@,
    }
}

/// What a message of another shape is called.
pub open spec fn stream_prefix(stream: TickerStream) -> Seq<char> {
    match stream {
        TickerStream::Last => "invalid ticker message: "@,
        TickerStream::Mark => "invalid mark-price message: "@,
        TickerStream::Book => "invalid book-ticker message: "@,
    }
}

/// The fields of the data of a stream's messages.
pub open spec fn stream_fields(stream: TickerStream) -> LayoutView {
    match stream {
        TickerStream::Last => json::flat("E,T,s,c"@, 4),
        TickerStream::Mark => json::flat("E,T,s,p"@, 4),
        TickerStream::Book => json::flat("u,T,s,b,a"@, 5),
    }
}

/// How the messages of a stream are laid out.
pub open spec fn ticker_layout(stream: TickerStream) -> LayoutView {
    json::with_field(json::flat("code,msg,data"@, 3), "data"@, stream_fields(stream))
}

fn ticker_record(stream: TickerStream) -> (layout: Layout)
    ensures
        layout@ == ticker_layout(stream),
{
    let fields = match stream {
        TickerStream::Last => json::flat_record("E,T,s,c", 4),
        TickerStream::Mark => json::flat_record("E,T,s,p", 4),
        TickerStream::Book => json::flat_record("u,T,s,b,a", 5),
    };
    json::nest(json::flat_record("code,msg,data", 3), "data", fields)
}

/// Why a document is no message of a stream.
pub open spec fn ticker_shape(stream: TickerStream, root: JsonView) -> Option<Seq<char>> {
    let data = json::value_at(root, "data"@);
    data_shape(root).or_next(
        match stream {
            TickerStream::Last => json::optional_unsigned_problem(data, "E"@)
                .or_next(json::optional_unsigned_problem(data, "T"@))
                .or_next(json::text_problem(data, "s"@))
                .or_next(json::text_problem(data, "c"@)),
            TickerStream::Mark => json::optional_unsigned_problem(data, "E"@)
                .or_next(json::optional_unsigned_problem(data, "T"@))
                .or_next(json::text_problem(data, "s"@))
                .or_next(json::text_problem(data, "p"@)),
            TickerStream::Book => json::optional_unsigned_problem(data, "u"@)
                .or_next(json::unsigned_problem(data, "T"@))
                .or_next(json::text_problem(data, "s"@))
                .or_next(json::text_problem(data, "b"@))
                .or_next(json::text_problem(data, "a"@)),
        },
    )
}

/// The time that a message gives, where it gives one.
pub open spec fn given_time(data: JsonView) -> Option<u64> {
    match json::member_unsigned(data, "E"@) {
        Some(time) => Some(time),
        None => json::member_unsigned(data, "T"@),
    }
}

/// The time of a message.
pub open spec fn message_time(stream: TickerStream, data: JsonView, received_at_ms: u64) -> u64 {
    match stream {
        TickerStream::Book => json::unsigned_at(data, "T"@),
        _ => match given_time(data) {
            Some(time) => time,
            None => received_at_ms,
        },
    }
}

/// Why a message of the right shape is refused.
pub open spec fn ticker_problem(stream: TickerStream, data: JsonView, topic: Seq<char>) -> Option<
    Seq<char>,
> {
    symbols_problem(topic, stream_suffix(stream), json::text_at(data, "s"@)).or_next(
        match stream {
            TickerStream::Last => providers::decimal_problem(
                json::text_at(data, "c"@),
                "last price"@,
            ),
            TickerStream::Mark => providers::unless(
                given_time(data) is Some,
                "mark-price message is missing event time"@,
            ).or_next(providers::decimal_problem(json::text_at(data, "p"@), "mark price"@)),
            TickerStream::Book => providers::decimal_problem(
                json::text_at(data, "b"@),
                "best bid"@,
            ).or_next(providers::decimal_problem(json::text_at(data, "a"@), "best ask"@)),
        },
    )
}

/// A kept ticker after a message. Bid and ask come from the book stream alone: those of the
/// rolling ticker can lag behind it.
pub open spec fn ticker_update(
    stream: TickerStream,
    base: TickerView,
    data: JsonView,
    time: u64,
) -> TickerView {
    match stream {
        TickerStream::Last => TickerView {
            last: providers::observed(json::text_at(data, "c"@), time),
            ..base
        },
        TickerStream::Mark => TickerView {
            mark: providers::observed(json::text_at(data, "p"@), time),
            ..base
        },
        TickerStream::Book => TickerView {
            bid: providers::observed(json::text_at(data, "b"@), time),
            ask: providers::observed(json::text_at(data, "a"@), time),
            ..base
        },
    }
}

/// The sequence of a message.
pub open spec fn message_sequence(stream: TickerStream, data: JsonView) -> Option<SequenceView> {
    match stream {
        TickerStream::Book => match json::member_unsigned(data, "u"@) {
            Some(id) => providers::last_sequence(text::digits(id as nat)),
            None => None,
        },
        _ => None,
    }
}

/// The state of a session with another ticker kept.
pub open spec fn keeping(state: BingxView, symbol: Seq<char>, ticker: TickerView) -> BingxView {
    BingxView { common: providers::keeping(state.common, symbol, ticker), ..state }
}

/// What a message that makes up a ticker does and means.
pub open spec fn ticker_frame(
    state: BingxView,
    stream: TickerStream,
    root: JsonView,
    topic: Seq<char>,
    received_at_ms: u64,
) -> (BingxView, Result<FrameView, AdapterErrorView>) {
    let data = json::value_at(root, "data"@);
    let symbol = providers::symbol_of(json::text_at(data, "s"@));
    let time = message_time(stream, data, received_at_ms);
    let ticker = ticker_update(stream, providers::known(state.common.tickers, symbol), data, time);
    if let Some(error) = envelope_failure(root, stream_prefix(stream), ticker_shape(stream, root)) {
        (state, Err(error))
    } else if let Some(message) = ticker_problem(stream, data, topic) {
        (state, Err(providers::invalid_data(Provider::Bingx, message)))
    } else {
        (
            keeping(state, symbol, ticker),
            Ok(
                FrameView::Events(
                    seq![
                        providers::event_view(
                            state.common.connection_epoch,
                            Provider::Bingx,
                            symbol,
                            Some(time),
                            received_at_ms,
                            message_sequence(stream, data),
                            PayloadView::Ticker(ticker),
                        ),
                    ],
                ),
            ),
        )
    }
}

/// What a message of a stream does and means.
pub open spec fn ticker_message(
    state: BingxView,
    stream: TickerStream,
    root: JsonView,
    topic: Seq<char>,
    received_at_ms: u64,
) -> (BingxView, Result<FrameView, AdapterErrorView>) {
    ticker_frame(
        state,
        stream,
        json::arranged(root, ticker_layout(stream)),
        topic,
        received_at_ms,
    )
}

/// Why a document has no prices of a kline.
pub open spec fn prices_shape(value: JsonView) -> Option<Seq<char>> {
    json::text_problem(value, "o"@)
        .or_next(json::text_problem(value, "h"@))
        .or_next(json::text_problem(value, "l"@))
        .or_next(json::text_problem(value, "c"@))
        .or_next(json::text_problem(value, "v"@))
}

/// Why a document is no kline of the older form, in which T is the start time.
pub open spec fn legacy_shape(value: JsonView) -> Option<Seq<char>> {
    json::unsigned_problem(value, "T"@).or_next(prices_shape(value))
}

/// Why a document is no kline of the documented form, in which t is the start time and T the
/// close time.
pub open spec fn documented_shape(value: JsonView) -> Option<Seq<char>> {
    json::unsigned_problem(value, "t"@)
        .or_next(json::unsigned_problem(value, "T"@))
        .or_next(prices_shape(value))
}

/// Whether a payload is a list of klines of the older form.
pub open spec fn is_legacy(data: JsonView) -> bool {
    &&& data is List
    &&& providers::first_complaint(
        data->List_0,
        |item: JsonView| legacy_shape(item),
    ) is None
}

/// Whether a payload is a kline of the documented form.
pub open spec fn is_documented(data: JsonView) -> bool {
    &&& json::text_problem(data, "s"@) is None
    &&& documented_shape(json::value_at(data, "K"@)) is None
}

/// How a kline message of the older form is laid out.
pub open spec fn legacy_layout() -> LayoutView {
    json::with_field(
        json::flat("code,msg,s,data"@, 4),
        "data"@,
        LayoutView::Each(Box::new(json::flat("T,o,h,l,c,v"@, 6))),
    )
}

/// How a kline message of the documented form is laid out.
pub open spec fn documented_layout() -> LayoutView {
    json::with_field(
        json::flat("code,msg,s,data"@, 4),
        "data"@,
        json::with_field(
            json::flat("s,K"@, 2),
            "K"@,
            json::flat("t,T,o,h,l,c,v"@, 7),
        ),
    )
}

/// A kline message as it is laid out: in the older form where that fits, else in the documented
/// one.
pub open spec fn kline_message(root: JsonView) -> JsonView {
    let legacy = json::arranged(root, legacy_layout());
    if is_legacy(json::value_at(legacy, "data"@)) {
        legacy
    } else {
        json::arranged(root, documented_layout())
    }
}

fn arrange_kline(root: &Json) -> (message: Json)
    ensures
        message@ == kline_message(root@),
{
    let legacy = json::arrange(
        root,
        &json::nest(
            json::flat_record("code,msg,s,data", 4),
            "data",
            Layout::Each(Box::new(json::flat_record("T,o,h,l,c,v", 6))),
        ),
    );
    let fits = match legacy.member("data") {
        Some(data) => is_legacy_list(data),
        None => false,
    };
    if fits {
        return legacy;
    }
    json::arrange(
        root,
        &json::nest(
            json::flat_record("code,msg,s,data", 4),
            "data",
            json::nest(
                json::flat_record("s,K", 2),
                "K",
                json::flat_record("t,T,o,h,l,c,v", 7),
            ),
        ),
    )
}

/// Why a document is no kline message.
pub open spec fn kline_shape(root: JsonView) -> Option<Seq<char>> {
    let data = json::value_at(root, "data"@);
    status_shape(root)
        .or_next(json::optional_text_problem(root, "s"@))
        .or_next(providers::unless(
            json::member_of(root, "data"@) is Some,
            json::missing_message("data"@),
        ))
        .or_next(providers::unless(
            is_legacy(data) || is_documented(data),
            "data did not match any variant of untagged enum BingxKlineData"@,
        ))
}

/// The klines of a message.
pub open spec fn kline_items(data: JsonView) -> Seq<JsonView> {
    if is_legacy(data) {
        data->List_0
    } else {
        seq![json::value_at(data, "K"@)]
    }
}

/// The symbol of a kline message as it is written.
pub open spec fn kline_symbol(root: JsonView) -> Option<Seq<char>> {
    let data = json::value_at(root, "data"@);
    if is_legacy(data) {
        json::member_text(root, "s"@)
    } else {
        json::member_text(data, "s"@)
    }
}

/// The start time of a kline.
pub open spec fn kline_start(legacy: bool, item: JsonView) -> u64 {
    json::unsigned_at(
        item,
        if legacy {
            "T"@
        } else {
            "t"@
        },
    )
}

/// Why a kline is refused: it starts at no whole minute, does not end a minute later, or has a
/// price that is no decimal.
pub open spec fn kline_item_problem(legacy: bool, item: JsonView) -> Option<Seq<char>> {
    let start = kline_start(legacy, item);
    let end = start + CANDLE_INTERVAL_MS;
    let close = json::unsigned_at(item, "T"@);
    providers::unless(
        start % 60_000 == 0,
        "1m kline start time "@ + text::digits(start as nat) + " is not minute aligned"@,
    )
        .or_next(providers::unless(end <= u64::MAX, "kline end time overflow"@))
        .or_next(providers::unless(
            legacy || close == end || close == end - 1,
            "1m kline close time "@ + text::digits(close as nat) + " does not match start time "@
                + text::digits(start as nat),
        ))
        .or_next(providers::decimal_problem(json::text_at(item, "o"@), "open"@))
        .or_next(providers::decimal_problem(json::text_at(item, "h"@), "high"@))
        .or_next(providers::decimal_problem(json::text_at(item, "l"@), "low"@))
        .or_next(providers::decimal_problem(json::text_at(item, "c"@), "close"@))
        .or_next(providers::decimal_problem(json::text_at(item, "v"@), "base volume"@))
}

/// The candle of a kline. The stream says of no candle that it is closed.
pub open spec fn kline_candle(legacy: bool, item: JsonView) -> CandleView {
    let start = kline_start(legacy, item);
    CandleView {
        interval: "1m"@,
        start_time_ms: start,
        end_time_ms: (start + CANDLE_INTERVAL_MS) as u64,
        open: json::text_at(item, "o"@),
        high: json::text_at(item, "h"@),
        low: json::text_at(item, "l"@),
        close: json::text_at(item, "c"@),
        base_volume: Some(json::text_at(item, "v"@)),
        quote_volume: None,
        contract_volume: None,
        finality: CandleFinality::Unknown,
        data_quality: Seq::empty(),
    }
}

/// Why a kline message of the right shape is refused.
pub open spec fn kline_problem(root: JsonView, topic: Seq<char>) -> Option<Seq<char>> {
    let data = json::value_at(root, "data"@);
    let items = kline_items(data);
    let name = text::before_suffix(topic, "@kline_1m"@);
    match name {
        None => Some("invalid BingX topic "@ + text::debug_text(topic)),
        Some(name) => providers::symbol_problem(name),
    }
        .or_next(providers::unless(
            kline_symbol(root) is Some,
            "legacy kline message is missing symbol"@,
        ))
        .or_next(symbols_problem(topic, "@kline_1m"@, kline_symbol(root)->0))
        .or_next(providers::unless(items.len() > 0, "kline data must not be empty"@))
        .or_next(providers::first_complaint(
            items,
            |item: JsonView| kline_item_problem(is_legacy(data), item),
        ))
}

/// The updates of a kline message.
pub open spec fn kline_events(state: BingxView, root: JsonView, received_at_ms: u64) -> Seq<
    ProviderEventView,
> {
    let data = json::value_at(root, "data"@);
    let items = kline_items(data);
    Seq::new(
        items.len(),
        |i: int|
            providers::event_view(
                state.common.connection_epoch,
                Provider::Bingx,
                providers::symbol_of(kline_symbol(root)->0),
                None,
                received_at_ms,
                None,
                PayloadView::Candle(kline_candle(is_legacy(data), items[i])),
            ),
    )
}

/// What a kline message means.
pub open spec fn kline_frame(
    state: BingxView,
    root: JsonView,
    topic: Seq<char>,
    received_at_ms: u64,
) -> Result<FrameView, AdapterErrorView> {
    if let Some(error) = envelope_failure(
        root,
        "invalid kline message: "@,
        kline_shape(root),
    ) {
        Err(error)
    } else if let Some(message) = kline_problem(root, topic) {
        Err(providers::invalid_data(Provider::Bingx, message))
    } else {
        Ok(FrameView::Events(kline_events(state, root, received_at_ms)))
    }
}

/// What the answer to a command means.
pub open spec fn control_frame(root: JsonView) -> Result<FrameView, AdapterErrorView> {
    let request_id = json::text_at(root, "id"@);
    if request_id.len() == 0 || text::byte_length(request_id) > 64 {
        Err(providers::invalid_data(Provider::Bingx, "invalid command response id"@))
    } else {
        match json::member_of(root, "code"@) {
            None => Err(
                providers::invalid_data(Provider::Bingx, "command response is missing code"@),
            ),
            Some(value) => match json::signed_value(value) {
                None => Err(
                    providers::invalid_data(Provider::Bingx, "control code must be an integer"@),
                ),
                Some(code) => if code != 0 {
                    Err(
                        providers::rejected(
                            Provider::Bingx,
                            "code "@ + text::integer_text(code as int) + ": "@
                                + match json::member_text(root, "msg"@) {
                                Some(message) => message,
                                None => "unknown command error"@,
                            },
                        ),
                    )
                } else {
                    Ok(FrameView::Acknowledgement { request_id })
                },
            },
        }
    }
}

/// What a message on a topic does and means.
pub open spec fn topic_frame(
    state: BingxView,
    root: JsonView,
    topic: Seq<char>,
    received_at_ms: u64,
) -> (BingxView, Result<FrameView, AdapterErrorView>) {
    if text::finishes_with(topic, "@ticker"@) {
        ticker_message(state, TickerStream::Last, root, topic, received_at_ms)
    } else if text::finishes_with(topic, "@markPrice"@) {
        ticker_message(state, TickerStream::Mark, root, topic, received_at_ms)
    } else if text::finishes_with(topic, "@bookTicker"@) {
        ticker_message(state, TickerStream::Book, root, topic, received_at_ms)
    } else if text::finishes_with(topic, "@kline_1m"@) {
        (state, kline_frame(state, kline_message(root), topic, received_at_ms))
    } else {
        (state, Ok(FrameView::Ignored))
    }
}

/// What a document does and means.
pub open spec fn document_frame(state: BingxView, root: JsonView, received_at_ms: u64) -> (
    BingxView,
    Result<FrameView, AdapterErrorView>,
) {
    if !(root is Object) {
        (
            state,
            Err(
                providers::invalid_data(Provider::Bingx, "top-level payload must be an object"@),
            ),
        )
    } else if json::member_of(root, "id"@) is Some {
        (state, control_frame(root))
    } else {
        match json::member_of(root, "dataType"@) {
            None => (state, Ok(FrameView::Ignored)),
            Some(JsonView::Text(topic)) => if topic.len() == 0 {
                (state, Ok(FrameView::Ignored))
            } else {
                topic_frame(state, root, topic, received_at_ms)
            },
            Some(_) => (
                state,
                Err(
                    providers::invalid_data(
                        Provider::Bingx,
                        "event field dataType must be a string"@,
                    ),
                ),
            ),
        }
    }
}

/// What a text frame does and means. The server's Ping is answered with a Pong.
pub open spec fn text_frame(state: BingxView, text: Seq<char>, received_at_ms: u64) -> (
    BingxView,
    Result<FrameView, AdapterErrorView>,
) {
    if text == "Ping"@ {
        (state, Ok(FrameView::Reply(HeartbeatView::Text("Pong"@))))
    } else if text == "Pong"@ {
        (state, Ok(FrameView::Pong))
    } else {
        match json::document_of(text) {
            Err(message) => (
                state,
                Err(providers::invalid_data(Provider::Bingx, "invalid JSON: "@ + message)),
            ),
            Ok(root) => document_frame(state, root, received_at_ms),
        }
    }
}

/// Every update that a frame of BingX gives names the venue, the connection it came over and when
/// it was received, and no candle is said to be open or closed; a frame changes no connection.
pub proof fn law_updates_are_stamped(state: BingxView, text: Seq<char>, received_at_ms: u64)
    ensures
        text_frame(state, text, received_at_ms).0.common.connection_epoch
            == state.common.connection_epoch,
        text_frame(state, text, received_at_ms).1 matches Ok(frame) ==> {
            &&& providers::has_stamps(
                frame,
                Provider::Bingx,
                state.common.connection_epoch,
                received_at_ms,
            )
            &&& providers::leaves_finality_open(frame)
        },
{
}

/// A message of one stream touches nothing that another stream tells: no price stands in for
/// another.
pub proof fn law_no_price_stands_in_for_another(base: TickerView, data: JsonView, time: u64)
    ensures
        ({
            let after = ticker_update(TickerStream::Last, base, data, time);
            after == (TickerView { last: after.last, ..base })
        }),
        ({
            let after = ticker_update(TickerStream::Mark, base, data, time);
            after == (TickerView { mark: after.mark, ..base })
        }),
        ({
            let after = ticker_update(TickerStream::Book, base, data, time);
            after == (TickerView { bid: after.bid, ask: after.ask, ..base })
        }),
{
}

// ---------------------------------------------------------------------------------------------
// The session
// ---------------------------------------------------------------------------------------------

/// The error for data that BingX should not have sent.
fn invalid<T>(message: &str) -> (r: Result<T, AdapterError>)
    ensures
        r is Err && r->Err_0@ == providers::invalid_data(Provider::Bingx, message@),
{
    Err(providers::invalid_payload(Provider::Bingx, message.to_owned()))
}

/// The error for a subscription to a symbol.
fn refuse_symbol(symbol: &str, words: &str) -> (r: Result<(), AdapterError>)
    ensures
        r is Err && r->Err_0@ == refused("symbol "@ + text::debug_text(symbol@) + words@),
{
    Err(
        AdapterError::InvalidSubscription {
            provider: Provider::Bingx,
            message: text::cat3("symbol ", text::quoted(symbol).as_str(), words),
        },
    )
}

/// Check that a symbol is one of a swap.
fn validate_bingx_symbol(symbol: &str) -> (r: Result<(), AdapterError>)
    ensures
        match r {
            Ok(_) => symbol_fault(symbol@) is None,
            Err(error) => symbol_fault(symbol@) == Some(error@),
        },
{
    let normalized = match providers::read_symbol(symbol) {
        Ok(normalized) => normalized,
        Err(message) => {
            return invalid(message.as_str());
        },
    };
    let parts = text::split(symbol, '-');
    if !text::same(normalized.as_str(), symbol) || parts.len() != 2 {
        return refuse_symbol(symbol, " must use uppercase BASE-QUOTE grammar");
    }
    proof {
        assert(text::slices(parts@)[0] == parts@[0]@);
        assert(text::slices(parts@)[1] == parts@[1]@);
    }
    if parts[0].is_empty() || parts[1].is_empty() || !text::is_ascii_word(parts[0])
        || !text::is_ascii_word(parts[1]) {
        return refuse_symbol(symbol, " must use ASCII BASE-QUOTE grammar");
    }
    Ok(())
}

/// How many keys stand before the first one whose symbol is faulty.
fn count_sound(subscriptions: &[SubscriptionKey]) -> (count: usize)
    ensures
        count == first_faulty(domain::key_views(subscriptions@)),
        count <= subscriptions@.len(),
        count < subscriptions@.len() ==> symbol_fault(subscriptions@[count as int]@.symbol) is Some,
{
    let ghost keys = domain::key_views(subscriptions@);
    let mut i: usize = 0;
    proof {
        assert(keys.skip(0) =~= keys);
    }
    while i < subscriptions.len()
        invariant
            i <= subscriptions@.len(),
            keys == domain::key_views(subscriptions@),
            first_faulty(keys) == i + first_faulty(keys.skip(i as int)),
        decreases subscriptions.len() - i,
    {
        proof {
            assert(keys.skip(i as int)[0] == subscriptions@[i as int]@);
            assert(keys.skip(i as int).skip(1) =~= keys.skip(i + 1));
        }
        if validate_bingx_symbol(subscriptions[i].symbol.as_str()).is_err() {
            return i;
        }
        i += 1;
    }
    i
}

/// The items of a list that are among others, or that are not.
fn sift(items: &Vec<String>, others: &Vec<String>, among: bool) -> (list: Vec<String>)
    ensures
        providers::text_views(list@) == sifted(
            providers::text_views(items@),
            providers::text_views(others@),
            among,
        ),
{
    let ghost all = providers::text_views(items@);
    let ghost rest = providers::text_views(others@);
    let mut list: Vec<String> = Vec::new();
    let mut i: usize = 0;
    proof {
        assert(all.take(0) =~= Seq::empty());
        assert(providers::text_views(list@) =~= Seq::empty());
    }
    while i < items.len()
        invariant
            i <= items@.len(),
            all == providers::text_views(items@),
            rest == providers::text_views(others@),
            providers::text_views(list@) == sifted(all.take(i as int), rest, among),
        decreases items.len() - i,
    {
        let ghost before = providers::text_views(list@);
        proof {
            assert(all.take(i + 1).drop_last() =~= all.take(i as int));
            assert(all.take(i + 1).last() == items@[i as int]@);
        }
        if providers::has_text(others, items[i].as_str()) == among {
            list.push(items[i].clone());
            proof {
                assert(providers::text_views(list@) =~= before.push(items@[i as int]@));
            }
        }
        i += 1;
    }
    proof {
        assert(all.take(i as int) =~= all);
    }
    list
}

/// Check that a message reports no failure.
fn ensure_success(code: i64, message: Option<&str>) -> (r: Result<(), AdapterError>)
    ensures
        match r {
            Ok(_) => code == 0,
            Err(error) => code != 0 && error@ == providers::rejected(
                Provider::Bingx,
                "code "@ + text::integer_text(code as int) + ": "@
                    + match providers::name_view(message) {
                    Some(message) => message,
                    None => "unknown provider error"@,
                },
            ),
        },
{
    if code == 0 {
        Ok(())
    } else {
        let words = match message {
            Some(message) => message,
            None => "unknown provider error",
        };
        Err(
            providers::command_rejected(
                Provider::Bingx,
                text::cat4("code ", text::signed_text(code).as_str(), ": ", words),
            ),
        )
    }
}

/// The symbol that a topic and a payload both name.
fn agreed_symbol(topic: &str, suffix: &str, symbol: &str) -> (r: Result<String, String>)
    ensures
        match r {
            Ok(identity) => {
                &&& symbols_problem(topic@, suffix@, symbol@) is None
                &&& identity@ == providers::symbol_of(symbol@)
            },
            Err(message) => symbols_problem(topic@, suffix@, symbol@) == Some(message@),
        },
{
    let name = match text::strip_suffix(topic, suffix) {
        Some(name) => name,
        None => {
            return Err(text::cat2("invalid BingX topic ", text::quoted(topic).as_str()));
        },
    };
    let topic_symbol = providers::read_symbol(name)?;
    let payload_symbol = providers::read_symbol(symbol)?;
    if !text::same(topic_symbol.as_str(), payload_symbol.as_str()) {
        return Err(
            text::cat4(
                "topic symbol ",
                topic_symbol.as_str(),
                " does not match payload symbol ",
                payload_symbol.as_str(),
            ),
        );
    }
    Ok(payload_symbol)
}

/// The code and words of a message.
fn read_status<'a>(root: &'a Json) -> (r: Result<(i64, Option<&'a str>), String>)
    ensures
        match r {
            Ok((code, message)) => {
                &&& status_shape(root@) is None
                &&& code == json::signed_at(root@, "code"@)
                &&& providers::name_view(message) == json::member_text(root@, "msg"@)
            },
            Err(complaint) => status_shape(root@) == Some(complaint@),
        },
{
    let code = json::need_signed(root, "code")?;
    let message = json::may_text(root, "msg")?;
    Ok((code, message))
}

/// The fields of a message that makes up a ticker.
struct TickerMessage<'a> {
    code: i64,
    message: Option<&'a str>,
    event_time: Option<u64>,
    timestamp: Option<u64>,
    update_id: Option<u64>,
    symbol: &'a str,
    price: &'a str,
    other_price: &'a str,
}

impl<'a> TickerMessage<'a> {
    /// Whether the fields are those of a document.
    closed spec fn of(&self, stream: TickerStream, root: JsonView) -> bool {
        let data = json::value_at(root, "data"@);
        &&& self.code == json::signed_at(root, "code"@)
        &&& providers::name_view(self.message) == json::member_text(root, "msg"@)
        &&& self.symbol@ == json::text_at(data, "s"@)
        &&& match stream {
            TickerStream::Last => {
                &&& self.event_time == json::member_unsigned(data, "E"@)
                &&& self.timestamp == json::member_unsigned(data, "T"@)
                &&& self.price@ == json::text_at(data, "c"@)
            },
            TickerStream::Mark => {
                &&& self.event_time == json::member_unsigned(data, "E"@)
                &&& self.timestamp == json::member_unsigned(data, "T"@)
                &&& self.price@ == json::text_at(data, "p"@)
            },
            TickerStream::Book => {
                &&& self.update_id == json::member_unsigned(data, "u"@)
                &&& self.timestamp == Some(json::unsigned_at(data, "T"@))
                &&& self.price@ == json::text_at(data, "b"@)
                &&& self.other_price@ == json::text_at(data, "a"@)
            },
        }
    }
}

/// Read the fields of a message that makes up a ticker.
fn read_ticker<'a>(stream: TickerStream, root: &'a Json) -> (r: Result<TickerMessage<'a>, String>)
    ensures
        match r {
            Ok(message) => ticker_shape(stream, root@) is None && message.of(stream, root@),
            Err(complaint) => ticker_shape(stream, root@) == Some(complaint@),
        },
{
    let (code, message) = read_status(root)?;
    let data = match root.member("data") {
        Some(data) => data,
        None => {
            return Err(json::missing("data"));
        },
    };
    match stream {
        TickerStream::Book => {
            let update_id = json::may_unsigned(data, "u")?;
            let time = json::need_unsigned(data, "T")?;
            let symbol = json::need_text(data, "s")?;
            let price = json::need_text(data, "b")?;
            let other_price = json::need_text(data, "a")?;
            Ok(
                TickerMessage {
                    code,
                    message,
                    event_time: None,
                    timestamp: Some(time),
                    update_id,
                    symbol,
                    price,
                    other_price,
                },
            )
        },
        _ => {
            let event_time = json::may_unsigned(data, "E")?;
            let timestamp = json::may_unsigned(data, "T")?;
            let symbol = json::need_text(data, "s")?;
            let price = match stream {
                TickerStream::Last => json::need_text(data, "c")?,
                _ => json::need_text(data, "p")?,
            };
            Ok(
                TickerMessage {
                    code,
                    message,
                    event_time,
                    timestamp,
                    update_id: None,
                    symbol,
                    price,
                    other_price: "",
                },
            )
        },
    }
}

/// Check the prices of a kline.
fn read_prices(value: &Json) -> (r: Result<(), String>)
    ensures
        match r {
            Ok(_) => prices_shape(value@) is None,
            Err(complaint) => prices_shape(value@) == Some(complaint@),
        },
{
    let _open = json::need_text(value, "o")?;
    let _high = json::need_text(value, "h")?;
    let _low = json::need_text(value, "l")?;
    let _close = json::need_text(value, "c")?;
    let _volume = json::need_text(value, "v")?;
    Ok(())
}

/// Check that a document is a kline of the older form.
fn check_legacy(value: &Json) -> (r: Result<(), String>)
    ensures
        match r {
            Ok(_) => legacy_shape(value@) is None,
            Err(complaint) => legacy_shape(value@) == Some(complaint@),
        },
{
    let _start = json::need_unsigned(value, "T")?;
    read_prices(value)
}

/// Check that a document is a kline of the documented form.
fn check_documented(value: &Json) -> (r: Result<(), String>)
    ensures
        match r {
            Ok(_) => documented_shape(value@) is None,
            Err(complaint) => documented_shape(value@) == Some(complaint@),
        },
{
    let _start = json::need_unsigned(value, "t")?;
    let _close = json::need_unsigned(value, "T")?;
    read_prices(value)
}

/// Whether a payload is a list of klines of the older form.
fn is_legacy_list(data: &Json) -> (answer: bool)
    ensures
        answer == is_legacy(data@),
{
    let items = match data.as_list() {
        Some(items) => items,
        None => {
            return false;
        },
    };
    let ghost all = json::views(items@);
    let ghost check = |item: JsonView| legacy_shape(item);
    let mut i: usize = 0;
    while i < items.len()
        invariant
            i <= items@.len(),
            all == json::views(items@),
            data@ is List,
            data@->List_0 == all,
            check == (|item: JsonView| legacy_shape(item)),
            providers::first_complaint(all.take(i as int), check) is None,
        decreases items.len() - i,
    {
        proof {
            assert(all[i as int] == items@[i as int]@);
            providers::lemma_next_complaint(all, i as int, check);
        }
        if check_legacy(&items[i]).is_err() {
            return false;
        }
        i += 1;
    }
    proof {
        assert(all.take(i as int) =~= all);
    }
    true
}

/// Whether a payload is a kline of the documented form.
fn is_documented_kline(data: &Json) -> (answer: bool)
    ensures
        answer == is_documented(data@),
{
    if json::need_text(data, "s").is_err() {
        return false;
    }
    match data.member("K") {
        Some(kline) => check_documented(kline).is_ok(),
        None => false,
    }
}

/// The candle of a kline.
fn read_candle(legacy: bool, item: &Json) -> (r: Result<Candle, String>)
    requires
        if legacy {
            legacy_shape(item@) is None
        } else {
            documented_shape(item@) is None
        },
    ensures
        match r {
            Ok(candle) => {
                &&& kline_item_problem(legacy, item@) is None
                &&& candle@ == kline_candle(legacy, item@)
            },
            Err(message) => kline_item_problem(legacy, item@) == Some(message@),
        },
{
    let start_time_ms = json::need_unsigned(
        item,
        if legacy {
            "T"
        } else {
            "t"
        },
    )?;
    let close_time = json::need_unsigned(item, "T")?;
    if start_time_ms % 60_000 != 0 {
        return Err(
            text::cat3(
                "1m kline start time ",
                text::unsigned_text(start_time_ms).as_str(),
                " is not minute aligned",
            ),
        );
    }
    let end_time_ms = match start_time_ms.checked_add(CANDLE_INTERVAL_MS) {
        Some(end) => end,
        None => {
            return Err("kline end time overflow".to_owned());
        },
    };
    if !legacy && close_time != end_time_ms && close_time != end_time_ms - 1 {
        return Err(
            text::cat4(
                "1m kline close time ",
                text::unsigned_text(close_time).as_str(),
                " does not match start time ",
                text::unsigned_text(start_time_ms).as_str(),
            ),
        );
    }
    let open = providers::read_decimal(json::need_text(item, "o")?, "open")?;
    let high = providers::read_decimal(json::need_text(item, "h")?, "high")?;
    let low = providers::read_decimal(json::need_text(item, "l")?, "low")?;
    let close = providers::read_decimal(json::need_text(item, "c")?, "close")?;
    let volume = providers::read_decimal(json::need_text(item, "v")?, "base volume")?;
    let candle = Candle {
        interval: "1m".to_owned(),
        start_time_ms,
        end_time_ms,
        open,
        high,
        low,
        close,
        base_volume: Some(volume),
        quote_volume: None,
        contract_volume: None,
        finality: CandleFinality::Unknown,
        data_quality: Vec::new(),
    };
    proof {
        assert(candle.data_quality@ =~= Seq::empty());
    }
    Ok(candle)
}

/// What the answer to a command means.
fn parse_control(root: &Json) -> (r: Result<ParsedFrame, AdapterError>)
    ensures
        match r {
            Ok(frame) => control_frame(root@) == Ok::<FrameView, AdapterErrorView>(frame@),
            Err(error) => control_frame(root@) == Err::<FrameView, AdapterErrorView>(error@),
        },
{
    let request_id = match json::find_text(root, "id") {
        Some(request_id) => request_id,
        None => {
            return invalid("invalid command response id");
        },
    };
    if request_id.is_empty() || text::length(request_id) > 64 {
        return invalid("invalid command response id");
    }
    let code = match root.member("code") {
        Some(value) => match value.as_signed() {
            Some(code) => code,
            None => {
                return invalid("control code must be an integer");
            },
        },
        None => {
            return invalid("command response is missing code");
        },
    };
    if code != 0 {
        let message = match json::find_text(root, "msg") {
            Some(message) => message,
            None => "unknown command error",
        };
        return Err(
            providers::command_rejected(
                Provider::Bingx,
                text::cat4("code ", text::signed_text(code).as_str(), ": ", message),
            ),
        );
    }
    Ok(ParsedFrame::Acknowledgement { request_id: request_id.to_owned() })
}

impl BingxSession {
    /// A session for a new connection.
    pub fn new(connection_epoch: u128) -> (session: Self)
        ensures
            session@ == (BingxView {
                common: providers::fresh(connection_epoch),
                active: Seq::empty(),
            }),
    {
        let session = BingxSession {
            connection_epoch,
            next_request_id: 1,
            active_topics: ActiveTopics::new(),
            tickers: Table::new(),
        };
        proof {
            assert(providers::cached(session.tickers) =~= Map::empty());
        }
        session
    }

    /// The command for a topic.
    fn command(&mut self, action: SubscriptionAction, topic: &str) -> (made: OutboundCommand)
        ensures
            made@ == command(action, topic@, old(self)@.common.next_request_id),
            final(self)@ == (BingxView {
                common: SessionView {
                    next_request_id: providers::next_id(old(self)@.common.next_request_id),
                    ..old(self)@.common
                },
                ..old(self)@
            }),
    {
        let id = providers::take_id(&mut self.next_request_id);
        let request_id = text::cat2("gateway-", text::unsigned_text(id).as_str());
        let request_type = match action {
            SubscriptionAction::Subscribe => "sub",
            SubscriptionAction::Unsubscribe => "unsub",
        };
        let document = providers::object3(
            providers::member("dataType", Json::Text(topic.to_owned())),
            providers::member("id", Json::Text(request_id.clone())),
            providers::member("reqType", Json::Text(request_type.to_owned())),
        );
        OutboundCommand { request_id, text: json::write(&document), expected_acknowledgements: 1 }
    }

    /// The commands for a list of topics.
    fn command_messages(&mut self, action: SubscriptionAction, topics: &Vec<String>) -> (list: Vec<
        OutboundCommand,
    >)
        ensures
            providers::command_views(list@) == commands(
                action,
                providers::text_views(topics@),
                old(self)@.common.next_request_id,
            ),
            final(self)@ == (BingxView {
                common: SessionView {
                    next_request_id: providers::id_after(
                        old(self)@.common.next_request_id,
                        topics@.len(),
                    ),
                    ..old(self)@.common
                },
                ..old(self)@
            }),
    {
        let ghost start = self@;
        let ghost all = providers::text_views(topics@);
        let mut list: Vec<OutboundCommand> = Vec::new();
        let mut i: usize = 0;
        while i < topics.len()
            invariant
                i <= topics@.len(),
                all == providers::text_views(topics@),
                list@.len() == i,
                forall|k: int|
                    0 <= k < i ==> (#[trigger] list@[k])@ == command(
                        action,
                        all[k],
                        providers::id_after(start.common.next_request_id, k as nat),
                    ),
                self@ == (BingxView {
                    common: SessionView {
                        next_request_id: providers::id_after(
                            start.common.next_request_id,
                            i as nat,
                        ),
                        ..start.common
                    },
                    ..start
                }),
            decreases topics.len() - i,
        {
            let made = self.command(action, topics[i].as_str());
            list.push(made);
            i += 1;
        }
        proof {
            assert(providers::command_views(list@) =~= commands(
                action,
                all,
                start.common.next_request_id,
            ));
        }
        list
    }

    /// Take in a message that makes up a ticker.
    fn parse_ticker(
        &mut self,
        stream: TickerStream,
        root: &Json,
        topic: &str,
        received_at_ms: u64,
    ) -> (r: Result<ParsedFrame, AdapterError>)
        ensures
            providers::concurs(
                final(self)@,
                r,
                ticker_frame(old(self)@, stream, root@, topic@, received_at_ms),
            ),
    {
        let message = match read_ticker(stream, root) {
            Ok(message) => message,
            Err(complaint) => {
                let prefix = match stream {
                    TickerStream::Last => "invalid ticker message: ",
                    TickerStream::Mark => "invalid mark-price message: ",
                    TickerStream::Book => "invalid book-ticker message: ",
                };
                return invalid(providers::complain(prefix, complaint).as_str());
            },
        };
        ensure_success(message.code, message.message)?;
        let taken = self.take_ticker(stream, &message, Ghost(root@), topic, received_at_ms);
        providers::label(Provider::Bingx, taken)
    }

    /// Take in the fields of a message that makes up a ticker.
    fn take_ticker(
        &mut self,
        stream: TickerStream,
        message: &TickerMessage,
        Ghost(root): Ghost<JsonView>,
        topic: &str,
        received_at_ms: u64,
    ) -> (r: Result<ParsedFrame, String>)
        requires
            message.of(stream, root),
            envelope_failure(root, stream_prefix(stream), ticker_shape(stream, root)) is None,
        ensures
            match r {
                Ok(frame) => (final(self)@, Ok::<FrameView, AdapterErrorView>(frame@))
                    == ticker_frame(old(self)@, stream, root, topic@, received_at_ms),
                Err(complaint) => (
                    final(self)@,
                    Err::<FrameView, AdapterErrorView>(
                        providers::invalid_data(Provider::Bingx, complaint@),
                    ),
                ) == ticker_frame(old(self)@, stream, root, topic@, received_at_ms),
            },
    {
        let suffix = match stream {
            TickerStream::Last => "@ticker",
            TickerStream::Mark => "@markPrice",
            TickerStream::Book => "@bookTicker",
        };
        let symbol = agreed_symbol(topic, suffix, message.symbol)?;
        let given = match message.event_time {
            Some(time) => Some(time),
            None => message.timestamp,
        };
        let mut ticker = providers::recall(&self.tickers, &symbol);
        let mut sequence: Option<SourceSequence> = None;
        let time: u64;
        match stream {
            TickerStream::Last => {
                time = match given {
                    Some(time) => time,
                    None => received_at_ms,
                };
                ticker.last = Some(providers::read_observed(message.price, time, "last price")?);
            },
            TickerStream::Mark => {
                time = match given {
                    Some(time) => time,
                    None => {
                        return Err("mark-price message is missing event time".to_owned());
                    },
                };
                ticker.mark = Some(providers::read_observed(message.price, time, "mark price")?);
            },
            TickerStream::Book => {
                time = match message.timestamp {
                    Some(time) => time,
                    None => received_at_ms,
                };
                let bid = providers::read_observed(message.price, time, "best bid")?;
                let ask = providers::read_observed(message.other_price, time, "best ask")?;
                ticker.bid = Some(bid);
                ticker.ask = Some(ask);
                if let Some(id) = message.update_id {
                    sequence = Some(
                        SourceSequence {
                            first: None,
                            last: Some(text::unsigned_text(id)),
                            previous: None,
                        },
                    );
                }
            },
        }
        providers::remember(&mut self.tickers, &symbol, &ticker);
        Ok(
            providers::one_event(
                providers::make_event(
                    self.connection_epoch,
                    Provider::Bingx,
                    symbol,
                    Some(time),
                    received_at_ms,
                    sequence,
                    MarketPayload::Ticker(ticker),
                ),
            ),
        )
    }

    /// The updates of the klines of a message.
    fn kline_updates(
        &self,
        legacy: bool,
        items: &[Json],
        symbol: &str,
        received_at_ms: u64,
    ) -> (r: Result<Vec<ProviderEvent>, String>)
        requires
            forall|i: int|
                0 <= i < items@.len() ==> (if legacy {
                    legacy_shape((#[trigger] items@[i])@) is None
                } else {
                    documented_shape(items@[i]@) is None
                }),
        ensures
            match r {
                Ok(events) => {
                    &&& providers::first_complaint(
                        json::views(items@),
                        |item: JsonView| kline_item_problem(legacy, item),
                    ) is None
                    &&& providers::event_views(events@) == Seq::new(
                        items@.len(),
                        |i: int|
                            providers::event_view(
                                self@.common.connection_epoch,
                                Provider::Bingx,
                                symbol@,
                                None,
                                received_at_ms,
                                None,
                                PayloadView::Candle(kline_candle(legacy, items@[i]@)),
                            ),
                    )
                },
                Err(message) => providers::first_complaint(
                    json::views(items@),
                    |item: JsonView| kline_item_problem(legacy, item),
                ) == Some(message@),
            },
    {
        let ghost all = json::views(items@);
        let ghost check = |item: JsonView| kline_item_problem(legacy, item);
        let mut events: Vec<ProviderEvent> = Vec::new();
        let mut i: usize = 0;
        while i < items.len()
            invariant
                i <= items@.len(),
                all == json::views(items@),
                forall|i: int|
                    0 <= i < items@.len() ==> (if legacy {
                        legacy_shape((#[trigger] items@[i])@) is None
                    } else {
                        documented_shape(items@[i]@) is None
                    }),
                check == (|item: JsonView| kline_item_problem(legacy, item)),
                providers::first_complaint(all.take(i as int), check) is None,
                events@.len() == i,
                forall|k: int|
                    0 <= k < i ==> (#[trigger] events@[k])@ == providers::event_view(
                        self@.common.connection_epoch,
                        Provider::Bingx,
                        symbol@,
                        None,
                        received_at_ms,
                        None,
                        PayloadView::Candle(kline_candle(legacy, items@[k]@)),
                    ),
            decreases items.len() - i,
        {
            proof {
                assert(all[i as int] == items@[i as int]@);
                providers::lemma_next_complaint(all, i as int, check);
            }
            let candle = read_candle(legacy, &items[i])?;
            events.push(
                providers::make_event(
                    self.connection_epoch,
                    Provider::Bingx,
                    symbol.to_owned(),
                    None,
                    received_at_ms,
                    None,
                    MarketPayload::Candle(candle),
                ),
            );
            i += 1;
        }
        proof {
            assert(all.take(i as int) =~= all);
        }
        Ok(events)
    }

    /// The updates of a kline message of the right shape.
    fn take_klines(&self, root: &Json, data: &Json, topic: &str, received_at_ms: u64) -> (r: Result<
        ParsedFrame,
        String,
    >)
        requires
            kline_shape(root@) is None,
            data@ == json::value_at(root@, "data"@),
        ensures
            match r {
                Ok(frame) => {
                    &&& kline_problem(root@, topic@) is None
                    &&& frame@ == FrameView::Events(kline_events(self@, root@, received_at_ms))
                },
                Err(message) => kline_problem(root@, topic@) == Some(message@),
            },
    {
        let legacy = is_legacy_list(data);
        let name = match text::strip_suffix(topic, "@kline_1m") {
            Some(name) => name,
            None => {
                return Err(text::cat2("invalid BingX topic ", text::quoted(topic).as_str()));
            },
        };
        let _topic_symbol = providers::read_symbol(name)?;
        let written = if legacy {
            json::find_text(root, "s")
        } else {
            json::find_text(data, "s")
        };
        let written = match written {
            Some(written) => written,
            None => {
                return Err("legacy kline message is missing symbol".to_owned());
            },
        };
        let symbol = agreed_symbol(topic, "@kline_1m", written)?;
        let ghost items = kline_items(data@);
        let events;
        if legacy {
            let list = json::need_list(root, "data")?;
            proof {
                assert(json::views(list@) == items);
                lemma_all_legacy(items);
                assert forall|i: int| 0 <= i < list@.len() implies legacy_shape(
                    (#[trigger] list@[i])@,
                ) is None by {
                    assert(items[i] == list@[i]@);
                }
            }
            if list.len() == 0 {
                return Err("kline data must not be empty".to_owned());
            }
            events = self.kline_updates(true, list.as_slice(), symbol.as_str(), received_at_ms)?;
            proof {
                assert(providers::event_views(events@) =~= kline_events(
                    self@,
                    root@,
                    received_at_ms,
                )) by {
                    assert forall|i: int| 0 <= i < list@.len() implies items[i] == (
                    #[trigger] list@[i])@ by {}
                }
            }
        } else {
            let kline = match data.member("K") {
                Some(kline) => kline,
                None => {
                    return Err("kline data must not be empty".to_owned());
                },
            };
            let ghost check = |item: JsonView| kline_item_problem(false, item);
            let candle = read_candle(false, kline);
            proof {
                assert(items =~= seq![kline@]);
                assert(items.take(0) =~= Seq::empty());
                assert(items.take(1) =~= items);
                providers::lemma_next_complaint(items, 0, check);
            }
            let event = providers::make_event(
                self.connection_epoch,
                Provider::Bingx,
                symbol,
                None,
                received_at_ms,
                None,
                MarketPayload::Candle(candle?),
            );
            events = vec![event];
            proof {
                assert(providers::event_views(events@) =~= kline_events(
                    self@,
                    root@,
                    received_at_ms,
                ));
            }
        }
        Ok(ParsedFrame::Events(events))
    }

    /// Take in a kline message.
    fn parse_kline(&self, root: &Json, topic: &str, received_at_ms: u64) -> (r: Result<
        ParsedFrame,
        AdapterError,
    >)
        ensures
            providers::concurs(
                self@,
                r,
                (self@, kline_frame(self@, root@, topic@, received_at_ms)),
            ),
    {
        match self.check_kline(root) {
            Ok(_) => {},
            Err(complaint) => {
                return invalid(
                    providers::complain("invalid kline message: ", complaint).as_str(),
                );
            },
        }
        let code = match json::find_signed(root, "code") {
            Some(code) => code,
            None => 0,
        };
        ensure_success(code, json::find_text(root, "msg"))?;
        let data = match root.member("data") {
            Some(data) => data,
            None => {
                return Ok(ParsedFrame::Ignored);
            },
        };
        let taken = self.take_klines(root, data, topic, received_at_ms);
        providers::label(Provider::Bingx, taken)
    }

    /// Check that a document is a kline message.
    fn check_kline(&self, root: &Json) -> (r: Result<(), String>)
        ensures
            match r {
                Ok(_) => kline_shape(root@) is None,
                Err(complaint) => kline_shape(root@) == Some(complaint@),
            },
    {
        let _status = read_status(root)?;
        let _symbol = json::may_text(root, "s")?;
        match root.member("data") {
            Some(data) => {
                if is_legacy_list(data) || is_documented_kline(data) {
                    Ok(())
                } else {
                    Err(
                        "data did not match any variant of untagged enum BingxKlineData".to_owned(),
                    )
                }
            },
            None => Err(json::missing("data")),
        }
    }

    /// Take in a message on a topic.
    fn parse_topic(&mut self, root: &Json, topic: &str, received_at_ms: u64) -> (r: Result<
        ParsedFrame,
        AdapterError,
    >)
        ensures
            providers::concurs(
                final(self)@,
                r,
                topic_frame(old(self)@, root@, topic@, received_at_ms),
            ),
    {
        if text::ends_with(topic, "@ticker") {
            let message = json::arrange(root, &ticker_record(TickerStream::Last));
            self.parse_ticker(TickerStream::Last, &message, topic, received_at_ms)
        } else if text::ends_with(topic, "@markPrice") {
            let message = json::arrange(root, &ticker_record(TickerStream::Mark));
            self.parse_ticker(TickerStream::Mark, &message, topic, received_at_ms)
        } else if text::ends_with(topic, "@bookTicker") {
            let message = json::arrange(root, &ticker_record(TickerStream::Book));
            self.parse_ticker(TickerStream::Book, &message, topic, received_at_ms)
        } else if text::ends_with(topic, "@kline_1m") {
            let message = arrange_kline(root);
            self.parse_kline(&message, topic, received_at_ms)
        } else {
            Ok(ParsedFrame::Ignored)
        }
    }

    /// Take in a document.
    ///
    /// # Errors
    ///
    /// Returns an error when the document is no valid frame or the provider rejects a command.
    pub fn parse_document(&mut self, root: &Json, received_at_ms: u64) -> (r: Result<
        ParsedFrame,
        AdapterError,
    >)
        ensures
            providers::concurs(
                final(self)@,
                r,
                document_frame(old(self)@, root@, received_at_ms),
            ),
    {
        if !root.is_object() {
            return invalid("top-level payload must be an object");
        }
        if root.member("id").is_some() {
            return parse_control(root);
        }
        match root.member("dataType") {
            Some(field) => match field.as_text() {
                Some(topic) => {
                    if topic.is_empty() {
                        Ok(ParsedFrame::Ignored)
                    } else {
                        self.parse_topic(root, topic, received_at_ms)
                    }
                },
                None => invalid("event field dataType must be a string"),
            },
            None => Ok(ParsedFrame::Ignored),
        }
    }
}

/// Every item of a list that no shape complaint is about has that shape.
proof fn lemma_all_legacy(items: Seq<JsonView>)
    requires
        providers::first_complaint(items, |item: JsonView| legacy_shape(item)) is None,
    ensures
        forall|i: int| 0 <= i < items.len() ==> legacy_shape(#[trigger] items[i]) is None,
    decreases items.len(),
{
    if items.len() > 0 {
        lemma_all_legacy(items.drop_last());
        assert forall|i: int| 0 <= i < items.len() implies legacy_shape(
            #[trigger] items[i],
        ) is None by {
            if i < items.len() - 1 {
                assert(items.drop_last()[i] == items[i]);
            }
        }
    }
}

impl AdapterSession for BingxSession {
    open spec fn commands_for(&self, action: SubscriptionAction, keys: Seq<KeyView>) -> Result<
        Seq<CommandView>,
        AdapterErrorView,
    > {
        subscription_outcome(self@, action, keys).1
    }

    open spec fn after_change(
        &self,
        action: SubscriptionAction,
        keys: Seq<KeyView>,
        after: &Self,
    ) -> bool {
        after@ == subscription_outcome(self@, action, keys).0
    }

    open spec fn sign_of_life(&self) -> HeartbeatView {
        HeartbeatView::Text("Pong"@)
    }

    open spec fn after_sign(&self, after: &Self) -> bool {
        after@ == self@
    }

    open spec fn frame_for(&self, text: Seq<char>, received_at_ms: u64) -> Result<
        FrameView,
        AdapterErrorView,
    > {
        text_frame(self@, text, received_at_ms).1
    }

    open spec fn after_frame(&self, text: Seq<char>, received_at_ms: u64, after: &Self) -> bool {
        after@ == text_frame(self@, text, received_at_ms).0
    }

    fn subscription_messages(
        &mut self,
        action: SubscriptionAction,
        subscriptions: &[SubscriptionKey],
    ) -> (r: Result<Vec<OutboundCommand>, AdapterError>)
        ensures
            providers::issues(
                final(self)@,
                r,
                subscription_outcome(
                    old(self)@,
                    action,
                    domain::key_views(subscriptions@),
                ),
            ),
            fits_connection(final(self)@.active),
    {
        let active = self.active_topics.len();
        providers::validate_subscriptions(Provider::Bingx, subscriptions)?;
        let ghost keys = domain::key_views(subscriptions@);
        let sound = count_sound(subscriptions);
        if action == SubscriptionAction::Unsubscribe {
            providers::forget_all(&mut self.tickers, subscriptions, sound);
        }
        proof {
            assert(keys.take(keys.len() as int) =~= keys);
        }
        if sound < subscriptions.len() {
            validate_bingx_symbol(subscriptions[sound].symbol.as_str())?;
        }
        let requested = providers::gather(subscriptions);
        let topics = sift(
            &requested,
            &self.active_topics.topics,
            action == SubscriptionAction::Unsubscribe,
        );
        match action {
            SubscriptionAction::Subscribe => {
                if topics.len() > MAX_TOPICS_PER_CONNECTION || active
                    > MAX_TOPICS_PER_CONNECTION - topics.len() {
                    return Err(
                        AdapterError::InvalidSubscription {
                            provider: Provider::Bingx,
                            message:
                                "subscription would exceed BingX's 200-topic connection limit".to_owned(),
                        },
                    );
                }
                proof {
                    lemma_active_fits(self@.active, action, keys);
                }
                self.active_topics.activate(&topics);
            },
            SubscriptionAction::Unsubscribe => {
                self.active_topics.deactivate(&requested);
                let _active = self.active_topics.len();
            },
        }
        Ok(self.command_messages(action, &topics))
    }

    fn heartbeat(&mut self) -> (heartbeat: Heartbeat)
        ensures
            heartbeat@ == HeartbeatView::Text("Pong"@),
            final(self)@ == old(self)@,
    {
        Heartbeat::Text("Pong".to_owned())
    }

    fn parse(&mut self, text: &str, received_at_ms: u64) -> (r: Result<ParsedFrame, AdapterError>)
        ensures
            providers::concurs(final(self)@, r, text_frame(old(self)@, text@, received_at_ms)),
    {
        if text::same(text, "Ping") {
            return Ok(ParsedFrame::Reply(Heartbeat::Text("Pong".to_owned())));
        }
        if text::same(text, "Pong") {
            return Ok(ParsedFrame::Pong);
        }
        match json::read(text) {
            Ok(root) => self.parse_document(&root, received_at_ms),
            Err(message) => invalid(providers::complain("invalid JSON: ", message).as_str()),
        }
    }
}

impl ProviderAdapter for BingxAdapter {
    type Session = BingxSession;

    open spec fn venue(&self) -> Provider {
        Provider::Bingx
    }

    open spec fn route(&self, channel: Channel) -> EndpointKind {
        EndpointKind::Primary
    }

    open spec fn spread(&self) -> Seq<EndpointKind> {
        seq![EndpointKind::Primary]
    }

    open spec fn starts(
        &self,
        endpoint: EndpointKind,
        connection_epoch: u128,
        session: BingxSession,
    ) -> bool {
        session@ == (BingxView {
            common: providers::fresh(connection_epoch),
            active: Seq::empty(),
        })
    }

    fn provider(&self) -> (provider: Provider) {
        Provider::Bingx
    }

    fn endpoints(&self) -> (list: Vec<EndpointKind>) {
        let list = BingxAdapter::endpoints(self);
        proof {
            assert(list@[0] == EndpointKind::Primary);
        }
        list
    }

    fn endpoint_for(&self, channel: Channel) -> (endpoint: EndpointKind) {
        BingxAdapter::endpoint_for(self, channel)
    }

    fn session(&self, endpoint: EndpointKind, connection_epoch: u128) -> (session: BingxSession) {
        BingxAdapter::session(self, endpoint, connection_epoch)
    }
}

} // verus!
