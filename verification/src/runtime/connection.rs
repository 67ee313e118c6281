//! One upstream connection as a state machine. The caller performs what it decides and reports
//! back what happened.
use vstd::prelude::*;

use crate::domain;
use crate::domain::{KeyView, ProviderEvent, ProviderEventView, SubscriptionKey};
use crate::keyset;
use crate::keyset::KeySet;
use crate::providers;
use crate::providers::{
    AdapterError, AdapterErrorView, AdapterSession, CommandView, ConnectionTarget, EndpointKind,
    FrameView, Heartbeat, HeartbeatView, ParsedFrame, ProviderAdapter, SubscriptionAction,
};
use crate::runtime;
use crate::runtime::{CommandState, CommandsView, RuntimeError, RuntimeErrorView};
use crate::text;

verus! {

// ---------------------------------------------------------------------------------------------
// Demand of an endpoint
// ---------------------------------------------------------------------------------------------

/// Whether a key is streamed over an endpoint of a venue.
pub open spec fn is_routed<A: ProviderAdapter>(
    adapter: &A,
    endpoint: EndpointKind,
    key: KeyView,
) -> bool {
    key.provider == adapter.venue() && adapter.route(key.channel) == endpoint
}

/// The keys of a set that are streamed over an endpoint of a venue.
pub open spec fn routed<A: ProviderAdapter>(
    adapter: &A,
    endpoint: EndpointKind,
    keys: Set<KeyView>,
) -> Set<KeyView> {
    keys.filter(|key: KeyView| is_routed(adapter, endpoint, key))
}

/// The keys of a set that are streamed over an endpoint of a venue.
pub fn filter_desired<A: ProviderAdapter>(adapter: &A, endpoint: EndpointKind, snapshot: &KeySet)
    -> (set: KeySet)
    ensures
        set@ == routed(adapter, endpoint, snapshot@),
{
    let n = snapshot.len();
    let ghost all = snapshot.list();
    let ghost wanted = |key: KeyView| is_routed(adapter, endpoint, key);
    let mut set = KeySet::new();
    let mut i: usize = 0;
    proof {
        assert(all.take(0).to_set() =~= Set::empty());
        assert(Set::<KeyView>::empty().filter(wanted) =~= Set::empty());
    }
    while i < n
        invariant
            i <= n,
            n == all.len(),
            all == snapshot.list(),
            wanted == (|key: KeyView| is_routed(adapter, endpoint, key)),
            set@ == all.take(i as int).to_set().filter(wanted),
        decreases n - i,
    {
        let key = snapshot.get(i);
        let ghost before = all.take(i as int).to_set();
        proof {
            keyset::lemma_take_to_set(all, i as int);
        }
        if key.provider == adapter.provider() && adapter.endpoint_for(key.channel) == endpoint {
            let _new = set.insert(key.clone());
            proof {
                assert(before.insert(key@).filter(wanted) =~= before.filter(wanted).insert(key@));
            }
        } else {
            proof {
                assert(before.insert(key@).filter(wanted) =~= before.filter(wanted));
            }
        }
        i += 1;
    }
    proof {
        assert(all.take(i as int) =~= all);
    }
    set
}

/// A key goes over one endpoint: no two endpoints of a venue share one, and over the endpoint that
/// the venue names for its channel it does go.
pub proof fn law_endpoints_partition_demand<A: ProviderAdapter>(
    adapter: &A,
    one: EndpointKind,
    other: EndpointKind,
    keys: Set<KeyView>,
    key: KeyView,
)
    requires
        keys.contains(key),
        key.provider == adapter.venue(),
    ensures
        one != other ==> !(routed(adapter, one, keys).contains(key) && routed(
            adapter,
            other,
            keys,
        ).contains(key)),
        routed(adapter, adapter.route(key.channel), keys).contains(key),
{
}

// ---------------------------------------------------------------------------------------------
// Frames
// ---------------------------------------------------------------------------------------------

/// What a frame means for the connection.
#[derive(Debug)]
pub enum ProcessedFrame {
    Acknowledgement(String),
    DemandedMarketEvent,
    Reply(Heartbeat),
    Other,
}

/// The mathematical value of a [`ProcessedFrame`].
pub enum ProcessedFrameView {
    Acknowledgement(Seq<char>),
    DemandedMarketEvent,
    Reply(HeartbeatView),
    Other,
}

impl View for ProcessedFrame {
    type V = ProcessedFrameView;

    open spec fn view(&self) -> ProcessedFrameView {
        match self {
            ProcessedFrame::Acknowledgement(id) => ProcessedFrameView::Acknowledgement(id@),
            ProcessedFrame::DemandedMarketEvent => ProcessedFrameView::DemandedMarketEvent,
            ProcessedFrame::Reply(heartbeat) => ProcessedFrameView::Reply(heartbeat@),
            ProcessedFrame::Other => ProcessedFrameView::Other,
        }
    }
}

/// A frame that was taken in: the updates to publish, how many were refused, and what it means.
#[derive(Debug)]
pub struct Processed {
    pub events: Vec<ProviderEvent>,
    pub rejected: usize,
    pub frame: ProcessedFrame,
}

/// The mathematical value of a [`Processed`].
pub struct ProcessedView {
    pub events: Seq<ProviderEventView>,
    pub rejected: nat,
    pub frame: ProcessedFrameView,
}

impl View for Processed {
    type V = ProcessedView;

    open spec fn view(&self) -> ProcessedView {
        ProcessedView {
            events: providers::event_views(self.events@),
            rejected: self.rejected as nat,
            frame: self.frame@,
        }
    }
}

/// The updates of a frame that are valid, in their order.
pub open spec fn valid_events(events: Seq<ProviderEventView>) -> Seq<ProviderEventView>
    decreases events.len(),
{
    if events.len() == 0 {
        Seq::empty()
    } else if domain::payload_problem(events.last().payload) is None {
        valid_events(events.drop_last()).push(events.last())
    } else {
        valid_events(events.drop_last())
    }
}

/// Whether one of the updates is demanded.
pub open spec fn some_demanded(events: Seq<ProviderEventView>, desired: Set<KeyView>) -> bool {
    exists|i: int|
        0 <= i < events.len() && desired.contains(domain::event_key(#[trigger] events[i]))
}

/// What a frame gives: valid updates are published even where nobody demands them, others are
/// counted; a rejected command ends the connection, and any other invalid frame is only counted.
pub open spec fn processed(
    result: Result<FrameView, AdapterErrorView>,
    desired: Set<KeyView>,
) -> Result<ProcessedView, RuntimeErrorView> {
    let nothing = ProcessedView {
        events: Seq::empty(),
        rejected: 0,
        frame: ProcessedFrameView::Other,
    };
    match result {
        Ok(FrameView::Events(events)) => {
            let valid = valid_events(events);
            Ok(
                ProcessedView {
                    events: valid,
                    rejected: (events.len() - valid.len()) as nat,
                    frame: if some_demanded(valid, desired) {
                        ProcessedFrameView::DemandedMarketEvent
                    } else {
                        ProcessedFrameView::Other
                    },
                },
            )
        },
        Ok(FrameView::Acknowledgement { request_id }) => Ok(
            ProcessedView {
                frame: ProcessedFrameView::Acknowledgement(request_id),
                ..nothing
            },
        ),
        Ok(FrameView::Reply(heartbeat)) => Ok(
            ProcessedView { frame: ProcessedFrameView::Reply(heartbeat), ..nothing },
        ),
        Ok(_) => Ok(nothing),
        Err(error) => if error is CommandRejected {
            Err(RuntimeErrorView::Adapter(error))
        } else {
            Ok(ProcessedView { rejected: 1, ..nothing })
        },
    }
}

/// Every published update is valid.
pub proof fn law_published_updates_are_valid(events: Seq<ProviderEventView>)
    ensures
        forall|i: int|
            0 <= i < valid_events(events).len() ==> domain::payload_problem(
                (#[trigger] valid_events(events)[i]).payload,
            ) is None,
        valid_events(events).len() <= events.len(),
    decreases events.len(),
{
    if events.len() > 0 {
        law_published_updates_are_valid(events.drop_last());
    }
}

/// Sort out the updates of a frame.
fn sort_out(events: Vec<ProviderEvent>, desired: &KeySet) -> (sorted: Processed)
    ensures
        processed(
            Ok(FrameView::Events(providers::event_views(events@))),
            desired@,
        ) == Ok::<ProcessedView, RuntimeErrorView>(sorted@),
{
    let ghost all = providers::event_views(events@);
    let mut valid: Vec<ProviderEvent> = Vec::new();
    let mut demanded: bool = false;
    let mut rejected: usize = 0;
    let mut i: usize = 0;
    proof {
        assert(all.take(0) =~= Seq::empty());
        assert(providers::event_views(valid@) =~= Seq::empty());
    }
    while i < events.len()
        invariant
            i <= events@.len(),
            all == providers::event_views(events@),
            providers::event_views(valid@) == valid_events(all.take(i as int)),
            demanded == some_demanded(valid_events(all.take(i as int)), desired@),
            rejected == i - valid@.len(),
            valid@.len() <= i,
        decreases events.len() - i,
    {
        let event = &events[i];
        let ghost before = providers::event_views(valid@);
        proof {
            let longer = all.take(i + 1);
            assert(longer.drop_last() =~= all.take(i as int));
            assert(longer.last() == event@);
        }
        if event.validate().is_ok() {
            let wanted = desired.contains(&event.subscription_key());
            demanded = demanded || wanted;
            valid.push(event.clone());
            proof {
                let after = before.push(event@);
                assert(providers::event_views(valid@) =~= after);
                if some_demanded(before, desired@) {
                    let k = choose|k: int|
                        0 <= k < before.len() && desired@.contains(
                            domain::event_key(#[trigger] before[k]),
                        );
                    assert(after[k] == before[k]);
                }
                if wanted {
                    assert(after[before.len() as int] == event@);
                }
                if some_demanded(after, desired@) && !wanted {
                    let k = choose|k: int|
                        0 <= k < after.len() && desired@.contains(
                            domain::event_key(#[trigger] after[k]),
                        );
                    assert(before[k] == after[k]);
                }
            }
        } else {
            rejected += 1;
        }
        i += 1;
    }
    proof {
        assert(all.take(i as int) =~= all);
    }
    Processed {
        events: valid,
        rejected,
        frame: if demanded {
            ProcessedFrame::DemandedMarketEvent
        } else {
            ProcessedFrame::Other
        },
    }
}

/// A frame without updates.
fn without_events(frame: ProcessedFrame, rejected: usize) -> (made: Processed)
    ensures
        made@ == (ProcessedView {
            events: Seq::empty(),
            rejected: rejected as nat,
            frame: frame@,
        }),
{
    let made = Processed { events: Vec::new(), rejected, frame };
    proof {
        assert(providers::event_views(made.events@) =~= Seq::empty());
    }
    made
}

/// Take in what a session made of a frame.
///
/// # Errors
///
/// A command that the venue rejected ends the connection.
pub fn process_text(result: Result<ParsedFrame, AdapterError>, desired: &KeySet) -> (r: Result<
    Processed,
    RuntimeError,
>)
    ensures
        match r {
            Ok(value) => processed(providers::frame_result(result), desired@) == Ok::<
                ProcessedView,
                RuntimeErrorView,
            >(value@),
            Err(error) => processed(providers::frame_result(result), desired@) == Err::<
                ProcessedView,
                RuntimeErrorView,
            >(error@),
        },
{
    match result {
        Ok(ParsedFrame::Events(events)) => Ok(sort_out(events, desired)),
        Ok(ParsedFrame::Acknowledgement { request_id }) => Ok(
            without_events(ProcessedFrame::Acknowledgement(request_id), 0),
        ),
        Ok(ParsedFrame::Reply(heartbeat)) => Ok(
            without_events(ProcessedFrame::Reply(heartbeat), 0),
        ),
        Ok(ParsedFrame::Pong) => Ok(without_events(ProcessedFrame::Other, 0)),
        Ok(ParsedFrame::Ignored) => Ok(without_events(ProcessedFrame::Other, 0)),
        Err(AdapterError::CommandRejected { provider, message }) => Err(
            RuntimeError::Adapter(AdapterError::CommandRejected { provider, message }),
        ),
        Err(_) => Ok(without_events(ProcessedFrame::Other, 1)),
    }
}

// ---------------------------------------------------------------------------------------------
// The connection
// ---------------------------------------------------------------------------------------------

/// A command under way: its request id and how many acknowledgements it expects.
#[derive(Debug)]
struct InFlight {
    request_id: String,
    expected_acknowledgements: usize,
}

/// One upstream connection.
#[derive(Debug)]
pub struct Connection {
    acknowledgement_timeout_ms: u64,
    stale_after_ms: u64,
    desired: KeySet,
    commands: CommandState,
    in_flight: Option<InFlight>,
    acknowledgement_deadline_ms: Option<u64>,
    live: bool,
    idle_after_commands: bool,
    last_market_event_ms: u64,
}

/// The mathematical value of a [`Connection`].
pub struct ConnectionView {
    pub acknowledgement_timeout_ms: u64,
    pub stale_after_ms: u64,
    pub desired: Set<KeyView>,
    pub commands: CommandsView,
    pub in_flight: Option<(Seq<char>, usize)>,
    pub acknowledgement_deadline_ms: Option<u64>,
    pub live: bool,
    pub idle_after_commands: bool,
    pub last_market_event_ms: u64,
}

impl View for Connection {
    type V = ConnectionView;

    closed spec fn view(&self) -> ConnectionView {
        ConnectionView {
            acknowledgement_timeout_ms: self.acknowledgement_timeout_ms,
            stale_after_ms: self.stale_after_ms,
            desired: self.desired@,
            commands: self.commands@,
            in_flight: match self.in_flight {
                Some(command) => Some((command.request_id@, command.expected_acknowledgements)),
                None => None,
            },
            acknowledgement_deadline_ms: self.acknowledgement_deadline_ms,
            live: self.live,
            idle_after_commands: self.idle_after_commands,
            last_market_event_ms: self.last_market_event_ms,
        }
    }
}

/// The keys of a set in order.
pub open spec fn listing(keys: Set<KeyView>) -> Seq<KeyView> {
    choose|list: Seq<KeyView>| keyset::enumerates(list, keys)
}

/// The order of the keys of a set is unique.
proof fn lemma_listing(list: Seq<KeyView>, keys: Set<KeyView>)
    requires
        keyset::enumerates(list, keys),
    ensures
        list == listing(keys),
{
    keyset::lemma_enumeration_unique(list, listing(keys), keys);
}

/// The commands of a session for a change of demand. No keys need no command.
pub open spec fn commands_of<S: AdapterSession>(
    session: &S,
    action: SubscriptionAction,
    keys: Set<KeyView>,
) -> Result<Seq<CommandView>, AdapterErrorView> {
    if keys == Set::<KeyView>::empty() {
        Ok(Seq::empty())
    } else {
        session.commands_for(action, listing(keys))
    }
}

/// Whether a change of demand takes a session to another one.
pub open spec fn changes<S: AdapterSession>(
    before: &S,
    action: SubscriptionAction,
    keys: Set<KeyView>,
    after: &S,
) -> bool {
    if keys == Set::<KeyView>::empty() {
        *after == *before
    } else {
        before.after_change(action, listing(keys), after)
    }
}

/// What the commands of a session make of the state, and why they are refused.
pub open spec fn queued(
    state: CommandsView,
    result: Result<Seq<CommandView>, AdapterErrorView>,
) -> (CommandsView, Option<RuntimeErrorView>) {
    match result {
        Ok(list) => runtime::enqueued(state, list),
        Err(error) => (state, Some(RuntimeErrorView::Adapter(error))),
    }
}

/// Queue the commands of a session for a change of demand.
fn queue_subscription_diff<S: AdapterSession>(
    commands: &mut CommandState,
    session: &mut S,
    action: SubscriptionAction,
    subscriptions: &Vec<SubscriptionKey>,
    Ghost(keys): Ghost<Set<KeyView>>,
) -> (r: Result<(), RuntimeError>)
    requires
        keyset::enumerates(domain::key_views(subscriptions@), keys),
    ensures
        final(commands)@ == queued(old(commands)@, commands_of(old(session), action, keys)).0,
        match r {
            Ok(_) => queued(old(commands)@, commands_of(old(session), action, keys)).1 is None,
            Err(error) => queued(old(commands)@, commands_of(old(session), action, keys)).1
                == Some(error@),
        },
        changes(old(session), action, keys, final(session)),
{
    proof {
        lemma_listing(domain::key_views(subscriptions@), keys);
    }
    if subscriptions.len() == 0 {
        proof {
            assert(keys =~= Set::empty());
        }
        return Ok(());
    }
    proof {
        assert(keys.contains(domain::key_views(subscriptions@)[0]));
    }
    match session.subscription_messages(action, subscriptions.as_slice()) {
        Ok(list) => commands.enqueue(list),
        Err(error) => Err(RuntimeError::Adapter(error)),
    }
}

/// Whether nothing is under way on a connection.
pub open spec fn is_settled(state: ConnectionView) -> bool {
    runtime::is_complete(state.commands) && state.in_flight is None
}

/// Whether a connection is live only while nothing is under way.
pub open spec fn is_sound(state: ConnectionView) -> bool {
    state.live ==> is_settled(state)
}

/// A new connection with its first commands, or why they are refused.
pub open spec fn opened(
    acknowledgement_timeout_ms: u64,
    stale_after_ms: u64,
    desired: Set<KeyView>,
    result: Result<Seq<CommandView>, AdapterErrorView>,
    now_ms: u64,
) -> Result<ConnectionView, RuntimeErrorView> {
    let commands = queued(runtime::no_commands(), result);
    match commands.1 {
        Some(error) => Err(error),
        None => Ok(
            ConnectionView {
                acknowledgement_timeout_ms,
                stale_after_ms,
                desired,
                commands: commands.0,
                in_flight: None,
                acknowledgement_deadline_ms: None,
                live: runtime::is_complete(commands.0),
                idle_after_commands: false,
                last_market_event_ms: now_ms,
            },
        ),
    }
}

/// A connection whose first command is under way.
pub open spec fn sending(state: ConnectionView) -> ConnectionView {
    if state.commands.queued.len() == 0 {
        state
    } else {
        let first = state.commands.queued[0];
        ConnectionView {
            commands: runtime::popped(state.commands),
            in_flight: Some((first.request_id, first.expected_acknowledgements)),
            ..state
        }
    }
}

/// What a sent command asks of the caller: whether the connection is over, and whether it became
/// live.
#[derive(Debug, Clone, Copy, PartialEq, Eq, Structural)]
pub struct SentStep {
    pub over: bool,
    pub became_live: bool,
}

/// A connection whose command under way was sent, or why it fails. Where nothing is under way any
/// more it is live.
pub open spec fn command_done(state: ConnectionView, now_ms: u64) -> (
    ConnectionView,
    Result<SentStep, RuntimeErrorView>,
) {
    match state.in_flight {
        None => (state, Ok(SentStep { over: false, became_live: false })),
        Some((request_id, expected)) => {
            let marked = ConnectionView {
                commands: runtime::sent(state.commands, request_id, expected),
                in_flight: None,
                ..state
            };
            if state.commands.pending.contains_key(request_id) {
                (marked, Err(RuntimeErrorView::DuplicateOutboundRequestId(request_id)))
            } else {
                let settled = runtime::is_complete(marked.commands);
                (
                    ConnectionView {
                        acknowledgement_deadline_ms: if settled {
                            None
                        } else {
                            Some(runtime::later(now_ms, state.acknowledgement_timeout_ms))
                        },
                        live: state.live || settled,
                        ..marked
                    },
                    Ok(
                        SentStep {
                            over: state.idle_after_commands && state.commands.queued.len() == 0,
                            became_live: settled && !state.live,
                        },
                    ),
                )
            }
        },
    }
}

/// What a change of demand asks of the caller: whether subscriptions changed, and whether to close
/// the connection.
#[derive(Debug, Clone, Copy, PartialEq, Eq, Structural)]
pub struct DemandStep {
    pub changed: bool,
    pub close: bool,
}

/// A connection after a change of demand, from what the session gives for the keys that went and
/// for those that came.
pub open spec fn demand_changed(
    state: ConnectionView,
    next: Set<KeyView>,
    unsubscribing: Result<Seq<CommandView>, AdapterErrorView>,
    subscribing: Result<Seq<CommandView>, AdapterErrorView>,
) -> (ConnectionView, Result<DemandStep, RuntimeErrorView>) {
    let gone = queued(state.commands, unsubscribing);
    let come = queued(gone.0, subscribing);
    match gone.1 {
        Some(error) => (
            ConnectionView { commands: gone.0, live: false, ..state },
            Err(error),
        ),
        None => match come.1 {
            Some(error) => (
                ConnectionView { commands: come.0, live: false, ..state },
                Err(error),
            ),
            None => (
                ConnectionView {
                    commands: come.0,
                    desired: next,
                    live: state.live && state.desired == next,
                    idle_after_commands: next == Set::<KeyView>::empty(),
                    ..state
                },
                Ok(
                    DemandStep {
                        changed: state.desired != next,
                        close: next == Set::<KeyView>::empty() && come.0.queued.len() == 0,
                    },
                ),
            ),
        },
    }
}

/// What a frame asks of the caller: updates to publish, refused ones to count, whether a demanded
/// update came, whether the connection became live, and what to answer.
#[derive(Debug)]
pub struct TextStep {
    pub events: Vec<ProviderEvent>,
    pub rejected: usize,
    pub demanded: bool,
    pub became_live: bool,
    pub reply: Option<Heartbeat>,
}

/// The mathematical value of a [`TextStep`].
pub struct TextStepView {
    pub events: Seq<ProviderEventView>,
    pub rejected: nat,
    pub demanded: bool,
    pub became_live: bool,
    pub reply: Option<HeartbeatView>,
}

impl View for TextStep {
    type V = TextStepView;

    open spec fn view(&self) -> TextStepView {
        TextStepView {
            events: providers::event_views(self.events@),
            rejected: self.rejected as nat,
            demanded: self.demanded,
            became_live: self.became_live,
            reply: match self.reply {
                Some(heartbeat) => Some(heartbeat@),
                None => None,
            },
        }
    }
}

/// A connection after an acknowledgement. It becomes live once nothing is under way.
pub open spec fn acknowledgement_taken(state: ConnectionView, request_id: Seq<char>, now_ms: u64)
    -> ConnectionView {
    let commands = runtime::acknowledged(state.commands, request_id);
    let settled = runtime::is_complete(commands) && state.in_flight is None;
    ConnectionView {
        commands,
        acknowledgement_deadline_ms: if settled {
            None
        } else {
            Some(runtime::later(now_ms, state.acknowledgement_timeout_ms))
        },
        live: state.live || settled,
        ..state
    }
}

/// A connection after a frame, from what the session makes of it.
pub open spec fn frame_taken(
    state: ConnectionView,
    result: Result<FrameView, AdapterErrorView>,
    now_ms: u64,
) -> (ConnectionView, Result<TextStepView, RuntimeErrorView>) {
    match processed(result, state.desired) {
        Err(error) => (state, Err(error)),
        Ok(value) => {
            let step = TextStepView {
                events: value.events,
                rejected: value.rejected,
                demanded: false,
                became_live: false,
                reply: None,
            };
            match value.frame {
                ProcessedFrameView::Acknowledgement(request_id) => {
                    let after = acknowledgement_taken(state, request_id, now_ms);
                    if state.commands.pending.contains_key(request_id) {
                        (
                            after,
                            Ok(
                                TextStepView {
                                    became_live: after.live && !state.live,
                                    ..step
                                },
                            ),
                        )
                    } else {
                        (
                            state,
                            Err(RuntimeErrorView::UnexpectedAcknowledgement(request_id)),
                        )
                    }
                },
                ProcessedFrameView::DemandedMarketEvent => (
                    ConnectionView { last_market_event_ms: now_ms, ..state },
                    Ok(TextStepView { demanded: true, ..step }),
                ),
                ProcessedFrameView::Reply(heartbeat) => (
                    state,
                    Ok(TextStepView { reply: Some(heartbeat), ..step }),
                ),
                ProcessedFrameView::Other => (state, Ok(step)),
            }
        },
    }
}

/// A connection is live only while every command was sent and acknowledged: opening it, sending,
/// changes of demand and frames all keep that, whatever the session gives.
pub proof fn law_live_connections_have_nothing_under_way(
    state: ConnectionView,
    desired: Set<KeyView>,
    first: Result<Seq<CommandView>, AdapterErrorView>,
    second: Result<Seq<CommandView>, AdapterErrorView>,
    frame: Result<FrameView, AdapterErrorView>,
    now_ms: u64,
)
    requires
        is_sound(state),
        forall|i: int|
            0 <= i < state.commands.queued.len() ==> runtime::is_sendable(
                #[trigger] state.commands.queued[i],
            ),
        state.desired == desired ==> first == Ok::<Seq<CommandView>, AdapterErrorView>(Seq::empty())
            && second == Ok::<Seq<CommandView>, AdapterErrorView>(Seq::empty()),
    ensures
        match opened(
            state.acknowledgement_timeout_ms,
            state.stale_after_ms,
            desired,
            first,
            now_ms,
        ) {
            Ok(fresh) => is_sound(fresh),
            Err(_) => true,
        },
        is_sound(sending(state)),
        is_sound(command_done(state, now_ms).0),
        is_sound(demand_changed(state, desired, first, second).0),
        is_sound(frame_taken(state, frame, now_ms).0),
{
    if state.desired == desired {
        assert(runtime::enqueued(state.commands, Seq::empty()) == (
            state.commands,
            None::<RuntimeErrorView>,
        ));
    }
}

/// A connection without a demanded update for the longest time is stale at its next sign of life,
/// and any demanded update starts that time anew.
pub proof fn law_staleness_counts_from_the_last_demanded_update(
    state: ConnectionView,
    frame: Result<FrameView, AdapterErrorView>,
    now_ms: u64,
    later_ms: u64,
)
    requires
        now_ms <= later_ms,
    ensures
        ({
            let after = frame_taken(state, frame, now_ms);
            &&& match after.1 {
                Ok(step) => if step.demanded {
                    is_stale(after.0, later_ms) <==> later_ms - now_ms >= state.stale_after_ms
                } else {
                    is_stale(after.0, later_ms) <==> is_stale(state, later_ms)
                },
                Err(_) => true,
            }
        }),
{
}

/// Whether a connection got no demanded update for too long.
pub open spec fn is_stale(state: ConnectionView, now_ms: u64) -> bool {
    runtime::since(state.last_market_event_ms, now_ms) >= state.stale_after_ms
}

/// Whether the acknowledgements of a connection are overdue.
pub open spec fn is_overdue(state: ConnectionView, now_ms: u64) -> bool {
    match state.acknowledgement_deadline_ms {
        Some(deadline) => deadline <= now_ms,
        None => false,
    }
}

impl Connection {
    /// A new connection. The first commands subscribe to what is desired.
    ///
    /// # Errors
    ///
    /// Returns why the session or the queue refuses the first commands.
    pub fn open<S: AdapterSession>(
        session: &mut S,
        desired: KeySet,
        target: &ConnectionTarget,
        now_ms: u64,
    ) -> (r: Result<Self, RuntimeError>)
        ensures
            ({
                let outcome = opened(
                    target.subscription_ack_timeout_ms,
                    target.stale_after_ms,
                    desired@,
                    commands_of(old(session), SubscriptionAction::Subscribe, desired@),
                    now_ms,
                );
                match r {
                    Ok(connection) => outcome == Ok::<ConnectionView, RuntimeErrorView>(
                        connection@,
                    ),
                    Err(error) => outcome == Err::<ConnectionView, RuntimeErrorView>(error@),
                }
            }),
            changes(old(session), SubscriptionAction::Subscribe, desired@, final(session)),
    {
        let mut commands = CommandState::new();
        let initial = desired.to_vec();
        queue_subscription_diff(
            &mut commands,
            session,
            SubscriptionAction::Subscribe,
            &initial,
            Ghost(desired@),
        )?;
        let live = commands.readiness_complete();
        Ok(
            Connection {
                acknowledgement_timeout_ms: target.subscription_ack_timeout_ms,
                stale_after_ms: target.stale_after_ms,
                desired,
                commands,
                in_flight: None,
                acknowledgement_deadline_ms: None,
                live,
                idle_after_commands: false,
                last_market_event_ms: now_ms,
            },
        )
    }

    /// Whether the connection is live.
    pub fn is_live(&self) -> (answer: bool)
        ensures
            answer == self@.live,
    {
        self.live
    }

    /// How many keys are desired.
    pub fn desired_count(&self) -> (count: usize)
        ensures
            count == self@.desired.len(),
    {
        self.desired.len()
    }

    /// Whether a command waits to be sent.
    pub fn has_queued(&self) -> (answer: bool)
        ensures
            answer == (self@.commands.queued.len() > 0),
    {
        self.commands.has_queued()
    }

    /// When acknowledgements are overdue.
    pub fn acknowledgement_deadline(&self) -> (deadline: Option<u64>)
        ensures
            deadline == self@.acknowledgement_deadline_ms,
    {
        self.acknowledgement_deadline_ms
    }

    /// The text of the next command to send.
    pub fn next_command(&mut self) -> (text: Option<String>)
        ensures
            final(self)@ == sending(old(self)@),
            match text {
                Some(text) => {
                    &&& old(self)@.commands.queued.len() > 0
                    &&& text@ == old(self)@.commands.queued[0].text
                },
                None => old(self)@.commands.queued.len() == 0,
            },
    {
        let mut commands = CommandState::new();
        core::mem::swap(&mut commands, &mut self.commands);
        let first = commands.pop_front();
        self.commands = commands;
        match first {
            Some(command) => {
                self.in_flight = Some(
                    InFlight {
                        request_id: command.request_id,
                        expected_acknowledgements: command.expected_acknowledgements,
                    },
                );
                Some(command.text)
            },
            None => None,
        }
    }

    /// Note that the command under way was sent.
    ///
    /// # Errors
    ///
    /// A request id under which acknowledgements are due already is refused.
    pub fn command_sent(&mut self, now_ms: u64) -> (r: Result<SentStep, RuntimeError>)
        ensures
            final(self)@ == command_done(old(self)@, now_ms).0,
            match r {
                Ok(step) => command_done(old(self)@, now_ms).1 == Ok::<SentStep, RuntimeErrorView>(
                    step,
                ),
                Err(error) => command_done(old(self)@, now_ms).1 == Err::<
                    SentStep,
                    RuntimeErrorView,
                >(error@),
            },
    {
        let mut in_flight: Option<InFlight> = None;
        core::mem::swap(&mut in_flight, &mut self.in_flight);
        let command = match in_flight {
            Some(command) => command,
            None => {
                return Ok(SentStep { over: false, became_live: false });
            },
        };
        let mut commands = CommandState::new();
        core::mem::swap(&mut commands, &mut self.commands);
        let marked = commands.mark_sent(
            command.request_id,
            command.expected_acknowledgements,
        );
        self.commands = commands;
        marked?;
        let over = self.idle_after_commands && !self.commands.has_queued();
        if self.commands.readiness_complete() {
            self.acknowledgement_deadline_ms = None;
            let became_live = !self.live;
            self.live = true;
            Ok(SentStep { over, became_live })
        } else {
            self.acknowledgement_deadline_ms = Some(self.deadline_from(now_ms));
            Ok(SentStep { over, became_live: false })
        }
    }

    /// When acknowledgements are overdue that are due from now on.
    fn deadline_from(&self, now_ms: u64) -> (deadline: u64)
        ensures
            deadline == runtime::later(now_ms, self@.acknowledgement_timeout_ms),
    {
        match now_ms.checked_add(self.acknowledgement_timeout_ms) {
            Some(deadline) => deadline,
            None => u64::MAX,
        }
    }

    /// Check that the connection still gets what is demanded.
    ///
    /// # Errors
    ///
    /// Returns [`RuntimeError::Stale`] where no demanded update came for too long.
    pub fn check_fresh(&self, now_ms: u64) -> (r: Result<(), RuntimeError>)
        ensures
            match r {
                Ok(_) => !is_stale(self@, now_ms),
                Err(error) => is_stale(self@, now_ms) && error@ == RuntimeErrorView::Stale(
                    self@.stale_after_ms,
                ),
            },
    {
        let elapsed: u64 = if now_ms >= self.last_market_event_ms {
            now_ms - self.last_market_event_ms
        } else {
            0
        };
        if elapsed >= self.stale_after_ms {
            return Err(RuntimeError::Stale(self.stale_after_ms));
        }
        Ok(())
    }

    /// Check that acknowledgements came in time.
    ///
    /// # Errors
    ///
    /// Returns [`RuntimeError::SubscriptionAcknowledgementTimeout`] where they are overdue.
    pub fn check_acknowledged(&self, now_ms: u64) -> (r: Result<(), RuntimeError>)
        ensures
            match r {
                Ok(_) => !is_overdue(self@, now_ms),
                Err(error) => is_overdue(self@, now_ms) && error@
                    == RuntimeErrorView::SubscriptionAcknowledgementTimeout(
                    self@.acknowledgement_timeout_ms,
                ),
            },
    {
        match self.acknowledgement_deadline_ms {
            Some(deadline) => {
                if deadline <= now_ms {
                    Err(
                        RuntimeError::SubscriptionAcknowledgementTimeout(
                            self.acknowledgement_timeout_ms,
                        ),
                    )
                } else {
                    Ok(())
                }
            },
            None => Ok(()),
        }
    }

    /// Follow a change of demand: what went is unsubscribed from first, then what came is subscribed
    /// to.
    ///
    /// # Errors
    ///
    /// Returns why the session or the queue refuses the commands.
    pub fn demand<S: AdapterSession>(&mut self, session: &mut S, next: KeySet) -> (r: Result<
        DemandStep,
        RuntimeError,
    >)
        ensures
            exists|middle: S|
                #![trigger commands_of(&middle, SubscriptionAction::Subscribe, next@.difference(
                    old(self)@.desired,
                ))]
                {
                    let removed = old(self)@.desired.difference(next@);
                    let added = next@.difference(old(self)@.desired);
                    let outcome = demand_changed(
                        old(self)@,
                        next@,
                        commands_of(old(session), SubscriptionAction::Unsubscribe, removed),
                        commands_of(&middle, SubscriptionAction::Subscribe, added),
                    );
                    &&& changes(old(session), SubscriptionAction::Unsubscribe, removed, &middle)
                    &&& final(self)@ == outcome.0
                    &&& match r {
                        Ok(step) => {
                            &&& outcome.1 == Ok::<DemandStep, RuntimeErrorView>(step)
                            &&& changes(
                                &middle,
                                SubscriptionAction::Subscribe,
                                added,
                                final(session),
                            )
                        },
                        Err(error) => {
                            &&& outcome.1 == Err::<DemandStep, RuntimeErrorView>(error@)
                            &&& if queued(
                                old(self)@.commands,
                                commands_of(old(session), SubscriptionAction::Unsubscribe, removed),
                            ).1 is Some {
                                *final(session) == middle
                            } else {
                                changes(
                                    &middle,
                                    SubscriptionAction::Subscribe,
                                    added,
                                    final(session),
                                )
                            }
                        },
                    }
                },
    {
        let removed = self.desired.difference(&next);
        let added = next.difference(&self.desired);
        let ghost start = self@;
        let ghost gone = start.desired.difference(next@);
        let ghost come = next@.difference(start.desired);
        let changed = removed.len() > 0 || added.len() > 0;
        proof {
            if changed {
                if removed@.len() > 0 {
                    assert(gone.contains(domain::key_views(removed@)[0]));
                } else {
                    assert(come.contains(domain::key_views(added@)[0]));
                }
            } else {
                assert(gone =~= Set::empty());
                assert(come =~= Set::empty());
                assert forall|key: KeyView| start.desired.contains(key) == next@.contains(key) by {
                    assert(!gone.contains(key));
                    assert(!come.contains(key));
                }
                assert(start.desired =~= next@);
            }
        }
        let mut commands = CommandState::new();
        core::mem::swap(&mut commands, &mut self.commands);
        let unsubscribed = queue_subscription_diff(
            &mut commands,
            session,
            SubscriptionAction::Unsubscribe,
            &removed,
            Ghost(gone),
        );
        let ghost middle = *session;
        let ghost subscribing = commands_of(&middle, SubscriptionAction::Subscribe, come);
        proof {
            assert(changes(old(session), SubscriptionAction::Unsubscribe, gone, &middle));
        }
        if let Err(error) = unsubscribed {
            self.commands = commands;
            self.live = false;
            proof {
                let unsubscribing = commands_of(
                    old(session),
                    SubscriptionAction::Unsubscribe,
                    gone,
                );
                assert(self@ == demand_changed(start, next@, unsubscribing, subscribing).0);
            }
            return Err(error);
        }
        let subscribed = queue_subscription_diff(
            &mut commands,
            session,
            SubscriptionAction::Subscribe,
            &added,
            Ghost(come),
        );
        self.commands = commands;
        proof {
            assert(changes(&middle, SubscriptionAction::Subscribe, come, session));
        }
        if let Err(error) = subscribed {
            self.live = false;
            return Err(error);
        }
        if changed {
            self.live = false;
        }
        self.desired = next;
        self.idle_after_commands = self.desired.is_empty();
        Ok(
            DemandStep {
                changed,
                close: self.idle_after_commands && !self.commands.has_queued(),
            },
        )
    }

    /// Take in what the session made of a frame.
    ///
    /// # Errors
    ///
    /// A rejected command or an acknowledgement that nothing waits for ends the connection.
    pub fn take_frame(&mut self, result: Result<ParsedFrame, AdapterError>, now_ms: u64) -> (r:
        Result<TextStep, RuntimeError>)
        ensures
            final(self)@ == frame_taken(old(self)@, providers::frame_result(result), now_ms).0,
            match r {
                Ok(step) => frame_taken(
                    old(self)@,
                    providers::frame_result(result),
                    now_ms,
                ).1 == Ok::<TextStepView, RuntimeErrorView>(step@),
                Err(error) => frame_taken(
                    old(self)@,
                    providers::frame_result(result),
                    now_ms,
                ).1 == Err::<TextStepView, RuntimeErrorView>(error@),
            },
    {
        let value = process_text(result, &self.desired)?;
        let mut step = TextStep {
            events: value.events,
            rejected: value.rejected,
            demanded: false,
            became_live: false,
            reply: None,
        };
        match value.frame {
            ProcessedFrame::Acknowledgement(request_id) => {
                let mut commands = CommandState::new();
                core::mem::swap(&mut commands, &mut self.commands);
                let taken = commands.acknowledge(request_id.as_str());
                self.commands = commands;
                taken?;
                if self.commands.readiness_complete() && self.in_flight.is_none() {
                    self.acknowledgement_deadline_ms = None;
                    step.became_live = !self.live;
                    self.live = true;
                } else {
                    self.acknowledgement_deadline_ms = Some(self.deadline_from(now_ms));
                }
            },
            ProcessedFrame::DemandedMarketEvent => {
                self.last_market_event_ms = now_ms;
                step.demanded = true;
            },
            ProcessedFrame::Reply(heartbeat) => {
                step.reply = Some(heartbeat);
            },
            ProcessedFrame::Other => {},
        }
        Ok(step)
    }

    /// Take in a text frame.
    ///
    /// # Errors
    ///
    /// A rejected command or an acknowledgement that nothing waits for ends the connection.
    pub fn take_text<S: AdapterSession>(
        &mut self,
        session: &mut S,
        text: &str,
        received_at_ms: u64,
        now_ms: u64,
    ) -> (r: Result<TextStep, RuntimeError>)
        ensures
            old(session).after_frame(text@, received_at_ms, final(session)),
            final(self)@ == frame_taken(
                old(self)@,
                old(session).frame_for(text@, received_at_ms),
                now_ms,
            ).0,
            match r {
                Ok(step) => frame_taken(
                    old(self)@,
                    old(session).frame_for(text@, received_at_ms),
                    now_ms,
                ).1 == Ok::<TextStepView, RuntimeErrorView>(step@),
                Err(error) => frame_taken(
                    old(self)@,
                    old(session).frame_for(text@, received_at_ms),
                    now_ms,
                ).1 == Err::<TextStepView, RuntimeErrorView>(error@),
            },
    {
        let result = session.parse(text, received_at_ms);
        self.take_frame(result, now_ms)
    }

    /// Take in a binary frame, which holds text.
    ///
    /// # Errors
    ///
    /// Bytes that are no text end the connection, as a rejected command or an acknowledgement that
    /// nothing waits for does.
    pub fn take_binary<S: AdapterSession>(
        &mut self,
        session: &mut S,
        bytes: &[u8],
        received_at_ms: u64,
        now_ms: u64,
    ) -> (r: Result<TextStep, RuntimeError>)
        ensures
            if !vstd::utf8::valid_utf8(bytes@) {
                &&& *final(session) == *old(session)
                &&& final(self)@ == old(self)@
                &&& r is Err && r->Err_0@ == RuntimeErrorView::NonUtf8Binary
            } else {
                let text = vstd::utf8::decode_utf8(bytes@);
                let outcome = frame_taken(
                    old(self)@,
                    old(session).frame_for(text, received_at_ms),
                    now_ms,
                );
                &&& old(session).after_frame(text, received_at_ms, final(session))
                &&& final(self)@ == outcome.0
                &&& match r {
                    Ok(step) => outcome.1 == Ok::<TextStepView, RuntimeErrorView>(step@),
                    Err(error) => outcome.1 == Err::<TextStepView, RuntimeErrorView>(error@),
                }
            },
    {
        match text::decode(bytes) {
            Some(text) => self.take_text(session, text.as_str(), received_at_ms, now_ms),
            None => Err(RuntimeError::NonUtf8Binary),
        }
    }
}

} // verus!
