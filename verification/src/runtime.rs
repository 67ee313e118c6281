//! What an upstream connection decides: which commands go out and are acknowledged, when it is
//! live, stale, idle or due for a reconnect.
pub mod connection;
pub mod supervisor;

use vstd::prelude::*;

use crate::providers;
use crate::providers::{AdapterError, AdapterErrorView, CommandView, OutboundCommand};
use crate::table::Table;
use crate::text;

verus! {

pub const CONNECT_TIMEOUT_MS: u64 = 15_000;

pub const WRITE_TIMEOUT_MS: u64 = 5_000;

// ---------------------------------------------------------------------------------------------
// Time
// ---------------------------------------------------------------------------------------------

/// Outside function: `SystemTime::now`, as milliseconds since the Unix epoch, or nothing where the
/// clock stands before it. Nothing is claimed of the result: it is whatever the clock says.
#[verifier::external_body]
fn clock_reading() -> Option<u128> {
    match std::time::SystemTime::now().duration_since(std::time::UNIX_EPOCH) {
        Ok(elapsed) => Some(elapsed.as_millis()),
        Err(_) => None,
    }
}

/// A number of milliseconds in 64 bits, the largest one where it does not fit.
pub fn bounded_millis(millis: u128) -> (bounded: u64)
    ensures
        bounded == (if millis <= u64::MAX {
            millis as u64
        } else {
            u64::MAX
        }),
{
    if millis <= u64::MAX as u128 {
        millis as u64
    } else {
        u64::MAX
    }
}

/// The milliseconds of a reading of the wall clock: none where the clock stands before the Unix
/// epoch, and the largest number where they do not fit.
pub fn millis_of(reading: Option<u128>) -> (millis: u64)
    ensures
        millis == match reading {
            Some(elapsed) => if elapsed <= u64::MAX {
                elapsed as u64
            } else {
                u64::MAX
            },
            None => 0,
        },
{
    match reading {
        Some(elapsed) => bounded_millis(elapsed),
        None => 0,
    }
}

/// The wall clock in milliseconds since the Unix epoch, as [`millis_of`] reads it. Which time it
/// gives is up to the clock.
pub fn unix_time_ms() -> u64 {
    millis_of(clock_reading())
}

/// A point in time some milliseconds later, the latest one where there is none so late.
pub open spec fn later(now_ms: u64, wait_ms: u64) -> u64 {
    if now_ms + wait_ms <= u64::MAX {
        (now_ms + wait_ms) as u64
    } else {
        u64::MAX
    }
}

/// How long ago a point in time was.
pub open spec fn since(then_ms: u64, now_ms: u64) -> u64 {
    if now_ms >= then_ms {
        (now_ms - then_ms) as u64
    } else {
        0
    }
}

/// The three digits of a number of milliseconds below one second, without the zeros at their end.
pub open spec fn fraction_text(millis: nat) -> Seq<char> {
    let a = text::digit_char(millis / 100);
    let b = text::digit_char((millis / 10) % 10);
    let c = text::digit_char(millis % 10);
    if millis % 10 != 0 {
        seq![a, b, c]
    } else if (millis / 10) % 10 != 0 {
        seq![a, b]
    } else {
        seq![a]
    }
}

/// A duration in words: `0ns`, `125ms`, `15s`, `1.5s`.
pub open spec fn duration_words(millis: u64) -> Seq<char> {
    if millis == 0 {
        "0ns"@
    } else if millis < 1_000 {
        text::digits(millis as nat) + "ms"@
    } else if millis % 1_000 == 0 {
        text::digits((millis / 1_000) as nat) + "s"@
    } else {
        text::digits((millis / 1_000) as nat) + "."@ + fraction_text((millis % 1_000) as nat) + "s"@
    }
}

/// A digit.
fn digit(n: u64) -> (c: char)
    requires
        n < 10,
    ensures
        c == text::digit_char(n as nat),
{
    (('0' as u8) + (n as u8)) as char
}

/// A duration in words.
pub fn duration_text(millis: u64) -> (words: String)
    ensures
        words@ == duration_words(millis),
{
    if millis == 0 {
        "0ns".to_owned()
    } else if millis < 1_000 {
        text::cat2(text::unsigned_text(millis).as_str(), "ms")
    } else {
        let whole = text::unsigned_text(millis / 1_000);
        let rest = millis % 1_000;
        if rest == 0 {
            text::cat2(whole.as_str(), "s")
        } else {
            let mut fraction: Vec<char> = Vec::new();
            fraction.push(digit(rest / 100));
            if rest % 100 != 0 {
                fraction.push(digit((rest / 10) % 10));
            }
            if rest % 10 != 0 {
                fraction.push(digit(rest % 10));
            }
            let words = text::assembled(&fraction);
            proof {
                assert(words@ =~= fraction_text(rest as nat));
            }
            text::cat4(whole.as_str(), ".", words.as_str(), "s")
        }
    }
}

// ---------------------------------------------------------------------------------------------
// Errors
// ---------------------------------------------------------------------------------------------

/// Why a connection ended.
#[derive(Debug)]
pub enum RuntimeError {
    Adapter(AdapterError),
    WebSocket(String),
    ConnectTimeout(u64),
    WriteTimeout(u64),
    Closed,
    Stale(u64),
    ProviderClosed(String),
    RegistryClosed,
    NonUtf8Binary,
    InvalidOutboundCommand,
    DuplicateOutboundRequestId(String),
    UnexpectedAcknowledgement(String),
    SubscriptionAcknowledgementTimeout(u64),
}

/// The mathematical value of a [`RuntimeError`].
pub enum RuntimeErrorView {
    Adapter(AdapterErrorView),
    WebSocket(Seq<char>),
    ConnectTimeout(u64),
    WriteTimeout(u64),
    Closed,
    Stale(u64),
    ProviderClosed(Seq<char>),
    RegistryClosed,
    NonUtf8Binary,
    InvalidOutboundCommand,
    DuplicateOutboundRequestId(Seq<char>),
    UnexpectedAcknowledgement(Seq<char>),
    SubscriptionAcknowledgementTimeout(u64),
}

impl View for RuntimeError {
    type V = RuntimeErrorView;

    open spec fn view(&self) -> RuntimeErrorView {
        match self {
            RuntimeError::Adapter(error) => RuntimeErrorView::Adapter(error@),
            RuntimeError::WebSocket(message) => RuntimeErrorView::WebSocket(message@),
            RuntimeError::ConnectTimeout(wait) => RuntimeErrorView::ConnectTimeout(*wait),
            RuntimeError::WriteTimeout(wait) => RuntimeErrorView::WriteTimeout(*wait),
            RuntimeError::Closed => RuntimeErrorView::Closed,
            RuntimeError::Stale(wait) => RuntimeErrorView::Stale(*wait),
            RuntimeError::ProviderClosed(frame) => RuntimeErrorView::ProviderClosed(frame@),
            RuntimeError::RegistryClosed => RuntimeErrorView::RegistryClosed,
            RuntimeError::NonUtf8Binary => RuntimeErrorView::NonUtf8Binary,
            RuntimeError::InvalidOutboundCommand => RuntimeErrorView::InvalidOutboundCommand,
            RuntimeError::DuplicateOutboundRequestId(id) =>
                RuntimeErrorView::DuplicateOutboundRequestId(id@),
            RuntimeError::UnexpectedAcknowledgement(id) =>
                RuntimeErrorView::UnexpectedAcknowledgement(id@),
            RuntimeError::SubscriptionAcknowledgementTimeout(wait) =>
                RuntimeErrorView::SubscriptionAcknowledgementTimeout(*wait),
        }
    }
}

/// An error in words.
pub open spec fn runtime_message(error: RuntimeErrorView) -> Seq<char> {
    match error {
        RuntimeErrorView::Adapter(error) => providers::adapter_message(error),
        RuntimeErrorView::WebSocket(message) => message,
        RuntimeErrorView::ConnectTimeout(wait) => "upstream websocket connect timed out after "@
            + duration_words(wait),
        RuntimeErrorView::WriteTimeout(wait) => "upstream websocket write timed out after "@
            + duration_words(wait),
        RuntimeErrorView::Closed => "upstream websocket closed"@,
        RuntimeErrorView::Stale(wait) => "upstream websocket was stale for "@
            + duration_words(wait),
        RuntimeErrorView::ProviderClosed(frame) => "provider closed the websocket: "@ + frame,
        RuntimeErrorView::RegistryClosed => "subscription registry closed"@,
        RuntimeErrorView::NonUtf8Binary => "provider sent a non-UTF-8 binary frame"@,
        RuntimeErrorView::InvalidOutboundCommand =>
            "provider generated an invalid outbound subscription command"@,
        RuntimeErrorView::DuplicateOutboundRequestId(id) => "provider reused outbound request id "@
            + id,
        RuntimeErrorView::UnexpectedAcknowledgement(id) =>
            "provider acknowledged unknown or already completed request id "@ + id,
        RuntimeErrorView::SubscriptionAcknowledgementTimeout(wait) =>
            "initial subscription acknowledgement timed out after "@ + duration_words(wait),
    }
}

impl RuntimeError {
    /// The error in words.
    pub fn message(&self) -> (message: String)
        ensures
            message@ == runtime_message(self@),
    {
        match self {
            RuntimeError::Adapter(error) => error.message(),
            RuntimeError::WebSocket(message) => message.clone(),
            RuntimeError::ConnectTimeout(wait) => text::cat2(
                "upstream websocket connect timed out after ",
                duration_text(*wait).as_str(),
            ),
            RuntimeError::WriteTimeout(wait) => text::cat2(
                "upstream websocket write timed out after ",
                duration_text(*wait).as_str(),
            ),
            RuntimeError::Closed => "upstream websocket closed".to_owned(),
            RuntimeError::Stale(wait) => text::cat2(
                "upstream websocket was stale for ",
                duration_text(*wait).as_str(),
            ),
            RuntimeError::ProviderClosed(frame) => text::cat2(
                "provider closed the websocket: ",
                frame.as_str(),
            ),
            RuntimeError::RegistryClosed => "subscription registry closed".to_owned(),
            RuntimeError::NonUtf8Binary => "provider sent a non-UTF-8 binary frame".to_owned(),
            RuntimeError::InvalidOutboundCommand =>
                "provider generated an invalid outbound subscription command".to_owned(),
            RuntimeError::DuplicateOutboundRequestId(id) => text::cat2(
                "provider reused outbound request id ",
                id.as_str(),
            ),
            RuntimeError::UnexpectedAcknowledgement(id) => text::cat2(
                "provider acknowledged unknown or already completed request id ",
                id.as_str(),
            ),
            RuntimeError::SubscriptionAcknowledgementTimeout(wait) => text::cat2(
                "initial subscription acknowledgement timed out after ",
                duration_text(*wait).as_str(),
            ),
        }
    }
}

// ---------------------------------------------------------------------------------------------
// Commands and their acknowledgements
// ---------------------------------------------------------------------------------------------

/// The commands of a connection: those that wait to be sent, and those that were sent and wait for
/// acknowledgements.
#[derive(Debug)]
pub struct CommandState {
    queued: Vec<OutboundCommand>,
    pending: Table<String, usize>,
    known_request_ids: Table<String, bool>,
}

/// The mathematical value of a [`CommandState`]: the commands that wait to be sent, first to last;
/// how many acknowledgements each sent one still waits for; and the request ids in use.
pub struct CommandsView {
    pub queued: Seq<CommandView>,
    pub pending: Map<Seq<char>, usize>,
    pub known: Set<Seq<char>>,
}

impl View for CommandState {
    type V = CommandsView;

    closed spec fn view(&self) -> CommandsView {
        CommandsView {
            queued: providers::command_views(self.queued@),
            pending: self.pending@,
            known: self.known_request_ids@.dom(),
        }
    }
}

/// The state without commands.
pub open spec fn no_commands() -> CommandsView {
    CommandsView { queued: Seq::empty(), pending: Map::empty(), known: Set::empty() }
}

/// Whether a command can be sent: it has a request id.
pub open spec fn is_sendable(command: CommandView) -> bool {
    command.request_id.len() > 0
}

/// What one more command makes of the state, and why it is refused.
pub open spec fn enqueued_one(state: CommandsView, command: CommandView) -> (
    CommandsView,
    Option<RuntimeErrorView>,
) {
    if !is_sendable(command) {
        (state, Some(RuntimeErrorView::InvalidOutboundCommand))
    } else if state.known.contains(command.request_id) {
        (state, Some(RuntimeErrorView::DuplicateOutboundRequestId(command.request_id)))
    } else {
        (
            CommandsView {
                queued: state.queued.push(command),
                known: state.known.insert(command.request_id),
                ..state
            },
            None,
        )
    }
}

/// What more commands make of the state, and why they are refused. Those before the first refused
/// one stay.
pub open spec fn enqueued(state: CommandsView, list: Seq<CommandView>) -> (
    CommandsView,
    Option<RuntimeErrorView>,
)
    decreases list.len(),
{
    if list.len() == 0 {
        (state, None)
    } else {
        let before = enqueued(state, list.drop_last());
        match before.1 {
            Some(_) => before,
            None => enqueued_one(before.0, list.last()),
        }
    }
}

/// The state with its first command taken out.
pub open spec fn popped(state: CommandsView) -> CommandsView {
    CommandsView {
        queued: if state.queued.len() > 0 {
            state.queued.skip(1)
        } else {
            state.queued
        },
        ..state
    }
}

/// The state after a command was sent. One that expects no acknowledgement is complete at once.
pub open spec fn sent(
    state: CommandsView,
    request_id: Seq<char>,
    acknowledgements: usize,
) -> CommandsView {
    if acknowledgements > 0 {
        CommandsView { pending: state.pending.insert(request_id, acknowledgements), ..state }
    } else if state.pending.contains_key(request_id) {
        state
    } else {
        CommandsView { known: state.known.remove(request_id), ..state }
    }
}

/// The state after an acknowledgement. The last one of a command completes it.
pub open spec fn acknowledged(state: CommandsView, request_id: Seq<char>) -> CommandsView {
    if !state.pending.contains_key(request_id) {
        state
    } else if state.pending[request_id] == 1 {
        CommandsView {
            pending: state.pending.remove(request_id),
            known: state.known.remove(request_id),
            ..state
        }
    } else {
        CommandsView {
            pending: state.pending.insert(
                request_id,
                (state.pending[request_id] - 1) as usize,
            ),
            ..state
        }
    }
}

/// Whether every command was sent and acknowledged.
pub open spec fn is_complete(state: CommandsView) -> bool {
    state.queued.len() == 0 && state.pending == Map::<Seq<char>, usize>::empty()
}

/// An error about the first commands of a list is the error about the list.
proof fn lemma_enqueued_prefix(state: CommandsView, list: Seq<CommandView>, count: int)
    requires
        0 <= count <= list.len(),
        enqueued(state, list.take(count)).1 is Some,
    ensures
        enqueued(state, list) == enqueued(state, list.take(count)),
    decreases list.len(),
{
    if count < list.len() {
        assert(list.drop_last().take(count) =~= list.take(count));
        lemma_enqueued_prefix(state, list.drop_last(), count);
    } else {
        assert(list.take(count) =~= list);
    }
}

impl CommandState {
    /// Every queued command can be sent, and every sent one waits for an acknowledgement.
    #[verifier::type_invariant]
    spec fn sound(&self) -> bool {
        &&& forall|i: int| 0 <= i < self.queued@.len() ==> is_sendable((#[trigger] self.queued@[i])@)
        &&& forall|id: Seq<char>| #[trigger]
            self.pending@.contains_key(id) ==> self.pending@[id] > 0
    }

    /// The state without commands.
    pub fn new() -> (state: Self)
        ensures
            state@ == no_commands(),
    {
        let state = CommandState {
            queued: Vec::new(),
            pending: Table::new(),
            known_request_ids: Table::new(),
        };
        proof {
            assert(state@.queued =~= Seq::empty());
            assert(state@.known =~= Set::empty());
        }
        state
    }

    /// Queue one command.
    fn enqueue_one(&mut self, command: OutboundCommand) -> (r: Result<(), RuntimeError>)
        ensures
            final(self)@ == enqueued_one(old(self)@, command@).0,
            match r {
                Ok(_) => enqueued_one(old(self)@, command@).1 is None,
                Err(error) => enqueued_one(old(self)@, command@).1 == Some(error@),
            },
    {
        if command.request_id.as_str().is_empty() {
            return Err(RuntimeError::InvalidOutboundCommand);
        }
        if self.known_request_ids.get(&command.request_id).is_some() {
            return Err(RuntimeError::DuplicateOutboundRequestId(command.request_id));
        }
        let ghost start = self@;
        let ghost added = command@;
        proof {
            use_type_invariant(&*self);
        }
        let mut known: Table<String, bool> = Table::new();
        core::mem::swap(&mut known, &mut self.known_request_ids);
        known.insert(command.request_id.clone(), true);
        self.known_request_ids = known;
        let mut queued: Vec<OutboundCommand> = Vec::new();
        core::mem::swap(&mut queued, &mut self.queued);
        queued.push(command);
        self.queued = queued;
        proof {
            assert(self@.queued =~= start.queued.push(added));
            assert(self@.known =~= start.known.insert(added.request_id));
        }
        Ok(())
    }

    /// Queue commands.
    ///
    /// # Errors
    ///
    /// A command needs a request id that is not in use.
    pub fn enqueue(&mut self, commands: Vec<OutboundCommand>) -> (r: Result<(), RuntimeError>)
        ensures
            final(self)@ == enqueued(old(self)@, providers::command_views(commands@)).0,
            match r {
                Ok(_) => enqueued(old(self)@, providers::command_views(commands@)).1 is None,
                Err(error) => enqueued(old(self)@, providers::command_views(commands@)).1 == Some(
                    error@,
                ),
            },
    {
        let ghost start = self@;
        let ghost all = providers::command_views(commands@);
        let mut i: usize = 0;
        proof {
            assert(all.take(0) =~= Seq::empty());
        }
        while i < commands.len()
            invariant
                i <= commands@.len(),
                start == old(self)@,
                all == providers::command_views(commands@),
                enqueued(start, all.take(i as int)) == (self@, None::<RuntimeErrorView>),
            decreases commands.len() - i,
        {
            proof {
                let longer = all.take(i + 1);
                assert(longer.drop_last() =~= all.take(i as int));
                assert(longer.last() == commands@[i as int]@);
                if enqueued(start, longer).1 is Some {
                    lemma_enqueued_prefix(start, all, i + 1);
                }
            }
            self.enqueue_one(commands[i].clone())?;
            i += 1;
        }
        proof {
            assert(all.take(i as int) =~= all);
        }
        Ok(())
    }

    /// Whether a command waits to be sent.
    pub fn has_queued(&self) -> (answer: bool)
        ensures
            answer == (self@.queued.len() > 0),
    {
        self.queued.len() > 0
    }

    /// Take the first command that waits to be sent.
    pub fn pop_front(&mut self) -> (command: Option<OutboundCommand>)
        ensures
            final(self)@ == popped(old(self)@),
            match command {
                Some(command) => {
                    &&& old(self)@.queued.len() > 0
                    &&& command@ == old(self)@.queued[0]
                    &&& is_sendable(command@)
                },
                None => old(self)@.queued.len() == 0,
            },
    {
        proof {
            use_type_invariant(&*self);
        }
        if self.queued.len() == 0 {
            return None;
        }
        let ghost start = self@;
        let mut queued: Vec<OutboundCommand> = Vec::new();
        core::mem::swap(&mut queued, &mut self.queued);
        let first = queued.remove(0);
        self.queued = queued;
        proof {
            assert(self@.queued =~= start.queued.skip(1));
        }
        Some(first)
    }

    /// Note that a command was sent.
    ///
    /// # Errors
    ///
    /// A request id under which acknowledgements are due already is refused.
    pub fn mark_sent(&mut self, request_id: String, expected_acknowledgements: usize) -> (r: Result<
        (),
        RuntimeError,
    >)
        ensures
            final(self)@ == sent(old(self)@, request_id@, expected_acknowledgements),
            match r {
                Ok(_) => !old(self)@.pending.contains_key(request_id@),
                Err(error) => {
                    &&& old(self)@.pending.contains_key(request_id@)
                    &&& error@ == RuntimeErrorView::DuplicateOutboundRequestId(request_id@)
                },
            },
    {
        proof {
            use_type_invariant(&*self);
        }
        let ghost start = self@;
        let replaced = self.pending.get(&request_id).is_some();
        if expected_acknowledgements == 0 {
            if replaced {
                return Err(RuntimeError::DuplicateOutboundRequestId(request_id));
            }
            let mut known: Table<String, bool> = Table::new();
            core::mem::swap(&mut known, &mut self.known_request_ids);
            let _known = known.remove(&request_id);
            self.known_request_ids = known;
            proof {
                assert(self@.known =~= start.known.remove(request_id@));
            }
            return Ok(());
        }
        let mut pending: Table<String, usize> = Table::new();
        core::mem::swap(&mut pending, &mut self.pending);
        pending.insert(request_id.clone(), expected_acknowledgements);
        self.pending = pending;
        if replaced {
            return Err(RuntimeError::DuplicateOutboundRequestId(request_id));
        }
        Ok(())
    }

    /// Note an acknowledgement.
    ///
    /// # Errors
    ///
    /// An acknowledgement under a request id that waits for none is refused.
    pub fn acknowledge(&mut self, request_id: &str) -> (r: Result<(), RuntimeError>)
        ensures
            final(self)@ == acknowledged(old(self)@, request_id@),
            match r {
                Ok(_) => old(self)@.pending.contains_key(request_id@),
                Err(error) => {
                    &&& !old(self)@.pending.contains_key(request_id@)
                    &&& error@ == RuntimeErrorView::UnexpectedAcknowledgement(request_id@)
                },
            },
    {
        proof {
            use_type_invariant(&*self);
        }
        let ghost start = self@;
        let key = request_id.to_owned();
        let remaining = match self.pending.get(&key) {
            Some(remaining) => *remaining,
            None => {
                return Err(RuntimeError::UnexpectedAcknowledgement(key));
            },
        };
        let mut pending: Table<String, usize> = Table::new();
        core::mem::swap(&mut pending, &mut self.pending);
        if remaining == 1 {
            let _last = pending.remove(&key);
            let mut known: Table<String, bool> = Table::new();
            core::mem::swap(&mut known, &mut self.known_request_ids);
            let _known = known.remove(&key);
            self.known_request_ids = known;
            proof {
                assert(self@.known =~= start.known.remove(request_id@));
            }
        } else {
            pending.insert(key, remaining - 1);
        }
        self.pending = pending;
        Ok(())
    }

    /// Whether every command was sent and acknowledged.
    pub fn readiness_complete(&self) -> (answer: bool)
        ensures
            answer == is_complete(self@),
    {
        self.queued.len() == 0 && self.pending.is_empty()
    }
}

impl Default for CommandState {
    /// The state without commands.
    fn default() -> (state: Self)
        ensures
            state@ == no_commands(),
    {
        CommandState::new()
    }
}

/// The state after some acknowledgements of one command.
pub open spec fn acknowledged_times(
    state: CommandsView,
    request_id: Seq<char>,
    count: nat,
) -> CommandsView
    decreases count,
{
    if count == 0 {
        state
    } else {
        acknowledged(
            acknowledged_times(state, request_id, (count - 1) as nat),
            request_id,
        )
    }
}

/// A command waits for exactly as many acknowledgements as it expects: each one but the last leaves
/// it waiting, the last one completes it, and no other command is touched.
pub proof fn law_acknowledgements_complete_a_command(
    state: CommandsView,
    request_id: Seq<char>,
    count: nat,
)
    requires
        state.pending.contains_key(request_id),
        0 < count <= state.pending[request_id],
    ensures
        ({
            let after = acknowledged_times(state, request_id, count);
            let expected = state.pending[request_id];
            &&& after.queued == state.queued
            &&& count < expected ==> after.pending == state.pending.insert(
                request_id,
                (expected - count) as usize,
            ) && after.known == state.known
            &&& count == expected ==> after.pending == state.pending.remove(request_id)
                && after.known == state.known.remove(request_id)
        }),
    decreases count,
{
    let expected = state.pending[request_id];
    if count == 1 {
        assert(acknowledged_times(state, request_id, 0) == state);
        if expected > 1 {
            assert(acknowledged_times(state, request_id, 1).pending =~= state.pending.insert(
                request_id,
                (expected - 1) as usize,
            ));
        }
    } else {
        law_acknowledgements_complete_a_command(state, request_id, (count - 1) as nat);
        let before = acknowledged_times(state, request_id, (count - 1) as nat);
        assert(before.pending[request_id] == expected - (count - 1));
        if count == expected {
            assert(before.pending.remove(request_id) =~= state.pending.remove(request_id));
        } else {
            assert(before.pending.insert(request_id, (expected - count) as usize)
                =~= state.pending.insert(request_id, (expected - count) as usize));
        }
    }
}

/// A command that is queued, sent and acknowledged as often as it expects leaves the state as it
/// was: readiness regresses only until then.
pub proof fn law_completed_command_leaves_no_trace(state: CommandsView, command: CommandView)
    requires
        is_sendable(command),
        state.queued.len() == 0,
        !state.known.contains(command.request_id),
        !state.pending.contains_key(command.request_id),
    ensures
        ({
            let queued = enqueued(state, seq![command]).0;
            let under_way = sent(
                popped(queued),
                command.request_id,
                command.expected_acknowledgements,
            );
            let done = acknowledged_times(
                under_way,
                command.request_id,
                command.expected_acknowledgements as nat,
            );
            &&& !is_complete(queued)
            &&& command.expected_acknowledgements > 0 ==> !is_complete(under_way)
            &&& command.expected_acknowledgements == 0 ==> under_way == state
            &&& done == state
        }),
{
    let list = seq![command];
    assert(list.drop_last() =~= Seq::empty());
    assert(list.last() == command);
    reveal_with_fuel(enqueued, 2);
    let queued = enqueued(state, list).0;
    let under_way = sent(popped(queued), command.request_id, command.expected_acknowledgements);
    if command.expected_acknowledgements > 0 {
        assert(under_way.pending.contains_key(command.request_id));
        law_acknowledgements_complete_a_command(
            under_way,
            command.request_id,
            command.expected_acknowledgements as nat,
        );
    } else {
        assert(under_way.queued =~= state.queued);
        assert(under_way.known =~= state.known);
    }
    let done = acknowledged_times(
        under_way,
        command.request_id,
        command.expected_acknowledgements as nat,
    );
    assert(done.queued =~= state.queued);
    assert(done.pending =~= state.pending);
    assert(done.known =~= state.known);
}

/// Something that happens to the commands of a connection.
pub enum CommandStep {
    /// Commands are queued.
    Enqueued(Seq<CommandView>),
    /// The first command that waits is taken out and sent.
    Sent,
    /// An acknowledgement comes under a request id.
    Acknowledged(Seq<char>),
}

/// The state after a step, or nothing where the step is refused or there is no command to send.
pub open spec fn after_step(state: CommandsView, step: CommandStep) -> Option<CommandsView> {
    match step {
        CommandStep::Enqueued(list) => match enqueued(state, list) {
            (after, None) => Some(after),
            (_, Some(_)) => None,
        },
        CommandStep::Sent => if state.queued.len() > 0 && !state.pending.contains_key(
            state.queued[0].request_id,
        ) {
            let first = state.queued[0];
            Some(sent(popped(state), first.request_id, first.expected_acknowledgements))
        } else {
            None
        },
        CommandStep::Acknowledged(request_id) => if state.pending.contains_key(request_id) {
            Some(acknowledged(state, request_id))
        } else {
            None
        },
    }
}

/// The state after a run of steps from the state without commands, or nothing where one of them is
/// refused.
pub open spec fn after_steps(steps: Seq<CommandStep>) -> Option<CommandsView>
    decreases steps.len(),
{
    if steps.len() == 0 {
        Some(no_commands())
    } else {
        match after_steps(steps.drop_last()) {
            Some(state) => after_step(state, steps.last()),
            None => None,
        }
    }
}

/// All commands that a run of steps queues, first to last.
pub open spec fn commands_in(steps: Seq<CommandStep>) -> Seq<CommandView>
    decreases steps.len(),
{
    if steps.len() == 0 {
        Seq::empty()
    } else {
        match steps.last() {
            CommandStep::Enqueued(list) => commands_in(steps.drop_last()) + list,
            _ => commands_in(steps.drop_last()),
        }
    }
}

/// How many commands a run of steps sends.
pub open spec fn sends_in(steps: Seq<CommandStep>) -> nat
    decreases steps.len(),
{
    if steps.len() == 0 {
        0
    } else {
        match steps.last() {
            CommandStep::Sent => sends_in(steps.drop_last()) + 1,
            _ => sends_in(steps.drop_last()),
        }
    }
}

/// How many acknowledgements under a request id come in a run of steps.
pub open spec fn acknowledgements_in(steps: Seq<CommandStep>, request_id: Seq<char>) -> nat
    decreases steps.len(),
{
    if steps.len() == 0 {
        0
    } else {
        match steps.last() {
            CommandStep::Acknowledged(id) => if id == request_id {
                acknowledgements_in(steps.drop_last(), request_id) + 1
            } else {
                acknowledgements_in(steps.drop_last(), request_id)
            },
            _ => acknowledgements_in(steps.drop_last(), request_id),
        }
    }
}

/// How many acknowledgements commands expect under a request id.
pub open spec fn expected_in(commands: Seq<CommandView>, request_id: Seq<char>) -> nat
    decreases commands.len(),
{
    if commands.len() == 0 {
        0
    } else if commands.last().request_id == request_id {
        expected_in(commands.drop_last(), request_id) + commands.last().expected_acknowledgements
            as nat
    } else {
        expected_in(commands.drop_last(), request_id)
    }
}

/// How many acknowledgements are still due under a request id.
spec fn due(state: CommandsView, request_id: Seq<char>) -> nat {
    if state.pending.contains_key(request_id) {
        state.pending[request_id] as nat
    } else {
        0
    }
}

/// Whether a state is where a run of steps leads to: what was not sent waits, and what was sent
/// and not acknowledged is due.
spec fn accounts(state: CommandsView, steps: Seq<CommandStep>) -> bool {
    let all = commands_in(steps);
    let sends = sends_in(steps);
    &&& sends <= all.len()
    &&& state.queued == all.skip(sends as int)
    &&& forall|i: int| 0 <= i < all.len() ==> is_sendable(#[trigger] all[i])
    &&& forall|id: Seq<char>| #[trigger]
        state.pending.contains_key(id) ==> state.pending[id] > 0
    &&& forall|id: Seq<char>|
        acknowledgements_in(steps, id) + #[trigger] due(state, id) == expected_in(
            all.take(sends as int),
            id,
        )
}

/// Commands that are accepted are appended, and each of them can be sent.
proof fn lemma_enqueued_appends(state: CommandsView, list: Seq<CommandView>)
    requires
        enqueued(state, list).1 is None,
    ensures
        enqueued(state, list).0.queued == state.queued + list,
        enqueued(state, list).0.pending == state.pending,
        forall|i: int| 0 <= i < list.len() ==> is_sendable(#[trigger] list[i]),
    decreases list.len(),
{
    if list.len() > 0 {
        let before = enqueued(state, list.drop_last());
        lemma_enqueued_appends(state, list.drop_last());
        assert(state.queued + list =~= (state.queued + list.drop_last()).push(list.last()));
        assert forall|i: int| 0 <= i < list.len() implies is_sendable(#[trigger] list[i]) by {
            if i < list.len() - 1 {
                assert(list.drop_last()[i] == list[i]);
            }
        }
    } else {
        assert(state.queued + list =~= state.queued);
    }
}

/// A run of steps leads to the state that it accounts for.
proof fn lemma_steps_account(steps: Seq<CommandStep>)
    requires
        after_steps(steps) is Some,
    ensures
        accounts(after_steps(steps)->0, steps),
    decreases steps.len(),
{
    if steps.len() == 0 {
        assert(commands_in(steps).skip(0) =~= Seq::empty());
        return;
    }
    let earlier = steps.drop_last();
    let before = after_steps(earlier)->0;
    let after = after_steps(steps)->0;
    lemma_steps_account(earlier);
    let all = commands_in(earlier);
    let sends = sends_in(earlier) as int;
    match steps.last() {
        CommandStep::Enqueued(list) => {
            lemma_enqueued_appends(before, list);
            assert((all + list).skip(sends) =~= all.skip(sends) + list);
            assert((all + list).take(sends) =~= all.take(sends));
            assert forall|id: Seq<char>|
                acknowledgements_in(steps, id) + #[trigger] due(after, id) == expected_in(
                    (all + list).take(sends),
                    id,
                ) by {
                assert(due(after, id) == due(before, id));
            }
        },
        CommandStep::Sent => {
            let first = before.queued[0];
            assert(first == all[sends]);
            assert(after.queued =~= all.skip(sends + 1));
            let longer = all.take(sends + 1);
            assert(longer.drop_last() =~= all.take(sends));
            assert forall|id: Seq<char>|
                acknowledgements_in(steps, id) + #[trigger] due(after, id) == expected_in(
                    longer,
                    id,
                ) by {
                assert(acknowledgements_in(earlier, id) + due(before, id) == expected_in(
                    all.take(sends),
                    id,
                ));
            }
        },
        CommandStep::Acknowledged(request_id) => {
            assert forall|id: Seq<char>|
                acknowledgements_in(steps, id) + #[trigger] due(after, id) == expected_in(
                    all.take(sends),
                    id,
                ) by {
                assert(acknowledgements_in(earlier, id) + due(before, id) == expected_in(
                    all.take(sends),
                    id,
                ));
            }
        },
    }
}

/// Whatever was queued, sent and acknowledged so far: a connection is ready exactly when every
/// queued command was sent, and as many acknowledgements came under each request id as the
/// commands under it expect. No more of them can come.
pub proof fn law_readiness_waits_for_every_command(steps: Seq<CommandStep>)
    requires
        after_steps(steps) is Some,
    ensures
        is_complete(after_steps(steps)->0) <==> {
            &&& sends_in(steps) == commands_in(steps).len()
            &&& forall|id: Seq<char>| #[trigger]
                acknowledgements_in(steps, id) == expected_in(commands_in(steps), id)
        },
        sends_in(steps) <= commands_in(steps).len(),
        forall|id: Seq<char>| #[trigger]
            acknowledgements_in(steps, id) <= expected_in(
                commands_in(steps).take(sends_in(steps) as int),
                id,
            ),
{
    lemma_steps_account(steps);
    let state = after_steps(steps)->0;
    let all = commands_in(steps);
    let sends = sends_in(steps) as int;
    assert forall|id: Seq<char>| #[trigger]
        acknowledgements_in(steps, id) + due(state, id) == expected_in(all.take(sends), id) by {
        assert(due(state, id) >= 0);
    }
    if sends == all.len() {
        assert(all.take(sends) =~= all);
    }
    if is_complete(state) {
        assert(sends == all.len());
    } else if sends == all.len() {
        if state.pending.dom() =~= Set::<Seq<char>>::empty() {
            assert(state.pending =~= Map::empty());
        }
        let id = choose|id: Seq<char>| state.pending.contains_key(id);
        assert(due(state, id) > 0);
        assert(acknowledgements_in(steps, id) != expected_in(all, id));
    }
}

} // verus!
