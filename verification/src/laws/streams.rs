//! What a connection does with what it is given.
use vstd::prelude::*;

use crate::keyset::KeySet;
use crate::providers;
use crate::providers::{
    AdapterError, AdapterSession, ConnectionTarget, OutboundCommand, ParsedFrame,
    SubscriptionAction,
};
use crate::runtime;
use crate::runtime::connection;
use crate::runtime::connection::{Connection, SentStep, TextStep};
use crate::runtime::{CommandState, RuntimeError, RuntimeErrorView};

verus! {

/// Whether a step is the one that is wanted, or an error the one that is wanted.
pub open spec fn takes(
    r: Result<TextStep, RuntimeError>,
    wanted: Result<connection::TextStepView, RuntimeErrorView>,
) -> bool {
    match (r, wanted) {
        (Ok(step), Ok(view)) => step@ == view,
        (Err(error), Err(view)) => error@ == view,
        _ => false,
    }
}

/// A text is taken as what its venue means by it.
pub proof fn law_texts_are_taken<S: AdapterSession>(
    connection: &mut Connection,
    session: &mut S,
    text: &str,
    received: u64,
    now: u64,
    r: Result<TextStep, RuntimeError>,
)
    requires
        call_ensures(Connection::take_text::<S>, (connection, session, text, received, now), r),
    ensures
        old(session).after_frame(text@, received, final(session)),
        final(connection)@ == connection::frame_taken(
            old(connection)@,
            old(session).frame_for(text@, received),
            now,
        ).0,
        takes(
            r,
            connection::frame_taken(
                old(connection)@,
                old(session).frame_for(text@, received),
                now,
            ).1,
        ),
{
}

/// Bytes are taken as the text that they are, and refused where they are none.
pub proof fn law_bytes_are_taken_as_text<S: AdapterSession>(
    connection: &mut Connection,
    session: &mut S,
    bytes: &[u8],
    received: u64,
    now: u64,
    r: Result<TextStep, RuntimeError>,
)
    requires
        call_ensures(Connection::take_binary::<S>, (connection, session, bytes, received, now), r),
    ensures
        !vstd::utf8::valid_utf8(bytes@) ==> {
            &&& r is Err && r->Err_0@ == RuntimeErrorView::NonUtf8Binary
            &&& final(connection)@ == old(connection)@
        },
        vstd::utf8::valid_utf8(bytes@) ==> {
            let text = vstd::utf8::decode_utf8(bytes@);
            &&& old(session).after_frame(text, received, final(session))
            &&& takes(
                r,
                connection::frame_taken(
                    old(connection)@,
                    old(session).frame_for(text, received),
                    now,
                ).1,
            )
        },
{
}

/// A connection opens with what is wanted, and with the commands that ask for it.
pub proof fn law_connections_open_with_the_demand<S: AdapterSession>(
    session: &mut S,
    desired: KeySet,
    target: &ConnectionTarget,
    now: u64,
    r: Result<Connection, RuntimeError>,
)
    requires
        call_ensures(Connection::open::<S>, (session, desired, target, now), r),
    ensures
        match (
            r,
            connection::opened(
                target.subscription_ack_timeout_ms,
                target.stale_after_ms,
                desired@,
                connection::commands_of(old(session), SubscriptionAction::Subscribe, desired@),
                now,
            ),
        ) {
            (Ok(made), Ok(wanted)) => made@ == wanted,
            (Err(error), Err(wanted)) => error@ == wanted,
            _ => false,
        },
        connection::changes(old(session), SubscriptionAction::Subscribe, desired@, final(session)),
{
}

/// A parsed frame is taken as what it says.
pub proof fn law_frames_are_taken(
    connection: &mut Connection,
    result: Result<ParsedFrame, AdapterError>,
    now: u64,
    r: Result<TextStep, RuntimeError>,
)
    requires
        call_ensures(Connection::take_frame, (connection, result, now), r),
    ensures
        final(connection)@ == connection::frame_taken(
            old(connection)@,
            providers::frame_result(result),
            now,
        ).0,
        takes(
            r,
            connection::frame_taken(old(connection)@, providers::frame_result(result), now).1,
        ),
{
}

/// The first command that waits is sent next, and nothing where none waits.
pub proof fn law_commands_are_sent_in_turn(connection: &mut Connection, text: Option<String>)
    requires
        call_ensures(Connection::next_command, (connection,), text),
    ensures
        text is Some <==> old(connection)@.commands.queued.len() > 0,
        text matches Some(words) ==> words@ == old(connection)@.commands.queued[0].text,
        final(connection)@ == connection::sending(old(connection)@),
{
}

/// What follows a command that was sent is what the rules for commands say.
pub proof fn law_sent_commands_are_noted(
    connection: &mut Connection,
    now: u64,
    r: Result<SentStep, RuntimeError>,
)
    requires
        call_ensures(Connection::command_sent, (connection, now), r),
    ensures
        final(connection)@ == connection::command_done(old(connection)@, now).0,
        match (r, connection::command_done(old(connection)@, now).1) {
            (Ok(step), Ok(wanted)) => step == wanted,
            (Err(error), Err(wanted)) => error@ == wanted,
            _ => false,
        },
{
}

/// A connection on which nothing came for longer than it may is stale, and one whose commands are not
/// acknowledged in time is overdue.
pub proof fn law_connections_run_out_of_time(
    connection: &Connection,
    now: u64,
    r: Result<(), RuntimeError>,
)
    ensures
        call_ensures(Connection::check_fresh, (connection, now), r) ==> match r {
            Ok(_) => !connection::is_stale(connection@, now),
            Err(error) => connection::is_stale(connection@, now) && error@
                == RuntimeErrorView::Stale(connection@.stale_after_ms),
        },
        call_ensures(Connection::check_acknowledged, (connection, now), r) ==> match r {
            Ok(_) => !connection::is_overdue(connection@, now),
            Err(error) => connection::is_overdue(connection@, now) && error@
                == RuntimeErrorView::SubscriptionAcknowledgementTimeout(
                connection@.acknowledgement_timeout_ms,
            ),
        },
{
}

/// The command that waits longest is taken out, and the others keep their turn.
pub proof fn law_commands_leave_in_turn(state: &mut CommandState, command: Option<OutboundCommand>)
    requires
        call_ensures(CommandState::pop_front, (state,), command),
    ensures
        command is Some <==> old(state)@.queued.len() > 0,
        command matches Some(first) ==> first@ == old(state)@.queued[0] && final(state)@.queued
            == old(state)@.queued.skip(1),
        final(state)@.pending == old(state)@.pending,
        final(state)@.known == old(state)@.known,
{
}

/// A command that is sent waits for as many acknowledgements as it expects, and no other waits for more or
/// less.
pub proof fn law_sent_commands_wait(
    state: &mut CommandState,
    id: String,
    count: usize,
    r: Result<(), RuntimeError>,
    other: Seq<char>,
)
    requires
        call_ensures(CommandState::mark_sent, (state, id, count), r),
    ensures
        r is Ok <==> !old(state)@.pending.contains_key(id@),
        r is Ok && count > 0 ==> final(state)@.pending.contains_key(id@)
            && final(state)@.pending[id@] == count,
        other != id@ ==> (final(state)@.pending.contains_key(other) <==> old(
            state,
        )@.pending.contains_key(other)) && final(state)@.pending[other] == old(
            state,
        )@.pending[other],
{
}

/// An acknowledgement is one less to wait for; the last one ends the wait. One that nobody waits for is
/// refused.
pub proof fn law_acknowledgements_are_counted(
    state: &mut CommandState,
    id: &str,
    r: Result<(), RuntimeError>,
    other: Seq<char>,
)
    requires
        call_ensures(CommandState::acknowledge, (state, id), r),
    ensures
        r is Ok <==> old(state)@.pending.contains_key(id@),
        r is Err ==> final(state)@ == old(state)@,
        r is Ok && old(state)@.pending[id@] == 1 ==> !final(state)@.pending.contains_key(id@),
        r is Ok && old(state)@.pending[id@] > 1 ==> final(state)@.pending.contains_key(id@)
            && final(state)@.pending[id@] == old(state)@.pending[id@] - 1,
        other != id@ ==> (final(state)@.pending.contains_key(other) <==> old(
            state,
        )@.pending.contains_key(other)) && final(state)@.pending[other] == old(
            state,
        )@.pending[other],
{
}

/// Commands are queued as the rules for commands say.
pub proof fn law_commands_are_queued(
    state: &mut CommandState,
    commands: Vec<OutboundCommand>,
    r: Result<(), RuntimeError>,
)
    requires
        call_ensures(CommandState::enqueue, (state, commands), r),
    ensures
        final(state)@ == runtime::enqueued(old(state)@, providers::command_views(commands@)).0,
        r is Ok <==> runtime::enqueued(old(state)@, providers::command_views(commands@)).1 is None,
{
}

} // verus!
