//! When an endpoint connects again, and after how long.
use vstd::prelude::*;

use crate::runtime;
use crate::runtime::{RuntimeError, RuntimeErrorView};

verus! {

/// How a connection ended without a failure.
#[derive(Debug, Clone, Copy, PartialEq, Eq, Structural)]
pub enum ConnectionExit {
    Idle,
    Rotate,
}

/// The waits between the connections of one endpoint.
#[derive(Debug, Clone, Copy, PartialEq, Eq, Structural)]
pub struct Backoff {
    pub current_ms: u64,
    pub min_ms: u64,
    pub max_ms: u64,
    pub stable_ms: u128,
}

/// What an endpoint does after a connection.
#[derive(Debug)]
pub enum NextStep {
    /// Nothing more.
    Stop,
    /// Wait for demand.
    WaitForDemand,
    /// Wait for a random time up to a longest one, then connect again.
    Reconnect { longest_wait_ms: u64, error: String },
}

/// The mathematical value of a [`NextStep`].
pub enum NextStepView {
    Stop,
    WaitForDemand,
    Reconnect { longest_wait_ms: u64, error: Seq<char> },
}

impl View for NextStep {
    type V = NextStepView;

    open spec fn view(&self) -> NextStepView {
        match self {
            NextStep::Stop => NextStepView::Stop,
            NextStep::WaitForDemand => NextStepView::WaitForDemand,
            NextStep::Reconnect { longest_wait_ms, error } => NextStepView::Reconnect {
                longest_wait_ms: *longest_wait_ms,
                error: error@,
            },
        }
    }
}

/// The value of the result of a connection.
pub open spec fn exit_view(result: Result<ConnectionExit, RuntimeError>) -> Result<
    ConnectionExit,
    RuntimeErrorView,
> {
    match result {
        Ok(exit) => Ok(exit),
        Err(error) => Err(error@),
    }
}

/// The words for the end of a connection.
pub open spec fn exit_words(result: Result<ConnectionExit, RuntimeErrorView>) -> Seq<char> {
    match result {
        Ok(_) => "planned connection rotation"@,
        Err(error) => runtime::runtime_message(error),
    }
}

/// The waits and the next step after a connection that lasted some time.
pub open spec fn after_connection(
    backoff: Backoff,
    result: Result<ConnectionExit, RuntimeErrorView>,
    lasted_ms: u128,
    shutting_down: bool,
) -> (Backoff, NextStepView) {
    let reset = Backoff { current_ms: backoff.min_ms, ..backoff };
    if shutting_down {
        (backoff, NextStepView::Stop)
    } else if result == Ok::<ConnectionExit, RuntimeErrorView>(ConnectionExit::Idle) {
        (reset, NextStepView::WaitForDemand)
    } else {
        let kept = if lasted_ms >= backoff.stable_ms {
            reset
        } else {
            backoff
        };
        (
            kept,
            NextStepView::Reconnect {
                longest_wait_ms: kept.current_ms,
                error: exit_words(result),
            },
        )
    }
}

/// The waits after a wait: twice as long, up to the longest one.
pub open spec fn after_wait(backoff: Backoff) -> Backoff {
    Backoff {
        current_ms: if backoff.current_ms * 2 <= backoff.max_ms {
            (backoff.current_ms * 2) as u64
        } else {
            backoff.max_ms
        },
        ..backoff
    }
}

/// Whether the waits are between the shortest and the longest one.
pub open spec fn is_bounded(backoff: Backoff) -> bool {
    backoff.min_ms <= backoff.current_ms <= backoff.max_ms
}

/// The waits after some connections that failed one after the other, none of which was stable.
pub open spec fn after_failures(backoff: Backoff, count: nat) -> Backoff
    decreases count,
{
    if count == 0 {
        backoff
    } else {
        after_wait(after_failures(backoff, (count - 1) as nat))
    }
}

/// No wait is shorter than the shortest or longer than the longest one, however often and however
/// the connections of an endpoint end.
pub proof fn law_waits_are_bounded(
    backoff: Backoff,
    result: Result<ConnectionExit, RuntimeErrorView>,
    lasted_ms: u128,
    shutting_down: bool,
)
    requires
        is_bounded(backoff),
    ensures
        is_bounded(after_connection(backoff, result, lasted_ms, shutting_down).0),
        is_bounded(after_wait(backoff)),
        match after_connection(backoff, result, lasted_ms, shutting_down).1 {
            NextStepView::Reconnect { longest_wait_ms, .. } => backoff.min_ms <= longest_wait_ms
                <= backoff.max_ms,
            _ => true,
        },
{
}

/// A connection that was stable brings the wait back to the shortest one.
pub proof fn law_stable_connections_reset_the_wait(
    backoff: Backoff,
    result: Result<ConnectionExit, RuntimeErrorView>,
    lasted_ms: u128,
)
    requires
        lasted_ms >= backoff.stable_ms,
    ensures
        after_connection(backoff, result, lasted_ms, false).0.current_ms == backoff.min_ms,
{
}

/// Waits never shrink from one failure to the next, and they grow until they are the longest.
pub proof fn law_failures_lengthen_the_wait(backoff: Backoff, count: nat)
    requires
        is_bounded(backoff),
        backoff.min_ms > 0,
    ensures
        is_bounded(after_failures(backoff, count)),
        after_failures(backoff, count).current_ms <= after_failures(
            backoff,
            count + 1,
        ).current_ms,
        after_failures(backoff, count).current_ms < backoff.max_ms ==> after_failures(
            backoff,
            count,
        ).current_ms < after_failures(backoff, count + 1).current_ms,
        after_failures(backoff, count).min_ms == backoff.min_ms,
        after_failures(backoff, count).max_ms == backoff.max_ms,
    decreases count,
{
    if count > 0 {
        law_failures_lengthen_the_wait(backoff, (count - 1) as nat);
    }
}

impl Backoff {
    /// The waits of an endpoint that has not connected yet.
    pub fn new(min_ms: u64, max_ms: u64, stable_ms: u128) -> (backoff: Self)
        ensures
            backoff == (Backoff { current_ms: min_ms, min_ms, max_ms, stable_ms }),
    {
        Backoff { current_ms: min_ms, min_ms, max_ms, stable_ms }
    }

    /// Decide what comes after a connection that lasted some time.
    pub fn connection_ended(
        &mut self,
        result: Result<ConnectionExit, RuntimeError>,
        lasted_ms: u128,
        shutting_down: bool,
    ) -> (step: NextStep)
        ensures
            (*final(self), step@) == after_connection(
                *old(self),
                exit_view(result),
                lasted_ms,
                shutting_down,
            ),
    {
        if shutting_down {
            return NextStep::Stop;
        }
        let error = match result {
            Ok(ConnectionExit::Idle) => {
                self.current_ms = self.min_ms;
                return NextStep::WaitForDemand;
            },
            Ok(ConnectionExit::Rotate) => "planned connection rotation".to_owned(),
            Err(error) => error.message(),
        };
        if lasted_ms >= self.stable_ms {
            self.current_ms = self.min_ms;
        }
        NextStep::Reconnect { longest_wait_ms: self.current_ms, error }
    }

    /// Lengthen the wait after one.
    pub fn waited(&mut self)
        ensures
            *final(self) == after_wait(*old(self)),
    {
        self.current_ms = match self.current_ms.checked_mul(2) {
            Some(doubled) => if doubled <= self.max_ms {
                doubled
            } else {
                self.max_ms
            },
            None => self.max_ms,
        };
    }
}

} // verus!
