//! Bounded polling for events that arrive late.
//!
//! After an iteration the events of the agent may not be readable yet. Reading them is tried a
//! bounded number of times, so that the loop does not fall back to default behavior when a
//! cancellation or completion event is about to land.
use crate::loop_runner::termination::TerminationReason;
use crate::text::{contains, occurs};
use vstd::prelude::*;

verus! {

/// Polls after the first one before a fallback event is injected.
pub const LATE_EVENT_RECOVERY_MAX_POLLS: u32 = 5;

/// Milliseconds between two of these polls.
pub const LATE_EVENT_RECOVERY_POLL_INTERVAL_MS: u64 = 50;

/// Polls after the first one where the output mentions an emitted event.
pub const EMIT_RECOVERY_MAX_POLLS: u32 = 20;

/// Milliseconds between two of these polls.
pub const EMIT_RECOVERY_POLL_INTERVAL_MS: u64 = 250;

/// What came of polling.
#[derive(Debug, Clone, Copy, PartialEq, Eq, Structural)]
pub enum LateEventRecovery {
    NoLateEvents,
    PendingWork,
    Terminate(TerminationReason),
}

/// What is to be done next while polling.
#[derive(Debug, Clone, Copy, PartialEq, Eq, Structural)]
pub enum LateStep {
    /// Read new events.
    Read,
    /// Look for a cancellation.
    Cancellation,
    /// Look for a completion.
    Completion,
    /// Look for pending events.
    Pending,
    /// Sleep for some milliseconds.
    Sleep { millis: u64 },
    /// Nothing: polling is over.
    Ended(LateEventRecovery),
}

/// What came of a [`LateStep`].
#[derive(Debug, Clone, Copy, PartialEq, Eq, Structural)]
pub enum LateReport {
    /// Events were read, with or without anything among them.
    Read { observed: bool },
    /// The reason to end, where there is one.
    Reason(Option<TerminationReason>),
    /// Whether events are pending.
    Pending(bool),
    Slept,
}

/// A poll for late events.
#[derive(Debug, Clone, Copy, PartialEq, Eq, Structural)]
pub struct LatePoll {
    pub max_polls: u32,
    pub interval_millis: u64,
    /// Polls that are over.
    pub attempt: u32,
    /// Whether this poll brought any events.
    pub observed: bool,
    pub step: LateStep,
}

/// The poll after a report. A cancellation comes before a completion, and both come before pending
/// work; events that lead to neither end the polling, and so does the last poll.
pub open spec fn polled(poll: LatePoll, report: LateReport) -> LatePoll {
    match (poll.step, report) {
        (LateStep::Read, LateReport::Read { observed }) => LatePoll {
            observed,
            step: LateStep::Cancellation,
            ..poll
        },
        (LateStep::Cancellation, LateReport::Reason(reason)) => LatePoll {
            step: match reason {
                Some(reason) => LateStep::Ended(LateEventRecovery::Terminate(reason)),
                None => LateStep::Completion,
            },
            ..poll
        },
        (LateStep::Completion, LateReport::Reason(reason)) => LatePoll {
            step: match reason {
                Some(reason) => LateStep::Ended(LateEventRecovery::Terminate(reason)),
                None => LateStep::Pending,
            },
            ..poll
        },
        (LateStep::Pending, LateReport::Pending(pending)) => LatePoll {
            step: if pending {
                LateStep::Ended(LateEventRecovery::PendingWork)
            } else if poll.observed || poll.attempt == poll.max_polls {
                LateStep::Ended(LateEventRecovery::NoLateEvents)
            } else {
                LateStep::Sleep { millis: poll.interval_millis }
            },
            ..poll
        },
        (LateStep::Sleep { .. }, LateReport::Slept) => LatePoll {
            attempt: (poll.attempt + 1) as u32,
            step: LateStep::Read,
            ..poll
        },
        _ => poll,
    }
}

impl LatePoll {
    /// Whether a poll has come about by its steps.
    pub open spec fn wf(self) -> bool {
        &&& self.attempt <= self.max_polls
        &&& self.step is Sleep ==> self.attempt < self.max_polls
    }

    /// A bound on the number of steps that can still follow.
    pub open spec fn steps_left(self) -> int {
        5 * (self.max_polls - self.attempt) + match self.step {
            LateStep::Read => 5int,
            LateStep::Cancellation => 4,
            LateStep::Completion => 3,
            LateStep::Pending => 2,
            LateStep::Sleep { .. } => 1,
            LateStep::Ended(_) => 0,
        }
    }

    fn new(max_polls: u32, interval_millis: u64) -> (r: LatePoll)
        ensures
            r == (LatePoll {
                max_polls,
                interval_millis,
                attempt: 0,
                observed: false,
                step: LateStep::Read,
            }),
    {
        LatePoll { max_polls, interval_millis, attempt: 0, observed: false, step: LateStep::Read }
    }

    /// Begins the polling before a fallback event is injected.
    pub fn before_fallback() -> (r: LatePoll)
        ensures
            r.wf(),
            r == (LatePoll {
                max_polls: 5,
                interval_millis: 50,
                attempt: 0,
                observed: false,
                step: LateStep::Read,
            }),
    {
        LatePoll::new(LATE_EVENT_RECOVERY_MAX_POLLS, LATE_EVENT_RECOVERY_POLL_INTERVAL_MS)
    }

    /// Begins the polling after an output that mentions an emitted event.
    pub fn after_output() -> (r: LatePoll)
        ensures
            r.wf(),
            r == (LatePoll {
                max_polls: 20,
                interval_millis: 250,
                attempt: 0,
                observed: false,
                step: LateStep::Read,
            }),
    {
        LatePoll::new(EMIT_RECOVERY_MAX_POLLS, EMIT_RECOVERY_POLL_INTERVAL_MS)
    }

    /// Takes in what came of the current step. A report that does not belong to the step changes
    /// nothing.
    pub fn advance(&mut self, report: LateReport)
        requires
            old(self).wf(),
        ensures
            *final(self) == polled(*old(self), report),
            final(self).wf(),
    {
        match (self.step, report) {
            (LateStep::Read, LateReport::Read { observed }) => {
                self.observed = observed;
                self.step = LateStep::Cancellation;
            },
            (LateStep::Cancellation, LateReport::Reason(reason)) => {
                self.step = match reason {
                    Some(reason) => LateStep::Ended(LateEventRecovery::Terminate(reason)),
                    None => LateStep::Completion,
                };
            },
            (LateStep::Completion, LateReport::Reason(reason)) => {
                self.step = match reason {
                    Some(reason) => LateStep::Ended(LateEventRecovery::Terminate(reason)),
                    None => LateStep::Pending,
                };
            },
            (LateStep::Pending, LateReport::Pending(pending)) => {
                self.step = if pending {
                    LateStep::Ended(LateEventRecovery::PendingWork)
                } else if self.observed || self.attempt == self.max_polls {
                    LateStep::Ended(LateEventRecovery::NoLateEvents)
                } else {
                    LateStep::Sleep { millis: self.interval_millis }
                };
            },
            (LateStep::Sleep { .. }, LateReport::Slept) => {
                self.attempt = self.attempt + 1;
                self.step = LateStep::Read;
            },
            _ => {},
        }
    }
}

/// Polling comes to an end whatever is reported: every report that belongs to its step leaves fewer
/// steps, and events are read at most once more than `max_polls` times.
pub proof fn law_polling_ends(poll: LatePoll, report: LateReport)
    requires
        poll.wf(),
        polled(poll, report) != poll,
    ensures
        polled(poll, report).wf(),
        0 <= polled(poll, report).steps_left() < poll.steps_left(),
        polled(poll, report).attempt <= poll.max_polls,
{
}

/// Tells whether an output mentions that an event was emitted.
pub fn output_mentions_ralph_emit(output: &str) -> (r: bool)
    ensures
        r == occurs(output@, "ralph emit"@),
{
    contains(output, "ralph emit")
}

} // verus!
