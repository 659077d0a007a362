//! Reasons for which a loop ends, and what is recorded of them.
use crate::config::hooks::HookPhaseEvent;
use vstd::prelude::*;

verus! {

/// Why a loop ends.
#[derive(Debug, Clone, Copy, PartialEq, Eq, Structural)]
pub enum TerminationReason {
    CompletionPromise,
    MaxIterations,
    MaxRuntime,
    MaxCost,
    ConsecutiveFailures,
    LoopThrashing,
    LoopStale,
    ValidationFailure,
    Stopped,
    Interrupted,
    RestartRequested,
    WorkspaceGone,
    Cancelled,
}

/// The phase-events before and after the end of a loop.
pub open spec fn termination_phases(success: bool) -> (HookPhaseEvent, HookPhaseEvent) {
    if success {
        (HookPhaseEvent::PreLoopComplete, HookPhaseEvent::PostLoopComplete)
    } else {
        (HookPhaseEvent::PreLoopError, HookPhaseEvent::PostLoopError)
    }
}

/// The phase-events before and after the end of a loop. `success` tells whether the reason counts
/// as a success.
pub fn loop_termination_phase_events(success: bool) -> (r: (HookPhaseEvent, HookPhaseEvent))
    ensures
        r == termination_phases(success),
{
    if success {
        (HookPhaseEvent::PreLoopComplete, HookPhaseEvent::PostLoopComplete)
    } else {
        (HookPhaseEvent::PreLoopError, HookPhaseEvent::PostLoopError)
    }
}

/// The name of a reason in the history of loops.
pub open spec fn reason_label(reason: TerminationReason) -> Seq<char> {
    match reason {
        TerminationReason::CompletionPromise => "completion_promise"@,
        TerminationReason::MaxIterations => "max_iterations"@,
        TerminationReason::MaxRuntime => "max_runtime"@,
        TerminationReason::MaxCost => "max_cost"@,
        TerminationReason::ConsecutiveFailures => "consecutive_failures"@,
        TerminationReason::LoopThrashing => "loop_thrashing"@,
        TerminationReason::LoopStale => "loop_stale"@,
        TerminationReason::ValidationFailure => "validation_failure"@,
        TerminationReason::Stopped => "stopped"@,
        TerminationReason::Interrupted => "interrupted"@,
        TerminationReason::RestartRequested => "restart_requested"@,
        TerminationReason::WorkspaceGone => "workspace_gone"@,
        TerminationReason::Cancelled => "cancelled"@,
    }
}

/// An entry for the history of loops.
#[derive(Debug)]
pub enum HistoryEntry {
    /// The loop was ended by a signal.
    Terminated { signal: &'static str },
    /// The loop came to an end of its own.
    Completed { reason: &'static str },
}

/// Makes the entry for the history of loops: an interrupt is recorded as a termination by signal,
/// every other reason as a completion under its name.
pub fn history_entry(reason: TerminationReason) -> (r: HistoryEntry)
    ensures
        match r {
            HistoryEntry::Terminated { signal } => reason == TerminationReason::Interrupted
                && signal@ == "SIGTERM"@,
            HistoryEntry::Completed { reason: label } => reason != TerminationReason::Interrupted
                && label@ == reason_label(reason),
        },
{
    match reason {
        TerminationReason::Interrupted => HistoryEntry::Terminated { signal: "SIGTERM" },
        TerminationReason::CompletionPromise => HistoryEntry::Completed {
            reason: "completion_promise",
        },
        TerminationReason::MaxIterations => HistoryEntry::Completed { reason: "max_iterations" },
        TerminationReason::MaxRuntime => HistoryEntry::Completed { reason: "max_runtime" },
        TerminationReason::MaxCost => HistoryEntry::Completed { reason: "max_cost" },
        TerminationReason::ConsecutiveFailures => HistoryEntry::Completed {
            reason: "consecutive_failures",
        },
        TerminationReason::LoopThrashing => HistoryEntry::Completed { reason: "loop_thrashing" },
        TerminationReason::LoopStale => HistoryEntry::Completed { reason: "loop_stale" },
        TerminationReason::ValidationFailure => HistoryEntry::Completed {
            reason: "validation_failure",
        },
        TerminationReason::Stopped => HistoryEntry::Completed { reason: "stopped" },
        TerminationReason::RestartRequested => HistoryEntry::Completed {
            reason: "restart_requested",
        },
        TerminationReason::WorkspaceGone => HistoryEntry::Completed { reason: "workspace_gone" },
        TerminationReason::Cancelled => HistoryEntry::Completed { reason: "cancelled" },
    }
}

/// What is said of an unmerged loop that a human has to look at; nothing for a completed loop.
pub open spec fn review_text(reason: TerminationReason) -> Option<Seq<char>> {
    match reason {
        TerminationReason::CompletionPromise => None,
        TerminationReason::MaxIterations => Some("max iterations reached"@),
        TerminationReason::MaxRuntime => Some("max runtime exceeded"@),
        TerminationReason::MaxCost => Some("max cost exceeded"@),
        TerminationReason::ConsecutiveFailures => Some("consecutive failures"@),
        TerminationReason::LoopThrashing => Some("loop thrashing detected"@),
        TerminationReason::LoopStale => Some("stale loop detected"@),
        TerminationReason::ValidationFailure => Some("validation failure"@),
        TerminationReason::Stopped => Some("manually stopped"@),
        TerminationReason::Interrupted => Some("interrupted by signal"@),
        TerminationReason::RestartRequested => Some("restart requested"@),
        TerminationReason::WorkspaceGone => Some("workspace directory removed"@),
        TerminationReason::Cancelled => Some("cancelled by human"@),
    }
}

fn review_reason(reason: TerminationReason) -> (r: Option<&'static str>)
    ensures
        match r {
            Some(text) => review_text(reason) == Some(text@),
            None => review_text(reason) is None,
        },
{
    match reason {
        TerminationReason::CompletionPromise => None,
        TerminationReason::MaxIterations => Some("max iterations reached"),
        TerminationReason::MaxRuntime => Some("max runtime exceeded"),
        TerminationReason::MaxCost => Some("max cost exceeded"),
        TerminationReason::ConsecutiveFailures => Some("consecutive failures"),
        TerminationReason::LoopThrashing => Some("loop thrashing detected"),
        TerminationReason::LoopStale => Some("stale loop detected"),
        TerminationReason::ValidationFailure => Some("validation failure"),
        TerminationReason::Stopped => Some("manually stopped"),
        TerminationReason::Interrupted => Some("interrupted by signal"),
        TerminationReason::RestartRequested => Some("restart requested"),
        TerminationReason::WorkspaceGone => Some("workspace directory removed"),
        TerminationReason::Cancelled => Some("cancelled by human"),
    }
}

/// What becomes of the entry of a merge loop in the merge queue.
#[derive(Debug)]
pub enum MergeEntry {
    /// The merge is done, with this commit.
    Merged { commit: String },
    /// A human has to look at the merge.
    NeedsReview { reason: String },
}

/// Decides what becomes of the entry of a merge loop: a completed merge whose commit is known is
/// merged, everything else needs a review.
pub fn merge_entry(reason: TerminationReason, commit: Option<String>) -> (r: MergeEntry)
    ensures
        match r {
            MergeEntry::Merged { commit: sha } => reason == TerminationReason::CompletionPromise
                && commit == Some(sha),
            MergeEntry::NeedsReview { reason: text } => if reason
                == TerminationReason::CompletionPromise {
                commit is None && text@ == "merge complete but commit not found"@
            } else {
                review_text(reason) == Some(text@)
            },
        },
{
    match review_reason(reason) {
        Some(text) => MergeEntry::NeedsReview { reason: text.to_owned() },
        None => match commit {
            Some(sha) => MergeEntry::Merged { commit: sha },
            None => MergeEntry::NeedsReview {
                reason: "merge complete but commit not found".to_owned(),
            },
        },
    }
}

/// A reason as remote callers are told.
#[derive(Debug, Clone, Copy, PartialEq, Eq, Structural)]
pub enum RpcReason {
    Completed,
    MaxIterations,
    Interrupted,
    Error,
}

/// A reason as remote callers are told it.
pub open spec fn told_reason(reason: TerminationReason) -> RpcReason {
    match reason {
        TerminationReason::CompletionPromise => RpcReason::Completed,
        TerminationReason::MaxIterations => RpcReason::MaxIterations,
        TerminationReason::Interrupted => RpcReason::Interrupted,
        TerminationReason::Stopped => RpcReason::Interrupted,
        _ => RpcReason::Error,
    }
}

/// The reason as remote callers are told.
pub fn rpc_reason(reason: TerminationReason) -> (r: RpcReason)
    ensures
        r == (if reason == TerminationReason::CompletionPromise {
            RpcReason::Completed
        } else if reason == TerminationReason::MaxIterations {
            RpcReason::MaxIterations
        } else if reason == TerminationReason::Interrupted || reason == TerminationReason::Stopped {
            RpcReason::Interrupted
        } else {
            RpcReason::Error
        }),
        r == told_reason(reason),
{
    match reason {
        TerminationReason::CompletionPromise => RpcReason::Completed,
        TerminationReason::MaxIterations => RpcReason::MaxIterations,
        TerminationReason::Interrupted => RpcReason::Interrupted,
        TerminationReason::Stopped => RpcReason::Interrupted,
        _ => RpcReason::Error,
    }
}

/// What is done when a loop has ended.
#[derive(Debug, Clone, Copy, PartialEq, Eq, Structural)]
pub struct Closing {
    /// Land the work, and queue a worktree loop for its merge.
    pub complete: bool,
    /// Work off the merge queue.
    pub process_merges: bool,
    /// Take the loop out of the registry.
    pub deregister: bool,
    /// Tell on the console why the loop ended.
    pub print: bool,
}

/// What is done when a loop has ended.
pub open spec fn done_at_end(
    reason: TerminationReason,
    primary: Option<bool>,
    merge_loop: bool,
    tui: bool,
    rpc: bool,
) -> Closing {
    let completed = reason == TerminationReason::CompletionPromise;
    Closing {
        complete: primary is Some && !merge_loop && completed,
        process_merges: primary == Some(true) && completed,
        deregister: primary is Some,
        print: !tui && !rpc,
    }
}

/// Decides what is done when a loop has ended. Without a context there is nothing to land and no
/// registry; a merge loop never queues itself; the merge queue is worked off by a completed primary
/// loop; the console is silent where a terminal interface or a remote caller looks on.
pub fn closing(
    reason: TerminationReason,
    primary: Option<bool>,
    merge_loop: bool,
    tui: bool,
    rpc: bool,
) -> (r: Closing)
    ensures
        r.complete == (primary is Some && !merge_loop && reason
            == TerminationReason::CompletionPromise),
        r.process_merges == (primary == Some(true) && reason
            == TerminationReason::CompletionPromise),
        r.deregister == primary is Some,
        r.print == (!tui && !rpc),
        r == done_at_end(reason, primary, merge_loop, tui, rpc),
{
    let completed = match reason {
        TerminationReason::CompletionPromise => true,
        _ => false,
    };
    let (known, is_primary) = match primary {
        Some(is_primary) => (true, is_primary),
        None => (false, false),
    };
    Closing {
        complete: known && !merge_loop && completed,
        process_merges: known && is_primary && completed,
        deregister: known,
        print: !tui && !rpc,
    }
}

} // verus!
