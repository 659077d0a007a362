//! What holds of the end of sessions and loops, and of what is told of it.
use crate::cli::types::Verbosity;
use crate::config::hooks::HookPhaseEvent;
use crate::loop_runner::execution::{
    executor_of, mode_of, session_reason, session_stream, Executor, OutputStream, TerminationType,
};
use crate::loop_runner::late_events::{
    polled, LateEventRecovery, LatePoll, LateReport, LateStep,
};
use crate::loop_runner::termination::{
    done_at_end, reason_label, review_text, termination_phases, told_reason, RpcReason,
    TerminationReason,
};
use vstd::prelude::*;

verus! {

// ---- late events ----

/// Late events are polled for in rounds: they are read, and then a cancellation, a completion and pending
/// work are looked for in this order. Any of them ends the polling at once.
pub proof fn law_late_events_are_polled_in_rounds(
    poll: LatePoll,
    observed: bool,
    reason: TerminationReason,
)
    ensures
        poll.step == LateStep::Read ==> polled(poll, LateReport::Read { observed }) == (LatePoll {
            observed,
            step: LateStep::Cancellation,
            ..poll
        }),
        poll.step == LateStep::Cancellation || poll.step == LateStep::Completion ==> polled(
            poll,
            LateReport::Reason(Some(reason)),
        ) == (LatePoll { step: LateStep::Ended(LateEventRecovery::Terminate(reason)), ..poll }),
        poll.step == LateStep::Cancellation ==> polled(poll, LateReport::Reason(None)) == (LatePoll {
            step: LateStep::Completion,
            ..poll
        }),
        poll.step == LateStep::Completion ==> polled(poll, LateReport::Reason(None)) == (LatePoll {
            step: LateStep::Pending,
            ..poll
        }),
        poll.step == LateStep::Pending ==> polled(poll, LateReport::Pending(true)) == (LatePoll {
            step: LateStep::Ended(LateEventRecovery::PendingWork),
            ..poll
        }),
        poll.step == LateStep::Pending && poll.observed ==> polled(
            poll,
            LateReport::Pending(false),
        ) == (LatePoll { step: LateStep::Ended(LateEventRecovery::NoLateEvents), ..poll }),
        poll.step == LateStep::Pending && !poll.observed && poll.attempt < poll.max_polls
            ==> polled(poll, LateReport::Pending(false)) == (LatePoll {
            step: LateStep::Sleep { millis: poll.interval_millis },
            ..poll
        }),
        poll.step == LateStep::Pending && !poll.observed && poll.attempt == poll.max_polls
            ==> polled(poll, LateReport::Pending(false)) == (LatePoll {
            step: LateStep::Ended(LateEventRecovery::NoLateEvents),
            ..poll
        }),
        poll.step is Sleep && poll.attempt < u32::MAX ==> polled(poll, LateReport::Slept)
            == (LatePoll { attempt: (poll.attempt + 1) as u32, step: LateStep::Read, ..poll }),
{
}

/// A polling that is over stays over, and its limits never change.
pub proof fn law_polling_keeps_its_limits(poll: LatePoll, report: LateReport)
    ensures
        poll.step is Ended ==> polled(poll, report) == poll,
        polled(poll, report).max_polls == poll.max_polls,
        polled(poll, report).interval_millis == poll.interval_millis,
{
}

// ---- reasons ----

/// The hooks around the end of a loop go by its success.
pub proof fn law_ends_have_hooks_of_their_own()
    ensures
        termination_phases(true).0 == HookPhaseEvent::PreLoopComplete,
        termination_phases(true).1 == HookPhaseEvent::PostLoopComplete,
        termination_phases(false).0 == HookPhaseEvent::PreLoopError,
        termination_phases(false).1 == HookPhaseEvent::PostLoopError,
{
}

/// Every reason is known by its label, and no two reasons share one.
pub proof fn law_reasons_are_known_by_their_labels(a: TerminationReason, b: TerminationReason)
    requires
        a != b,
    ensures
        reason_label(a) != reason_label(b),
        reason_label(TerminationReason::CompletionPromise) == "completion_promise"@,
        reason_label(TerminationReason::MaxIterations) == "max_iterations"@,
        reason_label(TerminationReason::MaxRuntime) == "max_runtime"@,
        reason_label(TerminationReason::MaxCost) == "max_cost"@,
        reason_label(TerminationReason::ConsecutiveFailures) == "consecutive_failures"@,
        reason_label(TerminationReason::LoopThrashing) == "loop_thrashing"@,
        reason_label(TerminationReason::LoopStale) == "loop_stale"@,
        reason_label(TerminationReason::ValidationFailure) == "validation_failure"@,
        reason_label(TerminationReason::Stopped) == "stopped"@,
        reason_label(TerminationReason::Interrupted) == "interrupted"@,
        reason_label(TerminationReason::RestartRequested) == "restart_requested"@,
        reason_label(TerminationReason::WorkspaceGone) == "workspace_gone"@,
        reason_label(TerminationReason::Cancelled) == "cancelled"@,
{
    reveal_strlit("completion_promise");
    reveal_strlit("max_iterations");
    reveal_strlit("max_runtime");
    reveal_strlit("max_cost");
    reveal_strlit("consecutive_failures");
    reveal_strlit("loop_thrashing");
    reveal_strlit("loop_stale");
    reveal_strlit("validation_failure");
    reveal_strlit("stopped");
    reveal_strlit("interrupted");
    reveal_strlit("restart_requested");
    reveal_strlit("workspace_gone");
    reveal_strlit("cancelled");
    assert("completion_promise"@.len() == 18 && "validation_failure"@.len() == 18);
    assert("completion_promise"@[0] == 'c' && "validation_failure"@[0] == 'v');
    assert("max_iterations"@.len() == 14 && "loop_thrashing"@.len() == 14 && "workspace_gone"@.len()
        == 14);
    assert("max_iterations"@[0] == 'm' && "loop_thrashing"@[0] == 'l' && "workspace_gone"@[0]
        == 'w');
    assert("max_runtime"@.len() == 11 && "interrupted"@.len() == 11);
    assert("max_runtime"@[0] == 'm' && "interrupted"@[0] == 'i');
    assert("max_cost"@.len() == 8);
    assert("consecutive_failures"@.len() == 20);
    assert("loop_stale"@.len() == 10);
    assert("stopped"@.len() == 7);
    assert("restart_requested"@.len() == 17);
    assert("cancelled"@.len() == 9);
}

/// A merge that ended for any reason but its completion needs a look, and is told why.
pub proof fn law_merges_need_a_look_unless_complete(reason: TerminationReason)
    ensures
        review_text(reason) is None <==> reason == TerminationReason::CompletionPromise,
        review_text(TerminationReason::MaxIterations) == Some("max iterations reached"@),
        review_text(TerminationReason::MaxRuntime) == Some("max runtime exceeded"@),
        review_text(TerminationReason::MaxCost) == Some("max cost exceeded"@),
        review_text(TerminationReason::ConsecutiveFailures) == Some("consecutive failures"@),
        review_text(TerminationReason::LoopThrashing) == Some("loop thrashing detected"@),
        review_text(TerminationReason::LoopStale) == Some("stale loop detected"@),
        review_text(TerminationReason::ValidationFailure) == Some("validation failure"@),
        review_text(TerminationReason::Stopped) == Some("manually stopped"@),
        review_text(TerminationReason::Interrupted) == Some("interrupted by signal"@),
        review_text(TerminationReason::RestartRequested) == Some("restart requested"@),
        review_text(TerminationReason::WorkspaceGone) == Some("workspace directory removed"@),
        review_text(TerminationReason::Cancelled) == Some("cancelled by human"@),
{
}

/// Remote callers are told of a completion only where the promise was kept, of a limit only where the
/// iterations ran out, of an interrupt where someone ended the loop, and of an error otherwise.
pub proof fn law_callers_are_told_the_reason(reason: TerminationReason)
    ensures
        told_reason(reason) == RpcReason::Completed <==> reason
            == TerminationReason::CompletionPromise,
        told_reason(reason) == RpcReason::MaxIterations <==> reason
            == TerminationReason::MaxIterations,
        told_reason(reason) == RpcReason::Interrupted <==> reason == TerminationReason::Interrupted
            || reason == TerminationReason::Stopped,
{
}

/// Only a completed loop lands its work, a merge loop never does, and only a completed primary loop works
/// off the merge queue. A loop that was registered is always taken off, and the console is silent where
/// someone else looks on.
pub proof fn law_only_completed_loops_land(
    reason: TerminationReason,
    primary: Option<bool>,
    merge_loop: bool,
    tui: bool,
    rpc: bool,
)
    ensures
        ({
            let done = done_at_end(reason, primary, merge_loop, tui, rpc);
            let completed = reason == TerminationReason::CompletionPromise;
            &&& done.complete ==> completed && primary is Some && !merge_loop
            &&& completed && primary is Some && !merge_loop ==> done.complete
            &&& done.process_merges <==> completed && primary is Some && primary->0
            &&& done.deregister <==> primary is Some
            &&& tui || rpc ==> !done.print
            &&& !tui && !rpc ==> done.print
        }),
{
}

// ---- sessions ----

/// A session that ends of itself leaves the loop running, and so does an idle one where someone sits
/// before it. An idle one that runs alone stops the loop, and a session that is broken off interrupts it.
pub proof fn law_sessions_end_loops_where_they_must(interactive: bool)
    ensures
        session_reason(TerminationType::Natural, interactive) is None,
        session_reason(TerminationType::IdleTimeout, true) is None,
        session_reason(TerminationType::IdleTimeout, false) == Some(TerminationReason::Stopped),
        session_reason(TerminationType::UserInterrupt, interactive) == Some(
            TerminationReason::Interrupted,
        ),
        session_reason(TerminationType::ForceKill, interactive) == Some(
            TerminationReason::Interrupted,
        ),
{
}

/// A session is interactive only where the mode asks for it, someone sits before it and no terminal
/// interface is there. An idle timeout counts there alone. The terminal interface needs both terminals,
/// and gives way to a remote caller.
pub proof fn law_sessions_are_interactive_before_someone(
    mode: Seq<char>,
    tui: bool,
    rpc: bool,
    stdin: bool,
    stdout: bool,
    idle: u32,
)
    ensures
        ({
            let made = mode_of(mode, tui, rpc, stdin, stdout, idle);
            &&& made.interactive <==> mode == "interactive"@ && stdout && !tui
            &&& made.interactive ==> made.pty && made.idle_timeout_secs == idle && !made.wide
                && !made.tui
            &&& !made.interactive ==> made.idle_timeout_secs == 0 && made.wide
            &&& tui || rpc ==> made.pty
            &&& !tui && !rpc && !made.interactive ==> !made.pty
            &&& made.tui <==> tui && !rpc && stdin && stdout
        }),
{
}

/// A prompt goes to the agent protocol wherever a backend speaks it, else to a pseudo-terminal where one
/// is used.
pub proof fn law_backends_choose_their_executor(pty: bool)
    ensures
        executor_of(true, pty) == Executor::Acp,
        executor_of(false, true) == Executor::Pty,
        executor_of(false, false) == Executor::Cli,
{
}

/// The output of a session goes where someone looks: the terminal interface before a remote caller, both
/// before the terminal itself. What is left goes to the console, unless that is quiet.
pub proof fn law_output_goes_where_someone_looks(
    raw: bool,
    rpc: bool,
    verbosity: Verbosity,
    pretty: bool,
)
    ensures
        session_stream(raw, true, rpc, verbosity, pretty) == (OutputStream::Tui {
            verbose: verbosity == Verbosity::Verbose,
        }),
        session_stream(raw, false, true, verbosity, pretty) == OutputStream::Rpc,
        session_stream(true, false, false, verbosity, pretty) == OutputStream::Raw,
        session_stream(false, false, false, Verbosity::Quiet, pretty) == OutputStream::Quiet,
        verbosity != Verbosity::Quiet ==> session_stream(false, false, false, verbosity, true) == (
        OutputStream::Pretty { verbose: verbosity == Verbosity::Verbose }),
        verbosity != Verbosity::Quiet ==> session_stream(false, false, false, verbosity, false) == (
        OutputStream::Console { verbose: verbosity == Verbosity::Verbose }),
{
}

} // verus!
