//! What follows dispatched hooks: a blocking one ends the loop with an error, and a suspending
//! one holds it until a signal comes.
use crate::loop_runner::hooks::{
    outcome_views, HookDispatchOutcome, HookDisposition, OutcomeView, SuspendWaitOutcome,
};
use crate::loop_runner::runner::HookGate;
use crate::loop_runner::suspend::{
    after_look, after_probe, blocking_reason, drops_resume_request, fail_if_blocking_outcomes,
    first_with, left_by, lies, records, requested_suspension, round_from, suspension_reason,
    suspension_termination, AfterProbe, Requests, SignalProbe, SuspendRecord, Waiting,
};
use crate::loop_runner::termination::TerminationReason;
use crate::path::path_below;
use vstd::prelude::*;

verus! {

/// What the outcomes of hooks ask for.
#[derive(Debug)]
pub enum GateRequest {
    /// End with an error.
    Block(String),
    /// Wait for a signal.
    Suspend(SuspendRecord),
    /// Go on.
    Pass,
}

/// How the outcomes of hooks count together: one that blocks comes before one that suspends.
pub open spec fn judged(outcomes: Seq<OutcomeView>) -> HookDisposition {
    if first_with(outcomes, HookDisposition::Block) is Some {
        HookDisposition::Block
    } else if first_with(outcomes, HookDisposition::Suspend) is Some {
        HookDisposition::Suspend
    } else {
        HookDisposition::Pass
    }
}

/// Judges the outcomes of hooks: one that blocks comes before one that suspends.
pub fn judge_outcomes(outcomes: &Vec<HookDispatchOutcome>, loop_id: &str) -> (r: GateRequest)
    ensures
        ({
            let all = outcome_views(outcomes@);
            let blocking = first_with(all, HookDisposition::Block);
            let suspending = first_with(all, HookDisposition::Suspend);
            match r {
                GateRequest::Block(message) => blocking is Some && message@ == blocking_reason(
                    blocking->0,
                ),
                GateRequest::Suspend(record) => blocking is None && suspending is Some && records(
                    record,
                    loop_id@,
                    suspending->0,
                ),
                GateRequest::Pass => blocking is None && suspending is None,
            }
        }),
        judged(outcome_views(outcomes@)) == (match r {
            GateRequest::Block(_) => HookDisposition::Block,
            GateRequest::Suspend(_) => HookDisposition::Suspend,
            GateRequest::Pass => HookDisposition::Pass,
        }),
{
    match fail_if_blocking_outcomes(outcomes) {
        Err(message) => GateRequest::Block(message),
        Ok(_) => match requested_suspension(outcomes, loop_id) {
            Some(record) => GateRequest::Suspend(record),
            None => GateRequest::Pass,
        },
    }
}

/// What is to be done next while a loop is suspended.
#[derive(Debug, Clone, Copy, PartialEq, Eq, Structural)]
pub enum WaitStep {
    /// Write down the suspension.
    Persist,
    /// Look for a signal, and remove the request where
    /// [`takes_signal`](crate::loop_runner::suspend::takes_signal) says so.
    Look(SignalProbe),
    /// Sleep until the next look.
    Sleep,
    /// Remove what was written down.
    Clear(SuspendWaitOutcome),
    /// Drop a resume request that may be there.
    DropResume(SuspendWaitOutcome),
    /// The suspension is over; with a reason, so is the loop.
    Ended(Option<TerminationReason>),
    /// Something could not be written, read or removed.
    Failed,
}

/// What came of a [`WaitStep`].
#[derive(Debug, Clone, Copy, PartialEq, Eq, Structural)]
pub enum WaitReport {
    Done,
    /// Whether the signal was there.
    Found(bool),
    Failed,
}

/// The step behind a suspension that ended by a signal.
pub open spec fn after_clear(outcome: SuspendWaitOutcome) -> WaitStep {
    if outcome == SuspendWaitOutcome::Resume {
        WaitStep::Ended(None)
    } else {
        WaitStep::DropResume(outcome)
    }
}

/// The step that follows a report on a step. A suspension that is over stays over, and a report that
/// does not fit a step changes nothing.
pub open spec fn next_step(step: WaitStep, report: WaitReport) -> WaitStep {
    match step {
        WaitStep::Ended(_) => step,
        WaitStep::Failed => step,
        _ => match report {
            WaitReport::Failed => WaitStep::Failed,
            WaitReport::Found(found) => match step {
                WaitStep::Look(probe) => match after_look(probe, found) {
                    AfterProbe::Ended(outcome) => WaitStep::Clear(outcome),
                    AfterProbe::Look(other) => WaitStep::Look(other),
                    AfterProbe::Sleep => WaitStep::Sleep,
                },
                _ => step,
            },
            WaitReport::Done => match step {
                WaitStep::Persist => WaitStep::Look(SignalProbe::Stop),
                WaitStep::Sleep => WaitStep::Look(SignalProbe::Stop),
                WaitStep::Clear(outcome) => after_clear(outcome),
                WaitStep::DropResume(outcome) => WaitStep::Ended(suspension_reason(outcome)),
                _ => step,
            },
        },
    }
}

/// The step that is reached from a step by reports.
pub open spec fn reached(step: WaitStep, reports: Seq<WaitReport>) -> WaitStep
    decreases reports.len(),
{
    if reports.len() == 0 {
        step
    } else {
        next_step(reached(step, reports.drop_last()), reports.last())
    }
}

/// Decides what follows a report on a step.
pub fn wait_for_resume(step: WaitStep, report: WaitReport) -> (r: WaitStep)
    ensures
        r == next_step(step, report),
{
    match step {
        WaitStep::Ended(_) => step,
        WaitStep::Failed => step,
        _ => match report {
            WaitReport::Failed => WaitStep::Failed,
            WaitReport::Found(found) => match step {
                WaitStep::Look(probe) => match after_probe(probe, found) {
                    AfterProbe::Ended(outcome) => WaitStep::Clear(outcome),
                    AfterProbe::Look(other) => WaitStep::Look(other),
                    AfterProbe::Sleep => WaitStep::Sleep,
                },
                _ => step,
            },
            WaitReport::Done => match step {
                WaitStep::Persist => WaitStep::Look(SignalProbe::Stop),
                WaitStep::Sleep => WaitStep::Look(SignalProbe::Stop),
                WaitStep::Clear(outcome) => {
                    if drops_resume_request(outcome) {
                        WaitStep::DropResume(outcome)
                    } else {
                        WaitStep::Ended(None)
                    }
                },
                WaitStep::DropResume(outcome) => WaitStep::Ended(suspension_termination(outcome)),
                _ => step,
            },
        },
    }
}

/// The error of a step that failed. `write_error` is the message for a suspension that cannot be
/// written down.
pub open spec fn failure_text(
    step: WaitStep,
    write_error: Seq<char>,
    workspace_root: Seq<char>,
) -> Seq<char> {
    match step {
        WaitStep::Persist => write_error,
        WaitStep::Look(SignalProbe::Stop) => "Failed to consume stop signal while suspended: "@
            + path_below(workspace_root, ".ralph/stop-requested"@),
        WaitStep::Look(SignalProbe::Resume) => "Failed to consume resume signal while suspended"@,
        WaitStep::Clear(SuspendWaitOutcome::Resume) =>
            "Failed to clear suspend-state after resume signal"@,
        WaitStep::Clear(_) => "Failed to clear suspend-state artifact"@,
        WaitStep::DropResume(_) => "Failed to clear stale resume signal"@,
        _ => Seq::empty(),
    }
}

/// Tells the error of a step that failed.
pub fn wait_error(step: WaitStep, write_error: &str, workspace_root: &str) -> (r: String)
    ensures
        r@ == failure_text(step, write_error@, workspace_root@),
{
    match step {
        WaitStep::Persist => write_error.to_owned(),
        WaitStep::Look(SignalProbe::Stop) => {
            let mut r = "Failed to consume stop signal while suspended: ".to_owned();
            r.append(
                crate::loop_runner::suspend::stop_request_path(workspace_root).as_str(),
            );
            r
        },
        WaitStep::Look(SignalProbe::Resume) => {
            "Failed to consume resume signal while suspended".to_owned()
        },
        WaitStep::Clear(SuspendWaitOutcome::Resume) => {
            "Failed to clear suspend-state after resume signal".to_owned()
        },
        WaitStep::Clear(_) => "Failed to clear suspend-state artifact".to_owned(),
        WaitStep::DropResume(_) => "Failed to clear stale resume signal".to_owned(),
        _ => {
            let r = String::new();
            assert(r@ == Seq::<char>::empty());
            r
        },
    }
}

/// How the loop goes on, once a suspension is over.
pub open spec fn gate_of(step: WaitStep) -> HookGate {
    match step {
        WaitStep::Ended(Some(reason)) => HookGate::Ending(reason),
        _ => HookGate::Open,
    }
}

/// Tells the loop how to go on, once a suspension is over.
pub fn hook_gate(step: WaitStep) -> (r: HookGate)
    ensures
        r == (match step {
            WaitStep::Ended(Some(reason)) => HookGate::Ending(reason),
            _ => HookGate::Open,
        }),
        r == gate_of(step),
{
    match step {
        WaitStep::Ended(Some(reason)) => HookGate::Ending(reason),
        _ => HookGate::Open,
    }
}

/// Whether a step can be reached by a suspension.
pub open spec fn waits(step: WaitStep) -> bool {
    match step {
        WaitStep::DropResume(outcome) => outcome != SuspendWaitOutcome::Resume,
        WaitStep::Ended(reason) => reason is None || reason == Some(TerminationReason::Stopped)
            || reason == Some(TerminationReason::RestartRequested),
        _ => true,
    }
}

/// A suspension ends the loop only because of a stop or a restart request.
pub proof fn law_suspension_ends_by_a_request(reports: Seq<WaitReport>)
    ensures
        waits(reached(WaitStep::Persist, reports)),
    decreases reports.len(),
{
    if reports.len() > 0 {
        law_suspension_ends_by_a_request(reports.drop_last());
    }
}

/// A suspension that ends the loop leaves no resume request behind: dropping one is the step that
/// ends it. And no suspension ends before what was written down of it is removed.
pub proof fn law_suspension_leaves_nothing_behind(step: WaitStep, report: WaitReport)
    requires
        !(step is Ended),
        next_step(step, report) is Ended,
    ensures
        report == WaitReport::Done,
        next_step(step, report) == WaitStep::Ended(None) && waits(step) ==> step == WaitStep::Clear(
            SuspendWaitOutcome::Resume,
        ),
        next_step(step, report) != WaitStep::Ended(None) ==> step is DropResume,
{
}

/// A resume request is dropped only once what was written down of the suspension is removed.
pub proof fn law_suspension_is_removed_first(step: WaitStep, report: WaitReport)
    requires
        !(step is DropResume),
        next_step(step, report) is DropResume,
    ensures
        step is Clear,
        report == WaitReport::Done,
{
}

/// Whatever signals are there, a stop request comes first, then a restart request, then a resume
/// request; without any, the loop sleeps and looks again.
pub proof fn law_stop_comes_before_restart_before_resume(stop: bool, restart: bool, resume: bool)
    ensures
        ({
            let first = next_step(WaitStep::Look(SignalProbe::Stop), WaitReport::Found(stop));
            let second = next_step(first, WaitReport::Found(restart));
            let third = next_step(second, WaitReport::Found(resume));
            &&& stop ==> first == WaitStep::Clear(SuspendWaitOutcome::Stop)
            &&& !stop && restart ==> second == WaitStep::Clear(SuspendWaitOutcome::Restart)
            &&& !stop && !restart && resume ==> third == WaitStep::Clear(SuspendWaitOutcome::Resume)
            &&& !stop && !restart && !resume ==> third == WaitStep::Sleep && next_step(
                third,
                WaitReport::Done,
            ) == WaitStep::Look(SignalProbe::Stop)
        }),
{
}

/// A suspended loop that acts on a stop request takes it away, so that it does not stop the next loop.
/// A restart request that it acts on stays where it is, for the process that starts the loop anew. A
/// resume request is taken only where it is acted on, and requests that are not acted on stay.
pub proof fn law_a_suspended_loop_takes_what_it_acts_on(requests: Requests)
    ensures
        round_from(SignalProbe::Stop, requests, Waiting::Loop) == (if requests.stop {
            (Some(SuspendWaitOutcome::Stop), Requests { stop: false, ..requests })
        } else if requests.restart {
            (Some(SuspendWaitOutcome::Restart), requests)
        } else if requests.resume {
            (Some(SuspendWaitOutcome::Resume), Requests { resume: false, ..requests })
        } else {
            (None, requests)
        }),
{
    reveal_with_fuel(round_from, 3);
}

/// A hook that waits to be run again leaves stop and restart requests to the loop: it takes nothing
/// but the resume request that it acts on.
pub proof fn law_a_waiting_hook_leaves_requests_to_the_loop(requests: Requests)
    ensures
        round_from(SignalProbe::Stop, requests, Waiting::Hook) == (if requests.stop {
            (Some(SuspendWaitOutcome::Stop), requests)
        } else if requests.restart {
            (Some(SuspendWaitOutcome::Restart), requests)
        } else if requests.resume {
            (Some(SuspendWaitOutcome::Resume), Requests { resume: false, ..requests })
        } else {
            (None, requests)
        }),
{
    reveal_with_fuel(round_from, 3);
}

/// A suspended loop: what is to be done next, the requests that lie in the workspace, and whether the
/// suspension is written down.
pub struct Suspension {
    pub step: WaitStep,
    pub requests: Requests,
    pub recorded: bool,
}

/// A suspension after its next step was done. Nothing fails, and no new request comes.
pub open spec fn performed(suspension: Suspension) -> Suspension {
    let done = next_step(suspension.step, WaitReport::Done);
    match suspension.step {
        WaitStep::Persist => Suspension { step: done, recorded: true, ..suspension },
        WaitStep::Look(probe) => Suspension {
            step: next_step(
                suspension.step,
                WaitReport::Found(lies(suspension.requests, probe)),
            ),
            requests: left_by(suspension.requests, probe, Waiting::Loop),
            ..suspension
        },
        WaitStep::Clear(_) => Suspension { step: done, recorded: false, ..suspension },
        WaitStep::DropResume(_) => Suspension {
            step: done,
            requests: Requests { resume: false, ..suspension.requests },
            ..suspension
        },
        _ => Suspension { step: done, ..suspension },
    }
}

/// A suspension after some steps were done.
pub open spec fn performed_times(suspension: Suspension, times: nat) -> Suspension
    decreases times,
{
    if times == 0 {
        suspension
    } else {
        performed(performed_times(suspension, (times - 1) as nat))
    }
}

/// Where a request lies there, a suspension comes to its end: a stop request stops the loop, without
/// one a restart request ends it for a restart, and without either a resume request lets it go on. At
/// the end nothing of the suspension is written down any more, the resume request is gone, the stop
/// request is gone, and the restart request is left as it was.
pub proof fn law_suspension_settles_the_requests(requests: Requests)
    requires
        requests.stop || requests.restart || requests.resume,
    ensures
        ({
            let start = Suspension { step: WaitStep::Persist, requests, recorded: false };
            performed_times(start, 5) == (Suspension {
                step: WaitStep::Ended(
                    if requests.stop {
                        Some(TerminationReason::Stopped)
                    } else if requests.restart {
                        Some(TerminationReason::RestartRequested)
                    } else {
                        None
                    },
                ),
                requests: Requests { stop: false, restart: requests.restart, resume: false },
                recorded: false,
            })
        }),
{
    reveal_with_fuel(performed_times, 6);
}

} // verus!
