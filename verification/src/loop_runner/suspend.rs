//! Gates of lifecycle hooks: blocking, suspension and the signals that end it.
use crate::config::hooks::{phase_key, HookPhaseEvent, HookSuspendMode};
use crate::json::json_entries;
use crate::loop_runner::hooks::{
    outcome_views, Failure, HookDispatchFailure, HookDispatchOutcome, HookDisposition, OutcomeView,
    RetryBackoffDelayOutcome, SuspendWaitOutcome, RETRY_BACKOFF_SIGNAL_POLL_INTERVAL_MS,
};
use crate::loop_runner::metadata::{
    merge_namespaced_hook_metadata, merged_metadata, Entries, HookMutationParseOutcome,
    MutationReading,
};
use crate::loop_runner::termination::TerminationReason;
use crate::path::{join_path, path_below};
use crate::text::{first_of, lemma_first_of, signed_decimal, signed_text};
use serde_json::Value;
use vstd::prelude::*;

verus! {

/// A failure in words.
pub open spec fn failure_detail(failure: Option<Failure>) -> Seq<char> {
    match failure {
        Some(Failure::Run(exit_code, timed_out)) => if timed_out {
            "hook timed out"@
        } else {
            match exit_code {
                Some(code) => "hook exited with code "@ + signed_decimal(code as int),
                None => "hook exited unsuccessfully"@,
            }
        },
        Some(Failure::Execution(message)) => "hook execution failed: "@ + message,
        Some(Failure::Mutation(message)) => "invalid mutation output: "@ + message,
        None => "hook failed without failure details"@,
    }
}

/// Puts a failure into words.
pub fn format_hook_failure_detail(failure: Option<&HookDispatchFailure>) -> (r: String)
    ensures
        r@ == failure_detail(
            match failure {
                Some(failure) => Some(failure@),
                None => None,
            },
        ),
{
    match failure {
        Some(HookDispatchFailure::HookRunFailed { exit_code, timed_out }) => {
            if *timed_out {
                "hook timed out".to_owned()
            } else {
                match exit_code {
                    Some(code) => {
                        let mut text = "hook exited with code ".to_owned();
                        text.append(signed_text(*code).as_str());
                        text
                    },
                    None => "hook exited unsuccessfully".to_owned(),
                }
            }
        },
        Some(HookDispatchFailure::HookExecutionError { message }) => {
            let mut text = "hook execution failed: ".to_owned();
            text.append(message.as_str());
            text
        },
        Some(HookDispatchFailure::InvalidMutationOutput { message }) => {
            let mut text = "invalid mutation output: ".to_owned();
            text.append(message.as_str());
            text
        },
        None => "hook failed without failure details".to_owned(),
    }
}

/// Why a hook has some effect on the loop.
pub open spec fn hook_reason(outcome: OutcomeView, effect: Seq<char>) -> Seq<char> {
    "Lifecycle hook '"@ + outcome.hook_name + effect + phase_key(outcome.phase_event) + "': "@
        + failure_detail(outcome.failure)
}

fn hook_text(outcome: &HookDispatchOutcome, effect: &str) -> (r: String)
    ensures
        r@ == hook_reason(outcome@, effect@),
{
    let detail = match &outcome.failure {
        Some(failure) => format_hook_failure_detail(Some(failure)),
        None => format_hook_failure_detail(None),
    };
    let mut text = "Lifecycle hook '".to_owned();
    text.append(outcome.hook_name.as_str());
    text.append(effect);
    text.append(outcome.phase_event.as_str());
    text.append("': ");
    text.append(detail.as_str());
    text
}

/// Why a hook suspends the loop.
pub open spec fn suspending_reason(outcome: OutcomeView) -> Seq<char> {
    hook_reason(outcome, "' suspended orchestration at '"@)
}

/// Tells why a hook suspends the loop.
pub fn format_suspending_hook_reason(outcome: &HookDispatchOutcome) -> (r: String)
    ensures
        r@ == suspending_reason(outcome@),
{
    hook_text(outcome, "' suspended orchestration at '")
}

/// Why a hook blocks the loop.
pub open spec fn blocking_reason(outcome: OutcomeView) -> Seq<char> {
    hook_reason(outcome, "' blocked orchestration at '"@)
}

/// Tells why a hook blocks the loop.
pub fn format_blocking_hook_reason(outcome: &HookDispatchOutcome) -> (r: String)
    ensures
        r@ == blocking_reason(outcome@),
{
    hook_text(outcome, "' blocked orchestration at '")
}

/// The first outcome of a disposition.
pub open spec fn first_with(outcomes: Seq<OutcomeView>, disposition: HookDisposition) -> Option<
    OutcomeView,
> {
    first_of(
        outcomes.map_values(
            |outcome: OutcomeView|
                if outcome.disposition == disposition {
                    Some(outcome)
                } else {
                    None
                },
        ),
    )
}

fn find_with<'a>(outcomes: &'a Vec<HookDispatchOutcome>, disposition: HookDisposition) -> (r:
    Option<&'a HookDispatchOutcome>)
    ensures
        match r {
            Some(outcome) => first_with(outcome_views(outcomes@), disposition) == Some(outcome@),
            None => first_with(outcome_views(outcomes@), disposition) is None,
        },
{
    let ghost hits = outcome_views(outcomes@).map_values(
        |outcome: OutcomeView|
            if outcome.disposition == disposition {
                Some(outcome)
            } else {
                None
            },
    );
    let mut i: usize = 0;
    assert(hits.skip(0) == hits);
    while i < outcomes.len()
        invariant
            i <= outcomes.len(),
            hits == outcome_views(outcomes@).map_values(
                |outcome: OutcomeView|
                    if outcome.disposition == disposition {
                        Some(outcome)
                    } else {
                        None
                    },
            ),
            first_of(hits) == first_of(hits.skip(i as int)),
        decreases outcomes.len() - i,
    {
        proof {
            lemma_first_of(hits, i as int);
        }
        if outcomes[i].disposition == disposition {
            return Some(&outcomes[i]);
        }
        i = i + 1;
    }
    None
}

/// Fails with the reason of the first blocking hook.
pub fn fail_if_blocking_outcomes(outcomes: &Vec<HookDispatchOutcome>) -> (r: Result<(), String>)
    ensures
        match r {
            Ok(_) => first_with(outcome_views(outcomes@), HookDisposition::Block) is None,
            Err(reason) => {
                let blocking = first_with(outcome_views(outcomes@), HookDisposition::Block);
                blocking is Some && reason@ == blocking_reason(blocking->0)
            },
        },
{
    match find_with(outcomes, HookDisposition::Block) {
        Some(outcome) => Err(format_blocking_hook_reason(outcome)),
        None => Ok(()),
    }
}

/// What is written down of a suspended loop.
#[derive(Debug)]
pub struct SuspendRecord {
    pub loop_id: String,
    pub phase_event: HookPhaseEvent,
    pub hook_name: String,
    pub reason: String,
    pub suspend_mode: HookSuspendMode,
}

/// Whether a record is that of a loop suspended by a hook.
pub open spec fn records(record: SuspendRecord, loop_id: Seq<char>, outcome: OutcomeView) -> bool {
    &&& record.loop_id@ == loop_id
    &&& record.phase_event == outcome.phase_event
    &&& record.hook_name@ == outcome.hook_name
    &&& record.reason@ == suspending_reason(outcome)
    &&& record.suspend_mode == outcome.suspend_mode
}

/// Makes the record of a loop that a hook suspends.
pub fn suspend_record(loop_id: &str, outcome: &HookDispatchOutcome) -> (r: SuspendRecord)
    ensures
        records(r, loop_id@, outcome@),
{
    SuspendRecord {
        loop_id: loop_id.to_owned(),
        phase_event: outcome.phase_event,
        hook_name: outcome.hook_name.clone(),
        reason: format_suspending_hook_reason(outcome),
        suspend_mode: outcome.suspend_mode,
    }
}

/// The record of the suspension that the first suspending hook asks for, where there is one.
pub fn requested_suspension(outcomes: &Vec<HookDispatchOutcome>, loop_id: &str) -> (r: Option<
    SuspendRecord,
>)
    ensures
        match r {
            Some(record) => {
                let suspending = first_with(outcome_views(outcomes@), HookDisposition::Suspend);
                suspending is Some && records(record, loop_id@, suspending->0)
            },
            None => first_with(outcome_views(outcomes@), HookDisposition::Suspend) is None,
        },
{
    match find_with(outcomes, HookDisposition::Suspend) {
        Some(outcome) => Some(suspend_record(loop_id, outcome)),
        None => None,
    }
}

/// The message of a suspension that cannot be written down.
pub fn suspend_write_error(record: &SuspendRecord) -> (r: String)
    ensures
        r@ == "Failed to persist suspend-state for hook '"@ + record.hook_name@ + "' at '"@
            + phase_key(record.phase_event) + "'"@,
{
    let mut text = "Failed to persist suspend-state for hook '".to_owned();
    text.append(record.hook_name.as_str());
    text.append("' at '");
    text.append(record.phase_event.as_str());
    text.append("'");
    text
}

/// The signal that a suspended loop looks for next.
#[derive(Debug, Clone, Copy, PartialEq, Eq, Structural)]
pub enum SignalProbe {
    Stop,
    Restart,
    Resume,
}

/// What follows a look for a signal.
#[derive(Debug, Clone, Copy, PartialEq, Eq, Structural)]
pub enum AfterProbe {
    /// The suspension is over.
    Ended(SuspendWaitOutcome),
    /// Look for another signal.
    Look(SignalProbe),
    /// Sleep, then start again with the stop signal.
    Sleep,
}

/// What follows a look for a signal: a stop request comes before a restart request, and both come
/// before a resume request, which stays untouched where one of them is there.
pub open spec fn after_look(probe: SignalProbe, found: bool) -> AfterProbe {
    match probe {
        SignalProbe::Stop => if found {
            AfterProbe::Ended(SuspendWaitOutcome::Stop)
        } else {
            AfterProbe::Look(SignalProbe::Restart)
        },
        SignalProbe::Restart => if found {
            AfterProbe::Ended(SuspendWaitOutcome::Restart)
        } else {
            AfterProbe::Look(SignalProbe::Resume)
        },
        SignalProbe::Resume => if found {
            AfterProbe::Ended(SuspendWaitOutcome::Resume)
        } else {
            AfterProbe::Sleep
        },
    }
}

/// Decides what follows a look for a signal.
pub fn after_probe(probe: SignalProbe, found: bool) -> (r: AfterProbe)
    ensures
        r == after_look(probe, found),
{
    match probe {
        SignalProbe::Stop => if found {
            AfterProbe::Ended(SuspendWaitOutcome::Stop)
        } else {
            AfterProbe::Look(SignalProbe::Restart)
        },
        SignalProbe::Restart => if found {
            AfterProbe::Ended(SuspendWaitOutcome::Restart)
        } else {
            AfterProbe::Look(SignalProbe::Resume)
        },
        SignalProbe::Resume => if found {
            AfterProbe::Ended(SuspendWaitOutcome::Resume)
        } else {
            AfterProbe::Sleep
        },
    }
}

/// Who waits for a signal.
#[derive(Debug, Clone, Copy, PartialEq, Eq, Structural)]
pub enum Waiting {
    /// The loop, suspended behind the hooks of a phase-event.
    Loop,
    /// A hook that is run again once the loop is resumed.
    Hook,
}

/// Whether a request is removed by the look that finds it. A resume request always is. A stop request
/// is where the loop itself waits; a hook leaves it for the loop. A restart request stays for the
/// process that starts the loop anew.
pub open spec fn is_taken(probe: SignalProbe, waiting: Waiting) -> bool {
    match probe {
        SignalProbe::Stop => waiting == Waiting::Loop,
        SignalProbe::Restart => false,
        SignalProbe::Resume => true,
    }
}

/// Tells whether a request is removed by the look that finds it.
pub fn takes_signal(probe: SignalProbe, waiting: Waiting) -> (r: bool)
    ensures
        r == is_taken(probe, waiting),
{
    match probe {
        SignalProbe::Stop => waiting == Waiting::Loop,
        SignalProbe::Restart => false,
        SignalProbe::Resume => true,
    }
}

/// The requests that lie in a workspace.
#[derive(Debug, Clone, Copy, PartialEq, Eq, Structural)]
pub struct Requests {
    pub stop: bool,
    pub restart: bool,
    pub resume: bool,
}

/// Whether a look finds a request.
pub open spec fn lies(requests: Requests, probe: SignalProbe) -> bool {
    match probe {
        SignalProbe::Stop => requests.stop,
        SignalProbe::Restart => requests.restart,
        SignalProbe::Resume => requests.resume,
    }
}

/// The requests that lie there after a look.
pub open spec fn left_by(requests: Requests, probe: SignalProbe, waiting: Waiting) -> Requests {
    if !is_taken(probe, waiting) {
        requests
    } else {
        match probe {
            SignalProbe::Stop => Requests { stop: false, ..requests },
            SignalProbe::Restart => Requests { restart: false, ..requests },
            SignalProbe::Resume => Requests { resume: false, ..requests },
        }
    }
}

/// How many looks a round holds from a probe on.
pub open spec fn looks_left(probe: SignalProbe) -> nat {
    match probe {
        SignalProbe::Stop => 3,
        SignalProbe::Restart => 2,
        SignalProbe::Resume => 1,
    }
}

/// A round of looks from a probe on, up to the first request that is found: how the wait ends, where
/// it does, and the requests that are left.
pub open spec fn round_from(probe: SignalProbe, requests: Requests, waiting: Waiting) -> (
    Option<SuspendWaitOutcome>,
    Requests,
)
    decreases looks_left(probe),
{
    let left = left_by(requests, probe, waiting);
    match after_look(probe, lies(requests, probe)) {
        AfterProbe::Ended(outcome) => (Some(outcome), left),
        AfterProbe::Look(next) => if looks_left(next) < looks_left(probe) {
            round_from(next, left, waiting)
        } else {
            (None, left)
        },
        AfterProbe::Sleep => (None, left),
    }
}

/// The reason for which the end of a suspension ends the loop.
pub open spec fn suspension_reason(outcome: SuspendWaitOutcome) -> Option<TerminationReason> {
    match outcome {
        SuspendWaitOutcome::Resume => None,
        SuspendWaitOutcome::Stop => Some(TerminationReason::Stopped),
        SuspendWaitOutcome::Restart => Some(TerminationReason::RestartRequested),
    }
}

/// Tells whether the end of a suspension ends the loop, and for which reason.
pub fn suspension_termination(outcome: SuspendWaitOutcome) -> (r: Option<TerminationReason>)
    ensures
        r == suspension_reason(outcome),
{
    match outcome {
        SuspendWaitOutcome::Resume => None,
        SuspendWaitOutcome::Stop => Some(TerminationReason::Stopped),
        SuspendWaitOutcome::Restart => Some(TerminationReason::RestartRequested),
    }
}

/// Tells whether a resume request that may be there is to be dropped with the suspension: a loop
/// that ends must not leave one behind for the next loop.
pub fn drops_resume_request(outcome: SuspendWaitOutcome) -> (r: bool)
    ensures
        r == (outcome != SuspendWaitOutcome::Resume),
{
    match outcome {
        SuspendWaitOutcome::Resume => false,
        _ => true,
    }
}

/// What follows a look at a delayed retry.
#[derive(Debug, Clone, Copy, PartialEq, Eq, Structural)]
pub enum DelayPoll {
    /// The delay is over.
    Ended(RetryBackoffDelayOutcome),
    /// Sleep for some nanoseconds, then look again.
    Sleep { nanos: u128 },
}

/// What follows a look at a delayed retry; times are in nanoseconds.
pub open spec fn delay_polled(delay: u128, elapsed: u128, stop: bool, restart: bool) -> DelayPoll {
    if delay == 0 {
        DelayPoll::Ended(RetryBackoffDelayOutcome::Elapsed)
    } else if stop {
        DelayPoll::Ended(RetryBackoffDelayOutcome::StopRequested)
    } else if restart {
        DelayPoll::Ended(RetryBackoffDelayOutcome::RestartRequested)
    } else if elapsed >= delay {
        DelayPoll::Ended(RetryBackoffDelayOutcome::Elapsed)
    } else if delay - elapsed <= RETRY_BACKOFF_SIGNAL_POLL_INTERVAL_MS * 1_000_000 {
        DelayPoll::Sleep { nanos: (delay - elapsed) as u128 }
    } else {
        DelayPoll::Sleep { nanos: (RETRY_BACKOFF_SIGNAL_POLL_INTERVAL_MS * 1_000_000) as u128 }
    }
}

/// Looks at a delayed retry; times are in nanoseconds. Without a delay no signal counts. Otherwise a
/// stop request comes before a restart request, and both before the end of the delay. No sleep goes
/// beyond the end of the delay or is longer than the poll interval.
pub fn poll_retry_delay(delay: u128, elapsed: u128, stop: bool, restart: bool) -> (r: DelayPoll)
    ensures
        r == (if delay == 0 {
            DelayPoll::Ended(RetryBackoffDelayOutcome::Elapsed)
        } else if stop {
            DelayPoll::Ended(RetryBackoffDelayOutcome::StopRequested)
        } else if restart {
            DelayPoll::Ended(RetryBackoffDelayOutcome::RestartRequested)
        } else if elapsed >= delay {
            DelayPoll::Ended(RetryBackoffDelayOutcome::Elapsed)
        } else if delay - elapsed <= RETRY_BACKOFF_SIGNAL_POLL_INTERVAL_MS * 1_000_000 {
            DelayPoll::Sleep { nanos: (delay - elapsed) as u128 }
        } else {
            DelayPoll::Sleep {
                nanos: (RETRY_BACKOFF_SIGNAL_POLL_INTERVAL_MS * 1_000_000) as u128,
            }
        }),
        r == delay_polled(delay, elapsed, stop, restart),
{
    if delay == 0 {
        return DelayPoll::Ended(RetryBackoffDelayOutcome::Elapsed);
    }
    if stop {
        return DelayPoll::Ended(RetryBackoffDelayOutcome::StopRequested);
    }
    if restart {
        return DelayPoll::Ended(RetryBackoffDelayOutcome::RestartRequested);
    }
    if elapsed >= delay {
        return DelayPoll::Ended(RetryBackoffDelayOutcome::Elapsed);
    }
    let remaining: u128 = delay - elapsed;
    let interval: u128 = RETRY_BACKOFF_SIGNAL_POLL_INTERVAL_MS as u128 * 1_000_000;
    if remaining <= interval {
        DelayPoll::Sleep { nanos: remaining }
    } else {
        DelayPoll::Sleep { nanos: interval }
    }
}

/// The file whose presence asks a loop to stop.
pub fn stop_request_path(workspace_root: &str) -> (r: String)
    ensures
        r@ == path_below(workspace_root@, ".ralph/stop-requested"@),
{
    join_path(workspace_root, ".ralph/stop-requested")
}

/// The file whose presence asks a loop to end for a restart.
pub fn restart_request_path(workspace_root: &str) -> (r: String)
    ensures
        r@ == path_below(workspace_root@, ".ralph/restart-requested"@),
{
    join_path(workspace_root, ".ralph/restart-requested")
}

/// The accumulated metadata after the outputs of some hooks were taken in, in their order. An output
/// that cannot be taken is passed over; what it brought before the part that cannot be taken stays.
pub open spec fn merged_from_outcomes(accumulated: Entries, outcomes: Seq<OutcomeView>) -> Entries
    decreases outcomes.len(),
{
    if outcomes.len() == 0 {
        accumulated
    } else {
        let before = merged_from_outcomes(accumulated, outcomes.drop_last());
        match outcomes.last().mutation {
            MutationReading::Parsed(parsed) => merged_metadata(before, parsed).0,
            _ => before,
        }
    }
}

/// Takes the outputs of hooks into the accumulated metadata.
pub fn merge_accumulated_hook_metadata_from_outcomes(
    accumulated_hook_metadata: &mut serde_json::Map<String, Value>,
    outcomes: &Vec<HookDispatchOutcome>,
)
    ensures
        json_entries(*final(accumulated_hook_metadata)) == merged_from_outcomes(
            json_entries(*old(accumulated_hook_metadata)),
            outcome_views(outcomes@),
        ),
{
    let ghost all = outcome_views(outcomes@);
    let ghost start = json_entries(*accumulated_hook_metadata);
    let mut i: usize = 0;
    while i < outcomes.len()
        invariant
            i <= outcomes.len(),
            all == outcome_views(outcomes@),
            json_entries(*accumulated_hook_metadata) == merged_from_outcomes(
                start,
                all.take(i as int),
            ),
        decreases outcomes.len() - i,
    {
        proof {
            assert(all.take(i + 1).drop_last() == all.take(i as int));
            assert(all.take(i + 1).last() == outcomes@[i as int]@);
        }
        match &outcomes[i].mutation_parse_outcome {
            HookMutationParseOutcome::Parsed { namespaced_metadata } => {
                let _ = merge_namespaced_hook_metadata(
                    accumulated_hook_metadata,
                    namespaced_metadata,
                );
            },
            _ => {},
        }
        i = i + 1;
    }
    assert(all.take(i as int) == all);
}

} // verus!
