//! Dispatch of lifecycle hooks, with their suspend policies.
use crate::config::hooks::{
    EnvVar, HookMutationConfig, HookOnError, HookPhaseEvent, HookSuspendMode,
};
use crate::loop_runner::metadata::{
    format_hook_mutation_parse_error, message_of, mutation_output, parse_hook_mutation_stdout,
    HookMutationParseOutcome, MutationReading,
};
use vstd::prelude::*;

verus! {

/// Milliseconds between two looks for a signal while a retry is delayed.
pub const RETRY_BACKOFF_SIGNAL_POLL_INTERVAL_MS: u64 = 100;

/// Milliseconds between two looks for a signal while a loop is suspended.
pub const SUSPEND_WAIT_SIGNAL_POLL_INTERVAL_MS: u64 = 250;

/// How a hook run counts.
#[derive(Debug, Clone, Copy, PartialEq, Eq, Structural)]
pub enum HookDisposition {
    Pass,
    Warn,
    Block,
    Suspend,
}

/// How a hook process ended.
#[derive(Debug)]
pub struct HookRunResult {
    pub exit_code: Option<i32>,
    pub timed_out: bool,
    pub stdout: String,
}

/// Why a hook did not pass.
#[derive(Debug)]
pub enum HookDispatchFailure {
    HookRunFailed { exit_code: Option<i32>, timed_out: bool },
    HookExecutionError { message: String },
    InvalidMutationOutput { message: String },
}

/// The meaning of a [`HookDispatchFailure`].
pub enum Failure {
    Run(Option<i32>, bool),
    Execution(Seq<char>),
    Mutation(Seq<char>),
}

impl View for HookDispatchFailure {
    type V = Failure;

    open spec fn view(&self) -> Failure {
        match *self {
            HookDispatchFailure::HookRunFailed { exit_code, timed_out } => Failure::Run(
                exit_code,
                timed_out,
            ),
            HookDispatchFailure::HookExecutionError { message } => Failure::Execution(message@),
            HookDispatchFailure::InvalidMutationOutput { message } => Failure::Mutation(message@),
        }
    }
}

/// What came of a hook.
#[derive(Debug)]
pub struct HookDispatchOutcome {
    pub phase_event: HookPhaseEvent,
    pub hook_name: String,
    pub disposition: HookDisposition,
    pub suspend_mode: HookSuspendMode,
    pub failure: Option<HookDispatchFailure>,
    pub mutation_parse_outcome: HookMutationParseOutcome,
}

/// The meaning of a [`HookDispatchOutcome`].
pub struct OutcomeView {
    pub phase_event: HookPhaseEvent,
    pub hook_name: Seq<char>,
    pub disposition: HookDisposition,
    pub suspend_mode: HookSuspendMode,
    pub failure: Option<Failure>,
    pub mutation: MutationReading,
}

impl View for HookDispatchOutcome {
    type V = OutcomeView;

    open spec fn view(&self) -> OutcomeView {
        OutcomeView {
            phase_event: self.phase_event,
            hook_name: self.hook_name@,
            disposition: self.disposition,
            suspend_mode: self.suspend_mode,
            failure: match self.failure {
                Some(failure) => Some(failure@),
                None => None,
            },
            mutation: self.mutation_parse_outcome@,
        }
    }
}

/// The meaning of several outcomes.
pub open spec fn outcome_views(outcomes: Seq<HookDispatchOutcome>) -> Seq<OutcomeView> {
    outcomes.map_values(|outcome: HookDispatchOutcome| outcome@)
}

/// A hook that is to run, with the defaults filled in.
#[derive(Debug)]
pub struct ResolvedHook {
    pub phase_event: HookPhaseEvent,
    pub name: String,
    /// Executable and its arguments.
    pub command: Vec<String>,
    /// Working directory, where it is not the workspace.
    pub cwd: Option<String>,
    pub env: Vec<EnvVar>,
    pub timeout_seconds: u64,
    pub max_output_bytes: u64,
    pub on_error: HookOnError,
    pub suspend_mode: HookSuspendMode,
    pub mutate: HookMutationConfig,
}

/// How a failure of a hook counts.
pub open spec fn failing(on_error: HookOnError) -> HookDisposition {
    match on_error {
        HookOnError::Warn => HookDisposition::Warn,
        HookOnError::Block => HookDisposition::Block,
        HookOnError::Suspend => HookDisposition::Suspend,
    }
}

/// How a failure of a hook counts.
pub fn disposition_from_on_error(on_error: HookOnError) -> (r: HookDisposition)
    ensures
        r == failing(on_error),
{
    match on_error {
        HookOnError::Warn => HookDisposition::Warn,
        HookOnError::Block => HookDisposition::Block,
        HookOnError::Suspend => HookDisposition::Suspend,
    }
}

/// Whether a hook process ended well: in time, with exit code zero.
pub open spec fn ran_well(run: HookRunResult) -> bool {
    !run.timed_out && run.exit_code == Some(0i32)
}

/// How the end of a hook process counts.
pub fn classify_hook_disposition(on_error: HookOnError, run_result: &HookRunResult) -> (r:
    HookDisposition)
    ensures
        r == (if ran_well(*run_result) {
            HookDisposition::Pass
        } else {
            failing(on_error)
        }),
{
    let zero = match run_result.exit_code {
        Some(code) => code == 0,
        None => false,
    };
    if !run_result.timed_out && zero {
        HookDisposition::Pass
    } else {
        disposition_from_on_error(on_error)
    }
}

/// The failure of a hook whose output cannot be used.
pub fn mutation_parse_failure(mutation_parse_outcome: &HookMutationParseOutcome) -> (r: Option<
    HookDispatchFailure,
>)
    ensures
        match r {
            Some(failure) => message_of(mutation_parse_outcome@) is Some && failure@
                == Failure::Mutation(message_of(mutation_parse_outcome@)->0),
            None => message_of(mutation_parse_outcome@) is None,
        },
{
    match mutation_parse_outcome {
        HookMutationParseOutcome::Invalid(error) => Some(
            HookDispatchFailure::InvalidMutationOutput {
                message: format_hook_mutation_parse_error(error),
            },
        ),
        _ => None,
    }
}

/// What comes of one attempt to run a hook: `Err` where the process could not be run at all.
pub open spec fn attempted(hook: ResolvedHook, run: Result<HookRunResult, String>) -> OutcomeView {
    let ended = OutcomeView {
        phase_event: hook.phase_event,
        hook_name: hook.name@,
        disposition: failing(hook.on_error),
        suspend_mode: hook.suspend_mode,
        failure: None,
        mutation: MutationReading::Disabled,
    };
    match run {
        Err(message) => OutcomeView { failure: Some(Failure::Execution(message@)), ..ended },
        Ok(result) => {
            let mutation = mutation_output(hook.mutate.enabled, hook.name@, result.stdout@);
            if !ran_well(result) {
                OutcomeView {
                    failure: Some(Failure::Run(result.exit_code, result.timed_out)),
                    mutation,
                    ..ended
                }
            } else if message_of(mutation) is Some {
                OutcomeView {
                    failure: Some(Failure::Mutation(message_of(mutation)->0)),
                    mutation,
                    ..ended
                }
            } else {
                OutcomeView { disposition: HookDisposition::Pass, mutation, ..ended }
            }
        },
    }
}

/// Evaluates one attempt to run a hook. A process that ended well counts as failed where its output
/// cannot be used.
pub fn execute_hook_attempt(hook: &ResolvedHook, run: Result<HookRunResult, String>) -> (r:
    HookDispatchOutcome)
    ensures
        r@ == attempted(*hook, run),
{
    match run {
        Ok(run_result) => {
            let run_disposition = classify_hook_disposition(hook.on_error, &run_result);
            let mutation_parse_outcome = parse_hook_mutation_stdout(
                &hook.mutate,
                hook.name.as_str(),
                run_result.stdout.as_str(),
            );
            let well = !run_result.timed_out && match run_result.exit_code {
                Some(code) => code == 0,
                None => false,
            };
            let (disposition, failure) = if !well {
                (
                    run_disposition,
                    Some(
                        HookDispatchFailure::HookRunFailed {
                            exit_code: run_result.exit_code,
                            timed_out: run_result.timed_out,
                        },
                    ),
                )
            } else {
                match mutation_parse_failure(&mutation_parse_outcome) {
                    Some(failure) => (disposition_from_on_error(hook.on_error), Some(failure)),
                    None => (run_disposition, None),
                }
            };
            HookDispatchOutcome {
                phase_event: hook.phase_event,
                hook_name: hook.name.clone(),
                disposition,
                suspend_mode: hook.suspend_mode,
                failure,
                mutation_parse_outcome,
            }
        },
        Err(message) => HookDispatchOutcome {
            phase_event: hook.phase_event,
            hook_name: hook.name.clone(),
            disposition: disposition_from_on_error(hook.on_error),
            suspend_mode: hook.suspend_mode,
            failure: Some(HookDispatchFailure::HookExecutionError { message }),
            mutation_parse_outcome: HookMutationParseOutcome::Disabled,
        },
    }
}

/// The most attempts that a suspend mode allows.
pub open spec fn max_attempts(mode: HookSuspendMode) -> u32 {
    match mode {
        HookSuspendMode::WaitForResume => 1,
        HookSuspendMode::RetryBackoff => 4,
        HookSuspendMode::WaitThenRetry => 2,
    }
}

/// The most attempts that a suspend mode allows.
pub fn max_retry_attempts_for_suspend_mode(suspend_mode: HookSuspendMode) -> (r: u32)
    ensures
        r == max_attempts(suspend_mode),
{
    match suspend_mode {
        HookSuspendMode::WaitForResume => 1,
        HookSuspendMode::RetryBackoff => 4,
        HookSuspendMode::WaitThenRetry => 2,
    }
}

/// Milliseconds before the retry of a number, counted from one: each delay doubles the one before.
pub open spec fn backoff_delay(retry: u32) -> u64 {
    if retry == 1 {
        100
    } else if retry == 2 {
        200
    } else {
        400
    }
}

/// How a delay before a retry ended.
#[derive(Debug, Clone, Copy, PartialEq, Eq, Structural)]
pub enum RetryBackoffDelayOutcome {
    Elapsed,
    StopRequested,
    RestartRequested,
}

/// How a suspension ended.
#[derive(Debug, Clone, Copy, PartialEq, Eq, Structural)]
pub enum SuspendWaitOutcome {
    Resume,
    Stop,
    Restart,
}

/// What is to be done next to dispatch a hook.
#[derive(Debug, Clone, Copy, PartialEq, Eq, Structural)]
pub enum HookStep {
    /// Run the hook.
    Attempt { attempt: u32 },
    /// Wait before a retry, looking for signals.
    Delay { millis: u64, retry: u32 },
    /// Write down that the loop is suspended.
    Persist,
    /// Wait for a signal.
    AwaitSignal,
    /// Remove what was written down of the suspension.
    ClearState,
    /// Nothing: the outcome stands.
    Finished,
}

/// What came of a [`HookStep`].
#[derive(Debug)]
pub enum HookReport {
    Ran(Result<HookRunResult, String>),
    Delayed(RetryBackoffDelayOutcome),
    /// Whether the suspension could be written down.
    Persisted(bool),
    /// The signal, where waiting for it did not fail.
    Signal(Option<SuspendWaitOutcome>),
    /// Whether the suspension could be removed.
    Cleared(bool),
}

/// What follows an attempt, by its disposition: only a suspending hook is tried again, as its mode
/// says and as long as attempts are left.
pub open spec fn after_attempt(
    mode: HookSuspendMode,
    attempt: u32,
    disposition: HookDisposition,
) -> HookStep {
    if disposition != HookDisposition::Suspend || attempt >= max_attempts(mode) {
        HookStep::Finished
    } else if mode == HookSuspendMode::RetryBackoff {
        HookStep::Delay { millis: backoff_delay(attempt), retry: attempt }
    } else {
        HookStep::Persist
    }
}

/// What follows a step; `disposition` is that of the hook after the step.
pub open spec fn step_after(
    mode: HookSuspendMode,
    step: HookStep,
    report: HookReport,
    disposition: HookDisposition,
) -> HookStep {
    match (step, report) {
        (HookStep::Attempt { attempt }, HookReport::Ran(_)) => after_attempt(
            mode,
            attempt,
            disposition,
        ),
        (HookStep::Delay { retry, .. }, HookReport::Delayed(outcome)) => if outcome
            == RetryBackoffDelayOutcome::Elapsed {
            HookStep::Attempt { attempt: (retry + 1) as u32 }
        } else {
            HookStep::Finished
        },
        (HookStep::Persist, HookReport::Persisted(done)) => if done {
            HookStep::AwaitSignal
        } else {
            HookStep::Finished
        },
        (HookStep::AwaitSignal, HookReport::Signal(signal)) => if signal == Some(
            SuspendWaitOutcome::Resume,
        ) {
            HookStep::ClearState
        } else {
            HookStep::Finished
        },
        (HookStep::ClearState, HookReport::Cleared(done)) => if done {
            HookStep::Attempt { attempt: 2 }
        } else {
            HookStep::Finished
        },
        _ => step,
    }
}

/// Whether a step can come up under a suspend mode.
pub open spec fn step_allowed(mode: HookSuspendMode, step: HookStep) -> bool {
    match step {
        HookStep::Attempt { attempt } => 1 <= attempt <= max_attempts(mode),
        HookStep::Delay { millis, retry } => mode == HookSuspendMode::RetryBackoff && 1 <= retry < 4
            && millis == backoff_delay(retry),
        HookStep::Persist | HookStep::AwaitSignal | HookStep::ClearState => mode
            == HookSuspendMode::WaitThenRetry,
        HookStep::Finished => true,
    }
}

/// A bound on the number of steps that can still follow a step.
pub open spec fn steps_left(step: HookStep) -> int {
    match step {
        HookStep::Attempt { attempt } => if attempt == 1 {
            10
        } else {
            10 - 2 * attempt
        },
        HookStep::Delay { retry, .. } => 9 - 2 * retry,
        HookStep::Persist => 9,
        HookStep::AwaitSignal => 8,
        HookStep::ClearState => 7,
        HookStep::Finished => 0,
    }
}

/// A dispatch keeps to its suspend mode whatever is reported: no hook is tried more often than its
/// mode allows, only `retry_backoff` delays retries, and only `wait_then_retry` waits for a signal
/// between two attempts.
pub proof fn law_dispatch_keeps_to_mode(
    mode: HookSuspendMode,
    step: HookStep,
    report: HookReport,
    disposition: HookDisposition,
)
    requires
        step_allowed(mode, step),
    ensures
        step_allowed(mode, step_after(mode, step, report, disposition)),
{
}

/// A dispatch comes to an end whatever is reported: every report that belongs to its step leaves
/// fewer steps.
pub proof fn law_dispatch_ends(
    mode: HookSuspendMode,
    step: HookStep,
    report: HookReport,
    disposition: HookDisposition,
)
    requires
        step_allowed(mode, step),
        step_after(mode, step, report, disposition) != step,
    ensures
        0 <= steps_left(step_after(mode, step, report, disposition)) < steps_left(step),
{
}

/// A hook that does not suspend is never tried again.
pub proof fn law_only_suspending_hooks_are_retried(
    mode: HookSuspendMode,
    attempt: u32,
    run: Result<HookRunResult, String>,
    disposition: HookDisposition,
)
    requires
        disposition != HookDisposition::Suspend,
    ensures
        step_after(mode, HookStep::Attempt { attempt }, HookReport::Ran(run), disposition)
            == HookStep::Finished,
{
}

/// The dispatch of one hook.
#[derive(Debug)]
pub struct HookDispatch {
    pub hook: ResolvedHook,
    pub step: HookStep,
    /// What came of the last attempt.
    pub outcome: Option<HookDispatchOutcome>,
}

impl HookDispatch {
    /// Whether the dispatch has come about by its steps: an outcome is there after the first
    /// attempt.
    pub open spec fn wf(self) -> bool {
        &&& step_allowed(self.hook.suspend_mode, self.step)
        &&& self.outcome is None ==> self.step == (HookStep::Attempt { attempt: 1 })
    }

    /// Begins the dispatch of a hook.
    pub fn new(hook: ResolvedHook) -> (r: HookDispatch)
        ensures
            r.wf(),
            r.hook == hook,
            r.step == (HookStep::Attempt { attempt: 1 }),
            r.outcome is None,
    {
        HookDispatch { hook, step: HookStep::Attempt { attempt: 1 }, outcome: None }
    }

    /// Takes in what came of the current step. A report that does not belong to the step changes
    /// nothing.
    pub fn advance(&mut self, report: HookReport)
        requires
            old(self).wf(),
        ensures
            final(self).wf(),
            final(self).hook == old(self).hook,
            match (old(self).step, report) {
                (HookStep::Attempt { .. }, HookReport::Ran(run)) => final(self).outcome is Some
                    && final(self).outcome->0@ == attempted(old(self).hook, run),
                _ => final(self).outcome == old(self).outcome,
            },
            final(self).outcome is Some ==> final(self).step == step_after(
                old(self).hook.suspend_mode,
                old(self).step,
                report,
                final(self).outcome->0.disposition,
            ),
            final(self).outcome is None ==> final(self).step == old(self).step,
    {
        match (self.step, report) {
            (HookStep::Attempt { attempt }, HookReport::Ran(run)) => {
                let outcome = execute_hook_attempt(&self.hook, run);
                let suspends = match outcome.disposition {
                    HookDisposition::Suspend => true,
                    _ => false,
                };
                let limit: u32 = max_retry_attempts_for_suspend_mode(self.hook.suspend_mode);
                self.outcome = Some(outcome);
                self.step = if !suspends || attempt >= limit {
                    HookStep::Finished
                } else {
                    match self.hook.suspend_mode {
                        HookSuspendMode::RetryBackoff => {
                            let millis: u64 = if attempt == 1 {
                                100
                            } else if attempt == 2 {
                                200
                            } else {
                                400
                            };
                            HookStep::Delay { millis, retry: attempt }
                        },
                        _ => HookStep::Persist,
                    }
                };
            },
            (HookStep::Delay { retry, .. }, HookReport::Delayed(outcome)) => {
                self.step = match outcome {
                    RetryBackoffDelayOutcome::Elapsed => HookStep::Attempt { attempt: retry + 1 },
                    _ => HookStep::Finished,
                };
            },
            (HookStep::Persist, HookReport::Persisted(done)) => {
                self.step = if done {
                    HookStep::AwaitSignal
                } else {
                    HookStep::Finished
                };
            },
            (HookStep::AwaitSignal, HookReport::Signal(signal)) => {
                self.step = match signal {
                    Some(SuspendWaitOutcome::Resume) => HookStep::ClearState,
                    _ => HookStep::Finished,
                };
            },
            (HookStep::ClearState, HookReport::Cleared(done)) => {
                self.step = if done {
                    HookStep::Attempt { attempt: 2 }
                } else {
                    HookStep::Finished
                };
            },
            _ => {},
        }
    }
}

} // verus!
