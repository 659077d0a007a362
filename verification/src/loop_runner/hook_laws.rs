//! What holds of the hooks of every phase-event, and of what comes of them.
use crate::config::hooks::{
    phase_key, HookDefaults, HookOnError, HookPhaseEvent, HookSpec, HookSuspendMode, PhaseHooks,
};
use crate::loop_runner::hooks::{
    attempted, backoff_delay, failing, step_after, Failure, HookDisposition, HookReport,
    HookRunResult, HookStep, OutcomeView, ResolvedHook, RetryBackoffDelayOutcome,
    SuspendWaitOutcome,
};
use crate::loop_runner::metadata::{
    merged_metadata, message_of, mutation_output, mutation_read, Entries, MutationReading,
};
use crate::loop_runner::requests::{env_pairs, runs, HookRunRequest};
use crate::loop_runner::resolution::{all_resolve, complete_hooks, hooks_at};
use crate::loop_runner::runner::HookGate;
use crate::loop_runner::suspend::{
    blocking_reason, delay_polled, failure_detail, first_with, is_taken, merged_from_outcomes,
    records, suspending_reason, suspension_reason, DelayPoll, SignalProbe, SuspendRecord, Waiting,
};
use crate::loop_runner::suspend_wait::{
    failure_text, gate_of, judged, next_step, WaitReport, WaitStep,
};
use crate::loop_runner::termination::TerminationReason;
use crate::path::path_below;
use crate::text::{first_of, lemma_first_among, opt_text, signed_decimal, texts, trimmed};
use serde_json::Value;
use vstd::prelude::*;

verus! {

// ---- resolution ----

/// A hook that is run does what it was configured to: its failure means what the configuration says, and
/// its command, directory and environment are the configured ones. Limits and a suspend strategy that the
/// configuration names are kept, and only the others are the defaults.
pub proof fn law_hooks_run_as_configured(
    hooks: Seq<ResolvedHook>,
    specs: Seq<HookSpec>,
    defaults: HookDefaults,
    phase_event: HookPhaseEvent,
    i: int,
)
    requires
        all_resolve(hooks, specs, defaults, phase_event),
        0 <= i < hooks.len(),
    ensures
        hooks.len() == specs.len(),
        specs[i].on_error == Some(hooks[i].on_error),
        hooks[i].phase_event == phase_event,
        hooks[i].name@ == specs[i].name@,
        texts(hooks[i].command@) == texts(specs[i].command@),
        opt_text(hooks[i].cwd) == opt_text(specs[i].cwd),
        env_pairs(hooks[i].env@) == env_pairs(specs[i].env@),
        specs[i].timeout_seconds is Some ==> hooks[i].timeout_seconds
            == specs[i].timeout_seconds->0,
        specs[i].timeout_seconds is None ==> hooks[i].timeout_seconds == defaults.timeout_seconds,
        specs[i].max_output_bytes is Some ==> hooks[i].max_output_bytes
            == specs[i].max_output_bytes->0,
        specs[i].max_output_bytes is None ==> hooks[i].max_output_bytes
            == defaults.max_output_bytes,
        specs[i].suspend_mode is Some ==> hooks[i].suspend_mode == specs[i].suspend_mode->0,
        specs[i].suspend_mode is None ==> hooks[i].suspend_mode == defaults.suspend_mode,
        hooks[i].mutate.enabled == specs[i].mutate.enabled,
{
}

/// A failed run of a hook has the effect that the configuration asks for: it warns, blocks or suspends.
pub proof fn law_failures_have_the_configured_effect(
    hooks: Seq<ResolvedHook>,
    specs: Seq<HookSpec>,
    defaults: HookDefaults,
    phase_event: HookPhaseEvent,
    i: int,
    run: Result<HookRunResult, String>,
)
    requires
        all_resolve(hooks, specs, defaults, phase_event),
        0 <= i < hooks.len(),
        run matches Ok(result) ==> result.timed_out || result.exit_code != Some(0i32),
    ensures
        specs[i].on_error == Some(HookOnError::Warn) ==> attempted(hooks[i], run).disposition
            == HookDisposition::Warn,
        specs[i].on_error == Some(HookOnError::Block) ==> attempted(hooks[i], run).disposition
            == HookDisposition::Block,
        specs[i].on_error == Some(HookOnError::Suspend) ==> attempted(hooks[i], run).disposition
            == HookDisposition::Suspend,
        attempted(hooks[i], run).failure is Some,
        attempted(hooks[i], run).hook_name == specs[i].name@,
        attempted(hooks[i], run).phase_event == phase_event,
{
}

/// The hooks of a phase-event are told section by section.
pub proof fn law_phase_events_are_resolved_one_by_one(
    a: Seq<PhaseHooks>,
    b: Seq<PhaseHooks>,
    phase_event: HookPhaseEvent,
)
    ensures
        hooks_at(a + b, phase_event) == hooks_at(a, phase_event) + hooks_at(b, phase_event),
        hooks_at(Seq::empty(), phase_event).len() == 0,
    decreases b.len(),
{
    if b.len() == 0 {
        assert(a + b == a);
    } else {
        law_phase_events_are_resolved_one_by_one(a, b.drop_last(), phase_event);
        assert((a + b).drop_last() == a + b.drop_last());
        assert((a + b).last() == b.last());
    }
}

/// The hooks of a phase-event are those that are configured for it, all of them and in order, where each
/// says what its failure means, as those of a valid configuration do. Hooks of other phase-events are not
/// among them.
pub proof fn law_phase_events_have_their_own_hooks(phase: PhaseHooks, phase_event: HookPhaseEvent)
    ensures
        phase.phase_event != phase_event ==> hooks_at(seq![phase], phase_event).len() == 0,
        phase.phase_event == phase_event && (forall|j: int|
            0 <= j < phase.hooks@.len() ==> (#[trigger] phase.hooks@[j]).on_error is Some)
            ==> hooks_at(seq![phase], phase_event) == phase.hooks@,
        phase.phase_event == phase_event ==> forall|j: int|
            0 <= j < hooks_at(seq![phase], phase_event).len() ==> (#[trigger] hooks_at(
                seq![phase],
                phase_event,
            )[j]).on_error is Some,
{
    reveal_with_fuel(hooks_at, 2);
    assert(seq![phase].drop_last() == Seq::<PhaseHooks>::empty());
    assert(seq![phase].last() == phase);
    let complete = |spec: HookSpec| spec.on_error is Some;
    assert(complete_hooks(phase.hooks@) == phase.hooks@.filter(complete));
    if phase.phase_event == phase_event {
        assert(hooks_at(seq![phase], phase_event) == complete_hooks(phase.hooks@));
        assert forall|j: int| 0 <= j < hooks_at(seq![phase], phase_event).len() implies (
        #[trigger] hooks_at(seq![phase], phase_event)[j]).on_error is Some by {
            broadcast use vstd::seq_lib::group_filter_ensures;

            assert(complete(phase.hooks@.filter(complete)[j]));
        }
    }
    if forall|j: int| 0 <= j < phase.hooks@.len() ==> (#[trigger] phase.hooks@[j]).on_error is Some {
        lemma_all_complete(phase.hooks@, complete);
    }
}

proof fn lemma_all_complete(specs: Seq<HookSpec>, complete: spec_fn(HookSpec) -> bool)
    requires
        forall|j: int| 0 <= j < specs.len() ==> complete(#[trigger] specs[j]),
    ensures
        specs.filter(complete) == specs,
    decreases specs.len(),
{
    reveal(Seq::filter);
    if specs.len() > 0 {
        let init = specs.drop_last();
        assert forall|j: int| 0 <= j < init.len() implies complete(#[trigger] init[j]) by {
            assert(init[j] == specs[j]);
        }
        lemma_all_complete(init, complete);
        assert(complete(specs[specs.len() - 1]));
        assert(specs == init.push(specs.last()));
    }
}

/// The process of a hook is told everything that the hook is run with.
pub proof fn law_hook_processes_get_their_settings(
    request: HookRunRequest,
    hook: ResolvedHook,
    workspace_root: Seq<char>,
    payload: Value,
)
    requires
        runs(request, hook, workspace_root, payload),
    ensures
        request.phase_event@ == phase_key(hook.phase_event),
        request.hook_name@ == hook.name@,
        texts(request.command@) == texts(hook.command@),
        request.workspace_root@ == workspace_root,
        opt_text(request.cwd) == opt_text(hook.cwd),
        env_pairs(request.env@) == env_pairs(hook.env@),
        request.timeout_seconds == hook.timeout_seconds,
        request.max_output_bytes == hook.max_output_bytes,
        request.stdin_payload == payload,
{
}

// ---- attempts ----

/// A hook passes exactly where its process ended in time with exit code zero and its output can be used.
/// Only what does not pass has a failure.
pub proof fn law_hooks_pass_by_their_exit_code(hook: ResolvedHook, result: HookRunResult)
    ensures
        ({
            let outcome = attempted(hook, Ok(result));
            let well = !result.timed_out && result.exit_code is Some && result.exit_code->0 == 0;
            let reading = mutation_output(hook.mutate.enabled, hook.name@, result.stdout@);
            let usable = reading is Disabled || reading is Parsed;
            &&& outcome.disposition == HookDisposition::Pass <==> well && usable
            &&& outcome.failure is None <==> well && usable
            &&& !well ==> outcome.failure == Some(
                Failure::Run(result.exit_code, result.timed_out),
            )
            &&& well && !usable ==> outcome.failure is Some && outcome.failure->0 is Mutation
            &&& outcome.mutation == reading
            &&& outcome.suspend_mode == hook.suspend_mode
            &&& outcome.hook_name == hook.name@
            &&& outcome.phase_event == hook.phase_event
        }),
{
}

/// A hook whose process could not be run never passes, and brings no metadata.
pub proof fn law_hooks_that_cannot_run_fail(hook: ResolvedHook, message: String)
    ensures
        ({
            let outcome = attempted(hook, Err(message));
            &&& outcome.disposition != HookDisposition::Pass
            &&& outcome.disposition == failing(hook.on_error)
            &&& outcome.failure == Some(Failure::Execution(message@))
            &&& outcome.mutation is Disabled
        }),
        failing(HookOnError::Warn) == HookDisposition::Warn,
        failing(HookOnError::Block) == HookDisposition::Block,
        failing(HookOnError::Suspend) == HookDisposition::Suspend,
{
}

/// A suspending hook is tried again as its mode says: three times behind delays of 100, 200 and 400
/// milliseconds, or once behind a signal, or not at all.
pub proof fn law_suspending_hooks_are_tried_again(
    mode: HookSuspendMode,
    attempt: u32,
    run: Result<HookRunResult, String>,
)
    requires
        attempt >= 1,
    ensures
        ({
            let next = step_after(
                mode,
                HookStep::Attempt { attempt },
                HookReport::Ran(run),
                HookDisposition::Suspend,
            );
            match mode {
                HookSuspendMode::WaitForResume => next == HookStep::Finished,
                HookSuspendMode::WaitThenRetry => next == (if attempt == 1 {
                    HookStep::Persist
                } else {
                    HookStep::Finished
                }),
                HookSuspendMode::RetryBackoff => if attempt == 1 {
                    next == (HookStep::Delay { millis: 100, retry: 1 })
                } else if attempt == 2 {
                    next == (HookStep::Delay { millis: 200, retry: 2 })
                } else if attempt == 3 {
                    next == (HookStep::Delay { millis: 400, retry: 3 })
                } else {
                    next == HookStep::Finished
                },
            }
        }),
        backoff_delay(2) == 2 * backoff_delay(1),
        backoff_delay(3) == 2 * backoff_delay(2),
{
}

/// A delay that elapsed leads to the next attempt, and one that a request cut short to none. A hook that
/// waits is run again once it was written down, resumed and cleared, and fails at whatever goes wrong.
pub proof fn law_retries_come_behind_their_wait(
    mode: HookSuspendMode,
    millis: u64,
    retry: u32,
    disposition: HookDisposition,
)
    requires
        retry < u32::MAX,
    ensures
        step_after(
            mode,
            HookStep::Delay { millis, retry },
            HookReport::Delayed(RetryBackoffDelayOutcome::Elapsed),
            disposition,
        ) == (HookStep::Attempt { attempt: (retry + 1) as u32 }),
        step_after(
            mode,
            HookStep::Delay { millis, retry },
            HookReport::Delayed(RetryBackoffDelayOutcome::StopRequested),
            disposition,
        ) == HookStep::Finished,
        step_after(
            mode,
            HookStep::Delay { millis, retry },
            HookReport::Delayed(RetryBackoffDelayOutcome::RestartRequested),
            disposition,
        ) == HookStep::Finished,
        step_after(mode, HookStep::Persist, HookReport::Persisted(true), disposition)
            == HookStep::AwaitSignal,
        step_after(mode, HookStep::Persist, HookReport::Persisted(false), disposition)
            == HookStep::Finished,
        step_after(
            mode,
            HookStep::AwaitSignal,
            HookReport::Signal(Some(SuspendWaitOutcome::Resume)),
            disposition,
        ) == HookStep::ClearState,
        step_after(
            mode,
            HookStep::AwaitSignal,
            HookReport::Signal(Some(SuspendWaitOutcome::Stop)),
            disposition,
        ) == HookStep::Finished,
        step_after(
            mode,
            HookStep::AwaitSignal,
            HookReport::Signal(Some(SuspendWaitOutcome::Restart)),
            disposition,
        ) == HookStep::Finished,
        step_after(mode, HookStep::AwaitSignal, HookReport::Signal(None), disposition)
            == HookStep::Finished,
        step_after(mode, HookStep::ClearState, HookReport::Cleared(true), disposition) == (
        HookStep::Attempt { attempt: 2 }),
        step_after(mode, HookStep::ClearState, HookReport::Cleared(false), disposition)
            == HookStep::Finished,
{
}

/// A delayed retry is cut short by a request to stop, which comes before one to restart. Else it lasts
/// its time: no sleep goes beyond its end, none is longer than a tenth of a second, and each one brings
/// the end nearer.
pub proof fn law_delays_last_their_time(delay: u128, elapsed: u128, stop: bool, restart: bool)
    ensures
        ({
            let polled = delay_polled(delay, elapsed, stop, restart);
            &&& delay == 0 ==> polled == DelayPoll::Ended(RetryBackoffDelayOutcome::Elapsed)
            &&& delay > 0 && stop ==> polled == DelayPoll::Ended(
                RetryBackoffDelayOutcome::StopRequested,
            )
            &&& delay > 0 && !stop && restart ==> polled == DelayPoll::Ended(
                RetryBackoffDelayOutcome::RestartRequested,
            )
            &&& delay > 0 && !stop && !restart ==> {
                &&& polled == DelayPoll::Ended(RetryBackoffDelayOutcome::Elapsed) <==> elapsed
                    >= delay
                &&& elapsed < delay ==> polled is Sleep && 0 < polled->nanos && elapsed
                    + polled->nanos <= delay && polled->nanos <= 100_000_000 && (elapsed
                    + polled->nanos == delay || polled->nanos == 100_000_000)
            }
        }),
{
}

// ---- gates ----

/// The outcome that a gate goes by is the first of its disposition, and there is one wherever any hook
/// came to that disposition.
pub proof fn law_the_first_outcome_decides(
    outcomes: Seq<OutcomeView>,
    disposition: HookDisposition,
    i: int,
)
    ensures
        0 <= i < outcomes.len() && outcomes[i].disposition == disposition && (forall|j: int|
            0 <= j < i ==> (#[trigger] outcomes[j]).disposition != disposition) ==> first_with(
            outcomes,
            disposition,
        ) == Some(outcomes[i]),
        0 <= i < outcomes.len() && outcomes[i].disposition == disposition ==> first_with(
            outcomes,
            disposition,
        ) is Some,
        (forall|j: int| 0 <= j < outcomes.len() ==> (#[trigger] outcomes[j]).disposition
            != disposition) ==> first_with(outcomes, disposition) is None,
{
    let pick = |outcome: OutcomeView|
        if outcome.disposition == disposition {
            Some(outcome)
        } else {
            None
        };
    let hits = outcomes.map_values(pick);
    assert(first_with(outcomes, disposition) == first_of(hits)) by {
        assert(hits == outcomes.map_values(
            |outcome: OutcomeView|
                if outcome.disposition == disposition {
                    Some(outcome)
                } else {
                    None
                },
        ));
    }
    lemma_first_among(hits);
    if 0 <= i < outcomes.len() && outcomes[i].disposition == disposition {
        assert(hits[i] is Some);
        if forall|j: int| 0 <= j < i ==> (#[trigger] outcomes[j]).disposition != disposition {
            assert forall|j: int| 0 <= j < i implies (#[trigger] hits[j]) is None by {
                assert(outcomes[j].disposition != disposition);
            }
            lemma_first_hit(hits, i);
        }
    }
    if forall|j: int| 0 <= j < outcomes.len() ==> (#[trigger] outcomes[j]).disposition
        != disposition {
        if first_of(hits) is Some {
            let k = choose|k: int| 0 <= k < hits.len() && #[trigger] hits[k] == first_of(hits);
            assert(outcomes[k].disposition != disposition);
        }
    }
}

proof fn lemma_first_hit<T>(s: Seq<Option<T>>, i: int)
    requires
        0 <= i < s.len(),
        s[i] is Some,
        forall|j: int| 0 <= j < i ==> (#[trigger] s[j]) is None,
    ensures
        first_of(s) == s[i],
    decreases s.len(),
{
    if i > 0 {
        assert(s[0] is None);
        assert(s.drop_first()[i - 1] == s[i]);
        assert forall|j: int| 0 <= j < i - 1 implies (#[trigger] s.drop_first()[j]) is None by {
            assert(s.drop_first()[j] == s[j + 1]);
        }
        lemma_first_hit(s.drop_first(), i - 1);
    }
}

/// Any hook that blocks blocks the loop, wherever it stands among the others. Where none blocks, any that
/// suspends suspends it, and hooks that only pass and warn let it go on.
pub proof fn law_any_hook_can_block_the_loop(outcomes: Seq<OutcomeView>, i: int)
    ensures
        0 <= i < outcomes.len() && outcomes[i].disposition == HookDisposition::Block ==> judged(
            outcomes,
        ) == HookDisposition::Block,
        0 <= i < outcomes.len() && outcomes[i].disposition == HookDisposition::Suspend && (forall|
            j: int,
        |
            0 <= j < outcomes.len() ==> (#[trigger] outcomes[j]).disposition
                != HookDisposition::Block) ==> judged(outcomes) == HookDisposition::Suspend,
        (forall|j: int|
            0 <= j < outcomes.len() ==> (#[trigger] outcomes[j]).disposition
                == HookDisposition::Pass || outcomes[j].disposition == HookDisposition::Warn)
            ==> judged(outcomes) == HookDisposition::Pass,
{
    law_the_first_outcome_decides(outcomes, HookDisposition::Block, i);
    law_the_first_outcome_decides(outcomes, HookDisposition::Suspend, i);
    if forall|j: int|
        0 <= j < outcomes.len() ==> (#[trigger] outcomes[j]).disposition == HookDisposition::Pass
            || outcomes[j].disposition == HookDisposition::Warn {
        assert forall|j: int| 0 <= j < outcomes.len() implies (#[trigger] outcomes[j]).disposition
            != HookDisposition::Block && outcomes[j].disposition != HookDisposition::Suspend by {}
    }
}

/// What is told of a blocking or suspending hook names the hook, its phase-event and what went wrong.
pub proof fn law_hooks_are_told_by_name(outcome: OutcomeView)
    ensures
        blocking_reason(outcome) == "Lifecycle hook '"@ + outcome.hook_name
            + "' blocked orchestration at '"@ + phase_key(outcome.phase_event) + "': "@
            + failure_detail(outcome.failure),
        suspending_reason(outcome) == "Lifecycle hook '"@ + outcome.hook_name
            + "' suspended orchestration at '"@ + phase_key(outcome.phase_event) + "': "@
            + failure_detail(outcome.failure),
{
}

/// What went wrong with a hook is told: a timeout before an exit code.
pub proof fn law_failures_are_told(
    exit_code: Option<i32>,
    timed_out: bool,
    message: Seq<char>,
)
    ensures
        timed_out ==> failure_detail(Some(Failure::Run(exit_code, timed_out)))
            == "hook timed out"@,
        !timed_out && exit_code is Some ==> failure_detail(
            Some(Failure::Run(exit_code, timed_out)),
        ) == "hook exited with code "@ + signed_decimal(exit_code->0 as int),
        !timed_out && exit_code is None ==> failure_detail(
            Some(Failure::Run(exit_code, timed_out)),
        ) == "hook exited unsuccessfully"@,
        failure_detail(Some(Failure::Execution(message))) == "hook execution failed: "@ + message,
        failure_detail(Some(Failure::Mutation(message))) == "invalid mutation output: "@ + message,
        failure_detail(None) == "hook failed without failure details"@,
{
}

/// What is written down of a suspended loop is what the suspending hook came to.
pub proof fn law_suspensions_are_written_down(
    record: SuspendRecord,
    loop_id: Seq<char>,
    outcome: OutcomeView,
)
    requires
        records(record, loop_id, outcome),
    ensures
        record.loop_id@ == loop_id,
        record.hook_name@ == outcome.hook_name,
        record.phase_event == outcome.phase_event,
        record.suspend_mode == outcome.suspend_mode,
        record.reason@ == suspending_reason(outcome),
{
}

/// A suspension that is resumed lets the loop go on, one that is stopped stops it, and one that is
/// restarted ends it for a restart.
pub proof fn law_suspensions_end_as_requested(reason: TerminationReason)
    ensures
        suspension_reason(SuspendWaitOutcome::Resume) is None,
        suspension_reason(SuspendWaitOutcome::Stop) == Some(TerminationReason::Stopped),
        suspension_reason(SuspendWaitOutcome::Restart) == Some(TerminationReason::RestartRequested),
        gate_of(WaitStep::Ended(None)) == HookGate::Open,
        gate_of(WaitStep::Ended(Some(reason))) == HookGate::Ending(reason),
{
}

/// The steps of a suspension: it is written down, requests are looked for in turn, and what was found ends
/// it once the record is gone.
pub proof fn law_suspensions_go_step_by_step(outcome: SuspendWaitOutcome)
    ensures
        next_step(WaitStep::Persist, WaitReport::Done) == WaitStep::Look(SignalProbe::Stop),
        next_step(WaitStep::Look(SignalProbe::Stop), WaitReport::Found(true)) == WaitStep::Clear(
            SuspendWaitOutcome::Stop,
        ),
        next_step(WaitStep::Look(SignalProbe::Stop), WaitReport::Found(false)) == WaitStep::Look(
            SignalProbe::Restart,
        ),
        next_step(WaitStep::Look(SignalProbe::Restart), WaitReport::Found(true)) == WaitStep::Clear(
            SuspendWaitOutcome::Restart,
        ),
        next_step(WaitStep::Look(SignalProbe::Restart), WaitReport::Found(false)) == WaitStep::Look(
            SignalProbe::Resume,
        ),
        next_step(WaitStep::Look(SignalProbe::Resume), WaitReport::Found(true)) == WaitStep::Clear(
            SuspendWaitOutcome::Resume,
        ),
        next_step(WaitStep::Look(SignalProbe::Resume), WaitReport::Found(false)) == WaitStep::Sleep,
        next_step(WaitStep::Sleep, WaitReport::Done) == WaitStep::Look(SignalProbe::Stop),
        next_step(WaitStep::Clear(SuspendWaitOutcome::Resume), WaitReport::Done)
            == WaitStep::Ended(None),
        outcome != SuspendWaitOutcome::Resume ==> next_step(
            WaitStep::Clear(outcome),
            WaitReport::Done,
        ) == WaitStep::DropResume(outcome),
        next_step(WaitStep::DropResume(outcome), WaitReport::Done) == WaitStep::Ended(
            match outcome {
                SuspendWaitOutcome::Resume => None,
                SuspendWaitOutcome::Stop => Some(TerminationReason::Stopped),
                SuspendWaitOutcome::Restart => Some(TerminationReason::RestartRequested),
            },
        ),
{
}

/// Whatever fails in a suspension fails it, and one that is over stays over.
pub proof fn law_failed_suspensions_fail(step: WaitStep, report: WaitReport)
    ensures
        !(step is Ended) ==> next_step(step, WaitReport::Failed) == WaitStep::Failed,
        step is Ended ==> next_step(step, report) == step,
        step is Failed ==> next_step(step, report) == step,
{
}

/// What failed in a suspension is told.
pub proof fn law_failed_suspensions_are_told(write_error: Seq<char>, root: Seq<char>)
    ensures
        failure_text(WaitStep::Persist, write_error, root) == write_error,
        failure_text(WaitStep::Look(SignalProbe::Stop), write_error, root)
            == "Failed to consume stop signal while suspended: "@ + path_below(
            root,
            ".ralph/stop-requested"@,
        ),
        failure_text(WaitStep::Look(SignalProbe::Resume), write_error, root)
            == "Failed to consume resume signal while suspended"@,
        failure_text(WaitStep::Clear(SuspendWaitOutcome::Resume), write_error, root)
            == "Failed to clear suspend-state after resume signal"@,
        failure_text(WaitStep::Clear(SuspendWaitOutcome::Stop), write_error, root)
            == "Failed to clear suspend-state artifact"@,
        failure_text(WaitStep::DropResume(SuspendWaitOutcome::Stop), write_error, root)
            == "Failed to clear stale resume signal"@,
{
}

/// A request is taken by who acts on it: a request to resume by anyone who waits, one to stop by the loop,
/// and one to restart by none of them.
pub proof fn law_requests_are_taken_by_who_acts_on_them(waiting: Waiting)
    ensures
        is_taken(SignalProbe::Resume, waiting),
        is_taken(SignalProbe::Stop, Waiting::Loop),
        !is_taken(SignalProbe::Stop, Waiting::Hook),
        !is_taken(SignalProbe::Restart, waiting),
{
}

// ---- metadata ----

/// Metadata is taken in outcome by outcome, in order, and only what an output brought.
pub proof fn law_metadata_is_taken_in_outcome_by_outcome(
    accumulated: Entries,
    a: Seq<OutcomeView>,
    b: Seq<OutcomeView>,
    outcome: OutcomeView,
)
    ensures
        merged_from_outcomes(accumulated, a + b) == merged_from_outcomes(
            merged_from_outcomes(accumulated, a),
            b,
        ),
        merged_from_outcomes(accumulated, Seq::empty()) == accumulated,
        merged_from_outcomes(accumulated, seq![outcome]) == (match outcome.mutation {
            MutationReading::Parsed(parsed) => merged_metadata(accumulated, parsed).0,
            _ => accumulated,
        }),
    decreases b.len(),
{
    reveal_with_fuel(merged_from_outcomes, 2);
    assert(seq![outcome].drop_last() == Seq::<OutcomeView>::empty());
    assert(seq![outcome].last() == outcome);
    if b.len() == 0 {
        assert(a + b == a);
    } else {
        law_metadata_is_taken_in_outcome_by_outcome(accumulated, a, b.drop_last(), outcome);
        assert((a + b).drop_last() == a + b.drop_last());
        assert((a + b).last() == b.last());
    }
}

/// The output of a hook is read only where mutation is enabled, and without the blanks around it.
/// Whatever cannot be read or is not of the one form that is allowed is invalid, and said to be.
pub proof fn law_outputs_are_read_where_mutation_is_enabled(
    hook: Seq<char>,
    stdout: Seq<char>,
    message: Seq<char>,
    value: Value,
)
    ensures
        mutation_output(false, hook, stdout) is Disabled,
        mutation_output(true, hook, stdout) == mutation_read(
            hook,
            crate::json::json_read(trimmed(stdout)),
        ),
        mutation_read(hook, Err(message)) == MutationReading::InvalidJson(
            "mutation stdout is not valid JSON: "@ + message,
        ),
        crate::json::json_object(value) is None ==> mutation_read(hook, Ok(value))
            == MutationReading::InvalidSchema("mutation payload must be a JSON object"@),
        mutation_read(hook, Ok(value)) is Parsed ==> {
            &&& crate::json::json_object(value) is Some
            &&& crate::json::json_object(value)->0.contains_key("metadata"@)
            &&& crate::json::json_object(crate::json::json_object(value)->0["metadata"@]) is Some
            &&& trimmed(hook).len() > 0
            &&& forall|key: Seq<char>| #[trigger]
                crate::json::json_object(value)->0.contains_key(key) ==> key == "metadata"@
        },
        message_of(mutation_read(hook, Ok(value))) is None <==> mutation_read(
            hook,
            Ok(value),
        ) is Parsed,
{
    if mutation_read(hook, Ok(value)) is Parsed {
        let payload = crate::json::json_object(value)->0;
        assert(payload.dom() == set!["metadata"@]);
        assert(set!["metadata"@].contains("metadata"@));
        assert forall|key: Seq<char>| #[trigger] payload.contains_key(key) implies key
            == "metadata"@ by {
            assert(payload.dom().contains(key));
        }
    }
}

} // verus!
