//! What holds of every step of a loop, whatever is reported of it.
use crate::loop_runner::late_events::LateEventRecovery;
use crate::loop_runner::runner::{
    advanced, after_answer, after_done, after_hooks, after_polling, after_reason, first_run, run_of,
    HookGate, LoopReport, LoopRun, LoopStep,
};
use crate::loop_runner::termination::TerminationReason;
use vstd::prelude::*;

verus! {

// ---- reasons to end ----

/// A reason to end is never lost: wherever one is looked for and found, the loop closes down for that
/// very reason. A cancellation alone goes past the hooks before the end.
pub proof fn law_reasons_are_never_lost(run: LoopRun, reason: TerminationReason)
    requires
        run.step == LoopStep::CheckTermination || run.step == LoopStep::ProcessOutput || run.step
            == LoopStep::CheckCancellation || run.step == LoopStep::CheckCompletion,
    ensures
        ({
            let next = advanced(run, LoopReport::Reason(Some(reason)));
            &&& next.reason == Some(reason)
            &&& run.step == LoopStep::CheckCancellation ==> next.step == LoopStep::PublishTerminate
                && next.cancelled
            &&& run.step != LoopStep::CheckCancellation ==> next.step
                == LoopStep::PreTerminationHooks && next.cancelled == run.cancelled
        }),
{
}

/// An execution that ends the loop ends it at once, for its reason, and one that does not leads to the
/// look at its output.
pub proof fn law_executions_end_the_loop_for_their_reason(
    run: LoopRun,
    termination: Option<TerminationReason>,
    mentions_emit: bool,
    promised: bool,
)
    requires
        run.step == LoopStep::Execute,
    ensures
        ({
            let next = advanced(run, LoopReport::Executed { termination, mentions_emit, promised });
            &&& termination is Some ==> next.step == LoopStep::PreTerminationHooks && next.reason
                == termination
            &&& termination is None ==> next.step == LoopStep::ProcessOutput && next.reason
                == run.reason
            &&& next.mentions_emit == mentions_emit
            &&& next.promised == promised
            &&& next.late_reason is None
        }),
{
}

/// A reason that late events bring ends the loop: at once where no hat has anything to do, and behind
/// the look for a cancellation where the output mentions an event. In between only waves are run.
#[verifier::spinoff_prover]
#[verifier::rlimit(40)]
pub proof fn law_late_reasons_end_the_loop(run: LoopRun, reason: TerminationReason)
    requires
        run.step == LoopStep::RecoverLate || run.step == LoopStep::RecoverEmit,
    ensures
        ({
            let late = LoopReport::Late(Some(LateEventRecovery::Terminate(reason)));
            let next = advanced(run, late);
            let before_check = if run.waves {
                advanced(next, LoopReport::Done)
            } else {
                next
            };
            let ended = advanced(before_check, LoopReport::Reason(None));
            &&& run.step == LoopStep::RecoverLate ==> next.step == LoopStep::PreTerminationHooks
                && next.reason == Some(reason)
            &&& run.step == LoopStep::RecoverEmit && run.waves ==> next.step == LoopStep::RunWaves
            &&& run.step == LoopStep::RecoverEmit ==> {
                &&& next.agent_wrote_events
                &&& before_check.step == LoopStep::CheckCancellation
                &&& ended.step == LoopStep::PreTerminationHooks
                &&& ended.reason == Some(reason)
            }
        }),
{
}

/// An interrupt is acted on wherever it is noticed: the processes of the group end, and then the loop
/// does, for that reason. The user is not waited for.
pub proof fn law_interrupts_end_the_loop(run: LoopRun)
    requires
        run.step == LoopStep::CheckInterrupt || run.step == LoopStep::Execute,
    ensures
        ({
            let report = if run.step == LoopStep::Execute {
                LoopReport::Interrupted
            } else {
                LoopReport::Answer(true)
            };
            let killed = advanced(run, report);
            let closing = advanced(killed, LoopReport::Done);
            &&& killed.step == LoopStep::KillGroup
            &&& killed.interrupted
            &&& closing.step == LoopStep::PreTerminationHooks
            &&& closing.interrupted
            &&& closing.reason == Some(TerminationReason::Interrupted)
        }),
{
}

/// A loop ends for no other reason than those that are told: one that a look or an execution finds,
/// one that a suspension ends with, one that late events bring, an interrupt, a fallback event that
/// cannot be injected or is one too many, or the promise in the output of an agent without events.
#[verifier::spinoff_prover]
#[verifier::rlimit(40)]
pub proof fn law_loops_end_for_a_reason_that_is_told(run: LoopRun, report: LoopReport)
    requires
        run.reason is None,
        advanced(run, report).reason is Some,
    ensures
        ({
            let reason = advanced(run, report).reason->0;
            match report {
                LoopReport::Reason(Some(told)) => reason == told,
                LoopReport::Hooks(HookGate::Ending(told)) => reason == told,
                LoopReport::Late(Some(LateEventRecovery::Terminate(told))) => reason == told,
                LoopReport::Executed { termination, .. } => termination == Some(reason),
                LoopReport::Interrupted => reason == TerminationReason::Interrupted && run.step
                    == LoopStep::Execute,
                LoopReport::Answer(true) => reason == TerminationReason::Interrupted && run.step
                    == LoopStep::CheckInterrupt,
                LoopReport::Answer(false) => reason == TerminationReason::Stopped && run.step
                    == LoopStep::InjectFallback,
                LoopReport::Late(_) => reason == TerminationReason::Stopped && run.step
                    == LoopStep::RecoverLate && run.fallbacks >= 3,
                LoopReport::Reason(None) => if run.step == LoopStep::CheckCancellation {
                    run.late_reason == Some(reason)
                } else {
                    run.step == LoopStep::CheckCompletion && reason
                        == TerminationReason::CompletionPromise && run.promised
                        && !run.agent_wrote_events
                },
                _ => false,
            }
        }),
{
}

/// A look that finds no reason lets the loop go on: with the pending events, with the plans that an
/// output may have brought, and with the look for a completion, unless late events brought a reason.
pub proof fn law_loops_go_on_without_a_reason(run: LoopRun)
    ensures
        ({
            let next = advanced(run, LoopReport::Reason(None));
            &&& run.step == LoopStep::CheckTermination ==> next.step == LoopStep::CheckPending
                && next.reason == run.reason
            &&& run.step == LoopStep::ProcessOutput ==> next.step == LoopStep::CheckPlan
                && next.reason == run.reason
            &&& run.step == LoopStep::CheckCancellation && run.late_reason is None ==> next.step
                == LoopStep::CheckCompletion && next.reason == run.reason && next.cancelled
                == run.cancelled
        }),
{
}

/// Without a completion the promise in the output ends the loop, where the agent wrote no events. Else
/// the next round begins, behind the cooldown where there is one, which pending events of a human skip.
pub proof fn law_rounds_follow_each_other(run: LoopRun, human: bool)
    requires
        run.step == LoopStep::CheckCompletion,
    ensures
        ({
            let next = advanced(run, LoopReport::Reason(None));
            let answered = advanced(next, LoopReport::Answer(human));
            let ends = run.promised && !run.agent_wrote_events;
            &&& ends ==> next.step == LoopStep::PreTerminationHooks && next.reason == Some(
                TerminationReason::CompletionPromise,
            )
            &&& !ends && !run.cooldown ==> next.step == LoopStep::CheckInterrupt
            &&& !ends && run.cooldown ==> next.step == LoopStep::CheckCooldown
            &&& !ends && run.cooldown && human ==> answered.step == LoopStep::CheckInterrupt
            &&& !ends && run.cooldown && !human ==> answered.step == LoopStep::Cooldown && advanced(
                answered,
                LoopReport::Done,
            ).step == LoopStep::CheckInterrupt
            &&& !ends ==> next.reason == run.reason
            &&& !ends && run.cooldown ==> answered.reason == run.reason
        }),
{
}

// ---- hooks ----

/// A blocking hook fails the loop, at whatever phase-event it is.
pub proof fn law_blocking_hooks_fail_the_loop(run: LoopRun)
    requires
        run.step == LoopStep::PreLoopStartHooks || run.step == LoopStep::PostLoopStartHooks
            || run.step == LoopStep::PreIterationHooks || run.step == LoopStep::PostIterationHooks
            || run.step == LoopStep::PrePlanHooks || run.step == LoopStep::PostPlanHooks || run.step
            == LoopStep::PreHumanHooks || run.step == LoopStep::PostHumanHooks || run.step
            == LoopStep::PreTerminationHooks || run.step == LoopStep::PostTerminationHooks,
    ensures
        advanced(run, LoopReport::Hooks(HookGate::Blocked)).step == LoopStep::Failed,
        advanced(run, LoopReport::Hooks(HookGate::Blocked)).reason == run.reason,
{
}

/// A suspension that ends with a reason ends the loop for it. At the start of a loop that comes behind
/// its set-up, during an iteration at once, and at the end of a loop the reason changes and the end
/// goes on.
pub proof fn law_suspensions_end_the_loop_for_their_reason(run: LoopRun, reason: TerminationReason)
    ensures
        ({
            let next = advanced(run, LoopReport::Hooks(HookGate::Ending(reason)));
            &&& run.step == LoopStep::PreLoopStartHooks || run.step == LoopStep::PostLoopStartHooks
                ==> {
                &&& next.step == LoopStep::SetUp
                &&& next.reason == Some(reason)
                &&& advanced(next, LoopReport::Done).step == LoopStep::PreTerminationHooks
                &&& advanced(next, LoopReport::Done).reason == Some(reason)
            }
            &&& run.step == LoopStep::PreIterationHooks || run.step == LoopStep::PostIterationHooks
                || run.step == LoopStep::PrePlanHooks || run.step == LoopStep::PostPlanHooks
                || run.step == LoopStep::PreHumanHooks || run.step == LoopStep::PostHumanHooks
                ==> next.step == LoopStep::PreTerminationHooks && next.reason == Some(reason)
            &&& run.step == LoopStep::PreTerminationHooks ==> next.step
                == LoopStep::PublishTerminate && next.reason == Some(reason)
            &&& run.step == LoopStep::PostTerminationHooks ==> next.step
                == LoopStep::HandleTermination && next.reason == Some(reason)
        }),
{
}

/// Hooks that let the loop go on change nothing but the step, and the step that they were before
/// follows them.
pub proof fn law_open_hooks_let_the_loop_go_on(run: LoopRun)
    ensures
        ({
            let next = advanced(run, LoopReport::Hooks(HookGate::Open));
            &&& next == (LoopRun { step: next.step, ..run })
            &&& run.step == LoopStep::PreLoopStartHooks ==> next.step == LoopStep::Initialize
            &&& run.step == LoopStep::PostLoopStartHooks ==> next.step == LoopStep::SetUp
            &&& run.step == LoopStep::PreIterationHooks ==> next.step == LoopStep::NextHat
            &&& run.step == LoopStep::PostIterationHooks ==> next.step == LoopStep::BuildPrompt
            &&& run.step == LoopStep::PrePlanHooks ==> next.step == LoopStep::CheckHuman
            &&& run.step == LoopStep::PreHumanHooks ==> next.step == LoopStep::ReadEvents
            &&& run.step == LoopStep::PreTerminationHooks ==> next.step
                == LoopStep::PublishTerminate
            &&& run.step == LoopStep::PostTerminationHooks ==> next.step
                == LoopStep::HandleTermination
        }),
{
}

/// Plans and questions to a human that are there before events are read have their hooks dispatched
/// before, plans first, and then the events are read.
pub proof fn law_hooks_come_before_the_events(run: LoopRun)
    ensures
        run.step == LoopStep::CheckPlan ==> advanced(run, LoopReport::Answer(true)) == (LoopRun {
            step: LoopStep::PrePlanHooks,
            ..run
        }),
        run.step == LoopStep::CheckPlan ==> advanced(run, LoopReport::Answer(false)) == (LoopRun {
            step: LoopStep::CheckHuman,
            ..run
        }),
        run.step == LoopStep::CheckHuman ==> advanced(run, LoopReport::Answer(true)) == (LoopRun {
            step: LoopStep::PreHumanHooks,
            ..run
        }),
        run.step == LoopStep::CheckHuman ==> advanced(run, LoopReport::Answer(false)) == (LoopRun {
            step: LoopStep::ReadEvents,
            ..run
        }),
{
}

// ---- events ----

/// What is told of new events is kept for the rest of the iteration, and nothing else changes but the
/// step.
pub proof fn law_events_are_remembered(run: LoopRun, any: bool, plan: bool, human: bool, waves: bool)
    requires
        run.step == LoopStep::ReadEvents,
    ensures
        ({
            let next = advanced(run, LoopReport::Events { any, plan, human, waves });
            next == (LoopRun {
                step: next.step,
                agent_wrote_events: any,
                plan,
                waves,
                ..run
            })
        }),
{
}

/// The hooks behind questions to a human come first, then those behind plans. Then, where the agent
/// wrote nothing though its output mentions an event, that event is waited for.
#[verifier::spinoff_prover]
#[verifier::rlimit(40)]
pub proof fn law_hooks_follow_the_events(
    run: LoopRun,
    any: bool,
    plan: bool,
    human: bool,
    waves: bool,
)
    requires
        run.step == LoopStep::ReadEvents,
    ensures
        ({
            let read = advanced(run, LoopReport::Events { any, plan, human, waves });
            let asked = if human {
                advanced(read, LoopReport::Hooks(HookGate::Open))
            } else {
                read
            };
            let planned = if plan {
                advanced(asked, LoopReport::Hooks(HookGate::Open))
            } else {
                asked
            };
            &&& human ==> read.step == LoopStep::PostHumanHooks
            &&& plan ==> asked.step == LoopStep::PostPlanHooks
            &&& !any && run.mentions_emit ==> planned.step == LoopStep::RecoverEmit
            &&& any || !run.mentions_emit ==> planned.step == (if waves {
                LoopStep::RunWaves
            } else if any {
                LoopStep::CheckCancellation
            } else {
                LoopStep::DefaultPublishes
            })
        }),
{
}

/// Waves are run wherever there are any, and default events are published only where the agent wrote
/// nothing at all: neither when its events were read nor late, and no waves. Either way a cancellation
/// is looked for next.
pub proof fn law_silent_agents_get_default_events(
    run: LoopRun,
    recovery: Option<LateEventRecovery>,
)
    requires
        run.step == LoopStep::RecoverEmit,
    ensures
        ({
            let next = advanced(run, LoopReport::Late(recovery));
            let late = recovery is Some && recovery != Some(LateEventRecovery::NoLateEvents);
            &&& next.agent_wrote_events == (run.agent_wrote_events || late)
            &&& run.waves ==> next.step == LoopStep::RunWaves
            &&& !run.waves && (run.agent_wrote_events || late) ==> next.step
                == LoopStep::CheckCancellation
            &&& !run.waves && !run.agent_wrote_events && !late ==> next.step
                == LoopStep::DefaultPublishes
            &&& next.step != LoopStep::CheckCancellation ==> advanced(next, LoopReport::Done).step
                == LoopStep::CheckCancellation
            &&& !late ==> next.late_reason == run.late_reason
            &&& recovery == Some(LateEventRecovery::PendingWork) ==> next.late_reason
                == run.late_reason
        }),
{
}

/// Default events are published only where the agent wrote no events and no waves.
#[verifier::spinoff_prover]
#[verifier::rlimit(40)]
pub proof fn law_defaults_need_silence(run: LoopRun, report: LoopReport)
    requires
        run.step != LoopStep::DefaultPublishes,
        advanced(run, report).step == LoopStep::DefaultPublishes,
    ensures
        !advanced(run, report).agent_wrote_events,
        !advanced(run, report).waves,
{
}

/// A prompt is executed only where one was built, and one is built only for a hat that was selected,
/// behind the hooks of the iteration.
#[verifier::spinoff_prover]
#[verifier::rlimit(40)]
pub proof fn law_prompts_are_built_before_they_are_executed(run: LoopRun, report: LoopReport)
    ensures
        run.step != LoopStep::Execute && advanced(run, report).step == LoopStep::Execute
            ==> run.step == LoopStep::BuildPrompt && report == LoopReport::Answer(true),
        run.step != LoopStep::BuildPrompt && advanced(run, report).step == LoopStep::BuildPrompt
            ==> run.step == LoopStep::PostIterationHooks && report == LoopReport::Hooks(
            HookGate::Open,
        ),
        run.step != LoopStep::PostIterationHooks && advanced(run, report).step
            == LoopStep::PostIterationHooks ==> run.step == LoopStep::NextHat && report
            == LoopReport::Answer(true),
        run.step != LoopStep::CheckPending && advanced(run, report).step == LoopStep::CheckPending
            ==> run.step == LoopStep::CheckTermination && report == LoopReport::Reason(None),
        run.step != LoopStep::CheckTermination && advanced(run, report).step
            == LoopStep::CheckTermination ==> run.step == LoopStep::FlushGuidance && report
            == LoopReport::Answer(true),
        run.step != LoopStep::FlushGuidance && advanced(run, report).step
            == LoopStep::FlushGuidance ==> run.step == LoopStep::CheckInterrupt && report
            == LoopReport::Answer(false),
{
}

// ---- rounds ----

/// A round that nothing disturbs leads from the look for an interrupt to the execution of a prompt:
/// guidance is flushed, no reason to end is found, hooks are dispatched where events are pending, a hat
/// is selected, hooks are dispatched again and the prompt is built. Open hooks and the look for a reason
/// have laws of their own.
pub proof fn law_a_round_leads_to_an_execution(run: LoopRun)
    ensures
        run.step == LoopStep::CheckInterrupt ==> advanced(run, LoopReport::Answer(false)) == (LoopRun {
            step: LoopStep::FlushGuidance,
            ..run
        }),
        run.step == LoopStep::FlushGuidance ==> advanced(run, LoopReport::Answer(true)) == (LoopRun {
            step: LoopStep::CheckTermination,
            ..run
        }),
        run.step == LoopStep::CheckPending ==> advanced(run, LoopReport::Answer(true)) == (LoopRun {
            step: LoopStep::PreIterationHooks,
            ..run
        }),
        run.step == LoopStep::CheckPending ==> advanced(run, LoopReport::Answer(false)) == (LoopRun {
            step: LoopStep::NextHat,
            ..run
        }),
        run.step == LoopStep::NextHat ==> advanced(run, LoopReport::Answer(true)) == (LoopRun {
            step: LoopStep::PostIterationHooks,
            fallbacks: 0,
            ..run
        }),
        run.step == LoopStep::BuildPrompt ==> advanced(run, LoopReport::Answer(true)) == (LoopRun {
            step: LoopStep::Execute,
            ..run
        }),
{
}

/// A round that cannot go on begins anew: where guidance cannot be flushed, where a hat has nothing to
/// be asked, and where a fallback event was injected.
pub proof fn law_rounds_begin_anew(run: LoopRun)
    ensures
        run.step == LoopStep::FlushGuidance ==> advanced(run, LoopReport::Answer(false)) == (LoopRun {
            step: LoopStep::CheckInterrupt,
            ..run
        }),
        run.step == LoopStep::BuildPrompt ==> advanced(run, LoopReport::Answer(false)) == (LoopRun {
            step: LoopStep::CheckInterrupt,
            ..run
        }),
        run.step == LoopStep::InjectFallback ==> advanced(run, LoopReport::Answer(true)) == (LoopRun {
            step: LoopStep::CheckInterrupt,
            ..run
        }),
{
}

/// Where no hat has anything to do, late events are waited for.
pub proof fn law_idle_hats_wait_for_late_events(run: LoopRun)
    requires
        run.step == LoopStep::NextHat,
    ensures
        advanced(run, LoopReport::Answer(false)) == (LoopRun { step: LoopStep::RecoverLate, ..run }),
{
}

/// Late work begins a new round and resets the count of fallback events. Without any, a fallback event
/// is injected up to three times in a row; then the loop is stopped.
pub proof fn law_stalled_loops_fall_back_three_times(run: LoopRun)
    requires
        run.step == LoopStep::RecoverLate,
    ensures
        advanced(run, LoopReport::Late(Some(LateEventRecovery::PendingWork))) == (LoopRun {
            step: LoopStep::CheckInterrupt,
            fallbacks: 0,
            ..run
        }),
        run.fallbacks < 3 ==> advanced(run, LoopReport::Late(None)) == (LoopRun {
            step: LoopStep::InjectFallback,
            fallbacks: (run.fallbacks + 1) as u32,
            ..run
        }),
        run.fallbacks >= 3 ==> advanced(run, LoopReport::Late(None)) == (LoopRun {
            step: LoopStep::PreTerminationHooks,
            reason: Some(TerminationReason::Stopped),
            ..run
        }),
        advanced(run, LoopReport::Late(Some(LateEventRecovery::NoLateEvents))) == advanced(
            run,
            LoopReport::Late(None),
        ),
{
}

/// A loop whose fallback event cannot be injected is stopped.
pub proof fn law_loops_stop_without_a_fallback(run: LoopRun)
    requires
        run.step == LoopStep::InjectFallback,
    ensures
        advanced(run, LoopReport::Answer(false)) == (LoopRun {
            step: LoopStep::PreTerminationHooks,
            reason: Some(TerminationReason::Stopped),
            ..run
        }),
{
}

// ---- start and end ----

/// A loop starts with hooks, its start event, hooks again and its set-up, and then goes into its first
/// round, without any reason to end.
pub proof fn law_loops_start_with_their_event(cooldown: bool)
    ensures
        ({
            let first = first_run(cooldown);
            let initializing = advanced(first, LoopReport::Hooks(HookGate::Open));
            let hooking = advanced(initializing, LoopReport::Done);
            let setting_up = advanced(hooking, LoopReport::Hooks(HookGate::Open));
            let running = advanced(setting_up, LoopReport::Done);
            &&& first.step == LoopStep::PreLoopStartHooks
            &&& initializing.step == LoopStep::Initialize
            &&& hooking.step == LoopStep::PostLoopStartHooks
            &&& setting_up.step == LoopStep::SetUp
            &&& running.step == LoopStep::CheckInterrupt
            &&& running.reason is None
            &&& running.late_reason is None
            &&& running.fallbacks == 0
            &&& running.cooldown == cooldown
            &&& !running.interrupted && !running.cancelled
            &&& !running.agent_wrote_events && !running.promised && !running.mentions_emit
        }),
{
}

/// A loop that closes down publishes its end between the hooks before and after it, handles it, and
/// finishes, for the reason that it had. After an interrupt the interface is told to exit, and else the
/// user is waited for.
#[verifier::spinoff_prover]
#[verifier::rlimit(40)]
pub proof fn law_loops_finish_for_their_reason(run: LoopRun)
    requires
        run.step == LoopStep::PreTerminationHooks,
        !run.cancelled,
    ensures
        ({
            let publishing = advanced(run, LoopReport::Hooks(HookGate::Open));
            let published = advanced(publishing, LoopReport::Done);
            let handling = advanced(published, LoopReport::Hooks(HookGate::Open));
            let handled = advanced(handling, LoopReport::Done);
            let finished = advanced(handled, LoopReport::Done);
            &&& publishing.step == LoopStep::PublishTerminate
            &&& published.step == LoopStep::PostTerminationHooks
            &&& handling.step == LoopStep::HandleTermination
            &&& handled.step == (if run.interrupted {
                LoopStep::SignalInterface
            } else {
                LoopStep::AwaitInterface
            })
            &&& finished == (LoopRun { step: LoopStep::Finished, ..run })
        }),
{
}

/// A failure ends the loop wherever it comes, and a loop that is over stays over.
pub proof fn law_ended_loops_stay_ended(run: LoopRun, report: LoopReport)
    ensures
        run.step != LoopStep::Finished ==> advanced(run, LoopReport::Failed).step
            == LoopStep::Failed,
        run.step == LoopStep::Finished ==> advanced(run, report) == run,
        run.step == LoopStep::Failed ==> advanced(run, report) == run,
{
}

/// Whether a report is one that a step can have.
pub open spec fn fits(step: LoopStep, report: LoopReport) -> bool {
    match report {
        LoopReport::Done => step == LoopStep::Initialize || step == LoopStep::SetUp || step
            == LoopStep::RunWaves || step == LoopStep::DefaultPublishes || step
            == LoopStep::Cooldown || step == LoopStep::KillGroup || step
            == LoopStep::PublishTerminate || step == LoopStep::HandleTermination || step
            == LoopStep::SignalInterface || step == LoopStep::AwaitInterface,
        LoopReport::Failed => true,
        LoopReport::Hooks(_) => step == LoopStep::PreLoopStartHooks || step
            == LoopStep::PostLoopStartHooks || step == LoopStep::PreIterationHooks || step
            == LoopStep::PostIterationHooks || step == LoopStep::PrePlanHooks || step
            == LoopStep::PostPlanHooks || step == LoopStep::PreHumanHooks || step
            == LoopStep::PostHumanHooks || step == LoopStep::PreTerminationHooks || step
            == LoopStep::PostTerminationHooks,
        LoopReport::Answer(_) => step == LoopStep::CheckInterrupt || step == LoopStep::FlushGuidance
            || step == LoopStep::CheckPending || step == LoopStep::NextHat || step
            == LoopStep::InjectFallback || step == LoopStep::BuildPrompt || step
            == LoopStep::CheckPlan || step == LoopStep::CheckHuman || step
            == LoopStep::CheckCooldown,
        LoopReport::Reason(_) => step == LoopStep::CheckTermination || step
            == LoopStep::ProcessOutput || step == LoopStep::CheckCancellation || step
            == LoopStep::CheckCompletion,
        LoopReport::Late(_) => step == LoopStep::RecoverLate || step == LoopStep::RecoverEmit,
        LoopReport::Interrupted => step == LoopStep::Execute,
        LoopReport::Executed { .. } => step == LoopStep::Execute,
        LoopReport::Events { .. } => step == LoopStep::ReadEvents,
    }
}

/// A report that a step cannot have changes nothing, and one that it can have leads to another step
/// unless the loop is over.
#[verifier::spinoff_prover]
#[verifier::rlimit(40)]
pub proof fn law_only_fitting_reports_count(run: LoopRun, report: LoopReport)
    ensures
        !fits(run.step, report) ==> advanced(run, report) == run,
        fits(run.step, report) && run.step != LoopStep::Finished && run.step != LoopStep::Failed
            ==> advanced(run, report).step != run.step,
{
}

/// What a loop remembers of itself changes only where it is told: the cooldown never, and a
/// cancellation and an interrupt only by being noticed and never back. A reason is never forgotten.
#[verifier::spinoff_prover]
#[verifier::rlimit(40)]
pub proof fn law_loops_remember_their_end(run: LoopRun, report: LoopReport)
    ensures
        advanced(run, report).cooldown == run.cooldown,
        advanced(run, report).cancelled == (run.cancelled || run.step == LoopStep::CheckCancellation
            && (report matches LoopReport::Reason(Some(_)))),
        advanced(run, report).interrupted == (run.interrupted || run.step
            == LoopStep::CheckInterrupt && report == LoopReport::Answer(true) || run.step
            == LoopStep::Execute && report == LoopReport::Interrupted),
        run.reason is Some ==> advanced(run, report).reason is Some,
{
}

/// Whether a run knows the same of its iteration as the one before it, but for what its step tells: the
/// count of fallback events where a hat is selected, what an output holds by an execution, and what
/// events there are by reading them.
pub open spec fn keeps_iteration(run: LoopRun, next: LoopRun) -> bool {
    &&& run.step != LoopStep::NextHat && run.step != LoopStep::RecoverLate ==> next.fallbacks
        == run.fallbacks
    &&& run.step != LoopStep::Execute ==> next.mentions_emit == run.mentions_emit && next.promised
        == run.promised
    &&& run.step != LoopStep::ReadEvents ==> next.plan == run.plan && next.waves == run.waves
    &&& run.step != LoopStep::ReadEvents && run.step != LoopStep::RecoverEmit
        ==> next.agent_wrote_events == run.agent_wrote_events
    &&& run.step != LoopStep::Execute && run.step != LoopStep::RecoverEmit ==> next.late_reason
        == run.late_reason
}

proof fn lemma_hooks_keep_iteration(run: LoopRun, gate: HookGate)
    ensures
        keeps_iteration(run, after_hooks(run, gate)),
{
}

proof fn lemma_answers_keep_iteration(run: LoopRun, yes: bool)
    ensures
        keeps_iteration(run, after_answer(run, yes)),
{
}

proof fn lemma_reasons_keep_iteration(run: LoopRun, reason: Option<TerminationReason>)
    ensures
        keeps_iteration(run, after_reason(run, reason)),
{
}

proof fn lemma_polling_keeps_iteration(run: LoopRun, recovery: Option<LateEventRecovery>)
    ensures
        keeps_iteration(run, after_polling(run, recovery)),
{
}

proof fn lemma_steps_keep_iteration(run: LoopRun)
    ensures
        keeps_iteration(run, after_done(run)),
{
}

/// What a loop knows of its iteration changes only where it is told.
pub proof fn law_loops_remember_their_iteration(run: LoopRun, report: LoopReport)
    ensures
        keeps_iteration(run, advanced(run, report)),
{
    match report {
        LoopReport::Done => lemma_steps_keep_iteration(run),
        LoopReport::Hooks(gate) => lemma_hooks_keep_iteration(run, gate),
        LoopReport::Answer(yes) => lemma_answers_keep_iteration(run, yes),
        LoopReport::Reason(reason) => lemma_reasons_keep_iteration(run, reason),
        LoopReport::Late(recovery) => lemma_polling_keeps_iteration(run, recovery),
        _ => {},
    }
}

/// A reason that a look found is the one that the loop finishes for, where no hook stands in the way:
/// from the first report on, whatever came before.
pub proof fn law_found_reasons_are_finished_for(
    cooldown: bool,
    reports: Seq<LoopReport>,
    reason: TerminationReason,
)
    requires
        run_of(cooldown, reports).step == LoopStep::CheckTermination || run_of(
            cooldown,
            reports,
        ).step == LoopStep::ProcessOutput || run_of(cooldown, reports).step
            == LoopStep::CheckCompletion,
        !run_of(cooldown, reports).cancelled,
    ensures
        ({
            let told = reports.push(LoopReport::Reason(Some(reason))).push(
                LoopReport::Hooks(HookGate::Open),
            ).push(LoopReport::Done).push(LoopReport::Hooks(HookGate::Open)).push(
                LoopReport::Done,
            ).push(LoopReport::Done);
            &&& run_of(cooldown, told).step == LoopStep::Finished
            &&& run_of(cooldown, told).reason == Some(reason)
        }),
{
    let run = run_of(cooldown, reports);
    let r1 = reports.push(LoopReport::Reason(Some(reason)));
    let r2 = r1.push(LoopReport::Hooks(HookGate::Open));
    let r3 = r2.push(LoopReport::Done);
    let r4 = r3.push(LoopReport::Hooks(HookGate::Open));
    let r5 = r4.push(LoopReport::Done);
    let r6 = r5.push(LoopReport::Done);
    assert(r1.drop_last() == reports);
    assert(r2.drop_last() == r1);
    assert(r3.drop_last() == r2);
    assert(r4.drop_last() == r3);
    assert(r5.drop_last() == r4);
    assert(r6.drop_last() == r5);
    assert(run_of(cooldown, r1) == advanced(run, LoopReport::Reason(Some(reason))));
    assert(run_of(cooldown, r2) == advanced(
        run_of(cooldown, r1),
        LoopReport::Hooks(HookGate::Open),
    ));
    assert(run_of(cooldown, r3) == advanced(run_of(cooldown, r2), LoopReport::Done));
    assert(run_of(cooldown, r4) == advanced(
        run_of(cooldown, r3),
        LoopReport::Hooks(HookGate::Open),
    ));
    assert(run_of(cooldown, r5) == advanced(run_of(cooldown, r4), LoopReport::Done));
    assert(run_of(cooldown, r6) == advanced(run_of(cooldown, r5), LoopReport::Done));
    law_reasons_are_never_lost(run, reason);
    law_loops_finish_for_their_reason(run_of(cooldown, r1));
}

} // verus!
