//! The steps of an orchestration loop.
//!
//! A [`LoopRun`] says what is to be done next, and takes in what came of it. The steps of one
//! iteration stand in [`LoopStep`] in the order in which they come up.
use crate::loop_runner::late_events::LateEventRecovery;
use crate::loop_runner::termination::TerminationReason;
use vstd::prelude::*;

verus! {

/// Fallback events that are injected one after the other before a loop gives up.
pub const MAX_FALLBACK_ATTEMPTS: u32 = 3;

/// What is to be done next in a loop.
#[derive(Debug, Clone, Copy, PartialEq, Eq, Structural)]
pub enum LoopStep {
    /// Dispatch the hooks before the start of the loop.
    PreLoopStartHooks,
    /// Publish the start event.
    Initialize,
    /// Dispatch the hooks after the start of the loop.
    PostLoopStartHooks,
    /// Set up recording, backend, interfaces and signal handlers.
    SetUp,
    /// Look for an interrupt.
    CheckInterrupt,
    /// Write guidance of the user to the events file.
    FlushGuidance,
    /// Look for a reason to end.
    CheckTermination,
    /// Look for pending events.
    CheckPending,
    /// Dispatch the hooks before the start of an iteration.
    PreIterationHooks,
    /// Select the next hat.
    NextHat,
    /// Poll for late events, as no hat has anything to do.
    RecoverLate,
    /// Inject a fallback event.
    InjectFallback,
    /// Dispatch the hooks after the start of an iteration.
    PostIterationHooks,
    /// Build the prompt.
    BuildPrompt,
    /// Execute the prompt, looking for an interrupt.
    Execute,
    /// Process the output.
    ProcessOutput,
    /// Look for unread plan events.
    CheckPlan,
    /// Dispatch the hooks before a plan is created.
    PrePlanHooks,
    /// Look for an unread question to a human.
    CheckHuman,
    /// Dispatch the hooks before a question to a human.
    PreHumanHooks,
    /// Read new events.
    ReadEvents,
    /// Dispatch the hooks after a question to a human.
    PostHumanHooks,
    /// Dispatch the hooks after a plan was created.
    PostPlanHooks,
    /// Poll for events that the output mentions.
    RecoverEmit,
    /// Run the workers of wave events.
    RunWaves,
    /// Publish the default events of the active hats.
    DefaultPublishes,
    /// Look for a cancellation.
    CheckCancellation,
    /// Look for a completion.
    CheckCompletion,
    /// Look for pending events of a human, which skip the cooldown.
    CheckCooldown,
    /// Sleep before the next iteration.
    Cooldown,
    /// Signal the processes of the group to end.
    KillGroup,
    /// Dispatch the hooks before the end of the loop.
    PreTerminationHooks,
    /// Publish and log that the loop ends.
    PublishTerminate,
    /// Dispatch the hooks after the end of the loop.
    PostTerminationHooks,
    /// Record and tell that the loop has ended.
    HandleTermination,
    /// Tell the terminal interface to exit.
    SignalInterface,
    /// Wait until the user leaves the terminal interface.
    AwaitInterface,
    /// Nothing: the loop has ended, for the reason that the run holds.
    Finished,
    /// Nothing: the loop has failed.
    Failed,
}

/// What came of dispatching hooks.
#[derive(Debug, Clone, Copy, PartialEq, Eq, Structural)]
pub enum HookGate {
    /// A hook blocks.
    Blocked,
    /// The loop goes on.
    Open,
    /// A suspension ended with a reason to end the loop.
    Ending(TerminationReason),
}

/// What came of a [`LoopStep`].
#[derive(Debug, Clone, Copy, PartialEq, Eq, Structural)]
pub enum LoopReport {
    Done,
    /// The step failed in a way that ends the loop at once.
    Failed,
    Hooks(HookGate),
    /// The answer of a step that looks for something or can succeed.
    Answer(bool),
    /// The reason to end, where there is one.
    Reason(Option<TerminationReason>),
    /// What came of polling, where it did not fail.
    Late(Option<LateEventRecovery>),
    /// The execution was interrupted.
    Interrupted,
    /// The prompt was executed.
    Executed {
        termination: Option<TerminationReason>,
        /// Whether the output mentions an emitted event.
        mentions_emit: bool,
        /// Whether the output holds the completion promise.
        promised: bool,
    },
    /// What new events are about; nothing where they could not be read.
    Events { any: bool, plan: bool, human: bool, waves: bool },
}

/// A loop between two steps.
#[derive(Debug, Clone, Copy, PartialEq, Eq, Structural)]
pub struct LoopRun {
    pub step: LoopStep,
    /// Why the loop ends, as soon as it does.
    pub reason: Option<TerminationReason>,
    /// Fallback events since a hat had something to do.
    pub fallbacks: u32,
    /// Whether a cooldown between iterations is configured.
    pub cooldown: bool,
    /// Whether the end is due to an interrupt.
    pub interrupted: bool,
    /// Whether the end is due to a cancellation.
    pub cancelled: bool,
    /// Whether the agent wrote events in this iteration.
    pub agent_wrote_events: bool,
    /// The reason to end that late events of this iteration brought.
    pub late_reason: Option<TerminationReason>,
    pub mentions_emit: bool,
    pub promised: bool,
    pub plan: bool,
    pub waves: bool,
}

/// A run that ends for a reason, with all that comes before and after the end.
pub open spec fn ending(run: LoopRun, reason: TerminationReason) -> LoopRun {
    LoopRun { step: LoopStep::PreTerminationHooks, reason: Some(reason), ..run }
}

/// A run that goes on with a step.
pub open spec fn going_on(run: LoopRun, step: LoopStep) -> LoopRun {
    LoopRun { step, ..run }
}

/// A run that ends for a reason, or goes on with a step where there is none.
pub open spec fn ending_or(run: LoopRun, reason: Option<TerminationReason>, step: LoopStep) -> LoopRun {
    match reason {
        Some(reason) => ending(run, reason),
        None => going_on(run, step),
    }
}

/// A run after the hooks of an iteration.
pub open spec fn gated(run: LoopRun, gate: HookGate, step: LoopStep) -> LoopRun {
    match gate {
        HookGate::Blocked => going_on(run, LoopStep::Failed),
        HookGate::Open => going_on(run, step),
        HookGate::Ending(reason) => ending(run, reason),
    }
}

/// A run that was interrupted.
pub open spec fn broken_off(run: LoopRun) -> LoopRun {
    LoopRun {
        step: LoopStep::KillGroup,
        reason: Some(TerminationReason::Interrupted),
        interrupted: true,
        ..run
    }
}

/// A run after its events were seen to.
pub open spec fn after_emit(run: LoopRun) -> LoopRun {
    going_on(
        run,
        if run.waves {
            LoopStep::RunWaves
        } else if !run.agent_wrote_events {
            LoopStep::DefaultPublishes
        } else {
            LoopStep::CheckCancellation
        },
    )
}

/// A run after the hooks on the events that were read.
pub open spec fn after_events(run: LoopRun) -> LoopRun {
    if !run.agent_wrote_events && run.mentions_emit {
        going_on(run, LoopStep::RecoverEmit)
    } else {
        after_emit(run)
    }
}

/// A run after the hooks on questions to a human.
pub open spec fn after_human(run: LoopRun) -> LoopRun {
    if run.plan {
        going_on(run, LoopStep::PostPlanHooks)
    } else {
        after_events(run)
    }
}

/// A run after hooks around its start: it is set up before it ends.
pub open spec fn started(run: LoopRun, gate: HookGate, step: LoopStep) -> LoopRun {
    match gate {
        HookGate::Blocked => going_on(run, LoopStep::Failed),
        HookGate::Open => going_on(run, step),
        HookGate::Ending(reason) => LoopRun {
            step: LoopStep::SetUp,
            reason: Some(reason),
            ..run
        },
    }
}

/// A run after hooks around its end, whose suspension may change the reason.
pub open spec fn ended(run: LoopRun, gate: HookGate, step: LoopStep) -> LoopRun {
    match gate {
        HookGate::Blocked => going_on(run, LoopStep::Failed),
        HookGate::Open => going_on(run, step),
        HookGate::Ending(reason) => LoopRun { step, reason: Some(reason), ..run },
    }
}

/// A run without late events: one more fallback event, or the end where there were too many.
pub open spec fn falling_back(run: LoopRun) -> LoopRun {
    if run.fallbacks >= MAX_FALLBACK_ATTEMPTS {
        ending(run, TerminationReason::Stopped)
    } else {
        LoopRun { step: LoopStep::InjectFallback, fallbacks: (run.fallbacks + 1) as u32, ..run }
    }
}

/// A run without a completion: the promise in the output counts where the agent wrote no events.
pub open spec fn uncompleted(run: LoopRun) -> LoopRun {
    if !run.agent_wrote_events && run.promised {
        ending(run, TerminationReason::CompletionPromise)
    } else if run.cooldown {
        going_on(run, LoopStep::CheckCooldown)
    } else {
        going_on(run, LoopStep::CheckInterrupt)
    }
}

/// The run after its step was done.
pub open spec fn after_done(run: LoopRun) -> LoopRun {
    match run.step {
        LoopStep::Initialize => going_on(run, LoopStep::PostLoopStartHooks),
        LoopStep::SetUp => ending_or(run, run.reason, LoopStep::CheckInterrupt),
        LoopStep::RunWaves => going_on(run, LoopStep::CheckCancellation),
        LoopStep::DefaultPublishes => going_on(run, LoopStep::CheckCancellation),
        LoopStep::Cooldown => going_on(run, LoopStep::CheckInterrupt),
        LoopStep::KillGroup => going_on(run, LoopStep::PreTerminationHooks),
        LoopStep::PublishTerminate => going_on(
            run,
            if run.cancelled {
                LoopStep::HandleTermination
            } else {
                LoopStep::PostTerminationHooks
            },
        ),
        LoopStep::HandleTermination => going_on(
            run,
            if run.interrupted {
                LoopStep::SignalInterface
            } else {
                LoopStep::AwaitInterface
            },
        ),
        LoopStep::SignalInterface => going_on(run, LoopStep::Finished),
        LoopStep::AwaitInterface => going_on(run, LoopStep::Finished),
        _ => run,
    }
}

/// The run after hooks were dispatched. A suspension at the start of the loop lets it be set up
/// before it ends; one around the end of the loop changes the reason.
pub open spec fn after_hooks(run: LoopRun, gate: HookGate) -> LoopRun {
    match run.step {
        LoopStep::PreLoopStartHooks => started(run, gate, LoopStep::Initialize),
        LoopStep::PostLoopStartHooks => started(run, gate, LoopStep::SetUp),
        LoopStep::PreIterationHooks => gated(run, gate, LoopStep::NextHat),
        LoopStep::PostIterationHooks => gated(run, gate, LoopStep::BuildPrompt),
        LoopStep::PrePlanHooks => gated(run, gate, LoopStep::CheckHuman),
        LoopStep::PreHumanHooks => gated(run, gate, LoopStep::ReadEvents),
        LoopStep::PostHumanHooks => gated(run, gate, after_human(run).step),
        LoopStep::PostPlanHooks => gated(run, gate, after_events(run).step),
        LoopStep::PreTerminationHooks => ended(run, gate, LoopStep::PublishTerminate),
        LoopStep::PostTerminationHooks => ended(run, gate, LoopStep::HandleTermination),
        _ => run,
    }
}

/// The run after an answer.
pub open spec fn after_answer(run: LoopRun, yes: bool) -> LoopRun {
    match run.step {
        LoopStep::CheckInterrupt => if yes {
            broken_off(run)
        } else {
            going_on(run, LoopStep::FlushGuidance)
        },
        LoopStep::FlushGuidance => going_on(
            run,
            if yes {
                LoopStep::CheckTermination
            } else {
                LoopStep::CheckInterrupt
            },
        ),
        LoopStep::CheckPending => going_on(
            run,
            if yes {
                LoopStep::PreIterationHooks
            } else {
                LoopStep::NextHat
            },
        ),
        LoopStep::NextHat => if yes {
            LoopRun { step: LoopStep::PostIterationHooks, fallbacks: 0, ..run }
        } else {
            going_on(run, LoopStep::RecoverLate)
        },
        LoopStep::InjectFallback => if yes {
            going_on(run, LoopStep::CheckInterrupt)
        } else {
            ending(run, TerminationReason::Stopped)
        },
        LoopStep::BuildPrompt => going_on(
            run,
            if yes {
                LoopStep::Execute
            } else {
                LoopStep::CheckInterrupt
            },
        ),
        LoopStep::CheckPlan => going_on(
            run,
            if yes {
                LoopStep::PrePlanHooks
            } else {
                LoopStep::CheckHuman
            },
        ),
        LoopStep::CheckHuman => going_on(
            run,
            if yes {
                LoopStep::PreHumanHooks
            } else {
                LoopStep::ReadEvents
            },
        ),
        LoopStep::CheckCooldown => going_on(
            run,
            if yes {
                LoopStep::CheckInterrupt
            } else {
                LoopStep::Cooldown
            },
        ),
        _ => run,
    }
}

/// The run after a look for a reason to end. A cancellation skips the hooks before the end; a
/// completion is looked for only where there is neither a cancellation nor a late reason.
pub open spec fn after_reason(run: LoopRun, reason: Option<TerminationReason>) -> LoopRun {
    match run.step {
        LoopStep::CheckTermination => ending_or(run, reason, LoopStep::CheckPending),
        LoopStep::ProcessOutput => ending_or(run, reason, LoopStep::CheckPlan),
        LoopStep::CheckCancellation => match reason {
            Some(reason) => LoopRun {
                step: LoopStep::PublishTerminate,
                reason: Some(reason),
                cancelled: true,
                ..run
            },
            None => ending_or(run, run.late_reason, LoopStep::CheckCompletion),
        },
        LoopStep::CheckCompletion => match reason {
            Some(reason) => ending(run, reason),
            None => uncompleted(run),
        },
        _ => run,
    }
}

/// The run after polling for events.
pub open spec fn after_polling(run: LoopRun, recovery: Option<LateEventRecovery>) -> LoopRun {
    match run.step {
        LoopStep::RecoverLate => match recovery {
            Some(LateEventRecovery::PendingWork) => LoopRun {
                step: LoopStep::CheckInterrupt,
                fallbacks: 0,
                ..run
            },
            Some(LateEventRecovery::Terminate(reason)) => ending(run, reason),
            _ => falling_back(run),
        },
        LoopStep::RecoverEmit => after_emit(
            match recovery {
                Some(LateEventRecovery::PendingWork) => LoopRun { agent_wrote_events: true, ..run },
                Some(LateEventRecovery::Terminate(reason)) => LoopRun {
                    agent_wrote_events: true,
                    late_reason: Some(reason),
                    ..run
                },
                _ => run,
            },
        ),
        _ => run,
    }
}

/// The run after events were read.
pub open spec fn after_read(run: LoopRun, any: bool, plan: bool, human: bool, waves: bool) -> LoopRun {
    let read = LoopRun { agent_wrote_events: any, plan, waves, ..run };
    if human {
        going_on(read, LoopStep::PostHumanHooks)
    } else {
        after_human(read)
    }
}

/// The run after a report. A report that does not belong to the step changes nothing.
pub open spec fn advanced(run: LoopRun, report: LoopReport) -> LoopRun {
    match report {
        LoopReport::Done => after_done(run),
        LoopReport::Failed => if run.step == LoopStep::Finished {
            run
        } else {
            going_on(run, LoopStep::Failed)
        },
        LoopReport::Hooks(gate) => after_hooks(run, gate),
        LoopReport::Answer(yes) => after_answer(run, yes),
        LoopReport::Reason(reason) => after_reason(run, reason),
        LoopReport::Late(recovery) => after_polling(run, recovery),
        LoopReport::Interrupted => if run.step == LoopStep::Execute {
            broken_off(run)
        } else {
            run
        },
        LoopReport::Executed { termination, mentions_emit, promised } => if run.step
            == LoopStep::Execute {
            ending_or(
                LoopRun { mentions_emit, promised, late_reason: None, ..run },
                termination,
                LoopStep::ProcessOutput,
            )
        } else {
            run
        },
        LoopReport::Events { any, plan, human, waves } => if run.step == LoopStep::ReadEvents {
            after_read(run, any, plan, human, waves)
        } else {
            run
        },
    }
}

/// Whether a step belongs to the end of a loop, from the hooks before it on.
pub open spec fn closing_down(step: LoopStep) -> bool {
    match step {
        LoopStep::KillGroup | LoopStep::PreTerminationHooks | LoopStep::PublishTerminate
        | LoopStep::PostTerminationHooks | LoopStep::HandleTermination | LoopStep::SignalInterface
        | LoopStep::AwaitInterface | LoopStep::Finished => true,
        _ => false,
    }
}

/// A loop before its first step.
pub open spec fn first_run(cooldown: bool) -> LoopRun {
    LoopRun {
        step: LoopStep::PreLoopStartHooks,
        reason: None,
        fallbacks: 0,
        cooldown,
        interrupted: false,
        cancelled: false,
        agent_wrote_events: false,
        late_reason: None,
        mentions_emit: false,
        promised: false,
        plan: false,
        waves: false,
    }
}

impl LoopRun {
    /// Whether a run has come about by its steps: no more fallback events than allowed, and a reason
    /// as soon as the loop ends.
    pub open spec fn wf(self) -> bool {
        &&& self.fallbacks <= MAX_FALLBACK_ATTEMPTS
        &&& self.step == LoopStep::InjectFallback ==> self.fallbacks > 0
        &&& closing_down(self.step) ==> self.reason is Some
    }

    /// Begins a loop.
    pub fn new(cooldown: bool) -> (r: LoopRun)
        ensures
            r == first_run(cooldown),
            r.wf(),
    {
        LoopRun {
            step: LoopStep::PreLoopStartHooks,
            reason: None,
            fallbacks: 0,
            cooldown,
            interrupted: false,
            cancelled: false,
            agent_wrote_events: false,
            late_reason: None,
            mentions_emit: false,
            promised: false,
            plan: false,
            waves: false,
        }
    }

    fn go(&mut self, step: LoopStep)
        ensures
            *final(self) == going_on(*old(self), step),
    {
        self.step = step;
    }

    fn end(&mut self, reason: TerminationReason)
        ensures
            *final(self) == ending(*old(self), reason),
    {
        self.reason = Some(reason);
        self.step = LoopStep::PreTerminationHooks;
    }

    fn end_or(&mut self, reason: Option<TerminationReason>, step: LoopStep)
        ensures
            *final(self) == ending_or(*old(self), reason, step),
    {
        match reason {
            Some(reason) => self.end(reason),
            None => self.go(step),
        }
    }

    fn pass(&mut self, gate: HookGate, step: LoopStep)
        ensures
            *final(self) == gated(*old(self), gate, step),
    {
        match gate {
            HookGate::Blocked => self.go(LoopStep::Failed),
            HookGate::Open => self.go(step),
            HookGate::Ending(reason) => self.end(reason),
        }
    }

    fn pass_with_reason(&mut self, gate: HookGate, step: LoopStep, step_with_reason: LoopStep)
        ensures
            *final(self) == (match gate {
                HookGate::Blocked => going_on(*old(self), LoopStep::Failed),
                HookGate::Open => going_on(*old(self), step),
                HookGate::Ending(reason) => LoopRun {
                    step: step_with_reason,
                    reason: Some(reason),
                    ..*old(self)
                },
            }),
    {
        match gate {
            HookGate::Blocked => self.go(LoopStep::Failed),
            HookGate::Open => self.go(step),
            HookGate::Ending(reason) => {
                self.reason = Some(reason);
                self.step = step_with_reason;
            },
        }
    }

    fn break_off(&mut self)
        ensures
            *final(self) == broken_off(*old(self)),
    {
        self.reason = Some(TerminationReason::Interrupted);
        self.interrupted = true;
        self.step = LoopStep::KillGroup;
    }

    fn leave_emit(&mut self)
        ensures
            *final(self) == after_emit(*old(self)),
    {
        if self.waves {
            self.step = LoopStep::RunWaves;
        } else if !self.agent_wrote_events {
            self.step = LoopStep::DefaultPublishes;
        } else {
            self.step = LoopStep::CheckCancellation;
        }
    }

    fn leave_events(&mut self)
        ensures
            *final(self) == after_events(*old(self)),
    {
        if !self.agent_wrote_events && self.mentions_emit {
            self.step = LoopStep::RecoverEmit;
        } else {
            self.leave_emit();
        }
    }

    fn leave_human(&mut self)
        ensures
            *final(self) == after_human(*old(self)),
    {
        if self.plan {
            self.step = LoopStep::PostPlanHooks;
        } else {
            self.leave_events();
        }
    }

    fn recover_late(&mut self, recovery: Option<LateEventRecovery>)
        requires
            old(self).fallbacks <= MAX_FALLBACK_ATTEMPTS,
            old(self).step == LoopStep::RecoverLate,
        ensures
            *final(self) == after_polling(*old(self), recovery),
    {
        match recovery {
            Some(LateEventRecovery::PendingWork) => {
                self.fallbacks = 0;
                self.step = LoopStep::CheckInterrupt;
            },
            Some(LateEventRecovery::Terminate(reason)) => self.end(reason),
            _ => {
                if self.fallbacks >= MAX_FALLBACK_ATTEMPTS {
                    self.end(TerminationReason::Stopped);
                } else {
                    self.fallbacks = self.fallbacks + 1;
                    self.step = LoopStep::InjectFallback;
                }
            },
        }
    }

    fn recover_emit(&mut self, recovery: Option<LateEventRecovery>)
        requires
            old(self).step == LoopStep::RecoverEmit,
        ensures
            *final(self) == after_polling(*old(self), recovery),
    {
        match recovery {
            Some(LateEventRecovery::PendingWork) => {
                self.agent_wrote_events = true;
            },
            Some(LateEventRecovery::Terminate(reason)) => {
                self.agent_wrote_events = true;
                self.late_reason = Some(reason);
            },
            _ => {},
        }
        self.leave_emit();
    }

    fn leave_completion(&mut self)
        ensures
            *final(self) == uncompleted(*old(self)),
    {
        if !self.agent_wrote_events && self.promised {
            self.end(TerminationReason::CompletionPromise);
        } else if self.cooldown {
            self.step = LoopStep::CheckCooldown;
        } else {
            self.step = LoopStep::CheckInterrupt;
        }
    }

    fn take_answer(&mut self, yes: bool)
        ensures
            *final(self) == after_answer(*old(self), yes),
    {
        match self.step {
            LoopStep::CheckInterrupt => if yes {
                self.break_off();
            } else {
                self.step = LoopStep::FlushGuidance;
            },
            LoopStep::FlushGuidance => if yes {
                self.step = LoopStep::CheckTermination;
            } else {
                self.step = LoopStep::CheckInterrupt;
            },
            LoopStep::CheckPending => if yes {
                self.step = LoopStep::PreIterationHooks;
            } else {
                self.step = LoopStep::NextHat;
            },
            LoopStep::NextHat => if yes {
                self.fallbacks = 0;
                self.step = LoopStep::PostIterationHooks;
            } else {
                self.step = LoopStep::RecoverLate;
            },
            LoopStep::InjectFallback => if yes {
                self.step = LoopStep::CheckInterrupt;
            } else {
                self.end(TerminationReason::Stopped);
            },
            LoopStep::BuildPrompt => if yes {
                self.step = LoopStep::Execute;
            } else {
                self.step = LoopStep::CheckInterrupt;
            },
            LoopStep::CheckPlan => if yes {
                self.step = LoopStep::PrePlanHooks;
            } else {
                self.step = LoopStep::CheckHuman;
            },
            LoopStep::CheckHuman => if yes {
                self.step = LoopStep::PreHumanHooks;
            } else {
                self.step = LoopStep::ReadEvents;
            },
            LoopStep::CheckCooldown => if yes {
                self.step = LoopStep::CheckInterrupt;
            } else {
                self.step = LoopStep::Cooldown;
            },
            _ => {},
        }
    }

    fn take_reason(&mut self, reason: Option<TerminationReason>)
        ensures
            *final(self) == after_reason(*old(self), reason),
    {
        match self.step {
            LoopStep::CheckTermination => self.end_or(reason, LoopStep::CheckPending),
            LoopStep::ProcessOutput => self.end_or(reason, LoopStep::CheckPlan),
            LoopStep::CheckCancellation => match reason {
                Some(reason) => {
                    self.reason = Some(reason);
                    self.cancelled = true;
                    self.step = LoopStep::PublishTerminate;
                },
                None => {
                    let late = self.late_reason;
                    self.end_or(late, LoopStep::CheckCompletion);
                },
            },
            LoopStep::CheckCompletion => match reason {
                Some(reason) => self.end(reason),
                None => self.leave_completion(),
            },
            _ => {},
        }
    }

    fn take_gate(&mut self, gate: HookGate)
        ensures
            *final(self) == after_hooks(*old(self), gate),
    {
        match self.step {
            LoopStep::PreLoopStartHooks => self.pass_with_reason(
                gate,
                LoopStep::Initialize,
                LoopStep::SetUp,
            ),
            LoopStep::PostLoopStartHooks => self.pass_with_reason(
                gate,
                LoopStep::SetUp,
                LoopStep::SetUp,
            ),
            LoopStep::PreIterationHooks => self.pass(gate, LoopStep::NextHat),
            LoopStep::PostIterationHooks => self.pass(gate, LoopStep::BuildPrompt),
            LoopStep::PrePlanHooks => self.pass(gate, LoopStep::CheckHuman),
            LoopStep::PreHumanHooks => self.pass(gate, LoopStep::ReadEvents),
            LoopStep::PostHumanHooks => match gate {
                HookGate::Open => self.leave_human(),
                _ => self.pass(gate, LoopStep::Failed),
            },
            LoopStep::PostPlanHooks => match gate {
                HookGate::Open => self.leave_events(),
                _ => self.pass(gate, LoopStep::Failed),
            },
            LoopStep::PreTerminationHooks => self.pass_with_reason(
                gate,
                LoopStep::PublishTerminate,
                LoopStep::PublishTerminate,
            ),
            LoopStep::PostTerminationHooks => self.pass_with_reason(
                gate,
                LoopStep::HandleTermination,
                LoopStep::HandleTermination,
            ),
            _ => {},
        }
    }

    fn take_done(&mut self)
        ensures
            *final(self) == after_done(*old(self)),
    {
        match self.step {
            LoopStep::Initialize => self.go(LoopStep::PostLoopStartHooks),
            LoopStep::SetUp => {
                let reason = self.reason;
                self.end_or(reason, LoopStep::CheckInterrupt);
            },
            LoopStep::RunWaves => self.go(LoopStep::CheckCancellation),
            LoopStep::DefaultPublishes => self.go(LoopStep::CheckCancellation),
            LoopStep::Cooldown => self.go(LoopStep::CheckInterrupt),
            LoopStep::KillGroup => self.go(LoopStep::PreTerminationHooks),
            LoopStep::PublishTerminate => if self.cancelled {
                self.step = LoopStep::HandleTermination;
            } else {
                self.step = LoopStep::PostTerminationHooks;
            },
            LoopStep::HandleTermination => if self.interrupted {
                self.step = LoopStep::SignalInterface;
            } else {
                self.step = LoopStep::AwaitInterface;
            },
            LoopStep::SignalInterface => self.go(LoopStep::Finished),
            LoopStep::AwaitInterface => self.go(LoopStep::Finished),
            _ => {},
        }
    }

    /// Takes in what came of the current step. A report that does not belong to the step changes
    /// nothing.
    pub fn advance(&mut self, report: LoopReport)
        requires
            old(self).wf(),
        ensures
            *final(self) == advanced(*old(self), report),
            final(self).wf(),
    {
        proof {
            lemma_wf_kept(*self, report);
        }
        match report {
            LoopReport::Done => self.take_done(),
            LoopReport::Failed => match self.step {
                LoopStep::Finished => {},
                _ => self.go(LoopStep::Failed),
            },
            LoopReport::Hooks(gate) => self.take_gate(gate),
            LoopReport::Answer(yes) => self.take_answer(yes),
            LoopReport::Reason(reason) => self.take_reason(reason),
            LoopReport::Late(recovery) => match self.step {
                LoopStep::RecoverLate => self.recover_late(recovery),
                LoopStep::RecoverEmit => self.recover_emit(recovery),
                _ => {},
            },
            LoopReport::Interrupted => match self.step {
                LoopStep::Execute => self.break_off(),
                _ => {},
            },
            LoopReport::Executed { termination, mentions_emit, promised } => match self.step {
                LoopStep::Execute => {
                    self.mentions_emit = mentions_emit;
                    self.promised = promised;
                    self.late_reason = None;
                    self.end_or(termination, LoopStep::ProcessOutput);
                },
                _ => {},
            },
            LoopReport::Events { any, plan, human, waves } => match self.step {
                LoopStep::ReadEvents => {
                    self.agent_wrote_events = any;
                    self.plan = plan;
                    self.waves = waves;
                    if human {
                        self.step = LoopStep::PostHumanHooks;
                    } else {
                        self.leave_human();
                    }
                },
                _ => {},
            },
        }
    }
}

/// A loop after some reports.
pub open spec fn run_of(cooldown: bool, reports: Seq<LoopReport>) -> LoopRun
    decreases reports.len(),
{
    if reports.len() == 0 {
        first_run(cooldown)
    } else {
        advanced(run_of(cooldown, reports.drop_last()), reports.last())
    }
}

/// Whether a loop came to a step on the way of some reports.
pub open spec fn came_to(cooldown: bool, reports: Seq<LoopReport>, step: LoopStep) -> bool {
    exists|k: int|
        0 <= k <= reports.len() && (#[trigger] run_of(cooldown, reports.take(k))).step == step
}

proof fn lemma_came_to(cooldown: bool, reports: Seq<LoopReport>, step: LoopStep)
    requires
        reports.len() > 0,
        came_to(cooldown, reports.drop_last(), step),
    ensures
        came_to(cooldown, reports, step),
{
    let before = reports.drop_last();
    let k = choose|k: int|
        0 <= k <= before.len() && (#[trigger] run_of(cooldown, before.take(k))).step == step;
    assert(before.take(k) == reports.take(k));
}

proof fn lemma_at(cooldown: bool, reports: Seq<LoopReport>)
    ensures
        came_to(cooldown, reports, run_of(cooldown, reports).step),
{
    assert(reports.take(reports.len() as int) == reports);
    assert(run_of(cooldown, reports.take(reports.len() as int)) == run_of(cooldown, reports));
}

proof fn lemma_wf_kept(run: LoopRun, report: LoopReport)
    requires
        run.wf(),
    ensures
        advanced(run, report).wf(),
{
}

/// A loop never has more fallback events in a row than allowed, and holds a reason as soon as it
/// ends.
pub proof fn law_loop_is_well_formed(cooldown: bool, reports: Seq<LoopReport>)
    ensures
        run_of(cooldown, reports).wf(),
    decreases reports.len(),
{
    if reports.len() > 0 {
        law_loop_is_well_formed(cooldown, reports.drop_last());
        lemma_wf_kept(run_of(cooldown, reports.drop_last()), reports.last());
    }
}

/// A loop that has finished has published its end and handled it, whatever was reported on the way.
/// Unless it was cancelled, it has dispatched the hooks before and after its end.
pub proof fn law_end_is_published_and_handled(cooldown: bool, reports: Seq<LoopReport>)
    ensures
        ({
            let run = run_of(cooldown, reports);
            &&& run.step == LoopStep::Finished ==> came_to(
                cooldown,
                reports,
                LoopStep::HandleTermination,
            ) && came_to(cooldown, reports, LoopStep::PublishTerminate)
            &&& run.step == LoopStep::Finished && !run.cancelled ==> came_to(
                cooldown,
                reports,
                LoopStep::PreTerminationHooks,
            ) && came_to(cooldown, reports, LoopStep::PostTerminationHooks)
        }),
{
    lemma_way_to_end(cooldown, reports);
}

/// How far a loop is on the way to its end.
pub open spec fn distance(step: LoopStep) -> int {
    match step {
        LoopStep::PreTerminationHooks => 1,
        LoopStep::PublishTerminate => 2,
        LoopStep::PostTerminationHooks => 3,
        LoopStep::HandleTermination => 4,
        LoopStep::SignalInterface => 5,
        LoopStep::AwaitInterface => 5,
        LoopStep::Finished => 6,
        _ => 0,
    }
}

/// Whether a step towards the end comes from the one before it.
pub open spec fn in_turn(run: LoopRun, next: LoopRun) -> bool {
    let way = distance(next.step);
    &&& way == 3 || way == 4 ==> distance(run.step) >= 2
    &&& way >= 5 ==> distance(run.step) >= 4
    &&& way == 2 && !next.cancelled ==> distance(run.step) >= 1
    &&& way == 4 && !next.cancelled ==> distance(run.step) >= 3
    &&& next.cancelled == (run.cancelled || run.step == LoopStep::CheckCancellation && next.step
        == LoopStep::PublishTerminate)
    &&& distance(run.step) >= 2 ==> way >= distance(run.step) || next.step == LoopStep::Failed
    &&& run.step == LoopStep::Failed ==> next.step == LoopStep::Failed
}

proof fn lemma_done_in_turn(run: LoopRun)
    ensures
        in_turn(run, after_done(run)),
{
}

proof fn lemma_hooks_in_turn(run: LoopRun, gate: HookGate)
    ensures
        in_turn(run, after_hooks(run, gate)),
{
}

proof fn lemma_answer_in_turn(run: LoopRun, yes: bool)
    ensures
        in_turn(run, after_answer(run, yes)),
{
}

proof fn lemma_reason_in_turn(run: LoopRun, reason: Option<TerminationReason>)
    ensures
        in_turn(run, after_reason(run, reason)),
{
}

proof fn lemma_polling_in_turn(run: LoopRun, recovery: Option<LateEventRecovery>)
    ensures
        in_turn(run, after_polling(run, recovery)),
{
}

proof fn lemma_in_turn(run: LoopRun, report: LoopReport)
    ensures
        in_turn(run, advanced(run, report)),
{
    match report {
        LoopReport::Done => lemma_done_in_turn(run),
        LoopReport::Hooks(gate) => lemma_hooks_in_turn(run, gate),
        LoopReport::Answer(yes) => lemma_answer_in_turn(run, yes),
        LoopReport::Reason(reason) => lemma_reason_in_turn(run, reason),
        LoopReport::Late(recovery) => lemma_polling_in_turn(run, recovery),
        _ => {},
    }
}

proof fn lemma_way_to_end(cooldown: bool, reports: Seq<LoopReport>)
    ensures
        ({
            let run = run_of(cooldown, reports);
            let way = distance(run.step);
            &&& way >= 2 ==> came_to(cooldown, reports, LoopStep::PublishTerminate)
            &&& way >= 4 ==> came_to(cooldown, reports, LoopStep::HandleTermination)
            &&& way >= 1 && !run.cancelled ==> came_to(
                cooldown,
                reports,
                LoopStep::PreTerminationHooks,
            )
            &&& way >= 3 && !run.cancelled ==> came_to(
                cooldown,
                reports,
                LoopStep::PostTerminationHooks,
            )
            &&& run.cancelled ==> way >= 2 || run.step == LoopStep::Failed
        }),
    decreases reports.len(),
{
    lemma_at(cooldown, reports);
    if reports.len() > 0 {
        let before = reports.drop_last();
        lemma_way_to_end(cooldown, before);
        lemma_in_turn(run_of(cooldown, before), reports.last());
        if came_to(cooldown, before, LoopStep::PublishTerminate) {
            lemma_came_to(cooldown, reports, LoopStep::PublishTerminate);
        }
        if came_to(cooldown, before, LoopStep::HandleTermination) {
            lemma_came_to(cooldown, reports, LoopStep::HandleTermination);
        }
        if came_to(cooldown, before, LoopStep::PreTerminationHooks) {
            lemma_came_to(cooldown, reports, LoopStep::PreTerminationHooks);
        }
        if came_to(cooldown, before, LoopStep::PostTerminationHooks) {
            lemma_came_to(cooldown, reports, LoopStep::PostTerminationHooks);
        }
    }
}

/// A cancelled loop publishes and handles its end without any hooks, for the reason of the
/// cancellation.
pub proof fn law_cancellation_skips_hooks(run: LoopRun, reason: TerminationReason)
    requires
        run.step == LoopStep::CheckCancellation,
        !run.interrupted,
    ensures
        ({
            let published = advanced(run, LoopReport::Reason(Some(reason)));
            let handled = advanced(published, LoopReport::Done);
            let awaited = advanced(handled, LoopReport::Done);
            let finished = advanced(awaited, LoopReport::Done);
            &&& published.step == LoopStep::PublishTerminate
            &&& handled.step == LoopStep::HandleTermination
            &&& awaited.step == LoopStep::AwaitInterface
            &&& finished.step == LoopStep::Finished
            &&& finished.reason == Some(reason)
        }),
{
}

/// A completion only counts where a cancellation was looked for and not found.
pub proof fn law_cancellation_comes_first(run: LoopRun, report: LoopReport)
    requires
        run.step != LoopStep::CheckCompletion,
        advanced(run, report).step == LoopStep::CheckCompletion,
    ensures
        run.step == LoopStep::CheckCancellation,
        report == LoopReport::Reason(None),
{
}

/// The completion promise in the output only counts where the agent wrote no events.
pub proof fn law_promise_counts_without_events(run: LoopRun)
    requires
        run.step == LoopStep::CheckCompletion,
        run.reason is None,
    ensures
        advanced(run, LoopReport::Reason(None)).reason is Some <==> !run.agent_wrote_events
            && run.promised,
{
}

/// The number of a step within a round of the loop.
pub open spec fn place(step: LoopStep) -> int {
    match step {
        LoopStep::PreLoopStartHooks => 1,
        LoopStep::Initialize => 2,
        LoopStep::PostLoopStartHooks => 3,
        LoopStep::SetUp => 4,
        LoopStep::CheckInterrupt => 5,
        LoopStep::FlushGuidance => 6,
        LoopStep::CheckTermination => 7,
        LoopStep::CheckPending => 8,
        LoopStep::PreIterationHooks => 9,
        LoopStep::NextHat => 10,
        LoopStep::RecoverLate => 11,
        LoopStep::InjectFallback => 12,
        LoopStep::PostIterationHooks => 13,
        LoopStep::BuildPrompt => 14,
        LoopStep::Execute => 15,
        LoopStep::ProcessOutput => 16,
        LoopStep::CheckPlan => 17,
        LoopStep::PrePlanHooks => 18,
        LoopStep::CheckHuman => 19,
        LoopStep::PreHumanHooks => 20,
        LoopStep::ReadEvents => 21,
        LoopStep::PostHumanHooks => 22,
        LoopStep::PostPlanHooks => 23,
        LoopStep::RecoverEmit => 24,
        LoopStep::RunWaves => 25,
        LoopStep::DefaultPublishes => 26,
        LoopStep::CheckCancellation => 27,
        LoopStep::CheckCompletion => 28,
        LoopStep::CheckCooldown => 29,
        LoopStep::Cooldown => 30,
        LoopStep::KillGroup => 31,
        LoopStep::PreTerminationHooks => 32,
        LoopStep::PublishTerminate => 33,
        LoopStep::PostTerminationHooks => 34,
        LoopStep::HandleTermination => 35,
        LoopStep::SignalInterface => 36,
        LoopStep::AwaitInterface => 37,
        LoopStep::Finished => 38,
        LoopStep::Failed => 39,
    }
}

/// Whether a run went forward, or back to look for an interrupt, or stayed.
pub open spec fn forward(run: LoopRun, next: LoopRun) -> bool {
    ||| next == run
    ||| next.step == LoopStep::CheckInterrupt && place(run.step) <= place(LoopStep::Cooldown)
    ||| place(next.step) > place(run.step)
}

proof fn lemma_done_forward(run: LoopRun)
    ensures
        forward(run, after_done(run)),
{
}

proof fn lemma_hooks_forward(run: LoopRun, gate: HookGate)
    ensures
        forward(run, after_hooks(run, gate)),
{
}

proof fn lemma_answer_forward(run: LoopRun, yes: bool)
    ensures
        forward(run, after_answer(run, yes)),
{
}

proof fn lemma_reason_forward(run: LoopRun, reason: Option<TerminationReason>)
    ensures
        forward(run, after_reason(run, reason)),
{
}

proof fn lemma_polling_forward(run: LoopRun, recovery: Option<LateEventRecovery>)
    ensures
        forward(run, after_polling(run, recovery)),
{
}

/// A loop goes forward through its steps, and comes back only to look for an interrupt: an interrupt
/// is noticed in every round, and a loop that has begun to end does not go on.
pub proof fn law_rounds_look_for_interrupts(run: LoopRun, report: LoopReport)
    ensures
        forward(run, advanced(run, report)),
{
    match report {
        LoopReport::Done => lemma_done_forward(run),
        LoopReport::Hooks(gate) => lemma_hooks_forward(run, gate),
        LoopReport::Answer(yes) => lemma_answer_forward(run, yes),
        LoopReport::Reason(reason) => lemma_reason_forward(run, reason),
        LoopReport::Late(recovery) => lemma_polling_forward(run, recovery),
        _ => {},
    }
}

/// After the end has begun, only hooks can change the reason, and only where a suspension ended the
/// loop.
pub proof fn law_reason_stands(run: LoopRun, report: LoopReport)
    requires
        closing_down(run.step),
    ensures
        advanced(run, report).reason == run.reason || report matches LoopReport::Hooks(
            HookGate::Ending(_),
        ),
{
}

} // verus!
