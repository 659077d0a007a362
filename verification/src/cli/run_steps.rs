//! The steps of the commands that run a loop.
//!
//! A [`RunCommand`] says what is to be done next for the command, and takes in what came of it.
use crate::cli::run::LockPlan;
use crate::loop_runner::termination::TerminationReason;
use vstd::prelude::*;

verus! {

/// What is to be done next for a command that runs a loop.
#[derive(Debug, Clone, Copy, PartialEq, Eq, Structural)]
pub enum RunStep {
    /// Load the configuration.
    LoadConfig,
    /// Look for the scratchpad of the loop that is continued.
    CheckScratchpad,
    /// Set what the arguments give in place of the configuration, validate it and tell its warnings.
    Validate,
    /// Detect a backend.
    DetectBackend,
    /// Check the surroundings of a run that is only shown.
    CheckDryRun,
    /// Show the configuration and what the checks found.
    Describe,
    /// Make the directory of the scratchpad.
    MakeScratchpadDir,
    /// Ask for the lock of the primary loop.
    TryLock,
    /// Wait for the lock of the primary loop.
    WaitForLock,
    /// Make the worktree of a parallel loop, with all that belongs to it.
    MakeWorktree,
    /// Make the directories of the loop.
    MakeDirectories,
    /// Check the surroundings of the run.
    Preflight,
    /// Remove the worktree of a run that is not started.
    RemoveWorktree,
    /// Register the parallel loop.
    Register,
    /// Run the loop in a child process, with the terminal interface in this one.
    RunChild,
    /// Run the loop in this process.
    RunLoop,
    /// Remove the request for a restart.
    ClearRestart,
    /// Launch the command that restarts the loop.
    Restart,
    /// Nothing: the command has ended, with the reason that it holds where a loop was run.
    Finished,
    /// Nothing: the command has failed.
    Failed,
}

/// What came of a [`RunStep`].
#[derive(Debug)]
pub enum RunReport {
    Done,
    Failed,
    /// The answer of a step that looks for something or checks something.
    Answer(bool),
    /// The configuration is valid: whether a backend has to be detected.
    Valid { detect: bool },
    /// How the run goes on after asking for the lock.
    Lock(LockPlan),
    /// The loop has ended.
    Ended(TerminationReason),
}

/// A command that runs a loop, between two steps.
#[derive(Debug, Clone, Copy, PartialEq, Eq, Structural)]
pub struct RunCommand {
    pub step: RunStep,
    /// Whether the command is the deprecated one that only continues the primary loop.
    pub deprecated: bool,
    /// Whether a loop is continued.
    pub resume: bool,
    /// Whether the run is only shown.
    pub dry_run: bool,
    /// Whether the loop runs in a child process.
    pub child: bool,
    /// Whether the lock of the primary loop is held.
    pub locked: bool,
    /// Whether the loop has a worktree of its own.
    pub worktree: bool,
    /// Whether the surroundings of the run were found to be in order.
    pub checked: bool,
    /// Why the loop has ended.
    pub reason: Option<TerminationReason>,
}

/// A command that goes on with a step.
pub open spec fn at(command: RunCommand, step: RunStep) -> RunCommand {
    RunCommand { step, ..command }
}

/// A command before its first step.
pub open spec fn first_command(deprecated: bool, resume: bool, dry_run: bool, child: bool) -> RunCommand {
    RunCommand {
        step: RunStep::LoadConfig,
        deprecated,
        resume,
        dry_run,
        child,
        locked: false,
        worktree: false,
        checked: false,
        reason: None,
    }
}

/// The step that comes when a backend is settled. The deprecated command runs the loop at once; a run
/// that is only shown makes nothing.
pub open spec fn with_backend(command: RunCommand) -> RunStep {
    if command.deprecated {
        RunStep::RunLoop
    } else if command.dry_run {
        RunStep::CheckDryRun
    } else {
        RunStep::MakeScratchpadDir
    }
}

/// The step that runs the loop.
pub open spec fn running(command: RunCommand) -> RunStep {
    if command.child {
        RunStep::RunChild
    } else {
        RunStep::RunLoop
    }
}

/// The command after a step was done.
pub open spec fn command_done(command: RunCommand) -> RunCommand {
    match command.step {
        RunStep::LoadConfig => at(
            command,
            if command.resume {
                RunStep::CheckScratchpad
            } else {
                RunStep::Validate
            },
        ),
        RunStep::DetectBackend => at(command, with_backend(command)),
        RunStep::CheckDryRun => at(command, RunStep::Describe),
        RunStep::Describe => at(command, RunStep::Finished),
        RunStep::MakeScratchpadDir => at(
            command,
            if command.child {
                RunStep::MakeDirectories
            } else {
                RunStep::TryLock
            },
        ),
        RunStep::WaitForLock => RunCommand {
            step: RunStep::MakeDirectories,
            locked: true,
            ..command
        },
        RunStep::MakeWorktree => RunCommand {
            step: RunStep::MakeDirectories,
            worktree: true,
            ..command
        },
        RunStep::MakeDirectories => at(command, RunStep::Preflight),
        RunStep::RemoveWorktree => at(command, RunStep::Failed),
        RunStep::Register => at(command, running(command)),
        RunStep::ClearRestart => at(command, RunStep::Restart),
        RunStep::Restart => at(command, RunStep::Finished),
        _ => command,
    }
}

/// The command after a step has failed. What becomes of the worktree of a run that is not started,
/// and of the request for a restart, does not matter.
pub open spec fn command_failed(command: RunCommand) -> RunCommand {
    match command.step {
        RunStep::Finished => command,
        RunStep::ClearRestart => at(command, RunStep::Restart),
        _ => at(command, RunStep::Failed),
    }
}

/// The command after an answer.
pub open spec fn command_answered(command: RunCommand, yes: bool) -> RunCommand {
    match command.step {
        RunStep::CheckScratchpad => at(
            command,
            if yes {
                RunStep::Validate
            } else {
                RunStep::Failed
            },
        ),
        RunStep::Preflight => if yes {
            RunCommand {
                step: if command.worktree {
                    RunStep::Register
                } else {
                    running(command)
                },
                checked: true,
                ..command
            }
        } else {
            at(
                command,
                if command.worktree {
                    RunStep::RemoveWorktree
                } else {
                    RunStep::Failed
                },
            )
        },
        _ => command,
    }
}

/// The command after asking for the lock.
pub open spec fn command_locked(command: RunCommand, plan: LockPlan) -> RunCommand {
    if command.step == RunStep::TryLock {
        match plan {
            LockPlan::Primary => RunCommand {
                step: RunStep::MakeDirectories,
                locked: true,
                ..command
            },
            LockPlan::WaitForLock => at(command, RunStep::WaitForLock),
            LockPlan::Worktree => at(command, RunStep::MakeWorktree),
            LockPlan::Unlocked => at(command, RunStep::MakeDirectories),
            LockPlan::Refuse(_) | LockPlan::Fail => at(command, RunStep::Failed),
        }
    } else {
        command
    }
}

/// The command after a report. A report that does not belong to the step changes nothing.
pub open spec fn after_report(command: RunCommand, report: RunReport) -> RunCommand {
    match report {
        RunReport::Done => command_done(command),
        RunReport::Failed => command_failed(command),
        RunReport::Answer(yes) => command_answered(command, yes),
        RunReport::Valid { detect } => if command.step == RunStep::Validate {
            at(
                command,
                if detect {
                    RunStep::DetectBackend
                } else {
                    with_backend(command)
                },
            )
        } else {
            command
        },
        RunReport::Lock(plan) => command_locked(command, plan),
        RunReport::Ended(reason) => if command.step == RunStep::RunChild || command.step
            == RunStep::RunLoop {
            RunCommand {
                step: if reason == TerminationReason::RestartRequested && !command.deprecated {
                    RunStep::ClearRestart
                } else {
                    RunStep::Finished
                },
                reason: Some(reason),
                ..command
            }
        } else {
            command
        },
    }
}

impl RunCommand {
    /// Starts the command that runs a loop. `child` tells whether the terminal interface has the loop
    /// in a child process.
    pub fn run_command(continue_mode: bool, dry_run: bool, child: bool) -> (r: RunCommand)
        ensures
            r == first_command(false, continue_mode, dry_run, child),
    {
        RunCommand {
            step: RunStep::LoadConfig,
            deprecated: false,
            resume: continue_mode,
            dry_run,
            child,
            locked: false,
            worktree: false,
            checked: false,
            reason: None,
        }
    }

    /// Starts the deprecated command that continues the primary loop.
    pub fn resume_command() -> (r: RunCommand)
        ensures
            r == first_command(true, true, false, false),
    {
        RunCommand {
            step: RunStep::LoadConfig,
            deprecated: true,
            resume: true,
            dry_run: false,
            child: false,
            locked: false,
            worktree: false,
            checked: false,
            reason: None,
        }
    }

    fn with_backend(&self) -> (r: RunStep)
        ensures
            r == with_backend(*self),
    {
        if self.deprecated {
            RunStep::RunLoop
        } else if self.dry_run {
            RunStep::CheckDryRun
        } else {
            RunStep::MakeScratchpadDir
        }
    }

    fn running(&self) -> (r: RunStep)
        ensures
            r == running(*self),
    {
        if self.child {
            RunStep::RunChild
        } else {
            RunStep::RunLoop
        }
    }

    fn done(&mut self)
        ensures
            *final(self) == command_done(*old(self)),
    {
        match self.step {
            RunStep::LoadConfig => {
                self.step = if self.resume {
                    RunStep::CheckScratchpad
                } else {
                    RunStep::Validate
                };
            },
            RunStep::DetectBackend => {
                self.step = self.with_backend();
            },
            RunStep::CheckDryRun => {
                self.step = RunStep::Describe;
            },
            RunStep::Describe | RunStep::Restart => {
                self.step = RunStep::Finished;
            },
            RunStep::MakeScratchpadDir => {
                self.step = if self.child {
                    RunStep::MakeDirectories
                } else {
                    RunStep::TryLock
                };
            },
            RunStep::WaitForLock => {
                self.locked = true;
                self.step = RunStep::MakeDirectories;
            },
            RunStep::MakeWorktree => {
                self.worktree = true;
                self.step = RunStep::MakeDirectories;
            },
            RunStep::MakeDirectories => {
                self.step = RunStep::Preflight;
            },
            RunStep::RemoveWorktree => {
                self.step = RunStep::Failed;
            },
            RunStep::Register => {
                self.step = self.running();
            },
            RunStep::ClearRestart => {
                self.step = RunStep::Restart;
            },
            _ => {},
        }
    }

    fn answered(&mut self, yes: bool)
        ensures
            *final(self) == command_answered(*old(self), yes),
    {
        match self.step {
            RunStep::CheckScratchpad => {
                self.step = if yes {
                    RunStep::Validate
                } else {
                    RunStep::Failed
                };
            },
            RunStep::Preflight => {
                if yes {
                    self.step = if self.worktree {
                        RunStep::Register
                    } else {
                        self.running()
                    };
                    self.checked = true;
                } else {
                    self.step = if self.worktree {
                        RunStep::RemoveWorktree
                    } else {
                        RunStep::Failed
                    };
                }
            },
            _ => {},
        }
    }

    fn locked(&mut self, plan: &LockPlan)
        ensures
            *final(self) == command_locked(*old(self), *plan),
    {
        if self.step == RunStep::TryLock {
            match plan {
                LockPlan::Primary => {
                    self.locked = true;
                    self.step = RunStep::MakeDirectories;
                },
                LockPlan::WaitForLock => {
                    self.step = RunStep::WaitForLock;
                },
                LockPlan::Worktree => {
                    self.step = RunStep::MakeWorktree;
                },
                LockPlan::Unlocked => {
                    self.step = RunStep::MakeDirectories;
                },
                LockPlan::Refuse(_) | LockPlan::Fail => {
                    self.step = RunStep::Failed;
                },
            }
        }
    }

    /// Takes in what came of the step.
    pub fn advance(&mut self, report: RunReport)
        ensures
            *final(self) == after_report(*old(self), report),
    {
        match &report {
            RunReport::Done => self.done(),
            RunReport::Failed => match self.step {
                RunStep::Finished => {},
                RunStep::ClearRestart => {
                    self.step = RunStep::Restart;
                },
                _ => {
                    self.step = RunStep::Failed;
                },
            },
            RunReport::Answer(yes) => self.answered(*yes),
            RunReport::Valid { detect } => {
                if self.step == RunStep::Validate {
                    self.step = if *detect {
                        RunStep::DetectBackend
                    } else {
                        self.with_backend()
                    };
                }
            },
            RunReport::Lock(plan) => self.locked(plan),
            RunReport::Ended(reason) => {
                if self.step == RunStep::RunChild || self.step == RunStep::RunLoop {
                    self.step = if *reason == TerminationReason::RestartRequested
                        && !self.deprecated {
                        RunStep::ClearRestart
                    } else {
                        RunStep::Finished
                    };
                    self.reason = Some(*reason);
                }
            },
        }
    }
}

/// The command after some reports, one after the other.
pub open spec fn after_reports(command: RunCommand, reports: Seq<RunReport>) -> RunCommand
    decreases reports.len(),
{
    if reports.len() == 0 {
        command
    } else {
        after_report(after_reports(command, reports.drop_last()), reports.last())
    }
}

/// Whether a step leaves something behind in the workspace or runs the loop.
pub open spec fn leaves_something(step: RunStep) -> bool {
    match step {
        RunStep::LoadConfig | RunStep::CheckScratchpad | RunStep::Validate | RunStep::DetectBackend
        | RunStep::CheckDryRun | RunStep::Describe | RunStep::Finished | RunStep::Failed => false,
        _ => true,
    }
}

/// Whether a step comes after the checks of the surroundings have passed.
pub open spec fn is_checked_step(step: RunStep) -> bool {
    match step {
        RunStep::Register | RunStep::RunChild | RunStep::RunLoop | RunStep::ClearRestart
        | RunStep::Restart => true,
        _ => false,
    }
}

/// Whether a step is about the lock of the primary loop.
pub open spec fn is_lock_step(step: RunStep) -> bool {
    step == RunStep::TryLock || step == RunStep::WaitForLock || step == RunStep::MakeWorktree
}

/// Whether a step comes before the loop has its place, as the primary loop or in a worktree.
spec fn is_early_step(step: RunStep) -> bool {
    match step {
        RunStep::LoadConfig | RunStep::CheckScratchpad | RunStep::Validate | RunStep::DetectBackend
        | RunStep::MakeScratchpadDir | RunStep::TryLock | RunStep::WaitForLock
        | RunStep::MakeWorktree => true,
        _ => false,
    }
}

/// What holds of a command at every step.
spec fn steady(first: RunCommand, command: RunCommand) -> bool {
    &&& command.deprecated == first.deprecated
    &&& command.resume == first.resume
    &&& command.dry_run == first.dry_run
    &&& command.child == first.child
    &&& command.dry_run ==> !leaves_something(command.step)
    &&& command.deprecated ==> !is_lock_step(command.step) && command.step != RunStep::Restart
        && command.step != RunStep::ClearRestart && command.step != RunStep::Register
        && command.step != RunStep::Preflight && command.step != RunStep::MakeDirectories
        && command.step != RunStep::MakeScratchpadDir
    &&& command.child ==> !is_lock_step(command.step) && !command.worktree && !command.locked
    &&& command.child ==> command.step != RunStep::RunLoop
    &&& !command.deprecated && is_checked_step(command.step) ==> command.checked
    &&& command.step == RunStep::Register ==> command.worktree
    &&& command.step == RunStep::RemoveWorktree ==> command.worktree && !command.checked
    &&& command.checked ==> is_checked_step(command.step) || command.step == RunStep::Finished
        || command.step == RunStep::Failed
    &&& command.worktree ==> !command.locked
    &&& is_early_step(command.step) ==> !command.worktree && !command.locked
    &&& (command.step == RunStep::ClearRestart || command.step == RunStep::Restart)
        ==> command.reason == Some(TerminationReason::RestartRequested)
    &&& command.reason is Some ==> command.step == RunStep::ClearRestart || command.step
        == RunStep::Restart || command.step == RunStep::Finished || command.step == RunStep::Failed
}

proof fn lemma_steady_step(first: RunCommand, command: RunCommand, report: RunReport)
    requires
        steady(first, command),
        first.deprecated ==> !first.dry_run && !first.child,
    ensures
        steady(first, after_report(command, report)),
{
}

proof fn lemma_steady(first: RunCommand, reports: Seq<RunReport>)
    requires
        first == first_command(first.deprecated, first.resume, first.dry_run, first.child),
        first.deprecated ==> !first.dry_run && !first.child,
    ensures
        steady(first, after_reports(first, reports)),
    decreases reports.len(),
{
    if reports.len() > 0 {
        lemma_steady(first, reports.drop_last());
        lemma_steady_step(first, after_reports(first, reports.drop_last()), reports.last());
    }
}

/// A run that is only shown makes no directory, takes no lock and runs no loop, whatever is reported.
pub proof fn law_dry_runs_leave_nothing(resume: bool, child: bool, reports: Seq<RunReport>)
    ensures
        !leaves_something(
            after_reports(first_command(false, resume, true, child), reports).step,
        ),
{
    lemma_steady(first_command(false, resume, true, child), reports);
}

/// A loop is registered and run only after the checks of its surroundings have passed, and a worktree
/// is removed only of a run that has not passed them, so that a refused run leaves no entry behind.
pub proof fn law_only_checked_runs_are_registered(
    resume: bool,
    dry_run: bool,
    child: bool,
    reports: Seq<RunReport>,
)
    ensures
        ({
            let command = after_reports(first_command(false, resume, dry_run, child), reports);
            &&& is_checked_step(command.step) ==> command.checked
            &&& command.step == RunStep::Register ==> command.worktree
            &&& command.step == RunStep::RemoveWorktree ==> command.worktree && !command.checked
        }),
{
    lemma_steady(first_command(false, resume, dry_run, child), reports);
}

/// A run whose loop is in a child process leaves the lock to the child: it asks for no lock, holds
/// none, and makes no worktree.
pub proof fn law_the_child_takes_the_lock(resume: bool, dry_run: bool, reports: Seq<RunReport>)
    ensures
        ({
            let command = after_reports(first_command(false, resume, dry_run, true), reports);
            &&& !is_lock_step(command.step)
            &&& !command.locked
            &&& !command.worktree
            &&& command.step != RunStep::RunLoop
        }),
{
    lemma_steady(first_command(false, resume, dry_run, true), reports);
}

/// A loop in a worktree does not hold the lock of the primary loop.
pub proof fn law_worktrees_hold_no_lock(
    resume: bool,
    dry_run: bool,
    child: bool,
    reports: Seq<RunReport>,
)
    ensures
        ({
            let command = after_reports(first_command(false, resume, dry_run, child), reports);
            !(command.worktree && command.locked)
        }),
{
    lemma_steady(first_command(false, resume, dry_run, child), reports);
}

/// A restart is launched only where the loop has ended for one, and never by the deprecated command.
pub proof fn law_restarts_are_asked_for(
    deprecated: bool,
    resume: bool,
    dry_run: bool,
    child: bool,
    reports: Seq<RunReport>,
)
    requires
        deprecated ==> !dry_run && !child,
    ensures
        ({
            let command = after_reports(first_command(deprecated, resume, dry_run, child), reports);
            command.step == RunStep::Restart ==> !deprecated && command.reason == Some(
                TerminationReason::RestartRequested,
            )
        }),
{
    lemma_steady(first_command(deprecated, resume, dry_run, child), reports);
}

/// Whether a step comes before the scratchpad was found, or after it was not.
pub open spec fn lacks_scratchpad(step: RunStep) -> bool {
    step == RunStep::LoadConfig || step == RunStep::CheckScratchpad || step == RunStep::Failed
}

/// Whether the scratchpad was found by the report at a place.
pub open spec fn finds_scratchpad(first: RunCommand, reports: Seq<RunReport>, i: int) -> bool {
    &&& 0 <= i < reports.len()
    &&& reports[i] == RunReport::Answer(true)
    &&& after_reports(first, reports.take(i)).step == RunStep::CheckScratchpad
}

proof fn lemma_scratchpad_is_found(command: RunCommand, report: RunReport)
    requires
        command.resume,
        lacks_scratchpad(command.step),
        !lacks_scratchpad(after_report(command, report).step),
    ensures
        command.step == RunStep::CheckScratchpad,
        report == RunReport::Answer(true),
{
}

proof fn lemma_resume_stays(command: RunCommand, report: RunReport)
    ensures
        after_report(command, report).resume == command.resume,
{
}

/// Nothing is validated or run of a loop that is to be continued before its scratchpad was found.
pub proof fn law_continued_runs_have_a_scratchpad(first: RunCommand, reports: Seq<RunReport>)
    requires
        first == first_command(first.deprecated, true, first.dry_run, first.child),
    ensures
        after_reports(first, reports).resume,
        lacks_scratchpad(after_reports(first, reports).step) || exists|i: int|
            finds_scratchpad(first, reports, i),
    decreases reports.len(),
{
    if reports.len() > 0 {
        let before = reports.drop_last();
        let n = reports.len() - 1;
        law_continued_runs_have_a_scratchpad(first, before);
        let command = after_reports(first, before);
        lemma_resume_stays(command, reports.last());
        if lacks_scratchpad(command.step) {
            if !lacks_scratchpad(after_report(command, reports.last()).step) {
                lemma_scratchpad_is_found(command, reports.last());
                assert(reports.take(n) == before);
                assert(finds_scratchpad(first, reports, n));
            }
        } else {
            let i = choose|i: int| finds_scratchpad(first, before, i);
            assert(reports.take(i) == before.take(i));
            assert(finds_scratchpad(first, reports, i));
        }
    }
}

} // verus!
