//! What holds of every run of the command line, from its arguments to its end.
use crate::cli::args::{asks_tui, runs_loop, shows_tui, Commands, RunArgs};
use crate::cli::logging::{log_plan, sink_of, LogSink, LoggingConfig, TraceCapture};
use crate::cli::preflight::{
    checks_run, counted, failure_counts, icons_of, is_passed, lowercase, messages_of, status_icon,
    summary_lines, summary_of, CheckStatus, CheckView, PreflightReport,
};
use crate::cli::process::{group_change, GroupChange};
use crate::cli::run::{
    beginning, child_command, continue_fault, flag_args, given_or, lock_planned, lock_refusal,
    mode_of, modes_asked, number_text, reason_of_exit, repeated_args, run_prompt, shortened, summary_of_prompt,
    value_args, LockAttempt, LockPlan, SubprocessTuiArgs,
};
use crate::cli::run_steps::{
    after_report, first_command, RunCommand, RunReport, RunStep,
};
use crate::cli::types::{uses_colors, verbosity_of, ColorMode, Verbosity};
use crate::config::event_loop::EventLoopConfig;
use crate::config::settings::FeaturesConfig;
use crate::loop_runner::termination::TerminationReason;
use crate::text::{decimal, joined, opt_text, texts};
use vstd::prelude::*;

verus! {

// ---- steps ----

/// A run begins with its configuration. A continued one looks for its scratchpad before it validates, and
/// one without a scratchpad fails.
pub proof fn law_runs_begin_with_their_configuration(
    command: RunCommand,
    deprecated: bool,
    resume: bool,
    dry_run: bool,
    child: bool,
)
    ensures
        first_command(deprecated, resume, dry_run, child) == (RunCommand {
            step: RunStep::LoadConfig,
            deprecated,
            resume,
            dry_run,
            child,
            locked: false,
            worktree: false,
            checked: false,
            reason: None,
        }),
        command.step == RunStep::LoadConfig && command.resume ==> after_report(
            command,
            RunReport::Done,
        ) == (RunCommand { step: RunStep::CheckScratchpad, ..command }),
        command.step == RunStep::LoadConfig && !command.resume ==> after_report(
            command,
            RunReport::Done,
        ) == (RunCommand { step: RunStep::Validate, ..command }),
        command.step == RunStep::CheckScratchpad ==> after_report(command, RunReport::Answer(true))
            == (RunCommand { step: RunStep::Validate, ..command }),
        command.step == RunStep::CheckScratchpad ==> after_report(command, RunReport::Answer(false))
            == (RunCommand { step: RunStep::Failed, ..command }),
{
}

/// A valid configuration whose backend is to be detected has it detected. Then a dry run is described and
/// is over, the deprecated command runs its loop at once, and every other run prepares its directories.
pub proof fn law_backends_are_detected_before_work(command: RunCommand)
    ensures
        ({
            let work = if command.deprecated {
                RunStep::RunLoop
            } else if command.dry_run {
                RunStep::CheckDryRun
            } else {
                RunStep::MakeScratchpadDir
            };
            &&& command.step == RunStep::Validate ==> after_report(
                command,
                RunReport::Valid { detect: true },
            ) == (RunCommand { step: RunStep::DetectBackend, ..command })
            &&& command.step == RunStep::Validate ==> after_report(
                command,
                RunReport::Valid { detect: false },
            ) == (RunCommand { step: work, ..command })
            &&& command.step == RunStep::DetectBackend ==> after_report(command, RunReport::Done)
                == (RunCommand { step: work, ..command })
        }),
        command.step == RunStep::CheckDryRun ==> after_report(command, RunReport::Done) == (
        RunCommand { step: RunStep::Describe, ..command }),
        command.step == RunStep::Describe ==> after_report(command, RunReport::Done) == (
        RunCommand { step: RunStep::Finished, ..command }),
{
}

/// A run takes the lock before it works, unless its child does. Where the lock is held it waits for it, or
/// works in a tree of its own, or is refused.
pub proof fn law_runs_take_the_lock(command: RunCommand, message: String)
    ensures
        command.step == RunStep::MakeScratchpadDir && command.child ==> after_report(
            command,
            RunReport::Done,
        ) == (RunCommand { step: RunStep::MakeDirectories, ..command }),
        command.step == RunStep::MakeScratchpadDir && !command.child ==> after_report(
            command,
            RunReport::Done,
        ) == (RunCommand { step: RunStep::TryLock, ..command }),
        command.step == RunStep::TryLock ==> {
            &&& after_report(command, RunReport::Lock(LockPlan::Primary)) == (RunCommand {
                step: RunStep::MakeDirectories,
                locked: true,
                ..command
            })
            &&& after_report(command, RunReport::Lock(LockPlan::WaitForLock)) == (RunCommand {
                step: RunStep::WaitForLock,
                ..command
            })
            &&& after_report(command, RunReport::Lock(LockPlan::Worktree)) == (RunCommand {
                step: RunStep::MakeWorktree,
                ..command
            })
            &&& after_report(command, RunReport::Lock(LockPlan::Unlocked)) == (RunCommand {
                step: RunStep::MakeDirectories,
                ..command
            })
            &&& after_report(command, RunReport::Lock(LockPlan::Refuse(message))) == (RunCommand {
                step: RunStep::Failed,
                ..command
            })
            &&& after_report(command, RunReport::Lock(LockPlan::Fail)) == (RunCommand {
                step: RunStep::Failed,
                ..command
            })
        },
        command.step == RunStep::WaitForLock ==> after_report(command, RunReport::Done) == (
        RunCommand { step: RunStep::MakeDirectories, locked: true, ..command }),
        command.step == RunStep::MakeWorktree ==> after_report(command, RunReport::Done) == (
        RunCommand { step: RunStep::MakeDirectories, worktree: true, ..command }),
{
}

/// A run is checked before it works, and one that fails its checks does not work: its tree is removed
/// again. A tree of its own is registered before the work begins.
pub proof fn law_runs_are_checked_before_work(command: RunCommand)
    ensures
        ({
            let work = if command.child {
                RunStep::RunChild
            } else {
                RunStep::RunLoop
            };
            &&& command.step == RunStep::MakeDirectories ==> after_report(command, RunReport::Done)
                == (RunCommand { step: RunStep::Preflight, ..command })
            &&& command.step == RunStep::Preflight && command.worktree ==> after_report(
                command,
                RunReport::Answer(true),
            ) == (RunCommand { step: RunStep::Register, checked: true, ..command })
            &&& command.step == RunStep::Preflight && !command.worktree ==> after_report(
                command,
                RunReport::Answer(true),
            ) == (RunCommand { step: work, checked: true, ..command })
            &&& command.step == RunStep::Preflight && command.worktree ==> after_report(
                command,
                RunReport::Answer(false),
            ) == (RunCommand { step: RunStep::RemoveWorktree, ..command })
            &&& command.step == RunStep::Preflight && !command.worktree ==> after_report(
                command,
                RunReport::Answer(false),
            ) == (RunCommand { step: RunStep::Failed, ..command })
            &&& command.step == RunStep::RemoveWorktree ==> after_report(command, RunReport::Done)
                == (RunCommand { step: RunStep::Failed, ..command })
            &&& command.step == RunStep::Register ==> after_report(command, RunReport::Done) == (
            RunCommand { step: work, ..command })
        }),
{
}

/// A run that ended keeps its reason. One that asks for a restart is started anew, behind the request
/// being cleared if that can be done; the deprecated command never is.
pub proof fn law_runs_end_for_their_reason(command: RunCommand, reason: TerminationReason)
    requires
        command.step == RunStep::RunLoop || command.step == RunStep::RunChild,
    ensures
        ({
            let ended = after_report(command, RunReport::Ended(reason));
            let restarts = reason == TerminationReason::RestartRequested && !command.deprecated;
            &&& ended == (RunCommand {
                step: if restarts {
                    RunStep::ClearRestart
                } else {
                    RunStep::Finished
                },
                reason: Some(reason),
                ..command
            })
            &&& restarts ==> after_report(ended, RunReport::Done) == (RunCommand {
                step: RunStep::Restart,
                ..ended
            })
            &&& restarts ==> after_report(ended, RunReport::Failed) == (RunCommand {
                step: RunStep::Restart,
                ..ended
            })
        }),
{
}

/// Whatever else fails in a run fails it, and a run that is over stays over.
pub proof fn law_failed_runs_fail(command: RunCommand, report: RunReport)
    ensures
        command.step != RunStep::Finished && command.step != RunStep::ClearRestart ==> after_report(
            command,
            RunReport::Failed,
        ) == (RunCommand { step: RunStep::Failed, ..command }),
        command.step == RunStep::Finished ==> after_report(command, report) == command,
        command.step == RunStep::Failed ==> after_report(command, report) == command,
        command.step == RunStep::Restart ==> after_report(command, RunReport::Done) == (
        RunCommand { step: RunStep::Finished, ..command }),
        after_report(command, report).deprecated == command.deprecated,
        after_report(command, report).resume == command.resume,
        after_report(command, report).dry_run == command.dry_run,
        after_report(command, report).child == command.child,
{
}

// ---- arguments ----

/// What is given on the command line takes the place of what is configured, and what is not given leaves
/// it. A prompt given as text comes before one given as a file, and each takes the place of both that are
/// configured.
pub proof fn law_arguments_come_before_the_configuration(
    args: RunArgs,
    config: EventLoopConfig,
    value: u32,
    configured: u32,
)
    ensures
        given_or(Some(value), configured) == value,
        given_or(None, configured) == configured,
        args.prompt_text is Some ==> run_prompt(args, config).0 == Some(args.prompt_text->0@)
            && run_prompt(args, config).1.len() == 0,
        args.prompt_text is None && args.prompt_file is Some ==> run_prompt(args, config).0 is None
            && run_prompt(args, config).1 == args.prompt_file->0@,
        args.prompt_text is None && args.prompt_file is None ==> run_prompt(args, config).0
            == opt_text(config.prompt) && run_prompt(args, config).1 == config.prompt_file@,
{
    reveal_strlit("");
    assert(""@.len() == 0);
}

/// A run that is to be autonomous is, whatever else is asked. Else it is interactive, and only a run
/// without the terminal interface goes by the configuration.
pub proof fn law_autonomous_runs_are_autonomous(no_tui: bool, configured: Seq<char>)
    ensures
        mode_of(true, no_tui, configured) == "autonomous"@,
        mode_of(false, false, configured) == "interactive"@,
        mode_of(false, true, configured) == configured,
{
}

/// The terminal interface is shown unless something speaks against it: a flag, an autonomous run or a
/// remote caller. It runs in a process of its own where there is a terminal, unless the old one is asked
/// for.
pub proof fn law_interfaces_are_shown_where_asked(args: RunArgs, terminal: bool)
    ensures
        ({
            let modes = modes_asked(args, terminal);
            let tui = !(args.no_tui || args.autonomous || args.rpc);
            &&& asks_tui(args.no_tui, args.autonomous, args.rpc) <==> tui
            &&& modes.enable_tui <==> tui && args.legacy_tui
            &&& modes.subprocess_tui <==> tui && !args.legacy_tui && terminal
            &&& modes.enable_rpc <==> args.rpc
            &&& args.no_auto_merge ==> modes.auto_merge_override == Some(false)
            &&& !args.no_auto_merge ==> modes.auto_merge_override is None
        }),
{
}

/// Only commands that run a loop show the terminal interface and write diagnostics, and so does no command
/// at all, which runs one.
pub proof fn law_only_loops_show_the_interface(command: Commands)
    ensures
        shows_tui(None),
        runs_loop(None),
        shows_tui(Some(command)) ==> runs_loop(Some(command)),
        command is Run || command is Resume <==> runs_loop(Some(command)),
        command matches Commands::Run(args) ==> (shows_tui(Some(command)) <==> !args.no_tui
            && !args.autonomous && !args.rpc),
        command matches Commands::Resume(args) ==> (shows_tui(Some(command)) <==> !args.no_tui
            && !args.autonomous && !args.rpc),
{
}

/// A run cannot be continued without its scratchpad, and every other run can begin.
pub proof fn law_only_runs_with_a_scratchpad_continue(path: Seq<char>, exists_there: bool)
    ensures
        continue_fault(true, false, path) == Some(
            "Cannot continue: scratchpad not found at '"@ + path
                + "'. Start a fresh run with `ralph run`."@,
        ),
        continue_fault(true, true, path) is None,
        continue_fault(false, exists_there, path) is None,
{
}

/// What is said on the command line counts before what the environment says, and silence before noise.
pub proof fn law_silence_comes_before_noise(verbose: bool, env_quiet: bool, env_verbose: bool)
    ensures
        verbosity_of(verbose, true, env_quiet, env_verbose) == Verbosity::Quiet,
        verbosity_of(true, false, env_quiet, env_verbose) == Verbosity::Verbose,
        verbosity_of(false, false, true, env_verbose) == Verbosity::Quiet,
        verbosity_of(false, false, false, true) == Verbosity::Verbose,
        verbosity_of(false, false, false, false) == Verbosity::Normal,
{
}

/// Output is never coloured where colours are refused, always where they are asked for, and else on a
/// terminal.
pub proof fn law_colors_can_be_refused(mode: ColorMode, terminal: bool)
    ensures
        !uses_colors(mode, true, terminal),
        uses_colors(ColorMode::Always, false, terminal),
        !uses_colors(ColorMode::Never, false, terminal),
        uses_colors(ColorMode::Auto, false, terminal) <==> terminal,
{
}

/// Logs go where they disturb nothing: to a file beside the terminal interface, and to the error stream
/// beside a caller that reads the output. Without that file nothing is logged. Traces are captured only
/// where diagnostics are asked for and there is a layer for them.
pub proof fn law_logs_disturb_nothing(cfg: LoggingConfig, file: bool, capture: TraceCapture)
    ensures
        cfg.tui_enabled ==> sink_of(cfg) == LogSink::File,
        !cfg.tui_enabled && (cfg.rpc_enabled || cfg.mcp_enabled) ==> sink_of(cfg)
            == LogSink::Stderr,
        !cfg.tui_enabled && !cfg.rpc_enabled && !cfg.mcp_enabled ==> sink_of(cfg)
            == LogSink::Stdout,
        log_plan(cfg, file, capture) is None <==> cfg.tui_enabled && !file,
        log_plan(cfg, file, capture) is Some ==> log_plan(cfg, file, capture)->0.sink == sink_of(cfg)
            && (log_plan(cfg, file, capture)->0.capture <==> cfg.diagnostics_enabled && capture
            == TraceCapture::Layer),
{
}

/// A process that leads its group stays as it is, one whose group has the terminal keeps it, and every
/// other leads a group of its own.
pub proof fn law_processes_keep_their_terminal(pid: i32, group: i32, other: i32, stdout: Option<i32>)
    ensures
        group_change(pid, pid, stdout, stdout) == GroupChange::AlreadyLeader,
        group != pid ==> group_change(pid, group, Some(group), stdout)
            == GroupChange::KeepForeground,
        group != pid && other != group ==> group_change(pid, group, Some(other), stdout)
            == GroupChange::Lead,
        group != pid ==> group_change(pid, group, None, Some(group)) == GroupChange::KeepForeground,
        group != pid && stdout != Some(group) ==> group_change(pid, group, None, stdout)
            == GroupChange::Lead,
{
}

// ---- the lock ----

/// A free lock makes the primary loop. A lock that is held is waited for where that is asked, else worked
/// around where loops may run side by side, else the run is refused.
pub proof fn law_held_locks_are_respected(
    attempt: LockAttempt,
    exclusive: bool,
    parallel: bool,
    plan: LockPlan,
)
    requires
        lock_planned(attempt, exclusive, parallel, plan),
    ensures
        attempt is Acquired <==> plan is Primary,
        plan is WaitForLock <==> attempt is Held && exclusive,
        plan is Worktree <==> attempt is Held && !exclusive && parallel,
        plan is Refuse <==> attempt is Held && !exclusive && !parallel,
        plan is Unlocked <==> attempt is Unsupported,
        plan is Fail <==> attempt is Failed,
        plan matches LockPlan::Refuse(message) ==> message@ == lock_refusal(
            attempt->pid,
            attempt->prompt@,
        ),
{
}

/// A refused run is told who holds the lock, with the beginning of its prompt.
pub proof fn law_refusals_name_the_holder(pid: u32, prompt: Seq<char>)
    ensures
        lock_refusal(pid, prompt) == "Another loop is already running (PID "@ + decimal(pid as nat)
            + ", prompt: \""@ + beginning(prompt, 50)
            + "\"). Parallel loops are disabled in config (features.parallel: false). Use --exclusive to wait for the lock, or enable parallel loops."@,
        prompt.len() <= 50 ==> beginning(prompt, 50) == prompt,
        prompt.len() > 50 ==> beginning(prompt, 50) == prompt.take(50),
{
}

// ---- prompts and children ----

/// A text that fits is kept, and one that does not is cut and ends with three dots, within its limit where
/// that has room for them.
pub proof fn law_long_texts_end_with_dots(s: Seq<char>, max: nat)
    ensures
        s.len() <= max ==> shortened(s, max) == s,
        s.len() > max && max > 3 ==> shortened(s, max) == s.take(max - 3) + "..."@ && shortened(
            s,
            max,
        ).len() == max,
        s.len() > max && max <= 3 ==> shortened(s, max) == "..."@,
{
    reveal_strlit("...");
}

/// A prompt is told by its text, else by what its file holds, and else said to be missing.
pub proof fn law_prompts_are_told_by_their_text(
    text: Seq<char>,
    file: Seq<char>,
    content: Option<Seq<char>>,
)
    ensures
        summary_of_prompt(Some(text), file, content) == shortened(text, 100),
        file.len() > 0 && content is Some ==> summary_of_prompt(None, file, content) == shortened(
            content->0,
            100,
        ),
        file.len() == 0 || content is None ==> summary_of_prompt(None, file, content)
            == "[no prompt]"@,
{
}

/// A child that succeeded kept the promise; else its exit code tells whether iterations ran out or it was
/// interrupted, and any other code stopped it.
pub proof fn law_exit_codes_tell_the_reason(code: Option<i32>)
    ensures
        reason_of_exit(true, code) == TerminationReason::CompletionPromise,
        reason_of_exit(false, Some(1i32)) == TerminationReason::MaxIterations,
        reason_of_exit(false, Some(130i32)) == TerminationReason::Interrupted,
        code != Some(1i32) && code != Some(130i32) ==> reason_of_exit(false, code)
            == TerminationReason::Stopped,
{
}

/// A repeated flag stands before each of its values, in order.
pub proof fn law_flags_stand_before_their_values(
    flag: Seq<char>,
    a: Seq<Seq<char>>,
    b: Seq<Seq<char>>,
    value: Seq<char>,
)
    ensures
        repeated_args(flag, a + b) == repeated_args(flag, a) + repeated_args(flag, b),
        repeated_args(flag, seq![value]) == seq![flag, value],
        repeated_args(flag, Seq::empty()).len() == 0,
        value_args(flag, Some(value)) == seq![flag, value],
        value_args(flag, None).len() == 0,
    decreases b.len(),
{
    reveal_with_fuel(repeated_args, 2);
    assert(seq![value].drop_last() == Seq::<Seq<char>>::empty());
    assert(Seq::<Seq<char>>::empty() + seq![flag, value] == seq![flag, value]);
    if b.len() == 0 {
        assert(a + b == a);
        assert(repeated_args(flag, a) + repeated_args(flag, b) == repeated_args(flag, a));
    } else {
        law_flags_stand_before_their_values(flag, a, b.drop_last(), value);
        assert((a + b).drop_last() == a + b.drop_last());
        assert((a + b).last() == b.last());
        assert(repeated_args(flag, a) + (repeated_args(flag, b.drop_last()) + seq![flag, b.last()])
            == (repeated_args(flag, a) + repeated_args(flag, b.drop_last())) + seq![
            flag,
            b.last(),
        ]);
    }
}

/// A child that is given nothing is only told to run for a remote caller.
pub proof fn law_children_run_for_a_caller(args: SubprocessTuiArgs)
    requires
        args.config_sources@.len() == 0,
        args.hats_source is None,
        args.prompt_text is None,
        args.prompt_file is None,
        args.backend is None,
        args.max_iterations is None,
        args.completion_promise is None,
        !args.continue_mode,
        args.loop_id is None,
        args.idle_timeout is None,
        !args.verbose,
        !args.quiet,
        args.record_session is None,
        !args.exclusive,
        !args.no_auto_merge,
        !args.skip_preflight,
    ensures
        child_command(args, false, Seq::empty()) == seq!["run"@, "--rpc"@],
        child_command(args, true, Seq::empty()) == seq!["run"@, "--rpc"@, "--continue"@],
{
    assert(texts(args.config_sources@).len() == 0);
    assert(child_command(args, false, Seq::empty()) =~= seq!["run"@, "--rpc"@]);
    assert(child_command(args, true, Seq::empty()) =~= seq!["run"@, "--rpc"@, "--continue"@]);
}

/// Whether a flag with a value stands among arguments.
pub open spec fn tells(command: Seq<Seq<char>>, flag: Seq<char>, value: Seq<char>) -> bool {
    exists|i: int| 0 <= i && i + 1 < command.len() && #[trigger] command[i] == flag && command[i + 1]
        == value
}

/// Arguments that follow each other.
pub open spec fn in_a_row(parts: Seq<Seq<Seq<char>>>) -> Seq<Seq<char>>
    decreases parts.len(),
{
    if parts.len() == 0 {
        Seq::empty()
    } else {
        in_a_row(parts.drop_last()) + parts.last()
    }
}

proof fn lemma_next_in_a_row(parts: Seq<Seq<Seq<char>>>, part: Seq<Seq<char>>)
    ensures
        in_a_row(parts.push(part)) == in_a_row(parts) + part,
{
    assert(parts.push(part).drop_last() == parts);
}

proof fn lemma_tells_part(parts: Seq<Seq<Seq<char>>>, i: int, flag: Seq<char>, value: Seq<char>)
    requires
        0 <= i < parts.len(),
        parts[i] == seq![flag, value],
    ensures
        tells(in_a_row(parts), flag, value),
    decreases parts.len(),
{
    let before = in_a_row(parts.drop_last());
    let whole = in_a_row(parts);
    if i == parts.len() - 1 {
        assert(whole[before.len() as int] == flag);
        assert(whole[before.len() as int + 1] == value);
    } else {
        lemma_tells_part(parts.drop_last(), i, flag, value);
        let k = choose|k: int| 0 <= k && k + 1 < before.len() && #[trigger] before[k] == flag
            && before[k + 1] == value;
        assert(whole[k] == flag);
        assert(whole[k + 1] == value);
    }
}

proof fn lemma_holds_part(parts: Seq<Seq<Seq<char>>>, i: int, flag: Seq<char>)
    requires
        0 <= i < parts.len(),
        parts[i] == seq![flag],
    ensures
        in_a_row(parts).contains(flag),
    decreases parts.len(),
{
    let before = in_a_row(parts.drop_last());
    let whole = in_a_row(parts);
    if i == parts.len() - 1 {
        assert(whole[before.len() as int] == flag);
    } else {
        lemma_holds_part(parts.drop_last(), i, flag);
        let k = before.index_of(flag);
        assert(whole[k] == flag);
    }
}

/// The arguments of a child, part by part.
pub open spec fn child_parts(args: SubprocessTuiArgs, resume: bool) -> Seq<Seq<Seq<char>>> {
    seq![
        repeated_args("-c"@, texts(args.config_sources@)),
        value_args("-H"@, opt_text(args.hats_source)),
        seq!["run"@, "--rpc"@],
        value_args("-p"@, opt_text(args.prompt_text)),
        value_args("-P"@, opt_text(args.prompt_file)),
        value_args("-b"@, opt_text(args.backend)),
        value_args("--max-iterations"@, number_text(args.max_iterations)),
        value_args("--completion-promise"@, opt_text(args.completion_promise)),
        flag_args("--continue"@, resume || args.continue_mode),
        value_args("--loop-id"@, opt_text(args.loop_id)),
        value_args("--idle-timeout"@, number_text(args.idle_timeout)),
        flag_args("-v"@, args.verbose),
        flag_args("-q"@, args.quiet),
        value_args("--record-session"@, opt_text(args.record_session)),
        flag_args("--exclusive"@, args.exclusive),
        flag_args("--no-auto-merge"@, args.no_auto_merge),
        flag_args("--skip-preflight"@, args.skip_preflight),
    ]
}

#[verifier::spinoff_prover]
#[verifier::rlimit(40)]
proof fn lemma_child_parts(args: SubprocessTuiArgs, resume: bool, custom: Seq<Seq<char>>)
    ensures
        child_command(args, resume, custom) == in_a_row(child_parts(args, resume)) + (if custom.len()
            > 0 {
            seq!["--"@] + custom
        } else {
            Seq::empty()
        }),
{
    let parts = child_parts(args, resume);
    let p0 = Seq::<Seq<Seq<char>>>::empty();
    let p1 = p0.push(parts[0]);
    lemma_next_in_a_row(p0, parts[0]);
    let p2 = p1.push(parts[1]);
    lemma_next_in_a_row(p1, parts[1]);
    let p3 = p2.push(parts[2]);
    lemma_next_in_a_row(p2, parts[2]);
    let p4 = p3.push(parts[3]);
    lemma_next_in_a_row(p3, parts[3]);
    let p5 = p4.push(parts[4]);
    lemma_next_in_a_row(p4, parts[4]);
    let p6 = p5.push(parts[5]);
    lemma_next_in_a_row(p5, parts[5]);
    let p7 = p6.push(parts[6]);
    lemma_next_in_a_row(p6, parts[6]);
    let p8 = p7.push(parts[7]);
    lemma_next_in_a_row(p7, parts[7]);
    let p9 = p8.push(parts[8]);
    lemma_next_in_a_row(p8, parts[8]);
    let p10 = p9.push(parts[9]);
    lemma_next_in_a_row(p9, parts[9]);
    let p11 = p10.push(parts[10]);
    lemma_next_in_a_row(p10, parts[10]);
    let p12 = p11.push(parts[11]);
    lemma_next_in_a_row(p11, parts[11]);
    let p13 = p12.push(parts[12]);
    lemma_next_in_a_row(p12, parts[12]);
    let p14 = p13.push(parts[13]);
    lemma_next_in_a_row(p13, parts[13]);
    let p15 = p14.push(parts[14]);
    lemma_next_in_a_row(p14, parts[14]);
    let p16 = p15.push(parts[15]);
    lemma_next_in_a_row(p15, parts[15]);
    let p17 = p16.push(parts[16]);
    lemma_next_in_a_row(p16, parts[16]);
    assert(p17 == parts);
    assert(Seq::<Seq<char>>::empty() + parts[0] == parts[0]);
}

proof fn lemma_tells_kept(a: Seq<Seq<char>>, b: Seq<Seq<char>>, flag: Seq<char>, value: Seq<char>)
    requires
        tells(a, flag, value),
    ensures
        tells(a + b, flag, value),
{
    let k = choose|k: int| 0 <= k && k + 1 < a.len() && #[trigger] a[k] == flag && a[k + 1]
        == value;
    assert((a + b)[k] == flag);
    assert((a + b)[k + 1] == value);
}

/// Every value that a run is given reaches its child, behind its flag.
#[verifier::spinoff_prover]
#[verifier::rlimit(40)]
pub proof fn law_children_are_told_every_value(
    args: SubprocessTuiArgs,
    resume: bool,
    custom: Seq<Seq<char>>,
)
    ensures
        args.hats_source is Some ==> tells(child_command(args, resume, custom), "-H"@, args.hats_source->0@),
        args.prompt_text is Some ==> tells(child_command(args, resume, custom), "-p"@, args.prompt_text->0@),
        args.prompt_file is Some ==> tells(child_command(args, resume, custom), "-P"@, args.prompt_file->0@),
        args.backend is Some ==> tells(child_command(args, resume, custom), "-b"@, args.backend->0@),
        args.max_iterations is Some ==> tells(child_command(args, resume, custom), "--max-iterations"@, decimal(args.max_iterations->0 as nat)),
        args.completion_promise is Some ==> tells(child_command(args, resume, custom), "--completion-promise"@, args.completion_promise->0@),
        args.loop_id is Some ==> tells(child_command(args, resume, custom), "--loop-id"@, args.loop_id->0@),
        args.idle_timeout is Some ==> tells(child_command(args, resume, custom), "--idle-timeout"@, decimal(args.idle_timeout->0 as nat)),
        args.record_session is Some ==> tells(child_command(args, resume, custom), "--record-session"@, args.record_session->0@),
{
    let parts = child_parts(args, resume);
    let most = in_a_row(parts);
    let rest = if custom.len() > 0 {
        seq!["--"@] + custom
    } else {
        Seq::empty()
    };
    lemma_child_parts(args, resume, custom);
    if args.hats_source is Some {
        lemma_tells_part(parts, 1, "-H"@, args.hats_source->0@);
        lemma_tells_kept(most, rest, "-H"@, args.hats_source->0@);
    }
    if args.prompt_text is Some {
        lemma_tells_part(parts, 3, "-p"@, args.prompt_text->0@);
        lemma_tells_kept(most, rest, "-p"@, args.prompt_text->0@);
    }
    if args.prompt_file is Some {
        lemma_tells_part(parts, 4, "-P"@, args.prompt_file->0@);
        lemma_tells_kept(most, rest, "-P"@, args.prompt_file->0@);
    }
    if args.backend is Some {
        lemma_tells_part(parts, 5, "-b"@, args.backend->0@);
        lemma_tells_kept(most, rest, "-b"@, args.backend->0@);
    }
    if args.max_iterations is Some {
        lemma_tells_part(parts, 6, "--max-iterations"@, decimal(args.max_iterations->0 as nat));
        lemma_tells_kept(most, rest, "--max-iterations"@, decimal(args.max_iterations->0 as nat));
    }
    if args.completion_promise is Some {
        lemma_tells_part(parts, 7, "--completion-promise"@, args.completion_promise->0@);
        lemma_tells_kept(most, rest, "--completion-promise"@, args.completion_promise->0@);
    }
    if args.loop_id is Some {
        lemma_tells_part(parts, 9, "--loop-id"@, args.loop_id->0@);
        lemma_tells_kept(most, rest, "--loop-id"@, args.loop_id->0@);
    }
    if args.idle_timeout is Some {
        lemma_tells_part(parts, 10, "--idle-timeout"@, decimal(args.idle_timeout->0 as nat));
        lemma_tells_kept(most, rest, "--idle-timeout"@, decimal(args.idle_timeout->0 as nat));
    }
    if args.record_session is Some {
        lemma_tells_part(parts, 13, "--record-session"@, args.record_session->0@);
        lemma_tells_kept(most, rest, "--record-session"@, args.record_session->0@);
    }
}

/// Every flag that a run is given reaches its child.
#[verifier::spinoff_prover]
#[verifier::rlimit(40)]
pub proof fn law_children_are_told_every_flag(
    args: SubprocessTuiArgs,
    resume: bool,
    custom: Seq<Seq<char>>,
)
    ensures
        resume || args.continue_mode ==> child_command(args, resume, custom).contains("--continue"@),
        args.verbose ==> child_command(args, resume, custom).contains("-v"@),
        args.quiet ==> child_command(args, resume, custom).contains("-q"@),
        args.exclusive ==> child_command(args, resume, custom).contains("--exclusive"@),
        args.no_auto_merge ==> child_command(args, resume, custom).contains("--no-auto-merge"@),
        args.skip_preflight ==> child_command(args, resume, custom).contains("--skip-preflight"@),
{
    let parts = child_parts(args, resume);
    let most = in_a_row(parts);
    let command = child_command(args, resume, custom);
    lemma_child_parts(args, resume, custom);
    assert forall|flag: Seq<char>| #[trigger] most.contains(flag) implies command.contains(flag) by {
        let k = most.index_of(flag);
        assert(command[k] == flag);
    }
    if resume || args.continue_mode {
        lemma_holds_part(parts, 8, "--continue"@);
    }
    if args.verbose {
        lemma_holds_part(parts, 11, "-v"@);
    }
    if args.quiet {
        lemma_holds_part(parts, 12, "-q"@);
    }
    if args.exclusive {
        lemma_holds_part(parts, 14, "--exclusive"@);
    }
    if args.no_auto_merge {
        lemma_holds_part(parts, 15, "--no-auto-merge"@);
    }
    if args.skip_preflight {
        lemma_holds_part(parts, 16, "--skip-preflight"@);
    }
}

/// The arguments for the backend reach the child as they are, at the end and set off from the others.
pub proof fn law_children_are_told_what_their_backend_is(
    args: SubprocessTuiArgs,
    resume: bool,
    custom: Seq<Seq<char>>,
)
    requires
        custom.len() > 0,
    ensures
        ({
            let command = child_command(args, resume, custom);
            &&& command.len() > custom.len()
            &&& command.skip(command.len() - custom.len()) == custom
            &&& command[command.len() - custom.len() - 1] == "--"@
        }),
{
    lemma_child_parts(args, resume, custom);
    let command = child_command(args, resume, custom);
    assert(command.skip(command.len() - custom.len()) == custom);
}

// ---- preflight ----

/// A run passes its checks where none failed, and a strict one where none warned either.
pub proof fn law_strict_checks_count_warnings(report: PreflightReport)
    ensures
        is_passed(report, false) <==> report.failures == 0,
        is_passed(report, true) <==> report.failures == 0 && report.warnings == 0,
{
}

/// Checks are run one by one: those that are not skipped, by their names whatever their case, and none
/// where checks are off.
pub proof fn law_skipped_checks_are_not_run(
    features: FeaturesConfig,
    a: Seq<Seq<char>>,
    b: Seq<Seq<char>>,
    name: Seq<char>,
)
    ensures
        checks_run(features, true, a).len() == 0,
        !features.preflight.enabled ==> checks_run(features, false, a).len() == 0,
        checks_run(features, false, a + b) == checks_run(features, false, a) + checks_run(
            features,
            false,
            b,
        ),
        features.preflight.enabled ==> {
            let skipped = exists|i: int|
                0 <= i < features.preflight.skip@.len() && lowercase(
                    (#[trigger] features.preflight.skip@[i])@,
                ) == lowercase(name);
            &&& skipped ==> checks_run(features, false, seq![name]).len() == 0
            &&& !skipped ==> checks_run(features, false, seq![name]) == seq![name]
        },
{
    let skip = texts(features.preflight.skip@);
    let kept = |n: Seq<char>| !crate::cli::preflight::is_skipped(skip, n);
    Seq::filter_distributes_over_add(a, b, kept);
    reveal(Seq::filter);
    reveal_with_fuel(Seq::filter, 2);
    assert(seq![name].drop_last() == Seq::<Seq<char>>::empty());
    assert(seq![name].last() == name);
    assert(Seq::<Seq<char>>::empty().push(name) == seq![name]);
    let lowered = skip.map_values(|s: Seq<char>| lowercase(s));
    if crate::cli::preflight::is_skipped(skip, name) {
        let i = lowered.index_of(lowercase(name));
        assert(lowercase(features.preflight.skip@[i]@) == lowercase(name));
    }
    if exists|i: int|
        0 <= i < features.preflight.skip@.len() && lowercase(
            (#[trigger] features.preflight.skip@[i])@,
        ) == lowercase(name) {
        let i = choose|i: int|
            0 <= i < features.preflight.skip@.len() && lowercase(
                (#[trigger] features.preflight.skip@[i])@,
            ) == lowercase(name);
        assert(lowered[i] == lowercase(name));
    }
}

/// What checks are told of is told one by one: those of a status that have a message.
pub proof fn law_checks_are_told_one_by_one(
    a: Seq<CheckView>,
    b: Seq<CheckView>,
    check: CheckView,
    status: CheckStatus,
    sign: Seq<char>,
)
    ensures
        messages_of(a + b, status, sign) == messages_of(a, status, sign) + messages_of(
            b,
            status,
            sign,
        ),
        check.status == status && check.message is Some ==> messages_of(seq![check], status, sign)
            == seq![sign + check.name + ": "@ + check.message->0],
        check.status != status || check.message is None ==> messages_of(
            seq![check],
            status,
            sign,
        ).len() == 0,
        icons_of(a + b) == icons_of(a) + icons_of(b),
        icons_of(seq![check]) == seq![status_icon(check.status) + check.name],
        status_icon(CheckStatus::Pass) == "✓ "@,
        status_icon(CheckStatus::Warn) == "⚠ "@,
        status_icon(CheckStatus::Fail) == "✗ "@,
    decreases b.len(),
{
    reveal_with_fuel(messages_of, 2);
    assert(seq![check].drop_last() == Seq::<CheckView>::empty());
    assert(seq![check].last() == check);
    assert(icons_of(a + b) == icons_of(a) + icons_of(b));
    assert(icons_of(seq![check]) == seq![status_icon(check.status) + check.name]);
    if b.len() == 0 {
        assert(a + b == a);
    } else {
        law_checks_are_told_one_by_one(a, b.drop_last(), check, status, sign);
        assert((a + b).drop_last() == a + b.drop_last());
        assert((a + b).last() == b.last());
    }
}

/// The summary of checks counts failures, else warnings, and says where there are no checks. One is counted
/// in the singular.
pub proof fn law_summaries_count_failures_first(
    report: PreflightReport,
    word: Seq<char>,
    n: nat,
    strict: bool,
)
    ensures
        ({
            let summary = if report.checks@.len() == 0 {
                "no checks"@
            } else {
                joined(icons_of(report.results()), " "@)
            };
            &&& report.failures > 0 ==> summary_of(report) == summary + " ("@ + counted(
                report.failures as nat,
                " failure"@,
            ) + ")"@
            &&& report.failures == 0 && report.warnings > 0 ==> summary_of(report) == summary + " ("@
                + counted(report.warnings as nat, " warning"@) + ")"@
            &&& report.failures == 0 && report.warnings == 0 ==> summary_of(report) == summary
        }),
        counted(1, word) == decimal(1) + word,
        n != 1 ==> counted(n, word) == decimal(n) + word + "s"@,
        strict && report.warnings > 0 ==> failure_counts(report, strict) == counted(
            report.failures as nat,
            " failure"@,
        ) + ", "@ + counted(report.warnings as nat, " warning"@),
        !strict || report.warnings == 0 ==> failure_counts(report, strict) == counted(
            report.failures as nat,
            " failure"@,
        ),
{
    assert(decimal(1) + word + Seq::<char>::empty() == decimal(1) + word);
}

/// Behind the summary every failure is told, and warnings where that is asked for.
pub proof fn law_failures_are_always_told(report: PreflightReport, prefix: Seq<char>)
    ensures
        summary_lines(report, false, prefix) == seq![prefix + summary_of(report)] + messages_of(
            report.results(),
            CheckStatus::Fail,
            "  ✗ "@,
        ),
        summary_lines(report, true, prefix) == summary_lines(report, false, prefix) + messages_of(
            report.results(),
            CheckStatus::Warn,
            "  ⚠ "@,
        ),
{
    assert(summary_lines(report, false, prefix) =~= seq![prefix + summary_of(report)] + messages_of(
        report.results(),
        CheckStatus::Fail,
        "  ✗ "@,
    ));
}

} // verus!
