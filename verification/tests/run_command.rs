use ralph::cli::args::{EventsArgs, ResumeArgs, RunArgs};
use ralph::cli::config_source::{ConfigSource, HatsSource};
use ralph::cli::events::{history_path, run, select_records, EventsOutput, HistoryRecord};
use ralph::cli::logging::{
    diagnostics_enabled, init, log_filter, log_sink, LogPlan, LogSink, LoggingConfig, TraceCapture,
};
use ralph::cli::process::{setup_process_group, GroupChange};
use ralph::cli::run::{
    apply_resume_overrides, apply_run_overrides, describe_dry_run, needs_detection, plan_lock,
    run_modes, truncate_with_ellipsis, LockAttempt, LockPlan, SubprocessTuiArgs,
};
use ralph::cli::run_steps::{RunCommand, RunReport, RunStep};
use ralph::cli::types::OutputFormat;
use ralph::config::core_config::CoreConfig;
use ralph::config::ralph_config::RalphConfig;
use ralph::config::settings::{
    CliConfig, FeaturesConfig, InjectMode, MemoriesConfig, PreflightConfig, RobotConfig,
    SkillsConfig,
};
use ralph::loop_runner::termination::TerminationReason;
use ralph::path::{entries, file_name, has_several_components, is_absolute, join_path, paths_equal};
use ralph::text::{
    contains, decimal_text, eq_ignore_ascii_case, find, hexadecimal_text, is_blank, join, less,
    lines, signed_text, sort, split, split_once, strip_prefix, trim, trim_end, trim_start, unique,
    utf8_len, wide_decimal_text,
};

fn text(s: &str) -> String {
    s.to_string()
}

fn default_config() -> RalphConfig {
    RalphConfig::with_sections(
        CoreConfig::in_workspace(None, Some(text("/work"))),
        CliConfig {
            backend: text("auto"),
            command: None,
            default_mode: text("autonomous"),
            idle_timeout_secs: 30,
        },
        MemoriesConfig {
            enabled: true,
            inject: InjectMode::Auto,
            budget: 0,
        },
        SkillsConfig {
            enabled: true,
            dirs: vec![],
        },
        FeaturesConfig {
            parallel: true,
            auto_merge: false,
            preflight: PreflightConfig {
                enabled: true,
                strict: false,
                skip: vec![],
            },
        },
        RobotConfig {
            enabled: false,
            timeout_seconds: None,
            checkin_interval_seconds: None,
            fault: None,
        },
    )
}

fn plain_run() -> RunArgs {
    RunArgs {
        prompt_text: None,
        backend: None,
        prompt_file: None,
        max_iterations: None,
        completion_promise: None,
        dry_run: false,
        continue_mode: false,
        loop_id: None,
        no_tui: true,
        autonomous: false,
        rpc: false,
        legacy_tui: false,
        idle_timeout: None,
        exclusive: false,
        no_auto_merge: false,
        skip_preflight: false,
        verbose: false,
        quiet: false,
        record_session: None,
        custom_args: vec![],
    }
}

// ---- overrides ----

#[test]
fn arguments_of_a_run_replace_the_configuration() {
    let mut config = default_config();
    assert!(needs_detection(&config));
    let before = format!("{config:?}");
    apply_run_overrides(&mut config, &plain_run(), false);
    assert_eq!(format!("{config:?}"), before);
    let args = RunArgs {
        prompt_text: Some(text("Do it")),
        prompt_file: Some(text("ignored.md")),
        backend: Some(text("gemini")),
        max_iterations: Some(3),
        completion_promise: Some(text("DONE")),
        idle_timeout: Some(5),
        no_tui: false,
        ..plain_run()
    };
    apply_run_overrides(&mut config, &args, true);
    assert_eq!(config.event_loop.prompt.as_deref(), Some("Do it"));
    assert_eq!(config.event_loop.prompt_file, "");
    assert_eq!(config.event_loop.max_iterations, 3);
    assert_eq!(config.event_loop.completion_promise, "DONE");
    assert_eq!(config.cli.backend, "gemini");
    assert_eq!(config.cli.default_mode, "interactive");
    assert_eq!(config.cli.idle_timeout_secs, 5);
    assert!(config.verbose && !needs_detection(&config));
    let args = RunArgs {
        prompt_file: Some(text("TASK.md")),
        autonomous: true,
        ..plain_run()
    };
    apply_run_overrides(&mut config, &args, false);
    assert_eq!(config.event_loop.prompt, None);
    assert_eq!(config.event_loop.prompt_file, "TASK.md");
    assert_eq!(config.cli.default_mode, "autonomous");
    assert!(config.verbose);
}

#[test]
fn arguments_of_a_resumed_loop_replace_the_configuration() {
    let mut config = default_config();
    apply_resume_overrides(
        &mut config,
        &ResumeArgs {
            max_iterations: Some(9),
            no_tui: false,
            autonomous: false,
            rpc: false,
            idle_timeout: Some(0),
            verbose: false,
            quiet: false,
            record_session: None,
        },
        false,
    );
    assert_eq!(config.event_loop.max_iterations, 9);
    assert_eq!(config.cli.default_mode, "interactive");
    assert_eq!(config.cli.idle_timeout_secs, 0);
    assert!(!config.verbose);
}

#[test]
fn the_terminal_interface_is_chosen_by_flags_and_terminal() {
    let with_tui = RunArgs {
        no_tui: false,
        ..plain_run()
    };
    let modes = run_modes(&with_tui, true);
    assert!(modes.subprocess_tui && !modes.enable_tui && !modes.enable_rpc);
    assert_eq!(modes.auto_merge_override, None);
    assert!(!run_modes(&with_tui, false).subprocess_tui);
    let legacy = RunArgs {
        no_tui: false,
        legacy_tui: true,
        no_auto_merge: true,
        ..plain_run()
    };
    let modes = run_modes(&legacy, true);
    assert!(!modes.subprocess_tui && modes.enable_tui);
    assert_eq!(modes.auto_merge_override, Some(false));
    let rpc = RunArgs {
        no_tui: false,
        rpc: true,
        ..plain_run()
    };
    let modes = run_modes(&rpc, true);
    assert!(!modes.subprocess_tui && !modes.enable_tui && modes.enable_rpc);
}

// ---- the lock ----

#[test]
fn one_loop_is_the_primary_one() {
    let held = LockAttempt::Held {
        pid: 42,
        prompt: "x".repeat(60),
    };
    assert!(matches!(plan_lock(&LockAttempt::Acquired, true, true), LockPlan::Primary));
    assert!(matches!(plan_lock(&held, true, true), LockPlan::WaitForLock));
    assert!(matches!(plan_lock(&held, false, true), LockPlan::Worktree));
    match plan_lock(&held, false, false) {
        LockPlan::Refuse(message) => assert_eq!(
            message,
            format!(
                "Another loop is already running (PID 42, prompt: \"{}\"). Parallel loops are disabled in config (features.parallel: false). Use --exclusive to wait for the lock, or enable parallel loops.",
                "x".repeat(50)
            )
        ),
        other => panic!("unexpected plan: {other:?}"),
    }
    assert!(matches!(
        plan_lock(&LockAttempt::Unsupported, false, false),
        LockPlan::Unlocked
    ));
    assert!(matches!(plan_lock(&LockAttempt::Failed, true, true), LockPlan::Fail));
}

// ---- the child process ----

#[test]
fn the_child_process_is_told_all_that_the_run_was_told() {
    let args = RunArgs {
        prompt_text: Some(text("Do it")),
        max_iterations: Some(3),
        loop_id: Some(text("l")),
        verbose: true,
        exclusive: true,
        skip_preflight: true,
        ..plain_run()
    };
    let sources = vec![
        ConfigSource::File(text("ralph.yml")),
        ConfigSource::Override {
            key: text("core.specs_dir"),
            value: text("s"),
        },
    ];
    let child = SubprocessTuiArgs::new(&args, &sources, Some(&HatsSource::Builtin(text("tdd"))));
    assert_eq!(
        child.child_args(true, &vec![text("--model"), text("m")]),
        vec![
            "-c", "ralph.yml", "-c", "core.specs_dir=s", "-H", "builtin:tdd", "run", "--rpc",
            "-p", "Do it", "--max-iterations", "3", "--continue", "--loop-id", "l", "-v",
            "--exclusive", "--skip-preflight", "--", "--model", "m",
        ]
    );
    let child = SubprocessTuiArgs::new(&plain_run(), &vec![], None);
    assert_eq!(child.child_args(false, &vec![]), vec!["run", "--rpc"]);
}

#[test]
fn a_dry_run_shows_the_configuration() {
    let mut config = default_config();
    assert_eq!(
        describe_dry_run(&config, 0),
        vec![
            "Dry run mode - configuration:",
            "  Hats: planner, builder (default)",
            "  Prompt file: PROMPT.md",
            "  Completion promise: LOOP_COMPLETE",
            "  Max iterations: 100",
            "  Max runtime: 14400s",
            "  Scratchpad: .ralph/agent/scratchpad.md (enabled: true)",
            "  Specs dir: .ralph/specs/",
            "  Backend: auto",
            "  Verbose: false",
            "  Default mode: autonomous",
        ]
    );
    config.event_loop.prompt = Some(text("a\nb"));
    config.cli.default_mode = text("interactive");
    let lines = describe_dry_run(&config, 2);
    assert_eq!(lines[2], "  Prompt: inline text (a b)");
    assert_eq!(lines[11], "  Idle timeout: 30s");
    assert_eq!(lines[12], "  Warnings: 2");
    assert_eq!(truncate_with_ellipsis("é".repeat(5).as_str(), 4), "é...");
}

// ---- the steps ----

fn after(mut command: RunCommand, reports: Vec<RunReport>) -> RunCommand {
    for report in reports {
        command.advance(report);
    }
    command
}

fn up_to_the_lock(command: RunCommand) -> RunCommand {
    after(
        command,
        vec![
            RunReport::Done,
            RunReport::Valid { detect: true },
            RunReport::Done,
            RunReport::Done,
        ],
    )
}

#[test]
fn a_primary_run_goes_from_the_configuration_to_the_end() {
    let run = up_to_the_lock(RunCommand::run_command(false, false, false));
    assert_eq!(run.step, RunStep::TryLock);
    let run = after(run, vec![RunReport::Lock(LockPlan::Primary), RunReport::Done]);
    assert_eq!(run.step, RunStep::Preflight);
    assert!(run.locked && !run.worktree && !run.checked);
    let run = after(run, vec![RunReport::Answer(true)]);
    assert_eq!(run.step, RunStep::RunLoop);
    assert!(run.checked);
    let ended = after(run, vec![RunReport::Ended(TerminationReason::MaxCost)]);
    assert_eq!(ended.step, RunStep::Finished);
    assert_eq!(ended.reason, Some(TerminationReason::MaxCost));
    let restarted = after(run, vec![RunReport::Ended(TerminationReason::RestartRequested)]);
    assert_eq!(restarted.step, RunStep::ClearRestart);
    let restarted = after(restarted, vec![RunReport::Failed]);
    assert_eq!(restarted.step, RunStep::Restart);
    assert_eq!(after(restarted, vec![RunReport::Done]).step, RunStep::Finished);
}

#[test]
fn dry_runs_leave_nothing() {
    let run = after(
        RunCommand::run_command(false, true, false),
        vec![RunReport::Done, RunReport::Valid { detect: false }],
    );
    assert_eq!(run.step, RunStep::CheckDryRun);
    let run = after(run, vec![RunReport::Done]);
    assert_eq!(run.step, RunStep::Describe);
    let run = after(run, vec![RunReport::Done]);
    assert_eq!(run.step, RunStep::Finished);
    assert_eq!(run.reason, None);
}

#[test]
fn only_checked_runs_are_registered() {
    let run = up_to_the_lock(RunCommand::run_command(false, false, false));
    let run = after(
        run,
        vec![
            RunReport::Lock(LockPlan::Worktree),
            RunReport::Done,
            RunReport::Done,
        ],
    );
    assert_eq!(run.step, RunStep::Preflight);
    assert!(run.worktree && !run.locked);
    let refused = after(run, vec![RunReport::Answer(false)]);
    assert_eq!(refused.step, RunStep::RemoveWorktree);
    assert_eq!(after(refused, vec![RunReport::Done]).step, RunStep::Failed);
    let passed = after(run, vec![RunReport::Answer(true)]);
    assert_eq!(passed.step, RunStep::Register);
    assert!(passed.checked);
    assert_eq!(after(passed, vec![RunReport::Done]).step, RunStep::RunLoop);
}

#[test]
fn the_child_process_takes_the_lock() {
    let run = up_to_the_lock(RunCommand::run_command(false, false, true));
    assert_eq!(run.step, RunStep::MakeDirectories);
    let run = after(run, vec![RunReport::Done, RunReport::Answer(true)]);
    assert_eq!(run.step, RunStep::RunChild);
    assert!(!run.locked);
}

#[test]
fn locks_are_waited_for_or_refused() {
    let run = up_to_the_lock(RunCommand::run_command(false, false, false));
    let waiting = after(run, vec![RunReport::Lock(LockPlan::WaitForLock)]);
    assert_eq!(waiting.step, RunStep::WaitForLock);
    let waited = after(waiting, vec![RunReport::Done]);
    assert_eq!(waited.step, RunStep::MakeDirectories);
    assert!(waited.locked);
    let refused = after(run, vec![RunReport::Lock(LockPlan::Refuse(text("held")))]);
    assert_eq!(refused.step, RunStep::Failed);
    let unlocked = after(run, vec![RunReport::Lock(LockPlan::Unlocked)]);
    assert_eq!(unlocked.step, RunStep::MakeDirectories);
    assert!(!unlocked.locked);
    assert_eq!(after(run, vec![RunReport::Lock(LockPlan::Fail)]).step, RunStep::Failed);
}

#[test]
fn continued_runs_have_a_scratchpad() {
    let run = after(RunCommand::run_command(true, false, false), vec![RunReport::Done]);
    assert_eq!(run.step, RunStep::CheckScratchpad);
    assert_eq!(after(run, vec![RunReport::Answer(false)]).step, RunStep::Failed);
    assert_eq!(after(run, vec![RunReport::Answer(true)]).step, RunStep::Validate);
    let resumed = after(
        RunCommand::resume_command(),
        vec![
            RunReport::Done,
            RunReport::Answer(true),
            RunReport::Valid { detect: false },
        ],
    );
    assert_eq!(resumed.step, RunStep::RunLoop);
    let ended = after(resumed, vec![RunReport::Ended(TerminationReason::RestartRequested)]);
    assert_eq!(ended.step, RunStep::Finished);
}

// ---- the history ----

#[test]
fn the_last_records_that_are_asked_for_are_shown() {
    let args = |last: Option<usize>, topic: Option<&str>, iteration: Option<u32>| EventsArgs {
        last,
        topic: topic.map(text),
        iteration,
        format: OutputFormat::Table,
        file: None,
        clear: false,
    };
    let records: Vec<HistoryRecord> = [(1, "a"), (1, "b"), (2, "a"), (3, "a")]
        .iter()
        .enumerate()
        .map(|(place, (iteration, topic))| HistoryRecord {
            iteration: *iteration,
            topic: text(topic),
            place,
        })
        .collect();
    assert_eq!(select_records(&args(None, None, None), &records), vec![0, 1, 2, 3]);
    assert_eq!(select_records(&args(Some(2), Some("a"), None), &records), vec![2, 3]);
    assert_eq!(select_records(&args(None, Some("a"), Some(1)), &records), vec![0]);
    assert_eq!(select_records(&args(Some(0), None, None), &records), Vec::<usize>::new());
    assert!(matches!(run(&args(None, None, None), None), EventsOutput::NoHistory));
    assert!(matches!(
        run(&args(None, Some("z"), None), Some(&records)),
        EventsOutput::NoMatch
    ));
    assert!(matches!(
        run(&args(None, Some("b"), None), Some(&records)),
        EventsOutput::Table(places) if places == vec![1]
    ));
    let mut json = args(Some(1), None, None);
    json.format = OutputFormat::Json;
    assert!(matches!(
        run(&json, Some(&records)),
        EventsOutput::Json(places) if places == vec![3]
    ));
    json.clear = true;
    assert!(matches!(run(&json, Some(&records)), EventsOutput::Clear));
    assert_eq!(history_path(Some("h.jsonl"), Some("m"), "/w"), "h.jsonl");
    assert_eq!(history_path(None, Some(" .ralph/e.jsonl\n"), "/w"), "/w/.ralph/e.jsonl");
    assert_eq!(history_path(None, None, "/w"), "/w/.ralph/events.jsonl");
}

// ---- logging and processes ----

#[test]
fn log_output_stays_off_reserved_streams() {
    let config = |tui: bool, rpc: bool, mcp: bool, diagnostics: bool| LoggingConfig {
        tui_enabled: tui,
        rpc_enabled: rpc,
        mcp_enabled: mcp,
        diagnostics_enabled: diagnostics,
        filter: "info",
    };
    assert_eq!(log_sink(&config(true, true, false, false)), LogSink::File);
    assert_eq!(log_sink(&config(false, false, true, false)), LogSink::Stderr);
    assert_eq!(log_sink(&config(false, false, false, false)), LogSink::Stdout);
    let file = config(true, false, false, true);
    assert_eq!(init(&file, false, TraceCapture::Layer), None);
    for capture in [TraceCapture::NoSession, TraceCapture::NoLayer] {
        assert_eq!(
            init(&file, true, capture),
            Some(LogPlan {
                sink: LogSink::File,
                capture: false
            })
        );
    }
    assert_eq!(
        init(&file, true, TraceCapture::Layer),
        Some(LogPlan {
            sink: LogSink::File,
            capture: true
        })
    );
    assert_eq!(
        init(&config(false, false, false, true), false, TraceCapture::Layer),
        Some(LogPlan {
            sink: LogSink::Stdout,
            capture: true
        })
    );
    assert_eq!(
        init(&config(false, true, false, true), false, TraceCapture::Layer),
        Some(LogPlan {
            sink: LogSink::Stderr,
            capture: true
        })
    );
    assert_eq!(
        init(&config(false, true, false, false), false, TraceCapture::Layer),
        Some(LogPlan {
            sink: LogSink::Stderr,
            capture: false
        })
    );
    assert_eq!((log_filter(true), log_filter(false)), ("debug", "info"));
    assert!(diagnostics_enabled(true, Some("1")));
    assert!(!diagnostics_enabled(true, Some("true")));
    assert!(!diagnostics_enabled(false, Some("1")));
}

#[test]
fn a_foreground_group_is_kept() {
    assert_eq!(setup_process_group(7, 7, None, None), GroupChange::AlreadyLeader);
    assert_eq!(setup_process_group(7, 5, Some(5), None), GroupChange::KeepForeground);
    assert_eq!(setup_process_group(7, 5, None, Some(5)), GroupChange::KeepForeground);
    assert_eq!(setup_process_group(7, 5, Some(6), Some(5)), GroupChange::Lead);
    assert_eq!(setup_process_group(7, 5, None, None), GroupChange::Lead);
}

// ---- texts and paths ----

#[test]
fn texts_are_taken_apart() {
    assert_eq!(trim(" \u{a0}a b\n"), "a b");
    assert_eq!((trim_start(" a "), trim_end(" a ")), ("a ", " a"));
    assert_eq!(lines("a\r\nb\n\nc"), vec!["a", "b", "", "c"]);
    assert_eq!(lines("a\n"), vec!["a"]);
    assert_eq!(split("a,,b", ','), vec!["a", "", "b"]);
    assert_eq!(split_once("a=b=c", '='), Some((text("a"), text("b=c"))));
    assert_eq!(split_once("abc", '='), None);
    assert_eq!(strip_prefix("builtin:x", "builtin:"), Some(text("x")));
    assert_eq!((find("abcabc", "ca"), find("abc", "x"), find("abc", "")), (Some(2), None, Some(0)));
    assert!(contains("hello", "ell") && !contains("hello", "lle"));
    assert_eq!(join(&vec![text("a"), text("b")], ", "), "a, b");
    assert_eq!(join(&vec![], ", "), "");
    assert!(eq_ignore_ascii_case("JsOn", "json") && !eq_ignore_ascii_case("É", "é"));
    assert!(is_blank(" \t\n") && !is_blank(" a"));
}

#[test]
fn numbers_are_written_out() {
    assert_eq!(decimal_text(0), "0");
    assert_eq!(decimal_text(u64::MAX), "18446744073709551615");
    assert_eq!(wide_decimal_text(u128::MAX), u128::MAX.to_string());
    assert_eq!(hexadecimal_text(0xbeef), "beef");
    assert_eq!(hexadecimal_text(0), "0");
    assert_eq!(signed_text(i32::MIN), "-2147483648");
    assert_eq!(signed_text(7), "7");
    assert_eq!((utf8_len('a'), utf8_len('é'), utf8_len('€'), utf8_len('😀')), (1, 2, 3, 4));
}

#[test]
fn texts_are_ordered_and_told_apart() {
    assert!(less("a", "b") && less("a", "ab") && !less("b", "ab") && !less("a", "a"));
    assert_eq!(
        sort(&vec![text("b"), text("a"), text("ab"), text("B")]),
        vec!["B", "a", "ab", "b"]
    );
    assert_eq!(unique(&vec![text("a"), text("b"), text("a")]), vec!["a", "b"]);
}

#[test]
fn paths_are_joined_and_taken_apart() {
    assert!(is_absolute("/a") && !is_absolute("a") && !is_absolute(""));
    assert_eq!(join_path("/a", "b"), "/a/b");
    assert_eq!(join_path("/a/", "b"), "/a/b");
    assert_eq!(join_path("", "b"), "b");
    assert_eq!(join_path("/a", "/b"), "/b");
    assert_eq!(entries("/a//./b/"), vec!["a", "b"]);
    assert_eq!(file_name("/a/b.txt"), Some(text("b.txt")));
    assert_eq!(file_name("/"), None);
    assert_eq!(file_name("a/.."), None);
    assert!(has_several_components("a/b") && !has_several_components("a"));
    assert!(paths_equal("/a/./b", "/a//b/") && !paths_equal("a", "/a"));
}
