use ralph::cli::args::{
    is_diagnostics_eligible_command, mcp_enabled, rpc_enabled, tui_enabled, Commands, EmitArgs,
    EventsArgs, ResumeArgs, RunArgs, TuiArgs,
};
use ralph::cli::preflight::{
    format_preflight_summary, judge_preflight, plan_preflight, preflight_failure_detail,
    preflight_refusal, print_preflight_summary, CheckResult, PreflightPlan, PreflightReport,
};
use ralph::cli::run::{
    check_continue, exit_reason, prompt_summary, required_restart_command, truncate_with_ellipsis,
    tui_url,
};
use ralph::cli::types::OutputFormat;
use ralph::config::event_loop::EventLoopConfig;
use ralph::config::settings::{FeaturesConfig, PreflightConfig};
use ralph::loop_runner::termination::TerminationReason;

fn default_run_args() -> RunArgs {
    RunArgs {
        prompt_text: None,
        backend: Some("kiro".to_string()),
        prompt_file: None,
        max_iterations: None,
        completion_promise: None,
        dry_run: false,
        continue_mode: false,
        loop_id: None,
        no_tui: true,
        autonomous: false,
        rpc: false,
        legacy_tui: false,
        idle_timeout: None,
        exclusive: false,
        no_auto_merge: false,
        skip_preflight: true,
        verbose: false,
        quiet: false,
        record_session: None,
        custom_args: Vec::new(),
    }
}

fn three_checks() -> PreflightReport {
    PreflightReport {
        passed: false,
        warnings: 1,
        failures: 1,
        checks: vec![
            CheckResult::pass("config", "Config"),
            CheckResult::warn("backend", "Backend", "Missing"),
            CheckResult::fail("paths", "Paths", "Missing path"),
        ],
    }
}

fn features(enabled: bool, strict: bool, skip: &[&str]) -> FeaturesConfig {
    FeaturesConfig {
        parallel: true,
        auto_merge: false,
        preflight: PreflightConfig {
            enabled,
            strict,
            skip: skip.iter().map(|name| name.to_string()).collect(),
        },
    }
}

#[test]
fn run_test_required_restart_command_matches_contract() {
    let command = required_restart_command(4242);
    assert_eq!(
        command,
        "kill 4242 && RALPH_DIAGNOSTICS=1 cargo run --bin ralph -- resume -c ralph.test.yml"
    );
}

#[test]
fn main_test_required_restart_command_matches_contract() {
    let command = required_restart_command(4242);
    assert_eq!(
        command,
        "kill 4242 && RALPH_DIAGNOSTICS=1 cargo run --bin ralph -- resume -c ralph.test.yml"
    );
}

#[test]
fn test_prompt_summary_reads_file_content_not_path() {
    let prompt_content = "Build a feature that does amazing things";
    let mut event_loop = EventLoopConfig::default();
    event_loop.prompt_file = "/tmp/x/PROMPT.md".to_string();
    event_loop.prompt = None;

    let summary = prompt_summary(&event_loop, Some(prompt_content));

    // The summary contains file content, not the file path
    assert_eq!(summary, prompt_content);
    assert!(!summary.contains("PROMPT.md"));
    assert!(!summary.contains("/tmp/x"));
}

#[test]
fn test_prompt_summary_truncates_long_content() {
    let long_content = "X".repeat(150); // 150 chars, exceeds 100 limit
    let mut event_loop = EventLoopConfig::default();
    event_loop.prompt_file = "/tmp/x/LONG_PROMPT.md".to_string();
    event_loop.prompt = None;

    let summary = prompt_summary(&event_loop, Some(&long_content));

    // Truncated to 100 chars total
    assert_eq!(summary.len(), 100);
    assert!(summary.ends_with("..."));
}

#[test]
fn test_prompt_summary_returns_no_prompt_for_missing_file() {
    let mut event_loop = EventLoopConfig::default();
    event_loop.prompt_file = "/nonexistent/path/PROMPT.md".to_string();
    event_loop.prompt = None;

    assert_eq!(prompt_summary(&event_loop, None), "[no prompt]");
}

#[test]
fn inline_prompts_come_first_in_a_summary() {
    let mut event_loop = EventLoopConfig::default();
    event_loop.prompt = Some("inline".to_string());
    assert_eq!(prompt_summary(&event_loop, Some("file")), "inline");
    event_loop.prompt = None;
    event_loop.prompt_file = String::new();
    assert_eq!(prompt_summary(&event_loop, Some("file")), "[no prompt]");
}

#[test]
fn long_texts_are_cut_at_characters() {
    assert_eq!(truncate_with_ellipsis("abcdef", 6), "abcdef");
    assert_eq!(truncate_with_ellipsis("abcdefg", 6), "abc...");
    assert_eq!(truncate_with_ellipsis("ääääääää", 5), "ää...");
    assert_eq!(truncate_with_ellipsis("abcd", 3), "...");
    assert_eq!(truncate_with_ellipsis("abcd", 0), "...");
    assert_eq!(truncate_with_ellipsis("ab", 2), "ab");
}

#[test]
fn test_format_preflight_summary_with_failures() {
    let summary = format_preflight_summary(&three_checks());

    assert!(summary.contains("✓"));
    assert!(summary.contains("⚠"));
    assert!(summary.contains("✗"));
    assert!(summary.contains("(1 failure)"));
}

#[test]
fn test_format_preflight_summary_no_checks() {
    let report = PreflightReport {
        passed: true,
        warnings: 0,
        failures: 0,
        checks: Vec::new(),
    };

    assert_eq!(format_preflight_summary(&report), "no checks");
}

#[test]
fn test_preflight_failure_detail_strict_includes_warnings() {
    let report = PreflightReport {
        passed: false,
        warnings: 2,
        failures: 1,
        checks: Vec::new(),
    };

    assert_eq!(preflight_failure_detail(&report, false), "1 failure");
    assert_eq!(
        preflight_failure_detail(&report, true),
        "1 failure, 2 warnings"
    );
}

#[test]
fn test_print_preflight_summary_handles_failures_and_warnings() {
    let report = three_checks();
    let verbose = print_preflight_summary(&report, true, "Preflight: ");
    let brief = print_preflight_summary(&report, false, "Preflight: ");
    assert!(verbose[0].starts_with("Preflight: "));
    assert_eq!(verbose.len(), brief.len() + 1);
    assert!(brief[1].contains("Missing path"));
    assert!(verbose[2].contains("Missing"));
}

#[test]
fn preflight_checks_are_selected_regardless_of_case() {
    let names = vec!["config".to_string(), "Hooks".to_string(), "git".to_string()];
    match plan_preflight(&features(true, false, &["HOOKS", "GIT"]), false, &names) {
        PreflightPlan::Selected(selected) => assert_eq!(selected, vec!["config"]),
        other => panic!("unexpected plan: {other:?}"),
    }
    assert!(matches!(
        plan_preflight(&features(true, false, &[]), false, &names),
        PreflightPlan::All
    ));
    assert!(matches!(
        plan_preflight(&features(true, false, &[]), true, &names),
        PreflightPlan::Nothing
    ));
    assert!(matches!(
        plan_preflight(&features(false, false, &[]), false, &names),
        PreflightPlan::Nothing
    ));
}

#[test]
fn strict_preflights_fail_on_warnings() {
    let mut report = PreflightReport {
        passed: true,
        warnings: 1,
        failures: 0,
        checks: Vec::new(),
    };
    assert!(judge_preflight(&mut report, false));
    assert!(report.passed);
    assert!(!judge_preflight(&mut report, true));
    assert!(!report.passed);
    assert_eq!(
        preflight_refusal(&report, true),
        "Preflight checks failed (0 failures, 1 warning). Fix the issues above or use --skip-preflight to bypass."
    );
}

#[test]
fn test_run_command_continue_missing_scratchpad_returns_error() {
    let err = check_continue(true, false, ".ralph/agent/scratchpad.md")
        .expect_err("expected missing scratchpad error");
    assert!(err.contains("scratchpad not found"));
    assert!(check_continue(true, true, "s").is_ok());
    assert!(check_continue(false, false, "s").is_ok());
}

#[test]
fn test_diagnostics_eligible_for_run_command() {
    let command = Some(Commands::Run(default_run_args()));
    assert!(is_diagnostics_eligible_command(command.as_ref()));
}

#[test]
fn test_diagnostics_eligible_for_no_subcommand() {
    assert!(is_diagnostics_eligible_command(None));
}

#[test]
fn test_diagnostics_not_eligible_for_emit_command() {
    let command = Some(Commands::Emit(EmitArgs {
        topic: "test.event".to_string(),
        payload: String::new(),
        json: false,
        ts: None,
        file: ".ralph/events.jsonl".to_string(),
    }));
    assert!(!is_diagnostics_eligible_command(command.as_ref()));
}

#[test]
fn test_diagnostics_not_eligible_for_events_command() {
    let command = Some(Commands::Events(EventsArgs {
        last: None,
        topic: None,
        iteration: None,
        format: OutputFormat::Table,
        file: None,
        clear: false,
    }));
    assert!(!is_diagnostics_eligible_command(command.as_ref()));
}

#[test]
fn commands_tell_who_owns_the_output() {
    let mut args = default_run_args();
    args.no_tui = false;
    let command = Commands::Run(args);
    assert!(tui_enabled(Some(&command)));
    assert!(!rpc_enabled(Some(&command)));
    assert!(tui_enabled(None));
    let mut args = default_run_args();
    args.no_tui = false;
    args.rpc = true;
    let command = Commands::Run(args);
    assert!(!tui_enabled(Some(&command)));
    assert!(rpc_enabled(Some(&command)));
    let resume = Commands::Resume(ResumeArgs {
        max_iterations: None,
        no_tui: false,
        autonomous: true,
        rpc: false,
        idle_timeout: None,
        verbose: false,
        quiet: false,
        record_session: None,
    });
    assert!(!tui_enabled(Some(&resume)));
    assert!(mcp_enabled(Some(&Commands::Mcp)));
    assert!(!mcp_enabled(Some(&Commands::Doctor)));
    assert!(!tui_enabled(Some(&Commands::Doctor)));
}

#[test]
fn interfaces_are_attached_to_the_first_address_that_is_known() {
    let given = TuiArgs {
        url: Some("http://a".to_string()),
    };
    let none = TuiArgs { url: None };
    assert_eq!(tui_url(&given, Some("http://b")), "http://a");
    assert_eq!(tui_url(&none, Some("http://b")), "http://b");
    assert_eq!(tui_url(&none, None), "http://127.0.0.1:3000");
}

#[test]
fn exit_codes_of_children_tell_the_reason() {
    assert_eq!(exit_reason(true, Some(0)), TerminationReason::CompletionPromise);
    assert_eq!(exit_reason(false, Some(1)), TerminationReason::MaxIterations);
    assert_eq!(exit_reason(false, Some(130)), TerminationReason::Interrupted);
    assert_eq!(exit_reason(false, Some(2)), TerminationReason::Stopped);
    assert_eq!(exit_reason(false, None), TerminationReason::Stopped);
}
