use ralph::cli::hooks_report::{
    build_report, count_configured_hooks, hook_path_override, non_empty_trimmed, paths_to_probe,
    resolve_hook_command, resolve_hook_cwd, validate_command_resolvability,
    validate_duplicate_names, FileFacts, HooksValidateReport,
};
use ralph::cli::hooks_text::{print_human_diagnostic, print_human_report, Palette};
use ralph::config::core_config::CoreConfig;
use ralph::config::hooks::{
    EnvVar, HookMutationConfig, HookOnError, HookPhaseEvent, HookSpec, PhaseHooks,
};
use ralph::config::ralph_config::RalphConfig;
use ralph::config::settings::{
    CliConfig, FeaturesConfig, InjectMode, MemoriesConfig, PreflightConfig, RobotConfig,
    SkillsConfig,
};

fn default_config() -> RalphConfig {
    RalphConfig::with_sections(
        CoreConfig::in_workspace(None, Some("/workspace".to_string())),
        CliConfig {
            backend: "kiro".to_string(),
            command: None,
            default_mode: "autonomous".to_string(),
            idle_timeout_secs: 30,
        },
        MemoriesConfig {
            enabled: true,
            inject: InjectMode::Auto,
            budget: 0,
        },
        SkillsConfig {
            enabled: true,
            dirs: vec![],
        },
        FeaturesConfig {
            parallel: true,
            auto_merge: false,
            preflight: PreflightConfig {
                enabled: true,
                strict: false,
                skip: vec![],
            },
        },
        RobotConfig {
            enabled: false,
            timeout_seconds: None,
            checkin_interval_seconds: None,
            fault: None,
        },
    )
}

fn build_hook(name: &str, command: Vec<String>) -> HookSpec {
    HookSpec {
        name: name.to_string(),
        command,
        cwd: None,
        env: vec![],
        timeout_seconds: None,
        max_output_bytes: None,
        on_error: Some(HookOnError::Warn),
        suspend_mode: None,
        mutate: HookMutationConfig::default(),
        extra: vec![],
    }
}

fn variable(name: &str, value: &str) -> EnvVar {
    EnvVar {
        name: name.to_string(),
        value: value.to_string(),
    }
}

fn with_hooks(phase_event: HookPhaseEvent, hooks: Vec<HookSpec>) -> RalphConfig {
    let mut config = default_config();
    config.hooks.events.push(PhaseHooks { phase_event, hooks });
    config
}

fn facts(existing: &[&str], executable: &[&str]) -> FileFacts {
    FileFacts {
        existing: existing.iter().map(|path| path.to_string()).collect(),
        executable: executable.iter().map(|path| path.to_string()).collect(),
    }
}

#[test]
fn non_empty_trimmed_returns_none_for_empty_or_whitespace() {
    assert_eq!(non_empty_trimmed(""), None);
    assert_eq!(non_empty_trimmed("   "), None);
    assert_eq!(non_empty_trimmed("\t\n "), None);
}

#[test]
fn non_empty_trimmed_returns_trimmed_value() {
    assert_eq!(non_empty_trimmed("hook"), Some("hook".to_string()));
    assert_eq!(non_empty_trimmed("  hook  "), Some("hook".to_string()));
}

#[test]
fn hook_path_override_prefers_upper_case_path() {
    let env = vec![variable("Path", "/ignored"), variable("PATH", "/usr/bin")];
    assert_eq!(hook_path_override(&env), Some("/usr/bin"));
}

#[test]
fn hook_path_override_falls_back_to_windows_style_path() {
    let env = vec![variable("Path", "C:/bin")];
    assert_eq!(hook_path_override(&env), Some("C:/bin"));
}

#[test]
fn hook_path_override_returns_none_when_absent() {
    let env: Vec<EnvVar> = vec![];
    assert_eq!(hook_path_override(&env), None);
}

#[test]
fn resolve_hook_cwd_uses_workspace_root_when_hook_has_no_cwd() {
    assert_eq!(resolve_hook_cwd("/workspace", None), "/workspace");
}

#[test]
fn resolve_hook_cwd_joins_relative_cwd_with_workspace() {
    let resolved = resolve_hook_cwd("/workspace", Some("scripts"));
    assert_eq!(resolved, "/workspace/scripts");
}

#[test]
fn resolve_hook_cwd_uses_absolute_cwd_directly() {
    let resolved = resolve_hook_cwd("/workspace", Some("/etc/hook"));
    assert_eq!(resolved, "/etc/hook");
}

#[test]
fn count_configured_hooks_is_zero_for_default_config() {
    let config = default_config();
    assert_eq!(count_configured_hooks(&config), 0);
}

#[test]
fn count_configured_hooks_sums_across_events() {
    let mut config = with_hooks(
        HookPhaseEvent::PreLoopStart,
        vec![
            build_hook("a", vec!["true".to_string()]),
            build_hook("b", vec!["true".to_string()]),
        ],
    );
    config.hooks.events.push(PhaseHooks {
        phase_event: HookPhaseEvent::PostLoopComplete,
        hooks: vec![build_hook("c", vec!["true".to_string()])],
    });

    assert_eq!(count_configured_hooks(&config), 3);
}

#[test]
fn resolve_hook_command_accepts_absolute_executable() {
    let files = facts(&["/tmp/x/hook.sh"], &["/tmp/x/hook.sh"]);
    let resolved = resolve_hook_command("/tmp/x/hook.sh", "/tmp", None, None, &files)
        .expect("absolute executable should resolve");
    assert_eq!(resolved, "/tmp/x/hook.sh");
}

#[test]
fn resolve_hook_command_absolute_path_missing_fails() {
    let err = resolve_hook_command("/tmp/x/nope.sh", "/tmp", None, None, &facts(&[], &[]))
        .expect_err("missing absolute command should fail");
    assert!(err.contains("does not exist"), "err: {err}");
    assert_eq!(
        err,
        "Command '/tmp/x/nope.sh' resolves to '/tmp/x/nope.sh' but the file does not exist."
    );
}

#[test]
fn resolve_hook_command_absolute_path_non_executable_fails() {
    let files = facts(&["/tmp/x/hook.sh"], &[]);
    let err = resolve_hook_command("/tmp/x/hook.sh", "/tmp", None, None, &files)
        .expect_err("non-executable absolute command should fail");
    assert!(err.contains("not executable"), "err: {err}");
}

#[test]
fn resolve_hook_command_relative_resolves_against_cwd() {
    let files = facts(&["/tmp/x/scripts/hook.sh"], &["/tmp/x/scripts/hook.sh"]);
    let resolved = resolve_hook_command("scripts/hook.sh", "/tmp/x", None, None, &files)
        .expect("relative multi-segment command should resolve against cwd");
    assert_eq!(resolved, "/tmp/x/scripts/hook.sh");
}

#[test]
fn resolve_hook_command_uses_path_override_bin_dir() {
    let files = facts(&["/tmp/x/bin/mytool"], &["/tmp/x/bin/mytool"]);
    let resolved = resolve_hook_command("mytool", "/tmp", Some("/tmp/x/bin"), None, &files)
        .expect("command should resolve via PATH override");
    assert_eq!(resolved, "/tmp/x/bin/mytool");
}

#[test]
fn resolve_hook_command_reports_path_override_source_on_miss() {
    let err = resolve_hook_command(
        "nonexistent-ralph-tool-xyz",
        "/tmp",
        Some("/tmp/x/empty-bin"),
        None,
        &facts(&[], &[]),
    )
    .expect_err("missing command should fail lookup");
    assert!(err.contains("hook env PATH"), "err: {err}");
}

#[test]
fn commands_are_searched_for_along_the_search_path() {
    let files = facts(&[], &["/b/tool", "/c/tool"]);
    assert_eq!(
        resolve_hook_command("tool", "/tmp", None, Some("/a:/b:/c"), &files),
        Ok("/b/tool".to_string())
    );
    assert_eq!(
        resolve_hook_command("tool", "/tmp", Some("/c"), Some("/b"), &files),
        Ok("/c/tool".to_string())
    );
    assert_eq!(
        resolve_hook_command("tool", "/tmp", None, Some("/a"), &files),
        Err("Command 'tool' was not found in process PATH.".to_string())
    );
    assert_eq!(
        resolve_hook_command("tool", "/tmp", None, None, &files),
        Err(
            "PATH is not set while resolving command 'tool'. Set PATH in the environment or hook env override."
                .to_string()
        )
    );
}

#[test]
fn report_new_starts_in_passing_state() {
    let report = HooksValidateReport::new("label".to_string());
    assert!(report.pass);
    assert_eq!(report.source, "label");
    assert!(!report.hooks_enabled);
    assert_eq!(report.checked_hooks, 0);
    assert!(report.diagnostics.is_empty());
}

#[test]
fn push_diagnostic_flips_pass_and_records_details() {
    let mut report = HooksValidateReport::new("label".to_string());
    report.push_diagnostic(
        "hooks.command_resolvable",
        "boom",
        Some("pre.loop.start".to_string()),
        Some("env-guard".to_string()),
        Some("./run.sh".to_string()),
    );

    assert!(!report.pass);
    assert_eq!(report.diagnostics.len(), 1);
    let diagnostic = &report.diagnostics[0];
    assert_eq!(diagnostic.code, "hooks.command_resolvable");
    assert_eq!(diagnostic.message, "boom");
    assert_eq!(diagnostic.phase_event.as_deref(), Some("pre.loop.start"));
    assert_eq!(diagnostic.hook.as_deref(), Some("env-guard"));
    assert_eq!(diagnostic.command.as_deref(), Some("./run.sh"));
}

#[test]
fn push_diagnostic_accumulates_multiple_failures() {
    let mut report = HooksValidateReport::new("label".to_string());
    report.push_diagnostic("a", "one", None, None, None);
    report.push_diagnostic("b", "two", None, None, None);
    assert!(!report.pass);
    assert_eq!(report.diagnostics.len(), 2);
}

#[test]
fn validate_duplicate_names_passes_on_unique_names() {
    let config = with_hooks(
        HookPhaseEvent::PreLoopStart,
        vec![
            build_hook("alpha", vec!["true".to_string()]),
            build_hook("beta", vec!["true".to_string()]),
        ],
    );
    let mut report = HooksValidateReport::new("label".to_string());
    validate_duplicate_names(&config, &mut report);
    assert!(report.pass);
    assert!(report.diagnostics.is_empty());
}

#[test]
fn validate_duplicate_names_flags_duplicates_in_same_phase() {
    let config = with_hooks(
        HookPhaseEvent::PreLoopStart,
        vec![
            build_hook("alpha", vec!["true".to_string()]),
            build_hook("alpha", vec!["true".to_string()]),
        ],
    );
    let mut report = HooksValidateReport::new("label".to_string());
    validate_duplicate_names(&config, &mut report);

    assert!(!report.pass);
    assert_eq!(report.diagnostics.len(), 1);
    let diagnostic = &report.diagnostics[0];
    assert_eq!(diagnostic.code, "hooks.duplicate_name");
    assert!(diagnostic.message.contains("Duplicate hook name 'alpha'"));
    assert_eq!(diagnostic.phase_event.as_deref(), Some("pre.loop.start"));
    assert_eq!(diagnostic.hook.as_deref(), Some("alpha"));
}

#[test]
fn validate_duplicate_names_allows_same_name_in_different_phases() {
    let mut config = with_hooks(
        HookPhaseEvent::PreLoopStart,
        vec![build_hook("shared", vec!["true".to_string()])],
    );
    config.hooks.events.push(PhaseHooks {
        phase_event: HookPhaseEvent::PostLoopComplete,
        hooks: vec![build_hook("shared", vec!["true".to_string()])],
    });

    let mut report = HooksValidateReport::new("label".to_string());
    validate_duplicate_names(&config, &mut report);
    assert!(report.pass);
    assert!(report.diagnostics.is_empty());
}

#[test]
fn validate_duplicate_names_ignores_empty_names() {
    // Two empty names are no duplicates of each other.
    let config = with_hooks(
        HookPhaseEvent::PreLoopStart,
        vec![
            build_hook("", vec!["true".to_string()]),
            build_hook("", vec!["true".to_string()]),
        ],
    );
    let mut report = HooksValidateReport::new("label".to_string());
    validate_duplicate_names(&config, &mut report);
    assert!(report.pass);
    assert!(report.diagnostics.is_empty());
}

#[test]
fn validate_command_resolvability_passes_for_existing_command() {
    let mut hook = build_hook("good-hook", vec!["ralph-test-hook".to_string()]);
    hook.env.push(variable("PATH", "/tmp/x/bin"));
    let config = with_hooks(HookPhaseEvent::PreLoopStart, vec![hook]);
    let files = facts(
        &["/tmp/x/bin/ralph-test-hook"],
        &["/tmp/x/bin/ralph-test-hook"],
    );

    let mut report = HooksValidateReport::new("label".to_string());
    validate_command_resolvability(&config, None, &files, &mut report);
    assert!(report.pass, "diagnostics: {:?}", report.diagnostics);
}

#[test]
fn validate_command_resolvability_flags_missing_absolute_command() {
    let hook = build_hook("bad-hook", vec!["/tmp/x/does-not-exist".to_string()]);
    let config = with_hooks(HookPhaseEvent::PreLoopStart, vec![hook]);

    let mut report = HooksValidateReport::new("label".to_string());
    validate_command_resolvability(&config, Some("/bin"), &facts(&[], &[]), &mut report);

    assert!(!report.pass);
    assert_eq!(report.diagnostics.len(), 1);
    let diagnostic = &report.diagnostics[0];
    assert_eq!(diagnostic.code, "hooks.command_resolvable");
    assert_eq!(diagnostic.phase_event.as_deref(), Some("pre.loop.start"));
    assert_eq!(diagnostic.hook.as_deref(), Some("bad-hook"));
    assert!(diagnostic.message.contains("does not exist"));
    // Hint line is appended for the user.
    assert!(diagnostic.message.contains("Fix: ensure command exists"));
}

#[test]
fn validate_command_resolvability_skips_hook_with_empty_command() {
    let hook = build_hook("empty-cmd", vec![]);
    let config = with_hooks(HookPhaseEvent::PreLoopStart, vec![hook]);

    let mut report = HooksValidateReport::new("label".to_string());
    validate_command_resolvability(&config, None, &facts(&[], &[]), &mut report);
    assert!(report.pass);
    assert!(report.diagnostics.is_empty());
}

#[test]
fn validate_command_resolvability_skips_whitespace_only_command() {
    let hook = build_hook("blank-cmd", vec!["   ".to_string()]);
    let config = with_hooks(HookPhaseEvent::PreLoopStart, vec![hook]);

    let mut report = HooksValidateReport::new("label".to_string());
    validate_command_resolvability(&config, None, &facts(&[], &[]), &mut report);
    assert!(report.pass);
    assert!(report.diagnostics.is_empty());
}

#[test]
fn build_report_passes_for_default_config_without_hooks() {
    let config = default_config();
    let report = build_report("label".to_string(), Ok(&config), "", None, &facts(&[], &[]));
    assert!(report.pass, "diagnostics: {:?}", report.diagnostics);
    assert!(!report.hooks_enabled);
    assert_eq!(report.checked_hooks, 0);
}

#[test]
fn build_report_flags_duplicate_hook_names_via_config_file() {
    let shell = || {
        vec![
            "/bin/sh".to_string(),
            "-c".to_string(),
            "true".to_string(),
        ]
    };
    let mut config = with_hooks(
        HookPhaseEvent::PreLoopStart,
        vec![build_hook("dup", shell()), build_hook("dup", shell())],
    );
    config.hooks.enabled = true;
    let files = facts(&["/bin/sh"], &["/bin/sh"]);

    let report = build_report("ralph.yml".to_string(), Ok(&config), "", None, &files);

    assert!(!report.pass, "expected failure, got {:?}", report);
    assert!(report.hooks_enabled);
    assert_eq!(report.checked_hooks, 2);
    let duplicate = report
        .diagnostics
        .iter()
        .find(|d| d.code == "hooks.duplicate_name");
    assert!(
        duplicate.is_some(),
        "expected hooks.duplicate_name diagnostic, got {:?}",
        report.diagnostics
    );
}

#[test]
fn build_report_tells_of_configurations_that_cannot_be_used() {
    let report = build_report(
        "ralph.yml".to_string(),
        Err("no such file".to_string()),
        "",
        None,
        &facts(&[], &[]),
    );
    assert!(!report.pass);
    assert_eq!(report.diagnostics[0].code, "config.load");
    assert_eq!(report.diagnostics[0].message, "no such file");

    let mut config = default_config();
    config.event_loop.completion_promise = "  ".to_string();
    let report = build_report(
        "ralph.yml".to_string(),
        Ok(&config),
        "blank promise",
        None,
        &facts(&[], &[]),
    );
    assert_eq!(report.diagnostics.len(), 1);
    assert_eq!(report.diagnostics[0].code, "hooks.semantic");
    assert_eq!(report.diagnostics[0].message, "blank promise");
}

#[test]
fn diagnostics_come_in_the_order_of_the_keys() {
    let mut config = with_hooks(
        HookPhaseEvent::PreLoopStart,
        vec![build_hook("late", vec!["/x/a".to_string()])],
    );
    config.hooks.events.push(PhaseHooks {
        phase_event: HookPhaseEvent::PostLoopComplete,
        hooks: vec![build_hook("early", vec!["/x/b".to_string()])],
    });
    let mut report = HooksValidateReport::new("label".to_string());
    validate_command_resolvability(&config, None, &facts(&[], &[]), &mut report);
    let hooks: Vec<Option<&str>> = report.diagnostics.iter().map(|d| d.hook.as_deref()).collect();
    assert_eq!(hooks, vec![Some("early"), Some("late")]);
}

#[test]
fn probed_paths_are_those_that_decide() {
    let mut hook = build_hook("h", vec!["tool".to_string()]);
    hook.env.push(variable("PATH", "/a:/b"));
    assert_eq!(
        paths_to_probe("/workspace", &hook, Some("/c")),
        vec!["/a/tool", "/b/tool"]
    );
    let hook = build_hook("h", vec!["scripts/run.sh".to_string()]);
    assert_eq!(
        paths_to_probe("/workspace", &hook, Some("/c")),
        vec!["/workspace/scripts/run.sh"]
    );
}

#[test]
fn reports_are_told_in_lines() {
    let mut report = HooksValidateReport::new("ralph.yml".to_string());
    report.push_diagnostic(
        "hooks.duplicate_name",
        "first line\nsecond line",
        Some("pre.loop.start".to_string()),
        Some("dup".to_string()),
        None,
    );
    let lines = print_human_diagnostic(&report.diagnostics[0], None);
    assert_eq!(
        lines,
        vec![
            "  FAIL hooks.duplicate_name: first line",
            "       second line",
            "       phase_event: pre.loop.start",
            "       hook: dup",
        ]
    );
    let palette = Palette {
        green: "<g>".to_string(),
        red: "<r>".to_string(),
        reset: "<0>".to_string(),
    };
    let lines = print_human_diagnostic(&report.diagnostics[0], Some(&palette));
    assert_eq!(lines[0], "  <r>FAIL<0> hooks.duplicate_name: first line");
    let lines = print_human_report(&report, None);
    assert_eq!(lines[0], "Hooks validation for ralph.yml");
    assert_eq!(lines[2], "Hooks enabled: false");
    assert_eq!(lines[3], "Hooks checked: 0");
}
