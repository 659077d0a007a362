use ralph::config::core_config::{
    default_guardrails, default_specs_dir, default_timeout, AdapterSettings, CoreConfig,
};
use ralph::config::errors::{ConfigError, ConfigWarning};
use ralph::config::event_loop::{percentage_in_range, EventLoopConfig};
use ralph::config::hats::{HatConfig, NamedHat};
use ralph::config::hooks::{
    EnvVar, HookMutationConfig, HookOnError, HookPhaseEvent, HookSpec, HookSuspendMode,
    HooksConfig, PhaseHooks,
};
use ralph::config::keys::{
    check_phase_keys, read_document, validate_document, validate_hooks_phase_event_keys,
};
use ralph::config::ralph_config::{NamedEvent, RalphConfig};
use ralph::config::scratchpad::{
    deserialize_optional_scratchpad_config, deserialize_scratchpad_config, ScratchpadConfig,
    ScratchpadInput,
};
use ralph::config::settings::{
    CliConfig, FeaturesConfig, InjectMode, MemoriesConfig, PreflightConfig, RobotConfig,
    SkillsConfig,
};

fn text(s: &str) -> String {
    s.to_string()
}

fn default_config() -> RalphConfig {
    RalphConfig::with_sections(
        CoreConfig::in_workspace(None, Some(text("/work"))),
        CliConfig {
            backend: text("kiro"),
            command: None,
            default_mode: text("autonomous"),
            idle_timeout_secs: 30,
        },
        MemoriesConfig {
            enabled: true,
            inject: InjectMode::Auto,
            budget: 0,
        },
        SkillsConfig {
            enabled: true,
            dirs: vec![],
        },
        FeaturesConfig {
            parallel: true,
            auto_merge: false,
            preflight: PreflightConfig {
                enabled: true,
                strict: false,
                skip: vec![],
            },
        },
        RobotConfig {
            enabled: false,
            timeout_seconds: None,
            checkin_interval_seconds: None,
            fault: None,
        },
    )
}

fn hat(id: &str, triggers: &[&str]) -> NamedHat {
    NamedHat {
        id: text(id),
        hat: HatConfig {
            name: text(id),
            description: Some(text("does things")),
            triggers: triggers.iter().map(|t| t.to_string()).collect(),
            publishes: vec![],
            instructions: text("Work."),
            extra_instructions: vec![],
            backend: None,
            backend_args: None,
            default_publishes: None,
            max_activations: None,
            disallowed_tools: vec![],
            scratchpad: None,
            concurrency: 1,
            aggregate: false,
        },
    }
}

fn hook(name: &str) -> HookSpec {
    HookSpec {
        name: text(name),
        command: vec![text("./run.sh")],
        cwd: None,
        env: vec![EnvVar {
            name: text("K"),
            value: text("v"),
        }],
        timeout_seconds: None,
        max_output_bytes: None,
        on_error: Some(HookOnError::Warn),
        suspend_mode: None,
        mutate: HookMutationConfig {
            enabled: false,
            format: None,
            extra: vec![],
        },
        extra: vec![],
    }
}

fn with_hooks(hooks: Vec<HookSpec>) -> RalphConfig {
    let mut config = default_config();
    config.hooks.events = vec![PhaseHooks {
        phase_event: HookPhaseEvent::PostLoopStart,
        hooks,
    }];
    config
}

fn hook_fault(edit: impl Fn(&mut HookSpec)) -> (String, String) {
    let mut second = hook("second");
    edit(&mut second);
    match with_hooks(vec![hook("first"), second]).validate() {
        Err(ConfigError::HookValidation { field, message }) => (field, message),
        Err(ConfigError::UnsupportedHookField { field, reason }) => (field, reason),
        other => panic!("unexpected result: {other:?}"),
    }
}

// ---- defaults ----

#[test]
fn defaults_hold_unless_a_file_says_otherwise() {
    let config = default_config();
    assert_eq!(config.event_loop.max_iterations, 100);
    assert_eq!(config.event_loop.max_runtime_seconds, 14400);
    assert_eq!(config.event_loop.max_consecutive_failures, 5);
    assert_eq!(config.event_loop.completion_promise, "LOOP_COMPLETE");
    assert_eq!(config.event_loop.prompt_file, "PROMPT.md");
    assert!(config.tasks.enabled);
    assert!(!config.hooks.enabled);
    assert_eq!(config.hooks.defaults.timeout_seconds, 30);
    assert_eq!(config.hooks.defaults.max_output_bytes, 8192);
    assert_eq!(config.hooks.defaults.suspend_mode, HookSuspendMode::WaitForResume);
    assert_eq!(default_timeout(), 300);
    assert_eq!(default_specs_dir(), ".ralph/specs/");
    assert_eq!(default_guardrails().len(), 6);
    assert_eq!(
        default_guardrails()[0],
        "Fresh context each iteration - scratchpad is memory"
    );
    assert_eq!(AdapterSettings::default().timeout, 300);
    assert!(config.validate().expect("valid").is_empty());
}

#[test]
fn the_workspace_is_the_given_one_or_the_current_directory() {
    let root = |given: Option<&str>, current: Option<&str>| {
        CoreConfig::in_workspace(given.map(text), current.map(text)).workspace_root
    };
    assert_eq!(root(Some("/a"), Some("/b")), "/a");
    assert_eq!(root(None, Some("/b")), "/b");
    assert_eq!(root(None, None), ".");
    let core = CoreConfig::in_workspace(None, None).with_workspace_root(text("/w"));
    assert_eq!(core.resolve_path("a/b"), "/w/a/b");
    assert_eq!(core.resolve_path("/a/b"), "/a/b");
    assert_eq!(core.with_workspace_root(text("/w/")).resolve_path("a"), "/w/a");
}

#[test]
fn scratchpads_are_paths_or_tables() {
    let read = |input| {
        deserialize_optional_scratchpad_config(input).map(|s: ScratchpadConfig| (s.enabled, s.path))
    };
    assert_eq!(read(ScratchpadInput::Null), None);
    assert_eq!(read(ScratchpadInput::Text(text("a.md"))), Some((true, text("a.md"))));
    assert_eq!(
        read(ScratchpadInput::Table {
            enabled: Some(false),
            path: None
        }),
        Some((false, text(".ralph/agent/scratchpad.md")))
    );
    assert_eq!(
        deserialize_scratchpad_config(ScratchpadInput::Null).unwrap_err(),
        "invalid type: unit value, expected a string or a scratchpad config object"
    );
    let global = ScratchpadConfig::default();
    let own = ScratchpadConfig {
        enabled: false,
        path: text("own.md"),
    };
    assert_eq!(ScratchpadConfig::resolve(Some(&own), &global).path, "own.md");
    assert_eq!(
        ScratchpadConfig::resolve(None, &global).path,
        ".ralph/agent/scratchpad.md"
    );
}

// ---- normalization ----

#[test]
fn flat_fields_take_precedence_over_nested_ones() {
    let mut config = default_config();
    config.agent = Some(text("gemini"));
    config.prompt_file = Some(text("TASK.md"));
    config.completion_promise = Some(text("DONE"));
    config.max_iterations = Some(7);
    config.max_runtime = Some(60);
    config.max_cost = Some(2.5f64.to_bits());
    let mut builder = hat("builder", &[]);
    builder.hat.extra_instructions = vec![text("One.\n"), text("Two.")];
    config.hats = vec![builder];
    config.normalize();
    assert_eq!(config.effective_backend("first"), "gemini");
    assert_eq!(config.event_loop.prompt_file, "TASK.md");
    assert_eq!(config.event_loop.completion_promise, "DONE");
    assert_eq!(config.event_loop.max_iterations, 7);
    assert_eq!(config.event_loop.max_runtime_seconds, 60);
    assert_eq!(config.event_loop.max_cost_usd, Some(2.5f64.to_bits()));
    assert_eq!(config.hats[0].hat.instructions, "Work.\nOne.\nTwo.");
    assert!(config.hats[0].hat.extra_instructions.is_empty());
    let once = format!("{config:?}");
    config.normalize();
    assert_eq!(format!("{config:?}"), once);
}

// ---- validation ----

#[test]
fn the_prompt_has_one_source() {
    let mut config = default_config();
    config.event_loop.prompt = Some(text("Do it"));
    assert!(config.validate().is_ok());
    config.event_loop.prompt_file = text("TASK.md");
    match config.validate() {
        Err(ConfigError::MutuallyExclusive { field1, field2 }) => {
            assert_eq!(field1, "event_loop.prompt");
            assert_eq!(field2, "event_loop.prompt_file");
        }
        other => panic!("unexpected result: {other:?}"),
    }
    config.event_loop.prompt_file = String::new();
    assert!(config.validate().is_ok());
}

#[test]
fn promises_backends_and_robots_are_checked() {
    let mut config = default_config();
    config.event_loop.completion_promise = text(" \t");
    assert!(matches!(
        config.validate(),
        Err(ConfigError::InvalidCompletionPromise)
    ));
    config.event_loop = EventLoopConfig::default();
    config.cli.backend = text("custom");
    assert!(matches!(
        config.validate(),
        Err(ConfigError::CustomBackendRequiresCommand)
    ));
    config.cli.command = Some(String::new());
    assert!(matches!(
        config.validate(),
        Err(ConfigError::CustomBackendRequiresCommand)
    ));
    config.cli.command = Some(text("run"));
    assert!(config.validate().is_ok());
    config.robot.fault = Some(text("no token"));
    match config.validate() {
        Err(ConfigError::InvalidRobot { message }) => assert_eq!(message, "no token"),
        other => panic!("unexpected result: {other:?}"),
    }
    config.suppress_warnings = true;
    assert!(config.validate().expect("not looked at").is_empty());
}

#[test]
fn hats_are_described_and_unambiguous() {
    let fault = |hats: Vec<NamedHat>| {
        let mut config = default_config();
        config.hats = hats;
        config.validate().expect_err("a fault")
    };
    let mut nameless = hat("a", &["x"]);
    nameless.hat.description = Some(text("  "));
    assert!(matches!(fault(vec![nameless]), ConfigError::MissingDescription { hat } if hat == "a"));
    let mut idle = hat("a", &["x"]);
    idle.hat.concurrency = 0;
    assert!(matches!(
        fault(vec![idle]),
        ConfigError::InvalidConcurrency { hat, value: 0 } if hat == "a"
    ));
    let mut wide = hat("a", &["x"]);
    wide.hat.concurrency = 2;
    wide.hat.aggregate = true;
    assert!(matches!(
        fault(vec![wide]),
        ConfigError::AggregateOnConcurrentHat { hat } if hat == "a"
    ));
    assert!(matches!(
        fault(vec![hat("a", &["x"]), hat("b", &["y", "task.resume"])]),
        ConfigError::ReservedTrigger { trigger, hat } if trigger == "task.resume" && hat == "b"
    ));
    assert!(matches!(
        fault(vec![hat("a", &["x", "y"]), hat("b", &["z", "y"])]),
        ConfigError::AmbiguousRouting { trigger, hat1, hat2 }
            if trigger == "y" && hat1 == "a" && hat2 == "b"
    ));
    let mut config = default_config();
    config.hats = vec![hat("a", &["x", "y"]), hat("b", &["z"])];
    assert!(config.validate().is_ok());
}

#[test]
fn hooks_are_checked_one_by_one() {
    assert!(with_hooks(vec![hook("a"), hook("b")]).validate().is_ok());
    let place = "hooks.events.post.loop.start[1]";
    let expect = |edit: &dyn Fn(&mut HookSpec), field: &str, message: &str| {
        assert_eq!(hook_fault(edit), (format!("{place}{field}"), text(message)));
    };
    expect(&|h| h.name = text(" "), ".name", "is required and must be non-empty");
    expect(
        &|h| h.command = vec![text("")],
        ".command",
        "is required and must include an executable at command[0]",
    );
    expect(
        &|h| h.on_error = None,
        ".on_error",
        "is required in v1 (warn | block | suspend)",
    );
    expect(
        &|h| h.timeout_seconds = Some(0),
        ".timeout_seconds",
        "must be greater than 0 when specified",
    );
    expect(
        &|h| h.max_output_bytes = Some(0),
        ".max_output_bytes",
        "must be greater than 0 when specified",
    );
    expect(
        &|h| h.suspend_mode = Some(HookSuspendMode::RetryBackoff),
        ".suspend_mode",
        "requires on_error: suspend",
    );
    expect(
        &|h| h.extra = vec![text("note"), text("scope")],
        ".scope",
        "Use ~/.ralph/config.yml for user-level defaults; per-hook `global`/`scope` fields are not supported in v1",
    );
    expect(
        &|h| h.extra = vec![text("max_parallel")],
        ".max_parallel",
        "Parallel hook execution is out of scope for v1; hooks must run sequentially",
    );
    expect(
        &|h| h.mutate.format = Some(text("json")),
        ".mutate",
        "mutation settings require mutate.enabled: true",
    );
    expect(
        &|h| {
            h.mutate.enabled = true;
            h.mutate.format = Some(text("xml"));
        },
        ".mutate.format",
        "only 'json' is supported for v1 mutation payloads",
    );
    for (key, reason) in [
        (
            "prompt",
            "v1 allows metadata-only mutation; prompt/event/config mutation is unsupported",
        ),
        ("xml", "v1 mutation payloads are JSON-only"),
        ("other", "unsupported mutate field in v1 (supported keys: enabled, format)"),
    ] {
        expect(
            &|h| {
                h.mutate.enabled = true;
                h.mutate.format = Some(text("JSON"));
                h.mutate.extra = vec![text(key)];
            },
            &format!(".mutate.{key}"),
            reason,
        );
    }
}

#[test]
fn defaults_of_hooks_are_positive() {
    let fault = |edit: &dyn Fn(&mut HooksConfig)| {
        let mut config = default_config();
        edit(&mut config.hooks);
        match config.validate_hooks() {
            Err(ConfigError::HookValidation { field, .. }) => field,
            Err(ConfigError::UnsupportedHookField { field, .. }) => field,
            other => panic!("unexpected result: {other:?}"),
        }
    };
    assert_eq!(fault(&|h| h.defaults.timeout_seconds = 0), "hooks.defaults.timeout_seconds");
    assert_eq!(fault(&|h| h.defaults.max_output_bytes = 0), "hooks.defaults.max_output_bytes");
    assert_eq!(fault(&|h| h.extra = vec![text("globals")]), "hooks.globals");
}

#[test]
fn warnings_come_in_a_fixed_order() {
    let mut config = default_config();
    config.archive_prompts = true;
    config.enable_metrics = true;
    config.max_tokens = Some(1);
    config.retry_delay = Some(1);
    config.event_loop.mutation_score_warn_threshold = Some(100.5f64.to_bits());
    config.adapters.amp.tool_permissions = Some(vec![]);
    let fields: Vec<String> = config
        .validate()
        .expect("valid")
        .into_iter()
        .map(|warning| match warning {
            ConfigWarning::DeferredFeature { field, .. } => field,
            ConfigWarning::DroppedField { field, .. } => field,
            ConfigWarning::InvalidValue { field, .. } => field,
        })
        .collect();
    assert_eq!(
        fields,
        vec![
            "archive_prompts",
            "enable_metrics",
            "max_tokens",
            "retry_delay",
            "event_loop.mutation_score_warn_threshold",
            "adapters.*.tool_permissions",
        ]
    );
    let mut config = default_config();
    config.adapters.kiro.tool_permissions = Some(vec![]);
    match config.validate().expect("valid").as_slice() {
        [ConfigWarning::DroppedField { field, reason }] => {
            assert_eq!(field, "adapters.*.tool_permissions");
            assert_eq!(reason, "CLI tool manages its own permissions");
        }
        other => panic!("unexpected warnings: {other:?}"),
    }
}

#[test]
fn percentages_are_told_by_their_bits() {
    for value in [0.0f64, -0.0, 0.5, 99.9, 100.0] {
        assert!(percentage_in_range(value.to_bits()), "{value}");
    }
    for value in [-0.1f64, 100.1, f64::INFINITY, f64::NEG_INFINITY, f64::NAN, -f64::NAN] {
        assert!(!percentage_in_range(value.to_bits()), "{value}");
    }
}

// ---- backends ----

#[test]
fn the_effective_backend_is_never_auto() {
    let mut config = default_config();
    assert_eq!(config.effective_backend("first"), "kiro");
    config.cli.backend = text("auto");
    assert_eq!(config.effective_backend("first"), "first");
    config.agent_priority = vec![text("amp"), text("codex")];
    assert_eq!(config.effective_backend("first"), "amp");
}

#[test]
fn default_configurations_carry_nothing_of_events_and_interface() {
    let mut config = default_config();
    assert!(config.events.is_empty() && config.tui.is_none());
    config.events.push(NamedEvent {
        topic: text("build.done"),
        metadata: serde_json::Value::from("done"),
    });
    config.tui = Some(serde_json::Value::from(1));
    config.normalize();
    assert_eq!(config.events[0].topic, "build.done");
    assert_eq!(config.events[0].metadata, "done");
    assert_eq!(config.tui, Some(serde_json::Value::from(1)));
    assert_eq!(config.event_loop.completion_promise, "LOOP_COMPLETE");
    assert_eq!(config.event_loop.max_iterations, 100);
    assert!(!config.hooks.enabled && config.hooks.events.is_empty());
}

#[test]
fn backends_are_tried_in_order() {
    let mut config = default_config();
    assert_eq!(
        config.get_agent_priority("first"),
        vec!["first", "kiro", "gemini", "codex", "amp"]
    );
    config.agent_priority = vec![text("amp"), text("codex")];
    assert_eq!(config.get_agent_priority("first"), vec!["amp", "codex"]);
    config.adapters.claude.timeout = 1;
    config.adapters.gemini.timeout = 2;
    config.adapters.kiro.timeout = 3;
    config.adapters.codex.timeout = 4;
    config.adapters.amp.timeout = 5;
    let timeouts: Vec<u64> = ["other", "gemini", "kiro", "codex", "amp"]
        .iter()
        .map(|name| config.adapter_settings(name).timeout)
        .collect();
    assert_eq!(timeouts, vec![1, 2, 3, 4, 5]);
}

// ---- keys ----

#[test]
fn phase_events_are_known_by_their_keys() {
    let all = [
        (HookPhaseEvent::PreLoopStart, "pre.loop.start"),
        (HookPhaseEvent::PostLoopStart, "post.loop.start"),
        (HookPhaseEvent::PreIterationStart, "pre.iteration.start"),
        (HookPhaseEvent::PostIterationStart, "post.iteration.start"),
        (HookPhaseEvent::PrePlanCreated, "pre.plan.created"),
        (HookPhaseEvent::PostPlanCreated, "post.plan.created"),
        (HookPhaseEvent::PreHumanInteract, "pre.human.interact"),
        (HookPhaseEvent::PostHumanInteract, "post.human.interact"),
        (HookPhaseEvent::PreLoopComplete, "pre.loop.complete"),
        (HookPhaseEvent::PostLoopComplete, "post.loop.complete"),
        (HookPhaseEvent::PreLoopError, "pre.loop.error"),
        (HookPhaseEvent::PostLoopError, "post.loop.error"),
    ];
    for (phase, key) in all {
        assert_eq!(phase.as_str(), key);
        assert_eq!(HookPhaseEvent::parse(key), Some(phase));
    }
    assert_eq!(HookPhaseEvent::parse("pre.loop"), None);
    assert!(check_phase_keys(&vec![Some(text("pre.loop.start")), None]).is_ok());
}

#[test]
fn documents_with_unknown_keys_are_refused() {
    let document = read_document("hooks:\n  events:\n    pre.loop.start: []\n").expect("valid");
    assert!(validate_document(&document).is_ok());
    assert!(validate_hooks_phase_event_keys(&document).is_ok());
    assert!(read_document("[1, 2]").is_ok());
    assert!(read_document("hooks: 3\n").is_ok());
    assert!(matches!(
        read_document("project: x\nhooks:\n  events:\n    nope: []\n"),
        Err(ConfigError::DeprecatedProjectKey)
    ));
    match read_document("hooks:\n  events:\n    pre.loop.start: []\n    nope: []\n") {
        Err(ConfigError::InvalidHookPhaseEvent { phase_event }) => assert_eq!(phase_event, "nope"),
        other => panic!("unexpected result: {other:?}"),
    }
    assert!(matches!(read_document("a: [1"), Err(ConfigError::Yaml { .. })));
}
