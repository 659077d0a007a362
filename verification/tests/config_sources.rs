use ralph::cli::config_source::{
    apply_config_overrides, choose_core_file, load_config_with_overrides, source_texts,
    split_config_sources, ConfigSource, CoreFile, HatsSource,
};
use ralph::config::core_config::CoreConfig;
use ralph::config::ralph_config::RalphConfig;
use ralph::config::settings::{
    CliConfig, FeaturesConfig, InjectMode, MemoriesConfig, PreflightConfig, RobotConfig,
    SkillsConfig,
};

fn default_config() -> RalphConfig {
    RalphConfig::with_sections(
        CoreConfig::in_workspace(None, Some("/work".to_string())),
        CliConfig {
            backend: "kiro".to_string(),
            command: None,
            default_mode: "autonomous".to_string(),
            idle_timeout_secs: 30,
        },
        MemoriesConfig {
            enabled: true,
            inject: InjectMode::Auto,
            budget: 0,
        },
        SkillsConfig {
            enabled: true,
            dirs: vec![],
        },
        FeaturesConfig {
            parallel: true,
            auto_merge: false,
            preflight: PreflightConfig {
                enabled: true,
                strict: false,
                skip: vec![],
            },
        },
        RobotConfig {
            enabled: false,
            timeout_seconds: None,
            checkin_interval_seconds: None,
            fault: None,
        },
    )
}

fn set(key: &str, value: &str) -> ConfigSource {
    ConfigSource::Override {
        key: key.to_string(),
        value: value.to_string(),
    }
}

#[test]
fn test_config_source_parse_builtin() {
    let source = ConfigSource::parse("builtin:code-assist");
    match source {
        ConfigSource::Builtin(name) => assert_eq!(name, "code-assist"),
        _ => panic!("Expected Builtin variant"),
    }
}

#[test]
fn test_hats_source_parse_builtin() {
    let source = HatsSource::parse("builtin:code-assist");
    match source {
        HatsSource::Builtin(name) => assert_eq!(name, "code-assist"),
        _ => panic!("Expected Builtin variant"),
    }
}

#[test]
fn test_hats_source_parse_file() {
    let source = HatsSource::parse("hats/feature.yml");
    match source {
        HatsSource::File(path) => assert_eq!(path, "hats/feature.yml"),
        _ => panic!("Expected File variant"),
    }
}

#[test]
fn test_config_source_parse_remote_https() {
    let source = ConfigSource::parse("https://example.com/preset.yml");
    match source {
        ConfigSource::Remote(url) => assert_eq!(url, "https://example.com/preset.yml"),
        _ => panic!("Expected Remote variant"),
    }
}

#[test]
fn test_config_source_parse_remote_http() {
    let source = ConfigSource::parse("http://example.com/preset.yml");
    match source {
        ConfigSource::Remote(url) => assert_eq!(url, "http://example.com/preset.yml"),
        _ => panic!("Expected Remote variant"),
    }
}

#[test]
fn test_config_source_parse_file() {
    let source = ConfigSource::parse("ralph.yml");
    match source {
        ConfigSource::File(path) => assert_eq!(path, "ralph.yml"),
        _ => panic!("Expected File variant"),
    }
}

#[test]
fn test_config_source_parse_override_scratchpad() {
    let source = ConfigSource::parse("core.scratchpad=.ralph/feature/scratchpad.md");
    match source {
        ConfigSource::Override { key, value } => {
            assert_eq!(key, "core.scratchpad");
            assert_eq!(value, ".ralph/feature/scratchpad.md");
        }
        _ => panic!("Expected Override variant"),
    }
}

#[test]
fn test_config_source_parse_override_specs_dir() {
    let source = ConfigSource::parse("core.specs_dir=./my-specs/");
    match source {
        ConfigSource::Override { key, value } => {
            assert_eq!(key, "core.specs_dir");
            assert_eq!(value, "./my-specs/");
        }
        _ => panic!("Expected Override variant"),
    }
}

#[test]
fn test_config_source_to_cli_string_roundtrips() {
    // File path
    let source = ConfigSource::File("ralph.yml".to_string());
    assert_eq!(source.to_cli_string(), "ralph.yml");

    // Builtin
    let source = ConfigSource::Builtin("code-assist".to_string());
    assert_eq!(source.to_cli_string(), "builtin:code-assist");

    // Remote URL
    let source = ConfigSource::Remote("https://example.com/ralph.yml".to_string());
    assert_eq!(source.to_cli_string(), "https://example.com/ralph.yml");

    // Override
    let source = ConfigSource::Override {
        key: "core.scratchpad".to_string(),
        value: ".ralph/feature/scratchpad.md".to_string(),
    };
    assert_eq!(
        source.to_cli_string(),
        "core.scratchpad=.ralph/feature/scratchpad.md"
    );
}

#[test]
fn test_config_source_parse_file_with_equals() {
    // Paths containing '=' but not starting with 'core.' should be treated as files
    let source = ConfigSource::parse("path/with=equals.yml");
    match source {
        ConfigSource::File(path) => assert_eq!(path, "path/with=equals.yml"),
        _ => panic!("Expected File variant for path with equals sign"),
    }
}

#[test]
fn test_config_source_parse_core_without_equals() {
    // "core.field" without '=' should be treated as a file path (will fail to load)
    let source = ConfigSource::parse("core.field");
    match source {
        ConfigSource::File(path) => assert_eq!(path, "core.field"),
        _ => panic!("Expected File variant for core.field without ="),
    }
}

#[test]
fn test_config_source_parse_non_core_with_equals_is_file() {
    // Non-core.* prefix with '=' should be treated as file path
    let source = ConfigSource::parse("event_loop.max_iterations=5");
    match source {
        ConfigSource::File(path) => assert_eq!(path, "event_loop.max_iterations=5"),
        _ => panic!("Expected File variant, not Override"),
    }
}

#[test]
fn config_source_override_is_split_at_the_first_equals_sign() {
    match ConfigSource::parse("core.specs_dir=a=b") {
        ConfigSource::Override { key, value } => {
            assert_eq!(key, "core.specs_dir");
            assert_eq!(value, "a=b");
        }
        _ => panic!("Expected Override variant"),
    }
}

#[test]
fn source_texts_are_read_back_as_the_same_sources() {
    for text in [
        "ralph.yml",
        "builtin:tdd",
        "https://example.com/a.yml",
        "http://example.com/a.yml",
        "core.scratchpad=x=y",
        "core.field",
        "",
    ] {
        assert_eq!(ConfigSource::parse(text).to_cli_string(), text);
    }
    for text in ["builtin:tdd", "hats.yml", "https://example.com/hats.yml"] {
        assert_eq!(HatsSource::parse(text).label(), text);
    }
    let sources = vec![
        ConfigSource::parse("ralph.yml"),
        ConfigSource::parse("core.specs_dir=s"),
    ];
    assert_eq!(source_texts(&sources), vec!["ralph.yml", "core.specs_dir=s"]);
}

#[test]
fn test_apply_config_overrides_scratchpad() {
    let mut config = default_config();
    let sources = vec![set("core.scratchpad", ".custom/scratch.md")];
    apply_config_overrides(&mut config, &sources).unwrap();
    assert_eq!(config.core.scratchpad.path, ".custom/scratch.md");
}

#[test]
fn test_apply_config_overrides_specs_dir() {
    let mut config = default_config();
    let sources = vec![set("core.specs_dir", "./specifications/")];
    apply_config_overrides(&mut config, &sources).unwrap();
    assert_eq!(config.core.specs_dir, "./specifications/");
}

#[test]
fn test_apply_config_overrides_multiple() {
    let mut config = default_config();
    let sources = vec![
        set("core.scratchpad", ".custom/scratch.md"),
        set("core.specs_dir", "./my-specs/"),
    ];
    apply_config_overrides(&mut config, &sources).unwrap();
    assert_eq!(config.core.scratchpad.path, ".custom/scratch.md");
    assert_eq!(config.core.specs_dir, "./my-specs/");
}

#[test]
fn test_apply_config_overrides_unknown_field() {
    // Unknown core.* fields should not be an error
    let mut config = default_config();
    let original_scratchpad = config.core.scratchpad.path.clone();
    let sources = vec![set("core.unknown_field", "some_value")];
    apply_config_overrides(&mut config, &sources).unwrap();
    // Original values should be unchanged
    assert_eq!(config.core.scratchpad.path, original_scratchpad);
}

#[test]
fn the_last_override_of_a_field_holds() {
    let mut config = default_config();
    let sources = vec![
        set("core.scratchpad", "first.md"),
        set("core.scratchpad", "second.md"),
    ];
    apply_config_overrides(&mut config, &sources).unwrap();
    assert_eq!(config.core.scratchpad.path, "second.md");
    assert_eq!(config.core.specs_dir, ".ralph/specs/");
}

#[test]
fn test_partition_config_sources_separates_overrides() {
    let sources = vec![
        ConfigSource::File("ralph.yml".to_string()),
        set("core.scratchpad", ".custom/scratchpad.md"),
        ConfigSource::Builtin("tdd".to_string()),
        set("core.specs_dir", "./specs/"),
    ];

    let (primary, overrides) = split_config_sources(&sources);

    assert_eq!(primary.len(), 2); // File + Builtin
    assert_eq!(overrides.len(), 2); // Two overrides
    assert!(matches!(primary[0], ConfigSource::File(_)));
    assert!(matches!(primary[1], ConfigSource::Builtin(_)));
}

#[test]
fn test_partition_config_sources_only_overrides() {
    let sources = vec![set("core.scratchpad", ".custom/scratchpad.md")];

    let (primary, overrides) = split_config_sources(&sources);

    assert_eq!(primary.len(), 0); // No primary sources
    assert_eq!(overrides.len(), 1); // One override
}

#[test]
fn the_first_source_is_the_core_file() {
    match choose_core_file(&vec![
        set("core.scratchpad", "s"),
        ConfigSource::File("a.yml".to_string()),
        ConfigSource::File("b.yml".to_string()),
    ]) {
        Ok(CoreFile::Named(path)) => assert_eq!(path, "a.yml"),
        _ => panic!("Expected a named file"),
    }
    assert!(matches!(
        choose_core_file(&vec![set("core.scratchpad", "s")]),
        Ok(CoreFile::Default)
    ));
    assert_eq!(
        choose_core_file(&vec![ConfigSource::Builtin("tdd".to_string())]).unwrap_err(),
        "`-c builtin:tdd` is no longer supported.\n\nBuiltin presets are now hat collections.\nUse:\n  ralph run -c ralph.yml -H builtin:tdd"
    );
    assert_eq!(
        choose_core_file(&vec![ConfigSource::Remote("https://x/y".to_string())]).unwrap_err(),
        "Remote core config sources are not supported for this command: https://x/y"
    );
}

#[test]
fn a_loaded_configuration_is_normalized_placed_and_overridden() {
    let mut config = default_config();
    config.agent = Some("gemini".to_string());
    let config = load_config_with_overrides(
        config,
        Some("/elsewhere".to_string()),
        &vec![
            ConfigSource::File("ralph.yml".to_string()),
            set("core.scratchpad", ".custom/scratch.md"),
        ],
    );
    assert_eq!(config.cli.backend, "gemini");
    assert_eq!(config.core.workspace_root, "/elsewhere");
    assert_eq!(config.core.scratchpad.path, ".custom/scratch.md");
    assert_eq!(config.core.specs_dir, ".ralph/specs/");

    let config = load_config_with_overrides(default_config(), None, &vec![]);
    assert_eq!(config.core.workspace_root, ".");
    assert_eq!(config.cli.backend, "kiro");
}
