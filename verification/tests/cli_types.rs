use ralph::cli::types::{ColorMode, OutputFormat, Verbosity};

#[test]
fn test_verbosity_cli_quiet() {
    assert_eq!(
        Verbosity::resolve(false, true, None, None),
        Verbosity::Quiet
    );
}

#[test]
fn test_verbosity_cli_verbose() {
    assert_eq!(
        Verbosity::resolve(true, false, None, None),
        Verbosity::Verbose
    );
}

#[test]
fn test_verbosity_default() {
    assert_eq!(
        Verbosity::resolve_with_env(false, false, false, false),
        Verbosity::Normal
    );
}

#[test]
fn test_verbosity_env_quiet() {
    assert_eq!(
        Verbosity::resolve_with_env(false, false, true, false),
        Verbosity::Quiet
    );
}

#[test]
fn test_verbosity_env_verbose() {
    assert_eq!(
        Verbosity::resolve_with_env(false, false, false, true),
        Verbosity::Verbose
    );
}

#[test]
fn verbosity_prefers_flags_over_environment() {
    assert_eq!(
        Verbosity::resolve(true, false, Some("1"), None),
        Verbosity::Verbose
    );
    assert_eq!(
        Verbosity::resolve(true, true, None, None),
        Verbosity::Quiet
    );
    // A variable counts as soon as it is set, even where it is empty.
    assert_eq!(
        Verbosity::resolve(false, false, Some(""), Some("1")),
        Verbosity::Quiet
    );
}

#[test]
fn test_color_mode_should_use_colors() {
    // `NO_COLOR` disables colors globally, for `--color always` too.
    assert!(!ColorMode::Always.should_use_colors(true, true));
    assert!(ColorMode::Always.should_use_colors(false, false));
    assert!(!ColorMode::Never.should_use_colors(false, true));
}

#[test]
fn automatic_colors_need_a_terminal() {
    assert!(ColorMode::Auto.should_use_colors(false, true));
    assert!(!ColorMode::Auto.should_use_colors(false, false));
    assert!(!ColorMode::Auto.should_use_colors(true, true));
}

#[test]
fn defaults_of_output_settings() {
    assert_eq!(ColorMode::default(), ColorMode::Auto);
    assert_eq!(Verbosity::default(), Verbosity::Normal);
    assert_eq!(OutputFormat::default(), OutputFormat::Table);
}
