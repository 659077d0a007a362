//! Color, verbosity and output format of the command line.
use vstd::prelude::*;

verus! {

/// Color output mode for terminal display.
#[derive(Debug, Clone, Copy, PartialEq, Eq, Structural)]
pub enum ColorMode {
    /// Colors where the output is a terminal.
    Auto,
    /// Always colors.
    Always,
    /// Never colors.
    Never,
}

impl Default for ColorMode {
    fn default() -> (r: Self)
        ensures
            r == ColorMode::Auto,
    {
        ColorMode::Auto
    }
}

/// Whether output is coloured.
pub open spec fn uses_colors(mode: ColorMode, no_color: bool, terminal: bool) -> bool {
    !no_color && (mode == ColorMode::Always || mode == ColorMode::Auto && terminal)
}

impl ColorMode {
    /// Tells whether colors are used. `no_color` tells whether `NO_COLOR` is set, which disables
    /// colors in every mode; `terminal` whether the output is a terminal.
    pub fn should_use_colors(self, no_color: bool, terminal: bool) -> (r: bool)
        ensures
            r == (!no_color && (self == ColorMode::Always || self == ColorMode::Auto && terminal)),
            r == uses_colors(self, no_color, terminal),
    {
        if no_color {
            return false;
        }
        match self {
            ColorMode::Always => true,
            ColorMode::Never => false,
            ColorMode::Auto => terminal,
        }
    }
}

/// Verbosity level for streaming output.
#[derive(Debug, Clone, Copy, PartialEq, Eq, Structural)]
pub enum Verbosity {
    /// No streaming output (for scripts).
    Quiet,
    /// Text of the assistant and tool invocations.
    Normal,
    /// Everything, with tool results and a summary of the session.
    Verbose,
}

impl Default for Verbosity {
    fn default() -> (r: Self)
        ensures
            r == Verbosity::Normal,
    {
        Verbosity::Normal
    }
}

/// The verbosity of flags and environment: flags come before the environment, and quiet comes
/// before verbose.
pub open spec fn verbosity_of(
    cli_verbose: bool,
    cli_quiet: bool,
    env_quiet: bool,
    env_verbose: bool,
) -> Verbosity {
    if cli_quiet {
        Verbosity::Quiet
    } else if cli_verbose {
        Verbosity::Verbose
    } else if env_quiet {
        Verbosity::Quiet
    } else if env_verbose {
        Verbosity::Verbose
    } else {
        Verbosity::Normal
    }
}

impl Verbosity {
    /// Resolves the verbosity of the flags and of the values of `RALPH_QUIET` and `RALPH_VERBOSE`,
    /// which count as soon as they are set.
    pub fn resolve(
        cli_verbose: bool,
        cli_quiet: bool,
        ralph_quiet: Option<&str>,
        ralph_verbose: Option<&str>,
    ) -> (r: Self)
        ensures
            r == verbosity_of(cli_verbose, cli_quiet, ralph_quiet is Some, ralph_verbose is Some),
    {
        Verbosity::resolve_with_env(
            cli_verbose,
            cli_quiet,
            ralph_quiet.is_some(),
            ralph_verbose.is_some(),
        )
    }

    /// Resolves the verbosity of flags and environment.
    pub fn resolve_with_env(
        cli_verbose: bool,
        cli_quiet: bool,
        env_quiet: bool,
        env_verbose: bool,
    ) -> (r: Self)
        ensures
            r == verbosity_of(cli_verbose, cli_quiet, env_quiet, env_verbose),
    {
        if cli_quiet {
            return Verbosity::Quiet;
        }
        if cli_verbose {
            return Verbosity::Verbose;
        }
        if env_quiet {
            return Verbosity::Quiet;
        }
        if env_verbose {
            return Verbosity::Verbose;
        }
        Verbosity::Normal
    }
}

/// Output format for events.
#[derive(Debug, Clone, Copy, PartialEq, Eq, Structural)]
pub enum OutputFormat {
    /// Human-readable table.
    Table,
    /// JSON for programs.
    Json,
}

impl Default for OutputFormat {
    fn default() -> (r: Self)
        ensures
            r == OutputFormat::Table,
    {
        OutputFormat::Table
    }
}

} // verus!
