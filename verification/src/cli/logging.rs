//! Where log output goes.
use crate::text::str_eq;
use vstd::prelude::*;

verus! {

/// What decides where log output goes.
#[derive(Debug)]
pub struct LoggingConfig {
    /// Whether the terminal interface owns the terminal.
    pub tui_enabled: bool,
    /// Whether the output is reserved for a remote caller.
    pub rpc_enabled: bool,
    /// Whether the output is reserved for a protocol.
    pub mcp_enabled: bool,
    /// Whether diagnostics are captured.
    pub diagnostics_enabled: bool,
    /// Filter of log messages.
    pub filter: &'static str,
}

/// Where log output goes.
#[derive(Debug, Clone, Copy, PartialEq, Eq, Structural)]
pub enum LogSink {
    File,
    Stderr,
    Stdout,
}

/// What could be had of the capture of diagnostics.
#[derive(Debug, Clone, Copy, PartialEq, Eq, Structural)]
pub enum TraceCapture {
    /// There is no directory for the session.
    NoSession,
    /// There is a directory, but nothing can be captured in it.
    NoLayer,
    /// Diagnostics can be captured.
    Layer,
}

/// How log output is written.
#[derive(Debug, Clone, Copy, PartialEq, Eq, Structural)]
pub struct LogPlan {
    pub sink: LogSink,
    /// Whether diagnostics are captured too.
    pub capture: bool,
}

/// The sink of a configuration: a file under the terminal interface, standard error where standard
/// output is reserved, and else standard output.
pub open spec fn sink_of(cfg: LoggingConfig) -> LogSink {
    if cfg.tui_enabled {
        LogSink::File
    } else if cfg.rpc_enabled || cfg.mcp_enabled {
        LogSink::Stderr
    } else {
        LogSink::Stdout
    }
}

/// Chooses where log output goes.
pub fn log_sink(cfg: &LoggingConfig) -> (r: LogSink)
    ensures
        r == sink_of(*cfg),
{
    if cfg.tui_enabled {
        LogSink::File
    } else if cfg.rpc_enabled || cfg.mcp_enabled {
        LogSink::Stderr
    } else {
        LogSink::Stdout
    }
}

/// How a run logs, where it does.
pub open spec fn log_plan(cfg: LoggingConfig, file: bool, capture: TraceCapture) -> Option<LogPlan> {
    if sink_of(cfg) == LogSink::File && !file {
        None
    } else {
        Some(
            LogPlan {
                sink: sink_of(cfg),
                capture: cfg.diagnostics_enabled && capture == TraceCapture::Layer,
            },
        )
    }
}

/// Decides how log output is written, where it is written at all. `file` tells whether a log file
/// could be made, which only the terminal interface needs; `capture` what could be had of the
/// capture of diagnostics. Diagnostics are captured in every mode, where they are to be and can be;
/// where they cannot be, log output is written all the same.
pub fn init(cfg: &LoggingConfig, file: bool, capture: TraceCapture) -> (r: Option<LogPlan>)
    ensures
        r == (if sink_of(*cfg) == LogSink::File && !file {
            None
        } else {
            Some(
                LogPlan {
                    sink: sink_of(*cfg),
                    capture: cfg.diagnostics_enabled && capture == TraceCapture::Layer,
                },
            )
        }),
        r == log_plan(*cfg, file, capture),
{
    let sink = log_sink(cfg);
    if sink == LogSink::File && !file {
        return None;
    }
    Some(LogPlan { sink, capture: cfg.diagnostics_enabled && capture == TraceCapture::Layer })
}

/// Chooses the filter of log messages.
pub fn log_filter(verbose: bool) -> (r: &'static str)
    ensures
        r@ == if verbose {
            "debug"@
        } else {
            "info"@
        },
{
    if verbose {
        "debug"
    } else {
        "info"
    }
}

/// Tells whether diagnostics are captured: where the command may, and `RALPH_DIAGNOSTICS` is `1`.
pub fn diagnostics_enabled(eligible: bool, ralph_diagnostics: Option<&str>) -> (r: bool)
    ensures
        r == (eligible && ralph_diagnostics is Some && ralph_diagnostics->0@ == "1"@),
{
    match ralph_diagnostics {
        Some(value) => eligible && str_eq(value, "1"),
        None => false,
    }
}

} // verus!
