//! The command line of the orchestrator.
pub mod args;
pub mod config_source;
pub mod events;
pub mod hooks_report;
pub mod hooks_text;
pub mod logging;
pub mod preflight;
pub mod process;
pub mod report_laws;
pub mod run;
pub mod run_laws;
pub mod run_steps;
pub mod skills;
pub mod source_laws;
pub mod types;
pub mod workspace;
