//! The orchestration loop: its steps, lifecycle hooks and termination.
pub mod end_laws;
pub mod event_log;
pub mod execution;
pub mod hook_laws;
pub mod hooks;
pub mod late_events;
pub mod laws;
pub mod metadata;
pub mod record_laws;
pub mod requests;
pub mod resolution;
pub mod runner;
pub mod runner_laws;
pub mod setup;
pub mod suspend;
pub mod suspend_wait;
pub mod termination;
