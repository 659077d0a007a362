//! Tasks configuration for runtime work tracking.
use vstd::prelude::*;

verus! {

/// Controls the runtime task tracking system.
#[derive(Debug)]
pub struct TasksConfig {
    /// Whether the tasks feature is enabled.
    pub enabled: bool,
}

impl Default for TasksConfig {
    fn default() -> (r: Self)
        ensures
            r.enabled,
    {
        TasksConfig { enabled: true }
    }
}

} // verus!
