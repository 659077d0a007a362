//! Backend, memory, robot, feature and skill settings.
use vstd::prelude::*;

verus! {

/// Backend settings.
#[derive(Debug)]
pub struct CliConfig {
    /// Name of the backend; `auto` to detect one, `custom` for a command of the user's own.
    pub backend: String,
    /// Command of the custom backend.
    pub command: Option<String>,
    /// `interactive` or `autonomous`.
    pub default_mode: String,
    /// Idle timeout of interactive sessions in seconds.
    pub idle_timeout_secs: u32,
}

/// How memories reach the prompt.
#[derive(Debug, Clone, Copy, PartialEq, Eq, Structural)]
pub enum InjectMode {
    /// Memories are put into every prompt.
    Auto,
    /// Agents load memories themselves.
    Manual,
    /// Memories are not used.
    Off,
}

/// Memory settings.
#[derive(Debug)]
pub struct MemoriesConfig {
    pub enabled: bool,
    pub inject: InjectMode,
    /// Size limit of injected memories; zero for none.
    pub budget: usize,
}

/// Settings of the human-in-the-loop bot.
#[derive(Debug)]
pub struct RobotConfig {
    pub enabled: bool,
    /// Seconds to wait for an answer.
    pub timeout_seconds: Option<u64>,
    /// Seconds between two check-ins.
    pub checkin_interval_seconds: Option<u64>,
    /// What is wrong with the credentials and limits, where something is.
    pub fault: Option<String>,
}

/// Settings of the checks before a run.
#[derive(Debug)]
pub struct PreflightConfig {
    pub enabled: bool,
    /// Whether warnings count as failures.
    pub strict: bool,
    /// Names of the checks to leave out.
    pub skip: Vec<String>,
}

/// Feature flags.
#[derive(Debug)]
pub struct FeaturesConfig {
    /// Whether several loops may run at once.
    pub parallel: bool,
    /// Whether finished worktree loops are queued for merging.
    pub auto_merge: bool,
    pub preflight: PreflightConfig,
}

/// Skill settings.
#[derive(Debug)]
pub struct SkillsConfig {
    pub enabled: bool,
    /// Directories in which skills are found.
    pub dirs: Vec<String>,
}

} // verus!
