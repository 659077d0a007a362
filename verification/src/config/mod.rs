//! Configuration of the orchestrator.
//!
//! | Module        | Responsibility                                        |
//! |---------------|-------------------------------------------------------|
//! | `ralph_config`| top-level [`RalphConfig`], normalization, validation  |
//! | `event_loop`  | [`EventLoopConfig`]: iterations, prompts, completion  |
//! | `core_config` | [`CoreConfig`]: scratchpad, specs dir, guardrails     |
//! | `hooks`       | [`HooksConfig`] and the hook types                    |
//! | `hats`        | [`HatConfig`] and [`HatBackend`]                      |
//! | `scratchpad`  | [`ScratchpadConfig`]                                  |
//! | `tasks`       | [`TasksConfig`]                                       |
//! | `settings`    | backend, memory, robot, feature and skill settings    |
//! | `errors`      | [`ConfigError`] and [`ConfigWarning`]                 |
//! | `keys`        | checks on the keys of a YAML document                 |
pub mod core_config;
pub mod errors;
pub mod event_loop;
pub mod hats;
pub mod hooks;
pub mod keys;
pub mod laws;
pub mod ralph_config;
pub mod scratchpad;
pub mod settings;
pub mod tasks;
pub mod validity_laws;

pub use core_config::{AdapterSettings, AdaptersConfig, CoreConfig};
pub use errors::{ConfigError, ConfigWarning};
pub use event_loop::EventLoopConfig;
pub use hats::{HatBackend, HatConfig, NamedHat};
pub use hooks::{
    EnvVar, HookDefaults, HookMutationConfig, HookOnError, HookPhaseEvent, HookSpec,
    HookSuspendMode, HooksConfig, PhaseHooks,
};
pub use ralph_config::RalphConfig;
pub use scratchpad::ScratchpadConfig;
pub use settings::{
    CliConfig, FeaturesConfig, InjectMode, MemoriesConfig, PreflightConfig, RobotConfig,
    SkillsConfig,
};
pub use tasks::TasksConfig;
