//! Hat definitions.
use crate::config::scratchpad::ScratchpadConfig;
use vstd::prelude::*;

verus! {

/// The backend that a hat runs on.
#[derive(Debug)]
pub enum HatBackend {
    /// A backend by its name.
    Named(String),
    /// A backend by its name, with arguments.
    NamedWithArgs { backend_type: String, args: Vec<String> },
    /// An agent of the Kiro backend.
    KiroAgent { backend_type: String, agent: String },
    /// A command of the user's own.
    Custom { command: String, args: Vec<String> },
}

/// One hat of the configuration.
#[derive(Debug)]
pub struct HatConfig {
    /// Display name.
    pub name: String,
    /// What the hat is for.
    pub description: Option<String>,
    /// Topics that trigger the hat.
    pub triggers: Vec<String>,
    /// Topics that the hat may publish.
    pub publishes: Vec<String>,
    /// Instructions of the hat.
    pub instructions: String,
    /// Fragments that are appended to the instructions.
    pub extra_instructions: Vec<String>,
    /// Backend override.
    pub backend: Option<HatBackend>,
    /// Arguments that are appended to those of the backend.
    pub backend_args: Option<Vec<String>>,
    /// Topic that is published where the hat published nothing.
    pub default_publishes: Option<String>,
    /// Limit of activations.
    pub max_activations: Option<u32>,
    /// Tools that the hat must not use.
    pub disallowed_tools: Vec<String>,
    /// Scratchpad override.
    pub scratchpad: Option<ScratchpadConfig>,
    /// Number of instances that may run at once.
    pub concurrency: u32,
    /// Whether the hat aggregates the results of a wave.
    pub aggregate: bool,
}

/// A hat with the key under which it is defined.
#[derive(Debug)]
pub struct NamedHat {
    pub id: String,
    pub hat: HatConfig,
}

} // verus!
