//! Core paths, settings, and adapter configuration.
use crate::config::scratchpad::ScratchpadConfig;
use crate::path::{is_absolute, join_path, path_below};
use crate::text::texts;
use vstd::prelude::*;

verus! {

/// Core paths and settings shared across all hats.
#[derive(Debug)]
pub struct CoreConfig {
    /// Scratchpad configuration.
    pub scratchpad: ScratchpadConfig,
    /// Path to the specs directory.
    pub specs_dir: String,
    /// Guardrails injected into every prompt.
    pub guardrails: Vec<String>,
    /// Root directory for workspace-relative paths.
    pub workspace_root: String,
}

/// Specs directory unless a configuration says otherwise.
pub fn default_specs_dir() -> (r: String)
    ensures
        r@ == ".ralph/specs/"@,
{
    ".ralph/specs/".to_owned()
}

/// The guardrails that hold unless a configuration says otherwise.
pub open spec fn guardrail_texts() -> Seq<Seq<char>> {
    seq![
        "Fresh context each iteration - scratchpad is memory"@,
        "Don't assume 'not implemented' - search first"@,
        "Backpressure is law - tests/typecheck/lint/audit must pass"@,
        "When behavior is runnable or user-facing, exercise the real app with the strongest available harness (Playwright, tmux, real CLI/API) and try at least one adversarial path before reporting done"@,
        "Confidence protocol: score decisions 0-100. >80 proceed autonomously; 50-80 proceed + document in .ralph/agent/decisions.md; <50 choose safe default + document"@,
        "Commit atomically - one logical change per commit, capture the why"@,
    ]
}

/// Lists the guardrails that hold unless a configuration says otherwise.
pub fn default_guardrails() -> (r: Vec<String>)
    ensures
        texts(r@) == guardrail_texts(),
{
    let mut r: Vec<String> = Vec::new();
    r.push("Fresh context each iteration - scratchpad is memory".to_owned());
    r.push("Don't assume 'not implemented' - search first".to_owned());
    r.push("Backpressure is law - tests/typecheck/lint/audit must pass".to_owned());
    r.push(
        "When behavior is runnable or user-facing, exercise the real app with the strongest available harness (Playwright, tmux, real CLI/API) and try at least one adversarial path before reporting done".to_owned(),
    );
    r.push(
        "Confidence protocol: score decisions 0-100. >80 proceed autonomously; 50-80 proceed + document in .ralph/agent/decisions.md; <50 choose safe default + document".to_owned(),
    );
    r.push("Commit atomically - one logical change per commit, capture the why".to_owned());
    assert(texts(r@) == guardrail_texts());
    r
}

impl CoreConfig {
    /// The default configuration in a workspace.
    ///
    /// `root_override` is the value of `RALPH_WORKSPACE_ROOT` where it is set, and `current_dir`
    /// the current directory where it can be told.
    pub fn in_workspace(root_override: Option<String>, current_dir: Option<String>) -> (r: Self)
        ensures
            r.scratchpad.enabled,
            r.scratchpad.path@ == ".ralph/agent/scratchpad.md"@,
            r.specs_dir@ == ".ralph/specs/"@,
            texts(r.guardrails@) == guardrail_texts(),
            r.workspace_root@ == (match root_override {
                Some(root) => root@,
                None => match current_dir {
                    Some(dir) => dir@,
                    None => "."@,
                },
            }),
    {
        let root = match root_override {
            Some(root) => root,
            None => match current_dir {
                Some(dir) => dir,
                None => ".".to_owned(),
            },
        };
        CoreConfig {
            scratchpad: ScratchpadConfig::default(),
            specs_dir: default_specs_dir(),
            guardrails: default_guardrails(),
            workspace_root: root,
        }
    }

    /// Sets the workspace root for resolving relative paths.
    pub fn with_workspace_root(self, root: String) -> (r: Self)
        ensures
            r == (CoreConfig { workspace_root: root, ..self }),
    {
        CoreConfig {
            scratchpad: self.scratchpad,
            specs_dir: self.specs_dir,
            guardrails: self.guardrails,
            workspace_root: root,
        }
    }

    /// Resolves a relative path against the workspace root; an absolute path stays as it is.
    pub fn resolve_path(&self, relative: &str) -> (r: String)
        ensures
            r@ == path_below(self.workspace_root@, relative@),
    {
        if is_absolute(relative) {
            relative.to_owned()
        } else {
            join_path(self.workspace_root.as_str(), relative)
        }
    }
}

/// Adapter settings per backend.
#[derive(Debug)]
pub struct AdaptersConfig {
    pub claude: AdapterSettings,
    pub gemini: AdapterSettings,
    pub kiro: AdapterSettings,
    pub codex: AdapterSettings,
    pub amp: AdapterSettings,
}

/// Per-adapter settings.
#[derive(Debug)]
pub struct AdapterSettings {
    /// Inactivity timeout in seconds.
    pub timeout: u64,
    /// Whether auto-detection may pick the backend.
    pub enabled: bool,
    /// Tool permissions (accepted and ignored).
    pub tool_permissions: Option<Vec<String>>,
}

/// Inactivity timeout in seconds (5 minutes) unless a configuration says otherwise.
pub fn default_timeout() -> (r: u64)
    ensures
        r == 300,
{
    300
}

/// The value of flags that are set unless a configuration says otherwise.
pub fn default_true() -> (r: bool)
    ensures
        r,
{
    true
}

/// Whether settings are the default ones.
pub open spec fn is_default_adapter(a: AdapterSettings) -> bool {
    a.timeout == 300 && a.enabled && a.tool_permissions is None
}

impl Default for AdapterSettings {
    fn default() -> (r: Self)
        ensures
            is_default_adapter(r),
    {
        AdapterSettings {
            timeout: default_timeout(),
            enabled: default_true(),
            tool_permissions: None,
        }
    }
}

/// Whether the settings of all adapters are the default ones.
pub open spec fn are_default_adapters(adapters: AdaptersConfig) -> bool {
    &&& is_default_adapter(adapters.claude)
    &&& is_default_adapter(adapters.gemini)
    &&& is_default_adapter(adapters.kiro)
    &&& is_default_adapter(adapters.codex)
    &&& is_default_adapter(adapters.amp)
}

impl Default for AdaptersConfig {
    fn default() -> (r: Self)
        ensures
            are_default_adapters(r),
    {
        AdaptersConfig {
            claude: AdapterSettings::default(),
            gemini: AdapterSettings::default(),
            kiro: AdapterSettings::default(),
            codex: AdapterSettings::default(),
            amp: AdapterSettings::default(),
        }
    }
}

} // verus!
