//! Scratchpad configuration.
use vstd::prelude::*;

verus! {

/// Scratchpad configuration with enabled flag and path.
#[derive(Debug)]
pub struct ScratchpadConfig {
    pub enabled: bool,
    pub path: String,
}

/// The plain values of a [`ScratchpadConfig`].
pub struct ScratchpadView {
    pub enabled: bool,
    pub path: Seq<char>,
}

impl View for ScratchpadConfig {
    type V = ScratchpadView;

    open spec fn view(&self) -> ScratchpadView {
        ScratchpadView { enabled: self.enabled, path: self.path@ }
    }
}

/// Scratchpads are enabled unless a configuration says otherwise.
pub fn scratchpad_enabled_default() -> (r: bool)
    ensures
        r,
{
    true
}

/// Path of the scratchpad unless a configuration says otherwise.
pub fn default_scratchpad_path() -> (r: String)
    ensures
        r@ == ".ralph/agent/scratchpad.md"@,
{
    ".ralph/agent/scratchpad.md".to_owned()
}

impl Default for ScratchpadConfig {
    fn default() -> (r: Self)
        ensures
            r.enabled,
            r.path@ == ".ralph/agent/scratchpad.md"@,
    {
        ScratchpadConfig { enabled: scratchpad_enabled_default(), path: default_scratchpad_path() }
    }
}

impl Clone for ScratchpadConfig {
    fn clone(&self) -> (r: Self)
        ensures
            r == *self,
    {
        ScratchpadConfig { enabled: self.enabled, path: self.path.clone() }
    }
}

/// A scratchpad as a configuration file gives it.
#[derive(Debug)]
pub enum ScratchpadInput {
    /// No value.
    Null,
    /// The path alone.
    Text(String),
    /// A table, with the fields that it holds.
    Table { enabled: Option<bool>, path: Option<String> },
}

/// What a configuration file says of a scratchpad: a path alone enables it, and a field that a
/// table does not hold has its default.
pub open spec fn scratchpad_of(input: ScratchpadInput) -> Option<ScratchpadView> {
    match input {
        ScratchpadInput::Null => None,
        ScratchpadInput::Text(path) => Some(ScratchpadView { enabled: true, path: path@ }),
        ScratchpadInput::Table { enabled, path } => Some(
            ScratchpadView {
                enabled: match enabled {
                    Some(enabled) => enabled,
                    None => true,
                },
                path: match path {
                    Some(path) => path@,
                    None => ".ralph/agent/scratchpad.md"@,
                },
            },
        ),
    }
}

/// Reads the optional scratchpad of a hat.
pub fn deserialize_optional_scratchpad_config(input: ScratchpadInput) -> (r: Option<
    ScratchpadConfig,
>)
    ensures
        match r {
            Some(scratchpad) => scratchpad_of(input) == Some(scratchpad@),
            None => scratchpad_of(input) is None,
        },
{
    match input {
        ScratchpadInput::Null => None,
        ScratchpadInput::Text(path) => Some(ScratchpadConfig { enabled: true, path }),
        ScratchpadInput::Table { enabled, path } => Some(
            ScratchpadConfig {
                enabled: match enabled {
                    Some(enabled) => enabled,
                    None => scratchpad_enabled_default(),
                },
                path: match path {
                    Some(path) => path,
                    None => default_scratchpad_path(),
                },
            },
        ),
    }
}

/// Reads the scratchpad of the core settings, for which a value is required.
pub fn deserialize_scratchpad_config(input: ScratchpadInput) -> (r: Result<
    ScratchpadConfig,
    String,
>)
    ensures
        match r {
            Ok(scratchpad) => scratchpad_of(input) == Some(scratchpad@),
            Err(message) => input is Null && message@
                == "invalid type: unit value, expected a string or a scratchpad config object"@,
        },
{
    match deserialize_optional_scratchpad_config(input) {
        Some(scratchpad) => Ok(scratchpad),
        None => Err(
            "invalid type: unit value, expected a string or a scratchpad config object".to_owned(),
        ),
    }
}

impl ScratchpadConfig {
    /// Resolves the effective scratchpad of a hat: its own override where it has one, else the
    /// global configuration.
    pub fn resolve(hat_config: Option<&ScratchpadConfig>, global: &ScratchpadConfig) -> (r:
        ScratchpadConfig)
        ensures
            r == (match hat_config {
                Some(own) => *own,
                None => *global,
            }),
    {
        match hat_config {
            Some(own) => own.clone(),
            None => global.clone(),
        }
    }
}

} // verus!
