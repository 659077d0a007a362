//! Checks on the keys of a YAML document before it is read as a configuration.
use crate::config::errors::{ConfigError, ConfigFault};
use crate::config::hooks::{phase_key, HookPhaseEvent};
use crate::config::ralph_config::fault_of;
use crate::text::{first_of, lemma_first_of};
use crate::yaml::{
    opt_texts, yaml_entries, yaml_from_str, yaml_get, yaml_key_texts, yaml_keys, yaml_mapping,
    yaml_read,
};
use serde_yaml::Value;
use vstd::prelude::*;

verus! {

/// Whether a text is the key of a phase-event.
pub open spec fn is_phase_key(text: Seq<char>) -> bool {
    exists|phase: HookPhaseEvent| phase_key(phase) == text
}

/// What is wrong with one key under `hooks.events`: it is a text that names no phase-event.
pub open spec fn phase_key_fault(key: Option<Seq<char>>) -> Option<ConfigFault> {
    match key {
        Some(text) => if is_phase_key(text) {
            None
        } else {
            Some(ConfigFault::InvalidHookPhaseEvent { phase_event: text })
        },
        None => None,
    }
}

/// What is wrong with keys under `hooks.events`: the first fault of one of them.
pub open spec fn phase_keys_fault(keys: Seq<Option<Seq<char>>>) -> Option<ConfigFault> {
    first_of(Seq::new(keys.len(), |i: int| phase_key_fault(keys[i])))
}

/// The value that a mapping holds under a string, where the value is a mapping and holds one.
pub open spec fn member(value: Value, key: Seq<char>) -> Option<Value> {
    match yaml_mapping(value) {
        Some(mapping) => yaml_entries(mapping).get(key),
        None => None,
    }
}

/// The keys under `hooks.events` of a document, where it has such a mapping.
pub open spec fn event_keys(document: Value) -> Seq<Option<Seq<char>>> {
    match member(document, "hooks"@) {
        Some(hooks) => match member(hooks, "events"@) {
            Some(events) => match yaml_mapping(events) {
                Some(mapping) => yaml_key_texts(mapping),
                None => Seq::empty(),
            },
            None => Seq::empty(),
        },
        None => Seq::empty(),
    }
}

/// What is wrong with the keys of a document.
pub open spec fn document_fault(document: Value) -> Option<ConfigFault> {
    if member(document, "project"@) is Some {
        Some(ConfigFault::DeprecatedProjectKey)
    } else {
        phase_keys_fault(event_keys(document))
    }
}

/// Checks keys under `hooks.events`: every one that is a text names a phase-event.
pub fn check_phase_keys(keys: &Vec<Option<String>>) -> (r: Result<(), ConfigError>)
    ensures
        fault_of(r) == phase_keys_fault(opt_texts(keys@)),
{
    let ghost texts = opt_texts(keys@);
    let ghost faults = Seq::new(texts.len(), |i: int| phase_key_fault(texts[i]));
    let mut i: usize = 0;
    assert(faults.skip(0) == faults);
    while i < keys.len()
        invariant
            i <= keys.len(),
            texts == opt_texts(keys@),
            faults == Seq::new(texts.len(), |i: int| phase_key_fault(texts[i])),
            first_of(faults) == first_of(faults.skip(i as int)),
        decreases keys.len() - i,
    {
        proof {
            lemma_first_of(faults, i as int);
        }
        if let Some(text) = &keys[i] {
            if HookPhaseEvent::parse(text.as_str()).is_none() {
                return Err(ConfigError::InvalidHookPhaseEvent { phase_event: text.clone() });
            }
        }
        i = i + 1;
    }
    Ok(())
}

fn yaml_member<'a>(value: &'a Value, key: &str) -> (r: Option<&'a Value>)
    ensures
        match r {
            Some(found) => member(*value, key@) == Some(*found),
            None => member(*value, key@) is None,
        },
{
    match value.as_mapping() {
        Some(mapping) => yaml_get(mapping, key),
        None => None,
    }
}

/// Checks the phase-event keys of a document, so that an unknown one is told by its name.
pub fn validate_hooks_phase_event_keys(value: &Value) -> (r: Result<(), ConfigError>)
    ensures
        fault_of(r) == phase_keys_fault(event_keys(*value)),
{
    assert(phase_keys_fault(Seq::empty()) is None);
    match yaml_member(value, "hooks") {
        Some(hooks) => match yaml_member(hooks, "events") {
            Some(events) => match events.as_mapping() {
                Some(mapping) => check_phase_keys(&yaml_keys(mapping)),
                None => Ok(()),
            },
            None => Ok(()),
        },
        None => Ok(()),
    }
}

/// Checks the keys of a document: the deprecated `project` is refused, and so are unknown
/// phase-events.
pub fn validate_document(value: &Value) -> (r: Result<(), ConfigError>)
    ensures
        fault_of(r) == document_fault(*value),
{
    if yaml_member(value, "project").is_some() {
        return Err(ConfigError::DeprecatedProjectKey);
    }
    validate_hooks_phase_event_keys(value)
}

/// Reads a YAML text and checks the keys of its document.
pub fn read_document(content: &str) -> (r: Result<Value, ConfigError>)
    ensures
        match yaml_read(content@) {
            Ok(value) => match document_fault(value) {
                Some(fault) => r is Err && r->Err_0@ == fault,
                None => r == Ok::<Value, ConfigError>(value),
            },
            Err(message) => r is Err && r->Err_0@ == (ConfigFault::Yaml { message }),
        },
{
    match yaml_from_str(content) {
        Ok(value) => match validate_document(&value) {
            Ok(_) => Ok(value),
            Err(error) => Err(error),
        },
        Err(message) => Err(ConfigError::Yaml { message }),
    }
}

} // verus!
