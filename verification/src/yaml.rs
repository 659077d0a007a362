//! YAML values and mappings of `serde_yaml`.
use serde_yaml::Value;
use vstd::prelude::*;

verus! {

/// `serde_yaml::Value`: one YAML value.
#[verifier::external_type_specification]
#[verifier::external_body]
pub struct ExYamlValue(serde_yaml::Value);

/// `serde_yaml::Mapping`: the entries of a YAML mapping.
#[verifier::external_type_specification]
#[verifier::external_body]
pub struct ExYamlMapping(serde_yaml::Mapping);

/// What `serde_yaml::from_str` reads from a text: a value, or the message of its error.
pub uninterp spec fn yaml_read(text: Seq<char>) -> Result<Value, Seq<char>>;

/// The mapping in a YAML value, which is what `Value::as_mapping` tells.
pub uninterp spec fn yaml_mapping(value: Value) -> Option<serde_yaml::Mapping>;

/// The values that a mapping holds under plain strings.
pub uninterp spec fn yaml_entries(mapping: serde_yaml::Mapping) -> Map<Seq<char>, Value>;

/// The keys of a mapping in their order, each as the text that `Value::as_str` gives of it.
pub uninterp spec fn yaml_key_texts(mapping: serde_yaml::Mapping) -> Seq<Option<Seq<char>>>;

/// The characters of optional strings.
pub open spec fn opt_texts(v: Seq<Option<String>>) -> Seq<Option<Seq<char>>> {
    Seq::new(v.len(), |i: int| crate::text::opt_text(v[i]))
}

/// Calls `serde_yaml::from_str`, which reads a text as one YAML document. The value, or the
/// message that its error displays, depends on the text alone.
#[verifier::external_body]
pub(crate) fn yaml_from_str(text: &str) -> (r: Result<Value, String>)
    ensures
        match r {
            Ok(value) => yaml_read(text@) == Ok::<Value, Seq<char>>(value),
            Err(message) => yaml_read(text@) == Err::<Value, Seq<char>>(message@),
        },
{
    serde_yaml::from_str::<serde_yaml::Value>(text).map_err(|error| error.to_string())
}

/// `Value::as_mapping` hands out the mapping in a value, and nothing for any other value.
pub assume_specification[ serde_yaml::Value::as_mapping ](value: &Value) -> (r: Option<
    &serde_yaml::Mapping,
>)
    ensures
        match r {
            Some(mapping) => yaml_mapping(*value) == Some(*mapping),
            None => yaml_mapping(*value) is None,
        },
;

/// Calls `Mapping::get` with a string value as the key.
#[verifier::external_body]
pub(crate) fn yaml_get<'a>(mapping: &'a serde_yaml::Mapping, key: &str) -> (r: Option<&'a Value>)
    ensures
        match r {
            Some(value) => yaml_entries(*mapping).contains_key(key@) && yaml_entries(*mapping)[key@]
                == *value,
            None => !yaml_entries(*mapping).contains_key(key@),
        },
{
    mapping.get(serde_yaml::Value::String(key.to_string()))
}

/// Calls `Mapping::keys`, which walks the keys in their order, and takes the text of each that
/// has one by `Value::as_str`.
#[verifier::external_body]
pub(crate) fn yaml_keys(mapping: &serde_yaml::Mapping) -> (r: Vec<Option<String>>)
    ensures
        opt_texts(r@) == yaml_key_texts(*mapping),
{
    mapping.keys().map(|key| key.as_str().map(str::to_string)).collect()
}

} // verus!
