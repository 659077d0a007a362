//! JSON values and objects of `serde_json`.
//!
//! A [`serde_json::Value`] is carried through as it is. What the library reads of an object is the
//! map from its keys to its values, which [`json_entries`] names.
use crate::text::{in_order, texts};
use serde_json::Value;
use vstd::prelude::*;

verus! {

/// `serde_json::Value`: one JSON value.
#[verifier::external_type_specification]
#[verifier::external_body]
pub struct ExJsonValue(serde_json::Value);

/// `serde_json::Map`: the members of a JSON object.
#[verifier::external_type_specification]
#[verifier::external_body]
#[verifier::reject_recursive_types(K)]
#[verifier::reject_recursive_types(V)]
pub struct ExJsonMap<K, V>(serde_json::Map<K, V>);

/// The members of a JSON object: its keys, each with its value.
pub uninterp spec fn json_entries(object: serde_json::Map<String, Value>) -> Map<Seq<char>, Value>;

/// The members of a JSON value that is an object, which is what `Value::as_object` tells.
pub uninterp spec fn json_object(value: Value) -> Option<Map<Seq<char>, Value>>;

/// The JSON value that `Value::Object` makes of some members.
pub uninterp spec fn json_of_entries(entries: Map<Seq<char>, Value>) -> Value;

/// The JSON value that `Value::String` makes of a text.
pub uninterp spec fn json_of_text(text: Seq<char>) -> Value;

/// The text of a JSON value that is a string, which is what `Value::as_str` tells.
pub uninterp spec fn json_text(value: Value) -> Option<Seq<char>>;

/// The JSON value that `Value::from` makes of an unsigned number.
pub uninterp spec fn json_of_u64(number: u64) -> Value;

/// What `serde_json::from_str` reads from a text: a value, or the message of its error.
pub uninterp spec fn json_read(text: Seq<char>) -> Result<Value, Seq<char>>;

/// What `serde_json::to_string` writes of a value: a text, or the message of its error.
pub uninterp spec fn json_written(value: Value) -> Result<Seq<char>, Seq<char>>;

/// The members of an empty object.
pub open spec fn no_entries() -> Map<Seq<char>, Value> {
    Map::empty()
}

/// What a text was read as, with the message of an error as a text.
pub open spec fn read_view(read: Result<Value, String>) -> Result<Value, Seq<char>> {
    match read {
        Ok(value) => Ok(value),
        Err(message) => Err(message@),
    }
}

/// Calls `serde_json::from_str`, which reads a whole text as one JSON value. The value, or the
/// message that its error displays, depends on the text alone.
#[verifier::external_body]
pub(crate) fn json_from_str(text: &str) -> (r: Result<Value, String>)
    ensures
        match r {
            Ok(value) => json_read(text@) == Ok::<Value, Seq<char>>(value),
            Err(message) => json_read(text@) == Err::<Value, Seq<char>>(message@),
        },
{
    serde_json::from_str::<serde_json::Value>(text).map_err(|error| error.to_string())
}

/// `Value::as_object` hands out the members of an object, and nothing for any other value.
pub assume_specification[ serde_json::Value::as_object ](value: &Value) -> (r: Option<
    &serde_json::Map<String, Value>,
>)
    ensures
        match r {
            Some(object) => json_object(*value) == Some(json_entries(*object)) && *value
                == json_of_entries(json_entries(*object)),
            None => json_object(*value) is None,
        },
;

/// `Value::as_str` hands out the text of a string, and nothing for any other value.
pub assume_specification[ serde_json::Value::as_str ](value: &Value) -> (r: Option<&str>)
    ensures
        match r {
            Some(text) => json_text(*value) == Some(text@) && *value == json_of_text(text@),
            None => json_text(*value) is None,
        },
;

/// `Map::new` makes an object without members.
pub assume_specification[ serde_json::Map::<String, Value>::new ]() -> (r: serde_json::Map<
    String,
    Value,
>)
    ensures
        json_entries(r) == no_entries(),
;

/// `Map::insert` sets the value of a key, and hands out the value that it had before.
pub assume_specification[ serde_json::Map::<String, Value>::insert ](
    object: &mut serde_json::Map<String, Value>,
    k: String,
    v: Value,
) -> (r: Option<Value>)
    ensures
        json_entries(*final(object)) == json_entries(*old(object)).insert(k@, v),
        r == json_entries(*old(object)).get(k@),
;

/// Calls `Map::get`, which finds the value of a key.
#[verifier::external_body]
pub(crate) fn json_get<'a>(object: &'a serde_json::Map<String, Value>, key: &str) -> (r: Option<
    &'a Value,
>)
    ensures
        match r {
            Some(value) => json_entries(*object).contains_key(key@) && json_entries(*object)[key@]
                == *value,
            None => !json_entries(*object).contains_key(key@),
        },
{
    object.get(key)
}

/// Calls `Map::keys`, which walks the keys: each of them once, in ascending order, as the map is
/// kept in a `BTreeMap`.
#[verifier::external_body]
pub(crate) fn json_keys(object: &serde_json::Map<String, Value>) -> (r: Vec<String>)
    ensures
        in_order(texts(r@)),
        texts(r@).no_duplicates(),
        texts(r@).to_set() == json_entries(*object).dom(),
{
    object.keys().cloned().collect()
}

/// Makes a `Value::Object` of an object.
#[verifier::external_body]
pub(crate) fn json_from_object(object: serde_json::Map<String, Value>) -> (r: Value)
    ensures
        r == json_of_entries(json_entries(object)),
        json_object(r) == Some(json_entries(object)),
{
    serde_json::Value::Object(object)
}

/// Makes a `Value::String` of a text.
#[verifier::external_body]
pub(crate) fn json_from_text(text: String) -> (r: Value)
    ensures
        r == json_of_text(text@),
        json_text(r) == Some(text@),
{
    serde_json::Value::String(text)
}

/// Calls `Value::from` on an unsigned number.
#[verifier::external_body]
pub(crate) fn json_from_u64(number: u64) -> (r: Value)
    ensures
        r == json_of_u64(number),
{
    serde_json::Value::from(number)
}

/// `Value::clone` makes an equal value.
pub assume_specification[ <serde_json::Value as Clone>::clone ](value: &Value) -> (r: Value)
    ensures
        r == *value,
;

/// Calls `Map::clone`, which makes an object of equal members.
#[verifier::external_body]
pub(crate) fn json_clone_object(object: &serde_json::Map<String, Value>) -> (r: serde_json::Map<
    String,
    Value,
>)
    ensures
        json_entries(r) == json_entries(*object),
{
    object.clone()
}

/// Calls `serde_json::to_string`, which writes a value on one line. The text, or the message that its
/// error displays, depends on the value alone.
#[verifier::external_body]
pub(crate) fn json_to_string(value: &Value) -> (r: Result<String, String>)
    ensures
        match r {
            Ok(text) => json_written(*value) == Ok::<Seq<char>, Seq<char>>(text@),
            Err(message) => json_written(*value) == Err::<Seq<char>, Seq<char>>(message@),
        },
{
    serde_json::to_string(value).map_err(|error| error.to_string())
}

} // verus!
