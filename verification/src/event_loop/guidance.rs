//! What is made of questions to a human.
use crate::json::{
    json_clone_object, json_entries, json_from_object, json_from_str, json_from_text, json_get,
    json_object, json_of_entries, json_of_text, json_read, no_entries, read_view,
};
use serde_json::Value;
use vstd::prelude::*;

verus! {

/// The context of a question, by what its payload was read as: the members of an object, else the
/// value as the question, else the payload as the question. An object without a question gets the
/// payload as its question.
pub open spec fn context_of(payload: Seq<char>, parsed: Result<Value, Seq<char>>) -> Map<
    Seq<char>,
    Value,
> {
    match parsed {
        Ok(value) => match json_object(value) {
            Some(members) => if members.contains_key("question"@) {
                members
            } else {
                members.insert("question"@, json_of_text(payload))
            },
            None => no_entries().insert("question"@, value),
        },
        Err(_) => no_entries().insert("question"@, json_of_text(payload)),
    }
}

/// Makes the context of a question from its payload and what the payload was read as.
pub fn interact_context(payload: &str, parsed: Result<Value, String>) -> (r: serde_json::Map<
    String,
    Value,
>)
    ensures
        json_entries(r) == context_of(payload@, read_view(parsed)),
{
    match parsed {
        Ok(value) => match value.as_object() {
            Some(members) => {
                let mut context = json_clone_object(members);
                if json_get(&context, "question").is_none() {
                    context.insert("question".to_owned(), json_from_text(payload.to_owned()));
                }
                context
            },
            None => {
                let mut context = serde_json::Map::new();
                context.insert("question".to_owned(), value);
                context
            },
        },
        Err(_) => {
            let mut context = serde_json::Map::new();
            context.insert("question".to_owned(), json_from_text(payload.to_owned()));
            context
        },
    }
}

/// Reads the context of a question from its payload.
pub fn question_context(payload: &str) -> (r: serde_json::Map<String, Value>)
    ensures
        json_entries(r) == context_of(payload@, json_read(payload@)),
{
    interact_context(payload, json_from_str(payload))
}

/// Reads the context of a question from its payload as a JSON value.
pub fn parse_human_interact_context(payload: &str) -> (r: Value)
    ensures
        r == json_of_entries(context_of(payload@, json_read(payload@))),
        json_object(r) == Some(context_of(payload@, json_read(payload@))),
{
    json_from_object(question_context(payload))
}

/// The scratchpad entry of one guidance message.
pub open spec fn guidance_entry_text(timestamp: Seq<char>, message: Seq<char>) -> Seq<char> {
    "\n### HUMAN GUIDANCE ("@ + timestamp + ")\n\n"@ + message + "\n"@
}

/// Writes the scratchpad entry of one guidance message.
pub fn guidance_entry(timestamp: &str, message: &str) -> (r: String)
    ensures
        r@ == guidance_entry_text(timestamp@, message@),
{
    let mut r = "\n### HUMAN GUIDANCE (".to_owned();
    r.append(timestamp);
    r.append(")\n\n");
    r.append(message);
    r.append("\n");
    r
}

} // verus!
