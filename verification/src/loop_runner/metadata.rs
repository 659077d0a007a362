//! Metadata that hooks hand back on their standard output.
use crate::config::hooks::HookMutationConfig;
use crate::debug::{debug_list, debug_texts};
use crate::json::{
    json_clone_object, json_entries, json_from_object, json_from_str, json_get, json_keys,
    json_object, json_of_entries, json_read, no_entries, read_view,
};
use crate::text::{in_order, lemma_ordered, str_eq, texts, trim, trimmed};
use serde_json::Value;
use vstd::prelude::*;

verus! {

/// The members of a JSON object.
pub type Entries = Map<Seq<char>, Value>;

/// What the output of a hook says about metadata.
#[derive(Debug)]
pub enum HookMutationParseOutcome {
    /// The hook does not hand back metadata.
    Disabled,
    /// Metadata below the name of the hook.
    Parsed { namespaced_metadata: serde_json::Map<String, Value> },
    /// The output cannot be used.
    Invalid(HookMutationParseError),
}

/// Why metadata cannot be used.
#[derive(Debug)]
pub enum HookMutationParseError {
    InvalidJson { message: String },
    InvalidSchema { message: String },
}

/// The meaning of a [`HookMutationParseOutcome`].
pub enum MutationReading {
    Disabled,
    Parsed(Entries),
    InvalidJson(Seq<char>),
    InvalidSchema(Seq<char>),
}

impl View for HookMutationParseError {
    type V = MutationReading;

    open spec fn view(&self) -> MutationReading {
        match *self {
            HookMutationParseError::InvalidJson { message } => MutationReading::InvalidJson(
                message@,
            ),
            HookMutationParseError::InvalidSchema { message } => MutationReading::InvalidSchema(
                message@,
            ),
        }
    }
}

impl View for HookMutationParseOutcome {
    type V = MutationReading;

    open spec fn view(&self) -> MutationReading {
        match *self {
            HookMutationParseOutcome::Disabled => MutationReading::Disabled,
            HookMutationParseOutcome::Parsed { namespaced_metadata } => MutationReading::Parsed(
                json_entries(namespaced_metadata),
            ),
            HookMutationParseOutcome::Invalid(error) => error@,
        }
    }
}

/// The message of an unusable output.
pub open spec fn message_of(reading: MutationReading) -> Option<Seq<char>> {
    match reading {
        MutationReading::InvalidJson(message) => Some(message),
        MutationReading::InvalidSchema(message) => Some(message),
        _ => None,
    }
}

/// The message of an error.
pub fn format_hook_mutation_parse_error(error: &HookMutationParseError) -> (r: String)
    ensures
        message_of(error@) == Some(r@),
{
    match error {
        HookMutationParseError::InvalidJson { message } => message.clone(),
        HookMutationParseError::InvalidSchema { message } => message.clone(),
    }
}

/// The metadata of all hooks among the accumulated metadata, where it can take more of them.
pub open spec fn namespace_of(accumulated: Entries) -> Option<Entries> {
    if accumulated.contains_key("hook_metadata"@) {
        json_object(accumulated["hook_metadata"@])
    } else {
        Some(no_entries())
    }
}

/// What speaks against taking metadata of a hook into the accumulated metadata.
pub open spec fn namespace_fault(accumulated: Entries, hook: Seq<char>) -> Option<Seq<char>> {
    if trimmed(hook).len() == 0 {
        Some("hook metadata namespace requires non-empty hook name"@)
    } else if namespace_of(accumulated) is None {
        Some("metadata namespace 'hook_metadata' must be a JSON object"@)
    } else {
        None
    }
}

/// Accumulated metadata with the metadata of a hook in it.
pub open spec fn with_metadata(accumulated: Entries, hook: Seq<char>, metadata: Entries) -> Entries {
    accumulated.insert(
        "hook_metadata"@,
        json_of_entries(namespace_of(accumulated)->0.insert(hook, json_of_entries(metadata))),
    )
}

fn schema_error(message: &str) -> (r: HookMutationParseError)
    ensures
        r@ == MutationReading::InvalidSchema(message@),
{
    HookMutationParseError::InvalidSchema { message: message.to_owned() }
}

/// Takes metadata of a hook into the accumulated metadata, in place of earlier metadata of that
/// hook; the metadata of other hooks and all other members stay.
pub fn merge_hook_metadata_namespace(
    accumulated_metadata: &mut serde_json::Map<String, Value>,
    hook_name: &str,
    metadata: serde_json::Map<String, Value>,
) -> (r: Result<(), HookMutationParseError>)
    ensures
        match r {
            Ok(_) => {
                let before = json_entries(*old(accumulated_metadata));
                let after = json_entries(*final(accumulated_metadata));
                &&& namespace_fault(before, hook_name@) is None
                &&& after == with_metadata(before, hook_name@, json_entries(metadata))
                &&& namespace_of(after) == Some(
                    namespace_of(before)->0.insert(
                        hook_name@,
                        json_of_entries(json_entries(metadata)),
                    ),
                )
                &&& json_object(namespace_of(after)->0[hook_name@]) == Some(json_entries(metadata))
            },
            Err(error) => {
                let fault = namespace_fault(
                    json_entries(*old(accumulated_metadata)),
                    hook_name@,
                );
                &&& fault is Some
                &&& error@ == MutationReading::InvalidSchema(fault->0)
                &&& *final(accumulated_metadata) == *old(accumulated_metadata)
            },
        },
{
    if trim(hook_name).unicode_len() == 0 {
        return Err(schema_error("hook metadata namespace requires non-empty hook name"));
    }
    let mut namespace = match json_get(accumulated_metadata, "hook_metadata") {
        Some(value) => match value.as_object() {
            Some(object) => json_clone_object(object),
            None => {
                return Err(
                    schema_error("metadata namespace 'hook_metadata' must be a JSON object"),
                );
            },
        },
        None => serde_json::Map::new(),
    };
    namespace.insert(hook_name.to_owned(), json_from_object(metadata));
    accumulated_metadata.insert("hook_metadata".to_owned(), json_from_object(namespace));
    Ok(())
}

/// Keys in the order in which an object hands them out.
pub open spec fn walks(keys: Seq<Seq<char>>, entries: Entries) -> bool {
    in_order(keys) && keys.no_duplicates() && keys.to_set() == entries.dom()
}

/// The keys of an object, in ascending order.
pub open spec fn keys_of(entries: Entries) -> Seq<Seq<char>> {
    choose|keys: Seq<Seq<char>>| walks(keys, entries)
}

/// An object hands out its keys in one order only.
pub proof fn lemma_keys_of(keys: Seq<Seq<char>>, entries: Entries)
    requires
        walks(keys, entries),
    ensures
        keys_of(entries) == keys,
{
    broadcast use vstd::seq_lib::group_to_multiset_ensures;

    let chosen = keys_of(entries);
    assert(walks(chosen, entries));
    keys.lemma_multiset_has_no_duplicates();
    chosen.lemma_multiset_has_no_duplicates();
    assert(keys.to_multiset() =~= chosen.to_multiset()) by {
        assert forall|k: Seq<char>|
            #[trigger] keys.to_multiset().count(k) == chosen.to_multiset().count(k) by {
            assert(keys.contains(k) == keys.to_set().contains(k));
            assert(chosen.contains(k) == chosen.to_set().contains(k));
        }
    }
    lemma_ordered(keys, chosen);
    lemma_ordered(keys, keys);
}

/// The accumulated metadata after the metadata of some hooks was taken in, one hook after the
/// other, up to the first that cannot be taken, with what speaks against that one.
pub open spec fn merged_in_turn(
    accumulated: Entries,
    hooks: Seq<Seq<char>>,
    namespace: Entries,
) -> (Entries, Option<Seq<char>>)
    decreases hooks.len(),
{
    if hooks.len() == 0 {
        (accumulated, None)
    } else {
        match json_object(namespace[hooks[0]]) {
            None => (
                accumulated,
                Some("parsed metadata entry for hook '"@ + hooks[0] + "' must be a JSON object"@),
            ),
            Some(metadata) => match namespace_fault(accumulated, hooks[0]) {
                Some(fault) => (accumulated, Some(fault)),
                None => merged_in_turn(
                    with_metadata(accumulated, hooks[0], metadata),
                    hooks.drop_first(),
                    namespace,
                ),
            },
        }
    }
}

/// The accumulated metadata after a parsed output of a hook was taken in, with what speaks against
/// that output.
pub open spec fn merged_metadata(accumulated: Entries, parsed: Entries) -> (
    Entries,
    Option<Seq<char>>,
) {
    if parsed.contains_key("hook_metadata"@) && json_object(parsed["hook_metadata"@]) is Some {
        let namespace = json_object(parsed["hook_metadata"@])->0;
        merged_in_turn(accumulated, keys_of(namespace), namespace)
    } else {
        (
            accumulated,
            Some("parsed mutation metadata must contain object key 'hook_metadata'"@),
        )
    }
}

/// Takes a parsed output of a hook into the accumulated metadata.
pub fn merge_namespaced_hook_metadata(
    accumulated_metadata: &mut serde_json::Map<String, Value>,
    namespaced_metadata: &serde_json::Map<String, Value>,
) -> (r: Result<(), HookMutationParseError>)
    ensures
        ({
            let merged = merged_metadata(
                json_entries(*old(accumulated_metadata)),
                json_entries(*namespaced_metadata),
            );
            &&& json_entries(*final(accumulated_metadata)) == merged.0
            &&& match r {
                Ok(_) => merged.1 is None,
                Err(error) => merged.1 is Some && error@ == MutationReading::InvalidSchema(
                    merged.1->0,
                ),
            }
        }),
{
    let namespace = match json_get(namespaced_metadata, "hook_metadata") {
        Some(value) => match value.as_object() {
            Some(object) => object,
            None => {
                return Err(
                    schema_error(
                        "parsed mutation metadata must contain object key 'hook_metadata'",
                    ),
                );
            },
        },
        None => {
            return Err(
                schema_error("parsed mutation metadata must contain object key 'hook_metadata'"),
            );
        },
    };
    let keys = json_keys(namespace);
    let ghost all = texts(keys@);
    let ghost members = json_entries(*namespace);
    let ghost start = json_entries(*accumulated_metadata);
    proof {
        lemma_keys_of(all, members);
        assert(all.skip(0) == all);
    }
    let mut i: usize = 0;
    while i < keys.len()
        invariant
            i <= keys.len(),
            all == texts(keys@),
            members == json_entries(*namespace),
            walks(all, members),
            merged_in_turn(start, all, members) == merged_in_turn(
                json_entries(*accumulated_metadata),
                all.skip(i as int),
                members,
            ),
            merged_metadata(
                json_entries(*old(accumulated_metadata)),
                json_entries(*namespaced_metadata),
            ) == merged_in_turn(start, all, members),
        decreases keys.len() - i,
    {
        proof {
            assert(all.skip(i as int)[0] == all[i as int]);
            assert(all.skip(i as int).drop_first() == all.skip(i + 1));
            assert(all.to_set().contains(all[i as int]));
        }
        match json_get(namespace, keys[i].as_str()) {
            Some(value) => match value.as_object() {
                Some(object) => {
                    let metadata = json_clone_object(object);
                    match merge_hook_metadata_namespace(
                        accumulated_metadata,
                        keys[i].as_str(),
                        metadata,
                    ) {
                        Ok(_) => {},
                        Err(error) => {
                            return Err(error);
                        },
                    }
                },
                None => {
                    let mut message = "parsed metadata entry for hook '".to_owned();
                    message.append(keys[i].as_str());
                    message.append("' must be a JSON object");
                    return Err(HookMutationParseError::InvalidSchema { message });
                },
            },
            None => {
                assert(false);
            },
        }
        i = i + 1;
    }
    Ok(())
}

/// What a text that was read as JSON says about metadata of a hook.
pub open spec fn mutation_read(hook: Seq<char>, read: Result<Value, Seq<char>>) -> MutationReading {
    match read {
        Err(message) => MutationReading::InvalidJson(
            "mutation stdout is not valid JSON: "@ + message,
        ),
        Ok(value) => match json_object(value) {
            None => MutationReading::InvalidSchema("mutation payload must be a JSON object"@),
            Some(payload) => if payload.dom() != set!["metadata"@] {
                MutationReading::InvalidSchema(
                    "mutation payload supports only '{\"metadata\": {...}}'; found keys: "@
                        + debug_list(keys_of(payload)),
                )
            } else if json_object(payload["metadata"@]) is None {
                MutationReading::InvalidSchema(
                    "mutation payload key 'metadata' must contain a JSON object"@,
                )
            } else if trimmed(hook).len() == 0 {
                MutationReading::InvalidSchema(
                    "hook metadata namespace requires non-empty hook name"@,
                )
            } else {
                MutationReading::Parsed(
                    with_metadata(no_entries(), hook, json_object(payload["metadata"@])->0),
                )
            },
        },
    }
}

/// What the output of a hook says about metadata.
pub open spec fn mutation_output(
    enabled: bool,
    hook: Seq<char>,
    stdout: Seq<char>,
) -> MutationReading {
    if enabled {
        mutation_read(hook, json_read(trimmed(stdout)))
    } else {
        MutationReading::Disabled
    }
}

/// Takes the metadata of a hook out of a text that was read as JSON.
pub fn read_mutation(hook_name: &str, read: Result<Value, String>) -> (r: HookMutationParseOutcome)
    ensures
        r@ == mutation_read(hook_name@, read_view(read)),
{
    let parsed = match read {
        Ok(parsed) => parsed,
        Err(error) => {
            let mut message = "mutation stdout is not valid JSON: ".to_owned();
            message.append(error.as_str());
            return HookMutationParseOutcome::Invalid(
                HookMutationParseError::InvalidJson { message },
            );
        },
    };
    let payload = match parsed.as_object() {
        Some(payload) => payload,
        None => {
            return HookMutationParseOutcome::Invalid(
                schema_error("mutation payload must be a JSON object"),
            );
        },
    };
    let keys = json_keys(payload);
    let ghost members = json_entries(*payload);
    proof {
        lemma_keys_of(texts(keys@), members);
        lemma_only_key(texts(keys@), members, "metadata"@);
    }
    if keys.len() != 1 || !str_eq(keys[0].as_str(), "metadata") {
        let mut message =
            "mutation payload supports only '{\"metadata\": {...}}'; found keys: ".to_owned();
        message.append(debug_texts(&keys).as_str());
        return HookMutationParseOutcome::Invalid(HookMutationParseError::InvalidSchema { message });
    }
    assert(members.dom().contains("metadata"@));
    let metadata = match json_get(payload, "metadata") {
        Some(value) => match value.as_object() {
            Some(metadata) => json_clone_object(metadata),
            None => {
                return HookMutationParseOutcome::Invalid(
                    schema_error("mutation payload key 'metadata' must contain a JSON object"),
                );
            },
        },
        None => {
            return HookMutationParseOutcome::Invalid(
                schema_error("mutation payload key 'metadata' must contain a JSON object"),
            );
        },
    };
    let mut namespaced_metadata = serde_json::Map::new();
    match merge_hook_metadata_namespace(&mut namespaced_metadata, hook_name, metadata) {
        Ok(_) => HookMutationParseOutcome::Parsed { namespaced_metadata },
        Err(error) => HookMutationParseOutcome::Invalid(error),
    }
}

/// An object has one member only where its keys are that one.
proof fn lemma_only_key(keys: Seq<Seq<char>>, entries: Entries, key: Seq<char>)
    requires
        walks(keys, entries),
    ensures
        entries.dom() == set![key] <==> keys.len() == 1 && keys[0] == key,
{
    if keys.len() == 1 && keys[0] == key {
        assert(keys.to_set() =~= set![key]);
    }
    if entries.dom() == set![key] {
        assert(keys.to_set().contains(key));
        assert(keys.to_set().contains(keys[0]));
        if keys.len() > 1 {
            assert(keys.to_set().contains(keys[1]));
        }
    }
}

/// Reads the metadata of a hook from its output.
pub fn parse_hook_mutation_stdout(
    mutate: &HookMutationConfig,
    hook_name: &str,
    stdout: &str,
) -> (r: HookMutationParseOutcome)
    ensures
        r@ == mutation_output(mutate.enabled, hook_name@, stdout@),
{
    if !mutate.enabled {
        return HookMutationParseOutcome::Disabled;
    }
    read_mutation(hook_name, json_from_str(trim(stdout)))
}

} // verus!
