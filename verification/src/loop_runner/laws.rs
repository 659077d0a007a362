//! What holds of loops from their start to their end.
use crate::json::json_of_entries;
use crate::loop_runner::metadata::{
    namespace_fault, namespace_of, with_metadata, Entries,
};
use crate::loop_runner::setup::loop_id_of;
use crate::text::trimmed;
use vstd::prelude::*;

verus! {

/// Taking in metadata of a hook leaves all other members as they are, and the metadata of all other
/// hooks.
pub proof fn law_metadata_of_other_hooks_stays(
    accumulated: Entries,
    hook: Seq<char>,
    metadata: Entries,
    other: Seq<char>,
    member: Seq<char>,
)
    requires
        namespace_fault(accumulated, hook) is None,
        other != hook,
        member != "hook_metadata"@,
    ensures
        with_metadata(accumulated, hook, metadata).contains_key(member) == accumulated.contains_key(
            member,
        ),
        accumulated.contains_key(member) ==> with_metadata(accumulated, hook, metadata)[member]
            == accumulated[member],
        with_metadata(accumulated, hook, metadata)["hook_metadata"@] == json_of_entries(
            namespace_of(accumulated)->0.insert(hook, json_of_entries(metadata)),
        ),
        namespace_of(accumulated)->0.insert(hook, json_of_entries(metadata)).contains_key(other)
            == namespace_of(accumulated)->0.contains_key(other),
        namespace_of(accumulated)->0.contains_key(other) ==> namespace_of(
            accumulated,
        )->0.insert(hook, json_of_entries(metadata))[other] == namespace_of(accumulated)->0[other],
{
}

/// A loop that is continued keeps its identifier: what the marker file holds of the loop before is
/// the identifier of the continued loop, unless another one is given.
pub proof fn law_continued_loops_keep_their_id(
    context: Option<Seq<char>>,
    resume: bool,
    given: Option<Seq<char>>,
    marker: Option<Seq<char>>,
    timestamp: Seq<char>,
    later: Seq<char>,
)
    requires
        ({
            let id = loop_id_of(context, resume, given, marker, timestamp);
            trimmed(id) == id && id.len() > 0
        }),
    ensures
        ({
            let id = loop_id_of(context, resume, given, marker, timestamp);
            loop_id_of(None, true, None, Some(id), later) == id
        }),
{
}

/// A fresh primary loop has an identifier of its own time, whatever is given or written down.
pub proof fn law_fresh_loops_have_new_ids(
    given: Option<Seq<char>>,
    marker: Option<Seq<char>>,
    timestamp: Seq<char>,
)
    ensures
        loop_id_of(None, false, given, marker, timestamp) == "primary-"@ + timestamp,
{
}

} // verus!
