//! Debug texts of `std`.
use crate::text::texts;
use vstd::prelude::*;

verus! {

/// The text in which `Debug` of `std` shows a list of texts.
pub uninterp spec fn debug_list(items: Seq<Seq<char>>) -> Seq<char>;

/// Calls `format!` with `{:?}` on a list of strings. The text depends on the strings alone.
#[verifier::external_body]
pub(crate) fn debug_texts(items: &Vec<String>) -> (r: String)
    ensures
        r@ == debug_list(texts(items@)),
{
    format!("{:?}", items)
}

} // verus!
