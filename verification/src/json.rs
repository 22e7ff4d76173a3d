//! Trusted boundary to the JSON codec.
//!
//! The store keeps structured payloads (a student's needs list, a draft's
//! slot values, a setting's value) as JSON text in a single column. The
//! codec itself is outside code; its results are named here and every use
//! of the names goes through the wrappers below.

use vstd::prelude::*;

verus! {

/// Whether a text is well-formed JSON, that is, whether parsing it as a
/// JSON document succeeds.
pub uninterp spec fn wf_json(s: Seq<char>) -> bool;

/// The JSON encoding of a list of strings.
pub uninterp spec fn json_of_strings(v: Seq<Seq<char>>) -> Seq<char>;

/// What parsing a text as a JSON list of strings returns: the list, or
/// nothing when the text is not such a document.
pub uninterp spec fn strings_of_json(s: Seq<char>) -> Option<Seq<Seq<char>>>;

/// Relies on serde_json::from_str::<Value>: parsing succeeds exactly on
/// well-formed JSON text, and the outcome depends on the text alone.
#[verifier::external_body]
pub(crate) fn json_text_valid(s: &str) -> (r: bool)
    ensures
        r == wf_json(s@),
{
    serde_json::from_str::<serde_json::Value>(s).is_ok()
}

/// Relies on serde_json::to_string: encoding a list of strings never fails
/// and depends on the list alone, and serde_json::from_str parses the
/// encoding back to the same list.
#[verifier::external_body]
pub(crate) fn string_list_to_json(v: &Vec<String>) -> (r: String)
    ensures
        r@ == json_of_strings(v.deep_view()),
        strings_of_json(r@) == Some(v.deep_view()),
{
    serde_json::to_string(v).unwrap_or_default()
}

/// Relies on serde_json::from_str::<Vec<String>>: the outcome depends on
/// the text alone.
#[verifier::external_body]
pub(crate) fn string_list_from_json(s: &str) -> (r: Option<Vec<String>>)
    ensures
        r.deep_view() == strings_of_json(s@),
{
    serde_json::from_str::<Vec<String>>(s).ok()
}

} // verus!
