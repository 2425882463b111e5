//! The JSON documents the instrument sends, read through serde_json.
use vstd::prelude::*;

verus! {

#[verifier::external_type_specification]
#[verifier::external_body]
pub struct ExJsonValue(serde_json::Value);

#[verifier::external_type_specification]
#[verifier::external_body]
pub struct ExJsonError(serde_json::Error);

/// The leaves (as [`json_leaves`] gives them) of the document serde_json
/// reads from `b`; `None` when `b` is not one JSON document. It depends on the
/// bytes alone.
pub uninterp spec fn json_doc_leaves(b: Seq<u8>) -> Option<Map<Seq<char>, Seq<char>>>;

/// The string and number leaves of a document, keyed by JSON pointer
/// (`/CHANNEL/0/NAME`): a string as its characters, a number as serde_json
/// writes it.
pub uninterp spec fn json_leaves(v: serde_json::Value) -> Map<Seq<char>, Seq<char>>;

/// Relies on `serde_json::from_slice` into a `Value`: it fails exactly when the
/// bytes are not a JSON document, and the document it returns is a function
/// of the bytes.
#[verifier::external_body]
pub(crate) fn parse_json(b: &[u8]) -> (r: Result<serde_json::Value, serde_json::Error>)
    ensures
        r is Ok == json_doc_leaves(b@) is Some,
        r matches Ok(v) ==> json_doc_leaves(b@) == Some(json_leaves(v)),
{
    serde_json::from_slice(b)
}

/// Relies on `serde_json::Value::pointer`, then takes the string found there,
/// or the text `Number`'s `Display` gives; anything else is no leaf.
#[verifier::external_body]
pub(crate) fn leaf_text(v: &serde_json::Value, pointer: &str) -> (r: Option<String>)
    ensures
        r matches Some(t) ==> json_leaves(*v).contains_key(pointer@) && t@ == json_leaves(
            *v,
        )[pointer@],
        r is None ==> !json_leaves(*v).contains_key(pointer@),
{
    match v.pointer(pointer)? {
        serde_json::Value::String(s) => Some(s.clone()),
        serde_json::Value::Number(n) => Some(n.to_string()),
        _ => None,
    }
}

} // verus!
