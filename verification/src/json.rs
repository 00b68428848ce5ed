//! JSON payloads: the text form of a value, produced and read by `serde_json`.

use vstd::prelude::*;

verus! {

#[verifier::external_type_specification]
#[verifier::external_body]
pub struct ExJsonValue(serde_json::Value);

/// The compact JSON text that `serde_json` writes for a value, as bytes;
/// `None` where it reports an error.
pub uninterp spec fn json_text(value: serde_json::Value) -> Option<Seq<u8>>;

/// The value that `serde_json` reads from JSON text; `None` where the
/// bytes are not one JSON value.
pub uninterp spec fn json_value(text: Seq<u8>) -> Option<serde_json::Value>;

/// Writes a value as compact JSON text with `serde_json::to_vec`. The
/// result is that function's, with its error mapped to `None`.
#[verifier::external_body]
pub(crate) fn encode(value: &serde_json::Value) -> (r: Option<Vec<u8>>)
    ensures
        r.is_some() == json_text(*value).is_some(),
        r matches Some(text) ==> json_text(*value) == Some(text@),
{
    serde_json::to_vec(value).ok()
}

/// Reads one JSON value from text with `serde_json::from_slice`. The
/// result is that function's, with its error mapped to `None`.
#[verifier::external_body]
pub(crate) fn decode(text: &[u8]) -> (r: Option<serde_json::Value>)
    ensures
        r == json_value(text@),
{
    serde_json::from_slice::<serde_json::Value>(text).ok()
}

} // verus!
