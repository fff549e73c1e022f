//! The JSON boundary: serde_json's value and error types carried
//! opaquely, and the one trusted parse call.

use vstd::prelude::*;

verus! {

/// serde_json's JSON value: an opaque structured payload, bound to a job
/// at registration time and handed back by the request intake.
#[verifier::external_type_specification]
#[verifier::external_body]
pub struct ExValue(serde_json::Value);

/// serde_json's error type, returned unchanged by the JSON accessors.
#[verifier::external_type_specification]
#[verifier::external_body]
pub struct ExJsonError(serde_json::Error);

/// Whether serde_json accepts the bytes `b` as one JSON document: a
/// function of the bytes alone.
pub uninterp spec fn json_accepts(b: Seq<u8>) -> bool;

/// Relies on `serde_json::from_slice::<Value>`: deterministic in the
/// input bytes, it returns the parsed value exactly when the bytes are
/// one valid JSON document.
#[verifier::external_body]
pub(crate) fn parse_json(b: &Vec<u8>) -> (r: Result<serde_json::Value, serde_json::Error>)
    ensures
        r is Ok <==> json_accepts(b@),
{
    serde_json::from_slice(b)
}

} // verus!
