//! The encoding of a value that carries nothing: `null`.

use crate::error::DecodeError;
use crate::json::{Json, JsonValue};
use vstd::prelude::*;

verus! {

/// Encodes the empty value.
pub fn serialize() -> (doc: JsonValue)
    ensures
        doc@ == Json::Null,
{
    JsonValue::Null
}

/// Decodes the empty value: `null` stands for it, and no other document
/// does.
pub fn deserialize(doc: &JsonValue) -> (r: Result<(), DecodeError>)
    ensures
        r is Ok <==> doc@ is Null,
        r is Err ==> r->Err_0 is Mismatch,
{
    match doc {
        JsonValue::Null => Ok(()),
        _ => Err(DecodeError::Mismatch),
    }
}

} // verus!
