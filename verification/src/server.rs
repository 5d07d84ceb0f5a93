//! The server side of a call: hand the outcome of the business logic back as
//! a response.

use crate::error::ServerError;
use crate::json::json_parse;
use crate::message::Response;
use crate::responder::{responds, Responder};
use crate::wire::Wire;
use vstd::prelude::*;

verus! {

/// Whether `r` is what the outcome of an operation is answered with: a
/// result becomes the response that its type prescribes, and a failure of
/// the business logic is handed on unchanged in the `Operation` category.
pub open spec fn answered<T: Responder, E>(
    outcome: Result<T, E>,
    r: Result<Response, ServerError<E>>,
) -> bool {
    match outcome {
        Ok(value) => responds(r, value.status(), value.fields(), value.payload()),
        Err(e) => r == Err::<Response, ServerError<E>>(ServerError::Operation(e)),
    }
}

/// Answers the outcome of an operation.
pub fn respond<T: Responder, E>(outcome: Result<T, E>) -> (r: Result<Response, ServerError<E>>)
    ensures
        answered(outcome, r),
{
    match outcome {
        Ok(value) => value.to_response(),
        Err(e) => Err(ServerError::Operation(e)),
    }
}

/// The value of type `T` that a payload text stands for, if it stands for
/// one.
pub open spec fn payload_of<T: Wire>(text: Seq<u8>) -> Option<T::V> {
    match json_parse(text) {
        Some(doc) => T::decoding(doc),
        None => None,
    }
}

/// Whether `r` is the refusal of a request that leads to no operation, which
/// leaves the service as it was.
pub open spec fn turned_away_from<P, E>(
    before: P,
    r: Result<Response, ServerError<E>>,
    after: P,
) -> bool {
    r == Err::<Response, ServerError<E>>(ServerError::InvalidRequest) && after == before
}

} // verus!
