//! The operations of the example service as the server dispatches them.

use crate::error::ServerError;
use crate::example::{Example, FreestandingPathResponse, FreestandingResponse, ID, Q, X_FOO};
use crate::message::{first_value, Request, Response};
use crate::params::{param_value, params_object, Params};
use crate::query::{query_pairs, read_uri_query};
use crate::server::{answered, respond};
use crate::wire::Wire;
use vstd::prelude::*;
use vstd::utf8::encode_utf8;

verus! {

/// Whether `r` turns a request away as invalid.
pub open spec fn invalid<E>(r: Result<Response, ServerError<E>>) -> bool {
    r == Err::<Response, ServerError<E>>(ServerError::InvalidRequest)
}

/// What serving `freestanding` comes to. A request without the header
/// `x-foo` is invalid, and the service is not asked. Otherwise the service
/// was asked once with the first value of the header, and its outcome was
/// answered.
pub open spec fn freestanding_served<P: Example>(
    before: P,
    request: Request,
    r: Result<Response, ServerError<P::Error>>,
    after: P,
) -> bool {
    match first_value(request.headers@, X_FOO@) {
        None => after == before && invalid(r),
        Some(foo) => exists|outcome: Result<FreestandingResponse, P::Error>| #[trigger]
            before.freestands(foo, outcome, after) && answered(outcome, r),
    }
}

/// Serves a `freestanding` request.
pub fn freestanding<P: Example>(service: &mut P, request: Request) -> (r: Result<
    Response,
    ServerError<P::Error>,
>)
    ensures
        freestanding_served(*old(service), request, r, *final(service)),
{
    match request.headers.get(X_FOO) {
        None => Err(ServerError::InvalidRequest),
        Some(foo) => {
            let outcome = service.freestanding(foo.as_str());
            let r = respond(outcome);
            assert(first_value(request.headers@, X_FOO@)->0 == foo@);
            assert(old(service).freestands(foo@, outcome, *service) && answered(outcome, r));
            r
        },
    }
}

/// The string that the object of the query holds under a name, decoded as
/// any document is.
pub open spec fn query_argument(pairs: Seq<(Seq<char>, Seq<char>)>, name: Seq<char>) -> Option<
    Seq<char>,
> {
    match params_object(pairs).field(name) {
        Some(doc) => String::decoding(doc),
        None => None,
    }
}

/// Whether `r` refuses a query that lacks an argument.
pub open spec fn lacking<E>(r: Result<Response, ServerError<E>>) -> bool {
    &&& r is Err
    &&& r->Err_0 is Deserialize
    &&& r->Err_0->Deserialize_0 is Mismatch
}

/// What serving `freestanding_path` comes to. A request whose path gave no
/// `id`, or whose query does not decode, is invalid. A query without `q` is
/// refused as a `Deserialize` error. In these cases the service is not
/// asked. Otherwise the service was asked once with `id` and `q`, and its
/// outcome was answered.
pub open spec fn freestanding_path_served<P: Example>(
    before: P,
    params: Seq<(Seq<char>, Seq<char>)>,
    request: Request,
    r: Result<Response, ServerError<P::Error>>,
    after: P,
) -> bool {
    match (param_value(params, ID@), query_pairs(encode_utf8(request.uri@))) {
        (Some(id), Some(pairs)) => match query_argument(pairs, Q@) {
            None => after == before && lacking(r),
            Some(q) => exists|outcome: Result<FreestandingPathResponse, P::Error>| #[trigger]
                before.freestands_path(id, q, outcome, after) && answered(outcome, r),
        },
        _ => after == before && invalid(r),
    }
}

/// Decodes one argument from the object of the query.
pub fn read_argument(pairs: &Params, name: &str) -> (value: Option<String>)
    ensures
        value is Some <==> query_argument(pairs@, name@) is Some,
        value is Some ==> value->0@ == query_argument(pairs@, name@)->0,
{
    let doc = pairs.to_json();
    match doc.get(name) {
        Some(field) => String::from_json(field),
        None => None,
    }
}

/// Serves a `freestanding_path` request.
pub fn freestanding_path<P: Example>(service: &mut P, params: &Params, request: Request) -> (r:
    Result<Response, ServerError<P::Error>>)
    ensures
        freestanding_path_served(*old(service), params@, request, r, *final(service)),
{
    let id = match params.get(ID) {
        Some(id) => id,
        None => {
            return Err(ServerError::InvalidRequest);
        },
    };
    let pairs = match read_uri_query(request.uri.as_str().as_bytes()) {
        Some(pairs) => pairs,
        None => {
            return Err(ServerError::InvalidRequest);
        },
    };
    assert(param_value(params@, ID@)->0 == id@);
    assert(query_pairs(encode_utf8(request.uri@))->0 == pairs@);
    match read_argument(&pairs, Q) {
        None => Err(ServerError::Deserialize(crate::error::DecodeError::Mismatch)),
        Some(q) => {
            let outcome = service.freestanding_path(id.as_str(), q.as_str());
            let r = respond(outcome);
            assert(old(service).freestands_path(id@, q@, outcome, *service) && answered(
                outcome,
                r,
            ));
            r
        },
    }
}

} // verus!
