//! The operations of the example service as a client calls them.

use crate::body::Body;
use crate::client::{call_full, full_call};
use crate::error::ClientError;
use crate::example::{
    path_template, plain, plain_template, with_id, FreestandingPathResponse,
    FreestandingResponse, Q, X_FOO,
};
use crate::message::{Headers, Method, Request};
use crate::params::Params;
use crate::path::{
    ascii_literals, concrete_path, lemma_concrete_path_is_ascii, param_count, texts,
};
use crate::query::{build_uri_with_query, lemma_written_query_bytes, with_query, written_query};
use crate::responder::OK;
use crate::service::Service;
use crate::text::{is_ascii_bytes, lemma_ascii_bytes_are_utf8};
use core::convert::Infallible;
use vstd::prelude::*;
use vstd::utf8::encode_utf8;

verus! {

/// A path in ASCII with a written query behind it is written in ASCII.
proof fn lemma_uri_is_ascii(path: Seq<u8>, pairs: Seq<(Seq<char>, Seq<char>)>)
    requires
        is_ascii_bytes(path),
    ensures
        is_ascii_bytes(with_query(path, pairs)),
{
    lemma_written_query_bytes(pairs);
    let uri = with_query(path, pairs);
    let query = written_query(pairs);
    assert forall|k: int| 0 <= k < uri.len() implies #[trigger] uri[k] < 128 by {
        if pairs.len() > 0 {
            if k < path.len() {
                assert(uri[k] == path[k]);
            } else if k > path.len() {
                assert(uri[k] == query[k - path.len() - 1]);
            }
        }
    }
}

/// Whether a request is the one of `freestanding` with `foo`: `GET
/// /freestanding` with `foo` in the header `x-foo`, and no body.
pub open spec fn is_freestanding_request(request: Request, foo: Seq<char>) -> bool {
    &&& request.method == Method::Get
    &&& encode_utf8(request.uri@) == concrete_path(plain_template(), Seq::empty())
    &&& request.headers@ == seq![(X_FOO@, foo)]
    &&& request.body@.len() == 0
}

/// What calling `freestanding` comes to: its request was sent, and the
/// response was read under `200`.
pub open spec fn freestanding_called<S: Service>(
    before: S,
    foo: Seq<char>,
    r: Result<FreestandingResponse, ClientError<S::Error, Infallible>>,
    after: S,
) -> bool {
    exists|request: Request| #[trigger]
        is_freestanding_request(request, foo) && full_call(before, request, OK, r, after)
}

/// Calls `freestanding` on the service behind `service`.
pub fn freestanding<S: Service>(service: &mut S, foo: &str) -> (r: Result<
    FreestandingResponse,
    ClientError<S::Error, Infallible>,
>)
    ensures
        freestanding_called(*old(service), foo@, r, *final(service)),
{
    let template = plain();
    let args: Vec<String> = Vec::new();
    let pairs = Params::new();
    proof {
        assert(texts(args@) =~= Seq::<Seq<char>>::empty());
        reveal_with_fuel(param_count, 2);
        assert(plain_template().drop_last() =~= Seq::empty());
        assert(ascii_literals(plain_template()));
        lemma_concrete_path_is_ascii(plain_template(), texts(args@));
        lemma_ascii_bytes_are_utf8(concrete_path(plain_template(), texts(args@)));
    }
    let uri = match build_uri_with_query(&template, &args, &pairs) {
        Some(uri) => uri,
        None => String::new(),
    };
    let mut headers = Headers::new();
    headers.append(X_FOO, foo);
    assert(headers@ =~= seq![(X_FOO@, foo@)]);
    let request = Request { method: Method::Get, uri, headers, body: Body::empty() };
    assert(is_freestanding_request(request, foo@));
    call_full(service, request, OK)
}

/// Whether a request is the one of `freestanding_path` with `id` and `q`:
/// `POST /freestanding/{id}?q=..`, without header or body.
pub open spec fn is_freestanding_path_request(request: Request, id: Seq<char>, q: Seq<char>) -> bool {
    &&& request.method == Method::Post
    &&& encode_utf8(request.uri@) == with_query(
        concrete_path(path_template(), seq![id]),
        seq![(Q@, q)],
    )
    &&& request.headers@.len() == 0
    &&& request.body@.len() == 0
}

/// What calling `freestanding_path` comes to: its request was sent, and the
/// response was read under `200`.
pub open spec fn freestanding_path_called<S: Service>(
    before: S,
    id: Seq<char>,
    q: Seq<char>,
    r: Result<FreestandingPathResponse, ClientError<S::Error, Infallible>>,
    after: S,
) -> bool {
    exists|request: Request| #[trigger]
        is_freestanding_path_request(request, id, q) && full_call(before, request, OK, r, after)
}

/// Calls `freestanding_path` on the service behind `service`.
pub fn freestanding_path<S: Service>(service: &mut S, id: &str, q: &str) -> (r: Result<
    FreestandingPathResponse,
    ClientError<S::Error, Infallible>,
>)
    ensures
        freestanding_path_called(*old(service), id@, q@, r, *final(service)),
{
    let template = with_id();
    let mut args: Vec<String> = Vec::new();
    args.push(id.to_owned());
    let mut pairs = Params::new();
    pairs.push(Q.to_owned(), q.to_owned());
    proof {
        assert(texts(args@) =~= seq![id@]);
        assert(pairs@ =~= seq![(Q@, q@)]);
        reveal_with_fuel(param_count, 3);
        assert(path_template().drop_last() =~= plain_template());
        assert(plain_template().drop_last() =~= Seq::empty());
        assert(ascii_literals(path_template()));
        lemma_concrete_path_is_ascii(path_template(), texts(args@));
        lemma_uri_is_ascii(concrete_path(path_template(), texts(args@)), pairs@);
        lemma_ascii_bytes_are_utf8(
            with_query(concrete_path(path_template(), texts(args@)), pairs@),
        );
    }
    let uri = match build_uri_with_query(&template, &args, &pairs) {
        Some(uri) => uri,
        None => String::new(),
    };
    let request = Request { method: Method::Post, uri, headers: Headers::new(), body: Body::empty() };
    assert(is_freestanding_path_request(request, id@, q@));
    call_full(service, request, OK)
}

} // verus!
