//! Calls through the example router in the same process: what the client
//! gets is what the service did, with path, query and header carried both
//! ways.

use crate::client::full_call;
use crate::error::{ClientError, ServerError};
use crate::example::{
    lemma_templates_avoid, path_template, plain_template, Example,
    FreestandingPathResponse, ID, Q, X_COMPOSITE,
};
use crate::example_client::{freestanding_path_called, is_freestanding_path_request};
use crate::example_server::{freestanding_path_served, query_argument};
use crate::in_process::passed_on;
use crate::json::{json_parse, json_text, member, Json};
use crate::main_service::{
    example_dispatched, example_operated, example_routes, MainServiceRouter, FREESTANDING_PATH,
};
use crate::marshal::{full_reply, APPLICATION_JSON, CONTENT_TYPE};
use crate::message::{first_value, same_name, Method, Parts, Request, Response};
use crate::params::{param_value, params_object};
use crate::path::{
    bindings, captures, concrete_path, concrete_segments, fits, lemma_concrete_path_avoids,
    param_count, path_part, path_segments, QUESTION, SLASH,
};
use crate::query::{lemma_uri_round_trip, query_pairs, with_query};
use crate::responder::{responds, Responder, OK};
use crate::router::{accepts, is_resolution, lemma_concrete_path, unrouted};
use crate::server::answered;
use crate::service::{answered_when_ready, sent, Service};
use crate::wire::Wire;
use core::convert::Infallible;
use vstd::prelude::*;
use vstd::utf8::{is_ascii_chars, is_ascii_chars_encode_utf8};

verus! {

/// A request that is sent to the example router is dispatched by it, and the
/// reply is what it served: the router is always ready.
pub proof fn lemma_sent_is_example_dispatched<E: Example>(
    before: MainServiceRouter<E>,
    request: Request,
    reply: Result<Response, ClientError<ServerError<E::Error>, Infallible>>,
    after: MainServiceRouter<E>,
) -> (served: Result<Response, ServerError<E::Error>>)
    requires
        sent(before, request, reply, after),
    ensures
        example_dispatched(before, request, served, after),
        passed_on(served, reply),
{
    match reply {
        Ok(response) => {
            assert(answered_when_ready(before, request, Ok(response), after));
            let ready = choose|ready: MainServiceRouter<E>| #[trigger]
                before.readiness(None, ready) && ready.exchange(request, Ok(response), after);
            Ok(response)
        },
        Err(ClientError::Service(e)) => {
            assert(!before.readiness(Some(e), after));
            assert(answered_when_ready(before, request, Err(e), after));
            let ready = choose|ready: MainServiceRouter<E>| #[trigger]
                before.readiness(None, ready) && ready.exchange(request, Err(e), after);
            Err(e)
        },
        Err(_) => Err(ServerError::InvalidRequest),
    }
}

/// The header of the content type is not the header of the result text.
pub proof fn lemma_header_names_differ()
    ensures
        !same_name(CONTENT_TYPE@, X_COMPOSITE@),
{
    reveal_strlit("content-type");
    reveal_strlit("x-composite");
    let a = CONTENT_TYPE@;
    let b = X_COMPOSITE@;
    assert(a.len() == 12);
    assert(b.len() == 11);
    assert(is_ascii_chars(a));
    assert(is_ascii_chars(b));
    is_ascii_chars_encode_utf8(a);
    is_ascii_chars_encode_utf8(b);
}

/// The URI of `freestanding_path` leads to that operation, with `id` from
/// the path and `q` from the query.
pub proof fn lemma_path_uri(id: Seq<char>, q: Seq<char>) -> (segments: Seq<Seq<u8>>)
    requires
        id.len() > 0,
    ensures
        segments == concrete_segments(path_template(), seq![id]),
        path_segments(
            path_part(with_query(concrete_path(path_template(), seq![id]), seq![(Q@, q)])),
        ) == Some(segments),
        fits(path_template(), segments),
        captures(path_template(), segments) == seq![(ID@, id)],
        query_pairs(with_query(concrete_path(path_template(), seq![id]), seq![(Q@, q)])) == Some(
            seq![(Q@, q)],
        ),
        query_argument(seq![(Q@, q)], Q@) == Some(q),
{
    let template = path_template();
    let args = seq![id];
    let segments = concrete_segments(template, args);
    let pairs = seq![(Q@, q)];
    reveal_with_fuel(param_count, 3);
    reveal_with_fuel(bindings, 3);
    assert(template.drop_last() =~= plain_template());
    assert(plain_template().drop_last() =~= Seq::empty());
    assert(args.drop_last() =~= Seq::<Seq<char>>::empty());
    lemma_templates_avoid(SLASH);
    lemma_templates_avoid(QUESTION);
    assert(args[0].len() > 0);
    lemma_concrete_path(template, args);
    lemma_concrete_path_avoids(template, args, QUESTION);
    lemma_uri_round_trip(concrete_path(template, args), pairs);
    assert(bindings(template, args) =~= seq![(ID@, id)]);
    assert(query_argument(pairs, Q@) == Some(q)) by {
        let members = params_object(pairs)->Object_0;
        assert(members[0] == (Q@, Json::String(q)));
        assert(member(members, Q@) == Some(Json::String(q)));
    }
    segments
}

/// How a result with a text in a header and a list in the body reaches the
/// client. A failure of the service arrives unchanged as an `Operation`
/// error. A result travels as a header and a JSON text: where the list has
/// no text, the service reports a `Serialize` error; otherwise the client
/// gets the text of the header as it is, and for the list what reading the
/// JSON text comes to.
pub open spec fn carried_headed<E>(
    outcome: Result<FreestandingPathResponse, E>,
    r: Result<FreestandingPathResponse, ClientError<ServerError<E>, Infallible>>,
) -> bool {
    match outcome {
        Err(e) => r == Err::<FreestandingPathResponse, ClientError<ServerError<E>, Infallible>>(
            ClientError::Service(ServerError::Operation(e)),
        ),
        Ok(value) => match json_text(Vec::<i32>::encoding(value.example@)) {
            None => r is Err && r->Err_0 is Service && r->Err_0->Service_0 is Serialize,
            Some(text) => match json_parse(text) {
                None => r is Err && r->Err_0 is Deserialize && r->Err_0->Deserialize_0 is Syntax,
                Some(doc) => match Vec::<i32>::decoding(doc) {
                    None => r is Err && r->Err_0 is Deserialize
                        && r->Err_0->Deserialize_0 is Mismatch,
                    Some(list) => r is Ok && r->Ok_0.composite@ == value.composite@
                        && r->Ok_0.example@ == list,
                },
            },
        },
    }
}

/// What the client gets for `freestanding_path` through the router in the
/// same process: the outcome of the service's own operation for the same
/// `id` and `q`, carried back in header and body.
pub open spec fn path_called_in_service<E: Example>(
    before: E,
    id: Seq<char>,
    q: Seq<char>,
    r: Result<FreestandingPathResponse, ClientError<ServerError<E::Error>, Infallible>>,
    after: E,
) -> bool {
    exists|outcome: Result<FreestandingPathResponse, E::Error>| #[trigger]
        before.freestands_path(id, q, outcome, after) && carried_headed(outcome, r)
}

/// A call of `freestanding_path` through the example router in the same
/// process is the service's own operation: the arguments arrive as they were
/// given, whatever characters they hold, and the outcome is carried back.
pub proof fn lemma_freestanding_path_in_process<E: Example>(
    before: MainServiceRouter<E>,
    id: Seq<char>,
    q: Seq<char>,
    r: Result<FreestandingPathResponse, ClientError<ServerError<E::Error>, Infallible>>,
    after: MainServiceRouter<E>,
)
    requires
        before.routes@ == example_routes(),
        id.len() > 0,
        freestanding_path_called(before, id, q, r, after),
    ensures
        after.routes == before.routes,
        path_called_in_service(before.service, id, q, r, after.service),
{
    let request = choose|request: Request| #[trigger]
        is_freestanding_path_request(request, id, q) && full_call(before, request, OK, r, after);
    let reply = choose|reply: Result<Response, ClientError<ServerError<E::Error>, Infallible>>|
        #[trigger] sent(before, request, reply, after) && match reply {
            Ok(response) => full_reply(response, OK, r),
            Err(e) => r == Err::<
                FreestandingPathResponse,
                ClientError<ServerError<E::Error>, Infallible>,
            >(e),
        };
    let served = lemma_sent_is_example_dispatched(before, request, reply, after);
    let segments = lemma_path_uri(id, q);
    let routes = before.routes@;
    assert(accepts(routes[FREESTANDING_PATH as int], Method::Post, segments));
    assert(!unrouted(routes, Method::Post, segments));
    let op = choose|op: int| #[trigger]
        is_resolution(routes, request.method, segments, op) && example_operated(
            op,
            captures(routes[op].template, segments),
            before.service,
            request,
            served,
            after.service,
        );
    assert(op == FREESTANDING_PATH);
    let params = captures(routes[op].template, segments);
    assert(param_value(params, ID@) == Some(id));
    assert(freestanding_path_served(before.service, params, request, served, after.service));
    let outcome = choose|outcome: Result<FreestandingPathResponse, E::Error>| #[trigger]
        before.service.freestands_path(id, q, outcome, after.service) && answered(outcome, served);
    match outcome {
        Err(e) => {},
        Ok(value) => {
            assert(responds(served, value.status(), value.fields(), value.payload()));
            match json_text(Vec::<i32>::encoding(value.example@)) {
                None => {},
                Some(text) => {
                    let response = served->Ok_0;
                    let parts = Parts { status: response.status, headers: response.headers };
                    lemma_header_names_differ();
                    assert(response.headers@ =~= seq![
                        (CONTENT_TYPE@, APPLICATION_JSON@),
                        (X_COMPOSITE@, value.composite@),
                    ]);
                    assert(same_name(CONTENT_TYPE@, CONTENT_TYPE@));
                    assert(same_name(X_COMPOSITE@, X_COMPOSITE@));
                    assert(first_value(response.headers@, CONTENT_TYPE@) == Some(
                        APPLICATION_JSON@,
                    ));
                    assert(first_value(response.headers@, X_COMPOSITE@) == Some(
                        value.composite@,
                    )) by {
                        reveal_with_fuel(first_value, 3);
                        assert(response.headers@.skip(1)[0] == (X_COMPOSITE@, value.composite@));
                    }
                    assert(response.body@.flatten() == text) by {
                        response.body@.lemma_flatten_singleton();
                    }
                },
            }
        },
    }
}

} // verus!
