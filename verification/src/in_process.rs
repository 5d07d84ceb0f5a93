//! Calls through the pet store router in the same process: what the client
//! gets is what the store did.

use crate::client::{empty_call, json_call};
use crate::client_raw::{
    created, deleted, is_create_request, is_delete_request, is_list_request, is_update_request,
    listed, updated,
};
use crate::error::{ClientError, DecodeError, ServerError};
use crate::json::{json_parse, json_text};
use crate::marshal::{empty_reply, json_headers, json_reply, reading, APPLICATION_JSON, CONTENT_TYPE};
use crate::message::{first_value, same_name, Method, Request, Response};
use crate::params::param_value;
use crate::path::{
    bindings, captures, concrete_path, concrete_segments, lemma_concrete_path_avoids,
    lemma_path_without_query, param_count, path_part, path_segments, QUESTION, SLASH,
};
use crate::marshal::payload_text;
use crate::pet_store::{
    collection_template, item_template, lemma_templates_avoid, Pet, PetView, Pets, ID,
};
use crate::server::payload_of;
use crate::pet_store_router::{
    dispatched, operated, pet_routes, PetStoreRouter, CREATE, DELETE, LIST, UPDATE,
};
use crate::responder::{responds, Responder, NO_CONTENT, OK};
use crate::router::{accepts, is_resolution, lemma_concrete_path, unrouted};
use crate::server::answered;
use crate::server_raw::{create_served, delete_served, list_served, refused, update_served};
use crate::service::{answered_when_ready, sent, Service};
use crate::wire::Wire;
use core::convert::Infallible;
use vstd::prelude::*;

verus! {

/// What the router did for a request that was sent to it: it answered with
/// `served` as `dispatched` says, and the client got that answer, a failure
/// in the `Service` category.
pub open spec fn passed_on<E>(
    served: Result<Response, ServerError<E>>,
    reply: Result<Response, ClientError<ServerError<E>, Infallible>>,
) -> bool {
    match served {
        Ok(response) => reply == Ok::<Response, ClientError<ServerError<E>, Infallible>>(response),
        Err(e) => reply == Err::<Response, ClientError<ServerError<E>, Infallible>>(
            ClientError::Service(e),
        ),
    }
}

/// A request that is sent to a router is dispatched by it, and the reply is
/// what it served: the router is always ready.
pub proof fn lemma_sent_is_dispatched<P: Pets>(
    before: PetStoreRouter<P>,
    request: Request,
    reply: Result<Response, ClientError<ServerError<P::Error>, Infallible>>,
    after: PetStoreRouter<P>,
) -> (served: Result<Response, ServerError<P::Error>>)
    requires
        sent(before, request, reply, after),
    ensures
        dispatched(before, request, served, after),
        passed_on(served, reply),
{
    match reply {
        Ok(response) => {
            assert(answered_when_ready(before, request, Ok(response), after));
            let ready = choose|ready: PetStoreRouter<P>| #[trigger]
                before.readiness(None, ready) && ready.exchange(request, Ok(response), after);
            Ok(response)
        },
        Err(ClientError::Service(e)) => {
            assert(!before.readiness(Some(e), after));
            assert(answered_when_ready(before, request, Err(e), after));
            let ready = choose|ready: PetStoreRouter<P>| #[trigger]
                before.readiness(None, ready) && ready.exchange(request, Err(e), after);
            Err(e)
        },
        Err(_) => Err(ServerError::InvalidRequest),
    }
}

/// The URI of a pet that has a name leads to the operations on one pet, with
/// the name as `id`.
pub proof fn lemma_item_uri(id: Seq<char>) -> (segments: Seq<Seq<u8>>)
    requires
        id.len() > 0,
    ensures
        segments == concrete_segments(item_template(), seq![id]),
        path_segments(path_part(concrete_path(item_template(), seq![id]))) == Some(segments),
        crate::path::fits(item_template(), segments),
        !crate::path::fits(collection_template(), segments),
        captures(item_template(), segments) == seq![(ID@, id)],
{
    let template = item_template();
    let args = seq![id];
    let segments = concrete_segments(template, args);
    reveal_with_fuel(param_count, 3);
    reveal_with_fuel(bindings, 3);
    assert(template.drop_last() =~= collection_template());
    assert(collection_template().drop_last() =~= Seq::empty());
    assert(args.drop_last() =~= Seq::<Seq<char>>::empty());
    lemma_templates_avoid(SLASH);
    lemma_templates_avoid(QUESTION);
    assert(args[0].len() > 0);
    lemma_concrete_path(template, args);
    lemma_concrete_path_avoids(template, args, QUESTION);
    lemma_path_without_query(concrete_path(template, args));
    assert(bindings(template, args) =~= seq![(ID@, id)]);
    segments
}

/// The URI of the collection leads to the operations on the collection.
pub proof fn lemma_collection_uri() -> (segments: Seq<Seq<u8>>)
    ensures
        segments == concrete_segments(collection_template(), Seq::empty()),
        path_segments(path_part(concrete_path(collection_template(), Seq::empty()))) == Some(
            segments,
        ),
        crate::path::fits(collection_template(), segments),
        !crate::path::fits(item_template(), segments),
{
    let template = collection_template();
    let args = Seq::<Seq<char>>::empty();
    let segments = concrete_segments(template, args);
    reveal_with_fuel(param_count, 2);
    assert(template.drop_last() =~= Seq::empty());
    lemma_templates_avoid(SLASH);
    lemma_templates_avoid(QUESTION);
    lemma_concrete_path(template, args);
    lemma_concrete_path_avoids(template, args, QUESTION);
    lemma_path_without_query(concrete_path(template, args));
    segments
}

/// What the client gets for a delete through the router in the same
/// process: exactly the outcome of the store's own `delete` for that `id`.
/// Success is success, and a failure of the store arrives unchanged as an
/// `Operation` error of the service.
pub open spec fn deleted_in_store<P: Pets>(
    before: P,
    id: Seq<char>,
    r: Result<(), ClientError<ServerError<P::Error>, Infallible>>,
    after: P,
) -> bool {
    match r {
        Ok(_) => before.deletes(id, None, after),
        Err(ClientError::Service(ServerError::Operation(e))) => before.deletes(id, Some(e), after),
        Err(_) => false,
    }
}

/// A delete through the pet store router in the same process is the store's
/// own delete.
pub proof fn lemma_delete_in_process<P: Pets>(
    before: PetStoreRouter<P>,
    id: Seq<char>,
    r: Result<(), ClientError<ServerError<P::Error>, Infallible>>,
    after: PetStoreRouter<P>,
)
    requires
        before.routes@ == pet_routes(),
        id.len() > 0,
        deleted(before, id, r, after),
    ensures
        after.routes == before.routes,
        deleted_in_store(before.service, id, r, after.service),
{
    let request = choose|request: Request| #[trigger]
        is_delete_request(request, id) && empty_call(before, request, NO_CONTENT, r, after);
    let reply = choose|reply: Result<Response, ClientError<ServerError<P::Error>, Infallible>>|
        #[trigger] sent(before, request, reply, after) && match reply {
            Ok(response) => empty_reply(response, NO_CONTENT, r),
            Err(e) => r == Err::<(), ClientError<ServerError<P::Error>, Infallible>>(e),
        };
    let served = lemma_sent_is_dispatched(before, request, reply, after);
    let segments = lemma_item_uri(id);
    let routes = before.routes@;
    assert(accepts(routes[DELETE as int], Method::Delete, segments));
    assert(!unrouted(routes, Method::Delete, segments));
    let op = choose|op: int| #[trigger]
        is_resolution(routes, request.method, segments, op) && operated(
            op,
            captures(routes[op].template, segments),
            before.service,
            request,
            served,
            after.service,
        );
    assert(op == DELETE);
    let params = captures(routes[op].template, segments);
    assert(params == seq![(ID@, id)]);
    assert(param_value(params, ID@) == Some(id));
    assert(delete_served(before.service, params, served, after.service));
    let outcome = choose|outcome: Result<(), P::Error>| #[trigger]
        before.service.deletes(id, crate::service::failure_of(outcome), after.service) && answered(
            outcome,
            served,
        );
    match outcome {
        Ok(unit) => {
            assert(responds(served, unit.status(), unit.fields(), unit.payload()));
        },
        Err(e) => {},
    }
}

/// How a typed outcome of the store reaches the client. A failure of the
/// store arrives unchanged as an `Operation` error of the service. A value
/// travels as its JSON text: where it has none, the service reports a
/// `Serialize` error; otherwise the client gets what reading that text as a
/// value of the same type comes to.
pub open spec fn carried<T: Wire, E>(
    outcome: Result<T, E>,
    r: Result<T, ClientError<ServerError<E>, Infallible>>,
) -> bool {
    match outcome {
        Err(e) => r == Err::<T, ClientError<ServerError<E>, Infallible>>(
            ClientError::Service(ServerError::Operation(e)),
        ),
        Ok(value) => match json_text(T::encoding(value.deep_view())) {
            None => r is Err && r->Err_0 is Service && r->Err_0->Service_0 is Serialize,
            Some(text) => match r {
                Ok(read) => reading(text, Ok::<T, DecodeError>(read)),
                Err(ClientError::Deserialize(e)) => reading(text, Err::<T, DecodeError>(e)),
                Err(_) => false,
            },
        },
    }
}

/// Where the JSON text of a value is read back as the document of the
/// value, the client gets the value that the store handed out.
pub proof fn lemma_carried_value<T: Wire, E>(
    value: T,
    r: Result<T, ClientError<ServerError<E>, Infallible>>,
)
    requires
        carried(Ok::<T, E>(value), r),
        json_text(T::encoding(value.deep_view())) is Some,
        json_parse(json_text(T::encoding(value.deep_view()))->0) == Some(
            T::encoding(value.deep_view()),
        ),
    ensures
        r is Ok,
        r->Ok_0.deep_view() == value.deep_view(),
{
    T::lemma_round_trip(value.deep_view());
}

/// The answer to an outcome with a JSON payload under `200`, passed on to
/// the client and read there, carries the outcome.
proof fn lemma_json_answer<T: Wire + Responder, E>(
    outcome: Result<T, E>,
    served: Result<Response, ServerError<E>>,
    reply: Result<Response, ClientError<ServerError<E>, Infallible>>,
    r: Result<T, ClientError<ServerError<E>, Infallible>>,
)
    requires
        outcome is Ok ==> {
            &&& outcome->Ok_0.status() == OK
            &&& outcome->Ok_0.fields() == Seq::<(Seq<char>, Seq<char>)>::empty()
            &&& outcome->Ok_0.payload() == Some(T::encoding(outcome->Ok_0.deep_view()))
        },
        answered(outcome, served),
        passed_on(served, reply),
        match reply {
            Ok(response) => json_reply(response, OK, r),
            Err(e) => r == Err::<T, ClientError<ServerError<E>, Infallible>>(e),
        },
    ensures
        carried(outcome, r),
{
    match outcome {
        Err(e) => {},
        Ok(value) => {
            match json_text(T::encoding(value.deep_view())) {
                None => {},
                Some(text) => {
                    let response = served->Ok_0;
                    assert(response.headers@ =~= json_headers());
                    assert(response.headers@[0] == (CONTENT_TYPE@, APPLICATION_JSON@));
                    assert(same_name(CONTENT_TYPE@, CONTENT_TYPE@));
                    assert(first_value(response.headers@, CONTENT_TYPE@) == Some(
                        APPLICATION_JSON@,
                    ));
                    assert(response.body@.flatten() == text) by {
                        response.body@.lemma_flatten_singleton();
                    }
                },
            }
        },
    }
}

/// What the client gets for a list through the router in the same process:
/// the outcome of the store's own `list`, carried as JSON.
pub open spec fn listed_in_store<P: Pets>(
    before: P,
    r: Result<Vec<Pet>, ClientError<ServerError<P::Error>, Infallible>>,
    after: P,
) -> bool {
    exists|outcome: Result<Vec<Pet>, P::Error>| #[trigger]
        before.lists(outcome, after) && carried(outcome, r)
}

/// A list through the pet store router in the same process is the store's
/// own list, carried as JSON.
pub proof fn lemma_list_in_process<P: Pets>(
    before: PetStoreRouter<P>,
    r: Result<Vec<Pet>, ClientError<ServerError<P::Error>, Infallible>>,
    after: PetStoreRouter<P>,
)
    requires
        before.routes@ == pet_routes(),
        listed(before, r, after),
    ensures
        after.routes == before.routes,
        listed_in_store(before.service, r, after.service),
{
    let request = choose|request: Request| #[trigger]
        is_list_request(request) && json_call(before, request, OK, r, after);
    let reply = choose|reply: Result<Response, ClientError<ServerError<P::Error>, Infallible>>|
        #[trigger] sent(before, request, reply, after) && match reply {
            Ok(response) => json_reply(response, OK, r),
            Err(e) => r == Err::<Vec<Pet>, ClientError<ServerError<P::Error>, Infallible>>(e),
        };
    let served = lemma_sent_is_dispatched(before, request, reply, after);
    let segments = lemma_collection_uri();
    let routes = before.routes@;
    assert(accepts(routes[LIST as int], Method::Get, segments));
    assert(!unrouted(routes, Method::Get, segments));
    let op = choose|op: int| #[trigger]
        is_resolution(routes, request.method, segments, op) && operated(
            op,
            captures(routes[op].template, segments),
            before.service,
            request,
            served,
            after.service,
        );
    assert(op == LIST);
    assert(list_served(before.service, served, after.service));
    let outcome = choose|outcome: Result<Vec<Pet>, P::Error>| #[trigger]
        before.service.lists(outcome, after.service) && answered(outcome, served);
    lemma_json_answer(outcome, served, reply, r);
}

/// Whether `r` tells the client that the server could not read the
/// payload of the request.
pub open spec fn payload_refused<T, E>(r: Result<T, ClientError<ServerError<E>, Infallible>>) -> bool {
    r is Err && r->Err_0 is Service && r->Err_0->Service_0 is Deserialize
}

/// Whether `r` tells the client that its own payload has no JSON text.
pub open spec fn payload_unwritten<T, E>(
    r: Result<T, ClientError<ServerError<E>, Infallible>>,
) -> bool {
    r is Err && r->Err_0 is Serialize
}

/// What the client gets for a create through the router in the same
/// process. A pet without JSON text is not sent, and a text that the server
/// does not read as a pet is refused; either way the store is left alone.
/// Otherwise the store's own `create` ran once, for the pet that the server
/// read, and its outcome is carried back as JSON.
pub open spec fn created_in_store<P: Pets>(
    before: P,
    pet: PetView,
    r: Result<Pet, ClientError<ServerError<P::Error>, Infallible>>,
    after: P,
) -> bool {
    match payload_text::<Pet>(pet) {
        None => after == before && payload_unwritten(r),
        Some(text) => match payload_of::<Pet>(text) {
            None => after == before && payload_refused(r),
            Some(arrived) => exists|outcome: Result<Pet, P::Error>| #[trigger]
                before.creates(arrived, outcome, after) && carried(outcome, r),
        },
    }
}

/// Where the JSON text of a pet is read back as the document of the pet,
/// the pet that the server reads is the pet that the client sent.
pub proof fn lemma_sent_pet_arrives(pet: PetView)
    requires
        payload_text::<Pet>(pet) is Some,
        json_parse(payload_text::<Pet>(pet)->0) == Some(Pet::encoding(pet)),
    ensures
        payload_of::<Pet>(payload_text::<Pet>(pet)->0) == Some(pet),
{
    Pet::lemma_round_trip(pet);
}

/// The body of a request with one chunk is that chunk.
proof fn lemma_single_chunk(request: Request)
    requires
        request.body@.len() == 1,
    ensures
        request.body@.flatten() == request.body@[0],
{
    request.body@.lemma_flatten_singleton();
}

/// A refusal of the payload by the server reaches the client as such.
proof fn lemma_refusal_passed_on<T, E>(
    text: Seq<u8>,
    served: Result<Response, ServerError<E>>,
    reply: Result<Response, ClientError<ServerError<E>, Infallible>>,
    r: Result<T, ClientError<ServerError<E>, Infallible>>,
)
    requires
        refused(text, served),
        passed_on(served, reply),
        reply is Err ==> r == Err::<T, ClientError<ServerError<E>, Infallible>>(reply->Err_0),
    ensures
        payload_refused(r),
{
}

/// A create through the pet store router in the same process is the store's
/// own create, with the pet and the outcome carried as JSON.
pub proof fn lemma_create_in_process<P: Pets>(
    before: PetStoreRouter<P>,
    pet: PetView,
    r: Result<Pet, ClientError<ServerError<P::Error>, Infallible>>,
    after: PetStoreRouter<P>,
)
    requires
        before.routes@ == pet_routes(),
        created(before, pet, r, after),
    ensures
        payload_text::<Pet>(pet) is Some ==> after.routes == before.routes,
        created_in_store(before.service, pet, r, after.service),
{
    if payload_text::<Pet>(pet) is Some {
        let text = payload_text::<Pet>(pet)->0;
        let request = choose|request: Request| #[trigger]
            is_create_request(request, pet) && json_call(before, request, OK, r, after);
        let reply = choose|reply: Result<Response, ClientError<ServerError<P::Error>, Infallible>>|
            #[trigger] sent(before, request, reply, after) && match reply {
                Ok(response) => json_reply(response, OK, r),
                Err(e) => r == Err::<Pet, ClientError<ServerError<P::Error>, Infallible>>(e),
            };
        let served = lemma_sent_is_dispatched(before, request, reply, after);
        let segments = lemma_collection_uri();
        lemma_single_chunk(request);
        let routes = before.routes@;
        assert(accepts(routes[CREATE as int], Method::Post, segments));
        assert(!unrouted(routes, Method::Post, segments));
        let op = choose|op: int| #[trigger]
            is_resolution(routes, request.method, segments, op) && operated(
                op,
                captures(routes[op].template, segments),
                before.service,
                request,
                served,
                after.service,
            );
        assert(op == CREATE);
        assert(create_served(before.service, request, served, after.service));
        match payload_of::<Pet>(text) {
            None => {
                lemma_refusal_passed_on(text, served, reply, r);
            },
            Some(arrived) => {
                let outcome = choose|outcome: Result<Pet, P::Error>| #[trigger]
                    before.service.creates(arrived, outcome, after.service) && answered(
                        outcome,
                        served,
                    );
                lemma_json_answer(outcome, served, reply, r);
            },
        }
    }
}

/// What the client gets for an update through the router in the same
/// process. A pet without JSON text is not sent, and a text that the server
/// does not read as a pet is refused; either way the store is left alone.
/// Otherwise the store's own `update` ran once, for the `id` that the client
/// gave and the pet that the server read, and its outcome is carried back as
/// JSON.
pub open spec fn updated_in_store<P: Pets>(
    before: P,
    id: Seq<char>,
    pet: PetView,
    r: Result<Pet, ClientError<ServerError<P::Error>, Infallible>>,
    after: P,
) -> bool {
    match payload_text::<Pet>(pet) {
        None => after == before && payload_unwritten(r),
        Some(text) => match payload_of::<Pet>(text) {
            None => after == before && payload_refused(r),
            Some(arrived) => exists|outcome: Result<Pet, P::Error>| #[trigger]
                before.updates(id, arrived, outcome, after) && carried(outcome, r),
        },
    }
}

/// An update through the pet store router in the same process is the
/// store's own update, with the pet and the outcome carried as JSON.
pub proof fn lemma_update_in_process<P: Pets>(
    before: PetStoreRouter<P>,
    id: Seq<char>,
    pet: PetView,
    r: Result<Pet, ClientError<ServerError<P::Error>, Infallible>>,
    after: PetStoreRouter<P>,
)
    requires
        before.routes@ == pet_routes(),
        id.len() > 0,
        updated(before, id, pet, r, after),
    ensures
        payload_text::<Pet>(pet) is Some ==> after.routes == before.routes,
        updated_in_store(before.service, id, pet, r, after.service),
{
    if payload_text::<Pet>(pet) is Some {
        let text = payload_text::<Pet>(pet)->0;
        let request = choose|request: Request| #[trigger]
            is_update_request(request, id, pet) && json_call(before, request, OK, r, after);
        let reply = choose|reply: Result<Response, ClientError<ServerError<P::Error>, Infallible>>|
            #[trigger] sent(before, request, reply, after) && match reply {
                Ok(response) => json_reply(response, OK, r),
                Err(e) => r == Err::<Pet, ClientError<ServerError<P::Error>, Infallible>>(e),
            };
        let served = lemma_sent_is_dispatched(before, request, reply, after);
        let segments = lemma_item_uri(id);
        lemma_single_chunk(request);
        let routes = before.routes@;
        assert(accepts(routes[UPDATE as int], Method::Post, segments));
        assert(!unrouted(routes, Method::Post, segments));
        let op = choose|op: int| #[trigger]
            is_resolution(routes, request.method, segments, op) && operated(
                op,
                captures(routes[op].template, segments),
                before.service,
                request,
                served,
                after.service,
            );
        assert(op == UPDATE);
        let params = captures(routes[op].template, segments);
        assert(param_value(params, ID@) == Some(id));
        assert(update_served(before.service, params, request, served, after.service));
        match payload_of::<Pet>(text) {
            None => {
                lemma_refusal_passed_on(text, served, reply, r);
            },
            Some(arrived) => {
                let outcome = choose|outcome: Result<Pet, P::Error>| #[trigger]
                    before.service.updates(id, arrived, outcome, after.service) && answered(
                        outcome,
                        served,
                    );
                lemma_json_answer(outcome, served, reply, r);
            },
        }
    }
}

} // verus!
