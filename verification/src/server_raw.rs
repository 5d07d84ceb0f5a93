//! The operations of the pet store as the server dispatches them.

use crate::error::{DecodeError, ServerError};
use crate::marshal::{deserialize_body_server, reading};
use crate::message::{Request, Response};
use crate::pet_store::{Pet, Pets, ID};
use crate::params::param_value;
use crate::router::PathParams;
use crate::server::{answered, payload_of, respond};
use crate::service::failure_of;
use vstd::prelude::*;

verus! {

/// What serving a list request comes to: the store was asked once, and its
/// outcome was answered.
pub open spec fn list_served<P: Pets>(
    before: P,
    r: Result<Response, ServerError<P::Error>>,
    after: P,
) -> bool {
    exists|outcome: Result<Vec<Pet>, P::Error>| #[trigger]
        before.lists(outcome, after) && answered(outcome, r)
}

/// Serves a request to list the pets.
pub fn list<P: Pets>(service: &mut P, request: Request) -> (r: Result<
    Response,
    ServerError<P::Error>,
>)
    ensures
        list_served(*old(service), r, *final(service)),
{
    let outcome = service.list();
    assert(old(service).lists(outcome, *service));
    respond(outcome)
}

/// Whether `r` is the refusal of a payload that does not stand for a value
/// of type `Pet`.
pub open spec fn refused<E>(text: Seq<u8>, r: Result<Response, ServerError<E>>) -> bool {
    &&& r is Err
    &&& r->Err_0 is Deserialize
    &&& reading::<Pet>(text, Err::<Pet, DecodeError>(r->Err_0->Deserialize_0))
}

/// What serving a create request comes to. Where the payload does not stand
/// for a pet, the store is not asked and the outcome is a `Deserialize`
/// error. Otherwise the store was asked once to create that pet, and its
/// outcome was answered.
pub open spec fn create_served<P: Pets>(
    before: P,
    request: Request,
    r: Result<Response, ServerError<P::Error>>,
    after: P,
) -> bool {
    let text = request.body@.flatten();
    match payload_of::<Pet>(text) {
        None => after == before && refused(text, r),
        Some(pet) => exists|outcome: Result<Pet, P::Error>| #[trigger]
            before.creates(pet, outcome, after) && answered(outcome, r),
    }
}

/// Serves a request to create a pet.
pub fn create<P: Pets>(service: &mut P, request: Request) -> (r: Result<
    Response,
    ServerError<P::Error>,
>)
    ensures
        create_served(*old(service), request, r, *final(service)),
{
    match deserialize_body_server::<Pet, P::Error>(request.body) {
        Err(e) => Err(e),
        Ok(pet) => {
            let outcome = service.create(pet);
            assert(old(service).creates(pet@, outcome, *service));
            respond(outcome)
        },
    }
}

/// What serving an update request comes to. Where the path gave no `id`,
/// the store is not asked and the request is invalid. Where the payload does
/// not stand for a pet, the store is not asked and the outcome is a
/// `Deserialize` error. Otherwise the store was asked once to update that
/// `id` with that pet, and its outcome was answered.
pub open spec fn update_served<P: Pets>(
    before: P,
    params: Seq<(Seq<char>, Seq<char>)>,
    request: Request,
    r: Result<Response, ServerError<P::Error>>,
    after: P,
) -> bool {
    let text = request.body@.flatten();
    match param_value(params, ID@) {
        None => after == before && r == Err::<Response, ServerError<P::Error>>(
            ServerError::InvalidRequest,
        ),
        Some(id) => match payload_of::<Pet>(text) {
            None => after == before && refused(text, r),
            Some(pet) => exists|outcome: Result<Pet, P::Error>| #[trigger]
                before.updates(id, pet, outcome, after) && answered(outcome, r),
        },
    }
}

/// Serves a request to update a pet.
pub fn update<P: Pets>(service: &mut P, params: &PathParams, request: Request) -> (r: Result<
    Response,
    ServerError<P::Error>,
>)
    ensures
        update_served(*old(service), params@, request, r, *final(service)),
{
    let id = match params.get(ID) {
        Some(id) => id,
        None => {
            return Err(ServerError::InvalidRequest);
        },
    };
    assert(param_value(params@, ID@)->0 == id@);
    match deserialize_body_server::<Pet, P::Error>(request.body) {
        Err(e) => Err(e),
        Ok(pet) => {
            let outcome = service.update(id.as_str(), pet);
            let r = respond(outcome);
            assert(old(service).updates(id@, pet@, outcome, *service) && answered(outcome, r));
            r
        },
    }
}

/// What serving a delete request comes to. Where the path gave no `id`, the
/// store is not asked and the request is invalid. Otherwise the store was
/// asked once to delete that `id`, and its outcome was answered.
pub open spec fn delete_served<P: Pets>(
    before: P,
    params: Seq<(Seq<char>, Seq<char>)>,
    r: Result<Response, ServerError<P::Error>>,
    after: P,
) -> bool {
    match param_value(params, ID@) {
        None => after == before && r == Err::<Response, ServerError<P::Error>>(
            ServerError::InvalidRequest,
        ),
        Some(id) => exists|outcome: Result<(), P::Error>| #[trigger]
            before.deletes(id, failure_of(outcome), after) && answered(outcome, r),
    }
}

/// Serves a request to delete a pet.
pub fn delete<P: Pets>(service: &mut P, params: &PathParams, request: Request) -> (r: Result<
    Response,
    ServerError<P::Error>,
>)
    ensures
        delete_served(*old(service), params@, r, *final(service)),
{
    let id = match params.get(ID) {
        Some(id) => id,
        None => {
            return Err(ServerError::InvalidRequest);
        },
    };
    let outcome = service.delete(id.as_str());
    let r = respond(outcome);
    assert(param_value(params@, ID@)->0 == id@);
    assert(old(service).deletes(id@, failure_of(outcome), *service) && answered(outcome, r));
    r
}

} // verus!
