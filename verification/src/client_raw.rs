//! The operations of the pet store as a client calls them.

use crate::client::{call_empty, call_json, empty_call, json_call};
use crate::error::ClientError;
use crate::marshal::{json_headers, json_request, payload_text, plain_request};
use crate::message::{Method, Request};
use crate::path::{
    ascii_literals, build_uri, concrete_path, lemma_concrete_path_is_ascii, param_count, texts,
};
use crate::pet_store::{collection, collection_template, item, item_template, Pet, PetView};
use crate::responder::{NO_CONTENT, OK};
use crate::service::Service;
use crate::text::lemma_ascii_bytes_are_utf8;
use core::convert::Infallible;
use vstd::prelude::*;
use vstd::utf8::encode_utf8;

verus! {

/// The URI of the collection of pets.
pub fn collection_uri() -> (uri: String)
    ensures
        encode_utf8(uri@) == concrete_path(collection_template(), Seq::empty()),
{
    let template = collection();
    let args: Vec<String> = Vec::new();
    proof {
        assert(texts(args@) =~= Seq::<Seq<char>>::empty());
        reveal_with_fuel(param_count, 2);
        assert(collection_template().drop_last() =~= Seq::empty());
        assert(ascii_literals(collection_template()));
        lemma_concrete_path_is_ascii(collection_template(), texts(args@));
        lemma_ascii_bytes_are_utf8(concrete_path(collection_template(), texts(args@)));
    }
    match build_uri(&template, &args) {
        Some(uri) => uri,
        None => String::new(),
    }
}

/// The URI of the pet that is kept under `id`.
pub fn item_uri(id: &str) -> (uri: String)
    ensures
        encode_utf8(uri@) == concrete_path(item_template(), seq![id@]),
{
    let template = item();
    let mut args: Vec<String> = Vec::new();
    args.push(id.to_owned());
    proof {
        assert(texts(args@) =~= seq![id@]);
        reveal_with_fuel(param_count, 3);
        assert(item_template().drop_last() =~= collection_template());
        assert(collection_template().drop_last() =~= Seq::empty());
        assert(ascii_literals(item_template()));
        lemma_concrete_path_is_ascii(item_template(), texts(args@));
        lemma_ascii_bytes_are_utf8(concrete_path(item_template(), texts(args@)));
    }
    match build_uri(&template, &args) {
        Some(uri) => uri,
        None => String::new(),
    }
}

/// Whether a request is the one that lists the pets: `GET /pets`, without
/// header or body.
pub open spec fn is_list_request(request: Request) -> bool {
    &&& request.method == Method::Get
    &&& encode_utf8(request.uri@) == concrete_path(collection_template(), Seq::empty())
    &&& request.headers@.len() == 0
    &&& request.body@.len() == 0
}

/// Whether a request is the one that creates `pet`: `POST /pets`, with the
/// pet as its JSON payload.
pub open spec fn is_create_request(request: Request, pet: PetView) -> bool {
    &&& request.method == Method::Post
    &&& encode_utf8(request.uri@) == concrete_path(collection_template(), Seq::empty())
    &&& request.headers@ == json_headers()
    &&& request.body@.len() == 1
    &&& payload_text::<Pet>(pet) == Some(request.body@[0])
}

/// Whether a request is the one that updates `id` with `pet`: `POST` to the
/// pet's URI, with the pet as its JSON payload.
pub open spec fn is_update_request(request: Request, id: Seq<char>, pet: PetView) -> bool {
    &&& request.method == Method::Post
    &&& encode_utf8(request.uri@) == concrete_path(item_template(), seq![id])
    &&& request.headers@ == json_headers()
    &&& request.body@.len() == 1
    &&& payload_text::<Pet>(pet) == Some(request.body@[0])
}

/// Whether a request is the one that deletes `id`: `DELETE` to the pet's
/// URI, without header or body.
pub open spec fn is_delete_request(request: Request, id: Seq<char>) -> bool {
    &&& request.method == Method::Delete
    &&& encode_utf8(request.uri@) == concrete_path(item_template(), seq![id])
    &&& request.headers@.len() == 0
    &&& request.body@.len() == 0
}

/// What listing comes to: the list request was sent, and the response was
/// read as a list of pets under `200`.
pub open spec fn listed<S: Service>(
    before: S,
    r: Result<Vec<Pet>, ClientError<S::Error, Infallible>>,
    after: S,
) -> bool {
    exists|request: Request| #[trigger]
        is_list_request(request) && json_call(before, request, OK, r, after)
}

/// Lists the pets of the store behind a service.
pub fn list<S: Service>(service: &mut S) -> (r: Result<
    Vec<Pet>,
    ClientError<S::Error, Infallible>,
>)
    ensures
        listed(*old(service), r, *final(service)),
{
    let request = plain_request(Method::Get, collection_uri());
    assert(is_list_request(request));
    call_json(service, request, OK)
}

/// What creating a pet comes to. Where the pet has no JSON text, nothing is
/// sent and the outcome is a `Serialize` error. Otherwise the create request
/// was sent, and the response was read as a pet under `200`.
pub open spec fn created<S: Service>(
    before: S,
    pet: PetView,
    r: Result<Pet, ClientError<S::Error, Infallible>>,
    after: S,
) -> bool {
    if payload_text::<Pet>(pet) is None {
        r is Err && r->Err_0 is Serialize && after == before
    } else {
        exists|request: Request| #[trigger]
            is_create_request(request, pet) && json_call(before, request, OK, r, after)
    }
}

/// Creates a pet in the store behind a service.
pub fn create<S: Service>(service: &mut S, pet: Pet) -> (r: Result<
    Pet,
    ClientError<S::Error, Infallible>,
>)
    ensures
        created(*old(service), pet@, r, *final(service)),
{
    match json_request(Method::Post, collection_uri(), &pet) {
        Err(e) => Err(ClientError::Serialize(e)),
        Ok(request) => {
            assert(is_create_request(request, pet@));
            call_json(service, request, OK)
        },
    }
}

/// What updating a pet comes to. Where the pet has no JSON text, nothing is
/// sent and the outcome is a `Serialize` error. Otherwise the update request
/// was sent, and the response was read as a pet under `200`.
pub open spec fn updated<S: Service>(
    before: S,
    id: Seq<char>,
    pet: PetView,
    r: Result<Pet, ClientError<S::Error, Infallible>>,
    after: S,
) -> bool {
    if payload_text::<Pet>(pet) is None {
        r is Err && r->Err_0 is Serialize && after == before
    } else {
        exists|request: Request| #[trigger]
            is_update_request(request, id, pet) && json_call(before, request, OK, r, after)
    }
}

/// Replaces the pet that the store behind a service keeps under `id`.
pub fn update<S: Service>(service: &mut S, id: &str, pet: Pet) -> (r: Result<
    Pet,
    ClientError<S::Error, Infallible>,
>)
    ensures
        updated(*old(service), id@, pet@, r, *final(service)),
{
    match json_request(Method::Post, item_uri(id), &pet) {
        Err(e) => Err(ClientError::Serialize(e)),
        Ok(request) => {
            assert(is_update_request(request, id@, pet@));
            call_json(service, request, OK)
        },
    }
}

/// What deleting a pet comes to: the delete request was sent, and the
/// response was read as one without content under `204`.
pub open spec fn deleted<S: Service>(
    before: S,
    id: Seq<char>,
    r: Result<(), ClientError<S::Error, Infallible>>,
    after: S,
) -> bool {
    exists|request: Request| #[trigger]
        is_delete_request(request, id) && empty_call(before, request, NO_CONTENT, r, after)
}

/// Removes the pet that the store behind a service keeps under `id`.
pub fn delete<S: Service>(service: &mut S, id: &str) -> (r: Result<
    (),
    ClientError<S::Error, Infallible>,
>)
    ensures
        deleted(*old(service), id@, r, *final(service)),
{
    let request = plain_request(Method::Delete, item_uri(id));
    assert(is_delete_request(request, id@));
    call_empty(service, request, NO_CONTENT)
}

} // verus!
