use tsp_rust::body::Body;
use tsp_rust::error::{DecodeError, ServerError};
use tsp_rust::message::{Headers, Method, Request};
use tsp_rust::pet_store::{Pet, PetKind, Pets};
use tsp_rust::pet_store_router::{PetStoreRouter, CREATE, DELETE, LIST, UPDATE};
use tsp_rust::petstore_logic::{PetStore, PetStoreError};
use tsp_rust::router::PathParams;
use tsp_rust::server_raw;

fn pet(name: &str, age: i32, kind: PetKind) -> Pet {
    Pet { name: name.to_string(), age, kind }
}

fn request(method: Method, uri: &str, body: &[u8]) -> Request {
    Request { method, uri: uri.to_string(), headers: Headers::new(), body: Body::from_bytes(body.to_vec()) }
}

fn id(value: &str) -> PathParams {
    let mut params = PathParams::new();
    params.push("id".to_string(), value.to_string());
    params
}

#[test]
fn a_new_store_is_empty() {
    let mut store = PetStore::new();
    assert_eq!(store.len(), 0);
    assert_eq!(store.list(), Ok(Vec::new()));
}

#[test]
fn pets_are_listed_in_the_order_of_their_creation() {
    let mut store = PetStore::new();
    assert_eq!(store.create(pet("Fido", 2, PetKind::Dog)), Ok(pet("Fido", 2, PetKind::Dog)));
    assert_eq!(store.create(pet("Tom", 5, PetKind::Cat)), Ok(pet("Tom", 5, PetKind::Cat)));
    assert_eq!(store.len(), 2);
    assert_eq!(store.list(), Ok(vec![pet("Fido", 2, PetKind::Dog), pet("Tom", 5, PetKind::Cat)]));
}

#[test]
fn a_name_that_is_taken_is_refused() {
    let mut store = PetStore::new();
    store.create(pet("Fido", 2, PetKind::Dog)).unwrap();
    assert_eq!(store.create(pet("Fido", 9, PetKind::Cat)), Err(PetStoreError::AlreadyExists));
    assert_eq!(store.list(), Ok(vec![pet("Fido", 2, PetKind::Dog)]));
}

#[test]
fn an_update_replaces_the_pet_in_its_place() {
    let mut store = PetStore::new();
    store.create(pet("Fido", 2, PetKind::Dog)).unwrap();
    store.create(pet("Tom", 5, PetKind::Cat)).unwrap();
    assert_eq!(store.update("Fido", pet("Fido", 3, PetKind::Dog)), Ok(pet("Fido", 3, PetKind::Dog)));
    assert_eq!(store.list(), Ok(vec![pet("Fido", 3, PetKind::Dog), pet("Tom", 5, PetKind::Cat)]));
    assert_eq!(store.update("Rex", pet("Rex", 1, PetKind::Dog)), Err(PetStoreError::NotFound));
    assert_eq!(store.len(), 2);
}

#[test]
fn an_updated_pet_is_kept_under_its_old_key() {
    let mut store = PetStore::new();
    store.create(pet("Fido", 2, PetKind::Dog)).unwrap();
    store.update("Fido", pet("Rex", 3, PetKind::Dog)).unwrap();
    assert_eq!(store.list(), Ok(vec![pet("Rex", 3, PetKind::Dog)]));
    assert_eq!(store.delete("Rex"), Err(PetStoreError::NotFound));
    assert_eq!(store.delete("Fido"), Ok(()));
    assert_eq!(store.len(), 0);
}

#[test]
fn a_deleted_pet_leaves_the_others_in_order() {
    let mut store = PetStore::new();
    store.create(pet("a", 1, PetKind::Dog)).unwrap();
    store.create(pet("b", 2, PetKind::Cat)).unwrap();
    store.create(pet("c", 3, PetKind::Fish)).unwrap();
    assert_eq!(store.delete("b"), Ok(()));
    assert_eq!(store.list(), Ok(vec![pet("a", 1, PetKind::Dog), pet("c", 3, PetKind::Fish)]));
    assert_eq!(store.delete("b"), Err(PetStoreError::NotFound));
    assert_eq!(store.create(pet("b", 4, PetKind::Dog)), Ok(pet("b", 4, PetKind::Dog)));
    assert_eq!(store.len(), 3);
}

#[test]
fn a_payload_that_is_not_json_is_refused_before_the_store_is_asked() {
    let mut store = PetStore::new();
    match server_raw::create(&mut store, request(Method::Post, "/pets", b"{")) {
        Err(ServerError::Deserialize(DecodeError::Syntax(_))) => {}
        other => panic!("unexpected outcome: {:?}", other),
    }
    match server_raw::create(&mut store, request(Method::Post, "/pets", br#"{"name":1}"#)) {
        Err(ServerError::Deserialize(DecodeError::Mismatch)) => {}
        other => panic!("unexpected outcome: {:?}", other),
    }
    match server_raw::update(&mut store, &id("Fido"), request(Method::Post, "/pets/Fido", b"")) {
        Err(ServerError::Deserialize(DecodeError::Syntax(_))) => {}
        other => panic!("unexpected outcome: {:?}", other),
    }
    assert_eq!(store.len(), 0);
}

#[test]
fn a_request_without_id_is_invalid() {
    let mut store = PetStore::new();
    store.create(pet("Fido", 2, PetKind::Dog)).unwrap();
    let body = br#"{"name":"Fido","age":3,"kind":"dog"}"#;
    match server_raw::update(&mut store, &PathParams::new(), request(Method::Post, "/pets/Fido", body)) {
        Err(ServerError::InvalidRequest) => {}
        other => panic!("unexpected outcome: {:?}", other),
    }
    match server_raw::delete(&mut store, &PathParams::new(), request(Method::Delete, "/pets/Fido", b"")) {
        Err(ServerError::InvalidRequest) => {}
        other => panic!("unexpected outcome: {:?}", other),
    }
    assert_eq!(store.list(), Ok(vec![pet("Fido", 2, PetKind::Dog)]));
}

#[test]
fn a_failure_of_the_store_is_an_operation_error() {
    let mut store = PetStore::new();
    let body = br#"{"name":"Fido","age":2,"kind":"dog"}"#;
    let response = server_raw::create(&mut store, request(Method::Post, "/pets", body)).unwrap();
    assert_eq!(response.status, 200);
    match server_raw::create(&mut store, request(Method::Post, "/pets", body)) {
        Err(ServerError::Operation(PetStoreError::AlreadyExists)) => {}
        other => panic!("unexpected outcome: {:?}", other),
    }
    match server_raw::update(&mut store, &id("Rex"), request(Method::Post, "/pets/Rex", body)) {
        Err(ServerError::Operation(PetStoreError::NotFound)) => {}
        other => panic!("unexpected outcome: {:?}", other),
    }
    match server_raw::delete(&mut store, &id("Rex"), request(Method::Delete, "/pets/Rex", b"")) {
        Err(ServerError::Operation(PetStoreError::NotFound)) => {}
        other => panic!("unexpected outcome: {:?}", other),
    }
}

#[test]
fn the_dispatchers_answer_as_their_result_types_say() {
    let mut store = PetStore::new();
    let body = br#"{"name":"Fido","age":2,"kind":"dog"}"#;
    server_raw::create(&mut store, request(Method::Post, "/pets", body)).unwrap();
    let changed = br#"{"name":"Fido","age":3,"kind":"dog"}"#;
    let mut response =
        server_raw::update(&mut store, &id("Fido"), request(Method::Post, "/pets/Fido", changed)).unwrap();
    assert_eq!(response.status, 200);
    assert_eq!(response.headers.get("content-type"), Some("application/json".to_string()));
    assert_eq!(response.body.collect(), changed.to_vec());
    let mut response = server_raw::list(&mut store, request(Method::Get, "/pets", b"")).unwrap();
    assert_eq!(response.status, 200);
    assert_eq!(response.body.collect(), br#"[{"name":"Fido","age":3,"kind":"dog"}]"#.to_vec());
    let mut response =
        server_raw::delete(&mut store, &id("Fido"), request(Method::Delete, "/pets/Fido", b"")).unwrap();
    assert_eq!(response.status, 204);
    assert_eq!(response.headers.len(), 0);
    assert_eq!(response.body.collect(), Vec::<u8>::new());
}

#[test]
fn the_router_knows_the_four_operations() {
    let router = PetStoreRouter::new(PetStore::new());
    assert_eq!(router.routes.len(), 4);
    assert_eq!(router.routes.resolve(Method::Get, "/pets").unwrap().operation, LIST);
    assert_eq!(router.routes.resolve(Method::Post, "/pets").unwrap().operation, CREATE);
    assert_eq!(router.routes.resolve(Method::Post, "/pets/x").unwrap().operation, UPDATE);
    assert_eq!(router.routes.resolve(Method::Delete, "/pets/x").unwrap().operation, DELETE);
}

#[test]
fn a_request_that_leads_nowhere_is_turned_away() {
    let mut router = PetStoreRouter::new(PetStore::new());
    for (method, uri) in [
        (Method::Get, "/dogs"),
        (Method::Put, "/pets"),
        (Method::Get, "/pets/Fido"),
        (Method::Delete, "/pets"),
        (Method::Get, "pets"),
        (Method::Post, "/pets/a/b"),
    ] {
        match router.dispatch(request(method, uri, br#"{"name":"Fido","age":2,"kind":"dog"}"#)) {
            Err(ServerError::InvalidRequest) => {}
            other => panic!("unexpected outcome: {:?}", other),
        }
    }
    assert_eq!(router.service.len(), 0);
}

#[test]
fn the_query_of_a_request_does_not_change_its_route() {
    let mut router = PetStoreRouter::new(PetStore::new());
    let body = br#"{"name":"Fido","age":2,"kind":"dog"}"#;
    assert_eq!(router.dispatch(request(Method::Post, "/pets?x=1", body)).unwrap().status, 200);
    assert_eq!(router.dispatch(request(Method::Delete, "/pets/Fido?force=/", b"")).unwrap().status, 204);
    assert_eq!(router.service.len(), 0);
}

#[test]
fn the_id_of_a_request_is_decoded_before_the_store_is_asked() {
    let mut router = PetStoreRouter::new(PetStore::new());
    let body = br#"{"name":"a b/c","age":2,"kind":"dog"}"#;
    router.dispatch(request(Method::Post, "/pets", body)).unwrap();
    assert_eq!(router.dispatch(request(Method::Delete, "/pets/a%20b%2Fc", b"")).unwrap().status, 204);
    assert_eq!(router.service.len(), 0);
}
