use tsp_rust::body::Body;
use tsp_rust::client_raw;
use tsp_rust::error::{ClientError, ServerError};
use tsp_rust::message::{Headers, Method, Request};
use tsp_rust::pet_store::{Pet, PetKind};
use tsp_rust::pet_store_router::PetStoreRouter;
use tsp_rust::petstore_logic::{PetStore, PetStoreError};

fn fido() -> Pet {
    Pet { name: "Fido".to_string(), age: 2, kind: PetKind::Dog }
}

fn request(method: Method, uri: &str, body: Body) -> Request {
    Request { method, uri: uri.to_string(), headers: Headers::new(), body }
}

#[test]
fn create_answers_with_the_pet_as_json() {
    let mut backend = PetStoreRouter::new(PetStore::new());
    let body = Body::from_bytes(br#"{"name":"Fido","age":2,"kind":"dog"}"#.to_vec());
    let mut response = backend.dispatch(request(Method::Post, "/pets", body)).unwrap();
    assert_eq!(response.status, 200);
    assert_eq!(response.headers.get("Content-Type"), Some("application/json".to_string()));
    assert_eq!(response.body.collect(), br#"{"name":"Fido","age":2,"kind":"dog"}"#.to_vec());
}

#[test]
fn pet_store_scenario() {
    let mut backend = PetStoreRouter::new(PetStore::new());

    let created = client_raw::create(&mut backend, fido()).unwrap();
    assert_eq!(created, fido());

    let pets = client_raw::list(&mut backend).unwrap();
    assert_eq!(pets, vec![fido()]);

    let mut listed = backend.dispatch(request(Method::Get, "/pets", Body::empty())).unwrap();
    assert_eq!(listed.status, 200);
    assert_eq!(listed.body.collect(), br#"[{"name":"Fido","age":2,"kind":"dog"}]"#.to_vec());

    client_raw::delete(&mut backend, "Fido").unwrap();

    match client_raw::delete(&mut backend, "Fido") {
        Err(ClientError::Service(ServerError::Operation(PetStoreError::NotFound))) => {}
        other => panic!("unexpected outcome: {:?}", other),
    }

    let pets = client_raw::list(&mut backend).unwrap();
    assert_eq!(pets, Vec::<Pet>::new());

    let mut listed = backend.dispatch(request(Method::Get, "/pets", Body::empty())).unwrap();
    assert_eq!(listed.status, 200);
    assert_eq!(listed.body.collect(), b"[]".to_vec());
}

#[test]
fn delete_answers_without_content() {
    let mut backend = PetStoreRouter::new(PetStore::new());
    client_raw::create(&mut backend, fido()).unwrap();
    let mut response = backend.dispatch(request(Method::Delete, "/pets/Fido", Body::empty())).unwrap();
    assert_eq!(response.status, 204);
    assert_eq!(response.headers.len(), 0);
    assert_eq!(response.body.collect(), Vec::<u8>::new());
    assert!(response.body.next_chunk().is_none());
}
