use std::convert::Infallible;
use tsp_rust::body::Body;
use tsp_rust::client_raw;
use tsp_rust::error::{ClientError, DecodeError};
use tsp_rust::message::{Headers, Method, Request, Response};
use tsp_rust::pet_store::{Pet, PetKind};
use tsp_rust::service::{send_request, Service};

/// A service that records what it is asked and answers from a script.
struct Scripted {
    ready: bool,
    calls: Vec<(Method, String, Vec<(String, Vec<String>)>, Vec<u8>)>,
    status: u16,
    content_type: Option<&'static str>,
    body: &'static [u8],
    fail: bool,
}

fn scripted(status: u16, content_type: Option<&'static str>, body: &'static [u8]) -> Scripted {
    Scripted { ready: true, calls: Vec::new(), status, content_type, body, fail: false }
}

impl Service for Scripted {
    type Error = String;

    fn poll_ready(&mut self) -> Result<(), String> {
        if self.ready {
            Ok(())
        } else {
            Err("not ready".to_string())
        }
    }

    fn call(&mut self, mut request: Request) -> Result<Response, String> {
        let content_type = request.headers.get_all("content-type");
        self.calls.push((
            request.method,
            request.uri.clone(),
            vec![("content-type".to_string(), content_type)],
            request.body.collect(),
        ));
        if self.fail {
            return Err("broken".to_string());
        }
        let mut headers = Headers::new();
        if let Some(value) = self.content_type {
            headers.append("Content-Type", value);
        }
        Ok(Response { status: self.status, headers, body: Body::from_bytes(self.body.to_vec()) })
    }
}

fn fido() -> Pet {
    Pet { name: "Fido".to_string(), age: 2, kind: PetKind::Dog }
}

#[test]
fn list_sends_get_without_payload() {
    let mut service = scripted(200, Some("application/json"), b"[]");
    let pets = client_raw::list(&mut service).unwrap();
    assert_eq!(pets, Vec::<Pet>::new());
    assert_eq!(service.calls.len(), 1);
    assert_eq!(service.calls[0].0, Method::Get);
    assert_eq!(service.calls[0].1, "/pets");
    assert_eq!(service.calls[0].2[0].1, Vec::<String>::new());
    assert_eq!(service.calls[0].3, Vec::<u8>::new());
}

#[test]
fn create_sends_the_pet_as_json() {
    let mut service =
        scripted(200, Some("application/json"), br#"{"name":"Fido","age":2,"kind":"dog"}"#);
    let pet = client_raw::create(&mut service, fido()).unwrap();
    assert_eq!(pet, fido());
    assert_eq!(service.calls[0].0, Method::Post);
    assert_eq!(service.calls[0].1, "/pets");
    assert_eq!(service.calls[0].2[0].1, vec!["application/json".to_string()]);
    assert_eq!(service.calls[0].3, br#"{"name":"Fido","age":2,"kind":"dog"}"#.to_vec());
}

#[test]
fn update_encodes_the_id_in_the_path() {
    let mut service =
        scripted(200, Some("application/json"), br#"{"name":"Fido","age":3,"kind":"cat"}"#);
    let pet = client_raw::update(&mut service, "a b/c", fido()).unwrap();
    assert_eq!(pet, Pet { name: "Fido".to_string(), age: 3, kind: PetKind::Cat });
    assert_eq!(service.calls[0].0, Method::Post);
    assert_eq!(service.calls[0].1, "/pets/a%20b%2Fc");
}

#[test]
fn delete_sends_delete_and_expects_no_content() {
    let mut service = scripted(204, None, b"");
    client_raw::delete(&mut service, "Fido").unwrap();
    assert_eq!(service.calls[0].0, Method::Delete);
    assert_eq!(service.calls[0].1, "/pets/Fido");
    assert_eq!(service.calls[0].2[0].1, Vec::<String>::new());
    assert_eq!(service.calls[0].3, Vec::<u8>::new());
}

#[test]
fn delete_reports_any_other_status() {
    let mut service = scripted(200, None, b"");
    match client_raw::delete(&mut service, "Fido") {
        Err(ClientError::UnexpectedStatus(200, parts)) => assert_eq!(parts.status, 200),
        other => panic!("unexpected outcome: {:?}", other),
    }
}

#[test]
fn a_service_that_is_not_ready_is_not_called() {
    let mut service = scripted(200, Some("application/json"), b"[]");
    service.ready = false;
    match client_raw::list(&mut service) {
        Err(ClientError::Service(e)) => assert_eq!(e, "not ready"),
        other => panic!("unexpected outcome: {:?}", other),
    }
    assert_eq!(service.calls.len(), 0);
}

#[test]
fn a_failed_exchange_is_a_service_error() {
    let mut service = scripted(200, Some("application/json"), b"[]");
    service.fail = true;
    let request = Request {
        method: Method::Get,
        uri: "/pets".to_string(),
        headers: Headers::new(),
        body: Body::empty(),
    };
    match send_request::<Scripted, Infallible>(&mut service, request) {
        Err(ClientError::Service(e)) => assert_eq!(e, "broken"),
        other => panic!("unexpected outcome: {:?}", other),
    }
    assert_eq!(service.calls.len(), 1);
}

#[test]
fn an_unexpected_status_wins_over_everything_else() {
    let mut service = scripted(500, None, b"not json");
    match client_raw::list(&mut service) {
        Err(ClientError::UnexpectedStatus(500, parts)) => {
            assert_eq!(parts.status, 500);
            assert_eq!(parts.headers.len(), 0);
        }
        other => panic!("unexpected outcome: {:?}", other),
    }
}

#[test]
fn a_missing_content_type_is_reported_before_the_body_is_read() {
    let mut service = scripted(200, None, b"not json");
    match client_raw::list(&mut service) {
        Err(ClientError::UnexpectedContentType(None, parts)) => assert_eq!(parts.status, 200),
        other => panic!("unexpected outcome: {:?}", other),
    }
}

#[test]
fn another_content_type_is_reported_before_the_body_is_read() {
    let mut service = scripted(200, Some("text/plain"), b"not json");
    match client_raw::list(&mut service) {
        Err(ClientError::UnexpectedContentType(Some(actual), parts)) => {
            assert_eq!(actual, "text/plain");
            assert_eq!(parts.headers.get("content-type"), Some("text/plain".to_string()));
        }
        other => panic!("unexpected outcome: {:?}", other),
    }
}

#[test]
fn a_body_that_is_not_json_is_a_syntax_error() {
    let mut service = scripted(200, Some("application/json"), b"not json");
    match client_raw::list(&mut service) {
        Err(ClientError::Deserialize(DecodeError::Syntax(_))) => {}
        other => panic!("unexpected outcome: {:?}", other),
    }
}

#[test]
fn json_of_another_shape_is_a_mismatch() {
    let mut service = scripted(200, Some("application/json"), br#"{"name":"Fido"}"#);
    match client_raw::list(&mut service) {
        Err(ClientError::Deserialize(DecodeError::Mismatch)) => {}
        other => panic!("unexpected outcome: {:?}", other),
    }
    match client_raw::create(&mut service, fido()) {
        Err(ClientError::Deserialize(DecodeError::Mismatch)) => {}
        other => panic!("unexpected outcome: {:?}", other),
    }
}

/// A service that answers every request with the same head and body.
struct Fixed {
    status: u16,
    headers: Vec<(&'static str, &'static str)>,
    body: &'static [u8],
    asked: Vec<(Method, String, Option<String>)>,
}

impl Service for Fixed {
    type Error = String;

    fn poll_ready(&mut self) -> Result<(), String> {
        Ok(())
    }

    fn call(&mut self, request: Request) -> Result<Response, String> {
        self.asked.push((request.method, request.uri.clone(), request.headers.get("x-foo")));
        let mut headers = Headers::new();
        for (name, value) in self.headers.iter() {
            headers.append(name, value);
        }
        Ok(Response { status: self.status, headers, body: Body::from_bytes(self.body.to_vec()) })
    }
}

#[test]
fn freestanding_sends_its_argument_in_a_header() {
    let mut service = Fixed {
        status: 200,
        headers: vec![("content-type", "application/json"), ("X-Bar", "foobar")],
        body: b"[0,1]",
        asked: Vec::new(),
    };
    let output = tsp_rust::example_client::freestanding(&mut service, "foo").unwrap();
    assert_eq!(output.bar, "foobar");
    assert_eq!(output.example, vec![0, 1]);
    assert_eq!(service.asked, vec![(Method::Get, "/freestanding".to_string(), Some("foo".to_string()))]);
}

#[test]
fn freestanding_path_sends_its_arguments_in_path_and_query() {
    let mut service = Fixed {
        status: 200,
        headers: vec![("content-type", "application/json"), ("x-composite", "c")],
        body: b"[]",
        asked: Vec::new(),
    };
    let output = tsp_rust::example_client::freestanding_path(&mut service, "a/b", "x y&z").unwrap();
    assert_eq!(output.composite, "c");
    assert_eq!(output.example, Vec::<i32>::new());
    assert_eq!(
        service.asked,
        vec![(Method::Post, "/freestanding/a%2Fb?q=x%20y%26z".to_string(), None)]
    );
}

#[test]
fn a_result_without_its_header_is_a_mismatch() {
    let mut service = Fixed {
        status: 200,
        headers: vec![("content-type", "application/json")],
        body: b"[0,1]",
        asked: Vec::new(),
    };
    match tsp_rust::example_client::freestanding(&mut service, "foo") {
        Err(ClientError::Deserialize(DecodeError::Mismatch)) => {}
        other => panic!("unexpected outcome: {:?}", other),
    }
    service.headers = vec![("content-type", "application/json"), ("x-bar", "b")];
    service.body = b"{}";
    match tsp_rust::example_client::freestanding(&mut service, "foo") {
        Err(ClientError::Deserialize(DecodeError::Mismatch)) => {}
        other => panic!("unexpected outcome: {:?}", other),
    }
    service.body = b"[";
    match tsp_rust::example_client::freestanding(&mut service, "foo") {
        Err(ClientError::Deserialize(DecodeError::Syntax(_))) => {}
        other => panic!("unexpected outcome: {:?}", other),
    }
}

#[test]
fn status_and_content_type_are_checked_before_head_and_body_are_read() {
    let mut service = Fixed { status: 404, headers: vec![("x-bar", "b")], body: b"[", asked: Vec::new() };
    match tsp_rust::example_client::freestanding(&mut service, "foo") {
        Err(ClientError::UnexpectedStatus(404, _)) => {}
        other => panic!("unexpected outcome: {:?}", other),
    }
    service.status = 200;
    match tsp_rust::example_client::freestanding(&mut service, "foo") {
        Err(ClientError::UnexpectedContentType(None, _)) => {}
        other => panic!("unexpected outcome: {:?}", other),
    }
    service.headers = vec![("x-bar", "b"), ("content-type", "application/json; charset=utf-8")];
    match tsp_rust::example_client::freestanding(&mut service, "foo") {
        Err(ClientError::UnexpectedContentType(Some(actual), _)) => {
            assert_eq!(actual, "application/json; charset=utf-8")
        }
        other => panic!("unexpected outcome: {:?}", other),
    }
}
