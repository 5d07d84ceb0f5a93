use tsp_rust::body::Body;
use tsp_rust::error::{DecodeError, ServerError};
use tsp_rust::marshal::{json_request, plain_request, FromParts};
use tsp_rust::message::{names_match, Headers, Method, Parts, Response};
use tsp_rust::pet_store::{Pet, PetKind};
use tsp_rust::responder::{json_response, Responder};
use tsp_rust::server::respond;

#[test]
fn an_empty_body_is_at_its_end() {
    let mut body = Body::empty();
    assert!(body.is_end());
    assert_eq!(body.next_chunk(), None);
    assert_eq!(body.collect(), Vec::<u8>::new());
}

#[test]
fn a_body_from_bytes_has_one_chunk() {
    let mut body = Body::from_bytes(b"abc".to_vec());
    assert!(!body.is_end());
    assert_eq!(body.next_chunk(), Some(b"abc".to_vec()));
    assert!(body.is_end());
    assert_eq!(body.next_chunk(), None);

    let mut body = Body::from_bytes(Vec::new());
    assert!(!body.is_end());
    assert_eq!(body.next_chunk(), Some(Vec::new()));
    assert!(body.is_end());
}

#[test]
fn chunks_are_read_once_and_in_order() {
    let mut body = Body::empty();
    body.push_chunk(b"ab".to_vec());
    body.push_chunk(b"cd".to_vec());
    body.push_chunk(b"ef".to_vec());
    assert_eq!(body.next_chunk(), Some(b"ab".to_vec()));
    assert_eq!(body.next_chunk(), Some(b"cd".to_vec()));
    assert_eq!(body.next_chunk(), Some(b"ef".to_vec()));
    assert_eq!(body.next_chunk(), None);
    assert_eq!(body.next_chunk(), None);
}

#[test]
fn collecting_joins_all_chunks() {
    let mut body = Body::empty();
    body.push_chunk(b"ab".to_vec());
    body.push_chunk(Vec::new());
    body.push_chunk(b"cd".to_vec());
    assert_eq!(body.collect(), b"abcd".to_vec());
    assert!(body.is_end());
    assert_eq!(body.collect(), Vec::<u8>::new());
}

#[test]
fn collecting_after_reading_gives_the_remainder() {
    let mut body = Body::empty();
    body.push_chunk(b"ab".to_vec());
    body.push_chunk(b"cd".to_vec());
    body.push_chunk(b"ef".to_vec());
    assert_eq!(body.next_chunk(), Some(b"ab".to_vec()));
    assert_eq!(body.collect(), b"cdef".to_vec());
    assert_eq!(body.next_chunk(), None);
}

#[test]
fn header_names_are_compared_without_case() {
    assert!(names_match("Content-Type", "content-type"));
    assert!(names_match("CONTENT-TYPE", "content-type"));
    assert!(names_match("", ""));
    assert!(!names_match("content-type", "content_type"));
    assert!(!names_match("content-type", "content-typ"));
    assert!(!names_match("\u{e9}", "\u{c9}"));
    assert!(!names_match("@", "`"));
    assert!(!names_match("[", "{"));
}

#[test]
fn the_first_value_of_a_header_is_the_one_that_is_looked_up() {
    let mut headers = Headers::new();
    assert_eq!(headers.len(), 0);
    headers.append("Accept", "a");
    headers.append("X-Other", "o");
    headers.append("accept", "b");
    headers.append("ACCEPT", "c");
    assert_eq!(headers.len(), 4);
    assert_eq!(headers.get("accept"), Some("a".to_string()));
    assert_eq!(headers.get("x-other"), Some("o".to_string()));
    assert_eq!(headers.get("missing"), None);
}

#[test]
fn every_value_of_a_header_is_kept() {
    let mut headers = Headers::new();
    headers.append("Accept", "a");
    headers.append("X-Other", "o");
    headers.append("accept", "b");
    headers.append("ACCEPT", "a");
    assert_eq!(headers.get_all("Accept"), vec!["a".to_string(), "b".to_string(), "a".to_string()]);
    assert_eq!(headers.get_all("missing"), Vec::<String>::new());
}

#[test]
fn a_response_parts_into_head_and_body() {
    let mut headers = Headers::new();
    headers.append("a", "b");
    let response = Response { status: 201, headers: headers.clone(), body: Body::from_bytes(b"x".to_vec()) };
    let (parts, mut body) = response.into_parts();
    assert_eq!(parts, Parts { status: 201, headers });
    assert_eq!(body.collect(), b"x".to_vec());
}

#[test]
fn a_request_without_payload_has_no_content_type() {
    let mut request = plain_request(Method::Delete, "/pets/7".to_string());
    assert_eq!(request.method, Method::Delete);
    assert_eq!(request.uri, "/pets/7");
    assert_eq!(request.headers.len(), 0);
    assert!(request.body.is_end());
    assert_eq!(request.body.collect(), Vec::<u8>::new());
}

#[test]
fn a_request_with_payload_has_the_json_content_type() {
    let pet = Pet { name: "Fido".to_string(), age: 2, kind: PetKind::Dog };
    let mut request = json_request(Method::Post, "/pets".to_string(), &pet).unwrap();
    assert_eq!(request.method, Method::Post);
    assert_eq!(request.uri, "/pets");
    assert_eq!(request.headers.len(), 1);
    assert_eq!(request.headers.get_all("content-type"), vec!["application/json".to_string()]);
    assert_eq!(request.body.next_chunk(), Some(br#"{"name":"Fido","age":2,"kind":"dog"}"#.to_vec()));
    assert_eq!(request.body.next_chunk(), None);
}

#[test]
fn an_empty_result_is_sent_without_content() {
    let mut response = ().to_response::<()>().unwrap();
    assert_eq!(response.status, 204);
    assert_eq!(response.headers.len(), 0);
    assert!(response.body.is_end());
    assert_eq!(response.body.collect(), Vec::<u8>::new());
}

#[test]
fn a_list_is_sent_as_json() {
    let pets = vec![Pet { name: "Fido".to_string(), age: 2, kind: PetKind::Dog }];
    let mut response = pets.to_response::<()>().unwrap();
    assert_eq!(response.status, 200);
    assert_eq!(response.headers.len(), 1);
    assert_eq!(response.headers.get("content-type"), Some("application/json".to_string()));
    assert_eq!(response.body.next_chunk(), Some(br#"[{"name":"Fido","age":2,"kind":"dog"}]"#.to_vec()));
    assert_eq!(response.body.next_chunk(), None);
}

#[test]
fn a_pet_is_sent_as_json() {
    let pet = Pet { name: "Tom".to_string(), age: 5, kind: PetKind::Cat };
    let mut response = pet.to_response::<()>().unwrap();
    assert_eq!(response.status, 200);
    assert_eq!(response.headers.get("content-type"), Some("application/json".to_string()));
    assert_eq!(response.body.collect(), br#"{"name":"Tom","age":5,"kind":"cat"}"#.to_vec());
}

#[test]
fn an_outcome_is_sent_as_the_side_that_is_there() {
    let ok: Result<(), Vec<i32>> = Ok(());
    let response = ok.to_response::<()>().unwrap();
    assert_eq!(response.status, 204);
    let err: Result<(), Vec<i32>> = Err(vec![1, 2]);
    let mut response = err.to_response::<()>().unwrap();
    assert_eq!(response.status, 200);
    assert_eq!(response.body.collect(), b"[1,2]".to_vec());
}

#[test]
fn one_more_header_goes_behind_the_content_type() {
    let mut response = json_response::<Vec<i32>, ()>(200, Some(("x-bar", "foobar")), &vec![1]).unwrap();
    assert_eq!(response.headers.len(), 2);
    assert_eq!(response.headers.get("content-type"), Some("application/json".to_string()));
    assert_eq!(response.headers.get("x-bar"), Some("foobar".to_string()));
    assert_eq!(response.body.collect(), b"[1]".to_vec());
}

#[test]
fn a_failure_of_the_business_logic_is_handed_on_unchanged() {
    let outcome: Result<(), String> = Err("domain".to_string());
    match respond(outcome) {
        Err(ServerError::Operation(e)) => assert_eq!(e, "domain"),
        other => panic!("unexpected outcome: {:?}", other),
    }
    let outcome: Result<(), String> = Ok(());
    assert_eq!(respond(outcome).unwrap().status, 204);
}

#[test]
fn each_category_of_server_failure_has_its_words() {
    let json_error = tsp_rust::json::from_slice(b"{").unwrap_err();
    let other_json_error = tsp_rust::json::from_slice(b"{").unwrap_err();
    assert_eq!(ServerError::<()>::InvalidRequest.label(), "Invalid request");
    assert_eq!(ServerError::Operation(()).label(), "Operation error");
    assert_eq!(ServerError::<()>::Serialize(json_error).label(), "Serialize error");
    assert_eq!(ServerError::<()>::Deserialize(DecodeError::Mismatch).label(), "Deserialize error");
    assert_eq!(
        ServerError::<()>::Deserialize(DecodeError::Syntax(other_json_error)).label(),
        "Deserialize error"
    );
    assert_eq!(
        ServerError::<()>::Body(tsp_rust::error::BodyError { message: "cut".to_string() }).label(),
        "Body error"
    );
}

#[test]
fn the_empty_result_is_made_from_any_head() {
    let parts = Parts { status: 204, headers: Headers::new() };
    let unit: () = FromParts::from_parts(parts);
    assert_eq!(unit, ());
}

#[test]
fn a_value_without_json_text_is_not_sent() {
    let bad = tsp_rust::json::JsonValue::Array(vec![tsp_rust::json::JsonValue::Number("1e".to_string())]);
    assert!(json_request(Method::Post, "/pets".to_string(), &bad).is_err());
    match json_response::<tsp_rust::json::JsonValue, ()>(200, None, &bad) {
        Err(ServerError::Serialize(_)) => {}
        other => panic!("unexpected outcome: {:?}", other),
    }
    let good = tsp_rust::json::JsonValue::Array(vec![tsp_rust::json::JsonValue::Number("1e2".to_string())]);
    let mut request = json_request(Method::Post, "/pets".to_string(), &good).unwrap();
    assert_eq!(request.body.collect(), b"[100.0]".to_vec());
}
