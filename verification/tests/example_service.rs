use tsp_rust::body::Body;
use tsp_rust::error::{ClientError, DecodeError, ServerError};
use tsp_rust::example::{Example, FreestandingPathResponse, FreestandingResponse};
use tsp_rust::example_client;
use tsp_rust::main_service::{MainService, MainServiceRouter, FREESTANDING, FREESTANDING_PATH};
use tsp_rust::message::{Headers, Method, Request};
use tsp_rust::schema_sources::{import_target, is_absolute, is_source_import, relative_path};

fn request(method: Method, uri: &str, headers: &[(&str, &str)]) -> Request {
    let mut lines = Headers::new();
    for (name, value) in headers {
        lines.append(name, value);
    }
    Request { method, uri: uri.to_string(), headers: lines, body: Body::empty() }
}

#[test]
fn freestanding_appends_bar() {
    let mut service = MainService;
    assert_eq!(
        service.freestanding("foo"),
        Ok(FreestandingResponse { bar: "foobar".to_string(), example: vec![0, 1, 2, 3, 4, 5, 6, 7] })
    );
    assert_eq!(service.freestanding("").unwrap().bar, "bar");
}

#[test]
fn freestanding_path_joins_its_arguments() {
    let mut service = MainService;
    assert_eq!(
        service.freestanding_path("asdfasdf", "coolquery"),
        Ok(FreestandingPathResponse {
            composite: "asdfasdf-coolquery".to_string(),
            example: vec![0, 1, 2, 3, 4, 5, 6, 7]
        })
    );
    assert_eq!(service.freestanding_path("", "").unwrap().composite, "-");
}

#[test]
fn the_example_router_knows_both_operations() {
    let router = MainServiceRouter::new(MainService);
    assert_eq!(router.routes.len(), 2);
    assert_eq!(router.routes.resolve(Method::Get, "/freestanding").unwrap().operation, FREESTANDING);
    assert_eq!(
        router.routes.resolve(Method::Post, "/freestanding/7").unwrap().operation,
        FREESTANDING_PATH
    );
    assert!(router.routes.resolve(Method::Post, "/freestanding").is_err());
    assert!(router.routes.resolve(Method::Get, "/freestanding/7").is_err());
}

#[test]
fn freestanding_answers_in_header_and_body() {
    let mut router = MainServiceRouter::new(MainService);
    let mut response = router.dispatch(request(Method::Get, "/freestanding", &[("X-Foo", "foo")])).unwrap();
    assert_eq!(response.status, 200);
    assert_eq!(response.headers.len(), 2);
    assert_eq!(response.headers.get("content-type"), Some("application/json".to_string()));
    assert_eq!(response.headers.get("x-bar"), Some("foobar".to_string()));
    assert_eq!(response.body.collect(), b"[0,1,2,3,4,5,6,7]".to_vec());
}

#[test]
fn freestanding_needs_its_header() {
    let mut router = MainServiceRouter::new(MainService);
    match router.dispatch(request(Method::Get, "/freestanding", &[])) {
        Err(ServerError::InvalidRequest) => {}
        other => panic!("unexpected outcome: {:?}", other),
    }
}

#[test]
fn freestanding_path_answers_in_header_and_body() {
    let mut router = MainServiceRouter::new(MainService);
    let mut response =
        router.dispatch(request(Method::Post, "/freestanding/a%20b?x=1&q=cool%20query", &[])).unwrap();
    assert_eq!(response.status, 200);
    assert_eq!(response.headers.get("x-composite"), Some("a b-cool query".to_string()));
    assert_eq!(response.body.collect(), b"[0,1,2,3,4,5,6,7]".to_vec());
}

#[test]
fn freestanding_path_needs_its_query_argument() {
    let mut router = MainServiceRouter::new(MainService);
    for uri in ["/freestanding/7", "/freestanding/7?", "/freestanding/7?x=1", "/freestanding/7?Q=1"] {
        match router.dispatch(request(Method::Post, uri, &[])) {
            Err(ServerError::Deserialize(DecodeError::Mismatch)) => {}
            other => panic!("unexpected outcome: {:?}", other),
        }
    }
    match router.dispatch(request(Method::Post, "/freestanding/7?q=%FF", &[])) {
        Err(ServerError::InvalidRequest) => {}
        other => panic!("unexpected outcome: {:?}", other),
    }
}

#[test]
fn the_example_is_called_in_process() {
    let mut service = MainServiceRouter::new(MainService);
    let output = example_client::freestanding_path(&mut service, "asdfasdf", "coolquery").unwrap();
    assert_eq!(output.composite, "asdfasdf-coolquery");
    assert_eq!(output.example, vec![0, 1, 2, 3, 4, 5, 6, 7]);
    let output = example_client::freestanding_path(&mut service, "a/b", "x&y=z w").unwrap();
    assert_eq!(output.composite, "a/b-x&y=z w");
    let output = example_client::freestanding(&mut service, "foo").unwrap();
    assert_eq!(output.bar, "foobar");
    assert_eq!(output.example, vec![0, 1, 2, 3, 4, 5, 6, 7]);
}

#[test]
fn an_empty_id_leads_nowhere() {
    let mut service = MainServiceRouter::new(MainService);
    match example_client::freestanding_path(&mut service, "", "q") {
        Err(ClientError::Service(ServerError::InvalidRequest)) => {}
        other => panic!("unexpected outcome: {:?}", other),
    }
}

#[test]
fn an_import_is_the_text_between_the_outer_quotes() {
    assert_eq!(import_target("import \"./pets.tsp\";"), Some("./pets.tsp".to_string()));
    assert_eq!(import_target("import\"@typespec/http\" ;"), Some("@typespec/http".to_string()));
    assert_eq!(import_target("import \"a\\\"b.tsp\";"), Some("a\\\"b.tsp".to_string()));
    assert_eq!(import_target("import \"\";"), Some("".to_string()));
    assert_eq!(import_target("import \"x\" \"y\";"), Some("x\" \"y".to_string()));
}

#[test]
fn other_lines_import_nothing() {
    assert_eq!(import_target("model Pet {}"), None);
    assert_eq!(import_target(" import \"./pets.tsp\";"), None);
    assert_eq!(import_target("using \"./pets.tsp\";"), None);
    assert_eq!(import_target("import ./pets.tsp;"), None);
    assert_eq!(import_target("import \"./pets.tsp;"), None);
    assert_eq!(import_target("impor"), None);
    assert_eq!(import_target(""), None);
}

#[test]
fn only_paths_to_schema_sources_are_followed() {
    assert!(is_source_import("./pets.tsp"));
    assert!(is_source_import("../common/main.tsp"));
    assert!(is_source_import("/abs/main.tsp"));
    assert!(!is_source_import("@typespec/http"));
    assert!(!is_source_import("pets.tsp"));
    assert!(!is_source_import("./pets.ts"));
    assert!(!is_source_import(""));
    assert!(is_source_import(".tsp"));
    assert!(is_absolute("/abs/main.tsp"));
    assert!(!is_absolute("./pets.tsp"));
    assert!(!is_absolute(""));
}

fn parts(list: &[&str]) -> Vec<String> {
    list.iter().map(|s| s.to_string()).collect()
}

#[test]
fn a_file_is_named_from_a_directory() {
    assert_eq!(relative_path(&parts(&["/", "a", "b"]), &parts(&["/", "a", "b", "main.tsp"])), "main.tsp");
    assert_eq!(relative_path(&parts(&["/", "a", "b"]), &parts(&["/", "a", "c", "main.tsp"])), "../c/main.tsp");
    assert_eq!(relative_path(&parts(&["/", "a", "b"]), &parts(&["/", "x", "y.tsp"])), "../../x/y.tsp");
    assert_eq!(relative_path(&parts(&["/", "a"]), &parts(&["/", "a"])), "");
    assert_eq!(relative_path(&parts(&["/", "a", "b"]), &parts(&["/", "a"])), "../");
    assert_eq!(relative_path(&parts(&[]), &parts(&["a", "b"])), "a/b");
    assert_eq!(relative_path(&parts(&["a", "b"]), &parts(&[])), "../../");
}
