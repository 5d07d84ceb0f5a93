use tsp_rust::message::Method;
use tsp_rust::path::{build_path, path_of, query_of, split_from, Segment};
use tsp_rust::router::{read_template, NotFound, RouteConflict, Router};

fn pets_router() -> Router {
    let mut router = Router::new();
    assert_eq!(router.register(Method::Get, "/pets"), Ok(0));
    assert_eq!(router.register(Method::Post, "/pets"), Ok(1));
    assert_eq!(router.register(Method::Post, "/pets/{id}"), Ok(2));
    assert_eq!(router.register(Method::Delete, "/pets/{id}"), Ok(3));
    router
}

#[test]
fn registration_hands_out_identifiers_in_order() {
    let router = pets_router();
    assert_eq!(router.len(), 4);
}

#[test]
fn each_route_resolves_to_its_own_operation() {
    let router = pets_router();
    assert_eq!(router.resolve(Method::Get, "/pets").unwrap().operation, 0);
    assert_eq!(router.resolve(Method::Post, "/pets").unwrap().operation, 1);
    assert_eq!(router.resolve(Method::Post, "/pets/Fido").unwrap().operation, 2);
    assert_eq!(router.resolve(Method::Delete, "/pets/Fido").unwrap().operation, 3);
}

#[test]
fn parameters_are_captured_by_name() {
    let router = pets_router();
    let found = router.resolve(Method::Delete, "/pets/Fido").unwrap();
    assert_eq!(found.params.len(), 1);
    assert_eq!(found.params.get("id"), Some("Fido".to_string()));
    assert_eq!(found.params.get("name"), None);
    let found = router.resolve(Method::Get, "/pets").unwrap();
    assert_eq!(found.params.len(), 0);
}

#[test]
fn captured_values_are_url_decoded() {
    let router = pets_router();
    let found = router.resolve(Method::Post, "/pets/a%20b%2Fc").unwrap();
    assert_eq!(found.params.get("id"), Some("a b/c".to_string()));
    let found = router.resolve(Method::Post, "/pets/caf%C3%A9").unwrap();
    assert_eq!(found.params.get("id"), Some("caf\u{e9}".to_string()));
    let found = router.resolve(Method::Post, "/pets/100%").unwrap();
    assert_eq!(found.params.get("id"), Some("100%".to_string()));
}

#[test]
fn a_value_that_is_not_utf8_is_not_captured() {
    let router = pets_router();
    assert_eq!(router.resolve(Method::Post, "/pets/%FF"), Err(NotFound));
}

#[test]
fn unknown_routes_are_not_found() {
    let router = pets_router();
    assert_eq!(router.resolve(Method::Get, "/dogs"), Err(NotFound));
    assert_eq!(router.resolve(Method::Put, "/pets"), Err(NotFound));
    assert_eq!(router.resolve(Method::Get, "/pets/Fido"), Err(NotFound));
    assert_eq!(router.resolve(Method::Delete, "/pets"), Err(NotFound));
    assert_eq!(router.resolve(Method::Get, "pets"), Err(NotFound));
    assert_eq!(router.resolve(Method::Get, ""), Err(NotFound));
}

#[test]
fn a_path_is_never_matched_in_part() {
    let router = pets_router();
    assert_eq!(router.resolve(Method::Post, "/pets/Fido/toys"), Err(NotFound));
    assert_eq!(router.resolve(Method::Get, "/pets/"), Err(NotFound));
    assert_eq!(router.resolve(Method::Post, "/pets/"), Err(NotFound));
    assert_eq!(router.resolve(Method::Get, "/pet"), Err(NotFound));
    assert_eq!(router.resolve(Method::Get, "/petss"), Err(NotFound));
    assert_eq!(router.resolve(Method::Get, "//pets"), Err(NotFound));
}

#[test]
fn literals_are_case_sensitive() {
    let router = pets_router();
    assert_eq!(router.resolve(Method::Get, "/Pets"), Err(NotFound));
    assert_eq!(router.resolve(Method::Get, "/PETS"), Err(NotFound));
}

#[test]
fn a_literal_goes_before_a_parameter() {
    let mut router = Router::new();
    let by_id = router.register(Method::Get, "/pets/{id}").unwrap();
    let newest = router.register(Method::Get, "/pets/new").unwrap();
    assert_eq!(router.resolve(Method::Get, "/pets/new").unwrap().operation, newest);
    assert_eq!(router.resolve(Method::Get, "/pets/old").unwrap().operation, by_id);

    let mut router = Router::new();
    let newest = router.register(Method::Get, "/pets/new").unwrap();
    let by_id = router.register(Method::Get, "/pets/{id}").unwrap();
    assert_eq!(router.resolve(Method::Get, "/pets/new").unwrap().operation, newest);
    assert_eq!(router.resolve(Method::Get, "/pets/old").unwrap().operation, by_id);
}

#[test]
fn the_first_segment_that_differs_decides() {
    let mut router = Router::new();
    let a = router.register(Method::Get, "/{kind}/new").unwrap();
    let b = router.register(Method::Get, "/pets/{id}").unwrap();
    let found = router.resolve(Method::Get, "/pets/new").unwrap();
    assert_eq!(found.operation, b);
    assert_eq!(found.params.get("id"), Some("new".to_string()));
    let found = router.resolve(Method::Get, "/dogs/new").unwrap();
    assert_eq!(found.operation, a);
    assert_eq!(found.params.get("kind"), Some("dogs".to_string()));
}

#[test]
fn a_route_that_fits_is_found_behind_one_that_does_not() {
    let mut router = Router::new();
    router.register(Method::Get, "/a/b").unwrap();
    let c = router.register(Method::Get, "/{x}/c").unwrap();
    let found = router.resolve(Method::Get, "/a/c").unwrap();
    assert_eq!(found.operation, c);
    assert_eq!(found.params.get("x"), Some("a".to_string()));
}

#[test]
fn resolution_does_not_depend_on_the_order_of_registration() {
    let templates = ["/pets", "/pets/{id}", "/pets/new", "/{kind}/new", "/pets/{id}/toys"];
    let paths = ["/pets", "/pets/7", "/pets/new", "/dogs/new", "/pets/7/toys", "/cats/7"];
    let mut forward = Router::new();
    for t in templates.iter() {
        forward.register(Method::Get, t).unwrap();
    }
    let mut backward = Router::new();
    for t in templates.iter().rev() {
        backward.register(Method::Get, t).unwrap();
    }
    for p in paths.iter() {
        let a = forward.resolve(Method::Get, p);
        let b = backward.resolve(Method::Get, p);
        match (a, b) {
            (Ok(a), Ok(b)) => {
                assert_eq!(a.operation, templates.len() - 1 - b.operation);
                assert_eq!(a.params, b.params);
            }
            (Err(_), Err(_)) => {}
            _ => panic!("the two routers disagree on {}", p),
        }
    }
}

#[test]
fn a_duplicate_is_refused() {
    let mut router = pets_router();
    assert_eq!(router.register(Method::Get, "/pets"), Err(RouteConflict::Duplicate));
    assert_eq!(router.register(Method::Post, "/pets/{name}"), Err(RouteConflict::Duplicate));
    assert_eq!(router.len(), 4);
    assert_eq!(router.register(Method::Put, "/pets/{name}"), Ok(4));
    assert_eq!(router.register(Method::Get, "/Pets"), Ok(5));
}

#[test]
fn a_text_that_is_no_template_is_refused() {
    let mut router = Router::new();
    for text in ["", "pets", "/pets/{id", "/pets/id}", "/pets/{}", "/pets/x{id}", "/{a}/{a}", "/{a{b}}"] {
        assert_eq!(router.register(Method::Get, text), Err(RouteConflict::InvalidTemplate));
    }
    assert_eq!(router.len(), 0);
}

#[test]
fn templates_are_read_segment_by_segment() {
    assert_eq!(
        read_template(b"/pets/{id}"),
        Some(vec![Segment::Literal(b"pets".to_vec()), Segment::Param("id".to_string())])
    );
    assert_eq!(read_template(b"/"), Some(vec![Segment::Literal(Vec::new())]));
    assert_eq!(
        read_template(b"/a//b"),
        Some(vec![
            Segment::Literal(b"a".to_vec()),
            Segment::Literal(Vec::new()),
            Segment::Literal(b"b".to_vec())
        ])
    );
    assert_eq!(read_template(b"a"), None);
}

#[test]
fn splitting_keeps_empty_pieces() {
    assert_eq!(split_from(b"a/b", 0, b'/'), vec![b"a".to_vec(), b"b".to_vec()]);
    assert_eq!(split_from(b"/a/", 0, b'/'), vec![Vec::new(), b"a".to_vec(), Vec::new()]);
    assert_eq!(split_from(b"", 0, b'/'), vec![Vec::<u8>::new()]);
    assert_eq!(split_from(b"/pets/7", 1, b'/'), vec![b"pets".to_vec(), b"7".to_vec()]);
}

#[test]
fn paths_are_built_from_template_and_arguments() {
    let template = read_template(b"/pets/{id}/toys/{toy}").unwrap();
    let args = vec!["a b".to_string(), "x/y".to_string()];
    assert_eq!(build_path(&template, &args), Some(b"/pets/a%20b/toys/x%2Fy".to_vec()));
    assert_eq!(build_path(&template, &vec!["a".to_string()]), None);
    assert_eq!(build_path(&template, &Vec::new()), None);
    let three = vec!["a".to_string(), "b".to_string(), "c".to_string()];
    assert_eq!(build_path(&template, &three), None);
}

#[test]
fn a_built_path_resolves_to_its_route_with_its_arguments() {
    let mut router = Router::new();
    router.register(Method::Get, "/pets").unwrap();
    let toys = router.register(Method::Get, "/pets/{id}/toys/{toy}").unwrap();
    let template = read_template(b"/pets/{id}/toys/{toy}").unwrap();
    for (id, toy) in [("7", "ball"), ("a b", "x/y"), ("{id}", "100%"), ("\u{1F436}", "?&=")] {
        let path = build_path(&template, &vec![id.to_string(), toy.to_string()]).unwrap();
        let found = router.resolve_bytes(Method::Get, &path).unwrap();
        assert_eq!(found.operation, toys);
        assert_eq!(found.params.get("id"), Some(id.to_string()));
        assert_eq!(found.params.get("toy"), Some(toy.to_string()));
    }
}

#[test]
fn the_query_is_not_part_of_the_path() {
    assert_eq!(path_of(b"/pets?x=1"), b"/pets".to_vec());
    assert_eq!(query_of(b"/pets?x=1"), Some(b"x=1".to_vec()));
    assert_eq!(path_of(b"/pets"), b"/pets".to_vec());
    assert_eq!(query_of(b"/pets"), None);
    assert_eq!(query_of(b"/pets?"), Some(Vec::new()));
    assert_eq!(path_of(b"/a?b?c"), b"/a".to_vec());
    assert_eq!(query_of(b"/a?b?c"), Some(b"b?c".to_vec()));
}
