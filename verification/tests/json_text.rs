use tsp_rust::json::{from_slice, to_vec, JsonValue, Member};

fn member(key: &str, value: JsonValue) -> Member {
    Member { key: key.to_string(), value }
}

#[test]
fn object_members_keep_their_order() {
    let doc = JsonValue::Object(vec![
        member("name", JsonValue::String("Fido".to_string())),
        member("age", JsonValue::Integer(2)),
        member("kind", JsonValue::String("dog".to_string())),
    ]);
    let bytes = to_vec(&doc).unwrap();
    assert_eq!(bytes, br#"{"name":"Fido","age":2,"kind":"dog"}"#.to_vec());
}

#[test]
fn text_is_read_back() {
    let doc = from_slice(br#"[1, "a", null, true, 1.5]"#).unwrap();
    match doc {
        JsonValue::Array(items) => {
            assert_eq!(items.len(), 5);
            assert!(matches!(items[0], JsonValue::Integer(1)));
            assert!(matches!(&items[1], JsonValue::String(s) if s == "a"));
            assert!(matches!(items[2], JsonValue::Null));
            assert!(matches!(items[3], JsonValue::Bool(true)));
            assert!(matches!(&items[4], JsonValue::Number(t) if t == "1.5"));
        }
        _ => panic!("not an array"),
    }
}
