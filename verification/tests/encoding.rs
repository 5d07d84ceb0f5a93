use tsp_rust::body::Body;
use tsp_rust::marshal::{deserialize_body, serialize_json_body};
use tsp_rust::error::{ClientError, DecodeError};
use tsp_rust::json::{from_slice, to_vec, JsonValue, Member};
use tsp_rust::null_variant;
use tsp_rust::percent::{decode, encode};
use tsp_rust::pet_store::{Pet, PetKind};
use tsp_rust::query::{read_query, write_query, QueryParams};
use tsp_rust::wire::Wire;

fn pet(name: &str, age: i32, kind: PetKind) -> Pet {
    Pet { name: name.to_string(), age, kind }
}

#[test]
fn unreserved_bytes_are_written_as_they_are() {
    assert_eq!(encode(b"AZaz09-._~"), b"AZaz09-._~".to_vec());
}

#[test]
fn other_bytes_are_written_as_upper_case_escapes() {
    assert_eq!(encode(b"a b/c"), b"a%20b%2Fc".to_vec());
    assert_eq!(encode(&[0x00, 0x0f, 0xff, b'%']), b"%00%0F%FF%25".to_vec());
    assert_eq!(encode("\u{e9}".as_bytes()), b"%C3%A9".to_vec());
    assert_eq!(encode(b""), Vec::<u8>::new());
}

#[test]
fn escapes_of_either_case_are_decoded() {
    assert_eq!(decode(b"a%20b%2fc%2F"), b"a b/c/".to_vec());
    assert_eq!(decode(b"%c3%A9"), "\u{e9}".as_bytes().to_vec());
}

#[test]
fn a_percent_sign_without_two_digits_stands_for_itself() {
    assert_eq!(decode(b"100%"), b"100%".to_vec());
    assert_eq!(decode(b"%4"), b"%4".to_vec());
    assert_eq!(decode(b"%zz%41"), b"%zzA".to_vec());
    assert_eq!(decode(b"%%41"), b"%A".to_vec());
}

#[test]
fn decoding_undoes_encoding_for_every_byte() {
    let all: Vec<u8> = (0..=255u8).collect();
    assert_eq!(decode(&encode(&all)), all);
}

#[test]
fn a_pet_is_an_object_with_three_members() {
    let doc = pet("Fido", 2, PetKind::Dog).to_json();
    assert_eq!(to_vec(&doc).unwrap(), br#"{"name":"Fido","age":2,"kind":"dog"}"#.to_vec());
}

#[test]
fn a_kind_is_its_bare_tag() {
    assert_eq!(to_vec(&PetKind::Dog.to_json()).unwrap(), br#""dog""#.to_vec());
    assert_eq!(to_vec(&PetKind::Cat.to_json()).unwrap(), br#""cat""#.to_vec());
    assert_eq!(to_vec(&PetKind::Fish.to_json()).unwrap(), br#""fish""#.to_vec());
    assert_eq!(PetKind::from_json(&from_slice(br#""cat""#).unwrap()), Some(PetKind::Cat));
    assert_eq!(PetKind::from_json(&from_slice(br#""Cat""#).unwrap()), None);
    assert_eq!(PetKind::from_json(&from_slice(br#"{"cat":null}"#).unwrap()), None);
    assert_eq!(PetKind::from_json(&from_slice(b"null").unwrap()), None);
}

#[test]
fn decoding_undoes_encoding_for_pets() {
    for p in [
        pet("Fido", 2, PetKind::Dog),
        pet("", 0, PetKind::Cat),
        pet("a \"quoted\" \\ name\n\u{1F436}", i32::MAX, PetKind::Fish),
        pet("kind", i32::MIN, PetKind::Dog),
    ] {
        assert_eq!(Pet::from_json(&p.to_json()), Some(p.clone()));
        let text = to_vec(&p.to_json()).unwrap();
        assert_eq!(Pet::from_json(&from_slice(&text).unwrap()), Some(p));
    }
}

#[test]
fn decoding_undoes_encoding_for_lists() {
    let pets = vec![pet("Fido", 2, PetKind::Dog), pet("Tom", 5, PetKind::Cat)];
    assert_eq!(Vec::<Pet>::from_json(&pets.to_json()), Some(pets.clone()));
    let text = to_vec(&pets.to_json()).unwrap();
    assert_eq!(
        text,
        br#"[{"name":"Fido","age":2,"kind":"dog"},{"name":"Tom","age":5,"kind":"cat"}]"#.to_vec()
    );
    assert_eq!(Vec::<Pet>::from_json(&from_slice(&text).unwrap()), Some(pets));
    let none: Vec<Pet> = Vec::new();
    assert_eq!(to_vec(&none.to_json()).unwrap(), b"[]".to_vec());
}

#[test]
fn a_pet_is_decoded_whatever_the_order_of_its_members() {
    let doc = from_slice(br#"{"kind":"fish","extra":[1,2],"age":7,"name":"Wanda"}"#).unwrap();
    assert_eq!(Pet::from_json(&doc), Some(pet("Wanda", 7, PetKind::Fish)));
}

#[test]
fn a_document_of_another_shape_is_no_pet() {
    for text in [
        &br#"{"name":"Fido","age":2}"#[..],
        br#"{"name":"Fido","age":"2","kind":"dog"}"#,
        br#"{"name":"Fido","age":2.5,"kind":"dog"}"#,
        br#"{"name":"Fido","age":2147483648,"kind":"dog"}"#,
        br#"{"name":"Fido","age":-2147483649,"kind":"dog"}"#,
        br#"{"name":"Fido","age":2,"kind":"bird"}"#,
        br#"{"name":null,"age":2,"kind":"dog"}"#,
        br#"["Fido",2,"dog"]"#,
        br#""Fido""#,
        b"null",
    ] {
        assert_eq!(Pet::from_json(&from_slice(text).unwrap()), None);
    }
}

#[test]
fn integers_keep_their_value_at_the_limits_of_the_type() {
    assert_eq!(i32::from_json(&from_slice(b"2147483647").unwrap()), Some(i32::MAX));
    assert_eq!(i32::from_json(&from_slice(b"-2147483648").unwrap()), Some(i32::MIN));
    assert_eq!(i32::from_json(&from_slice(b"2147483648").unwrap()), None);
    assert_eq!(i32::from_json(&from_slice(b"1e2").unwrap()), None);
    assert_eq!(to_vec(&(-5i32).to_json()).unwrap(), b"-5".to_vec());
}

#[test]
fn numbers_that_are_no_small_integers_are_kept_by_their_text() {
    assert!(matches!(from_slice(b"18446744073709551615").unwrap(), JsonValue::Number(t) if t == "18446744073709551615"));
    assert!(matches!(from_slice(b"1.5").unwrap(), JsonValue::Number(t) if t == "1.5"));
    assert!(matches!(from_slice(b"-9223372036854775808").unwrap(), JsonValue::Integer(i64::MIN)));
    assert_eq!(to_vec(&JsonValue::Number("1.5".to_string())).unwrap(), b"1.5".to_vec());
    assert_eq!(
        to_vec(&JsonValue::Number("18446744073709551615".to_string())).unwrap(),
        b"18446744073709551615".to_vec()
    );
    assert!(to_vec(&JsonValue::Number("one".to_string())).is_err());
    assert!(to_vec(&JsonValue::Array(vec![JsonValue::Number("".to_string())])).is_err());
}

#[test]
fn text_that_is_not_json_is_refused() {
    assert!(from_slice(b"").is_err());
    assert!(from_slice(b"{").is_err());
    assert!(from_slice(b"[1,]").is_err());
    assert!(from_slice(b"nul").is_err());
    assert!(from_slice(b"1 2").is_err());
}

#[test]
fn strings_are_escaped_in_json_text() {
    let doc = JsonValue::String("a\"b\\c\n".to_string());
    assert_eq!(to_vec(&doc).unwrap(), br#""a\"b\\c\n""#.to_vec());
    assert!(matches!(from_slice("\"\u{e9}\"".as_bytes()).unwrap(), JsonValue::String(s) if s == "\u{e9}"));
}

#[test]
fn the_first_member_with_a_key_is_the_one_that_is_read() {
    let doc = JsonValue::Object(vec![
        Member { key: "a".to_string(), value: JsonValue::Integer(1) },
        Member { key: "b".to_string(), value: JsonValue::Null },
        Member { key: "a".to_string(), value: JsonValue::Integer(2) },
    ]);
    assert!(matches!(doc.get("a"), Some(JsonValue::Integer(1))));
    assert!(matches!(doc.get("b"), Some(JsonValue::Null)));
    assert!(doc.get("c").is_none());
    assert!(JsonValue::Array(Vec::new()).get("a").is_none());
}

#[test]
fn the_empty_value_is_null() {
    assert_eq!(to_vec(&null_variant::serialize()).unwrap(), b"null".to_vec());
    assert!(null_variant::deserialize(&from_slice(b"null").unwrap()).is_ok());
    assert!(matches!(
        null_variant::deserialize(&from_slice(b"0").unwrap()),
        Err(DecodeError::Mismatch)
    ));
    assert!(matches!(
        null_variant::deserialize(&from_slice(br#""null""#).unwrap()),
        Err(DecodeError::Mismatch)
    ));
    assert_eq!(to_vec(&().to_json()).unwrap(), b"null".to_vec());
    assert_eq!(<()>::from_json(&JsonValue::Null), Some(()));
    assert_eq!(<()>::from_json(&JsonValue::Bool(false)), None);
}

#[test]
fn a_payload_is_a_body_of_one_chunk() {
    let mut body = serialize_json_body(&pet("Fido", 2, PetKind::Dog)).unwrap();
    assert_eq!(body.next_chunk(), Some(br#"{"name":"Fido","age":2,"kind":"dog"}"#.to_vec()));
    assert_eq!(body.next_chunk(), None);
}

#[test]
fn a_payload_is_read_from_all_chunks_of_a_body() {
    let mut body = Body::empty();
    body.push_chunk(br#"{"name":"Fi"#.to_vec());
    body.push_chunk(Vec::new());
    body.push_chunk(br#"do","age":2,"kind":"dog"}"#.to_vec());
    let read: Result<Pet, ClientError<(), ()>> = deserialize_body(body);
    assert_eq!(read.unwrap(), pet("Fido", 2, PetKind::Dog));
    let read: Result<Pet, ClientError<(), ()>> = deserialize_body(Body::empty());
    assert!(matches!(read, Err(ClientError::Deserialize(DecodeError::Syntax(_)))));
}

fn pairs(list: &[(&str, &str)]) -> QueryParams {
    let mut params = QueryParams::new();
    for (k, v) in list {
        params.push(k.to_string(), v.to_string());
    }
    params
}

#[test]
fn a_query_is_written_pair_by_pair() {
    assert_eq!(write_query(&pairs(&[])), Vec::<u8>::new());
    assert_eq!(write_query(&pairs(&[("q", "cool query")])), b"q=cool%20query".to_vec());
    assert_eq!(
        write_query(&pairs(&[("a", "1"), ("b", "x&y=z"), ("c", "")])),
        b"a=1&b=x%26y%3Dz&c=".to_vec()
    );
}

#[test]
fn a_query_is_read_pair_by_pair() {
    assert_eq!(read_query(b""), Some(pairs(&[])));
    assert_eq!(read_query(b"q=cool%20query"), Some(pairs(&[("q", "cool query")])));
    assert_eq!(read_query(b"a=1&&b=2&"), Some(pairs(&[("a", "1"), ("b", "2")])));
    assert_eq!(read_query(b"flag&x=a=b"), Some(pairs(&[("flag", ""), ("x", "a=b")])));
    assert_eq!(read_query(b"=v"), Some(pairs(&[("", "v")])));
    assert_eq!(read_query(b"a=%FF"), None);
    assert_eq!(read_query(b"%FF=a&b=1"), None);
}

#[test]
fn reading_undoes_writing_for_queries() {
    let all = pairs(&[("q", "a b"), ("q", "second"), ("k&=", "?/#%"), ("", ""), ("\u{e9}", "\u{1F436}")]);
    assert_eq!(read_query(&write_query(&all)), Some(all));
}
