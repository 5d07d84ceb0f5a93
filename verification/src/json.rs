//! The wire representation of typed values, and its JSON text.

use serde_json::Value;
use crate::text::str_equal;
use vstd::prelude::*;

verus! {

/// A JSON document as a mathematical value.
pub enum Json {
    Null,
    Bool(bool),
    /// A number that is a 64-bit signed integer.
    Integer(int),
    /// Any other number, by its JSON text.
    Number(Seq<char>),
    String(Seq<char>),
    Array(Seq<Json>),
    /// The members in the order in which they are written.
    Object(Seq<(Seq<char>, Json)>),
}

/// A JSON document.
#[derive(Debug)]
pub enum JsonValue {
    Null,
    Bool(bool),
    /// A number that is a 64-bit signed integer.
    Integer(i64),
    /// Any other number, by its JSON text.
    Number(String),
    String(String),
    Array(Vec<JsonValue>),
    /// The members in the order in which they are written.
    Object(Vec<Member>),
}

/// One member of a JSON object.
#[derive(Debug)]
pub struct Member {
    pub key: String,
    pub value: JsonValue,
}

/// The document that a value holds.
pub open spec fn document(value: JsonValue) -> Json
    decreases value,
{
    match value {
        JsonValue::Null => Json::Null,
        JsonValue::Bool(b) => Json::Bool(b),
        JsonValue::Integer(i) => Json::Integer(i as int),
        JsonValue::Number(text) => Json::Number(text@),
        JsonValue::String(s) => Json::String(s@),
        JsonValue::Array(items) => Json::Array(
            Seq::new(
                items@.len(),
                |i: int|
                    if 0 <= i < items@.len() {
                        document(items@[i])
                    } else {
                        Json::Null
                    },
            ),
        ),
        JsonValue::Object(members) => Json::Object(
            Seq::new(
                members@.len(),
                |i: int|
                    if 0 <= i < members@.len() {
                        (members@[i].key@, document(members@[i].value))
                    } else {
                        (Seq::empty(), Json::Null)
                    },
            ),
        ),
    }
}

impl View for JsonValue {
    type V = Json;

    open spec fn view(&self) -> Json {
        document(*self)
    }
}

/// The value of the first member with the given key.
pub open spec fn member(members: Seq<(Seq<char>, Json)>, key: Seq<char>) -> Option<Json>
    decreases members.len(),
{
    if members.len() == 0 {
        None
    } else if members[0].0 == key {
        Some(members[0].1)
    } else {
        member(members.skip(1), key)
    }
}

impl Json {
    /// The value of the first member with the given key, where the document
    /// is an object that has one.
    pub open spec fn field(self, key: Seq<char>) -> Option<Json> {
        match self {
            Json::Object(members) => member(members, key),
            _ => None,
        }
    }
}

impl DeepView for JsonValue {
    type V = Json;

    open spec fn deep_view(&self) -> Json {
        document(*self)
    }
}

impl Clone for JsonValue {
    fn clone(&self) -> (copy: JsonValue)
        ensures
            copy@ == self@,
        decreases self,
    {
        match self {
            JsonValue::Null => JsonValue::Null,
            JsonValue::Bool(b) => JsonValue::Bool(*b),
            JsonValue::Integer(i) => JsonValue::Integer(*i),
            JsonValue::Number(text) => JsonValue::Number(text.clone()),
            JsonValue::String(s) => JsonValue::String(s.clone()),
            JsonValue::Array(items) => {
                let mut copies: Vec<JsonValue> = Vec::new();
                let mut i: usize = 0;
                while i < items.len()
                    invariant
                        0 <= i <= items.len(),
                        *self == JsonValue::Array(*items),
                        copies@.len() == i,
                        forall|j: int| 0 <= j < i ==> (#[trigger] copies@[j])@ == items@[j]@,
                    decreases items.len() - i,
                {
                    proof {
                        vstd::std_specs::vec::axiom_vec_index_decreases(*items, i as int);
                        assert(self->Array_0 == *items);
                        assert(decreases_to!(*self => self->Array_0));
                    }
                    copies.push(items[i].clone());
                    i += 1;
                }
                let copy = JsonValue::Array(copies);
                assert(copy@->Array_0 =~= self@->Array_0);
                copy
            },
            JsonValue::Object(members) => {
                let mut copies: Vec<Member> = Vec::new();
                let mut i: usize = 0;
                while i < members.len()
                    invariant
                        0 <= i <= members.len(),
                        *self == JsonValue::Object(*members),
                        copies@.len() == i,
                        forall|j: int|
                            0 <= j < i ==> (#[trigger] copies@[j]).key@ == members@[j].key@
                                && copies@[j].value@ == members@[j].value@,
                    decreases members.len() - i,
                {
                    proof {
                        vstd::std_specs::vec::axiom_vec_index_decreases(*members, i as int);
                        assert(self->Object_0 == *members);
                        assert(decreases_to!(*self => self->Object_0));
                        assert(decreases_to!(members@[i as int] => members@[i as int].value));
                    }
                    copies.push(
                        Member { key: members[i].key.clone(), value: members[i].value.clone() },
                    );
                    i += 1;
                }
                let copy = JsonValue::Object(copies);
                assert(copy@->Object_0 =~= self@->Object_0);
                copy
            },
        }
    }
}

impl JsonValue {
    /// The value of the first member with the given key, where the document
    /// is an object that has one.
    pub fn get(&self, key: &str) -> (value: Option<&JsonValue>)
        ensures
            match value {
                Some(v) => self@.field(key@) == Some(v@),
                None => self@.field(key@) is None,
            },
    {
        match self {
            JsonValue::Object(members) => {
                let ghost all = self@->Object_0;
                let mut i: usize = 0;
                assert(all.skip(0) =~= all);
                while i < members.len()
                    invariant
                        0 <= i <= members.len(),
                        self@ == Json::Object(all),
                        all.len() == members@.len(),
                        forall|j: int|
                            0 <= j < all.len() ==> #[trigger] all[j] == (
                                members@[j].key@,
                                members@[j].value@,
                            ),
                        member(all.skip(i as int), key@) == member(all, key@),
                    decreases members.len() - i,
                {
                    let ghost rest = all.skip(i as int);
                    assert(rest[0] == all[i as int]);
                    assert(rest.skip(1) =~= all.skip(i + 1));
                    if str_equal(members[i].key.as_str(), key) {
                        return Some(&members[i].value);
                    }
                    i += 1;
                }
                None
            },
            _ => None,
        }
    }
}

/// The error type of the `serde_json` crate.
#[verifier::external_type_specification]
#[verifier::external_body]
pub struct ExSyntaxError(serde_json::Error);

/// The document type of the `serde_json` crate.
#[verifier::external_type_specification]
#[verifier::external_body]
pub struct ExOutsideValue(serde_json::Value);

/// The `serde_json::Value` that stands for a document, or `None` where the
/// text of one of its numbers is not a JSON number.
pub uninterp spec fn value_of(doc: Json) -> Option<serde_json::Value>;

/// The document that a `serde_json::Value` stands for.
pub uninterp spec fn json_of(value: serde_json::Value) -> Json;

/// The bytes that `serde_json::to_vec` writes for a value, or `None` where
/// it fails.
pub uninterp spec fn written(value: serde_json::Value) -> Option<Seq<u8>>;

/// The value that `serde_json::from_slice` reads from a text, or `None`
/// where it fails.
pub uninterp spec fn parsed(text: Seq<u8>) -> Option<serde_json::Value>;

/// Converts a document into a `serde_json::Value`, variant by variant. An
/// integer becomes a number through `From<i64>`, the text of another number
/// is read by `Number::from_str`, whose error is handed on. The result
/// depends on the document alone; the contract gives it the name `value_of`.
#[verifier::external_body]
fn to_outside(doc: &JsonValue) -> (r: Result<Value, serde_json::Error>)
    ensures
        match r {
            Ok(v) => value_of(doc@) == Some(v),
            Err(_) => value_of(doc@) is None,
        },
{
    Ok(match doc {
        JsonValue::Null => Value::Null,
        JsonValue::Bool(b) => Value::Bool(*b),
        JsonValue::Integer(i) => Value::Number((*i).into()),
        JsonValue::Number(text) => Value::Number(text.parse()?),
        JsonValue::String(s) => Value::String(s.clone()),
        JsonValue::Array(items) => Value::Array(
            items.iter().map(to_outside).collect::<Result<_, _>>()?),
        JsonValue::Object(members) => Value::Object(
            members.iter().map(|m| Ok((m.key.clone(), to_outside(&m.value)?)))
                .collect::<Result<_, serde_json::Error>>()?),
    })
}

/// Converts a `serde_json::Value` into a document, variant by variant. A
/// number for which `Number::as_i64` gives an integer becomes that integer,
/// any other number its text as `Display` writes it. The result depends on
/// the value alone; the contract gives it the name `json_of`.
#[verifier::external_body]
fn from_outside(value: Value) -> (doc: JsonValue)
    ensures
        doc@ == json_of(value),
{
    match value {
        Value::Null => JsonValue::Null,
        Value::Bool(b) => JsonValue::Bool(b),
        Value::Number(n) => match n.as_i64() {
            Some(i) => JsonValue::Integer(i),
            None => JsonValue::Number(n.to_string()),
        },
        Value::String(s) => JsonValue::String(s),
        Value::Array(items) => JsonValue::Array(
            items.into_iter().map(from_outside).collect()),
        Value::Object(members) => JsonValue::Object(
            members.into_iter().map(|m| Member { key: m.0, value: from_outside(m.1) }).collect()),
    }
}

/// Calls `serde_json::to_vec` on a value. What it writes depends on the value
/// alone; the contract gives it the name `written`.
#[verifier::external_body]
fn write_value(value: &serde_json::Value) -> (r: Result<Vec<u8>, serde_json::Error>)
    ensures
        match r {
            Ok(bytes) => written(*value) == Some(bytes@),
            Err(_) => written(*value) is None,
        },
{
    serde_json::to_vec(value)
}

/// Calls `serde_json::from_slice` for a `serde_json::Value`. What it reads
/// depends on the text alone; the contract gives it the name `parsed`.
#[verifier::external_body]
fn read_value(text: &[u8]) -> (r: Result<serde_json::Value, serde_json::Error>)
    ensures
        match r {
            Ok(value) => parsed(text@) == Some(value),
            Err(_) => parsed(text@) is None,
        },
{
    serde_json::from_slice::<Value>(text)
}

/// The JSON text of a document, or `None` where it has none.
pub open spec fn json_text(doc: Json) -> Option<Seq<u8>> {
    match value_of(doc) {
        Some(value) => written(value),
        None => None,
    }
}

/// The document that a JSON text denotes, or `None` where the bytes are not
/// a JSON text.
pub open spec fn json_parse(text: Seq<u8>) -> Option<Json> {
    match parsed(text) {
        Some(value) => Some(json_of(value)),
        None => None,
    }
}

/// Writes a document as JSON text.
pub fn to_vec(doc: &JsonValue) -> (r: Result<Vec<u8>, serde_json::Error>)
    ensures
        match r {
            Ok(bytes) => json_text(doc@) == Some(bytes@),
            Err(_) => json_text(doc@) is None,
        },
{
    match to_outside(doc) {
        Ok(value) => write_value(&value),
        Err(e) => Err(e),
    }
}

/// Reads a document from JSON text.
pub fn from_slice(text: &[u8]) -> (r: Result<JsonValue, serde_json::Error>)
    ensures
        match r {
            Ok(doc) => json_parse(text@) == Some(doc@),
            Err(_) => json_parse(text@) is None,
        },
{
    match read_value(text) {
        Ok(value) => Ok(from_outside(value)),
        Err(e) => Err(e),
    }
}

} // verus!

