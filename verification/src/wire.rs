//! Typed values and the documents that stand for them on the wire.

use crate::json::{Json, JsonValue};
use vstd::prelude::*;

verus! {

/// A type whose values are sent as JSON documents.
pub trait Wire: Sized + DeepView {
    /// The document that stands for a value.
    spec fn encoding(value: Self::V) -> Json;

    /// The value that a document stands for, or `None` where it stands for
    /// none of this type.
    spec fn decoding(doc: Json) -> Option<Self::V>;

    /// Encodes a value.
    fn to_json(&self) -> (doc: JsonValue)
        ensures
            doc@ == Self::encoding(self.deep_view()),
    ;

    /// Decodes a document.
    fn from_json(doc: &JsonValue) -> (value: Option<Self>)
        ensures
            match value {
                Some(v) => Self::decoding(doc@) == Some(v.deep_view()),
                None => Self::decoding(doc@) is None,
            },
    ;

    /// Decoding undoes encoding.
    proof fn lemma_round_trip(value: Self::V)
        ensures
            Self::decoding(Self::encoding(value)) == Some(value),
    ;
}

/// A document is sent as it is.
impl Wire for JsonValue {
    open spec fn encoding(value: Json) -> Json {
        value
    }

    open spec fn decoding(doc: Json) -> Option<Json> {
        Some(doc)
    }

    fn to_json(&self) -> (doc: JsonValue) {
        self.clone()
    }

    fn from_json(doc: &JsonValue) -> (value: Option<JsonValue>) {
        Some(doc.clone())
    }

    proof fn lemma_round_trip(value: Json) {
    }
}

/// The empty value is sent as `null`.
impl Wire for () {
    open spec fn encoding(value: ()) -> Json {
        Json::Null
    }

    open spec fn decoding(doc: Json) -> Option<()> {
        if doc is Null {
            Some(())
        } else {
            None
        }
    }

    fn to_json(&self) -> (doc: JsonValue) {
        JsonValue::Null
    }

    fn from_json(doc: &JsonValue) -> (value: Option<()>) {
        match doc {
            JsonValue::Null => Some(()),
            _ => None,
        }
    }

    proof fn lemma_round_trip(value: ()) {
    }
}

/// A string is sent as a JSON string.
impl Wire for String {
    open spec fn encoding(value: Seq<char>) -> Json {
        Json::String(value)
    }

    open spec fn decoding(doc: Json) -> Option<Seq<char>> {
        match doc {
            Json::String(s) => Some(s),
            _ => None,
        }
    }

    fn to_json(&self) -> (doc: JsonValue) {
        JsonValue::String(self.clone())
    }

    fn from_json(doc: &JsonValue) -> (value: Option<String>) {
        match doc {
            JsonValue::String(s) => Some(s.clone()),
            _ => None,
        }
    }

    proof fn lemma_round_trip(value: Seq<char>) {
    }
}

/// A 32-bit integer is sent as a JSON number without fraction or exponent.
impl Wire for i32 {
    open spec fn encoding(value: i32) -> Json {
        Json::Integer(value as int)
    }

    open spec fn decoding(doc: Json) -> Option<i32> {
        match doc {
            Json::Integer(i) => if i32::MIN <= i <= i32::MAX {
                Some(i as i32)
            } else {
                None
            },
            _ => None,
        }
    }

    fn to_json(&self) -> (doc: JsonValue) {
        JsonValue::Integer(*self as i64)
    }

    fn from_json(doc: &JsonValue) -> (value: Option<i32>) {
        match doc {
            JsonValue::Integer(i) => {
                if -2147483648 <= *i && *i <= 2147483647 {
                    Some(*i as i32)
                } else {
                    None
                }
            },
            _ => None,
        }
    }

    proof fn lemma_round_trip(value: i32) {
    }
}

/// A list is sent as a JSON array of its items.
impl<T: Wire> Wire for Vec<T> {
    open spec fn encoding(value: Seq<T::V>) -> Json {
        Json::Array(Seq::new(value.len(), |i: int| T::encoding(value[i])))
    }

    open spec fn decoding(doc: Json) -> Option<Seq<T::V>> {
        match doc {
            Json::Array(items) => if forall|i: int|
                0 <= i < items.len() ==> (#[trigger] T::decoding(items[i])) is Some {
                Some(Seq::new(items.len(), |i: int| T::decoding(items[i])->0))
            } else {
                None
            },
            _ => None,
        }
    }

    fn to_json(&self) -> (doc: JsonValue) {
        let mut items: Vec<JsonValue> = Vec::new();
        let mut i: usize = 0;
        while i < self.len()
            invariant
                0 <= i <= self.len(),
                items@.len() == i,
                forall|j: int|
                    0 <= j < i ==> (#[trigger] items@[j])@ == T::encoding(self@[j].deep_view()),
            decreases self.len() - i,
        {
            items.push(self[i].to_json());
            i += 1;
        }
        let doc = JsonValue::Array(items);
        assert(doc@->Array_0 =~= Self::encoding(self.deep_view())->Array_0);
        doc
    }

    fn from_json(doc: &JsonValue) -> (value: Option<Vec<T>>) {
        match doc {
            JsonValue::Array(items) => {
                let ghost all = doc@->Array_0;
                let mut values: Vec<T> = Vec::new();
                let mut i: usize = 0;
                while i < items.len()
                    invariant
                        0 <= i <= items.len(),
                        doc@ == Json::Array(all),
                        all.len() == items@.len(),
                        forall|j: int| 0 <= j < all.len() ==> all[j] == (#[trigger] items@[j])@,
                        values@.len() == i,
                        forall|j: int|
                            0 <= j < i ==> (#[trigger] T::decoding(all[j])) == Some(
                                values@[j].deep_view(),
                            ),
                    decreases items.len() - i,
                {
                    assert(all[i as int] == items@[i as int]@);
                    match T::from_json(&items[i]) {
                        Some(v) => {
                            values.push(v);
                        },
                        None => {
                            assert(T::decoding(all[i as int]) is None);
                            return None;
                        },
                    }
                    i += 1;
                }
                assert(Self::decoding(doc@)->0 =~= values.deep_view()) by {
                    assert forall|j: int| 0 <= j < all.len() implies T::decoding(all[j])->0
                        == values.deep_view()[j] by {
                        assert(T::decoding(all[j]) == Some(values@[j].deep_view()));
                    }
                }
                Some(values)
            },
            _ => None,
        }
    }

    proof fn lemma_round_trip(value: Seq<T::V>) {
        let items = Self::encoding(value)->Array_0;
        assert forall|i: int| 0 <= i < items.len() implies (#[trigger] T::decoding(items[i]))
            == Some(value[i]) by {
            T::lemma_round_trip(value[i]);
        }
        assert(Self::decoding(Self::encoding(value))->0 =~= value);
    }
}

} // verus!
