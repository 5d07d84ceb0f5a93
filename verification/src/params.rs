//! Named parameters, as a path or a query gives them.

use crate::json::{Json, JsonValue, Member};
use crate::text::str_equal;
use vstd::prelude::*;

verus! {

/// Parameters by name, in the order in which they were found. A name may
/// occur more than once.
#[derive(Debug, Clone, PartialEq, Eq)]
pub struct Params {
    entries: Vec<(String, String)>,
}

impl View for Params {
    type V = Seq<(Seq<char>, Seq<char>)>;

    closed spec fn view(&self) -> Seq<(Seq<char>, Seq<char>)> {
        Seq::new(self.entries@.len(), |i: int| (self.entries@[i].0@, self.entries@[i].1@))
    }
}

/// The value of the first parameter with the given name.
pub open spec fn param_value(params: Seq<(Seq<char>, Seq<char>)>, name: Seq<char>) -> Option<
    Seq<char>,
>
    decreases params.len(),
{
    if params.len() == 0 {
        None
    } else if params[0].0 == name {
        Some(params[0].1)
    } else {
        param_value(params.skip(1), name)
    }
}

impl Params {
    /// No parameters.
    pub fn new() -> (params: Params)
        ensures
            params@ == Seq::<(Seq<char>, Seq<char>)>::empty(),
    {
        let params = Params { entries: Vec::new() };
        assert(params@ =~= Seq::<(Seq<char>, Seq<char>)>::empty());
        params
    }

    /// Adds a parameter behind those that are there.
    pub fn push(&mut self, name: String, value: String)
        ensures
            final(self)@ == old(self)@.push((name@, value@)),
    {
        self.entries.push((name, value));
        assert(self@ =~= old(self)@.push((name@, value@)));
    }

    /// The number of parameters.
    pub fn len(&self) -> (n: usize)
        ensures
            n == self@.len(),
    {
        self.entries.len()
    }

    /// The parameter at a place.
    pub fn entry(&self, i: usize) -> (pair: (&String, &String))
        requires
            i < self@.len(),
        ensures
            pair.0@ == self@[i as int].0,
            pair.1@ == self@[i as int].1,
    {
        (&self.entries[i].0, &self.entries[i].1)
    }

    /// The value of the first parameter with a name.
    pub fn get(&self, name: &str) -> (value: Option<String>)
        ensures
            match value {
                Some(v) => param_value(self@, name@) == Some(v@),
                None => param_value(self@, name@) is None,
            },
    {
        let mut i: usize = 0;
        assert(self@.skip(0) =~= self@);
        while i < self.entries.len()
            invariant
                0 <= i <= self.entries.len(),
                param_value(self@.skip(i as int), name@) == param_value(self@, name@),
            decreases self.entries.len() - i,
        {
            let ghost rest = self@.skip(i as int);
            assert(rest[0] == self@[i as int]);
            assert(rest.skip(1) =~= self@.skip(i + 1));
            if str_equal(self.entries[i].0.as_str(), name) {
                return Some(self.entries[i].1.clone());
            }
            i += 1;
        }
        None
    }
}

/// The object that stands for parameters: one member for each, with the
/// value as a string.
pub open spec fn params_object(params: Seq<(Seq<char>, Seq<char>)>) -> Json {
    Json::Object(Seq::new(params.len(), |i: int| (params[i].0, Json::String(params[i].1))))
}

impl Params {
    /// The object that stands for the parameters, from which typed arguments
    /// are decoded like any document.
    pub fn to_json(&self) -> (doc: JsonValue)
        ensures
            doc@ == params_object(self@),
    {
        let mut members: Vec<Member> = Vec::new();
        let mut i: usize = 0;
        while i < self.entries.len()
            invariant
                0 <= i <= self.entries.len(),
                members@.len() == i,
                forall|j: int|
                    0 <= j < i ==> (#[trigger] members@[j]).key@ == self@[j].0 && members@[j].value@
                        == Json::String(self@[j].1),
            decreases self.entries.len() - i,
        {
            members.push(
                Member {
                    key: self.entries[i].0.clone(),
                    value: JsonValue::String(self.entries[i].1.clone()),
                },
            );
            i += 1;
        }
        let doc = JsonValue::Object(members);
        assert(doc@->Object_0 =~= params_object(self@)->Object_0);
        doc
    }
}

} // verus!
