//! Requests and responses as plain values.

use crate::body::Body;
use vstd::prelude::*;
use vstd::utf8::*;

verus! {

/// The request methods that an operation can be bound to.
#[derive(Debug, Clone, Copy, PartialEq, Eq, Structural)]
pub enum Method {
    Get,
    Post,
    Put,
    Delete,
    Patch,
    Head,
    Options,
}

/// An ASCII upper-case letter as its lower-case letter, any other byte as
/// itself.
pub open spec fn fold_case(b: u8) -> u8 {
    if 0x41 <= b <= 0x5a {
        (b + 0x20) as u8
    } else {
        b
    }
}

/// Whether two header names are equal when ASCII case is ignored.
pub open spec fn same_name(a: Seq<char>, b: Seq<char>) -> bool {
    let x = encode_utf8(a);
    let y = encode_utf8(b);
    &&& x.len() == y.len()
    &&& forall|i: int| 0 <= i < x.len() ==> fold_case(#[trigger] x[i]) == fold_case(y[i])
}

/// The value of the first entry with the given name, if there is one.
pub open spec fn first_value(
    entries: Seq<(Seq<char>, Seq<char>)>,
    name: Seq<char>,
) -> Option<Seq<char>>
    decreases entries.len(),
{
    if entries.len() == 0 {
        None
    } else if same_name(entries[0].0, name) {
        Some(entries[0].1)
    } else {
        first_value(entries.skip(1), name)
    }
}

/// The values of all entries with the given name, in their order.
pub open spec fn all_values(
    entries: Seq<(Seq<char>, Seq<char>)>,
    name: Seq<char>,
) -> Seq<Seq<char>>
    decreases entries.len(),
{
    if entries.len() == 0 {
        Seq::empty()
    } else if same_name(entries.last().0, name) {
        all_values(entries.drop_last(), name).push(entries.last().1)
    } else {
        all_values(entries.drop_last(), name)
    }
}

fn fold(b: u8) -> (r: u8)
    ensures
        r == fold_case(b),
{
    if 0x41 <= b && b <= 0x5a {
        b + 0x20
    } else {
        b
    }
}

/// Compares two header names without regard to ASCII case.
pub fn names_match(a: &str, b: &str) -> (same: bool)
    ensures
        same == same_name(a@, b@),
{
    let x = a.as_bytes();
    let y = b.as_bytes();
    if x.len() != y.len() {
        return false;
    }
    let mut i: usize = 0;
    while i < x.len()
        invariant
            0 <= i <= x.len(),
            x.len() == y.len(),
            x@ == encode_utf8(a@),
            y@ == encode_utf8(b@),
            forall|j: int| 0 <= j < i ==> fold_case(#[trigger] x@[j]) == fold_case(y@[j]),
        decreases x.len() - i,
    {
        if fold(x[i]) != fold(y[i]) {
            return false;
        }
        i += 1;
    }
    true
}

/// Header lines in the order in which they were added. A name may occur more
/// than once, and every value is kept.
#[derive(Debug, Clone, PartialEq, Eq)]
pub struct Headers {
    entries: Vec<(String, String)>,
}

impl View for Headers {
    type V = Seq<(Seq<char>, Seq<char>)>;

    closed spec fn view(&self) -> Seq<(Seq<char>, Seq<char>)> {
        Seq::new(self.entries@.len(), |i: int| (self.entries@[i].0@, self.entries@[i].1@))
    }
}

impl Headers {
    /// No header lines.
    pub fn new() -> (headers: Headers)
        ensures
            headers@ == Seq::<(Seq<char>, Seq<char>)>::empty(),
    {
        let headers = Headers { entries: Vec::new() };
        assert(headers@ =~= Seq::<(Seq<char>, Seq<char>)>::empty());
        headers
    }

    /// Adds a line behind those that are there, whatever their names.
    pub fn append(&mut self, name: &str, value: &str)
        ensures
            final(self)@ == old(self)@.push((name@, value@)),
    {
        self.entries.push((name.to_owned(), value.to_owned()));
        assert(self@ =~= old(self)@.push((name@, value@)));
    }

    /// The number of header lines.
    pub fn len(&self) -> (n: usize)
        ensures
            n == self@.len(),
    {
        self.entries.len()
    }

    /// The line at a place, as name and value.
    pub fn entry(&self, i: usize) -> (line: (&String, &String))
        requires
            i < self@.len(),
        ensures
            line.0@ == self@[i as int].0,
            line.1@ == self@[i as int].1,
    {
        (&self.entries[i].0, &self.entries[i].1)
    }

    /// The value of the first line with the given name, ASCII case ignored.
    pub fn get(&self, name: &str) -> (value: Option<String>)
        ensures
            match value {
                Some(v) => first_value(self@, name@) == Some(v@),
                None => first_value(self@, name@) is None,
            },
    {
        let mut i: usize = 0;
        assert(self@.skip(0) =~= self@);
        while i < self.entries.len()
            invariant
                0 <= i <= self.entries.len(),
                first_value(self@.skip(i as int), name@) == first_value(self@, name@),
            decreases self.entries.len() - i,
        {
            let ghost rest = self@.skip(i as int);
            assert(rest[0] == self@[i as int]);
            assert(rest.skip(1) =~= self@.skip(i + 1));
            if names_match(self.entries[i].0.as_str(), name) {
                return Some(self.entries[i].1.clone());
            }
            i += 1;
        }
        None
    }

    /// The values of all lines with the given name, ASCII case ignored.
    pub fn get_all(&self, name: &str) -> (values: Vec<String>)
        ensures
            values@.len() == all_values(self@, name@).len(),
            forall|k: int|
                0 <= k < values@.len() ==> (#[trigger] values@[k])@ == all_values(self@, name@)[k],
    {
        let mut values: Vec<String> = Vec::new();
        let mut i: usize = 0;
        while i < self.entries.len()
            invariant
                0 <= i <= self.entries.len(),
                values@.len() == all_values(self@.take(i as int), name@).len(),
                forall|k: int|
                    0 <= k < values@.len() ==> (#[trigger] values@[k])@ == all_values(
                        self@.take(i as int),
                        name@,
                    )[k],
            decreases self.entries.len() - i,
        {
            let ghost next = self@.take(i + 1);
            assert(next.drop_last() =~= self@.take(i as int));
            assert(next.last() == self@[i as int]);
            if names_match(self.entries[i].0.as_str(), name) {
                values.push(self.entries[i].1.clone());
            }
            i += 1;
        }
        assert(self@.take(i as int) =~= self@);
        values
    }
}

/// The head of a response: everything but its body.
#[derive(Debug, Clone, PartialEq, Eq)]
pub struct Parts {
    pub status: u16,
    pub headers: Headers,
}

/// A request.
#[derive(Debug)]
pub struct Request {
    pub method: Method,
    /// The path, and behind a `?` the query if there is one.
    pub uri: String,
    pub headers: Headers,
    pub body: Body,
}

/// A response.
#[derive(Debug)]
pub struct Response {
    pub status: u16,
    pub headers: Headers,
    pub body: Body,
}

impl Response {
    /// Parts the head from the body.
    pub fn into_parts(self) -> (r: (Parts, Body))
        ensures
            r.0.status == self.status,
            r.0.headers == self.headers,
            r.1 == self.body,
    {
        (Parts { status: self.status, headers: self.headers }, self.body)
    }
}

} // verus!
