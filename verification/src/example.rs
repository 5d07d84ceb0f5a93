//! The example service: two operations whose arguments travel in a header,
//! in the path and in the query, and whose results travel in a header and
//! in the body.

use crate::body::Body;
use crate::error::{DecodeError, ServerError};
use crate::json::Json;
use crate::marshal::{read_payload, FromResponse};
use crate::message::{first_value, Parts, Response};
use crate::path::{literals_avoid, template_view, Segment, SegmentView, QUESTION, SLASH};
use crate::responder::{json_response, Responder, OK};
use crate::wire::Wire;
use vstd::prelude::*;

verus! {

/// The header that carries the argument of `freestanding`.
pub const X_FOO: &'static str = "x-foo";

/// The header that carries the text of the result of `freestanding`.
pub const X_BAR: &'static str = "x-bar";

/// The header that carries the text of the result of `freestanding_path`.
pub const X_COMPOSITE: &'static str = "x-composite";

/// The name of the path parameter of `freestanding_path`.
pub const ID: &'static str = "id";

/// The name of the query parameter of `freestanding_path`.
pub const Q: &'static str = "q";

/// The result of `freestanding`, as a mathematical value.
pub struct FreestandingResponseView {
    pub bar: Seq<char>,
    pub example: Seq<i32>,
}

/// The result of `freestanding`: `bar` travels in the header `x-bar`,
/// `example` in the body.
#[derive(Debug, Clone, PartialEq, Eq)]
pub struct FreestandingResponse {
    pub bar: String,
    pub example: Vec<i32>,
}

impl View for FreestandingResponse {
    type V = FreestandingResponseView;

    open spec fn view(&self) -> FreestandingResponseView {
        FreestandingResponseView { bar: self.bar@, example: self.example@ }
    }
}

/// The result of `freestanding_path`, as a mathematical value.
pub struct FreestandingPathResponseView {
    pub composite: Seq<char>,
    pub example: Seq<i32>,
}

/// The result of `freestanding_path`: `composite` travels in the header
/// `x-composite`, `example` in the body.
#[derive(Debug, Clone, PartialEq, Eq)]
pub struct FreestandingPathResponse {
    pub composite: String,
    pub example: Vec<i32>,
}

impl View for FreestandingPathResponse {
    type V = FreestandingPathResponseView;

    open spec fn view(&self) -> FreestandingPathResponseView {
        FreestandingPathResponseView { composite: self.composite@, example: self.example@ }
    }
}

/// What reading a result with a text in a header and a list in the body
/// comes to. A body that is not JSON is a `Syntax` error. A body that is no
/// list of integers, or a head without the header, is a `Mismatch`.
/// Otherwise the result has the first value of the header and the list.
pub open spec fn headed_read(
    text: Seq<u8>,
    parts: Parts,
    name: Seq<char>,
    r: Result<(String, Vec<i32>), DecodeError>,
) -> bool {
    match crate::json::json_parse(text) {
        None => r is Err && r->Err_0 is Syntax,
        Some(doc) => match (Vec::<i32>::decoding(doc), first_value(parts.headers@, name)) {
            (Some(list), Some(value)) => r is Ok && r->Ok_0.0@ == value && r->Ok_0.1@ == list,
            _ => r is Err && r->Err_0 is Mismatch,
        },
    }
}

/// Reads a result with a text in a header and a list in the body.
pub fn read_headed(body: Body, parts: &Parts, name: &str) -> (r: Result<
    (String, Vec<i32>),
    DecodeError,
>)
    ensures
        headed_read(body@.flatten(), *parts, name@, r),
{
    match read_payload::<Vec<i32>>(body) {
        Err(e) => Err(e),
        Ok(list) => {
            assert(list.deep_view() =~= list@);
            match parts.headers.get(name) {
                Some(value) => Ok((value, list)),
                None => Err(DecodeError::Mismatch),
            }
        },
    }
}

impl FromResponse for FreestandingResponse {
    open spec fn response_read(text: Seq<u8>, parts: Parts, r: Result<Self, DecodeError>) -> bool {
        headed_read(
            text,
            parts,
            X_BAR@,
            match r {
                Ok(value) => Ok((value.bar, value.example)),
                Err(e) => Err(e),
            },
        )
    }

    fn from_response(body: Body, parts: &Parts) -> (r: Result<Self, DecodeError>) {
        match read_headed(body, parts, X_BAR) {
            Ok(read) => Ok(FreestandingResponse { bar: read.0, example: read.1 }),
            Err(e) => Err(e),
        }
    }
}

impl FromResponse for FreestandingPathResponse {
    open spec fn response_read(text: Seq<u8>, parts: Parts, r: Result<Self, DecodeError>) -> bool {
        headed_read(
            text,
            parts,
            X_COMPOSITE@,
            match r {
                Ok(value) => Ok((value.composite, value.example)),
                Err(e) => Err(e),
            },
        )
    }

    fn from_response(body: Body, parts: &Parts) -> (r: Result<Self, DecodeError>) {
        match read_headed(body, parts, X_COMPOSITE) {
            Ok(read) => Ok(FreestandingPathResponse { composite: read.0, example: read.1 }),
            Err(e) => Err(e),
        }
    }
}

/// A `freestanding` result is sent as `200 OK` with `bar` in the header
/// `x-bar` and `example` as the JSON payload.
impl Responder for FreestandingResponse {
    open spec fn status(&self) -> u16 {
        OK
    }

    open spec fn fields(&self) -> Seq<(Seq<char>, Seq<char>)> {
        seq![(X_BAR@, self.bar@)]
    }

    open spec fn payload(&self) -> Option<Json> {
        Some(Vec::<i32>::encoding(self.example@))
    }

    fn to_response<E>(self) -> (r: Result<Response, ServerError<E>>) {
        assert(self.example.deep_view() =~= self.example@);
        json_response(OK, Some((X_BAR, self.bar.as_str())), &self.example)
    }
}

/// A `freestanding_path` result is sent as `200 OK` with `composite` in the
/// header `x-composite` and `example` as the JSON payload.
impl Responder for FreestandingPathResponse {
    open spec fn status(&self) -> u16 {
        OK
    }

    open spec fn fields(&self) -> Seq<(Seq<char>, Seq<char>)> {
        seq![(X_COMPOSITE@, self.composite@)]
    }

    open spec fn payload(&self) -> Option<Json> {
        Some(Vec::<i32>::encoding(self.example@))
    }

    fn to_response<E>(self) -> (r: Result<Response, ServerError<E>>) {
        assert(self.example.deep_view() =~= self.example@);
        json_response(OK, Some((X_COMPOSITE, self.composite.as_str())), &self.example)
    }
}

/// The word `freestanding` in ASCII.
pub open spec fn freestanding_word() -> Seq<u8> {
    seq![
        0x66u8, 0x72u8, 0x65u8, 0x65u8, 0x73u8, 0x74u8, 0x61u8, 0x6eu8, 0x64u8, 0x69u8, 0x6eu8,
        0x67u8,
    ]
}

/// The template `/freestanding`.
pub open spec fn plain_template() -> Seq<SegmentView> {
    seq![SegmentView::Literal(freestanding_word())]
}

/// The template `/freestanding/{id}`.
pub open spec fn path_template() -> Seq<SegmentView> {
    seq![SegmentView::Literal(freestanding_word()), SegmentView::Param(ID@)]
}

/// Neither a slash nor a `?` occurs in a literal of the two templates.
pub proof fn lemma_templates_avoid(b: u8)
    requires
        b == SLASH || b == QUESTION,
    ensures
        literals_avoid(plain_template(), b),
        literals_avoid(path_template(), b),
{
    let one = plain_template();
    let two = path_template();
    assert forall|i: int, k: int|
        0 <= i < one.len() && #[trigger] one[i] is Literal && 0 <= k
            < one[i]->Literal_0.len() implies #[trigger] one[i]->Literal_0[k] != b by {
        assert(one[i]->Literal_0 == freestanding_word());
    }
    assert forall|i: int, k: int|
        0 <= i < two.len() && #[trigger] two[i] is Literal && 0 <= k
            < two[i]->Literal_0.len() implies #[trigger] two[i]->Literal_0[k] != b by {
        assert(i == 0);
        assert(two[i]->Literal_0 == freestanding_word());
    }
}

fn word() -> (bytes: Vec<u8>)
    ensures
        bytes@ == freestanding_word(),
{
    let bytes: Vec<u8> = vec![
        0x66u8, 0x72u8, 0x65u8, 0x65u8, 0x73u8, 0x74u8, 0x61u8, 0x6eu8, 0x64u8, 0x69u8, 0x6eu8,
        0x67u8,
    ];
    assert(bytes@ =~= freestanding_word());
    bytes
}

/// The template `/freestanding`.
pub fn plain() -> (template: Vec<Segment>)
    ensures
        template_view(template@) == plain_template(),
{
    let mut template: Vec<Segment> = Vec::new();
    template.push(Segment::Literal(word()));
    assert(template_view(template@) =~= plain_template());
    template
}

/// The template `/freestanding/{id}`.
pub fn with_id() -> (template: Vec<Segment>)
    ensures
        template_view(template@) == path_template(),
{
    let mut template: Vec<Segment> = Vec::new();
    template.push(Segment::Literal(word()));
    template.push(Segment::Param(ID.to_owned()));
    assert(template_view(template@) =~= path_template());
    template
}

/// What the example service offers: one method for each operation.
///
/// Each implementation says what it does in one relation for each
/// operation, between the service before the call, the arguments, the
/// outcome, and the service after it. An implementation that leaves a
/// relation as it is here promises nothing of that operation.
pub trait Example: Sized {
    /// What a failed operation reports.
    type Error;

    /// Whether `freestanding` with `foo` can end in `r` and leave the
    /// service as `after`.
    open spec fn freestands(
        &self,
        foo: Seq<char>,
        r: Result<FreestandingResponse, Self::Error>,
        after: Self,
    ) -> bool {
        true
    }

    /// Whether `freestanding_path` with `id` and `q` can end in `r` and
    /// leave the service as `after`.
    open spec fn freestands_path(
        &self,
        id: Seq<char>,
        q: Seq<char>,
        r: Result<FreestandingPathResponse, Self::Error>,
        after: Self,
    ) -> bool {
        true
    }

    /// The operation with one argument.
    fn freestanding(&mut self, foo: &str) -> (r: Result<FreestandingResponse, Self::Error>)
        ensures
            old(self).freestands(foo@, r, *final(self)),
    ;

    /// The operation with an argument in the path and one in the query.
    fn freestanding_path(&mut self, id: &str, q: &str) -> (r: Result<
        FreestandingPathResponse,
        Self::Error,
    >)
        ensures
            old(self).freestands_path(id@, q@, r, *final(self)),
    ;
}

} // verus!
