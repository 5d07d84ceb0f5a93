//! How a typed result becomes a response: each result type knows its own
//! status and whether it has a payload.

use crate::body::Body;
use crate::error::ServerError;
use crate::json::{json_text, Json};
use crate::marshal::{json_headers, serialize_json_body, APPLICATION_JSON, CONTENT_TYPE};
use crate::message::{Headers, Response};
use crate::pet_store::Pet;
use crate::wire::Wire;
use vstd::prelude::*;

verus! {

/// The status of a response without content.
pub const NO_CONTENT: u16 = 204;

/// The status of a response with a payload.
pub const OK: u16 = 200;

/// Whether `r` is what a result with the given status, header fields and
/// payload becomes. Without payload the response has the fields as its
/// headers and an empty body. With a payload it has the JSON content type in
/// front of the fields, and the JSON text as its only chunk; where the
/// payload has no JSON text, the outcome is a `Serialize` error.
pub open spec fn responds<E>(
    r: Result<Response, ServerError<E>>,
    status: u16,
    fields: Seq<(Seq<char>, Seq<char>)>,
    payload: Option<Json>,
) -> bool {
    match payload {
        None => {
            &&& r is Ok
            &&& r->Ok_0.status == status
            &&& r->Ok_0.headers@ == fields
            &&& r->Ok_0.body@.len() == 0
        },
        Some(doc) => match json_text(doc) {
            Some(text) => {
                &&& r is Ok
                &&& r->Ok_0.status == status
                &&& r->Ok_0.headers@ == json_headers() + fields
                &&& r->Ok_0.body@ == seq![text]
            },
            None => r is Err && r->Err_0 is Serialize,
        },
    }
}

/// A result type that can be sent as a response.
pub trait Responder: Sized {
    /// The status under which a value is sent.
    spec fn status(&self) -> u16;

    /// The header fields that are sent for a value, besides the content
    /// type.
    spec fn fields(&self) -> Seq<(Seq<char>, Seq<char>)>;

    /// The document that is sent for a value, or `None` where the response
    /// has no content.
    spec fn payload(&self) -> Option<Json>;

    /// Makes the response for a value.
    fn to_response<E>(self) -> (r: Result<Response, ServerError<E>>)
        ensures
            responds(r, self.status(), self.fields(), self.payload()),
    ;
}

/// The response with a value as its JSON payload and, behind the content
/// type, one more header field if one is given.
pub fn json_response<T: Wire, E>(status: u16, field: Option<(&str, &str)>, value: &T) -> (r:
    Result<Response, ServerError<E>>)
    ensures
        responds(
            r,
            status,
            match field {
                Some(f) => seq![(f.0@, f.1@)],
                None => Seq::empty(),
            },
            Some(T::encoding(value.deep_view())),
        ),
{
    match serialize_json_body(value) {
        Err(e) => Err(ServerError::Serialize(e)),
        Ok(body) => {
            let mut headers = Headers::new();
            headers.append(CONTENT_TYPE, APPLICATION_JSON);
            match field {
                Some(f) => {
                    headers.append(f.0, f.1);
                    assert(headers@ =~= json_headers() + seq![(f.0@, f.1@)]);
                },
                None => {
                    assert(headers@ =~= json_headers() + Seq::empty());
                },
            }
            assert(body@ =~= seq![body@[0]]);
            Ok(Response { status, headers, body })
        },
    }
}

/// An empty result is sent as `204 No Content`, without headers or body.
impl Responder for () {
    open spec fn status(&self) -> u16 {
        NO_CONTENT
    }

    open spec fn fields(&self) -> Seq<(Seq<char>, Seq<char>)> {
        Seq::empty()
    }

    open spec fn payload(&self) -> Option<Json> {
        None
    }

    fn to_response<E>(self) -> (r: Result<Response, ServerError<E>>) {
        let headers = Headers::new();
        assert(headers@ =~= self.fields());
        Ok(Response { status: NO_CONTENT, headers, body: Body::empty() })
    }
}

/// A list is sent as `200 OK` with the JSON array of its items.
impl<T: Wire> Responder for Vec<T> {
    open spec fn status(&self) -> u16 {
        OK
    }

    open spec fn fields(&self) -> Seq<(Seq<char>, Seq<char>)> {
        Seq::empty()
    }

    open spec fn payload(&self) -> Option<Json> {
        Some(Self::encoding(self.deep_view()))
    }

    fn to_response<E>(self) -> (r: Result<Response, ServerError<E>>) {
        json_response(OK, None, &self)
    }
}

/// A pet is sent as `200 OK` with its JSON object.
impl Responder for Pet {
    open spec fn status(&self) -> u16 {
        OK
    }

    open spec fn fields(&self) -> Seq<(Seq<char>, Seq<char>)> {
        Seq::empty()
    }

    open spec fn payload(&self) -> Option<Json> {
        Some(Self::encoding(self.deep_view()))
    }

    fn to_response<E>(self) -> (r: Result<Response, ServerError<E>>) {
        json_response(OK, None, &self)
    }
}

/// An outcome is sent as whichever of its two sides is there.
impl<T: Responder, F: Responder> Responder for Result<T, F> {
    open spec fn status(&self) -> u16 {
        match self {
            Ok(value) => value.status(),
            Err(error) => error.status(),
        }
    }

    open spec fn fields(&self) -> Seq<(Seq<char>, Seq<char>)> {
        match self {
            Ok(value) => value.fields(),
            Err(error) => error.fields(),
        }
    }

    open spec fn payload(&self) -> Option<Json> {
        match self {
            Ok(value) => value.payload(),
            Err(error) => error.payload(),
        }
    }

    fn to_response<E>(self) -> (r: Result<Response, ServerError<E>>) {
        match self {
            Ok(value) => value.to_response(),
            Err(error) => error.to_response(),
        }
    }
}

} // verus!
