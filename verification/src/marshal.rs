//! Typed payloads in and out of message bodies, and what a response means
//! for the caller of an operation.

use crate::body::Body;
use crate::error::{ClientError, DecodeError, ServerError};
use crate::json::{from_slice, json_parse, json_text, to_vec};
use crate::message::{first_value, Headers, Method, Parts, Request, Response};
use crate::text::str_equal;
use crate::wire::Wire;
use vstd::prelude::*;

verus! {

/// The name of the header that tells the type of a payload.
pub const CONTENT_TYPE: &'static str = "content-type";

/// The content type of every payload.
pub const APPLICATION_JSON: &'static str = "application/json";

/// The JSON text of the document that stands for a value, or `None` where
/// the document has no text.
pub open spec fn payload_text<T: Wire>(value: T::V) -> Option<Seq<u8>> {
    json_text(T::encoding(value))
}

/// Writes a value as JSON into a body of one chunk, or fails where the
/// document of the value has no JSON text.
pub fn serialize_json_body<T: Wire>(body: &T) -> (r: Result<Body, serde_json::Error>)
    ensures
        match r {
            Ok(b) => payload_text::<T>(body.deep_view()) == Some(b@[0]) && b@.len() == 1,
            Err(_) => payload_text::<T>(body.deep_view()) is None,
        },
{
    match to_vec(&body.to_json()) {
        Ok(bytes) => Ok(Body::from_bytes(bytes)),
        Err(e) => Err(e),
    }
}

/// What reading a text as a value of type `T` comes to.
pub open spec fn reading<T: Wire>(text: Seq<u8>, r: Result<T, DecodeError>) -> bool {
    match json_parse(text) {
        None => r is Err && r->Err_0 is Syntax,
        Some(doc) => match T::decoding(doc) {
            None => r is Err && r->Err_0 is Mismatch,
            Some(value) => r is Ok && r->Ok_0.deep_view() == value,
        },
    }
}

/// Reads a whole body and decodes it as a value of type `T`.
pub fn read_payload<T: Wire>(body: Body) -> (r: Result<T, DecodeError>)
    ensures
        reading(body@.flatten(), r),
{
    let mut body = body;
    let bytes = body.collect();
    match from_slice(bytes.as_slice()) {
        Err(e) => Err(DecodeError::Syntax(e)),
        Ok(doc) => match T::from_json(&doc) {
            Some(value) => Ok(value),
            None => Err(DecodeError::Mismatch),
        },
    }
}

/// Reads a whole response body and decodes it as a value of type `T`. Every
/// failure is in the `Deserialize` category.
pub fn deserialize_body<T: Wire, ServiceError, OperationError>(body: Body) -> (r: Result<
    T,
    ClientError<ServiceError, OperationError>,
>)
    ensures
        match r {
            Ok(value) => reading(body@.flatten(), Ok::<T, DecodeError>(value)),
            Err(ClientError::Deserialize(e)) => reading(body@.flatten(), Err::<T, DecodeError>(e)),
            Err(_) => false,
        },
{
    match read_payload(body) {
        Ok(value) => Ok(value),
        Err(e) => Err(ClientError::Deserialize(e)),
    }
}

/// Reads a whole request body and decodes it as a value of type `T`. Every
/// failure is in the `Deserialize` category.
pub fn deserialize_body_server<T: Wire, OperationError>(body: Body) -> (r: Result<
    T,
    ServerError<OperationError>,
>)
    ensures
        match r {
            Ok(value) => reading(body@.flatten(), Ok::<T, DecodeError>(value)),
            Err(ServerError::Deserialize(e)) => reading(body@.flatten(), Err::<T, DecodeError>(e)),
            Err(_) => false,
        },
{
    match read_payload(body) {
        Ok(value) => Ok(value),
        Err(e) => Err(ServerError::Deserialize(e)),
    }
}

/// A result type that is made from the head of a response alone.
pub trait FromParts: Sized {
    /// The value for a response with this head.
    fn from_parts(parts: Parts) -> Self;
}

impl FromParts for () {
    fn from_parts(parts: Parts) -> Self {
        ()
    }
}

/// A result type that is made from the head and the body of a response.
pub trait FromResponse: Sized {
    /// Whether reading a response with this payload text and this head can
    /// end in `r`.
    open spec fn response_read(text: Seq<u8>, parts: Parts, r: Result<Self, DecodeError>) -> bool {
        true
    }

    /// The value for a response with this body and head, or the reason why
    /// they stand for none.
    fn from_response(body: Body, parts: &Parts) -> (r: Result<Self, DecodeError>)
        ensures
            Self::response_read(body@.flatten(), *parts, r),
    ;
}

/// A request without payload: no header and an empty body.
pub fn plain_request(method: Method, uri: String) -> (request: Request)
    ensures
        request.method == method,
        request.uri == uri,
        request.headers@.len() == 0,
        request.body@.len() == 0,
{
    Request { method, uri, headers: Headers::new(), body: Body::empty() }
}

/// The header lines of a message with a JSON payload.
pub open spec fn json_headers() -> Seq<(Seq<char>, Seq<char>)> {
    seq![(CONTENT_TYPE@, APPLICATION_JSON@)]
}

/// A request whose payload is a value written as JSON: the content type is
/// set and the body is one chunk. It fails where the document of the value
/// has no JSON text.
pub fn json_request<T: Wire>(method: Method, uri: String, payload: &T) -> (r: Result<
    Request,
    serde_json::Error,
>)
    ensures
        match r {
            Ok(request) => {
                &&& request.method == method
                &&& request.uri == uri
                &&& request.headers@ == json_headers()
                &&& request.body@.len() == 1
                &&& payload_text::<T>(payload.deep_view()) == Some(request.body@[0])
            },
            Err(_) => payload_text::<T>(payload.deep_view()) is None,
        },
{
    match serialize_json_body(payload) {
        Err(e) => Err(e),
        Ok(body) => {
            let mut headers = Headers::new();
            headers.append(CONTENT_TYPE, APPLICATION_JSON);
            assert(headers@ =~= json_headers());
            Ok(Request { method, uri, headers, body })
        },
    }
}

/// What a response means for an operation that expects a JSON payload of
/// type `T` under the status `success`. Any other status is unexpected,
/// whatever else the response holds. Under the expected status the content
/// type is looked at before the body: unless the first `content-type` line
/// says `application/json`, the body is not read.
pub open spec fn json_reply<T: Wire, S, O>(
    response: Response,
    success: u16,
    r: Result<T, ClientError<S, O>>,
) -> bool {
    let parts = Parts { status: response.status, headers: response.headers };
    if response.status != success {
        r == Err::<T, ClientError<S, O>>(ClientError::UnexpectedStatus(response.status, parts))
    } else {
        match first_value(response.headers@, CONTENT_TYPE@) {
            None => r == Err::<T, ClientError<S, O>>(
                ClientError::UnexpectedContentType(None, parts),
            ),
            Some(content_type) => if content_type != APPLICATION_JSON@ {
                &&& r is Err
                &&& r->Err_0 is UnexpectedContentType
                &&& r->Err_0->UnexpectedContentType_0 is Some
                &&& r->Err_0->UnexpectedContentType_0->0@ == content_type
                &&& r->Err_0->UnexpectedContentType_1 == parts
            } else {
                match r {
                    Ok(value) => reading(response.body@.flatten(), Ok::<T, DecodeError>(value)),
                    Err(ClientError::Deserialize(e)) => reading(
                        response.body@.flatten(),
                        Err::<T, DecodeError>(e),
                    ),
                    Err(_) => false,
                }
            },
        }
    }
}

/// Reads the response to an operation that expects a JSON payload of type
/// `T` under the status `success`.
pub fn read_json_reply<T: Wire, S, O>(response: Response, success: u16) -> (r: Result<
    T,
    ClientError<S, O>,
>)
    ensures
        json_reply(response, success, r),
{
    let (parts, body) = response.into_parts();
    if parts.status != success {
        return Err(ClientError::UnexpectedStatus(parts.status, parts));
    }
    match parts.headers.get(CONTENT_TYPE) {
        None => Err(ClientError::UnexpectedContentType(None, parts)),
        Some(content_type) => {
            if str_equal(content_type.as_str(), APPLICATION_JSON) {
                deserialize_body(body)
            } else {
                Err(ClientError::UnexpectedContentType(Some(content_type), parts))
            }
        },
    }
}

/// What a response means for an operation whose result of type `T` is made
/// from head and body under the status `success`. Status and content type
/// are looked at as for a plain JSON payload; only then are head and body
/// read.
pub open spec fn full_reply<T: FromResponse, S, O>(
    response: Response,
    success: u16,
    r: Result<T, ClientError<S, O>>,
) -> bool {
    let parts = Parts { status: response.status, headers: response.headers };
    if response.status != success {
        r == Err::<T, ClientError<S, O>>(ClientError::UnexpectedStatus(response.status, parts))
    } else {
        match first_value(response.headers@, CONTENT_TYPE@) {
            None => r == Err::<T, ClientError<S, O>>(
                ClientError::UnexpectedContentType(None, parts),
            ),
            Some(content_type) => if content_type != APPLICATION_JSON@ {
                &&& r is Err
                &&& r->Err_0 is UnexpectedContentType
                &&& r->Err_0->UnexpectedContentType_0 is Some
                &&& r->Err_0->UnexpectedContentType_0->0@ == content_type
                &&& r->Err_0->UnexpectedContentType_1 == parts
            } else {
                match r {
                    Ok(value) => T::response_read(
                        response.body@.flatten(),
                        parts,
                        Ok::<T, DecodeError>(value),
                    ),
                    Err(ClientError::Deserialize(e)) => T::response_read(
                        response.body@.flatten(),
                        parts,
                        Err::<T, DecodeError>(e),
                    ),
                    Err(_) => false,
                }
            },
        }
    }
}

/// Reads the response to an operation whose result of type `T` is made from
/// head and body under the status `success`.
pub fn read_full_reply<T: FromResponse, S, O>(response: Response, success: u16) -> (r: Result<
    T,
    ClientError<S, O>,
>)
    ensures
        full_reply(response, success, r),
{
    let (parts, body) = response.into_parts();
    if parts.status != success {
        return Err(ClientError::UnexpectedStatus(parts.status, parts));
    }
    match parts.headers.get(CONTENT_TYPE) {
        None => Err(ClientError::UnexpectedContentType(None, parts)),
        Some(content_type) => {
            if str_equal(content_type.as_str(), APPLICATION_JSON) {
                match T::from_response(body, &parts) {
                    Ok(value) => Ok(value),
                    Err(e) => Err(ClientError::Deserialize(e)),
                }
            } else {
                Err(ClientError::UnexpectedContentType(Some(content_type), parts))
            }
        },
    }
}

/// What a response means for an operation that expects no payload under the
/// status `success`: any other status is unexpected, and under the expected
/// one neither headers nor body are looked at.
pub open spec fn empty_reply<S, O>(
    response: Response,
    success: u16,
    r: Result<(), ClientError<S, O>>,
) -> bool {
    if response.status == success {
        r is Ok
    } else {
        r == Err::<(), ClientError<S, O>>(
            ClientError::UnexpectedStatus(
                response.status,
                Parts { status: response.status, headers: response.headers },
            ),
        )
    }
}

/// Reads the response to an operation that expects no payload under the
/// status `success`.
pub fn read_empty_reply<S, O>(response: Response, success: u16) -> (r: Result<
    (),
    ClientError<S, O>,
>)
    ensures
        empty_reply(response, success, r),
{
    let (parts, body) = response.into_parts();
    if parts.status == success {
        Ok(FromParts::from_parts(parts))
    } else {
        Err(ClientError::UnexpectedStatus(parts.status, parts))
    }
}

/// A response under the expected status whose content type is missing or is
/// not `application/json` is reported as `UnexpectedContentType`, whatever
/// its body holds: the body is never decoded.
pub proof fn lemma_content_type_comes_first<T: Wire, S, O>(
    response: Response,
    success: u16,
    r: Result<T, ClientError<S, O>>,
)
    requires
        response.status == success,
        first_value(response.headers@, CONTENT_TYPE@) != Some(APPLICATION_JSON@),
        json_reply(response, success, r),
    ensures
        r is Err,
        r->Err_0 is UnexpectedContentType,
        !(r->Err_0 is Deserialize),
{
}

} // verus!
