//! The failures that marshalling can end in, on either side.

use crate::message::Parts;
use vstd::prelude::*;

verus! {

/// Why a payload could not be read as a typed value.
#[derive(Debug)]
pub enum DecodeError {
    /// The bytes are not a JSON text.
    Syntax(serde_json::Error),
    /// The JSON text does not stand for a value of the expected type.
    Mismatch,
}

/// A failure while the bytes of a body were read from a transport.
#[derive(Debug, Clone, PartialEq, Eq)]
pub struct BodyError {
    pub message: String,
}

/// Why a call failed, as its caller sees it.
#[derive(Debug)]
pub enum ClientError<ServiceError, OperationError> {
    /// The request payload could not be written as JSON.
    Serialize(serde_json::Error),
    /// The response payload could not be read as the result type.
    Deserialize(DecodeError),
    /// The response body could not be read from the transport.
    Body(BodyError),
    /// The service was not ready, or the exchange itself failed.
    Service(ServiceError),
    /// The operation failed in a way that its contract declares.
    Operation(OperationError),
    /// The response has a status that the operation does not expect.
    UnexpectedStatus(u16, Parts),
    /// The response has the expected status, but its content type is
    /// missing or is not the expected one.
    UnexpectedContentType(Option<String>, Parts),
}

/// Why a request was not answered, as the server sees it.
#[derive(Debug)]
pub enum ServerError<OperationError> {
    /// The request does not have the shape that its operation needs.
    InvalidRequest,
    /// The business logic failed; its error is handed on as it is.
    Operation(OperationError),
    /// The result could not be written as JSON.
    Serialize(serde_json::Error),
    /// The request payload could not be read as the argument type.
    Deserialize(DecodeError),
    /// The request body could not be read from the transport.
    Body(BodyError),
}

/// The words that name a category of server failure.
pub open spec fn server_error_label<E>(error: ServerError<E>) -> Seq<char> {
    match error {
        ServerError::InvalidRequest => "Invalid request"@,
        ServerError::Operation(_) => "Operation error"@,
        ServerError::Serialize(_) => "Serialize error"@,
        ServerError::Deserialize(_) => "Deserialize error"@,
        ServerError::Body(_) => "Body error"@,
    }
}

impl<OperationError> ServerError<OperationError> {
    /// The words that name the category of this failure.
    pub fn label(&self) -> (text: String)
        ensures
            text@ == server_error_label(*self),
    {
        match self {
            ServerError::InvalidRequest => "Invalid request".to_owned(),
            ServerError::Operation(_) => "Operation error".to_owned(),
            ServerError::Serialize(_) => "Serialize error".to_owned(),
            ServerError::Deserialize(_) => "Deserialize error".to_owned(),
            ServerError::Body(_) => "Body error".to_owned(),
        }
    }
}

} // verus!
