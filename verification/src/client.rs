//! The client side of a call: send the request through a service, then read
//! the response as the operation's result.

use crate::error::ClientError;
use crate::marshal::{
    empty_reply, full_reply, json_reply, read_empty_reply, read_full_reply, read_json_reply,
    FromResponse,
};
use crate::message::{Request, Response};
use crate::service::{send_request, sent, Service};
use crate::wire::Wire;
use vstd::prelude::*;

verus! {

/// What a call that expects a JSON payload comes to: the request was sent as
/// `sent` says; a failure to send is the outcome, and a response is read as
/// `json_reply` says.
pub open spec fn json_call<S: Service, T: Wire, O>(
    before: S,
    request: Request,
    success: u16,
    r: Result<T, ClientError<S::Error, O>>,
    after: S,
) -> bool {
    exists|reply: Result<Response, ClientError<S::Error, O>>| #[trigger]
        sent(before, request, reply, after) && match reply {
            Ok(response) => json_reply(response, success, r),
            Err(e) => r == Err::<T, ClientError<S::Error, O>>(e),
        }
}

/// Sends a request and reads the response as a JSON payload of type `T`
/// under the status `success`.
pub fn call_json<S: Service, T: Wire, O>(service: &mut S, request: Request, success: u16) -> (r:
    Result<T, ClientError<S::Error, O>>)
    ensures
        json_call(*old(service), request, success, r, *final(service)),
{
    let reply = send_request(service, request);
    let ghost sending = reply;
    let r = match reply {
        Ok(response) => read_json_reply(response, success),
        Err(e) => Err(e),
    };
    assert(sent(*old(service), request, sending, *service));
    r
}

/// What a call that expects no payload comes to: the request was sent as
/// `sent` says; a failure to send is the outcome, and a response is read as
/// `empty_reply` says.
pub open spec fn empty_call<S: Service, O>(
    before: S,
    request: Request,
    success: u16,
    r: Result<(), ClientError<S::Error, O>>,
    after: S,
) -> bool {
    exists|reply: Result<Response, ClientError<S::Error, O>>| #[trigger]
        sent(before, request, reply, after) && match reply {
            Ok(response) => empty_reply(response, success, r),
            Err(e) => r == Err::<(), ClientError<S::Error, O>>(e),
        }
}

/// Sends a request and reads the response as one without payload under the
/// status `success`.
pub fn call_empty<S: Service, O>(service: &mut S, request: Request, success: u16) -> (r: Result<
    (),
    ClientError<S::Error, O>,
>)
    ensures
        empty_call(*old(service), request, success, r, *final(service)),
{
    let reply = send_request(service, request);
    let ghost sending = reply;
    let r = match reply {
        Ok(response) => read_empty_reply(response, success),
        Err(e) => Err(e),
    };
    assert(sent(*old(service), request, sending, *service));
    r
}

/// What a call whose result is made from head and body comes to: the
/// request was sent as `sent` says; a failure to send is the outcome, and a
/// response is read as `full_reply` says.
pub open spec fn full_call<S: Service, T: FromResponse, O>(
    before: S,
    request: Request,
    success: u16,
    r: Result<T, ClientError<S::Error, O>>,
    after: S,
) -> bool {
    exists|reply: Result<Response, ClientError<S::Error, O>>| #[trigger]
        sent(before, request, reply, after) && match reply {
            Ok(response) => full_reply(response, success, r),
            Err(e) => r == Err::<T, ClientError<S::Error, O>>(e),
        }
}

/// Sends a request and reads head and body of the response as a result of
/// type `T` under the status `success`.
pub fn call_full<S: Service, T: FromResponse, O>(service: &mut S, request: Request, success: u16) -> (r:
    Result<T, ClientError<S::Error, O>>)
    ensures
        full_call(*old(service), request, success, r, *final(service)),
{
    let reply = send_request(service, request);
    let ghost sending = reply;
    let r = match reply {
        Ok(response) => read_full_reply(response, success),
        Err(e) => Err(e),
    };
    assert(sent(*old(service), request, sending, *service));
    r
}

} // verus!
