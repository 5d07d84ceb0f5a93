//! The capability through which a request is delivered and a response
//! obtained. A network client and an in-process router both offer it.

use crate::error::ClientError;
use crate::message::{Request, Response};
use vstd::prelude::*;

verus! {

/// Something that answers requests: ready first, then call.
///
/// What a service does is its own affair. Each implementation says it in two
/// relations between the service before a call, the outcome, and the service
/// after it. An implementation that leaves them as they are here promises
/// nothing: they hold of every outcome.
pub trait Service: Sized {
    /// What a failed readiness check or a failed exchange reports.
    type Error;

    /// Whether a readiness check of this service can end in `failure`,
    /// which is `None` where the service is ready, and leave the service as
    /// `after`.
    open spec fn readiness(&self, failure: Option<Self::Error>, after: Self) -> bool {
        true
    }

    /// Whether this service can answer `request` with `r` and be `after`
    /// afterwards.
    open spec fn exchange(
        &self,
        request: Request,
        r: Result<Response, Self::Error>,
        after: Self,
    ) -> bool {
        true
    }

    /// Whether the service can take a request now. An error means that it
    /// cannot, and that no request should be sent.
    fn poll_ready(&mut self) -> (r: Result<(), Self::Error>)
        ensures
            old(self).readiness(failure_of(r), *final(self)),
    ;

    /// Delivers a request and returns the response to it.
    fn call(&mut self, request: Request) -> (r: Result<Response, Self::Error>)
        ensures
            old(self).exchange(request, r, *final(self)),
    ;
}

/// The error of an outcome without a value, if it has one.
pub open spec fn failure_of<E>(r: Result<(), E>) -> Option<E> {
    match r {
        Ok(_) => None,
        Err(e) => Some(e),
    }
}

/// Whether the service, found ready, answers `request` with `reply`.
pub open spec fn answered_when_ready<S: Service>(
    before: S,
    request: Request,
    reply: Result<Response, S::Error>,
    after: S,
) -> bool {
    exists|ready: S| #[trigger]
        before.readiness(None, ready) && ready.exchange(request, reply, after)
}

/// What sending a request through a service comes to. A response is what
/// the service, found ready, answered. A failure is in the `Service`
/// category: either the readiness check failed and nothing was sent, or the
/// exchange failed.
pub open spec fn sent<S: Service, O>(
    before: S,
    request: Request,
    r: Result<Response, ClientError<S::Error, O>>,
    after: S,
) -> bool {
    match r {
        Ok(response) => answered_when_ready(before, request, Ok(response), after),
        Err(ClientError::Service(e)) => before.readiness(Some(e), after) || answered_when_ready(
            before,
            request,
            Err(e),
            after,
        ),
        Err(_) => false,
    }
}

/// Confirms that the service is ready and then sends the request. Where the
/// service is not ready the request is not sent.
pub fn send_request<S: Service, E>(service: &mut S, request: Request) -> (r: Result<
    Response,
    ClientError<S::Error, E>,
>)
    ensures
        sent(*old(service), request, r, *final(service)),
{
    let ready_check = service.poll_ready();
    match ready_check {
        Err(e) => Err(ClientError::Service(e)),
        Ok(_) => {
            let ghost ready = *service;
            assert(old(service).readiness(None, ready));
            let reply = service.call(request);
            assert(ready.exchange(request, reply, *service));
            match reply {
                Ok(response) => Ok(response),
                Err(e) => Err(ClientError::Service(e)),
            }
        },
    }
}

} // verus!
