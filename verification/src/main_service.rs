//! An implementation of the example service, and the router that leads to
//! it.

use crate::error::ServerError;
use crate::example::{
    lemma_templates_avoid, path_template, plain, plain_template, with_id, Example,
    FreestandingPathResponse, FreestandingResponse, FreestandingPathResponseView,
    FreestandingResponseView,
};
use crate::example_server::{freestanding_path_served, freestanding_served};
use crate::message::{Method, Request, Response};
use crate::path::{captures, path_of, path_part, path_segments, SLASH};
use crate::server::turned_away_from;
use crate::router::{is_resolution, unrouted, well_formed, RouteView, Router};
use crate::service::Service;
use core::convert::Infallible;
use vstd::prelude::*;
use vstd::string::StringExecFns;
use vstd::utf8::encode_utf8;

verus! {

/// The list that both operations hand out.
pub open spec fn sample() -> Seq<i32> {
    seq![0i32, 1i32, 2i32, 3i32, 4i32, 5i32, 6i32, 7i32]
}

fn sample_list() -> (list: Vec<i32>)
    ensures
        list@ == sample(),
{
    let list: Vec<i32> = vec![0i32, 1i32, 2i32, 3i32, 4i32, 5i32, 6i32, 7i32];
    assert(list@ =~= sample());
    list
}

/// The example service with fixed answers. It holds no state.
#[derive(Debug, Clone, Copy, PartialEq, Eq, Structural)]
pub struct MainService;

impl Example for MainService {
    type Error = Infallible;

    /// `freestanding` answers with its argument followed by `bar`.
    open spec fn freestands(
        &self,
        foo: Seq<char>,
        r: Result<FreestandingResponse, Infallible>,
        after: Self,
    ) -> bool {
        r is Ok && r->Ok_0@ == (FreestandingResponseView { bar: foo + "bar"@, example: sample() })
    }

    /// `freestanding_path` answers with its two arguments, joined by `-`.
    open spec fn freestands_path(
        &self,
        id: Seq<char>,
        q: Seq<char>,
        r: Result<FreestandingPathResponse, Infallible>,
        after: Self,
    ) -> bool {
        r is Ok && r->Ok_0@ == (FreestandingPathResponseView {
            composite: id + "-"@ + q,
            example: sample(),
        })
    }

    fn freestanding(&mut self, foo: &str) -> (r: Result<FreestandingResponse, Infallible>) {
        let mut bar = foo.to_owned();
        bar.append("bar");
        Ok(FreestandingResponse { bar, example: sample_list() })
    }

    fn freestanding_path(&mut self, id: &str, q: &str) -> (r: Result<
        FreestandingPathResponse,
        Infallible,
    >) {
        let mut composite = id.to_owned();
        composite.append("-");
        composite.append(q);
        Ok(FreestandingPathResponse { composite, example: sample_list() })
    }
}

/// The identifier of `freestanding`.
pub const FREESTANDING: usize = 0;

/// The identifier of `freestanding_path`.
pub const FREESTANDING_PATH: usize = 1;

/// The routes of the example service: `GET /freestanding` and `POST
/// /freestanding/{id}`, in the order of their identifiers.
pub open spec fn example_routes() -> Seq<RouteView> {
    seq![
        RouteView { method: Method::Get, template: plain_template() },
        RouteView { method: Method::Post, template: path_template() },
    ]
}

/// Builds the router of the example service.
pub fn main_service_routes() -> (routes: Router)
    ensures
        routes@ == example_routes(),
        well_formed(routes@),
{
    proof {
        lemma_templates_avoid(SLASH);
    }
    let mut routes = Router::new();
    let first = routes.register_template(Method::Get, plain());
    assert(first is Ok);
    let second = routes.register_template(Method::Post, with_id());
    assert(second is Ok);
    assert(routes@ =~= example_routes());
    routes
}

/// An example service and the router that leads to its operations.
#[derive(Debug)]
pub struct MainServiceRouter<E: Example> {
    pub service: E,
    pub routes: Router,
}

/// What the operation with the identifier `op` does with a request and the
/// parameters of its path.
pub open spec fn example_operated<E: Example>(
    op: int,
    params: Seq<(Seq<char>, Seq<char>)>,
    before: E,
    request: Request,
    r: Result<Response, ServerError<E::Error>>,
    after: E,
) -> bool {
    if op == FREESTANDING {
        freestanding_served(before, request, r, after)
    } else if op == FREESTANDING_PATH {
        freestanding_path_served(before, params, request, r, after)
    } else {
        turned_away_from(before, r, after)
    }
}

/// What the router does with a request. The path of the request is its URI
/// without the query. A method and path that no route accepts are turned
/// away as an invalid request, and the service is not asked. Otherwise the
/// operation that they resolve to serves the request, with the parameters
/// that its template captures from the path.
pub open spec fn example_dispatched<E: Example>(
    before: MainServiceRouter<E>,
    request: Request,
    r: Result<Response, ServerError<E::Error>>,
    after: MainServiceRouter<E>,
) -> bool {
    &&& after.routes == before.routes
    &&& match path_segments(path_part(encode_utf8(request.uri@))) {
        None => turned_away_from(before.service, r, after.service),
        Some(segments) => if unrouted(before.routes@, request.method, segments) {
            turned_away_from(before.service, r, after.service)
        } else {
            exists|op: int| #[trigger]
                is_resolution(before.routes@, request.method, segments, op) && example_operated(
                    op,
                    captures(before.routes@[op].template, segments),
                    before.service,
                    request,
                    r,
                    after.service,
                )
        },
    }
}

impl<E: Example> MainServiceRouter<E> {
    /// Puts a service behind the routes of the example service.
    pub fn new(service: E) -> (router: Self)
        ensures
            router.service == service,
            router.routes@ == example_routes(),
            well_formed(router.routes@),
    {
        MainServiceRouter { service, routes: main_service_routes() }
    }

    /// Answers a request from the service.
    pub fn dispatch(&mut self, request: Request) -> (r: Result<Response, ServerError<E::Error>>)
        ensures
            example_dispatched(*old(self), request, r, *final(self)),
    {
        let path = path_of(request.uri.as_str().as_bytes());
        match self.routes.resolve_bytes(request.method, path.as_slice()) {
            Err(_) => Err(ServerError::InvalidRequest),
            Ok(found) => {
                let ghost segments = path_segments(path@)->0;
                assert(is_resolution(
                    self.routes@,
                    request.method,
                    segments,
                    found.operation as int,
                ));
                let r = if found.operation == FREESTANDING {
                    crate::example_server::freestanding(&mut self.service, request)
                } else if found.operation == FREESTANDING_PATH {
                    crate::example_server::freestanding_path(
                        &mut self.service,
                        &found.params,
                        request,
                    )
                } else {
                    Err(ServerError::InvalidRequest)
                };
                assert(example_operated(
                    found.operation as int,
                    found.params@,
                    old(self).service,
                    request,
                    r,
                    self.service,
                ));
                r
            },
        }
    }
}

/// The router is always ready, and answers each request as
/// `example_dispatched` says.
impl<E: Example> Service for MainServiceRouter<E> {
    type Error = ServerError<E::Error>;

    open spec fn readiness(&self, failure: Option<ServerError<E::Error>>, after: Self) -> bool {
        failure is None && after == *self
    }

    open spec fn exchange(
        &self,
        request: Request,
        r: Result<Response, ServerError<E::Error>>,
        after: Self,
    ) -> bool {
        example_dispatched(*self, request, r, after)
    }

    fn poll_ready(&mut self) -> (r: Result<(), ServerError<E::Error>>) {
        Ok(())
    }

    fn call(&mut self, request: Request) -> (r: Result<Response, ServerError<E::Error>>) {
        self.dispatch(request)
    }
}

} // verus!
