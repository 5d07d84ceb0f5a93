//! The pet store behind a router: a service that answers requests from the
//! store in the same process.

use crate::error::ServerError;
use crate::message::{Method, Request, Response};
use crate::path::{captures, path_of, path_part, path_segments, SLASH};
use crate::pet_store::{
    collection, collection_template, item, item_template, lemma_templates_avoid, Pets,
};
use crate::router::{is_resolution, unrouted, well_formed, RouteView, Router};
use crate::server::turned_away_from;
use crate::server_raw::{create_served, delete_served, list_served, update_served};
use crate::service::Service;
use vstd::prelude::*;
use vstd::utf8::encode_utf8;

verus! {

/// The identifier of the operation that lists the pets.
pub const LIST: usize = 0;

/// The identifier of the operation that creates a pet.
pub const CREATE: usize = 1;

/// The identifier of the operation that updates a pet.
pub const UPDATE: usize = 2;

/// The identifier of the operation that deletes a pet.
pub const DELETE: usize = 3;

/// The routes of the pet store: `GET /pets`, `POST /pets`, `POST /pets/{id}`
/// and `DELETE /pets/{id}`, in the order of their identifiers.
pub open spec fn pet_routes() -> Seq<RouteView> {
    seq![
        RouteView { method: Method::Get, template: collection_template() },
        RouteView { method: Method::Post, template: collection_template() },
        RouteView { method: Method::Post, template: item_template() },
        RouteView { method: Method::Delete, template: item_template() },
    ]
}

/// Builds the router of the pet store.
pub fn pet_store_routes() -> (routes: Router)
    ensures
        routes@ == pet_routes(),
        well_formed(routes@),
{
    proof {
        lemma_templates_avoid(SLASH);
    }
    let mut routes = Router::new();
    let listing = routes.register_template(Method::Get, collection());
    assert(listing is Ok);
    let creating = routes.register_template(Method::Post, collection());
    assert(creating is Ok);
    let updating = routes.register_template(Method::Post, item());
    assert(updating is Ok) by {
        assert(routes@.len() >= 2);
    }
    let deleting = routes.register_template(Method::Delete, item());
    assert(deleting is Ok);
    assert(routes@ =~= pet_routes());
    routes
}

/// A pet store and the router that leads to its operations.
#[derive(Debug)]
pub struct PetStoreRouter<P: Pets> {
    pub service: P,
    pub routes: Router,
}

/// What the operation with the identifier `op` does with a request and the
/// parameters of its path.
pub open spec fn operated<P: Pets>(
    op: int,
    params: Seq<(Seq<char>, Seq<char>)>,
    before: P,
    request: Request,
    r: Result<Response, ServerError<P::Error>>,
    after: P,
) -> bool {
    if op == LIST {
        list_served(before, r, after)
    } else if op == CREATE {
        create_served(before, request, r, after)
    } else if op == UPDATE {
        update_served(before, params, request, r, after)
    } else if op == DELETE {
        delete_served(before, params, r, after)
    } else {
        turned_away_from(before, r, after)
    }
}

/// What a router does with a request. The path of the request is its URI
/// without the query. A method and path that no route accepts are turned
/// away as an invalid request, and the store is not asked. Otherwise the
/// operation that they resolve to serves the request, with the parameters
/// that its template captures from the path.
pub open spec fn dispatched<P: Pets>(
    before: PetStoreRouter<P>,
    request: Request,
    r: Result<Response, ServerError<P::Error>>,
    after: PetStoreRouter<P>,
) -> bool {
    &&& after.routes == before.routes
    &&& match path_segments(path_part(encode_utf8(request.uri@))) {
        None => turned_away_from(before.service, r, after.service),
        Some(segments) => if unrouted(before.routes@, request.method, segments) {
            turned_away_from(before.service, r, after.service)
        } else {
            exists|op: int| #[trigger]
                is_resolution(before.routes@, request.method, segments, op) && operated(
                    op,
                    captures(before.routes@[op].template, segments),
                    before.service,
                    request,
                    r,
                    after.service,
                )
        },
    }
}

impl<P: Pets> PetStoreRouter<P> {
    /// Puts a store behind the routes of the pet store.
    pub fn new(service: P) -> (router: Self)
        ensures
            router.service == service,
            router.routes@ == pet_routes(),
            well_formed(router.routes@),
    {
        PetStoreRouter { service, routes: pet_store_routes() }
    }

    /// Answers a request from the store.
    pub fn dispatch(&mut self, request: Request) -> (r: Result<Response, ServerError<P::Error>>)
        ensures
            dispatched(*old(self), request, r, *final(self)),
    {
        let path = path_of(request.uri.as_str().as_bytes());
        match self.routes.resolve_bytes(request.method, path.as_slice()) {
            Err(_) => Err(ServerError::InvalidRequest),
            Ok(found) => {
                let ghost segments = path_segments(path@)->0;
                assert(is_resolution(
                    self.routes@,
                    request.method,
                    segments,
                    found.operation as int,
                ));
                let r = if found.operation == LIST {
                    crate::server_raw::list(&mut self.service, request)
                } else if found.operation == CREATE {
                    crate::server_raw::create(&mut self.service, request)
                } else if found.operation == UPDATE {
                    crate::server_raw::update(&mut self.service, &found.params, request)
                } else if found.operation == DELETE {
                    crate::server_raw::delete(&mut self.service, &found.params, request)
                } else {
                    Err(ServerError::InvalidRequest)
                };
                assert(operated(
                    found.operation as int,
                    found.params@,
                    old(self).service,
                    request,
                    r,
                    self.service,
                ));
                r
            },
        }
    }
}

/// The router is always ready, and answers each request as `dispatched`
/// says.
impl<P: Pets> Service for PetStoreRouter<P> {
    type Error = ServerError<P::Error>;

    open spec fn readiness(&self, failure: Option<ServerError<P::Error>>, after: Self) -> bool {
        failure is None && after == *self
    }

    open spec fn exchange(
        &self,
        request: Request,
        r: Result<Response, ServerError<P::Error>>,
        after: Self,
    ) -> bool {
        dispatched(*self, request, r, after)
    }

    fn poll_ready(&mut self) -> (r: Result<(), ServerError<P::Error>>) {
        Ok(())
    }

    fn call(&mut self, request: Request) -> (r: Result<Response, ServerError<P::Error>>) {
        self.dispatch(request)
    }
}

} // verus!
