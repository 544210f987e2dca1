//! The protocol-aware router: one of the two routing strategies, chosen by
//! protocol, behind a single way of handling a request.
use vstd::prelude::*;
use crate::aws_json_router::{rpc_outcome, targets_of, AwsJsonRouter};
use crate::outcome::{RouteOutcome, RouterError};
use crate::request::Request;
use crate::request_spec::RequestSpec;
use crate::response::{Response, METHOD_NOT_ALLOWED, NOT_FOUND};
use crate::rest_router::{
    handlers_of, lemma_alike_routes_route_alike, rest_outcome, routable, specs_of, RestRouter,
};

verus! {

/// The wire protocols a router serves.
#[derive(Clone, Copy, Debug, PartialEq, Eq, Structural)]
pub enum Protocol {
    RestJson1,
    RestXml,
    AwsJson1_0,
    AwsJson1_1,
}

/// What a router routes by: path-and-query specifications, or RPC targets.
pub enum RouteTable {
    Rest(Seq<RequestSpec>),
    Rpc(Seq<Seq<char>>),
}

/// Where a request goes under a route table.
pub open spec fn table_outcome(table: RouteTable, req: Request) -> RouteOutcome {
    match table {
        RouteTable::Rest(specs) => rest_outcome(specs, req),
        RouteTable::Rpc(targets) => rpc_outcome(targets, req),
    }
}

#[derive(Debug)]
enum Routes<H> {
    RestXml(RestRouter<H>),
    RestJson1(RestRouter<H>),
    AwsJson1_0(AwsJsonRouter<H>),
    AwsJson1_1(AwsJsonRouter<H>),
}

/// Routes requests to handlers of type `H` following one protocol's rules.
/// Built once; routing never changes it.
#[derive(Debug)]
pub struct Router<H> {
    routes: Routes<H>,
}

/// A service that hands out a router for each new connection.
#[derive(Clone, Debug)]
pub struct IntoMakeService<S> {
    service: S,
}

impl<S> IntoMakeService<S> {
    pub fn new(service: S) -> (r: IntoMakeService<S>)
        ensures
            r.service() == service,
    {
        IntoMakeService { service }
    }

    pub closed spec fn service(&self) -> S {
        self.service
    }

    /// The service handed out for each connection.
    pub fn get_ref(&self) -> (r: &S)
        ensures
            *r == self.service(),
    {
        &self.service
    }

    pub fn into_inner(self) -> (r: S)
        ensures
            r == self.service(),
    {
        self.service
    }
}

impl<H> Router<H> {
    /// The protocol this router serves.
    pub closed spec fn protocol_of(&self) -> Protocol {
        match self.routes {
            Routes::RestXml(_) => Protocol::RestXml,
            Routes::RestJson1(_) => Protocol::RestJson1,
            Routes::AwsJson1_0(_) => Protocol::AwsJson1_0,
            Routes::AwsJson1_1(_) => Protocol::AwsJson1_1,
        }
    }

    /// The router's route table.
    pub closed spec fn table(&self) -> RouteTable {
        match self.routes {
            Routes::RestXml(r) => RouteTable::Rest(r.specs()),
            Routes::RestJson1(r) => RouteTable::Rest(r.specs()),
            Routes::AwsJson1_0(r) => RouteTable::Rpc(r.targets()),
            Routes::AwsJson1_1(r) => RouteTable::Rpc(r.targets()),
        }
    }

    /// The routes' handlers, in registration order.
    pub closed spec fn handlers(&self) -> Seq<H> {
        match self.routes {
            Routes::RestXml(r) => r.handlers(),
            Routes::RestJson1(r) => r.handlers(),
            Routes::AwsJson1_0(r) => r.handlers(),
            Routes::AwsJson1_1(r) => r.handlers(),
        }
    }

    /// A RestJson1 router over pairs of handlers and specifications; refused
    /// when a pattern has more than one greedy segment or two routes
    /// conflict. Without routes every request is not found.
    pub fn new_rest_json_router(routes: Vec<(H, RequestSpec)>) -> (r: Result<
        Router<H>,
        RouterError,
    >)
        ensures
            r is Ok <==> routable(specs_of(routes@)),
            r matches Ok(router) ==> router.protocol_of() == Protocol::RestJson1
                && router.table() == RouteTable::Rest(specs_of(routes@)) && router.handlers()
                == handlers_of(routes@),
            r matches Err(RouterError::InvalidPattern { index }) ==> index < routes@.len()
                && !specs_of(routes@)[index as int].well_formed(),
            r matches Err(RouterError::AmbiguousRoutes { first, second }) ==> first
                < routes@.len() && second < routes@.len() && first != second && specs_of(
                routes@,
            )[first as int].conflicts_with(&specs_of(routes@)[second as int]),
            !(r matches Err(RouterError::DuplicateTarget { .. })),
    {
        match RestRouter::new(routes) {
            Ok(r) => Ok(Router { routes: Routes::RestJson1(r) }),
            Err(e) => Err(e),
        }
    }

    /// A RestXml router; see `new_rest_json_router`.
    pub fn new_rest_xml_router(routes: Vec<(H, RequestSpec)>) -> (r: Result<
        Router<H>,
        RouterError,
    >)
        ensures
            r is Ok <==> routable(specs_of(routes@)),
            r matches Ok(router) ==> router.protocol_of() == Protocol::RestXml && router.table()
                == RouteTable::Rest(specs_of(routes@)) && router.handlers() == handlers_of(
                routes@,
            ),
            r matches Err(RouterError::InvalidPattern { index }) ==> index < routes@.len()
                && !specs_of(routes@)[index as int].well_formed(),
            r matches Err(RouterError::AmbiguousRoutes { first, second }) ==> first
                < routes@.len() && second < routes@.len() && first != second && specs_of(
                routes@,
            )[first as int].conflicts_with(&specs_of(routes@)[second as int]),
            !(r matches Err(RouterError::DuplicateTarget { .. })),
    {
        match RestRouter::new(routes) {
            Ok(r) => Ok(Router { routes: Routes::RestXml(r) }),
            Err(e) => Err(e),
        }
    }

    /// An AwsJson 1.0 router over pairs of handlers and operation targets;
    /// refused when a target is registered twice. Without routes every
    /// request is not found.
    pub fn new_aws_json_10_router(routes: Vec<(H, String)>) -> (r: Result<
        Router<H>,
        RouterError,
    >)
        ensures
            r is Ok <==> crate::aws_json_router::distinct_targets(targets_of(routes@)),
            r matches Ok(router) ==> router.protocol_of() == Protocol::AwsJson1_0
                && router.table() == RouteTable::Rpc(targets_of(routes@)) && router.handlers()
                == handlers_of(routes@),
            r matches Err(RouterError::DuplicateTarget { first, second }) ==> first < second
                < routes@.len() && targets_of(routes@)[first as int] == targets_of(
                routes@,
            )[second as int],
            r is Err ==> r matches Err(RouterError::DuplicateTarget { .. }),
    {
        match AwsJsonRouter::new(routes) {
            Ok(r) => {
                assert(r.handlers() =~= handlers_of(routes@));
                Ok(Router { routes: Routes::AwsJson1_0(r) })
            },
            Err(e) => Err(e),
        }
    }

    /// An AwsJson 1.1 router; see `new_aws_json_10_router`.
    pub fn new_aws_json_11_router(routes: Vec<(H, String)>) -> (r: Result<
        Router<H>,
        RouterError,
    >)
        ensures
            r is Ok <==> crate::aws_json_router::distinct_targets(targets_of(routes@)),
            r matches Ok(router) ==> router.protocol_of() == Protocol::AwsJson1_1
                && router.table() == RouteTable::Rpc(targets_of(routes@)) && router.handlers()
                == handlers_of(routes@),
            r matches Err(RouterError::DuplicateTarget { first, second }) ==> first < second
                < routes@.len() && targets_of(routes@)[first as int] == targets_of(
                routes@,
            )[second as int],
            r is Err ==> r matches Err(RouterError::DuplicateTarget { .. }),
    {
        match AwsJsonRouter::new(routes) {
            Ok(r) => {
                assert(r.handlers() =~= handlers_of(routes@));
                Ok(Router { routes: Routes::AwsJson1_1(r) })
            },
            Err(e) => Err(e),
        }
    }

    /// The protocol this router serves.
    pub fn protocol(&self) -> (r: Protocol)
        ensures
            r == self.protocol_of(),
    {
        match &self.routes {
            Routes::RestXml(_) => Protocol::RestXml,
            Routes::RestJson1(_) => Protocol::RestJson1,
            Routes::AwsJson1_0(_) => Protocol::AwsJson1_0,
            Routes::AwsJson1_1(_) => Protocol::AwsJson1_1,
        }
    }

    /// Routes one request.
    pub fn route(&self, req: &Request) -> (r: RouteOutcome)
        ensures
            r == table_outcome(self.table(), *req),
            r matches RouteOutcome::Matched(i) ==> i < self.handlers().len(),
    {
        match &self.routes {
            Routes::RestXml(r) => {
                r.len();
                r.match_route(req)
            },
            Routes::RestJson1(r) => {
                r.len();
                r.match_route(req)
            },
            Routes::AwsJson1_0(r) => {
                r.len();
                r.match_route(req)
            },
            Routes::AwsJson1_1(r) => {
                r.len();
                r.match_route(req)
            },
        }
    }

    /// The number of routes.
    pub fn len(&self) -> (r: usize)
        ensures
            r == self.handlers().len(),
    {
        match &self.routes {
            Routes::RestXml(r) => r.len(),
            Routes::RestJson1(r) => r.len(),
            Routes::AwsJson1_0(r) => r.len(),
            Routes::AwsJson1_1(r) => r.len(),
        }
    }

    /// The handler of the route at index `i`.
    pub fn handler(&self, i: usize) -> (r: &H)
        requires
            i < self.handlers().len(),
        ensures
            *r == self.handlers()[i as int],
    {
        match &self.routes {
            Routes::RestXml(r) => r.handler(i),
            Routes::RestJson1(r) => r.handler(i),
            Routes::AwsJson1_0(r) => r.handler(i),
            Routes::AwsJson1_1(r) => r.handler(i),
        }
    }

    /// Handles one request: the handler of the route it goes to, or the
    /// fixed bodiless response when it is refused for its method (405) or
    /// nothing is found (404).
    pub fn dispatch(&self, req: &Request) -> (r: Result<&H, Response>)
        ensures
            match table_outcome(self.table(), *req) {
                RouteOutcome::Matched(i) => r matches Ok(h) && i < self.handlers().len() && *h
                    == self.handlers()[i as int],
                RouteOutcome::MethodNotAllowed => r matches Err(resp) && resp.status
                    == METHOD_NOT_ALLOWED && resp.body@.len() == 0,
                RouteOutcome::NotFound => r matches Err(resp) && resp.status == NOT_FOUND
                    && resp.body@.len() == 0,
            },
    {
        let outcome = self.route(req);
        match outcome {
            RouteOutcome::Matched(i) => Ok(self.handler(i)),
            RouteOutcome::MethodNotAllowed => Err(Response::empty(METHOD_NOT_ALLOWED)),
            RouteOutcome::NotFound => Err(Response::empty(NOT_FOUND)),
        }
    }

    /// Applies a middleware transform to every handler; the routes, and so
    /// where each request goes, stay as they were.
    pub fn layer<H2, F: Fn(H) -> H2>(self, f: F) -> (r: Router<H2>)
        requires
            forall|h: H| f.requires((h,)),
        ensures
            r.protocol_of() == self.protocol_of(),
            r.table() == self.table(),
            r.handlers().len() == self.handlers().len(),
            forall|i: int|
                0 <= i < self.handlers().len() ==> f.ensures(
                    (self.handlers()[i],),
                    #[trigger] r.handlers()[i],
                ),
    {
        match self.routes {
            Routes::RestXml(r) => Router { routes: Routes::RestXml(r.map_handlers(f)) },
            Routes::RestJson1(r) => Router { routes: Routes::RestJson1(r.map_handlers(f)) },
            Routes::AwsJson1_0(r) => Router { routes: Routes::AwsJson1_0(r.map_handlers(f)) },
            Routes::AwsJson1_1(r) => Router { routes: Routes::AwsJson1_1(r.map_handlers(f)) },
        }
    }

    /// This router as a service that hands itself out for each connection.
    pub fn into_make_service(self) -> (r: IntoMakeService<Router<H>>)
        ensures
            r.service() == self,
    {
        IntoMakeService::new(self)
    }
}

impl<H: Clone> Clone for Router<H> {
    /// A router for the same protocol with clones of the same routes: it
    /// sends every request where this one does.
    fn clone(&self) -> (r: Router<H>)
        ensures
            r.protocol_of() == self.protocol_of(),
            forall|req: Request| table_outcome(r.table(), req) == table_outcome(self.table(), req),
            r.handlers().len() == self.handlers().len(),
            forall|i: int|
                0 <= i < self.handlers().len() ==> cloned(self.handlers()[i], #[trigger] r.handlers()[i]),
    {
        let routes = match &self.routes {
            Routes::RestXml(rt) => {
                let c = rt.clone();
                rt.len();
                c.len();
                proof {
                    assert forall|req: Request| rest_outcome(c.specs(), req) == rest_outcome(rt.specs(), req) by {
                        lemma_alike_routes_route_alike(c.specs(), rt.specs(), req);
                    }
                }
                Routes::RestXml(c)
            },
            Routes::RestJson1(rt) => {
                let c = rt.clone();
                rt.len();
                c.len();
                proof {
                    assert forall|req: Request| rest_outcome(c.specs(), req) == rest_outcome(rt.specs(), req) by {
                        lemma_alike_routes_route_alike(c.specs(), rt.specs(), req);
                    }
                }
                Routes::RestJson1(c)
            },
            Routes::AwsJson1_0(rt) => Routes::AwsJson1_0(rt.clone()),
            Routes::AwsJson1_1(rt) => Routes::AwsJson1_1(rt.clone()),
        };
        Router { routes }
    }
}

} // verus!
