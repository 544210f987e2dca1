//! What routing decides for a request, and why building a router can fail.
use vstd::prelude::*;
use crate::response::{Response, METHOD_NOT_ALLOWED, NOT_FOUND};

verus! {

/// The outcome of routing one request.
#[derive(Clone, Copy, Debug, PartialEq, Eq, Structural)]
pub enum RouteOutcome {
    /// The request goes to the route at this index.
    Matched(usize),
    /// A route matches the request's path and query, but none its method.
    MethodNotAllowed,
    /// No route matches the request's path and query.
    NotFound,
}

impl RouteOutcome {
    /// The fixed, bodiless response for a routing failure; `None` when the
    /// request was matched.
    pub fn failure_response(&self) -> (r: Option<Response>)
        ensures
            match *self {
                RouteOutcome::Matched(_) => r is None,
                RouteOutcome::MethodNotAllowed => r is Some && r->0.status == METHOD_NOT_ALLOWED
                    && r->0.body@.len() == 0,
                RouteOutcome::NotFound => r is Some && r->0.status == NOT_FOUND
                    && r->0.body@.len() == 0,
            },
    {
        match self {
            RouteOutcome::Matched(_) => None,
            RouteOutcome::MethodNotAllowed => Some(Response::empty(METHOD_NOT_ALLOWED)),
            RouteOutcome::NotFound => Some(Response::empty(NOT_FOUND)),
        }
    }
}

/// Why a set of routes was refused.
#[derive(Clone, Copy, Debug, PartialEq, Eq, Structural)]
pub enum RouterError {
    /// The path pattern of the route at this index has more than one greedy
    /// segment.
    InvalidPattern { index: usize },
    /// Some request could reach both routes with neither ranking above the
    /// other.
    AmbiguousRoutes { first: usize, second: usize },
    /// Both routes are registered under the same target.
    DuplicateTarget { first: usize, second: usize },
}

} // verus!
