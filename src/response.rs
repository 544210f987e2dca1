//! Responses, and the capability of turning a value into one.
use vstd::prelude::*;

verus! {

/// The status code of a response to a request that no route matches.
pub const NOT_FOUND: u16 = 404;

/// The status code of a response to a request whose path and query match a
/// route but whose method does not.
pub const METHOD_NOT_ALLOWED: u16 = 405;

/// An outgoing response: a status code and a body.
#[derive(Clone, Debug)]
pub struct Response {
    pub status: u16,
    pub body: Vec<u8>,
}

impl Response {
    /// A response with this status and no body.
    pub fn empty(status: u16) -> (r: Response)
        ensures
            r.status == status,
            r.body@.len() == 0,
    {
        Response { status, body: Vec::new() }
    }
}

/// Values that can be turned into a response for protocol `P`.
pub trait IntoResponse<P>: Sized {
    /// The response that `self` turns into.
    spec fn response_of(self) -> Response;

    fn into_response(self) -> (r: Response)
        ensures
            r == self.response_of(),
    ;
}

/// A response turns into itself, under any protocol.
impl<P> IntoResponse<P> for Response {
    open spec fn response_of(self) -> Response {
        self
    }

    fn into_response(self) -> (r: Response) {
        self
    }
}

} // verus!
