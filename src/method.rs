//! HTTP request methods.
use vstd::prelude::*;

verus! {

/// An HTTP request method.
#[derive(Debug)]
pub enum Method {
    Get,
    Head,
    Post,
    Put,
    Delete,
    Connect,
    Options,
    Trace,
    Patch,
    /// Any other method, by its name.
    Other(String),
}

impl Method {
    /// Two methods are the same when they are the same variant and, for
    /// `Other`, have the same name.
    pub open spec fn same_as(&self, other: &Method) -> bool {
        match self {
            Method::Other(a) => match other {
                Method::Other(b) => a@ == b@,
                _ => false,
            },
            _ => *self == *other,
        }
    }

    pub fn is_same(&self, other: &Method) -> (r: bool)
        ensures
            r == self.same_as(other),
    {
        match (self, other) {
            (Method::Get, Method::Get) => true,
            (Method::Head, Method::Head) => true,
            (Method::Post, Method::Post) => true,
            (Method::Put, Method::Put) => true,
            (Method::Delete, Method::Delete) => true,
            (Method::Connect, Method::Connect) => true,
            (Method::Options, Method::Options) => true,
            (Method::Trace, Method::Trace) => true,
            (Method::Patch, Method::Patch) => true,
            (Method::Other(a), Method::Other(b)) => a.eq(b),
            _ => false,
        }
    }
}

impl Clone for Method {
    fn clone(&self) -> (r: Method)
        ensures
            r == *self,
    {
        match self {
            Method::Get => Method::Get,
            Method::Head => Method::Head,
            Method::Post => Method::Post,
            Method::Put => Method::Put,
            Method::Delete => Method::Delete,
            Method::Connect => Method::Connect,
            Method::Options => Method::Options,
            Method::Trace => Method::Trace,
            Method::Patch => Method::Patch,
            Method::Other(name) => Method::Other(name.clone()),
        }
    }
}

} // verus!
