//! The parts of an incoming request that routing reads.
use vstd::prelude::*;
use crate::method::Method;
use crate::uri::find_byte;
use vstd::utf8::encode_utf8;

verus! {

/// An incoming request as routing sees it: the method, the raw (still
/// percent-encoded) path, the raw query string after `?` if there is one,
/// and the raw bytes of the `x-amz-target` header if it is present.
#[derive(Clone, Debug)]
pub struct Request {
    pub method: Method,
    pub path: Vec<u8>,
    pub query: Option<Vec<u8>>,
    pub target_header: Option<Vec<u8>>,
}

/// The bytes of a text (its UTF-8 encoding).
pub open spec fn text_bytes(s: Seq<char>) -> Seq<u8> {
    encode_utf8(s)
}

impl Request {
    /// The query string's bytes, if there is a query string.
    pub open spec fn query_view(&self) -> Option<Seq<u8>> {
        match self.query {
            Some(q) => Some(q@),
            None => None,
        }
    }

    /// The target header's bytes, if the header is present.
    pub open spec fn target_view(&self) -> Option<Seq<u8>> {
        match self.target_header {
            Some(t) => Some(t@),
            None => None,
        }
    }

    /// A request for `uri` (a path with an optional `?query`), without a
    /// target header.
    pub fn new(method: Method, uri: &str) -> (r: Request)
        ensures
            r.method == method,
            ({
                let u = text_bytes(uri@);
                let k = find_byte(u, 63);
                &&& r.path@ == u.take(k)
                &&& r.query_view() == if k < u.len() {
                    Some(u.skip(k + 1))
                } else {
                    None::<Seq<u8>>
                }
            }),
            r.target_header is None,
    {
        let u = uri.as_bytes();
        let mut k: usize = 0;
        while k < u.len() && u[k] != 63
            invariant
                k <= u@.len(),
                forall|j: int| 0 <= j < k ==> u@[j] != 63,
            decreases u.len() - k,
        {
            k += 1;
        }
        proof {
            crate::uri::lemma_find_byte(u@, 63, k as int);
        }
        let path = copy_range(u, 0, k);
        let query = if k < u.len() {
            Some(copy_range(u, k + 1, u.len()))
        } else {
            None
        };
        assert(u@.subrange(0, k as int) =~= u@.take(k as int));
        assert(u@.subrange(k + 1, u@.len() as int) =~= u@.skip(k + 1));
        Request { method, path, query, target_header: None }
    }

    /// This request with the target header set to `value`.
    pub fn with_target(self, value: &str) -> (r: Request)
        ensures
            r.method == self.method,
            r.path == self.path,
            r.query == self.query,
            r.target_view() == Some(text_bytes(value@)),
    {
        let v = value.as_bytes();
        let t = copy_range(v, 0, v.len());
        assert(v@.subrange(0, v@.len() as int) =~= v@);
        Request { target_header: Some(t), ..self }
    }
}

/// A copy of `b[start..end]`.
pub fn copy_range(b: &[u8], start: usize, end: usize) -> (r: Vec<u8>)
    requires
        start <= end <= b@.len(),
    ensures
        r@ == b@.subrange(start as int, end as int),
{
    let mut out: Vec<u8> = Vec::new();
    let mut i: usize = start;
    while i < end
        invariant
            start <= i <= end <= b@.len(),
            out@ == b@.subrange(start as int, i as int),
        decreases end - i,
    {
        out.push(b[i]);
        i += 1;
        assert(out@ =~= b@.subrange(start as int, i as int));
    }
    out
}

} // verus!
