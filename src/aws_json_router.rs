//! Routing for RPC protocols: every request is a `POST` to `/`, and the
//! operation is named by the `x-amz-target` header.
use vstd::prelude::*;
use vstd::utf8::encode_utf8_decode_utf8;
use crate::method::Method;
use crate::outcome::{RouteOutcome, RouterError};
use crate::request::{text_bytes, Request};
use crate::request_spec::bytes_equal;

verus! {

/// The targets of a list of routes.
pub open spec fn targets_of<H>(routes: Seq<(H, String)>) -> Seq<Seq<char>> {
    routes.map_values(|r: (H, String)| r.1@)
}

/// No target is registered twice.
pub open spec fn distinct_targets(targets: Seq<Seq<char>>) -> bool {
    forall|i: int, j: int|
        0 <= i < targets.len() && 0 <= j < targets.len() && i != j ==> #[trigger] targets[i]
            != #[trigger] targets[j]
}

/// A header byte that a header value read as text may hold: visible ASCII
/// or a tab.
pub open spec fn is_header_text_byte(b: u8) -> bool {
    (32 <= b < 127) || b == 9
}

/// A header value that can be read as text.
pub open spec fn is_header_text(v: Seq<u8>) -> bool {
    forall|i: int| 0 <= i < v.len() ==> is_header_text_byte(#[trigger] v[i])
}

/// Where a request goes: anything but a request for `/` without a query is
/// not found; a request for `/` whose method is not `POST` is refused for
/// its method; otherwise it goes to the route whose target is exactly the
/// header's text, and is not found when the header is absent, is not text,
/// or names no route.
pub open spec fn rpc_outcome(targets: Seq<Seq<char>>, req: Request) -> RouteOutcome {
    if !(req.path@ == seq![47u8] && req.query is None) {
        RouteOutcome::NotFound
    } else if !(req.method is Post) {
        RouteOutcome::MethodNotAllowed
    } else {
        match req.target_view() {
            Some(v) => if is_header_text(v) && exists|i: int|
                0 <= i < targets.len() && text_bytes(#[trigger] targets[i]) == v {
                RouteOutcome::Matched(
                    (choose|i: int| 0 <= i < targets.len() && text_bytes(targets[i]) == v) as usize,
                )
            } else {
                RouteOutcome::NotFound
            },
            None => RouteOutcome::NotFound,
        }
    }
}

/// RPC routing for a request for `/` without a query: a method other than
/// `POST` is refused for its method; a `POST` without the target header, or
/// whose header names no route, is not found; a `POST` whose header is
/// exactly a registered target (one that a header can carry as text) goes
/// to that target's route.
pub proof fn lemma_rpc_routing(targets: Seq<Seq<char>>, req: Request)
    requires
        distinct_targets(targets),
        req.path@ == seq![47u8],
        req.query is None,
    ensures
        !(req.method is Post) ==> rpc_outcome(targets, req) == RouteOutcome::MethodNotAllowed,
        req.method is Post && req.target_header is None ==> rpc_outcome(targets, req)
            == RouteOutcome::NotFound,
        req.method is Post && (req.target_view() matches Some(v) && forall|i: int|
            0 <= i < targets.len() ==> text_bytes(#[trigger] targets[i]) != v) ==> rpc_outcome(
            targets,
            req,
        ) == RouteOutcome::NotFound,
        forall|i: int|
            0 <= i < targets.len() && req.method is Post && req.target_view() == Some(
                text_bytes(#[trigger] targets[i]),
            ) && is_header_text(text_bytes(targets[i])) ==> rpc_outcome(targets, req)
                == RouteOutcome::Matched(i as usize),
{
    assert forall|i: int|
        0 <= i < targets.len() && req.method is Post && req.target_view() == Some(
            text_bytes(#[trigger] targets[i]),
        ) && is_header_text(text_bytes(targets[i])) implies rpc_outcome(targets, req)
        == RouteOutcome::Matched(i as usize) by {
        let v = text_bytes(targets[i]);
        let c = choose|c: int| 0 <= c < targets.len() && text_bytes(targets[c]) == v;
        encode_utf8_decode_utf8(targets[c]);
        encode_utf8_decode_utf8(targets[i]);
    }
}

/// A router over RPC routes, keyed by their targets.
#[derive(Debug)]
pub struct AwsJsonRouter<H> {
    routes: Vec<(H, String)>,
}

impl<H> AwsJsonRouter<H> {
    #[verifier::type_invariant]
    spec fn inv(self) -> bool {
        distinct_targets(self.targets())
    }

    /// The routes' targets, in registration order.
    pub closed spec fn targets(&self) -> Seq<Seq<char>> {
        targets_of(self.routes@)
    }

    /// The routes' handlers, in registration order.
    pub closed spec fn handlers(&self) -> Seq<H> {
        self.routes@.map_values(|r: (H, String)| r.0)
    }

    /// A router over these routes; refused when a target is registered twice.
    pub fn new(routes: Vec<(H, String)>) -> (r: Result<AwsJsonRouter<H>, RouterError>)
        ensures
            r is Ok <==> distinct_targets(targets_of(routes@)),
            r matches Ok(router) ==> router.targets() == targets_of(routes@) && router.handlers()
                == routes@.map_values(|r: (H, String)| r.0),
            r matches Err(RouterError::DuplicateTarget { first, second }) ==> first < second
                < routes@.len() && targets_of(routes@)[first as int] == targets_of(
                routes@,
            )[second as int],
            r is Err ==> r matches Err(RouterError::DuplicateTarget { .. }),
    {
        let ghost targets = targets_of(routes@);
        let n = routes.len();
        let mut i: usize = 0;
        while i < n
            invariant
                n == routes@.len(),
                targets == targets_of(routes@),
                i <= n,
                forall|a: int, b: int|
                    0 <= a < b < i ==> #[trigger] targets[a] != #[trigger] targets[b],
            decreases n - i,
        {
            let mut j: usize = 0;
            while j < i
                invariant
                    n == routes@.len(),
                    targets == targets_of(routes@),
                    j <= i < n,
                    forall|a: int| 0 <= a < j ==> #[trigger] targets[a] != targets[i as int],
                decreases i - j,
            {
                assert(routes@[j as int].1@ == targets[j as int]);
                assert(routes@[i as int].1@ == targets[i as int]);
                if routes[j].1.eq(&routes[i].1) {
                    assert(targets[j as int] == targets[i as int]);
                    return Err(RouterError::DuplicateTarget { first: j, second: i });
                }
                j += 1;
            }
            i += 1;
        }
        Ok(AwsJsonRouter { routes })
    }

    /// The number of routes.
    pub fn len(&self) -> (r: usize)
        ensures
            r == self.targets().len(),
            r == self.handlers().len(),
            distinct_targets(self.targets()),
    {
        proof {
            use_type_invariant(self);
        }
        self.routes.len()
    }

    /// The handler of the route at index `i`.
    pub fn handler(&self, i: usize) -> (r: &H)
        requires
            i < self.handlers().len(),
        ensures
            *r == self.handlers()[i as int],
    {
        &self.routes[i].0
    }

    /// Routes one request.
    pub fn match_route(&self, req: &Request) -> (r: RouteOutcome)
        ensures
            r == rpc_outcome(self.targets(), *req),
            r matches RouteOutcome::Matched(i) ==> i < self.targets().len(),
    {
        proof {
            use_type_invariant(self);
        }
        let ghost targets = self.targets();
        let root = req.path.len() == 1 && req.path[0] == 47;
        if !root || req.query.is_some() {
            assert(root <==> req.path@ =~= seq![47u8]);
            return RouteOutcome::NotFound;
        }
        assert(req.path@ =~= seq![47u8]);
        if let Method::Post = req.method {
        } else {
            return RouteOutcome::MethodNotAllowed;
        }
        let value = match &req.target_header {
            Some(v) => v,
            None => {
                return RouteOutcome::NotFound;
            },
        };
        if !header_text(value.as_slice()) {
            return RouteOutcome::NotFound;
        }
        let n = self.routes.len();
        let mut i: usize = 0;
        while i < n
            invariant
                n == targets.len(),
                targets == self.targets(),
                distinct_targets(targets),
                req.path@ == seq![47u8],
                req.query is None,
                req.method is Post,
                req.target_view() == Some(value@),
                is_header_text(value@),
                i <= n,
                forall|k: int| 0 <= k < i ==> text_bytes(#[trigger] targets[k]) != value@,
            decreases n - i,
        {
            let t = &self.routes[i].1;
            assert(t@ == targets[i as int]);
            if bytes_equal(t.as_str().as_bytes(), value.as_slice()) {
                proof {
                    let c = choose|c: int| 0 <= c < targets.len() && text_bytes(targets[c]) == value@;
                    encode_utf8_decode_utf8(targets[c]);
                    encode_utf8_decode_utf8(targets[i as int]);
                    assert(targets[c] == targets[i as int]);
                }
                return RouteOutcome::Matched(i);
            }
            i += 1;
        }
        RouteOutcome::NotFound
    }

    /// The same routes with every handler replaced by `f` of it.
    pub fn map_handlers<H2, F: Fn(H) -> H2>(self, f: F) -> (r: AwsJsonRouter<H2>)
        requires
            forall|h: H| f.requires((h,)),
        ensures
            r.targets() == self.targets(),
            r.handlers().len() == self.handlers().len(),
            forall|i: int|
                0 <= i < self.handlers().len() ==> f.ensures(
                    (self.handlers()[i],),
                    #[trigger] r.handlers()[i],
                ),
    {
        proof {
            use_type_invariant(&self);
        }
        let ghost old_routes = self.routes@;
        let mut rest = self.routes;
        let mut out: Vec<(H2, String)> = Vec::new();
        let n = rest.len();
        let mut k: usize = 0;
        while k < n
            invariant
                n == old_routes.len(),
                k <= n,
                rest@ == old_routes.skip(k as int),
                out@.len() == k,
                forall|h: H| f.requires((h,)),
                forall|j: int| 0 <= j < k ==> (#[trigger] out@[j]).1 == old_routes[j].1,
                forall|j: int| 0 <= j < k ==> f.ensures((old_routes[j].0,), (#[trigger] out@[j]).0),
            decreases n - k,
        {
            let (h, target) = rest.remove(0);
            assert(rest@ =~= old_routes.skip(k + 1));
            out.push((f(h), target));
            k += 1;
        }
        assert(targets_of(out@) =~= targets_of(old_routes));
        AwsJsonRouter { routes: out }
    }
}

/// Whether every byte of a header value is header text.
fn header_text(v: &[u8]) -> (r: bool)
    ensures
        r == is_header_text(v@),
{
    let mut i: usize = 0;
    while i < v.len()
        invariant
            i <= v@.len(),
            forall|k: int| 0 <= k < i ==> is_header_text_byte(#[trigger] v@[k]),
        decreases v.len() - i,
    {
        let b = v[i];
        if !((32 <= b && b < 127) || b == 9) {
            assert(!is_header_text_byte(v@[i as int]));
            return false;
        }
        i += 1;
    }
    true
}

impl<H: Clone> Clone for AwsJsonRouter<H> {
    /// A router with clones of the same routes.
    fn clone(&self) -> (r: AwsJsonRouter<H>)
        ensures
            r.targets() == self.targets(),
            r.handlers().len() == self.handlers().len(),
            forall|i: int|
                0 <= i < self.handlers().len() ==> cloned(self.handlers()[i], #[trigger] r.handlers()[i]),
    {
        proof {
            use_type_invariant(self);
        }
        let mut routes: Vec<(H, String)> = Vec::new();
        let mut i: usize = 0;
        while i < self.routes.len()
            invariant
                i <= self.routes@.len(),
                targets_of(routes@) == self.targets().take(i as int),
                routes@.len() == i,
                forall|k: int| 0 <= k < i ==> cloned(self.routes@[k].0, (#[trigger] routes@[k]).0),
            decreases self.routes.len() - i,
        {
            let (h, target) = &self.routes[i];
            assert(self.targets()[i as int] == target@);
            let ghost before = routes@;
            routes.push((h.clone(), target.clone()));
            assert(targets_of(routes@) =~= targets_of(before).push(target@));
            i += 1;
            assert(targets_of(routes@) =~= self.targets().take(i as int));
        }
        assert(self.targets().take(i as int) =~= self.targets());
        AwsJsonRouter { routes }
    }
}

} // verus!
