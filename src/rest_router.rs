//! Routing for path-and-query protocols: every route is tried, and the one
//! that ranks highest among those the request reaches wins.
use vstd::prelude::*;
use crate::outcome::{RouteOutcome, RouterError};
use crate::request::Request;
use crate::uri::decoded_path;
use crate::request_spec::{
    lemma_equal_rank_reach_conflicts, lemma_rank_asymmetric, lemma_rank_total,
    lemma_rank_transitive, path_matches, DecodedRequest, RequestSpec,
};

verus! {

/// The specifications of a list of routes.
pub open spec fn specs_of<H>(routes: Seq<(H, RequestSpec)>) -> Seq<RequestSpec> {
    routes.map_values(|r: (H, RequestSpec)| r.1)
}

/// The handlers of a list of routes.
pub open spec fn handlers_of<H, K>(routes: Seq<(H, K)>) -> Seq<H> {
    routes.map_values(|r: (H, K)| r.0)
}

/// No two routes conflict.
pub open spec fn no_conflicts(specs: Seq<RequestSpec>) -> bool {
    forall|i: int, j: int|
        0 <= i < specs.len() && 0 <= j < specs.len() && i != j ==> !(#[trigger] specs[i].conflicts_with(
            &specs[j],
        ))
}

/// Routes that a router accepts: each pattern is well formed and no two
/// routes conflict.
pub open spec fn routable(specs: Seq<RequestSpec>) -> bool {
    &&& forall|i: int| 0 <= i < specs.len() ==> (#[trigger] specs[i]).well_formed()
    &&& no_conflicts(specs)
}

/// Route `i` is reached by the request and ranks above every other route
/// that the request reaches.
pub open spec fn is_best(specs: Seq<RequestSpec>, req: Request, i: int) -> bool {
    &&& 0 <= i < specs.len()
    &&& specs[i].dispatches(req)
    &&& forall|j: int|
        0 <= j < specs.len() && j != i && (#[trigger] specs[j]).dispatches(req)
            ==> specs[i].more_specific_than(&specs[j])
}

/// Where a request goes: to the best route it reaches; if it reaches none but
/// matches some route's path and query, it is refused for its method; else
/// nothing is found.
pub open spec fn rest_outcome(specs: Seq<RequestSpec>, req: Request) -> RouteOutcome {
    if exists|i: int| 0 <= i < specs.len() && (#[trigger] specs[i]).dispatches(req) {
        RouteOutcome::Matched((choose|i: int| is_best(specs, req, i)) as usize)
    } else if exists|i: int| 0 <= i < specs.len() && (#[trigger] specs[i]).matches_path_and_query(req) {
        RouteOutcome::MethodNotAllowed
    } else {
        RouteOutcome::NotFound
    }
}

/// At most one route is best for a request.
pub proof fn lemma_best_unique(specs: Seq<RequestSpec>, req: Request, i: int, j: int)
    requires
        is_best(specs, req, i),
        is_best(specs, req, j),
    ensures
        i == j,
{
    if i != j {
        lemma_rank_asymmetric(specs[i], specs[j]);
    }
}

/// Among routes that a router accepts, no two that a request reaches are of
/// the same rank: one of them always ranks above the other.
pub proof fn lemma_reached_routes_are_ordered(specs: Seq<RequestSpec>, req: Request, i: int, j: int)
    requires
        no_conflicts(specs),
        0 <= i < specs.len(),
        0 <= j < specs.len(),
        i != j,
        specs[i].dispatches(req),
        specs[j].dispatches(req),
    ensures
        specs[i].more_specific_than(&specs[j]) || specs[j].more_specific_than(&specs[i]),
{
    lemma_rank_total(specs[i], specs[j]);
    if specs[i].same_rank(&specs[j]) {
        lemma_equal_rank_reach_conflicts(specs[i], specs[j], req);
    }
}

/// A request whose path and query match exactly one route, with that
/// route's method, goes to that route.
pub proof fn lemma_sole_match_is_routed(specs: Seq<RequestSpec>, req: Request, i: int)
    requires
        0 <= i < specs.len(),
        specs[i].dispatches(req),
        forall|j: int|
            0 <= j < specs.len() && j != i ==> !(#[trigger] specs[j]).matches_path_and_query(req),
    ensures
        rest_outcome(specs, req) == RouteOutcome::Matched(i as usize),
{
    assert(is_best(specs, req, i));
    let c = choose|c: int| is_best(specs, req, c);
    lemma_best_unique(specs, req, i, c);
}

/// A request whose path and query match a route but whose method it does
/// not have is refused for its method, as long as no route matches it with
/// its method.
pub proof fn lemma_wrong_method_is_refused(specs: Seq<RequestSpec>, req: Request, i: int)
    requires
        0 <= i < specs.len(),
        specs[i].matches_path_and_query(req),
        !specs[i].method.same_as(&req.method),
        forall|j: int| 0 <= j < specs.len() ==> !(#[trigger] specs[j]).dispatches(req),
    ensures
        rest_outcome(specs, req) == RouteOutcome::MethodNotAllowed,
{
}

/// A request whose path matches no route's path pattern is not found.
pub proof fn lemma_unmatched_path_is_not_found(specs: Seq<RequestSpec>, req: Request)
    requires
        forall|j: int|
            0 <= j < specs.len() ==> !(decoded_path(req.path@) matches Some(segs) && path_matches(
                (#[trigger] specs[j]).path_view(),
                segs,
            )),
    ensures
        rest_outcome(specs, req) == RouteOutcome::NotFound,
{
    assert forall|j: int| 0 <= j < specs.len() implies !(#[trigger] specs[j]).matches_path_and_query(
        req,
    ) by {
        assert(!(decoded_path(req.path@) matches Some(segs) && path_matches(specs[j].path_view(), segs)));
    }
}

/// Of two routes with the same method and the same path pattern, one of
/// which requires a query key and the other no query at all, a request that
/// carries the key goes to the one that requires it.
pub proof fn lemma_query_key_outranks(a: RequestSpec, b: RequestSpec, req: Request)
    requires
        a.method == b.method,
        a.path_view() == b.path_view(),
        a.query_view().len() == 0,
        b.query_view().len() == 1,
        b.query_view()[0] is Key,
        b.dispatches(req),
    ensures
        b.more_specific_than(&a),
        rest_outcome(seq![a, b], req) == RouteOutcome::Matched(1),
{
    let specs = seq![a, b];
    assert(specs[0] == a && specs[1] == b);
    assert(is_best(specs, req, 1));
    let c = choose|c: int| is_best(specs, req, c);
    lemma_best_unique(specs, req, 1, c);
}

/// Two routes that some request reaches with neither ranking above the
/// other are never accepted together.
pub proof fn lemma_equal_rank_is_refused(specs: Seq<RequestSpec>, req: Request, i: int, j: int)
    requires
        0 <= i < specs.len(),
        0 <= j < specs.len(),
        i != j,
        specs[i].dispatches(req),
        specs[j].dispatches(req),
        !specs[i].more_specific_than(&specs[j]),
        !specs[j].more_specific_than(&specs[i]),
    ensures
        !routable(specs),
{
    lemma_rank_total(specs[i], specs[j]);
    lemma_equal_rank_reach_conflicts(specs[i], specs[j], req);
    assert(specs[i].conflicts_with(&specs[j]));
}

/// Among routes that a router accepts, a request that reaches some route has
/// a best route among the first `n` it reaches, once any of those reach it.
proof fn lemma_best_in_prefix(specs: Seq<RequestSpec>, req: Request, n: int) -> (b: int)
    requires
        no_conflicts(specs),
        0 <= n <= specs.len(),
        exists|k: int| 0 <= k < n && (#[trigger] specs[k]).dispatches(req),
    ensures
        0 <= b < n,
        specs[b].dispatches(req),
        forall|k: int|
            0 <= k < n && k != b && (#[trigger] specs[k]).dispatches(req)
                ==> specs[b].more_specific_than(&specs[k]),
    decreases n,
{
    let last = n - 1;
    if !exists|k: int| 0 <= k < last && (#[trigger] specs[k]).dispatches(req) {
        last
    } else {
        let b0 = lemma_best_in_prefix(specs, req, last);
        if specs[last].dispatches(req) {
            lemma_reached_routes_are_ordered(specs, req, b0, last);
            if specs[last].more_specific_than(&specs[b0]) {
                assert forall|k: int|
                    0 <= k < n && k != last && (#[trigger] specs[k]).dispatches(req)
                        implies specs[last].more_specific_than(&specs[k]) by {
                    if k != b0 {
                        lemma_rank_transitive(specs[last], specs[b0], specs[k]);
                    }
                }
                last
            } else {
                b0
            }
        } else {
            b0
        }
    }
}

/// Among routes that a router accepts, a request that reaches some route
/// has a best route.
pub proof fn lemma_best_exists(specs: Seq<RequestSpec>, req: Request)
    requires
        no_conflicts(specs),
        exists|k: int| 0 <= k < specs.len() && (#[trigger] specs[k]).dispatches(req),
    ensures
        exists|b: int| is_best(specs, req, b),
{
    let b = lemma_best_in_prefix(specs, req, specs.len() as int);
    assert(is_best(specs, req, b));
}

/// Two route lists of the same length whose routes pairwise route alike.
pub open spec fn specs_alike(a: Seq<RequestSpec>, b: Seq<RequestSpec>) -> bool {
    a.len() == b.len() && forall|i: int| 0 <= i < a.len() ==> (#[trigger] a[i]).same_spec(&b[i])
}

/// Accepted route lists whose routes pairwise route alike send every request
/// to the same place.
pub proof fn lemma_alike_routes_route_alike(a: Seq<RequestSpec>, b: Seq<RequestSpec>, req: Request)
    requires
        specs_alike(a, b),
        routable(a),
        routable(b),
    ensures
        rest_outcome(a, req) == rest_outcome(b, req),
{
    assert forall|i: int| 0 <= i < a.len() implies (#[trigger] a[i]).dispatches(req) == b[i].dispatches(req)
        && a[i].matches_path_and_query(req) == b[i].matches_path_and_query(req) by {
        assert(a[i].same_spec(&b[i]));
    }
    assert forall|i: int| is_best(a, req, i) <==> is_best(b, req, i) by {
        if 0 <= i < a.len() {
            assert(a[i].same_spec(&b[i]));
            assert forall|j: int| 0 <= j < a.len() implies (#[trigger] a[i].more_specific_than(&a[j]))
                == b[i].more_specific_than(&b[j]) by {
                assert(a[j].same_spec(&b[j]));
            }
            if is_best(a, req, i) {
                assert forall|j: int|
                    0 <= j < b.len() && j != i && (#[trigger] b[j]).dispatches(req)
                        implies b[i].more_specific_than(&b[j]) by {
                    assert(a[j].dispatches(req));
                    assert(a[i].more_specific_than(&a[j]));
                }
            }
            if is_best(b, req, i) {
                assert forall|j: int|
                    0 <= j < a.len() && j != i && (#[trigger] a[j]).dispatches(req)
                        implies a[i].more_specific_than(&a[j]) by {
                    assert(b[j].dispatches(req));
                    assert(b[i].more_specific_than(&b[j]));
                }
            }
        }
    }
    if exists|k: int| 0 <= k < a.len() && (#[trigger] a[k]).dispatches(req) {
        lemma_best_exists(a, req);
        let w = choose|w: int| is_best(a, req, w);
        let ca = choose|i: int| is_best(a, req, i);
        let cb = choose|i: int| is_best(b, req, i);
        lemma_best_unique(a, req, w, ca);
        lemma_best_unique(b, req, w, cb);
        assert(exists|k: int| 0 <= k < b.len() && (#[trigger] b[k]).dispatches(req)) by {
            let k = choose|k: int| 0 <= k < a.len() && (#[trigger] a[k]).dispatches(req);
            assert(b[k].dispatches(req));
        }
    } else {
        assert(!exists|k: int| 0 <= k < b.len() && (#[trigger] b[k]).dispatches(req)) by {
            if exists|k: int| 0 <= k < b.len() && (#[trigger] b[k]).dispatches(req) {
                let k = choose|k: int| 0 <= k < b.len() && (#[trigger] b[k]).dispatches(req);
                assert(a[k].dispatches(req));
            }
        }
        if exists|k: int| 0 <= k < a.len() && (#[trigger] a[k]).matches_path_and_query(req) {
            let k = choose|k: int| 0 <= k < a.len() && (#[trigger] a[k]).matches_path_and_query(req);
            assert(b[k].matches_path_and_query(req));
        }
        if exists|k: int| 0 <= k < b.len() && (#[trigger] b[k]).matches_path_and_query(req) {
            let k = choose|k: int| 0 <= k < b.len() && (#[trigger] b[k]).matches_path_and_query(req);
            assert(a[k].matches_path_and_query(req));
        }
    }
}

/// A router over path-and-query routes, kept in registration order.
#[derive(Debug)]
pub struct RestRouter<H> {
    routes: Vec<(H, RequestSpec)>,
}

impl<H> RestRouter<H> {
    #[verifier::type_invariant]
    spec fn inv(self) -> bool {
        routable(self.specs())
    }

    /// The routes' specifications, in registration order.
    pub closed spec fn specs(&self) -> Seq<RequestSpec> {
        specs_of(self.routes@)
    }

    /// The routes' handlers, in registration order.
    pub closed spec fn handlers(&self) -> Seq<H> {
        handlers_of(self.routes@)
    }

    /// A router over these routes; refused when a pattern has more than one
    /// greedy segment or two routes conflict.
    pub fn new(routes: Vec<(H, RequestSpec)>) -> (r: Result<RestRouter<H>, RouterError>)
        ensures
            r is Ok <==> routable(specs_of(routes@)),
            r matches Ok(router) ==> router.specs() == specs_of(routes@) && router.handlers()
                == handlers_of(routes@),
            r matches Err(RouterError::InvalidPattern { index }) ==> index < routes@.len()
                && !specs_of(routes@)[index as int].well_formed(),
            r matches Err(RouterError::AmbiguousRoutes { first, second }) ==> first
                < routes@.len() && second < routes@.len() && first != second && specs_of(
                routes@,
            )[first as int].conflicts_with(&specs_of(routes@)[second as int]),
            !(r matches Err(RouterError::DuplicateTarget { .. })),
    {
        let ghost specs = specs_of(routes@);
        let n = routes.len();
        let mut i: usize = 0;
        while i < n
            invariant
                n == routes@.len(),
                specs == specs_of(routes@),
                i <= n,
                forall|k: int| 0 <= k < i ==> (#[trigger] specs[k]).well_formed(),
                forall|a: int, b: int|
                    0 <= a < i && 0 <= b < n && a != b ==> !(#[trigger] specs[a].conflicts_with(
                        &specs[b],
                    )),
            decreases n - i,
        {
            assert(routes@[i as int].1 == specs[i as int]);
            if !routes[i].1.is_well_formed() {
                assert(!specs[i as int].well_formed());
                return Err(RouterError::InvalidPattern { index: i });
            }
            let mut j: usize = 0;
            while j < n
                invariant
                    n == routes@.len(),
                    specs == specs_of(routes@),
                    i < n,
                    j <= n,
                    forall|b: int| 0 <= b < j && b != i ==> !(#[trigger] specs[i as int].conflicts_with(
                        &specs[b],
                    )),
                decreases n - j,
            {
                assert(routes@[i as int].1 == specs[i as int]);
                assert(routes@[j as int].1 == specs[j as int]);
                if j != i && routes[i].1.is_in_conflict_with(&routes[j].1) {
                    assert(specs[i as int].conflicts_with(&specs[j as int]));
                    return Err(RouterError::AmbiguousRoutes { first: i, second: j });
                }
                j += 1;
            }
            i += 1;
        }
        Ok(RestRouter { routes })
    }

    /// The number of routes.
    pub fn len(&self) -> (r: usize)
        ensures
            r == self.specs().len(),
            r == self.handlers().len(),
            routable(self.specs()),
    {
        proof {
            use_type_invariant(self);
        }
        self.routes.len()
    }

    /// The handler of the route at index `i`.
    pub fn handler(&self, i: usize) -> (r: &H)
        requires
            i < self.handlers().len(),
        ensures
            *r == self.handlers()[i as int],
    {
        &self.routes[i].0
    }

    /// Routes one request.
    pub fn match_route(&self, req: &Request) -> (r: RouteOutcome)
        ensures
            r == rest_outcome(self.specs(), *req),
            r matches RouteOutcome::Matched(i) ==> i < self.specs().len(),
    {
        proof {
            use_type_invariant(self);
        }
        let ghost specs = self.specs();
        let d = DecodedRequest::new(req);
        let n = self.routes.len();
        let mut best: Option<usize> = None;
        let mut path_hit: bool = false;
        let mut i: usize = 0;
        while i < n
            invariant
                n == specs.len(),
                specs == self.specs(),
                routable(specs),
                d.decodes(*req),
                i <= n,
                path_hit == exists|k: int|
                    0 <= k < i && (#[trigger] specs[k]).matches_path_and_query(*req),
                best is None ==> forall|k: int| 0 <= k < i ==> !(#[trigger] specs[k]).dispatches(*req),
                best matches Some(b) ==> {
                    &&& b < i
                    &&& specs[b as int].dispatches(*req)
                    &&& forall|k: int|
                        0 <= k < i && k != b && (#[trigger] specs[k]).dispatches(*req)
                            ==> specs[b as int].more_specific_than(&specs[k])
                },
            decreases n - i,
        {
            let spec = &self.routes[i].1;
            assert(*spec == specs[i as int]);
            if spec.matches_decoded(req, &d) {
                path_hit = true;
                if spec.method.is_same(&req.method) {
                    match best {
                        None => {
                            best = Some(i);
                        },
                        Some(b) => {
                            let current = &self.routes[b].1;
                            assert(*current == specs[b as int]);
                            if spec.is_more_specific_than(current) {
                                proof {
                                    assert forall|k: int|
                                        0 <= k < i + 1 && k != i && (#[trigger] specs[k]).dispatches(
                                            *req,
                                        ) implies specs[i as int].more_specific_than(&specs[k]) by {
                                        if k != b {
                                            lemma_rank_transitive(
                                                specs[i as int],
                                                specs[b as int],
                                                specs[k],
                                            );
                                        }
                                    }
                                }
                                best = Some(i);
                            } else {
                                proof {
                                    lemma_reached_routes_are_ordered(
                                        specs,
                                        *req,
                                        b as int,
                                        i as int,
                                    );
                                }
                            }
                        },
                    }
                }
            }
            i += 1;
        }
        match best {
            Some(b) => {
                proof {
                    assert(is_best(specs, *req, b as int));
                    let c = choose|c: int| is_best(specs, *req, c);
                    lemma_best_unique(specs, *req, b as int, c);
                }
                RouteOutcome::Matched(b)
            },
            None => {
                if path_hit {
                    RouteOutcome::MethodNotAllowed
                } else {
                    RouteOutcome::NotFound
                }
            },
        }
    }

    /// The same routes with every handler replaced by `f` of it.
    pub fn map_handlers<H2, F: Fn(H) -> H2>(self, f: F) -> (r: RestRouter<H2>)
        requires
            forall|h: H| f.requires((h,)),
        ensures
            r.specs() == self.specs(),
            r.handlers().len() == self.handlers().len(),
            forall|i: int|
                0 <= i < self.handlers().len() ==> f.ensures(
                    (self.handlers()[i],),
                    #[trigger] r.handlers()[i],
                ),
    {
        proof {
            use_type_invariant(&self);
        }
        let ghost old_routes = self.routes@;
        let mut rest = self.routes;
        let mut out: Vec<(H2, RequestSpec)> = Vec::new();
        let n = rest.len();
        let mut k: usize = 0;
        while k < n
            invariant
                n == old_routes.len(),
                k <= n,
                rest@ == old_routes.skip(k as int),
                out@.len() == k,
                forall|h: H| f.requires((h,)),
                forall|j: int| 0 <= j < k ==> (#[trigger] out@[j]).1 == old_routes[j].1,
                forall|j: int| 0 <= j < k ==> f.ensures((old_routes[j].0,), (#[trigger] out@[j]).0),
            decreases n - k,
        {
            let (h, spec) = rest.remove(0);
            assert(rest@ =~= old_routes.skip(k + 1));
            out.push((f(h), spec));
            k += 1;
        }
        assert(specs_of(out@) =~= specs_of(old_routes));
        RestRouter { routes: out }
    }
}

impl<H: Clone> Clone for RestRouter<H> {
    /// A router with clones of the same routes.
    fn clone(&self) -> (r: RestRouter<H>)
        ensures
            specs_alike(r.specs(), self.specs()),
            r.handlers().len() == self.handlers().len(),
            forall|i: int|
                0 <= i < self.handlers().len() ==> cloned(self.handlers()[i], #[trigger] r.handlers()[i]),
    {
        proof {
            use_type_invariant(self);
        }
        let ghost old_specs = self.specs();
        let mut routes: Vec<(H, RequestSpec)> = Vec::new();
        let mut i: usize = 0;
        while i < self.routes.len()
            invariant
                old_specs == self.specs(),
                i <= self.routes@.len(),
                routes@.len() == i,
                forall|k: int| 0 <= k < i ==> (#[trigger] routes@[k]).1.same_spec(&old_specs[k]),
                forall|k: int| 0 <= k < i ==> cloned(self.routes@[k].0, (#[trigger] routes@[k]).0),
            decreases self.routes.len() - i,
        {
            let (h, spec) = &self.routes[i];
            routes.push((h.clone(), spec.clone()));
            i += 1;
        }
        let ghost new_specs = specs_of(routes@);
        assert forall|a: int, b: int|
            0 <= a < new_specs.len() && 0 <= b < new_specs.len() && a != b implies !(#[trigger] new_specs[a].conflicts_with(
            &new_specs[b],
        )) by {
            assert(!old_specs[a].conflicts_with(&old_specs[b]));
        }
        assert forall|a: int| 0 <= a < new_specs.len() implies (#[trigger] new_specs[a]).well_formed() by {
            assert(old_specs[a].well_formed());
        }
        RestRouter { routes }
    }
}

} // verus!
