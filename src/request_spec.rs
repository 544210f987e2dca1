//! Route specifications for path-and-query protocols, how a request is
//! matched against one, and how two specifications are ranked.
use vstd::prelude::*;
use crate::method::Method;
use crate::request::{text_bytes, Request};
use crate::uri::{byte_views, decode_path, decoded_path, pair_views, parse_query, query_pairs};

verus! {

/// One segment of a URI path pattern.
#[derive(Debug)]
pub enum PathSegment {
    /// Matches exactly this (decoded) segment.
    Literal(String),
    /// Matches any one segment.
    Label,
    /// Matches one or more consecutive segments.
    Greedy,
}

/// One constraint on the query string.
#[derive(Debug)]
pub enum QuerySegment {
    /// The key is present, with any value.
    Key(String),
    /// The key is present with this value (among any other values it has).
    KeyValue(String, String),
}

/// The outcome of matching one request against one specification.
#[derive(Clone, Copy, Debug, PartialEq, Eq, Structural)]
pub enum Match {
    /// The path, the query and the method match.
    Yes,
    /// The path and the query match; the method does not.
    MethodNotAllowed,
    /// The path or the query does not match.
    No,
}

/// What a request must look like to be routed to an operation: its method,
/// its path pattern and its query constraints.
#[derive(Debug)]
pub struct RequestSpec {
    pub method: Method,
    pub path_segments: Vec<PathSegment>,
    pub query_segments: Vec<QuerySegment>,
}

/// Whether a single decoded request segment satisfies a pattern segment: a
/// literal needs exactly its text, a label or greedy segment takes any.
pub open spec fn segment_accepts(p: PathSegment, seg: Seq<u8>) -> bool {
    match p {
        PathSegment::Literal(l) => seg == text_bytes(l@),
        _ => true,
    }
}

/// The specificity weight of a pattern segment: a literal outranks a label,
/// which outranks a greedy segment.
pub open spec fn weight(p: PathSegment) -> int {
    match p {
        PathSegment::Literal(_) => 2,
        PathSegment::Label => 1,
        PathSegment::Greedy => 0,
    }
}

/// The weights of a path pattern, position by position.
pub open spec fn shape(p: Seq<PathSegment>) -> Seq<int> {
    p.map_values(|s: PathSegment| weight(s))
}

/// The index of the first `0` (greedy) weight, or the length when there is none.
pub open spec fn first_zero(s: Seq<int>) -> int
    decreases s.len(),
{
    if s.len() == 0 {
        0
    } else if s[0] == 0 {
        0
    } else {
        1 + first_zero(s.drop_first())
    }
}

/// The number of literal weights.
pub open spec fn count_literals(s: Seq<int>) -> int
    decreases s.len(),
{
    if s.len() == 0 {
        0
    } else {
        count_literals(s.drop_last()) + if s.last() == 2 {
            1int
        } else {
            0int
        }
    }
}

/// The position of the pattern's (first) greedy segment, or its length when
/// it has none.
pub open spec fn greedy_position(p: Seq<PathSegment>) -> int {
    first_zero(shape(p))
}

/// The index of the request segment that pattern position `i` is compared
/// with, for a pattern of `p_len` segments whose greedy segment stands at `g`
/// and a request of `n` segments: positions after the greedy segment are
/// counted from the end.
pub open spec fn aligned(p_len: int, g: int, n: int, i: int) -> int {
    if i > g {
        i + n - p_len
    } else {
        i
    }
}

/// Pattern position `i` accepts the request segment aligned with it.
pub open spec fn position_ok(p: Seq<PathSegment>, segs: Seq<Seq<u8>>, i: int) -> bool {
    segment_accepts(p[i], segs[aligned(p.len() as int, greedy_position(p), segs.len() as int, i)])
}

/// Whether decoded request segments match a path pattern: every pattern
/// segment and every request segment is used, the greedy segment (if any)
/// covers at least one request segment, and every other pattern segment
/// accepts the request segment aligned with it.
pub open spec fn path_matches(p: Seq<PathSegment>, segs: Seq<Seq<u8>>) -> bool {
    let g = greedy_position(p);
    let n = segs.len() as int;
    &&& if g < p.len() {
        n >= p.len()
    } else {
        n == p.len()
    }
    &&& forall|i: int| 0 <= i < p.len() && i != g ==> #[trigger] position_ok(p, segs, i)
}

/// Whether decoded query pairs satisfy one constraint.
pub open spec fn constraint_met(q: QuerySegment, pairs: Seq<(Seq<u8>, Seq<u8>)>) -> bool {
    match q {
        QuerySegment::Key(k) => exists|i: int|
            0 <= i < pairs.len() && (#[trigger] pairs[i]).0 == text_bytes(k@),
        QuerySegment::KeyValue(k, v) => exists|i: int|
            0 <= i < pairs.len() && #[trigger] pairs[i] == (text_bytes(k@), text_bytes(v@)),
    }
}

/// Whether a request's query string satisfies all constraints. Without
/// constraints any query (or none) matches; with constraints a query string
/// must be present.
pub open spec fn query_matches(qs: Seq<QuerySegment>, query: Option<Seq<u8>>) -> bool {
    qs.len() == 0 || (query is Some && forall|j: int|
        0 <= j < qs.len() ==> #[trigger] constraint_met(qs[j], query_pairs(query->0)))
}

/// `a` ranks above `b` in the lexicographic order of weight sequences, where
/// a proper prefix ranks below the longer sequence.
pub open spec fn lex_greater(a: Seq<int>, b: Seq<int>) -> bool
    decreases a.len(),
{
    if a.len() == 0 {
        false
    } else if b.len() == 0 {
        true
    } else if a[0] != b[0] {
        a[0] > b[0]
    } else {
        lex_greater(a.drop_first(), b.drop_first())
    }
}

impl RequestSpec {
    pub open spec fn path_view(&self) -> Seq<PathSegment> {
        self.path_segments@
    }

    pub open spec fn query_view(&self) -> Seq<QuerySegment> {
        self.query_segments@
    }

    /// At most one greedy segment.
    pub open spec fn well_formed(&self) -> bool {
        forall|i: int, j: int|
            0 <= i < j < self.path_view().len() && #[trigger] self.path_view()[i] is Greedy
                ==> !(#[trigger] self.path_view()[j] is Greedy)
    }

    /// The request's path and query match, whatever its method.
    pub open spec fn matches_path_and_query(&self, req: Request) -> bool {
        match decoded_path(req.path@) {
            Some(segs) => path_matches(self.path_view(), segs) && query_matches(
                self.query_view(),
                req.query_view(),
            ),
            None => false,
        }
    }

    /// The request would be dispatched to this specification's operation if
    /// no other specification ranked above it.
    pub open spec fn dispatches(&self, req: Request) -> bool {
        self.matches_path_and_query(req) && self.method.same_as(&req.method)
    }

    pub open spec fn match_spec(&self, req: Request) -> Match {
        if !self.matches_path_and_query(req) {
            Match::No
        } else if self.method.same_as(&req.method) {
            Match::Yes
        } else {
            Match::MethodNotAllowed
        }
    }

    pub open spec fn literal_count(&self) -> int {
        count_literals(shape(self.path_view()))
    }

    /// Specificity: more literal segments rank higher; with as many literals,
    /// the first position where the weights differ decides (a literal over a
    /// label over a greedy segment); with the same weights, more query
    /// constraints rank higher.
    pub open spec fn more_specific_than(&self, other: &RequestSpec) -> bool {
        let sa = shape(self.path_view());
        let sb = shape(other.path_view());
        ||| self.literal_count() > other.literal_count()
        ||| self.literal_count() == other.literal_count() && lex_greater(sa, sb)
        ||| sa == sb && self.query_view().len() > other.query_view().len()
    }

    /// Neither ranks above the other.
    pub open spec fn same_rank(&self, other: &RequestSpec) -> bool {
        shape(self.path_view()) == shape(other.path_view()) && self.query_view().len()
            == other.query_view().len()
    }

    /// Two specifications that some request could reach with neither ranking
    /// above the other: the same method, the same rank, and the same literal
    /// at every literal position.
    pub open spec fn conflicts_with(&self, other: &RequestSpec) -> bool {
        &&& self.method.same_as(&other.method)
        &&& self.same_rank(other)
        &&& forall|i: int|
            0 <= i < self.path_view().len() && (#[trigger] self.path_view()[i]) is Literal
                ==> other.path_view()[i] is Literal && text_bytes(
                self.path_view()[i]->Literal_0@,
            ) == text_bytes(other.path_view()[i]->Literal_0@)
    }
}

// ---------------------------------------------------------------------------
// The ranking is a strict order, total up to equal rank.

pub proof fn lemma_lex_irreflexive(a: Seq<int>)
    ensures
        !lex_greater(a, a),
    decreases a.len(),
{
    if a.len() > 0 {
        lemma_lex_irreflexive(a.drop_first());
    }
}

pub proof fn lemma_lex_asymmetric(a: Seq<int>, b: Seq<int>)
    ensures
        !(lex_greater(a, b) && lex_greater(b, a)),
    decreases a.len(),
{
    if a.len() > 0 && b.len() > 0 && a[0] == b[0] {
        lemma_lex_asymmetric(a.drop_first(), b.drop_first());
    }
}

pub proof fn lemma_lex_transitive(a: Seq<int>, b: Seq<int>, c: Seq<int>)
    requires
        lex_greater(a, b),
        lex_greater(b, c),
    ensures
        lex_greater(a, c),
    decreases a.len(),
{
    if a.len() > 0 && b.len() > 0 && c.len() > 0 && a[0] == b[0] && b[0] == c[0] {
        lemma_lex_transitive(a.drop_first(), b.drop_first(), c.drop_first());
    }
}

pub proof fn lemma_lex_total(a: Seq<int>, b: Seq<int>)
    ensures
        a == b || lex_greater(a, b) || lex_greater(b, a),
    decreases a.len(),
{
    if a.len() > 0 && b.len() > 0 && a[0] == b[0] {
        lemma_lex_total(a.drop_first(), b.drop_first());
        if a.drop_first() == b.drop_first() {
            assert(a =~= seq![a[0]] + a.drop_first());
            assert(b =~= seq![b[0]] + b.drop_first());
        }
    } else if a.len() == 0 && b.len() == 0 {
        assert(a =~= b);
    }
}

/// No specification ranks above itself, and no two rank above each other.
pub proof fn lemma_rank_asymmetric(a: RequestSpec, b: RequestSpec)
    ensures
        !a.more_specific_than(&a),
        !(a.more_specific_than(&b) && b.more_specific_than(&a)),
{
    lemma_lex_irreflexive(shape(a.path_view()));
    lemma_lex_asymmetric(shape(a.path_view()), shape(b.path_view()));
    lemma_lex_irreflexive(shape(b.path_view()));
}

/// Ranking above is transitive.
pub proof fn lemma_rank_transitive(a: RequestSpec, b: RequestSpec, c: RequestSpec)
    requires
        a.more_specific_than(&b),
        b.more_specific_than(&c),
    ensures
        a.more_specific_than(&c),
{
    let (sa, sb, sc) = (shape(a.path_view()), shape(b.path_view()), shape(c.path_view()));
    if lex_greater(sa, sb) && lex_greater(sb, sc) {
        lemma_lex_transitive(sa, sb, sc);
    }
}

/// Any two specifications are either of the same rank or one ranks above
/// the other.
pub proof fn lemma_rank_total(a: RequestSpec, b: RequestSpec)
    ensures
        a.same_rank(&b) || a.more_specific_than(&b) || b.more_specific_than(&a),
{
    lemma_lex_total(shape(a.path_view()), shape(b.path_view()));
}

proof fn lemma_first_zero_bound(s: Seq<int>)
    ensures
        0 <= first_zero(s) <= s.len(),
        first_zero(s) < s.len() ==> s[first_zero(s)] == 0,
        forall|k: int| 0 <= k < first_zero(s) ==> s[k] != 0,
    decreases s.len(),
{
    if s.len() > 0 && s[0] != 0 {
        lemma_first_zero_bound(s.drop_first());
        assert forall|k: int| 0 <= k < first_zero(s) implies s[k] != 0 by {
            if k > 0 {
                assert(s[k] == s.drop_first()[k - 1]);
            }
        }
    }
}

proof fn lemma_first_zero_at(s: Seq<int>, i: int)
    requires
        0 <= i <= s.len(),
        forall|k: int| 0 <= k < i ==> s[k] != 0,
        i == s.len() || s[i] == 0,
    ensures
        first_zero(s) == i,
    decreases i,
{
    if i > 0 {
        lemma_first_zero_at(s.drop_first(), i - 1);
    }
}

/// Two specifications of the same rank that a request reaches with the
/// same method conflict: a literal position of one is aligned with the same
/// request segment as the same position of the other.
pub proof fn lemma_equal_rank_reach_conflicts(a: RequestSpec, b: RequestSpec, req: Request)
    requires
        a.dispatches(req),
        b.dispatches(req),
        a.same_rank(&b),
    ensures
        a.conflicts_with(&b),
{
    let segs = decoded_path(req.path@)->0;
    let pa = a.path_view();
    let pb = b.path_view();
    assert(pa.len() == shape(pa).len());
    assert(pb.len() == shape(pb).len());
    assert(greedy_position(pa) == greedy_position(pb));
    assert forall|i: int| 0 <= i < pa.len() && (#[trigger] pa[i]) is Literal implies pb[i] is Literal
        && text_bytes(pa[i]->Literal_0@) == text_bytes(pb[i]->Literal_0@) by {
        assert(shape(pa)[i] == weight(pa[i]));
        assert(shape(pb)[i] == weight(pb[i]));
        lemma_first_zero_bound(shape(pa));
        assert(i != greedy_position(pa));
        assert(position_ok(pa, segs, i));
        assert(position_ok(pb, segs, i));
    }
}

impl Clone for PathSegment {
    fn clone(&self) -> (r: PathSegment)
        ensures
            r == *self,
    {
        match self {
            PathSegment::Literal(l) => PathSegment::Literal(l.clone()),
            PathSegment::Label => PathSegment::Label,
            PathSegment::Greedy => PathSegment::Greedy,
        }
    }
}

impl Clone for QuerySegment {
    fn clone(&self) -> (r: QuerySegment)
        ensures
            r == *self,
    {
        match self {
            QuerySegment::Key(k) => QuerySegment::Key(k.clone()),
            QuerySegment::KeyValue(k, v) => QuerySegment::KeyValue(k.clone(), v.clone()),
        }
    }
}

impl RequestSpec {
    /// Two specifications that route alike: the same method, path pattern
    /// and query constraints.
    pub open spec fn same_spec(&self, other: &RequestSpec) -> bool {
        self.method == other.method && self.path_view() == other.path_view()
            && self.query_view() == other.query_view()
    }
}

impl Clone for RequestSpec {
    fn clone(&self) -> (r: RequestSpec)
        ensures
            r.same_spec(self),
    {
        let path_segments = self.path_segments.clone();
        assert(path_segments@ =~= self.path_segments@);
        let query_segments = self.query_segments.clone();
        assert(query_segments@ =~= self.query_segments@);
        RequestSpec { method: self.method.clone(), path_segments, query_segments }
    }
}

// ---------------------------------------------------------------------------
// Executable matching.

/// Whether two byte strings are equal.
pub fn bytes_equal(a: &[u8], b: &[u8]) -> (r: bool)
    ensures
        r == (a@ == b@),
{
    if a.len() != b.len() {
        return false;
    }
    let mut i: usize = 0;
    while i < a.len()
        invariant
            a@.len() == b@.len(),
            i <= a@.len(),
            forall|k: int| 0 <= k < i ==> a@[k] == b@[k],
        decreases a.len() - i,
    {
        if a[i] != b[i] {
            return false;
        }
        i += 1;
    }
    assert(a@ =~= b@);
    true
}

fn segment_accepts_exec(p: &PathSegment, seg: &Vec<u8>) -> (r: bool)
    ensures
        r == segment_accepts(*p, seg@),
{
    match p {
        PathSegment::Literal(l) => bytes_equal(l.as_str().as_bytes(), seg.as_slice()),
        _ => true,
    }
}

/// The position of the first greedy segment, or the length when there is none.
fn greedy_index(p: &Vec<PathSegment>) -> (r: usize)
    ensures
        r == greedy_position(p@),
        r <= p@.len(),
{
    let mut i: usize = 0;
    while i < p.len()
        invariant
            i <= p@.len(),
            forall|k: int| 0 <= k < i ==> shape(p@)[k] != 0,
        ensures
            i <= p@.len(),
            forall|k: int| 0 <= k < i ==> shape(p@)[k] != 0,
            i < p@.len() ==> p@[i as int] is Greedy,
        decreases p.len() - i,
    {
        if is_greedy(&p[i]) {
            break;
        }
        assert(shape(p@)[i as int] == weight(p@[i as int]));
        i += 1;
    }
    proof {
        if i < p@.len() {
            assert(shape(p@)[i as int] == weight(p@[i as int]));
        }
        lemma_first_zero_at(shape(p@), i as int);
    }
    i
}

fn is_greedy(p: &PathSegment) -> (r: bool)
    ensures
        r == p is Greedy,
{
    match p {
        PathSegment::Greedy => true,
        _ => false,
    }
}

fn path_matches_exec(p: &Vec<PathSegment>, segs: &Vec<Vec<u8>>) -> (r: bool)
    ensures
        r == path_matches(p@, byte_views(segs@)),
{
    let ghost sv = byte_views(segs@);
    let n = segs.len();
    let plen = p.len();
    let g = greedy_index(p);
    if g < plen {
        if n < plen {
            return false;
        }
    } else if n != plen {
        return false;
    }
    let mut i: usize = 0;
    while i < plen
        invariant
            plen == p@.len(),
            n == segs@.len(),
            sv == byte_views(segs@),
            g == greedy_position(p@),
            g <= plen <= n,
            g == plen ==> n == plen,
            i <= plen,
            forall|k: int| 0 <= k < i && k != g ==> #[trigger] position_ok(p@, sv, k),
        decreases plen - i,
    {
        if i != g {
            let idx = if i > g {
                i + (n - plen)
            } else {
                i
            };
            assert(sv[idx as int] == segs@[idx as int]@);
            if !segment_accepts_exec(&p[i], &segs[idx]) {
                assert(!position_ok(p@, sv, i as int));
                return false;
            }
        }
        i += 1;
    }
    true
}

fn constraint_met_exec(q: &QuerySegment, pairs: &Vec<(Vec<u8>, Vec<u8>)>) -> (r: bool)
    ensures
        r == constraint_met(*q, pair_views(pairs@)),
{
    let ghost pv = pair_views(pairs@);
    let mut i: usize = 0;
    while i < pairs.len()
        invariant
            pv == pair_views(pairs@),
            i <= pairs@.len(),
            forall|k: int| 0 <= k < i ==> !#[trigger] constraint_met(*q, seq![pv[k]]),
        decreases pairs.len() - i,
    {
        let found = match q {
            QuerySegment::Key(k) => bytes_equal(k.as_str().as_bytes(), pairs[i].0.as_slice()),
            QuerySegment::KeyValue(k, v) => bytes_equal(
                k.as_str().as_bytes(),
                pairs[i].0.as_slice(),
            ) && bytes_equal(v.as_str().as_bytes(), pairs[i].1.as_slice()),
        };
        let ghost one = seq![pv[i as int]];
        assert(one[0] == pv[i as int]);
        if found {
            assert(constraint_met(*q, one));
            return true;
        }
        assert(!constraint_met(*q, one));
        i += 1;
    }
    assert(!constraint_met(*q, pv)) by {
        if constraint_met(*q, pv) {
            let k = choose|k: int|
                0 <= k < pv.len() && match *q {
                    QuerySegment::Key(key) => (#[trigger] pv[k]).0 == text_bytes(key@),
                    QuerySegment::KeyValue(key, v) => pv[k] == (text_bytes(key@), text_bytes(v@)),
                };
            let one = seq![pv[k]];
            assert(one[0] == pv[k]);
            assert(constraint_met(*q, one));
        }
    }
    false
}

fn query_matches_exec(qs: &Vec<QuerySegment>, pairs: &Option<Vec<(Vec<u8>, Vec<u8>)>>) -> (r:
    bool)
    requires
        qs@.len() > 0,
        pairs is Some,
    ensures
        r == forall|j: int|
            0 <= j < qs@.len() ==> #[trigger] constraint_met(qs@[j], pair_views(pairs->0@)),
{
    let ps = match pairs {
        Some(ps) => ps,
        None => {
            return false;
        },
    };
    let mut j: usize = 0;
    while j < qs.len()
        invariant
            j <= qs@.len(),
            pairs is Some,
            pairs->0@ == ps@,
            forall|k: int| 0 <= k < j ==> #[trigger] constraint_met(qs@[k], pair_views(ps@)),
        decreases qs.len() - j,
    {
        if !constraint_met_exec(&qs[j], ps) {
            assert(!constraint_met(qs@[j as int], pair_views(pairs->0@)));
            return false;
        }
        j += 1;
    }
    true
}

/// A request's path and query decoded once, to be matched against many
/// specifications.
pub struct DecodedRequest {
    segments: Option<Vec<Vec<u8>>>,
    pairs: Option<Vec<(Vec<u8>, Vec<u8>)>>,
}

impl DecodedRequest {
    pub closed spec fn decodes(&self, req: Request) -> bool {
        &&& match self.segments {
            None => decoded_path(req.path@) is None,
            Some(v) => decoded_path(req.path@) == Some(byte_views(v@)),
        }
        &&& match req.query_view() {
            None => self.pairs is None,
            Some(q) => self.pairs is Some && pair_views(self.pairs->0@) == query_pairs(q),
        }
    }

    pub fn new(req: &Request) -> (r: DecodedRequest)
        ensures
            r.decodes(*req),
    {
        let segments = decode_path(req.path.as_slice());
        let pairs = match &req.query {
            Some(q) => Some(parse_query(q.as_slice())),
            None => None,
        };
        DecodedRequest { segments, pairs }
    }
}

impl RequestSpec {
    /// A specification from its method, path pattern and query constraints.
    pub fn from_parts(
        method: Method,
        path_segments: Vec<PathSegment>,
        query_segments: Vec<QuerySegment>,
    ) -> (r: RequestSpec)
        ensures
            r.method == method,
            r.path_segments == path_segments,
            r.query_segments == query_segments,
    {
        RequestSpec { method, path_segments, query_segments }
    }

    /// Whether the path and the query of an already decoded request match.
    pub fn matches_decoded(&self, req: &Request, d: &DecodedRequest) -> (r: bool)
        requires
            d.decodes(*req),
        ensures
            r == self.matches_path_and_query(*req),
    {
        proof {
            reveal(DecodedRequest::decodes);
        }
        let segs = match &d.segments {
            Some(s) => s,
            None => {
                return false;
            },
        };
        if !path_matches_exec(&self.path_segments, segs) {
            return false;
        }
        if self.query_segments.len() == 0 {
            return true;
        }
        match &d.pairs {
            None => false,
            Some(_) => query_matches_exec(&self.query_segments, &d.pairs),
        }
    }

    /// Matches one request against this specification.
    pub fn matches(&self, req: &Request) -> (r: Match)
        ensures
            r == self.match_spec(*req),
    {
        let d = DecodedRequest::new(req);
        if !self.matches_decoded(req, &d) {
            Match::No
        } else if self.method.is_same(&req.method) {
            Match::Yes
        } else {
            Match::MethodNotAllowed
        }
    }

    /// Whether this specification ranks above `other`.
    pub fn is_more_specific_than(&self, other: &RequestSpec) -> (r: bool)
        ensures
            r == self.more_specific_than(other),
    {
        let la = count_literal_segments(&self.path_segments);
        let lb = count_literal_segments(&other.path_segments);
        if la != lb {
            return la > lb;
        }
        let c = compare_shapes(&self.path_segments, &other.path_segments);
        if c != 0 {
            return c > 0;
        }
        self.query_segments.len() > other.query_segments.len()
    }

    /// Whether this specification and `other` conflict.
    pub fn is_in_conflict_with(&self, other: &RequestSpec) -> (r: bool)
        ensures
            r == self.conflicts_with(other),
    {
        if !self.method.is_same(&other.method) {
            return false;
        }
        if compare_shapes(&self.path_segments, &other.path_segments) != 0 {
            return false;
        }
        if self.query_segments.len() != other.query_segments.len() {
            return false;
        }
        let pa = &self.path_segments;
        let pb = &other.path_segments;
        let mut i: usize = 0;
        while i < pa.len()
            invariant
                pa@ == self.path_view(),
                pb@ == other.path_view(),
                self.method.same_as(&other.method),
                self.same_rank(other),
                shape(pa@) == shape(pb@),
                pa@.len() == pb@.len(),
                i <= pa@.len(),
                forall|k: int|
                    0 <= k < i && (#[trigger] pa@[k]) is Literal ==> pb@[k] is Literal && text_bytes(
                        pa@[k]->Literal_0@,
                    ) == text_bytes(pb@[k]->Literal_0@),
            decreases pa.len() - i,
        {
            assert(shape(pa@)[i as int] == weight(pa@[i as int]));
            assert(shape(pb@)[i as int] == weight(pb@[i as int]));
            if let PathSegment::Literal(a) = &pa[i] {
                if let PathSegment::Literal(b) = &pb[i] {
                    if !bytes_equal(a.as_str().as_bytes(), b.as_str().as_bytes()) {
                        assert(pa@[i as int] is Literal);
                        return false;
                    }
                }
            }
            i += 1;
        }
        true
    }

    /// Whether the pattern has at most one greedy segment.
    pub fn is_well_formed(&self) -> (r: bool)
        ensures
            r == self.well_formed(),
    {
        let p = &self.path_segments;
        let mut seen: bool = false;
        let mut i: usize = 0;
        while i < p.len()
            invariant
                p@ == self.path_view(),
                i <= p@.len(),
                seen == exists|k: int| 0 <= k < i && #[trigger] p@[k] is Greedy,
                forall|a: int, b: int|
                    0 <= a < b < i && #[trigger] p@[a] is Greedy ==> !(#[trigger] p@[b] is Greedy),
            decreases p.len() - i,
        {
            if is_greedy(&p[i]) {
                if seen {
                    let ghost k = choose|k: int| 0 <= k < i && #[trigger] p@[k] is Greedy;
                    assert(p@[k] is Greedy && p@[i as int] is Greedy);
                    return false;
                }
                seen = true;
            }
            i += 1;
        }
        true
    }
}

fn count_literal_segments(p: &Vec<PathSegment>) -> (r: usize)
    ensures
        r == count_literals(shape(p@)),
{
    let mut c: usize = 0;
    let mut i: usize = 0;
    while i < p.len()
        invariant
            i <= p@.len(),
            c <= i,
            c == count_literals(shape(p@).take(i as int)),
        decreases p.len() - i,
    {
        assert(shape(p@).take(i + 1).drop_last() =~= shape(p@).take(i as int));
        assert(shape(p@)[i as int] == weight(p@[i as int]));
        if let PathSegment::Literal(_) = p[i] {
            c += 1;
        }
        i += 1;
    }
    assert(shape(p@).take(i as int) =~= shape(p@));
    c
}

/// Compares the weight sequences of two patterns: `1` when the first ranks
/// above, `-1` when the second does, `0` when they are equal.
fn compare_shapes(a: &Vec<PathSegment>, b: &Vec<PathSegment>) -> (r: i8)
    ensures
        -1 <= r <= 1,
        r == 1 <==> lex_greater(shape(a@), shape(b@)),
        r == -1 <==> lex_greater(shape(b@), shape(a@)),
        r == 0 <==> shape(a@) == shape(b@),
{
    let ghost sa = shape(a@);
    let ghost sb = shape(b@);
    let mut i: usize = 0;
    assert(sa.skip(0) =~= sa);
    assert(sb.skip(0) =~= sb);
    assert(sa.take(0) =~= sb.take(0));
    while i < a.len() && i < b.len()
        invariant
            sa == shape(a@),
            sb == shape(b@),
            i <= a@.len(),
            i <= b@.len(),
            sa.take(i as int) == sb.take(i as int),
            lex_greater(sa, sb) == lex_greater(sa.skip(i as int), sb.skip(i as int)),
            lex_greater(sb, sa) == lex_greater(sb.skip(i as int), sa.skip(i as int)),
        decreases a.len() - i,
    {
        let wa = segment_weight(&a[i]);
        let wb = segment_weight(&b[i]);
        let ghost ra = sa.skip(i as int);
        let ghost rb = sb.skip(i as int);
        assert(ra[0] == sa[i as int]);
        assert(rb[0] == sb[i as int]);
        if wa != wb {
            return if wa > wb {
                proof {
                    lemma_lex_asymmetric(sa, sb);
                }
                1
            } else {
                proof {
                    lemma_lex_asymmetric(sa, sb);
                }
                -1
            };
        }
        assert(ra.drop_first() =~= sa.skip(i + 1));
        assert(rb.drop_first() =~= sb.skip(i + 1));
        assert(sa.take(i + 1) =~= sa.take(i as int).push(sa[i as int]));
        assert(sb.take(i + 1) =~= sb.take(i as int).push(sb[i as int]));
        i += 1;
    }
    assert(sa.skip(i as int).len() == sa.len() - i);
    if i < a.len() {
        proof {
            lemma_lex_asymmetric(sa, sb);
            assert(sa != sb);
        }
        1
    } else if i < b.len() {
        proof {
            lemma_lex_asymmetric(sa, sb);
            assert(sa != sb);
        }
        -1
    } else {
        assert(sa =~= sa.take(i as int));
        assert(sb =~= sb.take(i as int));
        proof {
            lemma_lex_irreflexive(sa);
        }
        0
    }
}

fn segment_weight(p: &PathSegment) -> (r: i8)
    ensures
        r as int == weight(*p),
{
    match p {
        PathSegment::Literal(_) => 2,
        PathSegment::Label => 1,
        PathSegment::Greedy => 0,
    }
}

} // verus!
