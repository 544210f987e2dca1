//! Anchored regions of a text file: content between a start marker and an
//! end marker that a tool keeps up to date.
use vstd::prelude::*;
use vstd::string::*;

verus! {

/// `n` occurs in `h` at index `i`.
pub open spec fn occurs_at(h: Seq<char>, n: Seq<char>, i: int) -> bool {
    0 <= i && i + n.len() <= h.len() && h.subrange(i, i + n.len()) == n
}

/// `i` is the first index from `from` on where `n` occurs in `h`.
pub open spec fn first_occurrence_from(h: Seq<char>, n: Seq<char>, from: int, i: int) -> bool {
    &&& from <= i
    &&& occurs_at(h, n, i)
    &&& forall|j: int| from <= j < i ==> !#[trigger] occurs_at(h, n, j)
}

/// `n` occurs in `h` somewhere from `from` on.
pub open spec fn occurs_from(h: Seq<char>, n: Seq<char>, from: int) -> bool {
    exists|i: int| from <= i && #[trigger] occurs_at(h, n, i)
}

/// The start marker of the anchor `name`.
pub open spec fn start_marker(name: Seq<char>) -> Seq<char> {
    "<!-- anchor_start:"@ + name + " -->"@
}

/// The end marker of the anchor `name`.
pub open spec fn end_marker(name: Seq<char>) -> Seq<char> {
    "<!-- anchor_end:"@ + name + " -->"@
}

/// Why an anchored region could not be replaced.
#[derive(Clone, Debug)]
pub enum AnchorError {
    /// The end marker occurs without a start marker before it.
    EndWithoutStart,
    /// The start marker is not followed by this end marker.
    MissingEnd(String),
}

impl AnchorError {
    /// A description of the error.
    pub fn message(&self) -> (r: String)
        ensures
            match self {
                AnchorError::EndWithoutStart => r@ == "found end anchor but no start anchor"@,
                AnchorError::MissingEnd(e) => r@ == "expected matching end anchor "@ + e@,
            },
    {
        match self {
            AnchorError::EndWithoutStart => String::from_str("found end anchor but no start anchor"),
            AnchorError::MissingEnd(e) => {
                let mut m = String::from_str("expected matching end anchor ");
                m.append(e.as_str());
                m
            },
        }
    }
}

/// The start and end markers of the anchor `name`.
pub fn anchors(name: &str) -> (r: (String, String))
    ensures
        r.0@ == start_marker(name@),
        r.1@ == end_marker(name@),
{
    let mut start = String::from_str("<!-- anchor_start:");
    start.append(name);
    start.append(" -->");
    let mut end = String::from_str("<!-- anchor_end:");
    end.append(name);
    end.append(" -->");
    (start, end)
}

/// The characters of `s`.
fn chars_of(s: &str) -> (r: Vec<char>)
    ensures
        r@ == s@,
{
    let mut out: Vec<char> = Vec::new();
    for c in it: s.chars()
        invariant
            it.seq() == s@,
            out@ == it.seq().take(it.index() as int),
    {
        out.push(c);
        assert(out@ =~= it.seq().take(it.index() + 1));
    }
    assert(out@ =~= s@);
    out
}

/// Whether `n` occurs in `h` at index `i`.
fn occurs(h: &Vec<char>, n: &Vec<char>, i: usize) -> (r: bool)
    ensures
        r == occurs_at(h@, n@, i as int),
{
    if i > h.len() || n.len() > h.len() - i {
        return false;
    }
    let mut k: usize = 0;
    while k < n.len()
        invariant
            i + n@.len() <= h@.len() <= usize::MAX,
            k <= n@.len(),
            forall|j: int| 0 <= j < k ==> h@[i + j] == n@[j],
        decreases n.len() - k,
    {
        if h[i + k] != n[k] {
            assert(h@.subrange(i as int, i + n@.len())[k as int] != n@[k as int]);
            return false;
        }
        k += 1;
    }
    assert(h@.subrange(i as int, i + n@.len()) =~= n@);
    true
}

/// The first index from `from` on where `n` occurs in `h`.
fn find_from(h: &Vec<char>, n: &Vec<char>, from: usize) -> (r: Option<usize>)
    ensures
        match r {
            Some(i) => first_occurrence_from(h@, n@, from as int, i as int),
            None => !occurs_from(h@, n@, from as int),
        },
{
    let mut i: usize = from;
    while i < h.len()
        invariant
            from <= i,
            forall|j: int| from <= j < i ==> !#[trigger] occurs_at(h@, n@, j),
        decreases h.len() - i,
    {
        if occurs(h, n, i) {
            return Some(i);
        }
        i += 1;
    }
    if occurs(h, n, i) {
        return Some(i);
    }
    assert forall|j: int| from <= j implies !#[trigger] occurs_at(h@, n@, j) by {
        if j > i {
            assert(j + n@.len() > h@.len());
        }
    }
    None
}

/// Whether `needle` occurs in `text`.
pub fn contains(text: &str, needle: &str) -> (r: bool)
    ensures
        r == occurs_from(text@, needle@, 0),
{
    let h = chars_of(text);
    let n = chars_of(needle);
    find_from(&h, &n, 0).is_some()
}

/// Replaces the content of an anchored region of `haystack` by
/// `new_content`, or appends the region (on a new line) when the start
/// marker does not occur. Returns whether `haystack` changed.
pub fn replace_anchor(haystack: &mut String, anchors: &(String, String), new_content: &str) -> (r:
    Result<bool, AnchorError>)
    ensures
        ({
            let h = old(haystack)@;
            let s = anchors.0@;
            let e = anchors.1@;
            if !occurs_from(h, s, 0) {
                if occurs_from(h, e, 0) {
                    r matches Err(AnchorError::EndWithoutStart) && final(haystack)@ == h
                } else {
                    r == Ok::<bool, AnchorError>(true) && final(haystack)@ == h + "\n"@ + s
                        + new_content@ + e
                }
            } else {
                exists|st: int|
                    #[trigger] first_occurrence_from(h, s, 0, st) && if !occurs_from(h, e, st) {
                        r matches Err(AnchorError::MissingEnd(m)) && m@ == e && final(haystack)@
                            == h
                    } else {
                        exists|end: int|
                            #[trigger] first_occurrence_from(h, e, st, end) && ({
                                let out = h.subrange(0, st + s.len()) + new_content@ + h.subrange(
                                    end,
                                    h.len() as int,
                                );
                                final(haystack)@ == out && r == Ok::<bool, AnchorError>(out != h)
                            })
                    }
            }
        }),
{
    let h = chars_of(haystack.as_str());
    let s = chars_of(anchors.0.as_str());
    let e = chars_of(anchors.1.as_str());
    let hl = h.len();
    let start = find_from(&h, &s, 0);
    match start {
        None => {
            if find_from(&h, &e, 0).is_some() {
                return Err(AnchorError::EndWithoutStart);
            }
            proof {
                reveal_strlit("\n");
            }
            haystack.append("\n");
            haystack.append(anchors.0.as_str());
            haystack.append(new_content);
            haystack.append(anchors.1.as_str());
            Ok(true)
        },
        Some(st) => {
            let end = match find_from(&h, &e, st) {
                Some(end) => end,
                None => {
                    return Err(AnchorError::MissingEnd(anchors.1.clone()));
                },
            };
            let mut out = String::from_str(haystack.as_str().substring_char(0, st + s.len()));
            out.append(new_content);
            out.append(haystack.as_str().substring_char(end, hl));
            if out.eq(&*haystack) {
                Ok(false)
            } else {
                *haystack = out;
                Ok(true)
            }
        },
    }
}

} // verus!
