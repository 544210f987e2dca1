//! Byte-level decoding of a request target: the path split into
//! percent-decoded segments and the query string split into decoded
//! key/value pairs.
use vstd::prelude::*;
use vstd::utf8::valid_utf8;

verus! {

/// The index of the first `c` in `s`, or `s.len()` when there is none.
pub open spec fn find_byte(s: Seq<u8>, c: u8) -> int
    decreases s.len(),
{
    if s.len() == 0 {
        0
    } else if s[0] == c {
        0
    } else {
        1 + find_byte(s.drop_first(), c)
    }
}

/// `find_byte` is the position that a left-to-right scan stops at.
pub proof fn lemma_find_byte(s: Seq<u8>, c: u8, i: int)
    requires
        0 <= i <= s.len(),
        forall|j: int| 0 <= j < i ==> s[j] != c,
        i == s.len() || s[i] == c,
    ensures
        find_byte(s, c) == i,
    decreases i,
{
    if i > 0 {
        lemma_find_byte(s.drop_first(), c, i - 1);
    }
}

/// The pieces of `b` between occurrences of `sep`; there is always at least
/// one piece, and empty pieces are kept.
pub open spec fn split_on(b: Seq<u8>, sep: u8) -> Seq<Seq<u8>>
    decreases b.len(),
{
    if b.len() == 0 {
        seq![Seq::<u8>::empty()]
    } else {
        let init = split_on(b.drop_last(), sep);
        if b.last() == sep {
            init.push(Seq::<u8>::empty())
        } else {
            init.update(init.len() - 1, init.last().push(b.last()))
        }
    }
}

pub proof fn lemma_split_on_nonempty(b: Seq<u8>, sep: u8)
    ensures
        split_on(b, sep).len() >= 1,
    decreases b.len(),
{
    if b.len() > 0 {
        lemma_split_on_nonempty(b.drop_last(), sep);
    }
}

/// The views of a sequence of byte vectors.
pub open spec fn byte_views(v: Seq<Vec<u8>>) -> Seq<Seq<u8>> {
    v.map_values(|x: Vec<u8>| x@)
}

/// The value of an ASCII hexadecimal digit.
pub open spec fn hex_value(c: u8) -> Option<u8> {
    if 48 <= c <= 57 {
        Some((c - 48) as u8)
    } else if 97 <= c <= 102 {
        Some((c - 87) as u8)
    } else if 65 <= c <= 70 {
        Some((c - 55) as u8)
    } else {
        None
    }
}

/// Whether `b` starts with a `%` escape made of two hexadecimal digits.
pub open spec fn starts_with_escape(b: Seq<u8>) -> bool {
    b.len() >= 3 && b[0] == 37 && hex_value(b[1]) is Some && hex_value(b[2]) is Some
}

/// Percent-decoding: each `%XY` with two hexadecimal digits becomes the byte
/// `0xXY`; a `%` that does not start such an escape stays as it is. When
/// `plus_is_space` holds (query strings), `+` becomes a space.
pub open spec fn percent_decode(b: Seq<u8>, plus_is_space: bool) -> Seq<u8>
    decreases b.len(),
{
    if b.len() == 0 {
        Seq::empty()
    } else if starts_with_escape(b) {
        seq![(hex_value(b[1])->0 * 16 + hex_value(b[2])->0) as u8] + percent_decode(
            b.skip(3),
            plus_is_space,
        )
    } else if plus_is_space && b[0] == 43 {
        seq![32u8] + percent_decode(b.skip(1), plus_is_space)
    } else {
        seq![b[0]] + percent_decode(b.skip(1), plus_is_space)
    }
}

/// The raw segments of a request path: `None` unless the path starts with
/// `/`; the path `/` alone has no segments.
pub open spec fn raw_path_segments(path: Seq<u8>) -> Option<Seq<Seq<u8>>> {
    if path.len() == 0 || path[0] != 47 {
        None
    } else if path.len() == 1 {
        Some(Seq::empty())
    } else {
        Some(split_on(path.drop_first(), 47))
    }
}

/// The percent-decoded segments of a request path, or `None` when the path
/// cannot be decoded: it does not start with `/`, or a decoded segment is
/// not UTF-8.
pub open spec fn decoded_path(path: Seq<u8>) -> Option<Seq<Seq<u8>>> {
    match raw_path_segments(path) {
        None => None,
        Some(raw) => {
            let d = raw.map_values(|s: Seq<u8>| percent_decode(s, false));
            if forall|i: int| 0 <= i < d.len() ==> valid_utf8(#[trigger] d[i]) {
                Some(d)
            } else {
                None
            }
        },
    }
}

/// One `key=value` piece of a query string, decoded; a piece without `=` is
/// a key with an empty value.
pub open spec fn query_pair(piece: Seq<u8>) -> (Seq<u8>, Seq<u8>) {
    let k = find_byte(piece, 61);
    if k < piece.len() {
        (percent_decode(piece.take(k), true), percent_decode(piece.skip(k + 1), true))
    } else {
        (percent_decode(piece, true), Seq::empty())
    }
}

/// The decoded pairs of the non-empty pieces, in order.
pub open spec fn pairs_of(pieces: Seq<Seq<u8>>) -> Seq<(Seq<u8>, Seq<u8>)>
    decreases pieces.len(),
{
    if pieces.len() == 0 {
        Seq::empty()
    } else {
        let init = pairs_of(pieces.drop_last());
        if pieces.last().len() == 0 {
            init
        } else {
            init.push(query_pair(pieces.last()))
        }
    }
}

/// The decoded key/value pairs of a query string (the text after `?`):
/// pieces are separated by `&` and empty pieces are skipped.
pub open spec fn query_pairs(query: Seq<u8>) -> Seq<(Seq<u8>, Seq<u8>)> {
    pairs_of(split_on(query, 38))
}

/// The views of a sequence of decoded pairs.
pub open spec fn pair_views(v: Seq<(Vec<u8>, Vec<u8>)>) -> Seq<(Seq<u8>, Seq<u8>)> {
    v.map_values(|p: (Vec<u8>, Vec<u8>)| (p.0@, p.1@))
}

/// Relies on `std::str::from_utf8`, which succeeds exactly on well-formed
/// UTF-8.
#[verifier::external_body]
fn is_utf8(b: &[u8]) -> (r: bool)
    ensures
        r == valid_utf8(b@),
{
    std::str::from_utf8(b).is_ok()
}

/// Splits `b[start..end]` at every `sep`.
pub fn split_bytes(b: &[u8], start: usize, end: usize, sep: u8) -> (r: Vec<Vec<u8>>)
    requires
        start <= end <= b@.len(),
    ensures
        byte_views(r@) == split_on(b@.subrange(start as int, end as int), sep),
{
    let mut done: Vec<Vec<u8>> = Vec::new();
    let mut cur: Vec<u8> = Vec::new();
    let mut i: usize = start;
    proof {
        assert(b@.subrange(start as int, start as int) =~= Seq::<u8>::empty());
        assert(byte_views(done@).push(cur@) =~= seq![Seq::<u8>::empty()]);
    }
    while i < end
        invariant
            start <= i <= end <= b@.len(),
            byte_views(done@).push(cur@) == split_on(b@.subrange(start as int, i as int), sep),
        decreases end - i,
    {
        let ghost before = b@.subrange(start as int, i as int);
        let ghost after = b@.subrange(start as int, i + 1);
        assert(after.drop_last() =~= before);
        assert(after.last() == b@[i as int]);
        proof {
            lemma_split_on_nonempty(before, sep);
        }
        if b[i] == sep {
            done.push(cur);
            cur = Vec::new();
            assert(byte_views(done@).push(cur@) =~= split_on(before, sep).push(Seq::empty()));
        } else {
            cur.push(b[i]);
            assert(byte_views(done@).push(cur@) =~= split_on(before, sep).update(
                split_on(before, sep).len() - 1,
                split_on(before, sep).last().push(b@[i as int]),
            ));
        }
        i += 1;
    }
    done.push(cur);
    done
}

/// Percent-decodes `b[start..end]`.
pub fn percent_decode_range(b: &[u8], start: usize, end: usize, plus_is_space: bool) -> (r: Vec<
    u8,
>)
    requires
        start <= end <= b@.len(),
    ensures
        r@ == percent_decode(b@.subrange(start as int, end as int), plus_is_space),
{
    let mut out: Vec<u8> = Vec::new();
    let mut i: usize = start;
    while i < end
        invariant
            start <= i <= end <= b@.len(),
            out@ + percent_decode(b@.subrange(i as int, end as int), plus_is_space)
                == percent_decode(b@.subrange(start as int, end as int), plus_is_space),
        decreases end - i,
    {
        let ghost rest = b@.subrange(i as int, end as int);
        let c = b[i];
        if c == 37 && end - i >= 3 {
            let hi = hex_digit_value(b[i + 1]);
            let lo = hex_digit_value(b[i + 2]);
            if hi.is_some() && lo.is_some() {
                let v = hi.unwrap() * 16 + lo.unwrap();
                assert(rest.skip(3) =~= b@.subrange(i + 3, end as int));
                assert(starts_with_escape(rest));
                let ghost prev = out@;
                out.push(v);
                assert(out@ + percent_decode(b@.subrange(i + 3, end as int), plus_is_space) =~= prev
                    + (seq![v] + percent_decode(rest.skip(3), plus_is_space)));
                i += 3;
                continue ;
            }
        }
        assert(!starts_with_escape(rest));
        assert(rest.skip(1) =~= b@.subrange(i + 1, end as int));
        let ghost prev = out@;
        if plus_is_space && c == 43 {
            out.push(32);
        } else {
            out.push(c);
        }
        assert(out@ + percent_decode(b@.subrange(i + 1, end as int), plus_is_space) =~= prev + (
        seq![out@.last()] + percent_decode(rest.skip(1), plus_is_space)));
        i += 1;
    }
    assert(b@.subrange(end as int, end as int) =~= Seq::<u8>::empty());
    assert(out@ + Seq::<u8>::empty() =~= out@);
    out
}

/// Splits a request path into its percent-decoded segments.
pub fn decode_path(path: &[u8]) -> (r: Option<Vec<Vec<u8>>>)
    ensures
        match r {
            None => decoded_path(path@) is None,
            Some(v) => decoded_path(path@) == Some(byte_views(v@)),
        },
{
    if path.len() == 0 || path[0] != 47 {
        return None;
    }
    if path.len() == 1 {
        let none: Vec<Vec<u8>> = Vec::new();
        assert(byte_views(none@) =~= Seq::<Seq<u8>>::empty());
        return Some(none);
    }
    let raw = split_bytes(path, 1, path.len(), 47);
    assert(path@.subrange(1, path@.len() as int) =~= path@.drop_first());
    assert(raw_path_segments(path@) == Some(byte_views(raw@)));
    let ghost d = byte_views(raw@).map_values(|s: Seq<u8>| percent_decode(s, false));
    let mut out: Vec<Vec<u8>> = Vec::new();
    let mut i: usize = 0;
    while i < raw.len()
        invariant
            i <= raw@.len(),
            raw_path_segments(path@) == Some(byte_views(raw@)),
            d == byte_views(raw@).map_values(|s: Seq<u8>| percent_decode(s, false)),
            byte_views(out@) =~= d.take(i as int),
            forall|j: int| 0 <= j < i ==> valid_utf8(#[trigger] d[j]),
        decreases raw.len() - i,
    {
        let seg = percent_decode_range(raw[i].as_slice(), 0, raw[i].len(), false);
        assert(raw@[i as int]@.subrange(0, raw@[i as int]@.len() as int) =~= raw@[i as int]@);
        assert(seg@ == d[i as int]);
        if !is_utf8(seg.as_slice()) {
            assert(!valid_utf8(d[i as int]));
            return None;
        }
        let ghost prev = out@;
        out.push(seg);
        assert(byte_views(out@) =~= byte_views(prev).push(d[i as int]));
        assert(d.take(i + 1) =~= d.take(i as int).push(d[i as int]));
        i += 1;
    }
    assert(d.take(i as int) =~= d);
    Some(out)
}

/// Splits one query piece at its first `=` and decodes both halves.
fn decode_pair(piece: &[u8]) -> (r: (Vec<u8>, Vec<u8>))
    ensures
        (r.0@, r.1@) == query_pair(piece@),
{
    let mut k: usize = 0;
    while k < piece.len() && piece[k] != 61
        invariant
            k <= piece@.len(),
            forall|j: int| 0 <= j < k ==> piece@[j] != 61,
        decreases piece.len() - k,
    {
        k += 1;
    }
    proof {
        lemma_find_byte(piece@, 61, k as int);
    }
    assert(piece@.subrange(0, k as int) =~= piece@.take(k as int));
    assert(piece@.subrange(0, piece@.len() as int) =~= piece@);
    if k < piece.len() {
        assert(piece@.subrange(k + 1, piece@.len() as int) =~= piece@.skip(k + 1));
        (
            percent_decode_range(piece, 0, k, true),
            percent_decode_range(piece, k + 1, piece.len(), true),
        )
    } else {
        (percent_decode_range(piece, 0, piece.len(), true), Vec::new())
    }
}

/// Splits a query string (the text after `?`) into decoded key/value pairs.
pub fn parse_query(query: &[u8]) -> (r: Vec<(Vec<u8>, Vec<u8>)>)
    ensures
        pair_views(r@) == query_pairs(query@),
{
    let pieces = split_bytes(query, 0, query.len(), 38);
    assert(query@.subrange(0, query@.len() as int) =~= query@);
    let mut out: Vec<(Vec<u8>, Vec<u8>)> = Vec::new();
    let mut i: usize = 0;
    while i < pieces.len()
        invariant
            i <= pieces@.len(),
            byte_views(pieces@) == split_on(query@, 38),
            pair_views(out@) == pairs_of(byte_views(pieces@).take(i as int)),
        decreases pieces.len() - i,
    {
        let ghost before = byte_views(pieces@).take(i as int);
        let ghost after = byte_views(pieces@).take(i + 1);
        assert(after.drop_last() =~= before);
        let piece = pieces[i].as_slice();
        if piece.len() > 0 {
            let ghost prev = out@;
            out.push(decode_pair(piece));
            assert(pair_views(out@) =~= pair_views(prev).push(query_pair(piece@)));
        }
        i += 1;
    }
    assert(byte_views(pieces@).take(i as int) =~= byte_views(pieces@));
    out
}

fn hex_digit_value(c: u8) -> (r: Option<u8>)
    ensures
        r == hex_value(c),
{
    if 48 <= c && c <= 57 {
        Some(c - 48)
    } else if 97 <= c && c <= 102 {
        Some(c - 87)
    } else if 65 <= c && c <= 70 {
        Some(c - 55)
    } else {
        None
    }
}

} // verus!
