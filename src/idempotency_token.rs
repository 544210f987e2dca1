//! Idempotency tokens: a fixed token, or a random version-4 UUID per call.
use vstd::prelude::*;
use vstd::std_specs::convert::FromSpecImpl;
use vstd::string::*;
use std::sync::Mutex;

verus! {

#[verifier::external_type_specification]
#[verifier::external_body]
#[verifier::reject_recursive_types(T)]
pub struct ExMutex<T: ?Sized>(std::sync::Mutex<T>);

#[verifier::external_type_specification]
#[verifier::external_body]
pub struct ExRng(fastrand::Rng);

/// Relies on `String::push`, which appends one character.
#[verifier::external_body]
fn push_char(s: &mut String, c: char)
    ensures
        final(s)@ == old(s)@.push(c),
{
    s.push(c)
}

/// Relies on fastrand's `Rng::with_seed`: a generator that always yields
/// the same values for the same seed. It is kept behind a lock so that the
/// provider can be shared between threads.
#[verifier::external_body]
fn seeded_generator(seed: u64) -> Mutex<fastrand::Rng> {
    Mutex::new(fastrand::Rng::with_seed(seed))
}

/// Relies on fastrand's `Rng::new`: a generator seeded from the thread's
/// generator.
#[verifier::external_body]
fn fresh_generator() -> Mutex<fastrand::Rng> {
    Mutex::new(fastrand::Rng::new())
}

/// Relies on fastrand's `Rng::u128` over the full range, which yields any
/// `u128` and does not panic; a poisoned lock still holds a usable generator.
#[verifier::external_body]
fn draw_u128(rng: &Mutex<fastrand::Rng>) -> u128 {
    rng.lock().unwrap_or_else(|poisoned| poisoned.into_inner()).u128(..)
}

/// The lowercase hexadecimal digit of a value below 16.
pub open spec fn hex_char(d: u8) -> char {
    if d < 10 {
        ((48 + d) as u8) as char
    } else {
        ((87 + d) as u8) as char
    }
}

/// How many of the fixed positions (the dashes at 8, 13, 18 and 23, and the
/// version digit at 14) come before position `i`.
pub open spec fn fixed_before(i: int) -> int {
    (if i > 8 {
        1int
    } else {
        0int
    }) + (if i > 13 {
        1int
    } else {
        0int
    }) + (if i > 14 {
        1int
    } else {
        0int
    }) + (if i > 18 {
        1int
    } else {
        0int
    }) + (if i > 23 {
        1int
    } else {
        0int
    })
}

/// The `k`-th 4-bit group of `input`, counting from the least significant.
pub open spec fn nibble(input: u128, k: u32) -> u8 {
    ((input >> (k * 4) as u32) & 0x0F) as u8
}

/// Character `i` of the UUID made from `input`: a dash at 8, 13, 18 and 23,
/// the version digit `4` at 14, and otherwise the next 4-bit group of the
/// input as a hexadecimal digit, with the variant bit set at 19.
pub open spec fn uuid_char(input: u128, i: int) -> char {
    if i == 8 || i == 13 || i == 18 || i == 23 {
        '-'
    } else if i == 14 {
        '4'
    } else if i == 19 {
        hex_char(nibble(input, (i - fixed_before(i)) as u32) | 8)
    } else {
        hex_char(nibble(input, (i - fixed_before(i)) as u32))
    }
}

/// The version-4 UUID text made from the random bits of `input`.
pub open spec fn uuid_v4_text(input: u128) -> Seq<char> {
    Seq::new(36, |i: int| uuid_char(input, i))
}

fn hex_digit(d: u8) -> (c: char)
    requires
        d < 16,
    ensures
        c == hex_char(d),
{
    if d < 10 {
        (48 + d) as char
    } else {
        (87 + d) as char
    }
}

/// Formats random bits as a version-4 UUID.
pub fn uuid_v4(input: u128) -> (r: String)
    ensures
        r@ == uuid_v4_text(input),
{
    let mut out = String::new();
    let mut rnd_idx: u32 = 0;
    let mut str_idx: u32 = 0;
    while str_idx < 36
        invariant
            str_idx <= 36,
            rnd_idx == str_idx - fixed_before(str_idx as int),
            out@ == uuid_v4_text(input).take(str_idx as int),
        decreases 36 - str_idx,
    {
        let c = if str_idx == 8 || str_idx == 13 || str_idx == 18 || str_idx == 23 {
            '-'
        } else if str_idx == 14 {
            '4'
        } else {
            let mut dat: u8 = ((input >> (rnd_idx * 4)) & 0x0F) as u8;
            assert(dat < 16) by (bit_vector)
                requires
                    dat == ((input >> (rnd_idx * 4)) & 0x0F) as u8,
            ;
            if str_idx == 19 {
                assert(dat | 8 < 16) by (bit_vector)
                    requires
                        dat < 16,
                ;
                dat = dat | 8;
            }
            rnd_idx += 1;
            hex_digit(dat)
        };
        assert(c == uuid_char(input, str_idx as int));
        push_char(&mut out, c);
        str_idx += 1;
        assert(out@ =~= uuid_v4_text(input).take(str_idx as int));
    }
    out
}

#[derive(Debug)]
enum Inner {
    Static(&'static str),
    Random(Mutex<fastrand::Rng>),
}

/// Generates idempotency tokens for requests that need one.
///
/// A fixed token gives deterministic requests in tests; otherwise each token
/// is a random version-4 UUID, from a generator that can be seeded.
#[derive(Debug)]
pub struct IdempotencyTokenProvider {
    inner: Inner,
}

/// A provider of random tokens.
pub fn default_provider() -> (r: IdempotencyTokenProvider)
    ensures
        r.fixed_token() is None,
{
    IdempotencyTokenProvider::random()
}

impl IdempotencyTokenProvider {
    /// The token this provider always gives, if it is a fixed one.
    pub closed spec fn fixed_token(&self) -> Option<Seq<char>> {
        match self.inner {
            Inner::Static(t) => Some(t@),
            Inner::Random(_) => None,
        }
    }

    /// A token: the fixed one, or a fresh random version-4 UUID.
    pub fn make_idempotency_token(&self) -> (r: String)
        ensures
            self.fixed_token() matches Some(t) ==> r@ == t,
            self.fixed_token() is None ==> exists|n: u128| r@ == uuid_v4_text(n),
    {
        match &self.inner {
            Inner::Static(token) => String::from_str(token),
            Inner::Random(rng) => {
                let input = draw_u128(rng);
                uuid_v4(input)
            },
        }
    }

    /// A provider of random tokens from a generator seeded with `seed`.
    pub fn with_seed(seed: u64) -> (r: IdempotencyTokenProvider)
        ensures
            r.fixed_token() is None,
    {
        IdempotencyTokenProvider { inner: Inner::Random(seeded_generator(seed)) }
    }

    /// A provider of random tokens.
    pub fn random() -> (r: IdempotencyTokenProvider)
        ensures
            r.fixed_token() is None,
    {
        IdempotencyTokenProvider { inner: Inner::Random(fresh_generator()) }
    }

    /// A provider that always gives `token`.
    pub fn fixed(token: &'static str) -> (r: IdempotencyTokenProvider)
        ensures
            r.fixed_token() == Some(token@),
    {
        IdempotencyTokenProvider { inner: Inner::Static(token) }
    }
}

impl From<&'static str> for IdempotencyTokenProvider {
    fn from(token: &'static str) -> (r: IdempotencyTokenProvider)
        ensures
            r.fixed_token() == Some(token@),
    {
        IdempotencyTokenProvider { inner: Inner::Static(token) }
    }
}

impl FromSpecImpl<&'static str> for IdempotencyTokenProvider {
    open spec fn obeys_from_spec() -> bool {
        true
    }

    closed spec fn from_spec(token: &'static str) -> IdempotencyTokenProvider {
        IdempotencyTokenProvider { inner: Inner::Static(token) }
    }
}

/// A clone of a fixed provider gives the same token; a clone of a random
/// provider is a new random provider.
impl Clone for IdempotencyTokenProvider {
    fn clone(&self) -> (r: IdempotencyTokenProvider)
        ensures
            r.fixed_token() == self.fixed_token(),
    {
        match &self.inner {
            Inner::Static(token) => IdempotencyTokenProvider::fixed(token),
            Inner::Random(_) => IdempotencyTokenProvider::random(),
        }
    }
}

} // verus!
