use smithy_server::idempotency_token::{default_provider, uuid_v4, IdempotencyTokenProvider};

fn is_uuid_v4(s: &str) -> bool {
    let b = s.as_bytes();
    b.len() == 36
        && b.iter().enumerate().all(|(i, c)| match i {
            8 | 13 | 18 | 23 => *c == b'-',
            14 => *c == b'4',
            19 => matches!(*c, b'8' | b'9' | b'a' | b'b' | b'c' | b'd' | b'e' | b'f'),
            _ => c.is_ascii_digit() || (b'a'..=b'f').contains(c),
        })
}

#[test]
fn uuid_of_zero() {
    assert_eq!(uuid_v4(0), "00000000-0000-4000-8000-000000000000");
}

#[test]
fn uuid_of_all_ones() {
    assert_eq!(uuid_v4(u128::MAX), "ffffffff-ffff-4fff-ffff-ffffffffffff");
}

#[test]
fn uuid_takes_nibbles_from_the_low_end() {
    assert_eq!(uuid_v4(1), "10000000-0000-4000-8000-000000000000");
    assert_eq!(
        uuid_v4(0x0123456789abcdef0123456789abcdef),
        "fedcba98-7654-4321-8fed-cba987654321"
    );
}

#[test]
fn fixed_token_is_returned_each_time() {
    let provider = IdempotencyTokenProvider::fixed("token-1");
    assert_eq!(provider.make_idempotency_token(), "token-1");
    assert_eq!(provider.make_idempotency_token(), "token-1");
    let from: IdempotencyTokenProvider = "token-2".into();
    assert_eq!(from.clone().make_idempotency_token(), "token-2");
}

#[test]
fn seeded_tokens_repeat_for_the_same_seed() {
    let a = IdempotencyTokenProvider::with_seed(7);
    let b = IdempotencyTokenProvider::with_seed(7);
    let ta = a.make_idempotency_token();
    let tb = b.make_idempotency_token();
    assert_eq!(ta, tb);
    assert!(is_uuid_v4(&ta));
    assert_ne!(ta, a.make_idempotency_token());
}

#[test]
fn random_tokens_are_uuids() {
    let p = default_provider();
    assert!(is_uuid_v4(&p.make_idempotency_token()));
    assert!(is_uuid_v4(&p.clone().make_idempotency_token()));
    assert!(is_uuid_v4(&IdempotencyTokenProvider::random().make_idempotency_token()));
}
