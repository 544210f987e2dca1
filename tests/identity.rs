use smithy_server::identity::Identity;
use std::time::SystemTime;

fn is_send_sync<T: Send + Sync>(_: T) {}

#[derive(Debug)]
struct MyIdentityData {
    first: String,
    last: String,
}

#[test]
fn check_send_sync() {
    is_send_sync(Identity::new("foo", None));
}

#[test]
fn create_retrieve_identity() {
    let expiration = SystemTime::now();
    let identity = Identity::new(
        MyIdentityData {
            first: "foo".into(),
            last: "bar".into(),
        },
        Some(expiration),
    );

    assert_eq!("foo", identity.data().unwrap().first);
    assert_eq!("bar", identity.data().unwrap().last);
    assert_eq!(Some(&expiration), identity.expiration());
}

#[test]
fn identity_without_expiration() {
    let identity = Identity::new(42u32, None);
    assert_eq!(Some(&42), identity.data());
    assert_eq!(None, identity.expiration());
    let copy = identity.clone();
    assert_eq!(Some(&42), copy.data());
}
