//! A resolved identity: the identity's data and, optionally, when it expires.
use vstd::prelude::*;
use std::sync::Arc;
use std::time::SystemTime;

verus! {

#[verifier::external_type_specification]
#[verifier::external_body]
pub struct ExSystemTime(std::time::SystemTime);

/// An identity, such as credentials or a token, with the time at which it
/// stops being valid, if it does. The data is shared between clones.
#[derive(Clone, Debug)]
pub struct Identity<T> {
    data: Arc<T>,
    expiration: Option<SystemTime>,
}

impl<T> Identity<T> {
    pub closed spec fn data_view(&self) -> T {
        *self.data
    }

    pub closed spec fn expiration_view(&self) -> Option<SystemTime> {
        self.expiration
    }

    pub fn new(data: T, expiration: Option<SystemTime>) -> (r: Identity<T>)
        ensures
            r.data_view() == data,
            r.expiration_view() == expiration,
    {
        Identity { data: Arc::new(data), expiration }
    }

    /// The identity's data.
    pub fn data(&self) -> (r: Option<&T>)
        ensures
            r matches Some(d) && *d == self.data_view(),
    {
        Some(&*self.data)
    }

    /// When the identity expires, if it does.
    pub fn expiration(&self) -> (r: Option<&SystemTime>)
        ensures
            match self.expiration_view() {
                Some(t) => r matches Some(e) && *e == t,
                None => r is None,
            },
    {
        self.expiration.as_ref()
    }
}

} // verus!
