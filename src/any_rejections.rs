//! Sums of two to eight rejection types. Each turns into a response when
//! every one of its members does, by turning whichever member it holds.
use vstd::prelude::*;
use crate::response::{IntoResponse, Response};

verus! {

/// One of 2 rejections.
pub enum Two<A, B> {
    A(A),
    B(B),
}

impl<P, A: IntoResponse<P>, B: IntoResponse<P>> IntoResponse<P> for Two<A, B> {
    open spec fn response_of(self) -> Response {
        match self {
            Two::A(x) => x.response_of(),
            Two::B(x) => x.response_of(),
        }
    }

    fn into_response(self) -> (r: Response) {
        match self {
            Two::A(x) => x.into_response(),
            Two::B(x) => x.into_response(),
        }
    }
}

/// One of 3 rejections.
pub enum Three<A, B, C> {
    A(A),
    B(B),
    C(C),
}

impl<P, A: IntoResponse<P>, B: IntoResponse<P>, C: IntoResponse<P>> IntoResponse<P> for Three<A, B, C> {
    open spec fn response_of(self) -> Response {
        match self {
            Three::A(x) => x.response_of(),
            Three::B(x) => x.response_of(),
            Three::C(x) => x.response_of(),
        }
    }

    fn into_response(self) -> (r: Response) {
        match self {
            Three::A(x) => x.into_response(),
            Three::B(x) => x.into_response(),
            Three::C(x) => x.into_response(),
        }
    }
}

/// One of 4 rejections.
pub enum Four<A, B, C, D> {
    A(A),
    B(B),
    C(C),
    D(D),
}

impl<P, A: IntoResponse<P>, B: IntoResponse<P>, C: IntoResponse<P>, D: IntoResponse<P>> IntoResponse<P> for Four<A, B, C, D> {
    open spec fn response_of(self) -> Response {
        match self {
            Four::A(x) => x.response_of(),
            Four::B(x) => x.response_of(),
            Four::C(x) => x.response_of(),
            Four::D(x) => x.response_of(),
        }
    }

    fn into_response(self) -> (r: Response) {
        match self {
            Four::A(x) => x.into_response(),
            Four::B(x) => x.into_response(),
            Four::C(x) => x.into_response(),
            Four::D(x) => x.into_response(),
        }
    }
}

/// One of 5 rejections.
pub enum Five<A, B, C, D, E> {
    A(A),
    B(B),
    C(C),
    D(D),
    E(E),
}

impl<P, A: IntoResponse<P>, B: IntoResponse<P>, C: IntoResponse<P>, D: IntoResponse<P>, E: IntoResponse<P>> IntoResponse<P> for Five<A, B, C, D, E> {
    open spec fn response_of(self) -> Response {
        match self {
            Five::A(x) => x.response_of(),
            Five::B(x) => x.response_of(),
            Five::C(x) => x.response_of(),
            Five::D(x) => x.response_of(),
            Five::E(x) => x.response_of(),
        }
    }

    fn into_response(self) -> (r: Response) {
        match self {
            Five::A(x) => x.into_response(),
            Five::B(x) => x.into_response(),
            Five::C(x) => x.into_response(),
            Five::D(x) => x.into_response(),
            Five::E(x) => x.into_response(),
        }
    }
}

/// One of 6 rejections.
pub enum Six<A, B, C, D, E, F> {
    A(A),
    B(B),
    C(C),
    D(D),
    E(E),
    F(F),
}

impl<P, A: IntoResponse<P>, B: IntoResponse<P>, C: IntoResponse<P>, D: IntoResponse<P>, E: IntoResponse<P>, F: IntoResponse<P>> IntoResponse<P> for Six<A, B, C, D, E, F> {
    open spec fn response_of(self) -> Response {
        match self {
            Six::A(x) => x.response_of(),
            Six::B(x) => x.response_of(),
            Six::C(x) => x.response_of(),
            Six::D(x) => x.response_of(),
            Six::E(x) => x.response_of(),
            Six::F(x) => x.response_of(),
        }
    }

    fn into_response(self) -> (r: Response) {
        match self {
            Six::A(x) => x.into_response(),
            Six::B(x) => x.into_response(),
            Six::C(x) => x.into_response(),
            Six::D(x) => x.into_response(),
            Six::E(x) => x.into_response(),
            Six::F(x) => x.into_response(),
        }
    }
}

/// One of 7 rejections.
pub enum Seven<A, B, C, D, E, F, G> {
    A(A),
    B(B),
    C(C),
    D(D),
    E(E),
    F(F),
    G(G),
}

impl<P, A: IntoResponse<P>, B: IntoResponse<P>, C: IntoResponse<P>, D: IntoResponse<P>, E: IntoResponse<P>, F: IntoResponse<P>, G: IntoResponse<P>> IntoResponse<P> for Seven<A, B, C, D, E, F, G> {
    open spec fn response_of(self) -> Response {
        match self {
            Seven::A(x) => x.response_of(),
            Seven::B(x) => x.response_of(),
            Seven::C(x) => x.response_of(),
            Seven::D(x) => x.response_of(),
            Seven::E(x) => x.response_of(),
            Seven::F(x) => x.response_of(),
            Seven::G(x) => x.response_of(),
        }
    }

    fn into_response(self) -> (r: Response) {
        match self {
            Seven::A(x) => x.into_response(),
            Seven::B(x) => x.into_response(),
            Seven::C(x) => x.into_response(),
            Seven::D(x) => x.into_response(),
            Seven::E(x) => x.into_response(),
            Seven::F(x) => x.into_response(),
            Seven::G(x) => x.into_response(),
        }
    }
}

/// One of 8 rejections.
pub enum Eight<A, B, C, D, E, F, G, H> {
    A(A),
    B(B),
    C(C),
    D(D),
    E(E),
    F(F),
    G(G),
    H(H),
}

impl<P, A: IntoResponse<P>, B: IntoResponse<P>, C: IntoResponse<P>, D: IntoResponse<P>, E: IntoResponse<P>, F: IntoResponse<P>, G: IntoResponse<P>, H: IntoResponse<P>> IntoResponse<P> for Eight<A, B, C, D, E, F, G, H> {
    open spec fn response_of(self) -> Response {
        match self {
            Eight::A(x) => x.response_of(),
            Eight::B(x) => x.response_of(),
            Eight::C(x) => x.response_of(),
            Eight::D(x) => x.response_of(),
            Eight::E(x) => x.response_of(),
            Eight::F(x) => x.response_of(),
            Eight::G(x) => x.response_of(),
            Eight::H(x) => x.response_of(),
        }
    }

    fn into_response(self) -> (r: Response) {
        match self {
            Eight::A(x) => x.into_response(),
            Eight::B(x) => x.into_response(),
            Eight::C(x) => x.into_response(),
            Eight::D(x) => x.into_response(),
            Eight::E(x) => x.into_response(),
            Eight::F(x) => x.into_response(),
            Eight::G(x) => x.into_response(),
            Eight::H(x) => x.into_response(),
        }
    }
}

} // verus!
