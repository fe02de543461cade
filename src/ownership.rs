//! Values that move between owners: a wrapper and a two-way sum type whose
//! side can be flipped without copying its payload.
use vstd::prelude::*;

verus! {

/// Sole owner of one value.
pub struct Wrapped<T>(pub T);

/// Owns either an `A` or a `B`.
pub enum Either<A, B> {
    A(A),
    B(B),
}

/// Moves the payload of `e` to the other side, keeping the payload itself.
pub fn f<A>(e: Either<Wrapped<A>, Wrapped<A>>) -> (r: Either<Wrapped<A>, Wrapped<A>>)
    ensures
        match e {
            Either::A(a) => r == Either::<Wrapped<A>, Wrapped<A>>::B(a),
            Either::B(b) => r == Either::<Wrapped<A>, Wrapped<A>>::A(b),
        },
{
    match e {
        Either::A(a) => Either::B(a),
        Either::B(b) => Either::A(b),
    }
}

} // verus!
