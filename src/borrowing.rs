//! Shared borrows held inside other values, and re-pointed through mutable
//! borrows without touching what they point to.
use vstd::prelude::*;

verus! {

/// Holds a shared borrow of either an `A` (alive for `'a`) or a `B` (alive for `'b`).
pub enum Either<'a, 'b, A, B> {
    A(&'a A),
    B(&'b B),
}

/// Moves the borrow held by `e` to the other side; it still points to the same value.
pub fn f<'a, A>(e: &mut Either<'a, 'a, A, A>)
    ensures
        match *old(e) {
            Either::A(a) => *final(e) == Either::<'a, 'a, A, A>::B(a),
            Either::B(b) => *final(e) == Either::<'a, 'a, A, A>::A(b),
        },
{
    *e = match e {
        Either::A(a) => Either::B(*a),
        Either::B(b) => Either::A(*b),
    };
}

/// Makes `b` point where `a` points; both borrows share one lifetime.
pub fn assign_through_borrow<'a>(a: &mut &'a i32, b: &mut &'a i32)
    ensures
        *final(b) == *old(a),
        *final(a) == *old(a),
{
    *b = *a;
}

/// Makes `b` point where `a` points; `a`'s target lives at least as long as `b`'s.
pub fn annotated_assign_through_borrow<'a: 'b, 'b>(a: &mut &'a i32, b: &mut &'b i32)
    ensures
        **final(b) == **old(a),
        *final(a) == *old(a),
{
    *b = *a;
}

} // verus!
