//! `SharedCounted<T>`: a handle to a heap block holding one `T`, co-owned by
//! every clone of the handle and freed when the last clone is dropped.
//!
//! The block and its atomic strong count are those of `std::sync::Arc`:
//! clones increment the count, drops decrement it (release on every
//! decrement, acquire on the one that reaches zero), and only the thread
//! whose decrement reaches zero destroys the value.
use vstd::prelude::*;
use std::sync::Arc;

verus! {

/// A co-owning handle to a shared value.
pub struct SharedCounted<T> {
    block: Arc<T>,
}

impl<T> SharedCounted<T> {
    /// The shared value that every handle to this block reads.
    pub closed spec fn value(&self) -> T {
        *self.block
    }

    /// Allocates a block holding `value`, with a strong count of one.
    pub fn create(value: T) -> (r: Self)
        ensures
            r.value() == value,
    {
        SharedCounted { block: Arc::new(value) }
    }

    /// A new handle to the same block; the count goes up by one.
    pub fn clone(&self) -> (r: Self)
        ensures
            r.value() == self.value(),
    {
        SharedCounted { block: arc_clone(&self.block) }
    }

    /// The shared value, borrowed for as long as this handle is.
    pub fn borrow(&self) -> (r: &T)
        ensures
            *r == self.value(),
    {
        &*self.block
    }

    /// The number of live handles to this block, as observed now.
    pub fn strong_count(&self) -> (r: usize)
        ensures
            r >= 1,
    {
        arc_strong_count(&self.block)
    }

    /// Whether both handles refer to the same block.
    pub fn same_block(&self, other: &Self) -> (r: bool)
        ensures
            r ==> self.value() == other.value(),
    {
        arc_ptr_eq(&self.block, &other.block)
    }
}

/// Relies on `Arc::clone`: the new `Arc` points to the same allocation, so it
/// reads the same value.
#[verifier::external_body]
fn arc_clone<T>(a: &Arc<T>) -> (r: Arc<T>)
    ensures
        *r == **a,
{
    Arc::clone(a)
}

/// Relies on `Arc::strong_count`: the number of strong pointers to the
/// allocation, of which `a` itself is one.
#[verifier::external_body]
fn arc_strong_count<T>(a: &Arc<T>) -> (r: usize)
    ensures
        r >= 1,
{
    Arc::strong_count(a)
}

/// Relies on `Arc::ptr_eq`: true only when both point to one allocation, which
/// then holds one value.
#[verifier::external_body]
fn arc_ptr_eq<T>(a: &Arc<T>, b: &Arc<T>) -> (r: bool)
    ensures
        r ==> **a == **b,
{
    Arc::ptr_eq(a, b)
}

} // verus!
