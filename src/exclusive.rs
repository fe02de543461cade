//! `ExclusiveCell<T>`: a value whose every read and write goes through a
//! scoped guard, of which at most one exists at a time.
//!
//! The lock is `std::sync::Mutex`. Its guard releases the lock when it is
//! dropped, on every exit path, unwinding included. A poisoned lock is
//! treated as a plain unlocked one: the value left behind by a failed
//! critical section is handed to the next holder as it is.
//!
//! Whether a `Mutex` is locked, and what it holds while nobody holds the
//! lock, is hidden from the verifier. A guard carries a model of the value
//! it protects: the value found behind the lock when it was taken (whatever
//! other threads left there), then followed by every write through the
//! guard. The guarantees of the locking protocol itself are stated over
//! the separate model in `locking`, not over this type.
use vstd::prelude::*;
use std::sync::{Mutex, MutexGuard, TryLockError};

verus! {

#[verifier::external_type_specification]
#[verifier::external_body]
#[verifier::reject_recursive_types(T)]
pub struct ExMutex<T: ?Sized>(Mutex<T>);

#[verifier::external_type_specification]
#[verifier::external_body]
#[verifier::reject_recursive_types(T)]
pub struct ExMutexGuard<'a, T: ?Sized + 'a>(MutexGuard<'a, T>);

/// A value protected by a lock.
#[verifier::reject_recursive_types(T)]
pub struct ExclusiveCell<T> {
    lock: Mutex<T>,
}

/// Exclusive access to the value of an `ExclusiveCell`, for as long as the
/// guard lives; dropping it releases the lock.
#[verifier::reject_recursive_types(T)]
pub struct Guard<'a, T> {
    held: MutexGuard<'a, T>,
    model: Ghost<T>,
}

impl<T> ExclusiveCell<T> {
    /// A cell holding `value`, unlocked.
    pub fn create(value: T) -> (r: Self) {
        ExclusiveCell { lock: mutex_new(value) }
    }

    /// Blocks until the lock is free, then takes it. A thread that already
    /// holds the lock of this cell and calls this again does not return: it
    /// may panic or deadlock.
    pub fn acquire(&self) -> (r: Guard<'_, T>) {
        guard_of(mutex_lock(&self.lock))
    }

    /// Takes the lock if it is free at this moment; never blocks.
    pub fn try_acquire(&self) -> (r: Option<Guard<'_, T>>) {
        match mutex_try_lock(&self.lock) {
            Some(held) => Some(guard_of(held)),
            None => None,
        }
    }
}

/// Wraps a held lock in a guard whose model is the value found behind it.
fn guard_of<'a, T>(held: MutexGuard<'a, T>) -> (r: Guard<'a, T>) {
    let found = held_value(&held);
    let ghost v = *found;
    Guard { held, model: Ghost(v) }
}

impl<'a, T> Guard<'a, T> {
    /// The protected value, as this guard last read or wrote it.
    pub closed spec fn value(&self) -> T {
        self.model@
    }

    /// The protected value, read under the lock.
    pub fn get(&self) -> (r: &T)
        ensures
            *r == self.value(),
    {
        guard_deref(self)
    }

    /// Writes `value` under the lock and returns the value it replaces.
    pub fn replace(&mut self, value: T) -> (r: T)
        ensures
            r == old(self).value(),
            final(self).value() == value,
    {
        guard_replace(self, value)
    }

    /// Writes `value` under the lock.
    pub fn set(&mut self, value: T)
        ensures
            final(self).value() == value,
    {
        let _old = self.replace(value);
    }
}

/// Adds `amount` to an integer cell inside one critical section. Returns the
/// value read under the lock and the value written back, or, when the sum
/// does not fit, the value read, which is then left as it was.
pub fn fetch_add(cell: &ExclusiveCell<u64>, amount: u64) -> (r: Result<(u64, u64), u64>)
    ensures
        match r {
            Ok((before, after)) => after == before + amount,
            Err(before) => before + amount > u64::MAX,
        },
{
    let mut guard = cell.acquire();
    let before: u64 = *guard.get();
    match before.checked_add(amount) {
        Some(after) => {
            guard.set(after);
            assert(guard.value() == before + amount);
            Ok((before, after))
        },
        None => Err(before),
    }
}

/// Relies on `Mutex::new`: an unlocked mutex that owns `value`.
#[verifier::external_body]
fn mutex_new<T>(value: T) -> (r: Mutex<T>) {
    Mutex::new(value)
}

/// Relies on `Mutex::lock`: blocks the thread until the lock is free, then
/// holds it; a poisoned lock still hands out its guard.
#[verifier::external_body]
fn mutex_lock<'a, T>(m: &'a Mutex<T>) -> (r: MutexGuard<'a, T>) {
    match m.lock() {
        Ok(held) => held,
        Err(poisoned) => poisoned.into_inner(),
    }
}

/// Relies on `Mutex::try_lock`: returns at once, with a guard only when the
/// lock was free; a poisoned lock still hands out its guard.
#[verifier::external_body]
fn mutex_try_lock<'a, T>(m: &'a Mutex<T>) -> (r: Option<MutexGuard<'a, T>>) {
    match m.try_lock() {
        Ok(held) => Some(held),
        Err(TryLockError::Poisoned(poisoned)) => Some(poisoned.into_inner()),
        Err(TryLockError::WouldBlock) => None,
    }
}

/// Relies on `MutexGuard`'s `Deref`: the value behind a lock just taken,
/// whatever other threads left there.
#[verifier::external_body]
fn held_value<'b, 'a, T>(held: &'b MutexGuard<'a, T>) -> (r: &'b T) {
    &**held
}

/// Relies on `MutexGuard`'s `Deref`: while the lock is held only this guard
/// reaches the value, so it reads what the guard last saw or wrote.
#[verifier::external_body]
fn guard_deref<'b, 'a, T>(g: &'b Guard<'a, T>) -> (r: &'b T)
    ensures
        *r == g.value(),
{
    &*g.held
}

/// Relies on `MutexGuard`'s `DerefMut` and `std::mem::replace`: stores `value`
/// behind the held lock and returns the previous one.
#[verifier::external_body]
fn guard_replace<'a, T>(g: &mut Guard<'a, T>, value: T) -> (r: T)
    ensures
        r == old(g).value(),
        final(g).value() == value,
{
    std::mem::replace(&mut *g.held, value)
}

} // verus!
