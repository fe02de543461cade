//! A thread-safe shared cell: a reference-counted handle to a value whose
//! mutation is serialised by a lock, together with verified models of the
//! counting and locking protocols it follows.
//!
//! - `shared`: `SharedCounted<T>`, the co-owned heap block.
//! - `exclusive`: `ExclusiveCell<T>` and its scoped `Guard`, whose reads
//!   and writes are stated over a model of the guarded value.
//! - `counting`: the strong count as a state machine, and its guarantees
//!   over every sequence of clones, drops and reads. These guarantees are
//!   proved of the model; `SharedCounted` takes its count from
//!   `std::sync::Arc` and does not run through it.
//! - `locking`: the lock as a state machine, a model of workers that
//!   increment a shared integer under it, and its guarantees over every
//!   schedule. These too are proved of the model, not of `ExclusiveCell`,
//!   whose lock is `std::sync::Mutex`.
//! - `ownership`, `borrowing`: values moved between owners and borrows.
pub mod borrowing;
pub mod counting;
pub mod exclusive;
pub mod locking;
pub mod ownership;
pub mod shared;

pub use exclusive::{ExclusiveCell, Guard};
pub use shared::SharedCounted;
