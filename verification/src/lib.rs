//! A thread-shared, growable linear memory for a sandboxed execution engine,
//! together with the futex-style synchronization primitives (atomic wait with
//! timeout, notify-N) that let concurrent logical threads coordinate through
//! that memory.
//!
//! The crate verifies the decision logic of the core: descriptor validation at
//! construction, serialized growth with atomic publication of the new size,
//! address validation, the race-free check-then-park protocol of the wait
//! engine, and the waiter registry. Actually suspending and resuming operating
//! system threads is the embedder's job: the wait entry points return a
//! decision (mismatch, or parked) and the notify entry point returns the
//! tokens of the waiters to resume.

pub mod backing;
pub mod memory_type;
pub mod parking;
pub mod shared_memory;

use vstd::prelude::*;

verus! {

/// Log base two of the size of a linear memory page.
pub const PAGE_SIZE_LOG2: u8 = 16;

/// The size in bytes of a linear memory page.
pub const PAGE_SIZE: u64 = 65536;

} // verus!
