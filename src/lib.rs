//! A guarded heap: every block handed out carries a header that records
//! whether it is live and how large it is, so that double frees, foreign
//! pointers and misaligned pointers are caught instead of corrupting memory.
use vstd::prelude::*;

pub mod error;
pub mod guarded;
pub mod header;
pub mod heap;
pub mod lemmas;

pub use error::{AllocationError, DeallocationError, ReallocationError};
pub use guarded::{allocate, free, relloc};
pub use header::{Header, HEADER_SIZE, MARKER_FREE, MARKER_USED};
pub use heap::{BackingCall, Heap};

verus! {

} // verus!
