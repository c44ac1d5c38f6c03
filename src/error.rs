//! The errors of the three operations.
use vstd::prelude::*;

verus! {

/// Why `allocate` failed.
#[derive(Clone, Copy, Debug, PartialEq, Eq, Structural)]
pub enum AllocationError {
    /// The block size overflowed.
    ArithmeticError,
    /// The backing allocator returned a misaligned block.
    ImproperAlignment,
    /// The block size and alignment do not form a valid layout.
    LayoutError,
    /// The backing allocator had no block to give.
    OutOfMemory,
}

/// Why `free` refused a pointer.
#[derive(Clone, Copy, Debug, PartialEq, Eq, Structural)]
pub enum DeallocationError {
    /// The block was already freed.
    DoubleFree,
    /// The pointer, or the header before it, is not aligned.
    ImproperAlignment,
    /// No header written by this library precedes the pointer.
    InvalidAllocation,
    /// The size in the header does not form a valid layout.
    LayoutError,
    /// The pointer is null.
    NullPtr,
}

/// Why `relloc` failed.
#[derive(Clone, Copy, Debug, PartialEq, Eq, Structural)]
pub enum ReallocationError {
    /// Allocating the new block failed.
    AllocationError(AllocationError),
    /// Freeing the old block failed.
    DeallocationError(DeallocationError),
    /// Freeing the old block failed, and so did releasing the new one.
    FreeFailedTwice(DeallocationError, DeallocationError),
    /// The pointer, or the header before it, is not aligned.
    ImproperAlignment,
    /// No header written by this library precedes the pointer.
    InvalidPointer,
    /// The block was already freed.
    UseAfterFree,
}

} // verus!
