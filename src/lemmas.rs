//! Facts about sequences of guarded operations.
use crate::error::{AllocationError, DeallocationError, ReallocationError};
use crate::guarded::{
    alloc_spec, block_size, copy_len, free_spec, has_marker, header_at, lemma_header_layout, relloc_spec,
};
use crate::header::{encode, free_marker, lemma_encode_decode, lemma_markers, size_of_bytes, used_marker, HEADER_SIZE};
use crate::heap::{overwrite, BackingCall, HeapView};
use vstd::layout::valid_layout;
use vstd::prelude::*;

verus! {

/// Whether `p` is the payload address of a live block: a header marked used
/// precedes it, and the size it records covers at least the header, stays
/// inside the address space, and forms a valid layout.
pub open spec fn is_live(h: HeapView, p: usize) -> bool {
    let at = p - HEADER_SIZE;
    let size = size_of_bytes(header_at(h, at));
    &&& p != 0
    &&& p % HEADER_SIZE == 0
    &&& has_marker(h, at, used_marker())
    &&& HEADER_SIZE <= size
    &&& at + size <= h.bytes.len()
    &&& valid_layout(size, HEADER_SIZE)
}

/// The payload room of the block at `p`: its recorded size less the header.
pub open spec fn room(h: HeapView, p: usize) -> int {
    size_of_bytes(header_at(h, p - HEADER_SIZE)) - HEADER_SIZE
}

/// Allocating writes a used header for a block of `block_size(size)` bytes
/// and hands out the payload after it, where the request is met.
proof fn lemma_allocate_fits(h: HeapView, size: usize)
    requires
        h.wf(),
        block_size(size) <= h.limit - h.bytes.len(),
    ensures
        ({
            let (h1, r) = alloc_spec(h, size);
            let q = (h.bytes.len() + HEADER_SIZE) as usize;
            &&& r == Ok::<usize, AllocationError>(q)
            &&& h1.wf()
            &&& h1.limit == h.limit
            &&& h1.bytes.len() == h.bytes.len() + block_size(size)
            &&& h1.bytes.subrange(0, h.bytes.len() as int) == h.bytes
            &&& header_at(h1, h.bytes.len() as int) == encode(used_marker(), block_size(size) as usize)
            &&& is_live(h1, q)
            &&& room(h1, q) >= size
        }),
{
    let total = block_size(size);
    lemma_header_layout(total as usize);
    lemma_encode_decode(used_marker(), total as usize);
    let (h1, r) = alloc_spec(h, size);
    let at = h.bytes.len() as int;
    assert(header_at(h1, at) =~= encode(used_marker(), total as usize));
    assert(h1.bytes.subrange(0, at) =~= h.bytes);
}

/// Every size whose block fits in the room left in the heap is allocated:
/// the payload address is non-null and aligned to `HEADER_SIZE`, the block
/// has room for `size` bytes, and freeing the payload once then succeeds.
pub proof fn lemma_allocate_then_free(h: HeapView, size: usize)
    requires
        h.wf(),
        block_size(size) <= h.limit - h.bytes.len(),
    ensures
        alloc_spec(h, size).1 matches Ok(p) && {
            &&& p != 0
            &&& p % HEADER_SIZE == 0
            &&& room(alloc_spec(h, size).0, p) >= size
            &&& free_spec(alloc_spec(h, size).0, p).1 == Ok::<(), DeallocationError>(())
        },
{
    lemma_allocate_fits(h, size);
    lemma_markers();
}

/// A live block is freed, and freeing it again is refused as a double free
/// that leaves the heap as it was: the backing allocator sees exactly one
/// release.
pub proof fn lemma_double_free(h: HeapView, p: usize)
    requires
        h.wf(),
        is_live(h, p),
    ensures
        ({
            let (h1, r) = free_spec(h, p);
            let at = (p - HEADER_SIZE) as usize;
            &&& r == Ok::<(), DeallocationError>(())
            &&& h1.calls == h.calls.push(
                BackingCall::Release { addr: at, size: size_of_bytes(header_at(h, at as int)), align: HEADER_SIZE },
            )
            &&& free_spec(h1, p) == (h1, Err::<(), DeallocationError>(DeallocationError::DoubleFree))
        }),
{
    lemma_markers();
    let (h1, r) = free_spec(h, p);
    let at = p - HEADER_SIZE;
    assert(header_at(h1, at).subrange(0, 8) =~= free_marker());
}

/// Freeing null is refused and leaves the heap, and so the backing
/// allocator, untouched.
pub proof fn lemma_free_null(h: HeapView)
    ensures
        free_spec(h, 0) == (h, Err::<(), DeallocationError>(DeallocationError::NullPtr)),
{
}

/// Freeing an address past the end of the address space is refused as
/// misaligned or as not allocated here, and leaves the heap untouched.
pub proof fn lemma_free_foreign(h: HeapView, p: usize)
    requires
        h.wf(),
        p > h.bytes.len(),
    ensures
        free_spec(h, p).0 == h,
        free_spec(h, p).1 == Err::<(), DeallocationError>(DeallocationError::InvalidAllocation)
            || free_spec(h, p).1 == Err::<(), DeallocationError>(DeallocationError::ImproperAlignment),
{
}

/// Allocating the largest size overflows, and the heap is left untouched.
pub proof fn lemma_allocate_max(h: HeapView)
    ensures
        alloc_spec(h, usize::MAX) == (h, Err::<usize, AllocationError>(AllocationError::ArithmeticError)),
{
}

/// Resizing a live block into one that fits succeeds; the new block is live
/// with room for `new_size` bytes and begins with as many of the old
/// payload's bytes as both blocks hold.
pub proof fn lemma_resize_keeps_prefix(h: HeapView, p: usize, new_size: usize)
    requires
        h.wf(),
        is_live(h, p),
        new_size > 0,
        block_size(new_size) <= h.limit - h.bytes.len(),
    ensures
        relloc_spec(h, p, new_size).1 matches Ok(q) && {
            let h1 = relloc_spec(h, p, new_size).0;
            &&& h1.wf()
            &&& is_live(h1, q)
            &&& room(h1, q) >= new_size
            &&& forall|i: int|
                0 <= i < room(h, p) && i < new_size ==> #[trigger] h1.bytes[q + i] == h.bytes[p + i]
        },
{
    lemma_markers();
    lemma_allocate_fits(h, new_size);
    let (ha, ra) = alloc_spec(h, new_size);
    let q = (h.bytes.len() + HEADER_SIZE) as usize;
    let at = p - HEADER_SIZE;
    assert(header_at(ha, at) =~= header_at(h, at));
    let n = copy_len(h, p, new_size);
    let h2 = ha.with_bytes(overwrite(ha.bytes, q as int, ha.bytes.subrange(p as int, p + n)));
    assert(header_at(h2, at) =~= header_at(h, at));
    assert(header_at(h2, q - HEADER_SIZE) =~= header_at(ha, q - HEADER_SIZE));
    let (h3, r1) = free_spec(h2, p);
    assert(header_at(h3, q - HEADER_SIZE) =~= header_at(ha, q - HEADER_SIZE));
    assert forall|i: int| 0 <= i < room(h, p) && i < new_size implies #[trigger] h3.bytes[q + i] == h.bytes[p + i] by {
        assert(h2.bytes[q + i] == ha.bytes[p + i]);
    }
}

/// Resizing a non-null pointer to zero frees it: the heap ends as `free`
/// leaves it, and the result is null where `free` succeeds and `free`'s
/// error otherwise.
pub proof fn lemma_resize_to_zero(h: HeapView, p: usize)
    requires
        p != 0,
    ensures
        relloc_spec(h, p, 0).0 == free_spec(h, p).0,
        relloc_spec(h, p, 0).1 == match free_spec(h, p).1 {
            Ok(_) => Ok::<usize, ReallocationError>(0),
            Err(e) => Err(ReallocationError::DeallocationError(e)),
        },
{
}

/// Resizing null to a non-zero size allocates: the heap ends as `allocate`
/// leaves it, with the same payload address or the same error.
pub proof fn lemma_resize_null(h: HeapView, n: usize)
    requires
        n > 0,
    ensures
        relloc_spec(h, 0, n).0 == alloc_spec(h, n).0,
        relloc_spec(h, 0, n).1 == match alloc_spec(h, n).1 {
            Ok(q) => Ok::<usize, ReallocationError>(q),
            Err(e) => Err(ReallocationError::AllocationError(e)),
        },
{
}

} // verus!
