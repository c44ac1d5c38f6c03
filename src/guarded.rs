//! Allocation, release and resizing of guarded blocks.
use crate::error::{AllocationError, DeallocationError, ReallocationError};
use crate::header::{
    encode, lemma_markers, marker_of, round_up, size_of_bytes, used_marker, free_marker, Header,
    HEADER_SIZE, MARKER_FREE, MARKER_USED,
};
use crate::heap::{overwrite, release_spec, request_spec, Heap, HeapView};
use vstd::arithmetic::power2::is_pow2;
use vstd::array::array_as_slice;
use vstd::layout::valid_layout;
use vstd::prelude::*;

verus! {

/// The error of `std::alloc::Layout::from_size_align`, carried opaquely.
#[verifier::external_type_specification]
#[verifier::external_body]
pub struct ExLayoutError(std::alloc::LayoutError);

/// Relies on `std::alloc::Layout::from_size_align`, which succeeds exactly
/// when `align` is a power of two and `size` rounded up to a multiple of
/// `align` does not exceed `isize::MAX`.
#[verifier::external_body]
fn check_layout(size: usize, align: usize) -> (r: Result<(), std::alloc::LayoutError>)
    ensures
        r is Ok <==> valid_layout(size, align),
{
    std::alloc::Layout::from_size_align(size, align).map(|_layout| ())
}

/// A layout with the header's alignment is valid exactly when its size does
/// not exceed the largest multiple of `HEADER_SIZE` that fits in an `isize`.
pub proof fn lemma_header_layout(size: usize)
    ensures
        valid_layout(size, HEADER_SIZE) <==> size <= isize::MAX - 15,
{
    reveal_with_fuel(is_pow2, 5);
    assert(isize::MAX as int % 16 == 15);
}

/// The size of the block that holds a payload of `size` bytes: the header
/// and the payload, rounded up to a multiple of `HEADER_SIZE`.
pub open spec fn block_size(size: usize) -> int {
    round_up(size + HEADER_SIZE)
}

/// `n` rounded up to a multiple of `HEADER_SIZE`, or `None` on overflow.
fn next_multiple_of_header(n: usize) -> (r: Option<usize>)
    ensures
        r == if round_up(n as int) <= usize::MAX {
            Some(round_up(n as int) as usize)
        } else {
            None::<usize>
        },
{
    let rem = n % HEADER_SIZE;
    if rem == 0 {
        Some(n)
    } else {
        n.checked_add(HEADER_SIZE - rem)
    }
}

/// What `allocate(size)` does to a heap, and what it returns.
pub open spec fn alloc_spec(h: HeapView, size: usize) -> (HeapView, Result<usize, AllocationError>) {
    let total = block_size(size);
    if total > usize::MAX {
        (h, Err(AllocationError::ArithmeticError))
    } else if !valid_layout(total as usize, HEADER_SIZE) {
        (h, Err(AllocationError::LayoutError))
    } else {
        let (h1, addr) = request_spec(h, total as usize, HEADER_SIZE);
        if addr == 0 {
            (h1, Err(AllocationError::OutOfMemory))
        } else if addr % HEADER_SIZE != 0 {
            (release_spec(h1, addr, total as usize, HEADER_SIZE), Err(AllocationError::ImproperAlignment))
        } else {
            (
                h1.with_bytes(overwrite(h1.bytes, addr as int, encode(used_marker(), total as usize))),
                Ok((addr + HEADER_SIZE) as usize),
            )
        }
    }
}

/// Allocates a guarded block with room for `size` bytes and returns the
/// address of its payload.
pub fn allocate(heap: &mut Heap, size: usize) -> (r: Result<usize, AllocationError>)
    requires
        old(heap).wf(),
    ensures
        final(heap).wf(),
        (final(heap)@, r) == alloc_spec(old(heap)@, size),
{
    let with_header = match size.checked_add(HEADER_SIZE) {
        Some(n) => n,
        None => return Err(AllocationError::ArithmeticError),
    };
    let total = match next_multiple_of_header(with_header) {
        Some(t) => t,
        None => return Err(AllocationError::ArithmeticError),
    };
    if check_layout(total, HEADER_SIZE).is_err() {
        return Err(AllocationError::LayoutError);
    }
    let addr = heap.request(total, HEADER_SIZE);
    if addr == 0 {
        return Err(AllocationError::OutOfMemory);
    }
    if addr % HEADER_SIZE != 0 {
        heap.release(addr, total, HEADER_SIZE);
        return Err(AllocationError::ImproperAlignment);
    }
    proof {
        lemma_markers();
    }
    let header = Header::new(MARKER_USED, total);
    let bytes = header.to_bytes();
    heap.write_bytes(addr, bytes.as_slice());
    Ok(addr + HEADER_SIZE)
}

/// The sixteen bytes at `at`, where a header would stand.
pub open spec fn header_at(h: HeapView, at: int) -> Seq<u8> {
    h.bytes.subrange(at, at + HEADER_SIZE)
}

/// Whether a header with marker `m` lies at `at`.
pub open spec fn has_marker(h: HeapView, at: int, m: Seq<u8>) -> bool {
    h.in_range(at, HEADER_SIZE as int) && marker_of(header_at(h, at)) == m
}

/// What `free(ptr)` does to a heap, and what it returns. On every error the
/// heap is left as it was.
pub open spec fn free_spec(h: HeapView, ptr: usize) -> (HeapView, Result<(), DeallocationError>) {
    let at = ptr - HEADER_SIZE;
    if ptr == 0 {
        (h, Err(DeallocationError::NullPtr))
    } else if ptr % HEADER_SIZE != 0 {
        (h, Err(DeallocationError::ImproperAlignment))
    } else if has_marker(h, at, free_marker()) {
        (h, Err(DeallocationError::DoubleFree))
    } else if !has_marker(h, at, used_marker()) {
        (h, Err(DeallocationError::InvalidAllocation))
    } else {
        let size = size_of_bytes(header_at(h, at));
        if !valid_layout(size, HEADER_SIZE) {
            (h, Err(DeallocationError::LayoutError))
        } else {
            (
                release_spec(h.with_bytes(overwrite(h.bytes, at, free_marker())), at as usize, size, HEADER_SIZE),
                Ok(()),
            )
        }
    }
}

/// Marks the block whose payload is at `ptr` free and releases it, after
/// checking that a live header precedes `ptr`.
pub fn free(heap: &mut Heap, ptr: usize) -> (r: Result<(), DeallocationError>)
    requires
        old(heap).wf(),
    ensures
        final(heap).wf(),
        (final(heap)@, r) == free_spec(old(heap)@, ptr),
{
    if ptr == 0 {
        return Err(DeallocationError::NullPtr);
    }
    if ptr % HEADER_SIZE != 0 {
        return Err(DeallocationError::ImproperAlignment);
    }
    let at = ptr - HEADER_SIZE;
    if at % HEADER_SIZE != 0 {
        return Err(DeallocationError::ImproperAlignment);
    }
    proof {
        lemma_markers();
    }
    let bytes = match heap.read_bytes(at, HEADER_SIZE) {
        Some(b) => b,
        None => return Err(DeallocationError::InvalidAllocation),
    };
    let header = Header::from_bytes(bytes.as_slice());
    if header.is_free() {
        return Err(DeallocationError::DoubleFree);
    }
    if !header.is_used() {
        return Err(DeallocationError::InvalidAllocation);
    }
    if check_layout(header.size, HEADER_SIZE).is_err() {
        return Err(DeallocationError::LayoutError);
    }
    heap.write_bytes(at, array_as_slice(&MARKER_FREE));
    heap.release(at, header.size, HEADER_SIZE);
    Ok(())
}

/// How many payload bytes `relloc` carries from the block at `ptr` to a new
/// one of `new_size` bytes: the old block's payload room (its recorded size
/// less the header), at most `new_size`, and never past the end of the
/// address space.
pub open spec fn copy_len(h: HeapView, ptr: usize, new_size: usize) -> int {
    let recorded = size_of_bytes(header_at(h, ptr - HEADER_SIZE)) as int;
    let room = if recorded < HEADER_SIZE { 0 } else { recorded - HEADER_SIZE };
    let wanted = if room < new_size { room } else { new_size as int };
    let mapped = h.bytes.len() - ptr;
    if wanted < mapped { wanted } else { mapped }
}

/// What `relloc(ptr, new_size)` does to a heap, and what it returns: a
/// resize to zero frees, a null pointer allocates, and otherwise a new block
/// is allocated, the payload prefix copied, and the old block freed (and the
/// new one too where freeing the old one fails).
pub open spec fn relloc_spec(h: HeapView, ptr: usize, new_size: usize) -> (
    HeapView,
    Result<usize, ReallocationError>,
) {
    let at = ptr - HEADER_SIZE;
    if new_size == 0 {
        if ptr == 0 {
            (h, Ok(0))
        } else {
            let (h1, r) = free_spec(h, ptr);
            (h1, match r {
                Ok(_) => Ok(0),
                Err(e) => Err(ReallocationError::DeallocationError(e)),
            })
        }
    } else if ptr == 0 {
        let (h1, r) = alloc_spec(h, new_size);
        (h1, match r {
            Ok(p) => Ok(p),
            Err(e) => Err(ReallocationError::AllocationError(e)),
        })
    } else if ptr % HEADER_SIZE != 0 {
        (h, Err(ReallocationError::ImproperAlignment))
    } else if has_marker(h, at, free_marker()) {
        (h, Err(ReallocationError::UseAfterFree))
    } else if !has_marker(h, at, used_marker()) {
        (h, Err(ReallocationError::InvalidPointer))
    } else {
        let (h1, r) = alloc_spec(h, new_size);
        match r {
            Err(e) => (h1, Err(ReallocationError::AllocationError(e))),
            Ok(q) => {
                let n = copy_len(h, ptr, new_size);
                let h2 = h1.with_bytes(overwrite(h1.bytes, q as int, h1.bytes.subrange(ptr as int, ptr + n)));
                let (h3, r1) = free_spec(h2, ptr);
                match r1 {
                    Ok(_) => (h3, Ok(q)),
                    Err(e1) => {
                        let (h4, r2) = free_spec(h3, q);
                        match r2 {
                            Ok(_) => (h4, Err(ReallocationError::DeallocationError(e1))),
                            Err(e2) => (h4, Err(ReallocationError::FreeFailedTwice(e1, e2))),
                        }
                    },
                }
            },
        }
    }
}

/// Moves the payload at `ptr` into a new block of `new_size` bytes and
/// returns the new payload's address; null where `new_size` is zero. The
/// bytes carried over are those of `copy_len`: the old block's whole payload
/// room, padding included, up to `new_size`.
pub fn relloc(heap: &mut Heap, ptr: usize, new_size: usize) -> (r: Result<usize, ReallocationError>)
    requires
        old(heap).wf(),
    ensures
        final(heap).wf(),
        (final(heap)@, r) == relloc_spec(old(heap)@, ptr, new_size),
{
    if new_size == 0 {
        if ptr != 0 {
            if let Err(e) = free(heap, ptr) {
                return Err(ReallocationError::DeallocationError(e));
            }
        }
        return Ok(0);
    }
    if ptr == 0 {
        return match allocate(heap, new_size) {
            Ok(p) => Ok(p),
            Err(e) => Err(ReallocationError::AllocationError(e)),
        };
    }
    if ptr % HEADER_SIZE != 0 {
        return Err(ReallocationError::ImproperAlignment);
    }
    let at = ptr - HEADER_SIZE;
    if at % HEADER_SIZE != 0 {
        return Err(ReallocationError::ImproperAlignment);
    }
    proof {
        lemma_markers();
    }
    let bytes = match heap.read_bytes(at, HEADER_SIZE) {
        Some(b) => b,
        None => return Err(ReallocationError::InvalidPointer),
    };
    let header = Header::from_bytes(bytes.as_slice());
    if header.is_free() {
        return Err(ReallocationError::UseAfterFree);
    }
    if !header.is_used() {
        return Err(ReallocationError::InvalidPointer);
    }
    let room = header.size.saturating_sub(HEADER_SIZE);
    let wanted = if room < new_size { room } else { new_size };
    let mapped = heap.used() - ptr;
    let n = if wanted < mapped { wanted } else { mapped };
    let new_ptr = match allocate(heap, new_size) {
        Ok(p) => p,
        Err(e) => return Err(ReallocationError::AllocationError(e)),
    };
    heap.copy_forward(ptr, new_ptr, n);
    match free(heap, ptr) {
        Ok(()) => Ok(new_ptr),
        Err(e1) => match free(heap, new_ptr) {
            Ok(()) => Err(ReallocationError::DeallocationError(e1)),
            Err(e2) => Err(ReallocationError::FreeFailedTwice(e1, e2)),
        },
    }
}

} // verus!
