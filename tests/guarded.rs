use ps_alloc::{
    allocate, free, relloc, AllocationError, BackingCall, DeallocationError, Header, Heap,
    ReallocationError, HEADER_SIZE, MARKER_FREE, MARKER_USED,
};

fn releases(heap: &Heap) -> usize {
    heap.calls()
        .iter()
        .filter(|c| matches!(c, BackingCall::Release { .. }))
        .count()
}

#[test]
fn allocate_aligned_then_free() {
    let mut heap = Heap::new(1 << 20);
    for size in [0usize, 1, 15, 16, 17, 31, 100, 1000, 4096] {
        let p = allocate(&mut heap, size).unwrap();
        assert_ne!(p, 0);
        assert_eq!(p % HEADER_SIZE, 0);
        assert_eq!(free(&mut heap, p), Ok(()));
    }
}

#[test]
fn allocate_requests_rounded_block() {
    let mut heap = Heap::new(4096);
    let p = allocate(&mut heap, 100).unwrap();
    assert_eq!(p, 32);
    assert_eq!(heap.calls().len(), 1);
    assert_eq!(
        heap.calls()[0],
        BackingCall::Request { size: 128, align: HEADER_SIZE, addr: 16 }
    );
    assert_eq!(heap.used(), 16 + 128);
}

#[test]
fn double_free_releases_once() {
    let mut heap = Heap::new(4096);
    let p = allocate(&mut heap, 24).unwrap();
    assert_eq!(free(&mut heap, p), Ok(()));
    assert_eq!(free(&mut heap, p), Err(DeallocationError::DoubleFree));
    assert_eq!(releases(&heap), 1);
    assert_eq!(
        heap.calls()[1],
        BackingCall::Release { addr: p - HEADER_SIZE, size: 48, align: HEADER_SIZE }
    );
}

#[test]
fn free_null_makes_no_call() {
    let mut heap = Heap::new(4096);
    assert_eq!(free(&mut heap, 0), Err(DeallocationError::NullPtr));
    assert!(heap.calls().is_empty());
}

#[test]
fn free_foreign_pointer_is_refused() {
    let mut heap = Heap::new(4096);
    let p = allocate(&mut heap, 64).unwrap();
    let before = heap.used();
    assert_eq!(free(&mut heap, before + 64), Err(DeallocationError::InvalidAllocation));
    assert_eq!(free(&mut heap, 1 << 40), Err(DeallocationError::InvalidAllocation));
    assert_eq!(free(&mut heap, p + 3), Err(DeallocationError::ImproperAlignment));
    assert_eq!(free(&mut heap, p + 8), Err(DeallocationError::ImproperAlignment));
    assert_eq!(free(&mut heap, p + 32), Err(DeallocationError::InvalidAllocation));
    assert_eq!(free(&mut heap, HEADER_SIZE), Err(DeallocationError::InvalidAllocation));
    assert_eq!(releases(&heap), 0);
    assert_eq!(heap.used(), before);
}

#[test]
fn allocate_max_overflows() {
    let mut heap = Heap::new(4096);
    assert_eq!(allocate(&mut heap, usize::MAX), Err(AllocationError::ArithmeticError));
    assert_eq!(allocate(&mut heap, usize::MAX - 16), Err(AllocationError::ArithmeticError));
    assert!(heap.calls().is_empty());
}

#[test]
fn allocate_invalid_layout() {
    let mut heap = Heap::new(4096);
    assert_eq!(allocate(&mut heap, isize::MAX as usize), Err(AllocationError::LayoutError));
    assert_eq!(allocate(&mut heap, usize::MAX - 31), Err(AllocationError::LayoutError));
    assert!(heap.calls().is_empty());
}

#[test]
fn allocate_out_of_memory() {
    let mut heap = Heap::new(64);
    assert_eq!(allocate(&mut heap, 100), Err(AllocationError::OutOfMemory));
    assert_eq!(
        heap.calls().to_vec(),
        vec![BackingCall::Request { size: 128, align: HEADER_SIZE, addr: 0 }]
    );
    assert_eq!(heap.used(), HEADER_SIZE);
    assert_eq!(allocate(&mut heap, 32), Ok(32));
}

#[test]
fn resize_keeps_prefix() {
    let mut heap = Heap::new(1 << 16);
    let p = allocate(&mut heap, 100).unwrap();
    let pattern: Vec<u8> = (0..100u32).map(|i| (i * 7 + 3) as u8).collect();
    assert!(heap.write_bytes(p, &pattern));
    let q = relloc(&mut heap, p, 50).unwrap();
    assert_ne!(q, p);
    assert_eq!(heap.read_bytes(q, 50).unwrap(), pattern[..50].to_vec());
    assert_eq!(free(&mut heap, p), Err(DeallocationError::DoubleFree));
    let r = relloc(&mut heap, q, 200).unwrap();
    assert_eq!(heap.read_bytes(r, 50).unwrap(), pattern[..50].to_vec());
    assert_eq!(free(&mut heap, r), Ok(()));
}

#[test]
fn resize_to_zero_frees() {
    let mut heap = Heap::new(4096);
    let p = allocate(&mut heap, 40).unwrap();
    assert_eq!(relloc(&mut heap, p, 0), Ok(0));
    assert_eq!(releases(&heap), 1);
    assert_eq!(free(&mut heap, p), Err(DeallocationError::DoubleFree));
    assert_eq!(
        relloc(&mut heap, p, 0),
        Err(ReallocationError::DeallocationError(DeallocationError::DoubleFree))
    );
    let calls = heap.calls().len();
    assert_eq!(relloc(&mut heap, 0, 0), Ok(0));
    assert_eq!(heap.calls().len(), calls);
}

#[test]
fn resize_null_allocates() {
    let mut a = Heap::new(4096);
    let mut b = Heap::new(4096);
    assert_eq!(relloc(&mut a, 0, 70), allocate(&mut b, 70).map_err(ReallocationError::AllocationError));
    assert_eq!(a.calls().to_vec(), b.calls().to_vec());
    assert_eq!(a.read_bytes(0, a.used()), b.read_bytes(0, b.used()));
    assert_eq!(
        relloc(&mut a, 0, 8000),
        Err(ReallocationError::AllocationError(AllocationError::OutOfMemory))
    );
}

#[test]
fn header_after_allocate_16() {
    let mut heap = Heap::new(4096);
    let p = allocate(&mut heap, 16).unwrap();
    assert_eq!(p % HEADER_SIZE, 0);
    let bytes = heap.read_bytes(p - HEADER_SIZE, HEADER_SIZE).unwrap();
    let header = Header::from_bytes(&bytes);
    assert_eq!(header.marker, MARKER_USED);
    assert!(header.is_used());
    assert_eq!(header.size, 32);
    assert_eq!(&bytes[..8], b"U53dMmry");
    assert_eq!(bytes[8..].to_vec(), 32u64.to_le_bytes().to_vec());
}

#[test]
fn header_marked_free_after_free() {
    let mut heap = Heap::new(4096);
    let p = allocate(&mut heap, 5).unwrap();
    free(&mut heap, p).unwrap();
    let bytes = heap.read_bytes(p - HEADER_SIZE, HEADER_SIZE).unwrap();
    let header = Header::from_bytes(&bytes);
    assert_eq!(header.marker, MARKER_FREE);
    assert!(header.is_free());
    assert!(!header.is_used());
    assert_eq!(header.size, 32);
}

#[test]
fn header_round_trip() {
    let h = Header::new(MARKER_FREE, 0x0102_0304_0506_0708);
    let bytes = h.to_bytes();
    assert_eq!(bytes.len(), HEADER_SIZE);
    assert_eq!(&bytes[..8], b"Fr33Mmry");
    assert_eq!(bytes[8..].to_vec(), vec![8, 7, 6, 5, 4, 3, 2, 1]);
    assert_eq!(Header::from_bytes(&bytes), h);
    let other = Header::new(*b"whatever", 16);
    assert!(!other.is_used());
    assert!(!other.is_free());
}

#[test]
fn free_forged_header_with_bad_size() {
    let mut heap = Heap::new(4096);
    let p = allocate(&mut heap, 64).unwrap();
    let forged = Header::new(MARKER_USED, usize::MAX).to_bytes();
    assert!(heap.write_bytes(p + 16, &forged));
    assert_eq!(free(&mut heap, p + 32), Err(DeallocationError::LayoutError));
    assert_eq!(releases(&heap), 0);
    let bytes = heap.read_bytes(p + 16, HEADER_SIZE).unwrap();
    assert_eq!(bytes, forged);
}

#[test]
fn resize_forged_header_releases_new_block() {
    let mut heap = Heap::new(4096);
    let p = allocate(&mut heap, 64).unwrap();
    let forged = Header::new(MARKER_USED, usize::MAX).to_bytes();
    assert!(heap.write_bytes(p + 16, &forged));
    let next = heap.used() + HEADER_SIZE;
    assert_eq!(
        relloc(&mut heap, p + 32, 10),
        Err(ReallocationError::DeallocationError(DeallocationError::LayoutError))
    );
    assert_eq!(releases(&heap), 1);
    assert_eq!(free(&mut heap, next), Err(DeallocationError::DoubleFree));
}

#[test]
fn resize_refuses_bad_pointers() {
    let mut heap = Heap::new(4096);
    let p = allocate(&mut heap, 64).unwrap();
    assert_eq!(relloc(&mut heap, p + 8, 10), Err(ReallocationError::ImproperAlignment));
    assert_eq!(relloc(&mut heap, p + 32, 10), Err(ReallocationError::InvalidPointer));
    assert_eq!(relloc(&mut heap, 1 << 30, 10), Err(ReallocationError::InvalidPointer));
    free(&mut heap, p).unwrap();
    let calls = heap.calls().len();
    assert_eq!(relloc(&mut heap, p, 10), Err(ReallocationError::UseAfterFree));
    assert_eq!(heap.calls().len(), calls);
}

#[test]
fn resize_failing_allocation_keeps_old_block() {
    let mut heap = Heap::new(256);
    let p = allocate(&mut heap, 16).unwrap();
    assert!(heap.write_bytes(p, &[9; 16]));
    assert_eq!(
        relloc(&mut heap, p, 1000),
        Err(ReallocationError::AllocationError(AllocationError::OutOfMemory))
    );
    assert_eq!(heap.read_bytes(p, 16).unwrap(), vec![9; 16]);
    assert_eq!(free(&mut heap, p), Ok(()));
}

#[test]
fn resize_grows_with_padding_copied() {
    let mut heap = Heap::new(4096);
    let p = allocate(&mut heap, 20).unwrap();
    let data: Vec<u8> = (1..=28u8).collect();
    assert!(heap.write_bytes(p, &data));
    let q = relloc(&mut heap, p, 100).unwrap();
    assert_eq!(heap.read_bytes(q, 28).unwrap(), data);
    assert_eq!(heap.read_bytes(q + 28, 72).unwrap(), vec![0; 72]);
}

#[test]
fn heap_capacity_and_access() {
    assert_eq!(Heap::new(100).capacity(), 96);
    assert_eq!(Heap::new(0).capacity(), HEADER_SIZE);
    assert_eq!(Heap::new(usize::MAX).capacity(), isize::MAX as usize - 15);
    let mut heap = Heap::new(4096);
    assert_eq!(heap.used(), HEADER_SIZE);
    assert_eq!(heap.read_bytes(0, HEADER_SIZE), Some(vec![0; HEADER_SIZE]));
    assert_eq!(heap.read_bytes(1, HEADER_SIZE), None);
    assert_eq!(heap.read_bytes(usize::MAX, 2), None);
    assert!(!heap.write_bytes(10, &[1; 7]));
    assert!(heap.write_bytes(10, &[1; 6]));
    assert_eq!(heap.read_bytes(8, 4), Some(vec![0, 0, 1, 1]));
    assert!(heap.calls().is_empty());
}
