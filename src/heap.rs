//! A simulated address space together with the backing allocator that hands
//! out blocks of it. Addresses are indices into the address space; address 0
//! is null, and the first `HEADER_SIZE` bytes are never handed out.
use crate::header::{round_up, HEADER_SIZE};
use vstd::prelude::*;

verus! {

/// One call made to the backing allocator.
#[derive(Clone, Copy, Debug, PartialEq, Eq, Structural)]
pub enum BackingCall {
    /// A request for `size` bytes aligned to `align`; `addr` is the block's
    /// address, or 0 where the request could not be met.
    Request { size: usize, align: usize, addr: usize },
    /// The release of the block at `addr`, described by `size` and `align`.
    Release { addr: usize, size: usize, align: usize },
}

/// The abstract state of a `Heap`.
pub struct HeapView {
    /// The byte at each address of the address space in use.
    pub bytes: Seq<u8>,
    /// The size the address space may grow to.
    pub limit: nat,
    /// Every call made to the backing allocator, oldest first.
    pub calls: Seq<BackingCall>,
}

impl HeapView {
    /// The reserved first bytes are in place, the address space in use stays
    /// within its limit, and both are multiples of `HEADER_SIZE`.
    pub open spec fn wf(self) -> bool {
        &&& HEADER_SIZE <= self.bytes.len() <= self.limit <= isize::MAX
        &&& self.bytes.len() % (HEADER_SIZE as nat) == 0
        &&& self.limit % (HEADER_SIZE as nat) == 0
    }

    /// Whether `len` bytes starting at `addr` lie in the address space.
    pub open spec fn in_range(self, addr: int, len: int) -> bool {
        0 <= addr && 0 <= len && addr + len <= self.bytes.len()
    }

    /// The same state with one more backing call recorded.
    pub open spec fn record(self, c: BackingCall) -> HeapView {
        HeapView { bytes: self.bytes, limit: self.limit, calls: self.calls.push(c) }
    }

    /// The same state with the bytes replaced.
    pub open spec fn with_bytes(self, bytes: Seq<u8>) -> HeapView {
        HeapView { bytes, limit: self.limit, calls: self.calls }
    }
}

/// `b` with the bytes from `at` on replaced by `d`.
pub open spec fn overwrite(b: Seq<u8>, at: int, d: Seq<u8>) -> Seq<u8> {
    Seq::new(b.len(), |i: int| if at <= i < at + d.len() { d[i - at] } else { b[i] })
}

/// What a request to the backing allocator does: it hands out the next
/// `size` bytes (rounded up to a multiple of `HEADER_SIZE`, zero-filled) at
/// the end of the address space, or 0 where they do not fit.
pub open spec fn request_spec(h: HeapView, size: usize, align: usize) -> (HeapView, usize) {
    if size <= h.limit - h.bytes.len() {
        let addr = h.bytes.len() as usize;
        let grown = h.bytes + Seq::new(round_up(size as int) as nat, |i: int| 0u8);
        (
            h.with_bytes(grown).record(BackingCall::Request { size, align, addr }),
            addr,
        )
    } else {
        (h.record(BackingCall::Request { size, align, addr: 0 }), 0)
    }
}

/// What a release to the backing allocator does: it is recorded; the
/// released bytes keep their contents, and are never handed out again.
pub open spec fn release_spec(h: HeapView, addr: usize, size: usize, align: usize) -> HeapView {
    h.record(BackingCall::Release { addr, size, align })
}

/// An address space of bounded size and its backing allocator.
pub struct Heap {
    bytes: Vec<u8>,
    limit: usize,
    calls: Vec<BackingCall>,
}

impl View for Heap {
    type V = HeapView;

    closed spec fn view(&self) -> HeapView {
        HeapView { bytes: self.bytes@, limit: self.limit as nat, calls: self.calls@ }
    }
}

impl Heap {
    /// The abstract state is well formed.
    pub open spec fn wf(&self) -> bool {
        self@.wf()
    }

    /// An address space that may grow to `capacity` bytes (at most
    /// `isize::MAX`), rounded down to a multiple of `HEADER_SIZE` and at
    /// least `HEADER_SIZE`; only the reserved first `HEADER_SIZE` bytes are in
    /// use.
    pub fn new(capacity: usize) -> (r: Heap)
        ensures
            r.wf(),
            r@.bytes == Seq::new(HEADER_SIZE as nat, |i: int| 0u8),
            r@.limit == {
                let c = if capacity <= isize::MAX { capacity as int } else { isize::MAX as int };
                if c < HEADER_SIZE { HEADER_SIZE as int } else { c - c % (HEADER_SIZE as int) }
            },
            r@.calls == Seq::<BackingCall>::empty(),
    {
        let c: usize = if capacity <= isize::MAX as usize { capacity } else { isize::MAX as usize };
        let limit: usize = if c < HEADER_SIZE {
            HEADER_SIZE
        } else {
            c - c % HEADER_SIZE
        };
        let mut bytes: Vec<u8> = Vec::new();
        let mut i: usize = 0;
        while i < HEADER_SIZE
            invariant
                0 <= i <= HEADER_SIZE,
                bytes@ == Seq::new(i as nat, |k: int| 0u8),
            decreases HEADER_SIZE - i,
        {
            bytes.push(0);
            i = i + 1;
            assert(bytes@ =~= Seq::new(i as nat, |k: int| 0u8));
        }
        Heap { bytes, limit, calls: Vec::new() }
    }

    /// The size the address space may grow to.
    pub fn capacity(&self) -> (r: usize)
        ensures
            r == self@.limit,
    {
        self.limit
    }

    /// The number of bytes of the address space in use.
    pub fn used(&self) -> (r: usize)
        ensures
            r == self@.bytes.len(),
    {
        self.bytes.len()
    }

    /// Every call made to the backing allocator, oldest first.
    pub fn calls(&self) -> (r: &Vec<BackingCall>)
        ensures
            r@ == self@.calls,
    {
        &self.calls
    }

    /// The `len` bytes starting at `addr`, or `None` where they do not all
    /// lie in the address space.
    pub fn read_bytes(&self, addr: usize, len: usize) -> (r: Option<Vec<u8>>)
        ensures
            r.is_some() == self@.in_range(addr as int, len as int),
            r matches Some(v) ==> v@ == self@.bytes.subrange(addr as int, addr + len),
    {
        if len > self.bytes.len() || addr > self.bytes.len() - len {
            return None;
        }
        let total: usize = self.bytes.len();
        let mut v: Vec<u8> = Vec::new();
        let mut i: usize = 0;
        while i < len
            invariant
                0 <= i <= len,
                total == self@.bytes.len(),
                addr + len <= total,
                v@ == self@.bytes.subrange(addr as int, addr + i),
            decreases len - i,
        {
            v.push(self.bytes[addr + i]);
            i = i + 1;
            assert(v@ =~= self@.bytes.subrange(addr as int, addr + i));
        }
        Some(v)
    }

    /// Writes `data` at `addr`, where it lies wholly in the address space;
    /// returns whether it did.
    pub fn write_bytes(&mut self, addr: usize, data: &[u8]) -> (r: bool)
        ensures
            r == old(self)@.in_range(addr as int, data@.len() as int),
            final(self)@ == if r {
                old(self)@.with_bytes(overwrite(old(self)@.bytes, addr as int, data@))
            } else {
                old(self)@
            },
    {
        if data.len() > self.bytes.len() || addr > self.bytes.len() - data.len() {
            return false;
        }
        let total: usize = self.bytes.len();
        let mut i: usize = 0;
        while i < data.len()
            invariant
                0 <= i <= data@.len(),
                total == old(self)@.bytes.len(),
                addr + data@.len() <= total,
                self.limit == old(self).limit,
                self.calls@ == old(self).calls@,
                self.bytes@ == overwrite(old(self)@.bytes, addr as int, data@.subrange(0, i as int)),
            decreases data@.len() - i,
        {
            self.bytes.set(addr + i, data[i]);
            i = i + 1;
            assert(self.bytes@ =~= overwrite(old(self)@.bytes, addr as int, data@.subrange(0, i as int)));
        }
        assert(data@.subrange(0, data@.len() as int) =~= data@);
        assert(self@ == old(self)@.with_bytes(overwrite(old(self)@.bytes, addr as int, data@)));
        true
    }

    /// Copies the `n` bytes at `src` to `dst`, which lies after them.
    pub(crate) fn copy_forward(&mut self, src: usize, dst: usize, n: usize)
        requires
            src + n <= dst,
            dst + n <= old(self)@.bytes.len(),
        ensures
            final(self)@ == old(self)@.with_bytes(
                overwrite(old(self)@.bytes, dst as int, old(self)@.bytes.subrange(src as int, src + n)),
            ),
    {
        let total: usize = self.bytes.len();
        let mut i: usize = 0;
        while i < n
            invariant
                0 <= i <= n,
                src + n <= dst,
                total == old(self)@.bytes.len(),
                dst + n <= total,
                self.limit == old(self).limit,
                self.calls@ == old(self).calls@,
                self.bytes@ == overwrite(
                    old(self)@.bytes,
                    dst as int,
                    old(self)@.bytes.subrange(src as int, src + i),
                ),
            decreases n - i,
        {
            let b = self.bytes[src + i];
            self.bytes.set(dst + i, b);
            i = i + 1;
            assert(self.bytes@ =~= overwrite(
                old(self)@.bytes,
                dst as int,
                old(self)@.bytes.subrange(src as int, src + i),
            ));
        }
        assert(self@ =~= old(self)@.with_bytes(
            overwrite(old(self)@.bytes, dst as int, old(self)@.bytes.subrange(src as int, src + n)),
        ));
    }

    /// Asks the backing allocator for a block of `size` bytes aligned to
    /// `align`; returns its address, or 0.
    pub(crate) fn request(&mut self, size: usize, align: usize) -> (addr: usize)
        requires
            old(self).wf(),
            size > 0,
            align > 0,
            HEADER_SIZE % align == 0,
        ensures
            final(self).wf(),
            (final(self)@, addr) == request_spec(old(self)@, size, align),
    {
        if size > self.limit - self.bytes.len() {
            self.calls.push(BackingCall::Request { size, align, addr: 0 });
            return 0;
        }
        let addr = self.bytes.len();
        let padded: usize = if size % HEADER_SIZE == 0 {
            size
        } else {
            size - size % HEADER_SIZE + HEADER_SIZE
        };
        let mut i: usize = 0;
        while i < padded
            invariant
                0 <= i <= padded,
                padded == round_up(size as int),
                addr == old(self)@.bytes.len(),
                addr + padded <= self.limit,
                self.limit == old(self).limit,
                self.calls@ == old(self).calls@,
                self.bytes@ == old(self)@.bytes + Seq::new(i as nat, |k: int| 0u8),
            decreases padded - i,
        {
            self.bytes.push(0);
            i = i + 1;
            assert(self.bytes@ =~= old(self)@.bytes + Seq::new(i as nat, |k: int| 0u8));
        }
        self.calls.push(BackingCall::Request { size, align, addr });
        addr
    }

    /// Hands the block at `addr`, described by `size` and `align`, back to
    /// the backing allocator.
    pub(crate) fn release(&mut self, addr: usize, size: usize, align: usize)
        ensures
            final(self)@ == release_spec(old(self)@, addr, size, align),
    {
        self.calls.push(BackingCall::Release { addr, size, align });
    }
}

} // verus!
