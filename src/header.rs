//! The header that precedes every payload, and its byte encoding.
use vstd::bytes::{lemma_auto_spec_u64_to_from_le_bytes, spec_u64_from_le_bytes, spec_u64_to_le_bytes, u64_from_le_bytes, u64_to_le_bytes};
use vstd::prelude::*;
use vstd::slice::slice_subrange;

verus! {

/// Size of a header in bytes; also the alignment of every block and payload.
pub const HEADER_SIZE: usize = 16;

/// Marker of a block that has been released ("Fr33Mmry").
pub const MARKER_FREE: [u8; 8] = [70, 114, 51, 51, 77, 109, 114, 121];

/// Marker of a live block ("U53dMmry").
pub const MARKER_USED: [u8; 8] = [85, 53, 51, 100, 77, 109, 114, 121];

/// `n` rounded up to the next multiple of `HEADER_SIZE`.
pub open spec fn round_up(n: int) -> int {
    if n % (HEADER_SIZE as int) == 0 {
        n
    } else {
        n - n % (HEADER_SIZE as int) + HEADER_SIZE
    }
}

/// The bytes of `MARKER_USED`.
pub open spec fn used_marker() -> Seq<u8> {
    seq![85u8, 53u8, 51u8, 100u8, 77u8, 109u8, 114u8, 121u8]
}

/// The bytes of `MARKER_FREE`.
pub open spec fn free_marker() -> Seq<u8> {
    seq![70u8, 114u8, 51u8, 51u8, 77u8, 109u8, 114u8, 121u8]
}

/// The marker constants hold the bytes that the specifications speak of,
/// and the two markers differ.
pub proof fn lemma_markers()
    ensures
        MARKER_USED@ == used_marker(),
        MARKER_FREE@ == free_marker(),
        used_marker() != free_marker(),
{
    assert(MARKER_USED@ =~= used_marker());
    assert(MARKER_FREE@ =~= free_marker());
    assert(used_marker()[0] != free_marker()[0]);
}

/// Decoding an encoded header gives back its marker and size.
pub proof fn lemma_encode_decode(m: Seq<u8>, size: usize)
    requires
        m.len() == 8,
    ensures
        encode(m, size).len() == HEADER_SIZE,
        marker_of(encode(m, size)) == m,
        size_of_bytes(encode(m, size)) == size,
{
    lemma_auto_spec_u64_to_from_le_bytes();
    assert(marker_of(encode(m, size)) =~= m);
    assert(encode(m, size).subrange(8, 16) =~= spec_u64_to_le_bytes(size as u64));
}

/// The metadata stored immediately before a payload.
#[derive(Clone, Copy, Debug, PartialEq, Eq)]
pub struct Header {
    pub marker: [u8; 8],
    pub size: usize,
}

/// The sixteen bytes that encode a header: the marker, then the size in
/// little-endian order.
pub open spec fn encode(marker: Seq<u8>, size: usize) -> Seq<u8> {
    marker + spec_u64_to_le_bytes(size as u64)
}

/// The marker held by the first eight bytes of `b`.
pub open spec fn marker_of(b: Seq<u8>) -> Seq<u8> {
    b.subrange(0, 8)
}

/// The size held by bytes eight to sixteen of `b`.
pub open spec fn size_of_bytes(b: Seq<u8>) -> usize {
    spec_u64_from_le_bytes(b.subrange(8, 16)) as usize
}

impl Header {
    /// A header with the given marker and size.
    pub fn new(marker: [u8; 8], size: usize) -> (r: Header)
        ensures
            r.marker == marker,
            r.size == size,
    {
        Header { marker, size }
    }

    /// The header's sixteen bytes.
    pub fn to_bytes(&self) -> (r: Vec<u8>)
        ensures
            r@ == encode(self.marker@, self.size),
            r@.len() == HEADER_SIZE,
    {
        let mut r: Vec<u8> = Vec::new();
        let mut i: usize = 0;
        while i < 8
            invariant
                0 <= i <= 8,
                r@ == self.marker@.subrange(0, i as int),
            decreases 8 - i,
        {
            r.push(self.marker[i]);
            i = i + 1;
        }
        let size_bytes = u64_to_le_bytes(self.size as u64);
        let mut j: usize = 0;
        while j < 8
            invariant
                0 <= j <= 8,
                size_bytes@ == spec_u64_to_le_bytes(self.size as u64),
                size_bytes@.len() == 8,
                r@ == self.marker@ + size_bytes@.subrange(0, j as int),
            decreases 8 - j,
        {
            r.push(size_bytes[j]);
            j = j + 1;
        }
        assert(size_bytes@.subrange(0, 8) == size_bytes@);
        r
    }

    /// Decodes a header from its sixteen bytes.
    pub fn from_bytes(b: &[u8]) -> (r: Header)
        requires
            b@.len() == HEADER_SIZE,
        ensures
            r.marker@ == marker_of(b@),
            r.size == size_of_bytes(b@),
    {
        let marker: [u8; 8] = [b[0], b[1], b[2], b[3], b[4], b[5], b[6], b[7]];
        let size_bytes = slice_subrange(b, 8, 16);
        let size = u64_from_le_bytes(size_bytes) as usize;
        assert(marker@ =~= marker_of(b@));
        Header { marker, size }
    }

    /// Whether the marker is `MARKER_USED`.
    pub fn is_used(&self) -> (r: bool)
        ensures
            r == (self.marker@ == used_marker()),
    {
        same_marker(&self.marker, &MARKER_USED)
    }

    /// Whether the marker is `MARKER_FREE`.
    pub fn is_free(&self) -> (r: bool)
        ensures
            r == (self.marker@ == free_marker()),
    {
        same_marker(&self.marker, &MARKER_FREE)
    }
}

fn same_marker(a: &[u8; 8], b: &[u8; 8]) -> (r: bool)
    ensures
        r == (a@ == b@),
{
    let mut i: usize = 0;
    while i < 8
        invariant
            0 <= i <= 8,
            forall|k: int| 0 <= k < i ==> a@[k] == b@[k],
        decreases 8 - i,
    {
        if a[i] != b[i] {
            return false;
        }
        i = i + 1;
    }
    assert(a@ =~= b@);
    true
}

} // verus!
