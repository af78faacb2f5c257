//! Allocation header codec: the fixed-size metadata record written
//! immediately before every tracked allocation's payload. It carries a magic
//! tag telling a live record from a freed one, the requested payload size,
//! the owning thread's id, and the attributed call-site address (zero when
//! unresolved).

use vstd::bytes::{
    lemma_auto_spec_u64_to_from_le_bytes, spec_u64_from_le_bytes, spec_u64_to_le_bytes,
    u64_from_le_bytes, u64_to_le_bytes,
};
use vstd::prelude::*;
use vstd::slice::slice_subrange;

verus! {

/// Number of bytes reserved in front of every allocation for the header.
pub const HEADER_SIZE: usize = 32;

/// Magic tag of a live allocation's header.
pub const MAGIC_LIVE: u64 = 0x12345678991124;

/// Magic tag written into the header when the allocation is released;
/// distinct from the live tag so that a double free or a use after free is
/// detectable by an external corruption checker.
pub const MAGIC_FREED: u64 = 0x12345678991124 + 0x10;

/// The metadata record stored at a fixed offset in front of every tracked
/// allocation. Exclusively owned by the allocator subsystem: it is written
/// once at allocation and invalidated once at deallocation.
#[derive(Clone, Copy, Debug, PartialEq, Eq, Structural)]
pub struct AllocationHeader {
    /// Tells a live record from a freed one.
    pub magic: u64,
    /// The payload size the caller requested.
    pub size: u64,
    /// The id of the thread that made the allocation.
    pub tid: u64,
    /// The attributed call-site address, or zero when unresolved.
    pub addr: u64,
}

/// The size to request from the backing allocator for a payload of `size`
/// bytes: the payload plus the header region. None exactly when that sum
/// does not fit the machine word — such a request cannot be served.
pub fn padded_request_size(size: usize) -> (r: Option<usize>)
    ensures
        size + HEADER_SIZE <= usize::MAX <==> r == Some((size + HEADER_SIZE) as usize),
        size + HEADER_SIZE > usize::MAX <==> r is None,
{
    size.checked_add(HEADER_SIZE)
}

impl AllocationHeader {
    /// The header's on-memory form: its four fields, little endian, in
    /// order, eight bytes each.
    pub open spec fn spec_bytes(self) -> Seq<u8> {
        spec_u64_to_le_bytes(self.magic) + spec_u64_to_le_bytes(self.size) + spec_u64_to_le_bytes(
            self.tid,
        ) + spec_u64_to_le_bytes(self.addr)
    }

    /// The header a fresh allocation gets.
    pub fn new_live(size: u64, tid: u64, addr: u64) -> (h: AllocationHeader)
        ensures
            h == (AllocationHeader { magic: MAGIC_LIVE, size, tid, addr }),
    {
        AllocationHeader { magic: MAGIC_LIVE, size, tid, addr }
    }

    /// Whether the record still describes a live allocation.
    pub fn is_live(&self) -> (r: bool)
        ensures
            r == (self.magic == MAGIC_LIVE),
    {
        self.magic == MAGIC_LIVE
    }

    /// Invalidates the record at deallocation: only the magic tag changes,
    /// to the freed value.
    pub fn mark_freed(&mut self)
        ensures
            *final(self) == (AllocationHeader { magic: MAGIC_FREED, ..*old(self) }),
    {
        self.magic = MAGIC_FREED;
    }

    /// Packs the record into the fixed-size byte form written in front of
    /// the payload.
    pub fn encode(&self) -> (out: Vec<u8>)
        ensures
            out@ == self.spec_bytes(),
            out@.len() == HEADER_SIZE,
    {
        proof {
            lemma_auto_spec_u64_to_from_le_bytes();
        }
        let mut out = u64_to_le_bytes(self.magic);
        let mut rest = u64_to_le_bytes(self.size);
        out.append(&mut rest);
        let mut rest = u64_to_le_bytes(self.tid);
        out.append(&mut rest);
        let mut rest = u64_to_le_bytes(self.addr);
        out.append(&mut rest);
        out
    }

    /// Unpacks a record from the fixed-size byte form.
    pub fn decode(bytes: &[u8]) -> (h: AllocationHeader)
        requires
            bytes@.len() == HEADER_SIZE,
        ensures
            h.magic == spec_u64_from_le_bytes(bytes@.subrange(0, 8)),
            h.size == spec_u64_from_le_bytes(bytes@.subrange(8, 16)),
            h.tid == spec_u64_from_le_bytes(bytes@.subrange(16, 24)),
            h.addr == spec_u64_from_le_bytes(bytes@.subrange(24, 32)),
    {
        let magic = u64_from_le_bytes(slice_subrange(bytes, 0, 8));
        let size = u64_from_le_bytes(slice_subrange(bytes, 8, 16));
        let tid = u64_from_le_bytes(slice_subrange(bytes, 16, 24));
        let addr = u64_from_le_bytes(slice_subrange(bytes, 24, 32));
        AllocationHeader { magic, size, tid, addr }
    }
}

/// Encoding then decoding a header yields the header back: the byte form
/// loses nothing.
pub proof fn lemma_header_roundtrip(h: AllocationHeader)
    ensures
        h.spec_bytes().len() == HEADER_SIZE,
        spec_u64_from_le_bytes(h.spec_bytes().subrange(0, 8)) == h.magic,
        spec_u64_from_le_bytes(h.spec_bytes().subrange(8, 16)) == h.size,
        spec_u64_from_le_bytes(h.spec_bytes().subrange(16, 24)) == h.tid,
        spec_u64_from_le_bytes(h.spec_bytes().subrange(24, 32)) == h.addr,
{
    lemma_auto_spec_u64_to_from_le_bytes();
    assert(h.spec_bytes().subrange(0, 8) =~= spec_u64_to_le_bytes(h.magic));
    assert(h.spec_bytes().subrange(8, 16) =~= spec_u64_to_le_bytes(h.size));
    assert(h.spec_bytes().subrange(16, 24) =~= spec_u64_to_le_bytes(h.tid));
    assert(h.spec_bytes().subrange(24, 32) =~= spec_u64_to_le_bytes(h.addr));
}

} // verus!
