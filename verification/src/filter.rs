//! Address-filter bitmaps: fixed-size bit arrays indexed by a hash of a
//! return address. Bits are only ever set, never cleared, for the life of
//! the process — a monotonic, collision-tolerant memo.

use vstd::arithmetic::div_mod::lemma_fundamental_div_mod;
use vstd::prelude::*;

verus! {

/// Number of bytes in one filter bitmap.
pub const FILTER_BYTES: usize = 0x100000;

/// Number of bit slots in one filter bitmap: a hashed address is reduced
/// modulo this value. Two distinct addresses may share a slot; a collision
/// only costs attribution precision, never correctness of the counters.
pub const FILTER_SLOTS: u64 = 0x800000;

/// A fixed-size bit array over the hashed address space. The tracker keeps
/// two: the skip list ("do not resolve this slot again, uninteresting") and
/// the checked list ("a representative of this slot was already attributed").
pub struct FilterBitmap {
    bits: Vec<u8>,
}

/// The byte of the bitmap that holds the given slot's bit.
proof fn lemma_slot_byte_bound(slot: u64)
    requires
        slot < FILTER_SLOTS,
    ensures
        slot / 8 < FILTER_BYTES as u64,
        slot % 8 < 8,
{
    assert(slot / 8 < 0x100000 && slot % 8 < 8) by (nonlinear_arith)
        requires
            slot < 0x800000,
    ;
}

impl FilterBitmap {
    /// The bitmap holds exactly its fixed number of bytes.
    pub closed spec fn wf(self) -> bool {
        self.bits@.len() == FILTER_BYTES
    }

    /// Whether the bit of the given slot is set.
    pub closed spec fn bit_is_set(self, slot: nat) -> bool {
        slot < FILTER_SLOTS && (self.bits@[slot as int / 8] >> ((slot % 8) as u8)) & 1u8 == 1u8
    }

    /// The bitmap as the set of slots whose bit is set.
    pub open spec fn as_set(self) -> Set<nat> {
        Set::new(|slot: nat| self.bit_is_set(slot))
    }

    /// A bitmap with every bit clear.
    pub fn new() -> (r: FilterBitmap)
        ensures
            r.wf(),
            r.as_set() =~= Set::<nat>::empty(),
    {
        let mut bits: Vec<u8> = Vec::new();
        let mut i: usize = 0;
        while i < FILTER_BYTES
            invariant
                i == bits@.len(),
                i <= FILTER_BYTES,
                forall|j: int| 0 <= j < i ==> bits@[j] == 0u8,
            decreases FILTER_BYTES - i,
        {
            bits.push(0u8);
            i += 1;
        }
        let r = FilterBitmap { bits };
        proof {
            assert forall|slot: nat| !r.bit_is_set(slot) by {
                if slot < FILTER_SLOTS {
                    lemma_slot_byte_bound(slot as u64);
                    let k = (slot % 8) as u8;
                    assert((0u8 >> k) & 1u8 == 0u8) by (bit_vector);
                }
            }
        }
        r
    }

    /// Whether the given slot's bit is set.
    pub fn is_set(&self, slot: u64) -> (r: bool)
        requires
            self.wf(),
            slot < FILTER_SLOTS,
        ensures
            r == self.bit_is_set(slot as nat),
    {
        proof {
            lemma_slot_byte_bound(slot);
        }
        let byte = self.bits[(slot / 8) as usize];
        (byte >> ((slot % 8) as u8)) & 1u8 == 1u8
    }

    /// Sets the given slot's bit. Every bit that was set stays set: the
    /// bitmap only ever grows.
    pub fn set(&mut self, slot: u64)
        requires
            old(self).wf(),
            slot < FILTER_SLOTS,
        ensures
            final(self).wf(),
            final(self).bit_is_set(slot as nat),
            forall|o: nat| old(self).bit_is_set(o) ==> final(self).bit_is_set(o),
            forall|o: nat|
                o != slot as nat ==> final(self).bit_is_set(o) == old(self).bit_is_set(o),
            final(self).as_set() =~= old(self).as_set().insert(slot as nat),
    {
        proof {
            lemma_slot_byte_bound(slot);
        }
        let idx = (slot / 8) as usize;
        let k = (slot % 8) as u8;
        let b = self.bits[idx];
        let nb = b | (1u8 << k);
        self.bits[idx] = nb;
        proof {
            assert(((b | (1u8 << k)) >> k) & 1u8 == 1u8) by (bit_vector)
                requires
                    k < 8,
            ;
            assert(self.bit_is_set(slot as nat));
            assert forall|o: nat| o != slot as nat implies self.bit_is_set(o) == old(
                self,
            ).bit_is_set(o) by {
                if o < FILTER_SLOTS {
                    lemma_slot_byte_bound(o as u64);
                    let oi = o as int / 8;
                    let ok = (o % 8) as u8;
                    if oi == idx as int {
                        assert(ok != k) by {
                            lemma_fundamental_div_mod(o as int, 8);
                            lemma_fundamental_div_mod(slot as int, 8);
                        }
                        assert(((b | (1u8 << k)) >> ok) & 1u8 == (b >> ok) & 1u8) by (bit_vector)
                            requires
                                k < 8,
                                ok < 8,
                                ok != k,
                        ;
                    } else {
                        assert(self.bits@[oi] == old(self).bits@[oi]);
                    }
                }
            }
        }
    }
}

/// The set of slots that are set after a sequence of set operations.
pub open spec fn slots_after(s0: Set<nat>, slots: Seq<nat>) -> Set<nat>
    decreases slots.len(),
{
    if slots.len() == 0 {
        s0
    } else {
        slots_after(s0, slots.drop_last()).insert(slots.last())
    }
}

/// Filter-bitmap monotonicity: once a slot is set — directly or as part of
/// any later sequence of set operations — every subsequent lookup sees it
/// set. Bits are never cleared within a process run.
pub proof fn lemma_filter_monotone(s0: Set<nat>, slots: Seq<nat>, x: nat)
    requires
        s0.contains(x) || slots.contains(x),
    ensures
        slots_after(s0, slots).contains(x),
    decreases slots.len(),
{
    if slots.len() > 0 {
        if slots.last() != x {
            if slots.contains(x) && !s0.contains(x) {
                let i = choose|i: int| 0 <= i < slots.len() && slots[i] == x;
                assert(slots.drop_last()[i] == x);
                assert(slots.drop_last().contains(x));
            }
            lemma_filter_monotone(s0, slots.drop_last(), x);
        }
    }
}

} // verus!
