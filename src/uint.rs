//! Unsigned integers of any width up to 128 bits.
use vstd::prelude::*;
use crate::bit_size::BitSize;
use crate::window::{fits, low_mask, mask};

verus! {

/// An unsigned integer of `BITS` bits, held in a `u128`.
#[derive(Clone, Copy, Debug)]
pub struct UInt<const BITS: u32> {
    pub value: u128,
}

impl<const BITS: u32> UInt<BITS> {
    /// The number held.
    pub open spec fn view_value(self) -> u128 {
        self.value
    }

    /// The number fits in `BITS` bits, and `BITS` is at most 128.
    pub open spec fn wf(self) -> bool {
        BITS <= 128 && fits(self.value, BITS)
    }

    /// The integer holding `value`.
    pub fn new(value: u128) -> (r: Self)
        requires
            BITS <= 128,
            value <= mask(BITS),
        ensures
            r.wf(),
            r.view_value() == value,
    {
        proof {
            lemma_le_mask_fits(value, BITS);
        }
        UInt { value }
    }

    /// The integer holding the low `BITS` bits of `value`.
    pub fn truncating(value: u128) -> (r: Self)
        requires
            BITS <= 128,
        ensures
            r.wf(),
            r.view_value() == value & mask(BITS),
    {
        let m = low_mask(BITS);
        proof {
            let v = value & m;
            assert(v & m == v) by (bit_vector)
                requires
                    v == value & m,
            ;
        }
        UInt { value: value & m }
    }

    /// The number held.
    pub fn value(&self) -> (r: u128)
        ensures
            r == self.view_value(),
    {
        self.value
    }
}

/// A number no larger than the mask of `w` bits fits in `w` bits.
pub proof fn lemma_le_mask_fits(v: u128, w: u32)
    requires
        w <= 128,
        v <= mask(w),
    ensures
        fits(v, w),
{
    assert(v <= mask(w) ==> fits(v, w)) by (bit_vector)
        requires
            w <= 128,
    ;
}

impl<const BITS: u32> BitSize for UInt<BITS> {
    open spec fn width() -> nat {
        BITS as nat
    }

    open spec fn valid(self) -> bool {
        self.wf()
    }

    open spec fn decode(p: u128) -> Self {
        UInt { value: p & mask(BITS) }
    }

    open spec fn merge(self, p: u128) -> u128 {
        self.value
    }

    proof fn lemma_merge(v: Self, p: u128) {
    }

    proof fn lemma_decode_valid(p: u128) {
        let m = mask(BITS);
        assert((p & m) & m == p & m) by (bit_vector);
    }

    fn bits() -> (r: u32) {
        BITS
    }

    fn unpack(p: u128) -> (r: Self) {
        UInt { value: p & low_mask(BITS) }
    }

    fn repack(&self, p: u128) -> (r: u128) {
        self.value
    }
}

} // verus!
