//! The packing contract: how a logical value maps to a bit pattern of a fixed
//! width, and how that pattern is placed in a storage integer.
use vstd::prelude::*;
use crate::window::{agrees_outside, extract, fits, insert, mask, replace, window};

verus! {

/// A type with a fixed bit width whose values are packed as bit patterns.
///
/// `merge(v, p)` is the pattern obtained by writing `v` over the old pattern
/// `p` of the same window. For most types it does not depend on `p`; an
/// absent optional value keeps the payload bits of `p`.
pub trait BitSize: Sized {
    /// The number of bits a value occupies.
    spec fn width() -> nat;

    /// The values that can be packed.
    spec fn valid(self) -> bool;

    /// The value that a pattern of `width()` bits denotes.
    spec fn decode(p: u128) -> Self;

    /// The pattern that results from writing `self` over the pattern `p`.
    spec fn merge(self, p: u128) -> u128;

    /// Writing a valid value and reading it back gives the value, and the
    /// pattern stays within the width.
    proof fn lemma_merge(v: Self, p: u128)
        requires
            Self::width() <= 128,
            v.valid(),
            fits(p, Self::width() as u32),
        ensures
            fits(v.merge(p), Self::width() as u32),
            Self::decode(v.merge(p)) == v,
    ;

    /// Every pattern denotes a valid value.
    proof fn lemma_decode_valid(p: u128)
        requires
            Self::width() <= 128,
            fits(p, Self::width() as u32),
        ensures
            Self::decode(p).valid(),
    ;

    /// The width, as a number.
    fn bits() -> (r: u32)
        requires
            Self::width() <= 128,
        ensures
            r == Self::width(),
    ;

    /// Reads the value that a pattern denotes.
    fn unpack(p: u128) -> (r: Self)
        requires
            Self::width() <= 128,
            fits(p, Self::width() as u32),
        ensures
            r == Self::decode(p),
    ;

    /// Writes the value over the pattern `p`.
    fn repack(&self, p: u128) -> (r: u128)
        requires
            Self::width() <= 128,
            self.valid(),
            fits(p, Self::width() as u32),
        ensures
            r == self.merge(p),
    ;
}

/// Round trip with frame preservation: writing a value at `offset` and
/// reading it back at `offset` gives the value, and every bit of the result
/// outside `[offset, offset + BITS)` is the bit of the prior storage.
pub proof fn lemma_round_trip<T: BitSize>(value: T, raw: u128, offset: u32)
    requires
        offset + T::width() <= 128,
        value.valid(),
    ensures
        ({
            let w = T::width() as u32;
            let packed = replace(raw, offset, w, value.merge(window(raw, offset, w)));
            &&& T::decode(window(packed, offset, w)) == value
            &&& agrees_outside(packed, raw, offset, w)
        }),
{
    let w = T::width() as u32;
    crate::window::lemma_window_fits(raw, offset, w);
    T::lemma_merge(value, window(raw, offset, w));
    crate::window::lemma_insert(raw, offset, w, value.merge(window(raw, offset, w)));
}

/// Reads the value stored at bit `offset` of `data`.
pub fn from_offset<T: BitSize>(data: u128, offset: u32) -> (r: T)
    requires
        offset + T::width() <= 128,
    ensures
        r == T::decode(window(data, offset, T::width() as u32)),
{
    let w = T::bits();
    let p = extract(data, offset, w);
    T::unpack(p)
}

/// Writes `value` at bit `offset` of `data`. The value reads back from the
/// result, and every bit outside its window keeps its value.
pub fn with_offset<T: BitSize>(value: &T, data: u128, offset: u32) -> (r: u128)
    requires
        offset + T::width() <= 128,
        value.valid(),
    ensures
        r == replace(data, offset, T::width() as u32, value.merge(window(data, offset, T::width() as u32))),
        T::decode(window(r, offset, T::width() as u32)) == *value,
        agrees_outside(r, data, offset, T::width() as u32),
{
    let w = T::bits();
    let prior = extract(data, offset, w);
    let p = value.repack(prior);
    proof {
        T::lemma_merge(*value, prior);
    }
    insert(data, offset, w, p)
}

impl BitSize for u8 {
    open spec fn width() -> nat {
        8
    }

    open spec fn valid(self) -> bool {
        true
    }

    open spec fn decode(p: u128) -> Self {
        p as u8
    }

    open spec fn merge(self, p: u128) -> u128 {
        self as u128
    }

    proof fn lemma_merge(v: Self, p: u128) {
        assert((v as u128) & mask(8) == v as u128) by (bit_vector);
    }

    proof fn lemma_decode_valid(p: u128) {
    }

    fn bits() -> (r: u32) {
        8
    }

    fn unpack(p: u128) -> (r: Self) {
        p as u8
    }

    fn repack(&self, p: u128) -> (r: u128) {
        *self as u128
    }
}

impl BitSize for u16 {
    open spec fn width() -> nat {
        16
    }

    open spec fn valid(self) -> bool {
        true
    }

    open spec fn decode(p: u128) -> Self {
        p as u16
    }

    open spec fn merge(self, p: u128) -> u128 {
        self as u128
    }

    proof fn lemma_merge(v: Self, p: u128) {
        assert((v as u128) & mask(16) == v as u128) by (bit_vector);
    }

    proof fn lemma_decode_valid(p: u128) {
    }

    fn bits() -> (r: u32) {
        16
    }

    fn unpack(p: u128) -> (r: Self) {
        p as u16
    }

    fn repack(&self, p: u128) -> (r: u128) {
        *self as u128
    }
}

impl BitSize for u32 {
    open spec fn width() -> nat {
        32
    }

    open spec fn valid(self) -> bool {
        true
    }

    open spec fn decode(p: u128) -> Self {
        p as u32
    }

    open spec fn merge(self, p: u128) -> u128 {
        self as u128
    }

    proof fn lemma_merge(v: Self, p: u128) {
        assert((v as u128) & mask(32) == v as u128) by (bit_vector);
    }

    proof fn lemma_decode_valid(p: u128) {
    }

    fn bits() -> (r: u32) {
        32
    }

    fn unpack(p: u128) -> (r: Self) {
        p as u32
    }

    fn repack(&self, p: u128) -> (r: u128) {
        *self as u128
    }
}

impl BitSize for u64 {
    open spec fn width() -> nat {
        64
    }

    open spec fn valid(self) -> bool {
        true
    }

    open spec fn decode(p: u128) -> Self {
        p as u64
    }

    open spec fn merge(self, p: u128) -> u128 {
        self as u128
    }

    proof fn lemma_merge(v: Self, p: u128) {
        assert((v as u128) & mask(64) == v as u128) by (bit_vector);
    }

    proof fn lemma_decode_valid(p: u128) {
    }

    fn bits() -> (r: u32) {
        64
    }

    fn unpack(p: u128) -> (r: Self) {
        p as u64
    }

    fn repack(&self, p: u128) -> (r: u128) {
        *self as u128
    }
}

impl BitSize for u128 {
    open spec fn width() -> nat {
        128
    }

    open spec fn valid(self) -> bool {
        true
    }

    open spec fn decode(p: u128) -> Self {
        p
    }

    open spec fn merge(self, p: u128) -> u128 {
        self
    }

    proof fn lemma_merge(v: Self, p: u128) {
        assert(v & mask(128) == v) by (bit_vector);
    }

    proof fn lemma_decode_valid(p: u128) {
    }

    fn bits() -> (r: u32) {
        128
    }

    fn unpack(p: u128) -> (r: Self) {
        p
    }

    fn repack(&self, p: u128) -> (r: u128) {
        *self
    }
}

/// A single bit: set for `true`.
impl BitSize for bool {
    open spec fn width() -> nat {
        1
    }

    open spec fn valid(self) -> bool {
        true
    }

    open spec fn decode(p: u128) -> Self {
        p & 1 == 1
    }

    open spec fn merge(self, p: u128) -> u128 {
        if self {
            1
        } else {
            0
        }
    }

    proof fn lemma_merge(v: Self, p: u128) {
        assert(1u128 & mask(1) == 1 && 0u128 & mask(1) == 0 && 1u128 & 1 == 1 && 0u128 & 1 == 0) by (bit_vector);
    }

    proof fn lemma_decode_valid(p: u128) {
    }

    fn bits() -> (r: u32) {
        1
    }

    fn unpack(p: u128) -> (r: Self) {
        p & 1 == 1
    }

    fn repack(&self, p: u128) -> (r: u128) {
        if *self {
            1
        } else {
            0
        }
    }
}

/// The empty value: no bits. A record without fields packs this way.
impl BitSize for () {
    open spec fn width() -> nat {
        0
    }

    open spec fn valid(self) -> bool {
        true
    }

    open spec fn decode(p: u128) -> Self {
        ()
    }

    open spec fn merge(self, p: u128) -> u128 {
        p
    }

    proof fn lemma_merge(v: Self, p: u128) {
    }

    proof fn lemma_decode_valid(p: u128) {
    }

    fn bits() -> (r: u32) {
        0
    }

    fn unpack(p: u128) -> (r: Self) {
        ()
    }

    fn repack(&self, p: u128) -> (r: u128) {
        p
    }
}

/// A presence bit at the base of the window, then the payload. Writing an
/// absent value clears the presence bit and leaves the payload bits as they
/// were.
impl<T: BitSize> BitSize for Option<T> {
    open spec fn width() -> nat {
        1 + T::width()
    }

    open spec fn valid(self) -> bool {
        match self {
            Some(x) => x.valid(),
            None => true,
        }
    }

    open spec fn decode(p: u128) -> Self {
        if p & 1 == 1 {
            Some(T::decode(p >> 1))
        } else {
            None
        }
    }

    open spec fn merge(self, p: u128) -> u128 {
        match self {
            Some(x) => 1 | (x.merge(p >> 1) << 1),
            None => p & !1u128,
        }
    }

    #[verifier::rlimit(50)]
    proof fn lemma_merge(v: Self, p: u128) {
        let w = Self::width() as u32;
        let wt = T::width() as u32;
        lemma_fits_payload(p, wt);
        match v {
            Some(x) => {
                T::lemma_merge(x, p >> 1);
                let q = x.merge(p >> 1);
                assert(fits(1 | (q << 1), w)) by (bit_vector)
                    requires
                        w == wt + 1,
                        w <= 128,
                        fits(q, wt),
                ;
                assert((1 | (q << 1)) & 1 == 1) by (bit_vector);
                assert((1 | (q << 1)) >> 1 == q) by (bit_vector)
                    requires
                        wt < 128,
                        fits(q, wt),
                ;
            },
            None => {
                assert(fits(p & !1u128, w)) by (bit_vector)
                    requires
                        fits(p, w),
                ;
                assert((p & !1u128) & 1 == 0) by (bit_vector);
            },
        }
    }

    proof fn lemma_decode_valid(p: u128) {
        lemma_fits_payload(p, T::width() as u32);
        if p & 1 == 1 {
            T::lemma_decode_valid(p >> 1);
        }
    }

    fn bits() -> (r: u32) {
        1 + T::bits()
    }

    fn unpack(p: u128) -> (r: Self) {
        proof {
            lemma_fits_payload(p, T::width() as u32);
        }
        if p & 1 == 1 {
            Some(T::unpack(p >> 1))
        } else {
            None
        }
    }

    fn repack(&self, p: u128) -> (r: u128) {
        proof {
            lemma_fits_payload(p, T::width() as u32);
        }
        match self {
            Some(x) => {
                let q = x.repack(p >> 1);
                proof {
                    T::lemma_merge(*x, p >> 1);
                    assert(fits(q, T::width() as u32));
                }
                1 | (q << 1)
            },
            None => p & !1u128,
        }
    }
}

/// The pattern of an optional value, without its presence bit, fits the
/// payload width.
pub proof fn lemma_fits_payload(p: u128, wt: u32)
    requires
        wt < 128,
        fits(p, (wt + 1) as u32),
    ensures
        fits(p >> 1, wt),
{
    let w = (wt + 1) as u32;
    assert(fits(p >> 1, wt)) by (bit_vector)
        requires
            w == wt + 1,
            w <= 128,
            fits(p, w),
    ;
}

/// A pair packs its first component in the low bits and its second one
/// right above it; longer sequences nest pairs.
impl<T0: BitSize, T1: BitSize> BitSize for (T0, T1) {
    open spec fn width() -> nat {
        T0::width() + T1::width()
    }

    open spec fn valid(self) -> bool {
        self.0.valid() && self.1.valid()
    }

    open spec fn decode(p: u128) -> Self {
        (T0::decode(p & mask(T0::width() as u32)), T1::decode(p >> T0::width() as u32))
    }

    open spec fn merge(self, p: u128) -> u128 {
        let w0 = T0::width() as u32;
        self.0.merge(p & mask(w0)) | (self.1.merge(p >> w0) << w0)
    }

    proof fn lemma_merge(v: Self, p: u128) {
        let w0 = T0::width() as u32;
        let w1 = T1::width() as u32;
        lemma_split_fits(p, w0, w1);
        T0::lemma_merge(v.0, p & mask(w0));
        T1::lemma_merge(v.1, p >> w0);
        lemma_join(v.0.merge(p & mask(w0)), v.1.merge(p >> w0), w0, w1);
    }

    proof fn lemma_decode_valid(p: u128) {
        let w0 = T0::width() as u32;
        let w1 = T1::width() as u32;
        lemma_split_fits(p, w0, w1);
        T0::lemma_decode_valid(p & mask(w0));
        T1::lemma_decode_valid(p >> w0);
    }

    fn bits() -> (r: u32) {
        T0::bits() + T1::bits()
    }

    fn unpack(p: u128) -> (r: Self) {
        let w0 = T0::bits();
        let w1 = T1::bits();
        proof {
            lemma_split_fits(p, w0, w1);
        }
        let m = crate::window::low_mask(w0);
        let first = T0::unpack(p & m);
        let second = if w0 == 128 {
            proof {
                assert(w0 == 128 ==> p >> w0 == 0) by (bit_vector);
            }
            T1::unpack(0)
        } else {
            T1::unpack(p >> w0)
        };
        (first, second)
    }

    fn repack(&self, p: u128) -> (r: u128) {
        let w0 = T0::bits();
        let w1 = T1::bits();
        proof {
            lemma_split_fits(p, w0, w1);
        }
        let m = crate::window::low_mask(w0);
        let low = self.0.repack(p & m);
        let high_old: u128 = if w0 == 128 {
            proof {
                assert(w0 == 128 ==> p >> w0 == 0) by (bit_vector);
            }
            0
        } else {
            p >> w0
        };
        let high = self.1.repack(high_old);
        proof {
            T0::lemma_merge(self.0, p & m);
            T1::lemma_merge(self.1, p >> w0);
            lemma_join(low, high, w0, w1);
        }
        if w0 == 128 {
            proof {
                assert(w0 == 128 && w1 == 0 && fits(high, w1) ==> low | (high << w0) == low) by (bit_vector);
            }
            low
        } else {
            low | (high << w0)
        }
    }
}

/// A pattern of `w0 + w1` bits splits into a low part of `w0` bits and a
/// high part of `w1` bits.
pub proof fn lemma_split_fits(p: u128, w0: u32, w1: u32)
    requires
        w0 + w1 <= 128,
        fits(p, (w0 + w1) as u32),
    ensures
        fits(p & mask(w0), w0),
        fits(p >> w0, w1),
{
    let w = (w0 + w1) as u32;
    assert(fits(p & mask(w0), w0) && fits(p >> w0, w1)) by (bit_vector)
        requires
            w == w0 + w1,
            w <= 128,
            fits(p, w),
    ;
}

/// Joining a low part of `w0` bits and a high part of `w1` bits gives a
/// pattern of `w0 + w1` bits from which both parts read back.
pub proof fn lemma_join(p0: u128, p1: u128, w0: u32, w1: u32)
    requires
        w0 + w1 <= 128,
        fits(p0, w0),
        fits(p1, w1),
    ensures
        fits(p0 | (p1 << w0), (w0 + w1) as u32),
        (p0 | (p1 << w0)) & mask(w0) == p0,
        (p0 | (p1 << w0)) >> w0 == p1,
{
    let w = (w0 + w1) as u32;
    assert(fits(p0 | (p1 << w0), w)) by (bit_vector)
        requires
            w == w0 + w1,
            w <= 128,
            fits(p0, w0),
            fits(p1, w1),
    ;
    assert((p0 | (p1 << w0)) & mask(w0) == p0) by (bit_vector)
        requires
            w0 + w1 <= 128,
            fits(p0, w0),
            fits(p1, w1),
    ;
    assert((p0 | (p1 << w0)) >> w0 == p1) by (bit_vector)
        requires
            w0 + w1 <= 128,
            fits(p0, w0),
            fits(p1, w1),
    ;
}

} // verus!
