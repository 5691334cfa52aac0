//! Bit windows inside a storage integer: extraction and replacement.
use vstd::prelude::*;

verus! {

/// The low `w` bits set.
pub open spec fn mask(w: u32) -> u128 {
    if w >= 128 {
        u128::MAX
    } else {
        ((1u128 << w) - 1) as u128
    }
}

/// The `w`-wide bit window of `raw` starting at bit `off`.
pub open spec fn window(raw: u128, off: u32, w: u32) -> u128 {
    (raw >> off) & mask(w)
}

/// `a` and `b` hold the same bits everywhere outside `[off, off + w)`.
pub open spec fn agrees_outside(a: u128, b: u128, off: u32, w: u32) -> bool {
    a & !(mask(w) << off) == b & !(mask(w) << off)
}

/// `raw` with the `w`-wide window at bit `off` replaced by the pattern `p`.
pub open spec fn replace(raw: u128, off: u32, w: u32, p: u128) -> u128 {
    if off >= 128 {
        raw
    } else {
        (raw & !(mask(w) << off)) | (p << off)
    }
}

/// `p` is a pattern that fits in `w` bits.
pub open spec fn fits(p: u128, w: u32) -> bool {
    p & mask(w) == p
}

/// The mask of the low `w` bits.
pub fn low_mask(w: u32) -> (r: u128)
    requires
        w <= 128,
    ensures
        r == mask(w),
{
    if w == 128 {
        u128::MAX
    } else {
        assert(1u128 << w >= 1) by (bit_vector)
            requires
                w < 128,
        ;
        (1u128 << w) - 1
    }
}

/// Reads the `w`-wide window of `raw` that starts at bit `off`.
pub fn extract(raw: u128, off: u32, w: u32) -> (r: u128)
    requires
        off + w <= 128,
    ensures
        r == window(raw, off, w),
        fits(r, w),
{
    let m = low_mask(w);
    proof {
        lemma_window_fits(raw, off, w);
    }
    if off == 128 {
        assert(mask(0) == 0) by (bit_vector);
        assert(m == 0 ==> (raw >> off) & m == 0) by (bit_vector);
        0
    } else {
        (raw >> off) & m
    }
}

/// A window holds a pattern that fits its width.
pub proof fn lemma_window_fits(raw: u128, off: u32, w: u32)
    ensures
        fits(window(raw, off, w), w),
{
    let m = mask(w);
    assert(((raw >> off) & m) & m == (raw >> off) & m) by (bit_vector);
}

/// Replaces the `w`-wide window of `raw` at bit `off` by the pattern `p`;
/// every bit outside the window keeps its value.
pub fn insert(raw: u128, off: u32, w: u32, p: u128) -> (r: u128)
    requires
        off + w <= 128,
        fits(p, w),
    ensures
        r == replace(raw, off, w, p),
        window(r, off, w) == p,
        agrees_outside(r, raw, off, w),
{
    let m = low_mask(w);
    proof {
        lemma_insert(raw, off, w, p);
    }
    if off == 128 {
        raw
    } else {
        (raw & !(m << off)) | (p << off)
    }
}

/// What `insert` computes: the window holds the pattern and the rest stays.
pub proof fn lemma_insert(raw: u128, off: u32, w: u32, p: u128)
    requires
        off + w <= 128,
        fits(p, w),
    ensures
        off == 128 ==> window(raw, off, w) == p && agrees_outside(raw, raw, off, w),
        off < 128 ==> window((raw & !(mask(w) << off)) | (p << off), off, w) == p,
        off < 128 ==> agrees_outside((raw & !(mask(w) << off)) | (p << off), raw, off, w),
{
    let m = mask(w);
    assert(w <= 128 ==> (mask(w) == 0 <==> w == 0)) by (bit_vector);
    assert(off == 128 && m == 0 && p & m == p ==> (raw >> off) & m == p) by (bit_vector);
    if off < 128 {
        let cleared = raw & !(m << off);
        let shifted = p << off;
        assert((shifted >> off) == p) by (bit_vector)
            requires
                off < 128,
                off + w <= 128,
                m == mask(w),
                p & m == p,
                shifted == p << off,
        ;
        assert((cleared >> off) & m == 0) by (bit_vector)
            requires
                off < 128,
                cleared == raw & !(m << off),
        ;
        let lo = cleared >> off;
        assert((cleared | shifted) >> off == lo | p) by (bit_vector)
            requires
                (shifted >> off) == p,
                lo == cleared >> off,
        ;
        assert((lo | p) & m == p) by (bit_vector)
            requires
                lo & m == 0,
                p & m == p,
        ;
        assert((cleared | shifted) & !(m << off) == raw & !(m << off)) by (bit_vector)
            requires
                off < 128,
                off + w <= 128,
                m == mask(w),
                p & m == p,
                shifted == p << off,
                cleared == raw & !(m << off),
        ;
    }
}

} // verus!
