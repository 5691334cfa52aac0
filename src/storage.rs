//! Storage integers: the supported widths, and packing against a storage of a
//! given width.
use vstd::prelude::*;
use crate::bit_size::{from_offset, with_offset, BitSize};
use crate::error::SchemaError;
use crate::window::{agrees_outside, fits, mask, replace, window};

verus! {

/// The native unsigned integer widths a record can be stored in, ordered by
/// width.
#[derive(Clone, Copy, Debug, PartialEq, Eq, Structural)]
pub enum StorageWidth {
    U8,
    U16,
    U32,
    U64,
    U128,
}

impl StorageWidth {
    /// The number of bits of the storage integer.
    pub open spec fn spec_bits(self) -> u32 {
        match self {
            StorageWidth::U8 => 8,
            StorageWidth::U16 => 16,
            StorageWidth::U32 => 32,
            StorageWidth::U64 => 64,
            StorageWidth::U128 => 128,
        }
    }

    /// The number of bits of the storage integer.
    pub fn bits(&self) -> (r: u32)
        ensures
            r == self.spec_bits(),
    {
        match self {
            StorageWidth::U8 => 8,
            StorageWidth::U16 => 16,
            StorageWidth::U32 => 32,
            StorageWidth::U64 => 64,
            StorageWidth::U128 => 128,
        }
    }

    /// `raw` is a value of this storage integer.
    pub open spec fn holds(self, raw: u128) -> bool {
        fits(raw, self.spec_bits())
    }
}

/// The smallest native width that holds `size` bits.
pub open spec fn spec_base_type(size: u32) -> Option<StorageWidth> {
    if 1 <= size <= 8 {
        Some(StorageWidth::U8)
    } else if 9 <= size <= 16 {
        Some(StorageWidth::U16)
    } else if 17 <= size <= 32 {
        Some(StorageWidth::U32)
    } else if 33 <= size <= 64 {
        Some(StorageWidth::U64)
    } else if 65 <= size <= 128 {
        Some(StorageWidth::U128)
    } else {
        None
    }
}

/// The native integer that backs a type of `size` bits: the smallest that
/// holds them. Sizes of 0 or over 128 are refused.
pub fn base_type(size: u32) -> (r: Result<StorageWidth, SchemaError>)
    ensures
        match spec_base_type(size) {
            Some(s) => r == Ok::<StorageWidth, SchemaError>(s),
            None => r == Err::<StorageWidth, SchemaError>(SchemaError::InvalidStorageWidth { size }),
        },
        r is Ok ==> size <= r->Ok_0.spec_bits(),
{
    if 1 <= size && size <= 8 {
        Ok(StorageWidth::U8)
    } else if 9 <= size && size <= 16 {
        Ok(StorageWidth::U16)
    } else if 17 <= size && size <= 32 {
        Ok(StorageWidth::U32)
    } else if 33 <= size && size <= 64 {
        Ok(StorageWidth::U64)
    } else if 65 <= size && size <= 128 {
        Ok(StorageWidth::U128)
    } else {
        Err(SchemaError::InvalidStorageWidth { size })
    }
}

/// A type of `size` bits written as a plain name (`is_ident`) is an
/// arbitrary-width integer unless the size is one of the native widths 8,
/// 16, 32, 64 or 128.
pub fn is_arbitrary_int(size: u32, is_ident: bool) -> (r: bool)
    ensures
        r == (is_ident && size != 8 && size != 16 && size != 32 && size != 64 && size != 128),
{
    let is_native = size == 8 || size == 16 || size == 32 || size == 64 || size == 128;
    !is_native && is_ident
}

/// Reads the value stored at bit `offset` of the storage value `raw`.
pub fn unpack<T: BitSize>(storage: StorageWidth, raw: u128, offset: u32) -> (r: T)
    requires
        offset + T::width() <= storage.spec_bits(),
    ensures
        r == T::decode(window(raw, offset, T::width() as u32)),
{
    from_offset(raw, offset)
}

/// Writes `value` at bit `offset` of the storage value `raw`. The result is
/// again a value of the storage, the value reads back from it, and the bits
/// outside its window are those of `raw`.
pub fn pack<T: BitSize>(storage: StorageWidth, value: &T, raw: u128, offset: u32) -> (r: u128)
    requires
        offset + T::width() <= storage.spec_bits(),
        value.valid(),
        storage.holds(raw),
    ensures
        storage.holds(r),
        T::decode(window(r, offset, T::width() as u32)) == *value,
        agrees_outside(r, raw, offset, T::width() as u32),
        r == replace(raw, offset, T::width() as u32, value.merge(window(raw, offset, T::width() as u32))),
{
    let r = with_offset(value, raw, offset);
    proof {
        let w = T::width() as u32;
        crate::window::lemma_window_fits(raw, offset, w);
        T::lemma_merge(*value, window(raw, offset, w));
        lemma_replace_holds(raw, offset, w, value.merge(window(raw, offset, w)), storage.spec_bits());
    }
    r
}

/// Replacing a window that lies below bit `s` of a value below bit `s`
/// leaves a value below bit `s`.
pub proof fn lemma_replace_holds(raw: u128, off: u32, w: u32, p: u128, s: u32)
    requires
        off + w <= s,
        s <= 128,
        fits(raw, s),
        fits(p, w),
    ensures
        fits(replace(raw, off, w, p), s),
{
    if off < 128 {
        assert(fits((raw & !(mask(w) << off)) | (p << off), s)) by (bit_vector)
            requires
                off + w <= s,
                s <= 128,
                fits(raw, s),
                fits(p, w),
        ;
    }
}

/// A storage value of a narrower width is a storage value of every wider
/// width, unchanged.
pub fn widen(from: StorageWidth, to: StorageWidth, raw: u128) -> (r: u128)
    requires
        from.spec_bits() <= to.spec_bits(),
        from.holds(raw),
    ensures
        r == raw,
        to.holds(r),
{
    proof {
        lemma_holds_wider(raw, from.spec_bits(), to.spec_bits());
    }
    raw
}

/// What fits in `a` bits fits in any `b >= a` bits.
pub proof fn lemma_holds_wider(raw: u128, a: u32, b: u32)
    requires
        a <= b <= 128,
        fits(raw, a),
    ensures
        fits(raw, b),
{
    assert(fits(raw, b)) by (bit_vector)
        requires
            a <= b <= 128,
            fits(raw, a),
    ;
}

/// Widening: a value packed against a narrower storage reads back unchanged
/// from the same bits taken as a wider storage, at the same offset.
pub proof fn lemma_widening<T: BitSize>(
    narrow: StorageWidth,
    wide: StorageWidth,
    value: T,
    raw: u128,
    offset: u32,
)
    requires
        narrow.spec_bits() <= wide.spec_bits(),
        offset + T::width() <= narrow.spec_bits(),
        value.valid(),
        narrow.holds(raw),
    ensures
        ({
            let w = T::width() as u32;
            let packed = replace(raw, offset, w, value.merge(window(raw, offset, w)));
            &&& narrow.holds(packed)
            &&& wide.holds(packed)
            &&& T::decode(window(packed, offset, w)) == value
        }),
{
    let w = T::width() as u32;
    let p = value.merge(window(raw, offset, w));
    crate::window::lemma_window_fits(raw, offset, w);
    T::lemma_merge(value, window(raw, offset, w));
    crate::window::lemma_insert(raw, offset, w, p);
    lemma_replace_holds(raw, offset, w, p, narrow.spec_bits());
    lemma_holds_wider(replace(raw, offset, w, p), narrow.spec_bits(), wide.spec_bits());
}

} // verus!
