//! Record schemas: field offsets, the overflow check, and access to the
//! fields of a packed record.
use vstd::prelude::*;
use crate::annotation::Mode;
use crate::bit_size::BitSize;
use crate::error::SchemaError;
use crate::storage::{pack, unpack, StorageWidth};
use crate::window::{agrees_outside, extract, fits, insert, low_mask, mask, replace, window};

verus! {

/// The bits `[start, end)`.
#[derive(Clone, Copy, Debug, PartialEq, Eq, Structural)]
pub struct BitRange {
    pub start: u32,
    pub end: u32,
}

/// One field of a record schema: its width, an optional explicit bit range
/// `[start, end)`, its access mode, and the optional distance in bits
/// between repeated instances of it.
#[derive(Clone, Copy, Debug, PartialEq, Eq, Structural)]
pub struct FieldSchema {
    pub width: u32,
    pub range: Option<BitRange>,
    pub mode: Mode,
    pub stride: Option<u32>,
}

/// Where a field of a resolved record lies.
#[derive(Clone, Copy, Debug, PartialEq, Eq, Structural)]
pub struct FieldLayout {
    pub offset: u32,
    pub width: u32,
    pub mode: Mode,
    pub stride: Option<u32>,
}

/// The sum of the widths of the first `i` fields.
pub open spec fn prefix_bits(fields: Seq<FieldSchema>, i: int) -> int
    decreases i,
{
    if i <= 0 || i > fields.len() {
        0
    } else {
        prefix_bits(fields, i - 1) + fields[i - 1].width
    }
}

/// The offset of field `i`: the start of its explicit range, or else the sum
/// of the widths of the fields before it.
pub open spec fn spec_offset(fields: Seq<FieldSchema>, i: int) -> int {
    match fields[i].range {
        Some(r) => r.start as int,
        None => prefix_bits(fields, i),
    }
}

/// The highest bit that the first `n` fields reach: the largest
/// `offset + width` among them, or 0 when there are none.
pub open spec fn max_end(fields: Seq<FieldSchema>, n: int) -> int
    decreases n,
{
    if n <= 0 || n > fields.len() {
        0
    } else {
        let end = spec_offset(fields, n - 1) + fields[n - 1].width;
        if end > max_end(fields, n - 1) {
            end
        } else {
            max_end(fields, n - 1)
        }
    }
}

/// What is wrong with field `i` in a storage of `bits` bits, if anything.
pub open spec fn field_error(fields: Seq<FieldSchema>, i: int, bits: u32) -> Option<SchemaError> {
    if fields[i].stride == Some(0u32) {
        Some(SchemaError::MalformedAnnotation)
    } else {
        match fields[i].range {
        Some(r) if r.end < r.start || r.end - r.start != fields[i].width => Some(SchemaError::MalformedAnnotation),
        _ => if spec_offset(fields, i) + fields[i].width > bits {
            Some(
                SchemaError::Overflow {
                    field: i as usize,
                    needed: (spec_offset(fields, i) + fields[i].width) as u64,
                    available: bits,
                },
            )
        } else {
            None
        },
        }
    }
}

/// A record whose fields all have resolved positions inside its storage.
#[derive(Debug)]
pub struct Layout {
    pub storage: StorageWidth,
    pub fields: Vec<FieldLayout>,
    /// The record's own width: the highest bit any field reaches.
    pub total: u32,
}

impl Layout {
    /// Every field lies inside the storage, and `total` is the end of the
    /// highest field.
    pub open spec fn wf(&self) -> bool {
        &&& self.total <= self.storage.spec_bits()
        &&& forall|i: int|
            0 <= i < self.fields@.len() ==> #[trigger] self.fields@[i].offset + self.fields@[i].width <= self.total
    }

    /// The layout that `resolve` gives for `fields`.
    pub open spec fn resolves(&self, storage: StorageWidth, fields: Seq<FieldSchema>) -> bool {
        &&& self.storage == storage
        &&& self.fields@.len() == fields.len()
        &&& self.total == max_end(fields, fields.len() as int)
        &&& forall|i: int|
            0 <= i < fields.len() ==> {
                &&& (#[trigger] self.fields@[i]).offset == spec_offset(fields, i)
                &&& self.fields@[i].width == fields[i].width
                &&& self.fields@[i].mode == fields[i].mode
                &&& self.fields@[i].stride == fields[i].stride
            }
    }

    /// The bits of field `i` in the record value `raw`.
    pub open spec fn spec_get(&self, raw: u128, i: int) -> u128 {
        window(raw, self.fields@[i].offset, self.fields@[i].width)
    }
}

impl Layout {
    /// Reads the bits of field `i` from the record value `raw`.
    pub fn get(&self, raw: u128, i: usize) -> (r: u128)
        requires
            self.wf(),
            i < self.fields@.len(),
            self.fields@[i as int].mode != Mode::Write,
        ensures
            r == self.spec_get(raw, i as int),
            fits(r, self.fields@[i as int].width),
    {
        let f = self.fields[i];
        proof {
            assert(self.fields@[i as int].offset + self.fields@[i as int].width <= self.total);
        }
        extract(raw, f.offset, f.width)
    }

    /// The record value `raw` with field `i` set to the bits `value`; the
    /// other bits stay as they were.
    pub fn set(&self, raw: u128, i: usize, value: u128) -> (r: u128)
        requires
            self.wf(),
            i < self.fields@.len(),
            self.fields@[i as int].mode != Mode::Read,
            fits(value, self.fields@[i as int].width),
            self.storage.holds(raw),
        ensures
            r == replace(raw, self.fields@[i as int].offset, self.fields@[i as int].width, value),
            self.spec_get(r, i as int) == value,
            agrees_outside(r, raw, self.fields@[i as int].offset, self.fields@[i as int].width),
            self.storage.holds(r),
    {
        let f = self.fields[i];
        proof {
            assert(self.fields@[i as int].offset + self.fields@[i as int].width <= self.total);
            crate::storage::lemma_replace_holds(raw, f.offset, f.width, value, self.storage.spec_bits());
        }
        insert(raw, f.offset, f.width, value)
    }

    /// Reads field `i` as a value of type `T`.
    pub fn read<T: BitSize>(&self, raw: u128, i: usize) -> (r: T)
        requires
            self.wf(),
            i < self.fields@.len(),
            self.fields@[i as int].mode != Mode::Write,
            T::width() == self.fields@[i as int].width,
        ensures
            r == T::decode(self.spec_get(raw, i as int)),
    {
        let f = self.fields[i];
        proof {
            assert(self.fields@[i as int].offset + self.fields@[i as int].width <= self.total);
        }
        unpack(self.storage, raw, f.offset)
    }

    /// Writes `value` into field `i`. The field then reads back as `value`
    /// and the bits of the other fields stay as they were.
    pub fn write<T: BitSize>(&self, raw: u128, i: usize, value: &T) -> (r: u128)
        requires
            self.wf(),
            i < self.fields@.len(),
            self.fields@[i as int].mode != Mode::Read,
            T::width() == self.fields@[i as int].width,
            value.valid(),
            self.storage.holds(raw),
        ensures
            r == replace(
                raw,
                self.fields@[i as int].offset,
                self.fields@[i as int].width,
                value.merge(self.spec_get(raw, i as int)),
            ),
            T::decode(self.spec_get(r, i as int)) == *value,
            agrees_outside(r, raw, self.fields@[i as int].offset, self.fields@[i as int].width),
            self.storage.holds(r),
    {
        let f = self.fields[i];
        proof {
            assert(self.fields@[i as int].offset + self.fields@[i as int].width <= self.total);
        }
        pack(self.storage, value, raw, f.offset)
    }

    /// Writes the nested record `inner`, whose value is `inner_raw`, into
    /// field `i`: its low `inner.total` bits are placed at the field's offset,
    /// exactly as the raw value would be placed by hand.
    pub fn set_nested(&self, raw: u128, i: usize, inner: &Layout, inner_raw: u128) -> (r: u128)
        requires
            self.wf(),
            inner.wf(),
            i < self.fields@.len(),
            self.fields@[i as int].mode != Mode::Read,
            self.fields@[i as int].width == inner.total,
            self.storage.holds(raw),
        ensures
            r == replace(raw, self.fields@[i as int].offset, inner.total, inner_raw & mask(inner.total)),
            self.spec_get(r, i as int) == inner_raw & mask(inner.total),
            agrees_outside(r, raw, self.fields@[i as int].offset, inner.total),
            self.storage.holds(r),
    {
        let m = low_mask(inner.total);
        let p = inner_raw & m;
        proof {
            assert(p & m == p) by (bit_vector)
                requires
                    p == inner_raw & m,
            ;
        }
        self.set(raw, i, p)
    }

    /// Reads field `i` as the value of a nested record of width `inner.total`.
    pub fn get_nested(&self, raw: u128, i: usize, inner: &Layout) -> (r: u128)
        requires
            self.wf(),
            inner.wf(),
            i < self.fields@.len(),
            self.fields@[i as int].mode != Mode::Write,
            self.fields@[i as int].width == inner.total,
        ensures
            r == self.spec_get(raw, i as int),
            inner.storage.holds(r),
    {
        let r = self.get(raw, i);
        proof {
            crate::storage::lemma_holds_wider(r, inner.total, inner.storage.spec_bits());
        }
        r
    }
}

/// Static overflow rejection: fields placed one after another whose widths
/// add up to more than the storage holds are refused, with an overflow
/// error, and no field is silently cut short.
pub proof fn lemma_overflow_rejected(storage: StorageWidth, fields: Seq<FieldSchema>)
    requires
        forall|i: int|
            0 <= i < fields.len() ==> (#[trigger] fields[i]).range is None && fields[i].stride != Some(0u32),
        prefix_bits(fields, fields.len() as int) > storage.spec_bits(),
    ensures
        exists|i: int| 0 <= i < fields.len() && field_error(fields, i, storage.spec_bits()) is Some,
        forall|i: int|
            0 <= i < fields.len() && (#[trigger] field_error(fields, i, storage.spec_bits())) is Some
                ==> field_error(fields, i, storage.spec_bits())->Some_0 is Overflow,
{
    let n = fields.len() as int;
    assert(n > 0);
    assert(prefix_bits(fields, n) == prefix_bits(fields, n - 1) + fields[n - 1].width);
    assert(fields[n - 1].range is None);
    assert(field_error(fields, n - 1, storage.spec_bits()) is Some);
}

/// With every field placed after the one before it, the record's width is
/// the sum of the field widths.
pub proof fn lemma_width_is_sum(fields: Seq<FieldSchema>, n: int)
    requires
        0 <= n <= fields.len(),
        forall|i: int| 0 <= i < fields.len() ==> (#[trigger] fields[i]).range is None,
    ensures
        max_end(fields, n) == prefix_bits(fields, n),
    decreases n,
{
    if n > 0 {
        lemma_width_is_sum(fields, n - 1);
        assert(fields[n - 1].range is None);
    }
}

/// Offset additivity: a field without an explicit range starts where the
/// widths of all fields before it end.
pub proof fn lemma_offset_additivity(fields: Seq<FieldSchema>, i: int)
    requires
        0 <= i < fields.len(),
        fields[i].range is None,
    ensures
        spec_offset(fields, i) == prefix_bits(fields, i),
        i + 1 < fields.len() && fields[i + 1].range is None
            ==> spec_offset(fields, i + 1) == spec_offset(fields, i) + fields[i].width,
{
}

/// The record-level options of a schema.
#[derive(Clone, Copy, Debug, PartialEq, Eq, Structural)]
pub struct Config {
    /// The storage integer; a record must name one.
    pub storage_type: Option<StorageWidth>,
}

impl Config {
    /// No option given yet.
    pub fn new() -> (r: Self)
        ensures
            r.storage_type is None,
    {
        Config { storage_type: None }
    }

    /// The storage integer, which must have been given.
    pub fn explicit(self) -> (r: Result<StorageWidth, SchemaError>)
        ensures
            match self.storage_type {
                Some(s) => r == Ok::<StorageWidth, SchemaError>(s),
                None => r == Err::<StorageWidth, SchemaError>(SchemaError::NoStorageType),
            },
    {
        match self.storage_type {
            Some(s) => Ok(s),
            None => Err(SchemaError::NoStorageType),
        }
    }
}

/// Processes a record schema: its options and its fields in declaration
/// order. Gives the resolved layout, or the first thing wrong with it.
pub fn bitfield(config: Config, fields: &Vec<FieldSchema>) -> (r: Result<Layout, SchemaError>)
    requires
        fields@.len() <= u32::MAX,
    ensures
        match config.storage_type {
            None => r == Err::<Layout, SchemaError>(SchemaError::NoStorageType),
            Some(storage) => match r {
                Ok(l) => {
                    &&& l.wf()
                    &&& l.resolves(storage, fields@)
                    &&& forall|i: int|
                        0 <= i < fields@.len() ==> field_error(fields@, i, storage.spec_bits()) is None
                },
                Err(e) => exists|i: int|
                    0 <= i < fields@.len() && field_error(fields@, i, storage.spec_bits()) == Some(e)
                        && forall|j: int| 0 <= j < i ==> field_error(fields@, j, storage.spec_bits()) is None,
            },
        },
{
    let storage = match config.explicit() {
        Ok(s) => s,
        Err(e) => return Err(e),
    };
    resolve(storage, fields)
}

/// Gives each field its offset and checks that every field fits the storage.
/// On failure the error is that of the first field that is wrong.
pub fn resolve(storage: StorageWidth, fields: &Vec<FieldSchema>) -> (r: Result<Layout, SchemaError>)
    requires
        fields@.len() <= u32::MAX,
    ensures
        match r {
            Ok(l) => {
                &&& l.wf()
                &&& l.resolves(storage, fields@)
                &&& forall|i: int| 0 <= i < fields@.len() ==> field_error(fields@, i, storage.spec_bits()) is None
            },
            Err(e) => exists|i: int|
                0 <= i < fields@.len() && field_error(fields@, i, storage.spec_bits()) == Some(e) && forall|j: int|
                    0 <= j < i ==> field_error(fields@, j, storage.spec_bits()) is None,
        },
{
    let bits = storage.bits();
    let mut out: Vec<FieldLayout> = Vec::new();
    let mut sum: u64 = 0;
    let mut total: u32 = 0;
    let mut i: usize = 0;
    while i < fields.len()
        invariant
            i <= fields@.len() <= u32::MAX,
            bits == storage.spec_bits(),
            sum == prefix_bits(fields@, i as int),
            sum <= i * (u32::MAX as int),
            total <= bits,
            total == max_end(fields@, i as int),
            out@.len() == i,
            forall|j: int| 0 <= j < i ==> field_error(fields@, j, bits) is None,
            forall|j: int|
                0 <= j < i ==> {
                    &&& (#[trigger] out@[j]).offset == spec_offset(fields@, j)
                    &&& out@[j].width == fields@[j].width
                    &&& out@[j].mode == fields@[j].mode
                    &&& out@[j].stride == fields@[j].stride
                    &&& out@[j].offset + out@[j].width <= total
                },
        decreases fields@.len() - i,
    {
        let f = fields[i];
        if f.stride == Some(0u32) {
            proof {
                assert(field_error(fields@, i as int, bits) == Some(SchemaError::MalformedAnnotation));
            }
            return Err(SchemaError::MalformedAnnotation);
        }
        let offset: u64 = match f.range {
            Some(range) => {
                if range.end < range.start || range.end - range.start != f.width {
                    proof {
                        assert(field_error(fields@, i as int, bits) == Some(SchemaError::MalformedAnnotation));
                    }
                    return Err(SchemaError::MalformedAnnotation);
                }
                range.start as u64
            },
            None => sum,
        };
        let needed: u64 = offset + f.width as u64;
        if needed > bits as u64 {
            let e = SchemaError::Overflow { field: i, needed, available: bits };
            proof {
                assert(field_error(fields@, i as int, bits) == Some(e));
            }
            return Err(e);
        }
        let end = needed as u32;
        if end > total {
            total = end;
        }
        out.push(FieldLayout { offset: offset as u32, width: f.width, mode: f.mode, stride: f.stride });
        proof {
            assert(prefix_bits(fields@, i + 1) == prefix_bits(fields@, i as int) + fields@[i as int].width);
            assert(max_end(fields@, i + 1) == total);
            assert(sum + f.width <= (i + 1) * (u32::MAX as int)) by (nonlinear_arith)
                requires
                    sum <= i * (u32::MAX as int),
                    f.width <= u32::MAX,
            ;
        }
        sum = sum + f.width as u64;
        i = i + 1;
    }
    Ok(Layout { storage, fields: out, total })
}

} // verus!
