//! Enumerations backed by a bit pattern of a declared width.
use vstd::prelude::*;
use vstd::arithmetic::power2::pow2;
use crate::error::SchemaError;
use crate::window::{agrees_outside, extract, fits, insert, mask, window};

verus! {

/// An enumeration: its declared width, the discriminant of each variant in
/// declaration order, and whether every pattern of the width must name a
/// variant.
#[derive(Debug)]
pub struct EnumSchema {
    pub width: u32,
    pub discriminants: Vec<u128>,
    pub exhaustive: bool,
}

impl EnumSchema {
    /// Some variant has the discriminant `p`.
    pub open spec fn names(&self, p: u128) -> bool {
        exists|i: int| 0 <= i < self.discriminants@.len() && self.discriminants@[i] == p
    }

    /// The schema is usable: a width from 1 to 128, every discriminant within
    /// it, and, when exhaustive, one variant for each of the `2^width`
    /// patterns.
    pub open spec fn wf(&self) -> bool {
        &&& 1 <= self.width <= 128
        &&& forall|i: int|
            0 <= i < self.discriminants@.len() ==> fits(#[trigger] self.discriminants@[i], self.width)
        &&& self.exhaustive ==> {
            &&& self.width < 64
            &&& self.discriminants@.len() == pow2(self.width as nat)
            &&& forall|p: u128| p < pow2(self.width as nat) ==> #[trigger] self.names(p)
        }
    }

    /// Checks the schema; on failure says what is wrong.
    pub fn validate(&self) -> (r: Result<(), SchemaError>)
        ensures
            r is Ok <==> self.wf(),
            match r {
                Ok(_) => true,
                Err(SchemaError::InvalidStorageWidth { size }) => size == self.width && !(1 <= self.width <= 128),
                Err(SchemaError::DiscriminantOutOfRange { variant }) => {
                    &&& 1 <= self.width <= 128
                    &&& variant < self.discriminants@.len()
                    &&& !fits(self.discriminants@[variant as int], self.width)
                    &&& forall|j: int| 0 <= j < variant ==> fits(#[trigger] self.discriminants@[j], self.width)
                },
                Err(SchemaError::WrongVariantCount { variants }) => {
                    &&& 1 <= self.width <= 128
                    &&& self.exhaustive
                    &&& variants == self.discriminants@.len()
                    &&& (self.width >= 64 || variants != pow2(self.width as nat))
                },
                Err(SchemaError::NotExhaustive { pattern }) => {
                    &&& self.exhaustive
                    &&& self.width < 64
                    &&& self.discriminants@.len() == pow2(self.width as nat)
                    &&& pattern < pow2(self.width as nat)
                    &&& !self.names(pattern as u128)
                    &&& forall|q: u128| q < pattern ==> #[trigger] self.names(q)
                },
                Err(_) => false,
            },
    {
        if self.width < 1 || self.width > 128 {
            return Err(SchemaError::InvalidStorageWidth { size: self.width });
        }
        let m = crate::window::low_mask(self.width);
        let n = self.discriminants.len();
        let mut i: usize = 0;
        while i < n
            invariant
                n == self.discriminants@.len(),
                1 <= self.width <= 128,
                m == mask(self.width),
                i <= n,
                forall|j: int| 0 <= j < i ==> fits(#[trigger] self.discriminants@[j], self.width),
            decreases n - i,
        {
            let d = self.discriminants[i];
            if d & m != d {
                return Err(SchemaError::DiscriminantOutOfRange { variant: i });
            }
            i = i + 1;
        }
        if !self.exhaustive {
            return Ok(());
        }
        if self.width >= 64 {
            proof {
                lemma_pow2_at_least_64(self.width as nat);
            }
            return Err(SchemaError::WrongVariantCount { variants: n });
        }
        let count: u64 = 1u64 << self.width;
        proof {
            vstd::bits::lemma_u64_pow2_no_overflow(self.width as nat);
            vstd::bits::lemma_u64_shl_is_mul(1u64, self.width as u64);
        }
        if n as u64 != count {
            proof {
                assert(!self.wf());
            }
            return Err(SchemaError::WrongVariantCount { variants: n });
        }
        let mut p: u64 = 0;
        while p < count
            invariant
                count == pow2(self.width as nat),
                self.exhaustive,
                1 <= self.width < 64,
                n == self.discriminants@.len(),
                n == count,
                forall|j: int| 0 <= j < n ==> fits(#[trigger] self.discriminants@[j], self.width),
                p <= count,
                forall|q: u128| q < p ==> #[trigger] self.names(q),
            decreases count - p,
        {
            match self.lookup(p as u128) {
                Some(_) => {},
                None => {
                    proof {
                        assert(!self.names(p as u128));
                        assert((p as u128) < pow2(self.width as nat));
                        if self.wf() {
                            assert(self.names(p as u128));
                        }
                    }
                    return Err(SchemaError::NotExhaustive { pattern: p });
                },
            }
            p = p + 1;
        }
        Ok(())
    }

    /// The first variant whose discriminant is `p`, if any.
    pub fn lookup(&self, p: u128) -> (r: Option<usize>)
        ensures
            match r {
                Some(i) => i < self.discriminants@.len() && self.discriminants@[i as int] == p
                    && forall|j: int| 0 <= j < i ==> self.discriminants@[j] != p,
                None => !self.names(p),
            },
    {
        let mut i: usize = 0;
        while i < self.discriminants.len()
            invariant
                i <= self.discriminants@.len(),
                forall|j: int| 0 <= j < i ==> self.discriminants@[j] != p,
            decreases self.discriminants@.len() - i,
        {
            if self.discriminants[i] == p {
                return Some(i);
            }
            i = i + 1;
        }
        None
    }

    /// Reads the variant stored at bit `offset` of `raw`: `None` when the
    /// pattern there names no variant.
    pub fn unpack(&self, raw: u128, offset: u32) -> (r: Option<usize>)
        requires
            self.wf(),
            offset + self.width <= 128,
        ensures
            match r {
                Some(i) => i < self.discriminants@.len() && self.discriminants@[i as int] == window(raw, offset, self.width)
                    && forall|j: int| 0 <= j < i ==> self.discriminants@[j] != window(raw, offset, self.width),
                None => !self.names(window(raw, offset, self.width)),
            },
    {
        let p = extract(raw, offset, self.width);
        self.lookup(p)
    }

    /// Writes the discriminant of variant `variant` at bit `offset` of `raw`.
    pub fn pack(&self, raw: u128, offset: u32, variant: usize) -> (r: u128)
        requires
            self.wf(),
            offset + self.width <= 128,
            variant < self.discriminants@.len(),
        ensures
            window(r, offset, self.width) == self.discriminants@[variant as int],
            agrees_outside(r, raw, offset, self.width),
    {
        let d = self.discriminants[variant];
        proof {
            assert(fits(self.discriminants@[variant as int], self.width));
        }
        insert(raw, offset, self.width, d)
    }
}

/// No `u64` count reaches `2^w` for `w >= 64`.
proof fn lemma_pow2_at_least_64(w: nat)
    requires
        w >= 64,
    ensures
        pow2(w) > u64::MAX,
{
    vstd::arithmetic::power2::lemma2_to64();
    if w > 64 {
        vstd::arithmetic::power2::lemma_pow2_strictly_increases(64, w);
    }
}

/// Exhaustive enumerations are total: in a usable exhaustive schema of
/// width `W` there are exactly `2^W` variants and every pattern below `2^W`
/// names one, so reading a pattern always finds a variant.
pub proof fn lemma_exhaustive_total(schema: &EnumSchema, p: u128)
    requires
        schema.wf(),
        schema.exhaustive,
        p < pow2(schema.width as nat),
    ensures
        schema.discriminants@.len() == pow2(schema.width as nat),
        schema.names(p),
{
}

/// In a usable exhaustive schema no two variants share a discriminant: the
/// `2^W` variants name all `2^W` patterns, so each pattern is named once.
pub proof fn lemma_exhaustive_distinct(schema: &EnumSchema, i: int, j: int)
    requires
        schema.wf(),
        schema.exhaustive,
        0 <= i < schema.discriminants@.len(),
        0 <= j < schema.discriminants@.len(),
        i != j,
    ensures
        schema.discriminants@[i] != schema.discriminants@[j],
{
    let d = schema.discriminants@;
    let n = pow2(schema.width as nat) as int;
    let ints = d.map_values(|x: u128| x as int);
    let range = vstd::set_lib::set_int_range(0, n);
    vstd::set_lib::lemma_int_range(0, n);
    assert forall|k: int| range.contains(k) implies #[trigger] ints.to_set().contains(k) by {
        vstd::bits::lemma_u64_pow2_no_overflow(schema.width as nat);
        assert(0 <= k < n);
        let p = k as u128;
        assert(p as int == k);
        assert(p < pow2(schema.width as nat));
        assert(schema.names(p));
        let a = choose|a: int| 0 <= a < d.len() && d[a] == p;
        assert(ints[a] == k);
    }
    vstd::seq_lib::seq_to_set_is_finite(ints);
    vstd::set_lib::lemma_len_subset(range, ints.to_set());
    ints.lemma_cardinality_of_set();
    ints.lemma_no_dup_set_cardinality();
    assert(ints[i] != ints[j]);
}

} // verus!
