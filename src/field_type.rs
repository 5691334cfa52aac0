//! The bit width of a field type given by name: `bool`, or `u` followed by a
//! decimal bit count (`u7`, `u16`).
use vstd::prelude::*;
use crate::error::SchemaError;
use vstd::string::StringSliceAdditionalSpecFns;

verus! {

/// The byte is an ASCII decimal digit.
pub open spec fn is_digit(b: u8) -> bool {
    48 <= b <= 57
}

/// The number that a string of decimal digits writes.
pub open spec fn digits_value(s: Seq<u8>) -> int
    decreases s.len(),
{
    if s.len() == 0 {
        0
    } else {
        digits_value(s.drop_last()) * 10 + (s.last() - 48)
    }
}

/// The width a type name stands for, if any.
pub open spec fn spec_type_width(s: Seq<u8>) -> Option<u32> {
    if s == seq![98u8, 111u8, 111u8, 108u8] {
        Some(1)
    } else if s.len() >= 2 && s[0] == 117u8 && (forall|i: int| 1 <= i < s.len() ==> is_digit(#[trigger] s[i]))
        && digits_value(s.subrange(1, s.len() as int)) <= u32::MAX {
        Some(digits_value(s.subrange(1, s.len() as int)) as u32)
    } else {
        None
    }
}

/// The bit width of the type named `name`: 1 for `bool`, `n` for `u<n>`.
/// Any other name is refused.
pub fn type_width(name: &str) -> (r: Result<u32, SchemaError>)
    ensures
        match spec_type_width(name.spec_bytes()) {
            Some(w) => r == Ok::<u32, SchemaError>(w),
            None => r == Err::<u32, SchemaError>(SchemaError::InvalidType),
        },
{
    let b = name.as_bytes();
    let n = b.len();
    if n == 4 && b[0] == 98 && b[1] == 111 && b[2] == 111 && b[3] == 108 {
        proof {
            assert(b@ =~= seq![98u8, 111u8, 111u8, 108u8]);
        }
        return Ok(1);
    }
    if n < 2 || b[0] != 117 {
        return Err(SchemaError::InvalidType);
    }
    let ghost s = b@;
    proof {
        let word = seq![98u8, 111u8, 111u8, 108u8];
        assert(word[0] == 98u8);
        assert(s != word);
    }
    let mut value: u64 = 0;
    let mut i: usize = 1;
    while i < n
        invariant
            s == b@,
            b@ == name.spec_bytes(),
            n == s.len(),
            n >= 2,
            s[0] == 117u8,
            s != seq![98u8, 111u8, 111u8, 108u8],
            1 <= i <= n,
            value == digits_value(s.subrange(1, i as int)),
            value <= u32::MAX,
            forall|j: int| 1 <= j < i ==> is_digit(#[trigger] s[j]),
        decreases n - i,
    {
        let c = b[i];
        if c < 48 || c > 57 {
            proof {
                assert(!is_digit(s[i as int]));
                assert(spec_type_width(s) is None);
            }
            return Err(SchemaError::InvalidType);
        }
        let next: u64 = value * 10 + (c - 48) as u64;
        proof {
            assert(s.subrange(1, i + 1).drop_last() =~= s.subrange(1, i as int));
        }
        if next > u32::MAX as u64 {
            proof {
                let t = s.subrange(1, n as int);
                if forall|j: int| 1 <= j < s.len() ==> is_digit(#[trigger] s[j]) {
                    assert forall|j: int| 0 <= j < t.len() implies is_digit(#[trigger] t[j]) by {
                        assert(t[j] == s[j + 1]);
                    }
                    lemma_digits_grow(t, (i - 1) as int);
                    assert(t.subrange(0, i as int) =~= s.subrange(1, i + 1));
                }
                assert(spec_type_width(s) is None);
            }
            return Err(SchemaError::InvalidType);
        }
        value = next;
        i = i + 1;
    }
    proof {
        assert(s.subrange(1, i as int) =~= s.subrange(1, n as int));
    }
    Ok(value as u32)
}

/// Appending digits never makes the number smaller.
proof fn lemma_digits_grow(s: Seq<u8>, k: int)
    requires
        0 <= k < s.len(),
        forall|i: int| 0 <= i < s.len() ==> is_digit(#[trigger] s[i]),
    ensures
        digits_value(s) >= digits_value(s.subrange(0, k + 1)),
    decreases s.len(),
{
    if s.len() > k + 1 {
        let t = s.drop_last();
        assert(t.subrange(0, k + 1) =~= s.subrange(0, k + 1));
        lemma_digits_grow(t, k);
        lemma_digits_nonneg(t);
    } else {
        assert(s.subrange(0, k + 1) =~= s);
    }
}

/// A string of digits writes a number of at least zero.
proof fn lemma_digits_nonneg(s: Seq<u8>)
    requires
        forall|i: int| 0 <= i < s.len() ==> is_digit(#[trigger] s[i]),
    ensures
        digits_value(s) >= 0,
    decreases s.len(),
{
    if s.len() > 0 {
        lemma_digits_nonneg(s.drop_last());
    }
}

} // verus!
