//! Laws that relate the accessors to one another, stated over the model that their
//! contracts use.
use vstd::prelude::*;
use crate::model::{
    bit_at, field, fits_range, lemma_with_bit_at, lemma_with_field_bit_at, low_mask, range_len,
    valid_range, with_bit, with_field,
};

verus! {

/// Reading a bit just written gives back the flag written: `bit(set(w, i, true), i)`
/// is true and `bit(set(w, i, false), i)` is false.
pub proof fn lemma_bit_of_set(w: u32, index: u8)
    requires
        index < 32,
    ensures
        bit_at(with_bit(w, index as u32, true), index as u32),
        !bit_at(with_bit(w, index as u32, false), index as u32),
{
    lemma_with_bit_at(w, index as u32, true, index as u32);
    lemma_with_bit_at(w, index as u32, false, index as u32);
}

/// Setting a bit twice to the same flag is the same as setting it once.
pub proof fn lemma_set_idempotent(w: u32, index: u8, flag: bool)
    requires
        index < 32,
    ensures
        with_bit(with_bit(w, index as u32, flag), index as u32, flag) == with_bit(
            w,
            index as u32,
            flag,
        ),
{
    let i = index as u32;
    assert(((w | (1u32 << i)) | (1u32 << i)) == (w | (1u32 << i))) by (bit_vector);
    assert(((w & !(1u32 << i)) & !(1u32 << i)) == (w & !(1u32 << i))) by (bit_vector);
}

/// Setting bit `index` leaves every other bit `other` as it was.
pub proof fn lemma_set_keeps_other_bits(w: u32, index: u8, flag: bool, other: u8)
    requires
        index < 32,
        other < 32,
        other != index,
    ensures
        bit_at(with_bit(w, index as u32, flag), other as u32) == bit_at(w, other as u32),
{
    lemma_with_bit_at(w, index as u32, flag, other as u32);
}

/// Reading back a range just written gives the value written, cut to the range's
/// width; a value that fits the range comes back unchanged.
pub proof fn lemma_range_of_set_range(w: u32, start: u8, end: u8, v: u32)
    requires
        valid_range(start, end),
    ensures
        field(with_field(w, start, end, v), start, end) == v & low_mask(range_len(start, end)),
        fits_range(v, start, end) ==> field(with_field(w, start, end, v), start, end) == v,
{
    let s = start as u32;
    let n = range_len(start, end);
    assert(n == end - start + 1);
    assert(((((w & !(low_mask(n) << s)) | (v << s)) >> s) & low_mask(n)) == v & low_mask(n))
        by (bit_vector)
        requires
            s < 32,
            1 < n,
            s + n <= 32,
    ;
    assert(v <= low_mask(n) ==> v & low_mask(n) == v) by (bit_vector)
        requires
            1 < n,
            n <= 32,
    ;
}

/// Writing a value that fits the range `start..end` leaves every bit outside the
/// range as it was.
pub proof fn lemma_set_range_keeps_outside_bits(w: u32, start: u8, end: u8, v: u32, k: u8)
    requires
        valid_range(start, end),
        fits_range(v, start, end),
        k < 32,
        k < start || end < k,
    ensures
        bit_at(with_field(w, start, end, v), k as u32) == bit_at(w, k as u32),
{
    let s = start as u32;
    let e = end as u32;
    let n = range_len(start, end);
    let j = k as u32;
    lemma_with_field_bit_at(w, start, end, v, j);
    assert(n == e - s + 1);
    assert(e < j ==> !bit_at(v, (j - s) as u32)) by (bit_vector)
        requires
            s < e,
            e < 32,
            j < 32,
            n == e - s + 1,
            v <= low_mask(n),
    ;
}

} // verus!
