//! The mathematical model of words, bits and bit ranges.
//!
//! A range `start..end` names the bits `start` through `end`, both included;
//! it is valid when `start < end < 32`.
use vstd::prelude::*;

verus! {

/// Whether bit `i` of `w` is one.
pub open spec fn bit_at(w: u32, i: u32) -> bool {
    (w >> i) & 1u32 == 1u32
}

/// The word whose `n` lowest bits are one and whose other bits are zero
/// (all ones for `n >= 32`).
pub open spec fn low_mask(n: u32) -> u32 {
    if n < 32 {
        !(0xffff_ffffu32 << n)
    } else {
        0xffff_ffffu32
    }
}

/// Whether `start..end` is a valid range: `start < end` and `end` a bit index.
pub open spec fn valid_range(start: u8, end: u8) -> bool {
    start < end && end < 32
}

/// The number of bits in the range `start..end` (bits `start` through `end`).
pub open spec fn range_len(start: u8, end: u8) -> u32 {
    (end - start + 1) as u32
}

/// Whether `v` fits in the width of the range `start..end`: `v < 2^(end - start + 1)`.
pub open spec fn fits_range(v: u32, start: u8, end: u8) -> bool {
    v <= low_mask(range_len(start, end))
}

/// `w` with bit `i` forced to `f`.
pub open spec fn with_bit(w: u32, i: u32, f: bool) -> u32 {
    if f {
        w | (1u32 << i)
    } else {
        w & !(1u32 << i)
    }
}

/// The bits `start` through `end` of `w`, moved down to bit 0.
pub open spec fn field(w: u32, start: u8, end: u8) -> u32 {
    (w >> start as u32) & low_mask(range_len(start, end))
}

/// `w` with bits `start` through `end` cleared, then `v << start` or-ed in.
pub open spec fn with_field(w: u32, start: u8, end: u8, v: u32) -> u32 {
    (w & !(low_mask(range_len(start, end)) << start as u32)) | (v << start as u32)
}

/// Bit `j` of `with_bit(w, i, f)` is `f` at `i` and bit `j` of `w` elsewhere.
pub proof fn lemma_with_bit_at(w: u32, i: u32, f: bool, j: u32)
    requires
        i < 32,
        j < 32,
    ensures
        bit_at(with_bit(w, i, f), j) == if j == i {
            f
        } else {
            bit_at(w, j)
        },
{
    if f {
        assert(bit_at(w | (1u32 << i), j) == if j == i {
            true
        } else {
            bit_at(w, j)
        }) by (bit_vector)
            requires
                i < 32,
                j < 32,
        ;
    } else {
        assert(bit_at(w & !(1u32 << i), j) == if j == i {
            false
        } else {
            bit_at(w, j)
        }) by (bit_vector)
            requires
                i < 32,
                j < 32,
        ;
    }
}

/// Bit `k` of `field(w, start, end)` is bit `start + k` of `w` for `k` inside the
/// range's length, and zero above it.
pub proof fn lemma_field_bit_at(w: u32, start: u8, end: u8, k: u32)
    requires
        valid_range(start, end),
        k < 32,
    ensures
        bit_at(field(w, start, end), k) == (k < range_len(start, end) && bit_at(
            w,
            (start as u32 + k) as u32,
        )),
{
    let s = start as u32;
    let n = range_len(start, end);
    assert(bit_at((w >> s) & low_mask(n), k) == (k < n && bit_at(w, (s + k) as u32)))
        by (bit_vector)
        requires
            s < 32,
            1 < n,
            s + n <= 32,
            k < 32,
    ;
}

/// Bit `k` of `with_field(w, start, end, v)`: below the range it is bit `k` of `w`;
/// inside it, bit `k - start` of `v`; above it, bit `k` of `w` or-ed with bit
/// `k - start` of `v`.
pub proof fn lemma_with_field_bit_at(w: u32, start: u8, end: u8, v: u32, k: u32)
    requires
        valid_range(start, end),
        k < 32,
    ensures
        bit_at(with_field(w, start, end, v), k) == if k < start {
            bit_at(w, k)
        } else if k <= end {
            bit_at(v, (k - start) as u32)
        } else {
            bit_at(w, k) || bit_at(v, (k - start) as u32)
        },
{
    let s = start as u32;
    let e = end as u32;
    let n = range_len(start, end);
    assert(n == e - s + 1);
    assert(bit_at((w & !(low_mask(n) << s)) | (v << s), k) == if k < s {
        bit_at(w, k)
    } else if k <= e {
        bit_at(v, (k - s) as u32)
    } else {
        bit_at(w, k) || bit_at(v, (k - s) as u32)
    }) by (bit_vector)
        requires
            s < e,
            e < 32,
            n == e - s + 1,
            k < 32,
    ;
}

} // verus!
