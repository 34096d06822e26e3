//! Bit and bit-field accessors on 32-bit words.
//!
//! Every operation takes a word by value and returns a new word (or a `bool`);
//! nothing is mutated in place. Bit index 0 is the least significant bit.
//!
//! A range `start..end` names the bits `start` through `end`, `end` included, and
//! needs `start < end < 32`: a range spans two bits at least. `set_range` keeps the
//! caller responsible for a value that fits the range; it does not mask it.
//! Out-of-range indices and malformed ranges are excluded by the preconditions.
use vstd::prelude::*;

pub mod model;
pub mod width;
pub mod laws;

pub use core::ops::Range;
pub use width::BitWidth;
use model::{
    bit_at, field, lemma_field_bit_at, lemma_with_bit_at, lemma_with_field_bit_at, low_mask,
    range_len, valid_range, with_bit, with_field,
};

verus! {

/// Returns whether the bit at `index` is set in `input`.
pub fn bit(input: u32, index: u8) -> (r: bool)
    requires
        index < 32,
    ensures
        r == bit_at(input, index as u32),
{
    let r = input & (1u32 << index) != 0;
    proof {
        let i = index as u32;
        assert(input & (1u32 << i) != 0 <==> (input >> i) & 1u32 == 1u32) by (bit_vector)
            requires
                i < 32,
        ;
    }
    r
}

/// Returns `input` with the bit at `index` forced to `value`; the other bits are kept.
///
/// The write is branchless: a word that is all ones when `value` holds and all zeros
/// otherwise is xor-ed with `input`, and only the target bit of that difference is
/// xor-ed back into `input`.
pub fn set(input: u32, index: u8, value: bool) -> (r: u32)
    requires
        index < 32,
    ensures
        r == with_bit(input, index as u32, value),
        forall|j: u32|
            j < 32 ==> #[trigger] bit_at(r, j) == if j == index as u32 {
                value
            } else {
                bit_at(input, j)
            },
{
    let fill = 0u32.wrapping_sub(value as u32);
    let mask = fill ^ input;
    let r = input ^ (mask & (1u32 << index));
    proof {
        let i = index as u32;
        if value {
            assert(fill == 0xffff_ffffu32);
            assert(input ^ ((0xffff_ffffu32 ^ input) & (1u32 << i)) == input | (1u32 << i))
                by (bit_vector);
        } else {
            assert(fill == 0u32);
            assert(input ^ ((0u32 ^ input) & (1u32 << i)) == input & !(1u32 << i))
                by (bit_vector);
        }
        assert forall|j: u32| j < 32 implies #[trigger] bit_at(r, j) == if j == i {
            value
        } else {
            bit_at(input, j)
        } by {
            lemma_with_bit_at(input, i, value, j);
        }
    }
    r
}

/// Returns the bits `r.start` through `r.end` of `input`, moved down so that bit
/// `r.start` lands at bit 0; the higher bits of the result are zero.
///
/// `r.end` is the last bit included, so a range holds at least two bits and bit 31
/// can end a range.
pub fn range(input: u32, r: Range<u8>) -> (res: u32)
    requires
        valid_range(r.start, r.end),
    ensures
        res == field(input, r.start, r.end),
        forall|k: u32|
            k < 32 ==> #[trigger] bit_at(res, k) == (k < range_len(r.start, r.end) && bit_at(
                input,
                (r.start as u32 + k) as u32,
            )),
{
    let shift_left = u32::width() - (r.end + 1);
    let shift_right = r.start + shift_left;
    let res = (input << shift_left) >> shift_right;
    proof {
        let s = r.start as u32;
        let e = r.end as u32;
        let sl = shift_left as u32;
        let sr = shift_right as u32;
        let n = range_len(r.start, r.end);
        assert(sl == 31 - e && sr == s + sl && n == e - s + 1);
        assert((input << sl) >> sr == (input >> s) & low_mask(n)) by (bit_vector)
            requires
                s < e,
                e < 32,
                sl == 31 - e,
                sr == s + sl,
                n == e - s + 1,
        ;
        assert forall|k: u32| k < 32 implies #[trigger] bit_at(res, k) == (k < n && bit_at(
            input,
            (s + k) as u32,
        )) by {
            lemma_field_bit_at(input, r.start, r.end, k);
        }
    }
    res
}

/// Returns `input` with the bits `r.start` through `r.end` replaced by `value`.
///
/// `value` is shifted into place unmasked: the caller keeps it within the range's
/// width (`value < 2^(r.end - r.start + 1)`), or its higher bits are or-ed into the
/// bits above `r.end`.
pub fn set_range(input: u32, r: Range<u8>, value: u32) -> (res: u32)
    requires
        valid_range(r.start, r.end),
    ensures
        res == with_field(input, r.start, r.end, value),
        forall|k: u32|
            k < 32 ==> #[trigger] bit_at(res, k) == if k < r.start {
                bit_at(input, k)
            } else if k <= r.end {
                bit_at(value, (k - r.start) as u32)
            } else {
                bit_at(input, k) || bit_at(value, (k - r.start) as u32)
            },
{
    let ones = range(u32::MAX, r.start..r.end);
    let mask = !(ones << r.start);
    let res = input & mask | value << r.start;
    proof {
        let n = range_len(r.start, r.end);
        let s = r.start as u32;
        assert(n == r.end - r.start + 1);
        assert(n <= 32 && s + n <= 32);
        assert((0xffff_ffffu32 >> s) & low_mask(n) == low_mask(n)) by (bit_vector)
            requires
                s + n <= 32,
        ;
        assert forall|k: u32| k < 32 implies #[trigger] bit_at(res, k) == if k < s {
            bit_at(input, k)
        } else if k <= r.end {
            bit_at(value, (k - s) as u32)
        } else {
            bit_at(input, k) || bit_at(value, (k - s) as u32)
        } by {
            lemma_with_field_bit_at(input, r.start, r.end, value, k);
        }
    }
    res
}

} // verus!
