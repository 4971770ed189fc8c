//! Fixed-point encoding of plane coordinates.
//!
//! A coordinate is stored as an `i64` carrying 24 fractional bits: the raw
//! integer `r` denotes the rational number `r / FIXED_ONE`. Products of two
//! raw values carry 48 fractional bits and are brought back to 24 with
//! [`scale_down`], which rounds toward zero.

use vstd::prelude::*;

verus! {

/// The raw value that denotes 1 in the fixed-point encoding (2^24).
pub const FIXED_ONE: i64 = 16777216;

/// Largest raw magnitude a component may have on entry to one squaring step
/// (2^42, about 260000 plane units). Keeping components at or below this
/// bound keeps every intermediate of the step inside `i64` after the product
/// is rescaled, and it is far beyond any point the escape test keeps alive.
pub const STEP_LIMIT: i64 = 4398046511104;

/// Removes the extra 24 fractional bits that a product of two raw values
/// carries, rounding toward zero.
pub open spec fn scale_down(x: int) -> int {
    if x >= 0 {
        x / (FIXED_ONE as int)
    } else {
        -((-x) / (FIXED_ONE as int))
    }
}

/// Rescaling a product never enlarges it: a product bounded by
/// `b * FIXED_ONE` rescales to a result bounded by `b`.
pub proof fn lemma_scale_down_bound(x: int, m: int, b: int)
    requires
        0 <= b,
        -m <= x <= m,
        m <= b * (FIXED_ONE as int),
    ensures
        -b <= scale_down(x) <= b,
{
    let s = FIXED_ONE as int;
    vstd::arithmetic::div_mod::lemma_div_by_multiple(b, s);
    if x >= 0 {
        vstd::arithmetic::div_mod::lemma_div_is_ordered(x, b * s, s);
        vstd::arithmetic::div_mod::lemma_div_pos_is_pos(x, s);
    } else {
        vstd::arithmetic::div_mod::lemma_div_is_ordered(-x, b * s, s);
        vstd::arithmetic::div_mod::lemma_div_pos_is_pos(-x, s);
    }
}

/// Exec counterpart of [`scale_down`] on the wide intermediate type that
/// holds a full product of two raw `i64` values.
pub fn scale_down_wide(x: i128) -> (r: i128)
    ensures
        r == scale_down(x as int),
{
    x / (FIXED_ONE as i128)
}

} // verus!
