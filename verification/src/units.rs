//! Fixed-point units shared by the colour model.
//!
//! Fractions of the unit interval are stored in millionths, angles in
//! micro-degrees. Both are exact integers, so every statement about a colour
//! is a statement of integer arithmetic.

use vstd::prelude::*;

verus! {

/// The fraction one, in millionths.
pub const MILLION: i64 = 1_000_000;

/// Sixty degrees, in micro-degrees: the width of one sector of the hue circle.
pub const SIXTH_TURN: i64 = 60_000_000;

/// A full turn of the hue circle, in micro-degrees.
pub const FULL_TURN: i64 = 360_000_000;

/// Micro-degrees that one millionth of a turn spans.
pub const TURN_PER_MILLIONTH: i64 = 360;

/// `a / b` rounded to the nearest integer, halves upwards (for `a >= 0`, `b > 0`).
pub open spec fn div_round(a: int, b: int) -> int {
    (2 * a + b) / (2 * b)
}

/// `x` moved to the nearest point of the unit interval, in millionths.
pub open spec fn clamp_unit(x: int) -> int {
    if x < 0 {
        0
    } else if x > MILLION as int {
        MILLION as int
    } else {
        x
    }
}

/// An angle in micro-degrees reduced into `[0, FULL_TURN)`.
pub open spec fn wrap_turn(h: int) -> int {
    h % (FULL_TURN as int)
}

/// A rounded quotient lies between the bounds of the ratio.
pub proof fn lemma_div_round_bounds(a: int, b: int, k: int)
    requires
        0 <= a,
        0 < b,
        0 <= k,
        a <= k * b,
    ensures
        0 <= div_round(a, b) <= k,
{
    assert(0 <= (2 * a + b) / (2 * b)) by (nonlinear_arith)
        requires
            0 <= a,
            0 < b,
    ;
    assert((2 * a + b) / (2 * b) <= k) by (nonlinear_arith)
        requires
            0 <= a,
            0 < b,
            0 <= k,
            a <= k * b,
    ;
}

/// Rounded division of two machine integers.
pub(crate) fn div_round_u128(a: u128, b: u128) -> (q: u128)
    requires
        0 < b,
        2 * a + b <= u128::MAX,
        2 * b <= u128::MAX,
    ensures
        q == div_round(a as int, b as int),
{
    (2 * a + b) / (2 * b)
}

/// Clamps a fraction in millionths into the unit interval.
pub fn clamp_to_unit(x: i64) -> (r: i64)
    ensures
        r == clamp_unit(x as int),
        0 <= r <= MILLION,
{
    if x < 0 {
        0
    } else if x > MILLION {
        MILLION
    } else {
        x
    }
}

/// Reduces an angle in micro-degrees into `[0, FULL_TURN)`.
pub fn wrap_to_turn(h: i64) -> (r: i64)
    ensures
        r == wrap_turn(h as int),
        0 <= r < FULL_TURN,
{
    match h.checked_rem_euclid(FULL_TURN) {
        Some(m) => m,
        None => 0,
    }
}

} // verus!
