//! Fixed-point numbers: a signed integer that counts units of
//! `1 / SCALE`. All physical quantities are held in this form. The
//! integer is 128 bits wide, so that products and quotients of stored
//! values can be formed exactly before they are rounded.

use vstd::prelude::*;
use crate::arith::{abs, floor_div, lemma_div_bound_by, lemma_mul_bound,
    lemma_round_div_is_nearest, round_div, round_div_wide, HALF_MAX, WIDE_MAX};

verus! {

/// Number of raw units in one whole (2^24).
pub const SCALE: i128 = 16_777_216;

/// Largest raw magnitude that simulation state may hold (2^49, about
/// thirty-three million whole units). It is as large as 128-bit
/// intermediates allow: the widest of them is the product of three
/// stored values, scaled once.
pub const LIMIT: i128 = 562_949_953_421_312;

/// Largest magnitude of the fixed-point product of two stored values
/// (2^74, `LIMIT * LIMIT / SCALE`).
pub const PRODUCT_LIMIT: i128 = 18_889_465_931_478_580_854_784;

/// A fixed-point number with 24 fractional bits.
#[derive(Clone, Copy, Debug, PartialEq, Eq, Structural)]
pub struct Fixed {
    pub raw: i128,
}

impl View for Fixed {
    type V = int;

    /// The raw count of `1 / SCALE` units.
    open spec fn view(&self) -> int {
        self.raw as int
    }
}

/// Whether a raw value may be stored in simulation state.
pub open spec fn in_range(x: int) -> bool {
    -LIMIT <= x <= LIMIT
}

/// Product of two fixed-point numbers, rounded down.
pub open spec fn scaled_mul(a: int, b: int) -> int {
    (a * b) / (SCALE as int)
}

/// Half the product of two fixed-point numbers, rounded down.
pub open spec fn half_mul(a: int, b: int) -> int {
    (a * b) / (2 * SCALE)
}

/// Quotient of two fixed-point numbers, rounded to the nearest raw unit;
/// `b` is not zero.
pub open spec fn scaled_div(a: int, b: int) -> int {
    if b > 0 {
        round_div(a * SCALE, b)
    } else {
        round_div((-a) * SCALE, -b)
    }
}

/// The fixed-point quotient is within half a raw unit of the exact
/// quotient: `|q * b - a * SCALE| <= |b| / 2`.
pub proof fn lemma_scaled_div_is_nearest(a: int, b: int)
    requires
        b != 0,
    ensures
        2 * abs(scaled_div(a, b) * b - a * SCALE) <= abs(b),
{
    let q = scaled_div(a, b);
    if b > 0 {
        lemma_round_div_is_nearest(a * SCALE, b);
    } else {
        lemma_round_div_is_nearest((-a) * SCALE, -b);
        assert(q * (-b) - (-a) * SCALE == -(q * b - a * SCALE)) by (nonlinear_arith);
    }
}

/// Bounds on the product of a stored value with one that is at most `k`
/// times as large as a stored value, exactly and after scaling.
pub proof fn lemma_scaled_mul_bound(a: int, b: int, k: int)
    requires
        k >= 1,
        in_range(a),
        -k * LIMIT <= b <= k * LIMIT,
    ensures
        -k * (LIMIT * LIMIT) <= a * b <= k * (LIMIT * LIMIT),
        -k * PRODUCT_LIMIT <= scaled_mul(a, b) <= k * PRODUCT_LIMIT,
        -k * PRODUCT_LIMIT <= half_mul(a, b) <= k * PRODUCT_LIMIT,
{
    lemma_mul_bound(a, b, LIMIT as int, k * LIMIT);
    assert(LIMIT * (k * LIMIT) == k * (LIMIT * LIMIT)) by (nonlinear_arith);
    assert(LIMIT * LIMIT == PRODUCT_LIMIT * SCALE);
    lemma_div_bound_by(a * b, SCALE as int, k * PRODUCT_LIMIT);
    lemma_div_bound_by(a * b, 2 * SCALE, k * PRODUCT_LIMIT);
}

impl Fixed {
    /// The number with the given raw count.
    pub fn from_raw(raw: i128) -> (r: Fixed)
        ensures
            r@ == raw,
    {
        Fixed { raw }
    }

    /// The raw count.
    pub fn raw(self) -> (r: i128)
        ensures
            r == self@,
    {
        self.raw
    }

    /// Zero.
    pub fn zero() -> (r: Fixed)
        ensures
            r@ == 0,
    {
        Fixed { raw: 0 }
    }

    /// The whole number `n`.
    pub fn from_int(n: i32) -> (r: Fixed)
        ensures
            r@ == n * SCALE,
    {
        let w: i128 = n as i128;
        Fixed { raw: w * SCALE }
    }

    /// The fraction `num / den`, rounded down to the nearest raw unit.
    pub fn from_ratio(num: i32, den: i32) -> (r: Fixed)
        requires
            den > 0,
        ensures
            r@ == (num * SCALE) / (den as int),
    {
        let n: i128 = (num as i128) * SCALE;
        Fixed { raw: floor_div(n, den as i128) }
    }

    /// Whether the value may be stored in simulation state.
    pub fn is_in_range(self) -> (b: bool)
        ensures
            b == in_range(self@),
    {
        -LIMIT <= self.raw && self.raw <= LIMIT
    }
}

/// Whether a raw value may be stored in simulation state.
pub fn fits(x: i128) -> (b: bool)
    ensures
        b == in_range(x as int),
{
    -LIMIT <= x && x <= LIMIT
}

/// Fixed-point product of two raw values.
pub fn mul_wide(a: i128, b: i128) -> (r: i128)
    requires
        -WIDE_MAX <= a * b <= WIDE_MAX,
    ensures
        r == scaled_mul(a as int, b as int),
        -WIDE_MAX <= r <= WIDE_MAX,
{
    let p: i128 = a * b;
    floor_div(p, SCALE)
}

/// Half the fixed-point product of two raw values.
pub fn half_mul_wide(a: i128, b: i128) -> (r: i128)
    requires
        -WIDE_MAX <= a * b <= WIDE_MAX,
    ensures
        r == half_mul(a as int, b as int),
        -WIDE_MAX <= r <= WIDE_MAX,
{
    let p: i128 = a * b;
    floor_div(p, 2 * SCALE)
}

/// Fixed-point quotient of two raw values, to the nearest raw unit.
pub fn div_wide(a: i128, b: i128) -> (r: i128)
    requires
        b != 0,
        -HALF_MAX <= b <= HALF_MAX,
        -HALF_MAX <= a * SCALE <= HALF_MAX,
    ensures
        r == scaled_div(a as int, b as int),
        2 * abs(r * b - a * SCALE) <= abs(b as int),
        -WIDE_MAX <= r <= WIDE_MAX,
{
    proof {
        lemma_scaled_div_is_nearest(a as int, b as int);
    }
    if b > 0 {
        let n: i128 = a * SCALE;
        round_div_wide(n, b)
    } else {
        let n: i128 = -(a * SCALE);
        round_div_wide(n, -b)
    }
}

} // verus!
