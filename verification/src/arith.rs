//! Integer arithmetic underneath the fixed-point numbers: floor and ceiling
//! division on wide integers, the integer square root, and the bounds that
//! keep 128-bit intermediates from overflowing.

use vstd::prelude::*;
use vstd::arithmetic::div_mod::lemma_fundamental_div_mod;
use vstd::arithmetic::div_mod::lemma_fundamental_div_mod_converse;

verus! {

/// Largest magnitude the wide helpers accept: 2^126.
pub const WIDE_MAX: i128 = 0x4000_0000_0000_0000_0000_0000_0000_0000;

/// Largest magnitude that `round_div_wide` accepts: 2^124.
pub const HALF_MAX: i128 = 0x1000_0000_0000_0000_0000_0000_0000_0000;

/// Absolute value of a mathematical integer.
pub open spec fn abs(x: int) -> int {
    if x >= 0 { x } else { -x }
}

/// Smaller of two mathematical integers.
pub open spec fn min(a: int, b: int) -> int {
    if a <= b { a } else { b }
}

/// Quotient rounded towards positive infinity, for a positive divisor.
pub open spec fn ceil_div(n: int, d: int) -> int {
    -((-n) / d)
}

/// Quotient rounded to the nearest integer, halves upwards, for a
/// positive divisor.
pub open spec fn round_div(n: int, d: int) -> int {
    (2 * n + d) / (2 * d)
}

/// Integer square root: the largest `r` with `r * r <= n`.
pub open spec fn isqrt(n: nat) -> nat
    decreases n,
{
    if n == 0 {
        0
    } else {
        let r = isqrt((n - 1) as nat);
        if (r + 1) * (r + 1) <= n { r + 1 } else { r }
    }
}

/// `isqrt(n)` squared does not exceed `n`, and the next square does.
pub proof fn lemma_isqrt_bounds(n: nat)
    ensures
        isqrt(n) * isqrt(n) <= n,
        n < (isqrt(n) + 1) * (isqrt(n) + 1),
    decreases n,
{
    if n > 0 {
        lemma_isqrt_bounds((n - 1) as nat);
        let r = isqrt((n - 1) as nat);
        let q = isqrt(n);
        assert(q * q <= n && n < (q + 1) * (q + 1)) by (nonlinear_arith)
            requires
                r * r <= n - 1,
                n - 1 < (r + 1) * (r + 1),
                q == (if (r + 1) * (r + 1) <= n { r + 1 } else { r }),
        ;
    } else {
        assert(isqrt(n) == 0);
        assert(0 * 0 == 0 && (0 + 1) * (0 + 1) == 1) by (nonlinear_arith);
    }
}

/// Only one number sits between the two squares that bracket `n`.
pub proof fn lemma_isqrt_unique(n: nat, r: nat)
    requires
        r * r <= n,
        n < (r + 1) * (r + 1),
    ensures
        r == isqrt(n),
{
    lemma_isqrt_bounds(n);
    let q = isqrt(n);
    if r < q {
        assert((r + 1) * (r + 1) <= q * q) by (nonlinear_arith)
            requires
                r + 1 <= q,
        ;
    } else if q < r {
        assert((q + 1) * (q + 1) <= r * r) by (nonlinear_arith)
            requires
                q + 1 <= r,
        ;
    }
}

/// A product is bounded by the product of the bounds on its factors.
pub proof fn lemma_mul_bound(a: int, b: int, ba: int, bb: int)
    by (nonlinear_arith)
    requires
        -ba <= a <= ba,
        -bb <= b <= bb,
    ensures
        -(ba * bb) <= a * b <= ba * bb,
{
}

/// Floor division lies within the magnitude of the numerator.
pub proof fn lemma_div_bound(n: int, d: int, bn: int)
    requires
        d > 0,
        -bn <= n <= bn,
    ensures
        -bn <= n / d <= bn,
{
    lemma_fundamental_div_mod(n, d);
    let q = n / d;
    let r = n % d;
    assert(-bn <= q <= bn) by (nonlinear_arith)
        requires
            n == d * q + r,
            0 <= r < d,
            d > 0,
            -bn <= n <= bn,
    ;
}

/// Floor division by `d` of a numerator within `b * d` lies within `b`.
pub proof fn lemma_div_bound_by(n: int, d: int, b: int)
    requires
        d > 0,
        b >= 0,
        -(b * d) <= n <= b * d,
    ensures
        -b <= n / d <= b,
{
    lemma_fundamental_div_mod(n, d);
    let q = n / d;
    let r = n % d;
    assert(-b <= q <= b) by (nonlinear_arith)
        requires
            n == d * q + r,
            0 <= r < d,
            d > 0,
            b >= 0,
            -(b * d) <= n <= b * d,
    ;
}

/// What pins a floor quotient down: `q * d <= n < (q + 1) * d`.
pub proof fn lemma_div_is(n: int, d: int, q: int)
    requires
        d > 0,
        q * d <= n < (q + 1) * d,
    ensures
        n / d == q,
{
    assert((q + 1) * d == q * d + d) by (nonlinear_arith);
    lemma_fundamental_div_mod_converse(n, d, q, n - q * d);
}

/// The floor quotient brackets the numerator.
pub proof fn lemma_div_brackets(n: int, d: int)
    requires
        d > 0,
    ensures
        (n / d) * d <= n < (n / d) * d + d,
{
    lemma_fundamental_div_mod(n, d);
    assert((n / d) * d == d * (n / d)) by (nonlinear_arith);
}

/// The rounded quotient is within half a unit of the exact one.
pub proof fn lemma_round_div_is_nearest(n: int, d: int)
    requires
        d > 0,
    ensures
        2 * abs(round_div(n, d) * d - n) <= d,
{
    let q = round_div(n, d);
    lemma_div_brackets(2 * n + d, 2 * d);
    assert(q * (2 * d) == 2 * (q * d)) by (nonlinear_arith);
}

/// A rounded quotient has the sign of its numerator, or is zero.
pub proof fn lemma_round_div_sign(n: int, d: int)
    requires
        d > 0,
    ensures
        n >= 0 ==> round_div(n, d) >= 0,
        n <= 0 ==> round_div(n, d) <= 0,
{
    let q = round_div(n, d);
    lemma_div_brackets(2 * n + d, 2 * d);
    assert(n >= 0 ==> q >= 0) by (nonlinear_arith)
        requires
            2 * n + d < q * (2 * d) + 2 * d,
            d > 0,
    ;
    assert(n <= 0 ==> q <= 0) by (nonlinear_arith)
        requires
            q * (2 * d) <= 2 * n + d,
            d > 0,
    ;
}

/// Floor division of a wide integer by a positive one.
pub fn floor_div(n: i128, d: i128) -> (q: i128)
    requires
        d > 0,
        -WIDE_MAX <= n <= WIDE_MAX,
    ensures
        q == n / d,
        -WIDE_MAX <= q <= WIDE_MAX,
{
    proof {
        lemma_div_bound(n as int, d as int, WIDE_MAX as int);
    }
    if n >= 0 {
        n / d
    } else {
        let m: i128 = -n;
        let t: i128 = m / d;
        proof {
            lemma_div_brackets(m as int, d as int);
            lemma_div_bound(m as int, d as int, WIDE_MAX as int);
        }
        let back: i128 = t * d;
        if back == m {
            proof {
                assert((-t) * d == -(t * d) && (-t + 1) * d == -(t * d) + d) by (nonlinear_arith);
                lemma_div_is(n as int, d as int, -(t as int));
            }
            -t
        } else {
            proof {
                assert((-t - 1) * d == -(t * d) - d && (-t - 1 + 1) * d == -(t * d))
                    by (nonlinear_arith);
                lemma_div_is(n as int, d as int, -(t as int) - 1);
            }
            -t - 1
        }
    }
}

/// Quotient of a wide integer by a positive one, rounded up.
pub fn ceil_div_wide(n: i128, d: i128) -> (q: i128)
    requires
        d > 0,
        -WIDE_MAX <= n <= WIDE_MAX,
    ensures
        q == ceil_div(n as int, d as int),
        -WIDE_MAX <= q <= WIDE_MAX,
{
    let m: i128 = -n;
    let f: i128 = floor_div(m, d);
    -f
}

/// Quotient of a wide integer by a positive one, rounded to nearest.
pub fn round_div_wide(n: i128, d: i128) -> (q: i128)
    requires
        d > 0,
        -HALF_MAX <= n <= HALF_MAX,
        d <= HALF_MAX,
    ensures
        q == round_div(n as int, d as int),
        2 * abs(q * d - n) <= d,
        -WIDE_MAX <= q <= WIDE_MAX,
{
    proof {
        lemma_round_div_is_nearest(n as int, d as int);
    }
    floor_div(2 * n + d, 2 * d)
}

/// Integer square root of a non-negative wide integer.
pub fn isqrt_wide(n: i128) -> (r: i128)
    requires
        0 <= n < WIDE_MAX,
    ensures
        r == isqrt(n as nat),
        0 <= r < 0x8000_0000_0000_0000,
{
    let mut lo: i128 = 0;
    let mut hi: i128 = 0x8000_0000_0000_0000;
    assert(0x8000_0000_0000_0000int * 0x8000_0000_0000_0000int == WIDE_MAX) by (nonlinear_arith);
    while hi - lo > 1
        invariant
            0 <= lo < hi <= 0x8000_0000_0000_0000,
            lo * lo <= n < hi * hi,
        decreases hi - lo,
    {
        let mid: i128 = lo + (hi - lo) / 2;
        proof {
            lemma_mul_bound(mid as int, mid as int, 0x8000_0000_0000_0000, 0x8000_0000_0000_0000);
        }
        if mid * mid <= n {
            lo = mid;
        } else {
            hi = mid;
        }
    }
    proof {
        lemma_isqrt_unique(n as nat, lo as nat);
    }
    lo
}

} // verus!
