//! Fixed-point numeric core.
//!
//! A coordinate is an `i64` counting thousandths of a millimeter, an angle an
//! `i64` counting thousandths of a radian. Scaling a product back down uses
//! `div_round`: division rounded to the nearest integer, ties away from zero.
//! That rounding is symmetric (`div_round(-n, d) == -div_round(n, d)`), which
//! the drawing-exchange emitter depends on: it mirrors the vertical axis by
//! negating coordinates before sampling, and symmetry makes the sampled chain
//! the exact mirror image of the world-space chain.

use vstd::prelude::*;

verus! {

/// Largest magnitude a stored coordinate, radius or scalar may have:
/// two million millimeters, in thousandths.
pub const COORD_LIMIT: i64 = 2_000_000_000;

/// Largest magnitude a stored angle may have: ten thousand radians,
/// in thousandths.
pub const ANGLE_LIMIT: i64 = 10_000_000;

/// Magnitude of an integer.
pub open spec fn abs_int(n: int) -> int {
    if n >= 0 {
        n
    } else {
        -n
    }
}

/// Division of `n` by `d`, rounded to the nearest integer with ties away
/// from zero.
pub open spec fn div_round(n: int, d: int) -> int
    recommends
        d > 0,
{
    if n >= 0 {
        (2 * n + d) / (2 * d)
    } else {
        -((2 * (-n) + d) / (2 * d))
    }
}

/// The rounding is symmetric around zero.
pub proof fn lemma_div_round_symmetric(n: int, d: int)
    requires
        d > 0,
    ensures
        div_round(-n, d) == -div_round(n, d),
{
    if n == 0 {
        assert(div_round(0, d) == d / (2 * d));
        vstd::arithmetic::div_mod::lemma_fundamental_div_mod_converse(d, 2 * d, 0, d);
    } else if n > 0 {
        assert(-n < 0);
        assert(div_round(-n, d) == -((2 * n + d) / (2 * d)));
    } else {
        assert(-n > 0);
        assert(div_round(-n, d) == (2 * (-n) + d) / (2 * d));
    }
}

/// The rounded quotient of a nonnegative dividend sits next to the
/// floored one: `n/d <= div_round(n, d) <= n/d + 1`.
pub proof fn lemma_div_round_bounds(n: int, d: int)
    requires
        d > 0,
        n >= 0,
    ensures
        n / d <= div_round(n, d) <= n / d + 1,
{
    let q = n / d;
    let r = n % d;
    vstd::arithmetic::div_mod::lemma_fundamental_div_mod(n, d);
    vstd::arithmetic::div_mod::lemma_mod_bound(n, d);
    assert(n == d * q + r);
    if 2 * r + d < 2 * d {
        assert(2 * n + d == q * (2 * d) + (2 * r + d)) by (nonlinear_arith)
            requires
                n == d * q + r,
        ;
        vstd::arithmetic::div_mod::lemma_fundamental_div_mod_converse(
            2 * n + d,
            2 * d,
            q,
            2 * r + d,
        );
    } else {
        assert(2 * n + d == (q + 1) * (2 * d) + (2 * r - d)) by (nonlinear_arith)
            requires
                n == d * q + r,
        ;
        vstd::arithmetic::div_mod::lemma_fundamental_div_mod_converse(
            2 * n + d,
            2 * d,
            q + 1,
            2 * r - d,
        );
    }
}

/// The rounded quotient never exceeds the dividend's magnitude.
pub proof fn lemma_div_round_magnitude(n: int, d: int)
    requires
        d > 0,
    ensures
        -abs_int(n) <= div_round(n, d) <= abs_int(n),
        0 <= n ==> 0 <= div_round(n, d),
        n < 0 ==> div_round(n, d) <= 0,
{
    let m = abs_int(n);
    lemma_div_round_bounds(m, d);
    vstd::arithmetic::div_mod::lemma_div_pos_is_pos(2 * m + d, 2 * d);
    assert((2 * m + d) / (2 * d) <= m) by {
        assert(2 * m + d <= m * (2 * d) + (2 * d - 1)) by (nonlinear_arith)
            requires
                m >= 0,
                d > 0,
        ;
        vstd::arithmetic::div_mod::lemma_div_is_ordered(2 * m + d, m * (2 * d) + (2 * d - 1), 2 * d);
        vstd::arithmetic::div_mod::lemma_fundamental_div_mod_converse(
            m * (2 * d) + (2 * d - 1),
            2 * d,
            m,
            2 * d - 1,
        );
    }
    if n < 0 {
        assert(div_round(n, d) == -((2 * m + d) / (2 * d)));
    }
}

/// If `|n| <= b * d` then `|div_round(n, d)| <= b + 1`.
pub proof fn lemma_div_round_quotient_bound(n: int, d: int, b: int)
    requires
        d > 0,
        b >= 0,
        abs_int(n) <= b * d,
    ensures
        -b - 1 <= div_round(n, d) <= b + 1,
{
    let m = abs_int(n);
    lemma_div_round_bounds(m, d);
    assert(m / d <= b) by {
        vstd::arithmetic::div_mod::lemma_div_is_ordered(m, b * d, d);
        vstd::arithmetic::div_mod::lemma_fundamental_div_mod_converse(b * d, d, b, 0);
    }
    vstd::arithmetic::div_mod::lemma_div_pos_is_pos(m, d);
    vstd::arithmetic::div_mod::lemma_div_pos_is_pos(2 * m + d, 2 * d);
    if n < 0 {
        assert(div_round(n, d) == -((2 * m + d) / (2 * d)));
    }
}

/// Executable rounding division over wide intermediates.
pub fn div_round_i128(n: i128, d: i128) -> (r: i128)
    requires
        0 < d <= 0x2000_0000_0000_0000_0000_0000_0000_0000,
        -0x2000_0000_0000_0000_0000_0000_0000_0000 <= n
            <= 0x2000_0000_0000_0000_0000_0000_0000_0000,
    ensures
        r == div_round(n as int, d as int),
{
    proof {
        lemma_div_round_magnitude(n as int, d as int);
    }
    if n >= 0 {
        (2 * n + d) / (2 * d)
    } else {
        let m = -n;
        -((2 * m + d) / (2 * d))
    }
}

/// Rounding division for coordinate-sized values.
pub fn div_round_milli(n: i64, d: i64) -> (r: i64)
    requires
        0 < d,
    ensures
        r == div_round(n as int, d as int),
        -abs_int(n as int) <= r <= abs_int(n as int),
{
    proof {
        lemma_div_round_magnitude(n as int, d as int);
    }
    let wide = div_round_i128(n as i128, d as i128);
    wide as i64
}

/// Product of two fixed-point values, the second no larger than `scale`,
/// scaled back down by `scale` with rounding. The result stays within the
/// magnitude of `a`.
pub fn mul_div_round(a: i64, b: i64, scale: i64) -> (r: i64)
    requires
        0 < scale <= 0x1000_0000_0000_0000,
        abs_int(a as int) <= 0x1000_0000_0000_0000,
        abs_int(b as int) <= scale as int,
    ensures
        r == div_round(a as int * b as int, scale as int),
        -abs_int(a as int) - 1 <= r <= abs_int(a as int) + 1,
{
    proof {
        assert(-0x2000_0000_0000_0000_0000_0000_0000_0000 <= a as int * b as int
            <= 0x2000_0000_0000_0000_0000_0000_0000_0000) by (nonlinear_arith)
            requires
                abs_int(a as int) <= 0x1000_0000_0000_0000,
                abs_int(b as int) <= 0x1000_0000_0000_0000,
        ;
    }
    let p: i128 = (a as i128) * (b as i128);
    proof {
        assert(abs_int(p as int) <= abs_int(a as int) * scale as int) by (nonlinear_arith)
            requires
                p == a as int * b as int,
                abs_int(b as int) <= scale as int,
                scale > 0,
        ;
        lemma_div_round_quotient_bound(p as int, scale as int, abs_int(a as int));
    }
    let wide = div_round_i128(p, scale as i128);
    wide as i64
}

/// Division rounded to the nearest integer for a nonzero divisor of
/// either sign.
pub open spec fn div_round_signed(n: int, d: int) -> int
    recommends
        d != 0,
{
    if d > 0 {
        div_round(n, d)
    } else {
        div_round(-n, -d)
    }
}

/// Executable signed rounding division over wide intermediates.
pub fn div_round_signed_i128(n: i128, d: i128) -> (r: i128)
    requires
        d != 0,
        -0x2000_0000_0000_0000_0000_0000_0000_0000 <= n
            <= 0x2000_0000_0000_0000_0000_0000_0000_0000,
        -0x2000_0000_0000_0000_0000_0000_0000_0000 <= d
            <= 0x2000_0000_0000_0000_0000_0000_0000_0000,
    ensures
        r == div_round_signed(n as int, d as int),
{
    if d > 0 {
        div_round_i128(n, d)
    } else {
        div_round_i128(-n, -d)
    }
}

/// Rounding an exact multiple is exact.
pub proof fn lemma_div_round_exact(d: int, k: int)
    requires
        k > 0,
    ensures
        div_round(d * k, k) == d,
{
    if d >= 0 {
        assert(d * k >= 0) by (nonlinear_arith)
            requires
                d >= 0,
                k > 0,
        ;
        assert(2 * (d * k) + k == d * (2 * k) + k) by (nonlinear_arith);
        vstd::arithmetic::div_mod::lemma_fundamental_div_mod_converse(
            2 * (d * k) + k,
            2 * k,
            d,
            k,
        );
    } else {
        assert(d * k < 0) by (nonlinear_arith)
            requires
                d < 0,
                k > 0,
        ;
        assert(2 * (-(d * k)) + k == (-d) * (2 * k) + k) by (nonlinear_arith);
        vstd::arithmetic::div_mod::lemma_fundamental_div_mod_converse(
            2 * (-(d * k)) + k,
            2 * k,
            -d,
            k,
        );
    }
}

/// The floor of the square root of a nonnegative integer (zero for a
/// negative one).
pub open spec fn sqrt_floor(n: int) -> int
    decreases n,
{
    if n <= 0 {
        0
    } else {
        let p = sqrt_floor(n - 1);
        if (p + 1) * (p + 1) <= n {
            p + 1
        } else {
            p
        }
    }
}

/// `sqrt_floor` brackets its argument: `r * r <= n < (r + 1) * (r + 1)`.
pub proof fn lemma_sqrt_floor_bounds(n: int)
    requires
        0 <= n,
    ensures
        0 <= sqrt_floor(n),
        sqrt_floor(n) * sqrt_floor(n) <= n < (sqrt_floor(n) + 1) * (sqrt_floor(n) + 1),
    decreases n,
{
    if n > 0 {
        lemma_sqrt_floor_bounds(n - 1);
        let p = sqrt_floor(n - 1);
        if (p + 1) * (p + 1) <= n {
            assert(n < (p + 2) * (p + 2)) by (nonlinear_arith)
                requires
                    n - 1 < (p + 1) * (p + 1) <= n,
                    p >= 0,
            ;
        }
    }
}

/// There is only one integer whose square brackets `n`.
pub proof fn lemma_sqrt_floor_unique(n: int, w: int)
    requires
        0 <= w,
        w * w <= n < (w + 1) * (w + 1),
    ensures
        sqrt_floor(n) == w,
{
    lemma_sqrt_floor_bounds(n);
    let c = sqrt_floor(n);
    assert(c == w) by (nonlinear_arith)
        requires
            0 <= w,
            0 <= c,
            w * w <= n < (w + 1) * (w + 1),
            c * c <= n < (c + 1) * (c + 1),
    ;
}

/// Floor of the square root of `n`, for `n` below `(7 * 10^9)^2`.
///
/// Binary search over the answer; the bound covers the squared length of
/// any vector whose components are within twice `COORD_LIMIT`.
pub fn isqrt(n: u128) -> (r: u64)
    requires
        n < 49_000_000_000_000_000_000,
    ensures
        r * r <= n < (r + 1) * (r + 1),
        r == sqrt_floor(n as int),
{
    let mut lo: u64 = 0;
    let mut hi: u64 = 7_000_000_000;
    proof {
        assert((hi as int + 1) * (hi as int + 1) > n) by (nonlinear_arith)
            requires
                hi == 7_000_000_000,
                n < 49_000_000_000_000_000_000,
        ;
    }
    while lo < hi
        invariant
            lo <= hi <= 7_000_000_000,
            lo * lo <= n,
            (hi + 1) * (hi + 1) > n,
        decreases hi - lo,
    {
        let mid = lo + (hi - lo + 1) / 2;
        proof {
            assert(mid as int * mid as int <= 49_000_000_000_000_000_000) by (nonlinear_arith)
                requires
                    0 <= mid <= 7_000_000_000,
            ;
        }
        let sq: u128 = (mid as u128) * (mid as u128);
        if sq <= n {
            lo = mid;
        } else {
            hi = mid - 1;
        }
    }
    proof {
        lemma_sqrt_floor_unique(n as int, lo as int);
    }
    lo
}

} // verus!
