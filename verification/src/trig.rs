//! Integer cosine and sine.
//!
//! Angles come in as thousandths of a radian; results are parts per
//! million, so a full-scale cosine is `1_000_000`. Internally the angle is
//! widened to billionths of a radian, reduced to one turn, folded into a
//! quadrant, and evaluated by a fixed truncated power series over 128-bit
//! integers. The definition below *is* the kernel's cosine: every consumer
//! (arc sampling for every export format) evaluates exactly this function,
//! which is what makes arc geometry deterministic across formats.

use vstd::prelude::*;

use crate::num::div_round;

verus! {

/// One full turn, in billionths of a radian.
pub const TAU_NANO: i128 = 6_283_185_307;

/// A quarter turn, in billionths of a radian.
pub const HALF_PI_NANO: i128 = 1_570_796_327;

/// Series cosine on a quadrant argument `x` in `[0, HALF_PI_NANO]`,
/// in billionths.
#[verifier::opaque]
pub open spec fn series_cos_nano(x: int) -> int {
    let x2 = (x * x) / 1_000_000_000;
    let p4 = (x2 * x2) / 1_000_000_000;
    let p6 = (p4 * x2) / 1_000_000_000;
    let p8 = (p6 * x2) / 1_000_000_000;
    let p10 = (p8 * x2) / 1_000_000_000;
    1_000_000_000 - x2 / 2 + p4 / 24 - p6 / 720 + p8 / 40320 - p10 / 3628800
}

/// Series sine on a quadrant argument `x` in `[0, HALF_PI_NANO]`,
/// in billionths.
#[verifier::opaque]
pub open spec fn series_sin_nano(x: int) -> int {
    let x2 = (x * x) / 1_000_000_000;
    let q3 = (x * x2) / 1_000_000_000;
    let q5 = (q3 * x2) / 1_000_000_000;
    let q7 = (q5 * x2) / 1_000_000_000;
    let q9 = (q7 * x2) / 1_000_000_000;
    let q11 = (q9 * x2) / 1_000_000_000;
    x - q3 / 6 + q5 / 120 - q7 / 5040 + q9 / 362880 - q11 / 39916800
}

/// Clamp a billionths value to the unit interval.
pub open spec fn clamp_nano(v: int) -> int {
    if v > 1_000_000_000 {
        1_000_000_000
    } else if v < -1_000_000_000 {
        -1_000_000_000
    } else {
        v
    }
}

/// The angle in billionths of a radian, reduced to `[0, TAU_NANO)`.
#[verifier::opaque]
pub open spec fn reduce_nano(a_milli: int) -> int {
    let wide = a_milli * 1_000_000;
    if wide >= 0 {
        wide % (TAU_NANO as int)
    } else {
        let m = (-wide) % (TAU_NANO as int);
        if m == 0 {
            0
        } else {
            TAU_NANO as int - m
        }
    }
}

/// Cosine of an angle given in thousandths of a radian, in billionths.
#[verifier::opaque]
pub open spec fn cos_nano(a_milli: int) -> int {
    let r = reduce_nano(a_milli);
    let q = r / (HALF_PI_NANO as int);
    let x = r - q * (HALF_PI_NANO as int);
    if q == 0 {
        clamp_nano(series_cos_nano(x))
    } else if q == 1 {
        clamp_nano(-series_sin_nano(x))
    } else if q == 2 {
        clamp_nano(-series_cos_nano(x))
    } else {
        clamp_nano(series_sin_nano(x))
    }
}

/// Sine of an angle given in thousandths of a radian, in billionths.
#[verifier::opaque]
pub open spec fn sin_nano(a_milli: int) -> int {
    let r = reduce_nano(a_milli);
    let q = r / (HALF_PI_NANO as int);
    let x = r - q * (HALF_PI_NANO as int);
    if q == 0 {
        clamp_nano(series_sin_nano(x))
    } else if q == 1 {
        clamp_nano(series_cos_nano(x))
    } else if q == 2 {
        clamp_nano(-series_sin_nano(x))
    } else {
        clamp_nano(-series_cos_nano(x))
    }
}

/// Cosine in parts per million.
pub open spec fn cos_ppm(a_milli: int) -> int {
    div_round(cos_nano(a_milli), 1000)
}

/// Sine in parts per million.
pub open spec fn sin_ppm(a_milli: int) -> int {
    div_round(sin_nano(a_milli), 1000)
}

/// One multiplication step of the power series: `a * b`, scaled back to
/// billionths. The second factor is a squared quadrant argument, below
/// `2.47e9`, so the result grows by less than a factor of three.
fn mul_shift(a: i128, b: i128) -> (r: i128)
    requires
        0 <= a <= 2_000_000_000_000_000,
        0 <= b <= 2_470_000_000,
    ensures
        r == (a as int * b as int) / 1_000_000_000,
        0 <= r <= 3 * a,
{
    proof {
        lemma_prod_div_bound(a as int, b as int);
    }
    (a * b) / 1_000_000_000
}

/// A nonnegative value shrinks when divided by a positive constant.
proof fn lemma_term_bound(t: int, k: int)
    requires
        0 <= t,
        0 < k,
    ensures
        0 <= t / k <= t,
{
    vstd::arithmetic::div_mod::lemma_div_pos_is_pos(t, k);
    vstd::arithmetic::div_mod::lemma_div_nonincreasing(t, k);
}

/// Evaluate the series pair on a quadrant argument.
fn eval_series(x: i128) -> (r: (i128, i128))
    requires
        0 <= x <= HALF_PI_NANO,
    ensures
        r.0 == series_cos_nano(x as int),
        r.1 == series_sin_nano(x as int),
        -2_000_000_000_000 <= r.0 <= 2_000_000_000_000,
        -2_000_000_000_000 <= r.1 <= 2_000_000_000_000,
{
    proof {
        reveal(series_cos_nano);
        reveal(series_sin_nano);
        assert(x as int * x as int <= 2_468_000_000_000_000_000) by (nonlinear_arith)
            requires
                0 <= x <= 1_570_796_327,
        ;
        vstd::arithmetic::div_mod::lemma_div_pos_is_pos(x as int * x as int, 1_000_000_000);
        vstd::arithmetic::div_mod::lemma_div_is_ordered(
            x as int * x as int,
            2_468_000_000_000_000_000,
            1_000_000_000,
        );
        assert(2_468_000_000_000_000_000int / 1_000_000_000int == 2_468_000_000int);
    }
    let x2 = (x * x) / 1_000_000_000;
    let p4 = mul_shift(x2, x2);
    let p6 = mul_shift(p4, x2);
    let p8 = mul_shift(p6, x2);
    let p10 = mul_shift(p8, x2);
    proof {
        lemma_term_bound(x2 as int, 2);
        lemma_term_bound(p4 as int, 24);
        lemma_term_bound(p6 as int, 720);
        lemma_term_bound(p8 as int, 40320);
        lemma_term_bound(p10 as int, 3628800);
    }
    let c = 1_000_000_000 - x2 / 2 + p4 / 24 - p6 / 720 + p8 / 40320 - p10 / 3628800;

    let q3 = mul_shift(x, x2);
    let q5 = mul_shift(q3, x2);
    let q7 = mul_shift(q5, x2);
    let q9 = mul_shift(q7, x2);
    let q11 = mul_shift(q9, x2);
    proof {
        lemma_term_bound(q3 as int, 6);
        lemma_term_bound(q5 as int, 120);
        lemma_term_bound(q7 as int, 5040);
        lemma_term_bound(q9 as int, 362880);
        lemma_term_bound(q11 as int, 39916800);
    }
    let s = x - q3 / 6 + q5 / 120 - q7 / 5040 + q9 / 362880 - q11 / 39916800;
    (c, s)
}

/// A product of a bounded nonnegative value and a squared quadrant
/// argument, divided by a billion, stays within three times the first
/// factor.
proof fn lemma_prod_div_bound(a: int, b: int)
    requires
        0 <= a <= 2_000_000_000_000_000,
        0 <= b <= 2_470_000_000,
    ensures
        0 <= (a * b) / 1_000_000_000 <= 3 * a,
        0 <= a * b <= 5_000_000_000_000_000_000_000_000,
{
    assert(0 <= a * b <= 5_000_000_000_000_000_000_000_000 && a * b <= (3 * a) * 1_000_000_000)
        by (nonlinear_arith)
        requires
            0 <= a <= 2_000_000_000_000_000,
            0 <= b <= 2_470_000_000,
    ;
    vstd::arithmetic::div_mod::lemma_div_pos_is_pos(a * b, 1_000_000_000);
    vstd::arithmetic::div_mod::lemma_div_is_ordered(a * b, (3 * a) * 1_000_000_000, 1_000_000_000);
    vstd::arithmetic::div_mod::lemma_fundamental_div_mod_converse(
        (3 * a) * 1_000_000_000,
        1_000_000_000,
        3 * a,
        0,
    );
}

/// Clamp a billionths value to the unit interval.
fn clamp_unit(v: i128) -> (r: i128)
    ensures
        r == clamp_nano(v as int),
        -1_000_000_000 <= r <= 1_000_000_000,
{
    if v > 1_000_000_000 {
        1_000_000_000
    } else if v < -1_000_000_000 {
        -1_000_000_000
    } else {
        v
    }
}

/// Cosine and sine of an angle in thousandths of a radian, in parts per
/// million. Every arc consumer in the kernel samples through this pair.
pub fn cos_sin_ppm(a: i64) -> (r: (i64, i64))
    ensures
        r.0 == cos_ppm(a as int),
        r.1 == sin_ppm(a as int),
        -1_000_000 <= r.0 <= 1_000_000,
        -1_000_000 <= r.1 <= 1_000_000,
{
    proof {
        reveal(reduce_nano);
        reveal(cos_nano);
        reveal(sin_nano);
    }
    let wide: i128 = (a as i128) * 1_000_000;
    let red: i128 = if wide >= 0 {
        wide % TAU_NANO
    } else {
        let m = (-wide) % TAU_NANO;
        if m == 0 {
            0
        } else {
            TAU_NANO - m
        }
    };
    proof {
        vstd::arithmetic::div_mod::lemma_mod_bound(wide as int, TAU_NANO as int);
        vstd::arithmetic::div_mod::lemma_mod_bound(-(wide as int), TAU_NANO as int);
        assert(red == reduce_nano(a as int));
        assert(0 <= red < TAU_NANO);
    }
    let q = red / HALF_PI_NANO;
    let x = red - q * HALF_PI_NANO;
    proof {
        vstd::arithmetic::div_mod::lemma_fundamental_div_mod(red as int, HALF_PI_NANO as int);
        vstd::arithmetic::div_mod::lemma_mod_bound(red as int, HALF_PI_NANO as int);
        vstd::arithmetic::div_mod::lemma_div_pos_is_pos(red as int, HALF_PI_NANO as int);
        assert(q <= 3) by {
            vstd::arithmetic::div_mod::lemma_div_is_ordered(
                red as int,
                TAU_NANO as int - 1,
                HALF_PI_NANO as int,
            );
            assert((6_283_185_306int) / (1_570_796_327int) == 3);
        }
        assert(x == red as int % HALF_PI_NANO as int);
        assert(0 <= x < HALF_PI_NANO);
    }
    let (sc, ss) = eval_series(x);
    let (cn, sn): (i128, i128) = if q == 0 {
        (clamp_unit(sc), clamp_unit(ss))
    } else if q == 1 {
        (clamp_unit(-ss), clamp_unit(sc))
    } else if q == 2 {
        (clamp_unit(-sc), clamp_unit(-ss))
    } else {
        (clamp_unit(ss), clamp_unit(-sc))
    };
    proof {
        lemma_div_round_unit(cn as int);
        lemma_div_round_unit(sn as int);
    }
    let c = crate::num::div_round_i128(cn, 1000) as i64;
    let s = crate::num::div_round_i128(sn, 1000) as i64;
    (c, s)
}

/// The arctangent of a ratio `n / d` with `0 <= n <= d`, in millionths
/// of a radian: a fixed odd polynomial in the ratio, evaluated over
/// 128-bit integers.
#[verifier::opaque]
pub open spec fn atan_ratio_micro(n: int, d: int) -> int {
    let z = div_round(n * 1_000_000, d);
    let z2r = div_round(z * z, 1_000_000);
    let z2 = if z2r > 1_000_001 {
        1_000_001
    } else {
        z2r
    };
    let p4 = -85_133 + div_round(20_835 * z2, 1_000_000);
    let p3 = 180_141 + div_round(p4 * z2, 1_000_000);
    let p2 = -330_300 + div_round(p3 * z2, 1_000_000);
    let p1 = 999_866 + div_round(p2 * z2, 1_000_000);
    div_round(z * p1, 1_000_000)
}

/// The signed angle of the vector `(x, y)`, in thousandths of a radian,
/// in the half-open range of a full turn: the first-octant arctangent,
/// folded by symmetry.
#[verifier::opaque]
pub open spec fn atan2_milli(y: int, x: int) -> int {
    let ax = crate::num::abs_int(x);
    let ay = crate::num::abs_int(y);
    let base = if ax >= ay {
        div_round(atan_ratio_micro(ay, if ax == 0 { 1 } else { ax }), 1000)
    } else {
        1571 - div_round(atan_ratio_micro(ax, ay), 1000)
    };
    if x >= 0 && y >= 0 {
        base
    } else if x < 0 && y >= 0 {
        3142 - base
    } else if x < 0 {
        base - 3142
    } else {
        -base
    }
}

/// One polynomial step: a coefficient plus a scaled product, bounded.
fn poly_step(coeff: i128, p: i128, z2: i128) -> (r: i128)
    requires
        crate::num::abs_int(coeff as int) <= 1_000_000,
        crate::num::abs_int(p as int) <= 4_000_000,
        0 <= z2 <= 1_000_001,
    ensures
        r == coeff + div_round(p as int * z2 as int, 1_000_000),
        crate::num::abs_int(r as int) <= crate::num::abs_int(coeff as int) + crate::num::abs_int(
            p as int,
        ) + 5,
{
    proof {
        assert(crate::num::abs_int(p as int * z2 as int) <= 4_000_004_000_000
            && crate::num::abs_int(p as int * z2 as int) <= (crate::num::abs_int(p as int) + 4)
            * 1_000_000) by (nonlinear_arith)
            requires
                crate::num::abs_int(p as int) <= 4_000_000,
                0 <= z2 <= 1_000_001,
        ;
        crate::num::lemma_div_round_quotient_bound(
            p as int * z2 as int,
            1_000_000,
            crate::num::abs_int(p as int) + 4,
        );
    }
    coeff + crate::num::div_round_i128(p * z2, 1_000_000)
}

/// The first-octant arctangent, executable.
fn atan_ratio_at(n: i128, d: i128) -> (r: i128)
    requires
        0 <= n <= d,
        1 <= d <= 100_000_000_000_000_000_000,
    ensures
        r == atan_ratio_micro(n as int, d as int),
        -3_000_000 <= r <= 3_000_000,
{
    proof {
        reveal(atan_ratio_micro);
        assert(0 <= n as int * 1_000_000 <= (d as int) * 1_000_000 && n as int * 1_000_000
            <= 100_000_000_000_000_000_000_000_000) by (nonlinear_arith)
            requires
                0 <= n <= d <= 100_000_000_000_000_000_000,
        ;
        crate::num::lemma_div_round_quotient_bound(n as int * 1_000_000, d as int, 1_000_000);
        crate::num::lemma_div_round_magnitude(n as int * 1_000_000, d as int);
    }
    let z = crate::num::div_round_i128(n * 1_000_000, d);
    proof {
        assert(0 <= z as int * z as int <= 1_000_002_000_001) by (nonlinear_arith)
            requires
                0 <= z <= 1_000_001,
        ;
        crate::num::lemma_div_round_quotient_bound(z as int * z as int, 1_000_000, 1_000_003);
        crate::num::lemma_div_round_magnitude(z as int * z as int, 1_000_000);
    }
    let z2r = crate::num::div_round_i128(z * z, 1_000_000);
    let z2: i128 = if z2r > 1_000_001 {
        1_000_001
    } else {
        z2r
    };
    let p4 = poly_step(-85_133, 20_835, z2);
    let p3 = poly_step(180_141, p4, z2);
    let p2 = poly_step(-330_300, p3, z2);
    let p1 = poly_step(999_866, p2, z2);
    proof {
        assert(crate::num::abs_int(z as int * p1 as int) <= 2_900_000 * 1_000_000)
            by (nonlinear_arith)
            requires
                0 <= z <= 1_000_001,
                crate::num::abs_int(p1 as int) <= 2_400_000,
        ;
        crate::num::lemma_div_round_quotient_bound(z as int * p1 as int, 1_000_000, 2_900_000);
    }
    crate::num::div_round_i128(z * p1, 1_000_000)
}

/// The signed angle of the vector `(x, y)`, executable: thousandths of
/// a radian, measured from the positive x axis, counter-clockwise
/// positive.
pub fn atan2_at(y: i64, x: i64) -> (r: i64)
    ensures
        r == atan2_milli(y as int, x as int),
        -6_200 <= r <= 6_200,
{
    proof {
        reveal(atan2_milli);
    }
    let ax: i128 = if x >= 0 {
        x as i128
    } else {
        -(x as i128)
    };
    let ay: i128 = if y >= 0 {
        y as i128
    } else {
        -(y as i128)
    };
    let base: i64 = if ax >= ay {
        let den = if ax == 0 {
            1
        } else {
            ax
        };
        let at = atan_ratio_at(ay, den);
        proof {
            lemma_micro_to_milli(at as int);
        }
        crate::num::div_round_i128(at, 1000) as i64
    } else {
        let at = atan_ratio_at(ax, ay);
        proof {
            lemma_micro_to_milli(at as int);
        }
        1571 - crate::num::div_round_i128(at, 1000) as i64
    };
    if x >= 0 && y >= 0 {
        base
    } else if x < 0 && y >= 0 {
        3142 - base
    } else if x < 0 {
        base - 3142
    } else {
        -base
    }
}

/// Micro-radians within three units round to milliradians within 3001.
proof fn lemma_micro_to_milli(v: int)
    requires
        -3_000_000 <= v <= 3_000_000,
    ensures
        -3_001 <= div_round(v, 1000) <= 3_001,
{
    crate::num::lemma_div_round_quotient_bound(v, 1000, 3_000);
}

/// Rounding by a thousand keeps the unit-interval bound.
proof fn lemma_div_round_unit(v: int)
    requires
        -1_000_000_000 <= v <= 1_000_000_000,
    ensures
        -1_000_000 <= div_round(v, 1000) <= 1_000_000,
{
    let m = crate::num::abs_int(v);
    vstd::arithmetic::div_mod::lemma_div_pos_is_pos(2 * m + 1000, 2000);
    vstd::arithmetic::div_mod::lemma_div_is_ordered(2 * m + 1000, 2_000_001_000, 2000);
    assert(2_000_001_000int / 2000int == 1_000_000);
    if v < 0 {
        assert(div_round(v, 1000) == -((2 * m + 1000) / 2000));
    }
}

} // verus!
