//! 2D affine transforms as 2-by-3 fixed-point matrices.
//!
//! The linear part (`a`, `b`, `c`, `d`) counts millionths, so the
//! identity has `a == d == 1_000_000`; the translation (`tx`, `ty`)
//! counts thousandths of a millimeter like every coordinate. Inversion
//! fails — returns nothing — exactly when the determinant rounds to
//! zero at the millionths resolution.

use vstd::prelude::*;

use crate::num::{abs_int, div_round, div_round_signed, COORD_LIMIT};
use crate::vec2::Vec2;

verus! {

/// A row-major affine matrix: `[[a, b, tx], [c, d, ty]]` over an
/// implicit `[0, 0, 1]` row.
#[derive(Clone, Copy, Debug, PartialEq, Eq, Structural)]
pub struct Transform2D {
    pub a: i64,
    pub b: i64,
    pub c: i64,
    pub d: i64,
    pub tx: i64,
    pub ty: i64,
}

impl Transform2D {
    /// The linear part stays within ten units and the translation
    /// within the doubled coordinate range.
    pub open spec fn wf(self) -> bool {
        &&& abs_int(self.a as int) <= 10_000_000
        &&& abs_int(self.b as int) <= 10_000_000
        &&& abs_int(self.c as int) <= 10_000_000
        &&& abs_int(self.d as int) <= 10_000_000
        &&& abs_int(self.tx as int) <= 2 * COORD_LIMIT as int
        &&& abs_int(self.ty as int) <= 2 * COORD_LIMIT as int
    }

    /// The identity.
    pub fn identity() -> (t: Transform2D)
        ensures
            t == (Transform2D { a: 1_000_000, b: 0, c: 0, d: 1_000_000, tx: 0, ty: 0 }),
            t.wf(),
    {
        Transform2D { a: 1_000_000, b: 0, c: 0, d: 1_000_000, tx: 0, ty: 0 }
    }

    /// A pure translation.
    pub fn translate(dx: i64, dy: i64) -> (t: Transform2D)
        ensures
            t == (Transform2D { a: 1_000_000, b: 0, c: 0, d: 1_000_000, tx: dx, ty: dy }),
    {
        Transform2D { a: 1_000_000, b: 0, c: 0, d: 1_000_000, tx: dx, ty: dy }
    }

    /// A pure scale; the factors count millionths.
    pub fn scale(sx: i64, sy: i64) -> (t: Transform2D)
        ensures
            t == (Transform2D { a: sx, b: 0, c: 0, d: sy, tx: 0, ty: 0 }),
    {
        Transform2D { a: sx, b: 0, c: 0, d: sy, tx: 0, ty: 0 }
    }

    /// A pure rotation by an angle in thousandths of a radian.
    pub fn rotate(angle: i64) -> (t: Transform2D)
        ensures
            t.a == crate::trig::cos_ppm(angle as int),
            t.b == -crate::trig::sin_ppm(angle as int),
            t.c == crate::trig::sin_ppm(angle as int),
            t.d == crate::trig::cos_ppm(angle as int),
            t.tx == 0,
            t.ty == 0,
            t.wf(),
    {
        let (cos, sin) = crate::trig::cos_sin_ppm(angle);
        Transform2D { a: cos, b: -sin, c: sin, d: cos, tx: 0, ty: 0 }
    }

    /// Mirror across the vertical axis.
    pub fn mirror_x() -> (t: Transform2D)
        ensures
            t == (Transform2D { a: -1_000_000i64, b: 0i64, c: 0i64, d: 1_000_000i64, tx: 0i64, ty: 0i64 }),
            t.wf(),
    {
        Transform2D { a: -1_000_000, b: 0, c: 0, d: 1_000_000, tx: 0, ty: 0 }
    }

    /// Mirror across the horizontal axis.
    pub fn mirror_y() -> (t: Transform2D)
        ensures
            t == (Transform2D { a: 1_000_000i64, b: 0i64, c: 0i64, d: -1_000_000i64, tx: 0i64, ty: 0i64 }),
            t.wf(),
    {
        Transform2D { a: 1_000_000, b: 0, c: 0, d: -1_000_000, tx: 0, ty: 0 }
    }

    /// Apply to a point: the linear part scaled back from millionths,
    /// then the translation.
    pub fn apply(&self, p: &Vec2) -> (r: Vec2)
        requires
            self.wf(),
            p.bounded(COORD_LIMIT as int),
        ensures
            r.x == self.tx + div_round(self.a * p.x + self.b * p.y, 1_000_000),
            r.y == self.ty + div_round(self.c * p.x + self.d * p.y, 1_000_000),
    {
        proof {
            lemma_linear_fits(self.a as int, self.b as int, p.x as int, p.y as int);
            lemma_linear_fits(self.c as int, self.d as int, p.x as int, p.y as int);
        }
        let xn: i128 = (self.a as i128) * (p.x as i128) + (self.b as i128) * (p.y as i128);
        let yn: i128 = (self.c as i128) * (p.x as i128) + (self.d as i128) * (p.y as i128);
        let x = self.tx + crate::num::div_round_i128(xn, 1_000_000) as i64;
        let y = self.ty + crate::num::div_round_i128(yn, 1_000_000) as i64;
        Vec2 { x, y }
    }

    /// Composition: `self` applied first, followed by `other`. The
    /// composite's linear part is `other`'s times `self`'s, and `self`'s
    /// translation passes through `other`'s linear part before `other`'s
    /// own translation is added, so applying the composite to a point
    /// matches applying `self` and handing the result to `other`.
    pub fn then(&self, other: &Transform2D) -> (r: Transform2D)
        requires
            self.wf(),
            other.wf(),
        ensures
            r.a == div_round(other.a * self.a + other.b * self.c, 1_000_000),
            r.b == div_round(other.a * self.b + other.b * self.d, 1_000_000),
            r.c == div_round(other.c * self.a + other.d * self.c, 1_000_000),
            r.d == div_round(other.c * self.b + other.d * self.d, 1_000_000),
            r.tx == other.tx + div_round(other.a * self.tx + other.b * self.ty, 1_000_000),
            r.ty == other.ty + div_round(other.c * self.tx + other.d * self.ty, 1_000_000),
    {
        proof {
            lemma_compose_fits(other.a as int, other.b as int, self.a as int, self.c as int);
            lemma_compose_fits(other.a as int, other.b as int, self.b as int, self.d as int);
            lemma_compose_fits(other.c as int, other.d as int, self.a as int, self.c as int);
            lemma_compose_fits(other.c as int, other.d as int, self.b as int, self.d as int);
            lemma_linear_fits(other.a as int, other.b as int, self.tx as int, self.ty as int);
            lemma_linear_fits(other.c as int, other.d as int, self.tx as int, self.ty as int);
        }
        let a = crate::num::div_round_i128(
            (other.a as i128) * (self.a as i128) + (other.b as i128) * (self.c as i128),
            1_000_000,
        ) as i64;
        let b = crate::num::div_round_i128(
            (other.a as i128) * (self.b as i128) + (other.b as i128) * (self.d as i128),
            1_000_000,
        ) as i64;
        let c = crate::num::div_round_i128(
            (other.c as i128) * (self.a as i128) + (other.d as i128) * (self.c as i128),
            1_000_000,
        ) as i64;
        let d = crate::num::div_round_i128(
            (other.c as i128) * (self.b as i128) + (other.d as i128) * (self.d as i128),
            1_000_000,
        ) as i64;
        let tx = other.tx + crate::num::div_round_i128(
            (other.a as i128) * (self.tx as i128) + (other.b as i128) * (self.ty as i128),
            1_000_000,
        ) as i64;
        let ty = other.ty + crate::num::div_round_i128(
            (other.c as i128) * (self.tx as i128) + (other.d as i128) * (self.ty as i128),
            1_000_000,
        ) as i64;
        Transform2D { a, b, c, d, tx, ty }
    }

    /// The determinant of the linear part, in millionths.
    pub open spec fn spec_det(self) -> int {
        div_round_signed(
            self.a * self.d - self.b * self.c,
            1_000_000,
        )
    }

    /// Numerically guarded inversion: nothing comes back when the
    /// determinant rounds to zero at the millionths resolution.
    pub fn inverse(&self) -> (r: Option<Transform2D>)
        requires
            self.wf(),
        ensures
            r is None <==> self.spec_det() == 0,
            r matches Some(inv) ==> {
                let det = self.spec_det();
                &&& inv.a == div_round_signed(self.d * 1_000_000, det)
                &&& inv.b == div_round_signed(-self.b * 1_000_000, det)
                &&& inv.c == div_round_signed(-self.c * 1_000_000, det)
                &&& inv.d == div_round_signed(self.a * 1_000_000, det)
                &&& inv.tx == div_round_signed(self.b * self.ty - self.d * self.tx, det)
                &&& inv.ty == div_round_signed(self.c * self.tx - self.a * self.ty, det)
            },
    {
        proof {
            lemma_compose_fits(self.a as int, self.b as int, self.d as int, self.c as int);
        }
        let wide_det: i128 = (self.a as i128) * (self.d as i128) - (self.b as i128) * (
        self.c as i128);
        let det = crate::num::div_round_i128(wide_det, 1_000_000);
        proof {
            crate::num::lemma_div_round_quotient_bound(wide_det as int, 1_000_000, 200_000_000);
            assert(self.spec_det() == div_round(wide_det as int, 1_000_000));
        }
        if det == 0 {
            return None;
        }
        proof {
            lemma_inverse_fits(self.a as int, self.b as int, self.c as int, self.d as int,
            self.tx as int, self.ty as int, det as int);
        }
        let a = crate::num::div_round_signed_i128((self.d as i128) * 1_000_000, det) as i64;
        let b = crate::num::div_round_signed_i128(-(self.b as i128) * 1_000_000, det) as i64;
        let c = crate::num::div_round_signed_i128(-(self.c as i128) * 1_000_000, det) as i64;
        let d = crate::num::div_round_signed_i128((self.a as i128) * 1_000_000, det) as i64;
        let tx = crate::num::div_round_signed_i128(
            (self.b as i128) * (self.ty as i128) - (self.d as i128) * (self.tx as i128),
            det,
        ) as i64;
        let ty = crate::num::div_round_signed_i128(
            (self.c as i128) * (self.tx as i128) - (self.a as i128) * (self.ty as i128),
            det,
        ) as i64;
        Some(Transform2D { a, b, c, d, tx, ty })
    }
}

/// A linear combination of two coordinates through millionths factors
/// stays wide-range and its scaled value fits beside a translation.
proof fn lemma_linear_fits(m1: int, m2: int, x: int, y: int)
    requires
        abs_int(m1) <= 10_000_000,
        abs_int(m2) <= 10_000_000,
        abs_int(x) <= 4 * COORD_LIMIT as int,
        abs_int(y) <= 4 * COORD_LIMIT as int,
    ensures
        abs_int(m1 * x) <= 80_000_000_000_000_000,
        abs_int(m2 * y) <= 80_000_000_000_000_000,
        abs_int(m1 * x + m2 * y) <= 160_000_000_000 * 1_000_000,
        -160_000_000_001 <= div_round(m1 * x + m2 * y, 1_000_000) <= 160_000_000_001,
{
    assert(abs_int(m1 * x) <= 80_000_000_000_000_000 && abs_int(m2 * y)
        <= 80_000_000_000_000_000) by (nonlinear_arith)
        requires
            abs_int(m1) <= 10_000_000,
            abs_int(m2) <= 10_000_000,
            abs_int(x) <= 8_000_000_000,
            abs_int(y) <= 8_000_000_000,
    ;
    crate::num::lemma_div_round_quotient_bound(m1 * x + m2 * y, 1_000_000, 160_000_000_000);
}

/// A product of two linear-part entries stays wide-range.
proof fn lemma_compose_fits(m1: int, m2: int, n1: int, n2: int)
    requires
        abs_int(m1) <= 10_000_000,
        abs_int(m2) <= 10_000_000,
        abs_int(n1) <= 10_000_000,
        abs_int(n2) <= 10_000_000,
    ensures
        abs_int(m1 * n1) <= 100_000_000_000_000,
        abs_int(m2 * n2) <= 100_000_000_000_000,
        abs_int(m1 * n1 + m2 * n2) <= 200_000_000 * 1_000_000,
        abs_int(m1 * n1 - m2 * n2) <= 200_000_000 * 1_000_000,
        -200_000_001 <= div_round(m1 * n1 + m2 * n2, 1_000_000) <= 200_000_001,
{
    assert(abs_int(m1 * n1) <= 100_000_000_000_000 && abs_int(m2 * n2)
        <= 100_000_000_000_000) by (nonlinear_arith)
        requires
            abs_int(m1) <= 10_000_000,
            abs_int(m2) <= 10_000_000,
            abs_int(n1) <= 10_000_000,
            abs_int(n2) <= 10_000_000,
    ;
    crate::num::lemma_div_round_quotient_bound(m1 * n1 + m2 * n2, 1_000_000, 200_000_000);
}

/// Every inverse entry fits a machine word once the determinant is at
/// least one in magnitude.
proof fn lemma_inverse_fits(a: int, b: int, c: int, d: int, tx: int, ty: int, det: int)
    requires
        abs_int(a) <= 10_000_000,
        abs_int(b) <= 10_000_000,
        abs_int(c) <= 10_000_000,
        abs_int(d) <= 10_000_000,
        abs_int(tx) <= 2 * COORD_LIMIT as int,
        abs_int(ty) <= 2 * COORD_LIMIT as int,
        det != 0,
    ensures
        abs_int(a * 1_000_000) <= 10_000_000_000_000,
        abs_int(b * 1_000_000) <= 10_000_000_000_000,
        abs_int(c * 1_000_000) <= 10_000_000_000_000,
        abs_int(d * 1_000_000) <= 10_000_000_000_000,
        abs_int(b * ty) <= 40_000_000_000_000_000,
        abs_int(d * tx) <= 40_000_000_000_000_000,
        abs_int(c * tx) <= 40_000_000_000_000_000,
        abs_int(a * ty) <= 40_000_000_000_000_000,
        -10_000_000_000_000 - 1 <= div_round_signed(d * 1_000_000, det) <= 10_000_000_000_000 + 1,
        -10_000_000_000_000 - 1 <= div_round_signed(-b * 1_000_000, det) <= 10_000_000_000_000
            + 1,
        -10_000_000_000_000 - 1 <= div_round_signed(-c * 1_000_000, det) <= 10_000_000_000_000
            + 1,
        -10_000_000_000_000 - 1 <= div_round_signed(a * 1_000_000, det) <= 10_000_000_000_000 + 1,
        -80_000_000_000_000_001 <= div_round_signed(b * ty - d * tx, det) <= 80_000_000_000_000_001,
        -80_000_000_000_000_001 <= div_round_signed(c * tx - a * ty, det) <= 80_000_000_000_000_001,
{
    assert(abs_int(b * ty) <= 40_000_000_000_000_000 && abs_int(d * tx) <= 40_000_000_000_000_000
        && abs_int(c * tx) <= 40_000_000_000_000_000 && abs_int(a * ty)
        <= 40_000_000_000_000_000) by (nonlinear_arith)
        requires
            abs_int(b) <= 10_000_000,
            abs_int(d) <= 10_000_000,
            abs_int(c) <= 10_000_000,
            abs_int(a) <= 10_000_000,
            abs_int(tx) <= 4_000_000_000,
            abs_int(ty) <= 4_000_000_000,
    ;
    let m = if det > 0 {
        det
    } else {
        -det
    };
    lemma_signed_quotient(d * 1_000_000, det, 10_000_000_000_000);
    lemma_signed_quotient(-b * 1_000_000, det, 10_000_000_000_000);
    lemma_signed_quotient(-c * 1_000_000, det, 10_000_000_000_000);
    lemma_signed_quotient(a * 1_000_000, det, 10_000_000_000_000);
    lemma_signed_quotient(b * ty - d * tx, det, 80_000_000_000_000_000);
    lemma_signed_quotient(c * tx - a * ty, det, 80_000_000_000_000_000);
}

/// The signed rounded quotient is bounded by the dividend's bound when
/// the divisor is at least one in magnitude.
proof fn lemma_signed_quotient(n: int, det: int, bound: int)
    requires
        det != 0,
        0 <= bound,
        abs_int(n) <= bound,
    ensures
        -bound - 1 <= div_round_signed(n, det) <= bound + 1,
{
    let m = if det > 0 {
        det
    } else {
        -det
    };
    assert(abs_int(n) <= bound * m) by (nonlinear_arith)
        requires
            abs_int(n) <= bound,
            m >= 1,
            bound >= 0,
    ;
    if det > 0 {
        crate::num::lemma_div_round_quotient_bound(n, det, bound);
    } else {
        crate::num::lemma_div_round_quotient_bound(-n, -det, bound);
    }
}

} // verus!
