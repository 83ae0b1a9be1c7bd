//! 2D vector arithmetic over fixed-point coordinates.
//!
//! Components count thousandths of a millimeter. Products of two
//! fixed-point values (`dot`, `cross`, `length_squared`) are exact and
//! therefore count millionths of a square millimeter; `length` and
//! `distance` return thousandths of a millimeter again (the floor of the
//! square root of the exact sum of squares).

use vstd::prelude::*;

use crate::num::{abs_int, div_round, isqrt, sqrt_floor, COORD_LIMIT};

verus! {

/// A 2D vector in thousandths of a millimeter.
#[derive(Clone, Copy, Debug, PartialEq, Eq, Structural)]
pub struct Vec2 {
    pub x: i64,
    pub y: i64,
}

impl Vec2 {
    /// Both components are within `b` in magnitude.
    pub open spec fn bounded(self, b: int) -> bool {
        abs_int(self.x as int) <= b && abs_int(self.y as int) <= b
    }

    pub fn new(x: i64, y: i64) -> (v: Vec2)
        ensures
            v.x == x,
            v.y == y,
    {
        Vec2 { x, y }
    }

    pub fn zero() -> (v: Vec2)
        ensures
            v.x == 0,
            v.y == 0,
    {
        Vec2 { x: 0, y: 0 }
    }

    /// Component-wise sum.
    pub fn add(&self, rhs: &Vec2) -> (r: Vec2)
        requires
            self.bounded(4 * COORD_LIMIT as int),
            rhs.bounded(4 * COORD_LIMIT as int),
        ensures
            r.x == self.x + rhs.x,
            r.y == self.y + rhs.y,
    {
        Vec2 { x: self.x + rhs.x, y: self.y + rhs.y }
    }

    /// Component-wise difference.
    pub fn sub(&self, rhs: &Vec2) -> (r: Vec2)
        requires
            self.bounded(4 * COORD_LIMIT as int),
            rhs.bounded(4 * COORD_LIMIT as int),
        ensures
            r.x == self.x - rhs.x,
            r.y == self.y - rhs.y,
    {
        Vec2 { x: self.x - rhs.x, y: self.y - rhs.y }
    }

    /// Component-wise negation.
    pub fn neg(&self) -> (r: Vec2)
        requires
            self.bounded(4 * COORD_LIMIT as int),
        ensures
            r.x == -self.x,
            r.y == -self.y,
    {
        Vec2 { x: -self.x, y: -self.y }
    }

    /// Scale by a fixed-point factor `s` (thousandths), rounding each
    /// component.
    pub fn scale(&self, s: i64) -> (r: Vec2)
        requires
            self.bounded(COORD_LIMIT as int),
            abs_int(s as int) <= 1_000_000,
        ensures
            r.x == div_round(self.x as int * s as int, 1000),
            r.y == div_round(self.y as int * s as int, 1000),
    {
        proof {
            lemma_scale_fits(self.x as int, s as int);
            lemma_scale_fits(self.y as int, s as int);
        }
        let x = crate::num::div_round_i128((self.x as i128) * (s as i128), 1000) as i64;
        let y = crate::num::div_round_i128((self.y as i128) * (s as i128), 1000) as i64;
        Vec2 { x, y }
    }

    /// Exact dot product, in millionths of a square millimeter.
    pub fn dot(&self, other: &Vec2) -> (r: i64)
        requires
            self.bounded(COORD_LIMIT as int),
            other.bounded(COORD_LIMIT as int),
        ensures
            r == self.x * other.x + self.y * other.y,
    {
        proof {
            lemma_product_fits(self.x as int, other.x as int);
            lemma_product_fits(self.y as int, other.y as int);
        }
        self.x * other.x + self.y * other.y
    }

    /// Exact 2D cross product (the z component of the 3D one), in
    /// millionths of a square millimeter.
    pub fn cross(&self, other: &Vec2) -> (r: i64)
        requires
            self.bounded(COORD_LIMIT as int),
            other.bounded(COORD_LIMIT as int),
        ensures
            r == self.x * other.y - self.y * other.x,
    {
        proof {
            lemma_product_fits(self.x as int, other.y as int);
            lemma_product_fits(self.y as int, other.x as int);
        }
        self.x * other.y - self.y * other.x
    }

    /// Exact squared length, in millionths of a square millimeter.
    pub fn length_squared(&self) -> (r: i64)
        requires
            self.bounded(COORD_LIMIT as int),
        ensures
            r == self.x * self.x + self.y * self.y,
    {
        proof {
            lemma_product_fits(self.x as int, self.x as int);
            lemma_product_fits(self.y as int, self.y as int);
        }
        self.x * self.x + self.y * self.y
    }

    /// Length: the floor of the square root of the exact squared length,
    /// in thousandths of a millimeter.
    pub fn length(&self) -> (r: i64)
        requires
            self.bounded(2 * COORD_LIMIT as int),
        ensures
            r == sqrt_floor(self.x as int * self.x + self.y as int * self.y),
            0 <= r <= 3 * COORD_LIMIT,
    {
        let sq: u128 = square_sum(self.x, self.y);
        proof {
            assert(sq <= 32_000_000_000_000_000_000) by (nonlinear_arith)
                requires
                    sq == self.x as int * self.x + self.y as int * self.y,
                    abs_int(self.x as int) <= 4_000_000_000,
                    abs_int(self.y as int) <= 4_000_000_000,
            ;
        }
        let r = isqrt(sq);
        proof {
            lemma_sqrt_within(sq as int, r as int, 6_000_000_000);
        }
        r as i64
    }

    /// Distance between two points, in thousandths of a millimeter.
    pub fn distance(&self, other: &Vec2) -> (r: i64)
        requires
            self.bounded(COORD_LIMIT as int),
            other.bounded(COORD_LIMIT as int),
        ensures
            r == sqrt_floor(
                (self.x - other.x) * (self.x - other.x) + (self.y - other.y) * (self.y - other.y),
            ),
            0 <= r <= 3 * COORD_LIMIT,
    {
        let d = self.sub(other);
        d.length()
    }

    /// The unit vector in this direction, in thousandths (so a unit vector
    /// has length about 1000). The zero vector is returned unchanged, as a
    /// guard against dividing by a vanishing length.
    pub fn normalize(&self) -> (r: Vec2)
        requires
            self.bounded(COORD_LIMIT as int),
        ensures
            self.x == 0 && self.y == 0 ==> r == (Vec2 { x: 0, y: 0 }),
            !(self.x == 0 && self.y == 0) ==> {
                let l = sqrt_floor(self.x as int * self.x + self.y as int * self.y);
                l >= 1 && r.x == div_round(1000 * self.x, l) && r.y == div_round(1000 * self.y, l)
            },
    {
        if self.x == 0 && self.y == 0 {
            return Vec2 { x: 0, y: 0 };
        }
        let len = self.length();
        proof {
            let n = self.x as int * self.x + self.y as int * self.y;
            assert(n >= 0) by (nonlinear_arith)
                requires
                    n == self.x as int * self.x + self.y as int * self.y,
            ;
            crate::num::lemma_sqrt_floor_bounds(n);
            assert(n >= 1) by (nonlinear_arith)
                requires
                    n == self.x as int * self.x + self.y as int * self.y,
                    !(self.x == 0 && self.y == 0),
            ;
            assert(len >= 1) by (nonlinear_arith)
                requires
                    len * len <= n < (len + 1) * (len + 1),
                    n >= 1,
                    len >= 0,
            ;
        }
        let x = crate::num::div_round_i128((1000 * self.x as i128), len as i128) as i64;
        let y = crate::num::div_round_i128((1000 * self.y as i128), len as i128) as i64;
        proof {
            crate::num::lemma_div_round_magnitude(1000 * self.x as int, len as int);
            crate::num::lemma_div_round_magnitude(1000 * self.y as int, len as int);
        }
        Vec2 { x, y }
    }

    /// The signed angle of this vector against the positive x axis, in
    /// thousandths of a radian, via the kernel's own arctangent.
    pub fn angle(&self) -> (r: i64)
        ensures
            r == crate::trig::atan2_milli(self.y as int, self.x as int),
    {
        crate::trig::atan2_at(self.y, self.x)
    }

    /// The signed angle from this vector to `other`, in thousandths of a
    /// radian: the arctangent of the exact cross product over the exact
    /// dot product.
    pub fn angle_between(&self, other: &Vec2) -> (r: i64)
        requires
            self.bounded(COORD_LIMIT as int),
            other.bounded(COORD_LIMIT as int),
        ensures
            r == crate::trig::atan2_milli(
                self.x * other.y - self.y * other.x,
                self.x * other.x + self.y * other.y,
            ),
    {
        let d = self.dot(other);
        let c = self.cross(other);
        crate::trig::atan2_at(c, d)
    }

    /// Rotation by an angle in thousandths of a radian, through the
    /// kernel's own cosine and sine.
    pub fn rotate(&self, angle: i64) -> (r: Vec2)
        requires
            self.bounded(COORD_LIMIT as int),
        ensures
            r.x == div_round(
                self.x * crate::trig::cos_ppm(angle as int) - self.y * crate::trig::sin_ppm(
                    angle as int,
                ),
                1_000_000,
            ),
            r.y == div_round(
                self.x * crate::trig::sin_ppm(angle as int) + self.y * crate::trig::cos_ppm(
                    angle as int,
                ),
                1_000_000,
            ),
    {
        let (c, s) = crate::trig::cos_sin_ppm(angle);
        proof {
            lemma_rotate_fits(self.x as int, self.y as int, c as int, s as int);
        }
        let xn: i128 = (self.x as i128) * (c as i128) - (self.y as i128) * (s as i128);
        let yn: i128 = (self.x as i128) * (s as i128) + (self.y as i128) * (c as i128);
        let x = crate::num::div_round_i128(xn, 1_000_000) as i64;
        let y = crate::num::div_round_i128(yn, 1_000_000) as i64;
        Vec2 { x, y }
    }

    /// Rotation by a quarter turn counter-clockwise.
    pub fn perpendicular(&self) -> (r: Vec2)
        requires
            self.bounded(4 * COORD_LIMIT as int),
        ensures
            r.x == -self.y,
            r.y == self.x,
    {
        Vec2 { x: -self.y, y: self.x }
    }

    /// Linear interpolation toward `other` by the fixed-point parameter
    /// `t` (thousandths; 0 is `self`, 1000 is `other`).
    pub fn lerp(&self, other: &Vec2, t: i64) -> (r: Vec2)
        requires
            self.bounded(COORD_LIMIT as int),
            other.bounded(COORD_LIMIT as int),
            0 <= t <= 1000,
        ensures
            r.x == self.x + div_round((other.x - self.x) * t, 1000),
            r.y == self.y + div_round((other.y - self.y) * t, 1000),
    {
        let dx = crate::num::mul_div_round(other.x - self.x, t, 1000);
        let dy = crate::num::mul_div_round(other.y - self.y, t, 1000);
        Vec2 { x: self.x + dx, y: self.y + dy }
    }
}

/// A product of two in-range coordinates fits in an `i64`.
proof fn lemma_product_fits(a: int, b: int)
    requires
        abs_int(a) <= COORD_LIMIT,
        abs_int(b) <= COORD_LIMIT,
    ensures
        -4_000_000_000_000_000_000 <= a * b <= 4_000_000_000_000_000_000,
{
    assert(-4_000_000_000_000_000_000 <= a * b <= 4_000_000_000_000_000_000) by (nonlinear_arith)
        requires
            abs_int(a) <= 2_000_000_000,
            abs_int(b) <= 2_000_000_000,
    ;
}

/// Scaling an in-range coordinate by a bounded factor stays within wide
/// range and the rounded result fits in an `i64`.
proof fn lemma_scale_fits(a: int, s: int)
    requires
        abs_int(a) <= COORD_LIMIT,
        abs_int(s) <= 1_000_000,
    ensures
        -0x2000_0000_0000_0000_0000_0000_0000_0000 <= a * s
            <= 0x2000_0000_0000_0000_0000_0000_0000_0000,
        -0x7fff_ffff_ffff_ffff <= div_round(a * s, 1000) <= 0x7fff_ffff_ffff_ffff,
{
    assert(abs_int(a * s) <= 2_000_000_000_000_000_000) by (nonlinear_arith)
        requires
            abs_int(a) <= 2_000_000_000,
            abs_int(s) <= 1_000_000,
    ;
    crate::num::lemma_div_round_magnitude(a * s, 1000);
}

/// The exact sum of the squares of two components, computed wide.
fn square_sum(x: i64, y: i64) -> (r: u128)
    requires
        abs_int(x as int) <= 2 * COORD_LIMIT,
        abs_int(y as int) <= 2 * COORD_LIMIT,
    ensures
        r == x as int * x as int + y as int * y as int,
        r < 49_000_000_000_000_000_000,
{
    proof {
        assert(0 <= x as int * x as int <= 16_000_000_000_000_000_000) by (nonlinear_arith)
            requires
                abs_int(x as int) <= 4_000_000_000,
        ;
        assert(0 <= y as int * y as int <= 16_000_000_000_000_000_000) by (nonlinear_arith)
            requires
                abs_int(y as int) <= 4_000_000_000,
        ;
    }
    let xs: i128 = (x as i128) * (x as i128);
    let ys: i128 = (y as i128) * (y as i128);
    (xs + ys) as u128
}

/// The rotation products stay wide-range and the scaled results fit.
proof fn lemma_rotate_fits(x: int, y: int, c: int, s: int)
    requires
        abs_int(x) <= COORD_LIMIT,
        abs_int(y) <= COORD_LIMIT,
        abs_int(c) <= 1_000_000,
        abs_int(s) <= 1_000_000,
    ensures
        abs_int(x * c) <= 2_000_000_000_000_000,
        abs_int(y * s) <= 2_000_000_000_000_000,
        abs_int(x * s) <= 2_000_000_000_000_000,
        abs_int(y * c) <= 2_000_000_000_000_000,
        abs_int(x * c - y * s) <= 4_000_000_000 * 1_000_000,
        abs_int(x * s + y * c) <= 4_000_000_000 * 1_000_000,
        -4_000_000_001 <= div_round(x * c - y * s, 1_000_000) <= 4_000_000_001,
        -4_000_000_001 <= div_round(x * s + y * c, 1_000_000) <= 4_000_000_001,
{
    assert(abs_int(x * c) <= 2_000_000_000_000_000 && abs_int(y * s) <= 2_000_000_000_000_000
        && abs_int(x * s) <= 2_000_000_000_000_000 && abs_int(y * c)
        <= 2_000_000_000_000_000) by (nonlinear_arith)
        requires
            abs_int(x) <= 2_000_000_000,
            abs_int(y) <= 2_000_000_000,
            abs_int(c) <= 1_000_000,
            abs_int(s) <= 1_000_000,
    ;
    crate::num::lemma_div_round_quotient_bound(x * c - y * s, 1_000_000, 4_000_000_000);
    crate::num::lemma_div_round_quotient_bound(x * s + y * c, 1_000_000, 4_000_000_000);
    assert(abs_int(x * c - y * s) <= 4_000_000_000 * 1_000_000) by (nonlinear_arith)
        requires
            abs_int(x * c) <= 2_000_000_000_000_000,
            abs_int(y * s) <= 2_000_000_000_000_000,
    ;
    assert(abs_int(x * s + y * c) <= 4_000_000_000 * 1_000_000) by (nonlinear_arith)
        requires
            abs_int(x * s) <= 2_000_000_000_000_000,
            abs_int(y * c) <= 2_000_000_000_000_000,
    ;
}

/// A square root of a value below `b * b` is below `b`.
proof fn lemma_sqrt_within(n: int, r: int, b: int)
    requires
        0 <= r,
        0 <= b,
        r * r <= n < b * b,
    ensures
        r < b,
{
    assert(r < b) by (nonlinear_arith)
        requires
            0 <= r,
            0 <= b,
            r * r <= n < b * b,
    ;
}

} // verus!
