//! Segment and ray intersection over exact integer cross products.
//!
//! The parallel test compares an exact cross product with zero, and the
//! parameter-range tests compare exact numerators against the exact
//! denominator, so no intersection is missed or invented by rounding;
//! only the returned point and parameter are rounded to the fixed-point
//! grid.

use vstd::prelude::*;

use crate::num::{abs_int, div_round_signed, COORD_LIMIT};
use crate::vec2::Vec2;

verus! {

/// The cross product of `(b - a)` and `(d - c)`.
pub open spec fn cross_of(a: Vec2, b: Vec2, c: Vec2, d: Vec2) -> int {
    (b.x - a.x) * (d.y - c.y) - (b.y - a.y) * (d.x - c.x)
}

/// A rational parameter `n / d` lies in the unit interval.
pub open spec fn param_in_unit(n: int, d: int) -> bool {
    (d > 0 && 0 <= n <= d) || (d < 0 && d <= n <= 0)
}

/// A rational parameter `n / d` is nonnegative.
pub open spec fn param_nonneg(n: int, d: int) -> bool {
    (d > 0 && 0 <= n) || (d < 0 && n <= 0)
}

/// Intersection of the segments `(p1, p2)` and `(p3, p4)`: the point,
/// when the segments are not parallel and the intersection parameters
/// of both lie in the unit interval.
pub fn segment_segment(p1: Vec2, p2: Vec2, p3: Vec2, p4: Vec2) -> (r: Option<Vec2>)
    requires
        p1.bounded(COORD_LIMIT as int),
        p2.bounded(COORD_LIMIT as int),
        p3.bounded(COORD_LIMIT as int),
        p4.bounded(COORD_LIMIT as int),
    ensures
        ({
            let cross = cross_of(p1, p2, p3, p4);
            let t_num = cross_of(p1, p3, p3, p4);
            let u_num = cross_of(p1, p3, p1, p2);
            &&& (r is Some <==> cross != 0 && param_in_unit(t_num, cross) && param_in_unit(
                u_num,
                cross,
            ))
            &&& (r matches Some(p) ==> p.x == p1.x + div_round_signed((p2.x - p1.x) * t_num, cross)
                && p.y == p1.y + div_round_signed((p2.y - p1.y) * t_num, cross))
        }),
{
    let d1x: i128 = (p2.x as i128) - (p1.x as i128);
    let d1y: i128 = (p2.y as i128) - (p1.y as i128);
    let d2x: i128 = (p4.x as i128) - (p3.x as i128);
    let d2y: i128 = (p4.y as i128) - (p3.y as i128);
    let d3x: i128 = (p3.x as i128) - (p1.x as i128);
    let d3y: i128 = (p3.y as i128) - (p1.y as i128);
    proof {
        lemma_cross_fits(d1x as int, d1y as int, d2x as int, d2y as int);
        lemma_cross_fits(d3x as int, d3y as int, d2x as int, d2y as int);
        lemma_cross_fits(d3x as int, d3y as int, d1x as int, d1y as int);
    }
    let cross: i128 = d1x * d2y - d1y * d2x;
    if cross == 0 {
        return None;
    }
    let t_num: i128 = d3x * d2y - d3y * d2x;
    let u_num: i128 = d3x * d1y - d3y * d1x;
    let t_in = if cross > 0 {
        0 <= t_num && t_num <= cross
    } else {
        cross <= t_num && t_num <= 0
    };
    let u_in = if cross > 0 {
        0 <= u_num && u_num <= cross
    } else {
        cross <= u_num && u_num <= 0
    };
    if t_in && u_in {
        proof {
            lemma_point_fits(d1x as int, t_num as int, cross as int);
            lemma_point_fits(d1y as int, t_num as int, cross as int);
        }
        let x = p1.x + crate::num::div_round_signed_i128(d1x * t_num, cross) as i64;
        let y = p1.y + crate::num::div_round_signed_i128(d1y * t_num, cross) as i64;
        Some(Vec2 { x, y })
    } else {
        None
    }
}

/// Intersection of the ray from `origin` along `direction` with the
/// segment `(p1, p2)`: the ray parameter in thousandths (a value of
/// 1000 is one full direction vector along the ray), when the lines
/// are not parallel, the hit lies within the segment, and the hit is
/// ahead of the ray. Nothing comes back for a parameter too large for
/// the fixed-point range.
pub fn ray_segment(origin: Vec2, direction: Vec2, p1: Vec2, p2: Vec2) -> (r: Option<i64>)
    requires
        origin.bounded(COORD_LIMIT as int),
        direction.bounded(COORD_LIMIT as int),
        p1.bounded(COORD_LIMIT as int),
        p2.bounded(COORD_LIMIT as int),
    ensures
        ({
            let cross = direction.x * (p2.y - p1.y) - direction.y * (p2.x - p1.x);
            let t_num = (p1.x - origin.x) * (p2.y - p1.y) - (p1.y - origin.y) * (p2.x - p1.x);
            let u_num = (p1.x - origin.x) * direction.y - (p1.y - origin.y) * direction.x;
            let t = div_round_signed(1000 * t_num, cross);
            &&& (r is Some <==> cross != 0 && param_nonneg(t_num, cross) && param_in_unit(
                u_num,
                cross,
            ) && t <= i64::MAX)
            &&& (r matches Some(v) ==> v == t)
        }),
{
    let dx: i128 = direction.x as i128;
    let dy: i128 = direction.y as i128;
    let sx: i128 = (p2.x as i128) - (p1.x as i128);
    let sy: i128 = (p2.y as i128) - (p1.y as i128);
    let wx: i128 = (p1.x as i128) - (origin.x as i128);
    let wy: i128 = (p1.y as i128) - (origin.y as i128);
    proof {
        lemma_cross_fits(dx as int, dy as int, sx as int, sy as int);
        lemma_cross_fits(wx as int, wy as int, sx as int, sy as int);
        lemma_cross_fits(wx as int, wy as int, dx as int, dy as int);
    }
    let cross: i128 = dx * sy - dy * sx;
    if cross == 0 {
        return None;
    }
    let t_num: i128 = wx * sy - wy * sx;
    let u_num: i128 = wx * dy - wy * dx;
    let t_ok = if cross > 0 {
        0 <= t_num
    } else {
        t_num <= 0
    };
    let u_in = if cross > 0 {
        0 <= u_num && u_num <= cross
    } else {
        cross <= u_num && u_num <= 0
    };
    if t_ok && u_in {
        let t = crate::num::div_round_signed_i128(1000 * t_num, cross);
        if t <= i64::MAX as i128 {
            Some(t as i64)
        } else {
            None
        }
    } else {
        None
    }
}

/// The exact cross product of bounded differences fits far inside the
/// wide range.
proof fn lemma_cross_fits(ax: int, ay: int, bx: int, by: int)
    requires
        abs_int(ax) <= 4 * COORD_LIMIT as int,
        abs_int(ay) <= 4 * COORD_LIMIT as int,
        abs_int(bx) <= 4 * COORD_LIMIT as int,
        abs_int(by) <= 4 * COORD_LIMIT as int,
    ensures
        abs_int(ax * by) <= 64_000_000_000_000_000_000,
        abs_int(ay * bx) <= 64_000_000_000_000_000_000,
        abs_int(ax * by - ay * bx) <= 128_000_000_000_000_000_000,
{
    assert(abs_int(ax * by) <= 64_000_000_000_000_000_000 && abs_int(ay * bx)
        <= 64_000_000_000_000_000_000) by (nonlinear_arith)
        requires
            abs_int(ax) <= 8_000_000_000,
            abs_int(ay) <= 8_000_000_000,
            abs_int(bx) <= 8_000_000_000,
            abs_int(by) <= 8_000_000_000,
    ;
}

/// The interpolated offset fits beside its anchor coordinate: the
/// parameter numerator is within the denominator, so the quotient is
/// within the difference.
proof fn lemma_point_fits(diff: int, t_num: int, cross: int)
    requires
        cross != 0,
        abs_int(diff) <= 4 * COORD_LIMIT as int,
        abs_int(t_num) <= abs_int(cross),
        abs_int(t_num) <= 128_000_000_000_000_000_000,
        abs_int(cross) <= 128_000_000_000_000_000_000,
    ensures
        abs_int(diff * t_num) <= 0x1000_0000_0000_0000_0000_0000_0000_0000,
        -abs_int(diff) - 1 <= div_round_signed(diff * t_num, cross) <= abs_int(diff) + 1,
{
    assert(abs_int(diff * t_num) <= 0x1000_0000_0000_0000_0000_0000_0000_0000 && abs_int(
        diff * t_num,
    ) <= abs_int(diff) * abs_int(cross)) by (nonlinear_arith)
        requires
            abs_int(diff) <= 8_000_000_000,
            abs_int(t_num) <= abs_int(cross),
            abs_int(t_num) <= 128_000_000_000_000_000_000,
            abs_int(cross) <= 128_000_000_000_000_000_000,
    ;
    if cross > 0 {
        crate::num::lemma_div_round_quotient_bound(diff * t_num, cross, abs_int(diff));
    } else {
        crate::num::lemma_div_round_quotient_bound(-(diff * t_num), -cross, abs_int(diff));
    }
}

} // verus!
