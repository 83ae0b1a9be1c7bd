//! Flattening: deterministic sampling of curve segments into point lists.
//!
//! Quadratic beziers are evaluated at sixteen uniform parameter steps
//! (seventeen points including the start), cubic beziers at twenty-four
//! (twenty-five points), and arcs at one step per tenth of a radian of
//! sweep with a floor of four steps. The spec functions below define every
//! sampled coordinate exactly; the drawing-exchange and print emitters,
//! which sample in mirrored or translated space, are proved against them.

use vstd::prelude::*;

use crate::num::{abs_int, div_round};
use crate::pattern::Point2D;
use crate::trig::{cos_ppm, sin_ppm};

verus! {

/// Upper bound on a sampled coordinate: world coordinates reach three
/// times the stored-coordinate limit, and each bezier in a chain can move
/// the running point by one more thousandth.
pub const PEN_LIMIT: i64 = 8_000_000_000;

/// One blended quadratic coordinate: the parameter is `i / 16`.
pub open spec fn quad_coord(i: int, a0: int, ac: int, a1: int) -> int {
    div_round((16 - i) * (16 - i) * a0 + 2 * (16 - i) * i * ac + i * i * a1, 256)
}

/// The seventeen quadratic sample points from `(x0, y0)` toward
/// `(x1, y1)` with control `(cx, cy)`.
pub open spec fn quad_points(x0: int, y0: int, cx: int, cy: int, x1: int, y1: int) -> Seq<
    (int, int),
> {
    Seq::new(17, |i: int| (quad_coord(i, x0, cx, x1), quad_coord(i, y0, cy, y1)))
}

/// One blended cubic coordinate: the parameter is `i / 24`.
pub open spec fn cubic_coord(i: int, a0: int, ac1: int, ac2: int, a1: int) -> int {
    div_round(
        (24 - i) * (24 - i) * (24 - i) * a0 + 3 * (24 - i) * (24 - i) * i * ac1 + 3 * (24 - i) * i
            * i * ac2 + i * i * i * a1,
        13824,
    )
}

/// The twenty-five cubic sample points.
pub open spec fn cubic_points(
    x0: int,
    y0: int,
    c1x: int,
    c1y: int,
    c2x: int,
    c2y: int,
    x1: int,
    y1: int,
) -> Seq<(int, int)> {
    Seq::new(
        25,
        |i: int| (cubic_coord(i, x0, c1x, c2x, x1), cubic_coord(i, y0, c1y, c2y, y1)),
    )
}

/// Number of arc sampling steps: one per tenth of a radian of sweep,
/// never fewer than four.
pub open spec fn arc_steps(start: int, end: int) -> int {
    let c = (abs_int(end - start) + 99) / 100;
    if c < 4 {
        4
    } else {
        c
    }
}

/// The angle of arc sample `i` of `steps`: linear interpolation from
/// `start` to `end`, in thousandths of a radian.
pub open spec fn arc_angle(start: int, end: int, steps: int, i: int) -> int {
    start + div_round((end - start) * i, steps)
}

/// The arc point at angle `ang` around `(cx, cy)` with radius `r`.
pub open spec fn arc_point(cx: int, cy: int, r: int, ang: int) -> (int, int) {
    (cx + div_round(r * cos_ppm(ang), 1_000_000), cy + div_round(r * sin_ppm(ang), 1_000_000))
}

/// The sampled points of an arc over `steps` steps, the start point
/// excluded: sample `i` sits at the interpolated angle of step `i + 1`.
pub open spec fn arc_points_n(cx: int, cy: int, r: int, start: int, end: int, steps: int) -> Seq<
    (int, int),
> {
    Seq::new(steps as nat, |i: int| arc_point(cx, cy, r, arc_angle(start, end, steps, i + 1)))
}

/// The sampled points of an arc at the export resolution: one step per
/// tenth of a radian of sweep, at least four.
pub open spec fn arc_points(cx: int, cy: int, r: int, start: int, end: int) -> Seq<(int, int)> {
    arc_points_n(cx, cy, r, start, end, arc_steps(start, end))
}

/// All coordinates of a point sequence are within `b`.
pub open spec fn pts_bounded(s: Seq<(int, int)>, b: int) -> bool {
    forall|i: int|
        0 <= i < s.len() ==> abs_int((#[trigger] s[i]).0) <= b && abs_int(s[i].1) <= b
}

/// One blended quadratic coordinate, executable.
fn quad_coord_at(i: i64, a0: i64, ac: i64, a1: i64, Ghost(b): Ghost<int>) -> (r: i64)
    requires
        0 <= i <= 16,
        0 <= b <= PEN_LIMIT,
        abs_int(a0 as int) <= b,
        abs_int(ac as int) <= b,
        abs_int(a1 as int) <= b,
    ensures
        r == quad_coord(i as int, a0 as int, ac as int, a1 as int),
        abs_int(r as int) <= b + 1,
{
    let m: i128 = (16 - i) as i128;
    let w: i128 = i as i128;
    proof {
        assert(0 <= m * m <= 256 && 0 <= 2 * m * w <= 256 && 0 <= w * w <= 256 && m * m + 2 * m * w
            + w * w == 256) by (nonlinear_arith)
            requires
                0 <= w <= 16,
                m == 16 - w,
        ;
    }
    let ca: i128 = m * m;
    let cb: i128 = 2 * m * w;
    let cc: i128 = w * w;
    proof {
        lemma_blend3_bound(ca as int, cb as int, cc as int, a0 as int, ac as int, a1 as int, b);
    }
    let sum: i128 = ca * (a0 as i128) + cb * (ac as i128) + cc * (a1 as i128);
    proof {
        crate::num::lemma_div_round_quotient_bound(sum as int, 256, b + 1);
    }
    crate::num::div_round_i128(sum, 256) as i64
}

/// A three-term blend with nonnegative coefficients summing to 256 stays
/// within `256 * b`, so the scaled result stays within `b + 1`.
proof fn lemma_blend3_bound(ca: int, cb: int, cc: int, a0: int, ac: int, a1: int, b: int)
    requires
        0 <= ca,
        0 <= cb,
        0 <= cc,
        ca + cb + cc == 256,
        0 <= b,
        abs_int(a0) <= b,
        abs_int(ac) <= b,
        abs_int(a1) <= b,
    ensures
        abs_int(ca * a0) <= 256 * b,
        abs_int(cb * ac) <= 256 * b,
        abs_int(cc * a1) <= 256 * b,
        abs_int(ca * a0 + cb * ac + cc * a1) <= 256 * b <= (b + 1) * 256,
{
    lemma_term_abs(ca, a0, b);
    lemma_term_abs(cb, ac, b);
    lemma_term_abs(cc, a1, b);
    lemma_mul_le(ca, 256, b);
    lemma_mul_le(cb, 256, b);
    lemma_mul_le(cc, 256, b);
    assert(ca * b + cb * b + cc * b == (ca + cb + cc) * b) by (nonlinear_arith);
}

/// Multiplying a larger nonnegative coefficient by a nonnegative bound
/// gives a larger product.
proof fn lemma_mul_le(c: int, d: int, b: int)
    requires
        0 <= c <= d,
        0 <= b,
    ensures
        c * b <= d * b,
{
    assert(c * b <= d * b) by (nonlinear_arith)
        requires
            0 <= c <= d,
            0 <= b,
    ;
}

/// Sample a quadratic bezier from `(x0, y0)` with control `(cx, cy)` to
/// `(x1, y1)`: seventeen points, the first being the start point as the
/// formula reproduces it.
pub fn sample_quadratic(
    x0: i64,
    y0: i64,
    cx: i64,
    cy: i64,
    x1: i64,
    y1: i64,
    Ghost(b): Ghost<int>,
) -> (pts: Vec<Point2D>)
    requires
        0 <= b <= PEN_LIMIT,
        abs_int(x0 as int) <= b,
        abs_int(y0 as int) <= b,
        abs_int(cx as int) <= b,
        abs_int(cy as int) <= b,
        abs_int(x1 as int) <= b,
        abs_int(y1 as int) <= b,
    ensures
        pts.deep_view() == quad_points(
            x0 as int,
            y0 as int,
            cx as int,
            cy as int,
            x1 as int,
            y1 as int,
        ),
        pts@.len() == 17,
        pts_bounded(pts.deep_view(), b + 1),
{
    let ghost target = quad_points(x0 as int, y0 as int, cx as int, cy as int, x1 as int, y1 as int);
    let mut pts: Vec<Point2D> = Vec::new();
    let mut i: i64 = 0;
    while i <= 16
        invariant
            0 <= i <= 17,
            pts@.len() == i,
            0 <= b <= PEN_LIMIT,
            abs_int(x0 as int) <= b,
            abs_int(y0 as int) <= b,
            abs_int(cx as int) <= b,
            abs_int(cy as int) <= b,
            abs_int(x1 as int) <= b,
            abs_int(y1 as int) <= b,
            target == quad_points(x0 as int, y0 as int, cx as int, cy as int, x1 as int, y1 as int),
            pts.deep_view() =~= target.take(i as int),
            pts_bounded(pts.deep_view(), b + 1),
        decreases 17 - i,
    {
        let px = quad_coord_at(i, x0, cx, x1, Ghost(b));
        let py = quad_coord_at(i, y0, cy, y1, Ghost(b));
        pts.push(Point2D { x: px, y: py });
        proof {
            assert(pts.deep_view() =~= target.take(i + 1));
        }
        i = i + 1;
    }
    proof {
        assert(pts.deep_view() =~= target);
    }
    pts
}

/// One blended cubic coordinate, executable.
fn cubic_coord_at(i: i64, a0: i64, ac1: i64, ac2: i64, a1: i64, Ghost(b): Ghost<int>) -> (r: i64)
    requires
        0 <= i <= 24,
        0 <= b <= PEN_LIMIT,
        abs_int(a0 as int) <= b,
        abs_int(ac1 as int) <= b,
        abs_int(ac2 as int) <= b,
        abs_int(a1 as int) <= b,
    ensures
        r == cubic_coord(i as int, a0 as int, ac1 as int, ac2 as int, a1 as int),
        abs_int(r as int) <= b + 1,
{
    let m: i128 = (24 - i) as i128;
    let w: i128 = i as i128;
    proof {
        assert(0 <= m * m <= 576 && 0 <= w * w <= 576 && 0 <= 3 * m * m <= 1728 && 0 <= 3 * m * w
            <= 1728 && 0 <= m * m * m <= 13824 && 0 <= 3 * m * m * w <= 13824 && 0 <= 3 * m * w * w
            <= 13824 && 0 <= w * w * w <= 13824 && m * m * m + 3 * m * m * w + 3 * m * w * w + w * w
            * w == 13824) by (nonlinear_arith)
            requires
                0 <= w <= 24,
                m == 24 - w,
        ;
    }
    let ca: i128 = m * m * m;
    let cb: i128 = 3 * m * m * w;
    let cc: i128 = 3 * m * w * w;
    let cd: i128 = w * w * w;
    proof {
        lemma_blend4_bound(
            ca as int,
            cb as int,
            cc as int,
            cd as int,
            a0 as int,
            ac1 as int,
            ac2 as int,
            a1 as int,
            b,
        );
    }
    let sum: i128 = ca * (a0 as i128) + cb * (ac1 as i128) + cc * (ac2 as i128) + cd * (a1 as i128);
    proof {
        crate::num::lemma_div_round_quotient_bound(sum as int, 13824, b + 1);
    }
    crate::num::div_round_i128(sum, 13824) as i64
}

/// A four-term blend with nonnegative coefficients summing to 13824 stays
/// within `13824 * b`.
proof fn lemma_blend4_bound(
    ca: int,
    cb: int,
    cc: int,
    cd: int,
    a0: int,
    ac1: int,
    ac2: int,
    a1: int,
    b: int,
)
    requires
        0 <= ca,
        0 <= cb,
        0 <= cc,
        0 <= cd,
        ca + cb + cc + cd == 13824,
        0 <= b,
        abs_int(a0) <= b,
        abs_int(ac1) <= b,
        abs_int(ac2) <= b,
        abs_int(a1) <= b,
    ensures
        abs_int(ca * a0) <= 13824 * b,
        abs_int(cb * ac1) <= 13824 * b,
        abs_int(cc * ac2) <= 13824 * b,
        abs_int(cd * a1) <= 13824 * b,
        abs_int(ca * a0 + cb * ac1 + cc * ac2 + cd * a1) <= 13824 * b <= (b + 1) * 13824,
{
    lemma_term_abs(ca, a0, b);
    lemma_term_abs(cb, ac1, b);
    lemma_term_abs(cc, ac2, b);
    lemma_term_abs(cd, a1, b);
    lemma_mul_le(ca, 13824, b);
    lemma_mul_le(cb, 13824, b);
    lemma_mul_le(cc, 13824, b);
    lemma_mul_le(cd, 13824, b);
    assert(ca * b + cb * b + cc * b + cd * b == (ca + cb + cc + cd) * b) by (nonlinear_arith);
}

/// A nonnegative coefficient times a bounded value is bounded by the
/// coefficient times the bound.
proof fn lemma_term_abs(c: int, a: int, b: int)
    requires
        0 <= c,
        abs_int(a) <= b,
    ensures
        abs_int(c * a) <= c * b,
{
    assert(abs_int(c * a) <= c * b) by (nonlinear_arith)
        requires
            0 <= c,
            abs_int(a) <= b,
    ;
}

/// Sample a cubic bezier: twenty-five points including the start.
pub fn sample_cubic(
    x0: i64,
    y0: i64,
    c1x: i64,
    c1y: i64,
    c2x: i64,
    c2y: i64,
    x1: i64,
    y1: i64,
    Ghost(b): Ghost<int>,
) -> (pts: Vec<Point2D>)
    requires
        0 <= b <= PEN_LIMIT,
        abs_int(x0 as int) <= b,
        abs_int(y0 as int) <= b,
        abs_int(c1x as int) <= b,
        abs_int(c1y as int) <= b,
        abs_int(c2x as int) <= b,
        abs_int(c2y as int) <= b,
        abs_int(x1 as int) <= b,
        abs_int(y1 as int) <= b,
    ensures
        pts.deep_view() == cubic_points(
            x0 as int,
            y0 as int,
            c1x as int,
            c1y as int,
            c2x as int,
            c2y as int,
            x1 as int,
            y1 as int,
        ),
        pts@.len() == 25,
        pts_bounded(pts.deep_view(), b + 1),
{
    let ghost target = cubic_points(
        x0 as int,
        y0 as int,
        c1x as int,
        c1y as int,
        c2x as int,
        c2y as int,
        x1 as int,
        y1 as int,
    );
    let mut pts: Vec<Point2D> = Vec::new();
    let mut i: i64 = 0;
    while i <= 24
        invariant
            0 <= i <= 25,
            pts@.len() == i,
            0 <= b <= PEN_LIMIT,
            abs_int(x0 as int) <= b,
            abs_int(y0 as int) <= b,
            abs_int(c1x as int) <= b,
            abs_int(c1y as int) <= b,
            abs_int(c2x as int) <= b,
            abs_int(c2y as int) <= b,
            abs_int(x1 as int) <= b,
            abs_int(y1 as int) <= b,
            target == cubic_points(
                x0 as int,
                y0 as int,
                c1x as int,
                c1y as int,
                c2x as int,
                c2y as int,
                x1 as int,
                y1 as int,
            ),
            pts.deep_view() =~= target.take(i as int),
            pts_bounded(pts.deep_view(), b + 1),
        decreases 25 - i,
    {
        let px = cubic_coord_at(i, x0, c1x, c2x, x1, Ghost(b));
        let py = cubic_coord_at(i, y0, c1y, c2y, y1, Ghost(b));
        pts.push(Point2D { x: px, y: py });
        proof {
            assert(pts.deep_view() =~= target.take(i + 1));
        }
        i = i + 1;
    }
    proof {
        assert(pts.deep_view() =~= target);
    }
    pts
}

/// The number of sampling steps for an arc sweep, as a machine integer.
/// The step count is a function of the sweep alone.
pub fn arc_steps_count(start: i64, end: i64) -> (steps: u64)
    requires
        abs_int(start as int) <= crate::num::ANGLE_LIMIT,
        abs_int(end as int) <= crate::num::ANGLE_LIMIT,
    ensures
        steps == arc_steps(start as int, end as int),
        4 <= steps <= 200_001,
{
    let d: i64 = if end >= start {
        end - start
    } else {
        start - end
    };
    let c: i64 = (d + 99) / 100;
    if c < 4 {
        4
    } else {
        c as u64
    }
}

/// The sample angle for arc step `i`, exact at both endpoints.
pub fn arc_angle_at(start: i64, end: i64, steps: u64, i: u64) -> (ang: i64)
    requires
        abs_int(start as int) <= crate::num::ANGLE_LIMIT,
        abs_int(end as int) <= crate::num::ANGLE_LIMIT,
        1 <= steps <= 200_001,
        i <= steps,
    ensures
        ang == arc_angle(start as int, end as int, steps as int, i as int),
        abs_int(ang as int) <= 3 * crate::num::ANGLE_LIMIT + 1,
{
    proof {
        assert(abs_int((end as int - start as int) * i as int) <= abs_int(
            end as int - start as int,
        ) * (steps as int) <= 20_000_000 * 200_001) by (nonlinear_arith)
            requires
                0 <= i <= steps <= 200_001,
                abs_int(end as int - start as int) <= 20_000_000,
        ;
        crate::num::lemma_div_round_quotient_bound(
            (end as int - start as int) * i as int,
            steps as int,
            abs_int(end as int - start as int),
        );
    }
    let num: i128 = ((end - start) as i128) * (i as i128);
    let delta = crate::num::div_round_i128(num, steps as i128) as i64;
    start + delta
}

/// Sample a whole arc over a given step count: one point per step, from
/// the first step to the full sweep.
pub fn sample_arc(cx: i64, cy: i64, r: i64, start: i64, end: i64, steps: u64) -> (pts: Vec<
    Point2D,
>)
    requires
        abs_int(cx as int) <= 4 * crate::num::COORD_LIMIT as int,
        abs_int(cy as int) <= 4 * crate::num::COORD_LIMIT as int,
        0 <= r <= crate::num::COORD_LIMIT,
        abs_int(start as int) <= crate::num::ANGLE_LIMIT,
        abs_int(end as int) <= crate::num::ANGLE_LIMIT,
        1 <= steps <= 200_001,
    ensures
        pts.deep_view() == arc_points_n(
            cx as int,
            cy as int,
            r as int,
            start as int,
            end as int,
            steps as int,
        ),
        pts@.len() == steps,
        forall|j: int|
            0 <= j < pts.deep_view().len() ==> abs_int((#[trigger] pts.deep_view()[j]).0)
                <= abs_int(cx as int) + r + 1 && abs_int(pts.deep_view()[j].1) <= abs_int(
                cy as int,
            ) + r + 1,
{
    let ghost target = arc_points_n(
        cx as int,
        cy as int,
        r as int,
        start as int,
        end as int,
        steps as int,
    );
    let mut pts: Vec<Point2D> = Vec::new();
    let mut i: u64 = 1;
    while i <= steps
        invariant
            1 <= i <= steps + 1,
            1 <= steps <= 200_001,
            abs_int(cx as int) <= 4 * crate::num::COORD_LIMIT as int,
            abs_int(cy as int) <= 4 * crate::num::COORD_LIMIT as int,
            0 <= r <= crate::num::COORD_LIMIT,
            abs_int(start as int) <= crate::num::ANGLE_LIMIT,
            abs_int(end as int) <= crate::num::ANGLE_LIMIT,
            target == arc_points_n(
                cx as int,
                cy as int,
                r as int,
                start as int,
                end as int,
                steps as int,
            ),
            target.len() == steps,
            pts@.len() == i - 1,
            pts.deep_view() =~= target.take(i - 1),
            forall|j: int|
                0 <= j < pts.deep_view().len() ==> abs_int((#[trigger] pts.deep_view()[j]).0)
                    <= abs_int(cx as int) + r + 1 && abs_int(pts.deep_view()[j].1) <= abs_int(
                    cy as int,
                ) + r + 1,
        decreases steps + 1 - i,
    {
        let ang = arc_angle_at(start, end, steps, i);
        let p = arc_point_at(cx, cy, r, ang);
        pts.push(p);
        proof {
            assert(p@ == target[i - 1]);
            assert(pts.deep_view() =~= target.take(i as int));
        }
        i = i + 1;
    }
    proof {
        assert(pts.deep_view() =~= target);
    }
    pts
}

/// The sampled arc point for an angle, in the world frame of the given
/// center.
pub fn arc_point_at(cx: i64, cy: i64, r: i64, ang: i64) -> (p: Point2D)
    requires
        abs_int(cx as int) <= PEN_LIMIT,
        abs_int(cy as int) <= PEN_LIMIT,
        0 <= r <= crate::num::COORD_LIMIT,
    ensures
        p@ == arc_point(cx as int, cy as int, r as int, ang as int),
        abs_int(p.x as int) <= abs_int(cx as int) + r + 1,
        abs_int(p.y as int) <= abs_int(cy as int) + r + 1,
{
    let (c, s) = crate::trig::cos_sin_ppm(ang);
    let dx = crate::num::mul_div_round(r, c, 1_000_000);
    let dy = crate::num::mul_div_round(r, s, 1_000_000);
    Point2D { x: cx + dx, y: cy + dy }
}

} // verus!
