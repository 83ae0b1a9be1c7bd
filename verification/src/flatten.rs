//! Pen-threaded flattening of whole outlines.
//!
//! An outline starts at the piece origin and each segment contributes
//! points in absolute world coordinates: a line its endpoint, a bezier its
//! sample points past the first (the first reproduces the running pen
//! position), an arc its sampled points. `world_polyline` is the full
//! point list the print emitter draws; `world_chain` lists only the
//! vertices a straight-line chain visits (an arc contributes just its
//! endpoint), which is what the drawing-exchange emitter walks in mirrored
//! coordinates.

use vstd::prelude::*;

use crate::num::{abs_int, div_round, ANGLE_LIMIT, COORD_LIMIT};
use crate::pattern::{CurveSegment, Point2D};
use crate::sample::{
    arc_angle, arc_point, arc_steps, cubic_points, pts_bounded, quad_points, PEN_LIMIT,
};
use crate::trig::{cos_ppm, sin_ppm};

verus! {

/// Largest accepted segment count of one outline; each bezier can drift
/// the running point by one thousandth, so this also caps that drift,
/// and it keeps any tessellation's vertex count well inside the index
/// type.
pub const MAX_SEGMENTS: usize = 100_000_000;

/// The points one segment contributes to the full polyline, in world
/// coordinates, given the piece origin and the running pen position.
pub open spec fn segment_points(ox: int, oy: int, pen: (int, int), seg: CurveSegment) -> Seq<
    (int, int),
> {
    match seg {
        CurveSegment::Line { end } => seq![(ox + end.x, oy + end.y)],
        CurveSegment::QuadraticBezier { control, end } => quad_points(
            pen.0,
            pen.1,
            ox + control.x,
            oy + control.y,
            ox + end.x,
            oy + end.y,
        ).skip(1),
        CurveSegment::CubicBezier { control1, control2, end } => cubic_points(
            pen.0,
            pen.1,
            ox + control1.x,
            oy + control1.y,
            ox + control2.x,
            oy + control2.y,
            ox + end.x,
            oy + end.y,
        ).skip(1),
        CurveSegment::Arc { center, radius, start_angle, end_angle } => crate::sample::arc_points(
            ox + center.x,
            oy + center.y,
            radius as int,
            start_angle as int,
            end_angle as int,
        ),
    }
}

/// The pen position after the first `k` segments: the last contributed
/// point, or the origin while nothing contributed yet.
pub open spec fn pen_upto(ox: int, oy: int, segs: Seq<CurveSegment>, k: int) -> (int, int)
    decreases k,
{
    if k <= 0 {
        (ox, oy)
    } else {
        let pen = pen_upto(ox, oy, segs, k - 1);
        let ps = segment_points(ox, oy, pen, segs[k - 1]);
        if ps.len() > 0 {
            ps.last()
        } else {
            pen
        }
    }
}

/// The concatenated points of the first `k` segments, threading the pen.
pub open spec fn chain_upto(ox: int, oy: int, segs: Seq<CurveSegment>, k: int) -> Seq<(int, int)>
    decreases k,
{
    if k <= 0 {
        Seq::<(int, int)>::empty()
    } else {
        chain_upto(ox, oy, segs, k - 1) + segment_points(
            ox,
            oy,
            pen_upto(ox, oy, segs, k - 1),
            segs[k - 1],
        )
    }
}

/// The full flattened polyline of an outline: the origin, then every
/// sampled point.
pub open spec fn world_polyline(ox: int, oy: int, segs: Seq<CurveSegment>) -> Seq<(int, int)> {
    seq![(ox, oy)] + chain_upto(ox, oy, segs, segs.len() as int)
}

/// Append one segment's sample points to a point list and return the new
/// pen position. `k` bounds the drift the pen has accumulated so far.
#[verifier::rlimit(100)]
pub fn append_segment(
    pts: &mut Vec<Point2D>,
    ox: i64,
    oy: i64,
    px: i64,
    py: i64,
    seg: &CurveSegment,
    Ghost(k): Ghost<int>,
) -> (np: (i64, i64))
    requires
        abs_int(ox as int) <= COORD_LIMIT,
        abs_int(oy as int) <= COORD_LIMIT,
        seg.wf(),
        0 <= k <= MAX_SEGMENTS as int,
        abs_int(px as int) <= 6 * COORD_LIMIT as int / 2 + k,
        abs_int(py as int) <= 6 * COORD_LIMIT as int / 2 + k,
    ensures
        final(pts).deep_view() =~= old(pts).deep_view() + segment_points(
            ox as int,
            oy as int,
            (px as int, py as int),
            *seg,
        ),
        ({
            let ps = segment_points(ox as int, oy as int, (px as int, py as int), *seg);
            (np.0 as int, np.1 as int) == if ps.len() > 0 {
                ps.last()
            } else {
                (px as int, py as int)
            }
        }),
        abs_int(np.0 as int) <= 6 * COORD_LIMIT as int / 2 + k + 1,
        abs_int(np.1 as int) <= 6 * COORD_LIMIT as int / 2 + k + 1,
        pts_bounded(
            segment_points(ox as int, oy as int, (px as int, py as int), *seg),
            6 * COORD_LIMIT as int / 2 + k + 1,
        ),
{
    let ghost b: int = 6 * COORD_LIMIT as int / 2 + k;
    match seg {
        CurveSegment::Line { end } => {
            let ex = ox + end.x;
            let ey = oy + end.y;
            pts.push(Point2D { x: ex, y: ey });
            proof {
                let ps = segment_points(ox as int, oy as int, (px as int, py as int), *seg);
                assert(ps =~= seq![(ex as int, ey as int)]);
                assert(pts.deep_view() =~= old(pts).deep_view() + ps);
            }
            (ex, ey)
        },
        CurveSegment::QuadraticBezier { control, end } => {
            let sampled = crate::sample::sample_quadratic(
                px,
                py,
                ox + control.x,
                oy + control.y,
                ox + end.x,
                oy + end.y,
                Ghost(b),
            );
            let mut np: (i64, i64) = (px, py);
            let ghost ps = segment_points(ox as int, oy as int, (px as int, py as int), *seg);
            let mut i: usize = 1;
            while i < 17
                invariant
                    1 <= i <= 17,
                    sampled@.len() == 17,
                    sampled.deep_view() == quad_points(
                        px as int,
                        py as int,
                        ox as int + control.x,
                        oy as int + control.y,
                        ox as int + end.x,
                        oy as int + end.y,
                    ),
                    ps == sampled.deep_view().skip(1),
                    pts_bounded(sampled.deep_view(), b + 1),
                    pts.deep_view() =~= old(pts).deep_view() + ps.take(i - 1),
                    i > 1 ==> (np.0 as int, np.1 as int) == sampled.deep_view()[i - 1],
                    i == 1 ==> np == (px, py),
                decreases 17 - i,
            {
                let p = sampled[i];
                let ghost pre = pts.deep_view();
                pts.push(p);
                np = (p.x, p.y);
                proof {
                    assert(p@ == sampled.deep_view()[i as int]);
                    assert(ps[i - 1] == sampled.deep_view()[i as int]);
                    assert(ps.take(i as int) =~= ps.take(i - 1).push(p@));
                    assert(pts.deep_view() =~= pre.push(p@));
                    assert(pts.deep_view() =~= old(pts).deep_view() + ps.take(i as int));
                }
                i = i + 1;
            }
            proof {
                assert(ps.take(16) =~= ps);
                assert(ps.len() == 16);
                assert((np.0 as int, np.1 as int) == ps.last());
            }
            np
        },
        CurveSegment::CubicBezier { control1, control2, end } => {
            let sampled = crate::sample::sample_cubic(
                px,
                py,
                ox + control1.x,
                oy + control1.y,
                ox + control2.x,
                oy + control2.y,
                ox + end.x,
                oy + end.y,
                Ghost(b),
            );
            let mut np: (i64, i64) = (px, py);
            let ghost ps = segment_points(ox as int, oy as int, (px as int, py as int), *seg);
            let mut i: usize = 1;
            while i < 25
                invariant
                    1 <= i <= 25,
                    sampled@.len() == 25,
                    sampled.deep_view() == cubic_points(
                        px as int,
                        py as int,
                        ox as int + control1.x,
                        oy as int + control1.y,
                        ox as int + control2.x,
                        oy as int + control2.y,
                        ox as int + end.x,
                        oy as int + end.y,
                    ),
                    ps == sampled.deep_view().skip(1),
                    pts_bounded(sampled.deep_view(), b + 1),
                    pts.deep_view() =~= old(pts).deep_view() + ps.take(i - 1),
                    i > 1 ==> (np.0 as int, np.1 as int) == sampled.deep_view()[i - 1],
                    i == 1 ==> np == (px, py),
                decreases 25 - i,
            {
                let p = sampled[i];
                let ghost pre = pts.deep_view();
                pts.push(p);
                np = (p.x, p.y);
                proof {
                    assert(p@ == sampled.deep_view()[i as int]);
                    assert(ps[i - 1] == sampled.deep_view()[i as int]);
                    assert(ps.take(i as int) =~= ps.take(i - 1).push(p@));
                    assert(pts.deep_view() =~= pre.push(p@));
                    assert(pts.deep_view() =~= old(pts).deep_view() + ps.take(i as int));
                }
                i = i + 1;
            }
            proof {
                assert(ps.take(24) =~= ps);
                assert(ps.len() == 24);
                assert((np.0 as int, np.1 as int) == ps.last());
            }
            np
        },
        CurveSegment::Arc { center, radius, start_angle, end_angle } => {
            let acx = ox + center.x;
            let acy = oy + center.y;
            let steps = crate::sample::arc_steps_count(*start_angle, *end_angle);
            let sampled = crate::sample::sample_arc(acx, acy, *radius, *start_angle, *end_angle, steps);
            proof {
                assert forall|j: int| 0 <= j < sampled.deep_view().len() implies abs_int(
                    (#[trigger] sampled.deep_view()[j]).0,
                ) <= 3 * COORD_LIMIT as int + 1 && abs_int(sampled.deep_view()[j].1) <= 3
                    * COORD_LIMIT as int + 1 by {}
            }
            let ghost ps = segment_points(ox as int, oy as int, (px as int, py as int), *seg);
            let mut np: (i64, i64) = (px, py);
            let mut i: usize = 0;
            let n = sampled.len();
            while i < n
                invariant
                    0 <= i <= n,
                    n == sampled@.len(),
                    n >= 4,
                    ps == sampled.deep_view(),
                    pts_bounded(sampled.deep_view(), 3 * COORD_LIMIT as int + 1),
                    pts.deep_view() =~= old(pts).deep_view() + ps.take(i as int),
                    i > 0 ==> (np.0 as int, np.1 as int) == ps[i - 1],
                    i == 0 ==> np == (px, py),
                decreases n - i,
            {
                let p = sampled[i];
                let ghost pre = pts.deep_view();
                pts.push(p);
                np = (p.x, p.y);
                proof {
                    assert(p@ == sampled.deep_view()[i as int]);
                    assert(ps.take(i + 1) =~= ps.take(i as int).push(p@));
                    assert(pts.deep_view() =~= pre.push(p@));
                    assert(pts.deep_view() =~= old(pts).deep_view() + ps.take(i + 1));
                }
                i = i + 1;
            }
            proof {
                assert(ps.take(n as int) =~= ps);
                assert((np.0 as int, np.1 as int) == ps.last());
            }
            np
        },
    }
}

/// Flatten an outline to absolute world points: the origin first, then
/// every sampled point of every segment.
pub fn outline_to_polyline(origin: &Point2D, segments: &[CurveSegment]) -> (pts: Vec<Point2D>)
    requires
        origin.wf(),
        crate::pattern::wf_segments(segments@),
        segments@.len() <= MAX_SEGMENTS as int,
    ensures
        pts.deep_view() =~= world_polyline(origin.x as int, origin.y as int, segments@),
        pts@.len() >= 1,
        pts.deep_view()[0] == (origin.x as int, origin.y as int),
        crate::sample::pts_bounded(
            pts.deep_view(),
            3 * COORD_LIMIT as int + segments@.len() + 1,
        ),
{
    let ox = origin.x;
    let oy = origin.y;
    let mut pts: Vec<Point2D> = Vec::new();
    pts.push(Point2D { x: ox, y: oy });
    let mut px = ox;
    let mut py = oy;
    let mut idx: usize = 0;
    proof {
        assert(pts.deep_view() =~= seq![(ox as int, oy as int)]);
    }
    while idx < segments.len()
        invariant
            0 <= idx <= segments@.len() <= MAX_SEGMENTS as int,
            abs_int(ox as int) <= COORD_LIMIT,
            abs_int(oy as int) <= COORD_LIMIT,
            crate::pattern::wf_segments(segments@),
            pts.deep_view() =~= seq![(ox as int, oy as int)] + chain_upto(
                ox as int,
                oy as int,
                segments@,
                idx as int,
            ),
            (px as int, py as int) == pen_upto(ox as int, oy as int, segments@, idx as int),
            abs_int(px as int) <= 6 * COORD_LIMIT as int / 2 + idx,
            abs_int(py as int) <= 6 * COORD_LIMIT as int / 2 + idx,
            crate::sample::pts_bounded(pts.deep_view(), 3 * COORD_LIMIT as int + idx + 1),
        decreases segments@.len() - idx,
    {
        let seg = &segments[idx];
        let np = append_segment(&mut pts, ox, oy, px, py, seg, Ghost(idx as int));
        px = np.0;
        py = np.1;
        idx = idx + 1;
    }
    pts
}

} // verus!
