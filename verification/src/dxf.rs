//! The drawing-exchange emitter.
//!
//! The document is a minimal entities-only section. The vertical axis is
//! inverted (`y = -y_world`) to reconcile the kernel's downward-y
//! convention with the format's upward-y one, so every coordinate is
//! negated *before* sampling. Lines and flattened beziers become chains
//! of `LINE` entities; arcs become native `ARC` entities whose angles are
//! converted to degrees, negated and swapped to compensate for the sweep
//! reversal the mirror causes. A running point is tracked per piece and
//! an explicit closing line is emitted only when it ends more than one
//! thousandth away from the origin on either axis.
//!
//! `lemma_dxf_mirrors_world` is the mirror law: because the sampling
//! rounds symmetrically, sampling in mirrored space lands on exactly the
//! mirror image of the world-space chain — same x, negated y.

use vstd::prelude::*;

use crate::flatten::{pen_upto, segment_points, MAX_SEGMENTS};
use crate::fmt::{append_milli, milli_chars};
use crate::num::{abs_int, div_round, ANGLE_LIMIT, COORD_LIMIT};
use crate::pattern::{CurveSegment, PatternPieceData};
use crate::sample::{cubic_coord, cubic_points, quad_coord, quad_points};
use crate::trig::{cos_ppm, sin_ppm};

verus! {

/// Opening of the entities section.
pub const DXF_HEADER: &'static str = "0\nSECTION\n2\nENTITIES\n";

/// Closing of the entities section and end of file.
pub const DXF_FOOTER: &'static str = "0\nENDSEC\n0\nEOF\n";

/// Thousandths of a degree from thousandths of a radian.
pub open spec fn to_deg_milli(a: int) -> int {
    div_round(a * 57_295_779_513, 1_000_000_000)
}

/// One `LINE` entity: group codes 8 (layer), 10/20/30 (start), 11/21/31
/// (end); the z fields are always zero.
pub open spec fn line_entity_chars(layer: Seq<char>, x1: int, y1: int, x2: int, y2: int) -> Seq<
    char,
> {
    "0\nLINE\n8\n"@ + layer + "\n10\n"@ + milli_chars(x1) + "\n20\n"@ + milli_chars(y1)
        + "\n30\n0.0\n11\n"@ + milli_chars(x2) + "\n21\n"@ + milli_chars(y2) + "\n31\n0.0\n"@
}

/// One `ARC` entity: group codes 8, 10/20/30 (center), 40 (radius),
/// 50/51 (start and end angles in degrees).
pub open spec fn arc_entity_chars(
    layer: Seq<char>,
    cx: int,
    cy: int,
    r: int,
    sdeg: int,
    edeg: int,
) -> Seq<char> {
    "0\nARC\n8\n"@ + layer + "\n10\n"@ + milli_chars(cx) + "\n20\n"@ + milli_chars(cy)
        + "\n30\n0.0\n40\n"@ + milli_chars(r) + "\n50\n"@ + milli_chars(sdeg) + "\n51\n"@
        + milli_chars(edeg) + "\n"@
}

/// `LINE` entities between the first `k` consecutive pairs of a sampled
/// point list (the list starts at the running point).
pub open spec fn chain_entities(layer: Seq<char>, pts: Seq<(int, int)>, k: int) -> Seq<char>
    decreases k,
{
    if k <= 0 {
        Seq::<char>::empty()
    } else {
        chain_entities(layer, pts, k - 1) + line_entity_chars(
            layer,
            pts[k - 1].0,
            pts[k - 1].1,
            pts[k].0,
            pts[k].1,
        )
    }
}

/// The entity text one segment contributes, in mirrored coordinates.
/// `noy` is the negated world origin y.
pub open spec fn dxf_seg_chars(
    layer: Seq<char>,
    ox: int,
    noy: int,
    pen: (int, int),
    seg: CurveSegment,
) -> Seq<char> {
    match seg {
        CurveSegment::Line { end } => line_entity_chars(
            layer,
            pen.0,
            pen.1,
            ox + end.x,
            noy - end.y,
        ),
        CurveSegment::QuadraticBezier { control, end } => chain_entities(
            layer,
            quad_points(pen.0, pen.1, ox + control.x, noy - control.y, ox + end.x, noy - end.y),
            16,
        ),
        CurveSegment::CubicBezier { control1, control2, end } => chain_entities(
            layer,
            cubic_points(
                pen.0,
                pen.1,
                ox + control1.x,
                noy - control1.y,
                ox + control2.x,
                noy - control2.y,
                ox + end.x,
                noy - end.y,
            ),
            24,
        ),
        CurveSegment::Arc { center, radius, start_angle, end_angle } => arc_entity_chars(
            layer,
            ox + center.x,
            noy - center.y,
            radius as int,
            -to_deg_milli(end_angle as int),
            -to_deg_milli(start_angle as int),
        ),
    }
}

/// Where the running point sits after one segment, in mirrored
/// coordinates.
pub open spec fn dxf_pen_next(ox: int, noy: int, pen: (int, int), seg: CurveSegment) -> (
    int,
    int,
) {
    match seg {
        CurveSegment::Line { end } => (ox + end.x, noy - end.y),
        CurveSegment::QuadraticBezier { control, end } => quad_points(
            pen.0,
            pen.1,
            ox + control.x,
            noy - control.y,
            ox + end.x,
            noy - end.y,
        ).last(),
        CurveSegment::CubicBezier { control1, control2, end } => cubic_points(
            pen.0,
            pen.1,
            ox + control1.x,
            noy - control1.y,
            ox + control2.x,
            noy - control2.y,
            ox + end.x,
            noy - end.y,
        ).last(),
        CurveSegment::Arc { center, radius, start_angle, end_angle } => (
            ox + center.x + div_round(radius * cos_ppm(end_angle as int), 1_000_000),
            noy - center.y - div_round(radius * sin_ppm(end_angle as int), 1_000_000),
        ),
    }
}

/// The running point after the first `k` segments.
pub open spec fn dxf_pen_upto(ox: int, noy: int, segs: Seq<CurveSegment>, k: int) -> (int, int)
    decreases k,
{
    if k <= 0 {
        (ox, noy)
    } else {
        dxf_pen_next(ox, noy, dxf_pen_upto(ox, noy, segs, k - 1), segs[k - 1])
    }
}

/// The entity text of the first `k` segments.
pub open spec fn dxf_segs_chars(
    layer: Seq<char>,
    ox: int,
    noy: int,
    segs: Seq<CurveSegment>,
    k: int,
) -> Seq<char>
    decreases k,
{
    if k <= 0 {
        Seq::<char>::empty()
    } else {
        dxf_segs_chars(layer, ox, noy, segs, k - 1) + dxf_seg_chars(
            layer,
            ox,
            noy,
            dxf_pen_upto(ox, noy, segs, k - 1),
            segs[k - 1],
        )
    }
}

/// One piece's entity text: its whole outline, then a closing line back
/// to the origin unless the running point already ends within one
/// thousandth of it on both axes. The piece name is the layer, verbatim.
pub open spec fn dxf_piece_chars(p: PatternPieceData) -> Seq<char> {
    let ox = p.origin.x as int;
    let noy = -(p.origin.y as int);
    if p.outline@.len() == 0 {
        Seq::<char>::empty()
    } else {
        let n = p.outline@.len() as int;
        let body = dxf_segs_chars(p.name@, ox, noy, p.outline@, n);
        let pen = dxf_pen_upto(ox, noy, p.outline@, n);
        if abs_int(pen.0 - ox) > 1 || abs_int(pen.1 - noy) > 1 {
            body + line_entity_chars(p.name@, pen.0, pen.1, ox, noy)
        } else {
            body
        }
    }
}

/// The entity text of the first `k` pieces.
pub open spec fn dxf_pieces_chars(pieces: Seq<PatternPieceData>, k: int) -> Seq<char>
    decreases k,
{
    if k <= 0 {
        Seq::<char>::empty()
    } else {
        dxf_pieces_chars(pieces, k - 1) + dxf_piece_chars(pieces[k - 1])
    }
}

/// The complete document text.
pub open spec fn dxf_doc_chars(pieces: Seq<PatternPieceData>) -> Seq<char> {
    DXF_HEADER@ + dxf_pieces_chars(pieces, pieces.len() as int) + DXF_FOOTER@
}

/// The vertices one segment adds to the drawing-exchange walk, in
/// mirrored coordinates: a line or arc its endpoint, a bezier its sample
/// points past the first. These are exactly the coordinates that appear
/// in the emitted `LINE` entities (each entity connects two consecutive
/// walk vertices) and in the running point.
pub open spec fn dxf_seg_pts(ox: int, noy: int, pen: (int, int), seg: CurveSegment) -> Seq<
    (int, int),
> {
    match seg {
        CurveSegment::Line { end } => seq![(ox + end.x, noy - end.y)],
        CurveSegment::QuadraticBezier { control, end } => quad_points(
            pen.0,
            pen.1,
            ox + control.x,
            noy - control.y,
            ox + end.x,
            noy - end.y,
        ).skip(1),
        CurveSegment::CubicBezier { control1, control2, end } => cubic_points(
            pen.0,
            pen.1,
            ox + control1.x,
            noy - control1.y,
            ox + control2.x,
            noy - control2.y,
            ox + end.x,
            noy - end.y,
        ).skip(1),
        CurveSegment::Arc { .. } => seq![dxf_pen_next(ox, noy, pen, seg)],
    }
}

/// The mirrored walk vertices of the first `k` segments.
pub open spec fn dxf_chain_upto(ox: int, noy: int, segs: Seq<CurveSegment>, k: int) -> Seq<
    (int, int),
>
    decreases k,
{
    if k <= 0 {
        Seq::<(int, int)>::empty()
    } else {
        dxf_chain_upto(ox, noy, segs, k - 1) + dxf_seg_pts(
            ox,
            noy,
            dxf_pen_upto(ox, noy, segs, k - 1),
            segs[k - 1],
        )
    }
}

/// The vertices one segment adds to the same walk in world space: a
/// line or bezier exactly as the polyline flattening samples it, an arc
/// its endpoint alone.
pub open spec fn world_seg_pts(ox: int, oy: int, pen: (int, int), seg: CurveSegment) -> Seq<
    (int, int),
> {
    match seg {
        CurveSegment::Arc { center, radius, start_angle, end_angle } => seq![
            (
                ox + center.x + div_round(radius * cos_ppm(end_angle as int), 1_000_000),
                oy + center.y + div_round(radius * sin_ppm(end_angle as int), 1_000_000),
            ),
        ],
        _ => segment_points(ox, oy, pen, seg),
    }
}

/// The world pen after the first `k` segments of the walk.
pub open spec fn world_pen_upto(ox: int, oy: int, segs: Seq<CurveSegment>, k: int) -> (int, int)
    decreases k,
{
    if k <= 0 {
        (ox, oy)
    } else {
        world_seg_pts(ox, oy, world_pen_upto(ox, oy, segs, k - 1), segs[k - 1]).last()
    }
}

/// The world walk vertices of the first `k` segments.
pub open spec fn world_chain_upto(ox: int, oy: int, segs: Seq<CurveSegment>, k: int) -> Seq<
    (int, int),
>
    decreases k,
{
    if k <= 0 {
        Seq::<(int, int)>::empty()
    } else {
        world_chain_upto(ox, oy, segs, k - 1) + world_seg_pts(
            ox,
            oy,
            world_pen_upto(ox, oy, segs, k - 1),
            segs[k - 1],
        )
    }
}

/// The world walk's pen is the polyline flattening's pen: the walk
/// visits a subset of the polyline's samples and ends each segment on
/// the same point.
pub proof fn lemma_world_pen_is_polyline_pen(ox: int, oy: int, segs: Seq<CurveSegment>, k: int)
    requires
        0 <= k <= segs.len(),
    ensures
        world_pen_upto(ox, oy, segs, k) == pen_upto(ox, oy, segs, k),
    decreases k,
{
    if k > 0 {
        lemma_world_pen_is_polyline_pen(ox, oy, segs, k - 1);
        let pen = pen_upto(ox, oy, segs, k - 1);
        let seg = segs[k - 1];
        match seg {
            CurveSegment::Arc { center, radius, start_angle, end_angle } => {
                let steps = crate::sample::arc_steps(start_angle as int, end_angle as int);
                let ps = segment_points(ox, oy, pen, seg);
                assert(ps.len() == steps);
                assert(ps.last() == crate::sample::arc_point(
                    ox + center.x,
                    oy + center.y,
                    radius as int,
                    crate::sample::arc_angle(start_angle as int, end_angle as int, steps, steps),
                ));
                crate::num::lemma_div_round_exact(end_angle as int - start_angle as int, steps);
                assert(crate::sample::arc_angle(
                    start_angle as int,
                    end_angle as int,
                    steps,
                    steps,
                ) == end_angle as int);
            },
            _ => {},
        }
    }
}

/// Negating the inputs of the quadratic blend negates its output: the
/// blend is linear and the rounding is symmetric.
proof fn lemma_quad_coord_mirror(i: int, a0: int, ac: int, a1: int)
    ensures
        quad_coord(i, -a0, -ac, -a1) == -quad_coord(i, a0, ac, a1),
{
    let s = (16 - i) * (16 - i) * a0 + 2 * (16 - i) * i * ac + i * i * a1;
    assert((16 - i) * (16 - i) * (-a0) + 2 * (16 - i) * i * (-ac) + i * i * (-a1) == -((16 - i) * (
    16 - i) * a0 + 2 * (16 - i) * i * ac + i * i * a1)) by (nonlinear_arith);
    crate::num::lemma_div_round_symmetric(s, 256);
}

/// Negating the inputs of the cubic blend negates its output.
proof fn lemma_cubic_coord_mirror(i: int, a0: int, ac1: int, ac2: int, a1: int)
    ensures
        cubic_coord(i, -a0, -ac1, -ac2, -a1) == -cubic_coord(i, a0, ac1, ac2, a1),
{
    let s = (24 - i) * (24 - i) * (24 - i) * a0 + 3 * (24 - i) * (24 - i) * i * ac1 + 3 * (24 - i)
        * i * i * ac2 + i * i * i * a1;
    assert((24 - i) * (24 - i) * (24 - i) * (-a0) + 3 * (24 - i) * (24 - i) * i * (-ac1) + 3 * (24
        - i) * i * i * (-ac2) + i * i * i * (-a1) == -((24 - i) * (24 - i) * (24 - i) * a0 + 3 * (24
        - i) * (24 - i) * i * ac1 + 3 * (24 - i) * i * i * ac2 + i * i * i * a1))
        by (nonlinear_arith);
    crate::num::lemma_div_round_symmetric(s, 13824);
}

/// The mirror law: the drawing-exchange walk, sampled entirely in
/// mirrored coordinates, visits exactly the mirror image of the
/// world-space walk — the same x and the negated y, vertex for vertex —
/// and its running point mirrors the world running point.
pub proof fn lemma_dxf_mirrors_world(ox: int, oy: int, segs: Seq<CurveSegment>, k: int)
    requires
        0 <= k <= segs.len(),
    ensures
        dxf_pen_upto(ox, -oy, segs, k).0 == world_pen_upto(ox, oy, segs, k).0,
        dxf_pen_upto(ox, -oy, segs, k).1 == -world_pen_upto(ox, oy, segs, k).1,
        dxf_chain_upto(ox, -oy, segs, k).len() == world_chain_upto(ox, oy, segs, k).len(),
        forall|i: int|
            0 <= i < world_chain_upto(ox, oy, segs, k).len() ==> (#[trigger] dxf_chain_upto(
                ox,
                -oy,
                segs,
                k,
            )[i]).0 == world_chain_upto(ox, oy, segs, k)[i].0 && dxf_chain_upto(
                ox,
                -oy,
                segs,
                k,
            )[i].1 == -world_chain_upto(ox, oy, segs, k)[i].1,
    decreases k,
{
    if k > 0 {
        lemma_dxf_mirrors_world(ox, oy, segs, k - 1);
        let wpen = world_pen_upto(ox, oy, segs, k - 1);
        let dpen = dxf_pen_upto(ox, -oy, segs, k - 1);
        let seg = segs[k - 1];
        let wp = world_seg_pts(ox, oy, wpen, seg);
        let dp = dxf_seg_pts(ox, -oy, dpen, seg);
        assert(dp.len() == wp.len() && forall|i: int|
            0 <= i < wp.len() ==> (#[trigger] dp[i]).0 == wp[i].0 && dp[i].1 == -wp[i].1) by {
            lemma_seg_pts_mirror(ox, oy, wpen, dpen, seg);
        }
        assert(dxf_pen_next(ox, -oy, dpen, seg) == dp.last());
        assert(wp.len() > 0 && dp.len() > 0) by {
            match seg {
                CurveSegment::Arc { start_angle, end_angle, .. } => {},
                _ => {},
            }
        }
    }
}

/// One segment's walk vertices mirror, given a mirrored pen.
proof fn lemma_seg_pts_mirror(ox: int, oy: int, wpen: (int, int), dpen: (int, int), seg: CurveSegment)
    requires
        dpen.0 == wpen.0,
        dpen.1 == -wpen.1,
    ensures
        dxf_seg_pts(ox, -oy, dpen, seg).len() == world_seg_pts(ox, oy, wpen, seg).len(),
        forall|i: int|
            0 <= i < world_seg_pts(ox, oy, wpen, seg).len() ==> (#[trigger] dxf_seg_pts(
                ox,
                -oy,
                dpen,
                seg,
            )[i]).0 == world_seg_pts(ox, oy, wpen, seg)[i].0 && dxf_seg_pts(ox, -oy, dpen, seg)[i].1
                == -world_seg_pts(ox, oy, wpen, seg)[i].1,
        dxf_seg_pts(ox, -oy, dpen, seg).len() > 0,
{
    let wp = world_seg_pts(ox, oy, wpen, seg);
    let dp = dxf_seg_pts(ox, -oy, dpen, seg);
    match seg {
        CurveSegment::Line { end } => {
            assert(dp =~= seq![(ox + end.x, -oy - end.y)]);
        },
        CurveSegment::QuadraticBezier { control, end } => {
            assert forall|i: int| 0 <= i < wp.len() implies (#[trigger] dp[i]).0 == wp[i].0
                && dp[i].1 == -wp[i].1 by {
                lemma_quad_coord_mirror(i + 1, wpen.1, oy + control.y, oy + end.y);
            }
        },
        CurveSegment::CubicBezier { control1, control2, end } => {
            assert forall|i: int| 0 <= i < wp.len() implies (#[trigger] dp[i]).0 == wp[i].0
                && dp[i].1 == -wp[i].1 by {
                lemma_cubic_coord_mirror(
                    i + 1,
                    wpen.1,
                    oy + control1.y,
                    oy + control2.y,
                    oy + end.y,
                );
            }
        },
        CurveSegment::Arc { center, radius, start_angle, end_angle } => {
            assert(dp.len() == 1 && wp.len() == 1);
        },
    }
}

/// Thousandths of a degree from thousandths of a radian, executable.
fn to_deg(a: i64) -> (r: i64)
    requires
        abs_int(a as int) <= ANGLE_LIMIT,
    ensures
        r == to_deg_milli(a as int),
        abs_int(r as int) <= 58 * ANGLE_LIMIT as int + 1,
{
    proof {
        assert(abs_int(a as int * 57_295_779_513) <= (abs_int(a as int) * 58)
            * 1_000_000_000) by (nonlinear_arith)
            requires
                abs_int(a as int) <= ANGLE_LIMIT,
        ;
        crate::num::lemma_div_round_quotient_bound(
            a as int * 57_295_779_513,
            1_000_000_000,
            abs_int(a as int) * 58,
        );
        assert(abs_int(a as int) * 58 <= 58 * ANGLE_LIMIT as int) by (nonlinear_arith)
            requires
                abs_int(a as int) <= ANGLE_LIMIT,
        ;
    }
    let wide: i128 = (a as i128) * 57_295_779_513;
    crate::num::div_round_i128(wide, 1_000_000_000) as i64
}

/// Append one `LINE` entity.
fn write_dxf_line(dxf: &mut String, layer: &str, x1: i64, y1: i64, x2: i64, y2: i64)
    ensures
        final (dxf)@ == old(dxf)@ + line_entity_chars(
            layer@,
            x1 as int,
            y1 as int,
            x2 as int,
            y2 as int,
        ),
{
    dxf.append("0\nLINE\n8\n");
    dxf.append(layer);
    dxf.append("\n10\n");
    append_milli(dxf, x1);
    dxf.append("\n20\n");
    append_milli(dxf, y1);
    dxf.append("\n30\n0.0\n11\n");
    append_milli(dxf, x2);
    dxf.append("\n21\n");
    append_milli(dxf, y2);
    dxf.append("\n31\n0.0\n");
    proof {
        assert(dxf@ =~= old(dxf)@ + line_entity_chars(
            layer@,
            x1 as int,
            y1 as int,
            x2 as int,
            y2 as int,
        ));
    }
}

/// Append one `ARC` entity.
fn write_dxf_arc(dxf: &mut String, layer: &str, cx: i64, cy: i64, r: i64, sdeg: i64, edeg: i64)
    ensures
        final (dxf)@ == old(dxf)@ + arc_entity_chars(
            layer@,
            cx as int,
            cy as int,
            r as int,
            sdeg as int,
            edeg as int,
        ),
{
    dxf.append("0\nARC\n8\n");
    dxf.append(layer);
    dxf.append("\n10\n");
    append_milli(dxf, cx);
    dxf.append("\n20\n");
    append_milli(dxf, cy);
    dxf.append("\n30\n0.0\n40\n");
    append_milli(dxf, r);
    dxf.append("\n50\n");
    append_milli(dxf, sdeg);
    dxf.append("\n51\n");
    append_milli(dxf, edeg);
    dxf.append("\n");
    proof {
        assert(dxf@ =~= old(dxf)@ + arc_entity_chars(
            layer@,
            cx as int,
            cy as int,
            r as int,
            sdeg as int,
            edeg as int,
        ));
    }
}

/// Append the `LINE` chain between consecutive points of a sampled list.
fn write_chain(dxf: &mut String, layer: &str, pts: &Vec<crate::pattern::Point2D>)
    requires
        pts@.len() >= 1,
    ensures
        final (dxf)@ == old(dxf)@ + chain_entities(
            layer@,
            pts.deep_view(),
            pts@.len() - 1,
        ),
{
    let mut w: usize = 0;
    let n = pts.len() - 1;
    while w < n
        invariant
            n == pts@.len() - 1,
            0 <= w <= n,
            dxf@ =~= old(dxf)@ + chain_entities(layer@, pts.deep_view(), w as int),
        decreases pts@.len() - w,
    {
        let a = pts[w];
        let b = pts[w + 1];
        write_dxf_line(dxf, layer, a.x, a.y, b.x, b.y);
        proof {
            assert(a@ == pts.deep_view()[w as int]);
            assert(b@ == pts.deep_view()[w + 1]);
            assert(dxf@ =~= old(dxf)@ + chain_entities(layer@, pts.deep_view(), w + 1));
        }
        w = w + 1;
    }
}

/// Append one segment's entities in mirrored coordinates and return the
/// new running point.
#[verifier::rlimit(100)]
fn append_dxf_segment(
    dxf: &mut String,
    layer: &str,
    ox: i64,
    noy: i64,
    px: i64,
    py: i64,
    seg: &CurveSegment,
    Ghost(k): Ghost<int>,
) -> (np: (i64, i64))
    requires
        abs_int(ox as int) <= COORD_LIMIT,
        abs_int(noy as int) <= COORD_LIMIT,
        seg.wf(),
        0 <= k <= MAX_SEGMENTS as int,
        abs_int(px as int) <= 6 * COORD_LIMIT as int / 2 + k,
        abs_int(py as int) <= 6 * COORD_LIMIT as int / 2 + k,
    ensures
        final (dxf)@ == old(dxf)@ + dxf_seg_chars(
            layer@,
            ox as int,
            noy as int,
            (px as int, py as int),
            *seg,
        ),
        (np.0 as int, np.1 as int) == dxf_pen_next(
            ox as int,
            noy as int,
            (px as int, py as int),
            *seg,
        ),
        abs_int(np.0 as int) <= 6 * COORD_LIMIT as int / 2 + k + 1,
        abs_int(np.1 as int) <= 6 * COORD_LIMIT as int / 2 + k + 1,
{
    let ghost b: int = 6 * COORD_LIMIT as int / 2 + k;
    match seg {
        CurveSegment::Line { end } => {
            let ex = ox + end.x;
            let ey = noy - end.y;
            write_dxf_line(dxf, layer, px, py, ex, ey);
            (ex, ey)
        },
        CurveSegment::QuadraticBezier { control, end } => {
            let sampled = crate::sample::sample_quadratic(
                px,
                py,
                ox + control.x,
                noy - control.y,
                ox + end.x,
                noy - end.y,
                Ghost(b),
            );
            write_chain(dxf, layer, &sampled);
            let last = sampled[16];
            proof {
                assert(last@ == sampled.deep_view().last());
            }
            (last.x, last.y)
        },
        CurveSegment::CubicBezier { control1, control2, end } => {
            let sampled = crate::sample::sample_cubic(
                px,
                py,
                ox + control1.x,
                noy - control1.y,
                ox + control2.x,
                noy - control2.y,
                ox + end.x,
                noy - end.y,
                Ghost(b),
            );
            write_chain(dxf, layer, &sampled);
            let last = sampled[24];
            proof {
                assert(last@ == sampled.deep_view().last());
            }
            (last.x, last.y)
        },
        CurveSegment::Arc { center, radius, start_angle, end_angle } => {
            let acx = ox + center.x;
            let acy = noy - center.y;
            let sdeg = to_deg(*end_angle);
            let edeg = to_deg(*start_angle);
            write_dxf_arc(dxf, layer, acx, acy, *radius, -sdeg, -edeg);
            let (c, s) = crate::trig::cos_sin_ppm(*end_angle);
            let dx = crate::num::mul_div_round(*radius, c, 1_000_000);
            let dy = crate::num::mul_div_round(*radius, s, 1_000_000);
            (acx + dx, acy - dy)
        },
    }
}

/// Serialize a piece set to a drawing-exchange document: fixed header
/// and footer around one entity chain per piece.
pub fn pieces_to_dxf(pieces: &[PatternPieceData]) -> (dxf: String)
    requires
        crate::pattern::wf_pieces(pieces@),
        forall|i: int|
            0 <= i < pieces@.len() ==> (#[trigger] pieces@[i]).outline@.len()
                <= MAX_SEGMENTS as int,
    ensures
        dxf@ == dxf_doc_chars(pieces@),
{
    let mut dxf = String::new();
    dxf.append(DXF_HEADER);
    let mut i: usize = 0;
    while i < pieces.len()
        invariant
            0 <= i <= pieces@.len(),
            crate::pattern::wf_pieces(pieces@),
            forall|j: int|
                0 <= j < pieces@.len() ==> (#[trigger] pieces@[j]).outline@.len()
                    <= MAX_SEGMENTS as int,
            dxf@ =~= DXF_HEADER@ + dxf_pieces_chars(pieces@, i as int),
        decreases pieces@.len() - i,
    {
        let piece = &pieces[i];
        let ox = piece.origin.x;
        let noy = -piece.origin.y;
        if piece.outline.len() > 0 {
            let ghost start = dxf@;
            let mut px = ox;
            let mut py = noy;
            let mut s: usize = 0;
            while s < piece.outline.len()
                invariant
                    0 <= s <= piece.outline@.len() <= MAX_SEGMENTS as int,
                    piece.wf(),
                    abs_int(ox as int) <= COORD_LIMIT,
                    abs_int(noy as int) <= COORD_LIMIT,
                    ox == piece.origin.x,
                    noy == -piece.origin.y,
                    dxf@ =~= start + dxf_segs_chars(
                        piece.name@,
                        ox as int,
                        noy as int,
                        piece.outline@,
                        s as int,
                    ),
                    (px as int, py as int) == dxf_pen_upto(
                        ox as int,
                        noy as int,
                        piece.outline@,
                        s as int,
                    ),
                    abs_int(px as int) <= 6 * COORD_LIMIT as int / 2 + s,
                    abs_int(py as int) <= 6 * COORD_LIMIT as int / 2 + s,
                decreases piece.outline@.len() - s,
            {
                let np = append_dxf_segment(
                    &mut dxf,
                    piece.name.as_str(),
                    ox,
                    noy,
                    px,
                    py,
                    &piece.outline[s],
                    Ghost(s as int),
                );
                px = np.0;
                py = np.1;
                s = s + 1;
            }
            let dxx = if px >= ox {
                px - ox
            } else {
                ox - px
            };
            let dyy = if py >= noy {
                py - noy
            } else {
                noy - py
            };
            if dxx > 1 || dyy > 1 {
                write_dxf_line(&mut dxf, piece.name.as_str(), px, py, ox, noy);
            }
            proof {
                assert(dxf@ =~= start + dxf_piece_chars(pieces@[i as int]));
                assert(dxf@ =~= DXF_HEADER@ + dxf_pieces_chars(pieces@, i + 1));
            }
        } else {
            proof {
                assert(dxf_piece_chars(pieces@[i as int]) =~= Seq::<char>::empty());
                assert(dxf@ =~= DXF_HEADER@ + dxf_pieces_chars(pieces@, i + 1));
            }
        }
        i = i + 1;
    }
    dxf.append(DXF_FOOTER);
    proof {
        assert(dxf@ =~= dxf_doc_chars(pieces@));
    }
    dxf
}

} // verus!
