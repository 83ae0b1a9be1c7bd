//! The tessellator: triangulating one closed outline into a fill mesh.
//!
//! The outline is flattened into a closed polygon: native line and bezier
//! chaining at the kernel's fixed sampling resolution and, for arcs, a
//! fixed thirty-two line-segment steps — a deliberately different
//! resolution from the export flattening; each consumer is entitled to
//! its own. Consecutive duplicate vertices collapse and a final vertex
//! equal to the first is dropped; the polygon is then triangulated by ear
//! clipping. An empty outline is the one failure. The contract pins the
//! vertex list exactly and guarantees a structurally valid index list:
//! multiples of three, every index in range, and exactly `n - 2`
//! triangles for an `n`-vertex polygon.
//!
//! As in the rest of the kernel the outline's own coordinates are
//! piece-local; the path begins at the piece's absolute origin point.

use vstd::prelude::*;

use crate::num::{abs_int, COORD_LIMIT};
use crate::pattern::{CurveSegment, Point2D};
use crate::sample::{arc_points_n, cubic_points, pts_bounded, quad_points};

verus! {

/// The fixed arc resolution of the tessellator.
pub const TESS_ARC_STEPS: u64 = 32;

/// The points one segment contributes to the tessellation polygon, in
/// the outline's own (piece-local) coordinates.
pub open spec fn tess_seg_points(pen: (int, int), seg: CurveSegment) -> Seq<(int, int)> {
    match seg {
        CurveSegment::Line { end } => seq![(end.x as int, end.y as int)],
        CurveSegment::QuadraticBezier { control, end } => quad_points(
            pen.0,
            pen.1,
            control.x as int,
            control.y as int,
            end.x as int,
            end.y as int,
        ).skip(1),
        CurveSegment::CubicBezier { control1, control2, end } => cubic_points(
            pen.0,
            pen.1,
            control1.x as int,
            control1.y as int,
            control2.x as int,
            control2.y as int,
            end.x as int,
            end.y as int,
        ).skip(1),
        CurveSegment::Arc { center, radius, start_angle, end_angle } => arc_points_n(
            center.x as int,
            center.y as int,
            radius as int,
            start_angle as int,
            end_angle as int,
            TESS_ARC_STEPS as int,
        ),
    }
}

/// The pen position after the first `k` segments.
pub open spec fn tess_pen_upto(ox: int, oy: int, segs: Seq<CurveSegment>, k: int) -> (int, int)
    decreases k,
{
    if k <= 0 {
        (ox, oy)
    } else {
        let pen = tess_pen_upto(ox, oy, segs, k - 1);
        let ps = tess_seg_points(pen, segs[k - 1]);
        if ps.len() > 0 {
            ps.last()
        } else {
            pen
        }
    }
}

/// The concatenated points of the first `k` segments.
pub open spec fn tess_chain_upto(ox: int, oy: int, segs: Seq<CurveSegment>, k: int) -> Seq<
    (int, int),
>
    decreases k,
{
    if k <= 0 {
        Seq::<(int, int)>::empty()
    } else {
        tess_chain_upto(ox, oy, segs, k - 1) + tess_seg_points(
            tess_pen_upto(ox, oy, segs, k - 1),
            segs[k - 1],
        )
    }
}

/// The raw flattened path of the tessellator: the piece's absolute
/// origin point, then every sampled point.
pub open spec fn tess_polyline(ox: int, oy: int, segs: Seq<CurveSegment>) -> Seq<(int, int)> {
    seq![(ox, oy)] + tess_chain_upto(ox, oy, segs, segs.len() as int)
}

/// Collapse consecutive duplicate points.
pub open spec fn dedup_consec(s: Seq<(int, int)>) -> Seq<(int, int)>
    decreases s.len(),
{
    if s.len() <= 1 {
        s
    } else {
        let d = dedup_consec(s.drop_last());
        if s.last() == s[s.len() - 2] {
            d
        } else {
            d.push(s.last())
        }
    }
}

/// Drop a final vertex that closes back onto the first.
pub open spec fn close_trim(s: Seq<(int, int)>) -> Seq<(int, int)> {
    if s.len() >= 2 && s.last() == s[0] {
        s.drop_last()
    } else {
        s
    }
}

/// The tessellation polygon of an outline.
#[verifier::opaque]
pub open spec fn tess_polygon(ox: int, oy: int, segs: Seq<CurveSegment>) -> Seq<(int, int)> {
    close_trim(dedup_consec(tess_polyline(ox, oy, segs)))
}

/// A vertex list flattened into position triples: x, y, and a zero z
/// for each point.
pub open spec fn flat_triples(poly: Seq<(int, int)>) -> Seq<i64> {
    Seq::new(
        3 * poly.len(),
        |i: int|
            if i % 3 == 0 {
                poly[i / 3].0 as i64
            } else if i % 3 == 1 {
                poly[i / 3].1 as i64
            } else {
                0i64
            },
    )
}

/// The cross product of two points taken as vectors from the origin.
pub open spec fn cross2(p: (int, int), q: (int, int)) -> int {
    p.0 * q.1 - q.0 * p.1
}

/// Twice the signed area of a triangle.
pub open spec fn tri_area2(a: (int, int), b: (int, int), c: (int, int)) -> int {
    (b.0 - a.0) * (c.1 - a.1) - (b.1 - a.1) * (c.0 - a.0)
}

/// The cross sum over the open path through the first `k` points.
pub open spec fn path_sum(pts: Seq<(int, int)>, k: int) -> int
    decreases k,
{
    if k <= 1 {
        0
    } else {
        path_sum(pts, k - 1) + cross2(pts[k - 2], pts[k - 1])
    }
}

/// Twice the signed area of a closed polygon: the shoelace sum over its
/// edges, the closing edge included.
pub open spec fn shoelace2(pts: Seq<(int, int)>) -> int {
    if pts.len() == 0 {
        0
    } else {
        path_sum(pts, pts.len() as int) + cross2(pts[pts.len() - 1], pts[0])
    }
}

/// Twice the summed signed area of the first `k` triangles of an index
/// list.
pub open spec fn tris_area2(verts: Seq<(int, int)>, tris: Seq<u32>, k: int) -> int
    decreases k,
{
    if k <= 0 {
        0
    } else {
        tris_area2(verts, tris, k - 1) + tri_area2(
            verts[tris[3 * k - 3] as int],
            verts[tris[3 * k - 2] as int],
            verts[tris[3 * k - 1] as int],
        )
    }
}

/// The vertices an active index list names, in list order.
pub open spec fn map_active(verts: Seq<(int, int)>, active: Seq<u32>) -> Seq<(int, int)> {
    Seq::new(active.len(), |i: int| verts[active[i] as int])
}

/// The summed area of a triangle list depends only on the triangles it
/// actually names.
proof fn lemma_tris_area2_prefix(verts: Seq<(int, int)>, t1: Seq<u32>, t2: Seq<u32>, k: int)
    requires
        0 <= 3 * k <= t1.len(),
        3 * k <= t2.len(),
        forall|i: int| 0 <= i < 3 * k ==> t1[i] == t2[i],
    ensures
        tris_area2(verts, t1, k) == tris_area2(verts, t2, k),
    decreases k,
{
    if k > 0 {
        lemma_tris_area2_prefix(verts, t1, t2, k - 1);
    }
}

/// Before a removed point, the open path sums agree.
proof fn lemma_path_prefix(pts: Seq<(int, int)>, r: Seq<(int, int)>, e: int, k: int)
    requires
        1 <= e <= pts.len() - 2,
        r == pts.remove(e),
        0 <= k <= e,
    ensures
        path_sum(r, k) == path_sum(pts, k),
    decreases k,
{
    if k > 1 {
        lemma_path_prefix(pts, r, e, k - 1);
    }
}

/// Past a removed point, the open path sum loses the two edges through
/// it and gains the edge across the gap.
proof fn lemma_path_suffix(pts: Seq<(int, int)>, r: Seq<(int, int)>, e: int, k: int)
    requires
        pts.len() >= 4,
        1 <= e <= pts.len() - 2,
        r == pts.remove(e),
        e + 1 <= k <= r.len(),
    ensures
        path_sum(r, k) == path_sum(pts, k + 1) - cross2(pts[e - 1], pts[e]) - cross2(
            pts[e],
            pts[e + 1],
        ) + cross2(pts[e - 1], pts[e + 1]),
    decreases k,
{
    if k == e + 1 {
        lemma_path_prefix(pts, r, e, e);
        assert(r[e - 1] == pts[e - 1]);
        assert(r[e] == pts[e + 1]);
        assert(path_sum(r, e + 1) == path_sum(r, e) + cross2(r[e - 1], r[e]));
        assert(path_sum(pts, e + 1) == path_sum(pts, e) + cross2(pts[e - 1], pts[e]));
        assert(path_sum(pts, e + 2) == path_sum(pts, e + 1) + cross2(pts[e], pts[e + 1]));
    } else {
        lemma_path_suffix(pts, r, e, k - 1);
        assert(r[k - 2] == pts[k - 1]);
        assert(r[k - 1] == pts[k]);
        assert(path_sum(r, k) == path_sum(r, k - 1) + cross2(r[k - 2], r[k - 1]));
        assert(path_sum(pts, k + 1) == path_sum(pts, k) + cross2(pts[k - 1], pts[k]));
    }
}

/// Clipping one interior corner preserves the shoelace sum: the removed
/// triangle's signed area accounts exactly for the difference.
proof fn lemma_shoelace_remove(pts: Seq<(int, int)>, e: int)
    requires
        pts.len() >= 4,
        1 <= e <= pts.len() - 2,
    ensures
        shoelace2(pts) == shoelace2(pts.remove(e)) + tri_area2(pts[e - 1], pts[e], pts[e + 1]),
{
    let r = pts.remove(e);
    lemma_path_suffix(pts, r, e, r.len() as int);
    assert(r[r.len() - 1] == pts[pts.len() - 1]);
    assert(r[0] == pts[0]);
    let a = pts[e - 1];
    let b = pts[e];
    let c = pts[e + 1];
    lemma_tri_ring(a.0, a.1, b.0, b.1, c.0, c.1);
    assert(tri_area2(a, b, c) == cross2(a, b) + cross2(b, c) - cross2(a, c));
}

/// The triangle-area expansion as a ring identity over scalars.
proof fn lemma_tri_ring(ax: int, ay: int, bx: int, by: int, cx: int, cy: int)
    ensures
        (bx - ax) * (cy - ay) - (by - ay) * (cx - ax) == (ax * by - bx * ay) + (bx * cy - cx * by)
            - (ax * cy - cx * ay),
{
    assert((bx - ax) * (cy - ay) - (by - ay) * (cx - ax) == (ax * by - bx * ay) + (bx * cy - cx
        * by) - (ax * cy - cx * ay)) by (nonlinear_arith);
}

/// A three-point ring's shoelace sum is its one triangle's signed area.
proof fn lemma_shoelace_triangle(pts: Seq<(int, int)>)
    requires
        pts.len() == 3,
    ensures
        shoelace2(pts) == tri_area2(pts[0], pts[1], pts[2]),
{
    let a = pts[0];
    let b = pts[1];
    let c = pts[2];
    assert(path_sum(pts, 2) == path_sum(pts, 1) + cross2(a, b));
    assert(path_sum(pts, 3) == path_sum(pts, 2) + cross2(b, c));
    assert(shoelace2(pts) == cross2(a, b) + cross2(b, c) + cross2(c, a));
    lemma_tri_ring(a.0, a.1, b.0, b.1, c.0, c.1);
    assert(tri_area2(a, b, c) == cross2(a, b) + cross2(b, c) + cross2(c, a));
}

/// The cross product of `b - a` and `c - a`, wide and exact.
fn cross3(a: Point2D, b: Point2D, c: Point2D) -> (r: i128)
    requires
        abs_int(a.x as int) <= 16_000_000_000,
        abs_int(a.y as int) <= 16_000_000_000,
        abs_int(b.x as int) <= 16_000_000_000,
        abs_int(b.y as int) <= 16_000_000_000,
        abs_int(c.x as int) <= 16_000_000_000,
        abs_int(c.y as int) <= 16_000_000_000,
    ensures
        r == (b.x - a.x) * (c.y - a.y) - (b.y - a.y) * (c.x - a.x),
{
    let bax: i128 = (b.x as i128) - (a.x as i128);
    let bay: i128 = (b.y as i128) - (a.y as i128);
    let cax: i128 = (c.x as i128) - (a.x as i128);
    let cay: i128 = (c.y as i128) - (a.y as i128);
    proof {
        assert(abs_int(bax as int * cay as int) <= 0x1_0000_0000_0000_0000_0000 && abs_int(
            bay as int * cax as int,
        ) <= 0x1_0000_0000_0000_0000_0000) by (nonlinear_arith)
            requires
                abs_int(bax as int) <= 32_000_000_000,
                abs_int(bay as int) <= 32_000_000_000,
                abs_int(cax as int) <= 32_000_000_000,
                abs_int(cay as int) <= 32_000_000_000,
        ;
    }
    bax * cay - bay * cax
}

/// Whether any polygon vertex other than the three corners lies inside
/// the candidate ear (or on its boundary).
fn ear_is_blocked(
    verts: &Vec<Point2D>,
    active: &Vec<u32>,
    pi: usize,
    ci: usize,
    ni: usize,
) -> (r: bool)
    requires
        forall|j: int| 0 <= j < active@.len() ==> (#[trigger] active@[j]) < verts@.len(),
        pi < active@.len(),
        ci < active@.len(),
        ni < active@.len(),
        forall|j: int|
            0 <= j < verts@.len() ==> abs_int((#[trigger] verts@[j]).x as int) <= 16_000_000_000
                && abs_int(verts@[j].y as int) <= 16_000_000_000,
{
    let a = verts[active[pi] as usize];
    let b = verts[active[ci] as usize];
    let c = verts[active[ni] as usize];
    let mut j: usize = 0;
    let mut blocked = false;
    while j < active.len()
        invariant
            0 <= j <= active@.len(),
            forall|t: int| 0 <= t < active@.len() ==> (#[trigger] active@[t]) < verts@.len(),
            forall|t: int|
                0 <= t < verts@.len() ==> abs_int((#[trigger] verts@[t]).x as int)
                    <= 16_000_000_000 && abs_int(verts@[t].y as int) <= 16_000_000_000,
            abs_int(a.x as int) <= 16_000_000_000,
            abs_int(a.y as int) <= 16_000_000_000,
            abs_int(b.x as int) <= 16_000_000_000,
            abs_int(b.y as int) <= 16_000_000_000,
            abs_int(c.x as int) <= 16_000_000_000,
            abs_int(c.y as int) <= 16_000_000_000,
        decreases active@.len() - j,
    {
        if j != pi && j != ci && j != ni {
            let p = verts[active[j] as usize];
            let d1 = cross3(a, b, p);
            let d2 = cross3(b, c, p);
            let d3 = cross3(c, a, p);
            let has_neg = d1 < 0 || d2 < 0 || d3 < 0;
            let has_pos = d1 > 0 || d2 > 0 || d3 > 0;
            if !(has_neg && has_pos) {
                blocked = true;
            }
        }
        j = j + 1;
    }
    blocked
}

/// Triangulate a polygon by ear clipping. Any polygon of `n >= 3`
/// vertices yields exactly `n - 2` triangles whose indices all point
/// into the vertex list, and the summed signed areas of the triangles
/// equal the polygon's shoelace area exactly — clipping a corner always
/// trades the ring's area for the triangle's. The search considers only
/// interior list positions (a simple polygon always has an ear there,
/// since two of its ears are never adjacent); when no clean ear is
/// found (a degenerate or self-crossing ring) the first interior corner
/// is clipped regardless, so count, validity and the area identity
/// still hold.
pub fn triangulate(verts: &Vec<Point2D>) -> (tris: Vec<u32>)
    requires
        3 <= verts@.len() < 0x1_0000_0000,
        forall|j: int|
            0 <= j < verts@.len() ==> abs_int((#[trigger] verts@[j]).x as int) <= 16_000_000_000
                && abs_int(verts@[j].y as int) <= 16_000_000_000,
    ensures
        tris@.len() == 3 * (verts@.len() - 2),
        forall|i: int| 0 <= i < tris@.len() ==> (#[trigger] tris@[i]) < verts@.len(),
        tris_area2(verts.deep_view(), tris@, verts@.len() - 2) == shoelace2(verts.deep_view()),
{
    let n = verts.len();
    let mut active: Vec<u32> = Vec::new();
    let mut i: usize = 0;
    while i < n
        invariant
            0 <= i <= n < 0x1_0000_0000,
            n == verts@.len(),
            active@.len() == i,
            forall|j: int| 0 <= j < i ==> (#[trigger] active@[j]) == j,
        decreases n - i,
    {
        active.push(i as u32);
        i = i + 1;
    }

    // Polygon orientation by the shoelace sum.
    let mut area2: i128 = 0;
    let mut k: usize = 0;
    while k < n
        invariant
            0 <= k <= n < 0x1_0000_0000,
            n == verts@.len(),
            3 <= n,
            forall|j: int|
                0 <= j < verts@.len() ==> abs_int((#[trigger] verts@[j]).x as int)
                    <= 16_000_000_000 && abs_int(verts@[j].y as int) <= 16_000_000_000,
            abs_int(area2 as int) <= k * 0x2_0000_0000_0000_0000_0000,
        decreases n - k,
    {
        let p = verts[k];
        let q = verts[if k + 1 == n {
            0
        } else {
            k + 1
        }];
        proof {
            assert(abs_int(p.x as int * q.y as int) <= 0x1_0000_0000_0000_0000_0000 && abs_int(
                p.y as int * q.x as int,
            ) <= 0x1_0000_0000_0000_0000_0000) by (nonlinear_arith)
                requires
                    abs_int(p.x as int) <= 16_000_000_000,
                    abs_int(p.y as int) <= 16_000_000_000,
                    abs_int(q.x as int) <= 16_000_000_000,
                    abs_int(q.y as int) <= 16_000_000_000,
            ;
            assert((k + 1) * 0x2_0000_0000_0000_0000_0000 <= 0x1_0000_0000
                * 0x2_0000_0000_0000_0000_0000) by (nonlinear_arith)
                requires
                    k + 1 <= 0x1_0000_0000,
            ;
        }
        area2 = area2 + ((p.x as i128) * (q.y as i128) - (p.y as i128) * (q.x as i128));
        k = k + 1;
    }
    let ccw = area2 >= 0;

    let mut tris: Vec<u32> = Vec::new();
    proof {
        assert(map_active(verts.deep_view(), active@) =~= verts.deep_view());
    }
    while active.len() > 3
        invariant
            3 <= active@.len() <= n,
            n == verts@.len(),
            n < 0x1_0000_0000,
            forall|j: int| 0 <= j < active@.len() ==> (#[trigger] active@[j]) < verts@.len(),
            forall|j: int|
                0 <= j < verts@.len() ==> abs_int((#[trigger] verts@[j]).x as int)
                    <= 16_000_000_000 && abs_int(verts@[j].y as int) <= 16_000_000_000,
            tris@.len() == 3 * (n - active@.len()),
            forall|i2: int| 0 <= i2 < tris@.len() ==> (#[trigger] tris@[i2]) < verts@.len(),
            tris_area2(verts.deep_view(), tris@, n - active@.len()) + shoelace2(
                map_active(verts.deep_view(), active@),
            ) == shoelace2(verts.deep_view()),
        decreases active@.len(),
    {
        let m = active.len();
        // Find an ear at an interior list position: a convex corner no
        // other vertex intrudes into.
        let mut ear: usize = 1;
        let mut found = false;
        let mut c: usize = 1;
        while c + 1 < m
            invariant
                1 <= c <= m - 1,
                1 <= ear <= m - 2,
                m == active@.len(),
                3 < m <= n,
                n == verts@.len(),
                forall|j: int| 0 <= j < active@.len() ==> (#[trigger] active@[j]) < verts@.len(),
                forall|j: int|
                    0 <= j < verts@.len() ==> abs_int((#[trigger] verts@[j]).x as int)
                        <= 16_000_000_000 && abs_int(verts@[j].y as int) <= 16_000_000_000,
            decreases m - c,
        {
            if !found {
                let a = verts[active[c - 1] as usize];
                let b = verts[active[c] as usize];
                let cc = verts[active[c + 1] as usize];
                let cr = cross3(a, b, cc);
                let convex = if ccw {
                    cr > 0
                } else {
                    cr < 0
                };
                if convex && !ear_is_blocked(verts, &active, c - 1, c, c + 1) {
                    ear = c;
                    found = true;
                }
            }
            c = c + 1;
        }
        let ghost old_active = active@;
        let ghost old_tris = tris@;
        let ghost tcount = n - active@.len();
        tris.push(active[ear - 1]);
        tris.push(active[ear]);
        tris.push(active[ear + 1]);
        active.remove(ear);
        proof {
            let vs = verts.deep_view();
            let oldp = map_active(vs, old_active);
            let newp = map_active(vs, active@);
            assert(active@ =~= old_active.remove(ear as int));
            assert(newp =~= oldp.remove(ear as int));
            lemma_shoelace_remove(oldp, ear as int);
            lemma_tris_area2_prefix(vs, old_tris, tris@, tcount);
            assert(tris_area2(vs, tris@, tcount + 1) == tris_area2(vs, tris@, tcount) + tri_area2(
                vs[tris@[3 * tcount] as int],
                vs[tris@[3 * tcount + 1] as int],
                vs[tris@[3 * tcount + 2] as int],
            ));
            assert(vs[tris@[3 * tcount] as int] == oldp[ear - 1]);
            assert(vs[tris@[3 * tcount + 1] as int] == oldp[ear as int]);
            assert(vs[tris@[3 * tcount + 2] as int] == oldp[ear + 1]);
        }
    }
    let ghost old_tris = tris@;
    let ghost tcount = n - 3;
    tris.push(active[0]);
    tris.push(active[1]);
    tris.push(active[2]);
    proof {
        let vs = verts.deep_view();
        let lastp = map_active(vs, active@);
        lemma_tris_area2_prefix(vs, old_tris, tris@, tcount as int);
        assert(tris_area2(vs, tris@, tcount + 1) == tris_area2(vs, tris@, tcount as int)
            + tri_area2(
            vs[tris@[3 * tcount] as int],
            vs[tris@[3 * tcount + 1] as int],
            vs[tris@[3 * tcount + 2] as int],
        ));
        assert(lastp =~= seq![lastp[0], lastp[1], lastp[2]]);
        lemma_shoelace_triangle(lastp);
        assert(vs[tris@[3 * tcount] as int] == lastp[0]);
        assert(vs[tris@[3 * tcount + 1] as int] == lastp[1]);
        assert(vs[tris@[3 * tcount + 2] as int] == lastp[2]);
    }
    tris
}

/// Flatten one outline into its tessellation polygon.
#[verifier::rlimit(100)]
pub fn outline_polygon(origin: &Point2D, segments: &[CurveSegment]) -> (poly: Vec<Point2D>)
    requires
        origin.wf(),
        crate::pattern::wf_segments(segments@),
        segments@.len() <= crate::flatten::MAX_SEGMENTS as int,
    ensures
        poly.deep_view() =~= tess_polygon(origin.x as int, origin.y as int, segments@),
        pts_bounded(poly.deep_view(), 4 * COORD_LIMIT as int),
{
    proof {
        reveal(tess_polygon);
    }
    let ox = origin.x;
    let oy = origin.y;
    let mut raw: Vec<Point2D> = Vec::new();
    raw.push(Point2D { x: ox, y: oy });
    let mut px = ox;
    let mut py = oy;
    let mut idx: usize = 0;
    proof {
        assert(raw.deep_view() =~= seq![(ox as int, oy as int)]);
    }
    while idx < segments.len()
        invariant
            0 <= idx <= segments@.len() <= crate::flatten::MAX_SEGMENTS as int,
            abs_int(ox as int) <= COORD_LIMIT,
            abs_int(oy as int) <= COORD_LIMIT,
            crate::pattern::wf_segments(segments@),
            raw.deep_view() =~= seq![(ox as int, oy as int)] + tess_chain_upto(
                ox as int,
                oy as int,
                segments@,
                idx as int,
            ),
            (px as int, py as int) == tess_pen_upto(ox as int, oy as int, segments@, idx as int),
            abs_int(px as int) <= 2 * COORD_LIMIT as int + idx,
            abs_int(py as int) <= 2 * COORD_LIMIT as int + idx,
            pts_bounded(raw.deep_view(), 3 * COORD_LIMIT as int + idx),
        decreases segments@.len() - idx,
    {
        let np = append_tess_segment(&mut raw, px, py, &segments[idx], Ghost(idx as int));
        px = np.0;
        py = np.1;
        idx = idx + 1;
    }
    // Collapse consecutive duplicates.
    let mut poly: Vec<Point2D> = Vec::new();
    let mut j: usize = 0;
    while j < raw.len()
        invariant
            0 <= j <= raw@.len(),
            poly.deep_view() =~= dedup_consec(raw.deep_view().take(j as int)),
            pts_bounded(raw.deep_view(), 4 * COORD_LIMIT as int),
            pts_bounded(poly.deep_view(), 4 * COORD_LIMIT as int),
        decreases raw@.len() - j,
    {
        let p = raw[j];
        let keep = if j == 0 {
            true
        } else {
            let prev = raw[j - 1];
            !(prev.x == p.x && prev.y == p.y)
        };
        proof {
            assert(raw.deep_view().take(j + 1).drop_last() =~= raw.deep_view().take(j as int));
        }
        if keep {
            poly.push(p);
        }
        proof {
            assert(poly.deep_view() =~= dedup_consec(raw.deep_view().take(j + 1)));
        }
        j = j + 1;
    }
    proof {
        assert(raw.deep_view().take(raw@.len() as int) =~= raw.deep_view());
    }
    // Drop a final vertex that closes onto the first.
    if poly.len() >= 2 {
        let first = poly[0];
        let last = poly[poly.len() - 1];
        if first.x == last.x && first.y == last.y {
            poly.pop();
            proof {
                assert(poly.deep_view() =~= close_trim(
                    dedup_consec(tess_polyline(ox as int, oy as int, segments@)),
                ));
            }
        }
    }
    poly
}

/// Append one segment's tessellation points and return the new pen.
#[verifier::rlimit(100)]
fn append_tess_segment(
    pts: &mut Vec<Point2D>,
    px: i64,
    py: i64,
    seg: &CurveSegment,
    Ghost(k): Ghost<int>,
) -> (np: (i64, i64))
    requires
        seg.wf(),
        0 <= k <= crate::flatten::MAX_SEGMENTS as int,
        abs_int(px as int) <= 2 * COORD_LIMIT as int + k,
        abs_int(py as int) <= 2 * COORD_LIMIT as int + k,
    ensures
        final (pts).deep_view() =~= old(pts).deep_view() + tess_seg_points(
            (px as int, py as int),
            *seg,
        ),
        ({
            let ps = tess_seg_points((px as int, py as int), *seg);
            (np.0 as int, np.1 as int) == if ps.len() > 0 {
                ps.last()
            } else {
                (px as int, py as int)
            }
        }),
        abs_int(np.0 as int) <= 2 * COORD_LIMIT as int + k + 1,
        abs_int(np.1 as int) <= 2 * COORD_LIMIT as int + k + 1,
        pts_bounded(
            tess_seg_points((px as int, py as int), *seg),
            2 * COORD_LIMIT as int + k + 1,
        ),
{
    let ghost b: int = 2 * COORD_LIMIT as int + k;
    match seg {
        CurveSegment::Line { end } => {
            pts.push(Point2D { x: end.x, y: end.y });
            proof {
                let ps = tess_seg_points((px as int, py as int), *seg);
                assert(ps =~= seq![(end.x as int, end.y as int)]);
                assert(pts.deep_view() =~= old(pts).deep_view() + ps);
            }
            (end.x, end.y)
        },
        CurveSegment::QuadraticBezier { control, end } => {
            let sampled = crate::sample::sample_quadratic(
                px,
                py,
                control.x,
                control.y,
                end.x,
                end.y,
                Ghost(b),
            );
            let mut np: (i64, i64) = (px, py);
            let ghost ps = tess_seg_points((px as int, py as int), *seg);
            let mut i: usize = 1;
            while i < 17
                invariant
                    1 <= i <= 17,
                    sampled@.len() == 17,
                    sampled.deep_view() == quad_points(
                        px as int,
                        py as int,
                        control.x as int,
                        control.y as int,
                        end.x as int,
                        end.y as int,
                    ),
                    ps == sampled.deep_view().skip(1),
                    pts_bounded(sampled.deep_view(), b + 1),
                    pts.deep_view() =~= old(pts).deep_view() + ps.take(i - 1),
                    i > 1 ==> (np.0 as int, np.1 as int) == sampled.deep_view()[i - 1],
                    i == 1 ==> np == (px, py),
                decreases 17 - i,
            {
                let p = sampled[i];
                let ghost pre = pts.deep_view();
                pts.push(p);
                np = (p.x, p.y);
                proof {
                    assert(p@ == sampled.deep_view()[i as int]);
                    assert(ps[i - 1] == sampled.deep_view()[i as int]);
                    assert(ps.take(i as int) =~= ps.take(i - 1).push(p@));
                    assert(pts.deep_view() =~= pre.push(p@));
                    assert(pts.deep_view() =~= old(pts).deep_view() + ps.take(i as int));
                }
                i = i + 1;
            }
            proof {
                assert(ps.take(16) =~= ps);
                assert(ps.len() == 16);
                assert((np.0 as int, np.1 as int) == ps.last());
            }
            np
        },
        CurveSegment::CubicBezier { control1, control2, end } => {
            let sampled = crate::sample::sample_cubic(
                px,
                py,
                control1.x,
                control1.y,
                control2.x,
                control2.y,
                end.x,
                end.y,
                Ghost(b),
            );
            let mut np: (i64, i64) = (px, py);
            let ghost ps = tess_seg_points((px as int, py as int), *seg);
            let mut i: usize = 1;
            while i < 25
                invariant
                    1 <= i <= 25,
                    sampled@.len() == 25,
                    sampled.deep_view() == cubic_points(
                        px as int,
                        py as int,
                        control1.x as int,
                        control1.y as int,
                        control2.x as int,
                        control2.y as int,
                        end.x as int,
                        end.y as int,
                    ),
                    ps == sampled.deep_view().skip(1),
                    pts_bounded(sampled.deep_view(), b + 1),
                    pts.deep_view() =~= old(pts).deep_view() + ps.take(i - 1),
                    i > 1 ==> (np.0 as int, np.1 as int) == sampled.deep_view()[i - 1],
                    i == 1 ==> np == (px, py),
                decreases 25 - i,
            {
                let p = sampled[i];
                let ghost pre = pts.deep_view();
                pts.push(p);
                np = (p.x, p.y);
                proof {
                    assert(p@ == sampled.deep_view()[i as int]);
                    assert(ps[i - 1] == sampled.deep_view()[i as int]);
                    assert(ps.take(i as int) =~= ps.take(i - 1).push(p@));
                    assert(pts.deep_view() =~= pre.push(p@));
                    assert(pts.deep_view() =~= old(pts).deep_view() + ps.take(i as int));
                }
                i = i + 1;
            }
            proof {
                assert(ps.take(24) =~= ps);
                assert(ps.len() == 24);
                assert((np.0 as int, np.1 as int) == ps.last());
            }
            np
        },
        CurveSegment::Arc { center, radius, start_angle, end_angle } => {
            let sampled = crate::sample::sample_arc(
                center.x,
                center.y,
                *radius,
                *start_angle,
                *end_angle,
                TESS_ARC_STEPS,
            );
            proof {
                assert forall|j: int| 0 <= j < sampled.deep_view().len() implies abs_int(
                    (#[trigger] sampled.deep_view()[j]).0,
                ) <= 2 * COORD_LIMIT as int + 1 && abs_int(sampled.deep_view()[j].1) <= 2
                    * COORD_LIMIT as int + 1 by {}
            }
            let ghost ps = tess_seg_points((px as int, py as int), *seg);
            let mut np: (i64, i64) = (px, py);
            let mut i: usize = 0;
            let n = sampled.len();
            while i < n
                invariant
                    0 <= i <= n,
                    n == sampled@.len(),
                    n == 32,
                    ps == sampled.deep_view(),
                    pts_bounded(sampled.deep_view(), 2 * COORD_LIMIT as int + 1),
                    pts.deep_view() =~= old(pts).deep_view() + ps.take(i as int),
                    i > 0 ==> (np.0 as int, np.1 as int) == ps[i - 1],
                    i == 0 ==> np == (px, py),
                decreases n - i,
            {
                let p = sampled[i];
                let ghost pre = pts.deep_view();
                pts.push(p);
                np = (p.x, p.y);
                proof {
                    assert(p@ == sampled.deep_view()[i as int]);
                    assert(ps.take(i + 1) =~= ps.take(i as int).push(p@));
                    assert(pts.deep_view() =~= pre.push(p@));
                    assert(pts.deep_view() =~= old(pts).deep_view() + ps.take(i + 1));
                }
                i = i + 1;
            }
            proof {
                assert(ps.take(n as int) =~= ps);
                assert((np.0 as int, np.1 as int) == ps.last());
            }
            np
        },
    }
}

/// Tessellate a closed outline into a fill mesh: flat vertex positions
/// (x, y, z with z always zero) and a triangle index list. Fails exactly
/// on an empty outline; a polygon that collapses below three vertices
/// yields a valid empty mesh.
#[verifier::rlimit(100)]
pub fn tessellate_outline(origin: &Point2D, segments: &[CurveSegment]) -> (r: Result<
    (Vec<i64>, Vec<u32>),
    String,
>)
    requires
        origin.wf(),
        crate::pattern::wf_segments(segments@),
        segments@.len() <= crate::flatten::MAX_SEGMENTS as int,
    ensures
        r is Err <==> segments@.len() == 0,
        r is Err ==> r->Err_0@ == "Cannot tessellate empty outline"@,
        r is Ok ==> ({
            let (pos, idx) = r->Ok_0;
            let poly = tess_polygon(origin.x as int, origin.y as int, segments@);
            &&& (poly.len() >= 3 ==> pos@ == flat_triples(poly) && idx@.len() == 3 * (poly.len()
                - 2) && tris_area2(poly, idx@, poly.len() - 2) == shoelace2(poly))
            &&& (poly.len() < 3 ==> pos@.len() == 0 && idx@.len() == 0)
            &&& pos@.len() % 3 == 0
            &&& idx@.len() % 3 == 0
            &&& (pos@.len() >= 9 ==> idx@.len() == 3 * (pos@.len() / 3 - 2))
            &&& forall|i: int| 0 <= i < idx@.len() ==> 3 * (#[trigger] idx@[i]) + 2 < pos@.len()
        }),
{
    if segments.len() == 0 {
        return Err(String::from_str("Cannot tessellate empty outline"));
    }
    let poly = outline_polygon(origin, segments);
    if poly.len() < 3 {
        return Ok((Vec::new(), Vec::new()));
    }
    proof {
        lemma_polygon_small(origin.x as int, origin.y as int, segments@);
        assert forall|j: int| 0 <= j < poly@.len() implies abs_int(
            (#[trigger] poly@[j]).x as int,
        ) <= 16_000_000_000 && abs_int(poly@[j].y as int) <= 16_000_000_000 by {
            assert(poly.deep_view()[j] == (poly@[j].x as int, poly@[j].y as int));
        }
    }
    let tris = triangulate(&poly);
    let mut pos: Vec<i64> = Vec::new();
    let mut j: usize = 0;
    while j < poly.len()
        invariant
            0 <= j <= poly@.len(),
            pos@.len() == 3 * j,
            forall|t: int|
                0 <= t < j ==> pos@[3 * t] == (#[trigger] poly.deep_view()[t]).0 && pos@[3 * t + 1]
                    == poly.deep_view()[t].1 && pos@[3 * t + 2] == 0,
        decreases poly@.len() - j,
    {
        let p = poly[j];
        let ghost pre = pos@;
        pos.push(p.x);
        pos.push(p.y);
        pos.push(0);
        proof {
            assert(pos@ =~= pre + seq![p.x, p.y, 0]);
            assert(poly.deep_view()[j as int] == (p.x as int, p.y as int));
            assert forall|t: int| 0 <= t < j + 1 implies pos@[3 * t] == (
            #[trigger] poly.deep_view()[t]).0 && pos@[3 * t + 1] == poly.deep_view()[t].1 && pos@[3
                * t + 2] == 0 by {
                if t < j {
                    assert(pos@[3 * t] == pre[3 * t]);
                    assert(pos@[3 * t + 1] == pre[3 * t + 1]);
                    assert(pos@[3 * t + 2] == pre[3 * t + 2]);
                }
            }
        }
        j = j + 1;
    }
    proof {
        let target = flat_triples(poly.deep_view());
        assert forall|i: int| 0 <= i < pos@.len() implies pos@[i] == target[i] by {
            let w = i / 3;
            vstd::arithmetic::div_mod::lemma_fundamental_div_mod(i, 3);
            vstd::arithmetic::div_mod::lemma_mod_bound(i, 3);
            vstd::arithmetic::div_mod::lemma_div_pos_is_pos(i, 3);
            if i % 3 == 0 {
                assert(i == 3 * w);
                assert(pos@[3 * w] == poly.deep_view()[w].0);
            } else if i % 3 == 1 {
                assert(i == 3 * w + 1);
                assert(pos@[3 * w + 1] == poly.deep_view()[w].1);
            } else {
                assert(i == 3 * w + 2);
                assert(pos@[3 * w] == poly.deep_view()[w].0);
                assert(pos@[3 * w + 2] == 0);
            }
        }
        assert(pos@ =~= target);
    }
    Ok((pos, tris))
}

/// The polygon never outgrows the index type: it is bounded by the
/// polyline, which is bounded by the segment cap times the largest
/// per-segment sample count.
proof fn lemma_polygon_small(ox: int, oy: int, segs: Seq<CurveSegment>)
    requires
        segs.len() <= crate::flatten::MAX_SEGMENTS as int,
    ensures
        tess_polygon(ox, oy, segs).len() <= 1 + 32 * segs.len(),
        tess_polygon(ox, oy, segs).len() < 0x1_0000_0000,
{
    reveal(tess_polygon);
    lemma_dedup_le(tess_polyline(ox, oy, segs));
    lemma_tess_chain_len(ox, oy, segs, segs.len() as int);
}

/// Every segment contributes at most thirty-two points.
proof fn lemma_tess_chain_len(ox: int, oy: int, segs: Seq<CurveSegment>, k: int)
    requires
        0 <= k <= segs.len(),
    ensures
        tess_chain_upto(ox, oy, segs, k).len() <= 32 * k,
    decreases k,
{
    if k > 0 {
        lemma_tess_chain_len(ox, oy, segs, k - 1);
        let ps = tess_seg_points(tess_pen_upto(ox, oy, segs, k - 1), segs[k - 1]);
        assert(ps.len() <= 32);
    }
}

/// Deduplication never lengthens a sequence.
proof fn lemma_dedup_le(s: Seq<(int, int)>)
    ensures
        dedup_consec(s).len() <= s.len(),
        close_trim(dedup_consec(s)).len() <= s.len(),
    decreases s.len(),
{
    if s.len() > 1 {
        lemma_dedup_le(s.drop_last());
    }
}

} // verus!
