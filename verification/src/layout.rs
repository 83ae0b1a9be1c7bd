//! The layout service: combined bounding boxes over piece sets.
//!
//! The box expands over each piece's origin, every line or bezier
//! endpoint and control point (a curve is bounded conservatively by its
//! control polygon), the full circle implied by an arc's center and
//! radius regardless of sweep, and grain-line endpoints. Notches are not
//! included. The fold below is the definition; the executable
//! accumulation is proved equal to it.

use vstd::prelude::*;

use crate::bbox::{max_int, min_int, BBox2D};
use crate::num::COORD_LIMIT;
use crate::pattern::{CurveSegment, PatternPieceData};
use crate::vec2::Vec2;

verus! {

/// A box as four bounds: minimum x, minimum y, maximum x, maximum y.
pub open spec fn box_of(b: BBox2D) -> (int, int, int, int) {
    (b.min.x as int, b.min.y as int, b.max.x as int, b.max.y as int)
}

/// Widen a box to include one point.
pub open spec fn expand_pt(b: (int, int, int, int), x: int, y: int) -> (int, int, int, int) {
    (min_int(b.0, x), min_int(b.1, y), max_int(b.2, x), max_int(b.3, y))
}

/// Widen a box by the expansion points of one segment.
pub open spec fn seg_fold(b: (int, int, int, int), ox: int, oy: int, seg: CurveSegment) -> (
    int,
    int,
    int,
    int,
) {
    match seg {
        CurveSegment::Line { end } => expand_pt(b, ox + end.x, oy + end.y),
        CurveSegment::QuadraticBezier { control, end } => expand_pt(
            expand_pt(b, ox + control.x, oy + control.y),
            ox + end.x,
            oy + end.y,
        ),
        CurveSegment::CubicBezier { control1, control2, end } => expand_pt(
            expand_pt(
                expand_pt(b, ox + control1.x, oy + control1.y),
                ox + control2.x,
                oy + control2.y,
            ),
            ox + end.x,
            oy + end.y,
        ),
        CurveSegment::Arc { center, radius, .. } => expand_pt(
            expand_pt(b, ox + center.x - radius, oy + center.y - radius),
            ox + center.x + radius,
            oy + center.y + radius,
        ),
    }
}

/// Fold over the first `k` segments of a list.
pub open spec fn segs_fold(
    b: (int, int, int, int),
    ox: int,
    oy: int,
    segs: Seq<CurveSegment>,
    k: int,
) -> (int, int, int, int)
    decreases k,
{
    if k <= 0 {
        b
    } else {
        seg_fold(segs_fold(b, ox, oy, segs, k - 1), ox, oy, segs[k - 1])
    }
}

/// Fold over the first `k` internal lines of a piece.
pub open spec fn lines_fold(
    b: (int, int, int, int),
    ox: int,
    oy: int,
    lines: Seq<Vec<CurveSegment>>,
    k: int,
) -> (int, int, int, int)
    decreases k,
{
    if k <= 0 {
        b
    } else {
        let prev = lines_fold(b, ox, oy, lines, k - 1);
        segs_fold(prev, ox, oy, lines[k - 1]@, lines[k - 1]@.len() as int)
    }
}

/// Widen a box by everything one piece contributes: origin, outline,
/// internal lines, grain-line endpoints. Notches do not contribute.
pub open spec fn piece_fold(b: (int, int, int, int), p: PatternPieceData) -> (int, int, int, int) {
    let ox = p.origin.x as int;
    let oy = p.origin.y as int;
    let b1 = expand_pt(b, ox, oy);
    let b2 = segs_fold(b1, ox, oy, p.outline@, p.outline@.len() as int);
    let b3 = lines_fold(b2, ox, oy, p.internal_lines@, p.internal_lines@.len() as int);
    match p.grain_line {
        Some((s, e)) => expand_pt(expand_pt(b3, ox + s.x, oy + s.y), ox + e.x, oy + e.y),
        None => b3,
    }
}

/// Fold over the first `k` pieces, starting from the empty accumulator.
pub open spec fn pieces_fold(pieces: Seq<PatternPieceData>, k: int) -> (int, int, int, int)
    decreases k,
{
    if k <= 0 {
        box_of(BBox2D::spec_empty())
    } else {
        piece_fold(pieces_fold(pieces, k - 1), pieces[k - 1])
    }
}

/// The combined bounding box of a piece set.
pub open spec fn pieces_bbox(pieces: Seq<PatternPieceData>) -> (int, int, int, int) {
    pieces_fold(pieces, pieces.len() as int)
}

/// A box within the sentinel range on every bound.
pub open spec fn box_bounded(b: (int, int, int, int)) -> bool {
    &&& crate::num::abs_int(b.0) <= crate::bbox::BBOX_SENTINEL
    &&& crate::num::abs_int(b.1) <= crate::bbox::BBOX_SENTINEL
    &&& crate::num::abs_int(b.2) <= crate::bbox::BBOX_SENTINEL
    &&& crate::num::abs_int(b.3) <= crate::bbox::BBOX_SENTINEL
}

/// Widen the accumulator by the expansion points of one segment.
pub fn expand_bbox_for_segment(bbox: &mut BBox2D, ox: i64, oy: i64, seg: &CurveSegment)
    requires
        old(bbox).wf(),
        box_bounded(box_of(*old(bbox))),
        crate::num::abs_int(ox as int) <= COORD_LIMIT,
        crate::num::abs_int(oy as int) <= COORD_LIMIT,
        seg.wf(),
    ensures
        box_of(*final (bbox)) == seg_fold(box_of(*old(bbox)), ox as int, oy as int, *seg),
        final (bbox).wf(),
        box_bounded(box_of(*final (bbox))),
{
    match seg {
        CurveSegment::Line { end } => {
            bbox.expand_point(&Vec2 { x: ox + end.x, y: oy + end.y });
        },
        CurveSegment::QuadraticBezier { control, end } => {
            bbox.expand_point(&Vec2 { x: ox + control.x, y: oy + control.y });
            bbox.expand_point(&Vec2 { x: ox + end.x, y: oy + end.y });
        },
        CurveSegment::CubicBezier { control1, control2, end } => {
            bbox.expand_point(&Vec2 { x: ox + control1.x, y: oy + control1.y });
            bbox.expand_point(&Vec2 { x: ox + control2.x, y: oy + control2.y });
            bbox.expand_point(&Vec2 { x: ox + end.x, y: oy + end.y });
        },
        CurveSegment::Arc { center, radius, .. } => {
            bbox.expand_point(
                &Vec2 { x: ox + center.x - radius, y: oy + center.y - radius },
            );
            bbox.expand_point(
                &Vec2 { x: ox + center.x + radius, y: oy + center.y + radius },
            );
        },
    }
}

/// Widen the accumulator by everything one piece contributes.
pub fn expand_bbox_for_piece(bbox: &mut BBox2D, piece: &PatternPieceData)
    requires
        old(bbox).wf(),
        box_bounded(box_of(*old(bbox))),
        piece.wf(),
    ensures
        box_of(*final (bbox)) == piece_fold(box_of(*old(bbox)), *piece),
        final (bbox).wf(),
        box_bounded(box_of(*final (bbox))),
{
    let ox = piece.origin.x;
    let oy = piece.origin.y;
    bbox.expand_point(&Vec2 { x: ox, y: oy });
    let ghost b1 = box_of(*bbox);
    let mut i: usize = 0;
    while i < piece.outline.len()
        invariant
            0 <= i <= piece.outline@.len(),
            piece.wf(),
            bbox.wf(),
            box_bounded(box_of(*bbox)),
            crate::num::abs_int(ox as int) <= COORD_LIMIT,
            crate::num::abs_int(oy as int) <= COORD_LIMIT,
            ox == piece.origin.x,
            oy == piece.origin.y,
            box_of(*bbox) == segs_fold(b1, ox as int, oy as int, piece.outline@, i as int),
        decreases piece.outline@.len() - i,
    {
        expand_bbox_for_segment(bbox, ox, oy, &piece.outline[i]);
        i = i + 1;
    }
    let ghost b2 = box_of(*bbox);
    let mut j: usize = 0;
    while j < piece.internal_lines.len()
        invariant
            0 <= j <= piece.internal_lines@.len(),
            piece.wf(),
            bbox.wf(),
            box_bounded(box_of(*bbox)),
            crate::num::abs_int(ox as int) <= COORD_LIMIT,
            crate::num::abs_int(oy as int) <= COORD_LIMIT,
            ox == piece.origin.x,
            oy == piece.origin.y,
            box_of(*bbox) == lines_fold(b2, ox as int, oy as int, piece.internal_lines@, j as int),
        decreases piece.internal_lines@.len() - j,
    {
        let line = &piece.internal_lines[j];
        let ghost bl = box_of(*bbox);
        let mut i2: usize = 0;
        while i2 < line.len()
            invariant
                0 <= i2 <= line@.len(),
                0 <= j < piece.internal_lines@.len(),
                line == piece.internal_lines@[j as int],
                piece.wf(),
                bbox.wf(),
                box_bounded(box_of(*bbox)),
                crate::num::abs_int(ox as int) <= COORD_LIMIT,
                crate::num::abs_int(oy as int) <= COORD_LIMIT,
                box_of(*bbox) == segs_fold(bl, ox as int, oy as int, line@, i2 as int),
            decreases line@.len() - i2,
        {
            proof {
                assert(crate::pattern::wf_segments(line@));
            }
            expand_bbox_for_segment(bbox, ox, oy, &line[i2]);
            i2 = i2 + 1;
        }
        j = j + 1;
    }
    match &piece.grain_line {
        Some((s, e)) => {
            bbox.expand_point(&Vec2 { x: ox + s.x, y: oy + s.y });
            bbox.expand_point(&Vec2 { x: ox + e.x, y: oy + e.y });
        },
        None => {},
    }
}

/// The combined bounding box over a set of pieces.
pub fn compute_pieces_bbox(pieces: &[PatternPieceData]) -> (bbox: BBox2D)
    requires
        crate::pattern::wf_pieces(pieces@),
    ensures
        box_of(bbox) == pieces_bbox(pieces@),
        bbox.wf(),
        box_bounded(box_of(bbox)),
{
    let mut bbox = BBox2D::empty();
    let mut i: usize = 0;
    while i < pieces.len()
        invariant
            0 <= i <= pieces@.len(),
            crate::pattern::wf_pieces(pieces@),
            bbox.wf(),
            box_bounded(box_of(bbox)),
            box_of(bbox) == pieces_fold(pieces@, i as int),
        decreases pieces@.len() - i,
    {
        expand_bbox_for_piece(&mut bbox, &pieces[i]);
        i = i + 1;
    }
    bbox
}

} // verus!
