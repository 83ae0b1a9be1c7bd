//! The piece / outline / segment data model.
//!
//! All endpoints and control points are relative to the owning piece's
//! origin; an outline is an ordered sequence of segments, implicitly closed
//! back to the origin. Coordinates count thousandths of a millimeter, angles
//! thousandths of a radian.

use vstd::prelude::*;

use crate::num::{abs_int, ANGLE_LIMIT, COORD_LIMIT};

verus! {

/// A piece identifier: the canonical hyphenated text of a random
/// identifier, assigned at creation.
pub type PatternPieceId = String;

/// A point in piece-local or world coordinates, in thousandths of a
/// millimeter.
#[derive(Clone, Copy, Debug, PartialEq, Eq, Structural)]
pub struct Point2D {
    pub x: i64,
    pub y: i64,
}

impl View for Point2D {
    type V = (int, int);

    open spec fn view(&self) -> (int, int) {
        (self.x as int, self.y as int)
    }
}

impl DeepView for Point2D {
    type V = (int, int);

    open spec fn deep_view(&self) -> (int, int) {
        (self.x as int, self.y as int)
    }
}

impl Point2D {
    /// Both coordinates are within the supported range.
    pub open spec fn wf(self) -> bool {
        abs_int(self.x as int) <= COORD_LIMIT && abs_int(self.y as int) <= COORD_LIMIT
    }

    pub fn new(x: i64, y: i64) -> (p: Point2D)
        ensures
            p.x == x,
            p.y == y,
    {
        Point2D { x, y }
    }
}

/// One primitive of an outline. Angles follow the standard trigonometric
/// convention: zero along the positive x axis, increasing counter-clockwise
/// in piece-local space.
#[derive(Clone, Copy, Debug, PartialEq, Eq, Structural)]
pub enum CurveSegment {
    Line { end: Point2D },
    QuadraticBezier { control: Point2D, end: Point2D },
    CubicBezier { control1: Point2D, control2: Point2D, end: Point2D },
    Arc { center: Point2D, radius: i64, start_angle: i64, end_angle: i64 },
}

impl CurveSegment {
    /// Every stored coordinate, radius and angle is within range.
    pub open spec fn wf(self) -> bool {
        match self {
            CurveSegment::Line { end } => end.wf(),
            CurveSegment::QuadraticBezier { control, end } => control.wf() && end.wf(),
            CurveSegment::CubicBezier { control1, control2, end } => control1.wf() && control2.wf()
                && end.wf(),
            CurveSegment::Arc { center, radius, start_angle, end_angle } => center.wf() && 0
                <= radius <= COORD_LIMIT && abs_int(start_angle as int) <= ANGLE_LIMIT && abs_int(
                end_angle as int,
            ) <= ANGLE_LIMIT,
        }
    }
}

/// All segments of a sequence are well-formed.
pub open spec fn wf_segments(segs: Seq<CurveSegment>) -> bool {
    forall|i: int| 0 <= i < segs.len() ==> (#[trigger] segs[i]).wf()
}

/// Free-form metadata attached to a piece.
#[derive(Clone, Debug)]
pub struct PieceMetadata {
    pub fabric_type: Option<String>,
    pub cut_quantity: u32,
    pub mirror: bool,
    pub notes: String,
}

impl Default for PieceMetadata {
    /// One cut, not mirrored, no fabric, empty notes.
    fn default() -> (d: PieceMetadata)
        ensures
            d.fabric_type is None,
            d.cut_quantity == 1,
            !d.mirror,
            d.notes@ == Seq::<char>::empty(),
    {
        PieceMetadata {
            fabric_type: None,
            cut_quantity: 1,
            mirror: false,
            notes: String::new(),
        }
    }
}

/// A pattern piece: identity, placement, outline and annotations.
#[derive(Clone, Debug)]
pub struct PatternPieceData {
    pub id: String,
    pub name: String,
    /// Absolute placement of the piece in world space.
    pub origin: Point2D,
    pub outline: Vec<CurveSegment>,
    /// Optional grain direction, a pair of origin-relative points.
    pub grain_line: Option<(Point2D, Point2D)>,
    /// Seam allowance in thousandths of a millimeter.
    pub seam_allowance_mm: i64,
    /// Origin-relative notch points.
    pub notches: Vec<Point2D>,
    /// Secondary outlines, each independently closed.
    pub internal_lines: Vec<Vec<CurveSegment>>,
    pub metadata: PieceMetadata,
}

impl PatternPieceData {
    /// Every coordinate of the piece is within the supported range.
    pub open spec fn wf(self) -> bool {
        &&& self.origin.wf()
        &&& wf_segments(self.outline@)
        &&& match self.grain_line {
            Some((s, e)) => s.wf() && e.wf(),
            None => true,
        }
        &&& forall|i: int| 0 <= i < self.notches@.len() ==> (#[trigger] self.notches@[i]).wf()
        &&& forall|i: int|
            0 <= i < self.internal_lines@.len() ==> wf_segments(
                #[trigger] self.internal_lines@[i]@,
            )
    }
}

/// All pieces of a slice are well-formed.
pub open spec fn wf_pieces(pieces: Seq<PatternPieceData>) -> bool {
    forall|i: int| 0 <= i < pieces.len() ==> (#[trigger] pieces[i]).wf()
}

/// Two metadata records carry the same values.
pub open spec fn meta_eq(a: PieceMetadata, b: PieceMetadata) -> bool {
    &&& a.fabric_type.deep_view() == b.fabric_type.deep_view()
    &&& a.cut_quantity == b.cut_quantity
    &&& a.mirror == b.mirror
    &&& a.notes@ == b.notes@
}

/// Two pieces carry the same values in every field but the identifier
/// (string and list fields compared by contents).
pub open spec fn piece_eq_except_id(a: PatternPieceData, b: PatternPieceData) -> bool {
    &&& a.name@ == b.name@
    &&& a.origin == b.origin
    &&& a.outline@ == b.outline@
    &&& a.grain_line == b.grain_line
    &&& a.seam_allowance_mm == b.seam_allowance_mm
    &&& a.notches@ == b.notches@
    &&& a.internal_lines@.len() == b.internal_lines@.len()
    &&& (forall|i: int|
        0 <= i < a.internal_lines@.len() ==> (#[trigger] a.internal_lines@[i])@
            == b.internal_lines@[i]@)
    &&& meta_eq(a.metadata, b.metadata)
}

/// Two pieces carry the same values, field for field (string and list
/// fields compared by contents).
pub open spec fn piece_eq(a: PatternPieceData, b: PatternPieceData) -> bool {
    &&& a.id@ == b.id@
    &&& a.name@ == b.name@
    &&& a.origin == b.origin
    &&& a.outline@ == b.outline@
    &&& a.grain_line == b.grain_line
    &&& a.seam_allowance_mm == b.seam_allowance_mm
    &&& a.notches@ == b.notches@
    &&& a.internal_lines@.len() == b.internal_lines@.len()
    &&& (forall|i: int|
        0 <= i < a.internal_lines@.len() ==> (#[trigger] a.internal_lines@[i])@
            == b.internal_lines@[i]@)
    &&& meta_eq(a.metadata, b.metadata)
}

/// All pieces of two slices carry the same values, position by position.
pub open spec fn pieces_eq(a: Seq<PatternPieceData>, b: Seq<PatternPieceData>) -> bool {
    a.len() == b.len() && forall|i: int| 0 <= i < a.len() ==> piece_eq(#[trigger] a[i], b[i])
}

/// Copy a segment list.
pub fn copy_segments(src: &Vec<CurveSegment>) -> (r: Vec<CurveSegment>)
    ensures
        r@ == src@,
{
    let mut r: Vec<CurveSegment> = Vec::new();
    let mut i: usize = 0;
    while i < src.len()
        invariant
            0 <= i <= src@.len(),
            r@ =~= src@.take(i as int),
        decreases src@.len() - i,
    {
        r.push(src[i]);
        proof {
            assert(r@ =~= src@.take(i + 1));
        }
        i = i + 1;
    }
    proof {
        assert(r@ =~= src@);
    }
    r
}

/// Copy a point list.
pub fn copy_points(src: &Vec<Point2D>) -> (r: Vec<Point2D>)
    ensures
        r@ == src@,
{
    let mut r: Vec<Point2D> = Vec::new();
    let mut i: usize = 0;
    while i < src.len()
        invariant
            0 <= i <= src@.len(),
            r@ =~= src@.take(i as int),
        decreases src@.len() - i,
    {
        r.push(src[i]);
        proof {
            assert(r@ =~= src@.take(i + 1));
        }
        i = i + 1;
    }
    proof {
        assert(r@ =~= src@);
    }
    r
}

/// Copy a list of segment lists.
pub fn copy_lines(src: &Vec<Vec<CurveSegment>>) -> (r: Vec<Vec<CurveSegment>>)
    ensures
        r@.len() == src@.len(),
        forall|i: int| 0 <= i < src@.len() ==> (#[trigger] r@[i])@ == src@[i]@,
{
    let mut r: Vec<Vec<CurveSegment>> = Vec::new();
    let mut i: usize = 0;
    while i < src.len()
        invariant
            0 <= i <= src@.len(),
            r@.len() == i,
            forall|j: int| 0 <= j < i ==> (#[trigger] r@[j])@ == src@[j]@,
        decreases src@.len() - i,
    {
        let line = copy_segments(&src[i]);
        r.push(line);
        i = i + 1;
    }
    r
}

/// Copy one metadata record.
pub fn copy_metadata(src: &PieceMetadata) -> (r: PieceMetadata)
    ensures
        meta_eq(r, *src),
{
    let fabric_type = match &src.fabric_type {
        Some(s) => Some(s.clone()),
        None => None,
    };
    PieceMetadata {
        fabric_type,
        cut_quantity: src.cut_quantity,
        mirror: src.mirror,
        notes: src.notes.clone(),
    }
}

/// Pieces that carry the same values are well-formed together.
pub proof fn lemma_piece_eq_wf(a: PatternPieceData, b: PatternPieceData)
    requires
        piece_eq(a, b),
    ensures
        a.wf() == b.wf(),
{
    assert(a.outline@ == b.outline@);
    if b.wf() {
        assert forall|i: int|
            0 <= i < a.internal_lines@.len() implies wf_segments(
            #[trigger] a.internal_lines@[i]@) by {
            assert(a.internal_lines@[i]@ == b.internal_lines@[i]@);
        }
        assert(a.wf());
    }
    if a.wf() {
        assert forall|i: int|
            0 <= i < b.internal_lines@.len() implies wf_segments(
            #[trigger] b.internal_lines@[i]@) by {
            assert(a.internal_lines@[i]@ == b.internal_lines@[i]@);
        }
        assert(b.wf());
    }
}

/// Copy one piece, value for value.
pub fn clone_piece(src: &PatternPieceData) -> (r: PatternPieceData)
    ensures
        piece_eq(r, *src),
{
    PatternPieceData {
        id: src.id.clone(),
        name: src.name.clone(),
        origin: src.origin,
        outline: copy_segments(&src.outline),
        grain_line: src.grain_line,
        seam_allowance_mm: src.seam_allowance_mm,
        notches: copy_points(&src.notches),
        internal_lines: copy_lines(&src.internal_lines),
        metadata: copy_metadata(&src.metadata),
    }
}

/// Copy a whole piece list, value for value.
pub fn clone_pieces(src: &Vec<PatternPieceData>) -> (r: Vec<PatternPieceData>)
    ensures
        pieces_eq(r@, src@),
{
    let mut r: Vec<PatternPieceData> = Vec::new();
    let mut i: usize = 0;
    while i < src.len()
        invariant
            0 <= i <= src@.len(),
            r@.len() == i,
            forall|j: int| 0 <= j < i ==> piece_eq(#[trigger] r@[j], src@[j]),
        decreases src@.len() - i,
    {
        let p = clone_piece(&src[i]);
        r.push(p);
        i = i + 1;
    }
    r
}

/// A default empty piece with the given name: no outline, no annotations,
/// a ten-millimeter seam allowance.
pub fn create_default(name: &str) -> (p: PatternPieceData)
    ensures
        p.id@ == Seq::<char>::empty(),
        p.name@ == name@,
        p.origin == (Point2D { x: 0, y: 0 }),
        p.outline@ == Seq::<CurveSegment>::empty(),
        p.grain_line is None,
        p.seam_allowance_mm == 10_000,
        p.notches@ == Seq::<Point2D>::empty(),
        p.internal_lines@ == Seq::<Vec<CurveSegment>>::empty(),
        p.metadata.cut_quantity == 1,
        p.wf(),
{
    PatternPieceData {
        id: String::new(),
        name: name.to_owned(),
        origin: Point2D { x: 0, y: 0 },
        outline: Vec::new(),
        grain_line: None,
        seam_allowance_mm: 10_000,
        notches: Vec::new(),
        internal_lines: Vec::new(),
        metadata: PieceMetadata::default(),
    }
}

} // verus!
