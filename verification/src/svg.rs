//! The scalable-vector-document emitter.
//!
//! An empty piece set yields a fixed hundred-by-hundred placeholder
//! document. Otherwise the combined bounding box, widened by a ten
//! millimeter margin, becomes the view box and physical size, and each
//! piece becomes a labeled group: the outline as a path (native line and
//! bezier commands, arcs approximated by line commands, always closed),
//! dashed internal-line paths, an optional grain line with an arrow
//! marker reference, a short vertical tick per notch, and a centered text
//! label. The spec functions define the document text character by
//! character.

use vstd::prelude::*;

use crate::fmt::{append_milli, milli_chars};
use crate::layout::pieces_bbox;
use crate::num::{abs_int, COORD_LIMIT};
use crate::pattern::{CurveSegment, PatternPieceData, Point2D};
use crate::sample::{arc_angle, arc_point, arc_steps};

verus! {

/// The margin around the combined box, in thousandths of a millimeter.
pub const SVG_MARGIN: i64 = 10_000;

/// The document returned for an empty piece set.
pub const SVG_PLACEHOLDER: &'static str =
    "<svg xmlns=\"http://www.w3.org/2000/svg\" viewBox=\"0 0 100 100\"></svg>";

/// The line commands approximating an arc: one `L` per sample index in
/// `[0, k)` (the arc's own start point included, unlike the polyline
/// flattening).
pub open spec fn arc_cmds(cx: int, cy: int, r: int, start: int, end: int, k: int) -> Seq<char>
    decreases k,
{
    if k <= 0 {
        Seq::<char>::empty()
    } else {
        let steps = arc_steps(start, end);
        let p = arc_point(cx, cy, r, arc_angle(start, end, steps, k - 1));
        arc_cmds(cx, cy, r, start, end, k - 1) + " L "@ + milli_chars(p.0) + ","@ + milli_chars(
            p.1,
        )
    }
}

/// The path command text of one segment.
pub open spec fn seg_path_chars(ox: int, oy: int, seg: CurveSegment) -> Seq<char> {
    match seg {
        CurveSegment::Line { end } => " L "@ + milli_chars(ox + end.x) + ","@ + milli_chars(
            oy + end.y,
        ),
        CurveSegment::QuadraticBezier { control, end } => " Q "@ + milli_chars(ox + control.x)
            + ","@ + milli_chars(oy + control.y) + " "@ + milli_chars(ox + end.x) + ","@
            + milli_chars(oy + end.y),
        CurveSegment::CubicBezier { control1, control2, end } => " C "@ + milli_chars(
            ox + control1.x,
        ) + ","@ + milli_chars(oy + control1.y) + " "@ + milli_chars(ox + control2.x) + ","@
            + milli_chars(oy + control2.y) + " "@ + milli_chars(ox + end.x) + ","@ + milli_chars(
            oy + end.y,
        ),
        CurveSegment::Arc { center, radius, start_angle, end_angle } => arc_cmds(
            ox + center.x,
            oy + center.y,
            radius as int,
            start_angle as int,
            end_angle as int,
            arc_steps(start_angle as int, end_angle as int) + 1,
        ),
    }
}

/// The concatenated commands of the first `k` segments.
pub open spec fn path_cmds(ox: int, oy: int, segs: Seq<CurveSegment>, k: int) -> Seq<char>
    decreases k,
{
    if k <= 0 {
        Seq::<char>::empty()
    } else {
        path_cmds(ox, oy, segs, k - 1) + seg_path_chars(ox, oy, segs[k - 1])
    }
}

/// The complete path text of an outline: an absolute move to the piece
/// origin, one command per segment, and an unconditional close.
pub open spec fn svg_path_chars(ox: int, oy: int, segs: Seq<CurveSegment>) -> Seq<char> {
    "M "@ + milli_chars(ox) + ","@ + milli_chars(oy) + path_cmds(ox, oy, segs, segs.len() as int)
        + " Z"@
}

/// The path always opens with a move to the piece origin and always ends
/// with the close command.
pub proof fn lemma_svg_path_form(ox: int, oy: int, segs: Seq<CurveSegment>)
    ensures
        ({
            let head = "M "@ + milli_chars(ox) + ","@ + milli_chars(oy);
            svg_path_chars(ox, oy, segs).take(head.len() as int) == head
        }),
        svg_path_chars(ox, oy, segs).len() > 0,
        svg_path_chars(ox, oy, segs).last() == 'Z',
{
    reveal_strlit("M ");
    reveal_strlit(",");
    reveal_strlit(" Z");
    let head = "M "@ + milli_chars(ox) + ","@ + milli_chars(oy);
    let path = svg_path_chars(ox, oy, segs);
    assert(path.take(head.len() as int) =~= head);
    assert(path.last() == 'Z');
}

/// Append the line commands approximating an arc.
fn append_arc_cmds(d: &mut String, cx: i64, cy: i64, r: i64, start: i64, end: i64)
    requires
        abs_int(cx as int) <= 2 * COORD_LIMIT as int,
        abs_int(cy as int) <= 2 * COORD_LIMIT as int,
        0 <= r <= COORD_LIMIT,
        abs_int(start as int) <= crate::num::ANGLE_LIMIT,
        abs_int(end as int) <= crate::num::ANGLE_LIMIT,
    ensures
        final (d)@ == old(d)@ + arc_cmds(
            cx as int,
            cy as int,
            r as int,
            start as int,
            end as int,
            arc_steps(start as int, end as int) + 1,
        ),
{
    let steps = crate::sample::arc_steps_count(start, end);
    let mut i: u64 = 0;
    while i <= steps
        invariant
            0 <= i <= steps + 1,
            steps == arc_steps(start as int, end as int),
            4 <= steps <= 200_001,
            abs_int(cx as int) <= 2 * COORD_LIMIT as int,
            abs_int(cy as int) <= 2 * COORD_LIMIT as int,
            0 <= r <= COORD_LIMIT,
            abs_int(start as int) <= crate::num::ANGLE_LIMIT,
            abs_int(end as int) <= crate::num::ANGLE_LIMIT,
            d@ =~= old(d)@ + arc_cmds(
                cx as int,
                cy as int,
                r as int,
                start as int,
                end as int,
                i as int,
            ),
        decreases steps + 1 - i,
    {
        let ang = crate::sample::arc_angle_at(start, end, steps, i);
        let p = crate::sample::arc_point_at(cx, cy, r, ang);
        d.append(" L ");
        append_milli(d, p.x);
        d.append(",");
        append_milli(d, p.y);
        proof {
            assert(d@ =~= old(d)@ + arc_cmds(
                cx as int,
                cy as int,
                r as int,
                start as int,
                end as int,
                i + 1,
            ));
        }
        i = i + 1;
    }
}

/// Build the path text of one outline.
#[verifier::rlimit(100)]
pub fn outline_to_svg_path(origin: &Point2D, segments: &[CurveSegment]) -> (d: String)
    requires
        origin.wf(),
        crate::pattern::wf_segments(segments@),
    ensures
        d@ == svg_path_chars(origin.x as int, origin.y as int, segments@),
{
    let ox = origin.x;
    let oy = origin.y;
    let mut d = String::new();
    d.append("M ");
    append_milli(&mut d, ox);
    d.append(",");
    append_milli(&mut d, oy);
    let ghost head = d@;
    let mut k: usize = 0;
    while k < segments.len()
        invariant
            0 <= k <= segments@.len(),
            origin.wf(),
            ox == origin.x,
            oy == origin.y,
            crate::pattern::wf_segments(segments@),
            head == "M "@ + milli_chars(ox as int) + ","@ + milli_chars(oy as int),
            d@ =~= head + path_cmds(ox as int, oy as int, segments@, k as int),
        decreases segments@.len() - k,
    {
        match &segments[k] {
            CurveSegment::Line { end } => {
                d.append(" L ");
                append_milli(&mut d, ox + end.x);
                d.append(",");
                append_milli(&mut d, oy + end.y);
            },
            CurveSegment::QuadraticBezier { control, end } => {
                d.append(" Q ");
                append_milli(&mut d, ox + control.x);
                d.append(",");
                append_milli(&mut d, oy + control.y);
                d.append(" ");
                append_milli(&mut d, ox + end.x);
                d.append(",");
                append_milli(&mut d, oy + end.y);
            },
            CurveSegment::CubicBezier { control1, control2, end } => {
                d.append(" C ");
                append_milli(&mut d, ox + control1.x);
                d.append(",");
                append_milli(&mut d, oy + control1.y);
                d.append(" ");
                append_milli(&mut d, ox + control2.x);
                d.append(",");
                append_milli(&mut d, oy + control2.y);
                d.append(" ");
                append_milli(&mut d, ox + end.x);
                d.append(",");
                append_milli(&mut d, oy + end.y);
            },
            CurveSegment::Arc { center, radius, start_angle, end_angle } => {
                append_arc_cmds(&mut d, ox + center.x, oy + center.y, *radius, *start_angle, *end_angle);
            },
        }
        proof {
            assert(d@ =~= head + path_cmds(ox as int, oy as int, segments@, k + 1));
        }
        k = k + 1;
    }
    d.append(" Z");
    proof {
        assert(d@ =~= svg_path_chars(origin.x as int, origin.y as int, segments@));
    }
    d
}

/// The dashed path elements for the first `k` internal lines; an empty
/// line contributes nothing.
pub open spec fn internal_paths_chars(p: PatternPieceData, k: int) -> Seq<char>
    decreases k,
{
    if k <= 0 {
        Seq::<char>::empty()
    } else {
        let prev = internal_paths_chars(p, k - 1);
        let line = p.internal_lines@[k - 1];
        if line@.len() == 0 {
            prev
        } else {
            prev + "    <path d=\""@ + svg_path_chars(p.origin.x as int, p.origin.y as int, line@)
                + "\" fill=\"none\" stroke=\"black\" stroke-width=\"0.3\" stroke-dasharray=\"2,2\"/>\n"@
        }
    }
}

/// The tick elements for the first `k` notches: a vertical line through
/// the notch point with a three millimeter half-length.
pub open spec fn notch_chars(p: PatternPieceData, k: int) -> Seq<char>
    decreases k,
{
    if k <= 0 {
        Seq::<char>::empty()
    } else {
        let n = p.notches@[k - 1];
        let nx = p.origin.x + n.x;
        let ny = p.origin.y + n.y;
        notch_chars(p, k - 1) + "    <line x1=\""@ + milli_chars(nx) + "\" y1=\""@ + milli_chars(
            ny - 3000,
        ) + "\" x2=\""@ + milli_chars(nx) + "\" y2=\""@ + milli_chars(ny + 3000)
            + "\" stroke=\"black\" stroke-width=\"0.5\"/>\n"@
    }
}

/// The grain-line element, when the piece has one.
pub open spec fn grain_chars(p: PatternPieceData) -> Seq<char> {
    match p.grain_line {
        Some((s, e)) => "    <line x1=\""@ + milli_chars(p.origin.x + s.x) + "\" y1=\""@
            + milli_chars(p.origin.y + s.y) + "\" x2=\""@ + milli_chars(p.origin.x + e.x)
            + "\" y2=\""@ + milli_chars(p.origin.y + e.y)
            + "\" stroke=\"gray\" stroke-width=\"0.3\" marker-end=\"url(#arrow)\"/>\n"@,
        None => Seq::<char>::empty(),
    }
}

/// The opening of one piece's group: the group tag, the outline path if
/// the outline is non-empty, and the internal-line paths.
pub open spec fn group_head_chars(p: PatternPieceData) -> Seq<char> {
    "  <g id=\""@ + p.id@ + "\">\n"@ + (if p.outline@.len() == 0 {
        Seq::<char>::empty()
    } else {
        "    <path d=\""@ + svg_path_chars(p.origin.x as int, p.origin.y as int, p.outline@)
            + "\" fill=\"none\" stroke=\"black\" stroke-width=\"0.5\"/>\n"@
    }) + internal_paths_chars(p, p.internal_lines@.len() as int)
}

/// The closing of one piece's group: the centered name label and the end
/// tag.
pub open spec fn group_label_chars(p: PatternPieceData) -> Seq<char> {
    "    <text x=\""@ + milli_chars(p.origin.x as int) + "\" y=\""@ + milli_chars(
        p.origin.y as int,
    ) + "\" font-size=\"4\" text-anchor=\"middle\" fill=\"gray\">"@ + p.name@ + "</text>\n"@
        + "  </g>\n"@
}

/// One piece's group element.
pub open spec fn group_chars(p: PatternPieceData) -> Seq<char> {
    group_head_chars(p) + grain_chars(p) + notch_chars(p, p.notches@.len() as int)
        + group_label_chars(p)
}

/// The groups of the first `k` pieces.
pub open spec fn groups_chars(pieces: Seq<PatternPieceData>, k: int) -> Seq<char>
    decreases k,
{
    if k <= 0 {
        Seq::<char>::empty()
    } else {
        groups_chars(pieces, k - 1) + group_chars(pieces[k - 1])
    }
}

/// The complete document text for a piece set.
pub open spec fn svg_doc_chars(pieces: Seq<PatternPieceData>) -> Seq<char> {
    if pieces.len() == 0 {
        SVG_PLACEHOLDER@
    } else {
        let bb = pieces_bbox(pieces);
        let minx = bb.0 - SVG_MARGIN;
        let miny = bb.1 - SVG_MARGIN;
        let w = (bb.2 + SVG_MARGIN) - minx;
        let h = (bb.3 + SVG_MARGIN) - miny;
        "<svg xmlns=\"http://www.w3.org/2000/svg\" viewBox=\""@ + milli_chars(minx) + " "@
            + milli_chars(miny) + " "@ + milli_chars(w) + " "@ + milli_chars(h) + "\" width=\""@
            + milli_chars(w) + "mm\" height=\""@ + milli_chars(h) + "mm\">\n"@ + groups_chars(
            pieces,
            pieces.len() as int,
        ) + "</svg>\n"@
    }
}

/// Append the opening of one piece's group: tag, outline path, and
/// internal-line paths.
#[verifier::rlimit(100)]
fn append_group_head(s: &mut String, p: &PatternPieceData)
    requires
        p.wf(),
    ensures
        final (s)@ == old(s)@ + group_head_chars(*p),
{
    let ox = p.origin.x;
    let oy = p.origin.y;
    s.append("  <g id=\"");
    s.append(p.id.as_str());
    s.append("\">\n");
    if p.outline.len() > 0 {
        let path = outline_to_svg_path(&p.origin, p.outline.as_slice());
        s.append("    <path d=\"");
        s.append(path.as_str());
        s.append("\" fill=\"none\" stroke=\"black\" stroke-width=\"0.5\"/>\n");
    }
    let mut k: usize = 0;
    while k < p.internal_lines.len()
        invariant
            0 <= k <= p.internal_lines@.len(),
            p.wf(),
            ox == p.origin.x,
            oy == p.origin.y,
            s@ =~= old(s)@ + "  <g id=\""@ + p.id@ + "\">\n"@ + (if p.outline@.len() == 0 {
                Seq::<char>::empty()
            } else {
                "    <path d=\""@ + svg_path_chars(ox as int, oy as int, p.outline@)
                    + "\" fill=\"none\" stroke=\"black\" stroke-width=\"0.5\"/>\n"@
            }) + internal_paths_chars(*p, k as int),
        decreases p.internal_lines@.len() - k,
    {
        let line = &p.internal_lines[k];
        if line.len() > 0 {
            proof {
                assert(crate::pattern::wf_segments(line@));
            }
            let path = outline_to_svg_path(&p.origin, line.as_slice());
            s.append("    <path d=\"");
            s.append(path.as_str());
            s.append(
                "\" fill=\"none\" stroke=\"black\" stroke-width=\"0.3\" stroke-dasharray=\"2,2\"/>\n",
            );
        }
        proof {
            assert(internal_paths_chars(*p, k + 1) == internal_paths_chars(*p, k as int) + (
            if p.internal_lines@[k as int]@.len() == 0 {
                Seq::<char>::empty()
            } else {
                "    <path d=\""@ + svg_path_chars(ox as int, oy as int, p.internal_lines@[k as int]@)
                    + "\" fill=\"none\" stroke=\"black\" stroke-width=\"0.3\" stroke-dasharray=\"2,2\"/>\n"@
            }));
        }
        k = k + 1;
    }
    proof {
        assert(s@ =~= old(s)@ + group_head_chars(*p));
    }
}

/// Append the notch ticks of one piece.
fn append_notches(s: &mut String, p: &PatternPieceData)
    requires
        p.wf(),
    ensures
        final (s)@ == old(s)@ + notch_chars(*p, p.notches@.len() as int),
{
    let ox = p.origin.x;
    let oy = p.origin.y;
    let ghost before_notches = s@;
    let mut k2: usize = 0;
    while k2 < p.notches.len()
        invariant
            0 <= k2 <= p.notches@.len(),
            p.wf(),
            ox == p.origin.x,
            oy == p.origin.y,
            s@ =~= before_notches + notch_chars(*p, k2 as int),
        decreases p.notches@.len() - k2,
    {
        let n = &p.notches[k2];
        let nx = ox + n.x;
        let ny = oy + n.y;
        s.append("    <line x1=\"");
        append_milli(s, nx);
        s.append("\" y1=\"");
        append_milli(s, ny - 3000);
        s.append("\" x2=\"");
        append_milli(s, nx);
        s.append("\" y2=\"");
        append_milli(s, ny + 3000);
        s.append("\" stroke=\"black\" stroke-width=\"0.5\"/>\n");
        proof {
            assert(s@ =~= before_notches + notch_chars(*p, k2 + 1));
        }
        k2 = k2 + 1;
    }
}

/// Append the grain-line element of one piece, when it has one.
fn append_grain(s: &mut String, p: &PatternPieceData)
    requires
        p.wf(),
    ensures
        final (s)@ == old(s)@ + grain_chars(*p),
{
    let ox = p.origin.x;
    let oy = p.origin.y;
    match &p.grain_line {
        Some((gs, ge)) => {
            s.append("    <line x1=\"");
            append_milli(s, ox + gs.x);
            s.append("\" y1=\"");
            append_milli(s, oy + gs.y);
            s.append("\" x2=\"");
            append_milli(s, ox + ge.x);
            s.append("\" y2=\"");
            append_milli(s, oy + ge.y);
            s.append("\" stroke=\"gray\" stroke-width=\"0.3\" marker-end=\"url(#arrow)\"/>\n");
        },
        None => {},
    }
    proof {
        assert(s@ =~= old(s)@ + grain_chars(*p));
    }
}

/// Append the name label and the closing tag of one piece's group.
fn append_group_label(s: &mut String, p: &PatternPieceData)
    ensures
        final (s)@ == old(s)@ + group_label_chars(*p),
{
    s.append("    <text x=\"");
    append_milli(s, p.origin.x);
    s.append("\" y=\"");
    append_milli(s, p.origin.y);
    s.append("\" font-size=\"4\" text-anchor=\"middle\" fill=\"gray\">");
    s.append(p.name.as_str());
    s.append("</text>\n");
    s.append("  </g>\n");
    proof {
        assert(s@ =~= old(s)@ + group_label_chars(*p));
    }
}

/// Append one piece's group element.
fn append_group(s: &mut String, p: &PatternPieceData)
    requires
        p.wf(),
    ensures
        final (s)@ == old(s)@ + group_chars(*p),
{
    append_group_head(s, p);
    append_grain(s, p);
    append_notches(s, p);
    append_group_label(s, p);
    proof {
        assert(s@ =~= old(s)@ + group_chars(*p));
    }
}

/// Serialize a piece set to a scalable vector document. An empty set
/// yields the fixed placeholder verbatim.
#[verifier::rlimit(100)]
pub fn pieces_to_svg(pieces: &[PatternPieceData]) -> (svg: String)
    requires
        crate::pattern::wf_pieces(pieces@),
    ensures
        svg@ == svg_doc_chars(pieces@),
{
    if pieces.len() == 0 {
        let r = String::from_str(SVG_PLACEHOLDER);
        return r;
    }
    let bbox = crate::layout::compute_pieces_bbox(pieces).expand_by(SVG_MARGIN);
    let w = bbox.width();
    let h = bbox.height();
    let mut svg = String::new();
    svg.append("<svg xmlns=\"http://www.w3.org/2000/svg\" viewBox=\"");
    append_milli(&mut svg, bbox.min.x);
    svg.append(" ");
    append_milli(&mut svg, bbox.min.y);
    svg.append(" ");
    append_milli(&mut svg, w);
    svg.append(" ");
    append_milli(&mut svg, h);
    svg.append("\" width=\"");
    append_milli(&mut svg, w);
    svg.append("mm\" height=\"");
    append_milli(&mut svg, h);
    svg.append("mm\">\n");
    let ghost header = svg@;
    let mut i: usize = 0;
    while i < pieces.len()
        invariant
            0 <= i <= pieces@.len(),
            crate::pattern::wf_pieces(pieces@),
            svg@ =~= header + groups_chars(pieces@, i as int),
        decreases pieces@.len() - i,
    {
        append_group(&mut svg, &pieces[i]);
        i = i + 1;
    }
    svg.append("</svg>\n");
    proof {
        assert(svg@ =~= svg_doc_chars(pieces@));
    }
    svg
}

} // verus!
