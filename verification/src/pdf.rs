//! The paginated print layout.
//!
//! A named paper size is resolved from a caller-supplied token with a
//! silent fallback to the default. A fixed ten millimeter margin defines
//! the printable area per page; the combined pattern box, widened by
//! five millimeters, is tiled over `max(1, ceil(extent / printable))`
//! columns and rows; pages come in row-major order. Every page carries
//! four corner registration crosshairs inset by the margin, a tile label
//! (a row letter and a one-based column number), and every piece
//! polyline translated into the tile's page coordinates (flipped
//! vertically; points are not clipped to the printable rectangle). The
//! kernel computes the whole layout as plain values; rendering them into
//! a document file is the caller's concern.

use vstd::prelude::*;

use crate::flatten::world_polyline;
use crate::layout::pieces_bbox;
use crate::num::abs_int;
use crate::pattern::{PatternPieceData, Point2D};

verus! {

/// The page margin, in thousandths of a millimeter.
pub const PDF_MARGIN: i64 = 10_000;

/// The pattern-box margin before tiling, in thousandths of a millimeter.
pub const PDF_BBOX_MARGIN: i64 = 5_000;

/// The crosshair arm length, in thousandths of a millimeter.
pub const CROSSHAIR_ARM: i64 = 5_000;

/// A recognized paper size.
#[derive(Clone, Copy, Debug, PartialEq, Eq, Structural)]
pub enum PaperSize {
    A4,
    Letter,
}

impl PaperSize {
    /// Physical page size in thousandths of a millimeter.
    pub fn dimensions_mm(&self) -> (d: (i64, i64))
        ensures
            *self is A4 ==> d == (210_000i64, 297_000i64),
            *self is Letter ==> d == (216_000i64, 279_000i64),
    {
        match self {
            PaperSize::A4 => (210_000, 297_000),
            PaperSize::Letter => (216_000, 279_000),
        }
    }
}

/// Resolve a paper-size token; any unrecognized token falls back to the
/// default size rather than failing.
pub fn parse_paper_size(token: &str) -> (p: PaperSize)
    ensures
        p == (if token@ == "letter"@ {
            PaperSize::Letter
        } else {
            PaperSize::A4
        }),
{
    let t = String::from_str(token);
    let lit = String::from_str("letter");
    if t == lit {
        PaperSize::Letter
    } else {
        PaperSize::A4
    }
}

/// A straight stroke in page coordinates.
#[derive(Clone, Copy, Debug, PartialEq, Eq, Structural)]
pub struct PageSegment {
    pub x1: i64,
    pub y1: i64,
    pub x2: i64,
    pub y2: i64,
}

/// One print page: its tile label (a row-letter byte and a one-based
/// column number), its registration crosshairs, and every piece polyline
/// in page coordinates.
#[derive(Clone, Debug)]
pub struct PdfPage {
    pub label_row: u8,
    pub label_col: u64,
    pub crosshairs: Vec<PageSegment>,
    pub polylines: Vec<Vec<Point2D>>,
}

/// The complete layout of one print request.
#[derive(Clone, Debug)]
pub struct PdfPlan {
    pub page_w: i64,
    pub page_h: i64,
    pub margin: i64,
    pub rows: usize,
    pub cols: usize,
    pub pages: Vec<PdfPage>,
}

/// Ceiling division for nonnegative extents.
pub open spec fn ceil_div(a: int, b: int) -> int {
    (a + b - 1) / b
}

/// The tile count along one axis: at least one page, and enough to
/// cover the extent.
pub open spec fn tile_count(extent: int, printable: int) -> int {
    if ceil_div(extent, printable) < 1 {
        1
    } else {
        ceil_div(extent, printable)
    }
}

/// The row letter of a tile: the letter `A` advanced by the row number,
/// wrapping as a byte.
pub open spec fn row_letter(row: int) -> int {
    (65 + row) % 256
}

/// A world point in the page coordinates of the tile at `(tx, ty)`:
/// offset by the margin and flipped vertically.
pub open spec fn page_point(page_h: int, tx: int, ty: int, w: (int, int)) -> (int, int) {
    (PDF_MARGIN + w.0 - tx, page_h - PDF_MARGIN - (w.1 - ty))
}

/// The horizontal crosshair arm through a printable corner.
pub open spec fn cross_stroke_h(cx: int, cy: int) -> PageSegment {
    PageSegment {
        x1: (cx - CROSSHAIR_ARM as int) as i64,
        y1: cy as i64,
        x2: (cx + CROSSHAIR_ARM as int) as i64,
        y2: cy as i64,
    }
}

/// The vertical crosshair arm through a printable corner.
pub open spec fn cross_stroke_v(cx: int, cy: int) -> PageSegment {
    PageSegment {
        x1: cx as i64,
        y1: (cy - CROSSHAIR_ARM as int) as i64,
        x2: cx as i64,
        y2: (cy + CROSSHAIR_ARM as int) as i64,
    }
}

/// The eight registration strokes of one page: a horizontal and a
/// vertical arm through each corner of the printable area, the corners
/// inset by the page margin.
pub open spec fn crosshair_strokes(page_w: int, page_h: int) -> Seq<PageSegment> {
    let m = PDF_MARGIN as int;
    seq![
        cross_stroke_h(m, m),
        cross_stroke_v(m, m),
        cross_stroke_h(m, page_h - m),
        cross_stroke_v(m, page_h - m),
        cross_stroke_h(page_w - m, m),
        cross_stroke_v(page_w - m, m),
        cross_stroke_h(page_w - m, page_h - m),
        cross_stroke_v(page_w - m, page_h - m),
    ]
}

/// Build the crosshair strokes for a page size.
pub fn crosshair_segments(page_w: i64, page_h: i64) -> (v: Vec<PageSegment>)
    requires
        30_000 <= page_w <= 1_000_000,
        30_000 <= page_h <= 1_000_000,
    ensures
        v@ == crosshair_strokes(page_w as int, page_h as int),
        v@.len() == 8,
{
    let m = PDF_MARGIN;
    let cs = CROSSHAIR_ARM;
    let mut v: Vec<PageSegment> = Vec::new();
    v.push(PageSegment { x1: m - cs, y1: m, x2: m + cs, y2: m });
    v.push(PageSegment { x1: m, y1: m - cs, x2: m, y2: m + cs });
    v.push(PageSegment { x1: m - cs, y1: page_h - m, x2: m + cs, y2: page_h - m });
    v.push(PageSegment { x1: m, y1: page_h - m - cs, x2: m, y2: page_h - m + cs });
    v.push(PageSegment { x1: page_w - m - cs, y1: m, x2: page_w - m + cs, y2: m });
    v.push(PageSegment { x1: page_w - m, y1: m - cs, x2: page_w - m, y2: m + cs });
    v.push(
        PageSegment { x1: page_w - m - cs, y1: page_h - m, x2: page_w - m + cs, y2: page_h - m },
    );
    v.push(
        PageSegment { x1: page_w - m, y1: page_h - m - cs, x2: page_w - m, y2: page_h - m + cs },
    );
    proof {
        assert(v@ =~= crosshair_strokes(page_w as int, page_h as int));
    }
    v
}

/// The world polylines of the pieces with non-empty outlines, in input
/// order, over the first `k` pieces.
pub open spec fn world_polys(pieces: Seq<PatternPieceData>, k: int) -> Seq<Seq<(int, int)>>
    decreases k,
{
    if k <= 0 {
        Seq::<Seq<(int, int)>>::empty()
    } else {
        let prev = world_polys(pieces, k - 1);
        let p = pieces[k - 1];
        if p.outline@.len() == 0 {
            prev
        } else {
            prev.push(world_polyline(p.origin.x as int, p.origin.y as int, p.outline@))
        }
    }
}

/// Build one page: label, crosshairs, and every polyline translated
/// into the tile's page coordinates.
#[verifier::rlimit(100)]
fn make_page(
    page_w: i64,
    page_h: i64,
    tx: i64,
    ty: i64,
    row: u64,
    col: u64,
    polys: &Vec<Vec<Point2D>>,
    Ghost(wpolys): Ghost<Seq<Seq<(int, int)>>>,
) -> (page: PdfPage)
    requires
        30_000 <= page_w <= 1_000_000,
        30_000 <= page_h <= 1_000_000,
        abs_int(tx as int) <= 6_000_000_000_000,
        abs_int(ty as int) <= 6_000_000_000_000,
        row < 1_000_000,
        col < 1_000_000,
        wpolys.len() == polys@.len(),
        forall|p: int|
            0 <= p < polys@.len() ==> (#[trigger] polys@[p]).deep_view() == wpolys[p]
                && crate::sample::pts_bounded(polys@[p].deep_view(), 9_000_000_000),
    ensures
        page.label_row == row_letter(row as int),
        page.label_col == col + 1,
        page.crosshairs@ == crosshair_strokes(page_w as int, page_h as int),
        page.polylines@.len() == wpolys.len(),
        forall|p: int, j: int|
            0 <= p < wpolys.len() && 0 <= j < wpolys[p].len() ==> (#[trigger] page.polylines@[p]@[j])@
                == page_point(page_h as int, tx as int, ty as int, wpolys[p][j]),
        forall|p: int|
            0 <= p < wpolys.len() ==> (#[trigger] page.polylines@[p])@.len() == wpolys[p].len(),
{
    let letter: u8 = ((65u64 + row % 256) % 256) as u8;
    let crosshairs = crosshair_segments(page_w, page_h);
    let mut polylines: Vec<Vec<Point2D>> = Vec::new();
    let mut p: usize = 0;
    while p < polys.len()
        invariant
            0 <= p <= polys@.len(),
            wpolys.len() == polys@.len(),
            30_000 <= page_w <= 1_000_000,
            30_000 <= page_h <= 1_000_000,
            abs_int(tx as int) <= 6_000_000_000_000,
            abs_int(ty as int) <= 6_000_000_000_000,
            forall|q: int|
                0 <= q < polys@.len() ==> (#[trigger] polys@[q]).deep_view() == wpolys[q]
                    && crate::sample::pts_bounded(polys@[q].deep_view(), 9_000_000_000),
            polylines@.len() == p,
            forall|q: int, j: int|
                0 <= q < p && 0 <= j < wpolys[q].len() ==> (#[trigger] polylines@[q]@[j])@
                    == page_point(page_h as int, tx as int, ty as int, wpolys[q][j]),
            forall|q: int| 0 <= q < p ==> (#[trigger] polylines@[q])@.len() == wpolys[q].len(),
        decreases polys@.len() - p,
    {
        let src = &polys[p];
        let mut dst: Vec<Point2D> = Vec::new();
        let mut j: usize = 0;
        while j < src.len()
            invariant
                0 <= j <= src@.len(),
                src == polys@[p as int],
                0 <= p < polys@.len(),
                wpolys.len() == polys@.len(),
                30_000 <= page_w <= 1_000_000,
                30_000 <= page_h <= 1_000_000,
                abs_int(tx as int) <= 6_000_000_000_000,
                abs_int(ty as int) <= 6_000_000_000_000,
                src.deep_view() == wpolys[p as int],
                crate::sample::pts_bounded(src.deep_view(), 9_000_000_000),
                dst@.len() == j,
                forall|t: int|
                    0 <= t < j ==> (#[trigger] dst@[t])@ == page_point(
                        page_h as int,
                        tx as int,
                        ty as int,
                        wpolys[p as int][t],
                    ),
            decreases src@.len() - j,
        {
            let w = src[j];
            proof {
                assert(w@ == src.deep_view()[j as int]);
            }
            let px = PDF_MARGIN + (w.x - tx);
            let py = page_h - PDF_MARGIN - (w.y - ty);
            dst.push(Point2D { x: px, y: py });
            j = j + 1;
        }
        polylines.push(dst);
        p = p + 1;
    }
    PdfPage { label_row: letter, label_col: col + 1, crosshairs, polylines }
}

/// Render a tile label as text for the ordinary letter range: the row
/// letter followed by the column number.
pub fn tile_label_text(letter: u8, col: u64) -> (r: String)
    requires
        65 <= letter <= 90,
    ensures
        r@ == seq![letter_char(letter as int)] + crate::fmt::uint_chars(col as nat),
{
    let mut s = String::new();
    append_letter(&mut s, letter);
    crate::fmt::append_uint(&mut s, col);
    s
}

/// The capital letter with byte value `b`.
pub open spec fn letter_char(b: int) -> char {
    if b == 65 { 'A' } else if b == 66 { 'B' } else if b == 67 { 'C' } else if b == 68 { 'D' }
    else if b == 69 { 'E' } else if b == 70 { 'F' } else if b == 71 { 'G' } else if b == 72 { 'H' }
    else if b == 73 { 'I' } else if b == 74 { 'J' } else if b == 75 { 'K' } else if b == 76 { 'L' }
    else if b == 77 { 'M' } else if b == 78 { 'N' } else if b == 79 { 'O' } else if b == 80 { 'P' }
    else if b == 81 { 'Q' } else if b == 82 { 'R' } else if b == 83 { 'S' } else if b == 84 { 'T' }
    else if b == 85 { 'U' } else if b == 86 { 'V' } else if b == 87 { 'W' } else if b == 88 { 'X' }
    else if b == 89 { 'Y' } else { 'Z' }
}

/// Append the capital letter with byte value `b`.
fn append_letter(s: &mut String, b: u8)
    requires
        65 <= b <= 90,
    ensures
        final (s)@ == old(s)@ + seq![letter_char(b as int)],
{
    proof {
        reveal_strlit("A");
        reveal_strlit("B");
        reveal_strlit("C");
        reveal_strlit("D");
        reveal_strlit("E");
        reveal_strlit("F");
        reveal_strlit("G");
        reveal_strlit("H");
        reveal_strlit("I");
        reveal_strlit("J");
        reveal_strlit("K");
        reveal_strlit("L");
        reveal_strlit("M");
        reveal_strlit("N");
        reveal_strlit("O");
        reveal_strlit("P");
        reveal_strlit("Q");
        reveal_strlit("R");
        reveal_strlit("S");
        reveal_strlit("T");
        reveal_strlit("U");
        reveal_strlit("V");
        reveal_strlit("W");
        reveal_strlit("X");
        reveal_strlit("Y");
        reveal_strlit("Z");
    }
    if b == 65 { s.append("A"); } else if b == 66 { s.append("B"); }
    else if b == 67 { s.append("C"); } else if b == 68 { s.append("D"); }
    else if b == 69 { s.append("E"); } else if b == 70 { s.append("F"); }
    else if b == 71 { s.append("G"); } else if b == 72 { s.append("H"); }
    else if b == 73 { s.append("I"); } else if b == 74 { s.append("J"); }
    else if b == 75 { s.append("K"); } else if b == 76 { s.append("L"); }
    else if b == 77 { s.append("M"); } else if b == 78 { s.append("N"); }
    else if b == 79 { s.append("O"); } else if b == 80 { s.append("P"); }
    else if b == 81 { s.append("Q"); } else if b == 82 { s.append("R"); }
    else if b == 83 { s.append("S"); } else if b == 84 { s.append("T"); }
    else if b == 85 { s.append("U"); } else if b == 86 { s.append("V"); }
    else if b == 87 { s.append("W"); } else if b == 88 { s.append("X"); }
    else if b == 89 { s.append("Y"); } else { s.append("Z"); }
    proof {
        assert(s@ =~= old(s)@ + seq![letter_char(b as int)]);
    }
}

/// The printable extent of a page along one axis.
pub open spec fn printable(page_extent: int) -> int {
    page_extent - 2 * PDF_MARGIN as int
}

/// Executable tile count.
fn tile_count_of(extent: i64, print_extent: i64) -> (n: u64)
    requires
        0 < print_extent <= 1_000_000,
        abs_int(extent as int) <= 9_000_000_000_000,
    ensures
        n == tile_count(extent as int, print_extent as int),
        1 <= n <= 10_000_000_000_000,
{
    if extent <= 0 {
        proof {
            vstd::arithmetic::div_mod::lemma_div_is_ordered(
                extent as int + print_extent - 1,
                print_extent as int - 1,
                print_extent as int,
            );
            vstd::arithmetic::div_mod::lemma_fundamental_div_mod_converse(
                print_extent as int - 1,
                print_extent as int,
                0,
                print_extent as int - 1,
            );
        }
        1
    } else {
        let c = (extent + print_extent - 1) / print_extent;
        proof {
            vstd::arithmetic::div_mod::lemma_div_pos_is_pos(
                extent as int + print_extent - 1,
                print_extent as int,
            );
            vstd::arithmetic::div_mod::lemma_div_is_ordered_by_denominator(
                extent as int + print_extent - 1,
                1,
                print_extent as int,
            );
            vstd::arithmetic::div_mod::lemma_div_basics(extent as int + print_extent - 1);
        }
        if c < 1 {
            1
        } else {
            c as u64
        }
    }
}

/// Lay out one print request: resolve sizes and tiling, and translate
/// every piece polyline into every tile. An empty piece set yields a
/// single blank page. Fails only when the tiling would exceed a million
/// pages — a machine cap: each page buffers its own copy of every
/// polyline, so no realistic request comes near it.
#[verifier::rlimit(100)]
pub fn plan_pdf(pieces: &[PatternPieceData], paper: PaperSize) -> (r: Result<PdfPlan, String>)
    requires
        crate::pattern::wf_pieces(pieces@),
        forall|i: int|
            0 <= i < pieces@.len() ==> (#[trigger] pieces@[i]).outline@.len()
                <= crate::flatten::MAX_SEGMENTS as int,
    ensures
        pieces@.len() == 0 ==> r is Ok && ({
            let plan = r->Ok_0;
            &&& plan.rows == 1
            &&& plan.cols == 1
            &&& plan.pages@.len() == 1
            &&& plan.pages@[0].crosshairs@.len() == 0
            &&& plan.pages@[0].polylines@.len() == 0
        }),
        pieces@.len() > 0 ==> ({
            let bb = pieces_bbox(pieces@);
            let minx = bb.0 - PDF_BBOX_MARGIN as int;
            let miny = bb.1 - PDF_BBOX_MARGIN as int;
            let w = (bb.2 + PDF_BBOX_MARGIN as int) - minx;
            let h = (bb.3 + PDF_BBOX_MARGIN as int) - miny;
            let cols = tile_count(w, printable(paper_w(paper) as int));
            let rows = tile_count(h, printable(paper_h(paper) as int));
            &&& (r is Err <==> rows * cols > 1_000_000)
            &&& (r is Ok ==> ({
                let plan = r->Ok_0;
                let wp = world_polys(pieces@, pieces@.len() as int);
                &&& plan.page_w == paper_w(paper)
                &&& plan.page_h == paper_h(paper)
                &&& plan.margin == PDF_MARGIN
                &&& plan.cols == cols
                &&& plan.rows == rows
                &&& plan.pages@.len() == rows * cols
                &&& (forall|t: int|
                    0 <= t < plan.pages@.len() ==> ({
                        let page = #[trigger] plan.pages@[t];
                        let tx = minx + (t % cols) * printable(paper_w(paper) as int);
                        let ty = miny + (t / cols) * printable(paper_h(paper) as int);
                        &&& page.label_row == row_letter(t / cols)
                        &&& page.label_col == t % cols + 1
                        &&& page.crosshairs@ == crosshair_strokes(
                            paper_w(paper) as int,
                            paper_h(paper) as int,
                        )
                        &&& page.polylines@.len() == wp.len()
                        &&& (forall|p: int, j: int|
                            0 <= p < wp.len() && 0 <= j < wp[p].len()
                                ==> (#[trigger] page.polylines@[p]@[j])@ == page_point(
                                paper_h(paper) as int,
                                tx,
                                ty,
                                wp[p][j],
                            ))
                        &&& (forall|p: int|
                            0 <= p < wp.len() ==> (#[trigger] page.polylines@[p])@.len()
                                == wp[p].len())
                    }))
            }))
        }),
{
    let (page_w, page_h) = paper.dimensions_mm();
    if pieces.len() == 0 {
        let blank = PdfPage {
            label_row: 0,
            label_col: 0,
            crosshairs: Vec::new(),
            polylines: Vec::new(),
        };
        let mut pages: Vec<PdfPage> = Vec::new();
        pages.push(blank);
        return Ok(
            PdfPlan { page_w, page_h, margin: PDF_MARGIN, rows: 1, cols: 1, pages },
        );
    }

    // Flatten every non-empty outline to a world polyline.
    let mut polys: Vec<Vec<Point2D>> = Vec::new();
    let mut i: usize = 0;
    while i < pieces.len()
        invariant
            0 <= i <= pieces@.len(),
            crate::pattern::wf_pieces(pieces@),
            forall|j: int|
                0 <= j < pieces@.len() ==> (#[trigger] pieces@[j]).outline@.len()
                    <= crate::flatten::MAX_SEGMENTS as int,
            polys.deep_view() =~= world_polys(pieces@, i as int),
            forall|q: int|
                0 <= q < polys@.len() ==> crate::sample::pts_bounded(
                    (#[trigger] polys@[q]).deep_view(),
                    9_000_000_000,
                ),
        decreases pieces@.len() - i,
    {
        let piece = &pieces[i];
        if piece.outline.len() > 0 {
            let ghost predeep = polys.deep_view();
            let pl = crate::flatten::outline_to_polyline(&piece.origin, piece.outline.as_slice());
            proof {
                assert forall|j2: int| 0 <= j2 < pl.deep_view().len() implies abs_int(
                    (#[trigger] pl.deep_view()[j2]).0,
                ) <= 9_000_000_000 && abs_int(pl.deep_view()[j2].1) <= 9_000_000_000 by {}
            }
            polys.push(pl);
            proof {
                assert(polys.deep_view() =~= predeep.push(
                    world_polyline(
                        piece.origin.x as int,
                        piece.origin.y as int,
                        piece.outline@,
                    ),
                ));
                assert(polys.deep_view() =~= world_polys(pieces@, i + 1));
            }
        } else {
            proof {
                assert(polys.deep_view() =~= world_polys(pieces@, i + 1));
            }
        }
        i = i + 1;
    }

    let bbox = crate::layout::compute_pieces_bbox(pieces).expand_by(PDF_BBOX_MARGIN);
    let w = bbox.width();
    let h = bbox.height();
    let print_w = page_w - 2 * PDF_MARGIN;
    let print_h = page_h - 2 * PDF_MARGIN;
    let cols64 = tile_count_of(w, print_w);
    let rows64 = tile_count_of(h, print_h);
    if cols64 > 1_000_000 || rows64 > 1_000_000 {
        proof {
            assert(rows64 as int * cols64 as int > 1_000_000) by (nonlinear_arith)
                requires
                    rows64 >= 1,
                    cols64 >= 1,
                    rows64 > 1_000_000 || cols64 > 1_000_000,
            ;
        }
        return Err(String::from_str("Pattern spans too many pages"));
    }
    proof {
        assert(rows64 as int * cols64 as int <= 1_000_000_000_000) by (nonlinear_arith)
            requires
                1 <= rows64 <= 1_000_000,
                1 <= cols64 <= 1_000_000,
        ;
    }
    if rows64 * cols64 > 1_000_000 {
        return Err(String::from_str("Pattern spans too many pages"));
    }
    let cols: usize = cols64 as usize;
    let rows: usize = rows64 as usize;
    let total: usize = rows * cols;
    let ghost wp = world_polys(pieces@, pieces@.len() as int);

    let mut pages: Vec<PdfPage> = Vec::new();
    let mut t: usize = 0;
    while t < total
        invariant
            0 <= t <= total,
            total == rows * cols,
            1 <= cols <= 1_000_000,
            1 <= rows <= 1_000_000,
            total <= 1_000_000,
            30_000 <= page_w <= 1_000_000,
            30_000 <= page_h <= 1_000_000,
            print_w == page_w - 2 * PDF_MARGIN,
            print_h == page_h - 2 * PDF_MARGIN,
            abs_int(bbox.min.x as int) <= 4_200_000_000_000,
            abs_int(bbox.min.y as int) <= 4_200_000_000_000,
            wp.len() == polys@.len(),
            forall|q: int|
                0 <= q < polys@.len() ==> (#[trigger] polys@[q]).deep_view() == wp[q]
                    && crate::sample::pts_bounded(polys@[q].deep_view(), 9_000_000_000),
            pages@.len() == t,
            forall|t2: int|
                0 <= t2 < t ==> ({
                    let page = #[trigger] pages@[t2];
                    let tx = bbox.min.x + (t2 % cols as int) * print_w;
                    let ty = bbox.min.y + (t2 / cols as int) * print_h;
                    &&& page.label_row == row_letter(t2 / cols as int)
                    &&& page.label_col == t2 % cols as int + 1
                    &&& page.crosshairs@ == crosshair_strokes(page_w as int, page_h as int)
                    &&& page.polylines@.len() == wp.len()
                    &&& (forall|p: int, j: int|
                        0 <= p < wp.len() && 0 <= j < wp[p].len()
                            ==> (#[trigger] page.polylines@[p]@[j])@ == page_point(
                            page_h as int,
                            tx,
                            ty,
                            wp[p][j],
                        ))
                    &&& (forall|p: int|
                        0 <= p < wp.len() ==> (#[trigger] page.polylines@[p])@.len()
                            == wp[p].len())
                }),
        decreases total - t,
    {
        let row = t / cols;
        let col = t % cols;
        proof {
            vstd::arithmetic::div_mod::lemma_mod_bound(t as int, cols as int);
            vstd::arithmetic::div_mod::lemma_fundamental_div_mod(t as int, cols as int);
            assert(row as int <= t as int) by {
                vstd::arithmetic::div_mod::lemma_div_nonincreasing(t as int, cols as int);
            }
            assert(col as int * print_w as int <= 1_000_000 * 1_000_000) by (nonlinear_arith)
                requires
                    0 <= col as int,
                    (col as int) < (cols as int),
                    cols as int <= 1_000_000,
                    0 < print_w <= 1_000_000,
            ;
            assert(row as int * print_h as int <= 1_000_000 * 1_000_000) by (nonlinear_arith)
                requires
                    0 <= row as int <= 1_000_000,
                    0 < print_h <= 1_000_000,
            ;
        }
        let tx = bbox.min.x + (col as i64) * print_w;
        let ty = bbox.min.y + (row as i64) * print_h;
        let page = make_page(
            page_w,
            page_h,
            tx,
            ty,
            row as u64,
            col as u64,
            &polys,
            Ghost(wp),
        );
        pages.push(page);
        t = t + 1;
    }
    Ok(PdfPlan { page_w, page_h, margin: PDF_MARGIN, rows, cols, pages })
}

/// The page width of a paper size, in thousandths of a millimeter.
pub open spec fn paper_w(p: PaperSize) -> i64 {
    match p {
        PaperSize::A4 => 210_000,
        PaperSize::Letter => 216_000,
    }
}

/// The page height of a paper size, in thousandths of a millimeter.
pub open spec fn paper_h(p: PaperSize) -> i64 {
    match p {
        PaperSize::A4 => 297_000,
        PaperSize::Letter => 279_000,
    }
}

} // verus!
