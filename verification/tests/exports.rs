use pattern_kernel::dxf::pieces_to_dxf;
use pattern_kernel::pattern::{CurveSegment, PatternPieceData, PieceMetadata, Point2D};
use pattern_kernel::pdf::{parse_paper_size, plan_pdf, PaperSize};
use pattern_kernel::svg::{outline_to_svg_path, pieces_to_svg};

fn piece(name: &str, origin: (i64, i64), outline: Vec<CurveSegment>) -> PatternPieceData {
    PatternPieceData {
        id: name.to_string(),
        name: name.to_string(),
        origin: Point2D { x: origin.0, y: origin.1 },
        outline,
        grain_line: None,
        seam_allowance_mm: 10_000,
        notches: Vec::new(),
        internal_lines: Vec::new(),
        metadata: PieceMetadata::default(),
    }
}

fn line(x: i64, y: i64) -> CurveSegment {
    CurveSegment::Line { end: Point2D { x, y } }
}

fn rect_outline(w: i64, h: i64) -> Vec<CurveSegment> {
    vec![line(w, 0), line(w, h), line(0, h)]
}

#[test]
fn svg_path_of_simple_piece() {
    let p = piece("p1", (0, 0), rect_outline(10_000, 10_000));
    let d = outline_to_svg_path(&p.origin, &p.outline);
    assert_eq!(d, "M 0,0 L 10,0 L 10,10 L 0,10 Z");
}

#[test]
fn svg_path_formats_fractions_and_signs() {
    let p = piece("p1", (-500, 0), vec![line(10_500, -250)]);
    let d = outline_to_svg_path(&p.origin, &p.outline);
    assert_eq!(d, "M -0.5,0 L 10,-0.25 Z");
}

#[test]
fn svg_path_always_opens_at_origin_and_closes() {
    let arc = CurveSegment::Arc {
        center: Point2D { x: 5000, y: 5000 },
        radius: 2000,
        start_angle: 0,
        end_angle: 3142,
    };
    let p = piece("arcish", (7000, -3000), vec![arc, line(0, 0)]);
    let d = outline_to_svg_path(&p.origin, &p.outline);
    assert!(d.starts_with("M 7,-3"));
    assert!(d.ends_with(" Z"));
}

#[test]
fn svg_document_structure() {
    let p = piece("p1", (0, 0), rect_outline(10_000, 10_000));
    let svg = pieces_to_svg(&[p]);
    // Box (0,0)-(10,10) expanded by the ten millimeter margin.
    assert!(svg.starts_with(
        "<svg xmlns=\"http://www.w3.org/2000/svg\" viewBox=\"-10 -10 30 30\" width=\"30mm\" height=\"30mm\">\n"
    ));
    assert!(svg.contains("  <g id=\"p1\">\n"));
    assert!(svg.contains("    <path d=\"M 0,0 L 10,0 L 10,10 L 0,10 Z\" fill=\"none\" stroke=\"black\" stroke-width=\"0.5\"/>\n"));
    assert!(svg.contains("</text>\n"));
    assert!(svg.ends_with("</svg>\n"));
}

#[test]
fn svg_renders_grain_line_and_notches() {
    let mut p = piece("p2", (1000, 2000), rect_outline(10_000, 10_000));
    p.grain_line = Some((Point2D { x: 0, y: 0 }, Point2D { x: 5000, y: 0 }));
    p.notches = vec![Point2D { x: 2000, y: 0 }];
    let svg = pieces_to_svg(&[p]);
    assert!(svg.contains(
        "    <line x1=\"1\" y1=\"2\" x2=\"6\" y2=\"2\" stroke=\"gray\" stroke-width=\"0.3\" marker-end=\"url(#arrow)\"/>\n"
    ));
    // The notch tick runs three millimeters above and below the point.
    assert!(svg.contains(
        "    <line x1=\"3\" y1=\"-1\" x2=\"3\" y2=\"5\" stroke=\"black\" stroke-width=\"0.5\"/>\n"
    ));
}

#[test]
fn empty_piece_list_yields_placeholder_svg() {
    let svg = pieces_to_svg(&[]);
    assert_eq!(
        svg,
        "<svg xmlns=\"http://www.w3.org/2000/svg\" viewBox=\"0 0 100 100\"></svg>"
    );
}

fn dxf_line(layer: &str, x1: &str, y1: &str, x2: &str, y2: &str) -> String {
    format!("0\nLINE\n8\n{layer}\n10\n{x1}\n20\n{y1}\n30\n0.0\n11\n{x2}\n21\n{y2}\n31\n0.0\n")
}

#[test]
fn dxf_of_simple_piece_negates_y() {
    let p = piece("p1", (0, 0), rect_outline(10_000, 10_000));
    let dxf = pieces_to_dxf(&[p]);
    let mut expected = String::from("0\nSECTION\n2\nENTITIES\n");
    expected += &dxf_line("p1", "0", "0", "10", "0");
    expected += &dxf_line("p1", "10", "0", "10", "-10");
    expected += &dxf_line("p1", "10", "-10", "0", "-10");
    // The running point ends away from the origin, so a closing line
    // is emitted.
    expected += &dxf_line("p1", "0", "-10", "0", "0");
    expected += "0\nENDSEC\n0\nEOF\n";
    assert_eq!(dxf, expected);
}

#[test]
fn dxf_skips_closing_line_when_outline_returns_home() {
    let p = piece("home", (0, 0), vec![line(10_000, 0), line(0, 0)]);
    let dxf = pieces_to_dxf(&[p]);
    let mut expected = String::from("0\nSECTION\n2\nENTITIES\n");
    expected += &dxf_line("home", "0", "0", "10", "0");
    expected += &dxf_line("home", "10", "0", "0", "0");
    expected += "0\nENDSEC\n0\nEOF\n";
    assert_eq!(dxf, expected);
}

#[test]
fn dxf_arc_entity_converts_and_swaps_angles() {
    let arc = CurveSegment::Arc {
        center: Point2D { x: 0, y: 0 },
        radius: 5000,
        start_angle: 0,
        end_angle: 1571,
    };
    let p = piece("a", (0, 0), vec![arc]);
    let dxf = pieces_to_dxf(&[p]);
    // 1.571 rad is 90.012 thousandths-rounded degrees; the end angle,
    // negated, becomes the entity's start angle and vice versa.
    assert!(dxf.contains("0\nARC\n8\na\n10\n0\n20\n0\n30\n0.0\n40\n5\n50\n-90.012\n51\n0\n"));
}

#[test]
fn dxf_mirrors_world_for_curves() {
    // A quadratic bezier: every sampled chain coordinate in the file
    // must be the world value with y negated.
    let q = CurveSegment::QuadraticBezier {
        control: Point2D { x: 5000, y: 8000 },
        end: Point2D { x: 10_000, y: 0 },
    };
    let p = piece("q", (0, 3000), vec![q]);
    let dxf = pieces_to_dxf(&[p.clone()]);
    let world = pattern_kernel::flatten::outline_to_polyline(&p.origin, &p.outline);
    // The chain starts at the mirrored origin and walks the mirrored
    // samples; spot-check the first bezier step appears negated.
    let w1 = &world[1];
    let sx = format_milli(w1.x);
    let sy = format_milli(-w1.y);
    assert!(dxf.contains(&format!("\n11\n{sx}\n21\n{sy}\n")));
}

fn format_milli(v: i64) -> String {
    let neg = v < 0;
    let a = v.unsigned_abs();
    let ip = a / 1000;
    let f = a % 1000;
    let mut s = String::new();
    if neg {
        s.push('-');
    }
    s += &ip.to_string();
    if f != 0 {
        if f % 100 == 0 {
            s += &format!(".{}", f / 100);
        } else if f % 10 == 0 {
            s += &format!(".{:02}", f / 10);
        } else {
            s += &format!(".{f:03}");
        }
    }
    s
}

#[test]
fn empty_piece_list_yields_header_and_footer_dxf() {
    let dxf = pieces_to_dxf(&[]);
    assert_eq!(dxf, "0\nSECTION\n2\nENTITIES\n0\nENDSEC\n0\nEOF\n");
}

#[test]
fn empty_pieces_with_no_outline_emit_no_entities() {
    let p = piece("empty", (5000, 5000), Vec::new());
    let dxf = pieces_to_dxf(&[p]);
    assert_eq!(dxf, "0\nSECTION\n2\nENTITIES\n0\nENDSEC\n0\nEOF\n");
}

#[test]
fn paper_size_token_fallback() {
    assert_eq!(parse_paper_size("letter"), PaperSize::Letter);
    assert_eq!(parse_paper_size("a4"), PaperSize::A4);
    assert_eq!(parse_paper_size("tabloid-or-unknown"), PaperSize::A4);
    assert_eq!(parse_paper_size(""), PaperSize::A4);
}

#[test]
fn unrecognized_paper_token_uses_default_dimensions() {
    let p = piece("p1", (0, 0), rect_outline(10_000, 10_000));
    let paper = parse_paper_size("no-such-size");
    let plan = plan_pdf(&[p], paper).unwrap();
    assert_eq!(plan.page_w, 210_000);
    assert_eq!(plan.page_h, 297_000);
}

#[test]
fn empty_piece_list_yields_single_blank_page() {
    let plan = plan_pdf(&[], PaperSize::A4).unwrap();
    assert_eq!(plan.pages.len(), 1);
    assert_eq!(plan.pages[0].crosshairs.len(), 0);
    assert_eq!(plan.pages[0].polylines.len(), 0);
}

#[test]
fn pattern_equal_to_printable_area_is_one_page() {
    // A4 printable area is 190 x 277 mm; the box margin adds five
    // millimeters on each side, so a 180 x 267 outline fills it exactly.
    let p = piece("fit", (0, 0), rect_outline(180_000, 267_000));
    let plan = plan_pdf(&[p], PaperSize::A4).unwrap();
    assert_eq!(plan.cols, 1);
    assert_eq!(plan.rows, 1);
    assert_eq!(plan.pages.len(), 1);
}

#[test]
fn double_width_pattern_gets_two_columns() {
    let p = piece("wide", (0, 0), rect_outline(370_000, 267_000));
    let plan = plan_pdf(&[p], PaperSize::A4).unwrap();
    assert_eq!(plan.cols, 2);
    assert_eq!(plan.rows, 1);
    assert_eq!(plan.pages.len(), 2);
}

#[test]
fn pages_are_labeled_row_major() {
    let p = piece("big", (0, 0), rect_outline(370_000, 530_000));
    let plan = plan_pdf(&[p], PaperSize::A4).unwrap();
    assert_eq!(plan.cols, 2);
    assert_eq!(plan.rows, 2);
    assert_eq!(plan.pages.len(), 4);
    // Row letter 'A' then 'B'; columns one-based.
    assert_eq!(plan.pages[0].label_row, b'A');
    assert_eq!(plan.pages[0].label_col, 1);
    assert_eq!(plan.pages[1].label_row, b'A');
    assert_eq!(plan.pages[1].label_col, 2);
    assert_eq!(plan.pages[2].label_row, b'B');
    assert_eq!(plan.pages[2].label_col, 1);
    for page in &plan.pages {
        assert_eq!(page.crosshairs.len(), 8);
    }
}

#[test]
fn pdf_polylines_are_translated_and_flipped() {
    let p = piece("t", (0, 0), rect_outline(10_000, 10_000));
    let plan = plan_pdf(&[p], PaperSize::A4).unwrap();
    assert_eq!(plan.pages.len(), 1);
    let poly = &plan.pages[0].polylines[0];
    // The pattern box starts at (-5, -5); the tile origin matches it.
    // World (0, 0) lands at margin + 5 on x and flips on y.
    assert_eq!(poly[0].x, 15_000);
    assert_eq!(poly[0].y, 297_000 - 10_000 - 5_000);
    // World (10, 0): one centimeter to the right.
    assert_eq!(poly[1].x, 25_000);
    assert_eq!(poly[1].y, poly[0].y);
}

#[test]
fn tile_label_text_renders() {
    let s = pattern_kernel::pdf::tile_label_text(b'A', 1);
    assert_eq!(s, "A1");
    let s2 = pattern_kernel::pdf::tile_label_text(b'C', 12);
    assert_eq!(s2, "C12");
}
