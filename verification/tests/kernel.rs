use pattern_kernel::error::{to_ipc_error, AppError};
use pattern_kernel::history::History;
use pattern_kernel::mesh::generate_mesh;
use pattern_kernel::pattern::{
    create_default, CurveSegment, PatternPieceData, PieceMetadata, Point2D,
};
use pattern_kernel::project::{apply_project, make_project, new_project, recovery_pieces};
use pattern_kernel::store::{create, delete, get_pieces_by_ids, redo, undo, update, PieceStore};
use pattern_kernel::tess::tessellate_outline;
use pattern_kernel::validation::validate;

fn piece(name: &str, origin: (i64, i64), outline: Vec<CurveSegment>) -> PatternPieceData {
    PatternPieceData {
        id: name.to_string(),
        name: name.to_string(),
        origin: Point2D { x: origin.0, y: origin.1 },
        outline,
        grain_line: None,
        seam_allowance_mm: 10_000,
        notches: Vec::new(),
        internal_lines: Vec::new(),
        metadata: PieceMetadata::default(),
    }
}

fn line(x: i64, y: i64) -> CurveSegment {
    CurveSegment::Line { end: Point2D { x, y } }
}

fn rect_outline(w: i64, h: i64) -> Vec<CurveSegment> {
    vec![line(w, 0), line(w, h), line(0, h)]
}

fn triangle_area(pos: &[i64], idx: &[u32]) -> f64 {
    let mut total = 0.0f64;
    for t in idx.chunks(3) {
        let (a, b, c) = (t[0] as usize, t[1] as usize, t[2] as usize);
        let (ax, ay) = (pos[3 * a] as f64, pos[3 * a + 1] as f64);
        let (bx, by) = (pos[3 * b] as f64, pos[3 * b + 1] as f64);
        let (cx, cy) = (pos[3 * c] as f64, pos[3 * c + 1] as f64);
        total += ((bx - ax) * (cy - ay) - (by - ay) * (cx - ax)).abs() / 2.0;
    }
    // Square thousandths to square millimeters.
    total / 1.0e6
}

#[test]
fn tessellated_rectangle_area_matches() {
    let p = piece("p1", (0, 0), rect_outline(10_000, 10_000));
    let (pos, idx) = tessellate_outline(&p.origin, &p.outline).unwrap();
    assert_eq!(pos.len(), 12);
    assert_eq!(idx.len(), 6);
    let area = triangle_area(&pos, &idx);
    assert!((area - 100.0).abs() < 1.0e-6, "area was {area}");
}

#[test]
fn tessellating_empty_outline_fails() {
    let origin = Point2D { x: 0, y: 0 };
    let r = tessellate_outline(&origin, &[]);
    assert_eq!(r.unwrap_err(), "Cannot tessellate empty outline");
}

#[test]
fn tessellation_indices_stay_in_range() {
    let arc = CurveSegment::Arc {
        center: Point2D { x: 0, y: 0 },
        radius: 8000,
        start_angle: 0,
        end_angle: 6283,
    };
    let (pos, idx) = tessellate_outline(&Point2D { x: 8000, y: 0 }, &[arc]).unwrap();
    assert_eq!(pos.len() % 3, 0);
    assert_eq!(idx.len() % 3, 0);
    let verts = (pos.len() / 3) as u32;
    assert!(idx.iter().all(|&i| i < verts));
    assert_eq!(idx.len(), 3 * (verts as usize - 2));
}

#[test]
fn mesh_assembly_concatenates_and_offsets() {
    let p1 = piece("a", (0, 0), rect_outline(10_000, 10_000));
    let p2 = piece("b", (0, 0), vec![line(5000, 0), line(0, 5000)]);
    let (pos1, idx1) = tessellate_outline(&p1.origin, &p1.outline).unwrap();
    let (pos2, idx2) = tessellate_outline(&p2.origin, &p2.outline).unwrap();
    let mesh = generate_mesh(&[p1, p2]).unwrap();
    // Total positions are the per-piece vertex counts, concatenated.
    assert_eq!(mesh.positions.len(), pos1.len() + pos2.len());
    assert_eq!(mesh.indices.len(), idx1.len() + idx2.len());
    let total = (mesh.positions.len() / 3) as u32;
    let first = (pos1.len() / 3) as u32;
    assert!(mesh.indices.iter().all(|&i| i < total));
    // The second piece's triangles point at or past the first piece's
    // vertex block.
    assert!(mesh.indices[idx1.len()..].iter().all(|&i| i >= first));
    // Normals are the unit z for every vertex; textures reuse x and y.
    assert_eq!(mesh.normals.len(), mesh.positions.len());
    for v in 0..total as usize {
        assert_eq!(&mesh.normals[3 * v..3 * v + 3], &[0, 0, 1000]);
        assert_eq!(mesh.uvs[2 * v], mesh.positions[3 * v]);
        assert_eq!(mesh.uvs[2 * v + 1], mesh.positions[3 * v + 1]);
    }
}

#[test]
fn mesh_of_empty_pieces_is_empty_but_valid() {
    let p = piece("hollow", (0, 0), Vec::new());
    let mesh = generate_mesh(&[p]).unwrap();
    assert!(mesh.positions.is_empty());
    assert!(mesh.normals.is_empty());
    assert!(mesh.indices.is_empty());
    assert!(mesh.uvs.is_empty());
}

#[test]
fn error_messages_render_each_variant() {
    assert_eq!(to_ipc_error(AppError::NotFound("p9".to_string())), "Not found: p9");
    assert_eq!(
        to_ipc_error(AppError::InvalidGeometry("bad arc".to_string())),
        "Invalid geometry: bad arc"
    );
    assert_eq!(to_ipc_error(AppError::ExportFailed("disk".to_string())), "Export failed: disk");
    assert_eq!(to_ipc_error(AppError::Internal("oops".to_string())), "Internal error: oops");
}

#[test]
fn validation_reports_each_problem() {
    let sound = piece("ok", (0, 0), rect_outline(10_000, 10_000));
    assert!(validate(&sound).is_empty());

    let mut bad = piece("", (0, 0), Vec::new());
    bad.seam_allowance_mm = -1;
    let warnings = validate(&bad);
    assert_eq!(
        warnings,
        vec![
            "Piece has no outline segments".to_string(),
            "Piece has no name".to_string(),
            "Seam allowance cannot be negative".to_string(),
        ]
    );
}

#[test]
fn default_piece_has_documented_values() {
    let p = create_default("Bodice");
    assert_eq!(p.name, "Bodice");
    assert_eq!(p.id, "");
    assert_eq!((p.origin.x, p.origin.y), (0, 0));
    assert!(p.outline.is_empty());
    assert_eq!(p.seam_allowance_mm, 10_000);
    assert_eq!(p.metadata.cut_quantity, 1);
    assert!(!p.metadata.mirror);
}

#[test]
fn history_tracks_undo_and_redo() {
    let mut h = History::new();
    assert!(!h.can_undo());
    assert!(!h.can_redo());
    h.push_snapshot(Vec::new());
    assert!(h.can_undo());
    h.push_redo(Vec::new());
    assert!(h.can_redo());
    // A fresh edit clears the redo stack.
    h.push_snapshot(Vec::new());
    assert!(!h.can_redo());
    h.clear();
    assert!(!h.can_undo());
    assert!(!h.can_redo());
}

#[test]
fn history_caps_undo_depth() {
    let mut h = History::new();
    for _ in 0..105 {
        h.push_snapshot(Vec::new());
    }
    let mut n = 0;
    while h.pop_undo().is_some() {
        n += 1;
    }
    assert_eq!(n, 100);
}

#[test]
fn store_crud_round_trip() {
    let mut store = PieceStore::new();
    let mut history = History::new();
    let p = piece("template", (0, 0), rect_outline(10_000, 10_000));
    let id = create(&mut store, &mut history, p).unwrap();
    // A fresh identifier in the canonical hyphenated form.
    assert_eq!(id.len(), 36);
    let got = store.get(&id).unwrap();
    assert_eq!(got.id, id);
    assert_eq!(got.name, "template");

    let mut renamed = piece("renamed", (0, 0), rect_outline(10_000, 10_000));
    renamed.id = id.clone();
    update(&mut store, &mut history, &id, renamed).unwrap();
    assert_eq!(store.get(&id).unwrap().name, "renamed");

    let err = update(
        &mut store,
        &mut history,
        "missing",
        piece("x", (0, 0), Vec::new()),
    )
    .unwrap_err();
    assert_eq!(err, "Piece not found: missing");

    delete(&mut store, &mut history, &id).unwrap();
    assert!(store.get(&id).is_none());
    let err2 = delete(&mut store, &mut history, &id).unwrap_err();
    assert_eq!(err2, format!("Piece not found: {id}"));
}

#[test]
fn get_pieces_by_ids_preserves_order_and_fails_on_missing() {
    let mut store = PieceStore::new();
    let mut history = History::new();
    let a = create(&mut store, &mut history, piece("a", (0, 0), Vec::new())).unwrap();
    let b = create(&mut store, &mut history, piece("b", (0, 0), Vec::new())).unwrap();
    let picked = get_pieces_by_ids(&store, &vec![b.clone(), a.clone()]).unwrap();
    assert_eq!(picked.len(), 2);
    assert_eq!(picked[0].name, "b");
    assert_eq!(picked[1].name, "a");
    let err = get_pieces_by_ids(&store, &vec![a, "ghost".to_string()]).unwrap_err();
    assert_eq!(err, "Piece not found: ghost");
}

#[test]
fn empty_selection_exports_every_piece() {
    let mut store = PieceStore::new();
    let mut history = History::new();
    create(&mut store, &mut history, piece("left", (0, 0), rect_outline(10_000, 10_000)))
        .unwrap();
    create(&mut store, &mut history, piece("right", (20_000, 0), rect_outline(10_000, 10_000)))
        .unwrap();
    let all = get_pieces_by_ids(&store, &Vec::new()).unwrap();
    assert_eq!(all.len(), 2);
    assert_eq!(all[0].name, "left");
    assert_eq!(all[1].name, "right");
    // So an export with an empty selection covers the whole pattern.
    let svg = pattern_kernel::svg::pieces_to_svg(&all);
    assert!(svg.contains("  <g id=\""));
    assert!(!svg.contains("viewBox=\"0 0 100 100\""));
}

#[test]
fn update_replaces_content_and_keeps_the_identifier() {
    let mut store = PieceStore::new();
    let mut history = History::new();
    let id = create(&mut store, &mut history, piece("before", (0, 0), Vec::new())).unwrap();
    let replacement = piece("after", (5000, 5000), rect_outline(10_000, 10_000));
    update(&mut store, &mut history, &id, replacement).unwrap();
    let got = store.get(&id).unwrap();
    assert_eq!(got.id, id);
    assert_eq!(got.name, "after");
    assert_eq!((got.origin.x, got.origin.y), (5000, 5000));
    assert_eq!(got.outline.len(), 3);
    // The pre-edit state sits on the undo stack.
    assert!(history.can_undo());
}

#[test]
fn undo_and_redo_swap_snapshots() {
    let mut store = PieceStore::new();
    let mut history = History::new();
    assert_eq!(undo(&mut store, &mut history).unwrap_err(), "Nothing to undo");
    assert_eq!(redo(&mut store, &mut history).unwrap_err(), "Nothing to redo");

    create(&mut store, &mut history, piece("one", (0, 0), Vec::new())).unwrap();
    assert_eq!(store.pieces.len(), 1);
    undo(&mut store, &mut history).unwrap();
    assert_eq!(store.pieces.len(), 0);
    redo(&mut store, &mut history).unwrap();
    assert_eq!(store.pieces.len(), 1);
    assert_eq!(store.pieces[0].name, "one");
}

#[test]
fn project_round_trip_and_version_gate() {
    let mut store = PieceStore::new();
    let mut history = History::new();
    create(&mut store, &mut history, piece("body", (0, 0), Vec::new())).unwrap();

    let saved = make_project(store.get_all(), "9.9.9".to_string());
    assert_eq!(saved.version, 1);
    assert_eq!(saved.pieces.len(), 1);

    let mut store2 = PieceStore::new();
    let mut history2 = History::new();
    let loaded = apply_project(saved, &mut store2, &mut history2).unwrap();
    assert_eq!(loaded.len(), 1);
    assert_eq!(store2.pieces.len(), 1);
    assert!(!history2.can_undo());

    let stale = make_project(Vec::new(), "0".to_string());
    let bad = pattern_kernel::project::ProjectFile {
        version: 2,
        app_version: stale.app_version,
        pieces: stale.pieces,
    };
    let err = apply_project(bad, &mut store2, &mut history2).unwrap_err();
    assert_eq!(err, "Unsupported project version: 2");
}

#[test]
fn recovery_is_kept_only_when_nonempty() {
    let empty = make_project(Vec::new(), "1".to_string());
    assert!(recovery_pieces(empty).is_none());
    let full = make_project(vec![piece("saved", (0, 0), Vec::new())], "1".to_string());
    let pieces = recovery_pieces(full).unwrap();
    assert_eq!(pieces[0].name, "saved");
}

#[test]
fn new_project_clears_everything() {
    let mut store = PieceStore::new();
    let mut history = History::new();
    create(&mut store, &mut history, piece("gone", (0, 0), Vec::new())).unwrap();
    new_project(&mut store, &mut history);
    assert!(store.pieces.is_empty());
    assert!(!history.can_undo());
    assert!(!history.can_redo());
}
