//! Project snapshots: the on-disk document shape and the decisions
//! around loading, saving and recovery.
//!
//! Reading and writing files, and the serialization format itself, live
//! at the caller's boundary; the kernel decides what a project contains,
//! which versions are accepted, and when a recovery snapshot is kept.

use vstd::prelude::*;

use crate::history::History;
use crate::pattern::{pieces_eq, PatternPieceData};
use crate::store::PieceStore;

verus! {

/// The supported project document version.
pub const PROJECT_VERSION: u32 = 1;

/// One project document: a version stamp, the writing application's
/// version text, and the piece list.
pub struct ProjectFile {
    pub version: u32,
    pub app_version: String,
    pub pieces: Vec<PatternPieceData>,
}

/// Assemble the document for saving: the current version stamp over
/// the given pieces.
pub fn make_project(pieces: Vec<PatternPieceData>, app_version: String) -> (p: ProjectFile)
    ensures
        p.version == PROJECT_VERSION,
        p.app_version@ == app_version@,
        p.pieces@ == pieces@,
{
    ProjectFile { version: PROJECT_VERSION, app_version, pieces }
}

/// Start an empty project: clear the store and forget all history.
pub fn new_project(store: &mut PieceStore, history: &mut History)
    ensures
        final (store).pieces@.len() == 0,
        final (store).wf(),
        final (history).undo_stack@.len() == 0,
        final (history).redo_stack@.len() == 0,
        final (history).wf(),
{
    store.restore(Vec::new());
    history.clear();
}

/// Accept a loaded project: reject any version other than the
/// supported one, otherwise replace the store with the document's
/// pieces, clear the history, and hand the pieces back.
pub fn apply_project(project: ProjectFile, store: &mut PieceStore, history: &mut History) -> (r:
    Result<Vec<PatternPieceData>, String>)
    requires
        old(history).wf(),
    ensures
        r is Ok <==> project.version == PROJECT_VERSION,
        r is Ok ==> pieces_eq(r->Ok_0@, project.pieces@) && final (history).undo_stack@.len() == 0
            && final (history).redo_stack@.len() == 0 && final (store).wf(),
        r is Ok && crate::store::unique_ids(project.pieces@) ==> pieces_eq(
            final (store).pieces@,
            project.pieces@,
        ),
        r is Err ==> r->Err_0@ == "Unsupported project version: "@ + crate::fmt::uint_chars(
            project.version as nat,
        ) && *final (store) == *old(store) && *final (history) == *old(history),
        final (history).wf(),
{
    if project.version != PROJECT_VERSION {
        let mut msg = String::from_str("Unsupported project version: ");
        crate::fmt::append_uint(&mut msg, project.version as u64);
        return Err(msg);
    }
    let returned = crate::pattern::clone_pieces(&project.pieces);
    store.replace_all(project.pieces);
    history.clear();
    Ok(returned)
}

/// Whether a recovery snapshot should be written at all: only when
/// there is something to recover.
pub fn should_save_recovery(pieces: &Vec<PatternPieceData>) -> (r: bool)
    ensures
        r == (pieces@.len() > 0),
{
    pieces.len() > 0
}

/// Judge a parsed recovery document: an empty piece list is stale and
/// reports nothing to recover.
pub fn recovery_pieces(project: ProjectFile) -> (r: Option<Vec<PatternPieceData>>)
    ensures
        project.pieces@.len() == 0 ==> r is None,
        project.pieces@.len() > 0 ==> (r matches Some(v) && v@ == project.pieces@),
{
    if project.pieces.len() == 0 {
        None
    } else {
        Some(project.pieces)
    }
}

} // verus!
