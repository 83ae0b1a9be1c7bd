//! The in-memory piece store and the undo/redo drivers over it.
//!
//! The store keeps pieces in insertion order under unique identifiers.
//! Every mutation first records a snapshot of the whole store in the
//! history, so an undo swaps the live list with the most recent
//! snapshot, pushing the present onto the redo stack, and a redo does
//! the converse.

use vstd::prelude::*;

use crate::history::History;
use crate::pattern::{clone_pieces, piece_eq, pieces_eq, PatternPieceData};

verus! {

/// The identifiers of the first `k` pieces are pairwise distinct.
pub open spec fn unique_ids(pieces: Seq<PatternPieceData>) -> bool {
    forall|i: int, j: int|
        0 <= i < j < pieces.len() ==> (#[trigger] pieces[i]).id@ != (#[trigger] pieces[j]).id@
}

/// Whether some piece in the list carries the identifier.
pub open spec fn has_id(pieces: Seq<PatternPieceData>, id: Seq<char>) -> bool {
    exists|i: int| 0 <= i < pieces.len() && (#[trigger] pieces[i]).id@ == id
}

/// The in-memory piece store: pieces in insertion order, identifiers
/// unique.
pub struct PieceStore {
    pub pieces: Vec<PatternPieceData>,
}

impl PieceStore {
    /// Identifiers are pairwise distinct.
    pub open spec fn wf(self) -> bool {
        unique_ids(self.pieces@)
    }

    /// An empty store.
    pub fn new() -> (s: PieceStore)
        ensures
            s.pieces@.len() == 0,
            s.wf(),
    {
        PieceStore { pieces: Vec::new() }
    }

    /// Find the position of a piece by identifier.
    fn find(&self, id: &str) -> (r: Option<usize>)
        ensures
            r matches Some(at) ==> at < self.pieces@.len() && self.pieces@[at as int].id@ == id@,
            r is None ==> !has_id(self.pieces@, id@),
    {
        let pid = String::from_str(id);
        let mut i: usize = 0;
        while i < self.pieces.len()
            invariant
                0 <= i <= self.pieces@.len(),
                pid@ == id@,
                forall|j: int| 0 <= j < i ==> (#[trigger] self.pieces@[j]).id@ != id@,
            decreases self.pieces@.len() - i,
        {
            if self.pieces[i].id == pid {
                return Some(i);
            }
            i = i + 1;
        }
        None
    }

    /// A copy of the whole store, value for value (the undo snapshot).
    pub fn snapshot(&self) -> (r: Vec<PatternPieceData>)
        ensures
            pieces_eq(r@, self.pieces@),
    {
        clone_pieces(&self.pieces)
    }

    /// Replace the whole store from a snapshot. The snapshot is trusted
    /// to carry unique identifiers, which every snapshot taken from a
    /// well-formed store does.
    pub fn restore(&mut self, snap: Vec<PatternPieceData>)
        requires
            unique_ids(snap@),
        ensures
            final (self).pieces@ == snap@,
            final (self).wf(),
    {
        self.pieces = snap;
    }

    /// Replace all pieces (project load): insertion order kept, a later
    /// duplicate identifier replaces the earlier piece. When the given
    /// identifiers are already unique — as in any document this library
    /// wrote — the store afterwards holds exactly the given pieces, in
    /// the given order.
    pub fn replace_all(&mut self, pieces: Vec<PatternPieceData>)
        ensures
            final (self).wf(),
            final (self).pieces@.len() <= pieces@.len(),
            forall|i: int|
                0 <= i < final (self).pieces@.len() ==> has_id(
                    pieces@,
                    (#[trigger] final (self).pieces@[i]).id@,
                ),
            unique_ids(pieces@) ==> pieces_eq(final (self).pieces@, pieces@),
    {
        self.pieces = Vec::new();
        let mut k: usize = 0;
        while k < pieces.len()
            invariant
                0 <= k <= pieces@.len(),
                self.wf(),
                self.pieces@.len() <= k,
                forall|i: int|
                    0 <= i < self.pieces@.len() ==> has_id(
                        pieces@,
                        (#[trigger] self.pieces@[i]).id@,
                    ),
                unique_ids(pieces@) ==> self.pieces@.len() == k && (forall|j: int|
                    0 <= j < k ==> piece_eq(#[trigger] self.pieces@[j], pieces@[j])),
            decreases pieces@.len() - k,
        {
            let p = crate::pattern::clone_piece(&pieces[k]);
            proof {
                assert(p.id@ == pieces@[k as int].id@);
                if unique_ids(pieces@) {
                    assert forall|j: int| 0 <= j < self.pieces@.len() implies (
                    #[trigger] self.pieces@[j]).id@ != p.id@ by {
                        assert(piece_eq(self.pieces@[j], pieces@[j]));
                        assert(pieces@[j].id@ != pieces@[k as int].id@);
                    }
                    assert(!has_id(self.pieces@, p.id@));
                }
            }
            let ghost pre = self.pieces@;
            let ghost cloned = p;
            self.insert(p);
            proof {
                if unique_ids(pieces@) {
                    assert(self.pieces@ == pre.push(cloned));
                }
            }
            k = k + 1;
        }
    }

    /// Insert a piece, replacing any existing piece with the same
    /// identifier.
    pub fn insert(&mut self, piece: PatternPieceData)
        requires
            old(self).wf(),
        ensures
            final (self).wf(),
            has_id(final (self).pieces@, piece.id@),
            final (self).pieces@.len() <= old(self).pieces@.len() + 1,
            forall|i: int|
                0 <= i < final (self).pieces@.len() ==> (#[trigger] final (self).pieces@[i]).id@
                    == piece.id@ || has_id(old(self).pieces@, final (self).pieces@[i].id@),
            !has_id(old(self).pieces@, piece.id@) ==> final (self).pieces@ == old(
                self,
            ).pieces@.push(piece),
            has_id(old(self).pieces@, piece.id@) ==> exists|at: int|
                0 <= at < old(self).pieces@.len() && (#[trigger] old(self).pieces@[at]).id@
                    == piece.id@ && final (self).pieces@ == old(self).pieces@.update(at, piece),
    {
        let found = self.find(piece.id.as_str());
        match found {
            Some(at) => {
                self.pieces.set(at, piece);
                proof {
                    assert forall|i: int, j: int|
                        0 <= i < j < self.pieces@.len() implies (#[trigger] self.pieces@[i]).id@
                        != (#[trigger] self.pieces@[j]).id@ by {
                        assert(old(self).pieces@[i].id@ != old(self).pieces@[j].id@);
                    }
                    assert(self.pieces@[at as int].id@ == piece.id@);
                    assert(self.pieces@ =~= old(self).pieces@.update(at as int, piece));
                    assert(old(self).pieces@[at as int].id@ == piece.id@);
                }
            },
            None => {
                self.pieces.push(piece);
                proof {
                    assert(self.pieces@[self.pieces@.len() - 1].id@ == piece.id@);
                }
            },
        }
    }

    /// Remove a piece by identifier; reports whether it was there.
    pub fn remove_id(&mut self, id: &str) -> (r: bool)
        requires
            old(self).wf(),
        ensures
            final (self).wf(),
            r == has_id(old(self).pieces@, id@),
            !r ==> final (self).pieces@ == old(self).pieces@,
            !has_id(final (self).pieces@, id@),
            r ==> final (self).pieces@.len() + 1 == old(self).pieces@.len(),
            r ==> exists|at: int|
                0 <= at < old(self).pieces@.len() && (#[trigger] old(self).pieces@[at]).id@ == id@
                    && final (self).pieces@ == old(self).pieces@.subrange(0, at) + old(
                    self,
                ).pieces@.subrange(at + 1, old(self).pieces@.len() as int),
    {
        let found = self.find(id);
        match found {
            Some(at) => {
                self.pieces.remove(at);
                proof {
                    let oldp = old(self).pieces@;
                    assert(self.pieces@ =~= oldp.subrange(0, at as int) + oldp.subrange(
                        at + 1,
                        oldp.len() as int,
                    ));
                    assert forall|i: int, j: int|
                        0 <= i < j < self.pieces@.len() implies (#[trigger] self.pieces@[i]).id@
                        != (#[trigger] self.pieces@[j]).id@ by {}
                    assert forall|i: int|
                        0 <= i < self.pieces@.len() implies (#[trigger] self.pieces@[i]).id@
                        != id@ by {
                        if i < at {
                            assert(self.pieces@[i] == oldp[i]);
                            assert(oldp[i].id@ != oldp[at as int].id@);
                        } else {
                            assert(self.pieces@[i] == oldp[i + 1]);
                            assert(oldp[at as int].id@ != oldp[i + 1].id@);
                        }
                    }
                    assert(has_id(oldp, id@));
                }
                true
            },
            None => false,
        }
    }

    /// Look up a piece by identifier and return a copy of it.
    pub fn get(&self, id: &str) -> (r: Option<PatternPieceData>)
        ensures
            r matches Some(p) ==> has_id(self.pieces@, id@) && p.id@ == id@ && exists|i: int|
                0 <= i < self.pieces@.len() && piece_eq(p, #[trigger] self.pieces@[i]),
            r is None ==> !has_id(self.pieces@, id@),
    {
        let found = self.find(id);
        match found {
            Some(at) => {
                let p = crate::pattern::clone_piece(&self.pieces[at]);
                proof {
                    assert(piece_eq(p, self.pieces@[at as int]));
                }
                Some(p)
            },
            None => None,
        }
    }

    /// Copies of all pieces, in store order.
    pub fn get_all(&self) -> (r: Vec<PatternPieceData>)
        ensures
            pieces_eq(r@, self.pieces@),
    {
        clone_pieces(&self.pieces)
    }
}

/// A fresh random identifier in the canonical hyphenated text form.
///
/// Relies on `uuid::Uuid::new_v4` and the `Display` rendering of
/// `Uuid`, which is documented and implemented as the 36-character
/// lower-case hyphenated form. The value is random: nothing more than
/// its shape can be promised. Like an allocation, the call aborts the
/// process if the operating system's randomness source itself fails.
#[verifier::external_body]
fn fresh_piece_id() -> (r: String)
    ensures
        r@.len() == 36,
{
    uuid::Uuid::new_v4().to_string()
}

/// Create a piece: record the present store in the history, assign a
/// fresh identifier, and insert.
pub fn create(store: &mut PieceStore, history: &mut History, piece: PatternPieceData) -> (r:
    Result<String, String>)
    requires
        old(store).wf(),
        old(history).wf(),
    ensures
        final (store).wf(),
        final (history).wf(),
        r is Ok ==> r->Ok_0@.len() == 36 && has_id(final (store).pieces@, r->Ok_0@),
        r is Ok ==> exists|j: int|
            0 <= j < final (store).pieces@.len() && (#[trigger] final (store).pieces@[j]).id@ == r->Ok_0@
                && crate::pattern::piece_eq_except_id(final (store).pieces@[j], piece),
        final (history).undo_stack@.len() >= 1 && crate::pattern::pieces_eq(
            final (history).undo_stack@.last()@,
            old(store).pieces@,
        ),
        final (history).redo_stack@.len() == 0,
        r is Ok,
{
    let snap = store.snapshot();
    proof {
        lemma_pieces_eq_unique(snap@, store.pieces@);
    }
    history.push_snapshot(snap);
    let id = fresh_piece_id();
    let mut piece = piece;
    piece.id = id.clone();
    let ghost stored = piece;
    store.insert(piece);
    proof {
        assert(crate::pattern::piece_eq_except_id(stored, piece));
        if !has_id(old(store).pieces@, stored.id@) {
            assert(store.pieces@.last() == stored);
        }
    }
    Ok(id)
}

/// Update a piece: record the history, then replace the stored piece.
/// Fails if and only if the identifier is absent.
pub fn update(store: &mut PieceStore, history: &mut History, id: &str, piece: PatternPieceData)
    -> (r: Result<(), String>)
    requires
        old(store).wf(),
        old(history).wf(),
    ensures
        final (store).wf(),
        final (history).wf(),
        r is Ok <==> has_id(old(store).pieces@, id@),
        r is Ok ==> exists|at: int|
            {
                &&& 0 <= at < old(store).pieces@.len()
                &&& (#[trigger] old(store).pieces@[at]).id@ == id@
                &&& final (store).pieces@.len() == old(store).pieces@.len()
                &&& final (store).pieces@[at].id@ == id@
                &&& crate::pattern::piece_eq_except_id(final (store).pieces@[at], piece)
                &&& (forall|i: int|
                    0 <= i < old(store).pieces@.len() && i != at
                        ==> #[trigger] final (store).pieces@[i] == old(store).pieces@[i])
            },
        r is Err ==> final (store).pieces@ == old(store).pieces@,
        final (history).undo_stack@.len() >= 1 && crate::pattern::pieces_eq(
            final (history).undo_stack@.last()@,
            old(store).pieces@,
        ),
        final (history).redo_stack@.len() == 0,
{
    let snap = store.snapshot();
    proof {
        lemma_pieces_eq_unique(snap@, store.pieces@);
        lemma_pieces_eq_has_id(snap@, store.pieces@, id@);
    }
    history.push_snapshot(snap);
    let found = store.find(id);
    match found {
        Some(_) => {
            let mut piece = piece;
            piece.id = String::from_str(id);
            let ghost stored = piece;
            store.insert(piece);
            proof {
                assert(has_id(old(store).pieces@, id@));
                assert(crate::pattern::piece_eq_except_id(stored, piece));
                let at = choose|at: int|
                    0 <= at < old(store).pieces@.len() && (#[trigger] old(store).pieces@[at]).id@
                        == stored.id@ && store.pieces@ == old(store).pieces@.update(at, stored);
                assert(store.pieces@[at] == stored);
            }
            Ok(())
        },
        None => Err(String::from_str("Piece not found").concat(": ").concat(id)),
    }
}

/// Delete a piece: record the history, then remove it. Fails if and
/// only if the identifier is absent.
pub fn delete(store: &mut PieceStore, history: &mut History, id: &str) -> (r: Result<(), String>)
    requires
        old(store).wf(),
        old(history).wf(),
    ensures
        final (store).wf(),
        final (history).wf(),
        r is Ok <==> has_id(old(store).pieces@, id@),
        r is Ok ==> final (store).pieces@.len() + 1 == old(store).pieces@.len(),
        r is Ok ==> exists|at: int|
            0 <= at < old(store).pieces@.len() && (#[trigger] old(store).pieces@[at]).id@ == id@
                && final (store).pieces@ == old(store).pieces@.subrange(0, at) + old(
                store,
            ).pieces@.subrange(at + 1, old(store).pieces@.len() as int),
        r is Err ==> final (store).pieces@ == old(store).pieces@,
        !has_id(final (store).pieces@, id@),
        final (history).undo_stack@.len() >= 1 && crate::pattern::pieces_eq(
            final (history).undo_stack@.last()@,
            old(store).pieces@,
        ),
        final (history).redo_stack@.len() == 0,
{
    let snap = store.snapshot();
    proof {
        lemma_pieces_eq_unique(snap@, store.pieces@);
    }
    history.push_snapshot(snap);
    let removed = store.remove_id(id);
    if removed {
        Ok(())
    } else {
        Err(String::from_str("Piece not found").concat(": ").concat(id))
    }
}

/// Copies of the pieces a request names, in request order; an empty
/// request selects every piece of the store, in store order. A
/// non-empty request fails on the first identifier that is absent.
pub fn get_pieces_by_ids(store: &PieceStore, piece_ids: &Vec<String>) -> (r: Result<
    Vec<PatternPieceData>,
    String,
>)
    ensures
        piece_ids@.len() == 0 ==> r is Ok && pieces_eq(r->Ok_0@, store.pieces@),
        piece_ids@.len() > 0 ==> (r is Ok <==> forall|i: int|
            0 <= i < piece_ids@.len() ==> has_id(store.pieces@, (#[trigger] piece_ids@[i])@)),
        r is Ok && piece_ids@.len() > 0 ==> r->Ok_0@.len() == piece_ids@.len() && forall|i: int|
            0 <= i < piece_ids@.len() ==> (#[trigger] r->Ok_0@[i]).id@ == piece_ids@[i]@
                && exists|j: int|
                0 <= j < store.pieces@.len() && piece_eq(r->Ok_0@[i], #[trigger] store.pieces@[j]),
{
    if piece_ids.len() == 0 {
        return Ok(store.get_all());
    }
    let mut out: Vec<PatternPieceData> = Vec::new();
    let mut i: usize = 0;
    while i < piece_ids.len()
        invariant
            0 <= i <= piece_ids@.len(),
            out@.len() == i,
            forall|j: int|
                0 <= j < i ==> (#[trigger] out@[j]).id@ == piece_ids@[j]@ && exists|k: int|
                    0 <= k < store.pieces@.len() && piece_eq(out@[j], #[trigger] store.pieces@[k]),
            forall|j: int| 0 <= j < i ==> has_id(store.pieces@, (#[trigger] piece_ids@[j])@),
        decreases piece_ids@.len() - i,
    {
        let got = store.get(piece_ids[i].as_str());
        match got {
            Some(p) => {
                out.push(p);
            },
            None => {
                return Err(
                    String::from_str("Piece not found").concat(": ").concat(
                        piece_ids[i].as_str(),
                    ),
                );
            },
        }
        i = i + 1;
    }
    Ok(out)
}

/// Undo: swap the live store with the most recent undo snapshot,
/// pushing the present onto the redo stack. Fails if and only if there
/// is nothing to undo.
pub fn undo(store: &mut PieceStore, history: &mut History) -> (r: Result<(), String>)
    requires
        old(store).wf(),
        old(history).wf(),
        forall|k: int|
            0 <= k < old(history).undo_stack@.len() ==> unique_ids(
                (#[trigger] old(history).undo_stack@[k])@,
            ),
    ensures
        final (store).wf(),
        final (history).wf(),
        r is Ok <==> old(history).undo_stack@.len() > 0,
        r is Ok ==> final (store).pieces@ == old(history).undo_stack@.last()@
            && final (history).undo_stack@ == old(history).undo_stack@.drop_last(),
        r is Ok ==> final (history).redo_stack@.len() == old(history).redo_stack@.len() + 1
            && crate::pattern::pieces_eq(
            final (history).redo_stack@.last()@,
            old(store).pieces@,
        ),
        r is Err ==> final (store).pieces@ == old(store).pieces@
            && final (history).undo_stack@ == old(history).undo_stack@
            && final (history).redo_stack@ == old(history).redo_stack@,
{
    let popped = history.pop_undo();
    match popped {
        Some(previous) => {
            let current = store.snapshot();
            proof {
                lemma_pieces_eq_unique(current@, store.pieces@);
                assert(previous == old(history).undo_stack@.last());
            }
            history.push_redo(current);
            store.restore(previous);
            Ok(())
        },
        None => Err(String::from_str("Nothing to undo")),
    }
}

/// Redo: swap the live store with the most recent redo snapshot,
/// pushing the present back onto the undo stack. Fails if and only if
/// there is nothing to redo.
pub fn redo(store: &mut PieceStore, history: &mut History) -> (r: Result<(), String>)
    requires
        old(store).wf(),
        old(history).wf(),
        forall|k: int|
            0 <= k < old(history).redo_stack@.len() ==> unique_ids(
                (#[trigger] old(history).redo_stack@[k])@,
            ),
    ensures
        final (store).wf(),
        final (history).wf(),
        r is Ok <==> old(history).redo_stack@.len() > 0,
        r is Ok ==> final (store).pieces@ == old(history).redo_stack@.last()@
            && final (history).redo_stack@ == old(history).redo_stack@.drop_last(),
        r is Ok ==> final (history).undo_stack@.len() >= 1 && crate::pattern::pieces_eq(
            final (history).undo_stack@.last()@,
            old(store).pieces@,
        ),
        r is Err ==> final (store).pieces@ == old(store).pieces@
            && final (history).undo_stack@ == old(history).undo_stack@
            && final (history).redo_stack@ == old(history).redo_stack@,
{
    let popped = history.pop_redo();
    match popped {
        Some(next) => {
            let current = store.snapshot();
            proof {
                lemma_pieces_eq_unique(current@, store.pieces@);
                assert(next == old(history).redo_stack@.last());
            }
            history.push_undo_only(current);
            store.restore(next);
            Ok(())
        },
        None => Err(String::from_str("Nothing to redo")),
    }
}

/// Value-equal piece lists have identifiers unique together.
pub proof fn lemma_pieces_eq_unique(a: Seq<PatternPieceData>, b: Seq<PatternPieceData>)
    requires
        pieces_eq(a, b),
        unique_ids(b),
    ensures
        unique_ids(a),
{
    assert forall|i: int, j: int| 0 <= i < j < a.len() implies (#[trigger] a[i]).id@ != (
    #[trigger] a[j]).id@ by {
        assert(piece_eq(a[i], b[i]));
        assert(piece_eq(a[j], b[j]));
    }
}

/// Value-equal piece lists hold the same identifiers.
pub proof fn lemma_pieces_eq_has_id(a: Seq<PatternPieceData>, b: Seq<PatternPieceData>, id: Seq<
    char,
>)
    requires
        pieces_eq(a, b),
    ensures
        has_id(a, id) == has_id(b, id),
{
    if has_id(a, id) {
        let i = choose|i: int| 0 <= i < a.len() && (#[trigger] a[i]).id@ == id;
        assert(piece_eq(a[i], b[i]));
        assert(b[i].id@ == id);
    }
    if has_id(b, id) {
        let i = choose|i: int| 0 <= i < b.len() && (#[trigger] b[i]).id@ == id;
        assert(piece_eq(a[i], b[i]));
        assert(a[i].id@ == id);
    }
}

} // verus!
