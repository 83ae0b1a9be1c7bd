//! The undo/redo history: two bounded stacks of full snapshots.
//!
//! A snapshot is the whole piece list at one moment. Pushing a snapshot
//! for a new edit caps the undo stack at a fixed depth (the oldest entry
//! falls off) and clears the redo stack; re-pushing during a redo keeps
//! the redo stack. The contracts state the exact stack contents after
//! every operation.

use vstd::prelude::*;

use crate::pattern::PatternPieceData;

verus! {

/// The undo depth cap.
pub const MAX_UNDO: usize = 100;

/// One stored snapshot: the piece list as it was.
pub type Snapshot = Vec<PatternPieceData>;

/// The undo and redo stacks.
pub struct History {
    pub undo_stack: Vec<Snapshot>,
    pub redo_stack: Vec<Snapshot>,
}

impl History {
    /// The undo stack never exceeds its cap.
    pub open spec fn wf(self) -> bool {
        self.undo_stack@.len() <= MAX_UNDO
    }

    /// Both stacks start empty.
    pub fn new() -> (h: History)
        ensures
            h.undo_stack@.len() == 0,
            h.redo_stack@.len() == 0,
            h.wf(),
    {
        History { undo_stack: Vec::new(), redo_stack: Vec::new() }
    }

    /// Record a snapshot for a new edit: cap the undo stack, push, and
    /// clear the redo stack.
    pub fn push_snapshot(&mut self, snapshot: Snapshot)
        requires
            old(self).wf(),
        ensures
            final (self).wf(),
            final (self).undo_stack@ == (if old(self).undo_stack@.len() >= MAX_UNDO {
                old(self).undo_stack@.skip(1)
            } else {
                old(self).undo_stack@
            }).push(snapshot),
            final (self).undo_stack@.len() <= MAX_UNDO,
            final (self).redo_stack@.len() == 0,
    {
        if self.undo_stack.len() >= MAX_UNDO {
            self.undo_stack.remove(0);
            proof {
                assert(self.undo_stack@ =~= old(self).undo_stack@.skip(1));
            }
        }
        self.undo_stack.push(snapshot);
        self.redo_stack = Vec::new();
    }

    /// Record a snapshot without touching the redo stack (used while a
    /// redo is replayed).
    pub fn push_undo_only(&mut self, snapshot: Snapshot)
        requires
            old(self).wf(),
        ensures
            final (self).wf(),
            final (self).undo_stack@ == (if old(self).undo_stack@.len() >= MAX_UNDO {
                old(self).undo_stack@.skip(1)
            } else {
                old(self).undo_stack@
            }).push(snapshot),
            final (self).undo_stack@.len() <= MAX_UNDO,
            final (self).redo_stack@ == old(self).redo_stack@,
    {
        if self.undo_stack.len() >= MAX_UNDO {
            self.undo_stack.remove(0);
            proof {
                assert(self.undo_stack@ =~= old(self).undo_stack@.skip(1));
            }
        }
        self.undo_stack.push(snapshot);
    }

    /// Take the most recent undo snapshot, if any.
    pub fn pop_undo(&mut self) -> (r: Option<Snapshot>)
        ensures
            old(self).undo_stack@.len() == 0 ==> r is None && final (self).undo_stack@ == old(
                self,
            ).undo_stack@,
            old(self).undo_stack@.len() > 0 ==> r == Some(old(self).undo_stack@.last())
                && final (self).undo_stack@ == old(self).undo_stack@.drop_last(),
            final (self).redo_stack@ == old(self).redo_stack@,
    {
        self.undo_stack.pop()
    }

    /// Push a snapshot onto the redo stack.
    pub fn push_redo(&mut self, snapshot: Snapshot)
        ensures
            final (self).redo_stack@ == old(self).redo_stack@.push(snapshot),
            final (self).undo_stack@ == old(self).undo_stack@,
    {
        self.redo_stack.push(snapshot);
    }

    /// Take the most recent redo snapshot, if any.
    pub fn pop_redo(&mut self) -> (r: Option<Snapshot>)
        ensures
            old(self).redo_stack@.len() == 0 ==> r is None && final (self).redo_stack@ == old(
                self,
            ).redo_stack@,
            old(self).redo_stack@.len() > 0 ==> r == Some(old(self).redo_stack@.last())
                && final (self).redo_stack@ == old(self).redo_stack@.drop_last(),
            final (self).undo_stack@ == old(self).undo_stack@,
    {
        self.redo_stack.pop()
    }

    /// Forget all history.
    pub fn clear(&mut self)
        ensures
            final (self).undo_stack@.len() == 0,
            final (self).redo_stack@.len() == 0,
    {
        self.undo_stack = Vec::new();
        self.redo_stack = Vec::new();
    }

    /// Whether an undo is available.
    pub fn can_undo(&self) -> (r: bool)
        ensures
            r == (self.undo_stack@.len() > 0),
    {
        self.undo_stack.len() > 0
    }

    /// Whether a redo is available.
    pub fn can_redo(&self) -> (r: bool)
        ensures
            r == (self.redo_stack@.len() > 0),
    {
        self.redo_stack.len() > 0
    }
}

} // verus!
