//! Snapshot-based undo and redo: a dirty bit batches low-level edits into
//! undo units, a floor entry keeps the initial state reachable, and a depth
//! marker records which stack depth matches the file on disk.

use vstd::prelude::*;
use crate::utils::Loc;

verus! {

/// Immutable capture of the buffer content and the cursor: the unit of
/// undo and redo.
#[derive(Debug, PartialEq, Eq)]
pub struct Snapshot {
    pub lines: Vec<String>,
    pub unloaded: Vec<String>,
    pub cursor: Loc,
}

/// Mathematical form of a snapshot.
pub struct SnapshotView {
    pub lines: Seq<Seq<char>>,
    pub unloaded: Seq<Seq<char>>,
    pub cursor: Loc,
}

impl View for Snapshot {
    type V = SnapshotView;

    open spec fn view(&self) -> SnapshotView {
        SnapshotView {
            lines: self.lines.deep_view(),
            unloaded: self.unloaded.deep_view(),
            cursor: self.cursor,
        }
    }
}

impl DeepView for Snapshot {
    type V = SnapshotView;

    open spec fn deep_view(&self) -> SnapshotView {
        self.view()
    }
}

impl Clone for Snapshot {
    fn clone(&self) -> (r: Snapshot)
        ensures
            r@ == self@,
    {
        let lines = self.lines.clone();
        let unloaded = self.unloaded.clone();
        proof {
            assert(lines.deep_view() =~~= self.lines.deep_view());
            assert(unloaded.deep_view() =~~= self.unloaded.deep_view());
        }
        Snapshot { lines, unloaded, cursor: self.cursor }
    }
}

/// Mathematical form of the undo manager's state.
pub struct UndoView {
    pub dirty: bool,
    pub undo: Seq<SnapshotView>,
    pub redo: Seq<SnapshotView>,
    pub on_disk: int,
}

/// For managing events for purposes of undo and redo.
#[derive(Debug)]
pub struct UndoMgmt {
    /// Whether the document was touched since the latest commit.
    pub is_dirty: bool,
    /// Undo contains all the snapshots that have been committed.
    pub undo: Vec<Snapshot>,
    /// Redo contains all the snapshots that have been undone.
    pub redo: Vec<Snapshot>,
    /// Store the undo-stack depth that matches the file on the disk.
    pub on_disk: usize,
}

impl Default for UndoMgmt {
    /// An undo manager with empty stacks; callers seed the floor snapshot.
    fn default() -> (r: UndoMgmt)
        ensures
            !r@.dirty,
            r@.undo.len() == 0,
            r@.redo.len() == 0,
            r@.on_disk == 0,
    {
        UndoMgmt { is_dirty: false, undo: Vec::new(), redo: Vec::new(), on_disk: 0 }
    }
}

impl View for UndoMgmt {
    type V = UndoView;

    open spec fn view(&self) -> UndoView {
        UndoView {
            dirty: self.is_dirty,
            undo: self.undo.deep_view(),
            redo: self.redo.deep_view(),
            on_disk: self.on_disk as int,
        }
    }
}

/// Registering a mutation: the redo stack is cleared and the state is dirty.
pub open spec fn set_dirty_step(m: UndoView) -> UndoView {
    UndoView { dirty: true, redo: Seq::empty(), ..m }
}

/// Committing a snapshot: pushed onto the undo stack only if the state is
/// dirty; otherwise a no-op.
pub open spec fn commit_step(m: UndoView, s: SnapshotView) -> UndoView {
    if m.dirty {
        UndoView { dirty: false, undo: m.undo.push(s), ..m }
    } else {
        m
    }
}

/// Undoing: any pending dirty state is committed first; the floor entry is
/// never popped; the popped entry moves to the redo stack.
pub open spec fn undo_step(m: UndoView, s: SnapshotView) -> UndoView {
    let c = commit_step(m, s);
    if c.undo.len() < 2 {
        c
    } else {
        UndoView { undo: c.undo.drop_last(), redo: c.redo.push(c.undo.last()), ..c }
    }
}

/// The snapshot an undo hands back to be restored: the entry under the top,
/// or nothing when only the floor entry would remain.
pub open spec fn undo_result(m: UndoView, s: SnapshotView) -> Option<SnapshotView> {
    let c = commit_step(m, s);
    if c.undo.len() < 2 {
        Option::None
    } else {
        Option::Some(c.undo[c.undo.len() - 2])
    }
}

/// Redoing: the top of the redo stack moves back onto the undo stack.
pub open spec fn redo_step(m: UndoView) -> UndoView {
    if m.redo.len() == 0 {
        m
    } else {
        UndoView { undo: m.undo.push(m.redo.last()), redo: m.redo.drop_last(), ..m }
    }
}

/// The snapshot a redo hands back to be restored, or nothing.
pub open spec fn redo_result(m: UndoView) -> Option<SnapshotView> {
    if m.redo.len() == 0 {
        Option::None
    } else {
        Option::Some(m.redo.last())
    }
}

/// Saving: the on-disk marker is moved to the current stack depth.
pub open spec fn saved_step(m: UndoView) -> UndoView {
    UndoView { on_disk: m.undo.len() as int, ..m }
}

/// Save-state equality is defined purely by stack depth.
pub open spec fn at_file_view(m: UndoView) -> bool {
    m.undo.len() == m.on_disk
}

impl UndoMgmt {
    /// Register that an event has occurred and the last snapshot is out of
    /// date.
    pub fn set_dirty(&mut self)
        ensures
            final(self)@ == set_dirty_step(old(self)@),
    {
        self.redo.clear();
        self.is_dirty = true;
        proof {
            assert(self@.redo =~= Seq::<SnapshotView>::empty());
            assert(self@ =~= set_dirty_step(old(self)@)) by {
                assert(self@.undo == old(self)@.undo);
            }
        }
    }

    /// Take a snapshot and add it to the undo stack, ready to be undone.
    /// Call this at meaningful boundaries (after a space character, for
    /// example) so that many consecutive low-level edits collapse into one
    /// undo unit.
    pub fn commit(&mut self, current_snapshot: Snapshot)
        ensures
            final(self)@ == commit_step(old(self)@, current_snapshot@),
    {
        if self.is_dirty {
            self.is_dirty = false;
            self.undo.push(current_snapshot);
            proof {
                assert(self@.undo =~= old(self)@.undo.push(current_snapshot@));
            }
        }
    }

    /// Provide a snapshot of the desired state of the document for purposes
    /// of undoing, or nothing if no further undo exists.
    pub fn undo(&mut self, current_snapshot: Snapshot) -> (r: Option<Snapshot>)
        ensures
            final(self)@ == undo_step(old(self)@, current_snapshot@),
            match r {
                Option::Some(s) => undo_result(old(self)@, current_snapshot@)
                    == Option::Some(s@),
                Option::None => undo_result(old(self)@, current_snapshot@) is None,
            },
    {
        self.commit(current_snapshot);
        let ghost c = self@;
        if self.undo.len() < 2 {
            return None;
        }
        let snapshot_to_remove = self.undo.pop().unwrap();
        let snapshot_to_apply = self.undo[self.undo.len() - 1].clone();
        self.redo.push(snapshot_to_remove);
        proof {
            assert(self@.undo =~= c.undo.drop_last());
            assert(self@.redo =~= c.redo.push(c.undo.last()));
            assert(snapshot_to_apply@ == c.undo[c.undo.len() - 2]);
        }
        Some(snapshot_to_apply)
    }

    /// Provide a snapshot of the desired state of the document for purposes
    /// of redoing, or nothing if the redo stack is empty.
    pub fn redo(&mut self) -> (r: Option<Snapshot>)
        ensures
            final(self)@ == redo_step(old(self)@),
            match r {
                Option::Some(s) => redo_result(old(self)@) == Option::Some(s@),
                Option::None => redo_result(old(self)@) is None,
            },
    {
        if self.redo.len() == 0 {
            return None;
        }
        let ev = self.redo.pop().unwrap();
        let copy = ev.clone();
        self.undo.push(ev);
        proof {
            assert(self@.undo =~= old(self)@.undo.push(old(self)@.redo.last()));
            assert(self@.redo =~= old(self)@.redo.drop_last());
        }
        Some(copy)
    }

    /// On file save, mark where the document is, to match it on the disk.
    pub fn saved(&mut self)
        ensures
            final(self)@ == saved_step(old(self)@),
            at_file_view(final(self)@),
    {
        self.on_disk = self.undo.len();
        proof {
            assert(self@ =~= saved_step(old(self)@)) by {
                assert(self@.undo == old(self)@.undo);
                assert(self@.redo == old(self)@.redo);
            }
        }
    }

    /// Determine if the state of the document is currently that of what is
    /// on the disk.
    pub fn at_file(&self) -> (r: bool)
        ensures
            r == at_file_view(self@),
    {
        self.undo.len() == self.on_disk
    }
}

/// Committing twice in a row pushes exactly one undo entry: the second
/// commit finds a clean state and is a no-op.
pub proof fn lemma_commit_twice(m: UndoView, s1: SnapshotView, s2: SnapshotView)
    ensures
        commit_step(commit_step(m, s1), s2) == commit_step(m, s1),
{
}

/// An undo followed by a redo returns to the same state: from a clean state
/// whose current snapshot tops the undo stack, undoing and then redoing
/// restores both stacks exactly, and the redo hands back that same snapshot.
pub proof fn lemma_undo_redo_round_trip(m: UndoView, s: SnapshotView)
    requires
        !m.dirty,
        m.undo.len() >= 2,
        s == m.undo.last(),
    ensures
        undo_result(m, s) == Option::Some(m.undo[m.undo.len() - 2]),
        redo_result(undo_step(m, s)) == Option::Some(s),
        redo_step(undo_step(m, s)) == m,
{
    let u = undo_step(m, s);
    assert(u.redo.last() == s);
    assert(redo_step(u).undo =~= m.undo);
    assert(redo_step(u).redo =~= m.redo);
}

/// Immediately after a save the document is at its on-disk state.
pub proof fn lemma_at_file_after_save(m: UndoView)
    ensures
        at_file_view(saved_step(m)),
{
}

/// A committed edit after a save leaves the on-disk state behind.
pub proof fn lemma_commit_leaves_file(m: UndoView, s: SnapshotView)
    requires
        at_file_view(m),
        m.dirty,
    ensures
        !at_file_view(commit_step(m, s)),
{
}

/// Any new dirty-setting mutation empties the redo stack: there is no
/// branching redo history.
pub proof fn lemma_dirty_clears_redo(m: UndoView)
    ensures
        set_dirty_step(m).redo.len() == 0,
        set_dirty_step(m).dirty,
{
}

} // verus!
