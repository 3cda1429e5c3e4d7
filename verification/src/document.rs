//! The document: line-addressable text storage with windowed loading, a
//! cursor with a sticky column, and the event-sourced mutation entry point
//! that keeps buffer, cursor, undo history and tokenizer notifications
//! consistent after every edit.

use vstd::prelude::*;
use vstd::pervasive::VecAdditionalExecFns;
use crate::error::Error;
use crate::event::Event;
use crate::event::EventView;
use crate::event::cursor_x_after;
use crate::event::cursor_y_after;
use crate::event::event_apply;
use crate::event::event_valid;
use crate::event::rev_view;
use crate::highlight::LineChange;
use crate::highlight::LineChangeView;
use crate::highlight::change_apply;
use crate::highlight::change_valid;
use crate::highlight::changes_apply;
use crate::highlight::changes_valid;
use crate::highlight::lemma_changes_one;
use crate::highlight::lemma_changes_two;
use crate::text::line_concat;
use crate::text::line_insert_str;
use crate::text::line_len;
use crate::text::line_remove_range;
use crate::text::line_sub;
use crate::undo::Snapshot;
use crate::undo::SnapshotView;
use crate::undo::UndoMgmt;
use crate::undo::at_file_view;
use crate::undo::commit_step;
use crate::undo::redo_result;
use crate::undo::redo_step;
use crate::undo::saved_step;
use crate::undo::set_dirty_step;
use crate::undo::undo_result;
use crate::undo::undo_step;
use crate::utils::Loc;
use crate::utils::Size;

verus! {

/// A snapshot that can safely be restored: its cursor sits inside its own
/// content and its total line count fits the machine.
pub open spec fn snap_wf(s: SnapshotView) -> bool {
    &&& s.cursor.y <= s.lines.len()
    &&& s.cursor.y < s.lines.len() ==> s.cursor.x <= s.lines[s.cursor.y as int].len()
    &&& s.cursor.y == s.lines.len() ==> s.cursor.x == 0
    &&& s.lines.len() + s.unloaded.len() <= usize::MAX
}

/// A document: the buffer, the cursor, the undo manager and the windowed
/// loading watermark. Resident lines are `lines`; the not-yet-loaded tail of
/// the file waits in order in `unloaded`.
#[derive(Debug)]
pub struct Document {
    /// The resident lines of the document, in order.
    pub lines: Vec<String>,
    /// The lines of the file after the loading watermark, in order.
    pub unloaded: Vec<String>,
    /// The cursor position: a character column within a line.
    pub cursor: Loc,
    /// The column the cursor aims for on vertical movement, so that moving
    /// through shorter lines remembers the original target column.
    pub desired_column: usize,
    /// Undo and redo management.
    pub undo_mgmt: UndoMgmt,
    /// The viewport dimensions, used by callers to bound resident loading.
    pub size: Size,
    /// The file name, if the document was ever given one.
    pub file_name: Option<String>,
    /// Whether mutating operations are rejected.
    pub read_only: bool,
    /// Whether the document differs from the last loaded or saved state.
    pub modified: bool,
}

impl Document {
    /// The resident lines as sequences of characters.
    pub open spec fn buf(self) -> Seq<Seq<char>> {
        self.lines.deep_view()
    }

    /// The not-yet-resident lines as sequences of characters.
    pub open spec fn rest(self) -> Seq<Seq<char>> {
        self.unloaded.deep_view()
    }

    /// The whole document content, resident or not.
    pub open spec fn all_lines(self) -> Seq<Seq<char>> {
        self.buf() + self.rest()
    }

    /// The state a snapshot of this document captures.
    pub open spec fn snap(self) -> SnapshotView {
        SnapshotView { lines: self.buf(), unloaded: self.rest(), cursor: self.cursor }
    }

    /// Well-formedness: the cursor sits on a resident line at or before its
    /// end, or at the append position; the undo stack keeps its floor entry;
    /// every stacked snapshot can be restored.
    pub open spec fn wf(self) -> bool {
        &&& self.cursor.y <= self.buf().len()
        &&& self.cursor.y < self.buf().len() ==> self.cursor.x <= self.buf()[
            self.cursor.y as int
        ].len()
        &&& self.cursor.y == self.buf().len() ==> self.cursor.x == 0
        &&& self.lines.len() + self.unloaded.len() <= usize::MAX
        &&& self.undo_mgmt@.undo.len() >= 1
        &&& forall|i: int|
            0 <= i < self.undo_mgmt@.undo.len() ==> snap_wf(#[trigger] self.undo_mgmt@.undo[i])
        &&& forall|i: int|
            0 <= i < self.undo_mgmt@.redo.len() ==> snap_wf(#[trigger] self.undo_mgmt@.redo[i])
    }

    /// Create a new, empty document: one empty resident line, the floor
    /// snapshot seeded, nothing on disk yet.
    pub fn new(size: Size) -> (r: Document)
        ensures
            r.wf(),
            r.buf() =~~= seq![Seq::<char>::empty()],
            r.rest() =~~= Seq::<Seq<char>>::empty(),
            r.cursor == (Loc { x: 0, y: 0 }),
            r.undo_mgmt@.undo.len() == 1,
            r.undo_mgmt@.undo[0] == r.snap(),
            r.undo_mgmt@.redo.len() == 0,
            !r.undo_mgmt@.dirty,
            !at_file_view(r.undo_mgmt@),
            r.size == size,
            r.file_name is None,
            !r.read_only,
            !r.modified,
    {
        let mut lines: Vec<String> = Vec::new();
        lines.push(String::new());
        let snapshot = Snapshot {
            lines: lines.clone(),
            unloaded: Vec::new(),
            cursor: Loc { x: 0, y: 0 },
        };
        let mut undo: Vec<Snapshot> = Vec::new();
        undo.push(snapshot);
        let doc = Document {
            lines,
            unloaded: Vec::new(),
            cursor: Loc { x: 0, y: 0 },
            desired_column: 0,
            undo_mgmt: UndoMgmt { is_dirty: false, undo, redo: Vec::new(), on_disk: 0 },
            size,
            file_name: None,
            read_only: false,
            modified: false,
        };
        proof {
            assert(doc.buf() =~~= seq![Seq::<char>::empty()]);
            assert(doc.rest() =~~= Seq::<Seq<char>>::empty());
            assert(doc.undo_mgmt@.undo =~~= seq![doc.snap()]);
        }
        doc
    }

    /// Open a document from its lines, none resident yet: callers load the
    /// viewport with `load_to`. The floor snapshot is seeded and the on-disk
    /// marker set, so the document starts at its on-disk state.
    pub fn open(size: Size, file_name: String, file_lines: Vec<String>) -> (r: Document)
        ensures
            r.wf(),
            r.buf() =~~= Seq::<Seq<char>>::empty(),
            r.rest() == file_lines.deep_view(),
            r.cursor == (Loc { x: 0, y: 0 }),
            r.undo_mgmt@.undo.len() == 1,
            r.undo_mgmt@.undo[0] == r.snap(),
            r.undo_mgmt@.redo.len() == 0,
            !r.undo_mgmt@.dirty,
            at_file_view(r.undo_mgmt@),
            r.size == size,
            r.file_name matches Some(f) && f@ == file_name@,
            !r.read_only,
            !r.modified,
    {
        let snapshot = Snapshot {
            lines: Vec::new(),
            unloaded: file_lines.clone(),
            cursor: Loc { x: 0, y: 0 },
        };
        let mut undo: Vec<Snapshot> = Vec::new();
        undo.push(snapshot);
        let doc = Document {
            lines: Vec::new(),
            unloaded: file_lines,
            cursor: Loc { x: 0, y: 0 },
            desired_column: 0,
            undo_mgmt: UndoMgmt { is_dirty: false, undo, redo: Vec::new(), on_disk: 1 },
            size,
            file_name: Some(file_name),
            read_only: false,
            modified: false,
        };
        proof {
            assert(doc.buf() =~~= Seq::<Seq<char>>::empty());
            assert(doc.undo_mgmt@.undo =~~= seq![doc.snap()]);
        }
        doc
    }

    /// The resident copy of line `y`, or nothing if `y` is not resident.
    pub fn line(&self, y: usize) -> (r: Option<String>)
        ensures
            match r {
                Some(l) => y < self.buf().len() && l@ == self.buf()[y as int],
                None => y >= self.buf().len(),
            },
    {
        if y < self.lines.len() {
            Some(self.lines[y].clone())
        } else {
            None
        }
    }

    /// The number of lines in the whole document, resident or not.
    pub fn len_lines(&self) -> (r: usize)
        requires
            self.wf(),
        ensures
            r == self.all_lines().len(),
    {
        self.lines.len() + self.unloaded.len()
    }

    /// How many lines are resident: lines `[0, loaded_to)` are in memory.
    pub fn loaded_to(&self) -> (r: usize)
        ensures
            r == self.buf().len(),
    {
        self.lines.len()
    }

    /// The cursor location.
    pub fn loc(&self) -> (r: Loc)
        ensures
            r == self.cursor,
    {
        self.cursor
    }

    /// The cursor location as a character-indexed position.
    pub fn char_loc(&self) -> (r: Loc)
        ensures
            r == self.cursor,
    {
        self.cursor
    }

    /// The character column the cursor is on.
    pub fn char_ptr(&self) -> (r: usize)
        ensures
            r == self.cursor.x,
    {
        self.cursor.x
    }

    /// Check that a coordinate is inside the resident buffer: at most the
    /// length of an existing line. Fails with `OutOfRange` otherwise.
    pub fn out_of_range(&self, x: usize, y: usize) -> (r: Result<(), Error>)
        ensures
            r is Ok <==> y < self.buf().len() && x <= self.buf()[y as int].len(),
            r is Err ==> r == Result::<(), Error>::Err(Error::OutOfRange),
    {
        if y >= self.lines.len() {
            return Err(Error::OutOfRange);
        }
        let n = line_len(&self.lines[y]);
        if x > n {
            return Err(Error::OutOfRange);
        }
        Ok(())
    }

    /// The file name, or `NoFileName` if none was ever set.
    pub fn file_path(&self) -> (r: Result<String, Error>)
        ensures
            match r {
                Ok(p) => self.file_name matches Some(f) && p@ == f@,
                Err(e) => self.file_name is None && e == Error::NoFileName,
            },
    {
        match &self.file_name {
            Some(f) => Ok(f.clone()),
            None => Err(Error::NoFileName),
        }
    }

    /// Guarantee that lines `[0, n)` are resident, as far as the document
    /// has them: lines move from the unloaded tail into the buffer, already
    /// resident lines are never discarded, and content is unchanged.
    pub fn load_to(&mut self, n: usize)
        requires
            old(self).wf(),
        ensures
            final(self).wf(),
            final(self).buf() == old(self).buf() + old(self).rest().take(
                final(self).buf().len() - old(self).buf().len(),
            ),
            final(self).rest() == old(self).rest().skip(
                final(self).buf().len() - old(self).buf().len(),
            ),
            final(self).buf().len() == if n <= old(self).buf().len() {
                old(self).buf().len() as int
            } else if n as int <= old(self).all_lines().len() {
                n as int
            } else {
                old(self).all_lines().len() as int
            },
            final(self).all_lines() == old(self).all_lines(),
            final(self).cursor == old(self).cursor,
            final(self).desired_column == old(self).desired_column,
            final(self).undo_mgmt == old(self).undo_mgmt,
            final(self).size == old(self).size,
            final(self).file_name == old(self).file_name,
            final(self).read_only == old(self).read_only,
            final(self).modified == old(self).modified,
    {
        let ghost orig_buf = self.buf();
        let ghost orig_rest = self.rest();
        proof {
            assert(orig_rest.take(0) =~= Seq::<Seq<char>>::empty());
            assert(self.buf() =~= orig_buf + orig_rest.take(0));
            assert(orig_rest.skip(0) =~= orig_rest);
        }
        while self.lines.len() < n && self.unloaded.len() > 0
            invariant
                orig_buf.len() <= self.buf().len(),
                self.buf().len() <= orig_buf.len() + orig_rest.len(),
                self.buf() == orig_buf + orig_rest.take(self.buf().len() - orig_buf.len()),
                self.rest() == orig_rest.skip(self.buf().len() - orig_buf.len()),
                self.buf().len() > orig_buf.len() ==> self.buf().len() <= n,
                self.lines.len() + self.unloaded.len() == old(self).lines.len() + old(
                    self,
                ).unloaded.len(),
                self.cursor == old(self).cursor,
                self.desired_column == old(self).desired_column,
                self.undo_mgmt == old(self).undo_mgmt,
                self.size == old(self).size,
                self.file_name == old(self).file_name,
                self.read_only == old(self).read_only,
                self.modified == old(self).modified,
            decreases self.unloaded.len(),
        {
            let ghost prev_buf = self.buf();
            let ghost prev_rest = self.rest();
            let next = self.unloaded.remove(0);
            self.lines.push(next);
            proof {
                let k = prev_buf.len() - orig_buf.len();
                assert(self.buf() =~~= prev_buf.push(prev_rest[0]));
                assert(self.rest() =~~= prev_rest.skip(1));
                assert(prev_rest.len() > 0);
                assert(prev_rest == orig_rest.skip(k));
                assert(orig_rest.skip(k).len() == orig_rest.len() - k);
                assert(0 <= k < orig_rest.len());
                assert(prev_rest[0] == orig_rest[k]);
                assert(orig_buf + orig_rest.take(k + 1) =~= (orig_buf + orig_rest.take(
                    k,
                )).push(orig_rest[k]));
                assert(self.buf() == orig_buf + orig_rest.take(
                    self.buf().len() - orig_buf.len(),
                ));
                assert(prev_rest.skip(1) =~= orig_rest.skip(k + 1));
                assert(self.rest() == orig_rest.skip(self.buf().len() - orig_buf.len()));
            }
        }
        proof {
            assert(final(self).all_lines() =~~= old(self).all_lines());
            assert(old(self).cursor.y < orig_buf.len() ==> final(self).buf()[old(
                self,
            ).cursor.y as int] == orig_buf[old(self).cursor.y as int]);
        }
    }

    /// Whether an event makes the document grow by a line.
    pub open spec fn event_grows(e: EventView) -> bool {
        match e {
            EventView::InsertLine(_, _) => true,
            EventView::SplitDown(_) => true,
            _ => false,
        }
    }

    /// Exactly when `exe` succeeds: the document is writable, the event is
    /// valid on the resident lines, and a growing event still has room in
    /// the machine's line count.
    pub open spec fn exe_ok(self, e: EventView) -> bool {
        &&& !self.read_only
        &&& event_valid(self.buf(), e)
        &&& Self::event_grows(e) ==> self.all_lines().len() < usize::MAX
    }

    /// What a successful `exe` of event `e` does to a document: lines as the
    /// event's semantics say, cursor at the event's landing position, the
    /// mutation registered as dirty (clearing the redo stack), everything
    /// else untouched.
    pub open spec fn exe_effect(pre: Document, post: Document, e: EventView) -> bool {
        &&& post.buf() == event_apply(pre.buf(), e)
        &&& post.rest() == pre.rest()
        &&& post.cursor.x == cursor_x_after(e)
        &&& post.cursor.y == cursor_y_after(e)
        &&& post.desired_column == post.cursor.x
        &&& post.undo_mgmt@ == set_dirty_step(pre.undo_mgmt@)
        &&& post.modified
        &&& post.size == pre.size
        &&& post.file_name == pre.file_name
        &&& post.read_only == pre.read_only
    }

    /// Execute an edit event: the sole mutation entry point. On success the
    /// resident lines change exactly as the event's semantics say, the
    /// cursor moves to the event's landing position, the mutation is
    /// registered as dirty (clearing the redo stack), and the returned
    /// notifications replay to exactly the new resident lines on any
    /// tokenizer that mirrored the old ones. On failure nothing changes at
    /// all: a read-only document reports `ReadOnlyFile`, an invalid event
    /// `OutOfRange`.
    pub fn exe(&mut self, ev: Event) -> (r: Result<Vec<LineChange>, Error>)
        requires
            old(self).wf(),
        ensures
            final(self).wf(),
            r is Ok <==> old(self).exe_ok(ev@),
            match r {
                Ok(changes) => {
                    &&& Self::exe_effect(*old(self), *final(self), ev@)
                    &&& changes_valid(old(self).buf(), changes.deep_view())
                    &&& changes_apply(old(self).buf(), changes.deep_view()) == final(self).buf()
                },
                Err(e) => {
                    &&& *final(self) == *old(self)
                    &&& e == if old(self).read_only {
                        Error::ReadOnlyFile
                    } else {
                        Error::OutOfRange
                    }
                },
            },
    {
        if self.read_only {
            return Err(Error::ReadOnlyFile);
        }
        let ghost e = ev@;
        let ghost buf0 = self.buf();
        let mut changes: Vec<LineChange> = Vec::new();
        match ev {
            Event::Insert(loc, st) => {
                if loc.y >= self.lines.len() {
                    return Err(Error::OutOfRange);
                }
                let n = line_len(&self.lines[loc.y]);
                if loc.x > n {
                    return Err(Error::OutOfRange);
                }
                let newline = line_insert_str(&self.lines[loc.y], loc.x, &st);
                let stn = line_len(&st);
                let newlen = line_len(&newline);
                proof {
                    assert(newline@.len() == loc.x + st@.len() + (n - loc.x));
                    assert(loc.x + stn <= newlen);
                }
                self.lines.set(loc.y, newline.clone());
                self.cursor = Loc { x: loc.x + stn, y: loc.y };
                changes.push(LineChange::Edit(loc.y, newline));
                proof {
                    assert(self.buf() =~~= event_apply(buf0, e));
                }
            }
            Event::Delete(loc, st) => {
                if loc.y >= self.lines.len() {
                    return Err(Error::OutOfRange);
                }
                let n = line_len(&self.lines[loc.y]);
                let stn = line_len(&st);
                if loc.x > n || stn > n - loc.x {
                    return Err(Error::OutOfRange);
                }
                let extracted = line_sub(&self.lines[loc.y], loc.x, stn);
                if !extracted.eq(&st) {
                    return Err(Error::OutOfRange);
                }
                let newline = line_remove_range(&self.lines[loc.y], loc.x, stn);
                self.lines.set(loc.y, newline.clone());
                self.cursor = Loc { x: loc.x, y: loc.y };
                changes.push(LineChange::Edit(loc.y, newline));
                proof {
                    assert(self.buf() =~~= event_apply(buf0, e));
                }
            }
            Event::InsertLine(y, st) => {
                if y > self.lines.len() {
                    return Err(Error::OutOfRange);
                }
                if self.unloaded.len() >= usize::MAX - self.lines.len() {
                    return Err(Error::OutOfRange);
                }
                let change = if y == self.lines.len() {
                    LineChange::Append(st.clone())
                } else {
                    LineChange::InsertLine(y, st.clone())
                };
                self.lines.insert(y, st);
                self.cursor = Loc { x: 0, y };
                changes.push(change);
                proof {
                    assert(self.buf() =~~= event_apply(buf0, e));
                    assert(change_apply(buf0, change@) =~~= self.buf());
                }
            }
            Event::DeleteLine(y, st) => {
                if y >= self.lines.len() {
                    return Err(Error::OutOfRange);
                }
                if !self.lines[y].eq(&st) {
                    return Err(Error::OutOfRange);
                }
                self.lines.remove(y);
                self.cursor = Loc { x: 0, y };
                changes.push(LineChange::RemoveLine(y));
                proof {
                    assert(self.buf() =~~= event_apply(buf0, e));
                }
            }
            Event::SplitDown(loc) => {
                if loc.y >= self.lines.len() {
                    return Err(Error::OutOfRange);
                }
                let n = line_len(&self.lines[loc.y]);
                if loc.x > n {
                    return Err(Error::OutOfRange);
                }
                if self.unloaded.len() >= usize::MAX - self.lines.len() {
                    return Err(Error::OutOfRange);
                }
                let lhs = line_sub(&self.lines[loc.y], 0, loc.x);
                let rhs = line_sub(&self.lines[loc.y], loc.x, n - loc.x);
                self.lines.set(loc.y, lhs.clone());
                self.lines.insert(loc.y + 1, rhs.clone());
                self.cursor = Loc { x: 0, y: loc.y + 1 };
                changes.push(LineChange::InsertLine(loc.y + 1, rhs));
                changes.push(LineChange::Edit(loc.y, lhs));
                proof {
                    assert(self.buf() =~~= event_apply(buf0, e));
                    let c0 = changes.deep_view()[0];
                    let c1 = changes.deep_view()[1];
                    assert(change_apply(change_apply(buf0, c0), c1) =~~= self.buf());
                }
            }
            Event::SpliceUp(loc) => {
                if loc.y >= self.lines.len() || loc.y + 1 >= self.lines.len() {
                    return Err(Error::OutOfRange);
                }
                let n = line_len(&self.lines[loc.y]);
                if loc.x != n {
                    return Err(Error::OutOfRange);
                }
                let merged = line_concat(&self.lines[loc.y], &self.lines[loc.y + 1]);
                self.lines.set(loc.y, merged.clone());
                self.lines.remove(loc.y + 1);
                self.cursor = Loc { x: loc.x, y: loc.y };
                changes.push(LineChange::RemoveLine(loc.y + 1));
                changes.push(LineChange::Edit(loc.y, merged));
                proof {
                    assert(self.buf() =~~= event_apply(buf0, e));
                    let c0 = changes.deep_view()[0];
                    let c1 = changes.deep_view()[1];
                    assert(change_apply(change_apply(buf0, c0), c1) =~~= self.buf());
                }
            }
        }
        self.desired_column = self.cursor.x;
        self.undo_mgmt.set_dirty();
        self.modified = true;
        proof {
            if changes.deep_view().len() == 1 {
                assert(changes.deep_view() =~= seq![changes.deep_view()[0]]);
                lemma_changes_one(buf0, changes.deep_view()[0]);
            } else {
                assert(changes.deep_view() =~= seq![
                    changes.deep_view()[0],
                    changes.deep_view()[1],
                ]);
                lemma_changes_two(buf0, changes.deep_view()[0], changes.deep_view()[1]);
            }
        }
        Ok(changes)
    }

    /// After a permitted event, its reverse is itself permitted: it is
    /// valid on the mutated lines, and where it grows the document the
    /// machine's line count has room, because the original event shrank it.
    pub proof fn lemma_reverse_permitted(d: Document, e: EventView)
        requires
            d.wf(),
            d.exe_ok(e),
        ensures
            event_valid(event_apply(d.buf(), e), rev_view(e)),
            event_apply(event_apply(d.buf(), e), rev_view(e)) == d.buf(),
            Self::event_grows(rev_view(e)) ==> (event_apply(d.buf(), e) + d.rest()).len()
                < usize::MAX,
    {
        crate::event::lemma_apply_reverse(d.buf(), e);
    }

    /// Executing a valid event and then its reverse restores both the
    /// buffer content and the cursor. The cursor clause asks that the
    /// cursor stood where the reverse's own application semantics put it —
    /// which is the natural cursor position just before the original
    /// event, for every event shape.
    pub proof fn lemma_exe_round_trip(d0: Document, d1: Document, d2: Document, e: EventView)
        requires
            d0.wf(),
            event_valid(d0.buf(), e),
            Self::exe_effect(d0, d1, e),
            Self::exe_effect(d1, d2, rev_view(e)),
            d0.cursor.x == cursor_x_after(rev_view(e)),
            d0.cursor.y == cursor_y_after(rev_view(e)),
        ensures
            d2.buf() == d0.buf(),
            d2.rest() == d0.rest(),
            d2.cursor == d0.cursor,
    {
        crate::event::lemma_apply_reverse(d0.buf(), e);
        assert(d2.cursor == d0.cursor) by {
            assert(d2.cursor.x == d0.cursor.x);
            assert(d2.cursor.y == d0.cursor.y);
        }
    }

    /// Capture the current buffer content and cursor.
    pub fn take_snapshot(&self) -> (r: Snapshot)
        ensures
            r@ == self.snap(),
    {
        Snapshot {
            lines: self.lines.clone(),
            unloaded: self.unloaded.clone(),
            cursor: self.cursor,
        }
    }

    /// Seal any pending dirty edits into one undo-addressable snapshot.
    /// When to call this is caller policy: a second consecutive call is a
    /// no-op, so many low-level edits collapse into one undo unit.
    pub fn commit(&mut self)
        requires
            old(self).wf(),
        ensures
            final(self).wf(),
            final(self).undo_mgmt@ == commit_step(old(self).undo_mgmt@, old(self).snap()),
            final(self).buf() == old(self).buf(),
            final(self).rest() == old(self).rest(),
            final(self).cursor == old(self).cursor,
            final(self).desired_column == old(self).desired_column,
            final(self).size == old(self).size,
            final(self).file_name == old(self).file_name,
            final(self).read_only == old(self).read_only,
            final(self).modified == old(self).modified,
    {
        let snapshot = self.take_snapshot();
        self.undo_mgmt.commit(snapshot);
    }

    /// Undo one committed unit: pending dirty edits are committed first so
    /// in-progress work is never silently lost; the floor entry is never
    /// popped. Returns whether a prior state was restored.
    pub fn undo(&mut self) -> (r: bool)
        requires
            old(self).wf(),
        ensures
            final(self).wf(),
            final(self).undo_mgmt@ == undo_step(old(self).undo_mgmt@, old(self).snap()),
            r == (undo_result(old(self).undo_mgmt@, old(self).snap()) is Some),
            match undo_result(old(self).undo_mgmt@, old(self).snap()) {
                Option::Some(s) => {
                    &&& final(self).all_lines() == s.lines + s.unloaded
                    &&& final(self).buf().len() == Self::restored_len(
                        s,
                        old(self).buf().len() as int,
                    )
                    &&& final(self).buf() == (s.lines + s.unloaded).take(
                        final(self).buf().len() as int,
                    )
                    &&& final(self).rest() == (s.lines + s.unloaded).skip(
                        final(self).buf().len() as int,
                    )
                    &&& final(self).cursor == s.cursor
                    &&& final(self).desired_column == s.cursor.x
                },
                Option::None => {
                    &&& final(self).buf() == old(self).buf()
                    &&& final(self).rest() == old(self).rest()
                    &&& final(self).cursor == old(self).cursor
                    &&& final(self).desired_column == old(self).desired_column
                },
            },
            final(self).size == old(self).size,
            final(self).file_name == old(self).file_name,
            final(self).read_only == old(self).read_only,
            final(self).modified == old(self).modified,
    {
        let snapshot = self.take_snapshot();
        match self.undo_mgmt.undo(snapshot) {
            Some(restore) => {
                proof {
                    let c = commit_step(old(self).undo_mgmt@, old(self).snap());
                    assert(snap_wf(c.undo[c.undo.len() - 2]));
                }
                self.apply_snapshot(restore);
                true
            }
            None => false,
        }
    }

    /// Redo one undone unit, or report that the redo stack is empty.
    pub fn redo(&mut self) -> (r: bool)
        requires
            old(self).wf(),
        ensures
            final(self).wf(),
            final(self).undo_mgmt@ == redo_step(old(self).undo_mgmt@),
            r == (redo_result(old(self).undo_mgmt@) is Some),
            match redo_result(old(self).undo_mgmt@) {
                Option::Some(s) => {
                    &&& final(self).all_lines() == s.lines + s.unloaded
                    &&& final(self).buf().len() == Self::restored_len(
                        s,
                        old(self).buf().len() as int,
                    )
                    &&& final(self).buf() == (s.lines + s.unloaded).take(
                        final(self).buf().len() as int,
                    )
                    &&& final(self).rest() == (s.lines + s.unloaded).skip(
                        final(self).buf().len() as int,
                    )
                    &&& final(self).cursor == s.cursor
                    &&& final(self).desired_column == s.cursor.x
                },
                Option::None => {
                    &&& final(self).buf() == old(self).buf()
                    &&& final(self).rest() == old(self).rest()
                    &&& final(self).cursor == old(self).cursor
                    &&& final(self).desired_column == old(self).desired_column
                },
            },
            final(self).size == old(self).size,
            final(self).file_name == old(self).file_name,
            final(self).read_only == old(self).read_only,
            final(self).modified == old(self).modified,
    {
        match self.undo_mgmt.redo() {
            Some(restore) => {
                proof {
                    let m = old(self).undo_mgmt@;
                    assert(snap_wf(m.redo[m.redo.len() - 1]));
                }
                self.apply_snapshot(restore);
                true
            }
            None => false,
        }
    }

    /// Record that the document was just written to disk: the on-disk
    /// marker moves to the current undo depth, so the document is at its
    /// on-disk state exactly until the next committed edit.
    pub fn mark_saved(&mut self)
        requires
            old(self).wf(),
        ensures
            final(self).wf(),
            final(self).undo_mgmt@ == saved_step(old(self).undo_mgmt@),
            at_file_view(final(self).undo_mgmt@),
            !final(self).modified,
            final(self).buf() == old(self).buf(),
            final(self).rest() == old(self).rest(),
            final(self).cursor == old(self).cursor,
            final(self).desired_column == old(self).desired_column,
            final(self).size == old(self).size,
            final(self).file_name == old(self).file_name,
            final(self).read_only == old(self).read_only,
    {
        self.undo_mgmt.saved();
        self.modified = false;
    }

    /// Whether the document is currently at its last-saved state, judged
    /// purely by undo-stack depth.
    pub fn at_file(&self) -> (r: bool)
        ensures
            r == at_file_view(self.undo_mgmt@),
    {
        self.undo_mgmt.at_file()
    }

    /// How many lines are resident after restoring a snapshot while a
    /// watermark of `w` lines was resident: residency never shrinks below
    /// the snapshot's own, nor below the watermark, as far as lines exist.
    pub open spec fn restored_len(s: SnapshotView, w: int) -> int {
        if w <= s.lines.len() {
            s.lines.len() as int
        } else if w <= s.lines.len() + s.unloaded.len() {
            w
        } else {
            (s.lines.len() + s.unloaded.len()) as int
        }
    }

    /// Restore a previously captured buffer content and cursor; the loading
    /// watermark is kept, so lines that were already resident stay resident.
    /// The sticky column is reset to the restored cursor's column.
    pub fn apply_snapshot(&mut self, snapshot: Snapshot)
        requires
            old(self).wf(),
            snap_wf(snapshot@),
        ensures
            final(self).wf(),
            final(self).all_lines() == snapshot@.lines + snapshot@.unloaded,
            final(self).buf().len() == Self::restored_len(
                snapshot@,
                old(self).buf().len() as int,
            ),
            final(self).buf() == (snapshot@.lines + snapshot@.unloaded).take(
                final(self).buf().len() as int,
            ),
            final(self).rest() == (snapshot@.lines + snapshot@.unloaded).skip(
                final(self).buf().len() as int,
            ),
            final(self).cursor == snapshot@.cursor,
            final(self).desired_column == snapshot@.cursor.x,
            final(self).undo_mgmt == old(self).undo_mgmt,
            final(self).size == old(self).size,
            final(self).file_name == old(self).file_name,
            final(self).read_only == old(self).read_only,
            final(self).modified == old(self).modified,
    {
        let watermark = self.lines.len();
        self.cursor = snapshot.cursor;
        self.desired_column = snapshot.cursor.x;
        self.lines = snapshot.lines;
        self.unloaded = snapshot.unloaded;
        let ghost mid = *self;
        self.load_to(watermark);
        proof {
            assert(mid.buf() == snapshot@.lines);
            assert(self.buf() =~~= (snapshot@.lines + snapshot@.unloaded).take(
                self.buf().len() as int,
            ));
            assert(self.rest() =~~= (snapshot@.lines + snapshot@.unloaded).skip(
                self.buf().len() as int,
            ));
        }
    }
}

} // verus!
