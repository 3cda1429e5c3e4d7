//! Higher-level editing actions. Each computes the primitive events for one
//! user-visible edit and routes them through `exe`, so undo, redo and
//! tokenizer notifications stay consistent, and each returns the collected
//! notifications for the caller's tokenizer.

use vstd::prelude::*;
use crate::document::Document;
use crate::error::Error;
use crate::event::Event;
use crate::event::EventView;
use crate::event::event_apply;
use crate::highlight::LineChange;
use crate::highlight::changes_apply;
use crate::highlight::changes_valid;
use crate::highlight::lemma_changes_concat;
use crate::text::line_len;
use crate::text::line_sub;
use crate::undo::commit_step;
use crate::undo::set_dirty_step;
use crate::utils::Loc;

verus! {

impl Document {
    /// Whether the cursor sits on the append position of a fully loaded
    /// document, so that typing there first needs a fresh empty row.
    pub open spec fn needs_new_row(self) -> bool {
        self.cursor.y == self.all_lines().len()
    }

    /// Insert an empty row at the bottom of the document if the cursor is
    /// on it; otherwise do nothing.
    pub fn new_row(&mut self) -> (r: Result<Vec<LineChange>, Error>)
        requires
            old(self).wf(),
        ensures
            final(self).wf(),
            r is Ok <==> (!old(self).needs_new_row() || old(self).exe_ok(
                EventView::InsertLine(old(self).cursor.y, Seq::empty()),
            )),
            match r {
                Ok(changes) => {
                    &&& if old(self).needs_new_row() {
                        Self::exe_effect(
                            *old(self),
                            *final(self),
                            EventView::InsertLine(old(self).cursor.y, Seq::empty()),
                        )
                    } else {
                        *final(self) == *old(self)
                    }
                    &&& changes_valid(old(self).buf(), changes.deep_view())
                    &&& changes_apply(old(self).buf(), changes.deep_view()) == final(self).buf()
                },
                Err(e) => {
                    &&& *final(self) == *old(self)
                    &&& e == if old(self).read_only {
                        Error::ReadOnlyFile
                    } else {
                        Error::OutOfRange
                    }
                },
            },
    {
        if self.cursor.y == self.len_lines() {
            self.exe(Event::InsertLine(self.cursor.y, String::new()))
        } else {
            let changes: Vec<LineChange> = Vec::new();
            proof {
                assert(changes.deep_view() =~= Seq::empty());
            }
            Ok(changes)
        }
    }

    /// The insertion event a typed character produces: one character at the
    /// cursor.
    pub open spec fn character_event(self, ch: char) -> EventView {
        EventView::Insert(self.cursor, seq![ch])
    }

    /// Exactly when typing a character succeeds: the document is writable
    /// and the cursor is on a resident line, or on the append position of a
    /// fully loaded document with room to grow.
    pub open spec fn character_ok(self, ch: char) -> bool {
        &&& !self.read_only
        &&& (self.cursor.y < self.buf().len() || (self.needs_new_row()
            && self.all_lines().len() < usize::MAX))
    }

    /// Type one character at the cursor, creating a new row first if the
    /// cursor is on the bottom append position. A space also seals the
    /// pending edits into one undo unit, so an undo removes the word typed
    /// last.
    pub fn character(&mut self, ch: char) -> (r: Result<Vec<LineChange>, Error>)
        requires
            old(self).wf(),
        ensures
            final(self).wf(),
            r is Ok <==> old(self).character_ok(ch),
            match r {
                Ok(changes) => {
                    &&& final(self).buf() == event_apply(
                        if old(self).needs_new_row() {
                            old(self).buf().push(Seq::empty())
                        } else {
                            old(self).buf()
                        },
                        old(self).character_event(ch),
                    )
                    &&& final(self).rest() == old(self).rest()
                    &&& final(self).cursor.x == old(self).cursor.x + 1
                    &&& final(self).cursor.y == old(self).cursor.y
                    &&& final(self).desired_column == final(self).cursor.x
                    &&& final(self).undo_mgmt@ == if ch == ' ' {
                        commit_step(
                            set_dirty_step(old(self).undo_mgmt@),
                            final(self).snap(),
                        )
                    } else {
                        set_dirty_step(old(self).undo_mgmt@)
                    }
                    &&& final(self).modified
                    &&& final(self).size == old(self).size
                    &&& final(self).file_name == old(self).file_name
                    &&& final(self).read_only == old(self).read_only
                    &&& changes_valid(old(self).buf(), changes.deep_view())
                    &&& changes_apply(old(self).buf(), changes.deep_view()) == final(self).buf()
                },
                Err(e) => {
                    &&& *final(self) == *old(self)
                    &&& e == if old(self).read_only {
                        Error::ReadOnlyFile
                    } else {
                        Error::OutOfRange
                    }
                },
            },
    {
        let ghost buf0 = self.buf();
        let mut changes = match self.new_row() {
            Ok(cs) => cs,
            Err(e) => {
                return Err(e);
            }
        };
        let ghost mid = *self;
        let loc = self.cursor;
        let mut text = String::new();
        crate::text::push_char(&mut text, ch);
        proof {
            assert(text@ =~= seq![ch]);
        }
        match self.exe(Event::Insert(loc, text)) {
            Ok(mut cs) => {
                let ghost cs1 = changes.deep_view();
                let ghost cs2 = cs.deep_view();
                changes.append(&mut cs);
                proof {
                    assert(changes.deep_view() =~= cs1 + cs2);
                    lemma_changes_concat(buf0, cs1, cs2);
                }
                if ch == ' ' {
                    self.commit();
                }
                Ok(changes)
            }
            Err(e) => {
                proof {
                    // a failed insert on a writable document means the
                    // cursor was past the resident lines
                    if !mid.read_only {
                        assert(mid.cursor.x <= mid.buf()[mid.cursor.y as int].len()
                            || mid.cursor.y >= mid.buf().len());
                        assert(mid.cursor.y >= mid.buf().len());
                    }
                    if old(self).needs_new_row() {
                        // new_row succeeded, so the document was writable
                        // and the fresh empty row makes the insert valid:
                        // this path cannot be reached
                        assert(!mid.read_only);
                        assert(mid.cursor.y == old(self).cursor.y);
                        assert(mid.buf().len() == old(self).buf().len() + 1);
                        assert(mid.cursor.y < mid.buf().len());
                        assert(false);
                    }
                }
                Err(e)
            }
        }
    }

    /// The event a line-break at the cursor produces: a fresh bottom row on
    /// the append position, a split anywhere else.
    pub open spec fn enter_event(self) -> EventView {
        if self.needs_new_row() {
            EventView::InsertLine(self.cursor.y, Seq::empty())
        } else {
            EventView::SplitDown(self.cursor)
        }
    }

    /// Exactly when a line-break succeeds.
    pub open spec fn enter_ok(self) -> bool {
        &&& !self.read_only
        &&& (self.cursor.y < self.buf().len() || self.needs_new_row())
        &&& self.all_lines().len() < usize::MAX
    }

    /// Break the line at the cursor. A line-break is a meaningful undo
    /// boundary, so pending edits are sealed into an undo unit first — also
    /// when the break itself is then refused.
    pub fn enter(&mut self) -> (r: Result<Vec<LineChange>, Error>)
        requires
            old(self).wf(),
        ensures
            final(self).wf(),
            r is Ok <==> old(self).enter_ok(),
            final(self).undo_mgmt@ == if r is Ok {
                set_dirty_step(commit_step(old(self).undo_mgmt@, old(self).snap()))
            } else {
                commit_step(old(self).undo_mgmt@, old(self).snap())
            },
            match r {
                Ok(changes) => {
                    &&& final(self).buf() == event_apply(old(self).buf(), old(self).enter_event())
                    &&& final(self).rest() == old(self).rest()
                    &&& final(self).cursor.x == crate::event::cursor_x_after(
                        old(self).enter_event(),
                    )
                    &&& final(self).cursor.y == crate::event::cursor_y_after(
                        old(self).enter_event(),
                    )
                    &&& final(self).desired_column == final(self).cursor.x
                    &&& final(self).modified
                    &&& final(self).size == old(self).size
                    &&& final(self).file_name == old(self).file_name
                    &&& final(self).read_only == old(self).read_only
                    &&& changes_valid(old(self).buf(), changes.deep_view())
                    &&& changes_apply(old(self).buf(), changes.deep_view()) == final(self).buf()
                },
                Err(e) => {
                    &&& final(self).buf() == old(self).buf()
                    &&& final(self).rest() == old(self).rest()
                    &&& final(self).cursor == old(self).cursor
                    &&& final(self).desired_column == old(self).desired_column
                    &&& final(self).modified == old(self).modified
                    &&& final(self).size == old(self).size
                    &&& final(self).file_name == old(self).file_name
                    &&& final(self).read_only == old(self).read_only
                    &&& e == if old(self).read_only {
                        Error::ReadOnlyFile
                    } else {
                        Error::OutOfRange
                    }
                },
            },
    {
        self.commit();
        if self.cursor.y == self.len_lines() {
            self.new_row()
        } else {
            self.exe(Event::SplitDown(self.cursor))
        }
    }

    /// The event a backspace at the cursor produces: at a line start, the
    /// line is spliced onto the one above at its end; within a line, the
    /// character before the cursor is deleted; at the top of the document
    /// or off the resident lines, nothing.
    pub open spec fn backspace_event(self) -> Option<EventView> {
        if self.cursor.x == 0 && 0 < self.cursor.y < self.buf().len() {
            Option::Some(
                EventView::SpliceUp(
                    Loc {
                        x: self.buf()[self.cursor.y - 1].len() as usize,
                        y: (self.cursor.y - 1) as usize,
                    },
                ),
            )
        } else if self.cursor.x > 0 && self.cursor.y < self.buf().len() {
            Option::Some(
                EventView::Delete(
                    Loc { x: (self.cursor.x - 1) as usize, y: self.cursor.y },
                    seq![self.buf()[self.cursor.y as int][self.cursor.x - 1]],
                ),
            )
        } else {
            Option::None
        }
    }

    /// Backspace at the cursor.
    pub fn backspace(&mut self) -> (r: Result<Vec<LineChange>, Error>)
        requires
            old(self).wf(),
        ensures
            final(self).wf(),
            r is Ok <==> (old(self).backspace_event() is None || !old(self).read_only),
            match r {
                Ok(changes) => {
                    &&& match old(self).backspace_event() {
                        Option::Some(e) => Self::exe_effect(*old(self), *final(self), e),
                        Option::None => *final(self) == *old(self),
                    }
                    &&& changes_valid(old(self).buf(), changes.deep_view())
                    &&& changes_apply(old(self).buf(), changes.deep_view()) == final(self).buf()
                },
                Err(e) => {
                    &&& *final(self) == *old(self)
                    &&& e == Error::ReadOnlyFile
                },
            },
    {
        if self.cursor.x == 0 {
            if self.cursor.y == 0 || self.cursor.y >= self.lines.len() {
                let changes: Vec<LineChange> = Vec::new();
                proof {
                    assert(changes.deep_view() =~= Seq::empty());
                }
                return Ok(changes);
            }
            let y = self.cursor.y - 1;
            let n = line_len(&self.lines[y]);
            self.exe(Event::SpliceUp(Loc { x: n, y }))
        } else {
            if self.cursor.y >= self.lines.len() {
                let changes: Vec<LineChange> = Vec::new();
                proof {
                    assert(changes.deep_view() =~= Seq::empty());
                }
                return Ok(changes);
            }
            let y = self.cursor.y;
            let x = self.cursor.x - 1;
            let ch = line_sub(&self.lines[y], x, 1);
            proof {
                assert(ch@ =~= seq![old(self).buf()[y as int][x as int]]);
            }
            self.exe(Event::Delete(Loc { x, y }, ch))
        }
    }

    /// The event a delete-in-place at the cursor produces: the character
    /// under the cursor is deleted, or nothing at a line end or off the
    /// resident lines.
    pub open spec fn delete_event(self) -> Option<EventView> {
        if self.cursor.y < self.buf().len() && self.cursor.x < self.buf()[
            self.cursor.y as int
        ].len() {
            Option::Some(
                EventView::Delete(
                    self.cursor,
                    seq![self.buf()[self.cursor.y as int][self.cursor.x as int]],
                ),
            )
        } else {
            Option::None
        }
    }

    /// Delete the character under the cursor, in place.
    pub fn delete(&mut self) -> (r: Result<Vec<LineChange>, Error>)
        requires
            old(self).wf(),
        ensures
            final(self).wf(),
            r is Ok <==> (old(self).delete_event() is None || !old(self).read_only),
            match r {
                Ok(changes) => {
                    &&& match old(self).delete_event() {
                        Option::Some(e) => Self::exe_effect(*old(self), *final(self), e),
                        Option::None => *final(self) == *old(self),
                    }
                    &&& changes_valid(old(self).buf(), changes.deep_view())
                    &&& changes_apply(old(self).buf(), changes.deep_view()) == final(self).buf()
                },
                Err(e) => {
                    &&& *final(self) == *old(self)
                    &&& e == Error::ReadOnlyFile
                },
            },
    {
        if self.cursor.y >= self.lines.len() {
            let changes: Vec<LineChange> = Vec::new();
            proof {
                assert(changes.deep_view() =~= Seq::empty());
            }
            return Ok(changes);
        }
        let y = self.cursor.y;
        let x = self.cursor.x;
        let n = line_len(&self.lines[y]);
        if x >= n {
            let changes: Vec<LineChange> = Vec::new();
            proof {
                assert(changes.deep_view() =~= Seq::empty());
            }
            return Ok(changes);
        }
        let ch = line_sub(&self.lines[y], x, 1);
        proof {
            assert(ch@ =~= seq![old(self).buf()[y as int][x as int]]);
        }
        self.exe(Event::Delete(Loc { x, y }, ch))
    }

    /// The event deleting the cursor's line produces, or nothing when the
    /// cursor is off the resident lines.
    pub open spec fn delete_line_event(self) -> Option<EventView> {
        if self.cursor.y < self.buf().len() {
            Option::Some(
                EventView::DeleteLine(self.cursor.y, self.buf()[self.cursor.y as int]),
            )
        } else {
            Option::None
        }
    }

    /// Delete the line the cursor is on. A destructive operation is a
    /// meaningful undo boundary, so pending edits are sealed into an undo
    /// unit first — also when the deletion itself is then refused.
    pub fn delete_line(&mut self) -> (r: Result<Vec<LineChange>, Error>)
        requires
            old(self).wf(),
        ensures
            final(self).wf(),
            r is Ok <==> (old(self).delete_line_event() is None || !old(self).read_only),
            final(self).undo_mgmt@ == if r is Ok && old(self).delete_line_event() is Some {
                set_dirty_step(commit_step(old(self).undo_mgmt@, old(self).snap()))
            } else {
                commit_step(old(self).undo_mgmt@, old(self).snap())
            },
            match r {
                Ok(changes) => {
                    &&& match old(self).delete_line_event() {
                        Option::Some(e) => {
                            &&& final(self).buf() == event_apply(old(self).buf(), e)
                            &&& final(self).rest() == old(self).rest()
                            &&& final(self).cursor.x == crate::event::cursor_x_after(e)
                            &&& final(self).cursor.y == crate::event::cursor_y_after(e)
                            &&& final(self).desired_column == final(self).cursor.x
                            &&& final(self).modified
                        },
                        Option::None => {
                            &&& final(self).buf() == old(self).buf()
                            &&& final(self).rest() == old(self).rest()
                            &&& final(self).cursor == old(self).cursor
                            &&& final(self).desired_column == old(self).desired_column
                            &&& final(self).modified == old(self).modified
                        },
                    }
                    &&& final(self).size == old(self).size
                    &&& final(self).file_name == old(self).file_name
                    &&& final(self).read_only == old(self).read_only
                    &&& changes_valid(old(self).buf(), changes.deep_view())
                    &&& changes_apply(old(self).buf(), changes.deep_view()) == final(self).buf()
                },
                Err(e) => {
                    &&& final(self).buf() == old(self).buf()
                    &&& final(self).rest() == old(self).rest()
                    &&& final(self).cursor == old(self).cursor
                    &&& final(self).desired_column == old(self).desired_column
                    &&& final(self).modified == old(self).modified
                    &&& final(self).size == old(self).size
                    &&& final(self).file_name == old(self).file_name
                    &&& final(self).read_only == old(self).read_only
                    &&& e == Error::ReadOnlyFile
                },
            },
    {
        self.commit();
        if self.cursor.y >= self.lines.len() {
            let changes: Vec<LineChange> = Vec::new();
            proof {
                assert(changes.deep_view() =~= Seq::empty());
            }
            return Ok(changes);
        }
        let y = self.cursor.y;
        let line = self.lines[y].clone();
        self.exe(Event::DeleteLine(y, line))
    }
}

} // verus!
