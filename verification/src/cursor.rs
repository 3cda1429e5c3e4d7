//! Cursor movement over the resident lines. Horizontal movement updates the
//! sticky column; vertical movement aims for it, clamped to each line's
//! length, so that moving through shorter lines remembers the original
//! target column.

use vstd::prelude::*;
use crate::document::Document;
use crate::event::Status;
use crate::text::line_len;
use crate::utils::Loc;

verus! {

impl Document {
    /// Move the cursor to a location, clamped into the buffer: the line is
    /// clamped to the resident range (the append position included), the
    /// column to the line's length. The requested column becomes the sticky
    /// column.
    pub fn move_to(&mut self, loc: &Loc)
        requires
            old(self).wf(),
        ensures
            final(self).wf(),
            final(self).cursor.y == if loc.y <= old(self).buf().len() {
                loc.y as int
            } else {
                old(self).buf().len() as int
            },
            final(self).cursor.x == if final(self).cursor.y < old(self).buf().len() {
                if loc.x <= old(self).buf()[final(self).cursor.y as int].len() {
                    loc.x as int
                } else {
                    old(self).buf()[final(self).cursor.y as int].len() as int
                }
            } else {
                0
            },
            final(self).desired_column == loc.x,
            *final(self) == (Document {
                cursor: final(self).cursor,
                desired_column: final(self).desired_column,
                ..*old(self)
            }),
    {
        let y = if loc.y <= self.lines.len() {
            loc.y
        } else {
            self.lines.len()
        };
        let x = if y < self.lines.len() {
            let n = line_len(&self.lines[y]);
            if loc.x <= n {
                loc.x
            } else {
                n
            }
        } else {
            0
        };
        self.cursor = Loc { x, y };
        self.desired_column = loc.x;
    }

    /// Move the cursor up one line, aiming for the sticky column. At the
    /// first line nothing moves and `StartOfFile` is reported.
    pub fn move_up(&mut self) -> (r: Status)
        requires
            old(self).wf(),
        ensures
            final(self).wf(),
            old(self).cursor.y == 0 ==> r == Status::StartOfFile && *final(self) == *old(self),
            old(self).cursor.y > 0 ==> {
                &&& r == Status::Nothing
                &&& final(self).cursor.y == old(self).cursor.y - 1
                &&& final(self).cursor.x == if old(self).desired_column <= old(self).buf()[
                    old(self).cursor.y - 1
                ].len() {
                    old(self).desired_column as int
                } else {
                    old(self).buf()[old(self).cursor.y - 1].len() as int
                }
                &&& *final(self) == (Document { cursor: final(self).cursor, ..*old(self) })
            },
    {
        if self.cursor.y == 0 {
            return Status::StartOfFile;
        }
        let y = self.cursor.y - 1;
        let n = line_len(&self.lines[y]);
        let x = if self.desired_column <= n {
            self.desired_column
        } else {
            n
        };
        self.cursor = Loc { x, y };
        Status::Nothing
    }

    /// Move the cursor down one line, aiming for the sticky column; one
    /// step below the last resident line is the append position. At the
    /// bottom nothing moves and `EndOfFile` is reported.
    pub fn move_down(&mut self) -> (r: Status)
        requires
            old(self).wf(),
        ensures
            final(self).wf(),
            old(self).cursor.y >= old(self).buf().len()
                ==> r == Status::EndOfFile && *final(self) == *old(self),
            old(self).cursor.y < old(self).buf().len() ==> {
                &&& r == Status::Nothing
                &&& final(self).cursor.y == old(self).cursor.y + 1
                &&& final(self).cursor.x == if old(self).cursor.y + 1 < old(self).buf().len() {
                    if old(self).desired_column <= old(self).buf()[old(self).cursor.y + 1].len() {
                        old(self).desired_column as int
                    } else {
                        old(self).buf()[old(self).cursor.y + 1].len() as int
                    }
                } else {
                    0
                }
                &&& *final(self) == (Document { cursor: final(self).cursor, ..*old(self) })
            },
    {
        if self.cursor.y >= self.lines.len() {
            return Status::EndOfFile;
        }
        let y = self.cursor.y + 1;
        let x = if y < self.lines.len() {
            let n = line_len(&self.lines[y]);
            if self.desired_column <= n {
                self.desired_column
            } else {
                n
            }
        } else {
            0
        };
        self.cursor = Loc { x, y };
        Status::Nothing
    }

    /// Move the cursor one character left within the line, or report
    /// `StartOfLine`. The new column becomes the sticky column.
    pub fn move_left(&mut self) -> (r: Status)
        requires
            old(self).wf(),
        ensures
            final(self).wf(),
            old(self).cursor.x == 0 ==> r == Status::StartOfLine && *final(self) == *old(self),
            old(self).cursor.x > 0 ==> {
                &&& r == Status::Nothing
                &&& final(self).cursor.x == old(self).cursor.x - 1
                &&& final(self).cursor.y == old(self).cursor.y
                &&& final(self).desired_column == final(self).cursor.x
                &&& *final(self) == (Document {
                    cursor: final(self).cursor,
                    desired_column: final(self).desired_column,
                    ..*old(self)
                })
            },
    {
        if self.cursor.x == 0 {
            return Status::StartOfLine;
        }
        let x = self.cursor.x - 1;
        self.cursor = Loc { x, y: self.cursor.y };
        self.desired_column = x;
        Status::Nothing
    }

    /// Move the cursor one character right within the line, or report
    /// `EndOfLine` (also at the append position). The new column becomes
    /// the sticky column.
    pub fn move_right(&mut self) -> (r: Status)
        requires
            old(self).wf(),
        ensures
            final(self).wf(),
            old(self).cursor.y >= old(self).buf().len()
                ==> r == Status::EndOfLine && *final(self) == *old(self),
            old(self).cursor.y < old(self).buf().len() && old(self).cursor.x == old(self).buf()[
                old(self).cursor.y as int
            ].len() ==> r == Status::EndOfLine && *final(self) == *old(self),
            old(self).cursor.y < old(self).buf().len() && old(self).cursor.x < old(self).buf()[
                old(self).cursor.y as int
            ].len() ==> {
                &&& r == Status::Nothing
                &&& final(self).cursor.x == old(self).cursor.x + 1
                &&& final(self).cursor.y == old(self).cursor.y
                &&& final(self).desired_column == final(self).cursor.x
                &&& *final(self) == (Document {
                    cursor: final(self).cursor,
                    desired_column: final(self).desired_column,
                    ..*old(self)
                })
            },
    {
        if self.cursor.y >= self.lines.len() {
            return Status::EndOfLine;
        }
        let n = line_len(&self.lines[self.cursor.y]);
        if self.cursor.x >= n {
            return Status::EndOfLine;
        }
        let x = self.cursor.x + 1;
        self.cursor = Loc { x, y: self.cursor.y };
        self.desired_column = x;
        Status::Nothing
    }

    /// Move the cursor to the start of the current line.
    pub fn move_home(&mut self)
        requires
            old(self).wf(),
        ensures
            final(self).wf(),
            final(self).cursor.x == 0,
            final(self).cursor.y == old(self).cursor.y,
            final(self).desired_column == 0,
            *final(self) == (Document {
                cursor: final(self).cursor,
                desired_column: 0,
                ..*old(self)
            }),
    {
        self.cursor = Loc { x: 0, y: self.cursor.y };
        self.desired_column = 0;
    }

    /// Move the cursor to the end of the current line (a no-op at the
    /// append position).
    pub fn move_end(&mut self)
        requires
            old(self).wf(),
        ensures
            final(self).wf(),
            final(self).cursor.y == old(self).cursor.y,
            final(self).cursor.x == if old(self).cursor.y < old(self).buf().len() {
                old(self).buf()[old(self).cursor.y as int].len() as int
            } else {
                0
            },
            final(self).desired_column == final(self).cursor.x,
            *final(self) == (Document {
                cursor: final(self).cursor,
                desired_column: final(self).desired_column,
                ..*old(self)
            }),
    {
        if self.cursor.y < self.lines.len() {
            let n = line_len(&self.lines[self.cursor.y]);
            self.cursor = Loc { x: n, y: self.cursor.y };
            self.desired_column = n;
        } else {
            self.cursor = Loc { x: 0, y: self.cursor.y };
            self.desired_column = 0;
        }
    }

    /// Move the cursor to the very start of the document.
    pub fn move_top(&mut self)
        requires
            old(self).wf(),
        ensures
            final(self).wf(),
            final(self).cursor == (Loc { x: 0, y: 0 }),
            final(self).desired_column == 0,
            *final(self) == (Document {
                cursor: final(self).cursor,
                desired_column: 0,
                ..*old(self)
            }),
    {
        self.cursor = Loc { x: 0, y: 0 };
        self.desired_column = 0;
    }

    /// Move the cursor to the append position below the last resident line.
    pub fn move_bottom(&mut self)
        requires
            old(self).wf(),
        ensures
            final(self).wf(),
            final(self).cursor == (Loc { x: 0, y: old(self).buf().len() as usize }),
            final(self).desired_column == 0,
            *final(self) == (Document {
                cursor: final(self).cursor,
                desired_column: 0,
                ..*old(self)
            }),
    {
        self.cursor = Loc { x: 0, y: self.lines.len() };
        self.desired_column = 0;
    }
}

} // verus!
