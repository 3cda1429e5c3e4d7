//! Edit events: the six primitive, reversible buffer mutations, their
//! mathematical semantics on a sequence-of-lines model, and the proof that
//! every event is exactly undone by its reverse.

use vstd::prelude::*;
use crate::utils::Loc;

verus! {

/// Represents an editing event.
/// All possible editing events can be made up of a combination of these events.
#[derive(Debug, PartialEq, Eq)]
pub enum Event {
    Insert(Loc, String),
    Delete(Loc, String),
    InsertLine(usize, String),
    DeleteLine(usize, String),
    SplitDown(Loc),
    SpliceUp(Loc),
}

/// Mathematical form of an event: the text payloads as character sequences.
pub enum EventView {
    Insert(Loc, Seq<char>),
    Delete(Loc, Seq<char>),
    InsertLine(usize, Seq<char>),
    DeleteLine(usize, Seq<char>),
    SplitDown(Loc),
    SpliceUp(Loc),
}

impl View for Event {
    type V = EventView;

    open spec fn view(&self) -> EventView {
        match self {
            Event::Insert(loc, st) => EventView::Insert(*loc, st@),
            Event::Delete(loc, st) => EventView::Delete(*loc, st@),
            Event::InsertLine(y, st) => EventView::InsertLine(*y, st@),
            Event::DeleteLine(y, st) => EventView::DeleteLine(*y, st@),
            Event::SplitDown(loc) => EventView::SplitDown(*loc),
            Event::SpliceUp(loc) => EventView::SpliceUp(*loc),
        }
    }
}

/// The opposite of an event, at the specification level.
pub open spec fn rev_view(e: EventView) -> EventView {
    match e {
        EventView::Insert(loc, st) => EventView::Delete(loc, st),
        EventView::Delete(loc, st) => EventView::Insert(loc, st),
        EventView::InsertLine(y, st) => EventView::DeleteLine(y, st),
        EventView::DeleteLine(y, st) => EventView::InsertLine(y, st),
        EventView::SplitDown(loc) => EventView::SpliceUp(loc),
        EventView::SpliceUp(loc) => EventView::SplitDown(loc),
    }
}

/// The anchor location of an event, at the specification level.
/// Line-level events report the start of the affected line.
pub open spec fn loc_view(e: EventView) -> Loc {
    match e {
        EventView::Insert(loc, _) => loc,
        EventView::Delete(loc, _) => loc,
        EventView::InsertLine(y, _) => Loc { x: 0, y },
        EventView::DeleteLine(y, _) => Loc { x: 0, y },
        EventView::SplitDown(loc) => loc,
        EventView::SpliceUp(loc) => loc,
    }
}

/// Whether an event may be applied to the given lines.
/// A `Delete` must name the exact text it removes, a `DeleteLine` the exact
/// line, and a `SpliceUp` must sit at the end of the upper line, so that every
/// valid event is exactly undone by its reverse.
pub open spec fn event_valid(lines: Seq<Seq<char>>, e: EventView) -> bool {
    match e {
        EventView::Insert(loc, st) => loc.y < lines.len() && loc.x <= lines[loc.y as int].len(),
        EventView::Delete(loc, st) => loc.y < lines.len()
            && loc.x + st.len() <= lines[loc.y as int].len()
            && lines[loc.y as int].subrange(loc.x as int, loc.x + st.len()) == st,
        EventView::InsertLine(y, st) => y <= lines.len(),
        EventView::DeleteLine(y, st) => y < lines.len() && lines[y as int] == st,
        EventView::SplitDown(loc) => loc.y < lines.len() && loc.x <= lines[loc.y as int].len(),
        EventView::SpliceUp(loc) => loc.y + 1 < lines.len() && loc.x == lines[loc.y as int].len(),
    }
}

/// The effect of a valid event on the lines.
pub open spec fn event_apply(lines: Seq<Seq<char>>, e: EventView) -> Seq<Seq<char>>
    recommends
        event_valid(lines, e),
{
    match e {
        EventView::Insert(loc, st) => lines.update(
            loc.y as int,
            lines[loc.y as int].take(loc.x as int) + st + lines[loc.y as int].skip(loc.x as int),
        ),
        EventView::Delete(loc, st) => lines.update(
            loc.y as int,
            lines[loc.y as int].take(loc.x as int) + lines[loc.y as int].skip(loc.x + st.len()),
        ),
        EventView::InsertLine(y, st) => lines.insert(y as int, st),
        EventView::DeleteLine(y, st) => lines.remove(y as int),
        EventView::SplitDown(loc) => lines.update(
            loc.y as int,
            lines[loc.y as int].take(loc.x as int),
        ).insert(loc.y + 1, lines[loc.y as int].skip(loc.x as int)),
        EventView::SpliceUp(loc) => lines.update(
            loc.y as int,
            lines[loc.y as int] + lines[loc.y + 1],
        ).remove(loc.y + 1),
    }
}

/// The column the cursor lands on once the event has been applied.
pub open spec fn cursor_x_after(e: EventView) -> int {
    match e {
        EventView::Insert(loc, st) => loc.x + st.len(),
        EventView::Delete(loc, _) => loc.x as int,
        EventView::InsertLine(_, _) => 0,
        EventView::DeleteLine(_, _) => 0,
        EventView::SplitDown(_) => 0,
        EventView::SpliceUp(loc) => loc.x as int,
    }
}

/// The line the cursor lands on once the event has been applied.
pub open spec fn cursor_y_after(e: EventView) -> int {
    match e {
        EventView::Insert(loc, _) => loc.y as int,
        EventView::Delete(loc, _) => loc.y as int,
        EventView::InsertLine(y, _) => y as int,
        EventView::DeleteLine(y, _) => y as int,
        EventView::SplitDown(loc) => loc.y + 1,
        EventView::SpliceUp(loc) => loc.y as int,
    }
}

impl Clone for Event {
    fn clone(&self) -> (r: Event)
        ensures
            r@ == self@,
    {
        match self {
            Event::Insert(loc, st) => Event::Insert(*loc, st.clone()),
            Event::Delete(loc, st) => Event::Delete(*loc, st.clone()),
            Event::InsertLine(y, st) => Event::InsertLine(*y, st.clone()),
            Event::DeleteLine(y, st) => Event::DeleteLine(*y, st.clone()),
            Event::SplitDown(loc) => Event::SplitDown(*loc),
            Event::SpliceUp(loc) => Event::SpliceUp(*loc),
        }
    }
}

impl Event {
    /// Given an event, provide the opposite of that event (for purposes of undoing).
    #[must_use]
    pub fn reverse(self) -> (r: Event)
        ensures
            r@ == rev_view(self@),
    {
        match self {
            Event::Insert(loc, ch) => Event::Delete(loc, ch),
            Event::Delete(loc, ch) => Event::Insert(loc, ch),
            Event::InsertLine(loc, st) => Event::DeleteLine(loc, st),
            Event::DeleteLine(loc, st) => Event::InsertLine(loc, st),
            Event::SplitDown(loc) => Event::SpliceUp(loc),
            Event::SpliceUp(loc) => Event::SplitDown(loc),
        }
    }

    /// Get the location of an event.
    #[must_use]
    pub fn loc(self) -> (r: Loc)
        ensures
            r == loc_view(self@),
    {
        match self {
            Event::Insert(loc, _) => loc,
            Event::Delete(loc, _) => loc,
            Event::InsertLine(loc, _) => Loc { x: 0, y: loc },
            Event::DeleteLine(loc, _) => Loc { x: 0, y: loc },
            Event::SplitDown(loc) => loc,
            Event::SpliceUp(loc) => loc,
        }
    }
}

/// Reversal is an involution: the reverse of the reverse of an event is the
/// event itself.
pub proof fn lemma_reverse_involution(e: EventView)
    ensures
        rev_view(rev_view(e)) == e,
{
}

/// A valid event, followed by its reverse, is an identity on the lines, and
/// the reverse is itself valid on the intermediate lines. Together with the
/// cursor clause this says an edit is exactly undone by its reverse: the
/// cursor lands back where the reverse's own application semantics put it,
/// which is the natural cursor position just before the original event.
pub proof fn lemma_apply_reverse(lines: Seq<Seq<char>>, e: EventView)
    requires
        event_valid(lines, e),
    ensures
        event_valid(event_apply(lines, e), rev_view(e)),
        event_apply(event_apply(lines, e), rev_view(e)) == lines,
{
    let mid = event_apply(lines, e);
    let back = event_apply(mid, rev_view(e));
    match e {
        EventView::Insert(loc, st) => {
            let y = loc.y as int;
            let x = loc.x as int;
            assert(mid[y].subrange(x, x + st.len()) =~= st);
            assert(back[y] =~= lines[y]);
            assert(back =~~= lines);
        }
        EventView::Delete(loc, st) => {
            let y = loc.y as int;
            let x = loc.x as int;
            assert(back[y] =~= lines[y]);
            assert(back =~~= lines);
        }
        EventView::InsertLine(y, st) => {
            assert(back =~~= lines);
        }
        EventView::DeleteLine(y, st) => {
            assert(back =~~= lines);
        }
        EventView::SplitDown(loc) => {
            let y = loc.y as int;
            let x = loc.x as int;
            // After the split, the reverse splice sits at the end of the
            // upper half and rejoins the two halves.
            assert(mid[y] == lines[y].take(x));
            assert(mid[y + 1] == lines[y].skip(x));
            assert(back[y] =~= lines[y]);
            assert(back =~~= lines);
        }
        EventView::SpliceUp(loc) => {
            let y = loc.y as int;
            let x = loc.x as int;
            assert(mid[y] == lines[y] + lines[y + 1]);
            assert(mid[y].take(x) =~= lines[y]);
            assert(mid[y].skip(x) =~= lines[y + 1]);
            assert(back =~~= lines);
        }
    }
}

/// Represents various statuses of functions.
#[derive(Debug, PartialEq, Eq, Structural)]
pub enum Status {
    StartOfFile,
    EndOfFile,
    StartOfLine,
    EndOfLine,
    Nothing,
}

} // verus!
