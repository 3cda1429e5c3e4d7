//! The synchronization contract between the buffer and an external
//! incremental tokenizer. Every mutation is translated into line-keyed
//! notifications — append, edit, insert or remove of a single line — and the
//! engine proves that replaying those notifications on a mirror of the
//! resident lines yields exactly the buffer's new resident lines, so a
//! tokenizer never needs to rescan the document.

use vstd::prelude::*;

verus! {

/// One notification to an external line-indexed tokenizer.
#[derive(Debug, PartialEq, Eq)]
pub enum LineChange {
    /// A line was appended after the last resident line.
    Append(String),
    /// The line at this index now reads as given.
    Edit(usize, String),
    /// A new line was inserted at this index; lines below shifted down.
    InsertLine(usize, String),
    /// The line at this index was removed; lines below shifted up.
    RemoveLine(usize),
}

/// Mathematical form of a notification.
pub enum LineChangeView {
    Append(Seq<char>),
    Edit(usize, Seq<char>),
    InsertLine(usize, Seq<char>),
    RemoveLine(usize),
}

impl Clone for LineChange {
    fn clone(&self) -> (r: LineChange)
        ensures
            r@ == self@,
    {
        match self {
            LineChange::Append(st) => LineChange::Append(st.clone()),
            LineChange::Edit(y, st) => LineChange::Edit(*y, st.clone()),
            LineChange::InsertLine(y, st) => LineChange::InsertLine(*y, st.clone()),
            LineChange::RemoveLine(y) => LineChange::RemoveLine(*y),
        }
    }
}

impl View for LineChange {
    type V = LineChangeView;

    open spec fn view(&self) -> LineChangeView {
        match self {
            LineChange::Append(st) => LineChangeView::Append(st@),
            LineChange::Edit(y, st) => LineChangeView::Edit(*y, st@),
            LineChange::InsertLine(y, st) => LineChangeView::InsertLine(*y, st@),
            LineChange::RemoveLine(y) => LineChangeView::RemoveLine(*y),
        }
    }
}

impl DeepView for LineChange {
    type V = LineChangeView;

    open spec fn deep_view(&self) -> LineChangeView {
        self.view()
    }
}

/// Whether a notification is in range for a tokenizer mirroring this model.
pub open spec fn change_valid(model: Seq<Seq<char>>, c: LineChangeView) -> bool {
    match c {
        LineChangeView::Append(_) => true,
        LineChangeView::Edit(y, _) => y < model.len(),
        LineChangeView::InsertLine(y, _) => y <= model.len(),
        LineChangeView::RemoveLine(y) => y < model.len(),
    }
}

/// The effect of one notification on a tokenizer's mirror of the lines.
pub open spec fn change_apply(model: Seq<Seq<char>>, c: LineChangeView) -> Seq<Seq<char>>
    recommends
        change_valid(model, c),
{
    match c {
        LineChangeView::Append(st) => model.push(st),
        LineChangeView::Edit(y, st) => model.update(y as int, st),
        LineChangeView::InsertLine(y, st) => model.insert(y as int, st),
        LineChangeView::RemoveLine(y) => model.remove(y as int),
    }
}

/// Whether a whole notification sequence stays in range, applied in order.
pub open spec fn changes_valid(model: Seq<Seq<char>>, cs: Seq<LineChangeView>) -> bool
    decreases cs.len(),
{
    cs.len() == 0 || (change_valid(model, cs[0]) && changes_valid(
        change_apply(model, cs[0]),
        cs.skip(1),
    ))
}

/// The effect of a whole notification sequence, applied in order.
pub open spec fn changes_apply(model: Seq<Seq<char>>, cs: Seq<LineChangeView>) -> Seq<
    Seq<char>,
>
    decreases cs.len(),
{
    if cs.len() == 0 {
        model
    } else {
        changes_apply(change_apply(model, cs[0]), cs.skip(1))
    }
}

/// Replaying a single notification.
pub proof fn lemma_changes_one(model: Seq<Seq<char>>, c0: LineChangeView)
    ensures
        changes_valid(model, seq![c0]) == change_valid(model, c0),
        changes_apply(model, seq![c0]) == change_apply(model, c0),
{
    let cs = seq![c0];
    assert(cs.skip(1) =~= Seq::<LineChangeView>::empty());
    assert(cs[0] == c0);
    assert(changes_valid(change_apply(model, c0), Seq::<LineChangeView>::empty()));
    assert(changes_apply(change_apply(model, c0), Seq::<LineChangeView>::empty())
        == change_apply(model, c0));
}

/// Replaying two notifications in order.
pub proof fn lemma_changes_two(model: Seq<Seq<char>>, c0: LineChangeView, c1: LineChangeView)
    ensures
        changes_valid(model, seq![c0, c1]) == (change_valid(model, c0) && change_valid(
            change_apply(model, c0),
            c1,
        )),
        changes_apply(model, seq![c0, c1]) == change_apply(change_apply(model, c0), c1),
{
    assert(seq![c0, c1].skip(1) =~= seq![c1]);
    assert(seq![c0, c1][0] == c0);
    lemma_changes_one(change_apply(model, c0), c1);
}

/// Replaying one notification sequence after another.
pub proof fn lemma_changes_concat(
    model: Seq<Seq<char>>,
    cs1: Seq<LineChangeView>,
    cs2: Seq<LineChangeView>,
)
    requires
        changes_valid(model, cs1),
        changes_valid(changes_apply(model, cs1), cs2),
    ensures
        changes_valid(model, cs1 + cs2),
        changes_apply(model, cs1 + cs2) == changes_apply(changes_apply(model, cs1), cs2),
    decreases cs1.len(),
{
    if cs1.len() == 0 {
        assert(cs1 + cs2 =~= cs2);
    } else {
        assert((cs1 + cs2)[0] == cs1[0]);
        assert((cs1 + cs2).skip(1) =~= cs1.skip(1) + cs2);
        lemma_changes_concat(change_apply(model, cs1[0]), cs1.skip(1), cs2);
    }
}

} // verus!
