//! Replace: a guarded single replacement that re-validates its match before
//! touching the buffer, and a whole-document replace-all, as one undo unit.
//! Replace-all re-derives each next match against the already-mutated line,
//! resuming far enough back after every replacement to catch matches that
//! arise where inserted text meets remaining text; wherever that scan has a
//! provable termination measure, the contract also says that the target
//! occurs nowhere afterwards.

use vstd::prelude::*;
use vstd::string::StringExecFns;
use crate::document::Document;
use crate::error::Error;
use crate::event::Event;
use crate::highlight::LineChange;
use crate::highlight::changes_apply;
use crate::highlight::changes_valid;
use crate::highlight::lemma_changes_concat;
use crate::search::occurs;
use crate::search::occurs_at;
use crate::text::line_len;
use crate::text::line_sub;
use crate::undo::commit_step;
use crate::undo::set_dirty_step;
use crate::utils::Loc;

verus! {

/// One line after replacing every occurrence of `t` by `i` in a single left
/// to right pass that resumes after each inserted text, so that replacements
/// never overlap and adjacent occurrences are each replaced. Occurrences
/// that arise where inserted text meets remaining text are not revisited.
pub open spec fn replace_line(s: Seq<char>, t: Seq<char>, i: Seq<char>) -> Seq<char>
    decreases s.len(),
{
    if t.len() == 0 || s.len() < t.len() {
        s
    } else if s.subrange(0, t.len() as int) == t {
        i + replace_line(s.skip(t.len() as int), t, i)
    } else {
        seq![s[0]] + replace_line(s.skip(1), t, i)
    }
}

/// One line after the re-deriving scan from position `r`, used when the
/// replacement is shorter than the target: after each replacement the scan
/// resumes a target-length back, so occurrences created at the seams are
/// found too, and none survives. The scan terminates because every
/// replacement shortens the line. (For other shapes this is the line
/// unchanged; `processed_line` picks the pass that applies.)
pub open spec fn rewrite_from(s: Seq<char>, r: int, t: Seq<char>, i: Seq<char>) -> Seq<char>
    decreases s.len(), s.len() - r,
{
    if t.len() == 0 || i.len() >= t.len() || r < 0 || r + t.len() > s.len() {
        s
    } else if s.subrange(r, r + t.len()) == t {
        rewrite_from(
            s.subrange(0, r) + i + s.subrange(r + t.len(), s.len() as int),
            if r >= t.len() - 1 {
                r - (t.len() - 1)
            } else {
                0
            },
            t,
            i,
        )
    } else {
        rewrite_from(s, r + 1, t, i)
    }
}

/// One line after replace-all: the re-deriving scan where the replacement
/// shrinks the line, the single pass otherwise.
pub open spec fn processed_line(s: Seq<char>, t: Seq<char>, i: Seq<char>) -> Seq<char> {
    if t.len() > 0 && i.len() < t.len() {
        rewrite_from(s, 0, t, i)
    } else {
        replace_line(s, t, i)
    }
}

/// A whole buffer after replace-all.
pub open spec fn replace_all_lines(
    lines: Seq<Seq<char>>,
    t: Seq<char>,
    i: Seq<char>,
) -> Seq<Seq<char>> {
    Seq::new(lines.len(), |y: int| processed_line(lines[y], t, i))
}

/// Some occurrence of `t` starts somewhere in the line.
pub open spec fn line_has_match(s: Seq<char>, t: Seq<char>) -> bool {
    exists|x: int|
        #![trigger s.subrange(x, x + t.len())]
        0 <= x && x + t.len() <= s.len() && s.subrange(x, x + t.len()) == t
}

/// The shapes for which replace-all provably leaves no occurrence behind:
/// a replacement shorter than the target (the re-deriving scan terminates
/// and revisits every seam), or a single-character target whose replacement
/// does not contain it (no occurrence can span a seam). A replacement at
/// least as long as a target of two or more characters can recreate the
/// target at a seam for ever — replacing `ab` by `bbaa` turns a line of the
/// shape b^2k a a b a^2k into b^(2k+2) a a b a^(2k+2), so no loop that
/// chases every remaining occurrence can terminate on it — and there
/// replace-all performs the single pass instead.
pub open spec fn replacement_exhaustive(t: Seq<char>, i: Seq<char>) -> bool {
    i.len() < t.len() || (t.len() == 1 && !line_has_match(i, t))
}

impl Document {
    /// Replace `target` by `into` at a location, first re-validating that
    /// `target` still matches the buffer there — a stale match after
    /// intervening edits fails with `OutOfRange` without mutating anything.
    /// On success the cursor lands after the inserted text.
    pub fn replace(&mut self, loc: Loc, target: &str, into: &str) -> (r: Result<
        Vec<LineChange>,
        Error,
    >)
        requires
            old(self).wf(),
        ensures
            final(self).wf(),
            r is Ok <==> (!old(self).read_only && occurs_at(old(self).buf(), loc, target@)),
            match r {
                Ok(changes) => {
                    &&& final(self).buf() == old(self).buf().update(
                        loc.y as int,
                        old(self).buf()[loc.y as int].take(loc.x as int) + into@ + old(
                            self,
                        ).buf()[loc.y as int].skip(loc.x + target@.len()),
                    )
                    &&& final(self).rest() == old(self).rest()
                    &&& final(self).cursor.x == loc.x + into@.len()
                    &&& final(self).cursor.y == loc.y
                    &&& final(self).desired_column == final(self).cursor.x
                    &&& final(self).undo_mgmt@ == set_dirty_step(old(self).undo_mgmt@)
                    &&& final(self).modified
                    &&& final(self).size == old(self).size
                    &&& final(self).file_name == old(self).file_name
                    &&& final(self).read_only == old(self).read_only
                    &&& changes_valid(old(self).buf(), changes.deep_view())
                    &&& changes_apply(old(self).buf(), changes.deep_view()) == final(self).buf()
                },
                Err(e) => {
                    &&& *final(self) == *old(self)
                    &&& e == if old(self).read_only {
                        Error::ReadOnlyFile
                    } else {
                        Error::OutOfRange
                    }
                },
            },
    {
        if self.read_only {
            return Err(Error::ReadOnlyFile);
        }
        if loc.y >= self.lines.len() {
            return Err(Error::OutOfRange);
        }
        let t = String::from_str(target);
        let tlen = line_len(&t);
        let llen = line_len(&self.lines[loc.y]);
        if loc.x > llen || tlen > llen - loc.x {
            return Err(Error::OutOfRange);
        }
        let cur = line_sub(&self.lines[loc.y], loc.x, tlen);
        if !cur.eq(&t) {
            return Err(Error::OutOfRange);
        }
        let ghost buf0 = self.buf();
        let mut changes = match self.exe(Event::Delete(loc, cur)) {
            Ok(cs) => cs,
            Err(e) => {
                proof {
                    // the deletion was validated above, so it cannot fail
                    assert(false);
                }
                return Err(e);
            }
        };
        let ghost mid = self.buf();
        let i = String::from_str(into);
        match self.exe(Event::Insert(loc, i)) {
            Ok(mut cs2) => {
                let ghost cs1v = changes.deep_view();
                let ghost cs2v = cs2.deep_view();
                changes.append(&mut cs2);
                proof {
                    assert(changes.deep_view() =~= cs1v + cs2v);
                    lemma_changes_concat(buf0, cs1v, cs2v);
                    let y = loc.y as int;
                    let x = loc.x as int;
                    assert(mid[y].take(x) =~= buf0[y].take(x));
                    assert(mid[y].skip(x) =~= buf0[y].skip(x + target@.len()));
                    assert(self.buf() =~~= buf0.update(
                        y,
                        buf0[y].take(x) + into@ + buf0[y].skip(x + target@.len()),
                    ));
                }
                Ok(changes)
            }
            Err(e) => {
                proof {
                    // inserting at the deletion point is always in range
                    assert(loc.x <= mid[loc.y as int].len());
                    assert(false);
                }
                Err(e)
            }
        }
    }

    /// Replace every occurrence of `target` by `into` in the whole resident
    /// buffer, line by line, re-deriving each next match against the
    /// already-mutated buffer so adjacent and seam-straddling replacements
    /// stay correct. Wherever `replacement_exhaustive` holds, the target
    /// provably occurs nowhere afterwards. The whole batch forms a single
    /// undo unit: pending edits are sealed first, and the batch itself
    /// stays pending until the next boundary. The cursor is left at the
    /// start of the document. On a read-only document nothing happens at
    /// all.
    pub fn replace_all(&mut self, target: &str, into: &str) -> (r: Result<
        Vec<LineChange>,
        Error,
    >)
        requires
            old(self).wf(),
        ensures
            final(self).wf(),
            r is Ok <==> (target@.len() == 0 || !old(self).read_only),
            match r {
                Ok(changes) => {
                    &&& final(self).buf() == replace_all_lines(old(self).buf(), target@, into@)
                    &&& replacement_exhaustive(target@, into@) ==> forall|y2: int|
                        0 <= y2 < final(self).buf().len() ==> !line_has_match(
                            #[trigger] final(self).buf()[y2],
                            target@,
                        )
                    &&& final(self).rest() == old(self).rest()
                    &&& final(self).cursor == (Loc { x: 0, y: 0 })
                    &&& final(self).desired_column == 0
                    &&& final(self).undo_mgmt@ == if target@.len() > 0 && occurs(
                        old(self).buf(),
                        target@,
                    ) {
                        set_dirty_step(commit_step(old(self).undo_mgmt@, old(self).snap()))
                    } else {
                        commit_step(old(self).undo_mgmt@, old(self).snap())
                    }
                    &&& target@.len() > 0 && occurs(old(self).buf(), target@)
                        ==> final(self).modified
                    &&& !(target@.len() > 0 && occurs(old(self).buf(), target@))
                        ==> final(self).modified == old(self).modified
                    &&& final(self).size == old(self).size
                    &&& final(self).file_name == old(self).file_name
                    &&& final(self).read_only == old(self).read_only
                    &&& changes_valid(old(self).buf(), changes.deep_view())
                    &&& changes_apply(old(self).buf(), changes.deep_view()) == final(self).buf()
                },
                Err(e) => {
                    &&& *final(self) == *old(self)
                    &&& e == Error::ReadOnlyFile
                },
            },
    {
        let t = String::from_str(target);
        let tlen = line_len(&t);
        if tlen > 0 && self.read_only {
            return Err(Error::ReadOnlyFile);
        }
        let ghost buf0 = self.buf();
        self.commit();
        let ghost u1 = self.undo_mgmt@;
        let mut changes: Vec<LineChange> = Vec::new();
        let mut changed = false;
        proof {
            assert(changes.deep_view() =~= Seq::empty());
        }
        if tlen == 0 {
            self.move_to(&Loc { x: 0, y: 0 });
            proof {
                assert(self.buf() =~~= replace_all_lines(buf0, target@, into@));
            }
            return Ok(changes);
        }
        let i_str = String::from_str(into);
        let ilen = line_len(&i_str);
        let mut y: usize = 0;
        while y < self.lines.len()
            invariant
                self.wf(),
                !self.read_only,
                tlen == target@.len(),
                t@ == target@,
                i_str@ == into@,
                ilen == into@.len(),
                tlen >= 1,
                self.buf().len() == buf0.len(),
                self.rest() == old(self).rest(),
                y <= self.buf().len(),
                forall|y2: int|
                    0 <= y2 < y ==> self.buf()[y2] == processed_line(
                        #[trigger] buf0[y2],
                        target@,
                        into@,
                    ),
                forall|y2: int| y <= y2 < buf0.len() ==> self.buf()[y2] == #[trigger] buf0[y2],
                replacement_exhaustive(target@, into@) ==> forall|y2: int|
                    0 <= y2 < y ==> !line_has_match(#[trigger] self.buf()[y2], target@),
                changes_valid(buf0, changes.deep_view()),
                changes_apply(buf0, changes.deep_view()) == self.buf(),
                self.undo_mgmt@ == if changed {
                    set_dirty_step(u1)
                } else {
                    u1
                },
                changed ==> occurs(buf0, target@) && self.modified,
                !changed ==> self.modified == old(self).modified,
                !changed ==> forall|y2: int|
                    0 <= y2 < y ==> !line_has_match(#[trigger] buf0[y2], target@),
                self.size == old(self).size,
                self.file_name == old(self).file_name,
                u1 == commit_step(old(self).undo_mgmt@, old(self).snap()),
            decreases self.buf().len() - y,
        {
            let ghost orig_line = buf0[y as int];
            if ilen < tlen {
                // the re-deriving scan: after each replacement it resumes a
                // target-length back, so matches straddling the seam between
                // inserted and remaining text are found too
                let mut r: usize = 0;
                proof {
                    assert(self.buf()[y as int] == orig_line);
                }
                while r <= line_len(&self.lines[y]) && tlen <= line_len(&self.lines[y]) - r
                    invariant
                        self.wf(),
                        !self.read_only,
                        tlen == target@.len(),
                        t@ == target@,
                        i_str@ == into@,
                        ilen == into@.len(),
                        tlen >= 1,
                        ilen < tlen,
                        y < self.buf().len(),
                        self.buf().len() == buf0.len(),
                        self.rest() == old(self).rest(),
                        forall|y2: int|
                            0 <= y2 < y ==> self.buf()[y2] == processed_line(
                                #[trigger] buf0[y2],
                                target@,
                                into@,
                            ),
                        forall|y2: int|
                            y < y2 < buf0.len() ==> self.buf()[y2] == #[trigger] buf0[y2],
                        replacement_exhaustive(target@, into@) ==> forall|y2: int|
                            0 <= y2 < y ==> !line_has_match(#[trigger] self.buf()[y2], target@),
                        orig_line == buf0[y as int],
                        r <= self.buf()[y as int].len(),
                        rewrite_from(orig_line, 0, target@, into@) == rewrite_from(
                            self.buf()[y as int],
                            r as int,
                            target@,
                            into@,
                        ),
                        forall|p: int|
                            #![trigger self.buf()[y as int].subrange(p, p + target@.len())]
                            0 <= p < r && p + target@.len() <= self.buf()[y as int].len()
                                ==> self.buf()[y as int].subrange(p, p + target@.len())
                                != target@,
                        !changed ==> self.buf()[y as int] == orig_line,
                        changes_valid(buf0, changes.deep_view()),
                        changes_apply(buf0, changes.deep_view()) == self.buf(),
                        self.undo_mgmt@ == if changed {
                            set_dirty_step(u1)
                        } else {
                            u1
                        },
                        changed ==> occurs(buf0, target@) && self.modified,
                        !changed ==> self.modified == old(self).modified,
                        !changed ==> forall|y2: int|
                            0 <= y2 < y ==> !line_has_match(#[trigger] buf0[y2], target@),
                        self.size == old(self).size,
                        self.file_name == old(self).file_name,
                        u1 == commit_step(old(self).undo_mgmt@, old(self).snap()),
                    decreases self.buf()[y as int].len(), self.buf()[y as int].len() - r,
                {
                    let cand = line_sub(&self.lines[y], r, tlen);
                    proof {
                        assert(cand@ == self.buf()[y as int].subrange(r as int, r + tlen));
                    }
                    if cand.eq(&t) {
                        proof {
                            assert(occurs_at(self.buf(), Loc { x: r, y }, target@));
                            if !changed {
                                assert(occurs_at(buf0, Loc { x: r, y }, target@));
                            }
                            assert(occurs(buf0, target@));
                        }
                        let ghost pre_line = self.buf()[y as int];
                        let mut cs2 = match self.replace(Loc { x: r, y }, target, into) {
                            Ok(c) => c,
                            Err(e) => {
                                proof {
                                    // the match was just found, so it is fresh
                                    assert(false);
                                }
                                return Err(e);
                            }
                        };
                        let ghost csv = changes.deep_view();
                        let ghost cs2v = cs2.deep_view();
                        changes.append(&mut cs2);
                        changed = true;
                        let ghost rr = r as int;
                        proof {
                            assert(changes.deep_view() =~= csv + cs2v);
                            lemma_changes_concat(buf0, csv, cs2v);
                            let new_line = self.buf()[y as int];
                            assert(new_line == pre_line.take(rr) + into@ + pre_line.skip(
                                rr + tlen,
                            ));
                            // the scan takes the same step as its model
                            assert(pre_line.subrange(rr, rr + target@.len()) == target@);
                            assert(pre_line.subrange(0, rr) == pre_line.take(rr));
                            assert(pre_line.subrange(rr + tlen, pre_line.len() as int)
                                == pre_line.skip(rr + tlen));
                            let sr: int = if rr >= tlen - 1 {
                                rr - (tlen - 1)
                            } else {
                                0
                            };
                            assert(rewrite_from(pre_line, rr, target@, into@) == rewrite_from(
                                new_line,
                                sr,
                                target@,
                                into@,
                            ));
                            // positions before the resumed scan lie in the
                            // unchanged prefix and were already ruled out
                            assert forall|p: int|
                                #![trigger new_line.subrange(p, p + target@.len())]
                                0 <= p < sr && p + target@.len() <= new_line.len()
                                    implies new_line.subrange(p, p + target@.len())
                                != target@ by {
                                assert(p + tlen <= rr);
                                assert(new_line.subrange(p, p + target@.len())
                                    =~= pre_line.subrange(p, p + target@.len()));
                            }
                        }
                        let newr = if r >= tlen - 1 {
                            r - (tlen - 1)
                        } else {
                            0
                        };
                        r = newr;
                    } else {
                        proof {
                            let cur = self.buf()[y as int];
                            assert(cur.subrange(r as int, r + target@.len()) != target@);
                            assert(rewrite_from(cur, r as int, target@, into@) == rewrite_from(
                                cur,
                                r + 1,
                                target@,
                                into@,
                            ));
                        }
                        r = r + 1;
                    }
                }
                proof {
                    let cur = self.buf()[y as int];
                    // the remainder is shorter than the target: the scan is
                    // done, and no occurrence is left anywhere in the line
                    assert(r + tlen > cur.len());
                    assert(rewrite_from(cur, r as int, target@, into@) == cur);
                    assert(cur == processed_line(orig_line, target@, into@));
                    assert forall|x2: int|
                        #![trigger cur.subrange(x2, x2 + target@.len())]
                        0 <= x2 && x2 + target@.len() <= cur.len() implies cur.subrange(
                        x2,
                        x2 + target@.len(),
                    ) != target@ by {
                        assert(x2 < r);
                    }
                    assert(!line_has_match(cur, target@));
                    if !changed {
                        assert(!line_has_match(orig_line, target@));
                    }
                }
            } else {
                // the single left-to-right pass that resumes after each
                // inserted text
                let olen = line_len(&self.lines[y]);
                let mut x: usize = 0;
                let ghost mut k: int = 0;
                proof {
                    assert(orig_line.skip(0) =~= orig_line);
                    assert(self.buf()[y as int].take(0) =~= Seq::<char>::empty());
                    assert(Seq::<char>::empty() + replace_line(orig_line, target@, into@)
                        =~= replace_line(orig_line, target@, into@));
                }
                while x <= line_len(&self.lines[y]) && tlen <= line_len(&self.lines[y]) - x
                    invariant
                        self.wf(),
                        !self.read_only,
                        tlen == target@.len(),
                        t@ == target@,
                        i_str@ == into@,
                        ilen == into@.len(),
                        tlen >= 1,
                        ilen >= tlen,
                        y < self.buf().len(),
                        self.buf().len() == buf0.len(),
                        self.rest() == old(self).rest(),
                        forall|y2: int|
                            0 <= y2 < y ==> self.buf()[y2] == processed_line(
                                #[trigger] buf0[y2],
                                target@,
                                into@,
                            ),
                        forall|y2: int|
                            y < y2 < buf0.len() ==> self.buf()[y2] == #[trigger] buf0[y2],
                        replacement_exhaustive(target@, into@) ==> forall|y2: int|
                            0 <= y2 < y ==> !line_has_match(#[trigger] self.buf()[y2], target@),
                        orig_line == buf0[y as int],
                        0 <= k <= orig_line.len(),
                        orig_line.len() == olen,
                        x <= self.buf()[y as int].len(),
                        self.buf()[y as int].skip(x as int) == orig_line.skip(k),
                        replace_line(orig_line, target@, into@) == self.buf()[y as int].take(
                            x as int,
                        ) + replace_line(orig_line.skip(k), target@, into@),
                        tlen == 1 && !line_has_match(into@, target@) ==> forall|p: int|
                            #![trigger self.buf()[y as int].subrange(p, p + target@.len())]
                            0 <= p < x && p + target@.len() <= self.buf()[y as int].len()
                                ==> self.buf()[y as int].subrange(p, p + target@.len())
                                != target@,
                        changes_valid(buf0, changes.deep_view()),
                        changes_apply(buf0, changes.deep_view()) == self.buf(),
                        self.undo_mgmt@ == if changed {
                            set_dirty_step(u1)
                        } else {
                            u1
                        },
                        changed ==> occurs(buf0, target@) && self.modified,
                        !changed ==> self.modified == old(self).modified,
                        !changed ==> forall|y2: int|
                            0 <= y2 < y ==> !line_has_match(#[trigger] buf0[y2], target@),
                        !changed ==> forall|x2: int|
                            #![trigger orig_line.subrange(x2, x2 + target@.len())]
                            0 <= x2 < k && x2 + target@.len() <= orig_line.len()
                                ==> orig_line.subrange(x2, x2 + target@.len()) != target@,
                        self.size == old(self).size,
                        self.file_name == old(self).file_name,
                        u1 == commit_step(old(self).undo_mgmt@, old(self).snap()),
                    decreases orig_line.len() - k,
                {
                    let cand = line_sub(&self.lines[y], x, tlen);
                    proof {
                        assert(cand@ =~= orig_line.skip(k).subrange(0, tlen as int));
                    }
                    if cand.eq(&t) {
                        proof {
                            assert(occurs_at(self.buf(), Loc { x, y }, target@));
                            assert(orig_line.subrange(k, k + tlen as int) =~= cand@);
                            assert(k + tlen <= orig_line.len()) by {
                                assert(orig_line.skip(k).len() == orig_line.len() - k);
                            }
                            assert(occurs_at(buf0, Loc { x: k as usize, y }, target@)) by {
                                assert(y < buf0.len());
                                assert(0 <= k <= olen);
                                assert(k as usize as int == k);
                                assert(buf0[y as int] == orig_line);
                                assert(k + target@.len() <= orig_line.len());
                                assert(cand@ == target@);
                                assert(orig_line.subrange(k, k + target@.len()) == target@);
                            }
                            assert(occurs(buf0, target@));
                        }
                        let ghost pre_line = self.buf()[y as int];
                        let mut cs2 = match self.replace(Loc { x, y }, target, into) {
                            Ok(c) => c,
                            Err(e) => {
                                proof {
                                    // the match was just found, so it is fresh
                                    assert(false);
                                }
                                return Err(e);
                            }
                        };
                        let ghost csv = changes.deep_view();
                        let ghost cs2v = cs2.deep_view();
                        changes.append(&mut cs2);
                        changed = true;
                        proof {
                            assert(changes.deep_view() =~= csv + cs2v);
                            lemma_changes_concat(buf0, csv, cs2v);
                            let new_line = self.buf()[y as int];
                            assert(new_line == pre_line.take(x as int) + into@ + pre_line.skip(
                                x + tlen,
                            ));
                            assert(new_line.take(x + ilen) =~= pre_line.take(x as int) + into@);
                            assert(new_line.skip(x + ilen) =~= pre_line.skip(x + tlen));
                            assert(pre_line.skip(x + tlen) =~= orig_line.skip(k + tlen)) by {
                                assert(pre_line.skip(x as int) == orig_line.skip(k));
                                assert(pre_line.skip(x as int).skip(tlen as int)
                                    =~= pre_line.skip(x + tlen));
                                assert(orig_line.skip(k).skip(tlen as int) =~= orig_line.skip(
                                    k + tlen,
                                ));
                            }
                            assert(replace_line(orig_line.skip(k), target@, into@) == into@
                                + replace_line(
                                orig_line.skip(k).skip(tlen as int),
                                target@,
                                into@,
                            ));
                            assert(orig_line.skip(k).skip(tlen as int) =~= orig_line.skip(
                                k + tlen,
                            ));
                            assert(replace_line(orig_line, target@, into@) == new_line.take(
                                x + ilen,
                            ) + replace_line(orig_line.skip(k + tlen), target@, into@));
                            if tlen == 1 && !line_has_match(into@, target@) {
                                // every kept or inserted character misses
                                // the single-character target
                                assert forall|p: int|
                                    #![trigger new_line.subrange(p, p + target@.len())]
                                    0 <= p < x + ilen && p + target@.len() <= new_line.len()
                                        implies new_line.subrange(p, p + target@.len())
                                    != target@ by {
                                    if p < x {
                                        assert(new_line.subrange(p, p + target@.len())
                                            =~= pre_line.subrange(p, p + target@.len()));
                                    } else {
                                        assert(new_line[p] == into@[p - x]);
                                        assert(new_line.subrange(p, p + 1) =~= seq![
                                            into@[p - x],
                                        ]);
                                        assert(into@.subrange(p - x, p - x + 1) =~= seq![
                                            into@[p - x],
                                        ]);
                                        assert(into@.subrange(p - x, p - x + target@.len())
                                            != target@);
                                    }
                                }
                            }
                            k = k + tlen as int;
                        }
                        let nl = line_len(&self.lines[y]);
                        proof {
                            assert(x + ilen <= nl);
                        }
                        x = x + ilen;
                    } else {
                        proof {
                            let kk = k;
                            assert(orig_line.skip(kk).subrange(0, tlen as int) != target@);
                            assert(orig_line.skip(kk).len() >= tlen) by {
                                assert(self.buf()[y as int].skip(x as int).len() == self.buf()[
                                    y as int
                                ].len() - x);
                            }
                            assert(replace_line(orig_line.skip(kk), target@, into@) == seq![
                                orig_line.skip(kk)[0],
                            ] + replace_line(orig_line.skip(kk).skip(1), target@, into@));
                            assert(orig_line.skip(kk).skip(1) =~= orig_line.skip(kk + 1));
                            assert(self.buf()[y as int].take(x + 1) =~= self.buf()[
                                y as int
                            ].take(x as int) + seq![orig_line.skip(kk)[0]]) by {
                                assert(self.buf()[y as int][x as int] == orig_line.skip(kk)[0]);
                            }
                            assert(self.buf()[y as int].skip(x + 1) =~= orig_line.skip(kk + 1));
                            if !changed {
                                assert(orig_line.subrange(kk, kk + tlen as int)
                                    =~= orig_line.skip(kk).subrange(0, tlen as int));
                            }
                            if tlen == 1 && !line_has_match(into@, target@) {
                                assert(self.buf()[y as int].subrange(x as int, x + target@.len())
                                    != target@) by {
                                    assert(cand@ == self.buf()[y as int].skip(x as int).subrange(
                                        0,
                                        tlen as int,
                                    ));
                                    assert(self.buf()[y as int].subrange(x as int, x + tlen)
                                        =~= self.buf()[y as int].skip(x as int).subrange(
                                        0,
                                        tlen as int,
                                    ));
                                }
                            }
                            k = kk + 1;
                        }
                        x = x + 1;
                    }
                }
                proof {
                    let cur = self.buf()[y as int];
                    assert(orig_line.skip(k).len() < tlen) by {
                        assert(cur.skip(x as int).len() == cur.len() - x);
                    }
                    assert(replace_line(orig_line.skip(k), target@, into@) == orig_line.skip(k));
                    assert(cur =~= cur.take(x as int) + cur.skip(x as int));
                    assert(cur == replace_line(orig_line, target@, into@));
                    assert(cur == processed_line(orig_line, target@, into@));
                    if !changed {
                        assert forall|x2: int|
                            #![trigger orig_line.subrange(x2, x2 + target@.len())]
                            0 <= x2 && x2 + target@.len() <= orig_line.len() implies orig_line
                            .subrange(x2, x2 + target@.len()) != target@ by {
                            assert(x2 < k) by {
                                assert(orig_line.len() - k < tlen);
                            }
                        }
                        assert(!line_has_match(orig_line, target@));
                    }
                    if tlen == 1 && !line_has_match(into@, target@) {
                        // the pass reached the end of the line, so every
                        // character was checked or inserted
                        assert(x == cur.len()) by {
                            assert(cur.len() - x == orig_line.len() - k);
                        }
                        assert forall|x2: int|
                            #![trigger cur.subrange(x2, x2 + target@.len())]
                            0 <= x2 && x2 + target@.len() <= cur.len() implies cur.subrange(
                            x2,
                            x2 + target@.len(),
                        ) != target@ by {
                            assert(x2 < x);
                        }
                        assert(!line_has_match(cur, target@));
                    }
                }
            }
            y = y + 1;
        }
        self.move_to(&Loc { x: 0, y: 0 });
        proof {
            assert(self.buf() =~~= replace_all_lines(buf0, target@, into@));
            if !changed {
                assert forall|l: Loc| !occurs_at(buf0, l, target@) by {
                    if occurs_at(buf0, l, target@) {
                        assert(buf0[l.y as int].subrange(l.x as int, l.x + target@.len())
                            == target@);
                        assert(line_has_match(buf0[l.y as int], target@));
                    }
                }
                assert(!occurs(buf0, target@));
            }
        }
        Ok(changes)
    }
}

} // verus!
