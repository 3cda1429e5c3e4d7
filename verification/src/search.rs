//! Search: forward and backward match finding over the resident lines,
//! scanning from the cursor exclusive and wrapping at the document bounds,
//! with contracts that pin down exactly which match is returned.

use vstd::prelude::*;
use vstd::string::StringExecFns;
use crate::document::Document;
use crate::text::line_len;
use crate::text::line_sub;
use crate::utils::Loc;

verus! {

/// A search hit: where it starts and what it matched.
#[derive(Debug, PartialEq, Eq)]
pub struct Match {
    pub loc: Loc,
    pub text: String,
}

impl Clone for Match {
    fn clone(&self) -> (r: Match)
        ensures
            r.loc == self.loc,
            r.text@ == self.text@,
    {
        Match { loc: self.loc, text: self.text.clone() }
    }
}

/// The target occurs in the lines starting at this location.
pub open spec fn occurs_at(lines: Seq<Seq<char>>, l: Loc, t: Seq<char>) -> bool {
    &&& l.y < lines.len()
    &&& l.x + t.len() <= lines[l.y as int].len()
    &&& lines[l.y as int].subrange(l.x as int, l.x + t.len()) == t
}

/// The target occurs somewhere in the lines.
pub open spec fn occurs(lines: Seq<Seq<char>>, t: Seq<char>) -> bool {
    exists|l: Loc| occurs_at(lines, l, t)
}

/// Strict document order on positions: by line, within a line by column.
pub open spec fn pos_lt(a: Loc, b: Loc) -> bool {
    a.y < b.y || (a.y == b.y && a.x < b.x)
}

/// Document order on positions.
pub open spec fn pos_le(a: Loc, b: Loc) -> bool {
    pos_lt(a, b) || a == b
}

/// `a` is visited no later than `b` by the forward scan that starts just
/// after `p`, wraps at the end of the document, and visits `p` itself last.
pub open spec fn cyc_le(p: Loc, a: Loc, b: Loc) -> bool {
    if pos_lt(p, a) {
        pos_lt(p, b) ==> pos_le(a, b)
    } else {
        !pos_lt(p, b) && pos_le(a, b)
    }
}

/// `a` is visited no later than `b` by the backward scan that starts just
/// before `p`, wraps at the start of the document, and visits `p` itself
/// last.
pub open spec fn cyc_le_back(p: Loc, a: Loc, b: Loc) -> bool {
    if pos_lt(a, p) {
        pos_lt(b, p) ==> pos_le(b, a)
    } else {
        !pos_lt(b, p) && pos_le(b, a)
    }
}

/// The leftmost start of a match of `target` in `line` at or after `from`.
fn find_in_line(line: &String, target: &String, from: usize) -> (r: Option<usize>)
    requires
        target@.len() >= 1,
    ensures
        match r {
            Some(x) => {
                &&& from <= x
                &&& x + target@.len() <= line@.len()
                &&& line@.subrange(x as int, x + target@.len()) == target@
                &&& forall|x2: int|
                    #![trigger line@.subrange(x2, x2 + target@.len())]
                    from <= x2 < x && x2 + target@.len() <= line@.len()
                        ==> line@.subrange(x2, x2 + target@.len()) != target@
            },
            None => forall|x2: int|
                #![trigger line@.subrange(x2, x2 + target@.len())]
                from <= x2 && x2 + target@.len() <= line@.len() ==> line@.subrange(
                    x2,
                    x2 + target@.len(),
                ) != target@,
        },
{
    let llen = line_len(line);
    let tlen = line_len(target);
    if tlen > llen || from > llen - tlen {
        return None;
    }
    let mut x = from;
    while x <= llen - tlen
        invariant
            target@.len() >= 1,
            tlen == target@.len(),
            llen == line@.len(),
            tlen <= llen,
            from <= x <= llen - tlen + 1,
            forall|x2: int|
                #![trigger line@.subrange(x2, x2 + target@.len())]
                from <= x2 < x && x2 + target@.len() <= line@.len() ==> line@.subrange(
                    x2,
                    x2 + target@.len(),
                ) != target@,
        decreases llen - x,
    {
        let candidate = line_sub(line, x, tlen);
        if candidate.eq(target) {
            return Some(x);
        }
        x = x + 1;
    }
    None
}

/// The rightmost start of a match of `target` in `line` at or before `upto`.
fn rfind_in_line(line: &String, target: &String, upto: usize) -> (r: Option<usize>)
    requires
        target@.len() >= 1,
    ensures
        match r {
            Some(x) => {
                &&& x <= upto
                &&& x + target@.len() <= line@.len()
                &&& line@.subrange(x as int, x + target@.len()) == target@
                &&& forall|x2: int|
                    #![trigger line@.subrange(x2, x2 + target@.len())]
                    x < x2 <= upto && x2 + target@.len() <= line@.len()
                        ==> line@.subrange(x2, x2 + target@.len()) != target@
            },
            None => forall|x2: int|
                #![trigger line@.subrange(x2, x2 + target@.len())]
                0 <= x2 <= upto && x2 + target@.len() <= line@.len() ==> line@.subrange(
                    x2,
                    x2 + target@.len(),
                ) != target@,
        },
{
    let llen = line_len(line);
    let tlen = line_len(target);
    if tlen > llen {
        return None;
    }
    let mut x = if upto > llen - tlen {
        llen - tlen
    } else {
        upto
    };
    loop
        invariant
            target@.len() >= 1,
            tlen == target@.len(),
            llen == line@.len(),
            tlen <= llen,
            x <= upto,
            x + tlen <= llen,
            forall|x2: int|
                #![trigger line@.subrange(x2, x2 + target@.len())]
                x < x2 <= upto && x2 + target@.len() <= line@.len() ==> line@.subrange(
                    x2,
                    x2 + target@.len(),
                ) != target@,
        decreases x,
    {
        let candidate = line_sub(line, x, tlen);
        if candidate.eq(target) {
            return Some(x);
        }
        if x == 0 {
            return None;
        }
        x = x - 1;
    }
}

impl Document {
    /// Find the next match of `target`: the linear scan starts just after
    /// the cursor, wraps at the end of the document, and visits the cursor
    /// position itself last. Returns nothing exactly when the target is
    /// empty or occurs nowhere in the resident lines.
    pub fn next_match(&self, target: &str) -> (r: Option<Match>)
        requires
            self.wf(),
        ensures
            match r {
                Some(m) => {
                    &&& target@.len() > 0
                    &&& occurs_at(self.buf(), m.loc, target@)
                    &&& m.text@ == target@
                    &&& forall|l: Loc|
                        #![trigger occurs_at(self.buf(), l, target@)]
                        occurs_at(self.buf(), l, target@) ==> cyc_le(self.cursor, m.loc, l)
                },
                None => target@.len() == 0 || !occurs(self.buf(), target@),
            },
    {
        let t = String::from_str(target);
        let tlen = line_len(&t);
        if tlen == 0 {
            return None;
        }
        let p = self.cursor;
        let ghost buf = self.buf();
        // the remainder of the cursor's line, strictly after the cursor
        if p.y < self.lines.len() {
            if p.x < usize::MAX {
                if let Some(x) = find_in_line(&self.lines[p.y], &t, p.x + 1) {
                    let m = Match { loc: Loc { x, y: p.y }, text: t };
                    proof {
                        assert forall|l: Loc| occurs_at(buf, l, target@) implies cyc_le(
                            p,
                            m.loc,
                            l,
                        ) by {}
                    }
                    return Some(m);
                }
            }
        }
        // the lines below the cursor's line
        let mut y = if p.y < self.lines.len() {
            p.y + 1
        } else {
            self.lines.len()
        };
        while y < self.lines.len()
            invariant
                self.wf(),
                buf == self.buf(),
                tlen == t@.len(),
                t@ == target@,
                tlen >= 1,
                p == self.cursor,
                p.y < self.buf().len() ==> y >= p.y + 1,
                p.y >= self.buf().len() ==> y >= self.buf().len(),
                y <= self.buf().len(),
                // nothing after the cursor so far
                forall|l: Loc|
                    #![trigger occurs_at(buf, l, target@)]
                    occurs_at(buf, l, target@) && pos_lt(p, l) && l.y < y ==> false,
            decreases self.buf().len() - y,
        {
            if let Some(x) = find_in_line(&self.lines[y], &t, 0) {
                let m = Match { loc: Loc { x, y }, text: t };
                proof {
                    assert forall|l: Loc| occurs_at(buf, l, target@) implies cyc_le(
                        p,
                        m.loc,
                        l,
                    ) by {}
                }
                return Some(m);
            }
            y = y + 1;
        }
        // wrap: the lines above the cursor's line
        let mut y2: usize = 0;
        let stop = if p.y < self.lines.len() {
            p.y
        } else {
            self.lines.len()
        };
        while y2 < stop
            invariant
                self.wf(),
                buf == self.buf(),
                tlen == t@.len(),
                t@ == target@,
                tlen >= 1,
                p == self.cursor,
                stop <= self.buf().len(),
                p.y < self.buf().len() ==> stop == p.y,
                p.y >= self.buf().len() ==> stop == self.buf().len(),
                y2 <= stop,
                forall|l: Loc|
                    #![trigger occurs_at(buf, l, target@)]
                    occurs_at(buf, l, target@) && pos_lt(p, l) ==> false,
                forall|l: Loc|
                    #![trigger occurs_at(buf, l, target@)]
                    occurs_at(buf, l, target@) && l.y < y2 ==> false,
            decreases stop - y2,
        {
            if let Some(x) = find_in_line(&self.lines[y2], &t, 0) {
                let m = Match { loc: Loc { x, y: y2 }, text: t };
                proof {
                    assert forall|l: Loc| occurs_at(buf, l, target@) implies cyc_le(
                        p,
                        m.loc,
                        l,
                    ) by {}
                }
                return Some(m);
            }
            y2 = y2 + 1;
        }
        // finally the cursor's own line up to and including the cursor
        if p.y < self.lines.len() {
            if let Some(x) = find_in_line(&self.lines[p.y], &t, 0) {
                proof {
                    // anything strictly after the cursor was ruled out, so
                    // this leftmost match starts at or before the cursor
                    assert(!(x > p.x)) by {
                        if x > p.x {
                            assert(occurs_at(buf, Loc { x, y: p.y }, target@));
                        }
                    }
                }
                let m = Match { loc: Loc { x, y: p.y }, text: t };
                proof {
                    assert forall|l: Loc| occurs_at(buf, l, target@) implies cyc_le(
                        p,
                        m.loc,
                        l,
                    ) by {}
                }
                return Some(m);
            }
        }
        proof {
            assert(!occurs(buf, target@)) by {
                assert forall|l: Loc| !occurs_at(buf, l, target@) by {
                    if occurs_at(buf, l, target@) {
                        assert(l.y < buf.len());
                    }
                }
            }
        }
        None
    }

    /// Find the previous match of `target`: the linear scan starts just
    /// before the cursor, runs backwards, wraps at the start of the
    /// document, and visits the cursor position itself last. Returns
    /// nothing exactly when the target is empty or occurs nowhere in the
    /// resident lines.
    pub fn prev_match(&self, target: &str) -> (r: Option<Match>)
        requires
            self.wf(),
        ensures
            match r {
                Some(m) => {
                    &&& target@.len() > 0
                    &&& occurs_at(self.buf(), m.loc, target@)
                    &&& m.text@ == target@
                    &&& forall|l: Loc|
                        #![trigger occurs_at(self.buf(), l, target@)]
                        occurs_at(self.buf(), l, target@) ==> cyc_le_back(self.cursor, m.loc, l)
                },
                None => target@.len() == 0 || !occurs(self.buf(), target@),
            },
    {
        let t = String::from_str(target);
        let tlen = line_len(&t);
        if tlen == 0 {
            return None;
        }
        let p = self.cursor;
        let ghost buf = self.buf();
        // the cursor's line, strictly before the cursor
        if p.y < self.lines.len() && p.x > 0 {
            if let Some(x) = rfind_in_line(&self.lines[p.y], &t, p.x - 1) {
                let m = Match { loc: Loc { x, y: p.y }, text: t };
                proof {
                    assert forall|l: Loc| occurs_at(buf, l, target@) implies cyc_le_back(
                        p,
                        m.loc,
                        l,
                    ) by {}
                }
                return Some(m);
            }
        }
        // the lines above the cursor's line, bottom-up
        let mut y = if p.y < self.lines.len() {
            p.y
        } else {
            self.lines.len()
        };
        while y > 0
            invariant
                self.wf(),
                buf == self.buf(),
                tlen == t@.len(),
                t@ == target@,
                tlen >= 1,
                p == self.cursor,
                y <= self.buf().len(),
                p.y < self.buf().len() ==> y <= p.y,
                forall|l: Loc|
                    #![trigger occurs_at(buf, l, target@)]
                    occurs_at(buf, l, target@) && pos_lt(l, p) && l.y >= y ==> false,
            decreases y,
        {
            let yy = y - 1;
            if let Some(x) = rfind_in_line(&self.lines[yy], &t, usize::MAX) {
                let m = Match { loc: Loc { x, y: yy }, text: t };
                proof {
                    assert forall|l: Loc| occurs_at(buf, l, target@) implies cyc_le_back(
                        p,
                        m.loc,
                        l,
                    ) by {}
                }
                return Some(m);
            }
            y = yy;
        }
        // wrap: the lines below the cursor's line, bottom-up
        let mut y2 = self.lines.len();
        let stop2 = if p.y < self.lines.len() {
            p.y
        } else {
            self.lines.len()
        };
        while y2 > stop2
            invariant
                self.wf(),
                buf == self.buf(),
                tlen == t@.len(),
                t@ == target@,
                tlen >= 1,
                p == self.cursor,
                stop2 <= y2 <= self.buf().len(),
                p.y < self.buf().len() ==> stop2 == p.y,
                p.y >= self.buf().len() ==> stop2 == self.buf().len(),
                forall|l: Loc|
                    #![trigger occurs_at(buf, l, target@)]
                    occurs_at(buf, l, target@) && pos_lt(l, p) ==> false,
                forall|l: Loc|
                    #![trigger occurs_at(buf, l, target@)]
                    occurs_at(buf, l, target@) && l.y >= y2 ==> false,
            decreases y2,
        {
            let yy = y2 - 1;
            if let Some(x) = rfind_in_line(&self.lines[yy], &t, usize::MAX) {
                proof {
                    if yy == p.y {
                        // on the cursor's line only positions at or after
                        // the cursor remain
                        assert(!(x < p.x)) by {
                            if x < p.x {
                                assert(occurs_at(buf, Loc { x, y: yy }, target@));
                                assert(pos_lt(Loc { x, y: yy }, p));
                            }
                        }
                    }
                }
                let m = Match { loc: Loc { x, y: yy }, text: t };
                proof {
                    assert forall|l: Loc| occurs_at(buf, l, target@) implies cyc_le_back(
                        p,
                        m.loc,
                        l,
                    ) by {}
                }
                return Some(m);
            }
            y2 = yy;
        }
        proof {
            assert(!occurs(buf, target@)) by {
                assert forall|l: Loc| !occurs_at(buf, l, target@) by {
                    if occurs_at(buf, l, target@) {
                        assert(l.y < buf.len());
                    }
                }
            }
        }
        None
    }
}

} // verus!
