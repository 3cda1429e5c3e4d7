//! The line-oriented text form a document is stored in: splitting file text
//! into lines, and joining lines back into file text with a final line
//! break. Reading and writing the disk itself is the caller's concern.

use vstd::prelude::*;
use vstd::string::StrSliceExecFns;
use vstd::string::StringExecFns;
use crate::document::Document;
use crate::text::line_len;
use crate::text::push_char;

verus! {

/// The lines of a text, split at every line break; the text before the
/// first break, between breaks, and after the last break each form a line.
pub open spec fn split_from(t: Seq<char>, cur: Seq<char>) -> Seq<Seq<char>>
    decreases t.len(),
{
    if t.len() == 0 {
        seq![cur]
    } else if t[0] == '\n' {
        seq![cur] + split_from(t.skip(1), Seq::empty())
    } else {
        split_from(t.skip(1), cur.push(t[0]))
    }
}

/// File text as lines: a trailing line break ends the last line instead of
/// opening an empty one.
pub open spec fn split_text(t: Seq<char>) -> Seq<Seq<char>> {
    if t.len() > 0 && t.last() == '\n' {
        split_from(t.drop_last(), Seq::empty())
    } else {
        split_from(t, Seq::empty())
    }
}

/// Lines as file text: joined with line breaks.
pub open spec fn joined(lines: Seq<Seq<char>>) -> Seq<char>
    decreases lines.len(),
{
    if lines.len() == 0 {
        Seq::empty()
    } else if lines.len() == 1 {
        lines[0]
    } else {
        lines[0] + seq!['\n'] + joined(lines.skip(1))
    }
}

proof fn lemma_joined_snoc(lines: Seq<Seq<char>>, i: int)
    requires
        1 <= i < lines.len(),
    ensures
        joined(lines.take(i + 1)) == joined(lines.take(i)) + seq!['\n'] + lines[i],
    decreases i,
{
    let a = lines.take(i + 1);
    let b = lines.take(i);
    if i == 1 {
        assert(a.len() == 2);
        assert(a.skip(1) =~= seq![lines[1]]);
        assert(joined(a) == a[0] + seq!['\n'] + joined(a.skip(1)));
        assert(joined(seq![lines[1]]) == lines[1]);
        assert(b =~= seq![lines[0]]);
    } else {
        lemma_joined_snoc(lines.skip(1), i - 1);
        assert(a.skip(1) =~= lines.skip(1).take(i));
        assert(b.skip(1) =~= lines.skip(1).take(i - 1));
        assert(joined(a) == a[0] + seq!['\n'] + joined(lines.skip(1).take(i)));
        assert(joined(b) == b[0] + seq!['\n'] + joined(lines.skip(1).take(i - 1)));
        assert(lines.skip(1)[i - 1] == lines[i]);
        assert(joined(a) =~= joined(b) + seq!['\n'] + lines[i]);
    }
}

/// Split file text into the lines a document holds.
pub fn split_file_text(text: &str) -> (r: Vec<String>)
    ensures
        r.deep_view() == split_text(text@),
{
    let n = text.unicode_len();
    let end = if n > 0 && text.get_char(n - 1) == '\n' {
        n - 1
    } else {
        n
    };
    let ghost t = text@.take(end as int);
    proof {
        if n > 0 && text@.last() == '\n' {
            assert(t =~= text@.drop_last());
        } else {
            assert(t =~= text@);
        }
    }
    let mut out: Vec<String> = Vec::new();
    let mut cur = String::new();
    let mut i: usize = 0;
    proof {
        assert(t.skip(0) =~= t);
        assert(out.deep_view() + split_from(t, Seq::empty()) =~= split_from(t, Seq::empty()));
    }
    while i < end
        invariant
            i <= end,
            end <= n,
            n == text@.len(),
            t == text@.take(end as int),
            split_text(text@) == out.deep_view() + split_from(t.skip(i as int), cur@),
        decreases end - i,
    {
        let c = text.get_char(i);
        proof {
            assert(t.skip(i as int)[0] == t[i as int]);
            assert(t[i as int] == text@[i as int]);
        }
        if c == '\n' {
            let ghost out_pre = out.deep_view();
            let ghost cur_pre = cur@;
            out.push(cur);
            cur = String::new();
            proof {
                assert(t.skip(i as int).skip(1) =~= t.skip(i + 1));
                assert(split_from(t.skip(i as int), cur_pre) == seq![cur_pre] + split_from(
                    t.skip(i + 1),
                    Seq::empty(),
                ));
                assert(out.deep_view() =~= out_pre.push(cur_pre));
                assert(out.deep_view() + split_from(t.skip(i + 1), Seq::empty()) =~= out_pre + (
                seq![cur_pre] + split_from(t.skip(i + 1), Seq::empty())));
            }
        } else {
            push_char(&mut cur, c);
            proof {
                assert(t.skip(i as int).skip(1) =~= t.skip(i + 1));
            }
        }
        i = i + 1;
    }
    proof {
        assert(t.skip(end as int).len() == 0);
        assert(split_from(t.skip(end as int), cur@) == seq![cur@]);
    }
    let ghost out_pre = out.deep_view();
    let ghost cur_pre = cur@;
    out.push(cur);
    proof {
        assert(out.deep_view() =~= out_pre.push(cur_pre));
        assert(out_pre + seq![cur_pre] =~= out_pre.push(cur_pre));
    }
    out
}

impl Document {
    /// The whole document as file text, resident or not: the lines joined
    /// with line breaks and ended by one, as a line-oriented file is.
    pub fn to_file_text(&self) -> (r: String)
        requires
            self.wf(),
        ensures
            r@ == joined(self.all_lines()) + seq!['\n'],
    {
        let mut r = String::new();
        let total = self.len_lines();
        let ghost all = self.all_lines();
        let mut i: usize = 0;
        proof {
            assert(all.take(0) =~= Seq::<Seq<char>>::empty());
        }
        while i < total
            invariant
                self.wf(),
                i <= total,
                total == self.all_lines().len(),
                all == self.all_lines(),
                r@ == joined(all.take(i as int)),
            decreases total - i,
        {
            if i > 0 {
                push_char(&mut r, '\n');
            }
            let line = if i < self.lines.len() {
                &self.lines[i]
            } else {
                &self.unloaded[i - self.lines.len()]
            };
            proof {
                assert(line@ == all[i as int]);
            }
            r.append(line.as_str());
            proof {
                if i == 0 {
                    assert(all.take(1) =~= seq![all[0]]);
                    assert(joined(seq![all[0]]) == all[0]);
                    assert(r@ =~= all[0]);
                } else {
                    lemma_joined_snoc(all, i as int);
                }
            }
            i = i + 1;
        }
        proof {
            assert(all.take(total as int) =~= all);
        }
        push_char(&mut r, '\n');
        r
    }
}

} // verus!
