//! Character-indexed surgery on single lines, built from the character-exact
//! string primitives so that every operation is stated over `Seq<char>`.

use vstd::prelude::*;
use vstd::string::StrSliceExecFns;
use vstd::string::StringExecFns;

verus! {

/// The length of a line in characters.
pub(crate) fn line_len(line: &String) -> (r: usize)
    ensures
        r == line@.len(),
{
    line.as_str().unicode_len()
}

/// A copy of the characters `[x, x + n)` of a line.
pub(crate) fn line_sub(line: &String, x: usize, n: usize) -> (r: String)
    requires
        x + n <= line@.len(),
    ensures
        r@ == line@.subrange(x as int, x + n),
{
    let len = line.as_str().unicode_len();
    String::from_str(line.as_str().substring_char(x, x + n))
}

/// The line with `text` inserted at character offset `x`.
pub(crate) fn line_insert_str(line: &String, x: usize, text: &String) -> (r: String)
    requires
        x <= line@.len(),
    ensures
        r@ == line@.take(x as int) + text@ + line@.skip(x as int),
{
    let n = line.as_str().unicode_len();
    let mut r = String::from_str(line.as_str().substring_char(0, x));
    r.append(text.as_str());
    r.append(line.as_str().substring_char(x, n));
    r
}

/// The line with the characters `[x, x + n)` removed.
pub(crate) fn line_remove_range(line: &String, x: usize, n: usize) -> (r: String)
    requires
        x + n <= line@.len(),
    ensures
        r@ == line@.take(x as int) + line@.skip(x + n),
{
    let len = line.as_str().unicode_len();
    let mut r = String::from_str(line.as_str().substring_char(0, x));
    r.append(line.as_str().substring_char(x + n, len));
    r
}

/// Relies on `String::push`: appends exactly the given character to the
/// string. vstd specifies no contract for it.
#[verifier::external_body]
pub(crate) fn push_char(s: &mut String, ch: char)
    ensures
        final(s)@ == old(s)@.push(ch),
{
    s.push(ch);
}

/// The concatenation of two lines.
pub(crate) fn line_concat(a: &String, b: &String) -> (r: String)
    ensures
        r@ == a@ + b@,
{
    let mut r = a.clone();
    r.append(b.as_str());
    r
}

} // verus!
