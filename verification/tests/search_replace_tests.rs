use ox_core::document::Document;
use ox_core::error::Error;
use ox_core::utils::{Loc, Size};

fn doc_with(lines: &[&str]) -> Document {
    let mut doc = Document::open(
        Size::is(80, 24),
        "test.txt".to_string(),
        lines.iter().map(|s| s.to_string()).collect(),
    );
    doc.load_to(lines.len());
    doc
}

fn lines_of(doc: &Document) -> Vec<String> {
    let mut out = Vec::new();
    let mut y = 0;
    while let Some(line) = doc.line(y) {
        out.push(line);
        y += 1;
    }
    out
}

#[test]
fn forward_search_wraps_to_the_same_single_match() {
    // searching forward from the only match in a single-match document
    // returns that same match again
    let mut doc = doc_with(&["xx", "hello", "yy"]);
    doc.move_to(&Loc::at(0, 1));
    let m = doc.next_match("hello").unwrap();
    assert_eq!(m.loc, Loc::at(0, 1));
    assert_eq!(m.text, "hello".to_string());
}

#[test]
fn absent_strings_are_never_found() {
    let doc = doc_with(&["alpha", "beta"]);
    assert!(doc.next_match("gamma").is_none());
    assert!(doc.prev_match("gamma").is_none());
    assert!(doc.next_match("").is_none());
    assert!(doc.prev_match("").is_none());
}

#[test]
fn next_match_scans_forward_from_the_cursor_exclusive() {
    let mut doc = doc_with(&["one two one", "two one"]);
    doc.move_to(&Loc::at(0, 0));
    // the match at the cursor itself comes last in the scan
    let m = doc.next_match("one").unwrap();
    assert_eq!(m.loc, Loc::at(8, 0));
    doc.move_to(&m.loc);
    let m = doc.next_match("one").unwrap();
    assert_eq!(m.loc, Loc::at(4, 1));
    doc.move_to(&m.loc);
    // wraps around to the first match
    let m = doc.next_match("one").unwrap();
    assert_eq!(m.loc, Loc::at(0, 0));
}

#[test]
fn prev_match_scans_backward_with_wraparound() {
    let mut doc = doc_with(&["one two one", "two one"]);
    doc.move_to(&Loc::at(0, 0));
    // nothing before the start: wraps to the last match in the document
    let m = doc.prev_match("one").unwrap();
    assert_eq!(m.loc, Loc::at(4, 1));
    doc.move_to(&Loc::at(8, 0));
    let m = doc.prev_match("one").unwrap();
    assert_eq!(m.loc, Loc::at(0, 0));
}

#[test]
fn replace_validates_the_match_first() {
    let mut doc = doc_with(&["hello world"]);
    // a stale match fails without mutating
    assert_eq!(
        doc.replace(Loc::at(0, 0), "goodbye", "hi"),
        Err(Error::OutOfRange)
    );
    assert_eq!(lines_of(&doc), vec!["hello world".to_string()]);
    // a fresh match is replaced, cursor after the inserted text
    doc.replace(Loc::at(6, 0), "world", "verus").unwrap();
    assert_eq!(lines_of(&doc), vec!["hello verus".to_string()]);
    assert_eq!(doc.loc(), Loc::at(11, 0));
}

#[test]
fn replace_all_is_one_undo_step() {
    // replace-all of "a" -> "bb" on ["aaa"] gives ["bbbbbb"] as one undo
    // step; one undo restores ["aaa"]
    let mut doc = doc_with(&["aaa"]);
    doc.replace_all("a", "bb").unwrap();
    assert_eq!(lines_of(&doc), vec!["bbbbbb".to_string()]);
    assert!(doc.undo());
    assert_eq!(lines_of(&doc), vec!["aaa".to_string()]);
}

#[test]
fn replace_all_catches_matches_created_at_the_seams() {
    // replacing "ab" by "b" in "aab" first leaves "ab", which straddles the
    // seam between kept and remaining text: the scan resumes far enough
    // back to catch it, so no occurrence survives
    let mut doc = doc_with(&["aab"]);
    doc.replace_all("ab", "b").unwrap();
    assert_eq!(lines_of(&doc), vec!["b".to_string()]);
    // a longer cascade of seam matches
    let mut doc = doc_with(&["aaab", "xaabxab"]);
    doc.replace_all("ab", "b").unwrap();
    assert_eq!(lines_of(&doc), vec!["b".to_string(), "xbxb".to_string()]);
    // one undo still restores the whole batch
    assert!(doc.undo());
    assert_eq!(lines_of(&doc), vec!["aaab".to_string(), "xaabxab".to_string()]);
}

#[test]
fn replace_all_with_growing_replacements_makes_one_pass() {
    // with a replacement at least as long as a multi-character target,
    // chasing every occurrence need not terminate (replacing "ab" by
    // "bbaa" recreates the target at a seam for ever), so replace-all
    // makes the single left-to-right pass there: each occurrence present
    // at scan time is replaced once, and a seam occurrence may remain
    let mut doc = doc_with(&["aab"]);
    doc.replace_all("ab", "bb").unwrap();
    assert_eq!(lines_of(&doc), vec!["abb".to_string()]);
}

#[test]
fn replace_all_handles_adjacent_matches_on_every_line() {
    let mut doc = doc_with(&["abab", "bab", "xyz"]);
    doc.replace_all("ab", "c").unwrap();
    assert_eq!(
        lines_of(&doc),
        vec!["cc".to_string(), "bc".to_string(), "xyz".to_string()]
    );
    assert_eq!(doc.loc(), Loc::at(0, 0));
}

#[test]
fn replace_all_without_matches_changes_nothing() {
    let mut doc = doc_with(&["abc"]);
    doc.replace_all("zz", "yy").unwrap();
    assert_eq!(lines_of(&doc), vec!["abc".to_string()]);
    assert_eq!(doc.undo_mgmt.redo.len(), 0);
}

#[test]
fn replace_on_read_only_documents_is_rejected() {
    let mut doc = doc_with(&["aaa"]);
    doc.read_only = true;
    assert_eq!(doc.replace(Loc::at(0, 0), "a", "b"), Err(Error::ReadOnlyFile));
    assert_eq!(doc.replace_all("a", "b"), Err(Error::ReadOnlyFile));
    assert_eq!(lines_of(&doc), vec!["aaa".to_string()]);
}
