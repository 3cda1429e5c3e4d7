use ox_core::document::Document;
use ox_core::event::Event;
use ox_core::utils::{Loc, Size};

fn doc_with(lines: &[&str]) -> Document {
    let mut doc = Document::open(
        Size::is(80, 24),
        "test.txt".to_string(),
        lines.iter().map(|s| s.to_string()).collect(),
    );
    doc.load_to(lines.len());
    doc
}

fn lines_of(doc: &Document) -> Vec<String> {
    let mut out = Vec::new();
    let mut y = 0;
    while let Some(line) = doc.line(y) {
        out.push(line);
        y += 1;
    }
    out
}

#[test]
fn undo_and_redo_return_to_the_same_snapshot() {
    let mut doc = doc_with(&["abc"]);
    doc.exe(Event::Insert(Loc::at(3, 0), "d".to_string())).unwrap();
    doc.commit();
    doc.exe(Event::Insert(Loc::at(4, 0), "e".to_string())).unwrap();
    doc.commit();
    assert_eq!(lines_of(&doc), vec!["abcde".to_string()]);
    let cursor_before = doc.loc();

    assert!(doc.undo());
    assert_eq!(lines_of(&doc), vec!["abcd".to_string()]);
    assert!(doc.redo());
    assert_eq!(lines_of(&doc), vec!["abcde".to_string()]);
    assert_eq!(doc.loc(), cursor_before);

    // the cycle can be repeated and keeps returning to the same states
    for _ in 0..3 {
        assert!(doc.undo());
        assert_eq!(lines_of(&doc), vec!["abcd".to_string()]);
        assert!(doc.redo());
        assert_eq!(lines_of(&doc), vec!["abcde".to_string()]);
    }
}

#[test]
fn undo_stops_at_the_floor() {
    let mut doc = doc_with(&["abc"]);
    doc.exe(Event::Insert(Loc::at(3, 0), "d".to_string())).unwrap();
    doc.commit();
    assert!(doc.undo());
    assert_eq!(lines_of(&doc), vec!["abc".to_string()]);
    // the floor entry is never popped
    assert!(!doc.undo());
    assert_eq!(lines_of(&doc), vec!["abc".to_string()]);
}

#[test]
fn undo_on_a_fresh_document_does_nothing() {
    let mut doc = doc_with(&["abc"]);
    assert!(!doc.undo());
    assert!(!doc.redo());
    assert_eq!(lines_of(&doc), vec!["abc".to_string()]);
}

#[test]
fn at_file_tracks_saves_and_commits() {
    // at_file() is true immediately after a save and becomes false after
    // any later committed edit
    let mut doc = doc_with(&["abc"]);
    assert!(doc.at_file());
    doc.exe(Event::Insert(Loc::at(0, 0), "x".to_string())).unwrap();
    doc.commit();
    assert!(!doc.at_file());
    doc.mark_saved();
    assert!(doc.at_file());
    doc.exe(Event::Insert(Loc::at(0, 0), "y".to_string())).unwrap();
    doc.commit();
    assert!(!doc.at_file());
}

#[test]
fn commit_twice_pushes_exactly_one_entry() {
    let mut doc = doc_with(&["abc"]);
    let depth_before = doc.undo_mgmt.undo.len();
    doc.exe(Event::Insert(Loc::at(0, 0), "x".to_string())).unwrap();
    doc.commit();
    assert_eq!(doc.undo_mgmt.undo.len(), depth_before + 1);
    // the second consecutive commit is a no-op
    doc.commit();
    assert_eq!(doc.undo_mgmt.undo.len(), depth_before + 1);
}

#[test]
fn a_new_mutation_after_undo_clears_the_redo_stack() {
    let mut doc = doc_with(&["abc"]);
    doc.exe(Event::Insert(Loc::at(3, 0), "d".to_string())).unwrap();
    doc.commit();
    assert!(doc.undo());
    assert_eq!(doc.undo_mgmt.redo.len(), 1);
    // any new dirty-setting mutation clears the redo stack
    doc.exe(Event::Insert(Loc::at(0, 0), "z".to_string())).unwrap();
    assert_eq!(doc.undo_mgmt.redo.len(), 0);
    assert!(!doc.redo());
}

#[test]
fn uncommitted_edits_are_committed_by_undo() {
    // in-progress edits are never silently lost: undo seals them first
    let mut doc = doc_with(&["abc"]);
    doc.exe(Event::Insert(Loc::at(3, 0), "d".to_string())).unwrap();
    // no explicit commit here
    assert!(doc.undo());
    assert_eq!(lines_of(&doc), vec!["abc".to_string()]);
    assert!(doc.redo());
    assert_eq!(lines_of(&doc), vec!["abcd".to_string()]);
}

#[test]
fn snapshots_capture_content_and_cursor() {
    let mut doc = doc_with(&["abc", "def"]);
    doc.move_to(&Loc::at(2, 1));
    let snap = doc.take_snapshot();
    doc.exe(Event::DeleteLine(0, "abc".to_string())).unwrap();
    assert_eq!(lines_of(&doc), vec!["def".to_string()]);
    doc.apply_snapshot(snap);
    assert_eq!(lines_of(&doc), vec!["abc".to_string(), "def".to_string()]);
    assert_eq!(doc.loc(), Loc::at(2, 1));
}
