use ox_core::document::Document;
use ox_core::error::Error;
use ox_core::event::Event;
use ox_core::utils::{Loc, Size};

fn doc_with(lines: &[&str]) -> Document {
    let mut doc = Document::open(
        Size::is(80, 24),
        "test.txt".to_string(),
        lines.iter().map(|s| s.to_string()).collect(),
    );
    doc.load_to(lines.len());
    doc
}

fn lines_of(doc: &Document) -> Vec<String> {
    let mut out = Vec::new();
    let mut y = 0;
    while let Some(line) = doc.line(y) {
        out.push(line);
        y += 1;
    }
    out
}

#[test]
fn reverse_swaps_insert_and_delete() {
    let e = Event::Insert(Loc::at(1, 0), "X".to_string());
    assert_eq!(e.clone().reverse(), Event::Delete(Loc::at(1, 0), "X".to_string()));
    assert_eq!(e.clone().reverse().reverse(), e);
}

#[test]
fn reverse_is_an_involution_for_every_variant() {
    let events = vec![
        Event::Insert(Loc::at(1, 0), "X".to_string()),
        Event::Delete(Loc::at(2, 1), "yz".to_string()),
        Event::InsertLine(3, "new".to_string()),
        Event::DeleteLine(0, "old".to_string()),
        Event::SplitDown(Loc::at(1, 0)),
        Event::SpliceUp(Loc::at(2, 3)),
    ];
    for e in events {
        assert_eq!(e.clone().reverse().reverse(), e);
    }
}

#[test]
fn loc_reports_the_anchor() {
    assert_eq!(Event::Insert(Loc::at(4, 2), "a".to_string()).loc(), Loc::at(4, 2));
    assert_eq!(Event::InsertLine(5, "a".to_string()).loc(), Loc::at(0, 5));
    assert_eq!(Event::DeleteLine(7, "a".to_string()).loc(), Loc::at(0, 7));
    assert_eq!(Event::SplitDown(Loc::at(3, 1)).loc(), Loc::at(3, 1));
}

#[test]
fn insert_then_reverse_delete_restores() {
    // lines ["abc","def"], insert "X" at {x:1,y:0} gives ["aXbc","def"];
    // the reverse Delete at {x:1,y:0} of "X" restores ["abc","def"]
    let mut doc = doc_with(&["abc", "def"]);
    let e = Event::Insert(Loc::at(1, 0), "X".to_string());
    doc.exe(e.clone()).unwrap();
    assert_eq!(lines_of(&doc), vec!["aXbc".to_string(), "def".to_string()]);
    doc.exe(e.reverse()).unwrap();
    assert_eq!(lines_of(&doc), vec!["abc".to_string(), "def".to_string()]);
    assert_eq!(doc.loc(), Loc::at(1, 0));
}

#[test]
fn split_down_then_splice_up_restores() {
    // SplitDown at {x:1,y:0} on ["abc"] gives ["a","bc"]; the reverse
    // splice at the split point restores ["abc"]
    let mut doc = doc_with(&["abc"]);
    let e = Event::SplitDown(Loc::at(1, 0));
    doc.exe(e.clone()).unwrap();
    assert_eq!(lines_of(&doc), vec!["a".to_string(), "bc".to_string()]);
    assert_eq!(doc.loc(), Loc::at(0, 1));
    doc.exe(e.reverse()).unwrap();
    assert_eq!(lines_of(&doc), vec!["abc".to_string()]);
    assert_eq!(doc.loc(), Loc::at(1, 0));
}

#[test]
fn every_event_is_undone_by_its_reverse() {
    let cases: Vec<(Vec<&str>, Event)> = vec![
        (vec!["abc", "def"], Event::Insert(Loc::at(2, 1), "XY".to_string())),
        (vec!["abc", "def"], Event::Delete(Loc::at(1, 0), "bc".to_string())),
        (vec!["abc"], Event::InsertLine(1, "zzz".to_string())),
        (vec!["abc", "def"], Event::DeleteLine(0, "abc".to_string())),
        (vec!["abc"], Event::SplitDown(Loc::at(2, 0))),
        (vec!["ab", "cd"], Event::SpliceUp(Loc::at(2, 0))),
    ];
    for (start, e) in cases {
        let mut doc = doc_with(&start);
        let before: Vec<String> = start.iter().map(|s| s.to_string()).collect();
        doc.exe(e.clone()).unwrap();
        doc.exe(e.reverse()).unwrap();
        assert_eq!(lines_of(&doc), before);
    }
}

#[test]
fn invalid_events_are_rejected_without_mutation() {
    let mut doc = doc_with(&["abc"]);
    // out of range line
    assert_eq!(doc.exe(Event::Insert(Loc::at(0, 5), "X".to_string())), Err(Error::OutOfRange));
    // out of range column
    assert_eq!(doc.exe(Event::Insert(Loc::at(9, 0), "X".to_string())), Err(Error::OutOfRange));
    // a delete must name the text it removes
    assert_eq!(doc.exe(Event::Delete(Loc::at(0, 0), "zzz".to_string())), Err(Error::OutOfRange));
    // a line delete must name the line
    assert_eq!(doc.exe(Event::DeleteLine(0, "nope".to_string())), Err(Error::OutOfRange));
    // a splice must sit at the end of the upper line, with a line below
    assert_eq!(doc.exe(Event::SpliceUp(Loc::at(3, 0))), Err(Error::OutOfRange));
    assert_eq!(lines_of(&doc), vec!["abc".to_string()]);
}

#[test]
fn read_only_documents_reject_mutations() {
    let mut doc = doc_with(&["abc"]);
    doc.read_only = true;
    assert_eq!(
        doc.exe(Event::Insert(Loc::at(0, 0), "X".to_string())),
        Err(Error::ReadOnlyFile)
    );
    assert_eq!(lines_of(&doc), vec!["abc".to_string()]);
}
