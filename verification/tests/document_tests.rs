use ox_core::document::Document;
use ox_core::error::Error;
use ox_core::event::{Event, Status};
use ox_core::highlight::LineChange;
use ox_core::utils::{Loc, Size};

fn doc_with(lines: &[&str]) -> Document {
    let mut doc = Document::open(
        Size::is(80, 24),
        "test.txt".to_string(),
        lines.iter().map(|s| s.to_string()).collect(),
    );
    doc.load_to(lines.len());
    doc
}

fn lines_of(doc: &Document) -> Vec<String> {
    let mut out = Vec::new();
    let mut y = 0;
    while let Some(line) = doc.line(y) {
        out.push(line);
        y += 1;
    }
    out
}

/// Replay tokenizer notifications on a plain mirror of the resident lines.
fn apply_changes(mirror: &mut Vec<String>, changes: &[LineChange]) {
    for c in changes {
        match c {
            LineChange::Append(s) => mirror.push(s.clone()),
            LineChange::Edit(y, s) => mirror[*y] = s.clone(),
            LineChange::InsertLine(y, s) => mirror.insert(*y, s.clone()),
            LineChange::RemoveLine(y) => {
                mirror.remove(*y);
            }
        }
    }
}

#[test]
fn windowed_loading_grows_monotonically() {
    // load_to(2) on a 10-line file makes lines 0 and 1 resident; a later
    // load_to(5) extends residency to lines 0 through 4 without discarding
    let ten: Vec<String> = (0..10).map(|i| format!("line{}", i)).collect();
    let mut doc = Document::open(Size::is(80, 24), "big.txt".to_string(), ten);
    assert_eq!(doc.loaded_to(), 0);
    assert_eq!(doc.len_lines(), 10);
    doc.load_to(2);
    assert_eq!(doc.loaded_to(), 2);
    assert_eq!(doc.line(0), Some("line0".to_string()));
    assert_eq!(doc.line(1), Some("line1".to_string()));
    assert_eq!(doc.line(2), None);
    doc.load_to(5);
    assert_eq!(doc.loaded_to(), 5);
    assert_eq!(doc.line(0), Some("line0".to_string()));
    assert_eq!(doc.line(4), Some("line4".to_string()));
    assert_eq!(doc.line(5), None);
    assert_eq!(doc.len_lines(), 10);
    // loading never shrinks residency
    doc.load_to(3);
    assert_eq!(doc.loaded_to(), 5);
    // loading past the end stops at the end
    doc.load_to(99);
    assert_eq!(doc.loaded_to(), 10);
}

#[test]
fn new_documents_hold_one_empty_line() {
    let doc = Document::new(Size::is(80, 24));
    assert_eq!(doc.line(0), Some(String::new()));
    assert_eq!(doc.len_lines(), 1);
    assert!(doc.file_path() == Err(Error::NoFileName));
    assert!(!doc.at_file());
}

#[test]
fn out_of_range_checks_the_resident_bounds() {
    let doc = doc_with(&["abc"]);
    assert!(doc.out_of_range(0, 0).is_ok());
    assert!(doc.out_of_range(3, 0).is_ok());
    assert_eq!(doc.out_of_range(4, 0), Err(Error::OutOfRange));
    assert_eq!(doc.out_of_range(0, 1), Err(Error::OutOfRange));
}

#[test]
fn notifications_keep_a_tokenizer_mirror_in_step() {
    // after any call sequence, a mirror replaying the notifications holds
    // exactly the buffer's resident lines
    let mut doc = doc_with(&["fn main() {", "}"]);
    let mut mirror = lines_of(&doc);

    let cs = doc.exe(Event::Insert(Loc::at(11, 0), "}".to_string())).unwrap();
    apply_changes(&mut mirror, &cs);
    assert_eq!(mirror, lines_of(&doc));

    let cs = doc.exe(Event::SplitDown(Loc::at(11, 0))).unwrap();
    apply_changes(&mut mirror, &cs);
    assert_eq!(mirror, lines_of(&doc));

    let cs = doc.exe(Event::DeleteLine(2, "}".to_string())).unwrap();
    apply_changes(&mut mirror, &cs);
    assert_eq!(mirror, lines_of(&doc));

    let cs = doc.exe(Event::SpliceUp(Loc::at(11, 0))).unwrap();
    apply_changes(&mut mirror, &cs);
    assert_eq!(mirror, lines_of(&doc));
    assert_eq!(mirror, vec!["fn main() {}".to_string()]);
}

#[test]
fn enter_splits_and_notifies_in_index_order() {
    let mut doc = doc_with(&["abc"]);
    doc.move_to(&Loc::at(1, 0));
    let cs = doc.enter().unwrap();
    assert_eq!(lines_of(&doc), vec!["a".to_string(), "bc".to_string()]);
    assert_eq!(
        cs,
        vec![
            LineChange::InsertLine(1, "bc".to_string()),
            LineChange::Edit(0, "a".to_string()),
        ]
    );
    assert_eq!(doc.loc(), Loc::at(0, 1));
}

#[test]
fn character_types_at_the_cursor() {
    let mut doc = doc_with(&["ab"]);
    doc.move_to(&Loc::at(1, 0));
    doc.character('X').unwrap();
    assert_eq!(lines_of(&doc), vec!["aXb".to_string()]);
    assert_eq!(doc.loc(), Loc::at(2, 0));
}

#[test]
fn a_space_seals_an_undo_unit() {
    let mut doc = doc_with(&[""]);
    doc.move_to(&Loc::at(0, 0));
    for ch in "hello world".chars() {
        doc.character(ch).unwrap();
    }
    doc.commit();
    assert_eq!(lines_of(&doc), vec!["hello world".to_string()]);
    // one undo removes the last word, not the whole line
    assert!(doc.undo());
    assert_eq!(lines_of(&doc), vec!["hello ".to_string()]);
    assert!(doc.undo());
    assert_eq!(lines_of(&doc), vec![String::new()]);
}

#[test]
fn backspace_deletes_and_splices() {
    let mut doc = doc_with(&["ab", "cd"]);
    // within a line, the character before the cursor goes
    doc.move_to(&Loc::at(2, 0));
    doc.backspace().unwrap();
    assert_eq!(lines_of(&doc), vec!["a".to_string(), "cd".to_string()]);
    assert_eq!(doc.loc(), Loc::at(1, 0));
    // at a line start, the line is spliced onto the one above
    doc.move_to(&Loc::at(0, 1));
    doc.backspace().unwrap();
    assert_eq!(lines_of(&doc), vec!["acd".to_string()]);
    assert_eq!(doc.loc(), Loc::at(1, 0));
    // at the very top, nothing happens
    doc.move_to(&Loc::at(0, 0));
    let cs = doc.backspace().unwrap();
    assert!(cs.is_empty());
    assert_eq!(lines_of(&doc), vec!["acd".to_string()]);
}

#[test]
fn delete_removes_the_character_under_the_cursor() {
    let mut doc = doc_with(&["abc"]);
    doc.move_to(&Loc::at(1, 0));
    doc.delete().unwrap();
    assert_eq!(lines_of(&doc), vec!["ac".to_string()]);
    // at the end of the line, nothing happens
    doc.move_to(&Loc::at(2, 0));
    let cs = doc.delete().unwrap();
    assert!(cs.is_empty());
    assert_eq!(lines_of(&doc), vec!["ac".to_string()]);
}

#[test]
fn delete_line_removes_the_cursor_line() {
    let mut doc = doc_with(&["abc", "def"]);
    doc.move_to(&Loc::at(1, 0));
    let cs = doc.delete_line().unwrap();
    assert_eq!(lines_of(&doc), vec!["def".to_string()]);
    assert_eq!(cs, vec![LineChange::RemoveLine(0)]);
    // deleting is one undo step; the viewport is reloaded afterwards
    assert!(doc.undo());
    doc.load_to(2);
    assert_eq!(lines_of(&doc), vec!["abc".to_string(), "def".to_string()]);
}

#[test]
fn vertical_movement_remembers_the_target_column() {
    let mut doc = doc_with(&["abcdef", "ab", "abcd"]);
    doc.move_to(&Loc::at(4, 0));
    assert_eq!(doc.move_down(), Status::Nothing);
    // the short line clamps the cursor ...
    assert_eq!(doc.loc(), Loc::at(2, 1));
    assert_eq!(doc.move_down(), Status::Nothing);
    // ... but the target column is remembered
    assert_eq!(doc.loc(), Loc::at(4, 2));
    assert_eq!(doc.move_up(), Status::Nothing);
    assert_eq!(doc.loc(), Loc::at(2, 1));
}

#[test]
fn movement_reports_the_document_edges() {
    let mut doc = doc_with(&["ab"]);
    doc.move_to(&Loc::at(0, 0));
    assert_eq!(doc.move_up(), Status::StartOfFile);
    assert_eq!(doc.move_left(), Status::StartOfLine);
    doc.move_end();
    assert_eq!(doc.loc(), Loc::at(2, 0));
    assert_eq!(doc.move_right(), Status::EndOfLine);
    doc.move_bottom();
    assert_eq!(doc.move_down(), Status::EndOfFile);
}

#[test]
fn typing_at_the_bottom_creates_a_new_row() {
    let mut doc = doc_with(&["ab"]);
    doc.move_bottom();
    assert_eq!(doc.loc(), Loc::at(0, 1));
    doc.character('x').unwrap();
    assert_eq!(lines_of(&doc), vec!["ab".to_string(), "x".to_string()]);
}

#[test]
fn char_ptr_reports_the_cursor_column() {
    let mut doc = doc_with(&["abc"]);
    doc.move_to(&Loc::at(2, 0));
    assert_eq!(doc.char_ptr(), 2);
    assert_eq!(doc.char_loc(), Loc::at(2, 0));
}

#[test]
fn inserting_a_line_notifies_append_only_at_the_bottom() {
    let mut doc = doc_with(&["a", "b"]);
    let cs = doc.exe(Event::InsertLine(2, "c".to_string())).unwrap();
    assert_eq!(cs, vec![LineChange::Append("c".to_string())]);
    let cs = doc.exe(Event::InsertLine(1, "m".to_string())).unwrap();
    assert_eq!(cs, vec![LineChange::InsertLine(1, "m".to_string())]);
    assert_eq!(
        lines_of(&doc),
        vec!["a".to_string(), "m".to_string(), "b".to_string(), "c".to_string()]
    );
}

#[test]
fn move_to_clamps_into_the_buffer() {
    let mut doc = doc_with(&["abc", "d"]);
    doc.move_to(&Loc::at(99, 1));
    assert_eq!(doc.loc(), Loc::at(1, 1));
    doc.move_to(&Loc::at(0, 99));
    // clamped to the append position below the last resident line
    assert_eq!(doc.loc(), Loc::at(0, 2));
}

#[test]
fn file_path_reports_the_name_it_was_opened_with() {
    let doc = doc_with(&["abc"]);
    assert_eq!(doc.file_path(), Ok("test.txt".to_string()));
}
