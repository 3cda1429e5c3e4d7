use ox_core::document::Document;
use ox_core::persist::split_file_text;
use ox_core::utils::Size;

#[test]
fn split_breaks_text_into_lines() {
    assert_eq!(split_file_text("abc\ndef\n"), vec!["abc".to_string(), "def".to_string()]);
    // a missing final line break still ends the last line
    assert_eq!(split_file_text("abc\ndef"), vec!["abc".to_string(), "def".to_string()]);
    // empty lines survive
    assert_eq!(
        split_file_text("a\n\nb\n"),
        vec!["a".to_string(), String::new(), "b".to_string()]
    );
    assert_eq!(split_file_text(""), vec![String::new()]);
}

#[test]
fn to_file_text_joins_lines_with_a_final_break() {
    let doc = Document::open(
        Size::is(80, 24),
        "t.txt".to_string(),
        vec!["abc".to_string(), "def".to_string()],
    );
    assert_eq!(doc.to_file_text(), "abc\ndef\n".to_string());
}

#[test]
fn split_and_join_round_trip() {
    let text = "one\ntwo\n\nfour\n";
    let doc = Document::open(Size::is(80, 24), "t.txt".to_string(), split_file_text(text));
    assert_eq!(doc.to_file_text(), text.to_string());
}
