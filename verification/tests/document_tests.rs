use hecto::document::Document;
use hecto::editor::{Position, SearchDirection};

fn texts(doc: &Document) -> Vec<String> {
    let mut out = Vec::new();
    let mut i = 0;
    while i < doc.len() {
        out.push(doc.row(i).unwrap().content());
        i += 1;
    }
    out
}

#[test]
fn open_splits_on_line_feeds() {
    let doc = Document::open("one\ntwo\nthree", "f.txt");
    assert_eq!(texts(&doc), vec!["one".to_string(), "two".to_string(), "three".to_string()]);
    assert!(!doc.is_dirty());
}

#[test]
fn open_drops_the_trailing_empty_line() {
    let doc = Document::open("one\ntwo\n", "f.txt");
    assert_eq!(doc.len(), 2);
    assert_eq!(texts(&doc), vec!["one".to_string(), "two".to_string()]);
}

#[test]
fn open_of_empty_text_is_an_empty_document() {
    let doc = Document::open("", "f.txt");
    assert_eq!(doc.len(), 0);
    assert!(doc.is_empty());
}

#[test]
fn open_of_one_line_feed_is_one_empty_row() {
    let doc = Document::open("\n", "f.txt");
    assert_eq!(doc.len(), 1);
    assert_eq!(doc.row(0).unwrap().content(), "");
}

#[test]
fn row_is_bounds_checked() {
    let doc = Document::open("a\nb", "f.txt");
    assert!(doc.row(1).is_some());
    assert!(doc.row(2).is_none());
}

#[test]
fn insert_into_an_empty_document_creates_one_row() {
    let mut doc = Document::default();
    doc.insert(&Position { x: 0, y: 0 }, 'x');
    assert_eq!(doc.len(), 1);
    assert_eq!(doc.row(0).unwrap().content(), "x");
    assert!(doc.is_dirty());
}

#[test]
fn insert_counts_in_graphemes() {
    let mut doc = Document::open("h\u{e9}llo\nw\u{f6}rld", "f.txt");
    doc.insert(&Position { x: 5, y: 0 }, '!');
    assert_eq!(doc.row(0).unwrap().content(), "h\u{e9}llo!");
    assert_eq!(doc.row(0).unwrap().len(), 6);
    assert!(doc.is_dirty());
}

#[test]
fn insert_far_past_the_end_is_rejected() {
    let mut doc = Document::open("a", "f.txt");
    doc.insert(&Position { x: 0, y: 5 }, 'x');
    assert_eq!(doc.len(), 1);
    assert_eq!(doc.row(0).unwrap().content(), "a");
    assert!(!doc.is_dirty());
}

#[test]
fn insert_line_feed_splits_the_row() {
    let mut doc = Document::open("abcd", "f.txt");
    doc.insert(&Position { x: 2, y: 0 }, '\n');
    assert_eq!(texts(&doc), vec!["ab".to_string(), "cd".to_string()]);
    assert!(doc.is_dirty());
}

#[test]
fn insert_newline_past_the_last_row_appends_an_empty_row() {
    let mut doc = Document::open("a", "f.txt");
    doc.insert_newline(&Position { x: 0, y: 1 });
    assert_eq!(texts(&doc), vec!["a".to_string(), "".to_string()]);
}

#[test]
fn delete_at_column_zero_merges_into_the_row_above() {
    let mut doc = Document::open("h\u{e9}llo!\nw\u{f6}rld", "f.txt");
    doc.delete(&Position { x: 0, y: 1 });
    assert_eq!(doc.len(), 1);
    assert_eq!(doc.row(0).unwrap().content(), "h\u{e9}llo!w\u{f6}rld");
    assert!(doc.is_dirty());
}

#[test]
fn delete_at_the_origin_removes_the_first_grapheme() {
    // Column 0 of row 0 fails the merge guard, so the plain delete applies.
    let mut doc = Document::open("ab", "f.txt");
    doc.delete(&Position { x: 0, y: 0 });
    assert_eq!(texts(&doc), vec!["b".to_string()]);
    assert!(doc.is_dirty());
}

#[test]
fn delete_at_the_origin_of_an_empty_row_is_a_no_op() {
    let mut doc = Document::open("\nab", "f.txt");
    doc.delete(&Position { x: 0, y: 0 });
    assert_eq!(texts(&doc), vec!["".to_string(), "ab".to_string()]);
    assert!(!doc.is_dirty());
    let mut empty = Document::default();
    empty.delete(&Position { x: 0, y: 0 });
    assert!(empty.is_empty());
    assert!(!empty.is_dirty());
}

#[test]
fn delete_removes_the_grapheme_at_the_column() {
    let mut doc = Document::open("abc", "f.txt");
    doc.delete(&Position { x: 1, y: 0 });
    assert_eq!(doc.row(0).unwrap().content(), "ac");
    assert!(doc.is_dirty());
}

#[test]
fn delete_past_the_row_end_is_a_no_op() {
    let mut doc = Document::open("abc", "f.txt");
    doc.delete(&Position { x: 3, y: 0 });
    assert_eq!(doc.row(0).unwrap().content(), "abc");
    assert!(!doc.is_dirty());
}

#[test]
fn delete_line_merges_and_removes() {
    let mut doc = Document::open("a\nb\nc", "f.txt");
    doc.delete_line(&Position { x: 0, y: 1 });
    assert_eq!(texts(&doc), vec!["ab".to_string(), "c".to_string()]);
}

#[test]
fn delete_line_of_the_first_row_just_removes_it() {
    let mut doc = Document::open("a\nb", "f.txt");
    doc.delete_line(&Position { x: 0, y: 0 });
    assert_eq!(texts(&doc), vec!["b".to_string()]);
}

#[test]
fn serialize_appends_one_line_feed_per_row() {
    let doc = Document::open("a\nb", "f.txt");
    assert_eq!(doc.serialize(), "a\nb\n");
    let empty = Document::default();
    assert_eq!(empty.serialize(), "");
}

#[test]
fn serialize_then_open_round_trips() {
    let mut doc = Document::open("one\ntw\u{f6}\n\nfour", "f.txt");
    doc.insert(&Position { x: 0, y: 2 }, '!');
    let saved = doc.serialize();
    let reloaded = Document::open(saved.as_str(), "f.txt");
    assert_eq!(texts(&reloaded), texts(&doc));
    assert!(!reloaded.is_dirty());
}

#[test]
fn mark_saved_clears_the_dirty_flag() {
    let mut doc = Document::open("a", "f.txt");
    doc.insert(&Position { x: 1, y: 0 }, 'b');
    assert!(doc.is_dirty());
    doc.mark_saved();
    assert!(!doc.is_dirty());
}

#[test]
fn find_forward_scans_row_by_row() {
    let doc = Document::open("abcabc", "f.txt");
    let p = doc.find("abc", &Position { x: 0, y: 0 }, SearchDirection::Forward);
    assert_eq!(p, Some(Position { x: 0, y: 0 }));
    let p = doc.find("abc", &Position { x: 1, y: 0 }, SearchDirection::Forward);
    assert_eq!(p, Some(Position { x: 3, y: 0 }));
    let p = doc.find("abc", &Position { x: 3, y: 0 }, SearchDirection::Backward);
    assert_eq!(p, Some(Position { x: 0, y: 0 }));
}

#[test]
fn find_crosses_rows_in_both_directions() {
    let doc = Document::open("nothing\nneedle here\nneedle again", "f.txt");
    let p = doc.find("needle", &Position { x: 0, y: 0 }, SearchDirection::Forward);
    assert_eq!(p, Some(Position { x: 0, y: 1 }));
    let p = doc.find("needle", &Position { x: 1, y: 1 }, SearchDirection::Forward);
    assert_eq!(p, Some(Position { x: 0, y: 2 }));
    let p = doc.find("needle", &Position { x: 3, y: 2 }, SearchDirection::Backward);
    assert_eq!(p, Some(Position { x: 0, y: 1 }));
}

#[test]
fn find_does_not_wrap_past_the_document_edges() {
    let doc = Document::open("needle\nplain", "f.txt");
    let p = doc.find("needle", &Position { x: 1, y: 0 }, SearchDirection::Forward);
    assert_eq!(p, None);
    let p = doc.find("plain", &Position { x: 0, y: 0 }, SearchDirection::Backward);
    assert_eq!(p, None);
}

#[test]
fn find_from_past_the_last_row_finds_nothing() {
    let doc = Document::open("abc", "f.txt");
    let p = doc.find("a", &Position { x: 0, y: 1 }, SearchDirection::Forward);
    assert_eq!(p, None);
}

#[test]
fn status_bar_text_reports_name_lines_and_dirt() {
    let mut doc = Document::open("a\nb", "notes.txt");
    assert_eq!(doc.status_bar_text(), "notes.txt - 2 lines");
    doc.insert(&Position { x: 0, y: 0 }, 'x');
    assert_eq!(doc.status_bar_text(), "notes.txt - 2 lines (modified)");
}

#[test]
fn status_bar_text_shortens_long_names_and_names_the_nameless() {
    let doc = Document::open("a", "abcdefghijklmnopqrstuvwxyz");
    assert_eq!(doc.status_bar_text(), "abcdefghijklmnopqrst - 1 lines");
    let unnamed = Document::default();
    assert_eq!(unnamed.status_bar_text(), "[No Name] - 0 lines");
}

#[test]
fn filename_is_kept_and_settable() {
    let mut doc = Document::default();
    assert!(doc.filename().is_none());
    doc.set_filename("out.txt".to_string());
    assert_eq!(doc.filename().unwrap(), "out.txt");
    let opened = Document::open("x", "in.txt");
    assert_eq!(opened.filename().unwrap(), "in.txt");
}
