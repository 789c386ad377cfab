use hecto::editor::SearchDirection;
use hecto::row::Row;

#[test]
fn from_text_counts_graphemes_not_bytes() {
    let row = Row::from_text("h\u{e9}llo");
    assert_eq!(row.len(), 5);
    let row = Row::from_text("w\u{f6}rld");
    assert_eq!(row.len(), 5);
}

#[test]
fn combining_marks_form_single_graphemes() {
    // "e" followed by a combining acute accent is one user-visible column.
    let row = Row::from_text("e\u{301}x");
    assert_eq!(row.len(), 2);
    assert_eq!(row.content(), "e\u{301}x");
}

#[test]
fn flag_pairs_form_single_graphemes() {
    let row = Row::from_text("\u{1F1F7}\u{1F1FA}\u{1F1F8}\u{1F1F9}");
    assert_eq!(row.len(), 2);
}

#[test]
fn insert_appends_when_at_or_past_end() {
    let mut row = Row::from_text("ab");
    row.insert(2, 'c');
    assert_eq!(row.content(), "abc");
    row.insert(99, 'd');
    assert_eq!(row.content(), "abcd");
    assert_eq!(row.len(), 4);
}

#[test]
fn insert_mid_row() {
    let mut row = Row::from_text("h\u{e9}llo");
    row.insert(1, 'X');
    assert_eq!(row.content(), "hX\u{e9}llo");
    assert_eq!(row.len(), 6);
}

#[test]
fn delete_removes_one_grapheme() {
    let mut row = Row::from_text("h\u{e9}llo");
    row.delete(1);
    assert_eq!(row.content(), "hllo");
    assert_eq!(row.len(), 4);
}

#[test]
fn delete_past_end_is_a_no_op() {
    let mut row = Row::from_text("ab");
    row.delete(2);
    row.delete(100);
    assert_eq!(row.content(), "ab");
    assert_eq!(row.len(), 2);
}

#[test]
fn insert_then_delete_round_trips() {
    for at in 0..=5 {
        let mut row = Row::from_text("h\u{e9}llo");
        row.insert(at, '!');
        row.delete(at);
        assert_eq!(row.content(), "h\u{e9}llo");
        assert_eq!(row.len(), 5);
    }
}

#[test]
fn split_then_extend_round_trips() {
    for at in 0..=7 {
        let mut row = Row::from_text("w\u{f6}rld!");
        let tail = row.split(at);
        row.extend(&tail);
        assert_eq!(row.content(), "w\u{f6}rld!");
        assert_eq!(row.len(), 6);
    }
}

#[test]
fn split_clamps_past_the_end() {
    let mut row = Row::from_text("ab");
    let tail = row.split(10);
    assert_eq!(row.content(), "ab");
    assert_eq!(tail.content(), "");
    assert!(tail.is_empty());
}

#[test]
fn render_is_total_over_any_bounds() {
    let row = Row::from_text("hello");
    assert_eq!(row.render(0, 5), "hello");
    assert_eq!(row.render(1, 3), "el");
    assert_eq!(row.render(0, 10_000), "hello");
    assert_eq!(row.render(7, 3), "");
    assert_eq!(row.render(3, 1), "");
    assert_eq!(row.render(4, 4), "");
    assert_eq!(row.render(usize::MAX, usize::MAX), "");
}

#[test]
fn render_shows_tabs_as_single_spaces() {
    let row = Row::from_text("a\tb");
    assert_eq!(row.render(0, 3), "a b");
}

#[test]
fn render_slices_by_grapheme_not_byte() {
    let row = Row::from_text("h\u{e9}llo");
    assert_eq!(row.render(1, 3), "\u{e9}l");
}

#[test]
fn find_forward_returns_first_match_at_or_after_from() {
    let row = Row::from_text("abcabc");
    assert_eq!(row.find("abc", 0, SearchDirection::Forward), Some(0));
    assert_eq!(row.find("abc", 1, SearchDirection::Forward), Some(3));
    assert_eq!(row.find("abc", 4, SearchDirection::Forward), None);
    assert_eq!(row.find("zzz", 0, SearchDirection::Forward), None);
}

#[test]
fn find_forward_past_the_end_finds_nothing() {
    let row = Row::from_text("abc");
    assert_eq!(row.find("a", 7, SearchDirection::Forward), None);
}

#[test]
fn find_backward_returns_last_match_ending_at_or_before_from() {
    let row = Row::from_text("abcabc");
    assert_eq!(row.find("abc", 6, SearchDirection::Backward), Some(3));
    assert_eq!(row.find("abc", 3, SearchDirection::Backward), Some(0));
    assert_eq!(row.find("abc", 2, SearchDirection::Backward), None);
}

#[test]
fn find_counts_in_graphemes() {
    let row = Row::from_text("h\u{e9}llo h\u{e9}llo");
    assert_eq!(row.find("llo", 0, SearchDirection::Forward), Some(2));
    assert_eq!(row.find("llo", 3, SearchDirection::Forward), Some(8));
}

#[test]
fn update_len_recomputes_the_cached_count() {
    let mut row = Row::from_text("abc");
    row.update_len();
    assert_eq!(row.len(), 3);
}

#[test]
fn as_bytes_returns_the_utf8_text() {
    let row = Row::from_text("h\u{e9}");
    assert_eq!(row.as_bytes(), "h\u{e9}".as_bytes().to_vec());
}

#[test]
fn is_empty_reflects_the_text() {
    assert!(Row::from_text("").is_empty());
    assert!(!Row::from_text(" ").is_empty());
}
