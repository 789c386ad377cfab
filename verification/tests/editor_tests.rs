use hecto::document::Document;
use hecto::editor::{Editor, Key, Position, Prompt, PromptOutcome, SearchDirection};
use hecto::textfmt::usize_to_string;

fn editor_over(text: &str, width: usize, height: usize) -> Editor {
    Editor::default(Document::open(text, "f.txt"), width, height)
}

#[test]
fn default_starts_at_the_origin_with_help() {
    let ed = editor_over("abc", 80, 24);
    assert_eq!(ed.cursor_position(), Position { x: 0, y: 0 });
    assert_eq!(ed.offset(), Position { x: 0, y: 0 });
    assert!(!ed.should_quit());
    assert_eq!(ed.status_text(), "HELP: Ctrl-Q = quit | Ctrl-S = save ");
}

#[test]
fn right_wraps_to_the_next_row_at_the_row_end() {
    let mut ed = editor_over("ab\ncd", 80, 24);
    ed.process_keypress(Key::Right);
    ed.process_keypress(Key::Right);
    assert_eq!(ed.cursor_position(), Position { x: 2, y: 0 });
    ed.process_keypress(Key::Right);
    assert_eq!(ed.cursor_position(), Position { x: 0, y: 1 });
}

#[test]
fn left_at_column_zero_goes_to_the_end_of_the_previous_row() {
    let mut ed = editor_over("abc\nd", 80, 24);
    ed.process_keypress(Key::Down);
    assert_eq!(ed.cursor_position(), Position { x: 0, y: 1 });
    ed.process_keypress(Key::Left);
    assert_eq!(ed.cursor_position(), Position { x: 3, y: 0 });
}

#[test]
fn vertical_moves_keep_the_column_sticky() {
    let mut ed = editor_over("abcdef\nab\nabcdef", 80, 24);
    ed.process_keypress(Key::End);
    assert_eq!(ed.cursor_position(), Position { x: 6, y: 0 });
    ed.process_keypress(Key::Down);
    assert_eq!(ed.cursor_position(), Position { x: 6, y: 1 });
    ed.process_keypress(Key::Down);
    assert_eq!(ed.cursor_position(), Position { x: 6, y: 2 });
}

#[test]
fn home_and_end_jump_within_the_row() {
    let mut ed = editor_over("abcd", 80, 24);
    ed.process_keypress(Key::End);
    assert_eq!(ed.cursor_position(), Position { x: 4, y: 0 });
    ed.process_keypress(Key::Home);
    assert_eq!(ed.cursor_position(), Position { x: 0, y: 0 });
}

#[test]
fn page_moves_saturate_at_the_document_bounds() {
    let mut ed = editor_over("a\nb\nc\nd\ne", 80, 3);
    ed.process_keypress(Key::PageDown);
    assert_eq!(ed.cursor_position(), Position { x: 0, y: 3 });
    ed.process_keypress(Key::PageDown);
    assert_eq!(ed.cursor_position(), Position { x: 0, y: 5 });
    ed.process_keypress(Key::PageUp);
    assert_eq!(ed.cursor_position(), Position { x: 0, y: 2 });
    ed.process_keypress(Key::PageUp);
    assert_eq!(ed.cursor_position(), Position { x: 0, y: 0 });
}

#[test]
fn scrolling_follows_the_cursor_minimally() {
    let mut ed = editor_over("a\nb\nc\nd\ne", 80, 2);
    ed.process_keypress(Key::Down);
    assert_eq!(ed.offset(), Position { x: 0, y: 0 });
    ed.process_keypress(Key::Down);
    assert_eq!(ed.offset(), Position { x: 0, y: 1 });
    ed.process_keypress(Key::PageUp);
    assert_eq!(ed.offset(), Position { x: 0, y: 0 });
}

#[test]
fn typing_inserts_and_advances() {
    let mut ed = editor_over("", 80, 24);
    ed.process_keypress(Key::Char('h'));
    ed.process_keypress(Key::Char('i'));
    assert_eq!(ed.document().row(0).unwrap().content(), "hi");
    assert_eq!(ed.cursor_position(), Position { x: 2, y: 0 });
    assert!(ed.document().is_dirty());
}

#[test]
fn typing_enter_breaks_the_line_and_moves_to_its_start() {
    let mut ed = editor_over("abcd", 80, 24);
    ed.process_keypress(Key::Right);
    ed.process_keypress(Key::Right);
    ed.process_keypress(Key::Char('\n'));
    assert_eq!(ed.document().row(0).unwrap().content(), "ab");
    assert_eq!(ed.document().row(1).unwrap().content(), "cd");
    assert_eq!(ed.cursor_position(), Position { x: 0, y: 1 });
}

#[test]
fn backspace_at_line_start_merges_rows_and_places_the_cursor() {
    let mut ed = editor_over("h\u{e9}llo!\nw\u{f6}rld", 80, 24);
    ed.process_keypress(Key::Down);
    assert_eq!(ed.cursor_position(), Position { x: 0, y: 1 });
    ed.process_keypress(Key::Backspace);
    assert_eq!(ed.document().len(), 1);
    assert_eq!(ed.document().row(0).unwrap().content(), "h\u{e9}llo!w\u{f6}rld");
    assert_eq!(ed.cursor_position(), Position { x: 6, y: 0 });
}

#[test]
fn backspace_at_column_one_hands_the_line_start_to_delete() {
    // Moving left lands on column 0, and a delete at column 0 of a later
    // row merges it into the row above.
    let mut ed = editor_over("ab\ncd", 80, 24);
    ed.process_keypress(Key::Down);
    ed.process_keypress(Key::Right);
    assert_eq!(ed.cursor_position(), Position { x: 1, y: 1 });
    ed.process_keypress(Key::Backspace);
    assert_eq!(ed.document().len(), 1);
    assert_eq!(ed.document().row(0).unwrap().content(), "abcd");
    assert_eq!(ed.cursor_position(), Position { x: 0, y: 1 });
}

#[test]
fn backspace_mid_row_removes_the_grapheme_to_the_left() {
    let mut ed = editor_over("abc", 80, 24);
    ed.process_keypress(Key::End);
    ed.process_keypress(Key::Backspace);
    assert_eq!(ed.document().row(0).unwrap().content(), "ab");
    assert_eq!(ed.cursor_position(), Position { x: 2, y: 0 });
}

#[test]
fn backspace_on_the_first_row_deletes_the_first_grapheme() {
    let mut ed = editor_over("ab", 80, 24);
    ed.process_keypress(Key::Right);
    assert_eq!(ed.cursor_position(), Position { x: 1, y: 0 });
    ed.process_keypress(Key::Backspace);
    assert_eq!(ed.document().row(0).unwrap().content(), "b");
    assert_eq!(ed.cursor_position(), Position { x: 0, y: 0 });
}

#[test]
fn backspace_at_the_origin_does_nothing() {
    let mut ed = editor_over("ab", 80, 24);
    ed.process_keypress(Key::Backspace);
    assert_eq!(ed.document().row(0).unwrap().content(), "ab");
    assert_eq!(ed.cursor_position(), Position { x: 0, y: 0 });
}

#[test]
fn delete_removes_under_the_cursor() {
    let mut ed = editor_over("abc", 80, 24);
    ed.process_keypress(Key::Right);
    ed.process_keypress(Key::Delete);
    assert_eq!(ed.document().row(0).unwrap().content(), "ac");
    assert_eq!(ed.cursor_position(), Position { x: 1, y: 0 });
}

#[test]
fn quitting_a_dirty_document_takes_four_presses() {
    let mut ed = editor_over("a", 80, 24);
    ed.process_keypress(Key::Char('x'));
    assert!(ed.document().is_dirty());
    ed.process_keypress(Key::Ctrl('q'));
    assert!(!ed.should_quit());
    assert_eq!(
        ed.status_text(),
        "WARNING! File has unsaved changes. Press Ctrl-Q 3 more times to quit."
    );
    ed.process_keypress(Key::Ctrl('q'));
    ed.process_keypress(Key::Ctrl('q'));
    assert!(!ed.should_quit());
    ed.process_keypress(Key::Ctrl('q'));
    assert!(ed.should_quit());
}

#[test]
fn a_clean_document_quits_at_once() {
    let mut ed = editor_over("a", 80, 24);
    ed.process_keypress(Key::Ctrl('q'));
    assert!(ed.should_quit());
}

#[test]
fn any_other_key_resets_the_quit_counter() {
    let mut ed = editor_over("a", 80, 24);
    ed.process_keypress(Key::Char('x'));
    ed.process_keypress(Key::Ctrl('q'));
    assert!(!ed.should_quit());
    ed.process_keypress(Key::Down);
    assert_eq!(ed.status_text(), "");
    ed.process_keypress(Key::Ctrl('q'));
    ed.process_keypress(Key::Ctrl('q'));
    ed.process_keypress(Key::Ctrl('q'));
    assert!(!ed.should_quit());
}

#[test]
fn save_is_requested_and_recorded() {
    let mut ed = editor_over("a", 80, 24);
    ed.process_keypress(Key::Char('x'));
    let save = ed.process_keypress(Key::Ctrl('s'));
    assert!(save);
    assert!(ed.document().is_dirty());
    let content = ed.document().serialize();
    assert_eq!(content, "xa\n");
    ed.finish_save(true);
    assert!(!ed.document().is_dirty());
    assert_eq!(ed.status_text(), "File saved successfully.");
}

#[test]
fn a_failed_save_keeps_the_dirty_flag() {
    let mut ed = editor_over("a", 80, 24);
    ed.process_keypress(Key::Char('x'));
    ed.finish_save(false);
    assert!(ed.document().is_dirty());
    assert_eq!(ed.status_text(), "Error writing file!");
}

#[test]
fn an_aborted_save_says_so() {
    let mut ed = editor_over("a", 80, 24);
    ed.abort_save();
    assert_eq!(ed.status_text(), "Save aborted.");
}

#[test]
fn incremental_search_moves_with_the_query_and_arrows() {
    let mut ed = editor_over("abcabc", 80, 24);
    ed.process_keypress(Key::Ctrl('f'));
    assert_eq!(ed.status_text(), "Search (ESC to cancel, Arrows to navigate): ");
    ed.process_keypress(Key::Char('a'));
    ed.process_keypress(Key::Char('b'));
    ed.process_keypress(Key::Char('c'));
    assert_eq!(ed.status_text(), "Search (ESC to cancel, Arrows to navigate): abc");
    assert_eq!(ed.cursor_position(), Position { x: 0, y: 0 });
    ed.process_keypress(Key::Right);
    assert_eq!(ed.cursor_position(), Position { x: 3, y: 0 });
    ed.process_keypress(Key::Left);
    assert_eq!(ed.cursor_position(), Position { x: 0, y: 0 });
}

#[test]
fn confirming_a_search_lands_on_the_first_match() {
    let mut ed = editor_over("one\nneedle", 80, 24);
    ed.process_keypress(Key::Ctrl('f'));
    for c in "needle".chars() {
        ed.process_keypress(Key::Char(c));
    }
    ed.process_keypress(Key::Char('\n'));
    assert_eq!(ed.cursor_position(), Position { x: 0, y: 1 });
    assert_eq!(ed.status_text(), "");
}

#[test]
fn a_missed_search_restores_the_cursor_and_reports() {
    let mut ed = editor_over("abc", 80, 24);
    ed.process_keypress(Key::Right);
    let before = ed.cursor_position();
    ed.process_keypress(Key::Ctrl('f'));
    ed.process_keypress(Key::Char('z'));
    ed.process_keypress(Key::Char('\n'));
    assert_eq!(ed.cursor_position(), before);
    assert_eq!(ed.status_text(), "Not found :z.");
}

#[test]
fn cancelling_a_search_restores_the_cursor() {
    let mut ed = editor_over("abcabc", 80, 24);
    ed.process_keypress(Key::Right);
    let before = ed.cursor_position();
    ed.process_keypress(Key::Ctrl('f'));
    ed.process_keypress(Key::Char('b'));
    assert_eq!(ed.cursor_position(), Position { x: 1, y: 0 });
    ed.process_keypress(Key::Esc);
    assert_eq!(ed.cursor_position(), before);
    assert_eq!(ed.status_text(), "");
}

#[test]
fn search_backspace_shortens_the_query() {
    let mut ed = editor_over("ab", 80, 24);
    ed.process_keypress(Key::Ctrl('f'));
    ed.process_keypress(Key::Char('a'));
    ed.process_keypress(Key::Char('z'));
    ed.process_keypress(Key::Backspace);
    assert_eq!(ed.status_text(), "Search (ESC to cancel, Arrows to navigate): a");
}

#[test]
fn search_round_trip_returns_to_the_previous_match() {
    let mut ed = editor_over("abcabc", 80, 24);
    ed.process_keypress(Key::Ctrl('f'));
    ed.process_keypress(Key::Char('a'));
    ed.process_keypress(Key::Char('b'));
    ed.process_keypress(Key::Char('c'));
    ed.process_keypress(Key::Right);
    assert_eq!(ed.cursor_position(), Position { x: 3, y: 0 });
    ed.process_keypress(Key::Up);
    assert_eq!(ed.cursor_position(), Position { x: 0, y: 0 });
}

#[test]
fn prompt_collects_edits_submits_and_cancels() {
    let mut p = Prompt::new();
    assert_eq!(p.key(Key::Char('a')), PromptOutcome::Pending);
    assert_eq!(p.key(Key::Char('b')), PromptOutcome::Pending);
    assert_eq!(p.key(Key::Backspace), PromptOutcome::Pending);
    assert_eq!(p.key(Key::Char('c')), PromptOutcome::Pending);
    assert_eq!(p.text(), "ac");
    assert_eq!(p.key(Key::Char('\t')), PromptOutcome::Pending);
    assert_eq!(p.text(), "ac");
    assert_eq!(p.key(Key::Char('\n')), PromptOutcome::Submitted);
    assert_eq!(p.text(), "ac");
    assert_eq!(p.key(Key::Esc), PromptOutcome::Cancelled);
    assert_eq!(p.text(), "");
}

#[test]
fn decimal_formatting_is_exact() {
    assert_eq!(usize_to_string(0), "0");
    assert_eq!(usize_to_string(7), "7");
    assert_eq!(usize_to_string(10), "10");
    assert_eq!(usize_to_string(90210), "90210");
}

#[test]
fn search_direction_values_are_distinct() {
    assert_ne!(SearchDirection::Forward, SearchDirection::Backward);
}
