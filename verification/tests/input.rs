use biscuits::input::{box_step, insert_utf8, BoxAction, handle_escape, render_box, utf8_continuation_bytes, InputEditor, RenderedBox, MAX_ROWS, MIN_ROWS};

// ---- Editing: insert / cursor basics ----

#[test]
fn insert_appends_and_advances_cursor() {
    let mut e = InputEditor::new();
    for c in "abc".chars() {
        e.insert_char(c);
    }
    assert_eq!(e.text(), "abc");
    assert_eq!(e.cursor(), 3);
    assert!(!e.is_empty());
}

#[test]
fn new_editor_is_empty() {
    let e = InputEditor::new();
    assert!(e.is_empty());
    assert_eq!(e.cursor(), 0);
    assert_eq!(e.text(), "");
}

#[test]
fn insert_in_middle() {
    let mut e = InputEditor::new();
    e.insert_str("ac");
    e.move_left(); // cursor between a and c
    e.insert_char('b');
    assert_eq!(e.text(), "abc");
    assert_eq!(e.cursor(), 2);
}

#[test]
fn insert_at_start() {
    let mut e = InputEditor::new();
    e.insert_str("bc");
    e.move_home();
    e.insert_char('a');
    assert_eq!(e.text(), "abc");
    assert_eq!(e.cursor(), 1);
}

// ---- Backspace ----

#[test]
fn backspace_at_end() {
    let mut e = InputEditor::new();
    e.insert_str("abc");
    e.backspace();
    assert_eq!(e.text(), "ab");
    assert_eq!(e.cursor(), 2);
}

#[test]
fn backspace_in_middle() {
    let mut e = InputEditor::new();
    e.insert_str("abc");
    e.move_left(); // between b and c
    e.backspace(); // deletes b
    assert_eq!(e.text(), "ac");
    assert_eq!(e.cursor(), 1);
}

#[test]
fn backspace_at_start_is_noop() {
    let mut e = InputEditor::new();
    e.insert_str("abc");
    e.move_home();
    e.backspace();
    assert_eq!(e.text(), "abc");
    assert_eq!(e.cursor(), 0);
}

// ---- Delete ----

#[test]
fn delete_at_cursor() {
    let mut e = InputEditor::new();
    e.insert_str("abc");
    e.move_home();
    e.delete(); // removes a
    assert_eq!(e.text(), "bc");
    assert_eq!(e.cursor(), 0);
}

#[test]
fn delete_at_end_is_noop() {
    let mut e = InputEditor::new();
    e.insert_str("abc");
    e.delete();
    assert_eq!(e.text(), "abc");
    assert_eq!(e.cursor(), 3);
}

#[test]
fn delete_in_middle() {
    let mut e = InputEditor::new();
    e.insert_str("abc");
    e.move_left();
    e.move_left(); // between a and b
    e.delete(); // removes b
    assert_eq!(e.text(), "ac");
    assert_eq!(e.cursor(), 1);
}

// ---- Movement clamps ----

#[test]
fn move_left_clamps_at_start() {
    let mut e = InputEditor::new();
    e.insert_str("ab");
    e.move_home();
    e.move_left();
    assert_eq!(e.cursor(), 0);
}

#[test]
fn move_right_clamps_at_end() {
    let mut e = InputEditor::new();
    e.insert_str("ab");
    e.move_right();
    assert_eq!(e.cursor(), 2);
}

#[test]
fn home_and_end() {
    let mut e = InputEditor::new();
    e.insert_str("hello");
    e.move_home();
    assert_eq!(e.cursor(), 0);
    e.move_end();
    assert_eq!(e.cursor(), 5);
}

#[test]
fn clear_resets() {
    let mut e = InputEditor::new();
    e.insert_str("hello");
    e.clear();
    assert!(e.is_empty());
    assert_eq!(e.cursor(), 0);
}

// ---- UTF-8 correctness (must never panic on char boundaries) ----

#[test]
fn utf8_accented_backspace_no_panic() {
    let mut e = InputEditor::new();
    e.insert_str("héllo"); // 'é' is 2 bytes
    assert_eq!(e.cursor(), 5);
    e.backspace(); // remove 'o'
    e.backspace(); // remove 'l'
    e.backspace(); // remove 'l'
    e.backspace(); // remove 'é'  <-- byte-naive code would panic here
    assert_eq!(e.text(), "h");
    assert_eq!(e.cursor(), 1);
}

#[test]
fn utf8_insert_before_multibyte() {
    let mut e = InputEditor::new();
    e.insert_str("é"); // 2 bytes, 1 char
    e.move_home();
    e.insert_char('x');
    assert_eq!(e.text(), "xé");
    assert_eq!(e.cursor(), 1);
}

#[test]
fn emoji_editing_no_panic() {
    let mut e = InputEditor::new();
    e.insert_str("a😀b"); // emoji is 4 bytes, 1 char
    assert_eq!(e.cursor(), 3);
    e.move_left(); // between 😀 and b
    e.backspace(); // delete the emoji
    assert_eq!(e.text(), "ab");
    assert_eq!(e.cursor(), 1);
}

#[test]
fn delete_at_multibyte_cursor() {
    let mut e = InputEditor::new();
    e.insert_str("é😀");
    e.move_home();
    e.delete(); // delete é
    assert_eq!(e.text(), "😀");
    e.delete(); // delete emoji
    assert_eq!(e.text(), "");
}

// ---- delete_word (Ctrl-W) ----

#[test]
fn delete_word_removes_last_word() {
    let mut e = InputEditor::new();
    e.insert_str("hello world");
    e.delete_word();
    assert_eq!(e.text(), "hello ");
    assert_eq!(e.cursor(), 6);
}

#[test]
fn delete_word_skips_trailing_space() {
    let mut e = InputEditor::new();
    e.insert_str("hello world   ");
    e.delete_word();
    assert_eq!(e.text(), "hello ");
}

#[test]
fn delete_word_at_start_noop() {
    let mut e = InputEditor::new();
    e.insert_str("hello");
    e.move_home();
    e.delete_word();
    assert_eq!(e.text(), "hello");
}

#[test]
fn delete_word_in_middle() {
    let mut e = InputEditor::new();
    e.insert_str("foo bar baz");
    // cursor at end of "bar" -> move left 4 (past " baz")
    for _ in 0..4 {
        e.move_left();
    }
    e.delete_word(); // removes "bar"
    assert_eq!(e.text(), "foo  baz");
}

#[test]
fn delete_word_only_spaces() {
    let mut e = InputEditor::new();
    e.insert_str("    ");
    e.delete_word();
    assert_eq!(e.text(), "");
    assert_eq!(e.cursor(), 0);
}

// ---- render_box: borders, padding, content width ----

fn content_rows(rb: &RenderedBox) -> &[String] {
    &rb.lines[1..rb.lines.len() - 1]
}

#[test]
fn render_box_has_borders_and_min_two_rows() {
    let rb = render_box("hi", 2, 20);
    assert!(rb.lines.first().unwrap().starts_with('┌'));
    assert!(rb.lines.first().unwrap().ends_with('┐'));
    assert!(rb.lines.last().unwrap().starts_with('└'));
    assert!(rb.lines.last().unwrap().ends_with('┘'));
    // 2 content rows minimum + 2 borders.
    assert_eq!(rb.lines.len(), MIN_ROWS + 2);
    for row in content_rows(&rb) {
        assert!(row.starts_with('│'));
        assert!(row.ends_with('│'));
    }
}

#[test]
fn render_box_content_width_is_width_minus_four() {
    let width = 20;
    let rb = render_box("", 0, width);
    // Each content row should be exactly `width` display chars wide:
    // │ + space + content_width + space + │
    for row in content_rows(&rb) {
        assert_eq!(row.chars().count(), width);
    }
    // Top border is also `width` wide.
    assert_eq!(rb.lines[0].chars().count(), width);
}

#[test]
fn render_box_pads_short_content() {
    let rb = render_box("ab", 2, 12); // content_width = 8
    let first = &content_rows(&rb)[0];
    // "│ ab      │" — 8-char content area with "ab" + 6 spaces.
    assert_eq!(first, "│ ab       │");
    assert_eq!(first.chars().count(), 12);
}

// ---- render_box: wrapping ----

#[test]
fn render_box_wraps_at_content_width() {
    // width 9 => content_width = 5. "abcdefg" (7 chars) wraps to 2 rows.
    let rb = render_box("abcdefg", 7, 9);
    let rows = content_rows(&rb);
    assert_eq!(rows.len(), 2);
    assert!(rows[0].contains("abcde"));
    assert!(rows[1].contains("fg"));
}

#[test]
fn render_box_wraps_exactly_at_boundary() {
    // content_width = 5, text exactly 5 chars: should stay 1 wrapped row,
    // but min 2 content rows means the box still has 2 rows.
    let rb = render_box("abcde", 5, 9);
    let rows = content_rows(&rb);
    assert_eq!(rows.len(), 2); // min rows
    assert!(rows[0].contains("abcde"));
    // Cursor sat one past the 5th char -> should be on row 2 (next line).
    assert_eq!(rb.cursor_row, 2);
    assert_eq!(rb.cursor_col, 2); // start of content on the second row
}

#[test]
fn render_box_auto_expands_past_min() {
    // content_width = 5; 13 chars -> 3 wrapped rows (5+5+3).
    let rb = render_box("abcdefghijklm", 13, 9);
    let rows = content_rows(&rb);
    assert_eq!(rows.len(), 3);
}

// ---- render_box: cursor (row, col) ----

#[test]
fn cursor_at_start() {
    let rb = render_box("hello", 0, 20);
    assert_eq!(rb.cursor_row, 1); // first content row
    assert_eq!(rb.cursor_col, 2); // just after "│ "
}

#[test]
fn cursor_in_middle_no_wrap() {
    let rb = render_box("hello", 3, 20);
    assert_eq!(rb.cursor_row, 1);
    assert_eq!(rb.cursor_col, 2 + 3);
}

#[test]
fn cursor_at_end_no_wrap() {
    let rb = render_box("hello", 5, 20);
    assert_eq!(rb.cursor_row, 1);
    assert_eq!(rb.cursor_col, 2 + 5);
}

#[test]
fn cursor_after_wrap() {
    // content_width = 5; "abcdefg", cursor at index 6 (on 'g', second row).
    let rb = render_box("abcdefg", 6, 9);
    assert_eq!(rb.cursor_row, 2); // second content row
    assert_eq!(rb.cursor_col, 2 + 1); // 'g' is the 2nd char of row 2
}

#[test]
fn cursor_at_very_end_after_wrap() {
    // "abcdefg" 7 chars, content_width 5, cursor past last char.
    let rb = render_box("abcdefg", 7, 9);
    assert_eq!(rb.cursor_row, 2);
    assert_eq!(rb.cursor_col, 2 + 2); // after "fg"
}

// ---- render_box: scrolling cap at MAX_ROWS ----

#[test]
fn render_box_caps_rows_and_keeps_cursor_visible() {
    // content_width = 5; build text that wraps into > MAX_ROWS rows.
    let text: String = "x".repeat(5 * (MAX_ROWS + 5));
    let cursor = text.chars().count(); // at the very end
    let rb = render_box(&text, cursor, 9);
    let rows = content_rows(&rb);
    assert_eq!(rows.len(), MAX_ROWS); // capped
                                      // Cursor must still be within the visible window.
    assert!(rb.cursor_row >= 1 && rb.cursor_row <= MAX_ROWS);
}

// ---- render_box: degenerate widths must not panic ----

#[test]
fn render_box_zero_width_no_panic() {
    let rb = render_box("hello", 5, 0);
    // Clamped to MIN_WIDTH; should still produce a valid box.
    assert!(rb.lines.len() >= MIN_ROWS + 2);
    for line in &rb.lines {
        assert!(!line.is_empty());
    }
}

#[test]
fn render_box_tiny_width_no_panic() {
    for w in 0..6 {
        let rb = render_box("abcdef", 6, w);
        assert!(rb.lines.len() >= MIN_ROWS + 2);
    }
}

#[test]
fn render_box_empty_text() {
    let rb = render_box("", 0, 10);
    let rows = content_rows(&rb);
    assert_eq!(rows.len(), MIN_ROWS);
    assert_eq!(rb.cursor_row, 1);
    assert_eq!(rb.cursor_col, 2);
}

// ---- render_box: UTF-8 content padding correctness ----

#[test]
fn render_box_utf8_content_no_panic() {
    let rb = render_box("héllo😀", 6, 20);
    // Just ensure it renders and the cursor is placed by char count.
    assert_eq!(rb.cursor_row, 1);
    assert_eq!(rb.cursor_col, 2 + 6);
}

// ---- helpers ----

#[test]
fn utf8_continuation_byte_counts() {
    assert_eq!(utf8_continuation_bytes(b'a'), 0); // ASCII
    assert_eq!(utf8_continuation_bytes(0xc3), 1); // 2-byte lead
    assert_eq!(utf8_continuation_bytes(0xe2), 2); // 3-byte lead
    assert_eq!(utf8_continuation_bytes(0xf0), 3); // 4-byte lead
}

// ---- handle_escape: byte consumption ----
//
// The ESC byte is consumed by the caller, so each fixture below is the bytes
// that follow ESC. We feed a trailing sentinel byte and assert it is NOT
// consumed, proving the escape parser stops at the sequence's true end and
// never eats the user's next keystroke.

#[test]
fn escape_arrow_right_moves_and_stops() {
    let mut e = InputEditor::new();
    e.insert_str("ab");
    e.move_home(); // cursor at 0
    let seq: &[u8] = b"[Cx"; // arrow-right, then sentinel 'x'
    let used = handle_escape(seq, &mut e);
    let seq = &seq[used..];
    assert_eq!(e.cursor(), 1); // moved right
    assert_eq!(seq, b"x"); // sentinel untouched
}

#[test]
fn escape_delete_tilde_acts_and_stops() {
    let mut e = InputEditor::new();
    e.insert_str("abc");
    e.move_home();
    let seq: &[u8] = b"[3~Z"; // Delete, then sentinel
    let used = handle_escape(seq, &mut e);
    let seq = &seq[used..];
    assert_eq!(e.text(), "bc"); // 'a' deleted
    assert_eq!(seq, b"Z"); // sentinel untouched
}

#[test]
fn escape_modified_arrow_does_not_swallow_next_key() {
    // REGRESSION: `[1;5C` (Ctrl-Right) ends in a letter, not `~`. The old
    // parser looped waiting for `~` and consumed the following keystroke. It
    // must now stop at `C` and leave the sentinel byte for the reader.
    let mut e = InputEditor::new();
    e.insert_str("hello");
    e.move_home();
    let seq: &[u8] = b"[1;5CQ"; // modified arrow, then sentinel 'Q'
    let used = handle_escape(seq, &mut e);
    let seq = &seq[used..];
    // Unrecognized (non-`~`) sequence: cursor unchanged.
    assert_eq!(e.cursor(), 0);
    // Crucially, the sentinel must remain unread.
    assert_eq!(seq, b"Q");
}

#[test]
fn escape_home_end_numeric_forms() {
    let mut e = InputEditor::new();
    e.insert_str("hello");
    // `[1~` = Home
    let seq: &[u8] = b"[1~";
    let used = handle_escape(seq, &mut e);
    assert_eq!(used, seq.len());
    assert_eq!(e.cursor(), 0);
    // `[4~` = End
    let seq: &[u8] = b"[4~";
    let used = handle_escape(seq, &mut e);
    assert_eq!(used, seq.len());
    assert_eq!(e.cursor(), 5);
}

#[test]
fn box_bytes_drive_the_editor() {
    let mut e = InputEditor::new();
    assert_eq!(box_step(&mut e, 0x04), BoxAction::Eof);
    assert_eq!(box_step(&mut e, b'h'), BoxAction::Character(0));
    assert!(insert_utf8(&mut e, b"h"));
    assert_eq!(box_step(&mut e, 0xc3), BoxAction::Character(1));
    assert!(insert_utf8(&mut e, "é".as_bytes()));
    assert!(!insert_utf8(&mut e, &[0xc3]));
    assert_eq!(e.text(), "hé");
    assert_eq!(box_step(&mut e, 0x04), BoxAction::Ignore);
    assert_eq!(box_step(&mut e, 0x01), BoxAction::Ignore);
    assert_eq!(box_step(&mut e, 0x1b), BoxAction::Escape);
    assert_eq!(box_step(&mut e, 0x7f), BoxAction::Redraw);
    assert_eq!(e.text(), "h");
    e.insert_str(" world");
    assert_eq!(box_step(&mut e, 0x17), BoxAction::Redraw);
    assert_eq!(e.text(), "h ");
    assert_eq!(box_step(&mut e, b'\r'), BoxAction::Submit("h ".to_string()));
    assert_eq!(box_step(&mut e, 0x03), BoxAction::Cancel);
}
