use pipr::lineeditor::{word_at_idx, EditorEvent, LineEditor};

fn cs(s: &str) -> Vec<char> {
    s.chars().collect()
}

fn text(e: &LineEditor) -> String {
    e.text.iter().collect()
}

fn editor_with(s: &str) -> LineEditor {
    let mut e = LineEditor::new();
    e.load_text(&cs(s));
    e
}

#[test]
fn insert_splices_at_cursor_and_advances() {
    let mut e = editor_with("echo world");
    e.cursor = 5;
    e.insert_at_cursor(&cs("hello "));
    assert_eq!(text(&e), "echo hello world");
    assert_eq!(e.cursor, 11);
    assert_eq!(e.content_str().iter().collect::<String>(), "echo hello world");
}

#[test]
fn insert_with_line_break_splits_line() {
    let mut e = editor_with("ab");
    e.cursor = 1;
    e.insert_at_cursor(&cs("x\ny"));
    let lines: Vec<String> = e.content_lines().iter().map(|l| l.iter().collect()).collect();
    assert_eq!(lines, vec!["ax".to_string(), "yb".to_string()]);
    assert_eq!(e.content_str().iter().collect::<String>(), "ax yb");
    assert_eq!(e.cursor_row(), 1);
    assert_eq!(e.cursor_col(), 1);
}

#[test]
fn backspace_at_line_start_joins_lines() {
    let mut e = editor_with("ab\ncd");
    e.cursor = 3;
    e.apply_event(EditorEvent::DeleteBackward);
    assert_eq!(text(&e), "abcd");
    assert_eq!(e.cursor, 2);
}

#[test]
fn backspace_at_buffer_start_does_nothing() {
    let mut e = editor_with("ab");
    e.cursor = 0;
    e.apply_event(EditorEvent::DeleteBackward);
    assert_eq!(text(&e), "ab");
    assert_eq!(e.cursor, 0);
}

#[test]
fn delete_forward_and_clear() {
    let mut e = editor_with("abc");
    e.cursor = 1;
    e.apply_event(EditorEvent::DeleteForward);
    assert_eq!(text(&e), "ac");
    e.apply_event(EditorEvent::Clear);
    assert_eq!(text(&e), "");
    assert_eq!(e.cursor, 0);
    assert_eq!(e.content_lines().len(), 1);
}

#[test]
fn moving_up_and_down_keeps_column_where_possible() {
    let mut e = editor_with("abcdef\nxy\nlonger");
    e.cursor = 4;
    e.apply_event(EditorEvent::MoveDown);
    assert_eq!(e.cursor, 9);
    assert_eq!(e.cursor_row(), 1);
    assert_eq!(e.cursor_col(), 2);
    e.apply_event(EditorEvent::MoveDown);
    assert_eq!(e.cursor_row(), 2);
    assert_eq!(e.cursor_col(), 2);
    e.apply_event(EditorEvent::MoveUp);
    e.apply_event(EditorEvent::MoveUp);
    assert_eq!(e.cursor, 2);
    e.apply_event(EditorEvent::MoveUp);
    assert_eq!(e.cursor, 2);
}

#[test]
fn line_start_and_end() {
    let mut e = editor_with("ab\ncdef");
    e.cursor = 5;
    e.apply_event(EditorEvent::LineStart);
    assert_eq!(e.cursor, 3);
    e.apply_event(EditorEvent::LineEnd);
    assert_eq!(e.cursor, 7);
    e.apply_event(EditorEvent::MoveLeft);
    e.apply_event(EditorEvent::MoveRight);
    e.apply_event(EditorEvent::MoveRight);
    assert_eq!(e.cursor, 7);
}

#[test]
fn insert_char_and_newline() {
    let mut e = LineEditor::new();
    e.apply_event(EditorEvent::InsertChar('a'));
    e.apply_event(EditorEvent::NewLine);
    e.apply_event(EditorEvent::InsertChar('b'));
    assert_eq!(text(&e), "a\nb");
    assert_eq!(e.content_str().iter().collect::<String>(), "a b");
}

#[test]
fn word_at_index_finds_word_under_or_before() {
    let line = cs("ls /tm");
    assert_eq!(word_at_idx(&line, 6), Some(cs("/tm")));
    assert_eq!(word_at_idx(&line, 4), Some(cs("/tm")));
    assert_eq!(word_at_idx(&line, 1), Some(cs("ls")));
    assert_eq!(word_at_idx(&cs("a  b"), 2), None);
    assert_eq!(word_at_idx(&cs("ab cd"), 2), None);
    assert_eq!(word_at_idx(&cs("ab cd"), 5), Some(cs("cd")));
    assert_eq!(word_at_idx(&line, 9), None);
    assert_eq!(word_at_idx(&cs(""), 0), None);
}

#[test]
fn hovered_char_is_none_past_line_end() {
    let mut e = editor_with("ab\ncd");
    e.cursor = 1;
    assert_eq!(e.hovered_char(), Some('b'));
    e.cursor = 2;
    assert_eq!(e.hovered_char(), None);
    e.cursor = 5;
    assert_eq!(e.hovered_char(), None);
}

#[test]
fn set_content_joins_lines_and_puts_cursor_at_end() {
    let mut e = LineEditor::new();
    e.set_content(&vec![cs("one"), cs("two")]);
    assert_eq!(text(&e), "one\ntwo");
    assert_eq!(e.cursor, 7);
    assert_eq!(e.current_line(), cs("two"));
}
