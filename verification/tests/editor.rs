use pgblade::editor::SqlEditor;
use pgblade::selection::{Position, Selection};

fn cursor(line: usize, column: usize) -> Selection {
    Selection::cursor(Position::new(line, column))
}

#[test]
fn new_editor_is_empty() {
    let e = SqlEditor::new();
    assert_eq!(e.text(), "");
    assert_eq!(e.line_count(), 1);
    assert_eq!(e.selection(), cursor(0, 0));
    assert!(!e.can_undo());
    assert!(!e.can_redo());
    assert_eq!(e.scroll_offset(), 0);
}

#[test]
fn typing_then_undo_and_redo() {
    let mut e = SqlEditor::new();
    e.insert_text("SELECT 1");
    assert_eq!(e.text(), "SELECT 1");
    assert_eq!(e.selection(), cursor(0, 8));
    assert!(e.can_undo());

    assert!(e.undo());
    assert_eq!(e.text(), "");
    assert_eq!(e.selection(), cursor(0, 0));
    assert!(e.can_redo());

    assert!(e.redo());
    assert_eq!(e.text(), "SELECT 1");
    assert_eq!(e.selection(), cursor(0, 8));
    assert!(!e.redo());
}

#[test]
fn insert_replaces_selection_and_undo_restores_it() {
    let mut e = SqlEditor::new();
    e.set_text("hello world");
    e.select_all();
    let all = e.selection();
    assert_eq!(all, Selection::range(Position::new(0, 0), Position::new(0, 11)));
    e.insert_text("x");
    assert_eq!(e.text(), "x");
    assert_eq!(e.selection(), cursor(0, 1));
    assert!(e.undo());
    assert_eq!(e.text(), "hello world");
    assert_eq!(e.selection(), all);
    assert!(!e.can_undo());
}

#[test]
fn newline_moves_cursor_to_next_line() {
    let mut e = SqlEditor::new();
    e.insert_text("SELECT 1");
    e.insert_text("\n");
    e.insert_text("FROM t");
    assert_eq!(e.text(), "SELECT 1\nFROM t");
    assert_eq!(e.selection(), cursor(1, 6));
    assert_eq!(e.line_count(), 2);
    assert_eq!(e.line(1), "FROM t");
    assert_eq!(e.line(5), "");
}

#[test]
fn backspace_and_delete_forward() {
    let mut e = SqlEditor::new();
    e.set_text("abc");
    e.move_to_line_end(false);
    e.backspace();
    assert_eq!(e.text(), "ab");
    assert_eq!(e.selection(), cursor(0, 2));
    e.move_to_line_start(false);
    e.delete_forward();
    assert_eq!(e.text(), "b");
    assert_eq!(e.selection(), cursor(0, 0));
    e.backspace();
    assert_eq!(e.text(), "b");
    e.move_to_line_end(false);
    e.delete_forward();
    assert_eq!(e.text(), "b");
}

#[test]
fn backspace_at_line_start_joins_lines() {
    let mut e = SqlEditor::new();
    e.set_text("ab\ncd");
    e.move_down(false);
    assert_eq!(e.selection(), cursor(1, 0));
    e.backspace();
    assert_eq!(e.text(), "abcd");
    assert_eq!(e.selection(), cursor(0, 2));
    assert!(e.undo());
    assert_eq!(e.text(), "ab\ncd");
    assert_eq!(e.selection(), cursor(1, 0));
}

#[test]
fn delete_words() {
    let mut e = SqlEditor::new();
    e.set_text("select foo_bar");
    e.move_to_line_end(false);
    e.delete_word_backward();
    assert_eq!(e.text(), "select ");
    assert_eq!(e.selection(), cursor(0, 7));

    e.set_text("select  foo");
    e.delete_word_forward();
    assert_eq!(e.text(), "foo");
    assert_eq!(e.selection(), cursor(0, 0));
}

#[test]
fn horizontal_moves_collapse_a_selection_first() {
    let mut e = SqlEditor::new();
    e.set_text("abc");
    e.select_all();
    e.move_left(false);
    assert_eq!(e.selection(), cursor(0, 0));
    e.select_all();
    e.move_right(false);
    assert_eq!(e.selection(), cursor(0, 3));
    e.move_right(false);
    assert_eq!(e.selection(), cursor(0, 3));
    e.move_left(true);
    assert_eq!(e.selection(), Selection::range(Position::new(0, 3), Position::new(0, 2)));
}

#[test]
fn vertical_moves_clamp_the_column() {
    let mut e = SqlEditor::new();
    e.set_text("abcdef\nab\nabcdef");
    e.move_to_line_end(false);
    e.move_down(false);
    assert_eq!(e.selection().head(), Position::new(1, 2));
    e.move_down(false);
    assert_eq!(e.selection().head(), Position::new(2, 2));
    e.move_down(false);
    assert_eq!(e.selection().head(), Position::new(2, 2));
}

#[test]
fn extending_vertically_keeps_the_goal_column() {
    let mut e = SqlEditor::new();
    e.set_text("abcdef\nab\nabcdef");
    e.move_to_line_end(false);
    e.move_down(true);
    assert_eq!(e.selection().head(), Position::new(1, 2));
    e.move_down(true);
    assert_eq!(e.selection().head(), Position::new(2, 6));
    assert_eq!(e.selection().tail(), Position::new(0, 6));
    e.move_up(true);
    e.move_up(true);
    assert_eq!(e.selection().head(), Position::new(0, 6));
    e.move_up(true);
    assert_eq!(e.selection().head(), Position::new(0, 6));
}

#[test]
fn word_moves() {
    let mut e = SqlEditor::new();
    e.set_text("hello world");
    e.move_word_right(false);
    assert_eq!(e.selection(), cursor(0, 6));
    e.move_word_left(false);
    assert_eq!(e.selection(), cursor(0, 0));
    e.move_word_right(true);
    assert_eq!(e.selection(), Selection::range(Position::new(0, 0), Position::new(0, 6)));
}

#[test]
fn copy_and_cut() {
    let mut e = SqlEditor::new();
    e.set_text("one\ntwo");
    assert_eq!(e.copy_text(), "one\n");
    let text = e.cut();
    assert_eq!(text, "one\n");
    assert_eq!(e.text(), "one\ntwo");
    e.select_all();
    assert_eq!(e.copy_text(), "one\ntwo");
    let text = e.cut();
    assert_eq!(text, "one\ntwo");
    assert_eq!(e.text(), "");
    assert!(e.undo());
    assert_eq!(e.text(), "one\ntwo");
}

#[test]
fn mouse_selection() {
    let mut e = SqlEditor::new();
    e.set_text("hello world");
    e.mouse_down(Position::new(0, 7), 2);
    assert_eq!(e.selection(), Selection::range(Position::new(0, 6), Position::new(0, 11)));

    e.mouse_down(Position::new(0, 1), 1);
    assert_eq!(e.selection(), cursor(0, 1));
    e.mouse_move(Position::new(0, 4), true);
    assert_eq!(e.selection(), Selection::range(Position::new(0, 1), Position::new(0, 4)));
    e.mouse_move(Position::new(0, 5), false);
    assert_eq!(e.selection(), Selection::range(Position::new(0, 1), Position::new(0, 4)));
    e.mouse_up();
    e.mouse_move(Position::new(0, 9), true);
    assert_eq!(e.selection(), Selection::range(Position::new(0, 1), Position::new(0, 4)));
}

#[test]
fn pointer_positions_are_clamped_to_the_text() {
    let mut e = SqlEditor::new();
    e.set_text("ab\ncdef");
    assert_eq!(e.clamp_to_text(5, 9), Position::new(1, 4));
    assert_eq!(e.clamp_to_text(0, 1), Position::new(0, 1));
    assert_eq!(e.clamp_to_text(0, 7), Position::new(0, 2));
}

#[test]
fn moving_down_scrolls_with_a_margin() {
    let mut e = SqlEditor::new();
    let text: Vec<String> = (0..40).map(|i| format!("line{}", i)).collect();
    e.set_text(&text.join("\n"));
    for _ in 0..27 {
        e.move_down(false);
    }
    assert_eq!(e.selection().head().line, 27);
    assert_eq!(e.scroll_offset(), 0);
    e.move_down(false);
    assert_eq!(e.selection().head().line, 28);
    assert_eq!(e.scroll_offset(), 1);
    for _ in 0..26 {
        e.move_up(false);
    }
    assert_eq!(e.selection().head().line, 2);
    assert_eq!(e.scroll_offset(), 0);
}

#[test]
fn set_text_forgets_history() {
    let mut e = SqlEditor::new();
    e.insert_text("x");
    e.set_text("fresh");
    assert!(!e.can_undo());
    assert_eq!(e.selection(), cursor(0, 0));
    assert!(!e.undo());
    assert_eq!(e.text(), "fresh");
}

#[test]
fn selection_offsets_are_char_offsets() {
    let mut e = SqlEditor::new();
    e.set_text("ab\ncd");
    e.select_all();
    assert_eq!(e.selection_offsets(), (0, 5));
}
