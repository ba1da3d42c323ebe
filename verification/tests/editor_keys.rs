use pgblade::editor::SqlEditor;
use pgblade::editor_keys::{EditorCommand, SqlEditorEvent};
use pgblade::selection::{Position, Selection};

fn key(k: &str, ch: Option<&str>, cmd: bool, alt: bool, shift: bool) -> EditorCommand {
    EditorCommand::from_keystroke(k, ch.map(|s| s.to_string()), cmd, alt, shift, false)
}

fn run(e: &mut SqlEditor, k: &str, ch: Option<&str>, cmd: bool, alt: bool, shift: bool) {
    let c = key(k, ch, cmd, alt, shift);
    e.handle_command(c, None);
}

#[test]
fn arrows_map_to_moves() {
    assert!(matches!(key("left", None, true, false, false), EditorCommand::MoveToLineStart { extend: false }));
    assert!(matches!(key("left", None, false, true, true), EditorCommand::MoveWordLeft { extend: true }));
    assert!(matches!(key("left", None, false, false, false), EditorCommand::MoveLeft { extend: false }));
    assert!(matches!(key("right", None, true, false, true), EditorCommand::MoveToLineEnd { extend: true }));
    assert!(matches!(key("up", None, false, false, true), EditorCommand::MoveUp { extend: true }));
    assert!(matches!(key("home", None, false, false, false), EditorCommand::MoveToLineStart { extend: false }));
    assert!(matches!(key("end", None, false, false, false), EditorCommand::MoveToLineEnd { extend: false }));
}

#[test]
fn editing_keys_map_to_edits() {
    assert!(matches!(key("backspace", None, false, true, false), EditorCommand::DeleteWordBackward));
    assert!(matches!(key("delete", None, false, false, false), EditorCommand::DeleteForward));
    assert!(matches!(key("enter", None, true, false, false), EditorCommand::Execute));
    match key("enter", None, false, false, false) {
        EditorCommand::InsertText(t) => assert_eq!(t, "\n"),
        other => panic!("unexpected {:?}", other),
    }
    match key("tab", None, false, false, false) {
        EditorCommand::InsertText(t) => assert_eq!(t, "    "),
        other => panic!("unexpected {:?}", other),
    }
    assert!(matches!(key("z", Some("z"), true, false, true), EditorCommand::Redo));
    assert!(matches!(key("z", Some("z"), true, false, false), EditorCommand::Undo));
    assert!(matches!(key("v", Some("v"), true, false, false), EditorCommand::Paste));
}

#[test]
fn plain_keys_type_their_text() {
    match key("a", Some("a"), false, false, false) {
        EditorCommand::InsertText(t) => assert_eq!(t, "a"),
        other => panic!("unexpected {:?}", other),
    }
    assert!(matches!(key("a", Some("a"), true, false, false), EditorCommand::SelectAll));
    assert!(matches!(key("k", Some("k"), true, false, false), EditorCommand::Ignore));
    assert!(matches!(
        EditorCommand::from_keystroke("k", Some("k".to_string()), false, false, false, true),
        EditorCommand::Ignore
    ));
    assert!(matches!(key("f5", None, false, false, false), EditorCommand::Ignore));
}

#[test]
fn typing_and_executing_through_keys() {
    let mut e = SqlEditor::new();
    for ch in ["S", "E", "L"] {
        let out = e.handle_command(key(ch, Some(ch), false, false, true), None);
        assert!(matches!(out.event, Some(SqlEditorEvent::Changed)));
    }
    let out = e.handle_command(key("enter", None, true, false, false), None);
    match out.event {
        Some(SqlEditorEvent::Execute(t)) => assert_eq!(t, "SEL"),
        other => panic!("unexpected {:?}", other),
    }
    assert!(out.clipboard.is_none());
    assert_eq!(e.text(), "SEL");
}

#[test]
fn copy_cut_and_paste_through_keys() {
    let mut e = SqlEditor::new();
    e.set_text("select 1");
    run(&mut e, "a", Some("a"), true, false, false);
    let out = e.handle_command(key("c", Some("c"), true, false, false), None);
    assert_eq!(out.clipboard.as_deref(), Some("select 1"));
    assert!(out.event.is_none());
    let out = e.handle_command(key("x", Some("x"), true, false, false), None);
    assert_eq!(out.clipboard.as_deref(), Some("select 1"));
    assert!(matches!(out.event, Some(SqlEditorEvent::Changed)));
    assert_eq!(e.text(), "");
    let out = e.handle_command(EditorCommand::Paste, Some("select 2".to_string()));
    assert!(matches!(out.event, Some(SqlEditorEvent::Changed)));
    assert_eq!(e.text(), "select 2");
    let out = e.handle_command(EditorCommand::Paste, None);
    assert!(out.event.is_none());
    assert_eq!(e.text(), "select 2");
}

#[test]
fn undo_and_redo_through_keys() {
    let mut e = SqlEditor::new();
    let out = e.handle_command(key("z", Some("z"), true, false, false), None);
    assert!(out.event.is_none());
    run(&mut e, "x", Some("x"), false, false, false);
    let out = e.handle_command(key("z", Some("z"), true, false, false), None);
    assert!(matches!(out.event, Some(SqlEditorEvent::Changed)));
    assert_eq!(e.text(), "");
    let out = e.handle_command(key("z", Some("z"), true, false, true), None);
    assert!(matches!(out.event, Some(SqlEditorEvent::Changed)));
    assert_eq!(e.text(), "x");
}

#[test]
fn shift_arrows_extend_the_selection() {
    let mut e = SqlEditor::new();
    e.set_text("hello world");
    run(&mut e, "right", None, false, true, true);
    assert_eq!(e.selection(), Selection::range(Position::new(0, 0), Position::new(0, 6)));
    run(&mut e, "backspace", None, false, false, false);
    assert_eq!(e.text(), "world");
    run(&mut e, "end", None, false, false, false);
    run(&mut e, "backspace", None, false, true, false);
    assert_eq!(e.text(), "");
}
