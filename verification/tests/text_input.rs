use pgblade::text_input::{TextInput, TextInputEvent, TextInputKey};

fn typed(s: &str) -> TextInputKey {
    TextInputKey::Other { key_char: Some(s.to_string()), platform: false, control: false }
}

fn changed(e: Option<TextInputEvent>) -> Option<String> {
    match e {
        Some(TextInputEvent::Changed(s)) => Some(s),
        _ => None,
    }
}

#[test]
fn typing_inserts_at_the_cursor_and_reports_the_change() {
    let mut input = TextInput::new(false);
    assert_eq!(changed(input.handle_key(typed("a"), None)), Some("a".to_string()));
    assert_eq!(changed(input.handle_key(typed("c"), None)), Some("ac".to_string()));
    assert!(input.handle_key(TextInputKey::Left, None).is_none());
    assert_eq!(changed(input.handle_key(typed("b"), None)), Some("abc".to_string()));
    assert_eq!(input.text(), "abc");
    assert_eq!(input.before_cursor(), "ab");
    assert_eq!(input.after_cursor(), "c");
}

#[test]
fn modified_keys_do_not_type() {
    let mut input = TextInput::new(false);
    let key = TextInputKey::Other { key_char: Some("x".to_string()), platform: true, control: false };
    assert!(input.handle_key(key, None).is_none());
    let key = TextInputKey::Other { key_char: Some("x".to_string()), platform: false, control: true };
    assert!(input.handle_key(key, None).is_none());
    let key = TextInputKey::Other { key_char: None, platform: false, control: false };
    assert!(input.handle_key(key, None).is_none());
    assert_eq!(input.text(), "");
}

#[test]
fn backspace_undoes_typing() {
    let mut input = TextInput::new(false);
    input.set_text("ab".to_string());
    input.handle_key(TextInputKey::Left, None);
    input.handle_key(typed("x"), None);
    assert_eq!(input.text(), "axb");
    assert_eq!(changed(input.handle_key(TextInputKey::Backspace, None)), Some("ab".to_string()));
    assert_eq!(input.before_cursor(), "a");
}

#[test]
fn backspace_and_delete_at_the_ends_do_nothing() {
    let mut input = TextInput::new(false);
    input.set_text("ab".to_string());
    assert!(input.handle_key(TextInputKey::Delete, None).is_none());
    input.handle_key(TextInputKey::Home, None);
    assert!(input.handle_key(TextInputKey::Backspace, None).is_none());
    assert_eq!(changed(input.handle_key(TextInputKey::Delete, None)), Some("b".to_string()));
}

#[test]
fn enter_submits_a_single_line_field() {
    let mut input = TextInput::new(false);
    input.set_text("localhost".to_string());
    match input.handle_key(TextInputKey::Enter { platform: false }, None) {
        Some(TextInputEvent::Submit(s)) => assert_eq!(s, "localhost"),
        other => panic!("unexpected {:?}", other),
    }
    assert!(input.handle_key(TextInputKey::Tab, None).is_none());
    assert_eq!(input.text(), "localhost");
}

#[test]
fn enter_and_tab_edit_a_multiline_field() {
    let mut input = TextInput::new(true);
    input.set_text("a".to_string());
    assert_eq!(
        changed(input.handle_key(TextInputKey::Enter { platform: false }, None)),
        Some("a\n".to_string())
    );
    assert_eq!(changed(input.handle_key(TextInputKey::Tab, None)), Some("a\n    ".to_string()));
    assert!(input.handle_key(TextInputKey::Enter { platform: true }, None).is_none());
    assert_eq!(input.line_count(), 2);
}

#[test]
fn home_and_end_stay_on_the_line_when_multiline() {
    let mut input = TextInput::new(true);
    input.set_text("ab\ncd\nef".to_string());
    input.handle_key(TextInputKey::Up, None);
    assert_eq!(input.before_cursor(), "ab\ncd");
    input.handle_key(TextInputKey::Home, None);
    assert_eq!(input.before_cursor(), "ab\n");
    input.handle_key(TextInputKey::End, None);
    assert_eq!(input.before_cursor(), "ab\ncd");

    let mut single = TextInput::new(false);
    single.set_text("ab\ncd".to_string());
    single.handle_key(TextInputKey::Home, None);
    assert_eq!(single.before_cursor(), "");
    single.handle_key(TextInputKey::End, None);
    assert_eq!(single.before_cursor(), "ab\ncd");
}

#[test]
fn vertical_moves_keep_the_column_within_the_line() {
    let mut input = TextInput::new(true);
    input.set_text("abcd\nx\nabcd".to_string());
    input.handle_key(TextInputKey::Up, None);
    assert_eq!(input.before_cursor(), "abcd\nx");
    input.handle_key(TextInputKey::Up, None);
    assert_eq!(input.before_cursor(), "a");
    input.handle_key(TextInputKey::Up, None);
    assert_eq!(input.before_cursor(), "a");
    input.handle_key(TextInputKey::Down, None);
    assert_eq!(input.before_cursor(), "abcd\nx");
}

#[test]
fn a_vertical_move_into_a_char_is_refused() {
    let mut input = TextInput::new(true);
    input.set_text("é\nab".to_string());
    input.handle_key(TextInputKey::Left, None);
    assert!(!input.can_move_vertically(false));
    assert!(input.can_move_vertically(true));
    input.handle_key(TextInputKey::Right, None);
    assert!(input.can_move_vertically(false));
    input.handle_key(TextInputKey::Up, None);
    assert_eq!(input.before_cursor(), "é");
}

#[test]
fn vertical_moves_do_nothing_in_a_single_line_field() {
    let mut input = TextInput::new(false);
    input.set_text("ab\ncd".to_string());
    input.handle_key(TextInputKey::Up, None);
    assert_eq!(input.before_cursor(), "ab\ncd");
}

#[test]
fn select_all_moves_to_the_end_and_paste_inserts() {
    let mut input = TextInput::new(false);
    input.set_text("db".to_string());
    input.handle_key(TextInputKey::Home, None);
    assert!(input.handle_key(TextInputKey::SelectAll, None).is_none());
    assert_eq!(input.before_cursor(), "db");
    assert_eq!(
        changed(input.handle_key(TextInputKey::Paste, Some("_prod".to_string()))),
        Some("db_prod".to_string())
    );
    assert!(input.handle_key(TextInputKey::Paste, None).is_none());
}

#[test]
fn masked_field_shows_stars() {
    let mut input = TextInput::new(false).with_masked(true).with_placeholder("Password".to_string());
    input.set_text("sécret".to_string());
    input.handle_key(TextInputKey::Left, None);
    assert_eq!(input.before_cursor(), "*****");
    assert_eq!(input.after_cursor(), "*");
    assert_eq!(input.text(), "sécret");
    assert!(input.is_masked());
    assert_eq!(input.placeholder(), "Password");
}

#[test]
fn keystrokes_are_classified() {
    assert!(matches!(
        TextInputKey::from_keystroke("backspace", None, false, false),
        TextInputKey::Backspace
    ));
    assert!(matches!(
        TextInputKey::from_keystroke("enter", None, true, false),
        TextInputKey::Enter { platform: true }
    ));
    assert!(matches!(
        TextInputKey::from_keystroke("a", Some("a".to_string()), true, false),
        TextInputKey::SelectAll
    ));
    assert!(matches!(
        TextInputKey::from_keystroke("a", Some("a".to_string()), false, false),
        TextInputKey::Other { platform: false, .. }
    ));
    assert!(matches!(
        TextInputKey::from_keystroke("v", None, true, false),
        TextInputKey::Paste
    ));
}

#[test]
fn multibyte_text_moves_by_chars() {
    let mut input = TextInput::new(false);
    input.set_text("é€".to_string());
    input.handle_key(TextInputKey::Left, None);
    assert_eq!(input.before_cursor(), "é");
    assert_eq!(changed(input.handle_key(TextInputKey::Backspace, None)), Some("€".to_string()));
}
