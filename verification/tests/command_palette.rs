use pgblade::command_palette::{CommandPalette, CommandPaletteEvent, PaletteKey, PaletteRow};

fn typed(s: &str) -> PaletteKey {
    PaletteKey::Other { key_char: Some(s.to_string()), platform: false, control: false }
}

fn ids(p: &CommandPalette) -> Vec<&'static str> {
    p.filtered().iter().map(|&i| p.commands()[i].id).collect()
}

#[test]
fn new_palette_offers_every_command() {
    let p = CommandPalette::new();
    assert_eq!(p.commands().len(), 7);
    assert_eq!(p.filtered(), &[0, 1, 2, 3, 4, 5, 6]);
    assert_eq!(p.selected_index(), 0);
    assert_eq!(p.query(), "");
}

#[test]
fn typing_filters_case_insensitively() {
    let mut p = CommandPalette::new();
    assert!(p.handle_key(typed("Q")).is_none());
    assert!(p.handle_key(typed("u")).is_none());
    assert_eq!(p.query(), "Qu");
    assert_eq!(ids(&p), vec!["execute_query", "cancel_query", "show_history"]);
    p.handle_key(typed("ery h"));
    assert_eq!(ids(&p), vec!["show_history"]);
    p.handle_key(typed("z"));
    assert!(p.filtered().is_empty());
}

#[test]
fn backspace_widens_the_filter_again() {
    let mut p = CommandPalette::new();
    p.handle_key(typed("side"));
    assert_eq!(ids(&p), vec!["toggle_sidebar"]);
    p.handle_key(PaletteKey::Backspace);
    p.handle_key(PaletteKey::Backspace);
    p.handle_key(PaletteKey::Backspace);
    assert_eq!(p.query(), "s");
    assert_eq!(ids(&p), vec!["disconnect", "toggle_sidebar", "show_history"]);
    p.handle_key(PaletteKey::Backspace);
    p.handle_key(PaletteKey::Backspace);
    assert_eq!(p.query(), "");
    assert_eq!(p.filtered().len(), 7);
}

#[test]
fn arrows_move_the_highlight_within_the_list() {
    let mut p = CommandPalette::new();
    p.handle_key(PaletteKey::Up);
    assert_eq!(p.selected_index(), 0);
    p.handle_key(PaletteKey::Down);
    p.handle_key(PaletteKey::Down);
    assert_eq!(p.selected_index(), 2);
    for _ in 0..10 {
        p.handle_key(PaletteKey::Down);
    }
    assert_eq!(p.selected_index(), 6);
    p.handle_key(PaletteKey::Up);
    assert_eq!(p.selected_index(), 5);
    p.handle_key(typed("x"));
    assert_eq!(p.selected_index(), 0);
}

#[test]
fn enter_selects_the_highlighted_command() {
    let mut p = CommandPalette::new();
    p.handle_key(typed("conn"));
    p.handle_key(PaletteKey::Down);
    match p.handle_key(PaletteKey::Enter) {
        Some(CommandPaletteEvent::Selected(id)) => assert_eq!(id, "disconnect"),
        other => panic!("unexpected {:?}", other),
    }
}

#[test]
fn enter_with_no_match_selects_nothing_and_escape_dismisses() {
    let mut p = CommandPalette::new();
    p.handle_key(typed("nothing like this"));
    assert!(p.handle_key(PaletteKey::Enter).is_none());
    assert!(matches!(p.handle_key(PaletteKey::Escape), Some(CommandPaletteEvent::Dismissed)));
}

#[test]
fn palette_ignores_modified_keys() {
    let mut p = CommandPalette::new();
    let key = PaletteKey::Other { key_char: Some("k".to_string()), platform: true, control: false };
    assert!(p.handle_key(key).is_none());
    assert_eq!(p.query(), "");
    assert_eq!(p.filtered().len(), 7);
}

#[test]
fn palette_keystrokes_are_classified() {
    assert!(matches!(PaletteKey::from_keystroke("escape", None, false, false), PaletteKey::Escape));
    assert!(matches!(PaletteKey::from_keystroke("down", None, false, false), PaletteKey::Down));
    assert!(matches!(
        PaletteKey::from_keystroke("q", Some("q".to_string()), false, false),
        PaletteKey::Other { .. }
    ));
}

#[test]
fn clicking_an_entry_selects_it() {
    let mut p = CommandPalette::new();
    p.handle_key(typed("toggle"));
    match p.click_entry(1) {
        Some(CommandPaletteEvent::Selected(id)) => assert_eq!(id, "toggle_read_only"),
        other => panic!("unexpected {:?}", other),
    }
    assert!(p.click_entry(2).is_none());
}

#[test]
fn query_line_prompts_while_empty() {
    let mut p = CommandPalette::new();
    assert_eq!(p.query_line(), "Type a command...");
    p.handle_key(typed("side"));
    assert_eq!(p.query_line(), "side");
}

#[test]
fn rows_show_labels_shortcuts_and_the_highlight() {
    let mut p = CommandPalette::new();
    p.handle_key(typed("toggle"));
    p.handle_key(PaletteKey::Down);
    let rows = p.rows();
    assert_eq!(
        rows,
        vec![
            PaletteRow { id: "toggle_sidebar", label: "Toggle Sidebar", shortcut: Some("Cmd+B"), highlighted: false },
            PaletteRow { id: "toggle_read_only", label: "Toggle Read-Only Mode", shortcut: None, highlighted: true },
        ]
    );
    assert_eq!(CommandPalette::new().rows().len(), 7);
    assert!(matches!(p.click_backdrop(), CommandPaletteEvent::Dismissed));
}
