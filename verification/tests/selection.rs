use pgblade::selection::{Position, Selection, SelectionGoal};

#[test]
fn cursor_creation() {
    let pos = Position::new(3, 5);
    let sel = Selection::cursor(pos);
    assert_eq!(sel.start, pos);
    assert_eq!(sel.end, pos);
    assert!(!sel.reversed);
    assert!(sel.is_empty());
}

#[test]
fn range_creation() {
    let from = Position::new(1, 0);
    let to = Position::new(2, 5);
    let sel = Selection::range(from, to);
    assert_eq!(sel.start, from);
    assert_eq!(sel.end, to);
    assert!(!sel.reversed);
    assert!(!sel.is_empty());
}

#[test]
fn range_auto_normalizes() {
    let from = Position::new(5, 10);
    let to = Position::new(2, 3);
    let sel = Selection::range(from, to);
    assert_eq!(sel.start, to);
    assert_eq!(sel.end, from);
    assert!(sel.reversed);
}

#[test]
fn head_and_tail() {
    let from = Position::new(1, 0);
    let to = Position::new(3, 7);
    let sel = Selection::range(from, to);
    assert_eq!(sel.head(), to);
    assert_eq!(sel.tail(), from);
}

#[test]
fn reversed_head_and_tail() {
    let from = Position::new(5, 10);
    let to = Position::new(2, 3);
    let sel = Selection::range(from, to);
    assert_eq!(sel.head(), to);
    assert_eq!(sel.tail(), from);
}

#[test]
fn is_empty() {
    let pos = Position::new(0, 0);
    let cursor = Selection::cursor(pos);
    assert!(cursor.is_empty());

    let range = Selection::range(Position::new(0, 0), Position::new(0, 5));
    assert!(!range.is_empty());
}

#[test]
fn collapse_to() {
    let mut sel = Selection::range(Position::new(1, 0), Position::new(3, 5));
    let target = Position::new(2, 2);
    sel.collapse_to(target);
    assert_eq!(sel.start, target);
    assert_eq!(sel.end, target);
    assert!(!sel.reversed);
    assert!(sel.is_empty());
    assert_eq!(sel.goal, SelectionGoal::Unset);
}

#[test]
fn set_head_forward() {
    let mut sel = Selection::cursor(Position::new(1, 0));
    sel.set_head(Position::new(3, 5));
    assert_eq!(sel.start, Position::new(1, 0));
    assert_eq!(sel.end, Position::new(3, 5));
    assert!(!sel.reversed);
    assert_eq!(sel.head(), Position::new(3, 5));
    assert_eq!(sel.tail(), Position::new(1, 0));
}

#[test]
fn set_head_backward() {
    let mut sel = Selection::cursor(Position::new(3, 5));
    sel.set_head(Position::new(1, 0));
    assert_eq!(sel.start, Position::new(1, 0));
    assert_eq!(sel.end, Position::new(3, 5));
    assert!(sel.reversed);
    assert_eq!(sel.head(), Position::new(1, 0));
    assert_eq!(sel.tail(), Position::new(3, 5));
}

#[test]
fn ordered_range_always_returns_start_end() {
    let sel = Selection::range(Position::new(5, 0), Position::new(1, 0));
    let (start, end) = sel.ordered_range();
    assert!(start <= end);
    assert_eq!(start, Position::new(1, 0));
    assert_eq!(end, Position::new(5, 0));
}

#[test]
fn default_selection() {
    let sel = Selection::default();
    assert_eq!(sel.start, Position::new(0, 0));
    assert_eq!(sel.end, Position::new(0, 0));
    assert!(!sel.reversed);
    assert!(sel.is_empty());
}

#[test]
fn set_head_keeps_tail_and_goal() {
    let mut sel = Selection::range(Position::new(2, 4), Position::new(1, 1));
    sel.set_head(Position::new(4, 0));
    assert_eq!(sel.tail(), Position::new(2, 4));
    assert_eq!(sel.head(), Position::new(4, 0));
    assert_eq!(sel.start, Position::new(2, 4));
    assert!(!sel.reversed);
    assert_eq!(sel.goal, SelectionGoal::Unset);
}

#[test]
fn same_line_ordering_uses_column() {
    let sel = Selection::range(Position::new(2, 9), Position::new(2, 3));
    assert!(sel.reversed);
    assert_eq!(sel.start, Position::new(2, 3));
    let sel = Selection::range(Position::new(2, 3), Position::new(2, 3));
    assert!(!sel.reversed);
    assert!(sel.is_empty());
}
