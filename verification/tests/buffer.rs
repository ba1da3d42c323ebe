use pgblade::buffer::{EditBuffer, EditOp};
use pgblade::selection::Position;

#[test]
fn new_buffer_is_empty() {
    let buf = EditBuffer::new();
    assert!(buf.is_empty());
    assert_eq!(buf.len_chars(), 0);
    assert_eq!(buf.len_bytes(), 0);
}

#[test]
fn from_str_creates_content() {
    let buf = EditBuffer::from_str("hello world");
    assert!(!buf.is_empty());
    assert_eq!(buf.len_chars(), 11);
    assert_eq!(buf.text(), "hello world");
}

#[test]
fn line_count() {
    let buf = EditBuffer::from_str("line1\nline2\nline3");
    assert_eq!(buf.line_count(), 3);

    let buf_trailing = EditBuffer::from_str("line1\nline2\n");
    assert_eq!(buf_trailing.line_count(), 3);
}

#[test]
fn line_content() {
    let buf = EditBuffer::from_str("hello\nworld\nfoo");
    assert_eq!(buf.line(0), "hello");
    assert_eq!(buf.line(1), "world");
    assert_eq!(buf.line(2), "foo");
    assert_eq!(buf.line(99), "");
}

#[test]
fn line_len() {
    let buf = EditBuffer::from_str("hello\nworld\n");
    assert_eq!(buf.line_len(0), 5);
    assert_eq!(buf.line_len(1), 5);
    assert_eq!(buf.line_len(2), 0);
    assert_eq!(buf.line_len(99), 0);
}

#[test]
fn pos_to_char_and_back() {
    let buf = EditBuffer::from_str("hello\nworld\nfoo");
    let offset = buf.pos_to_char(Position::new(0, 0));
    assert_eq!(offset, 0);
    assert_eq!(buf.char_to_pos(offset), Position::new(0, 0));

    let offset = buf.pos_to_char(Position::new(1, 3));
    assert_eq!(offset, 9);
    assert_eq!(buf.char_to_pos(offset), Position::new(1, 3));

    let offset = buf.pos_to_char(Position::new(2, 2));
    assert_eq!(offset, 14);
    assert_eq!(buf.char_to_pos(offset), Position::new(2, 2));
}

#[test]
fn insert_at_beginning() {
    let mut buf = EditBuffer::from_str("world");
    let op = buf.insert(0, "hello ");
    assert_eq!(buf.text(), "hello world");
    assert_eq!(op.offset, 0);
    assert_eq!(op.new_text, "hello ");
    assert!(op.old_text.is_empty());
}

#[test]
fn insert_in_middle() {
    let mut buf = EditBuffer::from_str("helo");
    let op = buf.insert(3, "l");
    assert_eq!(buf.text(), "hello");
    assert_eq!(op.offset, 3);
}

#[test]
fn insert_at_end() {
    let mut buf = EditBuffer::from_str("hello");
    let op = buf.insert(100, " world");
    assert_eq!(buf.text(), "hello world");
    assert_eq!(op.offset, 5);
}

#[test]
fn delete_range() {
    let mut buf = EditBuffer::from_str("hello world");
    let op = buf.delete(5, 11);
    assert_eq!(buf.text(), "hello");
    assert_eq!(op.old_text, " world");
    assert!(op.new_text.is_empty());
}

#[test]
fn delete_entire_line() {
    let mut buf = EditBuffer::from_str("line1\nline2\nline3");
    let op = buf.delete(6, 12);
    assert_eq!(buf.text(), "line1\nline3");
    assert_eq!(op.old_text, "line2\n");
}

#[test]
fn replace_text() {
    let mut buf = EditBuffer::from_str("hello world");
    let op = buf.replace(6, 11, "rust");
    assert_eq!(buf.text(), "hello rust");
    assert_eq!(op.old_text, "world");
    assert_eq!(op.new_text, "rust");
}

#[test]
fn word_start_and_end() {
    let buf = EditBuffer::from_str("hello world foo_bar");
    assert_eq!(buf.word_start(3), 0);
    assert_eq!(buf.word_end(3), 6);

    assert_eq!(buf.word_start(8), 6);
    assert_eq!(buf.word_end(6), 12);

    assert_eq!(buf.word_start(15), 12);
    assert_eq!(buf.word_end(12), 19);
}

#[test]
fn pos_clamps_to_bounds() {
    let buf = EditBuffer::from_str("hi\nthere");
    let offset = buf.pos_to_char(Position::new(100, 100));
    assert_eq!(buf.char_to_pos(offset), Position::new(1, 5));

    let offset = buf.pos_to_char(Position::new(100, 0));
    assert_eq!(buf.char_to_pos(offset), Position::new(1, 0));

    let offset = buf.pos_to_char(Position::new(0, 100));
    assert_eq!(buf.char_to_pos(offset), Position::new(0, 2));
}

#[test]
fn insert_at_position() {
    let mut buf = EditBuffer::from_str("hello\nworld");
    let op = buf.insert_at(Position::new(1, 0), "cruel ");
    assert_eq!(buf.text(), "hello\ncruel world");
    assert_eq!(op.offset, 6);
}

#[test]
fn delete_range_by_positions() {
    let mut buf = EditBuffer::from_str("hello\nworld");
    let op = buf.delete_range(Position::new(0, 3), Position::new(1, 2));
    assert_eq!(buf.text(), "helrld");
    assert_eq!(op.old_text, "lo\nwo");
}

#[test]
fn edit_op_is_empty() {
    let empty_op = EditOp {
        offset: 0,
        old_text: String::new(),
        new_text: String::new(),
    };
    assert!(empty_op.is_empty());

    let insert_op = EditOp {
        offset: 0,
        old_text: String::new(),
        new_text: "x".to_string(),
    };
    assert!(!insert_op.is_empty());
}

#[test]
fn slice_text() {
    let buf = EditBuffer::from_str("hello world");
    assert_eq!(buf.slice(0, 5), "hello");
    assert_eq!(buf.slice(6, 11), "world");
}

#[test]
fn len_bytes_counts_utf8() {
    let buf = EditBuffer::from_str("héllo €");
    assert_eq!(buf.len_chars(), 7);
    assert_eq!(buf.len_bytes(), 10);
}

#[test]
fn delete_undoes_insert() {
    let mut buf = EditBuffer::from_str("select from t");
    buf.insert(7, "* ");
    assert_eq!(buf.text(), "select * from t");
    buf.delete(7, 9);
    assert_eq!(buf.text(), "select from t");
}

#[test]
fn delete_with_inverted_or_clamped_range() {
    let mut buf = EditBuffer::from_str("abc");
    let op = buf.delete(2, 1);
    assert!(op.is_empty());
    assert_eq!(buf.text(), "abc");
    let op = buf.delete(1, 50);
    assert_eq!(op.old_text, "bc");
    assert_eq!(buf.text(), "a");
}

#[test]
fn replace_with_empty_range_inserts() {
    let mut buf = EditBuffer::from_str("ac");
    let op = buf.replace(1, 1, "b");
    assert_eq!(buf.text(), "abc");
    assert!(op.old_text.is_empty());
    assert_eq!(op.offset, 1);
}

#[test]
fn delete_range_accepts_either_order() {
    let mut buf = EditBuffer::from_str("hello\nworld");
    let op = buf.delete_range(Position::new(1, 2), Position::new(0, 3));
    assert_eq!(buf.text(), "helrld");
    assert_eq!(op.offset, 3);
}

#[test]
fn word_boundaries_skip_whitespace_and_punctuation() {
    let buf = EditBuffer::from_str("a.b   cd");
    assert_eq!(buf.word_start(8), 6);
    assert_eq!(buf.word_start(6), 2);
    assert_eq!(buf.word_end(1), 1);
    assert_eq!(buf.word_end(3), 6);
}

#[test]
fn carriage_return_counts_as_line_break() {
    let buf = EditBuffer::from_str("a\r\nb");
    assert_eq!(buf.line_count(), 2);
    assert_eq!(buf.line(0), "a\r");
    assert_eq!(buf.line(1), "b");
}
