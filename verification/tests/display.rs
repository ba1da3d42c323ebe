use pgblade::buffer::EditBuffer;
use pgblade::display::{compute_display_lines, LineHighlight, TokenKind, TokenSpan};

fn span(start: usize, end: usize, kind: TokenKind) -> TokenSpan {
    TokenSpan { start, end, kind }
}

/// The tokens of `SELECT 1` (and of `SELECT 1\nFROM t`), with byte offsets.
fn select_one_tokens() -> Vec<TokenSpan> {
    vec![span(0, 6, TokenKind::Keyword), span(7, 8, TokenKind::Number)]
}

fn select_from_tokens() -> Vec<TokenSpan> {
    vec![
        span(0, 6, TokenKind::Keyword),
        span(7, 8, TokenKind::Number),
        span(9, 13, TokenKind::Keyword),
        span(14, 15, TokenKind::Identifier),
    ]
}

#[test]
fn empty_buffer_returns_no_lines() {
    let buffer = EditBuffer::new();
    let lines = compute_display_lines(&buffer, 0, 10, &[]);
    assert_eq!(lines.len(), 1);
    assert_eq!(lines[0].text, "");
}

#[test]
fn single_line_produces_one_display_line() {
    let buffer = EditBuffer::from_str("SELECT 1");
    let lines = compute_display_lines(&buffer, 0, 10, &select_one_tokens());
    assert_eq!(lines.len(), 1);
    assert_eq!(lines[0].line_number, 1);
    assert_eq!(lines[0].text, "SELECT 1");
    assert!(!lines[0].highlights.is_empty());
}

#[test]
fn multiline_buffer_with_offset() {
    let buffer = EditBuffer::from_str("line1\nline2\nline3\nline4");
    let lines = compute_display_lines(&buffer, 1, 2, &[]);
    assert_eq!(lines.len(), 2);
    assert_eq!(lines[0].line_number, 2);
    assert_eq!(lines[0].text, "line2");
    assert_eq!(lines[1].line_number, 3);
    assert_eq!(lines[1].text, "line3");
}

#[test]
fn line_count_clamped_to_total() {
    let buffer = EditBuffer::from_str("a\nb");
    let lines = compute_display_lines(&buffer, 0, 100, &[]);
    assert_eq!(lines.len(), 2);
}

#[test]
fn highlights_are_relative_to_line() {
    let buffer = EditBuffer::from_str("SELECT 1\nFROM t");
    let lines = compute_display_lines(&buffer, 0, 10, &select_from_tokens());
    let from_highlights: Vec<_> = lines[1]
        .highlights
        .iter()
        .filter(|h| h.kind == TokenKind::Keyword)
        .collect();
    assert!(!from_highlights.is_empty());
    assert_eq!(from_highlights[0].start, 0);
    assert_eq!(from_highlights[0].end, 4);
}

#[test]
fn first_line_past_the_end_gives_nothing() {
    let buffer = EditBuffer::from_str("a\nb");
    let lines = compute_display_lines(&buffer, 5, 3, &[]);
    assert!(lines.is_empty());
}

#[test]
fn spans_crossing_lines_are_cut_to_each_line() {
    let buffer = EditBuffer::from_str("/* a\nb */ x");
    let tokens = vec![span(0, 9, TokenKind::Comment), span(10, 11, TokenKind::Identifier)];
    let lines = compute_display_lines(&buffer, 0, 10, &tokens);
    assert_eq!(lines.len(), 2);
    assert_eq!(
        lines[0].highlights,
        vec![LineHighlight { start: 0, end: 4, kind: TokenKind::Comment }]
    );
    assert_eq!(
        lines[1].highlights,
        vec![
            LineHighlight { start: 0, end: 4, kind: TokenKind::Comment },
            LineHighlight { start: 5, end: 6, kind: TokenKind::Identifier },
        ]
    );
}

#[test]
fn highlight_offsets_are_bytes() {
    let buffer = EditBuffer::from_str("é\nab");
    let tokens = vec![span(3, 5, TokenKind::Identifier)];
    let lines = compute_display_lines(&buffer, 1, 1, &tokens);
    assert_eq!(lines.len(), 1);
    assert_eq!(
        lines[0].highlights,
        vec![LineHighlight { start: 0, end: 2, kind: TokenKind::Identifier }]
    );
}
