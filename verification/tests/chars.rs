use pgblade::chars::{char_is_whitespace, char_utf8_width, chars_between, str_eq};
use pgblade::command_palette::contains_chars;

#[test]
fn whitespace_agrees_with_std_on_every_char() {
    for u in 0u32..=0x10FFFF {
        if let Some(c) = char::from_u32(u) {
            assert_eq!(char_is_whitespace(c), c.is_whitespace(), "U+{:04X}", u);
        }
    }
}

#[test]
fn utf8_width_agrees_with_std() {
    for c in ['a', 'é', '€', '😀', '\u{7f}', '\u{80}', '\u{7ff}', '\u{800}', '\u{ffff}', '\u{10000}'] {
        assert_eq!(char_utf8_width(c), c.len_utf8());
    }
}

#[test]
fn string_equality_and_ranges() {
    assert!(str_eq("select", "select"));
    assert!(!str_eq("select", "selec"));
    assert!(!str_eq("a", "b"));
    let v: Vec<char> = "hello".chars().collect();
    assert_eq!(chars_between(&v, 1, 4), vec!['e', 'l', 'l']);
    assert!(chars_between(&v, 2, 2).is_empty());
}

#[test]
fn substring_search() {
    let hay: Vec<char> = "show query history".chars().collect();
    let yes: Vec<char> = "query h".chars().collect();
    let no: Vec<char> = "queries".chars().collect();
    assert!(contains_chars(&hay, &yes));
    assert!(!contains_chars(&hay, &no));
    assert!(contains_chars(&hay, &Vec::new()));
    assert!(!contains_chars(&yes, &hay));
}

#[test]
fn word_chars_in_ascii_are_letters_digits_and_underscore() {
    use_word_boundaries_on_every_ascii_char();
}

fn use_word_boundaries_on_every_ascii_char() {
    for u in 0u8..0x80 {
        let c = u as char;
        let text: String = ['x', c, 'x'].iter().collect();
        let buf = pgblade::buffer::EditBuffer::from_str(&text);
        let is_word = c.is_ascii_alphanumeric() || c == '_';
        // From the end, a word char joins the word before it.
        let expected_start = if is_word { 0 } else { 2 };
        assert_eq!(buf.word_start(3), expected_start, "{:?}", c);
    }
}
