//! The rope that holds the editor's text, and what the library relies on of
//! its methods. Every item here is trusted: its contract restates what the
//! rope crate's documentation and source say of the method it calls.
use crate::lines::{breaks_upto, line_count, line_start};
use ropey::Rope;
use vstd::prelude::*;
use vstd::utf8::encode_utf8;

verus! {

/// The rope type of the `ropey` crate, carried opaquely.
#[verifier::external_type_specification]
#[verifier::external_body]
pub struct ExRope(Rope);

/// The characters a rope holds, in order.
pub uninterp spec fn rope_text(r: Rope) -> Seq<char>;

/// `Rope::new`: an empty rope.
#[verifier::external_body]
pub(crate) fn rope_new() -> (r: Rope)
    ensures
        rope_text(r) == Seq::<char>::empty(),
{
    Rope::new()
}

/// `Rope::from_str`: a rope holding the characters of `text`.
#[verifier::external_body]
pub(crate) fn rope_from_str(text: &str) -> (r: Rope)
    ensures
        rope_text(r) == text@,
{
    Rope::from_str(text)
}

/// `Rope::len_chars`: the number of characters.
#[verifier::external_body]
pub(crate) fn rope_len_chars(r: &Rope) -> (n: usize)
    ensures
        n == rope_text(*r).len(),
{
    r.len_chars()
}

/// `Rope::len_bytes`: the length of the text in UTF-8.
#[verifier::external_body]
pub(crate) fn rope_len_bytes(r: &Rope) -> (n: usize)
    ensures
        n == encode_utf8(rope_text(*r)).len(),
{
    r.len_bytes()
}

/// `Rope::len_lines`: the number of line breaks plus one, counting
/// LF, VT, FF, CR, NEL, U+2028, U+2029 and the pair CR LF as one break
/// (the crate's default `unicode_lines` feature).
#[verifier::external_body]
pub(crate) fn rope_len_lines(r: &Rope) -> (n: usize)
    ensures
        n == line_count(rope_text(*r)),
{
    r.len_lines()
}

/// `Rope::line_to_char`: the char index where line `line_idx` starts; the
/// index one past the last line gives the length. Panics past that.
#[verifier::external_body]
pub(crate) fn rope_line_to_char(r: &Rope, line_idx: usize) -> (c: usize)
    requires
        line_idx <= line_count(rope_text(*r)),
    ensures
        c == line_start(rope_text(*r), line_idx as nat),
{
    r.line_to_char(line_idx)
}

/// `Rope::char_to_line`: the number of line breaks that end at or before
/// char index `char_idx`. Panics when `char_idx` is past the end.
#[verifier::external_body]
pub(crate) fn rope_char_to_line(r: &Rope, char_idx: usize) -> (l: usize)
    requires
        char_idx <= rope_text(*r).len(),
    ensures
        l == breaks_upto(rope_text(*r), char_idx as int),
{
    r.char_to_line(char_idx)
}

/// `Rope::char`: the character at `char_idx`. Panics when out of bounds.
#[verifier::external_body]
pub(crate) fn rope_char(r: &Rope, char_idx: usize) -> (c: char)
    requires
        char_idx < rope_text(*r).len(),
    ensures
        c == rope_text(*r)[char_idx as int],
{
    r.char(char_idx)
}

/// `Rope::insert`: inserts `text` before char index `char_idx`.
/// Panics when `char_idx` is past the end.
#[verifier::external_body]
pub(crate) fn rope_insert(r: &mut Rope, char_idx: usize, text: &str)
    requires
        char_idx <= rope_text(*old(r)).len(),
    ensures
        rope_text(*final(r)) == rope_text(*old(r)).take(char_idx as int) + text@ + rope_text(
            *old(r),
        ).skip(char_idx as int),
{
    r.insert(char_idx, text)
}

/// `Rope::remove`: removes the chars in `start..end`.
/// Panics unless `start <= end <= len_chars()`.
#[verifier::external_body]
pub(crate) fn rope_remove(r: &mut Rope, start: usize, end: usize)
    requires
        start <= end <= rope_text(*old(r)).len(),
    ensures
        rope_text(*final(r)) == rope_text(*old(r)).take(start as int) + rope_text(*old(r)).skip(
            end as int,
        ),
{
    r.remove(start..end)
}

/// `Rope::slice` then `to_string`: the chars in `start..end` as a string.
/// Panics unless `start <= end <= len_chars()`.
#[verifier::external_body]
pub(crate) fn rope_slice_to_string(r: &Rope, start: usize, end: usize) -> (s: String)
    requires
        start <= end <= rope_text(*r).len(),
    ensures
        s@ == rope_text(*r).subrange(start as int, end as int),
{
    r.slice(start..end).to_string()
}

/// `Rope::line` then `to_string`: line `line_idx` including its line break.
/// Panics unless `line_idx < len_lines()`.
#[verifier::external_body]
pub(crate) fn rope_line_to_string(r: &Rope, line_idx: usize) -> (s: String)
    requires
        line_idx < line_count(rope_text(*r)),
    ensures
        s@ == rope_text(*r).subrange(
            line_start(rope_text(*r), line_idx as nat),
            line_start(rope_text(*r), line_idx as nat + 1),
        ),
{
    r.line(line_idx).to_string()
}

/// `Rope::to_string`: the whole text.
#[verifier::external_body]
pub(crate) fn rope_to_string(r: &Rope) -> (s: String)
    ensures
        s@ == rope_text(*r),
{
    r.to_string()
}

} // verus!
