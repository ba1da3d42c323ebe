//! The editor's text buffer: a rope with line/column positions, edits that
//! report what they changed, and word boundaries.
use crate::chars::{
    char_is_alphanumeric, char_is_whitespace, is_alphanumeric_char, is_whitespace_char,
    str_ends_with_char, string_pop,
};
use crate::lines::{
    column_of, lemma_line_bounds, lemma_position_in_line, line_count, line_of, line_start,
    line_text, offset_of, raw_line,
};
use crate::rope_api::{
    rope_char, rope_char_to_line, rope_from_str, rope_insert, rope_len_bytes, rope_len_chars,
    rope_len_lines, rope_line_to_char, rope_line_to_string, rope_new, rope_remove,
    rope_slice_to_string, rope_text, rope_to_string,
};
use crate::selection::Position;
use ropey::Rope;
use vstd::prelude::*;
use vstd::utf8::encode_utf8;

verus! {

/// A char that belongs to a word: alphanumeric or `_`.
pub open spec fn is_word_char(c: char) -> bool {
    is_alphanumeric_char(c) || c == '_'
}

/// Moving left from `i`, the first index not preceded by whitespace.
pub open spec fn skip_whitespace_back(s: Seq<char>, i: int) -> int
    decreases i,
{
    if i > 0 && is_whitespace_char(s[i - 1]) {
        skip_whitespace_back(s, i - 1)
    } else {
        i
    }
}

/// Moving left from `i`, the first index not preceded by a word char.
pub open spec fn skip_word_back(s: Seq<char>, i: int) -> int
    decreases i,
{
    if i > 0 && is_word_char(s[i - 1]) {
        skip_word_back(s, i - 1)
    } else {
        i
    }
}

/// Moving right from `i`, the first index whose char is not whitespace.
pub open spec fn skip_whitespace_fwd(s: Seq<char>, i: int) -> int
    decreases s.len() - i,
{
    if 0 <= i < s.len() && is_whitespace_char(s[i]) {
        skip_whitespace_fwd(s, i + 1)
    } else {
        i
    }
}

/// Moving right from `i`, the first index whose char is not a word char.
pub open spec fn skip_word_fwd(s: Seq<char>, i: int) -> int
    decreases s.len() - i,
{
    if 0 <= i < s.len() && is_word_char(s[i]) {
        skip_word_fwd(s, i + 1)
    } else {
        i
    }
}

/// The start of the word at or before `c`: skip whitespace, then word chars, leftwards.
pub open spec fn word_start_of(s: Seq<char>, c: int) -> int {
    skip_word_back(s, skip_whitespace_back(s, c))
}

/// The end of the word at or after `c`: skip word chars, then whitespace, rightwards.
pub open spec fn word_end_of(s: Seq<char>, c: int) -> int {
    if c >= s.len() {
        s.len() as int
    } else {
        skip_whitespace_fwd(s, skip_word_fwd(s, c))
    }
}

/// `x` clamped to at most `n`.
pub open spec fn clamp(x: int, n: int) -> int {
    if x < n {
        x
    } else {
        n
    }
}

proof fn lemma_skip_back_bounds(s: Seq<char>, i: int)
    requires
        0 <= i <= s.len(),
    ensures
        0 <= skip_whitespace_back(s, i) <= i,
        0 <= skip_word_back(s, i) <= i,
    decreases i,
{
    if i > 0 {
        lemma_skip_back_bounds(s, i - 1);
    }
}

proof fn lemma_skip_fwd_bounds(s: Seq<char>, i: int)
    requires
        0 <= i <= s.len(),
    ensures
        i <= skip_whitespace_fwd(s, i) <= s.len(),
        i <= skip_word_fwd(s, i) <= s.len(),
    decreases s.len() - i,
{
    if i < s.len() {
        lemma_skip_fwd_bounds(s, i + 1);
    }
}

/// A text buffer backed by a rope.
///
/// Positions use 0-based line and column numbers; offsets count chars.
pub struct EditBuffer {
    rope: Rope,
}

impl View for EditBuffer {
    type V = Seq<char>;

    closed spec fn view(&self) -> Seq<char> {
        rope_text(self.rope)
    }
}

/// A single edit operation for undo/redo tracking: at char `offset`,
/// `old_text` was replaced by `new_text`.
#[derive(Debug, Clone, PartialEq)]
pub struct EditOp {
    pub offset: usize,
    pub old_text: String,
    pub new_text: String,
}

impl EditOp {
    /// `s` holds `old_text` at `offset`, so the edit can be applied to it.
    pub open spec fn applies_to(&self, s: Seq<char>) -> bool {
        &&& self.offset + self.old_text@.len() <= s.len()
        &&& s.subrange(self.offset as int, self.offset + self.old_text@.len()) == self.old_text@
    }

    /// `s` with the edit applied.
    pub open spec fn apply(&self, s: Seq<char>) -> Seq<char> {
        s.take(self.offset as int) + self.new_text@ + s.skip(self.offset + self.old_text@.len())
    }

    /// `s` holds `new_text` at `offset`, so the edit can be reverted on it.
    pub open spec fn reverts_on(&self, s: Seq<char>) -> bool {
        &&& self.offset + self.new_text@.len() <= s.len()
        &&& s.subrange(self.offset as int, self.offset + self.new_text@.len()) == self.new_text@
    }

    /// `s` with the edit reverted.
    pub open spec fn revert(&self, s: Seq<char>) -> Seq<char> {
        s.take(self.offset as int) + self.old_text@ + s.skip(self.offset + self.new_text@.len())
    }

    /// Whether the edit changes nothing (no text removed, none inserted).
    pub fn is_empty(&self) -> (b: bool)
        ensures
            b == (self.old_text@.len() == 0 && self.new_text@.len() == 0),
    {
        self.old_text.as_str().is_empty() && self.new_text.as_str().is_empty()
    }
}

/// Applying an edit and then reverting it gives back the text, and reverting
/// an edit and then applying it again gives back the text.
pub proof fn law_edit_revert_roundtrip(op: EditOp, s: Seq<char>)
    ensures
        op.applies_to(s) ==> op.reverts_on(op.apply(s)) && op.revert(op.apply(s)) == s,
        op.reverts_on(s) ==> op.applies_to(op.revert(s)) && op.apply(op.revert(s)) == s,
{
    let o = op.offset as int;
    let a = op.old_text@;
    let b = op.new_text@;
    if op.applies_to(s) {
        let t = op.apply(s);
        assert(t.subrange(o, o + b.len()) =~= b);
        assert(op.revert(t) =~= s.take(o) + a + s.skip(o + a.len()));
        assert(s =~= s.take(o) + s.subrange(o, o + a.len()) + s.skip(o + a.len()));
    }
    if op.reverts_on(s) {
        let t = op.revert(s);
        assert(t.subrange(o, o + a.len()) =~= a);
        assert(op.apply(t) =~= s.take(o) + b + s.skip(o + b.len()));
        assert(s =~= s.take(o) + s.subrange(o, o + b.len()) + s.skip(o + b.len()));
    }
}

/// Deleting the chars that an insertion just put at `offset` gives back the
/// text from before the insertion.
pub proof fn law_delete_undoes_insert(s: Seq<char>, offset: int, text: Seq<char>)
    requires
        0 <= offset <= s.len(),
    ensures
        ({
            let t = s.take(offset) + text + s.skip(offset);
            t.take(offset) + t.skip(offset + text.len()) == s
        }),
{
    let t = s.take(offset) + text + s.skip(offset);
    assert(t.take(offset) =~= s.take(offset));
    assert(t.skip(offset + text.len()) =~= s.skip(offset));
    assert(s.take(offset) + s.skip(offset) =~= s);
}

/// An edit that changes nothing leaves every text it applies to unchanged.
pub proof fn lemma_empty_edit_identity(op: EditOp, s: Seq<char>)
    requires
        op.old_text@.len() == 0,
        op.new_text@.len() == 0,
        op.offset <= s.len(),
    ensures
        op.applies_to(s),
        op.apply(s) == s,
{
    assert(s.subrange(op.offset as int, op.offset as int) =~= op.old_text@);
    assert(op.apply(s) =~= s);
}

impl EditBuffer {
    pub fn new() -> (b: Self)
        ensures
            b@ == Seq::<char>::empty(),
    {
        EditBuffer { rope: rope_new() }
    }

    pub fn from_str(text: &str) -> (b: Self)
        ensures
            b@ == text@,
    {
        EditBuffer { rope: rope_from_str(text) }
    }

    /// Total number of characters in the buffer.
    pub fn len_chars(&self) -> (n: usize)
        ensures
            n == self@.len(),
    {
        rope_len_chars(&self.rope)
    }

    /// Total number of bytes in the buffer (UTF-8).
    pub fn len_bytes(&self) -> (n: usize)
        ensures
            n == encode_utf8(self@).len(),
    {
        rope_len_bytes(&self.rope)
    }

    pub fn is_empty(&self) -> (b: bool)
        ensures
            b == (self@.len() == 0),
    {
        rope_len_chars(&self.rope) == 0
    }

    /// Number of lines in the buffer (at least 1).
    pub fn line_count(&self) -> (n: usize)
        ensures
            n == line_count(self@),
            n >= 1,
    {
        rope_len_lines(&self.rope)
    }

    /// Get the text of a specific line (0-based, without trailing newline).
    /// Out-of-range lines give the empty string.
    pub fn line(&self, line_idx: usize) -> (s: String)
        ensures
            line_idx < line_count(self@) ==> s@ == line_text(self@, line_idx as nat),
            line_idx >= line_count(self@) ==> s@ == Seq::<char>::empty(),
    {
        if line_idx >= rope_len_lines(&self.rope) {
            return String::new();
        }
        proof {
            lemma_line_bounds(self@, line_idx as nat);
        }
        let mut s = rope_line_to_string(&self.rope, line_idx);
        if str_ends_with_char(s.as_str(), '\n') {
            string_pop(&mut s);
        }
        s
    }

    /// Get the length of a specific line in characters (without newline).
    /// Out-of-range lines have length 0.
    pub fn line_len(&self, line_idx: usize) -> (n: usize)
        ensures
            line_idx < line_count(self@) ==> n == line_text(self@, line_idx as nat).len(),
            line_idx >= line_count(self@) ==> n == 0,
    {
        if line_idx >= rope_len_lines(&self.rope) {
            return 0;
        }
        proof {
            lemma_line_bounds(self@, line_idx as nat);
        }
        let start = rope_line_to_char(&self.rope, line_idx);
        let end = rope_line_to_char(&self.rope, line_idx + 1);
        let len = end - start;
        if len > 0 && rope_char(&self.rope, end - 1) == '\n' {
            len - 1
        } else {
            len
        }
    }

    /// Get the full text content.
    pub fn text(&self) -> (s: String)
        ensures
            s@ == self@,
    {
        rope_to_string(&self.rope)
    }

    /// Get a slice of text between two char offsets.
    pub fn slice(&self, start: usize, end: usize) -> (s: String)
        requires
            start <= end <= self@.len(),
        ensures
            s@ == self@.subrange(start as int, end as int),
    {
        rope_slice_to_string(&self.rope, start, end)
    }

    /// Convert a Position (line, column) to a char offset.
    /// Clamps to valid bounds.
    pub fn pos_to_char(&self, pos: Position) -> (c: usize)
        ensures
            c == offset_of(self@, pos.line as int, pos.column as int),
            c <= self@.len(),
    {
        let len = rope_len_chars(&self.rope);
        let last = rope_len_lines(&self.rope) - 1;
        let line = if pos.line < last {
            pos.line
        } else {
            last
        };
        proof {
            lemma_line_bounds(self@, line as nat);
            assert(line_text(self@, line as nat).len() <= raw_line(self@, line as nat).len());
        }
        let first = rope_line_to_char(&self.rope, line);
        let line_len = self.line_len(line);
        proof {
            let ghost l = line as nat;
            assert(raw_line(self@, l).len() == line_start(self@, l + 1) - line_start(self@, l));
            assert(first + line_len <= len);
        }
        let col = if pos.column < line_len {
            pos.column
        } else {
            line_len
        };
        first + col
    }

    /// Convert a char offset to a Position (line, column).
    /// Offsets past the end are clamped to the end.
    pub fn char_to_pos(&self, char_idx: usize) -> (p: Position)
        ensures
            p.line == line_of(self@, char_idx as int),
            p.column == column_of(self@, char_idx as int),
    {
        let len = rope_len_chars(&self.rope);
        let char_idx = if char_idx < len {
            char_idx
        } else {
            len
        };
        let line = rope_char_to_line(&self.rope, char_idx);
        proof {
            lemma_position_in_line(self@, char_idx as int);
            lemma_line_bounds(self@, line as nat);
        }
        let line_start = rope_line_to_char(&self.rope, line);
        Position { line, column: char_idx - line_start }
    }

    /// Insert text at a char offset (clamped to the end).
    /// Returns the edit operation for undo tracking.
    pub fn insert(&mut self, char_offset: usize, text: &str) -> (op: EditOp)
        ensures
            op.offset == clamp(char_offset as int, old(self)@.len() as int),
            op.old_text@ == Seq::<char>::empty(),
            op.new_text@ == text@,
            final(self)@ == old(self)@.take(op.offset as int) + text@ + old(self)@.skip(
                op.offset as int,
            ),
            op.applies_to(old(self)@),
            op.apply(old(self)@) == final(self)@,
    {
        let len = rope_len_chars(&self.rope);
        let offset = if char_offset < len {
            char_offset
        } else {
            len
        };
        rope_insert(&mut self.rope, offset, text);
        let op = EditOp { offset, old_text: String::new(), new_text: text.to_owned() };
        proof {
            assert(old(self)@.subrange(offset as int, offset as int) =~= op.old_text@);
        }
        op
    }

    /// Insert text at a Position.
    pub fn insert_at(&mut self, pos: Position, text: &str) -> (op: EditOp)
        ensures
            op.offset == offset_of(old(self)@, pos.line as int, pos.column as int),
            op.old_text@ == Seq::<char>::empty(),
            op.new_text@ == text@,
            final(self)@ == old(self)@.take(op.offset as int) + text@ + old(self)@.skip(
                op.offset as int,
            ),
            op.applies_to(old(self)@),
            op.apply(old(self)@) == final(self)@,
    {
        let offset = self.pos_to_char(pos);
        self.insert(offset, text)
    }

    /// Delete a range of characters (both ends clamped to the end).
    /// Returns the deleted text as an edit operation.
    pub fn delete(&mut self, start: usize, end: usize) -> (op: EditOp)
        ensures
            ({
                let n = old(self)@.len() as int;
                let s = clamp(start as int, n);
                let e = clamp(end as int, n);
                &&& op.offset == s
                &&& op.new_text@ == Seq::<char>::empty()
                &&& s < e ==> op.old_text@ == old(self)@.subrange(s, e) && final(self)@
                    == old(self)@.take(s) + old(self)@.skip(e)
                &&& s >= e ==> op.old_text@ == Seq::<char>::empty() && final(self)@ == old(self)@
            }),
            op.applies_to(old(self)@),
            op.apply(old(self)@) == final(self)@,
    {
        let len = rope_len_chars(&self.rope);
        let start = if start < len {
            start
        } else {
            len
        };
        let end = if end < len {
            end
        } else {
            len
        };
        if start >= end {
            let op = EditOp { offset: start, old_text: String::new(), new_text: String::new() };
            proof {
                lemma_empty_edit_identity(op, old(self)@);
            }
            return op;
        }
        let old_text = rope_slice_to_string(&self.rope, start, end);
        rope_remove(&mut self.rope, start, end);
        let op = EditOp { offset: start, old_text, new_text: String::new() };
        proof {
            assert(op.apply(old(self)@) =~= final(self)@);
        }
        op
    }

    /// Delete a range defined by two Positions (in either order).
    pub fn delete_range(&mut self, from: Position, to: Position) -> (op: EditOp)
        ensures
            ({
                let a = offset_of(old(self)@, from.line as int, from.column as int);
                let b = offset_of(old(self)@, to.line as int, to.column as int);
                let s = if a <= b {
                    a
                } else {
                    b
                };
                let e = if a <= b {
                    b
                } else {
                    a
                };
                &&& op.offset == s
                &&& op.old_text@ == old(self)@.subrange(s, e)
                &&& op.new_text@ == Seq::<char>::empty()
                &&& final(self)@ == old(self)@.take(s) + old(self)@.skip(e)
            }),
            op.applies_to(old(self)@),
            op.apply(old(self)@) == final(self)@,
    {
        let start = self.pos_to_char(from);
        let end = self.pos_to_char(to);
        let ghost s0 = self@;
        proof {
            assert(s0.subrange(start as int, start as int) =~= Seq::<char>::empty());
            assert(s0.take(start as int) + s0.skip(start as int) =~= s0);
            assert(s0.subrange(end as int, end as int) =~= Seq::<char>::empty());
            assert(s0.take(end as int) + s0.skip(end as int) =~= s0);
        }
        if start <= end {
            self.delete(start, end)
        } else {
            self.delete(end, start)
        }
    }

    /// Replace text in a range (ends clamped to the end; an empty or
    /// inverted range inserts at its start). Returns the old text as an edit.
    pub fn replace(&mut self, start: usize, end: usize, text: &str) -> (op: EditOp)
        ensures
            ({
                let n = old(self)@.len() as int;
                let s = clamp(start as int, n);
                let e = clamp(end as int, n);
                &&& op.offset == s
                &&& op.new_text@ == text@
                &&& s < e ==> op.old_text@ == old(self)@.subrange(s, e) && final(self)@
                    == old(self)@.take(s) + text@ + old(self)@.skip(e)
                &&& s >= e ==> op.old_text@ == Seq::<char>::empty() && final(self)@ == old(self)@.take(s) + text@ + old(self)@.skip(s)
            }),
            op.applies_to(old(self)@),
            op.apply(old(self)@) == final(self)@,
    {
        let len = rope_len_chars(&self.rope);
        let start = if start < len {
            start
        } else {
            len
        };
        let end = if end < len {
            end
        } else {
            len
        };
        let ghost s0 = self@;
        let old_text = if start < end {
            let s = rope_slice_to_string(&self.rope, start, end);
            rope_remove(&mut self.rope, start, end);
            s
        } else {
            String::new()
        };
        let ghost s1 = self@;
        proof {
            assert(s1.len() >= start);
        }
        rope_insert(&mut self.rope, start, text);
        let op = EditOp { offset: start, old_text, new_text: text.to_owned() };
        proof {
            if start < end {
                assert(s1.take(start as int) =~= s0.take(start as int));
                assert(s1.skip(start as int) =~= s0.skip(end as int));
            } else {
                assert(s0.subrange(start as int, start as int) =~= op.old_text@);
            }
            assert(op.apply(s0) =~= self@);
        }
        op
    }

    /// Find the start of the word at or before the given char offset.
    pub fn word_start(&self, char_offset: usize) -> (r: usize)
        requires
            char_offset <= self@.len(),
        ensures
            r == word_start_of(self@, char_offset as int),
            r <= char_offset,
    {
        proof {
            lemma_skip_back_bounds(self@, char_offset as int);
            lemma_skip_back_bounds(self@, skip_whitespace_back(self@, char_offset as int));
        }
        if char_offset == 0 {
            return 0;
        }
        let mut idx = char_offset;
        while idx > 0
            invariant
                idx <= char_offset <= self@.len(),
                skip_whitespace_back(self@, idx as int) == skip_whitespace_back(
                    self@,
                    char_offset as int,
                ),
            ensures
                idx <= char_offset,
                skip_whitespace_back(self@, idx as int) == idx,
                idx == skip_whitespace_back(self@, char_offset as int),
            decreases idx,
        {
            let ch = rope_char(&self.rope, idx - 1);
            if !char_is_whitespace(ch) {
                break;
            }
            idx -= 1;
        }
        let ghost w = idx;
        while idx > 0
            invariant
                idx <= w <= self@.len(),
                skip_word_back(self@, idx as int) == skip_word_back(self@, w as int),
                w == skip_whitespace_back(self@, char_offset as int),
            ensures
                skip_word_back(self@, idx as int) == idx,
                idx == skip_word_back(self@, w as int),
            decreases idx,
        {
            let ch = rope_char(&self.rope, idx - 1);
            if !char_is_alphanumeric(ch) && ch != '_' {
                break;
            }
            idx -= 1;
        }
        idx
    }

    /// Find the end of the word at or after the given char offset.
    pub fn word_end(&self, char_offset: usize) -> (r: usize)
        ensures
            r == word_end_of(self@, char_offset as int),
            char_offset <= self@.len() ==> char_offset <= r,
            r <= self@.len(),
    {
        let len = rope_len_chars(&self.rope);
        if char_offset >= len {
            return len;
        }
        proof {
            lemma_skip_fwd_bounds(self@, char_offset as int);
            lemma_skip_fwd_bounds(self@, skip_word_fwd(self@, char_offset as int));
        }
        let mut idx = char_offset;
        while idx < len
            invariant
                char_offset <= idx <= len,
                len == self@.len(),
                skip_word_fwd(self@, idx as int) == skip_word_fwd(self@, char_offset as int),
            ensures
                char_offset <= idx <= len,
                idx == skip_word_fwd(self@, char_offset as int),
            decreases len - idx,
        {
            let ch = rope_char(&self.rope, idx);
            if !char_is_alphanumeric(ch) && ch != '_' {
                break;
            }
            idx += 1;
        }
        let ghost w = idx;
        while idx < len
            invariant
                w <= idx <= len,
                len == self@.len(),
                skip_whitespace_fwd(self@, idx as int) == skip_whitespace_fwd(self@, w as int),
                w == skip_word_fwd(self@, char_offset as int),
            ensures
                w <= idx <= len,
                idx == skip_whitespace_fwd(self@, w as int),
            decreases len - idx,
        {
            let ch = rope_char(&self.rope, idx);
            if !char_is_whitespace(ch) {
                break;
            }
            idx += 1;
        }
        idx
    }
}

impl Default for EditBuffer {
    fn default() -> (b: Self)
        ensures
            b@ == Seq::<char>::empty(),
    {
        Self::new()
    }
}


/// The chars that moving right from `i` over word chars passes are all
/// word chars, and the char it stops at (if any) is not one.
proof fn lemma_skip_word_fwd_span(s: Seq<char>, i: int)
    requires
        0 <= i <= s.len(),
    ensures
        forall|k: int| i <= k < skip_word_fwd(s, i) ==> is_word_char(#[trigger] s[k]),
        skip_word_fwd(s, i) < s.len() ==> !is_word_char(s[skip_word_fwd(s, i)]),
    decreases s.len() - i,
{
    lemma_skip_fwd_bounds(s, i);
    if i < s.len() && is_word_char(s[i]) {
        lemma_skip_word_fwd_span(s, i + 1);
    }
}

/// The chars that moving right from `i` over whitespace passes are all
/// whitespace, and the char it stops at (if any) is not.
proof fn lemma_skip_whitespace_fwd_span(s: Seq<char>, i: int)
    requires
        0 <= i <= s.len(),
    ensures
        forall|k: int| i <= k < skip_whitespace_fwd(s, i) ==> is_whitespace_char(#[trigger] s[k]),
        skip_whitespace_fwd(s, i) < s.len() ==> !is_whitespace_char(s[skip_whitespace_fwd(s, i)]),
    decreases s.len() - i,
{
    lemma_skip_fwd_bounds(s, i);
    if i < s.len() && is_whitespace_char(s[i]) {
        lemma_skip_whitespace_fwd_span(s, i + 1);
    }
}

/// Moving right over word chars from `i` passes every char of a run of
/// alphanumeric chars and `_` that starts at `i`.
proof fn lemma_skip_word_fwd_passes(s: Seq<char>, i: int, j: int)
    requires
        0 <= i <= j <= s.len(),
        forall|k: int| i <= k < j ==> is_alphanumeric_char(#[trigger] s[k]) || s[k] == '_',
    ensures
        skip_word_fwd(s, i) >= j,
    decreases j - i,
{
    lemma_skip_fwd_bounds(s, i);
    if i < j {
        assert(is_alphanumeric_char(s[i]) || s[i] == '_');
        assert(is_word_char(s[i]));
        lemma_skip_word_fwd_passes(s, i + 1, j);
        assert(skip_word_fwd(s, i) == skip_word_fwd(s, i + 1));
    }
}

/// Moving left over word chars from `i` passes every char of a run of
/// alphanumeric chars and `_` that ends at `i`.
proof fn lemma_skip_word_back_passes(s: Seq<char>, j: int, i: int)
    requires
        0 <= j <= i <= s.len(),
        forall|k: int| j <= k < i ==> is_alphanumeric_char(#[trigger] s[k]) || s[k] == '_',
    ensures
        skip_word_back(s, i) <= j,
    decreases i - j,
{
    lemma_skip_back_bounds(s, i);
    if j < i {
        assert(is_alphanumeric_char(s[i - 1]) || s[i - 1] == '_');
        assert(is_word_char(s[i - 1]));
        lemma_skip_word_back_passes(s, j, i - 1);
        assert(skip_word_back(s, i) == skip_word_back(s, i - 1));
    }
}

proof fn lemma_skip_whitespace_back_span(s: Seq<char>, i: int)
    requires
        0 <= i <= s.len(),
    ensures
        forall|k: int| skip_whitespace_back(s, i) <= k < i ==> is_whitespace_char(#[trigger] s[k]),
    decreases i,
{
    lemma_skip_back_bounds(s, i);
    if i > 0 && is_whitespace_char(s[i - 1]) {
        lemma_skip_whitespace_back_span(s, i - 1);
    }
}

/// From `c`, the chars before `m` are alphanumeric or `_` and the one at
/// `m` (if any) is not; the chars from `m` before `r` are whitespace and the
/// one at `r` (if any) is not.
pub open spec fn word_then_whitespace(s: Seq<char>, c: int, m: int, r: int) -> bool {
    &&& c <= m <= r
    &&& forall|k: int| c <= k < m ==> is_alphanumeric_char(#[trigger] s[k]) || s[k] == '_'
    &&& m < s.len() ==> !(is_alphanumeric_char(s[m]) || s[m] == '_')
    &&& forall|k: int| m <= k < r ==> is_whitespace_char(#[trigger] s[k])
    &&& r < s.len() ==> !is_whitespace_char(s[r])
}

/// The end of the word at `c` (what Alt+Right and Alt+Delete go to): from
/// `c`, first the run of alphanumeric chars and `_`, then the run of
/// whitespace after it; it stops at the first char that is neither (or at
/// the end of the text).
pub proof fn law_word_end_skips_word_then_whitespace(s: Seq<char>, c: int)
    requires
        0 <= c <= s.len(),
    ensures
        c <= word_end_of(s, c) <= s.len(),
        c < s.len() ==> exists|m: int| #[trigger]
            word_then_whitespace(s, c, m, word_end_of(s, c)),
{
    if c < s.len() {
        let m = skip_word_fwd(s, c);
        lemma_skip_fwd_bounds(s, c);
        lemma_skip_fwd_bounds(s, m);
        lemma_skip_word_fwd_span(s, c);
        lemma_skip_whitespace_fwd_span(s, m);
        let r = word_end_of(s, c);
        assert(r == skip_whitespace_fwd(s, m));
        assert(forall|k: int| c <= k < m ==> is_alphanumeric_char(#[trigger] s[k]) || s[k] == '_');
        assert(m < s.len() ==> !(is_alphanumeric_char(s[m]) || s[m] == '_'));
        assert(forall|k: int| m <= k < r ==> is_whitespace_char(#[trigger] s[k]));
        assert(r < s.len() ==> !is_whitespace_char(s[r]));
        assert(word_then_whitespace(s, c, m, r));
    }
}

/// Skipping a word forward passes over every alphanumeric char and `_`:
/// if all the chars of `s[i..j]` are such, the word end from `i` is at `j`
/// or beyond.
pub proof fn law_word_end_passes_word_chars(s: Seq<char>, i: int, j: int)
    requires
        0 <= i <= j <= s.len(),
        forall|k: int| i <= k < j ==> is_alphanumeric_char(#[trigger] s[k]) || s[k] == '_',
    ensures
        word_end_of(s, i) >= j,
{
    if i < s.len() {
        lemma_skip_word_fwd_passes(s, i, j);
        lemma_skip_fwd_bounds(s, i);
        lemma_skip_fwd_bounds(s, skip_word_fwd(s, i));
    }
}

/// Skipping a word backward passes over every alphanumeric char and `_`:
/// if all the chars of `s[j..i]` are such, the word start from `i` is at
/// `j` or before.
pub proof fn law_word_start_passes_word_chars(s: Seq<char>, j: int, i: int)
    requires
        0 <= j <= i <= s.len(),
        forall|k: int| j <= k < i ==> is_alphanumeric_char(#[trigger] s[k]) || s[k] == '_',
    ensures
        word_start_of(s, i) <= j,
{
    let p = skip_whitespace_back(s, i);
    lemma_skip_back_bounds(s, i);
    lemma_skip_back_bounds(s, p);
    if p > j {
        lemma_skip_word_back_passes(s, j, p);
    }
}

} // verus!
