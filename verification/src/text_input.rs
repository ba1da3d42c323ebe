//! The editing logic of a text input field, single-line (form fields) or
//! multi-line. Columns for vertical movement are counted in UTF-8 bytes.
use crate::chars::{
    char_utf8_width, lemma_utf8_len_push, str_chars, str_eq, string_from_chars, utf8_len,
};
use vstd::prelude::*;

verus! {

/// The start of the line that index `c` is on: just after the last LF before `c`.
pub open spec fn line_begin(t: Seq<char>, c: int) -> int
    decreases c,
{
    if c <= 0 {
        0
    } else if t[c - 1] == '\n' {
        c
    } else {
        line_begin(t, c - 1)
    }
}

/// The end of the line that index `c` is on: the first LF at or after `c`, or the end.
pub open spec fn line_finish(t: Seq<char>, c: int) -> int
    decreases t.len() - c,
{
    if c >= t.len() {
        t.len() as int
    } else if t[c] == '\n' {
        c
    } else {
        line_finish(t, c + 1)
    }
}

/// The char index within `line` that is `b` bytes from its start, if one is.
pub open spec fn index_at_byte(line: Seq<char>, b: nat) -> Option<int> {
    if exists|k: int| 0 <= k <= line.len() && utf8_len(line.take(k)) == b {
        Some(choose|k: int| 0 <= k <= line.len() && utf8_len(line.take(k)) == b)
    } else {
        None
    }
}

/// The bytes of the cursor's column: from the start of its line to the cursor.
pub open spec fn byte_column(t: Seq<char>, c: int) -> nat {
    utf8_len(t.subrange(line_begin(t, c), c))
}

/// Where moving up from `c` lands, if there is a line above: on that line,
/// the same byte column (at most the line's length). `None` inside the
/// option when that byte column falls inside a character.
pub open spec fn move_up_target(t: Seq<char>, c: int) -> Option<Option<int>> {
    let ls = line_begin(t, c);
    if ls == 0 {
        None
    } else {
        let pls = line_begin(t, ls - 1);
        let prev = t.subrange(pls, ls - 1);
        let col = byte_column(t, c);
        let target = if col < utf8_len(prev) {
            col
        } else {
            utf8_len(prev)
        };
        Some(
            match index_at_byte(prev, target) {
                Some(k) => Some(pls + k),
                None => None,
            },
        )
    }
}

/// Where moving down from `c` lands, if there is a line below: on that line,
/// the same byte column (at most the line's length). `None` inside the
/// option when that byte column falls inside a character.
pub open spec fn move_down_target(t: Seq<char>, c: int) -> Option<Option<int>> {
    let f = line_finish(t, c);
    if f >= t.len() {
        None
    } else {
        let nls = f + 1;
        let next = t.subrange(nls, line_finish(t, nls));
        let col = byte_column(t, c);
        let target = if col < utf8_len(next) {
            col
        } else {
            utf8_len(next)
        };
        Some(
            match index_at_byte(next, target) {
                Some(k) => Some(nls + k),
                None => None,
            },
        )
    }
}

/// `n` copies of `*`.
pub open spec fn stars(n: nat) -> Seq<char> {
    Seq::new(n, |i: int| '*')
}

/// Byte lengths grow strictly with each char.
pub proof fn lemma_utf8_len_take_strict(s: Seq<char>, i: int, j: int)
    requires
        0 <= i < j <= s.len(),
    ensures
        utf8_len(s.take(i)) < utf8_len(s.take(j)),
    decreases j - i,
{
    assert(s.take(j) =~= s.take(j - 1).push(s[j - 1]));
    lemma_utf8_len_push(s.take(j - 1), s[j - 1]);
    vstd::utf8::char_is_scalar(s[j - 1]);
    if i < j - 1 {
        lemma_utf8_len_take_strict(s, i, j - 1);
    }
}

/// The start of the line that `c` is on follows the last LF before `c`
/// (or is the start of the text), and no LF lies between it and `c`.
pub proof fn lemma_line_begin_bounds(t: Seq<char>, c: int)
    requires
        0 <= c <= t.len(),
    ensures
        0 <= line_begin(t, c) <= c,
        line_begin(t, c) > 0 ==> t[line_begin(t, c) - 1] == '\n',
        forall|j: int| line_begin(t, c) <= j < c ==> t[j] != '\n',
    decreases c,
{
    if c > 0 && t[c - 1] != '\n' {
        lemma_line_begin_bounds(t, c - 1);
    }
}

/// The end of the line that `c` is on is the first LF at or after `c` (or
/// the end of the text), and no LF lies between `c` and it.
pub proof fn lemma_line_finish_bounds(t: Seq<char>, c: int)
    requires
        0 <= c <= t.len(),
    ensures
        c <= line_finish(t, c) <= t.len(),
        line_finish(t, c) < t.len() ==> t[line_finish(t, c)] == '\n',
        forall|j: int| c <= j < line_finish(t, c) ==> t[j] != '\n',
    decreases t.len() - c,
{
    if c < t.len() && t[c] != '\n' {
        lemma_line_finish_bounds(t, c + 1);
    }
}

/// The char index `k` with `utf8_len(line.take(k)) == b`, when there is one.
pub proof fn lemma_index_at_byte(line: Seq<char>, b: nat, k: int)
    requires
        0 <= k <= line.len(),
        utf8_len(line.take(k)) == b,
    ensures
        index_at_byte(line, b) == Some(k),
{
    let c = choose|c: int| 0 <= c <= line.len() && utf8_len(line.take(c)) == b;
    if c < k {
        lemma_utf8_len_take_strict(line, c, k);
    } else if k < c {
        lemma_utf8_len_take_strict(line, k, c);
    }
}

/// `e` reports that the text changed to `t`.
pub open spec fn changed_to(e: Option<TextInputEvent>, t: Seq<char>) -> bool {
    e matches Some(TextInputEvent::Changed(s)) && s@ == t
}

/// `e` submits the text `t`.
pub open spec fn submitted(e: Option<TextInputEvent>, t: Seq<char>) -> bool {
    e matches Some(TextInputEvent::Submit(s)) && s@ == t
}

/// `s` was inserted at cursor `c` of `t`, giving `t2` with the cursor `c2`
/// after it, and `e` reports the change.
pub open spec fn inserted_at_cursor(
    t: Seq<char>,
    c: int,
    s: Seq<char>,
    t2: Seq<char>,
    c2: int,
    e: Option<TextInputEvent>,
) -> bool {
    &&& t2 == t.take(c) + s + t.skip(c)
    &&& c2 == c + s.len()
    &&& changed_to(e, t2)
}

/// Backspace right after typing a char gives back the text and the cursor
/// from before the typing.
pub proof fn law_backspace_undoes_typing(t: Seq<char>, c: int, ch: char)
    requires
        0 <= c <= t.len(),
    ensures
        ({
            let t2 = t.take(c) + seq![ch] + t.skip(c);
            let c2 = c + 1;
            &&& c2 > 0
            &&& t2.take(c2 - 1) + t2.skip(c2) == t
            &&& c2 - 1 == c
        }),
{
    let t2 = t.take(c) + seq![ch] + t.skip(c);
    assert(t2.take(c) =~= t.take(c));
    assert(t2.skip(c + 1) =~= t.skip(c));
    assert(t.take(c) + t.skip(c) =~= t);
}

/// A masked field shows one `*` per char: the parts shown before and after
/// the cursor together are as long as the text.
pub proof fn law_masked_shows_one_star_per_char(len: nat, c: nat)
    requires
        c <= len,
    ensures
        stars(c) + stars((len - c) as nat) == stars(len),
{
    assert(stars(c) + stars((len - c) as nat) =~= stars(len));
}

/// Events emitted by a text input.
#[derive(Debug, Clone)]
pub enum TextInputEvent {
    /// Text content changed.
    Changed(String),
    /// Enter pressed in single-line mode.
    Submit(String),
}

/// A key press, as the text input distinguishes them.
#[derive(Debug, Clone)]
pub enum TextInputKey {
    Backspace,
    Delete,
    Left,
    Right,
    Up,
    Down,
    Home,
    End,
    /// Enter, with whether the platform modifier (Cmd) was held.
    Enter { platform: bool },
    Tab,
    /// Cmd+A.
    SelectAll,
    /// Cmd+V.
    Paste,
    /// A key that may type text: its text, and whether Cmd or Ctrl was held.
    Other { key_char: Option<String>, platform: bool, control: bool },
}

impl TextInputKey {
    /// Classifies a key press by the key's name, the text it types and the
    /// modifiers held.
    pub fn from_keystroke(key: &str, key_char: Option<String>, platform: bool, control: bool) -> (k:
        TextInputKey)
        ensures
            k == if key@ == "backspace"@ {
                TextInputKey::Backspace
            } else if key@ == "delete"@ {
                TextInputKey::Delete
            } else if key@ == "left"@ {
                TextInputKey::Left
            } else if key@ == "right"@ {
                TextInputKey::Right
            } else if key@ == "up"@ {
                TextInputKey::Up
            } else if key@ == "down"@ {
                TextInputKey::Down
            } else if key@ == "home"@ {
                TextInputKey::Home
            } else if key@ == "end"@ {
                TextInputKey::End
            } else if key@ == "enter"@ {
                TextInputKey::Enter { platform }
            } else if key@ == "tab"@ {
                TextInputKey::Tab
            } else if key@ == "a"@ && platform {
                TextInputKey::SelectAll
            } else if key@ == "v"@ && platform {
                TextInputKey::Paste
            } else {
                TextInputKey::Other { key_char, platform, control }
            },
    {
        if str_eq(key, "backspace") {
            TextInputKey::Backspace
        } else if str_eq(key, "delete") {
            TextInputKey::Delete
        } else if str_eq(key, "left") {
            TextInputKey::Left
        } else if str_eq(key, "right") {
            TextInputKey::Right
        } else if str_eq(key, "up") {
            TextInputKey::Up
        } else if str_eq(key, "down") {
            TextInputKey::Down
        } else if str_eq(key, "home") {
            TextInputKey::Home
        } else if str_eq(key, "end") {
            TextInputKey::End
        } else if str_eq(key, "enter") {
            TextInputKey::Enter { platform }
        } else if str_eq(key, "tab") {
            TextInputKey::Tab
        } else if str_eq(key, "a") && platform {
            TextInputKey::SelectAll
        } else if str_eq(key, "v") && platform {
            TextInputKey::Paste
        } else {
            TextInputKey::Other { key_char, platform, control }
        }
    }
}

/// The text input's state: its text, the cursor (a char index) and its options.
pub struct TextInput {
    text: Vec<char>,
    cursor: usize,
    multiline: bool,
    placeholder: String,
    masked: bool,
}

impl TextInput {
    pub closed spec fn text_view(&self) -> Seq<char> {
        self.text@
    }

    pub closed spec fn cursor_view(&self) -> int {
        self.cursor as int
    }

    pub closed spec fn multiline_view(&self) -> bool {
        self.multiline
    }

    pub closed spec fn placeholder_view(&self) -> Seq<char> {
        self.placeholder@
    }

    pub closed spec fn masked_view(&self) -> bool {
        self.masked
    }

    /// The cursor lies within the text.
    pub closed spec fn wf(&self) -> bool {
        self.cursor <= self.text@.len()
    }

    pub fn new(multiline: bool) -> (t: Self)
        ensures
            t.wf(),
            t.text_view() == Seq::<char>::empty(),
            t.cursor_view() == 0,
            t.multiline_view() == multiline,
            t.placeholder_view() == Seq::<char>::empty(),
            !t.masked_view(),
    {
        TextInput {
            text: Vec::new(),
            cursor: 0,
            multiline,
            placeholder: String::new(),
            masked: false,
        }
    }

    pub fn with_placeholder(self, placeholder: String) -> (t: Self)
        requires
            self.wf(),
        ensures
            t.wf(),
            t.text_view() == self.text_view(),
            t.cursor_view() == self.cursor_view(),
            t.multiline_view() == self.multiline_view(),
            t.placeholder_view() == placeholder@,
            t.masked_view() == self.masked_view(),
    {
        TextInput { placeholder, ..self }
    }

    pub fn with_masked(self, masked: bool) -> (t: Self)
        requires
            self.wf(),
        ensures
            t.wf(),
            t.text_view() == self.text_view(),
            t.cursor_view() == self.cursor_view(),
            t.multiline_view() == self.multiline_view(),
            t.placeholder_view() == self.placeholder_view(),
            t.masked_view() == masked,
    {
        TextInput { masked, ..self }
    }

    pub fn text(&self) -> (s: String)
        ensures
            s@ == self.text_view(),
    {
        string_from_chars(self.text.as_slice())
    }

    pub fn placeholder(&self) -> (s: String)
        ensures
            s@ == self.placeholder_view(),
    {
        self.placeholder.clone()
    }

    pub fn is_masked(&self) -> (b: bool)
        ensures
            b == self.masked_view(),
    {
        self.masked
    }

    pub fn is_multiline(&self) -> (b: bool)
        ensures
            b == self.multiline_view(),
    {
        self.multiline
    }

    /// Replaces the text and puts the cursor at its end.
    pub fn set_text(&mut self, text: String)
        ensures
            final(self).wf(),
            final(self).text_view() == text@,
            final(self).cursor_view() == text@.len(),
            final(self).multiline_view() == old(self).multiline_view(),
            final(self).placeholder_view() == old(self).placeholder_view(),
            final(self).masked_view() == old(self).masked_view(),
    {
        self.text = str_chars(text.as_str());
        self.cursor = self.text.len();
    }

    /// The number of lines of the text (LF count plus one).
    pub fn line_count(&self) -> (n: usize)
        requires
            self.text_view().len() < usize::MAX,
        ensures
            n == self.text_view().filter(|c: char| c == '\n').len() + 1,
    {
        let mut count: usize = 0;
        let mut i: usize = 0;
        while i < self.text.len()
            invariant
                i <= self.text@.len(),
                count == self.text@.take(i as int).filter(|c: char| c == '\n').len(),
                count <= i,
            decreases self.text@.len() - i,
        {
            proof {
                assert(self.text@.take(i + 1).drop_last() =~= self.text@.take(i as int));
                reveal_with_fuel(Seq::filter, 1);
            }
            if self.text[i] == '\n' {
                count += 1;
            }
            i += 1;
        }
        proof {
            assert(self.text@.take(i as int) =~= self.text@);
        }
        count + 1
    }

    /// The text shown before the cursor: the text itself, or one `*` per
    /// char when masked.
    pub fn before_cursor(&self) -> (s: String)
        requires
            self.wf(),
        ensures
            self.masked_view() ==> s@ == stars(self.cursor_view() as nat),
            !self.masked_view() ==> s@ == self.text_view().take(self.cursor_view()),
    {
        let mut out: Vec<char> = Vec::new();
        let mut i: usize = 0;
        while i < self.cursor
            invariant
                i <= self.cursor <= self.text@.len(),
                self.masked ==> out@ == stars(i as nat),
                !self.masked ==> out@ == self.text@.take(i as int),
            decreases self.cursor - i,
        {
            if self.masked {
                out.push('*');
                proof {
                    assert(out@ =~= stars((i + 1) as nat));
                }
            } else {
                out.push(self.text[i]);
                proof {
                    assert(out@ =~= self.text@.take(i + 1));
                }
            }
            i += 1;
        }
        string_from_chars(out.as_slice())
    }

    /// The text shown after the cursor: the text itself, or one `*` per
    /// char when masked.
    pub fn after_cursor(&self) -> (s: String)
        requires
            self.wf(),
        ensures
            self.masked_view() ==> s@ == stars((self.text_view().len() - self.cursor_view()) as nat),
            !self.masked_view() ==> s@ == self.text_view().skip(self.cursor_view()),
    {
        let mut out: Vec<char> = Vec::new();
        let mut i: usize = self.cursor;
        while i < self.text.len()
            invariant
                self.cursor <= i <= self.text@.len(),
                self.masked ==> out@ == stars((i - self.cursor) as nat),
                !self.masked ==> out@ == self.text@.subrange(self.cursor as int, i as int),
            decreases self.text@.len() - i,
        {
            if self.masked {
                out.push('*');
                proof {
                    assert(out@ =~= stars((i + 1 - self.cursor) as nat));
                }
            } else {
                out.push(self.text[i]);
                proof {
                    assert(out@ =~= self.text@.subrange(self.cursor as int, i + 1));
                }
            }
            i += 1;
        }
        proof {
            assert(self.text@.subrange(self.cursor as int, i as int) =~= self.text@.skip(
                self.cursor as int,
            ));
        }
        string_from_chars(out.as_slice())
    }

    /// The start of the line that index `c` is on.
    fn line_begin_at(&self, c: usize) -> (r: usize)
        requires
            c <= self.text@.len(),
        ensures
            r == line_begin(self.text@, c as int),
    {
        let mut i = c;
        while i > 0 && self.text[i - 1] != '\n'
            invariant
                i <= c <= self.text@.len(),
                line_begin(self.text@, i as int) == line_begin(self.text@, c as int),
            decreases i,
        {
            i -= 1;
        }
        i
    }

    /// The end of the line that index `c` is on.
    fn line_finish_at(&self, c: usize) -> (r: usize)
        requires
            c <= self.text@.len(),
        ensures
            r == line_finish(self.text@, c as int),
    {
        let mut i = c;
        while i < self.text.len() && self.text[i] != '\n'
            invariant
                c <= i <= self.text@.len(),
                line_finish(self.text@, i as int) == line_finish(self.text@, c as int),
            decreases self.text@.len() - i,
        {
            i += 1;
        }
        i
    }

    /// The UTF-8 length of the chars in `a..b`.
    fn bytes_between(&self, a: usize, b: usize) -> (r: u128)
        requires
            a <= b <= self.text@.len(),
        ensures
            r == utf8_len(self.text@.subrange(a as int, b as int)),
    {
        let mut acc: u128 = 0;
        let mut i = a;
        while i < b
            invariant
                a <= i <= b <= self.text@.len(),
                acc == utf8_len(self.text@.subrange(a as int, i as int)),
                acc <= 4 * (i - a),
            decreases b - i,
        {
            let w = char_utf8_width(self.text[i]);
            proof {
                assert(self.text@.subrange(a as int, i + 1) =~= self.text@.subrange(
                    a as int,
                    i as int,
                ).push(self.text@[i as int]));
                lemma_utf8_len_push(self.text@.subrange(a as int, i as int), self.text@[i as int]);
            }
            acc = acc + w as u128;
            i += 1;
        }
        acc
    }

    /// The index in `start..end` that is `target` bytes after `start`, if
    /// that byte offset is not inside a char.
    fn find_index_at_byte(&self, start: usize, end: usize, target: u128) -> (r: Option<usize>)
        requires
            start <= end <= self.text@.len(),
            target <= utf8_len(self.text@.subrange(start as int, end as int)),
        ensures
            match index_at_byte(self.text@.subrange(start as int, end as int), target as nat) {
                Some(k) => r == Some((start + k) as usize) && 0 <= k <= end - start,
                None => r is None,
            },
    {
        let ghost line = self.text@.subrange(start as int, end as int);
        let mut acc: u128 = 0;
        let mut k = start;
        while acc < target
            invariant
                start <= k <= end <= self.text@.len(),
                line == self.text@.subrange(start as int, end as int),
                acc == utf8_len(line.take(k - start)),
                acc <= 4 * (k - start),
                target <= utf8_len(line),
                k > start ==> utf8_len(line.take(k - start - 1)) < target,
            decreases end - k,
        {
            if k == end {
                proof {
                    assert(line.take(k - start) =~= line);
                }
            }
            let w = char_utf8_width(self.text[k]);
            proof {
                assert(line.take(k - start + 1) =~= line.take(k - start).push(line[k - start]));
                lemma_utf8_len_push(line.take(k - start), line[k - start]);
                assert(line.take(k - start + 1).drop_last() =~= line.take(k - start));
            }
            acc = acc + w as u128;
            k += 1;
        }
        if acc == target {
            proof {
                lemma_index_at_byte(line, target as nat, k - start);
            }
            Some(k)
        } else {
            proof {
                let j = k - start;
                if exists|kk: int| 0 <= kk <= line.len() && utf8_len(line.take(kk)) == target as nat {
                    let kk = choose|kk: int|
                        0 <= kk <= line.len() && utf8_len(line.take(kk)) == target as nat;
                    if kk < j {
                        if kk < j - 1 {
                            lemma_utf8_len_take_strict(line, kk, j - 1);
                        }
                    } else if kk > j {
                        lemma_utf8_len_take_strict(line, j, kk);
                    }
                    assert(false);
                }
            }
            None
        }
    }

    /// Where moving up (or down) would put the cursor: `None` when there is
    /// no line in that direction, `Some(None)` when the column would fall
    /// inside a char.
    fn vertical_target(&self, down: bool) -> (r: Option<Option<usize>>)
        requires
            self.wf(),
        ensures
            !down ==> match move_up_target(self.text@, self.cursor as int) {
                None => r is None,
                Some(None) => r == Some(None::<usize>),
                Some(Some(k)) => r == Some(Some(k as usize)) && 0 <= k <= self.text@.len() && k
                    <= usize::MAX,
            },
            down ==> match move_down_target(self.text@, self.cursor as int) {
                None => r is None,
                Some(None) => r == Some(None::<usize>),
                Some(Some(k)) => r == Some(Some(k as usize)) && 0 <= k <= self.text@.len() && k
                    <= usize::MAX,
            },
            r matches Some(Some(k)) ==> k <= self.text@.len(),
    {
        let ghost t = self.text@;
        let c = self.cursor;
        let ls = self.line_begin_at(c);
        proof {
            lemma_line_begin_bounds(t, c as int);
        }
        let col = self.bytes_between(ls, c);
        if !down {
            if ls == 0 {
                return None;
            }
            let pls = self.line_begin_at(ls - 1);
            proof {
                lemma_line_begin_bounds(t, ls - 1);
            }
            let prev_len = self.bytes_between(pls, ls - 1);
            let target = if col < prev_len {
                col
            } else {
                prev_len
            };
            Some(self.find_index_at_byte(pls, ls - 1, target))
        } else {
            let f = self.line_finish_at(c);
            proof {
                lemma_line_finish_bounds(t, c as int);
            }
            if f >= self.text.len() {
                return None;
            }
            let nls = f + 1;
            let nle = self.line_finish_at(nls);
            proof {
                lemma_line_finish_bounds(t, nls as int);
            }
            let next_len = self.bytes_between(nls, nle);
            let target = if col < next_len {
                col
            } else {
                next_len
            };
            Some(self.find_index_at_byte(nls, nle, target))
        }
    }

    /// Whether moving up (or down) keeps the cursor between chars. It does
    /// not when the byte column lands inside a multi-byte char of the other
    /// line; the field cannot take such a move.
    pub fn can_move_vertically(&self, down: bool) -> (b: bool)
        requires
            self.wf(),
        ensures
            !down ==> b == !(self.multiline_view() && move_up_target(
                self.text_view(),
                self.cursor_view(),
            ) == Some(None::<int>)),
            down ==> b == !(self.multiline_view() && move_down_target(
                self.text_view(),
                self.cursor_view(),
            ) == Some(None::<int>)),
    {
        if !self.multiline {
            return true;
        }
        match self.vertical_target(down) {
            Some(None) => false,
            _ => true,
        }
    }

    /// Inserts `ch` at the cursor and moves the cursor after it.
    fn insert_char(&mut self, ch: &str)
        requires
            old(self).wf(),
        ensures
            final(self).wf(),
            final(self).text@ == old(self).text@.take(old(self).cursor as int) + ch@ + old(self).text@.skip(old(self).cursor as int),
            final(self).cursor == old(self).cursor + ch@.len(),
            final(self).multiline == old(self).multiline,
            final(self).placeholder == old(self).placeholder,
            final(self).masked == old(self).masked,
    {
        let inserted = str_chars(ch);
        let mut out: Vec<char> = Vec::new();
        let mut i: usize = 0;
        while i < self.cursor
            invariant
                i <= self.cursor <= self.text@.len(),
                out@ == self.text@.take(i as int),
            decreases self.cursor - i,
        {
            out.push(self.text[i]);
            proof {
                assert(out@ =~= self.text@.take(i + 1));
            }
            i += 1;
        }
        let mut j: usize = 0;
        while j < inserted.len()
            invariant
                j <= inserted@.len(),
                out@ == self.text@.take(self.cursor as int) + inserted@.take(j as int),
            decreases inserted@.len() - j,
        {
            out.push(inserted[j]);
            proof {
                assert(out@ =~= self.text@.take(self.cursor as int) + inserted@.take(j + 1));
            }
            j += 1;
        }
        let ghost mid = out@.len();
        let mut k = self.cursor;
        while k < self.text.len()
            invariant
                self.cursor <= k <= self.text@.len(),
                mid == self.cursor + inserted@.len(),
                out@ == self.text@.take(self.cursor as int) + inserted@ + self.text@.subrange(
                    self.cursor as int,
                    k as int,
                ),
            decreases self.text@.len() - k,
        {
            out.push(self.text[k]);
            proof {
                assert(out@ =~= self.text@.take(self.cursor as int) + inserted@
                    + self.text@.subrange(self.cursor as int, k + 1));
            }
            k += 1;
        }
        proof {
            assert(inserted@.take(inserted@.len() as int) =~= inserted@);
            assert(self.text@.subrange(self.cursor as int, k as int) =~= self.text@.skip(
                self.cursor as int,
            ));
        }
        let total = out.len();
        let new_cursor = self.cursor + inserted.len();
        self.text = out;
        self.cursor = new_cursor;
    }

    /// Deletes the char before the cursor, if any. Returns whether it did.
    fn backspace(&mut self) -> (changed: bool)
        requires
            old(self).wf(),
        ensures
            final(self).wf(),
            changed == (old(self).cursor > 0),
            changed ==> final(self).text@ == old(self).text@.take(old(self).cursor - 1) + old(self).text@.skip(old(self).cursor as int) && final(self).cursor == old(self).cursor - 1,
            !changed ==> final(self).text@ == old(self).text@ && final(self).cursor == old(self).cursor,
            final(self).multiline == old(self).multiline,
            final(self).placeholder == old(self).placeholder,
            final(self).masked == old(self).masked,
    {
        if self.cursor > 0 {
            self.cursor = self.cursor - 1;
            self.text.remove(self.cursor);
            proof {
                assert(self.text@ =~= old(self).text@.take(old(self).cursor - 1) + old(self).text@.skip(old(self).cursor as int));
            }
            true
        } else {
            false
        }
    }

    /// Deletes the char after the cursor, if any. Returns whether it did.
    fn delete_forward(&mut self) -> (changed: bool)
        requires
            old(self).wf(),
        ensures
            final(self).wf(),
            changed == (old(self).cursor < old(self).text@.len()),
            changed ==> final(self).text@ == old(self).text@.take(old(self).cursor as int) + old(self).text@.skip(old(self).cursor + 1),
            !changed ==> final(self).text@ == old(self).text@,
            final(self).cursor == old(self).cursor,
            final(self).multiline == old(self).multiline,
            final(self).placeholder == old(self).placeholder,
            final(self).masked == old(self).masked,
    {
        if self.cursor < self.text.len() {
            self.text.remove(self.cursor);
            proof {
                assert(self.text@ =~= old(self).text@.take(old(self).cursor as int) + old(self).text@.skip(old(self).cursor + 1));
            }
            true
        } else {
            false
        }
    }

    /// Moves up a line, to the same byte column (at most the line's length).
    fn move_up(&mut self)
        requires
            old(self).wf(),
            old(self).multiline ==> move_up_target(old(self).text@, old(self).cursor as int)
                != Some(None::<int>),
        ensures
            final(self).wf(),
            final(self).text@ == old(self).text@,
            old(self).multiline ==> match move_up_target(old(self).text@, old(self).cursor as int) {
                Some(Some(k)) => final(self).cursor as int == k,
                _ => final(self).cursor == old(self).cursor,
            },
            !old(self).multiline ==> final(self).cursor == old(self).cursor,
            final(self).multiline == old(self).multiline,
            final(self).placeholder == old(self).placeholder,
            final(self).masked == old(self).masked,
    {
        if !self.multiline {
            return;
        }
        match self.vertical_target(false) {
            Some(Some(k)) => {
                self.cursor = k;
            },
            _ => {},
        }
    }

    /// Moves down a line, to the same byte column (at most the line's length).
    fn move_down(&mut self)
        requires
            old(self).wf(),
            old(self).multiline ==> move_down_target(old(self).text@, old(self).cursor as int)
                != Some(None::<int>),
        ensures
            final(self).wf(),
            final(self).text@ == old(self).text@,
            old(self).multiline ==> match move_down_target(
                old(self).text@,
                old(self).cursor as int,
            ) {
                Some(Some(k)) => final(self).cursor as int == k,
                _ => final(self).cursor == old(self).cursor,
            },
            !old(self).multiline ==> final(self).cursor == old(self).cursor,
            final(self).multiline == old(self).multiline,
            final(self).placeholder == old(self).placeholder,
            final(self).masked == old(self).masked,
    {
        if !self.multiline {
            return;
        }
        match self.vertical_target(true) {
            Some(Some(k)) => {
                self.cursor = k;
            },
            _ => {},
        }
    }

    /// Moves one char left, if not at the start.
    fn move_left(&mut self)
        requires
            old(self).wf(),
        ensures
            final(self).wf(),
            final(self).text@ == old(self).text@,
            final(self).cursor == if old(self).cursor > 0 {
                old(self).cursor - 1
            } else {
                0
            },
            final(self).multiline == old(self).multiline,
            final(self).placeholder == old(self).placeholder,
            final(self).masked == old(self).masked,
    {
        if self.cursor > 0 {
            self.cursor = self.cursor - 1;
        }
    }

    /// Moves one char right, if not at the end.
    fn move_right(&mut self)
        requires
            old(self).wf(),
        ensures
            final(self).wf(),
            final(self).text@ == old(self).text@,
            final(self).cursor == if old(self).cursor < old(self).text@.len() {
                old(self).cursor + 1
            } else {
                old(self).cursor as int
            },
            final(self).multiline == old(self).multiline,
            final(self).placeholder == old(self).placeholder,
            final(self).masked == old(self).masked,
    {
        if self.cursor < self.text.len() {
            self.cursor = self.cursor + 1;
        }
    }

    /// Moves to the start of the line (multi-line) or of the text.
    fn move_to_start(&mut self)
        requires
            old(self).wf(),
        ensures
            final(self).wf(),
            final(self).text@ == old(self).text@,
            final(self).cursor == if old(self).multiline {
                line_begin(old(self).text@, old(self).cursor as int)
            } else {
                0
            },
            final(self).multiline == old(self).multiline,
            final(self).placeholder == old(self).placeholder,
            final(self).masked == old(self).masked,
    {
        if self.multiline {
            self.cursor = self.line_begin_at(self.cursor);
            proof {
                lemma_line_begin_bounds(old(self).text@, old(self).cursor as int);
            }
        } else {
            self.cursor = 0;
        }
    }

    /// Moves to the end of the line (multi-line) or of the text.
    fn move_to_end(&mut self)
        requires
            old(self).wf(),
        ensures
            final(self).wf(),
            final(self).text@ == old(self).text@,
            final(self).cursor == if old(self).multiline {
                line_finish(old(self).text@, old(self).cursor as int)
            } else {
                old(self).text@.len() as int
            },
            final(self).multiline == old(self).multiline,
            final(self).placeholder == old(self).placeholder,
            final(self).masked == old(self).masked,
    {
        if self.multiline {
            self.cursor = self.line_finish_at(self.cursor);
            proof {
                lemma_line_finish_bounds(old(self).text@, old(self).cursor as int);
            }
        } else {
            self.cursor = self.text.len();
        }
    }

    /// Handles a key press and says what changed: the new text after an
    /// edit, or the text to submit when Enter is pressed in a single-line
    /// field. `clipboard` is the clipboard's text, read for a paste.
    pub fn handle_key(&mut self, key: TextInputKey, clipboard: Option<String>) -> (event: Option<
        TextInputEvent,
    >)
        requires
            old(self).wf(),
            key is Up ==> !(old(self).multiline_view() && move_up_target(
                old(self).text_view(),
                old(self).cursor_view(),
            ) == Some(None::<int>)),
            key is Down ==> !(old(self).multiline_view() && move_down_target(
                old(self).text_view(),
                old(self).cursor_view(),
            ) == Some(None::<int>)),
        ensures
            final(self).wf(),
            final(self).multiline_view() == old(self).multiline_view(),
            final(self).placeholder_view() == old(self).placeholder_view(),
            final(self).masked_view() == old(self).masked_view(),
            ({
                let t = old(self).text_view();
                let c = old(self).cursor_view();
                let ml = old(self).multiline_view();
                let t2 = final(self).text_view();
                let c2 = final(self).cursor_view();
                let unchanged_text = final(self).text_view() == t;
                match key {
                    TextInputKey::Backspace => if c > 0 {
                        &&& final(self).text_view() == t.take(c - 1) + t.skip(c)
                        &&& final(self).cursor_view() == c - 1
                        &&& changed_to(event, final(self).text_view())
                    } else {
                        unchanged_text && final(self).cursor_view() == c && event is None
                    },
                    TextInputKey::Delete => if c < t.len() {
                        &&& final(self).text_view() == t.take(c) + t.skip(c + 1)
                        &&& final(self).cursor_view() == c
                        &&& changed_to(event, final(self).text_view())
                    } else {
                        unchanged_text && final(self).cursor_view() == c && event is None
                    },
                    TextInputKey::Left => unchanged_text && event is None && final(self).cursor_view()
                        == if c > 0 {
                        c - 1
                    } else {
                        0
                    },
                    TextInputKey::Right => unchanged_text && event is None && final(self).cursor_view() == if c < t.len() {
                        c + 1
                    } else {
                        c
                    },
                    TextInputKey::Up => unchanged_text && event is None && if ml {
                        match move_up_target(t, c) {
                            Some(Some(k)) => final(self).cursor_view() == k,
                            _ => final(self).cursor_view() == c,
                        }
                    } else {
                        final(self).cursor_view() == c
                    },
                    TextInputKey::Down => unchanged_text && event is None && if ml {
                        match move_down_target(t, c) {
                            Some(Some(k)) => final(self).cursor_view() == k,
                            _ => final(self).cursor_view() == c,
                        }
                    } else {
                        final(self).cursor_view() == c
                    },
                    TextInputKey::Home => unchanged_text && event is None && final(self).cursor_view() == if ml {
                        line_begin(t, c)
                    } else {
                        0
                    },
                    TextInputKey::End => unchanged_text && event is None && final(self).cursor_view() == if ml {
                        line_finish(t, c)
                    } else {
                        t.len() as int
                    },
                    TextInputKey::Enter { platform } => if ml && !platform {
                        inserted_at_cursor(t, c, seq!['\n'], t2, c2, event)
                    } else if !ml {
                        unchanged_text && final(self).cursor_view() == c && submitted(event, t)
                    } else {
                        unchanged_text && final(self).cursor_view() == c && event is None
                    },
                    TextInputKey::Tab => if ml {
                        inserted_at_cursor(t, c, seq![' ', ' ', ' ', ' '], t2, c2, event)
                    } else {
                        unchanged_text && final(self).cursor_view() == c && event is None
                    },
                    TextInputKey::SelectAll => unchanged_text && event is None && final(self).cursor_view() == t.len(),
                    TextInputKey::Paste => match clipboard {
                        Some(text) => inserted_at_cursor(t, c, text@, t2, c2, event),
                        None => unchanged_text && final(self).cursor_view() == c && event is None,
                    },
                    TextInputKey::Other { key_char, platform, control } => match key_char {
                        Some(ch) => if !platform && !control {
                            inserted_at_cursor(t, c, ch@, t2, c2, event)
                        } else {
                            unchanged_text && final(self).cursor_view() == c && event is None
                        },
                        None => unchanged_text && final(self).cursor_view() == c && event is None,
                    },
                }
            }),
    {
        match key {
            TextInputKey::Backspace => {
                if self.backspace() {
                    Some(TextInputEvent::Changed(self.text()))
                } else {
                    None
                }
            },
            TextInputKey::Delete => {
                if self.delete_forward() {
                    Some(TextInputEvent::Changed(self.text()))
                } else {
                    None
                }
            },
            TextInputKey::Left => {
                self.move_left();
                None
            },
            TextInputKey::Right => {
                self.move_right();
                None
            },
            TextInputKey::Up => {
                self.move_up();
                None
            },
            TextInputKey::Down => {
                self.move_down();
                None
            },
            TextInputKey::Home => {
                self.move_to_start();
                None
            },
            TextInputKey::End => {
                self.move_to_end();
                None
            },
            TextInputKey::Enter { platform } => {
                if self.multiline && !platform {
                    proof {
                        reveal_strlit("\n");
                        assert("\n"@ =~= seq!['\n']);
                    }
                    self.insert_char("\n");
                    Some(TextInputEvent::Changed(self.text()))
                } else if !self.multiline {
                    Some(TextInputEvent::Submit(self.text()))
                } else {
                    None
                }
            },
            TextInputKey::Tab => {
                if self.multiline {
                    proof {
                        reveal_strlit("    ");
                        assert("    "@ =~= seq![' ', ' ', ' ', ' ']);
                    }
                    self.insert_char("    ");
                    Some(TextInputEvent::Changed(self.text()))
                } else {
                    None
                }
            },
            TextInputKey::SelectAll => {
                self.cursor = self.text.len();
                None
            },
            TextInputKey::Paste => {
                match clipboard {
                    Some(text) => {
                        self.insert_char(text.as_str());
                        Some(TextInputEvent::Changed(self.text()))
                    },
                    None => None,
                }
            },
            TextInputKey::Other { key_char, platform, control } => {
                match key_char {
                    Some(ch) => {
                        if !platform && !control {
                            self.insert_char(ch.as_str());
                            Some(TextInputEvent::Changed(self.text()))
                        } else {
                            None
                        }
                    },
                    None => None,
                }
            },
        }
    }
}


/// What `index_at_byte` finds: a char index whose prefix is exactly `b`
/// bytes long; it finds none only when no prefix is.
proof fn lemma_index_at_byte_found(line: Seq<char>, b: nat)
    ensures
        index_at_byte(line, b) matches Some(k) ==> 0 <= k <= line.len() && utf8_len(line.take(k))
            == b,
        index_at_byte(line, b) is None ==> forall|k: int|
            0 <= k <= line.len() ==> utf8_len(#[trigger] line.take(k)) != b,
{
}

/// The smaller of two byte counts.
pub open spec fn min_bytes(a: nat, b: nat) -> nat {
    if a < b {
        a
    } else {
        b
    }
}

/// Moving down keeps the cursor's byte column, clamped to the length of
/// the next line: there is no line below exactly when no LF follows the
/// cursor; otherwise the target lies on the line after the cursor's, and
/// the bytes from that line's start to it are the bytes from the cursor's
/// line start to the cursor, or the whole next line if it is shorter. No
/// target is given only when that byte count falls inside a char.
pub proof fn law_move_down_keeps_byte_column(t: Seq<char>, c: int)
    requires
        0 <= c <= t.len(),
    ensures
        move_down_target(t, c) is None <==> (forall|j: int| c <= j < t.len() ==> t[j] != '\n'),
        move_down_target(t, c) is Some ==> {
            let f = line_finish(t, c);
            let e = line_finish(t, f + 1);
            let want = min_bytes(
                utf8_len(t.subrange(line_begin(t, c), c)),
                utf8_len(t.subrange(f + 1, e)),
            );
            &&& c <= f < t.len()
            &&& t[f] == '\n'
            &&& forall|j: int| c <= j < f ==> t[j] != '\n'
            &&& f + 1 <= e <= t.len()
            &&& forall|j: int| f + 1 <= j < e ==> t[j] != '\n'
            &&& (e < t.len() ==> t[e] == '\n')
            &&& match move_down_target(t, c) {
                Some(Some(k)) => f + 1 <= k <= e && utf8_len(t.subrange(f + 1, k)) == want,
                _ => forall|k: int| f + 1 <= k <= e ==> utf8_len(#[trigger] t.subrange(f + 1, k)) != want,
            }
        },
{
    lemma_line_finish_bounds(t, c);
    lemma_line_begin_bounds(t, c);
    let f = line_finish(t, c);
    if f < t.len() {
        lemma_line_finish_bounds(t, f + 1);
        let e = line_finish(t, f + 1);
        let next = t.subrange(f + 1, e);
        let want = min_bytes(utf8_len(t.subrange(line_begin(t, c), c)), utf8_len(next));
        lemma_index_at_byte_found(next, want);
        assert forall|k: int| f + 1 <= k <= e implies #[trigger] t.subrange(f + 1, k) == next.take(k - (f + 1)) by {
            assert(t.subrange(f + 1, k) =~= next.take(k - (f + 1)));
        }
        match index_at_byte(next, want) {
            Some(k) => {
                assert(t.subrange(f + 1, f + 1 + k) == next.take(k));
            },
            None => {
                assert forall|k: int| f + 1 <= k <= e implies utf8_len(
                    #[trigger] t.subrange(f + 1, k),
                ) != want by {
                    assert(t.subrange(f + 1, k) == next.take(k - (f + 1)));
                }
            },
        }
    } else {
        assert forall|j: int| c <= j < t.len() implies t[j] != '\n' by {}
    }
}

/// Moving up keeps the cursor's byte column, clamped to the length of the
/// line above: there is no line above exactly when no LF precedes the
/// cursor; otherwise the target lies on the line before the cursor's, and
/// the bytes from that line's start to it are the bytes from the cursor's
/// line start to the cursor, or the whole line above if it is shorter. No
/// target is given only when that byte count falls inside a char.
pub proof fn law_move_up_keeps_byte_column(t: Seq<char>, c: int)
    requires
        0 <= c <= t.len(),
    ensures
        move_up_target(t, c) is None <==> (forall|j: int| 0 <= j < c ==> t[j] != '\n'),
        move_up_target(t, c) is Some ==> {
            let b = line_begin(t, c);
            let p = line_begin(t, b - 1);
            let want = min_bytes(
                utf8_len(t.subrange(b, c)),
                utf8_len(t.subrange(p, b - 1)),
            );
            &&& 0 < b <= c
            &&& t[b - 1] == '\n'
            &&& forall|j: int| b <= j < c ==> t[j] != '\n'
            &&& 0 <= p <= b - 1
            &&& forall|j: int| p <= j < b - 1 ==> t[j] != '\n'
            &&& (p > 0 ==> t[p - 1] == '\n')
            &&& match move_up_target(t, c) {
                Some(Some(k)) => p <= k <= b - 1 && utf8_len(t.subrange(p, k)) == want,
                _ => forall|k: int| p <= k <= b - 1 ==> utf8_len(#[trigger] t.subrange(p, k)) != want,
            }
        },
{
    lemma_line_begin_bounds(t, c);
    let b = line_begin(t, c);
    if b > 0 {
        lemma_line_begin_bounds(t, b - 1);
        let p = line_begin(t, b - 1);
        let prev = t.subrange(p, b - 1);
        let want = min_bytes(utf8_len(t.subrange(b, c)), utf8_len(prev));
        lemma_index_at_byte_found(prev, want);
        assert forall|k: int| p <= k <= b - 1 implies #[trigger] t.subrange(p, k) == prev.take(k - p) by {
            assert(t.subrange(p, k) =~= prev.take(k - p));
        }
        match index_at_byte(prev, want) {
            Some(k) => {
                assert(t.subrange(p, p + k) == prev.take(k));
            },
            None => {
                assert forall|k: int| p <= k <= b - 1 implies utf8_len(
                    #[trigger] t.subrange(p, k),
                ) != want by {
                    assert(t.subrange(p, k) == prev.take(k - p));
                }
            },
        }
    } else {
        assert forall|j: int| 0 <= j < c implies t[j] != '\n' by {}
    }
}

} // verus!
