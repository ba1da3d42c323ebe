//! The line structure of a text, as a rope with Unicode line breaks sees it.
//!
//! A line break is one of LF, VT, FF, CR, NEL, U+2028 and U+2029, and the
//! pair CR LF counts as a single break. Each break belongs to the line that
//! it ends, so a text with `n` breaks has `n + 1` lines (the last one may be
//! empty).
use vstd::prelude::*;

verus! {

/// The characters that end a line.
pub open spec fn is_line_break_char(c: char) -> bool {
    c == '\n' || c == '\u{000B}' || c == '\u{000C}' || c == '\r' || c == '\u{0085}' || c
        == '\u{2028}' || c == '\u{2029}'
}

/// A line ends just before char index `i`: the char before `i` is a break,
/// and it is not the CR of a CR LF pair.
pub open spec fn ends_line_at(s: Seq<char>, i: int) -> bool {
    &&& 1 <= i <= s.len()
    &&& is_line_break_char(s[i - 1])
    &&& !(s[i - 1] == '\r' && i < s.len() && s[i] == '\n')
}

/// The number of line breaks that end at or before char index `i`:
/// the index of the line that char `i` belongs to.
pub open spec fn breaks_upto(s: Seq<char>, i: int) -> nat
    decreases i,
{
    if i <= 0 {
        0
    } else {
        breaks_upto(s, i - 1) + if ends_line_at(s, i) {
            1nat
        } else {
            0nat
        }
    }
}

/// The number of lines of `s` (at least 1).
pub open spec fn line_count(s: Seq<char>) -> nat {
    breaks_upto(s, s.len() as int) + 1
}

/// The first index `j >= i` (up to `s.len()`) that is preceded by exactly `l` breaks,
/// or `s.len()` when there is none.
pub open spec fn first_with_count(s: Seq<char>, l: nat, i: int) -> int
    decreases s.len() - i,
{
    if i >= s.len() {
        s.len() as int
    } else if breaks_upto(s, i) == l {
        i
    } else {
        first_with_count(s, l, i + 1)
    }
}

/// The char index where line `l` starts; `s.len()` for the line one past the last.
pub open spec fn line_start(s: Seq<char>, l: nat) -> int {
    first_with_count(s, l, 0)
}

/// Line `l` with its line break, if it has one.
pub open spec fn raw_line(s: Seq<char>, l: nat) -> Seq<char> {
    s.subrange(line_start(s, l), line_start(s, l + 1))
}

/// Line `l` with a trailing LF removed (any other break char is kept).
pub open spec fn line_text(s: Seq<char>, l: nat) -> Seq<char> {
    let r = raw_line(s, l);
    if r.len() > 0 && r.last() == '\n' {
        r.drop_last()
    } else {
        r
    }
}

/// The last line index, or `line` when it is smaller.
pub open spec fn clamp_line(s: Seq<char>, line: int) -> nat {
    if line < line_count(s) - 1 {
        line as nat
    } else {
        (line_count(s) - 1) as nat
    }
}

/// The char offset of (line, column), each clamped to the text.
pub open spec fn offset_of(s: Seq<char>, line: int, column: int) -> int {
    let l = clamp_line(s, line);
    let len = line_text(s, l).len();
    line_start(s, l) + if column < len {
        column
    } else {
        len as int
    }
}

/// The line of char offset `c` (clamped to the text).
pub open spec fn line_of(s: Seq<char>, c: int) -> nat {
    let c2 = if c < s.len() {
        c
    } else {
        s.len() as int
    };
    breaks_upto(s, c2)
}

/// The column of char offset `c` (clamped to the text).
pub open spec fn column_of(s: Seq<char>, c: int) -> int {
    let c2 = if c < s.len() {
        c
    } else {
        s.len() as int
    };
    c2 - line_start(s, line_of(s, c))
}

pub proof fn lemma_breaks_step(s: Seq<char>, i: int)
    ensures
        breaks_upto(s, i + 1) <= breaks_upto(s, i) + 1,
        breaks_upto(s, i) <= breaks_upto(s, i + 1),
        i + 1 > 0 ==> (breaks_upto(s, i + 1) == breaks_upto(s, i) + 1 <==> ends_line_at(s, i + 1)),
{
}

pub proof fn lemma_breaks_monotone(s: Seq<char>, i: int, j: int)
    requires
        i <= j,
    ensures
        breaks_upto(s, i) <= breaks_upto(s, j),
    decreases j - i,
{
    if i < j {
        lemma_breaks_monotone(s, i, j - 1);
        lemma_breaks_step(s, j - 1);
    }
}

/// Beyond the end of the text no further breaks are counted.
pub proof fn lemma_breaks_past_end(s: Seq<char>, i: int)
    requires
        i >= s.len(),
    ensures
        breaks_upto(s, i) == breaks_upto(s, s.len() as int),
    decreases i - s.len(),
{
    if i > s.len() {
        lemma_breaks_past_end(s, i - 1);
    }
}

proof fn lemma_first_with_count_found(s: Seq<char>, l: nat, i: int)
    requires
        0 <= i <= s.len(),
        breaks_upto(s, i) <= l <= breaks_upto(s, s.len() as int),
        forall|k: int| 0 <= k < i ==> #[trigger] breaks_upto(s, k) < l,
    ensures
        i <= first_with_count(s, l, i) <= s.len(),
        breaks_upto(s, first_with_count(s, l, i)) == l,
        forall|k: int| 0 <= k < first_with_count(s, l, i) ==> #[trigger] breaks_upto(s, k) < l,
    decreases s.len() - i,
{
    if i >= s.len() {
    } else if breaks_upto(s, i) == l {
    } else {
        lemma_breaks_step(s, i);
        lemma_first_with_count_found(s, l, i + 1);
    }
}

proof fn lemma_first_with_count_missing(s: Seq<char>, l: nat, i: int)
    requires
        0 <= i,
        l > breaks_upto(s, s.len() as int),
    ensures
        first_with_count(s, l, i) == s.len(),
    decreases s.len() - i,
{
    if i < s.len() {
        lemma_breaks_monotone(s, i, s.len() as int);
        lemma_first_with_count_missing(s, l, i + 1);
    }
}

/// Where a line starts: the first offset preceded by exactly `l` breaks.
pub proof fn lemma_line_start(s: Seq<char>, l: nat)
    requires
        l < line_count(s),
    ensures
        0 <= line_start(s, l) <= s.len(),
        breaks_upto(s, line_start(s, l)) == l,
        forall|k: int| 0 <= k < line_start(s, l) ==> #[trigger] breaks_upto(s, k) < l,
        l == 0 ==> line_start(s, l) == 0,
        l > 0 ==> ends_line_at(s, line_start(s, l)),
{
    lemma_first_with_count_found(s, l, 0);
    if l > 0 {
        let p = line_start(s, l);
        if p == 0 {
        } else {
            assert(breaks_upto(s, p - 1) < l);
            lemma_breaks_step(s, p - 1);
        }
    }
}

/// The line one past the last starts at the end of the text.
pub proof fn lemma_line_start_end(s: Seq<char>)
    ensures
        line_start(s, line_count(s)) == s.len(),
{
    lemma_first_with_count_missing(s, line_count(s), 0);
}

/// Lines are ordered, and every offset inside a line belongs to that line.
pub proof fn lemma_line_bounds(s: Seq<char>, l: nat)
    requires
        l < line_count(s),
    ensures
        0 <= line_start(s, l) <= line_start(s, l + 1) <= s.len(),
        l + 1 < line_count(s) ==> line_start(s, l) < line_start(s, l + 1),
        l + 1 < line_count(s) ==> is_line_break_char(s[line_start(s, l + 1) - 1]),
        l + 1 < line_count(s) ==> ends_line_at(s, line_start(s, l + 1)),
        forall|c: int|
            line_start(s, l) <= c < line_start(s, l + 1) ==> #[trigger] breaks_upto(s, c) == l,
        l + 1 == line_count(s) ==> line_start(s, l + 1) == s.len(),
        l + 1 == line_count(s) ==> breaks_upto(s, s.len() as int) == l,
{
    lemma_line_start(s, l);
    if l + 1 < line_count(s) {
        lemma_line_start(s, l + 1);
        let a = line_start(s, l);
        let b = line_start(s, l + 1);
        if b <= a {
            if b < a {
                assert(breaks_upto(s, b) < l);
            }
            assert(false);
        }
        assert forall|c: int| a <= c < b implies #[trigger] breaks_upto(s, c) == l by {
            lemma_breaks_monotone(s, a, c);
            assert(breaks_upto(s, c) < l + 1);
        }
    } else {
        lemma_line_start_end(s);
        assert forall|c: int| line_start(s, l) <= c < line_start(s, l + 1) implies #[trigger] breaks_upto(
            s,
            c,
        ) == l by {
            lemma_breaks_monotone(s, line_start(s, l), c);
            lemma_breaks_monotone(s, c, s.len() as int);
        }
    }
}

/// The last line has no trailing LF: a final LF would start another line.
pub proof fn lemma_last_line_no_lf(s: Seq<char>)
    ensures
        line_text(s, (line_count(s) - 1) as nat) == raw_line(s, (line_count(s) - 1) as nat),
{
    let l = (line_count(s) - 1) as nat;
    lemma_line_bounds(s, l);
    let r = raw_line(s, l);
    if r.len() > 0 && r.last() == '\n' {
        let n = s.len() as int;
        assert(s[n - 1] == '\n');
        assert(ends_line_at(s, n));
        lemma_breaks_step(s, n - 1);
        assert(breaks_upto(s, n - 1) == l);
        assert(false);
    }
}

/// Every offset maps to a position whose column lies within its line.
pub proof fn lemma_position_in_line(s: Seq<char>, c: int)
    requires
        0 <= c,
    ensures
        line_of(s, c) < line_count(s),
        0 <= column_of(s, c) <= line_text(s, line_of(s, c)).len(),
{
    let c2 = if c < s.len() {
        c
    } else {
        s.len() as int
    };
    let l = line_of(s, c);
    lemma_breaks_monotone(s, c2, s.len() as int);
    lemma_line_start(s, l);
    lemma_line_bounds(s, l);
    let a = line_start(s, l);
    if c2 < a {
        assert(breaks_upto(s, c2) < l);
    }
    if l + 1 < line_count(s) {
        lemma_line_start(s, l + 1);
        let b = line_start(s, l + 1);
        if c2 >= b {
            lemma_breaks_monotone(s, b, c2);
        }
    } else {
        lemma_last_line_no_lf(s);
    }
}

/// Converting an offset to a position and back gives the (clamped) offset.
pub proof fn law_offset_position_roundtrip(s: Seq<char>, c: int)
    requires
        0 <= c,
    ensures
        offset_of(s, line_of(s, c) as int, column_of(s, c)) == if c < s.len() {
            c
        } else {
            s.len() as int
        },
{
    lemma_position_in_line(s, c);
}

/// Converting a position to an offset and back gives the clamped position,
/// unless the column is clamped to the end of a line that a break other
/// than LF ends (then the offset is the start of the next line).
pub proof fn law_position_offset_roundtrip(s: Seq<char>, line: int, column: int)
    requires
        0 <= line,
        0 <= column,
        !({
            let l = clamp_line(s, line);
            &&& l + 1 < line_count(s)
            &&& s[line_start(s, l + 1) - 1] != '\n'
            &&& column >= line_text(s, l).len()
        }),
    ensures
        line_of(s, offset_of(s, line, column)) == clamp_line(s, line),
        column_of(s, offset_of(s, line, column)) == if column < line_text(
            s,
            clamp_line(s, line),
        ).len() {
            column
        } else {
            line_text(s, clamp_line(s, line)).len() as int
        },
{
    let l = clamp_line(s, line);
    lemma_line_bounds(s, l);
    let o = offset_of(s, line, column);
    let a = line_start(s, l);
    let b = line_start(s, l + 1);
    assert(a <= o <= b);
    if l + 1 < line_count(s) {
        assert(o < b);
    } else {
        lemma_breaks_monotone(s, a, o);
        lemma_breaks_monotone(s, o, s.len() as int);
    }
    assert(breaks_upto(s, o) == l);
}

} // verus!
