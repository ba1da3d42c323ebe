//! Display lines: the visible lines of a buffer with their syntax highlights
//! moved from whole-text byte offsets to offsets within each line.
use crate::buffer::EditBuffer;
use crate::chars::utf8_len;
use crate::lines::{line_count, line_text};
use vstd::prelude::*;

verus! {

/// The kind of a highlighted SQL token.
#[derive(Debug, Clone, Copy, PartialEq, Eq, Structural)]
pub enum TokenKind {
    Keyword,
    String,
    Number,
    Comment,
    Operator,
    Identifier,
}

/// A highlighted token of the whole text (byte offsets into the text).
#[derive(Debug, Clone, Copy, PartialEq, Eq, Structural)]
pub struct TokenSpan {
    pub start: usize,
    pub end: usize,
    pub kind: TokenKind,
}

/// A highlight within a single display line (byte offsets relative to line start).
#[derive(Debug, Clone, Copy, PartialEq, Eq, Structural)]
pub struct LineHighlight {
    pub start: usize,
    pub end: usize,
    pub kind: TokenKind,
}

/// A single display line with its content and highlight information.
#[derive(Debug, Clone)]
pub struct DisplayLine {
    /// 1-based.
    pub line_number: usize,
    pub text: String,
    pub highlights: Vec<LineHighlight>,
}

/// The byte offset where display line `i` starts: each earlier line counts
/// its text (without LF) plus one byte for its line break.
pub open spec fn line_byte_start(s: Seq<char>, i: nat) -> nat
    decreases i,
{
    if i == 0 {
        0
    } else {
        line_byte_start(s, (i - 1) as nat) + utf8_len(line_text(s, (i - 1) as nat)) + 1
    }
}

/// A token span overlaps the line bytes `start..start + len`.
pub open spec fn overlaps(h: TokenSpan, start: int, len: int) -> bool {
    h.end > start && h.start < start + len
}

/// A token span seen from a line that starts at byte `start` and is `len` bytes long.
pub open spec fn relative_highlight(h: TokenSpan, start: int, len: int) -> LineHighlight {
    LineHighlight {
        start: (if h.start > start {
            h.start - start
        } else {
            0
        }) as usize,
        end: (if h.end - start < len {
            h.end - start
        } else {
            len
        }) as usize,
        kind: h.kind,
    }
}

/// The highlights of a line, in token order: the spans that overlap it,
/// each made relative to the line.
pub open spec fn line_highlights(hs: Seq<TokenSpan>, start: int, len: int) -> Seq<LineHighlight>
    decreases hs.len(),
{
    if hs.len() == 0 {
        Seq::empty()
    } else {
        let rest = line_highlights(hs.drop_last(), start, len);
        if overlaps(hs.last(), start, len) {
            rest.push(relative_highlight(hs.last(), start, len))
        } else {
            rest
        }
    }
}

/// The last line to show (exclusive): `first + count`, but no further than the text.
pub open spec fn display_end(s: Seq<char>, first: int, count: int) -> int {
    if first + count < line_count(s) {
        first + count
    } else {
        line_count(s) as int
    }
}

proof fn lemma_line_byte_start_monotone(s: Seq<char>, i: nat, j: nat)
    requires
        i <= j,
    ensures
        line_byte_start(s, i) + if i < j {
            utf8_len(line_text(s, i)) + 1
        } else {
            0
        } <= line_byte_start(s, j),
    decreases j - i,
{
    if i < j {
        lemma_line_byte_start_monotone(s, i, (j - 1) as nat);
    }
}

/// The highlights of one line: the spans that overlap bytes
/// `line_byte_start..line_byte_start + line_len`, made relative to the line.
fn highlights_for_line(
    highlights: &[TokenSpan],
    line_byte_start: usize,
    line_len: usize,
) -> (r: Vec<LineHighlight>)
    requires
        line_byte_start + line_len <= usize::MAX,
    ensures
        r@ == line_highlights(highlights@, line_byte_start as int, line_len as int),
{
    let line_byte_end = line_byte_start + line_len;
    let mut out: Vec<LineHighlight> = Vec::new();
    let mut i: usize = 0;
    while i < highlights.len()
        invariant
            i <= highlights@.len(),
            line_byte_end == line_byte_start + line_len,
            out@ == line_highlights(highlights@.take(i as int), line_byte_start as int, line_len as int),
        decreases highlights@.len() - i,
    {
        let h = highlights[i];
        proof {
            assert(highlights@.take(i + 1).drop_last() =~= highlights@.take(i as int));
            assert(highlights@.take(i + 1).last() == h);
        }
        if h.end > line_byte_start && h.start < line_byte_end {
            let start = if h.start > line_byte_start {
                h.start - line_byte_start
            } else {
                0
            };
            let rel_end = h.end - line_byte_start;
            let end = if rel_end < line_len {
                rel_end
            } else {
                line_len
            };
            out.push(LineHighlight { start, end, kind: h.kind });
        }
        i += 1;
    }
    proof {
        assert(highlights@.take(highlights@.len() as int) =~= highlights@);
    }
    out
}

/// `dl` shows line `i` of `s`: its 1-based number, its text without the
/// LF, and the highlights of `hs` that overlap it, relative to the line.
pub open spec fn is_display_line(s: Seq<char>, hs: Seq<TokenSpan>, i: nat, dl: DisplayLine) -> bool {
    &&& dl.line_number == i + 1
    &&& dl.text@ == line_text(s, i)
    &&& dl.highlights@ == line_highlights(
        hs,
        line_byte_start(s, i) as int,
        utf8_len(line_text(s, i)) as int,
    )
}

/// Compute display lines for the given range of the buffer, with the
/// whole text's highlights (byte offsets into the full text) moved onto
/// each line.
pub fn compute_display_lines(
    buffer: &EditBuffer,
    first_line: usize,
    line_count: usize,
    highlights: &[TokenSpan],
) -> (r: Vec<DisplayLine>)
    requires
        line_byte_start(buffer@, crate::lines::line_count(buffer@)) <= usize::MAX,
    ensures
        r@.len() == if first_line < display_end(buffer@, first_line as int, line_count as int) {
            display_end(buffer@, first_line as int, line_count as int) - first_line
        } else {
            0
        },
        forall|k: int|
            0 <= k < r@.len() ==> is_display_line(
                buffer@,
                highlights@,
                (first_line + k) as nat,
                #[trigger] r@[k],
            ),
{
    let total_lines = buffer.line_count();
    let end_line = if first_line < total_lines && line_count < total_lines - first_line {
        first_line + line_count
    } else {
        total_lines
    };
    // Byte offset of each line start.
    let mut line_byte_offsets: Vec<usize> = Vec::new();
    let mut offset: usize = 0;
    let mut line_idx: usize = 0;
    while line_idx < total_lines
        invariant
            line_idx <= total_lines == crate::lines::line_count(buffer@),
            line_byte_offsets@.len() == line_idx,
            offset == line_byte_start(buffer@, line_idx as nat),
            forall|j: int|
                0 <= j < line_idx ==> #[trigger] line_byte_offsets@[j] == line_byte_start(
                    buffer@,
                    j as nat,
                ),
            line_byte_start(buffer@, total_lines as nat) <= usize::MAX,
        decreases total_lines - line_idx,
    {
        line_byte_offsets.push(offset);
        let line_text = buffer.line(line_idx);
        proof {
            lemma_line_byte_start_monotone(buffer@, line_idx as nat, total_lines as nat);
        }
        offset = offset + line_text.as_str().len() + 1;
        line_idx += 1;
    }
    let mut out: Vec<DisplayLine> = Vec::new();
    let mut idx: usize = first_line;
    while idx < end_line
        invariant
            end_line <= total_lines == crate::lines::line_count(buffer@),
            first_line <= idx,
            first_line < end_line ==> idx <= end_line,
            !(first_line < end_line) ==> idx == first_line,
            out@.len() == idx - first_line,
            end_line == display_end(buffer@, first_line as int, line_count as int),
            line_byte_offsets@.len() == total_lines,
            forall|j: int|
                0 <= j < total_lines ==> #[trigger] line_byte_offsets@[j] == line_byte_start(
                    buffer@,
                    j as nat,
                ),
            line_byte_start(buffer@, total_lines as nat) <= usize::MAX,
            forall|k: int|
                0 <= k < out@.len() ==> is_display_line(
                    buffer@,
                    highlights@,
                    (first_line + k) as nat,
                    #[trigger] out@[k],
                ),
        decreases end_line - idx,
    {
        let text_of_line = buffer.line(idx);
        let byte_start = line_byte_offsets[idx];
        let len = text_of_line.as_str().len();
        proof {
            lemma_line_byte_start_monotone(buffer@, idx as nat, total_lines as nat);
        }
        let relative = highlights_for_line(highlights, byte_start, len);
        let ghost prev = out@;
        out.push(DisplayLine { line_number: idx + 1, text: text_of_line, highlights: relative });
        proof {
            assert(is_display_line(buffer@, highlights@, idx as nat, out@[prev.len() as int]));
            assert forall|k: int| 0 <= k < out@.len() implies is_display_line(
                buffer@,
                highlights@,
                (first_line + k) as nat,
                #[trigger] out@[k],
            ) by {
                if k < prev.len() {
                    assert(out@[k] == prev[k]);
                }
            }
        }
        idx += 1;
    }
    out
}

} // verus!
