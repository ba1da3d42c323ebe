//! The SQL editor's state and editing logic: text, selection, undo history
//! and scroll position. Rendering and input events live with the caller,
//! which maps keys and mouse events onto these operations.
use crate::buffer::{clamp, lemma_empty_edit_identity, word_end_of, word_start_of, EditBuffer};
use crate::history::{
    apply_edits, edit_is_empty, edits_apply, edits_revert, law_redo_after_undo,
    law_revert_undoes_apply, redo_consistent, revert_edits, undo_consistent, HistoryState,
    UndoHistory,
};
use crate::lines::{
    column_of, lemma_position_in_line, line_count, line_of, line_text, offset_of,
};
use crate::selection::{Position, Selection, SelectionGoal};
use vstd::prelude::*;

verus! {

/// Lines kept visible above and below the cursor when scrolling.
pub const SCROLL_MARGIN: usize = 2;

/// Approximate number of visible lines used for scrolling.
pub const VISIBLE_LINES: usize = 30;

/// The char offset of a position in `s` (clamped).
pub open spec fn off(s: Seq<char>, p: Position) -> int {
    offset_of(s, p.line as int, p.column as int)
}

/// The position of char offset `c` in `s` (clamped).
pub open spec fn pos_at(s: Seq<char>, c: int) -> Position {
    Position { line: line_of(s, c) as usize, column: column_of(s, c) as usize }
}

/// A cursor at `p`.
pub open spec fn cursor_at(p: Position) -> Selection {
    Selection { start: p, end: p, reversed: false, goal: SelectionGoal::Unset }
}

/// `s` without the chars in `a..b` (unchanged when `a >= b`).
pub open spec fn delete_span(s: Seq<char>, a: int, b: int) -> Seq<char> {
    if a < b {
        s.take(a) + s.skip(b)
    } else {
        s
    }
}

/// `s` with the selected text removed.
pub open spec fn without_selection(s: Seq<char>, sel: Selection) -> Seq<char> {
    if sel.start == sel.end {
        s
    } else {
        delete_span(s, off(s, sel.start), off(s, sel.end))
    }
}

/// The selection after moving its head to `pos` (extending) or
/// collapsing to a cursor at `pos`.
pub open spec fn moved_selection(sel: Selection, pos: Position, extend: bool) -> Selection {
    if extend {
        if pos.lt(sel.tail_spec()) {
            Selection { start: pos, end: sel.tail_spec(), reversed: true, goal: sel.goal }
        } else {
            Selection { start: sel.tail_spec(), end: pos, reversed: false, goal: sel.goal }
        }
    } else {
        cursor_at(pos)
    }
}

/// The first visible line after scrolling so that `line` stays in view
/// with a margin.
pub open spec fn scroll_for(scroll: int, line: int) -> int {
    let s1 = if line < scroll + SCROLL_MARGIN {
        if line >= SCROLL_MARGIN {
            line - SCROLL_MARGIN
        } else {
            0
        }
    } else {
        scroll
    };
    if line >= s1 + VISIBLE_LINES - SCROLL_MARGIN {
        if line >= VISIBLE_LINES - 3 {
            line - (VISIBLE_LINES - 3)
        } else {
            0
        }
    } else {
        s1
    }
}

/// The length of line `l` without its trailing LF; 0 past the last line.
pub open spec fn line_len_of(s: Seq<char>, l: int) -> nat {
    if 0 <= l < line_count(s) {
        line_text(s, l as nat).len()
    } else {
        0
    }
}

/// Line `l` without its trailing LF; empty past the last line.
pub open spec fn line_or_empty(s: Seq<char>, l: int) -> Seq<char> {
    if 0 <= l < line_count(s) {
        line_text(s, l as nat)
    } else {
        Seq::empty()
    }
}

/// What copying puts on the clipboard: the selected text, or the head's
/// whole line with a trailing LF when nothing is selected.
pub open spec fn clipboard_text(s: Seq<char>, sel: Selection) -> Seq<char> {
    if sel.start == sel.end {
        line_or_empty(s, sel.head_spec().line as int).push('\n')
    } else {
        s.subrange(off(s, sel.start), off(s, sel.end))
    }
}

/// Later offsets are at later (or equal) positions.
proof fn lemma_pos_at_monotone(s: Seq<char>, a: int, b: int)
    requires
        0 <= a <= b <= s.len(),
    ensures
        line_of(s, a) < line_of(s, b) || (line_of(s, a) == line_of(s, b) && column_of(s, a)
            <= column_of(s, b)),
{
    lemma_position_in_line(s, a);
    lemma_position_in_line(s, b);
    crate::lines::lemma_breaks_monotone(s, a, b);
    if line_of(s, a) == line_of(s, b) {
    }
}

/// A prefix of an applicable edit sequence is applicable, and the next edit
/// applies to the text the prefix produces.
proof fn lemma_edits_apply_prefix(s: Seq<char>, edits: Seq<crate::buffer::EditOp>, k: int)
    requires
        edits_apply(s, edits),
        0 <= k < edits.len(),
    ensures
        edits_apply(s, edits.take(k + 1)),
        edits[k].applies_to(apply_edits(s, edits.take(k))),
    decreases edits.len(),
{
    if k == edits.len() - 1 {
        assert(edits.take(k + 1) =~= edits);
        assert(edits.drop_last() =~= edits.take(k));
    } else {
        lemma_edits_apply_prefix(s, edits.drop_last(), k);
        assert(edits.drop_last().take(k + 1) =~= edits.take(k + 1));
        assert(edits.drop_last().take(k) =~= edits.take(k));
    }
}

/// `h2` and `t2` follow from `h1` and `t1` by one edit transaction that began
/// with selection `sel1` and ended with `sel2`: either nothing changed, or a
/// new transaction whose edits turn `t1` into `t2` became the newest undoable
/// one and the redo stack was cleared.
pub open spec fn transaction_recorded(
    h1: HistoryState,
    t1: Seq<char>,
    sel1: Selection,
    h2: HistoryState,
    t2: Seq<char>,
    sel2: Selection,
) -> bool {
    ||| (h2 == h1 && t2 == t1)
    ||| {
        &&& h2.undo.len() == h1.undo.len() + 1
        &&& h2.undo.drop_last() == h1.undo
        &&& h2.redo.len() == 0
        &&& h2.pending.len() == 0
        &&& h2.pending_before is None
        &&& h2.undo.last().selection_before == sel1
        &&& h2.undo.last().selection_after == sel2
        &&& h2.undo.last().edits.len() > 0
        &&& edits_apply(t1, h2.undo.last().edits)
        &&& apply_edits(t1, h2.undo.last().edits) == t2
    }
}

/// Undo reverses an edit: when an edit operation recorded a transaction,
/// reverting that transaction's edits on the new text gives back the text
/// from before the edit, the transaction restores the selection from before
/// the edit, and undoing it leaves the undo stack from before the edit.
pub proof fn law_undo_reverses_edit(
    h1: HistoryState,
    t1: Seq<char>,
    sel1: Selection,
    h2: HistoryState,
    t2: Seq<char>,
    sel2: Selection,
)
    requires
        transaction_recorded(h1, t1, sel1, h2, t2, sel2),
        h2 != h1,
    ensures
        h2.undo.len() > 0,
        edits_revert(t2, h2.undo.last().edits),
        revert_edits(t2, h2.undo.last().edits) == t1,
        h2.undo.last().selection_before == sel1,
        h2.undo.last().selection_after == sel2,
        h2.after_undo().undo == h1.undo,
        h2.after_undo().redo.last() == h2.undo.last(),
{
    law_revert_undoes_apply(t1, h2.undo.last().edits);
}

/// Redo restores what undo reverted: in a text whose undo stack fits it,
/// undoing the newest transaction and redoing it gives back the text and
/// the history, and the redone transaction restores the selection from
/// after it.
pub proof fn law_redo_restores_undo(t: Seq<char>, h: HistoryState)
    requires
        undo_consistent(t, h.undo),
        h.undo.len() > 0,
    ensures
        ({
            let tr = h.undo.last();
            let undone = revert_edits(t, tr.edits);
            &&& h.after_undo().redo.last() == tr
            &&& edits_apply(undone, tr.edits)
            &&& apply_edits(undone, tr.edits) == t
            &&& h.after_undo().after_redo() == h
        }),
{
    law_revert_undoes_apply(t, h.undo.last().edits);
    law_redo_after_undo(h);
}

/// From `e0` to `e1` the editor replaced the selection (if any) with `text` and put a cursor
/// after it, recording one transaction.
pub open spec fn inserted(e0: SqlEditor, e1: SqlEditor, text: Seq<char>) -> bool {
    &&& ({
        let sel = e0.selection_view();
        let s1 = without_selection(e0.text_view(), sel);
        let o = off(s1, sel.start);
        &&& e1.text_view() == s1.take(o) + text + s1.skip(o)
        &&& e1.selection_view() == cursor_at(
            pos_at(e1.text_view(), o + text.len()),
        )
    })
    &&& transaction_recorded(
        e0.history_view(),
        e0.text_view(),
        e0.selection_view(),
        e1.history_view(),
        e1.text_view(),
        e1.selection_view(),
    )
    &&& e1.scroll_view() == e0.scroll_view()
    &&& e1.dragging_view() == e0.dragging_view()
}

/// From `e0` to `e1` the editor deleted the selection, or else the char before the cursor,
/// recording one transaction.
pub open spec fn backspaced(e0: SqlEditor, e1: SqlEditor) -> bool {
    &&& ({
        let s0 = e0.text_view();
        let sel = e0.selection_view();
        let o = off(s0, sel.head_spec());
        if sel.start != sel.end {
            &&& e1.text_view() == without_selection(s0, sel)
            &&& e1.selection_view() == cursor_at(sel.start)
        } else if o > 0 {
            &&& e1.text_view() == delete_span(s0, o - 1, o)
            &&& e1.selection_view() == cursor_at(
                pos_at(e1.text_view(), o - 1),
            )
        } else {
            &&& e1.text_view() == s0
            &&& e1.selection_view() == sel
        }
    })
    &&& transaction_recorded(
        e0.history_view(),
        e0.text_view(),
        e0.selection_view(),
        e1.history_view(),
        e1.text_view(),
        e1.selection_view(),
    )
    &&& e1.scroll_view() == e0.scroll_view()
    &&& e1.dragging_view() == e0.dragging_view()
}

/// From `e0` to `e1` the editor deleted the selection, or else the char after the cursor,
/// recording one transaction.
pub open spec fn deleted_forward(e0: SqlEditor, e1: SqlEditor) -> bool {
    &&& ({
        let s0 = e0.text_view();
        let sel = e0.selection_view();
        let o = off(s0, sel.head_spec());
        if sel.start != sel.end {
            &&& e1.text_view() == without_selection(s0, sel)
            &&& e1.selection_view() == cursor_at(sel.start)
        } else if o < s0.len() {
            &&& e1.text_view() == delete_span(s0, o, o + 1)
            &&& e1.selection_view() == sel
        } else {
            &&& e1.text_view() == s0
            &&& e1.selection_view() == sel
        }
    })
    &&& transaction_recorded(
        e0.history_view(),
        e0.text_view(),
        e0.selection_view(),
        e1.history_view(),
        e1.text_view(),
        e1.selection_view(),
    )
    &&& e1.scroll_view() == e0.scroll_view()
    &&& e1.dragging_view() == e0.dragging_view()
}

/// From `e0` to `e1` the editor deleted from the start of the word before the cursor up to the
/// cursor, recording one transaction.
pub open spec fn deleted_word_backward(e0: SqlEditor, e1: SqlEditor) -> bool {
    &&& ({
        let s0 = e0.text_view();
        let sel = e0.selection_view();
        let o = off(s0, sel.head_spec());
        let w = word_start_of(s0, o);
        if w < o {
            &&& e1.text_view() == delete_span(s0, w, o)
            &&& e1.selection_view() == cursor_at(
                pos_at(e1.text_view(), w),
            )
        } else {
            &&& e1.text_view() == s0
            &&& e1.selection_view() == sel
        }
    })
    &&& transaction_recorded(
        e0.history_view(),
        e0.text_view(),
        e0.selection_view(),
        e1.history_view(),
        e1.text_view(),
        e1.selection_view(),
    )
    &&& e1.scroll_view() == e0.scroll_view()
    &&& e1.dragging_view() == e0.dragging_view()
}

/// From `e0` to `e1` the editor deleted from the cursor up to the end of the word after it,
/// recording one transaction.
pub open spec fn deleted_word_forward(e0: SqlEditor, e1: SqlEditor) -> bool {
    &&& ({
        let s0 = e0.text_view();
        let o = off(s0, e0.selection_view().head_spec());
        e1.text_view() == delete_span(s0, o, word_end_of(s0, o))
    })
    &&& e1.selection_view() == e0.selection_view()
    &&& transaction_recorded(
        e0.history_view(),
        e0.text_view(),
        e0.selection_view(),
        e1.history_view(),
        e1.text_view(),
        e1.selection_view(),
    )
    &&& e1.scroll_view() == e0.scroll_view()
    &&& e1.dragging_view() == e0.dragging_view()
}

/// From `e0` to `e1` the editor undid the newest transaction, if there was one (`applied`).
pub open spec fn undone(e0: SqlEditor, e1: SqlEditor, applied: bool) -> bool {
    &&& applied == (e0.history_view().undo.len() > 0)
    &&& applied ==> {
        let t = e0.history_view().undo.last();
        &&& e1.text_view() == revert_edits(e0.text_view(), t.edits)
        &&& e1.selection_view() == t.selection_before
        &&& e1.history_view() == e0.history_view().after_undo()
    }
    &&& !applied ==> e1.text_view() == e0.text_view() && e1.selection_view() == e0.selection_view() && e1.history_view() == e0.history_view()
    &&& e1.scroll_view() == e0.scroll_view()
    &&& e1.dragging_view() == e0.dragging_view()
}

/// From `e0` to `e1` the editor redid the next undone transaction, if there was one
/// (`applied`).
pub open spec fn redone(e0: SqlEditor, e1: SqlEditor, applied: bool) -> bool {
    &&& applied == (e0.history_view().redo.len() > 0)
    &&& applied ==> {
        let t = e0.history_view().redo.last();
        &&& e1.text_view() == apply_edits(e0.text_view(), t.edits)
        &&& e1.selection_view() == t.selection_after
        &&& e1.history_view() == e0.history_view().after_redo()
    }
    &&& !applied ==> e1.text_view() == e0.text_view() && e1.selection_view() == e0.selection_view() && e1.history_view() == e0.history_view()
    &&& e1.scroll_view() == e0.scroll_view()
    &&& e1.dragging_view() == e0.dragging_view()
}

/// From `e0` to `e1` the editor took the left arrow (extending the selection when `extend`).
pub open spec fn moved_left(e0: SqlEditor, e1: SqlEditor, extend: bool) -> bool {
    &&& e1.text_view() == e0.text_view()
    &&& e1.history_view() == e0.history_view()
    &&& e1.dragging_view() == e0.dragging_view()
    &&& ({
        let s = e0.text_view();
        let sel = e0.selection_view();
        let o = off(s, sel.head_spec());
        if !extend && sel.start != sel.end {
            &&& e1.selection_view() == cursor_at(sel.start)
            &&& e1.scroll_view() == e0.scroll_view()
        } else if o > 0 {
            let p = pos_at(s, o - 1);
            &&& e1.selection_view() == moved_selection(sel, p, extend)
            &&& e1.scroll_view() == scroll_for(
                e0.scroll_view() as int,
                p.line as int,
            )
        } else {
            &&& e1.selection_view() == sel
            &&& e1.scroll_view() == e0.scroll_view()
        }
    })
}

/// From `e0` to `e1` the editor took the right arrow (extending the selection when `extend`).
pub open spec fn moved_right(e0: SqlEditor, e1: SqlEditor, extend: bool) -> bool {
    &&& e1.text_view() == e0.text_view()
    &&& e1.history_view() == e0.history_view()
    &&& e1.dragging_view() == e0.dragging_view()
    &&& ({
        let s = e0.text_view();
        let sel = e0.selection_view();
        let o = off(s, sel.head_spec());
        if !extend && sel.start != sel.end {
            &&& e1.selection_view() == cursor_at(sel.end)
            &&& e1.scroll_view() == e0.scroll_view()
        } else if o < s.len() {
            let p = pos_at(s, o + 1);
            &&& e1.selection_view() == moved_selection(sel, p, extend)
            &&& e1.scroll_view() == scroll_for(
                e0.scroll_view() as int,
                p.line as int,
            )
        } else {
            &&& e1.selection_view() == sel
            &&& e1.scroll_view() == e0.scroll_view()
        }
    })
}

/// From `e0` to `e1` the editor took the up arrow (extending the selection when `extend`).
pub open spec fn moved_up(e0: SqlEditor, e1: SqlEditor, extend: bool) -> bool {
    &&& e1.text_view() == e0.text_view()
    &&& e1.history_view() == e0.history_view()
    &&& e1.dragging_view() == e0.dragging_view()
    &&& ({
        let s = e0.text_view();
        let sel = e0.selection_view();
        let head = sel.head_spec();
        let goal = match sel.goal {
            SelectionGoal::Column(c) => c,
            SelectionGoal::Unset => head.column,
        };
        let target = (head.line - 1) as usize;
        let p = Position {
            line: target,
            column: clamp(goal as int, line_len_of(s, target as int) as int) as usize,
        };
        if head.line == 0 {
            &&& e1.selection_view() == sel
            &&& e1.scroll_view() == e0.scroll_view()
        } else {
            &&& e1.selection_view() == moved_selection(
                Selection { goal: SelectionGoal::Column(goal), ..sel },
                p,
                extend,
            )
            &&& e1.scroll_view() == scroll_for(
                e0.scroll_view() as int,
                target as int,
            )
        }
    })
}

/// From `e0` to `e1` the editor took the down arrow (extending the selection when `extend`).
pub open spec fn moved_down(e0: SqlEditor, e1: SqlEditor, extend: bool) -> bool {
    &&& e1.text_view() == e0.text_view()
    &&& e1.history_view() == e0.history_view()
    &&& e1.dragging_view() == e0.dragging_view()
    &&& ({
        let s = e0.text_view();
        let sel = e0.selection_view();
        let head = sel.head_spec();
        let goal = match sel.goal {
            SelectionGoal::Column(c) => c,
            SelectionGoal::Unset => head.column,
        };
        let target = (head.line + 1) as usize;
        let p = Position {
            line: target,
            column: clamp(goal as int, line_len_of(s, target as int) as int) as usize,
        };
        if head.line + 1 >= line_count(s) {
            &&& e1.selection_view() == sel
            &&& e1.scroll_view() == e0.scroll_view()
        } else {
            &&& e1.selection_view() == moved_selection(
                Selection { goal: SelectionGoal::Column(goal), ..sel },
                p,
                extend,
            )
            &&& e1.scroll_view() == scroll_for(
                e0.scroll_view() as int,
                target as int,
            )
        }
    })
}

/// From `e0` to `e1` the editor moved to the start of the word before the cursor.
pub open spec fn moved_word_left(e0: SqlEditor, e1: SqlEditor, extend: bool) -> bool {
    &&& e1.text_view() == e0.text_view()
    &&& e1.history_view() == e0.history_view()
    &&& e1.dragging_view() == e0.dragging_view()
    &&& ({
        let s = e0.text_view();
        let sel = e0.selection_view();
        let p = pos_at(s, word_start_of(s, off(s, sel.head_spec())));
        &&& e1.selection_view() == moved_selection(sel, p, extend)
        &&& e1.scroll_view() == scroll_for(
            e0.scroll_view() as int,
            p.line as int,
        )
    })
}

/// From `e0` to `e1` the editor moved to the end of the word after the cursor.
pub open spec fn moved_word_right(e0: SqlEditor, e1: SqlEditor, extend: bool) -> bool {
    &&& e1.text_view() == e0.text_view()
    &&& e1.history_view() == e0.history_view()
    &&& e1.dragging_view() == e0.dragging_view()
    &&& ({
        let s = e0.text_view();
        let sel = e0.selection_view();
        let p = pos_at(s, word_end_of(s, off(s, sel.head_spec())));
        &&& e1.selection_view() == moved_selection(sel, p, extend)
        &&& e1.scroll_view() == scroll_for(
            e0.scroll_view() as int,
            p.line as int,
        )
    })
}

/// From `e0` to `e1` the editor moved to column 0 of the cursor line.
pub open spec fn moved_to_line_start(e0: SqlEditor, e1: SqlEditor, extend: bool) -> bool {
    &&& e1.text_view() == e0.text_view()
    &&& e1.history_view() == e0.history_view()
    &&& e1.dragging_view() == e0.dragging_view()
    &&& ({
        let sel = e0.selection_view();
        let p = Position { line: sel.head_spec().line, column: 0 };
        &&& e1.selection_view() == moved_selection(sel, p, extend)
        &&& e1.scroll_view() == scroll_for(
            e0.scroll_view() as int,
            p.line as int,
        )
    })
}

/// From `e0` to `e1` the editor moved to the end of the cursor line.
pub open spec fn moved_to_line_end(e0: SqlEditor, e1: SqlEditor, extend: bool) -> bool {
    &&& e1.text_view() == e0.text_view()
    &&& e1.history_view() == e0.history_view()
    &&& e1.dragging_view() == e0.dragging_view()
    &&& ({
        let s = e0.text_view();
        let sel = e0.selection_view();
        let l = sel.head_spec().line;
        let p = Position { line: l, column: line_len_of(s, l as int) as usize };
        &&& e1.selection_view() == moved_selection(sel, p, extend)
        &&& e1.scroll_view() == scroll_for(
            e0.scroll_view() as int,
            p.line as int,
        )
    })
}

/// From `e0` to `e1` the editor selected the whole text.
pub open spec fn selected_all(e0: SqlEditor, e1: SqlEditor) -> bool {
    &&& e1.text_view() == e0.text_view()
    &&& e1.history_view() == e0.history_view()
    &&& e1.scroll_view() == e0.scroll_view()
    &&& e1.dragging_view() == e0.dragging_view()
    &&& ({
        let s = e0.text_view();
        let last = (line_count(s) - 1) as usize;
        e1.selection_view() == (Selection {
            start: Position { line: 0, column: 0 },
            end: Position { line: last, column: line_len_of(s, last as int) as usize },
            reversed: false,
            goal: SelectionGoal::Unset,
        })
    })
}

/// From `e0` to `e1` the editor cut: `r` is what was copied, and a selection was deleted.
pub open spec fn cut_done(e0: SqlEditor, e1: SqlEditor, r: Seq<char>) -> bool {
    &&& r == clipboard_text(e0.text_view(), e0.selection_view())
    &&& ({
        let s = e0.text_view();
        let sel = e0.selection_view();
        if sel.start == sel.end {
            &&& e1.text_view() == s
            &&& e1.selection_view() == sel
            &&& e1.history_view() == e0.history_view()
        } else {
            &&& e1.text_view() == without_selection(s, sel)
            &&& e1.selection_view() == cursor_at(sel.start)
            &&& transaction_recorded(
                e0.history_view(),
                s,
                sel,
                e1.history_view(),
                e1.text_view(),
                e1.selection_view(),
            )
        }
    })
    &&& e1.scroll_view() == e0.scroll_view()
    &&& e1.dragging_view() == e0.dragging_view()
}

/// The SQL editor: its text, selection, undo history, first visible line
/// and whether a mouse drag is selecting.
pub struct SqlEditor {
    buffer: EditBuffer,
    selection: Selection,
    history: UndoHistory,
    scroll_offset: usize,
    dragging: bool,
}

impl SqlEditor {
    /// The editor's text.
    pub closed spec fn text_view(&self) -> Seq<char> {
        self.buffer@
    }

    /// The editor's selection.
    pub closed spec fn selection_view(&self) -> Selection {
        self.selection
    }

    /// The editor's undo history.
    pub closed spec fn history_view(&self) -> HistoryState {
        self.history@
    }

    /// The first visible line.
    pub closed spec fn scroll_view(&self) -> usize {
        self.scroll_offset
    }

    /// Whether a mouse drag is extending the selection.
    pub closed spec fn dragging_view(&self) -> bool {
        self.dragging
    }

    /// No transaction is open and both stacks of the history fit the text.
    pub closed spec fn wf(&self) -> bool {
        &&& self.history@.pending.len() == 0
        &&& self.history@.pending_before is None
        &&& undo_consistent(self.buffer@, self.history@.undo)
        &&& redo_consistent(self.buffer@, self.history@.redo)
    }

    /// Inside a transaction that began at text `t0`, history `h0` and selection `sel0`.
    closed spec fn in_transaction(&self, t0: Seq<char>, h0: HistoryState, sel0: Selection) -> bool {
        &&& h0.pending.len() == 0
        &&& h0.pending_before is None
        &&& undo_consistent(t0, h0.undo)
        &&& redo_consistent(t0, h0.redo)
        &&& self.history@.undo == h0.undo
        &&& self.history@.redo == h0.redo
        &&& self.history@.pending_before == Some(sel0)
        &&& edits_apply(t0, self.history@.pending)
        &&& apply_edits(t0, self.history@.pending) == self.buffer@
    }

    pub fn new() -> (e: Self)
        ensures
            e.wf(),
            e.text_view() == Seq::<char>::empty(),
            e.selection_view() == cursor_at(Position { line: 0, column: 0 }),
            e.history_view() == HistoryState::empty(),
            e.scroll_view() == 0,
            !e.dragging_view(),
    {
        SqlEditor {
            buffer: EditBuffer::new(),
            selection: Selection::default(),
            history: UndoHistory::new(),
            scroll_offset: 0,
            dragging: false,
        }
    }

    pub fn text(&self) -> (s: String)
        ensures
            s@ == self.text_view(),
    {
        self.buffer.text()
    }

    pub fn selection(&self) -> (s: Selection)
        ensures
            s == self.selection_view(),
    {
        self.selection
    }

    pub fn scroll_offset(&self) -> (n: usize)
        ensures
            n == self.scroll_view(),
    {
        self.scroll_offset
    }

    pub fn line_count(&self) -> (n: usize)
        ensures
            n == line_count(self.text_view()),
    {
        self.buffer.line_count()
    }

    /// The text of line `line_idx` without its trailing LF (empty past the end).
    pub fn line(&self, line_idx: usize) -> (s: String)
        ensures
            line_idx < line_count(self.text_view()) ==> s@ == line_text(
                self.text_view(),
                line_idx as nat,
            ),
            line_idx >= line_count(self.text_view()) ==> s@ == Seq::<char>::empty(),
    {
        self.buffer.line(line_idx)
    }

    pub fn can_undo(&self) -> (b: bool)
        ensures
            b == (self.history_view().undo.len() > 0),
    {
        self.history.can_undo()
    }

    pub fn can_redo(&self) -> (b: bool)
        ensures
            b == (self.history_view().redo.len() > 0),
    {
        self.history.can_redo()
    }

    /// Replaces the whole text, puts the cursor at the start and forgets the history.
    pub fn set_text(&mut self, text: &str)
        ensures
            final(self).wf(),
            final(self).text_view() == text@,
            final(self).selection_view() == cursor_at(Position { line: 0, column: 0 }),
            final(self).history_view() == HistoryState::empty(),
            final(self).scroll_view() == old(self).scroll_view(),
            final(self).dragging_view() == old(self).dragging_view(),
    {
        self.buffer = EditBuffer::from_str(text);
        self.selection = Selection::cursor(Position::new(0, 0));
        self.history.clear();
    }

    /// The char offsets of the selection's start and end.
    pub fn selection_offsets(&self) -> (r: (usize, usize))
        ensures
            r.0 == off(self.text_view(), self.selection_view().start),
            r.1 == off(self.text_view(), self.selection_view().end),
    {
        (self.buffer.pos_to_char(self.selection.start), self.buffer.pos_to_char(self.selection.end))
    }

    // --- Transactions ---

    fn begin_edit(&mut self)
        requires
            old(self).wf(),
        ensures
            final(self).in_transaction(old(self).buffer@, old(self).history@, old(self).selection),
            final(self).buffer@ == old(self).buffer@,
            final(self).selection == old(self).selection,
            final(self).scroll_offset == old(self).scroll_offset,
            final(self).dragging == old(self).dragging,
    {
        self.history.begin_transaction(self.selection);
    }

    fn end_edit(
        &mut self,
        Ghost(t0): Ghost<Seq<char>>,
        Ghost(h0): Ghost<HistoryState>,
        Ghost(sel0): Ghost<Selection>,
    )
        requires
            old(self).in_transaction(t0, h0, sel0),
        ensures
            final(self).wf(),
            transaction_recorded(
                h0,
                t0,
                sel0,
                final(self).history@,
                final(self).buffer@,
                final(self).selection,
            ),
            final(self).buffer@ == old(self).buffer@,
            final(self).selection == old(self).selection,
            final(self).scroll_offset == old(self).scroll_offset,
            final(self).dragging == old(self).dragging,
    {
        let ghost pending = self.history@.pending;
        self.history.end_transaction(self.selection);
        proof {
            law_revert_undoes_apply(t0, pending);
            if pending.len() == 0 {
                assert(self.history@.pending =~= h0.pending);
                assert(self.history@ == h0);
            } else {
                let h = self.history@;
                assert(h.undo.drop_last() =~= h0.undo);
                assert(h.undo.last().edits == pending);
            }
        }
    }

    /// Deletes `start..end` (clamped) inside the open transaction and records it.
    fn delete_recorded(
        &mut self,
        start: usize,
        end: usize,
        Ghost(t0): Ghost<Seq<char>>,
        Ghost(h0): Ghost<HistoryState>,
        Ghost(sel0): Ghost<Selection>,
    )
        requires
            old(self).in_transaction(t0, h0, sel0),
        ensures
            final(self).in_transaction(t0, h0, sel0),
            final(self).buffer@ == delete_span(
                old(self).buffer@,
                clamp(start as int, old(self).buffer@.len() as int),
                clamp(end as int, old(self).buffer@.len() as int),
            ),
            final(self).selection == old(self).selection,
            final(self).scroll_offset == old(self).scroll_offset,
            final(self).dragging == old(self).dragging,
    {
        let ghost cur = self.buffer@;
        let ghost pending = self.history@.pending;
        let edit = self.buffer.delete(start, end);
        proof {
            if edit_is_empty(edit) {
                lemma_empty_edit_identity(edit, cur);
            }
            assert(self.history@.pending.push(edit).drop_last() =~= pending);
        }
        self.history.record_edit(edit);
    }

    /// Inserts `text` at char `offset` inside the open transaction and records it.
    fn insert_recorded(
        &mut self,
        offset: usize,
        text: &str,
        Ghost(t0): Ghost<Seq<char>>,
        Ghost(h0): Ghost<HistoryState>,
        Ghost(sel0): Ghost<Selection>,
    )
        requires
            old(self).in_transaction(t0, h0, sel0),
        ensures
            final(self).in_transaction(t0, h0, sel0),
            ({
                let o = clamp(offset as int, old(self).buffer@.len() as int);
                final(self).buffer@ == old(self).buffer@.take(o) + text@ + old(self).buffer@.skip(
                    o,
                )
            }),
            final(self).selection == old(self).selection,
            final(self).scroll_offset == old(self).scroll_offset,
            final(self).dragging == old(self).dragging,
    {
        let ghost cur = self.buffer@;
        let ghost pending = self.history@.pending;
        let edit = self.buffer.insert(offset, text);
        proof {
            if edit_is_empty(edit) {
                lemma_empty_edit_identity(edit, cur);
            }
            assert(self.history@.pending.push(edit).drop_last() =~= pending);
        }
        self.history.record_edit(edit);
    }

    /// Inside an open transaction, deletes the selected text (if any) and
    /// collapses the selection to its start.
    fn delete_selection_recorded(
        &mut self,
        Ghost(t0): Ghost<Seq<char>>,
        Ghost(h0): Ghost<HistoryState>,
        Ghost(sel0): Ghost<Selection>,
    )
        requires
            old(self).in_transaction(t0, h0, sel0),
            !(old(self).selection.start == old(self).selection.end),
        ensures
            final(self).in_transaction(t0, h0, sel0),
            final(self).buffer@ == without_selection(old(self).buffer@, old(self).selection),
            final(self).selection == cursor_at(old(self).selection.start),
            final(self).scroll_offset == old(self).scroll_offset,
            final(self).dragging == old(self).dragging,
    {
        let start = self.buffer.pos_to_char(self.selection.start);
        let end = self.buffer.pos_to_char(self.selection.end);
        self.delete_recorded(start, end, Ghost(t0), Ghost(h0), Ghost(sel0));
        self.selection.collapse_to(self.selection.start);
    }

    // --- Edit operations (with undo) ---

    /// Replaces the selection (if any) with `text` and puts the cursor after it.
    pub fn insert_text(&mut self, text: &str)
        requires
            old(self).wf(),
        ensures
            final(self).wf(),
            inserted(*old(self), *final(self), text@),
    {
        let ghost t0 = self.buffer@;
        let ghost h0 = self.history@;
        let ghost sel0 = self.selection;
        self.begin_edit();
        if !self.selection.is_empty() {
            self.delete_selection_recorded(Ghost(t0), Ghost(h0), Ghost(sel0));
        }
        let ghost s1 = self.buffer@;
        proof {
            assert(self.selection.start == sel0.start);
            assert(self.selection.head_spec() == sel0.start);
        }
        let offset = self.buffer.pos_to_char(self.selection.head());
        self.insert_recorded(offset, text, Ghost(t0), Ghost(h0), Ghost(sel0));
        let len = self.buffer.len_chars();
        let count = text.unicode_len();
        proof {
            assert(offset + count <= len);
        }
        let new_pos = self.buffer.char_to_pos(offset + count);
        self.selection.collapse_to(new_pos);
        self.end_edit(Ghost(t0), Ghost(h0), Ghost(sel0));
    }

    /// Deletes the selection, or else the char before the cursor.
    pub fn backspace(&mut self)
        requires
            old(self).wf(),
        ensures
            final(self).wf(),
            backspaced(*old(self), *final(self)),
    {
        let ghost t0 = self.buffer@;
        let ghost h0 = self.history@;
        let ghost sel0 = self.selection;
        self.begin_edit();
        if !self.selection.is_empty() {
            self.delete_selection_recorded(Ghost(t0), Ghost(h0), Ghost(sel0));
        } else {
            let offset = self.buffer.pos_to_char(self.selection.head());
            if offset > 0 {
                self.delete_recorded(offset - 1, offset, Ghost(t0), Ghost(h0), Ghost(sel0));
                let new_pos = self.buffer.char_to_pos(offset - 1);
                self.selection.collapse_to(new_pos);
            }
        }
        self.end_edit(Ghost(t0), Ghost(h0), Ghost(sel0));
    }

    /// Deletes the selection, or else the char after the cursor.
    pub fn delete_forward(&mut self)
        requires
            old(self).wf(),
        ensures
            final(self).wf(),
            deleted_forward(*old(self), *final(self)),
    {
        let ghost t0 = self.buffer@;
        let ghost h0 = self.history@;
        let ghost sel0 = self.selection;
        self.begin_edit();
        if !self.selection.is_empty() {
            self.delete_selection_recorded(Ghost(t0), Ghost(h0), Ghost(sel0));
        } else {
            let offset = self.buffer.pos_to_char(self.selection.head());
            if offset < self.buffer.len_chars() {
                self.delete_recorded(offset, offset + 1, Ghost(t0), Ghost(h0), Ghost(sel0));
            }
        }
        self.end_edit(Ghost(t0), Ghost(h0), Ghost(sel0));
    }

    /// Deletes from the start of the word before the cursor up to the cursor.
    pub fn delete_word_backward(&mut self)
        requires
            old(self).wf(),
        ensures
            final(self).wf(),
            deleted_word_backward(*old(self), *final(self)),
    {
        let ghost t0 = self.buffer@;
        let ghost h0 = self.history@;
        let ghost sel0 = self.selection;
        self.begin_edit();
        let offset = self.buffer.pos_to_char(self.selection.head());
        let word_start = self.buffer.word_start(offset);
        if word_start < offset {
            self.delete_recorded(word_start, offset, Ghost(t0), Ghost(h0), Ghost(sel0));
            let new_pos = self.buffer.char_to_pos(word_start);
            self.selection.collapse_to(new_pos);
        }
        self.end_edit(Ghost(t0), Ghost(h0), Ghost(sel0));
    }

    /// Deletes from the cursor up to the end of the word after it.
    pub fn delete_word_forward(&mut self)
        requires
            old(self).wf(),
        ensures
            final(self).wf(),
            deleted_word_forward(*old(self), *final(self)),
    {
        let ghost t0 = self.buffer@;
        let ghost h0 = self.history@;
        let ghost sel0 = self.selection;
        self.begin_edit();
        let offset = self.buffer.pos_to_char(self.selection.head());
        let word_end = self.buffer.word_end(offset);
        if word_end > offset {
            self.delete_recorded(offset, word_end, Ghost(t0), Ghost(h0), Ghost(sel0));
        }
        self.end_edit(Ghost(t0), Ghost(h0), Ghost(sel0));
    }

    // --- History ---

    /// Undoes the newest transaction: reverts its edits, newest first, and
    /// restores the selection from before it. Returns whether there was one.
    pub fn undo(&mut self) -> (applied: bool)
        requires
            old(self).wf(),
        ensures
            final(self).wf(),
            undone(*old(self), *final(self), applied),
    {
        let ghost t0 = self.buffer@;
        let ghost h0 = self.history@;
        if self.history.undo().is_none() {
            return false;
        }
        match self.history.next_redo() {
            None => false,
            Some(transaction) => {
                let ghost edits = transaction.edits@;
                proof {
                    assert(edits.take(edits.len() as int) =~= edits);
                }
                let n = transaction.edits.len();
                let mut i = n;
                while i > 0
                    invariant
                        i <= n == edits.len(),
                        edits == transaction.edits@,
                        self.history@ == h0.after_undo(),
                        self.selection == old(self).selection,
                        self.scroll_offset == old(self).scroll_offset,
                        self.dragging == old(self).dragging,
                        edits_revert(self.buffer@, edits.take(i as int)),
                        revert_edits(self.buffer@, edits.take(i as int)) == revert_edits(t0, edits),
                    decreases i,
                {
                    let e = &transaction.edits[i - 1];
                    let ghost cur = self.buffer@;
                    proof {
                        assert(edits.take(i as int).last() == *e);
                        assert(edits.take(i as int).drop_last() =~= edits.take(i - 1));
                    }
                    let len = self.buffer.len_chars();
                    let count = e.new_text.as_str().unicode_len();
                    self.buffer.replace(e.offset, e.offset + count, e.old_text.as_str());
                    proof {
                        assert(self.buffer@ =~= e.revert(cur));
                    }
                    i -= 1;
                }
                self.selection = transaction.selection_before;
                proof {
                    assert(edits.take(0) =~= Seq::<crate::buffer::EditOp>::empty());
                    law_revert_undoes_apply(t0, edits);
                    law_revert_undoes_apply(revert_edits(t0, edits), edits);
                    let hu = self.history@;
                    assert(hu.redo.drop_last() =~= h0.redo);
                    assert(hu.redo.last() == h0.undo.last());
                    assert(redo_consistent(self.buffer@, hu.redo));
                    assert(undo_consistent(self.buffer@, hu.undo));
                }
                true
            },
        }
    }

    /// Redoes the next undone transaction: applies its edits in order and
    /// restores the selection from after it. Returns whether there was one.
    pub fn redo(&mut self) -> (applied: bool)
        requires
            old(self).wf(),
        ensures
            final(self).wf(),
            redone(*old(self), *final(self), applied),
    {
        let ghost t0 = self.buffer@;
        let ghost h0 = self.history@;
        if self.history.redo().is_none() {
            return false;
        }
        match self.history.last_undo() {
            None => false,
            Some(transaction) => {
                let ghost edits = transaction.edits@;
                proof {
                    assert(edits.take(0) =~= Seq::<crate::buffer::EditOp>::empty());
                }
                let n = transaction.edits.len();
                let mut i: usize = 0;
                while i < n
                    invariant
                        i <= n == edits.len(),
                        edits == transaction.edits@,
                        self.history@ == h0.after_redo(),
                        self.selection == old(self).selection,
                        self.scroll_offset == old(self).scroll_offset,
                        self.dragging == old(self).dragging,
                        edits_apply(t0, edits),
                        self.buffer@ == apply_edits(t0, edits.take(i as int)),
                    decreases n - i,
                {
                    let e = &transaction.edits[i];
                    let ghost cur = self.buffer@;
                    proof {
                        lemma_edits_apply_prefix(t0, edits, i as int);
                        assert(edits.take(i + 1).last() == *e);
                        assert(edits.take(i + 1).drop_last() =~= edits.take(i as int));
                    }
                    let len = self.buffer.len_chars();
                    let count = e.old_text.as_str().unicode_len();
                    self.buffer.replace(e.offset, e.offset + count, e.new_text.as_str());
                    proof {
                        assert(self.buffer@ =~= e.apply(cur));
                    }
                    i += 1;
                }
                self.selection = transaction.selection_after;
                proof {
                    assert(edits.take(n as int) =~= edits);
                    law_revert_undoes_apply(t0, edits);
                    let hr = self.history@;
                    assert(hr.undo.drop_last() =~= h0.undo);
                    assert(hr.undo.last() == h0.redo.last());
                    assert(undo_consistent(self.buffer@, hr.undo));
                    assert(redo_consistent(self.buffer@, hr.redo));
                }
                true
            },
        }
    }

    // --- Movement ---

    /// Keeps the cursor line in view, with a margin above and below.
    fn ensure_cursor_visible(&mut self)
        ensures
            final(self).scroll_offset == scroll_for(
                old(self).scroll_offset as int,
                old(self).selection.head_spec().line as int,
            ),
            final(self).buffer@ == old(self).buffer@,
            final(self).selection == old(self).selection,
            final(self).history@ == old(self).history@,
            final(self).dragging == old(self).dragging,
    {
        let cursor_line = self.selection.head().line;
        if cursor_line < SCROLL_MARGIN || cursor_line - SCROLL_MARGIN < self.scroll_offset {
            self.scroll_offset = if cursor_line >= SCROLL_MARGIN {
                cursor_line - SCROLL_MARGIN
            } else {
                0
            };
        }
        let keep = VISIBLE_LINES - SCROLL_MARGIN;
        if cursor_line >= keep && cursor_line - keep >= self.scroll_offset {
            self.scroll_offset = if cursor_line >= VISIBLE_LINES - 3 {
                cursor_line - (VISIBLE_LINES - 3)
            } else {
                0
            };
        }
    }

    /// Moves the head to `pos` (extending the selection) or collapses to it,
    /// then scrolls it into view.
    fn move_cursor(&mut self, pos: Position, extend_selection: bool)
        ensures
            final(self).selection == moved_selection(old(self).selection, pos, extend_selection),
            final(self).scroll_offset == scroll_for(old(self).scroll_offset as int, pos.line as int),
            final(self).buffer@ == old(self).buffer@,
            final(self).history@ == old(self).history@,
            final(self).dragging == old(self).dragging,
    {
        if extend_selection {
            self.selection.set_head(pos);
        } else {
            self.selection.collapse_to(pos);
        }
        self.ensure_cursor_visible();
    }

    /// Left arrow: collapses a selection to its start, or moves one char left.
    pub fn move_left(&mut self, extend: bool)
        requires
            old(self).wf(),
        ensures
            final(self).wf(),
            moved_left(*old(self), *final(self), extend),
    {
        let head = self.selection.head();
        if !extend && !self.selection.is_empty() {
            self.selection.collapse_to(self.selection.start);
            return;
        }
        let offset = self.buffer.pos_to_char(head);
        if offset > 0 {
            let new_pos = self.buffer.char_to_pos(offset - 1);
            self.move_cursor(new_pos, extend);
        }
    }

    /// Right arrow: collapses a selection to its end, or moves one char right.
    pub fn move_right(&mut self, extend: bool)
        requires
            old(self).wf(),
        ensures
            final(self).wf(),
            moved_right(*old(self), *final(self), extend),
    {
        let head = self.selection.head();
        if !extend && !self.selection.is_empty() {
            self.selection.collapse_to(self.selection.end);
            return;
        }
        let offset = self.buffer.pos_to_char(head);
        if offset < self.buffer.len_chars() {
            let new_pos = self.buffer.char_to_pos(offset + 1);
            self.move_cursor(new_pos, extend);
        }
    }

    /// Up arrow: moves to the line above, keeping the goal column.
    pub fn move_up(&mut self, extend: bool)
        requires
            old(self).wf(),
        ensures
            final(self).wf(),
            moved_up(*old(self), *final(self), extend),
    {
        let head = self.selection.head();
        if head.line == 0 {
            return;
        }
        let goal_col = match self.selection.goal {
            SelectionGoal::Column(c) => c,
            SelectionGoal::Unset => head.column,
        };
        let prev_line_len = self.buffer.line_len(head.line - 1);
        let col = if goal_col < prev_line_len {
            goal_col
        } else {
            prev_line_len
        };
        let new_pos = Position::new(head.line - 1, col);
        self.selection.goal = SelectionGoal::Column(goal_col);
        self.move_cursor(new_pos, extend);
    }

    /// Down arrow: moves to the line below, keeping the goal column.
    pub fn move_down(&mut self, extend: bool)
        requires
            old(self).wf(),
        ensures
            final(self).wf(),
            moved_down(*old(self), *final(self), extend),
    {
        let head = self.selection.head();
        let line_count = self.buffer.line_count();
        if head.line >= line_count - 1 {
            return;
        }
        let goal_col = match self.selection.goal {
            SelectionGoal::Column(c) => c,
            SelectionGoal::Unset => head.column,
        };
        let next_line_len = self.buffer.line_len(head.line + 1);
        let col = if goal_col < next_line_len {
            goal_col
        } else {
            next_line_len
        };
        let new_pos = Position::new(head.line + 1, col);
        self.selection.goal = SelectionGoal::Column(goal_col);
        self.move_cursor(new_pos, extend);
    }

    /// Moves to the start of the word before the cursor.
    pub fn move_word_left(&mut self, extend: bool)
        requires
            old(self).wf(),
        ensures
            final(self).wf(),
            moved_word_left(*old(self), *final(self), extend),
    {
        let offset = self.buffer.pos_to_char(self.selection.head());
        let new_offset = self.buffer.word_start(offset);
        let new_pos = self.buffer.char_to_pos(new_offset);
        self.move_cursor(new_pos, extend);
    }

    /// Moves to the end of the word after the cursor.
    pub fn move_word_right(&mut self, extend: bool)
        requires
            old(self).wf(),
        ensures
            final(self).wf(),
            moved_word_right(*old(self), *final(self), extend),
    {
        let offset = self.buffer.pos_to_char(self.selection.head());
        let new_offset = self.buffer.word_end(offset);
        let new_pos = self.buffer.char_to_pos(new_offset);
        self.move_cursor(new_pos, extend);
    }

    /// Moves to column 0 of the cursor's line.
    pub fn move_to_line_start(&mut self, extend: bool)
        requires
            old(self).wf(),
        ensures
            final(self).wf(),
            moved_to_line_start(*old(self), *final(self), extend),
    {
        let head = self.selection.head();
        let new_pos = Position::new(head.line, 0);
        self.move_cursor(new_pos, extend);
    }

    /// Moves to the end of the cursor's line.
    pub fn move_to_line_end(&mut self, extend: bool)
        requires
            old(self).wf(),
        ensures
            final(self).wf(),
            moved_to_line_end(*old(self), *final(self), extend),
    {
        let head = self.selection.head();
        let line_len = self.buffer.line_len(head.line);
        let new_pos = Position::new(head.line, line_len);
        self.move_cursor(new_pos, extend);
    }

    /// Selects the whole text.
    pub fn select_all(&mut self)
        requires
            old(self).wf(),
        ensures
            final(self).wf(),
            selected_all(*old(self), *final(self)),
    {
        let last_line = self.buffer.line_count() - 1;
        let last_col = self.buffer.line_len(last_line);
        self.selection = Selection::range(Position::new(0, 0), Position::new(last_line, last_col));
    }

    // --- Clipboard ---

    /// The text that copying puts on the clipboard: the selected text, or the
    /// cursor's whole line with a trailing LF when nothing is selected.
    pub fn copy_text(&self) -> (r: String)
        requires
            off(self.text_view(), self.selection_view().start) <= off(
                self.text_view(),
                self.selection_view().end,
            ),
        ensures
            r@ == clipboard_text(self.text_view(), self.selection_view()),
    {
        if self.selection.is_empty() {
            let mut line = self.buffer.line(self.selection.head().line);
            line.append("\n");
            proof {
                reveal_strlit("\n");
            }
            line
        } else {
            let start = self.buffer.pos_to_char(self.selection.start);
            let end = self.buffer.pos_to_char(self.selection.end);
            self.buffer.slice(start, end)
        }
    }

    /// Copies (see `copy_text`), then deletes the selection if there is one.
    pub fn cut(&mut self) -> (r: String)
        requires
            old(self).wf(),
            off(old(self).text_view(), old(self).selection_view().start) <= off(
                old(self).text_view(),
                old(self).selection_view().end,
            ),
        ensures
            final(self).wf(),
            cut_done(*old(self), *final(self), r@),
    {
        let text = self.copy_text();
        if !self.selection.is_empty() {
            self.backspace();
        }
        text
    }

    // --- Mouse ---

    /// The position under the pointer, given the pointer's row relative to
    /// the first visible line and its column, clamped to the text.
    pub fn clamp_to_text(&self, row: usize, column: usize) -> (p: Position)
        ensures
            ({
                let s = self.text_view();
                let l = clamp(row + self.scroll_view(), line_count(s) - 1);
                &&& p.line == l
                &&& p.column == clamp(column as int, line_len_of(s, l) as int)
            }),
    {
        let last = self.buffer.line_count() - 1;
        let line = if row <= last && self.scroll_offset <= last - row {
            row + self.scroll_offset
        } else {
            last
        };
        let line_len = self.buffer.line_len(line);
        let col = if column < line_len {
            column
        } else {
            line_len
        };
        Position::new(line, col)
    }

    /// A press: a double click selects the word under `pos`; any other click
    /// puts the cursor at `pos` and starts a drag.
    pub fn mouse_down(&mut self, pos: Position, click_count: usize)
        requires
            old(self).wf(),
        ensures
            final(self).wf(),
            final(self).text_view() == old(self).text_view(),
            final(self).history_view() == old(self).history_view(),
            final(self).scroll_view() == old(self).scroll_view(),
            ({
                let s = old(self).text_view();
                let o = off(s, pos);
                if click_count == 2 {
                    &&& final(self).selection_view().start == pos_at(s, word_start_of(s, o))
                    &&& final(self).selection_view().end == pos_at(s, word_end_of(s, o))
                    &&& !final(self).selection_view().reversed
                    &&& final(self).selection_view().goal == SelectionGoal::Unset
                    &&& final(self).dragging_view() == old(self).dragging_view()
                } else {
                    &&& final(self).selection_view() == cursor_at(pos)
                    &&& final(self).dragging_view()
                }
            }),
    {
        if click_count == 2 {
            let offset = self.buffer.pos_to_char(pos);
            let word_start = self.buffer.word_start(offset);
            let word_end = self.buffer.word_end(offset);
            let start_pos = self.buffer.char_to_pos(word_start);
            let end_pos = self.buffer.char_to_pos(word_end);
            proof {
                lemma_pos_at_monotone(self.buffer@, word_start as int, word_end as int);
            }
            self.selection = Selection::range(start_pos, end_pos);
        } else {
            self.selection.collapse_to(pos);
            self.dragging = true;
        }
    }

    /// Pointer motion: while dragging with the left button held, extends the
    /// selection to `pos` and scrolls it into view.
    pub fn mouse_move(&mut self, pos: Position, left_button_pressed: bool)
        requires
            old(self).wf(),
        ensures
            final(self).wf(),
            final(self).text_view() == old(self).text_view(),
            final(self).history_view() == old(self).history_view(),
            final(self).dragging_view() == old(self).dragging_view(),
            old(self).dragging_view() && left_button_pressed ==> final(self).selection_view()
                == moved_selection(old(self).selection_view(), pos, true) && final(self).scroll_view() == scroll_for(old(self).scroll_view() as int, pos.line as int),
            !(old(self).dragging_view() && left_button_pressed) ==> final(self).selection_view()
                == old(self).selection_view() && final(self).scroll_view() == old(self).scroll_view(),
    {
        if self.dragging && left_button_pressed {
            self.selection.set_head(pos);
            self.ensure_cursor_visible();
        }
    }

    /// A release ends the drag.
    pub fn mouse_up(&mut self)
        requires
            old(self).wf(),
        ensures
            final(self).wf(),
            final(self).text_view() == old(self).text_view(),
            final(self).history_view() == old(self).history_view(),
            final(self).selection_view() == old(self).selection_view(),
            final(self).scroll_view() == old(self).scroll_view(),
            !final(self).dragging_view(),
    {
        self.dragging = false;
    }
}


/// Scrolling to the cursor line keeps that line in view, with margins:
/// the line is among the `VISIBLE_LINES` lines from the new first visible
/// line. A line above the top margin brings the view up so that exactly
/// `SCROLL_MARGIN` lines stay above it (or to the top of the text); a line
/// within the margins leaves the view where it was; a line below the bottom
/// margin brings the view down so that it is the third line from the
/// bottom.
pub proof fn law_scroll_keeps_cursor_in_view(scroll: int, line: int)
    requires
        0 <= scroll,
        0 <= line,
    ensures
        0 <= scroll_for(scroll, line) <= line < scroll_for(scroll, line) + VISIBLE_LINES,
        SCROLL_MARGIN <= line < scroll + SCROLL_MARGIN ==> scroll_for(scroll, line) == line
            - SCROLL_MARGIN,
        line < SCROLL_MARGIN ==> scroll_for(scroll, line) == 0,
        scroll + SCROLL_MARGIN <= line < scroll + VISIBLE_LINES - SCROLL_MARGIN ==> scroll_for(
            scroll,
            line,
        ) == scroll,
        line >= scroll + VISIBLE_LINES - SCROLL_MARGIN ==> scroll_for(scroll, line) == line - (
        VISIBLE_LINES - 3),
{
}

/// Copying with nothing selected takes the whole line the head is on, with
/// a trailing LF; with a selection, the selected text.
pub proof fn law_copy_takes_head_line_or_selection(s: Seq<char>, sel: Selection)
    ensures
        sel.start == sel.end && sel.head_spec().line < line_count(s) ==> clipboard_text(s, sel)
            == line_text(s, sel.head_spec().line as nat).push('\n'),
        sel.start == sel.end && sel.head_spec().line >= line_count(s) ==> clipboard_text(s, sel)
            == seq!['\n'],
        sel.start != sel.end ==> clipboard_text(s, sel) == s.subrange(
            offset_of(s, sel.start.line as int, sel.start.column as int),
            offset_of(s, sel.end.line as int, sel.end.column as int),
        ),
{
    if sel.start == sel.end && sel.head_spec().line >= line_count(s) {
        assert(Seq::<char>::empty().push('\n') =~= seq!['\n']);
    }
}

} // verus!
