//! Transaction-based undo/redo history.
use crate::buffer::{law_edit_revert_roundtrip, EditOp};
use crate::selection::{Position, Selection, SelectionGoal};
use vstd::prelude::*;

verus! {

/// A group of edits that should be undone/redone together.
#[derive(Debug, Clone)]
pub struct Transaction {
    pub edits: Vec<EditOp>,
    pub selection_before: Selection,
    pub selection_after: Selection,
}

/// The abstract value of a transaction.
pub struct TransactionView {
    pub edits: Seq<EditOp>,
    pub selection_before: Selection,
    pub selection_after: Selection,
}

impl View for Transaction {
    type V = TransactionView;

    open spec fn view(&self) -> TransactionView {
        TransactionView {
            edits: self.edits@,
            selection_before: self.selection_before,
            selection_after: self.selection_after,
        }
    }
}

/// The abstract state of an undo history.
pub struct HistoryState {
    /// Transactions that can be undone, oldest first.
    pub undo: Seq<TransactionView>,
    /// Transactions that can be redone, the next one to redo last.
    pub redo: Seq<TransactionView>,
    /// Edits of the transaction being recorded.
    pub pending: Seq<EditOp>,
    /// The selection from before the transaction being recorded, once begun.
    pub pending_before: Option<Selection>,
}

/// The selection a transaction falls back to when none was recorded before it.
pub open spec fn default_selection() -> Selection {
    Selection {
        start: Position { line: 0, column: 0 },
        end: Position { line: 0, column: 0 },
        reversed: false,
        goal: SelectionGoal::Unset,
    }
}

/// Whether an edit changes nothing.
pub open spec fn edit_is_empty(e: EditOp) -> bool {
    e.old_text@.len() == 0 && e.new_text@.len() == 0
}

impl HistoryState {
    pub open spec fn empty() -> HistoryState {
        HistoryState {
            undo: Seq::empty(),
            redo: Seq::empty(),
            pending: Seq::empty(),
            pending_before: None,
        }
    }

    /// Remembers the selection before the edits, unless a transaction is already open.
    pub open spec fn after_begin(self, selection: Selection) -> HistoryState {
        if self.pending_before is None {
            HistoryState { pending_before: Some(selection), ..self }
        } else {
            self
        }
    }

    /// Adds an edit to the open transaction; edits that change nothing are dropped.
    pub open spec fn after_record(self, edit: EditOp) -> HistoryState {
        if edit_is_empty(edit) {
            self
        } else {
            HistoryState { pending: self.pending.push(edit), ..self }
        }
    }

    /// The transaction that closing the open one with `selection` would push.
    pub open spec fn closing_transaction(self, selection: Selection) -> TransactionView {
        TransactionView {
            edits: self.pending,
            selection_before: match self.pending_before {
                Some(s) => s,
                None => default_selection(),
            },
            selection_after: selection,
        }
    }

    /// Closes the open transaction: when it holds edits it becomes the newest
    /// undoable transaction and the redo stack is cleared.
    pub open spec fn after_end(self, selection: Selection) -> HistoryState {
        if self.pending.len() > 0 {
            HistoryState {
                undo: self.undo.push(self.closing_transaction(selection)),
                redo: Seq::empty(),
                pending: Seq::empty(),
                pending_before: None,
            }
        } else {
            HistoryState { pending_before: None, ..self }
        }
    }

    /// Moves the newest undoable transaction to the redo stack.
    pub open spec fn after_undo(self) -> HistoryState {
        if self.undo.len() > 0 {
            HistoryState {
                undo: self.undo.drop_last(),
                redo: self.redo.push(self.undo.last()),
                ..self
            }
        } else {
            self
        }
    }

    /// Moves the next redoable transaction back to the undo stack.
    pub open spec fn after_redo(self) -> HistoryState {
        if self.redo.len() > 0 {
            HistoryState {
                undo: self.undo.push(self.redo.last()),
                redo: self.redo.drop_last(),
                ..self
            }
        } else {
            self
        }
    }
}

/// The edits of `edits`, in order, can be applied starting from `s`.
pub open spec fn edits_apply(s: Seq<char>, edits: Seq<EditOp>) -> bool
    decreases edits.len(),
{
    if edits.len() == 0 {
        true
    } else {
        edits_apply(s, edits.drop_last()) && edits.last().applies_to(
            apply_edits(s, edits.drop_last()),
        )
    }
}

/// `s` after the edits of `edits`, in order.
pub open spec fn apply_edits(s: Seq<char>, edits: Seq<EditOp>) -> Seq<char>
    decreases edits.len(),
{
    if edits.len() == 0 {
        s
    } else {
        edits.last().apply(apply_edits(s, edits.drop_last()))
    }
}

/// The edits of `edits`, last first, can be reverted starting from `t`.
pub open spec fn edits_revert(t: Seq<char>, edits: Seq<EditOp>) -> bool
    decreases edits.len(),
{
    if edits.len() == 0 {
        true
    } else {
        edits.last().reverts_on(t) && edits_revert(edits.last().revert(t), edits.drop_last())
    }
}

/// `t` with the edits of `edits` reverted, last first.
pub open spec fn revert_edits(t: Seq<char>, edits: Seq<EditOp>) -> Seq<char>
    decreases edits.len(),
{
    if edits.len() == 0 {
        t
    } else {
        revert_edits(edits.last().revert(t), edits.drop_last())
    }
}

/// Reverting a sequence of edits, last first, undoes applying them in order;
/// applying them again after reverting them redoes them.
pub proof fn law_revert_undoes_apply(s: Seq<char>, edits: Seq<EditOp>)
    ensures
        edits_apply(s, edits) ==> edits_revert(apply_edits(s, edits), edits) && revert_edits(
            apply_edits(s, edits),
            edits,
        ) == s,
        edits_revert(s, edits) ==> edits_apply(revert_edits(s, edits), edits) && apply_edits(
            revert_edits(s, edits),
            edits,
        ) == s,
    decreases edits.len(),
{
    if edits.len() > 0 {
        let e = edits.last();
        let rest = edits.drop_last();
        law_revert_undoes_apply(s, rest);
        law_edit_revert_roundtrip(e, apply_edits(s, rest));
        law_edit_revert_roundtrip(e, s);
        law_revert_undoes_apply(e.revert(s), rest);
    }
}

/// Redoing right after an undo gives back the history from before the
/// undo, and undoing right after a redo gives back the history from before
/// the redo.
pub proof fn law_redo_after_undo(h: HistoryState)
    ensures
        h.undo.len() > 0 ==> h.after_undo().after_redo() == h,
        h.redo.len() > 0 ==> h.after_redo().after_undo() == h,
{
    if h.undo.len() > 0 {
        assert(h.undo.drop_last().push(h.undo.last()) =~= h.undo);
        assert(h.redo.push(h.undo.last()).drop_last() =~= h.redo);
    }
    if h.redo.len() > 0 {
        assert(h.redo.drop_last().push(h.redo.last()) =~= h.redo);
        assert(h.undo.push(h.redo.last()).drop_last() =~= h.undo);
    }
}

/// Edits that change nothing are never recorded.
pub proof fn law_empty_edit_not_recorded(h: HistoryState, edit: EditOp)
    requires
        edit_is_empty(edit),
    ensures
        h.after_record(edit) == h,
{
}

/// Closing a transaction that recorded no edits leaves both stacks as they were.
pub proof fn law_empty_transaction_not_recorded(h: HistoryState, selection: Selection)
    requires
        h.pending.len() == 0,
    ensures
        h.after_end(selection).undo == h.undo,
        h.after_end(selection).redo == h.redo,
        h.after_end(selection).pending_before is None,
{
}

/// Closing a transaction that recorded edits pushes exactly one transaction,
/// holding those edits, and empties the redo stack.
pub proof fn law_new_transaction_clears_redo(h: HistoryState, selection: Selection)
    requires
        h.pending.len() > 0,
    ensures
        h.after_end(selection).undo.len() == h.undo.len() + 1,
        h.after_end(selection).undo.drop_last() == h.undo,
        h.after_end(selection).undo.last().edits == h.pending,
        h.after_end(selection).undo.last().selection_after == selection,
        h.after_end(selection).redo.len() == 0,
        h.after_end(selection).pending.len() == 0,
{
    assert(h.undo.push(h.closing_transaction(selection)).drop_last() =~= h.undo);
}

/// Beginning a transaction while one is open keeps the selection from the
/// first begin.
pub proof fn law_begin_keeps_first_selection(h: HistoryState, first: Selection, second: Selection)
    requires
        h.pending_before is None,
    ensures
        h.after_begin(first).after_begin(second).pending_before == Some(first),
        h.after_begin(first).after_begin(second) == h.after_begin(first),
{
}

/// A transaction of one edit, recorded between a begin and an end, is undone
/// as a whole: undo hands back that transaction with the selections from
/// its begin and its end, and leaves the undo stack as it was before.
pub proof fn law_single_edit_transaction(
    h: HistoryState,
    before: Selection,
    edit: EditOp,
    after: Selection,
)
    requires
        h.pending.len() == 0,
        h.pending_before is None,
        !edit_is_empty(edit),
    ensures
        ({
            let h2 = h.after_begin(before).after_record(edit).after_end(after);
            &&& h2.undo.last() == (TransactionView {
                edits: seq![edit],
                selection_before: before,
                selection_after: after,
            })
            &&& h2.redo.len() == 0
            &&& h2.after_undo().undo == h.undo
            &&& h2.after_undo().redo == seq![h2.undo.last()]
        }),
{
    let h2 = h.after_begin(before).after_record(edit).after_end(after);
    assert(h.pending.push(edit) =~= seq![edit]);
    assert(h2.undo.drop_last() =~= h.undo);
    assert(Seq::<TransactionView>::empty().push(h2.undo.last()) =~= seq![h2.undo.last()]);
}

/// The edits of `edits` that change something, in order.
pub open spec fn kept_edits(edits: Seq<EditOp>) -> Seq<EditOp>
    decreases edits.len(),
{
    if edits.len() == 0 {
        Seq::empty()
    } else {
        let rest = kept_edits(edits.drop_last());
        if edit_is_empty(edits.last()) {
            rest
        } else {
            rest.push(edits.last())
        }
    }
}

/// `h` after recording each edit of `edits` in turn.
pub open spec fn after_records(h: HistoryState, edits: Seq<EditOp>) -> HistoryState
    decreases edits.len(),
{
    if edits.len() == 0 {
        h
    } else {
        after_records(h, edits.drop_last()).after_record(edits.last())
    }
}

/// Recording edits appends those that change something to the open
/// transaction and leaves everything else as it was.
proof fn lemma_after_records(h: HistoryState, edits: Seq<EditOp>)
    ensures
        after_records(h, edits).pending == h.pending + kept_edits(edits),
        after_records(h, edits).undo == h.undo,
        after_records(h, edits).redo == h.redo,
        after_records(h, edits).pending_before == h.pending_before,
    decreases edits.len(),
{
    if edits.len() == 0 {
        assert(h.pending + Seq::<EditOp>::empty() =~= h.pending);
    } else {
        lemma_after_records(h, edits.drop_last());
        let k = kept_edits(edits.drop_last());
        assert(h.pending + k.push(edits.last()) =~= (h.pending + k).push(edits.last()));
    }
}

/// A transaction groups its edits: after a begin with selection `before`,
/// the edits `edits` recorded in order, and an end with selection `after`,
/// the history holds one new undoable transaction made of the edits that
/// change something, in call order, with those two selections, and nothing
/// to redo; when no edit changes anything, both stacks are as they were.
pub proof fn law_transaction_groups_recorded_edits(
    h: HistoryState,
    before: Selection,
    edits: Seq<EditOp>,
    after: Selection,
)
    requires
        h.pending.len() == 0,
        h.pending_before is None,
    ensures
        ({
            let h2 = after_records(h.after_begin(before), edits).after_end(after);
            if kept_edits(edits).len() > 0 {
                &&& h2.undo.drop_last() == h.undo
                &&& h2.undo.last() == (TransactionView {
                    edits: kept_edits(edits),
                    selection_before: before,
                    selection_after: after,
                })
                &&& h2.redo.len() == 0
                &&& h2.pending.len() == 0
            } else {
                &&& h2.undo == h.undo
                &&& h2.redo == h.redo
                &&& h2.pending.len() == 0
            }
        }),
{
    let hb = h.after_begin(before);
    lemma_after_records(hb, edits);
    let hr = after_records(hb, edits);
    assert(hr.pending =~= kept_edits(edits));
    assert(hr.undo.push(hr.closing_transaction(after)).drop_last() =~= h.undo);
}

/// The undo stack fits the text `t`: reverting its transactions, newest
/// first, is always possible.
pub open spec fn undo_consistent(t: Seq<char>, undo: Seq<TransactionView>) -> bool
    decreases undo.len(),
{
    if undo.len() == 0 {
        true
    } else {
        edits_revert(t, undo.last().edits) && undo_consistent(
            revert_edits(t, undo.last().edits),
            undo.drop_last(),
        )
    }
}

/// The redo stack fits the text `t`: applying its transactions, next one
/// first, is always possible.
pub open spec fn redo_consistent(t: Seq<char>, redo: Seq<TransactionView>) -> bool
    decreases redo.len(),
{
    if redo.len() == 0 {
        true
    } else {
        edits_apply(t, redo.last().edits) && redo_consistent(
            apply_edits(t, redo.last().edits),
            redo.drop_last(),
        )
    }
}

/// Transaction-based undo/redo history.
///
/// Edits are grouped into transactions. Each transaction represents
/// a logical unit of work (e.g., typing a word, deleting a selection).
pub struct UndoHistory {
    undo_stack: Vec<Transaction>,
    redo_stack: Vec<Transaction>,
    current_edits: Vec<EditOp>,
    current_selection_before: Option<Selection>,
}

impl View for UndoHistory {
    type V = HistoryState;

    closed spec fn view(&self) -> HistoryState {
        HistoryState {
            undo: self.undo_stack@.map_values(|t: Transaction| t@),
            redo: self.redo_stack@.map_values(|t: Transaction| t@),
            pending: self.current_edits@,
            pending_before: self.current_selection_before,
        }
    }
}

impl UndoHistory {
    pub fn new() -> (h: Self)
        ensures
            h@ == HistoryState::empty(),
    {
        let h = Self {
            undo_stack: Vec::new(),
            redo_stack: Vec::new(),
            current_edits: Vec::new(),
            current_selection_before: None,
        };
        proof {
            assert(h@.undo =~= Seq::<TransactionView>::empty());
            assert(h@.redo =~= Seq::<TransactionView>::empty());
        }
        h
    }

    /// Begin recording a new transaction. Call this before edits.
    pub fn begin_transaction(&mut self, selection: Selection)
        ensures
            final(self)@ == old(self)@.after_begin(selection),
    {
        if self.current_selection_before.is_none() {
            self.current_selection_before = Some(selection);
        }
    }

    /// Record an edit as part of the current transaction.
    pub fn record_edit(&mut self, edit: EditOp)
        ensures
            final(self)@ == old(self)@.after_record(edit),
    {
        if !edit.is_empty() {
            self.current_edits.push(edit);
        }
    }

    /// End the current transaction. Call this after edits.
    pub fn end_transaction(&mut self, selection: Selection)
        ensures
            final(self)@ == old(self)@.after_end(selection),
    {
        if self.current_edits.len() > 0 {
            let mut edits = Vec::new();
            std::mem::swap(&mut edits, &mut self.current_edits);
            let selection_before = match self.current_selection_before {
                Some(s) => s,
                None => Selection::default(),
            };
            let transaction = Transaction {
                edits,
                selection_before,
                selection_after: selection,
            };
            self.undo_stack.push(transaction);
            // A new edit invalidates the redo stack.
            self.redo_stack.clear();
            proof {
                assert(self@.undo =~= old(self)@.undo.push(old(self)@.closing_transaction(selection)));
                assert(self@.redo =~= Seq::<TransactionView>::empty());
                assert(self@.pending =~= Seq::<EditOp>::empty());
            }
        }
        self.current_selection_before = None;
    }

    /// Get the next transaction to undo. Returns None if nothing to undo.
    /// The caller must apply the inverse edits to the buffer.
    pub fn undo(&mut self) -> (t: Option<&Transaction>)
        ensures
            final(self)@ == old(self)@.after_undo(),
            old(self)@.undo.len() == 0 ==> t is None,
            old(self)@.undo.len() > 0 ==> (t matches Some(tr) && tr@ == old(self)@.undo.last()),
    {
        match self.undo_stack.pop() {
            None => None,
            Some(transaction) => {
                self.redo_stack.push(transaction);
                proof {
                    assert(self@.undo =~= old(self)@.undo.drop_last());
                    assert(self@.redo =~= old(self)@.redo.push(old(self)@.undo.last()));
                }
                let n = self.redo_stack.len();
                Some(&self.redo_stack[n - 1])
            },
        }
    }

    /// Get the next transaction to redo. Returns None if nothing to redo.
    /// The caller must apply the edits to the buffer.
    pub fn redo(&mut self) -> (t: Option<&Transaction>)
        ensures
            final(self)@ == old(self)@.after_redo(),
            old(self)@.redo.len() == 0 ==> t is None,
            old(self)@.redo.len() > 0 ==> (t matches Some(tr) && tr@ == old(self)@.redo.last()),
    {
        match self.redo_stack.pop() {
            None => None,
            Some(transaction) => {
                self.undo_stack.push(transaction);
                proof {
                    assert(self@.redo =~= old(self)@.redo.drop_last());
                    assert(self@.undo =~= old(self)@.undo.push(old(self)@.redo.last()));
                }
                let n = self.undo_stack.len();
                Some(&self.undo_stack[n - 1])
            },
        }
    }

    /// The transaction that `redo` would reapply next, if any.
    pub(crate) fn next_redo(&self) -> (t: Option<&Transaction>)
        ensures
            self@.redo.len() == 0 ==> t is None,
            self@.redo.len() > 0 ==> (t matches Some(tr) && tr@ == self@.redo.last()),
    {
        let n = self.redo_stack.len();
        if n == 0 {
            None
        } else {
            Some(&self.redo_stack[n - 1])
        }
    }

    /// The transaction that `undo` would revert next, if any.
    pub(crate) fn last_undo(&self) -> (t: Option<&Transaction>)
        ensures
            self@.undo.len() == 0 ==> t is None,
            self@.undo.len() > 0 ==> (t matches Some(tr) && tr@ == self@.undo.last()),
    {
        let n = self.undo_stack.len();
        if n == 0 {
            None
        } else {
            Some(&self.undo_stack[n - 1])
        }
    }

    pub fn can_undo(&self) -> (b: bool)
        ensures
            b == (self@.undo.len() > 0),
    {
        self.undo_stack.len() > 0
    }

    pub fn can_redo(&self) -> (b: bool)
        ensures
            b == (self@.redo.len() > 0),
    {
        self.redo_stack.len() > 0
    }

    /// Clear all history.
    pub fn clear(&mut self)
        ensures
            final(self)@ == HistoryState::empty(),
    {
        self.undo_stack.clear();
        self.redo_stack.clear();
        self.current_edits.clear();
        self.current_selection_before = None;
        proof {
            assert(self@.undo =~= Seq::<TransactionView>::empty());
            assert(self@.redo =~= Seq::<TransactionView>::empty());
            assert(self@.pending =~= Seq::<EditOp>::empty());
        }
    }
}

impl Default for UndoHistory {
    fn default() -> (h: Self)
        ensures
            h@ == HistoryState::empty(),
    {
        Self::new()
    }
}

} // verus!
