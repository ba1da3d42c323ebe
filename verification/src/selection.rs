use vstd::prelude::*;

verus! {

/// A position in the document as line + column (both 0-based).
#[derive(Debug, Clone, Copy, PartialEq, Eq, Structural, PartialOrd, Ord)]
pub struct Position {
    pub line: usize,
    pub column: usize,
}

impl Position {
    pub fn new(line: usize, column: usize) -> (p: Self)
        ensures
            p.line == line,
            p.column == column,
    {
        Self { line, column }
    }

    /// Document order: by line, then by column.
    pub open spec fn le(self, other: Position) -> bool {
        self.line < other.line || (self.line == other.line && self.column <= other.column)
    }

    pub open spec fn lt(self, other: Position) -> bool {
        self.le(other) && self != other
    }
}

impl Default for Position {
    fn default() -> (p: Self)
        ensures
            p.line == 0,
            p.column == 0,
    {
        Position { line: 0, column: 0 }
    }
}

/// `a <= b` in document order.
fn pos_le(a: Position, b: Position) -> (r: bool)
    ensures
        r == a.le(b),
{
    a.line < b.line || (a.line == b.line && a.column <= b.column)
}

/// `a < b` in document order.
fn pos_lt(a: Position, b: Position) -> (r: bool)
    ensures
        r == a.lt(b),
{
    a.line < b.line || (a.line == b.line && a.column < b.column)
}

/// Tracks the desired column for vertical cursor movement.
/// When moving up/down, the cursor should try to stay at the original column
/// even if intermediate lines are shorter.
#[derive(Debug, Clone, Copy, PartialEq, Eq, Structural)]
pub enum SelectionGoal {
    Unset,
    Column(usize),
}

impl Default for SelectionGoal {
    fn default() -> (g: Self)
        ensures
            g == SelectionGoal::Unset,
    {
        SelectionGoal::Unset
    }
}

/// A selection range in the document.
///
/// `start` is always <= `end` in document order.
/// `reversed` indicates whether the cursor (head) is at `start` or `end`:
/// - `reversed = false`: head at `end`, tail at `start` (forward selection)
/// - `reversed = true`: head at `start`, tail at `end` (backward selection)
///
/// When `start == end`, this is a cursor with no selected text.
#[derive(Debug, Clone, Copy, PartialEq, Eq, Structural)]
pub struct Selection {
    pub start: Position,
    pub end: Position,
    pub reversed: bool,
    pub goal: SelectionGoal,
}

impl Default for Selection {
    fn default() -> (s: Self)
        ensures
            s.start == (Position { line: 0, column: 0 }),
            s.end == (Position { line: 0, column: 0 }),
            !s.reversed,
            s.goal == SelectionGoal::Unset,
    {
        Self {
            start: Position { line: 0, column: 0 },
            end: Position { line: 0, column: 0 },
            reversed: false,
            goal: SelectionGoal::Unset,
        }
    }
}

impl Selection {
    /// The ordering invariant that every constructor and method keeps: `start <= end`.
    pub open spec fn wf(self) -> bool {
        self.start.le(self.end)
    }

    /// The position where the cursor is displayed, in spec form.
    pub open spec fn head_spec(self) -> Position {
        if self.reversed { self.start } else { self.end }
    }

    /// The anchored end of the selection, in spec form.
    pub open spec fn tail_spec(self) -> Position {
        if self.reversed { self.end } else { self.start }
    }

    /// Create a cursor (empty selection) at the given position.
    pub fn cursor(pos: Position) -> (s: Self)
        ensures
            s.start == pos,
            s.end == pos,
            !s.reversed,
            s.goal == SelectionGoal::Unset,
            s.wf(),
    {
        Self { start: pos, end: pos, reversed: false, goal: SelectionGoal::Unset }
    }

    /// Create a selection from start to end.
    /// Normalizes so start <= end.
    pub fn range(from: Position, to: Position) -> (s: Self)
        ensures
            from.le(to) ==> s.start == from && s.end == to && !s.reversed,
            !from.le(to) ==> s.start == to && s.end == from && s.reversed,
            s.goal == SelectionGoal::Unset,
            s.wf(),
            s.head_spec() == to,
            s.tail_spec() == from,
    {
        if pos_le(from, to) {
            Self { start: from, end: to, reversed: false, goal: SelectionGoal::Unset }
        } else {
            Self { start: to, end: from, reversed: true, goal: SelectionGoal::Unset }
        }
    }

    /// The position where the cursor is displayed (the "moving" end).
    pub fn head(&self) -> (p: Position)
        ensures
            p == self.head_spec(),
    {
        if self.reversed {
            self.start
        } else {
            self.end
        }
    }

    /// The anchored end of the selection (where the selection started).
    pub fn tail(&self) -> (p: Position)
        ensures
            p == self.tail_spec(),
    {
        if self.reversed {
            self.end
        } else {
            self.start
        }
    }

    /// Whether this is a cursor (no selected text).
    pub fn is_empty(&self) -> (b: bool)
        ensures
            b == (self.start == self.end),
    {
        self.start.line == self.end.line && self.start.column == self.end.column
    }

    /// Collapse selection to a cursor at the given position.
    pub fn collapse_to(&mut self, pos: Position)
        ensures
            final(self).start == pos,
            final(self).end == pos,
            !final(self).reversed,
            final(self).goal == SelectionGoal::Unset,
            final(self).wf(),
    {
        self.start = pos;
        self.end = pos;
        self.reversed = false;
        self.goal = SelectionGoal::Unset;
    }

    /// Move the head of the selection to a new position.
    /// Updates start/end and reversed flag to maintain the invariant start <= end.
    pub fn set_head(&mut self, head: Position)
        ensures
            head.lt(old(self).tail_spec()) ==> final(self).start == head && final(self).end
                == old(self).tail_spec() && final(self).reversed,
            !head.lt(old(self).tail_spec()) ==> final(self).start == old(self).tail_spec()
                && final(self).end == head && !final(self).reversed,
            final(self).goal == old(self).goal,
            final(self).head_spec() == head,
            final(self).tail_spec() == old(self).tail_spec(),
            final(self).wf(),
    {
        let tail = self.tail();
        if pos_lt(head, tail) {
            self.start = head;
            self.end = tail;
            self.reversed = true;
        } else {
            self.start = tail;
            self.end = head;
            self.reversed = false;
        }
    }

    /// The selected text range as (start, end) positions.
    pub fn ordered_range(&self) -> (r: (Position, Position))
        ensures
            r.0 == self.start,
            r.1 == self.end,
            self.wf() ==> r.0.le(r.1),
    {
        (self.start, self.end)
    }
}

} // verus!
