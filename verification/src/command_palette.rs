//! The command palette's state: the commands, the typed query, the
//! commands that match it and the highlighted one.
use crate::chars::{lowercase, str_chars, str_eq, str_to_lowercase, string_from_chars};
use vstd::prelude::*;

verus! {

/// A command entry in the palette.
#[derive(Debug, Clone, Copy)]
pub struct CommandItem {
    pub id: &'static str,
    pub label: &'static str,
    pub shortcut: &'static str,
}

/// Events emitted by the command palette.
#[derive(Debug, Clone)]
pub enum CommandPaletteEvent {
    /// A command was selected by the user.
    Selected(String),
    /// The palette was dismissed without selection.
    Dismissed,
}

/// One entry of the palette's list as it is shown: the command, its label,
/// its shortcut (only when it has one), and whether it is highlighted.
#[derive(Debug, Clone, Copy, PartialEq, Eq)]
pub struct PaletteRow {
    pub id: &'static str,
    pub label: &'static str,
    pub shortcut: Option<&'static str>,
    pub highlighted: bool,
}

/// The row that shows `item` at position `k` of the list whose highlight is
/// at `selected`.
pub open spec fn row_for(item: CommandItem, k: int, selected: int) -> PaletteRow {
    PaletteRow {
        id: item.id,
        label: item.label,
        shortcut: if item.shortcut@.len() == 0 {
            None
        } else {
            Some(item.shortcut)
        },
        highlighted: k == selected,
    }
}

/// A key press, as the palette distinguishes them.
#[derive(Debug, Clone)]
pub enum PaletteKey {
    Escape,
    Enter,
    Up,
    Down,
    Backspace,
    /// A key that may type text: its text, and whether Cmd or Ctrl was held.
    Other { key_char: Option<String>, platform: bool, control: bool },
}

impl PaletteKey {
    /// Classifies a key press by the key's name, the text it types and the
    /// modifiers held.
    pub fn from_keystroke(key: &str, key_char: Option<String>, platform: bool, control: bool) -> (k:
        PaletteKey)
        ensures
            k == if key@ == "escape"@ {
                PaletteKey::Escape
            } else if key@ == "enter"@ {
                PaletteKey::Enter
            } else if key@ == "up"@ {
                PaletteKey::Up
            } else if key@ == "down"@ {
                PaletteKey::Down
            } else if key@ == "backspace"@ {
                PaletteKey::Backspace
            } else {
                PaletteKey::Other { key_char, platform, control }
            },
    {
        if str_eq(key, "escape") {
            PaletteKey::Escape
        } else if str_eq(key, "enter") {
            PaletteKey::Enter
        } else if str_eq(key, "up") {
            PaletteKey::Up
        } else if str_eq(key, "down") {
            PaletteKey::Down
        } else if str_eq(key, "backspace") {
            PaletteKey::Backspace
        } else {
            PaletteKey::Other { key_char, platform, control }
        }
    }
}

/// `needle` occurs in `hay` starting at position `i`.
pub open spec fn occurs_at(hay: Seq<char>, needle: Seq<char>, i: int) -> bool {
    0 <= i <= hay.len() - needle.len() && hay.subrange(i, i + needle.len()) == needle
}

/// `needle` occurs in `hay`.
pub open spec fn contains_seq(hay: Seq<char>, needle: Seq<char>) -> bool {
    exists|i: int| #[trigger] occurs_at(hay, needle, i)
}

/// A command matches a (lowercased) query: the query is empty, or it occurs
/// in the command's lowercased label.
pub open spec fn command_matches(item: CommandItem, query_lower: Seq<char>) -> bool {
    query_lower.len() == 0 || contains_seq(lowercase(item.label@), query_lower)
}

/// The indices of the commands among the first `n` that match, in order.
pub open spec fn matching_indices(commands: Seq<CommandItem>, query_lower: Seq<char>, n: int) -> Seq<
    usize,
>
    decreases n,
{
    if n <= 0 {
        Seq::empty()
    } else {
        let rest = matching_indices(commands, query_lower, n - 1);
        if command_matches(commands[n - 1], query_lower) {
            rest.push((n - 1) as usize)
        } else {
            rest
        }
    }
}

/// The commands the palette offers, in order.
pub open spec fn default_commands() -> Seq<CommandItem> {
    seq![
        CommandItem { id: "execute_query", label: "Execute Query", shortcut: "Cmd+Enter" },
        CommandItem { id: "new_connection", label: "New Connection", shortcut: "Cmd+N" },
        CommandItem { id: "disconnect", label: "Disconnect", shortcut: "" },
        CommandItem { id: "toggle_sidebar", label: "Toggle Sidebar", shortcut: "Cmd+B" },
        CommandItem { id: "toggle_read_only", label: "Toggle Read-Only Mode", shortcut: "" },
        CommandItem { id: "cancel_query", label: "Cancel Query", shortcut: "" },
        CommandItem { id: "show_history", label: "Show Query History", shortcut: "" },
    ]
}

/// Whether `needle` occurs in `hay`.
pub fn contains_chars(hay: &Vec<char>, needle: &Vec<char>) -> (b: bool)
    ensures
        b == contains_seq(hay@, needle@),
{
    if needle.len() > hay.len() {
        return false;
    }
    if needle.len() == 0 {
        proof {
            assert(hay@.subrange(0, 0) =~= needle@);
            assert(occurs_at(hay@, needle@, 0));
        }
        return true;
    }
    let last = hay.len() - needle.len();
    let mut i: usize = 0;
    while i <= last
        invariant
            last == hay@.len() - needle@.len(),
            0 < needle@.len() <= hay@.len(),
            hay@.len() <= usize::MAX,
            i <= last + 1,
            forall|j: int| 0 <= j < i ==> !#[trigger] occurs_at(hay@, needle@, j),
        decreases last + 1 - i,
    {
        let mut k: usize = 0;
        let mut same = true;
        while k < needle.len()
            invariant
                i <= last,
                last == hay@.len() - needle@.len(),
                hay@.len() <= usize::MAX,
                k <= needle@.len(),
                same == (forall|m: int| 0 <= m < k ==> hay@[i + m] == needle@[m]),
            decreases needle@.len() - k,
        {
            if hay[i + k] != needle[k] {
                same = false;
            }
            k += 1;
        }
        if same {
            proof {
                assert(hay@.subrange(i as int, i + needle@.len()) =~= needle@);
                assert(occurs_at(hay@, needle@, i as int));
            }
            return true;
        }
        proof {
            let m = choose|m: int| 0 <= m < needle@.len() && hay@[i + m] != needle@[m];
            assert(hay@.subrange(i as int, i + needle@.len())[m] != needle@[m]);
        }
        i += 1;
    }
    proof {
        assert forall|j: int| !occurs_at(hay@, needle@, j) by {
            if 0 <= j < i {
            }
        }
    }
    false
}

/// A searchable command palette (Cmd+K).
pub struct CommandPalette {
    query: Vec<char>,
    commands: Vec<CommandItem>,
    filtered: Vec<usize>,
    selected_index: usize,
}

impl CommandPalette {
    pub closed spec fn query_view(&self) -> Seq<char> {
        self.query@
    }

    pub closed spec fn commands_view(&self) -> Seq<CommandItem> {
        self.commands@
    }

    pub closed spec fn filtered_view(&self) -> Seq<usize> {
        self.filtered@
    }

    pub closed spec fn selected_view(&self) -> usize {
        self.selected_index
    }

    /// The offered commands are the palette's commands, the filtered list
    /// holds the indices of those that match the query, and the highlight
    /// is on one of them when there are any.
    pub closed spec fn wf(&self) -> bool {
        &&& self.commands@ == default_commands()
        &&& (self.filtered@.len() == 0 || self.selected_index < self.filtered@.len())
        &&& self.filtered@ == matching_indices(
            self.commands@,
            lowercase(self.query@),
            self.commands@.len() as int,
        )
    }

    pub fn new() -> (p: Self)
        ensures
            p.wf(),
            p.query_view() == Seq::<char>::empty(),
            p.selected_view() == 0,
            p.commands_view() == default_commands(),
            p.filtered_view() == matching_indices(
                p.commands_view(),
                lowercase(p.query_view()),
                p.commands_view().len() as int,
            ),
    {
        let commands = vec![
            CommandItem { id: "execute_query", label: "Execute Query", shortcut: "Cmd+Enter" },
            CommandItem { id: "new_connection", label: "New Connection", shortcut: "Cmd+N" },
            CommandItem { id: "disconnect", label: "Disconnect", shortcut: "" },
            CommandItem { id: "toggle_sidebar", label: "Toggle Sidebar", shortcut: "Cmd+B" },
            CommandItem { id: "toggle_read_only", label: "Toggle Read-Only Mode", shortcut: "" },
            CommandItem { id: "cancel_query", label: "Cancel Query", shortcut: "" },
            CommandItem { id: "show_history", label: "Show Query History", shortcut: "" },
        ];
        let mut p = CommandPalette {
            query: Vec::new(),
            commands,
            filtered: Vec::new(),
            selected_index: 0,
        };
        proof {
            assert(p.commands@ =~= default_commands());
        }
        p.filter_commands();
        p
    }

    /// Recomputes the matching commands for the query and highlights the first.
    fn filter_commands(&mut self)
        requires
            old(self).commands@ == default_commands(),
        ensures
            final(self).wf(),
            final(self).query@ == old(self).query@,
            final(self).commands@ == old(self).commands@,
            final(self).selected_index == 0,
    {
        let query_lower = str_chars(
            str_to_lowercase(string_from_chars(self.query.as_slice()).as_str()).as_str(),
        );
        let mut filtered: Vec<usize> = Vec::new();
        let mut i: usize = 0;
        while i < self.commands.len()
            invariant
                i <= self.commands@.len(),
                query_lower@ == lowercase(self.query@),
                filtered@ == matching_indices(self.commands@, query_lower@, i as int),
            decreases self.commands@.len() - i,
        {
            let label_lower = str_chars(str_to_lowercase(self.commands[i].label).as_str());
            if query_lower.len() == 0 || contains_chars(&label_lower, &query_lower) {
                filtered.push(i);
            }
            i += 1;
        }
        self.filtered = filtered;
        self.selected_index = 0;
    }

    /// The typed query.
    pub fn query(&self) -> (s: String)
        ensures
            s@ == self.query_view(),
    {
        string_from_chars(self.query.as_slice())
    }

    /// The offered commands.
    pub fn commands(&self) -> (c: &[CommandItem])
        ensures
            c@ == self.commands_view(),
    {
        self.commands.as_slice()
    }

    /// The indices of the commands that match the query, in order.
    pub fn filtered(&self) -> (f: &[usize])
        ensures
            f@ == self.filtered_view(),
    {
        self.filtered.as_slice()
    }

    /// The position of the highlighted entry in the filtered list.
    pub fn selected_index(&self) -> (i: usize)
        ensures
            i == self.selected_view(),
    {
        self.selected_index
    }

    /// The search line: the query, or a prompt while it is empty.
    pub fn query_line(&self) -> (s: String)
        ensures
            s@ == if self.query_view().len() == 0 {
                "Type a command..."@
            } else {
                self.query_view()
            },
    {
        if self.query.len() == 0 {
            "Type a command...".to_owned()
        } else {
            string_from_chars(self.query.as_slice())
        }
    }

    /// The list as it is shown: one row per matching command, in order,
    /// with the highlighted one marked.
    pub fn rows(&self) -> (r: Vec<PaletteRow>)
        requires
            self.wf(),
        ensures
            r@.len() == self.filtered_view().len(),
            forall|k: int|
                0 <= k < r@.len() ==> #[trigger] r@[k] == row_for(
                    self.commands_view()[self.filtered_view()[k] as int],
                    k,
                    self.selected_view() as int,
                ),
    {
        proof {
            lemma_matching_indices(self.commands@, lowercase(self.query@), self.commands@.len() as int);
        }
        let mut out: Vec<PaletteRow> = Vec::new();
        let mut k: usize = 0;
        while k < self.filtered.len()
            invariant
                k <= self.filtered@.len(),
                out@.len() == k,
                self.wf(),
                forall|j: int| 0 <= j < self.filtered@.len() ==> #[trigger] self.filtered@[j] < self.commands@.len(),
                forall|j: int|
                    0 <= j < k ==> #[trigger] out@[j] == row_for(
                        self.commands@[self.filtered@[j] as int],
                        j,
                        self.selected_index as int,
                    ),
            decreases self.filtered@.len() - k,
        {
            let item = self.commands[self.filtered[k]];
            let shortcut = if item.shortcut.is_empty() {
                None
            } else {
                Some(item.shortcut)
            };
            out.push(
                PaletteRow {
                    id: item.id,
                    label: item.label,
                    shortcut,
                    highlighted: k == self.selected_index,
                },
            );
            k += 1;
        }
        out
    }

    /// A click outside the list dismisses the palette.
    pub fn click_backdrop(&self) -> (event: CommandPaletteEvent)
        ensures
            event is Dismissed,
    {
        CommandPaletteEvent::Dismissed
    }

    /// A click on the entry at `visual_idx` of the filtered list selects
    /// that command.
    pub fn click_entry(&self, visual_idx: usize) -> (event: Option<CommandPaletteEvent>)
        requires
            self.wf(),
        ensures
            visual_idx < self.filtered_view().len() ==> (event matches Some(
                CommandPaletteEvent::Selected(id),
            ) && id@ == self.commands_view()[self.filtered_view()[visual_idx as int] as int].id@),
            visual_idx >= self.filtered_view().len() ==> event is None,
    {
        if visual_idx < self.filtered.len() {
            let idx = self.filtered[visual_idx];
            proof {
                lemma_matching_indices(
                    self.commands@,
                    lowercase(self.query@),
                    self.commands@.len() as int,
                );
            }
            Some(CommandPaletteEvent::Selected(self.commands[idx].id.to_owned()))
        } else {
            None
        }
    }

    /// Handles a key press: Escape dismisses, Enter selects the highlighted
    /// command, Up/Down move the highlight, Backspace and typed text edit the
    /// query and refilter.
    pub fn handle_key(&mut self, key: PaletteKey) -> (event: Option<CommandPaletteEvent>)
        requires
            old(self).wf(),
        ensures
            final(self).wf(),
            final(self).commands_view() == old(self).commands_view(),
            final(self).filtered_view() == matching_indices(
                final(self).commands_view(),
                lowercase(final(self).query_view()),
                final(self).commands_view().len() as int,
            ),
            final(self).filtered_view().len() == 0 || final(self).selected_view()
                < final(self).filtered_view().len(),
            ({
                let q = old(self).query_view();
                let f = old(self).filtered_view();
                let sel = old(self).selected_view();
                let same = final(self).query_view() == q && final(self).selected_view() == sel;
                match key {
                    PaletteKey::Escape => same && event == Some(CommandPaletteEvent::Dismissed),
                    PaletteKey::Enter => same && if sel < f.len() {
                        event matches Some(CommandPaletteEvent::Selected(id)) && id@
                            == old(self).commands_view()[f[sel as int] as int].id@
                    } else {
                        event is None
                    },
                    PaletteKey::Up => event is None && final(self).query_view() == q && final(self).selected_view() == if sel > 0 {
                        (sel - 1) as usize
                    } else {
                        sel
                    },
                    PaletteKey::Down => event is None && final(self).query_view() == q && final(self).selected_view() == if sel + 1 < f.len() {
                        (sel + 1) as usize
                    } else {
                        sel
                    },
                    PaletteKey::Backspace => event is None && final(self).selected_view() == 0
                        && final(self).query_view() == if q.len() > 0 {
                        q.drop_last()
                    } else {
                        q
                    },
                    PaletteKey::Other { key_char, platform, control } => event is None && match key_char {
                        Some(ch) => if !platform && !control {
                            final(self).query_view() == q + ch@ && final(self).selected_view() == 0
                        } else {
                            same
                        },
                        None => same,
                    },
                }
            }),
    {
        match key {
            PaletteKey::Escape => Some(CommandPaletteEvent::Dismissed),
            PaletteKey::Enter => {
                if self.selected_index < self.filtered.len() {
                    let idx = self.filtered[self.selected_index];
                    proof {
                        lemma_matching_indices(
                            self.commands@,
                            lowercase(self.query@),
                            self.commands@.len() as int,
                        );
                    }
                    let id = self.commands[idx].id.to_owned();
                    Some(CommandPaletteEvent::Selected(id))
                } else {
                    None
                }
            },
            PaletteKey::Up => {
                if self.selected_index > 0 {
                    self.selected_index = self.selected_index - 1;
                }
                None
            },
            PaletteKey::Down => {
                if self.selected_index < self.filtered.len() && self.selected_index + 1
                    < self.filtered.len() {
                    self.selected_index = self.selected_index + 1;
                }
                None
            },
            PaletteKey::Backspace => {
                self.query.pop();
                proof {
                    if old(self).query@.len() > 0 {
                        assert(self.query@ =~= old(self).query@.drop_last());
                    }
                }
                self.filter_commands();
                None
            },
            PaletteKey::Other { key_char, platform, control } => {
                match key_char {
                    Some(ch) => {
                        if !platform && !control {
                            let typed = str_chars(ch.as_str());
                            let mut j: usize = 0;
                            let ghost q0 = self.query@;
                            while j < typed.len()
                                invariant
                                    j <= typed@.len(),
                                    self.query@ == q0 + typed@.take(j as int),
                                    self.commands@ == default_commands(),
                                decreases typed@.len() - j,
                            {
                                self.query.push(typed[j]);
                                proof {
                                    assert(self.query@ =~= q0 + typed@.take(j + 1));
                                }
                                j += 1;
                            }
                            proof {
                                assert(typed@.take(typed@.len() as int) =~= typed@);
                            }
                            self.filter_commands();
                        }
                        None
                    },
                    None => None,
                }
            },
        }
    }
}

/// What filtering keeps of the first `n` commands: the indices of exactly
/// those that match, each once, in increasing order.
proof fn lemma_matching_indices(commands: Seq<CommandItem>, q: Seq<char>, n: int)
    requires
        0 <= n <= commands.len(),
        n <= usize::MAX,
    ensures
        ({
            let f = matching_indices(commands, q, n);
            &&& f.len() <= n
            &&& forall|k: int|
                0 <= k < f.len() ==> #[trigger] f[k] < n && command_matches(commands[f[k] as int], q)
            &&& forall|i: int, j: int| 0 <= i < j < f.len() ==> f[i] < f[j]
            &&& forall|c: int|
                0 <= c < n && command_matches(#[trigger] commands[c], q) ==> f.contains(c as usize)
            &&& q.len() == 0 ==> f.len() == n && forall|k: int| 0 <= k < n ==> f[k] == k
        }),
    decreases n,
{
    if n > 0 {
        lemma_matching_indices(commands, q, n - 1);
        let rest = matching_indices(commands, q, n - 1);
        let f = matching_indices(commands, q, n);
        if command_matches(commands[n - 1], q) {
            assert(f == rest.push((n - 1) as usize));
            assert forall|k: int| 0 <= k < f.len() implies #[trigger] f[k] < n && command_matches(
                commands[f[k] as int],
                q,
            ) by {
                if k < rest.len() {
                    assert(f[k] == rest[k]);
                }
            }
            assert forall|c: int|
                0 <= c < n && command_matches(#[trigger] commands[c], q) implies f.contains(
                c as usize,
            ) by {
                if c < n - 1 {
                    assert(rest.contains(c as usize));
                    let k = choose|k: int| 0 <= k < rest.len() && rest[k] == c as usize;
                    assert(f[k] == c as usize);
                } else {
                    assert(f[rest.len() as int] == c as usize);
                }
            }
        } else {
            assert forall|c: int|
                0 <= c < n && command_matches(#[trigger] commands[c], q) implies f.contains(
                c as usize,
            ) by {
                assert(c < n - 1);
            }
        }
    }
}

/// Filtering keeps exactly the commands that match the query, each once and
/// in the order they are offered; an empty query keeps them all.
pub proof fn law_filter_keeps_exactly_matches(commands: Seq<CommandItem>, query_lower: Seq<char>)
    requires
        commands.len() <= usize::MAX,
    ensures
        ({
            let f = matching_indices(commands, query_lower, commands.len() as int);
            &&& forall|k: int|
                0 <= k < f.len() ==> #[trigger] f[k] < commands.len() && command_matches(
                    commands[f[k] as int],
                    query_lower,
                )
            &&& forall|i: int, j: int| 0 <= i < j < f.len() ==> f[i] < f[j]
            &&& forall|c: int|
                0 <= c < commands.len() && command_matches(#[trigger] commands[c], query_lower)
                    ==> f.contains(c as usize)
            &&& query_lower.len() == 0 ==> f.len() == commands.len() && forall|k: int|
                0 <= k < f.len() ==> f[k] == k
        }),
{
    lemma_matching_indices(commands, query_lower, commands.len() as int);
}


/// A command matches a lowercased query exactly when the query is empty
/// or it occurs somewhere in the whole lowercased label, the last chars of
/// the label included.
pub proof fn law_command_matches_anywhere_in_label(item: CommandItem, q: Seq<char>)
    ensures
        command_matches(item, q) <==> (q.len() == 0 || exists|i: int|
            0 <= i && i + q.len() <= lowercase(item.label@).len() && #[trigger] lowercase(
                item.label@,
            ).subrange(i, i + q.len()) == q),
{
    let l = lowercase(item.label@);
    if contains_seq(l, q) {
        let i = choose|i: int| #[trigger] occurs_at(l, q, i);
        assert(l.subrange(i, i + q.len()) == q);
    }
    if exists|i: int|
        0 <= i && i + q.len() <= l.len() && #[trigger] l.subrange(i, i + q.len()) == q {
        let i = choose|i: int|
            0 <= i && i + q.len() <= l.len() && #[trigger] l.subrange(i, i + q.len()) == q;
        assert(occurs_at(l, q, i));
    }
}

} // verus!
