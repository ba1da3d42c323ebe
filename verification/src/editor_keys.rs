//! How the SQL editor answers key presses: which command a key stands for,
//! and what running that command does to the editor and reports back.
use crate::chars::str_eq;
use crate::editor::{
    backspaced, clipboard_text, cut_done, deleted_forward, deleted_word_backward,
    deleted_word_forward, inserted, moved_down, moved_left, moved_right, moved_to_line_end,
    moved_to_line_start, moved_up, moved_word_left, moved_word_right, off, redone, selected_all,
    undone, SqlEditor,
};
use vstd::prelude::*;

verus! {

/// Events emitted by the SQL editor.
#[derive(Debug, Clone)]
pub enum SqlEditorEvent {
    /// Buffer content changed.
    Changed,
    /// The user asked to execute the query (Cmd+Enter); carries the text.
    Execute(String),
}

/// What a key press asks the editor to do.
#[derive(Debug, Clone)]
pub enum EditorCommand {
    MoveLeft { extend: bool },
    MoveRight { extend: bool },
    MoveUp { extend: bool },
    MoveDown { extend: bool },
    MoveWordLeft { extend: bool },
    MoveWordRight { extend: bool },
    MoveToLineStart { extend: bool },
    MoveToLineEnd { extend: bool },
    Backspace,
    DeleteWordBackward,
    DeleteForward,
    DeleteWordForward,
    /// Run the query in the editor.
    Execute,
    /// Type text at the cursor.
    InsertText(String),
    SelectAll,
    Copy,
    Cut,
    Paste,
    Undo,
    Redo,
    /// A key the editor does not handle.
    Ignore,
}

impl EditorCommand {
    /// The command for a key press, given the key's name, the text it
    /// types, and whether Cmd (`platform`), Alt, Shift and Ctrl were held.
    /// Cmd with an arrow goes to the line's end, Alt with an arrow or a
    /// deletion goes by words, and Shift extends the selection.
    pub fn from_keystroke(
        key: &str,
        key_char: Option<String>,
        platform: bool,
        alt: bool,
        shift: bool,
        control: bool,
    ) -> (c: EditorCommand)
        ensures
            ({
                if key@ == "left"@ {
                    c == (if platform {
                        EditorCommand::MoveToLineStart { extend: shift }
                    } else if alt {
                        EditorCommand::MoveWordLeft { extend: shift }
                    } else {
                        EditorCommand::MoveLeft { extend: shift }
                    })
                } else if key@ == "right"@ {
                    c == (if platform {
                        EditorCommand::MoveToLineEnd { extend: shift }
                    } else if alt {
                        EditorCommand::MoveWordRight { extend: shift }
                    } else {
                        EditorCommand::MoveRight { extend: shift }
                    })
                } else if key@ == "up"@ {
                    c == (EditorCommand::MoveUp { extend: shift })
                } else if key@ == "down"@ {
                    c == (EditorCommand::MoveDown { extend: shift })
                } else if key@ == "home"@ {
                    c == (EditorCommand::MoveToLineStart { extend: shift })
                } else if key@ == "end"@ {
                    c == (EditorCommand::MoveToLineEnd { extend: shift })
                } else if key@ == "backspace"@ {
                    c == (if alt {
                        EditorCommand::DeleteWordBackward
                    } else {
                        EditorCommand::Backspace
                    })
                } else if key@ == "delete"@ {
                    c == (if alt {
                        EditorCommand::DeleteWordForward
                    } else {
                        EditorCommand::DeleteForward
                    })
                } else if key@ == "enter"@ {
                    if platform {
                        c == EditorCommand::Execute
                    } else {
                        c matches EditorCommand::InsertText(t) && t@ == seq!['\n']
                    }
                } else if key@ == "tab"@ {
                    c matches EditorCommand::InsertText(t) && t@ == seq![' ', ' ', ' ', ' ']
                } else if platform && key@ == "a"@ {
                    c == EditorCommand::SelectAll
                } else if platform && key@ == "c"@ {
                    c == EditorCommand::Copy
                } else if platform && key@ == "x"@ {
                    c == EditorCommand::Cut
                } else if platform && key@ == "v"@ {
                    c == EditorCommand::Paste
                } else if platform && key@ == "z"@ {
                    c == (if shift {
                        EditorCommand::Redo
                    } else {
                        EditorCommand::Undo
                    })
                } else {
                    c == (match key_char {
                        Some(ch) => if !platform && !control {
                            EditorCommand::InsertText(ch)
                        } else {
                            EditorCommand::Ignore
                        },
                        None => EditorCommand::Ignore,
                    })
                }
            }),
    {
        proof {
            reveal_strlit("\n");
            reveal_strlit("    ");
        }
        if str_eq(key, "left") {
            if platform {
                EditorCommand::MoveToLineStart { extend: shift }
            } else if alt {
                EditorCommand::MoveWordLeft { extend: shift }
            } else {
                EditorCommand::MoveLeft { extend: shift }
            }
        } else if str_eq(key, "right") {
            if platform {
                EditorCommand::MoveToLineEnd { extend: shift }
            } else if alt {
                EditorCommand::MoveWordRight { extend: shift }
            } else {
                EditorCommand::MoveRight { extend: shift }
            }
        } else if str_eq(key, "up") {
            EditorCommand::MoveUp { extend: shift }
        } else if str_eq(key, "down") {
            EditorCommand::MoveDown { extend: shift }
        } else if str_eq(key, "home") {
            EditorCommand::MoveToLineStart { extend: shift }
        } else if str_eq(key, "end") {
            EditorCommand::MoveToLineEnd { extend: shift }
        } else if str_eq(key, "backspace") {
            if alt {
                EditorCommand::DeleteWordBackward
            } else {
                EditorCommand::Backspace
            }
        } else if str_eq(key, "delete") {
            if alt {
                EditorCommand::DeleteWordForward
            } else {
                EditorCommand::DeleteForward
            }
        } else if str_eq(key, "enter") {
            if platform {
                EditorCommand::Execute
            } else {
                EditorCommand::InsertText("\n".to_owned())
            }
        } else if str_eq(key, "tab") {
            EditorCommand::InsertText("    ".to_owned())
        } else if platform && str_eq(key, "a") {
            EditorCommand::SelectAll
        } else if platform && str_eq(key, "c") {
            EditorCommand::Copy
        } else if platform && str_eq(key, "x") {
            EditorCommand::Cut
        } else if platform && str_eq(key, "v") {
            EditorCommand::Paste
        } else if platform && str_eq(key, "z") {
            if shift {
                EditorCommand::Redo
            } else {
                EditorCommand::Undo
            }
        } else {
            match key_char {
                Some(ch) => if !platform && !control {
                    EditorCommand::InsertText(ch)
                } else {
                    EditorCommand::Ignore
                },
                None => EditorCommand::Ignore,
            }
        }
    }
}

/// What running a command reports back: an event for the editor's owner,
/// and text to put on the clipboard.
#[derive(Debug, Clone)]
pub struct KeyOutcome {
    pub event: Option<SqlEditorEvent>,
    pub clipboard: Option<String>,
}

/// Nothing to report.
pub open spec fn quiet(out: KeyOutcome) -> bool {
    out.event is None && out.clipboard is None
}

/// The text changed, and nothing goes to the clipboard.
pub open spec fn changed(out: KeyOutcome) -> bool {
    out.event == Some(SqlEditorEvent::Changed) && out.clipboard is None
}

fn nothing() -> (out: KeyOutcome)
    ensures
        quiet(out),
{
    KeyOutcome { event: None, clipboard: None }
}

fn text_changed() -> (out: KeyOutcome)
    ensures
        changed(out),
{
    KeyOutcome { event: Some(SqlEditorEvent::Changed), clipboard: None }
}

impl SqlEditor {
    /// Runs a command. `clipboard` is the clipboard's text, which `Paste`
    /// types. Edits report `Changed`, as do undo and redo when there was a
    /// transaction to take back or repeat; `Execute` reports the text; `Copy`
    /// and `Cut` hand back what goes on the clipboard.
    pub fn handle_command(&mut self, cmd: EditorCommand, clipboard: Option<String>) -> (out:
        KeyOutcome)
        requires
            old(self).wf(),
            cmd is Copy || cmd is Cut ==> off(
                old(self).text_view(),
                old(self).selection_view().start,
            ) <= off(old(self).text_view(), old(self).selection_view().end),
        ensures
            final(self).wf(),
            ({
                let e0 = *old(self);
                let e1 = *final(self);
                match cmd {
                    EditorCommand::MoveLeft { extend } => moved_left(e0, e1, extend) && quiet(out),
                    EditorCommand::MoveRight { extend } => moved_right(e0, e1, extend) && quiet(out),
                    EditorCommand::MoveUp { extend } => moved_up(e0, e1, extend) && quiet(out),
                    EditorCommand::MoveDown { extend } => moved_down(e0, e1, extend) && quiet(out),
                    EditorCommand::MoveWordLeft { extend } => moved_word_left(e0, e1, extend)
                        && quiet(out),
                    EditorCommand::MoveWordRight { extend } => moved_word_right(e0, e1, extend)
                        && quiet(out),
                    EditorCommand::MoveToLineStart { extend } => moved_to_line_start(
                        e0,
                        e1,
                        extend,
                    ) && quiet(out),
                    EditorCommand::MoveToLineEnd { extend } => moved_to_line_end(e0, e1, extend)
                        && quiet(out),
                    EditorCommand::Backspace => backspaced(e0, e1) && changed(out),
                    EditorCommand::DeleteWordBackward => deleted_word_backward(e0, e1) && changed(
                        out,
                    ),
                    EditorCommand::DeleteForward => deleted_forward(e0, e1) && changed(out),
                    EditorCommand::DeleteWordForward => deleted_word_forward(e0, e1) && changed(
                        out,
                    ),
                    EditorCommand::Execute => e1 == e0 && out.clipboard is None && (out.event matches Some(
                        SqlEditorEvent::Execute(t),
                    ) && t@ == e0.text_view()),
                    EditorCommand::InsertText(t) => inserted(e0, e1, t@) && changed(out),
                    EditorCommand::SelectAll => selected_all(e0, e1) && quiet(out),
                    EditorCommand::Copy => e1 == e0 && out.event is None && (out.clipboard matches Some(
                        c,
                    ) && c@ == clipboard_text(e0.text_view(), e0.selection_view())),
                    EditorCommand::Cut => (out.clipboard matches Some(c) && cut_done(e0, e1, c@))
                        && out.event == if e0.selection_view().start != e0.selection_view().end {
                        Some(SqlEditorEvent::Changed)
                    } else {
                        None
                    },
                    EditorCommand::Paste => match clipboard {
                        Some(t) => inserted(e0, e1, t@) && changed(out),
                        None => e1 == e0 && quiet(out),
                    },
                    EditorCommand::Undo => {
                        let applied = e0.history_view().undo.len() > 0;
                        &&& undone(e0, e1, applied)
                        &&& out.clipboard is None
                        &&& out.event == if applied {
                            Some(SqlEditorEvent::Changed)
                        } else {
                            None
                        }
                    },
                    EditorCommand::Redo => {
                        let applied = e0.history_view().redo.len() > 0;
                        &&& redone(e0, e1, applied)
                        &&& out.clipboard is None
                        &&& out.event == if applied {
                            Some(SqlEditorEvent::Changed)
                        } else {
                            None
                        }
                    },
                    EditorCommand::Ignore => e1 == e0 && quiet(out),
                }
            }),
    {
        match cmd {
            EditorCommand::MoveLeft { extend } => {
                self.move_left(extend);
                nothing()
            },
            EditorCommand::MoveRight { extend } => {
                self.move_right(extend);
                nothing()
            },
            EditorCommand::MoveUp { extend } => {
                self.move_up(extend);
                nothing()
            },
            EditorCommand::MoveDown { extend } => {
                self.move_down(extend);
                nothing()
            },
            EditorCommand::MoveWordLeft { extend } => {
                self.move_word_left(extend);
                nothing()
            },
            EditorCommand::MoveWordRight { extend } => {
                self.move_word_right(extend);
                nothing()
            },
            EditorCommand::MoveToLineStart { extend } => {
                self.move_to_line_start(extend);
                nothing()
            },
            EditorCommand::MoveToLineEnd { extend } => {
                self.move_to_line_end(extend);
                nothing()
            },
            EditorCommand::Backspace => {
                self.backspace();
                text_changed()
            },
            EditorCommand::DeleteWordBackward => {
                self.delete_word_backward();
                text_changed()
            },
            EditorCommand::DeleteForward => {
                self.delete_forward();
                text_changed()
            },
            EditorCommand::DeleteWordForward => {
                self.delete_word_forward();
                text_changed()
            },
            EditorCommand::Execute => KeyOutcome {
                event: Some(SqlEditorEvent::Execute(self.text())),
                clipboard: None,
            },
            EditorCommand::InsertText(t) => {
                self.insert_text(t.as_str());
                text_changed()
            },
            EditorCommand::SelectAll => {
                self.select_all();
                nothing()
            },
            EditorCommand::Copy => KeyOutcome { event: None, clipboard: Some(self.copy_text()) },
            EditorCommand::Cut => {
                let had_selection = !self.selection().is_empty();
                let text = self.cut();
                KeyOutcome {
                    event: if had_selection {
                        Some(SqlEditorEvent::Changed)
                    } else {
                        None
                    },
                    clipboard: Some(text),
                }
            },
            EditorCommand::Paste => match clipboard {
                Some(t) => {
                    self.insert_text(t.as_str());
                    text_changed()
                },
                None => nothing(),
            },
            EditorCommand::Undo => {
                let applied = self.undo();
                KeyOutcome {
                    event: if applied {
                        Some(SqlEditorEvent::Changed)
                    } else {
                        None
                    },
                    clipboard: None,
                }
            },
            EditorCommand::Redo => {
                let applied = self.redo();
                KeyOutcome {
                    event: if applied {
                        Some(SqlEditorEvent::Changed)
                    } else {
                        None
                    },
                    clipboard: None,
                }
            },
            EditorCommand::Ignore => nothing(),
        }
    }
}

} // verus!
