# pgblade

The verified core of a PostgreSQL workbench: the SQL editor's text buffer,
selections, undo history, key handling and display lines, the schema model
that introspection fills, and the logic of the text-input, command-palette,
tree-view, connection-form and write-confirmation widgets.

## Layout

- `src/` — the library, written in Verus. Every public function states its
  result in its contract; the laws that relate several functions stand as
  public proof functions named `law_*`.
  - `selection.rs` — positions and selections (head, tail, ordering).
  - `lines.rs` — the line structure of a text as the rope sees it
    (Unicode line breaks, CR LF as one break), with the offset/position
    round trips.
  - `rope_api.rs` — the rope methods the buffer calls, with their contracts.
  - `chars.rs` — character classes and small string helpers.
  - `buffer.rs` — the text buffer and the edit operations it reports.
  - `history.rs` — transaction-based undo/redo.
  - `editor.rs`, `editor_keys.rs` — the SQL editor and how it answers keys.
  - `display.rs` — visible lines with highlights made relative to each line.
  - `schema.rs` — schemas with their relations, functions and sequences;
    tables with their columns, constraints, foreign keys, indexes and
    triggers.
  - `schema_tree.rs` — the schema browser's tree built from them.
  - `session.rs` — the connection's state and write policy (read-only
    mode), the running query's state and result page, the events that
    report them, and the status line each event puts up.
  - `text_input.rs`, `command_palette.rs`, `tree.rs`, `connection_form.rs`,
    `write_confirm.rs` — widget logic.
- `tests/` — tests of the library on concrete values.
- `app/` — a command-line entry point: database introspection over
  `tokio-postgres`, serializable copies of the schema types, and the glue
  that turns pointer coordinates and key presses into library calls.
