//! Verified core of a PostgreSQL workbench: the SQL editor's text buffer,
//! selections, undo history, key handling and display lines, the schema
//! model and the schema browser's tree, the query session's state and
//! status line, and the logic of the text-input, command-palette, tree-view,
//! connection-form and write-confirmation widgets.
pub mod selection;
pub mod lines;
pub mod rope_api;
pub mod chars;
pub mod buffer;
pub mod history;
pub mod editor;
pub mod editor_keys;
pub mod display;
pub mod schema;
pub mod schema_tree;
pub mod text_input;
pub mod command_palette;
pub mod tree;
pub mod connection_form;
pub mod write_confirm;
pub mod session;
