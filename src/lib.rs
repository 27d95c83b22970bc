//! Editing core of a terminal code editor: a line-oriented text buffer with
//! cursor navigation, selections, multi-line editing and a debounced
//! undo/redo engine.
pub mod buffer;
pub mod clipboard;
pub mod editing;
pub mod editor;
pub mod file_tree;
pub mod highlight;
pub mod indent;
pub mod navigation;
pub mod ranges;
pub mod selection;
pub mod text;
pub mod undo_redo;
