//! A terminal text editor's core: a character buffer with line/column
//! addressing, and the key-driven state machine that edits it.

pub mod text;
pub mod buffer;
pub mod editor;
