//! The language server's logic: scan scheduling, open documents, quick
//! fixes, and the positions that diagnostics and navigation speak of.
pub mod code_actions;
pub mod diagnostics;
pub mod navigation;
pub mod state;
pub mod text_document;
