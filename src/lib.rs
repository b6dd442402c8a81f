//! Core logic of a small desktop code editor: the terminal output buffer,
//! the plans and messages of the commands it launches, and the editor state.

pub mod sink;
pub mod text;
pub mod job;
pub mod app;
pub mod editor;
pub mod file_tree;
