//! Core engine of a line-oriented text editor: a windowed line buffer,
//! reversible edit events, snapshot-based undo/redo with a save marker,
//! search and replace, and the notifications that keep an external
//! incremental tokenizer in step with the buffer.

pub mod actions;
pub mod cli;
pub mod cursor;
pub mod document;
pub mod error;
pub mod event;
pub mod filetree;
pub mod highlight;
pub mod persist;
pub mod replace;
pub mod search;
mod text;
pub mod undo;
pub mod utils;
