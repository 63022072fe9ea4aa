//! The editing engine of a modal terminal text editor: the line buffer, the
//! cursor and its window, the search index, and the state machine that turns
//! keys into edits.

pub mod app;
pub mod basic;
pub mod buffer;
pub mod command;
pub mod config;
pub mod editor;
pub mod error;
pub mod handle_input;
pub mod modal;
pub mod search;
pub mod utils;
