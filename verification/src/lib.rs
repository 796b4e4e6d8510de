//! A to-do list: tasks with a title, a priority, tags and a completion flag,
//! kept under numeric ids, with the editing rules of the command line and of
//! the terminal interface.

pub mod error;
pub mod text;
pub mod model;
pub mod cli;
pub mod process;
pub mod tui;
pub mod laws;
