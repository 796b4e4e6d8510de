//! The errors of the library.

use vstd::prelude::*;
use crate::text::{concat_text, decimal, decimal_text};

verus! {

/// Why an operation of the library was refused.
#[derive(Debug, PartialEq, Eq)]
pub enum TodoError {
    /// The text names no priority.
    InvalidPriority(String),
    /// The priority typed in the terminal interface could not be read.
    CannotParsePriority(String),
    /// A list of tasks has no task at this position.
    NoTodoAtPosition(usize),
    /// No task has this id.
    TodoNotFound(usize),
}

/// The text that describes an error.
pub open spec fn error_message(e: TodoError) -> Seq<char> {
    match e {
        TodoError::InvalidPriority(s) => "Invalid priority: "@ + s@,
        TodoError::CannotParsePriority(s) => "Cannot parse priority: "@ + s@,
        TodoError::NoTodoAtPosition(n) => "No todo found at position "@ + decimal(n as nat),
        TodoError::TodoNotFound(n) => ("Todo with id "@ + decimal(n as nat)) + " not found"@,
    }
}

impl TodoError {
    /// The text that describes this error.
    pub fn message(&self) -> (r: String)
        ensures
            r@ == error_message(*self),
    {
        match self {
            TodoError::InvalidPriority(s) => concat_text("Invalid priority: ", s.as_str()),
            TodoError::CannotParsePriority(s) => concat_text(
                "Cannot parse priority: ",
                s.as_str(),
            ),
            TodoError::NoTodoAtPosition(n) => {
                let d = decimal_text(*n);
                concat_text("No todo found at position ", d.as_str())
            },
            TodoError::TodoNotFound(n) => {
                let d = decimal_text(*n);
                let head = concat_text("Todo with id ", d.as_str());
                concat_text(head.as_str(), " not found")
            },
        }
    }
}

} // verus!
