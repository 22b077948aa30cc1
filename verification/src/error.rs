//! What the program around the editor reports when it has to stop.

use vstd::prelude::*;

verus! {

/// The editor could not go on.
#[derive(Debug, Clone, Copy)]
pub struct ApplicationError;

impl ApplicationError {
    /// The error in words.
    pub fn message(&self) -> (text: &'static str)
        ensures
            text@ == "Error while running editor"@,
    {
        "Error while running editor"
    }
}

/// The terminal refused a command.
#[derive(Debug, Clone, Copy)]
pub struct TerminalError;

impl TerminalError {
    /// The error in words.
    pub fn message(&self) -> (text: &'static str)
        ensures
            text@ == "A command to terminal failed"@,
    {
        "A command to terminal failed"
    }
}

} // verus!
