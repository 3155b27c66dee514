//! The error for a command line that cannot be understood.

use vstd::prelude::*;

verus! {

/// What is wrong with a command line.
#[derive(Debug, Clone, PartialEq, Eq)]
pub struct ArgumentError {
    /// What went wrong.
    pub description: String,
}

impl ArgumentError {
    /// An error with the given description.
    pub fn new(description: String) -> (error: Self)
        ensures
            error.description@ == description@,
    {
        Self { description }
    }

    /// Returns the error as it is shown: its description.
    pub fn message(&self) -> (text: String)
        ensures
            text@ == self.description@,
    {
        self.description.clone()
    }
}

} // verus!
