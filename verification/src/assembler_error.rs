//! The errors that assembling reports.

use std::cmp::Ordering;
use vstd::prelude::*;
use vstd::std_specs::cmp::PartialOrdSpecImpl;
use vstd::string::StringExecFns;
use crate::number::{decimal, push_decimal};

verus! {

/// What an [`AssemblerError`] says, as plain text.
pub struct AssemblerErrorView {
    /// What went wrong.
    pub description: Seq<char>,
    /// The source line, counted from one, where one is known.
    pub line: Option<u32>,
}

impl AssemblerErrorView {
    /// The error as it is shown: behind `[Line N]` where the line is known,
    /// else the description alone.
    pub open spec fn rendering(self) -> Seq<char> {
        match self.line {
            Some(line) => "[Line "@ + decimal(line as nat) + "] "@ + self.description,
            None => self.description,
        }
    }

    /// Where the error stands among others: by its line, and one without a
    /// line before all that have one.
    pub open spec fn rank(self) -> int {
        match self.line {
            Some(line) => line as int,
            None => -1,
        }
    }
}

/// One problem found while assembling.
#[derive(Debug, Clone, PartialEq, Eq)]
pub struct AssemblerError {
    /// What went wrong.
    pub description: String,
    /// The source line, counted from one, where one is known.
    pub line: Option<u32>,
}

impl View for AssemblerError {
    type V = AssemblerErrorView;

    open spec fn view(&self) -> AssemblerErrorView {
        AssemblerErrorView { description: self.description@, line: self.line }
    }
}

impl AssemblerError {
    /// An error that belongs to no line.
    pub fn new(description: String) -> (error: Self)
        ensures
            error@ == (AssemblerErrorView { description: description@, line: None }),
    {
        Self { description, line: None }
    }

    /// An error on the given line.
    pub fn new_line(description: String, line: u32) -> (error: Self)
        ensures
            error@ == (AssemblerErrorView { description: description@, line: Some(line) }),
    {
        Self { description, line: Some(line) }
    }

    /// Returns the error as it is shown: `[Line N] description` where the line
    /// is known, else the description alone.
    pub fn message(&self) -> (text: String)
        ensures
            text@ == self@.rendering(),
    {
        match self.line {
            Some(line) => {
                let mut text = String::from_str("[Line ");
                push_decimal(&mut text, line as u64);
                text.append("] ");
                text.append(self.description.as_str());
                text
            },
            None => self.description.clone(),
        }
    }
}

impl PartialOrd for AssemblerError {
    /// Errors are ordered by line alone.
    fn partial_cmp(&self, other: &Self) -> (order: Option<Ordering>) {
        match (self.line, other.line) {
            (None, None) => Some(Ordering::Equal),
            (None, Some(_)) => Some(Ordering::Less),
            (Some(_), None) => Some(Ordering::Greater),
            (Some(a), Some(b)) => if a < b {
                Some(Ordering::Less)
            } else if a > b {
                Some(Ordering::Greater)
            } else {
                Some(Ordering::Equal)
            },
        }
    }
}

impl PartialOrdSpecImpl for AssemblerError {
    open spec fn obeys_partial_cmp_spec() -> bool {
        true
    }

    open spec fn partial_cmp_spec(&self, other: &Self) -> Option<Ordering> {
        if self@.rank() < other@.rank() {
            Some(Ordering::Less)
        } else if self@.rank() > other@.rank() {
            Some(Ordering::Greater)
        } else {
            Some(Ordering::Equal)
        }
    }
}

} // verus!
