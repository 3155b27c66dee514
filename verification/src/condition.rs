//! Branch conditions.

use vstd::prelude::*;

verus! {

/// The flag a branch tests.
#[derive(Debug, Clone, Copy, PartialEq, Eq, Structural)]
pub enum Condition {
    Zero,
    NotZero,
    Carry,
    NotCarry,
}

impl Condition {
    /// The two-bit code of the condition.
    pub open spec fn code(self) -> int {
        match self {
            Condition::Zero => 0,
            Condition::NotZero => 1,
            Condition::Carry => 2,
            Condition::NotCarry => 3,
        }
    }

    /// Returns the two-bit code of the condition.
    pub fn index(&self) -> (code: u8)
        ensures
            code == self.code(),
    {
        match self {
            Condition::Zero => 0,
            Condition::NotZero => 1,
            Condition::Carry => 2,
            Condition::NotCarry => 3,
        }
    }
}

} // verus!
