//! Registers.

use vstd::prelude::*;

verus! {

/// One of the sixteen registers, `r0` to `r15`.
#[derive(Debug, Clone, Copy, PartialEq, Eq, Structural)]
pub struct Register {
    index: u8,
}

impl View for Register {
    type V = int;

    /// The number of the register.
    closed spec fn view(&self) -> int {
        self.index as int
    }
}

impl Register {
    /// A register's number is below sixteen.
    #[verifier::type_invariant]
    pub open spec fn wf(self) -> bool {
        0 <= self@ < 16
    }

    /// Two registers with the same number are the same register.
    pub proof fn lemma_view_injective(self, other: Register)
        ensures
            self@ == other@ <==> self == other,
    {
    }

    /// The register with the given number, or `None` where there is no such
    /// register.
    pub fn new(index: u32) -> (register: Option<Register>)
        ensures
            index < 16 <==> register is Some,
            register matches Some(r) ==> r.wf() && r@ == index,
    {
        if index < 16 {
            Some(Register { index: index as u8 })
        } else {
            None
        }
    }

    /// The register `r0`.
    pub fn zero() -> (register: Register)
        ensures
            register.wf(),
            register@ == 0,
    {
        Register { index: 0 }
    }

    /// Returns the number of the register.
    pub fn register(&self) -> (index: u8)
        ensures
            index == self@,
            self.wf(),
    {
        proof {
            use_type_invariant(self);
        }
        self.index
    }
}

} // verus!
