//! Program addresses.

use vstd::prelude::*;

verus! {

/// The number of instructions the machine holds, and so the number of
/// addresses.
pub const PROGRAM_SPACE: usize = 1024;

/// The address of an instruction: a number below 1024.
#[derive(Debug, Clone, Copy, PartialEq, Eq, Structural)]
pub struct Address {
    value: u16,
}

impl View for Address {
    type V = int;

    /// The address as a number.
    closed spec fn view(&self) -> int {
        self.value as int
    }
}

impl Address {
    /// An address lies inside the program space.
    #[verifier::type_invariant]
    pub open spec fn wf(self) -> bool {
        0 <= self@ < 1024
    }

    /// Two addresses with the same number are the same address.
    pub proof fn lemma_view_injective(self, other: Address)
        ensures
            self@ == other@ <==> self == other,
    {
    }

    /// The address with the given number, or `None` where the number lies
    /// outside the program space.
    pub fn new(value: u32) -> (address: Option<Address>)
        ensures
            value < 1024 <==> address is Some,
            address matches Some(a) ==> a.wf() && a@ == value,
    {
        if value < 1024 {
            Some(Address { value: value as u16 })
        } else {
            None
        }
    }

    /// Returns the number of the address.
    pub fn address(&self) -> (value: u16)
        ensures
            value == self@,
            self.wf(),
    {
        proof {
            use_type_invariant(self);
        }
        self.value
    }
}

} // verus!
