//! Signed four-bit offsets.

use vstd::prelude::*;

verus! {

/// The smallest offset.
pub const OFFSET_MIN: i32 = -8;

/// The largest offset.
pub const OFFSET_MAX: i32 = 7;

/// A signed offset between -8 and 7.
#[derive(Debug, Clone, Copy, PartialEq, Eq, Structural)]
pub struct Offset {
    value: i8,
}

impl View for Offset {
    type V = int;

    /// The offset as a number between -8 and 7.
    closed spec fn view(&self) -> int {
        self.value as int
    }
}

impl Offset {
    /// An offset fits in four bits, two's complement.
    #[verifier::type_invariant]
    pub open spec fn wf(self) -> bool {
        -8 <= self@ <= 7
    }

    /// Two offsets with the same value are the same offset.
    pub proof fn lemma_view_injective(self, other: Offset)
        ensures
            self@ == other@ <==> self == other,
    {
    }

    /// The offset with the given value, or `None` for a value outside -8 to 7.
    pub fn new(value: i32) -> (offset: Option<Offset>)
        ensures
            -8 <= value <= 7 <==> offset is Some,
            offset matches Some(o) ==> o.wf() && o@ == value,
    {
        if value < OFFSET_MIN || value > OFFSET_MAX {
            None
        } else {
            Some(Offset { value: value as i8 })
        }
    }

    /// Returns the value of the offset.
    pub fn offset(&self) -> (value: i8)
        ensures
            value == self@,
            self.wf(),
    {
        proof {
            use_type_invariant(self);
        }
        self.value
    }
}

} // verus!
