//! Immediate operands.

use vstd::prelude::*;

verus! {

/// The smallest value an immediate may be written as.
pub const IMMEDIATE_MIN: i32 = -128;

/// The largest value an immediate may be written as.
pub const IMMEDIATE_MAX: i32 = 255;

/// The eight bits that stand for a value written between -128 and 255: the
/// value itself where it is not negative, and the value plus 256 where it is.
pub open spec fn immediate_bits(value: int) -> int {
    value % 256
}

/// An eight-bit immediate operand.
#[derive(Debug, Clone, Copy, PartialEq, Eq, Structural)]
pub struct Immediate {
    bits: u8,
}

impl View for Immediate {
    type V = int;

    /// The eight bits of the immediate, as a number between 0 and 255.
    closed spec fn view(&self) -> int {
        self.bits as int
    }
}

impl Immediate {
    /// An immediate is eight bits wide.
    pub open spec fn wf(self) -> bool {
        0 <= self@ < 256
    }

    /// Every immediate is eight bits wide.
    pub proof fn lemma_wf(self)
        ensures
            self.wf(),
    {
    }

    /// Two immediates with the same bits are the same immediate.
    pub proof fn lemma_view_injective(self, other: Immediate)
        ensures
            self@ == other@ <==> self == other,
    {
    }

    /// The immediate with the given bits.
    pub fn new(value: u8) -> (immediate: Immediate)
        ensures
            immediate.wf(),
            immediate@ == value,
    {
        Immediate { bits: value }
    }

    /// The immediate for a value between -128 and 255, or `None` for a value
    /// outside that range. A negative value is stored in two's complement.
    pub fn new_signed(value: i32) -> (immediate: Option<Immediate>)
        ensures
            -128 <= value <= 255 <==> immediate is Some,
            immediate matches Some(i) ==> i.wf() && i@ == immediate_bits(value as int),
    {
        if value < IMMEDIATE_MIN || value > IMMEDIATE_MAX {
            None
        } else if value < 0 {
            Some(Immediate { bits: (value + 256) as u8 })
        } else {
            Some(Immediate { bits: value as u8 })
        }
    }

    /// Returns the eight bits of the immediate.
    pub fn immediate(&self) -> (bits: u8)
        ensures
            bits == self@,
            self.wf(),
    {
        self.bits
    }
}

} // verus!
