//! Where a jump, branch or call goes.

use vstd::prelude::*;
use vstd::string::StringExecFns;
use crate::address::Address;
use crate::assembler_error::AssemblerError;
use crate::labels::Labels;

verus! {

/// What is said of a label that was never defined.
pub open spec fn unknown_label(name: Seq<char>) -> Seq<char> {
    "Unknown label \""@ + name + "\""@
}

/// A [`Location`] as plain values.
pub enum LocationView {
    /// An address, written as a number.
    Address(int),
    /// A distance from the instruction that holds the location.
    Offset(int),
    /// The name of a label.
    Label(Seq<char>),
}

impl LocationView {
    /// An address lies in the program space. A distance and a name may be any.
    pub open spec fn wf(self) -> bool {
        match self {
            LocationView::Address(address) => 0 <= address < 1024,
            LocationView::Offset(_) => true,
            LocationView::Label(_) => true,
        }
    }

    /// The position that the location stands for, seen from the instruction at
    /// `address`, or what is said where it names a label that is not defined.
    ///
    /// A distance is counted from `address` and wraps around the program
    /// space. A label stands for the position it marks.
    pub open spec fn target(self, address: int, labels: Map<Seq<char>, usize>) -> Result<
        int,
        Seq<char>,
    > {
        match self {
            LocationView::Address(target) => Ok(target),
            LocationView::Offset(offset) => Ok((address + offset) % 1024),
            LocationView::Label(name) => if labels.contains_key(name) {
                Ok(labels[name] as int)
            } else {
                Err(unknown_label(name))
            },
        }
    }
}

/// Where a jump, branch or call goes.
#[derive(Debug, Clone, PartialEq, Eq)]
pub enum Location {
    /// An address, written as a number.
    Address(Address),
    /// A distance from the instruction that holds the location, written with a
    /// sign.
    Offset(i64),
    /// The name of a label.
    Label(String),
}

impl View for Location {
    type V = LocationView;

    open spec fn view(&self) -> LocationView {
        match self {
            Location::Address(address) => LocationView::Address(address@),
            Location::Offset(offset) => LocationView::Offset(*offset as int),
            Location::Label(name) => LocationView::Label(name@),
        }
    }
}

/// Resolves a distance from an address with `Location::get_address` of
/// `batpu_assembly`, called on the variant `Location::Offset` and an empty
/// label table. That function adds the distance to the address it is given
/// and reduces the sum into the ten-bit address range, so that a target
/// before the first address or behind the last wraps around.
#[verifier::external_body]
fn relative_target(address: u16, offset: i32) -> (target: u16)
    requires
        address < 1024,
    ensures
        target as int == (address as int + offset as int) % 1024,
{
    let here = batpu_assembly::components::address::Address(
        batpu_assembly::components::address::AddrRepr::new(address).unwrap(),
    );
    let labels = std::collections::HashMap::new();
    let relative = batpu_assembly::components::location::Location::Offset(offset);
    relative.get_address(here, &labels).unwrap().0.value()
}

/// Returns a distance below 1024 that leads to the same address as the given
/// one, from any address.
fn short_step(distance: i64) -> (step: i32)
    ensures
        -1024 <= step < 1024,
        step as int % 1024 == distance as int % 1024,
{
    if distance >= 0 {
        (distance % 1024) as i32
    } else {
        let back = -(distance + 1);
        let rest = (back % 1024) as i32;
        proof {
            let quotient = back as int / 1024;
            vstd::arithmetic::div_mod::lemma_fundamental_div_mod(back as int, 1024);
            assert(distance as int == 1024 * (-quotient) + (-1 - rest));
            vstd::arithmetic::div_mod::lemma_mod_multiples_vanish(-quotient, -1 - rest, 1024);
        }
        -1 - rest
    }
}

/// Two distances that differ by a multiple of 1024 lead to the same address,
/// from two addresses that differ by a multiple of 1024.
proof fn lemma_same_target(address: int, distance: int, here: int, step: int)
    requires
        here == address % 1024,
        step % 1024 == distance % 1024,
    ensures
        (here + step) % 1024 == (address + distance) % 1024,
{
    vstd::arithmetic::div_mod::lemma_add_mod_noop(address, distance, 1024);
    vstd::arithmetic::div_mod::lemma_add_mod_noop(here, step, 1024);
    vstd::arithmetic::div_mod::lemma_small_mod(here as nat, 1024);
}

impl Location {
    /// Returns the position that the location stands for, seen from the
    /// instruction at `address`. A label that is not defined is an error
    /// without a line.
    pub fn get_address(&self, address: usize, labels: &Labels) -> (r: Result<usize, AssemblerError>)
        ensures
            self@.wf(),
            match r {
                Ok(target) => self@.target(address as int, labels@) == Ok::<int, Seq<char>>(
                    target as int,
                ),
                Err(error) => self@.target(address as int, labels@) == Err::<int, Seq<char>>(
                    error@.description,
                ) && error@.line is None,
            },
    {
        match self {
            Location::Address(target) => Ok(target.address() as usize),
            Location::Offset(offset) => {
                let here = (address % 1024) as u16;
                let step = short_step(*offset);
                let target = relative_target(here, step);
                proof {
                    lemma_same_target(address as int, *offset as int, here as int, step as int);
                }
                Ok(target as usize)
            },
            Location::Label(name) => {
                match labels.get(name.as_str()) {
                    Some(position) => Ok(position),
                    None => {
                        let mut description = String::from_str("Unknown label \"");
                        description.append(name.as_str());
                        description.append("\"");
                        Err(AssemblerError::new(description))
                    },
                }
            },
        }
    }
}

} // verus!
