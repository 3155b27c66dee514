//! The sixteen instructions and their 16-bit encoding.
//!
//! The top four bits of a word hold the opcode. An instruction on registers
//! holds its registers in three fields of four bits. An instruction with an
//! immediate holds one register and the eight bits of the immediate. A jump,
//! branch or call holds a ten-bit address, and a branch its condition in the
//! two bits above it. A load or store holds two registers and a four-bit
//! offset in two's complement.

use vstd::prelude::*;
use crate::assembler_error::AssemblerError;
use crate::condition::Condition;
use crate::immediate::Immediate;
use crate::labels::Labels;
use crate::location::{Location, LocationView};
use crate::offset::Offset;
use crate::register::Register;

verus! {

/// An [`Instruction`] as plain values: a register by its number, an immediate
/// by its bits, an offset by its value.
pub enum InstructionView {
    NoOperation,
    Halt,
    Addition(int, int, int),
    Subtraction(int, int, int),
    BitwiseNOR(int, int, int),
    BitwiseAND(int, int, int),
    BitwiseXOR(int, int, int),
    RightShift(int, int),
    LoadImmediate(int, int),
    AddImmediate(int, int),
    Jump(LocationView),
    Branch(Condition, LocationView),
    Call(LocationView),
    Return,
    MemoryLoad(int, int, int),
    MemoryStore(int, int, int),
}

/// Whether the number names a register.
pub open spec fn is_register(r: int) -> bool {
    0 <= r < 16
}

/// The word of an instruction on three registers.
pub open spec fn register_word(opcode: int, a: int, b: int, c: int) -> int {
    opcode * 4096 + a * 256 + b * 16 + c
}

/// The word of an instruction on a register and eight more bits.
pub open spec fn immediate_word(opcode: int, a: int, bits: int) -> int {
    opcode * 4096 + a * 256 + bits
}

/// The word of an instruction that goes to a position: the position's low ten
/// bits under the condition's code.
pub open spec fn address_word(opcode: int, condition: int, target: int) -> int {
    opcode * 4096 + condition * 1024 + target % 1024
}

/// The word of a load or store: the offset's four bits in two's complement
/// under the two registers.
pub open spec fn memory_word(opcode: int, a: int, b: int, offset: int) -> int {
    opcode * 4096 + a * 256 + b * 16 + offset % 16
}

impl InstructionView {
    /// Every operand lies in its range.
    pub open spec fn wf(self) -> bool {
        match self {
            InstructionView::NoOperation | InstructionView::Halt | InstructionView::Return => true,
            InstructionView::Addition(a, b, c)
            | InstructionView::Subtraction(a, b, c)
            | InstructionView::BitwiseNOR(a, b, c)
            | InstructionView::BitwiseAND(a, b, c)
            | InstructionView::BitwiseXOR(a, b, c) => is_register(a) && is_register(b)
                && is_register(c),
            InstructionView::RightShift(a, c) => is_register(a) && is_register(c),
            InstructionView::LoadImmediate(a, bits) | InstructionView::AddImmediate(a, bits) =>
                is_register(a) && 0 <= bits < 256,
            InstructionView::Jump(location) | InstructionView::Call(location) => location.wf(),
            InstructionView::Branch(_, location) => location.wf(),
            InstructionView::MemoryLoad(a, b, offset)
            | InstructionView::MemoryStore(a, b, offset) => is_register(a) && is_register(b) && -8
                <= offset <= 7,
        }
    }

    /// The four-bit opcode.
    pub open spec fn opcode(self) -> int {
        match self {
            InstructionView::NoOperation => 0,
            InstructionView::Halt => 1,
            InstructionView::Addition(_, _, _) => 2,
            InstructionView::Subtraction(_, _, _) => 3,
            InstructionView::BitwiseNOR(_, _, _) => 4,
            InstructionView::BitwiseAND(_, _, _) => 5,
            InstructionView::BitwiseXOR(_, _, _) => 6,
            InstructionView::RightShift(_, _) => 7,
            InstructionView::LoadImmediate(_, _) => 8,
            InstructionView::AddImmediate(_, _) => 9,
            InstructionView::Jump(_) => 10,
            InstructionView::Branch(_, _) => 11,
            InstructionView::Call(_) => 12,
            InstructionView::Return => 13,
            InstructionView::MemoryLoad(_, _, _) => 14,
            InstructionView::MemoryStore(_, _, _) => 15,
        }
    }

    /// The word of the instruction when it stands at `address`, or what is
    /// said where it names a label that is not defined.
    pub open spec fn word(self, address: int, labels: Map<Seq<char>, usize>) -> Result<
        int,
        Seq<char>,
    > {
        match self {
            InstructionView::NoOperation | InstructionView::Halt | InstructionView::Return => Ok(
                register_word(self.opcode(), 0, 0, 0),
            ),
            InstructionView::Addition(a, b, c)
            | InstructionView::Subtraction(a, b, c)
            | InstructionView::BitwiseNOR(a, b, c)
            | InstructionView::BitwiseAND(a, b, c)
            | InstructionView::BitwiseXOR(a, b, c) => Ok(register_word(self.opcode(), a, b, c)),
            InstructionView::RightShift(a, c) => Ok(register_word(self.opcode(), a, 0, c)),
            InstructionView::LoadImmediate(a, bits) | InstructionView::AddImmediate(a, bits) => Ok(
                immediate_word(self.opcode(), a, bits),
            ),
            InstructionView::Jump(location) | InstructionView::Call(location) => {
                match location.target(address, labels) {
                    Ok(target) => Ok(address_word(self.opcode(), 0, target)),
                    Err(description) => Err(description),
                }
            },
            InstructionView::Branch(condition, location) => {
                match location.target(address, labels) {
                    Ok(target) => Ok(address_word(self.opcode(), condition.code(), target)),
                    Err(description) => Err(description),
                }
            },
            InstructionView::MemoryLoad(a, b, offset)
            | InstructionView::MemoryStore(a, b, offset) => Ok(
                memory_word(self.opcode(), a, b, offset),
            ),
        }
    }
}

/// One instruction of the machine, with its operands.
#[derive(Debug, Clone, PartialEq, Eq)]
pub enum Instruction {
    /// Does nothing.
    NoOperation,
    /// Stops the machine.
    Halt,
    /// C = A + B.
    Addition(Register, Register, Register),
    /// C = A - B.
    Subtraction(Register, Register, Register),
    /// C = !(A | B).
    BitwiseNOR(Register, Register, Register),
    /// C = A & B.
    BitwiseAND(Register, Register, Register),
    /// C = A ^ B.
    BitwiseXOR(Register, Register, Register),
    /// C = A >> 1.
    RightShift(Register, Register),
    /// A = immediate.
    LoadImmediate(Register, Immediate),
    /// A = A + immediate.
    AddImmediate(Register, Immediate),
    /// Goes to the location.
    Jump(Location),
    /// Goes to the location where the condition holds.
    Branch(Condition, Location),
    /// Goes to the location and remembers where it came from.
    Call(Location),
    /// Goes back to where the last call came from.
    Return,
    /// B = memory at A + offset.
    MemoryLoad(Register, Register, Offset),
    /// Memory at A + offset = B.
    MemoryStore(Register, Register, Offset),
}

impl View for Instruction {
    type V = InstructionView;

    open spec fn view(&self) -> InstructionView {
        match self {
            Instruction::NoOperation => InstructionView::NoOperation,
            Instruction::Halt => InstructionView::Halt,
            Instruction::Addition(a, b, c) => InstructionView::Addition(a@, b@, c@),
            Instruction::Subtraction(a, b, c) => InstructionView::Subtraction(a@, b@, c@),
            Instruction::BitwiseNOR(a, b, c) => InstructionView::BitwiseNOR(a@, b@, c@),
            Instruction::BitwiseAND(a, b, c) => InstructionView::BitwiseAND(a@, b@, c@),
            Instruction::BitwiseXOR(a, b, c) => InstructionView::BitwiseXOR(a@, b@, c@),
            Instruction::RightShift(a, c) => InstructionView::RightShift(a@, c@),
            Instruction::LoadImmediate(a, i) => InstructionView::LoadImmediate(a@, i@),
            Instruction::AddImmediate(a, i) => InstructionView::AddImmediate(a@, i@),
            Instruction::Jump(l) => InstructionView::Jump(l@),
            Instruction::Branch(c, l) => InstructionView::Branch(*c, l@),
            Instruction::Call(l) => InstructionView::Call(l@),
            Instruction::Return => InstructionView::Return,
            Instruction::MemoryLoad(a, b, o) => InstructionView::MemoryLoad(a@, b@, o@),
            Instruction::MemoryStore(a, b, o) => InstructionView::MemoryStore(a@, b@, o@),
        }
    }
}

/// Four fields of four bits, packed by shifting, make the sum of the fields
/// at their weights.
proof fn lemma_pack_registers(opcode: u16, a: u16, b: u16, c: u16)
    by (bit_vector)
    requires
        opcode < 16,
        a < 16,
        b < 16,
        c < 16,
    ensures
        (opcode << 12) | (a << 8) | (b << 4) | c == opcode * 4096 + a * 256 + b * 16 + c,
{
}

/// An opcode, a register and eight bits, packed by shifting, make the sum of
/// the fields at their weights.
proof fn lemma_pack_immediate(opcode: u16, a: u16, bits: u16)
    by (bit_vector)
    requires
        opcode < 16,
        a < 16,
        bits < 256,
    ensures
        (opcode << 12) | (a << 8) | bits == opcode * 4096 + a * 256 + bits,
{
}

/// An opcode, a condition and ten bits, packed by shifting, make the sum of
/// the fields at their weights.
proof fn lemma_pack_address(opcode: u16, condition: u16, target: u16)
    by (bit_vector)
    requires
        opcode < 16,
        condition < 4,
        target < 1024,
    ensures
        (opcode << 12) | (condition << 10) | target == opcode * 4096 + condition * 1024 + target,
{
}

/// Packs an opcode and three register numbers into a word.
fn pack_registers(opcode: u8, a: u8, b: u8, c: u8) -> (word: u16)
    requires
        opcode < 16,
        a < 16,
        b < 16,
        c < 16,
    ensures
        word == register_word(opcode as int, a as int, b as int, c as int),
{
    proof {
        lemma_pack_registers(opcode as u16, a as u16, b as u16, c as u16);
    }
    ((opcode as u16) << 12) | ((a as u16) << 8) | ((b as u16) << 4) | (c as u16)
}

/// Packs an opcode, a register number and eight bits into a word.
fn pack_immediate(opcode: u8, a: u8, bits: u8) -> (word: u16)
    requires
        opcode < 16,
        a < 16,
    ensures
        word == immediate_word(opcode as int, a as int, bits as int),
{
    proof {
        lemma_pack_immediate(opcode as u16, a as u16, bits as u16);
    }
    ((opcode as u16) << 12) | ((a as u16) << 8) | (bits as u16)
}

/// Packs an opcode, a condition code and the low ten bits of a position into
/// a word.
fn pack_address(opcode: u8, condition: u8, target: usize) -> (word: u16)
    requires
        opcode < 16,
        condition < 4,
    ensures
        word == address_word(opcode as int, condition as int, target as int),
{
    let low = (target % 1024) as u16;
    proof {
        lemma_pack_address(opcode as u16, condition as u16, low);
    }
    ((opcode as u16) << 12) | ((condition as u16) << 10) | low
}

/// Packs an opcode, two register numbers and an offset into a word.
fn pack_memory(opcode: u8, a: u8, b: u8, offset: i8) -> (word: u16)
    requires
        opcode < 16,
        a < 16,
        b < 16,
        -8 <= offset <= 7,
    ensures
        word == memory_word(opcode as int, a as int, b as int, offset as int),
{
    let nibble: u8 = if offset < 0 {
        (offset + 16) as u8
    } else {
        offset as u8
    };
    pack_registers(opcode, a, b, nibble)
}

impl Instruction {
    /// Returns the four-bit opcode of the instruction.
    pub fn index(&self) -> (opcode: u8)
        ensures
            opcode == self@.opcode(),
            opcode < 16,
    {
        match self {
            Instruction::NoOperation => 0,
            Instruction::Halt => 1,
            Instruction::Addition(_, _, _) => 2,
            Instruction::Subtraction(_, _, _) => 3,
            Instruction::BitwiseNOR(_, _, _) => 4,
            Instruction::BitwiseAND(_, _, _) => 5,
            Instruction::BitwiseXOR(_, _, _) => 6,
            Instruction::RightShift(_, _) => 7,
            Instruction::LoadImmediate(_, _) => 8,
            Instruction::AddImmediate(_, _) => 9,
            Instruction::Jump(_) => 10,
            Instruction::Branch(_, _) => 11,
            Instruction::Call(_) => 12,
            Instruction::Return => 13,
            Instruction::MemoryLoad(_, _, _) => 14,
            Instruction::MemoryStore(_, _, _) => 15,
        }
    }

    /// Returns the word of the instruction when it stands at `address`, with
    /// every label bound as the table says. An instruction that names a label
    /// that is not defined gives an error without a line, and no word.
    pub fn binary(&self, address: usize, labels: &Labels) -> (r: Result<u16, AssemblerError>)
        ensures
            self@.wf(),
            match r {
                Ok(word) => self@.word(address as int, labels@) == Ok::<int, Seq<char>>(
                    word as int,
                ),
                Err(error) => self@.word(address as int, labels@) == Err::<int, Seq<char>>(
                    error@.description,
                ) && error@.line is None,
            },
    {
        let opcode = self.index();
        match self {
            Instruction::NoOperation | Instruction::Halt | Instruction::Return => Ok(
                pack_registers(opcode, 0, 0, 0),
            ),
            Instruction::Addition(a, b, c)
            | Instruction::Subtraction(a, b, c)
            | Instruction::BitwiseNOR(a, b, c)
            | Instruction::BitwiseAND(a, b, c)
            | Instruction::BitwiseXOR(a, b, c) => Ok(
                pack_registers(opcode, a.register(), b.register(), c.register()),
            ),
            Instruction::RightShift(a, c) => Ok(
                pack_registers(opcode, a.register(), 0, c.register()),
            ),
            Instruction::LoadImmediate(a, immediate)
            | Instruction::AddImmediate(a, immediate) => Ok(
                pack_immediate(opcode, a.register(), immediate.immediate()),
            ),
            Instruction::Jump(location) | Instruction::Call(location) => {
                match location.get_address(address, labels) {
                    Ok(target) => Ok(pack_address(opcode, 0, target)),
                    Err(error) => Err(error),
                }
            },
            Instruction::Branch(condition, location) => {
                match location.get_address(address, labels) {
                    Ok(target) => Ok(pack_address(opcode, condition.index(), target)),
                    Err(error) => Err(error),
                }
            },
            Instruction::MemoryLoad(a, b, offset) | Instruction::MemoryStore(a, b, offset) => Ok(
                pack_memory(opcode, a.register(), b.register(), offset.offset()),
            ),
        }
    }
}

/// The word of an instruction holds its opcode in the top four bits: the word
/// fits in sixteen bits, and divided by 4096 it gives the opcode.
pub proof fn lemma_opcode_field(
    instruction: InstructionView,
    address: int,
    labels: Map<Seq<char>, usize>,
)
    requires
        instruction.wf(),
    ensures
        instruction.word(address, labels) matches Ok(word) ==> 0 <= word < 65536 && word / 4096
            == instruction.opcode(),
{
}

/// An instruction without operands is its opcode in the top four bits and
/// zero in all others.
pub proof fn lemma_word_without_operands(
    instruction: InstructionView,
    address: int,
    labels: Map<Seq<char>, usize>,
)
    requires
        instruction is NoOperation || instruction is Halt || instruction is Return,
    ensures
        instruction.word(address, labels) == Ok::<int, Seq<char>>(instruction.opcode() * 4096),
{
}

/// A label stands for the same position wherever the instruction that names
/// it stands: before the label or behind it, an instruction that goes to a
/// label has the same word.
pub proof fn lemma_label_resolves_the_same(
    instruction: InstructionView,
    name: Seq<char>,
    first: int,
    second: int,
    labels: Map<Seq<char>, usize>,
)
    requires
        instruction == InstructionView::Jump(LocationView::Label(name)) || instruction
            == InstructionView::Call(LocationView::Label(name)) || (exists|condition: Condition|
            instruction == InstructionView::Branch(condition, LocationView::Label(name))),
    ensures
        instruction.word(first, labels) == instruction.word(second, labels),
        labels.contains_key(name) ==> instruction.word(first, labels) is Ok,
        !labels.contains_key(name) ==> instruction.word(first, labels) == Err::<int, Seq<char>>(
            crate::location::unknown_label(name),
        ),
{
}

/// Only a distance depends on where the instruction stands: every other
/// instruction has the same word at every address.
pub proof fn lemma_word_depends_on_address_for_distances_alone(
    instruction: InstructionView,
    first: int,
    second: int,
    labels: Map<Seq<char>, usize>,
)
    requires
        !(instruction matches InstructionView::Jump(LocationView::Offset(_))),
        !(instruction matches InstructionView::Call(LocationView::Offset(_))),
        !(instruction matches InstructionView::Branch(_, LocationView::Offset(_))),
    ensures
        instruction.word(first, labels) == instruction.word(second, labels),
{
}

} // verus!
