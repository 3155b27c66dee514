//! From a mnemonic and its operands to an instruction.
//!
//! Each mnemonic takes a fixed list of operands. Sixteen mnemonics name the
//! sixteen instructions; seven more are shorthand for one of them with a
//! register or an immediate filled in.

use vstd::prelude::*;
use vstd::string::StringExecFns;
use crate::assembler_error::{AssemblerError, AssemblerErrorView};
use crate::condition::Condition;
use crate::immediate::Immediate;
use crate::instruction::{Instruction, InstructionView};
use crate::location::{Location, LocationView};
use crate::number::{decimal, numeral, push_decimal, spelling};
use crate::offset::Offset;
use crate::operand::{
    error_on,
    get_condition,
    get_immediate,
    get_location,
    get_offset,
    get_register,
    spec_get_condition,
    spec_get_immediate,
    spec_get_location,
    spec_get_offset,
    spec_get_register,
};
use crate::register::Register;
use crate::text::{chars_of, spells, texts};

verus! {

/// The operands that a mnemonic takes, in the order they are written.
#[derive(Debug, Clone, Copy, PartialEq, Eq, Structural)]
pub enum Shape {
    /// No operand.
    Nothing,
    /// Three registers.
    ThreeRegisters,
    /// A source register and a destination register.
    SourceAndDestination,
    /// Two source registers.
    TwoSources,
    /// One register.
    OneRegister,
    /// A register and an immediate.
    RegisterAndImmediate,
    /// A location.
    Target,
    /// A condition and a location.
    ConditionAndTarget,
    /// Two registers and an offset.
    RegistersAndOffset,
}

impl Shape {
    /// The names of the operands, as they are shown in an error.
    pub open spec fn names(self) -> Seq<Seq<char>> {
        match self {
            Shape::Nothing => seq![],
            Shape::ThreeRegisters => seq!["RegA"@, "RegB"@, "RegC"@],
            Shape::SourceAndDestination => seq!["RegA"@, "RegC"@],
            Shape::TwoSources => seq!["RegA"@, "RegB"@],
            Shape::OneRegister => seq!["RegA"@],
            Shape::RegisterAndImmediate => seq!["RegA"@, "Immediate"@],
            Shape::Target => seq!["Label/Address"@],
            Shape::ConditionAndTarget => seq!["Condition"@, "Label/Address"@],
            Shape::RegistersAndOffset => seq!["RegA"@, "RegB"@, "Offset"@],
        }
    }

    /// Returns the names of the operands, as they are shown in an error.
    pub fn operand_names(&self) -> (names: Vec<&'static str>)
        ensures
            names@.map_values(|name: &'static str| name@) == self.names(),
    {
        let mut names: Vec<&'static str> = Vec::new();
        match self {
            Shape::Nothing => {},
            Shape::ThreeRegisters => {
                names.push("RegA");
                names.push("RegB");
                names.push("RegC");
            },
            Shape::SourceAndDestination => {
                names.push("RegA");
                names.push("RegC");
            },
            Shape::TwoSources => {
                names.push("RegA");
                names.push("RegB");
            },
            Shape::OneRegister => {
                names.push("RegA");
            },
            Shape::RegisterAndImmediate => {
                names.push("RegA");
                names.push("Immediate");
            },
            Shape::Target => {
                names.push("Label/Address");
            },
            Shape::ConditionAndTarget => {
                names.push("Condition");
                names.push("Label/Address");
            },
            Shape::RegistersAndOffset => {
                names.push("RegA");
                names.push("RegB");
                names.push("Offset");
            },
        }
        proof {
            assert(names@.map_values(|name: &'static str| name@) =~= self.names());
        }
        names
    }
}

/// The items with the separator between each two of them.
pub open spec fn join(items: Seq<Seq<char>>, separator: Seq<char>) -> Seq<char>
    decreases items.len(),
{
    if items.len() == 0 {
        Seq::<char>::empty()
    } else if items.len() == 1 {
        items[0]
    } else {
        join(items.drop_last(), separator) + separator + items.last()
    }
}

/// The items as a list in English: commas between them, and `and` before the
/// last.
pub open spec fn spec_join_with_and(items: Seq<Seq<char>>) -> Seq<char> {
    if items.len() == 0 {
        Seq::<char>::empty()
    } else if items.len() == 1 {
        items[0]
    } else {
        join(items.drop_last(), ", "@) + " and "@ + items.last()
    }
}

/// What is said where a mnemonic got another number of operands than it
/// takes: the operands it takes, how many they are, and how many it got.
pub open spec fn wrong_count(names: Seq<Seq<char>>, actual: nat) -> Seq<char> {
    let expected = if names.len() == 0 {
        "no arguments"@
    } else {
        spec_join_with_and(names) + " ("@ + decimal(names.len()) + " argument"@ + (if names.len()
            == 1 {
            ""@
        } else {
            "s"@
        }) + ")"@
    };
    "Expected "@ + expected + ", got "@ + decimal(actual) + " instead"@
}

/// Returns the items as a list in English: commas between them, and `and`
/// before the last.
pub fn join_with_and(items: &Vec<&'static str>) -> (list: String)
    ensures
        list@ == spec_join_with_and(items@.map_values(|item: &'static str| item@)),
{
    let ghost views = items@.map_values(|item: &'static str| item@);
    let mut list = String::new();
    if items.len() == 0 {
        return list;
    }
    let last = items.len() - 1;
    let mut i: usize = 0;
    while i < last
        invariant
            last == items.len() - 1,
            i <= last,
            views == items@.map_values(|item: &'static str| item@),
            list@ == join(views.subrange(0, i as int), ", "@),
        decreases last - i,
    {
        proof {
            assert(views.subrange(0, i + 1).drop_last() =~= views.subrange(0, i as int));
        }
        if i > 0 {
            list.append(", ");
        }
        list.append(items[i]);
        proof {
            assert(list@ =~= join(views.subrange(0, i + 1), ", "@));
        }
        i += 1;
    }
    proof {
        assert(views.subrange(0, last as int) =~= views.drop_last());
    }
    if last > 0 {
        list.append(" and ");
    }
    list.append(items[last]);
    proof {
        assert(list@ =~= spec_join_with_and(views));
    }
    list
}

/// Checks that a mnemonic got as many operands as it takes.
pub fn check_arguments(actual: usize, expected: &Vec<&'static str>, line: u32) -> (r: Result<
    (),
    AssemblerError,
>)
    ensures
        actual == expected.len() <==> r is Ok,
        r matches Err(error) ==> error@ == error_on(
            wrong_count(expected@.map_values(|name: &'static str| name@), actual as nat),
            line,
        ),
{
    if actual == expected.len() {
        return Ok(());
    }
    let mut description = String::from_str("Expected ");
    if expected.len() == 0 {
        description.append("no arguments");
    } else {
        let list = join_with_and(expected);
        description.append(list.as_str());
        description.append(" (");
        push_decimal(&mut description, expected.len() as u64);
        description.append(" argument");
        if expected.len() == 1 {
            description.append("");
        } else {
            description.append("s");
        }
        description.append(")");
    }
    description.append(", got ");
    push_decimal(&mut description, actual as u64);
    description.append(" instead");
    proof {
        assert(description@ =~= wrong_count(
            expected@.map_values(|name: &'static str| name@),
            actual as nat,
        ));
    }
    Err(AssemblerError::new_line(description, line))
}

/// The name of an instruction as it is written in the source.
#[derive(Debug, Clone, Copy, PartialEq, Eq, Structural)]
pub enum Mnemonic {
    /// `nop`: no operation.
    Nop,
    /// `hlt`: halt.
    Hlt,
    /// `add a b c`: c = a + b.
    Add,
    /// `sub a b c`: c = a - b.
    Sub,
    /// `nor a b c`: c = !(a | b).
    Nor,
    /// `and a b c`: c = a & b.
    And,
    /// `xor a b c`: c = a ^ b.
    Xor,
    /// `rsh a c`: c = a >> 1.
    Rsh,
    /// `ldi a i`: a = i.
    Ldi,
    /// `adi a i`: a = a + i.
    Adi,
    /// `jmp l`: go to l.
    Jmp,
    /// `brh k l`: go to l where k holds.
    Brh,
    /// `cal l`: call l.
    Cal,
    /// `ret`: return.
    Ret,
    /// `lod a b o`: b = memory at a + o.
    Lod,
    /// `str a b o`: memory at a + o = b.
    Str,
    /// `cmp a b`: a - b for its flags alone, the result going to `r0`.
    Compare,
    /// `mov a c`: c = a, as a + `r0`.
    Mov,
    /// `lsh a c`: c = a << 1, as a + a.
    Lsh,
    /// `inc a`: a = a + 1.
    Inc,
    /// `dec a`: a = a - 1.
    Dec,
    /// `not a c`: c = !a, as !(a | `r0`).
    Not,
    /// `neg a c`: c = -a, as `r0` - a.
    Neg,
}

impl Mnemonic {
    /// The mnemonic that the token spells, if it spells one.
    pub open spec fn named(token: Seq<char>) -> Option<Mnemonic> {
        if token == "nop"@ {
            Some(Mnemonic::Nop)
        } else if token == "hlt"@ {
            Some(Mnemonic::Hlt)
        } else if token == "add"@ {
            Some(Mnemonic::Add)
        } else if token == "sub"@ {
            Some(Mnemonic::Sub)
        } else if token == "nor"@ {
            Some(Mnemonic::Nor)
        } else if token == "and"@ {
            Some(Mnemonic::And)
        } else if token == "xor"@ {
            Some(Mnemonic::Xor)
        } else if token == "rsh"@ {
            Some(Mnemonic::Rsh)
        } else if token == "ldi"@ {
            Some(Mnemonic::Ldi)
        } else if token == "adi"@ {
            Some(Mnemonic::Adi)
        } else if token == "jmp"@ {
            Some(Mnemonic::Jmp)
        } else if token == "brh"@ {
            Some(Mnemonic::Brh)
        } else if token == "cal"@ {
            Some(Mnemonic::Cal)
        } else if token == "ret"@ {
            Some(Mnemonic::Ret)
        } else if token == "lod"@ {
            Some(Mnemonic::Lod)
        } else if token == "str"@ {
            Some(Mnemonic::Str)
        } else if token == "cmp"@ {
            Some(Mnemonic::Compare)
        } else if token == "mov"@ {
            Some(Mnemonic::Mov)
        } else if token == "lsh"@ {
            Some(Mnemonic::Lsh)
        } else if token == "inc"@ {
            Some(Mnemonic::Inc)
        } else if token == "dec"@ {
            Some(Mnemonic::Dec)
        } else if token == "not"@ {
            Some(Mnemonic::Not)
        } else if token == "neg"@ {
            Some(Mnemonic::Neg)
        } else {
            None
        }
    }

    /// Returns the mnemonic that the token spells, if it spells one.
    pub fn from_name(token: &str) -> (mnemonic: Option<Mnemonic>)
        ensures
            mnemonic == Mnemonic::named(token@),
    {
        let text = chars_of(token);
        let chars = text.as_slice();
        if spells(chars, "nop") {
            Some(Mnemonic::Nop)
        } else if spells(chars, "hlt") {
            Some(Mnemonic::Hlt)
        } else if spells(chars, "add") {
            Some(Mnemonic::Add)
        } else if spells(chars, "sub") {
            Some(Mnemonic::Sub)
        } else if spells(chars, "nor") {
            Some(Mnemonic::Nor)
        } else if spells(chars, "and") {
            Some(Mnemonic::And)
        } else if spells(chars, "xor") {
            Some(Mnemonic::Xor)
        } else if spells(chars, "rsh") {
            Some(Mnemonic::Rsh)
        } else if spells(chars, "ldi") {
            Some(Mnemonic::Ldi)
        } else if spells(chars, "adi") {
            Some(Mnemonic::Adi)
        } else if spells(chars, "jmp") {
            Some(Mnemonic::Jmp)
        } else if spells(chars, "brh") {
            Some(Mnemonic::Brh)
        } else if spells(chars, "cal") {
            Some(Mnemonic::Cal)
        } else if spells(chars, "ret") {
            Some(Mnemonic::Ret)
        } else if spells(chars, "lod") {
            Some(Mnemonic::Lod)
        } else if spells(chars, "str") {
            Some(Mnemonic::Str)
        } else if spells(chars, "cmp") {
            Some(Mnemonic::Compare)
        } else if spells(chars, "mov") {
            Some(Mnemonic::Mov)
        } else if spells(chars, "lsh") {
            Some(Mnemonic::Lsh)
        } else if spells(chars, "inc") {
            Some(Mnemonic::Inc)
        } else if spells(chars, "dec") {
            Some(Mnemonic::Dec)
        } else if spells(chars, "not") {
            Some(Mnemonic::Not)
        } else if spells(chars, "neg") {
            Some(Mnemonic::Neg)
        } else {
            None
        }
    }

    /// The operands that the mnemonic takes.
    pub open spec fn shape(self) -> Shape {
        match self {
            Mnemonic::Nop | Mnemonic::Hlt | Mnemonic::Ret => Shape::Nothing,
            Mnemonic::Add
            | Mnemonic::Sub
            | Mnemonic::Nor
            | Mnemonic::And
            | Mnemonic::Xor => Shape::ThreeRegisters,
            Mnemonic::Rsh
            | Mnemonic::Mov
            | Mnemonic::Lsh
            | Mnemonic::Not
            | Mnemonic::Neg => Shape::SourceAndDestination,
            Mnemonic::Compare => Shape::TwoSources,
            Mnemonic::Inc | Mnemonic::Dec => Shape::OneRegister,
            Mnemonic::Ldi | Mnemonic::Adi => Shape::RegisterAndImmediate,
            Mnemonic::Jmp | Mnemonic::Cal => Shape::Target,
            Mnemonic::Brh => Shape::ConditionAndTarget,
            Mnemonic::Lod | Mnemonic::Str => Shape::RegistersAndOffset,
        }
    }

    /// Returns the operands that the mnemonic takes.
    pub fn operands(&self) -> (shape: Shape)
        ensures
            shape == self.shape(),
    {
        match self {
            Mnemonic::Nop | Mnemonic::Hlt | Mnemonic::Ret => Shape::Nothing,
            Mnemonic::Add
            | Mnemonic::Sub
            | Mnemonic::Nor
            | Mnemonic::And
            | Mnemonic::Xor => Shape::ThreeRegisters,
            Mnemonic::Rsh
            | Mnemonic::Mov
            | Mnemonic::Lsh
            | Mnemonic::Not
            | Mnemonic::Neg => Shape::SourceAndDestination,
            Mnemonic::Compare => Shape::TwoSources,
            Mnemonic::Inc | Mnemonic::Dec => Shape::OneRegister,
            Mnemonic::Ldi | Mnemonic::Adi => Shape::RegisterAndImmediate,
            Mnemonic::Jmp | Mnemonic::Cal => Shape::Target,
            Mnemonic::Brh => Shape::ConditionAndTarget,
            Mnemonic::Lod | Mnemonic::Str => Shape::RegistersAndOffset,
        }
    }
}

/// Reads two registers from the first two tokens, the first one first.
pub open spec fn spec_two_registers(tokens: Seq<Seq<char>>, line: u32) -> Result<
    (int, int),
    AssemblerErrorView,
> {
    match spec_get_register(tokens[0], line) {
        Err(error) => Err(error),
        Ok(first) => match spec_get_register(tokens[1], line) {
            Err(error) => Err(error),
            Ok(second) => Ok((first, second)),
        },
    }
}

/// Reads three registers from the first three tokens, from left to right.
pub open spec fn spec_three_registers(tokens: Seq<Seq<char>>, line: u32) -> Result<
    (int, int, int),
    AssemblerErrorView,
> {
    match spec_two_registers(tokens, line) {
        Err(error) => Err(error),
        Ok((first, second)) => match spec_get_register(tokens[2], line) {
            Err(error) => Err(error),
            Ok(third) => Ok((first, second, third)),
        },
    }
}

/// Reads a register and then an immediate.
pub open spec fn spec_register_and_immediate(tokens: Seq<Seq<char>>, line: u32) -> Result<
    (int, int),
    AssemblerErrorView,
> {
    match spec_get_register(tokens[0], line) {
        Err(error) => Err(error),
        Ok(register) => match spec_get_immediate(tokens[1], line) {
            Err(error) => Err(error),
            Ok(bits) => Ok((register, bits)),
        },
    }
}

/// Reads a condition and then a location.
pub open spec fn spec_condition_and_target(tokens: Seq<Seq<char>>, line: u32) -> Result<
    (Condition, LocationView),
    AssemblerErrorView,
> {
    match spec_get_condition(tokens[0], line) {
        Err(error) => Err(error),
        Ok(condition) => match spec_get_location(tokens[1], line) {
            Err(error) => Err(error),
            Ok(location) => Ok((condition, location)),
        },
    }
}

/// Reads two registers and then an offset.
pub open spec fn spec_registers_and_offset(tokens: Seq<Seq<char>>, line: u32) -> Result<
    (int, int, int),
    AssemblerErrorView,
> {
    match spec_two_registers(tokens, line) {
        Err(error) => Err(error),
        Ok((first, second)) => match spec_get_offset(tokens[2], line) {
            Err(error) => Err(error),
            Ok(offset) => Ok((first, second, offset)),
        },
    }
}

impl Mnemonic {
    /// The instruction that the mnemonic makes of its operands, which are as
    /// many as it takes. The operands are read from left to right, and the
    /// first that cannot be read gives the error.
    pub open spec fn build(self, tokens: Seq<Seq<char>>, line: u32) -> Result<
        InstructionView,
        AssemblerErrorView,
    > {
        match self {
            Mnemonic::Nop => Ok(InstructionView::NoOperation),
            Mnemonic::Hlt => Ok(InstructionView::Halt),
            Mnemonic::Ret => Ok(InstructionView::Return),
            Mnemonic::Add => match spec_three_registers(tokens, line) {
                Ok((a, b, c)) => Ok(InstructionView::Addition(a, b, c)),
                Err(error) => Err(error),
            },
            Mnemonic::Sub => match spec_three_registers(tokens, line) {
                Ok((a, b, c)) => Ok(InstructionView::Subtraction(a, b, c)),
                Err(error) => Err(error),
            },
            Mnemonic::Nor => match spec_three_registers(tokens, line) {
                Ok((a, b, c)) => Ok(InstructionView::BitwiseNOR(a, b, c)),
                Err(error) => Err(error),
            },
            Mnemonic::And => match spec_three_registers(tokens, line) {
                Ok((a, b, c)) => Ok(InstructionView::BitwiseAND(a, b, c)),
                Err(error) => Err(error),
            },
            Mnemonic::Xor => match spec_three_registers(tokens, line) {
                Ok((a, b, c)) => Ok(InstructionView::BitwiseXOR(a, b, c)),
                Err(error) => Err(error),
            },
            Mnemonic::Rsh => match spec_two_registers(tokens, line) {
                Ok((a, c)) => Ok(InstructionView::RightShift(a, c)),
                Err(error) => Err(error),
            },
            Mnemonic::Ldi => match spec_register_and_immediate(tokens, line) {
                Ok((a, bits)) => Ok(InstructionView::LoadImmediate(a, bits)),
                Err(error) => Err(error),
            },
            Mnemonic::Adi => match spec_register_and_immediate(tokens, line) {
                Ok((a, bits)) => Ok(InstructionView::AddImmediate(a, bits)),
                Err(error) => Err(error),
            },
            Mnemonic::Jmp => match spec_get_location(tokens[0], line) {
                Ok(location) => Ok(InstructionView::Jump(location)),
                Err(error) => Err(error),
            },
            Mnemonic::Brh => match spec_condition_and_target(tokens, line) {
                Ok((condition, location)) => Ok(InstructionView::Branch(condition, location)),
                Err(error) => Err(error),
            },
            Mnemonic::Cal => match spec_get_location(tokens[0], line) {
                Ok(location) => Ok(InstructionView::Call(location)),
                Err(error) => Err(error),
            },
            Mnemonic::Lod => match spec_registers_and_offset(tokens, line) {
                Ok((a, b, offset)) => Ok(InstructionView::MemoryLoad(a, b, offset)),
                Err(error) => Err(error),
            },
            Mnemonic::Str => match spec_registers_and_offset(tokens, line) {
                Ok((a, b, offset)) => Ok(InstructionView::MemoryStore(a, b, offset)),
                Err(error) => Err(error),
            },
            Mnemonic::Compare => match spec_two_registers(tokens, line) {
                Ok((a, b)) => Ok(InstructionView::Subtraction(a, b, 0)),
                Err(error) => Err(error),
            },
            Mnemonic::Mov => match spec_two_registers(tokens, line) {
                Ok((a, c)) => Ok(InstructionView::Addition(a, 0, c)),
                Err(error) => Err(error),
            },
            Mnemonic::Lsh => match spec_two_registers(tokens, line) {
                Ok((a, c)) => Ok(InstructionView::Addition(a, a, c)),
                Err(error) => Err(error),
            },
            Mnemonic::Inc => match spec_get_register(tokens[0], line) {
                Ok(a) => Ok(InstructionView::AddImmediate(a, 1)),
                Err(error) => Err(error),
            },
            Mnemonic::Dec => match spec_get_register(tokens[0], line) {
                Ok(a) => Ok(InstructionView::AddImmediate(a, 255)),
                Err(error) => Err(error),
            },
            Mnemonic::Not => match spec_two_registers(tokens, line) {
                Ok((a, c)) => Ok(InstructionView::BitwiseNOR(a, 0, c)),
                Err(error) => Err(error),
            },
            Mnemonic::Neg => match spec_two_registers(tokens, line) {
                Ok((a, c)) => Ok(InstructionView::Subtraction(0, a, c)),
                Err(error) => Err(error),
            },
        }
    }
}

/// What is said of a statement whose first token is no mnemonic.
pub open spec fn unknown_opcode(name: Seq<char>) -> Seq<char> {
    "Unknown opcode: "@ + name
}

/// The instruction that a mnemonic and its operands stand for.
///
/// The name must be a mnemonic, the operands as many as it takes, and each
/// operand must read as what the mnemonic takes at its place.
pub open spec fn spec_decode(name: Seq<char>, operands: Seq<Seq<char>>, line: u32) -> Result<
    InstructionView,
    AssemblerErrorView,
> {
    match Mnemonic::named(name) {
        None => Err(error_on(unknown_opcode(name), line)),
        Some(mnemonic) => {
            let names = mnemonic.shape().names();
            if operands.len() != names.len() {
                Err(error_on(wrong_count(names, operands.len()), line))
            } else {
                mnemonic.build(operands, line)
            }
        },
    }
}

/// Reads two registers from the first two tokens, the first one first.
fn two_registers(tokens: &Vec<String>, line: u32) -> (r: Result<
    (Register, Register),
    AssemblerError,
>)
    requires
        tokens.len() >= 2,
    ensures
        match r {
            Ok((first, second)) => first.wf() && second.wf() && spec_two_registers(
                texts(tokens@),
                line,
            ) == Ok::<(int, int), AssemblerErrorView>((first@, second@)),
            Err(error) => spec_two_registers(texts(tokens@), line) == Err::<
                (int, int),
                AssemblerErrorView,
            >(error@),
        },
{
    let first = match get_register(tokens[0].as_str(), line) {
        Ok(register) => register,
        Err(error) => { return Err(error); },
    };
    let second = match get_register(tokens[1].as_str(), line) {
        Ok(register) => register,
        Err(error) => { return Err(error); },
    };
    Ok((first, second))
}

/// Reads three registers from the first three tokens, from left to right.
fn three_registers(tokens: &Vec<String>, line: u32) -> (r: Result<
    (Register, Register, Register),
    AssemblerError,
>)
    requires
        tokens.len() >= 3,
    ensures
        match r {
            Ok((first, second, third)) => first.wf() && second.wf() && third.wf()
                && spec_three_registers(texts(tokens@), line) == Ok::<
                (int, int, int),
                AssemblerErrorView,
            >((first@, second@, third@)),
            Err(error) => spec_three_registers(texts(tokens@), line) == Err::<
                (int, int, int),
                AssemblerErrorView,
            >(error@),
        },
{
    let (first, second) = match two_registers(tokens, line) {
        Ok(registers) => registers,
        Err(error) => { return Err(error); },
    };
    let third = match get_register(tokens[2].as_str(), line) {
        Ok(register) => register,
        Err(error) => { return Err(error); },
    };
    Ok((first, second, third))
}

/// Reads a register and then an immediate.
fn register_and_immediate(tokens: &Vec<String>, line: u32) -> (r: Result<
    (Register, Immediate),
    AssemblerError,
>)
    requires
        tokens.len() >= 2,
    ensures
        match r {
            Ok((register, immediate)) => register.wf() && immediate.wf()
                && spec_register_and_immediate(texts(tokens@), line) == Ok::<
                (int, int),
                AssemblerErrorView,
            >((register@, immediate@)),
            Err(error) => spec_register_and_immediate(texts(tokens@), line) == Err::<
                (int, int),
                AssemblerErrorView,
            >(error@),
        },
{
    let register = match get_register(tokens[0].as_str(), line) {
        Ok(register) => register,
        Err(error) => { return Err(error); },
    };
    let immediate = match get_immediate(tokens[1].as_str(), line) {
        Ok(immediate) => immediate,
        Err(error) => { return Err(error); },
    };
    proof {
        immediate.lemma_wf();
    }
    Ok((register, immediate))
}

/// Reads a condition and then a location.
fn condition_and_target(tokens: &Vec<String>, line: u32) -> (r: Result<
    (Condition, Location),
    AssemblerError,
>)
    requires
        tokens.len() >= 2,
    ensures
        match r {
            Ok((condition, location)) => location@.wf() && spec_condition_and_target(
                texts(tokens@),
                line,
            ) == Ok::<(Condition, LocationView), AssemblerErrorView>((condition, location@)),
            Err(error) => spec_condition_and_target(texts(tokens@), line) == Err::<
                (Condition, LocationView),
                AssemblerErrorView,
            >(error@),
        },
{
    let condition = match get_condition(tokens[0].as_str(), line) {
        Ok(condition) => condition,
        Err(error) => { return Err(error); },
    };
    let location = match get_location(tokens[1].as_str(), line) {
        Ok(location) => location,
        Err(error) => { return Err(error); },
    };
    Ok((condition, location))
}

/// Reads two registers and then an offset.
fn registers_and_offset(tokens: &Vec<String>, line: u32) -> (r: Result<
    (Register, Register, Offset),
    AssemblerError,
>)
    requires
        tokens.len() >= 3,
    ensures
        match r {
            Ok((first, second, offset)) => first.wf() && second.wf() && offset.wf()
                && spec_registers_and_offset(texts(tokens@), line) == Ok::<
                (int, int, int),
                AssemblerErrorView,
            >((first@, second@, offset@)),
            Err(error) => spec_registers_and_offset(texts(tokens@), line) == Err::<
                (int, int, int),
                AssemblerErrorView,
            >(error@),
        },
{
    let (first, second) = match two_registers(tokens, line) {
        Ok(registers) => registers,
        Err(error) => { return Err(error); },
    };
    let offset = match get_offset(tokens[2].as_str(), line) {
        Ok(offset) => offset,
        Err(error) => { return Err(error); },
    };
    Ok((first, second, offset))
}

/// Makes the instruction of a mnemonic and its operands, which are as many as
/// the mnemonic takes.
fn build(mnemonic: Mnemonic, tokens: &Vec<String>, line: u32) -> (r: Result<
    Instruction,
    AssemblerError,
>)
    requires
        tokens.len() == mnemonic.shape().names().len(),
    ensures
        match r {
            Ok(instruction) => instruction@.wf() && mnemonic.build(texts(tokens@), line) == Ok::<
                InstructionView,
                AssemblerErrorView,
            >(instruction@),
            Err(error) => mnemonic.build(texts(tokens@), line) == Err::<
                InstructionView,
                AssemblerErrorView,
            >(error@),
        },
{
    match mnemonic {
        Mnemonic::Nop => Ok(Instruction::NoOperation),
        Mnemonic::Hlt => Ok(Instruction::Halt),
        Mnemonic::Ret => Ok(Instruction::Return),
        Mnemonic::Add => match three_registers(tokens, line) {
            Ok((a, b, c)) => Ok(Instruction::Addition(a, b, c)),
            Err(error) => Err(error),
        },
        Mnemonic::Sub => match three_registers(tokens, line) {
            Ok((a, b, c)) => Ok(Instruction::Subtraction(a, b, c)),
            Err(error) => Err(error),
        },
        Mnemonic::Nor => match three_registers(tokens, line) {
            Ok((a, b, c)) => Ok(Instruction::BitwiseNOR(a, b, c)),
            Err(error) => Err(error),
        },
        Mnemonic::And => match three_registers(tokens, line) {
            Ok((a, b, c)) => Ok(Instruction::BitwiseAND(a, b, c)),
            Err(error) => Err(error),
        },
        Mnemonic::Xor => match three_registers(tokens, line) {
            Ok((a, b, c)) => Ok(Instruction::BitwiseXOR(a, b, c)),
            Err(error) => Err(error),
        },
        Mnemonic::Rsh => match two_registers(tokens, line) {
            Ok((a, c)) => Ok(Instruction::RightShift(a, c)),
            Err(error) => Err(error),
        },
        Mnemonic::Ldi => match register_and_immediate(tokens, line) {
            Ok((a, immediate)) => Ok(Instruction::LoadImmediate(a, immediate)),
            Err(error) => Err(error),
        },
        Mnemonic::Adi => match register_and_immediate(tokens, line) {
            Ok((a, immediate)) => Ok(Instruction::AddImmediate(a, immediate)),
            Err(error) => Err(error),
        },
        Mnemonic::Jmp => match get_location(tokens[0].as_str(), line) {
            Ok(location) => Ok(Instruction::Jump(location)),
            Err(error) => Err(error),
        },
        Mnemonic::Brh => match condition_and_target(tokens, line) {
            Ok((condition, location)) => Ok(Instruction::Branch(condition, location)),
            Err(error) => Err(error),
        },
        Mnemonic::Cal => match get_location(tokens[0].as_str(), line) {
            Ok(location) => Ok(Instruction::Call(location)),
            Err(error) => Err(error),
        },
        Mnemonic::Lod => match registers_and_offset(tokens, line) {
            Ok((a, b, offset)) => Ok(Instruction::MemoryLoad(a, b, offset)),
            Err(error) => Err(error),
        },
        Mnemonic::Str => match registers_and_offset(tokens, line) {
            Ok((a, b, offset)) => Ok(Instruction::MemoryStore(a, b, offset)),
            Err(error) => Err(error),
        },
        Mnemonic::Compare => match two_registers(tokens, line) {
            Ok((a, b)) => Ok(Instruction::Subtraction(a, b, Register::zero())),
            Err(error) => Err(error),
        },
        Mnemonic::Mov => match two_registers(tokens, line) {
            Ok((a, c)) => Ok(Instruction::Addition(a, Register::zero(), c)),
            Err(error) => Err(error),
        },
        Mnemonic::Lsh => match two_registers(tokens, line) {
            Ok((a, c)) => Ok(Instruction::Addition(a, a, c)),
            Err(error) => Err(error),
        },
        Mnemonic::Inc => match get_register(tokens[0].as_str(), line) {
            Ok(a) => Ok(Instruction::AddImmediate(a, Immediate::new(1))),
            Err(error) => Err(error),
        },
        Mnemonic::Dec => match get_register(tokens[0].as_str(), line) {
            Ok(a) => Ok(Instruction::AddImmediate(a, Immediate::new(255))),
            Err(error) => Err(error),
        },
        Mnemonic::Not => match two_registers(tokens, line) {
            Ok((a, c)) => Ok(Instruction::BitwiseNOR(a, Register::zero(), c)),
            Err(error) => Err(error),
        },
        Mnemonic::Neg => match two_registers(tokens, line) {
            Ok((a, c)) => Ok(Instruction::Subtraction(Register::zero(), a, c)),
            Err(error) => Err(error),
        },
    }
}

/// Makes the instruction that a mnemonic and its operands stand for.
///
/// The name must be a mnemonic, the operands as many as it takes, and each
/// operand must read as what the mnemonic takes at its place. The operands are
/// read from left to right, and the first that cannot be read gives the
/// error.
pub fn decode(name: &str, operands: &Vec<String>, line: u32) -> (r: Result<
    Instruction,
    AssemblerError,
>)
    ensures
        match r {
            Ok(instruction) => instruction@.wf() && spec_decode(name@, texts(operands@), line)
                == Ok::<InstructionView, AssemblerErrorView>(instruction@),
            Err(error) => spec_decode(name@, texts(operands@), line) == Err::<
                InstructionView,
                AssemblerErrorView,
            >(error@),
        },
{
    match Mnemonic::from_name(name) {
        None => {
            let mut description = String::from_str("Unknown opcode: ");
            description.append(name);
            Err(AssemblerError::new_line(description, line))
        },
        Some(mnemonic) => {
            let names = mnemonic.operands().operand_names();
            match check_arguments(operands.len(), &names, line) {
                Err(error) => Err(error),
                Ok(()) => build(mnemonic, operands, line),
            }
        },
    }
}

/// Each of the twenty-three names is the name of its own mnemonic.
pub proof fn lemma_mnemonic_names()
    ensures
        Mnemonic::named("nop"@) == Some(Mnemonic::Nop),
        Mnemonic::named("hlt"@) == Some(Mnemonic::Hlt),
        Mnemonic::named("add"@) == Some(Mnemonic::Add),
        Mnemonic::named("sub"@) == Some(Mnemonic::Sub),
        Mnemonic::named("nor"@) == Some(Mnemonic::Nor),
        Mnemonic::named("and"@) == Some(Mnemonic::And),
        Mnemonic::named("xor"@) == Some(Mnemonic::Xor),
        Mnemonic::named("rsh"@) == Some(Mnemonic::Rsh),
        Mnemonic::named("ldi"@) == Some(Mnemonic::Ldi),
        Mnemonic::named("adi"@) == Some(Mnemonic::Adi),
        Mnemonic::named("jmp"@) == Some(Mnemonic::Jmp),
        Mnemonic::named("brh"@) == Some(Mnemonic::Brh),
        Mnemonic::named("cal"@) == Some(Mnemonic::Cal),
        Mnemonic::named("ret"@) == Some(Mnemonic::Ret),
        Mnemonic::named("lod"@) == Some(Mnemonic::Lod),
        Mnemonic::named("str"@) == Some(Mnemonic::Str),
        Mnemonic::named("cmp"@) == Some(Mnemonic::Compare),
        Mnemonic::named("mov"@) == Some(Mnemonic::Mov),
        Mnemonic::named("lsh"@) == Some(Mnemonic::Lsh),
        Mnemonic::named("inc"@) == Some(Mnemonic::Inc),
        Mnemonic::named("dec"@) == Some(Mnemonic::Dec),
        Mnemonic::named("not"@) == Some(Mnemonic::Not),
        Mnemonic::named("neg"@) == Some(Mnemonic::Neg),
{
    reveal_strlit("nop");
    assert("nop"@[0] == 'n' && "nop"@[1] == 'o' && "nop"@[2] == 'p');
    reveal_strlit("hlt");
    assert("hlt"@[0] == 'h' && "hlt"@[1] == 'l' && "hlt"@[2] == 't');
    reveal_strlit("add");
    assert("add"@[0] == 'a' && "add"@[1] == 'd' && "add"@[2] == 'd');
    reveal_strlit("sub");
    assert("sub"@[0] == 's' && "sub"@[1] == 'u' && "sub"@[2] == 'b');
    reveal_strlit("nor");
    assert("nor"@[0] == 'n' && "nor"@[1] == 'o' && "nor"@[2] == 'r');
    reveal_strlit("and");
    assert("and"@[0] == 'a' && "and"@[1] == 'n' && "and"@[2] == 'd');
    reveal_strlit("xor");
    assert("xor"@[0] == 'x' && "xor"@[1] == 'o' && "xor"@[2] == 'r');
    reveal_strlit("rsh");
    assert("rsh"@[0] == 'r' && "rsh"@[1] == 's' && "rsh"@[2] == 'h');
    reveal_strlit("ldi");
    assert("ldi"@[0] == 'l' && "ldi"@[1] == 'd' && "ldi"@[2] == 'i');
    reveal_strlit("adi");
    assert("adi"@[0] == 'a' && "adi"@[1] == 'd' && "adi"@[2] == 'i');
    reveal_strlit("jmp");
    assert("jmp"@[0] == 'j' && "jmp"@[1] == 'm' && "jmp"@[2] == 'p');
    reveal_strlit("brh");
    assert("brh"@[0] == 'b' && "brh"@[1] == 'r' && "brh"@[2] == 'h');
    reveal_strlit("cal");
    assert("cal"@[0] == 'c' && "cal"@[1] == 'a' && "cal"@[2] == 'l');
    reveal_strlit("ret");
    assert("ret"@[0] == 'r' && "ret"@[1] == 'e' && "ret"@[2] == 't');
    reveal_strlit("lod");
    assert("lod"@[0] == 'l' && "lod"@[1] == 'o' && "lod"@[2] == 'd');
    reveal_strlit("str");
    assert("str"@[0] == 's' && "str"@[1] == 't' && "str"@[2] == 'r');
    reveal_strlit("cmp");
    assert("cmp"@[0] == 'c' && "cmp"@[1] == 'm' && "cmp"@[2] == 'p');
    reveal_strlit("mov");
    assert("mov"@[0] == 'm' && "mov"@[1] == 'o' && "mov"@[2] == 'v');
    reveal_strlit("lsh");
    assert("lsh"@[0] == 'l' && "lsh"@[1] == 's' && "lsh"@[2] == 'h');
    reveal_strlit("inc");
    assert("inc"@[0] == 'i' && "inc"@[1] == 'n' && "inc"@[2] == 'c');
    reveal_strlit("dec");
    assert("dec"@[0] == 'd' && "dec"@[1] == 'e' && "dec"@[2] == 'c');
    reveal_strlit("not");
    assert("not"@[0] == 'n' && "not"@[1] == 'o' && "not"@[2] == 't');
    reveal_strlit("neg");
    assert("neg"@[0] == 'n' && "neg"@[1] == 'e' && "neg"@[2] == 'g');
}

/// The token `r0` reads as register zero, the token `1` as the immediate one
/// and the token `-1` as the immediate of all ones.
pub proof fn lemma_filled_in_operands(line: u32)
    ensures
        spec_get_register("r0"@, line) == Ok::<int, AssemblerErrorView>(0),
        spec_get_immediate("1"@, line) == Ok::<int, AssemblerErrorView>(1),
        spec_get_immediate("-1"@, line) == Ok::<int, AssemblerErrorView>(255),
{
    reveal_strlit("r0");
    reveal_strlit("1");
    reveal_strlit("-1");
    crate::operand::lemma_register_round_trip(0, line);
    assert(decimal(0) =~= seq!['0']);
    assert("r0"@ =~= seq!['r'] + decimal(0));
    crate::number::lemma_without_underscores_same("1"@);
    assert(numeral(1, 10) =~= seq!['1']);
    assert("1"@ =~= spelling(1, 10));
    crate::operand::lemma_immediate_spellings("1"@, 1, 10, line);
    crate::number::lemma_without_underscores_same("-1"@);
    assert("-1"@ =~= spelling(-1, 10));
    crate::operand::lemma_immediate_spellings("-1"@, -1, 10, line);
}

/// A name that names a mnemonic, with as many operands as the mnemonic takes,
/// is read as the mnemonic makes it.
proof fn lemma_decode_named(
    name: Seq<char>,
    mnemonic: Mnemonic,
    operands: Seq<Seq<char>>,
    line: u32,
)
    requires
        Mnemonic::named(name) == Some(mnemonic),
        operands.len() == mnemonic.shape().names().len(),
    ensures
        spec_decode(name, operands, line) == mnemonic.build(operands, line),
{
}

/// A shorthand on two registers with `r0` as its third makes what the long
/// form makes of the three.
proof fn lemma_two_registers_and_zero(a: Seq<char>, b: Seq<char>, zero: Seq<char>, line: u32)
    requires
        spec_get_register(zero, line) == Ok::<int, AssemblerErrorView>(0),
    ensures
        Mnemonic::Compare.build(seq![a, b], line) == Mnemonic::Sub.build(seq![a, b, zero], line),
        Mnemonic::Mov.build(seq![a, b], line) == Mnemonic::Add.build(seq![a, zero, b], line),
        Mnemonic::Not.build(seq![a, b], line) == Mnemonic::Nor.build(seq![a, zero, b], line),
        Mnemonic::Neg.build(seq![a, b], line) == Mnemonic::Sub.build(seq![zero, a, b], line),
        Mnemonic::Lsh.build(seq![a, b], line) == Mnemonic::Add.build(seq![a, a, b], line),
{
    let short = seq![a, b];
    assert(short[0] == a && short[1] == b);
    let behind = seq![a, b, zero];
    assert(behind[0] == a && behind[1] == b && behind[2] == zero);
    let between = seq![a, zero, b];
    assert(between[0] == a && between[1] == zero && between[2] == b);
    let before = seq![zero, a, b];
    assert(before[0] == zero && before[1] == a && before[2] == b);
    let twice = seq![a, a, b];
    assert(twice[0] == a && twice[1] == a && twice[2] == b);
}

/// A shorthand on one register with an immediate filled in makes what the
/// long form makes of the two.
proof fn lemma_register_and_filled_in(a: Seq<char>, one: Seq<char>, minus_one: Seq<char>, line: u32)
    requires
        spec_get_immediate(one, line) == Ok::<int, AssemblerErrorView>(1),
        spec_get_immediate(minus_one, line) == Ok::<int, AssemblerErrorView>(255),
    ensures
        Mnemonic::Inc.build(seq![a], line) == Mnemonic::Adi.build(seq![a, one], line),
        Mnemonic::Dec.build(seq![a], line) == Mnemonic::Adi.build(seq![a, minus_one], line),
{
    let short = seq![a];
    assert(short[0] == a);
    let up = seq![a, one];
    assert(up[0] == a && up[1] == one);
    let down = seq![a, minus_one];
    assert(down[0] == a && down[1] == minus_one);
}

/// Each shorthand is read as the long form that it stands for, whatever its
/// operands are: `cmp a b` as `sub a b r0`, `mov a c` as `add a r0 c`,
/// `lsh a c` as `add a a c`, `inc a` as `adi a 1`, `dec a` as `adi a -1`,
/// `not a c` as `nor a r0 c` and `neg a c` as `sub r0 a c`. Where an operand
/// cannot be read, both give the same error.
pub proof fn lemma_shorthand(a: Seq<char>, b: Seq<char>, line: u32)
    ensures
        spec_decode("cmp"@, seq![a, b], line) == spec_decode("sub"@, seq![a, b, "r0"@], line),
        spec_decode("mov"@, seq![a, b], line) == spec_decode("add"@, seq![a, "r0"@, b], line),
        spec_decode("lsh"@, seq![a, b], line) == spec_decode("add"@, seq![a, a, b], line),
        spec_decode("inc"@, seq![a], line) == spec_decode("adi"@, seq![a, "1"@], line),
        spec_decode("dec"@, seq![a], line) == spec_decode("adi"@, seq![a, "-1"@], line),
        spec_decode("not"@, seq![a, b], line) == spec_decode("nor"@, seq![a, "r0"@, b], line),
        spec_decode("neg"@, seq![a, b], line) == spec_decode("sub"@, seq!["r0"@, a, b], line),
{
    lemma_mnemonic_names();
    lemma_filled_in_operands(line);
    lemma_two_registers_and_zero(a, b, "r0"@, line);
    lemma_register_and_filled_in(a, "1"@, "-1"@, line);
    lemma_decode_named("cmp"@, Mnemonic::Compare, seq![a, b], line);
    lemma_decode_named("sub"@, Mnemonic::Sub, seq![a, b, "r0"@], line);
    lemma_decode_named("mov"@, Mnemonic::Mov, seq![a, b], line);
    lemma_decode_named("add"@, Mnemonic::Add, seq![a, "r0"@, b], line);
    lemma_decode_named("lsh"@, Mnemonic::Lsh, seq![a, b], line);
    lemma_decode_named("add"@, Mnemonic::Add, seq![a, a, b], line);
    lemma_decode_named("inc"@, Mnemonic::Inc, seq![a], line);
    lemma_decode_named("adi"@, Mnemonic::Adi, seq![a, "1"@], line);
    lemma_decode_named("dec"@, Mnemonic::Dec, seq![a], line);
    lemma_decode_named("adi"@, Mnemonic::Adi, seq![a, "-1"@], line);
    lemma_decode_named("not"@, Mnemonic::Not, seq![a, b], line);
    lemma_decode_named("nor"@, Mnemonic::Nor, seq![a, "r0"@, b], line);
    lemma_decode_named("neg"@, Mnemonic::Neg, seq![a, b], line);
    lemma_decode_named("sub"@, Mnemonic::Sub, seq!["r0"@, a, b], line);
}

/// A register that was read is one of the sixteen.
pub proof fn lemma_register_is_well_formed(token: Seq<char>, line: u32)
    ensures
        spec_get_register(token, line) matches Ok(register) ==> 0 <= register < 16,
{
    reveal(spec_get_register);
    crate::number::lemma_parse_decimal_range(
        token.subrange(1, token.len() as int),
        u32::MAX as int,
    );
}

/// An immediate that was read is eight bits wide.
pub proof fn lemma_immediate_is_well_formed(token: Seq<char>, line: u32)
    ensures
        spec_get_immediate(token, line) matches Ok(bits) ==> 0 <= bits < 256,
{
    reveal(spec_get_immediate);
}

/// An offset that was read lies between -8 and 7.
pub proof fn lemma_offset_is_well_formed(token: Seq<char>, line: u32)
    ensures
        spec_get_offset(token, line) matches Ok(offset) ==> -8 <= offset <= 7,
{
    reveal(spec_get_offset);
}

/// An error of reading an operand is on the line that was given.
pub proof fn lemma_operand_error_line(token: Seq<char>, line: u32)
    ensures
        spec_get_register(token, line) matches Err(error) ==> error.line == Some(line),
        spec_get_immediate(token, line) matches Err(error) ==> error.line == Some(line),
        spec_get_offset(token, line) matches Err(error) ==> error.line == Some(line),
        spec_get_condition(token, line) matches Err(error) ==> error.line == Some(line),
        spec_get_location(token, line) matches Err(error) ==> error.line == Some(line),
{
    reveal(spec_get_register);
    reveal(spec_get_immediate);
    reveal(spec_get_offset);
    reveal(spec_get_condition);
    reveal(spec_get_location);
}

/// A location that was read lies in its range.
pub proof fn lemma_location_is_well_formed(token: Seq<char>, line: u32)
    ensures
        spec_get_location(token, line) matches Ok(location) ==> location.wf(),
{
    reveal(spec_get_location);
    crate::number::lemma_parse_literal_range(token, 0, u32::MAX as int);
}

/// An instruction that a mnemonic made of its operands has every operand in
/// its range.
pub proof fn lemma_built_is_well_formed(mnemonic: Mnemonic, operands: Seq<Seq<char>>, line: u32)
    ensures
        mnemonic.build(operands, line) matches Ok(instruction) ==> instruction.wf(),
{
    lemma_register_is_well_formed(operands[0], line);
    lemma_register_is_well_formed(operands[1], line);
    lemma_register_is_well_formed(operands[2], line);
    lemma_location_is_well_formed(operands[0], line);
    lemma_location_is_well_formed(operands[1], line);
    lemma_immediate_is_well_formed(operands[1], line);
    lemma_offset_is_well_formed(operands[2], line);
}

/// An instruction that was read has every operand in its range.
pub proof fn lemma_decoded_is_well_formed(name: Seq<char>, operands: Seq<Seq<char>>, line: u32)
    ensures
        spec_decode(name, operands, line) matches Ok(instruction) ==> instruction.wf(),
{
    if Mnemonic::named(name) is Some {
        lemma_built_is_well_formed(Mnemonic::named(name).unwrap(), operands, line);
    }
}

/// An error of reading an instruction is on the line that was given.
pub proof fn lemma_decode_error_line(name: Seq<char>, operands: Seq<Seq<char>>, line: u32)
    ensures
        spec_decode(name, operands, line) matches Err(error) ==> error.line == Some(line),
{
    lemma_operand_error_line(operands[0], line);
    lemma_operand_error_line(operands[1], line);
    lemma_operand_error_line(operands[2], line);
}

} // verus!
