//! An assembler for a small CPU with sixteen registers, sixteen opcodes and
//! 16-bit instruction words.
//!
//! Source text is read in two passes. The first pass turns every statement
//! into an [`instruction::Instruction`] and records labels and defines; the
//! second pass packs each instruction into one word, with every label bound
//! to the position it was defined at.
//!
//! The target machine holds 1024 instructions. An address is ten bits wide, an
//! immediate eight bits and a memory offset four bits.

pub mod address;
pub mod argument_error;
pub mod assembler;
pub mod assembler_config;
pub mod assembler_error;
pub mod condition;
pub mod decode;
pub mod defines;
pub mod immediate;
pub mod instruction;
pub mod labels;
pub mod location;
pub mod number;
pub mod offset;
pub mod operand;
pub mod output;
pub mod register;
pub mod text;
