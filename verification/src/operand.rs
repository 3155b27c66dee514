//! Reading operands: a register, an immediate, an offset, a condition and a
//! location, each from one token.
//!
//! Every reader either gives the operand or an error that names the token
//! and carries the line it was given.

use vstd::prelude::*;
use vstd::string::StringExecFns;
use crate::address::Address;
use crate::assembler_error::{AssemblerError, AssemblerErrorView};
use crate::condition::Condition;
use crate::immediate::{immediate_bits, Immediate};
use crate::location::{Location, LocationView};
use crate::number::{
    decimal,
    digit_rank,
    lemma_digit_char,
    lemma_numeral,
    lemma_spelling_reads_back,
    lemma_without_underscores_first,
    numeral,
    spelling,
    without_underscores,
    parse_decimal,
    parse_decimal_chars,
    parse_i32_chars,
    parse_u32_chars,
    push_decimal,
    spec_parse_i32,
    spec_parse_u32,
    NumberError,
};
use crate::offset::Offset;
use crate::register::Register;
use crate::text::{chars_of, enclose, spells, string_of};

verus! {

/// An error with the given description on the given line.
pub open spec fn error_on(description: Seq<char>, line: u32) -> AssemblerErrorView {
    AssemblerErrorView { description, line: Some(line) }
}

/// What is said of a number that could not be read: the kind of operand, the
/// token between quotes and the reason.
pub open spec fn unreadable(kind: Seq<char>, token: Seq<char>, reason: NumberError) -> Seq<char> {
    "Failed to parse "@ + kind + " \""@ + token + "\": "@ + reason.text()
}

/// What is said of a number outside the range of its operand: the kind of
/// operand, the token and the range.
pub open spec fn out_of_range(kind: Seq<char>, token: Seq<char>, range: Seq<char>) -> Seq<char> {
    kind + " "@ + token + " out of range, expected "@ + range
}

/// Returns the error for a number that could not be read.
fn unreadable_error(kind: &str, token: &[char], reason: NumberError, line: u32) -> (error:
    AssemblerError)
    ensures
        error@ == error_on(unreadable(kind@, token@, reason), line),
{
    let mut description = String::from_str("Failed to parse ");
    description.append(kind);
    let quoted = enclose(" \"", token, "\": ");
    description.append(quoted.as_str());
    description.append(reason.message());
    proof {
        assert(description@ =~= unreadable(kind@, token@, reason));
    }
    AssemblerError::new_line(description, line)
}

/// Returns the error for a number outside the range of its operand.
fn out_of_range_error(kind: &str, token: &[char], range: &str, line: u32) -> (error:
    AssemblerError)
    ensures
        error@ == error_on(out_of_range(kind@, token@, range@), line),
{
    let mut description = String::from_str(kind);
    let middle = enclose(" ", token, " out of range, expected ");
    description.append(middle.as_str());
    description.append(range);
    proof {
        assert(description@ =~= out_of_range(kind@, token@, range@));
    }
    AssemblerError::new_line(description, line)
}

/// What is said of a register token that does not begin with `r`.
pub open spec fn register_without_prefix(token: Seq<char>) -> Seq<char> {
    "Register \""@ + token + "\" must start with a lowercase 'r'"@
}

/// Reads a register: `r` and then decimal digits that spell a number below
/// sixteen.
///
/// A token that does not begin with `r`, digits that cannot be read and a
/// number that names no register are three different errors.
#[verifier::opaque]
pub open spec fn spec_get_register(token: Seq<char>, line: u32) -> Result<int, AssemblerErrorView> {
    if token.len() == 0 || token[0] != 'r' {
        Err(error_on(register_without_prefix(token), line))
    } else {
        let digits = token.subrange(1, token.len() as int);
        match parse_decimal(digits, u32::MAX as int) {
            Err(reason) => Err(error_on(unreadable("register"@, digits, reason), line)),
            Ok(number) => if number < 16 {
                Ok(number)
            } else {
                Err(error_on(out_of_range("Register"@, digits, "0-15"@), line))
            },
        }
    }
}

/// Reads a register from a token: `r0` to `r15`.
pub fn get_register(token: &str, line: u32) -> (r: Result<Register, AssemblerError>)
    ensures
        match r {
            Ok(register) => register.wf() && spec_get_register(token@, line) == Ok::<
                int,
                AssemblerErrorView,
            >(register@),
            Err(error) => spec_get_register(token@, line) == Err::<int, AssemblerErrorView>(
                error@,
            ),
        },
{
    proof {
        reveal(spec_get_register);
    }
    let text = chars_of(token);
    let chars = text.as_slice();
    if chars.len() == 0 || chars[0] != 'r' {
        let description = enclose("Register \"", chars, "\" must start with a lowercase 'r'");
        return Err(AssemblerError::new_line(description, line));
    }
    let digits = vstd::slice::slice_subrange(chars, 1, chars.len());
    match parse_decimal_chars(digits) {
        Err(reason) => Err(unreadable_error("register", digits, reason, line)),
        Ok(number) => match Register::new(number) {
            Some(register) => Ok(register),
            None => Err(out_of_range_error("Register", digits, "0-15", line)),
        },
    }
}

/// The characters that can stand between quotes as an immediate, each at the
/// place of its code.
pub open spec fn character_table() -> Seq<char> {
    " ABCDEFGHIJKLMNOPQRSTUVWXYZ.!?"@
}

/// The code of a character of the table: 0 for the blank, 1 to 26 for the
/// capital letters, then 27 for the full stop, 28 for the exclamation mark and
/// 29 for the question mark. Other characters have none.
pub open spec fn character_code(c: char) -> Option<int> {
    if c == ' ' {
        Some(0)
    } else if 'A' <= c <= 'Z' {
        Some(c as int - 'A' as int + 1)
    } else if c == '.' {
        Some(27)
    } else if c == '!' {
        Some(28)
    } else if c == '?' {
        Some(29)
    } else {
        None
    }
}

/// What is said of a quoted immediate without its closing quote.
pub open spec fn immediate_without_end(token: Seq<char>) -> Seq<char> {
    "Immediate \""@ + token + "\" must end with ''"@
}

/// What is said of quotes that do not hold exactly one character.
pub open spec fn immediate_not_single(inner: Seq<char>) -> Seq<char> {
    "Immediate \""@ + inner + "\" must only contain a single character"@
}

/// What is said of a quoted character that the table does not hold.
pub open spec fn character_unsupported(c: char) -> Seq<char> {
    "Character \""@ + seq![c] + "\" is not supported, you can only use ones in \""@
        + character_table() + "\""@
}

/// What stands between the first and the last character of a token.
pub open spec fn between_quotes(token: Seq<char>) -> Seq<char> {
    if token.len() >= 2 {
        token.subrange(1, token.len() - 1)
    } else {
        Seq::<char>::empty()
    }
}

/// Reads an immediate and gives its eight bits.
///
/// A token that begins with a quote must be one character of the table
/// between two quotes, and stands for that character's code. Any other token
/// is a numeric literal between -128 and 255.
#[verifier::opaque]
pub open spec fn spec_get_immediate(token: Seq<char>, line: u32) -> Result<
    int,
    AssemblerErrorView,
> {
    if token.len() > 0 && token[0] == '\'' {
        let inner = between_quotes(token);
        if token.last() != '\'' {
            Err(error_on(immediate_without_end(token), line))
        } else if inner.len() != 1 {
            Err(error_on(immediate_not_single(inner), line))
        } else {
            match character_code(inner[0]) {
                Some(code) => Ok(code),
                None => Err(error_on(character_unsupported(inner[0]), line)),
            }
        }
    } else {
        match spec_parse_i32(token) {
            Err(reason) => Err(error_on(unreadable("immediate"@, token, reason), line)),
            Ok(value) => if -128 <= value <= 255 {
                Ok(immediate_bits(value))
            } else {
                Err(error_on(out_of_range("Immediate"@, token, "-128-255"@), line))
            },
        }
    }
}

/// Returns the code of a character of the table.
fn code_of(c: char) -> (code: Option<u8>)
    ensures
        match code {
            Some(code) => character_code(c) == Some(code as int),
            None => character_code(c) is None,
        },
{
    if c == ' ' {
        Some(0)
    } else if 'A' <= c && c <= 'Z' {
        Some((c as u32 - 'A' as u32 + 1) as u8)
    } else if c == '.' {
        Some(27)
    } else if c == '!' {
        Some(28)
    } else if c == '?' {
        Some(29)
    } else {
        None
    }
}

/// Reads an immediate from a token: a numeric literal between -128 and 255,
/// or one character of the table between quotes.
pub fn get_immediate(token: &str, line: u32) -> (r: Result<Immediate, AssemblerError>)
    ensures
        match r {
            Ok(immediate) => spec_get_immediate(token@, line) == Ok::<int, AssemblerErrorView>(
                immediate@,
            ),
            Err(error) => spec_get_immediate(token@, line) == Err::<int, AssemblerErrorView>(
                error@,
            ),
        },
{
    proof {
        reveal(spec_get_immediate);
    }
    let text = chars_of(token);
    let chars = text.as_slice();
    if chars.len() > 0 && chars[0] == '\'' {
        if chars[chars.len() - 1] != '\'' {
            let description = enclose("Immediate \"", chars, "\" must end with ''");
            return Err(AssemblerError::new_line(description, line));
        }
        let inner = if chars.len() >= 2 {
            vstd::slice::slice_subrange(chars, 1, chars.len() - 1)
        } else {
            vstd::slice::slice_subrange(chars, 0, 0)
        };
        proof {
            assert(inner@ =~= between_quotes(token@));
        }
        if inner.len() != 1 {
            let description = enclose(
                "Immediate \"",
                inner,
                "\" must only contain a single character",
            );
            return Err(AssemblerError::new_line(description, line));
        }
        return match code_of(inner[0]) {
            Some(code) => Ok(Immediate::new(code)),
            None => {
                let mut description = enclose(
                    "Character \"",
                    inner,
                    "\" is not supported, you can only use ones in \"",
                );
                description.append(" ABCDEFGHIJKLMNOPQRSTUVWXYZ.!?");
                description.append("\"");
                proof {
                    assert(inner@ =~= seq![inner@[0]]);
                    assert(description@ =~= character_unsupported(inner@[0]));
                }
                Err(AssemblerError::new_line(description, line))
            },
        };
    }
    match parse_i32_chars(chars) {
        Err(reason) => Err(unreadable_error("immediate", chars, reason, line)),
        Ok(value) => match Immediate::new_signed(value) {
            Some(immediate) => Ok(immediate),
            None => Err(out_of_range_error("Immediate", chars, "-128-255", line)),
        },
    }
}

/// Reads an offset: a numeric literal between -8 and 7.
#[verifier::opaque]
pub open spec fn spec_get_offset(token: Seq<char>, line: u32) -> Result<int, AssemblerErrorView> {
    match spec_parse_i32(token) {
        Err(reason) => Err(error_on(unreadable("offset"@, token, reason), line)),
        Ok(value) => if -8 <= value <= 7 {
            Ok(value)
        } else {
            Err(error_on(out_of_range("Offset"@, token, "-8-7"@), line))
        },
    }
}

/// Reads an offset from a token: a numeric literal between -8 and 7.
pub fn get_offset(token: &str, line: u32) -> (r: Result<Offset, AssemblerError>)
    ensures
        match r {
            Ok(offset) => offset.wf() && spec_get_offset(token@, line) == Ok::<
                int,
                AssemblerErrorView,
            >(offset@),
            Err(error) => spec_get_offset(token@, line) == Err::<int, AssemblerErrorView>(error@),
        },
{
    proof {
        reveal(spec_get_offset);
    }
    let text = chars_of(token);
    let chars = text.as_slice();
    match parse_i32_chars(chars) {
        Err(reason) => Err(unreadable_error("offset", chars, reason, line)),
        Ok(value) => match Offset::new(value) {
            Some(offset) => Ok(offset),
            None => Err(out_of_range_error("Offset", chars, "-8-7", line)),
        },
    }
}

/// What is said of a token that names no condition.
pub open spec fn unknown_condition(token: Seq<char>) -> Seq<char> {
    "Unknown condition: \""@ + token + "\""@
}

/// Reads a condition: one of the four keywords, in lower case.
#[verifier::opaque]
pub open spec fn spec_get_condition(token: Seq<char>, line: u32) -> Result<
    Condition,
    AssemblerErrorView,
> {
    if token == "zero"@ {
        Ok(Condition::Zero)
    } else if token == "notzero"@ {
        Ok(Condition::NotZero)
    } else if token == "carry"@ {
        Ok(Condition::Carry)
    } else if token == "notcarry"@ {
        Ok(Condition::NotCarry)
    } else {
        Err(error_on(unknown_condition(token), line))
    }
}

/// Reads a condition from a token: `zero`, `notzero`, `carry` or `notcarry`.
pub fn get_condition(token: &str, line: u32) -> (r: Result<Condition, AssemblerError>)
    ensures
        match r {
            Ok(condition) => spec_get_condition(token@, line) == Ok::<
                Condition,
                AssemblerErrorView,
            >(condition),
            Err(error) => spec_get_condition(token@, line) == Err::<Condition, AssemblerErrorView>(
                error@,
            ),
        },
{
    proof {
        reveal(spec_get_condition);
    }
    let text = chars_of(token);
    let chars = text.as_slice();
    if spells(chars, "zero") {
        Ok(Condition::Zero)
    } else if spells(chars, "notzero") {
        Ok(Condition::NotZero)
    } else if spells(chars, "carry") {
        Ok(Condition::Carry)
    } else if spells(chars, "notcarry") {
        Ok(Condition::NotCarry)
    } else {
        let description = enclose("Unknown condition: \"", chars, "\"");
        Err(AssemblerError::new_line(description, line))
    }
}

/// What is said of an address outside the program space.
pub open spec fn address_out_of_range(number: nat) -> Seq<char> {
    "Address "@ + decimal(number) + " out of range, expected 0-1023"@
}

/// Reads a location.
///
/// A token that begins with `+` or `-` is a distance: the sign, and then a
/// numeric literal for how far. Any other token that reads as a numeric
/// literal is an address and must lie in the program space. A token that does
/// not read as a number is the name of a label.
#[verifier::opaque]
pub open spec fn spec_get_location(token: Seq<char>, line: u32) -> Result<
    LocationView,
    AssemblerErrorView,
> {
    if token.len() > 0 && (token[0] == '+' || token[0] == '-') {
        match spec_parse_u32(token.subrange(1, token.len() as int)) {
            Err(reason) => Err(error_on(unreadable("address offset"@, token, reason), line)),
            Ok(magnitude) => Ok(
                LocationView::Offset(
                    if token[0] == '+' {
                        magnitude
                    } else {
                        -magnitude
                    },
                ),
            ),
        }
    } else {
        match spec_parse_u32(token) {
            Ok(number) => if number < 1024 {
                Ok(LocationView::Address(number))
            } else {
                Err(error_on(address_out_of_range(number as nat), line))
            },
            Err(_) => Ok(LocationView::Label(token)),
        }
    }
}

/// Reads a location from a token: a signed distance, an address or the name
/// of a label.
pub fn get_location(token: &str, line: u32) -> (r: Result<Location, AssemblerError>)
    ensures
        match r {
            Ok(location) => location@.wf() && spec_get_location(token@, line) == Ok::<
                LocationView,
                AssemblerErrorView,
            >(location@),
            Err(error) => spec_get_location(token@, line) == Err::<
                LocationView,
                AssemblerErrorView,
            >(error@),
        },
{
    proof {
        reveal(spec_get_location);
    }
    let text = chars_of(token);
    let chars = text.as_slice();
    if chars.len() > 0 && (chars[0] == '+' || chars[0] == '-') {
        let forward = chars[0] == '+';
        let rest = vstd::slice::slice_subrange(chars, 1, chars.len());
        return match parse_u32_chars(rest) {
            Err(reason) => Err(unreadable_error("address offset", chars, reason, line)),
            Ok(magnitude) => {
                if forward {
                    Ok(Location::Offset(magnitude as i64))
                } else {
                    Ok(Location::Offset(-(magnitude as i64)))
                }
            },
        };
    }
    match parse_u32_chars(chars) {
        Ok(number) => match Address::new(number) {
            Some(address) => Ok(Location::Address(address)),
            None => {
                let mut description = String::from_str("Address ");
                push_decimal(&mut description, number as u64);
                description.append(" out of range, expected 0-1023");
                Err(AssemblerError::new_line(description, line))
            },
        },
        Err(_) => Ok(Location::Label(string_of(chars))),
    }
}

/// The token `r` with a decimal number behind it reads as the register of
/// that number where the number is below sixteen, and is out of range where
/// it is not.
pub proof fn lemma_register_round_trip(number: nat, line: u32)
    requires
        number <= u32::MAX,
    ensures
        spec_get_register(seq!['r'] + decimal(number), line) == (if number < 16 {
            Ok::<int, AssemblerErrorView>(number as int)
        } else {
            Err::<int, AssemblerErrorView>(
                error_on(out_of_range("Register"@, decimal(number), "0-15"@), line),
            )
        }),
{
    reveal(spec_get_register);
    let token = seq!['r'] + decimal(number);
    lemma_numeral(number, 10);
    crate::number::lemma_parse_all_digits(decimal(number), 10, u32::MAX as int);
    assert(token.subrange(1, token.len() as int) =~= decimal(number));
}

/// A token that spells a number between -128 and 255 reads as the immediate of
/// that number: written in decimal, in hexadecimal or in binary, and with
/// underscores or without. A token that spells another number is out of
/// range.
pub proof fn lemma_immediate_spellings(token: Seq<char>, value: int, radix: nat, line: u32)
    requires
        radix == 2 || radix == 10 || radix == 16,
        i32::MIN <= value <= i32::MAX,
        without_underscores(token) == spelling(value, radix),
    ensures
        spec_get_immediate(token, line) == (if -128 <= value <= 255 {
            Ok::<int, AssemblerErrorView>(immediate_bits(value))
        } else {
            Err::<int, AssemblerErrorView>(
                error_on(out_of_range("Immediate"@, token, "-128-255"@), line),
            )
        }),
{
    reveal(spec_get_immediate);
    lemma_spelling_reads_back(token, value, radix, i32::MIN as int, i32::MAX as int);
    if token.len() > 0 && token[0] == '\'' {
        lemma_without_underscores_first(token);
        let magnitude = (if value < 0 {
            -value
        } else {
            value
        }) as nat;
        lemma_numeral(magnitude, radix);
        lemma_digit_char(digit_rank(numeral(magnitude, radix)[0]));
        assert(spelling(value, radix)[0] != '\'');
    }
}

/// Two tokens that differ in their underscores alone read as the same
/// immediate, or both as none.
pub proof fn lemma_immediate_ignores_underscores(first: Seq<char>, second: Seq<char>, line: u32)
    requires
        without_underscores(first) == without_underscores(second),
        first.len() > 0 ==> first[0] != '\'',
        second.len() > 0 ==> second[0] != '\'',
    ensures
        match (spec_get_immediate(first, line), spec_get_immediate(second, line)) {
            (Ok(a), Ok(b)) => a == b,
            (Err(_), Err(_)) => true,
            _ => false,
        },
{
    reveal(spec_get_immediate);
}

} // verus!
