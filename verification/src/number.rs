//! Numbers as text: reading a numeric literal and writing a number out.

use vstd::prelude::*;
use crate::text::chars_of;

verus! {

/// Why a token is not a number.
#[derive(Debug, Clone, Copy, PartialEq, Eq, Structural)]
pub enum NumberError {
    /// There is nothing to read.
    Empty,
    /// A character is not a digit of the radix, or a sign stands alone.
    InvalidDigit,
    /// The number is larger than the type holds.
    TooLarge,
    /// The number is smaller than the type holds.
    TooSmall,
}

impl NumberError {
    /// The words that describe the error.
    pub open spec fn text(self) -> Seq<char> {
        match self {
            NumberError::Empty => "cannot parse integer from empty string"@,
            NumberError::InvalidDigit => "invalid digit found in string"@,
            NumberError::TooLarge => "number too large to fit in target type"@,
            NumberError::TooSmall => "number too small to fit in target type"@,
        }
    }

    /// Returns the words that describe the error.
    pub fn message(&self) -> (text: &'static str)
        ensures
            text@ == self.text(),
    {
        match self {
            NumberError::Empty => "cannot parse integer from empty string",
            NumberError::InvalidDigit => "invalid digit found in string",
            NumberError::TooLarge => "number too large to fit in target type",
            NumberError::TooSmall => "number too small to fit in target type",
        }
    }
}

/// The value of a character as a digit, whatever the radix: `0` to `9`, then
/// the letters of either case from ten on. A character that is no digit has
/// the value 36, which no radix reaches.
pub open spec fn digit_rank(c: char) -> int {
    if '0' <= c <= '9' {
        c as int - '0' as int
    } else if 'a' <= c <= 'z' {
        c as int - 'a' as int + 10
    } else if 'A' <= c <= 'Z' {
        c as int - 'A' as int + 10
    } else {
        36
    }
}

/// Whether the character is a digit of the radix.
pub open spec fn is_digit(c: char, radix: int) -> bool {
    digit_rank(c) < radix
}

/// Whether every character is a digit of the radix.
pub open spec fn all_digits(s: Seq<char>, radix: int) -> bool {
    forall|i: int| 0 <= i < s.len() ==> is_digit(#[trigger] s[i], radix)
}

/// The number that a run of digits spells in the radix, most significant
/// digit first.
pub open spec fn digits_value(s: Seq<char>, radix: int) -> int
    decreases s.len(),
{
    if s.len() == 0 {
        0
    } else {
        digits_value(s.drop_last(), radix) * radix + digit_rank(s.last())
    }
}

/// The token without its underscores.
pub open spec fn without_underscores(s: Seq<char>) -> Seq<char>
    decreases s.len(),
{
    if s.len() == 0 {
        s
    } else if s.last() == '_' {
        without_underscores(s.drop_last())
    } else {
        without_underscores(s.drop_last()).push(s.last())
    }
}

/// Where the first character at or behind `from` stands that is no digit of
/// the radix, or the length of the text where there is none.
pub open spec fn digits_end_from(s: Seq<char>, radix: int, from: int) -> int
    decreases s.len() - from,
{
    if from < 0 || from >= s.len() {
        s.len() as int
    } else if !is_digit(s[from], radix) {
        from
    } else {
        digits_end_from(s, radix, from + 1)
    }
}

/// The digits at the start of the text: what stands in front of the first
/// character that is no digit of the radix.
pub open spec fn leading_digits(s: Seq<char>, radix: int) -> Seq<char> {
    s.subrange(0, digits_end_from(s, radix, 0))
}

/// Reads a run of digits as a number up to `limit`.
///
/// The text is read from the left, and what is wrong first decides: where the
/// digits at the start spell more than `limit` the number is too large, even
/// if a character behind them is no digit; else a character that is no digit
/// is an invalid digit.
pub open spec fn parse_digits(s: Seq<char>, radix: int, limit: int) -> Result<int, NumberError> {
    let digits = leading_digits(s, radix);
    if digits_value(digits, radix) > limit {
        Err(NumberError::TooLarge)
    } else if digits.len() < s.len() {
        Err(NumberError::InvalidDigit)
    } else {
        Ok(digits_value(digits, radix))
    }
}

/// Reads a number in the given radix that must lie between `min` and `max`.
///
/// A `+` may stand in front of the digits, and a `-` where `min` is negative.
/// At least one digit must follow.
pub open spec fn parse_radix(s: Seq<char>, radix: int, min: int, max: int) -> Result<
    int,
    NumberError,
> {
    if s.len() == 0 {
        Err(NumberError::Empty)
    } else {
        let negative = min < 0 && s[0] == '-';
        let digits = if s[0] == '+' || negative {
            s.subrange(1, s.len() as int)
        } else {
            s
        };
        if digits.len() == 0 {
            Err(NumberError::InvalidDigit)
        } else if negative {
            match parse_digits(digits, radix, -min) {
                Ok(magnitude) => Ok(-magnitude),
                Err(NumberError::TooLarge) => Err(NumberError::TooSmall),
                Err(reason) => Err(reason),
            }
        } else {
            parse_digits(digits, radix, max)
        }
    }
}

/// Reads a run of decimal digits, without a sign, as a number up to `max`.
pub open spec fn parse_decimal(s: Seq<char>, max: int) -> Result<int, NumberError> {
    if s.len() == 0 {
        Err(NumberError::Empty)
    } else {
        parse_digits(s, 10, max)
    }
}

/// Whether the text begins with `0` and the given letter.
pub open spec fn has_radix_prefix(s: Seq<char>, letter: char) -> bool {
    s.len() >= 2 && s[0] == '0' && s[1] == letter
}

/// Reads a numeric literal that must lie between `min` and `max`.
///
/// Underscores are dropped first, wherever they stand. What is left is
/// hexadecimal after `0x`, binary after `0b` and decimal otherwise.
pub open spec fn parse_literal(token: Seq<char>, min: int, max: int) -> Result<int, NumberError> {
    let s = without_underscores(token);
    if has_radix_prefix(s, 'x') {
        parse_radix(s.subrange(2, s.len() as int), 16, min, max)
    } else if has_radix_prefix(s, 'b') {
        parse_radix(s.subrange(2, s.len() as int), 2, min, max)
    } else {
        parse_radix(s, 10, min, max)
    }
}

/// Reads a numeric literal as an unsigned 32-bit number.
pub open spec fn spec_parse_u32(token: Seq<char>) -> Result<int, NumberError> {
    parse_literal(token, 0, u32::MAX as int)
}

/// Reads a numeric literal as a signed 32-bit number.
pub open spec fn spec_parse_i32(token: Seq<char>) -> Result<int, NumberError> {
    parse_literal(token, i32::MIN as int, i32::MAX as int)
}

/// Returns the value of a character as a digit of any radix up to 36, or 36
/// for a character that is no digit.
pub fn digit_of(c: char) -> (rank: u32)
    ensures
        rank == digit_rank(c),
        rank <= 36,
{
    if '0' <= c && c <= '9' {
        c as u32 - '0' as u32
    } else if 'a' <= c && c <= 'z' {
        c as u32 - 'a' as u32 + 10
    } else if 'A' <= c && c <= 'Z' {
        c as u32 - 'A' as u32 + 10
    } else {
        36
    }
}

/// A run of digits with one more digit behind it spells the run's number
/// times the radix, plus the digit.
pub proof fn lemma_digits_push(s: Seq<char>, c: char, radix: int)
    ensures
        digits_value(s.push(c), radix) == digits_value(s, radix) * radix + digit_rank(c),
{
    assert(s.push(c).drop_last() =~= s);
}

/// No run of digits spells a negative number.
pub proof fn lemma_digits_nonnegative(s: Seq<char>, radix: int)
    requires
        radix >= 0,
    ensures
        digits_value(s, radix) >= 0,
    decreases s.len(),
{
    if s.len() > 0 {
        lemma_digits_nonnegative(s.drop_last(), radix);
        assert(digits_value(s.drop_last(), radix) * radix >= 0) by (nonlinear_arith)
            requires
                digits_value(s.drop_last(), radix) >= 0,
                radix >= 0,
        ;
    }
}

/// Returns the token without its underscores.
pub fn strip_underscores(token: &[char]) -> (stripped: Vec<char>)
    ensures
        stripped@ == without_underscores(token@),
{
    let mut stripped: Vec<char> = Vec::new();
    let mut i: usize = 0;
    while i < token.len()
        invariant
            i <= token.len(),
            stripped@ == without_underscores(token@.subrange(0, i as int)),
        decreases token.len() - i,
    {
        proof {
            assert(token@.subrange(0, i + 1).drop_last() =~= token@.subrange(0, i as int));
        }
        if token[i] != '_' {
            stripped.push(token[i]);
        }
        i += 1;
    }
    proof {
        assert(token@.subrange(0, i as int) =~= token@);
    }
    stripped
}

/// The first character that is no digit stands at or behind the place from
/// which it is looked for, and not behind the end of the text.
pub proof fn lemma_digits_end_bounds(s: Seq<char>, radix: int, from: int)
    requires
        0 <= from <= s.len(),
    ensures
        from <= digits_end_from(s, radix, from) <= s.len(),
    decreases s.len() - from,
{
    if from < s.len() && is_digit(s[from], radix) {
        lemma_digits_end_bounds(s, radix, from + 1);
    }
}

/// A longer start of a text spells no smaller number than a shorter one.
pub proof fn lemma_digits_grow(s: Seq<char>, radix: int, shorter: int, longer: int)
    requires
        radix >= 1,
        0 <= shorter <= longer <= s.len(),
    ensures
        digits_value(s.subrange(0, shorter), radix) <= digits_value(s.subrange(0, longer), radix),
    decreases longer - shorter,
{
    if shorter < longer {
        lemma_digits_grow(s, radix, shorter, longer - 1);
        let before = s.subrange(0, longer - 1);
        assert(s.subrange(0, longer).drop_last() =~= before);
        lemma_digits_nonnegative(before, radix);
        assert(digits_value(before, radix) * radix >= digits_value(before, radix))
            by (nonlinear_arith)
            requires
                digits_value(before, radix) >= 0,
                radix >= 1,
        ;
    }
}

/// A text made of digits alone has no character that is no digit.
pub proof fn lemma_all_digits_end(s: Seq<char>, radix: int, from: int)
    requires
        all_digits(s, radix),
        0 <= from <= s.len(),
    ensures
        digits_end_from(s, radix, from) == s.len(),
    decreases s.len() - from,
{
    if from < s.len() {
        lemma_all_digits_end(s, radix, from + 1);
    }
}

/// A text made of digits alone reads as the number that it spells, unless
/// that number passes the limit.
pub proof fn lemma_parse_all_digits(s: Seq<char>, radix: int, limit: int)
    requires
        all_digits(s, radix),
    ensures
        parse_digits(s, radix, limit) == (if digits_value(s, radix) > limit {
            Err::<int, NumberError>(NumberError::TooLarge)
        } else {
            Ok::<int, NumberError>(digits_value(s, radix))
        }),
{
    lemma_all_digits_end(s, radix, 0);
    assert(leading_digits(s, radix) =~= s);
}

/// Reads a run of digits as a number up to `limit`.
fn read_digits(digits: &[char], radix: u32, limit: u64) -> (r: Result<u64, NumberError>)
    requires
        2 <= radix <= 36,
        limit <= 0x1_0000_0000,
    ensures
        match r {
            Ok(v) => parse_digits(digits@, radix as int, limit as int) == Ok::<int, NumberError>(
                v as int,
            ) && v <= limit,
            Err(e) => parse_digits(digits@, radix as int, limit as int) == Err::<
                int,
                NumberError,
            >(e),
        },
{
    let mut value: u64 = 0;
    let mut i: usize = 0;
    while i < digits.len()
        invariant
            2 <= radix <= 36,
            limit <= 0x1_0000_0000,
            i <= digits.len(),
            digits_end_from(digits@, radix as int, 0) == digits_end_from(
                digits@,
                radix as int,
                i as int,
            ),
            value == digits_value(digits@.subrange(0, i as int), radix as int),
            value <= limit,
        decreases digits.len() - i,
    {
        let rank = digit_of(digits[i]);
        if rank >= radix {
            return Err(NumberError::InvalidDigit);
        }
        proof {
            let before = digits@.subrange(0, i as int);
            assert(digits@.subrange(0, i + 1) =~= before.push(digits@[i as int]));
            lemma_digits_push(before, digits@[i as int], radix as int);
            assert(value * radix <= 0x1_0000_0000 * 36) by (nonlinear_arith)
                requires
                    value <= 0x1_0000_0000,
                    radix <= 36,
            ;
        }
        value = value * (radix as u64) + (rank as u64);
        if value > limit {
            proof {
                lemma_digits_end_bounds(digits@, radix as int, i + 1);
                lemma_digits_grow(
                    digits@,
                    radix as int,
                    i + 1,
                    digits_end_from(digits@, radix as int, 0),
                );
            }
            return Err(NumberError::TooLarge);
        }
        i += 1;
    }
    proof {
        assert(digits@.subrange(0, i as int) =~= digits@);
    }
    Ok(value)
}

/// Reads the characters of a run of decimal digits, without a sign, as an
/// unsigned 32-bit number.
pub fn parse_decimal_chars(s: &[char]) -> (r: Result<u32, NumberError>)
    ensures
        match r {
            Ok(v) => parse_decimal(s@, u32::MAX as int) == Ok::<int, NumberError>(v as int),
            Err(e) => parse_decimal(s@, u32::MAX as int) == Err::<int, NumberError>(e),
        },
{
    if s.len() == 0 {
        return Err(NumberError::Empty);
    }
    match read_digits(s, 10, 0xffff_ffff) {
        Ok(v) => Ok(v as u32),
        Err(e) => Err(e),
    }
}

/// Reads a number in the given radix that must lie between `min` and `max`.
fn read_radix(s: &[char], radix: u32, min: i64, max: i64) -> (r: Result<i64, NumberError>)
    requires
        2 <= radix <= 36,
        -0x1_0000_0000 <= min <= 0 <= max <= 0x1_0000_0000,
    ensures
        match r {
            Ok(v) => min <= v <= max && parse_radix(s@, radix as int, min as int, max as int)
                == Ok::<int, NumberError>(v as int),
            Err(e) => parse_radix(s@, radix as int, min as int, max as int) == Err::<
                int,
                NumberError,
            >(e),
        },
{
    if s.len() == 0 {
        return Err(NumberError::Empty);
    }
    let negative = min < 0 && s[0] == '-';
    let digits = if s[0] == '+' || negative {
        vstd::slice::slice_subrange(s, 1, s.len())
    } else {
        s
    };
    if digits.len() == 0 {
        return Err(NumberError::InvalidDigit);
    }
    let limit: u64 = if negative {
        (-min) as u64
    } else {
        max as u64
    };
    match read_digits(digits, radix, limit) {
        Ok(magnitude) => {
            if negative {
                Ok(-(magnitude as i64))
            } else {
                Ok(magnitude as i64)
            }
        },
        Err(NumberError::TooLarge) => {
            if negative {
                Err(NumberError::TooSmall)
            } else {
                Err(NumberError::TooLarge)
            }
        },
        Err(reason) => Err(reason),
    }
}

/// Reads a numeric literal that must lie between `min` and `max`.
fn read_literal(token: &[char], min: i64, max: i64) -> (r: Result<i64, NumberError>)
    requires
        -0x1_0000_0000 <= min <= 0 <= max <= 0x1_0000_0000,
    ensures
        match r {
            Ok(v) => min <= v <= max && parse_literal(token@, min as int, max as int) == Ok::<
                int,
                NumberError,
            >(v as int),
            Err(e) => parse_literal(token@, min as int, max as int) == Err::<int, NumberError>(e),
        },
{
    let stripped = strip_underscores(token);
    let s = stripped.as_slice();
    if s.len() >= 2 && s[0] == '0' && s[1] == 'x' {
        read_radix(vstd::slice::slice_subrange(s, 2, s.len()), 16, min, max)
    } else if s.len() >= 2 && s[0] == '0' && s[1] == 'b' {
        read_radix(vstd::slice::slice_subrange(s, 2, s.len()), 2, min, max)
    } else {
        read_radix(s, 10, min, max)
    }
}

/// Reads the characters of a numeric literal as an unsigned 32-bit number.
pub fn parse_u32_chars(token: &[char]) -> (r: Result<u32, NumberError>)
    ensures
        match r {
            Ok(v) => spec_parse_u32(token@) == Ok::<int, NumberError>(v as int),
            Err(e) => spec_parse_u32(token@) == Err::<int, NumberError>(e),
        },
{
    match read_literal(token, 0, 0xffff_ffff) {
        Ok(v) => Ok(v as u32),
        Err(e) => Err(e),
    }
}

/// Reads the characters of a numeric literal as a signed 32-bit number.
pub fn parse_i32_chars(token: &[char]) -> (r: Result<i32, NumberError>)
    ensures
        match r {
            Ok(v) => spec_parse_i32(token@) == Ok::<int, NumberError>(v as int),
            Err(e) => spec_parse_i32(token@) == Err::<int, NumberError>(e),
        },
{
    match read_literal(token, -0x8000_0000, 0x7fff_ffff) {
        Ok(v) => Ok(v as i32),
        Err(e) => Err(e),
    }
}

/// Reads a numeric literal as an unsigned 32-bit number: decimal, hexadecimal
/// after `0x` or binary after `0b`, with underscores allowed anywhere.
pub fn parse_u32(token: &str) -> (r: Result<u32, NumberError>)
    ensures
        match r {
            Ok(v) => spec_parse_u32(token@) == Ok::<int, NumberError>(v as int),
            Err(e) => spec_parse_u32(token@) == Err::<int, NumberError>(e),
        },
{
    let chars = chars_of(token);
    parse_u32_chars(chars.as_slice())
}

/// Reads a numeric literal as a signed 32-bit number: decimal, hexadecimal
/// after `0x` or binary after `0b`, with underscores allowed anywhere and a
/// sign allowed in front of the digits.
pub fn parse_i32(token: &str) -> (r: Result<i32, NumberError>)
    ensures
        match r {
            Ok(v) => spec_parse_i32(token@) == Ok::<int, NumberError>(v as int),
            Err(e) => spec_parse_i32(token@) == Err::<int, NumberError>(e),
        },
{
    let chars = chars_of(token);
    parse_i32_chars(chars.as_slice())
}

/// The character that stands for a digit: `0` to `9`, then `a` to `f`.
pub open spec fn digit_char(d: int) -> char {
    if d == 0 {
        '0'
    } else if d == 1 {
        '1'
    } else if d == 2 {
        '2'
    } else if d == 3 {
        '3'
    } else if d == 4 {
        '4'
    } else if d == 5 {
        '5'
    } else if d == 6 {
        '6'
    } else if d == 7 {
        '7'
    } else if d == 8 {
        '8'
    } else if d == 9 {
        '9'
    } else if d == 10 {
        'a'
    } else if d == 11 {
        'b'
    } else if d == 12 {
        'c'
    } else if d == 13 {
        'd'
    } else if d == 14 {
        'e'
    } else {
        'f'
    }
}

/// The digits of a number in a radix between 2 and 16, most significant
/// first, without leading zeros.
pub open spec fn numeral(n: nat, radix: nat) -> Seq<char>
    decreases n,
{
    if n < radix || radix < 2 {
        seq![digit_char(n as int)]
    } else {
        proof {
            assert(n / radix < n) by (nonlinear_arith)
                requires
                    n >= radix,
                    radix >= 2,
            ;
        }
        numeral(n / radix, radix).push(digit_char((n % radix) as int))
    }
}

/// The decimal digits of a number.
pub open spec fn decimal(n: nat) -> Seq<char> {
    numeral(n, 10)
}

/// Returns the character of a decimal digit.
fn decimal_digit(d: u64) -> (c: char)
    requires
        d < 10,
    ensures
        c == digit_char(d as int),
{
    if d == 0 {
        '0'
    } else if d == 1 {
        '1'
    } else if d == 2 {
        '2'
    } else if d == 3 {
        '3'
    } else if d == 4 {
        '4'
    } else if d == 5 {
        '5'
    } else if d == 6 {
        '6'
    } else if d == 7 {
        '7'
    } else if d == 8 {
        '8'
    } else {
        '9'
    }
}

/// Appends the decimal digits of a number to a string.
pub fn push_decimal(out: &mut String, n: u64)
    ensures
        final(out)@ == old(out)@ + decimal(n as nat),
    decreases n,
{
    if n >= 10 {
        push_decimal(out, n / 10);
    }
    out.push(decimal_digit(n % 10));
    proof {
        if n >= 10 {
            assert(final(out)@ =~= old(out)@ + decimal(n as nat));
        } else {
            assert(final(out)@ =~= old(out)@ + decimal(n as nat));
        }
    }
}

/// Returns the decimal digits of a number.
pub fn decimal_string(n: u64) -> (s: String)
    ensures
        s@ == decimal(n as nat),
{
    let mut s = String::new();
    push_decimal(&mut s, n);
    assert(s@ =~= decimal(n as nat));
    s
}

/// The character of a digit has that digit's value, and is no underscore.
pub proof fn lemma_digit_char(d: int)
    requires
        0 <= d < 16,
    ensures
        digit_rank(digit_char(d)) == d,
        digit_char(d) != '_',
        digit_char(d) != '+',
        digit_char(d) != '-',
        digit_char(d) != '\'',
        digit_char(d) != 'x',
        digit_char(d) == '0' <==> d == 0,
{
}

/// A text without underscores is itself when the underscores are dropped.
pub proof fn lemma_without_underscores_same(s: Seq<char>)
    requires
        forall|i: int| 0 <= i < s.len() ==> s[i] != '_',
    ensures
        without_underscores(s) == s,
    decreases s.len(),
{
    if s.len() > 0 {
        lemma_without_underscores_same(s.drop_last());
        assert(s.drop_last().push(s.last()) =~= s);
    }
}

/// The digits of a number spell that number: each is a digit of the radix,
/// together they have the number as their value, there is at least one, none
/// is an underscore, and the first is `0` only for the number zero, which is
/// `0` alone.
pub proof fn lemma_numeral(n: nat, radix: nat)
    requires
        2 <= radix <= 16,
    ensures
        numeral(n, radix).len() >= 1,
        all_digits(numeral(n, radix), radix as int),
        digits_value(numeral(n, radix), radix as int) == n,
        forall|i: int| 0 <= i < numeral(n, radix).len() ==> numeral(n, radix)[i] != '_',
        is_digit(numeral(n, radix)[0], radix as int),
        numeral(n, radix)[0] == '0' ==> n == 0 && numeral(n, radix).len() == 1,
    decreases n,
{
    if n < radix {
        lemma_digit_char(n as int);
        let s = seq![digit_char(n as int)];
        assert(s.drop_last() =~= Seq::<char>::empty());
        assert(numeral(n, radix) =~= s);
        assert(digits_value(s.drop_last(), radix as int) == 0);
    } else {
        let high = n / radix;
        let low = n % radix;
        assert(high < n && high >= 1 && n == high * radix + low && low < radix)
            by (nonlinear_arith)
            requires
                n >= radix,
                radix >= 2,
                high == n / radix,
                low == n % radix,
        ;
        lemma_numeral(high, radix);
        lemma_digit_char(low as int);
        let before = numeral(high, radix);
        let s = before.push(digit_char(low as int));
        assert(numeral(n, radix) =~= s);
        lemma_digits_push(before, digit_char(low as int), radix as int);
        assert(s[0] == before[0]);
        assert forall|i: int| 0 <= i < s.len() implies is_digit(
            #[trigger] s[i],
            radix as int,
        ) && s[i] != '_' by {
            if i < before.len() {
                assert(s[i] == before[i]);
            }
        }
    }
}

/// A number written out in decimal, in hexadecimal behind `0x` or in binary
/// behind `0b`, with `-` in front of the digits of a negative number.
pub open spec fn spelling(value: int, radix: nat) -> Seq<char> {
    let prefix = if radix == 16 {
        seq!['0', 'x']
    } else if radix == 2 {
        seq!['0', 'b']
    } else {
        Seq::<char>::empty()
    };
    let sign = if value < 0 {
        seq!['-']
    } else {
        Seq::<char>::empty()
    };
    let magnitude = if value < 0 {
        -value
    } else {
        value
    };
    prefix + sign + numeral(magnitude as nat, radix)
}

/// The first character of a text stays the first when the underscores are
/// dropped, unless it is an underscore.
pub proof fn lemma_without_underscores_first(s: Seq<char>)
    requires
        s.len() > 0,
        s[0] != '_',
    ensures
        without_underscores(s).len() > 0,
        without_underscores(s)[0] == s[0],
    decreases s.len(),
{
    if s.len() == 1 {
        assert(s.drop_last() =~= Seq::<char>::empty());
        assert(without_underscores(s.drop_last()) =~= Seq::<char>::empty());
    } else {
        lemma_without_underscores_first(s.drop_last());
    }
}

/// A token that spells a number reads as that number, whatever underscores it
/// holds besides: in decimal, in hexadecimal and in binary alike. A number
/// outside the range asked for is too large or too small.
pub proof fn lemma_spelling_reads_back(token: Seq<char>, value: int, radix: nat, min: int, max: int)
    requires
        radix == 2 || radix == 10 || radix == 16,
        min <= 0 <= max,
        value < 0 ==> min < 0,
        without_underscores(token) == spelling(value, radix),
    ensures
        parse_literal(token, min, max) == (if value > max {
            Err::<int, NumberError>(NumberError::TooLarge)
        } else if value < min {
            Err::<int, NumberError>(NumberError::TooSmall)
        } else {
            Ok::<int, NumberError>(value)
        }),
{
    let magnitude = (if value < 0 {
        -value
    } else {
        value
    }) as nat;
    let digits = numeral(magnitude, radix);
    lemma_numeral(magnitude, radix);
    lemma_digit_char(digit_rank(digits[0]));
    let sign = if value < 0 {
        seq!['-']
    } else {
        Seq::<char>::empty()
    };
    let body = sign + digits;
    let s = without_underscores(token);
    assert(body.len() >= 1);
    assert(value < 0 ==> body[0] == '-');
    assert(value >= 0 ==> body[0] == digits[0]);
    assert(value < 0 ==> body.subrange(1, body.len() as int) =~= digits);
    assert(value >= 0 ==> body =~= digits);
    assert(digits[0] != '+' && digits[0] != '-') by {
        assert(is_digit(digits[0], radix as int));
    }
    lemma_parse_all_digits(digits, radix as int, max);
    lemma_parse_all_digits(digits, radix as int, -min);
    if radix == 16 {
        assert(s =~= seq!['0', 'x'] + body);
        assert(s.subrange(2, s.len() as int) =~= body);
    } else if radix == 2 {
        assert(s =~= seq!['0', 'b'] + body);
        assert(s.subrange(2, s.len() as int) =~= body);
    } else {
        assert(s =~= body);
        if value >= 0 && s.len() >= 2 && s[0] == '0' {
            assert(false);
        }
    }
}

/// A number that was read lies in the range that was asked for.
pub proof fn lemma_parse_literal_range(token: Seq<char>, min: int, max: int)
    requires
        min <= 0 <= max,
    ensures
        parse_literal(token, min, max) matches Ok(value) ==> min <= value <= max,
{
    let s = without_underscores(token);
    let rest = s.subrange(2, s.len() as int);
    lemma_parse_radix_range(rest, 16, min, max);
    lemma_parse_radix_range(rest, 2, min, max);
    lemma_parse_radix_range(s, 10, min, max);
}

/// A number that was read in a radix lies in the range that was asked for.
pub proof fn lemma_parse_radix_range(s: Seq<char>, radix: int, min: int, max: int)
    requires
        min <= 0 <= max,
        radix >= 0,
    ensures
        parse_radix(s, radix, min, max) matches Ok(value) ==> min <= value <= max,
{
    if s.len() > 0 {
        lemma_digits_nonnegative(leading_digits(s, radix), radix);
        lemma_digits_nonnegative(leading_digits(s.subrange(1, s.len() as int), radix), radix);
    }
}

/// A number that was read from decimal digits lies between zero and the
/// largest that was asked for.
pub proof fn lemma_parse_decimal_range(s: Seq<char>, max: int)
    ensures
        parse_decimal(s, max) matches Ok(value) ==> 0 <= value <= max,
{
    lemma_digits_nonnegative(leading_digits(s, 10), 10);
}

} // verus!
