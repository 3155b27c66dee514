use batpu_assembler::number::{decimal_string, parse_i32, parse_u32, NumberError};

#[test]
fn decimal_literals() {
    assert_eq!(parse_u32("0"), Ok(0));
    assert_eq!(parse_u32("254"), Ok(254));
    assert_eq!(parse_u32("007"), Ok(7));
    assert_eq!(parse_i32("-128"), Ok(-128));
    assert_eq!(parse_i32("+15"), Ok(15));
    assert_eq!(parse_u32("+15"), Ok(15));
}

#[test]
fn hexadecimal_literals() {
    assert_eq!(parse_u32("0xff"), Ok(255));
    assert_eq!(parse_u32("0xFF"), Ok(255));
    assert_eq!(parse_u32("0x3fF"), Ok(1023));
    assert_eq!(parse_i32("0x-80"), Ok(-128));
    assert_eq!(parse_i32("0x10"), Ok(16));
}

#[test]
fn binary_literals() {
    assert_eq!(parse_u32("0b0"), Ok(0));
    assert_eq!(parse_u32("0b1111_1110"), Ok(254));
    assert_eq!(parse_i32("0b-1000"), Ok(-8));
}

#[test]
fn underscores_are_dropped_anywhere() {
    assert_eq!(parse_u32("1_000"), Ok(1000));
    assert_eq!(parse_u32("_1__0_"), Ok(10));
    assert_eq!(parse_u32("0_x_1_0"), Ok(16));
    assert_eq!(parse_i32("-_5"), Ok(-5));
}

#[test]
fn the_three_radices_agree() {
    for value in 0u32..=300 {
        assert_eq!(parse_u32(&format!("{}", value)), Ok(value));
        assert_eq!(parse_u32(&format!("0x{:x}", value)), Ok(value));
        assert_eq!(parse_u32(&format!("0x{:X}", value)), Ok(value));
        assert_eq!(parse_u32(&format!("0b{:b}", value)), Ok(value));
    }
}

#[test]
fn empty_literals() {
    assert_eq!(parse_u32(""), Err(NumberError::Empty));
    assert_eq!(parse_u32("_"), Err(NumberError::Empty));
    assert_eq!(parse_u32("0x"), Err(NumberError::Empty));
    assert_eq!(parse_i32("0b"), Err(NumberError::Empty));
}

#[test]
fn invalid_digits() {
    assert_eq!(parse_u32("12a"), Err(NumberError::InvalidDigit));
    assert_eq!(parse_u32("0b102"), Err(NumberError::InvalidDigit));
    assert_eq!(parse_u32("0xg"), Err(NumberError::InvalidDigit));
    assert_eq!(parse_u32("-1"), Err(NumberError::InvalidDigit));
    assert_eq!(parse_u32("+"), Err(NumberError::InvalidDigit));
    assert_eq!(parse_i32("-"), Err(NumberError::InvalidDigit));
    assert_eq!(parse_i32("--1"), Err(NumberError::InvalidDigit));
    assert_eq!(parse_i32("-0x5"), Err(NumberError::InvalidDigit));
    assert_eq!(parse_u32("1 2"), Err(NumberError::InvalidDigit));
    assert_eq!(parse_u32("0X10"), Err(NumberError::InvalidDigit));
    assert_eq!(parse_u32("loop"), Err(NumberError::InvalidDigit));
}

#[test]
fn limits_of_the_types() {
    assert_eq!(parse_u32("4294967295"), Ok(u32::MAX));
    assert_eq!(parse_u32("4294967296"), Err(NumberError::TooLarge));
    assert_eq!(parse_u32("0xffffffff"), Ok(u32::MAX));
    assert_eq!(parse_u32("0x100000000"), Err(NumberError::TooLarge));
    assert_eq!(parse_i32("2147483647"), Ok(i32::MAX));
    assert_eq!(parse_i32("2147483648"), Err(NumberError::TooLarge));
    assert_eq!(parse_i32("-2147483648"), Ok(i32::MIN));
    assert_eq!(parse_i32("-2147483649"), Err(NumberError::TooSmall));
    assert_eq!(
        parse_u32("99999999999999999999999999999999999999999999"),
        Err(NumberError::TooLarge)
    );
    assert_eq!(
        parse_i32("-99999999999999999999999999999999999999999999"),
        Err(NumberError::TooSmall)
    );
}

#[test]
fn number_error_messages() {
    assert_eq!(NumberError::Empty.message(), "cannot parse integer from empty string");
    assert_eq!(NumberError::InvalidDigit.message(), "invalid digit found in string");
    assert_eq!(NumberError::TooLarge.message(), "number too large to fit in target type");
    assert_eq!(NumberError::TooSmall.message(), "number too small to fit in target type");
}

#[test]
fn decimal_strings() {
    assert_eq!(decimal_string(0), "0");
    assert_eq!(decimal_string(9), "9");
    assert_eq!(decimal_string(10), "10");
    assert_eq!(decimal_string(1024), "1024");
    assert_eq!(decimal_string(u64::MAX), "18446744073709551615");
}

#[test]
fn what_is_wrong_first_decides() {
    assert_eq!(parse_u32("99999999999x"), Err(NumberError::TooLarge));
    assert_eq!(parse_u32("4294967295x"), Err(NumberError::InvalidDigit));
    assert_eq!(parse_u32("x99999999999"), Err(NumberError::InvalidDigit));
    assert_eq!(parse_i32("4294967295x"), Err(NumberError::TooLarge));
    assert_eq!(parse_i32("-99999999999x"), Err(NumberError::TooSmall));
    assert_eq!(parse_i32("-2147483648x"), Err(NumberError::InvalidDigit));
    assert_eq!(parse_u32("0x100000000g"), Err(NumberError::TooLarge));
    assert_eq!(parse_u32("0xffffffffg"), Err(NumberError::InvalidDigit));
}
