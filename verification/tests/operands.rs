use batpu_assembler::assembler_error::AssemblerError;
use batpu_assembler::condition::Condition;
use batpu_assembler::location::Location;
use batpu_assembler::operand::{
    get_condition, get_immediate, get_location, get_offset, get_register,
};

fn error(description: &str, line: u32) -> AssemblerError {
    AssemblerError::new_line(description.to_string(), line)
}

#[test]
fn every_register_reads_back() {
    for index in 0u8..=15 {
        let register = get_register(&format!("r{}", index), 1).unwrap();
        assert_eq!(register.register(), index);
    }
}

#[test]
fn register_with_leading_zeros() {
    assert_eq!(get_register("r007", 1).unwrap().register(), 7);
}

#[test]
fn register_out_of_range() {
    assert_eq!(
        get_register("r16", 3),
        Err(error("Register 16 out of range, expected 0-15", 3))
    );
    assert_eq!(
        get_register("r4294967295", 3),
        Err(error("Register 4294967295 out of range, expected 0-15", 3))
    );
}

#[test]
fn register_with_bad_digits() {
    assert_eq!(
        get_register("rX", 3),
        Err(error("Failed to parse register \"X\": invalid digit found in string", 3))
    );
    assert_eq!(
        get_register("r", 4),
        Err(error("Failed to parse register \"\": cannot parse integer from empty string", 4))
    );
    assert_eq!(
        get_register("r+5", 4),
        Err(error("Failed to parse register \"+5\": invalid digit found in string", 4))
    );
    assert_eq!(
        get_register("r4294967296", 4),
        Err(error(
            "Failed to parse register \"4294967296\": number too large to fit in target type",
            4
        ))
    );
}

#[test]
fn register_errors_differ() {
    let range = get_register("r16", 1).unwrap_err();
    let digits = get_register("rX", 1).unwrap_err();
    assert_ne!(range.description, digits.description);
}

#[test]
fn register_without_prefix() {
    assert_eq!(
        get_register("x5", 9),
        Err(error("Register \"x5\" must start with a lowercase 'r'", 9))
    );
    assert_eq!(
        get_register("R5", 9),
        Err(error("Register \"R5\" must start with a lowercase 'r'", 9))
    );
    assert_eq!(
        get_register("", 9),
        Err(error("Register \"\" must start with a lowercase 'r'", 9))
    );
}

#[test]
fn immediate_values() {
    assert_eq!(get_immediate("0", 1).unwrap().immediate(), 0);
    assert_eq!(get_immediate("255", 1).unwrap().immediate(), 255);
    assert_eq!(get_immediate("-1", 1).unwrap().immediate(), 255);
    assert_eq!(get_immediate("-128", 1).unwrap().immediate(), 128);
    assert_eq!(get_immediate("127", 1).unwrap().immediate(), 127);
    assert_eq!(get_immediate("0xfe", 1).unwrap().immediate(), 254);
    assert_eq!(get_immediate("0b1000_0001", 1).unwrap().immediate(), 129);
}

#[test]
fn immediate_spellings_agree() {
    for value in -128i32..=255 {
        let bits = if value < 0 { (value + 256) as u8 } else { value as u8 };
        let magnitude = value.unsigned_abs();
        let sign = if value < 0 { "-" } else { "" };
        let decimal = format!("{}{}", sign, magnitude);
        let hexadecimal = format!("0x{}{:x}", sign, magnitude);
        let binary = format!("0b{}{:b}", sign, magnitude);
        let separated = format!("0b{}_{:b}_", sign, magnitude);
        assert_eq!(get_immediate(&decimal, 1).unwrap().immediate(), bits);
        assert_eq!(get_immediate(&hexadecimal, 1).unwrap().immediate(), bits);
        assert_eq!(get_immediate(&binary, 1).unwrap().immediate(), bits);
        assert_eq!(get_immediate(&separated, 1).unwrap().immediate(), bits);
    }
}

#[test]
fn immediate_one_past_the_range() {
    assert_eq!(
        get_immediate("256", 2),
        Err(error("Immediate 256 out of range, expected -128-255", 2))
    );
    assert_eq!(
        get_immediate("-129", 2),
        Err(error("Immediate -129 out of range, expected -128-255", 2))
    );
    assert_eq!(
        get_immediate("0x100", 2),
        Err(error("Immediate 0x100 out of range, expected -128-255", 2))
    );
    assert_eq!(
        get_immediate("0b1_0000_0000", 2),
        Err(error("Immediate 0b1_0000_0000 out of range, expected -128-255", 2))
    );
}

#[test]
fn immediate_that_is_no_number() {
    assert_eq!(
        get_immediate("ten", 2),
        Err(error("Failed to parse immediate \"ten\": invalid digit found in string", 2))
    );
    assert_eq!(
        get_immediate("99999999999", 2),
        Err(error(
            "Failed to parse immediate \"99999999999\": number too large to fit in target type",
            2
        ))
    );
    assert_eq!(
        get_immediate("", 2),
        Err(error("Failed to parse immediate \"\": cannot parse integer from empty string", 2))
    );
}

#[test]
fn immediate_characters() {
    let table = " ABCDEFGHIJKLMNOPQRSTUVWXYZ.!?";
    assert_eq!(table.chars().count(), 30);
    for (index, c) in table.chars().enumerate() {
        let token = format!("'{}'", c);
        assert_eq!(get_immediate(&token, 1).unwrap().immediate(), index as u8);
    }
}

#[test]
fn immediate_character_errors() {
    assert_eq!(
        get_immediate("'a'", 5),
        Err(error(
            "Character \"a\" is not supported, you can only use ones in \" ABCDEFGHIJKLMNOPQRSTUVWXYZ.!?\"",
            5
        ))
    );
    assert_eq!(
        get_immediate("'A", 5),
        Err(error("Immediate \"'A\" must end with ''", 5))
    );
    assert_eq!(
        get_immediate("'AB'", 5),
        Err(error("Immediate \"AB\" must only contain a single character", 5))
    );
    assert_eq!(
        get_immediate("''", 5),
        Err(error("Immediate \"\" must only contain a single character", 5))
    );
    assert_eq!(
        get_immediate("'", 5),
        Err(error("Immediate \"\" must only contain a single character", 5))
    );
}

#[test]
fn offset_values() {
    for value in -8i32..=7 {
        assert_eq!(get_offset(&format!("{}", value), 1).unwrap().offset() as i32, value);
    }
    assert_eq!(get_offset("0x7", 1).unwrap().offset(), 7);
    assert_eq!(get_offset("0b-1000", 1).unwrap().offset(), -8);
}

#[test]
fn offset_errors() {
    assert_eq!(get_offset("8", 6), Err(error("Offset 8 out of range, expected -8-7", 6)));
    assert_eq!(get_offset("-9", 6), Err(error("Offset -9 out of range, expected -8-7", 6)));
    assert_eq!(
        get_offset("r1", 6),
        Err(error("Failed to parse offset \"r1\": invalid digit found in string", 6))
    );
}

#[test]
fn condition_keywords() {
    assert_eq!(get_condition("zero", 1), Ok(Condition::Zero));
    assert_eq!(get_condition("notzero", 1), Ok(Condition::NotZero));
    assert_eq!(get_condition("carry", 1), Ok(Condition::Carry));
    assert_eq!(get_condition("notcarry", 1), Ok(Condition::NotCarry));
}

#[test]
fn condition_errors() {
    assert_eq!(get_condition("Zero", 7), Err(error("Unknown condition: \"Zero\"", 7)));
    assert_eq!(get_condition("eq", 7), Err(error("Unknown condition: \"eq\"", 7)));
    assert_eq!(get_condition("", 7), Err(error("Unknown condition: \"\"", 7)));
}

#[test]
fn condition_codes() {
    assert_eq!(Condition::Zero.index(), 0);
    assert_eq!(Condition::NotZero.index(), 1);
    assert_eq!(Condition::Carry.index(), 2);
    assert_eq!(Condition::NotCarry.index(), 3);
}

#[test]
fn location_addresses() {
    match get_location("0", 1).unwrap() {
        Location::Address(address) => assert_eq!(address.address(), 0),
        other => panic!("{:?}", other),
    }
    match get_location("1023", 1).unwrap() {
        Location::Address(address) => assert_eq!(address.address(), 1023),
        other => panic!("{:?}", other),
    }
    match get_location("0x3_ff", 1).unwrap() {
        Location::Address(address) => assert_eq!(address.address(), 1023),
        other => panic!("{:?}", other),
    }
}

#[test]
fn location_address_out_of_range() {
    assert_eq!(
        get_location("1024", 8),
        Err(error("Address 1024 out of range, expected 0-1023", 8))
    );
    assert_eq!(
        get_location("0xffff", 8),
        Err(error("Address 65535 out of range, expected 0-1023", 8))
    );
}

#[test]
fn location_labels() {
    assert_eq!(get_location("loop", 1), Ok(Location::Label("loop".to_string())));
    assert_eq!(get_location(".end", 1), Ok(Location::Label(".end".to_string())));
    assert_eq!(get_location("12ab", 1), Ok(Location::Label("12ab".to_string())));
    assert_eq!(
        get_location("99999999999", 1),
        Ok(Location::Label("99999999999".to_string()))
    );
}

#[test]
fn location_distances() {
    assert_eq!(get_location("+0", 1), Ok(Location::Offset(0)));
    assert_eq!(get_location("-0", 1), Ok(Location::Offset(0)));
    assert_eq!(get_location("+1", 1), Ok(Location::Offset(1)));
    assert_eq!(get_location("-2", 1), Ok(Location::Offset(-2)));
    assert_eq!(get_location("-0x8", 1), Ok(Location::Offset(-8)));
    assert_eq!(get_location("+0b1_0000", 1), Ok(Location::Offset(16)));
    assert_eq!(get_location("+1023", 1), Ok(Location::Offset(1023)));
    assert_eq!(get_location("-5000", 1), Ok(Location::Offset(-5000)));
    assert_eq!(get_location("+4294967295", 1), Ok(Location::Offset(4294967295)));
    assert_eq!(get_location("-4294967295", 1), Ok(Location::Offset(-4294967295)));
    assert_eq!(get_location("++5", 1), Ok(Location::Offset(5)));
    assert_eq!(get_location("-+5", 1), Ok(Location::Offset(-5)));
}

#[test]
fn location_distance_errors() {
    assert_eq!(
        get_location("+4294967296", 2),
        Err(error(
            "Failed to parse address offset \"+4294967296\": number too large to fit in target type",
            2
        ))
    );
    assert_eq!(
        get_location("+x", 2),
        Err(error("Failed to parse address offset \"+x\": invalid digit found in string", 2))
    );
    assert_eq!(
        get_location("--5", 2),
        Err(error("Failed to parse address offset \"--5\": invalid digit found in string", 2))
    );
    assert_eq!(
        get_location("-", 2),
        Err(error(
            "Failed to parse address offset \"-\": cannot parse integer from empty string",
            2
        ))
    );
}
