use batpu_assembler::address::Address;
use batpu_assembler::assembler_error::AssemblerError;
use batpu_assembler::condition::Condition;
use batpu_assembler::immediate::Immediate;
use batpu_assembler::instruction::Instruction;
use batpu_assembler::labels::Labels;
use batpu_assembler::location::Location;
use batpu_assembler::offset::Offset;
use batpu_assembler::register::Register;
use std::collections::HashMap;

fn reg(index: u32) -> Register {
    Register::new(index).unwrap()
}

fn off(value: i32) -> Offset {
    Offset::new(value).unwrap()
}

fn at(value: u32) -> Location {
    Location::Address(Address::new(value).unwrap())
}

fn word(instruction: Instruction) -> u16 {
    instruction.binary(0, &Labels::new()).unwrap()
}

#[test]
fn opcodes() {
    let r = reg(0);
    let i = Immediate::new(0);
    let all = vec![
        Instruction::NoOperation,
        Instruction::Halt,
        Instruction::Addition(r, r, r),
        Instruction::Subtraction(r, r, r),
        Instruction::BitwiseNOR(r, r, r),
        Instruction::BitwiseAND(r, r, r),
        Instruction::BitwiseXOR(r, r, r),
        Instruction::RightShift(r, r),
        Instruction::LoadImmediate(r, i),
        Instruction::AddImmediate(r, i),
        Instruction::Jump(at(0)),
        Instruction::Branch(Condition::Zero, at(0)),
        Instruction::Call(at(0)),
        Instruction::Return,
        Instruction::MemoryLoad(r, r, off(0)),
        Instruction::MemoryStore(r, r, off(0)),
    ];
    for (opcode, instruction) in all.into_iter().enumerate() {
        assert_eq!(instruction.index() as usize, opcode);
        assert_eq!(word(instruction), (opcode as u16) << 12);
    }
}

#[test]
fn nop_and_hlt_words() {
    assert_eq!(word(Instruction::NoOperation), 0b0000_0000_0000_0000);
    assert_eq!(word(Instruction::Halt), 0b0001_0000_0000_0000);
    assert_eq!(word(Instruction::Return), 0b1101_0000_0000_0000);
}

#[test]
fn register_fields() {
    assert_eq!(word(Instruction::Addition(reg(3), reg(15), reg(7))), 0b0010_0011_1111_0111);
    assert_eq!(word(Instruction::Subtraction(reg(1), reg(2), reg(0))), 0b0011_0001_0010_0000);
    assert_eq!(word(Instruction::BitwiseNOR(reg(15), reg(0), reg(1))), 0b0100_1111_0000_0001);
    assert_eq!(word(Instruction::BitwiseAND(reg(8), reg(4), reg(2))), 0b0101_1000_0100_0010);
    assert_eq!(word(Instruction::BitwiseXOR(reg(15), reg(15), reg(15))), 0b0110_1111_1111_1111);
    assert_eq!(word(Instruction::RightShift(reg(9), reg(6))), 0b0111_1001_0000_0110);
}

#[test]
fn immediate_fields() {
    assert_eq!(
        word(Instruction::LoadImmediate(reg(14), Immediate::new(174))),
        0b1000_1110_1010_1110
    );
    assert_eq!(
        word(Instruction::AddImmediate(reg(1), Immediate::new_signed(-1).unwrap())),
        0b1001_0001_1111_1111
    );
    assert_eq!(
        word(Instruction::AddImmediate(reg(1), Immediate::new_signed(-128).unwrap())),
        0b1001_0001_1000_0000
    );
}

#[test]
fn address_fields() {
    assert_eq!(word(Instruction::Jump(at(984))), 0b1010_0011_1101_1000);
    assert_eq!(word(Instruction::Call(at(1023))), 0b1100_0011_1111_1111);
    assert_eq!(word(Instruction::Branch(Condition::Zero, at(1))), 0b1011_0000_0000_0001);
    assert_eq!(word(Instruction::Branch(Condition::NotZero, at(1))), 0b1011_0100_0000_0001);
    assert_eq!(word(Instruction::Branch(Condition::Carry, at(523))), 0b1011_1010_0000_1011);
    assert_eq!(word(Instruction::Branch(Condition::NotCarry, at(10))), 0b1011_1100_0000_1010);
}

#[test]
fn offset_fields_are_twos_complement() {
    assert_eq!(word(Instruction::MemoryLoad(reg(5), reg(9), off(-7))), 0b1110_0101_1001_1001);
    assert_eq!(word(Instruction::MemoryLoad(reg(5), reg(9), off(-1))), 0b1110_0101_1001_1111);
    assert_eq!(word(Instruction::MemoryStore(reg(5), reg(9), off(-8))), 0b1111_0101_1001_1000);
    assert_eq!(word(Instruction::MemoryStore(reg(5), reg(9), off(7))), 0b1111_0101_1001_0111);
    assert_eq!(word(Instruction::MemoryStore(reg(5), reg(9), off(0))), 0b1111_0101_1001_0000);
}

#[test]
fn labels_are_looked_up() {
    let mut labels = Labels::new();
    assert!(labels.define("label".to_string(), 10));
    assert!(labels.define("end".to_string(), 1024));
    let branch = Instruction::Branch(Condition::NotCarry, Location::Label("label".to_string()));
    assert_eq!(branch.binary(1020, &labels), Ok(0b1011_1100_0000_1010));
    let jump = Instruction::Jump(Location::Label("label".to_string()));
    assert_eq!(jump.binary(0, &labels), jump.binary(1000, &labels));
    let wrapped = Instruction::Jump(Location::Label("end".to_string()));
    assert_eq!(wrapped.binary(0, &labels), Ok(0b1010_0000_0000_0000));
}

#[test]
fn unknown_label_is_an_error() {
    let labels = Labels::new();
    let jump = Instruction::Jump(Location::Label("nowhere".to_string()));
    assert_eq!(
        jump.binary(3, &labels),
        Err(AssemblerError::new("Unknown label \"nowhere\"".to_string()))
    );
    let call = Instruction::Call(Location::Label("".to_string()));
    assert_eq!(
        call.binary(3, &labels),
        Err(AssemblerError::new("Unknown label \"\"".to_string()))
    );
}

#[test]
fn distances_count_from_the_instruction() {
    let labels = Labels::new();
    let back = Instruction::Branch(Condition::NotZero, Location::Offset(-5));
    assert_eq!(back.binary(1020, &labels), Ok(0b1011_0111_1111_0111));
    let forward = Instruction::Jump(Location::Offset(7));
    assert_eq!(forward.binary(100, &labels), Ok(0b1010_0000_0110_1011));
    let here = Instruction::Jump(Location::Offset(0));
    assert_eq!(here.binary(5, &labels), Ok(0b1010_0000_0000_0101));
}

#[test]
fn distances_wrap_around_the_program_space() {
    let labels = Labels::new();
    let back = Instruction::Jump(Location::Offset(-2));
    assert_eq!(back.binary(0, &labels), Ok(0b1010_0011_1111_1110));
    assert_eq!(back.binary(1, &labels), Ok(0b1010_0011_1111_1111));
    let forward = Instruction::Call(Location::Offset(7));
    assert_eq!(forward.binary(1020, &labels), Ok(0b1100_0000_0000_0011));
    assert_eq!(forward.binary(1024 + 5, &labels), Ok(0b1100_0000_0000_1100));
    assert_eq!(forward.binary(usize::MAX, &labels), Ok(0b1100_0000_0000_0110));
}

#[test]
fn get_address_of_each_kind() {
    let mut labels = Labels::new();
    assert!(labels.define("x".to_string(), 77));
    assert_eq!(at(12).get_address(5, &labels), Ok(12));
    assert_eq!(Location::Label("x".to_string()).get_address(5, &labels), Ok(77));
    assert_eq!(Location::Offset(-8).get_address(5, &labels), Ok(1021));
    assert_eq!(Location::Offset(3).get_address(5, &labels), Ok(8));
    assert_eq!(
        Location::Label("y".to_string()).get_address(5, &labels),
        Err(AssemblerError::new("Unknown label \"y\"".to_string()))
    );
}

#[test]
fn label_table_keeps_the_first_definition() {
    let mut labels = Labels::new();
    assert_eq!(labels.get("a"), None);
    assert!(!labels.contains("a"));
    assert!(labels.define("a".to_string(), 1));
    assert!(!labels.define("a".to_string(), 2));
    assert_eq!(labels.get("a"), Some(1));
    assert!(labels.contains("a"));
}

fn outside_register(register: &Register) -> batpu_assembly::components::register::Register {
    batpu_assembly::components::register::Register(
        batpu_assembly::components::register::RegRepr::new(register.register()).unwrap(),
    )
}

fn outside_location(location: &Location) -> batpu_assembly::components::location::Location {
    match location {
        Location::Address(address) => batpu_assembly::components::location::Location::Address(
            batpu_assembly::components::address::Address(
                batpu_assembly::components::address::AddrRepr::new(address.address()).unwrap(),
            ),
        ),
        Location::Offset(offset) => {
            batpu_assembly::components::location::Location::Offset(*offset as i32)
        }
        Location::Label(name) => {
            batpu_assembly::components::location::Location::Label(name.clone())
        }
    }
}

fn outside_word(instruction: &Instruction, address: u16) -> u16 {
    let outside = match instruction {
        Instruction::Addition(a, b, c) => batpu_assembly::instruction::Instruction::Addition(
            outside_register(a),
            outside_register(b),
            outside_register(c),
        ),
        Instruction::BitwiseXOR(a, b, c) => batpu_assembly::instruction::Instruction::BitwiseXOR(
            outside_register(a),
            outside_register(b),
            outside_register(c),
        ),
        Instruction::RightShift(a, c) => batpu_assembly::instruction::Instruction::RightShift(
            outside_register(a),
            outside_register(c),
        ),
        Instruction::LoadImmediate(a, i) => {
            batpu_assembly::instruction::Instruction::LoadImmediate(
                outside_register(a),
                batpu_assembly::components::immediate::Immediate(i.immediate()),
            )
        }
        Instruction::Jump(l) => batpu_assembly::instruction::Instruction::Jump(outside_location(l)),
        Instruction::Call(l) => batpu_assembly::instruction::Instruction::Call(outside_location(l)),
        Instruction::Branch(c, l) => batpu_assembly::instruction::Instruction::Branch(
            match c {
                Condition::Zero => batpu_assembly::components::condition::Condition::Zero,
                Condition::NotZero => batpu_assembly::components::condition::Condition::NotZero,
                Condition::Carry => batpu_assembly::components::condition::Condition::Carry,
                Condition::NotCarry => batpu_assembly::components::condition::Condition::NotCarry,
            },
            outside_location(l),
        ),
        Instruction::Halt => batpu_assembly::instruction::Instruction::Halt,
        _ => batpu_assembly::instruction::Instruction::NoOperation,
    };
    let here = batpu_assembly::components::address::Address(
        batpu_assembly::components::address::AddrRepr::new(address).unwrap(),
    );
    let mut labels = HashMap::new();
    labels.insert(
        "label".to_string(),
        batpu_assembly::components::address::Address(
            batpu_assembly::components::address::AddrRepr::new(10).unwrap(),
        ),
    );
    outside.to_binary(here, &labels).unwrap()
}

#[test]
fn words_agree_with_batpu_assembly() {
    let mut labels = Labels::new();
    assert!(labels.define("label".to_string(), 10));
    let mut instructions = vec![Instruction::NoOperation, Instruction::Halt];
    for a in 0..16 {
        for b in 0..16 {
            instructions.push(Instruction::Addition(reg(a), reg(b), reg(15 - a)));
            instructions.push(Instruction::BitwiseXOR(reg(b), reg(a), reg(a)));
            instructions.push(Instruction::RightShift(reg(a), reg(b)));
            instructions.push(Instruction::LoadImmediate(reg(a), Immediate::new((b * 17) as u8)));
        }
    }
    for target in [0u32, 1, 10, 511, 512, 984, 1023] {
        instructions.push(Instruction::Jump(at(target)));
        instructions.push(Instruction::Call(at(target)));
        instructions.push(Instruction::Branch(Condition::Zero, at(target)));
        instructions.push(Instruction::Branch(Condition::NotZero, at(target)));
        instructions.push(Instruction::Branch(Condition::Carry, at(target)));
        instructions.push(Instruction::Branch(Condition::NotCarry, at(target)));
    }
    instructions.push(Instruction::Jump(Location::Label("label".to_string())));
    for instruction in &instructions {
        for address in [0u16, 1, 7, 8, 500, 1016, 1023] {
            assert_eq!(
                instruction.binary(address as usize, &labels),
                Ok(outside_word(instruction, address))
            );
        }
    }
}

#[test]
fn distances_agree_with_batpu_assembly() {
    let labels = Labels::new();
    let mut distances: Vec<i64> = (-1100..=1100).collect();
    distances.extend([i32::MIN as i64, i32::MAX as i64, -65536, 65535, 1 << 20, -(1 << 20) - 3]);
    for distance in distances {
        let jump = Instruction::Jump(Location::Offset(distance));
        for address in [0u16, 1, 2, 7, 8, 500, 511, 512, 1000, 1016, 1022, 1023] {
            assert_eq!(jump.binary(address as usize, &labels), Ok(outside_word(&jump, address)));
        }
    }
}

#[test]
fn far_distances_wrap_too() {
    let labels = Labels::new();
    let far = Instruction::Jump(Location::Offset(1024 * 1024 + 3));
    assert_eq!(far.binary(10, &labels), Ok(0b1010_0000_0000_1101));
    let back = Instruction::Jump(Location::Offset(-4294967295));
    assert_eq!(back.binary(0, &labels), Ok(0b1010_0000_0000_0001));
    let least = Instruction::Jump(Location::Offset(i64::MIN));
    assert_eq!(least.binary(5, &labels), Ok(0b1010_0000_0000_0101));
    let most = Instruction::Jump(Location::Offset(i64::MAX));
    assert_eq!(most.binary(5, &labels), Ok(0b1010_0000_0000_0100));
}
