use batpu_assembler::assembler_error::AssemblerError;
use batpu_assembler::condition::Condition;
use batpu_assembler::decode::{check_arguments, decode, join_with_and, Mnemonic, Shape};
use batpu_assembler::immediate::Immediate;
use batpu_assembler::instruction::Instruction;
use batpu_assembler::location::Location;
use batpu_assembler::offset::Offset;
use batpu_assembler::register::Register;

fn reg(index: u32) -> Register {
    Register::new(index).unwrap()
}

fn read(statement: &str) -> Result<Instruction, AssemblerError> {
    let mut tokens = statement.split_whitespace().map(|t| t.to_string());
    let name = tokens.next().unwrap();
    let operands: Vec<String> = tokens.collect();
    decode(&name, &operands, 1)
}

fn failure(statement: &str) -> String {
    let error = read(statement).unwrap_err();
    assert_eq!(error.line, Some(1));
    error.description
}

#[test]
fn instructions_without_operands() {
    assert_eq!(read("nop"), Ok(Instruction::NoOperation));
    assert_eq!(read("hlt"), Ok(Instruction::Halt));
    assert_eq!(read("ret"), Ok(Instruction::Return));
}

#[test]
fn instructions_on_three_registers() {
    assert_eq!(read("add r1 r2 r3"), Ok(Instruction::Addition(reg(1), reg(2), reg(3))));
    assert_eq!(read("sub r4 r5 r6"), Ok(Instruction::Subtraction(reg(4), reg(5), reg(6))));
    assert_eq!(read("nor r7 r8 r9"), Ok(Instruction::BitwiseNOR(reg(7), reg(8), reg(9))));
    assert_eq!(read("and r10 r11 r12"), Ok(Instruction::BitwiseAND(reg(10), reg(11), reg(12))));
    assert_eq!(read("xor r13 r14 r15"), Ok(Instruction::BitwiseXOR(reg(13), reg(14), reg(15))));
}

#[test]
fn instructions_on_two_operands() {
    assert_eq!(read("rsh r1 r2"), Ok(Instruction::RightShift(reg(1), reg(2))));
    assert_eq!(
        read("ldi r3 -2"),
        Ok(Instruction::LoadImmediate(reg(3), Immediate::new(254)))
    );
    assert_eq!(
        read("adi r3 'A'"),
        Ok(Instruction::AddImmediate(reg(3), Immediate::new(1)))
    );
}

#[test]
fn instructions_with_a_location() {
    assert_eq!(read("jmp start"), Ok(Instruction::Jump(Location::Label("start".to_string()))));
    assert_eq!(
        read("cal 0x10"),
        Ok(Instruction::Call(Location::Address(
            batpu_assembler::address::Address::new(16).unwrap()
        )))
    );
    assert_eq!(
        read("brh notcarry -2"),
        Ok(Instruction::Branch(Condition::NotCarry, Location::Offset(-2)))
    );
}

#[test]
fn loads_and_stores() {
    assert_eq!(
        read("lod r1 r2 -8"),
        Ok(Instruction::MemoryLoad(reg(1), reg(2), Offset::new(-8).unwrap()))
    );
    assert_eq!(
        read("str r1 r2 7"),
        Ok(Instruction::MemoryStore(reg(1), reg(2), Offset::new(7).unwrap()))
    );
}

#[test]
fn shorthand_mnemonics() {
    assert_eq!(read("cmp r1 r2"), Ok(Instruction::Subtraction(reg(1), reg(2), reg(0))));
    assert_eq!(read("mov r1 r2"), Ok(Instruction::Addition(reg(1), reg(0), reg(2))));
    assert_eq!(read("lsh r3 r4"), Ok(Instruction::Addition(reg(3), reg(3), reg(4))));
    assert_eq!(read("inc r5"), Ok(Instruction::AddImmediate(reg(5), Immediate::new(1))));
    assert_eq!(read("dec r5"), Ok(Instruction::AddImmediate(reg(5), Immediate::new(255))));
    assert_eq!(read("not r6 r7"), Ok(Instruction::BitwiseNOR(reg(6), reg(0), reg(7))));
    assert_eq!(read("neg r6 r7"), Ok(Instruction::Subtraction(reg(0), reg(6), reg(7))));
}

#[test]
fn shorthand_is_the_same_as_the_long_form() {
    for a in 0..16 {
        for b in 0..16 {
            assert_eq!(read(&format!("cmp r{} r{}", a, b)), read(&format!("sub r{} r{} r0", a, b)));
            assert_eq!(read(&format!("mov r{} r{}", a, b)), read(&format!("add r{} r0 r{}", a, b)));
            assert_eq!(
                read(&format!("lsh r{} r{}", a, b)),
                read(&format!("add r{} r{} r{}", a, a, b))
            );
            assert_eq!(read(&format!("not r{} r{}", a, b)), read(&format!("nor r{} r0 r{}", a, b)));
            assert_eq!(read(&format!("neg r{} r{}", a, b)), read(&format!("sub r0 r{} r{}", a, b)));
        }
        assert_eq!(read(&format!("inc r{}", a)), read(&format!("adi r{} 1", a)));
        assert_eq!(read(&format!("dec r{}", a)), read(&format!("adi r{} -1", a)));
    }
    assert_eq!(read("cmp r16 r2"), read("sub r16 r2 r0"));
    assert_eq!(read("mov r1 x"), read("add r1 r0 x"));
}

#[test]
fn unknown_mnemonic() {
    assert_eq!(failure("jump r1"), "Unknown opcode: jump");
    assert_eq!(failure("NOP"), "Unknown opcode: NOP");
    assert_eq!(failure("add,"), "Unknown opcode: add,");
}

#[test]
fn wrong_number_of_operands() {
    assert_eq!(failure("nop r1"), "Expected no arguments, got 1 instead");
    assert_eq!(failure("add r1 r2"), "Expected RegA, RegB and RegC (3 arguments), got 2 instead");
    assert_eq!(failure("add"), "Expected RegA, RegB and RegC (3 arguments), got 0 instead");
    assert_eq!(failure("rsh r1"), "Expected RegA and RegC (2 arguments), got 1 instead");
    assert_eq!(failure("cmp r1 r2 r3"), "Expected RegA and RegB (2 arguments), got 3 instead");
    assert_eq!(failure("inc"), "Expected RegA (1 argument), got 0 instead");
    assert_eq!(failure("ldi r1"), "Expected RegA and Immediate (2 arguments), got 1 instead");
    assert_eq!(failure("jmp"), "Expected Label/Address (1 argument), got 0 instead");
    assert_eq!(
        failure("brh zero"),
        "Expected Condition and Label/Address (2 arguments), got 1 instead"
    );
    assert_eq!(
        failure("lod r1 r2 3 4 5 6 7 8 9 10 11 12"),
        "Expected RegA, RegB and Offset (3 arguments), got 12 instead"
    );
}

#[test]
fn first_bad_operand_is_reported() {
    assert_eq!(failure("add r16 rX r3"), "Register 16 out of range, expected 0-15");
    assert_eq!(
        failure("add r1 rX r16"),
        "Failed to parse register \"X\": invalid digit found in string"
    );
    assert_eq!(failure("ldi r1 300"), "Immediate 300 out of range, expected -128-255");
    assert_eq!(failure("brh maybe 1024"), "Unknown condition: \"maybe\"");
    assert_eq!(failure("brh zero 1024"), "Address 1024 out of range, expected 0-1023");
    assert_eq!(failure("str r1 r2 8"), "Offset 8 out of range, expected -8-7");
}

#[test]
fn error_carries_the_line() {
    let error = decode("bad", &Vec::new(), 42).unwrap_err();
    assert_eq!(error, AssemblerError::new_line("Unknown opcode: bad".to_string(), 42));
}

#[test]
fn names_of_mnemonics() {
    assert_eq!(Mnemonic::from_name("cmp"), Some(Mnemonic::Compare));
    assert_eq!(Mnemonic::from_name("str"), Some(Mnemonic::Str));
    assert_eq!(Mnemonic::from_name("Str"), None);
    assert_eq!(Mnemonic::from_name(""), None);
    assert_eq!(Mnemonic::Compare.operands(), Shape::TwoSources);
    assert_eq!(Mnemonic::Brh.operands(), Shape::ConditionAndTarget);
    assert_eq!(Shape::RegistersAndOffset.operand_names(), vec!["RegA", "RegB", "Offset"]);
    assert_eq!(Shape::Nothing.operand_names(), Vec::<&str>::new());
}

#[test]
fn lists_in_english() {
    assert_eq!(join_with_and(&vec![]), "");
    assert_eq!(join_with_and(&vec!["one"]), "one");
    assert_eq!(join_with_and(&vec!["one", "two"]), "one and two");
    assert_eq!(join_with_and(&vec!["one", "two", "three"]), "one, two and three");
    assert_eq!(join_with_and(&vec!["a", "b", "c", "d"]), "a, b, c and d");
}

#[test]
fn counting_operands() {
    assert_eq!(check_arguments(0, &vec![], 3), Ok(()));
    assert_eq!(check_arguments(2, &vec!["Name", "Value"], 3), Ok(()));
    assert_eq!(
        check_arguments(1, &vec!["Name", "Value"], 3),
        Err(AssemblerError::new_line(
            "Expected Name and Value (2 arguments), got 1 instead".to_string(),
            3
        ))
    );
}
