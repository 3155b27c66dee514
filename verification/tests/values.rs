use batpu_assembler::address::{Address, PROGRAM_SPACE};
use batpu_assembler::assembler::Assembler;
use batpu_assembler::assembler_config::AssemblerConfig;
use batpu_assembler::defines::Defines;
use batpu_assembler::immediate::Immediate;
use batpu_assembler::offset::Offset;
use batpu_assembler::register::Register;

fn words(source: &str) -> Vec<u16> {
    let mut assembler = Assembler::new(AssemblerConfig::default());
    assert_eq!(assembler.parse(source), Ok(()));
    assembler.assemble().unwrap()
}

#[test]
fn registers_are_sixteen() {
    for index in 0..16 {
        assert_eq!(Register::new(index).unwrap().register() as u32, index);
    }
    assert_eq!(Register::new(16), None);
    assert_eq!(Register::new(u32::MAX), None);
    assert_eq!(Register::zero(), Register::new(0).unwrap());
}

#[test]
fn immediates_are_eight_bits() {
    assert_eq!(Immediate::new(0).immediate(), 0);
    assert_eq!(Immediate::new(255).immediate(), 255);
    assert_eq!(Immediate::new_signed(255).unwrap().immediate(), 255);
    assert_eq!(Immediate::new_signed(0).unwrap().immediate(), 0);
    assert_eq!(Immediate::new_signed(-1).unwrap().immediate(), 255);
    assert_eq!(Immediate::new_signed(-128).unwrap().immediate(), 128);
    assert_eq!(Immediate::new_signed(-129), None);
    assert_eq!(Immediate::new_signed(256), None);
    assert_eq!(Immediate::new_signed(i32::MIN), None);
    assert_eq!(Immediate::new_signed(i32::MAX), None);
    assert_eq!(Immediate::new_signed(-2), Some(Immediate::new(254)));
}

#[test]
fn offsets_are_four_bits() {
    for value in -8..=7 {
        assert_eq!(Offset::new(value).unwrap().offset() as i32, value);
    }
    assert_eq!(Offset::new(8), None);
    assert_eq!(Offset::new(-9), None);
    assert_eq!(Offset::new(i32::MIN), None);
}

#[test]
fn addresses_lie_in_the_program_space() {
    assert_eq!(PROGRAM_SPACE, 1024);
    assert_eq!(Address::new(0).unwrap().address(), 0);
    assert_eq!(Address::new(1023).unwrap().address(), 1023);
    assert_eq!(Address::new(1024), None);
    assert_eq!(Address::new(u32::MAX), None);
}

#[test]
fn define_table_keeps_the_first_text() {
    let mut defines = Defines::new();
    assert!(!defines.contains("a"));
    assert_eq!(defines.get("a"), None);
    assert!(defines.define("a".to_string(), "1".to_string()));
    assert!(!defines.define("a".to_string(), "2".to_string()));
    assert_eq!(defines.get("a"), Some(&"1".to_string()));
    assert!(defines.contains("a"));
    assert!(!defines.contains("A"));
}

#[test]
fn port_table() {
    let ports = Defines::ports();
    assert_eq!(ports.get("SCR_PIX_X"), Some(&"240".to_string()));
    assert_eq!(ports.get("SCR_GET_PIX"), Some(&"244".to_string()));
    assert_eq!(ports.get("CHAR_DISP_PUSH"), Some(&"247".to_string()));
    assert_eq!(ports.get("NUM_DISP_UNSIGNED"), Some(&"253".to_string()));
    assert_eq!(ports.get("RNG"), Some(&"254".to_string()));
    assert_eq!(ports.get("CONTROLLER"), Some(&"255".to_string()));
    assert_eq!(ports.get("PORT"), None);
}

#[test]
fn shorthand_makes_the_same_word() {
    assert_eq!(words("cmp r1 r2"), words("sub r1 r2 r0"));
    assert_eq!(words("cmp r1 r2"), vec![0x3120]);
    assert_eq!(words("mov r1 r2"), words("add r1 r0 r2"));
    assert_eq!(words("mov r1 r2"), vec![0x2102]);
    assert_eq!(words("lsh r3 r4"), words("add r3 r3 r4"));
    assert_eq!(words("inc r5"), words("adi r5 1"));
    assert_eq!(words("dec r5"), words("adi r5 -1"));
    assert_eq!(words("dec r5"), vec![0x95ff]);
    assert_eq!(words("not r6 r7"), words("nor r6 r0 r7"));
    assert_eq!(words("neg r6 r7"), words("sub r0 r6 r7"));
}
