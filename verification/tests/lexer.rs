use batpu_assembler::text::{chars_of, split_statements, string_of};

fn statements(line: &str) -> Vec<String> {
    split_statements(line)
}

#[test]
fn blank_line_has_no_statement() {
    assert_eq!(statements(""), Vec::<String>::new());
    assert_eq!(statements("   \t  "), Vec::<String>::new());
    assert_eq!(statements("\u{a0}\u{2003}\r"), Vec::<String>::new());
}

#[test]
fn comment_line_has_no_statement() {
    assert_eq!(statements("// nothing here"), Vec::<String>::new());
    assert_eq!(statements("   // nop; hlt"), Vec::<String>::new());
    assert_eq!(statements("//"), Vec::<String>::new());
}

#[test]
fn comment_is_cut_off() {
    assert_eq!(statements("add r1 r2 r3 // sum"), vec!["add r1 r2 r3".to_string()]);
    assert_eq!(statements("nop//x//y"), vec!["nop".to_string()]);
}

#[test]
fn single_slash_is_no_comment() {
    assert_eq!(statements("jmp a/b"), vec!["jmp a/b".to_string()]);
    assert_eq!(statements("nop /"), vec!["nop /".to_string()]);
}

#[test]
fn statement_is_trimmed() {
    assert_eq!(statements("  \t hlt \r"), vec!["hlt".to_string()]);
}

#[test]
fn semicolons_split_statements() {
    assert_eq!(
        statements("nop; hlt ;ret"),
        vec!["nop".to_string(), "hlt".to_string(), "ret".to_string()]
    );
}

#[test]
fn empty_pieces_are_kept() {
    assert_eq!(statements("nop;"), vec!["nop".to_string(), "".to_string()]);
    assert_eq!(
        statements("nop; ;hlt"),
        vec!["nop".to_string(), "".to_string(), "hlt".to_string()]
    );
    assert_eq!(statements(";"), vec!["".to_string(), "".to_string()]);
}

#[test]
fn semicolon_in_comment_does_not_split() {
    assert_eq!(statements("nop // a; b"), vec!["nop".to_string()]);
}

#[test]
fn inner_white_space_stays() {
    assert_eq!(statements("add   r1\tr2 r3"), vec!["add   r1\tr2 r3".to_string()]);
}

#[test]
fn characters_round_trip() {
    let text = "ldi r1 'é' // ü";
    let chars = chars_of(text);
    assert_eq!(chars.len(), 15);
    assert_eq!(string_of(&chars), text);
}
