use batpu_assembler::output::{render, render_binary, render_text};

#[test]
fn text_of_one_word() {
    assert_eq!(render_text(&vec![0]), "0000000000000000");
    assert_eq!(render_text(&vec![0x1000]), "0001000000000000");
    assert_eq!(render_text(&vec![0xffff]), "1111111111111111");
    assert_eq!(render_text(&vec![0b1010_0011_1101_1000]), "1010001111011000");
    assert_eq!(render_text(&vec![1]), "0000000000000001");
    assert_eq!(render_text(&vec![0x8000]), "1000000000000000");
}

#[test]
fn text_has_no_trailing_line_feed() {
    assert_eq!(render_text(&vec![]), "");
    assert_eq!(render_text(&vec![1, 2]), "0000000000000001\n0000000000000010");
    assert_eq!(
        render_text(&vec![1, 2, 3]),
        "0000000000000001\n0000000000000010\n0000000000000011"
    );
}

#[test]
fn text_agrees_with_formatting() {
    for word in (0u32..=0xffff).step_by(257) {
        assert_eq!(render_text(&vec![word as u16]), format!("{:016b}", word));
    }
}

#[test]
fn bytes_are_big_endian() {
    assert_eq!(render_binary(&vec![]), Vec::<u8>::new());
    assert_eq!(render_binary(&vec![0x1234]), vec![0x12, 0x34]);
    assert_eq!(render_binary(&vec![0x00ff, 0xff00]), vec![0x00, 0xff, 0xff, 0x00]);
    for word in (0u32..=0xffff).step_by(251) {
        assert_eq!(render_binary(&vec![word as u16]), (word as u16).to_be_bytes().to_vec());
    }
}

#[test]
fn render_chooses_the_form() {
    let words = vec![0x1000, 0x2123];
    assert_eq!(render(&words, false), vec![0x10, 0x00, 0x21, 0x23]);
    assert_eq!(
        render(&words, true),
        "0001000000000000\n0010000100100011".as_bytes().to_vec()
    );
    assert_eq!(render(&vec![], true), Vec::<u8>::new());
}
