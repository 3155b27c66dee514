use batpu_assembler::number::{parse_i32, parse_u32};

fn std_u32(token: &str) -> Result<u32, String> {
    let s = token.replace('_', "");
    let r = if s.starts_with("0x") {
        u32::from_str_radix(&s[2..], 16)
    } else if s.starts_with("0b") {
        u32::from_str_radix(&s[2..], 2)
    } else {
        s.parse()
    };
    r.map_err(|e| e.to_string())
}

fn std_i32(token: &str) -> Result<i32, String> {
    let s = token.replace('_', "");
    let r = if s.starts_with("0x") {
        i32::from_str_radix(&s[2..], 16)
    } else if s.starts_with("0b") {
        i32::from_str_radix(&s[2..], 2)
    } else {
        s.parse()
    };
    r.map_err(|e| e.to_string())
}

fn tokens() -> Vec<String> {
    let alphabet = ['0', '1', '2', '9', 'a', 'F', 'g', 'x', 'b', '+', '-', '_', ' '];
    let mut all = vec![String::new()];
    let mut last = vec![String::new()];
    for _ in 0..4 {
        let mut next = Vec::new();
        for prefix in &last {
            for c in alphabet {
                let mut t = prefix.clone();
                t.push(c);
                next.push(t);
            }
        }
        all.extend(next.iter().cloned());
        last = next;
    }
    for long in [
        "4294967295", "4294967296", "2147483647", "2147483648", "-2147483648", "-2147483649",
        "99999999999x", "4294967295x", "429496729x", "x99999999999", "0xffffffffg", "0x100000000g",
        "-99999999999x", "0b111111111111111111111111111111112", "00000000000000000000001",
        "+00000000000000000000001", "-0", "0x-0", "0x+ff", "0b-1", "é", "١٢",
    ] {
        all.push(long.to_string());
    }
    all
}

#[test]
fn unsigned_literals_agree_with_std() {
    let mut differences = Vec::new();
    for token in tokens() {
        let mine = parse_u32(&token).map_err(|e| e.message().to_string());
        let theirs = std_u32(&token);
        if mine != theirs {
            differences.push(format!("{:?}: {:?} / {:?}", token, mine, theirs));
        }
    }
    assert!(differences.is_empty(), "{}", differences.join("\n"));
}

#[test]
fn signed_literals_agree_with_std() {
    let mut differences = Vec::new();
    for token in tokens() {
        let mine = parse_i32(&token).map_err(|e| e.message().to_string());
        let theirs = std_i32(&token);
        if mine != theirs {
            differences.push(format!("{:?}: {:?} / {:?}", token, mine, theirs));
        }
    }
    assert!(differences.is_empty(), "{}", differences.join("\n"));
}

fn texts(alphabet: &[char], longest: usize) -> Vec<String> {
    let mut all = vec![String::new()];
    let mut last = vec![String::new()];
    for _ in 0..longest {
        let mut next = Vec::new();
        for prefix in &last {
            for c in alphabet {
                let mut t = prefix.clone();
                t.push(*c);
                next.push(t);
            }
        }
        all.extend(next.iter().cloned());
        last = next;
    }
    all
}

fn std_statements(line: &str) -> Vec<String> {
    let mut line = line;
    if let Some(index) = line.find("//") {
        line = &line[..index];
    }
    line = line.trim();
    if line.is_empty() {
        return Vec::new();
    }
    line.split(';').map(|piece| piece.trim().to_string()).collect()
}

#[test]
fn statements_agree_with_std() {
    let alphabet = ['a', ' ', '\t', '/', ';', '\u{a0}', '\r', 'é'];
    for line in texts(&alphabet, 6) {
        assert_eq!(
            batpu_assembler::text::split_statements(&line),
            std_statements(&line),
            "{:?}",
            line
        );
    }
}

#[test]
fn words_agree_with_std() {
    let alphabet = ['a', 'b', ' ', '\t', '\u{2003}', '\u{3000}', '\n', ':', '\u{200b}', '\u{85}'];
    for text in texts(&alphabet, 5) {
        let chars: Vec<char> = text.chars().collect();
        let mine: Vec<String> = batpu_assembler::text::words_slice(&chars)
            .iter()
            .map(|word| word.iter().collect())
            .collect();
        let theirs: Vec<String> = text.split_whitespace().map(|word| word.to_string()).collect();
        assert_eq!(mine, theirs, "{:?}", text);
    }
}

#[test]
fn white_space_agrees_with_std() {
    for code in 0u32..=0x11_0000 {
        if let Some(c) = char::from_u32(code) {
            assert_eq!(batpu_assembler::text::is_whitespace_char(c), c.is_whitespace(), "{:x}", code);
        }
    }
}

#[test]
fn digits_agree_with_std() {
    for code in 0u32..=0x11_0000 {
        if let Some(c) = char::from_u32(code) {
            let theirs = c.to_digit(36).unwrap_or(36);
            assert_eq!(batpu_assembler::number::digit_of(c), theirs, "{:x}", code);
        }
    }
}

#[test]
fn line_numbers_agree_with_std() {
    let alphabet = ['x', '\n', '\r', ' '];
    for text in texts(&alphabet, 6) {
        let mut assembler = batpu_assembler::assembler::Assembler::new(
            batpu_assembler::assembler_config::AssemblerConfig::default(),
        );
        let mine: Vec<u32> = match assembler.parse(&text) {
            Ok(()) => Vec::new(),
            Err(errors) => errors.iter().map(|error| error.line.unwrap()).collect(),
        };
        let theirs: Vec<u32> = text
            .lines()
            .enumerate()
            .filter(|(_, line)| !line.trim().is_empty())
            .map(|(index, _)| index as u32 + 1)
            .collect();
        assert_eq!(mine, theirs, "{:?}", text);
    }
}

#[test]
fn decimal_agrees_with_std() {
    for n in (0u64..100_000).chain([u32::MAX as u64, u64::MAX, u64::MAX - 1, 1 << 40]) {
        assert_eq!(batpu_assembler::number::decimal_string(n), n.to_string());
    }
}
