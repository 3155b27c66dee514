//! Writing the program out: as text, one line of binary digits for each word,
//! or as bytes, two for each word.

use vstd::prelude::*;

verus! {

/// The lowest `width` binary digits of a number, the highest of them first.
pub open spec fn bits(n: nat, width: nat) -> Seq<char>
    decreases width,
{
    if width == 0 {
        Seq::<char>::empty()
    } else {
        bits(n / 2, (width - 1) as nat).push(
            if n % 2 == 1 {
                '1'
            } else {
                '0'
            },
        )
    }
}

/// A word as text: its sixteen binary digits, the highest first.
pub open spec fn word_text(word: u16) -> Seq<char> {
    bits(word as nat, 16)
}

/// The program as text: each word on a line of its own, with a line feed
/// between two lines and none behind the last.
pub open spec fn text_output(words: Seq<u16>) -> Seq<char>
    decreases words.len(),
{
    if words.len() == 0 {
        Seq::<char>::empty()
    } else if words.len() == 1 {
        word_text(words[0])
    } else {
        text_output(words.drop_last()) + seq!['\n'] + word_text(words.last())
    }
}

/// The program as bytes: for each word its high byte and then its low byte.
pub open spec fn binary_output(words: Seq<u16>) -> Seq<u8>
    decreases words.len(),
{
    if words.len() == 0 {
        Seq::<u8>::empty()
    } else {
        binary_output(words.drop_last()).push((words.last() / 256) as u8).push(
            (words.last() % 256) as u8,
        )
    }
}

/// The text as bytes, one for each character. It is meant for text whose
/// characters are all below 128.
pub open spec fn ascii(text: Seq<char>) -> Seq<u8> {
    text.map_values(|c: char| c as u8)
}

/// Appends the lowest `width` binary digits of a number to a string, the
/// highest of them first.
fn push_bits(out: &mut String, n: u16, width: u8)
    ensures
        final(out)@ == old(out)@ + bits(n as nat, width as nat),
    decreases width,
{
    if width == 0 {
        proof {
            assert(out@ =~= old(out)@ + bits(n as nat, width as nat));
        }
        return ;
    }
    push_bits(out, n / 2, width - 1);
    if n % 2 == 1 {
        out.push('1');
    } else {
        out.push('0');
    }
    proof {
        assert(final(out)@ =~= old(out)@ + bits(n as nat, width as nat));
    }
}

/// Returns the program as text: each word as sixteen binary digits on a line
/// of its own, with no line feed behind the last line.
pub fn render_text(words: &Vec<u16>) -> (text: String)
    ensures
        text@ == text_output(words@),
{
    let mut text = String::new();
    let mut i: usize = 0;
    while i < words.len()
        invariant
            i <= words.len(),
            text@ == text_output(words@.subrange(0, i as int)),
        decreases words.len() - i,
    {
        let ghost before = text@;
        proof {
            assert(words@.subrange(0, i + 1).drop_last() =~= words@.subrange(0, i as int));
        }
        if i > 0 {
            text.push('\n');
        }
        push_bits(&mut text, words[i], 16);
        proof {
            if i > 0 {
                assert(text@ =~= before + seq!['\n'] + word_text(words@[i as int]));
            } else {
                assert(text@ =~= word_text(words@[i as int]));
            }
        }
        i += 1;
    }
    proof {
        assert(words@.subrange(0, i as int) =~= words@);
    }
    text
}

/// Returns the program as bytes: for each word its high byte and then its low
/// byte.
pub fn render_binary(words: &Vec<u16>) -> (bytes: Vec<u8>)
    ensures
        bytes@ == binary_output(words@),
{
    let mut bytes: Vec<u8> = Vec::new();
    let mut i: usize = 0;
    while i < words.len()
        invariant
            i <= words.len(),
            bytes@ == binary_output(words@.subrange(0, i as int)),
        decreases words.len() - i,
    {
        proof {
            assert(words@.subrange(0, i + 1).drop_last() =~= words@.subrange(0, i as int));
        }
        let word = words[i];
        bytes.push((word / 256) as u8);
        bytes.push((word % 256) as u8);
        i += 1;
    }
    proof {
        assert(words@.subrange(0, i as int) =~= words@);
    }
    bytes
}

/// Returns the bytes of a text made of binary digits and line feeds.
fn text_bytes(text: &str) -> (bytes: Vec<u8>)
    requires
        forall|i: int| 0 <= i < text@.len() ==> is_output_char(#[trigger] text@[i]),
    ensures
        bytes@ == ascii(text@),
{
    let chars = crate::text::chars_of(text);
    let mut bytes: Vec<u8> = Vec::new();
    let mut i: usize = 0;
    while i < chars.len()
        invariant
            i <= chars.len(),
            chars@ == text@,
            forall|i: int| 0 <= i < text@.len() ==> is_output_char(#[trigger] text@[i]),
            bytes@ == ascii(chars@.subrange(0, i as int)),
        decreases chars.len() - i,
    {
        let c = chars[i];
        assert(is_output_char(text@[i as int]));
        let byte: u8 = if c == '0' {
            48
        } else if c == '1' {
            49
        } else {
            10
        };
        bytes.push(byte);
        proof {
            assert(bytes@ =~= ascii(chars@.subrange(0, i + 1)));
        }
        i += 1;
    }
    proof {
        assert(chars@.subrange(0, i as int) =~= chars@);
    }
    bytes
}

/// Whether the character is a binary digit or a line feed.
pub open spec fn is_output_char(c: char) -> bool {
    c == '0' || c == '1' || c == '\n'
}

/// Binary digits are made of `0` and `1`, and there are as many as asked for.
pub proof fn lemma_bits(n: nat, width: nat)
    ensures
        bits(n, width).len() == width,
        forall|i: int| 0 <= i < width ==> (#[trigger] bits(n, width)[i]) == '0' || bits(n, width)[i]
            == '1',
    decreases width,
{
    if width > 0 {
        lemma_bits(n / 2, (width - 1) as nat);
    }
}

/// The text of a program holds binary digits and line feeds alone, and sixteen
/// digits for each word with one line feed between two words.
pub proof fn lemma_text_output(words: Seq<u16>)
    ensures
        text_output(words).len() == (if words.len() == 0 {
            0
        } else {
            17 * words.len() - 1
        }),
        forall|i: int|
            0 <= i < text_output(words).len() ==> is_output_char(#[trigger] text_output(words)[i]),
    decreases words.len(),
{
    if words.len() == 1 {
        lemma_bits(words[0] as nat, 16);
    } else if words.len() > 1 {
        lemma_text_output(words.drop_last());
        lemma_bits(words.last() as nat, 16);
    }
}

/// The bytes of a program are two for each word.
pub proof fn lemma_binary_output(words: Seq<u16>)
    ensures
        binary_output(words).len() == 2 * words.len(),
    decreases words.len(),
{
    if words.len() > 0 {
        lemma_binary_output(words.drop_last());
    }
}

/// A program of one word is written as sixteen binary digits and nothing
/// else, no line feed behind them, or as two bytes, the high byte first.
pub proof fn lemma_output_of_one_word(word: u16)
    ensures
        text_output(seq![word]) == word_text(word),
        text_output(seq![word]).len() == 16,
        forall|i: int|
            0 <= i < 16 ==> (#[trigger] text_output(seq![word])[i]) == '0' || text_output(
                seq![word],
            )[i] == '1',
        binary_output(seq![word]) == seq![(word / 256) as u8, (word % 256) as u8],
        word == (word / 256) * 256 + word % 256,
{
    lemma_bits(word as nat, 16);
    assert(seq![word].drop_last() =~= Seq::<u16>::empty());
    assert(binary_output(seq![word].drop_last()) =~= Seq::<u8>::empty());
    assert(binary_output(seq![word]) =~= seq![(word / 256) as u8, (word % 256) as u8]);
}

/// Returns the program as it is written to a file: as text where `text` is
/// set, each character one byte, and as two bytes for each word where it is
/// not.
pub fn render(words: &Vec<u16>, text: bool) -> (bytes: Vec<u8>)
    ensures
        bytes@ == (if text {
            ascii(text_output(words@))
        } else {
            binary_output(words@)
        }),
{
    if text {
        let rendered = render_text(words);
        proof {
            lemma_text_output(words@);
        }
        text_bytes(rendered.as_str())
    } else {
        render_binary(words)
    }
}

} // verus!
