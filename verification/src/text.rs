//! Text as sequences of characters: conversions between strings and
//! character vectors, and the lexical structure of a source line.

use vstd::prelude::*;
use vstd::std_specs::iter::IteratorSpec;
use vstd::string::StringExecFns;

verus! {

/// `String::push` of the standard library appends one character to the end of
/// the string and leaves the rest as it was.
pub assume_specification[ String::push ](s: &mut String, c: char)
    ensures
        final(s)@ == old(s)@.push(c),
;

/// The characters of a string, in order.
pub fn chars_of(s: &str) -> (chars: Vec<char>)
    ensures
        chars@ == s@,
{
    let mut chars: Vec<char> = Vec::new();
    for c in it: s.chars()
        invariant
            it.seq() == s@,
            chars@ == it.seq().subrange(0, it.index()),
    {
        chars.push(c);
    }
    chars
}

/// The string made of the given characters, in order.
pub fn string_of(chars: &[char]) -> (s: String)
    ensures
        s@ == chars@,
{
    let mut s = String::new();
    let mut i: usize = 0;
    while i < chars.len()
        invariant
            i <= chars.len(),
            s@ == chars@.subrange(0, i as int),
        decreases chars.len() - i,
    {
        s.push(chars[i]);
        i += 1;
    }
    s
}

/// Returns whether two runs of characters are the same.
pub fn same_chars(a: &[char], b: &[char]) -> (same: bool)
    ensures
        same == (a@ == b@),
{
    if a.len() != b.len() {
        return false;
    }
    let mut i: usize = 0;
    while i < a.len()
        invariant
            a.len() == b.len(),
            i <= a.len(),
            a@.subrange(0, i as int) == b@.subrange(0, i as int),
        decreases a.len() - i,
    {
        if a[i] != b[i] {
            return false;
        }
        proof {
            assert(a@.subrange(0, i + 1) =~= a@.subrange(0, i as int).push(a@[i as int]));
            assert(b@.subrange(0, i + 1) =~= b@.subrange(0, i as int).push(b@[i as int]));
        }
        i += 1;
    }
    proof {
        assert(a@.subrange(0, i as int) =~= a@);
        assert(b@.subrange(0, i as int) =~= b@);
    }
    true
}

/// Returns whether the characters spell the given text.
pub fn spells(chars: &[char], text: &str) -> (same: bool)
    ensures
        same == (chars@ == text@),
{
    let other = chars_of(text);
    same_chars(chars, other.as_slice())
}

/// Returns the string that holds `before`, then the characters, then
/// `after`.
pub fn enclose(before: &str, chars: &[char], after: &str) -> (s: String)
    ensures
        s@ == before@ + chars@ + after@,
{
    let mut s = String::from_str(before);
    let middle = string_of(chars);
    s.append(middle.as_str());
    s.append(after);
    s
}

/// What each run of characters holds.
pub open spec fn views(runs: Seq<Vec<char>>) -> Seq<Seq<char>> {
    runs.map_values(|run: Vec<char>| run@)
}

/// What each string holds.
pub open spec fn texts(strings: Seq<String>) -> Seq<Seq<char>> {
    strings.map_values(|string: String| string@)
}

/// Whether the character is white space: a blank, a tab, a line ending or one
/// of the other spacing characters of Unicode.
pub open spec fn is_whitespace(c: char) -> bool {
    let code = c as u32;
    ||| 0x09 <= code <= 0x0d
    ||| code == 0x20
    ||| code == 0x85
    ||| code == 0xa0
    ||| code == 0x1680
    ||| 0x2000 <= code <= 0x200a
    ||| code == 0x2028
    ||| code == 0x2029
    ||| code == 0x202f
    ||| code == 0x205f
    ||| code == 0x3000
}

/// The text without the white space at its start.
pub open spec fn trim_start(s: Seq<char>) -> Seq<char>
    decreases s.len(),
{
    if s.len() > 0 && is_whitespace(s[0]) {
        trim_start(s.subrange(1, s.len() as int))
    } else {
        s
    }
}

/// The text without the white space at its end.
pub open spec fn trim_end(s: Seq<char>) -> Seq<char>
    decreases s.len(),
{
    if s.len() > 0 && is_whitespace(s.last()) {
        trim_end(s.drop_last())
    } else {
        s
    }
}

/// The text without the white space at its start and at its end.
pub open spec fn trim(s: Seq<char>) -> Seq<char> {
    trim_end(trim_start(s))
}

/// Where the first `//` at or behind `from` begins, or the length of the text
/// where there is none.
pub open spec fn comment_start_from(s: Seq<char>, from: int) -> int
    decreases s.len() - from,
{
    if from < 0 || from + 1 >= s.len() {
        s.len() as int
    } else if s[from] == '/' && s[from + 1] == '/' {
        from
    } else {
        comment_start_from(s, from + 1)
    }
}

/// The text in front of the first `//`, or all of it where there is none.
pub open spec fn strip_comment(s: Seq<char>) -> Seq<char> {
    s.subrange(0, comment_start_from(s, 0))
}

/// The pieces of the text between the separators, empty ones included. A text
/// with n separators has n + 1 pieces.
pub open spec fn split_on(s: Seq<char>, separator: char) -> Seq<Seq<char>>
    decreases s.len(),
{
    if s.len() == 0 {
        seq![Seq::<char>::empty()]
    } else {
        let before = split_on(s.drop_last(), separator);
        if s.last() == separator {
            before.push(Seq::<char>::empty())
        } else {
            before.drop_last().push(before.last().push(s.last()))
        }
    }
}

/// The pieces of the text between white space characters, empty ones
/// included.
pub open spec fn split_at_whitespace(s: Seq<char>) -> Seq<Seq<char>>
    decreases s.len(),
{
    if s.len() == 0 {
        seq![Seq::<char>::empty()]
    } else {
        let before = split_at_whitespace(s.drop_last());
        if is_whitespace(s.last()) {
            before.push(Seq::<char>::empty())
        } else {
            before.drop_last().push(before.last().push(s.last()))
        }
    }
}

/// The pieces that are not empty, in order.
pub open spec fn nonempty(pieces: Seq<Seq<char>>) -> Seq<Seq<char>>
    decreases pieces.len(),
{
    if pieces.len() == 0 {
        pieces
    } else if pieces.last().len() == 0 {
        nonempty(pieces.drop_last())
    } else {
        nonempty(pieces.drop_last()).push(pieces.last())
    }
}

/// The words of the text: its runs of characters that are not white space.
pub open spec fn words(s: Seq<char>) -> Seq<Seq<char>> {
    nonempty(split_at_whitespace(s))
}

/// The statements of one source line.
///
/// What follows the first `//` is a comment and dropped, then the white space
/// around the rest. If nothing is left the line holds no statement. Else each
/// piece between semicolons is a statement, without the white space around
/// it; such a piece may be empty.
pub open spec fn statements(line: Seq<char>) -> Seq<Seq<char>> {
    let text = trim(strip_comment(line));
    if text.len() == 0 {
        Seq::<Seq<char>>::empty()
    } else {
        split_on(text, ';').map_values(|piece: Seq<char>| trim(piece))
    }
}

/// The lines of a text: its pieces between line feeds, without the last one
/// where that is empty.
pub open spec fn lines(text: Seq<char>) -> Seq<Seq<char>> {
    let pieces = split_on(text, '\n');
    if pieces.last().len() == 0 {
        pieces.drop_last()
    } else {
        pieces
    }
}

/// Returns whether the character is white space.
pub fn is_whitespace_char(c: char) -> (b: bool)
    ensures
        b == is_whitespace(c),
{
    let code = c as u32;
    (0x09 <= code && code <= 0x0d) || code == 0x20 || code == 0x85 || code == 0xa0 || code
        == 0x1680 || (0x2000 <= code && code <= 0x200a) || code == 0x2028 || code == 0x2029 || code
        == 0x202f || code == 0x205f || code == 0x3000
}

/// Returns the text without the white space at its start and at its end.
pub fn trim_slice(s: &[char]) -> (trimmed: &[char])
    ensures
        trimmed@ == trim(s@),
{
    let mut start: usize = 0;
    proof {
        assert(s@.subrange(0, s.len() as int) =~= s@);
    }
    while start < s.len() && is_whitespace_char(s[start])
        invariant
            start <= s.len(),
            trim_start(s@) == trim_start(s@.subrange(start as int, s.len() as int)),
        decreases s.len() - start,
    {
        proof {
            let rest = s@.subrange(start as int, s.len() as int);
            assert(rest.subrange(1, rest.len() as int) =~= s@.subrange(
                start + 1,
                s.len() as int,
            ));
        }
        start += 1;
    }
    let mut end: usize = s.len();
    while end > start && is_whitespace_char(s[end - 1])
        invariant
            start <= end <= s.len(),
            trim_start(s@) == s@.subrange(start as int, s.len() as int),
            trim(s@) == trim_end(s@.subrange(start as int, end as int)),
        decreases end - start,
    {
        proof {
            let rest = s@.subrange(start as int, end as int);
            assert(rest.drop_last() =~= s@.subrange(start as int, end - 1));
        }
        end -= 1;
    }
    vstd::slice::slice_subrange(s, start, end)
}

/// Returns the text in front of the first `//`, or all of it where there is
/// none.
pub fn strip_comment_slice(s: &[char]) -> (stripped: &[char])
    ensures
        stripped@ == strip_comment(s@),
{
    if s.len() < 2 {
        proof {
            assert(s@.subrange(0, s.len() as int) =~= s@);
        }
        return s;
    }
    let last = s.len() - 1;
    let mut i: usize = 0;
    while i < last && !(s[i] == '/' && s[i + 1] == '/')
        invariant
            last == s.len() - 1,
            i <= last,
            comment_start_from(s@, 0) == comment_start_from(s@, i as int),
        decreases last - i,
    {
        i += 1;
    }
    let end = if i < last {
        i
    } else {
        s.len()
    };
    vstd::slice::slice_subrange(s, 0, end)
}

/// Returns the pieces of the text between the separators, empty ones
/// included.
pub fn split_slice(s: &[char], separator: char) -> (pieces: Vec<Vec<char>>)
    ensures
        views(pieces@) == split_on(s@, separator),
{
    let mut pieces: Vec<Vec<char>> = Vec::new();
    let mut piece: Vec<char> = Vec::new();
    let mut i: usize = 0;
    while i < s.len()
        invariant
            i <= s.len(),
            views(pieces@).push(piece@) == split_on(s@.subrange(0, i as int), separator),
        decreases s.len() - i,
    {
        proof {
            assert(s@.subrange(0, i + 1).drop_last() =~= s@.subrange(0, i as int));
            assert(views(pieces@).push(piece@).drop_last() =~= views(pieces@));
        }
        let ghost before = views(pieces@);
        if s[i] == separator {
            pieces.push(piece);
            piece = Vec::new();
            proof {
                assert(views(pieces@) =~= before.push(pieces@.last()@));
            }
        } else {
            piece.push(s[i]);
        }
        i += 1;
    }
    proof {
        assert(s@.subrange(0, i as int) =~= s@);
    }
    let ghost before = views(pieces@);
    pieces.push(piece);
    proof {
        assert(views(pieces@) =~= before.push(pieces@.last()@));
    }
    pieces
}

/// Returns the words of the text: its runs of characters that are not white
/// space.
pub fn words_slice(s: &[char]) -> (found: Vec<Vec<char>>)
    ensures
        views(found@) == words(s@),
{
    let mut found: Vec<Vec<char>> = Vec::new();
    let mut word: Vec<char> = Vec::new();
    let mut i: usize = 0;
    while i < s.len()
        invariant
            i <= s.len(),
            views(found@) == nonempty(split_at_whitespace(s@.subrange(0, i as int)).drop_last()),
            word@ == split_at_whitespace(s@.subrange(0, i as int)).last(),
            split_at_whitespace(s@.subrange(0, i as int)).len() > 0,
        decreases s.len() - i,
    {
        let ghost pieces = split_at_whitespace(s@.subrange(0, i as int));
        proof {
            assert(s@.subrange(0, i + 1).drop_last() =~= s@.subrange(0, i as int));
            assert(pieces.push(Seq::<char>::empty()).drop_last() =~= pieces);
            assert(pieces.drop_last().push(pieces.last().push(s@[i as int])).drop_last()
                =~= pieces.drop_last());
        }
        let ghost before = views(found@);
        if is_whitespace_char(s[i]) {
            if word.len() > 0 {
                found.push(word);
                word = Vec::new();
                proof {
                    assert(views(found@) =~= before.push(found@.last()@));
                }
            }
            proof {
                assert(word@ =~= Seq::<char>::empty());
            }
        } else {
            word.push(s[i]);
        }
        i += 1;
    }
    proof {
        assert(s@.subrange(0, i as int) =~= s@);
    }
    let ghost before = views(found@);
    if word.len() > 0 {
        found.push(word);
        proof {
            assert(views(found@) =~= before.push(found@.last()@));
        }
    }
    found
}

/// Returns the statements of one source line, given as characters.
pub fn statements_slice(line: &[char]) -> (found: Vec<Vec<char>>)
    ensures
        views(found@) == statements(line@),
{
    let text = trim_slice(strip_comment_slice(line));
    let mut found: Vec<Vec<char>> = Vec::new();
    if text.len() == 0 {
        proof {
            assert(views(found@) =~= Seq::<Seq<char>>::empty());
        }
        return found;
    }
    let pieces = split_slice(text, ';');
    let mut i: usize = 0;
    while i < pieces.len()
        invariant
            i <= pieces.len(),
            found.len() == i,
            forall|j: int| 0 <= j < i ==> (#[trigger] found@[j])@ == trim(pieces@[j]@),
        decreases pieces.len() - i,
    {
        let trimmed = trim_slice(pieces[i].as_slice());
        found.push(vstd::slice::slice_to_vec(trimmed));
        i += 1;
    }
    proof {
        assert(views(found@) =~= views(pieces@).map_values(|piece: Seq<char>| trim(piece)));
    }
    found
}

/// Returns the strings made of the given runs of characters.
pub fn strings_of(runs: &Vec<Vec<char>>) -> (strings: Vec<String>)
    ensures
        texts(strings@) == views(runs@),
{
    let mut strings: Vec<String> = Vec::new();
    let mut i: usize = 0;
    while i < runs.len()
        invariant
            i <= runs.len(),
            strings.len() == i,
            forall|j: int| 0 <= j < i ==> (#[trigger] strings@[j])@ == runs@[j]@,
        decreases runs.len() - i,
    {
        strings.push(string_of(runs[i].as_slice()));
        i += 1;
    }
    proof {
        assert(texts(strings@) =~= views(runs@));
    }
    strings
}

/// Splits one source line into its statements.
///
/// What follows the first `//` is a comment and dropped, then the white space
/// around the rest. If nothing is left there is no statement. Else each piece
/// between semicolons is a statement, without the white space around it; such
/// a piece may be empty.
pub fn split_statements(line: &str) -> (found: Vec<String>)
    ensures
        texts(found@) == statements(line@),
{
    let chars = chars_of(line);
    let pieces = statements_slice(chars.as_slice());
    strings_of(&pieces)
}

/// Whether the text holds white space alone.
pub open spec fn is_blank(s: Seq<char>) -> bool {
    forall|i: int| 0 <= i < s.len() ==> is_whitespace(#[trigger] s[i])
}

/// Nothing is left of a blank text when the white space at its start is
/// dropped.
pub proof fn lemma_trim_blank(s: Seq<char>)
    requires
        is_blank(s),
    ensures
        trim_start(s).len() == 0,
        trim(s).len() == 0,
    decreases s.len(),
{
    if s.len() > 0 {
        let rest = s.subrange(1, s.len() as int);
        assert(is_whitespace(s[0]));
        assert forall|i: int| 0 <= i < rest.len() implies is_whitespace(#[trigger] rest[i]) by {
            assert(rest[i] == s[i + 1]);
        }
        lemma_trim_blank(rest);
    }
}

/// A comment begins at or behind the place from which it is looked for, and
/// not behind the end of the text.
pub proof fn lemma_comment_start_bounds(s: Seq<char>, from: int)
    requires
        0 <= from <= s.len(),
    ensures
        from <= comment_start_from(s, from) <= s.len(),
    decreases s.len() - from,
{
    if from + 1 < s.len() && !(s[from] == '/' && s[from + 1] == '/') {
        lemma_comment_start_bounds(s, from + 1);
    }
}

/// A blank line holds no statement.
pub proof fn lemma_blank_line(line: Seq<char>)
    requires
        is_blank(line),
    ensures
        statements(line) == Seq::<Seq<char>>::empty(),
{
    lemma_comment_start_bounds(line, 0);
    let kept = strip_comment(line);
    assert forall|i: int| 0 <= i < kept.len() implies is_whitespace(#[trigger] kept[i]) by {
        assert(kept[i] == line[i]);
    }
    lemma_trim_blank(kept);
}

/// In a line that begins with white space and then `//`, the comment begins
/// right behind the white space.
pub proof fn lemma_comment_behind_indent(indent: Seq<char>, comment: Seq<char>, from: int)
    requires
        is_blank(indent),
        0 <= from <= indent.len(),
    ensures
        comment_start_from(indent + seq!['/', '/'] + comment, from) == indent.len(),
    decreases indent.len() - from,
{
    let line = indent + seq!['/', '/'] + comment;
    assert(line[indent.len() as int] == '/');
    assert(line[indent.len() as int + 1] == '/');
    if from < indent.len() {
        assert(line[from] == indent[from]);
        assert(is_whitespace(indent[from]));
        lemma_comment_behind_indent(indent, comment, from + 1);
    }
}

/// A line that holds a comment alone, with or without white space in front of
/// it, holds no statement.
pub proof fn lemma_comment_line(indent: Seq<char>, comment: Seq<char>)
    requires
        is_blank(indent),
    ensures
        statements(indent + seq!['/', '/'] + comment) == Seq::<Seq<char>>::empty(),
{
    let line = indent + seq!['/', '/'] + comment;
    lemma_comment_behind_indent(indent, comment, 0);
    assert(strip_comment(line) =~= indent);
    lemma_trim_blank(indent);
}

} // verus!
