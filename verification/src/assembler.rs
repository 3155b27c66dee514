//! The assembler: source text in, machine words out.
//!
//! Parsing is the first pass. It reads the source line by line and statement
//! by statement, appends an instruction for each statement that names one,
//! and records each label with the position of the instruction that follows
//! it. Assembling is the second pass. It turns each instruction into its word,
//! with every label bound as the first pass left it, so a label may be used
//! before the line that defines it.
//!
//! Neither pass stops at the first error: each reports all it found.

use vstd::prelude::*;
use vstd::string::StringExecFns;
use crate::address::PROGRAM_SPACE;
use crate::assembler_config::AssemblerConfig;
use crate::assembler_error::{AssemblerError, AssemblerErrorView};
use crate::decode::{decode, spec_decode, wrong_count};
use crate::defines::{port_defines, Defines};
use crate::instruction::{Instruction, InstructionView};
use crate::labels::Labels;
use crate::operand::error_on;
use crate::output::{ascii, binary_output, render, text_output};
use crate::text::{
    chars_of,
    enclose,
    lines,
    spells,
    split_slice,
    statements,
    statements_slice,
    string_of,
    texts,
    views,
    words,
    words_slice,
};

verus! {

/// What an [`Assembler`] holds, as plain values.
pub struct AssemblerView {
    /// The choices of this assembly.
    pub config: AssemblerConfig,
    /// The instructions read so far, each with the line it was read on.
    pub instructions: Seq<(InstructionView, u32)>,
    /// The position of each label.
    pub labels: Map<Seq<char>, usize>,
    /// The text of each defined name.
    pub defines: Map<Seq<char>, Seq<char>>,
    /// The number of the line that is being read.
    pub line: u32,
}

impl AssemblerView {
    /// The same state with other tables.
    pub open spec fn with_tables(
        self,
        labels: Map<Seq<char>, usize>,
        defines: Map<Seq<char>, Seq<char>>,
    ) -> AssemblerView {
        AssemblerView {
            config: self.config,
            instructions: self.instructions,
            labels,
            defines,
            line: self.line,
        }
    }

    /// What one statement does to an assembler in this state, where the next
    /// instruction will stand at `position`.
    pub open spec fn statement(self, piece: Seq<char>, position: usize) -> StatementOutcome {
        spec_parse_piece(self.labels, self.defines, piece, position, self.line)
    }
}

/// What a statement leaves behind: the two tables, and either what it added
/// to the program or why it could not be read.
pub struct StatementOutcome {
    /// The label table after the statement.
    pub labels: Map<Seq<char>, usize>,
    /// The define table after the statement.
    pub defines: Map<Seq<char>, Seq<char>>,
    /// The instruction that the statement stands for, `None` for a statement
    /// that defines a label or a name, or the error.
    pub result: Result<Option<InstructionView>, AssemblerErrorView>,
}

/// The position of the next instruction where `committed` instructions stand
/// in the program and `pending` more were read on the current line. A count
/// that no machine word holds counts as the largest that one holds.
pub open spec fn next_position(committed: nat, pending: nat) -> usize {
    if committed + pending <= usize::MAX {
        (committed + pending) as usize
    } else {
        usize::MAX
    }
}

/// Whether the token defines a label: whether it ends with a colon.
pub open spec fn is_label_definition(token: Seq<char>) -> bool {
    token.len() > 0 && token.last() == ':'
}

/// What is said where a label is defined a second time.
pub open spec fn label_redefined(name: Seq<char>) -> Seq<char> {
    "Label \""@ + name + "\" was already defined"@
}

/// What is said where a name is defined a second time.
pub open spec fn define_redefined(name: Seq<char>) -> Seq<char> {
    "Definition of \""@ + name + "\" already exists"@
}

/// The tokens with each defined name replaced by its text. The text that
/// comes in is not looked up again.
pub open spec fn substitute(defines: Map<Seq<char>, Seq<char>>, tokens: Seq<Seq<char>>) -> Seq<
    Seq<char>,
> {
    tokens.map_values(
        |token: Seq<char>|
            if defines.contains_key(token) {
                defines[token]
            } else {
                token
            },
    )
}

/// What one statement does.
///
/// A statement without a token is an error. A statement whose first token
/// ends with a colon defines the label named before the colon at `position`;
/// it takes no operand, and a label that exists is an error and stays as it
/// is. A statement that begins with `#define` gives the name that follows the
/// text after it; a name that exists is an error and keeps its text. Any
/// other statement is a mnemonic with its operands, in which each defined
/// name stands for its text.
pub open spec fn spec_parse_piece(
    labels: Map<Seq<char>, usize>,
    defines: Map<Seq<char>, Seq<char>>,
    piece: Seq<char>,
    position: usize,
    line: u32,
) -> StatementOutcome {
    let tokens = words(piece);
    let operands = tokens.subrange(1, tokens.len() as int);
    if tokens.len() == 0 {
        StatementOutcome { labels, defines, result: Err(error_on("Useless semicolon"@, line)) }
    } else if is_label_definition(tokens[0]) {
        let name = tokens[0].drop_last();
        if operands.len() != 0 {
            StatementOutcome {
                labels,
                defines,
                result: Err(error_on(wrong_count(seq![], operands.len()), line)),
            }
        } else if labels.contains_key(name) {
            StatementOutcome { labels, defines, result: Err(error_on(label_redefined(name), line)) }
        } else {
            StatementOutcome { labels: labels.insert(name, position), defines, result: Ok(None) }
        }
    } else if tokens[0] == "#define"@ {
        if operands.len() != 2 {
            StatementOutcome {
                labels,
                defines,
                result: Err(error_on(wrong_count(seq!["Name"@, "Value"@], operands.len()), line)),
            }
        } else if defines.contains_key(operands[0]) {
            StatementOutcome {
                labels,
                defines,
                result: Err(error_on(define_redefined(operands[0]), line)),
            }
        } else {
            StatementOutcome {
                labels,
                defines: defines.insert(operands[0], operands[1]),
                result: Ok(None),
            }
        }
    } else {
        StatementOutcome {
            labels,
            defines,
            result: match spec_decode(tokens[0], substitute(defines, operands), line) {
                Ok(instruction) => Ok(Some(instruction)),
                Err(error) => Err(error),
            },
        }
    }
}

/// What a line leaves behind: the two tables, the instructions that its
/// statements stand for, and the errors found in it.
pub struct LineOutcome {
    /// The label table after the line.
    pub labels: Map<Seq<char>, usize>,
    /// The define table after the line.
    pub defines: Map<Seq<char>, Seq<char>>,
    /// The instructions of the line, in order, each with the line's number.
    pub emitted: Seq<(InstructionView, u32)>,
    /// The errors of the line, in order.
    pub errors: Seq<AssemblerErrorView>,
}

/// What one more statement does on a line that `before` describes so far,
/// where `committed` instructions stand in the program before the line.
///
/// The statement sees the tables as the statements before it left them, and
/// the position of the next instruction counts the instructions read before
/// it on the same line.
pub open spec fn after_statement(
    before: LineOutcome,
    piece: Seq<char>,
    committed: nat,
    line: u32,
) -> LineOutcome {
    let outcome = spec_parse_piece(
        before.labels,
        before.defines,
        piece,
        next_position(committed, before.emitted.len()),
        line,
    );
    LineOutcome {
        labels: outcome.labels,
        defines: outcome.defines,
        emitted: match outcome.result {
            Ok(Some(instruction)) => before.emitted.push((instruction, line)),
            _ => before.emitted,
        },
        errors: match outcome.result {
            Err(error) => before.errors.push(error),
            _ => before.errors,
        },
    }
}

/// What a run of statements on one line does, where `committed` instructions
/// stand in the program before the line.
///
/// The statements are read from left to right. An error does not keep the
/// next statement from being read.
pub open spec fn after_statements(
    labels: Map<Seq<char>, usize>,
    defines: Map<Seq<char>, Seq<char>>,
    committed: nat,
    line: u32,
    pieces: Seq<Seq<char>>,
) -> LineOutcome
    decreases pieces.len(),
{
    if pieces.len() == 0 {
        LineOutcome { labels, defines, emitted: Seq::empty(), errors: Seq::empty() }
    } else {
        after_statement(
            after_statements(labels, defines, committed, line, pieces.drop_last()),
            pieces.last(),
            committed,
            line,
        )
    }
}

/// The first statements of a line and then one more are read as the
/// statements up to that one.
pub proof fn lemma_one_more_statement(
    labels: Map<Seq<char>, usize>,
    defines: Map<Seq<char>, Seq<char>>,
    committed: nat,
    line: u32,
    pieces: Seq<Seq<char>>,
    count: int,
)
    requires
        0 <= count < pieces.len(),
    ensures
        after_statements(labels, defines, committed, line, pieces.subrange(0, count + 1))
            == after_statement(
            after_statements(labels, defines, committed, line, pieces.subrange(0, count)),
            pieces[count],
            committed,
            line,
        ),
{
    assert(pieces.subrange(0, count + 1).drop_last() =~= pieces.subrange(0, count));
}

/// What one source line does to an assembler in the given state.
pub open spec fn spec_parse_line(state: AssemblerView, text: Seq<char>) -> LineOutcome {
    after_statements(
        state.labels,
        state.defines,
        state.instructions.len(),
        state.line,
        statements(text),
    )
}

/// What a text leaves behind: the assembler's state and the errors found.
pub struct ParseOutcome {
    /// The state of the assembler after the text.
    pub state: AssemblerView,
    /// The errors of the text, in order.
    pub errors: Seq<AssemblerErrorView>,
}

/// The number of the line at the given place, the first line having the
/// number one. Lines behind the last that 32 bits can count all have the
/// largest number.
pub open spec fn line_number(index: nat) -> u32 {
    if index < u32::MAX {
        (index + 1) as u32
    } else {
        u32::MAX
    }
}

/// The state after one more line: the line's tables, and the line's
/// instructions behind the program if the line had no error.
pub open spec fn after_line(state: AssemblerView, outcome: LineOutcome) -> AssemblerView {
    AssemblerView {
        config: state.config,
        instructions: if outcome.errors.len() == 0 {
            state.instructions + outcome.emitted
        } else {
            state.instructions
        },
        labels: outcome.labels,
        defines: outcome.defines,
        line: state.line,
    }
}

/// The state of an assembler that is about to read the line at the given
/// place.
pub open spec fn at_line(state: AssemblerView, index: nat) -> AssemblerView {
    AssemblerView {
        config: state.config,
        instructions: state.instructions,
        labels: state.labels,
        defines: state.defines,
        line: line_number(index),
    }
}

/// What one more line does behind the lines that `before` describes, where
/// `index` lines were read before it.
pub open spec fn after_one_line(before: ParseOutcome, text: Seq<char>, index: nat) -> ParseOutcome {
    let here = at_line(before.state, index);
    let outcome = spec_parse_line(here, text);
    ParseOutcome { state: after_line(here, outcome), errors: before.errors + outcome.errors }
}

/// What a run of source lines does to an assembler in the given state.
///
/// The lines are read in order and numbered from one. A line without an error
/// appends its instructions to the program; a line with an error appends none,
/// but its labels and defines stay.
pub open spec fn after_lines(start: AssemblerView, source: Seq<Seq<char>>) -> ParseOutcome
    decreases source.len(),
{
    if source.len() == 0 {
        ParseOutcome { state: start, errors: Seq::empty() }
    } else {
        after_one_line(
            after_lines(start, source.drop_last()),
            source.last(),
            (source.len() - 1) as nat,
        )
    }
}

/// The first lines of a text and then one more are read as the lines up to
/// that one.
pub proof fn lemma_one_more_line(start: AssemblerView, source: Seq<Seq<char>>, count: int)
    requires
        0 <= count < source.len(),
    ensures
        after_lines(start, source.subrange(0, count + 1)) == after_one_line(
            after_lines(start, source.subrange(0, count)),
            source[count],
            count as nat,
        ),
{
    assert(source.subrange(0, count + 1).drop_last() =~= source.subrange(0, count));
}

/// The error for a program that does not fit into the program space. It
/// belongs to no line.
pub open spec fn capacity_error() -> AssemblerErrorView {
    AssemblerErrorView {
        description: "Program reached maximum size (1024 instructions)"@,
        line: None,
    }
}

/// What parsing a text does to an assembler in the given state: its lines are
/// read in order, and if the program then holds more instructions than the
/// program space, that is one more error, behind the others.
pub open spec fn spec_parse(start: AssemblerView, text: Seq<char>) -> ParseOutcome {
    let read = after_lines(start, lines(text));
    if read.state.instructions.len() > PROGRAM_SPACE {
        ParseOutcome { state: read.state, errors: read.errors.push(capacity_error()) }
    } else {
        read
    }
}

/// The errors as plain values.
pub open spec fn error_views(errors: Seq<AssemblerError>) -> Seq<AssemblerErrorView> {
    errors.map_values(|error: AssemblerError| error@)
}

/// The errors that assembling finds: one for each instruction that names a
/// label that is not defined, on the line that the instruction was read on, in
/// the order of the program.
pub open spec fn encoding_errors(
    instructions: Seq<(InstructionView, u32)>,
    labels: Map<Seq<char>, usize>,
) -> Seq<AssemblerErrorView>
    decreases instructions.len(),
{
    if instructions.len() == 0 {
        Seq::empty()
    } else {
        let before = encoding_errors(instructions.drop_last(), labels);
        match instructions.last().0.word(instructions.len() - 1, labels) {
            Ok(_) => before,
            Err(description) => before.push(error_on(description, instructions.last().1)),
        }
    }
}

/// The words of the program: for each instruction the word that it makes at
/// its position, and zero for an instruction that names a label that is not
/// defined.
pub open spec fn encoded_words(
    instructions: Seq<(InstructionView, u32)>,
    labels: Map<Seq<char>, usize>,
) -> Seq<u16> {
    Seq::new(
        instructions.len(),
        |i: int|
            match instructions[i].0.word(i, labels) {
                Ok(word) => word as u16,
                Err(_) => 0u16,
            },
    )
}

/// What assembling gives: the words of the program, or the errors where there
/// are any.
pub open spec fn spec_assemble(
    instructions: Seq<(InstructionView, u32)>,
    labels: Map<Seq<char>, usize>,
) -> Result<Seq<u16>, Seq<AssemblerErrorView>> {
    if encoding_errors(instructions, labels).len() == 0 {
        Ok(encoded_words(instructions, labels))
    } else {
        Err(encoding_errors(instructions, labels))
    }
}

/// What is written out: the words of the program, as the configuration asks
/// for them, or the errors where there are any.
pub open spec fn spec_output(state: AssemblerView) -> Result<Seq<u8>, Seq<AssemblerErrorView>> {
    match spec_assemble(state.instructions, state.labels) {
        Ok(words) => Ok(
            if state.config.text_output {
                ascii(text_output(words))
            } else {
                binary_output(words)
            },
        ),
        Err(errors) => Err(errors),
    }
}

/// The assembler of one program.
pub struct Assembler {
    /// The choices of this assembly.
    pub config: AssemblerConfig,
    instructions: Vec<(Instruction, u32)>,
    labels: Labels,
    defines: Defines,
    line: u32,
}

/// The instructions as plain values, each with its line.
pub open spec fn instruction_views(instructions: Seq<(Instruction, u32)>) -> Seq<
    (InstructionView, u32),
> {
    instructions.map_values(|entry: (Instruction, u32)| (entry.0@, entry.1))
}

impl View for Assembler {
    type V = AssemblerView;

    closed spec fn view(&self) -> AssemblerView {
        AssemblerView {
            config: self.config,
            instructions: instruction_views(self.instructions@),
            labels: self.labels@,
            defines: self.defines@,
            line: self.line,
        }
    }
}

impl Assembler {
    /// An assembler without instructions and labels. Where the configuration
    /// asks for them, the names of the machine's ports are defined.
    pub fn new(config: AssemblerConfig) -> (assembler: Self)
        ensures
            assembler@.config == config,
            assembler@.instructions.len() == 0,
            assembler@.labels == Map::<Seq<char>, usize>::empty(),
            assembler@.defines == (if config.default_defines {
                port_defines()
            } else {
                Map::<Seq<char>, Seq<char>>::empty()
            }),
            assembler@.line == 0,
    {
        let defines = if config.default_defines {
            Defines::ports()
        } else {
            Defines::new()
        };
        Self { config, instructions: Vec::new(), labels: Labels::new(), defines, line: 0 }
    }

    /// Returns the number of instructions read so far.
    pub fn instruction_count(&self) -> (count: usize)
        ensures
            count == self@.instructions.len(),
    {
        self.instructions.len()
    }

    /// Returns the position that a label marks, or `None` where no label of
    /// that name is defined.
    pub fn label(&self, name: &str) -> (position: Option<usize>)
        ensures
            position == (if self@.labels.contains_key(name@) {
                Some(self@.labels[name@])
            } else {
                None
            }),
    {
        self.labels.get(name)
    }

    /// Reads one statement, where the next instruction will stand at
    /// `position`.
    ///
    /// Returns the instruction that the statement stands for, or `None` for a
    /// statement that defines a label or a name. Only the two tables change,
    /// and on an error nothing does.
    pub fn parse_piece(&mut self, piece: &str, position: usize) -> (r: Result<
        Option<Instruction>,
        AssemblerError,
    >)
        ensures
            final(self)@ == old(self)@.with_tables(
                old(self)@.statement(piece@, position).labels,
                old(self)@.statement(piece@, position).defines,
            ),
            result_view(r) == old(self)@.statement(piece@, position).result,
            r matches Ok(Some(instruction)) ==> instruction@.wf(),
    {
        let chars = chars_of(piece);
        self.parse_piece_chars(chars.as_slice(), position)
    }

    /// Reads one statement, given as characters.
    fn parse_piece_chars(&mut self, piece: &[char], position: usize) -> (r: Result<
        Option<Instruction>,
        AssemblerError,
    >)
        ensures
            final(self)@ == old(self)@.with_tables(
                old(self)@.statement(piece@, position).labels,
                old(self)@.statement(piece@, position).defines,
            ),
            result_view(r) == old(self)@.statement(piece@, position).result,
            r matches Ok(Some(instruction)) ==> instruction@.wf(),
    {
        let found = words_slice(piece);
        if found.len() == 0 {
            return Err(AssemblerError::new_line(String::from_str("Useless semicolon"), self.line));
        }
        let ghost tokens = views(found@);
        let ghost operands = tokens.subrange(1, tokens.len() as int);
        let name = found[0].as_slice();
        let count = found.len() - 1;
        if name.len() > 0 && name[name.len() - 1] == ':' {
            let nothing: Vec<&'static str> = Vec::new();
            proof {
                assert(nothing@.map_values(|item: &'static str| item@) =~= seq![]);
            }
            match crate::decode::check_arguments(count, &nothing, self.line) {
                Err(error) => { return Err(error); },
                Ok(()) => {},
            }
            let label = vstd::slice::slice_subrange(name, 0, name.len() - 1);
            proof {
                assert(label@ =~= tokens[0].drop_last());
            }
            if self.labels.define(string_of(label), position) {
                return Ok(None);
            }
            let description = enclose("Label \"", label, "\" was already defined");
            return Err(AssemblerError::new_line(description, self.line));
        }
        if spells(name, "#define") {
            let mut expected: Vec<&'static str> = Vec::new();
            expected.push("Name");
            expected.push("Value");
            proof {
                assert(expected@.map_values(|item: &'static str| item@) =~= seq![
                    "Name"@,
                    "Value"@,
                ]);
            }
            match crate::decode::check_arguments(count, &expected, self.line) {
                Err(error) => { return Err(error); },
                Ok(()) => {},
            }
            let defined = string_of(found[1].as_slice());
            let text = string_of(found[2].as_slice());
            if self.defines.define(defined, text) {
                return Ok(None);
            }
            let description = enclose(
                "Definition of \"",
                found[1].as_slice(),
                "\" already exists",
            );
            return Err(AssemblerError::new_line(description, self.line));
        }
        let mut replaced: Vec<String> = Vec::new();
        let mut i: usize = 1;
        while i < found.len()
            invariant
                1 <= i <= found.len(),
                tokens == views(found@),
                operands == tokens.subrange(1, tokens.len() as int),
                texts(replaced@) == substitute(self.defines@, operands.subrange(0, i - 1)),
            decreases found.len() - i,
        {
            let token = string_of(found[i].as_slice());
            let ghost before = texts(replaced@);
            match self.defines.get(token.as_str()) {
                Some(text) => replaced.push(text.clone()),
                None => replaced.push(token),
            }
            proof {
                assert(operands.subrange(0, i as int) =~= operands.subrange(0, i - 1).push(
                    tokens[i as int],
                ));
                assert(texts(replaced@) =~= before.push(replaced@.last()@));
                assert(substitute(self.defines@, operands.subrange(0, i as int)) =~= substitute(
                    self.defines@,
                    operands.subrange(0, i - 1),
                ).push(replaced@.last()@));
            }
            i += 1;
        }
        proof {
            assert(operands.subrange(0, i - 1) =~= operands);
        }
        let mnemonic = string_of(name);
        match decode(mnemonic.as_str(), &replaced, self.line) {
            Ok(instruction) => Ok(Some(instruction)),
            Err(error) => Err(error),
        }
    }

    /// Reads one source line.
    ///
    /// Returns the instructions of the line, each with the number of the
    /// line, or all the errors found in it. The program itself stays as it
    /// is; the labels and names that the line defines are kept either way.
    pub fn parse_line(&mut self, line: &str) -> (r: Result<
        Vec<(Instruction, u32)>,
        Vec<AssemblerError>,
    >)
        ensures
            final(self)@ == old(self)@.with_tables(
                spec_parse_line(old(self)@, line@).labels,
                spec_parse_line(old(self)@, line@).defines,
            ),
            match r {
                Ok(instructions) => spec_parse_line(old(self)@, line@).errors.len() == 0
                    && instruction_views(instructions@) == spec_parse_line(
                    old(self)@,
                    line@,
                ).emitted,
                Err(errors) => errors.len() > 0 && error_views(errors@) == spec_parse_line(
                    old(self)@,
                    line@,
                ).errors,
            },
    {
        let chars = chars_of(line);
        self.parse_line_chars(chars.as_slice())
    }

    /// Reads one source line, given as characters.
    fn parse_line_chars(&mut self, line: &[char]) -> (r: Result<
        Vec<(Instruction, u32)>,
        Vec<AssemblerError>,
    >)
        ensures
            final(self)@ == old(self)@.with_tables(
                spec_parse_line(old(self)@, line@).labels,
                spec_parse_line(old(self)@, line@).defines,
            ),
            match r {
                Ok(instructions) => spec_parse_line(old(self)@, line@).errors.len() == 0
                    && instruction_views(instructions@) == spec_parse_line(
                    old(self)@,
                    line@,
                ).emitted,
                Err(errors) => errors.len() > 0 && error_views(errors@) == spec_parse_line(
                    old(self)@,
                    line@,
                ).errors,
            },
    {
        let pieces = statements_slice(line);
        let committed = self.instructions.len();
        let mut instructions: Vec<(Instruction, u32)> = Vec::new();
        let mut errors: Vec<AssemblerError> = Vec::new();
        let ghost start = self@;
        let ghost mut progress = LineOutcome {
            labels: start.labels,
            defines: start.defines,
            emitted: Seq::empty(),
            errors: Seq::empty(),
        };
        proof {
            assert(instruction_views(instructions@) =~= progress.emitted);
            assert(error_views(errors@) =~= progress.errors);
        }
        let mut i: usize = 0;
        while i < pieces.len()
            invariant
                i <= pieces.len(),
                committed == start.instructions.len(),
                progress == after_statements(
                    start.labels,
                    start.defines,
                    committed as nat,
                    start.line,
                    views(pieces@).subrange(0, i as int),
                ),
                self@ == start.with_tables(progress.labels, progress.defines),
                instruction_views(instructions@) == progress.emitted,
                error_views(errors@) == progress.errors,
            decreases pieces.len() - i,
        {
            let position = if instructions.len() <= usize::MAX - committed {
                committed + instructions.len()
            } else {
                usize::MAX
            };
            let ghost piece = pieces@[i as int]@;
            let ghost next = after_statement(progress, piece, committed as nat, start.line);
            proof {
                lemma_one_more_statement(
                    start.labels,
                    start.defines,
                    committed as nat,
                    start.line,
                    views(pieces@),
                    i as int,
                );
                assert(views(pieces@)[i as int] == piece);
                assert(position == next_position(committed as nat, progress.emitted.len()));
            }
            let ghost emitted = instruction_views(instructions@);
            let ghost found = error_views(errors@);
            match self.parse_piece_chars(pieces[i].as_slice(), position) {
                Ok(Some(instruction)) => {
                    instructions.push((instruction, self.line));
                    proof {
                        assert(instruction_views(instructions@) =~= emitted.push(
                            (instructions@.last().0@, start.line),
                        ));
                    }
                },
                Ok(None) => {},
                Err(error) => {
                    errors.push(error);
                    proof {
                        assert(error_views(errors@) =~= found.push(errors@.last()@));
                    }
                },
            }
            proof {
                assert(instruction_views(instructions@) == next.emitted);
                assert(error_views(errors@) == next.errors);
                progress = next;
            }
            i += 1;
        }
        proof {
            assert(views(pieces@).subrange(0, i as int) =~= views(pieces@));
        }
        if errors.len() > 0 {
            Err(errors)
        } else {
            Ok(instructions)
        }
    }

    /// Reads a source text: the first pass.
    ///
    /// The lines are read in order and numbered from one, whatever was read
    /// before. Every line is read, whatever errors the lines before it had,
    /// and the errors come back in the order of their lines. A program that
    /// then holds more than 1024 instructions is one more error, the last one.
    pub fn parse(&mut self, input: &str) -> (r: Result<(), Vec<AssemblerError>>)
        ensures
            final(self)@ == spec_parse(old(self)@, input@).state,
            match r {
                Ok(()) => spec_parse(old(self)@, input@).errors.len() == 0,
                Err(errors) => errors.len() > 0 && error_views(errors@) == spec_parse(
                    old(self)@,
                    input@,
                ).errors,
            },
    {
        let chars = chars_of(input);
        let pieces = split_slice(chars.as_slice(), '\n');
        proof {
            lemma_split_has_a_piece(input@, '\n');
        }
        let count = if pieces[pieces.len() - 1].len() == 0 {
            pieces.len() - 1
        } else {
            pieces.len()
        };
        let ghost source = lines(input@);
        let ghost start = self@;
        proof {
            assert(source =~= views(pieces@).subrange(0, count as int));
        }
        let mut errors: Vec<AssemblerError> = Vec::new();
        let ghost mut progress = ParseOutcome { state: start, errors: Seq::empty() };
        proof {
            assert(error_views(errors@) =~= progress.errors);
        }
        let mut i: usize = 0;
        while i < count
            invariant
                i <= count <= pieces.len(),
                source == views(pieces@).subrange(0, count as int),
                progress == after_lines(start, source.subrange(0, i as int)),
                self@ == progress.state,
                error_views(errors@) == progress.errors,
            decreases count - i,
        {
            let ghost text = pieces@[i as int]@;
            let ghost next = after_one_line(progress, text, i as nat);
            proof {
                lemma_one_more_line(start, source, i as int);
                assert(source[i as int] == text);
            }
            self.line = if i < 0xffff_ffff {
                (i + 1) as u32
            } else {
                0xffff_ffff
            };
            proof {
                assert(self@ == at_line(progress.state, i as nat));
            }
            let ghost found = error_views(errors@);
            match self.parse_line_chars(pieces[i].as_slice()) {
                Ok(mut instructions) => {
                    let ghost program = instruction_views(self.instructions@);
                    let ghost emitted = instruction_views(instructions@);
                    self.instructions.append(&mut instructions);
                    proof {
                        assert(instruction_views(self.instructions@) =~= program + emitted);
                        assert(error_views(errors@) =~= found + Seq::<AssemblerErrorView>::empty());
                    }
                },
                Err(mut line_errors) => {
                    let ghost added = error_views(line_errors@);
                    errors.append(&mut line_errors);
                    proof {
                        assert(error_views(errors@) =~= found + added);
                    }
                },
            }
            proof {
                assert(self@ == next.state);
                assert(error_views(errors@) == next.errors);
                progress = next;
            }
            i += 1;
        }
        proof {
            assert(source.subrange(0, i as int) =~= source);
        }
        if self.instructions.len() > PROGRAM_SPACE {
            let ghost found = error_views(errors@);
            errors.push(
                AssemblerError::new(
                    String::from_str("Program reached maximum size (1024 instructions)"),
                ),
            );
            proof {
                assert(error_views(errors@) =~= found.push(capacity_error()));
            }
            return Err(errors);
        }
        if errors.len() > 0 {
            return Err(errors);
        }
        Ok(())
    }

    /// Turns the program into machine words: the second pass.
    ///
    /// The instruction at each position gives the word at that position, with
    /// every label bound as parsing left it. An instruction that names a label
    /// that is not defined is an error on the line it was read on; all such
    /// errors come back, in the order of the program, and then no word does.
    pub fn assemble(&self) -> (r: Result<Vec<u16>, Vec<AssemblerError>>)
        ensures
            match r {
                Ok(words) => spec_assemble(self@.instructions, self@.labels) == Ok::<
                    Seq<u16>,
                    Seq<AssemblerErrorView>,
                >(words@),
                Err(errors) => spec_assemble(self@.instructions, self@.labels) == Err::<
                    Seq<u16>,
                    Seq<AssemblerErrorView>,
                >(error_views(errors@)),
            },
    {
        let mut words: Vec<u16> = Vec::new();
        let mut errors: Vec<AssemblerError> = Vec::new();
        let ghost program = self@.instructions;
        let mut i: usize = 0;
        while i < self.instructions.len()
            invariant
                i <= self.instructions.len(),
                program == self@.instructions,
                program.len() == self.instructions.len(),
                words.len() == i,
                error_views(errors@) == encoding_errors(
                    program.subrange(0, i as int),
                    self@.labels,
                ),
                forall|j: int|
                    0 <= j < i ==> (match (#[trigger] program[j]).0.word(j, self@.labels) {
                        Ok(word) => word == words[j] as int,
                        Err(_) => true,
                    }),
                errors.len() == 0 ==> forall|j: int|
                    0 <= j < i ==> (#[trigger] program[j]).0.word(j, self@.labels) is Ok,
            decreases self.instructions.len() - i,
        {
            proof {
                assert(program.subrange(0, i + 1).drop_last() =~= program.subrange(0, i as int));
            }
            let ghost found = error_views(errors@);
            let entry = &self.instructions[i];
            match entry.0.binary(i, &self.labels) {
                Ok(word) => words.push(word),
                Err(error) => {
                    errors.push(AssemblerError::new_line(error.description, entry.1));
                    words.push(0);
                    proof {
                        assert(error_views(errors@) =~= found.push(errors@.last()@));
                    }
                },
            }
            i += 1;
        }
        proof {
            assert(program.subrange(0, i as int) =~= program);
            assert(errors.len() == 0 ==> words@ =~= encoded_words(program, self@.labels));
        }
        if errors.len() > 0 {
            Err(errors)
        } else {
            Ok(words)
        }
    }

    /// Turns the program into the bytes of the output file: the words as text
    /// where the configuration asks for text, each character one byte, and
    /// else two bytes for each word, the high byte first. Where assembling
    /// finds errors, they come back and no byte does.
    pub fn assemble_to_bytes(&self) -> (r: Result<Vec<u8>, Vec<AssemblerError>>)
        ensures
            match r {
                Ok(bytes) => spec_output(self@) == Ok::<Seq<u8>, Seq<AssemblerErrorView>>(
                    bytes@,
                ),
                Err(errors) => spec_output(self@) == Err::<Seq<u8>, Seq<AssemblerErrorView>>(
                    error_views(errors@),
                ),
            },
    {
        match self.assemble() {
            Ok(words) => Ok(render(&words, self.config.text_output)),
            Err(errors) => Err(errors),
        }
    }
}

/// A text split at a separator has at least one piece.
pub proof fn lemma_split_has_a_piece(s: Seq<char>, separator: char)
    ensures
        crate::text::split_on(s, separator).len() >= 1,
    decreases s.len(),
{
    if s.len() > 0 {
        lemma_split_has_a_piece(s.drop_last(), separator);
    }
}

/// What a statement gave, as plain values.
pub open spec fn result_view(r: Result<Option<Instruction>, AssemblerError>) -> Result<
    Option<InstructionView>,
    AssemblerErrorView,
> {
    match r {
        Ok(Some(instruction)) => Ok(Some(instruction@)),
        Ok(None) => Ok(None),
        Err(error) => Err(error@),
    }
}

/// A line without a statement does nothing: it gives no instruction and no
/// error, and leaves both tables as they were.
pub proof fn lemma_line_without_statement(state: AssemblerView, text: Seq<char>)
    requires
        statements(text).len() == 0,
    ensures
        spec_parse_line(state, text) == (LineOutcome {
            labels: state.labels,
            defines: state.defines,
            emitted: Seq::empty(),
            errors: Seq::empty(),
        }),
        after_line(state, spec_parse_line(state, text)) == state,
{
    assert(state.instructions + Seq::<(InstructionView, u32)>::empty() =~= state.instructions);
}

/// A line that holds white space alone, and a line that holds a comment alone
/// behind any white space, give no instruction and no error, and leave the
/// assembler as it was.
pub proof fn lemma_blank_or_comment_line(
    state: AssemblerView,
    blank: Seq<char>,
    comment: Seq<char>,
)
    requires
        crate::text::is_blank(blank),
    ensures
        spec_parse_line(state, blank).emitted.len() == 0,
        spec_parse_line(state, blank).errors.len() == 0,
        after_line(state, spec_parse_line(state, blank)) == state,
        spec_parse_line(state, blank + seq!['/', '/'] + comment).emitted.len() == 0,
        spec_parse_line(state, blank + seq!['/', '/'] + comment).errors.len() == 0,
        after_line(state, spec_parse_line(state, blank + seq!['/', '/'] + comment)) == state,
{
    crate::text::lemma_blank_line(blank);
    crate::text::lemma_comment_line(blank, comment);
    lemma_line_without_statement(state, blank);
    lemma_line_without_statement(state, blank + seq!['/', '/'] + comment);
}

/// A statement that defines no label is read without a look at the label
/// table or at its own position: it gives the same instruction, or the same
/// error, whether the labels it names are defined yet or not, and it leaves
/// the label table as it was.
pub proof fn lemma_reference_is_read_the_same(
    first: Map<Seq<char>, usize>,
    second: Map<Seq<char>, usize>,
    defines: Map<Seq<char>, Seq<char>>,
    piece: Seq<char>,
    here: usize,
    there: usize,
    line: u32,
)
    requires
        words(piece).len() > 0 ==> !is_label_definition(words(piece)[0]),
    ensures
        spec_parse_piece(first, defines, piece, here, line).result == spec_parse_piece(
            second,
            defines,
            piece,
            there,
            line,
        ).result,
        spec_parse_piece(first, defines, piece, here, line).defines == spec_parse_piece(
            second,
            defines,
            piece,
            there,
            line,
        ).defines,
        spec_parse_piece(first, defines, piece, here, line).labels == first,
{
}

/// A statement that defines a label that exists is an error, and leaves the
/// label at the position that it had.
pub proof fn lemma_duplicate_label(
    labels: Map<Seq<char>, usize>,
    defines: Map<Seq<char>, Seq<char>>,
    piece: Seq<char>,
    position: usize,
    line: u32,
)
    requires
        words(piece).len() == 1,
        is_label_definition(words(piece)[0]),
        labels.contains_key(words(piece)[0].drop_last()),
    ensures
        spec_parse_piece(labels, defines, piece, position, line) == (StatementOutcome {
            labels,
            defines,
            result: Err(error_on(label_redefined(words(piece)[0].drop_last()), line)),
        }),
{
    assert(words(piece).subrange(1, 1).len() == 0);
}

/// A statement that defines a label that does not exist yet binds it to the
/// position of the next instruction.
pub proof fn lemma_new_label(
    labels: Map<Seq<char>, usize>,
    defines: Map<Seq<char>, Seq<char>>,
    piece: Seq<char>,
    position: usize,
    line: u32,
)
    requires
        words(piece).len() == 1,
        is_label_definition(words(piece)[0]),
        !labels.contains_key(words(piece)[0].drop_last()),
    ensures
        spec_parse_piece(labels, defines, piece, position, line) == (StatementOutcome {
            labels: labels.insert(words(piece)[0].drop_last(), position),
            defines,
            result: Ok(None),
        }),
{
    assert(words(piece).subrange(1, 1).len() == 0);
}

/// The operands with every occurrence of one name written out as the given
/// text.
pub open spec fn written_out(operands: Seq<Seq<char>>, name: Seq<char>, text: Seq<char>) -> Seq<
    Seq<char>,
> {
    operands.map_values(
        |operand: Seq<char>|
            if operand == name {
                text
            } else {
                operand
            },
    )
}

/// A defined name stands for its text: operands that hold the name are read
/// as the same operands with the text written in its place, by every
/// mnemonic. The text must not itself be a defined name, for then the text
/// written in the source would be replaced once more.
pub proof fn lemma_define_stands_for_its_text(
    defines: Map<Seq<char>, Seq<char>>,
    name: Seq<char>,
    mnemonic: Seq<char>,
    operands: Seq<Seq<char>>,
    line: u32,
)
    requires
        defines.contains_key(name),
        !defines.contains_key(defines[name]),
    ensures
        substitute(defines, operands) == substitute(
            defines,
            written_out(operands, name, defines[name]),
        ),
        spec_decode(mnemonic, substitute(defines, operands), line) == spec_decode(
            mnemonic,
            substitute(defines, written_out(operands, name, defines[name])),
            line,
        ),
{
    assert(substitute(defines, operands) =~= substitute(
        defines,
        written_out(operands, name, defines[name]),
    ));
}

/// A program that holds more instructions than the program space fails with
/// the capacity error, which comes behind all other errors, whether or not
/// any line had an error of its own.
pub proof fn lemma_capacity(start: AssemblerView, text: Seq<char>)
    requires
        after_lines(start, lines(text)).state.instructions.len() > PROGRAM_SPACE,
    ensures
        spec_parse(start, text).errors.len() > 0,
        spec_parse(start, text).errors.last() == capacity_error(),
        spec_parse(start, text).errors.drop_last() == after_lines(start, lines(text)).errors,
{
    let read = after_lines(start, lines(text));
    assert(read.errors.push(capacity_error()).drop_last() =~= read.errors);
}

/// A statement takes nothing out of the tables and changes no entry: every
/// label keeps its position and every defined name its text.
pub proof fn lemma_statement_keeps_tables(
    labels: Map<Seq<char>, usize>,
    defines: Map<Seq<char>, Seq<char>>,
    piece: Seq<char>,
    position: usize,
    line: u32,
)
    ensures
        labels.submap_of(spec_parse_piece(labels, defines, piece, position, line).labels),
        defines.submap_of(spec_parse_piece(labels, defines, piece, position, line).defines),
{
}

/// The statements of a line take nothing out of the tables and change no
/// entry.
pub proof fn lemma_statements_keep_tables(
    labels: Map<Seq<char>, usize>,
    defines: Map<Seq<char>, Seq<char>>,
    committed: nat,
    line: u32,
    pieces: Seq<Seq<char>>,
)
    ensures
        labels.submap_of(after_statements(labels, defines, committed, line, pieces).labels),
        defines.submap_of(after_statements(labels, defines, committed, line, pieces).defines),
    decreases pieces.len(),
{
    if pieces.len() > 0 {
        lemma_statements_keep_tables(labels, defines, committed, line, pieces.drop_last());
        let before = after_statements(labels, defines, committed, line, pieces.drop_last());
        assert(after_statements(labels, defines, committed, line, pieces) == after_statement(
            before,
            pieces.last(),
            committed,
            line,
        ));
        lemma_statement_keeps_tables(
            before.labels,
            before.defines,
            pieces.last(),
            next_position(committed, before.emitted.len()),
            line,
        );
        let after = after_statements(labels, defines, committed, line, pieces);
        vstd::map_lib::lemma_submap_of_trans(labels, before.labels, after.labels);
        vstd::map_lib::lemma_submap_of_trans(defines, before.defines, after.defines);
    }
}

/// Reading more lines never moves what is there: the program grows at its end
/// alone, so every instruction keeps its position, and every label keeps the
/// position that it was defined with, and every defined name its text.
pub proof fn lemma_lines_keep_what_is_there(start: AssemblerView, source: Seq<Seq<char>>)
    ensures
        start.instructions.is_prefix_of(after_lines(start, source).state.instructions),
        start.labels.submap_of(after_lines(start, source).state.labels),
        start.defines.submap_of(after_lines(start, source).state.defines),
        after_lines(start, source).state.config == start.config,
    decreases source.len(),
{
    if source.len() > 0 {
        lemma_lines_keep_what_is_there(start, source.drop_last());
        let before = after_lines(start, source.drop_last());
        let here = at_line(before.state, (source.len() - 1) as nat);
        lemma_statements_keep_tables(
            here.labels,
            here.defines,
            here.instructions.len(),
            here.line,
            statements(source.last()),
        );
        let after = after_lines(start, source).state;
        vstd::map_lib::lemma_submap_of_trans(start.labels, before.state.labels, after.labels);
        vstd::map_lib::lemma_submap_of_trans(start.defines, before.state.defines, after.defines);
    }
}

/// Parsing never moves what is there: every instruction keeps its position,
/// every label the position that it was defined with, and every defined name
/// its text.
pub proof fn lemma_parse_keeps_what_is_there(start: AssemblerView, text: Seq<char>)
    ensures
        start.instructions.is_prefix_of(spec_parse(start, text).state.instructions),
        start.labels.submap_of(spec_parse(start, text).state.labels),
        start.defines.submap_of(spec_parse(start, text).state.defines),
{
    lemma_lines_keep_what_is_there(start, lines(text));
}

/// Whether every error is on a line, none on a line behind `last`, and each
/// on the line of the one before it or on a later line.
pub open spec fn in_line_order(errors: Seq<AssemblerErrorView>, last: u32) -> bool {
    &&& forall|i: int|
        0 <= i < errors.len() ==> (#[trigger] errors[i]).line is Some && errors[i].line->0 <= last
    &&& forall|i: int, j: int|
        0 <= i <= j < errors.len() ==> (#[trigger] errors[i]).line->0
            <= (#[trigger] errors[j]).line->0
}

/// An error of a statement is on the line of the statement.
pub proof fn lemma_statement_error_line(
    labels: Map<Seq<char>, usize>,
    defines: Map<Seq<char>, Seq<char>>,
    piece: Seq<char>,
    position: usize,
    line: u32,
)
    ensures
        spec_parse_piece(labels, defines, piece, position, line).result matches Err(error)
            ==> error.line == Some(line),
{
    let tokens = words(piece);
    crate::decode::lemma_decode_error_line(
        tokens[0],
        substitute(defines, tokens.subrange(1, tokens.len() as int)),
        line,
    );
}

/// Every error of a line is on that line, and every instruction of a line
/// carries the number of that line.
pub proof fn lemma_line_errors(
    labels: Map<Seq<char>, usize>,
    defines: Map<Seq<char>, Seq<char>>,
    committed: nat,
    line: u32,
    pieces: Seq<Seq<char>>,
)
    ensures
        forall|i: int|
            0 <= i < after_statements(labels, defines, committed, line, pieces).errors.len() ==> (
            #[trigger] after_statements(labels, defines, committed, line, pieces).errors[i]).line
                == Some(line),
        forall|i: int|
            0 <= i < after_statements(labels, defines, committed, line, pieces).emitted.len() ==> (
            #[trigger] after_statements(labels, defines, committed, line, pieces).emitted[i]).1
                == line,
    decreases pieces.len(),
{
    if pieces.len() > 0 {
        lemma_line_errors(labels, defines, committed, line, pieces.drop_last());
        let before = after_statements(labels, defines, committed, line, pieces.drop_last());
        lemma_statement_error_line(
            before.labels,
            before.defines,
            pieces.last(),
            next_position(committed, before.emitted.len()),
            line,
        );
        assert(after_statements(labels, defines, committed, line, pieces) == after_statement(
            before,
            pieces.last(),
            committed,
            line,
        ));
    }
}

/// The errors of a run of lines come in the order of the lines: every error
/// is on a line, and none is on an earlier line than the error before it.
pub proof fn lemma_errors_follow_the_lines(start: AssemblerView, source: Seq<Seq<char>>)
    ensures
        in_line_order(after_lines(start, source).errors, line_number(source.len())),
    decreases source.len(),
{
    if source.len() > 0 {
        lemma_errors_follow_the_lines(start, source.drop_last());
        let before = after_lines(start, source.drop_last());
        let index = (source.len() - 1) as nat;
        let here = at_line(before.state, index);
        let outcome = spec_parse_line(here, source.last());
        lemma_line_errors(
            here.labels,
            here.defines,
            here.instructions.len(),
            here.line,
            statements(source.last()),
        );
        let errors = before.errors + outcome.errors;
        assert(after_lines(start, source).errors == errors);
        assert(line_number(index) <= line_number(source.len()));
        assert forall|i: int| 0 <= i < errors.len() implies (#[trigger] errors[i]).line is Some
            && errors[i].line->0 <= line_number(source.len()) by {
            if i < before.errors.len() {
                assert(errors[i] == before.errors[i]);
            } else {
                assert(errors[i] == outcome.errors[i - before.errors.len()]);
            }
        }
        assert forall|i: int, j: int| 0 <= i <= j < errors.len() implies (#[trigger] errors[i])
            .line->0 <= (#[trigger] errors[j]).line->0 by {
            if j < before.errors.len() {
                assert(errors[i] == before.errors[i]);
                assert(errors[j] == before.errors[j]);
            } else if i < before.errors.len() {
                assert(errors[i] == before.errors[i]);
                assert(errors[j] == outcome.errors[j - before.errors.len()]);
            } else {
                assert(errors[i] == outcome.errors[i - before.errors.len()]);
                assert(errors[j] == outcome.errors[j - before.errors.len()]);
            }
        }
    }
}

/// The errors of parsing come in the order of the lines, and the one error
/// that belongs to no line, the capacity error, comes behind them all.
pub proof fn lemma_parse_errors_are_ordered(start: AssemblerView, text: Seq<char>)
    ensures
        spec_parse(start, text).errors == after_lines(start, lines(text)).errors || spec_parse(
            start,
            text,
        ).errors == after_lines(start, lines(text)).errors.push(capacity_error()),
        in_line_order(after_lines(start, lines(text)).errors, u32::MAX),
{
    lemma_errors_follow_the_lines(start, lines(text));
}

/// Whether every instruction has every operand in its range.
pub open spec fn well_formed(instructions: Seq<(InstructionView, u32)>) -> bool {
    forall|i: int| 0 <= i < instructions.len() ==> (#[trigger] instructions[i]).0.wf()
}

/// The instructions of a line have every operand in its range.
pub proof fn lemma_line_is_well_formed(
    labels: Map<Seq<char>, usize>,
    defines: Map<Seq<char>, Seq<char>>,
    committed: nat,
    line: u32,
    pieces: Seq<Seq<char>>,
)
    ensures
        well_formed(after_statements(labels, defines, committed, line, pieces).emitted),
    decreases pieces.len(),
{
    if pieces.len() > 0 {
        lemma_line_is_well_formed(labels, defines, committed, line, pieces.drop_last());
        let before = after_statements(labels, defines, committed, line, pieces.drop_last());
        let tokens = words(pieces.last());
        crate::decode::lemma_decoded_is_well_formed(
            tokens[0],
            substitute(before.defines, tokens.subrange(1, tokens.len() as int)),
            line,
        );
        assert(after_statements(labels, defines, committed, line, pieces) == after_statement(
            before,
            pieces.last(),
            committed,
            line,
        ));
    }
}

/// No operand outside its range reaches the program: where every instruction
/// had its operands in their ranges before a run of lines, every instruction
/// has them behind it.
pub proof fn lemma_program_is_well_formed(start: AssemblerView, source: Seq<Seq<char>>)
    requires
        well_formed(start.instructions),
    ensures
        well_formed(after_lines(start, source).state.instructions),
    decreases source.len(),
{
    if source.len() > 0 {
        lemma_program_is_well_formed(start, source.drop_last());
        let before = after_lines(start, source.drop_last());
        let here = at_line(before.state, (source.len() - 1) as nat);
        lemma_line_is_well_formed(
            here.labels,
            here.defines,
            here.instructions.len(),
            here.line,
            statements(source.last()),
        );
    }
}

/// A text that parses without an error leaves a program that fits into the
/// program space.
pub proof fn lemma_parsed_program_fits(start: AssemblerView, text: Seq<char>)
    requires
        spec_parse(start, text).errors.len() == 0,
    ensures
        spec_parse(start, text).state.instructions.len() <= PROGRAM_SPACE,
{
}

} // verus!
