//! The assembler: from source text to a binary image.

use crate::assembler::instruction_parsers::{
    spec_directive_name, spec_has_operands, spec_label_name, spec_string_constant,
    AssemblerInstruction, InstructionView,
};
use crate::assembler::program_parsers::{generated, parse, spec_source, Program};
use crate::assembler::scanner::str_equal;
pub use crate::assembler::symbols::{Symbol, SymbolTable, SymbolType};
use crate::assembler::symbols::{lookup, SymbolView};
use crate::instruction::Opcode;
use vstd::prelude::*;
use vstd::std_specs::convert::FromSpecImpl;
use vstd::string::StrSliceExecFns;
use vstd::utf8::encode_utf8;

pub mod directive_parsers;
pub mod instruction_parsers;
pub mod label_parsers;
pub mod laws;
pub mod opcode_parsers;
pub mod operand_parsers;
pub mod program_parsers;
pub mod register_parsers;
pub mod scanner;
pub mod symbols;

verus! {

/// One lexical unit of assembly text.
#[derive(Debug, PartialEq, Clone)]
pub enum Token {
    Op { code: Opcode },
    Register { reg_num: u8 },
    Number { value: i32 },
    LabelDeclaration { name: String },
    LabelUsage { name: String },
    Directive { name: String },
    IrString { literal: String },
}

/// A token as a mathematical value: its text is a sequence of characters.
pub enum TokenView {
    Op { code: Opcode },
    Register { reg_num: u8 },
    Number { value: i32 },
    LabelDeclaration { name: Seq<char> },
    LabelUsage { name: Seq<char> },
    Directive { name: Seq<char> },
    IrString { literal: Seq<char> },
}

impl View for Token {
    type V = TokenView;

    open spec fn view(&self) -> TokenView {
        match self {
            Token::Op { code } => TokenView::Op { code: *code },
            Token::Register { reg_num } => TokenView::Register { reg_num: *reg_num },
            Token::Number { value } => TokenView::Number { value: *value },
            Token::LabelDeclaration { name } => TokenView::LabelDeclaration { name: name@ },
            Token::LabelUsage { name } => TokenView::LabelUsage { name: name@ },
            Token::Directive { name } => TokenView::Directive { name: name@ },
            Token::IrString { literal } => TokenView::IrString { literal: literal@ },
        }
    }
}

/// The view of an optional token.
pub open spec fn token_option_view(t: Option<Token>) -> Option<TokenView> {
    match t {
        Some(t) => Some(t@),
        None => None,
    }
}

/// What can go wrong while a program is assembled.
#[derive(Debug, PartialEq, Clone)]
pub enum AssemblerError {
    /// A directive with operands whose name the assembler does not know, or
    /// a section header of an unknown name.
    UnknownDirectiveFound { directive: String },
    /// The record of this index declares a label before any section began.
    NoSegmentDeclarationFound { instruction: usize },
    /// A label was declared a second time.
    SymbolAlreadyDeclared,
    /// The record of this index holds a string constant that no label names.
    StringConstantDeclaredWithoutLabel { instruction: usize },
    /// The source is no program; `error` is the text that was not consumed.
    ParseError { error: String },
    /// An operand uses a label that was never declared.
    UnresolvedSymbol { name: String },
    /// The read-only data would take more than 256 bytes.
    DataSegmentOverflow,
    /// The record of this index declares a label at a code offset above 255.
    SymbolOffsetOverflow { instruction: usize },
    /// A record that cannot be encoded: it has no opcode, an operand that is
    /// no register, immediate or label usage, or operands wider than three
    /// bytes.
    MalformedInstruction,
}

/// An error as a mathematical value.
pub enum AssemblerErrorView {
    UnknownDirectiveFound { directive: Seq<char> },
    NoSegmentDeclarationFound { instruction: nat },
    SymbolAlreadyDeclared,
    StringConstantDeclaredWithoutLabel { instruction: nat },
    ParseError { error: Seq<char> },
    UnresolvedSymbol { name: Seq<char> },
    DataSegmentOverflow,
    SymbolOffsetOverflow { instruction: nat },
    MalformedInstruction,
}

impl View for AssemblerError {
    type V = AssemblerErrorView;

    open spec fn view(&self) -> AssemblerErrorView {
        match self {
            AssemblerError::UnknownDirectiveFound { directive } => {
                AssemblerErrorView::UnknownDirectiveFound { directive: directive@ }
            },
            AssemblerError::NoSegmentDeclarationFound { instruction } => {
                AssemblerErrorView::NoSegmentDeclarationFound { instruction: *instruction as nat }
            },
            AssemblerError::SymbolAlreadyDeclared => AssemblerErrorView::SymbolAlreadyDeclared,
            AssemblerError::StringConstantDeclaredWithoutLabel { instruction } => {
                AssemblerErrorView::StringConstantDeclaredWithoutLabel {
                    instruction: *instruction as nat,
                }
            },
            AssemblerError::ParseError { error } => AssemblerErrorView::ParseError {
                error: error@,
            },
            AssemblerError::UnresolvedSymbol { name } => AssemblerErrorView::UnresolvedSymbol {
                name: name@,
            },
            AssemblerError::DataSegmentOverflow => AssemblerErrorView::DataSegmentOverflow,
            AssemblerError::SymbolOffsetOverflow { instruction } => {
                AssemblerErrorView::SymbolOffsetOverflow { instruction: *instruction as nat }
            },
            AssemblerError::MalformedInstruction => AssemblerErrorView::MalformedInstruction,
        }
    }
}

/// The views of a list of errors, in order.
pub open spec fn errors_view(errors: Seq<AssemblerError>) -> Seq<AssemblerErrorView> {
    Seq::new(errors.len(), |i: int| errors[i]@)
}

/// What a parser that failed leaves behind: the text it could not consume.
#[derive(Debug, PartialEq, Clone)]
pub struct SyntaxError {
    pub remainder: String,
}

/// Whether `r`, the outcome of a parser, is the outcome `expected` that the
/// grammar gives for the same text and position: the same value, seen
/// through its view, and the same position after it.
pub open spec fn parsed_at<T: View>(r: Option<(T, usize)>, expected: Option<(T::V, int)>) -> bool {
    match r {
        Some((t, end)) => expected == Some((t@, end as int)),
        None => expected is None,
    }
}

/// Whether `r`, what a parser made of the text `input`, is the outcome
/// `expected` that the grammar gives at the start of that text: on success
/// the value and the text that follows it, on failure the whole text.
pub open spec fn parsed_from<T: View>(
    input: Seq<char>,
    r: Result<(&str, T), SyntaxError>,
    expected: Option<(T::V, int)>,
) -> bool {
    match r {
        Ok((rest, t)) => expected == Some((t@, input.len() - rest@.len())) && rest@
            == input.skip(input.len() - rest@.len()),
        Err(e) => expected is None && e.remainder@ == input,
    }
}

/// Turns the outcome of a parser that ran on the characters of `input`
/// into the text that follows what it consumed, or into the error that
/// holds all of `input`.
pub(crate) fn finish<'a, T>(input: &'a str, n: usize, r: Option<(T, usize)>) -> (out: Result<
    (&'a str, T),
    SyntaxError,
>)
    requires
        n == input@.len(),
        r matches Some((_, end)) ==> end <= n,
    ensures
        match r {
            Some((t, end)) => out matches Ok((rest, t2)) && t2 == t && rest@ == input@.skip(
                end as int,
            ),
            None => out matches Err(e) && e.remainder@ == input@,
        },
{
    match r {
        Some((t, end)) => {
            let rest = input.substring_char(end, n);
            Ok((rest, t))
        },
        None => Err(SyntaxError { remainder: input.to_owned() }),
    }
}

/// The four bytes that every image begins with.
pub const PIE_HEADER_PREFIX: [u8; 4] = [45, 50, 49, 45];

/// The length of the header of an image.
pub const PIE_HEADER_LENGTH: usize = 64;

/// The two passes of the assembler.
#[derive(Debug, PartialEq, Eq, Structural, Clone, Copy)]
pub enum AssemblerPhase {
    First,
    Second,
}

/// The sections of a program.
#[derive(Debug, PartialEq, Eq, Structural, Clone, Copy)]
pub enum AssemblerSection {
    Data,
    Code,
    Unknown,
}

/// The section that a header of the given name begins.
pub open spec fn section_of(name: Seq<char>) -> AssemblerSection {
    if name == "data"@ {
        AssemblerSection::Data
    } else if name == "code"@ {
        AssemblerSection::Code
    } else {
        AssemblerSection::Unknown
    }
}

impl<'a> From<&'a str> for AssemblerSection {
    fn from(name: &'a str) -> (section: AssemblerSection) {
        if str_equal(name, "data") {
            AssemblerSection::Data
        } else if str_equal(name, "code") {
            AssemblerSection::Code
        } else {
            AssemblerSection::Unknown
        }
    }
}

impl<'a> FromSpecImpl<&'a str> for AssemblerSection {
    open spec fn obeys_from_spec() -> bool {
        true
    }

    open spec fn from_spec(name: &'a str) -> AssemblerSection {
        section_of(name@)
    }
}

/// The header of an image: the magic prefix, then zeros up to 64 bytes.
pub open spec fn header() -> Seq<u8> {
    Seq::new(64, |i: int| if i == 0 {
            45u8
        } else if i == 1 {
            50u8
        } else if i == 2 {
            49u8
        } else if i == 3 {
            45u8
        } else {
            0u8
        })
}

/// The state of an assembler as a mathematical value.
pub struct AssemblerState {
    pub phase: AssemblerPhase,
    /// The labels bound so far.
    pub symbols: Seq<SymbolView>,
    /// The read-only data emitted so far.
    pub ro: Seq<u8>,
    /// The code segment of the last program that was assembled.
    pub bytecode: Seq<u8>,
    /// The section that the records now belong to.
    pub section: Option<AssemblerSection>,
    /// The index of the record that comes next.
    pub current_instruction: nat,
    /// How many of the records so far have an opcode; four times this is
    /// the code offset of the next one.
    pub code_records: nat,
    pub errors: Seq<AssemblerErrorView>,
    /// What was reported without stopping the assembly.
    pub warnings: Seq<AssemblerErrorView>,
}

/// The state of an assembler that has seen nothing.
pub open spec fn initial_state() -> AssemblerState {
    AssemblerState {
        phase: AssemblerPhase::First,
        symbols: Seq::empty(),
        ro: Seq::empty(),
        bytecode: Seq::empty(),
        section: None,
        current_instruction: 0,
        code_records: 0,
        errors: Seq::empty(),
        warnings: Seq::empty(),
    }
}

/// The state with one more error.
pub open spec fn with_error(st: AssemblerState, e: AssemblerErrorView) -> AssemblerState {
    AssemblerState { errors: st.errors.push(e), ..st }
}

/// The state with one more warning.
pub open spec fn with_warning(st: AssemblerState, e: AssemblerErrorView) -> AssemblerState {
    AssemblerState { warnings: st.warnings.push(e), ..st }
}

/// Whether the record is a string constant: an `asciiz` directive whose
/// first operand is a string literal. A label on such a record names data.
pub open spec fn is_string_constant(ins: InstructionView) -> bool {
    spec_directive_name(ins) == Some("asciiz"@) && spec_string_constant(ins) is Some
}

/// The symbols after the label of `ins` is bound to `offset`, or why it
/// cannot be bound: no section has begun, the label holds no name, the
/// name is bound already, or there is no offset to give (`overflow`).
pub open spec fn bound(
    st: AssemblerState,
    ins: InstructionView,
    offset: Option<u8>,
    overflow: AssemblerErrorView,
) -> Result<Seq<SymbolView>, AssemblerErrorView> {
    if st.section is None {
        Err(AssemblerErrorView::NoSegmentDeclarationFound { instruction: st.current_instruction })
    } else {
        match spec_label_name(ins) {
            None => Err(AssemblerErrorView::MalformedInstruction),
            Some(name) => if lookup(st.symbols, name) is Some {
                Err(AssemblerErrorView::SymbolAlreadyDeclared)
            } else {
                match offset {
                    None => Err(overflow),
                    Some(offset) => Ok(st.symbols.push(SymbolView { name, offset })),
                }
            },
        }
    }
}

/// The code offset of the next record with an opcode, if it is at most 255.
pub open spec fn code_offset(st: AssemblerState) -> Option<u8> {
    if st.code_records <= 63 {
        Some((4 * st.code_records) as u8)
    } else {
        None
    }
}

/// What the label of a record does to the state. A record without a label
/// changes nothing here, and the label of a string constant is bound with
/// its data; any other label is bound to the current code offset.
pub open spec fn label_step(st: AssemblerState, ins: InstructionView) -> AssemblerState {
    if ins.label is None || is_string_constant(ins) {
        st
    } else {
        match bound(
            st,
            ins,
            code_offset(st),
            AssemblerErrorView::SymbolOffsetOverflow { instruction: st.current_instruction },
        ) {
            Ok(symbols) => AssemblerState { symbols, ..st },
            Err(e) => with_error(st, e),
        }
    }
}

/// The bytes that a string constant takes in the data segment: its text in
/// UTF-8 and a zero byte.
pub open spec fn constant_bytes(text: Seq<char>) -> Seq<u8> {
    encode_utf8(text).push(0u8)
}

/// The data offset at which a constant of `n` bytes can be put, if it fits
/// into the 256 bytes of the segment.
pub open spec fn data_offset(st: AssemblerState, n: nat) -> Option<u8> {
    if st.ro.len() + n <= 256 && st.ro.len() <= 255 {
        Some(st.ro.len() as u8)
    } else {
        None
    }
}

/// What an `asciiz` directive with operands does to the state. With a
/// string literal and a label, the label is bound to the current data
/// offset and the constant's bytes are appended to the data. Without a
/// label the constant is dropped with a warning; without a string literal
/// the record is reported as malformed, also as a warning.
pub open spec fn asciiz_step(st: AssemblerState, ins: InstructionView) -> AssemblerState {
    match spec_string_constant(ins) {
        None => with_warning(st, AssemblerErrorView::MalformedInstruction),
        Some(text) => if ins.label is None {
            with_warning(
                st,
                AssemblerErrorView::StringConstantDeclaredWithoutLabel {
                    instruction: st.current_instruction,
                },
            )
        } else {
            match bound(
                st,
                ins,
                data_offset(st, constant_bytes(text).len()),
                AssemblerErrorView::DataSegmentOverflow,
            ) {
                Ok(symbols) => AssemblerState {
                    symbols,
                    ro: st.ro + constant_bytes(text),
                    ..st
                },
                Err(e) => with_error(st, e),
            }
        },
    }
}

/// What a section header of the given name does to the state: a known
/// name begins its section, an unknown one is a warning.
pub open spec fn section_step(st: AssemblerState, name: Seq<char>) -> AssemblerState {
    match section_of(name) {
        AssemblerSection::Unknown => with_warning(
            st,
            AssemblerErrorView::UnknownDirectiveFound { directive: name },
        ),
        section => AssemblerState { section: Some(section), ..st },
    }
}

/// What the directive of a record does to the state. Without operands it
/// is a section header. With operands it is `asciiz`, or an error.
pub open spec fn directive_step(st: AssemblerState, ins: InstructionView) -> AssemblerState {
    match spec_directive_name(ins) {
        None => with_error(st, AssemblerErrorView::MalformedInstruction),
        Some(name) => if spec_has_operands(ins) {
            if name == "asciiz"@ {
                asciiz_step(st, ins)
            } else {
                with_error(st, AssemblerErrorView::UnknownDirectiveFound { directive: name })
            }
        } else {
            section_step(st, name)
        },
    }
}

/// What one record does to the state in the first pass: its label, then
/// its directive, and the counters move on.
pub open spec fn record_step(st: AssemblerState, ins: InstructionView) -> AssemblerState {
    let labelled = label_step(st, ins);
    let directed = if ins.directive is Some {
        directive_step(labelled, ins)
    } else {
        labelled
    };
    AssemblerState {
        current_instruction: directed.current_instruction + 1,
        code_records: if ins.opcode is Some {
            directed.code_records + 1
        } else {
            directed.code_records
        },
        ..directed
    }
}

/// The state after the first pass has walked `records` from state `st`.
pub open spec fn discovered(st: AssemblerState, records: Seq<InstructionView>) -> AssemblerState
    decreases records.len(),
{
    if records.len() == 0 {
        st
    } else {
        record_step(discovered(st, records.drop_last()), records.last())
    }
}

/// The state of an assembler after it has assembled a source text. A text
/// that is no program leaves it as new. Else the first pass has walked
/// the records; where that gave no error, the second pass has encoded
/// them, and left either its errors or the code.
pub open spec fn assembler_after(source: Seq<char>) -> AssemblerState {
    match spec_source(source) {
        Err(_) => initial_state(),
        Ok(records) => {
            let first = AssemblerState {
                phase: AssemblerPhase::Second,
                ..discovered(initial_state(), records)
            };
            let (code, errors) = generated(records, first.symbols);
            if first.errors.len() > 0 {
                first
            } else if errors.len() > 0 {
                AssemblerState { errors, ..first }
            } else {
                AssemblerState { bytecode: code, ..first }
            }
        },
    }
}

/// The image that a source text assembles to, or the errors that it gives:
/// a text that is no program, or is followed by anything, gives a parse
/// error with the text that was not consumed; errors of the first pass
/// keep the second from running; and only a program without any error
/// becomes an image, which is the header, the data and the code.
pub open spec fn assembled(source: Seq<char>) -> Result<Seq<u8>, Seq<AssemblerErrorView>> {
    match spec_source(source) {
        Err(rest) => Err(seq![AssemblerErrorView::ParseError { error: rest }]),
        Ok(_) => {
            let last = assembler_after(source);
            if last.errors.len() > 0 {
                Err(last.errors)
            } else {
                Ok(header() + last.ro + last.bytecode)
            }
        },
    }
}

/// An image or the errors in its place, seen through their views.
pub open spec fn image_view(r: Result<Vec<u8>, Vec<AssemblerError>>) -> Result<
    Seq<u8>,
    Seq<AssemblerErrorView>,
> {
    match r {
        Ok(bytes) => Ok(bytes@),
        Err(errors) => Err(errors_view(errors@)),
    }
}

/// Every image begins with the four bytes of the magic prefix and is at
/// least 64 bytes long.
pub proof fn lemma_image_has_header(source: Seq<char>)
    requires
        assembled(source) is Ok,
    ensures
        assembled(source)->Ok_0.len() >= 64,
        assembled(source)->Ok_0.take(4) == seq![45u8, 50u8, 49u8, 45u8],
        assembled(source)->Ok_0.take(64) == header(),
{
    let image = assembled(source)->Ok_0;
    assert(image.take(4) =~= seq![45u8, 50u8, 49u8, 45u8]);
    assert(image.take(64) =~= header());
}

/// Appends a copy of `src` to `dst`.
pub fn append_bytes(dst: &mut Vec<u8>, src: &[u8])
    ensures
        final(dst)@ == old(dst)@ + src@,
{
    let mut i: usize = 0;
    while i < src.len()
        invariant
            i <= src@.len(),
            dst@ == old(dst)@ + src@.take(i as int),
        decreases src@.len() - i,
    {
        dst.push(src[i]);
        i += 1;
        assert(src@.take(i as int) =~= src@.take(i - 1).push(src@[i - 1]));
        assert(dst@ =~= old(dst)@ + src@.take(i as int));
    }
    assert(src@.take(i as int) =~= src@);
}

/// A copy of an error.
pub fn clone_error(e: &AssemblerError) -> (c: AssemblerError)
    ensures
        c@ == e@,
{
    match e {
        AssemblerError::UnknownDirectiveFound { directive } => {
            AssemblerError::UnknownDirectiveFound { directive: directive.clone() }
        },
        AssemblerError::NoSegmentDeclarationFound { instruction } => {
            AssemblerError::NoSegmentDeclarationFound { instruction: *instruction }
        },
        AssemblerError::SymbolAlreadyDeclared => AssemblerError::SymbolAlreadyDeclared,
        AssemblerError::StringConstantDeclaredWithoutLabel { instruction } => {
            AssemblerError::StringConstantDeclaredWithoutLabel { instruction: *instruction }
        },
        AssemblerError::ParseError { error } => AssemblerError::ParseError {
            error: error.clone(),
        },
        AssemblerError::UnresolvedSymbol { name } => AssemblerError::UnresolvedSymbol {
            name: name.clone(),
        },
        AssemblerError::DataSegmentOverflow => AssemblerError::DataSegmentOverflow,
        AssemblerError::SymbolOffsetOverflow { instruction } => {
            AssemblerError::SymbolOffsetOverflow { instruction: *instruction }
        },
        AssemblerError::MalformedInstruction => AssemblerError::MalformedInstruction,
    }
}

/// A copy of a list of errors.
pub fn clone_errors(errors: &Vec<AssemblerError>) -> (c: Vec<AssemblerError>)
    ensures
        errors_view(c@) == errors_view(errors@),
{
    let mut c: Vec<AssemblerError> = Vec::new();
    let mut i: usize = 0;
    while i < errors.len()
        invariant
            i <= errors@.len(),
            c@.len() == i,
            forall|k: int| 0 <= k < i ==> c@[k]@ == errors@[k]@,
        decreases errors@.len() - i,
    {
        c.push(clone_error(&errors[i]));
        i += 1;
    }
    assert(errors_view(c@) =~= errors_view(errors@));
    c
}

/// The assembler: what it has found in the program so far, and the errors
/// and warnings that it met.
#[derive(Debug)]
pub struct Assembler {
    pub phase: AssemblerPhase,
    pub symbols: SymbolTable,
    pub ro: Vec<u8>,
    pub bytecode: Vec<u8>,
    current_section: Option<AssemblerSection>,
    current_instruction: usize,
    code_records: usize,
    errors: Vec<AssemblerError>,
    warnings: Vec<AssemblerError>,
}

impl View for Assembler {
    type V = AssemblerState;

    closed spec fn view(&self) -> AssemblerState {
        AssemblerState {
            phase: self.phase,
            symbols: self.symbols@,
            ro: self.ro@,
            bytecode: self.bytecode@,
            section: self.current_section,
            current_instruction: self.current_instruction as nat,
            code_records: self.code_records as nat,
            errors: errors_view(self.errors@),
            warnings: errors_view(self.warnings@),
        }
    }
}

impl Assembler {
    /// Whether the counters of the assembler leave room for `n` more
    /// records.
    pub open spec fn has_room(&self, n: nat) -> bool {
        self@.code_records <= self@.current_instruction && self@.current_instruction + n
            <= usize::MAX
    }

    /// An assembler that has seen nothing.
    pub fn new() -> (a: Assembler)
        ensures
            a@ == initial_state(),
    {
        let a = Assembler {
            phase: AssemblerPhase::First,
            symbols: SymbolTable::new(),
            ro: Vec::new(),
            bytecode: Vec::new(),
            current_section: None,
            current_instruction: 0,
            code_records: 0,
            errors: Vec::new(),
            warnings: Vec::new(),
        };
        assert(errors_view(a.errors@) =~= Seq::empty());
        assert(errors_view(a.warnings@) =~= Seq::empty());
        a
    }

    /// What was reported without stopping the last assembly.
    pub fn warnings(&self) -> (w: &Vec<AssemblerError>)
        ensures
            errors_view(w@) == self@.warnings,
    {
        &self.warnings
    }

    /// Assembles `raw` into an image: the header, the read-only data and
    /// the code. Whatever the assembler held before is forgotten first.
    pub fn assemble(&mut self, raw: &str) -> (r: Result<Vec<u8>, Vec<AssemblerError>>)
        ensures
            image_view(r) == assembled(raw@),
            final(self)@ == assembler_after(raw@),
            r matches Ok(image) ==> {
                &&& image@ == header() + final(self)@.ro + final(self)@.bytecode
                &&& image@.len() >= 64
                &&& image@.take(4) == seq![45u8, 50u8, 49u8, 45u8]
            },
            r matches Err(errors) ==> errors@.len() > 0,
    {
        *self = Assembler::new();
        match parse(raw) {
            Ok(program) => {
                let mut assembled_program = self.write_pie_header();
                // A program holds no more records than a `usize` can count.
                let count: usize = program.instructions.len();
                assert(program@.len() == count);
                self.process_first_phase(&program);
                if !self.errors.is_empty() {
                    return Err(clone_errors(&self.errors));
                }
                let body = self.process_second_phase(&program);
                if !self.errors.is_empty() {
                    return Err(clone_errors(&self.errors));
                }
                append_bytes(&mut assembled_program, self.ro.as_slice());
                append_bytes(&mut assembled_program, body.as_slice());
                self.bytecode = body;
                proof {
                    lemma_image_has_header(raw@);
                }
                Ok(assembled_program)
            },
            Err(e) => {
                let error = AssemblerError::ParseError { error: e.remainder };
                let ghost shown = error@;
                let mut errors: Vec<AssemblerError> = Vec::new();
                errors.push(error);
                assert(errors_view(errors@) =~= seq![shown]);
                Err(errors)
            },
        }
    }

    /// The first pass: finds the labels and the data of `p`.
    fn process_first_phase(&mut self, p: &Program)
        requires
            old(self).has_room(p@.len()),
        ensures
            final(self)@ == (AssemblerState {
                phase: AssemblerPhase::Second,
                ..discovered(old(self)@, p@)
            }),
    {
        self.extract_labels_and_directives(p);
        self.phase = AssemblerPhase::Second;
    }

    /// The second pass: encodes the records of `p` that have an opcode.
    /// Gives the code, or no bytes and the errors, which it adds to those
    /// of the assembler.
    fn process_second_phase(&mut self, p: &Program) -> (code: Vec<u8>)
        ensures
            final(self)@ == (AssemblerState {
                errors: old(self)@.errors + generated(p@, old(self)@.symbols).1,
                ..old(self)@
            }),
            generated(p@, old(self)@.symbols).1.len() == 0 ==> code@ == generated(
                p@,
                old(self)@.symbols,
            ).0,
            final(self).ro == old(self).ro,
    {
        match p.to_bytes(&self.symbols) {
            Ok(code) => {
                assert(self@.errors + Seq::<AssemblerErrorView>::empty() =~= self@.errors);
                code
            },
            Err(mut errors) => {
                let ghost added = errors_view(errors@);
                self.errors.append(&mut errors);
                assert(errors_view(self.errors@) =~= old(self)@.errors + added);
                Vec::new()
            },
        }
    }

    /// Walks the records of `p` in source order.
    fn extract_labels_and_directives(&mut self, p: &Program)
        requires
            old(self).has_room(p@.len()),
        ensures
            final(self)@ == discovered(old(self)@, p@),
    {
        let mut k: usize = 0;
        while k < p.instructions.len()
            invariant
                k <= p.instructions@.len(),
                self.has_room((p@.len() - k) as nat),
                self@ == discovered(old(self)@, p@.take(k as int)),
            decreases p.instructions@.len() - k,
        {
            let i = &p.instructions[k];
            proof {
                assert(p@.take(k + 1).drop_last() =~= p@.take(k as int));
                assert(p@.take(k + 1).last() == i@);
            }
            self.process_record(i);
            k += 1;
        }
        assert(p@.take(k as int) =~= p@);
    }

    /// Handles one record in the first pass.
    fn process_record(&mut self, i: &AssemblerInstruction)
        requires
            old(self).has_room(1),
        ensures
            final(self)@ == record_step(old(self)@, i@),
            final(self).has_room(0),
            final(self).current_instruction == old(self).current_instruction + 1,
    {
        if i.is_label() && !Assembler::is_string_constant(i) {
            let offset: Option<u8> = if self.code_records <= 63 {
                Some((4 * self.code_records) as u8)
            } else {
                None
            };
            let overflow = AssemblerError::SymbolOffsetOverflow {
                instruction: self.current_instruction,
            };
            self.declare_label(i, offset, overflow);
        }
        if i.is_directive() {
            self.process_directive(i);
        }
        if i.is_opcode() {
            self.code_records += 1;
        }
        self.current_instruction += 1;
    }

    /// Whether the record is an `asciiz` directive with a string literal.
    fn is_string_constant(i: &AssemblerInstruction) -> (b: bool)
        ensures
            b == is_string_constant(i@),
    {
        match i.get_directive_name() {
            Some(name) => str_equal(name.as_str(), "asciiz") && i.get_string_constant().is_some(),
            None => false,
        }
    }

    /// Binds the label of `i` to `offset`, or records why it cannot be
    /// bound. Tells whether it was bound.
    fn declare_label(
        &mut self,
        i: &AssemblerInstruction,
        offset: Option<u8>,
        overflow: AssemblerError,
    ) -> (done: bool)
        ensures
            match bound(old(self)@, i@, offset, overflow@) {
                Ok(symbols) => done && final(self)@ == (AssemblerState { symbols, ..old(self)@ }),
                Err(e) => !done && final(self)@ == with_error(old(self)@, e),
            },
            final(self).current_instruction == old(self).current_instruction,
            final(self).code_records == old(self).code_records,
            final(self).ro == old(self).ro,
    {
        if self.current_section.is_none() {
            self.push_error(
                AssemblerError::NoSegmentDeclarationFound { instruction: self.current_instruction },
            );
            return false;
        }
        let name: String = match i.label_name() {
            Some(name) => name,
            None => {
                self.push_error(AssemblerError::MalformedInstruction);
                return false;
            },
        };
        if self.symbols.has_symbol(&name) {
            self.push_error(AssemblerError::SymbolAlreadyDeclared);
            return false;
        }
        match offset {
            None => {
                self.push_error(overflow);
                false
            },
            Some(offset) => {
                let mut symbol = Symbol::new(name, SymbolType::Label);
                symbol.set_offset(offset);
                self.symbols.add_symbol(symbol);
                true
            },
        }
    }

    /// Handles the directive of a record in the first pass.
    fn process_directive(&mut self, i: &AssemblerInstruction)
        ensures
            final(self)@ == directive_step(old(self)@, i@),
            final(self).current_instruction == old(self).current_instruction,
            final(self).code_records == old(self).code_records,
    {
        let directive_name = match i.get_directive_name() {
            Some(name) => name,
            None => {
                self.push_error(AssemblerError::MalformedInstruction);
                return ;
            },
        };
        if i.has_operands() {
            if str_equal(directive_name.as_str(), "asciiz") {
                self.handle_asciiz(i);
            } else {
                self.push_error(AssemblerError::UnknownDirectiveFound { directive: directive_name });
            }
        } else {
            self.process_section_header(directive_name);
        }
    }

    /// Begins the section that the header names, if it names one.
    fn process_section_header(&mut self, header_name: String)
        ensures
            final(self)@ == section_step(old(self)@, header_name@),
            final(self).current_instruction == old(self).current_instruction,
            final(self).code_records == old(self).code_records,
    {
        let new_section = AssemblerSection::from(header_name.as_str());
        match new_section {
            AssemblerSection::Unknown => {
                self.push_warning(AssemblerError::UnknownDirectiveFound { directive: header_name });
            },
            _ => {
                self.current_section = Some(new_section);
            },
        }
    }

    /// Puts a string constant into the read-only data.
    fn handle_asciiz(&mut self, i: &AssemblerInstruction)
        ensures
            final(self)@ == asciiz_step(old(self)@, i@),
            final(self).current_instruction == old(self).current_instruction,
            final(self).code_records == old(self).code_records,
    {
        match i.get_string_constant() {
            Some(s) => {
                if !i.is_label() {
                    self.push_warning(
                        AssemblerError::StringConstantDeclaredWithoutLabel {
                            instruction: self.current_instruction,
                        },
                    );
                    return ;
                }
                let bytes = s.as_str().as_bytes();
                let offset: Option<u8> = if self.ro.len() <= 255 && bytes.len() <= 255
                    - self.ro.len() {
                    Some(self.ro.len() as u8)
                } else {
                    None
                };
                if self.declare_label(i, offset, AssemblerError::DataSegmentOverflow) {
                    append_bytes(&mut self.ro, bytes);
                    self.ro.push(0);
                    assert(self.ro@ =~= old(self).ro@ + constant_bytes(s@));
                }
            },
            None => {
                self.push_warning(AssemblerError::MalformedInstruction);
            },
        }
    }

    /// The header of an image.
    fn write_pie_header(&self) -> (h: Vec<u8>)
        ensures
            h@ == header(),
    {
        let mut h: Vec<u8> = Vec::new();
        let mut k: usize = 0;
        while k < 4
            invariant
                k <= 4,
                h@.len() == k,
                forall|j: int| 0 <= j < k ==> h@[j] == header()[j],
            decreases 4 - k,
        {
            h.push(PIE_HEADER_PREFIX[k]);
            k += 1;
        }
        while h.len() < PIE_HEADER_LENGTH
            invariant
                4 <= h@.len() <= 64,
                forall|j: int| 0 <= j < h@.len() ==> h@[j] == header()[j],
            decreases 64 - h@.len(),
        {
            h.push(0);
        }
        assert(h@ =~= header());
        h
    }

    /// Records an error.
    fn push_error(&mut self, e: AssemblerError)
        ensures
            final(self)@ == with_error(old(self)@, e@),
            final(self).current_instruction == old(self).current_instruction,
            final(self).code_records == old(self).code_records,
            final(self).ro == old(self).ro,
    {
        self.errors.push(e);
        assert(errors_view(self.errors@) =~= errors_view(old(self).errors@).push(e@));
    }

    /// Records a warning.
    fn push_warning(&mut self, e: AssemblerError)
        ensures
            final(self)@ == with_warning(old(self)@, e@),
            final(self).current_instruction == old(self).current_instruction,
            final(self).code_records == old(self).code_records,
            final(self).ro == old(self).ro,
    {
        self.warnings.push(e);
        assert(errors_view(self.warnings@) =~= errors_view(old(self).warnings@).push(e@));
    }
}

} // verus!
