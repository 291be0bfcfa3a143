//! Programs: the records of a source text, in source order.

use crate::assembler::instruction_parsers::{
    encoding, instruction_at, spec_instruction, AssemblerInstruction, InstructionView,
};
use crate::assembler::scanner::{string_of, to_chars};
use crate::assembler::symbols::{SymbolTable, SymbolView};
use crate::assembler::{
    append_bytes, errors_view, finish, parsed_at, parsed_from, AssemblerError, AssemblerErrorView,
    SyntaxError,
};
use vstd::prelude::*;

verus! {

/// The records of a source text, in source order.
#[derive(Debug, PartialEq)]
pub struct Program {
    pub instructions: Vec<AssemblerInstruction>,
}

impl View for Program {
    type V = Seq<InstructionView>;

    open spec fn view(&self) -> Seq<InstructionView> {
        Seq::new(self.instructions@.len(), |i: int| self.instructions@[i]@)
    }
}

/// The records that follow one another from position `i` of `s` on, and
/// the position at which no further record begins.
pub open spec fn spec_instructions(s: Seq<char>, i: int) -> (Seq<InstructionView>, int)
    decreases s.len() - i,
{
    match spec_instruction(s, i) {
        Some((ins, j)) => if i < j <= s.len() {
            let (rest, end) = spec_instructions(s, j);
            (seq![ins] + rest, end)
        } else {
            (Seq::empty(), i)
        },
        None => (Seq::empty(), i),
    }
}

/// A program at the start of `s`: at least one record, and as many as
/// follow one another. The result is the records and the position at which
/// they end.
pub open spec fn spec_program(s: Seq<char>) -> Option<(Seq<InstructionView>, int)> {
    let (records, end) = spec_instructions(s, 0);
    if records.len() > 0 {
        Some((records, end))
    } else {
        None
    }
}

/// Parses the records at the start of `text`.
pub(crate) fn program_at(text: &[char]) -> (r: Option<(Program, usize)>)
    ensures
        parsed_at(r, spec_program(text@)),
        r matches Some((_, end)) ==> 0 < end <= text@.len(),
{
    let mut instructions: Vec<AssemblerInstruction> = Vec::new();
    let ghost mut records: Seq<InstructionView> = Seq::empty();
    let mut pos: usize = 0;
    loop
        invariant
            pos <= text@.len(),
            records.len() == instructions@.len(),
            records.len() > 0 ==> pos > 0,
            forall|k: int| 0 <= k < records.len() ==> records[k] == instructions@[k]@,
            spec_instructions(text@, 0) == (
                records + spec_instructions(text@, pos as int).0,
                spec_instructions(text@, pos as int).1,
            ),
        ensures
            pos <= text@.len(),
            records.len() == instructions@.len(),
            records.len() > 0 ==> pos > 0,
            forall|k: int| 0 <= k < records.len() ==> records[k] == instructions@[k]@,
            spec_instructions(text@, 0) == (records, pos as int),
        decreases text@.len() - pos,
    {
        match instruction_at(text, pos) {
            Some((ins, next)) => {
                proof {
                    let tail = spec_instructions(text@, next as int);
                    assert(spec_instructions(text@, pos as int) == (seq![ins@] + tail.0, tail.1));
                    assert(records + (seq![ins@] + tail.0) =~= records.push(ins@) + tail.0);
                    records = records.push(ins@);
                }
                instructions.push(ins);
                pos = next;
            },
            None => {
                proof {
                    assert(spec_instructions(text@, pos as int) == (
                        Seq::<InstructionView>::empty(),
                        pos as int,
                    ));
                    assert(records + Seq::<InstructionView>::empty() =~= records);
                }
                break ;
            },
        }
    }
    if instructions.len() > 0 {
        let program = Program { instructions };
        assert(program@ =~= records);
        Some((program, pos))
    } else {
        None
    }
}

/// Parses the program at the start of `input`; gives the program and the
/// text that follows its last record.
pub fn program(input: &str) -> (r: Result<(&str, Program), SyntaxError>)
    ensures
        parsed_from(input@, r, spec_program(input@)),
{
    let text = to_chars(input);
    finish(input, text.len(), program_at(text.as_slice()))
}

/// What a source text is as a whole: the records of the program that it
/// is, or, where it is no program or is followed by something else, the
/// text that was not consumed.
pub open spec fn spec_source(s: Seq<char>) -> Result<Seq<InstructionView>, Seq<char>> {
    let (records, end) = spec_instructions(s, 0);
    if records.len() > 0 && end == s.len() {
        Ok(records)
    } else {
        Err(s.skip(end))
    }
}

/// Parses a whole source text: gives its program, or the syntax error that
/// holds what was not consumed.
pub fn parse(source: &str) -> (r: Result<Program, SyntaxError>)
    ensures
        match r {
            Ok(p) => spec_source(source@) == Ok::<Seq<InstructionView>, Seq<char>>(p@),
            Err(e) => spec_source(source@) == Err::<Seq<InstructionView>, Seq<char>>(
                e.remainder@,
            ),
        },
{
    let text = to_chars(source);
    let n: usize = text.len();
    match program_at(text.as_slice()) {
        Some((program, end)) => {
            if end == n {
                Ok(program)
            } else {
                Err(SyntaxError { remainder: string_of(text.as_slice(), end, n) })
            }
        },
        None => {
            assert(source@.skip(0) =~= source@);
            Err(SyntaxError { remainder: source.to_owned() })
        },
    }
}

/// The code that the records with an opcode encode to, in order, and the
/// errors of those that cannot be encoded, in order.
pub open spec fn generated(records: Seq<InstructionView>, symbols: Seq<SymbolView>) -> (
    Seq<u8>,
    Seq<AssemblerErrorView>,
)
    decreases records.len(),
{
    if records.len() == 0 {
        (Seq::empty(), Seq::empty())
    } else {
        let (code, errors) = generated(records.drop_last(), symbols);
        if records.last().opcode is Some {
            match encoding(records.last(), symbols) {
                Ok(bytes) => (code + bytes, errors),
                Err(e) => (code, errors.push(e)),
            }
        } else {
            (code, errors)
        }
    }
}

/// How many of the records have an opcode.
pub open spec fn count_opcodes(records: Seq<InstructionView>) -> nat
    decreases records.len(),
{
    if records.len() == 0 {
        0
    } else {
        count_opcodes(records.drop_last()) + if records.last().opcode is Some {
            1nat
        } else {
            0nat
        }
    }
}

/// Where no record fails, the code holds four bytes for each record with
/// an opcode.
pub proof fn lemma_generated_length(records: Seq<InstructionView>, symbols: Seq<SymbolView>)
    requires
        generated(records, symbols).1.len() == 0,
    ensures
        generated(records, symbols).0.len() == 4 * count_opcodes(records),
    decreases records.len(),
{
    if records.len() > 0 {
        lemma_generated_length(records.drop_last(), symbols);
    }
}

impl Program {
    /// Encodes the records that have an opcode, four bytes each, in source
    /// order. Where any of them cannot be encoded, gives the errors of all
    /// that cannot, in source order, and no code.
    pub fn to_bytes(&self, symbols: &SymbolTable) -> (r: Result<Vec<u8>, Vec<AssemblerError>>)
        ensures
            match r {
                Ok(code) => generated(self@, symbols@) == (
                    code@,
                    Seq::<AssemblerErrorView>::empty(),
                ),
                Err(errors) => errors@.len() > 0 && generated(self@, symbols@).1
                    == errors_view(errors@),
            },
    {
        let mut program: Vec<u8> = Vec::new();
        let mut errors: Vec<AssemblerError> = Vec::new();
        let ghost mut shown: Seq<AssemblerErrorView> = Seq::empty();
        let mut k: usize = 0;
        while k < self.instructions.len()
            invariant
                k <= self.instructions@.len(),
                shown.len() == errors@.len(),
                forall|j: int| 0 <= j < shown.len() ==> shown[j] == errors@[j]@,
                generated(self@.take(k as int), symbols@) == (program@, shown),
            decreases self.instructions@.len() - k,
        {
            let instruction = &self.instructions[k];
            proof {
                assert(self@.take(k + 1).drop_last() =~= self@.take(k as int));
                assert(self@.take(k + 1).last() == instruction@);
            }
            if instruction.is_opcode() {
                match instruction.to_bytes(symbols) {
                    Ok(bytes) => {
                        append_bytes(&mut program, bytes.as_slice());
                    },
                    Err(e) => {
                        proof {
                            shown = shown.push(e@);
                        }
                        errors.push(e);
                    },
                }
            }
            k += 1;
        }
        assert(self@.take(k as int) =~= self@);
        if errors.len() > 0 {
            assert(errors_view(errors@) =~= shown);
            Err(errors)
        } else {
            assert(shown =~= Seq::<AssemblerErrorView>::empty());
            Ok(program)
        }
    }
}

} // verus!
