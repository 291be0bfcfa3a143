//! Directives: `.` and a name of letters, with an optional label before it
//! and up to three operands after it.

use crate::assembler::instruction_parsers::{
    operands_at, spec_operands, AssemblerInstruction, InstructionView,
};
use crate::assembler::label_parsers::{label_declaration_at, spec_label_declaration};
use crate::assembler::scanner::{
    run_end, scan_sigil_run, sigil_run, skip_spaces, string_of, to_chars, CharClass,
};
use crate::assembler::{finish, parsed_at, parsed_from, SyntaxError, Token, TokenView};
use vstd::prelude::*;

verus! {

/// The name of a directive at position `i` of `s`: spaces, `.`, letters,
/// spaces.
pub open spec fn spec_directive_declaration(s: Seq<char>, i: int) -> Option<(TokenView, int)> {
    match sigil_run(s, i, '.', CharClass::Alpha) {
        Some((a, e)) => Some(
            (TokenView::Directive { name: s.subrange(a, e) }, run_end(s, e, CharClass::Space)),
        ),
        None => None,
    }
}

/// A record with a directive at position `i` of `s`: a label declaration
/// or none, the name of the directive, and as many operands as follow, up
/// to three.
pub open spec fn spec_directive(s: Seq<char>, i: int) -> Option<(InstructionView, int)> {
    let (label, i1) = match spec_label_declaration(s, i) {
        Some((l, j)) => (Some(l), j),
        None => (None, i),
    };
    match spec_directive_declaration(s, i1) {
        Some((name, i2)) => {
            let (operands, i3) = spec_operands(s, i2);
            Some(
                (
                    InstructionView {
                        opcode: None,
                        label,
                        directive: Some(name),
                        operand1: operands.0,
                        operand2: operands.1,
                        operand3: operands.2,
                    },
                    i3,
                ),
            )
        },
        None => None,
    }
}

/// Parses the name of a directive at `pos`.
pub(crate) fn directive_declaration_at(text: &[char], pos: usize) -> (r: Option<(Token, usize)>)
    requires
        pos <= text@.len(),
    ensures
        parsed_at(r, spec_directive_declaration(text@, pos as int)),
        r matches Some((_, end)) ==> pos < end <= text@.len(),
{
    match scan_sigil_run(text, pos, '.', CharClass::Alpha) {
        Some((a, e)) => {
            let name = string_of(text, a, e);
            let end: usize = skip_spaces(text, e);
            Some((Token::Directive { name }, end))
        },
        None => None,
    }
}

/// Parses a record with a directive at `pos`.
pub(crate) fn directive_at(text: &[char], pos: usize) -> (r: Option<(AssemblerInstruction, usize)>)
    requires
        pos <= text@.len(),
    ensures
        parsed_at(r, spec_directive(text@, pos as int)),
        r matches Some((_, end)) ==> pos < end <= text@.len(),
{
    let (label, i1) = match label_declaration_at(text, pos) {
        Some((l, j)) => (Some(l), j),
        None => (None, pos),
    };
    match directive_declaration_at(text, i1) {
        Some((name, i2)) => {
            let (operand1, operand2, operand3, i3) = operands_at(text, i2);
            Some(
                (
                    AssemblerInstruction {
                        opcode: None,
                        label,
                        directive: Some(name),
                        operand1,
                        operand2,
                        operand3,
                    },
                    i3,
                ),
            )
        },
        None => None,
    }
}

/// Parses a record with a directive at the start of `input`; gives the
/// record and the text that follows it.
pub fn directive(input: &str) -> (r: Result<(&str, AssemblerInstruction), SyntaxError>)
    ensures
        parsed_from(input@, r, spec_directive(input@, 0)),
{
    let text = to_chars(input);
    finish(input, text.len(), directive_at(text.as_slice(), 0))
}

} // verus!
