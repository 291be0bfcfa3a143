//! Opcodes: a word of letters that is the mnemonic of an operation.

use crate::assembler::scanner::{run_end, scan, skip_spaces, to_chars, CharClass};
use crate::assembler::{finish, parsed_from, parsed_at, SyntaxError, Token, TokenView};
use crate::instruction::Opcode;
use vstd::prelude::*;

verus! {

/// An opcode at position `i` of `s`: spaces, a word of letters that names
/// an operation, spaces. A word that names none is no opcode.
pub open spec fn spec_opcode(s: Seq<char>, i: int) -> Option<(TokenView, int)> {
    let p = run_end(s, i, CharClass::Space);
    let e = run_end(s, p, CharClass::Alpha);
    if p < e && Opcode::spec_from_mnemonic(s.subrange(p, e)) != Opcode::IGL {
        Some(
            (
                TokenView::Op { code: Opcode::spec_from_mnemonic(s.subrange(p, e)) },
                run_end(s, e, CharClass::Space),
            ),
        )
    } else {
        None
    }
}

/// Parses an opcode at `pos`.
pub(crate) fn opcode_at(text: &[char], pos: usize) -> (r: Option<(Token, usize)>)
    requires
        pos <= text@.len(),
    ensures
        parsed_at(r, spec_opcode(text@, pos as int)),
        r matches Some((_, end)) ==> pos < end <= text@.len(),
{
    let p: usize = skip_spaces(text, pos);
    let e: usize = scan(text, p, CharClass::Alpha);
    if p < e {
        let code = Opcode::from_mnemonic_chars(text, p, e);
        if code != Opcode::IGL {
            let end: usize = skip_spaces(text, e);
            return Some((Token::Op { code }, end));
        }
    }
    None
}

/// Parses an opcode at the start of `input`; gives the token and the text
/// that follows it.
pub fn opcode(input: &str) -> (r: Result<(&str, Token), SyntaxError>)
    ensures
        parsed_from(input@, r, spec_opcode(input@, 0)),
{
    let text = to_chars(input);
    finish(input, text.len(), opcode_at(text.as_slice(), 0))
}

} // verus!
