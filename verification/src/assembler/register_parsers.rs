//! Registers: `$` and a decimal index.

use crate::assembler::scanner::{
    decimal_value, parse_decimal, run_end, scan_sigil_run, sigil_run, skip_spaces, to_chars,
    CharClass,
};
use crate::assembler::{finish, parsed_from, parsed_at, SyntaxError, Token, TokenView};
use vstd::prelude::*;

verus! {

/// A register at position `i` of `s`: spaces, `$`, digits that write a
/// number up to 255, spaces. The result is the token and the position
/// after it.
pub open spec fn spec_register(s: Seq<char>, i: int) -> Option<(TokenView, int)> {
    match sigil_run(s, i, '$', CharClass::Digit) {
        Some((a, e)) => if decimal_value(s.subrange(a, e)) <= 255 {
            Some(
                (
                    TokenView::Register { reg_num: decimal_value(s.subrange(a, e)) as u8 },
                    run_end(s, e, CharClass::Space),
                ),
            )
        } else {
            None
        },
        None => None,
    }
}

/// Parses a register at `pos`.
pub(crate) fn register_at(text: &[char], pos: usize) -> (r: Option<(Token, usize)>)
    requires
        pos <= text@.len(),
    ensures
        parsed_at(r, spec_register(text@, pos as int)),
        r matches Some((_, end)) ==> pos < end <= text@.len(),
{
    match scan_sigil_run(text, pos, '$', CharClass::Digit) {
        Some((a, e)) => match parse_decimal(text, a, e, 255) {
            Some(n) => {
                let end: usize = skip_spaces(text, e);
                Some((Token::Register { reg_num: n as u8 }, end))
            },
            None => None,
        },
        None => None,
    }
}

/// Parses a register at the start of `input`; gives the token and the text
/// that follows it.
pub fn register(input: &str) -> (r: Result<(&str, Token), SyntaxError>)
    ensures
        parsed_from(input@, r, spec_register(input@, 0)),
{
    let text = to_chars(input);
    finish(input, text.len(), register_at(text.as_slice(), 0))
}

} // verus!
