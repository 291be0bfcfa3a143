//! Operands: immediates, registers, label usages and string literals.

use crate::assembler::label_parsers::{label_usage_at, spec_label_usage};
use crate::assembler::register_parsers::{register_at, spec_register};
use crate::assembler::scanner::{
    decimal_value, find, find_char, parse_decimal, run_end, scan_sigil_run, sigil_run,
    skip_spaces, string_of, to_chars, CharClass,
};
use crate::assembler::{finish, parsed_from, parsed_at, SyntaxError, Token, TokenView};
use vstd::prelude::*;

verus! {

/// An immediate at position `i` of `s`: spaces, `#`, digits that write a
/// number up to 2147483647, spaces.
pub open spec fn spec_integer_operand(s: Seq<char>, i: int) -> Option<(TokenView, int)> {
    match sigil_run(s, i, '#', CharClass::Digit) {
        Some((a, e)) => if decimal_value(s.subrange(a, e)) <= i32::MAX {
            Some(
                (
                    TokenView::Number { value: decimal_value(s.subrange(a, e)) as i32 },
                    run_end(s, e, CharClass::Space),
                ),
            )
        } else {
            None
        },
        None => None,
    }
}

/// A string literal at position `i` of `s`: spaces, `'`, any characters up
/// to the next `'`, that `'`, spaces. The literal is what stands between
/// the two quotes.
pub open spec fn spec_irstring(s: Seq<char>, i: int) -> Option<(TokenView, int)> {
    let p = run_end(s, i, CharClass::Space);
    let e = find_char(s, p + 1, '\'');
    if p < s.len() && s[p] == '\'' && e < s.len() {
        Some(
            (
                TokenView::IrString { literal: s.subrange(p + 1, e) },
                run_end(s, e + 1, CharClass::Space),
            ),
        )
    } else {
        None
    }
}

/// An operand at position `i` of `s`: an immediate, a register, a label
/// usage or a string literal.
pub open spec fn spec_operand(s: Seq<char>, i: int) -> Option<(TokenView, int)> {
    if spec_integer_operand(s, i) is Some {
        spec_integer_operand(s, i)
    } else if spec_register(s, i) is Some {
        spec_register(s, i)
    } else if spec_label_usage(s, i) is Some {
        spec_label_usage(s, i)
    } else {
        spec_irstring(s, i)
    }
}

/// Parses an immediate at `pos`.
pub(crate) fn integer_operand_at(text: &[char], pos: usize) -> (r: Option<(Token, usize)>)
    requires
        pos <= text@.len(),
    ensures
        parsed_at(r, spec_integer_operand(text@, pos as int)),
        r matches Some((_, end)) ==> pos < end <= text@.len(),
{
    match scan_sigil_run(text, pos, '#', CharClass::Digit) {
        Some((a, e)) => match parse_decimal(text, a, e, 0x7fff_ffff) {
            Some(n) => {
                let end: usize = skip_spaces(text, e);
                Some((Token::Number { value: n as i32 }, end))
            },
            None => None,
        },
        None => None,
    }
}

/// Parses a string literal at `pos`.
pub(crate) fn irstring_at(text: &[char], pos: usize) -> (r: Option<(Token, usize)>)
    requires
        pos <= text@.len(),
    ensures
        parsed_at(r, spec_irstring(text@, pos as int)),
        r matches Some((_, end)) ==> pos < end <= text@.len(),
{
    let p: usize = skip_spaces(text, pos);
    if p < text.len() && text[p] == '\'' {
        let e: usize = find(text, p + 1, '\'');
        if e < text.len() {
            let literal = string_of(text, p + 1, e);
            let end: usize = skip_spaces(text, e + 1);
            Some((Token::IrString { literal }, end))
        } else {
            None
        }
    } else {
        None
    }
}

/// Parses an operand at `pos`.
pub(crate) fn operand_at(text: &[char], pos: usize) -> (r: Option<(Token, usize)>)
    requires
        pos <= text@.len(),
    ensures
        parsed_at(r, spec_operand(text@, pos as int)),
        r matches Some((_, end)) ==> pos < end <= text@.len(),
{
    let number = integer_operand_at(text, pos);
    if number.is_some() {
        return number;
    }
    let register = register_at(text, pos);
    if register.is_some() {
        return register;
    }
    let label = label_usage_at(text, pos);
    if label.is_some() {
        return label;
    }
    irstring_at(text, pos)
}

/// Parses an immediate at the start of `input`; gives the token and the
/// text that follows it.
pub fn integer_operand(input: &str) -> (r: Result<(&str, Token), SyntaxError>)
    ensures
        parsed_from(input@, r, spec_integer_operand(input@, 0)),
{
    let text = to_chars(input);
    finish(input, text.len(), integer_operand_at(text.as_slice(), 0))
}

/// Parses a string literal at the start of `input`; gives the token and the
/// text that follows it.
pub fn irstring(input: &str) -> (r: Result<(&str, Token), SyntaxError>)
    ensures
        parsed_from(input@, r, spec_irstring(input@, 0)),
{
    let text = to_chars(input);
    finish(input, text.len(), irstring_at(text.as_slice(), 0))
}

/// Parses an operand at the start of `input`; gives the token and the text
/// that follows it.
pub fn operand(input: &str) -> (r: Result<(&str, Token), SyntaxError>)
    ensures
        parsed_from(input@, r, spec_operand(input@, 0)),
{
    let text = to_chars(input);
    finish(input, text.len(), operand_at(text.as_slice(), 0))
}

} // verus!
