//! Labels: `name:` declares one, `@name` uses one.

use crate::assembler::scanner::{
    run_end, scan, scan_sigil_run, sigil_run, skip_spaces, string_of, to_chars, CharClass,
};
use crate::assembler::{finish, parsed_from, parsed_at, SyntaxError, Token, TokenView};
use vstd::prelude::*;

verus! {

/// A label declaration at position `i` of `s`: spaces, a name of letters
/// and digits, `:`, spaces.
pub open spec fn spec_label_declaration(s: Seq<char>, i: int) -> Option<(TokenView, int)> {
    let p = run_end(s, i, CharClass::Space);
    let e = run_end(s, p, CharClass::Alphanumeric);
    if p < e < s.len() && s[e] == ':' {
        Some(
            (
                TokenView::LabelDeclaration { name: s.subrange(p, e) },
                run_end(s, e + 1, CharClass::Space),
            ),
        )
    } else {
        None
    }
}

/// A label usage at position `i` of `s`: spaces, `@`, a name of letters and
/// digits, spaces.
pub open spec fn spec_label_usage(s: Seq<char>, i: int) -> Option<(TokenView, int)> {
    match sigil_run(s, i, '@', CharClass::Alphanumeric) {
        Some((a, e)) => Some(
            (TokenView::LabelUsage { name: s.subrange(a, e) }, run_end(s, e, CharClass::Space)),
        ),
        None => None,
    }
}

/// Parses a label declaration at `pos`.
pub(crate) fn label_declaration_at(text: &[char], pos: usize) -> (r: Option<(Token, usize)>)
    requires
        pos <= text@.len(),
    ensures
        parsed_at(r, spec_label_declaration(text@, pos as int)),
        r matches Some((_, end)) ==> pos < end <= text@.len(),
{
    let p: usize = skip_spaces(text, pos);
    let e: usize = scan(text, p, CharClass::Alphanumeric);
    if p < e && e < text.len() && text[e] == ':' {
        let name = string_of(text, p, e);
        let end: usize = skip_spaces(text, e + 1);
        Some((Token::LabelDeclaration { name }, end))
    } else {
        None
    }
}

/// Parses a label usage at `pos`.
pub(crate) fn label_usage_at(text: &[char], pos: usize) -> (r: Option<(Token, usize)>)
    requires
        pos <= text@.len(),
    ensures
        parsed_at(r, spec_label_usage(text@, pos as int)),
        r matches Some((_, end)) ==> pos < end <= text@.len(),
{
    match scan_sigil_run(text, pos, '@', CharClass::Alphanumeric) {
        Some((a, e)) => {
            let name = string_of(text, a, e);
            let end: usize = skip_spaces(text, e);
            Some((Token::LabelUsage { name }, end))
        },
        None => None,
    }
}

/// Parses a label declaration at the start of `input`; gives the token and
/// the text that follows it.
pub fn label_declaration(input: &str) -> (r: Result<(&str, Token), SyntaxError>)
    ensures
        parsed_from(input@, r, spec_label_declaration(input@, 0)),
{
    let text = to_chars(input);
    finish(input, text.len(), label_declaration_at(text.as_slice(), 0))
}

/// Parses a label usage at the start of `input`; gives the token and the
/// text that follows it.
pub fn label_usage(input: &str) -> (r: Result<(&str, Token), SyntaxError>)
    ensures
        parsed_from(input@, r, spec_label_usage(input@, 0)),
{
    let text = to_chars(input);
    finish(input, text.len(), label_usage_at(text.as_slice(), 0))
}

} // verus!
