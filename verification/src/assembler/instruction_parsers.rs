//! Records: one parsed line each, and how a record with an opcode becomes
//! four bytes.

use crate::assembler::directive_parsers::{directive_at, spec_directive};
use crate::assembler::label_parsers::{label_declaration_at, spec_label_declaration};
use crate::assembler::opcode_parsers::{opcode_at, spec_opcode};
use crate::assembler::operand_parsers::{operand_at, spec_operand};
use crate::assembler::scanner::to_chars;
use crate::assembler::symbols::{lookup, SymbolTable, SymbolView};
use crate::assembler::{
    finish, parsed_at, parsed_from, token_option_view, AssemblerError, AssemblerErrorView,
    SyntaxError, Token, TokenView,
};
use vstd::prelude::*;

verus! {

/// One parsed line: a label declaration or none, an opcode or a directive,
/// and up to three operands.
#[derive(Debug, PartialEq)]
pub struct AssemblerInstruction {
    pub opcode: Option<Token>,
    pub label: Option<Token>,
    pub directive: Option<Token>,
    pub operand1: Option<Token>,
    pub operand2: Option<Token>,
    pub operand3: Option<Token>,
}

/// A record as a mathematical value.
pub struct InstructionView {
    pub opcode: Option<TokenView>,
    pub label: Option<TokenView>,
    pub directive: Option<TokenView>,
    pub operand1: Option<TokenView>,
    pub operand2: Option<TokenView>,
    pub operand3: Option<TokenView>,
}

impl View for AssemblerInstruction {
    type V = InstructionView;

    open spec fn view(&self) -> InstructionView {
        InstructionView {
            opcode: token_option_view(self.opcode),
            label: token_option_view(self.label),
            directive: token_option_view(self.directive),
            operand1: token_option_view(self.operand1),
            operand2: token_option_view(self.operand2),
            operand3: token_option_view(self.operand3),
        }
    }
}

/// The operands at position `i` of `s`, as many as follow one another, up
/// to three, and the position after the last of them.
pub open spec fn spec_operands(s: Seq<char>, i: int) -> (
    (Option<TokenView>, Option<TokenView>, Option<TokenView>),
    int,
) {
    match spec_operand(s, i) {
        None => ((None, None, None), i),
        Some((o1, i1)) => match spec_operand(s, i1) {
            None => ((Some(o1), None, None), i1),
            Some((o2, i2)) => match spec_operand(s, i2) {
                None => ((Some(o1), Some(o2), None), i2),
                Some((o3, i3)) => ((Some(o1), Some(o2), Some(o3)), i3),
            },
        },
    }
}

/// A record with an opcode at position `i` of `s`: a label declaration or
/// none, the opcode, and as many operands as follow, up to three.
pub open spec fn spec_instruction_combined(s: Seq<char>, i: int) -> Option<(InstructionView, int)> {
    let (label, i1) = match spec_label_declaration(s, i) {
        Some((l, j)) => (Some(l), j),
        None => (None, i),
    };
    match spec_opcode(s, i1) {
        Some((code, i2)) => {
            let (operands, i3) = spec_operands(s, i2);
            Some(
                (
                    InstructionView {
                        opcode: Some(code),
                        label,
                        directive: None,
                        operand1: operands.0,
                        operand2: operands.1,
                        operand3: operands.2,
                    },
                    i3,
                ),
            )
        },
        None => None,
    }
}

/// A record at position `i` of `s`: one with an opcode, or else one with a
/// directive.
pub open spec fn spec_instruction(s: Seq<char>, i: int) -> Option<(InstructionView, int)> {
    if spec_instruction_combined(s, i) is Some {
        spec_instruction_combined(s, i)
    } else {
        spec_directive(s, i)
    }
}

/// Parses up to three operands at `pos`.
pub(crate) fn operands_at(text: &[char], pos: usize) -> (r: (
    Option<Token>,
    Option<Token>,
    Option<Token>,
    usize,
))
    requires
        pos <= text@.len(),
    ensures
        spec_operands(text@, pos as int) == (
            (token_option_view(r.0), token_option_view(r.1), token_option_view(r.2)),
            r.3 as int,
        ),
        pos <= r.3 <= text@.len(),
{
    match operand_at(text, pos) {
        None => (None, None, None, pos),
        Some((o1, i1)) => match operand_at(text, i1) {
            None => (Some(o1), None, None, i1),
            Some((o2, i2)) => match operand_at(text, i2) {
                None => (Some(o1), Some(o2), None, i2),
                Some((o3, i3)) => (Some(o1), Some(o2), Some(o3), i3),
            },
        },
    }
}

/// Parses a record with an opcode at `pos`.
pub(crate) fn instruction_combined_at(text: &[char], pos: usize) -> (r: Option<
    (AssemblerInstruction, usize),
>)
    requires
        pos <= text@.len(),
    ensures
        parsed_at(r, spec_instruction_combined(text@, pos as int)),
        r matches Some((_, end)) ==> pos < end <= text@.len(),
{
    let (label, i1) = match label_declaration_at(text, pos) {
        Some((l, j)) => (Some(l), j),
        None => (None, pos),
    };
    match opcode_at(text, i1) {
        Some((code, i2)) => {
            let (operand1, operand2, operand3, i3) = operands_at(text, i2);
            Some(
                (
                    AssemblerInstruction {
                        opcode: Some(code),
                        label,
                        directive: None,
                        operand1,
                        operand2,
                        operand3,
                    },
                    i3,
                ),
            )
        },
        None => None,
    }
}

/// Parses a record at `pos`.
pub(crate) fn instruction_at(text: &[char], pos: usize) -> (r: Option<(AssemblerInstruction, usize)>)
    requires
        pos <= text@.len(),
    ensures
        parsed_at(r, spec_instruction(text@, pos as int)),
        r matches Some((_, end)) ==> pos < end <= text@.len(),
{
    let combined = instruction_combined_at(text, pos);
    if combined.is_some() {
        return combined;
    }
    directive_at(text, pos)
}

/// Parses a record at the start of `input`; gives the record and the text
/// that follows it.
pub fn instruction(input: &str) -> (r: Result<(&str, AssemblerInstruction), SyntaxError>)
    ensures
        parsed_from(input@, r, spec_instruction(input@, 0)),
{
    let text = to_chars(input);
    finish(input, text.len(), instruction_at(text.as_slice(), 0))
}

/// The name that the record declares as its label, if it declares one.
pub open spec fn spec_label_name(ins: InstructionView) -> Option<Seq<char>> {
    match ins.label {
        Some(TokenView::LabelDeclaration { name }) => Some(name),
        _ => None,
    }
}

/// The name of the record's directive, if it has one.
pub open spec fn spec_directive_name(ins: InstructionView) -> Option<Seq<char>> {
    match ins.directive {
        Some(TokenView::Directive { name }) => Some(name),
        _ => None,
    }
}

/// The string literal that is the record's first operand, if it is one.
pub open spec fn spec_string_constant(ins: InstructionView) -> Option<Seq<char>> {
    match ins.operand1 {
        Some(TokenView::IrString { literal }) => Some(literal),
        _ => None,
    }
}

/// Whether the record has any operand.
pub open spec fn spec_has_operands(ins: InstructionView) -> bool {
    ins.operand1 is Some || ins.operand2 is Some || ins.operand3 is Some
}

/// The low sixteen bits of an immediate, as a number from 0 to 65535.
pub open spec fn low_sixteen(value: i32) -> int {
    (value as int) % 0x10000
}

/// The bytes that one operand takes in a record's four: a register its
/// index, an immediate the high and then the low byte of its low sixteen
/// bits, a label usage the offset that `symbols` holds for the name.
pub open spec fn operand_encoding(t: TokenView, symbols: Seq<SymbolView>) -> Result<
    Seq<u8>,
    AssemblerErrorView,
> {
    match t {
        TokenView::Register { reg_num } => Ok(seq![reg_num]),
        TokenView::Number { value } => Ok(
            seq![(low_sixteen(value) / 256) as u8, (low_sixteen(value) % 256) as u8],
        ),
        TokenView::LabelUsage { name } => match lookup(symbols, name) {
            Some(offset) => Ok(seq![offset]),
            None => Err(AssemblerErrorView::UnresolvedSymbol { name }),
        },
        _ => Err(AssemblerErrorView::MalformedInstruction),
    }
}

/// The bytes of an operand that may be absent: none for an absent one.
pub open spec fn slot_encoding(t: Option<TokenView>, symbols: Seq<SymbolView>) -> Result<
    Seq<u8>,
    AssemblerErrorView,
> {
    match t {
        Some(t) => operand_encoding(t, symbols),
        None => Ok(Seq::empty()),
    }
}

/// `bytes` followed by as many zeros as bring it to length `n`.
pub open spec fn zero_padded(bytes: Seq<u8>, n: nat) -> Seq<u8> {
    bytes + Seq::new((n - bytes.len()) as nat, |i: int| 0u8)
}

/// The four bytes of a record with an opcode: the opcode's byte, the bytes
/// of the operands in order, and zeros up to four. The first operand that
/// cannot be encoded gives the error; so do operands that take more than
/// three bytes, and a record without an opcode.
pub open spec fn encoding(ins: InstructionView, symbols: Seq<SymbolView>) -> Result<
    Seq<u8>,
    AssemblerErrorView,
> {
    match ins.opcode {
        Some(TokenView::Op { code }) => match slot_encoding(ins.operand1, symbols) {
            Err(e) => Err(e),
            Ok(b1) => match slot_encoding(ins.operand2, symbols) {
                Err(e) => Err(e),
                Ok(b2) => match slot_encoding(ins.operand3, symbols) {
                    Err(e) => Err(e),
                    Ok(b3) => if b1.len() + b2.len() + b3.len() <= 3 {
                        Ok(zero_padded(seq![code.spec_byte()] + b1 + b2 + b3, 4))
                    } else {
                        Err(AssemblerErrorView::MalformedInstruction)
                    },
                },
            },
        },
        _ => Err(AssemblerErrorView::MalformedInstruction),
    }
}

/// Bytes or an error, seen through their views.
pub open spec fn bytes_result_view(r: Result<Vec<u8>, AssemblerError>) -> Result<
    Seq<u8>,
    AssemblerErrorView,
> {
    match r {
        Ok(bytes) => Ok(bytes@),
        Err(e) => Err(e@),
    }
}

/// Every encoding is four bytes long and begins with the byte of the
/// record's opcode.
pub proof fn lemma_encoding_is_four_bytes(ins: InstructionView, symbols: Seq<SymbolView>)
    requires
        encoding(ins, symbols) is Ok,
    ensures
        encoding(ins, symbols)->Ok_0.len() == 4,
        ins.opcode matches Some(TokenView::Op { code }) && encoding(ins, symbols)->Ok_0[0]
            == code.spec_byte(),
{
}

impl AssemblerInstruction {
    /// Encodes the record as four bytes, resolving label usages through
    /// `symbols`.
    pub fn to_bytes(&self, symbols: &SymbolTable) -> (r: Result<Vec<u8>, AssemblerError>)
        ensures
            bytes_result_view(r) == encoding(self@, symbols@),
    {
        let mut results: Vec<u8> = Vec::new();
        match &self.opcode {
            Some(Token::Op { code }) => {
                results.push(code.to_byte());
            },
            _ => {
                return Err(AssemblerError::MalformedInstruction);
            },
        }
        match AssemblerInstruction::extract_slot(&self.operand1, symbols, &mut results) {
            Err(e) => {
                return Err(e);
            },
            Ok(()) => {},
        }
        match AssemblerInstruction::extract_slot(&self.operand2, symbols, &mut results) {
            Err(e) => {
                return Err(e);
            },
            Ok(()) => {},
        }
        match AssemblerInstruction::extract_slot(&self.operand3, symbols, &mut results) {
            Err(e) => {
                return Err(e);
            },
            Ok(()) => {},
        }
        if results.len() > 4 {
            return Err(AssemblerError::MalformedInstruction);
        }
        let ghost body = results@;
        while results.len() < 4
            invariant
                body.len() <= results@.len() <= 4,
                results@ =~= body + Seq::new((results@.len() - body.len()) as nat, |i: int| 0u8),
            decreases 4 - results@.len(),
        {
            results.push(0);
        }
        Ok(results)
    }

    /// Whether the record declares a label.
    pub fn is_label(&self) -> (b: bool)
        ensures
            b == (self@.label is Some),
    {
        self.label.is_some()
    }

    /// Whether the record has an opcode.
    pub fn is_opcode(&self) -> (b: bool)
        ensures
            b == (self@.opcode is Some),
    {
        self.opcode.is_some()
    }

    /// Whether the record has a directive.
    pub fn is_directive(&self) -> (b: bool)
        ensures
            b == (self@.directive is Some),
    {
        self.directive.is_some()
    }

    /// Whether the record has any operand.
    pub fn has_operands(&self) -> (b: bool)
        ensures
            b == spec_has_operands(self@),
    {
        self.operand1.is_some() || self.operand2.is_some() || self.operand3.is_some()
    }

    /// The name of the label that the record declares.
    pub fn label_name(&self) -> (name: Option<String>)
        ensures
            option_string_view(name) == spec_label_name(self@),
    {
        match &self.label {
            Some(Token::LabelDeclaration { name }) => Some(name.clone()),
            _ => None,
        }
    }

    /// The name of the record's directive.
    pub fn get_directive_name(&self) -> (name: Option<String>)
        ensures
            option_string_view(name) == spec_directive_name(self@),
    {
        match &self.directive {
            Some(Token::Directive { name }) => Some(name.clone()),
            _ => None,
        }
    }

    /// The string literal that is the record's first operand.
    pub fn get_string_constant(&self) -> (literal: Option<String>)
        ensures
            option_string_view(literal) == spec_string_constant(self@),
    {
        match &self.operand1 {
            Some(Token::IrString { literal }) => Some(literal.clone()),
            _ => None,
        }
    }

    /// Appends the bytes of the operand in `slot`, if there is one.
    fn extract_slot(slot: &Option<Token>, symbols: &SymbolTable, results: &mut Vec<u8>) -> (r:
        Result<(), AssemblerError>)
        ensures
            match r {
                Ok(()) => slot_encoding(token_option_view(*slot), symbols@) is Ok
                    && final(results)@ == old(results)@ + slot_encoding(
                    token_option_view(*slot),
                    symbols@,
                )->Ok_0,
                Err(e) => slot_encoding(token_option_view(*slot), symbols@) == Err::<
                    Seq<u8>,
                    AssemblerErrorView,
                >(e@),
            },
    {
        match slot {
            Some(t) => AssemblerInstruction::extract_operand(t, symbols, results),
            None => {
                assert(results@ =~= old(results)@ + Seq::<u8>::empty());
                Ok(())
            },
        }
    }

    /// Appends the bytes of the operand `t`.
    fn extract_operand(t: &Token, symbols: &SymbolTable, results: &mut Vec<u8>) -> (r: Result<
        (),
        AssemblerError,
    >)
        ensures
            match r {
                Ok(()) => operand_encoding(t@, symbols@) is Ok
                    && final(results)@ == old(results)@ + operand_encoding(t@, symbols@)->Ok_0,
                Err(e) => operand_encoding(t@, symbols@) == Err::<Seq<u8>, AssemblerErrorView>(
                    e@,
                ),
            },
    {
        match t {
            Token::Register { reg_num } => {
                results.push(*reg_num);
                assert(results@ =~= old(results)@ + seq![*reg_num]);
                Ok(())
            },
            Token::Number { value } => {
                let shifted: u32 = (*value as i64 + 0x8000_0000) as u32;
                let low: u32 = shifted % 0x10000;
                assert(low == low_sixteen(*value));
                let byte2: u8 = (low / 256) as u8;
                let byte1: u8 = (low % 256) as u8;
                results.push(byte2);
                results.push(byte1);
                assert(results@ =~= old(results)@ + seq![byte2, byte1]);
                Ok(())
            },
            Token::LabelUsage { name } => match symbols.symbol_value(name.as_str()) {
                Some(offset) => {
                    results.push(offset);
                    assert(results@ =~= old(results)@ + seq![offset]);
                    Ok(())
                },
                None => Err(AssemblerError::UnresolvedSymbol { name: name.clone() }),
            },
            _ => Err(AssemblerError::MalformedInstruction),
        }
    }
}

/// The view of an optional string.
pub open spec fn option_string_view(s: Option<String>) -> Option<Seq<char>> {
    match s {
        Some(s) => Some(s@),
        None => None,
    }
}

} // verus!
