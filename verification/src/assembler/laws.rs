//! What holds of every source text and every program: the parsers move
//! forward, the first pass keeps the symbol table and the data in order,
//! and an image is laid out as header, data and code.

use crate::assembler::directive_parsers::spec_directive_declaration;
use crate::assembler::instruction_parsers::{
    encoding, spec_instruction, spec_operands, spec_string_constant, InstructionView,
};
use crate::assembler::label_parsers::spec_label_declaration;
use crate::assembler::opcode_parsers::spec_opcode;
use crate::assembler::operand_parsers::spec_operand;
use crate::assembler::program_parsers::{
    count_opcodes, generated, lemma_generated_length, spec_instructions, spec_source,
};
use crate::assembler::scanner::{
    find_char, lemma_find_char, lemma_run_end, run_end, sigil_run, CharClass,
};
use crate::assembler::symbols::{lemma_index_from, names_unique, SymbolView};
use crate::assembler::{
    asciiz_step, assembled, assembler_after, bound, code_offset, constant_bytes, data_offset,
    directive_step, discovered, header, initial_state, label_step, record_step,
    AssemblerErrorView, AssemblerState,
};
use vstd::prelude::*;

verus! {

/// A token written as a sigil and a run has a body that lies inside the
/// text, after its start.
proof fn lemma_sigil_run(s: Seq<char>, i: int, sigil: char, class: CharClass)
    requires
        0 <= i <= s.len(),
    ensures
        sigil_run(s, i, sigil, class) matches Some((a, e)) ==> i < a < e <= s.len() && run_end(
            s,
            e,
            CharClass::Space,
        ) <= s.len() && e <= run_end(s, e, CharClass::Space),
{
    lemma_run_end(s, i, CharClass::Space);
    let p = run_end(s, i, CharClass::Space);
    if p < s.len() {
        lemma_run_end(s, p + 1, class);
        lemma_run_end(s, run_end(s, p + 1, class), CharClass::Space);
    }
}

/// An operand that is found consumes at least one character, and ends
/// inside the text.
pub proof fn lemma_operand_advances(s: Seq<char>, i: int)
    requires
        0 <= i <= s.len(),
    ensures
        spec_operand(s, i) matches Some((_, j)) ==> i < j <= s.len(),
{
    lemma_sigil_run(s, i, '#', CharClass::Digit);
    lemma_sigil_run(s, i, '$', CharClass::Digit);
    lemma_sigil_run(s, i, '@', CharClass::Alphanumeric);
    lemma_run_end(s, i, CharClass::Space);
    let p = run_end(s, i, CharClass::Space);
    if p < s.len() {
        lemma_find_char(s, p + 1, '\'');
        let e = find_char(s, p + 1, '\'');
        if e < s.len() {
            lemma_run_end(s, e + 1, CharClass::Space);
        }
    }
}

/// The operands that are found end inside the text, at or after their
/// start.
pub proof fn lemma_operands_advance(s: Seq<char>, i: int)
    requires
        0 <= i <= s.len(),
    ensures
        i <= spec_operands(s, i).1 <= s.len(),
{
    lemma_operand_advances(s, i);
    match spec_operand(s, i) {
        None => {},
        Some((_, i1)) => {
            lemma_operand_advances(s, i1);
            match spec_operand(s, i1) {
                None => {},
                Some((_, i2)) => {
                    lemma_operand_advances(s, i2);
                },
            }
        },
    }
}

/// A label declaration that is found consumes at least one character, and
/// ends inside the text.
pub proof fn lemma_label_declaration_advances(s: Seq<char>, i: int)
    requires
        0 <= i <= s.len(),
    ensures
        spec_label_declaration(s, i) matches Some((_, j)) ==> i < j <= s.len(),
{
    lemma_run_end(s, i, CharClass::Space);
    let p = run_end(s, i, CharClass::Space);
    lemma_run_end(s, p, CharClass::Alphanumeric);
    let e = run_end(s, p, CharClass::Alphanumeric);
    if e < s.len() {
        lemma_run_end(s, e + 1, CharClass::Space);
    }
}

/// A record that is found consumes at least one character, and ends inside
/// the text.
pub proof fn lemma_record_advances(s: Seq<char>, i: int)
    requires
        0 <= i <= s.len(),
    ensures
        spec_instruction(s, i) matches Some((_, j)) ==> i < j <= s.len(),
{
    lemma_label_declaration_advances(s, i);
    let i1 = match spec_label_declaration(s, i) {
        Some((_, j)) => j,
        None => i,
    };
    // The opcode.
    lemma_run_end(s, i1, CharClass::Space);
    let p = run_end(s, i1, CharClass::Space);
    lemma_run_end(s, p, CharClass::Alpha);
    let e = run_end(s, p, CharClass::Alpha);
    lemma_run_end(s, e, CharClass::Space);
    match spec_opcode(s, i1) {
        Some((_, i2)) => {
            lemma_operands_advance(s, i2);
        },
        None => {},
    }
    // The directive.
    lemma_sigil_run(s, i1, '.', CharClass::Alpha);
    match spec_directive_declaration(s, i1) {
        Some((_, i2)) => {
            lemma_operands_advance(s, i2);
        },
        None => {},
    }
}

/// The records of a text end inside the text, and where they end no
/// further record begins.
pub proof fn lemma_records_end(s: Seq<char>, i: int)
    requires
        0 <= i <= s.len(),
    ensures
        i <= spec_instructions(s, i).1 <= s.len(),
        spec_instruction(s, spec_instructions(s, i).1) is None,
        spec_instructions(s, i).0.len() == 0 <==> spec_instruction(s, i) is None,
    decreases s.len() - i,
{
    lemma_record_advances(s, i);
    match spec_instruction(s, i) {
        Some((ins, j)) => {
            lemma_records_end(s, j);
        },
        None => {},
    }
}

/// Whether the symbols and the data of a state are in order: no name is
/// bound twice, and the data takes at most 256 bytes.
pub open spec fn in_order(st: AssemblerState) -> bool {
    names_unique(st.symbols) && st.ro.len() <= 256
}

/// Binding a label keeps the names apart.
proof fn lemma_bound_keeps_names_apart(
    st: AssemblerState,
    ins: InstructionView,
    offset: Option<u8>,
    overflow: AssemblerErrorView,
)
    requires
        names_unique(st.symbols),
    ensures
        bound(st, ins, offset, overflow) matches Ok(symbols) ==> names_unique(symbols),
{
    match bound(st, ins, offset, overflow) {
        Ok(symbols) => {
            let name = symbols.last().name;
            lemma_index_from(st.symbols, name, 0);
            assert forall|i: int, j: int| 0 <= i < j < symbols.len() implies (
            #[trigger] symbols[i]).name != (#[trigger] symbols[j]).name by {
                assert(symbols[i] == st.symbols[i]);
                if j < st.symbols.len() {
                    assert(symbols[j] == st.symbols[j]);
                }
            }
        },
        Err(_) => {},
    }
}

/// One record of the first pass leaves the symbols and the data in order.
pub proof fn lemma_record_step_in_order(st: AssemblerState, ins: InstructionView)
    requires
        in_order(st),
    ensures
        in_order(record_step(st, ins)),
{
    lemma_bound_keeps_names_apart(
        st,
        ins,
        code_offset(st),
        AssemblerErrorView::SymbolOffsetOverflow { instruction: st.current_instruction },
    );
    let labelled = label_step(st, ins);
    assert(in_order(labelled));
    match spec_string_constant(ins) {
        Some(text) => {
            lemma_bound_keeps_names_apart(
                labelled,
                ins,
                data_offset(labelled, constant_bytes(text).len()),
                AssemblerErrorView::DataSegmentOverflow,
            );
        },
        None => {},
    }
    assert(in_order(asciiz_step(labelled, ins)));
    assert(in_order(directive_step(labelled, ins)));
}

/// The first pass leaves the symbols and the data in order: whatever the
/// program, no name is bound twice and the data takes at most 256 bytes.
pub proof fn lemma_first_pass_in_order(st: AssemblerState, records: Seq<InstructionView>)
    requires
        in_order(st),
    ensures
        in_order(discovered(st, records)),
    decreases records.len(),
{
    if records.len() > 0 {
        lemma_first_pass_in_order(st, records.drop_last());
        lemma_record_step_in_order(discovered(st, records.drop_last()), records.last());
    }
}

/// The first pass only adds to the errors and to the warnings: those that
/// it began with stay, in their order, at the front.
pub proof fn lemma_errors_accumulate(st: AssemblerState, records: Seq<InstructionView>)
    ensures
        st.errors.is_prefix_of(discovered(st, records).errors),
        st.warnings.is_prefix_of(discovered(st, records).warnings),
    decreases records.len(),
{
    if records.len() > 0 {
        lemma_errors_accumulate(st, records.drop_last());
        let before = discovered(st, records.drop_last());
        let ins = records.last();
        let labelled = label_step(before, ins);
        assert(before.errors.is_prefix_of(labelled.errors));
        assert(before.warnings.is_prefix_of(labelled.warnings));
        let directed = directive_step(labelled, ins);
        assert(labelled.errors.is_prefix_of(directed.errors));
        assert(labelled.warnings.is_prefix_of(directed.warnings));
    }
}

/// Where the second pass gives no error, every record with an opcode has
/// an encoding: each label that is used is bound.
pub proof fn lemma_all_encoded(records: Seq<InstructionView>, symbols: Seq<SymbolView>, k: int)
    requires
        generated(records, symbols).1.len() == 0,
        0 <= k < records.len(),
        records[k].opcode is Some,
    ensures
        encoding(records[k], symbols) is Ok,
    decreases records.len(),
{
    if k < records.len() - 1 {
        lemma_all_encoded(records.drop_last(), symbols, k);
    }
}

/// Assembling is a function of the source text alone: two texts of the
/// same characters give the same image or the same errors, and leave the
/// assembler in the same state.
pub proof fn lemma_assembly_is_deterministic(a: Seq<char>, b: Seq<char>)
    requires
        a.len() == b.len(),
        forall|i: int| 0 <= i < a.len() ==> a[i] == b[i],
    ensures
        assembled(a) == assembled(b),
        assembler_after(a) == assembler_after(b),
{
    assert(a =~= b);
}

/// The layout of an image: the 64 bytes of the header, then the data, of
/// at most 256 bytes, then the code, of four bytes for each record with an
/// opcode. The labels of the program that gave it are bound once each.
pub proof fn lemma_image_layout(source: Seq<char>)
    requires
        assembled(source) is Ok,
    ensures
        spec_source(source) is Ok,
        assembled(source)->Ok_0 == header() + assembler_after(source).ro + assembler_after(
            source,
        ).bytecode,
        assembled(source)->Ok_0.subrange(0, 64) == header(),
        assembler_after(source).ro.len() <= 256,
        assembler_after(source).bytecode.len() == 4 * count_opcodes(spec_source(source)->Ok_0),
        names_unique(assembler_after(source).symbols),
        assembler_after(source).errors.len() == 0,
{
    let records = spec_source(source)->Ok_0;
    let last = assembler_after(source);
    lemma_first_pass_in_order(initial_state(), records);
    lemma_generated_length(records, last.symbols);
    assert(assembled(source)->Ok_0.subrange(0, 64) =~= header());
}

} // verus!
