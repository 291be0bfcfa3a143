//! What ties the assembler to the machine: the machine decodes what the
//! assembler encodes.

use crate::assembler::instruction_parsers::{encoding, InstructionView};
use crate::assembler::symbols::SymbolView;
use crate::assembler::TokenView;
use crate::instruction::Opcode;
use crate::vm::{execute, fetched, run_spec, step_spec, Fault, Signal, VMState};
use vstd::prelude::*;

verus! {

/// Whether the four bytes of the code of `s` at its program counter are
/// `bytes`.
pub open spec fn next_slot_is(s: VMState, bytes: Seq<u8>) -> bool {
    &&& bytes.len() == 4
    &&& 0 <= s.pc
    &&& s.pc + 4 <= s.program.len()
    &&& s.program.subrange(s.pc, s.pc + 4) == bytes
}

/// The machine decodes what the assembler encodes. Where the next slot of
/// the code holds the encoding of a record, the machine's cycle is the
/// execution of the record's opcode on the three bytes that the assembler
/// made of the operands; `hlt` halts.
pub proof fn lemma_machine_decodes_encoding(
    s: VMState,
    ins: InstructionView,
    symbols: Seq<SymbolView>,
)
    requires
        encoding(ins, symbols) is Ok,
        next_slot_is(s, encoding(ins, symbols)->Ok_0),
    ensures
        ins.opcode matches Some(TokenView::Op { code }) && step_spec(s) == (if code
            == Opcode::HLT {
            (fetched(s), Signal::Halted)
        } else {
            execute(
                s,
                code,
                encoding(ins, symbols)->Ok_0[1],
                encoding(ins, symbols)->Ok_0[2],
                encoding(ins, symbols)->Ok_0[3],
            )
        }),
{
    let bytes = encoding(ins, symbols)->Ok_0;
    let slot = s.program.subrange(s.pc, s.pc + 4);
    assert(slot[0] == s.program[s.pc]);
    assert(slot[1] == s.program[s.pc + 1]);
    assert(slot[2] == s.program[s.pc + 2]);
    assert(slot[3] == s.program[s.pc + 3]);
    match ins.opcode {
        Some(TokenView::Op { code }) => {
            Opcode::lemma_byte_round_trip(code);
            assert(bytes[0] == code.spec_byte());
        },
        _ => {},
    }
}

/// A load that the assembler encoded puts the low sixteen bits of its
/// immediate into its register, and the machine goes on with the next
/// slot.
pub proof fn lemma_load_is_executed(s: VMState, register: u8, value: i32)
    requires
        register < 32,
        s.registers.len() == 32,
        next_slot_is(
            s,
            encoding(
                InstructionView {
                    opcode: Some(TokenView::Op { code: Opcode::LOAD }),
                    label: None,
                    directive: None,
                    operand1: Some(TokenView::Register { reg_num: register }),
                    operand2: Some(TokenView::Number { value }),
                    operand3: None,
                },
                Seq::empty(),
            )->Ok_0,
        ),
    ensures
        step_spec(s) == (
            VMState {
                registers: s.registers.update(register as int, ((value as int) % 0x10000) as i32),
                pc: s.pc + 4,
                ..s
            },
            Signal::Continue,
        ),
{
    let ins = InstructionView {
        opcode: Some(TokenView::Op { code: Opcode::LOAD }),
        label: None,
        directive: None,
        operand1: Some(TokenView::Register { reg_num: register }),
        operand2: Some(TokenView::Number { value }),
        operand3: None,
    };
    let symbols = Seq::<SymbolView>::empty();
    let low = (value as int) % 0x10000;
    let body = seq![Opcode::LOAD.spec_byte()] + seq![register] + seq![
        (low / 256) as u8,
        (low % 256) as u8,
    ] + Seq::<u8>::empty();
    assert(body.len() == 4);
    let bytes = encoding(ins, symbols)->Ok_0;
    assert(bytes =~= body);
    lemma_machine_decodes_encoding(s, ins, symbols);
    assert(bytes[1] == register);
    assert(bytes[2] as int * 256 + bytes[3] as int == low);
}

/// A jump to a `hlt` halts without a fault and leaves every register as
/// it was: after the two cycles the program counter stands behind the
/// `hlt`, and nothing else has changed.
pub proof fn lemma_jump_to_halt(s: VMState, register: u8, budget: nat)
    requires
        budget >= 2,
        register < 32,
        0 <= s.pc,
        s.pc + 4 <= s.program.len(),
        s.program[s.pc] == Opcode::JMP.spec_byte(),
        s.program[s.pc + 1] == register,
        0 <= s.registers[register as int] < s.program.len(),
        s.program[s.registers[register as int] as int] == Opcode::HLT.spec_byte(),
    ensures
        run_spec(s, budget) == (
            VMState { pc: s.registers[register as int] + 1, ..s },
            Signal::Halted,
        ),
{
    let target = s.registers[register as int] as int;
    let jumped = VMState { pc: target, ..s };
    assert(step_spec(s) == (jumped, Signal::Continue));
    assert(step_spec(jumped) == (VMState { pc: target + 1, ..s }, Signal::Halted));
    assert(run_spec(jumped, (budget - 1) as nat) == (
        VMState { pc: target + 1, ..s },
        Signal::Halted,
    ));
}

/// A division by zero is a fault that leaves the registers and the
/// remainder as they were.
pub proof fn lemma_division_by_zero_faults(s: VMState, a: u8, b: u8, c: u8)
    requires
        a < 32 && b < 32 && c < 32,
        s.registers[b as int] == 0,
    ensures
        execute(s, Opcode::DIV, a, b, c) == (fetched(s), Signal::Faulted(Fault::DivisionByZero)),
{
}

} // verus!
