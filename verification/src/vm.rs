//! The virtual machine: thirty-two registers, a heap, and a loop that
//! fetches, decodes and executes the instructions of a code buffer.

use crate::assembler::append_bytes;
use crate::instruction::Opcode;
use vstd::arithmetic::div_mod::{lemma_fundamental_div_mod, lemma_mod_bound};
use vstd::prelude::*;

verus! {

/// Why a machine stopped with a fault.
#[derive(Debug, PartialEq, Eq, Structural, Clone, Copy)]
pub enum Fault {
    /// The byte at the program counter is no opcode, the instruction's slot
    /// of four bytes is cut off by the end of the code, an operand names a
    /// register that the machine does not have, or the heap cannot grow by
    /// what was asked.
    IllegalInstruction,
    /// A division by zero.
    DivisionByZero,
    /// A jump to a position outside the code.
    JumpOutOfRange,
}

/// What one cycle of the machine, or a run of cycles, ended with.
#[derive(Debug, PartialEq, Eq, Structural, Clone, Copy)]
pub enum Signal {
    /// The machine can go on.
    Continue,
    /// The machine stopped: it met `hlt` or the end of the code.
    Halted,
    /// The machine stopped with a fault.
    Faulted(Fault),
}

/// The machine.
#[derive(Debug)]
pub struct VM {
    /// The registers.
    pub registers: [i32; 32],
    /// The position in `program` of the byte that is fetched next.
    pc: usize,
    /// The code.
    pub program: Vec<u8>,
    heap: Vec<u8>,
    /// The remainder of the last division.
    remainder: u32,
    /// The outcome of the last comparison.
    equal_flag: bool,
}

/// The state of a machine as a mathematical value.
pub struct VMState {
    pub registers: Seq<i32>,
    pub pc: int,
    pub program: Seq<u8>,
    pub heap: Seq<u8>,
    pub remainder: u32,
    pub equal_flag: bool,
}

impl View for VM {
    type V = VMState;

    closed spec fn view(&self) -> VMState {
        VMState {
            registers: self.registers@,
            pc: self.pc as int,
            program: self.program@,
            heap: self.heap@,
            remainder: self.remainder,
            equal_flag: self.equal_flag,
        }
    }
}

/// The state of a machine that was just made: every register zero, no
/// code, no heap.
pub open spec fn initial_vm() -> VMState {
    VMState {
        registers: Seq::new(32, |i: int| 0i32),
        pc: 0,
        program: Seq::empty(),
        heap: Seq::empty(),
        remainder: 0,
        equal_flag: false,
    }
}

/// The quotient of `a` by `b`, rounded towards zero.
pub open spec fn truncated_quotient(a: int, b: int) -> int {
    if a >= 0 && b > 0 {
        a / b
    } else if a < 0 && b < 0 {
        (-a) / (-b)
    } else if a < 0 {
        -((-a) / b)
    } else {
        -(a / (-b))
    }
}

/// The remainder of `a` by `b` that goes with the quotient rounded towards
/// zero: it has the sign of `a`.
pub open spec fn truncated_remainder(a: int, b: int) -> int {
    if a >= 0 && b > 0 {
        a % b
    } else if a < 0 && b < 0 {
        -((-a) % (-b))
    } else if a < 0 {
        -((-a) % b)
    } else {
        a % (-b)
    }
}

/// What `div` puts into the target register: the quotient rounded towards
/// zero; the one quotient that does not fit, of the least number by -1,
/// wraps to the least number.
pub open spec fn register_quotient(a: i32, b: i32) -> i32 {
    if a == i32::MIN && b == -1 {
        i32::MIN
    } else {
        truncated_quotient(a as int, b as int) as i32
    }
}

/// What `div` puts into the remainder register: the remainder that goes
/// with the quotient, a negative one in two's complement.
pub open spec fn register_remainder(a: i32, b: i32) -> u32 {
    let r = truncated_remainder(a as int, b as int);
    if r >= 0 {
        r as u32
    } else {
        (r + 0x1_0000_0000) as u32
    }
}

/// The state after the opcode byte was fetched and nothing else happened.
pub open spec fn fetched(s: VMState) -> VMState {
    VMState { pc: s.pc + 1, ..s }
}

/// The state after an instruction that only writes a register.
pub open spec fn with_register(s: VMState, r: u8, value: i32) -> VMState {
    VMState { registers: s.registers.update(r as int, value), pc: s.pc + 4, ..s }
}

/// The state after a comparison.
pub open spec fn with_flag(s: VMState, flag: bool) -> VMState {
    VMState { equal_flag: flag, pc: s.pc + 4, ..s }
}

/// The outcome of a jump to `target`: there, if it is a position in the
/// code; else a fault.
pub open spec fn jump(s: VMState, target: int) -> (VMState, Signal) {
    if 0 <= target < s.program.len() {
        (VMState { pc: target, ..s }, Signal::Continue)
    } else {
        (fetched(s), Signal::Faulted(Fault::JumpOutOfRange))
    }
}

/// Whether the operand byte names a register of the machine.
pub open spec fn is_register(b: u8) -> bool {
    b < 32
}

/// What an instruction whose whole slot lies in the code does: `op` is its
/// opcode, `a`, `b` and `c` the three bytes after it. The state `s` is the
/// one before the fetch.
pub open spec fn execute(s: VMState, op: Opcode, a: u8, b: u8, c: u8) -> (VMState, Signal) {
    let illegal = (fetched(s), Signal::Faulted(Fault::IllegalInstruction));
    let ra = s.registers[a as int];
    let rb = s.registers[b as int];
    match op {
        Opcode::LOAD => if is_register(a) {
            (with_register(s, a, (b as int * 256 + c as int) as i32), Signal::Continue)
        } else {
            illegal
        },
        Opcode::ADD => if is_register(a) && is_register(b) && is_register(c) {
            (with_register(s, c, ra.wrapping_add(rb)), Signal::Continue)
        } else {
            illegal
        },
        Opcode::SUB => if is_register(a) && is_register(b) && is_register(c) {
            (with_register(s, c, ra.wrapping_sub(rb)), Signal::Continue)
        } else {
            illegal
        },
        Opcode::MUL => if is_register(a) && is_register(b) && is_register(c) {
            (with_register(s, c, ra.wrapping_mul(rb)), Signal::Continue)
        } else {
            illegal
        },
        Opcode::DIV => if is_register(a) && is_register(b) && is_register(c) {
            if rb == 0 {
                (fetched(s), Signal::Faulted(Fault::DivisionByZero))
            } else {
                (
                    VMState {
                        remainder: register_remainder(ra, rb),
                        ..with_register(s, c, register_quotient(ra, rb))
                    },
                    Signal::Continue,
                )
            }
        } else {
            illegal
        },
        Opcode::HLT => (fetched(s), Signal::Halted),
        Opcode::IGL => illegal,
        Opcode::JMP => if is_register(a) {
            jump(s, ra as int)
        } else {
            illegal
        },
        Opcode::JMPF => if is_register(a) {
            jump(s, s.pc + 4 + ra)
        } else {
            illegal
        },
        Opcode::JMPB => if is_register(a) {
            jump(s, s.pc + 4 - ra)
        } else {
            illegal
        },
        Opcode::EQ => if is_register(a) && is_register(b) {
            (with_flag(s, ra == rb), Signal::Continue)
        } else {
            illegal
        },
        Opcode::NEQ => if is_register(a) && is_register(b) {
            (with_flag(s, ra != rb), Signal::Continue)
        } else {
            illegal
        },
        Opcode::GT => if is_register(a) && is_register(b) {
            (with_flag(s, ra > rb), Signal::Continue)
        } else {
            illegal
        },
        Opcode::LT => if is_register(a) && is_register(b) {
            (with_flag(s, ra < rb), Signal::Continue)
        } else {
            illegal
        },
        Opcode::GTQ => if is_register(a) && is_register(b) {
            (with_flag(s, ra >= rb), Signal::Continue)
        } else {
            illegal
        },
        Opcode::LTQ => if is_register(a) && is_register(b) {
            (with_flag(s, ra <= rb), Signal::Continue)
        } else {
            illegal
        },
        Opcode::JEQ => if is_register(a) {
            if s.equal_flag {
                jump(s, ra as int)
            } else {
                (VMState { pc: s.pc + 4, ..s }, Signal::Continue)
            }
        } else {
            illegal
        },
        Opcode::INC => if is_register(a) {
            (with_register(s, a, ra.wrapping_add(1)), Signal::Continue)
        } else {
            illegal
        },
        Opcode::DEC => if is_register(a) {
            (with_register(s, a, ra.wrapping_sub(1)), Signal::Continue)
        } else {
            illegal
        },
        Opcode::ALOC => if is_register(a) && ra >= 0 && s.heap.len() + ra <= usize::MAX {
            (
                VMState {
                    heap: s.heap + Seq::new(ra as nat, |i: int| 0u8),
                    pc: s.pc + 4,
                    ..s
                },
                Signal::Continue,
            )
        } else {
            illegal
        },
    }
}

/// One cycle of the machine. At the end of the code the machine halts and
/// nothing changes. Else the byte at the program counter is fetched and
/// decoded. `hlt` halts, and a byte that is no opcode is a fault, both with
/// nothing but the fetch done. Every other instruction takes a slot of
/// four bytes; a slot that the end of the code cuts off is a fault. A
/// fault leaves everything but the program counter as it was.
pub open spec fn step_spec(s: VMState) -> (VMState, Signal) {
    if s.pc >= s.program.len() {
        (s, Signal::Halted)
    } else {
        let op = Opcode::spec_from_byte(s.program[s.pc]);
        if op == Opcode::HLT {
            (fetched(s), Signal::Halted)
        } else if op == Opcode::IGL || s.pc + 4 > s.program.len() {
            (fetched(s), Signal::Faulted(Fault::IllegalInstruction))
        } else {
            execute(
                s,
                op,
                s.program[s.pc + 1],
                s.program[s.pc + 2],
                s.program[s.pc + 3],
            )
        }
    }
}

/// Up to `budget` cycles: the machine runs until a cycle ends with
/// anything but `Continue`, or the budget is spent, in which case the
/// outcome is `Continue`.
pub open spec fn run_spec(s: VMState, budget: nat) -> (VMState, Signal)
    decreases budget,
{
    if budget == 0 {
        (s, Signal::Continue)
    } else {
        let (next, signal) = step_spec(s);
        if signal == Signal::Continue {
            run_spec(next, (budget - 1) as nat)
        } else {
            (next, signal)
        }
    }
}

/// Where the next opcode byte is no opcode, the cycle ends with a fault,
/// and so does every run; the program counter has moved past that byte,
/// and nothing else has changed.
pub proof fn lemma_unmapped_opcode_faults(s: VMState, budget: nat)
    requires
        0 <= s.pc < s.program.len(),
        s.program[s.pc] >= 20 || s.program[s.pc] == 9,
    ensures
        step_spec(s) == (fetched(s), Signal::Faulted(Fault::IllegalInstruction)),
        budget > 0 ==> run_spec(s, budget) == (
            fetched(s),
            Signal::Faulted(Fault::IllegalInstruction),
        ),
{
}

/// A cycle that ends with anything but `Continue` leaves the registers,
/// the heap, the flag, the remainder and the code as they were.
pub proof fn lemma_stop_keeps_state(s: VMState)
    requires
        step_spec(s).1 != Signal::Continue,
    ensures
        step_spec(s).0 == s || step_spec(s).0 == fetched(s),
{
}

/// A cycle never changes the code, nor how many registers there are.
pub proof fn lemma_step_keeps_code(s: VMState)
    requires
        s.registers.len() == 32,
    ensures
        step_spec(s).0.program == s.program,
        step_spec(s).0.registers.len() == 32,
{
}

/// A run never changes the code, nor how many registers there are.
pub proof fn lemma_run_keeps_code(s: VMState, budget: nat)
    requires
        s.registers.len() == 32,
    ensures
        run_spec(s, budget).0.program == s.program,
        run_spec(s, budget).0.registers.len() == 32,
    decreases budget,
{
    if budget > 0 {
        lemma_step_keeps_code(s);
        if step_spec(s).1 == Signal::Continue {
            lemma_run_keeps_code(step_spec(s).0, (budget - 1) as nat);
        }
    }
}

/// A run in two turns is one run: the machine that stopped in the first
/// turn has stopped, and the one that can go on goes on in the second as
/// if there had been no break.
pub proof fn lemma_run_in_turns(s: VMState, first: nat, second: nat)
    ensures
        run_spec(s, first + second) == (if run_spec(s, first).1 == Signal::Continue {
            run_spec(run_spec(s, first).0, second)
        } else {
            run_spec(s, first)
        }),
    decreases first,
{
    if first > 0 {
        if step_spec(s).1 == Signal::Continue {
            lemma_run_in_turns(step_spec(s).0, (first - 1) as nat, second);
            assert((first + second - 1) as nat == (first - 1) as nat + second);
        }
    }
}

/// A machine at the end of its code halts at once, whatever the budget.
pub proof fn lemma_run_at_end_halts(s: VMState, budget: nat)
    requires
        s.pc >= s.program.len(),
        budget > 0,
    ensures
        run_spec(s, budget) == (s, Signal::Halted),
{
}

/// The quotient and the remainder of a division make up the dividend, and
/// the remainder is smaller than the divisor.
pub proof fn lemma_division(a: int, b: int)
    requires
        b != 0,
    ensures
        a == b * truncated_quotient(a, b) + truncated_remainder(a, b),
        a >= 0 ==> 0 <= truncated_remainder(a, b),
        a <= 0 ==> truncated_remainder(a, b) <= 0,
        b > 0 ==> -b < truncated_remainder(a, b) < b,
        b < 0 ==> b < truncated_remainder(a, b) < -b,
{
    if a >= 0 && b > 0 {
        lemma_fundamental_div_mod(a, b);
        lemma_mod_bound(a, b);
    } else if a < 0 && b < 0 {
        lemma_fundamental_div_mod(-a, -b);
        lemma_mod_bound(-a, -b);
        assert(b * ((-a) / (-b)) == -((-b) * ((-a) / (-b)))) by (nonlinear_arith);
    } else if a < 0 {
        lemma_fundamental_div_mod(-a, b);
        lemma_mod_bound(-a, b);
        assert(b * (-((-a) / b)) == -(b * ((-a) / b))) by (nonlinear_arith);
    } else {
        lemma_fundamental_div_mod(a, -b);
        lemma_mod_bound(a, -b);
        assert(b * (-(a / (-b))) == (-b) * (a / (-b))) by (nonlinear_arith);
    }
}

/// The quotient is no larger than the dividend.
pub proof fn lemma_quotient_bound(a: int, b: int)
    requires
        b != 0,
    ensures
        a >= 0 ==> -a <= truncated_quotient(a, b) <= a,
        a <= 0 ==> a <= truncated_quotient(a, b) <= -a,
{
    lemma_division(a, b);
    let q = truncated_quotient(a, b);
    let r = truncated_remainder(a, b);
    assert(a == b * q + r);
    if q > 0 {
        assert(b >= 1 ==> b * q >= q) by (nonlinear_arith)
            requires
                q > 0,
        ;
        assert(b <= -1 ==> b * q <= -q) by (nonlinear_arith)
            requires
                q > 0,
        ;
    } else if q < 0 {
        assert(b >= 1 ==> b * q <= q) by (nonlinear_arith)
            requires
                q < 0,
        ;
        assert(b <= -1 ==> b * q >= -q) by (nonlinear_arith)
            requires
                q < 0,
        ;
    }
}

impl VM {
    /// A machine with every register zero, no code and no heap.
    pub fn new() -> (vm: VM)
        ensures
            vm@ == initial_vm(),
    {
        let vm = VM {
            registers: [0i32; 32],
            pc: 0,
            program: Vec::new(),
            heap: Vec::new(),
            remainder: 0,
            equal_flag: false,
        };
        assert(vm.registers@ =~= Seq::new(32, |i: int| 0i32));
        vm
    }

    /// Every machine has thirty-two registers.
    pub proof fn lemma_register_count(&self)
        ensures
            self@.registers.len() == 32,
    {
    }

    /// Appends `bytes` to the code.
    pub fn load(&mut self, bytes: &[u8])
        ensures
            final(self)@ == (VMState { program: old(self)@.program + bytes@, ..old(self)@ }),
    {
        append_bytes(&mut self.program, bytes);
    }

    /// Forgets the code and goes back to its start.
    pub fn clear_program(&mut self)
        ensures
            final(self)@ == (VMState { program: Seq::empty(), pc: 0, ..old(self)@ }),
    {
        self.program.clear();
        self.pc = 0;
    }

    /// The value of register `index`, if the machine has such a register.
    pub fn register(&self, index: usize) -> (value: Option<i32>)
        ensures
            value == (if index < 32 {
                Some(self@.registers[index as int])
            } else {
                None
            }),
    {
        if index < 32 {
            Some(self.registers[index])
        } else {
            None
        }
    }

    /// The heap.
    pub fn heap(&self) -> (heap: &Vec<u8>)
        ensures
            heap@ == self@.heap,
    {
        &self.heap
    }

    /// The length of the code.
    pub fn program_len(&self) -> (n: usize)
        ensures
            n == self@.program.len(),
    {
        self.program.len()
    }

    /// The program counter.
    pub fn pc(&self) -> (pc: usize)
        ensures
            pc == self@.pc,
    {
        self.pc
    }

    /// The remainder of the last division.
    pub fn remainder(&self) -> (r: u32)
        ensures
            r == self@.remainder,
    {
        self.remainder
    }

    /// The outcome of the last comparison.
    pub fn equal_flag(&self) -> (flag: bool)
        ensures
            flag == self@.equal_flag,
    {
        self.equal_flag
    }

    /// Runs one cycle: fetch, decode, execute.
    pub fn step(&mut self) -> (signal: Signal)
        ensures
            (final(self)@, signal) == step_spec(old(self)@),
    {
        let slot: usize = self.pc;
        if slot >= self.program.len() {
            return Signal::Halted;
        }
        let op = Opcode::from(self.program[slot]);
        self.pc = slot + 1;
        match op {
            Opcode::HLT => {
                return Signal::Halted;
            },
            Opcode::IGL => {
                return Signal::Faulted(Fault::IllegalInstruction);
            },
            _ => {},
        }
        if self.program.len() - slot < 4 {
            return Signal::Faulted(Fault::IllegalInstruction);
        }
        let a: u8 = self.program[slot + 1];
        let b: u8 = self.program[slot + 2];
        let c: u8 = self.program[slot + 3];
        let next: usize = slot + 4;
        let illegal = Signal::Faulted(Fault::IllegalInstruction);
        match op {
            Opcode::LOAD => {
                if a >= 32 {
                    return illegal;
                }
                let number: i32 = (b as u16 * 256 + c as u16) as i32;
                self.set_register(a, number, next);
            },
            Opcode::ADD => {
                if a >= 32 || b >= 32 || c >= 32 {
                    return illegal;
                }
                let value: i32 = self.registers[a as usize].wrapping_add(
                    self.registers[b as usize],
                );
                self.set_register(c, value, next);
            },
            Opcode::SUB => {
                if a >= 32 || b >= 32 || c >= 32 {
                    return illegal;
                }
                let value: i32 = self.registers[a as usize].wrapping_sub(
                    self.registers[b as usize],
                );
                self.set_register(c, value, next);
            },
            Opcode::MUL => {
                if a >= 32 || b >= 32 || c >= 32 {
                    return illegal;
                }
                let value: i32 = self.registers[a as usize].wrapping_mul(
                    self.registers[b as usize],
                );
                self.set_register(c, value, next);
            },
            Opcode::DIV => {
                if a >= 32 || b >= 32 || c >= 32 {
                    return illegal;
                }
                let dividend: i32 = self.registers[a as usize];
                let divisor: i32 = self.registers[b as usize];
                if divisor == 0 {
                    return Signal::Faulted(Fault::DivisionByZero);
                }
                let (quotient, remainder) = divide(dividend, divisor);
                self.remainder = remainder;
                self.set_register(c, quotient, next);
            },
            Opcode::JMP => {
                if a >= 32 {
                    return illegal;
                }
                let target: i32 = self.registers[a as usize];
                return self.jump_to(0, target as i64);
            },
            Opcode::JMPF => {
                if a >= 32 {
                    return illegal;
                }
                let distance: i32 = self.registers[a as usize];
                return self.jump_to(next, distance as i64);
            },
            Opcode::JMPB => {
                if a >= 32 {
                    return illegal;
                }
                let distance: i32 = self.registers[a as usize];
                return self.jump_to(next, -(distance as i64));
            },
            Opcode::EQ => {
                if a >= 32 || b >= 32 {
                    return illegal;
                }
                self.equal_flag = self.registers[a as usize] == self.registers[b as usize];
                self.pc = next;
            },
            Opcode::NEQ => {
                if a >= 32 || b >= 32 {
                    return illegal;
                }
                self.equal_flag = self.registers[a as usize] != self.registers[b as usize];
                self.pc = next;
            },
            Opcode::GT => {
                if a >= 32 || b >= 32 {
                    return illegal;
                }
                self.equal_flag = self.registers[a as usize] > self.registers[b as usize];
                self.pc = next;
            },
            Opcode::LT => {
                if a >= 32 || b >= 32 {
                    return illegal;
                }
                self.equal_flag = self.registers[a as usize] < self.registers[b as usize];
                self.pc = next;
            },
            Opcode::GTQ => {
                if a >= 32 || b >= 32 {
                    return illegal;
                }
                self.equal_flag = self.registers[a as usize] >= self.registers[b as usize];
                self.pc = next;
            },
            Opcode::LTQ => {
                if a >= 32 || b >= 32 {
                    return illegal;
                }
                self.equal_flag = self.registers[a as usize] <= self.registers[b as usize];
                self.pc = next;
            },
            Opcode::JEQ => {
                if a >= 32 {
                    return illegal;
                }
                if self.equal_flag {
                    let target: i32 = self.registers[a as usize];
                    return self.jump_to(0, target as i64);
                }
                self.pc = next;
            },
            Opcode::INC => {
                if a >= 32 {
                    return illegal;
                }
                let value: i32 = self.registers[a as usize].wrapping_add(1);
                self.set_register(a, value, next);
            },
            Opcode::DEC => {
                if a >= 32 {
                    return illegal;
                }
                let value: i32 = self.registers[a as usize].wrapping_sub(1);
                self.set_register(a, value, next);
            },
            Opcode::ALOC => {
                if a >= 32 {
                    return illegal;
                }
                let bytes: i32 = self.registers[a as usize];
                if bytes < 0 {
                    return illegal;
                }
                match self.heap.len().checked_add(bytes as usize) {
                    Some(new_end) => {
                        self.heap.resize(new_end, 0);
                        assert(self.heap@ =~= old(self).heap@ + Seq::new(
                            bytes as nat,
                            |i: int| 0u8,
                        ));
                    },
                    None => {
                        return illegal;
                    },
                }
                self.pc = next;
            },
            Opcode::HLT => {
                return Signal::Halted;
            },
            Opcode::IGL => {
                return illegal;
            },
        }
        Signal::Continue
    }

    /// Runs up to `max_steps` cycles, until one of them ends with anything
    /// but `Continue`. The outcome is `Continue` where the budget is spent
    /// first.
    pub fn run(&mut self, max_steps: u64) -> (signal: Signal)
        ensures
            (final(self)@, signal) == run_spec(old(self)@, max_steps as nat),
    {
        let mut left: u64 = max_steps;
        while left > 0
            invariant
                run_spec(old(self)@, max_steps as nat) == run_spec(self@, left as nat),
            decreases left,
        {
            let signal = self.step();
            match signal {
                Signal::Continue => {},
                _ => {
                    return signal;
                },
            }
            left -= 1;
        }
        Signal::Continue
    }

    /// Writes `value` into register `r` and moves on to the slot at `next`.
    fn set_register(&mut self, r: u8, value: i32, next: usize)
        requires
            r < 32,
        ensures
            final(self)@ == (VMState {
                registers: old(self)@.registers.update(r as int, value),
                pc: next as int,
                ..old(self)@
            }),
    {
        self.registers[r as usize] = value;
        self.pc = next;
    }

    /// Jumps to `base + offset` if that is a position in the code.
    fn jump_to(&mut self, base: usize, offset: i64) -> (signal: Signal)
        requires
            i32::MIN <= offset <= -(i32::MIN as int),
        ensures
            0 <= base + offset < old(self)@.program.len() ==> signal == Signal::Continue
                && final(self)@ == (VMState { pc: base + offset, ..old(self)@ }),
            !(0 <= base + offset < old(self)@.program.len()) ==> signal == Signal::Faulted(
                Fault::JumpOutOfRange,
            ) && final(self)@ == old(self)@,
    {
        let len: usize = self.program.len();
        let target: Option<usize> = if offset >= 0 {
            base.checked_add(offset as usize)
        } else {
            base.checked_sub((-offset) as usize)
        };
        match target {
            Some(t) => {
                if t < len {
                    self.pc = t;
                    Signal::Continue
                } else {
                    Signal::Faulted(Fault::JumpOutOfRange)
                }
            },
            None => Signal::Faulted(Fault::JumpOutOfRange),
        }
    }
}

/// Divides `a` by `b`: the quotient rounded towards zero and the remainder
/// that goes with it, as `div` stores them.
pub fn divide(a: i32, b: i32) -> (r: (i32, u32))
    requires
        b != 0,
    ensures
        r.0 == register_quotient(a, b),
        r.1 == register_remainder(a, b),
{
    if a == i32::MIN && b == -1 {
        assert(truncated_remainder(a as int, b as int) == 0);
        return (i32::MIN, 0);
    }
    let q: Option<i32> = a.checked_div(b);
    let r: Option<i32> = a.checked_rem(b);
    proof {
        // Both calls succeed, since the quotient and the remainder are no
        // larger than the dividend.
        lemma_division(a as int, b as int);
        lemma_quotient_bound(a as int, b as int);
        assert(i32::MIN <= truncated_quotient(a as int, b as int) <= i32::MAX);
        assert((a as int) * -1 == -(a as int));
        assert((b as int) * -1 == -(b as int));
        assert(a == 0 ==> truncated_quotient(a as int, b as int) == 0);
        assert(q == Some(truncated_quotient(a as int, b as int) as i32));
        assert(r == Some(truncated_remainder(a as int, b as int) as i32));
    }
    match (q, r) {
        (Some(q), Some(r)) => {
            let remainder: u32 = if r >= 0 {
                r as u32
            } else {
                (r as i64 + 0x1_0000_0000) as u32
            };
            (q, remainder)
        },
        _ => (i32::MIN, 0),
    }
}

} // verus!
