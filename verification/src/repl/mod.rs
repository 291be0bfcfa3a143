//! An interactive session: it takes one line at a time, which is a command
//! of the session, assembly text or code in hexadecimal, and runs the
//! machine one cycle further.

use crate::assembler::program_parsers::{generated, parse, spec_source};
use crate::assembler::scanner::{find, find_char, str_equal, to_chars};
use crate::assembler::symbols::{SymbolTable, SymbolView};
use crate::repl::system_operations::SystemOperations;
pub use crate::repl::system_operations::TestSystemOperations;
use crate::vm::{initial_vm, step_spec, Signal, VMState, VM};
use std::num::ParseIntError;
use vstd::prelude::*;
use vstd::string::StrSliceExecFns;

pub mod system_operations;

verus! {

/// `std::num::ParseIntError`, the error of the standard library for text
/// that is no number. Nothing is known of what a value of it holds.
#[verifier::external_type_specification]
#[verifier::external_body]
pub struct ExParseIntError(ParseIntError);

/// The text that `str::trim` of the standard library leaves of a text: the
/// text without the white space at its start and at its end, white space
/// being what Unicode defines as such. The result depends on the text
/// alone.
pub uninterp spec fn trimmed(s: Seq<char>) -> Seq<char>;

/// `str::trim` of the standard library. The contract gives its result the
/// name `trimmed` and says nothing else of it.
#[verifier::external_body]
fn trim(s: &str) -> (t: &str)
    ensures
        t@ == trimmed(s@),
{
    s.trim()
}

/// The number that a hexadecimal digit stands for, if `c` is one.
pub open spec fn hex_digit(c: char) -> Option<nat> {
    if '0' <= c <= '9' {
        Some((c as int - '0' as int) as nat)
    } else if 'a' <= c <= 'f' {
        Some((c as int - 'a' as int + 10) as nat)
    } else if 'A' <= c <= 'F' {
        Some((c as int - 'A' as int + 10) as nat)
    } else {
        None
    }
}

/// The number that a sequence of hexadecimal digits writes, if every
/// character of it is such a digit.
pub open spec fn hex_value(digits: Seq<char>) -> Option<nat>
    decreases digits.len(),
{
    if digits.len() == 0 {
        Some(0)
    } else {
        match (hex_value(digits.drop_last()), hex_digit(digits.last())) {
            (Some(high), Some(low)) => Some(high * 16 + low),
            _ => None,
        }
    }
}

/// The byte that a text writes in hexadecimal: an optional `+`, then at
/// least one hexadecimal digit, and a value of at most 255.
pub open spec fn spec_hex_byte(s: Seq<char>) -> Option<u8> {
    let digits = if s.len() > 0 && s[0] == '+' {
        s.skip(1)
    } else {
        s
    };
    match hex_value(digits) {
        Some(v) => if digits.len() > 0 && v <= 255 {
            Some(v as u8)
        } else {
            None
        },
        None => None,
    }
}

/// `u8::from_str_radix` of the standard library, with radix 16. The
/// contract says what its documentation says: the call succeeds on an
/// optional `+` sign followed by only hexadecimal digits, at least one,
/// that write a number of at most 255, and then gives that number; on
/// every other text it gives an error.
#[verifier::external_body]
fn hex_byte(s: &str) -> (r: Result<u8, ParseIntError>)
    ensures
        match r {
            Ok(v) => spec_hex_byte(s@) == Some(v),
            Err(_) => spec_hex_byte(s@) is None,
        },
{
    u8::from_str_radix(s, 16)
}

/// The bytes that a text writes as groups of hexadecimal digits, from
/// position `i` on: the groups stand between single spaces, and every one
/// of them has to write a byte.
pub open spec fn hex_bytes_from(s: Seq<char>, i: int) -> Option<Seq<u8>>
    decreases s.len() - i,
{
    let j = find_char(s, i, ' ');
    if 0 <= i <= j < s.len() {
        match (spec_hex_byte(s.subrange(i, j)), hex_bytes_from(s, j + 1)) {
            (Some(v), Some(rest)) => Some(seq![v] + rest),
            _ => None,
        }
    } else if 0 <= i <= s.len() {
        match spec_hex_byte(s.subrange(i, s.len() as int)) {
            Some(v) => Some(seq![v]),
            None => None,
        }
    } else {
        None
    }
}

/// The bytes that a text writes in hexadecimal.
pub open spec fn hex_bytes(s: Seq<char>) -> Option<Seq<u8>> {
    hex_bytes_from(s, 0)
}

/// The code that a text assembles to by itself: the text is a program and
/// nothing else, it uses no label, and every record of it can be encoded.
pub open spec fn source_code(s: Seq<char>) -> Option<Seq<u8>> {
    match spec_source(s) {
        Ok(records) => {
            let (code, errors) = generated(records, Seq::<SymbolView>::empty());
            if errors.len() == 0 {
                Some(code)
            } else {
                None
            }
        },
        Err(_) => None,
    }
}

/// The code that a line of a session stands for: the code that it
/// assembles to, or else the bytes that it writes in hexadecimal.
pub open spec fn line_code(s: Seq<char>) -> Option<Seq<u8>> {
    if source_code(s) is Some {
        source_code(s)
    } else {
        hex_bytes(s)
    }
}

/// What a session asks of its surroundings after a line.
#[derive(Debug, PartialEq, Eq, Structural, Clone, Copy)]
pub enum ReplAction {
    /// Show the code of the machine.
    ListProgram,
    /// Show the registers.
    ListRegisters,
    /// End the session.
    Quit,
    /// Show the lines so far.
    ListHistory,
    /// Nothing: the code was cleared.
    Cleared,
    /// Read a file of assembly text and hand it to `load_source`.
    LoadFile,
    /// The line was code; it was loaded, and the machine ran a cycle that
    /// ended with this signal.
    Executed(Signal),
    /// The line was neither a command nor code; the machine ran a cycle all
    /// the same, which ended with this signal.
    Undecodable(Signal),
}

/// A session: the lines so far and the machine.
pub struct REPL {
    command_buffer: Vec<String>,
    vm: VM,
}

/// The state of a session as a mathematical value.
pub struct ReplState {
    pub history: Seq<Seq<char>>,
    pub vm: VMState,
}

impl View for REPL {
    type V = ReplState;

    closed spec fn view(&self) -> ReplState {
        ReplState {
            history: Seq::new(self.command_buffer@.len(), |i: int| self.command_buffer@[i]@),
            vm: self.vm@,
        }
    }
}

/// The machine after `code` was added to its code.
pub open spec fn loaded(vm: VMState, code: Seq<u8>) -> VMState {
    VMState { program: vm.program + code, ..vm }
}

/// What a line does to a session. The line joins the history. A command
/// is answered by the action of its name, and `.clear` also empties the
/// code of the machine. Any other line is taken as code, which is added to
/// the code of the machine if it is code, and the machine runs one cycle.
pub open spec fn repl_step(st: ReplState, line: Seq<char>) -> (ReplState, ReplAction) {
    let history = st.history.push(line);
    if line == ".program"@ {
        (ReplState { history, ..st }, ReplAction::ListProgram)
    } else if line == ".registers"@ {
        (ReplState { history, ..st }, ReplAction::ListRegisters)
    } else if line == ".quit"@ {
        (ReplState { history, ..st }, ReplAction::Quit)
    } else if line == ".history"@ {
        (ReplState { history, ..st }, ReplAction::ListHistory)
    } else if line == ".clear"@ {
        (
            ReplState { history, vm: VMState { program: Seq::empty(), pc: 0, ..st.vm } },
            ReplAction::Cleared,
        )
    } else if line == ".load_file"@ {
        (ReplState { history, ..st }, ReplAction::LoadFile)
    } else {
        match line_code(line) {
            Some(code) => {
                let (vm, signal) = step_spec(loaded(st.vm, code));
                (ReplState { history, vm }, ReplAction::Executed(signal))
            },
            None => {
                let (vm, signal) = step_spec(st.vm);
                (ReplState { history, vm }, ReplAction::Undecodable(signal))
            },
        }
    }
}

impl REPL {
    /// A session without lines, with a new machine.
    pub fn new() -> (repl: REPL)
        ensures
            repl@ == (ReplState { history: Seq::empty(), vm: initial_vm() }),
    {
        let repl = REPL { vm: VM::new(), command_buffer: Vec::new() };
        assert(repl@.history =~= Seq::<Seq<char>>::empty());
        repl
    }

    /// Reads the bytes that `i` writes as groups of hexadecimal digits
    /// between single spaces.
    pub fn parse_hex(&mut self, i: &str) -> (r: Result<Vec<u8>, ParseIntError>)
        ensures
            match r {
                Ok(bytes) => hex_bytes(i@) == Some(bytes@),
                Err(_) => hex_bytes(i@) is None,
            },
            *final(self) == *old(self),
    {
        let text = to_chars(i);
        let n: usize = text.len();
        let mut results: Vec<u8> = Vec::new();
        let mut from: usize = 0;
        loop
            invariant
                n == text@.len(),
                text@ == i@,
                from <= n,
                *self == *old(self),
                hex_bytes(i@) == (match hex_bytes_from(i@, from as int) {
                    Some(rest) => Some(results@ + rest),
                    None => None,
                }),
            decreases n - from,
        {
            let to: usize = find(text.as_slice(), from, ' ');
            let hex_string = i.substring_char(from, to);
            match hex_byte(hex_string) {
                Ok(result) => {
                    if to < n {
                        proof {
                            let rest = hex_bytes_from(i@, to + 1);
                            if rest is Some {
                                assert(results@ + (seq![result] + rest->0) =~= results@.push(
                                    result,
                                ) + rest->0);
                            }
                        }
                        results.push(result);
                        from = to + 1;
                    } else {
                        assert(results@ + seq![result] =~= results@.push(result));
                        results.push(result);
                        return Ok(results);
                    }
                },
                Err(e) => {
                    return Err(e);
                },
            }
        }
    }

    /// The code that `source` assembles to by itself.
    pub fn source_bytes(source: &str) -> (r: Option<Vec<u8>>)
        ensures
            match r {
                Some(code) => source_code(source@) == Some(code@),
                None => source_code(source@) is None,
            },
    {
        match parse(source) {
            Ok(program) => {
                let symbols = SymbolTable::new();
                match program.to_bytes(&symbols) {
                    Ok(code) => Some(code),
                    Err(_) => None,
                }
            },
            Err(_) => None,
        }
    }

    /// Adds the code that `source` assembles to by itself to the code of
    /// the machine, and tells whether there was any: a text that is no such
    /// program changes nothing.
    pub fn load_source(&mut self, source: &str) -> (accepted: bool)
        ensures
            match source_code(source@) {
                Some(code) => accepted && final(self)@ == (ReplState {
                    vm: loaded(old(self)@.vm, code),
                    ..old(self)@
                }),
                None => !accepted && final(self)@ == old(self)@,
            },
    {
        match REPL::source_bytes(source) {
            Some(code) => {
                self.vm.load(code.as_slice());
                true
            },
            None => false,
        }
    }

    /// Takes one line: see `repl_step`.
    pub fn execute(&mut self, line: &str) -> (action: ReplAction)
        ensures
            (final(self)@, action) == repl_step(old(self)@, line@),
    {
        self.command_buffer.push(line.to_owned());
        assert(self@.history =~= old(self)@.history.push(line@));
        if str_equal(line, ".program") {
            ReplAction::ListProgram
        } else if str_equal(line, ".registers") {
            ReplAction::ListRegisters
        } else if str_equal(line, ".quit") {
            ReplAction::Quit
        } else if str_equal(line, ".history") {
            ReplAction::ListHistory
        } else if str_equal(line, ".clear") {
            self.vm.clear_program();
            ReplAction::Cleared
        } else if str_equal(line, ".load_file") {
            ReplAction::LoadFile
        } else {
            let code: Option<Vec<u8>> = match REPL::source_bytes(line) {
                Some(code) => Some(code),
                None => match self.parse_hex(line) {
                    Ok(bytes) => Some(bytes),
                    Err(_) => None,
                },
            };
            match code {
                Some(bytes) => {
                    self.vm.load(bytes.as_slice());
                    ReplAction::Executed(self.vm.step())
                },
                None => ReplAction::Undecodable(self.vm.step()),
            }
        }
    }

    /// Reads one line from `system_ops`, trims it and takes it. Nothing is
    /// known of the line that comes, so the outcome is that of some line.
    pub fn run_once<S: SystemOperations>(&mut self, system_ops: &mut S) -> (action: ReplAction)
        ensures
            exists|line: Seq<char>|
                (final(self)@, action) == #[trigger] repl_step(old(self)@, trimmed(line)),
    {
        let mut buffer = String::new();
        system_ops.request_input();
        system_ops.read_line(&mut buffer);
        let line = trim(buffer.as_str());
        let action = self.execute(line);
        assert((self@, action) == repl_step(old(self)@, trimmed(buffer@)));
        action
    }

    /// The value of register `index` of the machine.
    pub fn get_register(&self, index: usize) -> (value: i32)
        requires
            index < 32,
        ensures
            value == self@.vm.registers[index as int],
    {
        match self.vm.register(index) {
            Some(value) => value,
            None => 0,
        }
    }

    /// The lines so far.
    pub fn history(&self) -> (lines: &Vec<String>)
        ensures
            lines@.len() == self@.history.len(),
            forall|k: int| 0 <= k < lines@.len() ==> (#[trigger] lines@[k])@ == self@.history[k],
    {
        &self.command_buffer
    }

    /// The machine of the session.
    pub fn vm(&self) -> (vm: &VM)
        ensures
            vm@ == self@.vm,
    {
        &self.vm
    }
}

} // verus!
