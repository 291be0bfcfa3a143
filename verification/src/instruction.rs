//! Opcodes of the machine, their byte encoding and their mnemonics.

use vstd::prelude::*;
use vstd::std_specs::convert::FromSpecImpl;
use vstd::string::StrSliceExecFns;

verus! {

/// The operations of the machine. The order of the variants is the byte
/// encoding: `LOAD` is 0, `ALOC` is 19.
#[derive(Debug, PartialEq, Eq, Structural, Copy, Clone)]
pub enum Opcode {
    LOAD,
    ADD,
    SUB,
    MUL,
    DIV,
    HLT,
    JMP,
    JMPF,
    JMPB,
    IGL,
    EQ,
    NEQ,
    GT,
    LT,
    GTQ,
    LTQ,
    JEQ,
    INC,
    DEC,
    ALOC,
}

impl Opcode {
    /// The byte that stands for this opcode in a code segment.
    pub open spec fn spec_byte(self) -> u8 {
        match self {
            Opcode::LOAD => 0,
            Opcode::ADD => 1,
            Opcode::SUB => 2,
            Opcode::MUL => 3,
            Opcode::DIV => 4,
            Opcode::HLT => 5,
            Opcode::JMP => 6,
            Opcode::JMPF => 7,
            Opcode::JMPB => 8,
            Opcode::IGL => 9,
            Opcode::EQ => 10,
            Opcode::NEQ => 11,
            Opcode::GT => 12,
            Opcode::LT => 13,
            Opcode::GTQ => 14,
            Opcode::LTQ => 15,
            Opcode::JEQ => 16,
            Opcode::INC => 17,
            Opcode::DEC => 18,
            Opcode::ALOC => 19,
        }
    }

    /// The opcode that a byte decodes to; every unmapped byte is `IGL`.
    pub open spec fn spec_from_byte(v: u8) -> Opcode {
        match v {
            0 => Opcode::LOAD,
            1 => Opcode::ADD,
            2 => Opcode::SUB,
            3 => Opcode::MUL,
            4 => Opcode::DIV,
            5 => Opcode::HLT,
            6 => Opcode::JMP,
            7 => Opcode::JMPF,
            8 => Opcode::JMPB,
            9 => Opcode::IGL,
            10 => Opcode::EQ,
            11 => Opcode::NEQ,
            12 => Opcode::GT,
            13 => Opcode::LT,
            14 => Opcode::GTQ,
            15 => Opcode::LTQ,
            16 => Opcode::JEQ,
            17 => Opcode::INC,
            18 => Opcode::DEC,
            19 => Opcode::ALOC,
            _ => Opcode::IGL,
        }
    }

    /// The word that names this opcode in assembly text.
    pub open spec fn spec_mnemonic(self) -> Seq<char> {
        match self {
            Opcode::LOAD => "load"@,
            Opcode::ADD => "add"@,
            Opcode::SUB => "sub"@,
            Opcode::MUL => "mul"@,
            Opcode::DIV => "div"@,
            Opcode::HLT => "hlt"@,
            Opcode::JMP => "jmp"@,
            Opcode::JMPF => "jmpf"@,
            Opcode::JMPB => "jmpb"@,
            Opcode::IGL => "igl"@,
            Opcode::EQ => "eq"@,
            Opcode::NEQ => "neq"@,
            Opcode::GT => "gt"@,
            Opcode::LT => "lt"@,
            Opcode::GTQ => "gte"@,
            Opcode::LTQ => "lte"@,
            Opcode::JEQ => "jmpe"@,
            Opcode::INC => "inc"@,
            Opcode::DEC => "dec"@,
            Opcode::ALOC => "aloc"@,
        }
    }

    /// The opcode that a word names; a word that names none is `IGL`.
    pub open spec fn spec_from_mnemonic(name: Seq<char>) -> Opcode {
        if name == "load"@ {
            Opcode::LOAD
        } else if name == "add"@ {
            Opcode::ADD
        } else if name == "sub"@ {
            Opcode::SUB
        } else if name == "mul"@ {
            Opcode::MUL
        } else if name == "div"@ {
            Opcode::DIV
        } else if name == "hlt"@ {
            Opcode::HLT
        } else if name == "jmp"@ {
            Opcode::JMP
        } else if name == "jmpf"@ {
            Opcode::JMPF
        } else if name == "jmpb"@ {
            Opcode::JMPB
        } else if name == "eq"@ {
            Opcode::EQ
        } else if name == "neq"@ {
            Opcode::NEQ
        } else if name == "gte"@ {
            Opcode::GTQ
        } else if name == "gt"@ {
            Opcode::GT
        } else if name == "lte"@ {
            Opcode::LTQ
        } else if name == "lt"@ {
            Opcode::LT
        } else if name == "jmpe"@ {
            Opcode::JEQ
        } else if name == "aloc"@ {
            Opcode::ALOC
        } else if name == "inc"@ {
            Opcode::INC
        } else if name == "dec"@ {
            Opcode::DEC
        } else {
            Opcode::IGL
        }
    }

    /// Encodes the opcode as its byte.
    pub fn to_byte(self) -> (b: u8)
        ensures
            b == self.spec_byte(),
    {
        match self {
            Opcode::LOAD => 0,
            Opcode::ADD => 1,
            Opcode::SUB => 2,
            Opcode::MUL => 3,
            Opcode::DIV => 4,
            Opcode::HLT => 5,
            Opcode::JMP => 6,
            Opcode::JMPF => 7,
            Opcode::JMPB => 8,
            Opcode::IGL => 9,
            Opcode::EQ => 10,
            Opcode::NEQ => 11,
            Opcode::GT => 12,
            Opcode::LT => 13,
            Opcode::GTQ => 14,
            Opcode::LTQ => 15,
            Opcode::JEQ => 16,
            Opcode::INC => 17,
            Opcode::DEC => 18,
            Opcode::ALOC => 19,
        }
    }

    /// The mnemonic of the opcode.
    pub fn mnemonic(self) -> (s: &'static str)
        ensures
            s@ == self.spec_mnemonic(),
    {
        match self {
            Opcode::LOAD => "load",
            Opcode::ADD => "add",
            Opcode::SUB => "sub",
            Opcode::MUL => "mul",
            Opcode::DIV => "div",
            Opcode::HLT => "hlt",
            Opcode::JMP => "jmp",
            Opcode::JMPF => "jmpf",
            Opcode::JMPB => "jmpb",
            Opcode::IGL => "igl",
            Opcode::EQ => "eq",
            Opcode::NEQ => "neq",
            Opcode::GT => "gt",
            Opcode::LT => "lt",
            Opcode::GTQ => "gte",
            Opcode::LTQ => "lte",
            Opcode::JEQ => "jmpe",
            Opcode::INC => "inc",
            Opcode::DEC => "dec",
            Opcode::ALOC => "aloc",
        }
    }

    /// Looks up the opcode that the characters `text[from..to]` name.
    pub(crate) fn from_mnemonic_chars(text: &[char], from: usize, to: usize) -> (op: Opcode)
        requires
            from <= to <= text@.len(),
        ensures
            op == Opcode::spec_from_mnemonic(text@.subrange(from as int, to as int)),
    {
        if chars_match(text, from, to, "load") {
            Opcode::LOAD
        } else if chars_match(text, from, to, "add") {
            Opcode::ADD
        } else if chars_match(text, from, to, "sub") {
            Opcode::SUB
        } else if chars_match(text, from, to, "mul") {
            Opcode::MUL
        } else if chars_match(text, from, to, "div") {
            Opcode::DIV
        } else if chars_match(text, from, to, "hlt") {
            Opcode::HLT
        } else if chars_match(text, from, to, "jmp") {
            Opcode::JMP
        } else if chars_match(text, from, to, "jmpf") {
            Opcode::JMPF
        } else if chars_match(text, from, to, "jmpb") {
            Opcode::JMPB
        } else if chars_match(text, from, to, "eq") {
            Opcode::EQ
        } else if chars_match(text, from, to, "neq") {
            Opcode::NEQ
        } else if chars_match(text, from, to, "gte") {
            Opcode::GTQ
        } else if chars_match(text, from, to, "gt") {
            Opcode::GT
        } else if chars_match(text, from, to, "lte") {
            Opcode::LTQ
        } else if chars_match(text, from, to, "lt") {
            Opcode::LT
        } else if chars_match(text, from, to, "jmpe") {
            Opcode::JEQ
        } else if chars_match(text, from, to, "aloc") {
            Opcode::ALOC
        } else if chars_match(text, from, to, "inc") {
            Opcode::INC
        } else if chars_match(text, from, to, "dec") {
            Opcode::DEC
        } else {
            Opcode::IGL
        }
    }

    /// Every opcode is found again from its byte.
    pub proof fn lemma_byte_round_trip(op: Opcode)
        ensures
            Opcode::spec_from_byte(op.spec_byte()) == op,
            op.spec_byte() < 20,
    {
    }

    /// A byte below 20 is the byte of the opcode it decodes to; every other
    /// byte decodes to `IGL`.
    pub proof fn lemma_decode_byte(v: u8)
        ensures
            v < 20 ==> Opcode::spec_from_byte(v).spec_byte() == v,
            v >= 20 ==> Opcode::spec_from_byte(v) == Opcode::IGL,
    {
    }

    /// Every opcode is found again from its mnemonic.
    pub proof fn lemma_mnemonic_round_trip(op: Opcode)
        ensures
            Opcode::spec_from_mnemonic(op.spec_mnemonic()) == op,
    {
        reveal_all_mnemonics();
        // Two mnemonics differ in their length or in one of their first
        // four characters.
        let m = op.spec_mnemonic();
        assert(m.len() >= 2);
        assert(m[0] == m[0] && m[1] == m[1]);
        if m.len() >= 3 {
            assert(m[2] == m[2]);
        }
        if m.len() >= 4 {
            assert(m[3] == m[3]);
        }
    }

    /// A word that names an opcode other than `IGL` is that opcode's
    /// mnemonic.
    pub proof fn lemma_mnemonic_of_named(name: Seq<char>)
        requires
            Opcode::spec_from_mnemonic(name) != Opcode::IGL,
        ensures
            Opcode::spec_from_mnemonic(name).spec_mnemonic() == name,
    {
    }
}

/// The contents of every mnemonic literal.
proof fn reveal_all_mnemonics()
    ensures
        "load"@ =~= seq!['l', 'o', 'a', 'd'],
        "add"@ =~= seq!['a', 'd', 'd'],
        "sub"@ =~= seq!['s', 'u', 'b'],
        "mul"@ =~= seq!['m', 'u', 'l'],
        "div"@ =~= seq!['d', 'i', 'v'],
        "hlt"@ =~= seq!['h', 'l', 't'],
        "jmp"@ =~= seq!['j', 'm', 'p'],
        "jmpf"@ =~= seq!['j', 'm', 'p', 'f'],
        "jmpb"@ =~= seq!['j', 'm', 'p', 'b'],
        "igl"@ =~= seq!['i', 'g', 'l'],
        "eq"@ =~= seq!['e', 'q'],
        "neq"@ =~= seq!['n', 'e', 'q'],
        "gt"@ =~= seq!['g', 't'],
        "lt"@ =~= seq!['l', 't'],
        "gte"@ =~= seq!['g', 't', 'e'],
        "lte"@ =~= seq!['l', 't', 'e'],
        "jmpe"@ =~= seq!['j', 'm', 'p', 'e'],
        "inc"@ =~= seq!['i', 'n', 'c'],
        "dec"@ =~= seq!['d', 'e', 'c'],
        "aloc"@ =~= seq!['a', 'l', 'o', 'c'],
{
    reveal_strlit("load");
    reveal_strlit("add");
    reveal_strlit("sub");
    reveal_strlit("mul");
    reveal_strlit("div");
    reveal_strlit("hlt");
    reveal_strlit("jmp");
    reveal_strlit("jmpf");
    reveal_strlit("jmpb");
    reveal_strlit("igl");
    reveal_strlit("eq");
    reveal_strlit("neq");
    reveal_strlit("gt");
    reveal_strlit("lt");
    reveal_strlit("gte");
    reveal_strlit("lte");
    reveal_strlit("jmpe");
    reveal_strlit("inc");
    reveal_strlit("dec");
    reveal_strlit("aloc");
}

/// Whether the characters `text[from..to]` spell the word `word`.
pub(crate) fn chars_match(text: &[char], from: usize, to: usize, word: &str) -> (same: bool)
    requires
        from <= to <= text@.len(),
    ensures
        same == (text@.subrange(from as int, to as int) == word@),
{
    let n: usize = word.unicode_len();
    if to - from != n {
        return false;
    }
    let mut i: usize = 0;
    while i < n
        invariant
            from <= to <= text@.len(),
            to - from == n,
            n == word@.len(),
            i <= n,
            forall|k: int| 0 <= k < i ==> text@[from + k] == word@[k],
        decreases n - i,
    {
        if text[from + i] != word.get_char(i) {
            assert(text@.subrange(from as int, to as int)[i as int] != word@[i as int]);
            return false;
        }
        i += 1;
    }
    assert(text@.subrange(from as int, to as int) =~= word@);
    true
}

impl From<u8> for Opcode {
    fn from(v: u8) -> (op: Opcode) {
        match v {
            0 => Opcode::LOAD,
            1 => Opcode::ADD,
            2 => Opcode::SUB,
            3 => Opcode::MUL,
            4 => Opcode::DIV,
            5 => Opcode::HLT,
            6 => Opcode::JMP,
            7 => Opcode::JMPF,
            8 => Opcode::JMPB,
            9 => Opcode::IGL,
            10 => Opcode::EQ,
            11 => Opcode::NEQ,
            12 => Opcode::GT,
            13 => Opcode::LT,
            14 => Opcode::GTQ,
            15 => Opcode::LTQ,
            16 => Opcode::JEQ,
            17 => Opcode::INC,
            18 => Opcode::DEC,
            19 => Opcode::ALOC,
            _ => Opcode::IGL,
        }
    }
}

impl<'a> From<&'a str> for Opcode {
    fn from(v: &'a str) -> (op: Opcode) {
        let text = crate::assembler::scanner::to_chars(v);
        let op = Opcode::from_mnemonic_chars(text.as_slice(), 0, text.len());
        assert(text@.subrange(0, text@.len() as int) =~= v@);
        op
    }
}

impl<'a> FromSpecImpl<&'a str> for Opcode {
    open spec fn obeys_from_spec() -> bool {
        true
    }

    open spec fn from_spec(v: &'a str) -> Opcode {
        Opcode::spec_from_mnemonic(v@)
    }
}

impl FromSpecImpl<u8> for Opcode {
    open spec fn obeys_from_spec() -> bool {
        true
    }

    open spec fn from_spec(v: u8) -> Opcode {
        Opcode::spec_from_byte(v)
    }
}

/// One decoded instruction of the machine.
#[derive(Debug, PartialEq, Eq)]
pub struct Instruction {
    opcode: Opcode,
}

impl Instruction {
    /// The opcode that the instruction holds.
    pub closed spec fn spec_opcode(self) -> Opcode {
        self.opcode
    }

    /// An instruction of the given opcode.
    pub fn new(opcode: Opcode) -> (i: Instruction)
        ensures
            i.spec_opcode() == opcode,
    {
        Instruction { opcode: opcode }
    }

    /// The opcode of the instruction.
    pub fn opcode(&self) -> (op: Opcode)
        ensures
            op == self.spec_opcode(),
    {
        self.opcode
    }
}

} // verus!
