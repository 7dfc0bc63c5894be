//! The instruction set: the opcodes, their numeric codes and their mnemonics.

use vstd::prelude::*;
use crate::text::str_eq;

verus! {

/// One operation of the machine. `IGL` stands for every byte and every word
/// that names no operation.
#[derive(Clone, Copy, Debug, PartialEq, Eq, Structural)]
pub enum Opcode {
    LOAD,
    ADD,
    SUB,
    MUL,
    DIV,
    HLT,
    JMP,
    JMPF,
    JMPB,
    EQ,
    NEQ,
    GT,
    LT,
    GTE,
    LTE,
    JEQ,
    JNEQ,
    ALOC,
    INC,
    DEC,
    DJMPE,
    NOP,
    PRTS,
    IGL,
}

/// The byte that is written for `IGL`. It is the first code after the table,
/// so it decodes to `IGL` again.
pub const ILLEGAL_CODE: u8 = 24;

/// The operation that a byte of an image denotes. Every byte outside the
/// table, the unused code 8 among them, denotes `IGL`.
pub open spec fn opcode_of_code(code: u8) -> Opcode {
    match code {
        0 => Opcode::LOAD,
        1 => Opcode::ADD,
        2 => Opcode::SUB,
        3 => Opcode::MUL,
        4 => Opcode::DIV,
        5 => Opcode::HLT,
        6 => Opcode::JMP,
        7 => Opcode::JMPF,
        9 => Opcode::JMPB,
        10 => Opcode::EQ,
        11 => Opcode::NEQ,
        12 => Opcode::GT,
        13 => Opcode::LT,
        14 => Opcode::GTE,
        15 => Opcode::LTE,
        16 => Opcode::JEQ,
        17 => Opcode::JNEQ,
        18 => Opcode::ALOC,
        19 => Opcode::INC,
        20 => Opcode::DEC,
        21 => Opcode::DJMPE,
        22 => Opcode::NOP,
        23 => Opcode::PRTS,
        _ => Opcode::IGL,
    }
}

/// The byte that stands for an operation in an image.
pub open spec fn code_of_opcode(op: Opcode) -> u8 {
    match op {
        Opcode::LOAD => 0,
        Opcode::ADD => 1,
        Opcode::SUB => 2,
        Opcode::MUL => 3,
        Opcode::DIV => 4,
        Opcode::HLT => 5,
        Opcode::JMP => 6,
        Opcode::JMPF => 7,
        Opcode::JMPB => 9,
        Opcode::EQ => 10,
        Opcode::NEQ => 11,
        Opcode::GT => 12,
        Opcode::LT => 13,
        Opcode::GTE => 14,
        Opcode::LTE => 15,
        Opcode::JEQ => 16,
        Opcode::JNEQ => 17,
        Opcode::ALOC => 18,
        Opcode::INC => 19,
        Opcode::DEC => 20,
        Opcode::DJMPE => 21,
        Opcode::NOP => 22,
        Opcode::PRTS => 23,
        Opcode::IGL => ILLEGAL_CODE,
    }
}

impl Opcode {
    /// The byte that stands for this operation in an image.
    pub fn code(self) -> (code: u8)
        ensures
            code == code_of_opcode(self),
    {
        match self {
            Opcode::LOAD => 0,
            Opcode::ADD => 1,
            Opcode::SUB => 2,
            Opcode::MUL => 3,
            Opcode::DIV => 4,
            Opcode::HLT => 5,
            Opcode::JMP => 6,
            Opcode::JMPF => 7,
            Opcode::JMPB => 9,
            Opcode::EQ => 10,
            Opcode::NEQ => 11,
            Opcode::GT => 12,
            Opcode::LT => 13,
            Opcode::GTE => 14,
            Opcode::LTE => 15,
            Opcode::JEQ => 16,
            Opcode::JNEQ => 17,
            Opcode::ALOC => 18,
            Opcode::INC => 19,
            Opcode::DEC => 20,
            Opcode::DJMPE => 21,
            Opcode::NOP => 22,
            Opcode::PRTS => 23,
            Opcode::IGL => ILLEGAL_CODE,
        }
    }
}

impl From<u8> for Opcode {
    /// Decodes a byte of an image. No byte is refused.
    fn from(code: u8) -> (op: Opcode) {
        match code {
            0 => Opcode::LOAD,
            1 => Opcode::ADD,
            2 => Opcode::SUB,
            3 => Opcode::MUL,
            4 => Opcode::DIV,
            5 => Opcode::HLT,
            6 => Opcode::JMP,
            7 => Opcode::JMPF,
            9 => Opcode::JMPB,
            10 => Opcode::EQ,
            11 => Opcode::NEQ,
            12 => Opcode::GT,
            13 => Opcode::LT,
            14 => Opcode::GTE,
            15 => Opcode::LTE,
            16 => Opcode::JEQ,
            17 => Opcode::JNEQ,
            18 => Opcode::ALOC,
            19 => Opcode::INC,
            20 => Opcode::DEC,
            21 => Opcode::DJMPE,
            22 => Opcode::NOP,
            23 => Opcode::PRTS,
            _ => Opcode::IGL,
        }
    }
}

impl vstd::std_specs::convert::FromSpecImpl<u8> for Opcode {
    open spec fn obeys_from_spec() -> bool {
        true
    }

    open spec fn from_spec(code: u8) -> Opcode {
        opcode_of_code(code)
    }
}

/// The operation that a word of source text names. The mnemonics are in
/// lower case; every other word names `IGL`.
pub open spec fn opcode_of_mnemonic(word: Seq<char>) -> Opcode {
    if word == "load"@ {
        Opcode::LOAD
    } else if word == "add"@ {
        Opcode::ADD
    } else if word == "sub"@ {
        Opcode::SUB
    } else if word == "mul"@ {
        Opcode::MUL
    } else if word == "div"@ {
        Opcode::DIV
    } else if word == "hlt"@ {
        Opcode::HLT
    } else if word == "jmp"@ {
        Opcode::JMP
    } else if word == "jmpf"@ {
        Opcode::JMPF
    } else if word == "jmpb"@ {
        Opcode::JMPB
    } else if word == "eq"@ {
        Opcode::EQ
    } else if word == "neq"@ {
        Opcode::NEQ
    } else if word == "gt"@ {
        Opcode::GT
    } else if word == "lt"@ {
        Opcode::LT
    } else if word == "gte"@ {
        Opcode::GTE
    } else if word == "lte"@ {
        Opcode::LTE
    } else if word == "jeq"@ {
        Opcode::JEQ
    } else if word == "jneq"@ {
        Opcode::JNEQ
    } else if word == "aloc"@ {
        Opcode::ALOC
    } else if word == "inc"@ {
        Opcode::INC
    } else if word == "dec"@ {
        Opcode::DEC
    } else if word == "djmpe"@ {
        Opcode::DJMPE
    } else if word == "nop"@ {
        Opcode::NOP
    } else if word == "prts"@ {
        Opcode::PRTS
    } else {
        Opcode::IGL
    }
}

/// The word that names an operation in source text.
pub open spec fn mnemonic_of_opcode(op: Opcode) -> Seq<char> {
    match op {
        Opcode::LOAD => "load"@,
        Opcode::ADD => "add"@,
        Opcode::SUB => "sub"@,
        Opcode::MUL => "mul"@,
        Opcode::DIV => "div"@,
        Opcode::HLT => "hlt"@,
        Opcode::JMP => "jmp"@,
        Opcode::JMPF => "jmpf"@,
        Opcode::JMPB => "jmpb"@,
        Opcode::EQ => "eq"@,
        Opcode::NEQ => "neq"@,
        Opcode::GT => "gt"@,
        Opcode::LT => "lt"@,
        Opcode::GTE => "gte"@,
        Opcode::LTE => "lte"@,
        Opcode::JEQ => "jeq"@,
        Opcode::JNEQ => "jneq"@,
        Opcode::ALOC => "aloc"@,
        Opcode::INC => "inc"@,
        Opcode::DEC => "dec"@,
        Opcode::DJMPE => "djmpe"@,
        Opcode::NOP => "nop"@,
        Opcode::PRTS => "prts"@,
        Opcode::IGL => "igl"@,
    }
}

impl<'a> From<&'a str> for Opcode {
    /// Reads a mnemonic. No word is refused.
    fn from(word: &'a str) -> (op: Opcode) {
        if str_eq(word, "load") {
            Opcode::LOAD
        } else if str_eq(word, "add") {
            Opcode::ADD
        } else if str_eq(word, "sub") {
            Opcode::SUB
        } else if str_eq(word, "mul") {
            Opcode::MUL
        } else if str_eq(word, "div") {
            Opcode::DIV
        } else if str_eq(word, "hlt") {
            Opcode::HLT
        } else if str_eq(word, "jmp") {
            Opcode::JMP
        } else if str_eq(word, "jmpf") {
            Opcode::JMPF
        } else if str_eq(word, "jmpb") {
            Opcode::JMPB
        } else if str_eq(word, "eq") {
            Opcode::EQ
        } else if str_eq(word, "neq") {
            Opcode::NEQ
        } else if str_eq(word, "gt") {
            Opcode::GT
        } else if str_eq(word, "lt") {
            Opcode::LT
        } else if str_eq(word, "gte") {
            Opcode::GTE
        } else if str_eq(word, "lte") {
            Opcode::LTE
        } else if str_eq(word, "jeq") {
            Opcode::JEQ
        } else if str_eq(word, "jneq") {
            Opcode::JNEQ
        } else if str_eq(word, "aloc") {
            Opcode::ALOC
        } else if str_eq(word, "inc") {
            Opcode::INC
        } else if str_eq(word, "dec") {
            Opcode::DEC
        } else if str_eq(word, "djmpe") {
            Opcode::DJMPE
        } else if str_eq(word, "nop") {
            Opcode::NOP
        } else if str_eq(word, "prts") {
            Opcode::PRTS
        } else {
            Opcode::IGL
        }
    }
}

impl<'a> vstd::std_specs::convert::FromSpecImpl<&'a str> for Opcode {
    open spec fn obeys_from_spec() -> bool {
        true
    }

    open spec fn from_spec(word: &'a str) -> Opcode {
        opcode_of_mnemonic(word@)
    }
}

/// What the string literals of the mnemonics hold.
proof fn lemma_mnemonics()
    ensures
        "load"@ =~= seq!['l', 'o', 'a', 'd'],
        "add"@ =~= seq!['a', 'd', 'd'],
        "sub"@ =~= seq!['s', 'u', 'b'],
        "mul"@ =~= seq!['m', 'u', 'l'],
        "div"@ =~= seq!['d', 'i', 'v'],
        "hlt"@ =~= seq!['h', 'l', 't'],
        "jmp"@ =~= seq!['j', 'm', 'p'],
        "jmpf"@ =~= seq!['j', 'm', 'p', 'f'],
        "jmpb"@ =~= seq!['j', 'm', 'p', 'b'],
        "eq"@ =~= seq!['e', 'q'],
        "neq"@ =~= seq!['n', 'e', 'q'],
        "gt"@ =~= seq!['g', 't'],
        "lt"@ =~= seq!['l', 't'],
        "gte"@ =~= seq!['g', 't', 'e'],
        "lte"@ =~= seq!['l', 't', 'e'],
        "jeq"@ =~= seq!['j', 'e', 'q'],
        "jneq"@ =~= seq!['j', 'n', 'e', 'q'],
        "aloc"@ =~= seq!['a', 'l', 'o', 'c'],
        "inc"@ =~= seq!['i', 'n', 'c'],
        "dec"@ =~= seq!['d', 'e', 'c'],
        "djmpe"@ =~= seq!['d', 'j', 'm', 'p', 'e'],
        "nop"@ =~= seq!['n', 'o', 'p'],
        "prts"@ =~= seq!['p', 'r', 't', 's'],
        "igl"@ =~= seq!['i', 'g', 'l'],
{
    reveal_strlit("load");
    reveal_strlit("add");
    reveal_strlit("sub");
    reveal_strlit("mul");
    reveal_strlit("div");
    reveal_strlit("hlt");
    reveal_strlit("jmp");
    reveal_strlit("jmpf");
    reveal_strlit("jmpb");
    reveal_strlit("eq");
    reveal_strlit("neq");
    reveal_strlit("gt");
    reveal_strlit("lt");
    reveal_strlit("gte");
    reveal_strlit("lte");
    reveal_strlit("jeq");
    reveal_strlit("jneq");
    reveal_strlit("aloc");
    reveal_strlit("inc");
    reveal_strlit("dec");
    reveal_strlit("djmpe");
    reveal_strlit("nop");
    reveal_strlit("prts");
    reveal_strlit("igl");
}

/// Reading undoes writing: the mnemonic of an operation names that
/// operation.
pub proof fn lemma_mnemonic_roundtrip(op: Opcode)
    ensures
        opcode_of_mnemonic(mnemonic_of_opcode(op)) == op,
{
    lemma_mnemonics();
    // Two mnemonics differ in length or in one of their first four letters:
    // naming the letters makes the solver look at them.
    let w = mnemonic_of_opcode(op);
    assert(w.len() >= 2);
    assert(w[0] == w[0] && w[1] == w[1]);
    if w.len() >= 3 {
        assert(w[2] == w[2]);
    }
    if w.len() >= 4 {
        assert(w[3] == w[3]);
    }
}

/// A word names an operation other than `IGL` only if it is that
/// operation's mnemonic.
pub proof fn lemma_mnemonic_of_named(word: Seq<char>)
    requires
        opcode_of_mnemonic(word) != Opcode::IGL,
    ensures
        mnemonic_of_opcode(opcode_of_mnemonic(word)) == word,
{
}

/// Decoding undoes encoding: the byte written for an operation is read back
/// as that operation, `IGL` included.
pub proof fn lemma_code_roundtrip(op: Opcode)
    ensures
        opcode_of_code(code_of_opcode(op)) == op,
{
}

/// Encoding undoes decoding on every byte that names an operation.
pub proof fn lemma_code_of_decoded(code: u8)
    requires
        opcode_of_code(code) != Opcode::IGL,
    ensures
        code_of_opcode(opcode_of_code(code)) == code,
{
}

} // verus!
