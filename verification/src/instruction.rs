//! Opcodes, their numbers and their mnemonics.

use vstd::prelude::*;
use vstd::utf8::is_ascii_chars;
use crate::strings::{characters, spells};

verus! {

/// The operations of the machine. An opcode's number is its place in this
/// list, starting at zero; `IGL` stands for every byte and every word that
/// names no operation.
#[derive(Debug, PartialEq, Eq, Copy, Clone, Structural)]
pub enum Opcode {
    LOAD,
    ADD,
    SUB,
    MUL,
    DIV,
    HLT,
    JMP,
    JMPF,
    JMPB,
    EQ,
    NEQ,
    GT,
    LT,
    GTQ,
    LTQ,
    JEQ,
    JNEQ,
    ALOC,
    INC,
    DEC,
    IGL,
}

/// An instruction by its opcode alone.
#[derive(Debug, PartialEq, Eq, Structural)]
pub struct Instruction {
    pub opcode: Opcode,
}

impl Instruction {
    pub fn new(opcode: Opcode) -> (r: Instruction)
        ensures
            r.opcode == opcode,
    {
        Instruction { opcode }
    }
}

impl Opcode {
    /// The opcode that a byte of bytecode selects.
    pub open spec fn of_byte(v: u8) -> Opcode {
        if v == 0 {
            Opcode::LOAD
        } else if v == 1 {
            Opcode::ADD
        } else if v == 2 {
            Opcode::SUB
        } else if v == 3 {
            Opcode::MUL
        } else if v == 4 {
            Opcode::DIV
        } else if v == 5 {
            Opcode::HLT
        } else if v == 6 {
            Opcode::JMP
        } else if v == 7 {
            Opcode::JMPF
        } else if v == 8 {
            Opcode::JMPB
        } else if v == 9 {
            Opcode::EQ
        } else if v == 10 {
            Opcode::NEQ
        } else if v == 11 {
            Opcode::GT
        } else if v == 12 {
            Opcode::LT
        } else if v == 13 {
            Opcode::GTQ
        } else if v == 14 {
            Opcode::LTQ
        } else if v == 15 {
            Opcode::JEQ
        } else if v == 16 {
            Opcode::JNEQ
        } else if v == 17 {
            Opcode::ALOC
        } else if v == 18 {
            Opcode::INC
        } else if v == 19 {
            Opcode::DEC
        } else {
            Opcode::IGL
        }
    }

    /// The byte that stands for an opcode in bytecode.
    pub open spec fn number(self) -> u8 {
        match self {
            Opcode::LOAD => 0,
            Opcode::ADD => 1,
            Opcode::SUB => 2,
            Opcode::MUL => 3,
            Opcode::DIV => 4,
            Opcode::HLT => 5,
            Opcode::JMP => 6,
            Opcode::JMPF => 7,
            Opcode::JMPB => 8,
            Opcode::EQ => 9,
            Opcode::NEQ => 10,
            Opcode::GT => 11,
            Opcode::LT => 12,
            Opcode::GTQ => 13,
            Opcode::LTQ => 14,
            Opcode::JEQ => 15,
            Opcode::JNEQ => 16,
            Opcode::ALOC => 17,
            Opcode::INC => 18,
            Opcode::DEC => 19,
            Opcode::IGL => 20,
        }
    }

    /// The opcode that a mnemonic in capital letters names.
    pub open spec fn of_mnemonic(word: Seq<char>) -> Opcode {
        if word == "LOAD"@ {
            Opcode::LOAD
        } else if word == "ADD"@ {
            Opcode::ADD
        } else if word == "SUB"@ {
            Opcode::SUB
        } else if word == "MUL"@ {
            Opcode::MUL
        } else if word == "DIV"@ {
            Opcode::DIV
        } else if word == "HLT"@ {
            Opcode::HLT
        } else if word == "JMP"@ {
            Opcode::JMP
        } else if word == "JMPF"@ {
            Opcode::JMPF
        } else if word == "JMPB"@ {
            Opcode::JMPB
        } else if word == "EQ"@ {
            Opcode::EQ
        } else if word == "NEQ"@ {
            Opcode::NEQ
        } else if word == "GT"@ {
            Opcode::GT
        } else if word == "LT"@ {
            Opcode::LT
        } else if word == "GTQ"@ {
            Opcode::GTQ
        } else if word == "LTQ"@ {
            Opcode::LTQ
        } else if word == "JEQ"@ {
            Opcode::JEQ
        } else if word == "JNEQ"@ {
            Opcode::JNEQ
        } else if word == "ALOC"@ {
            Opcode::ALOC
        } else if word == "INC"@ {
            Opcode::INC
        } else if word == "DEC"@ {
            Opcode::DEC
        } else {
            Opcode::IGL
        }
    }

    /// The opcode that a word names, whatever the case of its letters.
    pub open spec fn of_word(word: Seq<char>) -> Opcode {
        Opcode::of_mnemonic(capitals(word))
    }

    /// Looks a mnemonic up as it is written: only capital letters name an
    /// operation, and every other word is `IGL`.
    pub fn from_mnemonic(word: &str) -> (r: Opcode)
        ensures
            r == Opcode::of_mnemonic(word@),
    {
        let word = characters(word);
        if spells(&word, "LOAD") {
            Opcode::LOAD
        } else if spells(&word, "ADD") {
            Opcode::ADD
        } else if spells(&word, "SUB") {
            Opcode::SUB
        } else if spells(&word, "MUL") {
            Opcode::MUL
        } else if spells(&word, "DIV") {
            Opcode::DIV
        } else if spells(&word, "HLT") {
            Opcode::HLT
        } else if spells(&word, "JMP") {
            Opcode::JMP
        } else if spells(&word, "JMPF") {
            Opcode::JMPF
        } else if spells(&word, "JMPB") {
            Opcode::JMPB
        } else if spells(&word, "EQ") {
            Opcode::EQ
        } else if spells(&word, "NEQ") {
            Opcode::NEQ
        } else if spells(&word, "GT") {
            Opcode::GT
        } else if spells(&word, "LT") {
            Opcode::LT
        } else if spells(&word, "GTQ") {
            Opcode::GTQ
        } else if spells(&word, "LTQ") {
            Opcode::LTQ
        } else if spells(&word, "JEQ") {
            Opcode::JEQ
        } else if spells(&word, "JNEQ") {
            Opcode::JNEQ
        } else if spells(&word, "ALOC") {
            Opcode::ALOC
        } else if spells(&word, "INC") {
            Opcode::INC
        } else if spells(&word, "DEC") {
            Opcode::DEC
        } else {
            Opcode::IGL
        }
    }
}

impl From<u8> for Opcode {
    fn from(v: u8) -> (r: Opcode) {
        match v {
            0 => Opcode::LOAD,
            1 => Opcode::ADD,
            2 => Opcode::SUB,
            3 => Opcode::MUL,
            4 => Opcode::DIV,
            5 => Opcode::HLT,
            6 => Opcode::JMP,
            7 => Opcode::JMPF,
            8 => Opcode::JMPB,
            9 => Opcode::EQ,
            10 => Opcode::NEQ,
            11 => Opcode::GT,
            12 => Opcode::LT,
            13 => Opcode::GTQ,
            14 => Opcode::LTQ,
            15 => Opcode::JEQ,
            16 => Opcode::JNEQ,
            17 => Opcode::ALOC,
            18 => Opcode::INC,
            19 => Opcode::DEC,
            _ => Opcode::IGL,
        }
    }
}

impl vstd::std_specs::convert::FromSpecImpl<u8> for Opcode {
    open spec fn obeys_from_spec() -> bool {
        true
    }

    open spec fn from_spec(v: u8) -> Opcode {
        Opcode::of_byte(v)
    }
}

impl From<Opcode> for u8 {
    fn from(code: Opcode) -> (r: u8) {
        match code {
            Opcode::LOAD => 0,
            Opcode::ADD => 1,
            Opcode::SUB => 2,
            Opcode::MUL => 3,
            Opcode::DIV => 4,
            Opcode::HLT => 5,
            Opcode::JMP => 6,
            Opcode::JMPF => 7,
            Opcode::JMPB => 8,
            Opcode::EQ => 9,
            Opcode::NEQ => 10,
            Opcode::GT => 11,
            Opcode::LT => 12,
            Opcode::GTQ => 13,
            Opcode::LTQ => 14,
            Opcode::JEQ => 15,
            Opcode::JNEQ => 16,
            Opcode::ALOC => 17,
            Opcode::INC => 18,
            Opcode::DEC => 19,
            Opcode::IGL => 20,
        }
    }
}

impl vstd::std_specs::convert::FromSpecImpl<Opcode> for u8 {
    open spec fn obeys_from_spec() -> bool {
        true
    }

    open spec fn from_spec(code: Opcode) -> u8 {
        code.number()
    }
}

impl<'a> From<&'a str> for Opcode {
    fn from(word: &'a str) -> (r: Opcode) {
        let upper = to_uppercase(word);
        Opcode::from_mnemonic(upper.as_str())
    }
}

impl<'a> vstd::std_specs::convert::FromSpecImpl<&'a str> for Opcode {
    open spec fn obeys_from_spec() -> bool {
        true
    }

    open spec fn from_spec(word: &'a str) -> Opcode {
        Opcode::of_word(word@)
    }
}

/// The capital of a small letter of ASCII; any other character as it is.
pub open spec fn capital(c: char) -> char {
    if 'a' <= c <= 'z' {
        ((c as u32 - 32) as u32) as char
    } else {
        c
    }
}

/// A text with each small letter of ASCII replaced by its capital.
pub open spec fn ascii_capitals(text: Seq<char>) -> Seq<char> {
    Seq::new(text.len(), |i: int| capital(text[i]))
}

/// What `str::to_uppercase` makes of a text.
pub uninterp spec fn uppercased(text: Seq<char>) -> Seq<char>;

/// A text in capital letters. In a text of ASCII the letters `a` to `z` are
/// replaced by `A` to `Z` and nothing else changes; of any other text
/// Unicode decides the capital form.
pub open spec fn capitals(text: Seq<char>) -> Seq<char> {
    if is_ascii_chars(text) {
        ascii_capitals(text)
    } else {
        uppercased(text)
    }
}

/// `str::to_uppercase`: the text with every letter replaced by its capital
/// form, as Unicode defines it. Of a text of ASCII that form is the text
/// with `a` to `z` replaced by `A` to `Z`; of any other text nothing is
/// claimed but that the form depends on the text alone.
#[verifier::external_body]
fn to_uppercase(text: &str) -> (r: String)
    ensures
        r@ == uppercased(text@),
        is_ascii_chars(text@) ==> r@ == ascii_capitals(text@),
{
    text.to_uppercase()
}

/// Each opcode is read back from its own number.
pub proof fn lemma_opcode_round_trip(code: Opcode)
    ensures
        Opcode::of_byte(code.number()) == code,
{
}

} // verus!
