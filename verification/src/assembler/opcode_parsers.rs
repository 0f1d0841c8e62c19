//! Opcode words.

use vstd::prelude::*;
use crate::assembler::text::{leading_letters, word_len};
use crate::assembler::{ParseError, Token};
use crate::instruction::Opcode;
use crate::strings::{ascii_bytes, lemma_same_code, split_ascii};

verus! {

/// The text begins with the word `load`, each letter in either case.
pub open spec fn begins_with_load(text: Seq<char>) -> bool {
    &&& text.len() >= 4
    &&& (text[0] == 'l' || text[0] == 'L')
    &&& (text[1] == 'o' || text[1] == 'O')
    &&& (text[2] == 'a' || text[2] == 'A')
    &&& (text[3] == 'd' || text[3] == 'D')
}

/// The opcode `LOAD` at the head of a text. What follows the four letters
/// is not looked at.
pub open spec fn parse_opcode_load(text: Seq<char>) -> Result<(Seq<char>, Token), ParseError> {
    if begins_with_load(text) {
        Ok((text.skip(4), Token::Op { code: Opcode::LOAD }))
    } else {
        Err(ParseError::Tag)
    }
}

/// An opcode at the head of a text: the letters that it begins with, read
/// as a mnemonic in either case. A word that names no operation is the
/// opcode `IGL`, not a failure.
pub open spec fn parse_opcode(text: Seq<char>) -> Result<(Seq<char>, Token), ParseError> {
    let count = word_len(text) as int;
    if 0 < count <= text.len() {
        Ok((text.skip(count), Token::Op { code: Opcode::of_word(text.take(count)) }))
    } else {
        Err(ParseError::Alpha)
    }
}

/// Parses the opcode `LOAD` and returns the text behind it.
pub fn opcode_load<'a>(input: &'a str) -> (r: Result<(&'a str, Token), ParseError>)
    ensures
        crate::assembler::parsed(r) == parse_opcode_load(input@),
{
    match split_ascii(input, 4) {
        Some((head, rest)) => {
            let word = ascii_bytes(head);
            let l = word[0];
            let o = word[1];
            let a = word[2];
            let d = word[3];
            proof {
                assert(head@[0] == input@[0] && head@[1] == input@[1] && head@[2] == input@[2]
                    && head@[3] == input@[3]);
                lemma_letter(input@[0], 'l', 'L');
                lemma_letter(input@[1], 'o', 'O');
                lemma_letter(input@[2], 'a', 'A');
                lemma_letter(input@[3], 'd', 'D');
            }
            if (l == 0x6c || l == 0x4c) && (o == 0x6f || o == 0x4f) && (a == 0x61 || a == 0x41)
                && (d == 0x64 || d == 0x44) {
                Ok((rest, Token::Op { code: Opcode::LOAD }))
            } else {
                Err(ParseError::Tag)
            }
        },
        None => Err(ParseError::Tag),
    }
}

/// A character of ASCII is a letter, small or capital, just where its byte
/// is that of the letter.
proof fn lemma_letter(c: char, small: char, capital: char)
    requires
        c <= '\u{7f}',
        small <= '\u{7f}',
        capital <= '\u{7f}',
    ensures
        (c == small) == (c as u8 == small as u8),
        (c == capital) == (c as u8 == capital as u8),
{
    if c as u8 == small as u8 {
        lemma_same_code(c, small);
    }
    if c as u8 == capital as u8 {
        lemma_same_code(c, capital);
    }
}

/// Parses an opcode and returns the text behind it.
pub fn opcode<'a>(input: &'a str) -> (r: Result<(&'a str, Token), ParseError>)
    ensures
        crate::assembler::parsed(r) == parse_opcode(input@),
{
    match leading_letters(input) {
        Some((rest, word)) => Ok((rest, Token::Op { code: Opcode::from(word) })),
        None => Err(ParseError::Alpha),
    }
}

} // verus!
