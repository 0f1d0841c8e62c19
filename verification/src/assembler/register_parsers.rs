//! Register operands: `$` and the register's number.

use vstd::prelude::*;
use crate::assembler::text::{decimal, decimal_within, numeral, parse_numeral};
use crate::assembler::{ParseError, Token};

verus! {

/// A register operand at the head of a text: the sign `$` and a decimal
/// number of at most 255. The number is not held against the number of
/// registers that a machine has.
pub open spec fn parse_register(text: Seq<char>) -> Result<(Seq<char>, Token), ParseError> {
    match parse_numeral(text, '$') {
        Ok((rest, numeral)) => if decimal(numeral) <= u8::MAX {
            Ok((rest, Token::Register { reg_num: decimal(numeral) as u8 }))
        } else {
            Err(ParseError::TooLarge)
        },
        Err(e) => Err(e),
    }
}

/// Parses a register operand and returns the text behind it.
pub fn register<'a>(input: &'a str) -> (r: Result<(&'a str, Token), ParseError>)
    ensures
        crate::assembler::parsed(r) == parse_register(input@),
{
    match numeral(input, '$') {
        Ok((rest, numeral)) => match decimal_within(numeral, 255) {
            Some(value) => Ok((rest, Token::Register { reg_num: value as u8 })),
            None => Err(ParseError::TooLarge),
        },
        Err(e) => Err(e),
    }
}

} // verus!
