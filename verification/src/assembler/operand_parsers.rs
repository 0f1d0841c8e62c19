//! Immediate operands: `#` and a decimal number.

use vstd::prelude::*;
use crate::assembler::register_parsers::{parse_register, register};
use crate::assembler::text::{decimal, decimal_within, numeral, parse_numeral};
use crate::assembler::{ParseError, Token};

verus! {

/// An immediate operand at the head of a text: the sign `#` and a decimal
/// number of at most 2147483647. No sign of the number can be written, so
/// the value is never negative.
pub open spec fn parse_integer_operand(text: Seq<char>) -> Result<(Seq<char>, Token), ParseError> {
    match parse_numeral(text, '#') {
        Ok((rest, numeral)) => if decimal(numeral) <= i32::MAX {
            Ok((rest, Token::IntegerOperand { value: decimal(numeral) as i32 }))
        } else {
            Err(ParseError::TooLarge)
        },
        Err(e) => Err(e),
    }
}

/// An operand at the head of a text: an immediate operand or, where there
/// is none, a register operand.
pub open spec fn parse_operand(text: Seq<char>) -> Result<(Seq<char>, Token), ParseError> {
    if parse_integer_operand(text) is Ok {
        parse_integer_operand(text)
    } else if parse_register(text) is Ok {
        parse_register(text)
    } else {
        Err(ParseError::Alt)
    }
}

/// Parses an immediate operand and returns the text behind it.
pub fn integer_operand<'a>(input: &'a str) -> (r: Result<(&'a str, Token), ParseError>)
    ensures
        crate::assembler::parsed(r) == parse_integer_operand(input@),
{
    match numeral(input, '#') {
        Ok((rest, numeral)) => match decimal_within(numeral, 2147483647) {
            Some(value) => Ok((rest, Token::IntegerOperand { value: value as i32 })),
            None => Err(ParseError::TooLarge),
        },
        Err(e) => Err(e),
    }
}

/// Parses an operand and returns the text behind it.
pub fn operand<'a>(input: &'a str) -> (r: Result<(&'a str, Token), ParseError>)
    ensures
        crate::assembler::parsed(r) == parse_operand(input@),
{
    match integer_operand(input) {
        Ok(found) => Ok(found),
        Err(_) => match register(input) {
            Ok(found) => Ok(found),
            Err(_) => Err(ParseError::Alt),
        },
    }
}

} // verus!
