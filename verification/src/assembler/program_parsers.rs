//! A program: one instruction after another.

use vstd::prelude::*;
use crate::assembler::instruction_parsers::{
    instruction,
    lemma_shapes_fit_frame,
    parse_instruction,
    AssemblerInstruction,
};
use crate::assembler::opcode_parsers::{parse_opcode, parse_opcode_load};
use crate::assembler::operand_parsers::parse_integer_operand;
use crate::assembler::register_parsers::parse_register;
use crate::assembler::text::{
    is_rest_of,
    lemma_numeral_rest,
    lemma_rest_of_rest,
    lemma_skip_is_rest,
    lemma_trimmed_is_rest,
    word_len,
    trimmed,
};
use crate::assembler::ParseError;

verus! {

/// The instructions of a program in the order of the source text, which is
/// the order of their addresses.
#[derive(Debug, PartialEq)]
pub struct Program {
    pub instructions: Vec<AssemblerInstruction>,
}

/// The instructions that a text begins with, as many as there are one after
/// another, and the text behind them. Every instruction takes at least one
/// character of the text.
pub open spec fn parse_instructions(text: Seq<char>) -> (Seq<char>, Seq<AssemblerInstruction>)
    decreases text.len(),
{
    match parse_instruction(text) {
        Ok((behind, first)) => if behind.len() < text.len() {
            let (rest, others) = parse_instructions(behind);
            (rest, seq![first] + others)
        } else {
            (text, Seq::empty())
        },
        Err(_) => (text, Seq::empty()),
    }
}

/// A program at the head of a text: its instructions, of which there is at
/// least one, and the text behind them.
pub open spec fn parse_program(text: Seq<char>) -> Result<
    (Seq<char>, Seq<AssemblerInstruction>),
    ParseError,
> {
    let (rest, instructions) = parse_instructions(text);
    if instructions.len() > 0 {
        Ok((rest, instructions))
    } else {
        Err(ParseError::Many1)
    }
}

/// Parses the instructions at the head of a text and returns the text
/// behind the last of them. Fails where the text begins with no instruction.
pub fn program<'a>(input: &'a str) -> (r: Result<(&'a str, Program), ParseError>)
    ensures
        match r {
            Ok((rest, program)) => parse_program(input@) == Ok::<_, ParseError>(
                (rest@, program.instructions@),
            ),
            Err(e) => parse_program(input@) == Err::<(Seq<char>, Seq<AssemblerInstruction>), _>(e),
        },
{
    let mut instructions: Vec<AssemblerInstruction> = Vec::new();
    let mut rest = input;
    assert(instructions@ + parse_instructions(rest@).1 =~= parse_instructions(input@).1);
    loop
        invariant
            parse_instructions(input@).0 == parse_instructions(rest@).0,
            parse_instructions(input@).1 == instructions@ + parse_instructions(rest@).1,
        ensures
            parse_instructions(input@) == (rest@, instructions@),
        decreases rest@.len(),
    {
        match instruction(rest) {
            Ok((behind, first)) => {
                proof {
                    lemma_instruction_rest(rest@);
                    assert(instructions@.push(first) + parse_instructions(behind@).1
                        =~= instructions@ + (seq![first] + parse_instructions(behind@).1));
                }
                instructions.push(first);
                rest = behind;
            },
            Err(_) => {
                assert(instructions@ + Seq::<AssemblerInstruction>::empty() =~= instructions@);
                break ;
            },
        }
    }
    if instructions.len() > 0 {
        Ok((rest, Program { instructions }))
    } else {
        Err(ParseError::Many1)
    }
}

/// What is left behind an operand is an end of the text, and shorter than
/// the text.
proof fn lemma_operand_rest(text: Seq<char>)
    ensures
        parse_register(text) matches Ok((rest, _)) ==> is_rest_of(rest, text) && rest.len()
            < text.len(),
        parse_integer_operand(text) matches Ok((rest, _)) ==> is_rest_of(rest, text) && rest.len()
            < text.len(),
{
    lemma_numeral_rest(text, '$');
    lemma_numeral_rest(text, '#');
}

/// Parsers do not reach back: what is left behind an instruction is an end
/// of the text. And every instruction takes something: what is left is
/// shorter than the text.
pub proof fn lemma_instruction_rest(text: Seq<char>)
    ensures
        parse_instruction(text) matches Ok((rest, _)) ==> is_rest_of(rest, text) && rest.len()
            < text.len(),
{
    match parse_opcode_load(text) {
        Ok((at_first, _)) => {
            lemma_skip_is_rest(text, 4);
            lemma_operand_rest(at_first);
            match parse_register(at_first) {
                Ok((at_second, _)) => {
                    lemma_rest_of_rest(at_second, at_first, text);
                    lemma_operand_rest(at_second);
                    match parse_integer_operand(at_second) {
                        Ok((rest, _)) => {
                            lemma_rest_of_rest(rest, at_second, text);
                        },
                        Err(_) => {},
                    }
                },
                Err(_) => {},
            }
        },
        Err(_) => {},
    }
    match parse_opcode(text) {
        Ok((at_first, _)) => {
            lemma_skip_is_rest(text, word_len(text) as int);
            lemma_trimmed_is_rest(at_first);
            lemma_rest_of_rest(trimmed(at_first), at_first, text);
            lemma_operand_rest(at_first);
            match parse_register(at_first) {
                Ok((at_second, _)) => {
                    lemma_rest_of_rest(at_second, at_first, text);
                    lemma_operand_rest(at_second);
                    match parse_register(at_second) {
                        Ok((at_third, _)) => {
                            lemma_rest_of_rest(at_third, at_second, text);
                            lemma_operand_rest(at_third);
                            match parse_register(at_third) {
                                Ok((rest, _)) => {
                                    lemma_rest_of_rest(rest, at_third, text);
                                },
                                Err(_) => {},
                            }
                        },
                        Err(_) => {},
                    }
                },
                Err(_) => {},
            }
        },
        Err(_) => {},
    }
}

/// What is left behind the instructions of a text is an end of the text.
pub proof fn lemma_program_rest(text: Seq<char>)
    ensures
        is_rest_of(parse_instructions(text).0, text),
        parse_program(text) matches Ok((rest, _)) ==> is_rest_of(rest, text) && rest.len()
            < text.len(),
    decreases text.len(),
{
    lemma_skip_is_rest(text, 0);
    assert(text.skip(0) =~= text);
    match parse_instruction(text) {
        Ok((behind, _)) => {
            lemma_instruction_rest(text);
            lemma_program_rest(behind);
            lemma_rest_of_rest(parse_instructions(behind).0, behind, text);
        },
        Err(_) => {},
    }
}

/// Every instruction of a parsed program is one frame of bytecode and
/// declares no label.
pub proof fn lemma_parsed_instructions(text: Seq<char>)
    ensures
        forall|i: int|
            0 <= i < parse_instructions(text).1.len() ==> {
                &&& (#[trigger] parse_instructions(text).1[i]).fits_frame()
                &&& parse_instructions(text).1[i].declared_label() is None
            },
    decreases text.len(),
{
    match parse_instruction(text) {
        Ok((behind, first)) => {
            if behind.len() < text.len() {
                lemma_shapes_fit_frame(text);
                lemma_parsed_instructions(behind);
            }
        },
        Err(_) => {},
    }
}

} // verus!
