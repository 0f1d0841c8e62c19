//! One instruction of the source text: its shapes and its four bytes.

use vstd::prelude::*;
use crate::assembler::opcode_parsers::{opcode, opcode_load, parse_opcode, parse_opcode_load};
use crate::assembler::operand_parsers::{integer_operand, parse_integer_operand};
use crate::assembler::register_parsers::{parse_register, register};
use crate::assembler::text::{skip_blanks, trimmed};
use crate::assembler::{ParseError, SymbolTable, Token};

verus! {

/// One parsed instruction. The operands stand in three fixed places; a place
/// that the instruction does not use is `None`.
#[derive(Debug, PartialEq)]
pub struct AssemblerInstruction {
    pub opcode: Option<Token>,
    pub label: Option<Token>,
    pub directive: Option<Token>,
    pub operand1: Option<Token>,
    pub operand2: Option<Token>,
    pub operand3: Option<Token>,
}

/// Why an instruction has no bytecode.
#[derive(Debug, PartialEq, Eq, Copy, Clone, Structural)]
pub enum EncodeError {
    /// The opcode place holds no opcode.
    NonOpcode,
    /// An operand place holds a token that is neither a register nor a
    /// number. Labels are not resolved: a label in an operand place has no
    /// bytes.
    InvalidOperand,
}

/// The high byte of the low sixteen bits of a number.
pub open spec fn high_byte(value: i32) -> u8 {
    ((value as u16) / 256) as u8
}

/// The low byte of a number.
pub open spec fn low_byte(value: i32) -> u8 {
    ((value as u16) % 256) as u8
}

/// The bytes of one operand place: none for an empty place, one for a
/// register, two for a number, the high byte first.
pub open spec fn operand_bytes(place: Option<Token>) -> Result<Seq<u8>, EncodeError> {
    match place {
        None => Ok(Seq::empty()),
        Some(Token::Register { reg_num }) => Ok(seq![reg_num]),
        Some(Token::IntegerOperand { value }) => Ok(seq![high_byte(value), low_byte(value)]),
        Some(_) => Err(EncodeError::InvalidOperand),
    }
}

/// Bytes filled up with zeros to a frame of four; more than four stay as
/// they are.
pub open spec fn padded(bytes: Seq<u8>) -> Seq<u8> {
    if bytes.len() < 4 {
        bytes + Seq::new((4 - bytes.len()) as nat, |i: int| 0u8)
    } else {
        bytes
    }
}

impl AssemblerInstruction {
    /// An instruction without label and directive.
    pub open spec fn plain(
        opcode: Token,
        operand1: Option<Token>,
        operand2: Option<Token>,
        operand3: Option<Token>,
    ) -> AssemblerInstruction {
        AssemblerInstruction {
            opcode: Some(opcode),
            label: None,
            directive: None,
            operand1,
            operand2,
            operand3,
        }
    }

    /// The bytecode of the instruction: the opcode's number, the bytes of
    /// the operands in their order, and zeros up to four bytes.
    pub open spec fn encoding(self) -> Result<Seq<u8>, EncodeError> {
        match self.opcode {
            Some(Token::Op { code }) => match (
                operand_bytes(self.operand1),
                operand_bytes(self.operand2),
                operand_bytes(self.operand3),
            ) {
                (Ok(first), Ok(second), Ok(third)) => Ok(
                    padded(seq![code.number()] + first + second + third),
                ),
                _ => Err(EncodeError::InvalidOperand),
            },
            _ => Err(EncodeError::NonOpcode),
        }
    }

    /// The instruction has bytecode, and that is one frame of four bytes.
    pub open spec fn fits_frame(self) -> bool {
        match self.encoding() {
            Ok(bytes) => bytes.len() == 4,
            Err(_) => false,
        }
    }

    /// The name of the label that the instruction declares.
    pub open spec fn declared_label(self) -> Option<String> {
        match self.label {
            Some(Token::LabelDeclaration { name }) => Some(name),
            _ => None,
        }
    }

    /// Encodes the instruction. The symbol table is not consulted.
    pub fn to_bytes(&self, symbols: &SymbolTable) -> (r: Result<Vec<u8>, EncodeError>)
        ensures
            match r {
                Ok(bytes) => self.encoding() == Ok::<_, EncodeError>(bytes@),
                Err(e) => self.encoding() == Err::<Seq<u8>, _>(e),
            },
    {
        let mut res: Vec<u8> = Vec::new();
        match &self.opcode {
            Some(Token::Op { code }) => {
                res.push(u8::from(*code));
            },
            _ => {
                return Err(EncodeError::NonOpcode);
            },
        }
        let ghost head = res@;
        if AssemblerInstruction::extract_place(&self.operand1, &mut res).is_err() {
            return Err(EncodeError::InvalidOperand);
        }
        let ghost first = res@;
        if AssemblerInstruction::extract_place(&self.operand2, &mut res).is_err() {
            return Err(EncodeError::InvalidOperand);
        }
        let ghost second = res@;
        if AssemblerInstruction::extract_place(&self.operand3, &mut res).is_err() {
            return Err(EncodeError::InvalidOperand);
        }
        proof {
            let a = operand_bytes(self.operand1)->Ok_0;
            let b = operand_bytes(self.operand2)->Ok_0;
            let c = operand_bytes(self.operand3)->Ok_0;
            assert(first =~= head + a);
            assert(second =~= head + a + b);
            assert(res@ =~= head + a + b + c);
        }
        let ghost unpadded = res@;
        while res.len() < 4
            invariant
                unpadded.len() <= res@.len(),
                res@.len() <= 4 || res@ == unpadded,
                res@ == unpadded + Seq::new((res@.len() - unpadded.len()) as nat, |i: int| 0u8),
            decreases 4 - res@.len(),
        {
            res.push(0);
        }
        assert(res@ =~= padded(unpadded));
        Ok(res)
    }

    /// Appends the bytes of one operand place.
    fn extract_place(place: &Option<Token>, res: &mut Vec<u8>) -> (r: Result<(), EncodeError>)
        ensures
            match r {
                Ok(_) => operand_bytes(*place) is Ok && final(res)@ == old(res)@ + operand_bytes(
                    *place,
                )->Ok_0,
                Err(e) => operand_bytes(*place) == Err::<Seq<u8>, _>(e),
            },
    {
        match place {
            Some(token) => AssemblerInstruction::extract_operand(token, res),
            None => {
                assert(res@ =~= old(res)@ + Seq::<u8>::empty());
                Ok(())
            },
        }
    }

    /// Appends the bytes of one operand.
    fn extract_operand(t: &Token, res: &mut Vec<u8>) -> (r: Result<(), EncodeError>)
        ensures
            match r {
                Ok(_) => operand_bytes(Some(*t)) is Ok && final(res)@ == old(res)@ + operand_bytes(
                    Some(*t),
                )->Ok_0,
                Err(e) => operand_bytes(Some(*t)) == Err::<Seq<u8>, _>(e) && final(res)@ == old(
                    res,
                )@,
            },
    {
        match t {
            Token::Register { reg_num } => {
                res.push(*reg_num);
                assert(res@ =~= old(res)@ + seq![*reg_num]);
                Ok(())
            },
            Token::IntegerOperand { value } => {
                let byte1 = #[verifier::truncate]
                (*value as u16);
                let byte2 = byte1 >> 8;
                assert(byte1 >> 8 == byte1 / 256) by (bit_vector);
                assert(byte1 as u8 == byte1 % 256) by (bit_vector);
                res.push(byte2 as u8);
                res.push(
                    #[verifier::truncate]
                    (byte1 as u8),
                );
                assert(res@ =~= old(res)@ + seq![high_byte(*value), low_byte(*value)]);
                Ok(())
            },
            _ => Err(EncodeError::InvalidOperand),
        }
    }

    /// Whether the label place is filled.
    pub fn is_label(&self) -> (r: bool)
        ensures
            r == self.label is Some,
    {
        self.label.is_some()
    }

    /// The name of the label that the instruction declares, if it declares
    /// one.
    pub fn label_name(&self) -> (r: Option<String>)
        ensures
            r == self.declared_label(),
    {
        match &self.label {
            Some(l) => match l {
                Token::LabelDeclaration { name } => Some(name.clone()),
                _ => None,
            },
            None => None,
        }
    }
}

/// What parsing an instruction gives: the text that is left, and the
/// instruction.
pub type ParsedInstruction = Result<(Seq<char>, AssemblerInstruction), ParseError>;

/// `LOAD`, a register and a number, as in `load $0 #100`.
pub open spec fn parse_instruction_two_int(text: Seq<char>) -> ParsedInstruction {
    match parse_opcode_load(text) {
        Ok((at_first, code)) => match parse_register(at_first) {
            Ok((at_second, first)) => match parse_integer_operand(at_second) {
                Ok((rest, second)) => Ok(
                    (rest, AssemblerInstruction::plain(code, Some(first), Some(second), None)),
                ),
                Err(e) => Err(e),
            },
            Err(e) => Err(e),
        },
        Err(e) => Err(e),
    }
}

/// An opcode and two registers, as in `eq $0 $1`.
pub open spec fn parse_instruction_two_reg(text: Seq<char>) -> ParsedInstruction {
    match parse_opcode(text) {
        Ok((at_first, code)) => match parse_register(at_first) {
            Ok((at_second, first)) => match parse_register(at_second) {
                Ok((rest, second)) => Ok(
                    (rest, AssemblerInstruction::plain(code, Some(first), Some(second), None)),
                ),
                Err(e) => Err(e),
            },
            Err(e) => Err(e),
        },
        Err(e) => Err(e),
    }
}

/// An opcode and three registers, as in `add $0 $1 $2`.
pub open spec fn parse_instruction_three(text: Seq<char>) -> ParsedInstruction {
    match parse_instruction_two_reg(text) {
        Ok((at_third, two)) => match parse_register(at_third) {
            Ok((rest, third)) => Ok(
                (rest, AssemblerInstruction { operand3: Some(third), ..two }),
            ),
            Err(e) => Err(e),
        },
        Err(e) => Err(e),
    }
}

/// An opcode and one register, as in `jmp $0`.
pub open spec fn parse_instruction_one(text: Seq<char>) -> ParsedInstruction {
    match parse_opcode(text) {
        Ok((at_first, code)) => match parse_register(at_first) {
            Ok((rest, first)) => Ok(
                (rest, AssemblerInstruction::plain(code, Some(first), None, None)),
            ),
            Err(e) => Err(e),
        },
        Err(e) => Err(e),
    }
}

/// An opcode alone, as in `hlt`; the blanks behind it are taken too.
pub open spec fn parse_instruction_zero(text: Seq<char>) -> ParsedInstruction {
    match parse_opcode(text) {
        Ok((behind, code)) => Ok(
            (trimmed(behind), AssemblerInstruction::plain(code, None, None, None)),
        ),
        Err(e) => Err(e),
    }
}

/// An instruction at the head of a text: the first of the five shapes, in
/// this order, that the text begins with. `LOAD` with a number comes first.
/// Of the shapes with registers the one with more registers comes before
/// the one with fewer, so that an instruction takes all the registers that
/// are written behind its opcode: `add $0 $1 $2` is one instruction of
/// three registers with nothing left, not one of two with `$2` left.
pub open spec fn parse_instruction(text: Seq<char>) -> ParsedInstruction {
    if parse_instruction_two_int(text) is Ok {
        parse_instruction_two_int(text)
    } else if parse_instruction_three(text) is Ok {
        parse_instruction_three(text)
    } else if parse_instruction_two_reg(text) is Ok {
        parse_instruction_two_reg(text)
    } else if parse_instruction_one(text) is Ok {
        parse_instruction_one(text)
    } else if parse_instruction_zero(text) is Ok {
        parse_instruction_zero(text)
    } else {
        Err(ParseError::Alt)
    }
}

/// What a parser of instructions returns, with the text that is left as a
/// sequence of characters.
pub open spec fn parsed_instruction(
    r: Result<(&str, AssemblerInstruction), ParseError>,
) -> ParsedInstruction {
    crate::assembler::parsed(r)
}

/// Parses `LOAD`, a register and a number.
pub fn instruction_two_int<'a>(input: &'a str) -> (r: Result<
    (&'a str, AssemblerInstruction),
    ParseError,
>)
    ensures
        parsed_instruction(r) == parse_instruction_two_int(input@),
{
    match opcode_load(input) {
        Ok((at_first, o)) => match register(at_first) {
            Ok((at_second, r)) => match integer_operand(at_second) {
                Ok((rest, i)) => Ok(
                    (
                        rest,
                        AssemblerInstruction {
                            opcode: Some(o),
                            label: None,
                            directive: None,
                            operand1: Some(r),
                            operand2: Some(i),
                            operand3: None,
                        },
                    ),
                ),
                Err(e) => Err(e),
            },
            Err(e) => Err(e),
        },
        Err(e) => Err(e),
    }
}

/// Parses an opcode and two registers.
pub fn instruction_two_reg<'a>(input: &'a str) -> (r: Result<
    (&'a str, AssemblerInstruction),
    ParseError,
>)
    ensures
        parsed_instruction(r) == parse_instruction_two_reg(input@),
{
    match opcode(input) {
        Ok((at_first, o)) => match register(at_first) {
            Ok((at_second, r1)) => match register(at_second) {
                Ok((rest, r2)) => Ok(
                    (
                        rest,
                        AssemblerInstruction {
                            opcode: Some(o),
                            label: None,
                            directive: None,
                            operand1: Some(r1),
                            operand2: Some(r2),
                            operand3: None,
                        },
                    ),
                ),
                Err(e) => Err(e),
            },
            Err(e) => Err(e),
        },
        Err(e) => Err(e),
    }
}

/// Parses an opcode and three registers.
pub fn instruction_three<'a>(input: &'a str) -> (r: Result<
    (&'a str, AssemblerInstruction),
    ParseError,
>)
    ensures
        parsed_instruction(r) == parse_instruction_three(input@),
{
    match opcode(input) {
        Ok((at_first, o)) => match register(at_first) {
            Ok((at_second, r1)) => match register(at_second) {
                Ok((at_third, r2)) => match register(at_third) {
                    Ok((rest, r3)) => Ok(
                        (
                            rest,
                            AssemblerInstruction {
                                opcode: Some(o),
                                label: None,
                                directive: None,
                                operand1: Some(r1),
                                operand2: Some(r2),
                                operand3: Some(r3),
                            },
                        ),
                    ),
                    Err(e) => Err(e),
                },
                Err(e) => Err(e),
            },
            Err(e) => Err(e),
        },
        Err(e) => Err(e),
    }
}

/// Parses an opcode and one register.
pub fn instruction_one<'a>(input: &'a str) -> (r: Result<
    (&'a str, AssemblerInstruction),
    ParseError,
>)
    ensures
        parsed_instruction(r) == parse_instruction_one(input@),
{
    match opcode(input) {
        Ok((at_first, o)) => match register(at_first) {
            Ok((rest, r)) => Ok(
                (
                    rest,
                    AssemblerInstruction {
                        opcode: Some(o),
                        label: None,
                        directive: None,
                        operand1: Some(r),
                        operand2: None,
                        operand3: None,
                    },
                ),
            ),
            Err(e) => Err(e),
        },
        Err(e) => Err(e),
    }
}

/// Parses an opcode alone.
pub fn instruction_zero<'a>(input: &'a str) -> (r: Result<
    (&'a str, AssemblerInstruction),
    ParseError,
>)
    ensures
        parsed_instruction(r) == parse_instruction_zero(input@),
{
    match opcode(input) {
        Ok((behind, o)) => Ok(
            (
                skip_blanks(behind),
                AssemblerInstruction {
                    opcode: Some(o),
                    label: None,
                    directive: None,
                    operand1: None,
                    operand2: None,
                    operand3: None,
                },
            ),
        ),
        Err(e) => Err(e),
    }
}

/// Parses one instruction and returns the text behind it.
pub fn instruction<'a>(input: &'a str) -> (r: Result<(&'a str, AssemblerInstruction), ParseError>)
    ensures
        parsed_instruction(r) == parse_instruction(input@),
{
    match instruction_two_int(input) {
        Ok(found) => {
            return Ok(found);
        },
        Err(_) => {},
    }
    match instruction_three(input) {
        Ok(found) => {
            return Ok(found);
        },
        Err(_) => {},
    }
    match instruction_two_reg(input) {
        Ok(found) => {
            return Ok(found);
        },
        Err(_) => {},
    }
    match instruction_one(input) {
        Ok(found) => {
            return Ok(found);
        },
        Err(_) => {},
    }
    match instruction_zero(input) {
        Ok(found) => Ok(found),
        Err(_) => Err(ParseError::Alt),
    }
}

/// An instruction of any of the five shapes is one frame of bytecode and
/// declares no label.
pub proof fn lemma_shapes_fit_frame(text: Seq<char>)
    ensures
        parse_instruction_two_int(text) matches Ok((_, i)) ==> i.fits_frame() && i.declared_label()
            is None,
        parse_instruction_two_reg(text) matches Ok((_, i)) ==> i.fits_frame() && i.declared_label()
            is None,
        parse_instruction_three(text) matches Ok((_, i)) ==> i.fits_frame() && i.declared_label()
            is None,
        parse_instruction_one(text) matches Ok((_, i)) ==> i.fits_frame() && i.declared_label()
            is None,
        parse_instruction_zero(text) matches Ok((_, i)) ==> i.fits_frame() && i.declared_label()
            is None,
        parse_instruction(text) matches Ok((_, i)) ==> i.fits_frame() && i.declared_label()
            is None,
{
}

/// An instruction takes every register that is written behind its opcode,
/// up to three: where a text begins with an opcode and three registers,
/// parsing gives the instruction of three registers.
pub proof fn lemma_three_registers_taken(text: Seq<char>)
    requires
        parse_instruction_two_int(text) is Err,
        parse_instruction_three(text) is Ok,
    ensures
        parse_instruction(text) == parse_instruction_three(text),
        parse_instruction(text)->Ok_0.1.operand3 is Some,
{
}

} // verus!
