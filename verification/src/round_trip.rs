//! What the assembler writes, the machine reads.

use vstd::prelude::*;
use crate::assembler::instruction_parsers::{high_byte, low_byte, AssemblerInstruction};
use crate::assembler::Token;
use crate::instruction::{lemma_opcode_round_trip, Opcode};
use crate::vm::{immediate_of, Machine};

verus! {

/// A number is read back from its two bytes as its low sixteen bits, and so
/// as itself where it has no more.
pub proof fn lemma_immediate_round_trip(value: i32)
    ensures
        immediate_of(high_byte(value), low_byte(value)) == (value as u16) as i32,
        0 <= value <= 0xffff ==> immediate_of(high_byte(value), low_byte(value)) == value,
{
    let low = value as u16;
    assert(low / 256 * 256 + low % 256 == low);
    assert(low / 256 <= 255);
    assert(0 <= value <= 0xffff ==> (value as u16) as i32 == value) by (bit_vector);
}

/// Round trip: where a program holds the frame of an instruction at the
/// counter, the machine reads from it the opcode and the operands that the
/// instruction holds: a register as it is, a number by its low sixteen bits.
pub proof fn lemma_round_trip(m: Machine, instruction: AssemblerInstruction)
    requires
        instruction.fits_frame(),
        m.has_operands(3),
        m.program.subrange(m.pc as int, m.pc + 4) == instruction.encoding()->Ok_0,
    ensures
        instruction.opcode == Some(Token::Op { code: m.fetched() }),
        instruction.operand1 matches Some(Token::Register { reg_num }) ==> m.operand(0)
            == reg_num,
        instruction.operand1 matches Some(Token::Register { .. }) ==> (
        instruction.operand2 matches Some(Token::Register { reg_num }) ==> m.operand(1)
            == reg_num),
        instruction.operand1 matches Some(Token::Register { .. }) ==> (
        instruction.operand2 matches Some(Token::IntegerOperand { value }) ==> immediate_of(
            m.operand(1),
            m.operand(2),
        ) == (value as u16) as i32),
        instruction.operand1 matches Some(Token::Register { .. }) ==> (
        instruction.operand2 matches Some(Token::Register { .. }) ==> (
        instruction.operand3 matches Some(Token::Register { reg_num }) ==> m.operand(2)
            == reg_num)),
{
    let frame = instruction.encoding()->Ok_0;
    let held = m.program.subrange(m.pc as int, m.pc + 4);
    assert(held[0] == m.program[m.pc as int]);
    assert(held[1] == m.operand(0));
    assert(held[2] == m.operand(1));
    assert(held[3] == m.operand(2));
    match instruction.opcode {
        Some(Token::Op { code }) => {
            lemma_opcode_round_trip(code);
        },
        _ => {},
    }
    match instruction.operand2 {
        Some(Token::IntegerOperand { value }) => {
            lemma_immediate_round_trip(value);
        },
        _ => {},
    }
}

/// The machine carries out a `LOAD` as it was assembled: the register that
/// the instruction names takes the low sixteen bits of its number, and the
/// counter moves to the next frame.
pub proof fn lemma_load_carried_out(m: Machine, reg_num: u8, value: i32)
    requires
        reg_num < crate::vm::REGISTERS,
        m.has_operands(3),
        m.program.subrange(m.pc as int, m.pc + 4) == AssemblerInstruction::plain(
            Token::Op { code: Opcode::LOAD },
            Some(Token::Register { reg_num }),
            Some(Token::IntegerOperand { value }),
            None,
        ).encoding()->Ok_0,
    ensures
        m.step() == (
            Machine {
                registers: m.registers.update(reg_num as int, (value as u16) as i32),
                pc: (m.pc + 4) as usize,
                ..m
            },
            false,
        ),
{
    let instruction = AssemblerInstruction::plain(
        Token::Op { code: Opcode::LOAD },
        Some(Token::Register { reg_num }),
        Some(Token::IntegerOperand { value }),
        None,
    );
    assert(instruction.encoding()->Ok_0 =~= seq![0u8, reg_num, high_byte(value), low_byte(value)]);
    lemma_round_trip(m, instruction);
}

} // verus!
