//! A small register machine and the assembler that writes its bytecode.
//!
//! Every instruction is a frame of four bytes: the opcode, then the operand
//! bytes, then zero padding. The assembler writes such frames and the machine
//! reads them; both go by the same table of opcode numbers.

pub mod instruction;
pub mod vm;
pub mod assembler;
pub mod round_trip;
mod strings;
pub mod repl;
