//! What the interactive front end decides.
//!
//! The front end reads a line, hands it to `REPL::feed` and does what the
//! reply asks for: it prints, reads a file, or ends. The machine and the
//! history of lines are kept here.

use vstd::prelude::*;
use crate::assembler::program_parsers::parse_program;
use crate::assembler::{assembles, bytecode, Assembler};
use crate::strings::{characters, spells};
use crate::vm::{Machine, REGISTERS, VM};

verus! {

/// Why a line is not a row of bytes in hexadecimal.
#[derive(Debug, PartialEq, Eq, Copy, Clone, Structural)]
pub enum HexError {
    /// A group is empty: the line is empty, begins or ends with a space, or
    /// has two spaces in a row.
    Empty,
    /// A group holds a character that is no hexadecimal digit, or a sign
    /// alone.
    InvalidDigit,
    /// A group is a number above 255.
    Overflow,
}

/// What the front end is to do after a line.
#[derive(Debug, PartialEq, Eq, Copy, Clone, Structural)]
pub enum Response {
    /// `.quit`: say goodbye and end.
    Quit,
    /// `.history`: show the lines so far.
    History,
    /// `.program`: show the bytes of the program.
    Program,
    /// `.registers`: show the registers.
    Registers,
    /// `.hex`: say that lines are now read as hexadecimal, or no longer.
    Hex { on: bool },
    /// `.load_file`: ask for a path, read the file, and hand its text to
    /// `REPL::load`.
    LoadFile,
    /// The line was added to the program and the machine took one step.
    Stepped,
    /// The line was to be hexadecimal and is not. The machine took one step
    /// all the same.
    InvalidHex,
    /// The line was to be a program and is not. Nothing was done.
    InvalidProgram,
}

/// The state of the front end between lines.
pub struct REPL {
    /// The lines that were fed, in their order.
    pub command_buffer: Vec<String>,
    pub vm: VM,
    /// Whether lines are read as hexadecimal.
    pub hex: bool,
}

/// The value of a hexadecimal digit, in either case.
pub open spec fn hex_digit(c: char) -> Option<nat> {
    if '0' <= c <= '9' {
        Some((c as u32 - '0' as u32) as nat)
    } else if 'a' <= c <= 'f' {
        Some((c as u32 - 'a' as u32 + 10) as nat)
    } else if 'A' <= c <= 'F' {
        Some((c as u32 - 'A' as u32 + 10) as nat)
    } else {
        None
    }
}

/// The number that digits make of `value`, read from the left; the first
/// character that is no digit, or with which the number passes 255, decides
/// the error.
pub open spec fn hex_value(digits: Seq<char>, value: nat) -> Result<u8, HexError>
    decreases digits.len(),
{
    if digits.len() == 0 {
        Ok(value as u8)
    } else {
        match hex_digit(digits[0]) {
            None => Err(HexError::InvalidDigit),
            Some(d) => if value * 16 + d > 255 {
                Err(HexError::Overflow)
            } else {
                hex_value(digits.drop_first(), value * 16 + d)
            },
        }
    }
}

/// The byte that a group stands for: one or more hexadecimal digits, with
/// `+` before them or without.
pub open spec fn hex_byte(group: Seq<char>) -> Result<u8, HexError> {
    if group.len() == 0 {
        Err(HexError::Empty)
    } else if group[0] == '+' {
        if group.len() == 1 {
            Err(HexError::InvalidDigit)
        } else {
            hex_value(group.drop_first(), 0)
        }
    } else {
        hex_value(group, 0)
    }
}

/// The number of characters before the first space, or of all where there
/// is no space.
pub open spec fn group_len(line: Seq<char>) -> nat
    decreases line.len(),
{
    if line.len() == 0 || line[0] == ' ' {
        0
    } else {
        1 + group_len(line.drop_first())
    }
}

/// The bytes that a line of hexadecimal stands for: its groups, which one
/// space each parts, byte by byte. The first group that is no byte decides
/// the error.
pub open spec fn hex_bytes(line: Seq<char>) -> Result<Seq<u8>, HexError>
    decreases line.len(),
{
    let count = group_len(line) as int;
    match hex_byte(line.take(count)) {
        Err(e) => Err(e),
        Ok(byte) => if count >= line.len() {
            Ok(seq![byte])
        } else {
            match hex_bytes(line.skip(count + 1)) {
                Ok(others) => Ok(seq![byte] + others),
                Err(e) => Err(e),
            }
        },
    }
}

/// The bytes that a line adds to the program; `None` for a command and for
/// a line that is refused.
pub open spec fn added(hex: bool, line: Seq<char>) -> Option<Seq<u8>> {
    if is_command(line) {
        None
    } else if hex {
        match hex_bytes(line) {
            Ok(bytes) => Some(bytes),
            Err(_) => None,
        }
    } else if assembles(line) {
        Some(bytecode(parse_program(line)->Ok_0.1)->Ok_0)
    } else {
        None
    }
}

/// The line is one of the commands.
pub open spec fn is_command(line: Seq<char>) -> bool {
    line == ".quit"@ || line == ".history"@ || line == ".program"@ || line == ".registers"@
        || line == ".hex"@ || line == ".load_file"@
}

/// What is replied to a line.
pub open spec fn reply(hex: bool, line: Seq<char>) -> Response {
    if line == ".quit"@ {
        Response::Quit
    } else if line == ".history"@ {
        Response::History
    } else if line == ".program"@ {
        Response::Program
    } else if line == ".registers"@ {
        Response::Registers
    } else if line == ".hex"@ {
        Response::Hex { on: !hex }
    } else if line == ".load_file"@ {
        Response::LoadFile
    } else if added(hex, line) is Some {
        Response::Stepped
    } else if hex {
        Response::InvalidHex
    } else {
        Response::InvalidProgram
    }
}

/// The machine after a line.
pub open spec fn machine_after(hex: bool, m: Machine, line: Seq<char>) -> Machine {
    match added(hex, line) {
        Some(bytes) => (Machine { program: m.program + bytes, ..m }).step().0,
        None => if hex && !is_command(line) {
            m.step().0
        } else {
            m
        },
    }
}

impl REPL {
    /// The lines that were fed, as sequences of characters.
    pub open spec fn history(&self) -> Seq<Seq<char>> {
        self.command_buffer@.map_values(|line: String| line@)
    }

    /// A front end with a fresh machine and no history, reading programs.
    pub fn new() -> (r: REPL)
        ensures
            r.history() == Seq::<Seq<char>>::empty(),
            !r.hex,
            r.vm@.registers == Seq::new(REGISTERS as nat, |i: int| 0i32),
            r.vm@.pc == 0,
            r.vm@.program == Seq::<u8>::empty(),
            r.vm@.remainder == 0,
            !r.vm@.equal_flag,
            r.vm@.well_formed(),
    {
        let r = REPL { vm: VM::new(), command_buffer: Vec::new(), hex: false };
        assert(r.history() =~= Seq::<Seq<char>>::empty());
        r
    }

    /// Takes one line, without the blanks around it. The line joins the
    /// history. A command changes nothing else, but for `.hex`, which turns
    /// the reading of hexadecimal on or off. Any other line is read as a row
    /// of bytes in hexadecimal or as a program, is added to the machine's
    /// program, and the machine takes one step.
    pub fn feed(&mut self, line: &str) -> (r: Response)
        ensures
            r == reply(old(self).hex, line@),
            final(self).history() == old(self).history().push(line@),
            final(self).hex == (if r is Hex {
                !old(self).hex
            } else {
                old(self).hex
            }),
            final(self).vm@ == machine_after(old(self).hex, old(self).vm@, line@),
    {
        self.command_buffer.push(line.to_owned());
        assert(self.history() =~= old(self).history().push(line@));
        let word = characters(line);
        if spells(&word, ".quit") {
            Response::Quit
        } else if spells(&word, ".history") {
            Response::History
        } else if spells(&word, ".program") {
            Response::Program
        } else if spells(&word, ".registers") {
            Response::Registers
        } else if spells(&word, ".hex") {
            self.hex = !self.hex;
            Response::Hex { on: self.hex }
        } else if spells(&word, ".load_file") {
            Response::LoadFile
        } else if self.hex {
            let reply = match self.parse_hex(line) {
                Ok(bytes) => {
                    self.vm.add_bytes(bytes);
                    Response::Stepped
                },
                Err(_) => Response::InvalidHex,
            };
            self.vm.run_once();
            reply
        } else {
            match Assembler::new().assemble(line) {
                Some(bytes) => {
                    self.vm.add_bytes(bytes);
                    self.vm.run_once();
                    Response::Stepped
                },
                None => Response::InvalidProgram,
            }
        }
    }

    /// Takes the text of a file: where it is a program, its bytecode is
    /// added to the machine's program. The machine takes no step. Says
    /// whether the text was a program.
    pub fn load(&mut self, contents: &str) -> (accepted: bool)
        ensures
            accepted == assembles(contents@),
            final(self).history() == old(self).history(),
            final(self).hex == old(self).hex,
            final(self).vm@ == (if accepted {
                Machine {
                    program: old(self).vm@.program + bytecode(
                        parse_program(contents@)->Ok_0.1,
                    )->Ok_0,
                    ..old(self).vm@
                }
            } else {
                old(self).vm@
            }),
    {
        match Assembler::new().assemble(contents) {
            Some(bytes) => {
                self.vm.add_bytes(bytes);
                true
            },
            None => false,
        }
    }

    /// Reads a line of bytes in hexadecimal, such as `00 01 03 E8`.
    pub fn parse_hex(&mut self, hex: &str) -> (r: Result<Vec<u8>, HexError>)
        ensures
            *final(self) == *old(self),
            match r {
                Ok(bytes) => hex_bytes(hex@) == Ok::<_, HexError>(bytes@),
                Err(e) => hex_bytes(hex@) == Err::<Seq<u8>, _>(e),
            },
    {
        let line = characters(hex);
        let mut res: Vec<u8> = Vec::new();
        let mut start: usize = 0;
        assert(line@.skip(0) =~= line@);
        assert(res@ + hex_bytes(line@)->Ok_0 =~= hex_bytes(line@)->Ok_0);
        loop
            invariant
                line@ == hex@,
                start <= line@.len(),
                match hex_bytes(line@.skip(start as int)) {
                    Ok(others) => hex_bytes(line@) == Ok::<_, HexError>(res@ + others),
                    Err(e) => hex_bytes(line@) == Err::<Seq<u8>, _>(e),
                },
            decreases line@.len() - start,
        {
            let ghost rest = line@.skip(start as int);
            let end = group_end(&line, start);
            proof {
                assert(rest.take(end - start) =~= line@.subrange(start as int, end as int));
            }
            match group_byte(&line, start, end) {
                Err(e) => {
                    return Err(e);
                },
                Ok(byte) => {
                    let ghost before = res@;
                    res.push(byte);
                    if end >= line.len() {
                        assert(before + seq![byte] =~= res@);
                        return Ok(res);
                    }
                    proof {
                        assert(rest.skip(end - start + 1) =~= line@.skip(end + 1));
                        match hex_bytes(line@.skip(end + 1)) {
                            Ok(others) => {
                                assert(before + (seq![byte] + others) =~= res@ + others);
                            },
                            Err(_) => {},
                        }
                    }
                    start = end + 1;
                },
            }
        }
    }
}

/// The place of the first space at or behind `start`, or the length of the
/// line where there is none.
fn group_end(line: &Vec<char>, start: usize) -> (end: usize)
    requires
        start <= line@.len(),
    ensures
        start <= end <= line@.len(),
        end - start == group_len(line@.skip(start as int)),
{
    let mut end = start;
    assert(line@.skip(start as int).skip(0) =~= line@.skip(start as int));
    while end < line.len() && line[end] != ' '
        invariant
            start <= end <= line@.len(),
            group_len(line@.skip(start as int)) == (end - start) + group_len(
                line@.skip(end as int),
            ),
        decreases line@.len() - end,
    {
        assert(line@.skip(end as int).drop_first() =~= line@.skip(end + 1));
        end += 1;
    }
    end
}

/// The byte that the characters from `start` up to `end` stand for.
fn group_byte(line: &Vec<char>, start: usize, end: usize) -> (r: Result<u8, HexError>)
    requires
        start <= end <= line@.len(),
    ensures
        r == hex_byte(line@.subrange(start as int, end as int)),
{
    let ghost group = line@.subrange(start as int, end as int);
    if start == end {
        return Err(HexError::Empty);
    }
    let mut i = start;
    assert(group[0] == line@[start as int]);
    assert(group.len() == end - start);
    if line[start] == '+' {
        if end - start == 1 {
            return Err(HexError::InvalidDigit);
        }
        i = start + 1;
        assert(group.drop_first() =~= line@.subrange(i as int, end as int));
    }
    let mut value: u8 = 0;
    while i < end
        invariant
            start <= i <= end <= line@.len(),
            group == line@.subrange(start as int, end as int),
            hex_byte(group) == hex_value(line@.subrange(i as int, end as int), value as nat),
        decreases end - i,
    {
        let c = line[i];
        assert(line@.subrange(i as int, end as int)[0] == c);
        assert(line@.subrange(i as int, end as int).drop_first() =~= line@.subrange(
            i + 1,
            end as int,
        ));
        let d: u8 = if '0' <= c && c <= '9' {
            (c as u32 - '0' as u32) as u8
        } else if 'a' <= c && c <= 'f' {
            (c as u32 - 'a' as u32 + 10) as u8
        } else if 'A' <= c && c <= 'F' {
            (c as u32 - 'A' as u32 + 10) as u8
        } else {
            return Err(HexError::InvalidDigit);
        };
        assert(hex_digit(c) == Some(d as nat));
        if value > 15 {
            return Err(HexError::Overflow);
        }
        value = value * 16 + d;
        i += 1;
    }
    Ok(value)
}

} // verus!
