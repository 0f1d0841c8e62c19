//! The machine: thirty-two registers, a program counter, a remainder register
//! and a comparison flag over a flat buffer of bytecode.
//!
//! One step reads the opcode at the program counter and carries the
//! instruction out. The machine halts on `HLT`, on a byte that selects no
//! operation it carries out, when the counter stands at or beyond the end of
//! the program, and on an instruction that cannot be carried out: one that
//! the end of the program cuts short, that names a register which does not
//! exist, whose arithmetic leaves the range of a register, that divides by
//! zero, or that jumps off the range of the counter. When it halts after
//! reading an opcode, the counter stands just behind that opcode and nothing
//! else has changed.

use vstd::prelude::*;
use crate::instruction::Opcode;

verus! {

/// The number of registers.
pub const REGISTERS: usize = 32;

/// The machine. Its program can be added to between steps; everything
/// else changes only as steps change it.
pub struct VM {
    pub registers: [i32; 32],
    /// The offset in `program` of the next byte to read.
    pub pc: usize,
    /// The bytecode, one frame of four bytes for each instruction.
    pub program: Vec<u8>,
    /// What the last division left over.
    pub remainder: u32,
    /// What the last comparison found.
    pub equal_flag: bool,
}

/// The state of a machine as plain values.
pub struct Machine {
    pub registers: Seq<i32>,
    pub pc: usize,
    pub program: Seq<u8>,
    pub remainder: u32,
    pub equal_flag: bool,
}

impl View for VM {
    type V = Machine;

    open spec fn view(&self) -> Machine {
        Machine {
            registers: self.registers@,
            pc: self.pc,
            program: self.program@,
            remainder: self.remainder,
            equal_flag: self.equal_flag,
        }
    }
}

/// The quotient of a division that rounds toward zero.
pub open spec fn quotient(a: int, b: int) -> int
    recommends
        b != 0,
{
    let q = (if a < 0 { -a } else { a }) / (if b < 0 { -b } else { b });
    if (a < 0) == (b < 0) {
        q
    } else {
        -q
    }
}

/// What a division that rounds toward zero leaves over; it has the sign of
/// the dividend.
pub open spec fn leftover(a: int, b: int) -> int
    recommends
        b != 0,
{
    let r = (if a < 0 { -a } else { a }) % (if b < 0 { -b } else { b });
    if a < 0 {
        -r
    } else {
        r
    }
}

/// The value of an arithmetic instruction on two register values, as an
/// integer without bounds; `None` where there is none.
pub open spec fn computed(code: Opcode, a: i32, b: i32) -> Option<int> {
    match code {
        Opcode::ADD => Some(a + b),
        Opcode::SUB => Some(a - b),
        Opcode::MUL => Some(a * b),
        Opcode::DIV => if b != 0 {
            Some(quotient(a as int, b as int))
        } else {
            None
        },
        _ => None,
    }
}

/// What a comparison instruction finds of two register values.
pub open spec fn compared(code: Opcode, a: i32, b: i32) -> bool {
    match code {
        Opcode::EQ => a == b,
        Opcode::NEQ => a != b,
        Opcode::GT => a > b,
        Opcode::LT => a < b,
        Opcode::GTQ => a >= b,
        Opcode::LTQ => a <= b,
        _ => false,
    }
}

/// The sixteen-bit value that two bytes hold, the high byte first.
pub open spec fn immediate_of(high: u8, low: u8) -> i32 {
    (high as int * 256 + low as int) as i32
}

impl Machine {
    /// The machine has all its registers, and a program that a counter can
    /// reach the end of.
    pub open spec fn well_formed(self) -> bool {
        self.registers.len() == REGISTERS && self.program.len() <= usize::MAX
    }

    /// The opcode at the program counter.
    pub open spec fn fetched(self) -> Opcode
        recommends
            self.pc < self.program.len(),
    {
        Opcode::of_byte(self.program[self.pc as int])
    }

    /// The program holds `count` bytes behind the opcode at the counter.
    pub open spec fn has_operands(self, count: int) -> bool {
        self.pc + 1 + count <= self.program.len()
    }

    /// The operand byte at place `k` behind the opcode, counted from zero.
    pub open spec fn operand(self, k: int) -> u8 {
        self.program[self.pc + 1 + k]
    }

    /// The operand byte at place `k` is the index of a register.
    pub open spec fn names_register(self, k: int) -> bool {
        (self.operand(k) as int) < REGISTERS
    }

    /// The value of the register that the operand byte at place `k` names.
    pub open spec fn register(self, k: int) -> i32 {
        self.registers[self.operand(k) as int]
    }

    pub open spec fn with_pc(self, pc: usize) -> Machine {
        Machine { pc, ..self }
    }

    pub open spec fn with_flag(self, equal_flag: bool) -> Machine {
        Machine { equal_flag, ..self }
    }

    pub open spec fn with_remainder(self, remainder: u32) -> Machine {
        Machine { remainder, ..self }
    }

    /// The register that the operand byte at place `k` names takes `value`.
    pub open spec fn with_register(self, k: int, value: i32) -> Machine {
        Machine { registers: self.registers.update(self.operand(k) as int, value), ..self }
    }

    /// The counter moves behind the frame that begins where it stands.
    pub open spec fn to_next_frame(self) -> Machine {
        self.with_pc((self.pc + 4) as usize)
    }

    /// The machine after `LOAD`: the register takes the sixteen-bit value.
    pub open spec fn loaded(self) -> Option<Machine> {
        if self.has_operands(3) && self.names_register(0) {
            Some(
                self.with_register(
                    0,
                    immediate_of(self.operand(1), self.operand(2)),
                ).to_next_frame(),
            )
        } else {
            None
        }
    }

    /// The machine after `ADD`, `SUB`, `MUL` or `DIV`: the third register
    /// takes the value computed from the first two, and a division also sets
    /// the remainder register.
    pub open spec fn calculated(self, code: Opcode) -> Option<Machine> {
        if self.has_operands(3) && self.names_register(0) && self.names_register(1)
            && self.names_register(2) {
            let a = self.register(0);
            let b = self.register(1);
            match computed(code, a, b) {
                Some(value) => if i32::MIN <= value <= i32::MAX {
                    let stored = self.with_register(2, value as i32);
                    if code == Opcode::DIV {
                        Some(
                            stored.with_remainder(
                                leftover(a as int, b as int) as u32,
                            ).to_next_frame(),
                        )
                    } else {
                        Some(stored.to_next_frame())
                    }
                } else {
                    None
                },
                None => None,
            }
        } else {
            None
        }
    }

    /// The machine after a comparison: only the flag changes. The third
    /// operand byte is read and not used.
    pub open spec fn tested(self, code: Opcode) -> Option<Machine> {
        if self.has_operands(3) && self.names_register(0) && self.names_register(1) {
            Some(
                self.with_flag(
                    compared(code, self.register(0), self.register(1)),
                ).to_next_frame(),
            )
        } else {
            None
        }
    }

    /// The machine after a jump. `JMP` goes to the address in the register,
    /// read as an unsigned number. `JMPF` and `JMPB` move the counter forward
    /// and back by that number, from the byte behind the register operand.
    /// `JEQ` and `JNEQ` go to the address where the flag is set and clear; where
    /// they do not, the counter stays behind the register operand, two bytes
    /// behind where the opcode stood: the padding of the frame is not skipped.
    pub open spec fn jumped(self, code: Opcode) -> Option<Machine> {
        if self.has_operands(1) && self.names_register(0) {
            let target = self.register(0) as usize;
            let from = self.pc + 2;
            match code {
                Opcode::JMP => Some(self.with_pc(target)),
                Opcode::JMPF => if from + target <= usize::MAX {
                    Some(self.with_pc((from + target) as usize))
                } else {
                    None
                },
                Opcode::JMPB => if target <= from {
                    Some(self.with_pc((from - target) as usize))
                } else {
                    None
                },
                Opcode::JEQ => if self.equal_flag {
                    Some(self.with_pc(target))
                } else {
                    Some(self.with_pc((self.pc + 2) as usize))
                },
                Opcode::JNEQ => if !self.equal_flag {
                    Some(self.with_pc(target))
                } else {
                    Some(self.with_pc((self.pc + 2) as usize))
                },
                _ => None,
            }
        } else {
            None
        }
    }

    /// The machine after the instruction at the counter, where the machine
    /// carries it out and goes on; `None` where it halts.
    pub open spec fn carried_out(self) -> Option<Machine>
        recommends
            self.pc < self.program.len(),
    {
        match self.fetched() {
            Opcode::LOAD => self.loaded(),
            Opcode::ADD => self.calculated(Opcode::ADD),
            Opcode::SUB => self.calculated(Opcode::SUB),
            Opcode::MUL => self.calculated(Opcode::MUL),
            Opcode::DIV => self.calculated(Opcode::DIV),
            Opcode::JMP => self.jumped(Opcode::JMP),
            Opcode::JMPF => self.jumped(Opcode::JMPF),
            Opcode::JMPB => self.jumped(Opcode::JMPB),
            Opcode::EQ => self.tested(Opcode::EQ),
            Opcode::NEQ => self.tested(Opcode::NEQ),
            Opcode::GT => self.tested(Opcode::GT),
            Opcode::LT => self.tested(Opcode::LT),
            Opcode::GTQ => self.tested(Opcode::GTQ),
            Opcode::LTQ => self.tested(Opcode::LTQ),
            Opcode::JEQ => self.jumped(Opcode::JEQ),
            Opcode::JNEQ => self.jumped(Opcode::JNEQ),
            _ => None,
        }
    }

    /// One step: the machine after it, and whether it has halted.
    pub open spec fn step(self) -> (Machine, bool) {
        if self.pc >= self.program.len() {
            (self, true)
        } else {
            match self.carried_out() {
                Some(next) => (next, false),
                None => (self.with_pc((self.pc + 1) as usize), true),
            }
        }
    }

    /// The machine halts with its `count`-th step from here, and not before.
    pub open spec fn halts_at(self, count: nat) -> bool
        decreases count,
    {
        if count == 0 {
            false
        } else if self.step().1 {
            count == 1
        } else {
            self.step().0.halts_at((count - 1) as nat)
        }
    }

    /// The machine halts after some number of steps.
    pub open spec fn halts(self) -> bool {
        exists|count: nat| self.halts_at(count)
    }

    /// The number of steps after which the machine halts.
    pub open spec fn steps_left(self) -> nat
        recommends
            self.halts(),
    {
        choose|count: nat| self.halts_at(count)
    }

    /// The machine after `count` steps, or after the step with which it
    /// halts if that comes first.
    pub open spec fn after(self, count: nat) -> Machine
        decreases count,
    {
        if count == 0 {
            self
        } else if self.step().1 {
            self.step().0
        } else {
            self.step().0.after((count - 1) as nat)
        }
    }

    /// The machine as it stands when it has halted.
    pub open spec fn halted(self) -> Machine
        recommends
            self.halts(),
    {
        self.after(self.steps_left())
    }
}

impl VM {
    /// A machine with all registers zero and no program.
    pub fn new() -> (vm: VM)
        ensures
            vm@.registers == Seq::new(REGISTERS as nat, |i: int| 0i32),
            vm@.pc == 0,
            vm@.program == Seq::<u8>::empty(),
            vm@.remainder == 0,
            !vm@.equal_flag,
            vm@.well_formed(),
    {
        let vm = VM { registers: [0; 32], pc: 0, program: Vec::new(), remainder: 0, equal_flag: false };
        assert(vm@.registers =~= Seq::new(REGISTERS as nat, |i: int| 0i32));
        vm
    }

    /// Steps until the machine halts. A program that never halts is not
    /// stopped: the call then does not return.
    pub fn run(&mut self)
        requires
            old(self)@.halts(),
        ensures
            final(self)@ == old(self)@.halted(),
    {
        let mut done = false;
        proof {
            lemma_halted_is_after(self@, self@.steps_left());
        }
        while !done
            invariant
                !done ==> self@.halts() && self@.halted() == old(self)@.halted(),
                done ==> self@ == old(self)@.halted(),
            decreases
                (if done {
                    0
                } else {
                    self@.steps_left()
                }),
        {
            proof {
                lemma_step_counts_down(self@);
            }
            done = self.execute_instruction();
        }
    }

    /// One step.
    pub fn run_once(&mut self)
        ensures
            final(self)@ == old(self)@.step().0,
    {
        self.execute_instruction();
    }

    /// Carries out the instruction at the program counter and says whether
    /// the machine has halted.
    pub fn execute_instruction(&mut self) -> (done: bool)
        ensures
            (final(self)@, done) == old(self)@.step(),
    {
        if self.pc >= self.program.len() {
            return true;
        }
        let went_on = match self.decode_opcode() {
            Opcode::HLT => false,
            Opcode::LOAD => self.load(),
            Opcode::ADD => self.calculate(Opcode::ADD),
            Opcode::SUB => self.calculate(Opcode::SUB),
            Opcode::MUL => self.calculate(Opcode::MUL),
            Opcode::DIV => self.calculate(Opcode::DIV),
            Opcode::JMP => self.jump(Opcode::JMP),
            Opcode::JMPF => self.jump(Opcode::JMPF),
            Opcode::JMPB => self.jump(Opcode::JMPB),
            Opcode::EQ => self.test(Opcode::EQ),
            Opcode::NEQ => self.test(Opcode::NEQ),
            Opcode::GT => self.test(Opcode::GT),
            Opcode::LT => self.test(Opcode::LT),
            Opcode::GTQ => self.test(Opcode::GTQ),
            Opcode::LTQ => self.test(Opcode::LTQ),
            Opcode::JEQ => self.jump(Opcode::JEQ),
            Opcode::JNEQ => self.jump(Opcode::JNEQ),
            _ => false,
        };
        !went_on
    }

    /// Appends one byte to the program.
    pub fn add_byte(&mut self, byte: u8)
        ensures
            final(self)@ == (Machine { program: old(self)@.program.push(byte), ..old(self)@ }),
    {
        self.program.push(byte);
    }

    /// Appends bytes to the program, in their order.
    pub fn add_bytes(&mut self, bytes: Vec<u8>)
        ensures
            final(self)@ == (Machine { program: old(self)@.program + bytes@, ..old(self)@ }),
    {
        let mut bytes = bytes;
        self.program.append(&mut bytes);
    }

    /// Reads the opcode at the counter and moves the counter behind it.
    fn decode_opcode(&mut self) -> (opcode: Opcode)
        requires
            old(self).pc < old(self).program.len(),
        ensures
            opcode == old(self)@.fetched(),
            final(self)@ == old(self)@.with_pc((old(self).pc + 1) as usize),
    {
        let opcode = Opcode::from(self.program[self.pc]);
        self.pc += 1;
        opcode
    }

    /// Reads the byte at the counter and moves the counter behind it.
    fn next_8_bits(&mut self) -> (byte: u8)
        requires
            old(self).pc < old(self).program.len(),
        ensures
            byte == old(self).program[old(self).pc as int],
            final(self)@ == old(self)@.with_pc((old(self).pc + 1) as usize),
    {
        let res = self.program[self.pc];
        self.pc += 1;
        res
    }

    /// Reads the two bytes at the counter as one number, the high byte
    /// first, and moves the counter behind them.
    fn next_16_bits(&mut self) -> (number: u16)
        requires
            old(self).pc + 1 < old(self).program.len(),
        ensures
            number as i32 == immediate_of(
                old(self).program[old(self).pc as int],
                old(self).program[old(self).pc + 1],
            ),
            final(self)@ == old(self)@.with_pc((old(self).pc + 2) as usize),
    {
        let high = self.program[self.pc];
        let low = self.program[self.pc + 1];
        let res = ((high as u16) << 8) | low as u16;
        assert(((high as u16) << 8) | low as u16 == high as u16 * 256 + low as u16) by (bit_vector);
        self.pc += 2;
        res
    }

    /// Reads the byte at the counter as the index of a register; `None`
    /// where no register has that index.
    fn next_register(&mut self) -> (index: Option<usize>)
        requires
            old(self).pc < old(self).program.len(),
        ensures
            final(self)@ == old(self)@.with_pc((old(self).pc + 1) as usize),
            match index {
                Some(i) => i == old(self).program[old(self).pc as int] && i < REGISTERS,
                None => old(self).program[old(self).pc as int] >= REGISTERS,
            },
    {
        let index = self.next_8_bits() as usize;
        if index < REGISTERS {
            Some(index)
        } else {
            None
        }
    }

    /// `LOAD`, with the counter just behind the opcode. Says whether the
    /// instruction was carried out; where not, nothing has changed.
    fn load(&mut self) -> (went_on: bool)
        requires
            0 < old(self).pc <= old(self).program.len(),
        ensures
            match old(self)@.with_pc((old(self).pc - 1) as usize).loaded() {
                Some(next) => went_on && final(self)@ == next,
                None => !went_on && final(self)@ == old(self)@,
            },
    {
        let behind_opcode = self.pc;
        if self.program.len() - behind_opcode < 3 {
            return false;
        }
        let register = self.next_register();
        let number = self.next_16_bits();
        match register {
            Some(register) => {
                self.registers[register] = number as i32;
                true
            },
            None => {
                self.pc = behind_opcode;
                false
            },
        }
    }

    /// `ADD`, `SUB`, `MUL` or `DIV`, with the counter just behind the opcode.
    /// Says whether the instruction was carried out; where not, nothing has
    /// changed.
    fn calculate(&mut self, code: Opcode) -> (went_on: bool)
        requires
            0 < old(self).pc <= old(self).program.len(),
        ensures
            match old(self)@.with_pc((old(self).pc - 1) as usize).calculated(code) {
                Some(next) => went_on && final(self)@ == next,
                None => !went_on && final(self)@ == old(self)@,
            },
    {
        let behind_opcode = self.pc;
        if self.program.len() - behind_opcode < 3 {
            return false;
        }
        let first = self.next_register();
        let second = self.next_register();
        let third = self.next_register();
        match (first, second, third) {
            (Some(first), Some(second), Some(third)) => {
                let a = self.registers[first];
                let b = self.registers[second];
                proof {
                    lemma_quotient(a, b);
                }
                let value = match code {
                    Opcode::ADD => a.checked_add(b),
                    Opcode::SUB => a.checked_sub(b),
                    Opcode::MUL => a.checked_mul(b),
                    Opcode::DIV => a.checked_div(b),
                    _ => None,
                };
                match value {
                    Some(value) => {
                        self.registers[third] = value;
                        if code == Opcode::DIV {
                            match a.checked_rem(b) {
                                Some(rest) => {
                                    self.remainder = #[verifier::truncate]
                                    (rest as u32);
                                },
                                None => {},
                            }
                        }
                        true
                    },
                    None => {
                        self.pc = behind_opcode;
                        false
                    },
                }
            },
            _ => {
                self.pc = behind_opcode;
                false
            },
        }
    }

    /// A comparison, with the counter just behind the opcode. Says whether
    /// the instruction was carried out; where not, nothing has changed.
    fn test(&mut self, code: Opcode) -> (went_on: bool)
        requires
            0 < old(self).pc <= old(self).program.len(),
        ensures
            match old(self)@.with_pc((old(self).pc - 1) as usize).tested(code) {
                Some(next) => went_on && final(self)@ == next,
                None => !went_on && final(self)@ == old(self)@,
            },
    {
        let behind_opcode = self.pc;
        if self.program.len() - behind_opcode < 3 {
            return false;
        }
        let first = self.next_register();
        let second = self.next_register();
        match (first, second) {
            (Some(first), Some(second)) => {
                let a = self.registers[first];
                let b = self.registers[second];
                self.equal_flag = match code {
                    Opcode::EQ => a == b,
                    Opcode::NEQ => a != b,
                    Opcode::GT => a > b,
                    Opcode::LT => a < b,
                    Opcode::GTQ => a >= b,
                    Opcode::LTQ => a <= b,
                    _ => false,
                };
                self.next_8_bits();
                true
            },
            _ => {
                self.pc = behind_opcode;
                false
            },
        }
    }

    /// A jump, with the counter just behind the opcode. Says whether the
    /// instruction was carried out; where not, nothing has changed.
    fn jump(&mut self, code: Opcode) -> (went_on: bool)
        requires
            0 < old(self).pc <= old(self).program.len(),
        ensures
            match old(self)@.with_pc((old(self).pc - 1) as usize).jumped(code) {
                Some(next) => went_on && final(self)@ == next,
                None => !went_on && final(self)@ == old(self)@,
            },
    {
        let behind_opcode = self.pc;
        if self.program.len() - behind_opcode < 1 {
            return false;
        }
        let landing = match self.next_register() {
            Some(register) => {
                let target = #[verifier::truncate]
                (self.registers[register] as usize);
                match code {
                    Opcode::JMP => Some(target),
                    Opcode::JMPF => self.pc.checked_add(target),
                    Opcode::JMPB => self.pc.checked_sub(target),
                    Opcode::JEQ => if self.equal_flag {
                        Some(target)
                    } else {
                        Some(self.pc)
                    },
                    Opcode::JNEQ => if !self.equal_flag {
                        Some(target)
                    } else {
                        Some(self.pc)
                    },
                    _ => None,
                }
            },
            None => None,
        };
        match landing {
            Some(pc) => {
                self.pc = pc;
                true
            },
            None => {
                self.pc = behind_opcode;
                false
            },
        }
    }
}

/// What `i32::checked_div` and `i32::checked_rem` compute is the quotient
/// and the leftover of a division that rounds toward zero.
proof fn lemma_quotient(a: i32, b: i32)
    ensures
        b != 0 ==> (a.checked_div(b) == if i32::MIN <= quotient(a as int, b as int) <= i32::MAX {
            Some(quotient(a as int, b as int) as i32)
        } else {
            None
        }),
        b != 0 && !(a == i32::MIN && b == -1) ==> a.checked_rem(b) == Some(
            leftover(a as int, b as int) as i32,
        ),
        b != 0 && a == i32::MIN && b == -1 ==> !(i32::MIN <= quotient(a as int, b as int)
            <= i32::MAX),
        b == 0 ==> a.checked_div(b) is None,
{
    if b != 0 {
        let x = a as int;
        let d = b as int;
        let ax = if x < 0 { -x } else { x };
        let ad = if d < 0 { -d } else { d };
        assert(0 <= ax / ad <= ax) by (nonlinear_arith)
            requires
                0 <= ax,
                0 < ad,
        ;
        assert(0 <= ax % ad < ad) by (nonlinear_arith)
            requires
                0 <= ax,
                0 < ad,
        ;
        assert(ax == 0 ==> ax / ad == 0 && ax % ad == 0) by (nonlinear_arith)
            requires
                0 < ad,
        ;
        assert(ad == 1 ==> ax / ad == ax) by (nonlinear_arith);
        assert(x * -1 == -x);
        assert(d * -1 == -d);
    }
}

/// A machine that halts does so after one number of steps only.
proof fn lemma_halts_once(m: Machine, a: nat, b: nat)
    requires
        m.halts_at(a),
        m.halts_at(b),
    ensures
        a == b,
    decreases a,
{
    if !m.step().1 {
        lemma_halts_once(m.step().0, (a - 1) as nat, (b - 1) as nat);
    }
}

/// Where a machine halts, `halted` is the machine after that many steps.
proof fn lemma_halted_is_after(m: Machine, count: nat)
    requires
        m.halts(),
        count == m.steps_left(),
    ensures
        m.halts_at(count),
        m.halted() == m.after(count),
{
}

/// A step that does not halt leaves one step fewer to go, and the same end.
proof fn lemma_step_counts_down(m: Machine)
    requires
        m.halts(),
    ensures
        m.halts_at(m.steps_left()),
        m.step().1 ==> m.halted() == m.step().0,
        !m.step().1 ==> m.step().0.halts() && m.step().0.steps_left() + 1 == m.steps_left()
            && m.step().0.halted() == m.halted(),
{
    let count = m.steps_left();
    assert(m.halts_at(count));
    if m.step().1 {
        assert(count == 1);
        assert(m.after(1) == m.step().0);
    } else {
        let next = m.step().0;
        assert(next.halts_at((count - 1) as nat));
        lemma_halts_once(next, (count - 1) as nat, next.steps_left());
        assert(m.after(count) == next.after((count - 1) as nat));
    }
}

/// Halting: a machine whose counter stands at or beyond the end of its
/// program halts with its first step and stays as it is. A machine that
/// stands at `HLT`, or at a byte that selects no operation it carries out,
/// halts with its first step too, and only its counter has moved, behind
/// that byte.
pub proof fn lemma_halts_at_once(m: Machine)
    requires
        m.pc >= m.program.len() || m.program[m.pc as int] == 5 || m.program[m.pc as int] > 16,
    ensures
        m.step().1,
        m.halts(),
        m.steps_left() == 1,
        m.halted() == m.step().0,
        m.pc >= m.program.len() ==> m.step().0 == m,
        m.pc < m.program.len() ==> m.step().0 == m.with_pc((m.pc + 1) as usize),
{
    assert(m.halts_at(1));
    lemma_halts_once(m, 1, m.steps_left());
    assert(m.after(1) == m.step().0);
}

/// A machine that halts with its `count`-th step halts, and as it stands
/// when it has halted it stands after `count` steps.
pub proof fn lemma_halted_after(m: Machine, count: nat)
    requires
        m.halts_at(count),
    ensures
        m.halts(),
        m.steps_left() == count,
        m.halted() == m.after(count),
{
    lemma_halts_once(m, count, m.steps_left());
}

/// A step leaves a machine with all its registers and with its program.
pub proof fn lemma_step_keeps_program(m: Machine)
    requires
        m.well_formed(),
    ensures
        m.step().0.well_formed(),
        m.step().0.program == m.program,
{
}

} // verus!
