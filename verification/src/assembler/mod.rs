//! The assembler: from source text to bytecode in two passes.

use vstd::prelude::*;
use crate::assembler::instruction_parsers::{AssemblerInstruction, EncodeError};
use crate::assembler::program_parsers::{
    lemma_parsed_instructions,
    parse_program,
    program,
    Program,
};
use crate::instruction::Opcode;

pub mod instruction_parsers;
pub mod opcode_parsers;
pub mod operand_parsers;
pub mod program_parsers;
pub mod register_parsers;
pub mod text;

verus! {

/// One lexical unit of the source text.
#[derive(Debug, PartialEq)]
pub enum Token {
    Op { code: Opcode },
    Register { reg_num: u8 },
    IntegerOperand { value: i32 },
    LabelDeclaration { name: String },
    LabelUsage { name: String },
    Directive { name: String },
}

/// Why a parser did not accept its input.
#[derive(Debug, PartialEq, Eq, Copy, Clone, Structural)]
pub enum ParseError {
    /// The text does not begin with the sign or the word that was expected.
    Tag,
    /// The text does not begin with a decimal digit.
    Digit,
    /// The text does not begin with a letter.
    Alpha,
    /// The number is larger than its token can hold.
    TooLarge,
    /// The text begins with none of the instruction shapes.
    Alt,
    /// The text does not begin with an instruction.
    Many1,
}

/// What a parser returns, with the text that is left as a sequence of
/// characters.
pub open spec fn parsed<T>(r: Result<(&str, T), ParseError>) -> Result<(Seq<char>, T), ParseError> {
    match r {
        Ok((rest, value)) => Ok((rest@, value)),
        Err(e) => Err(e),
    }
}

/// What a label stands for.
#[derive(Debug, PartialEq, Eq, Copy, Clone, Structural)]
pub enum SymbolType {
    Label,
}

/// A name and the byte address that it stands for.
#[derive(Debug)]
pub struct Symbol {
    name: String,
    offset: u32,
    symbol_type: SymbolType,
}

/// A symbol as plain values.
pub struct SymbolView {
    pub name: Seq<char>,
    pub offset: u32,
    pub symbol_type: SymbolType,
}

impl View for Symbol {
    type V = SymbolView;

    closed spec fn view(&self) -> SymbolView {
        SymbolView { name: self.name@, offset: self.offset, symbol_type: self.symbol_type }
    }
}

impl Symbol {
    pub fn new(name: String, symbol_type: SymbolType, offset: u32) -> (r: Symbol)
        ensures
            r@ == (SymbolView { name: name@, offset, symbol_type }),
    {
        Symbol { name, symbol_type, offset }
    }
}

/// The symbols of a program in the order in which they were added.
#[derive(Debug)]
pub struct SymbolTable {
    pub symbols: Vec<Symbol>,
}

impl View for SymbolTable {
    type V = Seq<SymbolView>;

    open spec fn view(&self) -> Seq<SymbolView> {
        self.symbols@.map_values(|s: Symbol| s@)
    }
}

/// The address of the first symbol of that name.
pub open spec fn lookup(symbols: Seq<SymbolView>, name: Seq<char>) -> Option<u32>
    decreases symbols.len(),
{
    if symbols.len() == 0 {
        None
    } else if symbols[0].name == name {
        Some(symbols[0].offset)
    } else {
        lookup(symbols.drop_first(), name)
    }
}

impl SymbolTable {
    pub fn new() -> (r: SymbolTable)
        ensures
            r@ == Seq::<SymbolView>::empty(),
    {
        let r = SymbolTable { symbols: Vec::new() };
        assert(r@ =~= Seq::<SymbolView>::empty());
        r
    }

    /// Adds a symbol behind those that are there. A name that is there
    /// already keeps the address it had: `symbol_value` finds the first.
    pub fn add_symbol(&mut self, s: Symbol)
        ensures
            final(self)@ == old(self)@.push(s@),
    {
        self.symbols.push(s);
        assert(self@ =~= old(self)@.push(s@));
    }

    /// The address that a name stands for: that of the first symbol of the
    /// name, or `None` where there is no such symbol.
    pub fn symbol_value(&self, s: &str) -> (r: Option<u32>)
        ensures
            r == lookup(self@, s@),
    {
        let name = s.to_owned();
        let mut i: usize = 0;
        assert(self@.skip(0) =~= self@);
        while i < self.symbols.len()
            invariant
                i <= self.symbols@.len(),
                name@ == s@,
                lookup(self@, s@) == lookup(self@.skip(i as int), s@),
            decreases self.symbols@.len() - i,
        {
            assert(self@.skip(i as int)[0] == self.symbols@[i as int]@);
            assert(self@.skip(i as int).drop_first() =~= self@.skip(i + 1));
            if self.symbols[i].name == name {
                return Some(self.symbols[i].offset);
            }
            i += 1;
        }
        None
    }
}

/// Which pass the assembler has reached.
#[derive(Debug, PartialEq, Eq, Copy, Clone, Structural)]
pub enum AssemblerPhase {
    First,
    Second,
}

/// The assembler: the pass it has reached and the symbols it has found.
#[derive(Debug)]
pub struct Assembler {
    pub phase: AssemblerPhase,
    pub symbols: SymbolTable,
}

/// The most instructions whose addresses fit the thirty-two bits of a
/// symbol's address.
pub const MAX_INSTRUCTIONS: usize = 0x3fff_ffff;

/// The symbols that a list of instructions declares, in their order: each
/// label with the address of its instruction, which is four times the
/// instruction's place in the list.
pub open spec fn declared(instructions: Seq<AssemblerInstruction>) -> Seq<SymbolView>
    decreases instructions.len(),
{
    if instructions.len() == 0 {
        Seq::empty()
    } else {
        let before = declared(instructions.drop_last());
        match instructions.last().declared_label() {
            Some(name) => before.push(
                SymbolView {
                    name: name@,
                    offset: (4 * (instructions.len() - 1)) as u32,
                    symbol_type: SymbolType::Label,
                },
            ),
            None => before,
        }
    }
}

/// The bytecode of a list of instructions: their encodings one after
/// another. Where instructions have none, the error is that of the first of
/// them.
pub open spec fn bytecode(instructions: Seq<AssemblerInstruction>) -> Result<Seq<u8>, EncodeError>
    decreases instructions.len(),
{
    if instructions.len() == 0 {
        Ok(Seq::empty())
    } else {
        match bytecode(instructions.drop_last()) {
            Ok(before) => match instructions.last().encoding() {
                Ok(frame) => Ok(before + frame),
                Err(e) => Err(e),
            },
            Err(e) => Err(e),
        }
    }
}

/// The text is a program from its first character to its last, of no more
/// instructions than have addresses.
pub open spec fn assembles(text: Seq<char>) -> bool {
    match parse_program(text) {
        Ok((rest, instructions)) => rest.len() == 0 && instructions.len() <= MAX_INSTRUCTIONS,
        Err(_) => false,
    }
}

impl Assembler {
    pub fn new() -> (r: Assembler)
        ensures
            r.phase == AssemblerPhase::First,
            r.symbols@ == Seq::<SymbolView>::empty(),
    {
        Assembler { phase: AssemblerPhase::First, symbols: SymbolTable::new() }
    }

    /// Assembles a source text. The text has to be a program and nothing
    /// else: where anything is left behind the last instruction, or the
    /// text begins with no instruction, the result is `None` and the
    /// assembler is as it was. Otherwise the result is the bytecode, four
    /// bytes for each instruction, and the assembler stands in its second
    /// pass. The grammar has no labels, so no symbol is added.
    pub fn assemble(&mut self, raw: &str) -> (r: Option<Vec<u8>>)
        ensures
            r is Some <==> assembles(raw@),
            match r {
                Some(bytes) => {
                    &&& bytecode(parse_program(raw@)->Ok_0.1) == Ok::<_, EncodeError>(bytes@)
                    &&& bytes@.len() == 4 * parse_program(raw@)->Ok_0.1.len()
                    &&& final(self).phase == AssemblerPhase::Second
                    &&& final(self).symbols@ == old(self).symbols@
                },
                None => *final(self) == *old(self),
            },
    {
        match program(raw) {
            Ok((rest, program)) => {
                if !rest.is_empty() || program.instructions.len() > MAX_INSTRUCTIONS {
                    return None;
                }
                proof {
                    lemma_parsed_instructions(raw@);
                    lemma_fixed_width(program.instructions@);
                    lemma_declared_none(program.instructions@);
                }
                self.process_first_phase(&program);
                match self.process_second_phase(&program) {
                    Ok(bytes) => Some(bytes),
                    Err(_) => None,
                }
            },
            Err(_) => None,
        }
    }

    /// The first pass: records the labels and goes over to the second pass.
    pub fn process_first_phase(&mut self, program: &Program)
        requires
            program.instructions@.len() <= MAX_INSTRUCTIONS,
        ensures
            final(self).symbols@ == old(self).symbols@ + declared(program.instructions@),
            final(self).phase == AssemblerPhase::Second,
    {
        self.extract_labels(program);
        self.phase = AssemblerPhase::Second;
    }

    /// The second pass: encodes the instructions in their order.
    pub fn process_second_phase(&self, program: &Program) -> (r: Result<Vec<u8>, EncodeError>)
        ensures
            match r {
                Ok(bytes) => bytecode(program.instructions@) == Ok::<_, EncodeError>(bytes@),
                Err(e) => bytecode(program.instructions@) == Err::<Seq<u8>, _>(e),
            },
    {
        let mut bytecode: Vec<u8> = Vec::new();
        let mut i: usize = 0;
        assert(program.instructions@.take(0) =~= Seq::<AssemblerInstruction>::empty());
        while i < program.instructions.len()
            invariant
                i <= program.instructions@.len(),
                self::bytecode(program.instructions@.take(i as int)) == Ok::<_, EncodeError>(
                    bytecode@,
                ),
            decreases program.instructions@.len() - i,
        {
            proof {
                assert(program.instructions@.take(i + 1).drop_last()
                    =~= program.instructions@.take(i as int));
                lemma_bytecode_error_stays(program.instructions@, i + 1);
            }
            match program.instructions[i].to_bytes(&self.symbols) {
                Ok(bytes) => {
                    let mut bytes = bytes;
                    bytecode.append(&mut bytes);
                },
                Err(e) => {
                    return Err(e);
                },
            }
            i += 1;
        }
        assert(program.instructions@.take(i as int) =~= program.instructions@);
        Ok(bytecode)
    }

    /// Adds a symbol for each label that the program declares.
    pub fn extract_labels(&mut self, program: &Program)
        requires
            program.instructions@.len() <= MAX_INSTRUCTIONS,
        ensures
            final(self).symbols@ == old(self).symbols@ + declared(program.instructions@),
            final(self).phase == old(self).phase,
    {
        let mut address: u32 = 0;
        let mut i: usize = 0;
        assert(program.instructions@.take(0) =~= Seq::<AssemblerInstruction>::empty());
        assert(self.symbols@ =~= old(self).symbols@ + Seq::<SymbolView>::empty());
        while i < program.instructions.len()
            invariant
                i <= program.instructions@.len(),
                program.instructions@.len() <= MAX_INSTRUCTIONS,
                address == 4 * i,
                self.phase == old(self).phase,
                self.symbols@ == old(self).symbols@ + declared(
                    program.instructions@.take(i as int),
                ),
            decreases program.instructions@.len() - i,
        {
            let instruction = &program.instructions[i];
            proof {
                assert(program.instructions@.take(i + 1).drop_last()
                    =~= program.instructions@.take(i as int));
                assert(program.instructions@.take(i + 1).last() == *instruction);
            }
            let ghost before = self.symbols@;
            if instruction.is_label() {
                match instruction.label_name() {
                    Some(name) => {
                        let symbol = Symbol::new(name, SymbolType::Label, address);
                        self.symbols.add_symbol(symbol);
                        assert(self.symbols@ =~= old(self).symbols@ + declared(
                            program.instructions@.take(i + 1),
                        ));
                    },
                    None => {},
                }
            }
            address += 4;
            i += 1;
        }
        assert(program.instructions@.take(i as int) =~= program.instructions@);
    }
}

/// Where the bytecode of the first instructions of a list has an error, the
/// bytecode of the whole list has the same.
proof fn lemma_bytecode_error_stays(instructions: Seq<AssemblerInstruction>, count: int)
    requires
        0 <= count <= instructions.len(),
    ensures
        bytecode(instructions.take(count)) matches Err(e) ==> bytecode(instructions) == Err::<
            Seq<u8>,
            _,
        >(e),
    decreases instructions.len() - count,
{
    if count < instructions.len() {
        assert(instructions.take(count + 1).drop_last() =~= instructions.take(count));
        lemma_bytecode_error_stays(instructions, count + 1);
    } else {
        assert(instructions.take(count) =~= instructions);
    }
}

/// Instructions that declare no label declare no symbol.
proof fn lemma_declared_none(instructions: Seq<AssemblerInstruction>)
    requires
        forall|i: int|
            0 <= i < instructions.len() ==> (#[trigger] instructions[i]).declared_label() is None,
    ensures
        declared(instructions) == Seq::<SymbolView>::empty(),
    decreases instructions.len(),
{
    if instructions.len() > 0 {
        lemma_declared_none(instructions.drop_last());
    }
}

/// Fixed width: the bytecode of instructions that are one frame each is
/// four bytes for each of them.
pub proof fn lemma_fixed_width(instructions: Seq<AssemblerInstruction>)
    requires
        forall|i: int| 0 <= i < instructions.len() ==> (#[trigger] instructions[i]).fits_frame(),
    ensures
        bytecode(instructions) is Ok,
        bytecode(instructions)->Ok_0.len() == 4 * instructions.len(),
    decreases instructions.len(),
{
    if instructions.len() > 0 {
        lemma_fixed_width(instructions.drop_last());
    }
}

/// A name beside the tables: where the first table has it, the address is
/// the one found there, else the one found in the second.
proof fn lemma_lookup_joined(first: Seq<SymbolView>, second: Seq<SymbolView>, name: Seq<char>)
    ensures
        lookup(first + second, name) == if lookup(first, name) is Some {
            lookup(first, name)
        } else {
            lookup(second, name)
        },
    decreases first.len(),
{
    if first.len() == 0 {
        assert(first + second =~= second);
    } else {
        assert((first + second).drop_first() =~= first.drop_first() + second);
        lemma_lookup_joined(first.drop_first(), second, name);
    }
}

/// Instructions of which none declares a name declare no symbol of that
/// name.
proof fn lemma_undeclared(instructions: Seq<AssemblerInstruction>, name: Seq<char>)
    requires
        forall|j: int|
            0 <= j < instructions.len() ==> !((#[trigger] instructions[j]).declared_label() matches Some(
                other,
            ) && other@ == name),
    ensures
        lookup(declared(instructions), name) is None,
    decreases instructions.len(),
{
    if instructions.len() > 0 {
        let before = instructions.drop_last();
        assert forall|j: int| 0 <= j < before.len() implies !((#[trigger] before[j]).declared_label() matches Some(
            other,
        ) && other@ == name) by {
            assert(before[j] == instructions[j]);
        }
        lemma_undeclared(before, name);
        match instructions.last().declared_label() {
            Some(other) => {
                let symbol = SymbolView {
                    name: other@,
                    offset: (4 * (instructions.len() - 1)) as u32,
                    symbol_type: SymbolType::Label,
                };
                assert(instructions[instructions.len() - 1] == instructions.last());
                assert(declared(before).push(symbol) =~= declared(before) + seq![symbol]);
                lemma_lookup_joined(declared(before), seq![symbol], name);
                assert(seq![symbol].drop_first() =~= Seq::<SymbolView>::empty());
                assert(lookup(seq![symbol], name) == lookup(seq![symbol].drop_first(), name));
            },
            None => {},
        }
    }
}

/// Label addresses: after the first pass, a label that the instruction at
/// place `k` declares stands for the address `4 * k`, where no instruction
/// before it declares the same name and the table did not hold the name
/// before. (Where one of them does, the name keeps the address that came
/// first.)
pub proof fn lemma_label_address(
    table: Seq<SymbolView>,
    instructions: Seq<AssemblerInstruction>,
    k: int,
    name: String,
)
    requires
        0 <= k < instructions.len() <= MAX_INSTRUCTIONS,
        instructions[k].declared_label() == Some(name),
        forall|j: int|
            0 <= j < k ==> !((#[trigger] instructions[j]).declared_label() matches Some(other)
                && other@ == name@),
        lookup(table, name@) is None,
    ensures
        lookup(table + declared(instructions), name@) == Some((4 * k) as u32),
        4 * k <= u32::MAX,
    decreases instructions.len(),
{
    lemma_lookup_joined(table, declared(instructions), name@);
    let before = instructions.drop_last();
    if k < instructions.len() - 1 {
        assert(before[k] == instructions[k]);
        assert forall|j: int| 0 <= j < k implies !((#[trigger] before[j]).declared_label() matches Some(
            other,
        ) && other@ == name@) by {
            assert(before[j] == instructions[j]);
        }
        lemma_label_address(table, before, k, name);
        lemma_lookup_joined(table, declared(before), name@);
        match instructions.last().declared_label() {
            Some(other) => {
                let symbol = SymbolView {
                    name: other@,
                    offset: (4 * (instructions.len() - 1)) as u32,
                    symbol_type: SymbolType::Label,
                };
                assert(declared(before).push(symbol) =~= declared(before) + seq![symbol]);
                lemma_lookup_joined(declared(before), seq![symbol], name@);
            },
            None => {},
        }
    } else {
        assert forall|j: int| 0 <= j < before.len() implies !((#[trigger] before[j]).declared_label() matches Some(
            other,
        ) && other@ == name@) by {
            assert(before[j] == instructions[j]);
        }
        lemma_undeclared(before, name@);
        let symbol = SymbolView {
            name: name@,
            offset: (4 * k) as u32,
            symbol_type: SymbolType::Label,
        };
        assert(declared(before).push(symbol) =~= declared(before) + seq![symbol]);
        lemma_lookup_joined(declared(before), seq![symbol], name@);
    }
}

} // verus!
