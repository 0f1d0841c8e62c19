use regvm::assembler::instruction_parsers::{
    instruction, instruction_zero, AssemblerInstruction, EncodeError,
};
use regvm::assembler::opcode_parsers::{opcode, opcode_load};
use regvm::assembler::operand_parsers::{integer_operand, operand};
use regvm::assembler::program_parsers::{program, Program};
use regvm::assembler::register_parsers::register;
use regvm::assembler::{
    Assembler, AssemblerPhase, ParseError, Symbol, SymbolTable, SymbolType, Token,
};
use regvm::instruction::Opcode;
use regvm::vm::VM;

fn plain(code: Opcode, a: Option<Token>, b: Option<Token>, c: Option<Token>) -> AssemblerInstruction {
    AssemblerInstruction {
        opcode: Some(Token::Op { code }),
        label: None,
        directive: None,
        operand1: a,
        operand2: b,
        operand3: c,
    }
}

fn reg(n: u8) -> Option<Token> {
    Some(Token::Register { reg_num: n })
}

fn number(v: i32) -> Option<Token> {
    Some(Token::IntegerOperand { value: v })
}

fn labelled(name: &str) -> AssemblerInstruction {
    AssemblerInstruction {
        opcode: Some(Token::Op { code: Opcode::HLT }),
        label: Some(Token::LabelDeclaration { name: name.to_string() }),
        directive: None,
        operand1: None,
        operand2: None,
        operand3: None,
    }
}

#[test]
fn opcode_numbers() {
    let table = [
        (Opcode::LOAD, 0u8),
        (Opcode::ADD, 1),
        (Opcode::SUB, 2),
        (Opcode::MUL, 3),
        (Opcode::DIV, 4),
        (Opcode::HLT, 5),
        (Opcode::JMP, 6),
        (Opcode::JMPF, 7),
        (Opcode::JMPB, 8),
        (Opcode::EQ, 9),
        (Opcode::NEQ, 10),
        (Opcode::GT, 11),
        (Opcode::LT, 12),
        (Opcode::GTQ, 13),
        (Opcode::LTQ, 14),
        (Opcode::JEQ, 15),
        (Opcode::JNEQ, 16),
        (Opcode::ALOC, 17),
        (Opcode::INC, 18),
        (Opcode::DEC, 19),
    ];
    for (code, number) in table {
        assert_eq!(u8::from(code), number);
        assert_eq!(Opcode::from(number), code);
    }
    assert_eq!(u8::from(Opcode::IGL), 20);
    for number in 20..=255u8 {
        assert_eq!(Opcode::from(number), Opcode::IGL);
    }
}

#[test]
fn mnemonics_in_either_case() {
    let table = [
        ("load", Opcode::LOAD),
        ("Add", Opcode::ADD),
        ("SUB", Opcode::SUB),
        ("mUl", Opcode::MUL),
        ("div", Opcode::DIV),
        ("hlt", Opcode::HLT),
        ("jmp", Opcode::JMP),
        ("jmpf", Opcode::JMPF),
        ("jmpb", Opcode::JMPB),
        ("eq", Opcode::EQ),
        ("neq", Opcode::NEQ),
        ("gt", Opcode::GT),
        ("lt", Opcode::LT),
        ("gtq", Opcode::GTQ),
        ("ltq", Opcode::LTQ),
        ("jeq", Opcode::JEQ),
        ("jneq", Opcode::JNEQ),
        ("aloc", Opcode::ALOC),
        ("inc", Opcode::INC),
        ("dec", Opcode::DEC),
        ("igl", Opcode::IGL),
        ("", Opcode::IGL),
        ("loads", Opcode::IGL),
    ];
    for (word, code) in table {
        assert_eq!(Opcode::from(word), code);
    }
}

#[test]
fn mnemonic_as_written_wants_capitals() {
    assert_eq!(Opcode::from_mnemonic("JMPF"), Opcode::JMPF);
    assert_eq!(Opcode::from_mnemonic("jmpf"), Opcode::IGL);
    assert_eq!(Opcode::from_mnemonic("JMP"), Opcode::JMP);
    assert_eq!(Opcode::from_mnemonic("JM"), Opcode::IGL);
}

#[test]
fn capital_forms_are_those_of_unicode() {
    // the long s has the capital S
    assert_eq!(Opcode::from("\u{17f}ub"), Opcode::SUB);
    assert_eq!(
        opcode("\u{17f}ub $0"),
        Ok((" $0", Token::Op { code: Opcode::SUB }))
    );
}

#[test]
fn register_takes_blanks_before_the_sign_and_behind_the_digits() {
    assert_eq!(register(" \t$12 \r\nx"), Ok(("x", Token::Register { reg_num: 12 })));
    assert_eq!(register("$ 12"), Err(ParseError::Digit));
    assert_eq!(register("$\n1"), Err(ParseError::Digit));
    assert_eq!(register("$12x"), Ok(("x", Token::Register { reg_num: 12 })));
    assert_eq!(register("$007"), Ok(("", Token::Register { reg_num: 7 })));
}

#[test]
fn register_number_fits_a_byte() {
    assert_eq!(register("$255"), Ok(("", Token::Register { reg_num: 255 })));
    assert_eq!(register("$256"), Err(ParseError::TooLarge));
    assert_eq!(register("$99999999999999999999999"), Err(ParseError::TooLarge));
    assert_eq!(register("$0000000000000000000000255"), Ok(("", Token::Register { reg_num: 255 })));
}

#[test]
fn register_errors() {
    assert_eq!(register(""), Err(ParseError::Tag));
    assert_eq!(register("12"), Err(ParseError::Tag));
    assert_eq!(register("#12"), Err(ParseError::Tag));
    assert_eq!(register("$"), Err(ParseError::Digit));
    assert_eq!(register("$ x"), Err(ParseError::Digit));
    assert_eq!(register("$-1"), Err(ParseError::Digit));
}

#[test]
fn integer_operand_fits_thirty_two_bits() {
    assert_eq!(
        integer_operand("#2147483647"),
        Ok(("", Token::IntegerOperand { value: 2147483647 }))
    );
    assert_eq!(integer_operand("#2147483648"), Err(ParseError::TooLarge));
    assert_eq!(integer_operand(" #0 "), Ok(("", Token::IntegerOperand { value: 0 })));
    assert_eq!(integer_operand("# 0"), Err(ParseError::Digit));
    assert_eq!(integer_operand("#-1"), Err(ParseError::Digit));
    assert_eq!(integer_operand("$1"), Err(ParseError::Tag));
}

#[test]
fn operand_is_number_or_register() {
    assert_eq!(operand("#5 x"), Ok(("x", Token::IntegerOperand { value: 5 })));
    assert_eq!(operand("$5 x"), Ok(("x", Token::Register { reg_num: 5 })));
    assert_eq!(operand("x"), Err(ParseError::Alt));
    assert_eq!(operand("$256"), Err(ParseError::Alt));
}

#[test]
fn opcode_load_looks_at_four_letters_only() {
    assert_eq!(opcode_load("LoAd$0"), Ok(("$0", Token::Op { code: Opcode::LOAD })));
    assert_eq!(opcode_load("loads"), Ok(("s", Token::Op { code: Opcode::LOAD })));
    assert_eq!(opcode_load("loa"), Err(ParseError::Tag));
    assert_eq!(opcode_load(" load"), Err(ParseError::Tag));
    assert_eq!(opcode_load(""), Err(ParseError::Tag));
}

#[test]
fn opcode_takes_the_leading_letters() {
    assert_eq!(opcode("load $1"), Ok((" $1", Token::Op { code: Opcode::LOAD })));
    assert_eq!(opcode("hlt\n"), Ok(("\n", Token::Op { code: Opcode::HLT })));
    assert_eq!(opcode("jmp1"), Ok(("1", Token::Op { code: Opcode::JMP })));
    assert_eq!(opcode("whatever"), Ok(("", Token::Op { code: Opcode::IGL })));
    assert_eq!(opcode("1"), Err(ParseError::Alpha));
    assert_eq!(opcode(" hlt"), Err(ParseError::Alpha));
    assert_eq!(opcode(""), Err(ParseError::Alpha));
}

#[test]
fn instruction_zero_takes_the_blanks_behind() {
    assert_eq!(
        instruction_zero("hlt  \n x"),
        Ok(("x", plain(Opcode::HLT, None, None, None)))
    );
}

#[test]
fn instruction_takes_the_first_shape_that_fits() {
    assert_eq!(
        instruction("load $1 #500\nhlt"),
        Ok(("hlt", plain(Opcode::LOAD, reg(1), number(500), None)))
    );
    assert_eq!(
        instruction("load $1 $2"),
        Ok(("", plain(Opcode::LOAD, reg(1), reg(2), None)))
    );
    assert_eq!(
        instruction("eq $0 $1\n"),
        Ok(("", plain(Opcode::EQ, reg(0), reg(1), None)))
    );
    assert_eq!(instruction("jmp $0 x"), Ok(("x", plain(Opcode::JMP, reg(0), None, None))));
    assert_eq!(instruction("hlt"), Ok(("", plain(Opcode::HLT, None, None, None))));
    assert_eq!(instruction("hlt #1"), Ok(("#1", plain(Opcode::HLT, None, None, None))));
    // three registers come before two
    assert_eq!(
        instruction("add $0 $1 $2"),
        Ok(("", plain(Opcode::ADD, reg(0), reg(1), reg(2))))
    );
    assert_eq!(
        instruction("div $3 $4 $5\nhlt"),
        Ok(("hlt", plain(Opcode::DIV, reg(3), reg(4), reg(5))))
    );
    assert_eq!(
        instruction("add $0 $1 $2 $3"),
        Ok(("$3", plain(Opcode::ADD, reg(0), reg(1), reg(2))))
    );
    assert_eq!(
        instruction("add $0 $1 #2"),
        Ok(("#2", plain(Opcode::ADD, reg(0), reg(1), None)))
    );
    assert_eq!(instruction("$0"), Err(ParseError::Alt));
    assert_eq!(instruction(""), Err(ParseError::Alt));
    assert_eq!(instruction(" hlt"), Err(ParseError::Alt));
}

#[test]
fn program_takes_instructions_while_there_are_any() {
    let parsed = program("load $0 #100\nload $1 #1\nhlt");
    assert_eq!(
        parsed,
        Ok((
            "",
            Program {
                instructions: vec![
                    plain(Opcode::LOAD, reg(0), number(100), None),
                    plain(Opcode::LOAD, reg(1), number(1), None),
                    plain(Opcode::HLT, None, None, None),
                ]
            }
        ))
    );
    let parsed = program("hlt\nhlt ???");
    assert_eq!(
        parsed,
        Ok((
            "???",
            Program {
                instructions: vec![
                    plain(Opcode::HLT, None, None, None),
                    plain(Opcode::HLT, None, None, None),
                ]
            }
        ))
    );
    assert_eq!(program(""), Err(ParseError::Many1));
    assert_eq!(program("  hlt"), Err(ParseError::Many1));
    assert_eq!(program("#1"), Err(ParseError::Many1));
}

#[test]
fn encoding_of_each_shape() {
    let symbols = SymbolTable::new();
    assert_eq!(
        plain(Opcode::LOAD, reg(1), number(500), None).to_bytes(&symbols),
        Ok(vec![0, 1, 1, 244])
    );
    assert_eq!(
        plain(Opcode::EQ, reg(3), reg(4), None).to_bytes(&symbols),
        Ok(vec![9, 3, 4, 0])
    );
    assert_eq!(
        plain(Opcode::ADD, reg(0), reg(1), reg(2)).to_bytes(&symbols),
        Ok(vec![1, 0, 1, 2])
    );
    assert_eq!(
        plain(Opcode::JMP, reg(255), None, None).to_bytes(&symbols),
        Ok(vec![6, 255, 0, 0])
    );
    assert_eq!(plain(Opcode::HLT, None, None, None).to_bytes(&symbols), Ok(vec![5, 0, 0, 0]));
    assert_eq!(plain(Opcode::IGL, None, None, None).to_bytes(&symbols), Ok(vec![20, 0, 0, 0]));
}

#[test]
fn encoding_keeps_the_low_sixteen_bits() {
    let symbols = SymbolTable::new();
    assert_eq!(
        plain(Opcode::LOAD, reg(0), number(65536 + 5), None).to_bytes(&symbols),
        Ok(vec![0, 0, 0, 5])
    );
    assert_eq!(
        plain(Opcode::LOAD, reg(0), number(65535), None).to_bytes(&symbols),
        Ok(vec![0, 0, 255, 255])
    );
    assert_eq!(
        plain(Opcode::LOAD, reg(0), number(-1), None).to_bytes(&symbols),
        Ok(vec![0, 0, 255, 255])
    );
    assert_eq!(
        plain(Opcode::LOAD, reg(0), number(-2), None).to_bytes(&symbols),
        Ok(vec![0, 0, 255, 254])
    );
}

#[test]
fn encoding_is_not_cut_to_four_bytes() {
    let symbols = SymbolTable::new();
    assert_eq!(
        plain(Opcode::LOAD, number(1), number(2), number(3)).to_bytes(&symbols),
        Ok(vec![0, 0, 1, 0, 2, 0, 3])
    );
    // an empty place in front takes no byte
    assert_eq!(
        plain(Opcode::JMP, None, reg(7), None).to_bytes(&symbols),
        Ok(vec![6, 7, 0, 0])
    );
}

#[test]
fn encoding_errors() {
    let symbols = SymbolTable::new();
    let mut no_opcode = plain(Opcode::HLT, reg(0), None, None);
    no_opcode.opcode = None;
    assert_eq!(no_opcode.to_bytes(&symbols), Err(EncodeError::NonOpcode));

    let mut wrong_opcode = plain(Opcode::HLT, None, None, None);
    wrong_opcode.opcode = Some(Token::Register { reg_num: 0 });
    assert_eq!(wrong_opcode.to_bytes(&symbols), Err(EncodeError::NonOpcode));

    let label = Some(Token::LabelUsage { name: "there".to_string() });
    assert_eq!(
        plain(Opcode::JMP, label, None, None).to_bytes(&symbols),
        Err(EncodeError::InvalidOperand)
    );
    let op = Some(Token::Op { code: Opcode::HLT });
    assert_eq!(
        plain(Opcode::JMP, reg(0), reg(1), op).to_bytes(&symbols),
        Err(EncodeError::InvalidOperand)
    );
    // the opcode place is looked at first
    let mut both = plain(Opcode::HLT, Some(Token::Directive { name: "d".to_string() }), None, None);
    both.opcode = None;
    assert_eq!(both.to_bytes(&symbols), Err(EncodeError::NonOpcode));
}

#[test]
fn a_label_in_an_operand_place_is_not_resolved() {
    let mut symbols = SymbolTable::new();
    symbols.add_symbol(Symbol::new("there".to_string(), SymbolType::Label, 8));
    let label = Some(Token::LabelUsage { name: "there".to_string() });
    assert_eq!(
        plain(Opcode::JMP, label, None, None).to_bytes(&symbols),
        Err(EncodeError::InvalidOperand)
    );
}

#[test]
fn label_names() {
    let i = labelled("start");
    assert!(i.is_label());
    assert_eq!(i.label_name(), Some("start".to_string()));

    let i = plain(Opcode::HLT, None, None, None);
    assert!(!i.is_label());
    assert_eq!(i.label_name(), None);

    let mut i = plain(Opcode::HLT, None, None, None);
    i.label = Some(Token::LabelUsage { name: "start".to_string() });
    assert!(i.is_label());
    assert_eq!(i.label_name(), None);
}

#[test]
fn assemble_gives_four_bytes_for_each_instruction() {
    let mut assembler = Assembler::new();
    assert_eq!(assembler.phase, AssemblerPhase::First);
    let bytes = assembler.assemble("load $0 #100\nload $1 #1\neq $0 $1\njmp $0\nhlt");
    assert_eq!(
        bytes,
        Some(vec![0, 0, 0, 100, 0, 1, 0, 1, 9, 0, 1, 0, 6, 0, 0, 0, 5, 0, 0, 0])
    );
    assert_eq!(assembler.phase, AssemblerPhase::Second);
    assert_eq!(assembler.symbols.symbols.len(), 0);
}

#[test]
fn assemble_takes_a_word_that_names_nothing() {
    let mut assembler = Assembler::new();
    assert_eq!(assembler.assemble("frobnicate $1"), Some(vec![20, 1, 0, 0]));
}

#[test]
fn assemble_refuses_what_is_no_program() {
    for text in [
        "",
        " ",
        " hlt",
        "hlt ???",
        "$0",
        "load $0 #100\nload $256 #1",
        "load $0 #2147483648",
        "add $0 $1 $2 $3",
        "add $0 $1 #2",
        "load $0 #100\nload $1 #1\nload $2 #0\ntest: inc $0\nneq $0 $2\njmpe @test\nhlt",
    ] {
        let mut assembler = Assembler::new();
        assert_eq!(assembler.assemble(text), None);
        assert_eq!(assembler.phase, AssemblerPhase::First);
        assert_eq!(assembler.symbols.symbols.len(), 0);
    }
}

#[test]
fn assemble_again_stays_in_the_second_pass() {
    let mut assembler = Assembler::new();
    assert_eq!(assembler.assemble("hlt"), Some(vec![5, 0, 0, 0]));
    assert_eq!(assembler.assemble("???"), None);
    assert_eq!(assembler.phase, AssemblerPhase::Second);
    assert_eq!(assembler.assemble("hlt\nhlt"), Some(vec![5, 0, 0, 0, 5, 0, 0, 0]));
    assert_eq!(assembler.phase, AssemblerPhase::Second);
}

#[test]
fn first_pass_gives_each_label_its_address() {
    let program = Program {
        instructions: vec![
            plain(Opcode::LOAD, reg(0), number(1), None),
            labelled("first"),
            plain(Opcode::HLT, None, None, None),
            labelled("second"),
        ],
    };
    let mut assembler = Assembler::new();
    assembler.process_first_phase(&program);
    assert_eq!(assembler.phase, AssemblerPhase::Second);
    assert_eq!(assembler.symbols.symbol_value("first"), Some(4));
    assert_eq!(assembler.symbols.symbol_value("second"), Some(12));
    assert_eq!(assembler.symbols.symbol_value("third"), None);
    assert_eq!(assembler.symbols.symbols.len(), 2);
}

#[test]
fn a_label_declared_twice_keeps_its_first_address() {
    let program = Program {
        instructions: vec![labelled("here"), labelled("there"), labelled("here")],
    };
    let mut assembler = Assembler::new();
    assembler.extract_labels(&program);
    assert_eq!(assembler.phase, AssemblerPhase::First);
    assert_eq!(assembler.symbols.symbols.len(), 3);
    assert_eq!(assembler.symbols.symbol_value("here"), Some(0));
    assert_eq!(assembler.symbols.symbol_value("there"), Some(4));
}

#[test]
fn a_name_that_the_table_holds_keeps_its_address() {
    let mut assembler = Assembler::new();
    assembler.symbols.add_symbol(Symbol::new("here".to_string(), SymbolType::Label, 400));
    let program = Program { instructions: vec![labelled("here")] };
    assembler.extract_labels(&program);
    assert_eq!(assembler.symbols.symbol_value("here"), Some(400));
}

#[test]
fn a_label_place_without_a_declaration_adds_nothing() {
    let mut odd = plain(Opcode::HLT, None, None, None);
    odd.label = Some(Token::LabelUsage { name: "x".to_string() });
    let program = Program { instructions: vec![odd, labelled("y")] };
    let mut assembler = Assembler::new();
    assembler.extract_labels(&program);
    assert_eq!(assembler.symbols.symbols.len(), 1);
    assert_eq!(assembler.symbols.symbol_value("x"), None);
    assert_eq!(assembler.symbols.symbol_value("y"), Some(4));
}

#[test]
fn second_pass_encodes_in_order_and_stops_at_the_first_error() {
    let assembler = Assembler::new();
    let good = Program {
        instructions: vec![labelled("a"), plain(Opcode::ADD, reg(1), reg(2), reg(3))],
    };
    assert_eq!(assembler.process_second_phase(&good), Ok(vec![5, 0, 0, 0, 1, 1, 2, 3]));

    let mut no_opcode = plain(Opcode::HLT, None, None, None);
    no_opcode.opcode = None;
    let bad = Program {
        instructions: vec![
            plain(Opcode::HLT, None, None, None),
            plain(Opcode::JMP, Some(Token::LabelUsage { name: "a".to_string() }), None, None),
            no_opcode,
        ],
    };
    assert_eq!(assembler.process_second_phase(&bad), Err(EncodeError::InvalidOperand));
    assert_eq!(assembler.process_second_phase(&Program { instructions: vec![] }), Ok(vec![]));
}

#[test]
fn the_machine_reads_what_the_assembler_writes() {
    let mut assembler = Assembler::new();
    let bytes = assembler.assemble("load $3 #500\nload $4 #65535\nhlt").unwrap();
    let mut vm = VM::new();
    vm.add_bytes(bytes);
    vm.run();
    assert_eq!(vm.registers[3], 500);
    assert_eq!(vm.registers[4], 65535);
    assert_eq!(vm.pc, 9);
}

#[test]
fn every_opcode_is_read_back_from_its_frame() {
    let symbols = SymbolTable::new();
    for number in 0..=20u8 {
        let code = Opcode::from(number);
        let frame = plain(code, reg(7), reg(8), reg(9)).to_bytes(&symbols).unwrap();
        assert_eq!(frame.len(), 4);
        assert_eq!(Opcode::from(frame[0]), code);
        assert_eq!(&frame[1..], &[7, 8, 9]);
    }
}

#[test]
fn text_beyond_ascii_is_parted_at_characters() {
    assert_eq!(register("\u{e9}"), Err(ParseError::Tag));
    assert_eq!(register("$\u{e9}"), Err(ParseError::Digit));
    assert_eq!(register("$1\u{e9}"), Ok(("\u{e9}", Token::Register { reg_num: 1 })));
    assert_eq!(register("\u{a0}$1"), Err(ParseError::Tag));
    assert_eq!(opcode_load("lo\u{e9}d"), Err(ParseError::Tag));
    assert_eq!(opcode_load("loa\u{1f600}"), Err(ParseError::Tag));
    assert_eq!(opcode_load("load\u{1f600}"), Ok(("\u{1f600}", Token::Op { code: Opcode::LOAD })));
    assert_eq!(opcode_load("\u{1f600}load"), Err(ParseError::Tag));
    // letters beyond ASCII are letters of an opcode word
    assert_eq!(opcode("hlt\u{e9} $0"), Ok((" $0", Token::Op { code: Opcode::IGL })));
    assert_eq!(integer_operand("#\u{663}"), Err(ParseError::Digit));
}

#[test]
fn assemble_takes_three_registers() {
    let mut assembler = Assembler::new();
    assert_eq!(
        assembler.assemble("load $0 #500\nload $1 #244\nadd $0 $1 $2"),
        Some(vec![0, 0, 1, 244, 0, 1, 0, 244, 1, 0, 1, 2])
    );
    assert_eq!(assembler.phase, AssemblerPhase::Second);
    for (line, opcode) in [("add", 1u8), ("sub", 2), ("mul", 3), ("div", 4)] {
        let mut assembler = Assembler::new();
        let text = format!("{} $7 $8 $9", line);
        assert_eq!(assembler.assemble(&text), Some(vec![opcode, 7, 8, 9]));
        assert_eq!(assembler.phase, AssemblerPhase::Second);
    }
}

#[test]
fn assembled_arithmetic_runs() {
    let cases = [
        ("load $0 #500\nload $1 #244\nadd $0 $1 $2", 744, 0u32),
        ("load $0 #500\nload $1 #244\nsub $0 $1 $2", 256, 0),
        ("load $0 #7\nload $1 #8\nmul $0 $1 $2", 56, 0),
        ("load $0 #8\nload $1 #5\ndiv $0 $1 $2", 1, 3),
    ];
    for (text, value, remainder) in cases {
        let bytes = Assembler::new().assemble(text).unwrap();
        assert_eq!(bytes.len(), 12);
        let mut vm = VM::new();
        vm.add_bytes(bytes);
        vm.run();
        assert_eq!(vm.registers[2], value);
        assert_eq!(vm.remainder, remainder);
        assert_eq!(vm.pc, 12);
    }
}
