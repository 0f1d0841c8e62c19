use regvm::assembler::instruction_parsers::{
    instruction_one, instruction_three, instruction_two_int, instruction_two_reg,
    instruction_zero, AssemblerInstruction,
};
use regvm::assembler::opcode_parsers::{opcode, opcode_load};
use regvm::assembler::operand_parsers::integer_operand;
use regvm::assembler::register_parsers::register;
use regvm::assembler::Token;
use regvm::instruction::Opcode;

#[test]
fn test_parse_instruction_form_two() {
    let result = instruction_two_int("load $0 #100\n");
    assert_eq!(
        result,
        Ok((
            "",
            AssemblerInstruction {
                opcode: Some(Token::Op { code: Opcode::LOAD }),
                label: None,
                directive: None,
                operand1: Some(Token::Register { reg_num: 0 }),
                operand2: Some(Token::IntegerOperand { value: 100 }),
                operand3: None
            }
        ))
    );

    let result = instruction_two_reg("eq $0 $1\n");
    assert_eq!(
        result,
        Ok((
            "",
            AssemblerInstruction {
                opcode: Some(Token::Op { code: Opcode::EQ }),
                label: None,
                directive: None,
                operand1: Some(Token::Register { reg_num: 0 }),
                operand2: Some(Token::Register { reg_num: 1 }),
                operand3: None
            }
        ))
    );
}

#[test]
fn test_parse_instruction_form_zero() {
    let result = instruction_zero("hlt\n");
    assert_eq!(
        result,
        Ok((
            "",
            AssemblerInstruction {
                opcode: Some(Token::Op { code: Opcode::HLT }),
                label: None,
                directive: None,
                operand1: None,
                operand2: None,
                operand3: None
            }
        ))
    );
}

#[test]
fn test_parse_instruction_form_one() {
    let result = instruction_one("jmp $0\n");
    assert_eq!(
        result,
        Ok((
            "",
            AssemblerInstruction {
                opcode: Some(Token::Op { code: Opcode::JMP }),
                label: None,
                directive: None,
                operand1: Some(Token::Register { reg_num: 0 }),
                operand2: None,
                operand3: None
            }
        ))
    );
}

#[test]
fn test_parse_instruction_form_three() {
    let result = instruction_three("add $0 $1 $2\n");
    assert_eq!(
        result,
        Ok((
            "",
            AssemblerInstruction {
                opcode: Some(Token::Op { code: Opcode::ADD }),
                label: None,
                directive: None,
                operand1: Some(Token::Register { reg_num: 0 }),
                operand2: Some(Token::Register { reg_num: 1 }),
                operand3: Some(Token::Register { reg_num: 2 })
            }
        ))
    );
}

#[test]
fn test_opcode_load() {
    // First tests that the opcode is detected and parsed correctly
    let result = opcode_load("load");
    assert_eq!(result.is_ok(), true);
    let (rest, token) = result.unwrap();
    assert_eq!(token, Token::Op { code: Opcode::LOAD });
    assert_eq!(rest, "");

    // Tests that an invalid opcode isn't recognized
    let result = opcode_load("aold");
    assert_eq!(result.is_ok(), false);
}

#[test]
fn test_opcode() {
    let result = opcode("load");
    assert_eq!(result.is_ok(), true);
    let (rest, token) = result.unwrap();
    assert_eq!(token, Token::Op { code: Opcode::LOAD });
    assert_eq!(rest, "");
    let result = opcode("aold");
    let (_, token) = result.unwrap();
    assert_eq!(token, Token::Op { code: Opcode::IGL });
}

#[test]
fn test_parse_integer_operand() {
    let result = integer_operand("#123");
    assert_eq!(result.is_ok(), true);
    let (_, token) = result.unwrap();
    assert_eq!(token, Token::IntegerOperand { value: 123 });

    let result = integer_operand("#a");
    assert_eq!(result.is_ok(), false);

    let result = integer_operand("123");
    assert_eq!(result.is_ok(), false);
}

#[test]
fn test_parse_register() {
    let res = register("$0");
    assert_eq!(res.is_ok(), true);
    let res = register("0");
    assert_eq!(res.is_ok(), false);
    let res = register("$a");
    assert_eq!(res.is_ok(), false);
    let res = register("$");
    assert_eq!(res.is_ok(), false);
}
