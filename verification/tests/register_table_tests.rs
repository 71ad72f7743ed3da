use mips_assembler::lexer::tokenize;
use mips_assembler::parser::parse;
use mips_assembler::util::get_valid_register;
use mips_assembler::virtual_machine_interface::RegisterKind;

#[test]
fn numeric_and_symbolic_aliases_agree() {
    assert_eq!(get_valid_register("$0"), Some(RegisterKind::Reg00));
    assert_eq!(get_valid_register("$zero"), Some(RegisterKind::Reg00));
    assert_eq!(get_valid_register("$t0"), Some(RegisterKind::Reg08));
    assert_eq!(get_valid_register("$8"), Some(RegisterKind::Reg08));
    assert_eq!(get_valid_register("$sp"), Some(RegisterKind::Reg29));
    assert_eq!(get_valid_register("$ra"), Some(RegisterKind::Reg31));
    assert_eq!(get_valid_register("$pc"), Some(RegisterKind::RegPC));
    assert_eq!(get_valid_register("$hi"), Some(RegisterKind::RegHi));
    assert_eq!(get_valid_register("$lo"), Some(RegisterKind::RegLo));
    assert_eq!(get_valid_register("$t10"), None);
    assert_eq!(get_valid_register("zero"), None);
    assert_eq!(get_valid_register(""), None);
}

#[test]
fn special_registers_rejected_as_operands() {
    assert!(matches!(parse(tokenize(".text\nadd $pc, $t0, 1\n").unwrap()), Err(..)));
    assert!(matches!(parse(tokenize(".text\nadd $hi, $t0, 1\n").unwrap()), Err(..)));
    assert!(matches!(parse(tokenize(".text\nmfhi $lo\n").unwrap()), Err(..)));
}
