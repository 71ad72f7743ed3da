use mips_assembler::lexer::tokenize;
use mips_assembler::numbers::get_valid_address;
use mips_assembler::parser::{parse, parse_vm};
use mips_assembler::virtual_machine_interface::RegisterKind;

#[test]
fn halted_machine_never_changes() {
    let data = ".text\nadd $t0, $t0, 2147483647\nadd $t0, $t0, 1\n";
    let mut vm = parse_vm(tokenize(data).unwrap()).unwrap();
    vm.step();
    assert_eq!(vm.get_register(RegisterKind::Reg08), 2147483647);
    vm.step();
    assert!(vm.is_error());
    assert_eq!(vm.get_error(), "Integer overflow performing addition");
    let reg_before = vm.get_register(RegisterKind::Reg08);
    let pc_before = vm.get_register(RegisterKind::RegPC);
    let mem_before = vm.get_memory_byte(0);
    for _ in 0..5 {
        vm.step();
        assert!(vm.is_error());
        assert_eq!(vm.get_error(), "Integer overflow performing addition");
        assert_eq!(vm.get_register(RegisterKind::Reg08), reg_before);
        assert_eq!(vm.get_register(RegisterKind::RegPC), pc_before);
        assert_eq!(vm.get_memory_byte(0), mem_before);
    }
}

#[test]
fn out_of_bounds_store_is_reported() {
    let data = ".text\nadd $t0, $t0, 7\nsw $t0, 1022\n";
    let mut vm = parse_vm(tokenize(data).unwrap()).unwrap();
    vm.step();
    vm.step();
    assert!(vm.is_error());
    assert_eq!(vm.get_error(), "Attempted to store to invalid memory address");
    for a in 0..1024 {
        assert_eq!(vm.get_memory_byte(a).unwrap(), 0);
    }
}

#[test]
fn out_of_bounds_load_is_reported() {
    let data = ".text\nlw $t0, 1021\n";
    let mut vm = parse_vm(tokenize(data).unwrap()).unwrap();
    vm.step();
    assert!(vm.is_error());
    assert_eq!(vm.get_error(), "Attempted to load from invalid memory address");
}

#[test]
fn program_counter_out_of_range() {
    let data = ".text\nnop\n";
    let mut vm = parse_vm(tokenize(data).unwrap()).unwrap();
    vm.step();
    assert!(!vm.is_error());
    vm.step();
    assert!(vm.is_error());
    assert_eq!(vm.get_error(), "Program counter out of range");
}

#[test]
fn division_by_zero_only_advances() {
    let data = ".text\nadd $t0, $t0, 5\ndiv $t1, $t0, 0\n";
    let mut vm = parse_vm(tokenize(data).unwrap()).unwrap();
    vm.step();
    vm.step();
    assert!(!vm.is_error());
    assert_eq!(vm.get_register(RegisterKind::Reg09), 0);
    assert_eq!(vm.get_register(RegisterKind::RegPC), 2);
}

#[test]
fn division_writes_quotient_and_remainder() {
    let data = ".text\nadd $t0, $t0, 7\nadd $t1, $t1, 2\ndiv $t2, $t0, $t1\n";
    let mut vm = parse_vm(tokenize(data).unwrap()).unwrap();
    vm.step();
    vm.step();
    vm.step();
    assert_eq!(vm.get_register(RegisterKind::Reg10), 3);
    assert_eq!(vm.get_register(RegisterKind::RegLo), 3);
    assert_eq!(vm.get_register(RegisterKind::RegHi), 1);
}

#[test]
fn remainder_sign_extends_into_hi() {
    let data = ".text\nsub $t0, $t0, 7\nadd $t1, $t1, 2\nrem $t2, $t0, $t1\n";
    let mut vm = parse_vm(tokenize(data).unwrap()).unwrap();
    vm.step();
    vm.step();
    vm.step();
    assert!(!vm.is_error());
    assert_eq!(vm.get_register(RegisterKind::Reg10), 0xFFFF_FFFF);
    assert_eq!(vm.get_register(RegisterKind::RegHi), 0xFFFF_FFFF);
    assert_eq!(vm.get_register(RegisterKind::RegLo), 0xFFFF_FFFF);
}

#[test]
fn hi_lo_transfers() {
    let data = ".text\nadd $t0, $t0, 6\nmult $t0, $t0\nmflo $t1\nmfhi $t2\n";
    let mut vm = parse_vm(tokenize(data).unwrap()).unwrap();
    for _ in 0..4 {
        vm.step();
    }
    assert!(!vm.is_error());
    assert_eq!(vm.get_register(RegisterKind::Reg09), 36);
    assert_eq!(vm.get_register(RegisterKind::Reg10), 0);
}

#[test]
fn logical_family() {
    let data = ".text\nadd $t0, $t0, 12\nadd $t1, $t1, 10\nand $t2, $t0, $t1\nor $t3, $t0, $t1\nxor $t4, $t0, $t1\nnot $t5, $t0\n";
    let mut vm = parse_vm(tokenize(data).unwrap()).unwrap();
    for _ in 0..6 {
        vm.step();
    }
    assert!(!vm.is_error());
    assert_eq!(vm.get_register(RegisterKind::Reg10), 8);
    assert_eq!(vm.get_register(RegisterKind::Reg11), 14);
    assert_eq!(vm.get_register(RegisterKind::Reg12), 6);
    assert_eq!(vm.get_register(RegisterKind::Reg13), !12u32);
}

#[test]
fn unsigned_arithmetic_wraps() {
    let data = ".text\nsubu $t0, $t0, 1\naddu $t1, $t0, 1\n";
    let mut vm = parse_vm(tokenize(data).unwrap()).unwrap();
    vm.step();
    vm.step();
    assert!(!vm.is_error());
    assert_eq!(vm.get_register(RegisterKind::Reg08), 0xFFFF_FFFF);
    assert_eq!(vm.get_register(RegisterKind::Reg09), 0);
}

#[test]
fn constants_substitute_for_immediates() {
    let data = ".data\nK = 41\n.text\nli $t0, K\nadd $t1, $t0, 1\n";
    let mut vm = parse_vm(tokenize(data).unwrap()).unwrap();
    vm.step();
    vm.step();
    assert!(!vm.is_error());
    assert_eq!(vm.get_register(RegisterKind::Reg09), 42);
}

#[test]
fn half_word_layouts_are_little_endian() {
    let data = ".data\nv: .half -2\nw: .word -2\n";
    let vm = parse_vm(tokenize(data).unwrap()).unwrap();
    assert_eq!(vm.get_memory_byte(0).unwrap(), 0xFE);
    assert_eq!(vm.get_memory_byte(1).unwrap(), 0xFF);
    assert_eq!(vm.get_memory_byte(2).unwrap(), 0xFE);
    assert_eq!(vm.get_memory_byte(3).unwrap(), 0xFF);
    assert_eq!(vm.get_memory_byte(4).unwrap(), 0xFF);
    assert_eq!(vm.get_memory_byte(5).unwrap(), 0xFF);
}

#[test]
fn ascii_layouts() {
    let data = ".data\na: .ascii \"AB\"\nz: .asciiz \"C\"\n";
    let vm = parse_vm(tokenize(data).unwrap()).unwrap();
    assert_eq!(vm.get_memory_byte(0).unwrap(), b'A');
    assert_eq!(vm.get_memory_byte(1).unwrap(), b'B');
    assert_eq!(vm.get_memory_byte(2).unwrap(), b'C');
    assert_eq!(vm.get_memory_byte(3).unwrap(), 0);
}

#[test]
fn data_segment_capacity_is_enforced() {
    let data = ".data\n.space 1024\n.byte 1\n";
    assert!(matches!(parse(tokenize(data).unwrap()), Err(..)));
}

#[test]
fn section_annotation_error_names_the_line() {
    let data = "nop\n";
    let err = parse(tokenize(data).unwrap()).unwrap_err();
    assert_eq!(err, "Error:1:section annotation");
}

#[test]
fn valid_addresses() {
    assert_eq!(get_valid_address("&10"), Some(10));
    assert_eq!(get_valid_address("&0x1A"), Some(26));
    assert_eq!(get_valid_address("&0xff"), Some(255));
    assert_eq!(get_valid_address("10"), None);
    assert_eq!(get_valid_address("&0xZZ"), None);
    assert_eq!(get_valid_address("&"), None);
    assert_eq!(get_valid_address("&4294967295"), Some(u32::MAX));
    assert_eq!(get_valid_address("&4294967296"), None);
}
