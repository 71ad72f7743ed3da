use mips_assembler::cpu::alu::{alu, alu_control, AluOperation};
use mips_assembler::cpu::control_unit::{control_unit, AluOp, Mem, MemToReg, PCSrc, RegDst};
use mips_assembler::cpu::cpu_interface::RegisterKind;
use mips_assembler::cpu::data_memory::{data_load, data_store};
use mips_assembler::cpu::single_cycle_cpu::SingleCycleCPU;
use mips_assembler::cpu::utils::sign_extend;

const INST_BASE: u32 = 0x0040_0000;
const DATA_BASE: u32 = 0x1001_0000;

fn addi(rt: u32, rs: u32, imm: u32) -> u32 {
    (0x08 << 26) | (rs << 21) | (rt << 16) | (imm & 0xFFFF)
}

fn rtype(rd: u32, rs: u32, rt: u32, funct: u32) -> u32 {
    (rs << 21) | (rt << 16) | (rd << 11) | funct
}

#[test]
fn sign_extension() {
    assert_eq!(sign_extend(0x8000, 16), -32768);
    assert_eq!(sign_extend(0x7FFF, 16), 32767);
    assert_eq!(sign_extend(0xFFFF, 16), -1);
    assert_eq!(sign_extend(0xFF, 8), -1);
    assert_eq!(sign_extend(5, 32), 5);
    assert_eq!(sign_extend(5, 0), 5);
}

#[test]
fn alu_operations() {
    assert_eq!(alu(5, 7, 0, AluOperation::Add), 12);
    assert_eq!(alu(0, 1, 0, AluOperation::Subu), 0xFFFF_FFFF);
    assert_eq!(alu(u32::MAX, 1, 0, AluOperation::Addu), 0);
    assert_eq!(alu(12, 10, 0, AluOperation::And), 8);
    assert_eq!(alu(12, 10, 0, AluOperation::Or), 14);
    assert_eq!(alu(0, 0, 0, AluOperation::Nor), 0xFFFF_FFFF);
    assert_eq!(alu(0xFFFF_FFFF, 0, 0, AluOperation::Slt), 1);
    assert_eq!(alu(0xFFFF_FFFF, 0, 0, AluOperation::Sltu), 0);
    assert_eq!(alu(1, 0, 4, AluOperation::Sll), 16);
    assert_eq!(alu(16, 0, 4, AluOperation::Srl), 1);
    assert_eq!(alu(3, 9, 0, AluOperation::Nothing), 0);
}

#[test]
fn alu_control_resolution() {
    assert!(matches!(alu_control(AluOp::RType, 0x20), AluOperation::Add));
    assert!(matches!(alu_control(AluOp::RType, 0x22), AluOperation::Sub));
    assert!(matches!(alu_control(AluOp::RType, 0x00), AluOperation::Sll));
    assert!(matches!(alu_control(AluOp::Add, 0x3F), AluOperation::Add));
    assert!(matches!(alu_control(AluOp::Nothing, 0x3F), AluOperation::Nothing));
}

#[test]
fn control_unit_signals() {
    let lw = control_unit(0x23, 0);
    assert!(matches!(lw.mem_read, Mem::Word));
    assert!(matches!(lw.mem_to_reg, MemToReg::MemoryRead));
    assert!(lw.reg_write && lw.alu_src);

    let sw = control_unit(0x2B, 0);
    assert!(matches!(sw.mem_write, Mem::Word));
    assert!(!sw.reg_write);

    let beq = control_unit(0x04, 0);
    assert!(matches!(beq.pc_src, PCSrc::PCBranch));
    assert!(matches!(beq.alu_op, AluOp::Sub));

    let jr = control_unit(0x00, 0x08);
    assert!(matches!(jr.pc_src, PCSrc::RegJump));
    assert!(!jr.reg_write);

    let jal = control_unit(0x03, 0);
    assert!(matches!(jal.reg_dst, RegDst::RA));
    assert!(jal.reg_write);

    let lui = control_unit(0x0F, 0);
    assert!(matches!(lui.mem_to_reg, MemToReg::ImmLeftShift16));
}

#[test]
fn loads_assemble_little_endian() {
    let mem: Vec<u8> = vec![1, 2, 3, 4];
    assert_eq!(data_load(&mem, DATA_BASE, Mem::Word), Some(0x0403_0201));
    assert_eq!(data_load(&mem, DATA_BASE, Mem::Half), Some(0x0201));
    assert_eq!(data_load(&mem, DATA_BASE, Mem::Byte), Some(1));
    assert_eq!(data_load(&mem, DATA_BASE + 4, Mem::Byte), None);
    assert_eq!(data_load(&mem, DATA_BASE + 4, Mem::Word), None);
    assert_eq!(data_load(&mem, DATA_BASE + 1, Mem::Word), None);
    assert_eq!(data_load(&mem, DATA_BASE + 3, Mem::Half), None);
    assert_eq!(data_load(&mem, DATA_BASE, Mem::Nothing), None);
}

#[test]
fn stores_scatter_little_endian_bytes() {
    let mut mem: Vec<u8> = vec![0; 8];
    assert!(data_store(&mut mem, 0x0102_0304, DATA_BASE, Mem::Word).is_ok());
    assert_eq!(&mem[0..4], &[4, 3, 2, 1]);
    assert!(data_store(&mut mem, 0xBBAA, DATA_BASE + 4, Mem::Half).is_ok());
    assert_eq!(&mem[4..6], &[0xAA, 0xBB]);
    assert!(data_store(&mut mem, 0xCC, DATA_BASE + 7, Mem::Byte).is_ok());
    assert_eq!(mem[7], 0xCC);
    // A store with any byte out of range fails whole and writes nothing.
    assert!(data_store(&mut mem, 1, DATA_BASE + 8, Mem::Byte).is_err());
    assert!(data_store(&mut mem, 0xFFFF_FFFF, DATA_BASE + 6, Mem::Word).is_err());
    assert_eq!(&mem[6..8], &[0, 0xCC]);
}

#[test]
fn store_load_round_trip() {
    let mut mem: Vec<u8> = vec![0; 8];
    assert!(data_store(&mut mem, 300000, DATA_BASE, Mem::Word).is_ok());
    assert_eq!(&mem[0..4], &[224, 147, 4, 0]);
    assert_eq!(data_load(&mem, DATA_BASE, Mem::Word), Some(300000));
    assert!(data_store(&mut mem, 1300, DATA_BASE + 4, Mem::Half).is_ok());
    assert_eq!(&mem[4..6], &[20, 5]);
    assert_eq!(data_load(&mem, DATA_BASE + 4, Mem::Half), Some(1300));
}

#[test]
fn datapath_immediate_and_rtype() {
    let program = vec![
        addi(8, 0, 5),
        addi(9, 0, 7),
        rtype(10, 8, 9, 0x20),
    ];
    let mut cpu = SingleCycleCPU::new_from_memory(program, vec![0; 64]);
    cpu.step();
    cpu.step();
    cpu.step();
    assert!(cpu.get_error().is_none());
    assert_eq!(cpu.get_register(RegisterKind::Reg08), 5);
    assert_eq!(cpu.get_register(RegisterKind::Reg09), 7);
    assert_eq!(cpu.get_register(RegisterKind::Reg10), 12);
    assert_eq!(cpu.get_register(RegisterKind::RegPC), INST_BASE + 12);
}

#[test]
fn datapath_lui_and_memory() {
    let program = vec![
        (0x0F << 26) | (8 << 16) | 0x1001,
        (0x08 << 26) | (0 << 21) | (9 << 16) | 0x0102,
        (0x2B << 26) | (8 << 21) | (9 << 16) | 4,
        (0x23 << 26) | (8 << 21) | (10 << 16) | 4,
    ];
    let mut cpu = SingleCycleCPU::new_from_memory(program, vec![0; 16]);
    cpu.step();
    assert_eq!(cpu.get_register(RegisterKind::Reg08), 0x1001_0000);
    cpu.step();
    cpu.step();
    assert!(cpu.get_error().is_none());
    assert_eq!(cpu.get_memory_byte(4), Some(2));
    assert_eq!(cpu.get_memory_byte(5), Some(1));
    cpu.step();
    assert!(cpu.get_error().is_none());
    assert_eq!(cpu.get_register(RegisterKind::Reg10), 0x0102);
}

#[test]
fn datapath_branch_and_fetch_errors() {
    let program = vec![
        (0x04 << 26) | (0 << 21) | (0 << 16) | 4,
    ];
    let mut cpu = SingleCycleCPU::new_from_memory(program, vec![0; 16]);
    cpu.step();
    assert!(cpu.get_error().is_none());
    cpu.step();
    assert_eq!(cpu.get_error().unwrap(), "Out of range instruction");
}

#[test]
fn datapath_rejects_unknown_encodings() {
    let mut cpu = SingleCycleCPU::new_from_memory(vec![0xFFFF_FFFF], vec![0; 16]);
    cpu.step();
    assert_eq!(cpu.get_error().unwrap(), "unhandled opcode");

    let mut cpu2 = SingleCycleCPU::new_from_memory(vec![rtype(1, 2, 3, 0x3F)], vec![0; 16]);
    cpu2.step();
    assert_eq!(cpu2.get_error().unwrap(), "unhandled function code");
}

#[test]
fn datapath_jump_and_link_and_register_jump() {
    // jal: the program counter takes the shifted 26-bit target merged with
    // the high bits of the incremented counter, and $ra latches the ALU
    // result of the unused compare.
    let jal = (0x03 << 26) | 0x10_0000;
    let mut cpu = SingleCycleCPU::new_from_memory(vec![jal], vec![0; 16]);
    cpu.step();
    assert!(cpu.get_error().is_none());
    assert_eq!(cpu.get_register(RegisterKind::RegPC), INST_BASE);
    assert_eq!(cpu.get_register(RegisterKind::Reg31), 0);

    // jr: the next program counter takes the value in the rs register.
    let program = vec![
        addi(5, 0, 0x4008),
        (5 << 21) | 0x08,
    ];
    let mut cpu2 = SingleCycleCPU::new_from_memory(program, vec![0; 16]);
    cpu2.step();
    cpu2.step();
    assert!(cpu2.get_error().is_none());
    assert_eq!(cpu2.get_register(RegisterKind::RegPC), 0x4008);
}

#[test]
fn datapath_halts_for_good() {
    let mut cpu = SingleCycleCPU::new_from_memory(vec![0xFFFF_FFFF, addi(8, 0, 1)], vec![0; 16]);
    cpu.step();
    assert_eq!(cpu.get_error().unwrap(), "unhandled opcode");
    let pc = cpu.get_register(RegisterKind::RegPC);
    for _ in 0..3 {
        cpu.step();
        assert_eq!(cpu.get_error().unwrap(), "unhandled opcode");
        assert_eq!(cpu.get_register(RegisterKind::RegPC), pc);
        assert_eq!(cpu.get_register(RegisterKind::Reg08), 0);
    }
}

#[test]
fn datapath_bne() {
    let program = vec![
        addi(8, 0, 1),
        (0x05 << 26) | (8 << 21) | (0 << 16) | 0xFFFE,
    ];
    let mut cpu = SingleCycleCPU::new_from_memory(program, vec![0; 16]);
    cpu.step();
    cpu.step();
    assert!(cpu.get_error().is_none());
    assert_eq!(cpu.get_register(RegisterKind::RegPC), INST_BASE + 4 - 8);
}

#[test]
fn datapath_starts_quiescent() {
    let cpu = SingleCycleCPU::new();
    assert_eq!(cpu.get_memory_size(), 16);
    assert_eq!(cpu.get_instruction_size(), 0);
    assert!(cpu.get_error().is_none());
    assert_eq!(cpu.get_register(RegisterKind::RegPC), INST_BASE);
    assert!(!cpu.get_control_signals().reg_write);
    assert!(matches!(cpu.get_alu_signals(), AluOperation::Nothing));
}
