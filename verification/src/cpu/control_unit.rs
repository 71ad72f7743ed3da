//! The control unit: a pure function from opcode and function code to the
//! datapath's steering signals.

use crate::cpu::{BEQ_OPCODE, BNE_OPCODE, JR_FUNCT};
use vstd::prelude::*;

verus! {

/// The class of operation the ALU control resolves further.
#[derive(Debug, Clone, Copy, PartialEq, Eq, Structural)]
pub enum AluOp {
    RType,
    Add,
    Addu,
    Sub,
    And,
    Or,
    Slt,
    Sltu,
    Nothing,
}

/// What the register file writes back.
#[derive(Debug, Clone, Copy, PartialEq, Eq, Structural)]
pub enum MemToReg {
    ALUResult,
    MemoryRead,
    PCInc,
    ImmLeftShift16,
}

/// How the next program counter is chosen.
#[derive(Debug, Clone, Copy, PartialEq, Eq, Structural)]
pub enum PCSrc {
    PC,
    PCBranch,
    Jump,
    RegJump,
}

/// Which field selects the destination register.
#[derive(Debug, Clone, Copy, PartialEq, Eq, Structural)]
pub enum RegDst {
    RT,
    RD,
    RA,
}

/// The width of a memory access.
#[derive(Debug, Clone, Copy, PartialEq, Eq, Structural)]
pub enum Mem {
    Nothing,
    Byte,
    Half,
    Word,
}

/// The full set of steering signals one instruction produces.
#[derive(Debug, Clone, Copy, PartialEq, Eq, Structural)]
pub struct ControlUnitOutput {
    pub reg_dst: RegDst,
    pub alu_src: bool,
    pub mem_to_reg: MemToReg,
    pub reg_write: bool,
    pub mem_read: Mem,
    pub mem_write: Mem,
    pub pc_src: PCSrc,
    pub alu_op: AluOp,
}

impl Default for ControlUnitOutput {
    /// The quiescent signal set: write nothing, read nothing, fall through.
    fn default() -> (r: ControlUnitOutput)
        ensures
            r == ControlUnitOutput::quiescent(),
    {
        ControlUnitOutput {
            reg_dst: RegDst::RT,
            alu_src: false,
            mem_to_reg: MemToReg::ALUResult,
            reg_write: false,
            mem_read: Mem::Nothing,
            mem_write: Mem::Nothing,
            pc_src: PCSrc::PC,
            alu_op: AluOp::Nothing,
        }
    }
}

impl ControlUnitOutput {
    pub open spec fn quiescent() -> ControlUnitOutput {
        ControlUnitOutput {
            reg_dst: RegDst::RT,
            alu_src: false,
            mem_to_reg: MemToReg::ALUResult,
            reg_write: false,
            mem_read: Mem::Nothing,
            mem_write: Mem::Nothing,
            pc_src: PCSrc::PC,
            alu_op: AluOp::Nothing,
        }
    }
}

/// The opcodes the control unit decodes.
pub open spec fn known_opcode(opcode: u32) -> bool {
    opcode == 0x00 || opcode == 0x23 || opcode == 0x24 || opcode == 0x25 || opcode == 0x30
        || opcode == 0x2B || opcode == 0x28 || opcode == 0x38 || opcode == 0x29 || opcode
        == BEQ_OPCODE || opcode == BNE_OPCODE || opcode == 0x08 || opcode == 0x09 || opcode == 0x0C
        || opcode == 0x0F || opcode == 0x0D || opcode == 0x0A || opcode == 0x0B || opcode == 0x02
        || opcode == 0x03
}

/// What the control unit emits for each decoded opcode.
pub open spec fn spec_control_unit(opcode: u32, function: u32) -> ControlUnitOutput {
    if opcode == 0x00 {
        if function == JR_FUNCT {
            ControlUnitOutput {
                reg_dst: RegDst::RD,
                alu_src: false,
                mem_to_reg: MemToReg::ALUResult,
                reg_write: false,
                mem_read: Mem::Nothing,
                mem_write: Mem::Nothing,
                pc_src: PCSrc::RegJump,
                alu_op: AluOp::RType,
            }
        } else {
            ControlUnitOutput {
                reg_dst: RegDst::RD,
                alu_src: false,
                mem_to_reg: MemToReg::ALUResult,
                reg_write: true,
                mem_read: Mem::Nothing,
                mem_write: Mem::Nothing,
                pc_src: PCSrc::PC,
                alu_op: AluOp::RType,
            }
        }
    } else if opcode == 0x23 || opcode == 0x30 {
        ControlUnitOutput {
            reg_dst: RegDst::RT,
            alu_src: true,
            mem_to_reg: MemToReg::MemoryRead,
            reg_write: true,
            mem_read: Mem::Word,
            mem_write: Mem::Nothing,
            pc_src: PCSrc::PC,
            alu_op: AluOp::Add,
        }
    } else if opcode == 0x24 {
        ControlUnitOutput {
            reg_dst: RegDst::RT,
            alu_src: true,
            mem_to_reg: MemToReg::MemoryRead,
            reg_write: true,
            mem_read: Mem::Byte,
            mem_write: Mem::Nothing,
            pc_src: PCSrc::PC,
            alu_op: AluOp::Add,
        }
    } else if opcode == 0x25 {
        ControlUnitOutput {
            reg_dst: RegDst::RT,
            alu_src: true,
            mem_to_reg: MemToReg::MemoryRead,
            reg_write: true,
            mem_read: Mem::Half,
            mem_write: Mem::Nothing,
            pc_src: PCSrc::PC,
            alu_op: AluOp::Add,
        }
    } else if opcode == 0x2B || opcode == 0x38 {
        ControlUnitOutput {
            reg_dst: RegDst::RT,
            alu_src: true,
            mem_to_reg: MemToReg::ALUResult,
            reg_write: false,
            mem_read: Mem::Nothing,
            mem_write: Mem::Word,
            pc_src: PCSrc::PC,
            alu_op: AluOp::Add,
        }
    } else if opcode == 0x28 {
        ControlUnitOutput {
            reg_dst: RegDst::RT,
            alu_src: true,
            mem_to_reg: MemToReg::ALUResult,
            reg_write: false,
            mem_read: Mem::Nothing,
            mem_write: Mem::Byte,
            pc_src: PCSrc::PC,
            alu_op: AluOp::Add,
        }
    } else if opcode == 0x29 {
        ControlUnitOutput {
            reg_dst: RegDst::RT,
            alu_src: true,
            mem_to_reg: MemToReg::ALUResult,
            reg_write: false,
            mem_read: Mem::Nothing,
            mem_write: Mem::Half,
            pc_src: PCSrc::PC,
            alu_op: AluOp::Add,
        }
    } else if opcode == BEQ_OPCODE || opcode == BNE_OPCODE {
        ControlUnitOutput {
            reg_dst: RegDst::RT,
            alu_src: false,
            mem_to_reg: MemToReg::ALUResult,
            reg_write: false,
            mem_read: Mem::Nothing,
            mem_write: Mem::Nothing,
            pc_src: PCSrc::PCBranch,
            alu_op: AluOp::Sub,
        }
    } else if opcode == 0x08 {
        ControlUnitOutput {
            reg_dst: RegDst::RT,
            alu_src: true,
            mem_to_reg: MemToReg::ALUResult,
            reg_write: true,
            mem_read: Mem::Nothing,
            mem_write: Mem::Nothing,
            pc_src: PCSrc::PC,
            alu_op: AluOp::Add,
        }
    } else if opcode == 0x09 {
        ControlUnitOutput {
            reg_dst: RegDst::RT,
            alu_src: true,
            mem_to_reg: MemToReg::ALUResult,
            reg_write: true,
            mem_read: Mem::Nothing,
            mem_write: Mem::Nothing,
            pc_src: PCSrc::PC,
            alu_op: AluOp::Addu,
        }
    } else if opcode == 0x0C {
        ControlUnitOutput {
            reg_dst: RegDst::RT,
            alu_src: true,
            mem_to_reg: MemToReg::ALUResult,
            reg_write: true,
            mem_read: Mem::Nothing,
            mem_write: Mem::Nothing,
            pc_src: PCSrc::PC,
            alu_op: AluOp::And,
        }
    } else if opcode == 0x0F {
        ControlUnitOutput {
            reg_dst: RegDst::RT,
            alu_src: false,
            mem_to_reg: MemToReg::ImmLeftShift16,
            reg_write: true,
            mem_read: Mem::Nothing,
            mem_write: Mem::Nothing,
            pc_src: PCSrc::PC,
            alu_op: AluOp::Nothing,
        }
    } else if opcode == 0x0D {
        ControlUnitOutput {
            reg_dst: RegDst::RT,
            alu_src: true,
            mem_to_reg: MemToReg::ALUResult,
            reg_write: true,
            mem_read: Mem::Nothing,
            mem_write: Mem::Nothing,
            pc_src: PCSrc::PC,
            alu_op: AluOp::Or,
        }
    } else if opcode == 0x0A {
        ControlUnitOutput {
            reg_dst: RegDst::RT,
            alu_src: true,
            mem_to_reg: MemToReg::ALUResult,
            reg_write: true,
            mem_read: Mem::Nothing,
            mem_write: Mem::Nothing,
            pc_src: PCSrc::PC,
            alu_op: AluOp::Slt,
        }
    } else if opcode == 0x0B {
        ControlUnitOutput {
            reg_dst: RegDst::RT,
            alu_src: true,
            mem_to_reg: MemToReg::ALUResult,
            reg_write: true,
            mem_read: Mem::Nothing,
            mem_write: Mem::Nothing,
            pc_src: PCSrc::PC,
            alu_op: AluOp::Sltu,
        }
    } else if opcode == 0x02 {
        ControlUnitOutput {
            reg_dst: RegDst::RD,
            alu_src: false,
            mem_to_reg: MemToReg::ALUResult,
            reg_write: false,
            mem_read: Mem::Nothing,
            mem_write: Mem::Nothing,
            pc_src: PCSrc::Jump,
            alu_op: AluOp::Sltu,
        }
    } else {
        ControlUnitOutput {
            reg_dst: RegDst::RA,
            alu_src: false,
            mem_to_reg: MemToReg::ALUResult,
            reg_write: true,
            mem_read: Mem::Nothing,
            mem_write: Mem::Nothing,
            pc_src: PCSrc::Jump,
            alu_op: AluOp::Sltu,
        }
    }
}

/// Maps an opcode and function code to the instruction's steering signals.
/// Only the decoded opcodes are accepted; the caller guards the rest.
pub fn control_unit(opcode: u32, function: u32) -> (r: ControlUnitOutput)
    requires
        known_opcode(opcode),
    ensures
        r == spec_control_unit(opcode, function),
{
    if opcode == 0x00 {
        if function == JR_FUNCT {
            ControlUnitOutput {
                reg_dst: RegDst::RD,
                alu_src: false,
                mem_to_reg: MemToReg::ALUResult,
                reg_write: false,
                mem_read: Mem::Nothing,
                mem_write: Mem::Nothing,
                pc_src: PCSrc::RegJump,
                alu_op: AluOp::RType,
            }
        } else {
            ControlUnitOutput {
                reg_dst: RegDst::RD,
                alu_src: false,
                mem_to_reg: MemToReg::ALUResult,
                reg_write: true,
                mem_read: Mem::Nothing,
                mem_write: Mem::Nothing,
                pc_src: PCSrc::PC,
                alu_op: AluOp::RType,
            }
        }
    } else if opcode == 0x23 || opcode == 0x30 {
        ControlUnitOutput {
            reg_dst: RegDst::RT,
            alu_src: true,
            mem_to_reg: MemToReg::MemoryRead,
            reg_write: true,
            mem_read: Mem::Word,
            mem_write: Mem::Nothing,
            pc_src: PCSrc::PC,
            alu_op: AluOp::Add,
        }
    } else if opcode == 0x24 {
        ControlUnitOutput {
            reg_dst: RegDst::RT,
            alu_src: true,
            mem_to_reg: MemToReg::MemoryRead,
            reg_write: true,
            mem_read: Mem::Byte,
            mem_write: Mem::Nothing,
            pc_src: PCSrc::PC,
            alu_op: AluOp::Add,
        }
    } else if opcode == 0x25 {
        ControlUnitOutput {
            reg_dst: RegDst::RT,
            alu_src: true,
            mem_to_reg: MemToReg::MemoryRead,
            reg_write: true,
            mem_read: Mem::Half,
            mem_write: Mem::Nothing,
            pc_src: PCSrc::PC,
            alu_op: AluOp::Add,
        }
    } else if opcode == 0x2B || opcode == 0x38 {
        ControlUnitOutput {
            reg_dst: RegDst::RT,
            alu_src: true,
            mem_to_reg: MemToReg::ALUResult,
            reg_write: false,
            mem_read: Mem::Nothing,
            mem_write: Mem::Word,
            pc_src: PCSrc::PC,
            alu_op: AluOp::Add,
        }
    } else if opcode == 0x28 {
        ControlUnitOutput {
            reg_dst: RegDst::RT,
            alu_src: true,
            mem_to_reg: MemToReg::ALUResult,
            reg_write: false,
            mem_read: Mem::Nothing,
            mem_write: Mem::Byte,
            pc_src: PCSrc::PC,
            alu_op: AluOp::Add,
        }
    } else if opcode == 0x29 {
        ControlUnitOutput {
            reg_dst: RegDst::RT,
            alu_src: true,
            mem_to_reg: MemToReg::ALUResult,
            reg_write: false,
            mem_read: Mem::Nothing,
            mem_write: Mem::Half,
            pc_src: PCSrc::PC,
            alu_op: AluOp::Add,
        }
    } else if opcode == BEQ_OPCODE || opcode == BNE_OPCODE {
        ControlUnitOutput {
            reg_dst: RegDst::RT,
            alu_src: false,
            mem_to_reg: MemToReg::ALUResult,
            reg_write: false,
            mem_read: Mem::Nothing,
            mem_write: Mem::Nothing,
            pc_src: PCSrc::PCBranch,
            alu_op: AluOp::Sub,
        }
    } else if opcode == 0x08 {
        ControlUnitOutput {
            reg_dst: RegDst::RT,
            alu_src: true,
            mem_to_reg: MemToReg::ALUResult,
            reg_write: true,
            mem_read: Mem::Nothing,
            mem_write: Mem::Nothing,
            pc_src: PCSrc::PC,
            alu_op: AluOp::Add,
        }
    } else if opcode == 0x09 {
        ControlUnitOutput {
            reg_dst: RegDst::RT,
            alu_src: true,
            mem_to_reg: MemToReg::ALUResult,
            reg_write: true,
            mem_read: Mem::Nothing,
            mem_write: Mem::Nothing,
            pc_src: PCSrc::PC,
            alu_op: AluOp::Addu,
        }
    } else if opcode == 0x0C {
        ControlUnitOutput {
            reg_dst: RegDst::RT,
            alu_src: true,
            mem_to_reg: MemToReg::ALUResult,
            reg_write: true,
            mem_read: Mem::Nothing,
            mem_write: Mem::Nothing,
            pc_src: PCSrc::PC,
            alu_op: AluOp::And,
        }
    } else if opcode == 0x0F {
        ControlUnitOutput {
            reg_dst: RegDst::RT,
            alu_src: false,
            mem_to_reg: MemToReg::ImmLeftShift16,
            reg_write: true,
            mem_read: Mem::Nothing,
            mem_write: Mem::Nothing,
            pc_src: PCSrc::PC,
            alu_op: AluOp::Nothing,
        }
    } else if opcode == 0x0D {
        ControlUnitOutput {
            reg_dst: RegDst::RT,
            alu_src: true,
            mem_to_reg: MemToReg::ALUResult,
            reg_write: true,
            mem_read: Mem::Nothing,
            mem_write: Mem::Nothing,
            pc_src: PCSrc::PC,
            alu_op: AluOp::Or,
        }
    } else if opcode == 0x0A {
        ControlUnitOutput {
            reg_dst: RegDst::RT,
            alu_src: true,
            mem_to_reg: MemToReg::ALUResult,
            reg_write: true,
            mem_read: Mem::Nothing,
            mem_write: Mem::Nothing,
            pc_src: PCSrc::PC,
            alu_op: AluOp::Slt,
        }
    } else if opcode == 0x0B {
        ControlUnitOutput {
            reg_dst: RegDst::RT,
            alu_src: true,
            mem_to_reg: MemToReg::ALUResult,
            reg_write: true,
            mem_read: Mem::Nothing,
            mem_write: Mem::Nothing,
            pc_src: PCSrc::PC,
            alu_op: AluOp::Sltu,
        }
    } else if opcode == 0x02 {
        ControlUnitOutput {
            reg_dst: RegDst::RD,
            alu_src: false,
            mem_to_reg: MemToReg::ALUResult,
            reg_write: false,
            mem_read: Mem::Nothing,
            mem_write: Mem::Nothing,
            pc_src: PCSrc::Jump,
            alu_op: AluOp::Sltu,
        }
    } else {
        ControlUnitOutput {
            reg_dst: RegDst::RA,
            alu_src: false,
            mem_to_reg: MemToReg::ALUResult,
            reg_write: true,
            mem_read: Mem::Nothing,
            mem_write: Mem::Nothing,
            pc_src: PCSrc::Jump,
            alu_op: AluOp::Sltu,
        }
    }
}

} // verus!
