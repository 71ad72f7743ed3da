//! The ALU: a pure function of two operands, a shift amount, and the
//! resolved operation.

use crate::cpu::control_unit::AluOp;
use vstd::prelude::*;

verus! {

/// The resolved arithmetic or logical function the ALU executes.
#[derive(Debug, Clone, Copy, PartialEq, Eq, Structural)]
pub enum AluOperation {
    Add,
    Addu,
    Sub,
    Subu,
    And,
    Or,
    Nor,
    Slt,
    Sltu,
    Sll,
    Srl,
    Nothing,
}

impl Default for AluOperation {
    fn default() -> (r: AluOperation)
        ensures
            r == AluOperation::Nothing,
    {
        AluOperation::Nothing
    }
}

/// The R-type function codes the ALU control resolves.
pub open spec fn known_funct(function_code: u32) -> bool {
    function_code == 0x20 || function_code == 0x21 || function_code == 0x24 || function_code
        == 0x08 || function_code == 0x27 || function_code == 0x25 || function_code == 0x2A
        || function_code == 0x2B || function_code == 0x00 || function_code == 0x02
        || function_code == 0x22 || function_code == 0x23
}

/// What the ALU control resolves for each operation class.
pub open spec fn spec_alu_control(alu_op: AluOp, function_code: u32) -> AluOperation {
    match alu_op {
        AluOp::RType => if function_code == 0x20 {
            AluOperation::Add
        } else if function_code == 0x21 {
            AluOperation::Addu
        } else if function_code == 0x24 {
            AluOperation::And
        } else if function_code == 0x08 {
            AluOperation::Nothing
        } else if function_code == 0x27 {
            AluOperation::Nor
        } else if function_code == 0x25 {
            AluOperation::Or
        } else if function_code == 0x2A {
            AluOperation::Slt
        } else if function_code == 0x2B {
            AluOperation::Sltu
        } else if function_code == 0x00 {
            AluOperation::Sll
        } else if function_code == 0x02 {
            AluOperation::Srl
        } else if function_code == 0x22 {
            AluOperation::Sub
        } else {
            AluOperation::Subu
        },
        AluOp::Add => AluOperation::Add,
        AluOp::Addu => AluOperation::Addu,
        AluOp::Sub => AluOperation::Sub,
        AluOp::And => AluOperation::And,
        AluOp::Or => AluOperation::Or,
        AluOp::Slt => AluOperation::Slt,
        AluOp::Sltu => AluOperation::Sltu,
        AluOp::Nothing => AluOperation::Nothing,
    }
}

/// Resolves an operation class and function code to the ALU's operation.
/// For the R-type class only the decoded function codes are accepted.
pub fn alu_control(alu_op: AluOp, function_code: u32) -> (r: AluOperation)
    requires
        alu_op == AluOp::RType ==> known_funct(function_code),
    ensures
        r == spec_alu_control(alu_op, function_code),
{
    match alu_op {
        AluOp::RType => {
            if function_code == 0x20 {
                AluOperation::Add
            } else if function_code == 0x21 {
                AluOperation::Addu
            } else if function_code == 0x24 {
                AluOperation::And
            } else if function_code == 0x08 {
                AluOperation::Nothing
            } else if function_code == 0x27 {
                AluOperation::Nor
            } else if function_code == 0x25 {
                AluOperation::Or
            } else if function_code == 0x2A {
                AluOperation::Slt
            } else if function_code == 0x2B {
                AluOperation::Sltu
            } else if function_code == 0x00 {
                AluOperation::Sll
            } else if function_code == 0x02 {
                AluOperation::Srl
            } else if function_code == 0x22 {
                AluOperation::Sub
            } else {
                AluOperation::Subu
            }
        },
        AluOp::Add => AluOperation::Add,
        AluOp::Addu => AluOperation::Addu,
        AluOp::Sub => AluOperation::Sub,
        AluOp::And => AluOperation::And,
        AluOp::Or => AluOperation::Or,
        AluOp::Slt => AluOperation::Slt,
        AluOp::Sltu => AluOperation::Sltu,
        AluOp::Nothing => AluOperation::Nothing,
    }
}

/// What the ALU computes: wrapping adds and subtracts, the bitwise
/// operations, signed and unsigned compares, and logical shifts.
pub open spec fn spec_alu(op_a: u32, op_b: u32, shamt: u32, operation: AluOperation) -> u32 {
    match operation {
        AluOperation::Add => ((op_a as int + op_b as int) % 0x1_0000_0000) as u32,
        AluOperation::Addu => ((op_a as int + op_b as int) % 0x1_0000_0000) as u32,
        AluOperation::Sub => ((op_a as int - op_b as int) % 0x1_0000_0000) as u32,
        AluOperation::Subu => ((op_a as int - op_b as int) % 0x1_0000_0000) as u32,
        AluOperation::And => op_a & op_b,
        AluOperation::Or => op_a | op_b,
        AluOperation::Nor => !(op_a | op_b),
        AluOperation::Slt => if (op_a as i32) < (op_b as i32) {
            1u32
        } else {
            0u32
        },
        AluOperation::Sltu => if op_a < op_b {
            1u32
        } else {
            0u32
        },
        AluOperation::Sll => op_a << shamt,
        AluOperation::Srl => op_a >> shamt,
        AluOperation::Nothing => 0u32,
    }
}

/// Computes one ALU operation. Shift amounts come from a 5-bit field.
pub fn alu(op_a: u32, op_b: u32, shamt: u32, operation: AluOperation) -> (r: u32)
    requires
        shamt < 32,
    ensures
        r == spec_alu(op_a, op_b, shamt, operation),
{
    match operation {
        AluOperation::Add | AluOperation::Addu => {
            let sum: u64 = op_a as u64 + op_b as u64;
            (sum % 0x1_0000_0000) as u32
        },
        AluOperation::Sub | AluOperation::Subu => {
            if op_a >= op_b {
                op_a - op_b
            } else {
                ((0x1_0000_0000u64 + op_a as u64) - op_b as u64) as u32
            }
        },
        AluOperation::And => op_a & op_b,
        AluOperation::Or => op_a | op_b,
        AluOperation::Nor => !(op_a | op_b),
        AluOperation::Slt => {
            let a = #[verifier::truncate] (op_a as i32);
            let b = #[verifier::truncate] (op_b as i32);
            if a < b {
                1
            } else {
                0
            }
        },
        AluOperation::Sltu => {
            if op_a < op_b {
                1
            } else {
                0
            }
        },
        AluOperation::Sll => op_a << shamt,
        AluOperation::Srl => op_a >> shamt,
        AluOperation::Nothing => 0,
    }
}

} // verus!
