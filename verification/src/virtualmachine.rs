//! The virtual machine: registers, program counter, HI/LO, a byte-addressed
//! data segment and a decoded instruction stream. `step` executes exactly one
//! instruction and either mutates the state or halts it with an error; a
//! halted machine never changes again.
//!
//! The whole transition is specified by `spec_step`, a mathematical function
//! on the machine model, and `step` is proved to compute it.

use crate::tables::LabelTable;
use crate::text::str_eq;
use crate::virtual_machine_interface::{reg_num, RegisterKind, VirtualMachineInterface};
use crate::vm_defs::{ArgModel, Argument, InstrModel, Instruction, LabelType, Opcode};
use vstd::prelude::*;

verus! {

/// The mathematical state of a virtual machine.
pub ghost struct VmModel {
    pub error: bool,
    pub error_msg: Seq<char>,
    pub regs: Seq<u32>,
    pub pc: u32,
    pub hi: u32,
    pub lo: u32,
    pub back: u32,
    pub data: Seq<u8>,
    pub insts: Seq<InstrModel>,
    pub labels: Map<Seq<char>, u32>,
}

pub open spec fn msg_invalid_format() -> Seq<char> {
    "Invalid instruction format, resulting from parse error"@
}

pub open spec fn msg_load_invalid() -> Seq<char> {
    "Attempted to load from invalid memory address"@
}

pub open spec fn msg_store_invalid() -> Seq<char> {
    "Attempted to store to invalid memory address"@
}

pub open spec fn msg_overflow_add() -> Seq<char> {
    "Integer overflow performing addition"@
}

pub open spec fn msg_overflow_sub() -> Seq<char> {
    "Integer overflow performing subtraction"@
}

pub open spec fn msg_overflow_mul() -> Seq<char> {
    "Integer overflow performing multiplication"@
}

pub open spec fn msg_overflow_neg() -> Seq<char> {
    "Integer overflow when attempting negation"@
}

pub open spec fn msg_missing_label() -> Seq<char> {
    "Nonexistent label, resulting from parse error"@
}

pub open spec fn msg_unknown_inst() -> Seq<char> {
    "Unknown instruction, resulting from parse error"@
}

pub open spec fn msg_pc_range() -> Seq<char> {
    "Program counter out of range"@
}

/// A register as the running machine reads it: the general-purpose file,
/// or HI, LO, PC for the special kinds.
pub open spec fn reg_read(m: VmModel, r: RegisterKind) -> u32 {
    let n = reg_num(r);
    if n <= 31 {
        m.regs[n]
    } else if n == 32 {
        m.hi
    } else if n == 33 {
        m.lo
    } else {
        m.pc
    }
}

/// A register write; writes to the special kinds land in HI, LO, PC.
pub open spec fn write_gp(m: VmModel, r: RegisterKind, v: u32) -> VmModel {
    let n = reg_num(r);
    if n <= 31 {
        VmModel { regs: m.regs.update(n, v), ..m }
    } else if n == 32 {
        VmModel { hi: v, ..m }
    } else if n == 33 {
        VmModel { lo: v, ..m }
    } else {
        VmModel { pc: v, ..m }
    }
}

/// The one-way transition into the halted state.
pub open spec fn halt(m: VmModel, msg: Seq<char>) -> VmModel {
    VmModel { error: true, error_msg: msg, ..m }
}

/// The program counter moves to the next instruction, wrapping as a `u32`.
pub open spec fn advance(m: VmModel) -> VmModel {
    VmModel { pc: ((m.pc + 1) % 0x1_0000_0000) as u32, ..m }
}

pub open spec fn s_reg(args: Seq<ArgModel>, i: int) -> Option<RegisterKind> {
    if 0 <= i < args.len() {
        match args[i] {
            ArgModel::Register(r) => Some(r),
            _ => None,
        }
    } else {
        None
    }
}

pub open spec fn s_imm(args: Seq<ArgModel>, i: int) -> Option<u32> {
    if 0 <= i < args.len() {
        match args[i] {
            ArgModel::Immediate(v) => Some(v),
            _ => None,
        }
    } else {
        None
    }
}

pub open spec fn s_label(args: Seq<ArgModel>, i: int) -> Option<Seq<char>> {
    if 0 <= i < args.len() {
        match args[i] {
            ArgModel::Label(l) => Some(l),
            _ => None,
        }
    } else {
        None
    }
}

pub open spec fn s_off(args: Seq<ArgModel>, i: int) -> Option<u32> {
    if 0 <= i < args.len() {
        match args[i] {
            ArgModel::Offset(v) => Some(v),
            _ => None,
        }
    } else {
        None
    }
}

/// How a data-movement instruction resolves its operands: a register slot
/// and an effective address (register value, immediate, label address, each
/// optionally plus an offset).
pub ghost enum DataOp {
    Found(RegisterKind, int),
    MissingLabel,
    Malformed,
}

pub open spec fn spec_data_operands(m: VmModel, args: Seq<ArgModel>) -> DataOp {
    match s_reg(args, 0) {
        Some(rs) => {
            if args.len() == 2 {
                if s_reg(args, 1) is Some {
                    let rd = s_reg(args, 1).unwrap();
                    DataOp::Found(rs, reg_read(m, rd) as int)
                } else if s_imm(args, 1) is Some {
                    let imm = s_imm(args, 1).unwrap();
                    DataOp::Found(rs, imm as int)
                } else if s_label(args, 1) is Some {
                    let l = s_label(args, 1).unwrap();
                    if m.labels.contains_key(l) {
                        DataOp::Found(rs, m.labels[l] as int)
                    } else {
                        DataOp::MissingLabel
                    }
                } else {
                    DataOp::Malformed
                }
            } else if args.len() >= 3 && s_off(args, 1) is Some {
                let off = s_off(args, 1).unwrap();
                if s_reg(args, 2) is Some {
                    let rd = s_reg(args, 2).unwrap();
                    DataOp::Found(rs, reg_read(m, rd) + off)
                } else if s_imm(args, 2) is Some {
                    let imm = s_imm(args, 2).unwrap();
                    DataOp::Found(rs, imm + off)
                } else if s_label(args, 2) is Some {
                    let l = s_label(args, 2).unwrap();
                    if m.labels.contains_key(l) {
                        DataOp::Found(rs, m.labels[l] + off)
                    } else {
                        DataOp::MissingLabel
                    }
                } else {
                    DataOp::Malformed
                }
            } else {
                DataOp::Malformed
            }
        },
        None => DataOp::Malformed,
    }
}

/// The destination and two source values of a three-operand instruction
/// (the second source may be an immediate).
pub open spec fn spec_triple_operands(m: VmModel, args: Seq<ArgModel>) -> Option<
    (RegisterKind, u32, u32),
> {
    if args.len() >= 3 && s_reg(args, 0) is Some && s_reg(args, 1) is Some {
        let d = s_reg(args, 0).unwrap();
        let s1 = s_reg(args, 1).unwrap();
        if s_reg(args, 2) is Some {
            let s2 = s_reg(args, 2).unwrap();
            Some((d, reg_read(m, s1), reg_read(m, s2)))
        } else if s_imm(args, 2) is Some {
            let imm = s_imm(args, 2).unwrap();
            Some((d, reg_read(m, s1), imm))
        } else {
            None
        }
    } else {
        None
    }
}

/// The two compared values and the target label of a branch.
pub open spec fn spec_branch_operands(m: VmModel, args: Seq<ArgModel>) -> Option<
    (u32, u32, Seq<char>),
> {
    if args.len() >= 3 && s_reg(args, 0) is Some && s_label(args, 2) is Some {
        let a = s_reg(args, 0).unwrap();
        let l = s_label(args, 2).unwrap();
        if s_reg(args, 1) is Some {
            let b = s_reg(args, 1).unwrap();
            Some((reg_read(m, a), reg_read(m, b), l))
        } else if s_imm(args, 1) is Some {
            let imm = s_imm(args, 1).unwrap();
            Some((reg_read(m, a), imm, l))
        } else {
            None
        }
    } else {
        None
    }
}

/// A little-endian 16-bit value read from two bytes.
pub open spec fn le_half(data: Seq<u8>, a: int) -> u32 {
    (data[a] + data[a + 1] * 0x100) as u32
}

/// A little-endian 32-bit value read from four bytes.
pub open spec fn le_word(data: Seq<u8>, a: int) -> u32 {
    (data[a] + data[a + 1] * 0x100 + data[a + 2] * 0x1_0000 + data[a + 3] * 0x100_0000) as u32
}

/// Byte `i` of a value's little-endian encoding.
pub open spec fn byte_of(v: u32, i: int) -> u8 {
    if i == 0 {
        (v as int % 0x100) as u8
    } else if i == 1 {
        ((v as int / 0x100) % 0x100) as u8
    } else if i == 2 {
        ((v as int / 0x1_0000) % 0x100) as u8
    } else {
        ((v as int / 0x100_0000) % 0x100) as u8
    }
}

/// Stores the `w` low bytes of `v` at `a`, little-endian.
pub open spec fn store_le(data: Seq<u8>, a: int, v: u32, w: int) -> Seq<u8>
    decreases w,
{
    if w <= 0 {
        data
    } else {
        store_le(data, a, v, w - 1).update(a + w - 1, byte_of(v, w - 1))
    }
}

/// Truncated (round toward zero) division, as Rust's `/` computes it.
pub open spec fn t_div(a: int, b: int) -> int {
    if a == 0 {
        0
    } else if a > 0 && b > 0 {
        a / b
    } else if a < 0 && b < 0 {
        (a * -1) / (b * -1)
    } else if a < 0 {
        ((a * -1) / b) * -1
    } else {
        (a / (b * -1)) * -1
    }
}

/// Truncated remainder, as Rust's `%` computes it.
pub open spec fn t_rem(a: int, b: int) -> int {
    if a == 0 {
        0
    } else if a > 0 && b > 0 {
        a % b
    } else if a < 0 && b < 0 {
        ((a * -1) % (b * -1)) * -1
    } else if a < 0 {
        ((a * -1) % b) * -1
    } else {
        a % (b * -1)
    }
}

/// The value of a 32-bit word reinterpreted as a signed integer.
pub open spec fn sval(x: u32) -> int {
    (x as i32) as int
}

/// The low 32 bits of a value, as two's complement truncation leaves them.
pub open spec fn lo32(p: int) -> u32 {
    (p % 0x1_0000_0000) as u32
}

/// The high word of a 64-bit two's-complement result.
pub open spec fn hi32(p: int) -> u32 {
    (((p % 0x1_0000_0000_0000_0000) / 0x1_0000_0000)) as u32
}

/// The transition one decoded instruction makes on a running machine.
pub open spec fn spec_step_inst(m: VmModel, inst: InstrModel) -> VmModel {
    let args = inst.args;
    match inst.opcode {
        Opcode::Mfhi => match s_reg(args, 0) {
            Some(r) => advance(write_gp(m, r, m.hi)),
            None => halt(m, msg_invalid_format()),
        },
        Opcode::Mflo => match s_reg(args, 0) {
            Some(r) => advance(write_gp(m, r, m.lo)),
            None => halt(m, msg_invalid_format()),
        },
        Opcode::Mthi => match s_reg(args, 0) {
            Some(r) => advance(VmModel { hi: reg_read(m, r), ..m }),
            None => halt(m, msg_invalid_format()),
        },
        Opcode::Mtlo => match s_reg(args, 0) {
            Some(r) => advance(VmModel { lo: reg_read(m, r), ..m }),
            None => halt(m, msg_invalid_format()),
        },
        Opcode::Lw => match spec_data_operands(m, args) {
            DataOp::Found(dest, addr) => if addr + 4 <= m.data.len() {
                advance(write_gp(m, dest, le_word(m.data, addr)))
            } else {
                halt(m, msg_load_invalid())
            },
            DataOp::MissingLabel => halt(m, msg_missing_label()),
            DataOp::Malformed => halt(m, msg_invalid_format()),
        },
        Opcode::Lh => match spec_data_operands(m, args) {
            DataOp::Found(dest, addr) => if addr + 2 <= m.data.len() {
                advance(write_gp(m, dest, le_half(m.data, addr)))
            } else {
                halt(m, msg_load_invalid())
            },
            DataOp::MissingLabel => halt(m, msg_missing_label()),
            DataOp::Malformed => halt(m, msg_invalid_format()),
        },
        Opcode::Lb => match spec_data_operands(m, args) {
            DataOp::Found(dest, addr) => if addr + 1 <= m.data.len() {
                advance(write_gp(m, dest, m.data[addr] as u32))
            } else {
                halt(m, msg_load_invalid())
            },
            DataOp::MissingLabel => halt(m, msg_missing_label()),
            DataOp::Malformed => halt(m, msg_invalid_format()),
        },
        Opcode::La => match spec_data_operands(m, args) {
            DataOp::Found(dest, addr) => if addr <= 0xFFFF_FFFF {
                advance(write_gp(m, dest, addr as u32))
            } else {
                halt(m, msg_load_invalid())
            },
            DataOp::MissingLabel => halt(m, msg_missing_label()),
            DataOp::Malformed => halt(m, msg_invalid_format()),
        },
        Opcode::Sw => match spec_data_operands(m, args) {
            DataOp::Found(src, addr) => if addr + 4 <= m.data.len() {
                advance(VmModel { data: store_le(m.data, addr, reg_read(m, src), 4), ..m })
            } else {
                halt(m, msg_store_invalid())
            },
            DataOp::MissingLabel => halt(m, msg_missing_label()),
            DataOp::Malformed => halt(m, msg_invalid_format()),
        },
        Opcode::Sh => match spec_data_operands(m, args) {
            DataOp::Found(src, addr) => if addr + 2 <= m.data.len() {
                advance(VmModel { data: store_le(m.data, addr, reg_read(m, src), 2), ..m })
            } else {
                halt(m, msg_store_invalid())
            },
            DataOp::MissingLabel => halt(m, msg_missing_label()),
            DataOp::Malformed => halt(m, msg_invalid_format()),
        },
        Opcode::Sb => match spec_data_operands(m, args) {
            DataOp::Found(src, addr) => if addr + 1 <= m.data.len() {
                advance(VmModel { data: store_le(m.data, addr, reg_read(m, src), 1), ..m })
            } else {
                halt(m, msg_store_invalid())
            },
            DataOp::MissingLabel => halt(m, msg_missing_label()),
            DataOp::Malformed => halt(m, msg_invalid_format()),
        },
        Opcode::Add => match spec_triple_operands(m, args) {
            Some((d, a, b)) => {
                let sum = sval(a) + sval(b);
                if -0x8000_0000 <= sum <= 0x7FFF_FFFF {
                    advance(write_gp(m, d, lo32(sum)))
                } else {
                    halt(m, msg_overflow_add())
                }
            },
            None => halt(m, msg_invalid_format()),
        },
        Opcode::Addu => match spec_triple_operands(m, args) {
            Some((d, a, b)) => advance(write_gp(m, d, ((a + b) % 0x1_0000_0000) as u32)),
            None => halt(m, msg_invalid_format()),
        },
        Opcode::Sub => match spec_triple_operands(m, args) {
            Some((d, a, b)) => {
                let diff = sval(a) - sval(b);
                if -0x8000_0000 <= diff <= 0x7FFF_FFFF {
                    advance(write_gp(m, d, lo32(diff)))
                } else {
                    halt(m, msg_overflow_sub())
                }
            },
            None => halt(m, msg_invalid_format()),
        },
        Opcode::Subu => match spec_triple_operands(m, args) {
            Some((d, a, b)) => advance(
                write_gp(m, d, ((a - b) % 0x1_0000_0000) as u32),
            ),
            None => halt(m, msg_invalid_format()),
        },
        Opcode::Mul => match spec_triple_operands(m, args) {
            Some((d, a, b)) => {
                let prod = sval(a) * sval(b);
                let m1 = write_gp(m, d, lo32(prod));
                advance(VmModel { hi: hi32(prod), lo: lo32(prod), ..m1 })
            },
            None => halt(m, msg_invalid_format()),
        },
        Opcode::Mulo => match spec_triple_operands(m, args) {
            Some((d, a, b)) => {
                let prod = sval(a) * sval(b);
                if -0x8000_0000 <= prod <= 0x7FFF_FFFF {
                    advance(write_gp(m, d, lo32(prod)))
                } else {
                    halt(m, msg_overflow_mul())
                }
            },
            None => halt(m, msg_invalid_format()),
        },
        Opcode::Mulou => match spec_triple_operands(m, args) {
            Some((d, a, b)) => {
                let prod = a * b;
                if prod <= 0xFFFF_FFFF {
                    advance(write_gp(m, d, prod as u32))
                } else {
                    halt(m, msg_overflow_mul())
                }
            },
            None => halt(m, msg_invalid_format()),
        },
        Opcode::Rem => match spec_triple_operands(m, args) {
            Some((d, a, b)) => if sval(b) == 0 {
                advance(m)
            } else {
                let r = t_rem(sval(a), sval(b));
                let m1 = write_gp(m, d, lo32(r));
                advance(VmModel { hi: hi32(r), lo: lo32(r), ..m1 })
            },
            None => halt(m, msg_invalid_format()),
        },
        Opcode::Remu => match spec_triple_operands(m, args) {
            Some((d, a, b)) => if b == 0 {
                advance(m)
            } else {
                let r = (a as int) % (b as int);
                let m1 = write_gp(m, d, lo32(r));
                advance(VmModel { hi: hi32(r), lo: lo32(r), ..m1 })
            },
            None => halt(m, msg_invalid_format()),
        },
        Opcode::Mult => if s_reg(args, 0) is Some && s_reg(args, 1) is Some {
            let a = s_reg(args, 0).unwrap();
            let b = s_reg(args, 1).unwrap();
            let prod = sval(reg_read(m, a)) * sval(reg_read(m, b));
            advance(VmModel { hi: hi32(prod), lo: lo32(prod), ..m })
        } else {
            halt(m, msg_invalid_format())
        },
        Opcode::Multu => if s_reg(args, 0) is Some && s_reg(args, 1) is Some {
            let a = s_reg(args, 0).unwrap();
            let b = s_reg(args, 1).unwrap();
            let prod = reg_read(m, a) * reg_read(m, b);
            advance(VmModel { hi: hi32(prod), lo: lo32(prod), ..m })
        } else {
            halt(m, msg_invalid_format())
        },
        Opcode::Abs => if s_reg(args, 0) is Some && s_reg(args, 1) is Some {
            let d = s_reg(args, 0).unwrap();
            let src = s_reg(args, 1).unwrap();
            let v = sval(reg_read(m, src));
            let res = if v == -0x8000_0000 {
                v
            } else if v < 0 {
                -v
            } else {
                v
            };
            advance(write_gp(m, d, lo32(res)))
        } else {
            halt(m, msg_invalid_format())
        },
        Opcode::Neg => if s_reg(args, 0) is Some && s_reg(args, 1) is Some {
            let d = s_reg(args, 0).unwrap();
            let src = s_reg(args, 1).unwrap();
            let v = sval(reg_read(m, src));
            if v == -0x8000_0000 {
                halt(m, msg_overflow_neg())
            } else {
                advance(write_gp(m, d, lo32(-v)))
            }
        } else {
            halt(m, msg_invalid_format())
        },
        Opcode::Negu => if s_reg(args, 0) is Some && s_reg(args, 1) is Some {
            let d = s_reg(args, 0).unwrap();
            let src = s_reg(args, 1).unwrap();
            let v = sval(reg_read(m, src));
            advance(write_gp(m, d, lo32(-v)))
        } else {
            halt(m, msg_invalid_format())
        },
        Opcode::And => match spec_triple_operands(m, args) {
            Some((d, a, b)) => advance(write_gp(m, d, a & b)),
            None => halt(m, msg_invalid_format()),
        },
        Opcode::Nor => match spec_triple_operands(m, args) {
            Some((d, a, b)) => advance(write_gp(m, d, !(a | b))),
            None => halt(m, msg_invalid_format()),
        },
        Opcode::Or => match spec_triple_operands(m, args) {
            Some((d, a, b)) => advance(write_gp(m, d, a | b)),
            None => halt(m, msg_invalid_format()),
        },
        Opcode::Xor => match spec_triple_operands(m, args) {
            Some((d, a, b)) => advance(write_gp(m, d, a ^ b)),
            None => halt(m, msg_invalid_format()),
        },
        Opcode::Move => if s_reg(args, 0) is Some && s_reg(args, 1) is Some {
            let d = s_reg(args, 0).unwrap();
            let src = s_reg(args, 1).unwrap();
            advance(write_gp(m, d, reg_read(m, src)))
        } else {
            halt(m, msg_invalid_format())
        },
        Opcode::Li => if s_reg(args, 0) is Some && s_imm(args, 1) is Some {
            let d = s_reg(args, 0).unwrap();
            let imm = s_imm(args, 1).unwrap();
            advance(write_gp(m, d, imm))
        } else {
            halt(m, msg_invalid_format())
        },
        Opcode::Div => spec_div_like(m, args, true),
        Opcode::Divu => spec_div_like(m, args, false),
        Opcode::Not => if s_reg(args, 0) is Some {
            let d = s_reg(args, 0).unwrap();
            if s_reg(args, 1) is Some {
                let src = s_reg(args, 1).unwrap();
                advance(write_gp(m, d, !reg_read(m, src)))
            } else if s_imm(args, 1) is Some {
                let imm = s_imm(args, 1).unwrap();
                advance(write_gp(m, d, !imm))
            } else {
                halt(m, msg_invalid_format())
            }
        } else {
            halt(m, msg_invalid_format())
        },
        Opcode::Beq => spec_branch(m, args, BranchKind::Eq),
        Opcode::Bne => spec_branch(m, args, BranchKind::Ne),
        Opcode::Blt => spec_branch(m, args, BranchKind::Lt),
        Opcode::Ble => spec_branch(m, args, BranchKind::Le),
        Opcode::Bgt => spec_branch(m, args, BranchKind::Gt),
        Opcode::Bge => spec_branch(m, args, BranchKind::Ge),
        Opcode::Jump => match s_label(args, 0) {
            Some(l) => if m.labels.contains_key(l) {
                VmModel { pc: m.labels[l], ..m }
            } else {
                halt(m, msg_missing_label())
            },
            None => halt(m, msg_invalid_format()),
        },
        Opcode::Nop => advance(m),
        Opcode::Unset => halt(m, msg_unknown_inst()),
    }
}

/// The branch conditions; values compare as unsigned 32-bit words.
#[derive(Debug, Clone, Copy, PartialEq, Eq, Structural)]
pub enum BranchKind {
    Eq,
    Ne,
    Lt,
    Le,
    Gt,
    Ge,
}

pub open spec fn branch_taken(a: u32, b: u32, k: BranchKind) -> bool {
    match k {
        BranchKind::Eq => a == b,
        BranchKind::Ne => a != b,
        BranchKind::Lt => a < b,
        BranchKind::Le => a <= b,
        BranchKind::Gt => a > b,
        BranchKind::Ge => a >= b,
    }
}

pub open spec fn spec_branch(m: VmModel, args: Seq<ArgModel>, k: BranchKind) -> VmModel {
    match spec_branch_operands(m, args) {
        Some((a, b, l)) => if branch_taken(a, b, k) {
            if m.labels.contains_key(l) {
                VmModel { pc: m.labels[l], ..m }
            } else {
                halt(m, msg_missing_label())
            }
        } else {
            advance(m)
        },
        None => halt(m, msg_invalid_format()),
    }
}

/// The division family: quotient to the destination and LO, remainder to HI;
/// with two register operands only HI and LO change; division by zero (or the
/// one overflowing signed case) only advances the program counter.
pub open spec fn spec_div_like(m: VmModel, args: Seq<ArgModel>, signed: bool) -> VmModel {
    if args.len() == 2 && s_reg(args, 0) is Some && s_reg(args, 1) is Some {
        let a = reg_read(m, s_reg(args, 0).unwrap());
        let b = reg_read(m, s_reg(args, 1).unwrap());
        spec_div_write(m, a, b, signed, None)
    } else if args.len() >= 3 && s_reg(args, 0) is Some && s_reg(args, 1) is Some {
        let d = s_reg(args, 0).unwrap();
        let a = reg_read(m, s_reg(args, 1).unwrap());
        if s_reg(args, 2) is Some {
            let rb = s_reg(args, 2).unwrap();
            spec_div_write(m, a, reg_read(m, rb), signed, Some(d))
        } else if s_imm(args, 2) is Some {
            let imm = s_imm(args, 2).unwrap();
            spec_div_write(m, a, imm, signed, Some(d))
        } else {
            halt(m, msg_invalid_format())
        }
    } else {
        halt(m, msg_invalid_format())
    }
}

pub open spec fn spec_div_write(
    m: VmModel,
    a: u32,
    b: u32,
    signed: bool,
    dest: Option<RegisterKind>,
) -> VmModel {
    if signed {
        if sval(b) == 0 || (sval(a) == -0x8000_0000 && sval(b) == -1) {
            advance(m)
        } else {
            let q = t_div(sval(a), sval(b));
            let r = t_rem(sval(a), sval(b));
            let m1 = match dest {
                Some(d) => write_gp(m, d, lo32(q)),
                None => m,
            };
            advance(VmModel { lo: lo32(q), hi: lo32(r), ..m1 })
        }
    } else {
        if b == 0 {
            advance(m)
        } else {
            let q = ((a as int) / (b as int)) as u32;
            let r = ((a as int) % (b as int)) as u32;
            let m1 = match dest {
                Some(d) => write_gp(m, d, q),
                None => m,
            };
            advance(VmModel { lo: q, hi: r, ..m1 })
        }
    }
}


/// One step of the machine: a halted machine stays exactly as it is; a
/// program counter outside the instruction stream halts it; otherwise the
/// current instruction's transition applies.
pub open spec fn spec_step(m: VmModel) -> VmModel {
    if m.error {
        m
    } else if m.pc >= m.insts.len() {
        halt(m, msg_pc_range())
    } else {
        spec_step_inst(m, m.insts[m.pc as int])
    }
}

/// Once halted, a machine never changes again: stepping is the identity on
/// every halted state, so registers, memory and the error message all stay.
pub proof fn lemma_halted_step_is_identity(m: VmModel)
    requires
        m.error,
    ensures
        spec_step(m) == m,
{
}

/// An out-of-bounds data access is reported, never silent: if the current
/// instruction is a load or store whose resolved address runs past the data
/// segment, the step halts the machine and leaves registers, memory, the
/// program counter and HI/LO untouched.
pub proof fn lemma_oob_access_halts(m: VmModel, w: int)
    requires
        !m.error,
        m.pc < m.insts.len(),
        ({
            let inst = m.insts[m.pc as int];
            let width = match inst.opcode {
                Opcode::Lw | Opcode::Sw => 4int,
                Opcode::Lh | Opcode::Sh => 2int,
                Opcode::Lb | Opcode::Sb => 1int,
                _ => 0int,
            };
            &&& width == w
            &&& w > 0
            &&& spec_data_operands(m, inst.args) matches DataOp::Found(r, addr) && addr + w
                > m.data.len()
        }),
    ensures
        spec_step(m).error,
        spec_step(m).data == m.data,
        spec_step(m).regs == m.regs,
        spec_step(m).pc == m.pc,
        spec_step(m).hi == m.hi,
        spec_step(m).lo == m.lo,
{
}


/// A complete virtual machine. Built by the parser, then driven by `step`;
/// cloneable, so a caller can snapshot a state and run ahead.
#[derive(Debug, Clone)]
pub struct VirtualMachine {
    error_state: bool,
    error_message: String,
    registers: [u32; 32],
    pc: u32,
    hi: u32,
    lo: u32,
    data_mem_back: u32,
    data_memory: Vec<u8>,
    instruction_memory: Vec<Instruction>,
    labels: LabelTable,
}

impl View for VirtualMachine {
    type V = VmModel;

    closed spec fn view(&self) -> VmModel {
        VmModel {
            error: self.error_state,
            error_msg: self.error_message@,
            regs: self.registers@,
            pc: self.pc,
            hi: self.hi,
            lo: self.lo,
            back: self.data_mem_back,
            data: self.data_memory@,
            insts: self.instruction_memory.deep_view(),
            labels: self.labels@,
        }
    }
}


/// Stores the characters of an ASCII string at `a`, one byte each.
pub open spec fn store_chars(data: Seq<u8>, a: int, value: Seq<char>) -> Seq<u8>
    decreases value.len(),
{
    if value.len() == 0 {
        data
    } else {
        store_chars(data, a, value.drop_last()).update(
            a + value.len() - 1,
            value.last() as u8,
        )
    }
}

/// What one data layout directive appends at the write cursor: an integer's
/// little-endian bytes, reserved space, or an ASCII string (with a trailing
/// NUL for `.asciiz`); `None` when the data segment cannot hold it.
pub open spec fn spec_add_data(m: VmModel, layout: Seq<char>, value: Seq<char>) -> Option<
    VmModel,
> {
    if layout == ".word"@ {
        spec_add_int(m, value, 4)
    } else if layout == ".half"@ {
        spec_add_int(m, value, 2)
    } else if layout == ".byte"@ {
        spec_add_int(m, value, 1)
    } else if layout == ".space"@ {
        let v = crate::numbers::spec_parse_i64(value).unwrap();
        if m.back + v <= 0xFFFF_FFFF {
            Some(VmModel { back: (m.back + v) as u32, ..m })
        } else {
            None
        }
    } else if layout == ".ascii"@ {
        spec_add_ascii(m, value, false)
    } else {
        spec_add_ascii(m, value, true)
    }
}

pub open spec fn spec_add_int(m: VmModel, value: Seq<char>, w: int) -> Option<VmModel> {
    let v = crate::numbers::spec_parse_i64(value).unwrap();
    let word = lo32(v as int);
    if m.back + w <= m.data.len() && m.back + w <= 0xFFFF_FFFF {
        Some(
            VmModel {
                data: store_le(m.data, m.back as int, word, w),
                back: (m.back + w) as u32,
                ..m
            },
        )
    } else {
        None
    }
}

pub open spec fn spec_add_ascii(m: VmModel, value: Seq<char>, nul: bool) -> Option<VmModel> {
    let total = value.len() + if nul {
        1int
    } else {
        0int
    };
    if m.back + total <= m.data.len() && m.back + total <= 0xFFFF_FFFF {
        let stored = store_chars(m.data, m.back as int, value);
        let stored2 = if nul {
            stored.update(m.back + value.len(), 0u8)
        } else {
            stored
        };
        Some(VmModel { data: stored2, back: (m.back + total) as u32, ..m })
    } else {
        None
    }
}

/// The arguments of the instruction the program counter selects.
pub open spec fn cur_args(m: VmModel) -> Seq<ArgModel> {
    m.insts[m.pc as int].args
}

/// How a data-movement instruction's operands resolved, for the running
/// machine; addresses are exact in 64 bits.
pub enum DataOpExec {
    Found(RegisterKind, u64),
    MissingLabel,
    Malformed,
}

/// Reinterprets a 32-bit word as signed, as the datapath's signed
/// operations read their operands.
fn as_signed(x: u32) -> (r: i32)
    ensures
        r as int == sval(x),
{
    #[verifier::truncate] (x as i32)
}

/// The low 32 bits of a small signed value, as two's complement wrapping
/// leaves them.
fn wrap_u32(v: i64) -> (r: u32)
    requires
        -0x8000_0000 <= v <= 0xFFFF_FFFF,
    ensures
        r as int == (v as int) % 0x1_0000_0000,
{
    if v >= 0 {
        v as u32
    } else {
        (v + 0x1_0000_0000i64) as u32
    }
}

/// A signed 64-bit value reduced to its unsigned two's-complement image.
fn to_u64_wrap(p: i64) -> (r: u64)
    ensures
        r as int == (p as int) % 0x1_0000_0000_0000_0000,
{
    if p >= 0 {
        p as u64
    } else {
        let tmp: i64 = p + 0x7FFF_FFFF_FFFF_FFFFi64 + 1;
        (tmp as u64) + 0x8000_0000_0000_0000u64
    }
}

/// Quotient and remainder of truncated 32-bit signed division stay in
/// range, except for the one excluded overflowing case.
proof fn lemma_t_div_range(x: int, d: int)
    requires
        -0x8000_0000 <= x <= 0x7FFF_FFFF,
        -0x8000_0000 <= d <= 0x7FFF_FFFF,
        d != 0,
        !(x == -0x8000_0000 && d == -1),
    ensures
        -0x8000_0000 <= t_div(x, d) <= 0x7FFF_FFFF,
        -0x8000_0000 < t_rem(x, d) < 0x8000_0000,
{
    if x == 0 {
    } else {
        let u = if x > 0 { x } else { -x };
        let v = if d > 0 { d } else { -d };
        vstd::arithmetic::div_mod::lemma_div_pos_is_pos(u, v);
        vstd::arithmetic::div_mod::lemma_div_nonincreasing(u, v);
        if u == 0x8000_0000 {
            if v == 1 {
                assert(!(x == -0x8000_0000 && d == -1));
                assert(x == -0x8000_0000 && d == 1);
                vstd::arithmetic::div_mod::lemma_div_basics_2(u);
                assert(u / v == u);
                assert(t_div(x, d) == -0x8000_0000);
            } else {
                vstd::arithmetic::div_mod::lemma_div_is_ordered_by_denominator(u, 2, v);
                assert(u / 2 == 0x4000_0000);
                assert(u / v <= 0x4000_0000);
            }
        } else {
            assert(u / v <= u <= 0x7FFF_FFFF);
        }
        assert(0 <= u % v < v);
    }
}

proof fn lemma_mod_mod64(p: int)
    ensures
        (p % 0x1_0000_0000_0000_0000) % 0x1_0000_0000 == p % 0x1_0000_0000,
{
    assert(0x1_0000_0000int * 0x1_0000_0000int == 0x1_0000_0000_0000_0000int);
    vstd::arithmetic::div_mod::lemma_mod_mod(p, 0x1_0000_0000, 0x1_0000_0000);
}

impl VirtualMachine {
    /// A fresh machine: cleared registers, a zeroed data segment of
    /// `DATA_SEGMENT_SIZE` bytes, no instructions and no labels.
    pub fn new() -> (vm: VirtualMachine)
        ensures
            vm@ == (VmModel {
                error: false,
                error_msg: Seq::<char>::empty(),
                regs: Seq::new(32, |i: int| 0u32),
                pc: 0u32,
                hi: 0u32,
                lo: 0u32,
                back: 0u32,
                data: Seq::new(crate::DATA_SEGMENT_SIZE as nat, |i: int| 0u8),
                insts: Seq::<InstrModel>::empty(),
                labels: Map::<Seq<char>, u32>::empty(),
            }),
    {
        let mut data: Vec<u8> = Vec::new();
        let mut i: usize = 0;
        while i < 1024
            invariant
                i <= 1024,
                data@.len() == i,
                forall|j: int| 0 <= j < i ==> data@[j] == 0u8,
            decreases 1024 - i,
        {
            data.push(0u8);
            i = i + 1;
        }
        let vm = VirtualMachine {
            error_state: false,
            error_message: String::new(),
            registers: vstd::array::array_fill_for_copy_types::<u32, 32>(0u32),
            pc: 0,
            hi: 0,
            lo: 0,
            data_mem_back: 0,
            data_memory: data,
            instruction_memory: Vec::new(),
            labels: LabelTable::new(),
        };
        proof {
            assert(vm@.regs =~= Seq::new(32, |i: int| 0u32));
            assert(vm@.data =~= Seq::new(crate::DATA_SEGMENT_SIZE as nat, |i: int| 0u8));
            assert(vm@.insts =~= Seq::<InstrModel>::empty());
            assert(vm@.error_msg =~= Seq::<char>::empty());
        }
        vm
    }

    /// Registers a label at the current data cursor or instruction index.
    pub fn insert_label(&mut self, label: LabelType)
        ensures
            final (self)@ == match label {
                LabelType::Data(s) => (VmModel {
                    labels: old(self)@.labels.insert(s@, old(self)@.back),
                    ..old(self)@
                }),
                LabelType::Instruction(s) => (VmModel {
                    labels: old(self)@.labels.insert(s@, old(self)@.insts.len() as u32),
                    ..old(self)@
                }),
            },
    {
        match label {
            LabelType::Data(val) => {
                let back = self.data_mem_back;
                self.labels.insert(val, back);
            },
            LabelType::Instruction(val) => {
                let idx = #[verifier::truncate] (self.instruction_memory.len() as u32);
                self.labels.insert(val, idx);
            },
        }
    }

    /// Appends one decoded instruction to the instruction stream.
    pub fn add_instruction(&mut self, inst: Instruction)
        ensures
            final (self)@ == (VmModel {
                insts: old(self)@.insts.push(inst.deep_view()),
                ..old(self)@
            }),
    {
        let ghost pre = self.instruction_memory.deep_view();
        let ghost iv = inst.deep_view();
        self.instruction_memory.push(inst);
        proof {
            assert(self.instruction_memory.deep_view() =~= pre.push(iv));
        }
    }


    /// Lays out one data directive at the write cursor: integer bytes
    /// little-endian, reserved space, or ASCII text. Returns false, changing
    /// nothing, when the data segment cannot hold it.
    pub fn add_data(&mut self, layout: &str, value: &str) -> (ok: bool)
        requires
            layout@ == ".word"@ || layout@ == ".half"@ || layout@ == ".byte"@ || layout@
                == ".space"@ || layout@ == ".ascii"@ || layout@ == ".asciiz"@,
            (layout@ == ".word"@ || layout@ == ".half"@ || layout@ == ".byte"@ || layout@
                == ".space"@) ==> crate::numbers::spec_layout_compat(layout@, value@),
            (layout@ == ".ascii"@ || layout@ == ".asciiz"@)
                ==> vstd::utf8::is_ascii_chars(value@),
        ensures
            match spec_add_data(old(self)@, layout@, value@) {
                Some(m2) => ok && final (self)@ == m2,
                None => !ok && final (self)@ == old(self)@,
            },
            final (self)@.regs == old(self)@.regs,
            final (self)@.pc == old(self)@.pc,
            final (self)@.hi == old(self)@.hi,
            final (self)@.lo == old(self)@.lo,
            final (self)@.error == old(self)@.error,
            final (self)@.error_msg == old(self)@.error_msg,
            final (self)@.data.len() == old(self)@.data.len(),
            final (self)@.insts == old(self)@.insts,
            final (self)@.labels == old(self)@.labels,
    {
        proof {
            crate::numbers::lemma_parse_i64_nonneg(value@);
        }
        if str_eq(layout, ".word") {
            self.add_int_data(value, 4)
        } else if str_eq(layout, ".half") {
            self.add_int_data(value, 2)
        } else if str_eq(layout, ".byte") {
            self.add_int_data(value, 1)
        } else if str_eq(layout, ".space") {
            let v: i64 = match crate::numbers::parse_i64(value) {
                Some(v) => v,
                None => {
                    proof {
                        assert(false);
                    }
                    0
                },
            };
            let nb: u64 = self.data_mem_back as u64 + v as u64;
            if nb <= 0xFFFF_FFFFu64 {
                self.data_mem_back = nb as u32;
                true
            } else {
                false
            }
        } else {
            let nul = str_eq(layout, ".asciiz");
            let ok = self.add_ascii_data(value, nul);
            proof {
                broadcast use vstd::string::group_string_axioms;

                reveal_strlit(".ascii");
                reveal_strlit(".asciiz");
                assert(layout@ == ".ascii"@ || layout@ == ".asciiz"@);
                assert(".ascii"@.len() == 6);
                assert(".asciiz"@.len() == 7);
                assert(".ascii"@ != ".asciiz"@);
                assert(nul <==> layout@ == ".asciiz"@);
                assert(spec_add_data(old(self)@, layout@, value@) == spec_add_ascii(
                    old(self)@,
                    value@,
                    nul,
                ));
                assert(ok <==> spec_add_data(old(self)@, layout@, value@) is Some);
            }
            ok
        }
    }

    fn add_int_data(&mut self, value: &str, w: usize) -> (ok: bool)
        requires
            1 <= w <= 4,
            crate::numbers::spec_parse_i64(value@) is Some,
            -0x8000_0000 <= crate::numbers::spec_parse_i64(value@).unwrap() <= 0xFFFF_FFFF,
        ensures
            match spec_add_int(old(self)@, value@, w as int) {
                Some(m2) => ok && final (self)@ == m2,
                None => !ok && final (self)@ == old(self)@,
            },
            final (self)@.data.len() == old(self)@.data.len(),
    {
        let v: i64 = match crate::numbers::parse_i64(value) {
            Some(v) => v,
            None => {
                proof {
                    assert(false);
                }
                0
            },
        };
        let word = wrap_u32(v);
        let back = self.data_mem_back;
        if back as u64 + w as u64 <= self.data_memory.len() as u64 && back as u64 + w as u64
            <= 0xFFFF_FFFFu64 {
            self.store_bytes(back as u64, word, w);
            self.data_mem_back = back + w as u32;
            true
        } else {
            false
        }
    }

    fn add_ascii_data(&mut self, value: &str, nul: bool) -> (ok: bool)
        requires
            vstd::utf8::is_ascii_chars(value@),
        ensures
            match spec_add_ascii(old(self)@, value@, nul) {
                Some(m2) => ok && final (self)@ == m2,
                None => !ok && final (self)@ == old(self)@,
            },
            final (self)@.data.len() == old(self)@.data.len(),
    {
        let len = value.unicode_len();
        let extra: usize = if nul {
            1
        } else {
            0
        };
        let back = self.data_mem_back;
        let mem_len = self.data_memory.len();
        if len as u64 > 0xFFFF_FFFFu64 {
            return false;
        }
        if !(back as u64 + len as u64 + extra as u64 <= mem_len as u64 && back as u64 + len as u64
            + extra as u64 <= 0xFFFF_FFFFu64) {
            return false;
        }
        let ghost data0 = self@.data;
        let mut i: usize = 0;
        proof {
            assert(store_chars(data0, back as int, value@.subrange(0, 0)) =~= data0);
        }
        while i < len
            invariant
                len == value@.len(),
                i <= len,
                vstd::utf8::is_ascii_chars(value@),
                back + len + extra <= self@.data.len(),
                back + len + extra <= 0xFFFF_FFFF,
                self@ == (VmModel {
                    data: store_chars(data0, back as int, value@.subrange(0, i as int)),
                    ..old(self)@
                }),
                self@.data.len() == data0.len(),
            decreases len - i,
        {
            let c = value.get_char(i);
            let b: u8 = (c as u32) as u8;
            let ghost pre = self@.data;
            self.data_memory.set(back as usize + i, b);
            proof {
                let part = value@.subrange(0, i + 1);
                assert(part.drop_last() =~= value@.subrange(0, i as int));
                assert(part.last() == value@[i as int]);
                assert(b == value@[i as int] as u8);
                assert(self@.data =~= store_chars(data0, back as int, part));
            }
            i = i + 1;
        }
        proof {
            assert(value@.subrange(0, len as int) =~= value@);
        }
        if nul {
            self.data_memory.set(back as usize + len, 0u8);
        }
        self.data_mem_back = back + len as u32 + extra as u32;
        true
    }

    pub fn get_memory_size(&self) -> (r: u32)
        ensures
            r == self@.data.len() as u32,
    {
        #[verifier::truncate] (self.data_memory.len() as u32)
    }

    pub fn get_instruction_size(&self) -> (r: u32)
        ensures
            r == self@.insts.len() as u32,
    {
        #[verifier::truncate] (self.instruction_memory.len() as u32)
    }

    pub fn get_memory_byte(&self, address: u32) -> (r: Option<u8>)
        ensures
            r == if address < self@.data.len() {
                Some(self@.data[address as int])
            } else {
                None::<u8>
            },
    {
        if (address as usize) < self.data_memory.len() {
            Some(self.data_memory[address as usize])
        } else {
            None
        }
    }

    pub fn get_register(&self, reg: RegisterKind) -> (r: u32)
        ensures
            r == reg_read(self@, reg),
    {
        let n = reg.num();
        if n <= 31 {
            self.registers[n]
        } else if n == 32 {
            self.hi
        } else if n == 33 {
            self.lo
        } else {
            self.pc
        }
    }

    pub fn get_current_source_line(&self) -> (r: u32)
        ensures
            r == if self@.pc < self@.insts.len() {
                self@.insts[self@.pc as int].line
            } else {
                0u32
            },
    {
        if (self.pc as usize) < self.instruction_memory.len() {
            self.instruction_memory[self.pc as usize].source_line
        } else {
            0
        }
    }

    pub fn is_error(&self) -> (r: bool)
        ensures
            r == self@.error,
    {
        self.error_state
    }

    pub fn get_error(&self) -> (r: String)
        ensures
            r@ == self@.error_msg,
    {
        self.error_message.clone()
    }

    fn reg_set(&mut self, r: RegisterKind, v: u32)
        ensures
            final (self)@ == write_gp(old(self)@, r, v),
    {
        let n = r.num();
        if n <= 31 {
            self.registers[n] = v;
        } else if n == 32 {
            self.hi = v;
        } else if n == 33 {
            self.lo = v;
        } else {
            self.pc = v;
        }
    }

    fn inc_pc(&mut self)
        ensures
            final (self)@ == advance(old(self)@),
    {
        if self.pc == 0xFFFF_FFFFu32 {
            self.pc = 0;
        } else {
            self.pc = self.pc + 1;
        }
    }

    fn halt_with(&mut self, msg: &str)
        ensures
            final (self)@ == halt(old(self)@, msg@),
    {
        self.error_state = true;
        self.error_message = msg.to_owned();
    }

    fn cur_arg_count(&self) -> (n: usize)
        requires
            self@.pc < self@.insts.len(),
        ensures
            n == cur_args(self@).len(),
    {
        self.instruction_memory[self.pc as usize].args.len()
    }

    fn cur_arg_reg(&self, i: usize) -> (r: Option<RegisterKind>)
        requires
            self@.pc < self@.insts.len(),
        ensures
            r == s_reg(cur_args(self@), i as int),
    {
        let inst = &self.instruction_memory[self.pc as usize];
        if i < inst.args.len() {
            match &inst.args[i] {
                Argument::Register(rk) => Some(*rk),
                _ => None,
            }
        } else {
            None
        }
    }

    fn cur_arg_imm(&self, i: usize) -> (r: Option<u32>)
        requires
            self@.pc < self@.insts.len(),
        ensures
            r == s_imm(cur_args(self@), i as int),
    {
        let inst = &self.instruction_memory[self.pc as usize];
        if i < inst.args.len() {
            match &inst.args[i] {
                Argument::Immediate(v) => Some(*v),
                _ => None,
            }
        } else {
            None
        }
    }

    fn cur_arg_off(&self, i: usize) -> (r: Option<u32>)
        requires
            self@.pc < self@.insts.len(),
        ensures
            r == s_off(cur_args(self@), i as int),
    {
        let inst = &self.instruction_memory[self.pc as usize];
        if i < inst.args.len() {
            match &inst.args[i] {
                Argument::Offset(v) => Some(*v),
                _ => None,
            }
        } else {
            None
        }
    }

    /// Resolves a label argument: the outer option distinguishes "slot is a
    /// label" and the inner one whether the label table binds it.
    fn cur_label_addr(&self, i: usize) -> (r: Option<Option<u32>>)
        requires
            self@.pc < self@.insts.len(),
        ensures
            r == match s_label(cur_args(self@), i as int) {
                Some(l) => Some(
                    if self@.labels.contains_key(l) {
                        Some(self@.labels[l])
                    } else {
                        None::<u32>
                    },
                ),
                None => None::<Option<u32>>,
            },
    {
        let inst = &self.instruction_memory[self.pc as usize];
        if i < inst.args.len() {
            match &inst.args[i] {
                Argument::Label(l) => Some(self.labels.get(l.as_str())),
                _ => None,
            }
        } else {
            None
        }
    }

    fn get_data_operands(&self) -> (r: DataOpExec)
        requires
            self@.pc < self@.insts.len(),
        ensures
            match spec_data_operands(self@, cur_args(self@)) {
                DataOp::Found(rk, addr) => r == DataOpExec::Found(rk, addr as u64) && 0 <= addr
                    < 0x2_0000_0000,
                DataOp::MissingLabel => r == DataOpExec::MissingLabel,
                DataOp::Malformed => r == DataOpExec::Malformed,
            },
    {
        match self.cur_arg_reg(0) {
            None => DataOpExec::Malformed,
            Some(rs) => {
                let n = self.cur_arg_count();
                if n == 2 {
                    match self.cur_arg_reg(1) {
                        Some(rd) => {
                            return DataOpExec::Found(rs, self.get_register(rd) as u64);
                        },
                        None => {},
                    }
                    match self.cur_arg_imm(1) {
                        Some(imm) => {
                            return DataOpExec::Found(rs, imm as u64);
                        },
                        None => {},
                    }
                    match self.cur_label_addr(1) {
                        Some(Some(a)) => DataOpExec::Found(rs, a as u64),
                        Some(None) => DataOpExec::MissingLabel,
                        None => DataOpExec::Malformed,
                    }
                } else if n >= 3 && self.cur_arg_off(1).is_some() {
                    let off = match self.cur_arg_off(1) {
                        Some(o) => o,
                        None => 0,
                    };
                    match self.cur_arg_reg(2) {
                        Some(rd) => {
                            return DataOpExec::Found(
                                rs,
                                self.get_register(rd) as u64 + off as u64,
                            );
                        },
                        None => {},
                    }
                    match self.cur_arg_imm(2) {
                        Some(imm) => {
                            return DataOpExec::Found(rs, imm as u64 + off as u64);
                        },
                        None => {},
                    }
                    match self.cur_label_addr(2) {
                        Some(Some(a)) => DataOpExec::Found(rs, a as u64 + off as u64),
                        Some(None) => DataOpExec::MissingLabel,
                        None => DataOpExec::Malformed,
                    }
                } else {
                    DataOpExec::Malformed
                }
            },
        }
    }

    fn get_triple_operands(&self) -> (r: Option<(RegisterKind, u32, u32)>)
        requires
            self@.pc < self@.insts.len(),
        ensures
            r == spec_triple_operands(self@, cur_args(self@)),
    {
        let n = self.cur_arg_count();
        if n >= 3 {
            match (self.cur_arg_reg(0), self.cur_arg_reg(1)) {
                (Some(d), Some(s1)) => {
                    match self.cur_arg_reg(2) {
                        Some(s2) => {
                            return Some((d, self.get_register(s1), self.get_register(s2)));
                        },
                        None => {},
                    }
                    match self.cur_arg_imm(2) {
                        Some(imm) => Some((d, self.get_register(s1), imm)),
                        None => None,
                    }
                },
                _ => None,
            }
        } else {
            None
        }
    }

    /// The two compared values of a branch and, when the branch is shaped
    /// correctly, the resolved target.
    fn get_branch_operands(&self) -> (r: Option<(u32, u32, Option<u32>)>)
        requires
            self@.pc < self@.insts.len(),
        ensures
            r == match spec_branch_operands(self@, cur_args(self@)) {
                Some((a, b, l)) => Some(
                    (
                        a,
                        b,
                        if self@.labels.contains_key(l) {
                            Some(self@.labels[l])
                        } else {
                            None::<u32>
                        },
                    ),
                ),
                None => None::<(u32, u32, Option<u32>)>,
            },
    {
        let n = self.cur_arg_count();
        if n >= 3 {
            match (self.cur_arg_reg(0), self.cur_label_addr(2)) {
                (Some(ra), Some(target)) => {
                    match self.cur_arg_reg(1) {
                        Some(rb) => {
                            return Some((self.get_register(ra), self.get_register(rb), target));
                        },
                        None => {},
                    }
                    match self.cur_arg_imm(1) {
                        Some(imm) => Some((self.get_register(ra), imm, target)),
                        None => None,
                    }
                },
                _ => None,
            }
        } else {
            None
        }
    }

    fn load_half(&self, addr: u64) -> (r: u32)
        requires
            addr + 2 <= self@.data.len(),
        ensures
            r == le_half(self@.data, addr as int),
    {
        let n = self.data_memory.len();
        proof {
            assert(addr + 2 <= n);
        }
        let a = addr as usize;
        self.data_memory[a] as u32 + (self.data_memory[a + 1] as u32) * 0x100
    }

    fn load_word(&self, addr: u64) -> (r: u32)
        requires
            addr + 4 <= self@.data.len(),
        ensures
            r == le_word(self@.data, addr as int),
    {
        let n = self.data_memory.len();
        proof {
            assert(addr + 4 <= n);
        }
        let a = addr as usize;
        self.data_memory[a] as u32 + (self.data_memory[a + 1] as u32) * 0x100 + (self.data_memory[a
            + 2] as u32) * 0x1_0000 + (self.data_memory[a + 3] as u32) * 0x100_0000
    }

    fn store_bytes(&mut self, addr: u64, v: u32, w: usize)
        requires
            1 <= w <= 4,
            addr + w <= old(self)@.data.len(),
        ensures
            final (self)@ == (VmModel {
                data: store_le(old(self)@.data, addr as int, v, w as int),
                ..old(self)@
            }),
            final (self)@.data.len() == old(self)@.data.len(),
    {
        let n = self.data_memory.len();
        proof {
            assert(addr + w <= n);
        }
        let a = addr as usize;
        let ghost data0 = self@.data;
        self.data_memory.set(a, (v % 0x100) as u8);
        if w >= 2 {
            self.data_memory.set(a + 1, ((v / 0x100) % 0x100) as u8);
        }
        if w >= 3 {
            self.data_memory.set(a + 2, ((v / 0x1_0000) % 0x100) as u8);
        }
        if w >= 4 {
            self.data_memory.set(a + 3, ((v / 0x100_0000) % 0x100) as u8);
        }
        proof {
            let ai = addr as int;
            assert(store_le(data0, ai, v, 0) == data0);
            assert(store_le(data0, ai, v, 1) == store_le(data0, ai, v, 0).update(
                ai,
                byte_of(v, 0),
            ));
            assert(store_le(data0, ai, v, 2) == store_le(data0, ai, v, 1).update(
                ai + 1,
                byte_of(v, 1),
            ));
            assert(store_le(data0, ai, v, 3) == store_le(data0, ai, v, 2).update(
                ai + 2,
                byte_of(v, 2),
            ));
            assert(store_le(data0, ai, v, 4) == store_le(data0, ai, v, 3).update(
                ai + 3,
                byte_of(v, 3),
            ));
            if w == 1 {
                assert(self@.data =~= store_le(data0, ai, v, w as int));
            } else if w == 2 {
                assert(self@.data =~= store_le(data0, ai, v, w as int));
            } else if w == 3 {
                assert(self@.data =~= store_le(data0, ai, v, w as int));
            } else {
                assert(self@.data =~= store_le(data0, ai, v, w as int));
            }
        }
    }

    /// Executes exactly one instruction: the machine either performs the
    /// instruction's whole effect, or halts with an error and changes
    /// nothing else. A halted machine stays exactly as it is.
    pub fn step(&mut self)
        ensures
            final (self)@ == spec_step(old(self)@),
    {
        if self.error_state {
            return ;
        }
        if (self.pc as usize) >= self.instruction_memory.len() {
            self.halt_with("Program counter out of range");
            return ;
        }
        let op = self.instruction_memory[self.pc as usize].opcode;
        match op {
            Opcode::Mfhi | Opcode::Mflo | Opcode::Mthi | Opcode::Mtlo => self.step_special_move(
                op,
            ),
            Opcode::Lw | Opcode::Lh | Opcode::Lb | Opcode::La => self.step_load(op),
            Opcode::Sw | Opcode::Sh | Opcode::Sb => self.step_store(op),
            Opcode::Add | Opcode::Addu | Opcode::Sub | Opcode::Subu | Opcode::Mul | Opcode::Mulo
                | Opcode::Mulou | Opcode::Rem | Opcode::Remu | Opcode::And | Opcode::Nor
                | Opcode::Or | Opcode::Xor => self.step_alu3(op),
            Opcode::Mult | Opcode::Multu => self.step_mult(op),
            Opcode::Abs | Opcode::Neg | Opcode::Negu | Opcode::Move => self.step_two_reg(op),
            Opcode::Li | Opcode::Not | Opcode::Jump | Opcode::Nop | Opcode::Unset => self
                .step_misc(op),
            Opcode::Beq => self.step_branch(BranchKind::Eq),
            Opcode::Bne => self.step_branch(BranchKind::Ne),
            Opcode::Blt => self.step_branch(BranchKind::Lt),
            Opcode::Ble => self.step_branch(BranchKind::Le),
            Opcode::Bgt => self.step_branch(BranchKind::Gt),
            Opcode::Bge => self.step_branch(BranchKind::Ge),
            Opcode::Div => self.step_div(true),
            Opcode::Divu => self.step_div(false),
        }
    }

    /// The HI/LO move family.
    #[verifier::rlimit(60)]
    fn step_special_move(&mut self, op: Opcode)
        requires
            !old(self)@.error,
            old(self)@.pc < old(self)@.insts.len(),
            old(self)@.insts[old(self)@.pc as int].opcode == op,
            op == Opcode::Mfhi || op == Opcode::Mflo || op == Opcode::Mthi || op == Opcode::Mtlo,
        ensures
            final (self)@ == spec_step_inst(old(self)@, old(self)@.insts[old(self)@.pc as int]),
    {
        match op {
            Opcode::Mfhi => match self.cur_arg_reg(0) {
                Some(r) => {
                    let v = self.hi;
                    self.reg_set(r, v);
                    self.inc_pc();
                },
                None => self.halt_with("Invalid instruction format, resulting from parse error"),
            },
            Opcode::Mflo => match self.cur_arg_reg(0) {
                Some(r) => {
                    let v = self.lo;
                    self.reg_set(r, v);
                    self.inc_pc();
                },
                None => self.halt_with("Invalid instruction format, resulting from parse error"),
            },
            Opcode::Mthi => match self.cur_arg_reg(0) {
                Some(r) => {
                    self.hi = self.get_register(r);
                    self.inc_pc();
                },
                None => self.halt_with("Invalid instruction format, resulting from parse error"),
            },
            Opcode::Mtlo => match self.cur_arg_reg(0) {
                Some(r) => {
                    self.lo = self.get_register(r);
                    self.inc_pc();
                },
                None => self.halt_with("Invalid instruction format, resulting from parse error"),
            },
            _ => {
                proof {
                    assert(false);
                }
            },
        }
    }

    /// The load family: loads and the address computation `la`.
    #[verifier::rlimit(60)]
    fn step_load(&mut self, op: Opcode)
        requires
            !old(self)@.error,
            old(self)@.pc < old(self)@.insts.len(),
            old(self)@.insts[old(self)@.pc as int].opcode == op,
            op == Opcode::Lw || op == Opcode::Lh || op == Opcode::Lb || op == Opcode::La,
        ensures
            final (self)@ == spec_step_inst(old(self)@, old(self)@.insts[old(self)@.pc as int]),
    {
        match op {
            Opcode::Lw => match self.get_data_operands() {
                DataOpExec::Found(dest, addr) => {
                    if addr + 4 <= self.data_memory.len() as u64 {
                        let v = self.load_word(addr);
                        self.reg_set(dest, v);
                        self.inc_pc();
                    } else {
                        self.halt_with("Attempted to load from invalid memory address");
                    }
                },
                DataOpExec::MissingLabel => self.halt_with(
                    "Nonexistent label, resulting from parse error",
                ),
                DataOpExec::Malformed => self.halt_with(
                    "Invalid instruction format, resulting from parse error",
                ),
            },
            Opcode::Lh => match self.get_data_operands() {
                DataOpExec::Found(dest, addr) => {
                    if addr + 2 <= self.data_memory.len() as u64 {
                        let v = self.load_half(addr);
                        self.reg_set(dest, v);
                        self.inc_pc();
                    } else {
                        self.halt_with("Attempted to load from invalid memory address");
                    }
                },
                DataOpExec::MissingLabel => self.halt_with(
                    "Nonexistent label, resulting from parse error",
                ),
                DataOpExec::Malformed => self.halt_with(
                    "Invalid instruction format, resulting from parse error",
                ),
            },
            Opcode::Lb => match self.get_data_operands() {
                DataOpExec::Found(dest, addr) => {
                    if addr + 1 <= self.data_memory.len() as u64 {
                        let v = self.data_memory[addr as usize] as u32;
                        self.reg_set(dest, v);
                        self.inc_pc();
                    } else {
                        self.halt_with("Attempted to load from invalid memory address");
                    }
                },
                DataOpExec::MissingLabel => self.halt_with(
                    "Nonexistent label, resulting from parse error",
                ),
                DataOpExec::Malformed => self.halt_with(
                    "Invalid instruction format, resulting from parse error",
                ),
            },
            Opcode::La => match self.get_data_operands() {
                DataOpExec::Found(dest, addr) => {
                    if addr <= 0xFFFF_FFFFu64 {
                        self.reg_set(dest, addr as u32);
                        self.inc_pc();
                    } else {
                        self.halt_with("Attempted to load from invalid memory address");
                    }
                },
                DataOpExec::MissingLabel => self.halt_with(
                    "Nonexistent label, resulting from parse error",
                ),
                DataOpExec::Malformed => self.halt_with(
                    "Invalid instruction format, resulting from parse error",
                ),
            },
            _ => {
                proof {
                    assert(false);
                }
            },
        }
    }

    /// The store family.
    #[verifier::rlimit(60)]
    fn step_store(&mut self, op: Opcode)
        requires
            !old(self)@.error,
            old(self)@.pc < old(self)@.insts.len(),
            old(self)@.insts[old(self)@.pc as int].opcode == op,
            op == Opcode::Sw || op == Opcode::Sh || op == Opcode::Sb,
        ensures
            final (self)@ == spec_step_inst(old(self)@, old(self)@.insts[old(self)@.pc as int]),
    {
        match op {
            Opcode::Sw => match self.get_data_operands() {
                DataOpExec::Found(src, addr) => {
                    if addr + 4 <= self.data_memory.len() as u64 {
                        let v = self.get_register(src);
                        self.store_bytes(addr, v, 4);
                        self.inc_pc();
                    } else {
                        self.halt_with("Attempted to store to invalid memory address");
                    }
                },
                DataOpExec::MissingLabel => self.halt_with(
                    "Nonexistent label, resulting from parse error",
                ),
                DataOpExec::Malformed => self.halt_with(
                    "Invalid instruction format, resulting from parse error",
                ),
            },
            Opcode::Sh => match self.get_data_operands() {
                DataOpExec::Found(src, addr) => {
                    if addr + 2 <= self.data_memory.len() as u64 {
                        let v = self.get_register(src);
                        self.store_bytes(addr, v, 2);
                        self.inc_pc();
                    } else {
                        self.halt_with("Attempted to store to invalid memory address");
                    }
                },
                DataOpExec::MissingLabel => self.halt_with(
                    "Nonexistent label, resulting from parse error",
                ),
                DataOpExec::Malformed => self.halt_with(
                    "Invalid instruction format, resulting from parse error",
                ),
            },
            Opcode::Sb => match self.get_data_operands() {
                DataOpExec::Found(src, addr) => {
                    if addr + 1 <= self.data_memory.len() as u64 {
                        let v = self.get_register(src);
                        self.store_bytes(addr, v, 1);
                        self.inc_pc();
                    } else {
                        self.halt_with("Attempted to store to invalid memory address");
                    }
                },
                DataOpExec::MissingLabel => self.halt_with(
                    "Nonexistent label, resulting from parse error",
                ),
                DataOpExec::Malformed => self.halt_with(
                    "Invalid instruction format, resulting from parse error",
                ),
            },
            _ => {
                proof {
                    assert(false);
                }
            },
        }
    }

    /// The three-operand arithmetic and logical family.
    #[verifier::rlimit(60)]
    fn step_alu3(&mut self, op: Opcode)
        requires
            !old(self)@.error,
            old(self)@.pc < old(self)@.insts.len(),
            old(self)@.insts[old(self)@.pc as int].opcode == op,
            op == Opcode::Add || op == Opcode::Addu || op == Opcode::Sub || op == Opcode::Subu || op == Opcode::Mul || op == Opcode::Mulo || op == Opcode::Mulou || op == Opcode::Rem || op == Opcode::Remu || op == Opcode::And || op == Opcode::Nor || op == Opcode::Or || op == Opcode::Xor,
        ensures
            final (self)@ == spec_step_inst(old(self)@, old(self)@.insts[old(self)@.pc as int]),
    {
        match op {
            Opcode::Add => match self.get_triple_operands() {
                Some((d, a, b)) => {
                    let sum: i64 = as_signed(a) as i64 + as_signed(b) as i64;
                    if sum >= -0x8000_0000i64 && sum <= 0x7FFF_FFFFi64 {
                        let res = wrap_u32(sum);
                        self.reg_set(d, res);
                        self.inc_pc();
                    } else {
                        self.halt_with("Integer overflow performing addition");
                    }
                },
                None => self.halt_with("Invalid instruction format, resulting from parse error"),
            },
            Opcode::Addu => match self.get_triple_operands() {
                Some((d, a, b)) => {
                    let sum: u64 = a as u64 + b as u64;
                    self.reg_set(d, (sum % 0x1_0000_0000) as u32);
                    self.inc_pc();
                },
                None => self.halt_with("Invalid instruction format, resulting from parse error"),
            },
            Opcode::Sub => match self.get_triple_operands() {
                Some((d, a, b)) => {
                    let diff: i64 = as_signed(a) as i64 - as_signed(b) as i64;
                    if diff >= -0x8000_0000i64 && diff <= 0x7FFF_FFFFi64 {
                        let res = wrap_u32(diff);
                        self.reg_set(d, res);
                        self.inc_pc();
                    } else {
                        self.halt_with("Integer overflow performing subtraction");
                    }
                },
                None => self.halt_with("Invalid instruction format, resulting from parse error"),
            },
            Opcode::Subu => match self.get_triple_operands() {
                Some((d, a, b)) => {
                    let res: u32 = if a >= b {
                        a - b
                    } else {
                        ((0x1_0000_0000u64 + a as u64) - b as u64) as u32
                    };
                    proof {
                        assert(res as int == (a - b) % 0x1_0000_0000);
                    }
                    self.reg_set(d, res);
                    self.inc_pc();
                },
                None => self.halt_with("Invalid instruction format, resulting from parse error"),
            },
            Opcode::Mul => match self.get_triple_operands() {
                Some((d, a, b)) => {
                    let ai: i64 = as_signed(a) as i64;
                    let bi: i64 = as_signed(b) as i64;
                    proof {
                        assert(-0x4000_0000_0000_0000 <= (ai as int) * (bi as int)
                            <= 0x4000_0000_0000_0000) by (nonlinear_arith)
                            requires
                                -0x8000_0000 <= ai <= 0x7FFF_FFFF,
                                -0x8000_0000 <= bi <= 0x7FFF_FFFF,
                        ;
                    }
                    let prod: i64 = ai * bi;
                    let pu = to_u64_wrap(prod);
                    let lo = (pu % 0x1_0000_0000) as u32;
                    let hi = (pu / 0x1_0000_0000) as u32;
                    proof {
                        lemma_mod_mod64(prod as int);
                    }
                    self.reg_set(d, lo);
                    self.hi = hi;
                    self.lo = lo;
                    self.inc_pc();
                },
                None => self.halt_with("Invalid instruction format, resulting from parse error"),
            },
            Opcode::Mulo => match self.get_triple_operands() {
                Some((d, a, b)) => {
                    let ai: i64 = as_signed(a) as i64;
                    let bi: i64 = as_signed(b) as i64;
                    proof {
                        assert(-0x4000_0000_0000_0000 <= (ai as int) * (bi as int)
                            <= 0x4000_0000_0000_0000) by (nonlinear_arith)
                            requires
                                -0x8000_0000 <= ai <= 0x7FFF_FFFF,
                                -0x8000_0000 <= bi <= 0x7FFF_FFFF,
                        ;
                    }
                    let prod: i64 = ai * bi;
                    if prod >= -0x8000_0000i64 && prod <= 0x7FFF_FFFFi64 {
                        let res = wrap_u32(prod);
                        self.reg_set(d, res);
                        self.inc_pc();
                    } else {
                        self.halt_with("Integer overflow performing multiplication");
                    }
                },
                None => self.halt_with("Invalid instruction format, resulting from parse error"),
            },
            Opcode::Mulou => match self.get_triple_operands() {
                Some((d, a, b)) => {
                    proof {
                        assert((a as int) * (b as int) < 0x1_0000_0000_0000_0000)
                            by (nonlinear_arith)
                            requires
                                a <= 0xFFFF_FFFFu32,
                                b <= 0xFFFF_FFFFu32,
                        ;
                    }
                    let prod: u64 = a as u64 * b as u64;
                    if prod <= 0xFFFF_FFFFu64 {
                        self.reg_set(d, prod as u32);
                        self.inc_pc();
                    } else {
                        self.halt_with("Integer overflow performing multiplication");
                    }
                },
                None => self.halt_with("Invalid instruction format, resulting from parse error"),
            },
            Opcode::Rem => match self.get_triple_operands() {
                Some((d, a, b)) => {
                    if as_signed(b) == 0i32 {
                        self.inc_pc();
                    } else {
                        let a64: i64 = as_signed(a) as i64;
                        let b64: i64 = as_signed(b) as i64;
                        let r: i64 = match a64.checked_rem(b64) {
                            Some(v) => v,
                            None => {
                                proof {
                                    assert(false);
                                }
                                0
                            },
                        };
                        proof {
                            assert(r as int == t_rem(sval(a), sval(b)));
                        }
                        let pu = to_u64_wrap(r);
                        let lo = (pu % 0x1_0000_0000) as u32;
                        let hi = (pu / 0x1_0000_0000) as u32;
                        proof {
                            lemma_mod_mod64(r as int);
                        }
                        self.reg_set(d, lo);
                        self.hi = hi;
                        self.lo = lo;
                        self.inc_pc();
                    }
                },
                None => self.halt_with("Invalid instruction format, resulting from parse error"),
            },
            Opcode::Remu => match self.get_triple_operands() {
                Some((d, a, b)) => {
                    if b == 0 {
                        self.inc_pc();
                    } else {
                        let r: u32 = a % b;
                        proof {
                            lemma_mod_mod64(r as int);
                        }
                        self.reg_set(d, r);
                        self.hi = 0;
                        self.lo = r;
                        self.inc_pc();
                    }
                },
                None => self.halt_with("Invalid instruction format, resulting from parse error"),
            },
            Opcode::And => match self.get_triple_operands() {
                Some((d, a, b)) => {
                    self.reg_set(d, a & b);
                    self.inc_pc();
                },
                None => self.halt_with("Invalid instruction format, resulting from parse error"),
            },
            Opcode::Nor => match self.get_triple_operands() {
                Some((d, a, b)) => {
                    self.reg_set(d, !(a | b));
                    self.inc_pc();
                },
                None => self.halt_with("Invalid instruction format, resulting from parse error"),
            },
            Opcode::Or => match self.get_triple_operands() {
                Some((d, a, b)) => {
                    self.reg_set(d, a | b);
                    self.inc_pc();
                },
                None => self.halt_with("Invalid instruction format, resulting from parse error"),
            },
            Opcode::Xor => match self.get_triple_operands() {
                Some((d, a, b)) => {
                    self.reg_set(d, a ^ b);
                    self.inc_pc();
                },
                None => self.halt_with("Invalid instruction format, resulting from parse error"),
            },
            _ => {
                proof {
                    assert(false);
                }
            },
        }
    }

    /// The two-operand multiply family, writing HI and LO.
    #[verifier::rlimit(60)]
    fn step_mult(&mut self, op: Opcode)
        requires
            !old(self)@.error,
            old(self)@.pc < old(self)@.insts.len(),
            old(self)@.insts[old(self)@.pc as int].opcode == op,
            op == Opcode::Mult || op == Opcode::Multu,
        ensures
            final (self)@ == spec_step_inst(old(self)@, old(self)@.insts[old(self)@.pc as int]),
    {
        match op {
            Opcode::Mult => match (self.cur_arg_reg(0), self.cur_arg_reg(1)) {
                (Some(ra), Some(rb)) => {
                    let ai: i64 = as_signed(self.get_register(ra)) as i64;
                    let bi: i64 = as_signed(self.get_register(rb)) as i64;
                    proof {
                        assert(-0x4000_0000_0000_0000 <= (ai as int) * (bi as int)
                            <= 0x4000_0000_0000_0000) by (nonlinear_arith)
                            requires
                                -0x8000_0000 <= ai <= 0x7FFF_FFFF,
                                -0x8000_0000 <= bi <= 0x7FFF_FFFF,
                        ;
                    }
                    let prod: i64 = ai * bi;
                    let pu = to_u64_wrap(prod);
                    proof {
                        lemma_mod_mod64(prod as int);
                    }
                    self.hi = (pu / 0x1_0000_0000) as u32;
                    self.lo = (pu % 0x1_0000_0000) as u32;
                    self.inc_pc();
                },
                _ => self.halt_with("Invalid instruction format, resulting from parse error"),
            },
            Opcode::Multu => match (self.cur_arg_reg(0), self.cur_arg_reg(1)) {
                (Some(ra), Some(rb)) => {
                    let av = self.get_register(ra);
                    let bv = self.get_register(rb);
                    proof {
                        assert((av as int) * (bv as int) < 0x1_0000_0000_0000_0000)
                            by (nonlinear_arith)
                            requires
                                av <= 0xFFFF_FFFFu32,
                                bv <= 0xFFFF_FFFFu32,
                        ;
                    }
                    let prod: u64 = av as u64 * bv as u64;
                    proof {
                        lemma_mod_mod64(prod as int);
                    }
                    self.hi = (prod / 0x1_0000_0000) as u32;
                    self.lo = (prod % 0x1_0000_0000) as u32;
                    self.inc_pc();
                },
                _ => self.halt_with("Invalid instruction format, resulting from parse error"),
            },
            _ => {
                proof {
                    assert(false);
                }
            },
        }
    }

    /// The two-register family: absolute value, negation, move.
    #[verifier::rlimit(60)]
    fn step_two_reg(&mut self, op: Opcode)
        requires
            !old(self)@.error,
            old(self)@.pc < old(self)@.insts.len(),
            old(self)@.insts[old(self)@.pc as int].opcode == op,
            op == Opcode::Abs || op == Opcode::Neg || op == Opcode::Negu || op == Opcode::Move,
        ensures
            final (self)@ == spec_step_inst(old(self)@, old(self)@.insts[old(self)@.pc as int]),
    {
        match op {
            Opcode::Abs => match (self.cur_arg_reg(0), self.cur_arg_reg(1)) {
                (Some(d), Some(src)) => {
                    let v = as_signed(self.get_register(src));
                    let res: i32 = if v == i32::MIN {
                        v
                    } else if v < 0i32 {
                        -v
                    } else {
                        v
                    };
                    let out = wrap_u32(res as i64);
                    self.reg_set(d, out);
                    self.inc_pc();
                },
                _ => self.halt_with("Invalid instruction format, resulting from parse error"),
            },
            Opcode::Neg => match (self.cur_arg_reg(0), self.cur_arg_reg(1)) {
                (Some(d), Some(src)) => {
                    let v = as_signed(self.get_register(src));
                    if v == i32::MIN {
                        self.halt_with("Integer overflow when attempting negation");
                    } else {
                        let out = wrap_u32(-(v as i64));
                        self.reg_set(d, out);
                        self.inc_pc();
                    }
                },
                _ => self.halt_with("Invalid instruction format, resulting from parse error"),
            },
            Opcode::Negu => match (self.cur_arg_reg(0), self.cur_arg_reg(1)) {
                (Some(d), Some(src)) => {
                    let v = as_signed(self.get_register(src));
                    let out = wrap_u32(-(v as i64));
                    self.reg_set(d, out);
                    self.inc_pc();
                },
                _ => self.halt_with("Invalid instruction format, resulting from parse error"),
            },
            Opcode::Move => match (self.cur_arg_reg(0), self.cur_arg_reg(1)) {
                (Some(d), Some(src)) => {
                    let v = self.get_register(src);
                    self.reg_set(d, v);
                    self.inc_pc();
                },
                _ => self.halt_with("Invalid instruction format, resulting from parse error"),
            },
            _ => {
                proof {
                    assert(false);
                }
            },
        }
    }

    /// Load-immediate, bitwise not, jump, no-op and the unknown opcode.
    #[verifier::rlimit(60)]
    fn step_misc(&mut self, op: Opcode)
        requires
            !old(self)@.error,
            old(self)@.pc < old(self)@.insts.len(),
            old(self)@.insts[old(self)@.pc as int].opcode == op,
            op == Opcode::Li || op == Opcode::Not || op == Opcode::Jump || op == Opcode::Nop || op == Opcode::Unset,
        ensures
            final (self)@ == spec_step_inst(old(self)@, old(self)@.insts[old(self)@.pc as int]),
    {
        match op {
            Opcode::Li => match (self.cur_arg_reg(0), self.cur_arg_imm(1)) {
                (Some(d), Some(imm)) => {
                    self.reg_set(d, imm);
                    self.inc_pc();
                },
                _ => self.halt_with("Invalid instruction format, resulting from parse error"),
            },
            Opcode::Not => match self.cur_arg_reg(0) {
                Some(d) => {
                    match self.cur_arg_reg(1) {
                        Some(src) => {
                            let v = self.get_register(src);
                            self.reg_set(d, !v);
                            self.inc_pc();
                            return ;
                        },
                        None => {},
                    }
                    match self.cur_arg_imm(1) {
                        Some(imm) => {
                            self.reg_set(d, !imm);
                            self.inc_pc();
                        },
                        None => self.halt_with(
                            "Invalid instruction format, resulting from parse error",
                        ),
                    }
                },
                None => self.halt_with("Invalid instruction format, resulting from parse error"),
            },
            Opcode::Jump => match self.cur_label_addr(0) {
                Some(Some(addr)) => {
                    self.pc = addr;
                },
                Some(None) => self.halt_with("Nonexistent label, resulting from parse error"),
                None => self.halt_with("Invalid instruction format, resulting from parse error"),
            },
            Opcode::Nop => self.inc_pc(),
            Opcode::Unset => self.halt_with("Unknown instruction, resulting from parse error"),
            _ => {
                proof {
                    assert(false);
                }
            },
        }
    }
    /// The shared body of the branch family.
    fn step_branch(&mut self, k: BranchKind)
        requires
            !old(self)@.error,
            old(self)@.pc < old(self)@.insts.len(),
        ensures
            final (self)@ == spec_branch(old(self)@, cur_args(old(self)@), k),
    {
        match self.get_branch_operands() {
            Some((a, b, target)) => {
                let taken = match k {
                    BranchKind::Eq => a == b,
                    BranchKind::Ne => a != b,
                    BranchKind::Lt => a < b,
                    BranchKind::Le => a <= b,
                    BranchKind::Gt => a > b,
                    BranchKind::Ge => a >= b,
                };
                if taken {
                    match target {
                        Some(addr) => {
                            self.pc = addr;
                        },
                        None => self.halt_with("Nonexistent label, resulting from parse error"),
                    }
                } else {
                    self.inc_pc();
                }
            },
            None => self.halt_with("Invalid instruction format, resulting from parse error"),
        }
    }

    /// The shared body of the division family.
    fn step_div(&mut self, signed: bool)
        requires
            !old(self)@.error,
            old(self)@.pc < old(self)@.insts.len(),
        ensures
            final (self)@ == spec_div_like(old(self)@, cur_args(old(self)@), signed),
    {
        let n = self.cur_arg_count();
        if n == 2 {
            match (self.cur_arg_reg(0), self.cur_arg_reg(1)) {
                (Some(ra), Some(rb)) => {
                    let a = self.get_register(ra);
                    let b = self.get_register(rb);
                    self.div_write(a, b, signed, None);
                },
                _ => self.halt_with("Invalid instruction format, resulting from parse error"),
            }
        } else if n >= 3 {
            match (self.cur_arg_reg(0), self.cur_arg_reg(1)) {
                (Some(d), Some(ra)) => {
                    let a = self.get_register(ra);
                    match self.cur_arg_reg(2) {
                        Some(rb) => {
                            let b = self.get_register(rb);
                            self.div_write(a, b, signed, Some(d));
                            return ;
                        },
                        None => {},
                    }
                    match self.cur_arg_imm(2) {
                        Some(imm) => self.div_write(a, imm, signed, Some(d)),
                        None => self.halt_with(
                            "Invalid instruction format, resulting from parse error",
                        ),
                    }
                },
                _ => self.halt_with("Invalid instruction format, resulting from parse error"),
            }
        } else {
            self.halt_with("Invalid instruction format, resulting from parse error");
        }
    }

    fn div_write(&mut self, a: u32, b: u32, signed: bool, dest: Option<RegisterKind>)
        ensures
            final (self)@ == spec_div_write(old(self)@, a, b, signed, dest),
    {
        if signed {
            let q = as_signed(a).checked_div(as_signed(b));
            let r = as_signed(a).checked_rem(as_signed(b));
            match (q, r) {
                (Some(qv), Some(rv)) => {
                    proof {
                        assert(qv as int == t_div(sval(a), sval(b)));
                        assert(rv as int == t_rem(sval(a), sval(b)));
                    }
                    let qu = wrap_u32(qv as i64);
                    let ru = wrap_u32(rv as i64);
                    match dest {
                        Some(d) => self.reg_set(d, qu),
                        None => {},
                    }
                    self.lo = qu;
                    self.hi = ru;
                    self.inc_pc();
                },
                _ => {
                    proof {
                        if sval(b) != 0 && !(sval(a) == -0x8000_0000 && sval(b) == -1) {
                            lemma_t_div_range(sval(a), sval(b));
                            assert(false);
                        }
                    }
                    self.inc_pc();
                },
            }
        } else {
            let q = a.checked_div(b);
            let r = a.checked_rem(b);
            match (q, r) {
                (Some(qv), Some(rv)) => {
                    match dest {
                        Some(d) => self.reg_set(d, qv),
                        None => {},
                    }
                    self.lo = qv;
                    self.hi = rv;
                    self.inc_pc();
                },
                _ => self.inc_pc(),
            }
        }
    }
}

impl VirtualMachineInterface for VirtualMachine {
    fn get_memory_size(&self) -> u32 {
        self.get_memory_size()
    }

    fn get_instruction_size(&self) -> u32 {
        self.get_instruction_size()
    }

    fn get_memory_byte(&self, address: u32) -> Option<u8> {
        self.get_memory_byte(address)
    }

    fn get_register(&self, reg: RegisterKind) -> u32 {
        self.get_register(reg)
    }

    fn get_current_source_line(&self) -> u32 {
        self.get_current_source_line()
    }

    fn is_error(&self) -> bool {
        self.is_error()
    }

    fn get_error(&self) -> String {
        self.get_error()
    }

    fn step(&mut self) {
        self.step()
    }
}

} // verus!
