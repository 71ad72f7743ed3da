//! The decoded instruction model: opcodes, arguments, labels, the builder
//! the parser fills, and the string-keyed tables for labels and constants.

use crate::text::str_eq;
use crate::virtual_machine_interface::RegisterKind;
use vstd::prelude::*;

verus! {

/// The mnemonic of a decoded operation. `Unset` marks a builder that has not
/// received a recognized mnemonic; stepping such an instruction is an error.
#[derive(Debug, Clone, Copy, PartialEq, Eq, Structural)]
pub enum Opcode {
    Mfhi,
    Mflo,
    Mthi,
    Mtlo,
    Lw,
    Lh,
    Lb,
    La,
    Sw,
    Sh,
    Sb,
    Add,
    Addu,
    Sub,
    Subu,
    Mul,
    Mulo,
    Mulou,
    Rem,
    Remu,
    Mult,
    Multu,
    Abs,
    Neg,
    Negu,
    And,
    Nor,
    Or,
    Xor,
    Nop,
    Move,
    Li,
    Div,
    Divu,
    Not,
    Beq,
    Bne,
    Blt,
    Ble,
    Bgt,
    Bge,
    Jump,
    Unset,
}

/// One operand of a decoded operation.
#[derive(Debug, Clone)]
pub enum Argument {
    Register(RegisterKind),
    Immediate(u32),
    Label(String),
    Offset(u32),
}

/// The mathematical value of an operand.
pub ghost enum ArgModel {
    Register(RegisterKind),
    Immediate(u32),
    Label(Seq<char>),
    Offset(u32),
}

impl DeepView for Argument {
    type V = ArgModel;

    open spec fn deep_view(&self) -> ArgModel {
        match self {
            Argument::Register(r) => ArgModel::Register(*r),
            Argument::Immediate(v) => ArgModel::Immediate(*v),
            Argument::Label(s) => ArgModel::Label(s@),
            Argument::Offset(v) => ArgModel::Offset(*v),
        }
    }
}

/// A label declaration, bound either to the data segment cursor or to the
/// next instruction index.
#[derive(Debug)]
pub enum LabelType {
    Data(String),
    Instruction(String),
}

/// A decoded operation with its operands and 1-indexed source line.
#[derive(Debug, Clone)]
pub struct Instruction {
    pub opcode: Opcode,
    pub args: Vec<Argument>,
    pub source_line: u32,
}

/// The mathematical value of a decoded operation.
pub ghost struct InstrModel {
    pub opcode: Opcode,
    pub args: Seq<ArgModel>,
    pub line: u32,
}

impl DeepView for Instruction {
    type V = InstrModel;

    open spec fn deep_view(&self) -> InstrModel {
        InstrModel { opcode: self.opcode, args: self.args.deep_view(), line: self.source_line }
    }
}

/// Builds one instruction at a time; `get_inst` hands the finished
/// instruction out and resets the builder for the next one.
#[derive(Debug)]
pub struct InstructionBuilder {
    inst: Instruction,
}

impl InstructionBuilder {
    pub closed spec fn view(&self) -> InstrModel {
        self.inst.deep_view()
    }

    pub open spec fn blank() -> InstrModel {
        InstrModel { opcode: Opcode::Unset, args: Seq::empty(), line: 0 }
    }

    pub fn new() -> (b: InstructionBuilder)
        ensures
            b@ == InstructionBuilder::blank(),
    {
        let b = InstructionBuilder {
            inst: Instruction { opcode: Opcode::Unset, args: Vec::new(), source_line: 0 },
        };
        proof {
            assert(b@.args =~= Seq::<ArgModel>::empty());
        }
        b
    }

    /// Sets the opcode a mnemonic denotes; an unrecognized mnemonic sets
    /// `Unset`.
    pub fn set_opcode(&mut self, opcode: &str)
        ensures
            final (self)@ == (InstrModel { opcode: spec_opcode(opcode@), ..old(self)@ }),
    {
        self.inst.opcode = opcode_of(opcode);
    }

    pub fn add_arg(&mut self, arg: Argument)
        ensures
            final (self)@ == (InstrModel {
                args: old(self)@.args.push(arg.deep_view()),
                ..old(self)@
            }),
    {
        let ghost pre = self.inst.args.deep_view();
        self.inst.args.push(arg);
        proof {
            assert(self.inst.args.deep_view() =~= pre.push(arg.deep_view()));
        }
    }

    pub fn set_line(&mut self, line: u32)
        ensures
            final (self)@ == (InstrModel { line, ..old(self)@ }),
    {
        self.inst.source_line = line;
    }

    /// Hands out the instruction built so far and clears the builder.
    pub fn get_inst(&mut self) -> (inst: Instruction)
        ensures
            inst.deep_view() == old(self)@,
            final (self)@ == InstructionBuilder::blank(),
    {
        let mut out = Instruction { opcode: Opcode::Unset, args: Vec::new(), source_line: 0 };
        core::mem::swap(&mut out, &mut self.inst);
        proof {
            assert(self@.args =~= Seq::<ArgModel>::empty());
        }
        out
    }
}

/// The opcode each mnemonic denotes.
pub open spec fn spec_opcode(s: Seq<char>) -> Opcode {
    if s == "mfhi"@ {
        Opcode::Mfhi
    } else if s == "mflo"@ {
        Opcode::Mflo
    } else if s == "mthi"@ {
        Opcode::Mthi
    } else if s == "lw"@ {
        Opcode::Lw
    } else if s == "lh"@ {
        Opcode::Lh
    } else if s == "lb"@ {
        Opcode::Lb
    } else if s == "la"@ {
        Opcode::La
    } else if s == "sw"@ {
        Opcode::Sw
    } else if s == "sh"@ {
        Opcode::Sh
    } else if s == "sb"@ {
        Opcode::Sb
    } else if s == "add"@ {
        Opcode::Add
    } else if s == "addu"@ {
        Opcode::Addu
    } else if s == "sub"@ {
        Opcode::Sub
    } else if s == "subu"@ {
        Opcode::Subu
    } else if s == "mul"@ {
        Opcode::Mul
    } else if s == "mulo"@ {
        Opcode::Mulo
    } else if s == "mulou"@ {
        Opcode::Mulou
    } else if s == "rem"@ {
        Opcode::Rem
    } else if s == "remu"@ {
        Opcode::Remu
    } else if s == "mult"@ {
        Opcode::Mult
    } else if s == "multu"@ {
        Opcode::Multu
    } else if s == "abs"@ {
        Opcode::Abs
    } else if s == "neg"@ {
        Opcode::Neg
    } else if s == "negu"@ {
        Opcode::Negu
    } else if s == "and"@ {
        Opcode::And
    } else if s == "nor"@ {
        Opcode::Nor
    } else if s == "or"@ {
        Opcode::Or
    } else if s == "xor"@ {
        Opcode::Xor
    } else if s == "nop"@ {
        Opcode::Nop
    } else if s == "move"@ {
        Opcode::Move
    } else if s == "li"@ {
        Opcode::Li
    } else if s == "div"@ {
        Opcode::Div
    } else if s == "divu"@ {
        Opcode::Divu
    } else if s == "not"@ {
        Opcode::Not
    } else if s == "beq"@ {
        Opcode::Beq
    } else if s == "bne"@ {
        Opcode::Bne
    } else if s == "blt"@ {
        Opcode::Blt
    } else if s == "ble"@ {
        Opcode::Ble
    } else if s == "bgt"@ {
        Opcode::Bgt
    } else if s == "bge"@ {
        Opcode::Bge
    } else if s == "j"@ {
        Opcode::Jump
    } else {
        Opcode::Unset
    }
}

/// Decodes a mnemonic through the fixed table.
pub fn opcode_of(s: &str) -> (op: Opcode)
    ensures
        op == spec_opcode(s@),
{
    if str_eq(s, "mfhi") {
        Opcode::Mfhi
    } else if str_eq(s, "mflo") {
        Opcode::Mflo
    } else if str_eq(s, "mthi") {
        Opcode::Mthi
    } else if str_eq(s, "lw") {
        Opcode::Lw
    } else if str_eq(s, "lh") {
        Opcode::Lh
    } else if str_eq(s, "lb") {
        Opcode::Lb
    } else if str_eq(s, "la") {
        Opcode::La
    } else if str_eq(s, "sw") {
        Opcode::Sw
    } else if str_eq(s, "sh") {
        Opcode::Sh
    } else if str_eq(s, "sb") {
        Opcode::Sb
    } else if str_eq(s, "add") {
        Opcode::Add
    } else if str_eq(s, "addu") {
        Opcode::Addu
    } else if str_eq(s, "sub") {
        Opcode::Sub
    } else if str_eq(s, "subu") {
        Opcode::Subu
    } else if str_eq(s, "mul") {
        Opcode::Mul
    } else if str_eq(s, "mulo") {
        Opcode::Mulo
    } else if str_eq(s, "mulou") {
        Opcode::Mulou
    } else if str_eq(s, "rem") {
        Opcode::Rem
    } else if str_eq(s, "remu") {
        Opcode::Remu
    } else if str_eq(s, "mult") {
        Opcode::Mult
    } else if str_eq(s, "multu") {
        Opcode::Multu
    } else if str_eq(s, "abs") {
        Opcode::Abs
    } else if str_eq(s, "neg") {
        Opcode::Neg
    } else if str_eq(s, "negu") {
        Opcode::Negu
    } else if str_eq(s, "and") {
        Opcode::And
    } else if str_eq(s, "nor") {
        Opcode::Nor
    } else if str_eq(s, "or") {
        Opcode::Or
    } else if str_eq(s, "xor") {
        Opcode::Xor
    } else if str_eq(s, "nop") {
        Opcode::Nop
    } else if str_eq(s, "move") {
        Opcode::Move
    } else if str_eq(s, "li") {
        Opcode::Li
    } else if str_eq(s, "div") {
        Opcode::Div
    } else if str_eq(s, "divu") {
        Opcode::Divu
    } else if str_eq(s, "not") {
        Opcode::Not
    } else if str_eq(s, "beq") {
        Opcode::Beq
    } else if str_eq(s, "bne") {
        Opcode::Bne
    } else if str_eq(s, "blt") {
        Opcode::Blt
    } else if str_eq(s, "ble") {
        Opcode::Ble
    } else if str_eq(s, "bgt") {
        Opcode::Bgt
    } else if str_eq(s, "bge") {
        Opcode::Bge
    } else if str_eq(s, "j") {
        Opcode::Jump
    } else {
        Opcode::Unset
    }
}

} // verus!
