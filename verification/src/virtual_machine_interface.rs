//! The query interface of a virtual machine, and the register naming shared
//! by the assembler and the simulator.

use vstd::prelude::*;

verus! {

/// One architectural register: the 32 general-purpose registers plus the
/// program counter and the HI/LO multiply-divide pair.
#[derive(Debug, Clone, Copy, PartialEq, Eq, Structural)]
pub enum RegisterKind {
    Reg00,
    Reg01,
    Reg02,
    Reg03,
    Reg04,
    Reg05,
    Reg06,
    Reg07,
    Reg08,
    Reg09,
    Reg10,
    Reg11,
    Reg12,
    Reg13,
    Reg14,
    Reg15,
    Reg16,
    Reg17,
    Reg18,
    Reg19,
    Reg20,
    Reg21,
    Reg22,
    Reg23,
    Reg24,
    Reg25,
    Reg26,
    Reg27,
    Reg28,
    Reg29,
    Reg30,
    Reg31,
    RegHi,
    RegLo,
    RegPC,
}

/// The architectural number of a register kind; the general-purpose
/// registers map to 0 through 31, then HI, LO and the PC follow.
pub open spec fn reg_num(r: RegisterKind) -> int {
    match r {
        RegisterKind::Reg00 => 0,
        RegisterKind::Reg01 => 1,
        RegisterKind::Reg02 => 2,
        RegisterKind::Reg03 => 3,
        RegisterKind::Reg04 => 4,
        RegisterKind::Reg05 => 5,
        RegisterKind::Reg06 => 6,
        RegisterKind::Reg07 => 7,
        RegisterKind::Reg08 => 8,
        RegisterKind::Reg09 => 9,
        RegisterKind::Reg10 => 10,
        RegisterKind::Reg11 => 11,
        RegisterKind::Reg12 => 12,
        RegisterKind::Reg13 => 13,
        RegisterKind::Reg14 => 14,
        RegisterKind::Reg15 => 15,
        RegisterKind::Reg16 => 16,
        RegisterKind::Reg17 => 17,
        RegisterKind::Reg18 => 18,
        RegisterKind::Reg19 => 19,
        RegisterKind::Reg20 => 20,
        RegisterKind::Reg21 => 21,
        RegisterKind::Reg22 => 22,
        RegisterKind::Reg23 => 23,
        RegisterKind::Reg24 => 24,
        RegisterKind::Reg25 => 25,
        RegisterKind::Reg26 => 26,
        RegisterKind::Reg27 => 27,
        RegisterKind::Reg28 => 28,
        RegisterKind::Reg29 => 29,
        RegisterKind::Reg30 => 30,
        RegisterKind::Reg31 => 31,
        RegisterKind::RegHi => 32,
        RegisterKind::RegLo => 33,
        RegisterKind::RegPC => 34,
    }
}

impl RegisterKind {
    /// The architectural number of this register kind.
    pub fn num(&self) -> (n: usize)
        ensures
            n == reg_num(*self),
    {
        match self {
            RegisterKind::Reg00 => 0,
            RegisterKind::Reg01 => 1,
            RegisterKind::Reg02 => 2,
            RegisterKind::Reg03 => 3,
            RegisterKind::Reg04 => 4,
            RegisterKind::Reg05 => 5,
            RegisterKind::Reg06 => 6,
            RegisterKind::Reg07 => 7,
            RegisterKind::Reg08 => 8,
            RegisterKind::Reg09 => 9,
            RegisterKind::Reg10 => 10,
            RegisterKind::Reg11 => 11,
            RegisterKind::Reg12 => 12,
            RegisterKind::Reg13 => 13,
            RegisterKind::Reg14 => 14,
            RegisterKind::Reg15 => 15,
            RegisterKind::Reg16 => 16,
            RegisterKind::Reg17 => 17,
            RegisterKind::Reg18 => 18,
            RegisterKind::Reg19 => 19,
            RegisterKind::Reg20 => 20,
            RegisterKind::Reg21 => 21,
            RegisterKind::Reg22 => 22,
            RegisterKind::Reg23 => 23,
            RegisterKind::Reg24 => 24,
            RegisterKind::Reg25 => 25,
            RegisterKind::Reg26 => 26,
            RegisterKind::Reg27 => 27,
            RegisterKind::Reg28 => 28,
            RegisterKind::Reg29 => 29,
            RegisterKind::Reg30 => 30,
            RegisterKind::Reg31 => 31,
            RegisterKind::RegHi => 32,
            RegisterKind::RegLo => 33,
            RegisterKind::RegPC => 34,
        }
    }
}

/// The query and step interface a display or debug collaborator consumes.
/// The contracts live on the implementing type's inherent methods, which
/// these trait methods mirror.
pub trait VirtualMachineInterface {
    fn get_memory_size(&self) -> u32;

    fn get_instruction_size(&self) -> u32;

    fn get_memory_byte(&self, address: u32) -> Option<u8>;

    fn get_register(&self, reg: RegisterKind) -> u32;

    fn get_current_source_line(&self) -> u32;

    fn is_error(&self) -> bool;

    fn get_error(&self) -> String;

    fn step(&mut self);
}

} // verus!
