//! The binary-encoding single-cycle datapath: raw 32-bit instruction words
//! decoded through a control unit and an ALU, with byte-addressed data
//! memory mapped at a fixed base address.

pub mod alu;
pub mod control_unit;
pub mod cpu_interface;
pub mod data_memory;
pub mod instruction_memory;
pub mod registers;
pub mod single_cycle_cpu;
pub mod utils;

use vstd::prelude::*;

verus! {

/// Where the instruction segment is mapped in the address space.
pub const INST_MEM_START: u32 = 0x0040_0000;

/// Where the data segment is mapped in the address space.
pub const DATA_MEM_START: u32 = 0x1001_0000;

pub const BEQ_OPCODE: u32 = 0x04;

pub const BNE_OPCODE: u32 = 0x05;

pub const JR_FUNCT: u32 = 0x08;

} // verus!
