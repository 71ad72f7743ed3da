//! The instruction memory: raw 32-bit words, word-addressed from the
//! instruction segment's base address.

use crate::cpu::INST_MEM_START;
use vstd::prelude::*;

verus! {

pub type InstructionMemory = Vec<u32>;

/// Instruction fetch; the contract lives on the free function below.
pub trait InstructionMem {
    fn get_instruction(&self, pc: u32) -> Option<u32>;
}

impl InstructionMem for InstructionMemory {
    fn get_instruction(&self, pc: u32) -> Option<u32> {
        fetch_instruction(self, pc)
    }
}

/// The word index an address denotes, wrapping below the segment base.
pub open spec fn spec_inst_index(pc: u32) -> int {
    ((pc - INST_MEM_START) % 0x1_0000_0000) / 4
}

/// Fetches the instruction word an address denotes, if it is in range.
pub fn fetch_instruction(mem: &InstructionMemory, pc: u32) -> (r: Option<u32>)
    ensures
        r == if spec_inst_index(pc) < mem@.len() {
            Some(mem@[spec_inst_index(pc)])
        } else {
            None::<u32>
        },
{
    let offset = pc.wrapping_sub(INST_MEM_START);
    let idx = (offset / 4) as usize;
    proof {
        assert(offset == (pc - INST_MEM_START) % 0x1_0000_0000);
    }
    if idx < mem.len() {
        Some(mem[idx])
    } else {
        None
    }
}

} // verus!
