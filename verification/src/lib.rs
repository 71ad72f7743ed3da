//! An educational MIPS single-cycle CPU simulator.
//!
//! The crate assembles a small MIPS-like assembly dialect into an in-memory
//! instruction stream and data segment, then steps a simulated datapath one
//! instruction at a time, exposing register and memory state.
//!
//! The pipeline runs in one direction at build time (lexer, then parser, then
//! the virtual machine's initial state) and then cycles at run time, where
//! `step` repeatedly mutates the machine state.

pub mod cpu;
pub mod history;
pub mod lexer;
pub mod numbers;
pub mod parser;
pub mod tables;
pub mod text;
pub mod token;
pub mod util;
pub mod virtualmachine;
pub mod vm_defs;
pub mod virtual_machine_interface;

use vstd::prelude::*;

verus! {

/// Size in bytes of a virtual machine's data segment.
pub const DATA_SEGMENT_SIZE: u32 = 1024;

} // verus!
