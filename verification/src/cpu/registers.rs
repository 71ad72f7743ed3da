//! The register file: 32 general-purpose registers addressed by the
//! decoded 5-bit fields.

use vstd::prelude::*;

verus! {

pub type Registers = [u32; 32];

/// Register file access; the contracts live on the free functions below.
pub trait Register {
    fn read(&self, addr: u32) -> u32;

    fn write(&mut self, data: u32, addr: u32, write: bool);
}

impl Register for Registers {
    fn read(&self, addr: u32) -> u32 {
        if addr < 32 {
            reg_file_read(self, addr)
        } else {
            0
        }
    }

    fn write(&mut self, data: u32, addr: u32, write: bool) {
        if addr < 32 {
            reg_file_write(self, data, addr, write);
        }
    }
}

/// Reads one register; the address comes from a 5-bit field.
pub fn reg_file_read(regs: &Registers, addr: u32) -> (r: u32)
    requires
        addr < 32,
    ensures
        r == regs@[addr as int],
{
    regs[addr as usize]
}

/// Writes one register when the write signal is set.
pub fn reg_file_write(regs: &mut Registers, data: u32, addr: u32, write: bool)
    requires
        addr < 32,
    ensures
        final (regs)@ == if write {
            old(regs)@.update(addr as int, data)
        } else {
            old(regs)@
        },
{
    if write {
        regs[addr as usize] = data;
    }
}

} // verus!
