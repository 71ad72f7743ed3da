//! The data memory: a byte vector mapped at the data segment's base
//! address. Loads assemble the little-endian bytes at the offset and
//! stores scatter a value's low-order bytes little-endian; an access with
//! any byte out of range fails whole, writing nothing.

use crate::cpu::control_unit::Mem;
use crate::cpu::DATA_MEM_START;
use crate::virtualmachine::{byte_of, le_half, le_word, store_le};
use vstd::prelude::*;

verus! {

pub type DataMemory = Vec<u8>;

/// Data memory access; the contracts live on the free functions below.
pub trait DataMem {
    fn load(&self, addr: u32, size: Mem) -> Option<u32>;

    fn store(&mut self, data: u32, addr: u32, size: Mem) -> Result<(), ()>;
}

impl DataMem for DataMemory {
    fn load(&self, addr: u32, size: Mem) -> Option<u32> {
        data_load(self, addr, size)
    }

    fn store(&mut self, data: u32, addr: u32, size: Mem) -> Result<(), ()> {
        data_store(self, data, addr, size)
    }
}

/// The byte offset an address denotes, wrapping below the segment base.
pub open spec fn spec_data_offset(addr: u32) -> int {
    (addr - DATA_MEM_START) % 0x1_0000_0000
}

/// What a load returns: the byte, half or word assembled little-endian
/// from the bytes at the offset; `None` when any byte is out of range.
pub open spec fn spec_data_load(data: Seq<u8>, addr: u32, size: Mem) -> Option<u32> {
    let o = spec_data_offset(addr);
    match size {
        Mem::Nothing => None,
        Mem::Byte => if o + 1 <= data.len() {
            Some(data[o] as u32)
        } else {
            None
        },
        Mem::Half => if o + 2 <= data.len() {
            Some(le_half(data, o))
        } else {
            None
        },
        Mem::Word => if o + 4 <= data.len() {
            Some(le_word(data, o))
        } else {
            None
        },
    }
}

/// What a store leaves behind and whether it completed: the value's
/// low-order bytes land at the offset little-endian, or nothing is written
/// when any byte would fall outside the memory.
pub open spec fn spec_data_store(data: Seq<u8>, v: u32, addr: u32, size: Mem) -> (Seq<u8>, bool) {
    let o = spec_data_offset(addr);
    match size {
        Mem::Nothing => (data, true),
        Mem::Byte => if o + 1 <= data.len() {
            (store_le(data, o, v, 1), true)
        } else {
            (data, false)
        },
        Mem::Half => if o + 2 <= data.len() {
            (store_le(data, o, v, 2), true)
        } else {
            (data, false)
        },
        Mem::Word => if o + 4 <= data.len() {
            (store_le(data, o, v, 4), true)
        } else {
            (data, false)
        },
    }
}

fn offset_of(addr: u32) -> (o: u32)
    ensures
        o == spec_data_offset(addr),
{
    addr.wrapping_sub(DATA_MEM_START)
}

/// Loads a value of the given width from the data memory.
pub fn data_load(data: &DataMemory, addr: u32, size: Mem) -> (r: Option<u32>)
    ensures
        r == spec_data_load(data@, addr, size),
{
    let o = offset_of(addr);
    let n = data.len();
    match size {
        Mem::Nothing => None,
        Mem::Byte => {
            if (o as u64) + 1 <= n as u64 {
                Some(data[o as usize] as u32)
            } else {
                None
            }
        },
        Mem::Half => {
            if (o as u64) + 2 <= n as u64 {
                let a = o as usize;
                Some(data[a] as u32 + (data[a + 1] as u32) * 0x100)
            } else {
                None
            }
        },
        Mem::Word => {
            if (o as u64) + 4 <= n as u64 {
                let a = o as usize;
                Some(
                    data[a] as u32 + (data[a + 1] as u32) * 0x100 + (data[a + 2] as u32) * 0x1_0000
                        + (data[a + 3] as u32) * 0x100_0000,
                )
            } else {
                None
            }
        },
    }
}

/// Stores a value of the given width, writing nothing when any byte of the
/// access falls outside the memory.
pub fn data_store(data: &mut DataMemory, v: u32, addr: u32, size: Mem) -> (r: Result<(), ()>)
    ensures
        final (data)@ == spec_data_store(old(data)@, v, addr, size).0,
        r is Ok == spec_data_store(old(data)@, v, addr, size).1,
{
    let o = offset_of(addr);
    let n = data.len();
    let w: usize = match size {
        Mem::Nothing => {
            return Ok(());
        },
        Mem::Byte => 1,
        Mem::Half => 2,
        Mem::Word => 4,
    };
    if !((o as u64) + (w as u64) <= n as u64) {
        return Err(());
    }
    let a = o as usize;
    let ghost data0 = data@;
    data.set(a, (v % 0x100) as u8);
    if w >= 2 {
        data.set(a + 1, ((v / 0x100) % 0x100) as u8);
    }
    if w >= 3 {
        data.set(a + 2, ((v / 0x1_0000) % 0x100) as u8);
    }
    if w >= 4 {
        data.set(a + 3, ((v / 0x100_0000) % 0x100) as u8);
    }
    proof {
        let oi = o as int;
        assert(store_le(data0, oi, v, 0) == data0);
        assert(store_le(data0, oi, v, 1) == store_le(data0, oi, v, 0).update(oi, byte_of(v, 0)));
        assert(store_le(data0, oi, v, 2) == store_le(data0, oi, v, 1).update(
            oi + 1,
            byte_of(v, 1),
        ));
        assert(store_le(data0, oi, v, 3) == store_le(data0, oi, v, 2).update(
            oi + 2,
            byte_of(v, 2),
        ));
        assert(store_le(data0, oi, v, 4) == store_le(data0, oi, v, 3).update(
            oi + 3,
            byte_of(v, 3),
        ));
        if w == 1 {
            assert(data@ =~= store_le(data0, oi, v, w as int));
        } else if w == 2 {
            assert(data@ =~= store_le(data0, oi, v, w as int));
        } else {
            assert(data@ =~= store_le(data0, oi, v, w as int));
        }
    }
    Ok(())
}

} // verus!
