//! The single-cycle CPU over raw instruction words: one `step` performs
//! fetch, decode, execute, memory access and write-back, exactly as
//! `spec_cpu_step` describes.

use crate::cpu::alu::{alu, alu_control, known_funct, spec_alu, spec_alu_control, AluOperation};
use crate::cpu::control_unit::{
    control_unit, known_opcode, spec_control_unit, ControlUnitOutput, MemToReg, PCSrc, RegDst,
};
use crate::cpu::cpu_interface::{cpu_reg_num, CPUInterface, RegisterKind};
use crate::cpu::data_memory::{data_load, data_store, spec_data_load, spec_data_store, DataMemory};
use crate::cpu::instruction_memory::{fetch_instruction, spec_inst_index, InstructionMemory};
use crate::cpu::registers::{reg_file_read, reg_file_write, Registers};
use crate::cpu::utils::{sign_extend, spec_sign_extend};
use crate::cpu::{BEQ_OPCODE, BNE_OPCODE, INST_MEM_START};
use crate::text::u32_to_string;
use vstd::prelude::*;

verus! {

/// The mathematical state of the binary-encoding CPU.
pub ghost struct CpuModel {
    pub err: Option<Seq<char>>,
    pub regs: Seq<u32>,
    pub pc: u32,
    pub imem: Seq<u32>,
    pub dmem: Seq<u8>,
    pub signals: ControlUnitOutput,
    pub alu_signals: AluOperation,
}

pub open spec fn cpu_msg_out_of_range() -> Seq<char> {
    "Out of range instruction"@
}

pub open spec fn cpu_msg_bad_read() -> Seq<char> {
    "Invalid memory read"@
}

pub open spec fn cpu_msg_bad_write(rt: u32) -> Seq<char> {
    "Invalid memory write address: "@ + crate::text::spec_dec(rt as nat)
}

pub open spec fn cpu_msg_unhandled_opcode() -> Seq<char> {
    "unhandled opcode"@
}

pub open spec fn cpu_msg_unhandled_funct() -> Seq<char> {
    "unhandled function code"@
}

pub open spec fn w32(x: int) -> u32 {
    (x % 0x1_0000_0000) as u32
}

/// One cycle of the datapath, as a function of the machine model. A
/// machine that holds an error is halted and never changes again.
pub open spec fn spec_cpu_step(m: CpuModel) -> CpuModel {
    if m.err is Some {
        m
    } else if spec_inst_index(m.pc) >= m.imem.len() {
        CpuModel { err: Some(cpu_msg_out_of_range()), ..m }
    } else {
        let inst = m.imem[spec_inst_index(m.pc)];
        let opcode = inst >> 26;
        let funct = inst & 0x3F;
        if !known_opcode(opcode) {
            CpuModel { err: Some(cpu_msg_unhandled_opcode()), ..m }
        } else {
            let cs = spec_control_unit(opcode, funct);
            if cs.alu_op == crate::cpu::control_unit::AluOp::RType && !known_funct(funct) {
                CpuModel { err: Some(cpu_msg_unhandled_funct()), ..m }
            } else {
                spec_cpu_execute(m, inst)
            }
        }
    }
}

/// The executed part of a cycle, once the instruction decodes.
pub open spec fn spec_cpu_execute(m: CpuModel, inst: u32) -> CpuModel {
    let opcode = inst >> 26;
    let funct = inst & 0x3F;
    let inc_pc = w32(m.pc + 4);
    let rs = (inst >> 21) & 0x1F;
    let rt = (inst >> 16) & 0x1F;
    let rd = (inst >> 11) & 0x1F;
    let shamt = (inst >> 6) & 0x1F;
    let jump_addr = ((((inst & 0x3FF_FFFF) << 2) + (inc_pc & 0xF000_0000)) % 0x1_0000_0000) as u32;
    let immediate = inst & 0xFFFF;
    let imm_sign_extended = w32(spec_sign_extend(immediate as i32, 16));
    let branch_addr = w32((imm_sign_extended << 2) + m.pc);
    let data_1 = m.regs[rs as int];
    let data_2 = m.regs[rt as int];
    let cs = spec_control_unit(opcode, funct);
    let alu_signals = spec_alu_control(cs.alu_op, funct);
    let alu_result = spec_alu(
        data_1,
        if cs.alu_src {
            imm_sign_extended
        } else {
            data_2
        },
        shamt,
        alu_signals,
    );
    let write_register = match cs.reg_dst {
        RegDst::RT => rt,
        RegDst::RD => rd,
        RegDst::RA => 31u32,
    };
    let new_pc = match cs.pc_src {
        PCSrc::PCBranch => if alu_result == 0 && opcode == BEQ_OPCODE {
            branch_addr
        } else if alu_result != 0 && opcode == BNE_OPCODE {
            branch_addr
        } else {
            inc_pc
        },
        PCSrc::PC => inc_pc,
        PCSrc::Jump => jump_addr,
        PCSrc::RegJump => data_1,
    };
    let read_data = spec_data_load(m.dmem, alu_result, cs.mem_read);
    let read_failed = cs.mem_to_reg == MemToReg::MemoryRead && read_data is None;
    let reg_write_data = match cs.mem_to_reg {
        MemToReg::MemoryRead => if read_data is Some {
            read_data.unwrap()
        } else {
            0u32
        },
        MemToReg::PCInc => inc_pc,
        MemToReg::ALUResult => alu_result,
        MemToReg::ImmLeftShift16 => immediate << 16,
    };
    let new_regs = if cs.reg_write {
        m.regs.update(write_register as int, reg_write_data)
    } else {
        m.regs
    };
    let stored = spec_data_store(m.dmem, data_2, alu_result, cs.mem_write);
    let new_err = if !stored.1 {
        Some(cpu_msg_bad_write(rt))
    } else if read_failed {
        Some(cpu_msg_bad_read())
    } else {
        m.err
    };
    CpuModel {
        err: new_err,
        regs: new_regs,
        pc: new_pc,
        imem: m.imem,
        dmem: stored.0,
        signals: cs,
        alu_signals,
    }
}

/// A complete binary-encoding CPU; cloneable, so a caller can snapshot a
/// state and run ahead.
#[derive(Debug, Clone)]
pub struct SingleCycleCPU {
    error_message: Option<String>,
    registers: Registers,
    pc: u32,
    pub instruction_memory: InstructionMemory,
    pub data_memory: DataMemory,
    control_signals: ControlUnitOutput,
    alu_control_signals: AluOperation,
}

impl View for SingleCycleCPU {
    type V = CpuModel;

    closed spec fn view(&self) -> CpuModel {
        CpuModel {
            err: match self.error_message {
                Some(ref m) => Some(m@),
                None => None,
            },
            regs: self.registers@,
            pc: self.pc,
            imem: self.instruction_memory@,
            dmem: self.data_memory@,
            signals: self.control_signals,
            alu_signals: self.alu_control_signals,
        }
    }
}

impl SingleCycleCPU {
    /// A fresh CPU: cleared registers, the program counter at the
    /// instruction segment base, a small zeroed data segment, no program.
    pub fn new() -> (cpu: SingleCycleCPU)
        ensures
            cpu@ == (CpuModel {
                err: None::<Seq<char>>,
                regs: Seq::new(32, |i: int| 0u32),
                pc: INST_MEM_START,
                imem: Seq::<u32>::empty(),
                dmem: Seq::new(16, |i: int| 0u8),
                signals: ControlUnitOutput::quiescent(),
                alu_signals: AluOperation::Nothing,
            }),
    {
        let mut data: Vec<u8> = Vec::new();
        let mut i: usize = 0;
        while i < 16
            invariant
                i <= 16,
                data@.len() == i,
                forall|j: int| 0 <= j < i ==> data@[j] == 0u8,
            decreases 16 - i,
        {
            data.push(0u8);
            i = i + 1;
        }
        let cpu = SingleCycleCPU {
            error_message: None,
            registers: vstd::array::array_fill_for_copy_types::<u32, 32>(0u32),
            pc: INST_MEM_START,
            data_memory: data,
            instruction_memory: Vec::new(),
            control_signals: Default::default(),
            alu_control_signals: Default::default(),
        };
        proof {
            assert(cpu@.regs =~= Seq::new(32, |i: int| 0u32));
            assert(cpu@.dmem =~= Seq::new(16, |i: int| 0u8));
            assert(cpu@.imem =~= Seq::<u32>::empty());
        }
        cpu
    }

    /// A CPU loaded with an instruction stream and an initial data segment.
    pub fn new_from_memory(instruction_memory: InstructionMemory, data_memory: DataMemory) -> (cpu:
        SingleCycleCPU)
        ensures
            cpu@ == (CpuModel {
                err: None::<Seq<char>>,
                regs: Seq::new(32, |i: int| 0u32),
                pc: INST_MEM_START,
                imem: instruction_memory@,
                dmem: data_memory@,
                signals: ControlUnitOutput::quiescent(),
                alu_signals: AluOperation::Nothing,
            }),
    {
        let cpu = SingleCycleCPU {
            error_message: None,
            registers: vstd::array::array_fill_for_copy_types::<u32, 32>(0u32),
            pc: INST_MEM_START,
            instruction_memory,
            data_memory,
            control_signals: Default::default(),
            alu_control_signals: Default::default(),
        };
        proof {
            assert(cpu@.regs =~= Seq::new(32, |i: int| 0u32));
        }
        cpu
    }

    pub fn get_memory_size(&self) -> (r: u32)
        ensures
            r == self@.dmem.len() as u32,
    {
        #[verifier::truncate] (self.data_memory.len() as u32)
    }

    pub fn get_instruction_size(&self) -> (r: u32)
        ensures
            r == self@.imem.len() as u32,
    {
        #[verifier::truncate] (self.instruction_memory.len() as u32)
    }

    pub fn get_register(&self, reg: RegisterKind) -> (r: u32)
        ensures
            r == if cpu_reg_num(reg) == 32 {
                self@.pc
            } else {
                self@.regs[cpu_reg_num(reg)]
            },
    {
        let n = reg.num();
        if n == 32 {
            self.pc
        } else {
            self.registers[n]
        }
    }

    pub fn get_memory_byte(&self, address: u32) -> (r: Option<u8>)
        ensures
            r == if address < self@.dmem.len() {
                Some(self@.dmem[address as int])
            } else {
                None::<u8>
            },
    {
        if (address as usize) < self.data_memory.len() {
            Some(self.data_memory[address as usize])
        } else {
            None
        }
    }

    pub fn get_control_signals(&self) -> (r: ControlUnitOutput)
        ensures
            r == self@.signals,
    {
        self.control_signals
    }

    pub fn get_alu_signals(&self) -> (r: AluOperation)
        ensures
            r == self@.alu_signals,
    {
        self.alu_control_signals
    }

    pub fn get_error(&self) -> (r: Option<String>)
        ensures
            r is Some == self@.err is Some,
            r is Some ==> r.unwrap()@ == self@.err.unwrap(),
    {
        match &self.error_message {
            Some(m) => Some(m.clone()),
            None => None,
        }
    }

    /// One cycle: fetch, decode, execute, memory access and write-back; a
    /// fetch or decode failure records an error instead, and a machine that
    /// already holds an error stays exactly as it is.
    #[verifier::rlimit(100)]
    pub fn step(&mut self)
        ensures
            final (self)@ == spec_cpu_step(old(self)@),
    {
        if self.error_message.is_some() {
            return ;
        }
        let inst = match fetch_instruction(&self.instruction_memory, self.pc) {
            Some(inst) => inst,
            None => {
                self.error_message = Some(String::from_str("Out of range instruction"));
                return ;
            },
        };
        let opcode = inst >> 26;
        let funct = inst & 0x3F;
        let opcode_known = opcode == 0x00 || opcode == 0x23 || opcode == 0x24 || opcode == 0x25
            || opcode == 0x30 || opcode == 0x2B || opcode == 0x28 || opcode == 0x38 || opcode
            == 0x29 || opcode == BEQ_OPCODE || opcode == BNE_OPCODE || opcode == 0x08 || opcode
            == 0x09 || opcode == 0x0C || opcode == 0x0F || opcode == 0x0D || opcode == 0x0A
            || opcode == 0x0B || opcode == 0x02 || opcode == 0x03;
        if !opcode_known {
            self.error_message = Some(String::from_str("unhandled opcode"));
            return ;
        }
        let cs = control_unit(opcode, funct);
        let rtype = matches!(cs.alu_op, crate::cpu::control_unit::AluOp::RType);
        let funct_known = funct == 0x20 || funct == 0x21 || funct == 0x24 || funct == 0x08
            || funct == 0x27 || funct == 0x25 || funct == 0x2A || funct == 0x2B || funct == 0x00
            || funct == 0x02 || funct == 0x22 || funct == 0x23;
        if rtype && !funct_known {
            self.error_message = Some(String::from_str("unhandled function code"));
            return ;
        }
        let inc_pc = ((self.pc as u64 + 4) % 0x1_0000_0000) as u32;
        let rs = (inst >> 21) & 0x1F;
        let rt = (inst >> 16) & 0x1F;
        let rd = (inst >> 11) & 0x1F;
        let shamt = (inst >> 6) & 0x1F;
        proof {
            assert((inst >> 21) & 0x1F < 32 && (inst >> 16) & 0x1F < 32 && (inst >> 11) & 0x1F
                < 32 && (inst >> 6) & 0x1F < 32) by (bit_vector);
            assert((inst & 0x3FF_FFFF) << 2 <= 0xFFF_FFFC) by (bit_vector);
        }
        let jump_addr = (((((inst & 0x3FF_FFFF) << 2) as u64) + ((inc_pc & 0xF000_0000) as u64))
            % 0x1_0000_0000) as u32;
        let immediate = inst & 0xFFFF;
        proof {
            assert(inst & 0xFFFF < 0x1_0000) by (bit_vector);
        }
        let se = sign_extend(immediate as i32, 16);
        let imm_sign_extended: u32 = if se >= 0 {
            se as u32
        } else {
            ((se as i64) + 0x1_0000_0000i64) as u32
        };
        let branch_addr = ((((imm_sign_extended << 2) as u64) + (self.pc as u64))
            % 0x1_0000_0000) as u32;
        let data_1 = reg_file_read(&self.registers, rs);
        let data_2 = reg_file_read(&self.registers, rt);
        self.control_signals = cs;
        let alu_signals = alu_control(cs.alu_op, funct);
        self.alu_control_signals = alu_signals;
        let alu_result = alu(
            data_1,
            if cs.alu_src {
                imm_sign_extended
            } else {
                data_2
            },
            shamt,
            alu_signals,
        );
        let write_register = match cs.reg_dst {
            RegDst::RT => rt,
            RegDst::RD => rd,
            RegDst::RA => 31,
        };
        self.pc = match cs.pc_src {
            PCSrc::PCBranch => {
                if alu_result == 0 && opcode == BEQ_OPCODE {
                    branch_addr
                } else if alu_result != 0 && opcode == BNE_OPCODE {
                    branch_addr
                } else {
                    inc_pc
                }
            },
            PCSrc::PC => inc_pc,
            PCSrc::Jump => jump_addr,
            PCSrc::RegJump => data_1,
        };
        let read_data = data_load(&self.data_memory, alu_result, cs.mem_read);
        let mut read_failed = false;
        let reg_write_data = match cs.mem_to_reg {
            MemToReg::MemoryRead => match read_data {
                Some(data) => data,
                None => {
                    read_failed = true;
                    0
                },
            },
            MemToReg::PCInc => inc_pc,
            MemToReg::ALUResult => alu_result,
            MemToReg::ImmLeftShift16 => immediate << 16,
        };
        if read_failed {
            self.error_message = Some(String::from_str("Invalid memory read"));
        }
        reg_file_write(&mut self.registers, reg_write_data, write_register, cs.reg_write);
        let stored_ok = match data_store(&mut self.data_memory, data_2, alu_result, cs.mem_write) {
            Ok(_) => true,
            Err(_) => false,
        };
        if !stored_ok {
            let mut msg = String::from_str("Invalid memory write address: ");
            msg.append(u32_to_string(rt).as_str());
            self.error_message = Some(msg);
        }
    }
}

impl CPUInterface for SingleCycleCPU {
    fn get_memory_size(&self) -> u32 {
        self.get_memory_size()
    }

    fn get_instruction_size(&self) -> u32 {
        self.get_instruction_size()
    }

    fn get_register(&self, reg: RegisterKind) -> u32 {
        self.get_register(reg)
    }

    fn get_memory_byte(&self, address: u32) -> Option<u8> {
        self.get_memory_byte(address)
    }

    fn get_control_signals(&self) -> ControlUnitOutput {
        self.get_control_signals()
    }

    fn get_alu_signals(&self) -> AluOperation {
        self.get_alu_signals()
    }

    fn get_error(&self) -> Option<String> {
        self.get_error()
    }

    fn step(&mut self) {
        self.step()
    }
}

} // verus!
