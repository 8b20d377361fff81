//! Operands of instructions: where they are, what they hold, and how they
//! are written.

use vstd::prelude::*;

use super::cpu::{is_byte_register, is_word_register, physical, Cpu, Machine};
use crate::bits::low_byte;
use crate::bus::{byte_at, store_16, store_8, word_at};
use crate::decode::{Instruction, MemorySize, OpKind, Register};

verus! {

/// The immediate byte of an instruction.
pub open spec fn immediate8(i: Instruction) -> u8 {
    low_byte(i.immediate)
}

/// A byte as a word with the same signed value.
pub open spec fn sign_extended(byte: u8) -> u16 {
    if byte >= 0x80 {
        (0xFF00 + byte) as u16
    } else {
        byte as u16
    }
}

/// Where a near branch goes.
pub open spec fn near_branch(i: Instruction) -> u16 {
    i.memory_displacement as u16
}

/// Where a far branch goes: the segment and the offset in it.
pub open spec fn far_segment(i: Instruction) -> u16 {
    i.memory_displacement as u16
}

pub open spec fn far_offset(i: Instruction) -> u16 {
    i.immediate
}

/// Whether the first operand is a byte.
pub open spec fn byte_sized(i: Instruction) -> bool {
    match i.op0_kind {
        OpKind::Register => is_byte_register(i.op0_register),
        OpKind::Memory => i.memory_size == MemorySize::UInt8,
        _ => false,
    }
}

/// The offset of a memory operand, which wraps at 64 KB.
pub open spec fn offset_of(m: Machine, i: Instruction) -> u16 {
    ((m.reg16(i.memory_base) + m.reg16(i.memory_index) * i.memory_index_scale
        + i.memory_displacement) % 0x1_0000) as u16
}

/// The address of a memory operand: in the data segment, or in the one that
/// a prefix names.
pub open spec fn effective(m: Machine, i: Instruction) -> int {
    physical(m.segment(i.segment_prefix), offset_of(m, i))
}

/// The segment that a string instruction reads from.
pub open spec fn string_segment(m: Machine, i: Instruction) -> u16 {
    match i.segment_prefix {
        Register::CS => m.cs,
        Register::ES => m.es,
        Register::SS => m.ss,
        Register::DS => m.ds,
        _ => m.ds,
    }
}

/// How far a shift goes: an immediate byte, a register, or one.
pub open spec fn shift_count(m: Machine, i: Instruction) -> u32 {
    if i.op1_kind == OpKind::Immediate8 {
        immediate8(i) as u32
    } else if i.op1_kind == OpKind::Register {
        m.reg8(i.op1_register) as u32
    } else {
        1
    }
}

impl Machine {
    /// The first operand: a register, or else memory.
    pub open spec fn op0_8(self, i: Instruction) -> u8 {
        if i.op0_kind == OpKind::Register {
            self.reg8(i.op0_register)
        } else {
            byte_at(self.ram, effective(self, i))
        }
    }

    pub open spec fn op0_16(self, i: Instruction) -> u16 {
        if i.op0_kind == OpKind::Register {
            self.reg16(i.op0_register)
        } else {
            word_at(self.ram, effective(self, i))
        }
    }

    /// The second operand of a byte instruction: a register, or else the
    /// immediate byte, also where it is in memory.
    pub open spec fn op1_8(self, i: Instruction) -> u8 {
        if i.op1_kind == OpKind::Register {
            self.reg8(i.op1_register)
        } else {
            immediate8(i)
        }
    }

    /// The second operand of a word instruction: a register, the immediate
    /// word, or else the immediate byte with its sign extended.
    pub open spec fn op1_16(self, i: Instruction) -> u16 {
        if i.op1_kind == OpKind::Register {
            self.reg16(i.op1_register)
        } else if i.op1_kind == OpKind::Immediate16 {
            i.immediate
        } else {
            sign_extended(immediate8(i))
        }
    }

    /// The same where the immediate is a word unless said otherwise.
    pub open spec fn op1_16_wide(self, i: Instruction) -> u16 {
        if i.op1_kind == OpKind::Register {
            self.reg16(i.op1_register)
        } else if i.op1_kind == OpKind::Immediate8to16 {
            sign_extended(immediate8(i))
        } else {
            i.immediate
        }
    }

    /// Write the first operand.
    pub open spec fn put_8(self, i: Instruction, value: u8) -> Machine {
        if i.op0_kind == OpKind::Register {
            self.with_reg8(i.op0_register, value)
        } else {
            Machine { ram: store_8(self.ram, effective(self, i), value), ..self }
        }
    }

    pub open spec fn put_16(self, i: Instruction, value: u16) -> Machine {
        if i.op0_kind == OpKind::Register {
            self.with_reg16(i.op0_register, value)
        } else {
            Machine { ram: store_16(self.ram, effective(self, i), value), ..self }
        }
    }
}

/// Whether the first operand can be written as a word: it is no register, or
/// one that holds a word.
pub open spec fn op0_writable(i: Instruction) -> bool {
    i.op0_kind == OpKind::Register ==> is_word_register(i.op0_register)
}

/// `op0_writable` where the first operand is no byte.
pub open spec fn writable(i: Instruction) -> bool {
    byte_sized(i) || op0_writable(i)
}

pub(crate) fn is_8bit_reg(reg: Register) -> (byte: bool)
    ensures
        byte == is_byte_register(reg),
{
    match reg {
        Register::AL | Register::CL | Register::DL | Register::BL | Register::AH | Register::CH
        | Register::DH | Register::BH => true,
        _ => false,
    }
}

pub(crate) fn is_byte_op(i: &Instruction) -> (byte: bool)
    ensures
        byte == byte_sized(*i),
{
    match i.op0_kind {
        OpKind::Register => is_8bit_reg(i.op0_register),
        OpKind::Memory => i.memory_size == MemorySize::UInt8,
        _ => false,
    }
}

pub(crate) fn extend_sign(byte: u8) -> (word: u16)
    ensures
        word == sign_extended(byte),
{
    if byte >= 0x80 {
        0xFF00 + byte as u16
    } else {
        byte as u16
    }
}

/// The offset of an instruction's memory operand.
pub(crate) fn calculate_offset(cpu: &Cpu, i: &Instruction) -> (offset: u16)
    ensures
        offset == offset_of(cpu@, *i),
{
    let base: u64 = cpu.get_reg16(i.memory_base) as u64;
    let index: u64 = cpu.get_reg16(i.memory_index) as u64;
    let scale: u64 = i.memory_index_scale as u64;
    assert(index * scale <= 0xFFFF * 0xFF) by (nonlinear_arith)
        requires
            0 <= index <= 0xFFFF,
            0 <= scale <= 0xFF,
    ;
    let offset: u64 = (base + index * scale + i.memory_displacement as u64) % 0x1_0000;
    offset as u16
}

/// The address of an instruction's memory operand.
pub fn calculate_addr(cpu: &Cpu, i: &Instruction) -> (addr: usize)
    ensures
        addr == effective(cpu@, *i),
        addr < 0x10_0000,
{
    let segment: u16 = cpu.get_segment_value(i.segment_prefix);
    cpu.get_physical_addr(segment, calculate_offset(cpu, i))
}

pub(crate) fn get_string_src_segment(i: &Instruction, cpu: &Cpu) -> (segment: u16)
    ensures
        segment == string_segment(cpu@, *i),
{
    match i.segment_prefix {
        Register::CS => cpu.cs,
        Register::ES => cpu.es,
        Register::SS => cpu.ss,
        Register::DS => cpu.ds,
        _ => cpu.ds,
    }
}

pub(crate) fn get_shift_count(i: &Instruction, cpu: &Cpu) -> (count: u32)
    ensures
        count == shift_count(cpu@, *i),
{
    if i.op1_kind == OpKind::Immediate8 {
        (i.immediate & 0xFF) as u8 as u32
    } else if i.op1_kind == OpKind::Register {
        cpu.get_reg8(i.op1_register) as u32
    } else {
        1
    }
}

impl Cpu {
    pub(crate) fn imm8(i: &Instruction) -> (value: u8)
        ensures
            value == immediate8(*i),
    {
        (i.immediate & 0xFF) as u8
    }

    pub(crate) fn get_op0_8(&self, i: &Instruction) -> (value: u8)
        ensures
            value == self@.op0_8(*i),
    {
        if i.op0_kind == OpKind::Register {
            self.get_reg8(i.op0_register)
        } else {
            self.bus.read_8(calculate_addr(self, i))
        }
    }

    pub(crate) fn get_op0_16(&self, i: &Instruction) -> (value: u16)
        ensures
            value == self@.op0_16(*i),
    {
        if i.op0_kind == OpKind::Register {
            self.get_reg16(i.op0_register)
        } else {
            self.bus.read_16(calculate_addr(self, i))
        }
    }

    pub(crate) fn get_op1_8(&self, i: &Instruction) -> (value: u8)
        ensures
            value == self@.op1_8(*i),
    {
        if i.op1_kind == OpKind::Register {
            self.get_reg8(i.op1_register)
        } else {
            Cpu::imm8(i)
        }
    }

    pub(crate) fn get_op1_16(&self, i: &Instruction) -> (value: u16)
        ensures
            value == self@.op1_16(*i),
    {
        if i.op1_kind == OpKind::Register {
            self.get_reg16(i.op1_register)
        } else if i.op1_kind == OpKind::Immediate16 {
            i.immediate
        } else {
            extend_sign(Cpu::imm8(i))
        }
    }

    pub(crate) fn get_op1_16_wide(&self, i: &Instruction) -> (value: u16)
        ensures
            value == self@.op1_16_wide(*i),
    {
        if i.op1_kind == OpKind::Register {
            self.get_reg16(i.op1_register)
        } else if i.op1_kind == OpKind::Immediate8to16 {
            extend_sign(Cpu::imm8(i))
        } else {
            i.immediate
        }
    }

    pub(crate) fn set_op0_8(&mut self, i: &Instruction, value: u8)
        ensures
            final(self)@ == old(self)@.put_8(*i, value),
    {
        if i.op0_kind == OpKind::Register {
            self.set_reg8(i.op0_register, value);
        } else {
            let addr: usize = calculate_addr(self, i);
            self.bus.write_8(addr, value);
        }
    }

    pub(crate) fn set_op0_16(&mut self, i: &Instruction, value: u16)
        requires
            op0_writable(*i),
        ensures
            final(self)@ == old(self)@.put_16(*i, value),
    {
        if i.op0_kind == OpKind::Register {
            self.set_reg16(i.op0_register, value);
        } else {
            let addr: usize = calculate_addr(self, i);
            self.bus.write_16(addr, value);
        }
    }

    /// The first operand of an instruction: its value, its address if it is
    /// in memory, and whether it is a byte.
    pub fn read_op0(cpu: &Cpu, i: &Instruction) -> (op: (u16, Option<usize>, bool))
        ensures
            op.2 == byte_sized(*i),
            match i.op0_kind {
                OpKind::Register => op.1 == None::<usize> && op.0 == (if byte_sized(*i) {
                    cpu@.reg8(i.op0_register) as u16
                } else {
                    cpu@.reg16(i.op0_register)
                }),
                OpKind::Memory => op.1 == Some(effective(cpu@, *i) as usize) && op.0 == (
                if byte_sized(*i) {
                    byte_at(cpu@.ram, effective(cpu@, *i)) as u16
                } else {
                    word_at(cpu@.ram, effective(cpu@, *i))
                }),
                _ => op.0 == 0 && op.1 == None::<usize>,
            },
    {
        let is_8bit = is_byte_op(i);
        match i.op0_kind {
            OpKind::Register => {
                let val: u16 = if is_8bit {
                    cpu.get_reg8(i.op0_register) as u16
                } else {
                    cpu.get_reg16(i.op0_register)
                };
                (val, None, is_8bit)
            },
            OpKind::Memory => {
                let addr: usize = calculate_addr(cpu, i);
                let val: u16 = if is_8bit {
                    cpu.bus.read_8(addr) as u16
                } else {
                    cpu.bus.read_16(addr)
                };
                (val, Some(addr), is_8bit)
            },
            _ => (0, None, false),
        }
    }
}

} // verus!
