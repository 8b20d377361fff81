//! What the instructions of the 16-bit processor do.

use vstd::prelude::*;

use super::alu::{
    add_outcome_16, add_outcome_8, sub_outcome_16, sub_outcome_8, wrap_16, wrap_8, Outcome,
};
use super::cpu::{
    is_byte_register, is_word_register, loaded_flags, physical, signed_16, signed_8, Cpu, CpuFlags,
    Machine, AF, CF, DF, OF, RESERVED_ONE, SF, ZF,
};
use super::operand::{
    byte_sized, calculate_addr, calculate_offset, effective, extend_sign, far_offset, far_segment,
    get_shift_count, get_string_src_segment, immediate8, is_8bit_reg, is_byte_op, near_branch,
    offset_of, op0_writable, shift_count, sign_extended, string_segment, writable,
};
use crate::bus::{byte_at, store_16, store_8, word_at};
use crate::decode::{Instruction, MemorySize, Mnemonic, OpKind, Register};

verus! {

/// What an instruction leaves to be done outside of the processor.
#[derive(Clone, Copy, Debug, PartialEq, Eq, Structural)]
pub enum Effect {
    /// Nothing.
    Done,
    /// Serve a software interrupt.
    Interrupt(u8),
    /// Write a byte to a port.
    Out(u16, u8),
    /// Read a port and hand the byte to `finish_in` for this register.
    In(u16, Register),
    /// The instruction is not one that the processor runs.
    Unhandled,
}

/// The logic instructions that write their result, and the one that only
/// looks at it.
#[derive(Clone, Copy, Debug, PartialEq, Eq, Structural)]
pub enum Logic {
    And,
    Or,
    Xor,
    Test,
}

#[derive(Clone, Copy, Debug, PartialEq, Eq, Structural)]
pub enum Shift {
    Left,
    Right,
    Arithmetic,
}

/// String instructions that move data.
#[derive(Clone, Copy, Debug, PartialEq, Eq, Structural)]
pub enum Moving {
    Stosb,
    Stosw,
    Movsb,
    Movsw,
}

// ---------------------------------------------------------------------------
// Moving data
// ---------------------------------------------------------------------------

/// Whether MOV has somewhere to put the word it moves.
pub open spec fn mov_runs(i: Instruction) -> bool {
    if i.op0_kind == OpKind::Memory {
        true
    } else if i.op0_kind == OpKind::Register {
        match i.op1_kind {
            OpKind::Register | OpKind::Memory => is_byte_register(i.op0_register)
                || is_word_register(i.op0_register),
            OpKind::Immediate16 | OpKind::Immediate8to16 => is_word_register(i.op0_register),
            _ => true,
        }
    } else {
        is_segment_register(i.op0_register) ==> is_word_register(i.op0_register)
    }
}

pub open spec fn is_segment_register(reg: Register) -> bool {
    match reg {
        Register::ES | Register::CS | Register::SS | Register::DS | Register::FS
        | Register::GS => true,
        _ => false,
    }
}

pub open spec fn mov(m: Machine, i: Instruction) -> Machine {
    let addr = effective(m, i);
    if i.op0_kind == OpKind::Memory {
        match i.op1_kind {
            OpKind::Register => if is_byte_register(i.op1_register) {
                Machine { ram: store_8(m.ram, addr, m.reg8(i.op1_register)), ..m }
            } else {
                Machine { ram: store_16(m.ram, addr, m.reg16(i.op1_register)), ..m }
            },
            OpKind::Immediate8 => Machine { ram: store_8(m.ram, addr, immediate8(i)), ..m },
            OpKind::Immediate16 => Machine { ram: store_16(m.ram, addr, i.immediate), ..m },
            _ => m,
        }
    } else if i.op0_kind == OpKind::Register {
        let byte = is_byte_register(i.op0_register);
        match i.op1_kind {
            OpKind::Register => if byte {
                m.with_reg8(i.op0_register, m.reg8(i.op1_register))
            } else {
                m.with_reg16(i.op0_register, m.reg16(i.op1_register))
            },
            OpKind::Memory => if byte {
                m.with_reg8(i.op0_register, byte_at(m.ram, addr))
            } else {
                m.with_reg16(i.op0_register, word_at(m.ram, addr))
            },
            OpKind::Immediate8 => m.with_reg8(i.op0_register, immediate8(i)),
            OpKind::Immediate16 => m.with_reg16(i.op0_register, i.immediate),
            OpKind::Immediate8to16 => m.with_reg16(i.op0_register, sign_extended(immediate8(i))),
            _ => m,
        }
    } else if is_segment_register(i.op0_register) {
        m.with_reg16(
            i.op0_register,
            match i.op1_kind {
                OpKind::Register => m.reg16(i.op1_register),
                OpKind::Memory => word_at(m.ram, addr),
                _ => 0,
            },
        )
    } else {
        m
    }
}

fn exec_mov(cpu: &mut Cpu, i: &Instruction)
    requires
        mov_runs(*i),
    ensures
        final(cpu)@ == mov(old(cpu)@, *i),
{
    let reg = i.op0_register;
    let src = i.op1_register;
    let addr: usize = calculate_addr(cpu, i);
    if i.op0_kind == OpKind::Memory {
        match i.op1_kind {
            OpKind::Register => {
                if is_8bit_reg(src) {
                    let val: u8 = cpu.get_reg8(src);
                    cpu.bus.write_8(addr, val);
                } else {
                    let val: u16 = cpu.get_reg16(src);
                    cpu.bus.write_16(addr, val);
                }
            },
            OpKind::Immediate8 => cpu.bus.write_8(addr, Cpu::imm8(i)),
            OpKind::Immediate16 => cpu.bus.write_16(addr, i.immediate),
            _ => {},
        }
    } else if i.op0_kind == OpKind::Register {
        match i.op1_kind {
            OpKind::Register => {
                if is_8bit_reg(reg) {
                    let val: u8 = cpu.get_reg8(src);
                    cpu.set_reg8(reg, val);
                } else {
                    let val: u16 = cpu.get_reg16(src);
                    cpu.set_reg16(reg, val);
                }
            },
            OpKind::Memory => {
                if is_8bit_reg(reg) {
                    let val: u8 = cpu.bus.read_8(addr);
                    cpu.set_reg8(reg, val);
                } else {
                    let val: u16 = cpu.bus.read_16(addr);
                    cpu.set_reg16(reg, val);
                }
            },
            OpKind::Immediate8 => cpu.set_reg8(reg, Cpu::imm8(i)),
            OpKind::Immediate16 => cpu.set_reg16(reg, i.immediate),
            OpKind::Immediate8to16 => cpu.set_reg16(reg, extend_sign(Cpu::imm8(i))),
            _ => {},
        }
    } else {
        match reg {
            Register::ES | Register::CS | Register::SS | Register::DS | Register::FS
            | Register::GS => {
                let val: u16 = match i.op1_kind {
                    OpKind::Register => cpu.get_reg16(src),
                    OpKind::Memory => cpu.bus.read_16(addr),
                    _ => 0,
                };
                cpu.set_reg16(reg, val);
            },
            _ => {},
        }
    }
}

/// One operand of XCHG, as a word: a register or memory.
pub open spec fn xchg_read(m: Machine, i: Instruction, kind: OpKind, reg: Register) -> u16 {
    if kind == OpKind::Register {
        if is_byte_register(reg) {
            m.reg8(reg) as u16
        } else {
            m.reg16(reg)
        }
    } else if i.memory_size == MemorySize::UInt8 {
        byte_at(m.ram, effective(m, i)) as u16
    } else {
        word_at(m.ram, effective(m, i))
    }
}

/// Put one of XCHG's values in a register or at `addr`.
pub open spec fn xchg_write(
    m: Machine,
    i: Instruction,
    kind: OpKind,
    reg: Register,
    addr: int,
    value: u16,
) -> Machine {
    if kind == OpKind::Register {
        if is_byte_register(reg) {
            m.with_reg8(reg, value as u8)
        } else {
            m.with_reg16(reg, value)
        }
    } else if i.memory_size == MemorySize::UInt8 {
        Machine { ram: store_8(m.ram, addr, value as u8), ..m }
    } else {
        Machine { ram: store_16(m.ram, addr, value), ..m }
    }
}

pub open spec fn xchg_runs(i: Instruction) -> bool {
    &&& i.op0_kind == OpKind::Register ==> is_byte_register(i.op0_register) || is_word_register(
        i.op0_register,
    )
    &&& i.op1_kind == OpKind::Register ==> is_byte_register(i.op1_register) || is_word_register(
        i.op1_register,
    )
}

/// Both operands are read before either is written.
pub open spec fn xchg(m: Machine, i: Instruction) -> Machine {
    let addr = effective(m, i);
    let first = xchg_read(m, i, i.op0_kind, i.op0_register);
    let second = xchg_read(m, i, i.op1_kind, i.op1_register);
    let half = xchg_write(m, i, i.op0_kind, i.op0_register, addr, second);
    xchg_write(half, i, i.op1_kind, i.op1_register, addr, first)
}

fn read_either(cpu: &Cpu, i: &Instruction, kind: OpKind, reg: Register) -> (value: u16)
    ensures
        value == xchg_read(cpu@, *i, kind, reg),
{
    if kind == OpKind::Register {
        if is_8bit_reg(reg) {
            cpu.get_reg8(reg) as u16
        } else {
            cpu.get_reg16(reg)
        }
    } else {
        let addr: usize = calculate_addr(cpu, i);
        if i.memory_size == MemorySize::UInt8 {
            cpu.bus.read_8(addr) as u16
        } else {
            cpu.bus.read_16(addr)
        }
    }
}

fn write_either(
    cpu: &mut Cpu,
    i: &Instruction,
    kind: OpKind,
    reg: Register,
    addr: usize,
    value: u16,
)
    requires
        kind == OpKind::Register ==> is_byte_register(reg) || is_word_register(reg),
        addr < 0x10_0000,
    ensures
        final(cpu)@ == xchg_write(old(cpu)@, *i, kind, reg, addr as int, value),
{
    if kind == OpKind::Register {
        if is_8bit_reg(reg) {
            cpu.set_reg8(reg, value as u8);
        } else {
            cpu.set_reg16(reg, value);
        }
    } else if i.memory_size == MemorySize::UInt8 {
        cpu.bus.write_8(addr, value as u8);
    } else {
        cpu.bus.write_16(addr, value);
    }
}

fn exec_xchg(cpu: &mut Cpu, i: &Instruction)
    requires
        xchg_runs(*i),
    ensures
        final(cpu)@ == xchg(old(cpu)@, *i),
{
    let addr: usize = calculate_addr(cpu, i);
    let first: u16 = read_either(cpu, i, i.op0_kind, i.op0_register);
    let second: u16 = read_either(cpu, i, i.op1_kind, i.op1_register);
    write_either(cpu, i, i.op0_kind, i.op0_register, addr, second);
    write_either(cpu, i, i.op1_kind, i.op1_register, addr, first);
}

/// LEA puts the operand's offset in a register, whatever its segment is.
pub open spec fn lea(m: Machine, i: Instruction) -> Machine {
    m.with_reg16(i.op0_register, offset_of(m, i))
}

fn exec_lea(cpu: &mut Cpu, i: &Instruction)
    requires
        is_word_register(i.op0_register),
    ensures
        final(cpu)@ == lea(old(cpu)@, *i),
{
    let offset: u16 = calculate_offset(cpu, i);
    cpu.set_reg16(i.op0_register, offset);
}

/// Where the far pointer is that LDS and LES read: at the offset that the
/// operand's base register holds, without index and displacement, in the
/// segment that its registers or a prefix say.
pub open spec fn pointer_address(m: Machine, i: Instruction) -> int {
    physical(m.reg16(i.memory_segment), m.reg16(i.memory_base))
}

pub open spec fn is_pointer_load(i: Instruction) -> bool {
    i.op0_kind == OpKind::Register && i.op1_kind == OpKind::Memory
}

/// A register and DS or ES from a far pointer in memory.
pub open spec fn load_pointer(m: Machine, i: Instruction, into_ds: bool) -> Machine {
    if is_pointer_load(i) {
        let addr = pointer_address(m, i);
        let loaded = m.with_reg16(i.op0_register, word_at(m.ram, addr));
        let segment = word_at(m.ram, addr + 2);
        if into_ds {
            Machine { ds: segment, ..loaded }
        } else {
            Machine { es: segment, ..loaded }
        }
    } else {
        m
    }
}

fn exec_load_pointer(cpu: &mut Cpu, i: &Instruction, into_ds: bool)
    requires
        is_pointer_load(*i) ==> is_word_register(i.op0_register),
    ensures
        final(cpu)@ == load_pointer(old(cpu)@, *i, into_ds),
{
    if i.op0_kind == OpKind::Register && i.op1_kind == OpKind::Memory {
        let segment: u16 = cpu.get_reg16(i.memory_segment);
        let offset: u16 = cpu.get_reg16(i.memory_base);
        let addr: usize = cpu.get_physical_addr(segment, offset);
        let new_offset: u16 = cpu.bus.read_16(addr);
        let new_segment: u16 = cpu.bus.read_16(addr + 2);
        cpu.set_reg16(i.op0_register, new_offset);
        if into_ds {
            cpu.ds = new_segment;
        } else {
            cpu.es = new_segment;
        }
    }
}

// ---------------------------------------------------------------------------
// Arithmetic and logic
// ---------------------------------------------------------------------------

/// How far SHL, SHR and SAR may go: as far as the operand is wide.
pub open spec fn shift_runs(m: Machine, i: Instruction) -> bool {
    if is_byte_register(i.op0_register) {
        shift_count(m, i) <= 8
    } else {
        is_word_register(i.op0_register) && shift_count(m, i) <= 16
    }
}

/// A word shifted: zeros come in, or the sign where it is arithmetic. The
/// count is taken modulo the width, so that a shift by the whole width leaves
/// the value as it is.
pub open spec fn shifted_16(value: u16, count: u32, how: Shift) -> u16 {
    let n = count % 16;
    match how {
        Shift::Left => value << n,
        Shift::Right => value >> n,
        Shift::Arithmetic => ((value as i16) >> n) as u16,
    }
}

pub open spec fn shifted_8(value: u8, count: u32, how: Shift) -> u8 {
    let n = count % 8;
    match how {
        Shift::Left => value << n,
        Shift::Right => value >> n,
        Shift::Arithmetic => ((value as i8) >> n) as u8,
    }
}

fn shift_word(value: u16, count: u32, how: Shift) -> (result: u16)
    ensures
        result == shifted_16(value, count, how),
{
    let n: u32 = count % 16;
    match how {
        Shift::Left => value << n,
        Shift::Right => value >> n,
        Shift::Arithmetic => ((value as i16) >> n) as u16,
    }
}

fn shift_byte(value: u8, count: u32, how: Shift) -> (result: u8)
    ensures
        result == shifted_8(value, count, how),
{
    let n: u32 = count % 8;
    match how {
        Shift::Left => value << n,
        Shift::Right => value >> n,
        Shift::Arithmetic => ((value as i8) >> n) as u8,
    }
}

/// The last bit that a shift moves out.
pub open spec fn shifted_out_16(value: u16, count: u32, how: Shift) -> bool {
    match how {
        Shift::Left => (value >> ((16 - count) as u32)) & 1 != 0,
        _ => (value >> ((count - 1) as u32)) & 1 != 0,
    }
}

pub open spec fn shifted_out_8(value: u8, count: u32, how: Shift) -> bool {
    match how {
        Shift::Left => (value >> ((8 - count) as u32)) & 1 != 0,
        _ => (value >> ((count - 1) as u32)) & 1 != 0,
    }
}

/// A shift of a register. A count of zero leaves the flags alone.
pub open spec fn shift(m: Machine, i: Instruction, how: Shift) -> Machine {
    let count = shift_count(m, i);
    let reg = i.op0_register;
    if is_byte_register(reg) {
        let value = m.reg8(reg);
        let result = shifted_8(value, count, how);
        let n = m.with_reg8(reg, result);
        if count > 0 {
            n.set_flag(ZF, result == 0).set_flag(SF, result & 0x80 != 0).set_flag(
                CF,
                shifted_out_8(value, count, how),
            )
        } else {
            n
        }
    } else {
        let value = m.reg16(reg);
        let result = shifted_16(value, count, how);
        let n = m.with_reg16(reg, result);
        if count > 0 {
            n.set_flag(ZF, result == 0).set_flag(SF, result & 0x8000 != 0).set_flag(
                CF,
                shifted_out_16(value, count, how),
            )
        } else {
            n
        }
    }
}

fn exec_shift(cpu: &mut Cpu, i: &Instruction, how: Shift)
    requires
        shift_runs(old(cpu)@, *i),
    ensures
        final(cpu)@ == shift(old(cpu)@, *i, how),
{
    let count: u32 = get_shift_count(i, cpu);
    let reg = i.op0_register;
    if is_8bit_reg(reg) {
        let value: u8 = cpu.get_reg8(reg);
        let result: u8 = shift_byte(value, count, how);
        cpu.set_reg8(reg, result);
        if count > 0 {
            // A left shift by one bit moves out the top one.
            let at: u32 = match how {
                Shift::Left => 8 - count,
                _ => count - 1,
            };
            cpu.set_cpu_flag(ZF, result == 0);
            cpu.set_cpu_flag(SF, (result & 0x80) != 0);
            cpu.set_cpu_flag(CF, ((value >> at) & 1) != 0);
        }
    } else {
        let value: u16 = cpu.get_reg16(reg);
        let result: u16 = shift_word(value, count, how);
        cpu.set_reg16(reg, result);
        if count > 0 {
            let at: u32 = match how {
                Shift::Left => 16 - count,
                _ => count - 1,
            };
            cpu.set_cpu_flag(ZF, result == 0);
            cpu.set_cpu_flag(SF, (result & 0x8000) != 0);
            cpu.set_cpu_flag(CF, ((value >> at) & 1) != 0);
        }
    }
}

pub open spec fn logic_8(a: u8, b: u8, op: Logic) -> u8 {
    match op {
        Logic::And | Logic::Test => a & b,
        Logic::Or => a | b,
        Logic::Xor => a ^ b,
    }
}

pub open spec fn logic_16(a: u16, b: u16, op: Logic) -> u16 {
    match op {
        Logic::And | Logic::Test => a & b,
        Logic::Or => a | b,
        Logic::Xor => a ^ b,
    }
}

/// Zero and sign of the result; carry and overflow are cleared.
pub open spec fn logic_flags(m: Machine, zero: bool, sign: bool) -> Machine {
    m.set_flag(ZF, zero).set_flag(SF, sign).set_flag(OF, false).set_flag(CF, false)
}

pub open spec fn logic(m: Machine, i: Instruction, op: Logic) -> Machine {
    if byte_sized(i) {
        let result = logic_8(m.op0_8(i), m.op1_8(i), op);
        let n = if op == Logic::Test {
            m
        } else {
            m.put_8(i, result)
        };
        logic_flags(n, result == 0, result & 0x80 != 0)
    } else {
        let result = logic_16(m.op0_16(i), m.op1_16(i), op);
        let n = if op == Logic::Test {
            m
        } else {
            m.put_16(i, result)
        };
        logic_flags(n, result == 0, result & 0x8000 != 0)
    }
}

fn set_logic_flags(cpu: &mut Cpu, zero: bool, sign: bool)
    ensures
        final(cpu)@ == logic_flags(old(cpu)@, zero, sign),
{
    cpu.set_cpu_flag(ZF, zero);
    cpu.set_cpu_flag(SF, sign);
    cpu.set_cpu_flag(OF, false);
    cpu.set_cpu_flag(CF, false);
}

fn exec_logic(cpu: &mut Cpu, i: &Instruction, op: Logic)
    requires
        op == Logic::Test || writable(*i),
    ensures
        final(cpu)@ == logic(old(cpu)@, *i, op),
{
    if is_byte_op(i) {
        let a: u8 = cpu.get_op0_8(i);
        let b: u8 = cpu.get_op1_8(i);
        let result: u8 = match op {
            Logic::And | Logic::Test => a & b,
            Logic::Or => a | b,
            Logic::Xor => a ^ b,
        };
        if op != Logic::Test {
            cpu.set_op0_8(i, result);
        }
        set_logic_flags(cpu, result == 0, (result & 0x80) != 0);
    } else {
        let a: u16 = cpu.get_op0_16(i);
        let b: u16 = cpu.get_op1_16(i);
        let result: u16 = match op {
            Logic::And | Logic::Test => a & b,
            Logic::Or => a | b,
            Logic::Xor => a ^ b,
        };
        if op != Logic::Test {
            cpu.set_op0_16(i, result);
        }
        set_logic_flags(cpu, result == 0, (result & 0x8000) != 0);
    }
}

pub open spec fn not(m: Machine, i: Instruction) -> Machine {
    if i.op0_kind != OpKind::Register && i.op0_kind != OpKind::Memory {
        m
    } else if byte_sized(i) {
        m.put_8(i, !m.op0_8(i))
    } else {
        m.put_16(i, !m.op0_16(i))
    }
}

fn exec_not(cpu: &mut Cpu, i: &Instruction)
    requires
        writable(*i),
    ensures
        final(cpu)@ == not(old(cpu)@, *i),
{
    if i.op0_kind == OpKind::Register || i.op0_kind == OpKind::Memory {
        if is_byte_op(i) {
            let value: u8 = cpu.get_op0_8(i);
            cpu.set_op0_8(i, !value);
        } else {
            let value: u16 = cpu.get_op0_16(i);
            cpu.set_op0_16(i, !value);
        }
    }
}

/// Whether a comparison is of bytes: the first operand that is a register
/// says so, or else the memory operand.
pub open spec fn compares_bytes(i: Instruction) -> bool {
    if i.op0_kind == OpKind::Register {
        is_byte_register(i.op0_register)
    } else if i.op1_kind == OpKind::Register {
        is_byte_register(i.op1_register)
    } else {
        i.memory_size == MemorySize::UInt8
    }
}

pub open spec fn compared_8(m: Machine, i: Instruction, kind: OpKind, reg: Register) -> u8 {
    match kind {
        OpKind::Register => m.reg8(reg),
        OpKind::Memory => byte_at(m.ram, effective(m, i)),
        _ => 0,
    }
}

pub open spec fn compared_16(m: Machine, i: Instruction, kind: OpKind, reg: Register) -> u16 {
    match kind {
        OpKind::Register => m.reg16(reg),
        OpKind::Memory => word_at(m.ram, effective(m, i)),
        _ => 0,
    }
}

/// The flags of the difference of the operands.
pub open spec fn compare(m: Machine, i: Instruction) -> Machine {
    if compares_bytes(i) {
        let dest = compared_8(m, i, i.op0_kind, i.op0_register);
        let src = if i.op1_kind == OpKind::Immediate8 {
            immediate8(i)
        } else {
            compared_8(m, i, i.op1_kind, i.op1_register)
        };
        m.with_outcome(sub_outcome_8(dest, src, 0))
    } else {
        let dest = compared_16(m, i, i.op0_kind, i.op0_register);
        let src = match i.op1_kind {
            OpKind::Immediate16 => i.immediate,
            OpKind::Immediate8to16 => sign_extended(immediate8(i)),
            OpKind::Immediate8 => immediate8(i) as u16,
            _ => compared_16(m, i, i.op1_kind, i.op1_register),
        };
        m.with_outcome(sub_outcome_16(dest, src, 0))
    }
}

fn read_compared_8(cpu: &Cpu, i: &Instruction, kind: OpKind, reg: Register) -> (value: u8)
    ensures
        value == compared_8(cpu@, *i, kind, reg),
{
    match kind {
        OpKind::Register => cpu.get_reg8(reg),
        OpKind::Memory => cpu.bus.read_8(calculate_addr(cpu, i)),
        _ => 0,
    }
}

fn read_compared_16(cpu: &Cpu, i: &Instruction, kind: OpKind, reg: Register) -> (value: u16)
    ensures
        value == compared_16(cpu@, *i, kind, reg),
{
    match kind {
        OpKind::Register => cpu.get_reg16(reg),
        OpKind::Memory => cpu.bus.read_16(calculate_addr(cpu, i)),
        _ => 0,
    }
}

fn exec_compare(cpu: &mut Cpu, i: &Instruction)
    ensures
        final(cpu)@ == compare(old(cpu)@, *i),
{
    let bytes = if i.op0_kind == OpKind::Register {
        is_8bit_reg(i.op0_register)
    } else if i.op1_kind == OpKind::Register {
        is_8bit_reg(i.op1_register)
    } else {
        i.memory_size == MemorySize::UInt8
    };
    if bytes {
        let dest: u8 = read_compared_8(cpu, i, i.op0_kind, i.op0_register);
        let src: u8 = if i.op1_kind == OpKind::Immediate8 {
            Cpu::imm8(i)
        } else {
            read_compared_8(cpu, i, i.op1_kind, i.op1_register)
        };
        cpu.alu_sub_8(dest, src);
    } else {
        let dest: u16 = read_compared_16(cpu, i, i.op0_kind, i.op0_register);
        let src: u16 = match i.op1_kind {
            OpKind::Immediate16 => i.immediate,
            OpKind::Immediate8to16 => extend_sign(Cpu::imm8(i)),
            OpKind::Immediate8 => Cpu::imm8(i) as u16,
            _ => read_compared_16(cpu, i, i.op1_kind, i.op1_register),
        };
        cpu.alu_sub_16(dest, src);
    }
}

/// ADD and SUB write a register or memory, with all the flags.
pub open spec fn add_or_sub(m: Machine, i: Instruction, sub: bool) -> Machine {
    if i.op0_kind != OpKind::Register && i.op0_kind != OpKind::Memory {
        m
    } else if byte_sized(i) {
        let (dest, src) = (m.op0_8(i), m.op1_8(i));
        if sub {
            m.with_outcome(sub_outcome_8(dest, src, 0)).put_8(i, wrap_8(dest - src))
        } else {
            m.with_outcome(add_outcome_8(dest, src, 0)).put_8(i, wrap_8(dest + src))
        }
    } else {
        let (dest, src) = (m.op0_16(i), m.op1_16_wide(i));
        if sub {
            m.with_outcome(sub_outcome_16(dest, src, 0)).put_16(i, wrap_16(dest - src))
        } else {
            m.with_outcome(add_outcome_16(dest, src, 0)).put_16(i, wrap_16(dest + src))
        }
    }
}

fn exec_add_or_sub(cpu: &mut Cpu, i: &Instruction, sub: bool)
    requires
        writable(*i),
    ensures
        final(cpu)@ == add_or_sub(old(cpu)@, *i, sub),
{
    if i.op0_kind == OpKind::Register || i.op0_kind == OpKind::Memory {
        if is_byte_op(i) {
            let dest: u8 = cpu.get_op0_8(i);
            let src: u8 = cpu.get_op1_8(i);
            let result: u8 = if sub {
                cpu.alu_sub_8(dest, src)
            } else {
                cpu.alu_add_8(dest, src)
            };
            cpu.set_op0_8(i, result);
        } else {
            let dest: u16 = cpu.get_op0_16(i);
            let src: u16 = cpu.get_op1_16_wide(i);
            let result: u16 = if sub {
                cpu.alu_sub_16(dest, src)
            } else {
                cpu.alu_add_16(dest, src)
            };
            cpu.set_op0_16(i, result);
        }
    }
}

/// Subtract with the carry flag.
pub open spec fn sbb(m: Machine, i: Instruction) -> Machine {
    let borrow = m.carry_in();
    if byte_sized(i) {
        let (dest, src) = (m.op0_8(i), m.op1_8(i));
        m.with_outcome(sub_outcome_8(dest, src, borrow)).put_8(i, wrap_8(dest - src - borrow))
    } else {
        let (dest, src) = (m.op0_16(i), m.op1_16(i));
        m.with_outcome(sub_outcome_16(dest, src, borrow)).put_16(i, wrap_16(dest - src - borrow))
    }
}

fn exec_sbb(cpu: &mut Cpu, i: &Instruction)
    requires
        writable(*i),
    ensures
        final(cpu)@ == sbb(old(cpu)@, *i),
{
    if is_byte_op(i) {
        let dest: u8 = cpu.get_op0_8(i);
        let src: u8 = cpu.get_op1_8(i);
        let result: u8 = cpu.alu_sbb_8(dest, src);
        cpu.set_op0_8(i, result);
    } else {
        let dest: u16 = cpu.get_op0_16(i);
        let src: u16 = cpu.get_op1_16(i);
        let result: u16 = cpu.alu_sbb_16(dest, src);
        cpu.set_op0_16(i, result);
    }
}

/// ADC sets carry, zero, sign and overflow.
pub open spec fn adc_flags(m: Machine, o: Outcome) -> Machine {
    m.set_flag(CF, o.carry).set_flag(ZF, o.zero).set_flag(SF, o.sign).set_flag(OF, o.overflow)
}

/// Add with the carry flag, to a register.
pub open spec fn adc(m: Machine, i: Instruction) -> Machine {
    let carry = m.carry_in();
    if i.op0_kind != OpKind::Register {
        m
    } else if byte_sized(i) {
        let (dest, src) = (m.reg8(i.op0_register), m.op1_8(i));
        adc_flags(
            m.with_reg8(i.op0_register, wrap_8(dest + src + carry)),
            add_outcome_8(dest, src, carry),
        )
    } else {
        let (dest, src) = (m.reg16(i.op0_register), m.op1_16_wide(i));
        adc_flags(
            m.with_reg16(i.op0_register, wrap_16(dest + src + carry)),
            add_outcome_16(dest, src, carry),
        )
    }
}

fn set_adc_flags(cpu: &mut Cpu, carry: bool, zero: bool, sign: bool, overflow: bool)
    ensures
        final(cpu)@ == old(cpu)@.set_flag(CF, carry).set_flag(ZF, zero).set_flag(
            SF,
            sign,
        ).set_flag(OF, overflow),
{
    cpu.set_cpu_flag(CF, carry);
    cpu.set_cpu_flag(ZF, zero);
    cpu.set_cpu_flag(SF, sign);
    cpu.set_cpu_flag(OF, overflow);
}

fn exec_adc(cpu: &mut Cpu, i: &Instruction)
    requires
        writable(*i),
    ensures
        final(cpu)@ == adc(old(cpu)@, *i),
{
    let carry: i32 = if cpu.get_cpu_flag(CF) {
        1
    } else {
        0
    };
    if i.op0_kind == OpKind::Register {
        let reg = i.op0_register;
        if is_byte_op(i) {
            let dest: u8 = cpu.get_reg8(reg);
            let src: u8 = cpu.get_op1_8(i);
            let sum: i32 = dest as i32 + src as i32 + carry;
            let signed: i32 = to_signed_8(dest) + to_signed_8(src) + carry;
            let result: u8 = (sum % 0x100) as u8;
            cpu.set_reg8(reg, result);
            set_adc_flags(
                cpu,
                sum > 0xFF,
                result == 0,
                result >= 0x80,
                !(-0x80 <= signed && signed <= 0x7F),
            );
        } else {
            let dest: u16 = cpu.get_reg16(reg);
            let src: u16 = cpu.get_op1_16_wide(i);
            let sum: i32 = dest as i32 + src as i32 + carry;
            let signed: i32 = to_signed_16(dest) + to_signed_16(src) + carry;
            let result: u16 = (sum % 0x1_0000) as u16;
            cpu.set_reg16(reg, result);
            set_adc_flags(
                cpu,
                sum > 0xFFFF,
                result == 0,
                result >= 0x8000,
                !(-0x8000 <= signed && signed <= 0x7FFF),
            );
        }
    }
}

fn to_signed_8(value: u8) -> (signed: i32)
    ensures
        signed == signed_8(value),
        -0x80 <= signed <= 0x7F,
{
    if value >= 0x80 {
        value as i32 - 0x100
    } else {
        value as i32
    }
}

fn to_signed_16(value: u16) -> (signed: i32)
    ensures
        signed == signed_16(value),
        -0x8000 <= signed <= 0x7FFF,
{
    if value >= 0x8000 {
        value as i32 - 0x1_0000
    } else {
        value as i32
    }
}

/// INC and DEC set zero, sign, overflow and adjust, and leave the carry flag
/// alone.
pub open spec fn count_flags(
    m: Machine,
    zero: bool,
    sign: bool,
    overflow: bool,
    adjust: bool,
) -> Machine {
    m.set_flag(ZF, zero).set_flag(SF, sign).set_flag(OF, overflow).set_flag(AF, adjust)
}

pub open spec fn counted_8(m: Machine, i: Instruction, dec: bool) -> Machine {
    let value = m.op0_8(i);
    let result = if dec {
        wrap_8(value - 1)
    } else {
        wrap_8(value + 1)
    };
    count_flags(
        m.put_8(i, result),
        result == 0,
        result & 0x80 != 0,
        result == (if dec { 0x7F } else { 0x80int }),
        value & 0x0F == (if dec { 0 } else { 0x0Fint }),
    )
}

pub open spec fn counted_16(m: Machine, i: Instruction, dec: bool) -> Machine {
    let value = m.op0_16(i);
    let result = if dec {
        wrap_16(value - 1)
    } else {
        wrap_16(value + 1)
    };
    count_flags(
        m.put_16(i, result),
        result == 0,
        result & 0x8000 != 0,
        result == (if dec { 0x7FFF } else { 0x8000int }),
        value & 0x0F == (if dec { 0 } else { 0x0Fint }),
    )
}

pub open spec fn inc_or_dec(m: Machine, i: Instruction, dec: bool) -> Machine {
    if byte_sized(i) {
        counted_8(m, i, dec)
    } else {
        counted_16(m, i, dec)
    }
}

fn set_count_flags(cpu: &mut Cpu, zero: bool, sign: bool, overflow: bool, adjust: bool)
    ensures
        final(cpu)@ == count_flags(old(cpu)@, zero, sign, overflow, adjust),
{
    cpu.set_cpu_flag(ZF, zero);
    cpu.set_cpu_flag(SF, sign);
    cpu.set_cpu_flag(OF, overflow);
    cpu.set_cpu_flag(AF, adjust);
}

fn count_8(cpu: &mut Cpu, i: &Instruction, dec: bool)
    ensures
        final(cpu)@ == counted_8(old(cpu)@, *i, dec),
{
    let value: u8 = cpu.get_op0_8(i);
    let result: u8 = if dec {
        value.wrapping_sub(1)
    } else {
        value.wrapping_add(1)
    };
    let overflow = result == if dec { 0x7F } else { 0x80 };
    let adjust = (value & 0x0F) == if dec { 0 } else { 0x0F };
    cpu.set_op0_8(i, result);
    set_count_flags(cpu, result == 0, (result & 0x80) != 0, overflow, adjust);
}

fn count_16(cpu: &mut Cpu, i: &Instruction, dec: bool)
    requires
        op0_writable(*i),
    ensures
        final(cpu)@ == counted_16(old(cpu)@, *i, dec),
{
    let value: u16 = cpu.get_op0_16(i);
    let result: u16 = if dec {
        value.wrapping_sub(1)
    } else {
        value.wrapping_add(1)
    };
    let overflow = result == if dec { 0x7FFF } else { 0x8000 };
    let adjust = (value & 0x0F) == if dec { 0 } else { 0x0F };
    cpu.set_op0_16(i, result);
    set_count_flags(cpu, result == 0, (result & 0x8000) != 0, overflow, adjust);
}

fn exec_inc_or_dec(cpu: &mut Cpu, i: &Instruction, dec: bool)
    requires
        writable(*i),
    ensures
        final(cpu)@ == inc_or_dec(old(cpu)@, *i, dec),
{
    if is_byte_op(i) {
        count_8(cpu, i, dec);
    } else {
        count_16(cpu, i, dec);
    }
}

/// The operand that MUL and one-operand IMUL multiply the accumulator with.
pub open spec fn factor_8(m: Machine, i: Instruction) -> u8 {
    if i.op0_kind == OpKind::Register || i.op0_kind == OpKind::Memory {
        m.op0_8(i)
    } else {
        0
    }
}

pub open spec fn factor_16(m: Machine, i: Instruction) -> u16 {
    if i.op0_kind == OpKind::Register || i.op0_kind == OpKind::Memory {
        m.op0_16(i)
    } else {
        0
    }
}

/// Carry and overflow tell that the product needs its upper half.
pub open spec fn wide_flags(m: Machine, wide: bool) -> Machine {
    m.set_flag(CF, wide).set_flag(OF, wide)
}

pub open spec fn multiply(m: Machine, i: Instruction) -> Machine {
    if byte_sized(i) {
        let product = m.reg8(Register::AL) * factor_8(m, i);
        wide_flags(Machine { ax: product as u16, ..m }, product > 0xFF)
    } else {
        let product = m.ax * factor_16(m, i);
        wide_flags(
            Machine {
                ax: (product % 0x1_0000) as u16,
                dx: (product / 0x1_0000) as u16,
                ..m
            },
            product > 0xFFFF,
        )
    }
}

/// The source of a two-operand IMUL.
pub open spec fn imul_source(m: Machine, i: Instruction) -> u16 {
    match i.op1_kind {
        OpKind::Register => m.reg16(i.op1_register),
        OpKind::Immediate16 => i.immediate,
        OpKind::Memory => word_at(m.ram, effective(m, i)),
        _ => 0,
    }
}

pub open spec fn multiply_signed(m: Machine, i: Instruction) -> Machine {
    if i.op_count == 1 {
        if byte_sized(i) {
            let product = signed_8(m.reg8(Register::AL)) * signed_8(factor_8(m, i));
            wide_flags(Machine { ax: wrap_16(product), ..m }, !(-0x80 <= product <= 0x7F))
        } else {
            let product = signed_16(m.ax) * signed_16(factor_16(m, i));
            wide_flags(
                Machine { ax: wrap_16(product), dx: wrap_16(product / 0x1_0000), ..m },
                !(-0x8000 <= product <= 0x7FFF),
            )
        }
    } else if i.op_count == 2 {
        let product = signed_16(m.reg16(i.op0_register)) * signed_16(imul_source(m, i));
        wide_flags(
            m.with_reg16(i.op0_register, wrap_16(product)),
            !(-0x8000 <= product <= 0x7FFF),
        )
    } else {
        m
    }
}

fn set_wide_flags(cpu: &mut Cpu, wide: bool)
    ensures
        final(cpu)@ == wide_flags(old(cpu)@, wide),
{
    cpu.set_cpu_flag(CF, wide);
    cpu.set_cpu_flag(OF, wide);
}

fn get_factor_8(cpu: &Cpu, i: &Instruction) -> (value: u8)
    ensures
        value == factor_8(cpu@, *i),
{
    if i.op0_kind == OpKind::Register || i.op0_kind == OpKind::Memory {
        cpu.get_op0_8(i)
    } else {
        0
    }
}

fn get_factor_16(cpu: &Cpu, i: &Instruction) -> (value: u16)
    ensures
        value == factor_16(cpu@, *i),
{
    if i.op0_kind == OpKind::Register || i.op0_kind == OpKind::Memory {
        cpu.get_op0_16(i)
    } else {
        0
    }
}

fn exec_mul(cpu: &mut Cpu, i: &Instruction)
    ensures
        final(cpu)@ == multiply(old(cpu)@, *i),
{
    if is_byte_op(i) {
        let al: u32 = cpu.get_al() as u32;
        let factor: u32 = get_factor_8(cpu, i) as u32;
        assert(0 <= al * factor <= 0xFE01) by (nonlinear_arith)
            requires
                0 <= al <= 0xFF,
                0 <= factor <= 0xFF,
        ;
        let product: u32 = al * factor;
        cpu.ax = product as u16;
        set_wide_flags(cpu, product > 0xFF);
    } else {
        let ax: u32 = cpu.ax as u32;
        let factor: u32 = get_factor_16(cpu, i) as u32;
        assert(0 <= ax * factor <= 0xFFFE_0001) by (nonlinear_arith)
            requires
                0 <= ax <= 0xFFFF,
                0 <= factor <= 0xFFFF,
        ;
        let product: u32 = ax * factor;
        cpu.ax = (product % 0x1_0000) as u16;
        cpu.dx = (product / 0x1_0000) as u16;
        set_wide_flags(cpu, product > 0xFFFF);
    }
}

/// The product of two signed words, with its low and its high half.
fn signed_product(a: i32, b: i32) -> (parts: (i32, u16, u16))
    requires
        -0x8000 <= a <= 0x7FFF,
        -0x8000 <= b <= 0x7FFF,
    ensures
        parts.0 == a * b,
        parts.1 == wrap_16(a * b),
        parts.2 == wrap_16(a * b / 0x1_0000),
{
    assert(-0x4000_0000 <= a * b <= 0x4000_0000) by (nonlinear_arith)
        requires
            -0x8000 <= a <= 0x7FFF,
            -0x8000 <= b <= 0x7FFF,
    ;
    let product: i32 = a * b;
    // Adding a whole number of ranges makes it positive.
    let lifted: i64 = product as i64 + 0x1_0000_0000;
    let low: i64 = lifted % 0x1_0000;
    let high: i64 = lifted / 0x1_0000;
    (product, low as u16, (high % 0x1_0000) as u16)
}

fn exec_imul(cpu: &mut Cpu, i: &Instruction)
    requires
        i.op_count == 2 ==> is_word_register(i.op0_register),
    ensures
        final(cpu)@ == multiply_signed(old(cpu)@, *i),
{
    if i.op_count == 1 {
        if is_byte_op(i) {
            let al: i32 = to_signed_8(cpu.get_al());
            let factor: i32 = to_signed_8(get_factor_8(cpu, i));
            let (product, low, _): (i32, u16, u16) = signed_product(al, factor);
            cpu.ax = low;
            set_wide_flags(cpu, !(-0x80 <= product && product <= 0x7F));
        } else {
            let ax: i32 = to_signed_16(cpu.ax);
            let factor: i32 = to_signed_16(get_factor_16(cpu, i));
            let (product, low, high): (i32, u16, u16) = signed_product(ax, factor);
            cpu.ax = low;
            cpu.dx = high;
            set_wide_flags(cpu, !(-0x8000 <= product && product <= 0x7FFF));
        }
    } else if i.op_count == 2 {
        let dest: i32 = to_signed_16(cpu.get_reg16(i.op0_register));
        let source: u16 = match i.op1_kind {
            OpKind::Register => cpu.get_reg16(i.op1_register),
            OpKind::Immediate16 => i.immediate,
            OpKind::Memory => cpu.bus.read_16(calculate_addr(cpu, i)),
            _ => 0,
        };
        let (product, low, _): (i32, u16, u16) = signed_product(dest, to_signed_16(source));
        cpu.set_reg16(i.op0_register, low);
        set_wide_flags(cpu, !(-0x8000 <= product && product <= 0x7FFF));
    }
}

/// AAA keeps one decimal digit in AL and carries into AH.
pub open spec fn aaa(m: Machine) -> Machine {
    let al = m.reg8(Register::AL);
    if al & 0x0F > 9 || m.flag(AF) {
        let n = m.with_reg8(Register::AL, wrap_8(al + 6) & 0x0F);
        n.with_reg8(Register::AH, wrap_8(n.reg8(Register::AH) + 1)).set_flag(AF, true).set_flag(
            CF,
            true,
        )
    } else {
        m.set_flag(AF, false).set_flag(CF, false).with_reg8(Register::AL, al & 0x0F)
    }
}

fn exec_aaa(cpu: &mut Cpu)
    ensures
        final(cpu)@ == aaa(old(cpu)@),
{
    let al: u8 = cpu.get_al();
    if (al & 0x0F) > 9 || cpu.get_cpu_flag(AF) {
        cpu.set_reg8(Register::AL, al.wrapping_add(6) & 0x0F);
        let ah: u8 = cpu.get_ah();
        cpu.set_reg8(Register::AH, ah.wrapping_add(1));
        cpu.set_cpu_flag(AF, true);
        cpu.set_cpu_flag(CF, true);
    } else {
        cpu.set_cpu_flag(AF, false);
        cpu.set_cpu_flag(CF, false);
        cpu.set_reg8(Register::AL, al & 0x0F);
    }
}

/// DAS makes two decimal digits of a difference in AL.
pub open spec fn das(m: Machine) -> Machine {
    let al = m.reg8(Register::AL);
    let low = al & 0x0F > 9 || m.flag(AF);
    let first = if low {
        wrap_8(al - 6)
    } else {
        al
    };
    let high = first > 0x9F || m.flag(CF);
    let second = if high {
        wrap_8(first - 0x60)
    } else {
        first
    };
    let carry = high || (low && first > 0x99);
    m.set_flag(AF, low).with_reg8(Register::AL, second).set_flag(CF, carry).set_flag(
        ZF,
        second == 0,
    ).set_flag(SF, second & 0x80 != 0)
}

fn exec_das(cpu: &mut Cpu)
    ensures
        final(cpu)@ == das(old(cpu)@),
{
    let mut al: u8 = cpu.get_al();
    let old_cf = cpu.get_cpu_flag(CF);
    let old_af = cpu.get_cpu_flag(AF);
    let mut new_cf = false;
    if (al & 0x0F) > 9 || old_af {
        al = al.wrapping_sub(6);
        cpu.set_cpu_flag(AF, true);
        new_cf = old_cf || al > 0x99;
    } else {
        cpu.set_cpu_flag(AF, false);
    }
    if al > 0x9F || old_cf {
        al = al.wrapping_sub(0x60);
        new_cf = true;
    }
    cpu.set_reg8(Register::AL, al);
    cpu.set_cpu_flag(CF, new_cf);
    cpu.set_cpu_flag(ZF, al == 0);
    cpu.set_cpu_flag(SF, (al & 0x80) != 0);
}

// ---------------------------------------------------------------------------
// Stack, jumps and calls
// ---------------------------------------------------------------------------

/// What PUSH pushes; zero for an operand it does not know.
pub open spec fn push_operand(m: Machine, i: Instruction) -> u16 {
    match i.op0_kind {
        OpKind::Register => m.reg16(i.op0_register),
        OpKind::Immediate8 => sign_extended(immediate8(i)),
        OpKind::Immediate16 => i.immediate,
        OpKind::Memory => word_at(m.ram, effective(m, i)),
        _ => 0,
    }
}

fn exec_push(cpu: &mut Cpu, i: &Instruction)
    ensures
        final(cpu)@ == old(cpu)@.pushed(push_operand(old(cpu)@, *i)),
{
    let value: u16 = match i.op0_kind {
        OpKind::Register => cpu.get_reg16(i.op0_register),
        OpKind::Immediate8 => extend_sign(Cpu::imm8(i)),
        OpKind::Immediate16 => i.immediate,
        OpKind::Memory => cpu.bus.read_16(calculate_addr(cpu, i)),
        _ => 0,
    };
    cpu.push(value);
}

/// POP to a register or to memory, whose address is taken after the word is
/// off the stack.
pub open spec fn pop(m: Machine, i: Instruction) -> Machine {
    if i.op0_kind == OpKind::Register || i.op0_kind == OpKind::Memory {
        m.popped().put_16(i, m.top())
    } else {
        m.popped()
    }
}

fn exec_pop(cpu: &mut Cpu, i: &Instruction)
    requires
        op0_writable(*i),
    ensures
        final(cpu)@ == pop(old(cpu)@, *i),
{
    let value: u16 = cpu.pop();
    if i.op0_kind == OpKind::Register || i.op0_kind == OpKind::Memory {
        cpu.set_op0_16(i, value);
    }
}

/// `n` words down the stack.
pub open spec fn popped_n(m: Machine, n: nat) -> Machine
    decreases n,
{
    if n == 0 {
        m
    } else {
        popped_n(m, (n - 1) as nat).popped()
    }
}

pub open spec fn nth_word(m: Machine, n: nat) -> u16 {
    popped_n(m, n).top()
}

/// POPA takes all the word registers but SP from the stack.
pub open spec fn popa(m: Machine) -> Machine {
    Machine {
        di: nth_word(m, 0),
        si: nth_word(m, 1),
        bp: nth_word(m, 2),
        bx: nth_word(m, 4),
        dx: nth_word(m, 5),
        cx: nth_word(m, 6),
        ax: nth_word(m, 7),
        ..popped_n(m, 8)
    }
}

fn exec_popa(cpu: &mut Cpu)
    ensures
        final(cpu)@ == popa(old(cpu)@),
{
    proof {
        reveal_with_fuel(popped_n, 9);
    }
    let di: u16 = cpu.pop();
    let si: u16 = cpu.pop();
    let bp: u16 = cpu.pop();
    let _sp: u16 = cpu.pop();
    let bx: u16 = cpu.pop();
    let dx: u16 = cpu.pop();
    let cx: u16 = cpu.pop();
    let ax: u16 = cpu.pop();
    cpu.di = di;
    cpu.si = si;
    cpu.bp = bp;
    cpu.bx = bx;
    cpu.dx = dx;
    cpu.cx = cx;
    cpu.ax = ax;
}

/// Where a near jump or call goes: what a register or memory holds, or the
/// branch target.
pub open spec fn near_target(m: Machine, i: Instruction) -> u16 {
    match i.op0_kind {
        OpKind::Register => m.reg16(i.op0_register),
        OpKind::Memory => word_at(m.ram, effective(m, i)),
        _ => near_branch(i),
    }
}

fn get_near_target(cpu: &Cpu, i: &Instruction) -> (target: u16)
    ensures
        target == near_target(cpu@, *i),
{
    match i.op0_kind {
        OpKind::Register => cpu.get_reg16(i.op0_register),
        OpKind::Memory => cpu.bus.read_16(calculate_addr(cpu, i)),
        _ => i.memory_displacement as u16,
    }
}

/// A jump; a far one goes to another segment.
pub open spec fn jump(m: Machine, i: Instruction) -> Machine {
    if i.op0_kind == OpKind::FarBranch16 {
        Machine { cs: far_segment(i), ip: far_offset(i), ..m }
    } else {
        Machine { ip: near_target(m, i), ..m }
    }
}

fn exec_jump(cpu: &mut Cpu, i: &Instruction)
    ensures
        final(cpu)@ == jump(old(cpu)@, *i),
{
    if i.op0_kind == OpKind::FarBranch16 {
        cpu.cs = i.memory_displacement as u16;
        cpu.ip = i.immediate;
    } else {
        cpu.ip = get_near_target(cpu, i);
    }
}

/// A jump that is taken on a condition.
pub open spec fn jump_if(m: Machine, i: Instruction, taken: bool) -> Machine {
    if taken {
        Machine { ip: near_branch(i), ..m }
    } else {
        m
    }
}

fn exec_jump_if(cpu: &mut Cpu, i: &Instruction, taken: bool)
    ensures
        final(cpu)@ == jump_if(old(cpu)@, *i, taken),
{
    if taken {
        cpu.ip = i.memory_displacement as u16;
    }
}

/// When a conditional jump is taken.
pub open spec fn condition(m: Machine, mnemonic: Mnemonic) -> bool {
    match mnemonic {
        Mnemonic::Je => m.flag(ZF),
        Mnemonic::Jne => !m.flag(ZF),
        Mnemonic::Jcxz => m.cx == 0,
        Mnemonic::Jbe => m.flag(CF) || m.flag(ZF),
        Mnemonic::Jo => m.flag(OF),
        Mnemonic::Jae => !m.flag(CF),
        Mnemonic::Jb => m.flag(CF),
        Mnemonic::Jl => m.flag(SF) != m.flag(OF),
        Mnemonic::Jle => m.flag(ZF) || m.flag(SF) != m.flag(OF),
        _ => false,
    }
}

fn get_condition(cpu: &Cpu, mnemonic: Mnemonic) -> (taken: bool)
    ensures
        taken == condition(cpu@, mnemonic),
{
    match mnemonic {
        Mnemonic::Je => cpu.zflag(),
        Mnemonic::Jne => !cpu.zflag(),
        Mnemonic::Jcxz => cpu.cx == 0,
        Mnemonic::Jbe => cpu.get_cpu_flag(CF) || cpu.get_cpu_flag(ZF),
        Mnemonic::Jo => cpu.get_cpu_flag(OF),
        Mnemonic::Jae => !cpu.get_cpu_flag(CF),
        Mnemonic::Jb => cpu.get_cpu_flag(CF),
        Mnemonic::Jl => cpu.get_cpu_flag(SF) != cpu.get_cpu_flag(OF),
        Mnemonic::Jle => cpu.get_cpu_flag(ZF) || cpu.get_cpu_flag(SF) != cpu.get_cpu_flag(OF),
        _ => false,
    }
}

/// The return address goes on the stack before the target is looked up.
pub open spec fn call(m: Machine, i: Instruction) -> Machine {
    if i.op0_kind == OpKind::FarBranch16 {
        Machine { cs: far_segment(i), ip: far_offset(i), ..m.pushed(m.cs).pushed(m.ip) }
    } else {
        let n = m.pushed(m.ip);
        Machine { ip: near_target(n, i), ..n }
    }
}

fn exec_call(cpu: &mut Cpu, i: &Instruction)
    ensures
        final(cpu)@ == call(old(cpu)@, *i),
{
    if i.op0_kind == OpKind::FarBranch16 {
        cpu.push(cpu.cs);
        cpu.push(cpu.ip);
        cpu.cs = i.memory_displacement as u16;
        cpu.ip = i.immediate;
    } else {
        cpu.push(cpu.ip);
        cpu.ip = get_near_target(cpu, i);
    }
}

pub open spec fn ret(m: Machine) -> Machine {
    Machine { ip: m.top(), ..m.popped() }
}

/// Return to another segment, and drop the caller's arguments.
pub open spec fn retf(m: Machine, i: Instruction) -> Machine {
    let n = Machine {
        ip: m.top(),
        cs: m.popped().top(),
        ..m.popped().popped()
    };
    if i.op0_kind == OpKind::Immediate16 {
        Machine { sp: wrap_16(n.sp + i.immediate), ..n }
    } else {
        n
    }
}

fn exec_retf(cpu: &mut Cpu, i: &Instruction)
    ensures
        final(cpu)@ == retf(old(cpu)@, *i),
{
    cpu.ip = cpu.pop();
    cpu.cs = cpu.pop();
    if i.op0_kind == OpKind::Immediate16 {
        cpu.sp = cpu.sp.wrapping_add(i.immediate);
    }
}

/// LOOP counts CX down and jumps until it is zero.
pub open spec fn loop_cx(m: Machine, i: Instruction) -> Machine {
    let n = Machine { cx: wrap_16(m.cx - 1), ..m };
    jump_if(n, i, n.cx != 0)
}

// ---------------------------------------------------------------------------
// String instructions
// ---------------------------------------------------------------------------

/// An index after one step in the direction that the direction flag says.
pub open spec fn advanced(m: Machine, index: u16, by: int) -> u16 {
    if m.flag(DF) {
        wrap_16(index - by)
    } else {
        wrap_16(index + by)
    }
}

fn advance(cpu: &Cpu, index: u16, by: u16) -> (next: u16)
    ensures
        next == advanced(cpu@, index, by as int),
{
    if cpu.dflag() {
        index.wrapping_sub(by)
    } else {
        index.wrapping_add(by)
    }
}

pub open spec fn lods(m: Machine, i: Instruction, word: bool) -> Machine {
    let addr = physical(string_segment(m, i), m.si);
    if word {
        Machine { ax: word_at(m.ram, addr), si: advanced(m, m.si, 2), ..m }
    } else {
        Machine { si: advanced(m, m.si, 1), ..m.with_reg8(Register::AL, byte_at(m.ram, addr)) }
    }
}

fn exec_lods(cpu: &mut Cpu, i: &Instruction, word: bool)
    ensures
        final(cpu)@ == lods(old(cpu)@, *i, word),
{
    reveal(Machine::with_reg8);
    let segment: u16 = get_string_src_segment(i, cpu);
    let addr: usize = cpu.get_physical_addr(segment, cpu.si);
    if word {
        cpu.ax = cpu.bus.read_16(addr);
        cpu.si = advance(cpu, cpu.si, 2);
    } else {
        let value: u8 = cpu.bus.read_8(addr);
        cpu.set_reg8(Register::AL, value);
        cpu.si = advance(cpu, cpu.si, 1);
    }
}

/// One step of STOS or MOVS.
pub open spec fn moving_step(m: Machine, i: Instruction, op: Moving) -> Machine {
    let to = physical(m.es, m.di);
    let from = physical(string_segment(m, i), m.si);
    match op {
        Moving::Stosb => Machine {
            ram: store_8(m.ram, to, m.reg8(Register::AL)),
            di: advanced(m, m.di, 1),
            ..m
        },
        Moving::Stosw => Machine {
            ram: store_8(
                store_8(m.ram, to, m.reg8(Register::AL)),
                to + 1,
                m.reg8(Register::AH),
            ),
            di: advanced(m, m.di, 2),
            ..m
        },
        Moving::Movsb => Machine {
            ram: store_8(m.ram, to, byte_at(m.ram, from)),
            si: advanced(m, m.si, 1),
            di: advanced(m, m.di, 1),
            ..m
        },
        Moving::Movsw => Machine {
            ram: store_8(
                store_8(m.ram, to, byte_at(m.ram, from)),
                to + 1,
                byte_at(m.ram, from + 1),
            ),
            si: advanced(m, m.si, 2),
            di: advanced(m, m.di, 2),
            ..m
        },
    }
}

/// The repeated instruction steps CX times, and counts CX down to zero.
pub open spec fn repeat_moving(m: Machine, i: Instruction, op: Moving) -> Machine
    decreases m.cx,
{
    if m.cx == 0 {
        m
    } else {
        repeat_moving(
            Machine { cx: (m.cx - 1) as u16, ..moving_step(m, i, op) },
            i,
            op,
        )
    }
}

pub open spec fn moving(m: Machine, i: Instruction, op: Moving) -> Machine {
    if i.rep_prefix {
        repeat_moving(m, i, op)
    } else {
        moving_step(m, i, op)
    }
}

fn step_moving(cpu: &mut Cpu, i: &Instruction, op: Moving)
    ensures
        final(cpu)@ == moving_step(old(cpu)@, *i, op),
{
    let to: usize = cpu.get_physical_addr(cpu.es, cpu.di);
    let segment: u16 = get_string_src_segment(i, cpu);
    let from: usize = cpu.get_physical_addr(segment, cpu.si);
    let (al, ah): (u8, u8) = (cpu.get_al(), cpu.get_ah());
    match op {
        Moving::Stosb => {
            cpu.bus.write_8(to, al);
            cpu.di = advance(cpu, cpu.di, 1);
        },
        Moving::Stosw => {
            cpu.bus.write_8(to, al);
            cpu.bus.write_8(to + 1, ah);
            cpu.di = advance(cpu, cpu.di, 2);
        },
        Moving::Movsb => {
            let value: u8 = cpu.bus.read_8(from);
            cpu.bus.write_8(to, value);
            cpu.si = advance(cpu, cpu.si, 1);
            cpu.di = advance(cpu, cpu.di, 1);
        },
        Moving::Movsw => {
            let low: u8 = cpu.bus.read_8(from);
            let high: u8 = cpu.bus.read_8(from + 1);
            cpu.bus.write_8(to, low);
            cpu.bus.write_8(to + 1, high);
            cpu.si = advance(cpu, cpu.si, 2);
            cpu.di = advance(cpu, cpu.di, 2);
        },
    }
}

fn exec_moving(cpu: &mut Cpu, i: &Instruction, op: Moving)
    ensures
        final(cpu)@ == moving(old(cpu)@, *i, op),
{
    if i.rep_prefix {
        while cpu.cx != 0
            invariant
                repeat_moving(cpu@, *i, op) == repeat_moving(old(cpu)@, *i, op),
            decreases cpu.cx,
        {
            step_moving(cpu, i, op);
            cpu.cx = cpu.cx - 1;
        }
    } else {
        step_moving(cpu, i, op);
    }
}

/// One step of SCASB: the flags of AL less the byte at ES:DI.
pub open spec fn scas_step(m: Machine) -> Machine {
    let n = m.with_outcome(
        sub_outcome_8(m.reg8(Register::AL), byte_at(m.ram, physical(m.es, m.di)), 0),
    );
    Machine { di: advanced(n, n.di, 1), ..n }
}

/// REPE goes on while the bytes are equal, REPNE while they differ, both at
/// most CX times.
pub open spec fn repeat_scas(m: Machine, i: Instruction) -> Machine
    decreases m.cx,
{
    if m.cx == 0 {
        m
    } else {
        let n = Machine { cx: (m.cx - 1) as u16, ..scas_step(m) };
        if (i.rep_prefix && !n.flag(ZF)) || (i.repne_prefix && n.flag(ZF)) {
            n
        } else {
            repeat_scas(n, i)
        }
    }
}

pub open spec fn scas(m: Machine, i: Instruction) -> Machine {
    if i.rep_prefix || i.repne_prefix {
        repeat_scas(m, i)
    } else {
        scas_step(m)
    }
}

fn step_scas(cpu: &mut Cpu)
    ensures
        final(cpu)@ == scas_step(old(cpu)@),
{
    let addr: usize = cpu.get_physical_addr(cpu.es, cpu.di);
    let value: u8 = cpu.bus.read_8(addr);
    let al: u8 = cpu.get_al();
    cpu.alu_sub_8(al, value);
    cpu.di = advance(cpu, cpu.di, 1);
}

fn exec_scas(cpu: &mut Cpu, i: &Instruction)
    ensures
        final(cpu)@ == scas(old(cpu)@, *i),
{
    if i.rep_prefix || i.repne_prefix {
        while cpu.cx != 0
            invariant
                i.rep_prefix || i.repne_prefix,
                repeat_scas(cpu@, *i) == repeat_scas(old(cpu)@, *i),
            decreases cpu.cx,
        {
            let count: u16 = cpu.cx;
            step_scas(cpu);
            cpu.cx = count - 1;
            if (i.rep_prefix && !cpu.zflag()) || (i.repne_prefix && cpu.zflag()) {
                return ;
            }
        }
    } else {
        step_scas(cpu);
    }
}

// ---------------------------------------------------------------------------
// Ports
// ---------------------------------------------------------------------------

/// The byte that OUT writes: a byte register, or AL.
pub open spec fn out_value(m: Machine, i: Instruction) -> u8 {
    if is_byte_register(i.op1_register) {
        m.reg8(i.op1_register)
    } else {
        m.reg8(Register::AL)
    }
}

/// The port of IN and OUT: DX, or the immediate byte.
pub open spec fn port(m: Machine, i: Instruction, kind: OpKind) -> u16 {
    if kind == OpKind::Register {
        m.dx
    } else {
        immediate8(i) as u16
    }
}

fn get_port(cpu: &Cpu, i: &Instruction, kind: OpKind) -> (number: u16)
    ensures
        number == port(cpu@, *i, kind),
{
    if kind == OpKind::Register {
        cpu.dx
    } else {
        Cpu::imm8(i) as u16
    }
}

/// The machine once IN has its byte.
pub open spec fn in_done(m: Machine, reg: Register, value: u8) -> Machine {
    if is_byte_register(reg) {
        m.with_reg8(reg, value)
    } else {
        m.with_reg16(reg, value as u16)
    }
}

/// Finish IN with the byte that the port gave.
pub fn finish_in(cpu: &mut Cpu, reg: Register, value: u8)
    requires
        is_byte_register(reg) || is_word_register(reg),
    ensures
        final(cpu)@ == in_done(old(cpu)@, reg, value),
{
    if is_8bit_reg(reg) {
        cpu.set_reg8(reg, value);
    } else {
        cpu.set_reg16(reg, value as u16);
    }
}

// ---------------------------------------------------------------------------
// Dispatch
// ---------------------------------------------------------------------------

/// Whether an instruction can run: it writes no register that the machine
/// lacks, and shifts no further than its operand is wide.
pub open spec fn runnable(m: Machine, i: Instruction) -> bool {
    match i.mnemonic {
        Mnemonic::Mov => mov_runs(i),
        Mnemonic::Shl | Mnemonic::Sal | Mnemonic::Shr | Mnemonic::Sar => shift_runs(m, i),
        Mnemonic::And | Mnemonic::Or | Mnemonic::Xor | Mnemonic::Sbb | Mnemonic::Inc
        | Mnemonic::Dec | Mnemonic::Add | Mnemonic::Sub | Mnemonic::Not
        | Mnemonic::Adc => writable(i),
        Mnemonic::Pop => op0_writable(i),
        Mnemonic::Lea => is_word_register(i.op0_register),
        Mnemonic::Lds | Mnemonic::Les => is_pointer_load(i) ==> is_word_register(i.op0_register),
        Mnemonic::Imul => i.op_count == 2 ==> is_word_register(i.op0_register),
        Mnemonic::Xchg => xchg_runs(i),
        Mnemonic::In => is_byte_register(i.op0_register) || is_word_register(i.op0_register),
        _ => true,
    }
}

/// The machine after an instruction of a group: jumps, calls and returns.
pub open spec fn after_flow(m: Machine, i: Instruction) -> Machine {
    match i.mnemonic {
        Mnemonic::Je | Mnemonic::Jne | Mnemonic::Jcxz | Mnemonic::Jbe | Mnemonic::Jo | Mnemonic::Jae
        | Mnemonic::Jb | Mnemonic::Jl | Mnemonic::Jle => jump_if(m, i, condition(m, i.mnemonic)),
        Mnemonic::Jmp => jump(m, i),
        Mnemonic::Call => call(m, i),
        Mnemonic::Ret => ret(m),
        Mnemonic::Retf => retf(m, i),
        Mnemonic::Loop => loop_cx(m, i),
        _ => m,
    }
}

fn exec_flow(cpu: &mut Cpu, i: &Instruction)
    requires
        runnable(old(cpu)@, *i),
    ensures
        final(cpu)@ == after_flow(old(cpu)@, *i),
{
    match i.mnemonic {
        Mnemonic::Je | Mnemonic::Jne | Mnemonic::Jcxz | Mnemonic::Jbe | Mnemonic::Jo | Mnemonic::Jae
        | Mnemonic::Jb | Mnemonic::Jl | Mnemonic::Jle => {
            let taken = get_condition(cpu, i.mnemonic);
            exec_jump_if(cpu, i, taken);
        },
        Mnemonic::Jmp => exec_jump(cpu, i),
        Mnemonic::Call => exec_call(cpu, i),
        Mnemonic::Ret => {
            cpu.ip = cpu.pop();
        },
        Mnemonic::Retf => exec_retf(cpu, i),
        Mnemonic::Loop => {
            cpu.cx = cpu.cx.wrapping_sub(1);
            let taken = cpu.cx != 0;
            exec_jump_if(cpu, i, taken);
        },
        _ => {},
    }
}

/// The machine after an instruction of a group: logic and shifts.
pub open spec fn after_bits(m: Machine, i: Instruction) -> Machine {
    match i.mnemonic {
        Mnemonic::Shl | Mnemonic::Sal => shift(m, i, Shift::Left),
        Mnemonic::Shr => shift(m, i, Shift::Right),
        Mnemonic::Sar => shift(m, i, Shift::Arithmetic),
        Mnemonic::And => logic(m, i, Logic::And),
        Mnemonic::Or => logic(m, i, Logic::Or),
        Mnemonic::Xor => logic(m, i, Logic::Xor),
        Mnemonic::Test => logic(m, i, Logic::Test),
        Mnemonic::Not => not(m, i),
        _ => m,
    }
}

fn exec_bits(cpu: &mut Cpu, i: &Instruction)
    requires
        runnable(old(cpu)@, *i),
    ensures
        final(cpu)@ == after_bits(old(cpu)@, *i),
{
    match i.mnemonic {
        Mnemonic::Shl | Mnemonic::Sal => exec_shift(cpu, i, Shift::Left),
        Mnemonic::Shr => exec_shift(cpu, i, Shift::Right),
        Mnemonic::Sar => exec_shift(cpu, i, Shift::Arithmetic),
        Mnemonic::And => exec_logic(cpu, i, Logic::And),
        Mnemonic::Or => exec_logic(cpu, i, Logic::Or),
        Mnemonic::Xor => exec_logic(cpu, i, Logic::Xor),
        Mnemonic::Test => exec_logic(cpu, i, Logic::Test),
        Mnemonic::Not => exec_not(cpu, i),
        _ => {},
    }
}

/// The machine after an instruction of a group: adding, subtracting, multiplying and comparing.
pub open spec fn after_arithmetic(m: Machine, i: Instruction) -> Machine {
    match i.mnemonic {
        Mnemonic::Compare => compare(m, i),
        Mnemonic::Sbb => sbb(m, i),
        Mnemonic::Adc => adc(m, i),
        Mnemonic::Add => add_or_sub(m, i, false),
        Mnemonic::Sub => add_or_sub(m, i, true),
        Mnemonic::Inc => inc_or_dec(m, i, false),
        Mnemonic::Dec => inc_or_dec(m, i, true),
        Mnemonic::Mul => multiply(m, i),
        Mnemonic::Imul => multiply_signed(m, i),
        Mnemonic::Aaa => aaa(m),
        Mnemonic::Das => das(m),
        _ => m,
    }
}

fn exec_arithmetic(cpu: &mut Cpu, i: &Instruction)
    requires
        runnable(old(cpu)@, *i),
    ensures
        final(cpu)@ == after_arithmetic(old(cpu)@, *i),
{
    match i.mnemonic {
        Mnemonic::Compare => exec_compare(cpu, i),
        Mnemonic::Sbb => exec_sbb(cpu, i),
        Mnemonic::Adc => exec_adc(cpu, i),
        Mnemonic::Add => exec_add_or_sub(cpu, i, false),
        Mnemonic::Sub => exec_add_or_sub(cpu, i, true),
        Mnemonic::Inc => exec_inc_or_dec(cpu, i, false),
        Mnemonic::Dec => exec_inc_or_dec(cpu, i, true),
        Mnemonic::Mul => exec_mul(cpu, i),
        Mnemonic::Imul => exec_imul(cpu, i),
        Mnemonic::Aaa => exec_aaa(cpu),
        Mnemonic::Das => exec_das(cpu),
        _ => {},
    }
}

/// The machine after an instruction of a group: string instructions.
pub open spec fn after_strings(m: Machine, i: Instruction) -> Machine {
    match i.mnemonic {
        Mnemonic::Lodsb => lods(m, i, false),
        Mnemonic::Lodsw => lods(m, i, true),
        Mnemonic::Stosb => moving(m, i, Moving::Stosb),
        Mnemonic::Stosw => moving(m, i, Moving::Stosw),
        Mnemonic::Movsb => moving(m, i, Moving::Movsb),
        Mnemonic::Movsw => moving(m, i, Moving::Movsw),
        Mnemonic::Scasb => scas(m, i),
        _ => m,
    }
}

fn exec_strings(cpu: &mut Cpu, i: &Instruction)
    requires
        runnable(old(cpu)@, *i),
    ensures
        final(cpu)@ == after_strings(old(cpu)@, *i),
{
    match i.mnemonic {
        Mnemonic::Lodsb => exec_lods(cpu, i, false),
        Mnemonic::Lodsw => exec_lods(cpu, i, true),
        Mnemonic::Stosb => exec_moving(cpu, i, Moving::Stosb),
        Mnemonic::Stosw => exec_moving(cpu, i, Moving::Stosw),
        Mnemonic::Movsb => exec_moving(cpu, i, Moving::Movsb),
        Mnemonic::Movsw => exec_moving(cpu, i, Moving::Movsw),
        Mnemonic::Scasb => exec_scas(cpu, i),
        _ => {},
    }
}

/// The machine after an instruction of a group: moving data and the stack.
pub open spec fn after_data(m: Machine, i: Instruction) -> Machine {
    match i.mnemonic {
        Mnemonic::Mov => mov(m, i),
        Mnemonic::Push => m.pushed(push_operand(m, i)),
        Mnemonic::Pop => pop(m, i),
        Mnemonic::Popa => popa(m),
        Mnemonic::Lea => lea(m, i),
        Mnemonic::Lds => load_pointer(m, i, true),
        Mnemonic::Les => load_pointer(m, i, false),
        Mnemonic::Xchg => xchg(m, i),
        _ => m,
    }
}

fn exec_data(cpu: &mut Cpu, i: &Instruction)
    requires
        runnable(old(cpu)@, *i),
    ensures
        final(cpu)@ == after_data(old(cpu)@, *i),
{
    match i.mnemonic {
        Mnemonic::Mov => exec_mov(cpu, i),
        Mnemonic::Push => exec_push(cpu, i),
        Mnemonic::Pop => exec_pop(cpu, i),
        Mnemonic::Popa => exec_popa(cpu),
        Mnemonic::Lea => exec_lea(cpu, i),
        Mnemonic::Lds => exec_load_pointer(cpu, i, true),
        Mnemonic::Les => exec_load_pointer(cpu, i, false),
        Mnemonic::Xchg => exec_xchg(cpu, i),
        _ => {},
    }
}

/// The machine after an instruction of a group: the flags.
pub open spec fn after_flags(m: Machine, i: Instruction) -> Machine {
    match i.mnemonic {
        Mnemonic::Pushf => m.pushed(m.flags | RESERVED_ONE),
        Mnemonic::Popf => Machine { flags: loaded_flags(m.top()), ..m.popped() },
        Mnemonic::Stc => m.set_flag(CF, true),
        Mnemonic::Clc => m.set_flag(CF, false),
        Mnemonic::Cld => m.set_flag(DF, false),
        Mnemonic::Std => m.set_flag(DF, true),
        _ => m,
    }
}

fn exec_flags(cpu: &mut Cpu, i: &Instruction)
    requires
        runnable(old(cpu)@, *i),
    ensures
        final(cpu)@ == after_flags(old(cpu)@, *i),
{
    match i.mnemonic {
        Mnemonic::Pushf => {
            let bits: u16 = cpu.flags.bits | RESERVED_ONE;
            cpu.push(bits);
        },
        Mnemonic::Popf => {
            let bits: u16 = cpu.pop();
            cpu.set_cpu_flags(CpuFlags { bits });
        },
        Mnemonic::Stc => cpu.set_cpu_flag(CF, true),
        Mnemonic::Clc => cpu.set_cpu_flag(CF, false),
        Mnemonic::Cld => cpu.set_dflag(false),
        Mnemonic::Std => cpu.set_dflag(true),
        _ => {},
    }
}

/// The machine after an instruction.
#[verifier::opaque]
pub open spec fn after(m: Machine, i: Instruction) -> Machine {
    match i.mnemonic {
        Mnemonic::Je | Mnemonic::Jne | Mnemonic::Jcxz | Mnemonic::Jbe | Mnemonic::Jo
        | Mnemonic::Jae | Mnemonic::Jb | Mnemonic::Jl | Mnemonic::Jle | Mnemonic::Jmp
        | Mnemonic::Call | Mnemonic::Ret | Mnemonic::Retf | Mnemonic::Loop => after_flow(m, i),
        Mnemonic::Shl | Mnemonic::Sal | Mnemonic::Shr | Mnemonic::Sar | Mnemonic::And
        | Mnemonic::Or | Mnemonic::Xor | Mnemonic::Test | Mnemonic::Not => after_bits(m, i),
        Mnemonic::Compare | Mnemonic::Sbb | Mnemonic::Adc | Mnemonic::Add | Mnemonic::Sub
        | Mnemonic::Inc | Mnemonic::Dec | Mnemonic::Mul | Mnemonic::Imul | Mnemonic::Aaa
        | Mnemonic::Das => after_arithmetic(m, i),
        Mnemonic::Lodsb | Mnemonic::Lodsw | Mnemonic::Stosb | Mnemonic::Stosw
        | Mnemonic::Movsb | Mnemonic::Movsw | Mnemonic::Scasb => after_strings(m, i),
        Mnemonic::Mov | Mnemonic::Push | Mnemonic::Pop | Mnemonic::Popa | Mnemonic::Lea
        | Mnemonic::Lds | Mnemonic::Les | Mnemonic::Xchg => after_data(m, i),
        Mnemonic::Pushf | Mnemonic::Popf | Mnemonic::Stc | Mnemonic::Clc | Mnemonic::Cld
        | Mnemonic::Std => after_flags(m, i),
        _ => m,
    }
}

/// What is left to do after an instruction. STI, CLI and WAIT do nothing.
pub open spec fn effect_of(m: Machine, i: Instruction) -> Effect {
    match i.mnemonic {
        Mnemonic::Int => Effect::Interrupt(immediate8(i)),
        Mnemonic::Out => Effect::Out(port(m, i, i.op0_kind), out_value(m, i)),
        Mnemonic::In => Effect::In(port(m, i, i.op1_kind), i.op0_register),
        Mnemonic::Fstp | Mnemonic::Loope | Mnemonic::Loopne | Mnemonic::Sahf
        | Mnemonic::Other => Effect::Unhandled,
        _ => Effect::Done,
    }
}

/// Run one decoded instruction; IP is already past it.
#[verifier::rlimit(40)]
#[verifier::spinoff_prover]
pub fn execute_instruction(cpu: &mut Cpu, instr: &Instruction) -> (effect: Effect)
    requires
        runnable(old(cpu)@, *instr),
    ensures
        final(cpu)@ == after(old(cpu)@, *instr),
        effect == effect_of(old(cpu)@, *instr),
{
    reveal(after);
    let i = instr;
    match i.mnemonic {
        Mnemonic::Je | Mnemonic::Jne | Mnemonic::Jcxz | Mnemonic::Jbe | Mnemonic::Jo
        | Mnemonic::Jae | Mnemonic::Jb | Mnemonic::Jl | Mnemonic::Jle | Mnemonic::Jmp
        | Mnemonic::Call | Mnemonic::Ret | Mnemonic::Retf | Mnemonic::Loop => exec_flow(cpu, i),
        Mnemonic::Shl | Mnemonic::Sal | Mnemonic::Shr | Mnemonic::Sar | Mnemonic::And
        | Mnemonic::Or | Mnemonic::Xor | Mnemonic::Test | Mnemonic::Not => exec_bits(cpu, i),
        Mnemonic::Compare | Mnemonic::Sbb | Mnemonic::Adc | Mnemonic::Add | Mnemonic::Sub
        | Mnemonic::Inc | Mnemonic::Dec | Mnemonic::Mul | Mnemonic::Imul | Mnemonic::Aaa
        | Mnemonic::Das => exec_arithmetic(cpu, i),
        Mnemonic::Lodsb | Mnemonic::Lodsw | Mnemonic::Stosb | Mnemonic::Stosw
        | Mnemonic::Movsb | Mnemonic::Movsw | Mnemonic::Scasb => exec_strings(cpu, i),
        Mnemonic::Mov | Mnemonic::Push | Mnemonic::Pop | Mnemonic::Popa | Mnemonic::Lea
        | Mnemonic::Lds | Mnemonic::Les | Mnemonic::Xchg => exec_data(cpu, i),
        Mnemonic::Pushf | Mnemonic::Popf | Mnemonic::Stc | Mnemonic::Clc | Mnemonic::Cld
        | Mnemonic::Std => exec_flags(cpu, i),
        Mnemonic::Sti | Mnemonic::Cli | Mnemonic::Wait => {},
        Mnemonic::Int => return Effect::Interrupt(Cpu::imm8(i)),
        Mnemonic::Out => {
            let value: u8 = if is_8bit_reg(i.op1_register) {
                cpu.get_reg8(i.op1_register)
            } else {
                cpu.get_al()
            };
            return Effect::Out(get_port(cpu, i, i.op0_kind), value);
        },
        Mnemonic::In => return Effect::In(get_port(cpu, i, i.op1_kind), i.op0_register),
        Mnemonic::Fstp | Mnemonic::Loope | Mnemonic::Loopne | Mnemonic::Sahf
        | Mnemonic::Other => return Effect::Unhandled,
    }
    Effect::Done
}

} // verus!
