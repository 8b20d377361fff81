//! The floating point unit's registers: a stack of eight numbers with tags.

use vstd::prelude::*;

use super::state::{Core, Cpu, FpuFlags, FpuRegisters, Rest, FPU_TAG_EMPTY, FPU_TAG_VALID};
use crate::decode::MemorySize;
use crate::f80::F80;

verus! {

/// The bits of the FPU's status word that are kept as flags: condition codes,
/// exceptions, stack fault, error summary and busy.
pub const C0: u16 = 0x0100;

pub const C1: u16 = 0x0200;

pub const C2: u16 = 0x0400;

pub const C3: u16 = 0x4000;

pub const IE: u16 = 0x0001;

pub const DENORMAL: u16 = 0x0002;

pub const ZE: u16 = 0x0004;

pub const OE: u16 = 0x0008;

pub const UE: u16 = 0x0010;

pub const PRECISION: u16 = 0x0020;

pub const STACK_FAULT: u16 = 0x0040;

pub const ES: u16 = 0x0080;

pub const BUSY: u16 = 0x8000;

/// What FNCLEX clears.
pub const EXCEPTIONS: u16 = 0x80FF;

impl Core {
    pub open spec fn with_fpu(self, fpu: FpuRegisters) -> Core {
        Core { rest: Rest { fpu, ..self.rest }, ..self }
    }

    /// Which register ST(`i`) is.
    pub open spec fn fpu_index(self, i: int) -> int {
        (self.rest.fpu.top + i) % 8
    }
}

/// The two's complement number of `bits` bits that `value` is, as its
/// magnitude and whether it is negative.
pub open spec fn magnitude_of(value: int, half: int) -> (int, bool) {
    if value >= half {
        (2 * half - value, true)
    } else {
        (value, false)
    }
}

impl Cpu {
    pub fn set_fpu_flag(&mut self, flag: u16, value: bool)
        ensures
            final(self)@ == old(self)@.with_fpu(
                FpuRegisters {
                    flags: if value {
                        old(self)@.rest.fpu.flags | flag
                    } else {
                        old(self)@.rest.fpu.flags & !flag
                    },
                    ..old(self)@.rest.fpu
                },
            ),
    {
        if value {
            self.fpu.flags = FpuFlags { bits: self.fpu.flags.bits | flag };
        } else {
            self.fpu.flags = FpuFlags { bits: self.fpu.flags.bits & !flag };
        }
    }

    /// Whether all the flags are set.
    pub fn get_fpu_flag(&self, flag: u16) -> (all: bool)
        ensures
            all == (self@.rest.fpu.flags & flag == flag),
    {
        (self.fpu.flags.bits & flag) == flag
    }

    pub fn set_fpu_flags(&mut self, new_flags: FpuFlags)
        ensures
            final(self)@ == old(self)@.with_fpu(
                FpuRegisters { flags: new_flags.bits, ..old(self)@.rest.fpu },
            ),
    {
        self.fpu.flags = new_flags;
    }

    pub fn get_fpu_flags(&self) -> (flags: FpuFlags)
        ensures
            flags.bits == self@.rest.fpu.flags,
    {
        self.fpu.flags
    }

    /// Push a number: it becomes ST(0), in the register below.
    pub fn fpu_push(&mut self, val: F80)
        ensures
            ({
                let fpu = old(self)@.rest.fpu;
                let top = fpu.top.wrapping_sub(1) % 8;
                final(self)@ == old(self)@.with_fpu(
                    FpuRegisters {
                        top,
                        stack: fpu.stack.update(top as int, val),
                        tags: fpu.tags.update(top as int, FPU_TAG_VALID),
                        ..fpu
                    },
                )
            }),
    {
        let top: usize = self.fpu.top.wrapping_sub(1) % 8;
        self.fpu.top = top;
        self.fpu.stack[top] = val;
        // Mark as valid.
        self.fpu.tags[top] = FPU_TAG_VALID;
    }

    /// Pop ST(0); its register is empty from then on.
    pub fn fpu_pop(&mut self) -> (val: F80)
        requires
            old(self).fpu.top < 8,
        ensures
            ({
                let fpu = old(self)@.rest.fpu;
                &&& val == fpu.stack[fpu.top as int]
                &&& final(self)@ == old(self)@.with_fpu(
                    FpuRegisters {
                        top: ((fpu.top + 1) % 8) as usize,
                        tags: fpu.tags.update(fpu.top as int, FPU_TAG_EMPTY),
                        ..fpu
                    },
                )
            }),
    {
        let top: usize = self.fpu.top;
        let val = self.fpu.stack[top];
        // Mark current top as empty before moving on.
        self.fpu.tags[top] = FPU_TAG_EMPTY;
        self.fpu.top = (top + 1) % 8;
        val
    }

    /// ST(`index`), or the real indefinite where its register is empty.
    pub fn fpu_get(&self, index: usize) -> (val: F80)
        ensures
            ({
                let at = (self@.rest.fpu.top.wrapping_add(index) % 8) as int;
                val == (if self@.rest.fpu.tags[at] == FPU_TAG_EMPTY {
                    F80::spec_real_indefinite()
                } else {
                    self@.rest.fpu.stack[at]
                })
            }),
    {
        let at: usize = self.fpu.top.wrapping_add(index) % 8;
        if self.fpu.tags[at] == FPU_TAG_EMPTY {
            let mut ind = F80::new();
            ind.set_real_indefinite();
            return ind;
        }
        self.fpu.stack[at]
    }

    /// Put a number in ST(`index`), whatever its tag.
    pub fn fpu_set(&mut self, index: usize, val: F80)
        requires
            old(self).fpu.top + index <= usize::MAX,
        ensures
            final(self)@ == old(self)@.with_fpu(
                FpuRegisters {
                    stack: old(self)@.rest.fpu.stack.update(
                        old(self)@.fpu_index(index as int),
                        val,
                    ),
                    ..old(self)@.rest.fpu
                },
            ),
    {
        let at: usize = (self.fpu.top + index) % 8;
        self.fpu.stack[at] = val;
    }

    /// Which register ST(`i`) is.
    pub fn fpu_get_phys_index(&self, i: usize) -> (index: usize)
        requires
            self.fpu.top + i <= usize::MAX,
        ensures
            index == self@.fpu_index(i as int),
    {
        (self.fpu.top + i) % 8
    }

    /// The signed integer of `size` bytes in a checked span, as a floating
    /// point number; zero for sizes that are no integers.
    pub fn load_int_to_f80(&mut self, addr: u32, size: MemorySize) -> (val: F80)
        ensures
            match size {
                MemorySize::Int16 => {
                    let (s, raw) = old(self)@.lin_read_16(addr);
                    let (m, negative) = magnitude_of(raw as int, 0x8000);
                    final(self)@ == s && val.encodes(m as u64, negative)
                },
                MemorySize::Int32 => {
                    let (s, raw) = old(self)@.lin_read_32(addr);
                    let (m, negative) = magnitude_of(raw as int, 0x8000_0000);
                    final(self)@ == s && val.encodes(m as u64, negative)
                },
                MemorySize::Int64 => {
                    let (s, raw) = old(self)@.lin_read_64(addr);
                    let (m, negative) = magnitude_of(raw as int, 0x8000_0000_0000_0000);
                    final(self)@ == s && val.encodes(m as u64, negative)
                },
                _ => final(self)@ == old(self)@ && val.encodes(0, false),
            },
    {
        match size {
            MemorySize::Int16 => {
                let raw: u16 = self.lin_read_16(addr);
                if raw >= 0x8000 {
                    F80::from_integer(0x1_0000 - raw as u64, true)
                } else {
                    F80::from_integer(raw as u64, false)
                }
            },
            MemorySize::Int32 => {
                let raw: u32 = self.lin_read_32(addr);
                if raw >= 0x8000_0000 {
                    F80::from_integer(0x1_0000_0000 - raw as u64, true)
                } else {
                    F80::from_integer(raw as u64, false)
                }
            },
            MemorySize::Int64 => {
                let raw: u64 = self.lin_read_64(addr);
                if raw >= 0x8000_0000_0000_0000 {
                    F80::from_integer((u64::MAX - raw) + 1, true)
                } else {
                    F80::from_integer(raw, false)
                }
            },
            _ => F80::from_integer(0, false),
        }
    }
}

/// The FPU registers after a push.
pub open spec fn fpu_pushed(fpu: FpuRegisters, val: F80) -> FpuRegisters {
    let top = fpu.top.wrapping_sub(1) % 8;
    FpuRegisters {
        top,
        stack: fpu.stack.update(top as int, val),
        tags: fpu.tags.update(top as int, FPU_TAG_VALID),
        ..fpu
    }
}

/// What is pushed is on top, and popping it puts the top back where it was.
pub proof fn law_fpu_pop_returns_push(fpu: FpuRegisters, val: F80)
    requires
        fpu.top < 8,
        fpu.stack.len() == 8,
    ensures
        fpu_pushed(fpu, val).stack[fpu_pushed(fpu, val).top as int] == val,
        (fpu_pushed(fpu, val).top + 1) % 8 == fpu.top,
        fpu_pushed(fpu, val).top < 8,
{
    if fpu.top == 0 {
        assert(usize::MAX == 0xFFFF_FFFF || usize::MAX == 0xFFFF_FFFF_FFFF_FFFF);
        assert(fpu.top.wrapping_sub(1) == usize::MAX);
    }
}

} // verus!
