//! The flags register, and addresses as real mode forms them.

use vstd::prelude::*;

use super::state::{
    Core, Cpu, CpuFlags, CpuModel, AC, DF, FLAGS16_WRITABLE, IF, IOPL, R1, RF, VM, ZF,
};
use crate::bus::a20_lines;

verus! {

impl Core {
    pub open spec fn with_flags(self, flags: u32) -> Core {
        Core { flags, ..self }
    }

    /// Flags set or cleared.
    pub open spec fn with_flag(self, mask: u32, on: bool) -> Core {
        self.with_flags(
            if on {
                self.flags | mask
            } else {
                self.flags & !mask
            },
        )
    }

    pub open spec fn iopl(self) -> u8 {
        ((self.flags >> 12) & 3) as u8
    }

    /// Virtual-8086 mode.
    pub open spec fn v86(self) -> bool {
        self.flags & VM == VM
    }

    /// The bits of EFLAGS that a 486 has and a 386 lacks.
    pub open spec fn model_flags(self) -> u32 {
        if self.model == CpuModel::I486 {
            AC
        } else {
            0
        }
    }

    /// The bits that POPF and IRET may change outside of real mode: the
    /// interrupt flag only at a level allowed I/O, its level only at level
    /// 0, the resume and alignment flags only in 32-bit form.
    pub open spec fn flags_writable(self, size: u8, iret: bool) -> u32 {
        let resume = if size == 4 && iret {
            RF
        } else {
            0
        };
        let align = if size == 4 {
            self.model_flags()
        } else {
            0
        };
        let level = if self.cpl == 0 && !self.v86() {
            IOPL | IF
        } else if self.cpl <= self.iopl() {
            IF
        } else {
            0
        };
        let all = 0x4DD5 | resume | align | level;
        if size == 2 {
            all & 0xFFFF
        } else {
            all
        }
    }

    /// EFLAGS loaded outside of real mode: only the writable bits change,
    /// and bit 1 stays set.
    pub open spec fn flags_loaded(self, value: u32, size: u8, iret: bool) -> Core {
        let writable = self.flags_writable(size, iret);
        self.with_flags((self.flags & !writable) | (value & writable) | R1)
    }

    /// The address of a real-mode segment and offset.
    pub open spec fn physical(self, segment: u16, offset: u16) -> usize {
        ((((segment as u32) << 4) + offset) as u32 & a20_lines(self.a20)) as usize
    }
}

impl Cpu {
    /// Whether any of the flags is set.
    pub fn get_cpu_flag(&self, mask: u32) -> (any: bool)
        ensures
            any == (self@.flags & mask != 0),
    {
        (self.flags.bits & mask) != 0
    }

    /// Set or clear flags.
    pub fn set_cpu_flag(&mut self, mask: u32, value: bool)
        ensures
            final(self)@ == old(self)@.with_flag(mask, value),
    {
        if value {
            self.flags = CpuFlags { bits: self.flags.bits | mask };
        } else {
            self.flags = CpuFlags { bits: self.flags.bits & !mask };
        }
    }

    /// Load the 16-bit FLAGS register, as POPF and IRET do in real mode:
    /// the status and control flags, IOPL and NT. Bit 15 stays 0 and bit 1
    /// stays 1, which is how programs tell a 386 from an 8086 or 286.
    pub fn set_cpu_flags(&mut self, new_flags: CpuFlags)
        ensures
            final(self)@ == old(self)@.with_flags(
                (old(self)@.flags & 0xFFFF_0000) | ((new_flags.bits as u16) as u32
                    & FLAGS16_WRITABLE) | R1,
            ),
    {
        self.load_flags16(new_flags.bits as u16);
    }

    /// See `set_cpu_flags`.
    pub fn load_flags16(&mut self, value: u16)
        ensures
            final(self)@ == old(self)@.with_flags(
                (old(self)@.flags & 0xFFFF_0000) | (value as u32 & FLAGS16_WRITABLE) | R1,
            ),
    {
        let upper: u32 = self.flags.bits & 0xFFFF_0000;
        self.flags = CpuFlags { bits: upper | (value as u32 & FLAGS16_WRITABLE) | R1 };
    }

    /// Load EFLAGS, as POPFD and IRETD do in real mode. VM and RF can't be
    /// set this way; AC only exists on a 486.
    pub fn load_eflags(&mut self, value: u32)
        ensures
            final(self)@ == old(self)@.with_flags(
                (old(self)@.flags & VM) | (value & (FLAGS16_WRITABLE | old(self)@.model_flags()))
                    | R1,
            ),
    {
        let writable: u32 = FLAGS16_WRITABLE | self.model_flags();
        let keep: u32 = self.flags.bits & VM;
        self.flags = CpuFlags { bits: keep | (value & writable) | R1 };
    }

    /// The bits of EFLAGS that only some models have.
    pub(crate) fn model_flags(&self) -> (bits: u32)
        ensures
            bits == self@.model_flags(),
    {
        if self.model == CpuModel::I486 {
            AC
        } else {
            0
        }
    }

    /// EFLAGS as PUSHFD pushes it: VM and RF read as 0.
    pub fn eflags_image(&self) -> (image: u32)
        ensures
            image == self@.flags & !(VM | RF),
    {
        self.flags.bits & !(VM | RF)
    }

    pub fn get_cpu_flags(&self) -> (flags: CpuFlags)
        ensures
            flags.bits == self@.flags,
    {
        self.flags
    }

    /// The low 16 bits of the flags register, as PUSHF and an interrupt
    /// push them in 16-bit code.
    pub fn flags16(&self) -> (value: u16)
        ensures
            value == self@.flags as u16,
    {
        self.flags.bits as u16
    }

    pub fn zflag(&self) -> (on: bool)
        ensures
            on == (self@.flags & ZF != 0),
    {
        self.get_cpu_flag(ZF)
    }

    pub fn set_zflag(&mut self, val: bool)
        ensures
            final(self)@ == old(self)@.with_flag(ZF, val),
    {
        self.set_cpu_flag(ZF, val)
    }

    pub fn dflag(&self) -> (on: bool)
        ensures
            on == (self@.flags & DF != 0),
    {
        self.get_cpu_flag(DF)
    }

    pub fn set_dflag(&mut self, val: bool)
        ensures
            final(self)@ == old(self)@.with_flag(DF, val),
    {
        self.set_cpu_flag(DF, val)
    }

    /// The physical address of a real-mode segment and offset. Without the
    /// A20 gate, FFFF:0010 and up wrap to the bottom of memory as on an
    /// 8086.
    pub fn get_physical_addr(&self, segment: u16, offset: u16) -> (addr: usize)
        ensures
            addr == self@.physical(segment, offset),
    {
        let start: u32 = (segment as u32) << 4;
        proof {
            lemma_real_address(segment as u32, 0);
        }
        ((start + offset as u32) & self.bus.a20_mask()) as usize
    }

    /// Load (E)FLAGS popped by POPF or IRET in protected or virtual-8086
    /// mode. IOPL changes only at level 0, IF only at a level allowed I/O
    /// (CPL <= IOPL); VM never changes here. IRET also loads RF.
    pub fn load_flags_pm(&mut self, value: u32, size: u8, iret: bool)
        ensures
            final(self)@ == old(self)@.flags_loaded(value, size, iret),
    {
        // CF PF AF ZF SF TF DF OF NT
        let resume: u32 = if size == 4 && iret {
            RF
        } else {
            0
        };
        let align: u32 = if size == 4 {
            self.model_flags()
        } else {
            0
        };
        let level: u32 = if self.cpl == 0 && !self.v86() {
            IOPL | IF
        } else if self.cpl <= self.iopl() {
            IF
        } else {
            0
        };
        let all: u32 = 0x4DD5 | resume | align | level;
        let writable: u32 = if size == 2 {
            all & 0xFFFF
        } else {
            all
        };
        self.flags = CpuFlags { bits: (self.flags.bits & !writable) | (value & writable) | R1 };
    }

    /// True in virtual-8086 mode.
    pub fn v86(&self) -> (yes: bool)
        ensures
            yes == self@.v86(),
    {
        self.flags.contains(VM)
    }

    /// The I/O privilege level (EFLAGS bits 12-13).
    pub fn iopl(&self) -> (level: u8)
        ensures
            level == self@.iopl(),
    {
        ((self.flags.bits >> 12) & 3) as u8
    }
}

proof fn lemma_keeps_vm(flags: u32, value: u32, w: u32)
    by (bit_vector)
    requires
        w & 0x2_0000 == 0,
    ensures
        ((flags & !w) | (value & w) | 2) & 0x2_0000 == flags & 0x2_0000,
        ((flags & !w) | (value & w) | 2) & 2 == 2,
{
}

proof fn lemma_writable(r: u32, a: u32, l: u32)
    by (bit_vector)
    requires
        r == 0 || r == 0x1_0000,
        a == 0 || a == 0x4_0000,
        l == 0 || l == 0x200 || l == 0x3000 | 0x200,
    ensures
        (0x4DD5 | r | a | l) & 0x2_0000 == 0,
        (0x4DD5 | r | a | l) & 0xFFFF & 0x2_0000 == 0,
        l != 0x3000 | 0x200 ==> (0x4DD5 | r | a | l) & 0x3000 == 0,
        l != 0x3000 | 0x200 ==> (0x4DD5 | r | a | l) & 0xFFFF & 0x3000 == 0,
        l == 0 ==> (0x4DD5 | r | a | l) & 0x200 == 0,
        l == 0 ==> (0x4DD5 | r | a | l) & 0xFFFF & 0x200 == 0,
{
}

proof fn lemma_keeps_level(flags: u32, value: u32, w: u32)
    by (bit_vector)
    ensures
        w & 0x3000 == 0 ==> ((flags & !w) | (value & w) | 2) & 0x3000 == flags & 0x3000,
        w & 0x200 == 0 ==> ((flags & !w) | (value & w) | 2) & 0x200 == flags & 0x200,
{
}

/// POPF and IRET outside of real mode never enter or leave virtual-8086
/// mode, and below level 0 they leave the I/O privilege level alone; at a
/// level not allowed I/O they leave the interrupt flag alone too.
pub proof fn law_flags_keep_privilege(s: Core, value: u32, size: u8, iret: bool)
    ensures
        s.flags_loaded(value, size, iret).v86() == s.v86(),
        s.flags_loaded(value, size, iret).flags & R1 == R1,
        s.cpl != 0 ==> s.flags_loaded(value, size, iret).flags & IOPL == s.flags & IOPL,
        s.cpl != 0 && s.cpl > s.iopl() ==> s.flags_loaded(value, size, iret).flags & IF == s.flags
            & IF,
{
    let resume = if size == 4 && iret {
        RF
    } else {
        0
    };
    let align = if size == 4 {
        s.model_flags()
    } else {
        0
    };
    let level = if s.cpl == 0 && !s.v86() {
        IOPL | IF
    } else if s.cpl <= s.iopl() {
        IF
    } else {
        0
    };
    lemma_writable(resume, align, level);
    let w = s.flags_writable(size, iret);
    lemma_keeps_vm(s.flags, value, w);
    lemma_keeps_level(s.flags, value, w);
    assert(0x3000u32 | 0x200u32 != 0x200u32 && 0x3000u32 | 0x200u32 != 0u32) by (bit_vector);
}

proof fn lemma_real_address(segment: u32, sum: u32)
    by (bit_vector)
    ensures
        segment <= 0xFFFF ==> segment << 4 == 16 * segment,
        sum & 0xFFFF_FFFF == sum,
        sum < 0x20_0000 ==> sum & 0xFFEF_FFFF == sum % 0x10_0000,
{
}

/// A segment counts 16 bytes. Without the A20 line addresses wrap at one
/// megabyte; with it they go on.
pub proof fn law_real_addresses(s: Core, segment: u16, offset: u16)
    ensures
        s.physical(segment, offset) == (if s.a20 {
            segment * 16 + offset
        } else {
            (segment * 16 + offset) % 0x10_0000
        }),
{
    lemma_real_address(segment as u32, (segment * 16 + offset) as u32);
}

} // verus!
