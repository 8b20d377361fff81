//! Each general-purpose and segment register by its name.

use vstd::prelude::*;

use super::regs::{with_word, Seg};
use super::state::Cpu;

verus! {

impl Cpu {
    pub fn eax(&self) -> (value: u32)
        ensures
            value == self@.gpr[0],
    {
        self.gpr[0]
    }

    pub fn set_eax(&mut self, value: u32)
        ensures
            final(self)@ == old(self)@.with_gpr(0, value),
    {
        self.gpr[0] = value;
    }

    pub fn ax(&self) -> (value: u16)
        ensures
            value == self@.gpr[0] as u16,
    {
        self.gpr[0] as u16
    }

    pub fn set_ax(&mut self, value: u16)
        ensures
            final(self)@ == old(self)@.with_gpr(0, with_word(old(self)@.gpr[0], value)),
    {
        self.gpr[0] = (self.gpr[0] & 0xFFFF_0000) | value as u32;
    }

    pub fn ecx(&self) -> (value: u32)
        ensures
            value == self@.gpr[1],
    {
        self.gpr[1]
    }

    pub fn set_ecx(&mut self, value: u32)
        ensures
            final(self)@ == old(self)@.with_gpr(1, value),
    {
        self.gpr[1] = value;
    }

    pub fn cx(&self) -> (value: u16)
        ensures
            value == self@.gpr[1] as u16,
    {
        self.gpr[1] as u16
    }

    pub fn set_cx(&mut self, value: u16)
        ensures
            final(self)@ == old(self)@.with_gpr(1, with_word(old(self)@.gpr[1], value)),
    {
        self.gpr[1] = (self.gpr[1] & 0xFFFF_0000) | value as u32;
    }

    pub fn edx(&self) -> (value: u32)
        ensures
            value == self@.gpr[2],
    {
        self.gpr[2]
    }

    pub fn set_edx(&mut self, value: u32)
        ensures
            final(self)@ == old(self)@.with_gpr(2, value),
    {
        self.gpr[2] = value;
    }

    pub fn dx(&self) -> (value: u16)
        ensures
            value == self@.gpr[2] as u16,
    {
        self.gpr[2] as u16
    }

    pub fn set_dx(&mut self, value: u16)
        ensures
            final(self)@ == old(self)@.with_gpr(2, with_word(old(self)@.gpr[2], value)),
    {
        self.gpr[2] = (self.gpr[2] & 0xFFFF_0000) | value as u32;
    }

    pub fn ebx(&self) -> (value: u32)
        ensures
            value == self@.gpr[3],
    {
        self.gpr[3]
    }

    pub fn set_ebx(&mut self, value: u32)
        ensures
            final(self)@ == old(self)@.with_gpr(3, value),
    {
        self.gpr[3] = value;
    }

    pub fn bx(&self) -> (value: u16)
        ensures
            value == self@.gpr[3] as u16,
    {
        self.gpr[3] as u16
    }

    pub fn set_bx(&mut self, value: u16)
        ensures
            final(self)@ == old(self)@.with_gpr(3, with_word(old(self)@.gpr[3], value)),
    {
        self.gpr[3] = (self.gpr[3] & 0xFFFF_0000) | value as u32;
    }

    pub fn esp(&self) -> (value: u32)
        ensures
            value == self@.gpr[4],
    {
        self.gpr[4]
    }

    pub fn set_esp(&mut self, value: u32)
        ensures
            final(self)@ == old(self)@.with_gpr(4, value),
    {
        self.gpr[4] = value;
    }

    pub fn sp(&self) -> (value: u16)
        ensures
            value == self@.gpr[4] as u16,
    {
        self.gpr[4] as u16
    }

    pub fn set_sp(&mut self, value: u16)
        ensures
            final(self)@ == old(self)@.with_gpr(4, with_word(old(self)@.gpr[4], value)),
    {
        self.gpr[4] = (self.gpr[4] & 0xFFFF_0000) | value as u32;
    }

    pub fn ebp(&self) -> (value: u32)
        ensures
            value == self@.gpr[5],
    {
        self.gpr[5]
    }

    pub fn set_ebp(&mut self, value: u32)
        ensures
            final(self)@ == old(self)@.with_gpr(5, value),
    {
        self.gpr[5] = value;
    }

    pub fn bp(&self) -> (value: u16)
        ensures
            value == self@.gpr[5] as u16,
    {
        self.gpr[5] as u16
    }

    pub fn set_bp(&mut self, value: u16)
        ensures
            final(self)@ == old(self)@.with_gpr(5, with_word(old(self)@.gpr[5], value)),
    {
        self.gpr[5] = (self.gpr[5] & 0xFFFF_0000) | value as u32;
    }

    pub fn esi(&self) -> (value: u32)
        ensures
            value == self@.gpr[6],
    {
        self.gpr[6]
    }

    pub fn set_esi(&mut self, value: u32)
        ensures
            final(self)@ == old(self)@.with_gpr(6, value),
    {
        self.gpr[6] = value;
    }

    pub fn si(&self) -> (value: u16)
        ensures
            value == self@.gpr[6] as u16,
    {
        self.gpr[6] as u16
    }

    pub fn set_si(&mut self, value: u16)
        ensures
            final(self)@ == old(self)@.with_gpr(6, with_word(old(self)@.gpr[6], value)),
    {
        self.gpr[6] = (self.gpr[6] & 0xFFFF_0000) | value as u32;
    }

    pub fn edi(&self) -> (value: u32)
        ensures
            value == self@.gpr[7],
    {
        self.gpr[7]
    }

    pub fn set_edi(&mut self, value: u32)
        ensures
            final(self)@ == old(self)@.with_gpr(7, value),
    {
        self.gpr[7] = value;
    }

    pub fn di(&self) -> (value: u16)
        ensures
            value == self@.gpr[7] as u16,
    {
        self.gpr[7] as u16
    }

    pub fn set_di(&mut self, value: u16)
        ensures
            final(self)@ == old(self)@.with_gpr(7, with_word(old(self)@.gpr[7], value)),
    {
        self.gpr[7] = (self.gpr[7] & 0xFFFF_0000) | value as u32;
    }

    /// The selector in ES: in real mode, the segment.
    pub fn es(&self) -> (value: u16)
        ensures
            value == self@.cache(Seg::ES).selector,
    {
        self.seg_cache(Seg::ES).selector
    }

    /// Load ES as a real-mode segment.
    pub fn set_es(&mut self, value: u16)
        ensures
            final(self)@ == old(self)@.seg_real(Seg::ES, value),
    {
        self.load_seg_real(Seg::ES, value);
    }

    /// The selector in CS: in real mode, the segment.
    pub fn cs(&self) -> (value: u16)
        ensures
            value == self@.cache(Seg::CS).selector,
    {
        self.seg_cache(Seg::CS).selector
    }

    /// Load CS as a real-mode segment.
    pub fn set_cs(&mut self, value: u16)
        ensures
            final(self)@ == old(self)@.seg_real(Seg::CS, value),
    {
        self.load_seg_real(Seg::CS, value);
    }

    /// The selector in SS: in real mode, the segment.
    pub fn ss(&self) -> (value: u16)
        ensures
            value == self@.cache(Seg::SS).selector,
    {
        self.seg_cache(Seg::SS).selector
    }

    /// Load SS as a real-mode segment.
    pub fn set_ss(&mut self, value: u16)
        ensures
            final(self)@ == old(self)@.seg_real(Seg::SS, value),
    {
        self.load_seg_real(Seg::SS, value);
    }

    /// The selector in DS: in real mode, the segment.
    pub fn ds(&self) -> (value: u16)
        ensures
            value == self@.cache(Seg::DS).selector,
    {
        self.seg_cache(Seg::DS).selector
    }

    /// Load DS as a real-mode segment.
    pub fn set_ds(&mut self, value: u16)
        ensures
            final(self)@ == old(self)@.seg_real(Seg::DS, value),
    {
        self.load_seg_real(Seg::DS, value);
    }

    /// The selector in FS: in real mode, the segment.
    pub fn fs(&self) -> (value: u16)
        ensures
            value == self@.cache(Seg::FS).selector,
    {
        self.seg_cache(Seg::FS).selector
    }

    /// Load FS as a real-mode segment.
    pub fn set_fs(&mut self, value: u16)
        ensures
            final(self)@ == old(self)@.seg_real(Seg::FS, value),
    {
        self.load_seg_real(Seg::FS, value);
    }

    /// The selector in GS: in real mode, the segment.
    pub fn gs(&self) -> (value: u16)
        ensures
            value == self@.cache(Seg::GS).selector,
    {
        self.seg_cache(Seg::GS).selector
    }

    /// Load GS as a real-mode segment.
    pub fn set_gs(&mut self, value: u16)
        ensures
            final(self)@ == old(self)@.seg_real(Seg::GS, value),
    {
        self.load_seg_real(Seg::GS, value);
    }

    /// Extract the low byte of DX (DL).
    pub fn get_dl(&self) -> (value: u8)
        ensures
            value == (self@.gpr[2] as u16 & 0xFF) as u8,
    {
        (self.dx() & 0xFF) as u8
    }

    /// Set the low byte of DX (DL).
    pub fn set_dl(&mut self, value: u8)
        ensures
            final(self)@ == old(self)@.with_gpr(
                2,
                with_word(
                    old(self)@.gpr[2],
                    (old(self)@.gpr[2] as u16 & 0xFF00) | (value as u16),
                ),
            ),
    {
        let word: u16 = (self.dx() & 0xFF00) | (value as u16);
        self.set_dx(word);
    }
}

} // verus!
