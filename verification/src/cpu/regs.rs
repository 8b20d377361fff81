//! Register file: general-purpose registers, the instruction pointer and the
//! segment registers with their descriptor caches.
//!
//! The general-purpose registers are stored as 32-bit values in x86 encoding
//! order. The 16-bit and 8-bit accessors read and write the low parts and
//! leave the rest of the register alone, as the hardware does: a real-mode
//! service that sets AX must not clobber the upper half of EAX.

use vstd::prelude::*;

use super::state::{Core, Cpu};
use crate::decode::Register;

verus! {

pub const EAX: usize = 0;

pub const ECX: usize = 1;

pub const EDX: usize = 2;

pub const EBX: usize = 3;

pub const ESP: usize = 4;

pub const EBP: usize = 5;

pub const ESI: usize = 6;

pub const EDI: usize = 7;

/// A segment register, in x86 encoding order.
#[derive(Clone, Copy, Debug, PartialEq, Eq, Structural)]
pub enum Seg {
    ES,
    CS,
    SS,
    DS,
    FS,
    GS,
}

/// Where a segment register stands in encoding order.
pub open spec fn seg_index(seg: Seg) -> int {
    match seg {
        Seg::ES => 0,
        Seg::CS => 1,
        Seg::SS => 2,
        Seg::DS => 3,
        Seg::FS => 4,
        Seg::GS => 5,
    }
}

/// The segment register that a decoder's register is, if it is one.
pub open spec fn seg_of(reg: Register) -> Option<Seg> {
    match reg {
        Register::ES => Some(Seg::ES),
        Register::CS => Some(Seg::CS),
        Register::SS => Some(Seg::SS),
        Register::DS => Some(Seg::DS),
        Register::FS => Some(Seg::FS),
        Register::GS => Some(Seg::GS),
        _ => None,
    }
}

impl Seg {
    /// The segment register in a place of encoding order; the last one for
    /// places past it.
    pub fn at(index: usize) -> (seg: Seg)
        ensures
            index < 6 ==> seg_index(seg) == index,
    {
        match index {
            0 => Seg::ES,
            1 => Seg::CS,
            2 => Seg::SS,
            3 => Seg::DS,
            4 => Seg::FS,
            _ => Seg::GS,
        }
    }

    pub fn index(self) -> (index: usize)
        ensures
            index == seg_index(self),
            index < 6,
    {
        match self {
            Seg::ES => 0,
            Seg::CS => 1,
            Seg::SS => 2,
            Seg::DS => 3,
            Seg::FS => 4,
            Seg::GS => 5,
        }
    }

    /// The segment register named by a decoder's register, if it is one.
    pub fn from_register(reg: Register) -> (seg: Option<Seg>)
        ensures
            seg == seg_of(reg),
    {
        match reg {
            Register::ES => Some(Seg::ES),
            Register::CS => Some(Seg::CS),
            Register::SS => Some(Seg::SS),
            Register::DS => Some(Seg::DS),
            Register::FS => Some(Seg::FS),
            Register::GS => Some(Seg::GS),
            _ => None,
        }
    }
}

/// Access rights of a present, writable, accessed data segment: the state a
/// segment register's hidden part has after reset.
pub const AR_DATA_RW: u16 = 0x0093;

/// Access rights of a real-mode segment in virtual-8086 mode: as above,
/// with privilege level 3.
pub const AR_DATA_RW_V86: u16 = 0x00F3;

/// Descriptor flag: default operand size / stack pointer size is 32 bits.
pub const ATTR_DB: u16 = 0x4000;

/// Descriptor flag: the limit counts 4 KB pages.
pub const ATTR_G: u16 = 0x8000;

/// Reads through a segment register are allowed.
pub const RIGHT_READ: u8 = 0x01;

/// Writes through a segment register are allowed.
pub const RIGHT_WRITE: u8 = 0x02;

/// A segment register: the selector the program loaded and the descriptor
/// cache (base, limit, access rights) the CPU uses for every access through
/// it. In real mode a load only changes the selector and the base, so
/// limits set in protected mode survive a switch back ("unreal mode").
#[derive(Clone, Copy, Debug, PartialEq, Eq, Structural)]
pub struct SegCache {
    pub selector: u16,
    pub base: u32,
    /// The limit in bytes (the descriptor's limit, scaled by G).
    pub limit: u32,
    /// Descriptor access byte (bits 0-7: type, S, DPL, P) and flags
    /// (bits 12-15: AVL, 0, D/B, G), as in the descriptor's bytes 5 and 6.
    pub attr: u16,
    /// The offsets accesses may use, `lo..=hi`: up to the limit for an
    /// expand-up segment, above it for an expand-down one, none for a
    /// null selector. Worked out at load time so an access needs only
    /// these compares.
    pub lo: u32,
    pub hi: u32,
    /// `RIGHT_READ` and `RIGHT_WRITE`, from the segment's type.
    pub rights: u8,
}

/// What a segment of these access rights allows: nothing for a system
/// segment, reading for readable code and data, writing for writable data.
pub open spec fn rights_of(attr: u16) -> u8 {
    if attr & 0x10 == 0 {
        0
    } else if attr & 0x08 != 0 {
        if attr & 0x02 != 0 {
            RIGHT_READ
        } else {
            0
        }
    } else if attr & 0x02 != 0 {
        RIGHT_READ | RIGHT_WRITE
    } else {
        RIGHT_READ
    }
}

/// Whether the offsets of a segment lie above its limit.
pub open spec fn expands_down(attr: u16) -> bool {
    attr & 0x08 == 0 && attr & 0x04 != 0
}

/// The offsets that a segment allows, from the first to the second; none
/// where the first is greater.
pub open spec fn offsets_of(limit: u32, attr: u16) -> (u32, u32) {
    if expands_down(attr) {
        if limit == u32::MAX {
            (1, 0)
        } else {
            ((limit + 1) as u32, if attr & ATTR_DB != 0 { 0xFFFF_FFFF } else { 0xFFFF })
        }
    } else {
        (0, limit)
    }
}

/// Whether a segment that allows writing allows reading too, as every one
/// does that was loaded.
pub open spec fn reads_where_it_writes(cache: SegCache) -> bool {
    cache.rights & RIGHT_WRITE != 0 ==> cache.rights & RIGHT_READ != 0
}

impl SegCache {
    /// Selector, base, limit and access rights, with what follows from them.
    pub open spec fn loaded(selector: u16, base: u32, limit: u32, attr: u16) -> SegCache {
        SegCache {
            selector,
            base,
            limit,
            attr,
            lo: offsets_of(limit, attr).0,
            hi: offsets_of(limit, attr).1,
            rights: rights_of(attr),
        }
    }

    pub open spec fn spec_real(selector: u16) -> SegCache {
        SegCache {
            selector,
            base: (selector as u32) << 4,
            limit: 0xFFFF,
            attr: AR_DATA_RW,
            lo: 0,
            hi: 0xFFFF,
            rights: RIGHT_READ | RIGHT_WRITE,
        }
    }

    pub open spec fn spec_null(selector: u16) -> SegCache {
        SegCache { selector, base: 0, limit: 0, attr: 0, lo: 1, hi: 0, rights: 0 }
    }

    pub open spec fn spec_dpl(self) -> u8 {
        ((self.attr >> 5) & 3) as u8
    }

    /// The register after a real-mode load of `value`: the limit and the
    /// flags stay; the access rights become those of writable data.
    pub open spec fn real_loaded(self, value: u16) -> SegCache {
        let moved = SegCache { selector: value, base: (value as u32) << 4, ..self };
        if self.attr & 0x00FF != AR_DATA_RW || self.rights != RIGHT_READ | RIGHT_WRITE || self.lo
            != 0 {
            SegCache::loaded(
                value,
                (value as u32) << 4,
                self.limit,
                (self.attr & 0xF000) | AR_DATA_RW,
            )
        } else {
            moved
        }
    }

    /// The register after reset, or after a real-mode load of `selector`
    /// into a register that was never loaded in protected mode.
    pub fn real_mode(selector: u16) -> (cache: Self)
        ensures
            cache == SegCache::spec_real(selector),
    {
        SegCache {
            selector,
            base: (selector as u32) << 4,
            limit: 0xFFFF,
            attr: AR_DATA_RW,
            lo: 0,
            hi: 0xFFFF,
            rights: RIGHT_READ | RIGHT_WRITE,
        }
    }

    /// A register loaded with a null selector in protected mode: every
    /// access through it faults.
    pub fn null(selector: u16) -> (cache: Self)
        ensures
            cache == SegCache::spec_null(selector),
    {
        SegCache { selector, base: 0, limit: 0, attr: 0, lo: 1, hi: 0, rights: 0 }
    }

    /// A register loaded from a segment descriptor.
    pub fn from_descriptor(selector: u16, base: u32, limit: u32, attr: u16) -> (cache: Self)
        ensures
            cache == SegCache::loaded(selector, base, limit, attr),
    {
        let mut cache = SegCache { selector, base, limit, attr, lo: 0, hi: 0, rights: 0 };
        cache.update_checks();
        cache
    }

    /// Work out `lo`, `hi` and `rights` from the limit and access rights.
    pub fn update_checks(&mut self)
        ensures
            *final(self) == SegCache::loaded(
                old(self).selector,
                old(self).base,
                old(self).limit,
                old(self).attr,
            ),
    {
        let code = self.attr & 0x08 != 0;
        let system = self.attr & 0x10 == 0;
        let second = self.attr & 0x02 != 0;
        self.rights = if system {
            0
        } else if code {
            if second {
                RIGHT_READ
            } else {
                0
            }
        } else if second {
            RIGHT_READ | RIGHT_WRITE
        } else {
            RIGHT_READ
        };
        if !code && self.attr & 0x04 != 0 {
            // Expand-down: the valid offsets lie above the limit, up to
            // 64 KB or 4 GB as the B flag says.
            if self.limit == u32::MAX {
                // A limit of FFFFFFFFh leaves no offsets.
                self.lo = 1;
                self.hi = 0;
            } else {
                self.lo = self.limit + 1;
                self.hi = if self.attr & ATTR_DB != 0 {
                    0xFFFF_FFFF
                } else {
                    0xFFFF
                };
            }
        } else {
            self.lo = 0;
            self.hi = self.limit;
        }
    }

    /// Privilege level of the segment (DPL).
    pub fn dpl(&self) -> (level: u8)
        ensures
            level == self.spec_dpl(),
    {
        ((self.attr >> 5) & 3) as u8
    }
}

/// The low word of a register replaced.
pub open spec fn with_word(value: u32, word: u16) -> u32 {
    (value & 0xFFFF_0000) | (word as u32)
}

/// Where a byte register lives: its general-purpose register and how far up
/// its bits are.
pub open spec fn byte_slot(reg: Register) -> Option<(int, u32)> {
    match reg {
        Register::AL => Some((0, 0)),
        Register::CL => Some((1, 0)),
        Register::DL => Some((2, 0)),
        Register::BL => Some((3, 0)),
        Register::AH => Some((0, 8)),
        Register::CH => Some((1, 8)),
        Register::DH => Some((2, 8)),
        Register::BH => Some((3, 8)),
        _ => None,
    }
}

/// The general-purpose register that a word register is the low half of.
pub open spec fn word_slot(reg: Register) -> Option<int> {
    match reg {
        Register::AX => Some(0),
        Register::CX => Some(1),
        Register::DX => Some(2),
        Register::BX => Some(3),
        Register::SP => Some(4),
        Register::BP => Some(5),
        Register::SI => Some(6),
        Register::DI => Some(7),
        _ => None,
    }
}

/// The general-purpose register that a 32-bit register is.
pub open spec fn dword_slot(reg: Register) -> Option<int> {
    match reg {
        Register::EAX => Some(0),
        Register::ECX => Some(1),
        Register::EDX => Some(2),
        Register::EBX => Some(3),
        Register::ESP => Some(4),
        Register::EBP => Some(5),
        Register::ESI => Some(6),
        Register::EDI => Some(7),
        _ => None,
    }
}

/// The general-purpose register of a 16-bit or 32-bit register.
pub open spec fn gpr_slot(reg: Register) -> Option<int> {
    match word_slot(reg) {
        Some(i) => Some(i),
        None => dword_slot(reg),
    }
}

impl Core {
    pub open spec fn cache(self, seg: Seg) -> SegCache {
        self.seg[seg_index(seg)]
    }

    pub open spec fn with_cache(self, seg: Seg, cache: SegCache) -> Core {
        Core { seg: self.seg.update(seg_index(seg), cache), ..self }
    }

    /// A general-purpose register replaced.
    pub open spec fn with_gpr(self, index: int, value: u32) -> Core {
        Core { gpr: self.gpr.update(index, value), ..self }
    }

    pub open spec fn esp(self) -> u32 {
        self.gpr[4]
    }

    pub open spec fn with_esp(self, value: u32) -> Core {
        self.with_gpr(4, value)
    }

    /// A segment register loaded as real mode does.
    pub open spec fn seg_real(self, seg: Seg, value: u16) -> Core {
        self.with_cache(seg, self.cache(seg).real_loaded(value))
    }

    /// A segment register loaded as virtual-8086 mode does.
    pub open spec fn seg_v86(self, seg: Seg, value: u16) -> Core {
        self.with_cache(
            seg,
            SegCache::loaded(value, (value as u32) << 4, 0xFFFF, AR_DATA_RW_V86),
        )
    }

    /// The value of any register, zero-extended; zero for those that the
    /// machine lacks.
    pub open spec fn reg(self, reg: Register) -> u32 {
        match (byte_slot(reg), word_slot(reg), dword_slot(reg), seg_of(reg)) {
            (Some((i, shift)), _, _, _) => (self.gpr[i] >> shift) & 0xFF,
            (_, Some(i), _, _) => self.gpr[i] & 0xFFFF,
            (_, _, Some(i), _) => self.gpr[i],
            (_, _, _, Some(seg)) => self.cache(seg).selector as u32,
            _ => 0,
        }
    }

    /// A general-purpose register of any size written; the rest of the
    /// 32-bit register stays.
    pub open spec fn with_reg(self, reg: Register, value: u32) -> Core {
        match (byte_slot(reg), word_slot(reg), dword_slot(reg)) {
            (Some((i, shift)), _, _) => self.with_gpr(
                i,
                (self.gpr[i] & !(0xFFu32 << shift)) | ((value & 0xFF) << shift),
            ),
            (_, Some(i), _) => self.with_gpr(i, (self.gpr[i] & 0xFFFF_0000) | (value & 0xFFFF)),
            (_, _, Some(i)) => self.with_gpr(i, value),
            _ => self,
        }
    }
}

impl Cpu {
    pub fn eip(&self) -> (value: u32)
        ensures
            value == self@.eip,
    {
        self.eip
    }

    pub fn set_eip(&mut self, value: u32)
        ensures
            final(self)@ == (Core { eip: value, ..old(self)@ }),
    {
        self.eip = value;
    }

    /// The instruction pointer of 16-bit code.
    pub fn ip(&self) -> (value: u16)
        ensures
            value == self@.eip as u16,
    {
        self.eip as u16
    }

    /// Set the instruction pointer of 16-bit code. The upper half of EIP is
    /// cleared, as a 16-bit jump does.
    pub fn set_ip(&mut self, value: u16)
        ensures
            final(self)@ == (Core { eip: value as u32, ..old(self)@ }),
    {
        self.eip = value as u32;
    }

    /// A segment register's selector and descriptor cache.
    pub fn seg_cache(&self, seg: Seg) -> (cache: SegCache)
        ensures
            cache == self@.cache(seg),
    {
        self.seg[seg.index()]
    }

    /// Load a segment register the way real mode does: the selector, a
    /// base of `value << 4`, and the access rights of a writable data
    /// segment. The limit and the G and D/B flags keep their values, which
    /// is what makes "unreal mode" work.
    pub fn load_seg_real(&mut self, seg: Seg, value: u16)
        ensures
            final(self)@ == old(self)@.seg_real(seg, value),
    {
        let mut cache = self.seg[seg.index()];
        cache.selector = value;
        cache.base = (value as u32) << 4;
        if cache.attr & 0x00FF != AR_DATA_RW || cache.rights != RIGHT_READ | RIGHT_WRITE
            || cache.lo != 0 {
            cache.attr = (cache.attr & 0xF000) | AR_DATA_RW;
            cache.update_checks();
        }
        self.seg[seg.index()] = cache;
    }

    /// Load a segment register in virtual-8086 mode: a 64 KB writable data
    /// segment at `value << 4` with privilege level 3.
    pub fn load_seg_v86(&mut self, seg: Seg, value: u16)
        ensures
            final(self)@ == old(self)@.seg_v86(seg, value),
    {
        self.seg[seg.index()] = SegCache::from_descriptor(
            value,
            (value as u32) << 4,
            0xFFFF,
            AR_DATA_RW_V86,
        );
    }

    /// Replace a segment register and its descriptor cache.
    pub fn set_seg_cache(&mut self, seg: Seg, cache: SegCache)
        ensures
            final(self)@ == old(self)@.with_cache(seg, cache),
    {
        self.seg[seg.index()] = cache;
    }

    /// Value of a general-purpose (8, 16 or 32-bit) or segment register,
    /// zero-extended.
    pub fn reg(&self, reg: Register) -> (value: u32)
        ensures
            value == self@.reg(reg),
    {
        if let Some((i, shift)) = Cpu::reg8_slot(reg) {
            return (self.gpr[i] >> shift) & 0xFF;
        }
        if let Some(i) = Cpu::word_index(reg) {
            return self.gpr[i] & 0xFFFF;
        }
        if let Some(i) = Cpu::gpr_index(reg) {
            return self.gpr[i];
        }
        match Seg::from_register(reg) {
            Some(seg) => self.seg_cache(seg).selector as u32,
            None => 0,
        }
    }

    /// Write a general-purpose register: the low 8 or 16 bits for the
    /// smaller registers, leaving the rest alone. Segment registers are not
    /// written here (see `load_seg_real`).
    pub fn set_reg(&mut self, reg: Register, value: u32)
        requires
            byte_slot(reg) is Some || gpr_slot(reg) is Some,
        ensures
            final(self)@ == old(self)@.with_reg(reg, value),
    {
        if let Some((i, shift)) = Cpu::reg8_slot(reg) {
            self.gpr[i] = (self.gpr[i] & !(0xFFu32 << shift)) | ((value & 0xFF) << shift);
        } else if let Some(i) = Cpu::word_index(reg) {
            self.gpr[i] = (self.gpr[i] & 0xFFFF_0000) | (value & 0xFFFF);
        } else if let Some(i) = Cpu::gpr_index(reg) {
            self.gpr[i] = value;
        }
    }

    pub fn get_ah(&self) -> (value: u8)
        ensures
            value == (self@.gpr[0] >> 8) as u8,
    {
        (self.gpr[0] >> 8) as u8
    }

    pub fn get_al(&self) -> (value: u8)
        ensures
            value == self@.gpr[0] as u8,
    {
        self.gpr[0] as u8
    }

    /// Index into `gpr` and bit shift of an 8-bit register.
    fn reg8_slot(reg: Register) -> (slot: Option<(usize, u32)>)
        ensures
            match (slot, byte_slot(reg)) {
                (Some((i, shift)), Some((j, s))) => i == j && i < 8 && shift == s && (shift == 0
                    || shift == 8),
                (None, None) => true,
                _ => false,
            },
    {
        match reg {
            Register::AL => Some((0, 0)),
            Register::CL => Some((1, 0)),
            Register::DL => Some((2, 0)),
            Register::BL => Some((3, 0)),
            Register::AH => Some((0, 8)),
            Register::CH => Some((1, 8)),
            Register::DH => Some((2, 8)),
            Register::BH => Some((3, 8)),
            _ => None,
        }
    }

    fn word_index(reg: Register) -> (index: Option<usize>)
        ensures
            match (index, word_slot(reg)) {
                (Some(i), Some(j)) => i == j && i < 8,
                (None, None) => true,
                _ => false,
            },
    {
        match reg {
            Register::AX => Some(0),
            Register::CX => Some(1),
            Register::DX => Some(2),
            Register::BX => Some(3),
            Register::SP => Some(4),
            Register::BP => Some(5),
            Register::SI => Some(6),
            Register::DI => Some(7),
            _ => None,
        }
    }

    /// Index into `gpr` of a 16-bit or 32-bit general-purpose register.
    fn gpr_index(reg: Register) -> (index: Option<usize>)
        ensures
            match (index, gpr_slot(reg)) {
                (Some(i), Some(j)) => i == j && i < 8,
                (None, None) => true,
                _ => false,
            },
    {
        match reg {
            Register::AX | Register::EAX => Some(0),
            Register::CX | Register::ECX => Some(1),
            Register::DX | Register::EDX => Some(2),
            Register::BX | Register::EBX => Some(3),
            Register::SP | Register::ESP => Some(4),
            Register::BP | Register::EBP => Some(5),
            Register::SI | Register::ESI => Some(6),
            Register::DI | Register::EDI => Some(7),
            _ => None,
        }
    }

    /// Other registers than 8-bit ones stay as they are.
    pub fn set_reg8(&mut self, reg: Register, value: u8)
        ensures
            final(self)@ == (match byte_slot(reg) {
                Some((i, shift)) => old(self)@.with_gpr(
                    i,
                    (old(self)@.gpr[i] & !(0xFFu32 << shift)) | ((value as u32) << shift),
                ),
                None => old(self)@,
            }),
    {
        if let Some((i, shift)) = Cpu::reg8_slot(reg) {
            self.gpr[i] = (self.gpr[i] & !(0xFFu32 << shift)) | ((value as u32) << shift);
        }
    }

    /// Other registers than 8-bit ones read as zero.
    pub fn get_reg8(&self, reg: Register) -> (value: u8)
        ensures
            value == (match byte_slot(reg) {
                Some((i, shift)) => (self@.gpr[i] >> shift) as u8,
                None => 0,
            }),
    {
        match Cpu::reg8_slot(reg) {
            Some((i, shift)) => (self.gpr[i] >> shift) as u8,
            None => 0,
        }
    }

    /// Write the low word of a general-purpose register, or load a segment
    /// register as real mode does.
    pub fn set_reg16(&mut self, reg: Register, value: u16)
        requires
            gpr_slot(reg) is Some || seg_of(reg) is Some,
        ensures
            final(self)@ == (match gpr_slot(reg) {
                Some(i) => old(self)@.with_gpr(i, with_word(old(self)@.gpr[i], value)),
                None => old(self)@.seg_real(seg_of(reg)->0, value),
            }),
    {
        if let Some(i) = Cpu::gpr_index(reg) {
            self.gpr[i] = (self.gpr[i] & 0xFFFF_0000) | value as u32;
        } else if let Some(seg) = Seg::from_register(reg) {
            self.load_seg_real(seg, value);
        }
    }

    /// The low word of a general-purpose register, or a segment register's
    /// selector; zero for other registers.
    pub fn get_reg16(&self, reg: Register) -> (value: u16)
        ensures
            value == (match (gpr_slot(reg), seg_of(reg)) {
                (Some(i), _) => self@.gpr[i] as u16,
                (_, Some(seg)) => self@.cache(seg).selector,
                _ => 0,
            }),
    {
        if let Some(i) = Cpu::gpr_index(reg) {
            self.gpr[i] as u16
        } else if let Some(seg) = Seg::from_register(reg) {
            self.seg_cache(seg).selector
        } else {
            0
        }
    }
}

/// A null selector's cache allows no access at all, and a descriptor of a
/// system segment allows none either.
pub proof fn law_null_allows_nothing(selector: u16, base: u32, limit: u32, attr: u16)
    ensures
        SegCache::spec_null(selector).rights == 0,
        SegCache::spec_null(selector).lo > SegCache::spec_null(selector).hi,
        attr & 0x10 == 0 ==> SegCache::loaded(selector, base, limit, attr).rights == 0,
{
}

/// However a segment register is loaded, it allows reading where it allows
/// writing.
pub proof fn law_written_segments_are_readable(
    cache: SegCache,
    selector: u16,
    base: u32,
    limit: u32,
    attr: u16,
)
    requires
        reads_where_it_writes(cache),
    ensures
        reads_where_it_writes(SegCache::loaded(selector, base, limit, attr)),
        reads_where_it_writes(SegCache::spec_real(selector)),
        reads_where_it_writes(SegCache::spec_null(selector)),
        reads_where_it_writes(cache.real_loaded(selector)),
{
    assert((1u8 | 2u8) & 1u8 != 0 && 0u8 & 2u8 == 0 && 1u8 & 2u8 == 0) by (bit_vector);
}

/// A real-mode load keeps the limit and the size and granularity flags of
/// the register, whatever they were.
pub proof fn law_real_load_keeps_limit(cache: SegCache, value: u16)
    ensures
        cache.real_loaded(value).selector == value,
        cache.real_loaded(value).base == (value as u32) << 4,
        cache.real_loaded(value).limit == cache.limit,
        cache.real_loaded(value).attr & 0xF000 == cache.attr & 0xF000,
{
    let attr = cache.attr;
    assert(((attr & 0xF000) | 0x0093) & 0xF000 == attr & 0xF000) by (bit_vector);
}

proof fn lemma_registers(old: u32, value: u32)
    by (bit_vector)
    ensures
        (((old & !(0xFFu32 << 0u32)) | ((value & 0xFF) << 0u32)) >> 0u32) & 0xFF == value & 0xFF,
        (((old & !(0xFFu32 << 8u32)) | ((value & 0xFF) << 8u32)) >> 8u32) & 0xFF == value & 0xFF,
        (((old & !(0xFFu32 << 0u32)) | ((value & 0xFF) << 0u32)) >> 8u32) & 0xFF == (old >> 8u32)
            & 0xFF,
        (((old & !(0xFFu32 << 8u32)) | ((value & 0xFF) << 8u32)) >> 0u32) & 0xFF == (old >> 0u32)
            & 0xFF,
        ((old & !(0xFFu32 << 0u32)) | ((value & 0xFF) << 0u32)) & 0xFFFF_0000 == old & 0xFFFF_0000,
        ((old & !(0xFFu32 << 8u32)) | ((value & 0xFF) << 8u32)) & 0xFFFF_0000 == old & 0xFFFF_0000,
        ((old & 0xFFFF_0000) | (value & 0xFFFF)) & 0xFFFF == value & 0xFFFF,
        ((old & 0xFFFF_0000) | (value & 0xFFFF)) & 0xFFFF_0000 == old & 0xFFFF_0000,
{
}

/// A general-purpose register reads as it was written, cut to its size, and
/// the smaller ones leave the upper half of the 32-bit register alone.
pub proof fn law_registers_read_back(s: Core, reg: Register, value: u32)
    requires
        s.wf(),
        byte_slot(reg) is Some || gpr_slot(reg) is Some,
    ensures
        byte_slot(reg) is Some ==> s.with_reg(reg, value).reg(reg) == value & 0xFF,
        word_slot(reg) is Some ==> s.with_reg(reg, value).reg(reg) == value & 0xFFFF,
        dword_slot(reg) is Some ==> s.with_reg(reg, value).reg(reg) == value,
        dword_slot(reg) is None ==> forall|i: int|
            0 <= i < 8 ==> #[trigger] s.with_reg(reg, value).gpr[i] & 0xFFFF_0000 == s.gpr[i]
                & 0xFFFF_0000,
{
    lemma_registers(s.gpr[0], value);
    lemma_registers(s.gpr[1], value);
    lemma_registers(s.gpr[2], value);
    lemma_registers(s.gpr[3], value);
    lemma_registers(s.gpr[4], value);
    lemma_registers(s.gpr[5], value);
    lemma_registers(s.gpr[6], value);
    lemma_registers(s.gpr[7], value);
}

/// A segment that grows up holds the offsets up to its limit; one that grows
/// down holds the others, up to the end of its size.
pub proof fn law_segments_grow_up_or_down(limit: u32, up: u16, down: u16, offset: u32)
    requires
        !expands_down(up),
        expands_down(down),
        down & ATTR_DB != 0 || offset <= 0xFFFF,
    ensures
        (offsets_of(limit, up).0 <= offset <= offsets_of(limit, up).1) == (offset <= limit),
        (offsets_of(limit, down).0 <= offset <= offsets_of(limit, down).1) == (offset > limit),
{
}

} // verus!
