//! Protected-mode segmentation: selectors, descriptors in the GDT and LDT,
//! and loading segment registers with their protection checks.

use vstd::prelude::*;

use super::fault::{gp, np, ss};
use super::regs::{Seg, SegCache, ATTR_G};
use super::state::{Core, Cpu, CpuResult, Fault, CR0_PE};

verus! {

/// System descriptor types (S = 0).
pub const TSS16_AVAILABLE: u8 = 0x1;

pub const LDT: u8 = 0x2;

pub const TSS16_BUSY: u8 = 0x3;

pub const CALL_GATE16: u8 = 0x4;

pub const TASK_GATE: u8 = 0x5;

pub const INT_GATE16: u8 = 0x6;

pub const TRAP_GATE16: u8 = 0x7;

pub const TSS32_AVAILABLE: u8 = 0x9;

pub const TSS32_BUSY: u8 = 0xB;

pub const CALL_GATE32: u8 = 0xC;

pub const INT_GATE32: u8 = 0xE;

pub const TRAP_GATE32: u8 = 0xF;

/// The bits of a descriptor that say it was used, that it is a segment, and
/// that it is present.
pub const ACCESSED_BIT: u64 = 0x0000_0100_0000_0000;

pub const SEGMENT_BIT: u64 = 0x0000_1000_0000_0000;

pub const PRESENT_BIT: u64 = 0x0000_8000_0000_0000;

/// A selector without its RPL, as exceptions report it.
pub open spec fn error_of(selector: u16) -> u32 {
    (selector & 0xFFFC) as u32
}

pub open spec fn null_selector(selector: u16) -> bool {
    selector & 0xFFFC == 0
}

pub open spec fn rpl_of(selector: u16) -> u8 {
    (selector & 3) as u8
}

/// The selector with its RPL cleared, as exceptions report it.
pub fn sel_error(selector: u16) -> (error: u32)
    ensures
        error == error_of(selector),
{
    (selector & 0xFFFC) as u32
}

/// True for a null selector (index 0 in the GDT), whatever its RPL.
pub fn is_null(selector: u16) -> (yes: bool)
    ensures
        yes == null_selector(selector),
{
    selector & 0xFFFC == 0
}

/// Requested privilege level of a selector.
pub fn rpl(selector: u16) -> (level: u8)
    ensures
        level == rpl_of(selector),
{
    (selector & 3) as u8
}

/// An 8-byte segment or gate descriptor.
#[derive(Clone, Copy, Debug, PartialEq, Eq, Structural)]
pub struct Descriptor(pub u64);

impl Descriptor {
    pub open spec fn base_field(self) -> u32 {
        (((self.0 >> 16) & 0x00FF_FFFF) | ((self.0 >> 32) & 0xFF00_0000)) as u32
    }

    pub open spec fn limit_field(self) -> u32 {
        ((self.0 & 0xFFFF) | ((self.0 >> 32) & 0x000F_0000)) as u32
    }

    pub open spec fn attr_field(self) -> u16 {
        (((self.0 >> 40) & 0xFF) | ((self.0 >> 40) & 0xF000)) as u16
    }

    /// The limit in bytes.
    pub open spec fn byte_limit(self) -> u32 {
        if self.attr_field() & ATTR_G != 0 {
            (self.limit_field() << 12) | 0xFFF
        } else {
            self.limit_field()
        }
    }

    pub open spec fn type_field(self) -> u8 {
        ((self.0 >> 40) & 0xF) as u8
    }

    pub open spec fn segment(self) -> bool {
        self.0 & SEGMENT_BIT != 0
    }

    pub open spec fn code(self) -> bool {
        self.segment() && self.type_field() & 0x8 != 0
    }

    pub open spec fn data(self) -> bool {
        self.segment() && self.type_field() & 0x8 == 0
    }

    pub open spec fn conforming_code(self) -> bool {
        self.code() && self.type_field() & 0x4 != 0
    }

    /// Readable code, or any data segment.
    pub open spec fn can_read(self) -> bool {
        self.data() || (self.code() && self.type_field() & 0x2 != 0)
    }

    pub open spec fn can_write(self) -> bool {
        self.data() && self.type_field() & 0x2 != 0
    }

    pub open spec fn level(self) -> u8 {
        ((self.0 >> 45) & 3) as u8
    }

    pub open spec fn is_present(self) -> bool {
        self.0 & PRESENT_BIT != 0
    }

    pub open spec fn was_accessed(self) -> bool {
        self.0 & ACCESSED_BIT != 0
    }

    pub open spec fn wide_system(self) -> bool {
        self.type_field() & 0x8 != 0
    }

    pub open spec fn target_selector(self) -> u16 {
        (self.0 >> 16) as u16
    }

    pub open spec fn target_offset(self) -> u32 {
        let low = (self.0 & 0xFFFF) as u32;
        if self.wide_system() {
            low | ((self.0 >> 32) as u32 & 0xFFFF_0000)
        } else {
            low
        }
    }

    pub open spec fn parameters(self) -> u32 {
        ((self.0 >> 32) & 0x1F) as u32
    }

    /// The descriptor with its accessed bit set.
    pub open spec fn marked(self) -> Descriptor {
        if self.was_accessed() {
            self
        } else {
            Descriptor(self.0 | ACCESSED_BIT)
        }
    }

    pub open spec fn cached(self, selector: u16) -> SegCache {
        SegCache::loaded(selector, self.base_field(), self.byte_limit(), self.attr_field())
    }

    pub fn base(&self) -> (base: u32)
        ensures
            base == self.base_field(),
    {
        (((self.0 >> 16) & 0x00FF_FFFF) | ((self.0 >> 32) & 0xFF00_0000)) as u32
    }

    /// The limit in bytes: the 20-bit limit, in 4 KB units when G is set.
    pub fn limit(&self) -> (limit: u32)
        ensures
            limit == self.byte_limit(),
    {
        let raw: u32 = ((self.0 & 0xFFFF) | ((self.0 >> 32) & 0x000F_0000)) as u32;
        if self.attr() & ATTR_G != 0 {
            (raw << 12) | 0xFFF
        } else {
            raw
        }
    }

    /// Access byte and flags, laid out as in `SegCache::attr`.
    pub fn attr(&self) -> (attr: u16)
        ensures
            attr == self.attr_field(),
    {
        (((self.0 >> 40) & 0xFF) | ((self.0 >> 40) & 0xF000)) as u16
    }

    /// The type field (bits 0-3 of the access byte).
    pub fn typ(&self) -> (typ: u8)
        ensures
            typ == self.type_field(),
    {
        ((self.0 >> 40) & 0xF) as u8
    }

    /// A code or data segment (S = 1), not a system descriptor.
    pub fn is_segment(&self) -> (yes: bool)
        ensures
            yes == self.segment(),
    {
        self.0 & SEGMENT_BIT != 0
    }

    pub fn is_code(&self) -> (yes: bool)
        ensures
            yes == self.code(),
    {
        self.is_segment() && self.typ() & 0x8 != 0
    }

    pub fn is_data(&self) -> (yes: bool)
        ensures
            yes == self.data(),
    {
        self.is_segment() && self.typ() & 0x8 == 0
    }

    pub fn conforming(&self) -> (yes: bool)
        ensures
            yes == self.conforming_code(),
    {
        self.is_code() && self.typ() & 0x4 != 0
    }

    /// Readable code, or any data segment.
    pub fn readable(&self) -> (yes: bool)
        ensures
            yes == self.can_read(),
    {
        self.is_data() || (self.is_code() && self.typ() & 0x2 != 0)
    }

    pub fn writable_data(&self) -> (yes: bool)
        ensures
            yes == self.can_write(),
    {
        self.is_data() && self.typ() & 0x2 != 0
    }

    pub fn dpl(&self) -> (level: u8)
        ensures
            level == self.level(),
    {
        ((self.0 >> 45) & 3) as u8
    }

    pub fn present(&self) -> (yes: bool)
        ensures
            yes == self.is_present(),
    {
        self.0 & PRESENT_BIT != 0
    }

    /// Descriptor with the accessed bit (type bit 0) set.
    pub fn accessed(&self) -> (yes: bool)
        ensures
            yes == self.was_accessed(),
    {
        self.0 & ACCESSED_BIT != 0
    }

    /// The 32-bit form of a system descriptor (TSS, gates).
    pub fn is_32bit_system(&self) -> (yes: bool)
        ensures
            yes == self.wide_system(),
    {
        self.typ() & 0x8 != 0
    }

    /// Target selector of a gate.
    pub fn gate_selector(&self) -> (selector: u16)
        ensures
            selector == self.target_selector(),
    {
        (self.0 >> 16) as u16
    }

    /// Target offset of a gate: 16 bits, or 32 for a 32-bit gate.
    pub fn gate_offset(&self) -> (offset: u32)
        ensures
            offset == self.target_offset(),
    {
        let low: u32 = (self.0 & 0xFFFF) as u32;
        if self.is_32bit_system() {
            low | ((self.0 >> 32) as u32 & 0xFFFF_0000)
        } else {
            low
        }
    }

    /// Number of stack parameters a call gate copies.
    pub fn gate_params(&self) -> (count: u32)
        ensures
            count == self.parameters(),
            count <= 31,
    {
        let d: u64 = self.0;
        assert(((d >> 32) & 0x1F) as u32 <= 31) by (bit_vector);
        ((self.0 >> 32) & 0x1F) as u32
    }

    /// The segment register cache for this descriptor loaded with
    /// `selector`.
    pub fn cache(&self, selector: u16) -> (cache: SegCache)
        ensures
            cache == self.cached(selector),
    {
        SegCache::from_descriptor(selector, self.base(), self.limit(), self.attr())
    }
}

/// Whether a level may use a segment register it finds loaded: conforming
/// code, or a segment of its own level or an outer one.
pub open spec fn usable_at(cache: SegCache, cpl: u8) -> bool {
    cache.attr & 0x1C == 0x1C || cache.spec_dpl() >= cpl
}

impl Core {
    pub open spec fn pe(self) -> bool {
        self.cr0 & CR0_PE != 0
    }

    pub open spec fn pm(self) -> bool {
        self.pe() && !self.v86()
    }

    /// Linear address of the descriptor that a selector names: none where
    /// it lies past its table's limit, or where no LDT is loaded.
    pub open spec fn descriptor_at(self, selector: u16) -> Option<u32> {
        let index = (selector / 8 * 8) as u32;
        if selector & 4 != 0 {
            if self.ldtr.attr & 0x80 != 0 && index + 7 <= self.ldtr.limit {
                Some(self.ldtr.base.wrapping_add(index))
            } else {
                None
            }
        } else if index + 7 <= self.gdtr.limit {
            Some(self.gdtr.base.wrapping_add(index))
        } else {
            None
        }
    }

    /// A descriptor read from its place in memory.
    #[verifier::opaque]
    pub open spec fn descriptor_read(self, addr: u32) -> (Core, CpuResult<Descriptor>) {
        match self.sys_read(addr, 4) {
            (s, Err(fault)) => (s, Err(fault)),
            (s, Ok(low)) => match s.sys_read(addr.wrapping_add(4), 4) {
                (t, Err(fault)) => (t, Err(fault)),
                (t, Ok(high)) => (t, Ok(Descriptor(low as u64 | ((high as u64) << 32)))),
            },
        }
    }

    /// The descriptor that a selector names, or the fault of reading it.
    pub open spec fn fetch(self, selector: u16, ext: u32) -> (Core, CpuResult<Descriptor>) {
        match self.descriptor_at(selector) {
            None => (self, Err(gp(error_of(selector) | ext))),
            Some(addr) => self.descriptor_read(addr),
        }
    }

    /// A descriptor marked accessed in memory.
    #[verifier::opaque]
    pub open spec fn mark(self, selector: u16, desc: Descriptor) -> (Core, CpuResult<()>) {
        if desc.was_accessed() {
            (self, Ok(()))
        } else {
            match self.descriptor_at(selector) {
                None => (self, Err(gp(error_of(selector)))),
                Some(addr) => self.sys_write(
                    addr.wrapping_add(5),
                    1,
                    ((desc.marked().0 >> 40) as u8) as u32,
                ),
            }
        }
    }

    /// The fault that a data segment's descriptor raises when it is loaded:
    /// the stack segment has to be writable data of the current level, the
    /// others readable and not of a more privileged level.
    pub open spec fn segment_fault(self, seg: Seg, selector: u16, desc: Descriptor) -> Option<
        Fault,
    > {
        let err = error_of(selector);
        if seg == Seg::SS {
            if rpl_of(selector) != self.cpl || !desc.can_write() || desc.level() != self.cpl {
                Some(gp(err))
            } else if !desc.is_present() {
                Some(ss(err))
            } else {
                None
            }
        } else if !desc.can_read() || (!desc.conforming_code() && (desc.level() < self.cpl
            || desc.level() < rpl_of(selector))) {
            Some(gp(err))
        } else if !desc.is_present() {
            Some(np(err))
        } else {
            None
        }
    }

    /// The cache that a selector gives a data segment register.
    #[verifier::opaque]
    pub open spec fn data_segment(self, seg: Seg, selector: u16) -> (Core, CpuResult<SegCache>) {
        if null_selector(selector) {
            if seg == Seg::SS {
                (self, Err(gp(0)))
            } else {
                (self, Ok(SegCache::spec_null(selector)))
            }
        } else {
            match self.fetch(selector, 0) {
                (s, Err(fault)) => (s, Err(fault)),
                (s, Ok(desc)) => match self.segment_fault(seg, selector, desc) {
                    Some(fault) => (s, Err(fault)),
                    None => match s.mark(selector, desc) {
                        (t, Err(fault)) => (t, Err(fault)),
                        (t, Ok(_)) => (t, Ok(desc.marked().cached(selector))),
                    },
                },
            }
        }
    }

    /// A data segment register loaded as the mode does it.
    pub open spec fn segment_loaded(self, seg: Seg, selector: u16) -> (Core, CpuResult<()>) {
        let (s, done) = if !self.pe() {
            (self.seg_real(seg, selector), Ok(()))
        } else if self.v86() {
            (self.seg_v86(seg, selector), Ok(()))
        } else {
            match self.data_segment(seg, selector) {
                (t, Ok(cache)) => (t.with_cache(seg, cache), Ok(())),
                (t, Err(fault)) => (t, Err(fault)),
            }
        };
        if done is Ok && seg == Seg::SS {
            (Core { irq_shadow: true, ..s }, done)
        } else {
            (s, done)
        }
    }

    /// CS loaded for a privilege level, which the selector's RPL becomes.
    #[verifier::opaque]
    pub open spec fn cs_loaded(self, selector: u16, desc: Descriptor, cpl: u8) -> (
        Core,
        CpuResult<()>,
    ) {
        match self.mark(selector, desc) {
            (s, Err(fault)) => (s, Err(fault)),
            (s, Ok(_)) => (
                Core {
                    cpl,
                    ..s.with_cache(
                        Seg::CS,
                        desc.marked().cached((selector & 0xFFFC) | (cpl as u16)),
                    )
                },
                Ok(()),
            ),
        }
    }

    /// ES, DS, FS and GS emptied where the level may not use them.
    #[verifier::opaque]
    pub open spec fn inaccessible_nulled(self) -> Core {
        Core {
            seg: Seq::new(
                self.seg.len(),
                |i: int|
                    if i != 1 && i != 2 && !usable_at(self.seg[i], self.cpl) {
                        SegCache::spec_null(0)
                    } else {
                        self.seg[i]
                    },
            ),
            ..self
        }
    }
}

impl Cpu {
    /// True in protected mode (CR0.PE), including virtual-8086 mode.
    pub fn pe(&self) -> (yes: bool)
        ensures
            yes == self@.pe(),
    {
        self.cr0 & CR0_PE != 0
    }

    /// Protected mode, not virtual-8086 mode: where segment registers hold
    /// selectors.
    pub fn pm(&self) -> (yes: bool)
        ensures
            yes == self@.pm(),
    {
        self.pe() && !self.v86()
    }

    /// Linear address of a descriptor, if its selector is within its table.
    pub(crate) fn descriptor_address(&self, selector: u16) -> (addr: Option<u32>)
        ensures
            addr == self@.descriptor_at(selector),
    {
        let index: u32 = (selector / 8 * 8) as u32;
        let (base, limit): (u32, u32) = if selector & 4 != 0 {
            // No LDT loaded (a null LDTR): every LDT selector is invalid.
            if self.ldtr.attr & 0x80 == 0 {
                return None;
            }
            (self.ldtr.base, self.ldtr.limit)
        } else {
            (self.gdtr.base, self.gdtr.limit as u32)
        };
        if index + 7 > limit {
            return None;
        }
        Some(base.wrapping_add(index))
    }

    /// Read a descriptor at a linear address, as a supervisor access.
    pub(crate) fn read_descriptor(&mut self, addr: u32) -> (desc: CpuResult<Descriptor>)
        ensures
            final(self)@ == old(self)@.descriptor_read(addr).0,
            desc == old(self)@.descriptor_read(addr).1,
    {
        reveal(Core::descriptor_read);
        let low: u32 = self.sys_read_u32(addr)?;
        let high: u32 = self.sys_read_u32(addr.wrapping_add(4))?;
        Ok(Descriptor(low as u64 | ((high as u64) << 32)))
    }

    /// Read the descriptor a selector names. A selector past the end of its
    /// table raises `#GP(selector)` with `ext` added to the error code.
    pub fn fetch_descriptor(&mut self, selector: u16, ext: u32) -> (desc: CpuResult<Descriptor>)
        ensures
            final(self)@ == old(self)@.fetch(selector, ext).0,
            desc == old(self)@.fetch(selector, ext).1,
    {
        match self.descriptor_address(selector) {
            None => Err(Fault::gp(sel_error(selector) | ext)),
            Some(addr) => self.read_descriptor(addr),
        }
    }

    /// Set a descriptor's accessed bit, as loading a segment does.
    pub fn mark_accessed(&mut self, selector: u16, desc: &mut Descriptor) -> (done: CpuResult<()>)
        ensures
            final(self)@ == old(self)@.mark(selector, *old(desc)).0,
            done == old(self)@.mark(selector, *old(desc)).1,
            *final(desc) == (if old(self)@.descriptor_at(selector) is Some {
                old(desc).marked()
            } else {
                *old(desc)
            }),
            done is Ok ==> *final(desc) == old(desc).marked(),
    {
        reveal(Core::mark);
        if desc.accessed() {
            return Ok(());
        }
        match self.descriptor_address(selector) {
            None => Err(Fault::gp(sel_error(selector))),
            Some(addr) => {
                *desc = Descriptor(desc.0 | ACCESSED_BIT);
                self.sys_write_u8(addr.wrapping_add(5), (desc.0 >> 40) as u8)
            },
        }
    }

    /// Load a data or stack segment register (DS, ES, FS, GS or SS) by MOV,
    /// POP or LDS and friends, with the checks of the current mode.
    pub fn load_segment(&mut self, seg: Seg, selector: u16) -> (done: CpuResult<()>)
        requires
            seg != Seg::CS,
        ensures
            final(self)@ == old(self)@.segment_loaded(seg, selector).0,
            done == old(self)@.segment_loaded(seg, selector).1,
    {
        if !self.pe() {
            self.load_seg_real(seg, selector);
        } else if self.v86() {
            self.load_seg_v86(seg, selector);
        } else {
            let cache = self.check_data_segment(seg, selector)?;
            self.set_seg_cache(seg, cache);
        }
        if seg == Seg::SS {
            // Interrupts wait for the instruction after a stack switch.
            self.irq_shadow = true;
        }
        Ok(())
    }

    /// Protected mode: check a selector for `seg` and return the cache to
    /// load, marking the descriptor accessed.
    pub fn check_data_segment(&mut self, seg: Seg, selector: u16) -> (cache: CpuResult<SegCache>)
        ensures
            final(self)@ == old(self)@.data_segment(seg, selector).0,
            cache == old(self)@.data_segment(seg, selector).1,
    {
        reveal(Core::data_segment);
        let cpl: u8 = self.cpl;
        if is_null(selector) {
            if seg == Seg::SS {
                return Err(Fault::gp(0));
            }
            return Ok(SegCache::null(selector));
        }
        let mut desc = self.fetch_descriptor(selector, 0)?;
        let err: u32 = sel_error(selector);
        if seg == Seg::SS {
            if rpl(selector) != cpl || !desc.writable_data() || desc.dpl() != cpl {
                return Err(Fault::gp(err));
            }
            if !desc.present() {
                return Err(Fault::ss(err));
            }
        } else {
            if !desc.readable() {
                return Err(Fault::gp(err));
            }
            // Data and non-conforming code need DPL >= max(CPL, RPL).
            if !desc.conforming() && (desc.dpl() < cpl || desc.dpl() < rpl(selector)) {
                return Err(Fault::gp(err));
            }
            if !desc.present() {
                return Err(Fault::np(err));
            }
        }
        self.mark_accessed(selector, &mut desc)?;
        Ok(desc.cache(selector))
    }

    /// Load CS for a transfer to a code segment in protected mode, at
    /// privilege level `cpl` (the selector's RPL becomes the CPL).
    pub fn load_cs_pm(&mut self, selector: u16, desc: &mut Descriptor, cpl: u8) -> (done: CpuResult<
        (),
    >)
        ensures
            final(self)@ == old(self)@.cs_loaded(selector, *old(desc), cpl).0,
            done == old(self)@.cs_loaded(selector, *old(desc), cpl).1,
            *final(desc) == (if old(self)@.descriptor_at(selector) is Some {
                old(desc).marked()
            } else {
                *old(desc)
            }),
    {
        reveal(Core::cs_loaded);
        self.mark_accessed(selector, desc)?;
        let selector: u16 = (selector & 0xFFFC) | (cpl as u16);
        self.set_seg_cache(Seg::CS, desc.cache(selector));
        self.cpl = cpl;
        Ok(())
    }

    /// After a return to an outer privilege level: data segment registers
    /// the new level may not use are loaded with the null selector.
    pub fn null_inaccessible_segments(&mut self)
        ensures
            final(self)@ == old(self)@.inaccessible_nulled(),
    {
        reveal(Core::inaccessible_nulled);
        self.null_inaccessible(Seg::ES);
        self.null_inaccessible(Seg::DS);
        self.null_inaccessible(Seg::FS);
        self.null_inaccessible(Seg::GS);
        assert(self@.seg =~= old(self)@.inaccessible_nulled().seg);
    }

    fn null_inaccessible(&mut self, seg: Seg)
        ensures
            final(self)@ == (if usable_at(old(self)@.cache(seg), old(self)@.cpl) {
                old(self)@
            } else {
                old(self)@.with_cache(seg, SegCache::spec_null(0))
            }),
    {
        let cache = self.seg_cache(seg);
        let conforming_code = cache.attr & 0x1C == 0x1C;
        if !conforming_code && cache.dpl() < self.cpl {
            self.set_seg_cache(seg, SegCache::null(0));
        }
    }
}

proof fn lemma_descriptor_fields(x: u64, limit: u32)
    by (bit_vector)
    ensures
        (((x >> 16) & 0x00FF_FFFF) | ((x >> 32) & 0xFF00_0000)) as u32 as u64 == ((x >> 16)
            & 0xFF_FFFF) + ((x >> 56) << 24),
        ((x & 0xFFFF) | ((x >> 32) & 0x000F_0000)) as u32 as u64 == (x & 0xFFFF) + (((x >> 48) & 0xF)
            << 16),
        (((x & 0xFFFF) | ((x >> 32) & 0x000F_0000)) as u32) < 0x10_0000,
        ((x >> 45) & 3) as u8 <= 3,
        limit < 0x10_0000 ==> (limit << 12) | 0xFFF == 0x1000 * limit + 0xFFF,
{
}

/// The limit of a segment counts bytes, or pages of 4 KB with the granularity
/// bit; it is the last offset that belongs to the segment.
pub proof fn law_limits_count_bytes_or_pages(d: Descriptor)
    ensures
        d.byte_limit() + 1 == (if d.attr_field() & ATTR_G != 0 {
            0x1000 * (d.limit_field() + 1)
        } else {
            d.limit_field() + 1
        }),
{
    law_descriptor_layout(d);
    lemma_descriptor_fields(d.0, d.limit_field());
}

/// Where a descriptor's fields lie among its eight bytes.
pub proof fn law_descriptor_layout(d: Descriptor)
    ensures
        d.base_field() as u64 == ((d.0 >> 16) & 0xFF_FFFF) + ((d.0 >> 56) << 24),
        d.limit_field() as u64 == (d.0 & 0xFFFF) + (((d.0 >> 48) & 0xF) << 16),
        d.limit_field() < 0x10_0000,
        d.level() <= 3,
{
    lemma_descriptor_fields(d.0, 0);
}

proof fn lemma_marked(x: u64)
    by (bit_vector)
    ensures
        ((((x | 0x0000_0100_0000_0000) >> 40) & 0xFF) | (((x | 0x0000_0100_0000_0000) >> 40)
            & 0xF000)) as u16 & 0x1E == (((x >> 40) & 0xFF) | ((x >> 40) & 0xF000)) as u16 & 0x1E,
        (((((((x | 0x0000_0100_0000_0000) >> 40) & 0xFF) | (((x | 0x0000_0100_0000_0000) >> 40)
            & 0xF000)) as u16) >> 5) & 3) as u8 == ((x >> 45) & 3) as u8,
        ((((((x >> 40) & 0xFF) | ((x >> 40) & 0xF000)) as u16) >> 5) & 3) as u8 == ((x >> 45) & 3)
            as u8,
        (x & 0x0000_1000_0000_0000 != 0 && ((x >> 40) & 0xF) as u8 & 0x8 != 0 && ((x >> 40) & 0xF)
            as u8 & 0x4 != 0) <==> ((((x >> 40) & 0xFF) | ((x >> 40) & 0xF000)) as u16 & 0x1C
            == 0x1C),
        ((((x | 0x0000_0100_0000_0000) >> 40) & 0xFF) | (((x | 0x0000_0100_0000_0000) >> 40)
            & 0xF000)) as u16 & 0x1C == (((x >> 40) & 0xFF) | ((x >> 40) & 0xF000)) as u16 & 0x1C,
{
}

/// In protected mode a data segment register only ever gets a segment that
/// the current level may use, and that the selector's own level may.
pub proof fn law_loaded_segments_are_usable(s: Core, seg: Seg, selector: u16)
    requires
        s.pm(),
        !null_selector(selector),
        s.data_segment(seg, selector).1 is Ok,
    ensures
        ({
            let cache = s.data_segment(seg, selector).1->Ok_0;
            &&& cache.selector == selector
            &&& usable_at(cache, s.cpl)
            &&& usable_at(cache, rpl_of(selector))
        }),
{
    reveal(Core::data_segment);
    let desc = s.fetch(selector, 0).1->Ok_0;
    lemma_marked(desc.0);
}

/// What is left after a return to an outer level, that level may use.
pub proof fn law_nulled_segments_are_usable(s: Core)
    requires
        s.wf(),
    ensures
        forall|i: int|
            0 <= i < 6 && i != 1 && i != 2 ==> (#[trigger] s.inaccessible_nulled().seg[i]
                == SegCache::spec_null(0) || usable_at(s.inaccessible_nulled().seg[i], s.cpl)),
{
    reveal(Core::inaccessible_nulled);
}

} // verus!
