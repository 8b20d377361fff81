//! Memory access by instructions: segment limit and type checks, linear to
//! physical translation, and the stack.
//!
//! Instructions access memory in two steps: `mem_ref` checks the access and
//! can fault; `mem_read` and `mem_write` then cannot. A read-modify-write
//! instruction checks its destination for writing before it reads it, so
//! nothing is written by an instruction that later faults.

use vstd::prelude::*;

use super::alu::value_count;
use super::laws::{
    in_memory, law_operand_reads_back, law_written_can_be_read, lemma_bytes, lemma_operand_keeps,
    lemma_pointer_16, lemma_pointer_returns, lemma_ref_ignores_registers, lemma_ref_keeps, tlb_ok,
};
use super::paging::{law_access_keeps_registers, law_fault_changes_only_cr2, PTE_A};
use super::regs::{
    reads_where_it_writes, with_word, Seg, SegCache, ATTR_DB, RIGHT_READ, RIGHT_WRITE,
};
use super::state::{Core, Cpu, CpuResult, Fault};
use crate::bits::word_of;
use crate::bus::{byte_at, law_store_32_keeps_size, store_32, store_8};

verus! {

/// Kind of memory access, for protection checks.
#[derive(Clone, Copy, Debug, PartialEq, Eq, Structural)]
pub enum Access {
    Read,
    Write,
}

/// A memory operand whose access has been checked: its bytes can be read
/// and written without faulting. An operand that crosses a page boundary
/// continues at `phys2`, the physical address of the next page.
#[derive(Clone, Copy, Debug, PartialEq, Eq, Structural)]
pub struct MemRef {
    pub lin: u32,
    pub phys: u32,
    pub phys2: u32,
    pub size: u8,
}

/// The fault a segment limit or type violation raises: #SS for the stack
/// segment, #GP for the others.
pub open spec fn seg_violation(seg: Seg) -> Fault {
    if seg == Seg::SS {
        Fault { vector: 12, error: Some(0) }
    } else {
        Fault { vector: 13, error: Some(0) }
    }
}

/// Whether a segment allows `len` bytes at `off`: within its offsets, not
/// wrapping, and with the right to.
pub open spec fn allows_span(cache: SegCache, off: u32, len: int, access: Access) -> bool {
    let need = if access == Access::Write {
        RIGHT_WRITE
    } else {
        RIGHT_READ
    };
    &&& cache.lo <= off
    &&& off + len - 1 <= cache.hi
    &&& off + len - 1 <= u32::MAX
    &&& cache.rights & need != 0
}

pub open spec fn is_operand_size(size: u8) -> bool {
    size == 1 || size == 2 || size == 4
}

/// Physical address of byte `i` of a checked operand.
pub open spec fn ref_byte(r: MemRef, i: int) -> u32 {
    let in_first = 0x1000 - r.phys % 0x1000;
    if i < in_first {
        r.phys.wrapping_add(i as u32)
    } else {
        r.phys2.wrapping_add((i - in_first) as u32)
    }
}

/// The number that four bytes are, low byte first.
pub open spec fn dword_of(b0: u8, b1: u8, b2: u8, b3: u8) -> u32 {
    ((word_of(b2, b3) as u32) << 16) | (word_of(b0, b1) as u32)
}

/// Byte `i` of a number.
pub open spec fn byte_of(value: u32, i: int) -> u8 {
    (value >> ((8 * i) as u32)) as u8
}

impl Core {
    pub open spec fn user(self) -> bool {
        self.cpl == 3
    }

    pub open spec fn seg_linear(self, seg: Seg, off: u32, size: u8, access: Access) -> CpuResult<
        u32,
    > {
        if allows_span(self.cache(seg), off, size as int, access) {
            Ok(self.cache(seg).base.wrapping_add(off))
        } else {
            Err(seg_violation(seg))
        }
    }

    /// The checked operand at a linear address: its first page is
    /// translated, and the next page too if it crosses into one.
    #[verifier::opaque]
    pub open spec fn lin_ref(self, lin: u32, size: u8, access: Access, user: bool) -> (
        Core,
        CpuResult<MemRef>,
    ) {
        let write = access == Access::Write;
        match self.lin_to_phys(lin, write, user) {
            (s, Err(fault)) => (s, Err(fault)),
            (s, Ok(phys)) => if lin % 0x1000 > 0x1000 - size {
                match s.lin_to_phys((lin | 0xFFF).wrapping_add(1), write, user) {
                    (t, Err(fault)) => (t, Err(fault)),
                    (t, Ok(phys2)) => (t, Ok(MemRef { lin, phys, phys2, size })),
                }
            } else {
                (s, Ok(MemRef { lin, phys, phys2: 0, size }))
            },
        }
    }

    #[verifier::opaque]
    pub open spec fn mem_ref(self, seg: Seg, off: u32, size: u8, access: Access) -> (
        Core,
        CpuResult<MemRef>,
    ) {
        match self.seg_linear(seg, off, size, access) {
            Err(fault) => (self, Err(fault)),
            Ok(lin) => self.lin_ref(lin, size, access, self.user()),
        }
    }

    pub open spec fn operand_byte(self, r: MemRef, i: int) -> u8 {
        byte_at(self.ram, ref_byte(r, i) as int)
    }

    /// A checked operand's value, zero-extended.
    #[verifier::opaque]
    pub open spec fn operand(self, r: MemRef) -> u32 {
        if r.size == 1 {
            self.operand_byte(r, 0) as u32
        } else if r.size == 2 {
            word_of(self.operand_byte(r, 0), self.operand_byte(r, 1)) as u32
        } else {
            dword_of(
                self.operand_byte(r, 0),
                self.operand_byte(r, 1),
                self.operand_byte(r, 2),
                self.operand_byte(r, 3),
            )
        }
    }

    /// Memory with the first `n` bytes of an operand written.
    pub open spec fn stored(ram: Seq<u8>, r: MemRef, value: u32, n: nat) -> Seq<u8>
        decreases n,
    {
        if n == 0 {
            ram
        } else {
            store_8(
                Core::stored(ram, r, value, (n - 1) as nat),
                ref_byte(r, n - 1) as int,
                byte_of(value, n - 1),
            )
        }
    }

    /// A checked operand written.
    #[verifier::opaque]
    pub open spec fn with_operand(self, r: MemRef, value: u32) -> Core {
        Core { ram: Core::stored(self.ram, r, value, r.size as nat), ..self }
    }

    /// Reading a system structure, as a supervisor access.
    pub open spec fn sys_read(self, lin: u32, size: u8) -> (Core, CpuResult<u32>) {
        match self.lin_ref(lin, size, Access::Read, false) {
            (s, Ok(r)) => (s, Ok(s.operand(r))),
            (s, Err(fault)) => (s, Err(fault)),
        }
    }

    /// Writing a system structure.
    pub open spec fn sys_write(self, lin: u32, size: u8, value: u32) -> (Core, CpuResult<()>) {
        match self.lin_ref(lin, size, Access::Write, false) {
            (s, Ok(r)) => (s.with_operand(r, value), Ok(())),
            (s, Err(fault)) => (s, Err(fault)),
        }
    }

    /// Reading `size` bytes through a segment.
    pub open spec fn seg_read(self, seg: Seg, off: u32, size: u8) -> (Core, CpuResult<u32>) {
        match self.mem_ref(seg, off, size, Access::Read) {
            (s, Ok(r)) => (s, Ok(s.operand(r))),
            (s, Err(fault)) => (s, Err(fault)),
        }
    }

    /// Writing `size` bytes through a segment.
    pub open spec fn seg_write(self, seg: Seg, off: u32, size: u8, value: u32) -> (
        Core,
        CpuResult<()>,
    ) {
        match self.mem_ref(seg, off, size, Access::Write) {
            (s, Ok(r)) => (s.with_operand(r, value), Ok(())),
            (s, Err(fault)) => (s, Err(fault)),
        }
    }

    /// A word with paging off, as the real-mode interrupt table is read.
    pub open spec fn linear_word(self, lin: u32) -> u16 {
        word_of(
            byte_at(self.ram, self.translated(lin) as int),
            byte_at(self.ram, self.translated(lin.wrapping_add(1)) as int),
        )
    }

    /// The stack segment is 32-bit: the stack pointer is ESP rather than SP.
    pub open spec fn stack32(self) -> bool {
        self.cache(Seg::SS).attr & ATTR_DB != 0
    }

    pub open spec fn stack_ptr(self) -> u32 {
        if self.stack32() {
            self.esp()
        } else {
            self.esp() as u16 as u32
        }
    }

    /// The stack pointer replaced; a 16-bit stack only changes SP.
    pub open spec fn with_stack_ptr(self, value: u32) -> Core {
        if self.stack32() {
            self.with_esp(value)
        } else {
            self.with_esp(with_word(self.esp(), value as u16))
        }
    }

    /// The stack pointer `delta` bytes away, wrapped to the stack's width.
    pub open spec fn stack_offset(self, delta: u32) -> u32 {
        let sp = self.stack_ptr().wrapping_add(delta);
        if self.stack32() {
            sp
        } else {
            sp & 0xFFFF
        }
    }

    pub open spec fn push_sized(self, size: u8, value: u32) -> (Core, CpuResult<()>) {
        let sp = self.stack_offset(0u32.wrapping_sub(size as u32));
        match self.seg_write(Seg::SS, sp, size, value) {
            (s, Ok(_)) => (s.with_stack_ptr(sp), Ok(())),
            (s, Err(fault)) => (s, Err(fault)),
        }
    }

    pub open spec fn stack_read(self, depth: u32, size: u8) -> (Core, CpuResult<u32>) {
        self.seg_read(Seg::SS, self.stack_offset(depth), size)
    }

    pub open spec fn pop_sized(self, size: u8) -> (Core, CpuResult<u32>) {
        match self.stack_read(0, size) {
            (s, Ok(value)) => (s.with_stack_ptr(s.stack_offset(size as u32)), Ok(value)),
            (s, Err(fault)) => (s, Err(fault)),
        }
    }

    /// Checking every page from the one with `lin` on: `n` of them after it.
    pub open spec fn pages_checked(self, lin: u32, access: Access, user: bool, n: nat) -> (
        Core,
        CpuResult<()>,
    )
        decreases n,
    {
        if n == 0 {
            match self.lin_to_phys(lin, access == Access::Write, user) {
                (s, Ok(_)) => (s, Ok(())),
                (s, Err(fault)) => (s, Err(fault)),
            }
        } else {
            match self.pages_checked(lin, access, user, (n - 1) as nat) {
                (s, Ok(_)) => {
                    let page = (lin - lin % 0x1000 + n * 0x1000) % 0x1_0000_0000;
                    match s.lin_to_phys(page as u32, access == Access::Write, user) {
                        (t, Ok(_)) => (t, Ok(())),
                        (t, Err(fault)) => (t, Err(fault)),
                    }
                },
                (s, Err(fault)) => (s, Err(fault)),
            }
        }
    }

    /// How many pages a span touches after its first one.
    pub open spec fn pages_after(lin: u32, len: int) -> nat {
        ((lin % 0x1000 + len - 1) / 0x1000) as nat
    }

    /// A span of any length checked, and its linear address.
    pub open spec fn span_checked(self, seg: Seg, off: u32, len: u32, access: Access) -> (
        Core,
        CpuResult<u32>,
    ) {
        let lin = self.cache(seg).base.wrapping_add(off);
        if !allows_span(self.cache(seg), off, len as int, access) {
            (self, Err(seg_violation(seg)))
        } else {
            match self.pages_checked(lin, access, self.user(), Core::pages_after(lin, len as int)) {
                (s, Ok(_)) => (s, Ok(lin)),
                (s, Err(fault)) => (s, Err(fault)),
            }
        }
    }

    /// The physical address of a byte of a checked span; past all memory if
    /// its page is gone.
    pub open spec fn span_byte(self, lin: u32, write: bool) -> (Core, u32) {
        match self.lin_to_phys(lin, write, self.user()) {
            (s, Ok(phys)) => (s, phys),
            (s, Err(_)) => (s, 0xFFFF_FFFF),
        }
    }

    pub open spec fn lin_read_8(self, lin: u32) -> (Core, u8) {
        let (s, phys) = self.span_byte(lin, false);
        (s, byte_at(s.ram, phys as int))
    }

    pub open spec fn lin_read_16(self, lin: u32) -> (Core, u16) {
        let (s, low) = self.lin_read_8(lin);
        let (t, high) = s.lin_read_8(lin.wrapping_add(1));
        (t, word_of(low, high))
    }

    pub open spec fn lin_read_32(self, lin: u32) -> (Core, u32) {
        let (s, low) = self.lin_read_16(lin);
        let (t, high) = s.lin_read_16(lin.wrapping_add(2));
        (t, low as u32 | (high as u32) << 16)
    }

    pub open spec fn lin_read_64(self, lin: u32) -> (Core, u64) {
        let (s, low) = self.lin_read_32(lin);
        let (t, high) = s.lin_read_32(lin.wrapping_add(4));
        (t, low as u64 | (high as u64) << 32)
    }

    pub open spec fn lin_write_8(self, lin: u32, value: u8) -> Core {
        let (s, phys) = self.span_byte(lin, true);
        Core { ram: store_8(s.ram, phys as int, value), ..s }
    }

    pub open spec fn lin_write_16(self, lin: u32, value: u16) -> Core {
        self.lin_write_8(lin, value as u8).lin_write_8(lin.wrapping_add(1), (value >> 8) as u8)
    }

    pub open spec fn lin_write_32(self, lin: u32, value: u32) -> Core {
        self.lin_write_16(lin, value as u16).lin_write_16(
            lin.wrapping_add(2),
            (value >> 16) as u16,
        )
    }

    pub open spec fn lin_write_64(self, lin: u32, value: u64) -> Core {
        self.lin_write_32(lin, value as u32).lin_write_32(
            lin.wrapping_add(4),
            (value >> 32) as u32,
        )
    }
}

fn seg_fault(seg: Seg) -> (fault: Fault)
    ensures
        fault == seg_violation(seg),
{
    if seg == Seg::SS {
        Fault { vector: 12, error: Some(0) }
    } else {
        Fault { vector: 13, error: Some(0) }
    }
}

fn span_ok(cache: &SegCache, off: u32, len: u32, access: Access) -> (ok: bool)
    requires
        len >= 1,
    ensures
        ok == allows_span(*cache, off, len as int, access),
{
    let last: u32 = off.wrapping_add(len - 1);
    let need: u8 = if access == Access::Write {
        RIGHT_WRITE
    } else {
        RIGHT_READ
    };
    !(off < cache.lo || last > cache.hi || last < off || cache.rights & need == 0)
}

impl Cpu {
    /// Whether the current privilege level is 3, whose accesses the page
    /// tables' user/supervisor bits restrict.
    fn user(&self) -> (yes: bool)
        ensures
            yes == self@.user(),
    {
        self.cpl == 3
    }

    /// Linear address of an access of `size` bytes at `seg:off`, checked
    /// against the segment's limit and type.
    pub fn seg_linear(&self, seg: Seg, off: u32, size: u8, access: Access) -> (lin: CpuResult<u32>)
        requires
            size >= 1,
        ensures
            lin == self@.seg_linear(seg, off, size, access),
    {
        let cache = self.seg_cache(seg);
        if !span_ok(&cache, off, size as u32, access) {
            return Err(seg_fault(seg));
        }
        Ok(cache.base.wrapping_add(off))
    }

    /// Check an access of `size` bytes at `seg:off`.
    pub fn mem_ref(&mut self, seg: Seg, off: u32, size: u8, access: Access) -> (r: CpuResult<
        MemRef,
    >)
        requires
            size >= 1,
        ensures
            final(self)@ == old(self)@.mem_ref(seg, off, size, access).0,
            r == old(self)@.mem_ref(seg, off, size, access).1,
    {
        reveal(Core::mem_ref);
        let lin: u32 = self.seg_linear(seg, off, size, access)?;
        let user = self.user();
        self.lin_ref(lin, size, access, user)
    }

    /// Check an access of `size` bytes at a linear address: translate it,
    /// and the next page too if it crosses into one.
    pub fn lin_ref(&mut self, lin: u32, size: u8, access: Access, user: bool) -> (r: CpuResult<
        MemRef,
    >)
        ensures
            final(self)@ == old(self)@.lin_ref(lin, size, access, user).0,
            r == old(self)@.lin_ref(lin, size, access, user).1,
    {
        reveal(Core::lin_ref);
        let write = access == Access::Write;
        let phys: u32 = self.lin_to_phys(lin, write, user)?;
        let phys2: u32 = if lin % 0x1000 > 0x1000 - size as u32 {
            self.lin_to_phys((lin | 0xFFF).wrapping_add(1), write, user)?
        } else {
            0
        };
        Ok(MemRef { lin, phys, phys2, size })
    }

    /// Physical address of byte `i` of a checked operand.
    fn ref_byte(r: MemRef, i: u32) -> (addr: usize)
        ensures
            addr == ref_byte(r, i as int),
    {
        let in_first: u32 = 0x1000 - r.phys % 0x1000;
        if i < in_first {
            r.phys.wrapping_add(i) as usize
        } else {
            r.phys2.wrapping_add(i - in_first) as usize
        }
    }

    /// Read a checked operand (zero-extended).
    pub fn mem_read(&self, r: MemRef) -> (value: u32)
        requires
            is_operand_size(r.size),
        ensures
            value == self@.operand(r),
    {
        reveal(Core::operand);
        let b0: u8 = self.bus.read_8(Cpu::ref_byte(r, 0));
        if r.size == 1 {
            return b0 as u32;
        }
        let b1: u8 = self.bus.read_8(Cpu::ref_byte(r, 1));
        let low: u16 = ((b1 as u16) << 8) | (b0 as u16);
        if r.size == 2 {
            return low as u32;
        }
        let b2: u8 = self.bus.read_8(Cpu::ref_byte(r, 2));
        let b3: u8 = self.bus.read_8(Cpu::ref_byte(r, 3));
        let high: u16 = ((b3 as u16) << 8) | (b2 as u16);
        ((high as u32) << 16) | (low as u32)
    }

    /// Write a checked operand (the low `size` bytes of `value`).
    pub fn mem_write(&mut self, r: MemRef, value: u32)
        requires
            is_operand_size(r.size),
        ensures
            final(self)@ == old(self)@.with_operand(r, value),
    {
        reveal(Core::with_operand);
        let mut i: u32 = 0;
        while i < r.size as u32
            invariant
                i <= r.size,
                is_operand_size(r.size),
                self@ == (Core {
                    ram: Core::stored(old(self)@.ram, r, value, i as nat),
                    ..old(self)@
                }),
            decreases r.size - i,
        {
            self.bus.write_8(Cpu::ref_byte(r, i), (value >> (8 * i)) as u8);
            i = i + 1;
        }
    }

    /// Read `size` bytes of a system structure (descriptor tables, the
    /// TSS) at a linear address, as a supervisor access.
    pub fn sys_read(&mut self, lin: u32, size: u8) -> (value: CpuResult<u32>)
        requires
            is_operand_size(size),
        ensures
            final(self)@ == old(self)@.sys_read(lin, size).0,
            value == old(self)@.sys_read(lin, size).1,
    {
        proof {
            lemma_ref_size(self@, lin, size, Access::Read, false);
        }
        let r = self.lin_ref(lin, size, Access::Read, false)?;
        Ok(self.mem_read(r))
    }

    pub fn sys_read_u32(&mut self, lin: u32) -> (value: CpuResult<u32>)
        ensures
            final(self)@ == old(self)@.sys_read(lin, 4).0,
            value == old(self)@.sys_read(lin, 4).1,
    {
        self.sys_read(lin, 4)
    }

    /// Write `size` bytes of a system structure, see `sys_read`.
    pub fn sys_write(&mut self, lin: u32, size: u8, value: u32) -> (done: CpuResult<()>)
        requires
            is_operand_size(size),
        ensures
            final(self)@ == old(self)@.sys_write(lin, size, value).0,
            done == old(self)@.sys_write(lin, size, value).1,
    {
        proof {
            lemma_ref_size(self@, lin, size, Access::Write, false);
        }
        let r = self.lin_ref(lin, size, Access::Write, false)?;
        self.mem_write(r, value);
        Ok(())
    }

    pub fn sys_write_u8(&mut self, lin: u32, value: u8) -> (done: CpuResult<()>)
        ensures
            final(self)@ == old(self)@.sys_write(lin, 1, value as u32).0,
            done == old(self)@.sys_write(lin, 1, value as u32).1,
    {
        self.sys_write(lin, 1, value as u32)
    }

    /// Check `len` bytes at `seg:off` for an access, for instructions whose
    /// operand is larger than a dword (FPU operands, FSAVE images). Returns
    /// the linear address, which `lin_read_8` and friends then read and
    /// write without faulting.
    pub fn check_span(&mut self, seg: Seg, off: u32, len: u32, access: Access) -> (lin: CpuResult<
        u32,
    >)
        requires
            len >= 1,
        ensures
            final(self)@ == old(self)@.span_checked(seg, off, len, access).0,
            lin == old(self)@.span_checked(seg, off, len, access).1,
    {
        let cache = self.seg_cache(seg);
        if !span_ok(&cache, off, len, access) {
            return Err(seg_fault(seg));
        }
        let lin: u32 = cache.base.wrapping_add(off);
        let user = self.user();
        let write = access == Access::Write;
        let pages: u64 = (lin as u64 % 0x1000 + len as u64 - 1) / 0x1000;
        let ghost before = old(self)@;
        proof {
            lemma_pages_stop(before, lin, access, user, 0, pages as nat);
        }
        self.lin_to_phys(lin, write, user)?;
        // Every other page the span touches.
        let mut n: u64 = 0;
        while n < pages
            invariant
                n <= pages,
                pages <= 0x10_0000,
                pages == Core::pages_after(lin, len as int),
                lin == before.cache(seg).base.wrapping_add(off),
                user == before.user(),
                write == (access == Access::Write),
                allows_span(before.cache(seg), off, len as int, access),
                before == old(self)@,
                before.pages_checked(lin, access, user, n as nat) == (
                    self@,
                    Ok::<(), Fault>(()),
                ),
            decreases pages - n,
        {
            let page: u64 = (lin as u64 - lin as u64 % 0x1000 + (n + 1) * 0x1000) % 0x1_0000_0000;
            proof {
                lemma_pages_stop(before, lin, access, user, (n + 1) as nat, pages as nat);
            }
            self.lin_to_phys(page as u32, write, user)?;
            n = n + 1;
        }
        Ok(lin)
    }

    /// Physical address of a byte of a span `check_span` accepted.
    fn span_byte(&mut self, lin: u32, write: bool) -> (phys: usize)
        ensures
            final(self)@ == old(self)@.span_byte(lin, write).0,
            phys == old(self)@.span_byte(lin, write).1,
    {
        let user = self.user();
        match self.lin_to_phys(lin, write, user) {
            Ok(phys) => phys as usize,
            // The span was checked, so this only happens if the operand
            // overlaps the page tables it changes.
            Err(_) => 0xFFFF_FFFF,
        }
    }

    /// Read bytes of a checked span, see `check_span`.
    pub fn lin_read_8(&mut self, lin: u32) -> (value: u8)
        ensures
            final(self)@ == old(self)@.lin_read_8(lin).0,
            value == old(self)@.lin_read_8(lin).1,
    {
        let p: usize = self.span_byte(lin, false);
        self.bus.read_8(p)
    }

    pub fn lin_read_16(&mut self, lin: u32) -> (value: u16)
        ensures
            final(self)@ == old(self)@.lin_read_16(lin).0,
            value == old(self)@.lin_read_16(lin).1,
    {
        let low: u8 = self.lin_read_8(lin);
        let high: u8 = self.lin_read_8(lin.wrapping_add(1));
        ((high as u16) << 8) | (low as u16)
    }

    pub fn lin_read_32(&mut self, lin: u32) -> (value: u32)
        ensures
            final(self)@ == old(self)@.lin_read_32(lin).0,
            value == old(self)@.lin_read_32(lin).1,
    {
        let low: u16 = self.lin_read_16(lin);
        let high: u16 = self.lin_read_16(lin.wrapping_add(2));
        low as u32 | (high as u32) << 16
    }

    pub fn lin_read_64(&mut self, lin: u32) -> (value: u64)
        ensures
            final(self)@ == old(self)@.lin_read_64(lin).0,
            value == old(self)@.lin_read_64(lin).1,
    {
        let low: u32 = self.lin_read_32(lin);
        let high: u32 = self.lin_read_32(lin.wrapping_add(4));
        low as u64 | (high as u64) << 32
    }

    /// Write bytes of a checked span, see `check_span`.
    pub fn lin_write_8(&mut self, lin: u32, value: u8)
        ensures
            final(self)@ == old(self)@.lin_write_8(lin, value),
    {
        let p: usize = self.span_byte(lin, true);
        self.bus.write_8(p, value);
    }

    pub fn lin_write_16(&mut self, lin: u32, value: u16)
        ensures
            final(self)@ == old(self)@.lin_write_16(lin, value),
    {
        self.lin_write_8(lin, value as u8);
        self.lin_write_8(lin.wrapping_add(1), (value >> 8) as u8);
    }

    pub fn lin_write_32(&mut self, lin: u32, value: u32)
        ensures
            final(self)@ == old(self)@.lin_write_32(lin, value),
    {
        self.lin_write_16(lin, value as u16);
        self.lin_write_16(lin.wrapping_add(2), (value >> 16) as u16);
    }

    pub fn lin_write_64(&mut self, lin: u32, value: u64)
        ensures
            final(self)@ == old(self)@.lin_write_64(lin, value),
    {
        self.lin_write_32(lin, value as u32);
        self.lin_write_32(lin.wrapping_add(4), (value >> 32) as u32);
    }

    /// Read `size` (1, 2 or 4) bytes.
    pub fn read_sized(&mut self, seg: Seg, off: u32, size: u8) -> (value: CpuResult<u32>)
        requires
            is_operand_size(size),
        ensures
            final(self)@ == old(self)@.seg_read(seg, off, size).0,
            value == old(self)@.seg_read(seg, off, size).1,
    {
        proof {
            lemma_mem_ref_size(self@, seg, off, size, Access::Read);
        }
        let r = self.mem_ref(seg, off, size, Access::Read)?;
        Ok(self.mem_read(r))
    }

    fn write_sized(&mut self, seg: Seg, off: u32, size: u8, value: u32) -> (done: CpuResult<()>)
        requires
            is_operand_size(size),
        ensures
            final(self)@ == old(self)@.seg_write(seg, off, size, value).0,
            done == old(self)@.seg_write(seg, off, size, value).1,
    {
        proof {
            lemma_mem_ref_size(self@, seg, off, size, Access::Write);
        }
        let r = self.mem_ref(seg, off, size, Access::Write)?;
        self.mem_write(r, value);
        Ok(())
    }

    pub fn read_u8(&mut self, seg: Seg, off: u32) -> (value: CpuResult<u8>)
        ensures
            final(self)@ == old(self)@.seg_read(seg, off, 1).0,
            value == (match old(self)@.seg_read(seg, off, 1).1 {
                Ok(v) => Ok(v as u8),
                Err(fault) => Err(fault),
            }),
    {
        let value: u32 = self.read_sized(seg, off, 1)?;
        Ok(value as u8)
    }

    pub fn read_u16(&mut self, seg: Seg, off: u32) -> (value: CpuResult<u16>)
        ensures
            final(self)@ == old(self)@.seg_read(seg, off, 2).0,
            value == (match old(self)@.seg_read(seg, off, 2).1 {
                Ok(v) => Ok(v as u16),
                Err(fault) => Err(fault),
            }),
    {
        let value: u32 = self.read_sized(seg, off, 2)?;
        Ok(value as u16)
    }

    pub fn read_u32(&mut self, seg: Seg, off: u32) -> (value: CpuResult<u32>)
        ensures
            final(self)@ == old(self)@.seg_read(seg, off, 4).0,
            value == old(self)@.seg_read(seg, off, 4).1,
    {
        self.read_sized(seg, off, 4)
    }

    pub fn write_u8(&mut self, seg: Seg, off: u32, value: u8) -> (done: CpuResult<()>)
        ensures
            final(self)@ == old(self)@.seg_write(seg, off, 1, value as u32).0,
            done == old(self)@.seg_write(seg, off, 1, value as u32).1,
    {
        self.write_sized(seg, off, 1, value as u32)
    }

    pub fn write_u16(&mut self, seg: Seg, off: u32, value: u16) -> (done: CpuResult<()>)
        ensures
            final(self)@ == old(self)@.seg_write(seg, off, 2, value as u32).0,
            done == old(self)@.seg_write(seg, off, 2, value as u32).1,
    {
        self.write_sized(seg, off, 2, value as u32)
    }

    pub fn write_u32(&mut self, seg: Seg, off: u32, value: u32) -> (done: CpuResult<()>)
        ensures
            final(self)@ == old(self)@.seg_write(seg, off, 4, value).0,
            done == old(self)@.seg_write(seg, off, 4, value).1,
    {
        self.write_sized(seg, off, 4, value)
    }

    /// Read a word at a linear address with paging off, as the CPU reads
    /// the real-mode interrupt vector table.
    pub fn read_linear_u16(&self, lin: u32) -> (value: u16)
        ensures
            value == self@.linear_word(lin),
    {
        let lo: u8 = self.bus.read_8(self.translate(lin) as usize);
        let hi: u8 = self.bus.read_8(self.translate(lin.wrapping_add(1)) as usize);
        ((hi as u16) << 8) | (lo as u16)
    }

    /// True when the stack segment is 32-bit (SS.B): the stack pointer is
    /// ESP rather than SP.
    pub fn stack32(&self) -> (yes: bool)
        ensures
            yes == self@.stack32(),
    {
        self.seg_cache(Seg::SS).attr & ATTR_DB != 0
    }

    /// The stack pointer as the stack segment uses it: ESP, or SP.
    pub fn stack_ptr(&self) -> (sp: u32)
        ensures
            sp == self@.stack_ptr(),
    {
        if self.stack32() {
            self.gpr[4]
        } else {
            self.gpr[4] as u16 as u32
        }
    }

    /// Set the stack pointer as the stack segment uses it. A 16-bit stack
    /// only changes SP.
    pub fn set_stack_ptr(&mut self, value: u32)
        ensures
            final(self)@ == old(self)@.with_stack_ptr(value),
    {
        if self.stack32() {
            self.gpr[4] = value;
        } else {
            self.gpr[4] = (self.gpr[4] & 0xFFFF_0000) | (value as u16 as u32);
        }
    }

    /// Stack pointer `delta` bytes away from the current one, wrapped to the
    /// stack width.
    fn stack_offset(&self, delta: u32) -> (sp: u32)
        ensures
            sp == self@.stack_offset(delta),
    {
        let sp: u32 = self.stack_ptr().wrapping_add(delta);
        if self.stack32() {
            sp
        } else {
            sp & 0xFFFF
        }
    }

    /// Push `size` (2 or 4) bytes of `value`. Where that faults nothing is
    /// pushed (`law_failed_push_changes_nothing`).
    pub fn push_sized(&mut self, size: u8, value: u32) -> (done: CpuResult<()>)
        requires
            is_operand_size(size),
        ensures
            final(self)@ == old(self)@.push_sized(size, value).0,
            done == old(self)@.push_sized(size, value).1,
    {
        let sp: u32 = self.stack_offset(0u32.wrapping_sub(size as u32));
        self.write_sized(Seg::SS, sp, size, value)?;
        self.set_stack_ptr(sp);
        Ok(())
    }

    /// Pop `size` (2 or 4) bytes: what a push before it pushed
    /// (`law_pop_returns_push`).
    pub fn pop_sized(&mut self, size: u8) -> (value: CpuResult<u32>)
        requires
            is_operand_size(size),
        ensures
            final(self)@ == old(self)@.pop_sized(size).0,
            value == old(self)@.pop_sized(size).1,
    {
        let value: u32 = self.stack_read(0, size)?;
        let sp: u32 = self.stack_offset(size as u32);
        self.set_stack_ptr(sp);
        Ok(value)
    }

    /// Read `size` bytes `depth` bytes above the top of the stack without
    /// popping them.
    pub fn stack_read(&mut self, depth: u32, size: u8) -> (value: CpuResult<u32>)
        requires
            is_operand_size(size),
        ensures
            final(self)@ == old(self)@.stack_read(depth, size).0,
            value == old(self)@.stack_read(depth, size).1,
    {
        let sp: u32 = self.stack_offset(depth);
        self.read_sized(Seg::SS, sp, size)
    }

    /// Write `size` bytes `depth` bytes above the stack pointer as it will be
    /// after `total` bytes are pushed, for instructions that push several
    /// values and move the stack pointer once.
    pub fn stack_write_below(&mut self, total: u32, depth: u32, size: u8, value: u32) -> (done:
        CpuResult<()>)
        requires
            is_operand_size(size),
        ensures
            ({
                let sp = old(self)@.stack_offset(depth.wrapping_sub(total));
                &&& final(self)@ == old(self)@.seg_write(Seg::SS, sp, size, value).0
                &&& done == old(self)@.seg_write(Seg::SS, sp, size, value).1
            }),
    {
        let sp: u32 = self.stack_offset(depth.wrapping_sub(total));
        self.write_sized(Seg::SS, sp, size, value)
    }

    /// Push a word for emulator services (interrupt frames built by HLE
    /// code). They run in real mode on the program's stack, where a push
    /// can only fault if the program's stack pointer is broken already.
    pub fn push(&mut self, value: u16)
        ensures
            final(self)@ == old(self)@.push_sized(2, value as u32).0,
    {
        let _ = self.push_sized(2, value as u32);
    }

    /// Pop a word for emulator services, see `push`; zero if it faults.
    pub fn pop(&mut self) -> (value: u16)
        ensures
            final(self)@ == old(self)@.pop_sized(2).0,
            value == (match old(self)@.pop_sized(2).1 {
                Ok(v) => v as u16,
                Err(_) => 0,
            }),
    {
        match self.pop_sized(2) {
            Ok(value) => value as u16,
            Err(_) => 0,
        }
    }
}

/// A checked operand has the size it was checked for.
pub proof fn lemma_ref_size(s: Core, lin: u32, size: u8, access: Access, user: bool)
    ensures
        s.lin_ref(lin, size, access, user).1 matches Ok(r) ==> r.size == size,
{
    reveal(Core::lin_ref);
}

pub proof fn lemma_mem_ref_size(s: Core, seg: Seg, off: u32, size: u8, access: Access)
    ensures
        s.mem_ref(seg, off, size, access).1 matches Ok(r) ==> r.size == size,
{
    reveal(Core::mem_ref);
    reveal(Core::lin_ref);
}

/// Where a page of a span faults, the check of the whole span does.
proof fn lemma_pages_stop(s: Core, lin: u32, access: Access, user: bool, n: nat, m: nat)
    requires
        n <= m,
    ensures
        s.pages_checked(lin, access, user, n).1 is Err ==> s.pages_checked(lin, access, user, m)
            == s.pages_checked(lin, access, user, n),
    decreases m,
{
    if n < m {
        lemma_pages_stop(s, lin, access, user, n, (m - 1) as nat);
    }
}

/// Where a push of `size` bytes goes.
pub open spec fn push_slot(s: Core, size: u8) -> MemRef {
    s.mem_ref(
        Seg::SS,
        s.stack_offset(0u32.wrapping_sub(size as u32)),
        size,
        Access::Write,
    ).1->Ok_0
}

/// A pop undoes a push: it gives back what was pushed, cut to its size, and
/// leaves every register, the whole of ESP with them, as it was before the
/// push, wherever the pushed bytes lie in memory. In between the stack
/// pointer is `size` bytes further down, wrapped to the stack's width; on a
/// 16-bit stack the upper half of ESP never changes.
pub proof fn law_pop_returns_push(s: Core, size: u8, value: u32)
    requires
        s.wf(),
        tlb_ok(s.tlb),
        reads_where_it_writes(s.cache(Seg::SS)),
        size == 2 || size == 4,
        s.push_sized(size, value).1 is Ok,
        in_memory(s.ram, push_slot(s, size)),
    ensures
        ({
            let t = s.push_sized(size, value).0;
            let (u, popped) = t.pop_sized(size);
            &&& popped == Ok::<u32, Fault>(value & ((value_count(size) - 1) as u32))
            &&& u.gpr == s.gpr
            &&& u.esp() == s.esp()
            &&& t.stack_ptr() == s.stack_offset(0u32.wrapping_sub(size as u32))
            &&& !s.stack32() ==> t.esp() & 0xFFFF_0000 == s.esp() & 0xFFFF_0000
        }),
{
    reveal(Core::mem_ref);
    let sp = s.stack_offset(0u32.wrapping_sub(size as u32));
    let lin = s.cache(Seg::SS).base.wrapping_add(sp);
    let (c, r) = s.lin_ref(lin, size, Access::Write, s.user());
    let t = s.push_sized(size, value).0;
    lemma_ref_size(s, lin, size, Access::Write, s.user());
    lemma_ref_keeps(s, lin, size, Access::Write, s.user());
    let w = c.with_operand(r->Ok_0, value);
    assert(t == w.with_stack_ptr(sp));
    lemma_operand_keeps(c, r->Ok_0, value);
    lemma_pointer_returns(s, t, size);
    law_written_can_be_read(s, lin, size, s.user(), w.ram);
    law_operand_reads_back(c, r->Ok_0, value);
    lemma_bytes(value);
    lemma_ref_ignores_registers(w, t, lin, size, s.user());
    assert(t.stack_read(0, size).0 == t);
    let u = t.pop_sized(size).0;
    assert(u == t.with_stack_ptr(s.stack_ptr()));
    if !s.stack32() {
        lemma_pointer_16(s.stack_ptr(), size as u32, t.esp());
        assert((s.stack_ptr().wrapping_add(0u32.wrapping_sub(size as u32)) & 0xFFFF) <= 0xFFFF) by {
            lemma_pointer_16(
                0,
                size as u32,
                s.stack_ptr().wrapping_add(0u32.wrapping_sub(size as u32)),
            );
        }
        lemma_pointer_16(sp, size as u32, s.esp());
    }
    assert(u.esp() == s.esp());
    assert(u.gpr =~= s.gpr);
}

/// Whether a byte of memory belongs to the page directory or page table entry
/// of a linear address.
pub open spec fn in_entries(s: Core, lin: u32, addr: int) -> bool {
    s.pde_addr(lin) <= addr < s.pde_addr(lin) + 4 || s.pte_addr(lin) <= addr < s.pte_addr(lin) + 4
}

proof fn lemma_stored_outside(ram: Seq<u8>, addr: int, value: u32, other: int)
    requires
        0 <= other < ram.len(),
        !(addr <= other < addr + 4),
    ensures
        store_32(ram, addr, value)[other] == ram[other],
{
    reveal(store_32);
}

/// Checking an access changes memory only in the page's entries, and not at
/// all if it faults.
proof fn lemma_access_marks_entries_only(s: Core, lin: u32, write: bool, user: bool, addr: int)
    requires
        0 <= addr < s.ram.len(),
        !in_entries(s, lin, addr) || s.lin_to_phys(lin, write, user).1 is Err,
    ensures
        s.lin_to_phys(lin, write, user).0.ram[addr] == s.ram[addr],
{
    reveal(Core::lin_to_phys);
    reveal(Core::walk);
    let pde_addr = s.pde_addr(lin) as int;
    let pte_addr = s.pte_addr(lin) as int;
    let marked = s.pde(lin) | PTE_A;
    if !in_entries(s, lin, addr) {
        law_store_32_keeps_size(s.ram, pde_addr, marked);
        lemma_stored_outside(s.ram, pde_addr, marked, addr);
        lemma_stored_outside(s.ram, pte_addr, s.pte_after(lin, write), addr);
        lemma_stored_outside(
            store_32(s.ram, pde_addr, marked),
            pte_addr,
            s.pte_after(lin, write),
            addr,
        );
    }
}

/// A push that faults pushes nothing: registers, ESP with them, and the
/// bytes of the stack are as they were. With paging, a stack slot that
/// crosses into a page that faults leaves the entries of its first page
/// marked; no other byte of memory changes, and without paging nothing does.
pub proof fn law_failed_push_changes_nothing(s: Core, size: u8, value: u32)
    requires
        s.wf(),
        is_operand_size(size),
        s.push_sized(size, value).1 is Err,
    ensures
        ({
            let t = s.push_sized(size, value).0;
            let sp = s.stack_offset(0u32.wrapping_sub(size as u32));
            let lin = s.cache(Seg::SS).base.wrapping_add(sp);
            &&& t == (Core { cr2: t.cr2, ram: t.ram, tlb: t.tlb, ..s })
            &&& t.esp() == s.esp()
            &&& t.ram.len() == s.ram.len()
            &&& !s.paging() ==> t == s
            &&& lin % 0x1000 <= 0x1000 - size ==> t.ram == s.ram
            &&& forall|addr: int|
                0 <= addr < s.ram.len() && !in_entries(s, lin, addr) ==> #[trigger] t.ram[addr]
                    == s.ram[addr]
        }),
{
    reveal(Core::mem_ref);
    let sp = s.stack_offset(0u32.wrapping_sub(size as u32));
    let lin = s.cache(Seg::SS).base.wrapping_add(sp);
    let t = s.push_sized(size, value).0;
    lemma_ref_keeps(s, lin, size, Access::Write, s.user());
    let (a, first) = s.lin_to_phys(lin, true, s.user());
    let next = (lin | 0xFFF).wrapping_add(1);
    law_access_keeps_registers(s, lin, true, s.user());
    law_access_keeps_registers(a, next, true, s.user());
    assert(!s.paging() ==> s.lin_to_phys(lin, true, s.user()).1 is Ok && s.lin_to_phys(
        next,
        true,
        s.user(),
    ).1 is Ok) by {
        reveal(Core::lin_to_phys);
    }
    reveal(Core::lin_ref);
    if first is Err {
        law_fault_changes_only_cr2(s, lin, true, s.user());
    } else if a.lin_to_phys(next, true, s.user()).1 is Err {
        law_fault_changes_only_cr2(a, next, true, s.user());
    }
    assert forall|addr: int|
        0 <= addr < s.ram.len() && !in_entries(s, lin, addr) implies #[trigger] t.ram[addr]
        == s.ram[addr] by {
        lemma_access_marks_entries_only(s, lin, true, s.user(), addr);
    }
}

/// A double word has its bytes in rising order, each worth 256 times the one
/// before.
pub proof fn law_bytes_of_double_words(value: u32, b0: u8, b1: u8, b2: u8, b3: u8)
    ensures
        dword_of(b0, b1, b2, b3) == b0 + 0x100 * b1 + 0x1_0000 * b2 + 0x100_0000 * b3,
        byte_of(value, 0) + 0x100 * byte_of(value, 1) + 0x1_0000 * byte_of(value, 2) + 0x100_0000
            * byte_of(value, 3) == value,
{
    crate::bits::law_words_as_numbers(0, b0, b1);
    crate::bits::law_words_as_numbers(0, b2, b3);
    crate::bus::lemma_double_word(0, word_of(b0, b1), word_of(b2, b3));
    crate::diskimage::lemma_packed(0, 0, value);
}

/// An access inside a segment's limits is so far from its base as its offset
/// says; one that is not allowed faults, on the stack with a fault of its own.
pub proof fn law_segments_translate(s: Core, seg: Seg, off: u32, size: u8, access: Access)
    requires
        size > 0,
    ensures
        s.seg_linear(seg, off, size, access) matches Ok(lin) ==> (lin == s.cache(seg).base + off
            || lin == s.cache(seg).base + off - 0x1_0000_0000) && s.cache(seg).lo <= off && off
            + size - 1 <= s.cache(seg).hi,
        s.seg_linear(seg, off, size, access) matches Err(fault) ==> fault.error == Some(0u32)
            && fault.vector == (if seg == Seg::SS {
            12int
        } else {
            13
        }),
        off + size - 1 > s.cache(seg).hi ==> s.seg_linear(seg, off, size, access) is Err,
        off < s.cache(seg).lo ==> s.seg_linear(seg, off, size, access) is Err,
{
}

} // verus!
