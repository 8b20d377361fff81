//! CPU exceptions and interrupt delivery.
//!
//! An instruction that faults returns `Err(Fault)`. The execution loop then
//! puts EIP and ESP back to their values before the instruction (all other
//! state is committed only after the last point at which an instruction can
//! fault) and delivers the exception, so the handler sees the faulting
//! instruction's address, as on a 286 and later.

use vstd::prelude::*;

use super::keeps::law_delivery_keeps_rest;
use super::mem::{allows_span, is_operand_size, lemma_ref_size, Access, MemRef};
use super::paging::no_entry;
use super::regs::{Seg, SegCache, ATTR_DB, RIGHT_WRITE};
use super::seg::{
    error_of, is_null, null_selector, rpl, rpl_of, sel_error, Descriptor, INT_GATE16, INT_GATE32,
    TASK_GATE, TRAP_GATE16, TRAP_GATE32,
};
use super::state::{
    Core, Cpu, CpuFlags, CpuModel, CpuResult, CpuState, DescTable, ExceptionRecord, Fault, Rest, AC,
    CR0_ET, IF, NT, R1, RF, TF, VM,
};
use super::task::Switch;

verus! {

/// The EXT bit of an error code: the fault happened while delivering an
/// event from outside the program (a hardware interrupt or an exception).
pub const EXT: u32 = 1;

/// DR6.BS: the debug exception was the single-step trap.
pub const DR6_BS: u32 = 0x4000;

/// Exceptions kept in `Cpu::exception_log`.
pub const EXCEPTION_LOG_LEN: usize = 64;

/// Vectors of the exceptions without an error code: divide error, debug
/// exception, breakpoint, overflow, BOUND range exceeded, invalid opcode and
/// coprocessor not available.
pub const DE: u8 = 0;

pub const DB: u8 = 1;

pub const BP: u8 = 3;

pub const OVERFLOW: u8 = 4;

pub const BR: u8 = 5;

pub const UD: u8 = 6;

pub const NM: u8 = 7;

/// What raised an interrupt. Protected mode treats them differently: gate
/// privilege checks apply to software interrupts only, and external
/// interrupts set the EXT bit of error codes raised during delivery.
#[derive(Clone, Copy, Debug, PartialEq, Eq, Structural)]
pub enum IntSource {
    /// An exception raised by the CPU.
    Exception,
    /// INT n, INT3 or INTO.
    Software,
    /// A hardware interrupt from the PIC.
    External,
}

/// An exception with an error code.
pub open spec fn fault_with(vector: u8, error: u32) -> Fault {
    Fault { vector, error: Some(error) }
}

/// Segment not present.
pub open spec fn np(error: u32) -> Fault {
    fault_with(11, error)
}

/// Stack fault.
pub open spec fn ss(error: u32) -> Fault {
    fault_with(12, error)
}

/// General protection fault.
pub open spec fn gp(error: u32) -> Fault {
    fault_with(13, error)
}

/// Invalid TSS.
pub open spec fn ts(error: u32) -> Fault {
    fault_with(10, error)
}

impl Fault {
    /// An exception without an error code.
    pub fn new(vector: u8) -> (fault: Self)
        ensures
            fault == (Fault { vector, error: None }),
    {
        Fault { vector, error: None }
    }

    pub fn with_error(vector: u8, error: u32) -> (fault: Self)
        ensures
            fault == fault_with(vector, error),
    {
        Fault { vector, error: Some(error) }
    }

    /// Double fault.
    pub fn df() -> (fault: Self)
        ensures
            fault == fault_with(8, 0),
    {
        Fault::with_error(8, 0)
    }

    /// Invalid TSS.
    pub fn ts(error: u32) -> (fault: Self)
        ensures
            fault == ts(error),
    {
        Fault::with_error(10, error)
    }

    /// Segment not present.
    pub fn np(error: u32) -> (fault: Self)
        ensures
            fault == np(error),
    {
        Fault::with_error(11, error)
    }

    /// Stack fault.
    pub fn ss(error: u32) -> (fault: Self)
        ensures
            fault == ss(error),
    {
        Fault::with_error(12, error)
    }

    /// General protection fault.
    pub fn gp(error: u32) -> (fault: Self)
        ensures
            fault == gp(error),
    {
        Fault::with_error(13, error)
    }

    /// Page fault.
    pub fn pf(error: u32) -> (fault: Self)
        ensures
            fault == fault_with(14, error),
    {
        Fault::with_error(14, error)
    }

    /// Faults that make a fault during their delivery a double fault.
    fn contributory(&self) -> (yes: bool)
        ensures
            yes == contributes(*self),
    {
        self.vector == 0 || (10 <= self.vector && self.vector <= 13)
    }
}

/// Whether a fault during an exception's delivery makes a double fault of it.
pub open spec fn contributes(fault: Fault) -> bool {
    fault.vector == 0 || 10 <= fault.vector <= 13
}

/// What is delivered when the delivery of `first` faulted: a double fault for
/// two contributory faults, or for a page fault followed by a contributory or
/// page fault, else the second fault.
pub open spec fn followed_by(first: Fault, second: Fault) -> Fault {
    if (contributes(first) && contributes(second)) || (first.vector == 14 && (contributes(second)
        || second.vector == 14)) {
        fault_with(8, 0)
    } else {
        second
    }
}

/// Mnemonic of an exception vector, as in #GP.
pub open spec fn name_of(vector: u8) -> Seq<char> {
    match vector {
        0 => "#DE"@,
        1 => "#DB"@,
        2 => "NMI"@,
        3 => "#BP"@,
        4 => "#OF"@,
        5 => "#BR"@,
        6 => "#UD"@,
        7 => "#NM"@,
        8 => "#DF"@,
        10 => "#TS"@,
        11 => "#NP"@,
        12 => "#SS"@,
        13 => "#GP"@,
        14 => "#PF"@,
        16 => "#MF"@,
        17 => "#AC"@,
        _ => "#??"@,
    }
}

/// Mnemonic of an exception vector, as in #GP.
pub fn exception_name(vector: u8) -> (name: &'static str)
    ensures
        name@ == name_of(vector),
{
    match vector {
        0 => "#DE",
        1 => "#DB",
        2 => "NMI",
        3 => "#BP",
        4 => "#OF",
        5 => "#BR",
        6 => "#UD",
        7 => "#NM",
        8 => "#DF",
        10 => "#TS",
        11 => "#NP",
        12 => "#SS",
        13 => "#GP",
        14 => "#PF",
        16 => "#MF",
        17 => "#AC",
        _ => "#??",
    }
}

/// The stack pointer after `n` values of `size` bytes are pushed, as wide as
/// the stack segment says.
pub open spec fn pushed_pointer(cache: SegCache, sp: u32, size: u8, n: nat) -> u32
    decreases n,
{
    if n == 0 {
        sp
    } else {
        pushed_pointer(cache, sp, size, (n - 1) as nat).wrapping_sub(size as u32) & (if cache.attr
            & ATTR_DB != 0 {
            0xFFFF_FFFFu32
        } else {
            0xFFFFu32
        })
    }
}

/// The EXT bit that an interrupt's source gives error codes.
pub open spec fn ext_of(source: IntSource) -> u32 {
    if source == IntSource::Software {
        0
    } else {
        EXT
    }
}

/// Whether a descriptor in the IDT is one of the gates that belong there.
pub open spec fn interrupt_gate(gate: Descriptor) -> bool {
    let typ = gate.type_field();
    !gate.segment() && (typ == TASK_GATE || typ == INT_GATE16 || typ == TRAP_GATE16 || typ
        == INT_GATE32 || typ == TRAP_GATE32)
}

impl Core {
    /// The slots of a stack frame checked for writing, from the highest
    /// address down.
    pub open spec fn frame_checked(
        self,
        cache: SegCache,
        sp: u32,
        size: u8,
        fault: Fault,
        user: bool,
        n: nat,
    ) -> (Core, CpuResult<Seq<MemRef>>)
        decreases n,
    {
        if n == 0 {
            (self, Ok(Seq::empty()))
        } else {
            match self.frame_checked(cache, sp, size, fault, user, (n - 1) as nat) {
                (s, Err(f)) => (s, Err(f)),
                (s, Ok(refs)) => {
                    let at = pushed_pointer(cache, sp, size, n);
                    if !allows_span(cache, at, size as int, Access::Write) {
                        (s, Err(fault))
                    } else {
                        match s.lin_ref(cache.base.wrapping_add(at), size, Access::Write, user) {
                            (t, Err(f)) => (t, Err(f)),
                            (t, Ok(r)) => (t, Ok(refs.push(r))),
                        }
                    }
                },
            }
        }
    }

    /// The first `n` values of a frame written where they were checked.
    pub open spec fn frame_written(self, refs: Seq<MemRef>, values: Seq<u32>, n: nat) -> Core
        decreases n,
    {
        if n == 0 {
            self
        } else {
            self.frame_written(refs, values, (n - 1) as nat).with_operand(
                refs[n - 1],
                values[n - 1],
            )
        }
    }

    /// A stack frame written all or not at all, and the new stack pointer.
    #[verifier::opaque]
    pub open spec fn frame_pushed(
        self,
        cache: SegCache,
        sp: u32,
        size: u8,
        values: Seq<u32>,
        fault: Fault,
        user: bool,
    ) -> (Core, CpuResult<u32>) {
        match self.frame_checked(cache, sp, size, fault, user, values.len()) {
            (s, Err(f)) => (s, Err(f)),
            (s, Ok(refs)) => (
                s.frame_written(refs, values, values.len()),
                Ok(pushed_pointer(cache, sp, size, values.len())),
            ),
        }
    }

    /// The stack that the TSS holds for a privilege level: SS and ESP.
    #[verifier::opaque]
    pub open spec fn tss_stack(self, cpl: u8, ext: u32) -> (Core, CpuResult<(u16, u32)>) {
        let tr = self.tr;
        let (at, size) = if tr.attr & 0x08 != 0 {
            ((4 + 8 * cpl) as u32, 4u8)
        } else {
            ((2 + 4 * cpl) as u32, 2u8)
        };
        if tr.attr & 0x80 == 0 || at + size + 1 > tr.limit {
            (self, Err(ts(error_of(tr.selector) | ext)))
        } else {
            match self.sys_read(tr.base.wrapping_add(at), size) {
                (s, Err(fault)) => (s, Err(fault)),
                (s, Ok(sp)) => match s.sys_read(tr.base.wrapping_add((at + size) as u32), 2) {
                    (t, Err(fault)) => (t, Err(fault)),
                    (t, Ok(selector)) => (t, Ok((selector as u16, sp))),
                },
            }
        }
    }

    /// The stack segment for a privilege level, checked.
    #[verifier::opaque]
    pub open spec fn new_stack(self, selector: u16, cpl: u8, ext: u32) -> (
        Core,
        CpuResult<SegCache>,
    ) {
        let err = error_of(selector) | ext;
        if null_selector(selector) {
            (self, Err(ts(ext)))
        } else {
            match self.fetch(selector, ext) {
                (s, Err(fault)) => (
                    s,
                    Err(
                        if fault.vector == 13 {
                            ts(err)
                        } else {
                            fault
                        },
                    ),
                ),
                (s, Ok(desc)) => if rpl_of(selector) != cpl || desc.level() != cpl
                    || !desc.can_write() {
                    (s, Err(ts(err)))
                } else if !desc.is_present() {
                    (s, Err(ss(err)))
                } else {
                    match s.mark(selector, desc) {
                        (t, Err(fault)) => (t, Err(fault)),
                        (t, Ok(_)) => (t, Ok(desc.marked().cached(selector))),
                    }
                },
            }
        }
    }

    /// Entering a handler as real mode does.
    #[verifier::opaque]
    pub open spec fn delivered_real(self, vector: u8) -> (Core, CpuResult<()>) {
        let entry = 4 * vector as u32;
        let addr = self.idtr.base.wrapping_add(entry as u32);
        let ip = self.linear_word(addr);
        let cs = self.linear_word(addr.wrapping_add(2));
        if entry + 3 > self.idtr.limit {
            (self, Err(gp((entry + 2) as u32)))
        } else {
            match self.push_sized(2, (self.flags as u16) as u32) {
                (s, Err(fault)) => (s, Err(fault)),
                (s, Ok(_)) => match s.push_sized(2, self.cache(Seg::CS).selector as u32) {
                    (t, Err(fault)) => (t, Err(fault)),
                    (t, Ok(_)) => match t.push_sized(2, (self.eip as u16) as u32) {
                        (u, Err(fault)) => (u, Err(fault)),
                        (u, Ok(_)) => (
                            Core {
                                eip: ip as u32,
                                ..u.with_flag(IF, false).with_flag(TF, false).with_flag(
                                    AC,
                                    false,
                                ).seg_real(Seg::CS, cs)
                            },
                            Ok(()),
                        ),
                    },
                },
            }
        }
    }

    /// An interrupt's descriptor: INT n, INT3 and INTO may only use gates of
    /// their privilege.
    #[verifier::opaque]
    pub open spec fn gate_read(self, vector: u8, source: IntSource) -> (
        Core,
        CpuResult<Descriptor>,
    ) {
        let err = (8 * vector + 2 + ext_of(source)) as u32;
        if 8 * vector + 7 > self.idtr.limit {
            (self, Err(gp(err)))
        } else {
            match self.descriptor_read(self.idtr.base.wrapping_add((8 * vector) as u32)) {
                (s, Err(fault)) => (s, Err(fault)),
                (s, Ok(gate)) => if !interrupt_gate(gate) || (source == IntSource::Software
                    && gate.level() < s.cpl) {
                    (s, Err(gp(err)))
                } else if !gate.is_present() {
                    (s, Err(np(err)))
                } else {
                    (s, Ok(gate))
                },
            }
        }
    }

    /// The code segment that a gate leads to.
    #[verifier::opaque]
    pub open spec fn handler_code(self, gate: Descriptor, ext: u32) -> (
        Core,
        CpuResult<Descriptor>,
    ) {
        let selector = gate.target_selector();
        let err = error_of(selector) | ext;
        if null_selector(selector) {
            (self, Err(gp(ext)))
        } else {
            match self.fetch(selector, ext) {
                (s, Err(fault)) => (s, Err(fault)),
                (s, Ok(desc)) => if !desc.code() || desc.level() > s.cpl {
                    (s, Err(gp(err)))
                } else if !desc.is_present() {
                    (s, Err(np(err)))
                } else if gate.target_offset() > desc.byte_limit() {
                    (s, Err(gp(ext)))
                } else {
                    (s, Ok(desc))
                },
            }
        }
    }

    /// What a handler at a more privileged level finds on its stack, the
    /// first value at the highest address: from virtual-8086 mode the
    /// segment registers, then the old stack, EFLAGS, the return address
    /// and the error code.
    pub open spec fn inner_frame(self, error: Option<u32>) -> Seq<u32> {
        let segments = if self.v86() {
            seq![
                self.cache(Seg::GS).selector as u32,
                self.cache(Seg::FS).selector as u32,
                self.cache(Seg::DS).selector as u32,
                self.cache(Seg::ES).selector as u32,
            ]
        } else {
            Seq::empty()
        };
        segments + seq![self.cache(Seg::SS).selector as u32, self.esp()] + self.same_frame(error)
    }

    /// What a handler at the same level finds.
    pub open spec fn same_frame(self, error: Option<u32>) -> Seq<u32> {
        let all = seq![self.flags, self.cache(Seg::CS).selector as u32, self.eip];
        match error {
            Some(code) => all.push(code),
            None => all,
        }
    }

    /// GS, FS, DS and ES emptied.
    pub open spec fn data_segments_nulled(self) -> Core {
        let null = SegCache::spec_null(0);
        self.with_cache(Seg::GS, null).with_cache(Seg::FS, null).with_cache(
            Seg::DS,
            null,
        ).with_cache(Seg::ES, null)
    }

    /// On the stack of a more privileged level with a frame on it, in its
    /// code segment.
    #[verifier::opaque]
    pub open spec fn level_entered(
        self,
        stack: SegCache,
        esp: u32,
        sp: u32,
        from_v86: bool,
        selector: u16,
        desc: Descriptor,
    ) -> (Core, CpuResult<()>) {
        match self.mark(selector, desc) {
            (s, Err(fault)) => (s, Err(fault)),
            (s, Ok(_)) => {
                let t = s.with_cache(Seg::SS, stack).with_esp(esp).with_stack_ptr(sp);
                (if from_v86 {
                    t.data_segments_nulled()
                } else {
                    t
                }).cs_loaded(selector, desc.marked(), desc.level())
            },
        }
    }

    /// To a handler at a more privileged level, on the stack the TSS holds
    /// for it. From virtual-8086 mode that must be level 0.
    #[verifier::opaque]
    pub open spec fn inner_handler(
        self,
        selector: u16,
        desc: Descriptor,
        size: u8,
        error: Option<u32>,
        ext: u32,
    ) -> (Core, CpuResult<()>) {
        let level = desc.level();
        if self.v86() && level != 0 {
            (self, Err(gp(error_of(selector) | ext)))
        } else {
            match self.tss_stack(level, ext) {
                (s, Err(fault)) => (s, Err(fault)),
                (s, Ok((stack_sel, esp))) => match s.new_stack(stack_sel, level, ext) {
                    (t, Err(fault)) => (t, Err(fault)),
                    (t, Ok(stack)) => match t.frame_pushed(
                        stack,
                        esp,
                        size,
                        self.inner_frame(error),
                        ss(error_of(stack_sel) | ext),
                        level == 3,
                    ) {
                        (u, Err(fault)) => (u, Err(fault)),
                        (u, Ok(sp)) => u.level_entered(
                            stack,
                            esp,
                            sp,
                            self.v86(),
                            selector,
                            desc,
                        ),
                    },
                },
            }
        }
    }

    /// To a handler at the same level, or a conforming one, on the current
    /// stack.
    #[verifier::opaque]
    pub open spec fn same_handler(
        self,
        selector: u16,
        desc: Descriptor,
        size: u8,
        error: Option<u32>,
        ext: u32,
    ) -> (Core, CpuResult<()>) {
        if self.v86() {
            (self, Err(gp(error_of(selector) | ext)))
        } else {
            match self.frame_pushed(
                self.cache(Seg::SS),
                self.stack_ptr(),
                size,
                self.same_frame(error),
                ss(ext),
                self.cpl == 3,
            ) {
                (s, Err(fault)) => (s, Err(fault)),
                (s, Ok(sp)) => match s.mark(selector, desc) {
                    (t, Err(fault)) => (t, Err(fault)),
                    (t, Ok(_)) => t.with_stack_ptr(sp).cs_loaded(
                        selector,
                        desc.marked(),
                        self.cpl,
                    ),
                },
            }
        }
    }

    /// Through an interrupt or trap gate.
    #[verifier::opaque]
    pub open spec fn gate_entered(self, gate: Descriptor, error: Option<u32>, ext: u32) -> (
        Core,
        CpuResult<()>,
    ) {
        let selector = gate.target_selector();
        let size: u8 = if gate.wide_system() {
            4
        } else {
            2
        };
        match self.handler_code(gate, ext) {
            (s, Err(fault)) => (s, Err(fault)),
            (s, Ok(desc)) => {
                let (t, done) = if !desc.conforming_code() && desc.level() < s.cpl {
                    s.inner_handler(selector, desc, size, error, ext)
                } else {
                    s.same_handler(selector, desc, size, error, ext)
                };
                if done is Err {
                    (t, done)
                } else {
                    (t.handler_started(gate), Ok(()))
                }
            },
        }
    }

    /// In the handler: single-stepping, nesting and virtual-8086 mode end,
    /// and an interrupt gate keeps hardware interrupts out.
    pub open spec fn handler_started(self, gate: Descriptor) -> Core {
        let s = Core {
            eip: gate.target_offset(),
            flags: self.flags & !(TF | NT | RF | VM),
            ..self
        };
        if gate.type_field() == INT_GATE16 || gate.type_field() == INT_GATE32 {
            s.with_flag(IF, false)
        } else {
            s
        }
    }

    /// Entering a handler as protected mode does.
    pub open spec fn delivered_pm(self, vector: u8, source: IntSource, error: Option<u32>) -> (
        Core,
        CpuResult<()>,
    ) {
        match self.gate_read(vector, source) {
            (s, Err(fault)) => (s, Err(fault)),
            (s, Ok(gate)) => if gate.type_field() == TASK_GATE {
                s.task_gate_taken(
                    gate.target_selector(),
                    Switch::Interrupt(error),
                    ext_of(source),
                )
            } else {
                s.gate_entered(gate, error, ext_of(source))
            },
        }
    }

    /// Entering the handler of an interrupt.
    #[verifier::opaque]
    pub open spec fn delivered(self, vector: u8, source: IntSource, error: Option<u32>) -> (
        Core,
        CpuResult<()>,
    ) {
        if self.pe() {
            self.delivered_pm(vector, source, error)
        } else {
            self.delivered_real(vector)
        }
    }

    /// EIP and ESP as they were.
    pub open spec fn put_back(self, eip: u32, esp: u32) -> Core {
        Core { eip, ..self.with_esp(esp) }
    }

    /// The record of an exception raised now.
    pub open spec fn record(self, fault: Fault) -> ExceptionRecord {
        ExceptionRecord {
            vector: fault.vector,
            error: fault.error,
            cs: self.cache(Seg::CS).selector,
            eip: self.eip,
            cr2: self.cr2,
            protected: self.pe(),
            icount: self.rest.executed,
        }
    }

    /// An exception counted and kept in the log, the newest at the end.
    pub open spec fn noted(self, fault: Fault) -> Core {
        let log = self.rest.exception_log;
        let kept = if log.len() == EXCEPTION_LOG_LEN {
            log.subrange(1, log.len() as int)
        } else {
            log
        };
        Core {
            rest: Rest {
                exceptions: (self.rest.exceptions + 1) as u64,
                exception_log: kept.push(self.record(fault)),
                ..self.rest
            },
            ..self
        }
    }

    /// The system state of a reset.
    pub open spec fn real_mode(self) -> Core {
        Core {
            cr0: CR0_ET,
            cr2: 0,
            cr3: 0,
            gdtr: DescTable { base: 0, limit: 0xFFFF },
            idtr: DescTable { base: 0, limit: 0x3FF },
            ldtr: SegCache::spec_null(0),
            tr: SegCache::spec_null(0),
            seg: Seq::new(6, |i: int| SegCache::spec_real(0)),
            flags: self.flags & !(VM | NT | RF),
            cpl: 0,
            tlb: Seq::new(2048, |i: int| no_entry()),
            irq_shadow: false,
            ..self
        }
    }

    /// The processor after a reset: at the BIOS reset entry, with its
    /// signature in DX.
    pub open spec fn after_reset(self) -> Core {
        let signature: u32 = match self.model {
            CpuModel::I386 => 0x0303,
            CpuModel::I486 => 0x0402,
        };
        let s = Core {
            gpr: Seq::new(
                8,
                |i: int|
                    if i == 2 {
                        signature
                    } else {
                        0
                    },
            ),
            flags: R1,
            ..self
        }.real_mode();
        Core {
            eip: 0xFFF0,
            rest: Rest { state: CpuState::Running, ..s.rest },
            ..s.with_cache(Seg::CS, SegCache::spec_real(0xF000))
        }
    }

    /// An exception delivered, or what its delivery raises in turn, in at
    /// most `n` attempts; a reset where a double fault cannot be delivered.
    pub open spec fn raised(self, fault: Fault, n: nat) -> Core
        decreases n,
    {
        if n == 0 {
            self.after_reset()
        } else {
            match self.delivered(
                fault.vector,
                IntSource::Exception,
                if self.pe() {
                    fault.error
                } else {
                    None
                },
            ) {
                (s, Ok(_)) => s,
                (s, Err(second)) => {
                    let t = s.put_back(self.eip, self.esp());
                    if fault.vector == 8 {
                        t.after_reset()
                    } else {
                        t.raised(followed_by(fault, second), (n - 1) as nat)
                    }
                },
            }
        }
    }
}

/// Where a slot cannot be written, the frame cannot.
proof fn lemma_frame_stops(
    s: Core,
    cache: SegCache,
    sp: u32,
    size: u8,
    fault: Fault,
    user: bool,
    n: nat,
    m: nat,
)
    requires
        n <= m,
    ensures
        s.frame_checked(cache, sp, size, fault, user, n).1 matches Err(f) ==> s.frame_checked(
            cache,
            sp,
            size,
            fault,
            user,
            m,
        ) == (s.frame_checked(cache, sp, size, fault, user, n).0, Err::<Seq<MemRef>, Fault>(f)),
    decreases m,
{
    if n < m {
        lemma_frame_stops(s, cache, sp, size, fault, user, n, (m - 1) as nat);
    }
}

impl Cpu {
    /// Enter the handler of interrupt `vector`. `EIP` is the return
    /// address: the faulting instruction for faults, the next instruction
    /// for traps and hardware interrupts. `error` is the error code
    /// exceptions push in protected mode.
    pub fn deliver_interrupt(&mut self, vector: u8, source: IntSource, error: Option<u32>) -> (done:
        CpuResult<()>)
        ensures
            final(self)@ == old(self)@.delivered(vector, source, error).0,
            done == old(self)@.delivered(vector, source, error).1,
    {
        reveal(Core::delivered);
        if self.pe() {
            self.deliver_pm(vector, source, error)
        } else {
            self.deliver_real(vector)
        }
    }

    /// Real mode: push the flags and the return address and jump through
    /// the interrupt vector table.
    fn deliver_real(&mut self, vector: u8) -> (done: CpuResult<()>)
        ensures
            final(self)@ == old(self)@.delivered_real(vector).0,
            done == old(self)@.delivered_real(vector).1,
    {
        reveal(Core::delivered_real);
        // The vector table at IDTR.base, four bytes per vector.
        let entry: u32 = vector as u32 * 4;
        if entry + 3 > self.idtr.limit as u32 {
            return Err(Fault::gp(entry + 2));
        }
        let addr: u32 = self.idtr.base.wrapping_add(entry);
        let target_ip: u16 = self.read_linear_u16(addr);
        let target_cs: u16 = self.read_linear_u16(addr.wrapping_add(2));
        let flags: u16 = self.flags16();
        let cs: u16 = self.cs();
        let ip: u16 = self.ip();
        self.push_sized(2, flags as u32)?;
        self.push_sized(2, cs as u32)?;
        self.push_sized(2, ip as u32)?;
        self.set_cpu_flag(IF, false);
        self.set_cpu_flag(TF, false);
        self.set_cpu_flag(AC, false);
        self.load_seg_real(Seg::CS, target_cs);
        self.set_ip(target_ip);
        Ok(())
    }

    fn read_gate(&mut self, vector: u8, source: IntSource) -> (gate: CpuResult<Descriptor>)
        ensures
            final(self)@ == old(self)@.gate_read(vector, source).0,
            gate == old(self)@.gate_read(vector, source).1,
    {
        reveal(Core::gate_read);
        let ext: u32 = if source == IntSource::Software {
            0
        } else {
            EXT
        };
        let idt_error: u32 = vector as u32 * 8 + 2 + ext;
        if vector as u32 * 8 + 7 > self.idtr.limit as u32 {
            return Err(Fault::gp(idt_error));
        }
        let entry: u32 = self.idtr.base.wrapping_add(vector as u32 * 8);
        let gate = self.read_descriptor(entry)?;
        let typ: u8 = gate.typ();
        if gate.is_segment() || !(typ == TASK_GATE || typ == INT_GATE16 || typ == TRAP_GATE16 || typ
            == INT_GATE32 || typ == TRAP_GATE32) {
            return Err(Fault::gp(idt_error));
        }
        // INT n, INT3 and INTO may only use gates of their privilege.
        if source == IntSource::Software && gate.dpl() < self.cpl {
            return Err(Fault::gp(idt_error));
        }
        if !gate.present() {
            return Err(Fault::np(idt_error));
        }
        Ok(gate)
    }

    fn fetch_handler(&mut self, gate: Descriptor, ext: u32) -> (desc: CpuResult<Descriptor>)
        ensures
            final(self)@ == old(self)@.handler_code(gate, ext).0,
            desc == old(self)@.handler_code(gate, ext).1,
    {
        reveal(Core::handler_code);
        let selector: u16 = gate.gate_selector();
        if is_null(selector) {
            return Err(Fault::gp(ext));
        }
        let desc = self.fetch_descriptor(selector, ext)?;
        let sel_err: u32 = sel_error(selector) | ext;
        if !desc.is_code() || desc.dpl() > self.cpl {
            return Err(Fault::gp(sel_err));
        }
        if !desc.present() {
            return Err(Fault::np(sel_err));
        }
        if gate.gate_offset() > desc.limit() {
            return Err(Fault::gp(ext));
        }
        Ok(desc)
    }

    fn inner_frame(&self, error: Option<u32>) -> (frame: Vec<u32>)
        ensures
            frame@ == self@.inner_frame(error),
    {
        let mut frame: Vec<u32> = Vec::new();
        if self.v86() {
            frame.push(self.gs() as u32);
            frame.push(self.fs() as u32);
            frame.push(self.ds() as u32);
            frame.push(self.es() as u32);
        }
        frame.push(self.ss() as u32);
        frame.push(self.esp());
        frame.push(self.flags.bits);
        frame.push(self.cs() as u32);
        frame.push(self.eip);
        if let Some(code) = error {
            frame.push(code);
        }
        assert(frame@ =~= self@.inner_frame(error));
        frame
    }

    fn same_frame(&self, error: Option<u32>) -> (frame: Vec<u32>)
        ensures
            frame@ == self@.same_frame(error),
    {
        let mut frame: Vec<u32> = Vec::new();
        frame.push(self.flags.bits);
        frame.push(self.cs() as u32);
        frame.push(self.eip);
        if let Some(code) = error {
            frame.push(code);
        }
        assert(frame@ =~= self@.same_frame(error));
        frame
    }

    fn null_data_segments(&mut self)
        ensures
            final(self)@ == old(self)@.data_segments_nulled(),
    {
        self.set_seg_cache(Seg::GS, SegCache::null(0));
        self.set_seg_cache(Seg::FS, SegCache::null(0));
        self.set_seg_cache(Seg::DS, SegCache::null(0));
        self.set_seg_cache(Seg::ES, SegCache::null(0));
    }

    /// Switch to the stack and the code segment of a more privileged level.
    pub(crate) fn enter_level(
        &mut self,
        stack: SegCache,
        esp: u32,
        sp: u32,
        from_v86: bool,
        selector: u16,
        desc: Descriptor,
    ) -> (done: CpuResult<()>)
        ensures
            final(self)@ == old(self)@.level_entered(stack, esp, sp, from_v86, selector, desc).0,
            done == old(self)@.level_entered(stack, esp, sp, from_v86, selector, desc).1,
    {
        reveal(Core::level_entered);
        let mut desc = desc;
        let level: u8 = desc.dpl();
        self.mark_accessed(selector, &mut desc)?;
        self.set_seg_cache(Seg::SS, stack);
        self.set_esp(esp);
        self.set_stack_ptr(sp);
        if from_v86 {
            self.null_data_segments();
        }
        self.load_cs_pm(selector, &mut desc, level)
    }

    fn enter_inner_handler(
        &mut self,
        selector: u16,
        desc: Descriptor,
        size: u8,
        error: Option<u32>,
        ext: u32,
    ) -> (done: CpuResult<()>)
        requires
            size == 2 || size == 4,
        ensures
            final(self)@ == old(self)@.inner_handler(selector, desc, size, error, ext).0,
            done == old(self)@.inner_handler(selector, desc, size, error, ext).1,
    {
        reveal(Core::inner_handler);
        // To a more privileged handler, on the stack the TSS holds for its
        // level. From virtual-8086 mode that must be level 0, and the
        // real-mode segment registers are saved too.
        let new_cpl: u8 = desc.dpl();
        let v86 = self.v86();
        if v86 && new_cpl != 0 {
            return Err(Fault::gp(sel_error(selector) | ext));
        }
        let frame: Vec<u32> = self.inner_frame(error);
        let (ss_sel, esp): (u16, u32) = self.tss_stack(new_cpl, ext)?;
        let ss_cache = self.check_new_stack(ss_sel, new_cpl, ext)?;
        let ss_fault = Fault::ss(sel_error(ss_sel) | ext);
        let sp: u32 = self.push_frame(
            &ss_cache,
            esp,
            size,
            frame.as_slice(),
            ss_fault,
            new_cpl == 3,
        )?;
        self.enter_level(ss_cache, esp, sp, v86, selector, desc)
    }

    fn enter_same_handler(
        &mut self,
        selector: u16,
        desc: Descriptor,
        size: u8,
        error: Option<u32>,
        ext: u32,
    ) -> (done: CpuResult<()>)
        requires
            size == 2 || size == 4,
        ensures
            final(self)@ == old(self)@.same_handler(selector, desc, size, error, ext).0,
            done == old(self)@.same_handler(selector, desc, size, error, ext).1,
    {
        reveal(Core::same_handler);
        if self.v86() {
            return Err(Fault::gp(sel_error(selector) | ext));
        }
        // Same privilege level (or a conforming handler): the current stack.
        let mut desc = desc;
        let cpl: u8 = self.cpl;
        let frame: Vec<u32> = self.same_frame(error);
        let ss_cache = self.seg_cache(Seg::SS);
        let sp: u32 = self.stack_ptr();
        let sp: u32 = self.push_frame(
            &ss_cache,
            sp,
            size,
            frame.as_slice(),
            Fault::ss(ext),
            cpl == 3,
        )?;
        self.mark_accessed(selector, &mut desc)?;
        self.set_stack_ptr(sp);
        self.load_cs_pm(selector, &mut desc, cpl)
    }

    fn enter_gate(&mut self, gate: Descriptor, error: Option<u32>, ext: u32) -> (done: CpuResult<
        (),
    >)
        ensures
            final(self)@ == old(self)@.gate_entered(gate, error, ext).0,
            done == old(self)@.gate_entered(gate, error, ext).1,
    {
        reveal(Core::gate_entered);
        let selector: u16 = gate.gate_selector();
        let desc = self.fetch_handler(gate, ext)?;
        let size: u8 = if gate.is_32bit_system() {
            4
        } else {
            2
        };
        if !desc.conforming() && desc.dpl() < self.cpl {
            self.enter_inner_handler(selector, desc, size, error, ext)?;
        } else {
            self.enter_same_handler(selector, desc, size, error, ext)?;
        }
        self.start_handler(gate);
        Ok(())
    }

    fn start_handler(&mut self, gate: Descriptor)
        ensures
            final(self)@ == old(self)@.handler_started(gate),
    {
        let typ: u8 = gate.typ();
        self.eip = gate.gate_offset();
        self.flags = CpuFlags { bits: self.flags.bits & !(TF | NT | RF | VM) };
        if typ == INT_GATE16 || typ == INT_GATE32 {
            self.set_cpu_flag(IF, false);
        }
    }

    /// Protected mode: enter the handler through the interrupt or trap gate
    /// in the IDT, switching to the stack in the TSS for a handler at a
    /// more privileged level, or switch tasks through a task gate.
    fn deliver_pm(&mut self, vector: u8, source: IntSource, error: Option<u32>) -> (done: CpuResult<
        (),
    >)
        ensures
            final(self)@ == old(self)@.delivered_pm(vector, source, error).0,
            done == old(self)@.delivered_pm(vector, source, error).1,
    {
        let ext: u32 = if source == IntSource::Software {
            0
        } else {
            EXT
        };
        let gate = self.read_gate(vector, source)?;
        if gate.typ() == TASK_GATE {
            return self.task_gate(gate.gate_selector(), Switch::Interrupt(error), ext);
        }
        self.enter_gate(gate, error, ext)
    }

    /// Check and write the values of a stack frame, the first value at the
    /// highest address, onto the stack `cache` describes, starting below
    /// `sp`. Returns the new stack pointer. Nothing is written unless every
    /// slot can be: a slot outside the segment raises `fault`, one on an
    /// unmapped page a page fault.
    pub(crate) fn push_frame(
        &mut self,
        cache: &SegCache,
        sp: u32,
        size: u8,
        values: &[u32],
        fault: Fault,
        user: bool,
    ) -> (pointer: CpuResult<u32>)
        requires
            is_operand_size(size),
        ensures
            final(self)@ == old(self)@.frame_pushed(*cache, sp, size, values@, fault, user).0,
            pointer == old(self)@.frame_pushed(*cache, sp, size, values@, fault, user).1,
    {
        reveal(Core::frame_pushed);
        let mask: u32 = if cache.attr & ATTR_DB != 0 {
            0xFFFF_FFFF
        } else {
            0xFFFF
        };
        let mut refs: Vec<MemRef> = Vec::new();
        let mut at: u32 = sp;
        let mut i: usize = 0;
        while i < values.len()
            invariant
                i <= values@.len(),
                i == refs@.len(),
                is_operand_size(size),
                mask == (if cache.attr & ATTR_DB != 0 {
                    0xFFFF_FFFFu32
                } else {
                    0xFFFFu32
                }),
                at == pushed_pointer(*cache, sp, size, i as nat),
                forall|k: int| 0 <= k < refs@.len() ==> (#[trigger] refs@[k]).size == size,
                old(self)@.frame_checked(*cache, sp, size, fault, user, i as nat) == (
                    self@,
                    Ok::<Seq<MemRef>, Fault>(refs@),
                ),
                old(self)@.frame_pushed(*cache, sp, size, values@, fault, user) == (
                match old(self)@.frame_checked(*cache, sp, size, fault, user, values@.len()) {
                    (s, Err(f)) => (s, Err(f)),
                    (s, Ok(refs)) => (
                        s.frame_written(refs, values@, values@.len()),
                        Ok(pushed_pointer(*cache, sp, size, values@.len())),
                    ),
                }),
            decreases values.len() - i,
        {
            proof {
                lemma_frame_stops(
                    old(self)@,
                    *cache,
                    sp,
                    size,
                    fault,
                    user,
                    (i + 1) as nat,
                    values@.len(),
                );
            }
            at = at.wrapping_sub(size as u32) & mask;
            let last: u32 = at.wrapping_add(size as u32 - 1);
            if at < cache.lo || last > cache.hi || last < at || cache.rights & RIGHT_WRITE == 0 {
                return Err(fault);
            }
            let lin: u32 = cache.base.wrapping_add(at);
            proof {
                lemma_ref_size(self@, lin, size, Access::Write, user);
            }
            let r = self.lin_ref(lin, size, Access::Write, user)?;
            refs.push(r);
            i = i + 1;
        }
        let ghost checked = self@;
        let mut k: usize = 0;
        while k < values.len()
            invariant
                k <= values@.len(),
                values@.len() == refs@.len(),
                is_operand_size(size),
                forall|j: int| 0 <= j < refs@.len() ==> (#[trigger] refs@[j]).size == size,
                self@ == checked.frame_written(refs@, values@, k as nat),
            decreases values.len() - k,
        {
            self.mem_write(refs[k], values[k]);
            k = k + 1;
        }
        Ok(at)
    }

    /// The stack pointer for privilege level `cpl` in the current TSS.
    pub(crate) fn tss_stack(&mut self, cpl: u8, ext: u32) -> (stack: CpuResult<(u16, u32)>)
        ensures
            final(self)@ == old(self)@.tss_stack(cpl, ext).0,
            stack == old(self)@.tss_stack(cpl, ext).1,
    {
        reveal(Core::tss_stack);
        let tr = self.tr;
        let fault = Fault::ts(sel_error(tr.selector) | ext);
        // 32-bit TSS: ESPn at 4 + 8n, SSn at 8 + 8n. 16-bit TSS: SPn at
        // 2 + 4n, SSn at 4 + 4n.
        let (at, size): (u32, u8) = if tr.attr & 0x08 != 0 {
            (4 + 8 * cpl as u32, 4)
        } else {
            (2 + 4 * cpl as u32, 2)
        };
        if tr.attr & 0x80 == 0 || at + size as u32 + 1 > tr.limit {
            return Err(fault);
        }
        let esp: u32 = self.sys_read(tr.base.wrapping_add(at), size)?;
        let ss: u32 = self.sys_read(tr.base.wrapping_add(at + size as u32), 2)?;
        Ok((ss as u16, esp))
    }

    /// Check the stack segment a switch to privilege level `cpl` takes
    /// from the TSS, and return the cache to load.
    pub(crate) fn check_new_stack(&mut self, selector: u16, cpl: u8, ext: u32) -> (cache: CpuResult<
        SegCache,
    >)
        ensures
            final(self)@ == old(self)@.new_stack(selector, cpl, ext).0,
            cache == old(self)@.new_stack(selector, cpl, ext).1,
    {
        reveal(Core::new_stack);
        let err: u32 = sel_error(selector) | ext;
        if is_null(selector) {
            return Err(Fault::ts(ext));
        }
        let mut desc = match self.fetch_descriptor(selector, ext) {
            Ok(desc) => desc,
            Err(fault) => {
                return Err(
                    if fault.vector == 13 {
                        Fault::ts(err)
                    } else {
                        fault
                    },
                );
            },
        };
        if rpl(selector) != cpl || desc.dpl() != cpl || !desc.writable_data() {
            return Err(Fault::ts(err));
        }
        if !desc.present() {
            return Err(Fault::ss(err));
        }
        self.mark_accessed(selector, &mut desc)?;
        Ok(desc.cache(selector))
    }

    /// The single-step trap after an instruction that began with TF set:
    /// DR6.BS, and the debug exception's handler entered with EIP at the
    /// next instruction. It stays out of the exception log, as a program
    /// that traces itself raises one for every instruction it runs.
    pub fn single_step_trap(&mut self)
        requires
            old(self).exceptions < u64::MAX,
        ensures
            ({
                let s = old(self)@;
                let t = Core {
                    rest: Rest { dr: s.rest.dr.update(6, s.rest.dr[6] | DR6_BS), ..s.rest },
                    ..s
                };
                match t.delivered(DB, IntSource::Exception, None) {
                    (u, Ok(_)) => final(self)@ == u,
                    (u, Err(fault)) => final(self)@ == u.put_back(s.eip, s.esp()).noted(
                        fault,
                    ).raised(fault, 8),
                }
            }),
    {
        self.dr[6] = self.dr[6] | DR6_BS;
        let (eip, esp): (u32, u32) = (self.eip, self.esp());
        proof {
            law_delivery_keeps_rest(self@, DB, IntSource::Exception, None);
        }
        if let Err(fault) = self.deliver_interrupt(DB, IntSource::Exception, None) {
            self.eip = eip;
            self.set_esp(esp);
            self.raise(fault);
        }
    }

    /// Deliver the exception raised by an instruction. When its delivery
    /// faults, the second fault is delivered instead, or a double fault
    /// for two contributory faults (or a page fault followed by a
    /// contributory or page fault), and a shutdown when the double fault
    /// can't be delivered either.
    pub fn raise(&mut self, fault: Fault)
        requires
            old(self).exceptions < u64::MAX,
        ensures
            final(self)@ == old(self)@.noted(fault).raised(fault, 8),
    {
        self.note_exception(fault);
        let mut current = fault;
        let mut n: u32 = 8;
        let ghost goal = self@.raised(fault, 8);
        while n > 0
            invariant
                n <= 8,
                self@.raised(current, n as nat) == goal,
                old(self)@.noted(fault).raised(fault, 8) == goal,
            decreases n,
        {
            let (eip, esp): (u32, u32) = (self.eip, self.esp());
            let error: Option<u32> = self.error_code(current);
            match self.deliver_interrupt(current.vector, IntSource::Exception, error) {
                Ok(()) => {
                    return;
                },
                Err(second) => {
                    self.eip = eip;
                    self.set_esp(esp);
                    if current.vector == 8 {
                        self.shutdown();
                        return;
                    }
                    let double = (current.contributory() && second.contributory()) || (
                    current.vector == 14 && (second.contributory() || second.vector == 14));
                    current = if double {
                        Fault::df()
                    } else {
                        second
                    };
                },
            }
            n = n - 1;
        }
        self.shutdown();
    }

    /// Keep a record of an exception for debuggers.
    fn note_exception(&mut self, fault: Fault)
        requires
            old(self).exceptions < u64::MAX,
        ensures
            final(self)@ == old(self)@.noted(fault),
    {
        self.exceptions = self.exceptions + 1;
        let record = ExceptionRecord {
            vector: fault.vector,
            error: fault.error,
            cs: self.cs(),
            eip: self.eip,
            cr2: self.cr2,
            protected: self.pe(),
            icount: self.executed,
        };
        if self.exception_log.len() == EXCEPTION_LOG_LEN {
            self.exception_log.pop_front();
        }
        self.exception_log.push_back(record);
    }

    /// The error code an exception pushes: in protected mode only.
    fn error_code(&self, fault: Fault) -> (error: Option<u32>)
        ensures
            error == (if self@.pe() {
                fault.error
            } else {
                None
            }),
    {
        if self.pe() {
            fault.error
        } else {
            None
        }
    }

    /// Triple fault: the processor stops, and an AT's chipset turns that
    /// into a reset.
    pub fn shutdown(&mut self)
        ensures
            final(self)@ == old(self)@.after_reset(),
    {
        self.reset();
    }

    /// The processor's state after a reset: real mode, interrupts off,
    /// executing the BIOS reset entry at F000:FFF0, which decides from the
    /// CMOS shutdown code whether to resume a program or start over.
    pub fn reset(&mut self)
        ensures
            final(self)@ == old(self)@.after_reset(),
    {
        // DX holds the processor signature: family and stepping.
        let signature: u32 = match self.model {
            CpuModel::I386 => 0x0303,
            CpuModel::I486 => 0x0402,
        };
        self.gpr = [0, 0, signature, 0, 0, 0, 0, 0];
        assert(self@.gpr =~= old(self)@.after_reset().gpr);
        self.flags = CpuFlags { bits: R1 };
        self.reset_to_real_mode();
        self.set_seg_cache(Seg::CS, SegCache::real_mode(0xF000));
        self.eip = 0xFFF0;
        self.state = CpuState::Running;
    }

    /// The system state of a reset, keeping the registers: real mode,
    /// paging off, the descriptor tables at their power-on values and
    /// real-mode segments. The shell starts from it however the last
    /// program left the processor.
    pub fn reset_to_real_mode(&mut self)
        ensures
            final(self)@ == old(self)@.real_mode(),
    {
        self.cr0 = CR0_ET;
        self.cr2 = 0;
        self.cr3 = 0;
        self.gdtr = DescTable { base: 0, limit: 0xFFFF };
        self.idtr = DescTable { base: 0, limit: 0x3FF };
        self.ldtr = SegCache::null(0);
        self.tr = SegCache::null(0);
        self.seg = [SegCache::real_mode(0);6];
        assert(self@.seg =~= Seq::new(6, |i: int| SegCache::spec_real(0)));
        self.flags = CpuFlags { bits: self.flags.bits & !(VM | NT | RF) };
        self.cpl = 0;
        self.tlb.flush();
        self.irq_shadow = false;
    }
}

/// An interrupt in real mode goes to the offset that the first word of its
/// vector holds, four bytes for each; a vector past the table's limit faults
/// and changes nothing.
pub proof fn law_real_interrupts_go_by_the_table(s: Core, vector: u8)
    requires
        s.idtr.base + 4 * vector + 2 <= u32::MAX,
    ensures
        ({
            let (t, r) = s.delivered_real(vector);
            let at = s.idtr.base + 4 * vector;
            &&& r is Ok ==> t.eip == s.linear_word(at as u32)
            &&& r is Ok ==> at + 3 <= s.idtr.base + s.idtr.limit
            &&& at + 3 > s.idtr.base + s.idtr.limit ==> r is Err && t == s
        }),
{
    reveal(Core::delivered_real);
}

} // verus!
