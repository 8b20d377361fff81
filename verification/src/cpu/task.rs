//! Hardware task switching: JMP and CALL to a TSS or task gate, interrupts
//! through a task gate, and IRET with NT set back to the calling task.
//! Both TSS formats are supported: the 286's 16-bit one and the 386's.

use vstd::prelude::*;

use super::fault::{gp, np, ss, ts};
use super::mem::is_operand_size;
use super::paging::no_entry;
use super::regs::{Seg, SegCache};
use super::seg::{
    error_of, is_null, null_selector, rpl, rpl_of, sel_error, Descriptor, LDT, TASK_GATE,
    TSS16_AVAILABLE, TSS16_BUSY, TSS32_AVAILABLE, TSS32_BUSY,
};
use super::state::{
    Core, Cpu, CpuFlags, CpuResult, Fault, CR0_PG, CR0_TS, NT, R1, VM,
};

verus! {

/// What started a task switch.
#[derive(Clone, Copy, Debug, PartialEq, Eq, Structural)]
pub enum Switch {
    Jmp,
    Call,
    /// IRET with NT set: back to the task in the back link.
    Iret,
    /// An interrupt or exception through a task gate, with the error code
    /// it pushes on the new task's stack.
    Interrupt(Option<u32>),
}

/// Offsets of the registers in a 32-bit TSS.
pub const TSS32_CR3: u32 = 0x1C;

pub const TSS32_EIP: u32 = 0x20;

pub const TSS32_EFLAGS: u32 = 0x24;

pub const TSS32_GPR: u32 = 0x28;

pub const TSS32_SEG: u32 = 0x48;

pub const TSS32_LDT: u32 = 0x60;

/// Offsets in a 16-bit TSS.
pub const TSS16_IP: u32 = 0x0E;

pub const TSS16_FLAGS: u32 = 0x10;

pub const TSS16_GPR: u32 = 0x12;

pub const TSS16_SEG: u32 = 0x22;

pub const TSS16_LDT: u32 = 0x2A;

/// The bit of a TSS descriptor that says its task is busy.
pub const BUSY_BIT: u64 = 0x0000_0200_0000_0000;

/// The state of a task, as its TSS holds it.
pub struct TaskState {
    pub cr3: Option<u32>,
    pub eip: u32,
    pub eflags: u32,
    pub gpr: [u32; 8],
    /// ES, CS, SS, DS, FS, GS.
    pub sels: [u16; 6],
    pub ldt: u16,
}

/// The state of a task.
pub struct Task {
    pub cr3: Option<u32>,
    pub eip: u32,
    pub eflags: u32,
    pub gpr: Seq<u32>,
    pub sels: Seq<u16>,
    pub ldt: u16,
}

impl View for TaskState {
    type V = Task;

    open spec fn view(&self) -> Task {
        Task {
            cr3: self.cr3,
            eip: self.eip,
            eflags: self.eflags,
            gpr: self.gpr@,
            sels: self.sels@,
            ldt: self.ldt,
        }
    }
}

/// A task's segment registers before their descriptors were looked at: the
/// selectors, with nothing accessible through them outside of virtual-8086
/// mode.
pub open spec fn bare_segments(sels: Seq<u16>, v86: bool) -> Seq<SegCache> {
    Seq::new(
        6,
        |i: int|
            if v86 {
                SegCache::spec_real(sels[i])
            } else {
                SegCache::spec_null(sels[i])
            },
    )
}

/// A task's segment registers in virtual-8086 mode.
pub open spec fn v86_segments(sels: Seq<u16>) -> Seq<SegCache> {
    Seq::new(
        6,
        |i: int|
            SegCache::loaded(sels[i], (sels[i] as u32) << 4, 0xFFFF, super::regs::AR_DATA_RW_V86),
    )
}

/// Whether a descriptor is that of a task that can be entered.
pub open spec fn available_task(desc: Descriptor) -> bool {
    !desc.segment() && (desc.type_field() == TSS16_AVAILABLE || desc.type_field()
        == TSS32_AVAILABLE)
}

impl Core {
    /// `n` values of a system structure, `stride` bytes apart.
    pub open spec fn row_read(self, base: u32, offset: u32, stride: u32, size: u8, n: nat) -> (
        Core,
        CpuResult<Seq<u32>>,
    )
        decreases n,
    {
        if n == 0 {
            (self, Ok(Seq::empty()))
        } else {
            match self.row_read(base, offset, stride, size, (n - 1) as nat) {
                (s, Err(fault)) => (s, Err(fault)),
                (s, Ok(values)) => match s.sys_read(
                    base.wrapping_add((offset + stride * (n - 1)) as u32),
                    size,
                ) {
                    (t, Err(fault)) => (t, Err(fault)),
                    (t, Ok(value)) => (t, Ok(values.push(value))),
                },
            }
        }
    }

    /// The first `n` of `values` written to a system structure, `stride`
    /// bytes apart.
    pub open spec fn row_written(
        self,
        base: u32,
        offset: u32,
        stride: u32,
        size: u8,
        values: Seq<u32>,
        n: nat,
    ) -> (Core, CpuResult<()>)
        decreases n,
    {
        if n == 0 {
            (self, Ok(()))
        } else {
            match self.row_written(base, offset, stride, size, values, (n - 1) as nat) {
                (s, Err(fault)) => (s, Err(fault)),
                (s, Ok(_)) => s.sys_write(
                    base.wrapping_add((offset + stride * (n - 1)) as u32),
                    size,
                    values[n - 1],
                ),
            }
        }
    }

    /// The task that a 32-bit TSS holds.
    #[verifier::opaque]
    pub open spec fn task32_read(self, base: u32) -> (Core, CpuResult<Task>) {
        match self.row_read(base, TSS32_CR3, 4, 4, 3) {
            (s, Err(fault)) => (s, Err(fault)),
            (s, Ok(head)) => match s.row_read(base, TSS32_GPR, 4, 4, 8) {
                (t, Err(fault)) => (t, Err(fault)),
                (t, Ok(gpr)) => match t.row_read(base, TSS32_SEG, 4, 2, 7) {
                    (u, Err(fault)) => (u, Err(fault)),
                    (u, Ok(sels)) => (
                        u,
                        Ok(
                            Task {
                                cr3: Some(head[0]),
                                eip: head[1],
                                eflags: head[2],
                                gpr,
                                sels: Seq::new(6, |i: int| sels[i] as u16),
                                ldt: sels[6] as u16,
                            },
                        ),
                    ),
                },
            },
        }
    }

    /// The task that a 16-bit TSS holds: ES, CS, SS and DS are in it, and the
    /// upper halves of the registers come up set.
    #[verifier::opaque]
    pub open spec fn task16_read(self, base: u32) -> (Core, CpuResult<Task>) {
        match self.row_read(base, TSS16_IP, 2, 2, 2) {
            (s, Err(fault)) => (s, Err(fault)),
            (s, Ok(head)) => match s.row_read(base, TSS16_GPR, 2, 2, 8) {
                (t, Err(fault)) => (t, Err(fault)),
                (t, Ok(gpr)) => match t.row_read(base, TSS16_SEG, 2, 2, 5) {
                    (u, Err(fault)) => (u, Err(fault)),
                    (u, Ok(sels)) => (
                        u,
                        Ok(
                            Task {
                                cr3: None,
                                eip: head[0],
                                eflags: head[1] | (self.flags & 0xFFFF_0000 & !VM),
                                gpr: Seq::new(8, |i: int| 0xFFFF_0000 | gpr[i]),
                                sels: Seq::new(
                                    6,
                                    |i: int|
                                        if i < 4 {
                                            sels[i] as u16
                                        } else {
                                            0
                                        },
                                ),
                                ldt: sels[4] as u16,
                            },
                        ),
                    ),
                },
            },
        }
    }

    /// The selectors in the segment registers.
    pub open spec fn selectors(self) -> Seq<u32> {
        Seq::new(6, |i: int| self.seg[i].selector as u32)
    }

    /// The running task saved in its TSS, if there is one.
    #[verifier::opaque]
    pub open spec fn task_saved(self, flags: u32) -> (Core, CpuResult<()>) {
        let base = self.tr.base;
        let head = seq![self.eip, flags];
        let (eip, gpr, seg, step, size, count) = if self.tr.attr & 0x08 != 0 {
            (TSS32_EIP, TSS32_GPR, TSS32_SEG, 4u32, 4u8, 6nat)
        } else {
            (TSS16_IP, TSS16_GPR, TSS16_SEG, 2u32, 2u8, 4nat)
        };
        if self.tr.attr & 0x88 == 0 {
            (self, Ok(()))
        } else {
            match self.row_written(base, eip, step, size, head, 2) {
                (s, Err(fault)) => (s, Err(fault)),
                (s, Ok(_)) => match s.row_written(base, gpr, step, size, self.gpr, 8) {
                    (t, Err(fault)) => (t, Err(fault)),
                    (t, Ok(_)) => t.row_written(base, seg, step, 2, self.selectors(), count),
                },
            }
        }
    }

    /// The busy bit of a TSS descriptor set or cleared.
    #[verifier::opaque]
    pub open spec fn busy_set(self, selector: u16, busy: bool) -> (Core, CpuResult<()>) {
        let addr = self.gdtr.base.wrapping_add((selector & 0xFFF8) as u32).wrapping_add(5);
        match self.sys_read(addr, 1) {
            (s, Err(fault)) => (s, Err(fault)),
            (s, Ok(value)) => {
                let access = value as u8;
                s.sys_write(
                    addr,
                    1,
                    (if busy {
                        access | 0x02
                    } else {
                        access & !0x02u8
                    }) as u32,
                )
            },
        }
    }

    /// The old task left and the new one claimed: a JMP or IRET makes the
    /// old one available, a CALL or interrupt links the new one back to it.
    #[verifier::opaque]
    pub open spec fn task_linked(self, new_sel: u16, new_base: u32, switch: Switch) -> (
        Core,
        CpuResult<()>,
    ) {
        let (s, first) = match switch {
            Switch::Jmp | Switch::Iret => if self.tr.attr & 0x80 != 0 {
                self.busy_set(self.tr.selector, false)
            } else {
                (self, Ok(()))
            },
            _ => self.sys_write(new_base, 2, self.tr.selector as u32),
        };
        if first is Err || switch == Switch::Iret {
            (s, first)
        } else {
            s.busy_set(new_sel, true)
        }
    }

    /// EFLAGS bits a task switch loads.
    pub open spec fn task_flags(self) -> u32 {
        0x0003_7FD5 | self.model_flags()
    }

    /// The new task's registers in place of the old one's, but for its
    /// segments.
    #[verifier::opaque]
    pub open spec fn task_entered(
        self,
        new_sel: u16,
        desc: Descriptor,
        task: Task,
        switch: Switch,
    ) -> Core {
        let nested = match switch {
            Switch::Jmp | Switch::Iret => task.eflags,
            _ => task.eflags | NT,
        };
        let moves = task.cr3 is Some && (self.cr0 | CR0_TS) & CR0_PG != 0;
        Core {
            tr: Descriptor(desc.0 | BUSY_BIT).cached(new_sel),
            cr0: self.cr0 | CR0_TS,
            cr3: if moves {
                task.cr3->0
            } else {
                self.cr3
            },
            tlb: if moves {
                Seq::new(2048, |i: int| no_entry())
            } else {
                self.tlb
            },
            eip: task.eip,
            flags: (nested & self.task_flags()) | R1,
            gpr: task.gpr,
            cpl: rpl_of(task.sels[1]),
            ..self
        }
    }

    /// LDTR of a new task.
    #[verifier::opaque]
    pub open spec fn task_ldt(self, ldt: u16, ext: u32) -> (Core, CpuResult<()>) {
        let fault = ts(error_of(ldt) | ext);
        if null_selector(ldt) {
            (self, Ok(()))
        } else if ldt & 4 != 0 {
            (self, Err(fault))
        } else {
            match self.fetch(ldt, ext) {
                (s, Ok(desc)) => if desc.segment() || desc.type_field() != LDT
                    || !desc.is_present() {
                    (s, Err(fault))
                } else {
                    (Core { ldtr: desc.cached(ldt), ..s }, Ok(()))
                },
                (s, Err(_)) => (s, Err(fault)),
            }
        }
    }

    /// A descriptor of a new task's segment; what cannot be read is an
    /// invalid TSS.
    pub open spec fn task_fetch(self, selector: u16, ext: u32) -> (Core, CpuResult<Descriptor>) {
        if null_selector(selector) {
            (self, Err(ts(error_of(selector) | ext)))
        } else {
            match self.fetch(selector, ext) {
                (s, Ok(desc)) => (s, Ok(desc)),
                (s, Err(_)) => (s, Err(ts(error_of(selector) | ext))),
            }
        }
    }

    /// CS and SS of a new task.
    #[verifier::opaque]
    pub open spec fn task_code_and_stack(self, cs: u16, stack: u16, ext: u32) -> (
        Core,
        CpuResult<()>,
    ) {
        let cpl = rpl_of(cs);
        match self.task_fetch(cs, ext) {
            (s, Err(fault)) => (s, Err(fault)),
            (s, Ok(code)) => if !code.code() || (!code.conforming_code() && code.level() != cpl)
                || (code.conforming_code() && code.level() > cpl) {
                (s, Err(ts(error_of(cs) | ext)))
            } else if !code.is_present() {
                (s, Err(np(error_of(cs) | ext)))
            } else {
                match s.task_fetch(stack, ext) {
                    (t, Err(fault)) => (t, Err(fault)),
                    (t, Ok(data)) => if rpl_of(stack) != cpl || data.level() != cpl
                        || !data.can_write() {
                        (t, Err(ts(error_of(stack) | ext)))
                    } else if !data.is_present() {
                        (t, Err(ss(error_of(stack) | ext)))
                    } else {
                        match t.mark(stack, data) {
                            (u, Err(fault)) => (u, Err(fault)),
                            (u, Ok(_)) => u.with_cache(
                                Seg::SS,
                                data.marked().cached(stack),
                            ).cs_loaded(cs, code, cpl),
                        }
                    },
                }
            },
        }
    }

    /// A data segment register of a new task that runs at level `cpl`.
    #[verifier::opaque]
    pub open spec fn task_data(self, seg: Seg, selector: u16, cpl: u8, ext: u32) -> (
        Core,
        CpuResult<()>,
    ) {
        if null_selector(selector) {
            (self, Ok(()))
        } else {
            match self.task_fetch(selector, ext) {
                (s, Err(fault)) => (s, Err(fault)),
                (s, Ok(d)) => if !d.can_read() || (!d.conforming_code() && (d.level() < cpl
                    || d.level() < rpl_of(selector))) {
                    (s, Err(ts(error_of(selector) | ext)))
                } else if !d.is_present() {
                    (s, Err(np(error_of(selector) | ext)))
                } else {
                    match s.mark(selector, d) {
                        (t, Err(fault)) => (t, Err(fault)),
                        (t, Ok(_)) => (
                            t.with_cache(seg, d.marked().cached(selector)),
                            Ok(()),
                        ),
                    }
                },
            }
        }
    }

    /// ES, DS, FS and GS of a new task.
    #[verifier::opaque]
    pub open spec fn task_data_segments(self, sels: Seq<u16>, cpl: u8, ext: u32) -> (
        Core,
        CpuResult<()>,
    ) {
        match self.task_data(Seg::ES, sels[0], cpl, ext) {
            (s, Err(fault)) => (s, Err(fault)),
            (s, Ok(_)) => match s.task_data(Seg::DS, sels[3], cpl, ext) {
                (t, Err(fault)) => (t, Err(fault)),
                (t, Ok(_)) => match t.task_data(Seg::FS, sels[4], cpl, ext) {
                    (u, Err(fault)) => (u, Err(fault)),
                    (u, Ok(_)) => u.task_data(Seg::GS, sels[5], cpl, ext),
                },
            },
        }
    }

    /// The segments of a new task.
    #[verifier::opaque]
    pub open spec fn task_segments(self, ldt: u16, sels: Seq<u16>, ext: u32) -> (
        Core,
        CpuResult<()>,
    ) {
        let bare = Core {
            seg: bare_segments(sels, self.v86()),
            ldtr: SegCache::spec_null(ldt),
            ..self
        };
        match bare.task_ldt(ldt, ext) {
            (s, Err(fault)) => (s, Err(fault)),
            (s, Ok(_)) => if s.v86() {
                (Core { seg: v86_segments(sels), cpl: 3, ..s }, Ok(()))
            } else {
                match s.task_code_and_stack(sels[1], sels[2], ext) {
                    (t, Err(fault)) => (t, Err(fault)),
                    (t, Ok(_)) => t.task_data_segments(sels, rpl_of(sels[1]), ext),
                }
            },
        }
    }

    /// A switch to the task of `desc`. The new task's state is read first,
    /// so a fault there leaves the old task untouched; from where the new
    /// task is entered on, faults are its own.
    #[verifier::opaque]
    pub open spec fn task_switched(
        self,
        new_sel: u16,
        desc: Descriptor,
        switch: Switch,
        ext: u32,
    ) -> (Core, CpuResult<()>) {
        let wide = desc.wide_system();
        let base = desc.base_field();
        let flags = if switch == Switch::Iret {
            self.flags & !NT
        } else {
            self.flags
        };
        let (s, read) = if wide {
            self.task32_read(base)
        } else {
            self.task16_read(base)
        };
        if desc.byte_limit() < (if wide {
            0x67u32
        } else {
            0x2Bu32
        }) {
            (self, Err(ts(error_of(new_sel) | ext)))
        } else {
            match read {
                Err(fault) => (s, Err(fault)),
                Ok(task) => match s.task_saved(flags) {
                    (t, Err(fault)) => (t, Err(fault)),
                    (t, Ok(_)) => match t.task_linked(new_sel, base, switch) {
                        (u, Err(fault)) => (u, Err(fault)),
                        (u, Ok(_)) => u.task_entered(new_sel, desc, task, switch).task_started(
                            task,
                            switch,
                            wide,
                            ext,
                        ),
                    },
                },
            }
        }
    }

    /// The new task's segments, and the error code of the interrupt that
    /// switched to it on its stack.
    pub open spec fn task_started(self, task: Task, switch: Switch, wide: bool, ext: u32) -> (
        Core,
        CpuResult<()>,
    ) {
        match self.task_segments(task.ldt, task.sels, ext) {
            (s, Err(fault)) => (s, Err(fault)),
            (s, Ok(_)) => match switch {
                Switch::Interrupt(Some(code)) => s.push_sized(
                    if wide {
                        4
                    } else {
                        2
                    },
                    code,
                ),
                _ => (s, Ok(())),
            },
        }
    }

    /// A switch through a task gate that names `selector`.
    pub open spec fn task_gate_taken(self, selector: u16, switch: Switch, ext: u32) -> (
        Core,
        CpuResult<()>,
    ) {
        let err = error_of(selector) | ext;
        if selector & 4 != 0 {
            (self, Err(gp(err)))
        } else {
            match self.fetch(selector, ext) {
                (s, Err(fault)) => (s, Err(fault)),
                (s, Ok(desc)) => if !available_task(desc) {
                    (s, Err(gp(err)))
                } else if !desc.is_present() {
                    (s, Err(np(err)))
                } else {
                    s.task_switched(selector, desc, switch, ext)
                },
            }
        }
    }

    /// The return to the task in the back link.
    #[verifier::opaque]
    pub open spec fn task_returned(self) -> (Core, CpuResult<()>) {
        match self.sys_read(self.tr.base, 2) {
            (s, Err(fault)) => (s, Err(fault)),
            (s, Ok(value)) => {
                let back = value as u16;
                let err = error_of(back);
                if back & 4 != 0 || null_selector(back) {
                    (s, Err(ts(err)))
                } else {
                    match s.fetch(back, 0) {
                        (t, Err(_)) => (t, Err(ts(err))),
                        (t, Ok(desc)) => if desc.segment() || !(desc.type_field() == TSS16_BUSY
                            || desc.type_field() == TSS32_BUSY) {
                            (t, Err(ts(err)))
                        } else if !desc.is_present() {
                            (t, Err(np(err)))
                        } else {
                            t.task_switched(back, desc, Switch::Iret, 0)
                        },
                    }
                }
            },
        }
    }

    /// A JMP or CALL to a task, after the far transfer found `desc`.
    #[verifier::opaque]
    pub open spec fn task_jumped(self, selector: u16, desc: Descriptor, switch: Switch) -> (
        Core,
        CpuResult<()>,
    ) {
        let err = error_of(selector);
        if desc.level() < self.cpl || desc.level() < rpl_of(selector) {
            (self, Err(gp(err)))
        } else if desc.type_field() == TASK_GATE {
            if !desc.is_present() {
                (self, Err(np(err)))
            } else {
                self.task_gate_taken(desc.target_selector(), switch, 0)
            }
        } else if desc.type_field() != TSS16_AVAILABLE && desc.type_field() != TSS32_AVAILABLE {
            (self, Err(gp(err)))
        } else if !desc.is_present() {
            (self, Err(np(err)))
        } else {
            self.task_switched(selector, desc, switch, 0)
        }
    }

    /// Whether ports may be used without asking the permission bitmap.
    pub open spec fn io_free(self) -> bool {
        !self.pe() || (!self.v86() && self.cpl <= self.iopl())
    }

    /// The permission bitmap asked for `size` ports from `port` on.
    pub open spec fn io_checked(self, port: u16, size: u8) -> (Core, CpuResult<()>) {
        let tr = self.tr;
        if tr.attr & 0x80 == 0 || tr.attr & 0x08 == 0 || tr.limit < 0x67 {
            (self, Err(gp(0)))
        } else {
            match self.sys_read(tr.base.wrapping_add(0x66), 2) {
                (s, Err(fault)) => (s, Err(fault)),
                (s, Ok(map)) => {
                    let at = (map % 0x1_0000 + port / 8) as u32;
                    if at + 1 > tr.limit {
                        (s, Err(gp(0)))
                    } else {
                        match s.sys_read(tr.base.wrapping_add(at), 2) {
                            (t, Err(fault)) => (t, Err(fault)),
                            (t, Ok(bits)) => if bits & ((((1u32 << size as u32) - 1) as u32) << (
                            port % 8) as u32) != 0 {
                                (t, Err(gp(0)))
                            } else {
                                (t, Ok(()))
                            },
                        }
                    }
                },
            }
        }
    }
}

/// Where a value of a row cannot be read, the row cannot.
proof fn lemma_row_read_stops(
    s: Core,
    base: u32,
    offset: u32,
    stride: u32,
    size: u8,
    n: nat,
    m: nat,
)
    requires
        n <= m,
    ensures
        s.row_read(base, offset, stride, size, n).1 matches Err(fault) ==> s.row_read(
            base,
            offset,
            stride,
            size,
            m,
        ) == (s.row_read(base, offset, stride, size, n).0, Err::<Seq<u32>, Fault>(fault)),
    decreases m,
{
    if n < m {
        lemma_row_read_stops(s, base, offset, stride, size, n, (m - 1) as nat);
    }
}

proof fn lemma_row_written_stops(
    s: Core,
    base: u32,
    offset: u32,
    stride: u32,
    size: u8,
    values: Seq<u32>,
    n: nat,
    m: nat,
)
    requires
        n <= m,
    ensures
        s.row_written(base, offset, stride, size, values, n).1 is Err ==> s.row_written(
            base,
            offset,
            stride,
            size,
            values,
            m,
        ) == s.row_written(base, offset, stride, size, values, n),
    decreases m,
{
    if n < m {
        lemma_row_written_stops(s, base, offset, stride, size, values, n, (m - 1) as nat);
    }
}

impl Cpu {
    /// Read `n` values of a system structure, `stride` bytes apart.
    fn read_row(&mut self, base: u32, offset: u32, stride: u32, size: u8, n: u32) -> (values:
        CpuResult<Vec<u32>>)
        requires
            is_operand_size(size),
            offset <= 0x60,
            stride <= 4,
            n <= 8,
        ensures
            final(self)@ == old(self)@.row_read(base, offset, stride, size, n as nat).0,
            match (values, old(self)@.row_read(base, offset, stride, size, n as nat).1) {
                (Ok(v), Ok(w)) => v@ == w && v@.len() == n,
                (Err(f), Err(g)) => f == g,
                _ => false,
            },
    {
        let mut values: Vec<u32> = Vec::new();
        let mut i: u32 = 0;
        while i < n
            invariant
                i <= n,
                is_operand_size(size),
                offset <= 0x60,
                stride <= 4,
                n <= 8,
                values@.len() == i,
                old(self)@.row_read(base, offset, stride, size, i as nat) == (
                    self@,
                    Ok::<Seq<u32>, Fault>(values@),
                ),
            decreases n - i,
        {
            assert(stride * i <= 32) by (nonlinear_arith)
                requires
                    stride <= 4,
                    i <= 8,
            ;
            proof {
                lemma_row_read_stops(
                    old(self)@,
                    base,
                    offset,
                    stride,
                    size,
                    (i + 1) as nat,
                    n as nat,
                );
            }
            let value: u32 = self.sys_read(base.wrapping_add(offset + stride * i), size)?;
            values.push(value);
            i = i + 1;
        }
        Ok(values)
    }

    /// Write the first `n` values to a system structure, `stride` bytes
    /// apart.
    fn write_row(&mut self, base: u32, offset: u32, stride: u32, size: u8, values: &[u32], n: u32)
        -> (done: CpuResult<()>)
        requires
            is_operand_size(size),
            offset <= 0x60,
            stride <= 4,
            n <= 8,
            n <= values@.len(),
        ensures
            final(self)@ == old(self)@.row_written(
                base,
                offset,
                stride,
                size,
                values@,
                n as nat,
            ).0,
            done == old(self)@.row_written(base, offset, stride, size, values@, n as nat).1,
    {
        let mut i: u32 = 0;
        while i < n
            invariant
                i <= n,
                is_operand_size(size),
                offset <= 0x60,
                stride <= 4,
                n <= 8,
                n <= values@.len(),
                old(self)@.row_written(base, offset, stride, size, values@, i as nat) == (
                    self@,
                    Ok::<(), Fault>(()),
                ),
            decreases n - i,
        {
            assert(stride * i <= 32) by (nonlinear_arith)
                requires
                    stride <= 4,
                    i <= 8,
            ;
            proof {
                lemma_row_written_stops(
                    old(self)@,
                    base,
                    offset,
                    stride,
                    size,
                    values@,
                    (i + 1) as nat,
                    n as nat,
                );
            }
            self.sys_write(base.wrapping_add(offset + stride * i), size, values[i as usize])?;
            i = i + 1;
        }
        Ok(())
    }

    fn read_task32(&mut self, base: u32) -> (task: CpuResult<TaskState>)
        ensures
            final(self)@ == old(self)@.task32_read(base).0,
            match (task, old(self)@.task32_read(base).1) {
                (Ok(v), Ok(w)) => v@ == w,
                (Err(f), Err(g)) => f == g,
                _ => false,
            },
    {
        reveal(Core::task32_read);
        let head: Vec<u32> = self.read_row(base, TSS32_CR3, 4, 4, 3)?;
        let g: Vec<u32> = self.read_row(base, TSS32_GPR, 4, 4, 8)?;
        let s: Vec<u32> = self.read_row(base, TSS32_SEG, 4, 2, 7)?;
        let gpr: [u32; 8] = [g[0], g[1], g[2], g[3], g[4], g[5], g[6], g[7]];
        let sels: [u16; 6] = [
            s[0] as u16,
            s[1] as u16,
            s[2] as u16,
            s[3] as u16,
            s[4] as u16,
            s[5] as u16,
        ];
        assert(gpr@ =~= g@);
        assert(sels@ =~= Seq::new(6, |i: int| s@[i] as u16));
        Ok(
            TaskState {
                cr3: Some(head[0]),
                eip: head[1],
                eflags: head[2],
                gpr,
                sels,
                ldt: s[6] as u16,
            },
        )
    }

    fn read_task16(&mut self, base: u32) -> (task: CpuResult<TaskState>)
        ensures
            final(self)@ == old(self)@.task16_read(base).0,
            match (task, old(self)@.task16_read(base).1) {
                (Ok(v), Ok(w)) => v@ == w,
                (Err(f), Err(g)) => f == g,
                _ => false,
            },
    {
        reveal(Core::task16_read);
        let kept: u32 = self.flags.bits & 0xFFFF_0000 & !VM;
        let head: Vec<u32> = self.read_row(base, TSS16_IP, 2, 2, 2)?;
        let g: Vec<u32> = self.read_row(base, TSS16_GPR, 2, 2, 8)?;
        // ES, CS, SS, DS; a 286 TSS has no FS and GS.
        let s: Vec<u32> = self.read_row(base, TSS16_SEG, 2, 2, 5)?;
        let gpr: [u32; 8] = [
            0xFFFF_0000 | g[0],
            0xFFFF_0000 | g[1],
            0xFFFF_0000 | g[2],
            0xFFFF_0000 | g[3],
            0xFFFF_0000 | g[4],
            0xFFFF_0000 | g[5],
            0xFFFF_0000 | g[6],
            0xFFFF_0000 | g[7],
        ];
        let sels: [u16; 6] = [s[0] as u16, s[1] as u16, s[2] as u16, s[3] as u16, 0, 0];
        assert(gpr@ =~= Seq::new(8, |i: int| 0xFFFF_0000 | g@[i]));
        assert(sels@ =~= Seq::new(
            6,
            |i: int|
                if i < 4 {
                    s@[i] as u16
                } else {
                    0
                },
        ));
        Ok(TaskState { cr3: None, eip: head[0], eflags: head[1] | kept, gpr, sels, ldt: s[4] as u16 })
    }

    fn save_task(&mut self, flags: u32) -> (done: CpuResult<()>)
        ensures
            final(self)@ == old(self)@.task_saved(flags).0,
            done == old(self)@.task_saved(flags).1,
    {
        reveal(Core::task_saved);
        let old = self.tr;
        let wide = old.attr & 0x08 != 0;
        let a: u16 = old.attr;
        assert((a & 0x88 == 0) <==> (a & 0x08 == 0 && a & 0x80 == 0)) by (bit_vector);
        if !wide && old.attr & 0x80 == 0 {
            return Ok(());
        }
        let (eip, gpr, seg, step, size, count): (u32, u32, u32, u32, u8, u32) = if wide {
            (TSS32_EIP, TSS32_GPR, TSS32_SEG, 4, 4, 6)
        } else {
            (TSS16_IP, TSS16_GPR, TSS16_SEG, 2, 2, 4)
        };
        let head: [u32; 2] = [self.eip, flags];
        let registers: [u32; 8] = self.gpr;
        let sels: [u32; 6] = [
            self.seg[0].selector as u32,
            self.seg[1].selector as u32,
            self.seg[2].selector as u32,
            self.seg[3].selector as u32,
            self.seg[4].selector as u32,
            self.seg[5].selector as u32,
        ];
        assert(head@ =~= seq![self@.eip, flags]);
        assert(sels@ =~= self@.selectors());
        self.write_row(old.base, eip, step, size, head.as_slice(), 2)?;
        self.write_row(old.base, gpr, step, size, registers.as_slice(), 8)?;
        self.write_row(old.base, seg, step, 2, sels.as_slice(), count)
    }

    /// Switch tasks through a task gate (JMP, CALL or an interrupt). The
    /// caller has checked that gate itself.
    pub fn task_gate(&mut self, tss_selector: u16, switch: Switch, ext: u32) -> (done: CpuResult<
        (),
    >)
        ensures
            final(self)@ == old(self)@.task_gate_taken(tss_selector, switch, ext).0,
            done == old(self)@.task_gate_taken(tss_selector, switch, ext).1,
    {
        let err: u32 = sel_error(tss_selector) | ext;
        if tss_selector & 4 != 0 {
            return Err(Fault::gp(err));
        }
        let desc = self.fetch_descriptor(tss_selector, ext)?;
        let typ: u8 = desc.typ();
        if desc.is_segment() || !(typ == TSS16_AVAILABLE || typ == TSS32_AVAILABLE) {
            return Err(Fault::gp(err));
        }
        if !desc.present() {
            return Err(Fault::np(err));
        }
        self.task_switch(tss_selector, desc, switch, ext)
    }

    /// IRET with NT set: return to the task whose TSS selector is in the
    /// current TSS's back link.
    pub fn task_return(&mut self) -> (done: CpuResult<()>)
        ensures
            final(self)@ == old(self)@.task_returned().0,
            done == old(self)@.task_returned().1,
    {
        reveal(Core::task_returned);
        let base: u32 = self.tr.base;
        let value: u32 = self.sys_read(base, 2)?;
        let back: u16 = value as u16;
        let err: u32 = sel_error(back);
        if back & 4 != 0 || is_null(back) {
            return Err(Fault::ts(err));
        }
        let desc = match self.fetch_descriptor(back, 0) {
            Ok(desc) => desc,
            Err(_) => {
                return Err(Fault::ts(err));
            },
        };
        let typ: u8 = desc.typ();
        if desc.is_segment() || !(typ == TSS16_BUSY || typ == TSS32_BUSY) {
            return Err(Fault::ts(err));
        }
        if !desc.present() {
            return Err(Fault::np(err));
        }
        self.task_switch(back, desc, Switch::Iret, 0)
    }

    /// Set or clear the busy bit of the TSS descriptor `selector` names.
    fn set_tss_busy(&mut self, selector: u16, busy: bool) -> (done: CpuResult<()>)
        ensures
            final(self)@ == old(self)@.busy_set(selector, busy).0,
            done == old(self)@.busy_set(selector, busy).1,
    {
        reveal(Core::busy_set);
        let addr: u32 = self.gdtr.base.wrapping_add((selector & 0xFFF8) as u32).wrapping_add(5);
        let value: u32 = self.sys_read(addr, 1)?;
        let access: u8 = value as u8;
        let access: u8 = if busy {
            access | 0x02
        } else {
            access & !0x02u8
        };
        self.sys_write_u8(addr, access)
    }

    fn link_task(&mut self, new_sel: u16, new_base: u32, switch: Switch) -> (done: CpuResult<()>)
        ensures
            final(self)@ == old(self)@.task_linked(new_sel, new_base, switch).0,
            done == old(self)@.task_linked(new_sel, new_base, switch).1,
    {
        reveal(Core::task_linked);
        let old = self.tr;
        match switch {
            Switch::Jmp | Switch::Iret => {
                if old.attr & 0x80 != 0 {
                    self.set_tss_busy(old.selector, false)?;
                }
            },
            _ => {
                // The new task links back to this one.
                self.sys_write(new_base, 2, old.selector as u32)?;
            },
        }
        if switch != Switch::Iret {
            self.set_tss_busy(new_sel, true)?;
        }
        Ok(())
    }

    fn enter_task(&mut self, new_sel: u16, desc: Descriptor, task: &TaskState, switch: Switch)
        ensures
            final(self)@ == old(self)@.task_entered(new_sel, desc, task@, switch),
    {
        reveal(Core::task_entered);
        let flags: u32 = match switch {
            Switch::Jmp | Switch::Iret => task.eflags,
            _ => task.eflags | NT,
        };
        let mask: u32 = self.eflags_mask();
        self.tr = Descriptor(desc.0 | BUSY_BIT).cache(new_sel);
        self.cr0 = self.cr0 | CR0_TS;
        if let Some(cr3) = task.cr3 {
            if self.cr0 & CR0_PG != 0 {
                self.cr3 = cr3;
                self.tlb.flush();
            }
        }
        self.eip = task.eip;
        self.flags = CpuFlags { bits: (flags & mask) | R1 };
        self.gpr = task.gpr;
        self.cpl = rpl(task.sels[1]);
    }

    /// Save the current task in its TSS and load the task of `new_desc`.
    pub fn task_switch(
        &mut self,
        new_sel: u16,
        new_desc: Descriptor,
        switch: Switch,
        ext: u32,
    ) -> (done: CpuResult<()>)
        ensures
            final(self)@ == old(self)@.task_switched(new_sel, new_desc, switch, ext).0,
            done == old(self)@.task_switched(new_sel, new_desc, switch, ext).1,
    {
        reveal(Core::task_switched);
        let err: u32 = sel_error(new_sel) | ext;
        let new32 = new_desc.is_32bit_system();
        let min_limit: u32 = if new32 {
            0x67
        } else {
            0x2B
        };
        if new_desc.limit() < min_limit {
            return Err(Fault::ts(err));
        }
        let new_base: u32 = new_desc.base();
        // An IRET leaves the old task with NT clear.
        let old_flags: u32 = if switch == Switch::Iret {
            self.flags.bits & !NT
        } else {
            self.flags.bits
        };
        // Read the new task's state first, so a fault leaves the old task
        // untouched.
        let task = if new32 {
            self.read_task32(new_base)?
        } else {
            self.read_task16(new_base)?
        };
        self.save_task(old_flags)?;
        self.link_task(new_sel, new_base, switch)?;
        // From here on the new task runs: faults are its own.
        self.enter_task(new_sel, new_desc, &task, switch);
        self.load_task_segments(task.ldt, &task.sels, ext)?;
        if let Switch::Interrupt(Some(code)) = switch {
            let size: u8 = if new32 {
                4
            } else {
                2
            };
            self.push_sized(size, code)?;
        }
        Ok(())
    }

    /// EFLAGS bits a task switch loads.
    fn eflags_mask(&self) -> (mask: u32)
        ensures
            mask == self@.task_flags(),
    {
        // Up to NT, RF and VM.
        0x0003_7FD5 | self.model_flags()
    }

    fn load_task_ldt(&mut self, ldt: u16, ext: u32) -> (done: CpuResult<()>)
        ensures
            final(self)@ == old(self)@.task_ldt(ldt, ext).0,
            done == old(self)@.task_ldt(ldt, ext).1,
    {
        reveal(Core::task_ldt);
        if is_null(ldt) {
            return Ok(());
        }
        let fault = Fault::ts(sel_error(ldt) | ext);
        if ldt & 4 != 0 {
            return Err(fault);
        }
        match self.fetch_descriptor(ldt, ext) {
            Ok(desc) => {
                if desc.is_segment() || desc.typ() != LDT || !desc.present() {
                    return Err(fault);
                }
                self.ldtr = desc.cache(ldt);
                Ok(())
            },
            Err(_) => Err(fault),
        }
    }

    fn fetch_task_descriptor(&mut self, selector: u16, ext: u32) -> (desc: CpuResult<Descriptor>)
        ensures
            final(self)@ == old(self)@.task_fetch(selector, ext).0,
            desc == old(self)@.task_fetch(selector, ext).1,
    {
        let fault = Fault::ts(sel_error(selector) | ext);
        if is_null(selector) {
            return Err(fault);
        }
        match self.fetch_descriptor(selector, ext) {
            Ok(desc) => Ok(desc),
            Err(_) => Err(fault),
        }
    }

    fn load_task_code_and_stack(&mut self, cs: u16, ss: u16, ext: u32) -> (done: CpuResult<()>)
        ensures
            final(self)@ == old(self)@.task_code_and_stack(cs, ss, ext).0,
            done == old(self)@.task_code_and_stack(cs, ss, ext).1,
    {
        reveal(Core::task_code_and_stack);
        let cpl: u8 = rpl(cs);
        let mut desc = self.fetch_task_descriptor(cs, ext)?;
        if !desc.is_code() || (!desc.conforming() && desc.dpl() != cpl) || (desc.conforming()
            && desc.dpl() > cpl) {
            return Err(Fault::ts(sel_error(cs) | ext));
        }
        if !desc.present() {
            return Err(Fault::np(sel_error(cs) | ext));
        }
        let mut ss_desc = self.fetch_task_descriptor(ss, ext)?;
        if rpl(ss) != cpl || ss_desc.dpl() != cpl || !ss_desc.writable_data() {
            return Err(Fault::ts(sel_error(ss) | ext));
        }
        if !ss_desc.present() {
            return Err(Fault::ss(sel_error(ss) | ext));
        }
        self.mark_accessed(ss, &mut ss_desc)?;
        self.set_seg_cache(Seg::SS, ss_desc.cache(ss));
        self.load_cs_pm(cs, &mut desc, cpl)
    }

    fn load_task_data(&mut self, seg: Seg, sel: u16, cpl: u8, ext: u32) -> (done: CpuResult<()>)
        ensures
            final(self)@ == old(self)@.task_data(seg, sel, cpl, ext).0,
            done == old(self)@.task_data(seg, sel, cpl, ext).1,
    {
        reveal(Core::task_data);
        if is_null(sel) {
            return Ok(());
        }
        let mut d = self.fetch_task_descriptor(sel, ext)?;
        if !d.readable() || (!d.conforming() && (d.dpl() < cpl || d.dpl() < rpl(sel))) {
            return Err(Fault::ts(sel_error(sel) | ext));
        }
        if !d.present() {
            return Err(Fault::np(sel_error(sel) | ext));
        }
        self.mark_accessed(sel, &mut d)?;
        self.set_seg_cache(seg, d.cache(sel));
        Ok(())
    }

    fn load_task_data_segments(&mut self, sels: &[u16; 6], cpl: u8, ext: u32) -> (done: CpuResult<
        (),
    >)
        ensures
            final(self)@ == old(self)@.task_data_segments(sels@, cpl, ext).0,
            done == old(self)@.task_data_segments(sels@, cpl, ext).1,
    {
        reveal(Core::task_data_segments);
        self.load_task_data(Seg::ES, sels[0], cpl, ext)?;
        self.load_task_data(Seg::DS, sels[3], cpl, ext)?;
        self.load_task_data(Seg::FS, sels[4], cpl, ext)?;
        self.load_task_data(Seg::GS, sels[5], cpl, ext)
    }

    /// Load LDTR and the segment registers of a new task, checking each
    /// descriptor; problems raise #TS (or #NP/#SS) in the new task.
    fn load_task_segments(&mut self, ldt: u16, sels: &[u16; 6], ext: u32) -> (done: CpuResult<()>)
        ensures
            final(self)@ == old(self)@.task_segments(ldt, sels@, ext).0,
            done == old(self)@.task_segments(ldt, sels@, ext).1,
    {
        reveal(Core::task_segments);
        // Selectors first, so a fault leaves them visible to the handler.
        self.set_bare_segments(sels);
        self.ldtr = SegCache::null(ldt);
        self.load_task_ldt(ldt, ext)?;
        if self.v86() {
            self.set_v86_segments(sels);
            self.cpl = 3;
            return Ok(());
        }
        self.load_task_code_and_stack(sels[1], sels[2], ext)?;
        self.load_task_data_segments(sels, rpl(sels[1]), ext)
    }

    fn set_bare_segments(&mut self, sels: &[u16; 6])
        ensures
            final(self)@ == (Core {
                seg: bare_segments(sels@, old(self)@.v86()),
                ..old(self)@
            }),
    {
        if self.v86() {
            self.seg = [
                SegCache::real_mode(sels[0]),
                SegCache::real_mode(sels[1]),
                SegCache::real_mode(sels[2]),
                SegCache::real_mode(sels[3]),
                SegCache::real_mode(sels[4]),
                SegCache::real_mode(sels[5]),
            ];
        } else {
            self.seg = [
                SegCache::null(sels[0]),
                SegCache::null(sels[1]),
                SegCache::null(sels[2]),
                SegCache::null(sels[3]),
                SegCache::null(sels[4]),
                SegCache::null(sels[5]),
            ];
        }
        assert(self@.seg =~= bare_segments(sels@, old(self)@.v86()));
    }

    fn set_v86_segments(&mut self, sels: &[u16; 6])
        ensures
            final(self)@ == (Core { seg: v86_segments(sels@), ..old(self)@ }),
    {
        self.load_seg_v86(Seg::ES, sels[0]);
        self.load_seg_v86(Seg::CS, sels[1]);
        self.load_seg_v86(Seg::SS, sels[2]);
        self.load_seg_v86(Seg::DS, sels[3]);
        self.load_seg_v86(Seg::FS, sels[4]);
        self.load_seg_v86(Seg::GS, sels[5]);
        assert(self@.seg =~= v86_segments(sels@));
    }

    /// JMP or CALL to a TSS descriptor or a task gate named by `selector`,
    /// after the far transfer found `desc` there.
    pub fn far_to_task(&mut self, selector: u16, desc: Descriptor, switch: Switch) -> (done:
        CpuResult<()>)
        ensures
            final(self)@ == old(self)@.task_jumped(selector, desc, switch).0,
            done == old(self)@.task_jumped(selector, desc, switch).1,
    {
        reveal(Core::task_jumped);
        let err: u32 = sel_error(selector);
        if desc.dpl() < self.cpl || desc.dpl() < rpl(selector) {
            return Err(Fault::gp(err));
        }
        if desc.typ() == TASK_GATE {
            if !desc.present() {
                return Err(Fault::np(err));
            }
            return self.task_gate(desc.gate_selector(), switch, 0);
        }
        if desc.typ() != TSS16_AVAILABLE && desc.typ() != TSS32_AVAILABLE {
            return Err(Fault::gp(err));
        }
        if !desc.present() {
            return Err(Fault::np(err));
        }
        self.task_switch(selector, desc, switch, 0)
    }

    /// May the program use `size` bytes of ports from `port`? In protected
    /// mode with CPL > IOPL, and always in virtual-8086 mode, only if the
    /// I/O permission bitmap in the (32-bit) TSS clears their bits.
    pub fn check_io(&mut self, port: u16, size: u8) -> (done: CpuResult<()>)
        requires
            size < 32,
        ensures
            old(self)@.io_free() ==> done is Ok && final(self)@ == old(self)@,
            !old(self)@.io_free() ==> final(self)@ == old(self)@.io_checked(port, size).0 && done
                == old(self)@.io_checked(port, size).1,
    {
        if !self.pe() || (!self.v86() && self.cpl <= self.iopl()) {
            return Ok(());
        }
        self.check_io_bitmap(port, size)
    }

    fn check_io_bitmap(&mut self, port: u16, size: u8) -> (done: CpuResult<()>)
        requires
            size < 32,
        ensures
            final(self)@ == old(self)@.io_checked(port, size).0,
            done == old(self)@.io_checked(port, size).1,
    {
        let tr = self.tr;
        if tr.attr & 0x80 == 0 || tr.attr & 0x08 == 0 || tr.limit < 0x67 {
            return Err(Fault::gp(0));
        }
        let map: u32 = self.sys_read(tr.base.wrapping_add(0x66), 2)?;
        let at: u32 = map % 0x1_0000 + port as u32 / 8;
        if at + 1 > tr.limit {
            return Err(Fault::gp(0));
        }
        let bits: u32 = self.sys_read(tr.base.wrapping_add(at), 2)?;
        let n: u32 = size as u32;
        assert(n < 32 ==> (1u32 << n) >= 1) by (bit_vector);
        let mask: u32 = ((1u32 << n) - 1) << (port % 8) as u32;
        if bits & mask != 0 {
            return Err(Fault::gp(0));
        }
        Ok(())
    }
}

} // verus!
