//! Far transfers in protected mode: JMP and CALL to code segments, call
//! gates and tasks, RETF and IRET to the same or an outer privilege level,
//! and IRET back to virtual-8086 mode.

use vstd::prelude::*;

use super::fault::{gp, np, ss};
use super::mem::is_operand_size;
use super::regs::{Seg, SegCache};
use super::seg::{
    error_of, is_null, null_selector, rpl, rpl_of, sel_error, Descriptor, CALL_GATE16, CALL_GATE32,
    TASK_GATE, TSS16_AVAILABLE, TSS32_AVAILABLE,
};
use super::state::{Core, Cpu, CpuFlags, CpuResult, Fault, NT, R1, VM};
use super::task::Switch;

verus! {

/// Whether a system descriptor is a call gate, or leads to a task.
pub open spec fn call_gate(desc: Descriptor) -> bool {
    desc.type_field() == CALL_GATE16 || desc.type_field() == CALL_GATE32
}

pub open spec fn leads_to_task(desc: Descriptor) -> bool {
    desc.type_field() == TASK_GATE || desc.type_field() == TSS16_AVAILABLE || desc.type_field()
        == TSS32_AVAILABLE
}

/// The offset that a stack slot of `size` bytes holds.
pub open spec fn slot_offset(value: u32, size: u8) -> u32 {
    if size == 2 {
        value & 0xFFFF
    } else {
        value
    }
}

/// What a call to a more privileged level leaves on its stack: the old
/// stack, the parameters and the return address.
#[verifier::opaque]
pub open spec fn inner_call_frame(
    old_ss: u32,
    old_esp: u32,
    values: Seq<u32>,
    cs: u32,
    eip: u32,
) -> Seq<u32> {
    seq![old_ss, old_esp] + values + seq![cs, eip]
}

impl Core {
    /// The fault that a code segment raises when a JMP or CALL goes to it
    /// directly.
    pub open spec fn direct_code_fault(self, selector: u16, desc: Descriptor) -> Option<Fault> {
        let ok = if desc.conforming_code() {
            desc.level() <= self.cpl
        } else {
            rpl_of(selector) <= self.cpl && desc.level() == self.cpl
        };
        if !ok {
            Some(gp(error_of(selector)))
        } else if !desc.is_present() {
            Some(np(error_of(selector)))
        } else {
            None
        }
    }

    /// Where a call gate leads: selector, code segment and offset.
    #[verifier::opaque]
    pub open spec fn gate_target(self, selector: u16, gate: Descriptor) -> (
        Core,
        CpuResult<(u16, Descriptor, u32)>,
    ) {
        let err = error_of(selector);
        let target = gate.target_selector();
        if gate.level() < self.cpl || gate.level() < rpl_of(selector) {
            (self, Err(gp(err)))
        } else if !gate.is_present() {
            (self, Err(np(err)))
        } else if null_selector(target) {
            (self, Err(gp(0)))
        } else {
            match self.fetch(target, 0) {
                (s, Err(fault)) => (s, Err(fault)),
                (s, Ok(code)) => if !code.code() || code.level() > s.cpl {
                    (s, Err(gp(error_of(target))))
                } else if !code.is_present() {
                    (s, Err(np(error_of(target))))
                } else if gate.target_offset() > code.byte_limit() {
                    (s, Err(gp(0)))
                } else {
                    (s, Ok((target, code, gate.target_offset())))
                },
            }
        }
    }

    /// In a code segment at an offset, at the current level.
    #[verifier::opaque]
    pub open spec fn code_entered(self, selector: u16, desc: Descriptor, offset: u32) -> (
        Core,
        CpuResult<()>,
    ) {
        match self.cs_loaded(selector, desc, self.cpl) {
            (s, Err(fault)) => (s, Err(fault)),
            (s, Ok(_)) => (Core { eip: offset, ..s }, Ok(())),
        }
    }

    /// A far jump: to a code segment, through a call gate that does not
    /// change privilege, or to a task.
    pub open spec fn jumped(self, selector: u16, offset: u32) -> (Core, CpuResult<()>) {
        if null_selector(selector) {
            (self, Err(gp(0)))
        } else {
            match self.fetch(selector, 0) {
                (s, Err(fault)) => (s, Err(fault)),
                (s, Ok(desc)) => if desc.code() {
                    match s.direct_code_fault(selector, desc) {
                        Some(fault) => (s, Err(fault)),
                        None => if offset > desc.byte_limit() {
                            (s, Err(gp(0)))
                        } else {
                            s.code_entered(selector, desc, offset)
                        },
                    }
                } else if desc.segment() {
                    (s, Err(gp(error_of(selector))))
                } else if call_gate(desc) {
                    s.gate_jumped(selector, desc)
                } else if leads_to_task(desc) {
                    s.task_jumped(selector, desc, Switch::Jmp)
                } else {
                    (s, Err(gp(error_of(selector))))
                },
            }
        }
    }

    pub open spec fn gate_jumped(self, selector: u16, gate: Descriptor) -> (Core, CpuResult<()>) {
        match self.gate_target(selector, gate) {
            (s, Err(fault)) => (s, Err(fault)),
            (s, Ok((target, code, offset))) => if !code.conforming_code() && code.level()
                != s.cpl {
                (s, Err(gp(error_of(target))))
            } else {
                s.code_entered(target, code, offset)
            },
        }
    }

    /// A call at the current level: the return address pushed in slots of
    /// `size` bytes, then the code segment entered.
    #[verifier::opaque]
    pub open spec fn same_level_called(
        self,
        selector: u16,
        desc: Descriptor,
        offset: u32,
        size: u8,
        cs: u32,
        eip: u32,
    ) -> (Core, CpuResult<()>) {
        match self.frame_pushed(
            self.cache(Seg::SS),
            self.stack_ptr(),
            size,
            seq![cs, eip],
            ss(0),
            self.cpl == 3,
        ) {
            (s, Err(fault)) => (s, Err(fault)),
            (s, Ok(sp)) => match s.cs_loaded(selector, desc, self.cpl) {
                (t, Err(fault)) => (t, Err(fault)),
                (t, Ok(_)) => (Core { eip: offset, ..t.with_stack_ptr(sp) }, Ok(())),
            },
        }
    }

    /// The first `n` of `total` parameters of a call gate, the deepest one
    /// first.
    pub open spec fn parameters_read(self, size: u8, total: nat, n: nat) -> (
        Core,
        CpuResult<Seq<u32>>,
    )
        decreases n,
    {
        if n == 0 {
            (self, Ok(Seq::empty()))
        } else {
            match self.parameters_read(size, total, (n - 1) as nat) {
                (s, Err(fault)) => (s, Err(fault)),
                (s, Ok(values)) => match s.stack_read(((total - n) * size) as u32, size) {
                    (t, Err(fault)) => (t, Err(fault)),
                    (t, Ok(value)) => (t, Ok(values.push(value))),
                },
            }
        }
    }

    /// The stack of a more privileged level, from the TSS: its selector, its
    /// segment and its stack pointer, and that gate's parameters to copy to it.
    #[verifier::opaque]
    pub open spec fn inner_stack(self, level: u8, size: u8, parameters: u32) -> (
        Core,
        CpuResult<(u16, SegCache, u32, Seq<u32>)>,
    ) {
        match self.tss_stack(level, 0) {
            (s, Err(fault)) => (s, Err(fault)),
            (s, Ok((selector, esp))) => match s.new_stack(selector, level, 0) {
                (t, Err(fault)) => (t, Err(fault)),
                (t, Ok(stack)) => match t.parameters_read(
                    size,
                    parameters as nat,
                    parameters as nat,
                ) {
                    (u, Err(fault)) => (u, Err(fault)),
                    (u, Ok(values)) => (u, Ok((selector, stack, esp, values))),
                },
            },
        }
    }

    /// A call to a more privileged level, on its stack, with that gate's
    /// parameters copied over.
    #[verifier::opaque]
    pub open spec fn inner_level_called(
        self,
        target: u16,
        code: Descriptor,
        offset: u32,
        size: u8,
        parameters: u32,
        cs: u32,
        eip: u32,
    ) -> (Core, CpuResult<()>) {
        match self.inner_stack(code.level(), size, parameters) {
            (s, Err(fault)) => (s, Err(fault)),
            (s, Ok((selector, stack, esp, values))) => s.inner_level_entered(
                selector,
                stack,
                esp,
                inner_call_frame(
                    self.cache(Seg::SS).selector as u32,
                    self.esp(),
                    values,
                    cs,
                    eip,
                ),
                size,
                target,
                code,
                offset,
            ),
        }
    }

    /// A frame pushed on the stack of a more privileged level, and its code
    /// segment entered.
    #[verifier::opaque]
    pub open spec fn inner_level_entered(
        self,
        selector: u16,
        stack: SegCache,
        esp: u32,
        frame: Seq<u32>,
        size: u8,
        target: u16,
        code: Descriptor,
        offset: u32,
    ) -> (Core, CpuResult<()>) {
        match self.frame_pushed(
            stack,
            esp,
            size,
            frame,
            ss(error_of(selector)),
            code.level() == 3,
        ) {
            (s, Err(fault)) => (s, Err(fault)),
            (s, Ok(sp)) => match s.level_entered(stack, esp, sp, false, target, code) {
                (t, Err(fault)) => (t, Err(fault)),
                (t, Ok(_)) => (Core { eip: offset, ..t }, Ok(())),
            },
        }
    }

    /// A call through a call gate.
    pub open spec fn gate_called(self, selector: u16, gate: Descriptor, cs: u32, eip: u32) -> (
        Core,
        CpuResult<()>,
    ) {
        let size: u8 = if gate.type_field() == CALL_GATE32 {
            4
        } else {
            2
        };
        match self.gate_target(selector, gate) {
            (s, Err(fault)) => (s, Err(fault)),
            (s, Ok((target, code, offset))) => if !code.conforming_code() && code.level()
                < s.cpl {
                s.inner_level_called(target, code, offset, size, gate.parameters(), cs, eip)
            } else {
                s.same_level_called(target, code, offset, size, cs, eip)
            },
        }
    }

    /// A far call: to a code segment, through a call gate or to a task.
    pub open spec fn called(self, selector: u16, offset: u32, size: u8) -> (Core, CpuResult<()>) {
        let cs = self.cache(Seg::CS).selector as u32;
        let eip = self.eip;
        if null_selector(selector) {
            (self, Err(gp(0)))
        } else {
            match self.fetch(selector, 0) {
                (s, Err(fault)) => (s, Err(fault)),
                (s, Ok(desc)) => if desc.code() {
                    match s.direct_code_fault(selector, desc) {
                        Some(fault) => (s, Err(fault)),
                        None => if offset > desc.byte_limit() {
                            (s, Err(gp(0)))
                        } else {
                            s.same_level_called(selector, desc, offset, size, cs, eip)
                        },
                    }
                } else if desc.segment() {
                    (s, Err(gp(error_of(selector))))
                } else if call_gate(desc) {
                    s.gate_called(selector, desc, cs, eip)
                } else if leads_to_task(desc) {
                    s.task_jumped(selector, desc, Switch::Call)
                } else {
                    (s, Err(gp(error_of(selector))))
                },
            }
        }
    }

    /// The code segment that a far return goes to, at the level its selector
    /// asks for.
    #[verifier::opaque]
    pub open spec fn return_code(self, selector: u16, offset: u32) -> (
        Core,
        CpuResult<Descriptor>,
    ) {
        let err = error_of(selector);
        let level = rpl_of(selector);
        if null_selector(selector) {
            (self, Err(gp(0)))
        } else if level < self.cpl {
            (self, Err(gp(err)))
        } else {
            match self.fetch(selector, 0) {
                (s, Err(fault)) => (s, Err(fault)),
                (s, Ok(desc)) => if !desc.code() || (desc.conforming_code() && desc.level()
                    > level) || (!desc.conforming_code() && desc.level() != level) {
                    (s, Err(gp(err)))
                } else if !desc.is_present() {
                    (s, Err(np(err)))
                } else if offset > desc.byte_limit() {
                    (s, Err(gp(0)))
                } else {
                    (s, Ok(desc))
                },
            }
        }
    }

    /// EFLAGS loaded where IRET popped them.
    pub open spec fn flags_popped(self, flags: Option<u32>, size: u8) -> Core {
        match flags {
            Some(value) => self.flags_loaded(value, size, true),
            None => self,
        }
    }

    /// A return to the same level, `drop` bytes up the stack.
    #[verifier::opaque]
    pub open spec fn same_level_returned(
        self,
        selector: u16,
        desc: Descriptor,
        offset: u32,
        size: u8,
        drop: u32,
        flags: Option<u32>,
    ) -> (Core, CpuResult<()>) {
        let sp = self.stack_ptr().wrapping_add(drop);
        match self.cs_loaded(selector, desc, rpl_of(selector)) {
            (s, Err(fault)) => (s, Err(fault)),
            (s, Ok(_)) => (
                Core { eip: offset, ..s.with_stack_ptr(sp) }.flags_popped(flags, size),
                Ok(()),
            ),
        }
    }

    /// The stack of the outer level that a far return goes to: its segment's
    /// selector and descriptor, marked, and its stack pointer.
    #[verifier::opaque]
    pub open spec fn outer_stack(self, level: u8, size: u8, at: u32) -> (
        Core,
        CpuResult<(u16, Descriptor, u32)>,
    ) {
        match self.stack_read(at, size) {
            (s, Err(fault)) => (s, Err(fault)),
            (s, Ok(esp)) => match s.stack_read((at + size) as u32, 2) {
                (t, Err(fault)) => (t, Err(fault)),
                (t, Ok(value)) => {
                    let selector = value as u16;
                    let err = error_of(selector);
                    if null_selector(selector) {
                        (t, Err(gp(0)))
                    } else if rpl_of(selector) != level {
                        (t, Err(gp(err)))
                    } else {
                        match t.fetch(selector, 0) {
                            (u, Err(fault)) => (u, Err(fault)),
                            (u, Ok(desc)) => if !desc.can_write() || desc.level() != level {
                                (u, Err(gp(err)))
                            } else if !desc.is_present() {
                                (u, Err(ss(err)))
                            } else {
                                match u.mark(selector, desc) {
                                    (v, Err(fault)) => (v, Err(fault)),
                                    (v, Ok(_)) => (v, Ok((selector, desc.marked(), esp))),
                                }
                            },
                        }
                    }
                },
            },
        }
    }

    /// On the stack of an outer level, at an offset of its code segment,
    /// without the segments it may not use.
    pub open spec fn outer_started(
        self,
        offset: u32,
        size: u8,
        release: u32,
        stack: SegCache,
        esp: u32,
    ) -> Core {
        let new_esp = if size == 2 {
            (self.esp() & 0xFFFF_0000) | (esp & 0xFFFF)
        } else {
            esp
        };
        let s = self.with_cache(Seg::SS, stack).with_esp(new_esp);
        let t = s.with_stack_ptr(s.stack_ptr().wrapping_add(release));
        Core { eip: offset, ..t }.inaccessible_nulled()
    }

    /// A return to an outer level, on its own stack. The flags load with the
    /// privilege of the level returning.
    #[verifier::opaque]
    pub open spec fn outer_level_returned(
        self,
        selector: u16,
        desc: Descriptor,
        offset: u32,
        size: u8,
        at: u32,
        release: u32,
        flags: Option<u32>,
    ) -> (Core, CpuResult<()>) {
        let level = rpl_of(selector);
        match self.outer_stack(level, size, at) {
            (s, Err(fault)) => (s, Err(fault)),
            (s, Ok((stack_sel, stack, esp))) => match s.flags_popped(flags, size).cs_loaded(
                selector,
                desc,
                level,
            ) {
                (t, Err(fault)) => (t, Err(fault)),
                (t, Ok(_)) => (
                    t.outer_started(offset, size, release, stack.cached(stack_sel), esp),
                    Ok(()),
                ),
            },
        }
    }

    /// The part of RETF and IRET after CS:EIP, and EFLAGS, were read.
    pub open spec fn returned(
        self,
        selector: u16,
        offset: u32,
        size: u8,
        popped: u32,
        release: u32,
        flags: Option<u32>,
    ) -> (Core, CpuResult<()>) {
        match self.return_code(selector, offset) {
            (s, Err(fault)) => (s, Err(fault)),
            (s, Ok(desc)) => if rpl_of(selector) == s.cpl {
                s.same_level_returned(
                    selector,
                    desc,
                    offset,
                    size,
                    (popped + release) as u32,
                    flags,
                )
            } else {
                s.outer_level_returned(
                    selector,
                    desc,
                    offset,
                    size,
                    (popped + release) as u32,
                    release,
                    flags,
                )
            },
        }
    }

    /// RETF in protected mode.
    pub open spec fn far_returned(self, size: u8, release: u32) -> (Core, CpuResult<()>) {
        match self.stack_read(0, size) {
            (s, Err(fault)) => (s, Err(fault)),
            (s, Ok(offset)) => match s.stack_read(size as u32, 2) {
                (t, Err(fault)) => (t, Err(fault)),
                (t, Ok(selector)) => t.returned(
                    selector as u16,
                    slot_offset(offset, size),
                    size,
                    (2 * size) as u32,
                    release,
                    None,
                ),
            },
        }
    }

    /// The `n` selectors on the stack of an IRET to virtual-8086 mode.
    pub open spec fn v86_selectors(self, n: nat) -> (Core, CpuResult<Seq<u16>>)
        decreases n,
    {
        if n == 0 {
            (self, Ok(Seq::empty()))
        } else {
            match self.v86_selectors((n - 1) as nat) {
                (s, Err(fault)) => (s, Err(fault)),
                (s, Ok(sels)) => match s.stack_read((16 + 4 * (n - 1)) as u32, 2) {
                    (t, Err(fault)) => (t, Err(fault)),
                    (t, Ok(value)) => (t, Ok(sels.push(value as u16))),
                },
            }
        }
    }

    /// In virtual-8086 mode: SS, ES, DS, FS and GS in `sels`.
    pub open spec fn v86_entered(
        self,
        offset: u32,
        cs: u16,
        flags: u32,
        esp: u32,
        sels: Seq<u16>,
    ) -> Core {
        let s = self.with_flags((flags & (0x0003_7FD5 | self.model_flags())) | R1).seg_v86(
            Seg::CS,
            cs,
        ).seg_v86(Seg::SS, sels[0]).seg_v86(Seg::ES, sels[1]).seg_v86(Seg::DS, sels[2]).seg_v86(
            Seg::FS,
            sels[3],
        ).seg_v86(Seg::GS, sels[4]).with_esp(esp);
        Core { eip: offset & 0xFFFF, cpl: 3, ..s }
    }

    /// IRETD from level 0 to virtual-8086 mode.
    #[verifier::opaque]
    pub open spec fn returned_to_v86(self, offset: u32, cs: u16, flags: u32) -> (
        Core,
        CpuResult<()>,
    ) {
        match self.stack_read(12, 4) {
            (s, Err(fault)) => (s, Err(fault)),
            (s, Ok(esp)) => match s.v86_selectors(5) {
                (t, Err(fault)) => (t, Err(fault)),
                (t, Ok(sels)) => (t.v86_entered(offset, cs, flags, esp, sels), Ok(())),
            },
        }
    }

    /// IRET in protected mode.
    pub open spec fn interrupt_returned(self, size: u8) -> (Core, CpuResult<()>) {
        if self.flags & NT == NT {
            self.task_returned()
        } else {
            match self.stack_read(0, size) {
                (s, Err(fault)) => (s, Err(fault)),
                (s, Ok(offset)) => match s.stack_read(size as u32, 2) {
                    (t, Err(fault)) => (t, Err(fault)),
                    (t, Ok(selector)) => match t.stack_read((2 * size) as u32, size) {
                        (u, Err(fault)) => (u, Err(fault)),
                        (u, Ok(flags)) => if size == 4 && flags & VM != 0 && u.cpl == 0 {
                            u.returned_to_v86(offset, selector as u16, flags)
                        } else {
                            u.returned(
                                selector as u16,
                                slot_offset(offset, size),
                                size,
                                (3 * size) as u32,
                                0,
                                Some(flags),
                            )
                        },
                    },
                },
            }
        }
    }
}

/// Where a parameter cannot be read, the parameters cannot.
proof fn lemma_parameters_stop(s: Core, size: u8, total: nat, n: nat, m: nat)
    requires
        n <= m,
    ensures
        s.parameters_read(size, total, n).1 matches Err(fault) ==> s.parameters_read(
            size,
            total,
            m,
        ) == (s.parameters_read(size, total, n).0, Err::<Seq<u32>, Fault>(fault)),
    decreases m,
{
    if n < m {
        lemma_parameters_stop(s, size, total, n, (m - 1) as nat);
    }
}

proof fn lemma_selectors_stop(s: Core, n: nat, m: nat)
    requires
        n <= m,
    ensures
        s.v86_selectors(n).1 matches Err(fault) ==> s.v86_selectors(m) == (
            s.v86_selectors(n).0,
            Err::<Seq<u16>, Fault>(fault),
        ),
    decreases m,
{
    if n < m {
        lemma_selectors_stop(s, n, (m - 1) as nat);
    }
}

/// What a call to a more privileged level leaves on its stack.
fn call_frame(old_ss: u32, old_esp: u32, values: Vec<u32>, cs: u32, eip: u32) -> (frame: Vec<u32>)
    ensures
        frame@ == inner_call_frame(old_ss, old_esp, values@, cs, eip),
{
    reveal(inner_call_frame);
    let ghost copied = values@;
    let mut values = values;
    let mut frame: Vec<u32> = Vec::new();
    frame.push(old_ss);
    frame.push(old_esp);
    frame.append(&mut values);
    frame.push(cs);
    frame.push(eip);
    assert(frame@ =~= seq![old_ss, old_esp] + copied + seq![cs, eip]);
    frame
}

impl Cpu {
    /// Check a code segment a JMP or CALL goes to directly: a conforming
    /// segment at the CPL or more privileged, or a non-conforming one at
    /// the CPL with RPL <= CPL.
    fn check_direct_code(&self, selector: u16, desc: &Descriptor) -> (done: CpuResult<()>)
        ensures
            match self@.direct_code_fault(selector, *desc) {
                Some(fault) => done == Err::<(), Fault>(fault),
                None => done is Ok,
            },
    {
        let err: u32 = sel_error(selector);
        let ok = if desc.conforming() {
            desc.dpl() <= self.cpl
        } else {
            rpl(selector) <= self.cpl && desc.dpl() == self.cpl
        };
        if !ok {
            return Err(Fault::gp(err));
        }
        if !desc.present() {
            return Err(Fault::np(err));
        }
        Ok(())
    }

    /// Check a gate and code segment of a far JMP or CALL through a call
    /// gate: (target selector, its descriptor, target offset).
    fn call_gate_target(&mut self, selector: u16, gate: &Descriptor) -> (target: CpuResult<
        (u16, Descriptor, u32),
    >)
        ensures
            final(self)@ == old(self)@.gate_target(selector, *gate).0,
            target == old(self)@.gate_target(selector, *gate).1,
    {
        reveal(Core::gate_target);
        let err: u32 = sel_error(selector);
        if gate.dpl() < self.cpl || gate.dpl() < rpl(selector) {
            return Err(Fault::gp(err));
        }
        if !gate.present() {
            return Err(Fault::np(err));
        }
        let target: u16 = gate.gate_selector();
        if is_null(target) {
            return Err(Fault::gp(0));
        }
        let code = self.fetch_descriptor(target, 0)?;
        let terr: u32 = sel_error(target);
        if !code.is_code() || code.dpl() > self.cpl {
            return Err(Fault::gp(terr));
        }
        if !code.present() {
            return Err(Fault::np(terr));
        }
        let offset: u32 = gate.gate_offset();
        if offset > code.limit() {
            return Err(Fault::gp(0));
        }
        Ok((target, code, offset))
    }

    fn enter_code(&mut self, selector: u16, desc: Descriptor, offset: u32) -> (done: CpuResult<()>)
        ensures
            final(self)@ == old(self)@.code_entered(selector, desc, offset).0,
            done == old(self)@.code_entered(selector, desc, offset).1,
    {
        reveal(Core::code_entered);
        let mut desc = desc;
        let cpl: u8 = self.cpl;
        self.load_cs_pm(selector, &mut desc, cpl)?;
        self.eip = offset;
        Ok(())
    }

    /// JMP to `selector:offset` in protected mode.
    pub fn jmp_far_pm(&mut self, selector: u16, offset: u32) -> (done: CpuResult<()>)
        ensures
            final(self)@ == old(self)@.jumped(selector, offset).0,
            done == old(self)@.jumped(selector, offset).1,
    {
        if is_null(selector) {
            return Err(Fault::gp(0));
        }
        let desc = self.fetch_descriptor(selector, 0)?;
        let err: u32 = sel_error(selector);
        if desc.is_code() {
            self.check_direct_code(selector, &desc)?;
            if offset > desc.limit() {
                return Err(Fault::gp(0));
            }
            return self.enter_code(selector, desc, offset);
        }
        if desc.is_segment() {
            return Err(Fault::gp(err));
        }
        let typ: u8 = desc.typ();
        if typ == CALL_GATE16 || typ == CALL_GATE32 {
            let (target, code, offset): (u16, Descriptor, u32) = self.call_gate_target(
                selector,
                &desc,
            )?;
            // A JMP through a call gate doesn't change privilege.
            if !code.conforming() && code.dpl() != self.cpl {
                return Err(Fault::gp(sel_error(target)));
            }
            self.enter_code(target, code, offset)
        } else if typ == TASK_GATE || typ == TSS16_AVAILABLE || typ == TSS32_AVAILABLE {
            self.far_to_task(selector, desc, Switch::Jmp)
        } else {
            Err(Fault::gp(err))
        }
    }

    fn call_same_level(
        &mut self,
        selector: u16,
        desc: Descriptor,
        offset: u32,
        size: u8,
        cs: u32,
        eip: u32,
    ) -> (done: CpuResult<()>)
        requires
            is_operand_size(size),
        ensures
            final(self)@ == old(self)@.same_level_called(selector, desc, offset, size, cs, eip).0,
            done == old(self)@.same_level_called(selector, desc, offset, size, cs, eip).1,
    {
        reveal(Core::same_level_called);
        let mut desc = desc;
        let cpl: u8 = self.cpl;
        let ss = self.seg_cache(Seg::SS);
        let sp: u32 = self.stack_ptr();
        let frame: [u32; 2] = [cs, eip];
        assert(frame@ =~= seq![cs, eip]);
        let sp: u32 = self.push_frame(
            &ss,
            sp,
            size,
            frame.as_slice(),
            Fault::ss(0),
            cpl == 3,
        )?;
        self.load_cs_pm(selector, &mut desc, cpl)?;
        self.set_stack_ptr(sp);
        self.eip = offset;
        Ok(())
    }

    fn read_parameters(&mut self, size: u8, total: u32) -> (values: CpuResult<Vec<u32>>)
        requires
            size == 2 || size == 4,
            total <= 31,
        ensures
            final(self)@ == old(self)@.parameters_read(size, total as nat, total as nat).0,
            match (values, old(self)@.parameters_read(size, total as nat, total as nat).1) {
                (Ok(v), Ok(w)) => v@ == w,
                (Err(f), Err(g)) => f == g,
                _ => false,
            },
    {
        let mut values: Vec<u32> = Vec::new();
        let mut n: u32 = 0;
        while n < total
            invariant
                n <= total <= 31,
                size == 2 || size == 4,
                old(self)@.parameters_read(size, total as nat, n as nat) == (
                    self@,
                    Ok::<Seq<u32>, Fault>(values@),
                ),
            decreases total - n,
        {
            proof {
                lemma_parameters_stop(
                    old(self)@,
                    size,
                    total as nat,
                    (n + 1) as nat,
                    total as nat,
                );
            }
            let left: u32 = total - n - 1;
            assert(left * size <= 124) by (nonlinear_arith)
                requires
                    left <= 31,
                    size <= 4,
            ;
            let value: u32 = self.stack_read(left * size as u32, size)?;
            values.push(value);
            n = n + 1;
        }
        Ok(values)
    }

    fn prepare_inner_stack(&mut self, level: u8, size: u8, parameters: u32) -> (stack: CpuResult<
        (u16, SegCache, u32, Vec<u32>),
    >)
        requires
            size == 2 || size == 4,
            parameters <= 31,
        ensures
            final(self)@ == old(self)@.inner_stack(level, size, parameters).0,
            match (stack, old(self)@.inner_stack(level, size, parameters).1) {
                (Ok(v), Ok(w)) => v.0 == w.0 && v.1 == w.1 && v.2 == w.2 && v.3@ == w.3,
                (Err(f), Err(g)) => f == g,
                _ => false,
            },
    {
        reveal(Core::inner_stack);
        let (ss_sel, esp): (u16, u32) = self.tss_stack(level, 0)?;
        let ss_cache = self.check_new_stack(ss_sel, level, 0)?;
        let values: Vec<u32> = self.read_parameters(size, parameters)?;
        Ok((ss_sel, ss_cache, esp, values))
    }

    fn call_inner_level(
        &mut self,
        target: u16,
        code: Descriptor,
        offset: u32,
        size: u8,
        parameters: u32,
        cs: u32,
        eip: u32,
    ) -> (done: CpuResult<()>)
        requires
            size == 2 || size == 4,
            parameters <= 31,
        ensures
            final(self)@ == old(self)@.inner_level_called(
                target,
                code,
                offset,
                size,
                parameters,
                cs,
                eip,
            ).0,
            done == old(self)@.inner_level_called(
                target,
                code,
                offset,
                size,
                parameters,
                cs,
                eip,
            ).1,
    {
        reveal(Core::inner_level_called);
        // To a more privileged level, on its stack from the TSS, copying
        // that gate's parameters over.
        let new_cpl: u8 = code.dpl();
        let (old_ss, old_esp): (u32, u32) = (self.ss() as u32, self.esp());
        let (ss_sel, ss_cache, esp, values): (u16, SegCache, u32, Vec<u32>) =
            self.prepare_inner_stack(new_cpl, size, parameters)?;
        let frame: Vec<u32> = call_frame(old_ss, old_esp, values, cs, eip);
        self.enter_inner_level(
            ss_sel,
            ss_cache,
            esp,
            frame.as_slice(),
            size,
            target,
            code,
            offset,
        )
    }

    fn enter_inner_level(
        &mut self,
        ss_sel: u16,
        stack: SegCache,
        esp: u32,
        frame: &[u32],
        size: u8,
        target: u16,
        code: Descriptor,
        offset: u32,
    ) -> (done: CpuResult<()>)
        requires
            is_operand_size(size),
        ensures
            final(self)@ == old(self)@.inner_level_entered(
                ss_sel,
                stack,
                esp,
                frame@,
                size,
                target,
                code,
                offset,
            ).0,
            done == old(self)@.inner_level_entered(
                ss_sel,
                stack,
                esp,
                frame@,
                size,
                target,
                code,
                offset,
            ).1,
    {
        reveal(Core::inner_level_entered);
        let fault = Fault::ss(sel_error(ss_sel));
        let user = code.dpl() == 3;
        let sp: u32 = self.push_frame(&stack, esp, size, frame, fault, user)?;
        self.enter_level(stack, esp, sp, false, target, code)?;
        self.eip = offset;
        Ok(())
    }

    /// CALL to `selector:offset` in protected mode; a direct call pushes
    /// CS:EIP with `size` (2 or 4) bytes each.
    pub fn call_far_pm(&mut self, selector: u16, offset: u32, size: u8) -> (done: CpuResult<()>)
        requires
            is_operand_size(size),
        ensures
            final(self)@ == old(self)@.called(selector, offset, size).0,
            done == old(self)@.called(selector, offset, size).1,
    {
        if is_null(selector) {
            return Err(Fault::gp(0));
        }
        let (cs, eip): (u32, u32) = (self.cs() as u32, self.eip);
        let desc = self.fetch_descriptor(selector, 0)?;
        let err: u32 = sel_error(selector);
        if desc.is_code() {
            self.check_direct_code(selector, &desc)?;
            if offset > desc.limit() {
                return Err(Fault::gp(0));
            }
            return self.call_same_level(selector, desc, offset, size, cs, eip);
        }
        if desc.is_segment() {
            return Err(Fault::gp(err));
        }
        let typ: u8 = desc.typ();
        if typ == CALL_GATE16 || typ == CALL_GATE32 {
            let (target, code, offset): (u16, Descriptor, u32) = self.call_gate_target(
                selector,
                &desc,
            )?;
            let gsize: u8 = if typ == CALL_GATE32 {
                4
            } else {
                2
            };
            if !code.conforming() && code.dpl() < self.cpl {
                self.call_inner_level(target, code, offset, gsize, desc.gate_params(), cs, eip)
            } else {
                self.call_same_level(target, code, offset, gsize, cs, eip)
            }
        } else if typ == TASK_GATE || typ == TSS16_AVAILABLE || typ == TSS32_AVAILABLE {
            self.far_to_task(selector, desc, Switch::Call)
        } else {
            Err(Fault::gp(err))
        }
    }

    /// RETF in protected mode: `size`-byte stack slots, and `release`
    /// bytes of parameters to drop (RETF imm16).
    pub fn ret_far_pm(&mut self, size: u8, release: u32) -> (done: CpuResult<()>)
        requires
            is_operand_size(size),
            3 * size + release <= u32::MAX,
        ensures
            final(self)@ == old(self)@.far_returned(size, release).0,
            done == old(self)@.far_returned(size, release).1,
    {
        let offset: u32 = self.stack_read(0, size)?;
        let selector: u32 = self.stack_read(size as u32, 2)?;
        let offset: u32 = if size == 2 {
            offset & 0xFFFF
        } else {
            offset
        };
        self.return_far_pm(selector as u16, offset, size, 2 * size as u32, release, None)
    }

    /// IRET in protected mode: to the calling task when NT is set, to
    /// virtual-8086 mode when the popped EFLAGS says so (from level 0),
    /// otherwise to the same or an outer level.
    pub fn iret_pm(&mut self, size: u8) -> (done: CpuResult<()>)
        requires
            is_operand_size(size),
        ensures
            final(self)@ == old(self)@.interrupt_returned(size).0,
            done == old(self)@.interrupt_returned(size).1,
    {
        if self.flags.contains(NT) {
            return self.task_return();
        }
        let offset: u32 = self.stack_read(0, size)?;
        let selector: u32 = self.stack_read(size as u32, 2)?;
        let flags: u32 = self.stack_read(2 * size as u32, size)?;
        if size == 4 && flags & VM != 0 && self.cpl == 0 {
            return self.iret_to_v86(offset, selector as u16, flags);
        }
        let offset: u32 = if size == 2 {
            offset & 0xFFFF
        } else {
            offset
        };
        self.return_far_pm(selector as u16, offset, size, 3 * size as u32, 0, Some(flags))
    }

    fn fetch_return_code(&mut self, selector: u16, offset: u32) -> (desc: CpuResult<Descriptor>)
        ensures
            final(self)@ == old(self)@.return_code(selector, offset).0,
            desc == old(self)@.return_code(selector, offset).1,
    {
        reveal(Core::return_code);
        if is_null(selector) {
            return Err(Fault::gp(0));
        }
        let err: u32 = sel_error(selector);
        let new_cpl: u8 = rpl(selector);
        if new_cpl < self.cpl {
            return Err(Fault::gp(err));
        }
        let desc = self.fetch_descriptor(selector, 0)?;
        if !desc.is_code() || (desc.conforming() && desc.dpl() > new_cpl) || (!desc.conforming()
            && desc.dpl() != new_cpl) {
            return Err(Fault::gp(err));
        }
        if !desc.present() {
            return Err(Fault::np(err));
        }
        if offset > desc.limit() {
            return Err(Fault::gp(0));
        }
        Ok(desc)
    }

    fn return_same_level(
        &mut self,
        selector: u16,
        desc: Descriptor,
        offset: u32,
        size: u8,
        drop: u32,
        flags: Option<u32>,
    ) -> (done: CpuResult<()>)
        ensures
            final(self)@ == old(self)@.same_level_returned(
                selector,
                desc,
                offset,
                size,
                drop,
                flags,
            ).0,
            done == old(self)@.same_level_returned(selector, desc, offset, size, drop, flags).1,
    {
        reveal(Core::same_level_returned);
        let mut desc = desc;
        let sp: u32 = self.stack_ptr().wrapping_add(drop);
        self.load_cs_pm(selector, &mut desc, rpl(selector))?;
        self.set_stack_ptr(sp);
        self.eip = offset;
        if let Some(flags) = flags {
            self.load_flags_pm(flags, size, true);
        }
        Ok(())
    }

    fn read_outer_stack(&mut self, level: u8, size: u8, at: u32) -> (stack: CpuResult<
        (u16, Descriptor, u32),
    >)
        requires
            is_operand_size(size),
            at + size <= u32::MAX,
        ensures
            final(self)@ == old(self)@.outer_stack(level, size, at).0,
            stack == old(self)@.outer_stack(level, size, at).1,
    {
        reveal(Core::outer_stack);
        let new_esp: u32 = self.stack_read(at, size)?;
        let ss_sel: u32 = self.stack_read(at + size as u32, 2)?;
        let ss_sel: u16 = ss_sel as u16;
        let ss_err: u32 = sel_error(ss_sel);
        if is_null(ss_sel) {
            return Err(Fault::gp(0));
        }
        if rpl(ss_sel) != level {
            return Err(Fault::gp(ss_err));
        }
        let mut ss_desc = self.fetch_descriptor(ss_sel, 0)?;
        if !ss_desc.writable_data() || ss_desc.dpl() != level {
            return Err(Fault::gp(ss_err));
        }
        if !ss_desc.present() {
            return Err(Fault::ss(ss_err));
        }
        self.mark_accessed(ss_sel, &mut ss_desc)?;
        Ok((ss_sel, ss_desc, new_esp))
    }

    fn return_outer_level(
        &mut self,
        selector: u16,
        desc: Descriptor,
        offset: u32,
        size: u8,
        at: u32,
        release: u32,
        flags: Option<u32>,
    ) -> (done: CpuResult<()>)
        requires
            is_operand_size(size),
            at + size <= u32::MAX,
        ensures
            final(self)@ == old(self)@.outer_level_returned(
                selector,
                desc,
                offset,
                size,
                at,
                release,
                flags,
            ).0,
            done == old(self)@.outer_level_returned(
                selector,
                desc,
                offset,
                size,
                at,
                release,
                flags,
            ).1,
    {
        reveal(Core::outer_level_returned);
        let mut desc = desc;
        let level: u8 = rpl(selector);
        // To an outer level: its stack pointer follows.
        let (ss_sel, ss_desc, esp): (u16, Descriptor, u32) = self.read_outer_stack(
            level,
            size,
            at,
        )?;
        if let Some(flags) = flags {
            // The flags load with the privilege of the level returning.
            self.load_flags_pm(flags, size, true);
        }
        self.load_cs_pm(selector, &mut desc, level)?;
        self.start_outer(offset, size, release, ss_desc.cache(ss_sel), esp);
        Ok(())
    }

    fn start_outer(&mut self, offset: u32, size: u8, release: u32, stack: SegCache, esp: u32)
        ensures
            final(self)@ == old(self)@.outer_started(offset, size, release, stack, esp),
    {
        self.set_seg_cache(Seg::SS, stack);
        let new_esp: u32 = if size == 2 {
            (self.esp() & 0xFFFF_0000) | (esp & 0xFFFF)
        } else {
            esp
        };
        self.set_esp(new_esp);
        let sp: u32 = self.stack_ptr().wrapping_add(release);
        self.set_stack_ptr(sp);
        self.eip = offset;
        self.null_inaccessible_segments();
    }

    /// The part of RETF and IRET after popping CS:EIP (and EFLAGS):
    /// `popped` bytes. A return to an outer level pops that level's SS:ESP
    /// too.
    fn return_far_pm(
        &mut self,
        selector: u16,
        offset: u32,
        size: u8,
        popped: u32,
        release: u32,
        flags: Option<u32>,
    ) -> (done: CpuResult<()>)
        requires
            is_operand_size(size),
            popped + release + size <= u32::MAX,
        ensures
            final(self)@ == old(self)@.returned(selector, offset, size, popped, release, flags).0,
            done == old(self)@.returned(selector, offset, size, popped, release, flags).1,
    {
        let desc = self.fetch_return_code(selector, offset)?;
        if rpl(selector) == self.cpl {
            self.return_same_level(selector, desc, offset, size, popped + release, flags)
        } else {
            self.return_outer_level(
                selector,
                desc,
                offset,
                size,
                popped + release,
                release,
                flags,
            )
        }
    }

    fn read_v86_selectors(&mut self) -> (sels: CpuResult<Vec<u16>>)
        ensures
            final(self)@ == old(self)@.v86_selectors(5).0,
            match (sels, old(self)@.v86_selectors(5).1) {
                (Ok(v), Ok(w)) => v@ == w && v@.len() == 5,
                (Err(f), Err(g)) => f == g,
                _ => false,
            },
    {
        let mut sels: Vec<u16> = Vec::new();
        let mut n: u32 = 0;
        while n < 5
            invariant
                n <= 5,
                sels@.len() == n,
                old(self)@.v86_selectors(n as nat) == (self@, Ok::<Seq<u16>, Fault>(sels@)),
            decreases 5 - n,
        {
            proof {
                lemma_selectors_stop(old(self)@, (n + 1) as nat, 5);
            }
            let value: u32 = self.stack_read(16 + 4 * n, 2)?;
            sels.push(value as u16);
            n = n + 1;
        }
        Ok(sels)
    }

    /// IRETD from level 0 to virtual-8086 mode: the frame holds EIP, CS,
    /// EFLAGS, ESP, SS, ES, DS, FS and GS.
    fn iret_to_v86(&mut self, offset: u32, cs: u16, flags: u32) -> (done: CpuResult<()>)
        ensures
            final(self)@ == old(self)@.returned_to_v86(offset, cs, flags).0,
            done == old(self)@.returned_to_v86(offset, cs, flags).1,
    {
        reveal(Core::returned_to_v86);
        let esp: u32 = self.stack_read(12, 4)?;
        let sels: Vec<u16> = self.read_v86_selectors()?;
        // Everything up to VM.
        let writable: u32 = 0x0003_7FD5 | self.model_flags();
        self.flags = CpuFlags { bits: (flags & writable) | R1 };
        self.load_seg_v86(Seg::CS, cs);
        self.load_seg_v86(Seg::SS, sels[0]);
        self.load_seg_v86(Seg::ES, sels[1]);
        self.load_seg_v86(Seg::DS, sels[2]);
        self.load_seg_v86(Seg::FS, sels[3]);
        self.load_seg_v86(Seg::GS, sels[4]);
        self.set_esp(esp);
        self.eip = offset & 0xFFFF;
        self.cpl = 3;
        Ok(())
    }
}

/// A far return never goes to a more privileged level.
pub proof fn law_returns_go_outward(
    s: Core,
    selector: u16,
    offset: u32,
    size: u8,
    popped: u32,
    release: u32,
    flags: Option<u32>,
)
    requires
        rpl_of(selector) < s.cpl,
    ensures
        s.returned(selector, offset, size, popped, release, flags).1 is Err,
        s.returned(selector, offset, size, popped, release, flags).0 == s,
{
    reveal(Core::return_code);
}

/// A far jump to a code segment, or through a call gate, keeps the privilege
/// level.
pub proof fn law_jumps_keep_level(s: Core, selector: u16, desc: Descriptor, offset: u32)
    ensures
        s.code_entered(selector, desc, offset).1 is Ok ==> s.code_entered(
            selector,
            desc,
            offset,
        ).0.cpl == s.cpl,
{
    reveal(Core::code_entered);
    reveal(Core::cs_loaded);
}

} // verus!
