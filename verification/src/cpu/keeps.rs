//! What memory access, task switches and interrupts leave alone: the floating
//! point unit, the debug registers, the counters and what DOS keeps.

use vstd::prelude::*;

use super::fault::IntSource;
use super::mem::{Access, MemRef};
use super::regs::{Seg, SegCache};
use super::seg::Descriptor;
use super::state::{Core, Fault};
use super::task::Switch;

verus! {

broadcast proof fn keeps_with_operand(s: Core, r: MemRef, value: u32)
    ensures
        (#[trigger] s.with_operand(r, value)).rest == s.rest,
{
    reveal(Core::with_operand);
}

broadcast proof fn keeps_lin_to_phys(s: Core, lin: u32, write: bool, user: bool)
    ensures
        (#[trigger] s.lin_to_phys(lin, write, user)).0.rest == s.rest,
{
    reveal(Core::lin_to_phys);
    reveal(Core::walk);
}

broadcast proof fn keeps_lin_ref(s: Core, lin: u32, size: u8, access: Access, user: bool)
    ensures
        (#[trigger] s.lin_ref(lin, size, access, user)).0.rest == s.rest,
{
    reveal(Core::lin_ref);
    broadcast use keeps_lin_to_phys;

}

broadcast proof fn keeps_mem_ref(s: Core, seg: Seg, off: u32, size: u8, access: Access)
    ensures
        (#[trigger] s.mem_ref(seg, off, size, access)).0.rest == s.rest,
{
    reveal(Core::mem_ref);
    broadcast use keeps_lin_ref;

}

broadcast proof fn keeps_descriptor_read(s: Core, addr: u32)
    ensures
        (#[trigger] s.descriptor_read(addr)).0.rest == s.rest,
{
    reveal(Core::descriptor_read);
    broadcast use keeps_lin_ref;

}

broadcast proof fn keeps_mark(s: Core, selector: u16, desc: Descriptor)
    ensures
        (#[trigger] s.mark(selector, desc)).0.rest == s.rest,
{
    reveal(Core::mark);
    broadcast use {keeps_lin_ref, keeps_with_operand};

}

broadcast proof fn keeps_cs_loaded(s: Core, selector: u16, desc: Descriptor, cpl: u8)
    ensures
        (#[trigger] s.cs_loaded(selector, desc, cpl)).0.rest == s.rest,
{
    reveal(Core::cs_loaded);
    broadcast use keeps_mark;

}

broadcast proof fn keeps_row_read(s: Core, base: u32, offset: u32, stride: u32, size: u8, n: nat)
    ensures
        (#[trigger] s.row_read(base, offset, stride, size, n)).0.rest == s.rest,
    decreases n,
{
    broadcast use keeps_lin_ref;

    if n > 0 {
        keeps_row_read(s, base, offset, stride, size, (n - 1) as nat);
    }
}

broadcast proof fn keeps_row_written(
    s: Core,
    base: u32,
    offset: u32,
    stride: u32,
    size: u8,
    values: Seq<u32>,
    n: nat,
)
    ensures
        (#[trigger] s.row_written(base, offset, stride, size, values, n)).0.rest == s.rest,
    decreases n,
{
    broadcast use {keeps_lin_ref, keeps_with_operand};

    if n > 0 {
        keeps_row_written(s, base, offset, stride, size, values, (n - 1) as nat);
    }
}

broadcast proof fn keeps_frame_checked(
    s: Core,
    cache: SegCache,
    sp: u32,
    size: u8,
    fault: Fault,
    user: bool,
    n: nat,
)
    ensures
        (#[trigger] s.frame_checked(cache, sp, size, fault, user, n)).0.rest == s.rest,
    decreases n,
{
    broadcast use keeps_lin_ref;

    if n > 0 {
        keeps_frame_checked(s, cache, sp, size, fault, user, (n - 1) as nat);
    }
}

broadcast proof fn keeps_frame_written(s: Core, refs: Seq<MemRef>, values: Seq<u32>, n: nat)
    ensures
        (#[trigger] s.frame_written(refs, values, n)).rest == s.rest,
    decreases n,
{
    broadcast use keeps_with_operand;

    if n > 0 {
        keeps_frame_written(s, refs, values, (n - 1) as nat);
    }
}

broadcast proof fn keeps_task32_read(s: Core, base: u32)
    ensures
        (#[trigger] s.task32_read(base)).0.rest == s.rest,
{
    reveal(Core::task32_read);
    broadcast use keeps_row_read;

}

broadcast proof fn keeps_task16_read(s: Core, base: u32)
    ensures
        (#[trigger] s.task16_read(base)).0.rest == s.rest,
{
    reveal(Core::task16_read);
    broadcast use keeps_row_read;

}

broadcast proof fn keeps_task_saved(s: Core, flags: u32)
    ensures
        (#[trigger] s.task_saved(flags)).0.rest == s.rest,
{
    reveal(Core::task_saved);
    broadcast use keeps_row_written;

}

broadcast proof fn keeps_busy_set(s: Core, selector: u16, busy: bool)
    ensures
        (#[trigger] s.busy_set(selector, busy)).0.rest == s.rest,
{
    reveal(Core::busy_set);
    broadcast use {keeps_lin_ref, keeps_with_operand};

}

broadcast proof fn keeps_task_linked(s: Core, new_sel: u16, new_base: u32, switch: Switch)
    ensures
        (#[trigger] s.task_linked(new_sel, new_base, switch)).0.rest == s.rest,
{
    reveal(Core::task_linked);
    broadcast use {keeps_busy_set, keeps_lin_ref, keeps_with_operand};

}

broadcast proof fn keeps_task_ldt(s: Core, ldt: u16, ext: u32)
    ensures
        (#[trigger] s.task_ldt(ldt, ext)).0.rest == s.rest,
{
    reveal(Core::task_ldt);
    broadcast use keeps_descriptor_read;

}

broadcast proof fn keeps_task_code_and_stack(s: Core, cs: u16, stack: u16, ext: u32)
    ensures
        (#[trigger] s.task_code_and_stack(cs, stack, ext)).0.rest == s.rest,
{
    reveal(Core::task_code_and_stack);
    broadcast use {keeps_descriptor_read, keeps_mark, keeps_cs_loaded};

}

broadcast proof fn keeps_task_data(s: Core, seg: Seg, selector: u16, cpl: u8, ext: u32)
    ensures
        (#[trigger] s.task_data(seg, selector, cpl, ext)).0.rest == s.rest,
{
    reveal(Core::task_data);
    broadcast use {keeps_descriptor_read, keeps_mark};

}

broadcast proof fn keeps_task_data_segments(s: Core, sels: Seq<u16>, cpl: u8, ext: u32)
    ensures
        (#[trigger] s.task_data_segments(sels, cpl, ext)).0.rest == s.rest,
{
    reveal(Core::task_data_segments);
    broadcast use keeps_task_data;

}

broadcast proof fn keeps_task_segments(s: Core, ldt: u16, sels: Seq<u16>, ext: u32)
    ensures
        (#[trigger] s.task_segments(ldt, sels, ext)).0.rest == s.rest,
{
    reveal(Core::task_segments);
    broadcast use {keeps_task_ldt, keeps_task_code_and_stack, keeps_task_data_segments};

}

broadcast proof fn keeps_task_switched(s: Core, new_sel: u16, desc: Descriptor, switch: Switch, ext: u32)
    ensures
        (#[trigger] s.task_switched(new_sel, desc, switch, ext)).0.rest == s.rest,
{
    reveal(Core::task_switched);
    reveal(Core::task_entered);
    broadcast use {keeps_task32_read, keeps_task16_read, keeps_task_saved, keeps_task_linked, keeps_task_segments, keeps_mem_ref, keeps_with_operand};

}

broadcast proof fn keeps_frame_pushed(s: Core, cache: SegCache, sp: u32, size: u8, values: Seq<u32>, fault: Fault, user: bool)
    ensures
        (#[trigger] s.frame_pushed(cache, sp, size, values, fault, user)).0.rest == s.rest,
{
    reveal(Core::frame_pushed);
    broadcast use {keeps_frame_checked, keeps_frame_written};

}

broadcast proof fn keeps_tss_stack(s: Core, cpl: u8, ext: u32)
    ensures
        (#[trigger] s.tss_stack(cpl, ext)).0.rest == s.rest,
{
    reveal(Core::tss_stack);
    broadcast use keeps_lin_ref;

}

broadcast proof fn keeps_new_stack(s: Core, selector: u16, cpl: u8, ext: u32)
    ensures
        (#[trigger] s.new_stack(selector, cpl, ext)).0.rest == s.rest,
{
    reveal(Core::new_stack);
    broadcast use {keeps_descriptor_read, keeps_mark};

}

broadcast proof fn keeps_delivered_real(s: Core, vector: u8)
    ensures
        (#[trigger] s.delivered_real(vector)).0.rest == s.rest,
{
    reveal(Core::delivered_real);
    broadcast use {keeps_mem_ref, keeps_with_operand};

}

broadcast proof fn keeps_gate_read(s: Core, vector: u8, source: IntSource)
    ensures
        (#[trigger] s.gate_read(vector, source)).0.rest == s.rest,
{
    reveal(Core::gate_read);
    broadcast use keeps_descriptor_read;

}

broadcast proof fn keeps_handler_code(s: Core, gate: Descriptor, ext: u32)
    ensures
        (#[trigger] s.handler_code(gate, ext)).0.rest == s.rest,
{
    reveal(Core::handler_code);
    broadcast use keeps_descriptor_read;

}

broadcast proof fn keeps_level_entered(s: Core, stack: SegCache, esp: u32, sp: u32, from_v86: bool, selector: u16, desc: Descriptor)
    ensures
        (#[trigger] s.level_entered(stack, esp, sp, from_v86, selector, desc)).0.rest == s.rest,
{
    reveal(Core::level_entered);
    broadcast use {keeps_mark, keeps_cs_loaded};

}

broadcast proof fn keeps_inner_handler(s: Core, selector: u16, desc: Descriptor, size: u8, error: Option<u32>, ext: u32)
    ensures
        (#[trigger] s.inner_handler(selector, desc, size, error, ext)).0.rest == s.rest,
{
    reveal(Core::inner_handler);
    broadcast use {keeps_tss_stack, keeps_new_stack, keeps_frame_pushed, keeps_level_entered};

}

broadcast proof fn keeps_same_handler(s: Core, selector: u16, desc: Descriptor, size: u8, error: Option<u32>, ext: u32)
    ensures
        (#[trigger] s.same_handler(selector, desc, size, error, ext)).0.rest == s.rest,
{
    reveal(Core::same_handler);
    broadcast use {keeps_frame_pushed, keeps_mark, keeps_cs_loaded};

}

broadcast proof fn keeps_gate_entered(s: Core, gate: Descriptor, error: Option<u32>, ext: u32)
    ensures
        (#[trigger] s.gate_entered(gate, error, ext)).0.rest == s.rest,
{
    reveal(Core::gate_entered);
    broadcast use {keeps_handler_code, keeps_inner_handler, keeps_same_handler};

}

/// Entering the handler of an interrupt or exception, by way of a gate, a
/// task or the real-mode vectors, changes nothing of the floating point unit,
/// the debug registers, the counters and what DOS keeps, and neither does a
/// delivery that faults.
pub proof fn law_delivery_keeps_rest(
    s: Core,
    vector: u8,
    source: IntSource,
    error: Option<u32>,
)
    ensures
        s.delivered(vector, source, error).0.rest == s.rest,
{
    reveal(Core::delivered);
    broadcast use {
        keeps_delivered_real,
        keeps_gate_read,
        keeps_descriptor_read,
        keeps_task_switched,
        keeps_gate_entered,
    };

}

/// So does a far transfer to another task, or back from one.
pub proof fn law_task_switch_keeps_rest(
    s: Core,
    new_sel: u16,
    desc: Descriptor,
    switch: Switch,
    ext: u32,
)
    ensures
        s.task_switched(new_sel, desc, switch, ext).0.rest == s.rest,
{
    broadcast use keeps_task_switched;

}

} // verus!
