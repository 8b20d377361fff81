//! What far returns undo: a far call, and an interrupt through a gate.

use vstd::arithmetic::div_mod::lemma_small_mod;
use vstd::prelude::*;

use super::alu::value_count;
use super::farxfer::slot_offset;
use super::fault::{ext_of, pushed_pointer, ss, IntSource};
use super::laws::{
    apart, in_memory, law_operand_reads_back, lemma_operand_keeps, lemma_other_operand,
    lemma_same_memory,
};
use super::mem::{allows_span, is_operand_size, ref_byte, Access, MemRef};
use super::regs::{reads_where_it_writes, with_word, Seg, SegCache};
use super::seg::{rpl_of, Descriptor, TASK_GATE};
use super::state::{Core, Fault, IF, NT, R1, RF, TF, VM};

verus! {

/// Where an operand lies without paging.
pub open spec fn flat(s: Core, lin: u32, size: u8) -> MemRef {
    MemRef {
        lin,
        phys: s.translated(lin),
        phys2: if lin % 0x1000 > 0x1000 - size {
            s.translated((lin | 0xFFF).wrapping_add(1))
        } else {
            0
        },
        size,
    }
}

/// Where the `n`th slot of a frame on the stack lies without paging.
pub open spec fn frame_slot(s: Core, size: u8, n: nat) -> MemRef {
    flat(
        s,
        s.cache(Seg::SS).base.wrapping_add(
            pushed_pointer(s.cache(Seg::SS), s.stack_ptr(), size, n),
        ),
        size,
    )
}

/// Whether the return address that a far call to `selector` leaves on the
/// stack lies in memory, with no byte in two places, and apart from the byte
/// that the call marks the descriptor `desc` accessed in.
pub open spec fn call_frame_apart(s: Core, selector: u16, desc: Descriptor, size: u8) -> bool {
    let r1 = frame_slot(s, size, 1);
    let r2 = frame_slot(s, size, 2);
    let mark = flat(s, s.descriptor_at(selector)->0.wrapping_add(5), 1);
    &&& in_memory(s.ram, r1)
    &&& in_memory(s.ram, r2)
    &&& apart(r1, r2)
    &&& !desc.was_accessed() ==> apart(r1, mark) && apart(r2, mark)
}

proof fn lemma_flat(s: Core, lin: u32, size: u8, access: Access, user: bool)
    requires
        !s.paging(),
    ensures
        s.lin_ref(lin, size, access, user) == (s, Ok::<MemRef, Fault>(flat(s, lin, size))),
{
    reveal(Core::lin_ref);
    reveal(Core::lin_to_phys);
}

proof fn lemma_fetch_keeps(s: Core, selector: u16, ext: u32)
    requires
        !s.paging(),
    ensures
        s.fetch(selector, ext).0 == s,
{
    reveal(Core::descriptor_read);
    match s.descriptor_at(selector) {
        Some(addr) => {
            lemma_flat(s, addr, 4, Access::Read, false);
            lemma_flat(s, addr.wrapping_add(4), 4, Access::Read, false);
        },
        None => {},
    }
}

/// Marking a descriptor writes a byte, or nothing.
proof fn lemma_mark(s: Core, selector: u16, desc: Descriptor)
    requires
        !s.paging(),
        s.mark(selector, desc).1 is Ok,
    ensures
        s.mark(selector, desc).0 == (if desc.was_accessed() {
            s
        } else {
            s.with_operand(
                flat(s, s.descriptor_at(selector)->0.wrapping_add(5), 1),
                ((desc.marked().0 >> 40) as u8) as u32,
            )
        }),
{
    reveal(Core::mark);
    if !desc.was_accessed() {
        lemma_flat(
            s,
            s.descriptor_at(selector)->0.wrapping_add(5),
            1,
            Access::Write,
            false,
        );
    }
}

proof fn lemma_two_slots(s: Core, cache: SegCache, sp: u32, size: u8, a: u32, b: u32, user: bool)
    requires
        !s.paging(),
        s.frame_pushed(cache, sp, size, seq![a, b], ss(0), user).1 is Ok,
    ensures
        ({
            let p1 = pushed_pointer(cache, sp, size, 1);
            let p2 = pushed_pointer(cache, sp, size, 2);
            let r1 = flat(s, cache.base.wrapping_add(p1), size);
            let r2 = flat(s, cache.base.wrapping_add(p2), size);
            &&& allows_span(cache, p1, size as int, Access::Write)
            &&& allows_span(cache, p2, size as int, Access::Write)
            &&& s.frame_pushed(cache, sp, size, seq![a, b], ss(0), user) == (
                s.with_operand(r1, a).with_operand(r2, b),
                Ok::<u32, Fault>(p2),
            )
        }),
{
    reveal(Core::frame_pushed);
    reveal_with_fuel(Core::frame_checked, 3);
    reveal_with_fuel(Core::frame_written, 3);
    let p1 = pushed_pointer(cache, sp, size, 1);
    let p2 = pushed_pointer(cache, sp, size, 2);
    lemma_flat(s, cache.base.wrapping_add(p1), size, Access::Write, user);
    lemma_flat(s, cache.base.wrapping_add(p2), size, Access::Write, user);
    let values = seq![a, b];
    assert(values.len() == 2 && values[0] == a && values[1] == b);
}

proof fn lemma_bits(x: u32, y: u16)
    by (bit_vector)
    ensures
        x & 0xFFFF_FFFF == x,
        x & 0xFFFF == x % 0x1_0000,
        (x % 0x1_0000) & 0xFFFF == x & 0xFFFF,
        x as u16 == x % 0x1_0000,
        (x & 0xFFEF_FFFF) % 0x1000 == x % 0x1000,
        (x & 0xFFFF_0000) | ((x as u16) as u32) == x,
        ((x & 0xFFFF_0000) | (y as u32)) & 0xFFFF_0000 == x & 0xFFFF_0000,
        ((x & 0xFFFF_0000) | (y as u32)) as u16 == y,
        (y & 0xFFFC) | (((y & 3) as u8) as u16) == y,
{
}

/// The stack pointer below two slots, seen from there.
proof fn lemma_pointers(s: Core, t: Core, size: u8)
    requires
        s.wf(),
        size == 2 || size == 4,
        t.cache(Seg::SS) == s.cache(Seg::SS),
        t.gpr == s.with_stack_ptr(
            pushed_pointer(s.cache(Seg::SS), s.stack_ptr(), size, 2),
        ).gpr,
    ensures
        ({
            let p1 = pushed_pointer(s.cache(Seg::SS), s.stack_ptr(), size, 1);
            let p2 = pushed_pointer(s.cache(Seg::SS), s.stack_ptr(), size, 2);
            &&& t.stack_offset(0) == p2
            &&& t.stack_offset(size as u32) == p1
            &&& t.with_stack_ptr(t.stack_ptr().wrapping_add((2 * size) as u32)).gpr == s.gpr
        }),
{
    reveal_with_fuel(pushed_pointer, 3);
    let cache = s.cache(Seg::SS);
    let sp = s.stack_ptr();
    let p1 = pushed_pointer(cache, sp, size, 1);
    let p2 = pushed_pointer(cache, sp, size, 2);
    let d1 = sp.wrapping_sub(size as u32);
    let d2 = p1.wrapping_sub(size as u32);
    lemma_bits(d1, 0);
    lemma_bits(d2, 0);
    let back = t.stack_ptr().wrapping_add((2 * size) as u32);
    if s.stack32() {
        assert(p1 == d1 && p2 == d2);
        assert(t.stack_ptr() == p2);
        assert(back == sp);
    } else {
        assert(p1 == d1 % 0x1_0000 && p2 == d2 % 0x1_0000);
        lemma_bits(s.esp(), p2 as u16);
        lemma_bits(p2, 0);
        assert(t.esp() == with_word(s.esp(), p2 as u16));
        assert(t.stack_ptr() == p2);
        lemma_bits(p2.wrapping_add(0), 0);
        lemma_bits(p2.wrapping_add(size as u32), 0);
        lemma_bits(back, 0);
        assert(back as u16 == s.esp() as u16);
    }
    let u = t.with_stack_ptr(back);
    assert(u.esp() == s.esp());
    assert(u.gpr =~= s.gpr);
}

/// The low word of an operand is where the operand starts.
proof fn lemma_low_word(s: Core, lin: u32, size: u8, word: u16)
    requires
        size == 2 || size == 4,
        s.operand(flat(s, lin, size)) == word as u32,
    ensures
        s.operand(flat(s, lin, 2)) as u16 == word,
{
    reveal(Core::operand);
    lemma_bits(lin, 0);
    let r = flat(s, lin, size);
    let q = flat(s, lin, 2);
    assert(r.phys % 0x1000 == lin % 0x1000);
    assert(ref_byte(r, 0) == ref_byte(q, 0));
    assert(ref_byte(r, 1) == ref_byte(q, 1));
    if size == 4 {
        super::laws::lemma_low_half(
            s.operand_byte(r, 0),
            s.operand_byte(r, 1),
            s.operand_byte(r, 2),
            s.operand_byte(r, 3),
        );
    }
}

/// With paging off, a far return undoes a far call to a code segment,
/// wherever the calling segment can be returned to: CS and EIP, as far as the
/// stack's slots hold it, every register, the whole of ESP with them, and the
/// privilege level are as they were.
pub proof fn law_far_return_undoes_call(
    s: Core,
    selector: u16,
    desc: Descriptor,
    offset: u32,
    size: u8,
)
    requires
        s.wf(),
        !s.paging(),
        size == 2 || size == 4,
        reads_where_it_writes(s.cache(Seg::SS)),
        rpl_of(s.cache(Seg::CS).selector) == s.cpl,
        s.fetch(selector, 0).1 == Ok::<Descriptor, Fault>(desc),
        desc.code(),
        s.called(selector, offset, size).1 is Ok,
        s.called(selector, offset, size).0.far_returned(size, 0).1 is Ok,
        call_frame_apart(s, selector, desc, size),
    ensures
        ({
            let u = s.called(selector, offset, size).0.far_returned(size, 0).0;
            &&& u.cache(Seg::CS).selector == s.cache(Seg::CS).selector
            &&& u.eip == slot_offset(s.eip, size)
            &&& u.gpr == s.gpr
            &&& u.cpl == s.cpl
        }),
{
    let t = s.called(selector, offset, size).0;
    lemma_called(s, selector, desc, offset, size);
    lemma_pointers(s, t, size);
    let cache = s.cache(Seg::SS);
    let cs = s.cache(Seg::CS).selector;
    let (r1, r2) = (frame_slot(s, size, 1), frame_slot(s, size, 2));
    let p1 = pushed_pointer(cache, s.stack_ptr(), size, 1);
    let p2 = pushed_pointer(cache, s.stack_ptr(), size, 2);
    let lin1 = cache.base.wrapping_add(p1);
    let lin2 = cache.base.wrapping_add(p2);
    lemma_flat(t, lin2, size, Access::Read, t.user());
    lemma_flat(t, lin1, 2, Access::Read, t.user());
    assert(flat(t, lin1, size) == r1 && flat(t, lin2, size) == r2);
    lemma_low_word(t, lin1, size, cs);
    assert(t.stack_read(0, size) == (t, Ok::<u32, Fault>(t.operand(r2)))) by {
        reveal(Core::mem_ref);
    }
    let low = t.operand(flat(t, lin1, 2));
    assert(t.stack_read(size as u32, 2) == (t, Ok::<u32, Fault>(low))) by {
        reveal(Core::mem_ref);
    }
    lemma_bits(s.eip, cs);
    assert(slot_offset(t.operand(r2), size) == slot_offset(s.eip, size));
    let back = slot_offset(s.eip, size);
    lemma_fetch_keeps(t, cs, 0);
    assert(t.return_code(cs, back).0 == t) by {
        reveal(Core::return_code);
    }
    let code = t.return_code(cs, back).1->Ok_0;
    reveal(Core::same_level_returned);
    reveal(Core::cs_loaded);
    lemma_mark(t, cs, code);
    lemma_operand_keeps(
        t,
        flat(t, t.descriptor_at(cs)->0.wrapping_add(5), 1),
        ((code.marked().0 >> 40) as u8) as u32,
    );
}

/// What a far call to a code segment leaves.
proof fn lemma_called(s: Core, selector: u16, desc: Descriptor, offset: u32, size: u8)
    requires
        s.wf(),
        !s.paging(),
        size == 2 || size == 4,
        s.fetch(selector, 0).1 == Ok::<Descriptor, Fault>(desc),
        desc.code(),
        s.called(selector, offset, size).1 is Ok,
        call_frame_apart(s, selector, desc, size),
    ensures
        ({
            let t = s.called(selector, offset, size).0;
            let p1 = pushed_pointer(s.cache(Seg::SS), s.stack_ptr(), size, 1);
            let p2 = pushed_pointer(s.cache(Seg::SS), s.stack_ptr(), size, 2);
            &&& t.cache(Seg::SS) == s.cache(Seg::SS)
            &&& t.gpr == s.with_stack_ptr(p2).gpr
            &&& t.cr0 == s.cr0
            &&& t.a20 == s.a20
            &&& t.cpl == s.cpl
            &&& t.wf()
            &&& allows_span(s.cache(Seg::SS), p1, size as int, Access::Write)
            &&& allows_span(s.cache(Seg::SS), p2, size as int, Access::Write)
            &&& t.operand(frame_slot(s, size, 1)) == s.cache(Seg::CS).selector
            &&& t.operand(frame_slot(s, size, 2)) == s.eip as int % value_count(size)
        }),
{
    let cs = s.cache(Seg::CS).selector as u32;
    let cache = s.cache(Seg::SS);
    lemma_fetch_keeps(s, selector, 0);
    reveal(Core::same_level_called);
    reveal(Core::cs_loaded);
    let (r1, r2) = (frame_slot(s, size, 1), frame_slot(s, size, 2));
    lemma_two_slots(s, cache, s.stack_ptr(), size, cs, s.eip, s.cpl == 3);
    let a = s.with_operand(r1, cs);
    let b = a.with_operand(r2, s.eip);
    lemma_operand_keeps(s, r1, cs);
    lemma_operand_keeps(a, r2, s.eip);
    super::laws::lemma_written_size(s, r1, cs);
    super::laws::lemma_written_size(a, r2, s.eip);
    law_operand_reads_back(s, r1, cs);
    law_operand_reads_back(a, r2, s.eip);
    lemma_other_operand(a, r2, s.eip, r1);
    let byte = ((desc.marked().0 >> 40) as u8) as u32;
    let place = flat(s, s.descriptor_at(selector)->0.wrapping_add(5), 1);
    lemma_mark(b, selector, desc);
    let m = b.mark(selector, desc).0;
    assert(flat(b, b.descriptor_at(selector)->0.wrapping_add(5), 1) == place);
    lemma_operand_keeps(b, place, byte);
    if !desc.was_accessed() {
        lemma_other_operand(b, place, byte, r1);
        lemma_other_operand(b, place, byte, r2);
    }
    let t = s.called(selector, offset, size).0;
    lemma_same_memory(t, m);
}

/// Whether the three values that an interrupt leaves on the stack for a
/// handler at the same level lie in memory, with no byte in two places, and
/// apart from the byte that its code's descriptor `desc` is marked accessed
/// in.
pub open spec fn interrupt_frame_apart(
    s: Core,
    selector: u16,
    desc: Descriptor,
    size: u8,
) -> bool {
    let r1 = frame_slot(s, size, 1);
    let r2 = frame_slot(s, size, 2);
    let r3 = frame_slot(s, size, 3);
    let mark = flat(s, s.descriptor_at(selector)->0.wrapping_add(5), 1);
    &&& in_memory(s.ram, r1)
    &&& in_memory(s.ram, r2)
    &&& in_memory(s.ram, r3)
    &&& apart(r1, r2)
    &&& apart(r1, r3)
    &&& apart(r2, r3)
    &&& !desc.was_accessed() ==> apart(r1, mark) && apart(r2, mark) && apart(r3, mark)
}

proof fn lemma_three_slots(
    s: Core,
    cache: SegCache,
    sp: u32,
    size: u8,
    values: Seq<u32>,
    fault: Fault,
    user: bool,
)
    requires
        !s.paging(),
        values.len() == 3,
        s.frame_pushed(cache, sp, size, values, fault, user).1 is Ok,
    ensures
        ({
            let p1 = pushed_pointer(cache, sp, size, 1);
            let p2 = pushed_pointer(cache, sp, size, 2);
            let p3 = pushed_pointer(cache, sp, size, 3);
            let r1 = flat(s, cache.base.wrapping_add(p1), size);
            let r2 = flat(s, cache.base.wrapping_add(p2), size);
            let r3 = flat(s, cache.base.wrapping_add(p3), size);
            &&& allows_span(cache, p1, size as int, Access::Write)
            &&& allows_span(cache, p2, size as int, Access::Write)
            &&& allows_span(cache, p3, size as int, Access::Write)
            &&& s.frame_pushed(cache, sp, size, values, fault, user) == (
                s.with_operand(r1, values[0]).with_operand(r2, values[1]).with_operand(
                    r3,
                    values[2],
                ),
                Ok::<u32, Fault>(p3),
            )
        }),
{
    reveal(Core::frame_pushed);
    reveal_with_fuel(Core::frame_checked, 4);
    reveal_with_fuel(Core::frame_written, 4);
    let p1 = pushed_pointer(cache, sp, size, 1);
    let p2 = pushed_pointer(cache, sp, size, 2);
    let p3 = pushed_pointer(cache, sp, size, 3);
    lemma_flat(s, cache.base.wrapping_add(p1), size, Access::Write, user);
    lemma_flat(s, cache.base.wrapping_add(p2), size, Access::Write, user);
    lemma_flat(s, cache.base.wrapping_add(p3), size, Access::Write, user);
}

/// The stack pointer below three slots, seen from there.
proof fn lemma_three_pointers(s: Core, t: Core, size: u8)
    requires
        s.wf(),
        size == 2 || size == 4,
        t.cache(Seg::SS) == s.cache(Seg::SS),
        t.gpr == s.with_stack_ptr(
            pushed_pointer(s.cache(Seg::SS), s.stack_ptr(), size, 3),
        ).gpr,
    ensures
        ({
            let p1 = pushed_pointer(s.cache(Seg::SS), s.stack_ptr(), size, 1);
            let p2 = pushed_pointer(s.cache(Seg::SS), s.stack_ptr(), size, 2);
            let p3 = pushed_pointer(s.cache(Seg::SS), s.stack_ptr(), size, 3);
            &&& t.stack_offset(0) == p3
            &&& t.stack_offset(size as u32) == p2
            &&& t.stack_offset((2 * size) as u32) == p1
            &&& t.with_stack_ptr(t.stack_ptr().wrapping_add((3 * size) as u32)).gpr == s.gpr
        }),
{
    reveal_with_fuel(pushed_pointer, 4);
    let cache = s.cache(Seg::SS);
    let sp = s.stack_ptr();
    let p1 = pushed_pointer(cache, sp, size, 1);
    let p2 = pushed_pointer(cache, sp, size, 2);
    let p3 = pushed_pointer(cache, sp, size, 3);
    let d1 = sp.wrapping_sub(size as u32);
    let d2 = p1.wrapping_sub(size as u32);
    let d3 = p2.wrapping_sub(size as u32);
    lemma_bits(d1, 0);
    lemma_bits(d2, 0);
    lemma_bits(d3, 0);
    let back = t.stack_ptr().wrapping_add((3 * size) as u32);
    if s.stack32() {
        assert(p1 == d1 && p2 == d2 && p3 == d3);
        assert(t.stack_ptr() == p3);
        assert(back == sp);
    } else {
        assert(p1 == d1 % 0x1_0000 && p2 == d2 % 0x1_0000 && p3 == d3 % 0x1_0000);
        lemma_bits(s.esp(), p3 as u16);
        lemma_bits(p3, 0);
        assert(t.esp() == with_word(s.esp(), p3 as u16));
        assert(t.stack_ptr() == p3);
        lemma_bits(p3.wrapping_add(0), 0);
        lemma_bits(p3.wrapping_add(size as u32), 0);
        lemma_bits(p3.wrapping_add((2 * size) as u32), 0);
        lemma_bits(back, 0);
        assert(back as u16 == s.esp() as u16);
    }
    let u = t.with_stack_ptr(back);
    assert(u.esp() == s.esp());
    assert(u.gpr =~= s.gpr);
}

/// What an interrupt through a gate to a handler at the same level leaves.
#[verifier::rlimit(80)]
#[verifier::spinoff_prover]
proof fn lemma_interrupted(
    s: Core,
    vector: u8,
    source: IntSource,
    gate: Descriptor,
    desc: Descriptor,
    size: u8,
)
    requires
        s.wf(),
        s.pm(),
        !s.paging(),
        s.gate_read(vector, source).1 == Ok::<Descriptor, Fault>(gate),
        gate.type_field() != TASK_GATE,
        s.handler_code(gate, ext_of(source)).1 == Ok::<Descriptor, Fault>(desc),
        desc.conforming_code() || desc.level() >= s.cpl,
        size == (if gate.wide_system() {
            4u8
        } else {
            2u8
        }),
        s.delivered(vector, source, None).1 is Ok,
        interrupt_frame_apart(s, gate.target_selector(), desc, size),
    ensures
        ({
            let t = s.delivered(vector, source, None).0;
            let p1 = pushed_pointer(s.cache(Seg::SS), s.stack_ptr(), size, 1);
            let p2 = pushed_pointer(s.cache(Seg::SS), s.stack_ptr(), size, 2);
            let p3 = pushed_pointer(s.cache(Seg::SS), s.stack_ptr(), size, 3);
            &&& t == (Core {
                ram: t.ram,
                gpr: s.with_stack_ptr(p3).gpr,
                seg: t.seg,
                eip: t.eip,
                flags: t.flags,
                ..s
            })
            &&& t.cache(Seg::SS) == s.cache(Seg::SS)
            &&& t.seg.len() == s.seg.len()
            &&& t.flags == s.flags & !(TF | NT | RF | VM) || t.flags == (s.flags & !(TF | NT | RF
                | VM)) & !IF
            &&& allows_span(s.cache(Seg::SS), p1, size as int, Access::Write)
            &&& allows_span(s.cache(Seg::SS), p2, size as int, Access::Write)
            &&& allows_span(s.cache(Seg::SS), p3, size as int, Access::Write)
            &&& t.operand(frame_slot(s, size, 1)) == s.flags as int % value_count(size)
            &&& t.operand(frame_slot(s, size, 2)) == s.cache(Seg::CS).selector
            &&& t.operand(frame_slot(s, size, 3)) == s.eip as int % value_count(size)
        }),
{
    reveal(Core::delivered);
    reveal(Core::gate_read);
    reveal(Core::gate_entered);
    reveal(Core::handler_code);
    reveal(Core::same_handler);
    reveal(Core::cs_loaded);
    let selector = gate.target_selector();
    let cs = s.cache(Seg::CS).selector as u32;
    let cache = s.cache(Seg::SS);
    lemma_read_keeps(s, s.idtr.base.wrapping_add((8 * vector) as u32));
    lemma_fetch_keeps(s, selector, ext_of(source));
    let (r1, r2, r3) = (frame_slot(s, size, 1), frame_slot(s, size, 2), frame_slot(s, size, 3));
    let values = s.same_frame(None);
    assert(values.len() == 3 && values[0] == s.flags && values[1] == cs && values[2] == s.eip);
    lemma_three_slots(s, cache, s.stack_ptr(), size, values, ss(ext_of(source)), s.cpl == 3);
    let a = s.with_operand(r1, s.flags);
    let b = a.with_operand(r2, cs);
    let c = b.with_operand(r3, s.eip);
    lemma_operand_keeps(s, r1, s.flags);
    lemma_operand_keeps(a, r2, cs);
    lemma_operand_keeps(b, r3, s.eip);
    super::laws::lemma_written_size(s, r1, s.flags);
    super::laws::lemma_written_size(a, r2, cs);
    super::laws::lemma_written_size(b, r3, s.eip);
    law_operand_reads_back(s, r1, s.flags);
    law_operand_reads_back(a, r2, cs);
    law_operand_reads_back(b, r3, s.eip);
    lemma_other_operand(a, r2, cs, r1);
    lemma_other_operand(b, r3, s.eip, r1);
    lemma_other_operand(b, r3, s.eip, r2);
    let place = flat(s, s.descriptor_at(selector)->0.wrapping_add(5), 1);
    lemma_mark(c, selector, desc);
    let m = c.mark(selector, desc).0;
    assert(flat(c, c.descriptor_at(selector)->0.wrapping_add(5), 1) == place);
    lemma_marks_apart(c, selector, desc, r1, r2, r3, place);
    let p3 = pushed_pointer(cache, s.stack_ptr(), size, 3);
    let w = m.with_stack_ptr(p3);
    let again = desc.marked();
    lemma_mark(w, selector, again);
    assert(flat(w, w.descriptor_at(selector)->0.wrapping_add(5), 1) == place);
    lemma_same_memory(w, m);
    lemma_marks_apart(w, selector, again, r1, r2, r3, place);
    let t = s.delivered(vector, source, None).0;
    let n = w.mark(selector, again).0;
    assert(n == (Core { ram: n.ram, gpr: s.with_stack_ptr(p3).gpr, ..s }));
    let x = w.cs_loaded(selector, again, s.cpl).0;
    assert(s.same_handler(selector, desc, size, None, ext_of(source)).0 == x);
    assert(t == x.handler_started(gate));
    assert(x == (Core { ram: n.ram, gpr: n.gpr, seg: x.seg, ..s }));
    lemma_same_memory(t, n);
    assert(t.operand(r1) == s.flags as int % value_count(size));
    lemma_small_mod(cs as nat, value_count(size) as nat);
    assert(t.operand(r2) == cs);
    assert(t.operand(r3) == s.eip as int % value_count(size));
}

/// Marking a descriptor leaves the operands alone that lie apart.
proof fn lemma_marks_apart(
    s: Core,
    selector: u16,
    desc: Descriptor,
    r1: MemRef,
    r2: MemRef,
    r3: MemRef,
    place: MemRef,
)
    requires
        is_operand_size(r1.size) && is_operand_size(r2.size) && is_operand_size(r3.size),
        in_memory(s.ram, r1) && in_memory(s.ram, r2) && in_memory(s.ram, r3),
        !desc.was_accessed() ==> apart(r1, place) && apart(r2, place) && apart(r3, place),
        s.mark(selector, desc).0 == (if desc.was_accessed() {
            s
        } else {
            s.with_operand(place, ((desc.marked().0 >> 40) as u8) as u32)
        }),
    ensures
        ({
            let t = s.mark(selector, desc).0;
            &&& t == (Core { ram: t.ram, ..s })
            &&& t.ram.len() == s.ram.len()
            &&& t.operand(r1) == s.operand(r1)
            &&& t.operand(r2) == s.operand(r2)
            &&& t.operand(r3) == s.operand(r3)
        }),
{
    let byte = ((desc.marked().0 >> 40) as u8) as u32;
    if !desc.was_accessed() {
        lemma_operand_keeps(s, place, byte);
        lemma_other_operand(s, place, byte, r1);
        lemma_other_operand(s, place, byte, r2);
        lemma_other_operand(s, place, byte, r3);
        assert(ref_byte(r1, 0) < s.ram.len());
        super::laws::lemma_written_size(s, place, byte);
    }
}

proof fn lemma_read_keeps(s: Core, addr: u32)
    requires
        !s.paging(),
    ensures
        s.descriptor_read(addr).0 == s,
{
    reveal(Core::descriptor_read);
    lemma_flat(s, addr, 4, Access::Read, false);
    lemma_flat(s, addr.wrapping_add(4), 4, Access::Read, false);
}

proof fn lemma_handler_flags(f: u32, g: u32)
    by (bit_vector)
    requires
        g == f & !(0x100u32 | 0x4000 | 0x1_0000 | 0x2_0000) || g == (f & !(0x100u32 | 0x4000
            | 0x1_0000 | 0x2_0000)) & !0x200u32,
    ensures
        g & 0x4000 == 0,
        f & 0x2_0000 == 0 || f & 0x2_0000 == 0x2_0000,
        f & 0x2_0000 == 0 ==> g & 0x2_0000 == 0,
        f & 0x2_0000 == 0 ==> (g & !(0x4DD5u32 | 0x1_0000 | 0 | (0x3000u32 | 0x200))) | (f & (0x4DD5u32
            | 0x1_0000 | 0 | (0x3000u32 | 0x200))) | 2 == f | 2,
        f & 0x2_0000 == 0 ==> (g & !(0x4DD5u32 | 0x1_0000 | 0x4_0000 | (0x3000u32 | 0x200))) | (f & (
        0x4DD5u32 | 0x1_0000 | 0x4_0000 | (0x3000u32 | 0x200))) | 2 == f | 2,
{
}

/// With paging off, IRET undoes an interrupt through a gate to a handler at
/// the same level, wherever the interrupted segment can be returned to: CS
/// and EIP, as far as the stack's slots hold it, every register, the whole of
/// ESP with them, and the privilege level are as they were. The flags that
/// the level may load come back from the stack; at level 0, from 32-bit
/// slots, all of them do.
#[verifier::rlimit(80)]
#[verifier::spinoff_prover]
pub proof fn law_iret_undoes_interrupt(
    s: Core,
    vector: u8,
    source: IntSource,
    gate: Descriptor,
    desc: Descriptor,
    size: u8,
)
    requires
        s.wf(),
        s.pm(),
        !s.paging(),
        reads_where_it_writes(s.cache(Seg::SS)),
        rpl_of(s.cache(Seg::CS).selector) == s.cpl,
        s.gate_read(vector, source).1 == Ok::<Descriptor, Fault>(gate),
        gate.type_field() != TASK_GATE,
        s.handler_code(gate, ext_of(source)).1 == Ok::<Descriptor, Fault>(desc),
        desc.conforming_code() || desc.level() >= s.cpl,
        size == (if gate.wide_system() {
            4u8
        } else {
            2u8
        }),
        s.delivered(vector, source, None).1 is Ok,
        s.delivered(vector, source, None).0.interrupt_returned(size).1 is Ok,
        interrupt_frame_apart(s, gate.target_selector(), desc, size),
    ensures
        ({
            let t = s.delivered(vector, source, None).0;
            let u = t.interrupt_returned(size).0;
            &&& u.cache(Seg::CS).selector == s.cache(Seg::CS).selector
            &&& u.eip == slot_offset(s.eip, size)
            &&& u.gpr == s.gpr
            &&& u.cpl == s.cpl
            &&& u.flags == t.flags_loaded(
                (s.flags as int % value_count(size)) as u32,
                size,
                true,
            ).flags
            &&& s.cpl == 0 && size == 4 ==> u.flags == s.flags | R1
        }),
{
    let t = s.delivered(vector, source, None).0;
    lemma_interrupted(s, vector, source, gate, desc, size);
    lemma_three_pointers(s, t, size);
    lemma_handler_flags(s.flags, t.flags);
    assert(t.flags & NT != NT);
    let cache = s.cache(Seg::SS);
    let cs = s.cache(Seg::CS).selector;
    let (r1, r2, r3) = (frame_slot(s, size, 1), frame_slot(s, size, 2), frame_slot(s, size, 3));
    let p1 = pushed_pointer(cache, s.stack_ptr(), size, 1);
    let p2 = pushed_pointer(cache, s.stack_ptr(), size, 2);
    let p3 = pushed_pointer(cache, s.stack_ptr(), size, 3);
    let lin1 = cache.base.wrapping_add(p1);
    let lin2 = cache.base.wrapping_add(p2);
    let lin3 = cache.base.wrapping_add(p3);
    lemma_flat(t, lin1, size, Access::Read, t.user());
    lemma_flat(t, lin2, 2, Access::Read, t.user());
    lemma_flat(t, lin3, size, Access::Read, t.user());
    assert(flat(t, lin1, size) == r1 && flat(t, lin2, size) == r2 && flat(t, lin3, size) == r3);
    lemma_low_word(t, lin2, size, cs);
    assert(t.stack_read(0, size) == (t, Ok::<u32, Fault>(t.operand(r3)))) by {
        reveal(Core::mem_ref);
    }
    let low = t.operand(flat(t, lin2, 2));
    assert(t.stack_read(size as u32, 2) == (t, Ok::<u32, Fault>(low))) by {
        reveal(Core::mem_ref);
    }
    let flags = t.operand(r1);
    assert(t.stack_read((2 * size) as u32, size) == (t, Ok::<u32, Fault>(flags))) by {
        reveal(Core::mem_ref);
    }
    lemma_bits(s.eip, cs);
    let back = slot_offset(s.eip, size);
    assert(slot_offset(t.operand(r3), size) == back);
    assert(flags == s.flags as int % value_count(size));
    if size == 4 {
        lemma_small_mod(s.flags as nat, 0x1_0000_0000);
        assert(flags == s.flags);
    }
    assert(low as u16 == cs);
    assert(!(size == 4 && flags & VM != 0));
    assert(t.interrupt_returned(size) == t.returned(
        cs,
        back,
        size,
        (3 * size) as u32,
        0,
        Some(flags),
    ));
    lemma_fetch_keeps(t, cs, 0);
    assert(t.return_code(cs, back).0 == t) by {
        reveal(Core::return_code);
    }
    let code = t.return_code(cs, back).1->Ok_0;
    reveal(Core::same_level_returned);
    reveal(Core::cs_loaded);
    lemma_mark(t, cs, code);
    lemma_operand_keeps(
        t,
        flat(t, t.descriptor_at(cs)->0.wrapping_add(5), 1),
        ((code.marked().0 >> 40) as u8) as u32,
    );
}

} // verus!
