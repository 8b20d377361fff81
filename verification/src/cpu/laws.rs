//! What holds of memory and the stack as a whole.

use vstd::prelude::*;

use super::alu::value_count;
use super::fault::IntSource;
use super::mem::{byte_of, is_operand_size, push_slot, ref_byte, Access, MemRef};
use super::paging::{no_entry, page_flushed, page_of, tlb_slot};
use super::regs::{reads_where_it_writes, with_word, Seg, SegCache};
use super::state::{Core, Fault, TlbEntry};

verus! {

/// A translation that serves writes serves reads of the same page.
pub open spec fn entry_ok(e: TlbEntry) -> bool {
    e.write_tag == 0 || e.write_tag == e.read_tag
}

pub open spec fn tlb_ok(tlb: Seq<TlbEntry>) -> bool {
    forall|i: int| 0 <= i < tlb.len() ==> entry_ok(#[trigger] tlb[i])
}

/// Every access keeps the translations consistent, and so does flushing them,
/// all or a page's.
pub proof fn law_tlb_stays_consistent(s: Core, lin: u32, write: bool, user: bool)
    requires
        s.wf(),
        tlb_ok(s.tlb),
    ensures
        tlb_ok(s.lin_to_phys(lin, write, user).0.tlb),
        tlb_ok(Seq::new(2048, |i: int| no_entry())),
        tlb_ok(page_flushed(s.tlb, lin)),
{
    reveal(Core::walk);
    reveal(Core::lin_to_phys);
    assert forall|i: int| 0 <= i < s.tlb.len() implies entry_ok(
        #[trigger] s.lin_to_phys(lin, write, user).0.tlb[i],
    ) by {
        assert(entry_ok(s.tlb[i]));
    }
    assert forall|i: int| 0 <= i < s.tlb.len() implies entry_ok(
        #[trigger] page_flushed(s.tlb, lin)[i],
    ) by {
        assert(entry_ok(s.tlb[i]));
    }
}

/// Whether a checked operand lies in memory, with no byte in two places.
pub open spec fn in_memory(ram: Seq<u8>, r: MemRef) -> bool {
    &&& forall|i: int| 0 <= i < r.size ==> (#[trigger] ref_byte(r, i)) < ram.len()
    &&& forall|i: int, j: int|
        0 <= i < j < r.size ==> #[trigger] ref_byte(r, i) != #[trigger] ref_byte(r, j)
}

pub(crate) proof fn lemma_bytes(value: u32)
    by (bit_vector)
    ensures
        (value >> 0u32) as u8 == value % 0x100,
        ((((value >> 8u32) as u8) as u16) << 8) | (((value >> 0u32) as u8) as u16) == value
            % 0x1_0000,
        (((((((value >> 24u32) as u8) as u16) << 8) | (((value >> 16u32) as u8) as u16)) as u32)
            << 16) | (((((((value >> 8u32) as u8) as u16) << 8) | (((value >> 0u32) as u8)
            as u16)) as u32)) == value,
        value & 0xFFFF == value % 0x1_0000,
        value & 0xFFFF_FFFF == value,
{
}

/// The low half of a number of four bytes is the word of its first two.
pub(crate) proof fn lemma_low_half(b0: u8, b1: u8, b2: u8, b3: u8)
    by (bit_vector)
    ensures
        ((((((b3 as u16) << 8) | (b2 as u16)) as u32) << 16) | ((((b1 as u16) << 8) | (
        b0 as u16)) as u32)) as u16 == ((b1 as u16) << 8) | (b0 as u16),
{
}

proof fn lemma_stored(ram: Seq<u8>, r: MemRef, value: u32, n: nat)
    requires
        in_memory(ram, r),
        n <= r.size,
    ensures
        Core::stored(ram, r, value, n).len() == ram.len(),
        forall|i: int|
            0 <= i < n ==> Core::stored(ram, r, value, n)[(#[trigger] ref_byte(r, i)) as int]
                == byte_of(value, i),
    decreases n,
{
    if n > 0 {
        lemma_stored(ram, r, value, (n - 1) as nat);
        let before = Core::stored(ram, r, value, (n - 1) as nat);
        assert forall|i: int| 0 <= i < n implies Core::stored(
            ram,
            r,
            value,
            n,
        )[(#[trigger] ref_byte(r, i)) as int] == byte_of(value, i) by {
            assert(ref_byte(r, n - 1) < ram.len());
            if i < n - 1 {
                assert(ref_byte(r, i) != ref_byte(r, n - 1));
            }
        }
    }
}

/// A checked operand reads as it was written, cut to its size, wherever it
/// lies in memory.
pub proof fn law_operand_reads_back(s: Core, r: MemRef, value: u32)
    requires
        is_operand_size(r.size),
        in_memory(s.ram, r),
    ensures
        s.with_operand(r, value).operand(r) == value as int % value_count(r.size),
{
    reveal(Core::operand);
    reveal(Core::with_operand);
    lemma_stored(s.ram, r, value, r.size as nat);
    lemma_bytes(value);
    let ram = s.with_operand(r, value).ram;
    assert(ref_byte(r, 0) < s.ram.len());
    assert(ram[ref_byte(r, 0) as int] == byte_of(value, 0));
    if r.size > 1 {
        assert(ref_byte(r, 1) < s.ram.len());
        assert(ram[ref_byte(r, 1) as int] == byte_of(value, 1));
    }
    if r.size == 4 {
        assert(ref_byte(r, 2) < s.ram.len());
        assert(ram[ref_byte(r, 2) as int] == byte_of(value, 2));
        assert(ref_byte(r, 3) < s.ram.len());
        assert(ram[ref_byte(r, 3) as int] == byte_of(value, 3));
    }
}

proof fn lemma_next_page(lin: u32)
    ensures
        page_of((lin | 0xFFF).wrapping_add(1)) as int % 1024 != page_of(lin) as int % 1024,
{
    let top = lin | 0xFFF;
    assert((lin | 0xFFF) / 0x1000 == lin / 0x1000 && (lin | 0xFFF) % 0x1000 == 0xFFF)
        by (bit_vector);
    if top == u32::MAX {
        assert(top.wrapping_add(1) == 0);
    } else {
        assert(top.wrapping_add(1) == top + 1);
        assert((top + 1) / 0x1000 == lin / 0x1000 + 1);
    }
}

/// A translation for writing, seen again by a read after other pages and
/// memory changed.
proof fn lemma_translation_stays(s: Core, t: Core, lin: u32, user: bool)
    requires
        s.wf(),
        tlb_ok(s.tlb),
        s.lin_to_phys(lin, true, user).1 is Ok,
        t == (Core { cr2: t.cr2, ram: t.ram, tlb: t.tlb, ..s }),
        s.paging() ==> t.tlb[tlb_slot(lin, user)] == s.lin_to_phys(lin, true, user).0.tlb[tlb_slot(
            lin,
            user,
        )],
    ensures
        t.lin_to_phys(lin, false, user) == (t, s.lin_to_phys(lin, true, user).1),
{
    reveal(Core::walk);
    reveal(Core::lin_to_phys);
    assert(entry_ok(s.tlb[tlb_slot(lin, user)]));
}

proof fn lemma_other_slot(s: Core, lin: u32, write: bool, user: bool, other: u32)
    requires
        s.wf(),
        page_of(other) as int % 1024 != page_of(lin) as int % 1024,
    ensures
        s.lin_to_phys(other, write, user).0.tlb[tlb_slot(lin, user)] == s.tlb[tlb_slot(lin, user)],
{
    reveal(Core::walk);
    reveal(Core::lin_to_phys);
}

/// What was checked for writing can be read: the same operand, and nothing
/// changes, even after memory was written.
pub proof fn law_written_can_be_read(s: Core, lin: u32, size: u8, user: bool, ram: Seq<u8>)
    requires
        s.wf(),
        tlb_ok(s.tlb),
        s.lin_ref(lin, size, Access::Write, user).1 is Ok,
    ensures
        ({
            let (t, r) = s.lin_ref(lin, size, Access::Write, user);
            let u = Core { ram, ..t };
            u.lin_ref(lin, size, Access::Read, user) == (u, r)
        }),
{
    reveal(Core::lin_ref);
    let (a, first) = s.lin_to_phys(lin, true, user);
    super::paging::law_access_keeps_registers(s, lin, true, user);
    law_tlb_stays_consistent(s, lin, true, user);
    let (t, r) = s.lin_ref(lin, size, Access::Write, user);
    let u = Core { ram, ..t };
    if lin % 0x1000 > 0x1000 - size {
        let next = (lin | 0xFFF).wrapping_add(1);
        lemma_next_page(lin);
        super::paging::law_access_keeps_registers(a, next, true, user);
        lemma_other_slot(a, lin, true, user, next);
        lemma_translation_stays(s, u, lin, user);
        lemma_translation_stays(a, u, next, user);
    } else {
        lemma_translation_stays(s, u, lin, user);
    }
}

pub(crate) proof fn lemma_pointer_16(sp: u32, size: u32, old: u32)
    by (bit_vector)
    requires
        sp <= 0xFFFF,
        size == 1 || size == 2 || size == 4,
    ensures
        ((old & 0xFFFF_0000) | ((sp as u16) as u32)) as u16 as u32 == sp,
        sp & 0xFFFF == sp,
        old & 0xFFFF <= 0xFFFF,
        ((old & 0xFFFF_0000) | ((sp as u16) as u32)) & 0xFFFF_0000 == old & 0xFFFF_0000,
        (old & 0xFFFF_0000) | ((old as u16 as u32) as u16 as u32) == old,
{
}

proof fn lemma_wrap_16(old: u32, size: u32, down: u32, up: u32)
    by (bit_vector)
    requires
        size == 1 || size == 2 || size == 4,
        down == (if old as u16 as u32 >= size {
            (old as u16 as u32 - size) as u32
        } else {
            (0x1_0000_0000u64 + (old as u16 as u64) - size) as u32
        }),
        up == (((down & 0xFFFF) + size) as u32),
    ensures
        up & 0xFFFF == old as u16 as u32,
        down & 0xFFFF <= 0xFFFF,
{
}

/// The stack pointer after a push and the pop that undoes it.
pub(crate) proof fn lemma_pointer_returns(s: Core, t: Core, size: u8)
    requires
        s.wf(),
        is_operand_size(size),
        ({
            let sp = s.stack_offset(0u32.wrapping_sub(size as u32));
            &&& t.cache(Seg::SS) == s.cache(Seg::SS)
            &&& t.gpr == s.with_stack_ptr(sp).gpr
        }),
    ensures
        t.stack_ptr() == s.stack_offset(0u32.wrapping_sub(size as u32)),
        t.stack_offset(0) == s.stack_offset(0u32.wrapping_sub(size as u32)),
        t.stack_offset(size as u32) == s.stack_ptr(),
{
    let sp = s.stack_offset(0u32.wrapping_sub(size as u32));
    let delta = 0u32.wrapping_sub(size as u32);
    if s.stack32() {
        assert(t.esp() == sp);
    } else {
        let old = s.esp();
        let down = (old as u16 as u32).wrapping_add(delta);
        assert(old as u16 as u32 <= 0xFFFF);
        let up = (((down & 0xFFFF) + size) as u32);
        lemma_wrap_16(old, size as u32, down, up);
        lemma_pointer_16(sp, size as u32, old);
        assert(t.esp() == with_word(old, sp as u16));
        assert(t.stack_ptr() == sp);
        lemma_pointer_16(sp, size as u32, sp);
        assert(sp.wrapping_add(0) == sp);
        assert(sp.wrapping_add(size as u32) == up);
    }
}

/// Writing an operand leaves memory as large as it is.
pub(crate) proof fn lemma_written_size(s: Core, r: MemRef, value: u32)
    ensures
        s.with_operand(r, value).ram.len() == s.ram.len(),
{
    reveal(Core::with_operand);
    lemma_stored_size(s.ram, r, value, r.size as nat);
}

proof fn lemma_stored_size(ram: Seq<u8>, r: MemRef, value: u32, n: nat)
    ensures
        Core::stored(ram, r, value, n).len() == ram.len(),
    decreases n,
{
    if n > 0 {
        lemma_stored_size(ram, r, value, (n - 1) as nat);
    }
}

/// Whether two operands share no byte of memory.
pub open spec fn apart(a: MemRef, b: MemRef) -> bool {
    forall|i: int, j: int|
        0 <= i < a.size && 0 <= j < b.size ==> #[trigger] ref_byte(a, i) != #[trigger] ref_byte(b, j)
}

proof fn lemma_stored_apart(ram: Seq<u8>, r: MemRef, value: u32, n: nat, other: int)
    requires
        n <= r.size,
        0 <= other < ram.len(),
        forall|i: int| 0 <= i < r.size ==> (#[trigger] ref_byte(r, i)) != other,
    ensures
        Core::stored(ram, r, value, n).len() == ram.len(),
        Core::stored(ram, r, value, n)[other] == ram[other],
    decreases n,
{
    if n > 0 {
        lemma_stored_apart(ram, r, value, (n - 1) as nat, other);
        assert(ref_byte(r, n - 1) != other);
    }
}

/// An operand that lies apart from the one written reads as before.
pub(crate) proof fn lemma_other_operand(s: Core, r: MemRef, value: u32, other: MemRef)
    requires
        is_operand_size(other.size),
        in_memory(s.ram, other),
        apart(other, r),
    ensures
        s.with_operand(r, value).operand(other) == s.operand(other),
{
    reveal(Core::operand);
    reveal(Core::with_operand);
    let t = s.with_operand(r, value);
    assert forall|i: int| 0 <= i < other.size implies #[trigger] t.operand_byte(other, i)
        == s.operand_byte(other, i) by {
        assert(ref_byte(other, i) < s.ram.len());
        lemma_stored_apart(s.ram, r, value, r.size as nat, ref_byte(other, i) as int);
    }
}

/// Without paging a push leaves its word where a pop finds it, whatever else
/// changed, as long as the stack segment, the stack pointer and the word did
/// not.
proof fn lemma_pop_finds(s: Core, t: Core, value: u32)
    requires
        s.wf(),
        !s.paging(),
        reads_where_it_writes(s.cache(Seg::SS)),
        s.push_sized(2, value).1 is Ok,
        in_memory(s.ram, push_slot(s, 2)),
        t.cr0 == s.cr0,
        t.a20 == s.a20,
        t.cache(Seg::SS) == s.cache(Seg::SS),
        t.gpr == s.push_sized(2, value).0.gpr,
        t.operand(push_slot(s, 2)) == s.push_sized(2, value).0.operand(push_slot(s, 2)),
    ensures
        t.pop_sized(2) == (
            Core { gpr: s.gpr, ..t },
            Ok::<u32, Fault>((value as int % 0x1_0000) as u32),
        ),
        push_slot(s, 2).size == 2,
        s.push_sized(2, value).0 == s.with_operand(push_slot(s, 2), value).with_stack_ptr(
            s.stack_offset(0u32.wrapping_sub(2)),
        ),
{
    reveal(Core::mem_ref);
    reveal(Core::lin_ref);
    reveal(Core::lin_to_phys);
    let sp = s.stack_offset(0u32.wrapping_sub(2));
    let r = push_slot(s, 2);
    let w = s.with_operand(r, value);
    let p = s.push_sized(2, value).0;
    lemma_operand_keeps(s, r, value);
    assert(p == w.with_stack_ptr(sp));
    assert(w.with_stack_ptr(sp).gpr == s.with_stack_ptr(sp).gpr);
    lemma_pointer_returns(s, t, 2);
    law_operand_reads_back(s, r, value);
    assert(p.operand(r) == w.operand(r)) by {
        reveal(Core::operand);
    }
    assert(t.mem_ref(Seg::SS, sp, 2, Access::Read) == (t, Ok::<MemRef, Fault>(r)));
    assert(t.stack_read(0, 2) == (t, Ok::<u32, Fault>(t.operand(r))));
    let u = t.pop_sized(2).0;
    assert(u == t.with_stack_ptr(s.stack_ptr()));
    if !s.stack32() {
        let moved = s.stack_ptr().wrapping_add(0u32.wrapping_sub(2));
        lemma_pointer_16(0, 2, moved);
        lemma_pointer_16(sp, 2, s.esp());
    }
    assert(u.esp() == s.esp());
    assert(u.gpr =~= s.gpr);
}

/// Whether the three words that an interrupt in real mode pushes lie in
/// memory, with no byte in two places.
pub open spec fn frame_in_memory(s: Core) -> bool {
    let a = s.push_sized(2, (s.flags as u16) as u32).0;
    let b = a.push_sized(2, s.cache(Seg::CS).selector as u32).0;
    &&& in_memory(s.ram, push_slot(s, 2))
    &&& in_memory(s.ram, push_slot(a, 2))
    &&& in_memory(s.ram, push_slot(b, 2))
    &&& apart(push_slot(s, 2), push_slot(a, 2))
    &&& apart(push_slot(s, 2), push_slot(b, 2))
    &&& apart(push_slot(a, 2), push_slot(b, 2))
}

/// What an interrupt in real mode leaves on the stack leads back: three pops
/// give the offset and the segment that it came from and the flags, and then
/// every register, the whole of ESP with them, is as it was.
pub proof fn law_interrupt_frame_leads_back(
    s: Core,
    vector: u8,
    source: IntSource,
    error: Option<u32>,
)
    requires
        s.wf(),
        !s.pe(),
        !s.paging(),
        reads_where_it_writes(s.cache(Seg::SS)),
        s.delivered(vector, source, error).1 is Ok,
        frame_in_memory(s),
    ensures
        ({
            let (a, ip) = s.delivered(vector, source, error).0.pop_sized(2);
            let (b, cs) = a.pop_sized(2);
            let (c, flags) = b.pop_sized(2);
            &&& ip == Ok::<u32, Fault>((s.eip as u16) as u32)
            &&& cs == Ok::<u32, Fault>(s.cache(Seg::CS).selector as u32)
            &&& flags == Ok::<u32, Fault>((s.flags as u16) as u32)
            &&& c.gpr == s.gpr
            &&& c.esp() == s.esp()
        }),
{
    reveal(Core::delivered);
    reveal(Core::delivered_real);
    let flags = (s.flags as u16) as u32;
    let cs = s.cache(Seg::CS).selector as u32;
    let ip = (s.eip as u16) as u32;
    let a = s.push_sized(2, flags).0;
    let b = a.push_sized(2, cs).0;
    let c = b.push_sized(2, ip).0;
    let t = s.delivered(vector, source, error).0;
    let (r1, r2, r3) = (push_slot(s, 2), push_slot(a, 2), push_slot(b, 2));
    lemma_push_keeps(s, flags);
    lemma_push_keeps(a, cs);
    lemma_push_keeps(b, ip);
    lemma_stored(s.ram, r1, flags, 2);
    lemma_stored(a.ram, r2, cs, 2);
    // The words stay while the others are written.
    lemma_other_operand(a, r2, cs, r1);
    lemma_other_operand(b, r3, ip, r1);
    lemma_other_operand(b, r3, ip, r2);
    lemma_same_memory(t, c);
    lemma_same_memory(b, a.with_operand(r2, cs));
    lemma_same_memory(c, b.with_operand(r3, ip));
    lemma_pop_finds(b, t, ip);
    let t2 = Core { gpr: b.gpr, ..t };
    lemma_same_memory(t2, c);
    lemma_pop_finds(a, t2, cs);
    let t1 = Core { gpr: a.gpr, ..t };
    lemma_same_memory(t1, c);
    lemma_pop_finds(s, t1, flags);
}

/// Operands read the same from the same memory.
pub(crate) proof fn lemma_same_memory(s: Core, t: Core)
    requires
        s.ram == t.ram,
    ensures
        forall|r: MemRef| #[trigger] s.operand(r) == t.operand(r),
{
    reveal(Core::operand);
}

/// A push without paging changes memory where it goes, and the stack pointer.
proof fn lemma_push_keeps(s: Core, value: u32)
    requires
        s.wf(),
        !s.paging(),
        s.push_sized(2, value).1 is Ok,
        in_memory(s.ram, push_slot(s, 2)),
    ensures
        ({
            let t = s.push_sized(2, value).0;
            &&& t == (Core { ram: t.ram, gpr: t.gpr, ..s })
            &&& t.ram == s.with_operand(push_slot(s, 2), value).ram
            &&& t.ram == Core::stored(s.ram, push_slot(s, 2), value, 2)
            &&& t.ram.len() == s.ram.len()
            &&& t.wf()
            &&& push_slot(s, 2).size == 2
        }),
{
    reveal(Core::mem_ref);
    reveal(Core::lin_ref);
    reveal(Core::lin_to_phys);
    reveal(Core::with_operand);
    lemma_stored(s.ram, push_slot(s, 2), value, 2);
}

/// Checking an operand changes no register, and not how much memory there is.
pub(crate) proof fn lemma_ref_keeps(s: Core, lin: u32, size: u8, access: Access, user: bool)
    requires
        s.wf(),
    ensures
        ({
            let t = s.lin_ref(lin, size, access, user).0;
            &&& t == (Core { cr2: t.cr2, ram: t.ram, tlb: t.tlb, ..s })
            &&& t.ram.len() == s.ram.len()
            &&& t.wf()
        }),
{
    reveal(Core::lin_ref);
    let write = access == Access::Write;
    super::paging::law_access_keeps_registers(s, lin, write, user);
    let t = s.lin_to_phys(lin, write, user).0;
    super::paging::law_access_keeps_registers(t, (lin | 0xFFF).wrapping_add(1), write, user);
}

pub(crate) proof fn lemma_operand_keeps(s: Core, r: MemRef, value: u32)
    ensures
        ({
            let t = s.with_operand(r, value);
            t == Core { ram: t.ram, ..s }
        }),
{
    reveal(Core::with_operand);
}

/// A translation does not look at the general-purpose registers.
proof fn lemma_translation_ignores_registers(
    s: Core,
    gpr: Seq<u32>,
    lin: u32,
    write: bool,
    user: bool,
)
    ensures
        ({
            let (a, phys) = s.lin_to_phys(lin, write, user);
            Core { gpr, ..s }.lin_to_phys(lin, write, user) == (Core { gpr, ..a }, phys)
        }),
{
    let t = Core { gpr, ..s };
    assert(t.pde(lin) == s.pde(lin) && t.pde_addr(lin) == s.pde_addr(lin));
    assert(t.pte(lin) == s.pte(lin) && t.pte_addr(lin) == s.pte_addr(lin));
    assert(t.entries_marked(lin, write) == s.entries_marked(lin, write));
    assert(t.walked_entry(lin, write, user) == s.walked_entry(lin, write, user));
    assert(t.walk(lin, write, user) == (
        Core { gpr, ..s.walk(lin, write, user).0 },
        s.walk(lin, write, user).1,
    )) by {
        reveal(Core::walk);
    }
    reveal(Core::lin_to_phys);
}

/// A read of memory does not look at the general-purpose registers.
pub(crate) proof fn lemma_ref_ignores_registers(s: Core, t: Core, lin: u32, size: u8, user: bool)
    requires
        t == (Core { gpr: t.gpr, ..s }),
        s.lin_ref(lin, size, Access::Read, user).0 == s,
    ensures
        t.lin_ref(lin, size, Access::Read, user) == (
            t,
            s.lin_ref(lin, size, Access::Read, user).1,
        ),
        forall|r: MemRef| #[trigger] t.operand(r) == s.operand(r),
{
    reveal(Core::lin_ref);
    let a = s.lin_to_phys(lin, false, user).0;
    lemma_translation_ignores_registers(s, t.gpr, lin, false, user);
    lemma_translation_ignores_registers(
        a,
        t.gpr,
        (lin | 0xFFF).wrapping_add(1),
        false,
        user,
    );
    assert forall|r: MemRef| #[trigger] t.operand(r) == s.operand(r) by {
        reveal(Core::operand);
    }
}

proof fn lemma_frame_checks(
    s: Core,
    cache: SegCache,
    sp: u32,
    size: u8,
    fault: Fault,
    user: bool,
    n: nat,
)
    requires
        !s.paging(),
    ensures
        s.frame_checked(cache, sp, size, fault, user, n).0 == s,
    decreases n,
{
    if n > 0 {
        lemma_frame_checks(s, cache, sp, size, fault, user, (n - 1) as nat);
        reveal(Core::lin_ref);
        reveal(Core::lin_to_phys);
    }
}

/// A stack frame is written as a whole or not at all: where a slot of it
/// can't be written nothing changes, without paging.
pub proof fn law_frames_are_whole(
    s: Core,
    cache: SegCache,
    sp: u32,
    size: u8,
    values: Seq<u32>,
    fault: Fault,
    user: bool,
)
    requires
        !s.paging(),
        s.frame_pushed(cache, sp, size, values, fault, user).1 is Err,
    ensures
        s.frame_pushed(cache, sp, size, values, fault, user).0 == s,
        s.frame_pushed(cache, sp, size, values, fault, user).1->Err_0 == fault,
{
    reveal(Core::frame_pushed);
    lemma_frame_checks(s, cache, sp, size, fault, user, values.len());
    lemma_frame_fault(s, cache, sp, size, fault, user, values.len());
}

proof fn lemma_frame_fault(
    s: Core,
    cache: SegCache,
    sp: u32,
    size: u8,
    fault: Fault,
    user: bool,
    n: nat,
)
    requires
        !s.paging(),
    ensures
        s.frame_checked(cache, sp, size, fault, user, n).1 matches Err(f) ==> f == fault,
    decreases n,
{
    if n > 0 {
        lemma_frame_fault(s, cache, sp, size, fault, user, (n - 1) as nat);
        lemma_frame_checks(s, cache, sp, size, fault, user, (n - 1) as nat);
        reveal(Core::lin_ref);
        reveal(Core::lin_to_phys);
    }
}

} // verus!
