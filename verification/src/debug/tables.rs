//! What the debugger shows of the processor: its registers, the descriptor
//! tables, the TSS, page walks and the exceptions there were. Everything
//! here only reads.

use vstd::prelude::*;

use super::address::{
    mode_name, mode_text, peek_u32, peek_u64, peeked_dword, peeked_quad,
};
use crate::cpu::fault::{exception_name, name_of};
use crate::cpu::regs::{Seg, SegCache, ATTR_DB};
use crate::cpu::seg::{
    Descriptor, CALL_GATE16, CALL_GATE32, INT_GATE16, INT_GATE32, LDT, TASK_GATE, TRAP_GATE16,
    TRAP_GATE32, TSS16_AVAILABLE, TSS16_BUSY, TSS32_AVAILABLE, TSS32_BUSY,
};
use crate::cpu::state::{Core, Cpu, ExceptionRecord, CR0_PG};
use crate::text::{hex_string, hex_text};

verus! {

/// What a descriptor leads to, besides its type.
#[derive(Clone, Copy, Debug, PartialEq, Eq, Structural)]
pub enum Detail {
    Segment { base: u32, limit: u32, wide: bool, accessed: bool },
    Gate { selector: u16, offset: u32, params: Option<u32> },
    Task { tss: u16 },
    System { base: u32, limit: u32 },
}

/// A descriptor, decoded.
#[derive(Debug)]
pub struct DescriptorInfo {
    pub selector: u16,
    pub raw: u64,
    pub present: bool,
    pub dpl: u8,
    /// Its type in words.
    pub kind: String,
    pub detail: Detail,
}

/// The type of a descriptor in words.
pub open spec fn kind_text(d: Descriptor) -> Seq<char> {
    if d.segment() {
        if d.code() {
            "code"@ + (if d.conforming_code() {
                " conforming"@
            } else {
                ""@
            }) + (if d.can_read() {
                " readable"@
            } else {
                ""@
            })
        } else {
            "data"@ + (if d.type_field() & 4 != 0 {
                " expand-down"@
            } else {
                ""@
            }) + (if d.can_write() {
                " writable"@
            } else {
                " read-only"@
            })
        }
    } else {
        system_kind(d.type_field())
    }
}

/// The type of a system descriptor in words.
pub open spec fn system_kind(typ: u8) -> Seq<char> {
    if typ == TSS16_AVAILABLE {
        "tss16"@
    } else if typ == LDT {
        "ldt"@
    } else if typ == TSS16_BUSY {
        "tss16 busy"@
    } else if typ == CALL_GATE16 {
        "call gate16"@
    } else if typ == TASK_GATE {
        "task gate"@
    } else if typ == INT_GATE16 {
        "interrupt gate16"@
    } else if typ == TRAP_GATE16 {
        "trap gate16"@
    } else if typ == TSS32_AVAILABLE {
        "tss32"@
    } else if typ == TSS32_BUSY {
        "tss32 busy"@
    } else if typ == CALL_GATE32 {
        "call gate32"@
    } else if typ == INT_GATE32 {
        "interrupt gate32"@
    } else if typ == TRAP_GATE32 {
        "trap gate32"@
    } else {
        "reserved"@
    }
}

fn system_name(typ: u8) -> (name: &'static str)
    ensures
        name@ == system_kind(typ),
{
    if typ == TSS16_AVAILABLE {
        "tss16"
    } else if typ == LDT {
        "ldt"
    } else if typ == TSS16_BUSY {
        "tss16 busy"
    } else if typ == CALL_GATE16 {
        "call gate16"
    } else if typ == TASK_GATE {
        "task gate"
    } else if typ == INT_GATE16 {
        "interrupt gate16"
    } else if typ == TRAP_GATE16 {
        "trap gate16"
    } else if typ == TSS32_AVAILABLE {
        "tss32"
    } else if typ == TSS32_BUSY {
        "tss32 busy"
    } else if typ == CALL_GATE32 {
        "call gate32"
    } else if typ == INT_GATE32 {
        "interrupt gate32"
    } else if typ == TRAP_GATE32 {
        "trap gate32"
    } else {
        "reserved"
    }
}

/// What a descriptor leads to.
pub open spec fn detail_of(d: Descriptor) -> Detail {
    let typ = d.type_field();
    if d.segment() {
        Detail::Segment {
            base: d.base_field(),
            limit: d.byte_limit(),
            wide: d.attr_field() & ATTR_DB != 0,
            accessed: d.was_accessed(),
        }
    } else if typ == CALL_GATE16 || typ == CALL_GATE32 {
        Detail::Gate {
            selector: d.target_selector(),
            offset: d.target_offset(),
            params: Some(d.parameters()),
        }
    } else if typ == INT_GATE16 || typ == INT_GATE32 || typ == TRAP_GATE16 || typ == TRAP_GATE32 {
        Detail::Gate { selector: d.target_selector(), offset: d.target_offset(), params: None }
    } else if typ == TASK_GATE {
        Detail::Task { tss: d.target_selector() }
    } else {
        Detail::System { base: d.base_field(), limit: d.byte_limit() }
    }
}

/// Whether an info tells of a descriptor.
pub open spec fn tells(info: DescriptorInfo, selector: u16, d: Descriptor) -> bool {
    &&& info.selector == selector
    &&& info.raw == d.0
    &&& info.present == d.is_present()
    &&& info.dpl == d.level()
    &&& info.kind@ == kind_text(d)
    &&& info.detail == detail_of(d)
}

fn kind_of(d: &Descriptor) -> (kind: String)
    ensures
        kind@ == kind_text(*d),
{
    if d.is_segment() {
        let mut kind = if d.is_code() {
            String::from_str("code")
        } else {
            String::from_str("data")
        };
        if d.is_code() {
            kind.append(
                if d.conforming() {
                    " conforming"
                } else {
                    ""
                },
            );
            kind.append(
                if d.readable() {
                    " readable"
                } else {
                    ""
                },
            );
        } else {
            kind.append(
                if d.typ() & 4 != 0 {
                    " expand-down"
                } else {
                    ""
                },
            );
            kind.append(
                if d.writable_data() {
                    " writable"
                } else {
                    " read-only"
                },
            );
        }
        kind
    } else {
        String::from_str(system_name(d.typ()))
    }
}

/// A descriptor, decoded.
pub fn descriptor_info(selector: u16, d: &Descriptor) -> (info: DescriptorInfo)
    ensures
        tells(info, selector, *d),
{
    let typ: u8 = d.typ();
    let detail = if d.is_segment() {
        Detail::Segment {
            base: d.base(),
            limit: d.limit(),
            wide: d.attr() & ATTR_DB != 0,
            accessed: d.accessed(),
        }
    } else if typ == CALL_GATE16 || typ == CALL_GATE32 {
        Detail::Gate {
            selector: d.gate_selector(),
            offset: d.gate_offset(),
            params: Some(d.gate_params()),
        }
    } else if typ == INT_GATE16 || typ == INT_GATE32 || typ == TRAP_GATE16 || typ == TRAP_GATE32 {
        Detail::Gate { selector: d.gate_selector(), offset: d.gate_offset(), params: None }
    } else if typ == TASK_GATE {
        Detail::Task { tss: d.gate_selector() }
    } else {
        Detail::System { base: d.base(), limit: d.limit() }
    };
    DescriptorInfo {
        selector,
        raw: d.0,
        present: d.present(),
        dpl: d.dpl(),
        kind: kind_of(d),
        detail,
    }
}

/// Entries of the GDT or LDT below the `n`th that aren't all zeros, with
/// their selectors.
pub open spec fn entries_below(s: Core, base: u32, ldt: bool, n: int) -> Seq<(u16, Descriptor)>
    decreases n,
{
    if n <= 0 {
        Seq::empty()
    } else {
        let before = entries_below(s, base, ldt, n - 1);
        match peeked_quad(s, base.wrapping_add((8 * (n - 1)) as u32)) {
            Some(raw) => if raw != 0 {
                before.push((table_selector(n - 1, ldt), Descriptor(raw)))
            } else {
                before
            },
            None => before,
        }
    }
}

/// The selector of an entry of the GDT or LDT; past the last one they start
/// over.
pub open spec fn table_selector(n: int, ldt: bool) -> u16 {
    (8 * n % 0x1_0000 + (if ldt {
        4
    } else {
        0int
    })) as u16
}

/// Whether infos tell of descriptors, one by one.
pub open spec fn all_tell(infos: Seq<DescriptorInfo>, entries: Seq<(u16, Descriptor)>) -> bool {
    &&& infos.len() == entries.len()
    &&& forall|i: int|
        0 <= i < infos.len() ==> tells(#[trigger] infos[i], entries[i].0, entries[i].1)
}

/// A descriptor table: every descriptor that isn't all zeros.
#[derive(Debug)]
pub struct TableInfo {
    pub base: u32,
    pub limit: u32,
    pub entries: Vec<DescriptorInfo>,
}

/// Fewer entries are the start of more.
proof fn lemma_entries_prefix(s: Core, base: u32, ldt: bool, m: int, n: int)
    requires
        0 <= m <= n,
    ensures
        ({
            let few = entries_below(s, base, ldt, m);
            let all = entries_below(s, base, ldt, n);
            few.len() <= all.len() && all.take(few.len() as int) == few
        }),
    decreases n,
{
    let few = entries_below(s, base, ldt, m);
    let all = entries_below(s, base, ldt, n);
    if m < n {
        lemma_entries_prefix(s, base, ldt, m, n - 1);
        let most = entries_below(s, base, ldt, n - 1);
        assert(all.take(few.len() as int) =~= most.take(few.len() as int));
    } else {
        assert(all.take(few.len() as int) =~= few);
    }
}

/// One more info that tells of one more descriptor.
proof fn lemma_one_more(
    infos: Seq<DescriptorInfo>,
    entries: Seq<(u16, Descriptor)>,
    info: DescriptorInfo,
    entry: (u16, Descriptor),
)
    requires
        all_tell(infos, entries),
        tells(info, entry.0, entry.1),
    ensures
        all_tell(infos.push(info), entries.push(entry)),
{
    let more = entries.push(entry);
    assert forall|i: int| 0 <= i < more.len() implies tells(
        #[trigger] infos.push(info)[i],
        more[i].0,
        more[i].1,
    ) by {
        if i < infos.len() {
            assert(tells(infos[i], entries[i].0, entries[i].1));
        }
    }
}

/// At most so many of the first.
pub open spec fn first_of_them<T>(all: Seq<T>, max: int) -> Seq<T> {
    if all.len() > max {
        all.take(max)
    } else {
        all
    }
}

/// Whether an info tells of the GDT or the LDT: every descriptor that isn't
/// all zeros, up to `max`, and nothing of an LDT that isn't loaded.
pub open spec fn table_tells(info: Option<TableInfo>, s: Core, ldt: bool, max: int) -> bool {
    let (base, limit) = if ldt {
        (s.ldtr.base, s.ldtr.limit)
    } else {
        (s.gdtr.base, s.gdtr.limit as u32)
    };
    match info {
        None => ldt && s.ldtr.attr & 0x80 == 0,
        Some(t) => !(ldt && s.ldtr.attr & 0x80 == 0) && t.base == base && t.limit == limit
            && all_tell(
            t.entries@,
            first_of_them(entries_below(s, base, ldt, (limit + 1) / 8), max),
        ),
    }
}

/// The GDT or the LDT: every descriptor that isn't all zeros, up to `max`.
/// None for an LDT that isn't loaded.
pub fn table_info(cpu: &Cpu, ldt: bool, max: usize) -> (info: Option<TableInfo>)
    ensures
        table_tells(info, cpu@, ldt, max as int),
{
    if ldt && cpu.ldtr.attr & 0x80 == 0 {
        return None;
    }
    let (base, limit): (u32, u32) = if ldt {
        (cpu.ldtr.base, cpu.ldtr.limit)
    } else {
        (cpu.gdtr.base, cpu.gdtr.limit as u32)
    };
    let count: u64 = (limit as u64 + 1) / 8;
    let mut entries: Vec<DescriptorInfo> = Vec::new();
    let mut n: u64 = 0;
    while n < count && entries.len() < max
        invariant
            n <= count <= 0x2000_0000,
            all_tell(entries@, entries_below(cpu@, base, ldt, n as int)),
            entries@.len() <= max,
        decreases count - n,
    {
        let at: u32 = (8 * n) as u32;
        if let Some(raw) = peek_u64(cpu, base.wrapping_add(at)) {
            if raw != 0 {
                let low: u16 = (8 * n % 0x1_0000) as u16;
                let selector: u16 = if ldt {
                    low + 4
                } else {
                    low
                };
                let ghost before = entries@;
                let info = descriptor_info(selector, &Descriptor(raw));
                entries.push(info);
                proof {
                    let done = entries_below(cpu@, base, ldt, n as int);
                    lemma_one_more(before, done, info, (selector, Descriptor(raw)));
                    assert(entries_below(cpu@, base, ldt, n + 1) == done.push(
                        (selector, Descriptor(raw)),
                    ));
                }
            }
        }
        n = n + 1;
    }
    proof {
        lemma_entries_prefix(cpu@, base, ldt, n as int, count as int);
        let done = entries_below(cpu@, base, ldt, n as int);
        let all = entries_below(cpu@, base, ldt, count as int);
        assert(first_of_them(all, max as int) =~= done) by {
            if n < count {
                assert(done.len() == max);
                assert(all.take(max as int) =~= done);
            }
        }
    }
    Some(TableInfo { base, limit, entries })
}

/// The present gates of the IDT below a vector.
pub open spec fn gates_below(s: Core, n: int) -> Seq<(u8, Descriptor)>
    decreases n,
{
    if n <= 0 {
        Seq::empty()
    } else {
        let before = gates_below(s, n - 1);
        if 8 * (n - 1) + 7 > s.idtr.limit {
            before
        } else {
            match peeked_quad(s, s.idtr.base.wrapping_add((8 * (n - 1)) as u32)) {
                Some(raw) => if Descriptor(raw).is_present() {
                    before.push(((n - 1) as u8, Descriptor(raw)))
                } else {
                    before
                },
                None => before,
            }
        }
    }
}

/// A gate of the IDT, by its vector.
#[derive(Debug)]
pub struct GateInfo {
    pub vector: u8,
    pub gate: DescriptorInfo,
}

/// Whether infos tell of the gates of the IDT.
pub open spec fn gates_tell(gates: Seq<GateInfo>, want: Seq<(u8, Descriptor)>) -> bool {
    &&& gates.len() == want.len()
    &&& forall|i: int|
        0 <= i < gates.len() ==> (#[trigger] gates[i]).vector == want[i].0 && tells(
            gates[i].gate,
            (want[i].0 * 8) as u16,
            want[i].1,
        )
}

/// The protected-mode IDT: every present gate.
pub fn idt_info(cpu: &Cpu) -> (gates: Vec<GateInfo>)
    ensures
        gates_tell(gates@, gates_below(cpu@, 256)),
{
    let mut gates: Vec<GateInfo> = Vec::new();
    let mut v: u32 = 0;
    while v < 256
        invariant
            v <= 256,
            gates@.len() == gates_below(cpu@, v as int).len(),
            forall|i: int|
                0 <= i < gates@.len() ==> (#[trigger] gates@[i]).vector == gates_below(
                    cpu@,
                    v as int,
                )[i].0 && tells(
                    gates@[i].gate,
                    (gates_below(cpu@, v as int)[i].0 * 8) as u16,
                    gates_below(cpu@, v as int)[i].1,
                ),
        decreases 256 - v,
    {
        if v * 8 + 7 <= cpu.idtr.limit as u32 {
            if let Some(raw) = peek_u64(cpu, cpu.idtr.base.wrapping_add(v * 8)) {
                let d = Descriptor(raw);
                if d.present() {
                    let gate = descriptor_info((v * 8) as u16, &d);
                    gates.push(GateInfo { vector: v as u8, gate });
                }
            }
        }
        v = v + 1;
    }
    gates
}

/// The contents of a 32-bit TSS.
#[derive(Clone, Copy, Debug, PartialEq, Eq)]
pub struct Tss32 {
    pub back_link: u16,
    /// The stacks of levels 0 to 2: ESP and SS.
    pub stacks: [(u32, u16); 3],
    pub cr3: u32,
    pub eip: u32,
    pub eflags: u32,
    /// EAX, ECX, EDX, EBX, ESP, EBP, ESI, EDI.
    pub gpr: [u32; 8],
    /// ES, CS, SS, DS, FS, GS.
    pub seg: [u16; 6],
    pub ldt: u16,
    pub iomap_base: u16,
}

/// The contents of a 16-bit TSS.
#[derive(Clone, Copy, Debug, PartialEq, Eq)]
pub struct Tss16 {
    pub back_link: u16,
    pub stacks: [(u16, u16); 3],
    pub ip: u16,
    pub flags: u16,
    pub ldt: u16,
}

/// The current TSS.
#[derive(Clone, Copy, Debug, PartialEq, Eq)]
pub enum TssInfo {
    /// TR is null.
    Missing,
    Wide(Tss32),
    Narrow(Tss16),
}

/// A double word of the current TSS; what isn't mapped reads as ones.
pub open spec fn tss_dword(s: Core, offset: u32) -> u32 {
    match peeked_dword(s, s.tr.base.wrapping_add(offset)) {
        Some(v) => v,
        None => 0xFFFF_FFFF,
    }
}

/// A word of the current TSS.
pub open spec fn tss_word(s: Core, offset: u32) -> u16 {
    tss_dword(s, offset) as u16
}

fn tss_read(cpu: &Cpu, offset: u32) -> (value: u32)
    ensures
        value == tss_dword(cpu@, offset),
{
    match peek_u32(cpu, cpu.tr.base.wrapping_add(offset)) {
        Some(v) => v,
        None => 0xFFFF_FFFF,
    }
}

fn tss_half(cpu: &Cpu, offset: u32) -> (value: u16)
    ensures
        value == tss_word(cpu@, offset),
{
    tss_read(cpu, offset) as u16
}

/// Whether an info tells of the current TSS.
pub open spec fn tss_tells(info: TssInfo, s: Core) -> bool {
    match info {
        TssInfo::Missing => s.tr.attr & 0x80 == 0,
        TssInfo::Wide(t) => {
            &&& s.tr.attr & 0x80 != 0 && s.tr.attr & 0x08 != 0
            &&& t.back_link == tss_word(s, 0)
            &&& t.stacks@ == seq![
                (tss_dword(s, 4), tss_word(s, 8)),
                (tss_dword(s, 0xC), tss_word(s, 0x10)),
                (tss_dword(s, 0x14), tss_word(s, 0x18)),
            ]
            &&& t.cr3 == tss_dword(s, 0x1C)
            &&& t.eip == tss_dword(s, 0x20)
            &&& t.eflags == tss_dword(s, 0x24)
            &&& t.gpr@ == Seq::new(8, |i: int| tss_dword(s, (0x28 + 4 * i) as u32))
            &&& t.seg@ == Seq::new(6, |i: int| tss_word(s, (0x48 + 4 * i) as u32))
            &&& t.ldt == tss_word(s, 0x60)
            &&& t.iomap_base == (tss_dword(s, 0x64) >> 16) as u16
        },
        TssInfo::Narrow(t) => {
            &&& s.tr.attr & 0x80 != 0 && s.tr.attr & 0x08 == 0
            &&& t.back_link == tss_word(s, 0)
            &&& t.stacks@ == seq![
                (tss_word(s, 2), tss_word(s, 4)),
                (tss_word(s, 6), tss_word(s, 8)),
                (tss_word(s, 0xA), tss_word(s, 0xC)),
            ]
            &&& t.ip == tss_word(s, 0xE)
            &&& t.flags == tss_word(s, 0x10)
            &&& t.ldt == tss_word(s, 0x2A)
        },
    }
}

/// The current TSS's contents.
#[verifier::rlimit(60)]
#[verifier::spinoff_prover]
pub fn tss_info(cpu: &Cpu) -> (info: TssInfo)
    ensures
        tss_tells(info, cpu@),
{
    if cpu.tr.attr & 0x80 == 0 {
        return TssInfo::Missing;
    }
    if cpu.tr.attr & 0x08 != 0 {
        let stacks: [(u32, u16); 3] = [
            (tss_read(cpu, 4), tss_half(cpu, 8)),
            (tss_read(cpu, 0xC), tss_half(cpu, 0x10)),
            (tss_read(cpu, 0x14), tss_half(cpu, 0x18)),
        ];
        let gpr: [u32; 8] = [
            tss_read(cpu, 0x28),
            tss_read(cpu, 0x2C),
            tss_read(cpu, 0x30),
            tss_read(cpu, 0x34),
            tss_read(cpu, 0x38),
            tss_read(cpu, 0x3C),
            tss_read(cpu, 0x40),
            tss_read(cpu, 0x44),
        ];
        let seg: [u16; 6] = [
            tss_half(cpu, 0x48),
            tss_half(cpu, 0x4C),
            tss_half(cpu, 0x50),
            tss_half(cpu, 0x54),
            tss_half(cpu, 0x58),
            tss_half(cpu, 0x5C),
        ];
        let wide = Tss32 {
            back_link: tss_half(cpu, 0),
            stacks,
            cr3: tss_read(cpu, 0x1C),
            eip: tss_read(cpu, 0x20),
            eflags: tss_read(cpu, 0x24),
            gpr,
            seg,
            ldt: tss_half(cpu, 0x60),
            iomap_base: (tss_read(cpu, 0x64) >> 16) as u16,
        };
        proof {
            let s = cpu@;
            assert(gpr@ =~= Seq::new(8, |i: int| tss_dword(s, (0x28 + 4 * i) as u32)));
            assert(seg@ =~= Seq::new(6, |i: int| tss_word(s, (0x48 + 4 * i) as u32)));
            assert(stacks@ =~= seq![
                (tss_dword(s, 4), tss_word(s, 8)),
                (tss_dword(s, 0xC), tss_word(s, 0x10)),
                (tss_dword(s, 0x14), tss_word(s, 0x18)),
            ]);
        }
        TssInfo::Wide(wide)
    } else {
        let stacks: [(u16, u16); 3] = [
            (tss_half(cpu, 2), tss_half(cpu, 4)),
            (tss_half(cpu, 6), tss_half(cpu, 8)),
            (tss_half(cpu, 0xA), tss_half(cpu, 0xC)),
        ];
        proof {
            let s = cpu@;
            assert(stacks@ =~= seq![
                (tss_word(s, 2), tss_word(s, 4)),
                (tss_word(s, 6), tss_word(s, 8)),
                (tss_word(s, 0xA), tss_word(s, 0xC)),
            ]);
        }
        TssInfo::Narrow(
            Tss16 {
                back_link: tss_half(cpu, 0),
                stacks,
                ip: tss_half(cpu, 0xE),
                flags: tss_half(cpu, 0x10),
                ldt: tss_half(cpu, 0x2A),
            },
        )
    }
}

/// The page directory and table entries for a linear address.
#[derive(Clone, Copy, Debug, PartialEq, Eq)]
pub struct PageWalk {
    pub paging: bool,
    pub cr3: u32,
    /// Where the directory's entry is, and what it holds.
    pub pde: (u32, u32),
    /// The same of the table's entry, if the table is there.
    pub pte: Option<(u32, u32)>,
    pub physical: Option<u32>,
}

/// Whether a walk tells of a linear address.
pub open spec fn walk_tells(walk: PageWalk, s: Core, lin: u32) -> bool {
    &&& walk.paging == (s.cr0 & CR0_PG != 0)
    &&& walk.cr3 == s.cr3
    &&& walk.pde == (s.pde_addr(lin), s.pde(lin))
    &&& walk.pte == (if s.pde(lin) & 1 == 0 {
        None
    } else {
        Some((s.pte_addr(lin), s.pte(lin)))
    })
    &&& walk.physical == s.peek(lin)
}

/// The page directory and table entries for a linear address.
pub fn pagewalk_info(cpu: &Cpu, lin: u32) -> (walk: PageWalk)
    ensures
        walk_tells(walk, cpu@, lin),
{
    let (addr, entry, pte): (u32, u32, Option<(u32, u32)>) = cpu.page_walk(lin);
    PageWalk {
        paging: cpu.cr0 & CR0_PG != 0,
        cr3: cpu.cr3,
        pde: (addr, entry),
        pte,
        physical: cpu.peek_translate(lin),
    }
}

/// Names of the bits set in a number, of some given ones.
pub open spec fn names_set(value: u32, bits: Seq<(u32, Seq<char>)>) -> Seq<Seq<char>>
    decreases bits.len(),
{
    if bits.len() == 0 {
        Seq::empty()
    } else {
        let before = names_set(value, bits.drop_last());
        if value & bits.last().0 != 0 {
            before.push(bits.last().1)
        } else {
            before
        }
    }
}

/// What strings of a program read.
pub open spec fn literal_texts(names: Seq<&'static str>) -> Seq<Seq<char>> {
    Seq::new(names.len(), |i: int| names[i]@)
}

pub open spec fn named_bits(bits: Seq<(u32, &'static str)>) -> Seq<(u32, Seq<char>)> {
    Seq::new(bits.len(), |i: int| (bits[i].0, bits[i].1@))
}

fn list_bits(value: u32, bits: &Vec<(u32, &'static str)>) -> (names: Vec<&'static str>)
    ensures
        literal_texts(names@) == names_set(value, named_bits(bits@)),
{
    let mut names: Vec<&'static str> = Vec::new();
    let ghost all = named_bits(bits@);
    let mut i: usize = 0;
    assert(literal_texts(names@) =~= names_set(value, all.take(0)));
    while i < bits.len()
        invariant
            i <= bits@.len(),
            all == named_bits(bits@),
            literal_texts(names@) == names_set(value, all.take(i as int)),
        decreases bits.len() - i,
    {
        let ghost before = names@;
        assert(all.take(i + 1).drop_last() =~= all.take(i as int));
        let (bit, name): (u32, &'static str) = bits[i];
        if value & bit != 0 {
            names.push(name);
            assert(literal_texts(names@) =~= literal_texts(before).push(name@));
        }
        i = i + 1;
    }
    assert(all.take(i as int) =~= all);
    names
}

/// The bits of a page entry the debugger names.
pub open spec fn page_bits() -> Seq<(u32, Seq<char>)> {
    seq![
        (1u32, "P"@),
        (2u32, "RW"@),
        (4u32, "US"@),
        (0x20u32, "A"@),
        (0x40u32, "D"@),
    ]
}

/// The flags of a page directory or table entry.
pub fn page_flags(entry: u32) -> (names: Vec<&'static str>)
    ensures
        literal_texts(names@) == names_set(entry, page_bits()),
{
    let mut bits: Vec<(u32, &'static str)> = Vec::new();
    bits.push((1, "P"));
    bits.push((2, "RW"));
    bits.push((4, "US"));
    bits.push((0x20, "A"));
    bits.push((0x40, "D"));
    assert(named_bits(bits@) =~= page_bits());
    list_bits(entry, &bits)
}

/// The processor flags the debugger names, highest first.
pub open spec fn flag_bits() -> Seq<(u32, Seq<char>)> {
    seq![
        (0x800u32, "OF"@),
        (0x400u32, "DF"@),
        (0x200u32, "IF"@),
        (0x100u32, "TF"@),
        (0x80u32, "SF"@),
        (0x40u32, "ZF"@),
        (0x10u32, "AF"@),
        (0x04u32, "PF"@),
        (0x01u32, "CF"@),
    ]
}

/// The names of the processor flags that are set.
pub fn flags_set(cpu: &Cpu) -> (names: Vec<&'static str>)
    ensures
        literal_texts(names@) == names_set(cpu@.flags, flag_bits()),
{
    let mut bits: Vec<(u32, &'static str)> = Vec::new();
    bits.push((0x800, "OF"));
    bits.push((0x400, "DF"));
    bits.push((0x200, "IF"));
    bits.push((0x100, "TF"));
    bits.push((0x80, "SF"));
    bits.push((0x40, "ZF"));
    bits.push((0x10, "AF"));
    bits.push((0x04, "PF"));
    bits.push((0x01, "CF"));
    assert(named_bits(bits@) =~= flag_bits());
    list_bits(cpu.flags.bits, &bits)
}

/// Names and texts, as they are shown.
pub open spec fn shown_pairs(pairs: Seq<(&'static str, String)>) -> Seq<(Seq<char>, Seq<char>)> {
    Seq::new(pairs.len(), |i: int| (pairs[i].0@, pairs[i].1@))
}

fn push_pair(pairs: &mut Vec<(&'static str, String)>, name: &'static str, value: u32, width: usize)
    ensures
        shown_pairs(final(pairs)@) == shown_pairs(old(pairs)@).push(
            (name@, hex_text(value as nat, width as int)),
        ),
{
    let text = hex_string(value as u64, width);
    let ghost before = pairs@;
    let ghost shown = (name@, text@);
    pairs.push((name, text));
    assert(shown_pairs(pairs@) =~= shown_pairs(before).push(shown));
}

/// A word register by its name, as it is shown.
pub open spec fn word_pair(name: Seq<char>, value: u32) -> (Seq<char>, Seq<char>) {
    (name, hex_text(value as nat, 4))
}

/// A double word register by its name, as it is shown.
pub open spec fn dword_pair(name: Seq<char>, value: u32) -> (Seq<char>, Seq<char>) {
    (name, hex_text(value as nat, 8))
}

/// The registers as the debugger lists them.
pub open spec fn register_list(s: Core) -> Seq<(Seq<char>, Seq<char>)> {
    seq![
        word_pair("ax"@, (s.gpr[0] as u16) as u32),
        word_pair("bx"@, (s.gpr[3] as u16) as u32),
        word_pair("cx"@, (s.gpr[1] as u16) as u32),
        word_pair("dx"@, (s.gpr[2] as u16) as u32),
        word_pair("si"@, (s.gpr[6] as u16) as u32),
        word_pair("di"@, (s.gpr[7] as u16) as u32),
        word_pair("bp"@, (s.gpr[5] as u16) as u32),
        word_pair("sp"@, (s.gpr[4] as u16) as u32),
        dword_pair("eax"@, s.gpr[0]),
        dword_pair("ebx"@, s.gpr[3]),
        dword_pair("ecx"@, s.gpr[1]),
        dword_pair("edx"@, s.gpr[2]),
        dword_pair("esi"@, s.gpr[6]),
        dword_pair("edi"@, s.gpr[7]),
        dword_pair("ebp"@, s.gpr[5]),
        dword_pair("esp"@, s.gpr[4]),
        word_pair("cs"@, s.cache(Seg::CS).selector as u32),
        word_pair("ds"@, s.cache(Seg::DS).selector as u32),
        word_pair("es"@, s.cache(Seg::ES).selector as u32),
        word_pair("ss"@, s.cache(Seg::SS).selector as u32),
        word_pair("fs"@, s.cache(Seg::FS).selector as u32),
        word_pair("gs"@, s.cache(Seg::GS).selector as u32),
        word_pair("ip"@, (s.eip as u16) as u32),
        dword_pair("eip"@, s.eip),
        word_pair("flags"@, (s.flags as u16) as u32),
        dword_pair("eflags"@, s.flags),
        dword_pair("cr0"@, s.cr0),
    ]
}

/// The registers with their values in hexadecimal.
pub fn registers(cpu: &Cpu) -> (pairs: Vec<(&'static str, String)>)
    ensures
        shown_pairs(pairs@) == register_list(cpu@),
{
    let mut pairs: Vec<(&'static str, String)> = Vec::new();
    assert(shown_pairs(pairs@) =~= Seq::empty());
    push_pair(&mut pairs, "ax", cpu.ax() as u32, 4);
    push_pair(&mut pairs, "bx", cpu.bx() as u32, 4);
    push_pair(&mut pairs, "cx", cpu.cx() as u32, 4);
    push_pair(&mut pairs, "dx", cpu.dx() as u32, 4);
    push_pair(&mut pairs, "si", cpu.si() as u32, 4);
    push_pair(&mut pairs, "di", cpu.di() as u32, 4);
    push_pair(&mut pairs, "bp", cpu.bp() as u32, 4);
    push_pair(&mut pairs, "sp", cpu.sp() as u32, 4);
    push_pair(&mut pairs, "eax", cpu.eax(), 8);
    push_pair(&mut pairs, "ebx", cpu.ebx(), 8);
    push_pair(&mut pairs, "ecx", cpu.ecx(), 8);
    push_pair(&mut pairs, "edx", cpu.edx(), 8);
    push_pair(&mut pairs, "esi", cpu.esi(), 8);
    push_pair(&mut pairs, "edi", cpu.edi(), 8);
    push_pair(&mut pairs, "ebp", cpu.ebp(), 8);
    push_pair(&mut pairs, "esp", cpu.esp(), 8);
    push_pair(&mut pairs, "cs", cpu.cs() as u32, 4);
    push_pair(&mut pairs, "ds", cpu.ds() as u32, 4);
    push_pair(&mut pairs, "es", cpu.es() as u32, 4);
    push_pair(&mut pairs, "ss", cpu.ss() as u32, 4);
    push_pair(&mut pairs, "fs", cpu.fs() as u32, 4);
    push_pair(&mut pairs, "gs", cpu.gs() as u32, 4);
    push_pair(&mut pairs, "ip", cpu.ip() as u32, 4);
    push_pair(&mut pairs, "eip", cpu.eip(), 8);
    push_pair(&mut pairs, "flags", (cpu.flags.bits as u16) as u32, 4);
    push_pair(&mut pairs, "eflags", cpu.flags.bits, 8);
    push_pair(&mut pairs, "cr0", cpu.cr0, 8);
    assert(shown_pairs(pairs@) =~= register_list(cpu@));
    pairs
}

/// The registers protected mode adds: mode, CPL, control registers,
/// descriptor table registers and the segment register caches.
#[derive(Clone, Copy, Debug)]
pub struct SystemRegs {
    pub mode: &'static str,
    pub cpl: u8,
    pub code32: bool,
    pub cr2: u32,
    pub cr3: u32,
    /// Base and limit.
    pub gdtr: (u32, u16),
    pub idtr: (u32, u16),
    pub ldtr: SegCache,
    pub tr: SegCache,
    /// ES, CS, SS, DS, FS, GS.
    pub segments: [SegCache; 6],
}

/// The registers protected mode adds.
pub fn system_regs(cpu: &Cpu) -> (regs: SystemRegs)
    ensures
        regs.mode@ == mode_text(cpu@),
        regs.cpl == cpu@.cpl,
        regs.code32 == (cpu@.cache(Seg::CS).attr & ATTR_DB != 0),
        regs.cr2 == cpu@.cr2,
        regs.cr3 == cpu@.cr3,
        regs.gdtr == (cpu@.gdtr.base, cpu@.gdtr.limit),
        regs.idtr == (cpu@.idtr.base, cpu@.idtr.limit),
        regs.ldtr == cpu@.ldtr,
        regs.tr == cpu@.tr,
        regs.segments@ == cpu@.seg,
{
    SystemRegs {
        mode: mode_name(cpu),
        cpl: cpu.cpl,
        code32: cpu.seg_cache(Seg::CS).attr & ATTR_DB != 0,
        cr2: cpu.cr2,
        cr3: cpu.cr3,
        gdtr: (cpu.gdtr.base, cpu.gdtr.limit),
        idtr: (cpu.idtr.base, cpu.idtr.limit),
        ldtr: cpu.ldtr,
        tr: cpu.tr,
        segments: cpu.seg,
    }
}

/// An exception there was.
#[derive(Clone, Copy, Debug)]
pub struct ExceptionInfo {
    pub vector: u8,
    pub name: &'static str,
    pub cs: u16,
    pub eip: u32,
    pub protected: bool,
    pub icount: u64,
    /// The error code, which only protected mode has.
    pub error: Option<u32>,
    /// The address of a page fault.
    pub cr2: Option<u32>,
}

/// Whether an info tells of an exception.
pub open spec fn tells_exception(info: ExceptionInfo, e: ExceptionRecord) -> bool {
    &&& info.vector == e.vector
    &&& info.name@ == name_of(e.vector)
    &&& info.cs == e.cs
    &&& info.eip == e.eip
    &&& info.protected == e.protected
    &&& info.icount == e.icount
    &&& info.error == (if e.protected {
        e.error
    } else {
        None
    })
    &&& info.cr2 == (if e.vector == 14 {
        Some(e.cr2)
    } else {
        None
    })
}

pub(crate) fn exception_info(e: &ExceptionRecord) -> (info: ExceptionInfo)
    ensures
        tells_exception(info, *e),
{
    ExceptionInfo {
        vector: e.vector,
        name: exception_name(e.vector),
        cs: e.cs,
        eip: e.eip,
        protected: e.protected,
        icount: e.icount,
        error: if e.protected {
            e.error
        } else {
            None
        },
        cr2: if e.vector == 14 {
            Some(e.cr2)
        } else {
            None
        },
    }
}

/// Whether infos tell of exceptions, one of each.
pub open spec fn exceptions_tell(infos: Seq<ExceptionInfo>, log: Seq<ExceptionRecord>) -> bool {
    &&& infos.len() == log.len()
    &&& forall|i: int| 0 <= i < infos.len() ==> tells_exception(#[trigger] infos[i], log[i])
}

/// The most recent exceptions, oldest first.
pub fn exceptions_info(cpu: &Cpu) -> (infos: Vec<ExceptionInfo>)
    ensures
        exceptions_tell(infos@, cpu@.rest.exception_log),
{
    let mut infos: Vec<ExceptionInfo> = Vec::new();
    let mut i: usize = 0;
    while i < cpu.exception_log.len()
        invariant
            i <= cpu.exception_log@.len(),
            infos@.len() == i,
            forall|j: int|
                0 <= j < i ==> tells_exception(
                    #[trigger] infos@[j],
                    cpu@.rest.exception_log[j],
                ),
        decreases cpu.exception_log.len() - i,
    {
        infos.push(exception_info(&cpu.exception_log[i]));
        i = i + 1;
    }
    infos
}

/// An entry of the interrupt vector table: where it points, and whether the
/// emulator handles it itself.
#[derive(Clone, Copy, Debug, PartialEq, Eq, Structural)]
pub struct VectorInfo {
    pub segment: u16,
    pub offset: u16,
    pub hle: bool,
}

/// An entry of the real-mode interrupt vector table.
pub open spec fn vector_of(s: Core, v: int) -> VectorInfo {
    let offset = crate::bus::word_at(s.ram, 4 * v);
    let segment = crate::bus::word_at(s.ram, 4 * v + 2);
    let at = s.physical(segment, offset) as int;
    VectorInfo {
        segment,
        offset,
        hle: crate::bus::byte_at(s.ram, at) == 0xFE && crate::bus::byte_at(s.ram, at + 1) == 0x38,
    }
}

/// The real-mode interrupt vector table.
pub fn ivt_info(cpu: &Cpu) -> (table: Vec<VectorInfo>)
    ensures
        table@ == Seq::new(256, |v: int| vector_of(cpu@, v)),
{
    let mut table: Vec<VectorInfo> = Vec::new();
    let mut v: usize = 0;
    while v < 256
        invariant
            v <= 256,
            table@.len() == v,
            forall|j: int| 0 <= j < v ==> table@[j] == vector_of(cpu@, j),
        decreases 256 - v,
    {
        let offset: u16 = cpu.bus.read_16(v * 4);
        let segment: u16 = cpu.bus.read_16(v * 4 + 2);
        let at: usize = cpu.get_physical_addr(segment, offset);
        assert(cpu.bus.ram@.len() == cpu.bus.ram.len());
        let hle = at < usize::MAX && cpu.bus.read_8(at) == 0xFE && cpu.bus.read_8(at + 1) == 0x38;
        table.push(VectorInfo { segment, offset, hle });
        v = v + 1;
    }
    assert(table@ =~= Seq::new(256, |v: int| vector_of(cpu@, v)));
    table
}

} // verus!
