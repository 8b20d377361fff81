//! What a task leaves in its TSS is what is found there again.

use vstd::prelude::*;

use super::alu::value_count;
use super::laws::{in_memory, law_operand_reads_back};
use super::mem::{is_operand_size, ref_byte, Access, MemRef};
use super::state::{Core, Fault, VM};
use super::task::{TSS16_GPR, TSS16_IP, TSS16_SEG, TSS32_CR3, TSS32_EIP, TSS32_GPR, TSS32_SEG};

verus! {

/// Whether memory lies at its linear addresses, from one on.
pub open spec fn flat(s: Core, from: u32, len: int) -> bool {
    !s.paging() && s.a20 && from + len <= s.ram.len() && from + len <= 0x1_0000_0000
}

/// The operand at a linear address that is its physical address too.
pub open spec fn flat_ref(lin: u32, size: u8) -> MemRef {
    MemRef {
        lin,
        phys: lin,
        phys2: if lin % 0x1000 > 0x1000 - size {
            (lin | 0xFFF).wrapping_add(1)
        } else {
            0
        },
        size,
    }
}

proof fn lemma_flat_ref(s: Core, lin: u32, size: u8, access: Access)
    requires
        is_operand_size(size),
        flat(s, lin, size as int),
    ensures
        s.lin_ref(lin, size, access, false) == (s, Ok::<MemRef, Fault>(flat_ref(lin, size))),
        forall|i: int| 0 <= i < size ==> #[trigger] ref_byte(flat_ref(lin, size), i) == lin + i,
        in_memory(s.ram, flat_ref(lin, size)),
{
    reveal(Core::lin_ref);
    reveal(Core::lin_to_phys);
    let next = (lin | 0xFFF).wrapping_add(1);
    assert(lin & 0xFFFF_FFFF == lin && next & 0xFFFF_FFFF == next && (lin | 0xFFF) / 0x1000 == lin
        / 0x1000 && (lin | 0xFFF) % 0x1000 == 0xFFF) by (bit_vector);
    assert forall|i: int| 0 <= i < size implies #[trigger] ref_byte(flat_ref(lin, size), i) == lin
        + i by {}
}

proof fn lemma_stored_elsewhere(ram: Seq<u8>, r: MemRef, value: u32, n: nat, at: int)
    requires
        forall|i: int| 0 <= i < n ==> #[trigger] ref_byte(r, i) != at,
    ensures
        Core::stored(ram, r, value, n).len() == ram.len(),
        0 <= at < ram.len() ==> Core::stored(ram, r, value, n)[at] == ram[at],
    decreases n,
{
    if n > 0 {
        lemma_stored_elsewhere(ram, r, value, (n - 1) as nat, at);
        assert(ref_byte(r, n - 1) != at);
    }
}

/// A write to memory that lies at its addresses: it reads back, and what
/// lies elsewhere stays.
proof fn lemma_flat_write(s: Core, lin: u32, size: u8, value: u32)
    requires
        is_operand_size(size),
        flat(s, lin, size as int),
    ensures
        ({
            let (t, done) = s.sys_write(lin, size, value);
            &&& done is Ok
            &&& t == (Core { ram: t.ram, ..s })
            &&& t.ram.len() == s.ram.len()
            &&& t.operand(flat_ref(lin, size)) == value as int % value_count(size)
            &&& forall|other: u32, z: u8|
                is_operand_size(z) && flat(s, other, z as int) && (other + z <= lin || lin + size
                    <= other) ==> (#[trigger] t.operand(flat_ref(other, z))) == s.operand(
                    flat_ref(other, z),
                )
        }),
{
    let r = flat_ref(lin, size);
    lemma_flat_ref(s, lin, size, Access::Write);
    law_operand_reads_back(s, r, value);
    let t = s.with_operand(r, value);
    assert(t == (Core { ram: t.ram, ..s }) && t.ram.len() == s.ram.len()) by {
        reveal(Core::with_operand);
        lemma_stored_elsewhere(s.ram, r, value, size as nat, -1);
    }
    assert forall|other: u32, z: u8|
        is_operand_size(z) && flat(s, other, z as int) && (other + z <= lin || lin + size
            <= other) implies (#[trigger] t.operand(flat_ref(other, z))) == s.operand(
        flat_ref(other, z),
    ) by {
        let q = flat_ref(other, z);
        lemma_flat_ref(s, other, z, Access::Read);
        reveal(Core::operand);
        reveal(Core::with_operand);
        assert forall|j: int| 0 <= j < z implies t.operand_byte(q, j) == s.operand_byte(q, j) by {
            lemma_stored_elsewhere(s.ram, r, value, size as nat, ref_byte(q, j) as int);
        }
    }
}

/// Where a value of a row is.
pub open spec fn slot(base: u32, offset: u32, stride: u32, k: int) -> u32 {
    base.wrapping_add((offset + stride * k) as u32)
}

/// Whether a row of memory holds values, each cut to its size.
pub open spec fn holds(
    s: Core,
    base: u32,
    offset: u32,
    stride: u32,
    size: u8,
    values: Seq<u32>,
    n: nat,
) -> bool {
    forall|k: int|
        0 <= k < n ==> (#[trigger] s.operand(flat_ref(slot(base, offset, stride, k), size)))
            == values[k] as int % value_count(size)
}

/// Whether two states hold the same in a stretch of memory.
pub open spec fn same_between(s: Core, t: Core, from: int, to: int) -> bool {
    forall|lin: u32, z: u8|
        is_operand_size(z) && from <= lin && lin + z <= to ==> (#[trigger] t.operand(
            flat_ref(lin, z),
        )) == s.operand(flat_ref(lin, z))
}

proof fn lemma_slot(base: u32, offset: u32, stride: u32, k: int, n: int, top: int)
    requires
        stride == 2 || stride == 4,
        0 <= k < n,
        offset + stride * n <= top <= 0x68,
        base + top <= 0x1_0000_0000,
    ensures
        slot(base, offset, stride, k) == base + offset + stride * k,
        slot(base, offset, stride, k) + stride <= base + offset + stride * n,
{
    if stride == 2 {
        assert(stride * k == 2 * k && stride * n == 2 * n);
    } else {
        assert(stride * k == 4 * k && stride * n == 4 * n);
    }
}

proof fn lemma_row_written(
    s: Core,
    base: u32,
    offset: u32,
    stride: u32,
    size: u8,
    values: Seq<u32>,
    n: nat,
    top: int,
)
    requires
        stride == 2 || stride == 4,
        size == 2 || size == 4,
        size <= stride,
        offset + stride * n <= top <= 0x68,
        flat(s, base, top),
    ensures
        ({
            let (t, done) = s.row_written(base, offset, stride, size, values, n);
            &&& done is Ok
            &&& t == (Core { ram: t.ram, ..s })
            &&& t.ram.len() == s.ram.len()
            &&& holds(t, base, offset, stride, size, values, n)
            &&& same_between(s, t, base as int, base + offset)
            &&& same_between(s, t, base + offset + stride * n, base + top)
        }),
    decreases n,
{
    if n > 0 {
        let m = (n - 1) as nat;
        assert(stride * m <= stride * n) by (nonlinear_arith)
            requires
                m <= n,
        ;
        lemma_row_written(s, base, offset, stride, size, values, m, top);
        lemma_slot(base, offset, stride, m as int, n as int, top);
        let u = s.row_written(base, offset, stride, size, values, m).0;
        let at = slot(base, offset, stride, m as int);
        lemma_flat_write(u, at, size, values[n - 1]);
        let t = s.row_written(base, offset, stride, size, values, n).0;
        assert(t == u.sys_write(at, size, values[n - 1]).0);
        assert forall|k: int| 0 <= k < n implies (#[trigger] t.operand(
            flat_ref(slot(base, offset, stride, k), size),
        )) == values[k] as int % value_count(size) by {
            if k < m {
                lemma_slot(base, offset, stride, k, m as int, top);
                assert(u.operand(flat_ref(slot(base, offset, stride, k), size)) == values[k] as int
                    % value_count(size));
            }
        }
        assert forall|lin: u32, z: u8|
            is_operand_size(z) && base <= lin && lin + z <= base + offset implies (
        #[trigger] t.operand(flat_ref(lin, z))) == s.operand(flat_ref(lin, z)) by {
            assert(u.operand(flat_ref(lin, z)) == s.operand(flat_ref(lin, z)));
        }
        assert(stride * n == stride * m + stride) by (nonlinear_arith)
            requires
                n == m + 1,
        ;
        assert forall|lin: u32, z: u8|
            is_operand_size(z) && base + offset + stride * n <= lin && lin + z <= base
                + top implies (#[trigger] t.operand(flat_ref(lin, z))) == s.operand(
            flat_ref(lin, z),
        ) by {
            assert(u.operand(flat_ref(lin, z)) == s.operand(flat_ref(lin, z)));
        }
    }
}

proof fn lemma_row_read(
    s: Core,
    base: u32,
    offset: u32,
    stride: u32,
    size: u8,
    n: nat,
    top: int,
)
    requires
        stride == 2 || stride == 4,
        size == 2 || size == 4,
        size <= stride,
        offset + stride * n <= top <= 0x68,
        flat(s, base, top),
    ensures
        ({
            let (t, read) = s.row_read(base, offset, stride, size, n);
            &&& t == s
            &&& read is Ok
            &&& read->Ok_0.len() == n
            &&& forall|k: int|
                0 <= k < n ==> (#[trigger] read->Ok_0[k]) == s.operand(
                    flat_ref(slot(base, offset, stride, k), size),
                )
        }),
    decreases n,
{
    if n > 0 {
        let m = (n - 1) as nat;
        assert(stride * m <= stride * n) by (nonlinear_arith)
            requires
                m <= n,
        ;
        lemma_row_read(s, base, offset, stride, size, m, top);
        lemma_slot(base, offset, stride, m as int, n as int, top);
        lemma_flat_ref(s, slot(base, offset, stride, m as int), size, Access::Read);
    }
}

/// A task that is saved in a 32-bit TSS is found there again: its EIP, flags,
/// general-purpose registers and selectors. The page directory and the LDT
/// stay those that the TSS held. The TSS lies in memory, without paging.
pub proof fn law_saved_task_reads_back(s: Core, flags: u32)
    requires
        s.wf(),
        s.tr.attr & 0x08 != 0,
        s.tr.attr & 0x88 != 0,
        flat(s, s.tr.base, 0x68),
    ensures
        ({
            let base = s.tr.base;
            let (t, saved) = s.task_saved(flags);
            let (u, read) = t.task32_read(base);
            &&& saved is Ok
            &&& u == t
            &&& read is Ok
            &&& read->Ok_0.eip == s.eip
            &&& read->Ok_0.eflags == flags
            &&& read->Ok_0.gpr == s.gpr
            &&& read->Ok_0.sels == Seq::new(6, |i: int| s.seg[i].selector)
            &&& read->Ok_0.cr3 == Some(s.operand(flat_ref(slot(base, TSS32_CR3, 4, 0), 4)))
            &&& read->Ok_0.ldt == s.operand(flat_ref(slot(base, TSS32_SEG, 4, 6), 2)) as u16
        }),
{
    reveal(Core::task_saved);
    reveal(Core::task32_read);
    let base = s.tr.base;
    let head = seq![s.eip, flags];
    lemma_row_written(s, base, TSS32_EIP, 4, 4, head, 2, 0x68);
    let a = s.row_written(base, TSS32_EIP, 4, 4, head, 2).0;
    lemma_row_written(a, base, TSS32_GPR, 4, 4, s.gpr, 8, 0x68);
    let b = a.row_written(base, TSS32_GPR, 4, 4, s.gpr, 8).0;
    lemma_row_written(b, base, TSS32_SEG, 4, 2, s.selectors(), 6, 0x68);
    let t = b.row_written(base, TSS32_SEG, 4, 2, s.selectors(), 6).0;
    assert(t == s.task_saved(flags).0);
    lemma_row_read(t, base, TSS32_CR3, 4, 4, 3, 0x68);
    lemma_row_read(t, base, TSS32_GPR, 4, 4, 8, 0x68);
    lemma_row_read(t, base, TSS32_SEG, 4, 2, 7, 0x68);
    // The head: the page directory, EIP and the flags.
    assert(slot(base, TSS32_CR3, 4, 1) == slot(base, TSS32_EIP, 4, 0));
    assert(slot(base, TSS32_CR3, 4, 2) == slot(base, TSS32_EIP, 4, 1));
    assert(head[0] == s.eip && head[1] == flags);
    assert(a.operand(flat_ref(slot(base, TSS32_EIP, 4, 0), 4)) == head[0] as int % value_count(4));
    assert(a.operand(flat_ref(slot(base, TSS32_EIP, 4, 1), 4)) == head[1] as int % value_count(4));
    assert(a.operand(flat_ref(slot(base, TSS32_EIP, 4, 0), 4)) == s.eip);
    assert(a.operand(flat_ref(slot(base, TSS32_EIP, 4, 1), 4)) == flags);
    assert forall|k: int| 0 <= k < 3 implies (#[trigger] t.operand(
        flat_ref(slot(base, TSS32_CR3, 4, k), 4),
    )) == a.operand(flat_ref(slot(base, TSS32_CR3, 4, k), 4)) by {
        assert(b.operand(flat_ref(slot(base, TSS32_CR3, 4, k), 4)) == a.operand(
            flat_ref(slot(base, TSS32_CR3, 4, k), 4),
        ));
    }
    assert(a.operand(flat_ref(slot(base, TSS32_CR3, 4, 0), 4)) == s.operand(
        flat_ref(slot(base, TSS32_CR3, 4, 0), 4),
    ));
    // The registers.
    let gpr = t.row_read(base, TSS32_GPR, 4, 4, 8).1->Ok_0;
    assert forall|k: int| 0 <= k < 8 implies (#[trigger] gpr[k]) == s.gpr[k] by {
        let q = flat_ref(slot(base, TSS32_GPR, 4, k), 4);
        assert(b.operand(q) == s.gpr[k]);
        assert(t.operand(q) == b.operand(q));
    }
    assert(gpr =~= s.gpr);
    // The selectors, and the LDT behind them.
    let sels = t.row_read(base, TSS32_SEG, 4, 2, 7).1->Ok_0;
    assert forall|k: int| 0 <= k < 6 implies (#[trigger] sels[k]) == s.seg[k].selector by {
        let q = flat_ref(slot(base, TSS32_SEG, 4, k), 2);
        assert(t.operand(q) == s.selectors()[k] as int % value_count(2));
    }
    let ldt = flat_ref(slot(base, TSS32_SEG, 4, 6), 2);
    assert(t.operand(ldt) == b.operand(ldt));
    assert(b.operand(ldt) == a.operand(ldt));
    assert(a.operand(ldt) == s.operand(ldt));
    let task = t.task32_read(base).1->Ok_0;
    assert(task.sels =~= Seq::new(6, |i: int| s.seg[i].selector));
}

/// A task that is saved in a 16-bit TSS is found there again: the low words
/// of IP, flags and general-purpose registers, and the selectors of ES, CS,
/// SS and DS. The LDT stays the one that the TSS held. The TSS lies in
/// memory, without paging.
pub proof fn law_saved_task16_reads_back(s: Core, flags: u32)
    requires
        s.wf(),
        s.tr.attr & 0x08 == 0,
        s.tr.attr & 0x88 != 0,
        flat(s, s.tr.base, 0x2C),
    ensures
        ({
            let base = s.tr.base;
            let (t, saved) = s.task_saved(flags);
            let (u, read) = t.task16_read(base);
            &&& saved is Ok
            &&& u == t
            &&& read is Ok
            &&& read->Ok_0.eip == s.eip % 0x1_0000
            &&& read->Ok_0.eflags == (flags % 0x1_0000) | (s.flags & 0xFFFF_0000 & !VM)
            &&& read->Ok_0.gpr == Seq::new(8, |i: int| 0xFFFF_0000 | (s.gpr[i] % 0x1_0000))
            &&& read->Ok_0.sels == Seq::new(
                6,
                |i: int|
                    if i < 4 {
                        s.seg[i].selector
                    } else {
                        0
                    },
            )
            &&& read->Ok_0.cr3 is None
            &&& read->Ok_0.ldt == s.operand(flat_ref(slot(base, TSS16_SEG, 2, 4), 2)) as u16
        }),
{
    reveal(Core::task_saved);
    reveal(Core::task16_read);
    let base = s.tr.base;
    let head = seq![s.eip, flags];
    lemma_row_written(s, base, TSS16_IP, 2, 2, head, 2, 0x2C);
    let a = s.row_written(base, TSS16_IP, 2, 2, head, 2).0;
    lemma_row_written(a, base, TSS16_GPR, 2, 2, s.gpr, 8, 0x2C);
    let b = a.row_written(base, TSS16_GPR, 2, 2, s.gpr, 8).0;
    lemma_row_written(b, base, TSS16_SEG, 2, 2, s.selectors(), 4, 0x2C);
    let t = b.row_written(base, TSS16_SEG, 2, 2, s.selectors(), 4).0;
    assert(t == s.task_saved(flags).0);
    lemma_row_read(t, base, TSS16_IP, 2, 2, 2, 0x2C);
    lemma_row_read(t, base, TSS16_GPR, 2, 2, 8, 0x2C);
    lemma_row_read(t, base, TSS16_SEG, 2, 2, 5, 0x2C);
    // IP and the flags.
    assert(head[0] == s.eip && head[1] == flags);
    assert forall|k: int| 0 <= k < 2 implies (#[trigger] t.operand(
        flat_ref(slot(base, TSS16_IP, 2, k), 2),
    )) == head[k] as int % 0x1_0000 by {
        let q = flat_ref(slot(base, TSS16_IP, 2, k), 2);
        assert(a.operand(q) == head[k] as int % value_count(2));
        assert(b.operand(q) == a.operand(q));
    }
    // The registers.
    let gpr = t.row_read(base, TSS16_GPR, 2, 2, 8).1->Ok_0;
    assert forall|k: int| 0 <= k < 8 implies (#[trigger] gpr[k]) == s.gpr[k] % 0x1_0000 by {
        let q = flat_ref(slot(base, TSS16_GPR, 2, k), 2);
        assert(b.operand(q) == s.gpr[k] as int % value_count(2));
        assert(t.operand(q) == b.operand(q));
    }
    // The selectors, and the LDT behind them.
    let sels = t.row_read(base, TSS16_SEG, 2, 2, 5).1->Ok_0;
    assert forall|k: int| 0 <= k < 4 implies (#[trigger] sels[k]) == s.seg[k].selector by {
        let q = flat_ref(slot(base, TSS16_SEG, 2, k), 2);
        assert(t.operand(q) == s.selectors()[k] as int % value_count(2));
    }
    let ldt = flat_ref(slot(base, TSS16_SEG, 2, 4), 2);
    assert(t.operand(ldt) == b.operand(ldt));
    assert(b.operand(ldt) == a.operand(ldt));
    assert(a.operand(ldt) == s.operand(ldt));
    let task = t.task16_read(base).1->Ok_0;
    assert(task.gpr =~= Seq::new(8, |i: int| 0xFFFF_0000 | (s.gpr[i] % 0x1_0000)));
    assert(task.sels =~= Seq::new(
        6,
        |i: int|
            if i < 4 {
                s.seg[i].selector
            } else {
                0
            },
    ));
}

} // verus!
