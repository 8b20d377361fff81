//! Paging: linear to physical translation through the two-level page
//! tables at CR3, the TLB that caches it, and page faults.

use vstd::prelude::*;

use super::state::{
    Core, Cpu, CpuModel, CpuResult, Fault, Tlb, TlbEntry, CR0_PG, CR0_WP, TLB_ENTRIES,
};
use crate::bus::{
    a20_lines, byte_at, dword_at, law_dword_reads_back, law_store_32_keeps_size, store_32,
};

verus! {

/// Page table entry bits.
pub const PTE_P: u32 = 0x001;

pub const PTE_RW: u32 = 0x002;

pub const PTE_US: u32 = 0x004;

pub const PTE_A: u32 = 0x020;

pub const PTE_D: u32 = 0x040;

/// #PF error code bits.
pub const PF_PROTECTION: u32 = 0x1;

pub const PF_WRITE: u32 = 0x2;

pub const PF_USER: u32 = 0x4;

/// An entry without a translation.
pub open spec fn no_entry() -> TlbEntry {
    TlbEntry { read_tag: 0, write_tag: 0, phys: 0 }
}

/// The page that holds a linear address.
pub open spec fn page_of(lin: u32) -> u32 {
    lin / 0x1000
}

/// What an entry is tagged with when it holds a page.
pub open spec fn tag_of(lin: u32) -> u32 {
    (page_of(lin) + 1) as u32
}

/// Where a page's translation is kept.
pub open spec fn tlb_slot(lin: u32, user: bool) -> int {
    (if user {
        TLB_ENTRIES as int
    } else {
        0
    }) + page_of(lin) as int % TLB_ENTRIES as int
}

/// The TLB without a page's translations.
pub open spec fn page_flushed(tlb: Seq<TlbEntry>, lin: u32) -> Seq<TlbEntry> {
    Seq::new(
        tlb.len(),
        |i: int|
            if (i == tlb_slot(lin, false) || i == tlb_slot(lin, true)) && tlb[i].read_tag
                == tag_of(lin) {
                no_entry()
            } else {
                tlb[i]
            },
    )
}

/// The page fault's error code but for the protection bit.
pub open spec fn access_error(write: bool, user: bool) -> u32 {
    (if write {
        PF_WRITE
    } else {
        0u32
    }) | (if user {
        PF_USER
    } else {
        0u32
    })
}

impl Core {
    /// Physical address of a linear one with paging off: the A20 gate
    /// decides whether address line 20 follows or is held at 0.
    pub open spec fn translated(self, lin: u32) -> u32 {
        lin & a20_lines(self.a20)
    }

    pub open spec fn paging(self) -> bool {
        self.cr0 & CR0_PG != 0
    }

    /// Read-only pages bind supervisor code too: a 486 with CR0.WP set.
    pub open spec fn write_protect(self) -> bool {
        self.model == CpuModel::I486 && self.cr0 & CR0_WP != 0
    }

    /// Whether pages with these rights allow an access.
    pub open spec fn page_allows(
        self,
        user_ok: bool,
        write_ok: bool,
        write: bool,
        user: bool,
    ) -> bool {
        (user ==> user_ok) && (write ==> write_ok || (!user && !self.write_protect()))
    }

    /// The address and value of a linear address's page directory entry.
    pub open spec fn pde_addr(self, lin: u32) -> u32 {
        self.translated((self.cr3 & 0xFFFF_F000) | ((lin >> 20) & 0xFFC))
    }

    pub open spec fn pde(self, lin: u32) -> u32 {
        dword_at(self.ram, self.pde_addr(lin) as int)
    }

    /// The address and value of its page table entry.
    pub open spec fn pte_addr(self, lin: u32) -> u32 {
        self.translated((self.pde(lin) & 0xFFFF_F000) | ((lin >> 10) & 0xFFC))
    }

    pub open spec fn pte(self, lin: u32) -> u32 {
        dword_at(self.ram, self.pte_addr(lin) as int)
    }

    /// Whether both entries are present.
    pub open spec fn mapped(self, lin: u32) -> bool {
        self.pde(lin) & PTE_P != 0 && self.pte(lin) & PTE_P != 0
    }

    pub open spec fn user_page(self, lin: u32) -> bool {
        self.pde(lin) & self.pte(lin) & PTE_US != 0
    }

    pub open spec fn writable_page(self, lin: u32) -> bool {
        self.pde(lin) & self.pte(lin) & PTE_RW != 0
    }

    /// The page table entry after an access: accessed, and dirty if it was
    /// written.
    pub open spec fn pte_after(self, lin: u32, write: bool) -> u32 {
        self.pte(lin) | PTE_A | (if write {
            PTE_D
        } else {
            0u32
        })
    }

    /// The physical address that the page tables give.
    pub open spec fn mapped_to(self, lin: u32) -> u32 {
        self.translated((self.pte(lin) & 0xFFFF_F000) | (lin & 0xFFF))
    }

    /// Memory after an access marked the entries.
    pub open spec fn entries_marked(self, lin: u32, write: bool) -> Seq<u8> {
        let first = if self.pde(lin) & PTE_A == 0 {
            store_32(self.ram, self.pde_addr(lin) as int, self.pde(lin) | PTE_A)
        } else {
            self.ram
        };
        if self.pte_after(lin, write) != self.pte(lin) {
            store_32(first, self.pte_addr(lin) as int, self.pte_after(lin, write))
        } else {
            first
        }
    }

    /// The translation that a walk leaves behind. Writes go through it only
    /// once the page is dirty.
    pub open spec fn walked_entry(self, lin: u32, write: bool, user: bool) -> TlbEntry {
        let writable = self.pte_after(lin, write) & PTE_D != 0 && self.page_allows(
            self.user_page(lin),
            self.writable_page(lin),
            true,
            user,
        );
        TlbEntry {
            read_tag: tag_of(lin),
            write_tag: if writable {
                tag_of(lin)
            } else {
                0
            },
            phys: self.pte(lin) & 0xFFFF_F000,
        }
    }

    /// A walk of the page tables: the entries are marked and the translation
    /// kept, or CR2 tells where the page fault was.
    #[verifier::opaque]
    pub open spec fn walk(self, lin: u32, write: bool, user: bool) -> (Core, CpuResult<u32>) {
        let error = access_error(write, user);
        if !self.mapped(lin) {
            (Core { cr2: lin, ..self }, Err(Fault { vector: 14, error: Some(error) }))
        } else if !self.page_allows(self.user_page(lin), self.writable_page(lin), write, user) {
            (
                Core { cr2: lin, ..self },
                Err(Fault { vector: 14, error: Some(error | PF_PROTECTION) }),
            )
        } else {
            (
                Core {
                    ram: self.entries_marked(lin, write),
                    tlb: self.tlb.update(
                        tlb_slot(lin, user),
                        self.walked_entry(lin, write, user),
                    ),
                    ..self
                },
                Ok(self.mapped_to(lin)),
            )
        }
    }

    /// Whether the TLB has the translation for an access.
    pub open spec fn tlb_hit(self, lin: u32, write: bool, user: bool) -> bool {
        let e = self.tlb[tlb_slot(lin, user)];
        (if write {
            e.write_tag
        } else {
            e.read_tag
        }) == tag_of(lin)
    }

    /// The physical address of an access, the state it leaves, or its fault.
    #[verifier::opaque]
    pub open spec fn lin_to_phys(self, lin: u32, write: bool, user: bool) -> (
        Core,
        CpuResult<u32>,
    ) {
        if !self.paging() {
            (self, Ok(self.translated(lin)))
        } else if self.tlb_hit(lin, write, user) {
            (self, Ok(self.translated(self.tlb[tlb_slot(lin, user)].phys | (lin & 0xFFF))))
        } else {
            self.walk(lin, write, user)
        }
    }

    /// Where a linear address is, as a debugger sees it.
    pub open spec fn peek(self, lin: u32) -> Option<u32> {
        if !self.paging() {
            Some(self.translated(lin))
        } else if self.mapped(lin) {
            Some(self.mapped_to(lin))
        } else {
            None
        }
    }
}

impl Tlb {
    /// A TLB without translations.
    pub fn empty() -> (tlb: Tlb)
        ensures
            tlb.entries@ == Seq::new(2048, |i: int| no_entry()),
    {
        let entries = [TlbEntry { read_tag: 0, write_tag: 0, phys: 0 };2048];
        assert(entries@ =~= Seq::new(2048, |i: int| no_entry()));
        Tlb { entries }
    }

    /// Drop all translations.
    pub fn flush(&mut self)
        ensures
            final(self).entries@ == Seq::new(2048, |i: int| no_entry()),
    {
        self.entries = [TlbEntry { read_tag: 0, write_tag: 0, phys: 0 };2048];
        assert(self.entries@ =~= Seq::new(2048, |i: int| no_entry()));
    }

    /// Drop the translations of the page holding `lin` (INVLPG).
    pub fn flush_page(&mut self, lin: u32)
        ensures
            final(self).entries@ == page_flushed(old(self).entries@, lin),
    {
        let low: usize = Tlb::slot(lin, false);
        let high: usize = Tlb::slot(lin, true);
        let tag: u32 = lin / 0x1000 + 1;
        if self.entries[low].read_tag == tag {
            self.entries[low] = TlbEntry { read_tag: 0, write_tag: 0, phys: 0 };
        }
        if self.entries[high].read_tag == tag {
            self.entries[high] = TlbEntry { read_tag: 0, write_tag: 0, phys: 0 };
        }
        assert(self.entries@ =~= page_flushed(old(self).entries@, lin));
    }

    fn slot(lin: u32, user: bool) -> (slot: usize)
        ensures
            slot == tlb_slot(lin, user),
            slot < 2048,
    {
        let page: usize = (lin / 0x1000) as usize;
        if user {
            TLB_ENTRIES + page % TLB_ENTRIES
        } else {
            page % TLB_ENTRIES
        }
    }
}

impl Cpu {
    /// Physical address of a linear one with paging off.
    pub fn translate(&self, lin: u32) -> (phys: u32)
        ensures
            phys == self@.translated(lin),
    {
        lin & self.bus.a20_mask()
    }

    /// Physical address of an access at `lin`: through the page tables
    /// when paging is on. `user` is an access at privilege level 3; system
    /// structures (descriptor tables, the TSS) are accessed as supervisor.
    pub fn lin_to_phys(&mut self, lin: u32, write: bool, user: bool) -> (phys: CpuResult<u32>)
        ensures
            final(self)@ == old(self)@.lin_to_phys(lin, write, user).0,
            phys == old(self)@.lin_to_phys(lin, write, user).1,
    {
        reveal(Core::lin_to_phys);
        if self.cr0 & CR0_PG == 0 {
            return Ok(self.translate(lin));
        }
        let e = self.tlb.entries[Tlb::slot(lin, user)];
        let tag: u32 = if write {
            e.write_tag
        } else {
            e.read_tag
        };
        if tag == lin / 0x1000 + 1 {
            return Ok(self.translate(e.phys | (lin & 0xFFF)));
        }
        self.walk(lin, write, user)
    }

    /// Whether the page tables allow an access. Supervisor code may write
    /// read-only pages, unless CR0.WP (486) says otherwise.
    fn allows(&self, user_ok: bool, write_ok: bool, write: bool, user: bool) -> (yes: bool)
        ensures
            yes == self@.page_allows(user_ok, write_ok, write, user),
    {
        if user && !user_ok {
            return false;
        }
        !write || write_ok || (!user && !self.write_protect())
    }

    fn write_protect(&self) -> (on: bool)
        ensures
            on == self@.write_protect(),
    {
        self.model == CpuModel::I486 && self.cr0 & CR0_WP != 0
    }

    /// Walk the page tables for `lin`, setting the accessed and dirty bits
    /// and filling the TLB, or raise a page fault with CR2 = `lin`.
    fn walk(&mut self, lin: u32, write: bool, user: bool) -> (phys: CpuResult<u32>)
        ensures
            final(self)@ == old(self)@.walk(lin, write, user).0,
            phys == old(self)@.walk(lin, write, user).1,
    {
        reveal(Core::walk);
        let error: u32 = (if write {
            PF_WRITE
        } else {
            0
        }) | (if user {
            PF_USER
        } else {
            0
        });
        let (pde_addr, pde, second): (u32, u32, Option<(u32, u32)>) = self.page_walk(lin);
        let (pte_addr, pte): (u32, u32) = match second {
            None => {
                return Err(self.page_fault(lin, error));
            },
            Some(entry) => entry,
        };
        if pte & PTE_P == 0 {
            return Err(self.page_fault(lin, error));
        }
        let user_ok = pde & pte & PTE_US != 0;
        let write_ok = pde & pte & PTE_RW != 0;
        if !self.allows(user_ok, write_ok, write, user) {
            return Err(self.page_fault(lin, error | PF_PROTECTION));
        }
        let new_pte: u32 = pte | PTE_A | (if write {
            PTE_D
        } else {
            0
        });
        // Writes go through the TLB only once the page is dirty, so the
        // first write to it still sets the bit.
        let writable = new_pte & PTE_D != 0 && self.allows(user_ok, write_ok, true, user);
        let tag: u32 = lin / 0x1000 + 1;
        let entry = TlbEntry {
            read_tag: tag,
            write_tag: if writable {
                tag
            } else {
                0
            },
            phys: pte & 0xFFFF_F000,
        };
        self.mark_entries(lin, write, (pde_addr, pde), (pte_addr, pte), new_pte);
        self.keep_translation(lin, user, entry);
        Ok(self.translate(entry.phys | (lin & 0xFFF)))
    }

    /// Set the accessed and dirty bits of a page's entries.
    fn mark_entries(
        &mut self,
        lin: u32,
        write: bool,
        pde: (u32, u32),
        pte: (u32, u32),
        new_pte: u32,
    )
        requires
            pde == (old(self)@.pde_addr(lin), old(self)@.pde(lin)),
            pte == (old(self)@.pte_addr(lin), old(self)@.pte(lin)),
            new_pte == old(self)@.pte_after(lin, write),
        ensures
            final(self)@ == (Core { ram: old(self)@.entries_marked(lin, write), ..old(self)@ }),
    {
        if pde.1 & PTE_A == 0 {
            self.bus.write_32(pde.0 as usize, pde.1 | PTE_A);
        }
        if new_pte != pte.1 {
            self.bus.write_32(pte.0 as usize, new_pte);
        }
    }

    /// Put a translation in the TLB.
    fn keep_translation(&mut self, lin: u32, user: bool, entry: TlbEntry)
        ensures
            final(self)@ == (Core {
                tlb: old(self)@.tlb.update(tlb_slot(lin, user), entry),
                ..old(self)@
            }),
    {
        self.tlb.entries[Tlb::slot(lin, user)] = entry;
    }

    fn page_fault(&mut self, lin: u32, error: u32) -> (fault: Fault)
        ensures
            final(self)@ == (Core { cr2: lin, ..old(self)@ }),
            fault == (Fault { vector: 14, error: Some(error) }),
    {
        self.cr2 = lin;
        Fault { vector: 14, error: Some(error) }
    }

    /// The physical address `lin` maps to, without faulting or changing
    /// anything, for debuggers. None for an unmapped page.
    pub fn peek_translate(&self, lin: u32) -> (phys: Option<u32>)
        ensures
            phys == self@.peek(lin),
    {
        if self.cr0 & CR0_PG == 0 {
            return Some(self.translate(lin));
        }
        match self.page_walk(lin) {
            (_, _, Some((_, pte))) => {
                if pte & PTE_P == 0 {
                    None
                } else {
                    Some(self.translate((pte & 0xFFFF_F000) | (lin & 0xFFF)))
                }
            },
            _ => None,
        }
    }

    /// The page directory and page table entries for `lin`, for debuggers:
    /// (PDE address, PDE, PTE address and PTE if the table is present).
    pub fn page_walk(&self, lin: u32) -> (entries: (u32, u32, Option<(u32, u32)>))
        ensures
            entries.0 == self@.pde_addr(lin),
            entries.1 == self@.pde(lin),
            entries.2 == (if self@.pde(lin) & PTE_P == 0 {
                None
            } else {
                Some((self@.pte_addr(lin), self@.pte(lin)))
            }),
    {
        let pde_addr: u32 = self.translate((self.cr3 & 0xFFFF_F000) | ((lin >> 20) & 0xFFC));
        let pde: u32 = self.bus.read_32(pde_addr as usize);
        if pde & PTE_P == 0 {
            return (pde_addr, pde, None);
        }
        let pte_addr: u32 = self.translate((pde & 0xFFFF_F000) | ((lin >> 10) & 0xFFC));
        (pde_addr, pde, Some((pte_addr, self.bus.read_32(pte_addr as usize))))
    }
}

/// A debugger sees the address that an access walks to.
pub proof fn law_peek_agrees_with_walk(s: Core, lin: u32, write: bool, user: bool)
    requires
        s.paging(),
        s.walk(lin, write, user).1 is Ok,
    ensures
        s.peek(lin) == Some(s.walk(lin, write, user).1->Ok_0),
{
    reveal(Core::walk);
}

/// A page fault changes nothing but CR2, which tells the address.
pub proof fn law_fault_changes_only_cr2(s: Core, lin: u32, write: bool, user: bool)
    requires
        s.lin_to_phys(lin, write, user).1 is Err,
    ensures
        s.lin_to_phys(lin, write, user).0 == (Core { cr2: lin, ..s }),
        s.lin_to_phys(lin, write, user).1->Err_0.vector == 14,
{
    reveal(Core::walk);
    reveal(Core::lin_to_phys);
}

/// An access touches memory only where the page tables are, and leaves
/// registers and flags alone.
pub proof fn law_access_keeps_registers(s: Core, lin: u32, write: bool, user: bool)
    requires
        s.wf(),
    ensures
        ({
            let t = s.lin_to_phys(lin, write, user).0;
            t == Core { cr2: t.cr2, ram: t.ram, tlb: t.tlb, ..s }
        }),
        !s.paging() ==> s.lin_to_phys(lin, write, user).0 == s,
        s.lin_to_phys(lin, write, user).0.ram.len() == s.ram.len(),
        s.lin_to_phys(lin, write, user).0.wf(),
{
    reveal(Core::walk);
    reveal(Core::lin_to_phys);
    law_store_32_keeps_size(s.ram, s.pde_addr(lin) as int, s.pde(lin) | PTE_A);
    law_store_32_keeps_size(s.ram, s.pte_addr(lin) as int, s.pte_after(lin, write));
    law_store_32_keeps_size(
        store_32(s.ram, s.pde_addr(lin) as int, s.pde(lin) | PTE_A),
        s.pte_addr(lin) as int,
        s.pte_after(lin, write),
    );
}

proof fn lemma_dirty(pte: u32)
    by (bit_vector)
    ensures
        (pte | 0x20 | 0x40) & 0x40 != 0,
        (pte | 0x20 | 0x40) & 0x20 != 0,
        (pte | 0x20 | 0) & 0x20 != 0,
        pte | 0x20 | 0 == pte | 0x20,
        (pte | 0x20) | 0x20 == pte | 0x20,
        (pte | 0x20) & 1 == pte & 1,
        (pte | 0x20) & 0xFFFF_F000 == pte & 0xFFFF_F000,
        pte & 0x20 != 0 ==> pte | 0x20 == pte,
{
}

/// The same access again is served by the TLB: it gives the same address and
/// changes nothing.
pub proof fn law_second_access_hits(s: Core, lin: u32, write: bool, user: bool)
    requires
        s.wf(),
        s.lin_to_phys(lin, write, user).1 is Ok,
    ensures
        ({
            let (t, phys) = s.lin_to_phys(lin, write, user);
            t.lin_to_phys(lin, write, user) == (t, phys)
        }),
{
    reveal(Core::walk);
    reveal(Core::lin_to_phys);
    lemma_dirty(s.pte(lin));
}

/// Once an access was checked for writing, reading there goes to the same
/// address and changes nothing.
pub proof fn law_read_after_write_check(s: Core, lin: u32, user: bool)
    requires
        s.wf(),
        s.lin_to_phys(lin, true, user).1 is Ok,
        s.tlb_hit(lin, true, user) ==> s.tlb_hit(lin, false, user),
    ensures
        ({
            let (t, phys) = s.lin_to_phys(lin, true, user);
            t.lin_to_phys(lin, false, user) == (t, phys)
        }),
{
    reveal(Core::walk);
    reveal(Core::lin_to_phys);
}

/// After a flush no translation is kept, and every access walks the page
/// tables.
pub proof fn law_flush_forgets(s: Core, lin: u32, write: bool, user: bool)
    requires
        s.paging(),
        s.tlb == Seq::new(2048, |i: int| no_entry()),
    ensures
        !s.tlb_hit(lin, write, user),
        s.lin_to_phys(lin, write, user) == s.walk(lin, write, user),
{
    reveal(Core::lin_to_phys);
}

/// Flushing a page makes the next access to it walk the page tables, and
/// keeps the translations of the pages that share no slot with it.
pub proof fn law_flush_page_forgets(s: Core, lin: u32, other: u32, write: bool, user: bool)
    requires
        s.wf(),
        s.paging(),
        s.tlb_hit(lin, true, user) ==> s.tlb_hit(lin, false, user),
        page_of(other) as int % 1024 != page_of(lin) as int % 1024,
    ensures
        ({
            let t = Core { tlb: page_flushed(s.tlb, lin), ..s };
            &&& t.lin_to_phys(lin, write, user) == t.walk(lin, write, user)
            &&& t.tlb_hit(other, write, user) == s.tlb_hit(other, write, user)
        }),
{
    reveal(Core::lin_to_phys);
}

/// Level 3 never reaches a page that is not a user page through the page
/// tables, and the fault says so.
pub proof fn law_user_kept_out(s: Core, lin: u32, write: bool)
    requires
        s.mapped(lin),
        !s.user_page(lin),
    ensures
        s.walk(lin, write, true).1 == Err::<u32, Fault>(
            Fault { vector: 14, error: Some(access_error(write, true) | PF_PROTECTION) },
        ),
{
    reveal(Core::walk);
}

proof fn lemma_entry_places(base: u32, lin: u32)
    by (bit_vector)
    ensures
        ((base & 0xFFFF_F000) | ((lin >> 20) & 0xFFC)) == (base / 0x1000) * 0x1000 + 4 * (lin
            / 0x40_0000),
        ((base & 0xFFFF_F000) | ((lin >> 10) & 0xFFC)) == (base / 0x1000) * 0x1000 + 4 * ((lin
            / 0x1000) % 0x400),
        ((base & 0xFFFF_F000) | (lin & 0xFFF)) == (base / 0x1000) * 0x1000 + lin % 0x1000,
        base & 0xFFFF_FFFF == base,
        lin & 0xFFFF_FFFF == lin,
        (((base & 0xFFFF_F000) | (lin & 0xFFC)) & 0xFFFF_FFFF) % 4 == 0,
        (((base & 0xFFFF_F000) | (lin & 0xFFC)) & 0xFFEF_FFFF) % 4 == 0,
{
}

/// The page directory that CR3 names has an entry of four bytes for each 4 MB,
/// the page table that this names one for each of their pages, and the page
/// that the table names the address; all with the A20 line open.
pub proof fn law_walk_goes_by_tens_of_bits(s: Core, lin: u32)
    requires
        s.a20,
    ensures
        s.pde_addr(lin) == (s.cr3 / 0x1000) * 0x1000 + 4 * (lin / 0x40_0000),
        s.pte_addr(lin) == (s.pde(lin) / 0x1000) * 0x1000 + 4 * ((lin / 0x1000) % 0x400),
        s.mapped_to(lin) == (s.pte(lin) / 0x1000) * 0x1000 + lin % 0x1000,
{
    let d = (s.cr3 & 0xFFFF_F000) | ((lin >> 20) & 0xFFC);
    let t = (s.pde(lin) & 0xFFFF_F000) | ((lin >> 10) & 0xFFC);
    let m = (s.pte(lin) & 0xFFFF_F000) | (lin & 0xFFF);
    lemma_entry_places(s.cr3, d);
    lemma_entry_places(s.cr3, lin);
    lemma_entry_places(s.pde(lin), t);
    lemma_entry_places(s.pde(lin), lin);
    lemma_entry_places(s.pte(lin), m);
    lemma_entry_places(s.pte(lin), lin);
}

proof fn lemma_aligned(base: u32, index: u32)
    ensures
        (((base & 0xFFFF_F000) | (index & 0xFFC)) & 0xFFFF_FFFF) % 4 == 0,
        (((base & 0xFFFF_F000) | (index & 0xFFC)) & 0xFFEF_FFFF) % 4 == 0,
{
    lemma_entry_places(base, index);
}

proof fn lemma_entries_aligned(base: u32, index: u32, open: bool)
    ensures
        (((base & 0xFFFF_F000) | (index & 0xFFC)) & a20_lines(open)) % 4 == 0,
{
    lemma_aligned(base, index);
}

proof fn lemma_stored_elsewhere(ram: Seq<u8>, addr: int, value: u32, other: int)
    requires
        addr + 4 <= other || other + 4 <= addr,
    ensures
        dword_at(store_32(ram, addr, value), other) == dword_at(ram, other),
{
    reveal(dword_at);
    reveal(store_32);
}

/// An access through the page tables leaves its page marked as accessed, and
/// as dirty if it wrote.
pub proof fn law_access_marks_page(s: Core, lin: u32, write: bool, user: bool)
    requires
        s.walk(lin, write, user).1 is Ok,
        s.pte_addr(lin) + 3 < s.ram.len(),
    ensures
        dword_at(s.walk(lin, write, user).0.ram, s.pte_addr(lin) as int) == s.pte_after(lin, write),
        s.pte_after(lin, write) & PTE_A != 0,
        write ==> s.pte_after(lin, write) & PTE_D != 0,
{
    reveal(Core::walk);
    let pte = s.pte(lin);
    lemma_dirty(pte);
    lemma_entries_aligned(s.cr3, lin >> 20, s.a20);
    lemma_entries_aligned(s.pde(lin), lin >> 10, s.a20);
    let first = if s.pde(lin) & PTE_A == 0 {
        store_32(s.ram, s.pde_addr(lin) as int, s.pde(lin) | PTE_A)
    } else {
        s.ram
    };
    law_store_32_keeps_size(s.ram, s.pde_addr(lin) as int, s.pde(lin) | PTE_A);
    if s.pte_after(lin, write) != pte {
        law_dword_reads_back(first, s.pte_addr(lin) as int, s.pte_after(lin, write));
    } else if s.pde_addr(lin) != s.pte_addr(lin) {
        lemma_stored_elsewhere(
            s.ram,
            s.pde_addr(lin) as int,
            s.pde(lin) | PTE_A,
            s.pte_addr(lin) as int,
        );
    }
}

proof fn lemma_marked_bytes(b0: u8, b1: u8, b2: u8, b3: u8, entry: u32)
    by (bit_vector)
    requires
        entry == ((((((b3 as u16) << 8) | (b2 as u16)) as u32) << 16) | ((((b1 as u16) << 8) | (
        b0 as u16)) as u32)),
    ensures
        ((((entry | 0x20) & 0xFFFF) as u16) & 0xFF) as u8 == b0 | 0x20,
        ((((entry | 0x20) & 0xFFFF) as u16) >> 8) as u8 == b1,
        ((((entry | 0x20) >> 16) as u16) & 0xFF) as u8 == b2,
        ((((entry | 0x20) >> 16) as u16) >> 8) as u8 == b3,
        entry | 0x20 == ((((((b3 as u16) << 8) | (b2 as u16)) as u32) << 16) | ((((b1 as u16) << 8)
            | ((b0 | 0x20) as u16)) as u32)),
        b0 == 0xFF ==> b0 | 0x20 == 0xFF,
{
}

/// An entry marked as accessed reads back so, even where it lies beyond
/// memory: there it reads as marked already.
proof fn lemma_mark_reads_back(ram: Seq<u8>, addr: int)
    requires
        0 <= addr,
    ensures
        dword_at(store_32(ram, addr, dword_at(ram, addr) | PTE_A), addr) == dword_at(ram, addr)
            | PTE_A,
{
    reveal(dword_at);
    reveal(store_32);
    let b0 = byte_at(ram, addr);
    let b1 = byte_at(ram, addr + 1);
    let b2 = byte_at(ram, addr + 2);
    let b3 = byte_at(ram, addr + 3);
    lemma_marked_bytes(b0, b1, b2, b3, dword_at(ram, addr));
    let after = store_32(ram, addr, dword_at(ram, addr) | PTE_A);
    assert(byte_at(after, addr) == b0 | 0x20);
    assert(byte_at(after, addr + 1) == b1);
    assert(byte_at(after, addr + 2) == b2);
    assert(byte_at(after, addr + 3) == b3);
}

/// The entries of a page after a read marked them.
proof fn lemma_marked_entries(s: Core, t: Core, lin: u32)
    requires
        t == (Core { ram: s.entries_marked(lin, false), tlb: t.tlb, ..s }),
    ensures
        t.pde(lin) == s.pde(lin) | PTE_A,
        t.pte_addr(lin) == s.pte_addr(lin),
        t.pte(lin) == s.pte(lin) | PTE_A,
{
    let pde = s.pde(lin);
    let pte = s.pte(lin);
    let pde_addr = s.pde_addr(lin) as int;
    let pte_addr = s.pte_addr(lin) as int;
    lemma_dirty(pde);
    lemma_dirty(pte);
    lemma_entries_aligned(s.cr3, lin >> 20, s.a20);
    lemma_entries_aligned(pde, lin >> 10, s.a20);
    let first = if pde & PTE_A == 0 {
        store_32(s.ram, pde_addr, pde | PTE_A)
    } else {
        s.ram
    };
    lemma_mark_reads_back(s.ram, pde_addr);
    assert(dword_at(first, pde_addr) == pde | PTE_A);
    let second = t.ram;
    if pde_addr == pte_addr {
        lemma_mark_reads_back(first, pde_addr);
        assert(dword_at(second, pde_addr) == pde | PTE_A);
    } else {
        lemma_stored_elsewhere(s.ram, pde_addr, pde | PTE_A, pte_addr);
        assert(dword_at(first, pte_addr) == pte);
        lemma_mark_reads_back(first, pte_addr);
        lemma_stored_elsewhere(first, pte_addr, pte | PTE_A, pde_addr);
    }
    assert(dword_at(second, pde_addr) == pde | PTE_A);
    assert(dword_at(second, pte_addr) == pte | PTE_A);
    assert(t.pde_addr(lin) == s.pde_addr(lin));
}

/// With paging off, or with no translation kept, as after a flush, what a
/// debugger sees is what a supervisor's read then finds: the same address,
/// or a fault exactly where the debugger sees none. The read does not change
/// what a debugger sees.
pub proof fn law_peek_foretells_read(s: Core, lin: u32)
    requires
        s.wf(),
        s.paging() ==> !s.tlb_hit(lin, false, false),
    ensures
        ({
            let (t, phys) = s.lin_to_phys(lin, false, false);
            &&& s.peek(lin) == (match phys {
                Ok(a) => Some(a),
                Err(_) => None,
            })
            &&& t.peek(lin) == s.peek(lin)
        }),
{
    reveal(Core::lin_to_phys);
    reveal(Core::walk);
    let t = s.lin_to_phys(lin, false, false).0;
    if s.paging() {
        if s.mapped(lin) {
            lemma_dirty(s.pde(lin));
            lemma_dirty(s.pte(lin));
            lemma_marked_entries(s, t, lin);
        } else {
            assert(t.pde_addr(lin) == s.pde_addr(lin));
            assert(t.pte_addr(lin) == s.pte_addr(lin));
        }
    }
}

} // verus!
