//! Getting programs into memory: the shell, COM and EXE files, and overlays.
//!
//! Where memory control blocks lie is told by the caller, who also puts the
//! BIOS's interrupt vectors back and sets up the blocks that are asked for.

use vstd::prelude::*;

use super::process::{
    lemma_physical_bound, tail_written, ENV_SEGMENT, SHELL_SEGMENT, SHELL_STACK,
};
use super::regs::{with_word, Seg};
use super::state::{Core, Cpu, CpuFlags, CpuState, DosState, Rest};
use crate::bus::{cleared, store_16, store_8, store_bytes, word_at};
use crate::disk::drives::DiskController;
use crate::disk::names::HANDLE_LIMIT;
use crate::i86::load::{
    header_size, header_word, header_word_at, is_exe, relocation_count, starts_with_mz,
};
use crate::text::{upper, uppercase};

verus! {

/// Where a program goes.
#[derive(Clone, Copy, Debug, PartialEq, Eq, Structural)]
pub enum Placement {
    /// Started from the shell: above the resident programs, with all of
    /// conventional memory.
    Shell,
    /// Started by EXEC, into the block allocated for it at this PSP segment.
    Child(u16),
    /// Started from the shell with LOADHIGH, into the upper memory block
    /// allocated for it at this PSP segment.
    High(u16),
}

/// What a loader has to know of memory.
#[derive(Clone, Copy, Debug, PartialEq, Eq, Structural)]
pub struct MemoryMap {
    /// The segment of the first memory control block.
    pub first_mcb: u16,
    /// The end of the memory for programs from the shell.
    pub low_end: u16,
    /// The end of conventional memory.
    pub conventional_end: u16,
    /// The size of the block that was allocated for the program, if its
    /// control block is valid.
    pub block: Option<u16>,
}

/// How loading a program went.
#[derive(Clone, Copy, Debug, PartialEq, Eq, Structural)]
pub enum Loaded {
    Refused,
    /// It is in memory; a block of so many paragraphs has to be set up for
    /// it, unless it has its block already.
    Placed(Option<u16>),
}

/// How many bytes of the file an EXE file's header counts: pages of 512
/// bytes, the last one partly used.
pub open spec fn module_length(bytes: Seq<u8>) -> int {
    let pages = header_word(bytes, 4);
    let last = header_word(bytes, 2);
    if pages == 0 {
        bytes.len() as int
    } else if last == 0 {
        pages * 512
    } else {
        (pages - 1) * 512 + last
    }
}

/// Paragraphs that hold so many bytes.
pub open spec fn paragraphs(bytes: int) -> int {
    (bytes + 15) / 16
}

/// The paragraphs a program needs to start: its PSP, its code, and for a
/// COM file a stack, for an EXE file the memory its header asks for.
pub open spec fn needed_paragraphs(bytes: Seq<u8>) -> int {
    if is_exe(bytes) {
        let module = module_length(bytes) - header_size(bytes);
        let n = 0x10 + paragraphs(
            if module < 0 {
                0
            } else {
                module
            },
        ) + header_word(bytes, 10);
        if n > 0xFFFF {
            0xFFFF
        } else {
            n
        }
    } else {
        let n = 0x10 + paragraphs(bytes.len() as int) + 0x20;
        if n > 0x1000 {
            0x1000
        } else {
            n
        }
    }
}

/// Where the image of an EXE file ends in the file.
pub open spec fn image_end(bytes: Seq<u8>) -> int {
    let n = module_length(bytes);
    if n < header_size(bytes) {
        header_size(bytes)
    } else if n > bytes.len() {
        bytes.len() as int
    } else {
        n
    }
}

pub open spec fn image_of(bytes: Seq<u8>) -> Seq<u8> {
    bytes.subrange(header_size(bytes), image_end(bytes))
}

/// The paragraphs of an EXE file's image, as a word counts them.
pub open spec fn image_paragraphs(bytes: Seq<u8>) -> int {
    paragraphs(image_end(bytes) - header_size(bytes)) % 0x1_0000
}

/// The least that an EXE program needs.
pub open spec fn least_paragraphs(bytes: Seq<u8>) -> int {
    0x10 + image_paragraphs(bytes) + header_word(bytes, 10)
}

/// What an EXE program from the shell gets: what its header would like, as
/// far as there is memory, and never less than it needs.
pub open spec fn granted_paragraphs(bytes: Seq<u8>, available: int) -> int {
    let least = least_paragraphs(bytes);
    let max = header_word(bytes, 12) as int;
    let extra = if max > header_word(bytes, 10) {
        max - header_word(bytes, 10)
    } else {
        0
    };
    let wanted = if max == 0 {
        least
    } else if least + extra > 0xFFFF {
        0xFFFF
    } else {
        least + extra
    };
    let given = if wanted >= available {
        if available > 0 {
            available - 1
        } else {
            0
        }
    } else {
        wanted
    };
    if given < least {
        least
    } else {
        given
    }
}

/// Memory after the first `n` entries of a relocation table: the word that
/// each points to, counted from segment `base`, grows by `factor`.
pub open spec fn relocated_by(
    s: Core,
    ram: Seq<u8>,
    bytes: Seq<u8>,
    base: u16,
    factor: u16,
    n: nat,
) -> Seq<u8>
    decreases n,
{
    if n == 0 {
        ram
    } else {
        let before = relocated_by(s, ram, bytes, base, factor, (n - 1) as nat);
        let entry = header_word(bytes, 24) + (n - 1) * 4;
        let at = s.physical(
            base.wrapping_add(header_word(bytes, entry + 2)),
            header_word(bytes, entry),
        );
        if at + 2 <= before.len() {
            store_16(before, at as int, word_at(before, at as int).wrapping_add(factor))
        } else {
            before
        }
    }
}

/// Whether a file is loaded as an EXE overlay.
pub open spec fn exe_overlay(bytes: Seq<u8>) -> bool {
    bytes.len() >= 0x1C && bytes[0] == 0x4D && bytes[1] == 0x5A
}

impl Core {
    /// The segment that a placement puts the program's prefix in.
    pub open spec fn load_segment(self, placement: Placement) -> u16 {
        match placement {
            Placement::Shell => (self.rest.dos.resident_end + 1) as u16,
            Placement::Child(segment) => segment,
            Placement::High(segment) => segment,
        }
    }

    /// The top of a program's memory: the end of conventional memory, or of
    /// its upper memory block.
    pub open spec fn memory_top(self, placement: Placement, map: MemoryMap) -> u16 {
        let top: u16 = match placement {
            Placement::High(psp) => (psp + map.block->0) as u16,
            Placement::Shell => map.low_end,
            Placement::Child(_) => map.conventional_end,
        };
        if top < self.load_segment(placement) {
            self.load_segment(placement)
        } else {
            top
        }
    }

    /// The bytes of a COM program's segment.
    pub open spec fn com_bytes(self, placement: Placement, map: MemoryMap) -> int {
        let size = (self.memory_top(placement, map) - self.load_segment(placement)) * 16;
        if placement is High && size < 0x1_0000 {
            size
        } else {
            0x1_0000
        }
    }

    /// What the machine computes of a placement stays within a word, and a
    /// program that goes high has its block.
    pub open spec fn placeable(self, placement: Placement, map: MemoryMap) -> bool {
        &&& placement is Shell ==> self.rest.dos.resident_end < 0xFFFF
        &&& placement matches Placement::High(psp) ==> map.block is Some && psp + map.block->0
            <= 0xFFFF
    }

    pub open spec fn com_fits(self, placement: Placement, map: MemoryMap) -> bool {
        &&& self.placeable(placement, map)
        &&& self.load_segment(placement) <= 0xEFFF
        &&& self.com_bytes(placement, map) >= 2
    }

    /// The memory of a COM program: its segment cleared, the file at offset
    /// 100h and the prefix in front of it.
    pub open spec fn com_memory(self, bytes: Seq<u8>, placement: Placement, map: MemoryMap) -> Seq<
        u8,
    > {
        let load = self.load_segment(placement);
        let psp = self.physical(load, 0) as int;
        let clean = cleared(self.ram, psp, psp + self.com_bytes(placement, map));
        let filled = store_bytes(clean, self.physical(load, 0x100) as int, bytes);
        let called = store_8(store_8(filled, psp, 0xCD), psp + 1, 0x20);
        let topped = store_16(called, psp + 2, self.memory_top(placement, map));
        let sized = store_8(store_8(topped, psp + 6, 3), psp + 7, 0);
        tail_written(store_16(sized, psp + 0x2C, 0), psp, Seq::empty())
    }

    /// The machine after a COM file is loaded.
    #[verifier::opaque]
    pub open spec fn com_loaded(self, bytes: Seq<u8>, placement: Placement, map: MemoryMap) -> Core {
        let load = self.load_segment(placement);
        let s = Core {
            ram: self.com_memory(bytes, placement, map),
            ..self.seg_real(Seg::CS, load).seg_real(Seg::DS, load).seg_real(
                Seg::ES,
                load,
            ).seg_real(Seg::SS, load)
        };
        Core {
            eip: 0x100,
            rest: Rest {
                dos: DosState {
                    current_psp: load,
                    heap_pointer: (load + 0x1000) as u16,
                    ..self.rest.dos
                },
                ..self.rest
            },
            ..s.with_gpr(4, with_word(s.gpr[4], (self.com_bytes(placement, map) - 2) as u16))
        }
    }

    /// Memory before an EXE file comes: cleared where it starts fresh from
    /// the shell, but for the resident programs.
    pub open spec fn exe_prepared(self, placement: Placement, map: MemoryMap) -> Seq<u8> {
        if placement is Shell {
            cleared(
                cleared(self.ram, 0x500, map.first_mcb * 16),
                self.rest.dos.resident_end * 16,
                map.low_end * 16,
            )
        } else {
            self.ram
        }
    }

    /// Memory with an EXE file's image and prefix.
    pub open spec fn exe_memory(self, bytes: Seq<u8>, placement: Placement, map: MemoryMap) -> Seq<
        u8,
    > {
        let load = self.load_segment(placement);
        let base = (load + 0x10) as u16;
        let psp = self.physical(load, 0) as int;
        let placed = store_bytes(
            self.exe_prepared(placement, map),
            self.physical(base, 0) as int,
            image_of(bytes),
        );
        let fixed = relocated_by(self, placed, bytes, base, base, relocation_count(bytes));
        let called = store_8(store_8(fixed, psp, 0xCD), psp + 1, 0x20);
        let topped = store_16(called, psp + 2, self.memory_top(placement, map));
        store_16(tail_written(topped, psp, Seq::empty()), psp + 0x2C, 0)
    }

    /// The machine with an EXE program in it, before its memory is counted.
    #[verifier::opaque]
    pub open spec fn exe_placed(self, bytes: Seq<u8>, placement: Placement, map: MemoryMap) -> Core {
        let load = self.load_segment(placement);
        let base = (load + 0x10) as u16;
        let s = Core {
            ram: self.exe_memory(bytes, placement, map),
            eip: header_word(bytes, 20) as u32,
            rest: Rest { dos: DosState { current_psp: load, ..self.rest.dos }, ..self.rest },
            ..self.seg_real(Seg::DS, load).seg_real(Seg::ES, load).seg_real(
                Seg::CS,
                base.wrapping_add(header_word(bytes, 22)),
            ).seg_real(Seg::SS, base.wrapping_add(header_word(bytes, 14)))
        };
        s.with_gpr(4, with_word(s.gpr[4], header_word(bytes, 16)))
    }

    /// The paragraphs of an EXE program: what it is granted from the shell,
    /// its block otherwise; none where its block is not there or too small.
    pub open spec fn exe_paragraphs(
        self,
        bytes: Seq<u8>,
        placement: Placement,
        map: MemoryMap,
    ) -> Option<int> {
        if placement is Shell {
            let available = map.low_end - self.load_segment(placement);
            Some(
                granted_paragraphs(
                    bytes,
                    if available < 0 {
                        0
                    } else {
                        available
                    },
                ),
            )
        } else {
            match map.block {
                Some(size) => if size < least_paragraphs(bytes) {
                    None
                } else {
                    Some(size as int)
                },
                None => None,
            }
        }
    }

    /// What the machine computes of an EXE file's segments stays within a
    /// word.
    pub open spec fn exe_fits(self, bytes: Seq<u8>, placement: Placement, map: MemoryMap) -> bool {
        &&& self.placeable(placement, map)
        &&& self.load_segment(placement) <= 0xFFEF
        &&& is_exe(bytes) && header_size(bytes) <= bytes.len() ==> {
            &&& least_paragraphs(bytes) <= 0xFFFF
            &&& self.exe_paragraphs(bytes, placement, map) matches Some(n) ==> self.load_segment(
                placement,
            ) + n + 1 <= 0xFFFF
        }
    }

    /// The machine after an EXE file is loaded, or refused.
    pub open spec fn exe_loaded(self, bytes: Seq<u8>, placement: Placement, map: MemoryMap) -> (
        Core,
        Loaded,
    ) {
        if !is_exe(bytes) {
            (self, Loaded::Refused)
        } else if header_size(bytes) > bytes.len() {
            (Core { ram: self.exe_prepared(placement, map), ..self }, Loaded::Refused)
        } else {
            let s = self.exe_placed(bytes, placement, map);
            match self.exe_paragraphs(bytes, placement, map) {
                None => (s, Loaded::Refused),
                Some(n) => (
                    s.with_dos(
                        DosState {
                            heap_pointer: (self.load_segment(placement) + n + 1) as u16,
                            ..s.rest.dos
                        },
                    ),
                    Loaded::Placed(
                        if placement is Shell {
                            Some(n as u16)
                        } else {
                            None
                        },
                    ),
                ),
            }
        }
    }

    /// A program of either kind.
    pub open spec fn program_loaded(
        self,
        bytes: Seq<u8>,
        placement: Placement,
        map: MemoryMap,
    ) -> (Core, Loaded) {
        if starts_with_mz(bytes) {
            self.exe_loaded(bytes, placement, map)
        } else {
            (
                self.com_loaded(bytes, placement, map),
                Loaded::Placed(
                    if placement is High {
                        None
                    } else {
                        Some(0x1000)
                    },
                ),
            )
        }
    }

    /// The environment block of a program from the shell in its segment, and
    /// the prefix pointing to it.
    pub open spec fn environment_placed(self, block: Seq<u8>) -> Core {
        Core {
            ram: store_16(
                store_bytes(self.ram, self.physical(ENV_SEGMENT, 0) as int, block),
                self.physical(self.rest.dos.current_psp, 0) + 0x2C,
                ENV_SEGMENT,
            ),
            ..self
        }
    }

    /// The machine with the shell running.
    #[verifier::opaque]
    pub open spec fn shell_loaded(
        self,
        code: Seq<u8>,
        first_mcb: u16,
        resident_end: u16,
        upper_intact: bool,
    ) -> Core {
        let s = self.real_mode().seg_real(Seg::CS, SHELL_SEGMENT).seg_real(
            Seg::DS,
            SHELL_SEGMENT,
        ).seg_real(Seg::ES, SHELL_SEGMENT).seg_real(Seg::SS, SHELL_SEGMENT);
        Core {
            ram: store_bytes(cleared(self.ram, 0x500, first_mcb * 16), 0x800, code),
            eip: 0x100,
            gpr: Seq::new(
                8,
                |i: int|
                    with_word(
                        self.gpr[i],
                        if i == 4 {
                            SHELL_STACK
                        } else {
                            0
                        },
                    ),
            ),
            flags: 0x0202,
            a20: false,
            rest: Rest {
                state: CpuState::Running,
                idle: false,
                dyn_latched: false,
                dos: DosState {
                    resident_end,
                    resident_upper: if upper_intact {
                        self.rest.dos.resident_upper
                    } else {
                        Seq::empty()
                    },
                    alloc_strategy: 0,
                    con_pending_scan: None,
                    bios_wait_until: None,
                    ..self.rest.dos
                },
                ..self.rest
            },
            ..s
        }
    }

    /// Whether an overlay is refused: its header is longer than the file.
    pub open spec fn overlay_loaded(self, bytes: Seq<u8>, segment: u16, factor: u16) -> (
        Core,
        bool,
    ) {
        let at = self.physical(segment, 0) as int;
        if !exe_overlay(bytes) {
            (Core { ram: store_bytes(self.ram, at, bytes), ..self }, true)
        } else if header_size(bytes) > bytes.len() {
            (self, false)
        } else {
            let placed = store_bytes(
                self.ram,
                at,
                bytes.subrange(header_size(bytes), bytes.len() as int),
            );
            (
                Core {
                    ram: relocated_by(
                        self,
                        placed,
                        bytes,
                        segment,
                        factor,
                        relocation_count(bytes),
                    ),
                    ..self
                },
                true,
            )
        }
    }
}

fn module_len(bytes: &[u8]) -> (n: usize)
    requires
        bytes@.len() >= 0x20,
    ensures
        n == module_length(bytes@),
{
    let pages: usize = header_word_at(bytes, 4) as usize;
    let last_page: usize = header_word_at(bytes, 2) as usize;
    if pages == 0 {
        bytes.len()
    } else if last_page == 0 {
        pages * 512
    } else {
        (pages - 1) * 512 + last_page
    }
}

fn paras_of(bytes: usize) -> (n: usize)
    ensures
        n == paragraphs(bytes as int),
{
    if bytes % 16 == 0 {
        bytes / 16
    } else {
        bytes / 16 + 1
    }
}

fn has_exe_mark(bytes: &[u8]) -> (yes: bool)
    ensures
        yes == is_exe(bytes@),
{
    bytes.len() >= 0x20 && bytes[0] == 0x4D && bytes[1] == 0x5A
}

/// The paragraphs a program needs to start: its PSP, its code, and for a
/// COM file a stack, for an EXE file the memory its header asks for.
pub fn program_paras(bytes: &[u8]) -> (n: u16)
    ensures
        n == needed_paragraphs(bytes@),
{
    if has_exe_mark(bytes) {
        let header: usize = header_word_at(bytes, 8) as usize * 16;
        let min_alloc: usize = header_word_at(bytes, 10) as usize;
        let module: usize = module_len(bytes);
        let rest: usize = if module > header {
            module - header
        } else {
            0
        };
        let paras: usize = paras_of(rest);
        if paras > 0xFFFF || 0x10 + paras + min_alloc > 0xFFFF {
            0xFFFF
        } else {
            (0x10 + paras + min_alloc) as u16
        }
    } else {
        let paras: usize = paras_of(bytes.len());
        if paras > 0x1000 || 0x10 + paras + 0x20 > 0x1000 {
            0x1000
        } else {
            (0x10 + paras + 0x20) as u16
        }
    }
}

/// LOADHIGH: the largest free upper memory block, if the program fits there,
/// else where programs from the shell go. `largest` is the block's control
/// block and its size.
pub open spec fn placed_high(bytes: Seq<u8>, largest: Option<(u16, u16)>) -> Placement {
    match largest {
        Some((segment, size)) => if size >= needed_paragraphs(bytes) {
            Placement::High((segment + 1) as u16)
        } else {
            Placement::Shell
        },
        None => Placement::Shell,
    }
}

fn high_placement(bytes: &[u8], largest: Option<(u16, u16)>) -> (placement: Placement)
    requires
        largest matches Some((segment, _)) ==> segment < 0xFFFF,
    ensures
        placement == placed_high(bytes@, largest),
{
    match largest {
        Some((segment, size)) => {
            if size >= program_paras(bytes) {
                Placement::High(segment + 1)
            } else {
                Placement::Shell
            }
        },
        None => Placement::Shell,
    }
}

impl Cpu {
    fn segment_for(&self, placement: Placement) -> (segment: u16)
        requires
            placement is Shell ==> self@.rest.dos.resident_end < 0xFFFF,
        ensures
            segment == self@.load_segment(placement),
    {
        match placement {
            Placement::Shell => self.transient_segment(),
            Placement::Child(segment) => segment,
            Placement::High(segment) => segment,
        }
    }

    /// The top of a program's memory, for its PSP: the end of conventional
    /// memory, or of its upper memory block.
    fn memory_top(&self, placement: Placement, map: &MemoryMap) -> (top: u16)
        requires
            self@.placeable(placement, *map),
        ensures
            top == self@.memory_top(placement, *map),
            top >= self@.load_segment(placement),
    {
        let segment: u16 = self.segment_for(placement);
        let top: u16 = match placement {
            Placement::High(psp) => match map.block {
                Some(size) => psp + size,
                None => segment,
            },
            Placement::Shell => map.low_end,
            Placement::Child(_) => map.conventional_end,
        };
        if top < segment {
            segment
        } else {
            top
        }
    }

    /// Put the words that a relocation table points to right.
    fn relocate(&mut self, bytes: &[u8], base: u16, factor: u16)
        requires
            bytes@.len() >= 0x1C,
        ensures
            final(self)@ == (Core {
                ram: relocated_by(
                    old(self)@,
                    old(self)@.ram,
                    bytes@,
                    base,
                    factor,
                    relocation_count(bytes@),
                ),
                ..old(self)@
            }),
    {
        let count: usize = header_word_at(bytes, 6) as usize;
        let table: usize = header_word_at(bytes, 24) as usize;
        assert(bytes@.len() == bytes.len());
        if table + count * 4 > bytes.len() {
            return;
        }
        let mut i: usize = 0;
        while i < count
            invariant
                i <= count <= 0xFFFF,
                bytes@.len() == bytes.len(),
                bytes@.len() >= 0x1C,
                table == header_word(bytes@, 24),
                count == relocation_count(bytes@),
                table + count * 4 <= bytes@.len(),
                self@ == (Core {
                    ram: relocated_by(
                        old(self)@,
                        old(self)@.ram,
                        bytes@,
                        base,
                        factor,
                        i as nat,
                    ),
                    ..old(self)@
                }),
            decreases count - i,
        {
            let entry: usize = table + i * 4;
            let rel_offset: u16 = header_word_at(bytes, entry);
            let rel_seg: u16 = header_word_at(bytes, entry + 2);
            let target_seg: u16 = base.wrapping_add(rel_seg);
            let phys: usize = self.get_physical_addr(target_seg, rel_offset);
            proof {
                lemma_physical_bound(self@, target_seg, rel_offset);
            }
            if phys + 2 <= self.bus.ram.len() {
                let cur: u16 = self.bus.read_16(phys);
                self.bus.write_16(phys, cur.wrapping_add(factor));
            }
            i = i + 1;
        }
    }

    /// INT 21h AH=4Bh AL=03h: load an overlay.
    ///
    /// Loads an EXE file's image (minus the MZ header) into a caller-specified
    /// memory block and applies relocations using a caller-supplied relocation
    /// factor. Does NOT create a PSP, does NOT change CS:IP or SS:SP, and does
    /// NOT start the overlay running: control returns to the caller, which
    /// will typically `CALL` or `JMP` into the overlay. Accepts .COM files too
    /// (no header, no relocations, just a raw copy into the overlay segment).
    ///
    /// `load_segment` = the segment at which the image bytes begin.
    /// `reloc_factor` = value added to every relocated 16-bit target.
    pub fn load_overlay(&mut self, bytes: &[u8], load_segment: u16, reloc_factor: u16) -> (loaded:
        bool)
        ensures
            final(self)@ == old(self)@.overlay_loaded(bytes@, load_segment, reloc_factor).0,
            loaded == old(self)@.overlay_loaded(bytes@, load_segment, reloc_factor).1,
    {
        let phys: usize = self.get_physical_addr(load_segment, 0);
        // COM-style overlay (no MZ header, no relocations)
        if bytes.len() < 0x1C || bytes[0] != 0x4D || bytes[1] != 0x5A {
            self.bus.load_bytes(phys, bytes);
            return true;
        }
        // EXE overlay
        let header_size: usize = header_word_at(bytes, 8) as usize * 16;
        if header_size > bytes.len() {
            return false;
        }
        // Image bytes go directly to load_segment:0000: no PSP, no offset.
        self.bus.load_bytes(
            phys,
            vstd::slice::slice_subrange(bytes, header_size, bytes.len()),
        );
        // Each entry is (offset, segment); the 16-bit word at
        // (load_segment + segment):offset gets `reloc_factor` added to it.
        self.relocate(bytes, load_segment, reloc_factor);
        proof {
            lemma_relocation_place(
                old(self)@,
                Core {
                    ram: store_bytes(
                        old(self)@.ram,
                        phys as int,
                        bytes@.subrange(header_size as int, bytes@.len() as int),
                    ),
                    ..old(self)@
                },
                store_bytes(
                    old(self)@.ram,
                    phys as int,
                    bytes@.subrange(header_size as int, bytes@.len() as int),
                ),
                bytes@,
                load_segment,
                reloc_factor,
                relocation_count(bytes@),
            );
        }
        true
    }

    fn com_memory(&mut self, bytes: &[u8], segment: u16, top: u16, size: usize, Ghost(start): Ghost<
        Core,
    >, Ghost(placement): Ghost<Placement>, Ghost(map): Ghost<MemoryMap>)
        requires
            old(self)@ == start,
            segment == start.load_segment(placement),
            top == start.memory_top(placement, map),
            size == start.com_bytes(placement, map),
            size <= 0x1_0000,
        ensures
            final(self)@ == (Core { ram: start.com_memory(bytes@, placement, map), ..start }),
    {
        proof {
            lemma_physical_bound(start, segment, 0);
        }
        let psp: usize = self.get_physical_addr(segment, 0);
        // A clean segment.
        self.bus.clear(psp, psp + size);
        // The file data at offset 0x100.
        let code: usize = self.get_physical_addr(segment, 0x100);
        self.bus.load_bytes(code, bytes);
        // Offset 0x00: INT 20h (exit program)
        self.bus.write_8(psp, 0xCD);
        self.bus.write_8(psp + 1, 0x20);
        // Offset 0x02: top of memory (segment)
        self.bus.write_16(psp + 2, top);
        // Offset 0x06: bytes in segment (CP/M compatibility)
        self.bus.write_8(psp + 6, 0x03);
        self.bus.write_8(psp + 7, 0x00);
        // Offset 0x2C: environment segment, set by whoever started the
        // program.
        self.bus.write_16(psp + 0x2C, 0);
        // Offset 0x80: empty command tail, filled in by the caller.
        let none: [u8; 0] = [];
        assert(none@ =~= Seq::<u8>::empty());
        self.set_command_tail(segment, none.as_slice());
    }

    /// COM loader.
    fn load_com(&mut self, bytes: &[u8], placement: Placement, map: &MemoryMap) -> (loaded: Loaded)
        requires
            old(self)@.com_fits(placement, *map),
        ensures
            final(self)@ == old(self)@.com_loaded(bytes@, placement, *map),
            loaded == Loaded::Placed(
                if placement is High {
                    None
                } else {
                    Some(0x1000)
                },
            ),
    {
        reveal(Core::com_loaded);
        let segment: u16 = self.segment_for(placement);
        // A program loaded high has its block, up to 64 KB.
        let top: u16 = self.memory_top(placement, map);
        let high = match placement {
            Placement::High(_) => true,
            _ => false,
        };
        let room: usize = (top - segment) as usize * 16;
        let size: usize = if high && room < 0x1_0000 {
            room
        } else {
            0x1_0000
        };
        self.com_memory(
            bytes,
            segment,
            top,
            size,
            Ghost(self@),
            Ghost(placement),
            Ghost(*map),
        );
        self.set_cs(segment);
        self.set_ds(segment);
        self.set_es(segment);
        // The stack is in the same segment, from its end down.
        self.set_ss(segment);
        self.set_ip(0x100);
        self.set_sp((size - 2) as u16);
        self.dos.current_psp = segment;
        // COM files are allocated the full 64KB segment by DOS convention.
        self.dos.heap_pointer = segment + 0x1000;
        // Loaded high, it has its upper memory block already.
        if high {
            Loaded::Placed(None)
        } else {
            Loaded::Placed(Some(0x1000))
        }
    }

    fn prepare_exe(&mut self, placement: Placement, map: &MemoryMap)
        ensures
            final(self)@ == (Core { ram: old(self)@.exe_prepared(placement, *map), ..old(self)@ }),
    {
        // Conventional memory is cleared only when starting fresh from the
        // shell. Resident TSRs survive.
        match placement {
            Placement::Shell => {
                self.bus.clear(0x500, map.first_mcb as usize * 16);
                self.bus.clear(
                    self.dos.resident_end as usize * 16,
                    map.low_end as usize * 16,
                );
            },
            _ => {},
        }
    }

    fn exe_memory(&mut self, bytes: &[u8], placement: Placement, map: &MemoryMap)
        requires
            is_exe(bytes@),
            header_size(bytes@) <= bytes@.len(),
            old(self)@.placeable(placement, *map),
            old(self)@.load_segment(placement) <= 0xFFEF,
        ensures
            final(self)@ == (Core {
                ram: old(self)@.exe_memory(bytes@, placement, *map),
                ..old(self)@
            }),
    {
        let segment: u16 = self.segment_for(placement);
        let base: u16 = segment + 0x10;
        let top: u16 = self.memory_top(placement, map);
        let ghost start = self@;
        self.prepare_exe(placement, map);
        // The load module is the part of the file the MZ header counts.
        // Bound programs such as DOS extenders keep more data (their
        // protected-mode image) after it, which they read from the file
        // themselves.
        let header_size: usize = header_word_at(bytes, 8) as usize * 16;
        let end: usize = exe_image_end(bytes, header_size);
        let image_start: usize = self.get_physical_addr(base, 0);
        self.bus.load_bytes(
            image_start,
            vstd::slice::slice_subrange(bytes, header_size, end),
        );
        let ghost placed = self@.ram;
        self.relocate(bytes, base, base);
        proof {
            lemma_relocation_place(
                start,
                Core { ram: placed, ..start },
                placed,
                bytes@,
                base,
                base,
                relocation_count(bytes@),
            );
            lemma_physical_bound(start, segment, 0);
        }
        let psp: usize = self.get_physical_addr(segment, 0);
        // Offset 0x00: INT 20h (exit program instruction)
        self.bus.write_8(psp, 0xCD);
        self.bus.write_8(psp + 1, 0x20);
        // Offset 0x02: top of memory (segment)
        self.bus.write_16(psp + 2, top);
        // Offset 0x80: empty command tail, filled in by the caller.
        let none: [u8; 0] = [];
        assert(none@ =~= Seq::<u8>::empty());
        self.set_command_tail(segment, none.as_slice());
        // Offset 0x2C: environment segment, set by whoever started the
        // program.
        self.bus.write_16(psp + 0x2C, 0);
    }

    fn place_exe(&mut self, bytes: &[u8], placement: Placement, map: &MemoryMap)
        requires
            is_exe(bytes@),
            header_size(bytes@) <= bytes@.len(),
            old(self)@.placeable(placement, *map),
            old(self)@.load_segment(placement) <= 0xFFEF,
        ensures
            final(self)@ == old(self)@.exe_placed(bytes@, placement, *map),
    {
        reveal(Core::exe_placed);
        let segment: u16 = self.segment_for(placement);
        let base: u16 = segment + 0x10;
        self.exe_memory(bytes, placement, map);
        // DS and ES point to the PSP; CS and SS are relative to the image.
        self.set_ds(segment);
        self.set_es(segment);
        self.set_cs(base.wrapping_add(header_word_at(bytes, 22)));
        self.set_ss(base.wrapping_add(header_word_at(bytes, 14)));
        self.set_ip(header_word_at(bytes, 20));
        self.set_sp(header_word_at(bytes, 16));
        self.dos.current_psp = segment;
    }

    fn exe_paras(&self, bytes: &[u8], placement: Placement, map: &MemoryMap) -> (paras: Option<u16>)
        requires
            is_exe(bytes@),
            header_size(bytes@) <= bytes@.len(),
            self@.placeable(placement, *map),
            least_paragraphs(bytes@) <= 0xFFFF,
        ensures
            match (paras, self@.exe_paragraphs(bytes@, placement, *map)) {
                (Some(a), Some(b)) => a == b,
                (None, None) => true,
                _ => false,
            },
    {
        let header_size: usize = header_word_at(bytes, 8) as usize * 16;
        let min_alloc: u16 = header_word_at(bytes, 10);
        let max_alloc: u16 = header_word_at(bytes, 12);
        let end: usize = exe_image_end(bytes, header_size);
        let image_paras: u16 = (paras_of(end - header_size) % 0x1_0000) as u16;
        let least: u16 = 0x10 + image_paras + min_alloc;
        match placement {
            Placement::Shell => {
                let available: u16 = map.low_end.saturating_sub(self.segment_for(placement));
                let extra: u16 = if max_alloc > min_alloc {
                    max_alloc - min_alloc
                } else {
                    0
                };
                let desired: u16 = if max_alloc == 0 {
                    least
                } else {
                    least.saturating_add(extra)
                };
                let given: u16 = if desired >= available {
                    available.saturating_sub(1)
                } else {
                    desired
                };
                Some(
                    if given < least {
                        least
                    } else {
                        given
                    },
                )
            },
            _ => {
                // The caller allocated a block for it; trust its size.
                match map.block {
                    Some(size) => if size < least {
                        None
                    } else {
                        Some(size)
                    },
                    None => None,
                }
            },
        }
    }

    /// EXE loader.
    fn load_exe(&mut self, bytes: &[u8], placement: Placement, map: &MemoryMap) -> (loaded: Loaded)
        requires
            old(self)@.exe_fits(bytes@, placement, *map),
        ensures
            final(self)@ == old(self)@.exe_loaded(bytes@, placement, *map).0,
            loaded == old(self)@.exe_loaded(bytes@, placement, *map).1,
    {
        if !has_exe_mark(bytes) {
            return Loaded::Refused;
        }
        let header_size: usize = header_word_at(bytes, 8) as usize * 16;
        // The header must not point past the end of the file.
        if header_size > bytes.len() {
            self.prepare_exe(placement, map);
            return Loaded::Refused;
        }
        let segment: u16 = self.segment_for(placement);
        let paras: Option<u16> = self.exe_paras(bytes, placement, map);
        self.place_exe(bytes, placement, map);
        match paras {
            None => Loaded::Refused,
            Some(n) => {
                self.dos.heap_pointer = segment + n + 1;
                match placement {
                    Placement::Shell => Loaded::Placed(Some(n)),
                    _ => Loaded::Placed(None),
                }
            },
        }
    }

    /// Load a program. One started from the shell gets `environment`, an
    /// environment block, in the shell's environment area. (EXEC gives a
    /// child its own copy of the parent's environment.)
    pub fn load_program_bytes(
        &mut self,
        bytes: &[u8],
        placement: Placement,
        map: &MemoryMap,
        environment: &[u8],
    ) -> (loaded: Loaded)
        requires
            starts_with_mz(bytes@) ==> old(self)@.exe_fits(bytes@, placement, *map),
            !starts_with_mz(bytes@) ==> old(self)@.com_fits(placement, *map),
        ensures
            ({
                let (s, done) = old(self)@.program_loaded(bytes@, placement, *map);
                &&& loaded == done
                &&& final(self)@ == (if done is Placed && !(placement is Child) {
                    s.environment_placed(environment@)
                } else {
                    s
                })
            }),
    {
        // An EXE file starts with "MZ".
        let loaded = if bytes.len() > 2 && bytes[0] == 0x4D && bytes[1] == 0x5A {
            self.load_exe(bytes, placement, map)
        } else {
            self.load_com(bytes, placement, map)
        };
        let child = match placement {
            Placement::Child(_) => true,
            _ => false,
        };
        if loaded != Loaded::Refused && !child {
            self.place_environment(environment);
        }
        loaded
    }

    fn place_environment(&mut self, environment: &[u8])
        ensures
            final(self)@ == old(self)@.environment_placed(environment@),
    {
        let env: usize = self.get_physical_addr(ENV_SEGMENT, 0);
        self.bus.load_bytes(env, environment);
        let psp: usize = self.get_physical_addr(self.dos.current_psp, 0);
        proof {
            lemma_physical_bound(self@, self@.rest.dos.current_psp, 0);
        }
        self.bus.write_16(psp + 0x2C, ENV_SEGMENT);
    }

    /// Load a program: from the shell (`segment` None), above the resident
    /// programs with all of memory, or for EXEC, into the block allocated
    /// for it at PSP segment `segment`.
    pub fn load_executable(
        &mut self,
        bytes: &[u8],
        segment: Option<u16>,
        map: &MemoryMap,
        environment: &[u8],
    ) -> (loaded: Loaded)
        requires
            ({
                let placement = match segment {
                    Some(s) => Placement::Child(s),
                    None => Placement::Shell,
                };
                if starts_with_mz(bytes@) {
                    old(self)@.exe_fits(bytes@, placement, *map)
                } else {
                    old(self)@.com_fits(placement, *map)
                }
            }),
        ensures
            match segment {
                Some(s) => {
                    let (t, done) = old(self)@.program_loaded(bytes@, Placement::Child(s), *map);
                    loaded == done && final(self)@ == t
                },
                None => {
                    let (t, done) = old(self)@.program_loaded(bytes@, Placement::Shell, *map);
                    loaded == done && final(self)@ == (if done is Placed {
                        t.environment_placed(environment@)
                    } else {
                        t
                    })
                },
            },
    {
        let placement = match segment {
            Some(s) => Placement::Child(s),
            None => Placement::Shell,
        };
        self.load_program_bytes(bytes, placement, map, environment)
    }

    /// Fully qualified DOS path of a program file name on the drives `disk`;
    /// where there is none, the name in capitals.
    pub fn program_path(disk: &DiskController, filename: &str) -> (path: String)
        requires
            disk.wf(),
        ensures
            path@ == (match disk.qualified_path(filename@) {
                Some(q) => q,
                None => upper(filename@),
            }),
    {
        match disk.qualify_path(filename) {
            Some(path) => path,
            None => uppercase(filename),
        }
    }

    /// LOADHIGH: load a program from the shell into the largest free upper
    /// memory block, if it fits there, else as `load_executable` does. Where
    /// it went comes back too: a block that it is placed in is the program's.
    pub fn load_executable_high(
        &mut self,
        bytes: &[u8],
        largest: Option<(u16, u16)>,
        map: &MemoryMap,
        environment: &[u8],
    ) -> (loaded: (Placement, Loaded))
        requires
            largest matches Some((segment, _)) ==> segment < 0xFFFF,
            starts_with_mz(bytes@) ==> old(self)@.exe_fits(
                bytes@,
                placed_high(bytes@, largest),
                *map,
            ),
            !starts_with_mz(bytes@) ==> old(self)@.com_fits(placed_high(bytes@, largest), *map),
        ensures
            ({
                let placement = placed_high(bytes@, largest);
                let (s, done) = old(self)@.program_loaded(bytes@, placement, *map);
                &&& loaded == (placement, done)
                &&& final(self)@ == (if done is Placed {
                    s.environment_placed(environment@)
                } else {
                    s
                })
            }),
    {
        let placement = high_placement(bytes, largest);
        let done = self.load_program_bytes(bytes, placement, map, environment);
        (placement, done)
    }

    /// The shell comes back, or for the first time: no program runs any more.
    /// `code` is the shell's code, `first_mcb` the first memory control
    /// block, `resident_end` where memory above the resident programs begins
    /// now, and `upper_intact` whether the programs loaded high are still
    /// there. All open files on the drives `disk` are closed.
    pub fn load_shell(
        &mut self,
        disk: &mut DiskController,
        code: &[u8],
        first_mcb: u16,
        resident_end: u16,
        upper_intact: bool,
    )
        requires
            old(disk).wf(),
        ensures
            final(self)@ == old(self)@.shell_loaded(code@, first_mcb, resident_end, upper_intact),
            final(disk).wf(),
            final(disk).same_but_files(*old(disk)),
            forall|i: int| 0 <= i < HANDLE_LIMIT ==> (#[trigger] final(disk).open_files@[i]) is None,
    {
        reveal(Core::shell_loaded);
        let ghost goal = self@.shell_loaded(code@, first_mcb, resident_end, upper_intact);
        // No program runs: the automatic core is back on the interpreter.
        self.dyn_latched = false;
        self.shell_memory(code, first_mcb);
        self.dos.resident_end = resident_end;
        if !upper_intact {
            self.dos.resident_upper.clear();
        }
        self.dos.alloc_strategy = 0;
        self.dos.con_pending_scan = None;
        self.dos.bios_wait_until = None;
        // The processor starts from its boot values.
        self.reset_to_real_mode();
        self.shell_registers();
        self.flags = CpuFlags { bits: 0x0202 };
        self.state = CpuState::Running;
        self.idle = false;
        // A reset from now on is a cold boot, without the A20 gate.
        self.bus.set_a20(false);
        disk.close_all_files();
        assert(self@.gpr =~= goal.gpr);
        assert(self@.seg =~= goal.seg);
    }

    fn shell_memory(&mut self, code: &[u8], first_mcb: u16)
        ensures
            final(self)@ == (Core {
                ram: store_bytes(cleared(old(self)@.ram, 0x500, first_mcb * 16), 0x800, code@),
                ..old(self)@
            }),
    {
        // 0x0000-0x03FF is the interrupt vector table and 0x0400-0x04FF the
        // BIOS data area. The first memory control block and resident TSRs
        // sit above.
        self.bus.clear(0x500, first_mcb as usize * 16);
        // .COM files, and the shell, expect to run at offset 100h.
        let start: usize = SHELL_SEGMENT as usize * 16 + 0x100;
        self.bus.load_bytes(start, code);
    }

    fn shell_registers(&mut self)
        ensures
            ({
                let s = old(self)@.seg_real(Seg::CS, SHELL_SEGMENT).seg_real(
                    Seg::DS,
                    SHELL_SEGMENT,
                ).seg_real(Seg::ES, SHELL_SEGMENT).seg_real(Seg::SS, SHELL_SEGMENT);
                final(self)@ == Core {
                    eip: 0x100,
                    gpr: Seq::new(
                        8,
                        |i: int|
                            with_word(
                                old(self)@.gpr[i],
                                if i == 4 {
                                    SHELL_STACK
                                } else {
                                    0
                                },
                            ),
                    ),
                    ..s
                }
            }),
    {
        self.set_cs(SHELL_SEGMENT);
        self.set_ds(SHELL_SEGMENT);
        self.set_es(SHELL_SEGMENT);
        self.set_ss(SHELL_SEGMENT);
        self.set_ip(0x100);
        self.set_sp(SHELL_STACK);
        self.set_bp(0);
        self.set_ax(0);
        self.set_bx(0);
        self.set_cx(0);
        self.set_dx(0);
        self.set_si(0);
        self.set_di(0);
        assert(self@.gpr =~= Seq::new(
            8,
            |i: int|
                with_word(
                    old(self)@.gpr[i],
                    if i == 4 {
                        SHELL_STACK
                    } else {
                        0
                    },
                ),
        ));
    }
}

fn exe_image_end(bytes: &[u8], header: usize) -> (end: usize)
    requires
        is_exe(bytes@),
        header == header_size(bytes@),
        header <= bytes@.len(),
    ensures
        end == image_end(bytes@),
        header <= end <= bytes@.len(),
{
    let n: usize = module_len(bytes);
    if n < header {
        header
    } else if n > bytes.len() {
        bytes.len()
    } else {
        n
    }
}

/// Relocations depend on where addresses are, not on what memory holds.
proof fn lemma_relocation_place(
    s: Core,
    t: Core,
    ram: Seq<u8>,
    bytes: Seq<u8>,
    base: u16,
    factor: u16,
    n: nat,
)
    requires
        t.a20 == s.a20,
    ensures
        relocated_by(s, ram, bytes, base, factor, n) == relocated_by(
            t,
            ram,
            bytes,
            base,
            factor,
            n,
        ),
    decreases n,
{
    if n > 0 {
        lemma_relocation_place(s, t, ram, bytes, base, factor, (n - 1) as nat);
    }
}

} // verus!
