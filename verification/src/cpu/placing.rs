//! Where programs lie in memory, and where they start.

use vstd::prelude::*;

use super::flags::law_real_addresses;
use super::load::{
    granted_paragraphs, image_of, least_paragraphs, module_length, needed_paragraphs, paragraphs,
    relocated_by, Loaded, MemoryMap, Placement,
};
use super::process::command_tail;
use super::regs::Seg;
use super::state::Core;
use crate::bus::{byte_at, word_at};
use crate::i86::load::{header_size, header_word, is_exe, relocation_count};

verus! {

proof fn lemma_low_word(value: u32, word: u16)
    by (bit_vector)
    ensures
        ((value & 0xFFFF_0000) | (word as u32)) as u16 == word,
{
}

/// Where relocation number `n` points: a segment and an offset in an image
/// that starts in segment `base`.
pub open spec fn relocation_at(s: Core, bytes: Seq<u8>, base: u16, n: int) -> int {
    let entry = header_word(bytes, 24) + n * 4;
    s.physical(base.wrapping_add(header_word(bytes, entry + 2)), header_word(bytes, entry)) as int
}

/// Relocating changes no byte that no relocation points to.
proof fn lemma_relocated_elsewhere(
    s: Core,
    ram: Seq<u8>,
    bytes: Seq<u8>,
    base: u16,
    factor: u16,
    n: nat,
    a: int,
)
    requires
        forall|k: int|
            0 <= k < n ==> a != #[trigger] relocation_at(s, bytes, base, k) && a != relocation_at(
                s,
                bytes,
                base,
                k,
            ) + 1,
    ensures
        byte_at(relocated_by(s, ram, bytes, base, factor, n), a) == byte_at(ram, a),
        relocated_by(s, ram, bytes, base, factor, n).len() == ram.len(),
    decreases n,
{
    if n > 0 {
        lemma_relocated_elsewhere(s, ram, bytes, base, factor, (n - 1) as nat, a);
        assert(a != relocation_at(s, bytes, base, n - 1) && a != relocation_at(
            s,
            bytes,
            base,
            n - 1,
        ) + 1);
    }
}

proof fn lemma_relocated_size(
    s: Core,
    ram: Seq<u8>,
    bytes: Seq<u8>,
    base: u16,
    factor: u16,
    n: nat,
)
    ensures
        relocated_by(s, ram, bytes, base, factor, n).len() == ram.len(),
    decreases n,
{
    if n > 0 {
        lemma_relocated_size(s, ram, bytes, base, factor, (n - 1) as nat);
    }
}

/// A word that one relocation points to, and no other one to it or its
/// neighbours, grows by the factor.
pub proof fn law_relocation_adds(
    s: Core,
    ram: Seq<u8>,
    bytes: Seq<u8>,
    base: u16,
    factor: u16,
    n: nat,
    k: int,
)
    requires
        0 <= k < n,
        relocation_at(s, bytes, base, k) + 2 <= ram.len(),
        forall|j: int|
            0 <= j < n && j != k ==> {
                let other = #[trigger] relocation_at(s, bytes, base, j);
                let at = relocation_at(s, bytes, base, k);
                other + 1 < at || at + 1 < other
            },
    ensures
        ({
            let at = relocation_at(s, bytes, base, k);
            let before = word_at(ram, at);
            let after = word_at(relocated_by(s, ram, bytes, base, factor, n), at);
            after == before + factor || after == before + factor - 0x1_0000
        }),
    decreases n,
{
    let at = relocation_at(s, bytes, base, k);
    let less = relocated_by(s, ram, bytes, base, factor, (n - 1) as nat);
    lemma_relocated_size(s, ram, bytes, base, factor, (n - 1) as nat);
    if k == n - 1 {
        assert forall|j: int| 0 <= j < n - 1 implies at != #[trigger] relocation_at(
            s,
            bytes,
            base,
            j,
        ) && at != relocation_at(s, bytes, base, j) + 1 && at + 1 != relocation_at(
            s,
            bytes,
            base,
            j,
        ) by {}
        lemma_relocated_elsewhere(s, ram, bytes, base, factor, (n - 1) as nat, at);
        lemma_relocated_elsewhere(s, ram, bytes, base, factor, (n - 1) as nat, at + 1);
        crate::bus::law_word_reads_back(less, at, word_at(less, at).wrapping_add(factor));
    } else {
        law_relocation_adds(s, ram, bytes, base, factor, (n - 1) as nat, k);
        let other = relocation_at(s, bytes, base, n - 1);
        assert(other + 1 < at || at + 1 < other);
    }
}

/// A program whose segments and offsets neither wrap at 64 KB nor leave the
/// first megabyte.
pub open spec fn lies_low(load: u16, bytes: Seq<u8>) -> bool {
    &&& load + 0x10 + header_word(bytes, 22) <= 0xFFFF
    &&& load + 0x10 + header_word(bytes, 14) <= 0xFFFF
    &&& 16 * (load + 0x10) + image_of(bytes).len() <= 0x10_0000
    &&& 16 * (load + 0x10 + header_word(bytes, 22)) + header_word(bytes, 20) < 0x10_0000
    &&& 16 * (load + 0x10 + header_word(bytes, 14)) + header_word(bytes, 16) < 0x10_0000
}

/// Once an EXE file is placed, its prefix is in the segment that DS and ES
/// hold and its image right behind the prefix. CS:IP is as far into the image
/// as the header's CS and IP say, and SS:SP as its SS and SP say.
pub proof fn law_exe_starts_in_its_image(
    s: Core,
    bytes: Seq<u8>,
    placement: Placement,
    map: MemoryMap,
)
    requires
        s.seg.len() == 6,
        s.gpr.len() == 8,
        s.load_segment(placement) <= 0xFFEF,
        lies_low(s.load_segment(placement), bytes),
    ensures
        ({
            let t = s.exe_placed(bytes, placement, map);
            let prefix = s.load_segment(placement);
            let image = 16 * prefix + 0x100;
            let cs = t.cache(Seg::CS).selector;
            let ss = t.cache(Seg::SS).selector;
            &&& t.cache(Seg::DS).selector == prefix
            &&& t.cache(Seg::ES).selector == prefix
            &&& t.rest.dos.current_psp == prefix
            &&& s.physical(cs, t.eip as u16) == image + 16 * header_word(bytes, 22) + header_word(
                bytes,
                20,
            )
            &&& t.eip <= 0xFFFF
            &&& s.physical(ss, t.gpr[4] as u16) == image + 16 * header_word(bytes, 14)
                + header_word(bytes, 16)
            &&& s.physical(cs, 0) == image + 16 * header_word(bytes, 22)
            &&& s.physical(ss, 0) == image + 16 * header_word(bytes, 14)
        }),
{
    reveal(Core::exe_placed);
    let load = s.load_segment(placement);
    let base = (load + 0x10) as u16;
    let cs = (base + header_word(bytes, 22)) as u16;
    let ss = (base + header_word(bytes, 14)) as u16;
    law_real_addresses(s, cs, header_word(bytes, 20));
    law_real_addresses(s, cs, 0);
    law_real_addresses(s, ss, header_word(bytes, 16));
    law_real_addresses(s, ss, 0);
    lemma_low_word(s.gpr[4], header_word(bytes, 16));
}

/// The byte that an EXE file starts at is the one that its header says, unless
/// a relocation points to it; and so is every other byte of the image.
pub proof fn law_image_is_in_memory(
    s: Core,
    bytes: Seq<u8>,
    placement: Placement,
    map: MemoryMap,
    i: int,
)
    requires
        s.seg.len() == 6,
        s.gpr.len() == 8,
        s.load_segment(placement) <= 0xFFEF,
        lies_low(s.load_segment(placement), bytes),
        0x10_0000 <= s.ram.len(),
        0 <= i < image_of(bytes).len(),
        forall|k: int|
            0 <= k < relocation_count(bytes) ==> {
                let at = #[trigger] relocation_at(
                    s,
                    bytes,
                    (s.load_segment(placement) + 0x10) as u16,
                    k,
                );
                let a = 16 * s.load_segment(placement) + 0x100 + i;
                a != at && a != at + 1
            },
    ensures
        ({
            let t = s.exe_placed(bytes, placement, map);
            let cs = t.cache(Seg::CS).selector;
            &&& byte_at(t.ram, 16 * s.load_segment(placement) + 0x100 + i) == image_of(bytes)[i]
            &&& i == 16 * header_word(bytes, 22) + header_word(bytes, 20) ==> byte_at(
                t.ram,
                s.physical(cs, t.eip as u16) as int,
            ) == image_of(bytes)[i]
        }),
{
    law_exe_starts_in_its_image(s, bytes, placement, map);
    let load = s.load_segment(placement);
    let base = (load + 0x10) as u16;
    let a = 16 * load + 0x100 + i;
    law_real_addresses(s, base, 0);
    law_real_addresses(s, load, 0);
    let placed = crate::bus::store_bytes(
        s.exe_prepared(placement, map),
        s.physical(base, 0) as int,
        image_of(bytes),
    );
    lemma_relocated_elsewhere(s, placed, bytes, base, base, relocation_count(bytes), a);
    assert(byte_at(s.exe_memory(bytes, placement, map), a) == image_of(bytes)[i]);
    assert(s.exe_placed(bytes, placement, map).ram == s.exe_memory(bytes, placement, map)) by {
        reveal(Core::exe_placed);
    }
}

/// A COM file lies at offset 100h of its segment and starts there; the stack
/// begins at the end of the segment or of the block.
pub proof fn law_com_starts_at_its_first_byte(
    s: Core,
    bytes: Seq<u8>,
    placement: Placement,
    map: MemoryMap,
    i: int,
)
    requires
        s.seg.len() == 6,
        s.gpr.len() == 8,
        s.com_fits(placement, map),
        16 * s.load_segment(placement) + 0x100 + bytes.len() <= 0x10_0000,
        0x10_0000 <= s.ram.len(),
        0 <= i < bytes.len(),
    ensures
        ({
            let t = s.com_loaded(bytes, placement, map);
            let load = s.load_segment(placement);
            let cs = t.cache(Seg::CS).selector;
            &&& byte_at(t.ram, s.physical(cs, t.eip as u16) + i) == bytes[i]
            &&& s.physical(cs, t.eip as u16) == 16 * load + 0x100
            &&& t.cache(Seg::DS).selector == cs
            &&& t.cache(Seg::ES).selector == cs
            &&& t.cache(Seg::SS).selector == cs
            &&& t.rest.dos.current_psp == cs
            &&& t.gpr[4] as u16 + 2 == (if placement is High && 16 * (s.memory_top(placement, map)
                - load) < 0x1_0000 {
                16 * (s.memory_top(placement, map) - load)
            } else {
                0x1_0000
            })
            &&& 16 * t.rest.dos.heap_pointer == 16 * load + 0x1_0000
        }),
{
    reveal(Core::com_loaded);
    let load = s.load_segment(placement);
    law_real_addresses(s, load, 0x100);
    law_real_addresses(s, load, 0);
    lemma_low_word(s.gpr[4], (s.com_bytes(placement, map) - 2) as u16);
    assert(byte_at(s.com_memory(bytes, placement, map), 16 * load + 0x100 + i) == bytes[i]);
}

/// The program segment prefix starts with INT 20h, has the end of the
/// program's memory at offset 2 and an empty command tail.
pub proof fn law_exe_prefix(s: Core, bytes: Seq<u8>, placement: Placement, map: MemoryMap)
    requires
        s.load_segment(placement) <= 0xFFEF,
        16 * s.load_segment(placement) + 0x100 <= 0x10_0000 <= s.ram.len(),
    ensures
        ({
            let ram = s.exe_placed(bytes, placement, map).ram;
            let at = 16 * s.load_segment(placement);
            &&& byte_at(ram, at) == 0xCD
            &&& byte_at(ram, at + 1) == 0x20
            &&& word_at(ram, at + 2) == s.memory_top(placement, map)
            &&& word_at(ram, at + 0x2C) == 0
            &&& byte_at(ram, at + 0x80) == 0
            &&& byte_at(ram, at + 0x81) == 0x0D
        }),
{
    reveal(Core::exe_placed);
    let load = s.load_segment(placement);
    law_real_addresses(s, load, 0);
    let base = (load + 0x10) as u16;
    let placed = crate::bus::store_bytes(
        s.exe_prepared(placement, map),
        s.physical(base, 0) as int,
        image_of(bytes),
    );
    lemma_relocated_size(s, placed, bytes, base, base, relocation_count(bytes));
    crate::bits::lemma_word_of_bytes(s.memory_top(placement, map));
    crate::bits::lemma_word_of_bytes(0);
    assert(command_tail(Seq::empty()).len() == 0);
}

/// The memory of a program ends no earlier than it starts, and at the end of
/// what it was placed in.
pub proof fn law_memory_top(s: Core, placement: Placement, map: MemoryMap)
    requires
        s.placeable(placement, map),
    ensures
        s.memory_top(placement, map) >= s.load_segment(placement),
        placement matches Placement::High(psp) ==> s.memory_top(placement, map) - psp
            == map.block->0,
        placement matches Placement::Child(psp) ==> s.memory_top(placement, map) == psp
            || s.memory_top(placement, map) == map.conventional_end,
        placement is Shell ==> s.load_segment(placement) == s.rest.dos.resident_end + 1,
{
}

/// Paragraphs hold their bytes, and fewer do not.
pub proof fn law_paragraphs(bytes: int)
    requires
        bytes >= 0,
    ensures
        bytes <= 16 * paragraphs(bytes) < bytes + 16,
{
}

/// The length that a header gives is counted in pages of 512 bytes, of which
/// the last one is partly used.
pub proof fn law_module_length(bytes: Seq<u8>)
    requires
        header_word(bytes, 4) > 0,
        header_word(bytes, 2) < 512,
    ensures
        512 * (header_word(bytes, 4) - 1) < module_length(bytes) <= 512 * header_word(bytes, 4),
        (module_length(bytes) - header_word(bytes, 2)) % 512 == 0,
{
}

/// A program gets what it needs at least, what it asks for at most, and
/// otherwise all but one paragraph of what there is.
pub proof fn law_granted_memory(bytes: Seq<u8>, available: int)
    requires
        available >= 0,
        least_paragraphs(bytes) <= 0xFFFF,
    ensures
        ({
            let n = granted_paragraphs(bytes, available);
            let least = least_paragraphs(bytes);
            let (min, max) = (header_word(bytes, 10), header_word(bytes, 12));
            &&& n >= least
            &&& n > least ==> n < available
            &&& n > least ==> n <= least - min + max
            &&& n > least ==> n == available - 1 || n == 0xFFFF || n == least - min + max
            &&& n == least ==> max <= min || available <= least + 1 || least == 0xFFFF
            &&& n <= 0xFFFF
        }),
{
}

/// A program from the shell has its block ahead of the heap; a program that
/// does not fit into its block is refused.
pub proof fn law_heap_lies_behind(s: Core, bytes: Seq<u8>, placement: Placement, map: MemoryMap)
    requires
        is_exe(bytes),
        header_size(bytes) <= bytes.len(),
        s.exe_fits(bytes, placement, map),
    ensures
        ({
            let (t, how) = s.exe_loaded(bytes, placement, map);
            let load = s.load_segment(placement);
            &&& placement !is Shell ==> (how is Refused <==> map.block is None || map.block->0
                < least_paragraphs(bytes))
            &&& placement !is Shell && !(how is Refused) ==> how == Loaded::Placed(None)
                && t.rest.dos.heap_pointer == load + map.block->0 + 1
            &&& placement is Shell ==> (how matches Loaded::Placed(Some(n))
                && t.rest.dos.heap_pointer == load + n + 1 && n >= least_paragraphs(bytes))
            &&& t.ram == s.exe_placed(bytes, placement, map).ram
        }),
{
}

/// Loading high needs room for the image, its prefix and what the header asks
/// for behind it.
pub proof fn law_needed_memory(bytes: Seq<u8>)
    requires
        is_exe(bytes),
        header_size(bytes) <= module_length(bytes),
        needed_paragraphs(bytes) < 0xFFFF,
    ensures
        16 * needed_paragraphs(bytes) >= 0x100 + (module_length(bytes) - header_size(bytes)) + 16
            * header_word(bytes, 10),
        16 * needed_paragraphs(bytes) < 0x110 + (module_length(bytes) - header_size(bytes)) + 16
            * header_word(bytes, 10),
{
}

/// An overlay lies at the segment that it is loaded to: a plain file whole, an
/// EXE file without its header.
pub proof fn law_overlay_is_in_memory(
    s: Core,
    bytes: Seq<u8>,
    segment: u16,
    factor: u16,
    i: int,
)
    requires
        0x10_0000 <= s.ram.len(),
        0 <= i,
        16 * segment + i < 0x10_0000,
        bytes.len() < 0x1C || bytes[0] != 0x4D || bytes[1] != 0x5A ==> i < bytes.len(),
        bytes.len() >= 0x1C && bytes[0] == 0x4D && bytes[1] == 0x5A ==> header_size(bytes) + i
            < bytes.len() && forall|k: int|
            0 <= k < relocation_count(bytes) ==> {
                let at = #[trigger] relocation_at(s, bytes, segment, k);
                16 * segment + i != at && 16 * segment + i != at + 1
            },
    ensures
        ({
            let (t, done) = s.overlay_loaded(bytes, segment, factor);
            let mz = bytes.len() >= 0x1C && bytes[0] == 0x4D && bytes[1] == 0x5A;
            &&& done
            &&& byte_at(t.ram, 16 * segment + i) == bytes[i + (if mz {
                header_size(bytes)
            } else {
                0
            })]
            &&& t == (Core { ram: t.ram, ..s })
        }),
{
    law_real_addresses(s, segment, 0);
    if bytes.len() >= 0x1C && bytes[0] == 0x4D && bytes[1] == 0x5A {
        let placed = crate::bus::store_bytes(
            s.ram,
            s.physical(segment, 0) as int,
            bytes.subrange(header_size(bytes), bytes.len() as int),
        );
        lemma_relocated_elsewhere(
            s,
            placed,
            bytes,
            segment,
            factor,
            relocation_count(bytes),
            16 * segment + i,
        );
    }
}

} // verus!
