//! Getting programs into memory: the built-in shell, COM and EXE files.

use vstd::prelude::*;

use super::alu::wrap_16;
use super::cpu::{physical, Cpu, CpuFlags, CpuState, Machine, Rest, RESERVED_ONE};
use crate::bits::word_of;
use crate::bus::{byte_at, cleared, store_16, store_8, store_bytes, word_at};

verus! {

/// The segment that holds the environment.
pub const ENV_SEGMENT: u16 = 0x0C00;

/// The segment that programs go to unless told otherwise.
pub const DEFAULT_SEGMENT: u16 = 0x1000;

/// Where the traps of the interrupt services are.
pub const TRAP_BASE: usize = 0xF_1000;

/// How many interrupts have a service of the emulator behind them.
pub const TRAPS: usize = 14;

/// The interrupts with a service of the emulator behind them.
pub open spec fn trap_vectors() -> Seq<u8> {
    seq![0x08, 0x10, 0x11, 0x12, 0x13, 0x14, 0x15, 0x16, 0x17, 0x1A, 0x20, 0x21, 0x2F, 0x33]
}

/// Memory with trap number `k` in place: the interrupt vector points to the
/// bytes FE 38, the vector and an IRET.
pub open spec fn trap_installed(ram: Seq<u8>, k: int) -> Seq<u8> {
    let vector = trap_vectors()[k];
    let at = TRAP_BASE + 4 * k;
    let pointed = store_16(
        store_16(ram, vector * 4, (at % 0x1_0000) as u16),
        vector * 4 + 2,
        0xF000,
    );
    store_8(
        store_8(store_8(store_8(pointed, at, 0xFE), at + 1, 0x38), at + 2, vector),
        at + 3,
        0xCF,
    )
}

/// Memory with the first `n` traps in place.
pub open spec fn traps_installed(ram: Seq<u8>, n: nat) -> Seq<u8>
    decreases n,
{
    if n == 0 {
        ram
    } else {
        trap_installed(traps_installed(ram, (n - 1) as nat), n - 1)
    }
}

/// The environment of a program: PATH and COMSPEC, each ended by a zero, and
/// one more zero.
pub open spec fn default_environment() -> Seq<u8> {
    seq![
        0x50, 0x41, 0x54, 0x48, 0x3D, 0x43, 0x3A, 0x5C, 0x00,
        0x43, 0x4F, 0x4D, 0x53, 0x50, 0x45, 0x43, 0x3D,
        0x43, 0x4F, 0x4D, 0x4D, 0x41, 0x4E, 0x44, 0x2E, 0x43, 0x4F, 0x4D, 0x00, 0x00,
    ]
}

/// The start of a program segment prefix: INT 20h and the top of memory.
pub open spec fn psp_head(ram: Seq<u8>, psp: int) -> Seq<u8> {
    store_8(store_8(store_8(store_8(ram, psp, 0xCD), psp + 1, 0x20), psp + 2, 0), psp + 3, 0xA0)
}

/// An empty command tail.
pub open spec fn psp_tail(ram: Seq<u8>, psp: int) -> Seq<u8> {
    store_8(store_8(ram, psp + 0x80, 0), psp + 0x81, 0x0D)
}

/// The environment in its segment, and the prefix pointing to it.
pub open spec fn with_environment(ram: Seq<u8>, psp: int) -> Seq<u8> {
    store_16(
        store_bytes(ram, physical(ENV_SEGMENT, 0), default_environment()),
        psp + 0x2C,
        ENV_SEGMENT,
    )
}

pub open spec fn load_segment_of(segment: Option<u16>) -> u16 {
    match segment {
        Some(s) => s,
        None => DEFAULT_SEGMENT,
    }
}

/// Memory after a COM file is loaded: its segment is cleared, the traps are
/// put back, the file goes to offset 100h and the prefix in front of it.
pub open spec fn com_memory(ram: Seq<u8>, bytes: Seq<u8>, segment: u16) -> Seq<u8> {
    let psp = physical(segment, 0);
    let clean = traps_installed(cleared(ram, psp, psp + 0x1_0000), TRAPS as nat);
    let loaded = store_bytes(clean, physical(segment, 0x100), bytes);
    let headed = psp_head(loaded, psp);
    let sized = store_8(store_8(headed, psp + 6, 3), psp + 7, 0);
    let no_env = store_8(store_8(sized, psp + 0x2C, 0), psp + 0x2D, 0);
    with_environment(psp_tail(no_env, psp), psp)
}

/// The machine after a COM file is loaded.
pub open spec fn com_loaded(m: Machine, bytes: Seq<u8>, segment: u16) -> Machine {
    Machine {
        cs: segment,
        ds: segment,
        es: segment,
        ss: segment,
        ip: 0x100,
        sp: 0xFFFE,
        ram: com_memory(m.ram, bytes, segment),
        rest: Rest {
            current_psp: segment,
            heap_pointer: (segment + 0x1000) as u16,
            ..m.rest
        },
        ..m
    }
}

/// A word of an EXE file's header.
pub open spec fn header_word(bytes: Seq<u8>, at: int) -> u16 {
    word_of(bytes[at], bytes[at + 1])
}

/// Whether a file starts as an EXE file does.
pub open spec fn is_exe(bytes: Seq<u8>) -> bool {
    bytes.len() >= 0x20 && bytes[0] == 0x4D && bytes[1] == 0x5A
}

pub open spec fn header_size(bytes: Seq<u8>) -> int {
    header_word(bytes, 8) * 16
}

/// Memory after the first `n` entries of the relocation table: the word that
/// each points to, counted from the image's start, grows by the segment the
/// image starts in.
pub open spec fn relocated(ram: Seq<u8>, bytes: Seq<u8>, base: u16, n: nat) -> Seq<u8>
    decreases n,
{
    if n == 0 {
        ram
    } else {
        let before = relocated(ram, bytes, base, (n - 1) as nat);
        let entry = header_word(bytes, 24) + (n - 1) * 4;
        let at = physical(
            wrap_16(base + header_word(bytes, entry + 2)),
            header_word(bytes, entry),
        );
        if at + 2 <= before.len() {
            store_16(before, at, wrap_16(word_at(before, at) + base))
        } else {
            before
        }
    }
}

/// How many relocations are made: none if the table runs past the file.
pub open spec fn relocation_count(bytes: Seq<u8>) -> nat {
    let count = header_word(bytes, 6);
    if header_word(bytes, 24) + count * 4 <= bytes.len() {
        count as nat
    } else {
        0
    }
}

/// Memory with the traps put back, cleared before that if the program starts
/// a fresh machine.
pub open spec fn exe_prepared(ram: Seq<u8>, segment: Option<u16>) -> Seq<u8> {
    traps_installed(
        if segment is None {
            cleared(ram, 0x500, ram.len() as int)
        } else {
            ram
        },
        TRAPS as nat,
    )
}

/// Memory after an EXE file is loaded: image, relocations, prefix,
/// environment.
pub open spec fn exe_memory(ram: Seq<u8>, bytes: Seq<u8>, segment: Option<u16>) -> Seq<u8> {
    let load = load_segment_of(segment);
    let base = (load + 0x10) as u16;
    let image = bytes.subrange(header_size(bytes), bytes.len() as int);
    let placed = store_bytes(exe_prepared(ram, segment), physical(base, 0), image);
    let fixed = relocated(placed, bytes, base, relocation_count(bytes));
    let psp = physical(load, 0);
    with_environment(psp_tail(psp_head(fixed, psp), psp), psp)
}

/// The first free paragraph behind an image of `len` bytes at `base`.
pub open spec fn heap_after(base: int, len: int) -> int {
    base + ((len + 15) / 16) % 0x1_0000 + 1
}

/// Whether an EXE file can be placed: what the machine computes of segments
/// stays within a word.
pub open spec fn exe_fits(bytes: Seq<u8>, segment: Option<u16>) -> bool {
    is_exe(bytes) ==> {
        let base = load_segment_of(segment) + 0x10;
        &&& base <= 0xFFFF
        &&& header_size(bytes) <= bytes.len() ==> heap_after(
            base,
            bytes.len() - header_size(bytes),
        ) <= 0xFFFF
    }
}

/// The machine after an EXE file is loaded, or refused: no EXE file leaves it
/// alone; one whose header is longer than the file has memory prepared.
pub open spec fn exe_loaded(m: Machine, bytes: Seq<u8>, segment: Option<u16>) -> Machine {
    let load = load_segment_of(segment);
    let base = (load + 0x10) as u16;
    if !is_exe(bytes) {
        m
    } else if header_size(bytes) > bytes.len() {
        Machine { ram: exe_prepared(m.ram, segment), ..m }
    } else {
        Machine {
            ds: load,
            es: load,
            cs: wrap_16(base + header_word(bytes, 22)),
            ss: wrap_16(base + header_word(bytes, 14)),
            ip: header_word(bytes, 20),
            sp: header_word(bytes, 16),
            ram: exe_memory(m.ram, bytes, segment),
            rest: Rest {
                current_psp: load,
                heap_pointer: heap_after(base as int, bytes.len() - header_size(bytes)) as u16,
                ..m.rest
            },
            ..m
        }
    }
}

/// Whether a program of either kind can be placed.
pub open spec fn program_fits(bytes: Seq<u8>, segment: Option<u16>) -> bool {
    if starts_with_mz(bytes) {
        exe_fits(bytes, segment)
    } else {
        load_segment_of(segment) <= 0xEFFF
    }
}

pub open spec fn starts_with_mz(bytes: Seq<u8>) -> bool {
    bytes.len() > 2 && bytes[0] == 0x4D && bytes[1] == 0x5A
}

/// The machine after the shell is loaded.
pub open spec fn shell_loaded(m: Machine, code: Seq<u8>) -> Machine {
    Machine {
        cs: 0,
        ds: 0,
        es: 0,
        ss: 0,
        ip: 0x100,
        sp: 0xFF00,
        bp: 0,
        ax: 0,
        bx: 0,
        cx: 0,
        dx: 0,
        si: 0,
        di: 0,
        flags: RESERVED_ONE,
        ram: store_bytes(
            store_16(
                traps_installed(cleared(m.ram, 0x500, 0xFFFF), TRAPS as nat),
                0x460,
                0x0D0E,
            ),
            0x100,
            code,
        ),
        rest: Rest { state: CpuState::Running, ..m.rest },
    }
}

pub(crate) fn header_word_at(bytes: &[u8], at: usize) -> (word: u16)
    requires
        at + 1 < bytes@.len(),
    ensures
        word == header_word(bytes@, at as int),
{
    assert(bytes@.len() == bytes.len());
    ((bytes[at + 1] as u16) << 8) | (bytes[at] as u16)
}

/// Whether `load_executable` can place a program: of an EXE file, the segments
/// that it starts and ends in; of a COM file, the segment that it fills.
pub fn can_load(bytes: &[u8], segment: Option<u16>) -> (yes: bool)
    ensures
        yes == program_fits(bytes@, segment),
{
    let load: usize = match segment {
        Some(s) => s as usize,
        None => DEFAULT_SEGMENT as usize,
    };
    assert(bytes@.len() == bytes.len());
    if bytes.len() <= 2 || bytes[0] != 0x4D || bytes[1] != 0x5A {
        return load <= 0xEFFF;
    }
    if bytes.len() < 0x20 {
        return true;
    }
    let base: usize = load + 0x10;
    let header: usize = header_word_at(bytes, 8) as usize * 16;
    if base > 0xFFFF {
        return false;
    }
    if header > bytes.len() {
        return true;
    }
    let len: usize = bytes.len() - header;
    let paras: usize = if len % 16 == 0 {
        len / 16
    } else {
        len / 16 + 1
    };
    base + paras % 0x1_0000 + 1 <= 0xFFFF
}

impl Cpu {
    /// Point the interrupts of the emulator's services to their traps.
    fn install_bios_traps(&mut self)
        ensures
            final(self)@ == (Machine {
                ram: traps_installed(old(self)@.ram, TRAPS as nat),
                ..old(self)@
            }),
    {
        let vectors: [u8; 14] = [
            0x08, 0x10, 0x11, 0x12, 0x13, 0x14, 0x15, 0x16, 0x17, 0x1A, 0x20, 0x21, 0x2F, 0x33,
        ];
        assert(vectors@ =~= trap_vectors());
        let mut k: usize = 0;
        while k < TRAPS
            invariant
                k <= TRAPS,
                vectors@ == trap_vectors(),
                self@ == (Machine {
                    ram: traps_installed(old(self)@.ram, k as nat),
                    ..old(self)@
                }),
            decreases TRAPS - k,
        {
            let vector: u8 = vectors[k];
            let at: usize = TRAP_BASE + 4 * k;
            let entry: usize = vector as usize * 4;
            self.bus.write_16(entry, (at % 0x1_0000) as u16);
            self.bus.write_16(entry + 2, 0xF000);
            self.bus.write_8(at, 0xFE);
            self.bus.write_8(at + 1, 0x38);
            self.bus.write_8(at + 2, vector);
            self.bus.write_8(at + 3, 0xCF);
            k = k + 1;
        }
    }

    /// Load the shell's code and start it.
    pub fn load_shell(&mut self, shell_code: &[u8])
        requires
            old(self)@.ram.len() >= 0xFFFF,
            0x100 + shell_code@.len() <= old(self)@.ram.len(),
        ensures
            final(self)@ == shell_loaded(old(self)@, shell_code@),
    {
        self.bus.clear(0x500, 0xFFFF);
        self.install_bios_traps();
        self.bus.write_16(0x0460, 0x0D0E);
        self.bus.load_bytes(0x100, shell_code);
        self.cs = 0;
        self.ds = 0;
        self.es = 0;
        self.ss = 0;
        self.ip = 0x100;
        self.sp = 0xFF00;
        self.bp = 0;
        self.ax = 0;
        self.bx = 0;
        self.cx = 0;
        self.dx = 0;
        self.si = 0;
        self.di = 0;
        self.flags = CpuFlags { bits: RESERVED_ONE };
        self.state = CpuState::Running;
    }

    fn write_psp_head(&mut self, psp: usize)
        requires
            psp < 0x10_0000,
        ensures
            final(self)@ == (Machine { ram: psp_head(old(self)@.ram, psp as int), ..old(self)@ }),
    {
        self.bus.write_8(psp, 0xCD);
        self.bus.write_8(psp + 1, 0x20);
        self.bus.write_8(psp + 2, 0x00);
        self.bus.write_8(psp + 3, 0xA0);
    }

    fn write_psp_tail(&mut self, psp: usize)
        requires
            psp < 0x10_0000,
        ensures
            final(self)@ == (Machine { ram: psp_tail(old(self)@.ram, psp as int), ..old(self)@ }),
    {
        self.bus.write_8(psp + 0x80, 0x00);
        self.bus.write_8(psp + 0x81, 0x0D);
    }

    fn write_environment(&mut self, psp: usize)
        requires
            psp < 0x10_0000,
        ensures
            final(self)@ == (Machine {
                ram: with_environment(old(self)@.ram, psp as int),
                ..old(self)@
            }),
    {
        let env: [u8; 30] = [
            0x50, 0x41, 0x54, 0x48, 0x3D, 0x43, 0x3A, 0x5C, 0x00,
            0x43, 0x4F, 0x4D, 0x53, 0x50, 0x45, 0x43, 0x3D,
            0x43, 0x4F, 0x4D, 0x4D, 0x41, 0x4E, 0x44, 0x2E, 0x43, 0x4F, 0x4D, 0x00, 0x00,
        ];
        assert(env@ =~= default_environment());
        let at: usize = self.get_physical_addr(ENV_SEGMENT, 0);
        self.bus.load_bytes(at, &env);
        self.bus.write_16(psp + 0x2C, ENV_SEGMENT);
    }

    /// Load a COM file, which owns the 64 KB of its segment.
    fn load_com(&mut self, bytes: &[u8], segment: Option<u16>) -> (loaded: bool)
        requires
            load_segment_of(segment) <= 0xEFFF,
        ensures
            loaded,
            final(self)@ == com_loaded(old(self)@, bytes@, load_segment_of(segment)),
    {
        let load_segment: u16 = match segment {
            Some(s) => s,
            None => DEFAULT_SEGMENT,
        };
        let psp: usize = self.get_physical_addr(load_segment, 0);
        self.bus.clear(psp, psp + 0x1_0000);
        self.install_bios_traps();
        let start: usize = self.get_physical_addr(load_segment, 0x100);
        self.bus.load_bytes(start, bytes);
        self.cs = load_segment;
        self.ds = load_segment;
        self.es = load_segment;
        self.ss = load_segment;
        self.ip = 0x100;
        self.sp = 0xFFFE;
        self.write_psp_head(psp);
        self.bus.write_8(psp + 6, 0x03);
        self.bus.write_8(psp + 7, 0x00);
        self.bus.write_8(psp + 0x2C, 0x00);
        self.bus.write_8(psp + 0x2D, 0x00);
        self.write_psp_tail(psp);
        self.write_environment(psp);
        self.current_psp = load_segment;
        self.heap_pointer = load_segment + 0x1000;
        true
    }

    fn relocate(&mut self, bytes: &[u8], base: u16)
        requires
            is_exe(bytes@),
        ensures
            final(self)@ == (Machine {
                ram: relocated(old(self)@.ram, bytes@, base, relocation_count(bytes@)),
                ..old(self)@
            }),
    {
        let table: usize = header_word_at(bytes, 24) as usize;
        let count: usize = header_word_at(bytes, 6) as usize;
        if table + count * 4 <= bytes.len() {
            let mut n: usize = 0;
            while n < count
                invariant
                    n <= count,
                    table == header_word(bytes@, 24),
                    table + count * 4 <= bytes@.len(),
                    table <= 0xFFFF,
                    count <= 0xFFFF,
                    self@ == (Machine {
                        ram: relocated(old(self)@.ram, bytes@, base, n as nat),
                        ..old(self)@
                    }),
                decreases count - n,
            {
                let entry: usize = table + n * 4;
                let offset: u16 = header_word_at(bytes, entry);
                let segment: u16 = header_word_at(bytes, entry + 2);
                let at: usize = self.get_physical_addr(base.wrapping_add(segment), offset);
                if at + 2 <= self.bus.ram.len() {
                    let value: u16 = self.bus.read_16(at);
                    self.bus.write_16(at, value.wrapping_add(base));
                }
                n = n + 1;
            }
        }
    }

    /// Load an EXE file. False, without a program, if it is none or its
    /// header is longer than the file.
    #[verifier::rlimit(60)]
    #[verifier::spinoff_prover]
    pub fn load_exe(&mut self, bytes: &[u8], segment: Option<u16>) -> (loaded: bool)
        requires
            exe_fits(bytes@, segment),
        ensures
            loaded == (is_exe(bytes@) && header_size(bytes@) <= bytes@.len()),
            final(self)@ == exe_loaded(old(self)@, bytes@, segment),
    {
        if bytes.len() < 0x20 || bytes[0] != 0x4D || bytes[1] != 0x5A {
            return false;
        }
        let header: usize = header_word_at(bytes, 8) as usize * 16;
        let init_ss: u16 = header_word_at(bytes, 14);
        let init_sp: u16 = header_word_at(bytes, 16);
        let init_ip: u16 = header_word_at(bytes, 20);
        let init_cs: u16 = header_word_at(bytes, 22);
        if segment.is_none() {
            let end: usize = self.bus.ram.len();
            self.bus.clear(0x500, end);
        }
        self.install_bios_traps();
        let load_segment: u16 = match segment {
            Some(s) => s,
            None => DEFAULT_SEGMENT,
        };
        let base: u16 = load_segment + 0x10;
        if header > bytes.len() {
            return false;
        }
        let image_start: usize = self.get_physical_addr(base, 0);
        let image = vstd::slice::slice_subrange(bytes, header, bytes.len());
        self.bus.load_bytes(image_start, image);
        self.relocate(bytes, base);
        self.ds = load_segment;
        self.es = load_segment;
        self.cs = base.wrapping_add(init_cs);
        self.ss = base.wrapping_add(init_ss);
        self.ip = init_ip;
        self.sp = init_sp;
        let psp: usize = self.get_physical_addr(load_segment, 0);
        self.write_psp_head(psp);
        self.write_psp_tail(psp);
        self.write_environment(psp);
        self.current_psp = load_segment;
        let len: usize = bytes.len() - header;
        let paras: usize = if len % 16 == 0 {
            len / 16
        } else {
            len / 16 + 1
        };
        self.heap_pointer = base + (paras % 0x1_0000) as u16 + 1;
        true
    }

    /// Load a program by what its file starts with: EXE files say MZ, all
    /// others are COM files.
    pub fn load_executable(&mut self, bytes: &[u8], segment: Option<u16>) -> (loaded: bool)
        requires
            program_fits(bytes@, segment),
        ensures
            starts_with_mz(bytes@) ==> {
                &&& loaded == (is_exe(bytes@) && header_size(bytes@) <= bytes@.len())
                &&& final(self)@ == exe_loaded(old(self)@, bytes@, segment)
            },
            !starts_with_mz(bytes@) ==> {
                &&& loaded
                &&& final(self)@ == com_loaded(old(self)@, bytes@, load_segment_of(segment))
            },
    {
        if bytes.len() > 2 && bytes[0] == 0x4D && bytes[1] == 0x5A {
            self.load_exe(bytes, segment)
        } else {
            self.load_com(bytes, segment)
        }
    }
}

/// Where relocation number `n` points, in an image that starts in segment
/// `base`.
pub open spec fn relocation_at(bytes: Seq<u8>, base: u16, n: int) -> int {
    let entry = header_word(bytes, 24) + n * 4;
    physical(wrap_16(base + header_word(bytes, entry + 2)), header_word(bytes, entry))
}

/// Relocating changes no byte that no relocation points to.
pub proof fn law_relocated_elsewhere(ram: Seq<u8>, bytes: Seq<u8>, base: u16, n: nat, a: int)
    requires
        forall|k: int|
            0 <= k < n ==> a != #[trigger] relocation_at(bytes, base, k) && a != relocation_at(
                bytes,
                base,
                k,
            ) + 1,
    ensures
        byte_at(relocated(ram, bytes, base, n), a) == byte_at(ram, a),
        relocated(ram, bytes, base, n).len() == ram.len(),
    decreases n,
{
    if n > 0 {
        law_relocated_elsewhere(ram, bytes, base, (n - 1) as nat, a);
        assert(a != relocation_at(bytes, base, n - 1) && a != relocation_at(bytes, base, n - 1)
            + 1);
    }
}

proof fn lemma_relocated_size(ram: Seq<u8>, bytes: Seq<u8>, base: u16, n: nat)
    ensures
        relocated(ram, bytes, base, n).len() == ram.len(),
    decreases n,
{
    if n > 0 {
        lemma_relocated_size(ram, bytes, base, (n - 1) as nat);
    }
}

/// A word that one relocation points to, and no other one to it or its
/// neighbours, grows by the segment that the image starts in.
pub proof fn law_relocation_adds(ram: Seq<u8>, bytes: Seq<u8>, base: u16, n: nat, k: int)
    requires
        0 <= k < n,
        relocation_at(bytes, base, k) + 2 <= ram.len(),
        forall|j: int|
            0 <= j < n && j != k ==> {
                let other = #[trigger] relocation_at(bytes, base, j);
                let at = relocation_at(bytes, base, k);
                other + 1 < at || at + 1 < other
            },
    ensures
        ({
            let at = relocation_at(bytes, base, k);
            let before = word_at(ram, at);
            let after = word_at(relocated(ram, bytes, base, n), at);
            after == before + base || after == before + base - 0x1_0000
        }),
    decreases n,
{
    let at = relocation_at(bytes, base, k);
    let less = relocated(ram, bytes, base, (n - 1) as nat);
    lemma_relocated_size(ram, bytes, base, (n - 1) as nat);
    if k == n - 1 {
        law_relocated_elsewhere(ram, bytes, base, (n - 1) as nat, at);
        law_relocated_elsewhere(ram, bytes, base, (n - 1) as nat, at + 1);
        crate::bus::law_word_reads_back(less, at, wrap_16(word_at(less, at) + base));
    } else {
        law_relocation_adds(ram, bytes, base, (n - 1) as nat, k);
        let other = relocation_at(bytes, base, n - 1);
        assert(other + 1 < at || at + 1 < other);
    }
}

/// Once an EXE file is loaded, its prefix is in the segment that DS and ES
/// hold and its image right behind the prefix. CS:IP is as far into the image
/// as the header's CS and IP say, SS:SP as its SS and SP say, and the heap
/// begins behind the image.
pub proof fn law_exe_starts_in_its_image(m: Machine, bytes: Seq<u8>, segment: Option<u16>)
    requires
        is_exe(bytes),
        header_size(bytes) <= bytes.len(),
        exe_fits(bytes, segment),
        load_segment_of(segment) + 0x10 + header_word(bytes, 22) <= 0xFFFF,
        load_segment_of(segment) + 0x10 + header_word(bytes, 14) <= 0xFFFF,
        bytes.len() - header_size(bytes) <= 0xF_FFF0,
    ensures
        ({
            let n = exe_loaded(m, bytes, segment);
            let prefix = load_segment_of(segment);
            let image = 16 * prefix + 0x100;
            &&& n.ds == prefix
            &&& n.es == prefix
            &&& n.rest.current_psp == prefix
            &&& 16 * n.cs + n.ip == image + 16 * header_word(bytes, 22) + header_word(bytes, 20)
            &&& n.ip == header_word(bytes, 20)
            &&& 16 * n.ss + n.sp == image + 16 * header_word(bytes, 14) + header_word(bytes, 16)
            &&& n.sp == header_word(bytes, 16)
            &&& image + (bytes.len() - header_size(bytes)) <= 16 * n.rest.heap_pointer
            &&& 16 * n.rest.heap_pointer < image + (bytes.len() - header_size(bytes)) + 32
        }),
{
}

/// The byte that an EXE file starts at is the one that its header says, unless
/// a relocation points to it; and so is every other byte of the image that
/// does not lie in the environment.
pub proof fn law_image_is_in_memory(m: Machine, bytes: Seq<u8>, segment: Option<u16>, i: int)
    requires
        is_exe(bytes),
        header_size(bytes) <= bytes.len(),
        load_segment_of(segment) + 0x10 <= 0xFFFF,
        0 <= i < bytes.len() - header_size(bytes),
        16 * load_segment_of(segment) + 0x100 + i < 0x10_0000 <= m.ram.len(),
        !(0 <= 16 * load_segment_of(segment) + 0x100 + i - 16 * ENV_SEGMENT
            < default_environment().len()),
        forall|k: int|
            0 <= k < relocation_count(bytes) ==> {
                let at = #[trigger] relocation_at(
                    bytes,
                    (load_segment_of(segment) + 0x10) as u16,
                    k,
                );
                let a = 16 * load_segment_of(segment) + 0x100 + i;
                a != at && a != at + 1
            },
    ensures
        byte_at(exe_loaded(m, bytes, segment).ram, 16 * load_segment_of(segment) + 0x100 + i)
            == bytes[header_size(bytes) + i],
{
    let load = load_segment_of(segment);
    let base = (load + 0x10) as u16;
    let image = bytes.subrange(header_size(bytes), bytes.len() as int);
    let a = 16 * load + 0x100 + i;
    lemma_traps_keep_size(
        if segment is None {
            cleared(m.ram, 0x500, m.ram.len() as int)
        } else {
            m.ram
        },
        TRAPS as nat,
    );
    let placed = store_bytes(exe_prepared(m.ram, segment), physical(base, 0), image);
    law_relocated_elsewhere(placed, bytes, base, relocation_count(bytes), a);
    assert(byte_at(placed, a) == image[i]);
    assert(byte_at(exe_memory(m.ram, bytes, segment), a) == image[i]);
}

proof fn lemma_traps_keep_size(ram: Seq<u8>, n: nat)
    ensures
        traps_installed(ram, n).len() == ram.len(),
    decreases n,
{
    if n > 0 {
        lemma_traps_keep_size(ram, (n - 1) as nat);
    }
}

/// A COM file lies at offset 100h of its segment and starts there, with the
/// stack at the end of the segment and the heap behind it.
pub proof fn law_com_starts_at_its_first_byte(m: Machine, bytes: Seq<u8>, segment: u16, i: int)
    requires
        segment <= 0xEFFF,
        0 <= i < bytes.len(),
        16 * segment + 0x100 + i < 0x10_0000 <= m.ram.len(),
        !(0 <= 16 * segment + 0x100 + i - 16 * ENV_SEGMENT < default_environment().len()),
    ensures
        ({
            let n = com_loaded(m, bytes, segment);
            &&& byte_at(n.ram, 16 * segment + 0x100 + i) == bytes[i]
            &&& 16 * n.cs + n.ip == 16 * segment + 0x100
            &&& n.ip == 0x100
            &&& n.ds == n.cs
            &&& n.es == n.cs
            &&& n.ss == n.cs
            &&& n.rest.current_psp == n.cs
            &&& 16 * n.ss + n.sp + 2 == 16 * n.rest.heap_pointer
            &&& 16 * n.rest.heap_pointer == 16 * segment + 0x1_0000
        }),
{
    let psp = physical(segment, 0);
    lemma_traps_keep_size(cleared(m.ram, psp, psp + 0x1_0000), TRAPS as nat);
    let clean = traps_installed(cleared(m.ram, psp, psp + 0x1_0000), TRAPS as nat);
    let loaded = store_bytes(clean, physical(segment, 0x100), bytes);
    let a = 16 * segment + 0x100 + i;
    assert(physical(segment, 0x100) == 16 * segment + 0x100);
    assert(byte_at(loaded, a) == bytes[i]);
    assert(byte_at(com_memory(m.ram, bytes, segment), a) == bytes[i]);
}

} // verus!
