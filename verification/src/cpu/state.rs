//! The processor's state.

use std::collections::VecDeque;

use vstd::prelude::*;

use super::regs::SegCache;
use crate::bus::Bus;
use crate::f80::F80;

verus! {

/// Bits of EFLAGS.
pub const CF: u32 = 0x0001;

/// Bit 1 reads as 1 on every x86.
pub const R1: u32 = 0x0002;

pub const PF: u32 = 0x0004;

pub const AF: u32 = 0x0010;

pub const ZF: u32 = 0x0040;

pub const SF: u32 = 0x0080;

pub const TF: u32 = 0x0100;

pub const IF: u32 = 0x0200;

pub const DF: u32 = 0x0400;

pub const OF: u32 = 0x0800;

/// The I/O privilege level.
pub const IOPL: u32 = 0x3000;

/// Nested task.
pub const NT: u32 = 0x4000;

/// Resume.
pub const RF: u32 = 0x0001_0000;

/// Virtual-8086 mode.
pub const VM: u32 = 0x0002_0000;

/// Alignment check, on a 486.
pub const AC: u32 = 0x0004_0000;

/// The bits that EFLAGS has names for.
pub const DECLARED_FLAGS: u32 = 0x0007_7FD7;

/// FLAGS bits POPF and IRET load: CF, PF, AF, ZF, SF, TF, IF, DF, OF, IOPL
/// and NT.
pub const FLAGS16_WRITABLE: u32 = 0x7FD5;

/// CR0 bits.
pub const CR0_PE: u32 = 0x0000_0001;

pub const CR0_MP: u32 = 0x0000_0002;

pub const CR0_EM: u32 = 0x0000_0004;

pub const CR0_TS: u32 = 0x0000_0008;

pub const CR0_ET: u32 = 0x0000_0010;

/// 486: numeric errors through #MF rather than IRQ 13.
pub const CR0_NE: u32 = 0x0000_0020;

/// 486: write protection of read-only pages against supervisor code.
pub const CR0_WP: u32 = 0x0001_0000;

/// 486: alignment checks.
pub const CR0_AM: u32 = 0x0004_0000;

/// 486: cache control.
pub const CR0_NW: u32 = 0x2000_0000;

pub const CR0_CD: u32 = 0x4000_0000;

pub const CR0_PG: u32 = 0x8000_0000;

/// Tag of a floating point register that holds nothing.
pub const FPU_TAG_EMPTY: u8 = 1;

/// Tag of a floating point register that holds a number.
pub const FPU_TAG_VALID: u8 = 0;

/// How many translations each set of the TLB holds.
pub const TLB_ENTRIES: usize = 1024;

/// Bytes of memory in a machine that does not say otherwise.
pub const DEFAULT_MEMORY_MB: usize = 16;

/// A value of EFLAGS.
#[derive(Clone, Copy, Debug, PartialEq, Eq, Structural)]
pub struct CpuFlags {
    pub bits: u32,
}

impl CpuFlags {
    /// The declared flags among `bits`.
    pub fn from_bits_truncate(bits: u32) -> (flags: CpuFlags)
        ensures
            flags.bits == bits & DECLARED_FLAGS,
    {
        CpuFlags { bits: bits & DECLARED_FLAGS }
    }

    pub fn from_bits_retain(bits: u32) -> (flags: CpuFlags)
        ensures
            flags.bits == bits,
    {
        CpuFlags { bits }
    }

    pub fn bits(&self) -> (bits: u32)
        ensures
            bits == self.bits,
    {
        self.bits
    }

    /// Whether all the flags of `mask` are set.
    pub fn contains(&self, mask: u32) -> (all: bool)
        ensures
            all == (self.bits & mask == mask),
    {
        (self.bits & mask) == mask
    }
}

/// A value of the floating point unit's status flags, without the stack top.
#[derive(Clone, Copy, Debug, PartialEq, Eq, Structural)]
pub struct FpuFlags {
    pub bits: u16,
}

/// The processor being emulated.
#[derive(Clone, Copy, Debug, PartialEq, Eq, Structural)]
pub enum CpuModel {
    I386,
    /// A 486DX: on-chip FPU, EFLAGS.AC, BSWAP/XADD/CMPXCHG/INVD/WBINVD/
    /// INVLPG, and no CPUID.
    I486,
}

/// Which core runs the instructions.
#[derive(Clone, Copy, Debug, PartialEq, Eq, Structural)]
pub enum CoreMode {
    /// The interpreter until a program switches to protected mode, then
    /// the dynamic recompiler until that program ends.
    Auto,
    /// The dynamic recompiler throughout.
    Dynamic,
    /// The interpreter throughout.
    Normal,
}

/// A descriptor table register (GDTR, IDTR): base address and limit.
#[derive(Clone, Copy, Debug, PartialEq, Eq, Structural)]
pub struct DescTable {
    pub base: u32,
    pub limit: u16,
}

/// What the processor is doing.
#[derive(Clone, Copy, Debug, PartialEq, Eq, Structural)]
pub enum CpuState {
    Running,
    Halted,
    RebootShell,
}

/// A translation, valid for reads when `read_tag` is the linear page number
/// + 1, and for writes when `write_tag` is: a page that may not be written,
/// or whose dirty bit isn't set yet, has a write tag of 0, so writes to it
/// walk the page tables.
#[derive(Clone, Copy, Debug, PartialEq, Eq, Structural)]
pub struct TlbEntry {
    pub read_tag: u32,
    pub write_tag: u32,
    /// Physical address of the page.
    pub phys: u32,
}

/// Translations the CPU has walked the page tables for, direct-mapped by
/// linear page number, in two sets: for accesses at privilege level 3,
/// which the pages' user bits restrict, and for the others. Like the
/// hardware's, it is only flushed by a CR3 load, a change of CR0.PG or WP,
/// INVLPG and task switches, so a program must flush it after changing
/// page tables, as on a real 386.
pub struct Tlb {
    pub entries: [TlbEntry; 2048],
}

/// An exception: its vector and, for the exceptions that have one, the error
/// code pushed with it (protected mode only).
#[derive(Clone, Copy, Debug, PartialEq, Eq, Structural)]
pub struct Fault {
    pub vector: u8,
    pub error: Option<u32>,
}

/// Result of an operation that can raise an exception.
pub type CpuResult<T> = Result<T, Fault>;

/// An exception the CPU raised, as kept in `Cpu::exception_log`.
#[derive(Clone, Copy, Debug, PartialEq, Eq, Structural)]
pub struct ExceptionRecord {
    pub vector: u8,
    pub error: Option<u32>,
    /// Where it happened: the faulting instruction for faults.
    pub cs: u16,
    pub eip: u32,
    /// CR2 when it happened: the address of a page fault.
    pub cr2: u32,
    pub protected: bool,
    /// `Cpu::executed` when it happened.
    pub icount: u64,
}

/// The architectural register state: general-purpose registers, EIP,
/// EFLAGS and the segment registers with their descriptor caches.
#[derive(Clone, Copy, Debug, PartialEq, Eq)]
pub struct CpuSnapshot {
    pub gpr: [u32; 8],
    pub eip: u32,
    pub flags: CpuFlags,
    pub seg: [SegCache; 6],
}

/// A parent process's state while its child runs (INT 21h AH=4Bh).
#[derive(Clone, Copy, Debug, PartialEq, Eq)]
pub struct ProcessContext {
    pub regs: CpuSnapshot,
    pub psp: u16,
    pub heap_pointer: u16,
}

/// The registers of the floating point unit.
#[derive(Clone, Copy, Debug, PartialEq, Eq)]
pub struct Fpu {
    pub stack: [F80; 8],
    pub top: usize,
    pub flags: FpuFlags,
    pub control: u16,
    pub tags: [u8; 8],
}

/// What DOS and the shell keep of the programs they run.
pub struct Dos {
    /// The master environment (SET, PATH), in order.
    pub environment: Vec<(String, String)>,
    pub current_psp: u16,
    pub heap_pointer: u16,
    /// Memory control block where memory above the resident programs begins.
    pub resident_end: u16,
    /// The prefixes of the programs kept resident in upper memory.
    pub resident_upper: Vec<u16>,
    /// Exit code (AL) and termination type (AH) of the program that ended
    /// last.
    pub last_child_exit: u16,
    /// The exit code of the last program started from the shell.
    pub errorlevel: u8,
    pub alloc_strategy: u16,
    pub con_pending_scan: Option<u8>,
    pub bios_wait_until: Option<u64>,
}

/// The processor and the memory it runs on.
pub struct Cpu {
    /// EAX, ECX, EDX, EBX, ESP, EBP, ESI, EDI.
    pub gpr: [u32; 8],
    pub eip: u32,
    /// ES, CS, SS, DS, FS, GS.
    pub seg: [SegCache; 6],
    pub model: CpuModel,
    pub cr0: u32,
    pub cr2: u32,
    pub cr3: u32,
    /// Debug registers; stored, but breakpoints are not implemented.
    pub dr: [u32; 8],
    pub gdtr: DescTable,
    pub idtr: DescTable,
    /// The local descriptor table and task register: selector and
    /// descriptor cache.
    pub ldtr: SegCache,
    pub tr: SegCache,
    /// Current privilege level: 0 in real mode, 3 in virtual-8086 mode,
    /// in protected mode that of the code segment.
    pub cpl: u8,
    pub tlb: Tlb,
    pub bus: Bus,
    pub flags: CpuFlags,
    pub state: CpuState,
    /// Set by STI, MOV SS and POP SS: hardware interrupts wait until the
    /// next instruction has run.
    pub irq_shadow: bool,
    pub fpu: Fpu,
    pub process_stack: Vec<ProcessContext>,
    pub dos: Dos,
    /// Instructions run since start.
    pub executed: u64,
    /// Vectors that software interrupts found at 0000:0000.
    pub null_interrupts: [u64; 4],
    /// Switches between real and protected mode.
    pub mode_switches: u64,
    /// Exceptions raised since start, and the most recent ones.
    pub exceptions: u64,
    pub exception_log: VecDeque<ExceptionRecord>,
    /// Set by services that wait for input.
    pub idle: bool,
    /// Set by a service that has to wait: its trap runs again.
    pub hle_retry: bool,
    pub core: CoreMode,
    /// A program switched to protected mode since it started.
    pub dyn_latched: bool,
}

/// The registers that a snapshot holds.
pub struct Registers {
    pub gpr: Seq<u32>,
    pub eip: u32,
    pub flags: u32,
    pub seg: Seq<SegCache>,
}

impl View for CpuSnapshot {
    type V = Registers;

    open spec fn view(&self) -> Registers {
        Registers { gpr: self.gpr@, eip: self.eip, flags: self.flags.bits, seg: self.seg@ }
    }
}

/// A parent process that waits for its child.
pub struct Parent {
    pub regs: Registers,
    pub psp: u16,
    pub heap_pointer: u16,
}

impl View for ProcessContext {
    type V = Parent;

    open spec fn view(&self) -> Parent {
        Parent { regs: self.regs@, psp: self.psp, heap_pointer: self.heap_pointer }
    }
}

/// The floating point unit's registers.
pub struct FpuRegisters {
    pub stack: Seq<F80>,
    pub top: usize,
    pub flags: u16,
    pub control: u16,
    pub tags: Seq<u8>,
}

impl View for Fpu {
    type V = FpuRegisters;

    open spec fn view(&self) -> FpuRegisters {
        FpuRegisters {
            stack: self.stack@,
            top: self.top,
            flags: self.flags.bits,
            control: self.control,
            tags: self.tags@,
        }
    }
}

/// The names and values of an environment, in order.
pub open spec fn environment_of(pairs: Seq<(String, String)>) -> Seq<(Seq<char>, Seq<char>)> {
    Seq::new(pairs.len(), |i: int| (pairs[i].0@, pairs[i].1@))
}

/// What DOS and the shell keep.
pub struct DosState {
    pub environment: Seq<(Seq<char>, Seq<char>)>,
    pub current_psp: u16,
    pub heap_pointer: u16,
    pub resident_end: u16,
    pub resident_upper: Seq<u16>,
    pub last_child_exit: u16,
    pub errorlevel: u8,
    pub alloc_strategy: u16,
    pub con_pending_scan: Option<u8>,
    pub bios_wait_until: Option<u64>,
}

impl View for Dos {
    type V = DosState;

    open spec fn view(&self) -> DosState {
        DosState {
            environment: environment_of(self.environment@),
            current_psp: self.current_psp,
            heap_pointer: self.heap_pointer,
            resident_end: self.resident_end,
            resident_upper: self.resident_upper@,
            last_child_exit: self.last_child_exit,
            errorlevel: self.errorlevel,
            alloc_strategy: self.alloc_strategy,
            con_pending_scan: self.con_pending_scan,
            bios_wait_until: self.bios_wait_until,
        }
    }
}

/// What memory access and segment loading never change.
pub struct Rest {
    pub dr: Seq<u32>,
    pub state: CpuState,
    pub fpu: FpuRegisters,
    pub process_stack: Seq<Parent>,
    pub dos: DosState,
    pub executed: u64,
    pub null_interrupts: Seq<u64>,
    pub mode_switches: u64,
    pub exceptions: u64,
    pub exception_log: Seq<ExceptionRecord>,
    pub idle: bool,
    pub hle_retry: bool,
    pub core: CoreMode,
    pub dyn_latched: bool,
}

/// A state of processor and memory, as the contracts speak of it.
pub struct Core {
    pub gpr: Seq<u32>,
    pub eip: u32,
    pub seg: Seq<SegCache>,
    pub model: CpuModel,
    pub cr0: u32,
    pub cr2: u32,
    pub cr3: u32,
    pub gdtr: DescTable,
    pub idtr: DescTable,
    pub ldtr: SegCache,
    pub tr: SegCache,
    pub cpl: u8,
    pub tlb: Seq<TlbEntry>,
    pub ram: Seq<u8>,
    pub a20: bool,
    pub flags: u32,
    pub irq_shadow: bool,
    pub rest: Rest,
}

impl View for Cpu {
    type V = Core;

    open spec fn view(&self) -> Core {
        Core {
            gpr: self.gpr@,
            eip: self.eip,
            seg: self.seg@,
            model: self.model,
            cr0: self.cr0,
            cr2: self.cr2,
            cr3: self.cr3,
            gdtr: self.gdtr,
            idtr: self.idtr,
            ldtr: self.ldtr,
            tr: self.tr,
            cpl: self.cpl,
            tlb: self.tlb.entries@,
            ram: self.bus.ram@,
            a20: self.bus.a20,
            flags: self.flags.bits,
            irq_shadow: self.irq_shadow,
            rest: Rest {
                dr: self.dr@,
                state: self.state,
                fpu: self.fpu@,
                process_stack: Seq::new(
                    self.process_stack@.len(),
                    |i: int| self.process_stack@[i]@,
                ),
                dos: self.dos@,
                executed: self.executed,
                null_interrupts: self.null_interrupts@,
                mode_switches: self.mode_switches,
                exceptions: self.exceptions,
                exception_log: self.exception_log@,
                idle: self.idle,
                hle_retry: self.hle_retry,
                core: self.core,
                dyn_latched: self.dyn_latched,
            },
        }
    }
}

impl Core {
    /// The registers are all there.
    pub open spec fn wf(self) -> bool {
        self.gpr.len() == 8 && self.seg.len() == 6 && self.tlb.len() == 2 * TLB_ENTRIES
    }
}

} // verus!
