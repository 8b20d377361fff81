//! What DOS keeps in the processor: the processes that wait for their
//! children, the environment, resident programs, and which core runs.

use std::collections::VecDeque;

use vstd::prelude::*;
use vstd::string::*;

use super::paging::no_entry;
use super::regs::{Seg, SegCache};
use super::state::{
    environment_of, Core, CoreMode, Cpu, CpuFlags, CpuModel, CpuSnapshot, CpuState, DescTable, Dos,
    DosState, Fpu, FpuFlags, FpuRegisters, Parent, ProcessContext, Registers, Rest, Tlb, CR0_ET,
    DEFAULT_MEMORY_MB, FPU_TAG_EMPTY,
};
use crate::bus::{byte_at, store_16, store_8, store_bytes, word_at, Bus};
use crate::disk::drives::DiskController;
use crate::disk::files::closed_for;
use crate::f80::F80;
use crate::text::{
    lower, lower_char, lowercase, same, same_but_case, trim, trimmed, upper, upper_char, uppercase,
};

verus! {

/// Where the environment of programs started from the shell lives. The
/// area below the first memory control block belongs to the shell.
pub const ENV_SEGMENT: u16 = 0x0C00;

/// Where the shell runs: its code at SHELL_SEGMENT:0100, its line buffers
/// at 0200 and 0300, and its stack below SHELL_STACK, in the memory between
/// the BIOS data area and the environment (ENV_SEGMENT), clear of the
/// interrupt vector table, whose vectors the BIOS and programs write.
pub const SHELL_SEGMENT: u16 = 0x0070;

pub const SHELL_STACK: u16 = 0x0F00;

/// Where the BIOS and its traps are.
pub const BIOS_SEGMENT: u16 = 0xF000;

/// A block of the memory control chain: where its control block is, whether
/// it is free, and its size in paragraphs.
#[derive(Clone, Copy, Debug, PartialEq, Eq, Structural)]
pub struct Block {
    pub segment: u16,
    pub free: bool,
    pub size: u16,
}

/// What became of a program that wants to stay resident.
#[derive(Clone, Copy, Debug, PartialEq, Eq, Structural)]
pub enum Resident {
    /// It stays in its upper memory block.
    Upper,
    /// It stays in conventional memory, up to this control block.
    UpTo(u16),
    /// There is no memory left above it.
    NoRoom,
}

/// What has to be done about upper memory.
#[derive(Clone, Copy, Debug, PartialEq, Eq, Structural)]
pub enum UpperMemory {
    Unchanged,
    /// It is built anew, with so many paragraphs or none at all.
    Rebuild(Option<u16>),
}

/// The core that a setting names.
pub open spec fn core_named(value: Seq<char>) -> Option<CoreMode> {
    let name = lower(trimmed(value));
    if name == "auto"@ {
        Some(CoreMode::Auto)
    } else if name == "dynamic"@ {
        Some(CoreMode::Dynamic)
    } else if name == "normal"@ {
        Some(CoreMode::Normal)
    } else {
        None
    }
}

pub open spec fn core_name(core: CoreMode) -> Seq<char> {
    match core {
        CoreMode::Auto => "auto"@,
        CoreMode::Dynamic => "dynamic"@,
        CoreMode::Normal => "normal"@,
    }
}

impl CoreMode {
    /// The core a setting names, whatever its case and the space around it.
    pub fn parse(value: &str) -> (core: Result<Self, String>)
        ensures
            match (core, core_named(value@)) {
                (Ok(c), Some(d)) => c == d,
                (Err(e), None) => e@ == "invalid core '"@ + trimmed(value@)
                    + "': expected auto, dynamic or normal"@,
                _ => false,
            },
    {
        let setting = trim(value);
        let name = lowercase(setting.as_str());
        if same(name.as_str(), "auto") {
            Ok(CoreMode::Auto)
        } else if same(name.as_str(), "dynamic") {
            Ok(CoreMode::Dynamic)
        } else if same(name.as_str(), "normal") {
            Ok(CoreMode::Normal)
        } else {
            let mut message = String::from_str("invalid core '");
            message.append(setting.as_str());
            message.append("': expected auto, dynamic or normal");
            Err(message)
        }
    }

    pub fn name(self) -> (name: &'static str)
        ensures
            name@ == core_name(self),
    {
        match self {
            CoreMode::Auto => "auto",
            CoreMode::Dynamic => "dynamic",
            CoreMode::Normal => "normal",
        }
    }

    /// The core a new CPU starts with: the one that `setting` names, if it
    /// is there and names one, otherwise the interpreter.
    pub fn initial(setting: Option<&str>) -> (core: Self)
        ensures
            core == (match setting {
                Some(value) => match core_named(value@) {
                    Some(c) => c,
                    None => CoreMode::Normal,
                },
                None => CoreMode::Normal,
            }),
    {
        match setting {
            Some(value) => match CoreMode::parse(value) {
                Ok(core) => core,
                Err(_) => CoreMode::Normal,
            },
            None => CoreMode::Normal,
        }
    }
}

/// The place of a variable in an environment, by its name in any case.
pub open spec fn variable_at(env: Seq<(Seq<char>, Seq<char>)>, name: Seq<char>, from: int) -> Option<
    int,
>
    decreases env.len() - from,
{
    if from < 0 || from >= env.len() {
        None
    } else if lower(env[from].0) == lower(name) {
        Some(from)
    } else {
        variable_at(env, name, from + 1)
    }
}

/// The place of a variable by its name as it is written.
pub open spec fn exact_variable_at(
    env: Seq<(Seq<char>, Seq<char>)>,
    name: Seq<char>,
    from: int,
) -> Option<int>
    decreases env.len() - from,
{
    if from < 0 || from >= env.len() {
        None
    } else if env[from].0 == name {
        Some(from)
    } else {
        exact_variable_at(env, name, from + 1)
    }
}

/// An environment with a variable set, or removed where the value is empty.
pub open spec fn variable_set(
    env: Seq<(Seq<char>, Seq<char>)>,
    name: Seq<char>,
    value: Seq<char>,
) -> Seq<(Seq<char>, Seq<char>)> {
    match exact_variable_at(env, upper(name), 0) {
        Some(i) => if value.len() == 0 {
            env.remove(i)
        } else {
            env.update(i, (env[i].0, value))
        },
        None => if value.len() == 0 {
            env
        } else {
            env.push((upper(name), value))
        },
    }
}

/// Variables in the DOS character set, each as NAME=VALUE with a zero behind
/// it.
pub open spec fn variable_bytes(vars: Seq<(Seq<u8>, Seq<u8>)>) -> Seq<u8>
    decreases vars.len(),
{
    if vars.len() == 0 {
        Seq::empty()
    } else {
        variable_bytes(vars.drop_last()) + vars.last().0 + seq![0x3Du8] + vars.last().1 + seq![0u8]
    }
}

/// An environment block: the variables, a zero (and one more where there are
/// none), the word 1 and the path of the program with a zero behind it.
pub open spec fn block_bytes(vars: Seq<(Seq<u8>, Seq<u8>)>, path: Seq<u8>) -> Seq<u8> {
    variable_bytes(vars) + (if vars.len() == 0 {
        seq![0u8]
    } else {
        Seq::empty()
    }) + seq![0u8, 1, 0] + path + seq![0u8]
}

pub open spec fn encoded_pairs(vars: Seq<(Vec<u8>, Vec<u8>)>) -> Seq<(Seq<u8>, Seq<u8>)> {
    Seq::new(vars.len(), |i: int| (vars[i].0@, vars[i].1@))
}

/// A command tail: what DOS passes of the arguments, with a space in front.
pub open spec fn command_tail(args: Seq<u8>) -> Seq<u8> {
    if args.len() == 0 {
        Seq::empty()
    } else {
        seq![0x20u8] + (if args.len() > 125 {
            args.take(125)
        } else {
            args
        })
    }
}

/// Memory with a command tail in the program segment prefix at `psp`: its
/// length, the text and a carriage return.
pub open spec fn tail_written(ram: Seq<u8>, psp: int, args: Seq<u8>) -> Seq<u8> {
    let tail = command_tail(args);
    store_8(
        store_bytes(store_8(ram, psp + 0x80, tail.len() as u8), psp + 0x81, tail),
        psp + 0x81 + tail.len(),
        0x0D,
    )
}

/// Where the last block in use below `cover` ends, or `otherwise`.
pub open spec fn last_used_end(chain: Seq<Block>, cover: u16, otherwise: u16) -> u16
    decreases chain.len(),
{
    if chain.len() == 0 {
        otherwise
    } else {
        let block = chain.last();
        let below = forall|i: int| 0 <= i < chain.len() ==> (#[trigger] chain[i]).segment < cover;
        if below && !block.free {
            let end = block.segment + 1 + block.size;
            if end > 0xFFFF {
                0xFFFF
            } else {
                end as u16
            }
        } else {
            last_used_end(chain.drop_last(), cover, otherwise)
        }
    }
}

impl Core {
    /// Whether the built-in shell runs with no program loaded: in its own
    /// segment, or in a trap of the BIOS that it called.
    pub open spec fn at_prompt(self) -> bool {
        let cs = self.cache(Seg::CS).selector;
        let frame = self.physical(
            self.cache(Seg::SS).selector,
            (self.esp() as u16).wrapping_add(2),
        );
        &&& self.rest.process_stack.len() == 0
        &&& cs == SHELL_SEGMENT || (cs == BIOS_SEGMENT && word_at(self.ram, frame as int)
            == SHELL_SEGMENT)
    }

    pub open spec fn with_dos(self, dos: DosState) -> Core {
        Core { rest: Rest { dos, ..self.rest }, ..self }
    }

    pub open spec fn registers(self) -> Registers {
        Registers { gpr: self.gpr, eip: self.eip, flags: self.flags, seg: self.seg }
    }

    pub open spec fn with_registers(self, regs: Registers) -> Core {
        Core { gpr: regs.gpr, eip: regs.eip, flags: regs.flags, seg: regs.seg, ..self }
    }

    /// The current process put aside for its child.
    pub open spec fn context_saved(self) -> Core {
        let parent = Parent {
            regs: self.registers(),
            psp: self.rest.dos.current_psp,
            heap_pointer: self.rest.dos.heap_pointer,
        };
        Core {
            rest: Rest { process_stack: self.rest.process_stack.push(parent), ..self.rest },
            ..self
        }
    }

    /// Back in the process that was put aside last.
    pub open spec fn context_restored(self) -> Core {
        let parent = self.rest.process_stack.last();
        let s = self.with_registers(parent.regs);
        Core {
            rest: Rest {
                process_stack: self.rest.process_stack.drop_last(),
                dyn_latched: false,
                dos: DosState {
                    current_psp: parent.psp,
                    heap_pointer: parent.heap_pointer,
                    ..self.rest.dos
                },
                ..self.rest
            },
            ..s
        }
    }

    /// Back in the parent, returning through the terminate address in the
    /// program segment prefix.
    pub open spec fn parent_resumed(self) -> Core {
        let psp = self.rest.dos.current_psp * 16;
        let ip = word_at(self.ram, psp + 0x0A);
        let cs = word_at(self.ram, psp + 0x0C);
        let s = self.context_restored();
        let frame = s.physical(s.cache(Seg::SS).selector, s.gpr[4] as u16);
        if ip == 0 && cs == 0 {
            s
        } else {
            Core { ram: store_16(store_16(s.ram, frame as int, ip), frame + 2, cs), ..s }
        }
    }

    /// The running program ended.
    pub open spec fn terminated(self, code: u8) -> Core {
        let s = self.with_dos(DosState { last_child_exit: code as u16, ..self.rest.dos });
        if s.rest.process_stack.len() > 0 {
            s.parent_resumed()
        } else {
            Core {
                rest: Rest {
                    state: CpuState::RebootShell,
                    dos: DosState { errorlevel: code, ..s.rest.dos },
                    ..s.rest
                },
                ..s
            }
        }
    }
}

/// The processor of a new machine with `ram`.
pub open spec fn powered_on(
    ram: Seq<u8>,
    a20: bool,
    first_mcb: u16,
    environment: Seq<(Seq<char>, Seq<char>)>,
    core: CoreMode,
) -> Core {
    Core {
        gpr: Seq::new(8, |i: int| 0u32),
        eip: 0x100,
        seg: Seq::new(6, |i: int| SegCache::spec_real(0)),
        model: CpuModel::I486,
        cr0: CR0_ET,
        cr2: 0,
        cr3: 0,
        gdtr: DescTable { base: 0, limit: 0xFFFF },
        idtr: DescTable { base: 0, limit: 0x3FF },
        ldtr: SegCache::spec_null(0),
        tr: SegCache::spec_null(0),
        cpl: 0,
        tlb: Seq::new(2048, |i: int| no_entry()),
        ram,
        a20,
        flags: 0x0202,
        irq_shadow: false,
        rest: Rest {
            dr: Seq::new(8, |i: int| 0u32),
            state: CpuState::Running,
            fpu: FpuRegisters {
                stack: Seq::new(8, |i: int| F80::spec_zero()),
                top: 0,
                flags: 0,
                control: 0x037F,
                tags: Seq::new(8, |i: int| FPU_TAG_EMPTY),
            },
            process_stack: Seq::empty(),
            dos: DosState {
                environment,
                current_psp: 0,
                heap_pointer: 0x2000,
                resident_end: first_mcb,
                resident_upper: Seq::empty(),
                last_child_exit: 0,
                errorlevel: 0,
                alloc_strategy: 0,
                con_pending_scan: None,
                bios_wait_until: None,
            },
            executed: 0,
            null_interrupts: Seq::new(4, |i: int| 0u64),
            mode_switches: 0,
            exceptions: 0,
            exception_log: Seq::empty(),
            idle: false,
            hle_retry: false,
            core,
            dyn_latched: false,
        },
    }
}

fn pair(name: &str, value: &str) -> (p: (String, String))
    ensures
        p.0@ == name@,
        p.1@ == value@,
{
    (String::from_str(name), String::from_str(value))
}

/// The environment at startup. BLASTER, ULTRASND and ULTRADIR advertise
/// the sound cards' resources as SET lines in AUTOEXEC.BAT would (the
/// configuration can change the cards).
pub fn default_environment(blaster: &str, ultrasnd: &str, ultradir: &str) -> (env: Vec<
    (String, String),
>)
    ensures
        environment_of(env@) == seq![
            ("PATH"@, "C:\\"@),
            ("COMSPEC"@, "Z:\\COMMAND.COM"@),
            ("BLASTER"@, blaster@),
            ("ULTRASND"@, ultrasnd@),
            ("ULTRADIR"@, ultradir@),
        ],
{
    let mut env: Vec<(String, String)> = Vec::new();
    env.push(pair("PATH", "C:\\"));
    env.push(pair("COMSPEC", "Z:\\COMMAND.COM"));
    env.push(pair("BLASTER", blaster));
    env.push(pair("ULTRASND", ultrasnd));
    env.push(pair("ULTRADIR", ultradir));
    assert(environment_of(env@) =~= seq![
        ("PATH"@, "C:\\"@),
        ("COMSPEC"@, "Z:\\COMMAND.COM"@),
        ("BLASTER"@, blaster@),
        ("ULTRASND"@, ultrasnd@),
        ("ULTRADIR"@, ultradir@),
    ]);
    env
}

impl Cpu {
    /// A CPU on a machine with the default amount of RAM, whose first memory
    /// control block is at `first_mcb`.
    pub fn new(first_mcb: u16, environment: Vec<(String, String)>, core: CoreMode) -> (cpu: Self)
        ensures
            cpu@ == powered_on(
                Seq::new(0x100_0000, |i: int| 0u8),
                false,
                first_mcb,
                environment_of(environment@),
                core,
            ),
    {
        Cpu::with_bus(Bus::new(DEFAULT_MEMORY_MB * 0x10_0000, false), first_mcb, environment, core)
    }

    /// A CPU on a machine with `memory_mb` MB of RAM.
    pub fn with_memory(
        memory_mb: usize,
        first_mcb: u16,
        environment: Vec<(String, String)>,
        core: CoreMode,
    ) -> (cpu: Self)
        requires
            memory_mb * 0x10_0000 <= usize::MAX,
        ensures
            cpu@ == powered_on(
                Seq::new((memory_mb * 0x10_0000) as nat, |i: int| 0u8),
                false,
                first_mcb,
                environment_of(environment@),
                core,
            ),
    {
        Cpu::with_bus(Bus::new(memory_mb * 0x10_0000, false), first_mcb, environment, core)
    }

    /// A CPU on a machine with this memory.
    pub fn with_bus(
        bus: Bus,
        first_mcb: u16,
        environment: Vec<(String, String)>,
        core: CoreMode,
    ) -> (cpu: Self)
        ensures
            cpu@ == powered_on(
                bus.ram@,
                bus.a20,
                first_mcb,
                environment_of(environment@),
                core,
            ),
    {
        let cpu = Cpu {
            gpr: [0;8],
            eip: 0x100,
            seg: [SegCache::real_mode(0);6],
            model: CpuModel::I486,
            cr0: CR0_ET,
            cr2: 0,
            cr3: 0,
            dr: [0;8],
            gdtr: DescTable { base: 0, limit: 0xFFFF },
            idtr: DescTable { base: 0, limit: 0x3FF },
            ldtr: SegCache::null(0),
            tr: SegCache::null(0),
            cpl: 0,
            tlb: Tlb::empty(),
            bus,
            // Bit 1 reserved, IF=1.
            flags: CpuFlags { bits: 0x0202 },
            state: CpuState::Running,
            irq_shadow: false,
            fpu: Fpu {
                stack: [F80::new();8],
                top: 0,
                flags: FpuFlags { bits: 0 },
                control: 0x037F,
                tags: [FPU_TAG_EMPTY;8],
            },
            process_stack: Vec::new(),
            dos: Dos {
                environment,
                current_psp: 0,
                heap_pointer: 0x2000,
                resident_end: first_mcb,
                resident_upper: Vec::new(),
                last_child_exit: 0,
                errorlevel: 0,
                alloc_strategy: 0,
                con_pending_scan: None,
                bios_wait_until: None,
            },
            executed: 0,
            null_interrupts: [0;4],
            mode_switches: 0,
            exceptions: 0,
            exception_log: VecDeque::new(),
            idle: false,
            hle_retry: false,
            core,
            dyn_latched: false,
        };
        proof {
            let on = powered_on(bus.ram@, bus.a20, first_mcb, environment_of(environment@), core);
            assert(cpu@.gpr =~= on.gpr);
            assert(cpu@.seg =~= on.seg);
            assert(cpu@.rest.dr =~= on.rest.dr);
            assert(cpu@.rest.fpu.stack =~= on.rest.fpu.stack);
            assert(cpu@.rest.fpu.tags =~= on.rest.fpu.tags);
            assert(cpu@.rest.process_stack =~= on.rest.process_stack);
            assert(cpu@.rest.null_interrupts =~= on.rest.null_interrupts);
            assert(cpu@.rest.exception_log =~= on.rest.exception_log);
            assert(cpu@.rest.dos.resident_upper =~= on.rest.dos.resident_upper);
        }
        cpu
    }

    /// Whether the dynamic recompiler runs the instructions now: always
    /// with the dynamic core, and with the automatic one once the running
    /// program has switched to protected mode. Never on a host it is not
    /// available on.
    pub fn dynamic_active(&self, available: bool) -> (yes: bool)
        ensures
            yes == (available && match self@.rest.core {
                CoreMode::Dynamic => true,
                CoreMode::Auto => self@.rest.dyn_latched,
                CoreMode::Normal => false,
            }),
    {
        available && match self.core {
            CoreMode::Dynamic => true,
            CoreMode::Auto => self.dyn_latched,
            CoreMode::Normal => false,
        }
    }

    /// A software interrupt found its vector at 0000:0000 and was skipped.
    /// Returns whether that is the first time for the vector.
    pub fn note_null_interrupt(&mut self, vector: u8) -> (first: bool)
        ensures
            ({
                let seen = old(self)@.rest.null_interrupts;
                let word = vector as int / 64;
                let bit = 1u64 << (vector % 64) as u64;
                &&& first == (seen[word] & bit == 0)
                &&& final(self)@ == (Core {
                    rest: Rest {
                        null_interrupts: if first {
                            seen.update(word, seen[word] | bit)
                        } else {
                            seen
                        },
                        ..old(self)@.rest
                    },
                    ..old(self)@
                })
            }),
    {
        let word: usize = vector as usize / 64;
        let bit: u64 = 1u64 << (vector % 64) as u64;
        if self.null_interrupts[word] & bit == 0 {
            self.null_interrupts[word] = self.null_interrupts[word] | bit;
            return true;
        }
        false
    }

    /// CR0.PE changed. Returns whether this is one of the first switches,
    /// which are worth a line in the log; DOS extenders then switch for every
    /// DOS call and interrupt.
    pub fn note_mode_switch(&mut self, protected: bool) -> (early: bool)
        requires
            old(self).mode_switches < u64::MAX,
        ensures
            early == (old(self)@.rest.mode_switches < 4),
            final(self)@ == (Core {
                rest: Rest {
                    mode_switches: (old(self)@.rest.mode_switches + 1) as u64,
                    dyn_latched: protected || old(self)@.rest.dyn_latched,
                    ..old(self)@.rest
                },
                ..old(self)@
            }),
    {
        self.mode_switches = self.mode_switches + 1;
        if protected {
            self.dyn_latched = true;
        }
        self.mode_switches <= 4
    }

    /// A BIOS or DOS service can't finish yet (no keystroke): run it again
    /// when the CPU gets back to it, after the interrupts that could bring
    /// what it waits for. The caller's return frame stays on the stack, so
    /// this works however the service was called (INT, or a far call with
    /// the flags pushed, as DOS extenders and TSRs chain interrupts).
    pub fn hle_wait(&mut self)
        ensures
            final(self)@ == (Core {
                rest: Rest { hle_retry: true, idle: true, ..old(self)@.rest },
                ..old(self)@
            }),
    {
        self.hle_retry = true;
        self.idle = true;
    }

    /// True while the built-in shell is running with no program loaded. At
    /// the prompt the shell spends half its time inside the INT 16h BIOS trap
    /// at F000, so a trap whose caller (the CS in the IRET frame on top of
    /// the stack) is the shell counts as well.
    pub fn shell_idle(&self) -> (yes: bool)
        ensures
            yes == self@.at_prompt(),
    {
        if self.process_stack.len() > 0 {
            return false;
        }
        if self.cs() == SHELL_SEGMENT {
            return true;
        }
        let at: usize = self.get_physical_addr(self.ss(), self.sp().wrapping_add(2));
        self.cs() == BIOS_SEGMENT && self.bus.read_16(at) == SHELL_SEGMENT
    }

    /// PSP segment for programs started from the shell: right above the
    /// resident TSRs.
    pub fn transient_segment(&self) -> (segment: u16)
        requires
            self.dos.resident_end < 0xFFFF,
        ensures
            segment == self@.rest.dos.resident_end + 1,
    {
        self.dos.resident_end + 1
    }

    /// How many paragraphs a program that stays resident keeps of its block:
    /// at least the 6 of the PSP itself.
    pub fn resident_paragraphs(paras: u16) -> (kept: u16)
        ensures
            kept == (if paras < 6 {
                6
            } else {
                paras
            }),
    {
        if paras < 6 {
            6
        } else {
            paras
        }
    }

    /// INT 21h AH=31h from a program started by the shell, whose block was
    /// shrunk already: keep it, plus any other block it owns, resident
    /// under the programs started afterwards. `chain` is the chain of memory
    /// control blocks, `cover` the one that covers upper memory and
    /// `low_end` the end of the memory below it.
    pub fn keep_resident(&mut self, psp: u16, chain: &[Block], cover: u16, low_end: u16) -> (kept:
        Resident)
        ensures
            ({
                let dos = old(self)@.rest.dos;
                let end = last_used_end(chain@, cover, dos.resident_end);
                if psp > cover {
                    &&& kept == Resident::Upper
                    &&& final(self)@ == old(self)@.with_dos(
                        DosState { resident_upper: dos.resident_upper.push(psp), ..dos },
                    )
                } else if end >= low_end {
                    kept == Resident::NoRoom && final(self)@ == old(self)@
                } else {
                    &&& kept == Resident::UpTo(end)
                    &&& final(self)@ == old(self)@.with_dos(DosState { resident_end: end, ..dos })
                }
            }),
    {
        // Loaded high: it stays in its upper memory block.
        if psp > cover {
            self.dos.resident_upper.push(psp);
            return Resident::Upper;
        }
        // The last block of conventional memory in use.
        let mut end: u16 = self.dos.resident_end;
        let mut i: usize = 0;
        assert(chain@.take(0) =~= Seq::<Block>::empty());
        while i < chain.len() && chain[i].segment < cover
            invariant
                i <= chain@.len(),
                forall|k: int| 0 <= k < i ==> (#[trigger] chain@[k]).segment < cover,
                end == last_used_end(chain@.take(i as int), cover, old(self)@.rest.dos.resident_end),
                *self == *old(self),
            decreases chain.len() - i,
        {
            let block = chain[i];
            proof {
                let more = chain@.take(i + 1);
                assert(more.drop_last() =~= chain@.take(i as int));
                assert(forall|k: int| 0 <= k < more.len() ==> (#[trigger] more[k]).segment < cover);
            }
            if !block.free {
                end = block.segment.saturating_add(1).saturating_add(block.size);
            }
            i = i + 1;
        }
        proof {
            lemma_rest_above(chain@, i as int, cover, old(self)@.rest.dos.resident_end);
            assert(chain@.take(chain@.len() as int) =~= chain@);
        }
        if end >= low_end {
            return Resident::NoRoom;
        }
        self.dos.resident_end = end;
        Resident::UpTo(end)
    }

    /// Save the architectural register state.
    pub fn snapshot(&self) -> (regs: CpuSnapshot)
        ensures
            regs@ == self@.registers(),
    {
        CpuSnapshot { gpr: self.gpr, eip: self.eip, flags: self.flags, seg: self.seg }
    }

    /// Put back a register state saved by `snapshot`.
    pub fn restore(&mut self, regs: &CpuSnapshot)
        ensures
            final(self)@ == old(self)@.with_registers(regs@),
    {
        self.gpr = regs.gpr;
        self.eip = regs.eip;
        self.flags = regs.flags;
        self.seg = regs.seg;
    }

    /// Put the current process aside for its child.
    pub fn save_process_context(&mut self)
        ensures
            final(self)@ == old(self)@.context_saved(),
    {
        let context = ProcessContext {
            regs: self.snapshot(),
            psp: self.dos.current_psp,
            heap_pointer: self.dos.heap_pointer,
        };
        self.process_stack.push(context);
        assert(self@.rest.process_stack =~= old(self)@.context_saved().rest.process_stack);
    }

    /// End the running program with the exit code `code` (INT 21h AH=4Ch,
    /// and 0 for INT 20h and AH=00h), its memory freed already: the code is
    /// kept for its parent (AH=4Dh), or as the ERRORLEVEL when the shell
    /// started it, which is then loaded again. The files that it opened on
    /// the drives `disk` are closed. Returns whether it went back to a parent.
    pub fn terminate(&mut self, disk: &mut DiskController, code: u8) -> (to_parent: bool)
        requires
            old(disk).wf(),
        ensures
            to_parent == (old(self)@.rest.process_stack.len() > 0),
            final(self)@ == old(self)@.terminated(code),
            final(disk).wf(),
            final(disk).same_but_files(*old(disk)),
            final(disk).open_files@ == closed_for(
                old(disk).open_files@,
                old(self)@.rest.dos.current_psp,
            ),
    {
        self.dos.last_child_exit = code as u16;
        disk.close_process_files(self.dos.current_psp);
        if self.return_to_parent() {
            return true;
        }
        self.dos.errorlevel = code;
        self.state = CpuState::RebootShell;
        false
    }

    /// End the current process: back to the parent's context, returning
    /// through the terminate address in the process's PSP (0Ah), which
    /// EXEC set to the parent's return address and debuggers change. The
    /// parent's stack holds the interrupt frame the return pops.
    pub fn return_to_parent(&mut self) -> (done: bool)
        ensures
            done == (old(self)@.rest.process_stack.len() > 0),
            final(self)@ == (if done {
                old(self)@.parent_resumed()
            } else {
                old(self)@
            }),
    {
        let psp: usize = self.dos.current_psp as usize * 16;
        let ip: u16 = self.bus.read_16(psp + 0x0A);
        let cs: u16 = self.bus.read_16(psp + 0x0C);
        if !self.restore_process_context() {
            return false;
        }
        if ip != 0 || cs != 0 {
            let frame: usize = self.get_physical_addr(self.ss(), self.sp());
            proof {
                lemma_physical_bound(self@, self@.cache(Seg::SS).selector, self@.gpr[4] as u16);
            }
            self.bus.write_16(frame, ip);
            self.bus.write_16(frame + 2, cs);
        }
        true
    }

    /// Back to the process that was put aside last, if there is one.
    pub fn restore_process_context(&mut self) -> (done: bool)
        ensures
            done == (old(self)@.rest.process_stack.len() > 0),
            final(self)@ == (if done {
                old(self)@.context_restored()
            } else {
                old(self)@
            }),
    {
        match self.process_stack.pop() {
            Some(context) => {
                // The program ended: the automatic core goes back to the
                // interpreter.
                self.dyn_latched = false;
                self.restore(&context.regs);
                self.dos.current_psp = context.psp;
                self.dos.heap_pointer = context.heap_pointer;
                assert(self@.rest.process_stack =~= old(
                    self,
                )@.context_restored().rest.process_stack);
                true
            },
            None => {
                assert(self@.rest.process_stack =~= old(self)@.rest.process_stack);
                false
            },
        }
    }

    /// A variable of the master environment.
    pub fn get_env(&self, name: &str) -> (value: Option<&str>)
        ensures
            match (value, variable_at(self@.rest.dos.environment, name@, 0)) {
                (Some(v), Some(i)) => v@ == self@.rest.dos.environment[i].1,
                (None, None) => true,
                _ => false,
            },
    {
        let mut i: usize = 0;
        while i < self.dos.environment.len()
            invariant
                i <= self.dos.environment@.len(),
                variable_at(self@.rest.dos.environment, name@, i as int) == variable_at(
                    self@.rest.dos.environment,
                    name@,
                    0,
                ),
            decreases self.dos.environment.len() - i,
        {
            if same_but_case(self.dos.environment[i].0.as_str(), name) {
                return Some(self.dos.environment[i].1.as_str());
            }
            i = i + 1;
        }
        None
    }

    fn env_position(&self, name: &str) -> (place: Option<usize>)
        ensures
            match (place, exact_variable_at(self@.rest.dos.environment, name@, 0)) {
                (Some(v), Some(i)) => v == i && i < self.dos.environment@.len(),
                (None, None) => true,
                _ => false,
            },
    {
        let mut i: usize = 0;
        while i < self.dos.environment.len()
            invariant
                i <= self.dos.environment@.len(),
                exact_variable_at(self@.rest.dos.environment, name@, i as int)
                    == exact_variable_at(self@.rest.dos.environment, name@, 0),
            decreases self.dos.environment.len() - i,
        {
            if same(self.dos.environment[i].0.as_str(), name) {
                return Some(i);
            }
            i = i + 1;
        }
        None
    }

    /// Set a variable of the master environment, or remove it when `value`
    /// is empty. Names are upper case, as COMMAND.COM stores them.
    pub fn set_env(&mut self, name: &str, value: &str)
        ensures
            final(self)@ == old(self)@.with_dos(
                DosState {
                    environment: variable_set(old(self)@.rest.dos.environment, name@, value@),
                    ..old(self)@.rest.dos
                },
            ),
    {
        let key = uppercase(name);
        let empty = value.unicode_len() == 0;
        let existing: Option<usize> = self.env_position(key.as_str());
        match existing {
            Some(i) => {
                let (old_name, _): (String, String) = self.dos.environment.remove(i);
                if !empty {
                    self.dos.environment.insert(i, (old_name, String::from_str(value)));
                }
            },
            None => {
                if !empty {
                    self.dos.environment.push((key, String::from_str(value)));
                }
            },
        }
        assert(self@.rest.dos.environment =~= variable_set(
            old(self)@.rest.dos.environment,
            name@,
            value@,
        ));
    }

    /// An environment block with the variables of an environment, in the DOS
    /// character set, followed, as DOS 3+ does, by a word count of 1 and the
    /// program's fully qualified path. Programs find their own directory (and
    /// DOS extenders their own EXE file) through that path.
    pub fn environment_block(variables: &Vec<(Vec<u8>, Vec<u8>)>, program_path: &[u8]) -> (block:
        Vec<u8>)
        ensures
            block@ == block_bytes(encoded_pairs(variables@), program_path@),
    {
        let ghost vars = encoded_pairs(variables@);
        let mut block: Vec<u8> = Vec::new();
        let mut i: usize = 0;
        assert(vars.take(0) =~= Seq::<(Seq<u8>, Seq<u8>)>::empty());
        assert(block@ =~= variable_bytes(vars.take(0)));
        while i < variables.len()
            invariant
                i <= variables@.len(),
                vars == encoded_pairs(variables@),
                block@ == variable_bytes(vars.take(i as int)),
            decreases variables.len() - i,
        {
            block.extend_from_slice(variables[i].0.as_slice());
            block.push(0x3D);
            block.extend_from_slice(variables[i].1.as_slice());
            block.push(0);
            proof {
                let more = vars.take(i + 1);
                assert(more.drop_last() =~= vars.take(i as int));
                assert(block@ =~= variable_bytes(more));
            }
            i = i + 1;
        }
        assert(vars.take(i as int) =~= vars);
        if variables.len() == 0 {
            block.push(0);
        }
        block.push(0);
        block.push(1);
        block.push(0);
        block.extend_from_slice(program_path);
        block.push(0);
        assert(block@ =~= block_bytes(vars, program_path@));
        block
    }

    /// Write a program's command tail to its PSP (offset 80h: length, the
    /// text, CR). DOS passes the arguments with their leading space. `args`
    /// are the arguments without the space around them, in the DOS character
    /// set.
    pub fn set_command_tail(&mut self, psp: u16, args: &[u8])
        ensures
            final(self)@ == (Core {
                ram: tail_written(old(self)@.ram, old(self)@.physical(psp, 0) as int, args@),
                ..old(self)@
            }),
    {
        let mut tail: Vec<u8> = Vec::new();
        if args.len() > 0 {
            tail.push(0x20);
            let n: usize = if args.len() > 125 {
                125
            } else {
                args.len()
            };
            tail.extend_from_slice(vstd::slice::slice_subrange(args, 0, n));
        }
        assert(args@.subrange(0, args@.len() as int) =~= args@);
        assert(tail@ =~= command_tail(args@));
        proof {
            lemma_physical_bound(self@, psp, 0);
        }
        let at: usize = self.get_physical_addr(psp, 0);
        self.bus.write_8(at + 0x80, tail.len() as u8);
        self.bus.load_bytes(at + 0x81, tail.as_slice());
        self.bus.write_8(at + 0x81 + tail.len(), 0x0D);
    }

    /// Turn expanded memory and upper memory blocks on or off, with no
    /// program running: what has to be done where upper memory has `current`
    /// paragraphs. Upper memory holding resident programs stays as it
    /// is until the emulator starts again.
    pub fn set_upper_memory(&self, current: Option<u16>, ems: bool, umb: bool) -> (plan: Result<
        UpperMemory,
        String,
    >)
        ensures
            ({
                // With EMS, its page frame takes the upper half of upper memory.
                let wanted: Option<u16> = if !umb {
                    None
                } else if ems {
                    Some(0x1000)
                } else {
                    Some(0x2000)
                };
                match plan {
                    Ok(UpperMemory::Unchanged) => current == wanted,
                    Ok(UpperMemory::Rebuild(size)) => current != wanted && size == wanted
                        && self@.rest.dos.resident_upper.len() == 0,
                    Err(message) => current != wanted && self@.rest.dos.resident_upper.len() > 0
                        && message@
                        == "Upper memory holds resident programs: it changes the next time rust-dos starts"@,
                }
            }),
    {
        let wanted: Option<u16> = if !umb {
            None
        } else if ems {
            Some(0x1000)
        } else {
            Some(0x2000)
        };
        let unchanged = match (current, wanted) {
            (Some(a), Some(b)) => a == b,
            (None, None) => true,
            _ => false,
        };
        if unchanged {
            return Ok(UpperMemory::Unchanged);
        }
        if self.dos.resident_upper.len() > 0 {
            return Err(
                String::from_str(
                    "Upper memory holds resident programs: it changes the next time rust-dos starts",
                ),
            );
        }
        Ok(UpperMemory::Rebuild(wanted))
    }

    /// Conventional memory was laid out afresh for another machine, at the
    /// prompt, with its first free control block at `first_free`: the
    /// resident programs go, and the programs loaded high.
    pub fn relayout_conventional(&mut self, first_free: u16)
        ensures
            final(self)@ == old(self)@.with_dos(
                DosState {
                    resident_end: first_free,
                    resident_upper: Seq::empty(),
                    ..old(self)@.rest.dos
                },
            ),
    {
        self.dos.resident_end = first_free;
        self.dos.resident_upper.clear();
    }

    /// Throw away what was worked out from the machine's memory and
    /// registers before a load: the paging's cached translations.
    pub fn forget_caches(&mut self)
        ensures
            final(self)@ == (Core { tlb: Seq::new(2048, |i: int| no_entry()), ..old(self)@ }),
    {
        self.tlb.flush();
    }
}

/// Blocks from `n` on do not count, where the one at `n` is not below the
/// cover.
proof fn lemma_rest_above(chain: Seq<Block>, n: int, cover: u16, otherwise: u16)
    requires
        0 <= n <= chain.len(),
        n < chain.len() ==> chain[n].segment >= cover,
    ensures
        last_used_end(chain, cover, otherwise) == last_used_end(chain.take(n), cover, otherwise),
    decreases chain.len(),
{
    if n < chain.len() {
        assert(chain[n].segment >= cover);
        let less = chain.drop_last();
        if n < less.len() {
            assert(less[n] == chain[n]);
        }
        lemma_rest_above(less, n, cover, otherwise);
        assert(less.take(n) =~= chain.take(n));
    } else {
        assert(chain.take(n) =~= chain);
    }
}

pub proof fn lemma_physical_bound(s: Core, segment: u16, offset: u16)
    ensures
        s.physical(segment, offset) <= 0x11_0000,
{
    super::flags::law_real_addresses(s, segment, offset);
}

/// A process that is put aside comes back as it was, whatever its child left
/// in the registers and wherever memory stands.
pub proof fn law_context_comes_back(s: Core, t: Core)
    requires
        t.rest.process_stack == s.context_saved().rest.process_stack,
    ensures
        t.context_restored().registers() == s.registers(),
        t.context_restored().rest.dos.current_psp == s.rest.dos.current_psp,
        t.context_restored().rest.dos.heap_pointer == s.rest.dos.heap_pointer,
        t.context_restored().rest.process_stack == s.rest.process_stack,
{
    assert(s.context_saved().rest.process_stack.drop_last() =~= s.rest.process_stack);
}

/// A snapshot that is restored gives back the registers and nothing else.
pub proof fn law_snapshot_restores(s: Core, t: Core)
    ensures
        t.with_registers(s.registers()).registers() == s.registers(),
        t.with_registers(s.registers()) == (Core {
            gpr: s.gpr,
            eip: s.eip,
            flags: s.flags,
            seg: s.seg,
            ..t
        }),
{
}

proof fn lemma_upper_lower(text: Seq<char>)
    ensures
        lower(upper(text)) == lower(text),
{
    assert(lower(upper(text)) =~= lower(text));
}

proof fn lemma_variable_found(
    env: Seq<(Seq<char>, Seq<char>)>,
    name: Seq<char>,
    from: int,
    place: int,
)
    requires
        0 <= from <= place < env.len(),
        lower(env[place].0) == lower(name),
        forall|i: int| from <= i < place ==> lower(#[trigger] env[i].0) != lower(name),
    ensures
        variable_at(env, name, from) == Some(place),
    decreases place - from,
{
    if from < place {
        assert(lower(env[from].0) != lower(name));
        lemma_variable_found(env, name, from + 1, place);
    }
}

proof fn lemma_exact_place(env: Seq<(Seq<char>, Seq<char>)>, name: Seq<char>, from: int)
    requires
        0 <= from <= env.len(),
    ensures
        match exact_variable_at(env, name, from) {
            Some(p) => from <= p < env.len() && env[p].0 == name,
            None => forall|i: int| from <= i < env.len() ==> (#[trigger] env[i]).0 != name,
        },
    decreases env.len() - from,
{
    if from < env.len() && env[from].0 != name {
        lemma_exact_place(env, name, from + 1);
    }
}

/// Whether all names of an environment are in upper case and no two are the
/// same.
pub open spec fn names_ok(env: Seq<(Seq<char>, Seq<char>)>) -> bool {
    &&& forall|i: int| 0 <= i < env.len() ==> upper((#[trigger] env[i]).0) == env[i].0
    &&& forall|i: int, j: int|
        0 <= i < j < env.len() ==> (#[trigger] env[i]).0 != (#[trigger] env[j]).0
}

/// Where letters go when their case changes.
proof fn lemma_letters(c: char)
    ensures
        'A' <= c <= 'Z' ==> lower_char(c) as u32 == c as u32 + 32,
        'a' <= c <= 'z' ==> upper_char(c) as u32 == c as u32 - 32,
{
}

proof fn lemma_same_letter(a: char, b: char)
    requires
        upper_char(a) == a,
        upper_char(b) == b,
        lower_char(a) == lower_char(b),
    ensures
        a == b,
{
    lemma_letters(a);
    lemma_letters(b);
    assert(!('a' <= a <= 'z'));
    assert(!('a' <= b <= 'z'));
    let x = a as u32;
    let y = b as u32;
    if 'A' <= a <= 'Z' && 'A' <= b <= 'Z' {
        assert(x == y);
    } else if 'A' <= a <= 'Z' {
        assert(y == x + 32);
        assert('a' <= b <= 'z');
    } else if 'A' <= b <= 'Z' {
        assert(x == y + 32);
        assert('a' <= a <= 'z');
    }
}

proof fn lemma_lower_upper_same(a: Seq<char>, b: Seq<char>)
    requires
        upper(a) == a,
        upper(b) == b,
        lower(a) == lower(b),
    ensures
        a == b,
{
    assert(lower(a).len() == a.len());
    assert(lower(b).len() == b.len());
    assert forall|i: int| 0 <= i < a.len() implies a[i] == b[i] by {
        assert(upper(a)[i] == a[i]);
        assert(upper(b)[i] == b[i]);
        assert(lower(a)[i] == lower(b)[i]);
        assert(lower(a)[i] == lower_char(a[i]));
        assert(lower(b)[i] == lower_char(b[i]));
        lemma_same_letter(a[i], b[i]);
    }
    assert(a =~= b);
}

proof fn lemma_upper_twice(text: Seq<char>)
    ensures
        upper(upper(text)) == upper(text),
{
    assert(upper(upper(text)) =~= upper(text));
}

/// A variable that was set reads back, by its name in any case, and one that
/// was set to nothing is gone; setting one keeps names in upper case and
/// each of them once.
pub proof fn law_variable_reads_back(
    env: Seq<(Seq<char>, Seq<char>)>,
    name: Seq<char>,
    value: Seq<char>,
    asked: Seq<char>,
)
    requires
        names_ok(env),
        lower(asked) == lower(name),
    ensures
        names_ok(variable_set(env, name, value)),
        value.len() > 0 ==> (variable_at(variable_set(env, name, value), asked, 0) matches Some(i)
            && variable_set(env, name, value)[i].1 == value),
        value.len() == 0 ==> variable_at(variable_set(env, name, value), asked, 0) is None,
{
    let key = upper(name);
    let after = variable_set(env, name, value);
    lemma_exact_place(env, key, 0);
    lemma_upper_twice(name);
    lemma_upper_lower(name);
    assert(names_ok(after)) by {
        match exact_variable_at(env, key, 0) {
            Some(p) => {
                if value.len() == 0 {
                    assert forall|i: int| 0 <= i < after.len() implies upper(
                        (#[trigger] after[i]).0,
                    ) == after[i].0 by {
                        assert(after[i] == env[if i < p {
                            i
                        } else {
                            i + 1
                        }]);
                    }
                    assert forall|i: int, j: int| 0 <= i < j < after.len() implies (
                    #[trigger] after[i]).0 != (#[trigger] after[j]).0 by {
                        assert(after[i] == env[if i < p {
                            i
                        } else {
                            i + 1
                        }]);
                        assert(after[j] == env[if j < p {
                            j
                        } else {
                            j + 1
                        }]);
                    }
                }
            },
            None => {},
        }
    }
    let place: int = match exact_variable_at(env, key, 0) {
        Some(p) => p,
        None => env.len() as int,
    };
    if value.len() > 0 {
        assert(after[place].0 == key);
        assert forall|i: int| 0 <= i < place implies lower(#[trigger] after[i].0) != lower(
            asked,
        ) by {
            if lower(after[i].0) == lower(asked) {
                lemma_lower_upper_same(after[i].0, key);
            }
        }
        lemma_variable_found(after, asked, 0, place);
    } else {
        assert forall|i: int| 0 <= i < after.len() implies lower(#[trigger] after[i].0) != lower(
            asked,
        ) by {
            if lower(after[i].0) == lower(asked) {
                lemma_lower_upper_same(after[i].0, key);
                if exact_variable_at(env, key, 0) is Some {
                    assert(after[i] == env[if i < place {
                        i
                    } else {
                        i + 1
                    }]);
                }
            }
        }
        lemma_variable_missing(after, asked, 0);
    }
}

proof fn lemma_variable_missing(env: Seq<(Seq<char>, Seq<char>)>, name: Seq<char>, from: int)
    requires
        0 <= from <= env.len(),
        forall|i: int| from <= i < env.len() ==> lower(#[trigger] env[i].0) != lower(name),
    ensures
        variable_at(env, name, from) is None,
    decreases env.len() - from,
{
    if from < env.len() {
        assert(lower(env[from].0) != lower(name));
        lemma_variable_missing(env, name, from + 1);
    }
}

/// The command tail in a program segment prefix: its length, the arguments
/// behind a blank, as far as 125 of them go, and a carriage return.
pub proof fn law_command_tail(ram: Seq<u8>, psp: int, args: Seq<u8>, i: int)
    requires
        0 <= psp,
        psp + 0x100 <= ram.len(),
        0 <= i < args.len(),
        i < 125,
    ensures
        ({
            let after = tail_written(ram, psp, args);
            let len = byte_at(after, psp + 0x80) as int;
            &&& len == 1 + (if args.len() > 125 {
                125
            } else {
                args.len() as int
            })
            &&& byte_at(after, psp + 0x81) == 0x20
            &&& byte_at(after, psp + 0x82 + i) == args[i]
            &&& byte_at(after, psp + 0x81 + len) == 0x0D
            &&& forall|a: int|
                a < psp + 0x80 || a > psp + 0x81 + len ==> byte_at(after, a) == #[trigger] byte_at(
                    ram,
                    a,
                )
        }),
{
    let tail = command_tail(args);
    assert(tail.len() <= 126);
    assert(tail[i + 1] == args[i]);
}

/// Resident programs end behind the last block in use that lies, with all
/// before it, below the given segment.
pub proof fn law_last_used_end(chain: Seq<Block>, cover: u16, otherwise: u16, i: int)
    requires
        0 <= i < chain.len(),
        forall|j: int| 0 <= j <= i ==> (#[trigger] chain[j]).segment < cover,
        !chain[i].free,
        forall|j: int| i < j < chain.len() ==> (#[trigger] chain[j]).free || chain[j].segment >= cover,
        chain[i].segment + 1 + chain[i].size <= 0xFFFF,
    ensures
        last_used_end(chain, cover, otherwise) == chain[i].segment + 1 + chain[i].size,
    decreases chain.len(),
{
    let last = chain.len() - 1;
    if i < last {
        assert(chain[last].free || chain[last].segment >= cover);
        let less = chain.drop_last();
        assert(less[i] == chain[i]);
        assert forall|j: int| 0 <= j <= i implies (#[trigger] less[j]).segment < cover by {
            assert(less[j] == chain[j]);
        }
        assert forall|j: int| i < j < less.len() implies (#[trigger] less[j]).free || less[j].segment
            >= cover by {
            assert(less[j] == chain[j]);
        }
        law_last_used_end(less, cover, otherwise, i);
    }
}

} // verus!
