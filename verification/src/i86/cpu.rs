//! Registers, flags, stack and floating point stack of the 16-bit processor.

use vstd::prelude::*;

use crate::bits::{even_parity, low_byte, parity_even, with_flag16};
use crate::bus::{dword_at, store_16, word_at, Bus};
use crate::decode::{MemorySize, Register};
use crate::f80::F80;

verus! {

/// Tag of a floating point register that holds nothing.
pub const FPU_TAG_EMPTY: u8 = 1;

/// Tag of a floating point register that holds a number.
pub const FPU_TAG_VALID: u8 = 0;

/// Bits of the flags register.
pub const CF: u16 = 0x0001;

pub const PF: u16 = 0x0004;

pub const AF: u16 = 0x0010;

pub const ZF: u16 = 0x0040;

pub const SF: u16 = 0x0080;

pub const TF: u16 = 0x0100;

pub const IF: u16 = 0x0200;

pub const DF: u16 = 0x0400;

pub const OF: u16 = 0x0800;

/// The flags that programs set and clear.
pub const DECLARED_FLAGS: u16 = 0x0FD5;

/// The bit of the flags register that is always set.
pub const RESERVED_ONE: u16 = 0x0002;

/// The bits that the processor keeps of its flags: both of these.
pub const KEPT_FLAGS: u16 = 0x0FD7;

/// The bits that the floating point unit keeps of its status.
pub const DECLARED_FPU_FLAGS: u16 = 0xC7FF;

/// A value of the flags register.
#[derive(Clone, Copy, Debug, PartialEq, Eq, Structural)]
pub struct CpuFlags {
    pub bits: u16,
}

impl CpuFlags {
    /// The bits among `bits` that the processor keeps.
    pub fn from_bits_truncate(bits: u16) -> (flags: CpuFlags)
        ensures
            flags.bits == bits & KEPT_FLAGS,
    {
        CpuFlags { bits: bits & KEPT_FLAGS }
    }

    pub fn bits(&self) -> (bits: u16)
        ensures
            bits == self.bits,
    {
        self.bits
    }
}

/// A value of the floating point unit's status flags, without the stack top.
#[derive(Clone, Copy, Debug, PartialEq, Eq, Structural)]
pub struct FpuFlags {
    pub bits: u16,
}

impl FpuFlags {
    /// The declared flags among `bits`.
    pub fn from_bits_truncate(bits: u16) -> (flags: FpuFlags)
        ensures
            flags.bits == bits & DECLARED_FPU_FLAGS,
    {
        FpuFlags { bits: bits & DECLARED_FPU_FLAGS }
    }

    pub fn bits(&self) -> (bits: u16)
        ensures
            bits == self.bits,
    {
        self.bits
    }
}

/// What the processor is doing.
#[derive(Clone, Copy, Debug, PartialEq, Eq, Structural)]
pub enum CpuState {
    Running,
    Halted,
    RebootShell,
}

/// The registers of a program that waits for another to end.
#[derive(Clone, Copy, Debug, PartialEq, Eq, Structural)]
pub struct ProcessContext {
    pub ax: u16,
    pub bx: u16,
    pub cx: u16,
    pub dx: u16,
    pub si: u16,
    pub di: u16,
    pub bp: u16,
    pub sp: u16,
    pub cs: u16,
    pub ds: u16,
    pub es: u16,
    pub ss: u16,
    pub ip: u16,
    pub flags: CpuFlags,
    pub psp: u16,
    pub heap_pointer: u16,
}

/// The processor and the memory it runs on.
pub struct Cpu {
    pub ax: u16,
    pub bx: u16,
    pub cx: u16,
    pub dx: u16,
    pub di: u16,
    pub si: u16,
    pub bp: u16,
    pub sp: u16,
    pub cs: u16,
    pub ds: u16,
    pub es: u16,
    pub ss: u16,
    pub ip: u16,
    pub bus: Bus,
    pub flags: CpuFlags,
    pub state: CpuState,
    pub pending_command: Option<String>,
    pub current_psp: u16,
    pub heap_pointer: u16,
    pub fpu_stack: [F80; 8],
    pub fpu_top: usize,
    pub fpu_flags: FpuFlags,
    pub fpu_control: u16,
    pub fpu_tags: [u8; 8],
    pub debug_qb_print: bool,
    pub last_fstp_addr: usize,
    pub process_stack: Vec<ProcessContext>,
    pub last_timer_tick: u128,
}

/// What instructions other than those of the floating point unit leave alone.
pub struct Rest {
    pub a20: bool,
    pub state: CpuState,
    pub pending_command: Option<String>,
    pub current_psp: u16,
    pub heap_pointer: u16,
    pub fpu_stack: Seq<F80>,
    pub fpu_top: usize,
    pub fpu_flags: FpuFlags,
    pub fpu_control: u16,
    pub fpu_tags: Seq<u8>,
    pub debug_qb_print: bool,
    pub last_fstp_addr: usize,
    pub process_stack: Seq<ProcessContext>,
    pub last_timer_tick: u128,
}

/// A state of the machine, as the contracts speak of it.
pub struct Machine {
    pub ax: u16,
    pub bx: u16,
    pub cx: u16,
    pub dx: u16,
    pub di: u16,
    pub si: u16,
    pub bp: u16,
    pub sp: u16,
    pub cs: u16,
    pub ds: u16,
    pub es: u16,
    pub ss: u16,
    pub ip: u16,
    pub flags: u16,
    pub ram: Seq<u8>,
    pub rest: Rest,
}

/// What the flags register holds once bits are loaded into it: the flags
/// among them, with the reserved bit set.
pub open spec fn loaded_flags(bits: u16) -> u16 {
    (bits & DECLARED_FLAGS) | RESERVED_ONE
}

/// The address of `segment:offset`, which wraps at one megabyte.
pub open spec fn physical(segment: u16, offset: u16) -> int {
    (segment * 16 + offset) % 0x10_0000
}

/// The registers that hold a word.
pub open spec fn is_word_register(reg: Register) -> bool {
    match reg {
        Register::AX | Register::BX | Register::CX | Register::DX | Register::SI | Register::DI
        | Register::BP | Register::SP | Register::ES | Register::DS | Register::SS
        | Register::CS => true,
        _ => false,
    }
}

/// The registers that hold a byte.
pub open spec fn is_byte_register(reg: Register) -> bool {
    match reg {
        Register::AL | Register::CL | Register::DL | Register::BL | Register::AH | Register::CH
        | Register::DH | Register::BH => true,
        _ => false,
    }
}

/// A word with its low or its high byte replaced.
pub open spec fn with_low(word: u16, value: u8) -> u16 {
    (word & 0xFF00) | (value as u16)
}

pub open spec fn with_high(word: u16, value: u8) -> u16 {
    (word & 0x00FF) | ((value as u16) << 8)
}

impl Machine {
    /// The value of a word register; other registers read as zero.
    pub open spec fn reg16(self, reg: Register) -> u16 {
        match reg {
            Register::AX => self.ax,
            Register::BX => self.bx,
            Register::CX => self.cx,
            Register::DX => self.dx,
            Register::SI => self.si,
            Register::DI => self.di,
            Register::BP => self.bp,
            Register::SP => self.sp,
            Register::ES => self.es,
            Register::DS => self.ds,
            Register::CS => self.cs,
            Register::SS => self.ss,
            _ => 0,
        }
    }

    /// Other registers than word registers stay as they are.
    #[verifier::opaque]
    pub open spec fn with_reg16(self, reg: Register, value: u16) -> Machine {
        match reg {
            Register::AX => Machine { ax: value, ..self },
            Register::BX => Machine { bx: value, ..self },
            Register::CX => Machine { cx: value, ..self },
            Register::DX => Machine { dx: value, ..self },
            Register::SI => Machine { si: value, ..self },
            Register::DI => Machine { di: value, ..self },
            Register::BP => Machine { bp: value, ..self },
            Register::SP => Machine { sp: value, ..self },
            Register::ES => Machine { es: value, ..self },
            Register::DS => Machine { ds: value, ..self },
            Register::CS => Machine { cs: value, ..self },
            Register::SS => Machine { ss: value, ..self },
            _ => self,
        }
    }

    /// The value of a byte register; other registers read as zero.
    pub open spec fn reg8(self, reg: Register) -> u8 {
        match reg {
            Register::AL => low_byte(self.ax),
            Register::AH => (self.ax >> 8) as u8,
            Register::BL => low_byte(self.bx),
            Register::BH => (self.bx >> 8) as u8,
            Register::CL => low_byte(self.cx),
            Register::CH => (self.cx >> 8) as u8,
            Register::DL => low_byte(self.dx),
            Register::DH => (self.dx >> 8) as u8,
            _ => 0,
        }
    }

    /// Other registers than byte registers stay as they are.
    #[verifier::opaque]
    pub open spec fn with_reg8(self, reg: Register, value: u8) -> Machine {
        match reg {
            Register::AL => Machine { ax: with_low(self.ax, value), ..self },
            Register::AH => Machine { ax: with_high(self.ax, value), ..self },
            Register::BL => Machine { bx: with_low(self.bx, value), ..self },
            Register::BH => Machine { bx: with_high(self.bx, value), ..self },
            Register::CL => Machine { cx: with_low(self.cx, value), ..self },
            Register::CH => Machine { cx: with_high(self.cx, value), ..self },
            Register::DL => Machine { dx: with_low(self.dx, value), ..self },
            Register::DH => Machine { dx: with_high(self.dx, value), ..self },
            _ => self,
        }
    }

    pub open spec fn segment(self, reg: Register) -> u16 {
        match reg {
            Register::ES => self.es,
            Register::CS => self.cs,
            Register::SS => self.ss,
            Register::DS => self.ds,
            Register::FS => 0,
            Register::GS => 0,
            _ => self.ds,
        }
    }

    pub open spec fn flag(self, mask: u16) -> bool {
        self.flags & mask != 0
    }

    pub open spec fn set_flag(self, mask: u16, on: bool) -> Machine {
        Machine { flags: with_flag16(self.flags, mask, on), ..self }
    }

    /// The stack grows down by one word.
    pub open spec fn pushed(self, value: u16) -> Machine {
        let sp = ((self.sp - 2) % 0x1_0000) as u16;
        Machine { sp, ram: store_16(self.ram, physical(self.ss, sp), value), ..self }
    }

    /// The word on top of the stack, and the stack without it.
    pub open spec fn top(self) -> u16 {
        word_at(self.ram, physical(self.ss, self.sp))
    }

    pub open spec fn popped(self) -> Machine {
        Machine { sp: ((self.sp + 2) % 0x1_0000) as u16, ..self }
    }

    /// What a waiting program is remembered by.
    pub open spec fn context(self) -> ProcessContext {
        ProcessContext {
            ax: self.ax,
            bx: self.bx,
            cx: self.cx,
            dx: self.dx,
            si: self.si,
            di: self.di,
            bp: self.bp,
            sp: self.sp,
            cs: self.cs,
            ds: self.ds,
            es: self.es,
            ss: self.ss,
            ip: self.ip,
            flags: CpuFlags { bits: self.flags },
            psp: self.rest.current_psp,
            heap_pointer: self.rest.heap_pointer,
        }
    }

    /// The machine with a context's registers and `stack` for its waiting
    /// programs.
    pub open spec fn resumed(self, context: ProcessContext, stack: Seq<ProcessContext>) -> Machine {
        Machine {
            ax: context.ax,
            bx: context.bx,
            cx: context.cx,
            dx: context.dx,
            si: context.si,
            di: context.di,
            bp: context.bp,
            sp: context.sp,
            cs: context.cs,
            ds: context.ds,
            es: context.es,
            ss: context.ss,
            ip: context.ip,
            flags: context.flags.bits,
            ram: self.ram,
            rest: Rest {
                current_psp: context.psp,
                heap_pointer: context.heap_pointer,
                process_stack: stack,
                ..self.rest
            },
        }
    }

    /// The machine after the running program's context is put aside.
    pub open spec fn context_saved(self) -> Machine {
        Machine {
            rest: Rest {
                process_stack: self.rest.process_stack.push(self.context()),
                ..self.rest
            },
            ..self
        }
    }

    /// The machine after the last context put aside is taken back.
    pub open spec fn context_restored(self) -> Machine {
        let stack = self.rest.process_stack;
        if stack.len() == 0 {
            self
        } else {
            self.resumed(stack.last(), stack.drop_last())
        }
    }

    /// Register `index` counted from the top of the floating point stack.
    pub open spec fn fpu_index(self, index: int) -> int {
        (self.rest.fpu_top + index) % 8
    }

    pub open spec fn fpu_pushed(self, value: F80) -> Machine {
        let top = (self.rest.fpu_top - 1) % 8;
        Machine {
            rest: Rest {
                fpu_top: top as usize,
                fpu_stack: self.rest.fpu_stack.update(top, value),
                fpu_tags: self.rest.fpu_tags.update(top, FPU_TAG_VALID),
                ..self.rest
            },
            ..self
        }
    }

    pub open spec fn fpu_popped(self) -> Machine {
        Machine {
            rest: Rest {
                fpu_top: ((self.rest.fpu_top + 1) % 8) as usize,
                fpu_tags: self.rest.fpu_tags.update(self.rest.fpu_top as int, FPU_TAG_EMPTY),
                ..self.rest
            },
            ..self
        }
    }
}

impl View for Cpu {
    type V = Machine;

    open spec fn view(&self) -> Machine {
        Machine {
            ax: self.ax,
            bx: self.bx,
            cx: self.cx,
            dx: self.dx,
            di: self.di,
            si: self.si,
            bp: self.bp,
            sp: self.sp,
            cs: self.cs,
            ds: self.ds,
            es: self.es,
            ss: self.ss,
            ip: self.ip,
            flags: self.flags.bits,
            ram: self.bus.ram@,
            rest: Rest {
                a20: self.bus.a20,
                state: self.state,
                pending_command: self.pending_command,
                current_psp: self.current_psp,
                heap_pointer: self.heap_pointer,
                fpu_stack: self.fpu_stack@,
                fpu_top: self.fpu_top,
                fpu_flags: self.fpu_flags,
                fpu_control: self.fpu_control,
                fpu_tags: self.fpu_tags@,
                debug_qb_print: self.debug_qb_print,
                last_fstp_addr: self.last_fstp_addr,
                process_stack: self.process_stack@,
                last_timer_tick: self.last_timer_tick,
            },
        }
    }
}

proof fn lemma_mask_20(x: u32)
    by (bit_vector)
    ensures
        x & 0xF_FFFF == x % 0x10_0000,
{
}

impl Cpu {
    /// A machine with `ram` bytes of memory, ready to run at 0000:0100.
    pub fn new(ram: usize) -> (cpu: Self)
        ensures
            cpu@ == (Machine {
                ax: 0,
                bx: 0,
                cx: 0,
                dx: 0,
                di: 0,
                si: 0,
                bp: 0,
                sp: 0,
                cs: 0,
                ds: 0,
                es: 0,
                ss: 0,
                ip: 0x100,
                flags: RESERVED_ONE,
                ram: Seq::new(ram as nat, |i: int| 0u8),
                rest: Rest {
                    a20: false,
                    state: CpuState::Running,
                    pending_command: None,
                    current_psp: 0,
                    heap_pointer: 0x2000,
                    fpu_stack: Seq::new(8, |i: int| F80::spec_zero()),
                    fpu_top: 0,
                    fpu_flags: FpuFlags { bits: 0 },
                    fpu_control: 0x037F,
                    fpu_tags: Seq::new(8, |i: int| FPU_TAG_EMPTY),
                    debug_qb_print: false,
                    last_fstp_addr: 0,
                    process_stack: Seq::empty(),
                    last_timer_tick: 0,
                },
            }),
    {
        let fpu_stack = [F80::new(); 8];
        let fpu_tags = [FPU_TAG_EMPTY; 8];
        assert(fpu_stack@ =~= Seq::new(8, |i: int| F80::spec_zero()));
        assert(fpu_tags@ =~= Seq::new(8, |i: int| FPU_TAG_EMPTY));
        Cpu {
            ax: 0,
            bx: 0,
            cx: 0,
            dx: 0,
            di: 0,
            si: 0,
            bp: 0,
            sp: 0,
            cs: 0,
            ds: 0,
            es: 0,
            ss: 0,
            ip: 0x100,
            bus: Bus::new(ram, false),
            flags: CpuFlags { bits: RESERVED_ONE },
            state: CpuState::Running,
            pending_command: None,
            current_psp: 0,
            heap_pointer: 0x2000,
            fpu_stack,
            fpu_top: 0,
            fpu_flags: FpuFlags { bits: 0 },
            fpu_control: 0x037F,
            fpu_tags,
            debug_qb_print: false,
            last_fstp_addr: 0,
            process_stack: Vec::new(),
            last_timer_tick: 0,
        }
    }

    /// Put the running program's registers aside.
    pub fn save_process_context(&mut self)
        ensures
            final(self)@ == old(self)@.context_saved(),
    {
        let context = ProcessContext {
            ax: self.ax,
            bx: self.bx,
            cx: self.cx,
            dx: self.dx,
            si: self.si,
            di: self.di,
            bp: self.bp,
            sp: self.sp,
            cs: self.cs,
            ds: self.ds,
            es: self.es,
            ss: self.ss,
            ip: self.ip,
            flags: self.flags,
            psp: self.current_psp,
            heap_pointer: self.heap_pointer,
        };
        self.process_stack.push(context);
    }

    /// Take back the registers put aside last. False if there are none.
    pub fn restore_process_context(&mut self) -> (restored: bool)
        ensures
            restored == (old(self)@.rest.process_stack.len() > 0),
            final(self)@ == old(self)@.context_restored(),
    {
        match self.process_stack.pop() {
            Some(context) => {
                self.ax = context.ax;
                self.bx = context.bx;
                self.cx = context.cx;
                self.dx = context.dx;
                self.si = context.si;
                self.di = context.di;
                self.bp = context.bp;
                self.sp = context.sp;
                self.cs = context.cs;
                self.ds = context.ds;
                self.es = context.es;
                self.ss = context.ss;
                self.ip = context.ip;
                self.flags = context.flags;
                self.current_psp = context.psp;
                self.heap_pointer = context.heap_pointer;
                true
            },
            None => false,
        }
    }

    /// Set the parity flag for the low byte of `result`.
    pub fn update_pf(&mut self, result: u16)
        ensures
            final(self)@ == old(self)@.set_flag(PF, even_parity(low_byte(result))),
    {
        let even = parity_even((result & 0xFF) as u8);
        self.set_cpu_flag(PF, even);
    }

    /// Whether any of the flags under `mask` is set.
    pub fn get_cpu_flag(&self, mask: u16) -> (on: bool)
        ensures
            on == self@.flag(mask),
    {
        (self.flags.bits & mask) != 0
    }

    pub fn set_cpu_flag(&mut self, mask: u16, value: bool)
        ensures
            final(self)@ == old(self)@.set_flag(mask, value),
    {
        if value {
            self.flags.bits = self.flags.bits | mask;
        } else {
            self.flags.bits = self.flags.bits & !mask;
        }
    }

    /// Replace the flags. Only the declared ones are taken over, and the
    /// reserved bit is always set.
    pub fn set_cpu_flags(&mut self, new_flags: CpuFlags)
        ensures
            final(self)@ == (Machine { flags: loaded_flags(new_flags.bits), ..old(self)@ }),
    {
        self.flags = CpuFlags { bits: (new_flags.bits & DECLARED_FLAGS) | RESERVED_ONE };
    }

    pub fn get_cpu_flags(&self) -> (flags: CpuFlags)
        ensures
            flags.bits == self@.flags,
    {
        self.flags
    }

    pub fn set_fpu_flag(&mut self, mask: u16, value: bool)
        ensures
            final(self)@ == (Machine {
                rest: Rest {
                    fpu_flags: FpuFlags {
                        bits: with_flag16(old(self)@.rest.fpu_flags.bits, mask, value),
                    },
                    ..old(self)@.rest
                },
                ..old(self)@
            }),
    {
        if value {
            self.fpu_flags.bits = self.fpu_flags.bits | mask;
        } else {
            self.fpu_flags.bits = self.fpu_flags.bits & !mask;
        }
    }

    /// Whether all the flags under `mask` are set.
    pub fn get_fpu_flag(&self, mask: u16) -> (on: bool)
        ensures
            on == (self@.rest.fpu_flags.bits & mask == mask),
    {
        (self.fpu_flags.bits & mask) == mask
    }

    pub fn set_fpu_flags(&mut self, new_flags: FpuFlags)
        ensures
            final(self)@ == (Machine {
                rest: Rest { fpu_flags: new_flags, ..old(self)@.rest },
                ..old(self)@
            }),
    {
        self.fpu_flags = new_flags;
    }

    pub fn get_fpu_flags(&self) -> (flags: FpuFlags)
        ensures
            flags == self@.rest.fpu_flags,
    {
        self.fpu_flags
    }

    pub fn zflag(&self) -> (on: bool)
        ensures
            on == self@.flag(ZF),
    {
        self.get_cpu_flag(ZF)
    }

    pub fn set_zflag(&mut self, val: bool)
        ensures
            final(self)@ == old(self)@.set_flag(ZF, val),
    {
        self.set_cpu_flag(ZF, val)
    }

    pub fn dflag(&self) -> (on: bool)
        ensures
            on == self@.flag(DF),
    {
        self.get_cpu_flag(DF)
    }

    pub fn set_dflag(&mut self, val: bool)
        ensures
            final(self)@ == old(self)@.set_flag(DF, val),
    {
        self.set_cpu_flag(DF, val)
    }

    /// The address of `segment:offset`.
    pub fn get_physical_addr(&self, segment: u16, offset: u16) -> (addr: usize)
        ensures
            addr == physical(segment, offset),
            addr < 0x10_0000,
    {
        let sum: u32 = segment as u32 * 16 + offset as u32;
        proof {
            lemma_mask_20(sum);
        }
        (sum & 0xF_FFFF) as usize
    }

    pub fn get_segment_value(&self, seg: Register) -> (value: u16)
        ensures
            value == self@.segment(seg),
    {
        match seg {
            Register::ES => self.es,
            Register::CS => self.cs,
            Register::SS => self.ss,
            Register::DS => self.ds,
            Register::FS => 0,
            Register::GS => 0,
            _ => self.ds,
        }
    }

    pub fn get_ah(&self) -> (value: u8)
        ensures
            value == self@.reg8(Register::AH),
    {
        (self.ax >> 8) as u8
    }

    pub fn get_al(&self) -> (value: u8)
        ensures
            value == self@.reg8(Register::AL),
    {
        (self.ax & 0xFF) as u8
    }

    pub fn set_reg8(&mut self, reg: Register, value: u8)
        ensures
            final(self)@ == old(self)@.with_reg8(reg, value),
    {
        reveal(Machine::with_reg8);
        match reg {
            Register::AL => self.ax = (self.ax & 0xFF00) | (value as u16),
            Register::AH => self.ax = (self.ax & 0x00FF) | ((value as u16) << 8),
            Register::BL => self.bx = (self.bx & 0xFF00) | (value as u16),
            Register::BH => self.bx = (self.bx & 0x00FF) | ((value as u16) << 8),
            Register::CL => self.cx = (self.cx & 0xFF00) | (value as u16),
            Register::CH => self.cx = (self.cx & 0x00FF) | ((value as u16) << 8),
            Register::DL => self.dx = (self.dx & 0xFF00) | (value as u16),
            Register::DH => self.dx = (self.dx & 0x00FF) | ((value as u16) << 8),
            _ => {},
        }
    }

    pub fn get_reg8(&self, reg: Register) -> (value: u8)
        ensures
            value == self@.reg8(reg),
    {
        match reg {
            Register::AL => (self.ax & 0xFF) as u8,
            Register::AH => (self.ax >> 8) as u8,
            Register::BL => (self.bx & 0xFF) as u8,
            Register::BH => (self.bx >> 8) as u8,
            Register::CL => (self.cx & 0xFF) as u8,
            Register::CH => (self.cx >> 8) as u8,
            Register::DL => (self.dx & 0xFF) as u8,
            Register::DH => (self.dx >> 8) as u8,
            _ => 0,
        }
    }

    /// Only word registers can be written.
    pub fn set_reg16(&mut self, reg: Register, value: u16)
        requires
            is_word_register(reg),
        ensures
            final(self)@ == old(self)@.with_reg16(reg, value),
    {
        reveal(Machine::with_reg16);
        match reg {
            Register::AX => self.ax = value,
            Register::BX => self.bx = value,
            Register::CX => self.cx = value,
            Register::DX => self.dx = value,
            Register::SI => self.si = value,
            Register::DI => self.di = value,
            Register::BP => self.bp = value,
            Register::SP => self.sp = value,
            Register::ES => self.es = value,
            Register::DS => self.ds = value,
            Register::SS => self.ss = value,
            Register::CS => self.cs = value,
            _ => {},
        }
    }

    pub fn get_reg16(&self, reg: Register) -> (value: u16)
        ensures
            value == self@.reg16(reg),
    {
        match reg {
            Register::AX => self.ax,
            Register::BX => self.bx,
            Register::CX => self.cx,
            Register::DX => self.dx,
            Register::SI => self.si,
            Register::DI => self.di,
            Register::BP => self.bp,
            Register::SP => self.sp,
            Register::ES => self.es,
            Register::DS => self.ds,
            Register::CS => self.cs,
            Register::SS => self.ss,
            _ => 0,
        }
    }

    pub fn push(&mut self, value: u16)
        ensures
            final(self)@ == old(self)@.pushed(value),
    {
        self.sp = self.sp.wrapping_sub(2);
        let addr: usize = self.get_physical_addr(self.ss, self.sp);
        self.bus.write_8(addr, (value & 0xFF) as u8);
        self.bus.write_8(addr + 1, (value >> 8) as u8);
    }

    pub fn pop(&mut self) -> (value: u16)
        ensures
            value == old(self)@.top(),
            final(self)@ == old(self)@.popped(),
    {
        let addr: usize = self.get_physical_addr(self.ss, self.sp);
        let low: u16 = self.bus.read_8(addr) as u16;
        let high: u16 = self.bus.read_8(addr + 1) as u16;
        self.sp = self.sp.wrapping_add(2);
        (high << 8) | low
    }

    pub fn get_dl(&self) -> (value: u8)
        ensures
            value == self@.reg8(Register::DL),
    {
        (self.dx & 0xFF) as u8
    }

    pub fn set_dl(&mut self, value: u8)
        ensures
            final(self)@ == old(self)@.with_reg8(Register::DL, value),
    {
        reveal(Machine::with_reg8);
        self.dx = (self.dx & 0xFF00) | (value as u16);
    }

    /// Push a number on the floating point stack.
    pub fn fpu_push(&mut self, val: F80)
        ensures
            final(self)@ == old(self)@.fpu_pushed(val),
            final(self).fpu_top < 8,
    {
        self.fpu_top = if self.fpu_top == 0 {
            7
        } else {
            (self.fpu_top - 1) % 8
        };
        self.fpu_stack[self.fpu_top] = val;
        self.fpu_tags[self.fpu_top] = FPU_TAG_VALID;
    }

    /// Take the top number off the floating point stack.
    pub fn fpu_pop(&mut self) -> (val: F80)
        requires
            old(self).fpu_top < 8,
        ensures
            val == old(self)@.rest.fpu_stack[old(self).fpu_top as int],
            final(self)@ == old(self)@.fpu_popped(),
            final(self).fpu_top < 8,
    {
        let val = self.fpu_stack[self.fpu_top];
        self.fpu_tags[self.fpu_top] = FPU_TAG_EMPTY;
        self.fpu_top = (self.fpu_top + 1) % 8;
        val
    }

    /// The number in ST(`index`); an empty register reads as indefinite.
    pub fn fpu_get(&self, index: usize) -> (val: F80)
        ensures
            val == (if self@.rest.fpu_tags[self@.fpu_index(index as int)] == FPU_TAG_EMPTY {
                F80::spec_real_indefinite()
            } else {
                self@.rest.fpu_stack[self@.fpu_index(index as int)]
            }),
    {
        let actual: usize = (self.fpu_top % 8 + index % 8) % 8;
        if self.fpu_tags[actual] == FPU_TAG_EMPTY {
            let mut indefinite = F80::new();
            indefinite.set_real_indefinite();
            return indefinite;
        }
        self.fpu_stack[actual]
    }

    /// Put a number in ST(`index`), whatever its tag.
    pub fn fpu_set(&mut self, index: usize, val: F80)
        ensures
            final(self)@ == (Machine {
                rest: Rest {
                    fpu_stack: old(self)@.rest.fpu_stack.update(
                        old(self)@.fpu_index(index as int),
                        val,
                    ),
                    ..old(self)@.rest
                },
                ..old(self)@
            }),
    {
        let actual: usize = (self.fpu_top % 8 + index % 8) % 8;
        self.fpu_stack[actual] = val;
    }

    /// Which register ST(`i`) is.
    pub fn fpu_get_phys_index(&self, i: usize) -> (index: usize)
        ensures
            index == self@.fpu_index(i as int),
    {
        (self.fpu_top % 8 + i % 8) % 8
    }

    /// The signed integer of `size` at `addr`, as a floating point number;
    /// zero for other sizes than words and double words. The most negative
    /// integers have no magnitude of their size.
    pub fn load_int_to_f80(&self, addr: usize, size: MemorySize) -> (val: F80)
        requires
            size == MemorySize::Int16 ==> word_at(self@.ram, addr as int) != 0x8000,
            size == MemorySize::Int32 ==> dword_at(self@.ram, addr as int)
                != 0x8000_0000,
        ensures
            match size {
                MemorySize::Int16 => {
                    let value = signed_16(word_at(self@.ram, addr as int));
                    val.encodes(magnitude(value) as u64, value < 0)
                },
                MemorySize::Int32 => {
                    let value = signed_32(dword_at(self@.ram, addr as int));
                    val.encodes(magnitude(value) as u64, value < 0)
                },
                _ => val.encodes(0, false),
            },
    {
        match size {
            MemorySize::Int16 => {
                let raw: u16 = self.bus.read_16(addr);
                if raw >= 0x8000 {
                    F80::from_integer(0x1_0000 - raw as u64, true)
                } else {
                    F80::from_integer(raw as u64, false)
                }
            },
            MemorySize::Int32 => {
                let raw: u32 = self.bus.read_32(addr);
                if raw >= 0x8000_0000 {
                    F80::from_integer(0x1_0000_0000 - raw as u64, true)
                } else {
                    F80::from_integer(raw as u64, false)
                }
            },
            _ => F80::from_integer(0, false),
        }
    }
}

/// What a word stands for as a signed number.
pub open spec fn signed_16(value: u16) -> int {
    if value >= 0x8000 {
        value - 0x1_0000
    } else {
        value as int
    }
}

pub open spec fn signed_32(value: u32) -> int {
    if value >= 0x8000_0000 {
        value - 0x1_0000_0000
    } else {
        value as int
    }
}

/// What a byte stands for as a signed number.
pub open spec fn signed_8(value: u8) -> int {
    if value >= 0x80 {
        value - 0x100
    } else {
        value as int
    }
}

pub open spec fn magnitude(value: int) -> int {
    if value < 0 {
        -value
    } else {
        value
    }
}

/// What is pushed comes back, and the stack pointer with it, wherever the
/// stack has memory.
pub proof fn law_pop_returns_push(m: Machine, value: u16)
    requires
        physical(m.ss, m.pushed(value).sp) + 1 < m.ram.len(),
    ensures
        m.pushed(value).top() == value,
        m.pushed(value).popped() == (Machine { ram: m.pushed(value).ram, ..m }),
{
    crate::bus::law_word_reads_back(m.ram, physical(m.ss, m.pushed(value).sp), value);
}

/// A context that is put aside and taken back leaves the machine as it was.
pub proof fn law_context_round_trip(m: Machine)
    ensures
        m.context_saved().context_restored() == m,
{
    assert(m.rest.process_stack.push(m.context()).drop_last() =~= m.rest.process_stack);
}

/// A number pushed on the floating point stack comes back, and the stack top
/// with it.
pub proof fn law_fpu_pop_returns_push(m: Machine, value: F80)
    requires
        m.rest.fpu_top < 8,
        m.rest.fpu_stack.len() == 8,
        m.rest.fpu_tags.len() == 8,
    ensures
        m.fpu_pushed(value).rest.fpu_stack[m.fpu_pushed(value).rest.fpu_top as int] == value,
        m.fpu_pushed(value).fpu_popped().rest.fpu_top == m.rest.fpu_top,
{
}

proof fn lemma_byte_registers(word: u16, value: u8)
    by (bit_vector)
    ensures
        (((word & 0xFF00) | (value as u16)) & 0xFF) as u8 == value,
        ((((word & 0xFF00) | (value as u16)) >> 8) as u8) == (word >> 8) as u8,
        ((((word & 0x00FF) | ((value as u16) << 8)) >> 8) as u8) == value,
        ((((word & 0x00FF) | ((value as u16) << 8)) & 0xFF) as u8) == (word & 0xFF) as u8,
{
}

/// A byte register reads as it was written, and the other byte registers
/// keep their values.
pub proof fn law_byte_registers(m: Machine, reg: Register, other: Register, value: u8)
    requires
        is_byte_register(reg),
        reg != other,
    ensures
        m.with_reg8(reg, value).reg8(reg) == value,
        m.with_reg8(reg, value).reg8(other) == m.reg8(other),
{
    reveal(Machine::with_reg8);
    lemma_byte_registers(m.ax, value);
    lemma_byte_registers(m.bx, value);
    lemma_byte_registers(m.cx, value);
    lemma_byte_registers(m.dx, value);
}

/// A word register reads as it was written, and the others keep their values.
pub proof fn law_word_registers(m: Machine, reg: Register, other: Register, value: u16)
    requires
        is_word_register(reg),
        reg != other,
    ensures
        m.with_reg16(reg, value).reg16(reg) == value,
        m.with_reg16(reg, value).reg16(other) == m.reg16(other),
{
    reveal(Machine::with_reg16);
}

} // verus!
