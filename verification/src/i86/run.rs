//! Running the processor step by step, and what is said of a step when the
//! trace of number printing is on.

use vstd::prelude::*;
use vstd::string::*;

use super::alu::wrap_16;
use super::cpu::{
    is_byte_register, is_word_register, loaded_flags, physical, Cpu, CpuFlags, CpuState, Machine,
    Rest, CF, DF, IF, TF, ZF,
};
use super::exec::{after, effect_of, execute_instruction, mov_runs, runnable, Effect};
use super::operand::{calculate_addr, effective, get_shift_count, is_8bit_reg, is_byte_op};
use crate::bus::{byte_at, dword_at, word_at};
use crate::decode::{
    decode_16, decoded, instruction_of, Instruction, MemorySize, Mnemonic, OpKind, Register,
};
use crate::text::{bool_text, hex_text, push_bool, push_hex};

verus! {

/// Milliseconds between two timer interrupts.
pub const TIMER_PERIOD_MS: u128 = 55;

/// The bytes that a trap to the emulator's services starts with.
pub const TRAP_0: u8 = 0xFE;

pub const TRAP_1: u8 = 0x38;

/// What a step of the processor was.
#[derive(Clone, Copy, Debug, PartialEq, Eq, Structural)]
pub enum Stepped {
    /// The processor is not running.
    Stopped,
    /// The timer interrupt was called.
    Timer,
    /// There is no memory where the next instruction is.
    NoMemory,
    /// A trap: serve this interrupt, then call `finish_hle`.
    Service(u8),
    /// An instruction ran, with something left to do.
    Ran(Effect),
    /// The next instruction is one that the processor cannot run.
    Refused(Instruction),
}

/// The machine after an interrupt is called through its vector: flags, CS
/// and IP are on the stack, interrupts and single stepping off.
pub open spec fn timer_called(m: Machine, now: u128) -> Machine {
    let n = m.pushed(m.flags).pushed(m.cs).pushed(m.ip);
    Machine {
        ip: word_at(m.ram, 0x20),
        cs: word_at(m.ram, 0x22),
        rest: Rest { last_timer_tick: now, ..n.rest },
        ..n
    }.set_flag(IF, false).set_flag(TF, false)
}

/// The bytes from CS:IP to the end of memory.
pub open spec fn code_at(m: Machine) -> Seq<u8> {
    m.ram.subrange(physical(m.cs, m.ip), m.ram.len() as int)
}

/// The instruction at CS:IP.
pub open spec fn next_instruction(m: Machine) -> Instruction {
    instruction_of(decoded(16, code_at(m), m.ip as u64))
}

/// The machine with IP past an instruction.
pub open spec fn past(m: Machine, i: Instruction) -> Machine {
    Machine { ip: wrap_16(m.ip + i.len), ..m }
}

/// Whether CS:IP is at a trap, and of which interrupt.
pub open spec fn at_trap(m: Machine) -> bool {
    byte_at(m.ram, physical(m.cs, m.ip)) == TRAP_0 && byte_at(
        m.ram,
        physical(m.cs, wrap_16(m.ip + 1)),
    ) == TRAP_1
}

pub open spec fn trap_vector(m: Machine) -> u8 {
    byte_at(m.ram, physical(m.cs, wrap_16(m.ip + 2)))
}

/// What a step does, and the machine after it.
pub open spec fn step_kind(m: Machine, now: u128) -> Stepped {
    if m.rest.state != CpuState::Running {
        Stepped::Stopped
    } else if now - m.rest.last_timer_tick >= TIMER_PERIOD_MS {
        Stepped::Timer
    } else if physical(m.cs, m.ip) >= m.ram.len() {
        Stepped::NoMemory
    } else if at_trap(m) {
        Stepped::Service(trap_vector(m))
    } else {
        let i = next_instruction(m);
        if runnable(past(m, i), i) {
            Stepped::Ran(effect_of(past(m, i), i))
        } else {
            Stepped::Refused(i)
        }
    }
}

pub open spec fn stepped(m: Machine, now: u128) -> Machine {
    match step_kind(m, now) {
        Stepped::Timer => timer_called(m, now),
        Stepped::Ran(_) => {
            let i = next_instruction(m);
            after(past(m, i), i)
        },
        _ => m,
    }
}

/// The machine back from a service: IP, CS and flags come off the stack, but
/// carry and zero are as the service left them, and the direction is forward.
pub open spec fn service_done(m: Machine) -> Machine {
    let (carry, zero) = (m.flag(CF), m.flag(ZF));
    let n = Machine {
        ip: m.top(),
        cs: m.popped().top(),
        flags: loaded_flags(m.popped().popped().top()),
        ..m.popped().popped().popped()
    };
    n.set_flag(DF, false).set_flag(CF, carry).set_flag(ZF, zero)
}

fn is_word_reg(reg: Register) -> (word: bool)
    ensures
        word == is_word_register(reg),
{
    match reg {
        Register::AX | Register::BX | Register::CX | Register::DX | Register::SI | Register::DI
        | Register::BP | Register::SP | Register::ES | Register::DS | Register::SS
        | Register::CS => true,
        _ => false,
    }
}

fn is_reg(reg: Register) -> (any: bool)
    ensures
        any == (is_byte_register(reg) || is_word_register(reg)),
{
    is_8bit_reg(reg) || is_word_reg(reg)
}

fn can_move(i: &Instruction) -> (yes: bool)
    ensures
        yes == mov_runs(*i),
{
    if i.op0_kind == OpKind::Memory {
        true
    } else if i.op0_kind == OpKind::Register {
        match i.op1_kind {
            OpKind::Register | OpKind::Memory => is_reg(i.op0_register),
            OpKind::Immediate16 | OpKind::Immediate8to16 => is_word_reg(i.op0_register),
            _ => true,
        }
    } else {
        match i.op0_register {
            Register::FS | Register::GS => false,
            _ => true,
        }
    }
}

/// Whether the processor can run an instruction in its present state.
pub fn can_run(cpu: &Cpu, i: &Instruction) -> (yes: bool)
    ensures
        yes == runnable(cpu@, *i),
{
    match i.mnemonic {
        Mnemonic::Mov => can_move(i),
        Mnemonic::Shl | Mnemonic::Sal | Mnemonic::Shr | Mnemonic::Sar => {
            let count: u32 = get_shift_count(i, cpu);
            if is_8bit_reg(i.op0_register) {
                count <= 8
            } else {
                is_word_reg(i.op0_register) && count <= 16
            }
        },
        Mnemonic::And | Mnemonic::Or | Mnemonic::Xor | Mnemonic::Sbb | Mnemonic::Inc
        | Mnemonic::Dec | Mnemonic::Add | Mnemonic::Sub | Mnemonic::Not | Mnemonic::Adc => {
            is_byte_op(i) || i.op0_kind != OpKind::Register || is_word_reg(i.op0_register)
        },
        Mnemonic::Pop => i.op0_kind != OpKind::Register || is_word_reg(i.op0_register),
        Mnemonic::Lea => is_word_reg(i.op0_register),
        Mnemonic::Lds | Mnemonic::Les => {
            i.op0_kind != OpKind::Register || i.op1_kind != OpKind::Memory || is_word_reg(
                i.op0_register,
            )
        },
        Mnemonic::Imul => i.op_count != 2 || is_word_reg(i.op0_register),
        Mnemonic::Xchg => {
            (i.op0_kind != OpKind::Register || is_reg(i.op0_register)) && (i.op1_kind
                != OpKind::Register || is_reg(i.op1_register))
        },
        Mnemonic::In => is_reg(i.op0_register),
        _ => true,
    }
}

impl Cpu {
    fn call_timer(&mut self, now: u128)
        ensures
            final(self)@ == timer_called(old(self)@, now),
    {
        self.last_timer_tick = now;
        let handler_ip: u16 = self.bus.read_16(0x20);
        let handler_cs: u16 = self.bus.read_16(0x22);
        self.push(self.flags.bits);
        self.push(self.cs);
        self.push(self.ip);
        self.ip = handler_ip;
        self.cs = handler_cs;
        self.set_cpu_flag(IF, false);
        self.set_cpu_flag(TF, false);
    }

    /// Run one instruction, or call the timer interrupt where one is due at
    /// `now`, in milliseconds since the machine started.
    #[verifier::rlimit(40)]
    #[verifier::spinoff_prover]
    pub fn step(&mut self, now: u128) -> (kind: Stepped)
        requires
            now >= old(self).last_timer_tick,
        ensures
            kind == step_kind(old(self)@, now),
            final(self)@ == stepped(old(self)@, now),
    {
        if self.state != CpuState::Running {
            return Stepped::Stopped;
        }
        if now - self.last_timer_tick >= TIMER_PERIOD_MS {
            self.call_timer(now);
            return Stepped::Timer;
        }
        let at: usize = self.get_physical_addr(self.cs, self.ip);
        if at >= self.bus.ram.len() {
            return Stepped::NoMemory;
        }
        let b0: u8 = self.bus.read_8(at);
        let b1: u8 = self.bus.read_8(self.get_physical_addr(self.cs, self.ip.wrapping_add(1)));
        if b0 == TRAP_0 && b1 == TRAP_1 {
            let vector: u8 = self.bus.read_8(
                self.get_physical_addr(self.cs, self.ip.wrapping_add(2)),
            );
            return Stepped::Service(vector);
        }
        let code = vstd::slice::slice_subrange(self.bus.ram.as_slice(), at, self.bus.ram.len());
        let instr = decode_16(code, self.ip);
        let here: u16 = self.ip;
        self.ip = self.ip.wrapping_add(instr.len as u16);
        assert(self@ == past(old(self)@, instr));
        if can_run(self, &instr) {
            Stepped::Ran(execute_instruction(self, &instr))
        } else {
            self.ip = here;
            Stepped::Refused(instr)
        }
    }

    /// Come back from the service of a trap.
    pub fn finish_hle(&mut self)
        ensures
            final(self)@ == service_done(old(self)@),
    {
        self.ip = self.pop();
        self.cs = self.pop();
        let carry = self.get_cpu_flag(CF);
        let zero = self.get_cpu_flag(ZF);
        let bits: u16 = self.pop();
        self.set_cpu_flags(CpuFlags { bits });
        self.set_cpu_flag(DF, false);
        self.set_cpu_flag(CF, carry);
        self.set_cpu_flag(ZF, zero);
    }
}

// ---------------------------------------------------------------------------
// The trace of number printing
// ---------------------------------------------------------------------------

/// The name of an instruction that the trace follows.
pub open spec fn traced_name(mnemonic: Mnemonic) -> Seq<char> {
    match mnemonic {
        Mnemonic::Je => "Je"@,
        Mnemonic::Jne => "Jne"@,
        Mnemonic::Inc => "Inc"@,
        Mnemonic::Dec => "Dec"@,
        Mnemonic::Loop => "Loop"@,
        Mnemonic::Loope => "Loope"@,
        _ => "Loopne"@,
    }
}

pub open spec fn index_name(reg: Register) -> Seq<char> {
    match reg {
        Register::DI => "DI"@,
        Register::SI => "SI"@,
        _ => "CX"@,
    }
}

/// A byte as the trace shows it: printable characters as they are.
pub open spec fn shown_char(value: u8) -> char {
    if 32 <= value <= 126 {
        value as char
    } else {
        '.'
    }
}

pub open spec fn h2(value: u8) -> Seq<char> {
    hex_text(value as nat, 2)
}

pub open spec fn h4(value: u16) -> Seq<char> {
    hex_text(value as nat, 4)
}

pub open spec fn h5(value: int) -> Seq<char> {
    hex_text(value as nat, 5)
}

/// Whether the trace says something of an instruction.
pub open spec fn is_traced(i: Instruction) -> bool {
    match i.mnemonic {
        Mnemonic::Je | Mnemonic::Jne | Mnemonic::Sahf | Mnemonic::Scasb | Mnemonic::Stosb
        | Mnemonic::Loop | Mnemonic::Loope | Mnemonic::Loopne => true,
        Mnemonic::Inc | Mnemonic::Dec => i.op0_register == Register::DI || i.op0_register
            == Register::SI || i.op0_register == Register::CX,
        Mnemonic::Fstp => i.memory_size == MemorySize::Float80,
        _ => false,
    }
}

pub open spec fn trace_line(m: Machine, i: Instruction) -> Seq<char> {
    let zf = bool_text(m.flag(ZF));
    let to = physical(m.es, m.di);
    match i.mnemonic {
        Mnemonic::Je | Mnemonic::Jne => "[QB-TRACE] "@ + traced_name(i.mnemonic) + " taken? (ZF="@
            + zf + ") at "@ + h4(m.cs) + ":"@ + h4(m.ip),
        Mnemonic::Sahf => "[QB-TRACE] SAHF: AH="@ + h2(m.reg8(Register::AH)) + " (Bit6/ZF="@ + (
        if m.reg8(Register::AH) & 0x40 != 0 {
            "1"@
        } else {
            "0"@
        }) + ")"@,
        Mnemonic::Scasb => "[QB-TRACE] SCASB ["@ + h5(to) + "] AL="@ + h2(m.reg8(Register::AL))
            + " vs Mem="@ + h2(byte_at(m.ram, to)) + " | CX="@ + h4(m.cx) + " | DI="@ + h4(m.di)
            + " | ZF="@ + zf,
        Mnemonic::Inc | Mnemonic::Dec => "[QB-TRACE] "@ + traced_name(i.mnemonic) + " "@
            + index_name(i.op0_register) + " -> "@ + h4(m.reg16(i.op0_register)) + " (ZF="@ + zf
            + ")"@,
        Mnemonic::Fstp => {
            let addr = effective(m, i);
            "\n[QB-TRACE] FSTP TBYTE at "@ + h5(addr) + " Raw: "@ + h4(word_at(m.ram, addr + 8))
                + " "@ + hex_text(dword_at(m.ram, addr + 4) as nat, 8) + hex_text(
                dword_at(m.ram, addr) as nat,
                8,
            )
        },
        Mnemonic::Stosb => "[QB-TRACE] STOSB ["@ + h5(to) + "] <- "@ + h2(m.reg8(Register::AL))
            + " ('"@ + seq![shown_char(m.reg8(Register::AL))] + "') DI="@ + h4(m.di),
        _ => "[QB-TRACE] "@ + traced_name(i.mnemonic) + " CX="@ + h4(m.cx) + " ZF="@ + zf + " DI="@
            + h4(m.di),
    }
}

fn push_traced_name(out: &mut String, mnemonic: Mnemonic)
    ensures
        final(out)@ == old(out)@ + traced_name(mnemonic),
{
    match mnemonic {
        Mnemonic::Je => out.append("Je"),
        Mnemonic::Jne => out.append("Jne"),
        Mnemonic::Inc => out.append("Inc"),
        Mnemonic::Dec => out.append("Dec"),
        Mnemonic::Loop => out.append("Loop"),
        Mnemonic::Loope => out.append("Loope"),
        _ => out.append("Loopne"),
    }
}

fn trace_branch(cpu: &Cpu, i: &Instruction) -> (line: String)
    requires
        i.mnemonic == Mnemonic::Je || i.mnemonic == Mnemonic::Jne,
    ensures
        line@ == trace_line(cpu@, *i),
{
    let mut out = String::from_str("[QB-TRACE] ");
    push_traced_name(&mut out, i.mnemonic);
    out.append(" taken? (ZF=");
    push_bool(&mut out, cpu.zflag());
    out.append(") at ");
    push_hex(&mut out, cpu.cs as u64, 4);
    out.append(":");
    push_hex(&mut out, cpu.ip as u64, 4);
    out
}

fn trace_sahf(cpu: &Cpu, i: &Instruction) -> (line: String)
    requires
        i.mnemonic == Mnemonic::Sahf,
    ensures
        line@ == trace_line(cpu@, *i),
{
    let ah: u8 = cpu.get_ah();
    let mut out = String::from_str("[QB-TRACE] SAHF: AH=");
    push_hex(&mut out, ah as u64, 2);
    out.append(" (Bit6/ZF=");
    if (ah & 0x40) != 0 {
        out.append("1");
    } else {
        out.append("0");
    }
    out.append(")");
    out
}

fn trace_scasb(cpu: &Cpu, i: &Instruction) -> (line: String)
    requires
        i.mnemonic == Mnemonic::Scasb,
    ensures
        line@ == trace_line(cpu@, *i),
{
    let addr: usize = cpu.get_physical_addr(cpu.es, cpu.di);
    let mut out = String::from_str("[QB-TRACE] SCASB [");
    push_hex(&mut out, addr as u64, 5);
    out.append("] AL=");
    push_hex(&mut out, cpu.get_al() as u64, 2);
    out.append(" vs Mem=");
    push_hex(&mut out, cpu.bus.read_8(addr) as u64, 2);
    out.append(" | CX=");
    push_hex(&mut out, cpu.cx as u64, 4);
    out.append(" | DI=");
    push_hex(&mut out, cpu.di as u64, 4);
    out.append(" | ZF=");
    push_bool(&mut out, cpu.zflag());
    out
}

fn trace_count(cpu: &Cpu, i: &Instruction) -> (line: String)
    requires
        i.mnemonic == Mnemonic::Inc || i.mnemonic == Mnemonic::Dec,
    ensures
        line@ == trace_line(cpu@, *i),
{
    let mut out = String::from_str("[QB-TRACE] ");
    push_traced_name(&mut out, i.mnemonic);
    out.append(" ");
    match i.op0_register {
        Register::DI => out.append("DI"),
        Register::SI => out.append("SI"),
        _ => out.append("CX"),
    }
    out.append(" -> ");
    push_hex(&mut out, cpu.get_reg16(i.op0_register) as u64, 4);
    out.append(" (ZF=");
    push_bool(&mut out, cpu.zflag());
    out.append(")");
    out
}

fn trace_fstp(cpu: &Cpu, i: &Instruction) -> (line: String)
    requires
        i.mnemonic == Mnemonic::Fstp,
    ensures
        line@ == trace_line(cpu@, *i),
{
    let addr: usize = calculate_addr(cpu, i);
    let mut out = String::from_str("\n[QB-TRACE] FSTP TBYTE at ");
    push_hex(&mut out, addr as u64, 5);
    out.append(" Raw: ");
    push_hex(&mut out, cpu.bus.read_16(addr + 8) as u64, 4);
    out.append(" ");
    push_hex(&mut out, cpu.bus.read_32(addr + 4) as u64, 8);
    push_hex(&mut out, cpu.bus.read_32(addr) as u64, 8);
    out
}

fn trace_stosb(cpu: &Cpu, i: &Instruction) -> (line: String)
    requires
        i.mnemonic == Mnemonic::Stosb,
    ensures
        line@ == trace_line(cpu@, *i),
{
    let value: u8 = cpu.get_al();
    let addr: usize = cpu.get_physical_addr(cpu.es, cpu.di);
    let mut out = String::from_str("[QB-TRACE] STOSB [");
    push_hex(&mut out, addr as u64, 5);
    out.append("] <- ");
    push_hex(&mut out, value as u64, 2);
    out.append(" ('");
    let shown: char = if 32 <= value && value <= 126 {
        value as char
    } else {
        '.'
    };
    let ghost before = out@;
    out.push(shown);
    assert(out@ =~= before + seq![shown]);
    out.append("') DI=");
    push_hex(&mut out, cpu.di as u64, 4);
    out
}

fn trace_loop(cpu: &Cpu, i: &Instruction) -> (line: String)
    requires
        i.mnemonic == Mnemonic::Loop || i.mnemonic == Mnemonic::Loope || i.mnemonic
            == Mnemonic::Loopne,
    ensures
        line@ == trace_line(cpu@, *i),
{
    let mut out = String::from_str("[QB-TRACE] ");
    push_traced_name(&mut out, i.mnemonic);
    out.append(" CX=");
    push_hex(&mut out, cpu.cx as u64, 4);
    out.append(" ZF=");
    push_bool(&mut out, cpu.zflag());
    out.append(" DI=");
    push_hex(&mut out, cpu.di as u64, 4);
    out
}

impl Cpu {
    /// What the trace of number printing says of an instruction about to
    /// run, while it is on. It remembers where FSTP stored an 80-bit number.
    pub fn trace_qb_conversion(&mut self, instr: &Instruction) -> (line: Option<String>)
        ensures
            line is Some <==> old(self).debug_qb_print && is_traced(*instr),
            line matches Some(text) ==> text@ == trace_line(old(self)@, *instr),
            final(self)@ == (if old(self).debug_qb_print && is_traced(*instr) && instr.mnemonic
                == Mnemonic::Fstp {
                Machine {
                    rest: Rest {
                        last_fstp_addr: effective(old(self)@, *instr) as usize,
                        ..old(self)@.rest
                    },
                    ..old(self)@
                }
            } else {
                old(self)@
            }),
    {
        if !self.debug_qb_print {
            return None;
        }
        match instr.mnemonic {
            Mnemonic::Je | Mnemonic::Jne => Some(trace_branch(self, instr)),
            Mnemonic::Sahf => Some(trace_sahf(self, instr)),
            Mnemonic::Scasb => Some(trace_scasb(self, instr)),
            Mnemonic::Inc | Mnemonic::Dec => {
                match instr.op0_register {
                    Register::DI | Register::SI | Register::CX => Some(trace_count(self, instr)),
                    _ => None,
                }
            },
            Mnemonic::Fstp => {
                if instr.memory_size == MemorySize::Float80 {
                    let line = trace_fstp(self, instr);
                    self.last_fstp_addr = calculate_addr(self, instr);
                    Some(line)
                } else {
                    None
                }
            },
            Mnemonic::Stosb => Some(trace_stosb(self, instr)),
            Mnemonic::Loop | Mnemonic::Loope | Mnemonic::Loopne => Some(trace_loop(self, instr)),
            _ => None,
        }
    }
}

/// The timer is served before anything else runs, at most once in each
/// period.
pub proof fn law_timer_comes_first(m: Machine, now: u128)
    requires
        m.rest.state == CpuState::Running,
        now - m.rest.last_timer_tick >= TIMER_PERIOD_MS,
    ensures
        step_kind(m, now) == Stepped::Timer,
        stepped(m, now).rest.last_timer_tick == now,
        step_kind(stepped(m, now), now) != Stepped::Timer,
{
}

/// A processor that is not running stays as it is.
pub proof fn law_stopped_stays(m: Machine, now: u128)
    requires
        m.rest.state != CpuState::Running,
    ensures
        stepped(m, now) == m,
{
}

/// The timer interrupt goes where vector 8 points and leaves the flags, the
/// segment and the offset of what it broke into on the stack.
pub proof fn law_timer_saves_its_return(m: Machine, now: u128)
    requires
        physical(m.ss, m.pushed(m.flags).sp) + 1 < m.ram.len(),
        physical(m.ss, m.pushed(m.flags).pushed(m.cs).sp) + 1 < m.ram.len(),
        physical(m.ss, m.pushed(m.flags).pushed(m.cs).pushed(m.ip).sp) + 1 < m.ram.len(),
    ensures
        ({
            let n = timer_called(m, now);
            &&& n.ip == word_at(m.ram, 4 * 8int)
            &&& n.cs == word_at(m.ram, 4 * 8int + 2)
            &&& n.top() == m.ip
            &&& n.popped().top() == m.cs
            &&& n.popped().popped().top() == m.flags
            &&& n.popped().popped().popped().sp == m.sp
            &&& n.rest.last_timer_tick == now
        }),
{
    let one = m.pushed(m.flags);
    let two = one.pushed(m.cs);
    let three = two.pushed(m.ip);
    let (a, b, c) = (physical(m.ss, one.sp), physical(m.ss, two.sp), physical(m.ss, three.sp));
    super::cpu::law_pop_returns_push(m, m.flags);
    super::cpu::law_pop_returns_push(one, m.cs);
    super::cpu::law_pop_returns_push(two, m.ip);
    assert(a != b && a + 1 != b && b + 1 != a);
    assert(b != c && b + 1 != c && c + 1 != b);
    assert(a != c && a + 1 != c && c + 1 != a);
    assert(word_at(two.ram, a) == word_at(one.ram, a));
    assert(word_at(three.ram, a) == word_at(two.ram, a));
    assert(word_at(three.ram, b) == word_at(two.ram, b));
}

/// An instruction that does not jump goes on behind its own bytes.
pub proof fn law_next_lies_behind(m: Machine, i: Instruction)
    ensures
        past(m, i).ip == m.ip + i.len || past(m, i).ip == m.ip + i.len - 0x1_0000,
        past(m, i) == (Machine { ip: past(m, i).ip, ..m }),
{
}

} // verus!
