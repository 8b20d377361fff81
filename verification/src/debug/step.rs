//! Stepping over an instruction, and disassembling from an address.

use vstd::prelude::*;

use crate::bus::byte_at;
use crate::cpu::regs::{Seg, ATTR_DB};
use crate::cpu::state::{Core, Cpu};
use crate::decode::{decode_at_zero, decoded, instruction_of, Flow, Instruction, Mnemonic};

verus! {

/// How long an instruction is that stepping over runs to the end of.
pub open spec fn runs_over(i: Instruction) -> Option<usize> {
    let over = i.flow == Flow::Call || i.flow == Flow::IndirectCall || i.flow == Flow::Interrupt
        || i.mnemonic == Mnemonic::Loop || i.mnemonic == Mnemonic::Loope || i.mnemonic
        == Mnemonic::Loopne || (i.string && (i.rep_prefix || i.repne_prefix));
    if !i.invalid && over {
        Some(i.len as usize)
    } else {
        None
    }
}

/// The length of a decoded instruction if stepping over it runs to the
/// instruction after it, else None.
pub fn over_length(i: &Instruction) -> (len: Option<usize>)
    ensures
        len == runs_over(*i),
{
    if i.invalid {
        return None;
    }
    let over = i.flow == Flow::Call || i.flow == Flow::IndirectCall || i.flow == Flow::Interrupt
        || i.mnemonic == Mnemonic::Loop || i.mnemonic == Mnemonic::Loope || i.mnemonic
        == Mnemonic::Loopne || (i.string && (i.rep_prefix || i.repne_prefix));
    if over {
        Some(i.len as usize)
    } else {
        None
    }
}

/// Whether bytes are a trap of the emulator.
pub open spec fn own_trap(bytes: Seq<u8>) -> bool {
    bytes.len() >= 2 && bytes[0] == 0xFE && (bytes[1] == 0x38 || bytes[1] == 0x39)
}

/// How long an instruction is that stepping over runs to the end of.
pub open spec fn stepped_over(bytes: Seq<u8>, code32: bool) -> Option<usize> {
    if own_trap(bytes) {
        None
    } else {
        runs_over(
            instruction_of(
                decoded(
                    if code32 {
                        32
                    } else {
                        16
                    },
                    bytes,
                    0,
                ),
            ),
        )
    }
}

/// The length of the instruction in `bytes` if stepping over it runs to
/// the instruction after it, else None.
pub fn step_over_len(bytes: &[u8], code32: bool) -> (len: Option<usize>)
    ensures
        len == stepped_over(bytes@, code32),
{
    // The emulator's own interrupt handlers run in one step.
    if bytes.len() >= 2 && bytes[0] == 0xFE && (bytes[1] == 0x38 || bytes[1] == 0x39) {
        return None;
    }
    let instruction = decode_at_zero(bytes, code32);
    over_length(&instruction)
}

/// The byte `i` after CS:EIP; unmapped bytes read as FFh.
pub open spec fn code_byte(s: Core, i: u32) -> u8 {
    match s.peek(s.cache(Seg::CS).base.wrapping_add(s.eip.wrapping_add(i))) {
        Some(p) => byte_at(s.ram, p as int),
        None => 0xFF,
    }
}

/// The bytes at CS:EIP that an instruction may have.
pub open spec fn code_at(s: Core) -> Seq<u8> {
    Seq::new(15, |i: int| code_byte(s, i as u32))
}

/// Where stepping over the instruction at CS:EIP stops.
pub open spec fn next_stop(s: Core) -> Option<usize> {
    let wide = s.cache(Seg::CS).attr & ATTR_DB != 0;
    match stepped_over(code_at(s), wide) {
        None => None,
        Some(len) => {
            let next = s.eip.wrapping_add(len as u32);
            let next = if wide {
                next
            } else {
                next & 0xFFFF
            };
            match s.peek(s.cache(Seg::CS).base.wrapping_add(next)) {
                Some(p) => Some(p as usize),
                None => None,
            }
        },
    }
}

/// Where stepping over the instruction at CS:EIP stops: the physical
/// address of the next instruction, when the instruction is one that runs
/// code or repeats before getting there (a call, an interrupt, a loop, a
/// repeated string instruction). None for the others, which a single step
/// does.
pub fn step_over_target(cpu: &Cpu) -> (next: Option<usize>)
    ensures
        next == next_stop(cpu@),
{
    let cs = cpu.seg_cache(Seg::CS);
    let code32 = cs.attr & ATTR_DB != 0;
    let eip: u32 = cpu.eip();
    let mut bytes: Vec<u8> = Vec::new();
    let mut i: u32 = 0;
    while i < 15
        invariant
            i <= 15,
            cs == cpu@.cache(Seg::CS),
            eip == cpu@.eip,
            bytes@.len() == i,
            forall|j: int| 0 <= j < i ==> bytes@[j] == code_byte(cpu@, j as u32),
        decreases 15 - i,
    {
        let byte: u8 = match cpu.peek_translate(cs.base.wrapping_add(eip.wrapping_add(i))) {
            Some(p) => cpu.bus.read_8(p as usize),
            None => 0xFF,
        };
        bytes.push(byte);
        i = i + 1;
    }
    assert(bytes@ =~= code_at(cpu@));
    let len: usize = match step_over_len(bytes.as_slice(), code32) {
        Some(len) => len,
        None => {
            return None;
        },
    };
    let next: u32 = eip.wrapping_add(len as u32);
    let next: u32 = if code32 {
        next
    } else {
        next & 0xFFFF
    };
    match cpu.peek_translate(cs.base.wrapping_add(next)) {
        Some(p) => Some(p as usize),
        None => None,
    }
}

} // verus!
