//! Registers set by name.

use vstd::prelude::*;

use super::address::{find_general, find_segment, general_named, hex_read, parse_hex, segment_named};
use crate::cpu::regs::{with_word, Seg};
use crate::cpu::state::{Core, Cpu, FLAGS16_WRITABLE, R1, VM};
use crate::text::{lower, lowercase, same};

verus! {

/// A register that can be set by name, and whether it is meant whole.
#[derive(Clone, Copy, Debug, PartialEq, Eq, Structural)]
pub enum RegName {
    General(usize, bool),
    Segment(Seg),
    Ip(bool),
    Flags(bool),
}

/// A value for a register: a number (None: not an unsigned integer),
/// hexadecimal digits, or something else.
#[derive(Debug)]
pub enum RegValue {
    Number(Option<u64>),
    Text(String),
    Other,
}

/// The register of a name.
pub open spec fn register_named(name: Seq<char>) -> Option<RegName> {
    let n = lower(name);
    match general_named(n) {
        Some((i, whole)) => Some(RegName::General(i as usize, whole)),
        None => match segment_named(n) {
            Some(seg) => Some(RegName::Segment(seg)),
            None => if n == "eip"@ {
                Some(RegName::Ip(true))
            } else if n == "ip"@ {
                Some(RegName::Ip(false))
            } else if n == "eflags"@ {
                Some(RegName::Flags(true))
            } else if n == "flags"@ {
                Some(RegName::Flags(false))
            } else {
                None
            },
        },
    }
}

fn find_register(name: &str) -> (reg: Option<RegName>)
    ensures
        reg == register_named(name@),
        reg matches Some(RegName::General(i, _)) ==> i < 8,
{
    let lowered = lowercase(name);
    let n = lowered.as_str();
    if let Some((i, whole)) = find_general(n) {
        return Some(RegName::General(i, whole));
    }
    if let Some(seg) = find_segment(n) {
        return Some(RegName::Segment(seg));
    }
    if same(n, "eip") {
        Some(RegName::Ip(true))
    } else if same(n, "ip") {
        Some(RegName::Ip(false))
    } else if same(n, "eflags") {
        Some(RegName::Flags(true))
    } else if same(n, "flags") {
        Some(RegName::Flags(false))
    } else {
        None
    }
}

impl RegName {
    /// Whether the register takes 32 bits.
    pub open spec fn takes_32(self) -> bool {
        match self {
            RegName::General(_, whole) => whole,
            RegName::Segment(_) => false,
            RegName::Ip(whole) => whole,
            RegName::Flags(whole) => whole,
        }
    }

    pub fn wide(self) -> (yes: bool)
        ensures
            yes == self.takes_32(),
    {
        match self {
            RegName::General(_, whole) => whole,
            RegName::Segment(_) => false,
            RegName::Ip(whole) => whole,
            RegName::Flags(whole) => whole,
        }
    }

    /// The processor after the register is set.
    pub open spec fn set_in(self, s: Core, v: u32) -> Core {
        match self {
            RegName::General(i, true) => s.with_gpr(i as int, v),
            RegName::General(i, false) => s.with_gpr(
                i as int,
                with_word(s.gpr[i as int], v as u16),
            ),
            RegName::Segment(seg) => s.seg_real(seg, v as u16),
            RegName::Ip(true) => Core { eip: v, ..s },
            RegName::Ip(false) => Core { eip: (v as u16) as u32, ..s },
            RegName::Flags(true) => s.with_flags(
                (s.flags & VM) | (v & (FLAGS16_WRITABLE | s.model_flags())) | R1,
            ),
            RegName::Flags(false) => s.with_flags(
                (s.flags & 0xFFFF_0000) | ((v as u16) as u32 & FLAGS16_WRITABLE) | R1,
            ),
        }
    }

    /// Set the register. Segment registers are loaded as in real mode.
    pub fn set(self, cpu: &mut Cpu, v: u32)
        requires
            self matches RegName::General(i, _) ==> i < 8,
        ensures
            final(cpu)@ == self.set_in(old(cpu)@, v),
    {
        match self {
            RegName::General(i, whole) => {
                if whole {
                    cpu.gpr[i] = v;
                } else {
                    let word: u16 = v as u16;
                    cpu.gpr[i] = (cpu.gpr[i] & 0xFFFF_0000) | word as u32;
                }
            },
            RegName::Segment(seg) => cpu.load_seg_real(seg, v as u16),
            RegName::Ip(whole) => {
                if whole {
                    cpu.set_eip(v);
                } else {
                    cpu.set_ip(v as u16);
                }
            },
            RegName::Flags(whole) => {
                if whole {
                    cpu.load_eflags(v);
                } else {
                    cpu.load_flags16(v as u16);
                }
            },
        }
    }
}

/// The value of an entry, or what is wrong with it.
pub open spec fn entry_value(name: Seq<char>, value: RegValue) -> Result<u32, Seq<char>> {
    match value {
        RegValue::Number(Some(n)) => Ok(n as u32),
        RegValue::Number(None) => Err(name + ": not an unsigned integer"@),
        RegValue::Text(s) => hex_read(s@),
        RegValue::Other => Err(name + ": value must be a number or hex string"@),
    }
}

/// What an entry sets, or what is wrong with it.
pub open spec fn entry_update(name: Seq<char>, value: RegValue) -> Result<
    (RegName, u32),
    Seq<char>,
> {
    match entry_value(name, value) {
        Err(m) => Err(m),
        Ok(v) => match register_named(name) {
            None => Err("unknown register '"@ + name + "'"@),
            Some(reg) => if !reg.takes_32() && v > 0xFFFF {
                Err(name + ": value exceeds 16 bits"@)
            } else {
                Ok((reg, v))
            },
        },
    }
}

/// What entries set, or what is wrong with the first bad one.
pub open spec fn entry_updates(entries: Seq<(String, RegValue)>) -> Result<
    Seq<(RegName, u32)>,
    Seq<char>,
>
    decreases entries.len(),
{
    if entries.len() == 0 {
        Ok(Seq::empty())
    } else {
        match entry_updates(entries.drop_last()) {
            Err(m) => Err(m),
            Ok(updates) => match entry_update(entries.last().0@, entries.last().1) {
                Err(m) => Err(m),
                Ok(u) => Ok(updates.push(u)),
            },
        }
    }
}

/// The processor after registers are set one after the other.
pub open spec fn updated(s: Core, updates: Seq<(RegName, u32)>) -> Core
    decreases updates.len(),
{
    if updates.len() == 0 {
        s
    } else {
        updates.last().0.set_in(updated(s, updates.drop_last()), updates.last().1)
    }
}

fn update_of(name: &String, value: &RegValue) -> (update: Result<(RegName, u32), String>)
    ensures
        match (update, entry_update(name@, *value)) {
            (Ok(a), Ok(b)) => a == b,
            (Err(e), Err(m)) => e@ == m,
            _ => false,
        },
        update matches Ok((RegName::General(i, _), _)) ==> i < 8,
{
    let v: u32 = match value {
        RegValue::Number(n) => match n {
            Some(n) => *n as u32,
            None => {
                let mut message = name.clone();
                message.append(": not an unsigned integer");
                return Err(message);
            },
        },
        RegValue::Text(s) => match parse_hex(s.as_str()) {
            Ok(v) => v,
            Err(e) => {
                return Err(e);
            },
        },
        RegValue::Other => {
            let mut message = name.clone();
            message.append(": value must be a number or hex string");
            return Err(message);
        },
    };
    match find_register(name.as_str()) {
        None => {
            let mut message = String::from_str("unknown register '");
            message.append(name.as_str());
            message.append("'");
            Err(message)
        },
        Some(reg) => {
            if !reg.wide() && v > 0xFFFF {
                let mut message = name.clone();
                message.append(": value exceeds 16 bits");
                Err(message)
            } else {
                Ok((reg, v))
            }
        },
    }
}

proof fn lemma_bad_entry(entries: Seq<(String, RegValue)>, n: int)
    requires
        0 <= n <= entries.len(),
        entry_updates(entries.take(n)) is Err,
    ensures
        entry_updates(entries) == entry_updates(entries.take(n)),
    decreases entries.len(),
{
    if n < entries.len() {
        assert(entries.drop_last().take(n) =~= entries.take(n));
        lemma_bad_entry(entries.drop_last(), n);
    } else {
        assert(entries.take(n) =~= entries);
    }
}

/// Set registers by name. Everything is checked first, so a bad entry doesn't
/// leave a partial update.
pub fn set_regs(cpu: &mut Cpu, entries: &Vec<(String, RegValue)>) -> (result: Result<(), String>)
    ensures
        match (result, entry_updates(entries@)) {
            (Ok(_), Ok(updates)) => final(cpu)@ == updated(old(cpu)@, updates),
            (Err(e), Err(m)) => e@ == m && final(cpu)@ == old(cpu)@,
            _ => false,
        },
{
    let mut updates: Vec<(RegName, u32)> = Vec::new();
    let mut i: usize = 0;
    assert(entries@.take(0) =~= Seq::empty());
    assert(updates@ =~= Seq::empty());
    while i < entries.len()
        invariant
            i <= entries@.len(),
            cpu@ == old(cpu)@,
            entry_updates(entries@.take(i as int)) == Ok::<Seq<(RegName, u32)>, Seq<char>>(
                updates@,
            ),
            forall|j: int|
                0 <= j < updates@.len() ==> (#[trigger] updates@[j].0 matches RegName::General(
                    n,
                    _,
                ) ==> n < 8),
        decreases entries.len() - i,
    {
        assert(entries@.take(i + 1).drop_last() =~= entries@.take(i as int));
        match update_of(&entries[i].0, &entries[i].1) {
            Ok(u) => updates.push(u),
            Err(e) => {
                proof {
                    lemma_bad_entry(entries@, i + 1);
                }
                return Err(e);
            },
        }
        i = i + 1;
    }
    assert(entries@.take(i as int) =~= entries@);
    let mut i: usize = 0;
    while i < updates.len()
        invariant
            i <= updates@.len(),
            cpu@ == updated(old(cpu)@, updates@.take(i as int)),
            forall|j: int|
                0 <= j < updates@.len() ==> (#[trigger] updates@[j].0 matches RegName::General(
                    n,
                    _,
                ) ==> n < 8),
        decreases updates.len() - i,
    {
        assert(updates@.take(i + 1).drop_last() =~= updates@.take(i as int));
        let reg = updates[i].0;
        assert(updates@[i as int].0 == reg);
        reg.set(cpu, updates[i].1);
        i = i + 1;
    }
    assert(updates@.take(i as int) =~= updates@);
    Ok(())
}

/// A register set by name to a value that fits it reads back: general
/// registers, segment registers and the instruction pointer hold it.
pub proof fn law_set_register_reads_back(s: Core, reg: RegName, v: u32)
    requires
        s.wf(),
        reg matches RegName::General(i, _) ==> i < 8,
        reg.takes_32() || v <= 0xFFFF,
    ensures
        match reg {
            RegName::General(i, true) => reg.set_in(s, v).gpr[i as int] == v,
            RegName::General(i, false) => reg.set_in(s, v).gpr[i as int] as u16 == v,
            RegName::Segment(seg) => reg.set_in(s, v).cache(seg).selector == v,
            RegName::Ip(_) => reg.set_in(s, v).eip == v,
            RegName::Flags(_) => true,
        },
{
    match reg {
        RegName::General(i, false) => {
            let before = s.gpr[i as int];
            let word = v as u16;
            assert(((before & 0xFFFF_0000) | (word as u32)) as u16 == word) by (bit_vector);
        },
        _ => {},
    }
}

} // verus!
