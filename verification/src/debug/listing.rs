//! A disassembly listing from an address.

use vstd::prelude::*;

use super::address::{code32, runs_wide, DebugAddr};
use super::trace::{disasm_one, disassembled, hex_bytes, hex_row};
use crate::cpu::regs::Seg;
use crate::cpu::state::{Core, Cpu};
use crate::text::{hex_string, hex_text, left_aligned, push_hex, push_left};

verus! {

/// The most lines of a listing.
pub const LISTING_LIMIT: usize = 1000;

/// A line of a disassembly.
#[derive(Debug)]
pub struct Row {
    pub label: String,
    pub phys: Option<usize>,
    pub bytes: String,
    pub text: String,
    pub len: usize,
    /// Whether CS:EIP is here.
    pub current: bool,
    pub breakpoint: bool,
    /// All of it in a line.
    pub line: String,
}

impl DebugAddr {
    /// Physical address of byte `i`, where the machine could have it.
    pub open spec fn slot(self, s: Core, i: int) -> Option<usize> {
        match self.at(s, i) {
            Some(p) => if p <= usize::MAX {
                Some(p as usize)
            } else {
                None
            },
            None => None,
        }
    }

    /// Physical address of byte `i`, or None if its page isn't mapped.
    pub fn byte_slot(&self, cpu: &Cpu, i: usize) -> (phys: Option<usize>)
        ensures
            phys == self.slot(cpu@, i as int),
    {
        if self.lin.is_none() {
            if let Some(p) = self.phys {
                if p > usize::MAX - i {
                    return None;
                }
            }
        }
        self.byte(cpu, i)
    }

    /// The 15 bytes from byte `at` on; unmapped bytes read as FFh.
    pub open spec fn window(self, s: Core, at: int) -> Seq<u8> {
        Seq::new(15, |i: int| self.value(s, at + i))
    }

    fn read_window(&self, cpu: &Cpu, at: usize) -> (bytes: Vec<u8>)
        requires
            at + 15 <= usize::MAX,
        ensures
            bytes@ == self.window(cpu@, at as int),
    {
        let mut bytes: Vec<u8> = Vec::new();
        let mut i: usize = 0;
        while i < 15
            invariant
                i <= 15,
                at + 15 <= usize::MAX,
                bytes@.len() == i,
                forall|j: int| 0 <= j < i ==> bytes@[j] == self.value(cpu@, at + j),
            decreases 15 - i,
        {
            let b: u8 = match self.byte_slot(cpu, at + i) {
                Some(p) => cpu.bus.read_8(p),
                None => 0xFF,
            };
            assert(cpu.bus.ram@.len() == cpu.bus.ram.len());
            assert(b == self.value(cpu@, at + i));
            bytes.push(b);
            i = i + 1;
        }
        assert(bytes@ =~= self.window(cpu@, at as int));
        bytes
    }
}

/// An instruction disassembled for a listing; the emulator's traps are shown
/// as what they invoke.
pub open spec fn shown(bytes: Seq<u8>, ip: u32, wide: bool) -> (int, Seq<char>) {
    if bytes[0] == 0xFE && bytes[1] == 0x38 {
        (3, "HLE INT "@ + hex_text(bytes[2] as nat, 2) + "h"@)
    } else if bytes[0] == 0xFE && bytes[1] == 0x39 {
        (3, "HLE service "@ + hex_text(bytes[2] as nat, 2) + "h"@)
    } else {
        disassembled(bytes, ip, wide)
    }
}

fn show(bytes: &Vec<u8>, ip: u32, wide: bool) -> (one: (usize, String))
    requires
        bytes@.len() == 15,
    ensures
        (one.0 as int, one.1@) == shown(bytes@, ip, wide),
        one.0 <= 255,
{
    if bytes[0] == 0xFE && bytes[1] == 0x38 {
        let mut text = String::from_str("HLE INT ");
        push_hex(&mut text, bytes[2] as u64, 2);
        text.append("h");
        (3, text)
    } else if bytes[0] == 0xFE && bytes[1] == 0x39 {
        let mut text = String::from_str("HLE service ");
        push_hex(&mut text, bytes[2] as u64, 2);
        text.append("h");
        (3, text)
    } else {
        disasm_one(bytes.as_slice(), ip, wide)
    }
}

impl DebugAddr {
    /// Whether code from here is 32-bit code.
    pub open spec fn wide(self, s: Core) -> bool {
        match self.segoff {
            Some((sel, _)) => runs_wide(s, sel),
            None => false,
        }
    }

    /// The instruction pointer at a distance from here.
    pub open spec fn ip(self, at: int) -> u32 {
        match self.segoff {
            Some((_, off)) => off.wrapping_add(at as u32),
            None => at as u32,
        }
    }

    /// The instruction at a distance from here.
    pub open spec fn instruction(self, s: Core, at: int) -> (int, Seq<char>) {
        shown(self.window(s, at), self.ip(at), self.wide(s))
    }

    /// Where the lines of a listing begin.
    pub open spec fn line_at(self, s: Core, k: int) -> int
        decreases k,
    {
        if k <= 0 {
            0
        } else {
            let before = self.line_at(s, k - 1);
            before + self.instruction(s, before).0
        }
    }

    /// What stands before an instruction.
    pub open spec fn label(self, s: Core, at: int) -> Seq<char> {
        match self.segoff {
            Some((sel, off)) => hex_text(sel as nat, 4) + ":"@ + (if self.wide(s) || off > 0xFFFF {
                hex_text(off.wrapping_add(at as u32) as nat, 8)
            } else {
                hex_text(((off + at) % 0x1_0000) as nat, 4)
            }),
            None => hex_text(
                (at + match (self.lin, self.phys) {
                    (Some(l), _) => l as int,
                    (None, Some(p)) => p as int,
                    (None, None) => 0,
                }) as nat,
                8,
            ),
        }
    }

    fn make_label(&self, wide: bool, at: usize) -> (label: String)
        requires
            at <= 0xFFFF_FFFF,
            self.lin is None ==> (self.phys matches Some(p) ==> p + at <= u64::MAX),
        ensures
            forall|s: Core| #[trigger] self.wide(s) == wide ==> label@ == self.label(s, at as int),
    {
        match self.segoff {
            Some((sel, off)) => {
                let mut label = hex_string(sel as u64, 4);
                label.append(":");
                if wide || off > 0xFFFF {
                    push_hex(&mut label, off.wrapping_add(at as u32) as u64, 8);
                } else {
                    push_hex(&mut label, (off as u64 + at as u64) % 0x1_0000, 4);
                }
                label
            },
            None => {
                let base: u64 = match self.lin {
                    Some(l) => l as u64,
                    None => match self.phys {
                        Some(p) => p as u64,
                        None => 0,
                    },
                };
                hex_string(base + at as u64, 8)
            },
        }
    }
}

/// The mark of a line: where CS:EIP is, and where a breakpoint is.
pub open spec fn mark(current: bool, breakpoint: bool) -> Seq<char> {
    match (current, breakpoint) {
        (true, true) => "=>*"@,
        (true, false) => "=> "@,
        (false, true) => "  *"@,
        (false, false) => "   "@,
    }
}

/// Where CS:EIP is in memory.
pub open spec fn current_at(s: Core) -> Option<usize> {
    match s.peek(s.cache(Seg::CS).base.wrapping_add(s.eip)) {
        Some(p) => Some(p as usize),
        None => None,
    }
}

/// The bytes of an instruction in hexadecimal.
pub open spec fn code_hex(bytes: Seq<u8>, len: int) -> Seq<char> {
    hex_row(
        bytes.take(
            if len < 15 {
                len
            } else {
                15
            },
        ),
    )
}

impl Row {
    /// Whether the row tells of the instruction at a distance from an
    /// address.
    pub open spec fn tells(&self, s: Core, breakpoints: Set<usize>, a: DebugAddr, at: int) -> bool {
        let (len, text) = a.instruction(s, at);
        &&& self.label@ == a.label(s, at)
        &&& self.phys == a.slot(s, at)
        &&& self.bytes@ == code_hex(a.window(s, at), len)
        &&& self.text@ == text
        &&& self.len == len
        &&& self.current == (self.phys is Some && self.phys == current_at(s))
        &&& self.breakpoint == (self.phys matches Some(p) && breakpoints.contains(p))
        &&& self.line@ == mark(self.current, self.breakpoint) + " "@ + self.label@ + "  "@
            + left_aligned(self.bytes@, 20) + " "@ + self.text@
    }
}

fn has(breakpoints: &Vec<usize>, phys: usize) -> (yes: bool)
    ensures
        yes == breakpoints@.to_set().contains(phys),
{
    let mut i: usize = 0;
    while i < breakpoints.len()
        invariant
            i <= breakpoints@.len(),
            forall|j: int| 0 <= j < i ==> breakpoints@[j] != phys,
        decreases breakpoints.len() - i,
    {
        if breakpoints[i] == phys {
            assert(breakpoints@.contains(breakpoints@[i as int]));
            return true;
        }
        i = i + 1;
    }
    false
}

fn line_of(current: bool, breakpoint: bool, label: &str, bytes: &str, text: &str) -> (line: String)
    ensures
        line@ == mark(current, breakpoint) + " "@ + label@ + "  "@ + left_aligned(bytes@, 20)
            + " "@ + text@,
{
    let mut line = String::from_str(
        match (current, breakpoint) {
            (true, true) => "=>*",
            (true, false) => "=> ",
            (false, true) => "  *",
            (false, false) => "   ",
        },
    );
    line.append(" ");
    line.append(label);
    line.append("  ");
    push_left(&mut line, bytes, 20);
    line.append(" ");
    line.append(text);
    line
}

fn row(cpu: &Cpu, breakpoints: &Vec<usize>, a: &DebugAddr, wide: bool, at: usize) -> (row: Row)
    requires
        at <= 0x10_0000,
        wide == a.wide(cpu@),
        a.lin is None ==> (a.phys matches Some(p) ==> p + at <= u64::MAX),
    ensures
        row.tells(cpu@, breakpoints@.to_set(), *a, at as int),
        row.len <= 255,
{
    let phys = a.byte_slot(cpu, at);
    let window = a.read_window(cpu, at);
    let ip: u32 = match a.segoff {
        Some((_, off)) => off.wrapping_add(at as u32),
        None => at as u32,
    };
    let (len, text): (usize, String) = show(&window, ip, wide);
    let cs = cpu.seg_cache(Seg::CS);
    let current = match (phys, cpu.peek_translate(cs.base.wrapping_add(cpu.eip()))) {
        (Some(p), Some(q)) => p == q as usize,
        _ => false,
    };
    let breakpoint = match phys {
        Some(p) => has(breakpoints, p),
        None => false,
    };
    let used: usize = if len < 15 {
        len
    } else {
        15
    };
    let code = vstd::slice::slice_subrange(window.as_slice(), 0, used);
    assert(code@ =~= window@.take(used as int));
    let bytes = hex_bytes(code);
    let label = a.make_label(wide, at);
    let line = line_of(current, breakpoint, label.as_str(), bytes.as_str(), text.as_str());
    Row { label, phys, bytes, text, len, current, breakpoint, line }
}

/// Disassemble from an address: at most so many lines, one instruction after
/// the other.
pub fn listing(cpu: &Cpu, breakpoints: &Vec<usize>, a: &DebugAddr, count: usize) -> (rows: Vec<Row>)
    requires
        a.lin is None ==> (a.phys matches Some(p) ==> p <= 0xFFFF_FFFF),
    ensures
        rows@.len() == (if count < LISTING_LIMIT {
            count
        } else {
            LISTING_LIMIT
        }),
        forall|k: int|
            0 <= k < rows@.len() ==> (#[trigger] rows@[k]).tells(
                cpu@,
                breakpoints@.to_set(),
                *a,
                a.line_at(cpu@, k),
            ),
{
    let wide = match a.segoff {
        Some((sel, _)) => code32(cpu, sel),
        None => false,
    };
    let most: usize = if count < LISTING_LIMIT {
        count
    } else {
        LISTING_LIMIT
    };
    let mut rows: Vec<Row> = Vec::new();
    let mut at: usize = 0;
    let mut k: usize = 0;
    while k < most
        invariant
            k <= most <= LISTING_LIMIT,
            wide == a.wide(cpu@),
            a.lin is None ==> (a.phys matches Some(p) ==> p <= 0xFFFF_FFFF),
            at <= 255 * k,
            at == a.line_at(cpu@, k as int),
            rows@.len() == k,
            forall|j: int|
                0 <= j < k ==> (#[trigger] rows@[j]).tells(
                    cpu@,
                    breakpoints@.to_set(),
                    *a,
                    a.line_at(cpu@, j),
                ),
        decreases most - k,
    {
        let one = row(cpu, breakpoints, a, wide, at);
        at = at + one.len;
        rows.push(one);
        k = k + 1;
    }
    rows
}

} // verus!
