//! Addresses as the debugger is given them, through selectors and page
//! tables. Everything here only reads: nothing faults, sets accessed bits or
//! fills the TLB.

use vstd::prelude::*;

use crate::bus::byte_at;
use crate::cpu::regs::{Seg, ATTR_DB};
use crate::cpu::seg::Descriptor;
use crate::cpu::state::{Core, Cpu};
use crate::text::{
    chars_of, first_of, first_place, hex_string, hex_text, lower, lowercase, same, text_between,
    trim, trimmed,
};

verus! {

/// An address the debugger was given, resolved.
#[derive(Clone, Copy, Debug, PartialEq, Eq)]
pub struct DebugAddr {
    /// Physical address of the first byte (None: its page isn't mapped).
    pub phys: Option<usize>,
    /// The linear address, when the address was segmented or linear:
    /// following bytes are translated page by page.
    pub lin: Option<u32>,
    /// The segment or selector and offset, when given that way.
    pub segoff: Option<(u16, u32)>,
}

impl DebugAddr {
    /// Physical address of byte `i`.
    pub open spec fn at(self, s: Core, i: int) -> Option<int> {
        match self.lin {
            Some(lin) => match s.peek(lin.wrapping_add(i as u32)) {
                Some(p) => Some(p as int),
                None => None,
            },
            None => match self.phys {
                Some(p) => Some(p + i),
                None => None,
            },
        }
    }

    /// Byte `i`; unmapped bytes read as FFh.
    pub open spec fn value(self, s: Core, i: int) -> u8 {
        match self.at(s, i) {
            Some(p) => byte_at(s.ram, p),
            None => 0xFF,
        }
    }

    /// Physical address of byte `i`, or None if its page isn't mapped.
    pub fn byte(&self, cpu: &Cpu, i: usize) -> (phys: Option<usize>)
        requires
            self.lin is None ==> (self.phys matches Some(p) ==> p + i <= usize::MAX),
        ensures
            match (phys, self.at(cpu@, i as int)) {
                (Some(p), Some(q)) => p == q,
                (None, None) => true,
                _ => false,
            },
    {
        match self.lin {
            Some(lin) => match cpu.peek_translate(lin.wrapping_add(i as u32)) {
                Some(p) => Some(p as usize),
                None => None,
            },
            None => match self.phys {
                Some(p) => Some(p + i),
                None => None,
            },
        }
    }

    /// `len` bytes from here; unmapped bytes read as FFh.
    pub fn read(&self, cpu: &Cpu, len: usize) -> (bytes: Vec<u8>)
        requires
            self.lin is None ==> (self.phys matches Some(p) ==> p + len <= usize::MAX),
        ensures
            bytes@ == Seq::new(len as nat, |i: int| self.value(cpu@, i)),
    {
        let mut bytes: Vec<u8> = Vec::new();
        let mut i: usize = 0;
        while i < len
            invariant
                i <= len,
                self.lin is None ==> (self.phys matches Some(p) ==> p + len <= usize::MAX),
                bytes@.len() == i,
                forall|j: int| 0 <= j < i ==> bytes@[j] == self.value(cpu@, j),
            decreases len - i,
        {
            let b: u8 = match self.byte(cpu, i) {
                Some(p) => cpu.bus.read_8(p),
                None => 0xFF,
            };
            bytes.push(b);
            i = i + 1;
        }
        assert(bytes@ =~= Seq::new(len as nat, |i: int| self.value(cpu@, i)));
        bytes
    }
}

/// The value of a hexadecimal digit.
pub open spec fn hex_digit(c: char) -> Option<int> {
    if '0' <= c <= '9' {
        Some(c as u32 - 0x30)
    } else if 'a' <= c <= 'f' {
        Some(c as u32 - 0x61 + 10)
    } else if 'A' <= c <= 'F' {
        Some(c as u32 - 0x41 + 10)
    } else {
        None
    }
}

pub(crate) fn digit_value(c: char) -> (value: Option<u32>)
    ensures
        match (value, hex_digit(c)) {
            (Some(v), Some(d)) => v == d && v < 16,
            (None, None) => true,
            _ => false,
        },
{
    let n: u32 = c as u32;
    if '0' <= c && c <= '9' {
        Some(n - 0x30)
    } else if 'a' <= c && c <= 'f' {
        Some(n - 0x61 + 10)
    } else if 'A' <= c && c <= 'F' {
        Some(n - 0x41 + 10)
    } else {
        None
    }
}

/// The number that hexadecimal digits make, if all are.
pub open spec fn hex_number(digits: Seq<char>) -> Option<int>
    decreases digits.len(),
{
    if digits.len() == 0 {
        Some(0)
    } else {
        match (hex_number(digits.drop_last()), hex_digit(digits.last())) {
            (Some(n), Some(d)) => Some(n * 16 + d),
            _ => None,
        }
    }
}

/// A text without what a hexadecimal number may have around its digits: 0x
/// before and h behind.
pub open spec fn bare_hex(text: Seq<char>) -> Seq<char> {
    let t = trimmed(text);
    let t = if t.len() >= 2 && t[0] == '0' && (t[1] == 'x' || t[1] == 'X') {
        t.subrange(2, t.len() as int)
    } else {
        t
    };
    if t.len() > 0 && (t.last() == 'h' || t.last() == 'H') {
        t.drop_last()
    } else {
        t
    }
}

/// The number of a text with an optional plus sign and digits, if it fits 32
/// bits.
pub open spec fn hex_value(text: Seq<char>) -> Option<u32> {
    let t = bare_hex(text);
    let digits = if t.len() > 0 && t[0] == '+' {
        t.subrange(1, t.len() as int)
    } else {
        t
    };
    if digits.len() == 0 {
        None
    } else {
        match hex_number(digits) {
            Some(n) => if n <= 0xFFFF_FFFF {
                Some(n as u32)
            } else {
                None
            },
            None => None,
        }
    }
}

/// A number read, or what is wrong with its text.
pub open spec fn hex_read(text: Seq<char>) -> Result<u32, Seq<char>> {
    match hex_value(text) {
        Some(n) => Ok(n),
        None => Err("invalid hex number '"@ + text + "'"@),
    }
}

/// Whether a result is another with its message as a text.
pub open spec fn same_result<T>(got: Result<T, String>, want: Result<T, Seq<char>>) -> bool {
    match (got, want) {
        (Ok(a), Ok(b)) => a == b,
        (Err(e), Err(m)) => e@ == m,
        _ => false,
    }
}

proof fn lemma_number_grows(digits: Seq<char>, n: int)
    requires
        0 <= n <= digits.len(),
        hex_number(digits) is Some,
    ensures
        hex_number(digits.take(n)) is Some,
        0 <= hex_number(digits.take(n))->0 <= hex_number(digits)->0,
    decreases digits.len(),
{
    if n < digits.len() {
        lemma_number_grows(digits.drop_last(), n);
        assert(digits.drop_last().take(n) =~= digits.take(n));
    } else {
        assert(digits.take(n) =~= digits);
        if n > 0 {
            lemma_number_grows(digits.drop_last(), n - 1);
        }
    }
}

fn number_between(chars: &Vec<char>, from: usize, to: usize) -> (value: Option<u32>)
    requires
        from < to <= chars@.len(),
    ensures
        match (value, hex_number(chars@.subrange(from as int, to as int))) {
            (Some(v), Some(n)) => v == n,
            (None, Some(n)) => n > 0xFFFF_FFFF,
            (None, None) => true,
            _ => false,
        },
{
    let ghost digits = chars@.subrange(from as int, to as int);
    let mut value: u32 = 0;
    let mut i: usize = from;
    assert(digits.take(0) =~= Seq::empty());
    while i < to
        invariant
            from <= i <= to <= chars@.len(),
            digits == chars@.subrange(from as int, to as int),
            hex_number(digits.take(i - from)) == Some(value as int),
        decreases to - i,
    {
        assert(digits.take(i - from + 1).drop_last() =~= digits.take(i - from));
        assert(digits.take(i - from + 1).last() == chars@[i as int]);
        let d: u32 = match digit_value(chars[i]) {
            Some(d) => d,
            None => {
                proof {
                    if hex_number(digits) is Some {
                        lemma_number_grows(digits, i - from + 1);
                    }
                }
                return None;
            },
        };
        let wide: u64 = value as u64 * 16 + d as u64;
        if wide > 0xFFFF_FFFF {
            proof {
                if hex_number(digits) is Some {
                    lemma_number_grows(digits, i - from + 1);
                }
            }
            return None;
        }
        value = wide as u32;
        i = i + 1;
    }
    assert(digits.take(i - from) =~= digits);
    Some(value)
}

/// Parse a hex number with optional `0x` prefix / `h` suffix.
pub fn parse_hex(s: &str) -> (value: Result<u32, String>)
    ensures
        same_result(value, hex_read(s@)),
{
    let t = trim(s);
    let chars = chars_of(t.as_str());
    let n: usize = chars.len();
    let mut from: usize = if n >= 2 && chars[0] == '0' && (chars[1] == 'x' || chars[1] == 'X') {
        2
    } else {
        0
    };
    let to: usize = if n > from && (chars[n - 1] == 'h' || chars[n - 1] == 'H') {
        n - 1
    } else {
        n
    };
    assert(chars@.subrange(from as int, to as int) =~= bare_hex(s@));
    if from < to && chars[from] == '+' {
        from = from + 1;
        assert(chars@.subrange(from as int, to as int) =~= bare_hex(s@).subrange(
            1,
            bare_hex(s@).len() as int,
        ));
    }
    if from < to {
        if let Some(value) = number_between(&chars, from, to) {
            return Ok(value);
        }
    }
    let mut message = String::from_str("invalid hex number '");
    message.append(s);
    message.append("'");
    Err(message)
}

/// The segment register with a name in small letters.
pub open spec fn segment_named(name: Seq<char>) -> Option<Seg> {
    if name == "es"@ {
        Some(Seg::ES)
    } else if name == "cs"@ {
        Some(Seg::CS)
    } else if name == "ss"@ {
        Some(Seg::SS)
    } else if name == "ds"@ {
        Some(Seg::DS)
    } else if name == "fs"@ {
        Some(Seg::FS)
    } else if name == "gs"@ {
        Some(Seg::GS)
    } else {
        None
    }
}

pub(crate) fn find_segment(name: &str) -> (seg: Option<Seg>)
    ensures
        seg == segment_named(name@),
{
    if same(name, "es") {
        Some(Seg::ES)
    } else if same(name, "cs") {
        Some(Seg::CS)
    } else if same(name, "ss") {
        Some(Seg::SS)
    } else if same(name, "ds") {
        Some(Seg::DS)
    } else if same(name, "fs") {
        Some(Seg::FS)
    } else if same(name, "gs") {
        Some(Seg::GS)
    } else {
        None
    }
}

/// Where a register named in an address stands, and whether it is meant
/// whole.
pub open spec fn general_named(name: Seq<char>) -> Option<(int, bool)> {
    if name == "eax"@ {
        Some((0int, true))
    } else if name == "ebx"@ {
        Some((3int, true))
    } else if name == "ecx"@ {
        Some((1int, true))
    } else if name == "edx"@ {
        Some((2int, true))
    } else if name == "esi"@ {
        Some((6int, true))
    } else if name == "edi"@ {
        Some((7int, true))
    } else if name == "ebp"@ {
        Some((5int, true))
    } else if name == "esp"@ {
        Some((4int, true))
    } else if name == "ax"@ {
        Some((0int, false))
    } else if name == "bx"@ {
        Some((3int, false))
    } else if name == "cx"@ {
        Some((1int, false))
    } else if name == "dx"@ {
        Some((2int, false))
    } else if name == "si"@ {
        Some((6int, false))
    } else if name == "di"@ {
        Some((7int, false))
    } else if name == "bp"@ {
        Some((5int, false))
    } else if name == "sp"@ {
        Some((4int, false))
    } else {
        None
    }
}

pub(crate) fn find_general(name: &str) -> (found: Option<(usize, bool)>)
    ensures
        match (found, general_named(name@)) {
            (Some((i, whole)), Some((j, w))) => i == j && whole == w && i < 8,
            (None, None) => true,
            _ => false,
        },
{
    if same(name, "eax") {
        Some((0, true))
    } else if same(name, "ebx") {
        Some((3, true))
    } else if same(name, "ecx") {
        Some((1, true))
    } else if same(name, "edx") {
        Some((2, true))
    } else if same(name, "esi") {
        Some((6, true))
    } else if same(name, "edi") {
        Some((7, true))
    } else if same(name, "ebp") {
        Some((5, true))
    } else if same(name, "esp") {
        Some((4, true))
    } else if same(name, "ax") {
        Some((0, false))
    } else if same(name, "bx") {
        Some((3, false))
    } else if same(name, "cx") {
        Some((1, false))
    } else if same(name, "dx") {
        Some((2, false))
    } else if same(name, "si") {
        Some((6, false))
    } else if same(name, "di") {
        Some((7, false))
    } else if same(name, "bp") {
        Some((5, false))
    } else if same(name, "sp") {
        Some((4, false))
    } else {
        None
    }
}

/// Value of a register named in an address: general-purpose (16-bit forms
/// of the 32-bit registers too), EIP/IP or a segment register.
pub open spec fn register_value(s: Core, name: Seq<char>) -> Option<u32> {
    let n = lower(name);
    match general_named(n) {
        Some((i, whole)) => Some(
            if whole {
                s.gpr[i]
            } else {
                (s.gpr[i] as u16) as u32
            },
        ),
        None => if n == "eip"@ {
            Some(s.eip)
        } else if n == "ip"@ {
            Some((s.eip as u16) as u32)
        } else {
            match segment_named(n) {
                Some(seg) => Some(s.cache(seg).selector as u32),
                None => None,
            }
        },
    }
}

fn register(cpu: &Cpu, name: &str) -> (value: Option<u32>)
    ensures
        value == register_value(cpu@, name@),
{
    let n = lowercase(name);
    let text = n.as_str();
    match find_general(text) {
        Some((i, whole)) => Some(
            if whole {
                cpu.gpr[i]
            } else {
                (cpu.gpr[i] as u16) as u32
            },
        ),
        None => if same(text, "eip") {
            Some(cpu.eip)
        } else if same(text, "ip") {
            Some((cpu.eip as u16) as u32)
        } else {
            match find_segment(text) {
                Some(seg) => Some(cpu.seg_cache(seg).selector as u32),
                None => None,
            }
        },
    }
}

/// A double word at a linear address, if its pages are mapped.
pub open spec fn peeked_dword(s: Core, lin: u32) -> Option<u32> {
    match (
        s.peek(lin),
        s.peek(lin.wrapping_add(1)),
        s.peek(lin.wrapping_add(2)),
        s.peek(lin.wrapping_add(3)),
    ) {
        (Some(a), Some(b), Some(c), Some(d)) => Some(
            (byte_at(s.ram, a as int) + 0x100 * byte_at(s.ram, b as int) + 0x1_0000 * byte_at(
                s.ram,
                c as int,
            ) + 0x100_0000 * byte_at(s.ram, d as int)) as u32,
        ),
        _ => None,
    }
}

pub(crate) fn peek_u32(cpu: &Cpu, lin: u32) -> (value: Option<u32>)
    ensures
        value == peeked_dword(cpu@, lin),
{
    let a: u32 = match cpu.peek_translate(lin) {
        Some(p) => p,
        None => {
            return None;
        },
    };
    let b: u32 = match cpu.peek_translate(lin.wrapping_add(1)) {
        Some(p) => p,
        None => {
            return None;
        },
    };
    let c: u32 = match cpu.peek_translate(lin.wrapping_add(2)) {
        Some(p) => p,
        None => {
            return None;
        },
    };
    let d: u32 = match cpu.peek_translate(lin.wrapping_add(3)) {
        Some(p) => p,
        None => {
            return None;
        },
    };
    let low: u32 = cpu.bus.read_8(a as usize) as u32 + 0x100 * cpu.bus.read_8(b as usize) as u32;
    let high: u32 = cpu.bus.read_8(c as usize) as u32 + 0x100 * cpu.bus.read_8(d as usize) as u32;
    Some(low + 0x1_0000 * high)
}

/// Eight bytes at a linear address.
pub open spec fn peeked_quad(s: Core, lin: u32) -> Option<u64> {
    match (peeked_dword(s, lin), peeked_dword(s, lin.wrapping_add(4))) {
        (Some(low), Some(high)) => Some((low + 0x1_0000_0000 * high) as u64),
        _ => None,
    }
}

pub(crate) fn peek_u64(cpu: &Cpu, lin: u32) -> (value: Option<u64>)
    ensures
        value == peeked_quad(cpu@, lin),
{
    match (peek_u32(cpu, lin), peek_u32(cpu, lin.wrapping_add(4))) {
        (Some(low), Some(high)) => Some(low as u64 + 0x1_0000_0000 * high as u64),
        _ => None,
    }
}

/// The descriptor a selector names, if it is in its table and mapped.
pub open spec fn peeked_descriptor(s: Core, selector: u16) -> Option<Descriptor> {
    match s.descriptor_at(selector) {
        Some(addr) => match peeked_quad(s, addr) {
            Some(raw) => Some(Descriptor(raw)),
            None => None,
        },
        None => None,
    }
}

/// The descriptor a selector names, read without side effects.
pub fn peek_descriptor(cpu: &Cpu, selector: u16) -> (desc: Option<Descriptor>)
    ensures
        desc == peeked_descriptor(cpu@, selector),
{
    match cpu.descriptor_address(selector) {
        Some(addr) => match peek_u64(cpu, addr) {
            Some(raw) => Some(Descriptor(raw)),
            None => None,
        },
        None => None,
    }
}

/// Selector and base address of a segment for an address: a segment
/// register named in it uses the register's cache; a number is a real-mode
/// segment, or in protected mode a selector looked up in the GDT or LDT.
pub open spec fn segment_read(s: Core, part: Seq<char>) -> Result<(u16, u32), Seq<char>> {
    match segment_named(lower(trimmed(part))) {
        Some(seg) => Ok((s.cache(seg).selector, s.cache(seg).base)),
        None => match hex_read(part) {
            Err(e) => Err(e),
            Ok(value) => if value > 0xFFFF {
                Err("segment '"@ + part + "' exceeds 16 bits"@)
            } else if !s.pm() {
                Ok((value as u16, (value * 16) as u32))
            } else {
                match peeked_descriptor(s, value as u16) {
                    Some(desc) => Ok((value as u16, desc.base_field())),
                    None => Err("selector "@ + hex_text(value as nat, 4) + " is outside its table"@),
                }
            },
        },
    }
}

fn segment(cpu: &Cpu, part: &str) -> (found: Result<(u16, u32), String>)
    ensures
        same_result(found, segment_read(cpu@, part@)),
{
    let t = trim(part);
    let p = lowercase(t.as_str());
    if let Some(seg) = find_segment(p.as_str()) {
        let c = cpu.seg_cache(seg);
        return Ok((c.selector, c.base));
    }
    let value: u32 = parse_hex(part)?;
    if value > 0xFFFF {
        let mut message = String::from_str("segment '");
        message.append(part);
        message.append("' exceeds 16 bits");
        return Err(message);
    }
    let sel: u16 = value as u16;
    if !cpu.pm() {
        return Ok((sel, value * 16));
    }
    match peek_descriptor(cpu, sel) {
        Some(desc) => Ok((sel, desc.base())),
        None => {
            let mut message = String::from_str("selector ");
            let number = hex_string(value as u64, 4);
            message.append(number.as_str());
            message.append(" is outside its table");
            Err(message)
        },
    }
}

/// A physical address read, if it is in memory.
pub open spec fn physical_read(s: Core, text: Seq<char>) -> Result<DebugAddr, Seq<char>> {
    match hex_read(text) {
        Err(e) => Err(e),
        Ok(value) => if value >= s.ram.len() {
            Err(
                "address "@ + hex_text(value as nat, 1) + " beyond the end of RAM ("@ + hex_text(
                    s.ram.len(),
                    1,
                ) + ")"@,
            )
        } else {
            Ok(DebugAddr { phys: Some(value as usize), lin: None, segoff: None })
        },
    }
}

fn physical(cpu: &Cpu, s: &str) -> (addr: Result<DebugAddr, String>)
    ensures
        same_result(addr, physical_read(cpu@, s@)),
{
    let value: u32 = parse_hex(s)?;
    let len: usize = cpu.bus.ram.len();
    assert(cpu@.ram.len() == len);
    if value as u64 >= len as u64 {
        let mut message = String::from_str("address ");
        let number = hex_string(value as u64, 1);
        message.append(number.as_str());
        message.append(" beyond the end of RAM (");
        let end = hex_string(len as u64, 1);
        message.append(end.as_str());
        message.append(")");
        return Err(message);
    }
    Ok(DebugAddr { phys: Some(value as usize), lin: None, segoff: None })
}

/// A linear address, resolved.
pub open spec fn linear_addr(s: Core, lin: u32, segoff: Option<(u16, u32)>) -> DebugAddr {
    DebugAddr {
        phys: match s.peek(lin) {
            Some(p) => Some(p as usize),
            None => None,
        },
        lin: Some(lin),
        segoff,
    }
}

fn resolve(cpu: &Cpu, lin: u32, segoff: Option<(u16, u32)>) -> (addr: DebugAddr)
    ensures
        addr == linear_addr(cpu@, lin, segoff),
{
    let phys: Option<usize> = match cpu.peek_translate(lin) {
        Some(p) => Some(p as usize),
        None => None,
    };
    DebugAddr { phys, lin: Some(lin), segoff }
}

/// Whether a text starts with another.
pub open spec fn starts(text: Seq<char>, prefix: Seq<char>) -> bool {
    text.len() >= prefix.len() && text.take(prefix.len() as int) == prefix
}

/// What a segment and an offset name together: the offset is a register or
/// a number.
pub open spec fn segmented(s: Core, seg: Seq<char>, off: Seq<char>) -> Result<
    DebugAddr,
    Seq<char>,
> {
    match segment_read(s, seg) {
        Err(e) => Err(e),
        Ok((sel, base)) => {
            let offset = match register_value(s, trimmed(off)) {
                Some(v) => Ok(v),
                None => hex_read(off),
            };
            match offset {
                Err(e) => Err(e),
                Ok(off) => Ok(
                    linear_addr(
                        s,
                        if s.pm() {
                            base.wrapping_add(off)
                        } else {
                            ((sel as u32 * 16) as u32).wrapping_add(off)
                        },
                        Some((sel, off)),
                    ),
                ),
            }
        },
    }
}

/// An address read (hex numbers, as in DEBUG.COM).
pub open spec fn address_read(s: Core, text: Seq<char>) -> Result<DebugAddr, Seq<char>> {
    let t = trimmed(text);
    let low = lower(t);
    if starts(low, "lin:"@) {
        match hex_read(low.subrange(4, low.len() as int)) {
            Err(e) => Err(e),
            Ok(lin) => Ok(linear_addr(s, lin, None)),
        }
    } else if starts(low, "phys:"@) {
        physical_read(s, low.subrange(5, low.len() as int))
    } else {
        match first_place(t, ':') {
            Some(i) => segmented(s, t.take(i), t.subrange(i + 1, t.len() as int)),
            None => physical_read(s, t),
        }
    }
}

fn begins(chars: &Vec<char>, prefix: &str) -> (yes: bool)
    ensures
        yes == starts(chars@, prefix@),
{
    let p = chars_of(prefix);
    if chars.len() < p.len() {
        return false;
    }
    let mut i: usize = 0;
    while i < p.len()
        invariant
            i <= p@.len() <= chars@.len(),
            p@ == prefix@,
            forall|j: int| 0 <= j < i ==> chars@[j] == p@[j],
        decreases p.len() - i,
    {
        if chars[i] != p[i] {
            assert(chars@.take(p@.len() as int)[i as int] != p@[i as int]);
            return false;
        }
        i = i + 1;
    }
    assert(chars@.take(p@.len() as int) =~= p@);
    true
}

/// Parse an address (hex numbers, as in DEBUG.COM):
///
/// * `SEG:OFF`: a real-mode segment, or in protected mode a selector, and
///   an offset of up to 32 bits. Either part may be a register name:
///   `CS:EIP`, `DS:ESI`, `SS:SP`.
/// * `lin:ADDR`: a linear address, translated through the page tables.
/// * `phys:ADDR`, or just `ADDR`: a physical address.
pub fn parse_addr(cpu: &Cpu, s: &str) -> (addr: Result<DebugAddr, String>)
    ensures
        same_result(addr, address_read(cpu@, s@)),
{
    let t = trim(s);
    let low = lowercase(t.as_str());
    let low_chars = chars_of(low.as_str());
    proof {
        reveal_strlit("lin:");
        reveal_strlit("phys:");
    }
    if begins(&low_chars, "lin:") {
        let rest = text_between(&low_chars, 4, low_chars.len());
        let lin: u32 = parse_hex(rest.as_str())?;
        return Ok(resolve(cpu, lin, None));
    }
    if begins(&low_chars, "phys:") {
        let rest = text_between(&low_chars, 5, low_chars.len());
        return physical(cpu, rest.as_str());
    }
    let chars = chars_of(t.as_str());
    assert(chars@.len() == chars.len());
    match first_of(&chars, ':') {
        None => physical(cpu, t.as_str()),
        Some(i) => {
            let seg = text_between(&chars, 0, i);
            let off = text_between(&chars, i + 1, chars.len());
            assert(seg@ =~= t@.take(i as int));
            let (sel, base): (u16, u32) = segment(cpu, seg.as_str())?;
            let name = trim(off.as_str());
            let offset: u32 = match register(cpu, name.as_str()) {
                Some(v) => v,
                None => parse_hex(off.as_str())?,
            };
            let lin: u32 = if cpu.pm() {
                base.wrapping_add(offset)
            } else {
                (sel as u32 * 16).wrapping_add(offset)
            };
            Ok(resolve(cpu, lin, Some((sel, offset))))
        },
    }
}

/// Whether code at a selector runs as 32-bit code.
pub open spec fn runs_wide(s: Core, sel: u16) -> bool {
    if sel == s.cache(Seg::CS).selector {
        s.cache(Seg::CS).attr & ATTR_DB != 0
    } else {
        s.pm() && (peeked_descriptor(s, sel) matches Some(d) && d.attr_field() & ATTR_DB != 0)
    }
}

/// Whether code at `sel` runs as 32-bit code.
pub fn code32(cpu: &Cpu, sel: u16) -> (yes: bool)
    ensures
        yes == runs_wide(cpu@, sel),
{
    if sel == cpu.cs() {
        return cpu.seg_cache(Seg::CS).attr & ATTR_DB != 0;
    }
    cpu.pm() && match peek_descriptor(cpu, sel) {
        Some(d) => d.attr() & ATTR_DB != 0,
        None => false,
    }
}

/// The processor mode, as the debugger reports it.
pub open spec fn mode_text(s: Core) -> Seq<char> {
    if s.v86() {
        "v86"@
    } else if s.pe() {
        "protected"@
    } else {
        "real"@
    }
}

/// The processor mode, as the debugger reports it.
pub fn mode_name(cpu: &Cpu) -> (name: &'static str)
    ensures
        name@ == mode_text(cpu@),
{
    if cpu.v86() {
        "v86"
    } else if cpu.pe() {
        "protected"
    } else {
        "real"
    }
}

/// Where a breakpoint at an address goes: its physical address.
pub open spec fn breakpoint_at(addr: Result<DebugAddr, Seq<char>>) -> Result<usize, Seq<char>> {
    match addr {
        Err(e) => Err(e),
        Ok(a) => match a.phys {
            Some(p) => Ok(p),
            None => Err("address is on an unmapped page"@),
        },
    }
}

/// Where a breakpoint at an address goes: its physical address.
pub fn breakpoint_phys(a: DebugAddr) -> (phys: Result<usize, String>)
    ensures
        same_result(phys, breakpoint_at(Ok(a))),
{
    match a.phys {
        Some(p) => Ok(p),
        None => Err(String::from_str("address is on an unmapped page")),
    }
}

/// A number in hexadecimal reads back as itself.
pub proof fn law_hex_reads_back(n: u32)
    ensures
        hex_number(hex_text(n as nat, 1)) == Some(n as int),
{
    lemma_digits_read_back(n as nat);
    crate::text::lemma_digit_count(n as nat, 16);
    assert(hex_text(n as nat, 1) =~= crate::text::digits(n as nat, 16));
}

proof fn lemma_digits_read_back(n: nat)
    ensures
        hex_number(crate::text::digits(n, 16)) == Some(n as int),
    decreases n,
{
    let all = crate::text::digits(n, 16);
    if n >= 16 {
        lemma_digits_read_back(n / 16);
        assert(all.drop_last() =~= crate::text::digits(n / 16, 16));
    } else {
        assert(all.drop_last() =~= Seq::empty());
        assert(hex_number(all.drop_last()) == Some(0int));
    }
}

} // verus!
