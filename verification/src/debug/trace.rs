//! Instruction trace ring buffer. Entries are recorded on the hot path as
//! compact fixed-size structs; disassembly happens only when a range is
//! served.

use vstd::prelude::*;

use crate::decode::{decode_at, decoded, instruction_of, text_at, written, Instruction};
use crate::text::{
    decimal_text, hex_text, left_aligned, push_decimal, push_hex, push_left, right_aligned,
};

verus! {

#[derive(Clone, Copy, Debug, PartialEq, Eq)]
pub struct TraceEntry {
    /// Microseconds since emulator start. Sampled once per execution batch
    /// (~16 ms), so use `icount` for exact ordering within a batch.
    pub t_us: u64,
    /// Global instruction counter at the time this instruction executed.
    pub icount: u64,
    pub cs: u16,
    pub ip: u16,
    pub ax: u16,
    pub bx: u16,
    pub cx: u16,
    pub dx: u16,
    pub si: u16,
    pub di: u16,
    pub bp: u16,
    pub sp: u16,
    pub ds: u16,
    pub es: u16,
    pub ss: u16,
    pub flags: u16,
    pub bytes: [u8; 15],
    pub len: u8,
}

/// Bytes in hexadecimal, with a space between each two.
pub open spec fn hex_row(bytes: Seq<u8>) -> Seq<char>
    decreases bytes.len(),
{
    if bytes.len() == 0 {
        Seq::empty()
    } else if bytes.len() == 1 {
        hex_text(bytes[0] as nat, 2)
    } else {
        hex_row(bytes.drop_last()).push(' ') + hex_text(bytes.last() as nat, 2)
    }
}

/// Bytes in hexadecimal, with a space between each two.
pub fn hex_bytes(bytes: &[u8]) -> (text: String)
    ensures
        text@ == hex_row(bytes@),
{
    let mut text = String::new();
    let mut i: usize = 0;
    assert(text@ =~= hex_row(bytes@.take(0)));
    while i < bytes.len()
        invariant
            i <= bytes@.len(),
            text@ == hex_row(bytes@.take(i as int)),
        decreases bytes.len() - i,
    {
        assert(bytes@.take(i + 1).drop_last() =~= bytes@.take(i as int));
        if i > 0 {
            text.push(' ');
        }
        push_hex(&mut text, bytes[i] as u64, 2);
        i = i + 1;
        assert(text@ =~= hex_row(bytes@.take(i as int)));
    }
    assert(bytes@.take(i as int) =~= bytes@);
    text
}

/// What is shown of an instruction: its length and text, and of what is none
/// a byte.
pub open spec fn instruction_shown(i: Instruction, text: Seq<char>) -> (int, Seq<char>) {
    if i.invalid {
        (1, "(bad)"@)
    } else {
        (i.len as int, text)
    }
}

/// What is shown of a decoded instruction with a text.
pub fn show_instruction(i: Instruction, text: String) -> (shown: (usize, String))
    ensures
        (shown.0 as int, shown.1@) == instruction_shown(i, text@),
{
    if i.invalid {
        (1, String::from_str("(bad)"))
    } else {
        (i.len as usize, text)
    }
}

/// One instruction at an address, disassembled.
pub open spec fn disassembled(bytes: Seq<u8>, ip: u32, code32: bool) -> (int, Seq<char>) {
    let bitness: u32 = if code32 {
        32
    } else {
        16
    };
    instruction_shown(
        instruction_of(decoded(bitness, bytes, ip as u64)),
        written(bitness, bytes, ip as u64),
    )
}

/// Disassemble one instruction. Returns (length, text).
pub fn disasm_one(bytes: &[u8], ip: u32, code32: bool) -> (shown: (usize, String))
    ensures
        (shown.0 as int, shown.1@) == disassembled(bytes@, ip, code32),
{
    let i = decode_at(bytes, ip, code32);
    let text = text_at(bytes, ip, code32);
    show_instruction(i, text)
}

/// A time in milliseconds with three digits behind the point.
pub open spec fn millis_text(t_us: u64) -> Seq<char> {
    decimal_text((t_us / 1000) as nat) + "."@ + right_aligned(
        decimal_text((t_us % 1000) as nat),
        3,
        '0',
    )
}

/// A register by its name, as the trace shows it.
pub open spec fn labelled(label: Seq<char>, value: u16) -> Seq<char> {
    label + hex_text(value as nat, 4)
}

fn push_labelled(out: &mut String, label: &str, value: u16)
    ensures
        final(out)@ == old(out)@ + labelled(label@, value),
{
    out.append(label);
    push_hex(out, value as u64, 4);
    assert(out@ =~= old(out)@ + labelled(label@, value));
}

impl TraceEntry {
    /// No more bytes are recorded than there is room for.
    pub open spec fn wf(&self) -> bool {
        self.len <= 15
    }

    /// The instruction's bytes and some after it.
    pub open spec fn code(&self) -> Seq<u8> {
        self.bytes@.take(self.len as int)
    }

    pub fn code_bytes(&self) -> (bytes: &[u8])
        requires
            self.wf(),
        ensures
            bytes@ == self.code(),
    {
        let bytes = vstd::slice::slice_subrange(self.bytes.as_slice(), 0, self.len as usize);
        assert(bytes@ =~= self.code());
        bytes
    }

    /// The entry disassembled: traps of the emulator are shown as the service
    /// they invoke.
    pub open spec fn shown(&self, shell_command: u8) -> (int, Seq<char>) {
        let code = self.code();
        if code.len() >= 3 && code[0] == 0xFE && code[1] == 0x38 {
            if code[2] == shell_command {
                (3, "HLE shell command"@)
            } else {
                (
                    3,
                    "HLE INT "@ + hex_text(code[2] as nat, 2) + "h (AX="@ + hex_text(
                        self.ax as nat,
                        4,
                    ) + ")"@,
                )
            }
        } else {
            disassembled(code, self.ip as u32, false)
        }
    }

    /// Disassemble this entry. Returns (instruction bytes actually used,
    /// text). HLE traps (`FE 38 xx`) are shown as the BIOS/DOS service they
    /// invoke, which is far more useful than the undefined opcode; one of
    /// them, given, runs the shell's commands.
    pub fn disasm(&self, shell_command: u8) -> (shown: (usize, String))
        requires
            self.wf(),
        ensures
            (shown.0 as int, shown.1@) == self.shown(shell_command),
    {
        let bytes = self.code_bytes();
        if bytes.len() >= 3 && bytes[0] == 0xFE && bytes[1] == 0x38 {
            if bytes[2] == shell_command {
                return (3, String::from_str("HLE shell command"));
            }
            let mut text = String::from_str("HLE INT ");
            push_hex(&mut text, bytes[2] as u64, 2);
            text.append("h (AX=");
            push_hex(&mut text, self.ax as u64, 4);
            text.append(")");
            return (3, text);
        }
        disasm_one(bytes, self.ip as u32, false)
    }

    /// The bytes of the instruction that were recorded.
    pub open spec fn used(&self, shell_command: u8) -> Seq<u8> {
        let n = self.shown(shell_command).0;
        self.code().take(
            if n < self.len {
                n
            } else {
                self.len as int
            },
        )
    }

    /// The registers as a trace line ends with them.
    pub open spec fn registers_text(&self) -> Seq<char> {
        labelled(" AX="@, self.ax) + labelled(" BX="@, self.bx) + labelled(" CX="@, self.cx)
            + labelled(" DX="@, self.dx) + labelled(" SI="@, self.si) + labelled(" DI="@, self.di)
            + labelled(" BP="@, self.bp) + labelled(" SP="@, self.sp) + labelled(" DS="@, self.ds)
            + labelled(" ES="@, self.es) + labelled(" SS="@, self.ss) + labelled(
            " FL="@,
            self.flags,
        )
    }

    /// The entry as a line of the trace.
    pub open spec fn line(&self, shell_command: u8) -> Seq<char> {
        right_aligned(decimal_text(self.icount as nat), 12, ' ') + " "@ + right_aligned(
            millis_text(self.t_us),
            11,
            ' ',
        ) + " "@ + hex_text(self.cs as nat, 4) + ":"@ + hex_text(self.ip as nat, 4) + "  "@
            + left_aligned(hex_row(self.used(shell_command)), 20) + " "@ + left_aligned(
            self.shown(shell_command).1,
            32,
        ) + self.registers_text()
    }

    fn push_registers(&self, out: &mut String)
        ensures
            final(out)@ == old(out)@ + self.registers_text(),
    {
        push_labelled(out, " AX=", self.ax);
        push_labelled(out, " BX=", self.bx);
        push_labelled(out, " CX=", self.cx);
        push_labelled(out, " DX=", self.dx);
        push_labelled(out, " SI=", self.si);
        push_labelled(out, " DI=", self.di);
        push_labelled(out, " BP=", self.bp);
        push_labelled(out, " SP=", self.sp);
        push_labelled(out, " DS=", self.ds);
        push_labelled(out, " ES=", self.es);
        push_labelled(out, " SS=", self.ss);
        push_labelled(out, " FL=", self.flags);
        assert(out@ =~= old(out)@ + self.registers_text());
    }

    /// The bytes of the instruction in hexadecimal, and its text.
    pub fn columns(&self, shell_command: u8) -> (columns: (String, String))
        requires
            self.wf(),
        ensures
            columns.0@ == hex_row(self.used(shell_command)),
            columns.1@ == self.shown(shell_command).1,
    {
        let (n, text): (usize, String) = self.disasm(shell_command);
        let used: usize = if n < self.len as usize {
            n
        } else {
            self.len as usize
        };
        let bytes = vstd::slice::slice_subrange(self.bytes.as_slice(), 0, used);
        assert(bytes@ =~= self.used(shell_command));
        (hex_bytes(bytes), text)
    }

    /// The entry as a line of the trace.
    pub fn to_text(&self, shell_command: u8) -> (line: String)
        requires
            self.wf(),
        ensures
            line@ == self.line(shell_command),
    {
        let (hex, text): (String, String) = self.columns(shell_command);
        let mut line = String::new();
        push_decimal(&mut line, self.icount, 12, ' ');
        line.append(" ");
        push_millis(&mut line, self.t_us, 11);
        line.append(" ");
        push_hex(&mut line, self.cs as u64, 4);
        line.append(":");
        push_hex(&mut line, self.ip as u64, 4);
        line.append("  ");
        push_left(&mut line, hex.as_str(), 20);
        line.append(" ");
        push_left(&mut line, text.as_str(), 32);
        self.push_registers(&mut line);
        assert(line@ =~= self.line(shell_command));
        line
    }
}

fn push_millis(out: &mut String, t_us: u64, width: usize)
    ensures
        final(out)@ == old(out)@ + right_aligned(millis_text(t_us), width as int, ' '),
{
    let mut text = String::new();
    push_decimal(&mut text, t_us / 1000, 0, ' ');
    text.append(".");
    push_decimal(&mut text, t_us % 1000, 3, '0');
    assert(text@ =~= millis_text(t_us));
    let n: usize = text.as_str().unicode_len();
    if n < width {
        crate::text::push_filler(out, width - n, ' ');
    }
    out.append(text.as_str());
    assert(out@ =~= old(out)@ + right_aligned(millis_text(t_us), width as int, ' '));
}

/// What stands over the lines of a trace.
pub const TEXT_HEADER: &'static str =
    "      icount        t_ms CS:IP      bytes                asm                              registers (before execution)";

/// A ring of the newest entries.
#[derive(Debug)]
pub struct TraceRing {
    pub buf: Vec<TraceEntry>,
    pub capacity: usize,
    /// Next write position.
    pub head: usize,
    /// Total entries ever pushed (monotonic). `total - len` entries were
    /// overwritten.
    pub total: u64,
}

/// At most the last `n` of a sequence.
pub open spec fn newest<T>(all: Seq<T>, n: int) -> Seq<T> {
    if all.len() > n {
        all.skip(all.len() - n)
    } else {
        all
    }
}

impl TraceRing {
    /// The next entry goes to the end until the ring is full, and then over
    /// the oldest.
    pub open spec fn wf(&self) -> bool {
        &&& 1 <= self.capacity
        &&& self.buf@.len() <= self.capacity
        &&& self.head < self.capacity
        &&& self.buf@.len() < self.capacity ==> self.head == self.buf@.len()
        &&& self.buf@.len() <= self.total
        &&& forall|i: int| 0 <= i < self.buf@.len() ==> (#[trigger] self.buf@[i]).wf()
    }

    /// The entries, oldest first.
    pub open spec fn view(&self) -> Seq<TraceEntry> {
        if self.buf@.len() < self.capacity {
            self.buf@
        } else {
            self.buf@.skip(self.head as int) + self.buf@.take(self.head as int)
        }
    }

    pub fn new(capacity: usize) -> (ring: Self)
        ensures
            ring.wf(),
            ring@.len() == 0,
            ring.capacity == (if capacity == 0 {
                1
            } else {
                capacity
            }),
            ring.total == 0,
    {
        TraceRing {
            buf: Vec::new(),
            capacity: if capacity == 0 {
                1
            } else {
                capacity
            },
            head: 0,
            total: 0,
        }
    }

    pub fn capacity(&self) -> (n: usize)
        ensures
            n == self.capacity,
    {
        self.capacity
    }

    pub fn len(&self) -> (n: usize)
        requires
            self.wf(),
        ensures
            n == self@.len(),
    {
        self.buf.len()
    }

    pub fn total(&self) -> (n: u64)
        ensures
            n == self.total,
    {
        self.total
    }

    pub fn clear(&mut self)
        requires
            old(self).wf(),
        ensures
            final(self).wf(),
            final(self)@.len() == 0,
            final(self).capacity == old(self).capacity,
            final(self).total == old(self).total,
    {
        self.buf.clear();
        self.head = 0;
    }

    pub fn push(&mut self, e: TraceEntry)
        requires
            old(self).wf(),
            old(self).total < u64::MAX,
            e.wf(),
        ensures
            final(self).wf(),
            final(self)@ == newest(old(self)@.push(e), old(self).capacity as int),
            final(self).capacity == old(self).capacity,
            final(self).total == old(self).total + 1,
    {
        let ghost before = self@;
        let ghost buf = self.buf@;
        if self.buf.len() < self.capacity {
            self.buf.push(e);
        } else {
            self.buf[self.head] = e;
        }
        let next: usize = self.head + 1;
        self.head = if next == self.capacity {
            0
        } else {
            next
        };
        self.total = self.total + 1;
        proof {
            let all = before.push(e);
            assert(self@ =~= newest(all, old(self).capacity as int));
        }
    }

    /// The entries oldest → newest.
    pub fn iter(&self) -> (entries: Vec<TraceEntry>)
        requires
            self.wf(),
        ensures
            entries@ == self@,
    {
        let n: usize = self.buf.len();
        let split: usize = if n < self.capacity {
            0
        } else {
            self.head
        };
        let mut entries: Vec<TraceEntry> = Vec::new();
        let mut i: usize = split;
        while i < n
            invariant
                split <= i <= n == self.buf@.len(),
                entries@ == self.buf@.subrange(split as int, i as int),
            decreases n - i,
        {
            entries.push(self.buf[i]);
            i = i + 1;
            assert(entries@ =~= self.buf@.subrange(split as int, i as int));
        }
        let ghost first = self.buf@.subrange(split as int, n as int);
        let mut i: usize = 0;
        assert(entries@ =~= first + self.buf@.take(0));
        while i < split
            invariant
                i <= split <= n == self.buf@.len(),
                entries@ == first + self.buf@.take(i as int),
            decreases split - i,
        {
            entries.push(self.buf[i]);
            i = i + 1;
            assert(entries@ =~= first + self.buf@.take(i as int));
        }
        assert(entries@ =~= self@);
        entries
    }

    /// The newest `n` entries, oldest first.
    pub fn last_n(&self, n: usize) -> (entries: Vec<TraceEntry>)
        requires
            self.wf(),
        ensures
            entries@ == newest(self@, n as int),
    {
        let all = self.iter();
        let len: usize = all.len();
        if len <= n {
            return all;
        }
        let part = vstd::slice::slice_subrange(all.as_slice(), len - n, len);
        let entries = vstd::slice::slice_to_vec(part);
        assert(entries@ =~= newest(self@, n as int));
        entries
    }

    /// Entries pushed after the entry with sequence number `since_total`
    /// (as returned by `total()`), capped to the newest `max`. Also returns
    /// how many matching entries were dropped because of the cap or because
    /// they were already overwritten.
    pub fn since(&self, since_total: u64, max: usize) -> (found: (Vec<TraceEntry>, u64))
        requires
            self.wf(),
        ensures
            ({
                let new = if self.total < since_total {
                    0
                } else {
                    self.total - since_total
                };
                let some = newest(
                    self@,
                    if new < max {
                        new
                    } else {
                        max as int
                    },
                );
                found.0@ == some && found.1 == new - some.len()
            }),
    {
        let new: u64 = if self.total < since_total {
            0
        } else {
            self.total - since_total
        };
        let most: usize = if new < max as u64 {
            new as usize
        } else {
            max
        };
        let entries = self.last_n(most);
        let dropped: u64 = new - entries.len() as u64;
        (entries, dropped)
    }
}

/// A ring after some entries were pushed.
pub open spec fn after_pushes(before: Seq<TraceEntry>, capacity: int, more: Seq<TraceEntry>) -> Seq<
    TraceEntry,
>
    decreases more.len(),
{
    if more.len() == 0 {
        before
    } else {
        newest(after_pushes(before, capacity, more.drop_last()).push(more.last()), capacity)
    }
}

/// A ring keeps the newest entries, as many as fit, in the order they came.
pub proof fn law_ring_keeps_newest(before: Seq<TraceEntry>, capacity: int, more: Seq<TraceEntry>)
    requires
        1 <= capacity,
        before.len() <= capacity,
    ensures
        after_pushes(before, capacity, more) == newest(before + more, capacity),
    decreases more.len(),
{
    if more.len() == 0 {
        assert(before + more =~= before);
    } else {
        law_ring_keeps_newest(before, capacity, more.drop_last());
        let all = before + more.drop_last();
        assert(before + more =~= all.push(more.last()));
        assert(newest(newest(all, capacity).push(more.last()), capacity) =~= newest(
            all.push(more.last()),
            capacity,
        ));
    }
}

} // verus!
