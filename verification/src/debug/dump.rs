//! Memory and the log as the debugger's clients see and send them.

use vstd::prelude::*;

use base64::Engine;

use super::address::{digit_value, hex_digit};
use super::trace::{hex_bytes, hex_row, newest, TraceEntry, TEXT_HEADER};
use crate::text::{
    chars_of, decimal_text, hex_text, left_aligned, push_decimal, push_hex, push_left,
    right_aligned, trim, trimmed,
};

verus! {

/// A byte as a dump shows it.
pub open spec fn shown_char(b: u8) -> char {
    if 0x20 <= b < 0x7F {
        b as char
    } else {
        '.'
    }
}

/// What stands before a row of a dump.
pub open spec fn dump_label(base: int, segoff: Option<(u16, u16)>, row: int) -> Seq<char> {
    match segoff {
        Some((seg, off)) => hex_text(seg as nat, 4) + ":"@ + hex_text(
            ((off + row * 16) % 0x1_0000) as nat,
            4,
        ),
        None => hex_text((base + row * 16) as nat, 5),
    }
}

/// The bytes of a row.
pub open spec fn dump_bytes(data: Seq<u8>, row: int) -> Seq<u8> {
    data.subrange(
        row * 16,
        if row * 16 + 16 < data.len() {
            row * 16 + 16
        } else {
            data.len() as int
        },
    )
}

/// A row of a dump.
pub open spec fn dump_row(base: int, segoff: Option<(u16, u16)>, data: Seq<u8>, row: int) -> Seq<
    char,
> {
    let bytes = dump_bytes(data, row);
    dump_label(base, segoff, row) + "  "@ + left_aligned(hex_row(bytes), 48) + " "@ + Seq::new(
        bytes.len(),
        |i: int| shown_char(bytes[i]),
    ) + "\n"@
}

/// The first rows of a dump.
pub open spec fn dump_rows(base: int, segoff: Option<(u16, u16)>, data: Seq<u8>, rows: int) -> Seq<
    char,
>
    decreases rows,
{
    if rows <= 0 {
        Seq::empty()
    } else {
        dump_rows(base, segoff, data, rows - 1) + dump_row(base, segoff, data, rows - 1)
    }
}

fn push_chars(out: &mut String, bytes: &[u8])
    ensures
        final(out)@ == old(out)@ + Seq::new(bytes@.len(), |i: int| shown_char(bytes@[i])),
{
    let mut i: usize = 0;
    let ghost all = Seq::new(bytes@.len(), |i: int| shown_char(bytes@[i]));
    assert(out@ =~= old(out)@ + all.take(0));
    while i < bytes.len()
        invariant
            i <= bytes@.len(),
            all == Seq::new(bytes@.len(), |i: int| shown_char(bytes@[i])),
            out@ == old(out)@ + all.take(i as int),
        decreases bytes.len() - i,
    {
        let b: u8 = bytes[i];
        out.push(
            if 0x20 <= b && b < 0x7F {
                b as char
            } else {
                '.'
            },
        );
        i = i + 1;
        assert(out@ =~= old(out)@ + all.take(i as int));
    }
    assert(all.take(i as int) =~= all);
}

/// Classic DEBUG-style dump. Rows are labelled SEG:OFF when the request used
/// a segmented address, otherwise with the 5-digit linear address.
pub fn hexdump(base: usize, segoff: Option<(u16, u16)>, data: &[u8]) -> (text: String)
    requires
        base + data@.len() <= u64::MAX,
    ensures
        text@ == dump_rows(base as int, segoff, data@, (data@.len() as int + 15) / 16),
{
    let mut out = String::new();
    let mut row: usize = 0;
    let mut at: usize = 0;
    assert(out@ =~= dump_rows(base as int, segoff, data@, 0));
    while at < data.len()
        invariant
            base + data@.len() <= u64::MAX,
            at <= data@.len(),
            at == row * 16 || (at == data@.len() && row == (data@.len() as int + 15) / 16),
            at == data@.len() ==> row == (data@.len() as int + 15) / 16,
            row * 16 <= data@.len() + 15,
            out@ == dump_rows(base as int, segoff, data@, row as int),
        decreases data.len() - at,
    {
        match segoff {
            Some((seg, off)) => {
                push_hex(&mut out, seg as u64, 4);
                out.append(":");
                let low: u64 = (off as u64 + (at as u64) % 0x1_0000) % 0x1_0000;
                assert(low == (off + row * 16) % 0x1_0000);
                push_hex(&mut out, low, 4);
            },
            None => {
                push_hex(&mut out, base as u64 + at as u64, 5);
            },
        }
        out.append("  ");
        let end: usize = if data.len() - at > 16 {
            at + 16
        } else {
            data.len()
        };
        let bytes = vstd::slice::slice_subrange(data, at, end);
        assert(bytes@ =~= dump_bytes(data@, row as int));
        let hex = hex_bytes(bytes);
        push_left(&mut out, hex.as_str(), 48);
        out.append(" ");
        push_chars(&mut out, bytes);
        out.append("\n");
        assert(out@ =~= dump_rows(base as int, segoff, data@, row + 1));
        row = row + 1;
        at = end;
    }
    out
}

/// The hexadecimal digits in a text, as numbers.
pub open spec fn hex_digits(text: Seq<char>) -> Seq<u8>
    decreases text.len(),
{
    if text.len() == 0 {
        Seq::empty()
    } else {
        match hex_digit(text.last()) {
            Some(d) => hex_digits(text.drop_last()).push(d as u8),
            None => hex_digits(text.drop_last()),
        }
    }
}

/// The bytes that digits make, two each.
pub open spec fn paired(digits: Seq<u8>) -> Seq<u8> {
    Seq::new(
        digits.len() / 2,
        |i: int| (digits[2 * i] * 16 + digits[2 * i + 1]) as u8,
    )
}

/// The bytes of hexadecimal data, in which only the digits count.
pub fn hex_data(text: &str) -> (data: Result<Vec<u8>, String>)
    ensures
        match data {
            Ok(d) => hex_digits(text@).len() % 2 == 0 && d@ == paired(hex_digits(text@)),
            Err(e) => hex_digits(text@).len() % 2 != 0 && e@
                == "hex data must have an even number of digits"@,
        },
{
    let chars = chars_of(text);
    let mut digits: Vec<u8> = Vec::new();
    let mut i: usize = 0;
    assert(digits@ =~= hex_digits(chars@.take(0)));
    while i < chars.len()
        invariant
            i <= chars@.len(),
            chars@ == text@,
            digits@ == hex_digits(chars@.take(i as int)),
            forall|j: int| 0 <= j < digits@.len() ==> digits@[j] < 16,
        decreases chars.len() - i,
    {
        assert(chars@.take(i + 1).drop_last() =~= chars@.take(i as int));
        if let Some(d) = digit_value(chars[i]) {
            digits.push(d as u8);
        }
        i = i + 1;
    }
    assert(chars@.take(i as int) =~= text@);
    if digits.len() % 2 != 0 {
        return Err(String::from_str("hex data must have an even number of digits"));
    }
    let n: usize = digits.len() / 2;
    let mut data: Vec<u8> = Vec::new();
    let mut i: usize = 0;
    while i < n
        invariant
            i <= n,
            2 * n == digits@.len(),
            forall|j: int| 0 <= j < digits@.len() ==> digits@[j] < 16,
            data@.len() == i,
            forall|j: int| 0 <= j < i ==> data@[j] == paired(digits@)[j],
        decreases n - i,
    {
        assert(digits@.len() == digits.len());
        assert(digits@[2 * i] < 16 && digits@[2 * i + 1] < 16);
        data.push(digits[2 * i] * 16 + digits[2 * i + 1]);
        i = i + 1;
    }
    assert(data@ =~= paired(digits@));
    Ok(data)
}

/// What `base64` decodes a text to: the bytes, or the text of the error.
pub uninterp spec fn base64_read(text: Seq<char>) -> Result<Seq<u8>, Seq<char>>;

/// `decode` of the `base64` crate's standard engine: the standard alphabet,
/// with padding. The bytes, or the error's text, depend on the text alone;
/// which they are is left to the name.
#[verifier::external_body]
fn read_base64(text: &str) -> (data: Result<Vec<u8>, String>)
    ensures
        match (data, base64_read(text@)) {
            (Ok(a), Ok(b)) => a@ == b,
            (Err(e), Err(m)) => e@ == m,
            _ => false,
        },
{
    base64::engine::general_purpose::STANDARD.decode(text).map_err(|e| e.to_string())
}

/// Whether a text decodes to some bytes.
pub open spec fn reads_as(text: Seq<char>, data: Seq<u8>) -> bool {
    base64_read(text) matches Ok(d) && d == data
}

/// What `base64` encodes bytes to.
pub uninterp spec fn base64_written(data: Seq<u8>) -> Seq<char>;

/// `encode` of the `base64` crate's standard engine, which panics where the
/// text would be longer than a `String` can be. The text depends on the bytes
/// alone; which it is, is left to the name, but that decoding it gives back
/// the bytes.
#[verifier::external_body]
fn write_base64(data: &[u8]) -> (text: String)
    requires
        4 * (data@.len() / 3 + 1) <= isize::MAX,
    ensures
        text@ == base64_written(data@),
        reads_as(text@, data@),
{
    base64::engine::general_purpose::STANDARD.encode(data)
}

/// Bytes as base64 text.
pub fn to_base64(data: &[u8]) -> (text: String)
    requires
        4 * (data@.len() / 3 + 1) <= isize::MAX,
    ensures
        text@ == base64_written(data@),
        reads_as(text@, data@),
{
    write_base64(data)
}

/// Bytes that a client sent, as hexadecimal or as base64 text.
pub open spec fn data_read(hex: Option<Seq<char>>, base64: Option<Seq<char>>) -> Result<
    Seq<u8>,
    Seq<char>,
> {
    match (hex, base64) {
        (Some(h), None) => if hex_digits(h).len() % 2 == 0 {
            Ok(paired(hex_digits(h)))
        } else {
            Err("hex data must have an even number of digits"@)
        },
        (None, Some(b)) => decoded_data(base64_read(trimmed(b))),
        _ => Err("provide exactly one of 'hex' or 'base64'"@),
    }
}

/// What is made of decoded base64 text.
pub open spec fn decoded_data(decoded: Result<Seq<u8>, Seq<char>>) -> Result<Seq<u8>, Seq<char>> {
    match decoded {
        Ok(data) => Ok(data),
        Err(e) => Err("invalid base64: "@ + e),
    }
}

/// The bytes of decoded base64 text, or what is wrong with it.
pub fn decoded(result: Result<Vec<u8>, String>) -> (data: Result<Vec<u8>, String>)
    ensures
        match (data, result) {
            (Ok(a), Ok(b)) => a@ == b@,
            (Err(e), Err(m)) => e@ == "invalid base64: "@ + m@,
            _ => false,
        },
{
    match result {
        Ok(data) => Ok(data),
        Err(e) => {
            let mut message = String::from_str("invalid base64: ");
            message.append(e.as_str());
            Err(message)
        },
    }
}

/// The texts of optional strings.
pub open spec fn optional_text(text: Option<String>) -> Option<Seq<char>> {
    match text {
        Some(t) => Some(t@),
        None => None,
    }
}

/// The bytes that a client sent to be written to memory: as hexadecimal or as
/// base64 text.
pub fn sent_data(hex: &Option<String>, base64: &Option<String>) -> (data: Result<Vec<u8>, String>)
    ensures
        match (data, data_read(optional_text(*hex), optional_text(*base64))) {
            (Ok(a), Ok(b)) => a@ == b,
            (Err(e), Err(m)) => e@ == m,
            _ => false,
        },
{
    match (hex, base64) {
        (Some(h), None) => hex_data(h.as_str()),
        (None, Some(b)) => {
            let text = trim(b.as_str());
            decoded(read_base64(text.as_str()))
        },
        _ => Err(String::from_str("provide exactly one of 'hex' or 'base64'")),
    }
}

/// How many lines the log keeps.
pub const LOG_RING_CAPACITY: usize = 5000;

/// How many lines are given when no limit is.
pub const DEFAULT_LOG_LIMIT: usize = 500;

/// A line of the emulator's log.
#[derive(Debug)]
pub struct LogLine {
    pub t_ms: u64,
    pub line: String,
}

/// A line as a value.
pub open spec fn logged(lines: Seq<LogLine>) -> Seq<(u64, Seq<char>)> {
    Seq::new(lines.len(), |i: int| (lines[i].t_ms, lines[i].line@))
}

/// The newest lines of the emulator's log.
#[derive(Debug)]
pub struct LogRing {
    pub lines: Vec<LogLine>,
}

/// Whether a text stands in another.
pub open spec fn contains_text(text: Seq<char>, part: Seq<char>) -> bool {
    exists|i: int| #[trigger] stands_at(text, part, i)
}

/// Whether a text stands at a place of another.
pub open spec fn stands_at(text: Seq<char>, part: Seq<char>, i: int) -> bool {
    0 <= i && i + part.len() <= text.len() && text.subrange(i, i + part.len()) == part
}

fn stands(chars: &Vec<char>, part: &Vec<char>, at: usize) -> (yes: bool)
    requires
        at + part@.len() <= chars@.len(),
    ensures
        yes == stands_at(chars@, part@, at as int),
{
    let mut i: usize = 0;
    while i < part.len()
        invariant
            i <= part@.len(),
            at + part@.len() <= chars@.len(),
            forall|j: int| 0 <= j < i ==> chars@[at + j] == part@[j],
        decreases part.len() - i,
    {
        assert(at + i < chars@.len() && chars@.len() == chars.len());
        if chars[at + i] != part[i] {
            assert(chars@.subrange(at as int, at + part@.len())[i as int] != part@[i as int]);
            return false;
        }
        i = i + 1;
    }
    assert(chars@.subrange(at as int, at + part@.len()) =~= part@);
    true
}

/// Whether a text stands in another.
pub fn has_text(text: &str, part: &str) -> (yes: bool)
    ensures
        yes == contains_text(text@, part@),
{
    let chars = chars_of(text);
    let wanted = chars_of(part);
    if wanted.len() > chars.len() {
        return false;
    }
    let last: usize = chars.len() - wanted.len();
    let mut i: usize = 0;
    while i <= last
        invariant
            chars@ == text@,
            wanted@ == part@,
            last + wanted@.len() == chars@.len(),
            i <= last + 1,
            forall|j: int| 0 <= j < i ==> !#[trigger] stands_at(text@, part@, j),
        decreases last + 1 - i,
    {
        if stands(&chars, &wanted, i) {
            assert(stands_at(text@, part@, i as int));
            return true;
        }
        if i == last {
            assert forall|j: int| !#[trigger] stands_at(text@, part@, j) by {
                if 0 <= j && j + part@.len() <= text@.len() && j < i {
                    assert(!stands_at(text@, part@, j));
                }
            }
            return false;
        }
        i = i + 1;
    }
    false
}

/// Which lines of the log are wanted.
#[derive(Debug)]
pub struct LogQuery {
    pub since_ms: Option<u64>,
    pub limit: Option<usize>,
    pub grep: Option<String>,
}

impl LogQuery {
    /// Whether a line is wanted.
    pub open spec fn wants(&self, line: (u64, Seq<char>)) -> bool {
        &&& (self.since_ms matches Some(t) ==> line.0 >= t)
        &&& (self.grep matches Some(g) ==> contains_text(line.1, g@))
    }

    /// The most lines that are wanted.
    pub open spec fn most(&self) -> int {
        match self.limit {
            Some(n) => n as int,
            None => DEFAULT_LOG_LIMIT as int,
        }
    }

    fn passes(&self, l: &LogLine) -> (yes: bool)
        ensures
            yes == self.wants((l.t_ms, l.line@)),
    {
        let late = match self.since_ms {
            Some(t) => l.t_ms >= t,
            None => true,
        };
        late && match &self.grep {
            Some(g) => has_text(l.line.as_str(), g.as_str()),
            None => true,
        }
    }
}

/// The wanted lines of a log.
pub open spec fn wanted_lines(lines: Seq<(u64, Seq<char>)>, q: LogQuery) -> Seq<(u64, Seq<char>)>
    decreases lines.len(),
{
    if lines.len() == 0 {
        Seq::empty()
    } else if q.wants(lines.last()) {
        wanted_lines(lines.drop_last(), q).push(lines.last())
    } else {
        wanted_lines(lines.drop_last(), q)
    }
}

impl LogRing {
    /// The lines, oldest first.
    pub open spec fn view(&self) -> Seq<(u64, Seq<char>)> {
        logged(self.lines@)
    }

    /// No more lines than the log keeps.
    pub open spec fn wf(&self) -> bool {
        self.lines@.len() <= LOG_RING_CAPACITY
    }

    pub fn new() -> (log: Self)
        ensures
            log.wf(),
            log@.len() == 0,
    {
        LogRing { lines: Vec::new() }
    }

    /// Add a line; the oldest goes when there are too many.
    pub fn push(&mut self, t_ms: u64, line: String)
        requires
            old(self).wf(),
        ensures
            final(self).wf(),
            final(self)@ == newest(
                old(self)@.push((t_ms, line@)),
                LOG_RING_CAPACITY as int,
            ),
    {
        let ghost before = self@;
        let ghost text = line@;
        if self.lines.len() >= LOG_RING_CAPACITY {
            let _ = self.lines.remove(0);
        }
        self.lines.push(LogLine { t_ms, line });
        assert(self@ =~= newest(before.push((t_ms, text)), LOG_RING_CAPACITY as int));
    }

    /// The newest wanted lines, oldest first, up to the limit.
    pub fn query(&self, q: &LogQuery) -> (found: Vec<LogLine>)
        ensures
            logged(found@) == newest(wanted_lines(self@, *q), q.most()),
    {
        let mut all: Vec<LogLine> = Vec::new();
        let mut i: usize = 0;
        assert(logged(all@) =~= wanted_lines(self@.take(0), *q));
        while i < self.lines.len()
            invariant
                i <= self.lines@.len(),
                logged(all@) == wanted_lines(self@.take(i as int), *q),
            decreases self.lines.len() - i,
        {
            assert(self@.take(i + 1).drop_last() =~= self@.take(i as int));
            let l = &self.lines[i];
            if q.passes(l) {
                let ghost before = all@;
                all.push(LogLine { t_ms: l.t_ms, line: l.line.clone() });
                assert(logged(all@) =~= logged(before).push((l.t_ms, l.line@)));
            }
            i = i + 1;
        }
        assert(self@.take(i as int) =~= self@);
        let limit: usize = match q.limit {
            Some(n) => n,
            None => DEFAULT_LOG_LIMIT,
        };
        let ghost full = logged(all@);
        while all.len() > limit
            invariant
                all@.len() >= limit || all@.len() == full.len(),
                all@.len() <= full.len(),
                logged(all@) == full.skip(full.len() - all@.len()),
            decreases all.len(),
        {
            let ghost before = all@;
            let _ = all.remove(0);
            assert(logged(all@) =~= logged(before).skip(1));
            assert(logged(all@) =~= full.skip(full.len() - all@.len()));
        }
        assert(logged(all@) =~= newest(full, q.most()));
        all
    }
}

/// Lines as a text.
pub open spec fn lines_text(lines: Seq<(u64, Seq<char>)>) -> Seq<char>
    decreases lines.len(),
{
    if lines.len() == 0 {
        Seq::empty()
    } else {
        lines_text(lines.drop_last()) + right_aligned(
            decimal_text(lines.last().0 as nat),
            10,
            ' ',
        ) + " "@ + lines.last().1 + "\n"@
    }
}

/// Lines of the log as a text.
pub fn log_text(lines: &Vec<LogLine>) -> (text: String)
    ensures
        text@ == lines_text(logged(lines@)),
{
    let ghost all = logged(lines@);
    let mut text = String::new();
    let mut i: usize = 0;
    assert(text@ =~= lines_text(all.take(0)));
    while i < lines.len()
        invariant
            i <= lines@.len(),
            all == logged(lines@),
            text@ == lines_text(all.take(i as int)),
        decreases lines.len() - i,
    {
        assert(all.take(i + 1).drop_last() =~= all.take(i as int));
        push_decimal(&mut text, lines[i].t_ms, 10, ' ');
        text.append(" ");
        text.append(lines[i].line.as_str());
        text.append("\n");
        i = i + 1;
        assert(text@ =~= lines_text(all.take(i as int)));
    }
    assert(all.take(i as int) =~= all);
    text
}

/// Trace entries as a text, under the header.
pub open spec fn trace_text(entries: Seq<TraceEntry>, shell_command: u8) -> Seq<char>
    decreases entries.len(),
{
    if entries.len() == 0 {
        TEXT_HEADER@ + "\n"@
    } else {
        trace_text(entries.drop_last(), shell_command) + entries.last().line(shell_command)
            + "\n"@
    }
}

/// Trace entries as a text, under the header.
pub fn format_trace(entries: &Vec<TraceEntry>, shell_command: u8) -> (text: String)
    requires
        forall|i: int| 0 <= i < entries@.len() ==> (#[trigger] entries@[i]).wf(),
    ensures
        text@ == trace_text(entries@, shell_command),
{
    let mut text = String::from_str(TEXT_HEADER);
    text.append("\n");
    let mut i: usize = 0;
    assert(text@ =~= trace_text(entries@.take(0), shell_command));
    while i < entries.len()
        invariant
            i <= entries@.len(),
            forall|i: int| 0 <= i < entries@.len() ==> (#[trigger] entries@[i]).wf(),
            text@ == trace_text(entries@.take(i as int), shell_command),
        decreases entries.len() - i,
    {
        assert(entries@.take(i + 1).drop_last() =~= entries@.take(i as int));
        let line = entries[i].to_text(shell_command);
        text.append(line.as_str());
        text.append("\n");
        i = i + 1;
        assert(text@ =~= trace_text(entries@.take(i as int), shell_command));
    }
    assert(entries@.take(i as int) =~= entries@);
    text
}

/// The bytes of a hexadecimal row read back as themselves.
pub proof fn law_hex_row_reads_back(bytes: Seq<u8>)
    ensures
        hex_digits(hex_row(bytes)).len() % 2 == 0,
        paired(hex_digits(hex_row(bytes))) == bytes,
    decreases bytes.len(),
{
    lemma_row_digits(bytes);
    assert(paired(hex_digits(hex_row(bytes))) =~= bytes);
}

proof fn lemma_digits_join(a: Seq<char>, b: Seq<char>)
    ensures
        hex_digits(a + b) == hex_digits(a) + hex_digits(b),
    decreases b.len(),
{
    if b.len() == 0 {
        assert(a + b =~= a);
        assert(hex_digits(a) + hex_digits(b) =~= hex_digits(a));
    } else {
        assert((a + b).drop_last() =~= a + b.drop_last());
        lemma_digits_join(a, b.drop_last());
        assert(hex_digits(a + b) =~= hex_digits(a) + hex_digits(b));
    }
}

proof fn lemma_byte_digits(b: u8)
    ensures
        hex_digits(hex_text(b as nat, 2)) == seq![(b / 16) as u8, (b % 16) as u8],
{
    crate::text::lemma_byte_text(b);
    let t = hex_text(b as nat, 2);
    reveal_with_fuel(hex_digits, 3);
    assert(t.drop_last().drop_last().len() == 0);
    assert(hex_digits(t) =~= seq![(b / 16) as u8, (b % 16) as u8]);
}

proof fn lemma_row_digits(bytes: Seq<u8>)
    ensures
        hex_digits(hex_row(bytes)).len() == 2 * bytes.len(),
        forall|i: int|
            0 <= i < bytes.len() ==> hex_digits(hex_row(bytes))[2 * i] == bytes[i] / 16 && hex_digits(
                hex_row(bytes),
            )[2 * i + 1] == #[trigger] bytes[i] % 16,
    decreases bytes.len(),
{
    if bytes.len() == 1 {
        lemma_byte_digits(bytes[0]);
    } else if bytes.len() > 1 {
        let less = bytes.drop_last();
        lemma_row_digits(less);
        lemma_byte_digits(bytes.last());
        let head = hex_row(less).push(' ');
        assert(head.drop_last() =~= hex_row(less));
        lemma_digits_join(head, hex_text(bytes.last() as nat, 2));
        let all = hex_digits(hex_row(bytes));
        assert(all =~= hex_digits(hex_row(less)) + seq![
            (bytes.last() / 16) as u8,
            (bytes.last() % 16) as u8,
        ]);
        assert forall|i: int| 0 <= i < bytes.len() implies all[2 * i] == bytes[i] / 16 && all[2 * i
            + 1] == #[trigger] bytes[i] % 16 by {
            if i < less.len() {
                assert(less[i] == bytes[i]);
            }
        }
    }
}

} // verus!
