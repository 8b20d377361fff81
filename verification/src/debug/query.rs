//! Searches of the trace.

use vstd::prelude::*;

use super::address::{hex_read, parse_hex, same_result};
use super::trace::{newest, TraceEntry};

verus! {

/// Which entries of the trace are wanted. Times are in microseconds.
#[derive(Debug)]
pub struct TraceQuery {
    pub from_us: Option<u64>,
    pub to_us: Option<u64>,
    pub last_us: Option<u64>,
    pub last_n: Option<usize>,
    pub limit: Option<usize>,
    /// Only entries whose CS equals this (hex).
    pub cs: Option<String>,
    /// Skip entries executing in the BIOS segment (F000), except HLE traps.
    pub no_bios: bool,
}

/// How many entries are given when no limit is.
pub const DEFAULT_LIMIT: usize = 10_000;

/// Which entries are wanted, of which there are at most `limit`.
#[derive(Clone, Copy, Debug)]
pub struct Filter {
    pub from_us: u64,
    pub to_us: u64,
    pub cs: Option<u16>,
    pub no_bios: bool,
    pub limit: usize,
}

impl Filter {
    /// Whether an entry is wanted.
    pub open spec fn wants(self, e: TraceEntry) -> bool {
        &&& self.from_us <= e.t_us <= self.to_us
        &&& (self.cs matches Some(cs) ==> e.cs == cs)
        &&& !(self.no_bios && e.cs >= 0xF000 && !(e.bytes@[0] == 0xFE && e.bytes@[1] == 0x38))
    }

    fn passes(&self, e: &TraceEntry) -> (yes: bool)
        ensures
            yes == self.wants(*e),
    {
        let cs = match self.cs {
            Some(cs) => e.cs == cs,
            None => true,
        };
        let bios = self.no_bios && e.cs >= 0xF000 && !(e.bytes[0] == 0xFE && e.bytes[1] == 0x38);
        self.from_us <= e.t_us && e.t_us <= self.to_us && cs && !bios
    }
}

/// The entries that are wanted, in their order.
pub open spec fn wanted(entries: Seq<TraceEntry>, f: Filter) -> Seq<TraceEntry>
    decreases entries.len(),
{
    if entries.len() == 0 {
        Seq::empty()
    } else if f.wants(entries.last()) {
        wanted(entries.drop_last(), f).push(entries.last())
    } else {
        wanted(entries.drop_last(), f)
    }
}

/// The newest wanted entries, oldest first, up to the limit.
pub fn select(entries: &Vec<TraceEntry>, f: Filter) -> (found: Vec<TraceEntry>)
    ensures
        found@ == newest(wanted(entries@, f), f.limit as int),
{
    let mut all: Vec<TraceEntry> = Vec::new();
    let mut i: usize = 0;
    assert(all@ =~= wanted(entries@.take(0), f));
    while i < entries.len()
        invariant
            i <= entries@.len(),
            all@ == wanted(entries@.take(i as int), f),
        decreases entries.len() - i,
    {
        assert(entries@.take(i + 1).drop_last() =~= entries@.take(i as int));
        if f.passes(&entries[i]) {
            all.push(entries[i]);
        }
        i = i + 1;
    }
    assert(entries@.take(i as int) =~= entries@);
    let n: usize = all.len();
    if n <= f.limit {
        return all;
    }
    let part = vstd::slice::slice_subrange(all.as_slice(), n - f.limit, n);
    let found = vstd::slice::slice_to_vec(part);
    assert(found@ =~= newest(wanted(entries@, f), f.limit as int));
    found
}

impl TraceQuery {
    /// The smaller of two limits, of which the second may be missing.
    pub open spec fn most(self) -> usize {
        let limit = match self.limit {
            Some(n) => n,
            None => DEFAULT_LIMIT,
        };
        match self.last_n {
            Some(n) => if n < limit {
                n
            } else {
                limit
            },
            None => limit,
        }
    }

    /// Which entries are wanted at a time, or what is wrong with the query.
    pub open spec fn read(self, now_us: u64) -> Result<Filter, Seq<char>> {
        let (from_us, to_us) = match self.last_us {
            Some(last) => (
                if now_us < last {
                    0
                } else {
                    (now_us - last) as u64
                },
                u64::MAX,
            ),
            None => (
                match self.from_us {
                    Some(t) => t,
                    None => 0,
                },
                match self.to_us {
                    Some(t) => t,
                    None => u64::MAX,
                },
            ),
        };
        let rest = |cs: Option<u16>|
            Filter { from_us, to_us, cs, no_bios: self.no_bios, limit: self.most() };
        match self.cs {
            None => Ok(rest(None)),
            Some(text) => match hex_read(text@) {
                Ok(v) => Ok(rest(Some(v as u16))),
                Err(e) => Err(e),
            },
        }
    }

    /// Which entries are wanted at a time.
    pub fn filter(&self, now_us: u64) -> (f: Result<Filter, String>)
        ensures
            same_result(f, self.read(now_us)),
    {
        let cs = match &self.cs {
            None => None,
            Some(text) => match parse_hex(text.as_str()) {
                Ok(v) => Some(v as u16),
                Err(e) => {
                    return Err(e);
                },
            },
        };
        let (from_us, to_us): (u64, u64) = match self.last_us {
            Some(last) => (
                if now_us < last {
                    0
                } else {
                    now_us - last
                },
                u64::MAX,
            ),
            None => (
                match self.from_us {
                    Some(t) => t,
                    None => 0,
                },
                match self.to_us {
                    Some(t) => t,
                    None => u64::MAX,
                },
            ),
        };
        let limit: usize = match self.limit {
            Some(n) => n,
            None => DEFAULT_LIMIT,
        };
        let limit: usize = match self.last_n {
            Some(n) => if n < limit {
                n
            } else {
                limit
            },
            None => limit,
        };
        Ok(Filter { from_us, to_us, cs, no_bios: self.no_bios, limit })
    }
}

} // verus!
