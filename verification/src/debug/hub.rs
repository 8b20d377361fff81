//! The debugger's hold on the machine: pausing, stepping, breakpoints and
//! watchpoints, and the trace of instructions.

use vstd::prelude::*;

use super::feed::{Remote, RemoteInput};
use super::tables::{
    exception_info, register_list, registers, shown_pairs, tells_exception, ExceptionInfo,
};
use super::trace::{newest, TraceEntry, TraceRing};
use crate::bus::byte_at;
use crate::cpu::regs::Seg;
use crate::cpu::state::{Core, Cpu, ExceptionRecord};
use crate::text::{hex_string, hex_text};

verus! {

/// Why the machine is paused.
#[derive(Clone, Copy, Debug, PartialEq, Eq, Structural)]
pub enum PauseReason {
    Request,
    Breakpoint,
    Step,
    Exception,
    ModeSwitch,
    Watchpoint,
}

/// A reason as clients are told it.
pub open spec fn reason_text(reason: PauseReason) -> Seq<char> {
    match reason {
        PauseReason::Request => "request"@,
        PauseReason::Breakpoint => "breakpoint"@,
        PauseReason::Step => "step"@,
        PauseReason::Exception => "exception"@,
        PauseReason::ModeSwitch => "mode_switch"@,
        PauseReason::Watchpoint => "watchpoint"@,
    }
}

impl PauseReason {
    pub fn name(self) -> (name: &'static str)
        ensures
            name@ == reason_text(self),
    {
        match self {
            PauseReason::Request => "request",
            PauseReason::Breakpoint => "breakpoint",
            PauseReason::Step => "step",
            PauseReason::Exception => "exception",
            PauseReason::ModeSwitch => "mode_switch",
            PauseReason::Watchpoint => "watchpoint",
        }
    }
}

/// The little-endian number of some bytes of memory.
pub open spec fn watch_value(ram: Seq<u8>, phys: int, len: int) -> u32
    decreases len,
{
    if len <= 0 {
        0
    } else {
        watch_value(ram, phys, len - 1) | ((byte_at(ram, phys + len - 1) as u32) << ((8 * (len
            - 1)) as u32))
    }
}

/// Memory the debugger watches: `len` bytes at physical address `phys`,
/// which held `value` when last looked at.
#[derive(Clone, Copy, Debug, PartialEq, Eq, Structural)]
pub struct Watch {
    pub phys: usize,
    pub len: u8,
    pub value: u32,
}

impl Watch {
    /// What the memory holds now.
    pub open spec fn now(self, ram: Seq<u8>) -> u32 {
        watch_value(ram, self.phys as int, self.len as int)
    }

    /// What some bytes of memory hold.
    pub fn read(cpu: &Cpu, phys: usize, len: u8) -> (value: u32)
        requires
            len <= 4,
        ensures
            value == watch_value(cpu@.ram, phys as int, len as int),
    {
        let mut value: u32 = 0;
        let mut i: u8 = 0;
        while i < len
            invariant
                i <= len <= 4,
                value == watch_value(cpu@.ram, phys as int, i as int),
            decreases len - i,
        {
            let b: u8 = if phys <= usize::MAX - i as usize {
                cpu.bus.read_8(phys + i as usize)
            } else {
                assert(cpu.bus.ram@.len() == cpu.bus.ram.len());
                crate::bus::UNMAPPED
            };
            assert(b == byte_at(cpu@.ram, phys + i));
            let shift: u32 = 8 * i as u32;
            value = value | ((b as u32) << shift);
            i = i + 1;
        }
        value
    }
}

/// The watchpoint that stopped the machine: its address and length, and the
/// value before and after.
#[derive(Clone, Copy, Debug, PartialEq, Eq, Structural)]
pub struct WatchHit {
    pub phys: usize,
    pub len: u8,
    pub old: u32,
    pub new: u32,
}

/// A watched value as clients are told it.
pub fn watch_text(value: u32, len: u8) -> (text: String)
    ensures
        text@ == hex_text(value as nat, 2 * len),
{
    hex_string(value as u64, 2 * len as usize)
}

/// A save state to save or load, which the front end carries out and
/// answers.
#[derive(Debug)]
pub struct StateRequest {
    pub load: bool,
    pub path: String,
    /// The request to answer.
    pub id: u64,
}

/// The debugger's hold on the machine. Requests that wait for an answer are
/// known by their numbers.
#[derive(Debug)]
pub struct DebugHub {
    pub paused: bool,
    pub step_budget: Option<u64>,
    /// Physical addresses, in ascending order.
    pub breakpoints: Vec<usize>,
    pub temp_breakpoint: Option<usize>,
    /// Skip the breakpoint check for the first instruction after resuming,
    /// so continuing from a breakpoint doesn't immediately re-trigger it.
    pub skip_bp_once: bool,
    pub pause_hit: Option<PauseReason>,
    pub pause_waiters: Vec<u64>,
    /// Exceptions (bit n = vector n) and mode switches to pause after, and
    /// the counts of them last seen.
    pub break_exceptions: u32,
    pub break_mode_switch: bool,
    pub seen_exceptions: u64,
    pub seen_mode_switches: u64,
    pub watchpoints: Vec<Watch>,
    pub watch_hit: Option<WatchHit>,
    pub trace: TraceRing,
    pub trace_enabled: bool,
    pub trace_stream_max: usize,
    pub trace_stream_cursor: u64,
    pub tracing_now: bool,
    pub batch_t_us: u64,
    pub remote: RemoteInput,
    /// Save states to save or load, for the front end.
    pub state_requests: Vec<StateRequest>,
    pub frame_waiters: Vec<u64>,
}

/// The debugger's hold on the machine, as a value.
pub struct Hub {
    pub paused: bool,
    pub step_budget: Option<u64>,
    pub breakpoints: Set<usize>,
    pub temp_breakpoint: Option<usize>,
    pub skip_bp_once: bool,
    pub pause_hit: Option<PauseReason>,
    pub pause_waiters: Seq<u64>,
    pub break_exceptions: u32,
    pub break_mode_switch: bool,
    pub seen_exceptions: u64,
    pub seen_mode_switches: u64,
    pub watchpoints: Seq<Watch>,
    pub watch_hit: Option<WatchHit>,
    pub trace: Seq<TraceEntry>,
    pub trace_capacity: usize,
    pub trace_total: u64,
    pub trace_enabled: bool,
    pub trace_stream_max: usize,
    pub trace_stream_cursor: u64,
    pub tracing_now: bool,
    pub batch_t_us: u64,
    pub remote: Remote,
    pub state_requests: Seq<(bool, Seq<char>, u64)>,
    pub frame_waiters: Seq<u64>,
}

/// Requests for save states as values.
pub open spec fn requested(requests: Seq<StateRequest>) -> Seq<(bool, Seq<char>, u64)> {
    Seq::new(requests.len(), |i: int| (requests[i].load, requests[i].path@, requests[i].id))
}

impl View for DebugHub {
    type V = Hub;

    open spec fn view(&self) -> Hub {
        Hub {
            paused: self.paused,
            step_budget: self.step_budget,
            breakpoints: self.breakpoints@.to_set(),
            temp_breakpoint: self.temp_breakpoint,
            skip_bp_once: self.skip_bp_once,
            pause_hit: self.pause_hit,
            pause_waiters: self.pause_waiters@,
            break_exceptions: self.break_exceptions,
            break_mode_switch: self.break_mode_switch,
            seen_exceptions: self.seen_exceptions,
            seen_mode_switches: self.seen_mode_switches,
            watchpoints: self.watchpoints@,
            watch_hit: self.watch_hit,
            trace: self.trace@,
            trace_capacity: self.trace.capacity,
            trace_total: self.trace.total,
            trace_enabled: self.trace_enabled,
            trace_stream_max: self.trace_stream_max,
            trace_stream_cursor: self.trace_stream_cursor,
            tracing_now: self.tracing_now,
            batch_t_us: self.batch_t_us,
            remote: self.remote@,
            state_requests: requested(self.state_requests@),
            frame_waiters: self.frame_waiters@,
        }
    }
}

/// Whether addresses stand in ascending order, none twice.
pub open spec fn ascending(v: Seq<usize>) -> bool {
    forall|i: int, j: int| 0 <= i < j < v.len() ==> v[i] < v[j]
}

/// The first watch whose memory changed.
pub open spec fn first_change(watches: Seq<Watch>, ram: Seq<u8>) -> Option<int>
    decreases watches.len(),
{
    if watches.len() == 0 {
        None
    } else if watches[0].now(ram) != watches[0].value {
        Some(0)
    } else {
        match first_change(watches.skip(1), ram) {
            Some(i) => Some(i + 1),
            None => None,
        }
    }
}

/// Whether the last exception is one to pause after.
pub open spec fn stops_after(log: Seq<ExceptionRecord>, mask: u32) -> bool {
    log.len() > 0 && log.last().vector < 32 && mask & (1u32 << log.last().vector as u32) != 0
}

/// How many bytes of an instruction are recorded.
pub open spec fn recorded_len(ram_len: int, phys_ip: int) -> int {
    if phys_ip + 15 <= ram_len {
        15
    } else if phys_ip < ram_len {
        ram_len - phys_ip
    } else {
        0
    }
}

/// Whether a trace entry records an instruction that is about to run.
pub open spec fn records(e: TraceEntry, s: Core, t_us: u64, phys_ip: int) -> bool {
    &&& e.t_us == t_us
    &&& e.icount == s.rest.executed
    &&& e.cs == s.cache(Seg::CS).selector
    &&& e.ip == s.eip as u16
    &&& e.ax == s.gpr[0] as u16
    &&& e.bx == s.gpr[3] as u16
    &&& e.cx == s.gpr[1] as u16
    &&& e.dx == s.gpr[2] as u16
    &&& e.si == s.gpr[6] as u16
    &&& e.di == s.gpr[7] as u16
    &&& e.bp == s.gpr[5] as u16
    &&& e.sp == s.gpr[4] as u16
    &&& e.ds == s.cache(Seg::DS).selector
    &&& e.es == s.cache(Seg::ES).selector
    &&& e.ss == s.cache(Seg::SS).selector
    &&& e.flags == s.flags as u16
    &&& e.len == recorded_len(s.ram.len() as int, phys_ip)
    &&& forall|i: int|
        0 <= i < 15 ==> #[trigger] e.bytes@[i] == (if i < e.len {
            s.ram[phys_ip + i]
        } else {
            0
        })
}

impl Hub {
    /// Paused for a reason.
    pub open spec fn paused_for(self, reason: PauseReason) -> Hub {
        Hub { paused: true, step_budget: None, pause_hit: Some(reason), ..self }
    }

    /// Resumed.
    pub open spec fn resumed(self) -> Hub {
        if self.paused {
            Hub { paused: false, skip_bp_once: true, ..self }
        } else {
            self
        }
    }

    /// What the check before an instruction comes to: the hub after it, and
    /// whether execution must stop.
    pub open spec fn verdict(self, s: Core, phys_ip: usize) -> (Hub, bool) {
        match first_change(self.watchpoints, s.ram) {
            Some(i) => {
                let w = self.watchpoints[i];
                let now = w.now(s.ram);
                (
                    (Hub {
                        watch_hit: Some(WatchHit { phys: w.phys, len: w.len, old: w.value, new: now }),
                        watchpoints: self.watchpoints.update(i, Watch { value: now, ..w }),
                        ..self
                    }).paused_for(PauseReason::Watchpoint),
                    true,
                )
            },
            None => self.after_events(s, phys_ip),
        }
    }

    /// The check once no watched memory changed.
    pub open spec fn after_events(self, s: Core, phys_ip: usize) -> (Hub, bool) {
        let raised = s.rest.exceptions != self.seen_exceptions;
        let h = Hub { seen_exceptions: s.rest.exceptions, ..self };
        if raised && stops_after(s.rest.exception_log, h.break_exceptions) {
            (h.paused_for(PauseReason::Exception), true)
        } else {
            let switched = s.rest.mode_switches != h.seen_mode_switches;
            let h = Hub { seen_mode_switches: s.rest.mode_switches, ..h };
            if switched && h.break_mode_switch {
                (h.paused_for(PauseReason::ModeSwitch), true)
            } else {
                h.at_address(phys_ip)
            }
        }
    }

    /// The check of breakpoints and of steps.
    pub open spec fn at_address(self, phys_ip: usize) -> (Hub, bool) {
        if !self.skip_bp_once && (self.temp_breakpoint == Some(phys_ip)
            || self.breakpoints.contains(phys_ip)) {
            (
                (Hub { temp_breakpoint: None, ..self }).paused_for(PauseReason::Breakpoint),
                true,
            )
        } else {
            let h = Hub { skip_bp_once: false, ..self };
            match h.step_budget {
                Some(n) => if n == 0 {
                    (h.paused_for(PauseReason::Step), true)
                } else {
                    (Hub { step_budget: Some((n - 1) as u64), ..h }, false)
                },
                None => (h, false),
            }
        }
    }

    /// Whether each instruction must be looked at before it runs.
    pub open spec fn watching(self) -> bool {
        ||| self.tracing_now
        ||| self.step_budget is Some
        ||| self.temp_breakpoint is Some
        ||| exists|a: usize| self.breakpoints.contains(a)
        ||| self.break_exceptions != 0
        ||| self.break_mode_switch
        ||| self.watchpoints.len() > 0
    }
}

/// What is told when the machine pauses, and to whom.
#[derive(Debug)]
pub struct PauseNotice {
    pub reason: PauseReason,
    pub icount: u64,
    pub registers: Vec<(&'static str, String)>,
    pub exception: Option<ExceptionInfo>,
    pub watch: Option<WatchHit>,
    /// The requests that waited for the pause.
    pub waiters: Vec<u64>,
}

impl PauseNotice {
    /// Whether the notice tells of a pause of a hub.
    pub open spec fn tells(&self, h: Hub, s: Core) -> bool {
        &&& h.pause_hit == Some(self.reason)
        &&& self.icount == s.rest.executed
        &&& shown_pairs(self.registers@) == register_list(s)
        &&& match self.exception {
            Some(e) => self.reason == PauseReason::Exception && s.rest.exception_log.len() > 0
                && tells_exception(e, s.rest.exception_log.last()),
            None => self.reason != PauseReason::Exception || s.rest.exception_log.len() == 0,
        }
        &&& self.watch == h.watch_hit
        &&& self.waiters@ == h.pause_waiters
    }
}

impl DebugHub {
    /// The invariants: breakpoints in order, watched memory of at most a
    /// double word, the trace and the remote input well formed.
    pub open spec fn wf(&self) -> bool {
        &&& ascending(self.breakpoints@)
        &&& forall|i: int| 0 <= i < self.watchpoints@.len() ==> (#[trigger] self.watchpoints@[i]).len <= 4
        &&& self.trace.wf()
        &&& self.remote@.wf()
    }

    /// A hub with no server attached. Every hook reduces to a couple of
    /// boolean checks.
    pub fn disabled() -> (hub: Self)
        ensures
            hub.wf(),
            hub@.fresh(1),
    {
        Self::new(1)
    }

    pub fn new(trace_capacity: usize) -> (hub: Self)
        ensures
            hub.wf(),
            hub@.fresh(trace_capacity),
    {
        let hub = DebugHub {
            paused: false,
            step_budget: None,
            breakpoints: Vec::new(),
            temp_breakpoint: None,
            skip_bp_once: false,
            pause_hit: None,
            pause_waiters: Vec::new(),
            break_exceptions: 0,
            break_mode_switch: false,
            seen_exceptions: 0,
            seen_mode_switches: 0,
            watchpoints: Vec::new(),
            watch_hit: None,
            trace: TraceRing::new(trace_capacity),
            trace_enabled: false,
            trace_stream_max: 1000,
            trace_stream_cursor: 0,
            tracing_now: false,
            batch_t_us: 0,
            remote: RemoteInput::new(),
            state_requests: Vec::new(),
            frame_waiters: Vec::new(),
        };
        hub
    }

    pub(crate) fn enter_pause(&mut self, reason: PauseReason)
        requires
            old(self).wf(),
        ensures
            final(self).wf(),
            final(self)@ == old(self)@.paused_for(reason),
    {
        self.paused = true;
        self.step_budget = None;
        self.pause_hit = Some(reason);
    }

    pub(crate) fn resume(&mut self)
        requires
            old(self).wf(),
        ensures
            final(self).wf(),
            final(self)@ == old(self)@.resumed(),
    {
        if self.paused {
            self.paused = false;
            self.skip_bp_once = true;
        }
    }

    /// Prepare for an execution batch. Returns true when the per-instruction
    /// hook (`check_before_exec`) must run.
    pub fn begin_batch(&mut self, now_us: u64, streaming: bool) -> (hook: bool)
        requires
            old(self).wf(),
        ensures
            final(self).wf(),
            ({
                let tracing = old(self)@.trace_enabled || streaming;
                final(self)@ == (Hub {
                    tracing_now: tracing,
                    batch_t_us: if tracing {
                        now_us
                    } else {
                        old(self)@.batch_t_us
                    },
                    ..old(self)@
                })
            }),
            hook == final(self)@.watching(),
    {
        self.tracing_now = self.trace_enabled || streaming;
        if self.tracing_now {
            self.batch_t_us = now_us;
        }
        let hook = self.tracing_now || self.step_budget.is_some() || self.temp_breakpoint.is_some()
            || self.breakpoints.len() > 0 || self.break_exceptions != 0 || self.break_mode_switch
            || self.watchpoints.len() > 0;
        proof {
            if self.breakpoints@.len() > 0 {
                assert(self@.breakpoints.contains(self.breakpoints@[0]));
            } else {
                assert forall|a: usize| !self@.breakpoints.contains(a) by {}
            }
        }
        hook
    }

    /// The first watch whose memory changed, and what it holds now.
    fn changed_watch(&self, cpu: &Cpu) -> (found: Option<(usize, u32)>)
        requires
            self.wf(),
        ensures
            match (found, first_change(self@.watchpoints, cpu@.ram)) {
                (Some((i, now)), Some(j)) => i == j && i < self.watchpoints@.len() && now
                    == self.watchpoints@[j].now(cpu@.ram),
                (None, None) => true,
                _ => false,
            },
    {
        let ghost all = self.watchpoints@;
        let mut i: usize = 0;
        assert(all.skip(0) =~= all);
        while i < self.watchpoints.len()
            invariant
                self.wf(),
                all == self.watchpoints@,
                i <= all.len(),
                match first_change(all.skip(i as int), cpu@.ram) {
                    Some(j) => first_change(all, cpu@.ram) == Some(j + i),
                    None => first_change(all, cpu@.ram) is None,
                },
            decreases self.watchpoints.len() - i,
        {
            assert(all.skip(i as int).skip(1) =~= all.skip(i + 1));
            let w = self.watchpoints[i];
            let now: u32 = Watch::read(cpu, w.phys, w.len);
            if now != w.value {
                return Some((i, now));
            }
            i = i + 1;
        }
        None
    }

    /// Whether there is a breakpoint at an address.
    pub fn has_breakpoint(&self, phys: usize) -> (yes: bool)
        ensures
            yes == self@.breakpoints.contains(phys),
    {
        let mut i: usize = 0;
        while i < self.breakpoints.len()
            invariant
                i <= self.breakpoints@.len(),
                forall|j: int| 0 <= j < i ==> self.breakpoints@[j] != phys,
            decreases self.breakpoints.len() - i,
        {
            if self.breakpoints[i] == phys {
                assert(self.breakpoints@.contains(self.breakpoints@[i as int]));
                return true;
            }
            i = i + 1;
        }
        false
    }

    /// The entry of the trace for an instruction that is about to run.
    fn entry(&self, cpu: &Cpu, phys_ip: usize) -> (e: TraceEntry)
        ensures
            records(e, cpu@, self.batch_t_us, phys_ip as int),
            e.wf(),
    {
        let n: usize = cpu.bus.ram.len();
        let len: usize = if phys_ip >= n {
            0
        } else if n - phys_ip >= 15 {
            15
        } else {
            n - phys_ip
        };
        let mut bytes: [u8; 15] = [0;15];
        let mut i: usize = 0;
        assert(cpu.bus.ram@.len() == n);
        while i < len
            invariant
                i <= len <= 15,
                len > 0 ==> phys_ip + len <= cpu.bus.ram@.len() <= usize::MAX,
                len == recorded_len(cpu@.ram.len() as int, phys_ip as int),
                forall|j: int|
                    0 <= j < 15 ==> #[trigger] bytes@[j] == (if j < i {
                        cpu@.ram[phys_ip + j]
                    } else {
                        0
                    }),
            decreases len - i,
        {
            bytes[i] = cpu.bus.ram[phys_ip + i];
            i = i + 1;
        }
        TraceEntry {
            t_us: self.batch_t_us,
            icount: cpu.executed,
            cs: cpu.cs(),
            ip: cpu.ip(),
            ax: cpu.ax(),
            bx: cpu.bx(),
            cx: cpu.cx(),
            dx: cpu.dx(),
            si: cpu.si(),
            di: cpu.di(),
            bp: cpu.bp(),
            sp: cpu.sp(),
            ds: cpu.ds(),
            es: cpu.es(),
            ss: cpu.ss(),
            flags: cpu.flags.bits as u16,
            bytes,
            len: len as u8,
        }
    }

    /// The check once no watched memory changed.
    fn check_events(&mut self, cpu: &Cpu, phys_ip: usize) -> (stop: bool)
        requires
            old(self).wf(),
        ensures
            final(self).wf(),
            (final(self)@, stop) == old(self)@.after_events(cpu@, phys_ip),
    {
        if cpu.exceptions != self.seen_exceptions {
            self.seen_exceptions = cpu.exceptions;
            let n: usize = cpu.exception_log.len();
            if n > 0 {
                let vector: u8 = cpu.exception_log[n - 1].vector;
                if vector < 32 && self.break_exceptions & (1u32 << vector as u32) != 0 {
                    self.enter_pause(PauseReason::Exception);
                    return true;
                }
            }
        }
        if cpu.mode_switches != self.seen_mode_switches {
            self.seen_mode_switches = cpu.mode_switches;
            if self.break_mode_switch {
                self.enter_pause(PauseReason::ModeSwitch);
                return true;
            }
        }
        let here = match self.temp_breakpoint {
            Some(at) => at == phys_ip,
            None => false,
        };
        if !self.skip_bp_once && (here || self.has_breakpoint(phys_ip)) {
            self.temp_breakpoint = None;
            self.enter_pause(PauseReason::Breakpoint);
            return true;
        }
        self.skip_bp_once = false;
        if let Some(n) = self.step_budget {
            if n == 0 {
                self.step_budget = None;
                self.enter_pause(PauseReason::Step);
                return true;
            }
            self.step_budget = Some(n - 1);
        }
        false
    }

    /// Per-instruction hook, called just before an instruction at `phys_ip`
    /// executes. Returns true if execution must stop (the hub is now paused);
    /// else the instruction is recorded, if the trace runs.
    pub fn check_before_exec(&mut self, cpu: &Cpu, phys_ip: usize) -> (stop: bool)
        requires
            old(self).wf(),
            old(self)@.trace_total < u64::MAX,
        ensures
            final(self).wf(),
            ({
                let (after, stops) = old(self)@.verdict(cpu@, phys_ip);
                let h = final(self)@;
                &&& stop == stops
                &&& h == (Hub { trace: h.trace, trace_total: h.trace_total, ..after })
                &&& if stops || !after.tracing_now {
                    h.trace == after.trace && h.trace_total == after.trace_total
                } else {
                    &&& h.trace_total == after.trace_total + 1
                    &&& h.trace.len() > 0
                    &&& records(h.trace.last(), cpu@, after.batch_t_us, phys_ip as int)
                    &&& h.trace == newest(
                        after.trace.push(h.trace.last()),
                        after.trace_capacity as int,
                    )
                }
            }),
    {
        // Memory the last instruction (or an interrupt handler of the
        // emulator's) changed.
        if let Some((i, now)) = self.changed_watch(cpu) {
            let w = self.watchpoints[i];
            self.watch_hit = Some(WatchHit { phys: w.phys, len: w.len, old: w.value, new: now });
            self.watchpoints[i] = Watch { phys: w.phys, len: w.len, value: now };
            self.enter_pause(PauseReason::Watchpoint);
            return true;
        }
        if self.check_events(cpu, phys_ip) {
            return true;
        }
        if self.tracing_now {
            let e = self.entry(cpu, phys_ip);
            self.trace.push(e);
            proof {
                let all = old(self)@.trace.push(e);
                assert(self@.trace == newest(all, old(self)@.trace_capacity as int));
                assert(self@.trace.last() == e);
            }
        }
        false
    }

    /// Call after the execution batch: the pause notification to deliver.
    pub fn end_batch(&mut self, cpu: &Cpu) -> (notice: Option<PauseNotice>)
        requires
            old(self).wf(),
        ensures
            final(self).wf(),
            match notice {
                Some(n) => n.tells(old(self)@, cpu@) && final(self)@ == (Hub {
                    pause_hit: None,
                    watch_hit: None,
                    pause_waiters: Seq::empty(),
                    ..old(self)@
                }),
                None => old(self)@.pause_hit is None && final(self)@ == old(self)@,
            },
    {
        let reason = match self.pause_hit {
            Some(reason) => reason,
            None => {
                return None;
            },
        };
        self.pause_hit = None;
        let regs = registers(cpu);
        let n: usize = cpu.exception_log.len();
        let exception = if reason == PauseReason::Exception && n > 0 {
            Some(exception_info(&cpu.exception_log[n - 1]))
        } else {
            None
        };
        let watch = self.watch_hit;
        self.watch_hit = None;
        let mut waiters: Vec<u64> = Vec::new();
        waiters.append(&mut self.pause_waiters);
        assert(waiters@ =~= old(self)@.pause_waiters);
        assert(self.pause_waiters@ =~= Seq::empty());
        Some(
            PauseNotice {
                reason,
                icount: cpu.executed,
                registers: regs,
                exception,
                watch,
                waiters,
            },
        )
    }

    /// New trace entries for the stream after a batch, and how many there is
    /// no room for; nothing while nobody listens.
    pub fn stream_trace(&mut self, listening: bool) -> (batch: Option<(Vec<TraceEntry>, u64)>)
        requires
            old(self).wf(),
        ensures
            final(self).wf(),
            final(self)@ == (Hub {
                trace_stream_cursor: old(self)@.trace_total,
                ..old(self)@
            }),
            ({
                let h = old(self)@;
                let new = if h.trace_total < h.trace_stream_cursor {
                    0
                } else {
                    h.trace_total - h.trace_stream_cursor
                };
                let some = newest(
                    h.trace,
                    if new < h.trace_stream_max {
                        new
                    } else {
                        h.trace_stream_max as int
                    },
                );
                match batch {
                    Some((entries, dropped)) => listening && entries@ == some && dropped == new
                        - some.len() && new > 0,
                    None => !listening || new == 0,
                }
            }),
    {
        if !listening {
            self.trace_stream_cursor = self.trace.total();
            return None;
        }
        let (entries, dropped): (Vec<TraceEntry>, u64) = self.trace.since(
            self.trace_stream_cursor,
            self.trace_stream_max,
        );
        self.trace_stream_cursor = self.trace.total();
        if entries.len() > 0 || dropped > 0 {
            Some((entries, dropped))
        } else {
            None
        }
    }

    /// Whether the composited frame is wanted this frame.
    pub fn wants_frame(&self, subscribers: usize) -> (yes: bool)
        ensures
            yes == (self@.frame_waiters.len() > 0 || subscribers > 0),
    {
        self.frame_waiters.len() > 0 || subscribers > 0
    }

    /// The screenshot requests that the composited frame answers.
    pub fn take_frame_waiters(&mut self) -> (waiters: Vec<u64>)
        requires
            old(self).wf(),
        ensures
            final(self).wf(),
            waiters@ == old(self)@.frame_waiters,
            final(self)@ == (Hub { frame_waiters: Seq::empty(), ..old(self)@ }),
    {
        let mut waiters: Vec<u64> = Vec::new();
        waiters.append(&mut self.frame_waiters);
        assert(waiters@ =~= old(self)@.frame_waiters);
        assert(self.frame_waiters@ =~= Seq::empty());
        waiters
    }

    /// The save states remote clients asked to save or load.
    pub fn take_state_requests(&mut self) -> (taken: Vec<StateRequest>)
        requires
            old(self).wf(),
        ensures
            final(self).wf(),
            requested(taken@) == old(self)@.state_requests,
            final(self)@ == (Hub { state_requests: Seq::empty(), ..old(self)@ }),
    {
        let mut taken: Vec<StateRequest> = Vec::new();
        taken.append(&mut self.state_requests);
        assert(requested(taken@) =~= old(self)@.state_requests);
        assert(requested(self.state_requests@) =~= Seq::empty());
        taken
    }
}

impl Hub {
    /// A hub that nothing was asked of yet.
    pub open spec fn fresh(self, trace_capacity: usize) -> bool {
        &&& !self.paused
        &&& self.step_budget is None
        &&& forall|a: usize| !self.breakpoints.contains(a)
        &&& self.temp_breakpoint is None
        &&& !self.skip_bp_once
        &&& self.pause_hit is None
        &&& self.pause_waiters.len() == 0
        &&& self.break_exceptions == 0
        &&& !self.break_mode_switch
        &&& self.seen_exceptions == 0
        &&& self.seen_mode_switches == 0
        &&& self.watchpoints.len() == 0
        &&& self.watch_hit is None
        &&& self.trace.len() == 0
        &&& self.trace_capacity == (if trace_capacity == 0 {
            1
        } else {
            trace_capacity
        })
        &&& self.trace_total == 0
        &&& !self.trace_enabled
        &&& self.trace_stream_max == 1000
        &&& self.trace_stream_cursor == 0
        &&& !self.tracing_now
        &&& self.batch_t_us == 0
        &&& self.remote.input.len() == 0
        &&& self.remote.wait_until is None
        &&& self.remote.remote_held.len() == 0
        &&& self.remote.ui_input.len() == 0
        &&& !self.remote.divert
        &&& !self.remote.hotkey
        &&& self.remote.remote_mods == 0
        &&& self.state_requests.len() == 0
        &&& self.frame_waiters.len() == 0
    }
}

/// Continuing from a breakpoint does not stop at it again at once: the first
/// instruction after resuming a paused machine runs, and the breakpoint
/// stops the machine the next time.
pub proof fn law_resume_skips_once(h: Hub, s: Core, phys_ip: usize)
    requires
        h.paused,
        h.breakpoints.contains(phys_ip),
        h.step_budget is None,
        first_change(h.watchpoints, s.ram) is None,
        s.rest.exceptions == h.seen_exceptions,
        s.rest.mode_switches == h.seen_mode_switches,
    ensures
        !h.resumed().verdict(s, phys_ip).1,
        h.resumed().verdict(s, phys_ip).0.verdict(s, phys_ip).1,
        h.resumed().verdict(s, phys_ip).0.verdict(s, phys_ip).0.pause_hit == Some(
            PauseReason::Breakpoint,
        ),
{
}

/// A watchpoint stops the machine once for a change: the memory not changing
/// again, it does not stop it a second time.
pub proof fn law_watch_stops_once(h: Hub, s: Core, phys_ip: usize)
    requires
        h.watchpoints.len() == 1,
        h.watchpoints[0].now(s.ram) != h.watchpoints[0].value,
    ensures
        h.verdict(s, phys_ip).1,
        first_change(h.verdict(s, phys_ip).0.watchpoints, s.ram) is None,
{
    let after = h.verdict(s, phys_ip).0.watchpoints;
    assert(after[0].now(s.ram) == after[0].value);
    assert(after.skip(1).len() == 0);
    reveal_with_fuel(first_change, 2);
}

/// The machine stops in the check exactly when the hub is paused after it,
/// and with a reason to tell.
pub proof fn law_stopping_pauses(h: Hub, s: Core, phys_ip: usize)
    requires
        !h.paused,
        h.pause_hit is None,
    ensures
        ({
            let (after, stop) = h.verdict(s, phys_ip);
            stop == after.paused && stop == (after.pause_hit is Some)
        }),
{
}

/// The instructions that run of those that come, each with the processor
/// before it and its address: the hub where it stops, and how many ran.
pub open spec fn run_until_stop(h: Hub, visits: Seq<(Core, usize)>) -> (Hub, int)
    decreases visits.len(),
{
    if visits.len() == 0 {
        (h, 0)
    } else {
        let (after, stop) = h.verdict(visits[0].0, visits[0].1);
        if stop {
            (after, 0)
        } else {
            let (last, n) = run_until_stop(after, visits.skip(1));
            (last, n + 1)
        }
    }
}

/// A step of `n` instructions runs `n` of them and then pauses the machine,
/// where nothing else is set to stop it.
pub proof fn law_step_counts(h: Hub, visits: Seq<(Core, usize)>, n: u64)
    requires
        h.step_budget == Some(n),
        n < visits.len(),
        h.temp_breakpoint is None,
        forall|a: usize| !h.breakpoints.contains(a),
        h.watchpoints.len() == 0,
        h.break_exceptions == 0,
        !h.break_mode_switch,
    ensures
        run_until_stop(h, visits).1 == n,
        run_until_stop(h, visits).0.paused,
        run_until_stop(h, visits).0.pause_hit == Some(PauseReason::Step),
    decreases n,
{
    let (s, at) = visits[0];
    if s.rest.exception_log.len() > 0 {
        let bit = 1u32 << s.rest.exception_log.last().vector as u32;
        assert(0u32 & bit == 0) by (bit_vector);
    }
    assert(!stops_after(s.rest.exception_log, h.break_exceptions));
    assert(first_change(h.watchpoints, s.ram) is None);
    if n > 0 {
        let after = h.verdict(s, at).0;
        assert(!h.verdict(s, at).1);
        law_step_counts(after, visits.skip(1), (n - 1) as u64);
    }
}

} // verus!
