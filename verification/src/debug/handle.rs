//! The debugger's requests: what each does to the hub and to the machine,
//! and what it is answered.

use vstd::prelude::*;

use super::address::{
    address_read, breakpoint_at, breakpoint_phys, mode_name, mode_text, parse_addr, same_result,
    DebugAddr,
};
use super::feed::{notified, Remote};
use super::hub::{ascending, requested, DebugHub, Hub, PauseReason, StateRequest, Watch};
use super::input::{event_input, expand_input, InputEvent, Keymap, LowInput};
use super::listing::{listing, Row, LISTING_LIMIT};
use super::query::{select, wanted, TraceQuery};
use super::registers::{entry_updates, set_regs, updated, RegValue};
use super::step::{next_stop, step_over_target};
use super::tables::{
    exceptions_info, exceptions_tell, gates_below, gates_tell, idt_info, ivt_info, pagewalk_info,
    register_list, registers, shown_pairs, table_info, table_tells, tss_info, tss_tells,
    vector_of, walk_tells, ExceptionInfo, GateInfo, PageWalk, TableInfo, TssInfo, VectorInfo,
};
use super::trace::{newest, TraceEntry};
use crate::bus::store_8;
use crate::cpu::regs::Seg;
use crate::cpu::state::{Core, Cpu, CpuState, Rest};
use crate::disk::drives::{DiskController, Drive, Storage};
use crate::disk::names::{drive_letter, letter_of, DRIVE_C};
use crate::text::{hex_string, hex_text, push_hex};

verus! {

/// A request of the debugger.
#[derive(Debug)]
pub enum Cmd {
    Status,
    Screenshot,
    TraceQuery(TraceQuery),
    TraceControl { enabled: Option<bool>, clear: bool, stream_max: Option<usize> },
    Input { events: Vec<InputEvent>, wait: bool },
    InputClear,
    Pause,
    Resume { until: Option<String> },
    Step { count: u64 },
    /// Step, but run a call, interrupt, loop or repeated string instruction
    /// through to the instruction after it.
    StepOver,
    WaitPause,
    RebootShell,
    GetRegs,
    SetRegs(Vec<(String, RegValue)>),
    ReadMem { addr: String, len: usize },
    WriteMem { addr: String, data: Vec<u8> },
    Disasm { addr: Option<String>, count: usize },
    ListBreakpoints,
    AddBreakpoint(String),
    RemoveBreakpoint(Option<String>),
    ListWatchpoints,
    /// Pause when the 1, 2 or 4 bytes at an address change.
    AddWatchpoint { addr: String, len: u8 },
    RemoveWatchpoint(Option<String>),
    /// Pause after the CPU raises one of these exceptions (bit n = vector
    /// n), or switches between real and protected mode.
    BreakOn {
        exceptions: Option<u32>,
        clear_exceptions: Option<u32>,
        mode_switch: Option<bool>,
    },
    Ivt,
    Gdt,
    Ldt,
    Idt,
    Tss,
    PageWalk(String),
    Exceptions,
    /// Save the machine to a save state file, or load one, which the front
    /// end does (`take_state_requests`).
    SaveState { path: String },
    LoadState { path: String },
}

/// How the trace is set.
#[derive(Clone, Copy, Debug, PartialEq, Eq, Structural)]
pub struct TraceStatus {
    pub enabled: bool,
    pub active: bool,
    pub entries: usize,
    pub capacity: usize,
    pub total_recorded: u64,
    pub stream_max_per_frame: usize,
}

/// How the machine and the hub are.
#[derive(Debug)]
pub struct StatusInfo {
    pub paused: bool,
    pub settings_window: bool,
    pub icount: u64,
    pub cs_ip: String,
    pub cpu_mode: &'static str,
    pub cpu_state: CpuState,
    /// The shell waits at its prompt.
    pub shell_idle: bool,
    pub process_depth: usize,
    pub current_psp: u16,
    /// What C: shows of the host.
    pub drive_c: Option<Shows>,
    pub current_drive: char,
    pub trace: TraceStatus,
    pub breakpoints: usize,
    pub watchpoints: usize,
    pub input_queue: usize,
}

/// What the machine pauses at: addresses in ascending order, exceptions by
/// their vectors, and mode switches.
#[derive(Debug)]
pub struct BreakpointList {
    pub addresses: Vec<usize>,
    pub exceptions: Vec<u8>,
    pub mode_switch: bool,
}

/// What a request is answered.
#[derive(Debug)]
pub enum Reply {
    Status(StatusInfo),
    Trace(Vec<TraceEntry>),
    TraceStatus(TraceStatus),
    /// The length of the queue.
    Queued(usize),
    /// The queue was dropped, and with it the input of these requests.
    Cleared(Vec<u64>),
    Paused { icount: u64, registers: Vec<(&'static str, String)> },
    Running,
    Done,
    Registers(Vec<(&'static str, String)>),
    Bytes { addr: usize, segoff: Option<(u16, u32)>, data: Vec<u8> },
    Written { addr: usize, written: usize },
    Disassembly(Vec<Row>),
    Breakpoints(BreakpointList),
    /// What is watched, with what it holds now.
    Watchpoints(Vec<Watch>),
    Ivt(Vec<VectorInfo>),
    Table(Option<TableInfo>),
    Gates(Vec<GateInfo>),
    Tss(TssInfo),
    Walk(PageWalk),
    Exceptions(Vec<ExceptionInfo>),
    Error(u16, String),
}

/// What comes of a request: its answer, if it is answered at once, and
/// whether clients are told that the machine runs again.
#[derive(Debug)]
pub struct Outcome {
    pub reply: Option<Reply>,
    pub resumed: bool,
}

impl Outcome {
    /// The request is answered later.
    pub open spec fn later(self) -> bool {
        self.reply is None && !self.resumed
    }

    /// The request failed, with a status and a message.
    pub open spec fn failed(self, code: u16, message: Seq<char>) -> bool {
        &&& !self.resumed
        &&& self.reply matches Some(Reply::Error(c, m)) && c == code && m@ == message
    }

    fn later_on() -> (out: Outcome)
        ensures
            out.later(),
    {
        Outcome { reply: None, resumed: false }
    }

    fn now(reply: Reply) -> (out: Outcome)
        ensures
            out == (Outcome { reply: Some(reply), resumed: false }),
    {
        Outcome { reply: Some(reply), resumed: false }
    }

    fn bad(message: String) -> (out: Outcome)
        ensures
            out.failed(400, message@),
    {
        Outcome { reply: Some(Reply::Error(400, message)), resumed: false }
    }
}

impl Hub {
    /// With a request that waits for the machine to pause.
    pub open spec fn waited(self, id: u64) -> Hub {
        Hub { pause_waiters: self.pause_waiters.push(id), ..self }
    }

    /// How the trace is set.
    pub open spec fn trace_status(self) -> TraceStatus {
        TraceStatus {
            enabled: self.trace_enabled,
            active: self.tracing_now,
            entries: self.trace.len() as usize,
            capacity: self.trace_capacity,
            total_recorded: self.trace_total,
            stream_max_per_frame: self.trace_stream_max,
        }
    }
}

/// The registers of a paused machine.
pub open spec fn tells_paused(out: Outcome, s: Core) -> bool {
    &&& !out.resumed
    &&& out.reply matches Some(Reply::Paused { icount, registers }) && icount == s.rest.executed
        && shown_pairs(registers@) == register_list(s)
}

impl DebugHub {
    /// Pause the machine; a machine that stands paused answers at once.
    fn pause(&mut self, cpu: &Cpu, id: u64) -> (out: Outcome)
        requires
            old(self).wf(),
        ensures
            final(self).wf(),
            old(self)@.pausing(cpu@, id, final(self)@, out),
    {
        if self.paused && self.pause_hit.is_none() {
            return Outcome::now(
                Reply::Paused { icount: cpu.executed, registers: registers(cpu) },
            );
        }
        if !self.paused {
            self.enter_pause(PauseReason::Request);
        }
        // Pause notifications go out from end_batch.
        self.pause_waiters.push(id);
        Outcome::later_on()
    }

    /// Wait for the machine to pause.
    fn wait_pause(&mut self, cpu: &Cpu, id: u64) -> (out: Outcome)
        requires
            old(self).wf(),
        ensures
            final(self).wf(),
            old(self)@.awaiting(cpu@, id, final(self)@, out),
    {
        if self.paused && self.pause_hit.is_none() {
            return Outcome::now(
                Reply::Paused { icount: cpu.executed, registers: registers(cpu) },
            );
        }
        self.pause_waiters.push(id);
        Outcome::later_on()
    }

    /// Resume the machine, up to an address if one is given.
    fn resume_until(&mut self, cpu: &Cpu, until: &Option<String>) -> (out: Outcome)
        requires
            old(self).wf(),
        ensures
            final(self).wf(),
            old(self)@.resuming(cpu@, *until, final(self)@, out),
    {
        if let Some(a) = until {
            match break_address(cpu, a.as_str()) {
                Ok(phys) => {
                    self.temp_breakpoint = Some(phys);
                },
                Err(e) => {
                    return Outcome::bad(e);
                },
            }
        }
        let was = self.paused;
        self.resume();
        Outcome { reply: Some(Reply::Running), resumed: was }
    }

    /// Step over the instruction at CS:EIP.
    fn step_over(&mut self, cpu: &Cpu, id: u64) -> (out: Outcome)
        requires
            old(self).wf(),
        ensures
            final(self).wf(),
            old(self)@.stepping_over(cpu@, id, final(self)@, out),
    {
        match step_over_target(cpu) {
            Some(next) => {
                self.temp_breakpoint = Some(next);
            },
            None => {
                self.step_budget = Some(1);
            },
        }
        let was = self.paused;
        self.resume();
        self.pause_waiters.push(id);
        Outcome { reply: None, resumed: was }
    }

    /// Run some instructions.
    fn step(&mut self, count: u64, id: u64) -> (out: Outcome)
        requires
            old(self).wf(),
        ensures
            final(self).wf(),
            final(self)@ == (Hub {
                step_budget: Some(
                    if count == 0 {
                        1
                    } else {
                        count
                    },
                ),
                ..old(self)@
            }).resumed().waited(id),
            out.later(),
    {
        self.step_budget = Some(
            if count == 0 {
                1
            } else {
                count
            },
        );
        self.resume();
        self.pause_waiters.push(id);
        Outcome::later_on()
    }

    pub fn trace_status(&self) -> (status: TraceStatus)
        requires
            self.wf(),
        ensures
            status == self@.trace_status(),
    {
        TraceStatus {
            enabled: self.trace_enabled,
            active: self.tracing_now,
            entries: self.trace.len(),
            capacity: self.trace.capacity(),
            total_recorded: self.trace.total(),
            stream_max_per_frame: self.trace_stream_max,
        }
    }

    /// Set the trace.
    fn trace_control(&mut self, enabled: Option<bool>, clear: bool, stream_max: Option<usize>) -> (
        out: Outcome)
        requires
            old(self).wf(),
        ensures
            final(self).wf(),
            final(self)@ == old(self)@.trace_set(enabled, clear, stream_max),
            out == (Outcome {
                reply: Some(Reply::TraceStatus(final(self)@.trace_status())),
                resumed: false,
            }),
    {
        if let Some(e) = enabled {
            self.trace_enabled = e;
        }
        if clear {
            self.trace.clear();
            assert(self.trace@ =~= Seq::empty());
        }
        if let Some(m) = stream_max {
            self.trace_stream_max = if m == 0 {
                1
            } else {
                m
            };
        }
        Outcome::now(Reply::TraceStatus(self.trace_status()))
    }

    /// The trace entries that a query asks for.
    fn trace_query(&self, q: &TraceQuery, now_us: u64) -> (out: Outcome)
        requires
            self.wf(),
        ensures
            self@.querying(*q, now_us, out),
    {
        match q.filter(now_us) {
            Ok(f) => Outcome::now(Reply::Trace(select(&self.trace.iter(), f))),
            Err(e) => Outcome::bad(e),
        }
    }
}

/// Where a breakpoint goes, or what is wrong with its address.
pub open spec fn break_at(s: Core, text: Seq<char>) -> Result<usize, Seq<char>> {
    breakpoint_at(address_read(s, text))
}

fn break_address(cpu: &Cpu, text: &str) -> (phys: Result<usize, String>)
    ensures
        same_result(phys, break_at(cpu@, text@)),
{
    match parse_addr(cpu, text) {
        Ok(a) => breakpoint_phys(a),
        Err(e) => Err(e),
    }
}

impl Hub {
    /// What a request to pause comes to.
    pub open spec fn pausing(self, s: Core, id: u64, after: Hub, out: Outcome) -> bool {
        if self.paused && self.pause_hit is None {
            after == self && tells_paused(out, s)
        } else {
            &&& after == (if self.paused {
                self
            } else {
                self.paused_for(PauseReason::Request)
            }).waited(id)
            &&& out.later()
        }
    }

    /// What a request to wait for a pause comes to.
    pub open spec fn awaiting(self, s: Core, id: u64, after: Hub, out: Outcome) -> bool {
        if self.paused && self.pause_hit is None {
            after == self && tells_paused(out, s)
        } else {
            after == self.waited(id) && out.later()
        }
    }

    /// What a request to resume comes to.
    pub open spec fn resuming(self, s: Core, until: Option<String>, after: Hub, out: Outcome) -> bool {
        let runs = out == (Outcome { reply: Some(Reply::Running), resumed: self.paused });
        match until {
            None => after == self.resumed() && runs,
            Some(a) => match break_at(s, a@) {
                Ok(phys) => after == (Hub { temp_breakpoint: Some(phys), ..self }).resumed() && runs,
                Err(e) => after == self && out.failed(400, e),
            },
        }
    }

    /// What a request to step over an instruction comes to.
    pub open spec fn stepping_over(self, s: Core, id: u64, after: Hub, out: Outcome) -> bool {
        let h = match next_stop(s) {
            Some(next) => Hub { temp_breakpoint: Some(next), ..self },
            None => Hub { step_budget: Some(1), ..self },
        };
        &&& after == h.resumed().waited(id)
        &&& out.reply is None && out.resumed == self.paused
    }

    /// With the trace set.
    pub open spec fn trace_set(
        self,
        enabled: Option<bool>,
        clear: bool,
        stream_max: Option<usize>,
    ) -> Hub {
        Hub {
            trace_enabled: match enabled {
                Some(e) => e,
                None => self.trace_enabled,
            },
            trace: if clear {
                Seq::empty()
            } else {
                self.trace
            },
            trace_stream_max: match stream_max {
                Some(m) => if m == 0 {
                    1
                } else {
                    m
                },
                None => self.trace_stream_max,
            },
            ..self
        }
    }

    /// What a query of the trace comes to.
    pub open spec fn querying(self, q: TraceQuery, now_us: u64, out: Outcome) -> bool {
        match q.read(now_us) {
            Ok(f) => !out.resumed && (out.reply matches Some(Reply::Trace(found)) && found@
                == newest(wanted(self.trace, f), f.limit as int)),
            Err(e) => out.failed(400, e),
        }
    }
}

/// What events come to, or what is wrong with the first bad one.
pub open spec fn events_input(map: Keymap, events: Seq<InputEvent>) -> Result<
    Seq<LowInput>,
    Seq<char>,
>
    decreases events.len(),
{
    if events.len() == 0 {
        Ok(Seq::empty())
    } else {
        match events_input(map, events.drop_last()) {
            Err(e) => Err(e),
            Ok(before) => match event_input(map, events.last()) {
                (_, Some(e)) => Err(e),
                (low, None) => Ok(before + low),
            },
        }
    }
}

proof fn lemma_bad_event(map: Keymap, events: Seq<InputEvent>, n: int)
    requires
        0 <= n <= events.len(),
        events_input(map, events.take(n)) is Err,
    ensures
        events_input(map, events) == events_input(map, events.take(n)),
    decreases events.len(),
{
    if n < events.len() {
        assert(events.drop_last().take(n) =~= events.take(n));
        lemma_bad_event(map, events.drop_last(), n);
    } else {
        assert(events.take(n) =~= events);
    }
}

fn expand_events(map: &Keymap, events: &Vec<InputEvent>) -> (low: Result<Vec<LowInput>, String>)
    requires
        map.wf(),
    ensures
        match (low, events_input(*map, events@)) {
            (Ok(a), Ok(b)) => a@ == b,
            (Err(e), Err(m)) => e@ == m,
            _ => false,
        },
{
    let mut low: Vec<LowInput> = Vec::new();
    let mut i: usize = 0;
    assert(events@.take(0) =~= Seq::empty());
    assert(low@ =~= Seq::empty());
    while i < events.len()
        invariant
            map.wf(),
            i <= events@.len(),
            events_input(*map, events@.take(i as int)) == Ok::<Seq<LowInput>, Seq<char>>(low@),
        decreases events.len() - i,
    {
        assert(events@.take(i + 1).drop_last() =~= events@.take(i as int));
        if let Err(e) = expand_input(&events[i], map, &mut low) {
            proof {
                lemma_bad_event(*map, events@, i + 1);
            }
            return Err(e);
        }
        i = i + 1;
    }
    assert(events@.take(i as int) =~= events@);
    Ok(low)
}

impl Hub {
    /// What a request for input comes to.
    pub open spec fn typing(
        self,
        map: Keymap,
        events: Seq<InputEvent>,
        wait: bool,
        id: u64,
        after: Hub,
        out: Outcome,
    ) -> bool {
        match events_input(map, events) {
            Err(e) => after == self && out.failed(400, e),
            Ok(low) => {
                let queue = self.remote.input + low;
                if wait {
                    &&& after == (Hub {
                        remote: Remote { input: queue.push(LowInput::Notify(id)), ..self.remote },
                        ..self
                    })
                    &&& out.later()
                } else {
                    &&& after == (Hub { remote: Remote { input: queue, ..self.remote }, ..self })
                    &&& !out.resumed
                    &&& out.reply matches Some(Reply::Queued(n)) && n == queue.len()
                }
            },
        }
    }

    /// What dropping the queued input comes to.
    pub open spec fn clearing(self, after: Hub, out: Outcome) -> bool {
        &&& after == (Hub {
            remote: Remote { input: Seq::empty(), wait_until: None, ..self.remote },
            ..self
        })
        &&& !out.resumed
        &&& out.reply matches Some(Reply::Cleared(ids)) && ids@ == notified(self.remote.input)
    }
}

impl DebugHub {
    /// Queue input.
    fn input(&mut self, map: &Keymap, events: &Vec<InputEvent>, wait: bool, id: u64) -> (out: Outcome)
        requires
            old(self).wf(),
            map.wf(),
        ensures
            final(self).wf(),
            old(self)@.typing(*map, events@, wait, id, final(self)@, out),
    {
        let low = match expand_events(map, events) {
            Ok(low) => low,
            Err(e) => {
                return Outcome::bad(e);
            },
        };
        self.remote.queue(&low);
        if wait {
            self.remote.input.push(LowInput::Notify(id));
            return Outcome::later_on();
        }
        Outcome::now(Reply::Queued(self.remote.input.len()))
    }

    /// Drop the queued input.
    fn input_clear(&mut self) -> (out: Outcome)
        requires
            old(self).wf(),
        ensures
            final(self).wf(),
            old(self)@.clearing(final(self)@, out),
    {
        let ids = self.remote.clear_input();
        Outcome::now(Reply::Cleared(ids))
    }
}

/// How many bytes can be read from an address: a physical one ends with the
/// memory.
pub open spec fn readable(a: DebugAddr, s: Core, len: int) -> int {
    match (a.lin, a.phys) {
        (Some(_), _) => len,
        (None, p) => {
            let at = match p {
                Some(p) => p as int,
                None => 0,
            };
            let rest = if s.ram.len() < at {
                0
            } else {
                s.ram.len() - at
            };
            if len < rest {
                len
            } else {
                rest
            }
        },
    }
}

/// What a request to read memory comes to.
pub open spec fn reading(s: Core, addr: Seq<char>, len: int, out: Outcome) -> bool {
    match address_read(s, addr) {
        Err(e) => out.failed(400, e),
        Ok(a) => {
            &&& !out.resumed
            &&& out.reply matches Some(Reply::Bytes { addr, segoff, data }) && addr == (match (
                a.lin,
                a.phys,
            ) {
                (Some(l), _) => l as usize,
                (None, Some(p)) => p,
                (None, None) => 0,
            }) && segoff == a.segoff && data@ == Seq::new(
                readable(a, s, len) as nat,
                |i: int| a.value(s, i),
            )
        },
    }
}

fn read_mem(cpu: &Cpu, addr: &str, len: usize) -> (out: Outcome)
    ensures
        reading(cpu@, addr@, len as int, out),
{
    let a = match parse_addr(cpu, addr) {
        Ok(a) => a,
        Err(e) => {
            return Outcome::bad(e);
        },
    };
    let at: usize = match a.phys {
        Some(p) => p,
        None => 0,
    };
    let n: usize = cpu.bus.ram.len();
    assert(cpu@.ram.len() == n);
    let len: usize = if a.lin.is_some() {
        len
    } else if n < at {
        0
    } else if len < n - at {
        len
    } else {
        n - at
    };
    let data = a.read(cpu, len);
    let shown: usize = match a.lin {
        Some(l) => l as usize,
        None => at,
    };
    Outcome::now(Reply::Bytes { addr: shown, segoff: a.segoff, data })
}

/// Memory after the first bytes of some data were written at an address, as
/// the page tables were before.
pub open spec fn written(a: DebugAddr, s: Core, data: Seq<u8>) -> Seq<u8>
    decreases data.len(),
{
    if data.len() == 0 {
        s.ram
    } else {
        store_8(
            written(a, s, data.drop_last()),
            a.at(s, data.len() - 1)->0,
            data.last(),
        )
    }
}

/// Whether some of the bytes from an address on are on an unmapped page.
pub open spec fn reaches_unmapped(a: DebugAddr, s: Core, len: int) -> bool {
    exists|i: int| 0 <= i < len && (#[trigger] a.at(s, i)) is None
}

/// Whether some of the bytes from an address on are past the end of memory.
pub open spec fn reaches_end(a: DebugAddr, s: Core, len: int) -> bool {
    exists|i: int|
        0 <= i < len && (#[trigger] a.at(s, i) matches Some(p) && p >= s.ram.len())
}

/// Watches of memory, looked at again.
pub open spec fn looked_at(watches: Seq<Watch>, ram: Seq<u8>) -> Seq<Watch> {
    Seq::new(watches.len(), |i: int| Watch { value: watches[i].now(ram), ..watches[i] })
}

impl Hub {
    /// What a request to write memory comes to. The debugger's own changes
    /// don't stop the machine.
    pub open spec fn writing(
        self,
        s: Core,
        addr: Seq<char>,
        data: Seq<u8>,
        after: Hub,
        s2: Core,
        out: Outcome,
    ) -> bool {
        match address_read(s, addr) {
            Err(e) => after == self && s2 == s && out.failed(400, e),
            Ok(a) => if reaches_unmapped(a, s, data.len() as int) {
                after == self && s2 == s && out.failed(400, "write reaches an unmapped page"@)
            } else if reaches_end(a, s, data.len() as int) {
                after == self && s2 == s && out.failed(400, "write extends past end of memory"@)
            } else {
                &&& s2 == (Core { ram: written(a, s, data), ..s })
                &&& after == (Hub { watchpoints: looked_at(self.watchpoints, s2.ram), ..self })
                &&& out == (Outcome {
                    reply: Some(
                        Reply::Written {
                            addr: match a.phys {
                                Some(p) => p,
                                None => 0,
                            },
                            written: data.len() as usize,
                        },
                    ),
                    resumed: false,
                })
            },
        }
    }
}

/// Where bytes from an address on are; what is wrong with them otherwise.
fn targets_of(cpu: &Cpu, a: &DebugAddr, len: usize) -> (targets: Result<Vec<usize>, &'static str>)
    ensures
        match targets {
            Ok(t) => {
                &&& t@.len() == len
                &&& forall|i: int| 0 <= i < len ==> a.at(cpu@, i) == Some(#[trigger] t@[i] as int)
                &&& !reaches_unmapped(*a, cpu@, len as int)
                &&& !reaches_end(*a, cpu@, len as int)
            },
            Err(m) => if reaches_unmapped(*a, cpu@, len as int) {
                m@ == "write reaches an unmapped page"@
            } else {
                reaches_end(*a, cpu@, len as int) && m@ == "write extends past end of memory"@
            },
        },
{
    let n: usize = cpu.bus.ram.len();
    assert(cpu@.ram.len() == n);
    let mut targets: Vec<usize> = Vec::new();
    let mut past = false;
    let mut i: usize = 0;
    while i < len
        invariant
            i <= len,
            n == cpu@.ram.len(),
            targets@.len() == i,
            forall|j: int| 0 <= j < i ==> (#[trigger] a.at(cpu@, j)) is Some,
            past == exists|j: int|
                0 <= j < i && (#[trigger] a.at(cpu@, j) matches Some(p) && p >= cpu@.ram.len()),
            !past ==> forall|j: int|
                0 <= j < i ==> a.at(cpu@, j) == Some(#[trigger] targets@[j] as int),
        decreases len - i,
    {
        let slot = a.byte_slot(cpu, i);
        match slot {
            Some(p) => {
                assert(a.at(cpu@, i as int) == Some(p as int));
                if p >= n {
                    past = true;
                }
                targets.push(p);
            },
            None => {
                if a.lin.is_none() && a.phys.is_some() {
                    // Past what the machine could have.
                    assert(a.at(cpu@, i as int) matches Some(p) && p >= cpu@.ram.len());
                    past = true;
                    targets.push(0);
                } else {
                    assert(a.at(cpu@, i as int) is None);
                    return Err("write reaches an unmapped page");
                }
            },
        }
        i = i + 1;
    }
    if past {
        return Err("write extends past end of memory");
    }
    Ok(targets)
}

impl DebugHub {
    /// Look at the watched memory again, as it is now.
    fn look_again(&mut self, cpu: &Cpu)
        requires
            old(self).wf(),
        ensures
            final(self).wf(),
            final(self)@ == (Hub {
                watchpoints: looked_at(old(self)@.watchpoints, cpu@.ram),
                ..old(self)@
            }),
    {
        let ghost before = self.watchpoints@;
        let mut i: usize = 0;
        while i < self.watchpoints.len()
            invariant
                self.wf(),
                before == old(self)@.watchpoints,
                i <= before.len() == self.watchpoints@.len(),
                forall|j: int|
                    0 <= j < before.len() ==> #[trigger] self.watchpoints@[j] == (if j < i {
                        looked_at(before, cpu@.ram)[j]
                    } else {
                        before[j]
                    }),
                self@ == (Hub { watchpoints: self.watchpoints@, ..old(self)@ }),
            decreases self.watchpoints.len() - i,
        {
            let w = self.watchpoints[i];
            let value: u32 = Watch::read(cpu, w.phys, w.len);
            self.watchpoints[i] = Watch { phys: w.phys, len: w.len, value };
            i = i + 1;
        }
        assert(self.watchpoints@ =~= looked_at(before, cpu@.ram));
    }

    /// Write memory.
    fn write_mem(&mut self, cpu: &mut Cpu, addr: &str, data: &Vec<u8>) -> (out: Outcome)
        requires
            old(self).wf(),
        ensures
            final(self).wf(),
            old(self)@.writing(old(cpu)@, addr@, data@, final(self)@, final(cpu)@, out),
    {
        let a = match parse_addr(cpu, addr) {
            Ok(a) => a,
            Err(e) => {
                return Outcome::bad(e);
            },
        };
        let targets = match targets_of(cpu, &a, data.len()) {
            Ok(t) => t,
            Err(m) => {
                return Outcome::bad(String::from_str(m));
            },
        };
        let mut i: usize = 0;
        assert(data@.take(0) =~= Seq::empty());
        while i < data.len()
            invariant
                i <= data@.len() == targets@.len(),
                forall|j: int|
                    0 <= j < data@.len() ==> a.at(old(cpu)@, j) == Some(
                        #[trigger] targets@[j] as int,
                    ),
                cpu@ == (Core { ram: written(a, old(cpu)@, data@.take(i as int)), ..old(cpu)@ }),
            decreases data.len() - i,
        {
            assert(data@.take(i + 1).drop_last() =~= data@.take(i as int));
            assert(a.at(old(cpu)@, i as int) == Some(targets@[i as int] as int));
            cpu.bus.write_8(targets[i], data[i]);
            i = i + 1;
        }
        assert(data@.take(i as int) =~= data@);
        self.look_again(cpu);
        let at: usize = match a.phys {
            Some(p) => p,
            None => 0,
        };
        Outcome::now(Reply::Written { addr: at, written: data.len() })
    }
}

/// The vectors whose bits are set in a mask, below a number.
pub open spec fn vectors_in(mask: u32, n: int) -> Seq<u8>
    decreases n,
{
    if n <= 0 {
        Seq::empty()
    } else if mask & (1u32 << ((n - 1) as u32)) != 0 {
        vectors_in(mask, n - 1).push((n - 1) as u8)
    } else {
        vectors_in(mask, n - 1)
    }
}

fn list_vectors(mask: u32) -> (vectors: Vec<u8>)
    ensures
        vectors@ == vectors_in(mask, 32),
{
    let mut vectors: Vec<u8> = Vec::new();
    let mut i: u32 = 0;
    assert(vectors@ =~= vectors_in(mask, 0));
    while i < 32
        invariant
            i <= 32,
            vectors@ == vectors_in(mask, i as int),
        decreases 32 - i,
    {
        if mask & (1u32 << i) != 0 {
            vectors.push(i as u8);
        }
        i = i + 1;
    }
    vectors
}

impl Hub {
    /// Whether an answer lists what the machine pauses at.
    pub open spec fn lists_breakpoints(self, out: Outcome) -> bool {
        &&& !out.resumed
        &&& out.reply matches Some(Reply::Breakpoints(list)) && {
            &&& ascending(list.addresses@)
            &&& list.addresses@.to_set() == self.breakpoints
            &&& list.exceptions@ == vectors_in(self.break_exceptions, 32)
            &&& list.mode_switch == self.break_mode_switch
        }
    }

    /// What a request for a breakpoint comes to.
    pub open spec fn adding_breakpoint(self, s: Core, addr: Seq<char>, after: Hub, out: Outcome) -> bool {
        match break_at(s, addr) {
            Err(e) => after == self && out.failed(400, e),
            Ok(phys) => after == (Hub { breakpoints: self.breakpoints.insert(phys), ..self })
                && after.lists_breakpoints(out),
        }
    }

    /// What taking a breakpoint away comes to, or everything that the machine
    /// pauses at.
    pub open spec fn removing_breakpoint(
        self,
        s: Core,
        addr: Option<String>,
        after: Hub,
        out: Outcome,
    ) -> bool {
        match addr {
            None => after == (Hub {
                breakpoints: Set::empty(),
                break_exceptions: 0,
                break_mode_switch: false,
                ..self
            }) && after.lists_breakpoints(out),
            Some(a) => match break_at(s, a@) {
                Err(e) => after == self && out.failed(400, e),
                Ok(phys) => if self.breakpoints.contains(phys) {
                    after == (Hub { breakpoints: self.breakpoints.remove(phys), ..self })
                        && after.lists_breakpoints(out)
                } else {
                    after == self && out.failed(
                        404,
                        "no breakpoint at "@ + hex_text(phys as nat, 5),
                    )
                },
            },
        }
    }

    /// With other exceptions and mode switches to pause after; those before
    /// now don't count.
    pub open spec fn breaking_on(
        self,
        s: Core,
        exceptions: Option<u32>,
        clear_exceptions: Option<u32>,
        mode_switch: Option<bool>,
    ) -> Hub {
        let set = match exceptions {
            Some(mask) => self.break_exceptions | mask,
            None => self.break_exceptions,
        };
        Hub {
            break_exceptions: match clear_exceptions {
                Some(mask) => set & !mask,
                None => set,
            },
            break_mode_switch: match mode_switch {
                Some(m) => m,
                None => self.break_mode_switch,
            },
            seen_exceptions: s.rest.exceptions,
            seen_mode_switches: s.rest.mode_switches,
            ..self
        }
    }
}

impl DebugHub {
    /// List what the machine pauses at.
    fn list_breakpoints(&self) -> (out: Outcome)
        requires
            self.wf(),
        ensures
            self@.lists_breakpoints(out),
    {
        let addresses = vstd::slice::slice_to_vec(self.breakpoints.as_slice());
        assert(addresses@ =~= self.breakpoints@);
        Outcome::now(
            Reply::Breakpoints(
                BreakpointList {
                    addresses,
                    exceptions: list_vectors(self.break_exceptions),
                    mode_switch: self.break_mode_switch,
                },
            ),
        )
    }

    /// Put a breakpoint in its place among the others.
    fn insert_breakpoint(&mut self, phys: usize)
        requires
            old(self).wf(),
        ensures
            final(self).wf(),
            final(self)@ == (Hub {
                breakpoints: old(self)@.breakpoints.insert(phys),
                ..old(self)@
            }),
    {
        let ghost before = self.breakpoints@;
        let mut i: usize = 0;
        while i < self.breakpoints.len() && self.breakpoints[i] < phys
            invariant
                i <= self.breakpoints@.len(),
                self.breakpoints@ == before,
                *self == *old(self),
                forall|j: int| 0 <= j < i ==> before[j] < phys,
            decreases self.breakpoints.len() - i,
        {
            i = i + 1;
        }
        if i < self.breakpoints.len() && self.breakpoints[i] == phys {
            assert(before.contains(before[i as int]));
            assert(self@.breakpoints =~= old(self)@.breakpoints.insert(phys));
            return;
        }
        self.breakpoints.insert(i, phys);
        proof {
            let after = self.breakpoints@;
            assert forall|a: usize| #[trigger] after.to_set().contains(a) <==> before.to_set().insert(
                phys,
            ).contains(a) by {
                if after.contains(a) && a != phys {
                    let k = choose|k: int| 0 <= k < after.len() && after[k] == a;
                    assert(before[if k < i {
                        k
                    } else {
                        k - 1
                    }] == a);
                }
                if before.contains(a) {
                    let k = choose|k: int| 0 <= k < before.len() && before[k] == a;
                    assert(after[if k < i {
                        k
                    } else {
                        k + 1
                    }] == a);
                }
                assert(after[i as int] == phys);
            }
            assert(after.to_set() =~= before.to_set().insert(phys));
            assert(ascending(after)) by {
                assert forall|x: int, y: int| 0 <= x < y < after.len() implies after[x] < after[y] by {
                    if x == i {
                        assert(after[y] == before[y - 1]);
                        assert(before[i as int] <= before[y - 1]);
                    } else if y == i {
                    } else {
                        assert(after[x] == before[if x < i {
                            x
                        } else {
                            x - 1
                        }]);
                        assert(after[y] == before[if y < i {
                            y
                        } else {
                            y - 1
                        }]);
                    }
                }
            }
        }
    }

    /// Take a breakpoint away; false if there is none.
    fn drop_breakpoint(&mut self, phys: usize) -> (done: bool)
        requires
            old(self).wf(),
        ensures
            final(self).wf(),
            done == old(self)@.breakpoints.contains(phys),
            final(self)@ == (if done {
                Hub { breakpoints: old(self)@.breakpoints.remove(phys), ..old(self)@ }
            } else {
                old(self)@
            }),
    {
        let ghost before = self.breakpoints@;
        let mut i: usize = 0;
        while i < self.breakpoints.len()
            invariant
                i <= self.breakpoints@.len(),
                self.breakpoints@ == before,
                old(self).wf(),
                *self == *old(self),
                forall|j: int| 0 <= j < i ==> before[j] != phys,
            decreases self.breakpoints.len() - i,
        {
            if self.breakpoints[i] == phys {
                assert(before.contains(before[i as int]));
                let _ = self.breakpoints.remove(i);
                proof {
                    let after = self.breakpoints@;
                    assert forall|a: usize|
                        #[trigger] after.to_set().contains(a) <==> before.to_set().remove(
                            phys,
                        ).contains(a) by {
                        if after.contains(a) {
                            let k = choose|k: int| 0 <= k < after.len() && after[k] == a;
                            let k0 = if k < i {
                                k
                            } else {
                                k + 1
                            };
                            assert(before[k0] == a);
                        }
                        if before.contains(a) && a != phys {
                            let k = choose|k: int| 0 <= k < before.len() && before[k] == a;
                            assert(after[if k < i {
                                k
                            } else {
                                k - 1
                            }] == a);
                        }
                    }
                    assert(after.to_set() =~= before.to_set().remove(phys));
                    assert forall|x: int, y: int| 0 <= x < y < after.len() implies after[x]
                        < after[y] by {
                        assert(after[x] == before[if x < i {
                            x
                        } else {
                            x + 1
                        }]);
                        assert(after[y] == before[if y < i {
                            y
                        } else {
                            y + 1
                        }]);
                    }
                }
                return true;
            }
            i = i + 1;
        }
        false
    }

    /// Add a breakpoint.
    fn add_breakpoint(&mut self, cpu: &Cpu, addr: &str) -> (out: Outcome)
        requires
            old(self).wf(),
        ensures
            final(self).wf(),
            old(self)@.adding_breakpoint(cpu@, addr@, final(self)@, out),
    {
        match break_address(cpu, addr) {
            Ok(phys) => {
                self.insert_breakpoint(phys);
                self.list_breakpoints()
            },
            Err(e) => Outcome::bad(e),
        }
    }

    /// Take a breakpoint away, or everything that the machine pauses at.
    fn remove_breakpoint(&mut self, cpu: &Cpu, addr: &Option<String>) -> (out: Outcome)
        requires
            old(self).wf(),
        ensures
            final(self).wf(),
            old(self)@.removing_breakpoint(cpu@, *addr, final(self)@, out),
    {
        match addr {
            None => {
                self.breakpoints.clear();
                self.break_exceptions = 0;
                self.break_mode_switch = false;
                assert(self.breakpoints@.to_set() =~= Set::empty());
                self.list_breakpoints()
            },
            Some(a) => match break_address(cpu, a.as_str()) {
                Ok(phys) => {
                    if self.drop_breakpoint(phys) {
                        self.list_breakpoints()
                    } else {
                        let mut message = String::from_str("no breakpoint at ");
                        push_hex(&mut message, phys as u64, 5);
                        Outcome { reply: Some(Reply::Error(404, message)), resumed: false }
                    }
                },
                Err(e) => Outcome::bad(e),
            },
        }
    }

    /// Set the exceptions and mode switches to pause after.
    fn break_on(
        &mut self,
        cpu: &Cpu,
        exceptions: Option<u32>,
        clear_exceptions: Option<u32>,
        mode_switch: Option<bool>,
    ) -> (out: Outcome)
        requires
            old(self).wf(),
        ensures
            final(self).wf(),
            final(self)@ == old(self)@.breaking_on(
                cpu@,
                exceptions,
                clear_exceptions,
                mode_switch,
            ),
            final(self)@.lists_breakpoints(out),
    {
        if let Some(mask) = exceptions {
            self.break_exceptions = self.break_exceptions | mask;
        }
        if let Some(mask) = clear_exceptions {
            self.break_exceptions = self.break_exceptions & !mask;
        }
        if let Some(m) = mode_switch {
            self.break_mode_switch = m;
        }
        self.seen_exceptions = cpu.exceptions;
        self.seen_mode_switches = cpu.mode_switches;
        self.list_breakpoints()
    }
}

/// Watches but those at an address.
pub open spec fn without(watches: Seq<Watch>, phys: usize) -> Seq<Watch>
    decreases watches.len(),
{
    if watches.len() == 0 {
        Seq::empty()
    } else if watches.last().phys == phys {
        without(watches.drop_last(), phys)
    } else {
        without(watches.drop_last(), phys).push(watches.last())
    }
}

proof fn lemma_without_shrinks(watches: Seq<Watch>, phys: usize)
    ensures
        without(watches, phys).len() <= watches.len(),
        without(watches, phys).len() == watches.len() ==> without(watches, phys) == watches,
        forall|i: int|
            0 <= i < without(watches, phys).len() ==> watches.contains(
                #[trigger] without(watches, phys)[i],
            ),
    decreases watches.len(),
{
    if watches.len() > 0 {
        let less = watches.drop_last();
        lemma_without_shrinks(less, phys);
        assert(less.push(watches.last()) =~= watches);
        let some = without(watches, phys);
        assert forall|i: int| 0 <= i < some.len() implies watches.contains(#[trigger] some[i]) by {
            if i < without(less, phys).len() {
                assert(less.contains(without(less, phys)[i]));
                let k = choose|k: int| 0 <= k < less.len() && less[k] == without(less, phys)[i];
                assert(watches[k] == some[i]);
            } else {
                assert(watches[watches.len() - 1] == some[i]);
            }
        }
    }
}

impl Hub {
    /// Whether an answer lists what is watched, with what it holds now.
    pub open spec fn lists_watches(self, s: Core, out: Outcome) -> bool {
        &&& !out.resumed
        &&& out.reply matches Some(Reply::Watchpoints(list)) && list@ == looked_at(
            self.watchpoints,
            s.ram,
        )
    }

    /// What a request to watch memory comes to.
    pub open spec fn adding_watch(self, s: Core, addr: Seq<char>, len: u8, after: Hub, out: Outcome) -> bool {
        if len != 1 && len != 2 && len != 4 {
            after == self && out.failed(400, "len is 1, 2 or 4"@)
        } else {
            match break_at(s, addr) {
                Err(e) => after == self && out.failed(400, e),
                Ok(phys) => {
                    let w = Watch { phys, len, value: 0 };
                    &&& after == (Hub {
                        watchpoints: without(self.watchpoints, phys).push(
                            Watch { value: w.now(s.ram), ..w },
                        ),
                        ..self
                    })
                    &&& after.lists_watches(s, out)
                },
            }
        }
    }

    /// What a request to watch memory no more comes to.
    pub open spec fn removing_watch(
        self,
        s: Core,
        addr: Option<String>,
        after: Hub,
        out: Outcome,
    ) -> bool {
        match addr {
            None => after == (Hub { watchpoints: Seq::empty(), ..self }) && after.lists_watches(
                s,
                out,
            ),
            Some(a) => match break_at(s, a@) {
                Err(e) => after == self && out.failed(400, e),
                Ok(phys) => {
                    let left = without(self.watchpoints, phys);
                    if left.len() < self.watchpoints.len() {
                        after == (Hub { watchpoints: left, ..self }) && after.lists_watches(s, out)
                    } else {
                        after == self && out.failed(
                            404,
                            "no watchpoint at "@ + hex_text(phys as nat, 5),
                        )
                    }
                },
            },
        }
    }
}

impl DebugHub {
    /// List what is watched.
    fn list_watchpoints(&self, cpu: &Cpu) -> (out: Outcome)
        requires
            self.wf(),
        ensures
            self@.lists_watches(cpu@, out),
    {
        let mut list: Vec<Watch> = Vec::new();
        let mut i: usize = 0;
        while i < self.watchpoints.len()
            invariant
                self.wf(),
                i <= self.watchpoints@.len(),
                list@.len() == i,
                forall|j: int|
                    0 <= j < i ==> #[trigger] list@[j] == looked_at(
                        self@.watchpoints,
                        cpu@.ram,
                    )[j],
            decreases self.watchpoints.len() - i,
        {
            let w = self.watchpoints[i];
            let value: u32 = Watch::read(cpu, w.phys, w.len);
            list.push(Watch { phys: w.phys, len: w.len, value });
            i = i + 1;
        }
        assert(list@ =~= looked_at(self@.watchpoints, cpu@.ram));
        Outcome::now(Reply::Watchpoints(list))
    }

    /// Watch an address no more.
    fn drop_watches(&mut self, phys: usize)
        requires
            old(self).wf(),
        ensures
            final(self).wf(),
            final(self)@ == (Hub {
                watchpoints: without(old(self)@.watchpoints, phys),
                ..old(self)@
            }),
    {
        let ghost before = self.watchpoints@;
        let mut left: Vec<Watch> = Vec::new();
        let mut i: usize = 0;
        assert(left@ =~= without(before.take(0), phys));
        while i < self.watchpoints.len()
            invariant
                i <= self.watchpoints@.len(),
                before == self.watchpoints@,
                *self == *old(self),
                left@ == without(before.take(i as int), phys),
            decreases self.watchpoints.len() - i,
        {
            assert(before.take(i + 1).drop_last() =~= before.take(i as int));
            if self.watchpoints[i].phys != phys {
                left.push(self.watchpoints[i]);
            }
            i = i + 1;
        }
        assert(before.take(i as int) =~= before);
        self.watchpoints = left;
        proof {
            lemma_without_shrinks(before, phys);
            assert forall|k: int| 0 <= k < self.watchpoints@.len() implies (
            #[trigger] self.watchpoints@[k]).len <= 4 by {
                assert(before.contains(self.watchpoints@[k]));
            }
        }
    }

    /// Watch memory.
    fn add_watchpoint(&mut self, cpu: &Cpu, addr: &str, len: u8) -> (out: Outcome)
        requires
            old(self).wf(),
        ensures
            final(self).wf(),
            old(self)@.adding_watch(cpu@, addr@, len, final(self)@, out),
    {
        if len != 1 && len != 2 && len != 4 {
            return Outcome::bad(String::from_str("len is 1, 2 or 4"));
        }
        match break_address(cpu, addr) {
            Ok(phys) => {
                self.drop_watches(phys);
                let value: u32 = Watch::read(cpu, phys, len);
                self.watchpoints.push(Watch { phys, len, value });
                self.list_watchpoints(cpu)
            },
            Err(e) => Outcome::bad(e),
        }
    }

    /// Watch memory no more.
    fn remove_watchpoint(&mut self, cpu: &Cpu, addr: &Option<String>) -> (out: Outcome)
        requires
            old(self).wf(),
        ensures
            final(self).wf(),
            old(self)@.removing_watch(cpu@, *addr, final(self)@, out),
    {
        match addr {
            None => {
                self.watchpoints.clear();
                assert(self.watchpoints@ =~= Seq::empty());
                self.list_watchpoints(cpu)
            },
            Some(a) => match break_address(cpu, a.as_str()) {
                Ok(phys) => {
                    let before: usize = self.watchpoints.len();
                    self.drop_watches(phys);
                    proof {
                        lemma_without_shrinks(old(self)@.watchpoints, phys);
                    }
                    if self.watchpoints.len() < before {
                        self.list_watchpoints(cpu)
                    } else {
                        let mut message = String::from_str("no watchpoint at ");
                        push_hex(&mut message, phys as u64, 5);
                        Outcome { reply: Some(Reply::Error(404, message)), resumed: false }
                    }
                },
                Err(e) => Outcome::bad(e),
            },
        }
    }
}

/// What a drive shows of the host: a directory, or the image of a number.
#[derive(Debug)]
pub enum Shows {
    Directory(String),
    Image(u64),
}

/// Whether a drive shows that: nothing if there is none, or its files are
/// held in memory.
pub open spec fn shows(got: Option<Shows>, drive: Option<Drive>) -> bool {
    match drive {
        None => got is None,
        Some(d) => match d.storage {
            Storage::Host(root) => got matches Some(Shows::Directory(r)) && r@ == root@,
            Storage::Tree { image: None, .. } => got is None,
            Storage::Tree { image: Some(n), .. } => got == Some(Shows::Image(n)),
            Storage::Volume(n) => got == Some(Shows::Image(n)),
        },
    }
}

fn shown_by_c(disk: &DiskController) -> (got: Option<Shows>)
    requires
        disk.wf(),
    ensures
        shows(got, disk.at(DRIVE_C)),
{
    match disk.drive_info(DRIVE_C) {
        None => None,
        Some(info) => match info.root {
            Some(root) => Some(Shows::Directory(root)),
            None => match info.image {
                Some(n) => Some(Shows::Image(n)),
                None => None,
            },
        },
    }
}

/// CS and EIP as the status shows them.
pub open spec fn cs_ip_text(s: Core) -> Seq<char> {
    hex_text(s.cache(Seg::CS).selector as nat, 4) + ":"@ + (if s.eip > 0xFFFF {
        hex_text(s.eip as nat, 8)
    } else {
        hex_text((s.eip as u16) as nat, 4)
    })
}

impl StatusInfo {
    /// Whether the status tells of a hub, a machine and its drives.
    pub open spec fn tells(&self, h: Hub, s: Core, disk: DiskController) -> bool {
        &&& self.paused == h.paused
        &&& self.settings_window == h.remote.divert
        &&& self.icount == s.rest.executed
        &&& self.cs_ip@ == cs_ip_text(s)
        &&& self.cpu_mode@ == mode_text(s)
        &&& self.cpu_state == s.rest.state
        &&& self.shell_idle == s.at_prompt()
        &&& self.process_depth == s.rest.process_stack.len()
        &&& self.current_psp == s.rest.dos.current_psp
        &&& shows(self.drive_c, disk.at(DRIVE_C))
        &&& self.current_drive == letter_of(disk.current_drive)
        &&& self.trace == h.trace_status()
        &&& self.breakpoints == h.breakpoints.len()
        &&& self.watchpoints == h.watchpoints.len()
        &&& self.input_queue == h.remote.input.len()
    }
}

impl DebugHub {
    /// How the machine and the hub are.
    pub fn status(&self, cpu: &Cpu, disk: &DiskController) -> (status: StatusInfo)
        requires
            self.wf(),
            disk.wf(),
        ensures
            status.tells(self@, cpu@, *disk),
    {
        let mut cs_ip = hex_string(cpu.cs() as u64, 4);
        cs_ip.append(":");
        if cpu.eip() > 0xFFFF {
            push_hex(&mut cs_ip, cpu.eip() as u64, 8);
        } else {
            push_hex(&mut cs_ip, cpu.ip() as u64, 4);
        }
        proof {
            assert(self.breakpoints@.no_duplicates()) by {
                assert forall|i: int, j: int|
                    0 <= i < self.breakpoints@.len() && 0 <= j < self.breakpoints@.len() && i
                        != j implies self.breakpoints@[i] != self.breakpoints@[j] by {
                    if i < j {
                        assert(self.breakpoints@[i] < self.breakpoints@[j]);
                    } else {
                        assert(self.breakpoints@[j] < self.breakpoints@[i]);
                    }
                }
            }
            self.breakpoints@.unique_seq_to_set();
        }
        StatusInfo {
            paused: self.paused,
            settings_window: self.remote.divert,
            icount: cpu.executed,
            cs_ip,
            cpu_mode: mode_name(cpu),
            cpu_state: cpu.state,
            shell_idle: cpu.shell_idle(),
            process_depth: cpu.process_stack.len(),
            current_psp: cpu.dos.current_psp,
            drive_c: shown_by_c(disk),
            current_drive: drive_letter(disk.current_drive),
            trace: self.trace_status(),
            breakpoints: self.breakpoints.len(),
            watchpoints: self.watchpoints.len(),
            input_queue: self.remote.input.len(),
        }
    }
}

/// The address that a listing starts at, when none is given.
pub open spec fn listed_address(addr: Option<String>) -> Seq<char> {
    match addr {
        Some(a) => a@,
        None => "CS:EIP"@,
    }
}

impl Hub {
    /// What a request to disassemble comes to.
    pub open spec fn disassembling(self, s: Core, addr: Option<String>, count: usize, out: Outcome) -> bool {
        match address_read(s, listed_address(addr)) {
            Err(e) => out.failed(400, e),
            Ok(a) => {
                &&& !out.resumed
                &&& out.reply matches Some(Reply::Disassembly(rows)) && {
                    &&& rows@.len() == (if count < LISTING_LIMIT {
                        count
                    } else {
                        LISTING_LIMIT
                    })
                    &&& forall|k: int|
                        0 <= k < rows@.len() ==> (#[trigger] rows@[k]).tells(
                            s,
                            self.breakpoints,
                            a,
                            a.line_at(s, k),
                        )
                }
            },
        }
    }

    /// What a request to save or load a state comes to.
    pub open spec fn asking_state(
        self,
        load: bool,
        path: Seq<char>,
        id: u64,
        after: Hub,
        out: Outcome,
    ) -> bool {
        if path.len() == 0 {
            after == self && out.failed(400, "a path is needed"@)
        } else {
            &&& after == (Hub { state_requests: self.state_requests.push((load, path, id)), ..self })
            &&& out.later()
        }
    }
}

impl DebugHub {
    /// Disassemble from an address.
    fn disasm(&self, cpu: &Cpu, addr: &Option<String>, count: usize) -> (out: Outcome)
        requires
            self.wf(),
        ensures
            self@.disassembling(cpu@, *addr, count, out),
    {
        let text = match addr {
            Some(a) => a.as_str(),
            None => "CS:EIP",
        };
        match parse_addr(cpu, text) {
            Ok(a) => {
                assert(a.lin is None ==> (a.phys matches Some(p) ==> p <= 0xFFFF_FFFF));
                Outcome::now(Reply::Disassembly(listing(cpu, &self.breakpoints, &a, count)))
            },
            Err(e) => Outcome::bad(e),
        }
    }

    /// Ask the front end to save or load a state.
    fn ask_state(&mut self, load: bool, path: String, id: u64) -> (out: Outcome)
        requires
            old(self).wf(),
        ensures
            final(self).wf(),
            old(self)@.asking_state(load, path@, id, final(self)@, out),
    {
        if path.as_str().unicode_len() == 0 {
            return Outcome::bad(String::from_str("a path is needed"));
        }
        let ghost before = self.state_requests@;
        let ghost asked = (load, path@, id);
        self.state_requests.push(StateRequest { load, path, id });
        assert(requested(self.state_requests@) =~= requested(before).push(asked));
        Outcome::later_on()
    }

    /// Restart the shell in place of the running program.
    fn reboot_shell(&mut self, cpu: &mut Cpu) -> (out: Outcome)
        requires
            old(self).wf(),
        ensures
            final(self).wf(),
            final(self)@ == old(self)@.resumed(),
            final(cpu)@ == restarted(old(cpu)@),
            out == (Outcome { reply: Some(Reply::Done), resumed: false }),
    {
        cpu.state = CpuState::RebootShell;
        self.resume();
        Outcome::now(Reply::Done)
    }
}

/// A machine whose shell restarts.
pub open spec fn restarted(s: Core) -> Core {
    Core { rest: Rest { state: CpuState::RebootShell, ..s.rest }, ..s }
}

/// What a request to set registers comes to.
pub open spec fn setting_registers(
    s: Core,
    entries: Seq<(String, RegValue)>,
    s2: Core,
    out: Outcome,
) -> bool {
    match entry_updates(entries) {
        Err(e) => s2 == s && out.failed(400, e),
        Ok(updates) => s2 == updated(s, updates) && tells_registers(out, s2),
    }
}

/// Whether an answer lists the registers.
pub open spec fn tells_registers(out: Outcome, s: Core) -> bool {
    &&& !out.resumed
    &&& out.reply matches Some(Reply::Registers(pairs)) && shown_pairs(pairs@) == register_list(s)
}

/// What a request for a page walk comes to.
pub open spec fn walking(s: Core, addr: Seq<char>, out: Outcome) -> bool {
    match address_read(s, addr) {
        Err(e) => out.failed(400, e),
        Ok(a) => {
            let lin = match (a.lin, a.phys) {
                (Some(l), _) => l,
                (None, Some(p)) => p as u32,
                (None, None) => 0,
            };
            !out.resumed && (out.reply matches Some(Reply::Walk(walk)) && walk_tells(walk, s, lin))
        },
    }
}

fn page_walk(cpu: &Cpu, addr: &str) -> (out: Outcome)
    ensures
        walking(cpu@, addr@, out),
{
    match parse_addr(cpu, addr) {
        Ok(a) => {
            let lin: u32 = match a.lin {
                Some(l) => l,
                None => match a.phys {
                    Some(p) => p as u32,
                    None => 0,
                },
            };
            Outcome::now(Reply::Walk(pagewalk_info(cpu, lin)))
        },
        Err(e) => Outcome::bad(e),
    }
}

fn put_registers(cpu: &mut Cpu, entries: &Vec<(String, RegValue)>) -> (out: Outcome)
    ensures
        setting_registers(old(cpu)@, entries@, final(cpu)@, out),
{
    match set_regs(cpu, entries) {
        Ok(_) => Outcome::now(Reply::Registers(registers(cpu))),
        Err(e) => Outcome::bad(e),
    }
}

/// What a request comes to: the hub and the machine after it, and what it is
/// answered.
pub open spec fn served(
    h: Hub,
    s: Core,
    disk: DiskController,
    map: Keymap,
    now_us: u64,
    cmd: Cmd,
    id: u64,
    h2: Hub,
    s2: Core,
    out: Outcome,
) -> bool {
    let only_answers = h2 == h && s2 == s && !out.resumed;
    match cmd {
        Cmd::Status => only_answers && (out.reply matches Some(Reply::Status(status))
            && status.tells(h, s, disk)),
        Cmd::Screenshot => h2 == (Hub { frame_waiters: h.frame_waiters.push(id), ..h }) && s2 == s
            && out.later(),
        Cmd::TraceQuery(q) => only_answers && h.querying(q, now_us, out),
        Cmd::TraceControl { enabled, clear, stream_max } => {
            &&& h2 == h.trace_set(enabled, clear, stream_max)
            &&& s2 == s
            &&& out == (Outcome {
                reply: Some(Reply::TraceStatus(h2.trace_status())),
                resumed: false,
            })
        },
        Cmd::Input { events, wait } => s2 == s && h.typing(map, events@, wait, id, h2, out),
        Cmd::InputClear => s2 == s && h.clearing(h2, out),
        Cmd::Pause => s2 == s && h.pausing(s, id, h2, out),
        Cmd::Resume { until } => s2 == s && h.resuming(s, until, h2, out),
        Cmd::Step { count } => {
            &&& h2 == (Hub {
                step_budget: Some(
                    if count == 0 {
                        1
                    } else {
                        count
                    },
                ),
                ..h
            }).resumed().waited(id)
            &&& s2 == s
            &&& out.later()
        },
        Cmd::StepOver => s2 == s && h.stepping_over(s, id, h2, out),
        Cmd::WaitPause => s2 == s && h.awaiting(s, id, h2, out),
        Cmd::RebootShell => {
            &&& h2 == h.resumed()
            &&& s2 == restarted(s)
            &&& out == (Outcome { reply: Some(Reply::Done), resumed: false })
        },
        Cmd::GetRegs => only_answers && tells_registers(out, s),
        Cmd::SetRegs(entries) => h2 == h && setting_registers(s, entries@, s2, out),
        Cmd::ReadMem { addr, len } => only_answers && reading(s, addr@, len as int, out),
        Cmd::WriteMem { addr, data } => h.writing(s, addr@, data@, h2, s2, out),
        Cmd::Disasm { addr, count } => only_answers && h.disassembling(s, addr, count, out),
        Cmd::ListBreakpoints => only_answers && h.lists_breakpoints(out),
        Cmd::AddBreakpoint(addr) => s2 == s && h.adding_breakpoint(s, addr@, h2, out),
        Cmd::RemoveBreakpoint(addr) => s2 == s && h.removing_breakpoint(s, addr, h2, out),
        Cmd::ListWatchpoints => only_answers && h.lists_watches(s, out),
        Cmd::AddWatchpoint { addr, len } => s2 == s && h.adding_watch(s, addr@, len, h2, out),
        Cmd::RemoveWatchpoint(addr) => s2 == s && h.removing_watch(s, addr, h2, out),
        Cmd::BreakOn { exceptions, clear_exceptions, mode_switch } => {
            &&& h2 == h.breaking_on(s, exceptions, clear_exceptions, mode_switch)
            &&& s2 == s
            &&& h2.lists_breakpoints(out)
        },
        Cmd::Ivt => only_answers && (out.reply matches Some(Reply::Ivt(table)) && table@
            == Seq::new(256, |v: int| vector_of(s, v))),
        Cmd::Gdt => only_answers && (out.reply matches Some(Reply::Table(info)) && table_tells(
            info,
            s,
            false,
            1024,
        )),
        Cmd::Ldt => only_answers && (out.reply matches Some(Reply::Table(info)) && table_tells(
            info,
            s,
            true,
            1024,
        )),
        Cmd::Idt => only_answers && (out.reply matches Some(Reply::Gates(gates)) && gates_tell(
            gates@,
            gates_below(s, 256),
        )),
        Cmd::Tss => only_answers && (out.reply matches Some(Reply::Tss(info)) && tss_tells(
            info,
            s,
        )),
        Cmd::PageWalk(addr) => only_answers && walking(s, addr@, out),
        Cmd::Exceptions => only_answers && (out.reply matches Some(Reply::Exceptions(infos))
            && exceptions_tell(infos@, s.rest.exception_log)),
        Cmd::SaveState { path } => s2 == s && h.asking_state(false, path@, id, h2, out),
        Cmd::LoadState { path } => s2 == s && h.asking_state(true, path@, id, h2, out),
    }
}

impl DebugHub {
    /// Serve a request with a number: what waits to be answered is known by
    /// it. Keys are named as in `map`, and `now_us` is the time since the
    /// start, as the trace has it.
    pub fn handle(
        &mut self,
        cpu: &mut Cpu,
        disk: &DiskController,
        map: &Keymap,
        now_us: u64,
        cmd: Cmd,
        id: u64,
    ) -> (out: Outcome)
        requires
            old(self).wf(),
            disk.wf(),
            map.wf(),
        ensures
            final(self).wf(),
            served(
                old(self)@,
                old(cpu)@,
                *disk,
                *map,
                now_us,
                cmd,
                id,
                final(self)@,
                final(cpu)@,
                out,
            ),
    {
        match cmd {
            Cmd::Status => Outcome::now(Reply::Status(self.status(cpu, disk))),
            Cmd::Screenshot => {
                // Answered with the next frame.
                self.frame_waiters.push(id);
                Outcome::later_on()
            },
            Cmd::TraceQuery(q) => self.trace_query(&q, now_us),
            Cmd::TraceControl { enabled, clear, stream_max } => self.trace_control(
                enabled,
                clear,
                stream_max,
            ),
            Cmd::Input { events, wait } => self.input(map, &events, wait, id),
            Cmd::InputClear => self.input_clear(),
            Cmd::Pause => self.pause(cpu, id),
            Cmd::Resume { until } => self.resume_until(cpu, &until),
            Cmd::Step { count } => self.step(count, id),
            Cmd::StepOver => self.step_over(cpu, id),
            Cmd::WaitPause => self.wait_pause(cpu, id),
            Cmd::RebootShell => self.reboot_shell(cpu),
            Cmd::GetRegs => Outcome::now(Reply::Registers(registers(cpu))),
            Cmd::SetRegs(entries) => put_registers(cpu, &entries),
            Cmd::ReadMem { addr, len } => read_mem(cpu, addr.as_str(), len),
            Cmd::WriteMem { addr, data } => self.write_mem(cpu, addr.as_str(), &data),
            Cmd::Disasm { addr, count } => self.disasm(cpu, &addr, count),
            Cmd::ListBreakpoints => self.list_breakpoints(),
            Cmd::AddBreakpoint(addr) => self.add_breakpoint(cpu, addr.as_str()),
            Cmd::RemoveBreakpoint(addr) => self.remove_breakpoint(cpu, &addr),
            Cmd::ListWatchpoints => self.list_watchpoints(cpu),
            Cmd::AddWatchpoint { addr, len } => self.add_watchpoint(cpu, addr.as_str(), len),
            Cmd::RemoveWatchpoint(addr) => self.remove_watchpoint(cpu, &addr),
            Cmd::BreakOn { exceptions, clear_exceptions, mode_switch } => self.break_on(
                cpu,
                exceptions,
                clear_exceptions,
                mode_switch,
            ),
            Cmd::Ivt => Outcome::now(Reply::Ivt(ivt_info(cpu))),
            Cmd::Gdt => Outcome::now(Reply::Table(table_info(cpu, false, 1024))),
            Cmd::Ldt => Outcome::now(Reply::Table(table_info(cpu, true, 1024))),
            Cmd::Idt => Outcome::now(Reply::Gates(idt_info(cpu))),
            Cmd::Tss => Outcome::now(Reply::Tss(tss_info(cpu))),
            Cmd::PageWalk(addr) => page_walk(cpu, addr.as_str()),
            Cmd::Exceptions => Outcome::now(Reply::Exceptions(exceptions_info(cpu))),
            Cmd::SaveState { path } => self.ask_state(false, path, id),
            Cmd::LoadState { path } => self.ask_state(true, path, id),
        }
    }
}

/// The debugger's own changes to memory don't stop the machine: after it
/// wrote, no watched memory counts as changed.
pub proof fn law_own_writes_are_quiet(
    h: Hub,
    s: Core,
    addr: Seq<char>,
    data: Seq<u8>,
    after: Hub,
    s2: Core,
    out: Outcome,
)
    requires
        h.writing(s, addr, data, after, s2, out),
        out.reply is Some,
        !(out.reply matches Some(Reply::Error(..))),
    ensures
        super::hub::first_change(after.watchpoints, s2.ram) is None,
{
    lemma_looked_at_quiet(h.watchpoints, s2.ram);
}

proof fn lemma_looked_at_quiet(watches: Seq<Watch>, ram: Seq<u8>)
    ensures
        super::hub::first_change(looked_at(watches, ram), ram) is None,
    decreases watches.len(),
{
    if watches.len() > 0 {
        let looked = looked_at(watches, ram);
        assert(looked[0].now(ram) == looked[0].value);
        assert(looked.skip(1) =~= looked_at(watches.skip(1), ram));
        lemma_looked_at_quiet(watches.skip(1), ram);
    }
}

/// Bytes that the debugger wrote to physical memory read back: those read
/// from the same address after a write that succeeded are those written.
pub proof fn law_writes_read_back(
    h: Hub,
    s: Core,
    addr: Seq<char>,
    data: Seq<u8>,
    after: Hub,
    s2: Core,
    out: Outcome,
)
    requires
        h.writing(s, addr, data, after, s2, out),
        !(out.reply matches Some(Reply::Error(..))),
        address_read(s, addr) is Ok,
        address_read(s, addr)->Ok_0.lin is None,
        address_read(s, addr)->Ok_0.phys is Some,
    ensures
        forall|i: int|
            0 <= i < data.len() ==> address_read(s, addr)->Ok_0.value(s2, i) == #[trigger] data[i],
{
    let a = address_read(s, addr)->Ok_0;
    assert forall|i: int| 0 <= i < data.len() implies 0 <= (#[trigger] a.at(s, i))->0 < s.ram.len() by {
        assert(a.at(s, i) is Some);
        assert(!reaches_end(a, s, data.len() as int));
    }
    lemma_written(a, s, data);
    assert forall|i: int| 0 <= i < data.len() implies a.value(s2, i) == #[trigger] data[i] by {
        assert(a.at(s2, i) == a.at(s, i));
    }
}

proof fn lemma_written(a: DebugAddr, s: Core, data: Seq<u8>)
    requires
        a.lin is None,
        a.phys is Some,
        forall|i: int| 0 <= i < data.len() ==> 0 <= (#[trigger] a.at(s, i))->0 < s.ram.len(),
    ensures
        written(a, s, data).len() == s.ram.len(),
        forall|i: int|
            0 <= i < data.len() ==> written(a, s, data)[a.phys->0 + i] == #[trigger] data[i],
    decreases data.len(),
{
    if data.len() > 0 {
        let less = data.drop_last();
        lemma_written(a, s, less);
        let n = data.len() - 1;
        assert(a.at(s, n) == Some(a.phys->0 + n));
        assert forall|i: int| 0 <= i < data.len() implies written(a, s, data)[a.phys->0 + i]
            == #[trigger] data[i] by {
            if i < n {
                assert(less[i] == data[i]);
            }
        }
    }
}

/// A breakpoint that is added where none was and taken away again leaves the
/// hub as it was.
pub proof fn law_breakpoint_comes_and_goes(
    h: Hub,
    s: Core,
    addr: String,
    h1: Hub,
    out1: Outcome,
    h2: Hub,
    out2: Outcome,
)
    requires
        h.adding_breakpoint(s, addr@, h1, out1),
        h1.removing_breakpoint(s, Some(addr), h2, out2),
        break_at(s, addr@) matches Ok(phys) ==> !h.breakpoints.contains(phys),
    ensures
        h2 == h,
{
    if let Ok(phys) = break_at(s, addr@) {
        assert(h.breakpoints.insert(phys).remove(phys) =~= h.breakpoints);
    }
}

/// A request that fails leaves the hub and the machine as they were.
pub proof fn law_failures_change_nothing(
    h: Hub,
    s: Core,
    disk: DiskController,
    map: Keymap,
    now_us: u64,
    cmd: Cmd,
    id: u64,
    h2: Hub,
    s2: Core,
    out: Outcome,
)
    requires
        served(h, s, disk, map, now_us, cmd, id, h2, s2, out),
        out.reply matches Some(Reply::Error(..)),
    ensures
        h2 == h,
        s2 == s,
{
}

/// A request is answered at once, or its number is kept until it can be:
/// with the pause, the next frame, the queued input or the save states.
pub proof fn law_requests_are_answered(
    h: Hub,
    s: Core,
    disk: DiskController,
    map: Keymap,
    now_us: u64,
    cmd: Cmd,
    id: u64,
    h2: Hub,
    s2: Core,
    out: Outcome,
)
    requires
        served(h, s, disk, map, now_us, cmd, id, h2, s2, out),
    ensures
        ({
            ||| out.reply is Some
            ||| h2.pause_waiters.len() > 0 && h2.pause_waiters.last() == id
            ||| h2.frame_waiters.len() > 0 && h2.frame_waiters.last() == id
            ||| h2.remote.input.len() > 0 && h2.remote.input.last() == LowInput::Notify(id)
            ||| h2.state_requests.len() > 0 && h2.state_requests.last().2 == id
        }),
{
}

} // verus!
