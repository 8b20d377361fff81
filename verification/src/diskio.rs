//! How long disk access takes, as DOSBox Staging's `hard_disk_speed` and
//! `floppy_disk_speed` settings have it, and the settings for the noises
//! the drives make (see `disknoise`).
//!
//! DOS and BIOS services do their disk work at once and charge the time it
//! would have taken (`DiskIo::charge`). When the service is done, its return
//! is held back for that long in emulated time (`begin_wait`), with
//! interrupts on: the machine keeps running, the program waits.

use vstd::prelude::*;
use vstd::string::*;

use crate::cpu::regs::Seg;
use crate::cpu::state::{Core, Cpu, Rest, IF};
use crate::disk::kind::DriveKind;
use crate::text::{
    decimal_text, lower, lowercase, push_decimal, right_aligned, same, same_but_case, trim, trimmed,
};

verus! {

/// What DOSBox charges for the file calls that move no data.
pub const CREATE_BYTES: u32 = 2048;

pub const OPEN_BYTES: u32 = 1024;

pub const SEEK_BYTES: u32 = 512;

/// A drive's speed.
#[derive(Clone, Copy, Debug, PartialEq, Eq, Structural)]
pub enum DiskSpeed {
    /// No slowdown.
    Maximum,
    Fast,
    Medium,
    Slow,
}

/// The two kinds of drive that are slow and make noises.
#[derive(Clone, Copy, Debug, PartialEq, Eq, Structural)]
pub enum DiskClass {
    Floppy,
    HardDisk,
}

/// Which disk noises a drive makes.
#[derive(Clone, Copy, Debug, PartialEq, Eq, Structural)]
pub enum NoiseMode {
    Off,
    /// The heads moving, not the disk spinning.
    SeekOnly,
    On,
}

pub open spec fn speed_name(speed: DiskSpeed) -> Seq<char> {
    match speed {
        DiskSpeed::Maximum => "maximum"@,
        DiskSpeed::Fast => "fast"@,
        DiskSpeed::Medium => "medium"@,
        DiskSpeed::Slow => "slow"@,
    }
}

/// The speed that a setting names, whatever its case and the space around it.
pub open spec fn speed_named(s: Seq<char>) -> Option<DiskSpeed> {
    let name = lower(trimmed(s));
    if name == lower("maximum"@) {
        Some(DiskSpeed::Maximum)
    } else if name == lower("fast"@) {
        Some(DiskSpeed::Fast)
    } else if name == lower("medium"@) {
        Some(DiskSpeed::Medium)
    } else if name == lower("slow"@) {
        Some(DiskSpeed::Slow)
    } else {
        None
    }
}

/// Transfer rate in KB per second: a mid-1990s, early 1990s and 1980s
/// hard disk; an extra-high, high and double density floppy.
pub open spec fn rate_of(class: DiskClass, speed: DiskSpeed) -> Option<u64> {
    match (class, speed) {
        (_, DiskSpeed::Maximum) => None,
        (DiskClass::HardDisk, DiskSpeed::Fast) => Some(15_000),
        (DiskClass::HardDisk, DiskSpeed::Medium) => Some(2_500),
        (DiskClass::HardDisk, DiskSpeed::Slow) => Some(600),
        (DiskClass::Floppy, DiskSpeed::Fast) => Some(120),
        (DiskClass::Floppy, DiskSpeed::Medium) => Some(60),
        (DiskClass::Floppy, DiskSpeed::Slow) => Some(30),
    }
}

/// Thousands of a number as a decimal number, without zeros at its end.
pub open spec fn thousands_text(n: nat) -> Seq<char> {
    let rest = n % 1000;
    if rest == 0 {
        decimal_text(n / 1000)
    } else if rest % 100 == 0 {
        decimal_text(n / 1000) + "."@ + decimal_text(rest / 100)
    } else if rest % 10 == 0 {
        decimal_text(n / 1000) + "."@ + right_aligned(decimal_text(rest / 10), 2, '0')
    } else {
        decimal_text(n / 1000) + "."@ + right_aligned(decimal_text(rest), 3, '0')
    }
}

/// A speed as the settings window shows it.
pub open spec fn description(class: DiskClass, speed: DiskSpeed) -> Seq<char> {
    match rate_of(class, speed) {
        None => speed_name(speed),
        Some(kb) => if kb >= 1000 {
            speed_name(speed) + " (~"@ + thousands_text(kb as nat) + " MB/s)"@
        } else {
            speed_name(speed) + " (~"@ + decimal_text(kb as nat) + " kB/s)"@
        },
    }
}

fn push_number(out: &mut String, n: u64)
    ensures
        final(out)@ == old(out)@ + decimal_text(n as nat),
{
    push_decimal(out, n, 0, ' ');
    assert(right_aligned(decimal_text(n as nat), 0, ' ') =~= decimal_text(n as nat));
}

fn push_thousands(out: &mut String, n: u64)
    ensures
        final(out)@ == old(out)@ + thousands_text(n as nat),
{
    let rest: u64 = n % 1000;
    push_number(out, n / 1000);
    if rest == 0 {
    } else if rest % 100 == 0 {
        out.append(".");
        push_number(out, rest / 100);
    } else if rest % 10 == 0 {
        out.append(".");
        push_decimal(out, rest / 10, 2, '0');
    } else {
        out.append(".");
        push_decimal(out, rest, 3, '0');
    }
    assert(out@ =~= old(out)@ + thousands_text(n as nat));
}

impl DiskSpeed {
    /// The speed a setting names.
    pub fn parse(s: &str) -> (speed: Option<Self>)
        ensures
            speed == speed_named(s@),
    {
        let name = trim(s);
        if same_but_case(name.as_str(), "maximum") {
            Some(DiskSpeed::Maximum)
        } else if same_but_case(name.as_str(), "fast") {
            Some(DiskSpeed::Fast)
        } else if same_but_case(name.as_str(), "medium") {
            Some(DiskSpeed::Medium)
        } else if same_but_case(name.as_str(), "slow") {
            Some(DiskSpeed::Slow)
        } else {
            None
        }
    }

    pub fn name(self) -> (name: &'static str)
        ensures
            name@ == speed_name(self),
    {
        match self {
            DiskSpeed::Maximum => "maximum",
            DiskSpeed::Fast => "fast",
            DiskSpeed::Medium => "medium",
            DiskSpeed::Slow => "slow",
        }
    }

    /// Transfer rate in KB per second. None for no slowdown.
    pub fn kb_per_second(self, class: DiskClass) -> (rate: Option<u64>)
        ensures
            rate == rate_of(class, self),
    {
        match (class, self) {
            (_, DiskSpeed::Maximum) => None,
            (DiskClass::HardDisk, DiskSpeed::Fast) => Some(15_000),
            (DiskClass::HardDisk, DiskSpeed::Medium) => Some(2_500),
            (DiskClass::HardDisk, DiskSpeed::Slow) => Some(600),
            (DiskClass::Floppy, DiskSpeed::Fast) => Some(120),
            (DiskClass::Floppy, DiskSpeed::Medium) => Some(60),
            (DiskClass::Floppy, DiskSpeed::Slow) => Some(30),
        }
    }

    /// The setting as the settings window shows it: "slow (~600 kB/s)".
    pub fn describe(self, class: DiskClass) -> (text: String)
        ensures
            text@ == description(class, self),
    {
        let mut text = String::from_str(self.name());
        match self.kb_per_second(class) {
            None => {},
            Some(kb) => {
                text.append(" (~");
                if kb >= 1000 {
                    push_thousands(&mut text, kb);
                    text.append(" MB/s)");
                } else {
                    push_number(&mut text, kb);
                    text.append(" kB/s)");
                }
            },
        }
        assert(text@ =~= description(class, self));
        text
    }
}

pub open spec fn mode_name(mode: NoiseMode) -> Seq<char> {
    match mode {
        NoiseMode::Off => "off"@,
        NoiseMode::SeekOnly => "seek-only"@,
        NoiseMode::On => "on"@,
    }
}

/// The noises that a setting asks for.
pub open spec fn mode_named(s: Seq<char>) -> Option<NoiseMode> {
    let name = lower(trimmed(s));
    if name == "on"@ || name == "true"@ || name == "yes"@ {
        Some(NoiseMode::On)
    } else if name == "seek-only"@ {
        Some(NoiseMode::SeekOnly)
    } else if name == "off"@ || name == "false"@ || name == "no"@ {
        Some(NoiseMode::Off)
    } else {
        None
    }
}

impl NoiseMode {
    /// The noises a setting asks for.
    pub fn parse(s: &str) -> (mode: Option<Self>)
        ensures
            mode == mode_named(s@),
    {
        let setting = trim(s);
        let name = lowercase(setting.as_str());
        if same(name.as_str(), "on") || same(name.as_str(), "true") || same(name.as_str(), "yes") {
            Some(NoiseMode::On)
        } else if same(name.as_str(), "seek-only") {
            Some(NoiseMode::SeekOnly)
        } else if same(name.as_str(), "off") || same(name.as_str(), "false") || same(
            name.as_str(),
            "no",
        ) {
            Some(NoiseMode::Off)
        } else {
            None
        }
    }

    pub fn name(self) -> (name: &'static str)
        ensures
            name@ == mode_name(self),
    {
        match self {
            NoiseMode::Off => "off",
            NoiseMode::SeekOnly => "seek-only",
            NoiseMode::On => "on",
        }
    }
}

impl DiskClass {
    /// CD-ROMs and the drives held in memory take no time.
    pub fn of(kind: DriveKind) -> (class: Option<Self>)
        ensures
            class == (match kind {
                DriveKind::Floppy => Some(DiskClass::Floppy),
                DriveKind::HardDisk => Some(DiskClass::HardDisk),
                DriveKind::CdRom | DriveKind::Virtual => None,
            }),
    {
        match kind {
            DriveKind::Floppy => Some(DiskClass::Floppy),
            DriveKind::HardDisk => Some(DiskClass::HardDisk),
            DriveKind::CdRom | DriveKind::Virtual => None,
        }
    }
}

/// The disk speed and noise settings.
#[derive(Clone, Copy, Debug, PartialEq, Eq, Structural)]
pub struct DiskSettings {
    pub hard_disk_speed: DiskSpeed,
    pub floppy_disk_speed: DiskSpeed,
    pub hard_disk_noise: NoiseMode,
    pub floppy_disk_noise: NoiseMode,
}

impl Default for DiskSettings {
    /// Drives as fast as they can be, and silent.
    fn default() -> (settings: Self)
        ensures
            settings == (DiskSettings {
                hard_disk_speed: DiskSpeed::Maximum,
                floppy_disk_speed: DiskSpeed::Maximum,
                hard_disk_noise: NoiseMode::Off,
                floppy_disk_noise: NoiseMode::Off,
            }),
    {
        DiskSettings {
            hard_disk_speed: DiskSpeed::Maximum,
            floppy_disk_speed: DiskSpeed::Maximum,
            hard_disk_noise: NoiseMode::Off,
            floppy_disk_noise: NoiseMode::Off,
        }
    }
}

impl DiskSettings {
    pub open spec fn speed_of(self, class: DiskClass) -> DiskSpeed {
        match class {
            DiskClass::Floppy => self.floppy_disk_speed,
            DiskClass::HardDisk => self.hard_disk_speed,
        }
    }

    pub fn speed(&self, class: DiskClass) -> (speed: DiskSpeed)
        ensures
            speed == self.speed_of(class),
    {
        match class {
            DiskClass::Floppy => self.floppy_disk_speed,
            DiskClass::HardDisk => self.hard_disk_speed,
        }
    }
}

/// The time the disk work of the service running now takes.
#[derive(Clone, Copy, Debug)]
pub struct DiskIo {
    pub settings: DiskSettings,
    pub pending_ns: u64,
}

impl Default for DiskIo {
    fn default() -> (io: Self)
        ensures
            io.pending_ns == 0,
            io.settings == (DiskSettings {
                hard_disk_speed: DiskSpeed::Maximum,
                floppy_disk_speed: DiskSpeed::Maximum,
                hard_disk_noise: NoiseMode::Off,
                floppy_disk_noise: NoiseMode::Off,
            }),
    {
        DiskIo { settings: DiskSettings::default(), pending_ns: 0 }
    }
}

/// The nanoseconds that moving `bytes` takes at a rate.
pub open spec fn transfer_ns(settings: DiskSettings, class: DiskClass, bytes: u32) -> int {
    match rate_of(class, settings.speed_of(class)) {
        Some(kb) => bytes * 1_000_000_000 / (kb * 1024),
        None => 0,
    }
}

impl DiskIo {
    /// Charge moving `bytes` on a `class` drive. Returns the time charged
    /// so far, in nanoseconds.
    pub fn charge(&mut self, class: DiskClass, bytes: u32) -> (ns: u64)
        requires
            old(self).pending_ns + transfer_ns(old(self).settings, class, bytes) <= u64::MAX,
        ensures
            ns == old(self).pending_ns + transfer_ns(old(self).settings, class, bytes),
            final(self).pending_ns == ns,
            final(self).settings == old(self).settings,
    {
        if let Some(kb) = self.settings.speed(class).kb_per_second(class) {
            self.pending_ns = self.pending_ns + bytes as u64 * 1_000_000_000 / (kb * 1024);
        }
        self.pending_ns
    }

    /// The time charged since the last call.
    pub fn take_pending(&mut self) -> (ns: u64)
        ensures
            ns == old(self).pending_ns,
            final(self).pending_ns == 0,
            final(self).settings == old(self).settings,
    {
        let ns: u64 = self.pending_ns;
        self.pending_ns = 0;
        ns
    }

    pub fn clear(&mut self)
        ensures
            final(self).pending_ns == 0,
            final(self).settings == old(self).settings,
    {
        self.pending_ns = 0;
    }
}

/// What a wait for a disk comes to.
#[derive(Clone, Copy, Debug, PartialEq, Eq, Structural)]
pub enum Wait {
    /// It goes on until this time, in timer ticks.
    Until(u64),
    /// The service of this vector returns.
    Return(u8),
}

/// Word `i` of a deadline, the lowest one first.
pub open spec fn deadline_word(until: u64, i: int) -> u16 {
    (until >> ((16 * i) as u64)) as u16
}

/// The deadline that four words are, the lowest one first.
pub open spec fn deadline_of(w0: u16, w1: u16, w2: u16, w3: u16) -> u64 {
    (((((w3 as u64) << 16 | w2 as u64) << 16) | w1 as u64) << 16) | w0 as u64
}

impl Core {
    /// A word pushed for a service, whether or not it faults.
    pub open spec fn pushed(self, value: u16) -> Core {
        self.push_sized(2, value as u32).0
    }

    /// A word popped for a service; zero if it faults.
    pub open spec fn popped(self) -> (Core, u16) {
        let (s, value) = self.pop_sized(2);
        (
            s,
            match value {
                Ok(v) => v as u16,
                Err(_) => 0,
            },
        )
    }

    /// A service's return held back until a time.
    pub open spec fn wait_begun(self, vector: u8, until: u64, entry: u16) -> Core {
        let s = self.pushed(vector as u16).pushed(deadline_word(until, 3)).pushed(
            deadline_word(until, 2),
        ).pushed(deadline_word(until, 1)).pushed(deadline_word(until, 0));
        Core { eip: entry as u32, ..s.seg_real(Seg::CS, 0xF000) }.with_flag(IF, true)
    }
}

/// When a wait of `ns` nanoseconds from `now` on ends, in ticks of a timer
/// with `hz` ticks per second.
pub open spec fn wait_end(now: u64, ns: u64, hz: u64) -> int {
    now + ns * hz / 1_000_000_000
}

fn push_word(cpu: &mut Cpu, value: u16)
    ensures
        final(cpu)@ == old(cpu)@.pushed(value),
{
    cpu.push(value);
}

fn pop_word(cpu: &mut Cpu) -> (value: u16)
    ensures
        final(cpu)@ == old(cpu)@.popped().0,
        value == old(cpu)@.popped().1,
{
    cpu.pop()
}

/// Instead of returning from the service `vector`, wait `ns` of emulated
/// time first with interrupts on, in the ROM's wait loop at `entry` (`wait`).
/// The service's return frame stays on the stack under the deadline and the
/// vector, so a disk service that an interrupt handler calls meanwhile
/// waits on its own. `now` is the time in ticks of a timer with `hz` ticks
/// per second.
pub fn begin_wait(cpu: &mut Cpu, vector: u8, ns: u64, now: u64, hz: u64, entry: u16)
    requires
        ns * hz <= u64::MAX,
        wait_end(now, ns, hz) <= u64::MAX,
    ensures
        final(cpu)@ == old(cpu)@.wait_begun(vector, wait_end(now, ns, hz) as u64, entry),
{
    let until: u64 = now + ns * hz / 1_000_000_000;
    push_word(cpu, vector as u16);
    push_word(cpu, (until >> 48u64) as u16);
    push_word(cpu, (until >> 32u64) as u16);
    push_word(cpu, (until >> 16u64) as u16);
    push_word(cpu, (until >> 0u64) as u16);
    cpu.set_cs(0xF000);
    cpu.set_ip(entry);
    cpu.set_cpu_flag(IF, true);
}

/// Make the code at CS:IP wait `ns` of emulated time before it runs, as a
/// program the shell loaded from a slow disk does.
pub fn wait_before(cpu: &mut Cpu, ns: u64, now: u64, hz: u64, entry: u16)
    requires
        ns * hz <= u64::MAX,
        wait_end(now, ns, hz) <= u64::MAX,
    ensures
        final(cpu)@ == old(cpu)@.pushed(old(cpu)@.flags as u16).pushed(
            old(cpu)@.pushed(old(cpu)@.flags as u16).cache(Seg::CS).selector,
        ).pushed(
            old(cpu)@.pushed(old(cpu)@.flags as u16).pushed(
                old(cpu)@.pushed(old(cpu)@.flags as u16).cache(Seg::CS).selector,
            ).eip as u16,
        ).wait_begun(0x21, wait_end(now, ns, hz) as u64, entry),
{
    let flags: u16 = cpu.flags16();
    push_word(cpu, flags);
    let cs: u16 = cpu.cs();
    push_word(cpu, cs);
    let ip: u16 = cpu.ip();
    push_word(cpu, ip);
    begin_wait(cpu, 0x21, ns, now, hz, entry);
}

/// The ROM wait loop, entered with IP past it: until the deadline on the
/// stack, go round again after the interrupts that come; then the service
/// returns as it would have.
pub fn wait(cpu: &mut Cpu, now: u64) -> (wait: Wait)
    ensures
        ({
            let (s0, w0) = old(cpu)@.popped();
            let (s1, w1) = s0.popped();
            let (s2, w2) = s1.popped();
            let (s3, w3) = s2.popped();
            let until = deadline_of(w0, w1, w2, w3);
            let again = s3.pushed(w3).pushed(w2).pushed(w1).pushed(w0);
            if now < until {
                &&& wait == Wait::Until(until)
                &&& final(cpu)@ == (Core {
                    eip: (again.eip as u16).wrapping_sub(3) as u32,
                    rest: Rest { idle: true, ..again.rest },
                    ..again
                })
            } else {
                &&& wait == Wait::Return(s3.popped().1 as u8)
                &&& final(cpu)@ == s3.popped().0
            }
        }),
{
    // The deadline's low word is on top.
    let w0: u16 = pop_word(cpu);
    let w1: u16 = pop_word(cpu);
    let w2: u16 = pop_word(cpu);
    let w3: u16 = pop_word(cpu);
    let until: u64 = (((((w3 as u64) << 16 | w2 as u64) << 16) | w1 as u64) << 16) | w0 as u64;
    if now < until {
        push_word(cpu, w3);
        push_word(cpu, w2);
        push_word(cpu, w1);
        push_word(cpu, w0);
        let ip: u16 = cpu.ip().wrapping_sub(3);
        cpu.set_ip(ip);
        cpu.idle = true;
        Wait::Until(until)
    } else {
        let vector: u16 = pop_word(cpu);
        Wait::Return(vector as u8)
    }
}

/// A deadline comes back from its words.
pub proof fn law_deadline_words(until: u64)
    ensures
        deadline_of(
            deadline_word(until, 0),
            deadline_word(until, 1),
            deadline_word(until, 2),
            deadline_word(until, 3),
        ) == until,
{
    assert((((((((until >> 48u64) as u16) as u64) << 16 | ((until >> 32u64) as u16) as u64) << 16)
        | ((until >> 16u64) as u16) as u64) << 16) | ((until >> 0u64) as u16) as u64 == until)
        by (bit_vector);
}

/// The names of the settings are read back as the settings they name.
pub proof fn law_names_parse_back(speed: DiskSpeed, mode: NoiseMode)
    ensures
        speed_named(speed_name(speed)) == Some(speed),
        mode_named(mode_name(mode)) == Some(mode),
{
    reveal_strlit("maximum");
    reveal_strlit("fast");
    reveal_strlit("medium");
    reveal_strlit("slow");
    reveal_strlit("on");
    reveal_strlit("true");
    reveal_strlit("yes");
    reveal_strlit("seek-only");
    reveal_strlit("off");
    reveal_strlit("false");
    reveal_strlit("no");
    let s = speed_name(speed);
    let m = mode_name(mode);
    assert(trimmed(s) == s);
    assert(trimmed(m) == m);
    assert(lower(m) =~= m);
    assert(lower("maximum"@).len() == 7);
    assert(lower("fast"@).len() == 4);
    assert(lower("medium"@).len() == 6);
    assert(lower("slow"@).len() == 4);
    assert(lower("fast"@)[0] == 'f');
    assert(lower("slow"@)[0] == 's');
    assert(m.len() == 2 ==> m[1] == 'n');
    assert("no"@[1] == 'o');
}

/// Silent drives of a speed.
pub open spec fn silent_at(speed: DiskSpeed) -> DiskSettings {
    DiskSettings {
        hard_disk_speed: speed,
        floppy_disk_speed: speed,
        hard_disk_noise: NoiseMode::Off,
        floppy_disk_noise: NoiseMode::Off,
    }
}

/// A slower setting never takes less time.
pub proof fn law_slower_takes_longer(class: DiskClass, bytes: u32)
    ensures
        0 == transfer_ns(silent_at(DiskSpeed::Maximum), class, bytes),
        0 <= transfer_ns(silent_at(DiskSpeed::Fast), class, bytes) <= transfer_ns(
            silent_at(DiskSpeed::Medium),
            class,
            bytes,
        ) <= transfer_ns(silent_at(DiskSpeed::Slow), class, bytes),
{
    let n = bytes * 1_000_000_000;
    if class == DiskClass::HardDisk {
        assert(0 <= n / 15_360_000 <= n / 2_560_000 <= n / 614_400);
    } else {
        assert(0 <= n / 122_880 <= n / 61_440 <= n / 30_720);
    }
}

/// A transfer takes as long as its bytes do at the drive's rate, in
/// nanoseconds rounded down; at maximum speed none.
pub proof fn law_transfers_keep_their_rate(settings: DiskSettings, class: DiskClass, bytes: u32)
    ensures
        ({
            let t = transfer_ns(settings, class, bytes);
            match rate_of(class, settings.speed_of(class)) {
                Some(kb) => t * (kb * 1024) <= bytes * 1_000_000_000 < (t + 1) * (kb * 1024),
                None => t == 0,
            }
        }),
        rate_of(class, settings.speed_of(class)) is None <==> settings.speed_of(class)
            == DiskSpeed::Maximum,
{
    match rate_of(class, settings.speed_of(class)) {
        Some(kb) => {
            let d = kb * 1024;
            let n = bytes * 1_000_000_000;
            let t = n / d;
            assert(d > 0);
            vstd::arithmetic::div_mod::lemma_fundamental_div_mod(n, d);
            assert(t * d == d * t && (t + 1) * d == d * t + d) by (nonlinear_arith);
        },
        None => {},
    }
}

/// A wait ends as many cycles on as the nanoseconds take at the processor's
/// rate, rounded down.
pub proof fn law_waits_last(now: u64, ns: u64, hz: u64)
    ensures
        ({
            let cycles = wait_end(now, ns, hz) - now;
            cycles * 1_000_000_000 <= ns * hz < (cycles + 1) * 1_000_000_000
        }),
{
    let n = ns * hz;
    let t = n / 1_000_000_000;
    assert(t * 1_000_000_000 <= n < (t + 1) * 1_000_000_000);
}

} // verus!
