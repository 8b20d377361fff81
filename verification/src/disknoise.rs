//! The noises disk drives make, as DOSBox Staging plays them: a hard disk
//! spinning up and then humming on, a floppy's motor running while it's in
//! use, and the heads seeking on each access.
//!
//! The samples are 16-bit mono at 22050 Hz, played at twice that for the
//! mixer's 44.1 kHz. Seeks sound different for sequential access (the same
//! file as the last access, or a nearby track) and random access.
//!
//! Levels are whole numbers here: twice the value of a mixer frame on the
//! 16-bit scale, before the mixer's gain.

use vstd::prelude::*;

use crate::diskio::{DiskClass, NoiseMode};

verus! {

/// How an access relates to the ones before, for picking its seek sound.
#[derive(Clone, Copy, Debug, PartialEq, Eq, Structural)]
pub enum Access {
    /// Reading or writing a file, which `key` stands for.
    File { write: bool, key: u64 },
    /// Reading or writing sectors on a track.
    Track(u64),
    /// Opening, creating or seeking: as the last access was.
    Other,
}

/// The sounds of one kind of drive, as bytes of 16-bit samples.
#[derive(Debug)]
pub struct Sounds {
    pub spin_up: Option<Vec<u8>>,
    pub spin: Vec<u8>,
    pub seeks: Vec<Vec<u8>>,
}

impl Sounds {
    /// There are nine sounds of the heads to choose from.
    pub open spec fn wf(&self) -> bool {
        self.seeks@.len() == 9
    }
}

/// Where the samples of a WAVE file end: whole samples, as many as the file
/// has.
pub open spec fn samples_end(len: int, offset: int, size: int) -> int {
    let end = offset + (size - size % 2);
    if end < len - len % 2 {
        end
    } else {
        len - len % 2
    }
}

/// The samples of a WAVE file whose data is `size` bytes at `offset`.
pub fn pcm(wav: &[u8], offset: usize, size: usize) -> (samples: Vec<u8>)
    requires
        offset + size <= usize::MAX,
        offset <= samples_end(wav@.len() as int, offset as int, size as int),
    ensures
        samples@ == wav@.subrange(
            offset as int,
            samples_end(wav@.len() as int, offset as int, size as int),
        ),
{
    let whole: usize = wav.len() - wav.len() % 2;
    let end: usize = if offset + (size - size % 2) < whole {
        offset + (size - size % 2)
    } else {
        whole
    };
    let part = vstd::slice::slice_subrange(wav, offset, end);
    vstd::slice::slice_to_vec(part)
}

/// A sample playing: where it is, in mixer frames, two per sample, and
/// whether it starts over at its end.
#[derive(Clone, Copy, Debug, PartialEq, Eq, Structural)]
pub struct Voice {
    pub at: u64,
    pub looped: bool,
}

/// Sample `i` of a sound.
pub open spec fn sample_of(pcm: Seq<u8>, i: int) -> int {
    let word = pcm[2 * i] + 256 * pcm[2 * i + 1];
    if word >= 0x8000 {
        word - 0x1_0000
    } else {
        word
    }
}

/// How many samples a sound has.
pub open spec fn sample_count(pcm: Seq<u8>) -> int {
    pcm.len() as int / 2
}

impl Voice {
    /// Where the next mixer frame comes from, if there is one.
    pub open spec fn place(self, pcm: Seq<u8>) -> Option<u64> {
        if sample_count(pcm) == 0 {
            None
        } else if self.at as int / 2 >= sample_count(pcm) {
            if self.looped {
                Some(0)
            } else {
                None
            }
        } else {
            Some(self.at)
        }
    }

    /// Twice the value of the mixer frame at a place: a sample's own, or
    /// between samples the average of the two around it.
    pub open spec fn level(self, pcm: Seq<u8>, at: u64) -> int {
        let i = at as int / 2;
        let a = sample_of(pcm, i);
        if at % 2 == 0 {
            2 * a
        } else {
            a + (if i + 1 < sample_count(pcm) {
                sample_of(pcm, i + 1)
            } else if self.looped {
                sample_of(pcm, 0)
            } else {
                a
            })
        }
    }

    pub open spec fn moved_on(self, pcm: Seq<u8>, frames: u64) -> Voice {
        let len = 2 * sample_count(pcm);
        let at = self.at + frames;
        Voice {
            at: (if self.looped && len > 0 {
                at % len
            } else {
                at
            }) as u64,
            ..self
        }
    }

    pub fn new(looped: bool) -> (voice: Self)
        ensures
            voice == (Voice { at: 0, looped }),
    {
        Voice { at: 0, looped }
    }

    fn sample(pcm: &[u8], i: usize) -> (value: i32)
        requires
            i < sample_count(pcm@),
        ensures
            value == sample_of(pcm@, i as int),
            -0x8000 <= value <= 0x7FFF,
    {
        assert(pcm@.len() == pcm.len());
        let word: i32 = pcm[2 * i] as i32 + 256 * pcm[2 * i + 1] as i32;
        if word >= 0x8000 {
            word - 0x1_0000
        } else {
            word
        }
    }

    /// Twice the next mixer frame of the sound `pcm`, between samples the
    /// sum of the two around it; None once a sample that doesn't loop has
    /// ended.
    pub fn next(&mut self, pcm: &[u8]) -> (level: Option<i32>)
        ensures
            match (level, old(self).place(pcm@)) {
                (Some(v), Some(at)) => v == old(self).level(pcm@, at) && *final(self) == (Voice {
                    at: (at + 1) as u64,
                    ..*old(self)
                }),
                (None, None) => *final(self) == *old(self),
                _ => false,
            },
            level matches Some(v) ==> -0x1_0000 <= v <= 0xFFFE,
    {
        assert(pcm@.len() == pcm.len());
        let len: usize = pcm.len() / 2;
        if len == 0 {
            return None;
        }
        if self.at / 2 >= len as u64 {
            if !self.looped {
                return None;
            }
            self.at = 0;
        }
        let i: usize = (self.at / 2) as usize;
        let a: i32 = Voice::sample(pcm, i);
        let value: i32 = if self.at % 2 == 0 {
            2 * a
        } else {
            let b: i32 = if i + 1 < len {
                Voice::sample(pcm, i + 1)
            } else if self.looped {
                Voice::sample(pcm, 0)
            } else {
                a
            };
            a + b
        };
        self.at = self.at + 1;
        Some(value)
    }

    /// Move on `frames`; false if it ended meanwhile.
    pub fn skip(&mut self, pcm: &[u8], frames: u64) -> (going: bool)
        requires
            old(self).at + frames <= u64::MAX,
        ensures
            *final(self) == old(self).moved_on(pcm@, frames),
            going == (final(self).at < 2 * sample_count(pcm@)),
    {
        assert(pcm@.len() == pcm.len());
        let len: u64 = (pcm.len() / 2) as u64 * 2;
        self.at = self.at + frames;
        if self.looped && len > 0 {
            self.at = self.at % len;
        }
        self.at < len
    }
}

/// A small random number generator for picking seek sounds (xorshift).
#[derive(Clone, Copy, Debug, PartialEq, Eq, Structural)]
pub struct Rng(pub u32);

/// The state after a random number, which is the number too.
pub open spec fn shuffled(x: u32) -> u32 {
    let a = x ^ (x << 13);
    let b = a ^ (a >> 17);
    b ^ (b << 5)
}

impl Rng {
    /// A number below `n`.
    pub fn below(&mut self, n: usize) -> (value: usize)
        requires
            n > 0,
        ensures
            final(self).0 == shuffled(old(self).0),
            value == shuffled(old(self).0) as int % n as int,
            value < n,
    {
        let x: u32 = self.0;
        let x: u32 = x ^ (x << 13);
        let x: u32 = x ^ (x >> 17);
        let x: u32 = x ^ (x << 5);
        self.0 = x;
        proof {
            assert(0 <= x as int % n as int && x as int % n as int <= n - 1) by (nonlinear_arith)
                requires
                    n > 0,
            ;
        }
        x as usize % n
    }
}

/// One kind of drive: what it's playing and what it's doing.
#[derive(Debug)]
pub struct Device {
    pub class: DiskClass,
    pub mode: NoiseMode,
    pub sounds: Sounds,
    pub spin_up: Option<Voice>,
    pub spin: Option<Voice>,
    /// Which seek sound is playing, and where it is.
    pub seek: Option<(usize, Voice)>,
    /// Mixer frames of disk access still going on.
    pub busy: u64,
    /// Whether the last access went on from the one before.
    pub sequential: bool,
    /// The files last read and written.
    pub last_read: Option<u64>,
    pub last_written: Option<u64>,
    pub last_track: Option<u64>,
}

/// Which seek sound an access makes, and the state of the random numbers
/// after that: one of the first two for sequential access; for random access
/// on a floppy mostly those as well, and otherwise any.
pub open spec fn seek_choice(sequential: bool, class: DiskClass, x: u32) -> (int, u32) {
    let y = shuffled(x);
    let z = shuffled(y);
    if sequential {
        (y as int % 2, y)
    } else if class == DiskClass::HardDisk {
        (y as int % 9, y)
    } else if y % 10 < 8 {
        (z as int % 2, z)
    } else {
        (2 + z as int % 7, z)
    }
}

/// Whether two tracks are the same or neighbours.
pub open spec fn near(a: u64, b: u64) -> bool {
    -1 <= a - b <= 1
}

impl Device {
    /// What is played is one of the sounds.
    pub open spec fn wf(&self) -> bool {
        &&& self.sounds.wf()
        &&& self.seek matches Some((i, _)) ==> i < 9
        &&& self.spin_up is Some ==> self.sounds.spin_up is Some
    }

    /// A drive that is off and was never accessed.
    pub open spec fn off(class: DiskClass, sounds: Sounds) -> Device {
        Device {
            class,
            mode: NoiseMode::Off,
            sounds,
            spin_up: None,
            spin: None,
            seek: None,
            busy: 0,
            sequential: false,
            last_read: None,
            last_written: None,
            last_track: None,
        }
    }

    /// A drive that is off.
    pub fn new(class: DiskClass, sounds: Sounds) -> (device: Self)
        ensures
            device == Device::off(class, sounds),
    {
        Device {
            class,
            mode: NoiseMode::Off,
            sounds,
            spin_up: None,
            spin: None,
            seek: None,
            busy: 0,
            sequential: false,
            last_read: None,
            last_written: None,
            last_track: None,
        }
    }

    /// The drive with other noises: switched off it falls silent, with the
    /// heads alone the motor does, and a hard disk that is switched on spins
    /// up.
    pub open spec fn with_mode(self, mode: NoiseMode) -> Device {
        if mode == self.mode {
            self
        } else {
            match mode {
                NoiseMode::Off => Device {
                    mode,
                    spin_up: None,
                    spin: None,
                    seek: None,
                    busy: 0,
                    ..self
                },
                NoiseMode::SeekOnly => Device { mode, spin_up: None, spin: None, ..self },
                NoiseMode::On => if self.class == DiskClass::HardDisk {
                    Device {
                        mode,
                        spin_up: if self.sounds.spin_up is Some {
                            Some(Voice { at: 0, looped: false })
                        } else {
                            None
                        },
                        spin: None,
                        ..self
                    }
                } else {
                    Device { mode, ..self }
                },
            }
        }
    }

    /// The drive being accessed: a floppy's motor runs, and the heads move
    /// unless they already are.
    pub open spec fn active(self, x: u32) -> (Device, u32) {
        let motor = if self.mode == NoiseMode::On && self.class == DiskClass::Floppy
            && self.spin is None {
            Some(Voice { at: 0, looped: false })
        } else {
            self.spin
        };
        let (index, y) = seek_choice(self.sequential, self.class, x);
        if self.seek is None {
            (
                Device {
                    spin: motor,
                    seek: Some((index as usize, Voice { at: 0, looped: false })),
                    ..self
                },
                y,
            )
        } else {
            (Device { spin: motor, ..self }, x)
        }
    }

    /// The drive told how an access relates to the ones before.
    pub open spec fn told(self, access: Access) -> Device {
        match access {
            Access::File { write, key } => if write {
                Device {
                    sequential: self.last_written == Some(key),
                    last_written: Some(key),
                    ..self
                }
            } else {
                Device { sequential: self.last_read == Some(key), last_read: Some(key), ..self }
            },
            Access::Track(track) => Device {
                sequential: self.last_track matches Some(last) && near(last, track),
                last_track: Some(track),
                ..self
            },
            Access::Other => self,
        }
    }

    /// The drive accessed for `busy` mixer frames from now.
    pub open spec fn accessed(self, access: Access, busy: u64, x: u32) -> (Device, u32) {
        if self.mode == NoiseMode::Off {
            (self, x)
        } else {
            let (d, y) = self.told(access).active(x);
            (
                Device {
                    busy: if d.busy < busy {
                        busy
                    } else {
                        d.busy
                    },
                    ..d
                },
                y,
            )
        }
    }

    /// Whether nothing is playing.
    pub open spec fn silent(self) -> bool {
        self.spin_up is None && self.spin is None && self.seek is None
    }

    /// What the motor does in a mixer frame, and twice the level it gives: a
    /// hard disk hums on once it has spun up, and a floppy's motor runs out.
    pub open spec fn motor_played(self) -> (Device, int) {
        match self.spin_up {
            Some(voice) => {
                let pcm = self.sounds.spin_up->0@;
                match voice.place(pcm) {
                    Some(at) => (
                        Device {
                            spin_up: Some(Voice { at: (at + 1) as u64, ..voice }),
                            ..self
                        },
                        voice.level(pcm, at),
                    ),
                    None => (
                        Device {
                            spin_up: None,
                            spin: Some(Voice { at: 0, looped: true }),
                            ..self
                        },
                        0,
                    ),
                }
            },
            None => match self.spin {
                Some(voice) => match voice.place(self.sounds.spin@) {
                    Some(at) => (
                        Device { spin: Some(Voice { at: (at + 1) as u64, ..voice }), ..self },
                        voice.level(self.sounds.spin@, at),
                    ),
                    None => (Device { spin: None, ..self }, 0),
                },
                None => (self, 0),
            },
        }
    }

    /// What the heads do in a mixer frame.
    pub open spec fn heads_played(self) -> (Device, int) {
        match self.seek {
            Some((i, voice)) => {
                let pcm = self.sounds.seeks@[i as int]@;
                match voice.place(pcm) {
                    Some(at) => (
                        Device {
                            seek: Some((i, Voice { at: (at + 1) as u64, ..voice })),
                            ..self
                        },
                        voice.level(pcm, at),
                    ),
                    None => (Device { seek: None, ..self }, 0),
                }
            },
            None => (self, 0),
        }
    }

    /// A mixer frame: while the access goes on, the motor keeps running and
    /// the heads keep moving.
    pub open spec fn played(self, x: u32) -> (Device, int, u32) {
        if self.mode == NoiseMode::Off {
            (self, 0, x)
        } else {
            let (d, y) = if self.busy > 0 {
                Device { busy: (self.busy - 1) as u64, ..self }.active(x)
            } else {
                (self, x)
            };
            let (e, motor) = d.motor_played();
            let (f, heads) = e.heads_played();
            (f, motor + heads, y)
        }
    }

    /// `frames` passed without being played.
    pub open spec fn passed(self, frames: u64) -> Device {
        let d = Device {
            busy: if self.busy < frames {
                0
            } else {
                (self.busy - frames) as u64
            },
            seek: None,
            ..self
        };
        let e = match d.spin_up {
            Some(voice) => {
                let pcm = d.sounds.spin_up->0@;
                let moved = voice.moved_on(pcm, frames);
                if moved.at < 2 * sample_count(pcm) {
                    Device { spin_up: Some(moved), ..d }
                } else {
                    Device { spin_up: None, spin: Some(Voice { at: 0, looped: true }), ..d }
                }
            },
            None => d,
        };
        match e.spin {
            Some(voice) => {
                let moved = voice.moved_on(e.sounds.spin@, frames);
                if moved.at < 2 * sample_count(e.sounds.spin@) {
                    Device { spin: Some(moved), ..e }
                } else {
                    Device { spin: None, ..e }
                }
            },
            None => e,
        }
    }

    pub fn set_mode(&mut self, mode: NoiseMode)
        requires
            old(self).wf(),
        ensures
            *final(self) == old(self).with_mode(mode),
            final(self).wf(),
    {
        if mode == self.mode {
            return;
        }
        self.mode = mode;
        match mode {
            NoiseMode::Off => {
                self.spin_up = None;
                self.spin = None;
                self.seek = None;
                self.busy = 0;
            },
            NoiseMode::SeekOnly => {
                self.spin_up = None;
                self.spin = None;
            },
            NoiseMode::On => {
                // A hard disk spins up when it's switched on, and on and on.
                if self.class == DiskClass::HardDisk {
                    self.spin_up = if self.sounds.spin_up.is_some() {
                        Some(Voice::new(false))
                    } else {
                        None
                    };
                    self.spin = None;
                }
            },
        }
    }

    fn activity(&mut self, rng: &mut Rng)
        requires
            old(self).wf(),
        ensures
            (*final(self), final(rng).0) == old(self).active(old(rng).0),
            final(self).wf(),
    {
        if self.mode == NoiseMode::On && self.class == DiskClass::Floppy && self.spin.is_none() {
            self.spin = Some(Voice::new(false));
        }
        if self.seek.is_none() {
            let index: usize = self.seek_index(rng);
            self.seek = Some((index, Voice::new(false)));
        }
    }

    /// Which seek sample an access makes: one of the first two for
    /// sequential access; for random access on a floppy mostly those as
    /// well, and otherwise any.
    pub fn seek_index(&self, rng: &mut Rng) -> (index: usize)
        ensures
            (index as int, final(rng).0) == seek_choice(self.sequential, self.class, old(rng).0),
            index < 9,
            self.sequential ==> index < 2,
    {
        if self.sequential {
            return rng.below(2);
        }
        match self.class {
            DiskClass::Floppy => if rng.below(10) < 8 {
                rng.below(2)
            } else {
                2 + rng.below(7)
            },
            DiskClass::HardDisk => rng.below(9),
        }
    }

    /// The disk is being accessed, for `busy` mixer frames from now.
    pub fn io(&mut self, access: Access, busy: u64, rng: &mut Rng)
        requires
            old(self).wf(),
        ensures
            (*final(self), final(rng).0) == old(self).accessed(access, busy, old(rng).0),
            final(self).wf(),
    {
        if self.mode == NoiseMode::Off {
            return;
        }
        match access {
            Access::File { write, key } => {
                if write {
                    self.sequential = match self.last_written {
                        Some(last) => last == key,
                        None => false,
                    };
                    self.last_written = Some(key);
                } else {
                    self.sequential = match self.last_read {
                        Some(last) => last == key,
                        None => false,
                    };
                    self.last_read = Some(key);
                }
            },
            Access::Track(track) => {
                self.sequential = match self.last_track {
                    Some(last) => if last >= track {
                        last - track <= 1
                    } else {
                        track - last <= 1
                    },
                    None => false,
                };
                self.last_track = Some(track);
            },
            Access::Other => {},
        }
        self.activity(rng);
        if self.busy < busy {
            self.busy = busy;
        }
    }

    fn play_motor(&mut self) -> (level: i32)
        requires
            old(self).wf(),
        ensures
            (*final(self), level as int) == old(self).motor_played(),
            final(self).wf(),
            -0x1_0000 <= level <= 0xFFFE,
    {
        match self.spin_up {
            Some(voice) => {
                let mut voice = voice;
                let level: Option<i32> = match &self.sounds.spin_up {
                    Some(pcm) => voice.next(pcm.as_slice()),
                    None => None,
                };
                match level {
                    Some(v) => {
                        self.spin_up = Some(voice);
                        v
                    },
                    None => {
                        self.spin_up = None;
                        self.spin = Some(Voice::new(true));
                        0
                    },
                }
            },
            None => match self.spin {
                Some(voice) => {
                    let mut voice = voice;
                    match voice.next(self.sounds.spin.as_slice()) {
                        Some(v) => {
                            self.spin = Some(voice);
                            v
                        },
                        None => {
                            self.spin = None;
                            0
                        },
                    }
                },
                None => 0,
            },
        }
    }

    fn play_heads(&mut self) -> (level: i32)
        requires
            old(self).wf(),
        ensures
            (*final(self), level as int) == old(self).heads_played(),
            final(self).wf(),
            -0x1_0000 <= level <= 0xFFFE,
    {
        match self.seek {
            Some((i, voice)) => {
                let mut voice = voice;
                match voice.next(self.sounds.seeks[i].as_slice()) {
                    Some(v) => {
                        self.seek = Some((i, voice));
                        v
                    },
                    None => {
                        self.seek = None;
                        0
                    },
                }
            },
            None => 0,
        }
    }

    /// Twice the next mixer frame.
    pub fn render(&mut self, rng: &mut Rng) -> (level: i32)
        requires
            old(self).wf(),
        ensures
            (*final(self), level as int, final(rng).0) == old(self).played(old(rng).0),
            final(self).wf(),
            -0x2_0000 <= level <= 0x1_FFFC,
    {
        if self.mode == NoiseMode::Off {
            return 0;
        }
        // While the access goes on, the motor keeps running and the heads
        // keep moving.
        if self.busy > 0 {
            self.busy = self.busy - 1;
            self.activity(rng);
        }
        let motor: i32 = self.play_motor();
        let heads: i32 = self.play_heads();
        motor + heads
    }

    /// Move on `frames` without playing them.
    pub fn skip(&mut self, frames: u64)
        requires
            old(self).wf(),
            old(self).spin_up matches Some(v) ==> v.at + frames <= u64::MAX,
            old(self).spin matches Some(v) ==> v.at + frames <= u64::MAX,
        ensures
            *final(self) == old(self).passed(frames),
            final(self).wf(),
    {
        self.busy = if self.busy < frames {
            0
        } else {
            self.busy - frames
        };
        self.seek = None;
        if let Some(voice) = self.spin_up {
            let mut voice = voice;
            let going = match &self.sounds.spin_up {
                Some(pcm) => voice.skip(pcm.as_slice(), frames),
                None => false,
            };
            if going {
                self.spin_up = Some(voice);
            } else {
                self.spin_up = None;
                self.spin = Some(Voice::new(true));
            }
        }
        if let Some(voice) = self.spin {
            let mut voice = voice;
            if voice.skip(self.sounds.spin.as_slice(), frames) {
                self.spin = Some(voice);
            } else {
                self.spin = None;
            }
        }
    }
}

/// The noises of the floppy drives and the hard disks.
#[derive(Debug)]
pub struct DiskNoise {
    pub floppy: Device,
    pub hard_disk: Device,
    pub rng: Rng,
}

impl DiskNoise {
    pub open spec fn wf(&self) -> bool {
        &&& self.floppy.wf()
        &&& self.hard_disk.wf()
    }

    /// Silent drives with these sounds.
    pub fn new(floppy: Sounds, hard_disk: Sounds) -> (noise: Self)
        ensures
            noise.floppy == Device::off(DiskClass::Floppy, floppy),
            noise.hard_disk == Device::off(DiskClass::HardDisk, hard_disk),
            noise.rng.0 == 0x2545_F491,
    {
        DiskNoise {
            floppy: Device::new(DiskClass::Floppy, floppy),
            hard_disk: Device::new(DiskClass::HardDisk, hard_disk),
            rng: Rng(0x2545_F491),
        }
    }

    pub fn set_modes(&mut self, floppy: NoiseMode, hard_disk: NoiseMode)
        requires
            old(self).wf(),
        ensures
            final(self).wf(),
            final(self).floppy == old(self).floppy.with_mode(floppy),
            final(self).hard_disk == old(self).hard_disk.with_mode(hard_disk),
            final(self).rng == old(self).rng,
    {
        self.floppy.set_mode(floppy);
        self.hard_disk.set_mode(hard_disk);
    }

    /// Whether a kind of drive makes noises.
    pub fn enabled(&self, class: DiskClass) -> (yes: bool)
        ensures
            yes == (match class {
                DiskClass::Floppy => self.floppy.mode != NoiseMode::Off,
                DiskClass::HardDisk => self.hard_disk.mode != NoiseMode::Off,
            }),
    {
        match class {
            DiskClass::Floppy => self.floppy.mode != NoiseMode::Off,
            DiskClass::HardDisk => self.hard_disk.mode != NoiseMode::Off,
        }
    }

    /// A drive of `class` is accessed, for `busy` mixer frames from now.
    pub fn io(&mut self, class: DiskClass, access: Access, busy: u64)
        requires
            old(self).wf(),
        ensures
            final(self).wf(),
            match class {
                DiskClass::Floppy => (final(self).floppy, final(self).rng.0) == old(
                    self,
                ).floppy.accessed(access, busy, old(self).rng.0) && final(self).hard_disk == old(
                    self,
                ).hard_disk,
                DiskClass::HardDisk => (final(self).hard_disk, final(self).rng.0) == old(
                    self,
                ).hard_disk.accessed(access, busy, old(self).rng.0) && final(self).floppy == old(
                    self,
                ).floppy,
            },
    {
        let mut rng = self.rng;
        match class {
            DiskClass::Floppy => self.floppy.io(access, busy, &mut rng),
            DiskClass::HardDisk => self.hard_disk.io(access, busy, &mut rng),
        }
        self.rng = rng;
    }

    /// Twice the next mixer frame, mono, on the 16-bit scale.
    pub fn render(&mut self) -> (level: i32)
        requires
            old(self).wf(),
        ensures
            final(self).wf(),
            ({
                let (f, a, x) = old(self).floppy.played(old(self).rng.0);
                let (h, b, y) = old(self).hard_disk.played(x);
                &&& final(self).floppy == f
                &&& final(self).hard_disk == h
                &&& final(self).rng.0 == y
                &&& level == a + b
            }),
    {
        let mut rng = self.rng;
        let a: i32 = self.floppy.render(&mut rng);
        let b: i32 = self.hard_disk.render(&mut rng);
        self.rng = rng;
        a + b
    }

    /// Move on `frames` without playing them, after a long pause.
    pub fn skip(&mut self, frames: u64)
        requires
            old(self).wf(),
            old(self).floppy.spin_up matches Some(v) ==> v.at + frames <= u64::MAX,
            old(self).floppy.spin matches Some(v) ==> v.at + frames <= u64::MAX,
            old(self).hard_disk.spin_up matches Some(v) ==> v.at + frames <= u64::MAX,
            old(self).hard_disk.spin matches Some(v) ==> v.at + frames <= u64::MAX,
        ensures
            final(self).wf(),
            final(self).floppy == old(self).floppy.passed(frames),
            final(self).hard_disk == old(self).hard_disk.passed(frames),
            final(self).rng == old(self).rng,
    {
        self.floppy.skip(frames);
        self.hard_disk.skip(frames);
    }

    /// Whether nothing is playing.
    pub fn is_silent(&self) -> (yes: bool)
        ensures
            yes == (self.floppy.silent() && self.hard_disk.silent()),
    {
        self.floppy.spin_up.is_none() && self.floppy.spin.is_none() && self.floppy.seek.is_none()
            && self.hard_disk.spin_up.is_none() && self.hard_disk.spin.is_none()
            && self.hard_disk.seek.is_none()
    }
}

/// A drive that is off makes no noise, whatever is done with it.
pub proof fn law_off_is_silent(d: Device, access: Access, busy: u64, x: u32)
    requires
        d.mode == NoiseMode::Off,
        d.silent(),
    ensures
        d.accessed(access, busy, x) == (d, x),
        d.played(x) == (d, 0int, x),
{
}

/// Switching a drive off silences it at once.
pub proof fn law_switching_off_silences(d: Device)
    requires
        d.mode != NoiseMode::Off,
    ensures
        d.with_mode(NoiseMode::Off).silent(),
        d.with_mode(NoiseMode::Off).busy == 0,
{
}

/// While an access goes on the heads keep moving: after each mixer frame of
/// it a seek sounds, unless the one before ended in this very frame.
pub proof fn law_busy_heads_move(d: Device, x: u32)
    requires
        d.wf(),
        d.mode != NoiseMode::Off,
        d.busy > 0,
        forall|i: int| 0 <= i < 9 ==> (#[trigger] d.sounds.seeks@[i])@.len() >= 2,
        d.seek is None,
    ensures
        d.played(x).0.seek is Some,
        d.played(x).0.busy == d.busy - 1,
{
    let (index, y) = seek_choice(d.sequential, d.class, x);
    assert(0 <= index < 9);
    let a = Device { busy: (d.busy - 1) as u64, ..d }.active(x).0;
    assert(a.seek == Some((index as usize, Voice { at: 0, looped: false })));
    assert(a.motor_played().0.seek == a.seek);
    assert(a.sounds.seeks@[index]@.len() >= 2);
}

} // verus!
