//! Queued remote input, fed to the machine a frame at a time, or to the
//! settings window while it is open.

use vstd::prelude::*;

use super::input::{
    clamped, one_key, same_key, screen_to_virtual_mouse, ui_key, window_key, Coords, LowInput,
    PcKey, UiInput, F12_SCAN, MOD_ALT, MOD_CTRL,
};

verus! {

/// What remote input does to the machine.
#[derive(Clone, Copy, Debug, PartialEq, Eq, Structural)]
pub enum Applied {
    /// A key goes down or comes up.
    Key { key: PcKey, ascii: u8, down: bool },
    /// A keystroke with no scan code, as Alt and the keypad type it.
    Keystroke(u16),
    /// The mouse pointer goes to a place in the driver's coordinates.
    PointerAt(i32, i32),
    /// The mouse pointer moves.
    PointerBy(i32, i32),
    Button { idx: usize, down: bool },
    /// The request of this number is answered: its input was delivered.
    Delivered(u64),
}

/// What feeding the input needs to know of the machine in a frame: the time
/// in milliseconds, the keys that the keyboard controller still holds, the
/// keystrokes that fit the BIOS's buffer, the size of the picture, and the
/// mouse driver's coordinates.
#[derive(Clone, Copy, Debug)]
pub struct Moment {
    pub now_ms: u64,
    pub pending_keys: usize,
    pub buffer_room: usize,
    pub frame: (u32, u32),
    pub virtual_screen: (i32, i32),
}

impl Moment {
    /// The picture and the mouse driver's screen have a size.
    pub open spec fn wf(&self) -> bool {
        &&& 1 <= self.frame.0 <= i32::MAX
        &&& 1 <= self.frame.1 <= i32::MAX
        &&& 1 <= self.virtual_screen.0
        &&& 1 <= self.virtual_screen.1
    }
}

/// Remote input that waits to be delivered, and what the client holds.
#[derive(Debug)]
pub struct RemoteInput {
    pub input: Vec<LowInput>,
    pub wait_until: Option<u64>,
    pub key_stall_frames: u32,
    /// While the settings window is open, remote input goes to it instead of
    /// to the machine.
    pub divert: bool,
    pub ui_input: Vec<UiInput>,
    /// Where the remote mouse is, for clicks on the settings window.
    pub ui_pointer: (i32, i32),
    /// Ctrl+F12 came in: open or close the settings window.
    pub hotkey: bool,
    /// Shift, Ctrl and Alt bits (as at 40:17h) the remote client holds.
    pub remote_mods: u8,
    /// Keys the remote client holds down on the machine.
    pub remote_held: Vec<PcKey>,
}

/// Remote input as a value.
pub struct Remote {
    pub input: Seq<LowInput>,
    pub wait_until: Option<u64>,
    pub key_stall_frames: u32,
    pub divert: bool,
    pub ui_input: Seq<UiInput>,
    pub ui_pointer: (i32, i32),
    pub hotkey: bool,
    pub remote_mods: u8,
    pub remote_held: Seq<PcKey>,
}

impl View for RemoteInput {
    type V = Remote;

    open spec fn view(&self) -> Remote {
        Remote {
            input: self.input@,
            wait_until: self.wait_until,
            key_stall_frames: self.key_stall_frames,
            divert: self.divert,
            ui_input: self.ui_input@,
            ui_pointer: self.ui_pointer,
            hotkey: self.hotkey,
            remote_mods: self.remote_mods,
            remote_held: self.remote_held@,
        }
    }
}

/// Where a key stands among held ones.
pub open spec fn held_at(held: Seq<PcKey>, key: PcKey) -> Option<int>
    decreases held.len(),
{
    if held.len() == 0 {
        None
    } else if one_key(held[0], key) {
        Some(0)
    } else {
        match held_at(held.skip(1), key) {
            Some(i) => Some(i + 1),
            None => None,
        }
    }
}

/// Whether a key is held.
pub open spec fn holds(held: Seq<PcKey>, key: PcKey) -> bool {
    held_at(held, key) is Some
}

proof fn lemma_held(held: Seq<PcKey>, key: PcKey)
    ensures
        holds(held, key) <==> exists|i: int| 0 <= i < held.len() && one_key(#[trigger] held[i], key),
        held_at(held, key) matches Some(i) ==> 0 <= i < held.len() && one_key(held[i], key) && (
        forall|j: int| 0 <= j < i ==> !one_key(#[trigger] held[j], key)),
    decreases held.len(),
{
    if held.len() > 0 && !one_key(held[0], key) {
        let rest = held.skip(1);
        lemma_held(rest, key);
        assert forall|i: int| 0 <= i < held.len() && one_key(#[trigger] held[i], key) implies holds(
            rest,
            key,
        ) by {
            assert(rest[i - 1] == held[i]);
        }
        if let Some(i) = held_at(rest, key) {
            assert(held[i + 1] == rest[i]);
            assert forall|j: int| 0 <= j < i + 1 implies !one_key(#[trigger] held[j], key) by {
                if j > 0 {
                    assert(rest[j - 1] == held[j]);
                }
            }
        }
    }
}

fn find_held(held: &Vec<PcKey>, key: &PcKey) -> (at: Option<usize>)
    ensures
        match (at, held_at(held@, *key)) {
            (Some(i), Some(j)) => i == j && i < held@.len(),
            (None, None) => true,
            _ => false,
        },
{
    let mut i: usize = 0;
    assert(held@.skip(0) =~= held@);
    while i < held.len()
        invariant
            i <= held@.len(),
            match held_at(held@.skip(i as int), *key) {
                Some(j) => held_at(held@, *key) == Some(j + i),
                None => held_at(held@, *key) is None,
            },
        decreases held.len() - i,
    {
        assert(held@.skip(i as int).skip(1) =~= held@.skip(i + 1));
        if same_key(&held[i], key) {
            return Some(i);
        }
        i = i + 1;
    }
    None
}

/// Whether a key toggles the settings window under some modifiers.
pub open spec fn toggles(key: PcKey, mods: u8) -> bool {
    key.scan == F12_SCAN && mods & (MOD_CTRL | MOD_ALT) == MOD_CTRL
}

impl Remote {
    /// No key is held twice.
    pub open spec fn wf(self) -> bool {
        forall|i: int, j: int|
            0 <= i < j < self.remote_held.len() ==> !one_key(
                #[trigger] self.remote_held[i],
                #[trigger] self.remote_held[j],
            )
    }

    /// After a remote key press, and what the machine sees of it.
    pub open spec fn pressed(self, key: PcKey, ascii: u8) -> (Remote, Seq<Applied>) {
        let mods = self.remote_mods | key.modifier;
        let after = Remote { remote_mods: mods, ..self };
        if toggles(key, mods) {
            (Remote { hotkey: true, ..after }, Seq::empty())
        } else if self.divert {
            (
                Remote {
                    ui_input: match window_key(key, ascii, mods) {
                        Some(k) => self.ui_input.push(UiInput::Key(k)),
                        None => self.ui_input,
                    },
                    ..after
                },
                Seq::empty(),
            )
        } else {
            (
                Remote {
                    remote_held: if holds(self.remote_held, key) {
                        self.remote_held
                    } else {
                        self.remote_held.push(key)
                    },
                    ..after
                },
                seq![Applied::Key { key, ascii, down: true }],
            )
        }
    }

    /// After a remote key release, and what the machine sees of it.
    pub open spec fn released(self, key: PcKey) -> (Remote, Seq<Applied>) {
        let after = Remote { remote_mods: self.remote_mods & !key.modifier, ..self };
        match held_at(self.remote_held, key) {
            Some(i) => (
                Remote { remote_held: self.remote_held.remove(i), ..after },
                seq![Applied::Key { key, ascii: 0, down: false }],
            ),
            None => (after, Seq::empty()),
        }
    }

    /// Without the first of the queue.
    pub open spec fn shifted(self) -> Remote {
        Remote { input: self.input.skip(1), ..self }
    }

    /// After the first of the queue, which is neither a key nor a wait, was
    /// applied: what the machine sees of it, and the room left for
    /// keystrokes.
    pub open spec fn applied(self, room: int, m: Moment) -> (Remote, Seq<Applied>, int) {
        let st = self.shifted();
        match self.input[0] {
            LowInput::Char(byte) => if !self.divert && room > 0 {
                (st, seq![Applied::Keystroke(byte as u16)], room - 1)
            } else {
                (st, Seq::empty(), room)
            },
            LowInput::MouseTo { x, y, coords } => if self.divert {
                (
                    if coords == Coords::Screen {
                        Remote { ui_pointer: (x, y), ..st }
                    } else {
                        st
                    },
                    Seq::empty(),
                    room,
                )
            } else if coords == Coords::Virtual {
                (st, seq![Applied::PointerAt(x, y)], room)
            } else {
                (
                    st,
                    seq![
                        Applied::PointerAt(
                            (clamped(x as int, m.frame.0 as int) * m.virtual_screen.0
                                / m.frame.0 as int) as i32,
                            (clamped(y as int, m.frame.1 as int) * m.virtual_screen.1
                                / m.frame.1 as int) as i32,
                        ),
                    ],
                    room,
                )
            },
            LowInput::MouseRel { dx, dy } => if self.divert {
                (st, Seq::empty(), room)
            } else {
                (st, seq![Applied::PointerBy(dx, dy)], room)
            },
            LowInput::Button { idx, down } => if self.divert {
                (
                    if idx == 0 && down {
                        Remote {
                            ui_input: st.ui_input.push(
                                UiInput::Click(st.ui_pointer.0, st.ui_pointer.1),
                            ),
                            ..st
                        }
                    } else {
                        st
                    },
                    Seq::empty(),
                    room,
                )
            } else {
                (st, seq![Applied::Button { idx, down }], room)
            },
            LowInput::Notify(id) => (st, seq![Applied::Delivered(id)], room),
            _ => (st, Seq::empty(), room),
        }
    }

    /// After the queue was fed in a frame: up to and with a wait or a key,
    /// where the keyboard controller has room, and what the machine sees.
    pub open spec fn fed(self, out: Seq<Applied>, room: int, m: Moment) -> (Remote, Seq<Applied>)
        decreases self.input.len(),
    {
        if self.input.len() == 0 {
            (self, out)
        } else {
            match self.input[0] {
                LowInput::KeyDown { .. } | LowInput::KeyUp { .. } => if !self.divert
                    && m.pending_keys > 0 && self.key_stall_frames < 2 {
                    (
                        Remote { key_stall_frames: (self.key_stall_frames + 1) as u32, ..self },
                        out,
                    )
                } else {
                    let st = Remote { key_stall_frames: 0, ..self.shifted() };
                    let (after, seen) = match self.input[0] {
                        LowInput::KeyDown { key, ascii } => st.pressed(key, ascii),
                        LowInput::KeyUp { key } => st.released(key),
                        _ => (st, Seq::empty()),
                    };
                    (after, out + seen)
                },
                LowInput::Wait(ms) => (
                    Remote {
                        wait_until: Some(
                            if m.now_ms + ms > u64::MAX {
                                u64::MAX
                            } else {
                                (m.now_ms + ms) as u64
                            },
                        ),
                        ..self.shifted()
                    },
                    out,
                ),
                _ => {
                    let (after, seen, left) = self.applied(room, m);
                    after.fed(out + seen, left, m)
                },
            }
        }
    }

    /// After a frame: nothing happens before a wait is over.
    pub open spec fn processed(self, m: Moment) -> (Remote, Seq<Applied>) {
        match self.wait_until {
            Some(t) if m.now_ms < t => (self, Seq::empty()),
            _ => (Remote { wait_until: None, ..self }).fed(
                Seq::empty(),
                m.buffer_room as int,
                m,
            ),
        }
    }
}

impl RemoteInput {
    pub fn new() -> (remote: Self)
        ensures
            remote@.wf(),
            remote@ == (Remote {
                input: Seq::empty(),
                wait_until: None,
                key_stall_frames: 0,
                divert: false,
                ui_input: Seq::empty(),
                ui_pointer: (0, 0),
                hotkey: false,
                remote_mods: 0,
                remote_held: Seq::empty(),
            }),
    {
        let remote = RemoteInput {
            input: Vec::new(),
            wait_until: None,
            key_stall_frames: 0,
            divert: false,
            ui_input: Vec::new(),
            ui_pointer: (0, 0),
            hotkey: false,
            remote_mods: 0,
            remote_held: Vec::new(),
        };
        assert(remote.input@ =~= Seq::empty());
        assert(remote.ui_input@ =~= Seq::empty());
        assert(remote.remote_held@ =~= Seq::empty());
        remote
    }

    /// A remote key press: to the settings window while it is open, else
    /// to the machine. Ctrl+F12 toggles the window, as on the keyboard.
    pub fn key_down(&mut self, key: PcKey, ascii: u8) -> (seen: Option<Applied>)
        requires
            old(self)@.wf(),
        ensures
            final(self)@.wf(),
            final(self)@ == old(self)@.pressed(key, ascii).0,
            old(self)@.pressed(key, ascii).1 == (match seen {
                Some(a) => seq![a],
                None => Seq::empty(),
            }),
    {
        self.remote_mods = self.remote_mods | key.modifier;
        if key.scan == F12_SCAN && self.remote_mods & (MOD_CTRL | MOD_ALT) == MOD_CTRL {
            self.hotkey = true;
            None
        } else if self.divert {
            if let Some(k) = ui_key(key, ascii, self.remote_mods) {
                self.ui_input.push(UiInput::Key(k));
            }
            None
        } else {
            if find_held(&self.remote_held, &key).is_none() {
                proof {
                    lemma_held(self.remote_held@, key);
                }
                let ghost held = self.remote_held@;
                self.remote_held.push(key);
                proof {
                    assert forall|i: int, j: int| 0 <= i < j < self.remote_held@.len() implies !one_key(
                        #[trigger] self.remote_held@[i],
                        #[trigger] self.remote_held@[j],
                    ) by {
                        assert(self.remote_held@[i] == held[i]);
                        if j < held.len() {
                            assert(self.remote_held@[j] == held[j]);
                            assert(!one_key(
                                old(self)@.remote_held[i],
                                old(self)@.remote_held[j],
                            ));
                        }
                    }
                }
            }
            Some(Applied::Key { key, ascii, down: true })
        }
    }

    /// A remote key release. Only keys the machine saw go down come up.
    pub fn key_up(&mut self, key: PcKey) -> (seen: Option<Applied>)
        requires
            old(self)@.wf(),
        ensures
            final(self)@.wf(),
            final(self)@ == old(self)@.released(key).0,
            old(self)@.released(key).1 == (match seen {
                Some(a) => seq![a],
                None => Seq::empty(),
            }),
    {
        self.remote_mods = self.remote_mods & !key.modifier;
        match find_held(&self.remote_held, &key) {
            Some(i) => {
                let ghost held = self.remote_held@;
                let _ = self.remote_held.remove(i);
                proof {
                    assert forall|a: int, b: int| 0 <= a < b < self.remote_held@.len() implies !one_key(
                        #[trigger] self.remote_held@[a],
                        #[trigger] self.remote_held@[b],
                    ) by {
                        let a0 = if a < i {
                            a
                        } else {
                            a + 1
                        };
                        let b0 = if b < i {
                            b
                        } else {
                            b + 1
                        };
                        assert(self.remote_held@[a] == held[a0]);
                        assert(self.remote_held@[b] == held[b0]);
                        assert(!one_key(old(self)@.remote_held[a0], old(self)@.remote_held[b0]));
                    }
                    assert(self@.wf());
                }
                Some(Applied::Key { key, ascii: 0, down: false })
            },
            None => {
                assert(self.remote_held@ == old(self)@.remote_held);
                assert(self@.wf());
                None
            },
        }
    }

    /// Release the keys the remote client holds on the machine, as the
    /// settings window opens and takes the keyboard.
    pub fn release_keys(&mut self) -> (seen: Vec<Applied>)
        ensures
            final(self)@ == (Remote { remote_held: Seq::empty(), ..old(self)@ }),
            seen@ == Seq::new(
                old(self)@.remote_held.len(),
                |i: int|
                    Applied::Key { key: old(self)@.remote_held[i], ascii: 0, down: false },
            ),
    {
        let ghost held = self.remote_held@;
        let mut seen: Vec<Applied> = Vec::new();
        let mut i: usize = 0;
        while i < self.remote_held.len()
            invariant
                i <= held.len(),
                held == self.remote_held@,
                self@ == old(self)@,
                seen@ == Seq::new(
                    i as nat,
                    |j: int| Applied::Key { key: held[j], ascii: 0, down: false },
                ),
            decreases self.remote_held.len() - i,
        {
            seen.push(Applied::Key { key: self.remote_held[i], ascii: 0, down: false });
            i = i + 1;
            assert(seen@ =~= Seq::new(
                i as nat,
                |j: int| Applied::Key { key: held[j], ascii: 0, down: false },
            ));
        }
        self.remote_held.clear();
        assert(self.remote_held@ =~= Seq::empty());
        seen
    }

    /// Remote input for the settings window since the last call.
    pub fn take_ui_input(&mut self) -> (taken: Vec<UiInput>)
        ensures
            taken@ == old(self)@.ui_input,
            final(self)@ == (Remote { ui_input: Seq::empty(), ..old(self)@ }),
    {
        let mut taken: Vec<UiInput> = Vec::new();
        taken.append(&mut self.ui_input);
        assert(taken@ =~= old(self)@.ui_input);
        assert(self.ui_input@ =~= Seq::empty());
        taken
    }

    /// Whether a remote Ctrl+F12 came in since the last call.
    pub fn take_hotkey(&mut self) -> (hotkey: bool)
        ensures
            hotkey == old(self)@.hotkey,
            final(self)@ == (Remote { hotkey: false, ..old(self)@ }),
    {
        let hotkey = self.hotkey;
        self.hotkey = false;
        hotkey
    }

    /// Add input to the queue.
    pub fn queue(&mut self, more: &Vec<LowInput>)
        ensures
            final(self)@ == (Remote { input: old(self)@.input + more@, ..old(self)@ }),
    {
        let mut i: usize = 0;
        assert(self.input@ =~= old(self)@.input + more@.take(0));
        while i < more.len()
            invariant
                i <= more@.len(),
                self@ == (Remote {
                    input: old(self)@.input + more@.take(i as int),
                    ..old(self)@
                }),
            decreases more.len() - i,
        {
            self.input.push(more[i]);
            i = i + 1;
            assert(self.input@ =~= old(self)@.input + more@.take(i as int));
        }
        assert(more@.take(i as int) =~= more@);
    }

    /// Apply the first of the queue, which is neither a key nor a wait.
    fn apply_first(&mut self, room: usize, m: Moment) -> (result: (Option<Applied>, usize))
        requires
            m.wf(),
            old(self)@.wf(),
            old(self)@.input.len() > 0,
            !(old(self)@.input[0] is KeyDown),
            !(old(self)@.input[0] is KeyUp),
            !(old(self)@.input[0] is Wait),
        ensures
            final(self)@.wf(),
            ({
                let (after, seen, left) = old(self)@.applied(room as int, m);
                &&& final(self)@ == after
                &&& result.1 == left
                &&& seen == (match result.0 {
                    Some(a) => seq![a],
                    None => Seq::empty(),
                })
            }),
    {
        let ev = self.input.remove(0);
        assert(self.input@ =~= old(self)@.input.skip(1));
        match ev {
            LowInput::Char(byte) => {
                if !self.divert && room > 0 {
                    (Some(Applied::Keystroke(byte as u16)), room - 1)
                } else {
                    (None, room)
                }
            },
            LowInput::MouseTo { x, y, coords } => {
                if self.divert {
                    if coords == Coords::Screen {
                        self.ui_pointer = (x, y);
                    }
                    (None, room)
                } else if coords == Coords::Virtual {
                    (Some(Applied::PointerAt(x, y)), room)
                } else {
                    let at = screen_to_virtual_mouse(x, y, m.frame, m.virtual_screen);
                    (Some(Applied::PointerAt(at.0, at.1)), room)
                }
            },
            LowInput::MouseRel { dx, dy } => {
                if self.divert {
                    (None, room)
                } else {
                    (Some(Applied::PointerBy(dx, dy)), room)
                }
            },
            LowInput::Button { idx, down } => {
                if self.divert {
                    if idx == 0 && down {
                        self.ui_input.push(UiInput::Click(self.ui_pointer.0, self.ui_pointer.1));
                    }
                    (None, room)
                } else {
                    (Some(Applied::Button { idx, down }), room)
                }
            },
            LowInput::Notify(id) => (Some(Applied::Delivered(id)), room),
            _ => (None, room),
        }
    }

    /// Feed queued input, once per frame: one scan code at most, and nothing
    /// behind a wait. The machine catches up with the keyboard controller's
    /// queue before more is added, but programs that never read the port
    /// don't stall it forever.
    pub fn process_input(&mut self, m: Moment) -> (seen: Vec<Applied>)
        requires
            m.wf(),
            old(self)@.wf(),
        ensures
            final(self)@.wf(),
            (final(self)@, seen@) == old(self)@.processed(m),
    {
        let mut seen: Vec<Applied> = Vec::new();
        assert(seen@ =~= Seq::empty());
        if let Some(t) = self.wait_until {
            if m.now_ms < t {
                return seen;
            }
        }
        self.wait_until = None;
        let mut room: usize = m.buffer_room;
        let ghost want = self@.fed(Seq::empty(), room as int, m);
        while self.input.len() > 0
            invariant
                m.wf(),
                self@.wf(),
                want == self@.fed(seen@, room as int, m),
                want == old(self)@.processed(m),
            decreases self.input.len(),
        {
            let ghost before = self@;
            let ev = self.input[0];
            match ev {
                LowInput::KeyDown { .. } | LowInput::KeyUp { .. } => {
                    if !self.divert && m.pending_keys > 0 && self.key_stall_frames < 2 {
                        self.key_stall_frames = self.key_stall_frames + 1;
                        return seen;
                    }
                    self.key_stall_frames = 0;
                    let _ = self.input.remove(0);
                    assert(self.input@ =~= before.input.skip(1));
                    let one = match ev {
                        LowInput::KeyDown { key, ascii } => self.key_down(key, ascii),
                        LowInput::KeyUp { key } => self.key_up(key),
                        _ => None,
                    };
                    let ghost had = seen@;
                    match one {
                        Some(a) => {
                            seen.push(a);
                            assert(seen@ =~= had + seq![a]);
                        },
                        None => {
                            assert(seen@ =~= had + Seq::<Applied>::empty());
                        },
                    }
                    // One scan code per frame.
                    return seen;
                },
                LowInput::Wait(ms) => {
                    let until: u64 = if ms > u64::MAX - m.now_ms {
                        u64::MAX
                    } else {
                        m.now_ms + ms
                    };
                    self.wait_until = Some(until);
                    let _ = self.input.remove(0);
                    assert(self.input@ =~= before.input.skip(1));
                    return seen;
                },
                _ => {
                    let ghost had = seen@;
                    let (one, left): (Option<Applied>, usize) = self.apply_first(room, m);
                    room = left;
                    match one {
                        Some(a) => {
                            seen.push(a);
                            assert(seen@ =~= had + seq![a]);
                        },
                        None => {
                            assert(seen@ =~= had + Seq::<Applied>::empty());
                        },
                    }
                },
            }
        }
        assert(self@.input.len() == 0);
        seen
    }

    /// Drop what is queued; the requests that waited for it are given back.
    pub fn clear_input(&mut self) -> (cancelled: Vec<u64>)
        ensures
            final(self)@ == (Remote { input: Seq::empty(), wait_until: None, ..old(self)@ }),
            cancelled@ == notified(old(self)@.input),
    {
        let mut cancelled: Vec<u64> = Vec::new();
        let mut i: usize = 0;
        assert(cancelled@ =~= notified(self.input@.take(0)));
        while i < self.input.len()
            invariant
                i <= self.input@.len(),
                self@ == old(self)@,
                cancelled@ == notified(self.input@.take(i as int)),
            decreases self.input.len() - i,
        {
            assert(self.input@.take(i + 1).drop_last() =~= self.input@.take(i as int));
            if let LowInput::Notify(id) = self.input[i] {
                cancelled.push(id);
            }
            i = i + 1;
        }
        assert(self.input@.take(i as int) =~= self.input@);
        self.input.clear();
        self.wait_until = None;
        assert(self.input@ =~= Seq::empty());
        cancelled
    }
}

/// The requests that wait for queued input.
pub open spec fn notified(input: Seq<LowInput>) -> Seq<u64>
    decreases input.len(),
{
    if input.len() == 0 {
        Seq::empty()
    } else {
        match input.last() {
            LowInput::Notify(id) => notified(input.drop_last()).push(id),
            _ => notified(input.drop_last()),
        }
    }
}

/// A key that the client presses and releases again is not held any more, and
/// the machine saw both; the other keys are held as before.
pub proof fn law_press_and_release(r: Remote, key: PcKey, ascii: u8)
    requires
        r.wf(),
        !r.divert,
        !toggles(key, r.remote_mods | key.modifier),
        !holds(r.remote_held, key),
    ensures
        ({
            let (down, first) = r.pressed(key, ascii);
            let (up, second) = down.released(key);
            &&& up.remote_held == r.remote_held
            &&& first == seq![Applied::Key { key, ascii, down: true }]
            &&& second == seq![Applied::Key { key, ascii: 0, down: false }]
        }),
{
    let held = r.remote_held.push(key);
    lemma_held(r.remote_held, key);
    lemma_held(held, key);
    assert(held[held.len() - 1] == key);
    let i = held_at(held, key)->0;
    if i < held.len() - 1 {
        assert(r.remote_held[i] == held[i]);
    }
    assert(held.remove(i) =~= r.remote_held);
}

/// Only a key that the machine saw go down comes up on it.
pub proof fn law_only_held_keys_come_up(r: Remote, key: PcKey)
    ensures
        r.released(key).1.len() > 0 <==> holds(r.remote_held, key),
{
}

/// At most one key goes to the machine in a frame.
pub proof fn law_one_key_a_frame(r: Remote, m: Moment)
    ensures
        keys_seen(r.processed(m).1) <= 1,
{
    match r.wait_until {
        Some(t) if m.now_ms < t => {},
        _ => {
            lemma_one_key(
                Remote { wait_until: None, ..r },
                Seq::empty(),
                m.buffer_room as int,
                m,
            );
        },
    }
}

/// How many keys went down or came up.
pub open spec fn keys_seen(seen: Seq<Applied>) -> int
    decreases seen.len(),
{
    if seen.len() == 0 {
        0
    } else {
        keys_seen(seen.drop_last()) + match seen.last() {
            Applied::Key { .. } => 1int,
            _ => 0int,
        }
    }
}

proof fn lemma_one_key(r: Remote, out: Seq<Applied>, room: int, m: Moment)
    requires
        keys_seen(out) == 0,
    ensures
        keys_seen(r.fed(out, room, m).1) <= 1,
    decreases r.input.len(),
{
    reveal_with_fuel(keys_seen, 2);
    if r.input.len() > 0 {
        match r.input[0] {
            LowInput::KeyDown { key, ascii } => {
                let st = Remote { key_stall_frames: 0, ..r.shifted() };
                let seen = st.pressed(key, ascii).1;
                assert(out + seen =~= out || (out + seen).drop_last() =~= out);
            },
            LowInput::KeyUp { key } => {
                let st = Remote { key_stall_frames: 0, ..r.shifted() };
                let seen = st.released(key).1;
                assert(out + seen =~= out || (out + seen).drop_last() =~= out);
            },
            LowInput::Wait(_) => {},
            _ => {
                let (after, seen, left) = r.applied(room, m);
                assert(out + seen =~= out || (out + seen).drop_last() =~= out);
                lemma_one_key(after, out + seen, left, m);
            },
        }
    }
}

} // verus!
