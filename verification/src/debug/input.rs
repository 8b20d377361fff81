//! Remote input: events as a client sends them, and the key presses, mouse
//! movements and waits that they come to.

use vstd::prelude::*;

use crate::text::{chars_of, same, texts};

verus! {

/// Shift, Ctrl and Alt bits, as at 40:17h.
pub const MOD_RSHIFT: u8 = 0x01;

pub const MOD_LSHIFT: u8 = 0x02;

pub const MOD_CTRL: u8 = 0x04;

pub const MOD_ALT: u8 = 0x08;

/// How long a key or button is held that no time is given for.
pub const DEFAULT_HOLD_MS: u64 = 50;

/// F12 in the key table: its make code.
pub const F12_SCAN: u8 = 0x58;

/// A key of the keyboard: its make code, the characters it types on a US
/// keyboard, and the bit of the modifier it is.
#[derive(Clone, Copy, Debug, PartialEq, Eq, Structural)]
pub struct PcKey {
    pub scan: u8,
    pub ascii: u8,
    pub shifted: u8,
    pub modifier: u8,
    pub extended: bool,
}

/// How a character of code page 437 is typed: on the keyboard layout in use
/// (the make code, and whether Shift and AltGr go with it), and on the US
/// keyboard (the key, and whether Shift goes with it).
#[derive(Clone, Copy, Debug)]
pub struct TypedChar {
    pub c: char,
    pub byte: u8,
    pub on_layout: Option<(u8, bool, bool)>,
    pub on_us: Option<(PcKey, bool)>,
}

/// The keys by their names, the names that are listed, and how characters
/// are typed.
#[derive(Debug)]
pub struct Keymap {
    pub names: Vec<(String, PcKey)>,
    pub listed: Vec<String>,
    pub chars: Vec<TypedChar>,
}

#[derive(Clone, Copy, Debug, PartialEq, Eq, Structural)]
pub enum KeyAction {
    Press,
    Down,
    Up,
}

#[derive(Clone, Copy, Debug, PartialEq, Eq, Structural)]
pub enum MouseAction {
    Move,
    Down,
    Up,
    Click,
}

/// Coordinate system for mouse positions. `Screen` = pixels of the
/// screenshot; `Virtual` = the INT 33h driver's own coordinates.
#[derive(Clone, Copy, Debug, PartialEq, Eq, Structural)]
pub enum Coords {
    Screen,
    Virtual,
}

/// An input event as a client sends it.
#[derive(Debug)]
pub enum InputEvent {
    Key {
        key: Option<String>,
        scancode: Option<u8>,
        ascii: Option<u8>,
        action: KeyAction,
        mods: Vec<String>,
        hold_ms: Option<u64>,
    },
    Type { text: String, delay_ms: Option<u64> },
    Mouse {
        action: MouseAction,
        x: Option<i32>,
        y: Option<i32>,
        dx: Option<i32>,
        dy: Option<i32>,
        button: Option<String>,
        coords: Coords,
        hold_ms: Option<u64>,
    },
    Wait { ms: u64 },
}

/// Low-level queued input, applied by the main loop at frame boundaries.
#[derive(Clone, Copy, Debug, PartialEq, Eq, Structural)]
pub enum LowInput {
    KeyDown { key: PcKey, ascii: u8 },
    /// A character no key types, as Alt and the keypad type it.
    Char(u8),
    KeyUp { key: PcKey },
    MouseTo { x: i32, y: i32, coords: Coords },
    MouseRel { dx: i32, dy: i32 },
    Button { idx: usize, down: bool },
    /// Milliseconds before what follows.
    Wait(u64),
    /// Answer the request of this number.
    Notify(u64),
}

/// A key of the settings window.
#[derive(Clone, Copy, Debug, PartialEq, Eq, Structural)]
pub enum UiKey {
    Up,
    Down,
    Left,
    Right,
    PageUp,
    PageDown,
    Home,
    End,
    Enter,
    Esc,
    Tab,
    BackTab,
    Backspace,
    Delete,
    Insert,
    Save,
    Char(char),
}

/// Remote input for the settings window while it is open.
#[derive(Clone, Copy, Debug, PartialEq, Eq, Structural)]
pub enum UiInput {
    Key(UiKey),
    /// A left click at a screenshot (frame) pixel.
    Click(i32, i32),
}

/// What an event comes to, and what is wrong with it after that.
pub type Expansion = (Seq<LowInput>, Option<Seq<char>>);

/// The first key of a name.
pub open spec fn key_named(names: Seq<(String, PcKey)>, name: Seq<char>) -> Option<PcKey>
    decreases names.len(),
{
    if names.len() == 0 {
        None
    } else if names[0].0@ == name {
        Some(names[0].1)
    } else {
        key_named(names.skip(1), name)
    }
}

/// How a character is typed, if code page 437 has it.
pub open spec fn typed_as(chars: Seq<TypedChar>, c: char) -> Option<TypedChar>
    decreases chars.len(),
{
    if chars.len() == 0 {
        None
    } else if chars[0].c == c {
        Some(chars[0])
    } else {
        typed_as(chars.skip(1), c)
    }
}

impl Keymap {
    /// The keys that typing needs by name are there.
    pub open spec fn wf(&self) -> bool {
        &&& key_named(self.names@, "enter"@) is Some
        &&& key_named(self.names@, "tab"@) is Some
        &&& key_named(self.names@, "backspace"@) is Some
        &&& key_named(self.names@, "escape"@) is Some
        &&& key_named(self.names@, "lshift"@) is Some
        &&& key_named(self.names@, "ralt"@) is Some
    }

    /// The key of a name.
    pub fn lookup(&self, name: &str) -> (key: Option<PcKey>)
        ensures
            key == key_named(self.names@, name@),
    {
        let mut i: usize = 0;
        assert(self.names@.skip(0) =~= self.names@);
        while i < self.names.len()
            invariant
                i <= self.names@.len(),
                key_named(self.names@, name@) == key_named(self.names@.skip(i as int), name@),
            decreases self.names.len() - i,
        {
            assert(self.names@.skip(i as int).skip(1) =~= self.names@.skip(i + 1));
            if same(self.names[i].0.as_str(), name) {
                return Some(self.names[i].1);
            }
            i = i + 1;
        }
        None
    }

    /// How a character is typed, if code page 437 has it.
    pub fn typed(&self, c: char) -> (typed: Option<TypedChar>)
        ensures
            typed == typed_as(self.chars@, c),
    {
        let mut i: usize = 0;
        assert(self.chars@.skip(0) =~= self.chars@);
        while i < self.chars.len()
            invariant
                i <= self.chars@.len(),
                typed_as(self.chars@, c) == typed_as(self.chars@.skip(i as int), c),
            decreases self.chars.len() - i,
        {
            assert(self.chars@.skip(i as int).skip(1) =~= self.chars@.skip(i + 1));
            if self.chars[i].c == c {
                return Some(self.chars[i]);
            }
            i = i + 1;
        }
        None
    }
}

/// The key of a modifier, or what is wrong with its name.
pub open spec fn modifier_named(names: Seq<(String, PcKey)>, name: Seq<char>) -> Result<
    PcKey,
    Seq<char>,
> {
    match key_named(names, name) {
        Some(k) if k.modifier != 0 => Ok(k),
        _ => Err("unknown modifier '"@ + name + "' (use shift, ctrl, alt)"@),
    }
}

/// The key of a modifier.
pub fn modifier_key(map: &Keymap, name: &str) -> (key: Result<PcKey, String>)
    ensures
        match (key, modifier_named(map.names@, name@)) {
            (Ok(a), Ok(b)) => a == b,
            (Err(e), Err(m)) => e@ == m,
            _ => false,
        },
{
    match map.lookup(name) {
        Some(k) if k.modifier != 0 => Ok(k),
        _ => {
            let mut message = String::from_str("unknown modifier '");
            message.append(name);
            message.append("' (use shift, ctrl, alt)");
            Err(message)
        },
    }
}

/// The ASCII byte a key produces under the given modifier bits.
pub open spec fn ascii_under(key: PcKey, mods: u8) -> u8 {
    if mods & MOD_ALT != 0 {
        0
    } else if mods & MOD_CTRL != 0 {
        if 0x41 <= key.ascii <= 0x5A || 0x61 <= key.ascii <= 0x7A {
            key.ascii & 0x1F
        } else {
            key.ascii
        }
    } else if mods & (MOD_LSHIFT | MOD_RSHIFT) != 0 {
        key.shifted
    } else {
        key.ascii
    }
}

/// Compute the ASCII byte a key produces under the given BDA modifier bits.
pub fn ascii_for(key: PcKey, mods: u8) -> (ascii: u8)
    ensures
        ascii == ascii_under(key, mods),
{
    if mods & MOD_ALT != 0 {
        return 0;
    }
    if mods & MOD_CTRL != 0 {
        let letter = (0x41 <= key.ascii && key.ascii <= 0x5A) || (0x61 <= key.ascii && key.ascii
            <= 0x7A);
        return if letter {
            key.ascii & 0x1F
        } else {
            key.ascii
        };
    }
    if mods & (MOD_LSHIFT | MOD_RSHIFT) != 0 {
        key.shifted
    } else {
        key.ascii
    }
}

/// Keys going down one after the other, typing nothing.
pub open spec fn downs(keys: Seq<PcKey>) -> Seq<LowInput> {
    Seq::new(keys.len(), |i: int| LowInput::KeyDown { key: keys[i], ascii: 0 })
}

/// Keys coming up, the last first.
pub open spec fn ups(keys: Seq<PcKey>) -> Seq<LowInput> {
    Seq::new(keys.len(), |i: int| LowInput::KeyUp { key: keys[keys.len() - 1 - i] })
}

fn push_downs(out: &mut Vec<LowInput>, keys: &Vec<PcKey>)
    ensures
        final(out)@ == old(out)@ + downs(keys@),
{
    let mut i: usize = 0;
    assert(out@ =~= old(out)@ + downs(keys@).take(0));
    while i < keys.len()
        invariant
            i <= keys@.len(),
            out@ == old(out)@ + downs(keys@).take(i as int),
        decreases keys.len() - i,
    {
        out.push(LowInput::KeyDown { key: keys[i], ascii: 0 });
        i = i + 1;
        assert(out@ =~= old(out)@ + downs(keys@).take(i as int));
    }
    assert(downs(keys@).take(i as int) =~= downs(keys@));
}

fn push_ups(out: &mut Vec<LowInput>, keys: &Vec<PcKey>)
    ensures
        final(out)@ == old(out)@ + ups(keys@),
{
    let mut i: usize = 0;
    assert(out@ =~= old(out)@ + ups(keys@).take(0));
    while i < keys.len()
        invariant
            i <= keys@.len(),
            out@ == old(out)@ + ups(keys@).take(i as int),
        decreases keys.len() - i,
    {
        out.push(LowInput::KeyUp { key: keys[keys.len() - 1 - i] });
        i = i + 1;
        assert(out@ =~= old(out)@ + ups(keys@).take(i as int));
    }
    assert(ups(keys@).take(i as int) =~= ups(keys@));
}

/// The key that a control character stands for.
pub open spec fn control_key(c: char) -> Option<Seq<char>> {
    if c == '\n' || c == '\r' {
        Some("enter"@)
    } else if c == '\t' {
        Some("tab"@)
    } else if c as u32 == 8 {
        Some("backspace"@)
    } else if c as u32 == 0x1B {
        Some("escape"@)
    } else {
        None
    }
}

/// A character as std's `Debug` writes it, between single quotes.
pub uninterp spec fn quoted(c: char) -> Seq<char>;

/// `Debug` of `char` in std: the character between single quotes, escaped
/// where it cannot be shown. It depends on the character alone; how which
/// character is written is left to the name.
#[verifier::external_body]
fn quote(c: char) -> (text: String)
    ensures
        text@ == quoted(c),
{
    format!("{:?}", c)
}

/// The keys held while another is typed.
pub open spec fn held_keys(map: Keymap, shift: bool, altgr: bool) -> Seq<PcKey> {
    (if shift {
        seq![key_named(map.names@, "lshift"@)->0]
    } else {
        Seq::empty()
    }) + (if altgr {
        seq![key_named(map.names@, "ralt"@)->0]
    } else {
        Seq::empty()
    })
}

/// A key typed with others held.
pub open spec fn stroke(held: Seq<PcKey>, key: PcKey, ascii: u8) -> Seq<LowInput> {
    downs(held).push(LowInput::KeyDown { key, ascii }).push(LowInput::KeyUp { key }) + ups(held)
}

/// The keys that type a character, or why none do.
pub open spec fn char_keys(map: Keymap, c: char) -> Expansion {
    match control_key(c) {
        Some(name) => (stroke(Seq::empty(), key_named(map.names@, name)->0, 0), None),
        None => match typed_as(map.chars@, c) {
            None => (Seq::empty(), Some("cannot type character "@ + quoted(c))),
            Some(t) => match t.on_layout {
                Some((scan, shift, altgr)) => (
                    stroke(
                        held_keys(map, shift, altgr),
                        PcKey { scan, ascii: t.byte, shifted: t.byte, modifier: 0, extended: false },
                        t.byte,
                    ),
                    None,
                ),
                None => match t.on_us {
                    Some((key, shift)) => (
                        stroke(
                            held_keys(map, shift, false),
                            key,
                            if shift {
                                key.shifted
                            } else {
                                key.ascii
                            },
                        ),
                        None,
                    ),
                    None => (seq![LowInput::Char(t.byte)], None),
                },
            },
        },
    }
}

/// Whether what came out of an event is what it comes to.
pub open spec fn expanded(
    before: Seq<LowInput>,
    after: Seq<LowInput>,
    result: Result<(), String>,
    want: Expansion,
) -> bool {
    &&& after == before + want.0
    &&& match (result, want.1) {
        (Ok(_), None) => true,
        (Err(e), Some(m)) => e@ == m,
        _ => false,
    }
}

fn push_stroke(out: &mut Vec<LowInput>, held: &Vec<PcKey>, key: PcKey, ascii: u8)
    ensures
        final(out)@ == old(out)@ + stroke(held@, key, ascii),
{
    push_downs(out, held);
    out.push(LowInput::KeyDown { key, ascii });
    out.push(LowInput::KeyUp { key });
    push_ups(out, held);
    assert(out@ =~= old(out)@ + stroke(held@, key, ascii));
}

fn hold(map: &Keymap, shift: bool, altgr: bool) -> (held: Vec<PcKey>)
    requires
        map.wf(),
    ensures
        held@ == held_keys(*map, shift, altgr),
{
    let mut held: Vec<PcKey> = Vec::new();
    if shift {
        held.push(map.lookup("lshift").unwrap());
    }
    if altgr {
        held.push(map.lookup("ralt").unwrap());
    }
    assert(held@ =~= held_keys(*map, shift, altgr));
    held
}

/// The keys that type `c` in the layout: its key with Shift and AltGr as it
/// needs them. A character the layout has on no key (or only as a dead key's
/// accent) is typed as the US keyboard types it, or else as Alt and the
/// keypad type any.
pub fn keys_for_char(c: char, map: &Keymap, out: &mut Vec<LowInput>) -> (result: Result<
    (),
    String,
>)
    requires
        map.wf(),
    ensures
        expanded(old(out)@, final(out)@, result, char_keys(*map, c)),
{
    let special = if c == '\n' || c == '\r' {
        Some("enter")
    } else if c == '\t' {
        Some("tab")
    } else if c as u32 == 8 {
        Some("backspace")
    } else if c as u32 == 0x1B {
        Some("escape")
    } else {
        None
    };
    if let Some(name) = special {
        let key = map.lookup(name).unwrap();
        push_stroke(out, &Vec::new(), key, 0);
        return Ok(());
    }
    let t = match map.typed(c) {
        Some(t) => t,
        None => {
            let mut message = String::from_str("cannot type character ");
            message.append(quote(c).as_str());
            assert(out@ =~= old(out)@ + Seq::<LowInput>::empty());
            return Err(message);
        },
    };
    if let Some((scan, shift, altgr)) = t.on_layout {
        let held = hold(map, shift, altgr);
        let key = PcKey { scan, ascii: t.byte, shifted: t.byte, modifier: 0, extended: false };
        push_stroke(out, &held, key, t.byte);
    } else if let Some((key, shift)) = t.on_us {
        let held = hold(map, shift, false);
        push_stroke(
            out,
            &held,
            key,
            if shift {
                key.shifted
            } else {
                key.ascii
            },
        );
    } else {
        out.push(LowInput::Char(t.byte));
        assert(out@ =~= old(out)@ + seq![LowInput::Char(t.byte)]);
    }
    Ok(())
}

/// The keys of some modifiers, or what is wrong with the first bad name.
pub open spec fn modifiers_named(names: Seq<(String, PcKey)>, mods: Seq<Seq<char>>) -> Result<
    Seq<PcKey>,
    Seq<char>,
>
    decreases mods.len(),
{
    if mods.len() == 0 {
        Ok(Seq::empty())
    } else {
        match modifiers_named(names, mods.drop_last()) {
            Err(m) => Err(m),
            Ok(keys) => match modifier_named(names, mods.last()) {
                Err(m) => Err(m),
                Ok(k) => Ok(keys.push(k)),
            },
        }
    }
}

proof fn lemma_bad_modifier(names: Seq<(String, PcKey)>, mods: Seq<Seq<char>>, n: int)
    requires
        0 <= n <= mods.len(),
        modifiers_named(names, mods.take(n)) is Err,
    ensures
        modifiers_named(names, mods) == modifiers_named(names, mods.take(n)),
    decreases mods.len(),
{
    if n < mods.len() {
        assert(mods.drop_last().take(n) =~= mods.take(n));
        lemma_bad_modifier(names, mods.drop_last(), n);
    } else {
        assert(mods.take(n) =~= mods);
    }
}

fn modifier_keys(map: &Keymap, mods: &Vec<String>) -> (keys: Result<Vec<PcKey>, String>)
    ensures
        match (keys, modifiers_named(map.names@, texts(mods@))) {
            (Ok(a), Ok(b)) => a@ == b,
            (Err(e), Err(m)) => e@ == m,
            _ => false,
        },
{
    let ghost all = texts(mods@);
    let mut keys: Vec<PcKey> = Vec::new();
    let mut i: usize = 0;
    assert(all.take(0) =~= Seq::empty());
    assert(keys@ =~= Seq::empty());
    while i < mods.len()
        invariant
            i <= mods@.len(),
            all == texts(mods@),
            modifiers_named(map.names@, all.take(i as int)) == Ok::<Seq<PcKey>, Seq<char>>(keys@),
        decreases mods.len() - i,
    {
        assert(all.take(i + 1).drop_last() =~= all.take(i as int));
        assert(all.take(i + 1).last() == mods@[i as int]@);
        match modifier_key(map, mods[i].as_str()) {
            Ok(k) => keys.push(k),
            Err(e) => {
                proof {
                    lemma_bad_modifier(map.names@, all, i + 1);
                }
                return Err(e);
            },
        }
        i = i + 1;
    }
    assert(all.take(i as int) =~= all);
    Ok(keys)
}

/// The bits of some modifiers.
pub open spec fn modifier_bits(keys: Seq<PcKey>) -> u8
    decreases keys.len(),
{
    if keys.len() == 0 {
        0
    } else {
        modifier_bits(keys.drop_last()) | keys.last().modifier
    }
}

fn bits_of(keys: &Vec<PcKey>) -> (bits: u8)
    ensures
        bits == modifier_bits(keys@),
{
    let mut bits: u8 = 0;
    let mut i: usize = 0;
    while i < keys.len()
        invariant
            i <= keys@.len(),
            bits == modifier_bits(keys@.take(i as int)),
        decreases keys.len() - i,
    {
        assert(keys@.take(i + 1).drop_last() =~= keys@.take(i as int));
        bits = bits | keys[i].modifier;
        i = i + 1;
    }
    assert(keys@.take(i as int) =~= keys@);
    bits
}

/// Texts with commas and spaces between them.
pub open spec fn listed(parts: Seq<Seq<char>>) -> Seq<char>
    decreases parts.len(),
{
    if parts.len() == 0 {
        Seq::empty()
    } else if parts.len() == 1 {
        parts[0]
    } else {
        listed(parts.drop_last()) + ", "@ + parts.last()
    }
}

fn push_listed(out: &mut String, parts: &Vec<String>)
    ensures
        final(out)@ == old(out)@ + listed(texts(parts@)),
{
    let ghost all = texts(parts@);
    let mut i: usize = 0;
    assert(out@ =~= old(out)@ + listed(all.take(0)));
    while i < parts.len()
        invariant
            i <= parts@.len(),
            all == texts(parts@),
            out@ == old(out)@ + listed(all.take(i as int)),
        decreases parts.len() - i,
    {
        assert(all.take(i + 1).drop_last() =~= all.take(i as int));
        if i > 0 {
            out.append(", ");
        }
        out.append(parts[i].as_str());
        i = i + 1;
        assert(out@ =~= old(out)@ + listed(all.take(i as int)));
    }
    assert(all.take(i as int) =~= all);
}

/// The key of a key event, or what is wrong with it.
pub open spec fn event_key(
    map: Keymap,
    key: Option<String>,
    scancode: Option<u8>,
    ascii: Option<u8>,
) -> Result<PcKey, Seq<char>> {
    match (key, scancode) {
        (Some(name), _) => match key_named(map.names@, name@) {
            Some(k) => Ok(k),
            None => Err(
                "unknown key '"@ + name@ + "'; valid keys: "@ + listed(texts(map.listed@)),
            ),
        },
        (None, Some(scan)) => {
            let a = match ascii {
                Some(a) => a,
                None => 0,
            };
            Ok(PcKey { scan, ascii: a, shifted: a, modifier: 0, extended: false })
        },
        (None, None) => Err("key event needs 'key' or 'scancode'"@),
    }
}

/// How long something is held.
pub open spec fn held_for(hold_ms: Option<u64>) -> u64 {
    match hold_ms {
        Some(ms) => ms,
        None => DEFAULT_HOLD_MS,
    }
}

/// What a key event comes to, with its modifiers.
pub open spec fn key_strokes(
    mods: Seq<PcKey>,
    key: PcKey,
    ascii: u8,
    action: KeyAction,
    hold_ms: Option<u64>,
) -> Seq<LowInput> {
    let down = downs(mods).push(LowInput::KeyDown { key, ascii });
    let up = seq![LowInput::KeyUp { key }] + ups(mods);
    match action {
        KeyAction::Down => down,
        KeyAction::Press => down.push(LowInput::Wait(held_for(hold_ms))) + up,
        KeyAction::Up => up,
    }
}

/// What a key event comes to.
pub open spec fn key_event(
    map: Keymap,
    key: Option<String>,
    scancode: Option<u8>,
    ascii: Option<u8>,
    action: KeyAction,
    mods: Seq<String>,
    hold_ms: Option<u64>,
) -> Expansion {
    match modifiers_named(map.names@, texts(mods)) {
        Err(m) => (Seq::empty(), Some(m)),
        Ok(keys) => match event_key(map, key, scancode, ascii) {
            Err(m) => (Seq::empty(), Some(m)),
            Ok(k) => (
                key_strokes(
                    keys,
                    k,
                    match (ascii, key) {
                        (Some(a), Some(_)) => a,
                        _ => ascii_under(k, modifier_bits(keys)),
                    },
                    action,
                    hold_ms,
                ),
                None,
            ),
        },
    }
}

fn hold_time(hold_ms: Option<u64>) -> (ms: u64)
    ensures
        ms == held_for(hold_ms),
{
    match hold_ms {
        Some(ms) => ms,
        None => DEFAULT_HOLD_MS,
    }
}

fn key_of_event(
    map: &Keymap,
    key: &Option<String>,
    scancode: Option<u8>,
    ascii: Option<u8>,
) -> (found: Result<PcKey, String>)
    ensures
        match (found, event_key(*map, *key, scancode, ascii)) {
            (Ok(a), Ok(b)) => a == b,
            (Err(e), Err(m)) => e@ == m,
            _ => false,
        },
{
    match key {
        Some(name) => match map.lookup(name.as_str()) {
            Some(k) => Ok(k),
            None => {
                let mut message = String::from_str("unknown key '");
                message.append(name.as_str());
                message.append("'; valid keys: ");
                push_listed(&mut message, &map.listed);
                Err(message)
            },
        },
        None => match scancode {
            Some(scan) => {
                let a: u8 = match ascii {
                    Some(a) => a,
                    None => 0,
                };
                Ok(PcKey { scan, ascii: a, shifted: a, modifier: 0, extended: false })
            },
            None => Err(String::from_str("key event needs 'key' or 'scancode'")),
        },
    }
}

fn expand_key(
    map: &Keymap,
    key: &Option<String>,
    scancode: Option<u8>,
    ascii: Option<u8>,
    action: KeyAction,
    mods: &Vec<String>,
    hold_ms: Option<u64>,
    out: &mut Vec<LowInput>,
) -> (result: Result<(), String>)
    ensures
        expanded(
            old(out)@,
            final(out)@,
            result,
            key_event(*map, *key, scancode, ascii, action, mods@, hold_ms),
        ),
{
    assert(out@ =~= old(out)@ + Seq::<LowInput>::empty());
    let keys = match modifier_keys(map, mods) {
        Ok(keys) => keys,
        Err(e) => {
            return Err(e);
        },
    };
    let pc = match key_of_event(map, key, scancode, ascii) {
        Ok(k) => k,
        Err(e) => {
            return Err(e);
        },
    };
    let bits: u8 = bits_of(&keys);
    let ch: u8 = match (ascii, key) {
        (Some(a), Some(_)) => a,
        _ => ascii_for(pc, bits),
    };
    if action == KeyAction::Press || action == KeyAction::Down {
        push_downs(out, &keys);
        out.push(LowInput::KeyDown { key: pc, ascii: ch });
    }
    if action == KeyAction::Press {
        out.push(LowInput::Wait(hold_time(hold_ms)));
    }
    if action == KeyAction::Press || action == KeyAction::Up {
        out.push(LowInput::KeyUp { key: pc });
        push_ups(out, &keys);
    }
    assert(out@ =~= old(out)@ + key_strokes(keys@, pc, ch, action, hold_ms));
    Ok(())
}

/// What typing a text comes to: up to the first character that cannot be
/// typed.
pub open spec fn text_keys(map: Keymap, text: Seq<char>, delay_ms: Option<u64>) -> Expansion
    decreases text.len(),
{
    if text.len() == 0 {
        (Seq::empty(), None)
    } else {
        let before = text_keys(map, text.drop_last(), delay_ms);
        if before.1 is Some {
            before
        } else {
            let typed = char_keys(map, text.last());
            if typed.1 is Some {
                (before.0 + typed.0, typed.1)
            } else {
                (before.0 + typed.0 + pause_after(delay_ms), None)
            }
        }
    }
}

/// What follows a typed character.
pub open spec fn pause_after(delay_ms: Option<u64>) -> Seq<LowInput> {
    match delay_ms {
        Some(ms) if ms > 0 => seq![LowInput::Wait(ms)],
        _ => Seq::empty(),
    }
}

proof fn lemma_text_stops(map: Keymap, text: Seq<char>, delay_ms: Option<u64>, n: int)
    requires
        0 <= n <= text.len(),
        text_keys(map, text.take(n), delay_ms).1 is Some,
    ensures
        text_keys(map, text, delay_ms) == text_keys(map, text.take(n), delay_ms),
    decreases text.len(),
{
    if n < text.len() {
        assert(text.drop_last().take(n) =~= text.take(n));
        lemma_text_stops(map, text.drop_last(), delay_ms, n);
    } else {
        assert(text.take(n) =~= text);
    }
}

fn expand_text(map: &Keymap, text: &str, delay_ms: Option<u64>, out: &mut Vec<LowInput>) -> (result:
    Result<(), String>)
    requires
        map.wf(),
    ensures
        expanded(old(out)@, final(out)@, result, text_keys(*map, text@, delay_ms)),
{
    let chars = chars_of(text);
    let mut i: usize = 0;
    assert(out@ =~= old(out)@ + text_keys(*map, chars@.take(0), delay_ms).0);
    while i < chars.len()
        invariant
            map.wf(),
            i <= chars@.len(),
            chars@ == text@,
            text_keys(*map, chars@.take(i as int), delay_ms).1 is None,
            out@ == old(out)@ + text_keys(*map, chars@.take(i as int), delay_ms).0,
        decreases chars.len() - i,
    {
        assert(chars@.take(i + 1).drop_last() =~= chars@.take(i as int));
        if let Err(e) = keys_for_char(chars[i], map, out) {
            proof {
                lemma_text_stops(*map, chars@, delay_ms, i + 1);
                assert(out@ =~= old(out)@ + text_keys(*map, chars@, delay_ms).0);
            }
            return Err(e);
        }
        if let Some(ms) = delay_ms {
            if ms > 0 {
                out.push(LowInput::Wait(ms));
            }
        }
        i = i + 1;
        assert(out@ =~= old(out)@ + text_keys(*map, chars@.take(i as int), delay_ms).0);
    }
    assert(chars@.take(i as int) =~= text@);
    Ok(())
}

/// The number of a mouse button.
pub open spec fn button_named(name: Seq<char>) -> Option<usize> {
    if name == "left"@ || name == "l"@ || name == "0"@ {
        Some(0)
    } else if name == "right"@ || name == "r"@ || name == "1"@ {
        Some(1)
    } else if name == "middle"@ || name == "m"@ || name == "2"@ {
        Some(2)
    } else {
        None
    }
}

fn button_number(name: &str) -> (idx: Option<usize>)
    ensures
        idx == button_named(name@),
{
    if same(name, "left") || same(name, "l") || same(name, "0") {
        Some(0)
    } else if same(name, "right") || same(name, "r") || same(name, "1") {
        Some(1)
    } else if same(name, "middle") || same(name, "m") || same(name, "2") {
        Some(2)
    } else {
        None
    }
}

/// Where a mouse event moves the pointer.
pub open spec fn pointer_moves(
    x: Option<i32>,
    y: Option<i32>,
    dx: Option<i32>,
    dy: Option<i32>,
    coords: Coords,
) -> Seq<LowInput> {
    (match (x, y) {
        (Some(x), Some(y)) => seq![LowInput::MouseTo { x, y, coords }],
        _ => Seq::empty(),
    }) + (if dx is Some || dy is Some {
        seq![
            LowInput::MouseRel {
                dx: if dx is Some {
                    dx->0
                } else {
                    0
                },
                dy: if dy is Some {
                    dy->0
                } else {
                    0
                },
            },
        ]
    } else {
        Seq::empty()
    })
}

/// What a button does in a mouse event.
pub open spec fn button_moves(idx: usize, action: MouseAction, hold_ms: Option<u64>) -> Seq<
    LowInput,
> {
    match action {
        MouseAction::Move => Seq::empty(),
        MouseAction::Down => seq![LowInput::Button { idx, down: true }],
        MouseAction::Up => seq![LowInput::Button { idx, down: false }],
        MouseAction::Click => seq![
            LowInput::Button { idx, down: true },
            LowInput::Wait(held_for(hold_ms)),
            LowInput::Button { idx, down: false },
        ],
    }
}

/// What a mouse event comes to.
pub open spec fn mouse_event(
    action: MouseAction,
    x: Option<i32>,
    y: Option<i32>,
    dx: Option<i32>,
    dy: Option<i32>,
    button: Seq<char>,
    coords: Coords,
    hold_ms: Option<u64>,
) -> Expansion {
    if x is Some != y is Some {
        (Seq::empty(), Some("mouse event needs both x and y"@))
    } else {
        let moves = pointer_moves(x, y, dx, dy, coords);
        match button_named(button) {
            None => (moves, Some("unknown mouse button '"@ + button + "'"@)),
            Some(idx) => (moves + button_moves(idx, action, hold_ms), None),
        }
    }
}

fn expand_mouse(
    action: MouseAction,
    x: Option<i32>,
    y: Option<i32>,
    dx: Option<i32>,
    dy: Option<i32>,
    button: &str,
    coords: Coords,
    hold_ms: Option<u64>,
    out: &mut Vec<LowInput>,
) -> (result: Result<(), String>)
    ensures
        expanded(
            old(out)@,
            final(out)@,
            result,
            mouse_event(action, x, y, dx, dy, button@, coords, hold_ms),
        ),
{
    assert(out@ =~= old(out)@ + Seq::<LowInput>::empty());
    match (x, y) {
        (Some(x), Some(y)) => out.push(LowInput::MouseTo { x, y, coords }),
        (None, None) => {},
        _ => {
            return Err(String::from_str("mouse event needs both x and y"));
        },
    }
    if dx.is_some() || dy.is_some() {
        let dx: i32 = match dx {
            Some(d) => d,
            None => 0,
        };
        let dy: i32 = match dy {
            Some(d) => d,
            None => 0,
        };
        out.push(LowInput::MouseRel { dx, dy });
    }
    assert(out@ =~= old(out)@ + pointer_moves(x, y, dx, dy, coords));
    let idx: usize = match button_number(button) {
        Some(idx) => idx,
        None => {
            let mut message = String::from_str("unknown mouse button '");
            message.append(button);
            message.append("'");
            return Err(message);
        },
    };
    match action {
        MouseAction::Move => {},
        MouseAction::Down => out.push(LowInput::Button { idx, down: true }),
        MouseAction::Up => out.push(LowInput::Button { idx, down: false }),
        MouseAction::Click => {
            out.push(LowInput::Button { idx, down: true });
            out.push(LowInput::Wait(hold_time(hold_ms)));
            out.push(LowInput::Button { idx, down: false });
        },
    }
    assert(out@ =~= old(out)@ + (pointer_moves(x, y, dx, dy, coords) + button_moves(
        idx,
        action,
        hold_ms,
    )));
    Ok(())
}

/// The button of a mouse event.
pub open spec fn event_button(button: Option<String>) -> Seq<char> {
    match button {
        Some(name) => name@,
        None => "left"@,
    }
}

/// What an event comes to.
pub open spec fn event_input(map: Keymap, ev: InputEvent) -> Expansion {
    match ev {
        InputEvent::Key { key, scancode, ascii, action, mods, hold_ms } => key_event(
            map,
            key,
            scancode,
            ascii,
            action,
            mods@,
            hold_ms,
        ),
        InputEvent::Type { text, delay_ms } => text_keys(map, text@, delay_ms),
        InputEvent::Mouse { action, x, y, dx, dy, button, coords, hold_ms } => mouse_event(
            action,
            x,
            y,
            dx,
            dy,
            event_button(button),
            coords,
            hold_ms,
        ),
        InputEvent::Wait { ms } => (seq![LowInput::Wait(ms)], None),
    }
}

/// Append what an event comes to. What came before something wrong in it is
/// appended too.
pub fn expand_input(ev: &InputEvent, map: &Keymap, out: &mut Vec<LowInput>) -> (result: Result<
    (),
    String,
>)
    requires
        map.wf(),
    ensures
        expanded(old(out)@, final(out)@, result, event_input(*map, *ev)),
{
    match ev {
        InputEvent::Key { key, scancode, ascii, action, mods, hold_ms } => expand_key(
            map,
            key,
            *scancode,
            *ascii,
            *action,
            mods,
            *hold_ms,
            out,
        ),
        InputEvent::Type { text, delay_ms } => expand_text(map, text.as_str(), *delay_ms, out),
        InputEvent::Mouse { action, x, y, dx, dy, button, coords, hold_ms } => {
            let name = match button {
                Some(name) => name.as_str(),
                None => "left",
            };
            expand_mouse(*action, *x, *y, *dx, *dy, name, *coords, *hold_ms, out)
        },
        InputEvent::Wait { ms } => {
            out.push(LowInput::Wait(*ms));
            assert(out@ =~= old(out)@ + seq![LowInput::Wait(*ms)]);
            Ok(())
        },
    }
}

/// Whether two keys are the same key of the keyboard.
pub open spec fn one_key(a: PcKey, b: PcKey) -> bool {
    a.scan == b.scan && a.extended == b.extended
}

pub fn same_key(a: &PcKey, b: &PcKey) -> (yes: bool)
    ensures
        yes == one_key(*a, *b),
{
    a.scan == b.scan && a.extended == b.extended
}

/// What a remote key does in the settings window.
pub open spec fn window_key(key: PcKey, ascii: u8, mods: u8) -> Option<UiKey> {
    let shift = mods & (MOD_LSHIFT | MOD_RSHIFT) != 0;
    let ctrl = mods & MOD_CTRL != 0;
    if key.modifier != 0 {
        None
    } else {
        match key.scan {
            0x48u8 => Some(UiKey::Up),
            0x50u8 => Some(UiKey::Down),
            0x4Bu8 => Some(UiKey::Left),
            0x4Du8 => Some(UiKey::Right),
            0x49u8 => Some(UiKey::PageUp),
            0x51u8 => Some(UiKey::PageDown),
            0x47u8 => Some(UiKey::Home),
            0x4Fu8 => Some(UiKey::End),
            0x1Cu8 => Some(UiKey::Enter),
            0x01u8 => Some(UiKey::Esc),
            0x0Fu8 => Some(
                if shift {
                    UiKey::BackTab
                } else {
                    UiKey::Tab
                },
            ),
            0x0Eu8 => Some(UiKey::Backspace),
            0x53u8 => Some(UiKey::Delete),
            0x52u8 => Some(UiKey::Insert),
            0x3Cu8 => Some(UiKey::Save),
            _ => if key.scan == 0x1F && ctrl {
                Some(UiKey::Save)
            } else if 0x20 <= ascii < 0x7F {
                Some(UiKey::Char(ascii as char))
            } else {
                None
            },
        }
    }
}

/// What a remote key does in the settings window: `ascii` is the character
/// it types under the modifiers `mods`.
pub fn ui_key(key: PcKey, ascii: u8, mods: u8) -> (ui: Option<UiKey>)
    ensures
        ui == window_key(key, ascii, mods),
{
    let shift = mods & (MOD_LSHIFT | MOD_RSHIFT) != 0;
    let ctrl = mods & MOD_CTRL != 0;
    if key.modifier != 0 {
        return None;
    }
    match key.scan {
        0x48u8 => Some(UiKey::Up),
        0x50u8 => Some(UiKey::Down),
        0x4Bu8 => Some(UiKey::Left),
        0x4Du8 => Some(UiKey::Right),
        0x49u8 => Some(UiKey::PageUp),
        0x51u8 => Some(UiKey::PageDown),
        0x47u8 => Some(UiKey::Home),
        0x4Fu8 => Some(UiKey::End),
        0x1Cu8 => Some(UiKey::Enter),
        0x01u8 => Some(UiKey::Esc),
        0x0Fu8 => if shift {
            Some(UiKey::BackTab)
        } else {
            Some(UiKey::Tab)
        },
        0x0Eu8 => Some(UiKey::Backspace),
        0x53u8 => Some(UiKey::Delete),
        0x52u8 => Some(UiKey::Insert),
        0x3Cu8 => Some(UiKey::Save),
        _ => if key.scan == 0x1F && ctrl {
            Some(UiKey::Save)
        } else if 0x20 <= ascii && ascii < 0x7F {
            Some(UiKey::Char(ascii as char))
        } else {
            None
        },
    }
}

/// A position within a width.
pub open spec fn clamped(v: int, size: int) -> int {
    if v < 0 {
        0
    } else if v >= size {
        size - 1
    } else {
        v
    }
}

fn scale(v: i32, size: u32, to: i32) -> (scaled: i32)
    requires
        1 <= size <= i32::MAX,
        1 <= to,
    ensures
        scaled == clamped(v as int, size as int) * to / size as int,
        0 <= scaled < to,
{
    let at: u64 = if v < 0 {
        0
    } else if v as u32 >= size {
        (size - 1) as u64
    } else {
        v as u64
    };
    let t: u64 = to as u64;
    let n: u64 = size as u64;
    proof {
        assert(0 <= at * t <= (n - 1) * t) by (nonlinear_arith)
            requires
                0 <= at <= n - 1,
                1 <= t,
        ;
        assert((n - 1) * t < n * t <= 0x7FFF_FFFF * 0x7FFF_FFFF) by (nonlinear_arith)
            requires
                1 <= n <= 0x7FFF_FFFF,
                1 <= t <= 0x7FFF_FFFF,
        ;
        vstd::arithmetic::div_mod::lemma_div_is_ordered(0, at * t, n as int);
        assert((at * t) / (n as int) < t) by (nonlinear_arith)
            requires
                at * t < n * t,
                1 <= n,
                0 <= at * t,
                1 <= t,
        ;
    }
    (at * t / n) as i32
}

/// Map screenshot pixels (the picture's own size) into the mouse driver's
/// virtual coordinate system.
pub fn screen_to_virtual_mouse(x: i32, y: i32, frame: (u32, u32), virtual_screen: (i32, i32)) -> (
    at: (i32, i32))
    requires
        1 <= frame.0 <= i32::MAX,
        1 <= frame.1 <= i32::MAX,
        1 <= virtual_screen.0,
        1 <= virtual_screen.1,
    ensures
        at.0 == clamped(x as int, frame.0 as int) * virtual_screen.0 / frame.0 as int,
        at.1 == clamped(y as int, frame.1 as int) * virtual_screen.1 / frame.1 as int,
        0 <= at.0 < virtual_screen.0,
        0 <= at.1 < virtual_screen.1,
{
    (scale(x, frame.0, virtual_screen.0), scale(y, frame.1, virtual_screen.1))
}

/// Every key that goes down while a text is typed comes up again, and nothing
/// is left held: as many presses as releases, whatever the text.
pub proof fn law_typing_releases_keys(map: Keymap, text: Seq<char>, delay_ms: Option<u64>, k: PcKey)
    ensures
        presses(text_keys(map, text, delay_ms).0, k) == releases(
            text_keys(map, text, delay_ms).0,
            k,
        ),
    decreases text.len(),
{
    if text.len() > 0 {
        law_typing_releases_keys(map, text.drop_last(), delay_ms, k);
        let before = text_keys(map, text.drop_last(), delay_ms).0;
        let typed = char_keys(map, text.last()).0;
        lemma_char_balanced(map, text.last(), k);
        lemma_counts_add(before, typed, k);
        lemma_counts_add(before + typed, pause_after(delay_ms), k);
        reveal_with_fuel(presses, 2);
        reveal_with_fuel(releases, 2);
        assert(pause_after(delay_ms).drop_last().len() == 0 || pause_after(delay_ms).len() == 0);
    }
}

/// How often a key goes down.
pub open spec fn presses(inputs: Seq<LowInput>, k: PcKey) -> int
    decreases inputs.len(),
{
    if inputs.len() == 0 {
        0
    } else {
        presses(inputs.drop_last(), k) + match inputs.last() {
            LowInput::KeyDown { key, .. } if key == k => 1int,
            _ => 0int,
        }
    }
}

/// How often a key comes up.
pub open spec fn releases(inputs: Seq<LowInput>, k: PcKey) -> int
    decreases inputs.len(),
{
    if inputs.len() == 0 {
        0
    } else {
        releases(inputs.drop_last(), k) + match inputs.last() {
            LowInput::KeyUp { key } if key == k => 1int,
            _ => 0int,
        }
    }
}

proof fn lemma_counts_add(a: Seq<LowInput>, b: Seq<LowInput>, k: PcKey)
    ensures
        presses(a + b, k) == presses(a, k) + presses(b, k),
        releases(a + b, k) == releases(a, k) + releases(b, k),
    decreases b.len(),
{
    if b.len() == 0 {
        assert(a + b =~= a);
    } else {
        assert((a + b).drop_last() =~= a + b.drop_last());
        lemma_counts_add(a, b.drop_last(), k);
    }
}

proof fn lemma_held_balanced(held: Seq<PcKey>, k: PcKey)
    ensures
        presses(downs(held), k) == releases(ups(held), k),
        releases(downs(held), k) == 0,
        presses(ups(held), k) == 0,
    decreases held.len(),
{
    if held.len() > 0 {
        let less = held.drop_last();
        lemma_held_balanced(less, k);
        let d = LowInput::KeyDown { key: held.last(), ascii: 0 };
        let u = LowInput::KeyUp { key: held.last() };
        assert(downs(held) =~= downs(less) + seq![d]);
        assert(ups(held) =~= seq![u] + ups(less));
        lemma_counts_add(downs(less), seq![d], k);
        lemma_counts_add(seq![u], ups(less), k);
        assert(seq![d].drop_last() =~= Seq::empty());
        assert(seq![u].drop_last() =~= Seq::empty());
        reveal_with_fuel(presses, 2);
        reveal_with_fuel(releases, 2);
    }
}

proof fn lemma_stroke_balanced(held: Seq<PcKey>, key: PcKey, ascii: u8, k: PcKey)
    ensures
        presses(stroke(held, key, ascii), k) == releases(stroke(held, key, ascii), k),
{
    lemma_held_balanced(held, k);
    let d = LowInput::KeyDown { key, ascii };
    let u = LowInput::KeyUp { key };
    let pressed = downs(held).push(d);
    assert(pressed.drop_last() =~= downs(held));
    assert(pressed.push(u).drop_last() =~= pressed);
    assert(presses(pressed.push(u), k) == presses(pressed, k));
    assert(releases(pressed.push(u), k) == releases(pressed, k) + (if key == k {
        1int
    } else {
        0
    }));
    lemma_counts_add(pressed.push(u), ups(held), k);
}

proof fn lemma_char_balanced(map: Keymap, c: char, k: PcKey)
    ensures
        presses(char_keys(map, c).0, k) == releases(char_keys(map, c).0, k),
{
    reveal_with_fuel(presses, 2);
    reveal_with_fuel(releases, 2);
    match control_key(c) {
        Some(name) => lemma_stroke_balanced(Seq::empty(), key_named(map.names@, name)->0, 0, k),
        None => match typed_as(map.chars@, c) {
            None => {},
            Some(t) => match t.on_layout {
                Some((scan, shift, altgr)) => lemma_stroke_balanced(
                    held_keys(map, shift, altgr),
                    PcKey { scan, ascii: t.byte, shifted: t.byte, modifier: 0, extended: false },
                    t.byte,
                    k,
                ),
                None => match t.on_us {
                    Some((key, shift)) => lemma_stroke_balanced(
                        held_keys(map, shift, false),
                        key,
                        if shift {
                            key.shifted
                        } else {
                            key.ascii
                        },
                        k,
                    ),
                    None => {
                        assert(seq![LowInput::Char(t.byte)].drop_last() =~= Seq::empty());
                    },
                },
            },
        },
    }
}

} // verus!
