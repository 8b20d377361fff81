use rust_dos::bus::Bus;
use rust_dos::cpu::state::{CoreMode, Cpu, CpuState, ExceptionRecord, ZF};
use rust_dos::debug::address::{parse_addr, parse_hex};
use rust_dos::debug::api::{
    control, default_type, memory_format, mount_options, read_length, screenshot, MemoryFormat,
    Screenshot,
};
use rust_dos::debug::dump::{
    hex_data, hexdump, log_text, sent_data, to_base64, LogQuery, LogRing, LOG_RING_CAPACITY,
};
use rust_dos::debug::feed::{Applied, Moment};
use rust_dos::debug::handle::{Cmd, Outcome, Reply, Shows};
use rust_dos::debug::hub::{watch_text, DebugHub, PauseReason};
use rust_dos::debug::input::{
    ascii_for, expand_input, keys_for_char, screen_to_virtual_mouse, ui_key, Coords, InputEvent,
    KeyAction, Keymap, LowInput, MouseAction, PcKey, TypedChar, UiInput, UiKey, F12_SCAN, MOD_ALT,
    MOD_CTRL, MOD_LSHIFT,
};
use rust_dos::debug::query::TraceQuery;
use rust_dos::debug::registers::{set_regs, RegValue};
use rust_dos::debug::screen::{screen_text, TextGeometry};
use rust_dos::debug::stats::{ExecStats, FrameRate};
use rust_dos::debug::step::{step_over_len, step_over_target};
use rust_dos::debug::stream::{sample_bytes, FrameStream};
use rust_dos::debug::tables::{flags_set, ivt_info, registers};
use rust_dos::debug::trace::{disasm_one, hex_bytes, TraceEntry, TraceRing};
use rust_dos::disk::drives::{DiskController, MountOptions, Target};
use rust_dos::disk::kind::DriveKind;
use rust_dos::picture::{encode_png, icon, icon_from};

fn machine() -> Cpu {
    let mut cpu = Cpu::with_bus(Bus::new(0x10_0000, true), 0x200, vec![], CoreMode::Normal);
    cpu.set_cs(0x1000);
    cpu.set_ip(0x100);
    cpu.set_ss(0x3000);
    cpu.set_sp(0x100);
    cpu
}

fn key(scan: u8, ascii: u8, shifted: u8, modifier: u8) -> PcKey {
    PcKey { scan, ascii, shifted, modifier, extended: false }
}

/// Some keys by their names, and how some characters are typed on a layout.
fn keymap(chars: Vec<TypedChar>) -> Keymap {
    let named = [
        ("enter", key(0x1C, 13, 13, 0)),
        ("tab", key(0x0F, 9, 9, 0)),
        ("backspace", key(0x0E, 8, 8, 0)),
        ("escape", key(0x01, 27, 27, 0)),
        ("lshift", key(0x2A, 0, 0, MOD_LSHIFT)),
        ("ctrl", key(0x1D, 0, 0, MOD_CTRL)),
        ("ralt", key(0x38, 0, 0, MOD_ALT)),
        ("a", key(0x1E, b'a', b'A', 0)),
        ("f12", key(F12_SCAN, 0, 0, 0)),
    ];
    Keymap {
        names: named.iter().map(|(n, k)| (n.to_string(), *k)).collect(),
        listed: vec!["a".to_string(), "enter".to_string()],
        chars,
    }
}

fn typed(c: char, byte: u8, on_layout: Option<(u8, bool, bool)>) -> TypedChar {
    TypedChar { c, byte, on_layout, on_us: None }
}

/// The scan codes of the keys going down to type `c`.
fn scans(c: char, map: &Keymap) -> Vec<u8> {
    let mut out = Vec::new();
    keys_for_char(c, map, &mut out).unwrap();
    out.iter()
        .filter_map(|ev| match ev {
            LowInput::KeyDown { key, .. } => Some(key.scan),
            LowInput::Char(byte) => Some(*byte),
            _ => None,
        })
        .collect()
}

#[test]
fn text_is_typed_on_the_layout_s_keys() {
    let gr = keymap(vec![
        typed('y', b'y', Some((0x2C, false, false))),
        typed(':', b':', Some((0x34, true, false))),
        typed('\\', b'\\', Some((0x0C, false, true))),
        typed('ä', 0x84, Some((0x28, false, false))),
    ]);
    let us = keymap(vec![
        typed('y', b'y', Some((0x15, false, false))),
        typed('é', 0x82, None),
    ]);
    let fr = keymap(vec![]);
    assert_eq!(scans('y', &gr), [0x2C]);
    assert_eq!(scans('y', &us), [0x15]);
    assert_eq!(scans(':', &gr), [0x2A, 0x34], "Shift and the period key");
    assert_eq!(scans('\\', &gr), [0x38, 0x0C], "AltGr and the ß key");
    assert_eq!(scans('ä', &gr), [0x28]);
    // A character no key types comes as a keystroke of its own.
    assert_eq!(scans('é', &us), [0x82]);
    assert_eq!(scans('\n', &fr), [0x1C]);
    let mut out = Vec::new();
    assert_eq!(keys_for_char('\u{3A9}', &fr, &mut out).unwrap_err(), "cannot type character 'Ω'");
    assert!(out.is_empty());
}

#[test]
fn step_over_runs_calls_interrupts_loops_and_repeats() {
    // CALL rel16, CALL [BX], INT 21h, INT3, LOOP, REP MOVSB, REPNE SCASB.
    assert_eq!(step_over_len(&[0xE8, 0x10, 0x00, 0x90], false), Some(3));
    assert_eq!(step_over_len(&[0xFF, 0x17, 0x90], false), Some(2));
    assert_eq!(step_over_len(&[0xCD, 0x21, 0x90], false), Some(2));
    assert_eq!(step_over_len(&[0xCC, 0x90], false), Some(1));
    assert_eq!(step_over_len(&[0xE2, 0xFE, 0x90], false), Some(2));
    assert_eq!(step_over_len(&[0xF3, 0xA4, 0x90], false), Some(2));
    assert_eq!(step_over_len(&[0xF2, 0xAE, 0x90], false), Some(2));
    // CALL rel32 in 32-bit code.
    assert_eq!(step_over_len(&[0xE8, 0, 0, 0, 0, 0x90], true), Some(5));
}

#[test]
fn other_instructions_just_step() {
    // MOV AX,1234h; JMP short; MOVSB without REP; the emulator's traps.
    assert_eq!(step_over_len(&[0xB8, 0x34, 0x12], false), None);
    assert_eq!(step_over_len(&[0xEB, 0xFE], false), None);
    assert_eq!(step_over_len(&[0xA4], false), None);
    assert_eq!(step_over_len(&[0xFE, 0x38, 0x21], false), None);
    assert_eq!(step_over_len(&[0xFE, 0x39, 0x08], false), None);
}

#[test]
fn addresses_are_read_as_in_debug_com() {
    let mut cpu = machine();
    cpu.set_ds(0x2000);
    cpu.set_si(0x34);
    assert_eq!(parse_hex(" 0x1Fh "), Ok(0x1F));
    assert_eq!(parse_hex("xyz").unwrap_err(), "invalid hex number 'xyz'");
    let a = parse_addr(&cpu, "DS:SI").unwrap();
    assert_eq!((a.phys, a.lin, a.segoff), (Some(0x2_0034), Some(0x2_0034), Some((0x2000, 0x34))));
    let b = parse_addr(&cpu, "B8000").unwrap();
    assert_eq!((b.phys, b.lin, b.segoff), (Some(0xB_8000), None, None));
    assert_eq!(parse_addr(&cpu, "lin:400").unwrap().lin, Some(0x400));
    assert!(parse_addr(&cpu, "phys:100000").is_err());
}

#[test]
fn instructions_are_disassembled() {
    assert_eq!(disasm_one(&[0xB8, 0x34, 0x12], 0x100, false), (3, "mov ax,1234h".to_string()));
    assert_eq!(disasm_one(&[0xEB, 0xFE], 0x100, false), (2, "jmp short 0100h".to_string()));
    assert_eq!(disasm_one(&[0xB8, 1, 0, 0, 0], 0, true), (5, "mov eax,1".to_string()));
    assert_eq!(disasm_one(&[0x0F, 0xFF, 0xFF], 0, false).0, 3);
    assert_eq!(disasm_one(&[0xFE, 0x38], 0, false), (1, "(bad)".to_string()));
    assert_eq!(hex_bytes(&[0x0A, 0xFF]), "0A FF");
}

fn entry(n: u64) -> TraceEntry {
    let mut bytes = [0u8; 15];
    bytes[..3].copy_from_slice(&[0xB8, 0x34, 0x12]);
    TraceEntry {
        t_us: 1000 * n,
        icount: n,
        cs: 0x1000,
        ip: 0x100,
        ax: 1,
        bx: 2,
        cx: 3,
        dx: 4,
        si: 5,
        di: 6,
        bp: 7,
        sp: 8,
        ds: 9,
        es: 10,
        ss: 11,
        flags: 0x202,
        bytes,
        len: 15,
    }
}

#[test]
fn trace_lines_have_their_columns() {
    let mut e = entry(7);
    e.t_us = 1_234_567;
    assert_eq!(
        e.to_text(0x20),
        "           7    1234.567 1000:0100  B8 34 12             mov ax,1234h                     \
         AX=0001 BX=0002 CX=0003 DX=0004 SI=0005 DI=0006 BP=0007 SP=0008 DS=0009 ES=000A SS=000B FL=0202"
    );
    e.bytes[..3].copy_from_slice(&[0xFE, 0x38, 0x21]);
    assert_eq!(e.disasm(0x20), (3, "HLE INT 21h (AX=0001)".to_string()));
    assert_eq!(e.disasm(0x21), (3, "HLE shell command".to_string()));
}

#[test]
fn the_ring_keeps_the_newest_entries() {
    let mut ring = TraceRing::new(3);
    for n in 0..5 {
        ring.push(entry(n));
    }
    let counts = |v: Vec<TraceEntry>| v.iter().map(|e| e.icount).collect::<Vec<_>>();
    assert_eq!(counts(ring.iter()), [2, 3, 4]);
    assert_eq!(counts(ring.last_n(2)), [3, 4]);
    assert_eq!((ring.len(), ring.total(), ring.capacity()), (3, 5, 3));
    let (some, dropped) = ring.since(1, 10);
    assert_eq!((counts(some), dropped), (vec![2, 3, 4], 1));
    let (some, dropped) = ring.since(3, 1);
    assert_eq!((counts(some), dropped), (vec![4], 1));
    let (some, dropped) = ring.since(9, 1);
    assert_eq!((some.len(), dropped), (0, 0));
    ring.clear();
    assert_eq!((ring.len(), ring.total()), (0, 5));
}

#[test]
fn keys_and_events_expand() {
    let map = keymap(vec![]);
    let a = map.lookup("a").unwrap();
    assert_eq!(ascii_for(a, 0), b'a');
    assert_eq!(ascii_for(a, MOD_LSHIFT), b'A');
    assert_eq!(ascii_for(a, MOD_CTRL), 1);
    assert_eq!(ascii_for(a, MOD_ALT | MOD_CTRL), 0);
    let ctrl = map.lookup("ctrl").unwrap();

    let mut out = Vec::new();
    let press = InputEvent::Key {
        key: Some("a".to_string()),
        scancode: None,
        ascii: None,
        action: KeyAction::Press,
        mods: vec!["ctrl".to_string()],
        hold_ms: None,
    };
    expand_input(&press, &map, &mut out).unwrap();
    assert_eq!(
        out,
        [
            LowInput::KeyDown { key: ctrl, ascii: 0 },
            LowInput::KeyDown { key: a, ascii: 1 },
            LowInput::Wait(50),
            LowInput::KeyUp { key: a },
            LowInput::KeyUp { key: ctrl },
        ]
    );

    let bad = |event: InputEvent| {
        let mut out = Vec::new();
        expand_input(&event, &keymap(vec![]), &mut out).unwrap_err()
    };
    let named = |name: Option<&str>, mods: &[&str]| InputEvent::Key {
        key: name.map(|n| n.to_string()),
        scancode: None,
        ascii: None,
        action: KeyAction::Down,
        mods: mods.iter().map(|m| m.to_string()).collect(),
        hold_ms: None,
    };
    assert_eq!(bad(named(Some("q"), &[])), "unknown key 'q'; valid keys: a, enter");
    assert_eq!(bad(named(None, &[])), "key event needs 'key' or 'scancode'");
    assert_eq!(bad(named(Some("a"), &["a"])), "unknown modifier 'a' (use shift, ctrl, alt)");
    let mouse = |x: Option<i32>, y: Option<i32>, button: Option<&str>| InputEvent::Mouse {
        action: MouseAction::Click,
        x,
        y,
        dx: None,
        dy: Some(2),
        button: button.map(|b| b.to_string()),
        coords: Coords::Screen,
        hold_ms: Some(5),
    };
    assert_eq!(bad(mouse(Some(1), None, None)), "mouse event needs both x and y");
    assert_eq!(bad(mouse(None, None, Some("side"))), "unknown mouse button 'side'");
    let mut out = Vec::new();
    expand_input(&mouse(Some(1), Some(2), Some("r")), &map, &mut out).unwrap();
    assert_eq!(
        out,
        [
            LowInput::MouseTo { x: 1, y: 2, coords: Coords::Screen },
            LowInput::MouseRel { dx: 0, dy: 2 },
            LowInput::Button { idx: 1, down: true },
            LowInput::Wait(5),
            LowInput::Button { idx: 1, down: false },
        ]
    );
    let mut out = Vec::new();
    let text = InputEvent::Type { text: "\n".to_string(), delay_ms: Some(3) };
    expand_input(&text, &map, &mut out).unwrap();
    assert_eq!(out.len(), 3);
    assert_eq!(out[2], LowInput::Wait(3));
}

#[test]
fn positions_and_window_keys() {
    assert_eq!(screen_to_virtual_mouse(320, 200, (640, 400), (640, 200)), (320, 100));
    assert_eq!(screen_to_virtual_mouse(-5, 9999, (640, 400), (640, 200)), (0, 199));
    assert_eq!(ui_key(key(0x48, 0, 0, 0), 0, 0), Some(UiKey::Up));
    assert_eq!(ui_key(key(0x0F, 9, 9, 0), 9, MOD_LSHIFT), Some(UiKey::BackTab));
    assert_eq!(ui_key(key(0x1F, b's', b'S', 0), 0x13, MOD_CTRL), Some(UiKey::Save));
    assert_eq!(ui_key(key(0x1E, b'a', b'A', 0), b'a', 0), Some(UiKey::Char('a')));
    assert_eq!(ui_key(key(0x2A, 0, 0, MOD_LSHIFT), b'a', 0), None);
}

fn moment(now_ms: u64, pending_keys: usize) -> Moment {
    Moment { now_ms, pending_keys, buffer_room: 1, frame: (640, 400), virtual_screen: (640, 200) }
}

#[test]
fn input_is_fed_a_key_at_a_time() {
    let mut hub = DebugHub::disabled();
    let a = key(0x1E, b'a', b'A', 0);
    hub.remote.queue(&vec![
        LowInput::MouseTo { x: 320, y: 200, coords: Coords::Screen },
        LowInput::Char(0x82),
        LowInput::Char(0x83),
        LowInput::KeyDown { key: a, ascii: b'a' },
        LowInput::Wait(50),
        LowInput::KeyUp { key: a },
        LowInput::Notify(9),
    ]);
    assert_eq!(
        hub.remote.process_input(moment(0, 0)),
        [
            Applied::PointerAt(320, 100),
            Applied::Keystroke(0x82),
            Applied::Key { key: a, ascii: b'a', down: true },
        ]
    );
    assert_eq!(hub.remote.remote_held, [a]);
    assert!(hub.remote.process_input(moment(10, 0)).is_empty());
    assert!(hub.remote.process_input(moment(59, 0)).is_empty());
    // The keyboard controller catches up, for two frames.
    assert!(hub.remote.process_input(moment(60, 1)).is_empty());
    assert!(hub.remote.process_input(moment(61, 1)).is_empty());
    assert_eq!(
        hub.remote.process_input(moment(62, 1)),
        [Applied::Key { key: a, ascii: 0, down: false }]
    );
    assert!(hub.remote.remote_held.is_empty());
    assert_eq!(hub.remote.process_input(moment(63, 1)), [Applied::Delivered(9)]);
    // A key that is not held does not come up.
    assert_eq!(hub.remote.key_up(a), None);
}

#[test]
fn the_settings_window_takes_the_input() {
    let mut hub = DebugHub::disabled();
    let ctrl = key(0x1D, 0, 0, MOD_CTRL);
    assert!(hub.remote.key_down(ctrl, 0).is_some());
    assert_eq!(hub.remote.key_down(key(F12_SCAN, 0, 0, 0), 0), None);
    assert!(hub.remote.take_hotkey());
    assert!(!hub.remote.take_hotkey());
    assert_eq!(
        hub.remote.release_keys(),
        [Applied::Key { key: ctrl, ascii: 0, down: false }]
    );
    hub.remote.remote_mods = 0;
    hub.remote.divert = true;
    hub.remote.queue(&vec![
        LowInput::MouseTo { x: 3, y: 4, coords: Coords::Screen },
        LowInput::Button { idx: 0, down: true },
        LowInput::KeyDown { key: key(0x48, 0, 0, 0), ascii: 0 },
    ]);
    assert!(hub.remote.process_input(moment(0, 5)).is_empty());
    assert_eq!(
        hub.remote.take_ui_input(),
        [UiInput::Click(3, 4), UiInput::Key(UiKey::Up)]
    );
}

fn ask(hub: &mut DebugHub, cpu: &mut Cpu, cmd: Cmd, id: u64) -> Outcome {
    let disk = DiskController::new("/c".to_string(), "c".to_string());
    hub.handle(cpu, &disk, &keymap(vec![]), 0, cmd, id)
}

fn error(out: Outcome) -> (u16, String) {
    match out.reply {
        Some(Reply::Error(code, message)) => (code, message),
        other => panic!("{:?}", other),
    }
}

#[test]
fn breakpoints_stop_the_machine() {
    let mut hub = DebugHub::new(10);
    let mut cpu = machine();
    assert!(!hub.begin_batch(0, false));
    ask(&mut hub, &mut cpu, Cmd::AddBreakpoint("1000:0102".to_string()), 1);
    let out = ask(&mut hub, &mut cpu, Cmd::AddBreakpoint("CS:IP".to_string()), 2);
    let Some(Reply::Breakpoints(list)) = out.reply else { panic!("no list") };
    assert_eq!(list.addresses, [0x1_0100, 0x1_0102]);
    assert!(hub.begin_batch(0, false));
    assert!(hub.check_before_exec(&cpu, 0x1_0100));
    assert!(hub.paused);
    ask(&mut hub, &mut cpu, Cmd::WaitPause, 3);
    let notice = hub.end_batch(&cpu).unwrap();
    assert_eq!((notice.reason, notice.waiters.as_slice()), (PauseReason::Breakpoint, &[3u64][..]));
    assert_eq!(notice.reason.name(), "breakpoint");
    assert!(hub.end_batch(&cpu).is_none());

    // Resuming does not stop there again at once.
    let out = ask(&mut hub, &mut cpu, Cmd::Resume { until: None }, 4);
    assert!(out.resumed && matches!(out.reply, Some(Reply::Running)));
    assert!(!hub.check_before_exec(&cpu, 0x1_0100));
    assert!(hub.check_before_exec(&cpu, 0x1_0102));

    ask(&mut hub, &mut cpu, Cmd::RemoveBreakpoint(Some("1000:0102".to_string())), 5);
    let gone = ask(&mut hub, &mut cpu, Cmd::RemoveBreakpoint(Some("1000:0102".to_string())), 6);
    assert_eq!(error(gone), (404, "no breakpoint at 10102".to_string()));
    ask(&mut hub, &mut cpu, Cmd::RemoveBreakpoint(None), 7);
    assert!(!hub.has_breakpoint(0x1_0100));
    let bad = ask(&mut hub, &mut cpu, Cmd::Resume { until: Some("zz".to_string()) }, 8);
    assert_eq!(error(bad), (400, "invalid hex number 'zz'".to_string()));
}

#[test]
fn steps_are_counted() {
    let mut hub = DebugHub::new(10);
    let mut cpu = machine();
    assert!(ask(&mut hub, &mut cpu, Cmd::Pause, 1).reply.is_none());
    assert_eq!(hub.end_batch(&cpu).unwrap().reason, PauseReason::Request);
    assert!(matches!(ask(&mut hub, &mut cpu, Cmd::Pause, 2).reply, Some(Reply::Paused { .. })));
    assert!(ask(&mut hub, &mut cpu, Cmd::Step { count: 2 }, 3).reply.is_none());
    assert!(!hub.check_before_exec(&cpu, 0));
    assert!(!hub.check_before_exec(&cpu, 1));
    assert!(hub.check_before_exec(&cpu, 2));
    let notice = hub.end_batch(&cpu).unwrap();
    assert_eq!((notice.reason, notice.waiters.as_slice()), (PauseReason::Step, &[3u64][..]));

    // Over a call to the instruction after it, and else one instruction.
    cpu.bus.load_bytes(0x1_0100, &[0xE8, 0x10, 0x00, 0x90]);
    assert_eq!(step_over_target(&cpu), Some(0x1_0103));
    let out = ask(&mut hub, &mut cpu, Cmd::StepOver, 4);
    assert!(out.resumed && out.reply.is_none());
    assert_eq!(hub.temp_breakpoint, Some(0x1_0103));
}

#[test]
fn watched_memory_stops_the_machine() {
    let mut hub = DebugHub::new(10);
    let mut cpu = machine();
    let bad = ask(&mut hub, &mut cpu, Cmd::AddWatchpoint { addr: "500".to_string(), len: 3 }, 1);
    assert_eq!(error(bad), (400, "len is 1, 2 or 4".to_string()));
    ask(&mut hub, &mut cpu, Cmd::AddWatchpoint { addr: "500".to_string(), len: 2 }, 2);
    assert!(!hub.check_before_exec(&cpu, 0));
    cpu.bus.write_16(0x500, 0xBEEF);
    assert!(hub.check_before_exec(&cpu, 0));
    let hit = hub.end_batch(&cpu).unwrap().watch.unwrap();
    assert_eq!((hit.phys, hit.len, hit.old, hit.new), (0x500, 2, 0, 0xBEEF));
    assert_eq!(watch_text(hit.old, hit.len), "0000");
    assert!(!hub.check_before_exec(&cpu, 0));

    // The debugger's own changes don't stop the machine.
    let write = Cmd::WriteMem { addr: "500".to_string(), data: vec![1, 2] };
    let out = ask(&mut hub, &mut cpu, write, 3);
    assert!(matches!(out.reply, Some(Reply::Written { addr: 0x500, written: 2 })));
    assert!(!hub.check_before_exec(&cpu, 0));
    let read = ask(&mut hub, &mut cpu, Cmd::ReadMem { addr: "500".to_string(), len: 2 }, 4);
    assert!(matches!(read.reply, Some(Reply::Bytes { addr: 0x500, data, .. }) if data == [1, 2]));
    let past = Cmd::WriteMem { addr: "FFFFF".to_string(), data: vec![1, 2] };
    assert_eq!(
        error(ask(&mut hub, &mut cpu, past, 5)),
        (400, "write extends past end of memory".to_string())
    );
    let list = ask(&mut hub, &mut cpu, Cmd::ListWatchpoints, 6);
    assert!(matches!(list.reply, Some(Reply::Watchpoints(w)) if w[0].value == 0x0201));
    let gone = ask(&mut hub, &mut cpu, Cmd::RemoveWatchpoint(Some("600".to_string())), 7);
    assert_eq!(error(gone), (404, "no watchpoint at 00600".to_string()));
    ask(&mut hub, &mut cpu, Cmd::RemoveWatchpoint(None), 8);
    assert!(hub.watchpoints.is_empty());
}

#[test]
fn exceptions_and_mode_switches_stop_the_machine() {
    let mut hub = DebugHub::new(10);
    let mut cpu = machine();
    let on = Cmd::BreakOn {
        exceptions: Some(1 << 6 | 1 << 13),
        clear_exceptions: Some(1 << 13),
        mode_switch: Some(true),
    };
    let out = ask(&mut hub, &mut cpu, on, 1);
    let Some(Reply::Breakpoints(list)) = out.reply else { panic!("no list") };
    assert_eq!((list.exceptions, list.mode_switch), (vec![6], true));
    let record = |vector: u8| ExceptionRecord {
        vector,
        error: None,
        cs: 0x1000,
        eip: 0x100,
        cr2: 0,
        protected: false,
        icount: 5,
    };
    cpu.exceptions = 1;
    cpu.exception_log.push_back(record(13));
    assert!(!hub.check_before_exec(&cpu, 0));
    cpu.exceptions = 2;
    cpu.exception_log.push_back(record(6));
    assert!(hub.check_before_exec(&cpu, 0));
    let notice = hub.end_batch(&cpu).unwrap();
    assert_eq!(notice.reason, PauseReason::Exception);
    assert_eq!(notice.exception.unwrap().vector, 6);
    cpu.mode_switches = 1;
    assert!(hub.check_before_exec(&cpu, 0));
    assert_eq!(hub.end_batch(&cpu).unwrap().reason, PauseReason::ModeSwitch);
    let told = ask(&mut hub, &mut cpu, Cmd::Exceptions, 2);
    assert!(matches!(told.reply, Some(Reply::Exceptions(e)) if e.len() == 2 && e[1].vector == 6));
}

#[test]
fn the_trace_records_and_streams() {
    let mut hub = DebugHub::new(4);
    let mut cpu = machine();
    cpu.bus.load_bytes(0x1_0100, &[0xB8, 0x34, 0x12]);
    let on = Cmd::TraceControl { enabled: Some(true), clear: false, stream_max: Some(0) };
    let out = ask(&mut hub, &mut cpu, on, 1);
    let Some(Reply::TraceStatus(status)) = out.reply else { panic!("no status") };
    assert_eq!((status.enabled, status.stream_max_per_frame, status.capacity), (true, 1, 4));
    assert!(hub.begin_batch(77, false));
    for _ in 0..6 {
        assert!(!hub.check_before_exec(&cpu, 0x1_0100));
        cpu.executed += 1;
    }
    let (some, dropped) = hub.stream_trace(true).unwrap();
    assert_eq!((some.len(), some[0].icount, dropped), (1, 5, 5));
    assert!(hub.stream_trace(true).is_none());
    let query = |last_n: Option<usize>, cs: Option<&str>| TraceQuery {
        from_us: None,
        to_us: None,
        last_us: None,
        last_n,
        limit: None,
        cs: cs.map(|c| c.to_string()),
        no_bios: true,
    };
    let found = |hub: &mut DebugHub, cpu: &mut Cpu, q: TraceQuery| {
        match ask(hub, cpu, Cmd::TraceQuery(q), 2).reply {
            Some(Reply::Trace(e)) => e.iter().map(|e| e.icount).collect::<Vec<_>>(),
            other => panic!("{:?}", other),
        }
    };
    assert_eq!(found(&mut hub, &mut cpu, query(None, None)), [2, 3, 4, 5]);
    assert_eq!(found(&mut hub, &mut cpu, query(Some(2), Some("1000"))), [4, 5]);
    assert!(found(&mut hub, &mut cpu, query(None, Some("2000"))).is_empty());
    let text = rust_dos::debug::dump::format_trace(&hub.trace.last_n(1), 0);
    assert!(text.starts_with("      icount        t_ms CS:IP"));
    assert_eq!(text.lines().count(), 2);
    assert!(text.contains("       0.077 1000:0100  B8 34 12             mov ax,1234h"));
}

#[test]
fn registers_are_set_by_name() {
    let mut cpu = machine();
    let entries = vec![
        ("EAX".to_string(), RegValue::Text("12345678".to_string())),
        ("bx".to_string(), RegValue::Number(Some(0x42))),
        ("ds".to_string(), RegValue::Text("2000h".to_string())),
        ("flags".to_string(), RegValue::Text("0x40".to_string())),
    ];
    set_regs(&mut cpu, &entries).unwrap();
    assert_eq!((cpu.eax(), cpu.bx(), cpu.ds()), (0x1234_5678, 0x42, 0x2000));
    assert!(cpu.get_cpu_flag(ZF));
    assert_eq!(flags_set(&cpu), ["ZF"]);
    let pairs = registers(&cpu);
    assert!(pairs.iter().any(|(n, v)| *n == "eax" && v == "12345678"));

    // A bad entry leaves everything as it was.
    let bad = |name: &str, value: RegValue| {
        let mut cpu = machine();
        let entries =
            vec![("ax".to_string(), RegValue::Number(Some(1))), (name.to_string(), value)];
        let message = set_regs(&mut cpu, &entries).unwrap_err();
        assert_eq!(cpu.ax(), 0);
        message
    };
    assert_eq!(bad("qx", RegValue::Number(Some(1))), "unknown register 'qx'");
    assert_eq!(bad("bx", RegValue::Number(Some(0x1_0000))), "bx: value exceeds 16 bits");
    assert_eq!(bad("bx", RegValue::Number(None)), "bx: not an unsigned integer");
    assert_eq!(bad("bx", RegValue::Other), "bx: value must be a number or hex string");
    assert_eq!(bad("bx", RegValue::Text("?".to_string())), "invalid hex number '?'");
}

#[test]
fn listings_mark_where_the_machine_is() {
    let mut hub = DebugHub::new(4);
    let mut cpu = machine();
    cpu.bus.load_bytes(0x1_0100, &[0xB8, 0x34, 0x12, 0xFE, 0x38, 0x21, 0x90]);
    ask(&mut hub, &mut cpu, Cmd::AddBreakpoint("1000:0103".to_string()), 1);
    let out = ask(&mut hub, &mut cpu, Cmd::Disasm { addr: None, count: 3 }, 2);
    let Some(Reply::Disassembly(rows)) = out.reply else { panic!("no rows") };
    let lines: Vec<&str> = rows.iter().map(|r| r.line.as_str()).collect();
    assert_eq!(
        lines,
        [
            "=>  1000:0100  B8 34 12             mov ax,1234h",
            "  * 1000:0103  FE 38 21             HLE INT 21h",
            "    1000:0106  90                   nop",
        ]
    );
    assert_eq!((rows[1].phys, rows[1].len, rows[1].breakpoint), (Some(0x1_0103), 3, true));
}

#[test]
fn requests_that_wait_keep_their_numbers() {
    let mut hub = DebugHub::new(4);
    let mut cpu = machine();
    assert!(ask(&mut hub, &mut cpu, Cmd::Screenshot, 5).reply.is_none());
    assert!(hub.wants_frame(0));
    assert_eq!(hub.take_frame_waiters(), [5]);
    assert!(!hub.wants_frame(0) && hub.wants_frame(1));
    let wait = InputEvent::Wait { ms: 10 };
    let out = ask(&mut hub, &mut cpu, Cmd::Input { events: vec![wait], wait: true }, 6);
    assert!(out.reply.is_none());
    let cleared = ask(&mut hub, &mut cpu, Cmd::InputClear, 7);
    assert!(matches!(cleared.reply, Some(Reply::Cleared(ids)) if ids == [6]));
    let nowhere = Cmd::SaveState { path: String::new() };
    assert_eq!(
        error(ask(&mut hub, &mut cpu, nowhere, 8)),
        (400, "a path is needed".to_string())
    );
    ask(&mut hub, &mut cpu, Cmd::LoadState { path: "s.bin".to_string() }, 9);
    let asked = hub.take_state_requests();
    assert_eq!((asked[0].load, asked[0].path.as_str(), asked[0].id), (true, "s.bin", 9));
    let out = ask(&mut hub, &mut cpu, Cmd::Status, 10);
    let Some(Reply::Status(status)) = out.reply else { panic!("no status") };
    assert_eq!((status.cs_ip.as_str(), status.cpu_mode), ("1000:0100", "real"));
    ask(&mut hub, &mut cpu, Cmd::RebootShell, 11);
    assert_eq!(cpu.state, CpuState::RebootShell);
}

#[test]
fn the_tables_are_listed() {
    let mut hub = DebugHub::new(4);
    let mut cpu = machine();
    cpu.bus.write_16(0x10 * 4, 0x0123);
    cpu.bus.write_16(0x10 * 4 + 2, 0xF000);
    cpu.bus.load_bytes(0xF_0123, &[0xFE, 0x38, 0x10]);
    let table = ivt_info(&cpu);
    assert_eq!((table[0x10].segment, table[0x10].offset, table[0x10].hle), (0xF000, 0x123, true));
    assert!(!table[0x11].hle);
    cpu.bus.load_bytes(0x1008, &0x00CF_9A00_0000_FFFFu64.to_le_bytes());
    cpu.gdtr.base = 0x1000;
    cpu.gdtr.limit = 15;
    let gdt = ask(&mut hub, &mut cpu, Cmd::Gdt, 1);
    let Some(Reply::Table(Some(info))) = gdt.reply else { panic!("no table") };
    assert_eq!(info.entries.len(), 1);
    assert_eq!((info.entries[0].selector, info.entries[0].kind.as_str()), (8, "code readable"));
    let walk = ask(&mut hub, &mut cpu, Cmd::PageWalk("lin:1234".to_string()), 2);
    assert!(matches!(walk.reply, Some(Reply::Walk(w)) if w.physical == Some(0x1234) && !w.paging));
}

#[test]
fn memory_is_dumped_and_sent() {
    assert_eq!(
        hexdump(0x500, None, &[0x41, 0x00, 0x7E]),
        "00500  41 00 7E                                         A.~\n"
    );
    let text = hexdump(0, Some((0x1000, 0xFFF8)), &[0x20; 17]);
    let lines: Vec<&str> = text.lines().collect();
    assert!(lines[0].starts_with("1000:FFF8  20 20"));
    assert!(lines[1].starts_with("1000:0008  20 "));
    assert_eq!(hex_data("41 1F").unwrap(), [0x41, 0x1F]);
    assert_eq!(
        hex_data("411").unwrap_err(),
        "hex data must have an even number of digits"
    );
    assert_eq!(hex_data(&hex_bytes(&[0, 0x9A, 0xFF])).unwrap(), [0, 0x9A, 0xFF]);
    assert_eq!(to_base64(b"hello"), "aGVsbG8=");
    let sent = |h: Option<&str>, b: Option<&str>| {
        sent_data(&h.map(|t| t.to_string()), &b.map(|t| t.to_string()))
    };
    assert_eq!(sent(None, Some(" aGVsbG8=\n")).unwrap(), b"hello");
    assert!(sent(None, Some("a")).unwrap_err().starts_with("invalid base64: "));
    assert_eq!(
        sent(None, None).unwrap_err(),
        "provide exactly one of 'hex' or 'base64'"
    );
    assert_eq!(sent(Some("FF"), None).unwrap(), [0xFF]);
}

#[test]
fn the_log_keeps_and_finds_lines() {
    let mut log = LogRing::new();
    for n in 0..LOG_RING_CAPACITY as u64 + 2 {
        log.push(n, format!("line {}", n));
    }
    assert_eq!((log.lines.len(), log.lines[0].t_ms), (LOG_RING_CAPACITY, 2));
    let query = |since_ms: Option<u64>, limit: Option<usize>, grep: Option<&str>| LogQuery {
        since_ms,
        limit,
        grep: grep.map(|g| g.to_string()),
    };
    assert_eq!(log.query(&query(None, None, None)).len(), 500);
    assert_eq!(log_text(&log.query(&query(Some(5000), Some(1), None))), "      5001 line 5001\n");
    let found = log.query(&query(None, Some(10), Some("ne 77")));
    assert_eq!(found.len(), 10);
    assert!(found.iter().all(|l| l.line.contains("ne 77")));
    assert!(log.query(&query(None, None, Some("nothing"))).is_empty());
}

#[test]
fn clients_ask_by_name() {
    assert!(matches!(control("pause", None, None, None), Ok((Cmd::Pause, 5000))));
    assert!(matches!(control("step", Some(3), None, Some(9)), Ok((Cmd::Step { count: 3 }, 9))));
    assert!(matches!(
        control("continue", None, Some("CS:IP".to_string()), None),
        Ok((Cmd::Resume { until: Some(_) }, 5000))
    ));
    assert_eq!(
        control("fly", None, None, None).unwrap_err(),
        (404, "unknown action 'fly' (pause, resume, step, reboot_shell)".to_string())
    );
    assert_eq!((read_length(None), read_length(Some(7))), (256, 7));
    assert_eq!(read_length(Some(usize::MAX)), 1 << 20);
    assert_eq!(memory_format(None), Ok(MemoryFormat::Hex));
    assert_eq!(memory_format(Some("bin")), Ok(MemoryFormat::Raw));
    assert_eq!(
        memory_format(Some("x")).unwrap_err(),
        (400, "unknown format 'x' (hex, base64, raw)".to_string())
    );
    assert_eq!(default_type("key"), Ok(Some("key")));
    assert_eq!(default_type("batch"), Ok(None));
    assert_eq!(default_type("x").unwrap_err().0, 404);
}

#[test]
fn remounts_keep_their_options() {
    let mut disk = DiskController::new("/c".to_string(), "c".to_string());
    let opts = MountOptions {
        kind: DriveKind::CdRom,
        label: Some("games".to_string()),
        ..MountOptions::default()
    };
    disk.mount(3, "d", opts, false, Target::Directory(Ok("/d".to_string()))).unwrap();
    let kept = mount_options(disk.drive_info(3), false, None, None, false, vec![]);
    assert_eq!((kept.kind, kept.label.as_deref()), (DriveKind::CdRom, Some("GAMES")));
    let file = mount_options(disk.drive_info(3), true, None, None, false, vec![]);
    assert_eq!((file.kind, file.label), (DriveKind::HardDisk, None));
    let new = mount_options(disk.drive_info(3), false, Some(DriveKind::Floppy), None, false, vec![]);
    assert_eq!((new.kind, new.label), (DriveKind::Floppy, None));
}

#[test]
fn screens_are_read_as_text() {
    let glyphs: Vec<char> = (0..=255u8).map(|b| if b == 0 { ' ' } else { b as char }).collect();
    let mut vram = vec![0u8; 32];
    for (i, b) in b"Hi  there".iter().enumerate() {
        vram[2 * i] = *b;
    }
    let g = TextGeometry { cols: 4, rows: 3, start: 0, row_bytes: 8, wrap: 31 };
    assert_eq!(screen_text(&vram, &g, &glyphs), ["Hi", "ther", "e"]);
    // A picture that starts late wraps around.
    let g = TextGeometry { cols: 4, rows: 2, start: 24, row_bytes: 8, wrap: 31 };
    assert_eq!(screen_text(&vram, &g, &glyphs), ["", "Hi"]);
}

#[test]
fn speeds_are_measured_in_windows() {
    let mut stats = ExecStats::new();
    assert!(!stats.record_batch(100, 10, 999_999, 5, 1));
    assert!(stats.record_batch(50, 5, 1_000_000, 9, 2));
    assert_eq!((stats.last.executed, stats.last.exec_us, stats.last.hits, stats.last.misses), (150, 15, 9, 2));
    assert_eq!((stats.executed, stats.total_executed), (0, 150));
    let mut rate = FrameRate::new();
    for _ in 0..69 {
        assert!(!rate.count(10));
    }
    assert!(rate.count(1_000_001));
    assert_eq!((rate.measured, rate.measured_us), (70, 1_000_001));
}

#[test]
fn pictures_are_written_and_read() {
    let png = encode_png(&[255, 0, 0, 0, 255, 0], 2, 1).unwrap();
    assert_eq!(&png[..8], b"\x89PNG\r\n\x1a\n");
    assert!(encode_png(&[0; 5], 2, 1).is_err());
    // More bytes than an address can count.
    assert_eq!(encode_png(&[0], u32::MAX, u32::MAX).unwrap_err(), "the picture is too big");
    assert_eq!(
        screenshot(None, vec![0], u32::MAX, u32::MAX).unwrap_err(),
        (500, "the picture is too big".to_string())
    );
    assert_eq!(icon(&png).unwrap_err(), "the icon is Rgb Eight, not 8-bit RGBA");
    assert_eq!(icon_from(Err(None)).unwrap_err(), "the icon is too big");
    assert_eq!(
        icon_from(Ok((1, 1, 6, 8, 4, vec![1, 2, 3, 4, 5]))).unwrap(),
        (1, 1, vec![1, 2, 3, 4])
    );
    let shot = screenshot(None, vec![255, 0, 0, 0, 255, 0], 2, 1).unwrap();
    assert!(matches!(shot, Screenshot::Png(file) if file == png));
    let raw = screenshot(Some("raw"), vec![1, 2, 3], 1, 1).unwrap();
    assert!(matches!(raw, Screenshot::Raw { rgb, width: 1, height: 1 } if rgb == [1, 2, 3]));
    assert_eq!(
        screenshot(Some("gif"), vec![], 1, 1).unwrap_err(),
        (400, "unknown format 'gif' (png, raw)".to_string())
    );
    assert_eq!(screenshot(None, vec![1], 1, 1).unwrap_err().0, 500);
}

#[test]
fn streams_send_what_changed() {
    let mut stream = FrameStream::new(1, 1, vec![0, 0, 0]);
    assert!(!stream.is_due(u64::MAX));
    stream.offer(1, 1, vec![1, 2, 3], 0);
    assert_eq!((stream.seq, stream.rgb[0]), (0, 0));
    stream.offer(1, 1, vec![1, 2, 3], 1);
    assert!(stream.is_due(u64::MAX) && !stream.is_due(1));
    stream.offer(1, 1, vec![1, 2, 3], 1);
    assert_eq!(stream.seq, 1);
    stream.offer(3, 1, vec![1, 2, 3], 2);
    assert_eq!((stream.seq, stream.width), (2, 3));
    assert_eq!(sample_bytes(&vec![1, -2, 0x1234]), [1, 0, 0xFE, 0xFF, 0x34, 0x12]);
}

#[test]
fn the_status_tells_of_the_shell_and_the_drives() {
    let mut hub = DebugHub::new(1);
    let mut cpu = machine();
    let mut status = |cpu: &mut Cpu, disk: &DiskController| {
        let out = hub.handle(cpu, disk, &keymap(vec![]), 0, Cmd::Status, 1);
        match out.reply {
            Some(Reply::Status(status)) => status,
            other => panic!("{:?}", other),
        }
    };
    let mut disk = DiskController::new("/games".to_string(), "games".to_string());
    let told = status(&mut cpu, &disk);
    assert!(matches!(told.drive_c, Some(Shows::Directory(path)) if path == "/games"));
    assert_eq!((told.current_drive, told.shell_idle), ('C', false));
    disk.set_current_drive(25);
    assert_eq!(status(&mut cpu, &disk).current_drive, 'Z');

    // In the shell's own segment, or in a trap that the shell called.
    cpu.set_cs(0x0070);
    assert!(status(&mut cpu, &disk).shell_idle);
    cpu.set_cs(0xF000);
    cpu.set_ss(0x0070);
    cpu.set_sp(0x0EFA);
    cpu.bus.write_16(0x0700 + 0x0EFC, 0x1234);
    assert!(!status(&mut cpu, &disk).shell_idle);
    cpu.bus.write_16(0x0700 + 0x0EFC, 0x0070);
    assert!(status(&mut cpu, &disk).shell_idle);
    // A program that the shell started runs.
    cpu.save_process_context();
    assert!(!status(&mut cpu, &disk).shell_idle);
}
