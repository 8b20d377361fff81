use rust_dos::decode::decode_16;
use rust_dos::i86::cpu::{Cpu, CpuFlags, CpuState, AF, CF, DF, IF, OF, PF, SF, ZF};
use rust_dos::i86::exec::{execute_instruction, Effect};
use rust_dos::i86::load::can_load;
use rust_dos::i86::run::{can_run, Stepped};

/// A machine with a COM program loaded.
fn machine(code: &[u8]) -> Cpu {
    let mut cpu = Cpu::new(0x10_0000);
    assert!(cpu.load_executable(code, None));
    cpu
}

/// Run instructions that leave nothing to do.
fn run(cpu: &mut Cpu, n: usize) {
    for _ in 0..n {
        assert_eq!(cpu.step(0), Stepped::Ran(Effect::Done));
    }
}

#[test]
fn programs_load_and_run() {
    // MOV CX,3; INC BX; LOOP -3; PUSH AX; POP DX; INT 21h.
    let mut cpu = machine(&[0xB9, 0x03, 0x00, 0x43, 0xE2, 0xFD, 0x50, 0x5A, 0xCD, 0x21]);
    assert_eq!((cpu.cs, cpu.ip, cpu.ds), (0x1000, 0x100, 0x1000));
    cpu.ax = 0x1234;
    run(&mut cpu, 1 + 3 * 2 + 2);
    assert_eq!((cpu.bx, cpu.cx, cpu.dx), (3, 0, 0x1234));
    assert_eq!(cpu.step(0), Stepped::Ran(Effect::Interrupt(0x21)));
}

#[test]
fn comparing_sets_zero_exactly_for_equal_values() {
    // CMP AX,BX; JE +2.
    for (a, b, taken) in [(5u16, 5u16, true), (5, 6, false), (0x8000, 0, false)] {
        let mut cpu = machine(&[0x39, 0xD8, 0x74, 0x02, 0x90, 0x90, 0x90]);
        cpu.ax = a;
        cpu.bx = b;
        run(&mut cpu, 1);
        assert_eq!(cpu.get_cpu_flag(ZF), taken);
        assert_eq!(cpu.get_cpu_flag(CF), a < b);
        run(&mut cpu, 1);
        assert_eq!(cpu.ip, if taken { 0x106 } else { 0x104 });
    }
}

#[test]
fn repeated_stores_count_down() {
    // REP STOSB.
    let mut cpu = machine(&[0xF3, 0xAA]);
    cpu.es = 0x2000;
    cpu.di = 0x10;
    cpu.cx = 4;
    cpu.ax = 0x5A;
    run(&mut cpu, 1);
    assert_eq!((cpu.cx, cpu.di), (0, 0x14));
    for i in 0..4usize {
        assert_eq!(cpu.bus.read_8(0x2_0010 + i), 0x5A);
    }
    assert_eq!(cpu.bus.read_8(0x2_0014), 0);
}

#[test]
fn ports_and_traps_are_left_to_the_machine() {
    // MOV AL,7; OUT 42h,AL; IN AL,60h.
    let mut cpu = machine(&[0xB0, 0x07, 0xE6, 0x42, 0xE4, 0x60]);
    run(&mut cpu, 1);
    assert_eq!(cpu.step(0), Stepped::Ran(Effect::Out(0x42, 7)));
    let kind = cpu.step(0);
    let Stepped::Ran(Effect::In(port, register)) = kind else { panic!("{:?}", kind) };
    assert_eq!(port, 0x60);
    rust_dos::i86::exec::finish_in(&mut cpu, register, 0x99);
    assert_eq!(cpu.get_al(), 0x99);

    // A trap of the emulator.
    let mut cpu = machine(&[0xFE, 0x38, 0x13]);
    assert_eq!(cpu.step(0), Stepped::Service(0x13));
    cpu.state = CpuState::RebootShell;
    assert_eq!(cpu.step(0), Stepped::Stopped);
}

#[test]
fn the_timer_calls_its_handler() {
    let mut cpu = machine(&[0x43]);
    cpu.bus.write_16(0x1C * 4, 0x0123);
    cpu.bus.write_16(0x1C * 4 + 2, 0x0456);
    cpu.bus.write_16(0x08 * 4, 0x0AAA);
    cpu.bus.write_16(0x08 * 4 + 2, 0x0BBB);
    cpu.set_cpu_flag(IF, true);
    let (cs, ip) = (cpu.cs, cpu.ip);
    assert_eq!(cpu.step(54), Stepped::Ran(Effect::Done));
    assert_eq!(cpu.step(55), Stepped::Timer);
    assert!(!cpu.get_cpu_flag(IF));
    assert_eq!((cpu.pop(), cpu.pop()), (ip + 1, cs));
}

#[test]
fn unknown_instructions_are_refused() {
    // SAHF is decoded but not run.
    let i = decode_16(&[0x9E], 0);
    let mut cpu = Cpu::new(0x1000);
    assert!(can_run(&cpu, &i));
    assert_eq!(execute_instruction(&mut cpu, &i), Effect::Unhandled);
    // Memory ends: there is nothing to run.
    cpu.cs = 0x1000;
    assert_eq!(cpu.step(0), Stepped::NoMemory);
}

#[test]
fn exe_files_are_relocated() {
    let mut exe = vec![0u8; 0x40];
    exe[0] = b'M';
    exe[1] = b'Z';
    exe[2] = 0x44; // bytes in the last page
    exe[4] = 1; // pages
    exe[6] = 1; // relocations
    exe[8] = 4; // paragraphs of header
    exe[0x0E] = 0x10; // SS
    exe[0x10] = 0x80; // SP
    exe[0x14] = 0x02; // IP
    exe[0x18] = 0x1C; // where the relocations are
    exe.extend([0x01, 0x00, 0x90, 0x90]);
    let mut cpu = Cpu::new(0x10_0000);
    assert!(cpu.load_executable(&exe, Some(0x2000)));
    assert_eq!((cpu.cs, cpu.ip), (0x2010, 0x0002));
    assert_eq!((cpu.ss, cpu.sp), (0x2020, 0x0080));
    // The word at the module's start had the load segment added.
    assert_eq!(cpu.bus.read_16(0x2_0100), 0x2011);
    // A header without a program is no EXE file.
    assert!(!cpu.load_executable(b"MZ.", Some(0x2000)));
}

#[test]
fn the_floating_point_stack_is_last_in_first_out() {
    let mut cpu = Cpu::new(0x1000);
    let one = rust_dos::f80::F80::from_integer(1, false);
    let two = rust_dos::f80::F80::from_integer(2, true);
    assert_eq!((one.sign_exponent, one.significand), (0x3FFF, 1 << 63));
    assert_eq!((two.sign_exponent, two.significand), (0xC000, 1 << 63));
    cpu.fpu_push(one);
    cpu.fpu_push(two);
    assert_eq!(cpu.fpu_get(1), one);
    assert_eq!((cpu.fpu_pop(), cpu.fpu_pop()), (two, one));
}

/// A machine with registers AX and BX, after one instruction.
fn after(code: &[u8], ax: u16, bx: u16, carry: bool) -> Cpu {
    let mut cpu = machine(code);
    cpu.ax = ax;
    cpu.bx = bx;
    cpu.set_cpu_flag(CF, carry);
    run(&mut cpu, 1);
    cpu
}

/// The flags of a result: carry, zero, sign, overflow.
fn told(cpu: &Cpu) -> (bool, bool, bool, bool) {
    (
        cpu.get_cpu_flag(CF),
        cpu.get_cpu_flag(ZF),
        cpu.get_cpu_flag(SF),
        cpu.get_cpu_flag(OF),
    )
}

#[test]
fn sums_and_differences_set_the_flags() {
    // ADD AX,BX.
    let cpu = after(&[0x01, 0xD8], 0x7FFF, 1, false);
    assert_eq!((cpu.ax, told(&cpu)), (0x8000, (false, false, true, true)));
    assert!(cpu.get_cpu_flag(AF) && cpu.get_cpu_flag(PF));
    let cpu = after(&[0x01, 0xD8], 0xFFFF, 1, false);
    assert_eq!((cpu.ax, told(&cpu)), (0, (true, true, false, false)));
    // SUB AX,BX.
    let cpu = after(&[0x29, 0xD8], 3, 5, false);
    assert_eq!((cpu.ax, told(&cpu)), (0xFFFE, (true, false, true, false)));
    let cpu = after(&[0x29, 0xD8], 0x8000, 1, false);
    assert_eq!((cpu.ax, told(&cpu)), (0x7FFF, (false, false, false, true)));
    // ADC AX,BX and SBB AX,BX, with the carry.
    let cpu = after(&[0x11, 0xD8], 1, 2, true);
    assert_eq!((cpu.ax, told(&cpu)), (4, (false, false, false, false)));
    let cpu = after(&[0x19, 0xD8], 3, 2, true);
    assert_eq!((cpu.ax, told(&cpu)), (0, (false, true, false, false)));
    // ADD AL,BL.
    let cpu = after(&[0x00, 0xD8], 0x12F0, 0x3411, false);
    assert_eq!((cpu.ax, told(&cpu)), (0x1201, (true, false, false, false)));
    // INC AX and DEC AX leave the carry alone.
    let cpu = after(&[0x40], 0x7FFF, 0, true);
    assert_eq!((cpu.ax, told(&cpu)), (0x8000, (true, false, true, true)));
    let cpu = after(&[0x48], 1, 0, false);
    assert_eq!((cpu.ax, told(&cpu)), (0, (false, true, false, false)));
}

#[test]
fn products_say_whether_they_are_wide() {
    // MUL BX.
    let cpu = after(&[0xF7, 0xE3], 0x1234, 0x100, false);
    assert_eq!((cpu.dx, cpu.ax), (0x12, 0x3400));
    assert!(cpu.get_cpu_flag(CF) && cpu.get_cpu_flag(OF));
    let cpu = after(&[0xF7, 0xE3], 300, 2, true);
    assert_eq!((cpu.dx, cpu.ax, cpu.get_cpu_flag(CF)), (0, 600, false));
    // IMUL BX.
    let cpu = after(&[0xF7, 0xEB], 0xFFFF, 2, true);
    assert_eq!((cpu.dx, cpu.ax, cpu.get_cpu_flag(CF)), (0xFFFF, 0xFFFE, false));
}

#[test]
fn logic_and_shifts() {
    // AND, OR, XOR, TEST and NOT.
    assert_eq!(after(&[0x21, 0xD8], 0xF0F0, 0xFF00, true).ax, 0xF000);
    assert_eq!(after(&[0x09, 0xD8], 0xF0F0, 0x0F00, true).ax, 0xFFF0);
    assert_eq!(after(&[0x31, 0xD8], 0xFFFF, 0xFF00, true).ax, 0x00FF);
    let cpu = after(&[0x85, 0xD8], 0xF0F0, 0x0F0F, true);
    assert_eq!((cpu.ax, told(&cpu)), (0xF0F0, (false, true, false, false)));
    assert_eq!(after(&[0xF7, 0xD0], 0x1234, 0, false).ax, 0xEDCB);
    // SHL AX,1; SHR AX,1; SAR AX,1: the bit moved out is the carry.
    let cpu = after(&[0xD1, 0xE0], 0x8001, 0, false);
    assert_eq!((cpu.ax, cpu.get_cpu_flag(CF)), (2, true));
    let cpu = after(&[0xD1, 0xE8], 0x8001, 0, false);
    assert_eq!((cpu.ax, cpu.get_cpu_flag(CF)), (0x4000, true));
    let cpu = after(&[0xD1, 0xF8], 0x8002, 0, true);
    assert_eq!((cpu.ax, cpu.get_cpu_flag(CF)), (0xC001, false));
}

#[test]
fn decimal_digits_are_adjusted() {
    // AAA carries into AH.
    let cpu = after(&[0x37], 0x010B, 0, false);
    assert_eq!((cpu.ax, cpu.get_cpu_flag(CF)), (0x0201, true));
    // DAS makes 42 - 14 = 28 of the difference 2Eh.
    let cpu = after(&[0x2F], 0x002E, 0, false);
    assert_eq!((cpu.ax, cpu.get_cpu_flag(AF)), (0x28, true));
}

#[test]
fn conditional_jumps_tell_the_order() {
    // CMP AX,BX, then JB, JBE, JAE, JL and JLE.
    for (a, b) in [(1u16, 2u16), (2, 1), (7, 7), (0x8000, 1), (0xFFFF, 0), (0x7FFF, 0x8000)] {
        let (x, y) = (a as i16, b as i16);
        let cases: [(u8, bool); 5] =
            [(0x72, a < b), (0x76, a <= b), (0x73, a >= b), (0x7C, x < y), (0x7E, x <= y)];
        for (opcode, taken) in cases {
            let mut cpu = machine(&[0x39, 0xD8, opcode, 0x10]);
            cpu.ax = a;
            cpu.bx = b;
            run(&mut cpu, 2);
            assert_eq!(cpu.ip == 0x114, taken, "{:x} {} {}", opcode, a, b);
            assert_eq!((cpu.ax, cpu.bx), (a, b));
        }
    }
}

#[test]
fn calls_return_behind_themselves() {
    // CALL +3; INC AX; NOP; NOP; RET.
    let mut cpu = machine(&[0xE8, 0x03, 0x00, 0x40, 0x90, 0x90, 0xC3]);
    let sp = cpu.sp;
    run(&mut cpu, 1);
    assert_eq!((cpu.ip, cpu.sp), (0x106, sp.wrapping_sub(2)));
    run(&mut cpu, 1);
    assert_eq!((cpu.ip, cpu.sp), (0x103, sp));

    // A far call to 1000:0105; RETF; RETF 4.
    let mut cpu = machine(&[0x9A, 0x05, 0x01, 0x00, 0x10, 0xCB]);
    run(&mut cpu, 1);
    assert_eq!((cpu.cs, cpu.ip, cpu.sp), (0x1000, 0x105, sp.wrapping_sub(4)));
    run(&mut cpu, 1);
    assert_eq!((cpu.cs, cpu.ip, cpu.sp), (0x1000, 0x105, sp));
    let mut cpu = machine(&[0xCA, 0x04, 0x00]);
    cpu.push(0x2000);
    cpu.push(0x0033);
    run(&mut cpu, 1);
    assert_eq!((cpu.cs, cpu.ip, cpu.sp), (0x2000, 0x33, sp.wrapping_add(4)));
}

#[test]
fn exchanging_twice_changes_nothing() {
    // XCHG BX,AX, twice.
    let mut cpu = machine(&[0x93, 0x93]);
    cpu.ax = 0x1111;
    cpu.bx = 0x2222;
    run(&mut cpu, 1);
    assert_eq!((cpu.ax, cpu.bx), (0x2222, 0x1111));
    run(&mut cpu, 1);
    assert_eq!((cpu.ax, cpu.bx), (0x1111, 0x2222));
}

#[test]
fn searching_stops_at_the_byte() {
    // REPNE SCASB.
    let mut cpu = machine(&[0xF2, 0xAE]);
    cpu.es = 0x3000;
    cpu.di = 0;
    cpu.cx = 10;
    cpu.ax = b'c' as u16;
    cpu.bus.load_bytes(0x3_0000, b"abcdef");
    run(&mut cpu, 1);
    assert_eq!((cpu.cx, cpu.di, cpu.get_cpu_flag(ZF)), (7, 3, true));
    // Nothing there equals it: CX runs out.
    cpu.ip = 0x100;
    cpu.di = 0;
    cpu.cx = 2;
    run(&mut cpu, 1);
    assert_eq!((cpu.cx, cpu.di, cpu.get_cpu_flag(ZF)), (0, 2, false));
}

#[test]
fn strings_move_in_either_direction() {
    // REP MOVSW, backwards.
    let mut cpu = machine(&[0xF3, 0xA5]);
    (cpu.ds, cpu.es, cpu.si, cpu.di, cpu.cx) = (0x2000, 0x3000, 2, 0x12, 2);
    cpu.bus.load_bytes(0x2_0000, &[1, 2, 3, 4]);
    cpu.set_cpu_flag(DF, true);
    run(&mut cpu, 1);
    assert_eq!((cpu.cx, cpu.si, cpu.di), (0, 0xFFFE, 0x0E));
    assert_eq!((cpu.bus.read_16(0x3_0010), cpu.bus.read_16(0x3_0012)), (0x0201, 0x0403));
    // LODSB.
    let mut cpu = machine(&[0xAC]);
    (cpu.ds, cpu.si) = (0x2000, 1);
    cpu.bus.load_bytes(0x2_0000, &[1, 2]);
    run(&mut cpu, 1);
    assert_eq!((cpu.get_al(), cpu.si), (2, 2));
}

#[test]
fn addresses_and_pointers_load() {
    // LEA AX,[BX+SI+5].
    let mut cpu = machine(&[0x8D, 0x40, 0x05]);
    (cpu.bx, cpu.si) = (0x100, 0x20);
    run(&mut cpu, 1);
    assert_eq!(cpu.ax, 0x125);
    // LEA AX,[0006h] is the offset alone, whatever DS is.
    let mut cpu = machine(&[0x8D, 0x06, 0x06, 0x00]);
    cpu.ds = 1;
    run(&mut cpu, 1);
    assert_eq!(cpu.ax, 6);
    // LES DI,[BX]; LDS SI,[BX].
    let mut cpu = machine(&[0xC4, 0x3F, 0xC5, 0x37]);
    cpu.bx = 0x200;
    cpu.bus.load_bytes(0x1_0200, &[0x34, 0x12, 0x00, 0x50]);
    run(&mut cpu, 2);
    assert_eq!((cpu.es, cpu.di, cpu.ds, cpu.si), (0x5000, 0x1234, 0x5000, 0x1234));
    // The pointer is where the base register says: LES DI,[BX+2].
    let mut cpu = machine(&[0xC4, 0x7F, 0x02]);
    cpu.bx = 0x200;
    cpu.bus.load_bytes(0x1_0200, &[0x34, 0x12, 0x00, 0x50, 0x00, 0x60]);
    run(&mut cpu, 1);
    assert_eq!((cpu.es, cpu.di), (0x5000, 0x1234));
    // LDS SI,[0200h] has none: offset 0.
    let mut cpu = machine(&[0xC5, 0x36, 0x00, 0x02]);
    cpu.bus.load_bytes(0x1_0000, &[0x78, 0x56, 0x00, 0x70]);
    run(&mut cpu, 1);
    assert_eq!((cpu.ds, cpu.si), (0x7000, 0x5678));
}

#[test]
fn the_stack_holds_registers_and_flags() {
    // PUSHF; POP AX: the reserved bit reads as set.
    let mut cpu = machine(&[0x9C, 0x58]);
    cpu.set_cpu_flag(CF, true);
    let flags = cpu.flags.bits();
    run(&mut cpu, 2);
    assert_eq!(cpu.ax, flags | 2);
    // PUSH AX; POPF: only declared bits stay, and the reserved one is set.
    let mut cpu = machine(&[0x50, 0x9D]);
    cpu.ax = 0xFFFF;
    run(&mut cpu, 2);
    assert_eq!(cpu.flags.bits(), 0x0FD7);
    let mut cpu = machine(&[0x50, 0x9D]);
    cpu.ax = 0;
    run(&mut cpu, 2);
    assert_eq!(cpu.flags.bits(), 0x0002);
    // POPA leaves SP where the eighth word ends.
    let mut cpu = machine(&[0x61]);
    let sp = cpu.sp;
    for value in 1..=8u16 {
        cpu.push(value);
    }
    run(&mut cpu, 1);
    assert_eq!((cpu.ax, cpu.cx, cpu.dx, cpu.bx), (1, 2, 3, 4));
    assert_eq!((cpu.bp, cpu.si, cpu.di, cpu.sp), (6, 7, 8, sp));
}

#[test]
fn the_reserved_flag_is_always_set() {
    let mut cpu = Cpu::new(0x1000);
    assert_eq!(cpu.flags.bits(), 2);
    cpu.set_cpu_flags(CpuFlags::from_bits_truncate(CF));
    assert_eq!(cpu.flags.bits(), 0x0003);
}

#[test]
fn shifts_by_the_whole_width_leave_the_value() {
    // SHL AX,CL; SHR AX,CL; SAR AX,CL; SHL AL,CL; SHR AL,CL; SAR AL,CL.
    for (code, ax, cl, expected, carry) in [
        ([0xD3u8, 0xE0], 0x8001u16, 16u16, 0x8001u16, true),
        ([0xD3, 0xE8], 0x8001, 16, 0x8001, true),
        ([0xD3, 0xF8], 0x8001, 16, 0x8001, true),
        ([0xD3, 0xF8], 0x4001, 16, 0x4001, false),
        ([0xD2, 0xE0], 0x1280, 8, 0x1280, false),
        ([0xD2, 0xE8], 0x1281, 8, 0x1281, true),
        ([0xD2, 0xF8], 0x1281, 8, 0x1281, true),
        ([0xD3, 0xE0], 0x8001, 4, 0x0010, false),
        ([0xD3, 0xE8], 0x8008, 4, 0x0800, true),
        ([0xD3, 0xF8], 0x8001, 4, 0xF800, false),
    ] {
        let mut cpu = machine(&code);
        (cpu.ax, cpu.cx) = (ax, cl);
        run(&mut cpu, 1);
        assert_eq!(cpu.ax, expected, "{:02X?} {:04X} by {}", code, ax, cl);
        assert_eq!(cpu.get_cpu_flag(CF), carry, "{:02X?} {:04X} by {}", code, ax, cl);
    }
}

#[test]
fn sources_are_registers_or_immediates() {
    // ADD, SUB, AND, OR, XOR, SBB and ADC AX,[BX]: the instruction has no
    // immediate, which reads as 0.
    for (code, carry, expected) in [
        (0x03u8, false, 0x1234u16),
        (0x2B, false, 0x1234),
        (0x23, false, 0x0000),
        (0x0B, false, 0x1234),
        (0x33, false, 0x1234),
        (0x1B, true, 0x1233),
        (0x13, true, 0x1235),
    ] {
        let mut cpu = machine(&[code, 0x07]);
        (cpu.ax, cpu.bx) = (0x1234, 0x200);
        cpu.bus.write_16(0x1_0200, 5);
        cpu.set_cpu_flag(CF, carry);
        run(&mut cpu, 1);
        assert_eq!(cpu.ax, expected, "{:02X}", code);
    }
    // A comparison reads memory: CMP AX,[BX].
    let mut cpu = machine(&[0x3B, 0x07]);
    (cpu.ax, cpu.bx) = (5, 0x200);
    cpu.bus.write_16(0x1_0200, 5);
    run(&mut cpu, 1);
    assert!(cpu.get_cpu_flag(ZF));
}

#[test]
fn programs_that_cannot_be_placed_are_told_apart() {
    assert!(can_load(b"\xB4\x4C", None));
    assert!(can_load(b"\xB4\x4C", Some(0xEFFF)));
    assert!(!can_load(b"\xB4\x4C", Some(0xF000)));
    let mut exe = vec![0u8; 0x60];
    exe[0..2].copy_from_slice(b"MZ");
    exe[8] = 2;
    // Four paragraphs of image behind the prefix.
    assert!(can_load(&exe, Some(0xFFEA)));
    assert!(!can_load(&exe, Some(0xFFEB)));
    assert!(!can_load(&exe, Some(0xFFF0)));
    // A header longer than the file is refused later.
    exe[8] = 0x10;
    assert!(can_load(&exe, Some(0xFFEB)));
    assert!(!Cpu::new(0x10_0000).load_executable(&exe, None));
}
