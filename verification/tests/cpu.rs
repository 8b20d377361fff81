use rust_dos::bus::Bus;
use rust_dos::cpu::alu::ShiftOp;
use rust_dos::cpu::fault::{exception_name, IntSource};
use rust_dos::cpu::load::{Loaded, MemoryMap, Placement};
use rust_dos::cpu::mem::Access;
use rust_dos::cpu::paging::{PTE_A, PTE_D};
use rust_dos::cpu::process::UpperMemory;
use rust_dos::cpu::regs::Seg;
use rust_dos::cpu::seg::Descriptor;
use rust_dos::cpu::state::{
    CoreMode, Cpu, CpuState, DescTable, Fault, CF, CR0_PE, CR0_PG, IF, NT, OF, SF, ZF,
};
use rust_dos::cpu::task::Switch;
use rust_dos::disk::drives::DiskController;
use rust_dos::disk::files::{HostThing, Outside};

fn machine() -> Cpu {
    Cpu::with_bus(Bus::new(0x10_0000, true), 0x200, vec![], CoreMode::Normal)
}

/// A flat data segment, a code segment and one that isn't there at 08h, 10h
/// and 18h, in protected mode.
fn protected() -> Cpu {
    let mut cpu = machine();
    let table: [u64; 4] =
        [0, 0x00CF_9200_0000_FFFF, 0x00CF_9A00_0000_FFFF, 0x00CF_1200_0000_FFFF];
    for (i, d) in table.iter().enumerate() {
        cpu.bus.load_bytes(0x1000 + 8 * i, &d.to_le_bytes());
    }
    cpu.gdtr = DescTable { base: 0x1000, limit: 31 };
    cpu.cr0 |= CR0_PE;
    cpu
}

#[test]
fn arithmetic_sets_the_flags() {
    let mut cpu = machine();
    assert_eq!(cpu.alu_add(1, 0xFF, 1, false), 0);
    assert!(cpu.get_cpu_flag(CF) && cpu.get_cpu_flag(ZF) && !cpu.get_cpu_flag(OF));
    assert_eq!(cpu.alu_add(2, 0x7FFF, 1, false), 0x8000);
    assert!(!cpu.get_cpu_flag(CF) && cpu.get_cpu_flag(SF) && cpu.get_cpu_flag(OF));
    assert_eq!(cpu.alu_sub(4, 0, 1, false), 0xFFFF_FFFF);
    assert!(cpu.get_cpu_flag(CF) && cpu.get_cpu_flag(SF));
    // Subtracting undoes adding.
    let sum = cpu.alu_add(4, 0xDEAD_BEEF, 0x1234_5678, false);
    assert_eq!(cpu.alu_sub(4, sum, 0x1234_5678, false), 0xDEAD_BEEF);
    assert_eq!(cpu.alu_neg(1, 0x80), 0x80);
    assert!(cpu.get_cpu_flag(OF));
}

#[test]
fn shifts_and_rotations() {
    let mut cpu = machine();
    assert_eq!(cpu.alu_shift(ShiftOp::Shl, 1, 0x81, 1), 0x02);
    assert!(cpu.get_cpu_flag(CF));
    assert_eq!(cpu.alu_shift(ShiftOp::Sar, 1, 0x80, 3), 0xF0);
    assert_eq!(cpu.alu_shift(ShiftOp::Rol, 2, 0x8001, 4), 0x0018);
    let left = cpu.alu_shift(ShiftOp::Rol, 4, 0xCAFE_F00D, 13);
    assert_eq!(cpu.alu_shift(ShiftOp::Ror, 4, left, 13), 0xCAFE_F00D);
    // Through the carry and back.
    cpu.set_cpu_flag(CF, true);
    let there = cpu.alu_shift(ShiftOp::Rcl, 1, 0x35, 5);
    assert_eq!(cpu.alu_shift(ShiftOp::Rcr, 1, there, 5), 0x35);
    assert!(cpu.get_cpu_flag(CF));
    for size in [1u8, 2, 4] {
        let value = if size == 1 { 0xA5 } else { 0xA5C3 };
        for count in 0..32 {
            for carry in [false, true] {
                cpu.set_cpu_flag(CF, carry);
                let there = cpu.alu_shift(ShiftOp::Rcl, size, value, count);
                assert_eq!(cpu.alu_shift(ShiftOp::Rcr, size, there, count), value);
                assert_eq!(cpu.get_cpu_flag(CF), carry);
                let there = cpu.alu_shift(ShiftOp::Rol, size, value, count);
                assert_eq!(cpu.alu_shift(ShiftOp::Ror, size, there, count), value);
            }
        }
    }
    assert_eq!(cpu.alu_double_shift(true, 2, 0x1234, 0xABCD, 4), 0x234A);
}

#[test]
fn registers_have_their_parts() {
    let mut cpu = machine();
    cpu.set_eax(0x1122_3344);
    cpu.set_ax(0xAABB);
    assert_eq!(cpu.eax(), 0x1122_AABB);
    assert_eq!((cpu.get_ah(), cpu.get_al()), (0xAA, 0xBB));
    cpu.set_ds(0x1234);
    assert_eq!((cpu.ds(), cpu.seg_cache(Seg::DS).base), (0x1234, 0x1_2340));
    cpu.set_eip(0x1_2345);
    assert_eq!((cpu.eip(), cpu.ip()), (0x1_2345, 0x2345));
    assert_eq!(cpu.get_physical_addr(0x1000, 0x0010), 0x1_0010);
}

#[test]
fn what_is_pushed_is_popped() {
    let mut cpu = machine();
    cpu.set_ss(0x3000);
    cpu.set_sp(0x100);
    cpu.push(0xBEEF);
    assert_eq!(cpu.sp(), 0xFE);
    assert_eq!(cpu.pop(), 0xBEEF);
    assert_eq!(cpu.sp(), 0x100);
    cpu.push_sized(4, 0x0102_0304).unwrap();
    assert_eq!(cpu.pop_sized(4), Ok(0x0102_0304));
    // A 16-bit stack wraps within SP and leaves the rest of ESP alone.
    cpu.set_esp(0xABCD_0000);
    cpu.push_sized(2, 0x1234_5678).unwrap();
    assert_eq!(cpu.esp(), 0xABCD_FFFE);
    assert_eq!(cpu.pop_sized(2), Ok(0x5678));
    assert_eq!(cpu.esp(), 0xABCD_0000);
    // A push that would cross the segment's end is not done.
    cpu.bus.load_bytes(0x3_0000, &[1, 2]);
    cpu.set_esp(0xABCD_0001);
    assert_eq!(cpu.push_sized(2, 0x5678).map_err(|f| f.vector), Err(12));
    assert_eq!((cpu.esp(), cpu.bus.read_16(0x3_0000), cpu.bus.read_8(0x3_FFFF)), (0xABCD_0001, 0x0201, 0x56));
}

#[test]
fn a_push_into_a_missing_page_pushes_nothing() {
    let mut cpu = protected();
    // Linear 5000h is at 7000h; the page below isn't there.
    cpu.bus.write_32(0x8000, 0x9003);
    cpu.bus.write_32(0x9000 + 4 * 5, 0x7003);
    cpu.cr3 = 0x8000;
    cpu.load_segment(Seg::SS, 0x08).unwrap();
    cpu.cr0 |= CR0_PG;
    cpu.set_esp(0x5002);
    cpu.bus.write_16(0x7000, 0xAAAA);
    assert_eq!(cpu.push_sized(4, 0x1122_3344), Err(Fault { vector: 14, error: Some(2) }));
    assert_eq!((cpu.esp(), cpu.bus.read_16(0x7000), cpu.cr2), (0x5002, 0xAAAA, 0x4FFE));
    cpu.push_sized(2, 0x3344).unwrap();
    assert_eq!((cpu.esp(), cpu.bus.read_16(0x7000)), (0x5000, 0x3344));
}

#[test]
fn operands_read_back_and_limits_fault() {
    let mut cpu = machine();
    cpu.set_ds(0x2000);
    cpu.write_u32(Seg::DS, 0x10, 0xDEAD_BEEF).unwrap();
    assert_eq!(cpu.read_u32(Seg::DS, 0x10), Ok(0xDEAD_BEEF));
    assert_eq!(cpu.read_u8(Seg::DS, 0x13), Ok(0xDE));
    assert_eq!(cpu.bus.read_16(0x2_0010), 0xBEEF);
    // A word at the end of the segment.
    assert_eq!(cpu.read_u16(Seg::DS, 0xFFFF), Err(Fault { vector: 13, error: Some(0) }));
    assert_eq!(cpu.seg_linear(Seg::SS, 0x1_0000, 1, Access::Read).map_err(|f| f.vector), Err(12));
    // What can be written can be read.
    assert!(cpu.seg_linear(Seg::DS, 0x10, 4, Access::Write).is_ok());
    assert!(cpu.seg_linear(Seg::DS, 0x10, 4, Access::Read).is_ok());
}

#[test]
fn protected_segments_are_checked() {
    let mut cpu = protected();
    cpu.load_segment(Seg::DS, 0x08).unwrap();
    let cache = cpu.seg_cache(Seg::DS);
    assert_eq!((cache.selector, cache.base, cache.limit), (0x08, 0, 0xFFFF_FFFF));
    // The descriptor is marked accessed.
    assert_eq!(cpu.bus.read_8(0x100D), 0x93);
    assert_eq!(cpu.load_segment(Seg::ES, 0x18), Err(Fault { vector: 11, error: Some(0x18) }));
    assert_eq!(cpu.load_segment(Seg::ES, 0x20), Err(Fault { vector: 13, error: Some(0x20) }));
    assert_eq!(cpu.load_segment(Seg::SS, 0), Err(Fault { vector: 13, error: Some(0) }));
    cpu.load_segment(Seg::ES, 0).unwrap();
    assert_eq!(cpu.read_u8(Seg::ES, 0).map_err(|f| f.vector), Err(13));
    let d = Descriptor(0x00CF_9A00_0000_FFFF);
    assert!(d.is_code() && d.present() && d.readable() && !d.conforming());
    assert_eq!((d.base(), d.limit(), d.dpl()), (0, 0xFFFF_FFFF, 0));
    // System descriptors, here a local table's, are neither code nor data.
    let table = Descriptor(0x0000_8200_0000_0000);
    assert!(!table.readable() && !table.is_code() && !table.is_data());
    // Code that may only be executed.
    assert!(!Descriptor(0x00CF_9800_0000_FFFF).readable());
    assert!(Descriptor(0x00CF_9000_0000_FFFF).readable());
}

#[test]
fn pages_are_walked_and_marked() {
    let mut cpu = protected();
    // A directory at 8000h, a table at 9000h: linear 5000h is at 7000h.
    cpu.bus.write_32(0x8000, 0x9003);
    cpu.bus.write_32(0x9000 + 4 * 5, 0x7003);
    cpu.cr3 = 0x8000;
    cpu.cr0 |= CR0_PG;
    assert_eq!(cpu.peek_translate(0x5123), Some(0x7123));
    assert_eq!(cpu.bus.read_32(0x9014) & (PTE_A | PTE_D), 0);
    assert_eq!(cpu.lin_to_phys(0x5123, false, false), Ok(0x7123));
    assert_eq!(cpu.bus.read_32(0x9014) & (PTE_A | PTE_D), PTE_A);
    assert_eq!(cpu.lin_to_phys(0x5123, true, false), Ok(0x7123));
    assert_eq!(cpu.bus.read_32(0x9014) & (PTE_A | PTE_D), PTE_A | PTE_D);
    // Users are kept out, and unmapped pages fault with their address.
    assert_eq!(cpu.lin_to_phys(0x5000, false, true).map_err(|f| f.vector), Err(14));
    assert_eq!(cpu.lin_to_phys(0x6004, true, false), Err(Fault { vector: 14, error: Some(2) }));
    assert_eq!(cpu.cr2, 0x6004);
    assert_eq!(cpu.peek_translate(0x6004), None);
    assert_eq!(cpu.peek_translate(0x5123), Some(0x7123));
    // A translation is kept until the TLB is flushed.
    cpu.bus.write_32(0x9014, 0);
    assert_eq!(cpu.lin_to_phys(0x5123, false, false), Ok(0x7123));
    cpu.tlb.flush();
    assert!(cpu.lin_to_phys(0x5123, false, false).is_err());
}

#[test]
fn interrupts_go_through_the_vector_table() {
    let mut cpu = machine();
    cpu.bus.write_16(0x21 * 4, 0x1234);
    cpu.bus.write_16(0x21 * 4 + 2, 0x5678);
    cpu.set_ss(0x3000);
    cpu.set_sp(0x100);
    cpu.set_cs(0x1000);
    cpu.set_ip(0x10);
    cpu.set_cpu_flag(IF, true);
    let flags = cpu.flags16();
    cpu.deliver_interrupt(0x21, IntSource::Software, None).unwrap();
    assert_eq!((cpu.cs(), cpu.ip()), (0x5678, 0x1234));
    assert!(!cpu.get_cpu_flag(IF));
    assert_eq!((cpu.pop(), cpu.pop(), cpu.pop()), (0x10, 0x1000, flags));
}

#[test]
fn faults_without_handlers_shut_down() {
    let mut cpu = protected();
    cpu.idtr = DescTable { base: 0, limit: 0 };
    cpu.raise(Fault { vector: 6, error: None });
    // A triple fault resets the machine.
    assert_eq!(cpu.cr0 & CR0_PE, 0);
    assert!(cpu.exceptions >= 1);
    assert_eq!(cpu.exception_log[0].vector, 6);
    assert_eq!(exception_name(14), "#PF");
}

#[test]
fn programs_and_overlays_load() {
    let mut cpu = machine();
    let map = MemoryMap { first_mcb: 0x200, low_end: 0x9FFF, conventional_end: 0xA000, block: None };
    let loaded = cpu.load_program_bytes(&[0xB8, 0x01, 0x00], Placement::Shell, &map, &[0, 0]);
    assert!(matches!(loaded, Loaded::Placed(_)));
    assert_eq!(cpu.ip(), 0x100);
    let at = cpu.get_physical_addr(cpu.cs(), 0x100);
    assert_eq!(cpu.bus.read_8(at), 0xB8);
    // A program that fits in upper memory goes there.
    let high = MemoryMap { block: Some(0x1000), ..map };
    let program = [0xB8, 0x02, 0x00];
    let (place, loaded) =
        cpu.load_executable_high(&program, Some((0xC800, 0x1000)), &high, &[0, 0]);
    assert_eq!(place, Placement::High(0xC801));
    assert!(matches!(loaded, Loaded::Placed(_)));
    assert_eq!((cpu.cs(), cpu.bus.read_8(0xC_8010 + 0x101)), (0xC801, 0x02));
    let (place, _) = cpu.load_executable_high(&program, Some((0xC800, 2)), &map, &[0, 0]);
    assert_eq!(place, Placement::Shell);
    assert!(cpu.load_overlay(&[1, 2, 3], 0x4000, 0));
    assert_eq!(cpu.bus.read_16(0x4_0000), 0x0201);
    cpu.set_command_tail(0x4000, b"/x");
    assert_eq!(cpu.bus.read_8(0x4_0080), 3);
    assert_eq!(cpu.bus.read_32(0x4_0081), u32::from_le_bytes([b' ', b'/', b'x', 13]));
}

#[test]
fn environments_keep_their_variables() {
    let mut cpu = machine();
    cpu.set_env("path", "C:\\");
    cpu.set_env("PATH", "D:\\");
    assert_eq!(cpu.get_env("Path"), Some("D:\\"));
    cpu.set_env("PATH", "");
    assert_eq!(cpu.get_env("PATH"), None);
    let vars = vec![(b"A".to_vec(), b"1".to_vec())];
    assert_eq!(Cpu::environment_block(&vars, b"C:\\X.EXE"), b"A=1\0\0\x01\0C:\\X.EXE\0");
}

#[test]
fn processes_come_back_to_their_parents() {
    let mut cpu = machine();
    assert!(!cpu.restore_process_context());
    cpu.set_eax(0x1234);
    cpu.dos.current_psp = 0x1111;
    cpu.save_process_context();
    cpu.set_eax(0);
    cpu.dos.current_psp = 0x2222;
    assert!(cpu.restore_process_context());
    assert_eq!((cpu.eax(), cpu.dos.current_psp), (0x1234, 0x1111));
    let snapshot = cpu.snapshot();
    cpu.set_eip(0x9999);
    cpu.restore(&snapshot);
    assert_ne!(cpu.eip(), 0x9999);
}

#[test]
fn settings_of_the_core_and_upper_memory() {
    assert_eq!(CoreMode::parse("normal").unwrap(), CoreMode::Normal);
    assert!(CoreMode::parse("turbo").is_err());
    let mut cpu = machine();
    assert_eq!(cpu.set_upper_memory(None, true, true), Ok(UpperMemory::Rebuild(Some(0x1000))));
    assert_eq!(cpu.set_upper_memory(Some(0x2000), false, true), Ok(UpperMemory::Unchanged));
    cpu.dos.resident_upper.push(0xD000);
    assert!(cpu.set_upper_memory(None, false, true).is_err());
    assert!(cpu.note_mode_switch(true) || cpu.mode_switches == 1);
    assert!(cpu.note_null_interrupt(0x60));
    assert!(!cpu.note_null_interrupt(0x60));
    cpu.state = CpuState::Halted;
    assert_eq!(cpu.state, CpuState::Halted);
}

/// Data and code of two privilege levels (08h and 10h, 23h and 2Bh), two tasks
/// (30h, the running one, and 38h) and a call gate (40h), with interrupt 21h
/// for everybody at 10:6000h.
fn privileged() -> Cpu {
    let mut cpu = machine();
    let table: [u64; 9] = [
        0,
        0x00CF_9200_0000_FFFF,
        0x00CF_9A00_0000_FFFF,
        0,
        0x00CF_FA00_0000_FFFF,
        0x00CF_F200_0000_FFFF,
        0x0000_8B00_3000_0087,
        0x0000_8900_4000_0067,
        0x0000_EC00_0010_5000,
    ];
    for (i, d) in table.iter().enumerate() {
        cpu.bus.load_bytes(0x1000 + 8 * i, &d.to_le_bytes());
    }
    cpu.gdtr = DescTable { base: 0x1000, limit: 8 * 9 - 1 };
    cpu.bus.load_bytes(0x2000 + 8 * 0x21, &0x0000_EE00_0010_6000u64.to_le_bytes());
    cpu.idtr = DescTable { base: 0x2000, limit: 0x7FF };
    cpu.cr0 |= CR0_PE;
    cpu.tr = Descriptor(table[6]).cache(0x30);
    // The stack of level 0.
    cpu.bus.write_32(0x3004, 0xA000);
    cpu.bus.write_16(0x3008, 0x08);
    for seg in [Seg::SS, Seg::DS, Seg::ES] {
        cpu.load_segment(seg, 0x08).unwrap();
    }
    cpu.load_segment(Seg::FS, 0).unwrap();
    cpu.load_segment(Seg::GS, 0).unwrap();
    cpu.set_esp(0x8000);
    cpu.jmp_far_pm(0x10, 0x100).unwrap();
    cpu
}

/// Down to level 3, at 23:200h with the stack at 2B:9000h.
fn unprivileged() -> Cpu {
    let mut cpu = privileged();
    for value in [0x2B, 0x9000, 0x23, 0x200] {
        cpu.push_sized(4, value).unwrap();
    }
    cpu.ret_far_pm(4, 0).unwrap();
    assert_eq!((cpu.cs(), cpu.eip(), cpu.ss(), cpu.esp()), (0x23, 0x200, 0x2B, 0x9000));
    cpu
}

#[test]
fn far_calls_return_to_their_callers() {
    let mut cpu = privileged();
    assert_eq!((cpu.cs(), cpu.eip()), (0x10, 0x100));
    cpu.call_far_pm(0x10, 0x7000, 4).unwrap();
    assert_eq!((cpu.cs(), cpu.eip(), cpu.esp()), (0x10, 0x7000, 0x7FF8));
    cpu.ret_far_pm(4, 0).unwrap();
    assert_eq!((cpu.cs(), cpu.eip(), cpu.esp()), (0x10, 0x100, 0x8000));
    // Code is called, data is not.
    assert_eq!(cpu.call_far_pm(0x08, 0, 4), Err(Fault { vector: 13, error: Some(0x08) }));

    // Through a gate to a more privileged level and back.
    let mut cpu = unprivileged();
    assert_eq!(cpu.call_far_pm(0x10, 0, 4), Err(Fault { vector: 13, error: Some(0x10) }));
    cpu.call_far_pm(0x40, 0, 4).unwrap();
    assert_eq!((cpu.cs(), cpu.eip(), cpu.ss(), cpu.esp()), (0x10, 0x5000, 0x08, 0x9FF0));
    cpu.ret_far_pm(4, 0).unwrap();
    assert_eq!((cpu.cs(), cpu.eip(), cpu.ss(), cpu.esp()), (0x23, 0x200, 0x2B, 0x9000));
    // What level 3 may not use is gone from DS.
    assert_eq!(cpu.ds(), 0);
}

#[test]
fn handlers_are_entered_through_gates() {
    let mut cpu = privileged();
    cpu.set_cpu_flag(IF, true);
    let flags = cpu.eflags_image();
    cpu.deliver_interrupt(0x21, IntSource::Software, None).unwrap();
    assert_eq!((cpu.cs(), cpu.eip(), cpu.esp()), (0x10, 0x6000, 0x7FF4));
    assert!(!cpu.get_cpu_flag(IF));
    assert_eq!(cpu.bus.read_32(0x7FFC), flags);
    cpu.iret_pm(4).unwrap();
    assert_eq!((cpu.cs(), cpu.eip(), cpu.esp()), (0x10, 0x100, 0x8000));
    assert_eq!(cpu.eflags_image(), flags);

    let mut cpu = unprivileged();
    cpu.deliver_interrupt(0x21, IntSource::Software, None).unwrap();
    assert_eq!((cpu.cs(), cpu.ss(), cpu.esp()), (0x10, 0x08, 0xA000 - 20));
    cpu.iret_pm(4).unwrap();
    assert_eq!((cpu.cs(), cpu.eip(), cpu.ss(), cpu.esp()), (0x23, 0x200, 0x2B, 0x9000));
    // No gate there.
    let fault = Fault { vector: 13, error: Some(0x22 * 8 + 2) };
    assert_eq!(cpu.deliver_interrupt(0x22, IntSource::Software, None), Err(fault));
}

#[test]
fn frames_that_do_not_fit_are_not_written() {
    let mut cpu = privileged();
    // Three values need twelve bytes, of which only eight can be pushed.
    let mut cache = cpu.seg_cache(Seg::SS);
    cache.limit = 0x7FFF;
    cache.update_checks();
    cpu.set_seg_cache(Seg::SS, cache);
    cpu.set_esp(8);
    cpu.bus.write_32(0, 0x1111_1111);
    cpu.bus.write_32(4, 0x2222_2222);
    let failed = cpu.deliver_interrupt(0x21, IntSource::Software, None);
    assert_eq!(failed.map_err(|f| f.vector), Err(12));
    assert_eq!((cpu.bus.read_32(0), cpu.bus.read_32(4)), (0x1111_1111, 0x2222_2222));
    assert_eq!((cpu.eip(), cpu.esp()), (0x100, 8));
}

#[test]
fn tasks_are_saved_and_come_back() {
    let mut cpu = privileged();
    cpu.bus.write_32(0x4020, 0x9000);
    cpu.bus.write_32(0x4024, 2);
    cpu.bus.write_32(0x4028, 0xBBBB);
    cpu.bus.write_32(0x4038, 0xB000);
    for (at, selector) in [(0x4048, 0x08), (0x404C, 0x10), (0x4050, 0x08), (0x4054, 0x08)] {
        cpu.bus.write_16(at, selector);
    }
    cpu.set_eax(0xAAAA);
    cpu.set_ebx(0x1234_5678);
    let desc = cpu.fetch_descriptor(0x38, 0).unwrap();
    cpu.far_to_task(0x38, desc, Switch::Call).unwrap();
    assert_eq!((cpu.eip(), cpu.eax(), cpu.esp(), cpu.ss()), (0x9000, 0xBBBB, 0xB000, 0x08));
    assert!(cpu.get_cpu_flag(NT));
    assert_eq!((cpu.tr.selector, cpu.bus.read_16(0x4000)), (0x38, 0x30));
    // Saved: EIP, EAX, EBX and the selectors.
    assert_eq!((cpu.bus.read_32(0x3020), cpu.bus.read_32(0x3028)), (0x100, 0xAAAA));
    assert_eq!((cpu.bus.read_16(0x304C), cpu.bus.read_16(0x3050)), (0x10, 0x08));
    cpu.task_return().unwrap();
    assert_eq!((cpu.eip(), cpu.eax(), cpu.ebx()), (0x100, 0xAAAA, 0x1234_5678));
    assert_eq!((cpu.cs(), cpu.esp(), cpu.tr.selector), (0x10, 0x8000, 0x30));
    assert!(!cpu.get_cpu_flag(NT));
    // A task that runs can't be switched to.
    assert!(cpu.task_gate(0x30, Switch::Jmp, 0).is_err());
}

#[test]
fn ports_are_allowed_by_the_bitmap() {
    let mut cpu = privileged();
    cpu.bus.write_16(0x3066, 0x68);
    cpu.bus.write_8(0x3068 + 0x60 / 8, 0b1111_1101);
    assert_eq!(cpu.check_io(0x60, 1), Ok(()));
    let mut cpu = unprivileged();
    cpu.bus.write_16(0x3066, 0x68);
    cpu.bus.write_8(0x3068 + 0x60 / 8, 0b1111_1101);
    assert_eq!(cpu.check_io(0x60, 1), Err(Fault { vector: 13, error: Some(0) }));
    assert_eq!(cpu.check_io(0x61, 1), Ok(()));
    assert_eq!(cpu.check_io(0x61, 2), Err(Fault { vector: 13, error: Some(0) }));
}

/// Drives with a file of each of two processes open.
fn drives() -> (DiskController, u16, u16) {
    let mut disk = DiskController::new("/c".to_string(), "c".to_string());
    let there = Outside::Host(HostThing { there: true, is_file: true, is_dir: false, read_only: false });
    let mut open = |owner: u16| {
        let (plan, _) = disk.open_file("C:\\A.TXT", 0, owner, 1, &there).unwrap();
        disk.open_outside(plan, 0, owner, 1, &there).unwrap()
    };
    let (one, two) = (open(0x1111), open(0x2222));
    (disk, one, two)
}

#[test]
fn the_shell_starts_with_nothing_open() {
    let (mut disk, one, two) = drives();
    let mut cpu = machine();
    cpu.set_esp(0xFFFF_FFFF);
    cpu.bus.write_8(0x1000, 0x55);
    cpu.load_shell(&mut disk, &[0x90, 0xCC], 0x200, 0x300, true);
    assert_eq!((cpu.cs(), cpu.ds(), cpu.es(), cpu.ss()), (0x70, 0x70, 0x70, 0x70));
    assert_eq!((cpu.ip(), cpu.sp(), cpu.flags16()), (0x100, 0x0F00, 0x0202));
    assert_eq!((cpu.bus.read_8(0x800), cpu.bus.read_8(0x801), cpu.bus.read_8(0x1000)), (0x90, 0xCC, 0));
    assert!(!cpu.bus.a20);
    assert_eq!((disk.handle_drive(one), disk.handle_drive(two)), (None, None));
}

#[test]
fn a_program_that_ends_closes_its_files() {
    let (mut disk, one, two) = drives();
    let mut cpu = machine();
    cpu.dos.current_psp = 0x1111;
    assert!(!cpu.terminate(&mut disk, 3));
    assert_eq!((cpu.state, cpu.dos.errorlevel), (CpuState::RebootShell, 3));
    assert_eq!((disk.handle_drive(one), disk.handle_drive(two)), (None, Some(2)));
    // Back to a parent.
    cpu.dos.current_psp = 0x1111;
    cpu.save_process_context();
    cpu.dos.current_psp = 0x2222;
    assert!(cpu.terminate(&mut disk, 4));
    assert_eq!((cpu.dos.current_psp, cpu.dos.last_child_exit), (0x1111, 4));
    assert_eq!(disk.handle_drive(two), None);
}
