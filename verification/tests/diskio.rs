use rust_dos::disk::kind::DriveKind;
use rust_dos::diskio::{DiskClass, DiskIo, DiskSpeed, NoiseMode};

#[test]
fn settings_parse_and_rates() {
    assert_eq!(DiskSpeed::parse(" Slow "), Some(DiskSpeed::Slow));
    assert_eq!(DiskSpeed::parse("warp"), None);
    assert_eq!(NoiseMode::parse("seek-only"), Some(NoiseMode::SeekOnly));
    assert_eq!(NoiseMode::parse("true"), Some(NoiseMode::On));
    assert_eq!(DiskSpeed::Medium.kb_per_second(DiskClass::Floppy), Some(60));
    assert_eq!(DiskSpeed::Fast.describe(DiskClass::HardDisk), "fast (~15 MB/s)");
    assert_eq!(DiskSpeed::Slow.describe(DiskClass::Floppy), "slow (~30 kB/s)");
    assert_eq!(DiskSpeed::Medium.describe(DiskClass::HardDisk), "medium (~2.5 MB/s)");
}

#[test]
fn time_adds_up_until_taken() {
    let mut io = DiskIo::default();
    assert_eq!(io.charge(DiskClass::Floppy, 512), 0);
    io.settings.floppy_disk_speed = DiskSpeed::Slow;
    // 30 KB/s: a 512-byte sector takes 1/60 s.
    assert_eq!(io.charge(DiskClass::Floppy, 512), 16_666_666);
    assert_eq!(io.charge(DiskClass::HardDisk, 1_000_000), 16_666_666);
    assert_eq!(io.charge(DiskClass::Floppy, 512), 33_333_332);
    assert_eq!(io.take_pending(), 33_333_332);
    assert_eq!(io.take_pending(), 0);
}

#[test]
fn names_of_speeds_and_noises_parse_back() {
    for speed in [DiskSpeed::Maximum, DiskSpeed::Fast, DiskSpeed::Medium, DiskSpeed::Slow] {
        assert_eq!(DiskSpeed::parse(speed.name()), Some(speed));
    }
    for mode in [NoiseMode::Off, NoiseMode::SeekOnly, NoiseMode::On] {
        assert_eq!(NoiseMode::parse(mode.name()), Some(mode));
    }
    assert_eq!(NoiseMode::parse("loud"), None);
    assert_eq!(DiskSpeed::Maximum.describe(DiskClass::Floppy), "maximum");
}

#[test]
fn drives_in_memory_take_no_time() {
    assert_eq!(DiskClass::of(DriveKind::Floppy), Some(DiskClass::Floppy));
    assert_eq!(DiskClass::of(DriveKind::HardDisk), Some(DiskClass::HardDisk));
    assert_eq!(DiskClass::of(DriveKind::CdRom), None);
    assert_eq!(DiskClass::of(DriveKind::Virtual), None);
}

#[test]
fn pending_time_can_be_dropped() {
    let mut io = DiskIo::default();
    io.settings.hard_disk_speed = DiskSpeed::Medium;
    // 2500 KB/s: a megabyte takes 0.4096 s.
    assert_eq!(io.charge(DiskClass::HardDisk, 1 << 20), 409_600_000);
    io.clear();
    assert_eq!(io.take_pending(), 0);
}
