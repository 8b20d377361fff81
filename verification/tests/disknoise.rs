use rust_dos::diskio::{DiskClass, NoiseMode};
use rust_dos::disknoise::{Access, Device, DiskNoise, Rng, Sounds, Voice};

/// Some sound of `samples` samples.
fn sound(samples: usize, level: u8) -> Vec<u8> {
    let mut pcm = Vec::new();
    for i in 0..samples {
        pcm.push(level.wrapping_add(i as u8) | 1);
        pcm.push(if i % 2 == 0 { 0x10 } else { 0xF0 });
    }
    pcm
}

fn seeks() -> Vec<Vec<u8>> {
    (0..9).map(|i| sound(2_000 + 100 * i, i as u8)).collect()
}

fn floppy_sounds() -> Sounds {
    Sounds { spin_up: None, spin: sound(40_000, 3), seeks: seeks() }
}

fn hard_disk_sounds() -> Sounds {
    Sounds { spin_up: Some(sound(30_000, 5)), spin: sound(40_000, 7), seeks: seeks() }
}

fn noises() -> DiskNoise {
    DiskNoise::new(floppy_sounds(), hard_disk_sounds())
}

fn frames(noise: &mut DiskNoise, n: usize) -> Vec<f32> {
    (0..n).map(|_| noise.render() as f32 / 2.0).collect()
}

#[test]
fn samples_play_at_twice_their_rate() {
    let pcm: &[u8] = &[0x00, 0x00, 0x64, 0x00, 0xC8, 0x00];
    let mut voice = Voice::new(false);
    let played: Vec<f32> = std::iter::from_fn(|| voice.next(pcm)).map(|v| v as f32 / 2.0).collect();
    assert_eq!(played, [0.0, 50.0, 100.0, 150.0, 200.0, 200.0]);
    let mut looped = Voice::new(true);
    let played: Vec<f32> = (0..8).filter_map(|_| looped.next(pcm)).map(|v| v as f32 / 2.0).collect();
    assert_eq!(played, [0.0, 50.0, 100.0, 150.0, 200.0, 100.0, 0.0, 50.0]);
}

#[test]
fn silent_when_off() {
    let mut noise = noises();
    noise.io(DiskClass::Floppy, Access::Other, 1000);
    assert!(frames(&mut noise, 2000).iter().all(|&v| v == 0.0));
    assert!(noise.is_silent());
}

#[test]
fn floppy_access_seeks_and_spins() {
    let mut noise = noises();
    noise.set_modes(NoiseMode::On, NoiseMode::Off);
    assert!(noise.is_silent());
    noise.io(DiskClass::Floppy, Access::File { write: false, key: 1 }, 0);
    assert!(frames(&mut noise, 4410).iter().any(|&v| v != 0.0));
    // The motor runs out a few seconds after the last access.
    let _ = frames(&mut noise, 44_100 * 3);
    assert!(noise.is_silent());

    // Seek only: no motor, the heads fall silent after the seek.
    noise.set_modes(NoiseMode::SeekOnly, NoiseMode::Off);
    noise.io(DiskClass::Floppy, Access::Other, 0);
    let _ = frames(&mut noise, 44_100);
    assert!(noise.is_silent());
}

#[test]
fn long_access_keeps_the_heads_moving() {
    let mut noise = noises();
    noise.set_modes(NoiseMode::SeekOnly, NoiseMode::Off);
    noise.io(DiskClass::Floppy, Access::Other, 44_100 * 2);
    let played = frames(&mut noise, 44_100 * 2);
    // No stretch of half a second without sound.
    assert!(played.chunks(22_050).all(|c| c.iter().any(|&v| v != 0.0)));
}

#[test]
fn hard_disks_spin_up_and_on() {
    let mut noise = noises();
    noise.set_modes(NoiseMode::Off, NoiseMode::On);
    assert!(frames(&mut noise, 4410).iter().any(|&v| v != 0.0));
    noise.skip(44_100 * 60);
    assert!(!noise.is_silent(), "the spin loops");
    noise.set_modes(NoiseMode::Off, NoiseMode::Off);
    assert!(noise.is_silent());
}

#[test]
fn sequential_access_picks_the_first_seeks() {
    let mut device = Device::new(DiskClass::HardDisk, hard_disk_sounds());
    device.set_mode(NoiseMode::SeekOnly);
    let mut rng = Rng(1);
    device.io(Access::Track(10), 0, &mut rng);
    assert!(!device.sequential);
    device.io(Access::Track(11), 0, &mut rng);
    assert!(device.sequential);
    device.io(Access::File { write: true, key: 5 }, 0, &mut rng);
    device.io(Access::File { write: true, key: 5 }, 0, &mut rng);
    assert!(device.sequential);
    for _ in 0..100 {
        assert!(device.seek_index(&mut rng) < 2);
    }
    device.io(Access::File { write: false, key: 6 }, 0, &mut rng);
    assert!(!device.sequential);
}

#[test]
fn random_numbers_shift_and_mix() {
    let mut rng = Rng(1);
    // 1 becomes 0x2001, then 0x2001 again, then 0x42021.
    assert_eq!(rng.below(1_000_000), 0x42021);
    assert_eq!(rng, Rng(0x42021));
}

#[test]
fn skipping_ends_a_voice() {
    let pcm: &[u8] = &[0x00, 0x00, 0x64, 0x00];
    let mut voice = Voice::new(false);
    assert!(voice.skip(pcm, 3));
    assert_eq!(voice.next(pcm), Some(200));
    assert!(!voice.skip(pcm, 1));
    assert_eq!(voice.next(pcm), None);
    let mut looped = Voice::new(true);
    assert!(looped.skip(pcm, 9));
    assert_eq!(looped.at, 1);
}

#[test]
fn drives_switched_off_fall_silent_at_once() {
    let mut noise = noises();
    noise.set_modes(NoiseMode::On, NoiseMode::On);
    noise.io(DiskClass::Floppy, Access::Track(4), 10_000);
    assert!(noise.enabled(DiskClass::Floppy) && noise.enabled(DiskClass::HardDisk));
    noise.set_modes(NoiseMode::Off, NoiseMode::Off);
    assert!(noise.is_silent() && noise.floppy.busy == 0);
    assert!(!noise.enabled(DiskClass::Floppy));
}

#[test]
fn new_drives_were_never_accessed() {
    let noise = noises();
    for (device, class) in
        [(&noise.floppy, DiskClass::Floppy), (&noise.hard_disk, DiskClass::HardDisk)]
    {
        assert_eq!((device.class, device.mode), (class, NoiseMode::Off));
        assert_eq!((device.busy, device.sequential), (0, false));
        assert_eq!((device.last_read, device.last_written, device.last_track), (None, None, None));
    }
    assert!(noise.is_silent());
    assert_eq!(noise.rng.0, 0x2545_F491);
}

#[test]
fn any_pause_can_be_skipped() {
    let mut noise = noises();
    noise.set_modes(NoiseMode::On, NoiseMode::On);
    noise.skip(u64::MAX);
    // The hard disk spun up and goes on turning, somewhere in its loop.
    assert_eq!(noise.hard_disk.spin.map(|v| v.at), Some(u64::MAX % 80_000));
    assert!(noise.hard_disk.spin_up.is_none() && noise.floppy.spin.is_none());
}
