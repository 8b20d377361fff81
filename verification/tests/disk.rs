use rust_dos::cpu::state::Cpu;
use rust_dos::disk::drives::{DiskController, Inserted, MountOptions, ImageFile, Storage, Target};
use rust_dos::disk::files::{Entry, FileData, HostThing, Outside, Plan};
use rust_dos::disk::kind::DriveKind;
use rust_dos::disk::listing::{Contents, HostEntry, Meta};
use rust_dos::disk::manage::used_clusters;
use rust_dos::disk::memfs::MemFs;
use rust_dos::disk::names::{
    char_device, matches_pattern, normalize_label, parse_drive_prefix, CharDevice, DRIVE_C,
    DRIVE_Z, FIRST_USER_HANDLE, LASTDRIVE, MEMORY_DATE, MEMORY_TIME,
};
use rust_dos::disk::paths::{find_host_child, host_entries};
use rust_dos::disk::walk::{find_existing_child, made_name, HostWalk};
use rust_dos::disk::saved::{LoadStep, Reopen, Reopened, SavedDrive, SavedFile};
use rust_dos::disk::short::short_names;
use rust_dos::diskimage::ImageKind;

/// PSP that owns the files the tests open.
const PSP: u16 = 0x1000;

fn controller() -> DiskController {
    DiskController::new("/c".to_string(), "c".to_string())
}

fn options(kind: DriveKind) -> MountOptions {
    MountOptions { kind, ..MountOptions::default() }
}

fn directory(path: &str) -> Target {
    Target::Directory(Ok(path.to_string()))
}

fn host(is_file: bool, is_dir: bool) -> Outside {
    Outside::Host(HostThing { there: is_file || is_dir, is_file, is_dir, read_only: false })
}

fn nothing() -> Contents {
    Contents::Host { is_dir: true, is_root: true, entries: vec![] }
}

fn file_entry(name: &str, size: u64) -> HostEntry {
    HostEntry {
        name: name.to_string(),
        meta: Some(Meta { is_dir: false, read_only: false, size, time: 0x1234, date: 0x5678 }),
    }
}

/// Open a host file that is there.
fn open_host(disk: &mut DiskController, name: &str, mode: u8, owner: u16) -> Result<u16, u8> {
    let there = host(true, false);
    match disk.open_file(name, mode, owner, 7, &there)? {
        (_, Some(handle)) => Ok(handle),
        (plan, None) => disk.open_outside(plan, mode, owner, 7, &there),
    }
}

#[test]
fn parse_drive_prefix_handles_letters_and_non_ascii() {
    assert_eq!(parse_drive_prefix("d:\\X"), (Some(3), "\\X"));
    assert_eq!(parse_drive_prefix("FILE.TXT"), (None, "FILE.TXT"));
    assert_eq!(parse_drive_prefix("\u{FFFD}:X"), (None, "\u{FFFD}:X"));
    assert_eq!(parse_drive_prefix("é"), (None, "é"));
    assert_eq!(parse_drive_prefix(""), (None, ""));
}

#[test]
fn long_names_get_dosbox_short_names() {
    let names = [
        "Day Of The Tentacle.BIN",
        "Day Of The Tentacle.cue",
        "readme.txt",
        "Cargo.toml",
        "two.dots.txt",
        "ABCDEF~1.TXT",
        "abcdefghij.txt",
    ];
    let names: Vec<String> = names.iter().map(|n| n.to_string()).collect();
    assert_eq!(
        short_names(&names),
        [
            "DAYOFT~1.BIN",
            "DAYOFT~2.CUE",
            "README.TXT",
            "CARGO~1.TOM",
            "TWODOT~1.TXT",
            "ABCDEF~1.TXT",
            "ABCDEF~2.TXT",
        ]
    );
}

#[test]
fn short_names_differ_and_fitting_names_stay() {
    let names: Vec<String> =
        ["a long name.txt", "a long nope.txt", "FITS.TXT"].iter().map(|n| n.to_string()).collect();
    let short = short_names(&names);
    assert_eq!(short, ["ALONGN~1.TXT", "ALONGN~2.TXT", "FITS.TXT"]);
    assert_eq!(short_names(&names), short);
    // A number that a fitting name has is left out.
    let names: Vec<String> =
        ["a long name.txt", "ALONGN~1.TXT"].iter().map(|n| n.to_string()).collect();
    assert_eq!(short_names(&names), ["ALONGN~2.TXT", "ALONGN~1.TXT"]);
}

#[test]
fn host_files_are_found_by_long_and_short_name() {
    let names: Vec<String> = ["Day Of The Tentacle.cue", ".hidden", "Day Of The Tentacle.BIN"]
        .iter()
        .map(|n| n.to_string())
        .collect();
    let entries = host_entries(&names);
    assert_eq!(entries.len(), 2);
    assert_eq!(find_host_child(&entries, "DAYOFT~2.CUE").name, "Day Of The Tentacle.cue");
    assert_eq!(find_host_child(&entries, "day of the tentacle.bin").short, "DAYOFT~1.BIN");
    let new = find_host_child(&entries, "new.txt");
    assert_eq!((new.name.as_str(), new.short.as_str()), ("NEW.TXT", "NEW.TXT"));

    let disk = controller();
    let contents = Contents::Host {
        is_dir: true,
        is_root: false,
        entries: vec![
            file_entry("Day Of The Tentacle.BIN", 3),
            file_entry("Day Of The Tentacle.cue", 3),
        ],
    };
    let names: Vec<String> = disk
        .list_directory("C:\\CD\\*.*", 0, &contents)
        .unwrap()
        .into_iter()
        .map(|e| e.filename)
        .collect();
    assert_eq!(names, ["..", ".", "DAYOFT~1.BIN", "DAYOFT~2.CUE"]);
}

#[test]
fn each_drive_has_its_own_current_directory() {
    let mut disk = controller();
    disk.mount(3, "d", MountOptions::default(), false, directory("/d")).unwrap();

    assert!(disk.set_current_directory("GAMES", Some("GAMES".to_string())));
    assert!(disk.set_current_directory("D:\\DATA", Some("DATA".to_string())));
    assert_eq!(disk.get_current_drive(), DRIVE_C);
    assert_eq!(disk.get_current_directory(), "GAMES");
    assert_eq!(disk.get_current_directory_of(3).unwrap(), "DATA");

    let place = disk.place("D:F.TXT").unwrap();
    assert_eq!((place.drive, place.parts), (3, vec!["DATA".to_string(), "F.TXT".to_string()]));
    assert_eq!(disk.qualify_directory("D:*.*").as_deref(), Some("D:\\DATA"));
    assert_eq!(disk.qualify_directory("\\*.*").as_deref(), Some("C:\\"));
}

#[test]
fn unmounted_and_reserved_drives() {
    let mut disk = controller();
    assert!(disk.place("E:\\X").is_none());
    assert_eq!(disk.set_current_drive(4), LASTDRIVE);
    assert_eq!(disk.get_current_drive(), DRIVE_C);
    assert!(disk
        .mount(DRIVE_Z, "z", MountOptions::default(), true, directory("/z"))
        .is_err());
    assert!(disk.unmount(DRIVE_C).is_err());
    assert!(disk.unmount(DRIVE_Z).is_err());
    assert!(disk.unmount(4).is_err());
    assert!(disk
        .mount(3, "missing", MountOptions::default(), false, Target::Missing("missing".to_string()))
        .is_err());
}

#[test]
fn mkdir_with_drive_prefix_lands_on_that_drive() {
    let mut disk = controller();
    disk.mount(3, "d", MountOptions::default(), false, directory("/d")).unwrap();
    assert_eq!(disk.create_directory("D:NEWDIR", true, false), Ok(()));
    assert_eq!(disk.place("D:NEWDIR").unwrap().drive, 3);
    assert_eq!(disk.create_directory("D:\\ROOTDIR", true, true), Err(0x05));

    // Error 0x10 only applies to the target drive's current directory.
    assert!(disk.set_current_directory("D:\\NEWDIR", Some("NEWDIR".to_string())));
    assert_eq!(disk.remove_directory("D:\\NEWDIR", Some("NEWDIR")), Err(0x10));
    assert_eq!(disk.remove_directory("C:\\NEWDIR", Some("NEWDIR")), Ok(()));
}

#[test]
fn read_only_media_rejects_writes() {
    let mut disk = controller();
    disk.mount(3, "cd", options(DriveKind::CdRom), false, directory("/cd")).unwrap();
    let file = host(true, false);

    assert_eq!(disk.create_file("D:\\NEW.TXT"), Err(0x05));
    assert_eq!(disk.open_file("D:\\DATA.DAT", 1, PSP, 0, &file).err(), Some(0x05));
    assert_eq!(disk.create_directory("D:\\X", true, false), Err(0x05));
    assert_eq!(disk.remove_directory("D:\\SUB", Some("SUB")), Err(0x05));
    assert_eq!(disk.set_file_attribute("D:\\DATA.DAT", &file), Err(0x05));
    assert_eq!(disk.get_file_attribute("D:\\DATA.DAT", &file), Ok(0x21));

    // Mode 2 is downgraded: reads work, writes fail.
    let (plan, none) = disk.open_file("D:\\DATA.DAT", 2, PSP, 0, &file).unwrap();
    assert!(matches!(plan, Plan::Host { drive: 3, read: true, write: false, create: false }));
    assert_eq!(none, None);
    let h = open_host(&mut disk, "D:\\DATA.DAT", 2, PSP).unwrap();
    // The host's own handle, which is read-only, refuses the write.
    assert_eq!(disk.write_file(h, 1), Ok(None));

    let contents = Contents::Host {
        is_dir: true,
        is_root: true,
        entries: vec![file_entry("DATA.DAT", 7)],
    };
    let entries = disk.list_directory("D:\\*.*", 0x10, &contents).unwrap();
    assert_eq!(entries.len(), 1);
    assert!(entries.iter().all(|e| e.attr & 0x01 != 0));
}

#[test]
fn opening_a_missing_file_does_not_create_it() {
    let mut disk = controller();
    let missing = host(false, false);
    for mode in [0u8, 1, 2] {
        let (plan, none) = disk.open_file("C:\\PROBE.PAT", mode, PSP, 0, &missing).unwrap();
        assert_eq!(none, None);
        assert!(matches!(plan, Plan::Host { create: false, .. }));
        assert_eq!(disk.open_outside(plan, mode, PSP, 0, &missing), Err(0x02));
    }
    assert_eq!(disk.create_file("C:\\PROBE.PAT"), Ok(()));
    let (plan, _) = disk.open_or_create("C:\\PROBE.PAT", 2, PSP, true, 0, &missing).unwrap();
    assert!(matches!(plan, Plan::Host { create: true, write: true, .. }));
}

#[test]
fn unmount_and_remount_close_only_their_own_files() {
    let mut disk = controller();
    disk.mount(3, "d", MountOptions::default(), false, directory("/d")).unwrap();
    let hc = open_host(&mut disk, "C:\\F.TXT", 0, PSP).unwrap();
    let hd = open_host(&mut disk, "D:\\F.TXT", 0, PSP).unwrap();
    assert_eq!(disk.handle_drive(hd), Some(3));

    disk.mount(DRIVE_C, "c2", MountOptions::default(), true, directory("/c2")).unwrap();
    assert!(disk.read_file(hc, 1).is_err());
    assert!(disk.read_file(hd, 1).is_ok());

    disk.set_current_drive(3);
    disk.unmount(3).unwrap();
    assert!(disk.read_file(hd, 1).is_err());
    assert_eq!(disk.get_current_drive(), DRIVE_C);
}

#[test]
fn handles_are_reused_and_closed_with_their_process() {
    let mut disk = controller();
    let child = 0x2000;
    let parent_h = open_host(&mut disk, "F.TXT", 0, PSP).unwrap();
    assert_eq!(parent_h, FIRST_USER_HANDLE);
    let a = open_host(&mut disk, "F.TXT", 0, child).unwrap();
    let b = open_host(&mut disk, "F.TXT", 0, child).unwrap();
    assert!(disk.close_file(a));
    assert!(!disk.close_file(a));
    assert_eq!(open_host(&mut disk, "F.TXT", 0, child), Ok(a));

    disk.close_process_files(child);
    assert!(disk.read_file(a, 1).is_err());
    assert!(disk.read_file(b, 1).is_err());
    assert!(disk.read_file(parent_h, 1).is_ok());
    let (_, z) = disk.open_file("Z:\\COMMAND.COM", 0, child, 0, &host(false, false)).unwrap();
    assert_eq!(z, Some(a));
    assert_eq!(disk.handle_drive(a), Some(DRIVE_Z));
}

#[test]
fn floppy_free_space_tracks_usage() {
    let mut disk = controller();
    disk.mount(0, "a", options(DriveKind::Floppy), false, directory("/a")).unwrap();
    let unused = DriveKind::Floppy.layout();

    let (_, empty_free, _, total) = disk.get_disk_free_space(1, unused, 0, 0).unwrap();
    assert_eq!(empty_free, total);
    let used = used_clusters(&vec![Some(1024)], 512, total as u64);
    let unused = DriveKind::Floppy.layout();
    let (spc, free, bps, _) = disk.get_disk_free_space(1, unused, 0, used).unwrap();
    assert_eq!((spc, bps), (1, 512));
    assert_eq!(free, total - 2);
    let unused = DriveKind::Floppy.layout();
    assert_eq!(disk.get_disk_free_space(5, unused, 0, 0), Err(0x0F));
}

#[test]
fn a_and_b_are_always_floppies() {
    let mut disk = controller();
    assert_eq!(disk.floppy_units(), 0);

    // B: alone makes two units, the first one empty.
    disk.mount(1, "b", MountOptions::default(), false, directory("/b")).unwrap();
    assert_eq!(disk.drive_kind(1), Some(DriveKind::Floppy));
    assert_eq!(disk.floppy_units(), 2);
    let hdd = MountOptions { read_only: true, ..MountOptions::default() };
    disk.mount(0, "a", hdd, false, directory("/a")).unwrap();
    let info = disk.drive_info(0).unwrap();
    assert_eq!((info.kind, info.read_only), (DriveKind::Floppy, true));
    // The mount stays as asked for, for the configuration file.
    let mount = info.mount.unwrap();
    assert_eq!((mount.drive, mount.path.as_str()), (0, "a"));
    assert_eq!((mount.opts.kind, mount.opts.read_only), (DriveKind::HardDisk, true));
    disk.unmount(1).unwrap();
    assert_eq!(disk.floppy_units(), 1);

    let refused = disk.mount(1, "b", options(DriveKind::CdRom), false, directory("/b"));
    assert!(refused.unwrap_err().contains("floppy"));
    assert!(!disk.is_mounted(1));

    // Other letters keep the type they are given.
    disk.mount(4, "e", MountOptions::default(), false, directory("/e")).unwrap();
    assert_eq!(disk.drive_kind(4), Some(DriveKind::HardDisk));
}

#[test]
fn floppies_have_a_1_44_mb_diskette_layout() {
    let floppy = DriveKind::Floppy.layout();
    assert_eq!(
        (floppy.sectors_per_fat, floppy.first_dir_sector(), floppy.first_data_sector()),
        (9, 19, 33)
    );
    assert_eq!(
        (floppy.total_sectors(), floppy.cylinders(), floppy.fs_type()),
        (2880, 80, *b"FAT12   ")
    );
    // The BPB of a DOS-formatted 1.44 MB diskette.
    assert_eq!(
        floppy.bpb()[..0x15],
        [
            0x00, 0x02, 0x01, 0x01, 0x00, 0x02, 0xE0, 0x00, 0x40, 0x0B, 0xF0, 0x09, 0x00, 0x12,
            0x00, 0x02, 0x00, 0, 0, 0, 0
        ]
    );
    assert_eq!(floppy.bpb()[0x15..], [0; 10]);

    let hdd = DriveKind::HardDisk.layout();
    assert_eq!((hdd.sectors_per_fat, hdd.fs_type()), (79, *b"FAT16   "));
    assert_eq!(hdd.total_sectors(), 191 + 8 * 20000);
    let bpb = hdd.bpb();
    assert_eq!((bpb[0x08], bpb[0x09], bpb[0x0A]), (0, 0, 0xF8));
    assert_eq!(
        u32::from_le_bytes([bpb[0x15], bpb[0x16], bpb[0x17], bpb[0x18]]),
        hdd.total_sectors()
    );
}

#[test]
fn volume_label_comes_from_the_searched_drive() {
    let mut disk = controller();
    let opts = MountOptions {
        kind: DriveKind::CdRom,
        label: Some("gamecd_disk1".to_string()),
        ..MountOptions::default()
    };
    disk.mount(3, "d", opts, false, directory("/d")).unwrap();

    let c = disk.find_directory_entry("*.*", 0, 0x08, &nothing()).unwrap();
    assert_eq!((c.filename.as_str(), c.attr), ("RUSTDOS", 0x08));
    let d = disk.find_directory_entry("D:\\*.*", 0, 0x08, &nothing()).unwrap();
    assert_eq!(d.filename, "GAMECD_D.ISK");
    assert_eq!(disk.volume_label(3).unwrap(), "GAMECD_DISK");
}

#[test]
fn drives_held_in_memory() {
    fn tree() -> MemFs {
        let mut files = MemFs::new();
        files.insert("GUS\\MIDI\\PIANO.PAT", b"0123456789".to_vec());
        files.insert("GUS\\README.TXT", b"hi".to_vec());
        files
    }
    let absent = host(false, false);
    let mut disk = controller();
    disk.mount_memory(23, tree(), "patches").unwrap();
    assert!(disk.mount_memory(23, tree(), "again").is_err());
    assert!(disk.mount_memory(DRIVE_C, tree(), "c").is_err());
    assert!(disk.mount_memory(DRIVE_Z, tree(), "z").is_err());
    let info = disk.drive_info(23).unwrap();
    assert_eq!(
        (info.kind, info.root, info.label.as_str(), info.read_only),
        (DriveKind::Virtual, None, "PATCHES", true)
    );

    // Directories, with their dot entries and only when asked for.
    let names = |disk: &DiskController, spec: &str, attr: u16| -> Vec<(String, u8)> {
        disk.list_directory(spec, attr, &nothing())
            .unwrap()
            .into_iter()
            .map(|e| (e.filename, e.attr))
            .collect()
    };
    assert_eq!(names(&disk, "X:\\*.*", 0x10), [("GUS".to_string(), 0x11)]);
    assert!(names(&disk, "X:\\*.*", 0).is_empty());
    assert_eq!(
        names(&disk, "X:\\GUS\\*.*", 0x10),
        [
            ("..".to_string(), 0x10),
            (".".to_string(), 0x10),
            ("MIDI".to_string(), 0x11),
            ("README.TXT".to_string(), 0x21)
        ]
    );
    assert_eq!(names(&disk, "X:\\GUS\\MIDI\\*.PAT", 0), [("PIANO.PAT".to_string(), 0x21)]);
    assert_eq!(disk.list_directory("X:\\NOPE\\*.*", 0, &nothing()).err(), Some(0x03));
    assert_eq!(disk.get_file_attribute("X:\\GUS", &absent), Ok(0x11));
    assert_eq!(disk.get_file_attribute("X:\\GUS\\README.TXT", &absent), Ok(0x21));
    assert_eq!(disk.get_file_attribute("X:\\GUS\\NOPE.TXT", &absent), Err(0x02));
    assert!(disk.is_directory("X:\\GUS\\MIDI", false) && !disk.is_directory("X:\\GUS\\README.TXT", false));
    assert!(disk.is_file("x:/gus/readme.txt", false) && !disk.is_file("X:\\GUS", false));
    assert!(disk.is_there("X:\\GUS", false) && !disk.is_there("X:\\NOPE", false));

    // Relative to the drive's current directory.
    assert!(disk.set_current_directory("X:\\GUS\\MIDI", None));
    assert!(!disk.set_current_directory("X:\\GUS\\README.TXT", None));
    assert_eq!(disk.get_current_directory_of(23).as_deref(), Some("GUS\\MIDI"));
    assert_eq!(disk.qualify_path("X:PIANO.PAT").as_deref(), Some("X:\\GUS\\MIDI\\PIANO.PAT"));
    assert_eq!(Cpu::program_path(&disk, "X:PIANO.PAT"), "X:\\GUS\\MIDI\\PIANO.PAT");
    assert!(
        matches!(disk.file_data("X:..\\README.TXT", &absent), Some(FileData::Memory(d)) if &d[..] == b"hi")
    );

    // Read-only files, read with a position duplicated handles share.
    let open = |disk: &mut DiskController, name: &str, mode: u8| -> Result<u16, u8> {
        disk.open_file(name, mode, PSP, 5, &host(false, false)).map(|(_, h)| h.unwrap())
    };
    let h = open(&mut disk, "X:PIANO.PAT", 2).unwrap();
    assert_eq!(disk.handle_drive(h), Some(23));
    assert_eq!(disk.handle_key(h), Some(5));
    assert_eq!(disk.read_file(h, 4).unwrap().unwrap(), b"0123");
    let dup = disk.duplicate_handle(h, None, true).unwrap();
    assert_eq!(disk.read_file(dup, 2).unwrap().unwrap(), b"45");
    assert_eq!(disk.read_file(h, 100).unwrap().unwrap(), b"6789");
    assert_eq!(disk.read_file(h, 1).unwrap().unwrap(), b"");
    assert_eq!(disk.seek_file(h, -3, 2, 0), Ok(Some(7)));
    assert_eq!(disk.read_file(dup, 5).unwrap().unwrap(), b"789");
    assert_eq!(disk.seek_file(h, 20, 0, 0), Ok(Some(20)));
    assert_eq!(disk.read_file(h, 1).unwrap().unwrap(), b"");
    assert_eq!(disk.seek_file(h, -21, 1, 0), Err(0x19));
    assert_eq!(disk.write_file(h, 1), Err(0x05));
    assert_eq!(disk.file_time(h, Err(0x06)), Ok((MEMORY_TIME, MEMORY_DATE)));
    assert_eq!(open(&mut disk, "X:PIANO.PAT", 1), Err(0x05));
    assert_eq!(open(&mut disk, "X:NOPE.PAT", 0), Err(0x02));
    assert_eq!(open(&mut disk, "X:\\NOPE\\PIANO.PAT", 0), Err(0x03));
    assert_eq!(open(&mut disk, "X:\\GUS", 0), Err(0x05));
    assert_eq!(disk.create_file("X:NEW.PAT"), Err(0x05));
    assert_eq!(disk.create_directory("X:\\NEW", true, false), Err(0x05));

    disk.unmount(23).unwrap();
    assert!(disk.read_file(h, 1).is_err());
    assert!(!disk.is_file("X:\\GUS\\README.TXT", false));
}

#[test]
fn z_drive_is_only_used_when_named() {
    let disk = controller();
    assert!(disk.is_file("Z:\\COMMAND.COM", false));
    assert!(!disk.is_file("COMMAND.COM", false));
    assert!(disk.is_virtual_file("Z:COMMAND.COM"));
    assert!(!disk.is_virtual_file("C:\\COMMAND.COM"));
}

#[test]
fn image_drives_swap_their_disks() {
    let disk_of = |n: u64, label: &str| Inserted {
        kind: DriveKind::Floppy,
        storage: Storage::Volume(n),
        label: label.to_string(),
        writable: true,
    };
    let images = vec![
        ImageFile { shown: "one.img".to_string(), path: Some(Ok("/one.img".to_string())) },
        ImageFile { shown: "two.img".to_string(), path: Some(Ok("/two.img".to_string())) },
    ];
    let mut opts = options(DriveKind::Floppy);
    opts.more_images = vec!["two.img".to_string()];
    let mut disk = controller();
    disk.mount(0, "one.img", opts, false, Target::Images { images, opened: Ok(disk_of(1, "ONE")) })
        .unwrap();
    assert_eq!(disk.fat_volume(0), Some(1));
    assert_eq!(disk.drive_info(0).unwrap().image, Some(1));
    assert_eq!(disk.next_image(0), Some(1));
    assert!(disk.take_media_changed(0));
    assert!(!disk.take_media_changed(0));
    let said = disk.swap_image(0, Ok(disk_of(2, "TWO")), true, "two.img").unwrap();
    assert_eq!(said.as_deref(), Some("Drive A: disk 2 of 2: two.img"));
    assert_eq!((disk.fat_volume(0), disk.volume_label(0)), (Some(2), Some("TWO")));
    assert!(disk.take_media_changed(0));
    assert!(!disk.take_media_changed(0));
    assert_eq!(disk.next_image(0), Some(0));
    // The kind of drive stays.
    let cd = Inserted { kind: DriveKind::CdRom, ..disk_of(3, "CD") };
    let refused = disk.swap_image(0, Ok(cd), true, "one.img");
    assert_eq!(
        refused.unwrap_err(),
        "/one.img can't go in drive A:, which is a floppy"
    );
    assert_eq!(disk.swap_image(3, Err("none".to_string()), true, ""), Ok(None));
}

#[test]
fn images_in_memory_go_where_they_fit() {
    let mut disk = controller();
    let floppy = |n: u64| Inserted {
        kind: DriveKind::Floppy,
        storage: Storage::Volume(n),
        label: "F".to_string(),
        writable: true,
    };
    let opts = MountOptions::default();
    disk.mount_memory_image(0, &opts, Ok(ImageKind::Floppy), Ok(floppy(1))).unwrap();
    assert_eq!(disk.drive_kind(0), Some(DriveKind::Floppy));
    assert!(disk.drive_info(0).unwrap().mount.is_none());
    // Not a CD in a floppy drive or as C:, nor junk anywhere.
    let cd = options(DriveKind::CdRom);
    let tray = |n: u64| Inserted { kind: DriveKind::CdRom, ..floppy(n) };
    assert!(disk.mount_memory_image(1, &cd, Ok(ImageKind::Cd), Ok(tray(2))).is_err());
    assert!(disk.mount_memory_image(DRIVE_C, &cd, Ok(ImageKind::Cd), Ok(tray(3))).is_err());
    let junk = Err("junk.dat is not a floppy, hard disk or CD image".to_string());
    assert!(disk.mount_memory_image(3, &opts, junk, Ok(floppy(4))).is_err());
    assert!(!disk.is_mounted(3));
}

#[test]
fn volumes_are_asked_for_their_entries() {
    let mut disk = controller();
    let opts = MountOptions::default();
    let hard = Inserted {
        kind: DriveKind::HardDisk,
        storage: Storage::Volume(9),
        label: "WEB".to_string(),
        writable: true,
    };
    disk.mount_disk_image(DRIVE_C, &opts, Ok(hard)).unwrap();
    let entry = |attr: u8| {
        Outside::Volume(Ok(Entry {
            name: "KEEN1.EXE".to_string(),
            attr,
            size: 2,
            time: 0,
            date: 0x5021,
            at: Some(77),
        }))
    };
    let (plan, h) = disk.open_file("C:\\KEEN1.EXE", 0, PSP, 1, &entry(0x20)).unwrap();
    assert_eq!(plan, Plan::Volume { drive: DRIVE_C, volume: 9, at: 77, write: false });
    assert!(h.is_some());
    assert_eq!(disk.open_file("C:\\KEEN1.EXE", 2, PSP, 1, &entry(0x21)).err(), Some(0x05));
    assert_eq!(disk.open_file("C:\\GAMES", 0, PSP, 1, &entry(0x10)).err(), Some(0x05));
    let gone = Outside::Volume(Err(0x02));
    assert_eq!(disk.open_file("C:\\NOPE", 0, PSP, 1, &gone).err(), Some(0x02));
    let (plan, h) = disk.open_or_create("C:\\NEW", 2, PSP, true, 1, &gone).unwrap();
    assert_eq!((plan, h), (Plan::Create { drive: DRIVE_C, volume: 9 }, None));
    assert!(matches!(
        disk.file_data("C:\\KEEN1.EXE", &entry(0x20)),
        Some(FileData::Volume { volume: 9, at: Some(77), size: 2 })
    ));
    assert!(disk.file_data("C:\\GAMES", &entry(0x10)).is_none());
    assert_eq!(disk.delete_file("C:\\KEEN1.EXE", &entry(0x21)), Err(0x05));
    assert_eq!(disk.delete_file("C:\\KEEN1.EXE", &entry(0x20)), Ok(()));
}

#[test]
fn devices_and_patterns_have_their_names() {
    assert_eq!(char_device("nul"), Some(CharDevice::Nul));
    assert_eq!(char_device("C:\\DOS\\CON.TXT"), Some(CharDevice::Con));
    assert_eq!(char_device("CONFIG.SYS"), None);
    assert!(matches_pattern("READ.ME", "*.*"));
    assert!(matches_pattern("READ.ME", "R???.M*"));
    assert!(!matches_pattern("READ.ME", "*.TXT"));
    assert_eq!(normalize_label("my disk name is long"), "MY DISK NAM");
    let mut disk = controller();
    assert_eq!(disk.device("EMMXXXX0"), None);
    disk.emm_device = true;
    assert_eq!(disk.device("EMMXXXX0"), Some(CharDevice::Emm));
}

#[test]
fn temporary_names_and_stamps() {
    assert_eq!(DiskController::temp_name("C:\\TMP\\", 0xF234_5678, 1), "C:\\TMP\\02345679");
    assert_eq!(rust_dos::disk::files::dos_time(13, 37, 58), (13 << 11) | (37 << 5) | 29);
    assert_eq!(rust_dos::disk::files::dos_date(1996, 2, 29), (16 << 9) | (2 << 5) | 29);
}

#[test]
fn save_states_bring_drives_and_files_back() {
    let mut disk = controller();
    disk.mount(3, "d", MountOptions::default(), false, directory("/d")).unwrap();
    let saved = |mount: Option<&str>| {
        Some(SavedDrive {
            mount: mount.map(|m| m.to_string()),
            current_dir: "DATA".to_string(),
            image: 0,
            media_changed: true,
        })
    };
    // What the state hasn't goes, but C: and what the machine has of itself.
    assert_eq!(disk.load_step(3, &None, Some("d")), LoadStep::Unmount);
    assert_eq!(disk.load_step(DRIVE_C, &None, Some("c")), LoadStep::Leave);
    assert_eq!(disk.load_step(DRIVE_Z, &None, None), LoadStep::Leave);
    assert_eq!(disk.load_step(3, &saved(Some("d")), Some("d")), LoadStep::Settle);
    assert_eq!(disk.load_step(3, &saved(Some("e")), Some("d")), LoadStep::Mount);
    assert_eq!(disk.load_step(3, &saved(None), Some("d")), LoadStep::Settle);
    assert_eq!(disk.wants_swap(3, 0, 0), Ok(false));
    assert_eq!(
        disk.wants_swap(4, 0, 0).unwrap_err(),
        "it has a drive E: and this machine hasn't"
    );
    disk.place_drive(3, "DATA".to_string(), true);
    assert_eq!(disk.get_current_directory_of(3).as_deref(), Some("DATA"));
    assert!(disk.take_media_changed(3));
    disk.place_current(3);
    assert_eq!(disk.get_current_drive(), 3);
    disk.place_current(9);
    assert_eq!(disk.get_current_drive(), DRIVE_C);

    // Files are opened once, and the handles duplicated from them again.
    let file = |handle: u16, group: u64, device: Option<CharDevice>| SavedFile {
        handle,
        group,
        drive: 3,
        owner: PSP,
        key: 5,
        path: "D:\\F.TXT".to_string(),
        mode: 0,
        device,
        position: 4,
    };
    disk.restart_files(100);
    let mut reopened = Reopened::new();
    let first = file(8, 40, None);
    assert_eq!(reopened.step(&first), Reopen::Open);
    let at = open_host(&mut disk, "D:\\F.TXT", 0, PSP).unwrap();
    disk.adopt(at, &first);
    reopened.note(&first, true);
    assert!(disk.is_open(8) && !disk.is_open(at));
    assert_eq!((disk.handle_drive(8), disk.handle_key(8)), (Some(3), Some(5)));
    assert_eq!(reopened.step(&file(9, 40, None)), Reopen::Duplicate(8));
    assert_eq!(disk.duplicate_handle(8, Some(9), true), Ok(9));
    let gone = file(10, 41, None);
    assert_eq!(reopened.step(&gone), Reopen::Open);
    reopened.note(&gone, false);
    assert_eq!(reopened.step(&file(11, 41, None)), Reopen::Skip);
    assert_eq!(reopened.step(&file(12, 42, Some(CharDevice::Nul))), Reopen::Device(CharDevice::Nul));
    assert_eq!(reopened.lost, ["D:\\F.TXT"]);
}

#[test]
fn paths_are_followed_on_the_host() {
    let disk = controller();
    let place = disk.place("games\\..\\Games\\dayoft~1\\new.txt").unwrap();
    let mut walk = HostWalk::new(place.parts);
    let listing = |names: &[&str]| names.iter().map(|n| n.to_string()).collect::<Vec<_>>();
    assert_eq!(walk.enter(&listing(&["GAMES", ".."])), "GAMES");
    assert!(!walk.is_done());
    let name = walk.enter(&listing(&["Other", "Day Of The Tentacle", ".hidden"]));
    assert_eq!(name, "Day Of The Tentacle");
    assert_eq!(walk.enter(&listing(&[])), "NEW.TXT");
    assert!(walk.is_done());
    assert_eq!(walk.dos_path(), "GAMES\\DAYOFT~1\\NEW.TXT");
}

#[test]
fn names_on_the_host_collide_in_any_case() {
    let names = vec!["Readme".to_string(), "stra\u{df}e".to_string(), "\u{e4}".to_string()];
    assert_eq!(find_existing_child(&names, "README"), Some(0));
    assert_eq!(find_existing_child(&names, "STRASSE"), Some(1));
    assert_eq!(find_existing_child(&names, "\u{c4}"), Some(2));
    assert_eq!(find_existing_child(&names, "READ"), None);
    assert_eq!(made_name("stra\u{df}e"), "STRASSE");
}

#[test]
fn clusters_are_counted_up_to_a_cap() {
    assert_eq!(used_clusters(&vec![None, Some(513), Some(0)], 512, 100), 3);
    assert_eq!(used_clusters(&vec![None, Some(513), Some(0)], 512, 2), 2);
    // However big the files are.
    assert_eq!(used_clusters(&vec![Some(u64::MAX), Some(u64::MAX)], 1, u64::MAX), u64::MAX);
}
