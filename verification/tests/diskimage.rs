use rust_dos::disk::kind::DriveKind;
use rust_dos::diskimage::{
    detect_memory, floppy_geometry, kind_by_name, Bpb, Chs, DiskImage, ImageKind, MemoryImage, CHUNK, SECTOR_SIZE,
    STATUS_SECTOR_NOT_FOUND, STATUS_WRITE_PROTECTED,
};

fn boot_sector(total: u16, spt: u16, heads: u16) -> Vec<u8> {
    let mut boot = vec![0u8; SECTOR_SIZE];
    boot[0] = 0xEB;
    boot[0x0B..0x0D].copy_from_slice(&512u16.to_le_bytes());
    boot[0x0D] = 1;
    boot[0x0E] = 1;
    boot[0x10] = 2;
    boot[0x11..0x13].copy_from_slice(&224u16.to_le_bytes());
    boot[0x13..0x15].copy_from_slice(&total.to_le_bytes());
    boot[0x15] = 0xF0;
    boot[0x16] = 9;
    boot[0x18..0x1A].copy_from_slice(&spt.to_le_bytes());
    boot[0x1A..0x1C].copy_from_slice(&heads.to_le_bytes());
    boot[510] = 0x55;
    boot[511] = 0xAA;
    boot
}

fn image(name: &str, bytes: &[u8], floppy: bool, geometry: Option<Chs>, read_only: bool) -> DiskImage {
    DiskImage::from_memory(name, MemoryImage::from_bytes(bytes.to_vec()), floppy, geometry, read_only).unwrap()
}

fn detect(name: &str, bytes: &[u8], requested: DriveKind) -> Result<ImageKind, String> {
    detect_memory(name, &MemoryImage::from_bytes(bytes.to_vec()), requested, false)
}

fn used(disk: &DiskImage) -> usize {
    let memory = disk.memory();
    (0..memory.chunk_count()).filter(|&i| memory.chunk(i).is_some()).count()
}

#[test]
fn floppy_sizes() {
    let (chs, kind) = floppy_geometry(1_474_560).unwrap();
    assert_eq!((chs.cylinders, chs.heads, chs.sectors, kind), (80, 2, 18, 4));
    assert_eq!(floppy_geometry(737_280).unwrap().1, 3);
    assert_eq!(floppy_geometry(368_640).unwrap().0.sectors, 9);
    // 1 KB of extra data is fine, more isn't.
    assert!(floppy_geometry(1_474_560 + 1024).is_some());
    assert!(floppy_geometry(1_474_560 + 4096).is_none());
    assert!(floppy_geometry(10 * 1024 * 1024).is_none());
}

#[test]
fn chs_numbering() {
    let disk = image("chs.img", &vec![0u8; 737_280], true, None, false);
    assert_eq!(disk.geometry(), Chs { cylinders: 80, heads: 2, sectors: 9 });
    assert_eq!(disk.chs_to_lba(0, 0, 1), Some(0));
    assert_eq!(disk.chs_to_lba(0, 1, 1), Some(9));
    assert_eq!(disk.chs_to_lba(1, 0, 3), Some(20));
    assert_eq!(disk.chs_to_lba(0, 0, 0), None);
    assert_eq!(disk.chs_to_lba(0, 0, 10), None);
    assert_eq!(disk.chs_to_lba(0, 2, 1), None);
}

#[test]
fn reads_and_writes_sectors() {
    let mut disk = image("rw.img", &vec![0u8; 368_640], true, None, false);
    let generation = disk.generation();
    disk.write(3, &[0xAB; 1024]).unwrap();
    assert!(disk.generation() > generation);
    let mut buf = [0u8; 512];
    disk.read(4, &mut buf).unwrap();
    assert_eq!(buf, [0xAB; 512]);
    assert_eq!(disk.read(720, &mut buf), Err(STATUS_SECTOR_NOT_FOUND));
    assert_eq!(disk.write(719, &[0; 1024]), Err(STATUS_SECTOR_NOT_FOUND));

    let mut ro = image("rw.img", &vec![0u8; 368_640], true, None, true);
    assert!(!ro.writable());
    assert_eq!(ro.write(0, &[0; 512]), Err(STATUS_WRITE_PROTECTED));
}

#[test]
fn blank_disks_take_little_memory() {
    let (mut disk, (start, sectors)) = DiskImage::blank_hard_disk("C.IMG", 8 << 20).unwrap();
    assert!(!disk.is_floppy() && disk.writable());
    // Only the partition table takes memory yet.
    assert_eq!(used(&disk), 1);
    let g = disk.geometry();
    assert_eq!((g.heads, g.sectors), (16, 63));
    // One partition from the second track to the last whole cylinder.
    assert_eq!((start, start + sectors), (63, g.cylinders as u64 * 16 * 63));
    assert_eq!(disk.fat_volume(), Ok((start, sectors)));
    assert_eq!(detect_memory("C.IMG", disk.memory(), DriveKind::HardDisk, false), Ok(ImageKind::HardDisk));
    assert!(DiskImage::blank_hard_disk("C.IMG", 1 << 20).is_err());

    // Making the disk wrote the partition table; writes are counted once.
    assert_eq!(disk.take_written().first(), Some(&0));
    assert!(disk.take_written().is_empty());
    disk.write(300, &[0xAB; 1024]).unwrap();
    assert_eq!(disk.take_written(), [300 * SECTOR_SIZE / CHUNK]);
    assert_eq!(used(&disk), 2);
    // Zeros where there are zeros take no memory.
    disk.write(disk.sectors() - 2, &[0; 1024]).unwrap();
    disk.write(299, &[0; 1024]).unwrap();
    assert_eq!(used(&disk), 2);
    let mut buf = [0u8; 512];
    disk.read(301, &mut buf).unwrap();
    assert_eq!(buf, [0xAB; 512]);
    assert_eq!(disk.read(disk.sectors(), &mut buf), Err(STATUS_SECTOR_NOT_FOUND));
}

#[test]
fn floppies_held_in_memory() {
    let mut floppy = DiskImage::from_memory("A.IMG", MemoryImage::new(737_280), true, None, true).unwrap();
    assert_eq!(floppy.geometry(), Chs { cylinders: 80, heads: 2, sectors: 9 });
    assert_eq!(floppy.write(0, &[0; 512]), Err(STATUS_WRITE_PROTECTED));
    assert_eq!(detect_memory("A.IMG", floppy.memory(), DriveKind::HardDisk, false), Ok(ImageKind::Floppy));
    assert!(detect("junk.dat", &vec![1; 5000], DriveKind::HardDisk).is_err());
}

#[test]
fn pieces_are_cut_across() {
    // Pieces cut across, and a short last one.
    let mut image = MemoryImage::new(CHUNK as u64 * 2 + 100);
    assert!(image.write_at(CHUNK as u64 - 2, &[1, 2, 3, 4]));
    assert!(image.write_at(CHUNK as u64 * 2 + 98, &[5, 6]));
    assert!(!image.write_at(CHUNK as u64 * 2 + 99, &[7, 8]));
    let mut buf = [9u8; 6];
    assert!(image.read_at(CHUNK as u64 - 3, &mut buf));
    assert_eq!(buf, [0, 1, 2, 3, 4, 0]);
    assert_eq!(image.chunk(2).map(<[u8]>::len), Some(100));
    assert!(!image.read_at(CHUNK as u64 * 2 + 99, &mut buf));
}

#[test]
fn detects_the_kind_of_image() {
    let floppy = vec![0u8; 1_474_560];
    assert_eq!(detect("f.img", &floppy, DriveKind::HardDisk), Ok(ImageKind::Floppy));
    assert_eq!(detect("f.img", &floppy, DriveKind::CdRom), Ok(ImageKind::Cd));
    assert_eq!(kind_by_name("x.iso", DriveKind::HardDisk), Some(ImageKind::Cd));
    assert_eq!(kind_by_name("x.flp", DriveKind::HardDisk), Some(ImageKind::Floppy));

    let mut disk = vec![0u8; 16 * 63 * 512 * 4];
    disk[..512].copy_from_slice(&boot_sector(4032, 63, 16));
    assert_eq!(detect("bare.img", &disk, DriveKind::HardDisk), Ok(ImageKind::HardDisk));

    assert!(detect("junk.img", &vec![0x11u8; 100_000], DriveKind::HardDisk).is_err());
}

#[test]
fn hard_disks_find_their_fat_partition() {
    // 4 cylinders of 4 heads x 17 sectors, one FAT16 partition from
    // sector 17 ending on cylinder 3, head 3, sector 17.
    let sectors = 4 * 4 * 17;
    let mut disk = vec![0u8; sectors * 512];
    let e = 0x1BE;
    disk[e] = 0x80;
    disk[e + 4] = 0x06;
    disk[e + 5] = 3;
    disk[e + 6] = 17;
    disk[e + 7] = 3;
    disk[e + 8..e + 12].copy_from_slice(&17u32.to_le_bytes());
    disk[e + 12..e + 16].copy_from_slice(&((sectors - 17) as u32).to_le_bytes());
    disk[510] = 0x55;
    disk[511] = 0xAA;
    assert_eq!(detect("mbr.img", &disk, DriveKind::HardDisk), Ok(ImageKind::HardDisk));
    let found = image("mbr.img", &disk, false, None, false);
    assert_eq!(found.geometry(), Chs { cylinders: 4, heads: 4, sectors: 17 });
    assert_eq!(found.fat_volume(), Ok((17, sectors as u64 - 17)));

    let forced = Chs { cylinders: 2, heads: 8, sectors: 17 };
    assert_eq!(image("mbr.img", &disk, false, Some(forced), false).geometry(), forced);

    disk[e + 4] = 0x0C;
    assert!(image("fat32.img", &disk, false, None, false).fat_volume().unwrap_err().contains("FAT32"));
}

#[test]
fn parameter_blocks_are_read() {
    let bpb = Bpb::parse(&boot_sector(2880, 18, 2)).unwrap();
    assert_eq!(bpb.bytes_per_sector, 512);
    assert!(Bpb::parse(&vec![0u8; 512]).is_none());
}
