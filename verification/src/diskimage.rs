//! Raw floppy and hard disk images: the sectors of a disk, one after the
//! other, as the BIOS reads them by cylinder, head and sector (INT 13h) and
//! the FAT driver reads them by number.
//!
//! A floppy's geometry comes from the image size, as DOSBox has it; a hard
//! disk's from the mount options, its partition table or boot sector.

use vstd::prelude::*;
use vstd::string::*;

use crate::bits::word_of;
use crate::bus::store_bytes;
use crate::disk::kind::DriveKind;
use crate::text::{chars_of, last_of, last_place, lower, lowercase, same, text_between};

verus! {

pub const SECTOR_SIZE: usize = 512;

/// INT 13h status codes.
pub const STATUS_BAD_COMMAND: u8 = 0x01;

pub const STATUS_WRITE_PROTECTED: u8 = 0x03;

pub const STATUS_SECTOR_NOT_FOUND: u8 = 0x04;

pub const STATUS_CONTROLLER_FAILURE: u8 = 0x20;

/// Bytes in each piece of an image held in memory.
pub const CHUNK: usize = 0x1_0000;

/// Cylinders, heads and sectors per track.
#[derive(Clone, Copy, Debug, PartialEq, Eq, Structural)]
pub struct Chs {
    pub cylinders: u32,
    pub heads: u32,
    pub sectors: u32,
}

impl Chs {
    /// How many sectors a disk of this geometry has.
    pub fn total(&self) -> (n: u64)
        requires
            self.cylinders * self.heads * self.sectors <= u64::MAX,
        ensures
            n == self.cylinders * self.heads * self.sectors,
    {
        proof {
            let (c, h, s) = (self.cylinders as int, self.heads as int, self.sectors as int);
            assert(0 <= c * h <= 0xFFFF_FFFF * 0xFFFF_FFFF) by (nonlinear_arith)
                requires
                    0 <= c <= 0xFFFF_FFFF,
                    0 <= h <= 0xFFFF_FFFF,
            ;
        }
        self.cylinders as u64 * self.heads as u64 * self.sectors as u64
    }
}

/// A floppy format by the size of its image in KB: its geometry and the BIOS
/// drive type INT 13h AH=08h reports for it (1 = 360K, 2 = 1.2M, 3 = 720K,
/// 4 = 1.44M, 6 = 2.88M).
pub open spec fn floppy_format(kb: int) -> Option<(Chs, u8)> {
    if kb == 160 {
        Some((Chs { cylinders: 40, heads: 1, sectors: 8 }, 0))
    } else if kb == 180 {
        Some((Chs { cylinders: 40, heads: 1, sectors: 9 }, 0))
    } else if kb == 200 {
        Some((Chs { cylinders: 40, heads: 1, sectors: 10 }, 0))
    } else if kb == 320 {
        Some((Chs { cylinders: 40, heads: 2, sectors: 8 }, 1))
    } else if kb == 360 {
        Some((Chs { cylinders: 40, heads: 2, sectors: 9 }, 1))
    } else if kb == 400 {
        Some((Chs { cylinders: 40, heads: 2, sectors: 10 }, 1))
    } else if kb == 720 {
        Some((Chs { cylinders: 80, heads: 2, sectors: 9 }, 3))
    } else if kb == 1200 {
        Some((Chs { cylinders: 80, heads: 2, sectors: 15 }, 2))
    } else if kb == 1440 {
        Some((Chs { cylinders: 80, heads: 2, sectors: 18 }, 4))
    } else if kb == 1520 {
        Some((Chs { cylinders: 80, heads: 2, sectors: 19 }, 2))
    } else if kb == 1680 {
        Some((Chs { cylinders: 80, heads: 2, sectors: 21 }, 4))
    } else if kb == 1720 {
        Some((Chs { cylinders: 82, heads: 2, sectors: 21 }, 4))
    } else if kb == 1840 {
        Some((Chs { cylinders: 80, heads: 2, sectors: 23 }, 4))
    } else if kb == 2880 {
        Some((Chs { cylinders: 80, heads: 2, sectors: 36 }, 6))
    } else {
        None
    }
}

/// The format of a floppy image, which may be 1 KB over.
pub open spec fn floppy_of(bytes: u64) -> Option<(Chs, u8)> {
    match floppy_format(bytes as int / 1024) {
        Some(format) => Some(format),
        None => floppy_format(bytes as int / 1024 - 1),
    }
}

fn format_of(kb: u64) -> (format: Option<(Chs, u8)>)
    ensures
        format == floppy_format(kb as int),
{
    let (sectors, heads, cylinders, bios_type): (u32, u32, u32, u8) = match kb {
        160 => (8, 1, 40, 0),
        180 => (9, 1, 40, 0),
        200 => (10, 1, 40, 0),
        320 => (8, 2, 40, 1),
        360 => (9, 2, 40, 1),
        400 => (10, 2, 40, 1),
        720 => (9, 2, 80, 3),
        1200 => (15, 2, 80, 2),
        1440 => (18, 2, 80, 4),
        1520 => (19, 2, 80, 2),
        1680 => (21, 2, 80, 4),
        1720 => (21, 2, 82, 4),
        1840 => (23, 2, 80, 4),
        2880 => (36, 2, 80, 6),
        _ => {
            return None;
        },
    };
    Some((Chs { cylinders, heads, sectors }, bios_type))
}

/// The geometry and BIOS drive type of a floppy image of `bytes` bytes, if
/// it is one of the known sizes (or 1 KB over, as images with a little
/// extra data are).
pub fn floppy_geometry(bytes: u64) -> (format: Option<(Chs, u8)>)
    ensures
        format == floppy_of(bytes),
{
    let kb: u64 = bytes / 1024;
    match format_of(kb) {
        Some(format) => Some(format),
        None => if kb == 0 {
            None
        } else {
            format_of(kb - 1)
        },
    }
}

/// The BIOS drive type of a floppy with a geometry that isn't in the table.
pub open spec fn type_of_floppy(chs: Chs) -> u8 {
    if chs.sectors >= 36 {
        6
    } else if chs.sectors >= 18 {
        4
    } else if chs.sectors >= 15 {
        2
    } else if chs.cylinders >= 80 {
        3
    } else {
        1
    }
}

fn floppy_type_of(chs: Chs) -> (bios_type: u8)
    ensures
        bios_type == type_of_floppy(chs),
{
    if chs.sectors >= 36 {
        6
    } else if chs.sectors >= 18 {
        4
    } else if chs.sectors >= 15 {
        2
    } else if chs.cylinders >= 80 {
        3
    } else {
        1
    }
}

/// What an image file holds.
#[derive(Clone, Copy, Debug, PartialEq, Eq, Structural)]
pub enum ImageKind {
    Cd,
    Floppy,
    HardDisk,
}

/// The last component of a path.
pub open spec fn file_part(path: Seq<char>) -> Seq<char> {
    match last_place(path, '/') {
        Some(i) => path.subrange(i + 1, path.len() as int),
        None => path,
    }
}

/// What stands behind the last dot of a file's name, if something stands
/// before it.
pub open spec fn extension_of(path: Seq<char>) -> Seq<char> {
    let file = file_part(path);
    match last_place(file, '.') {
        Some(i) => if i > 0 {
            file.subrange(i + 1, file.len() as int)
        } else {
            Seq::empty()
        },
        None => Seq::empty(),
    }
}

/// The extension of a file's name, in lower case.
fn lower_extension(path: &str) -> (ext: String)
    ensures
        ext@ == lower(extension_of(path@)),
{
    let chars = chars_of(path);
    assert(chars@.len() == chars.len());
    assert(chars@.subrange(0, chars@.len() as int) =~= chars@);
    let from: usize = match last_of(&chars, 0, '/') {
        Some(i) => i + 1,
        None => 0,
    };
    assert(chars@.subrange(from as int, chars@.len() as int) =~= file_part(path@));
    let ext = match last_of(&chars, from, '.') {
        Some(i) => if i > from {
            let text = text_between(&chars, i + 1, chars.len());
            assert(text@ =~= extension_of(path@));
            text
        } else {
            String::new()
        },
        None => String::new(),
    };
    assert(ext@ =~= extension_of(path@));
    lowercase(ext.as_str())
}

/// The kind of image that the drive type asked for, or the extension of the
/// file's name, says.
pub open spec fn named_kind(path: Seq<char>, requested: DriveKind) -> Option<ImageKind> {
    let ext = lower(extension_of(path));
    if requested == DriveKind::CdRom || ext == "iso"@ || ext == "cue"@ || ext == "bin"@ {
        Some(ImageKind::Cd)
    } else if requested == DriveKind::Floppy || ext == "vfd"@ || ext == "flp"@ {
        Some(ImageKind::Floppy)
    } else {
        None
    }
}

/// The kind of image the drive type asked for or the file name's extension
/// says, if they do. `requested` is the drive type the mount asked for:
/// CD-ROM and floppy force theirs, a hard disk (the default) leaves it to the
/// file. Like DOSBox, .iso, .cue and .bin are CDs, .vfd and .flp floppies.
pub fn kind_by_name(path: &str, requested: DriveKind) -> (kind: Option<ImageKind>)
    ensures
        kind == named_kind(path@, requested),
{
    let ext = lower_extension(path);
    if requested == DriveKind::CdRom || same(ext.as_str(), "iso") || same(ext.as_str(), "cue")
        || same(ext.as_str(), "bin") {
        return Some(ImageKind::Cd);
    }
    if requested == DriveKind::Floppy || same(ext.as_str(), "vfd") || same(ext.as_str(), "flp") {
        return Some(ImageKind::Floppy);
    }
    None
}

/// Little-endian numbers in a sector.
pub open spec fn le_word(bytes: Seq<u8>, at: int) -> u16 {
    word_of(bytes[at], bytes[at + 1])
}

pub open spec fn le_dword(bytes: Seq<u8>, at: int) -> u32 {
    (le_word(bytes, at + 2) as u32) << 16 | (le_word(bytes, at) as u32)
}

fn word_in(bytes: &[u8], at: usize) -> (word: u16)
    requires
        at + 1 < bytes@.len(),
    ensures
        word == le_word(bytes@, at as int),
{
    assert(bytes@.len() == bytes.len());
    ((bytes[at + 1] as u16) << 8) | (bytes[at] as u16)
}

fn dword_in(bytes: &[u8], at: usize) -> (dword: u32)
    requires
        at + 3 < bytes@.len(),
    ensures
        dword == le_dword(bytes@, at as int),
{
    assert(bytes@.len() == bytes.len());
    (word_in(bytes, at + 2) as u32) << 16 | (word_in(bytes, at) as u32)
}

/// The fields of a FAT boot sector's BIOS parameter block that tell where
/// things are.
#[derive(Clone, Copy, Debug, PartialEq, Eq, Structural)]
pub struct Bpb {
    pub bytes_per_sector: u16,
    pub sectors_per_cluster: u8,
    pub reserved_sectors: u16,
    pub fats: u8,
    pub root_entries: u16,
    pub total_sectors: u32,
    pub media: u8,
    pub sectors_per_fat: u16,
    pub sectors_per_track: u16,
    pub heads: u16,
    pub hidden_sectors: u32,
}

/// The parameter block at its place in a boot sector.
pub open spec fn bpb_fields(boot: Seq<u8>) -> Bpb {
    Bpb {
        bytes_per_sector: le_word(boot, 0x0B),
        sectors_per_cluster: boot[0x0D],
        reserved_sectors: le_word(boot, 0x0E),
        fats: boot[0x10],
        root_entries: le_word(boot, 0x11),
        total_sectors: if le_word(boot, 0x13) != 0 {
            le_word(boot, 0x13) as u32
        } else {
            le_dword(boot, 0x20)
        },
        media: boot[0x15],
        sectors_per_fat: le_word(boot, 0x16),
        sectors_per_track: le_word(boot, 0x18),
        heads: le_word(boot, 0x1A),
        hidden_sectors: le_dword(boot, 0x1C),
    }
}

pub open spec fn power_of_two(n: u8) -> bool {
    n == 1 || n == 2 || n == 4 || n == 8 || n == 16 || n == 32 || n == 64 || n == 128
}

/// Whether a parameter block is plausible for a FAT12/16 volume with 512-byte
/// sectors.
pub open spec fn plausible(bpb: Bpb) -> bool {
    &&& bpb.bytes_per_sector == SECTOR_SIZE
    &&& power_of_two(bpb.sectors_per_cluster)
    &&& bpb.reserved_sectors >= 1
    &&& 1 <= bpb.fats <= 2
    &&& bpb.root_entries > 0
    &&& bpb.sectors_per_fat > 0
    &&& bpb.total_sectors > 0
    &&& bpb.media >= 0xF0
}

/// The parameter block that a sector has.
pub open spec fn bpb_of(boot: Seq<u8>) -> Option<Bpb> {
    if boot.len() >= SECTOR_SIZE && (boot[0] == 0xEB || boot[0] == 0xE9) && plausible(
        bpb_fields(boot),
    ) {
        Some(bpb_fields(boot))
    } else {
        None
    }
}

impl Bpb {
    /// The BPB of a boot sector, if it has a plausible one for a FAT12/16
    /// volume with 512-byte sectors.
    pub fn parse(boot: &[u8]) -> (bpb: Option<Self>)
        ensures
            bpb == bpb_of(boot@),
    {
        if boot.len() < SECTOR_SIZE || !(boot[0] == 0xEB || boot[0] == 0xE9) {
            return None;
        }
        let small_total: u16 = word_in(boot, 0x13);
        let bpb = Bpb {
            bytes_per_sector: word_in(boot, 0x0B),
            sectors_per_cluster: boot[0x0D],
            reserved_sectors: word_in(boot, 0x0E),
            fats: boot[0x10],
            root_entries: word_in(boot, 0x11),
            total_sectors: if small_total != 0 {
                small_total as u32
            } else {
                dword_in(boot, 0x20)
            },
            media: boot[0x15],
            sectors_per_fat: word_in(boot, 0x16),
            sectors_per_track: word_in(boot, 0x18),
            heads: word_in(boot, 0x1A),
            hidden_sectors: dword_in(boot, 0x1C),
        };
        let n: u8 = bpb.sectors_per_cluster;
        let valid = bpb.bytes_per_sector as usize == SECTOR_SIZE && (n == 1 || n == 2 || n == 4 || n
            == 8 || n == 16 || n == 32 || n == 64 || n == 128) && bpb.reserved_sectors >= 1 && (
        bpb.fats == 1 || bpb.fats == 2) && bpb.root_entries > 0 && bpb.sectors_per_fat > 0
            && bpb.total_sectors > 0 && bpb.media >= 0xF0;
        if valid {
            Some(bpb)
        } else {
            None
        }
    }
}

/// A primary partition table entry.
#[derive(Clone, Copy, Debug, PartialEq, Eq, Structural)]
pub struct Partition {
    pub kind: u8,
    pub start: u64,
    pub sectors: u64,
    /// Heads and sectors per track as the partition's ending CHS tells them.
    pub end_heads: u32,
    pub end_sectors: u32,
}

/// Where entry `i` of a partition table is.
pub open spec fn entry_at(i: int) -> int {
    0x1BE + 16 * i
}

/// Whether an entry of a partition table is in use.
pub open spec fn entry_used(mbr: Seq<u8>, i: int) -> bool {
    mbr[entry_at(i) + 4] != 0 && le_dword(mbr, entry_at(i) + 12) != 0
}

/// Whether a used entry makes sense: the boot flag is 00h or 80h, and the
/// partition lies on the disk.
pub open spec fn entry_sound(mbr: Seq<u8>, i: int, disk_sectors: u64) -> bool {
    let start = le_dword(mbr, entry_at(i) + 8);
    mbr[entry_at(i)] & 0x7F == 0 && 0 < start < disk_sectors
}

/// The partition of an entry, cut to the disk.
pub open spec fn entry_partition(mbr: Seq<u8>, i: int, disk_sectors: u64) -> Partition {
    let start = le_dword(mbr, entry_at(i) + 8);
    let sectors = le_dword(mbr, entry_at(i) + 12);
    Partition {
        kind: mbr[entry_at(i) + 4],
        start: start as u64,
        sectors: if sectors < disk_sectors - start {
            sectors as u64
        } else {
            (disk_sectors - start) as u64
        },
        end_heads: (mbr[entry_at(i) + 5] + 1) as u32,
        end_sectors: (mbr[entry_at(i) + 6] & 0x3F) as u32,
    }
}

/// The partitions of the first `n` entries, if those in use all make sense.
pub open spec fn entries_found(mbr: Seq<u8>, disk_sectors: u64, n: nat) -> Option<Seq<Partition>>
    decreases n,
{
    if n == 0 {
        Some(Seq::empty())
    } else {
        match entries_found(mbr, disk_sectors, (n - 1) as nat) {
            None => None,
            Some(found) => if !entry_used(mbr, n - 1) {
                Some(found)
            } else if !entry_sound(mbr, n - 1, disk_sectors) {
                None
            } else {
                Some(found.push(entry_partition(mbr, n - 1, disk_sectors)))
            },
        }
    }
}

/// The partitions of a master boot record.
pub open spec fn partitions_of(mbr: Seq<u8>, disk_sectors: u64) -> Option<Seq<Partition>> {
    if mbr.len() < SECTOR_SIZE || mbr[510] != 0x55 || mbr[511] != 0xAA {
        None
    } else {
        match entries_found(mbr, disk_sectors, 4) {
            Some(found) => if found.len() == 0 {
                None
            } else {
                Some(found)
            },
            None => None,
        }
    }
}

proof fn lemma_entries_stop(mbr: Seq<u8>, disk_sectors: u64, n: nat, m: nat)
    requires
        n <= m,
    ensures
        entries_found(mbr, disk_sectors, n) is None ==> entries_found(mbr, disk_sectors, m) is None,
    decreases m,
{
    if n < m {
        lemma_entries_stop(mbr, disk_sectors, n, (m - 1) as nat);
    }
}

/// The partitions of an MBR on a disk of `disk_sectors` sectors, if the
/// sector is one: the 55AAh signature and entries that fit on the disk
/// (images are often cut a cylinder short).
pub fn partitions(mbr: &[u8], disk_sectors: u64) -> (found: Option<Vec<Partition>>)
    ensures
        match (found, partitions_of(mbr@, disk_sectors)) {
            (Some(v), Some(w)) => v@ == w,
            (None, None) => true,
            _ => false,
        },
{
    if mbr.len() < SECTOR_SIZE || mbr[510] != 0x55 || mbr[511] != 0xAA {
        return None;
    }
    let mut found: Vec<Partition> = Vec::new();
    let mut i: usize = 0;
    while i < 4
        invariant
            i <= 4,
            mbr@.len() >= 512,
            mbr@[510] == 0x55,
            mbr@[511] == 0xAA,
            entries_found(mbr@, disk_sectors, i as nat) == Some(found@),
        decreases 4 - i,
    {
        let e: usize = 0x1BE + i * 16;
        let start: u64 = dword_in(mbr, e + 8) as u64;
        let sectors: u64 = dword_in(mbr, e + 12) as u64;
        if mbr[e + 4] != 0 && sectors != 0 {
            if mbr[e] & 0x7F != 0 || start == 0 || start >= disk_sectors {
                proof {
                    lemma_entries_stop(mbr@, disk_sectors, (i + 1) as nat, 4);
                }
                return None;
            }
            let left: u64 = disk_sectors - start;
            found.push(
                Partition {
                    kind: mbr[e + 4],
                    start,
                    sectors: if sectors < left {
                        sectors
                    } else {
                        left
                    },
                    end_heads: mbr[e + 5] as u32 + 1,
                    end_sectors: (mbr[e + 6] & 0x3F) as u32,
                },
            );
        }
        i = i + 1;
    }
    if found.len() == 0 {
        None
    } else {
        Some(found)
    }
}

/// The kind of an image that its size or its first sector tells.
pub open spec fn kind_of_contents(len: u64, boot: Option<Seq<u8>>) -> Option<ImageKind> {
    if floppy_of(len) is Some {
        Some(ImageKind::Floppy)
    } else {
        match boot {
            Some(b) => if bpb_of(b) is Some || partitions_of(b, len / 512) is Some {
                Some(ImageKind::HardDisk)
            } else {
                None
            },
            None => None,
        }
    }
}

/// The kind of an image of `len` bytes that starts with `boot`, if its size
/// is a floppy's or it starts with a partition table or boot sector.
pub fn kind_by_contents(len: u64, boot: Option<&[u8]>) -> (kind: Option<ImageKind>)
    ensures
        kind == kind_of_contents(
            len,
            match boot {
                Some(b) => Some(b@),
                None => None,
            },
        ),
{
    if floppy_geometry(len).is_some() {
        return Some(ImageKind::Floppy);
    }
    match boot {
        None => None,
        Some(b) => if Bpb::parse(b).is_some() || partitions(b, len / 512).is_some() {
            Some(ImageKind::HardDisk)
        } else {
            None
        },
    }
}

/// The first partition with a kind of FAT12 or FAT16.
pub open spec fn first_fat(parts: Seq<Partition>, from: int) -> Option<Partition>
    decreases parts.len() - from,
{
    if from < 0 || from >= parts.len() {
        None
    } else if parts[from].kind == 0x01 || parts[from].kind == 0x04 || parts[from].kind == 0x06
        || parts[from].kind == 0x0E {
        Some(parts[from])
    } else {
        first_fat(parts, from + 1)
    }
}

pub open spec fn has_fat32(parts: Seq<Partition>) -> bool {
    exists|i: int|
        0 <= i < parts.len() && ((#[trigger] parts[i]).kind == 0x0B || parts[i].kind == 0x0C)
}

/// Where a disk's FAT volume is: its first sector and how many it has, or why
/// there is none.
pub open spec fn volume_of(boot: Seq<u8>, sectors: u64, floppy: bool) -> Result<
    (u64, u64),
    Seq<char>,
> {
    if floppy || bpb_of(boot) is Some {
        Ok((0, sectors))
    } else {
        match partitions_of(boot, sectors) {
            None => Err("No partition table or boot sector"@),
            Some(parts) => match first_fat(parts, 0) {
                Some(p) => Ok((p.start, p.sectors)),
                None => if has_fat32(parts) {
                    Err("FAT32 partitions aren't supported"@)
                } else {
                    Err("No FAT12 or FAT16 partition"@)
                },
            },
        }
    }
}

/// Where the FAT volume on a disk is that starts with `boot`: (first sector,
/// sectors). A floppy is one volume; a hard disk is a volume from its boot
/// sector on, or has one in its first FAT12/16 primary partition.
pub fn fat_volume_of(boot: &[u8], sectors: u64, floppy: bool) -> (volume: Result<
    (u64, u64),
    String,
>)
    ensures
        match (volume, volume_of(boot@, sectors, floppy)) {
            (Ok(v), Ok(w)) => v == w,
            (Err(e), Err(f)) => e@ == f,
            _ => false,
        },
{
    if floppy || Bpb::parse(boot).is_some() {
        return Ok((0, sectors));
    }
    let parts = match partitions(boot, sectors) {
        Some(parts) => parts,
        None => {
            return Err(String::from_str("No partition table or boot sector"));
        },
    };
    let mut i: usize = 0;
    let mut fat32 = false;
    while i < parts.len()
        invariant
            i <= parts@.len(),
            !floppy,
            bpb_of(boot@) is None,
            partitions_of(boot@, sectors) == Some(parts@),
            first_fat(parts@, 0) == first_fat(parts@, i as int),
            fat32 == exists|k: int|
                0 <= k < i && ((#[trigger] parts@[k]).kind == 0x0B || parts@[k].kind == 0x0C),
        decreases parts.len() - i,
    {
        let p = parts[i];
        if p.kind == 0x01 || p.kind == 0x04 || p.kind == 0x06 || p.kind == 0x0E {
            return Ok((p.start, p.sectors));
        }
        if p.kind == 0x0B || p.kind == 0x0C {
            fat32 = true;
            assert(parts@[i as int].kind == 0x0B || parts@[i as int].kind == 0x0C);
        }
        i = i + 1;
    }
    assert(fat32 == has_fat32(parts@));
    if fat32 {
        Err(String::from_str("FAT32 partitions aren't supported"))
    } else {
        Err(String::from_str("No FAT12 or FAT16 partition"))
    }
}

/// The heads and sectors per track that the first partition with a sensible
/// end tells.
pub open spec fn partition_geometry(parts: Seq<Partition>, from: int) -> (u32, u32)
    decreases parts.len() - from,
{
    if from < 0 || from >= parts.len() {
        (16, 63)
    } else if 1 <= parts[from].end_sectors <= 63 && parts[from].end_heads > 1 {
        (parts[from].end_heads, parts[from].end_sectors)
    } else {
        partition_geometry(parts, from + 1)
    }
}

/// The heads and sectors per track of a hard disk.
pub open spec fn heads_and_sectors(boot: Seq<u8>, sectors: u64) -> (u32, u32) {
    match bpb_of(boot) {
        Some(bpb) => if bpb.heads > 0 && 1 <= bpb.sectors_per_track <= 63 {
            (bpb.heads as u32, bpb.sectors_per_track as u32)
        } else {
            match partitions_of(boot, sectors) {
                Some(parts) => partition_geometry(parts, 0),
                None => (16, 63),
            }
        },
        None => match partitions_of(boot, sectors) {
            Some(parts) => partition_geometry(parts, 0),
            None => (16, 63),
        },
    }
}

/// A hard disk's geometry: as many whole cylinders as it holds, at least one.
pub open spec fn hard_disk_chs(boot: Seq<u8>, sectors: u64) -> Chs {
    let (heads, per_track) = heads_and_sectors(boot, sectors);
    let whole = sectors as int / (heads * per_track);
    Chs {
        cylinders: if whole < 1 {
            1
        } else if whole > u32::MAX {
            u32::MAX
        } else {
            whole as u32
        },
        heads,
        sectors: per_track,
    }
}

fn partition_end(parts: &Vec<Partition>) -> (end: (u32, u32))
    ensures
        end == partition_geometry(parts@, 0),
        end.0 >= 1,
        1 <= end.1 <= 63,
{
    let mut i: usize = 0;
    while i < parts.len()
        invariant
            i <= parts@.len(),
            partition_geometry(parts@, 0) == partition_geometry(parts@, i as int),
        decreases parts.len() - i,
    {
        let p = parts[i];
        if 1 <= p.end_sectors && p.end_sectors <= 63 && p.end_heads > 1 {
            return (p.end_heads, p.end_sectors);
        }
        i = i + 1;
    }
    (16, 63)
}

fn tracks_of(boot: &[u8], sectors: u64) -> (tracks: (u32, u32))
    ensures
        tracks == heads_and_sectors(boot@, sectors),
        tracks.0 >= 1,
        1 <= tracks.1 <= 63,
{
    if let Some(bpb) = Bpb::parse(boot) {
        if bpb.heads > 0 && 1 <= bpb.sectors_per_track && bpb.sectors_per_track <= 63 {
            return (bpb.heads as u32, bpb.sectors_per_track as u32);
        }
    }
    match partitions(boot, sectors) {
        Some(parts) => partition_end(&parts),
        None => (16, 63),
    }
}

/// A hard disk's geometry from its first sector: the heads and sectors
/// per track its partitions end on, or its boot sector's, or 16 heads of
/// 63 sectors. The cylinders are what the image holds.
pub fn hard_disk_geometry(boot: &[u8], sectors: u64) -> (chs: Chs)
    ensures
        chs == hard_disk_chs(boot@, sectors),
{
    let (heads, per_track): (u32, u32) = tracks_of(boot, sectors);
    proof {
        assert(1 <= heads * per_track <= 0xFFFF_FFFF * 63) by (nonlinear_arith)
            requires
                1 <= heads <= 0xFFFF_FFFF,
                1 <= per_track <= 63,
        ;
    }
    let whole: u64 = sectors / (heads as u64 * per_track as u64);
    let cylinders: u32 = if whole < 1 {
        1
    } else if whole > u32::MAX as u64 {
        u32::MAX
    } else {
        whole as u32
    };
    Chs { cylinders, heads, sectors: per_track }
}

/// The bytes of a disk or CD image held in memory, in `CHUNK`-sized pieces.
/// Only pieces with something other than zeros take memory, so an empty hard
/// disk takes next to none.
#[derive(Debug)]
pub struct MemoryImage {
    len: u64,
    chunks: Vec<Option<Vec<u8>>>,
}

impl View for MemoryImage {
    type V = Seq<u8>;

    closed spec fn view(&self) -> Seq<u8> {
        Seq::new(
            self.len as nat,
            |i: int|
                match self.chunks@[i / 0x1_0000] {
                    Some(chunk) => chunk@[i % 0x1_0000],
                    None => 0u8,
                },
        )
    }
}

/// How many pieces an image of `len` bytes has.
pub open spec fn piece_count(len: int) -> int {
    (len + 0xFFFF) / 0x1_0000
}

/// How long piece `index` of an image of `len` bytes is.
pub open spec fn piece_len(len: int, index: int) -> int {
    if len - index * 0x1_0000 < 0x1_0000 {
        len - index * 0x1_0000
    } else {
        0x1_0000
    }
}

impl MemoryImage {
    /// The pieces are all there, each as long as it should be.
    pub closed spec fn wf(&self) -> bool {
        &&& self.len <= usize::MAX
        &&& self.chunks@.len() == piece_count(self.len as int)
        &&& forall|i: int|
            0 <= i < self.chunks@.len() && (#[trigger] self.chunks@[i]) is Some ==> self.chunks@[i]->0@.len()
                == piece_len(self.len as int, i)
    }

    /// Whether piece `index` takes memory.
    pub closed spec fn takes_memory(&self, index: int) -> bool {
        0 <= index < self.chunks@.len() && self.chunks@[index] is Some
    }

    /// `len` bytes of zeros.
    pub fn new(len: u64) -> (image: Self)
        requires
            len <= usize::MAX - 0xFFFF,
        ensures
            image.wf(),
            image@ == Seq::new(len as nat, |i: int| 0u8),
            forall|i: int| !(#[trigger] image.takes_memory(i)),
    {
        let count: usize = (len as usize + 0xFFFF) / CHUNK;
        let mut chunks: Vec<Option<Vec<u8>>> = Vec::new();
        let mut i: usize = 0;
        while i < count
            invariant
                i <= count,
                chunks@.len() == i,
                forall|k: int| 0 <= k < i ==> chunks@[k] is None,
            decreases count - i,
        {
            chunks.push(None);
            i = i + 1;
        }
        let image = MemoryImage { len, chunks };
        assert(image@ =~= Seq::new(len as nat, |i: int| 0u8));
        image
    }

    pub fn len(&self) -> (n: u64)
        ensures
            n == self@.len(),
    {
        self.len
    }

    pub fn is_empty(&self) -> (yes: bool)
        ensures
            yes == (self@.len() == 0),
    {
        self.len == 0
    }

    /// Pieces in the image, the last one maybe shorter than `CHUNK`.
    pub fn chunk_count(&self) -> (n: usize)
        requires
            self.wf(),
        ensures
            n == piece_count(self@.len() as int),
    {
        self.chunks.len()
    }

    /// The piece `index`, or None if it is zeros.
    pub fn chunk(&self, index: usize) -> (chunk: Option<&[u8]>)
        requires
            self.wf(),
        ensures
            chunk is Some == self.takes_memory(index as int),
            chunk matches Some(c) ==> c@ == self@.subrange(
                index * 0x1_0000,
                index * 0x1_0000 + piece_len(self@.len() as int, index as int),
            ),
    {
        if index >= self.chunks.len() {
            return None;
        }
        match &self.chunks[index] {
            Some(chunk) => {
                proof {
                    let from = index * 0x1_0000;
                    let n = piece_len(self@.len() as int, index as int);
                    assert(chunk@.len() == n);
                    assert forall|k: int| 0 <= k < n implies chunk@[k] == self@[from + k] by {
                        assert((from + k) / 0x1_0000 == index);
                        assert((from + k) % 0x1_0000 == k);
                    }
                    assert(chunk@ =~= self@.subrange(from, from + n));
                }
                Some(chunk.as_slice())
            },
            None => None,
        }
    }

    fn byte(&self, pos: usize) -> (b: u8)
        requires
            self.wf(),
            pos < self@.len(),
        ensures
            b == self@[pos as int],
    {
        match &self.chunks[pos / CHUNK] {
            Some(chunk) => chunk[pos % CHUNK],
            None => 0,
        }
    }

    fn put(&mut self, pos: usize, value: u8)
        requires
            old(self).wf(),
            pos < old(self)@.len(),
        ensures
            final(self).wf(),
            final(self)@ == old(self)@.update(pos as int, value),
            forall|i: int|
                final(self).takes_memory(i) == (old(self).takes_memory(i) || (i == pos as int
                    / 0x1_0000 && value != 0)),
    {
        let index: usize = pos / CHUNK;
        let offset: usize = pos % CHUNK;
        match self.chunks[index].take() {
            Some(mut chunk) => {
                chunk[offset] = value;
                self.chunks[index] = Some(chunk);
            },
            None => {
                // Zeros where there are zeros already need no memory.
                if value != 0 {
                    let total: usize = self.len as usize;
                    let left: usize = total - index * CHUNK;
                    let n: usize = if left < CHUNK {
                        left
                    } else {
                        CHUNK
                    };
                    let mut chunk = zeros(n);
                    chunk[offset] = value;
                    self.chunks[index] = Some(chunk);
                }
            },
        }
        proof {
            assert forall|i: int| 0 <= i < self@.len() implies self@[i] == old(self)@.update(
                pos as int,
                value,
            )[i] by {
                if i != pos && i / 0x1_0000 == index {
                    assert(i % 0x1_0000 != offset);
                }
            }
            assert(self@ =~= old(self)@.update(pos as int, value));
        }
    }

    /// Fill `buf` from byte `at` on. False if that runs past the end.
    pub fn read_at(&self, at: u64, buf: &mut [u8]) -> (done: bool)
        requires
            self.wf(),
        ensures
            done == (at + old(buf)@.len() <= self@.len()),
            final(buf)@ == (if done {
                self@.subrange(at as int, at + old(buf)@.len())
            } else {
                old(buf)@
            }),
    {
        let n: usize = buf.len();
        if at > self.len || n as u64 > self.len - at {
            return false;
        }
        let start: usize = at as usize;
        let mut i: usize = 0;
        while i < n
            invariant
                self.wf(),
                i <= n,
                n == buf@.len(),
                n == old(buf)@.len(),
                start == at,
                start + n <= self@.len(),
                self@.len() == self.len,
                forall|k: int| 0 <= k < i ==> buf@[k] == self@[start + k],
            decreases n - i,
        {
            buf[i] = self.byte(start + i);
            i = i + 1;
        }
        assert(buf@ =~= self@.subrange(at as int, at + n));
        true
    }

    /// Put `data` at byte `at` on. False if that runs past the end.
    pub fn write_at(&mut self, at: u64, data: &[u8]) -> (done: bool)
        requires
            old(self).wf(),
        ensures
            final(self).wf(),
            done == (at + data@.len() <= old(self)@.len()),
            final(self)@ == (if done {
                store_bytes(old(self)@, at as int, data@)
            } else {
                old(self)@
            }),
            forall|i: int|
                final(self).takes_memory(i) == (old(self).takes_memory(i) || (done && exists|k: int|
                    0 <= k < data@.len() && #[trigger] data@[k] != 0 && (at + k) / 0x1_0000 == i)),
    {
        let n: usize = data.len();
        if at > self.len || n as u64 > self.len - at {
            return false;
        }
        let start: usize = at as usize;
        let mut i: usize = 0;
        assert(self@ =~= store_bytes(old(self)@, at as int, data@.take(0)));
        while i < n
            invariant
                self.wf(),
                i <= n,
                n == data@.len(),
                start == at,
                start + n <= old(self)@.len(),
                self@.len() == old(self)@.len(),
                self@ == store_bytes(old(self)@, at as int, data@.take(i as int)),
                forall|c: int|
                    self.takes_memory(c) == (old(self).takes_memory(c) || exists|k: int|
                        0 <= k < i && #[trigger] data@[k] != 0 && (at + k) / 0x1_0000 == c),
            decreases n - i,
        {
            let ghost before = *self;
            self.put(start + i, data[i]);
            proof {
                assert forall|c: int|
                    self.takes_memory(c) == (old(self).takes_memory(c) || exists|k: int|
                        0 <= k < i + 1 && #[trigger] data@[k] != 0 && (at + k) / 0x1_0000 == c) by {
                    if data@[i as int] != 0 && (at + i) / 0x1_0000 == c {
                        assert(self.takes_memory(c));
                    }
                }
                assert(self@ =~= store_bytes(old(self)@, at as int, data@.take(i + 1)));
            }
            i = i + 1;
        }
        assert(data@.take(n as int) =~= data@);
        true
    }

    /// An image with these bytes.
    pub fn from_bytes(data: Vec<u8>) -> (image: Self)
        requires
            data@.len() <= usize::MAX - 0xFFFF,
        ensures
            image.wf(),
            image@ == data@,
    {
        let mut image = MemoryImage::new(data.len() as u64);
        let ghost empty = image@;
        image.write_at(0, data.as_slice());
        assert(store_bytes(empty, 0, data@) =~= data@);
        image
    }
}

fn zeros(n: usize) -> (v: Vec<u8>)
    ensures
        v@ == Seq::new(n as nat, |i: int| 0u8),
{
    let mut v: Vec<u8> = Vec::new();
    let mut i: usize = 0;
    while i < n
        invariant
            i <= n,
            v@ == Seq::new(i as nat, |i: int| 0u8),
        decreases n - i,
    {
        v.push(0);
        i = i + 1;
        assert(v@ =~= Seq::new(i as nat, |i: int| 0u8));
    }
    v
}

/// What kind of image `data` is, as a file named `name` would be found to
/// be. `holds_iso` says whether an ISO 9660 volume was found in it.
pub open spec fn detected(
    name: Seq<char>,
    data: Seq<u8>,
    requested: DriveKind,
    holds_iso: bool,
) -> Option<ImageKind> {
    match named_kind(name, requested) {
        Some(kind) => Some(kind),
        None => match kind_of_contents(
            data.len() as u64,
            if data.len() >= SECTOR_SIZE {
                Some(data.subrange(0, SECTOR_SIZE as int))
            } else {
                None
            },
        ) {
            Some(kind) => Some(kind),
            None => if holds_iso {
                Some(ImageKind::Cd)
            } else {
                None
            },
        },
    }
}

/// What kind of image `data` is, as a file named `name`: other images than
/// those its name tells are floppies if their size is a floppy's. The rest
/// are hard disks when they start with a partition table or a boot sector,
/// and CDs when they hold an ISO 9660 volume, which `holds_iso` says.
pub fn detect_memory(name: &str, data: &MemoryImage, requested: DriveKind, holds_iso: bool) -> (kind:
    Result<ImageKind, String>)
    requires
        data.wf(),
    ensures
        match (kind, detected(name@, data@, requested, holds_iso)) {
            (Ok(k), Some(l)) => k == l,
            (Err(e), None) => e@ == name@ + " is not a floppy, hard disk or CD image"@,
            _ => false,
        },
{
    if let Some(kind) = kind_by_name(name, requested) {
        return Ok(kind);
    }
    let mut sector: [u8; 512] = [0;512];
    let whole = data.read_at(0, &mut sector);
    let boot: Option<&[u8]> = if whole {
        Some(sector.as_slice())
    } else {
        None
    };
    if let Some(kind) = kind_by_contents(data.len(), boot) {
        return Ok(kind);
    }
    if holds_iso {
        return Ok(ImageKind::Cd);
    }
    let mut message = String::from_str(name);
    message.append(" is not a floppy, hard disk or CD image");
    Err(message)
}

/// What a disk is like, wherever its sectors are kept.
#[derive(Clone, Copy, Debug, PartialEq, Eq, Structural)]
pub struct DiskShape {
    pub sectors: u64,
    pub geometry: Chs,
    pub floppy: bool,
    pub bios_type: u8,
    pub writable: bool,
}

/// The sector number of a cylinder, head and sector.
pub open spec fn sector_number(g: Chs, c: int, h: int, s: int) -> int {
    (c * g.heads + h) * g.sectors + s - 1
}

/// Whether head `h` has a sector `s`.
pub open spec fn sector_exists(g: Chs, h: int, s: int) -> bool {
    0 < s <= g.sectors && 0 <= h < g.heads
}

/// Whether `len` bytes from sector `lba` on are on the disk.
pub open spec fn on_disk(sectors: u64, lba: u64, len: int) -> bool {
    lba + (len + 511) / 512 <= sectors
}

/// The shape of a disk of `len` bytes that starts with `boot`, or why it can
/// be none.
pub open spec fn shape_of(
    name: Seq<char>,
    len: u64,
    boot: Seq<u8>,
    floppy: bool,
    geometry: Option<Chs>,
    writable: bool,
) -> Result<DiskShape, Seq<char>> {
    let sectors = len / 512;
    let found: Option<(Chs, u8)> = if floppy {
        match geometry {
            Some(chs) => Some((chs, type_of_floppy(chs))),
            None => floppy_of(len),
        }
    } else {
        match geometry {
            Some(chs) => Some((chs, 0)),
            None => Some((hard_disk_chs(boot, sectors), 0)),
        }
    };
    if sectors == 0 {
        Err(name + " is empty"@)
    } else {
        match found {
            None => Err(name + " is not the size of a floppy disk image"@),
            Some((chs, bios_type)) => if chs.heads == 0 || chs.sectors == 0 || chs.cylinders == 0 {
                Err("Invalid disk geometry"@)
            } else {
                Ok(DiskShape { sectors, geometry: chs, floppy, bios_type, writable })
            },
        }
    }
}

fn about(name: &str, what: &str) -> (message: String)
    ensures
        message@ == name@ + what@,
{
    let mut message = String::from_str(name);
    message.append(what);
    message
}

impl DiskShape {
    /// The shape of a disk of `len` bytes whose first sector is `boot`, which
    /// `name` names in messages. `geometry` overrides the detected one.
    pub fn new(
        name: &str,
        len: u64,
        boot: &[u8],
        floppy: bool,
        geometry: Option<Chs>,
        writable: bool,
    ) -> (shape: Result<Self, String>)
        ensures
            match (shape, shape_of(name@, len, boot@, floppy, geometry, writable)) {
                (Ok(s), Ok(t)) => s == t,
                (Err(e), Err(f)) => e@ == f,
                _ => false,
            },
    {
        let sectors: u64 = len / 512;
        if sectors == 0 {
            return Err(about(name, " is empty"));
        }
        let (chs, bios_type): (Chs, u8) = if floppy {
            match geometry {
                Some(chs) => (chs, floppy_type_of(chs)),
                None => match floppy_geometry(len) {
                    Some(format) => format,
                    None => {
                        return Err(about(name, " is not the size of a floppy disk image"));
                    },
                },
            }
        } else {
            match geometry {
                Some(chs) => (chs, 0),
                None => (hard_disk_geometry(boot, sectors), 0),
            }
        };
        if chs.heads == 0 || chs.sectors == 0 || chs.cylinders == 0 {
            return Err(String::from_str("Invalid disk geometry"));
        }
        Ok(DiskShape { sectors, geometry: chs, floppy, bios_type, writable })
    }

    /// The sector number of cylinder `c`, head `h`, sector `s` (from 1), if
    /// that is a sector of the geometry. Multi-sector transfers run on from
    /// there across heads and cylinders.
    pub fn chs_to_lba(&self, c: u32, h: u32, s: u32) -> (lba: Option<u64>)
        requires
            sector_exists(self.geometry, h as int, s as int) ==> sector_number(
                self.geometry,
                c as int,
                h as int,
                s as int,
            ) < u64::MAX,
        ensures
            match lba {
                Some(n) => sector_exists(self.geometry, h as int, s as int) && n == sector_number(
                    self.geometry,
                    c as int,
                    h as int,
                    s as int,
                ),
                None => !sector_exists(self.geometry, h as int, s as int),
            },
    {
        let g = self.geometry;
        if s == 0 || s > g.sectors || h >= g.heads {
            return None;
        }
        proof {
            let (a, b) = (c as int, g.heads as int);
            assert(0 <= a * b <= 0xFFFF_FFFF * 0xFFFF_FFFF) by (nonlinear_arith)
                requires
                    0 <= a <= 0xFFFF_FFFF,
                    0 <= b <= 0xFFFF_FFFF,
            ;
            let t = a * b + h;
            assert(0 <= t * g.sectors) by (nonlinear_arith)
                requires
                    0 <= t,
            ;
        }
        Some((c as u64 * g.heads as u64 + h as u64) * g.sectors as u64 + (s as u64 - 1))
    }

    /// Whether `len` bytes from sector `lba` on are on the disk, or the
    /// status to report.
    pub fn check(&self, lba: u64, len: usize) -> (done: Result<(), u8>)
        ensures
            done == (if on_disk(self.sectors, lba, len as int) {
                Ok(())
            } else {
                Err(STATUS_SECTOR_NOT_FOUND)
            }),
    {
        let count: u64 = if len % 512 == 0 {
            len as u64 / 512
        } else {
            len as u64 / 512 + 1
        };
        if lba > self.sectors || count > self.sectors - lba {
            return Err(STATUS_SECTOR_NOT_FOUND);
        }
        Ok(())
    }

    /// Whether `len` bytes may be written from sector `lba` on, or the status
    /// to report.
    pub fn check_write(&self, lba: u64, len: usize) -> (done: Result<(), u8>)
        ensures
            done == (if !self.writable {
                Err(STATUS_WRITE_PROTECTED)
            } else if on_disk(self.sectors, lba, len as int) {
                Ok(())
            } else {
                Err(STATUS_SECTOR_NOT_FOUND)
            }),
    {
        if !self.writable {
            return Err(STATUS_WRITE_PROTECTED);
        }
        self.check(lba, len)
    }
}

/// A disk image held in memory.
#[derive(Debug)]
pub struct DiskImage {
    name: String,
    data: MemoryImage,
    /// Which `CHUNK`s were written since `take_written` last looked.
    written: Vec<bool>,
    shape: DiskShape,
    /// Counts writes, so that what caches the disk's contents can tell
    /// when they changed underneath it.
    generation: u64,
}

impl View for DiskImage {
    type V = Seq<u8>;

    closed spec fn view(&self) -> Seq<u8> {
        self.data@
    }
}

impl DiskImage {
    pub closed spec fn wf(&self) -> bool {
        &&& self.data.wf()
        &&& self.written@.len() == piece_count(self.data@.len() as int)
        &&& self.shape.sectors == self.data@.len() / 512
        &&& self.shape.sectors > 0
        &&& self.shape.geometry.heads > 0
        &&& self.shape.geometry.sectors > 0
        &&& self.shape.geometry.cylinders > 0
    }

    pub closed spec fn spec_shape(&self) -> DiskShape {
        self.shape
    }

    pub closed spec fn spec_generation(&self) -> u64 {
        self.generation
    }

    /// Whether piece `i` was written since the last look.
    pub closed spec fn spec_written(&self, i: int) -> bool {
        0 <= i < self.written@.len() && self.written@[i]
    }

    pub closed spec fn spec_name(&self) -> Seq<char> {
        self.name@
    }

    pub closed spec fn spec_data(&self) -> MemoryImage {
        self.data
    }

    /// A disk image held in memory, which `name` names in messages, as
    /// opening a file with those bytes makes.
    pub fn from_memory(
        name: &str,
        data: MemoryImage,
        floppy: bool,
        geometry: Option<Chs>,
        read_only: bool,
    ) -> (disk: Result<Self, String>)
        requires
            data.wf(),
        ensures
            ({
                let boot = data@.subrange(0, SECTOR_SIZE as int);
                match (
                    disk,
                    shape_of(
                        name@,
                        data@.len() as u64,
                        boot,
                        floppy,
                        geometry,
                        !read_only,
                    ),
                ) {
                    (Ok(d), Ok(shape)) => d.wf() && d@ == data@ && d.spec_shape() == shape
                        && d.spec_generation() == 0 && d.spec_name() == name@ && d.spec_data()
                        == data && forall|i: int| !(#[trigger] d.spec_written(i)),
                    (Err(e), Err(f)) => e@ == f,
                    _ => false,
                }
            }),
    {
        let len: u64 = data.len();
        if len / 512 == 0 {
            return Err(about(name, " is empty"));
        }
        let mut boot: [u8; 512] = [0;512];
        let _ = data.read_at(0, &mut boot);
        let shape = DiskShape::new(name, len, boot.as_slice(), floppy, geometry, !read_only)?;
        let count: usize = data.chunk_count();
        let mut written: Vec<bool> = Vec::new();
        let mut i: usize = 0;
        while i < count
            invariant
                i <= count,
                written@.len() == i,
                forall|k: int| 0 <= k < i ==> !written@[k],
            decreases count - i,
        {
            written.push(false);
            i = i + 1;
        }
        Ok(
            DiskImage {
                name: String::from_str(name),
                data,
                written,
                shape,
                generation: 0,
            },
        )
    }

    pub fn path(&self) -> (name: &str)
        ensures
            name@ == self.spec_name(),
    {
        self.name.as_str()
    }

    pub fn is_floppy(&self) -> (yes: bool)
        ensures
            yes == self.spec_shape().floppy,
    {
        self.shape.floppy
    }

    pub fn geometry(&self) -> (chs: Chs)
        ensures
            chs == self.spec_shape().geometry,
    {
        self.shape.geometry
    }

    /// Sectors in the image.
    pub fn sectors(&self) -> (n: u64)
        ensures
            n == self.spec_shape().sectors,
    {
        self.shape.sectors
    }

    /// The BIOS drive type of a floppy (0 for a hard disk).
    pub fn bios_type(&self) -> (t: u8)
        ensures
            t == self.spec_shape().bios_type,
    {
        self.shape.bios_type
    }

    pub fn writable(&self) -> (yes: bool)
        ensures
            yes == self.spec_shape().writable,
    {
        self.shape.writable
    }

    pub fn generation(&self) -> (n: u64)
        ensures
            n == self.spec_generation(),
    {
        self.generation
    }

    /// The bytes of the image.
    pub fn memory(&self) -> (data: &MemoryImage)
        requires
            self.wf(),
        ensures
            data@ == self@,
            data.wf(),
            *data == self.spec_data(),
    {
        &self.data
    }

    /// The `CHUNK`s of the image written since the last call, by number, for
    /// keeping a copy of the image up to date.
    pub fn take_written(&mut self) -> (pieces: Vec<usize>)
        requires
            old(self).wf(),
        ensures
            final(self).wf(),
            final(self)@ == old(self)@,
            final(self).spec_shape() == old(self).spec_shape(),
            final(self).spec_generation() == old(self).spec_generation(),
            final(self).spec_data() == old(self).spec_data(),
            forall|i: int| !(#[trigger] final(self).spec_written(i)),
            forall|i: int, j: int|
                0 <= i < j < pieces@.len() ==> #[trigger] pieces@[i] < #[trigger] pieces@[j],
            forall|i: int|
                old(self).spec_written(i) == exists|k: int|
                    0 <= k < pieces@.len() && #[trigger] pieces@[k] == i,
    {
        let mut pieces: Vec<usize> = Vec::new();
        let mut i: usize = 0;
        let n: usize = self.written.len();
        while i < n
            invariant
                i <= n,
                n == self.written@.len(),
                n == old(self).written@.len(),
                self.name == old(self).name,
                self.data == old(self).data,
                self.shape == old(self).shape,
                self.generation == old(self).generation,
                forall|k: int| 0 <= k < i ==> !self.written@[k],
                forall|k: int| i <= k < n ==> self.written@[k] == old(self).written@[k],
                forall|k: int| 0 <= k < pieces@.len() ==> #[trigger] pieces@[k] < i,
                forall|a: int, b: int|
                    0 <= a < b < pieces@.len() ==> #[trigger] pieces@[a] < #[trigger] pieces@[b],
                forall|c: int|
                    0 <= c < i ==> #[trigger] old(self).written@[c] == exists|k: int|
                        0 <= k < pieces@.len() && #[trigger] pieces@[k] == c,
            decreases n - i,
        {
            let ghost before = pieces@;
            if self.written[i] {
                self.written[i] = false;
                pieces.push(i);
                proof {
                    assert(pieces@[before.len() as int] == i);
                    assert forall|c: int| 0 <= c < i + 1 implies #[trigger] old(self).written@[c]
                        == exists|k: int| 0 <= k < pieces@.len() && #[trigger] pieces@[k] == c by {
                        if c < i && old(self).written@[c] {
                            let k = choose|k: int| 0 <= k < before.len() && #[trigger] before[k] == c;
                            assert(pieces@[k] == c);
                        }
                        if c < i && exists|k: int|
                            0 <= k < pieces@.len() && #[trigger] pieces@[k] == c {
                            let k = choose|k: int|
                                0 <= k < pieces@.len() && #[trigger] pieces@[k] == c;
                            assert(before[k] == c);
                        }
                    }
                }
            }
            i = i + 1;
        }
        proof {
            assert forall|c: int|
                old(self).spec_written(c) == exists|k: int|
                    0 <= k < pieces@.len() && #[trigger] pieces@[k] == c by {
                if 0 <= c < n {
                    assert(old(self).written@[c] == old(self).spec_written(c));
                }
            }
        }
        pieces
    }

    /// The sector number of cylinder `c`, head `h`, sector `s` (from 1), if
    /// that is a sector of the geometry.
    pub fn chs_to_lba(&self, c: u32, h: u32, s: u32) -> (lba: Option<u64>)
        requires
            sector_exists(self.spec_shape().geometry, h as int, s as int) ==> sector_number(
                self.spec_shape().geometry,
                c as int,
                h as int,
                s as int,
            ) < u64::MAX,
        ensures
            match lba {
                Some(n) => sector_exists(self.spec_shape().geometry, h as int, s as int) && n
                    == sector_number(self.spec_shape().geometry, c as int, h as int, s as int),
                None => !sector_exists(self.spec_shape().geometry, h as int, s as int),
            },
    {
        self.shape.chs_to_lba(c, h, s)
    }

    /// Read `buf.len()` bytes from sector `lba` on.
    pub fn read(&self, lba: u64, buf: &mut [u8]) -> (done: Result<(), u8>)
        requires
            self.wf(),
        ensures
            done == (if on_disk(self.spec_shape().sectors, lba, old(buf)@.len() as int) {
                Ok(())
            } else {
                Err(STATUS_SECTOR_NOT_FOUND)
            }),
            final(buf)@ == (if done is Ok {
                self@.subrange(lba * 512, lba * 512 + old(buf)@.len())
            } else {
                old(buf)@
            }),
    {
        let n: usize = buf.len();
        self.shape.check(lba, n)?;
        proof {
            self.lemma_in_image(lba, n as int);
        }
        let read = self.data.read_at(lba * 512, buf);
        assert(read);
        Ok(())
    }

    /// What is on the disk is in the image.
    proof fn lemma_in_image(&self, lba: u64, len: int)
        requires
            self.wf(),
            0 <= len,
            on_disk(self.shape.sectors, lba, len),
        ensures
            lba * 512 + len <= self.data@.len(),
            lba * 512 <= u64::MAX,
    {
        let count = (len + 511) / 512;
        assert(len <= count * 512);
        assert(self.shape.sectors * 512 <= self.data@.len());
    }

    /// Write `data` from sector `lba` on.
    pub fn write(&mut self, lba: u64, data: &[u8]) -> (done: Result<(), u8>)
        requires
            old(self).wf(),
            old(self).spec_generation() < u64::MAX,
        ensures
            final(self).wf(),
            final(self).spec_shape() == old(self).spec_shape(),
            final(self).spec_name() == old(self).spec_name(),
            done == (if !old(self).spec_shape().writable {
                Err(STATUS_WRITE_PROTECTED)
            } else if on_disk(old(self).spec_shape().sectors, lba, data@.len() as int) {
                Ok(())
            } else {
                Err(STATUS_SECTOR_NOT_FOUND)
            }),
            done is Err ==> *final(self) == *old(self),
            done is Ok ==> {
                &&& final(self)@ == store_bytes(old(self)@, lba * 512, data@)
                &&& final(self).spec_generation() == old(self).spec_generation() + 1
                &&& forall|i: int|
                    final(self).spec_written(i) == (old(self).spec_written(i) || (data@.len() > 0
                        && lba as int * 512 / 0x1_0000 <= i <= (lba * 512 + data@.len() - 1)
                        / 0x1_0000))
                &&& forall|i: int|
                    final(self).spec_data().takes_memory(i) == (old(
                        self,
                    ).spec_data().takes_memory(i) || exists|k: int|
                        0 <= k < data@.len() && #[trigger] data@[k] != 0 && (lba * 512 + k)
                            / 0x1_0000 == i)
            },
    {
        self.shape.check_write(lba, data.len())?;
        proof {
            self.lemma_in_image(lba, data@.len() as int);
        }
        self.generation = self.generation + 1;
        let at: u64 = lba * 512;
        let fits = self.data.write_at(at, data);
        assert(fits);
        if data.len() > 0 {
            let first: usize = at as usize / CHUNK;
            let last: usize = (at as usize + (data.len() - 1)) / CHUNK;
            self.mark(first, last);
        }
        Ok(())
    }

    /// Note that the pieces from `first` to `last` were written.
    fn mark(&mut self, first: usize, last: usize)
        requires
            old(self).wf(),
            first <= last < piece_count(old(self)@.len() as int),
        ensures
            final(self).wf(),
            final(self).data == old(self).data,
            final(self).name == old(self).name,
            final(self).shape == old(self).shape,
            final(self).generation == old(self).generation,
            forall|i: int|
                final(self).spec_written(i) == (old(self).spec_written(i) || first <= i <= last),
    {
        let mut i: usize = first;
        let n: usize = self.written.len();
        while i <= last
            invariant
                first <= i <= last + 1,
                last < n,
                n == self.written@.len(),
                n == old(self).written@.len(),
                self.name == old(self).name,
                self.data == old(self).data,
                self.shape == old(self).shape,
                self.generation == old(self).generation,
                forall|k: int|
                    0 <= k < n ==> self.written@[k] == (old(self).written@[k] || first <= k < i),
            decreases last + 1 - i,
        {
            self.written[i] = true;
            i = i + 1;
        }
    }

    /// Where the FAT volume on the disk is: (first sector, sectors). A
    /// floppy is one volume; a hard disk is a volume from its boot sector
    /// on, or has one in its first FAT12/16 primary partition.
    pub fn fat_volume(&self) -> (volume: Result<(u64, u64), String>)
        requires
            self.wf(),
        ensures
            match (
                volume,
                volume_of(
                    self@.subrange(0, SECTOR_SIZE as int),
                    self.spec_shape().sectors,
                    self.spec_shape().floppy,
                ),
            ) {
                (Ok(v), Ok(w)) => v == w,
                (Err(e), Err(f)) => e@ == f,
                _ => false,
            },
    {
        let mut boot: [u8; 512] = [0;512];
        let read = self.data.read_at(0, &mut boot);
        assert(read);
        fat_volume_of(boot.as_slice(), self.shape.sectors, self.shape.floppy)
    }

    /// An empty hard disk of `bytes` bytes held in memory, with a partition
    /// table with one FAT16 partition over the whole cylinders, and where
    /// that partition is, to be formatted: (first sector, sectors).
    pub fn blank_hard_disk(name: &str, bytes: u64) -> (disk: Result<(Self, (u64, u64)), String>)
        requires
            bytes <= usize::MAX - 0xFFFF,
        ensures
            bytes < 0x40_0000 ==> (disk matches Err(e) && e@ == "The disk is too small"@),
            bytes >= 0x40_0000 ==> (disk matches Ok((d, (start, sectors))) && {
                let shape = blank_shape(bytes);
                &&& d.wf()
                &&& d.spec_shape() == shape
                &&& d.spec_name() == name@
                &&& d.spec_generation() == 1
                &&& start == 63
                &&& sectors == blank_sectors(bytes)
                &&& d@ == store_bytes(
                    Seq::new(bytes as nat, |i: int| 0u8),
                    0,
                    partition_sector(shape.geometry, start as int, sectors as int),
                )
            }),
    {
        // Big enough for FAT16 with single-sector clusters.
        if bytes < 0x40_0000 {
            return Err(String::from_str("The disk is too small"));
        }
        let image = MemoryImage::new(bytes);
        let ghost empty = image@;
        proof {
            assert(empty.subrange(0, 512) =~= Seq::new(512, |i: int| 0u8));
            lemma_blank(empty.subrange(0, 512), bytes);
        }
        let mut disk = match DiskImage::from_memory(name, image, false, None, false) {
            Ok(disk) => disk,
            Err(e) => {
                assert(false);
                return Err(e);
            },
        };
        let g = disk.shape.geometry;
        let whole: u64 = g.cylinders as u64 * 1008;
        let end: u64 = if whole < disk.shape.sectors {
            whole
        } else {
            disk.shape.sectors
        };
        let start: u64 = 63;
        let sectors: u64 = end - start;
        let mbr = partition_table(g, start, sectors);
        let written = disk.write(0, mbr.as_slice());
        assert(written is Ok);
        Ok((disk, (start, sectors)))
    }
}

/// The shape of a blank hard disk of `bytes` bytes.
pub open spec fn blank_shape(bytes: u64) -> DiskShape {
    let sectors = bytes / 512;
    let whole = sectors / 1008;
    DiskShape {
        sectors,
        geometry: Chs {
            cylinders: if whole > u32::MAX {
                u32::MAX
            } else {
                whole as u32
            },
            heads: 16,
            sectors: 63,
        },
        floppy: false,
        bios_type: 0,
        writable: true,
    }
}

/// The sectors of a blank hard disk's partition: from the second track to the
/// end of the last whole cylinder.
pub open spec fn blank_sectors(bytes: u64) -> int {
    blank_shape(bytes).geometry.cylinders * 1008 - 63
}

/// Head, sector and cylinder of a sector number, as a partition table packs
/// them; cylinders past the last one that fits count as that.
pub open spec fn packed_chs(g: Chs, lba: int) -> (u8, u8, u8) {
    let per_cylinder = (g.heads * g.sectors) as int;
    let c = lba / per_cylinder;
    let rest = lba % per_cylinder;
    let cylinder: u64 = if c > 1023 {
        1023
    } else {
        c as u64
    };
    let head = rest / g.sectors as int;
    let sector = rest % g.sectors as int + 1;
    (
        head as u64 as u8,
        (sector as u64 as u8) | (((cylinder >> 8) as u8) << 6),
        cylinder as u8,
    )
}

/// Byte `i` of a number in a sector.
pub open spec fn number_byte(value: int, i: int) -> u8 {
    ((value as u32) >> ((8 * i) as u32)) as u8
}

/// A master boot record with one partition that can be booted, FAT16 (06h),
/// or FAT16 under 32 MB (04h).
pub open spec fn partition_sector(g: Chs, start: int, sectors: int) -> Seq<u8> {
    let first = packed_chs(g, start);
    let last = packed_chs(g, start + sectors - 1);
    Seq::new(
        512,
        |i: int|
            if i == 0x1BE {
                0x80u8
            } else if i == 0x1BF {
                first.0
            } else if i == 0x1C0 {
                first.1
            } else if i == 0x1C1 {
                first.2
            } else if i == 0x1C2 {
                if sectors < 0x1_0000 {
                    0x04u8
                } else {
                    0x06u8
                }
            } else if i == 0x1C3 {
                last.0
            } else if i == 0x1C4 {
                last.1
            } else if i == 0x1C5 {
                last.2
            } else if 0x1C6 <= i < 0x1CA {
                number_byte(start, i - 0x1C6)
            } else if 0x1CA <= i < 0x1CE {
                number_byte(sectors, i - 0x1CA)
            } else if i == 510 {
                0x55u8
            } else if i == 511 {
                0xAAu8
            } else {
                0u8
            },
    )
}

fn pack_chs(g: Chs, lba: u64) -> (packed: (u8, u8, u8))
    requires
        1 <= g.heads <= 0x1_0000,
        1 <= g.sectors <= 63,
    ensures
        packed == packed_chs(g, lba as int),
{
    proof {
        assert(1 <= g.heads * g.sectors <= 0x1_0000 * 63) by (nonlinear_arith)
            requires
                1 <= g.heads <= 0x1_0000,
                1 <= g.sectors <= 63,
        ;
    }
    let per_cylinder: u64 = g.heads as u64 * g.sectors as u64;
    let c: u64 = lba / per_cylinder;
    let rest: u64 = lba % per_cylinder;
    let head: u64 = rest / g.sectors as u64;
    let sector: u64 = rest % g.sectors as u64 + 1;
    let cylinder: u64 = if c > 1023 {
        1023
    } else {
        c
    };
    (head as u8, (sector as u8) | (((cylinder >> 8) as u8) << 6), cylinder as u8)
}

fn put_number(sector: &mut Vec<u8>, at: usize, value: u32)
    requires
        at + 4 <= old(sector)@.len(),
    ensures
        final(sector)@ == old(sector)@.update(at as int, number_byte(value as int, 0)).update(
            at + 1,
            number_byte(value as int, 1),
        ).update(at + 2, number_byte(value as int, 2)).update(at + 3, number_byte(value as int, 3)),
{
    assert(sector@.len() == sector.len());
    sector[at] = (value >> 0u32) as u8;
    sector[at + 1] = (value >> 8u32) as u8;
    sector[at + 2] = (value >> 16u32) as u8;
    sector[at + 3] = (value >> 24u32) as u8;
}

/// A master boot record with one partition.
pub fn partition_table(g: Chs, start: u64, sectors: u64) -> (mbr: Vec<u8>)
    requires
        1 <= g.heads <= 0x1_0000,
        1 <= g.sectors <= 63,
        1 <= sectors,
        start + sectors <= u64::MAX,
    ensures
        mbr@ == partition_sector(g, start as int, sectors as int),
{
    let first: (u8, u8, u8) = pack_chs(g, start);
    let last: (u8, u8, u8) = pack_chs(g, start + sectors - 1);
    let mut mbr = zeros(512);
    mbr[0x1BE] = 0x80;
    mbr[0x1BF] = first.0;
    mbr[0x1C0] = first.1;
    mbr[0x1C1] = first.2;
    mbr[0x1C2] = if sectors < 0x1_0000 {
        0x04
    } else {
        0x06
    };
    mbr[0x1C3] = last.0;
    mbr[0x1C4] = last.1;
    mbr[0x1C5] = last.2;
    put_number(&mut mbr, 0x1C6, start as u32);
    put_number(&mut mbr, 0x1CA, sectors as u32);
    mbr[510] = 0x55;
    mbr[511] = 0xAA;
    assert(mbr@ =~= partition_sector(g, start as int, sectors as int));
    mbr
}

/// A disk of zeros has 16 heads of 63 sectors.
proof fn lemma_blank(boot: Seq<u8>, bytes: u64)
    requires
        boot == Seq::new(512, |i: int| 0u8),
        bytes >= 0x40_0000,
    ensures
        heads_and_sectors(boot, bytes / 512) == (16u32, 63u32),
        hard_disk_chs(boot, bytes / 512) == blank_shape(bytes).geometry,
        blank_shape(bytes).geometry.cylinders >= 1,
{
    assert(boot[0] == 0);
    assert(boot[510] == 0);
    assert(bpb_of(boot) is None);
    assert(partitions_of(boot, bytes / 512) is None);
}

/// Different places of the geometry have different sector numbers, and the
/// places of whole cylinders number the disk's sectors without a gap.
pub proof fn law_sector_numbers(g: Chs, c: int, h: int, s: int, c2: int, h2: int, s2: int)
    requires
        c >= 0,
        c2 >= 0,
        sector_exists(g, h, s),
        sector_exists(g, h2, s2),
    ensures
        sector_number(g, c, h, s) == sector_number(g, c2, h2, s2) ==> c == c2 && h == h2 && s == s2,
        c < g.cylinders ==> 0 <= sector_number(g, c, h, s) < g.cylinders * g.heads * g.sectors,
{
    let (n, m) = (g.heads as int, g.sectors as int);
    let t = c * n + h;
    let t2 = c2 * n + h2;
    if t * m + s - 1 == t2 * m + s2 - 1 {
        vstd::arithmetic::div_mod::lemma_fundamental_div_mod_converse(t * m + (s - 1), m, t, s - 1);
        vstd::arithmetic::div_mod::lemma_fundamental_div_mod_converse(
            t2 * m + (s2 - 1),
            m,
            t2,
            s2 - 1,
        );
        vstd::arithmetic::div_mod::lemma_fundamental_div_mod_converse(c * n + h, n, c, h);
        vstd::arithmetic::div_mod::lemma_fundamental_div_mod_converse(c2 * n + h2, n, c2, h2);
    }
    if c < g.cylinders {
        let k = g.cylinders as int;
        assert(0 <= t < k * n) by (nonlinear_arith)
            requires
                0 <= c < k,
                0 <= h < n,
                t == c * n + h,
        ;
        assert(0 <= t * m + s - 1 < k * n * m) by (nonlinear_arith)
            requires
                0 <= t < k * n,
                1 <= s <= m,
        ;
    }
}

/// What was written to an image reads back, and the rest is as it was.
pub proof fn law_image_reads_back(image: Seq<u8>, at: int, data: Seq<u8>, from: int, n: int)
    requires
        0 <= at,
        at + data.len() <= image.len(),
        0 <= from <= from + n <= image.len(),
    ensures
        store_bytes(image, at, data).subrange(at, at + data.len()) == data,
        (from + n <= at || from >= at + data.len()) ==> store_bytes(image, at, data).subrange(
            from,
            from + n,
        ) == image.subrange(from, from + n),
{
    assert(store_bytes(image, at, data).subrange(at, at + data.len()) =~= data);
    if from + n <= at || from >= at + data.len() {
        assert(store_bytes(image, at, data).subrange(from, from + n) =~= image.subrange(
            from,
            from + n,
        ));
    }
}

/// The geometry of a floppy format has exactly the sectors of its size, but
/// for the 1720 KB format, whose tracks hold two KB more. Single-sided disks
/// are those up to 200 KB, and disks up to 400 KB have 40 tracks a side; 1720
/// KB has 82, and the rest 80.
pub proof fn law_formats_cover_their_size(kb: int)
    requires
        floppy_format(kb) is Some,
    ensures
        ({
            let (g, bios_type) = floppy_format(kb)->0;
            &&& g.cylinders * g.heads * g.sectors * 512 == (if kb == 1720 {
                1722
            } else {
                kb
            }) * 1024
            &&& g.heads == (if kb <= 200 {
                1int
            } else {
                2
            })
            &&& g.cylinders == (if kb <= 400 {
                40int
            } else if kb == 1720 {
                82
            } else {
                80
            })
            &&& kb <= 200 ==> bios_type == 0
            &&& kb == 1520 ==> bios_type == 2
            &&& kb > 200 && kb != 1520 ==> bios_type == type_of_floppy(g)
        }),
{
}

/// The sizes that floppies come in: 8 to 10 sectors a track on 40 tracks, on
/// one side or two, and on 80 tracks of both sides 9, 15, 18, 19, 21, 23 and
/// 36 sectors, besides the 1720 KB format. No other size is a floppy's.
pub proof fn law_known_formats(kb: int)
    ensures
        floppy_format(kb) is Some <==> {
            ||| kb % 20 == 0 && 8 <= kb / 20 <= 10
            ||| kb % 40 == 0 && 8 <= kb / 40 <= 10
            ||| kb % 80 == 0 && (kb / 80 == 9 || kb / 80 == 15 || kb / 80 == 18 || kb / 80 == 19
                || kb / 80 == 21 || kb / 80 == 23 || kb / 80 == 36)
            ||| kb == 1720
        },
{
}

/// An image is taken for the format of its size, or of a KB less where its
/// own size is none: it differs from the disk's capacity by 2 KB at most.
pub proof fn law_floppies_are_known_by_size(bytes: u64, kb: int)
    ensures
        floppy_of(bytes) matches Some((g, _)) ==> -2048 <= bytes - g.cylinders * g.heads * g.sectors
            * 512 < 2048,
        bytes == kb * 1024 && floppy_format(kb) is Some ==> floppy_of(bytes) == floppy_format(kb),
        bytes == (kb + 1) * 1024 && floppy_format(kb) is Some ==> floppy_of(bytes)
            == floppy_format(kb),
        kb * 1024 <= bytes < (kb + 1) * 1024 && floppy_format(kb) is None && floppy_format(kb - 1)
            is None ==> floppy_of(bytes) is None,
{
    if floppy_of(bytes) is Some {
        let own = bytes as int / 1024;
        let k = if floppy_format(own) is Some {
            own
        } else {
            own - 1
        };
        law_formats_cover_their_size(k);
    }
}

/// Sectors are numbered from one place to the next: the next sector of a
/// track, the first of the next head behind the last one, and the first of
/// the next cylinder behind the last head's. The disk starts at cylinder 0,
/// head 0, sector 1.
pub proof fn law_sectors_follow_each_other(g: Chs, c: int, h: int, s: int)
    ensures
        sector_number(g, 0, 0, 1) == 0,
        sector_number(g, c, h, s + 1) == sector_number(g, c, h, s) + 1,
        sector_number(g, c, h + 1, 1) == sector_number(g, c, h, g.sectors as int) + 1,
        sector_number(g, c + 1, 0, 1) == sector_number(g, c, g.heads - 1, g.sectors as int) + 1,
{
    let (n, m) = (g.heads as int, g.sectors as int);
    assert((c * n + (h + 1)) * m == (c * n + h) * m + m) by (nonlinear_arith);
    assert(((c + 1) * n + 0) * m == (c * n + (n - 1)) * m + m) by (nonlinear_arith);
    assert((0 * n + 0) * m == 0) by (nonlinear_arith);
}

proof fn lemma_partition_geometry(parts: Seq<Partition>, from: int)
    ensures
        partition_geometry(parts, from).0 > 1,
        1 <= partition_geometry(parts, from).1 <= 63,
    decreases parts.len() - from,
{
    if 0 <= from < parts.len() {
        lemma_partition_geometry(parts, from + 1);
    }
}

/// The geometry of a hard disk covers its sectors but for less than a
/// cylinder, where they make one up at all.
pub proof fn law_hard_disk_geometry_covers(boot: Seq<u8>, sectors: u64)
    ensures
        ({
            let g = hard_disk_chs(boot, sectors);
            let per = g.heads * g.sectors;
            &&& per > 0
            &&& g.cylinders >= 1
            &&& 1 <= g.sectors <= 63
            &&& sectors >= per && g.cylinders < u32::MAX ==> g.cylinders * per <= sectors
                < g.cylinders * per + per
        }),
{
    match partitions_of(boot, sectors) {
        Some(parts) => {
            lemma_partition_geometry(parts, 0);
        },
        None => {},
    }
    let (heads, per_track) = heads_and_sectors(boot, sectors);
    assert(heads >= 1 && 1 <= per_track <= 63);
    let per = heads * per_track;
    assert(per > 0) by (nonlinear_arith)
        requires
            per == heads * per_track,
            heads >= 1,
            per_track >= 1,
    ;
    let whole = sectors as int / per;
    vstd::arithmetic::div_mod::lemma_fundamental_div_mod(sectors as int, per);
    assert(per * whole == whole * per) by (nonlinear_arith);
    assert(sectors >= per ==> whole >= 1) by (nonlinear_arith)
        requires
            per > 0,
            sectors < per * whole + per,
    ;
}

/// A blank hard disk has 16 heads of 63 sectors and as many cylinders as its
/// bytes make up.
pub proof fn law_blank_disks(bytes: u64)
    requires
        bytes / 512 / 1008 <= u32::MAX,
    ensures
        ({
            let s = blank_shape(bytes);
            let per = s.geometry.heads * s.geometry.sectors * 512;
            &&& s.geometry.cylinders * per <= bytes < s.geometry.cylinders * per + per
            &&& 512 * s.sectors <= bytes < 512 * s.sectors + 512
            &&& blank_sectors(bytes) + s.geometry.sectors == s.geometry.cylinders
                * s.geometry.heads * s.geometry.sectors
        }),
{
    let s = blank_shape(bytes);
    let (c, h, n) = (
        s.geometry.cylinders as int,
        s.geometry.heads as int,
        s.geometry.sectors as int,
    );
    assert(c == bytes / 512 / 1008);
    assert(h * n * 512 == 516096 && c * (h * n * 512) == 516096 * c && c * h * n == 1008 * c)
        by (nonlinear_arith)
        requires
            h == 16,
            n == 63,
    ;
}

/// Bytes lie on a disk if they end no later than it does.
pub proof fn law_on_disk(sectors: u64, lba: u64, len: int)
    requires
        len >= 0,
    ensures
        on_disk(sectors, lba, len) <==> 512 * lba + len <= 512 * sectors,
{
}

/// Pieces of 64 KB hold an image: all but the last are full, the last one is
/// not empty, and together they are as long as it is.
pub proof fn law_pieces_hold_an_image(len: int, index: int)
    requires
        len > 0,
        0 <= index < piece_count(len),
    ensures
        0 < piece_len(len, index) <= 0x1_0000,
        index < piece_count(len) - 1 ==> piece_len(len, index) == 0x1_0000,
        index == piece_count(len) - 1 ==> index * 0x1_0000 + piece_len(len, index) == len,
{
}

/// A sound partition lies on its disk, where its entry says.
pub proof fn law_partitions_lie_on_the_disk(mbr: Seq<u8>, i: int, disk_sectors: u64)
    requires
        entry_sound(mbr, i, disk_sectors),
    ensures
        ({
            let p = entry_partition(mbr, i, disk_sectors);
            let at = 446 + 16 * i;
            &&& 0 < p.start
            &&& p.start + p.sectors <= disk_sectors
            &&& p.start == le_dword(mbr, at + 8)
            &&& p.sectors == le_dword(mbr, at + 12) || p.start + p.sectors == disk_sectors
            &&& p.sectors <= le_dword(mbr, at + 12)
            &&& p.kind == mbr[at + 4]
        }),
{
}

pub(crate) proof fn lemma_packed(sector: u64, cylinder: u64, value: u32)
    by (bit_vector)
    requires
        sector < 64,
        cylinder <= 1023,
    ensures
        ((sector as u8) | (((cylinder >> 8) as u8) << 6)) as u64 == sector + 64 * (cylinder / 256),
        (cylinder as u8) as u64 == cylinder % 256,
        (((value >> 0) as u8) as u32) + 0x100 * (((value >> 8) as u8) as u32) + 0x1_0000 * (((value
            >> 16) as u8) as u32) + 0x100_0000 * (((value >> 24) as u8) as u32) == value,
{
}

/// A packed place on a disk reads back: the head, the sector in the low six
/// bits of the second byte, and the cylinder in the rest are the number of
/// the sector again, up to cylinder 1023.
pub proof fn law_packed_places_read_back(g: Chs, lba: int)
    requires
        0 < g.heads <= 256,
        0 < g.sectors <= 63,
        0 <= lba < 1024 * (g.heads * g.sectors),
    ensures
        ({
            let (head, low, high) = packed_chs(g, lba);
            let cylinder = high + 256 * (low as int / 64);
            &&& sector_number(g, cylinder, head as int, low as int % 64) == lba
            &&& sector_exists(g, head as int, low as int % 64)
        }),
{
    let per = (g.heads * g.sectors) as int;
    let n = g.sectors as int;
    assert(per > 0) by (nonlinear_arith)
        requires
            per == g.heads * n,
            g.heads > 0,
            n > 0,
    ;
    let c = lba / per;
    let rest = lba % per;
    vstd::arithmetic::div_mod::lemma_fundamental_div_mod(lba, per);
    assert(0 <= c <= 1023) by (nonlinear_arith)
        requires
            lba == per * c + rest,
            0 <= rest < per,
            0 <= lba < 1024 * per,
    ;
    let h = rest / n;
    let s = rest % n;
    vstd::arithmetic::div_mod::lemma_fundamental_div_mod(rest, n);
    assert(0 <= h < g.heads) by (nonlinear_arith)
        requires
            rest == n * h + s,
            0 <= s < n,
            0 <= rest < g.heads * n,
    ;
    lemma_packed((s + 1) as u64, c as u64, 0);
    assert((h as u64) as u8 == h);
    let low = packed_chs(g, lba).1;
    assert(low == (s + 1) + 64 * (c / 256));
    assert(low as int % 64 == s + 1 && low as int / 64 == c / 256);
    assert((c * g.heads + h) * n == lba - s) by (nonlinear_arith)
        requires
            lba == per * c + rest,
            rest == n * h + s,
            per == g.heads * n,
    ;
}

/// The partition sector of a blank disk has its start and size as numbers of
/// four bytes, an active entry and the signature.
pub proof fn law_partition_sector(g: Chs, start: int, sectors: int)
    requires
        0 <= start <= 0xFFFF_FFFF,
        0 <= sectors <= 0xFFFF_FFFF,
    ensures
        ({
            let b = partition_sector(g, start, sectors);
            &&& b.len() == 512
            &&& b[446] == 0x80
            &&& b[454] + 0x100 * b[455] + 0x1_0000 * b[456] + 0x100_0000 * b[457] == start
            &&& b[458] + 0x100 * b[459] + 0x1_0000 * b[460] + 0x100_0000 * b[461] == sectors
            &&& b[450] == (if sectors <= 0xFFFF {
                4int
            } else {
                6
            })
            &&& b[510] == 0x55
            &&& b[511] == 0xAA
            &&& (b[447], b[448], b[449]) == packed_chs(g, start)
            &&& (b[451], b[452], b[453]) == packed_chs(g, start + sectors - 1)
        }),
{
    lemma_packed(0, 0, start as u32);
    lemma_packed(0, 0, sectors as u32);
}

} // verus!
