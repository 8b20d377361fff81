//! The kinds of drives, and the FAT file system each shows.

use vstd::prelude::*;

use crate::disk::names::{FAT12_MAX_CLUSTERS, FLOPPY_CLUSTERS};

verus! {

#[derive(Clone, Copy, Debug, PartialEq, Eq, Structural)]
pub enum DriveKind {
    Floppy,
    HardDisk,
    CdRom,
    /// A read-only drive held in memory: Z:, and the built-in Ultrasound
    /// software.
    Virtual,
}

/// `a / b`, rounded up.
pub open spec fn rounded_up(a: int, b: int) -> int {
    (a + b - 1) / b
}

fn div_up(a: u32, b: u32) -> (q: u32)
    requires
        b > 0,
    ensures
        q == rounded_up(a as int, b as int),
{
    let (x, y): (u32, u32) = (a / b, a % b);
    proof {
        let (m, n) = (a as int, b as int);
        vstd::arithmetic::div_mod::lemma_fundamental_div_mod(m, n);
        assert(0 <= m % n < n) by (nonlinear_arith)
            requires
                n > 0,
        ;
        assert(n * (m / n) == (m / n) * n) by (nonlinear_arith);
        assert((m / n + 1) * n == (m / n) * n + n) by (nonlinear_arith);
        if m % n == 0 {
            vstd::arithmetic::div_mod::lemma_fundamental_div_mod_converse(
                m + n - 1,
                n,
                m / n,
                n - 1,
            );
        } else {
            vstd::arithmetic::div_mod::lemma_fundamental_div_mod_converse(
                m + n - 1,
                n,
                m / n + 1,
                m % n - 1,
            );
            assert(m / n < m || n == 1) by (nonlinear_arith)
                requires
                    m % n > 0,
                    n > 0,
                    m >= 0,
                    m == n * (m / n) + m % n,
            ;
        }
    }
    if y == 0 {
        x
    } else {
        x + 1
    }
}

/// The geometry of a kind of drive: sectors per cluster, bytes per sector and
/// clusters.
pub open spec fn geometry_of(kind: DriveKind) -> (u16, u16, u16) {
    match kind {
        DriveKind::Floppy => (1, 512, FLOPPY_CLUSTERS),
        DriveKind::HardDisk => (8, 512, 20000),
        DriveKind::CdRom => (1, 2048, 0xFFFF),
        DriveKind::Virtual => (1, 512, 2000),
    }
}

/// The media descriptor of a kind of drive.
pub open spec fn media_of(kind: DriveKind) -> u8 {
    if kind == DriveKind::Floppy {
        0xF0
    } else {
        0xF8
    }
}

/// How many bytes a FAT of so many clusters takes: 12 bits each below a
/// limit, 16 from it on, with two entries more than clusters.
pub open spec fn fat_bytes(clusters: u16) -> int {
    if clusters < FAT12_MAX_CLUSTERS {
        rounded_up((clusters + 2) * 3, 2)
    } else {
        (clusters + 2) * 2
    }
}

/// Where a drive's FAT, root directory and data would lie, as DOS reports
/// it in the drive parameter block and the BIOS parameter block.
#[derive(Clone, Copy, Debug, PartialEq, Eq, Structural)]
pub struct FatLayout {
    pub bytes_per_sector: u16,
    pub sectors_per_cluster: u16,
    pub clusters: u16,
    pub reserved_sectors: u16,
    pub fats: u16,
    pub root_entries: u16,
    pub sectors_per_fat: u16,
    pub sectors_per_track: u16,
    pub heads: u16,
    pub hidden_sectors: u32,
    pub media: u8,
    /// Sectors in the volume, which may run on past the last cluster.
    pub sectors: u32,
}

/// The FAT file system behind the geometry of a kind of drive.
pub open spec fn layout_of(kind: DriveKind) -> FatLayout {
    let (sectors_per_cluster, bytes_per_sector, clusters) = geometry_of(kind);
    let floppy = kind == DriveKind::Floppy;
    let sectors_per_fat = rounded_up(fat_bytes(clusters), bytes_per_sector as int);
    let root_entries: u16 = if floppy {
        224
    } else {
        512
    };
    FatLayout {
        bytes_per_sector,
        sectors_per_cluster,
        clusters,
        reserved_sectors: 1,
        fats: 2,
        root_entries,
        sectors_per_fat: sectors_per_fat as u16,
        sectors_per_track: if floppy {
            18
        } else {
            63
        },
        heads: if floppy {
            2
        } else {
            16
        },
        hidden_sectors: if floppy {
            0
        } else {
            63
        },
        media: media_of(kind),
        sectors: (1 + 2 * sectors_per_fat + rounded_up(root_entries * 32, bytes_per_sector as int)
            + clusters * sectors_per_cluster) as u32,
    }
}

impl DriveKind {
    pub fn is_removable(self) -> (yes: bool)
        ensures
            yes == (self == DriveKind::Floppy || self == DriveKind::CdRom),
    {
        match self {
            DriveKind::Floppy | DriveKind::CdRom => true,
            _ => false,
        }
    }

    /// Media descriptor byte as found in the FAT / DPB.
    pub fn media_descriptor(self) -> (media: u8)
        ensures
            media == media_of(self),
    {
        match self {
            DriveKind::Floppy => 0xF0,  // 3.5" 1.44 MB
            _ => 0xF8,  // fixed disk
        }
    }

    pub open spec fn spec_name(self) -> Seq<char> {
        match self {
            DriveKind::Floppy => "floppy"@,
            DriveKind::HardDisk => "hdd"@,
            DriveKind::CdRom => "cdrom"@,
            DriveKind::Virtual => "virtual"@,
        }
    }

    pub fn name(self) -> (name: &'static str)
        ensures
            name@ == self.spec_name(),
    {
        match self {
            DriveKind::Floppy => "floppy",
            DriveKind::HardDisk => "hdd",
            DriveKind::CdRom => "cdrom",
            DriveKind::Virtual => "virtual",
        }
    }

    /// (sectors per cluster, bytes per sector, total clusters) as reported by
    /// INT 21h AH=1Ch/36h. Hard disks keep the long-standing fake 80 MB and
    /// CD-ROMs report what MSCDEX-style redirectors typically do.
    pub fn geometry(self) -> (geometry: (u16, u16, u16))
        ensures
            geometry == geometry_of(self),
    {
        match self {
            DriveKind::Floppy => (1, 512, FLOPPY_CLUSTERS),
            DriveKind::HardDisk => (8, 512, 20000),
            DriveKind::CdRom => (1, 2048, 0xFFFF),
            DriveKind::Virtual => (1, 512, 2000),
        }
    }

    /// The FAT file system behind `geometry`: a 1.44 MB diskette's for
    /// floppies, and a plausible one around the cluster count for the rest.
    pub fn layout(self) -> (layout: FatLayout)
        ensures
            layout == layout_of(self),
            layout.wf(),
    {
        let (sectors_per_cluster, bytes_per_sector, clusters): (u16, u16, u16) = self.geometry();
        let (root_entries, sectors_per_track, heads, hidden_sectors): (u16, u16, u16, u32) =
            match self {
            DriveKind::Floppy => (224, 18, 2, 0),
            _ => (512, 63, 16, 63),
        };
        let fat: u32 = if clusters < FAT12_MAX_CLUSTERS {
            div_up((clusters as u32 + 2) * 3, 2)
        } else {
            (clusters as u32 + 2) * 2
        };
        let per_fat: u32 = div_up(fat, bytes_per_sector as u32);
        let mut layout = FatLayout {
            bytes_per_sector,
            sectors_per_cluster,
            clusters,
            reserved_sectors: 1,
            fats: 2,
            root_entries,
            sectors_per_fat: per_fat as u16,
            sectors_per_track,
            heads,
            hidden_sectors,
            media: self.media_descriptor(),
            sectors: 0,
        };
        proof {
            assert(per_fat == (match self {
                DriveKind::Floppy => 9int,
                DriveKind::HardDisk => 79,
                DriveKind::CdRom => 65,
                DriveKind::Virtual => 6,
            }));
            assert(clusters * sectors_per_cluster == (match self {
                DriveKind::Floppy => 2847int,
                DriveKind::HardDisk => 160_000,
                DriveKind::CdRom => 0xFFFF,
                DriveKind::Virtual => 2000,
            }));
        }
        let data: u32 = layout.first_data_sector() as u32;
        layout.sectors = data + clusters as u32 * sectors_per_cluster as u32;
        layout
    }
}

impl FatLayout {
    /// Where the root directory starts.
    pub open spec fn dir_sector(&self) -> int {
        self.reserved_sectors + self.fats * self.sectors_per_fat
    }

    /// Where the first cluster starts.
    pub open spec fn data_sector(&self) -> int {
        self.dir_sector() + rounded_up(self.root_entries * 32, self.bytes_per_sector as int)
    }

    /// The sectors before the data can be counted in 16 bits, and there are
    /// bytes in a sector and sectors in a cylinder.
    pub open spec fn wf(&self) -> bool {
        &&& self.bytes_per_sector > 0
        &&& self.data_sector() <= 0xFFFF
        &&& self.sectors_per_track > 0
        &&& self.heads > 0
    }

    pub fn first_dir_sector(&self) -> (sector: u16)
        requires
            self.dir_sector() <= 0xFFFF,
        ensures
            sector == self.dir_sector(),
    {
        proof {
            assert(0 <= self.fats * self.sectors_per_fat) by (nonlinear_arith)
                requires
                    0 <= self.fats,
                    0 <= self.sectors_per_fat,
            ;
        }
        self.reserved_sectors + self.fats * self.sectors_per_fat
    }

    pub fn first_data_sector(&self) -> (sector: u16)
        requires
            self.bytes_per_sector > 0,
            self.data_sector() <= 0xFFFF,
        ensures
            sector == self.data_sector(),
    {
        let root: u32 = div_up(self.root_entries as u32 * 32, self.bytes_per_sector as u32);
        proof {
            assert(0 <= self.fats * self.sectors_per_fat) by (nonlinear_arith)
                requires
                    0 <= self.fats,
                    0 <= self.sectors_per_fat,
            ;
        }
        self.first_dir_sector() + root as u16
    }

    pub fn total_sectors(&self) -> (sectors: u32)
        ensures
            sectors == self.sectors,
    {
        self.sectors
    }

    /// How many cylinders hold the volume and what is hidden before it.
    pub open spec fn spec_cylinders(&self) -> int {
        rounded_up(self.hidden_sectors + self.sectors, self.sectors_per_track * self.heads)
    }

    pub fn cylinders(&self) -> (cylinders: u16)
        requires
            self.sectors_per_track > 0,
            self.heads > 0,
            self.hidden_sectors + self.sectors <= u32::MAX,
            self.spec_cylinders() <= 0xFFFF,
        ensures
            cylinders == self.spec_cylinders(),
    {
        proof {
            let (a, b) = (self.sectors_per_track, self.heads);
            assert(1 <= a * b <= 0xFFFF * 0xFFFF) by (nonlinear_arith)
                requires
                    1 <= a <= 0xFFFF,
                    1 <= b <= 0xFFFF,
            ;
        }
        let per_cylinder: u32 = self.sectors_per_track as u32 * self.heads as u32;
        div_up(self.hidden_sectors + self.total_sectors(), per_cylinder) as u16
    }

    /// "FAT12   " or "FAT16   ", as the boot sector names it.
    pub fn fs_type(&self) -> (name: [u8; 8])
        ensures
            name@ == (if self.clusters < FAT12_MAX_CLUSTERS {
                seq![0x46u8, 0x41, 0x54, 0x31, 0x32, 0x20, 0x20, 0x20]
            } else {
                seq![0x46u8, 0x41, 0x54, 0x31, 0x36, 0x20, 0x20, 0x20]
            }),
    {
        let name: [u8; 8] = if self.clusters < FAT12_MAX_CLUSTERS {
            [0x46, 0x41, 0x54, 0x31, 0x32, 0x20, 0x20, 0x20]
        } else {
            [0x46, 0x41, 0x54, 0x31, 0x36, 0x20, 0x20, 0x20]
        };
        name
    }

    /// The BIOS parameter block: numbers with their low bytes first.
    pub open spec fn parameter_block(&self) -> Seq<u8> {
        let small: u32 = if self.sectors > 0xFFFF {
            0
        } else {
            self.sectors
        };
        let large: u32 = if small == 0 {
            self.sectors
        } else {
            0
        };
        seq![
            byte_of(self.bytes_per_sector as int, 0),
            byte_of(self.bytes_per_sector as int, 1),
            byte_of(self.sectors_per_cluster as int, 0),
            byte_of(self.reserved_sectors as int, 0),
            byte_of(self.reserved_sectors as int, 1),
            byte_of(self.fats as int, 0),
            byte_of(self.root_entries as int, 0),
            byte_of(self.root_entries as int, 1),
            byte_of(small as int, 0),
            byte_of(small as int, 1),
            self.media,
            byte_of(self.sectors_per_fat as int, 0),
            byte_of(self.sectors_per_fat as int, 1),
            byte_of(self.sectors_per_track as int, 0),
            byte_of(self.sectors_per_track as int, 1),
            byte_of(self.heads as int, 0),
            byte_of(self.heads as int, 1),
            byte_of(self.hidden_sectors as int, 0),
            byte_of(self.hidden_sectors as int, 1),
            byte_of(self.hidden_sectors as int, 2),
            byte_of(self.hidden_sectors as int, 3),
            byte_of(large as int, 0),
            byte_of(large as int, 1),
            byte_of(large as int, 2),
            byte_of(large as int, 3),
            0,
            0,
            0,
            0,
            0,
            0,
        ]
    }

    /// The DOS 4 BIOS parameter block, as a boot sector has it from offset
    /// 0Bh and IOCTL 440Dh/0860h returns it.
    pub fn bpb(&self) -> (bpb: [u8; 31])
        ensures
            bpb@ == self.parameter_block(),
    {
        let total: u32 = self.total_sectors();
        let small: u32 = if total > 0xFFFF {
            0
        } else {
            total
        };
        let large: u32 = if small == 0 {
            total
        } else {
            0
        };
        let bpb: [u8; 31] = [
            byte(self.bytes_per_sector as u32, 1),
            byte(self.bytes_per_sector as u32, 0x100),
            byte(self.sectors_per_cluster as u32, 1),
            byte(self.reserved_sectors as u32, 1),
            byte(self.reserved_sectors as u32, 0x100),
            byte(self.fats as u32, 1),
            byte(self.root_entries as u32, 1),
            byte(self.root_entries as u32, 0x100),
            byte(small, 1),
            byte(small, 0x100),
            self.media,
            byte(self.sectors_per_fat as u32, 1),
            byte(self.sectors_per_fat as u32, 0x100),
            byte(self.sectors_per_track as u32, 1),
            byte(self.sectors_per_track as u32, 0x100),
            byte(self.heads as u32, 1),
            byte(self.heads as u32, 0x100),
            byte(self.hidden_sectors, 1),
            byte(self.hidden_sectors, 0x100),
            byte(self.hidden_sectors, 0x1_0000),
            byte(self.hidden_sectors, 0x100_0000),
            byte(large, 1),
            byte(large, 0x100),
            byte(large, 0x1_0000),
            byte(large, 0x100_0000),
            0,
            0,
            0,
            0,
            0,
            0,
        ];
        assert(bpb@ =~= self.parameter_block());
        bpb
    }
}

/// The value of byte `i` of a number: 1, 256 and so on.
pub open spec fn byte_weight(i: int) -> int {
    if i == 0 {
        1
    } else if i == 1 {
        0x100
    } else if i == 2 {
        0x1_0000
    } else {
        0x100_0000
    }
}

/// Byte `i` of a number, counted from the low end.
pub open spec fn byte_of(value: int, i: int) -> u8 {
    (value / byte_weight(i) % 256) as u8
}

fn byte(value: u32, weight: u32) -> (b: u8)
    requires
        weight == 1 || weight == 0x100 || weight == 0x1_0000 || weight == 0x100_0000,
    ensures
        b as int == value as int / weight as int % 256,
        weight == 1 ==> b == byte_of(value as int, 0),
        weight == 0x100 ==> b == byte_of(value as int, 1),
        weight == 0x1_0000 ==> b == byte_of(value as int, 2),
        weight == 0x100_0000 ==> b == byte_of(value as int, 3),
{
    (value / weight % 256) as u8
}

/// A block read back gives the numbers that went into it.
pub proof fn law_block_reads_back(layout: FatLayout)
    ensures
        ({
            let b = layout.parameter_block();
            &&& b[0] + 256 * b[1] == layout.bytes_per_sector
            &&& b[6] + 256 * b[7] == layout.root_entries
            &&& b[11] + 256 * b[12] == layout.sectors_per_fat
            &&& b[8] + 256 * b[9] == layout.sectors || b[21] + 0x100 * b[22] + 0x1_0000 * b[23]
                + 0x100_0000 * b[24] == layout.sectors
        }),
{
}

/// What the parts of a layout are.
proof fn lemma_layout(kind: DriveKind)
    ensures
        ({
            let l = layout_of(kind);
            match kind {
                DriveKind::Floppy => {
                    &&& l.sectors_per_fat == 9
                    &&& l.sectors == 2880
                    &&& l.dir_sector() == 19
                    &&& l.data_sector() == 33
                    &&& l.spec_cylinders() == 80
                },
                DriveKind::HardDisk => {
                    &&& l.sectors_per_fat == 79
                    &&& l.sectors == 160191
                    &&& l.dir_sector() == 159
                    &&& l.data_sector() == 191
                    &&& l.spec_cylinders() == 159
                },
                DriveKind::CdRom => {
                    &&& l.sectors_per_fat == 65
                    &&& l.sectors == 65674
                    &&& l.dir_sector() == 131
                    &&& l.data_sector() == 139
                    &&& l.spec_cylinders() == 66
                },
                DriveKind::Virtual => {
                    &&& l.sectors_per_fat == 6
                    &&& l.sectors == 2045
                    &&& l.dir_sector() == 13
                    &&& l.data_sector() == 45
                    &&& l.spec_cylinders() == 3
                },
            }
        }),
{
    let l = layout_of(kind);
    match kind {
        DriveKind::Floppy => {
            assert(fat_bytes(2847) == 4274);
            assert(rounded_up(4274, 512) == 9);
            assert(rounded_up(7168, 512) == 14);
            assert(l.clusters * l.sectors_per_cluster == 2847) by (nonlinear_arith)
                requires
                    l.clusters == 2847,
                    l.sectors_per_cluster == 1,
            ;
            assert(l.fats * l.sectors_per_fat == 18 && l.sectors_per_track * l.heads == 36)
                by (nonlinear_arith)
                requires
                    l.fats == 2,
                    l.sectors_per_fat == 9,
                    l.sectors_per_track == 18,
                    l.heads == 2,
            ;
            assert(rounded_up(2880, 36) == 80);
        },
        DriveKind::HardDisk => {
            assert(fat_bytes(20000) == 40004);
            assert(rounded_up(40004, 512) == 79);
            assert(rounded_up(16384, 512) == 32);
            assert(l.clusters * l.sectors_per_cluster == 160000) by (nonlinear_arith)
                requires
                    l.clusters == 20000,
                    l.sectors_per_cluster == 8,
            ;
            assert(l.fats * l.sectors_per_fat == 158 && l.sectors_per_track * l.heads == 1008)
                by (nonlinear_arith)
                requires
                    l.fats == 2,
                    l.sectors_per_fat == 79,
                    l.sectors_per_track == 63,
                    l.heads == 16,
            ;
            assert(rounded_up(160254, 1008) == 159);
        },
        DriveKind::CdRom => {
            assert(fat_bytes(65535) == 131074);
            assert(rounded_up(131074, 2048) == 65);
            assert(rounded_up(16384, 2048) == 8);
            assert(l.clusters * l.sectors_per_cluster == 65535) by (nonlinear_arith)
                requires
                    l.clusters == 65535,
                    l.sectors_per_cluster == 1,
            ;
            assert(l.fats * l.sectors_per_fat == 130 && l.sectors_per_track * l.heads == 1008)
                by (nonlinear_arith)
                requires
                    l.fats == 2,
                    l.sectors_per_fat == 65,
                    l.sectors_per_track == 63,
                    l.heads == 16,
            ;
            assert(rounded_up(65737, 1008) == 66);
        },
        DriveKind::Virtual => {
            assert(fat_bytes(2000) == 3003);
            assert(rounded_up(3003, 512) == 6);
            assert(rounded_up(16384, 512) == 32);
            assert(l.clusters * l.sectors_per_cluster == 2000) by (nonlinear_arith)
                requires
                    l.clusters == 2000,
                    l.sectors_per_cluster == 1,
            ;
            assert(l.fats * l.sectors_per_fat == 12 && l.sectors_per_track * l.heads == 1008)
                by (nonlinear_arith)
                requires
                    l.fats == 2,
                    l.sectors_per_fat == 6,
                    l.sectors_per_track == 63,
                    l.heads == 16,
            ;
            assert(rounded_up(2108, 1008) == 3);
        },
    }
}

/// The layout of a drive fills its volume: boot sector, FATs, root directory
/// and clusters come one after the other and end at its last sector. A FAT
/// has an entry for each cluster and the two before them, of 12 or 16 bits,
/// and would not fit into a sector less.
pub proof fn law_layouts_fill_their_volume(kind: DriveKind)
    ensures
        ({
            let l = layout_of(kind);
            let bits: int = if l.clusters < 4085 {
                12
            } else {
                16
            };
            &&& l.dir_sector() == 1 + l.fats * l.sectors_per_fat
            &&& 32 * l.root_entries <= (l.data_sector() - l.dir_sector()) * l.bytes_per_sector
            &&& 32 * l.root_entries > (l.data_sector() - l.dir_sector() - 1) * l.bytes_per_sector
            &&& l.data_sector() + l.clusters * l.sectors_per_cluster == l.sectors
            &&& (l.clusters + 2) * bits <= 8 * l.sectors_per_fat * l.bytes_per_sector
            &&& (l.clusters + 2) * bits > 8 * (l.sectors_per_fat - 1) * l.bytes_per_sector
            &&& l.reserved_sectors == 1
            &&& l.fats == 2
        }),
{
    lemma_layout(kind);
    let l = layout_of(kind);
    match kind {
        DriveKind::Floppy => {
            assert(l.fats * l.sectors_per_fat == 18 && 14 * l.bytes_per_sector == 7168
                && 13 * l.bytes_per_sector == 6656 && l.clusters * l.sectors_per_cluster
                == 2847 && (l.clusters + 2) * 12 == 34188 && 8 * l.sectors_per_fat
                * l.bytes_per_sector == 36864 && 8 * (l.sectors_per_fat - 1)
                * l.bytes_per_sector == 32768) by (nonlinear_arith)
                requires
                    l.fats == 2,
                    l.sectors_per_fat == 9,
                    l.bytes_per_sector == 512,
                    l.clusters == 2847,
                    l.sectors_per_cluster == 1,
            ;
        },
        DriveKind::HardDisk => {
            assert(l.fats * l.sectors_per_fat == 158 && 32 * l.bytes_per_sector == 16384
                && 31 * l.bytes_per_sector == 15872 && l.clusters * l.sectors_per_cluster
                == 160000 && (l.clusters + 2) * 16 == 320032 && 8 * l.sectors_per_fat
                * l.bytes_per_sector == 323584 && 8 * (l.sectors_per_fat - 1)
                * l.bytes_per_sector == 319488) by (nonlinear_arith)
                requires
                    l.fats == 2,
                    l.sectors_per_fat == 79,
                    l.bytes_per_sector == 512,
                    l.clusters == 20000,
                    l.sectors_per_cluster == 8,
            ;
        },
        DriveKind::CdRom => {
            assert(l.fats * l.sectors_per_fat == 130 && 8 * l.bytes_per_sector == 16384
                && 7 * l.bytes_per_sector == 14336 && l.clusters * l.sectors_per_cluster
                == 65535 && (l.clusters + 2) * 16 == 1048592 && 8 * l.sectors_per_fat
                * l.bytes_per_sector == 1064960 && 8 * (l.sectors_per_fat - 1)
                * l.bytes_per_sector == 1048576) by (nonlinear_arith)
                requires
                    l.fats == 2,
                    l.sectors_per_fat == 65,
                    l.bytes_per_sector == 2048,
                    l.clusters == 65535,
                    l.sectors_per_cluster == 1,
            ;
        },
        DriveKind::Virtual => {
            assert(l.fats * l.sectors_per_fat == 12 && 32 * l.bytes_per_sector == 16384
                && 31 * l.bytes_per_sector == 15872 && l.clusters * l.sectors_per_cluster
                == 2000 && (l.clusters + 2) * 12 == 24024 && 8 * l.sectors_per_fat
                * l.bytes_per_sector == 24576 && 8 * (l.sectors_per_fat - 1)
                * l.bytes_per_sector == 20480) by (nonlinear_arith)
                requires
                    l.fats == 2,
                    l.sectors_per_fat == 6,
                    l.bytes_per_sector == 512,
                    l.clusters == 2000,
                    l.sectors_per_cluster == 1,
            ;
        },
    }
}

/// A floppy disk holds 1440 KB: 80 cylinders of two sides of 18 sectors.
pub proof fn law_floppy_is_high_density()
    ensures
        ({
            let l = layout_of(DriveKind::Floppy);
            &&& l.sectors == 80 * l.heads * l.sectors_per_track
            &&& l.sectors * l.bytes_per_sector == 1440 * 1024
            &&& l.spec_cylinders() == 80
            &&& l.hidden_sectors == 0
        }),
{
    lemma_layout(DriveKind::Floppy);
    let l = layout_of(DriveKind::Floppy);
    assert(80 * l.heads * l.sectors_per_track == 2880 && l.sectors * l.bytes_per_sector == 1474560)
        by (nonlinear_arith)
        requires
            l.heads == 2,
            l.sectors_per_track == 18,
            l.sectors == 2880,
            l.bytes_per_sector == 512,
    ;
}

/// The cylinders of a drive hold its sectors, and one less would not.
pub proof fn law_cylinders_cover(kind: DriveKind)
    ensures
        ({
            let l = layout_of(kind);
            let per = l.heads * l.sectors_per_track;
            &&& l.spec_cylinders() * per >= l.hidden_sectors + l.sectors
            &&& (l.spec_cylinders() - 1) * per < l.hidden_sectors + l.sectors
        }),
{
    lemma_layout(kind);
    let l = layout_of(kind);
    match kind {
        DriveKind::Floppy => {
            assert(80 * (l.heads * l.sectors_per_track) == 2880 && 79 * (l.heads
                * l.sectors_per_track) == 2844) by (nonlinear_arith)
                requires
                    l.heads == 2,
                    l.sectors_per_track == 18,
            ;
        },
        DriveKind::HardDisk => {
            assert(159 * (l.heads * l.sectors_per_track) == 160272 && 158 * (l.heads
                * l.sectors_per_track) == 159264) by (nonlinear_arith)
                requires
                    l.heads == 16,
                    l.sectors_per_track == 63,
            ;
        },
        DriveKind::CdRom => {
            assert(66 * (l.heads * l.sectors_per_track) == 66528 && 65 * (l.heads
                * l.sectors_per_track) == 65520) by (nonlinear_arith)
                requires
                    l.heads == 16,
                    l.sectors_per_track == 63,
            ;
        },
        DriveKind::Virtual => {
            assert(3 * (l.heads * l.sectors_per_track) == 3024 && 2 * (l.heads
                * l.sectors_per_track) == 2016) by (nonlinear_arith)
                requires
                    l.heads == 16,
                    l.sectors_per_track == 63,
            ;
        },
    }
}

} // verus!
