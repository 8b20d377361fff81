//! Deleting, renaming and the other services of DOS that change a drive:
//! what is allowed, and what a drive says of its size.

use vstd::prelude::*;

use crate::disk::drives::{DiskController, Storage};
use crate::disk::files::{node_attr, tree_attr, Outside};
use crate::disk::kind::{geometry_of, layout_of, DriveKind, FatLayout};
use crate::disk::paths::{capital_path, capital_text, components, logical_components, slashed, Place};
use crate::text::{
    chars_of, last_of, last_place, lower, replace_char, same, same_but_case, text_between, texts,
};

verus! {

/// The name a path ends in, behind the drive letter.
pub open spec fn leaf_of(rest: Seq<char>) -> Seq<char> {
    match last_place(rest, '\\') {
        Some(i) => rest.subrange(i + 1, rest.len() as int),
        None => rest,
    }
}

/// The directory that a path's name is to be made in: the root for a
/// backslash alone, and the current one for none.
pub open spec fn parent_of(rest: Seq<char>) -> Seq<char> {
    match last_place(rest, '\\') {
        Some(i) => if i == 0 {
            "\\"@
        } else {
            rest.take(i)
        },
        None => "."@,
    }
}

/// An answer that is an error or nothing.
pub open spec fn answer(error: Option<u8>) -> Result<(), u8> {
    match error {
        Some(e) => Err(e),
        None => Ok(()),
    }
}

impl DiskController {
    /// The DOS error of deleting a file, if it can't be.
    pub open spec fn delete_error(&self, filename: Seq<char>, outside: Outside) -> Option<u8> {
        match self.leads_to(filename) {
            None => Some(0x03),
            Some((drive, _)) => match (self.at(drive)->0.storage, outside) {
                (Storage::Volume(_), Outside::Volume(Err(e))) => Some(e),
                (Storage::Volume(_), Outside::Volume(Ok(entry))) => if entry.dir() {
                    Some(0x02)
                } else if self.write_error(drive) is Some {
                    self.write_error(drive)
                } else if entry.attr & 0x01 != 0 {
                    Some(0x05)
                } else {
                    None
                },
                (Storage::Host(_), Outside::Host(thing)) => if !thing.is_file {
                    Some(0x02)
                } else {
                    self.write_error(drive)
                },
                _ => Some(0x03),
            },
        }
    }

    /// INT 21h, AH=41h: whether a file can be deleted, given what is there.
    pub fn delete_file(&self, filename: &str, outside: &Outside) -> (allowed: Result<(), u8>)
        requires
            self.wf(),
        ensures
            allowed == answer(self.delete_error(filename@, *outside)),
    {
        let place = match self.place(filename) {
            None => {
                return Err(0x03);
            },
            Some(place) => place,
        };
        match self.drive(place.drive) {
            None => Err(0x03),
            Some(d) => match (&d.storage, outside) {
                (Storage::Volume(_), Outside::Volume(Err(e))) => Err(*e),
                (Storage::Volume(_), Outside::Volume(Ok(entry))) => {
                    if entry.is_dir() {
                        return Err(0x02);
                    }
                    self.check_writable(place.drive)?;
                    if entry.attr & 0x01 != 0 {
                        return Err(0x05);
                    }
                    Ok(())
                },
                (Storage::Host(_), Outside::Host(thing)) => {
                    if !thing.is_file {
                        return Err(0x02);  // File not found
                    }
                    self.check_writable(place.drive)
                },
                _ => Err(0x03),
            },
        }
    }

    /// Where a file or directory is to be made: its parent, and its name.
    pub open spec fn target_of(&self, path: Seq<char>) -> Option<(
        u8,
        Seq<Seq<char>>,
        Seq<char>,
    )> {
        match self.split_at_drive(slashed(path)) {
            None => None,
            Some((drive, rest)) => match self.at(drive) {
                None => None,
                Some(d) => Some(
                    (drive, components(d.current_dir@, parent_of(rest)), leaf_of(rest)),
                ),
            },
        }
    }

    /// Where a file or directory is to be made: its parent, and its name.
    pub fn new_name(&self, path: &str) -> (target: Option<(Place, String)>)
        requires
            self.wf(),
        ensures
            match (target, self.target_of(path@)) {
                (Some((place, leaf)), Some((drive, parts, name))) => place.drive == drive && texts(
                    place.parts@,
                ) == parts && leaf@ == name,
                (None, None) => true,
                _ => false,
            },
    {
        let chars = chars_of(path);
        let whole = replace_char(&chars, '/', '\\');
        match self.split_drive(&whole) {
            None => None,
            Some((drive, rest)) => match self.drive(drive) {
                None => None,
                Some(d) => {
                    assert(rest@.subrange(0, rest@.len() as int) =~= rest@);
                    assert(rest@.len() == rest.len());
                    let (parent, from): (Vec<char>, usize) = match last_of(&rest, 0, '\\') {
                        Some(i) => if i == 0 {
                            (chars_of("\\"), 1)
                        } else {
                            let head = vstd::slice::slice_to_vec(
                                vstd::slice::slice_subrange(rest.as_slice(), 0, i),
                            );
                            assert(head@ =~= rest@.take(i as int));
                            (head, i + 1)
                        },
                        None => (chars_of("."), 0),
                    };
                    let leaf = text_between(&rest, from, rest.len());
                    assert(leaf@ =~= leaf_of(rest@));
                    assert(parent@ =~= parent_of(rest@));
                    let parts = logical_components(d, &parent);
                    Some((Place { drive, parts }, leaf))
                },
            },
        }
    }

    /// The DOS error of renaming a file, if it can't be.
    pub open spec fn rename_error(
        &self,
        from: Seq<char>,
        to: Seq<char>,
        outside: Outside,
        parent_is_dir: bool,
        taken: bool,
    ) -> Option<u8> {
        match self.leads_to(from) {
            None => Some(0x03),
            Some((drive, parts)) => {
                let there = match (self.at(drive)->0.storage, outside) {
                    (Storage::Volume(_), Outside::Volume(Err(e))) => if parts.len() == 0 {
                        Some(0x05)
                    } else {
                        Some(e)
                    },
                    (Storage::Volume(_), Outside::Volume(Ok(_))) => if parts.len() == 0 {
                        Some(0x05u8)
                    } else {
                        None
                    },
                    (Storage::Host(_), Outside::Host(thing)) => if thing.there {
                        None
                    } else {
                        Some(0x02)
                    },
                    _ => Some(0x03),
                };
                if there is Some {
                    there
                } else if self.write_error(drive) is Some {
                    self.write_error(drive)
                } else {
                    match self.split_at_drive(slashed(to)) {
                        None => Some(0x03),
                        Some((to_drive, rest)) => if to_drive != drive {
                            Some(0x11)
                        } else if self.at(drive)->0.storage is Volume {
                            if components(self.at(drive)->0.current_dir@, rest).len() == 0 {
                                Some(0x03)
                            } else {
                                None
                            }
                        } else if leaf_of(rest).len() == 0 || !parent_is_dir {
                            Some(0x03)
                        } else if taken {
                            Some(0x05)
                        } else {
                            None
                        },
                    }
                }
            },
        }
    }

    /// INT 21h, AH=56h: whether a file can be renamed or moved within a
    /// drive, given what is there and in the host directory it goes to.
    pub fn rename_file(
        &self,
        from: &str,
        to: &str,
        outside: &Outside,
        parent_is_dir: bool,
        taken: bool,
    ) -> (allowed: Result<(), u8>)
        requires
            self.wf(),
        ensures
            allowed == answer(self.rename_error(from@, to@, *outside, parent_is_dir, taken)),
    {
        let place = match self.place(from) {
            None => {
                return Err(0x03);
            },
            Some(place) => place,
        };
        let d = match self.drive(place.drive) {
            None => {
                return Err(0x03);
            },
            Some(d) => d,
        };
        let on_volume = match (&d.storage, outside) {
            (Storage::Volume(_), Outside::Volume(found)) => {
                assert(place.parts@.len() == texts(place.parts@).len());
                if place.parts.len() == 0 {
                    return Err(0x05);
                }
                match found {
                    Err(e) => {
                        return Err(*e);
                    },
                    Ok(_) => {},
                }
                true
            },
            (Storage::Host(_), Outside::Host(thing)) => {
                if !thing.there {
                    return Err(0x02);
                }
                false
            },
            _ => {
                return Err(0x03);
            },
        };
        self.check_writable(place.drive)?;
        let chars = chars_of(to);
        let whole = replace_char(&chars, '/', '\\');
        let (to_drive, rest): (u8, Vec<char>) = match self.split_drive(&whole) {
            None => {
                return Err(0x03);
            },
            Some(split) => split,
        };
        if to_drive != place.drive {
            return Err(0x11);  // Not same device
        }
        if on_volume {
            let parts = logical_components(d, &rest);
            assert(parts@.len() == texts(parts@).len());
            if parts.len() == 0 {
                return Err(0x03);
            }
            return Ok(());
        }
        assert(rest@.subrange(0, rest@.len() as int) =~= rest@);
        assert(rest@.len() == rest.len());
        let empty = match last_of(&rest, 0, '\\') {
            Some(i) => i + 1 == rest.len(),
            None => rest.len() == 0,
        };
        assert(empty == (leaf_of(rest@).len() == 0));
        if empty || !parent_is_dir {
            return Err(0x03);
        }
        if taken {
            return Err(0x05);  // Destination exists
        }
        Ok(())
    }

    /// The attributes of what a path names, or the DOS error.
    pub open spec fn attribute_of(&self, filename: Seq<char>, outside: Outside) -> Result<u16, u8> {
        match self.leads_to(filename) {
            None => Err(0x03),
            Some((drive, parts)) => match (self.at(drive)->0.storage, outside) {
                (Storage::Tree { files, .. }, _) => match files.number_of(capital_path(parts)) {
                    Some(n) => Ok(node_attr(files.nodes@[n]) as u16),
                    None => if files.has_dir(capital_path(parts)) {
                        Ok(0x11)
                    } else {
                        Err(0x02)
                    },
                },
                (Storage::Volume(_), Outside::Volume(Ok(entry))) => Ok(entry.attr as u16),
                (Storage::Volume(_), Outside::Volume(Err(e))) => Err(e),
                (Storage::Host(_), Outside::Host(thing)) => if !thing.there {
                    Err(0x02)
                } else {
                    Ok(
                        ((if thing.is_dir {
                            0x10
                        } else {
                            0x20int
                        }) + (if thing.read_only || !self.can_write(drive) {
                            1
                        } else {
                            0int
                        })) as u16,
                    )
                },
                _ => Err(0x03),
            },
        }
    }

    // INT 21h, AH=43h: Get File Attributes
    // Returns: Attribute Byte (0x20 = Archive, 0x10 = Subdir, etc.)
    pub fn get_file_attribute(&self, filename: &str, outside: &Outside) -> (attr: Result<u16, u8>)
        requires
            self.wf(),
        ensures
            attr == self.attribute_of(filename@, *outside),
    {
        let place = match self.place(filename) {
            None => {
                return Err(0x03);
            },
            Some(place) => place,
        };
        match self.drive(place.drive) {
            None => Err(0x03),
            Some(d) => match (&d.storage, outside) {
                (Storage::Tree { files, .. }, _) => {
                    let path = capital_text(&place.parts);
                    match files.file(path.as_str()) {
                        Some(node) => Ok(tree_attr(Some(node)) as u16),
                        None => if files.is_dir(path.as_str()) {
                            Ok(0x11)
                        } else {
                            Err(0x02)
                        },
                    }
                },
                (Storage::Volume(_), Outside::Volume(Ok(entry))) => Ok(entry.attr as u16),
                (Storage::Volume(_), Outside::Volume(Err(e))) => Err(*e),
                (Storage::Host(_), Outside::Host(thing)) => {
                    if !thing.there {
                        return Err(0x02);  // File Not Found
                    }
                    let kind: u16 = if thing.is_dir {
                        0x10  // Directory
                    } else {
                        0x20  // Archive (standard file)
                    };
                    // Everything on read-only media is R/O too.
                    if thing.read_only || d.read_only {
                        Ok(kind + 1)
                    } else {
                        Ok(kind)
                    }
                },
                _ => Err(0x03),
            },
        }
    }

    /// The DOS error of setting the attributes of a file, if it can't be
    /// done.
    pub open spec fn set_attribute_error(&self, filename: Seq<char>, outside: Outside) -> Option<
        u8,
    > {
        match self.leads_to(filename) {
            None => Some(0x03),
            Some((drive, _)) => match (self.at(drive)->0.storage, outside) {
                (Storage::Volume(_), Outside::Volume(Err(e))) => Some(e),
                (Storage::Volume(_), Outside::Volume(Ok(_))) => self.write_error(drive),
                (Storage::Host(_), Outside::Host(thing)) => if thing.there {
                    self.write_error(drive)
                } else {
                    Some(0x02)
                },
                _ => Some(0x03),
            },
        }
    }

    /// DOS AH=43h AL=01: whether file attributes can be set. Of a host file
    /// just the R/O bit is honored because the host filesystem generally
    /// doesn't have direct analogs for DOS's Hidden/System bits. Directory
    /// and Volume Label bits cannot be set via this call on real DOS either.
    pub fn set_file_attribute(&self, filename: &str, outside: &Outside) -> (allowed: Result<(), u8>)
        requires
            self.wf(),
        ensures
            allowed == answer(self.set_attribute_error(filename@, *outside)),
    {
        let place = match self.place(filename) {
            None => {
                return Err(0x03);
            },
            Some(place) => place,
        };
        match self.drive(place.drive) {
            None => Err(0x03),
            Some(d) => match (&d.storage, outside) {
                (Storage::Volume(_), Outside::Volume(Err(e))) => Err(*e),
                (Storage::Volume(_), Outside::Volume(Ok(_))) => self.check_writable(place.drive),
                (Storage::Host(_), Outside::Host(thing)) => {
                    if !thing.there {
                        return Err(0x02);
                    }
                    self.check_writable(place.drive)
                },
                _ => Err(0x03),
            },
        }
    }

    /// The DOS error of making a directory, if it can't be made.
    pub open spec fn mkdir_error(&self, path: Seq<char>, parent_is_dir: bool, taken: bool) -> Option<
        u8,
    > {
        match self.split_at_drive(slashed(path)) {
            None => Some(0x03),
            Some((drive, rest)) => if self.write_error(drive) is Some {
                self.write_error(drive)
            } else {
                let d = self.at(drive)->0;
                match d.storage {
                    Storage::Volume(_) => if components(d.current_dir@, rest).len() == 0 {
                        Some(0x05)
                    } else {
                        None
                    },
                    Storage::Host(_) => if leaf_of(rest).len() == 0 || !parent_is_dir {
                        Some(0x03)
                    } else if taken {
                        Some(0x05)
                    } else {
                        None
                    },
                    Storage::Tree { .. } => Some(0x03),
                }
            },
        }
    }

    /// DOS AH=39h: whether a directory can be made at the given DOS path,
    /// given what its parent on the host is and has.
    pub fn create_directory(&self, path: &str, parent_is_dir: bool, taken: bool) -> (allowed: Result<
        (),
        u8,
    >)
        requires
            self.wf(),
        ensures
            allowed == answer(self.mkdir_error(path@, parent_is_dir, taken)),
    {
        let chars = chars_of(path);
        let whole = replace_char(&chars, '/', '\\');
        let (drive, rest): (u8, Vec<char>) = match self.split_drive(&whole) {
            None => {
                return Err(0x03);
            },
            Some(split) => split,
        };
        self.check_writable(drive)?;
        match self.drive(drive) {
            None => Err(0x03),
            Some(d) => match &d.storage {
                Storage::Volume(_) => {
                    let parts = logical_components(d, &rest);
                    assert(parts@.len() == texts(parts@).len());
                    if parts.len() == 0 {
                        Err(0x05)
                    } else {
                        Ok(())
                    }
                },
                Storage::Host(_) => {
                    assert(rest@.subrange(0, rest@.len() as int) =~= rest@);
                    assert(rest@.len() == rest.len());
                    let empty = match last_of(&rest, 0, '\\') {
                        Some(i) => i + 1 == rest.len(),
                        None => rest.len() == 0,
                    };
                    assert(empty == (leaf_of(rest@).len() == 0));
                    if empty || !parent_is_dir {
                        Err(0x03)
                    } else if taken {
                        Err(0x05)  // Access denied / already exists
                    } else {
                        Ok(())
                    }
                },
                Storage::Tree { .. } => Err(0x03),
            },
        }
    }

    /// The DOS error of removing a directory, if it can't be removed.
    pub open spec fn rmdir_error(&self, path: Seq<char>, dir: Option<Seq<char>>) -> Option<u8> {
        match self.leads_to(path) {
            None => Some(0x03),
            Some((drive, parts)) => {
                let d = self.at(drive)->0;
                if d.storage is Tree || dir is None || (d.storage is Volume && parts.len() == 0) {
                    Some(0x03)
                } else if self.write_error(drive) is Some {
                    self.write_error(drive)
                } else if (d.storage is Volume && dir->0 == d.current_dir@) || (d.storage is Host
                    && lower(dir->0) == lower(d.current_dir@)) {
                    Some(0x10)
                } else {
                    None
                }
            },
        }
    }

    /// DOS AH=3Ah: whether a directory can be removed, given its path in DOS
    /// names if there is one. Error 0x10 is the attempt to remove the
    /// current directory.
    pub fn remove_directory(&self, path: &str, dir: Option<&str>) -> (allowed: Result<(), u8>)
        requires
            self.wf(),
        ensures
            allowed == answer(
                self.rmdir_error(
                    path@,
                    match dir {
                        Some(t) => Some(t@),
                        None => None,
                    },
                ),
            ),
    {
        let place = match self.place(path) {
            None => {
                return Err(0x03);
            },
            Some(place) => place,
        };
        let d = match self.drive(place.drive) {
            None => {
                return Err(0x03);
            },
            Some(d) => d,
        };
        let volume = match &d.storage {
            Storage::Tree { .. } => {
                return Err(0x03);
            },
            Storage::Volume(_) => true,
            Storage::Host(_) => false,
        };
        let text = match dir {
            None => {
                return Err(0x03);
            },
            Some(text) => text,
        };
        assert(place.parts@.len() == texts(place.parts@).len());
        if volume && place.parts.len() == 0 {
            return Err(0x03);
        }
        self.check_writable(place.drive)?;
        let current = if volume {
            same(text, d.current_dir.as_str())
        } else {
            same_but_case(text, d.current_dir.as_str())
        };
        if current {
            return Err(0x10);
        }
        Ok(())
    }

    /// Where a drive's FAT, directory and data are.
    pub open spec fn layout_at(&self, drive: u8, volume: FatLayout) -> Option<FatLayout> {
        match self.at(drive) {
            None => None,
            Some(d) => Some(
                if d.storage is Volume {
                    volume
                } else {
                    layout_of(d.kind)
                },
            ),
        }
    }

    /// Where `drive`'s FAT, directory and data are: a disk image's own, which
    /// is given, or a plausible one for the others (see `DriveKind::layout`).
    pub fn layout(&self, drive: u8, volume: FatLayout) -> (layout: Option<FatLayout>)
        requires
            self.wf(),
        ensures
            layout == self.layout_at(drive, volume),
    {
        match self.drive(drive) {
            None => None,
            Some(d) => match &d.storage {
                Storage::Volume(_) => Some(volume),
                _ => Some(d.kind.layout()),
            },
        }
    }

    /// Allocation geometry of `drive` (0-based): (sectors per cluster, bytes
    /// per sector, total clusters).
    pub fn drive_geometry(&self, drive: u8, volume: FatLayout) -> (geometry: Option<
        (u16, u16, u16),
    >)
        requires
            self.wf(),
        ensures
            geometry == (match self.layout_at(drive, volume) {
                Some(l) => Some((l.sectors_per_cluster, l.bytes_per_sector, l.clusters)),
                None => None,
            }),
    {
        match self.layout(drive, volume) {
            Some(l) => Some((l.sectors_per_cluster, l.bytes_per_sector, l.clusters)),
            None => None,
        }
    }

    /// The media descriptor byte of `drive` (0 if it isn't mounted).
    pub fn media_descriptor(&self, drive: u8, volume: FatLayout) -> (media: u8)
        requires
            self.wf(),
        ensures
            media == (match self.layout_at(drive, volume) {
                Some(l) => l.media,
                None => 0,
            }),
    {
        match self.layout(drive, volume) {
            Some(l) => l.media,
            None => 0,
        }
    }

    /// The drive a service means: 0 is the current one, 1 is A:.
    pub open spec fn meant(&self, drive: u8) -> u8 {
        if drive == 0 {
            self.current_drive
        } else {
            (drive - 1) as u8
        }
    }

    /// Sectors per cluster, free clusters, bytes per sector and clusters of a
    /// drive. Floppies report real usage so programs can tell whether a save
    /// will fit; hard disks keep reporting an empty fake 80 MB.
    pub open spec fn space_of(
        &self,
        drive: u8,
        volume: FatLayout,
        volume_free: u32,
        used: u64,
    ) -> Result<(u16, u16, u16, u16), u16> {
        match self.at(self.meant(drive)) {
            None => Err(0x0F),
            Some(d) => if d.storage is Volume {
                Ok(
                    (
                        volume.sectors_per_cluster,
                        if volume_free < volume.clusters {
                            volume_free as u16
                        } else {
                            volume.clusters
                        },
                        volume.bytes_per_sector,
                        volume.clusters,
                    ),
                )
            } else {
                let (per_cluster, per_sector, total) = geometry_of(d.kind);
                let free = match d.kind {
                    DriveKind::Floppy => if !(d.storage is Host) {
                        total
                    } else if used < total {
                        (total - used) as u16
                    } else {
                        0
                    },
                    DriveKind::HardDisk => total,
                    DriveKind::CdRom => 0,
                    DriveKind::Virtual => 1000,
                };
                Ok((per_cluster, free, per_sector, total))
            },
        }
    }

    // INT 21h, AH=36h: Get Disk Free Space
    // Input DL: 0=Default, 1=A, 2=B, 3=C, ...
    // Returns (sectors per cluster, free clusters, bytes per sector, total clusters)
    pub fn get_disk_free_space(
        &self,
        drive: u8,
        volume: FatLayout,
        volume_free: u32,
        used: u64,
    ) -> (space: Result<(u16, u16, u16, u16), u16>)
        requires
            self.wf(),
        ensures
            space == self.space_of(drive, volume, volume_free, used),
    {
        let target: u8 = if drive == 0 {
            self.current_drive
        } else {
            drive - 1
        };
        match self.drive(target) {
            None => Err(0x0F),  // Invalid Drive
            Some(d) => {
                let host = match &d.storage {
                    Storage::Volume(_) => {
                        let free: u16 = if volume_free < volume.clusters as u32 {
                            volume_free as u16
                        } else {
                            volume.clusters
                        };
                        return Ok(
                            (
                                volume.sectors_per_cluster,
                                free,
                                volume.bytes_per_sector,
                                volume.clusters,
                            ),
                        );
                    },
                    Storage::Host(_) => true,
                    Storage::Tree { .. } => false,
                };
                let (per_cluster, per_sector, total): (u16, u16, u16) = d.kind.geometry();
                let free: u16 = match d.kind {
                    DriveKind::Floppy => if !host {
                        total
                    } else if used < total as u64 {
                        total - used as u16
                    } else {
                        0
                    },
                    DriveKind::HardDisk => total,
                    DriveKind::CdRom => 0,
                    DriveKind::Virtual => 1000,
                };
                Ok((per_cluster, free, per_sector, total))
            },
        }
    }
}

/// How many clusters some files and directories take: one for a directory,
/// and for a file its size rounded up. Sizes are none for directories.
pub open spec fn clusters_of(sizes: Seq<Option<u64>>, cluster_bytes: u64) -> int
    decreases sizes.len(),
{
    if sizes.len() == 0 {
        0
    } else {
        clusters_of(sizes.drop_last(), cluster_bytes) + (match sizes.last() {
            None => 1,
            Some(len) => (len + cluster_bytes - 1) / cluster_bytes as int,
        })
    }
}

/// Clusters occupied by the files and directories of a tree (one per
/// directory plus each file rounded up), but at most `cap`: mounting a huge
/// directory as a floppy stays cheap.
pub fn used_clusters(sizes: &Vec<Option<u64>>, cluster_bytes: u64, cap: u64) -> (used: u64)
    requires
        cluster_bytes > 0,
    ensures
        used == (if clusters_of(sizes@, cluster_bytes) >= cap && sizes@.len() > 0 {
            cap as int
        } else {
            clusters_of(sizes@, cluster_bytes)
        }),
{
    let mut used: u64 = 0;
    let mut i: usize = 0;
    assert(sizes@.take(0) =~= Seq::empty());
    while i < sizes.len()
        invariant
            i <= sizes@.len(),
            cluster_bytes > 0,
            used == clusters_of(sizes@.take(i as int), cluster_bytes),
            i > 0 ==> used < cap,
            i == 0 ==> used == 0,
        decreases sizes.len() - i,
    {
        assert(sizes@.take(i + 1).drop_last() =~= sizes@.take(i as int));
        let more: u64 = match sizes[i] {
            None => 1,
            Some(len) => {
                proof {
                    let (a, b) = (len as int, cluster_bytes as int);
                    vstd::arithmetic::div_mod::lemma_fundamental_div_mod(a, b);
                    assert(0 <= a % b < b) by (nonlinear_arith)
                        requires
                            b > 0,
                    ;
                    assert(b * (a / b) == (a / b) * b) by (nonlinear_arith);
                    assert((a / b + 1) * b == (a / b) * b + b) by (nonlinear_arith);
                    if a % b == 0 {
                        vstd::arithmetic::div_mod::lemma_fundamental_div_mod_converse(
                            a + b - 1,
                            b,
                            a / b,
                            b - 1,
                        );
                    } else {
                        vstd::arithmetic::div_mod::lemma_fundamental_div_mod_converse(
                            a + b - 1,
                            b,
                            a / b + 1,
                            a % b - 1,
                        );
                    }
                    assert(0 <= a / b <= a) by (nonlinear_arith)
                        requires
                            a >= 0,
                            b > 0,
                    ;
                    assert(b == 1 ==> a % b == 0) by (nonlinear_arith);
                    assert(b >= 2 ==> a / b <= 0x8000_0000_0000_0000) by (nonlinear_arith)
                        requires
                            a <= 0xFFFF_FFFF_FFFF_FFFF,
                            b > 0,
                    ;
                }
                if len % cluster_bytes == 0 {
                    len / cluster_bytes
                } else {
                    len / cluster_bytes + 1
                }
            },
        };
        if used >= cap || more >= cap - used {
            proof {
                lemma_clusters_grow(sizes@, cluster_bytes, i + 1);
                assert(clusters_of(sizes@.take(i + 1), cluster_bytes) == used + more);
            }
            return cap;
        }
        used = used + more;
        i = i + 1;
    }
    assert(sizes@.take(i as int) =~= sizes@);
    used
}

/// More files take no fewer clusters.
proof fn lemma_clusters_grow(sizes: Seq<Option<u64>>, cluster_bytes: u64, n: int)
    requires
        0 <= n <= sizes.len(),
        cluster_bytes > 0,
    ensures
        0 <= clusters_of(sizes.take(n), cluster_bytes) <= clusters_of(sizes, cluster_bytes),
    decreases sizes.len(),
{
    if sizes.len() > 0 {
        match sizes.last() {
            None => {},
            Some(len) => {
                let (a, b) = (len + cluster_bytes - 1, cluster_bytes as int);
                assert(0 <= a / b) by (nonlinear_arith)
                    requires
                        a >= 0,
                        b > 0,
                ;
            },
        }
        if n < sizes.len() {
            lemma_clusters_grow(sizes.drop_last(), cluster_bytes, n);
            assert(sizes.drop_last().take(n) =~= sizes.take(n));
        } else {
            lemma_clusters_grow(sizes.drop_last(), cluster_bytes, n - 1);
            assert(sizes.take(n) =~= sizes);
        }
    } else {
        assert(sizes.take(n) =~= sizes);
    }
}

/// A write to a drive that can't be written is refused, whatever it is:
/// deleting, renaming, and making and removing directories.
pub proof fn law_read_only_refuses(
    disk: DiskController,
    path: Seq<char>,
    to: Seq<char>,
    outside: Outside,
    dir: Option<Seq<char>>,
    parent_is_dir: bool,
    taken: bool,
)
    requires
        disk.leads_to(path) matches Some((drive, _)) && disk.at(drive)->0.read_only,
    ensures
        disk.delete_error(path, outside) is Some,
        disk.rename_error(path, to, outside, parent_is_dir, taken) is Some,
        disk.set_attribute_error(path, outside) is Some,
        disk.mkdir_error(path, parent_is_dir, taken) == Some(0x05u8),
        disk.rmdir_error(path, dir) is Some,
{
}

/// A file takes the clusters that hold its bytes and no more; a directory
/// takes one.
pub proof fn law_clusters_hold_files(sizes: Seq<Option<u64>>, size: Option<u64>, bytes: u64)
    requires
        bytes > 0,
    ensures
        ({
            let more = clusters_of(sizes.push(size), bytes) - clusters_of(sizes, bytes);
            match size {
                None => more == 1,
                Some(len) => (more - 1) * bytes < len <= more * bytes,
            }
        }),
        clusters_of(Seq::empty(), bytes) == 0,
{
    assert(sizes.push(size).drop_last() =~= sizes);
    match size {
        None => {},
        Some(len) => {
            let n = len + bytes - 1;
            let b = bytes as int;
            let q = n / b;
            vstd::arithmetic::div_mod::lemma_fundamental_div_mod(n, b);
            assert(q * b == b * q && (q - 1) * b == b * q - b) by (nonlinear_arith);
        },
    }
}

/// Of a drive's clusters no more are free than there are; of a compact disc's
/// none, and of a floppy disk's so many less as files take.
pub proof fn law_free_space(
    c: DiskController,
    drive: u8,
    volume: FatLayout,
    volume_free: u32,
    used: u64,
)
    ensures
        c.space_of(drive, volume, volume_free, used) matches Ok((_, free, _, total)) ==> free
            <= total,
        c.at(c.meant(drive)) matches Some(d) && d.kind == DriveKind::CdRom && !(d.storage is Volume)
            ==> c.space_of(drive, volume, volume_free, used)->Ok_0.1 == 0,
        c.at(c.meant(drive)) matches Some(d) && d.kind == DriveKind::Floppy && d.storage is Host
            && used <= 2847 ==> c.space_of(drive, volume, volume_free, used)->Ok_0.1 + used == 2847,
        c.at(c.meant(drive)) is None <==> c.space_of(drive, volume, volume_free, used) is Err,
{
}

} // verus!
