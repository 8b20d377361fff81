//! The open files: the job file table, and what each handle reads and writes.

use vstd::prelude::*;

use crate::disk::drives::{DiskController, Storage};
use crate::disk::memfs::{Extent, MemFs, Node, NodeView};
use crate::disk::names::{
    CharDevice, FIRST_USER_HANDLE, HANDLE_LIMIT, LASTDRIVE, MEMORY_DATE, MEMORY_TIME,
};
use crate::disk::paths::{capital_path, capital_text, slashed};
use crate::text::{chars_of, hex_text, last_of, last_place, push_hex, text_between, texts};

verus! {

/// What an open handle reads and writes.
#[derive(Debug)]
pub enum OpenData {
    /// A file of a host directory.
    Host,
    /// A file held in memory.
    Memory(Vec<u8>),
    /// A file on the CD image with this number.
    Image(u64, Extent),
    /// A file on the disk image with this number: where its directory entry
    /// is, and whether it was opened for writing.
    Volume { volume: u64, at: u64, write: bool },
    /// A character device opened by name (NUL, CON, PRN...).
    Device(CharDevice),
}

/// Where the contents of a file are.
#[derive(Debug)]
pub enum FileData {
    /// In a file of the host.
    Host,
    Memory(Vec<u8>),
    /// On the CD image with this number.
    Image(u64, Extent),
    /// On the disk image with this number: where its directory entry is, and
    /// its size.
    Volume { volume: u64, at: Option<u64>, size: u32 },
}

/// A file as a process has it open.
#[derive(Debug)]
pub struct OpenFile {
    pub data: OpenData,
    pub drive: u8,
    /// PSP of the process that opened the file. DOS closes a process's files
    /// when it terminates.
    pub owner: u16,
    /// Tells the file apart from others, for the noises of the drives.
    pub key: u64,
    /// The handles duplicated from one share this number and the position.
    pub group: u64,
    pub pos: u64,
}

/// Whether the handles that share a position agree on it.
pub open spec fn same_positions(files: Seq<Option<OpenFile>>) -> bool {
    forall|i: int, j: int|
        #![trigger files[i], files[j]]
        0 <= i < files.len() && 0 <= j < files.len() ==> agree(files[i], files[j])
}

/// Whether two handles have the same position if they share one.
pub open spec fn agree(one: Option<OpenFile>, other: Option<OpenFile>) -> bool {
    match (one, other) {
        (Some(a), Some(b)) => a.group == b.group ==> a.pos == b.pos,
        _ => true,
    }
}

/// An entry of a directory on a disk image.
#[derive(Debug)]
pub struct Entry {
    pub name: String,
    /// DOS attribute byte (0x01 R/O, 0x08 label, 0x10 dir, 0x20 archive).
    pub attr: u8,
    pub size: u32,
    pub time: u16,
    pub date: u16,
    /// Where the entry itself is; the root directory has none.
    pub at: Option<u64>,
}

impl Entry {
    pub open spec fn dir(&self) -> bool {
        self.attr & 0x10 != 0
    }

    pub fn is_dir(&self) -> (yes: bool)
        ensures
            yes == self.dir(),
    {
        self.attr & 0x10 != 0
    }
}

/// What a host directory has at a path.
#[derive(Clone, Copy, Debug, PartialEq, Eq, Structural)]
pub struct HostThing {
    pub there: bool,
    pub is_file: bool,
    pub is_dir: bool,
    pub read_only: bool,
}

/// What is at a path on a drive that isn't held in memory.
#[derive(Debug)]
pub enum Outside {
    /// On a host directory.
    Host(HostThing),
    /// On a disk image: an entry, or the DOS error of looking for it.
    Volume(Result<Entry, u8>),
}

/// How a file is opened.
#[derive(Clone, Copy, Debug, PartialEq, Eq, Structural)]
pub enum Plan {
    Device(CharDevice),
    /// A file held in memory, by its number.
    Memory { drive: u8, number: usize },
    /// A host file, with the access it needs.
    Host { drive: u8, read: bool, write: bool, create: bool },
    /// A file on a disk image.
    Volume { drive: u8, volume: u64, at: u64, write: bool },
    /// A file to be made on a disk image first.
    Create { drive: u8, volume: u64 },
}

/// The first free handle from one on.
pub open spec fn free_slot(files: Seq<Option<OpenFile>>, from: int) -> Option<u16>
    decreases files.len() - from,
{
    if from < 0 || from >= files.len() {
        None
    } else if files[from] is None {
        Some(from as u16)
    } else {
        free_slot(files, from + 1)
    }
}

/// The directory a path held in memory is in.
pub open spec fn parent_path(path: Seq<char>) -> Seq<char> {
    match last_place(path, '\\') {
        Some(i) => path.take(i),
        None => Seq::empty(),
    }
}

/// The attributes of a file held in memory: read-only, and hidden where the
/// CD says so.
pub open spec fn node_attr(node: Node) -> u8 {
    match node {
        Node::Extent(extent) => if extent.hidden {
            0x23
        } else {
            0x21
        },
        Node::Bytes(_) => 0x21,
    }
}

/// The attributes of an entry of a tree held in memory (None for a
/// directory).
pub(crate) fn tree_attr(node: Option<&Node>) -> (attr: u8)
    ensures
        attr == (match node {
            None => 0x11,
            Some(n) => node_attr(*n),
        }),
{
    match node {
        None => 0x11,
        Some(Node::Extent(extent)) => if extent.hidden {
            0x23
        } else {
            0x21
        },
        Some(Node::Bytes(_)) => 0x21,
    }
}

/// The files with the positions of a group changed.
pub open spec fn moved_group(files: Seq<Option<OpenFile>>, group: u64, pos: u64) -> Seq<
    Option<OpenFile>,
> {
    Seq::new(
        files.len(),
        |i: int|
            match files[i] {
                Some(f) => if f.group == group {
                    Some(OpenFile { pos, ..f })
                } else {
                    files[i]
                },
                None => None,
            },
    )
}

/// The files with those of a process closed.
pub open spec fn closed_for(files: Seq<Option<OpenFile>>, owner: u16) -> Seq<Option<OpenFile>> {
    Seq::new(
        files.len(),
        |i: int|
            match files[i] {
                Some(f) => if f.owner == owner {
                    None
                } else {
                    files[i]
                },
                None => None,
            },
    )
}

impl DiskController {
    /// The file open with a handle.
    pub open spec fn file_at(&self, handle: u16) -> Option<OpenFile> {
        if handle < HANDLE_LIMIT {
            self.open_files@[handle as int]
        } else {
            None
        }
    }

    /// Whether this is where the contents of the file are that a DOS path names.
    pub open spec fn holds_data(
        &self,
        path: Seq<char>,
        outside: Outside,
        data: Option<FileData>,
    ) -> bool {
        match self.leads_to(path) {
            None => data is None,
            Some((drive, parts)) => match self.at(drive)->0.storage {
                Storage::Volume(volume) => match outside {
                    Outside::Volume(Ok(e)) if !e.dir() => data == Some(
                        FileData::Volume { volume, at: e.at, size: e.size },
                    ),
                    _ => data is None,
                },
                Storage::Tree { files, image } => match files.number_of(capital_path(parts)) {
                    None => data is None,
                    Some(n) => match (files.nodes@[n]@, image) {
                        (NodeView::Bytes(bytes), _) => data matches Some(FileData::Memory(v))
                            && v@ == bytes,
                        (NodeView::Extent(extent), Some(i)) => data == Some(
                            FileData::Image(i, extent),
                        ),
                        (NodeView::Extent(_), None) => data is None,
                    },
                },
                Storage::Host(_) => match outside {
                    Outside::Host(thing) if thing.is_file => data == Some(FileData::Host),
                    _ => data is None,
                },
            },
        }
    }

    /// Where the contents of the file a DOS path names are, on any drive; what
    /// isn't held in memory is asked of `outside`.
    pub fn file_data(&self, dos_path: &str, outside: &Outside) -> (data: Option<FileData>)
        requires
            self.wf(),
        ensures
            self.holds_data(dos_path@, *outside, data),
    {
        let place = match self.place(dos_path) {
            Some(place) => place,
            None => {
                return None;
            },
        };
        match self.drive(place.drive) {
            None => None,
            Some(d) => match &d.storage {
                Storage::Volume(volume) => match outside {
                    Outside::Volume(Ok(e)) => if e.is_dir() {
                        None
                    } else {
                        Some(FileData::Volume { volume: *volume, at: e.at, size: e.size })
                    },
                    _ => None,
                },
                Storage::Tree { files, image } => {
                    let path = capital_text(&place.parts);
                    match files.file_number(path.as_str()) {
                        None => None,
                        Some(n) => match &files.nodes[n] {
                            Node::Bytes(bytes) => {
                                let copy = vstd::slice::slice_to_vec(bytes.as_slice());
                                assert(copy@ =~= bytes@);
                                Some(FileData::Memory(copy))
                            },
                            Node::Extent(extent) => match image {
                                Some(i) => Some(FileData::Image(*i, *extent)),
                                None => None,
                            },
                        },
                    }
                },
                Storage::Host(_) => match outside {
                    Outside::Host(thing) => if thing.is_file {
                        Some(FileData::Host)
                    } else {
                        None
                    },
                    Outside::Volume(_) => None,
                },
            },
        }
    }

    /// The DOS error of writing to a drive, if it can't be written.
    pub open spec fn write_error(&self, drive: u8) -> Option<u8> {
        match self.at(drive) {
            None => Some(0x03),
            Some(d) => if d.read_only {
                Some(0x05)
            } else {
                None
            },
        }
    }

    pub(crate) fn check_writable(&self, drive: u8) -> (checked: Result<(), u8>)
        requires
            self.wf(),
        ensures
            checked == (match self.write_error(drive) {
                Some(e) => Err::<(), u8>(e),
                None => Ok(()),
            }),
    {
        match self.drive(drive) {
            None => Err(0x03),
            Some(d) => if d.read_only {
                Err(0x05)  // Access denied
            } else {
                Ok(())
            },
        }
    }

    /// Lowest unused handle, like DOS taking the first free job file table
    /// slot. Programs expect small numbers: the Microsoft C runtime rejects
    /// handles at or above its 20-entry file table.
    fn free_handle(&self) -> (handle: Result<u16, u8>)
        requires
            self.wf(),
        ensures
            handle == (match free_slot(self.open_files@, FIRST_USER_HANDLE as int) {
                Some(h) => Ok::<u16, u8>(h),
                None => Err(0x04),
            }),
            handle matches Ok(h) ==> h < HANDLE_LIMIT && self.open_files@[h as int] is None,
    {
        let mut h: u16 = FIRST_USER_HANDLE;
        while h < HANDLE_LIMIT
            invariant
                self.wf(),
                FIRST_USER_HANDLE <= h <= HANDLE_LIMIT,
                free_slot(self.open_files@, FIRST_USER_HANDLE as int) == free_slot(
                    self.open_files@,
                    h as int,
                ),
            decreases HANDLE_LIMIT - h,
        {
            if self.open_files[h as usize].is_none() {
                return Ok(h);
            }
            h = h + 1;
        }
        Err(0x04)  // Too many open files
    }

    /// The number of a file held in memory that can be read, or the DOS error
    /// of opening it.
    pub open spec fn memory_found(
        files: MemFs,
        image: Option<u64>,
        path: Seq<char>,
    ) -> Result<int, u8> {
        let readable = match files.number_of(path) {
            Some(n) => files.nodes@[n] is Bytes || image is Some,
            None => false,
        };
        if readable {
            Ok(files.number_of(path)->0)
        } else if files.has_dir(path) {
            Err(0x05)
        } else if files.has_dir(parent_path(path)) {
            Err(0x02)
        } else {
            Err(0x03)
        }
    }

    fn find_in_memory(files: &MemFs, image: Option<u64>, path: &String) -> (found: Result<
        usize,
        u8,
    >)
        requires
            files.wf(),
        ensures
            match (found, DiskController::memory_found(*files, image, path@)) {
                (Ok(n), Ok(m)) => n == m && n < files.nodes@.len(),
                (Err(e), Err(f)) => e == f,
                _ => false,
            },
    {
        if let Some(n) = files.file_number(path.as_str()) {
            let readable = match &files.nodes[n] {
                Node::Bytes(_) => true,
                Node::Extent(_) => image.is_some(),
            };
            if readable {
                return Ok(n);
            }
        }
        if files.is_dir(path.as_str()) {
            return Err(0x05);
        }
        let chars = chars_of(path.as_str());
        assert(chars@.subrange(0, chars@.len() as int) =~= chars@);
        let end: usize = match last_of(&chars, 0, '\\') {
            Some(i) => i,
            None => 0,
        };
        let parent = text_between(&chars, 0, end);
        assert(parent@ =~= parent_path(path@));
        if files.is_dir(parent.as_str()) {
            Err(0x02)
        } else {
            Err(0x03)
        }
    }

    /// How a file is opened, or the DOS error: what a file that isn't held in
    /// memory needs is asked of `outside`.
    pub open spec fn planned(
        &self,
        filename: Seq<char>,
        mode: u8,
        create: bool,
        outside: Outside,
    ) -> Result<Plan, u8> {
        let full = free_slot(self.open_files@, FIRST_USER_HANDLE as int) is None;
        match self.device_named(filename) {
            Some(device) => if full {
                Err(0x04)
            } else {
                Ok(Plan::Device(device))
            },
            None => match self.leads_to(filename) {
                None => Err(0x03),
                Some((drive, parts)) => {
                    let writable = self.can_write(drive);
                    match self.at(drive)->0.storage {
                        Storage::Tree { files, image } => match DiskController::memory_found(
                            files,
                            image,
                            capital_path(parts),
                        ) {
                            Err(e) => Err(e),
                            Ok(number) => if mode & 3 == 1 {
                                Err(0x05)
                            } else if mode & 3 == 3 {
                                Err(0x0C)
                            } else if full {
                                Err(0x04)
                            } else {
                                Ok(Plan::Memory { drive, number: number as usize })
                            },
                        },
                        Storage::Volume(volume) => if mode & 3 == 3 {
                            Err(0x0C)
                        } else if mode & 3 == 1 && !writable {
                            Err(0x05)
                        } else if full {
                            Err(0x04)
                        } else {
                            match outside {
                                Outside::Volume(Ok(entry)) => DiskController::entry_planned(
                                    drive,
                                    volume,
                                    entry,
                                    mode & 3 != 0 && writable,
                                ),
                                Outside::Volume(Err(e)) => if e == 0x02 && create {
                                    if writable {
                                        Ok(Plan::Create { drive, volume })
                                    } else {
                                        Err(0x05)
                                    }
                                } else {
                                    Err(e)
                                },
                                Outside::Host(_) => Err(0x03),
                            }
                        },
                        Storage::Host(_) => match outside {
                            Outside::Volume(_) => Err(0x03),
                            Outside::Host(thing) => if thing.is_dir {
                                Err(0x05)
                            } else if mode & 3 == 3 {
                                Err(0x0C)
                            } else if mode & 3 == 1 && !writable {
                                Err(0x05)
                            } else if full {
                                Err(0x04)
                            } else {
                                Ok(
                                    Plan::Host {
                                        drive,
                                        read: mode & 3 != 1,
                                        write: mode & 3 != 0 && writable,
                                        create: create && mode & 3 != 0 && writable,
                                    },
                                )
                            },
                        },
                    }
                },
            },
        }
    }

    /// How an entry on a disk image is opened: directories aren't, and
    /// read-only files not for writing.
    pub open spec fn entry_planned(drive: u8, volume: u64, entry: Entry, write: bool) -> Result<
        Plan,
        u8,
    > {
        if entry.dir() {
            Err(0x05)
        } else if write && entry.attr & 0x01 != 0 {
            Err(0x05)
        } else {
            match entry.at {
                Some(at) => Ok(Plan::Volume { drive, volume, at, write }),
                None => Err(0x05),
            }
        }
    }

    fn plan_entry(drive: u8, volume: u64, entry: &Entry, write: bool) -> (plan: Result<Plan, u8>)
        ensures
            plan == DiskController::entry_planned(drive, volume, *entry, write),
    {
        if entry.is_dir() {
            return Err(0x05);
        }
        if write && entry.attr & 0x01 != 0 {
            return Err(0x05);
        }
        match entry.at {
            Some(at) => Ok(Plan::Volume { drive, volume, at, write }),
            None => Err(0x05),
        }
    }

    /// How `filename` is opened with access `mode`; `create` makes a missing
    /// file, as the create calls do. Opening alone never creates one:
    /// programs probe for files by opening them read/write.
    pub fn plan_open(&self, filename: &str, mode: u8, create: bool, outside: &Outside) -> (plan:
        Result<Plan, u8>)
        requires
            self.wf(),
        ensures
            plan == self.planned(filename@, mode, create, *outside),
    {
        // Devices open by name, whatever the directory; there's no file to
        // create.
        if let Some(device) = self.device(filename) {
            self.free_handle()?;
            return Ok(Plan::Device(device));
        }
        let place = match self.place(filename) {
            Some(place) => place,
            None => {
                return Err(0x03);
            },
        };
        let access: u8 = mode & 3;
        proof {
            assert(mode & 3 <= 3) by (bit_vector);
        }
        match self.drive(place.drive) {
            None => Err(0x03),
            Some(d) => match &d.storage {
                // Files held in memory are read-only: read/write opens are
                // downgraded as on a CD-ROM.
                Storage::Tree { files, image } => {
                    let path = capital_text(&place.parts);
                    let number: usize = DiskController::find_in_memory(files, *image, &path)?;
                    if access == 1 {
                        return Err(0x05);
                    }
                    if access == 3 {
                        return Err(0x0C);
                    }
                    self.free_handle()?;
                    Ok(Plan::Memory { drive: place.drive, number })
                },
                Storage::Volume(volume) => {
                    let writable = !d.read_only;
                    if access == 3 {
                        return Err(0x0C);
                    }
                    if access == 1 && !writable {
                        return Err(0x05);
                    }
                    self.free_handle()?;
                    match outside {
                        // Read/write opens on write-protected disks are
                        // downgraded, as on CD-ROMs; read-only files can't
                        // be written.
                        Outside::Volume(Ok(entry)) => DiskController::plan_entry(
                            place.drive,
                            *volume,
                            entry,
                            access != 0 && writable,
                        ),
                        Outside::Volume(Err(e)) => if *e == 0x02 && create {
                            if writable {
                                Ok(Plan::Create { drive: place.drive, volume: *volume })
                            } else {
                                Err(0x05)
                            }
                        } else {
                            Err(*e)
                        },
                        Outside::Host(_) => Err(0x03),
                    }
                },
                Storage::Host(_) => match outside {
                    Outside::Volume(_) => Err(0x03),
                    Outside::Host(thing) => {
                        // A directory (or a bare "D:") isn't a file: access
                        // denied.
                        if thing.is_dir {
                            return Err(0x05);
                        }
                        let writable = !d.read_only;
                        if access == 3 {
                            return Err(0x0C);
                        }
                        if access == 1 && !writable {
                            return Err(0x05);
                        }
                        self.free_handle()?;
                        // Read/write opens on read-only media (CD-ROM) are
                        // quietly downgraded to read-only, as MSCDEX does;
                        // lots of CD games open their data files R/W without
                        // ever writing.
                        let write = access != 0 && writable;
                        Ok(
                            Plan::Host {
                                drive: place.drive,
                                read: access != 1,
                                write,
                                create: create && write,
                            },
                        )
                    },
                },
            },
        }
    }

    /// Whether a file was opened with a handle, and nothing else changed.
    pub open spec fn opened_as(
        &self,
        before: DiskController,
        handle: u16,
        drive: u8,
        owner: u16,
        key: u64,
    ) -> bool {
        &&& Some(handle) == free_slot(before.open_files@, FIRST_USER_HANDLE as int)
        &&& self.file_at(handle) matches Some(f) && f.drive == drive && f.owner == owner && f.key
            == key && f.group == before.next_group && f.pos == 0
        &&& self.open_files@.len() == before.open_files@.len()
        &&& forall|i: int|
            0 <= i < before.open_files@.len() && i != handle ==> self.open_files@[i]
                == before.open_files@[i]
        &&& self.next_group == before.next_group + 1
        &&& self.drives == before.drives
        &&& self.current_drive == before.current_drive
        &&& self.emm_device == before.emm_device
    }

    /// Give a file the lowest free handle.
    fn register(&mut self, data: OpenData, drive: u8, owner: u16, key: u64) -> (handle: Result<
        u16,
        u8,
    >)
        requires
            old(self).wf(),
            old(self).next_group < u64::MAX,
        ensures
            final(self).wf(),
            match handle {
                Ok(h) => final(self).opened_as(*old(self), h, drive, owner, key)
                    && final(self).file_at(h)->0.data == data,
                Err(e) => e == 0x04 && *final(self) == *old(self) && free_slot(
                    old(self).open_files@,
                    FIRST_USER_HANDLE as int,
                ) is None,
            },
    {
        let handle: u16 = self.free_handle()?;
        let group: u64 = self.next_group;
        self.open_files[handle as usize] = Some(
            OpenFile { data, drive, owner, key, group, pos: 0 },
        );
        self.next_group = group + 1;
        Ok(handle)
    }

    /// What a handle reads that was opened as planned, where no outside work
    /// is left.
    pub open spec fn data_planned(&self, plan: Plan, data: OpenData) -> bool {
        match plan {
            Plan::Device(device) => data == OpenData::Device(device),
            Plan::Memory { drive, number } => match self.at(drive)->0.storage {
                Storage::Tree { files, image } => match files.nodes@[number as int]@ {
                    NodeView::Bytes(bytes) => data matches OpenData::Memory(v) && v@ == bytes,
                    NodeView::Extent(extent) => data == OpenData::Image(image->0, extent),
                },
                _ => false,
            },
            Plan::Volume { volume, at, write, .. } => data == (OpenData::Volume {
                volume,
                at,
                write,
            }),
            _ => false,
        }
    }

    /// The drive a handle opened as planned is on.
    pub open spec fn drive_planned(&self, plan: Plan) -> u8 {
        match plan {
            Plan::Device(_) => self.current_drive,
            Plan::Memory { drive, .. } => drive,
            Plan::Host { drive, .. } => drive,
            Plan::Volume { drive, .. } => drive,
            Plan::Create { drive, .. } => drive,
        }
    }

    fn memory_data(&self, drive: u8, number: usize) -> (data: OpenData)
        requires
            self.wf(),
            drive < LASTDRIVE,
            self.at(drive) matches Some(d) && (d.storage matches Storage::Tree { files, image }
                && number < files.nodes@.len() && (files.nodes@[number as int] is Extent
                ==> image is Some)),
        ensures
            self.data_planned(Plan::Memory { drive, number }, data),
    {
        match self.drive(drive) {
            Some(d) => match &d.storage {
                Storage::Tree { files, image } => match &files.nodes[number] {
                    Node::Bytes(bytes) => {
                        let copy = vstd::slice::slice_to_vec(bytes.as_slice());
                        assert(copy@ =~= bytes@);
                        OpenData::Memory(copy)
                    },
                    Node::Extent(extent) => OpenData::Image(
                        match image {
                            Some(i) => *i,
                            None => 0,
                        },
                        *extent,
                    ),
                },
                _ => OpenData::Host,
            },
            None => OpenData::Host,
        }
    }

    /// What opening a file as planned comes to: the error, what is left to do
    /// outside, or a handle.
    pub open spec fn opens(
        &self,
        before: DiskController,
        planned: Result<Plan, u8>,
        owner: u16,
        key: u64,
        opened: Result<(Plan, Option<u16>), u8>,
    ) -> bool {
        match (opened, planned) {
            (Err(e), Err(f)) => e == f && *self == before,
            (Ok((plan, None)), Ok(p)) => plan == p && (p is Host || p is Create) && *self
                == before,
            (Ok((plan, Some(h))), Ok(p)) => {
                &&& plan == p
                &&& !(p is Host || p is Create)
                &&& self.opened_as(
                    before,
                    h,
                    before.drive_planned(p),
                    owner,
                    if p is Device {
                        0
                    } else {
                        key
                    },
                )
                &&& before.data_planned(p, self.file_at(h)->0.data)
            },
            _ => false,
        }
    }

    /// INT 21h, AH=3Dh: open a file. `owner` is the PSP of the calling
    /// process.
    pub fn open_file(&mut self, filename: &str, mode: u8, owner: u16, key: u64, outside: &Outside) -> (
        opened: Result<(Plan, Option<u16>), u8>)
        requires
            old(self).wf(),
            old(self).next_group < u64::MAX,
        ensures
            final(self).wf(),
            final(self).opens(
                *old(self),
                old(self).planned(filename@, mode, false, *outside),
                owner,
                key,
                opened,
            ),
    {
        self.open_or_create(filename, mode, owner, false, key, outside)
    }

    /// Open `filename` with access `mode` for the process `owner`: with a
    /// handle at once, or with what is left to do outside, after which
    /// `open_outside` gives the handle.
    pub fn open_or_create(
        &mut self,
        filename: &str,
        mode: u8,
        owner: u16,
        create: bool,
        key: u64,
        outside: &Outside,
    ) -> (opened: Result<(Plan, Option<u16>), u8>)
        requires
            old(self).wf(),
            old(self).next_group < u64::MAX,
        ensures
            final(self).wf(),
            final(self).opens(
                *old(self),
                old(self).planned(filename@, mode, create, *outside),
                owner,
                key,
                opened,
            ),
    {
        let plan = self.plan_open(filename, mode, create, outside)?;
        let current: u8 = self.current_drive;
        match plan {
            Plan::Device(device) => {
                let h: u16 = self.register(OpenData::Device(device), current, owner, 0)?;
                Ok((plan, Some(h)))
            },
            Plan::Memory { drive, number } => {
                proof {
                    self.lemma_planned_memory(filename@, mode, create, *outside, drive, number);
                }
                let data = self.memory_data(drive, number);
                let h: u16 = self.register(data, drive, owner, key)?;
                Ok((plan, Some(h)))
            },
            Plan::Volume { drive, volume, at, write } => {
                let h: u16 = self.register(
                    OpenData::Volume { volume, at, write },
                    drive,
                    owner,
                    key,
                )?;
                Ok((plan, Some(h)))
            },
            Plan::Host { .. } | Plan::Create { .. } => Ok((plan, None)),
        }
    }

    proof fn lemma_planned_memory(
        &self,
        filename: Seq<char>,
        mode: u8,
        create: bool,
        outside: Outside,
        drive: u8,
        number: usize,
    )
        requires
            self.wf(),
            self.planned(filename, mode, create, outside) == Ok::<Plan, u8>(
                Plan::Memory { drive, number },
            ),
        ensures
            drive < LASTDRIVE,
            self.at(drive) matches Some(d) && (d.storage matches Storage::Tree { files, image }
                && number < files.nodes@.len() && (files.nodes@[number as int] is Extent
                ==> image is Some)),
    {
        let (d, parts) = self.leads_to(filename)->0;
        match self.at(d)->0.storage {
            Storage::Tree { files, image } => {
                lemma_place_bounds(texts(files.paths@), capital_path(parts), 0);
                assert(self.drives@[d as int] matches Some(x) && x.wf());
                assert(files.paths@.len() == files.paths.len());
            },
            _ => {},
        }
    }

    /// Give the handle of a file whose opening was left to the outside: one
    /// the host opened, or the entry made on a disk image.
    pub fn open_outside(
        &mut self,
        plan: Plan,
        mode: u8,
        owner: u16,
        key: u64,
        outside: &Outside,
    ) -> (opened: Result<u16, u8>)
        requires
            old(self).wf(),
            old(self).next_group < u64::MAX,
            plan is Host || plan is Create,
        ensures
            final(self).wf(),
            opened is Err ==> *final(self) == *old(self),
            ({
                let full = free_slot(old(self).open_files@, FIRST_USER_HANDLE as int) is None;
                match (plan, *outside) {
                    (Plan::Host { drive, .. }, Outside::Host(thing)) => if !thing.is_file {
                        opened == Err::<u16, u8>(0x02)
                    } else if full {
                        opened == Err::<u16, u8>(0x04)
                    } else {
                        opened matches Ok(h) && final(self).opened_as(
                            *old(self),
                            h,
                            drive,
                            owner,
                            key,
                        ) && final(self).file_at(h)->0.data == OpenData::Host
                    },
                    (Plan::Create { drive, volume }, Outside::Volume(Err(e))) => opened == Err::<
                        u16,
                        u8,
                    >(e),
                    (Plan::Create { drive, volume }, Outside::Volume(Ok(entry))) => {
                        let write = mode & 3 != 0 && old(self).can_write(drive);
                        match DiskController::entry_planned(drive, volume, entry, write) {
                            Err(e) => opened == Err::<u16, u8>(e),
                            Ok(p) => if full {
                                opened == Err::<u16, u8>(0x04)
                            } else {
                                opened matches Ok(h) && final(self).opened_as(
                                    *old(self),
                                    h,
                                    drive,
                                    owner,
                                    key,
                                ) && old(self).data_planned(p, final(self).file_at(h)->0.data)
                            },
                        }
                    },
                    _ => opened == Err::<u16, u8>(0x03),
                }
            }),
    {
        match (plan, outside) {
            (Plan::Host { drive, .. }, Outside::Host(thing)) => {
                if !thing.is_file {
                    return Err(0x02);
                }
                self.register(OpenData::Host, drive, owner, key)
            },
            (Plan::Create { drive, volume }, Outside::Volume(Err(e))) => Err(*e),
            (Plan::Create { drive, volume }, Outside::Volume(Ok(entry))) => {
                let write = mode & 3 != 0 && self.is_writable(drive);
                let plan = DiskController::plan_entry(drive, volume, entry, write)?;
                match plan {
                    Plan::Volume { drive, volume, at, write } => self.register(
                        OpenData::Volume { volume, at, write },
                        drive,
                        owner,
                        key,
                    ),
                    _ => Err(0x03),
                }
            },
            _ => Err(0x03),
        }
    }

    /// The DOS error of creating a file before it is opened, if there is one.
    pub open spec fn create_error(&self, filename: Seq<char>) -> Option<u8> {
        if self.device_named(filename) is Some {
            None
        } else {
            match self.split_at_drive(slashed(filename)) {
                None => Some(0x03),
                Some((drive, _)) => self.write_error(drive),
            }
        }
    }

    /// INT 21h, AH=3Ch: whether a file can be created. It is then opened
    /// read/write, made if missing but never truncated.
    pub fn create_file(&self, filename: &str) -> (checked: Result<(), u8>)
        requires
            self.wf(),
        ensures
            checked == (match self.create_error(filename@) {
                Some(e) => Err::<(), u8>(e),
                None => Ok(()),
            }),
    {
        if self.device(filename).is_some() {
            return Ok(());
        }
        match self.drive_of(filename) {
            None => Err(0x03),
            Some(drive) => self.check_writable(drive),
        }
    }

    /// INT 21h, AH=5Bh: whether a file that must not exist yet can be
    /// created.
    pub fn create_new_file(&self, filename: &str, there: bool) -> (checked: Result<(), u8>)
        requires
            self.wf(),
        ensures
            checked == (if self.device_named(filename@) is None && (self.names_file(
                filename@,
                there,
            ) || self.names_directory(filename@, there)) {
                Err::<(), u8>(0x50)
            } else {
                match self.create_error(filename@) {
                    Some(e) => Err::<(), u8>(e),
                    None => Ok(()),
                }
            }),
    {
        if self.device(filename).is_none() && self.is_there(filename, there) {
            return Err(0x50);  // File exists
        }
        self.create_file(filename)
    }

    /// INT 21h, AH=5Ah: the name to try for a file with a unique name in
    /// `directory` (which ends in a backslash), the `i`th time.
    pub fn temp_name(directory: &str, stamp: u32, i: u32) -> (name: String)
        ensures
            name@ == directory@ + hex_text((stamp + i) as nat % 0x1000_0000, 8),
    {
        let number: u64 = (stamp as u64 + i as u64) % 0x1000_0000;
        let mut name = String::from_str(directory);
        push_hex(&mut name, number, 8);
        name
    }

    /// True if `handle` is open.
    pub fn is_open(&self, handle: u16) -> (yes: bool)
        requires
            self.wf(),
        ensures
            yes == self.file_at(handle) is Some,
    {
        handle < HANDLE_LIMIT && self.open_files[handle as usize].is_some()
    }

    pub(crate) fn open_file_at(&self, handle: u16) -> (file: Option<&OpenFile>)
        requires
            self.wf(),
        ensures
            match (file, self.file_at(handle)) {
                (Some(f), Some(g)) => *f == g && handle < HANDLE_LIMIT,
                (None, None) => true,
                _ => false,
            },
    {
        if handle < HANDLE_LIMIT {
            match &self.open_files[handle as usize] {
                Some(f) => Some(f),
                None => None,
            }
        } else {
            None
        }
    }

    /// Drive a file handle was opened on (Z: for virtual handles).
    pub fn handle_drive(&self, handle: u16) -> (drive: Option<u8>)
        requires
            self.wf(),
        ensures
            drive == (match self.file_at(handle) {
                Some(f) => Some(f.drive),
                None => None,
            }),
    {
        match self.open_file_at(handle) {
            Some(f) => Some(f.drive),
            None => None,
        }
    }

    /// What tells an open file apart from others, for telling sequential
    /// disk access from random (the disk noises).
    pub fn handle_key(&self, handle: u16) -> (key: Option<u64>)
        requires
            self.wf(),
        ensures
            key == (match self.file_at(handle) {
                Some(f) => Some(f.key),
                None => None,
            }),
    {
        match self.open_file_at(handle) {
            Some(f) => Some(f.key),
            None => None,
        }
    }

    /// The character device an open handle refers to, if any.
    pub fn handle_device(&self, handle: u16) -> (device: Option<CharDevice>)
        requires
            self.wf(),
        ensures
            device == (match self.file_at(handle) {
                Some(f) => match f.data {
                    OpenData::Device(d) => Some(d),
                    _ => None,
                },
                None => None,
            }),
    {
        match self.open_file_at(handle) {
            Some(f) => match &f.data {
                OpenData::Device(d) => Some(*d),
                _ => None,
            },
            None => None,
        }
    }

    /// Whether only the job file table changed.
    pub open spec fn same_but_files(&self, before: DiskController) -> bool {
        &&& self.drives == before.drives
        &&& self.current_drive == before.current_drive
        &&& self.emm_device == before.emm_device
        &&& self.next_group == before.next_group
    }

    // INT 21h, AH=3Eh: Close File
    pub fn close_file(&mut self, handle: u16) -> (closed: bool)
        requires
            old(self).wf(),
        ensures
            final(self).wf(),
            closed == old(self).file_at(handle) is Some,
            final(self).same_but_files(*old(self)),
            final(self).open_files@ == (if handle < HANDLE_LIMIT {
                old(self).open_files@.update(handle as int, None)
            } else {
                old(self).open_files@
            }),
    {
        if handle >= HANDLE_LIMIT {
            return false;
        }
        let open = self.open_files[handle as usize].is_some();
        self.open_files[handle as usize] = None;
        open
    }

    /// Close the files a terminating process opened, as DOS does on exit.
    pub fn close_process_files(&mut self, owner: u16)
        requires
            old(self).wf(),
        ensures
            final(self).wf(),
            final(self).same_but_files(*old(self)),
            final(self).open_files@ == closed_for(old(self).open_files@, owner),
    {
        let n: usize = self.open_files.len();
        let mut i: usize = 0;
        while i < n
            invariant
                i <= n == old(self).open_files@.len() == self.open_files@.len(),
                self.same_but_files(*old(self)),
                forall|j: int|
                    0 <= j < i ==> self.open_files@[j] == closed_for(
                        old(self).open_files@,
                        owner,
                    )[j],
                forall|j: int| i <= j < n ==> self.open_files@[j] == old(self).open_files@[j],
            decreases n - i,
        {
            let close = match &self.open_files[i] {
                Some(f) => f.owner == owner,
                None => false,
            };
            if close {
                self.open_files[i] = None;
            }
            i = i + 1;
        }
        assert(self.open_files@ =~= closed_for(old(self).open_files@, owner));
    }

    /// Close every open file, for when the shell is reloaded.
    pub fn close_all_files(&mut self)
        requires
            old(self).wf(),
        ensures
            final(self).wf(),
            final(self).same_but_files(*old(self)),
            forall|i: int| 0 <= i < HANDLE_LIMIT ==> (#[trigger] final(self).open_files@[i]) is None,
    {
        let n: usize = self.open_files.len();
        let mut i: usize = 0;
        while i < n
            invariant
                i <= n == self.open_files@.len() == HANDLE_LIMIT,
                self.same_but_files(*old(self)),
                forall|j: int| 0 <= j < i ==> (#[trigger] self.open_files@[j]) is None,
            decreases n - i,
        {
            self.open_files[i] = None;
            i = i + 1;
        }
    }

    /// Move the position that the handles of a group share.
    fn move_group(&mut self, group: u64, pos: u64)
        requires
            old(self).wf(),
        ensures
            final(self).wf(),
            final(self).same_but_files(*old(self)),
            final(self).open_files@ == moved_group(old(self).open_files@, group, pos),
    {
        let n: usize = self.open_files.len();
        let mut i: usize = 0;
        while i < n
            invariant
                i <= n == old(self).open_files@.len() == self.open_files@.len(),
                self.same_but_files(*old(self)),
                forall|j: int|
                    0 <= j < i ==> self.open_files@[j] == moved_group(
                        old(self).open_files@,
                        group,
                        pos,
                    )[j],
                forall|j: int| i <= j < n ==> self.open_files@[j] == old(self).open_files@[j],
            decreases n - i,
        {
            let taken = self.open_files[i].take();
            match taken {
                Some(f) => {
                    let mut f = f;
                    if f.group == group {
                        f.pos = pos;
                    }
                    self.open_files[i] = Some(f);
                },
                None => {},
            }
            i = i + 1;
        }
        assert(self.open_files@ =~= moved_group(old(self).open_files@, group, pos));
    }

    /// Where a read of a file held in memory ends.
    pub open spec fn read_end(len: int, pos: int, count: int) -> (int, int) {
        let start = if pos < len {
            pos
        } else {
            len
        };
        (
            start,
            if start + count < len {
                start + count
            } else {
                len
            },
        )
    }

    // INT 21h, AH=3Fh: Read from File. None leaves the reading to the
    // outside, and `advance` moves the position after it.
    pub fn read_file(&mut self, handle: u16, count: usize) -> (read: Result<Option<Vec<u8>>, u16>)
        requires
            old(self).wf(),
        ensures
            final(self).wf(),
            match old(self).file_at(handle) {
                None => read == Err::<Option<Vec<u8>>, u16>(0x06) && *final(self) == *old(self),
                Some(f) => match f.data {
                    OpenData::Memory(data) => {
                        let (start, end) = DiskController::read_end(
                            data@.len() as int,
                            f.pos as int,
                            count as int,
                        );
                        &&& read matches Ok(Some(bytes)) && bytes@ == data@.subrange(start, end)
                        &&& final(self).same_but_files(*old(self))
                        &&& final(self).open_files@ == moved_group(
                            old(self).open_files@,
                            f.group,
                            (f.pos + (end - start)) as u64,
                        )
                    },
                    OpenData::Device(_) => read matches Ok(Some(bytes)) && bytes@.len() == 0
                        && *final(self) == *old(self),
                    _ => read matches Ok(None) && *final(self) == *old(self),
                },
            },
    {
        let (bytes, group, pos): (Vec<u8>, u64, u64) = match self.open_file_at(handle) {
            None => {
                return Err(0x06);
            },
            Some(f) => match &f.data {
                OpenData::Memory(data) => {
                    let len: usize = data.len();
                    assert(data@.len() == len);
                    let start: usize = if f.pos < len as u64 {
                        f.pos as usize
                    } else {
                        len
                    };
                    let end: usize = if count < len - start {
                        start + count
                    } else {
                        len
                    };
                    let bytes = vstd::slice::slice_to_vec(
                        vstd::slice::slice_subrange(data.as_slice(), start, end),
                    );
                    assert(bytes@ =~= data@.subrange(start as int, end as int));
                    (bytes, f.group, f.pos + (end - start) as u64)
                },
                OpenData::Device(_) => {
                    return Ok(Some(Vec::new()));
                },
                _ => {
                    return Ok(None);
                },
            },
        };
        self.move_group(group, pos);
        Ok(Some(bytes))
    }

    /// The position moves on after the outside read or wrote `n` bytes of a
    /// file on an image.
    pub fn advance(&mut self, handle: u16, n: u64) -> (pos: Option<u64>)
        requires
            old(self).wf(),
            old(self).file_at(handle) matches Some(f) ==> f.pos + n <= u64::MAX,
        ensures
            final(self).wf(),
            match old(self).file_at(handle) {
                None => pos is None && *final(self) == *old(self),
                Some(f) => pos == Some((f.pos + n) as u64) && final(self).same_but_files(*old(self))
                    && final(self).open_files@ == moved_group(
                    old(self).open_files@,
                    f.group,
                    (f.pos + n) as u64,
                ),
            },
    {
        let (group, pos): (u64, u64) = match self.open_file_at(handle) {
            None => {
                return None;
            },
            Some(f) => (f.group, f.pos + n),
        };
        self.move_group(group, pos);
        Some(pos)
    }

    // INT 21h, AH=40h: Write to File. None leaves the writing to the outside.
    pub fn write_file(&self, handle: u16, len: usize) -> (written: Result<Option<u16>, u8>)
        requires
            self.wf(),
        ensures
            written == (match self.file_at(handle) {
                None => Err::<Option<u16>, u8>(0x06),
                Some(f) => match f.data {
                    OpenData::Memory(_) => Err(0x05),
                    OpenData::Image(..) => Err(0x05),
                    OpenData::Volume { write, .. } => if write {
                        Ok(None)
                    } else {
                        Err(0x05)
                    },
                    OpenData::Device(_) => Ok(Some((len % 0x1_0000) as u16)),
                    OpenData::Host => Ok(None),
                },
            }),
    {
        match self.open_file_at(handle) {
            None => Err(0x06),
            Some(f) => match &f.data {
                OpenData::Memory(_) => Err(0x05),
                OpenData::Image(..) => Err(0x05),
                OpenData::Volume { write, .. } => if *write {
                    Ok(None)
                } else {
                    Err(0x05)
                },
                OpenData::Device(_) => Ok(Some((len % 0x1_0000) as u16)),
                OpenData::Host => Ok(None),
            },
        }
    }

    /// Where a seek in a file of `len` bytes that isn't a host file leads:
    /// past the end is fine, before the start is not.
    pub open spec fn sought(len: u64, pos: u64, offset: i64, origin: u8) -> Result<u64, u16> {
        if origin > 2 {
            Err(0x01)
        } else {
            let base = if origin == 0 {
                0
            } else if origin == 1 {
                pos as i64
            } else {
                len as i64
            };
            if 0 <= base + offset <= i64::MAX {
                Ok((base + offset) as u64)
            } else {
                Err(0x19)
            }
        }
    }

    fn seek_in(len: u64, pos: u64, offset: i64, origin: u8) -> (at: Result<u64, u16>)
        ensures
            at == DiskController::sought(len, pos, offset, origin),
    {
        let base: i64 = match origin {
            0 => 0,
            1 => pos as i64,
            2 => len as i64,
            _ => {
                return Err(0x01);
            },
        };
        match base.checked_add(offset) {
            Some(at) => if at >= 0 {
                Ok(at as u64)
            } else {
                Err(0x19)
            },
            None => Err(0x19),
        }
    }

    // INT 21h, AH=42h: Seek. None leaves it to the host; `size` is the size
    // of a file on a disk image.
    pub fn seek_file(&mut self, handle: u16, offset: i64, origin: u8, size: u32) -> (sought: Result<
        Option<u64>,
        u16,
    >)
        requires
            old(self).wf(),
        ensures
            final(self).wf(),
            match old(self).file_at(handle) {
                None => sought == Err::<Option<u64>, u16>(0x06) && *final(self) == *old(self),
                Some(f) => match f.data {
                    OpenData::Host => sought == (if origin > 2 {
                        Err::<Option<u64>, u16>(0x01)
                    } else {
                        Ok(None)
                    }) && *final(self) == *old(self),
                    OpenData::Device(_) => sought == Ok::<Option<u64>, u16>(Some(0)) && *final(self)
                        == *old(self),
                    _ => {
                        let len = match f.data {
                            OpenData::Memory(data) => data@.len() as u64,
                            OpenData::Image(_, extent) => extent.size as u64,
                            _ => size as u64,
                        };
                        match DiskController::sought(len, f.pos, offset, origin) {
                            Err(e) => sought == Err::<Option<u64>, u16>(e) && *final(self) == *old(
                                self,
                            ),
                            Ok(at) => sought == Ok::<Option<u64>, u16>(Some(at))
                                && final(self).same_but_files(*old(self))
                                && final(self).open_files@ == moved_group(
                                old(self).open_files@,
                                f.group,
                                at,
                            ),
                        }
                    },
                },
            },
    {
        let (len, pos, group): (u64, u64, u64) = match self.open_file_at(handle) {
            None => {
                return Err(0x06);
            },
            Some(f) => match &f.data {
                OpenData::Host => {
                    if origin > 2 {
                        return Err(0x01);
                    }
                    return Ok(None);
                },
                OpenData::Device(_) => {
                    return Ok(Some(0));
                },
                OpenData::Memory(data) => {
                    assert(data@.len() == data.len());
                    (data.len() as u64, f.pos, f.group)
                },
                OpenData::Image(_, extent) => (extent.size as u64, f.pos, f.group),
                OpenData::Volume { .. } => (size as u64, f.pos, f.group),
            },
        };
        let at: u64 = DiskController::seek_in(len, pos, offset, origin)?;
        self.move_group(group, at);
        Ok(Some(at))
    }

    /// Whether a second handle was made of one.
    pub open spec fn duplicated(&self, before: DiskController, handle: u16, target: u16) -> bool {
        let f = before.file_at(handle)->0;
        &&& self.same_but_files(before)
        &&& target < HANDLE_LIMIT
        &&& self.file_at(target) matches Some(g) && g.drive == f.drive && g.owner == f.owner
            && g.key == f.key && g.group == f.group && g.pos == f.pos && same_data(f.data, g.data)
        &&& self.open_files@.len() == before.open_files@.len()
        &&& forall|i: int|
            0 <= i < before.open_files@.len() && i != target ==> self.open_files@[i]
                == before.open_files@[i]
    }

    /// INT 21h, AH=45h/46h: a second handle for the file behind `handle`,
    /// sharing its position. `new_handle` picks the number (AH=46h, which
    /// closes a file already open there). `cloned` is whether the host could
    /// duplicate its own handle of a host file.
    pub fn duplicate_handle(&mut self, handle: u16, new_handle: Option<u16>, cloned: bool) -> (
        duplicate: Result<u16, u8>)
        requires
            old(self).wf(),
        ensures
            final(self).wf(),
            duplicate is Err ==> *final(self) == *old(self),
            match old(self).file_at(handle) {
                None => duplicate == Err::<u16, u8>(0x06),
                Some(f) => if f.data is Host && !cloned {
                    duplicate == Err::<u16, u8>(0x04)
                } else {
                    match new_handle {
                        Some(h) => if h < HANDLE_LIMIT {
                            duplicate == Ok::<u16, u8>(h) && final(self).duplicated(
                                *old(self),
                                handle,
                                h,
                            )
                        } else {
                            duplicate == Err::<u16, u8>(0x06)
                        },
                        None => match free_slot(old(self).open_files@, FIRST_USER_HANDLE as int) {
                            Some(h) => duplicate == Ok::<u16, u8>(h) && final(self).duplicated(
                                *old(self),
                                handle,
                                h,
                            ),
                            None => duplicate == Err::<u16, u8>(0x04),
                        },
                    }
                },
            },
    {
        let copy = match self.open_file_at(handle) {
            None => {
                return Err(0x06);
            },
            Some(f) => {
                let data = match &f.data {
                    OpenData::Host => {
                        if !cloned {
                            return Err(0x04);
                        }
                        OpenData::Host
                    },
                    OpenData::Memory(data) => {
                        let bytes = vstd::slice::slice_to_vec(data.as_slice());
                        assert(bytes@ =~= data@);
                        OpenData::Memory(bytes)
                    },
                    OpenData::Image(image, extent) => OpenData::Image(*image, *extent),
                    OpenData::Volume { volume, at, write } => OpenData::Volume {
                        volume: *volume,
                        at: *at,
                        write: *write,
                    },
                    OpenData::Device(device) => OpenData::Device(*device),
                };
                OpenFile {
                    data,
                    drive: f.drive,
                    owner: f.owner,
                    key: f.key,
                    group: f.group,
                    pos: f.pos,
                }
            },
        };
        let target: u16 = match new_handle {
            Some(h) => {
                if h >= HANDLE_LIMIT {
                    return Err(0x06);
                }
                h
            },
            None => self.free_handle()?,
        };
        self.open_files[target as usize] = Some(copy);
        proof {
            let files = self.open_files@;
            let before = old(self).open_files@;
            assert forall|i: int, j: int|
                #![trigger files[i], files[j]]
                0 <= i < files.len() && 0 <= j < files.len() implies agree(files[i], files[j]) by {
                let a = if i == target {
                    handle as int
                } else {
                    i
                };
                let b = if j == target {
                    handle as int
                } else {
                    j
                };
                assert(agree(before[a], before[b]));
            }
        }
        Ok(target)
    }

    /// INT 21h, AX=5700h: the DOS time and date of a file's last change;
    /// those of a file that isn't held in memory are given.
    pub fn file_time(&self, handle: u16, outside: Result<(u16, u16), u8>) -> (stamp: Result<
        (u16, u16),
        u8,
    >)
        requires
            self.wf(),
        ensures
            stamp == (match self.file_at(handle) {
                None => Err::<(u16, u16), u8>(0x06),
                Some(f) => match f.data {
                    OpenData::Memory(_) => Ok((MEMORY_TIME, MEMORY_DATE)),
                    OpenData::Image(_, extent) => Ok((extent.time, extent.date)),
                    _ => outside,
                },
            }),
    {
        match self.open_file_at(handle) {
            None => Err(0x06),
            Some(f) => match &f.data {
                OpenData::Memory(_) => Ok((MEMORY_TIME, MEMORY_DATE)),
                OpenData::Image(_, extent) => Ok((extent.time, extent.date)),
                _ => outside,
            },
        }
    }

    /// INT 21h AX=5701h: where the time and date of an open file are to be
    /// set. Only files on disk images keep them; host files keep their own.
    pub fn set_file_time(&self, handle: u16) -> (at: Result<Option<(u64, u64)>, u8>)
        requires
            self.wf(),
        ensures
            at == (match self.file_at(handle) {
                None => Err::<Option<(u64, u64)>, u8>(0x06),
                Some(f) => match f.data {
                    OpenData::Volume { volume, at, .. } => Ok(Some((volume, at))),
                    _ => Ok(None),
                },
            }),
    {
        match self.open_file_at(handle) {
            None => Err(0x06),
            Some(f) => match &f.data {
                OpenData::Volume { volume, at, .. } => Ok(Some((*volume, *at))),
                _ => Ok(None),
            },
        }
    }
}

/// Whether two handles read and write the same.
pub open spec fn same_data(one: OpenData, other: OpenData) -> bool {
    match (one, other) {
        (OpenData::Memory(a), OpenData::Memory(b)) => a@ == b@,
        (OpenData::Memory(_), _) => false,
        _ => one == other,
    }
}

proof fn lemma_place_bounds(paths: Seq<Seq<char>>, path: Seq<char>, from: int)
    ensures
        crate::disk::memfs::place_of(paths, path, from) matches Some(i) ==> from <= i
            < paths.len(),
    decreases paths.len() - from,
{
    if 0 <= from < paths.len() && paths[from] != path {
        lemma_place_bounds(paths, path, from + 1);
    }
}

/// The DOS time of a time of day, in steps of two seconds.
pub fn dos_time(hour: u32, minute: u32, second: u32) -> (time: u16)
    requires
        hour < 24,
        minute < 60,
        second < 60,
    ensures
        time == hour * 2048 + minute * 32 + second / 2,
{
    (hour * 2048 + minute * 32 + second / 2) as u16
}

/// The DOS date of a day: years from 1980 in seven bits, and for the years
/// before the first.
pub fn dos_date(year: i32, month: u32, day: u32) -> (date: u16)
    requires
        1 <= month <= 12,
        1 <= day <= 31,
    ensures
        date == (if year < 1980 {
            0
        } else {
            (year - 1980) % 128 * 512
        }) + month * 32 + day,
{
    let years: u32 = if year < 1980 {
        0
    } else {
        (year - 1980) as u32 % 128
    };
    (years * 512 + month * 32 + day) as u16
}

/// The DOS date of a file in a directory listing, where a year before 1980
/// is the first day there is.
pub fn listed_date(year: i32, month: u32, day: u32) -> (date: u16)
    requires
        1 <= month <= 12,
        1 <= day <= 31,
    ensures
        date == (if year < 1980 {
            0x0021
        } else {
            (year - 1980) % 128 * 512 + month * 32 + day
        }),
{
    if year < 1980 {
        0x0021
    } else {
        dos_date(year, month, day)
    }
}

/// Opening alone never makes a file.
pub proof fn law_opening_makes_nothing(
    disk: DiskController,
    filename: Seq<char>,
    mode: u8,
    outside: Outside,
)
    ensures
        match disk.planned(filename, mode, false, outside) {
            Ok(Plan::Create { .. }) => false,
            Ok(Plan::Host { create, .. }) => !create,
            _ => true,
        },
{
}

/// What is opened on a drive that can't be written can't be written either.
pub proof fn law_read_only_media(
    disk: DiskController,
    filename: Seq<char>,
    mode: u8,
    create: bool,
    outside: Outside,
)
    ensures
        match disk.planned(filename, mode, create, outside) {
            Ok(Plan::Host { drive, write, create, .. }) => (write || create) ==> disk.can_write(
                drive,
            ),
            Ok(Plan::Volume { drive, write, .. }) => write ==> disk.can_write(drive),
            Ok(Plan::Create { drive, .. }) => disk.can_write(drive),
            _ => true,
        },
{
}

/// A new handle is the lowest that is free.
pub proof fn law_lowest_handle(files: Seq<Option<OpenFile>>, from: int, h: int)
    requires
        0 <= from,
        files.len() <= 0xFFFF,
        free_slot(files, from) matches Some(free) && from <= h < free,
    ensures
        files[h] is Some,
    decreases files.len() - from,
{
    if from < files.len() && files[from] is Some && h > from {
        law_lowest_handle(files, from + 1, h);
    }
}

/// Reads go on where the last one ended: two of them give what one of both
/// lengths gives.
pub proof fn law_reads_go_on(data: Seq<u8>, pos: int, a: int, b: int)
    requires
        0 <= pos,
        0 <= a,
        0 <= b,
    ensures
        ({
            let (s1, e1) = DiskController::read_end(data.len() as int, pos, a);
            let (s2, e2) = DiskController::read_end(data.len() as int, pos + (e1 - s1), b);
            let (s, e) = DiskController::read_end(data.len() as int, pos, a + b);
            data.subrange(s1, e1) + data.subrange(s2, e2) == data.subrange(s, e)
        }),
{
    let (s1, e1) = DiskController::read_end(data.len() as int, pos, a);
    let (s2, e2) = DiskController::read_end(data.len() as int, pos + (e1 - s1), b);
    let (s, e) = DiskController::read_end(data.len() as int, pos, a + b);
    assert(data.subrange(s1, e1) + data.subrange(s2, e2) =~= data.subrange(s, e));
}

/// Handles that share a position move together, and no other one moves.
pub proof fn law_positions_are_shared(files: Seq<Option<OpenFile>>, group: u64, pos: u64, i: int)
    requires
        0 <= i < files.len(),
        files[i] is Some,
    ensures
        moved_group(files, group, pos)[i] matches Some(f) && f.pos == (if files[i]->0.group
            == group {
            pos
        } else {
            files[i]->0.pos
        }),
{
}

/// A seek from the start goes to the offset, one from the current position
/// moves by the offset, one from the end counts from the end; each to where
/// the file's positions allow, which past the end they do and before the
/// start they don't.
pub proof fn law_seeks_count_from_their_origin(len: u64, pos: u64, offset: i64)
    requires
        len <= i64::MAX,
        pos <= i64::MAX,
    ensures
        DiskController::sought(len, pos, offset, 0) == (if offset >= 0 {
            Ok::<u64, u16>(offset as u64)
        } else {
            Err(0x19)
        }),
        DiskController::sought(len, pos, offset, 1) == (if 0 <= pos + offset <= i64::MAX {
            Ok::<u64, u16>((pos + offset) as u64)
        } else {
            Err(0x19)
        }),
        DiskController::sought(len, pos, offset, 2) == (if 0 <= len + offset <= i64::MAX {
            Ok::<u64, u16>((len + offset) as u64)
        } else {
            Err(0x19)
        }),
{
}

/// Seeking by nothing tells the position, two seeks from the current position
/// move as far as one by both offsets, and seeking back by what was moved
/// forth leads back.
pub proof fn law_seeks_add_up(len: u64, pos: u64, a: i64, b: i64)
    requires
        len <= i64::MAX,
        pos <= i64::MAX,
        0 <= pos + a <= i64::MAX,
        0 <= pos + a + b <= i64::MAX,
        i64::MIN <= a + b <= i64::MAX,
        a > i64::MIN,
    ensures
        DiskController::sought(len, pos, 0, 1) == Ok::<u64, u16>(pos),
        DiskController::sought(len, pos, 0, 2) == Ok::<u64, u16>(len),
        ({
            let first = DiskController::sought(len, pos, a, 1)->Ok_0;
            &&& DiskController::sought(len, pos, a, 1) is Ok
            &&& DiskController::sought(len, first, b, 1) == DiskController::sought(
                len,
                pos,
                (a + b) as i64,
                1,
            )
            &&& DiskController::sought(len, first, (-a) as i64, 1) == Ok::<u64, u16>(pos)
        }),
{
}

/// There are three origins: a seek from any other is refused as invalid.
pub proof fn law_three_origins(len: u64, pos: u64, offset: i64, origin: u8)
    ensures
        DiskController::sought(len, pos, offset, origin) == Err::<u64, u16>(0x01) <==> origin >= 3,
{
}

/// A read gives the bytes from the position on, as many as were asked for and
/// the file still has.
pub proof fn law_reads_give_what_follows(data: Seq<u8>, pos: int, count: int, i: int)
    requires
        0 <= pos,
        0 <= count,
    ensures
        ({
            let (s, e) = DiskController::read_end(data.len() as int, pos, count);
            let left = if pos < data.len() {
                data.len() - pos
            } else {
                0
            };
            &&& 0 <= s <= e <= data.len()
            &&& e - s == (if count < left {
                count
            } else {
                left
            })
            &&& 0 <= i < e - s ==> data.subrange(s, e)[i] == data[pos + i]
        }),
{
}

} // verus!
