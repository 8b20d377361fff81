//! The drives: what is mounted as each letter, and mounting it.

use vstd::prelude::*;

use crate::disk::files::{same_positions, OpenFile};
use crate::disk::kind::DriveKind;
use crate::disk::memfs::MemFs;
use crate::disk::names::{
    drive_letter, label_text, letter_of, normalize_label, DEFAULT_LABEL, DRIVE_C, DRIVE_Z,
    FLOPPY_DRIVES, HANDLE_LIMIT, LASTDRIVE,
};
use crate::diskimage::{Chs, ImageKind};
use crate::text::{decimal_text, push_decimal, same, texts, upper, uppercase};

verus! {

/// How a host directory or disk image is presented to DOS.
#[derive(Debug)]
pub struct MountOptions {
    pub kind: DriveKind,
    pub label: Option<String>,
    pub read_only: bool,
    /// The images after the first of a drive mounted from a list of them,
    /// which Ctrl+F4 steps through.
    pub more_images: Vec<String>,
    /// A hard disk image's geometry, where it can't be found from the
    /// image.
    pub geometry: Option<Chs>,
}

impl Default for MountOptions {
    fn default() -> (opts: Self)
        ensures
            opts.kind == DriveKind::HardDisk,
            opts.label is None,
            !opts.read_only,
            opts.more_images@.len() == 0,
            opts.geometry is None,
    {
        MountOptions {
            kind: DriveKind::HardDisk,
            label: None,
            read_only: false,
            more_images: Vec::new(),
            geometry: None,
        }
    }
}

/// A mount as it was asked for: the path as given and the options before
/// the label defaults and CD images' type, as the configuration file has it.
#[derive(Debug)]
pub struct MountSpec {
    pub drive: u8,
    pub path: String,
    pub opts: MountOptions,
}

/// Whether options are the same, their texts compared as texts.
pub open spec fn same_options(a: MountOptions, b: MountOptions) -> bool {
    &&& a.kind == b.kind
    &&& match (a.label, b.label) {
        (Some(x), Some(y)) => x@ == y@,
        (None, None) => true,
        _ => false,
    }
    &&& a.read_only == b.read_only
    &&& texts(a.more_images@) == texts(b.more_images@)
    &&& a.geometry == b.geometry
}

/// Whether mounts as they were asked for are the same.
pub open spec fn same_mount(a: Option<MountSpec>, b: Option<MountSpec>) -> bool {
    match (a, b) {
        (Some(x), Some(y)) => x.drive == y.drive && x.path@ == y.path@ && same_options(
            x.opts,
            y.opts,
        ),
        (None, None) => true,
        _ => false,
    }
}

fn copy_texts(from: &Vec<String>) -> (copy: Vec<String>)
    ensures
        texts(copy@) == texts(from@),
{
    let mut copy: Vec<String> = Vec::new();
    let mut i: usize = 0;
    while i < from.len()
        invariant
            i <= from@.len(),
            copy@.len() == i,
            forall|j: int| 0 <= j < i ==> #[trigger] copy@[j]@ == from@[j]@,
        decreases from.len() - i,
    {
        copy.push(from[i].clone());
        i = i + 1;
    }
    assert(texts(copy@) =~= texts(from@));
    copy
}

fn copy_mount(spec: &MountSpec) -> (copy: MountSpec)
    ensures
        same_mount(Some(copy), Some(*spec)),
{
    MountSpec {
        drive: spec.drive,
        path: spec.path.clone(),
        opts: MountOptions {
            kind: spec.opts.kind,
            label: match &spec.opts.label {
                Some(label) => Some(label.clone()),
                None => None,
            },
            read_only: spec.opts.read_only,
            more_images: copy_texts(&spec.opts.more_images),
            geometry: spec.opts.geometry,
        },
    }
}

/// The number of the CD image or the file system that is shown.
pub open spec fn shown_image(storage: Storage) -> Option<u64> {
    match storage {
        Storage::Host(_) => None,
        Storage::Tree { files, image } => image,
        Storage::Volume(volume) => Some(volume),
    }
}

/// What holds a drive's files.
#[derive(Debug)]
pub enum Storage {
    /// A host directory, acting as the drive's root.
    Host(String),
    /// A tree held in memory, whose files are either in memory too or on
    /// the CD image with this number.
    Tree { files: MemFs, image: Option<u64> },
    /// The FAT file system, known by this number, of a floppy or hard disk
    /// image.
    Volume(u64),
}

#[derive(Debug)]
pub struct Drive {
    pub kind: DriveKind,
    pub storage: Storage,
    /// DOS directory relative to root (e.g., "GAMES\DOOM")
    pub current_dir: String,
    pub label: String,
    pub read_only: bool,
    /// The mount as it was asked for.
    pub mount: Option<MountSpec>,
    /// The images of a drive mounted from images, and which one is in.
    pub images: Vec<String>,
    pub image: usize,
    /// Another disk went in since INT 13h last looked (AH=16h).
    pub media_changed: bool,
}

impl Drive {
    pub open spec fn wf(&self) -> bool {
        &&& self.storage matches Storage::Tree { files, .. } ==> files.wf()
        &&& self.images@.len() > 0 ==> self.image < self.images@.len()
    }
}

/// A disk or CD image in a drive: what the drive shows of it.
#[derive(Debug)]
pub struct Inserted {
    pub kind: DriveKind,
    pub storage: Storage,
    pub label: String,
    pub writable: bool,
}

impl Inserted {
    pub open spec fn wf(&self) -> bool {
        self.storage matches Storage::Tree { files, .. } ==> files.wf()
    }
}

/// An image file of a list: its name as shown, and its path on the host.
#[derive(Debug)]
pub struct ImageFile {
    pub shown: String,
    /// None if there is no such file; an error if its path can't be told.
    pub path: Option<Result<String, String>>,
}

/// What a mount found on the host.
#[derive(Debug)]
pub enum Target {
    /// Image files, and what opening the first came to.
    Images { images: Vec<ImageFile>, opened: Result<Inserted, String> },
    /// A directory, and its path.
    Directory(Result<String, String>),
    /// Neither, at the path shown.
    Missing(String),
}

impl Target {
    pub open spec fn wf(&self) -> bool {
        self matches Target::Images { images, opened } ==> images@.len() > 0 && (opened matches Ok(
            i,
        ) ==> i.wf())
    }
}

/// Public snapshot of a mounted drive.
#[derive(Debug)]
pub struct DriveInfo {
    pub drive: u8,
    pub kind: DriveKind,
    /// Host directory; `None` for the drives held in memory and images.
    pub root: Option<String>,
    /// The number of the CD image or the file system that the drive shows.
    pub image: Option<u64>,
    /// All the images of a drive mounted from a list of them, and which one
    /// it shows.
    pub images: Vec<String>,
    pub image_index: usize,
    pub label: String,
    /// True for CD-ROMs, `-ro` mounts and the drives held in memory.
    pub read_only: bool,
    pub current_dir: String,
    /// The mount as it was asked for (the path as given, the options before
    /// the label defaults and CD images' type), as the configuration file
    /// has it. None for the drives held in memory.
    pub mount: Option<MountSpec>,
}

impl DriveInfo {
    pub fn letter(&self) -> (letter: char)
        requires
            self.drive <= 0xBE,
        ensures
            letter == letter_of(self.drive),
    {
        drive_letter(self.drive)
    }
}

#[derive(Debug)]
pub struct DiskController {
    /// The job file table: a slot for each handle.
    pub open_files: Vec<Option<OpenFile>>,
    pub drives: Vec<Option<Drive>>,
    /// 0=A, ... 2=C, ... 25=Z
    pub current_drive: u8,
    /// Whether the expanded memory manager's EMMXXXX0 device is there.
    pub emm_device: bool,
    /// The number that tells the next file opened apart from the others.
    pub next_group: u64,
}

/// A message about a drive.
pub open spec fn about_drive(drive: u8, rest: Seq<char>) -> Seq<char> {
    "Drive "@ + seq![letter_of(drive)] + rest
}

pub(crate) fn drive_message(drive: u8, rest: &str) -> (text: String)
    requires
        drive < LASTDRIVE,
    ensures
        text@ == about_drive(drive, rest@),
{
    let mut text = String::from_str("Drive ");
    text.push(drive_letter(drive));
    text.append(rest);
    assert(text@ =~= about_drive(drive, rest@));
    text
}

/// The job file table with the files on a drive closed.
pub open spec fn closed_on(files: Seq<Option<OpenFile>>, drive: u8) -> Seq<Option<OpenFile>> {
    Seq::new(
        files.len(),
        |i: int|
            match files[i] {
                Some(f) => if f.drive == drive {
                    None
                } else {
                    files[i]
                },
                None => None,
            },
    )
}

/// The label of a drive: the one the mount asks for, or else a default.
pub open spec fn label_of(asked: Option<String>, default: Seq<char>) -> Seq<char> {
    match asked {
        Some(l) => if label_text(l@).len() > 0 {
            label_text(l@)
        } else {
            label_text(default)
        },
        None => label_text(default),
    }
}

/// The label of a drive: the one the mount asks for, or else `default`.
pub(crate) fn label_for(opts: &MountOptions, default: &str) -> (label: String)
    ensures
        label@ == label_of(opts.label, default@),
{
    match &opts.label {
        Some(l) => {
            let label = normalize_label(l.as_str());
            if label.as_str().unicode_len() > 0 {
                return label;
            }
        },
        None => {},
    }
    normalize_label(default)
}

/// Whether a CD image can't go in a drive, and what to say then.
pub open spec fn cd_refused(drive: u8) -> Option<Seq<char>> {
    if drive < FLOPPY_DRIVES {
        Some(about_drive(drive, ": is a floppy drive and can't be a CD-ROM"@))
    } else if drive == DRIVE_C {
        Some("Drive C: can't be a CD-ROM"@)
    } else {
        None
    }
}

/// Whether a CD image can go in `drive`: not in a floppy drive, and not
/// as C:.
pub fn check_cd_drive(drive: u8) -> (checked: Result<(), String>)
    requires
        drive < LASTDRIVE,
    ensures
        match (checked, cd_refused(drive)) {
            (Ok(_), None) => true,
            (Err(e), Some(m)) => e@ == m,
            _ => false,
        },
{
    if drive < FLOPPY_DRIVES {
        Err(drive_message(drive, ": is a floppy drive and can't be a CD-ROM"))
    } else if drive == DRIVE_C {
        Err(String::from_str("Drive C: can't be a CD-ROM"))
    } else {
        Ok(())
    }
}

/// A CD image in a drive: a disc without a name is just a CD, and one of
/// only audio tracks has no files.
pub fn cd_storage(image: u64, volume: Option<(MemFs, String)>) -> (inserted: Inserted)
    requires
        volume matches Some(v) ==> v.0.wf(),
    ensures
        inserted.wf(),
        inserted.kind == DriveKind::CdRom,
        !inserted.writable,
        inserted.storage matches Storage::Tree { files, image: i } && i == Some(image) && (
        match volume {
            Some(v) => files == v.0,
            None => files.paths@.len() == 0,
        }),
        inserted.label@ == (match volume {
            Some(v) => if v.1@.len() == 0 {
                "CDROM"@
            } else {
                v.1@
            },
            None => "AUDIO_CD"@,
        }),
{
    let (files, label): (MemFs, String) = match volume {
        Some((files, label)) => if label.as_str().unicode_len() == 0 {
            (files, String::from_str("CDROM"))
        } else {
            (files, label)
        },
        None => (MemFs::new(), String::from_str("AUDIO_CD")),
    };
    Inserted {
        kind: DriveKind::CdRom,
        storage: Storage::Tree { files, image: Some(image) },
        label,
        writable: false,
    }
}

/// A floppy or hard disk image in a drive, or why it can't be opened: a hard
/// disk's image is no floppy.
pub fn fat_storage(
    drive: u8,
    found: ImageKind,
    name: &str,
    opened: Result<(u64, String, bool, bool), String>,
) -> (inserted: Result<Inserted, String>)
    requires
        drive < LASTDRIVE,
    ensures
        match (inserted, opened) {
            (Ok(i), Ok((volume, label, floppy, writable))) => {
                &&& i.wf()
                &&& i.storage == Storage::Volume(volume)
                &&& i.label == label
                &&& i.kind == (if floppy {
                    DriveKind::Floppy
                } else {
                    DriveKind::HardDisk
                })
                &&& i.writable == writable
            },
            (Err(e), Err(f)) => e@ == (if found == ImageKind::HardDisk && drive < FLOPPY_DRIVES {
                about_drive(drive, ": is a floppy drive and can't hold a hard disk image"@)
            } else {
                name@ + ": "@ + f@
            }),
            _ => false,
        },
{
    match opened {
        Ok((volume, label, floppy, writable)) => Ok(
            Inserted {
                kind: if floppy {
                    DriveKind::Floppy
                } else {
                    DriveKind::HardDisk
                },
                storage: Storage::Volume(volume),
                label,
                writable,
            },
        ),
        Err(e) => if found == ImageKind::HardDisk && drive < FLOPPY_DRIVES {
            Err(drive_message(drive, ": is a floppy drive and can't hold a hard disk image"))
        } else {
            let mut text = String::from_str(name);
            text.append(": ");
            text.append(e.as_str());
            Err(text)
        },
    }
}

/// Whether a path is among some.
pub open spec fn among(paths: Seq<String>, path: Seq<char>) -> bool {
    exists|i: int| 0 <= i < paths.len() && #[trigger] paths[i]@ == path
}

fn contains(paths: &Vec<String>, path: &str) -> (yes: bool)
    ensures
        yes == among(paths@, path@),
{
    let mut i: usize = 0;
    while i < paths.len()
        invariant
            i <= paths@.len(),
            forall|j: int| 0 <= j < i ==> #[trigger] paths@[j]@ != path@,
        decreases paths.len() - i,
    {
        if same(paths[i].as_str(), path) {
            return true;
        }
        i = i + 1;
    }
    false
}

/// The first drive from `from` on, but one, that shows an image.
pub open spec fn holder(
    drives: Seq<Option<Drive>>,
    drive: u8,
    path: Seq<char>,
    from: int,
) -> Option<u8>
    decreases drives.len() - from,
{
    if from < 0 || from >= drives.len() {
        None
    } else if from != drive && (drives[from] matches Some(d) && among(d.images@, path)) {
        Some(from as u8)
    } else {
        holder(drives, drive, path, from + 1)
    }
}

/// Why an image of a list can't be mounted, if one can't.
pub open spec fn image_refused(
    drives: Seq<Option<Drive>>,
    drive: u8,
    images: Seq<ImageFile>,
    from: int,
) -> Option<Seq<char>>
    decreases images.len() - from,
{
    if from < 0 || from >= images.len() {
        None
    } else {
        match images[from].path {
            None => Some(images[from].shown@ + " is not a disk or CD image"@),
            Some(Err(e)) => Some(e@),
            Some(Ok(path)) => match holder(drives, drive, path@, 0) {
                Some(other) => Some(
                    images[from].shown@ + " is already mounted as "@ + seq![letter_of(other)]
                        + ":"@,
                ),
                None => image_refused(drives, drive, images, from + 1),
            },
        }
    }
}

impl DiskController {
    /// There is a slot for each letter and each handle; C:, Z: and the
    /// current drive are there; Z: is held in memory; and the files that share
    /// a position agree on it.
    pub open spec fn wf(&self) -> bool {
        &&& self.drives@.len() == LASTDRIVE
        &&& self.open_files@.len() == HANDLE_LIMIT
        &&& self.current_drive < LASTDRIVE
        &&& self.drives@[self.current_drive as int] is Some
        &&& self.drives@[DRIVE_C as int] is Some
        &&& self.drives@[DRIVE_Z as int] is Some
        &&& forall|i: int|
            0 <= i < LASTDRIVE ==> ((#[trigger] self.drives@[i]) matches Some(d) ==> d.wf())
        &&& same_positions(self.open_files@)
        &&& forall|i: int|
            0 <= i < HANDLE_LIMIT ==> ((#[trigger] self.open_files@[i]) matches Some(f) ==> f.group
                < self.next_group)
    }

    /// The drive with a number.
    pub open spec fn at(&self, drive: u8) -> Option<Drive> {
        if drive < LASTDRIVE {
            self.drives@[drive as int]
        } else {
            None
        }
    }

    /// Whether only one drive changed, with the files open on it closed.
    pub open spec fn replaced_in(&self, before: DiskController, drive: u8) -> bool {
        &&& self.drives@.len() == before.drives@.len()
        &&& forall|i: int|
            0 <= i < before.drives@.len() && i != drive ==> self.drives@[i] == before.drives@[i]
        &&& self.open_files@ == closed_on(before.open_files@, drive)
        &&& self.emm_device == before.emm_device
        &&& self.next_group == before.next_group
    }

    /// Whether only one drive changed, and no file was closed.
    pub open spec fn changed_in(&self, before: DiskController, drive: u8) -> bool {
        &&& self.drives@.len() == before.drives@.len()
        &&& forall|i: int|
            0 <= i < before.drives@.len() && i != drive ==> self.drives@[i] == before.drives@[i]
        &&& self.open_files == before.open_files
        &&& self.current_drive == before.current_drive
        &&& self.emm_device == before.emm_device
        &&& self.next_group == before.next_group
    }

    fn memory_drive(files: MemFs, label: &str) -> (drive: Drive)
        requires
            files.wf(),
        ensures
            drive.wf(),
            drive.kind == DriveKind::Virtual,
            drive.storage == (Storage::Tree { files, image: None }),
            drive.current_dir@.len() == 0,
            drive.label@ == label_text(label@),
            drive.read_only,
            drive.mount is None,
            drive.images@.len() == 0,
            !drive.media_changed,
    {
        Drive {
            kind: DriveKind::Virtual,
            storage: Storage::Tree { files, image: None },
            current_dir: String::new(),
            label: normalize_label(label),
            read_only: true,
            mount: None,
            images: Vec::new(),
            image: 0,
            media_changed: false,
        }
    }

    /// Creates the controller with C: backed by the host directory `root`,
    /// which was given as `given`, and the virtual Z: drive. C: and Z: are
    /// always present; everything else is mounted.
    pub fn new(root: String, given: String) -> (disk: Self)
        ensures
            disk.wf(),
            disk.current_drive == DRIVE_C,
            !disk.emm_device,
            forall|i: int| 0 <= i < HANDLE_LIMIT ==> (#[trigger] disk.open_files@[i]) is None,
            forall|i: int|
                0 <= i < LASTDRIVE && i != DRIVE_C && i != DRIVE_Z ==> (
                #[trigger] disk.drives@[i]) is None,
            disk.at(DRIVE_C) matches Some(c) && c.kind == DriveKind::HardDisk && c.storage
                == Storage::Host(root) && c.current_dir@.len() == 0 && c.label@ == DEFAULT_LABEL@
                && !c.read_only && c.images@.len() == 0 && (c.mount matches Some(m) && m.path
                == given),
            disk.at(DRIVE_Z) matches Some(z) && z.kind == DriveKind::Virtual && z.read_only && (
            z.storage matches Storage::Tree { files, .. } && texts(files.paths@) == seq![
                "COMMAND.COM"@,
            ] && files.nodes@[0]@ == crate::disk::memfs::NodeView::Bytes(
                Seq::new(5000, |i: int| 0x90u8),
            )),
    {
        let mut drives: Vec<Option<Drive>> = Vec::new();
        let mut i: u8 = 0;
        while i < LASTDRIVE
            invariant
                i <= LASTDRIVE,
                drives@.len() == i,
                forall|j: int| 0 <= j < i ==> (#[trigger] drives@[j]) is None,
            decreases LASTDRIVE - i,
        {
            drives.push(None);
            i = i + 1;
        }
        let mut open_files: Vec<Option<OpenFile>> = Vec::new();
        let mut h: u16 = 0;
        while h < HANDLE_LIMIT
            invariant
                h <= HANDLE_LIMIT,
                open_files@.len() == h,
                forall|j: int| 0 <= j < h ==> (#[trigger] open_files@[j]) is None,
            decreases HANDLE_LIMIT - h,
        {
            open_files.push(None);
            h = h + 1;
        }
        // A dummy COMMAND.COM on Z:
        let mut code: Vec<u8> = Vec::new();
        let mut k: usize = 0;
        while k < 5000
            invariant
                k <= 5000,
                code@.len() == k,
                forall|j: int| 0 <= j < k ==> code@[j] == 0x90,
            decreases 5000 - k,
        {
            code.push(0x90);
            k = k + 1;
        }
        assert(code@ =~= Seq::new(5000, |i: int| 0x90u8));
        let mut z_files = MemFs::new();
        z_files.insert("COMMAND.COM", code);
        proof {
            reveal_strlit("COMMAND.COM");
            assert(upper("COMMAND.COM"@) =~= "COMMAND.COM"@);
            assert(texts(z_files.paths@) =~= seq!["COMMAND.COM"@]);
        }
        drives[DRIVE_C as usize] = Some(
            Drive {
                kind: DriveKind::HardDisk,
                storage: Storage::Host(root),
                current_dir: String::new(),
                label: String::from_str(DEFAULT_LABEL),
                read_only: false,
                mount: Some(MountSpec { drive: DRIVE_C, path: given, opts: MountOptions::default() }),
                images: Vec::new(),
                image: 0,
                media_changed: false,
            },
        );
        drives[DRIVE_Z as usize] = Some(DiskController::memory_drive(z_files, DEFAULT_LABEL));
        DiskController { open_files, drives, current_drive: DRIVE_C, emm_device: false, next_group: 0 }
    }

    pub(crate) fn drive(&self, drive: u8) -> (found: Option<&Drive>)
        requires
            self.wf(),
        ensures
            match (found, self.at(drive)) {
                (Some(d), Some(e)) => *d == e && d.wf() && drive < LASTDRIVE,
                (None, None) => true,
                _ => false,
            },
    {
        if drive < LASTDRIVE {
            match &self.drives[drive as usize] {
                Some(d) => Some(d),
                None => None,
            }
        } else {
            None
        }
    }

    /// Host directory currently backing drive C:.
    pub fn root_path(&self) -> (root: &str)
        requires
            self.wf(),
        ensures
            root@ == (match self.drives@[DRIVE_C as int]->0.storage {
                Storage::Host(path) => path@,
                _ => ""@,
            }),
    {
        match self.drive(DRIVE_C) {
            Some(d) => match &d.storage {
                Storage::Host(path) => path.as_str(),
                _ => "",
            },
            None => "",
        }
    }

    fn close_drive_files(&mut self, drive: u8)
        requires
            old(self).wf(),
        ensures
            final(self).wf(),
            final(self).drives == old(self).drives,
            final(self).current_drive == old(self).current_drive,
            final(self).emm_device == old(self).emm_device,
            final(self).next_group == old(self).next_group,
            final(self).open_files@ == closed_on(old(self).open_files@, drive),
    {
        let n: usize = self.open_files.len();
        let mut i: usize = 0;
        while i < n
            invariant
                i <= n == old(self).open_files@.len() == self.open_files@.len(),
                self.drives == old(self).drives,
                self.current_drive == old(self).current_drive,
                self.emm_device == old(self).emm_device,
                self.next_group == old(self).next_group,
                forall|j: int|
                    0 <= j < i ==> self.open_files@[j] == closed_on(
                        old(self).open_files@,
                        drive,
                    )[j],
                forall|j: int| i <= j < n ==> self.open_files@[j] == old(self).open_files@[j],
            decreases n - i,
        {
            let close = match &self.open_files[i] {
                Some(f) => f.drive == drive,
                None => false,
            };
            if close {
                self.open_files[i] = None;
            }
            i = i + 1;
        }
        assert(self.open_files@ =~= closed_on(old(self).open_files@, drive));
    }

    /// Put a drive in place, closing the files open on what was there.
    fn insert_drive(&mut self, drive: u8, d: Drive)
        requires
            old(self).wf(),
            drive < LASTDRIVE,
            d.wf(),
        ensures
            final(self).wf(),
            final(self).replaced_in(*old(self), drive),
            final(self).current_drive == old(self).current_drive,
            final(self).at(drive) == Some(d),
    {
        self.close_drive_files(drive);
        self.drives[drive as usize] = Some(d);
    }

    /// Whether the letter, the type or what is there keeps a mount from being
    /// made, and what to say then.
    pub open spec fn mount_refused(&self, drive: u8, kind: DriveKind, replace: bool) -> Option<
        Seq<char>,
    > {
        if drive >= LASTDRIVE {
            Some("Invalid drive letter"@)
        } else if drive == DRIVE_Z || kind == DriveKind::Virtual {
            Some(about_drive(drive, ": is reserved"@))
        } else if self.at(drive) is Some && !replace {
            Some(about_drive(drive, ": is already mounted"@))
        } else if drive < FLOPPY_DRIVES && kind == DriveKind::CdRom {
            Some(about_drive(drive, ": is a floppy drive and can't be a CD-ROM"@))
        } else {
            None
        }
    }

    /// What a mount has to be checked for before the host is asked.
    pub fn check_mount(&self, drive: u8, kind: DriveKind, replace: bool) -> (checked: Result<
        (),
        String,
    >)
        requires
            self.wf(),
        ensures
            match (checked, self.mount_refused(drive, kind, replace)) {
                (Ok(_), None) => true,
                (Err(e), Some(m)) => e@ == m,
                _ => false,
            },
    {
        if drive >= LASTDRIVE {
            return Err(String::from_str("Invalid drive letter"));
        }
        if drive == DRIVE_Z || kind == DriveKind::Virtual {
            return Err(drive_message(drive, ": is reserved"));
        }
        if self.is_mounted(drive) && !replace {
            return Err(drive_message(drive, ": is already mounted"));
        }
        // A: and B: are floppies whatever the type asked for, but a CD
        // can't be one.
        if drive < FLOPPY_DRIVES && kind == DriveKind::CdRom {
            return Err(drive_message(drive, ": is a floppy drive and can't be a CD-ROM"));
        }
        Ok(())
    }

    /// The drive, other than one, that shows an image.
    fn image_holder(&self, drive: u8, path: &str) -> (other: Option<u8>)
        requires
            self.wf(),
        ensures
            other == holder(self.drives@, drive, path@, 0),
            other matches Some(d) ==> d < LASTDRIVE,
    {
        let mut i: u8 = 0;
        while i < LASTDRIVE
            invariant
                self.wf(),
                i <= LASTDRIVE,
                holder(self.drives@, drive, path@, 0) == holder(
                    self.drives@,
                    drive,
                    path@,
                    i as int,
                ),
            decreases LASTDRIVE - i,
        {
            if i != drive {
                if let Some(d) = &self.drives[i as usize] {
                    if contains(&d.images, path) {
                        return Some(i);
                    }
                }
            }
            i = i + 1;
        }
        None
    }

    fn check_images(&self, drive: u8, images: &Vec<ImageFile>) -> (paths: Result<
        Vec<String>,
        String,
    >)
        requires
            self.wf(),
        ensures
            match (paths, image_refused(self.drives@, drive, images@, 0)) {
                (Ok(p), None) => p@.len() == images@.len() && forall|i: int|
                    0 <= i < images@.len() ==> ((#[trigger] images@[i]).path matches Some(Ok(c))
                        && p@[i]@ == c@),
                (Err(e), Some(m)) => e@ == m,
                _ => false,
            },
    {
        let mut paths: Vec<String> = Vec::new();
        let mut i: usize = 0;
        while i < images.len()
            invariant
                self.wf(),
                i <= images@.len(),
                paths@.len() == i,
                forall|j: int|
                    0 <= j < i ==> ((#[trigger] images@[j]).path matches Some(Ok(c)) && paths@[j]@
                        == c@),
                image_refused(self.drives@, drive, images@, 0) == image_refused(
                    self.drives@,
                    drive,
                    images@,
                    i as int,
                ),
            decreases images.len() - i,
        {
            match &images[i].path {
                None => {
                    let mut text = String::from_str(images[i].shown.as_str());
                    text.append(" is not a disk or CD image");
                    return Err(text);
                },
                Some(Err(e)) => {
                    return Err(e.clone());
                },
                Some(Ok(path)) => {
                    // Two drives on one image would each think they know
                    // what's on it.
                    if let Some(other) = self.image_holder(drive, path.as_str()) {
                        let mut text = String::from_str(images[i].shown.as_str());
                        text.append(" is already mounted as ");
                        text.push(drive_letter(other));
                        text.append(":");
                        assert(text@ =~= images@[i as int].shown@ + " is already mounted as "@
                            + seq![letter_of(other)] + ":"@);
                        return Err(text);
                    }
                    paths.push(path.clone());
                },
            }
            i = i + 1;
        }
        Ok(paths)
    }

    /// Why a mount of what was found fails, if it does.
    pub open spec fn target_refused(&self, drive: u8, opts: MountOptions, target: Target) -> Option<
        Seq<char>,
    > {
        match target {
            Target::Images { images, opened } => match image_refused(
                self.drives@,
                drive,
                images@,
                0,
            ) {
                Some(m) => Some(m),
                None => match opened {
                    Ok(_) => None,
                    Err(e) => Some(e@),
                },
            },
            Target::Directory(path) => if opts.more_images@.len() > 0 {
                Some("Only disk and CD images can be mounted as a list"@)
            } else {
                match path {
                    Ok(_) => None,
                    Err(e) => Some(e@),
                }
            },
            Target::Missing(shown) => if opts.more_images@.len() > 0 {
                Some("Only disk and CD images can be mounted as a list"@)
            } else {
                Some(shown@ + " is not a directory or a disk or CD image"@)
            },
        }
    }

    /// Mount a host directory, or a disk or CD image, as `drive`: what the
    /// host has at `path` is the target. A list of images puts the first in,
    /// and Ctrl+F4 the next (`swap_image`). Unless `replace` is set, the drive
    /// must not already be mounted. Replacing closes the files open on it.
    /// On A: and B: a directory is a floppy whatever `opts.kind` says.
    pub fn mount(
        &mut self,
        drive: u8,
        path: &str,
        opts: MountOptions,
        replace: bool,
        target: Target,
    ) -> (mounted: Result<String, String>)
        requires
            old(self).wf(),
            target.wf(),
        ensures
            final(self).wf(),
            mounted is Err ==> *final(self) == *old(self),
            match old(self).mount_refused(drive, opts.kind, replace) {
                Some(m) => mounted matches Err(e) && e@ == m,
                None => match old(self).target_refused(drive, opts, target) {
                    Some(m) => mounted matches Err(e) && e@ == m,
                    None => mounted matches Ok(shown) && final(self).replaced_in(*old(self), drive)
                        && final(self).current_drive == old(self).current_drive && (final(self).at(
                        drive,
                    ) matches Some(d) && d.current_dir@.len() == 0 && d.image == 0 && (
                    d.mount matches Some(m) && m.drive == drive && m.path@ == path@ && m.opts
                        == opts) && (match target {
                        Target::Images { images, opened } => {
                            &&& d.kind == opened->Ok_0.kind
                            &&& d.storage == opened->Ok_0.storage
                            &&& d.label@ == label_of(opts.label, opened->Ok_0.label@)
                            &&& d.read_only == (opts.read_only || !opened->Ok_0.writable)
                            &&& d.media_changed
                            &&& d.images@.len() == images@.len()
                            &&& forall|i: int|
                                0 <= i < images@.len() ==> ((#[trigger] images@[i]).path matches Some(
                                    Ok(c),
                                ) && d.images@[i]@ == c@)
                            &&& shown@ == d.images@[0]@
                        },
                        Target::Directory(root) => {
                            &&& d.kind == (if drive < FLOPPY_DRIVES {
                                DriveKind::Floppy
                            } else {
                                opts.kind
                            })
                            &&& d.storage matches Storage::Host(r) && r@ == root->Ok_0@
                            &&& d.label@ == label_of(opts.label, DEFAULT_LABEL@)
                            &&& d.read_only == (opts.read_only || d.kind == DriveKind::CdRom)
                            &&& d.media_changed == (drive < FLOPPY_DRIVES)
                            &&& d.images@.len() == 0
                            &&& shown@ == root->Ok_0@
                        },
                        Target::Missing(_) => false,
                    })),
                },
            },
    {
        self.check_mount(drive, opts.kind, replace)?;
        let floppy_drive = drive < FLOPPY_DRIVES;
        match target {
            Target::Images { images, opened } => {
                let paths = self.check_images(drive, &images)?;
                let inserted = opened?;
                let label = label_for(&opts, inserted.label.as_str());
                let first = paths[0].clone();
                let read_only = opts.read_only || !inserted.writable;
                let d = Drive {
                    kind: inserted.kind,
                    storage: inserted.storage,
                    current_dir: String::new(),
                    label,
                    read_only,
                    mount: Some(MountSpec { drive, path: String::from_str(path), opts }),
                    images: paths,
                    image: 0,
                    media_changed: true,
                };
                self.insert_drive(drive, d);
                Ok(first)
            },
            Target::Directory(root) => {
                if opts.more_images.len() > 0 {
                    return Err(
                        String::from_str("Only disk and CD images can be mounted as a list"),
                    );
                }
                let root = root?;
                let kind = if floppy_drive {
                    DriveKind::Floppy
                } else {
                    opts.kind
                };
                let shown = root.clone();
                let label = label_for(&opts, DEFAULT_LABEL);
                let read_only = opts.read_only || kind == DriveKind::CdRom;
                let d = Drive {
                    kind,
                    storage: Storage::Host(root),
                    current_dir: String::new(),
                    label,
                    read_only,
                    mount: Some(MountSpec { drive, path: String::from_str(path), opts }),
                    images: Vec::new(),
                    image: 0,
                    media_changed: floppy_drive,
                };
                self.insert_drive(drive, d);
                Ok(shown)
            },
            Target::Missing(shown) => {
                if opts.more_images.len() > 0 {
                    return Err(
                        String::from_str("Only disk and CD images can be mounted as a list"),
                    );
                }
                let mut text = String::from_str(shown.as_str());
                text.append(" is not a directory or a disk or CD image");
                Err(text)
            },
        }
    }

    pub fn is_mounted(&self, drive: u8) -> (yes: bool)
        requires
            self.wf(),
        ensures
            yes == self.at(drive) is Some,
    {
        self.drive(drive).is_some()
    }

    /// Whether an image held in memory can't be mounted as a drive, and what
    /// to say then.
    pub open spec fn image_drive_refused(drive: u8, kind: DriveKind) -> Option<Seq<char>> {
        if drive >= LASTDRIVE {
            Some("Invalid drive letter"@)
        } else if drive == DRIVE_Z || kind == DriveKind::Virtual {
            Some(about_drive(drive, ": is reserved"@))
        } else {
            None
        }
    }

    /// Whether an image held in memory can be mounted as `drive`.
    fn check_image_drive(drive: u8, opts: &MountOptions) -> (checked: Result<(), String>)
        ensures
            match (checked, DiskController::image_drive_refused(drive, opts.kind)) {
                (Ok(_), None) => true,
                (Err(e), Some(m)) => e@ == m,
                _ => false,
            },
    {
        if drive >= LASTDRIVE {
            return Err(String::from_str("Invalid drive letter"));
        }
        if drive == DRIVE_Z || opts.kind == DriveKind::Virtual {
            return Err(drive_message(drive, ": is reserved"));
        }
        Ok(())
    }

    /// Why an image held in memory can't be mounted, if it can't.
    pub open spec fn memory_image_refused(
        drive: u8,
        kind: DriveKind,
        found: Result<ImageKind, String>,
        opened: Result<Inserted, String>,
    ) -> Option<Seq<char>> {
        match DiskController::image_drive_refused(drive, kind) {
            Some(m) => Some(m),
            None => match found {
                Err(e) => Some(e@),
                Ok(found) => if found == ImageKind::Cd && cd_refused(drive) is Some {
                    cd_refused(drive)
                } else {
                    match opened {
                        Err(e) => Some(e@),
                        Ok(_) => None,
                    }
                },
            },
        }
    }

    /// Whether an image is in a drive, mounted from memory.
    pub open spec fn image_in(
        &self,
        drive: u8,
        label: Option<String>,
        read_only: bool,
        inserted: Inserted,
    ) -> bool {
        &&& self.at(drive) matches Some(d)
        &&& d.kind == inserted.kind
        &&& d.storage == inserted.storage
        &&& d.current_dir@.len() == 0
        &&& d.label@ == label_of(label, inserted.label@)
        &&& d.read_only == (read_only || !inserted.writable)
        &&& d.mount is None
        &&& d.images@.len() == 0
        &&& d.media_changed
    }

    /// Put an image held in memory in `drive`, closing the files open on
    /// what was there.
    fn insert_image_drive(&mut self, drive: u8, inserted: Inserted, opts: &MountOptions)
        requires
            old(self).wf(),
            drive < LASTDRIVE,
            inserted.wf(),
        ensures
            final(self).wf(),
            final(self).replaced_in(*old(self), drive),
            final(self).current_drive == old(self).current_drive,
            final(self).image_in(drive, opts.label, opts.read_only, inserted),
    {
        let label = label_for(opts, inserted.label.as_str());
        let d = Drive {
            kind: inserted.kind,
            storage: inserted.storage,
            current_dir: String::new(),
            label,
            read_only: opts.read_only || !inserted.writable,
            mount: None,
            images: Vec::new(),
            image: 0,
            media_changed: true,
        };
        self.insert_drive(drive, d);
    }

    /// Mount a disk or CD image held in memory as `drive`, replacing what is
    /// there, as `mount` mounts an image file: `found` is which kind of image
    /// it is (see `diskimage::detect_memory`), and `opened` what opening it
    /// came to.
    pub fn mount_memory_image(
        &mut self,
        drive: u8,
        opts: &MountOptions,
        found: Result<ImageKind, String>,
        opened: Result<Inserted, String>,
    ) -> (mounted: Result<(), String>)
        requires
            old(self).wf(),
            opened matches Ok(i) ==> i.wf(),
        ensures
            final(self).wf(),
            match (mounted, DiskController::memory_image_refused(drive, opts.kind, found, opened)) {
                (Err(e), Some(m)) => e@ == m && *final(self) == *old(self),
                (Ok(_), None) => final(self).replaced_in(*old(self), drive)
                    && final(self).current_drive == old(self).current_drive && final(self).image_in(
                    drive,
                    opts.label,
                    opts.read_only,
                    opened->Ok_0,
                ),
                _ => false,
            },
    {
        DiskController::check_image_drive(drive, opts)?;
        let found = found?;
        if found == ImageKind::Cd {
            check_cd_drive(drive)?;
        }
        let inserted = opened?;
        self.insert_image_drive(drive, inserted, opts);
        Ok(())
    }

    /// Mount a floppy or hard disk image as `drive`, replacing what is
    /// there: one made in memory (`DiskImage::blank_hard_disk`).
    pub fn mount_disk_image(
        &mut self,
        drive: u8,
        opts: &MountOptions,
        opened: Result<Inserted, String>,
    ) -> (mounted: Result<(), String>)
        requires
            old(self).wf(),
            opened matches Ok(i) ==> i.wf(),
        ensures
            final(self).wf(),
            match (
                mounted,
                DiskController::memory_image_refused(
                    drive,
                    opts.kind,
                    Ok(ImageKind::HardDisk),
                    opened,
                ),
            ) {
                (Err(e), Some(m)) => e@ == m && *final(self) == *old(self),
                (Ok(_), None) => final(self).replaced_in(*old(self), drive)
                    && final(self).current_drive == old(self).current_drive && final(self).image_in(
                    drive,
                    opts.label,
                    opts.read_only,
                    opened->Ok_0,
                ),
                _ => false,
            },
    {
        self.mount_memory_image(drive, opts, Ok(ImageKind::HardDisk), opened)
    }

    /// The number of the next image of a drive mounted from a list of them:
    /// after the last the first again.
    pub open spec fn image_after(&self, drive: u8) -> Option<int> {
        match self.at(drive) {
            Some(d) => if d.images@.len() > 1 {
                Some(
                    if d.image + 1 < d.images@.len() {
                        d.image + 1
                    } else {
                        0
                    },
                )
            } else {
                None
            },
            None => None,
        }
    }

    /// The number of the image that `swap_image` puts in a drive next.
    pub fn next_image(&self, drive: u8) -> (next: Option<usize>)
        requires
            self.wf(),
        ensures
            match (next, self.image_after(drive)) {
                (Some(n), Some(i)) => n == i && n < self.at(drive)->0.images@.len(),
                (None, None) => true,
                _ => false,
            },
    {
        match self.drive(drive) {
            Some(d) => if d.images.len() > 1 {
                let n: usize = d.images.len();
                assert(d.images@.len() == n);
                if d.image + 1 < n {
                    Some(d.image + 1)
                } else {
                    Some(0)
                }
            } else {
                None
            },
            None => None,
        }
    }

    /// Why the next image can't go in a drive, if it can't.
    pub open spec fn swap_refused(&self, drive: u8, opened: Result<Inserted, String>) -> Option<
        Seq<char>,
    > {
        match opened {
            Err(e) => Some(e@),
            Ok(inserted) => {
                let d = self.at(drive)->0;
                if inserted.kind != d.kind {
                    Some(
                        d.images@[self.image_after(drive)->0]@ + " can't go in drive "@
                            + seq![letter_of(drive)] + ":, which is a "@ + d.kind.spec_name(),
                    )
                } else {
                    None
                }
            },
        }
    }

    /// What is said when an image went in.
    pub open spec fn swap_message(&self, drive: u8, name: Seq<char>) -> Seq<char> {
        about_drive(drive, ": disk "@) + decimal_text((self.image_after(drive)->0 + 1) as nat)
            + " of "@ + decimal_text(self.at(drive)->0.images@.len()) + ": "@ + name
    }

    /// Put the next image in a drive mounted from a list of them, as
    /// Ctrl+F4 does: `opened` is what opening it came to, and `name` its
    /// file's name. Files open on the drive keep reading the disk they were
    /// opened on, and the current directory stays if the new disk has it,
    /// which `has_dir` says of a disk image. Returns what changed, or None for
    /// a drive with one image or none.
    pub fn swap_image(
        &mut self,
        drive: u8,
        opened: Result<Inserted, String>,
        has_dir: bool,
        name: &str,
    ) -> (swapped: Result<Option<String>, String>)
        requires
            old(self).wf(),
            opened matches Ok(i) ==> i.wf(),
            old(self).at(drive) matches Some(d) ==> (d.images@.len() > 1 ==> d.mount is Some),
        ensures
            final(self).wf(),
            match old(self).image_after(drive) {
                None => swapped matches Ok(None) && *final(self) == *old(self),
                Some(next) => match old(self).swap_refused(drive, opened) {
                    Some(m) => swapped matches Err(e) && e@ == m && *final(self) == *old(self),
                    None => {
                        let inserted = opened->Ok_0;
                        let was = old(self).at(drive)->0;
                        &&& swapped matches Ok(Some(text)) && text@ == old(self).swap_message(
                            drive,
                            name@,
                        )
                        &&& final(self).changed_in(*old(self), drive)
                        &&& final(self).at(drive) matches Some(d) && d.storage == inserted.storage
                            && d.kind == was.kind && d.image == next && d.label@ == label_of(
                            was.mount->0.opts.label,
                            inserted.label@,
                        ) && d.read_only == (was.mount->0.opts.read_only || !inserted.writable)
                            && d.media_changed && d.mount == was.mount && d.images == was.images
                            && d.current_dir@ == (if (match inserted.storage {
                            Storage::Tree { files, .. } => files.has_dir(
                                crate::disk::paths::capital_path(
                                    crate::disk::paths::components(
                                        was.current_dir@,
                                        crate::disk::paths::slashed("\\"@ + was.current_dir@),
                                    ),
                                ),
                            ),
                            _ => has_dir,
                        }) {
                            was.current_dir@
                        } else {
                            Seq::empty()
                        })
                    },
                },
            },
    {
        let next: usize = match self.next_image(drive) {
            Some(n) => n,
            None => {
                return Ok(None);
            },
        };
        let inserted = opened?;
        let kind = match self.drive(drive) {
            Some(d) => d.kind,
            None => {
                return Ok(None);
            },
        };
        if kind != inserted.kind {
            let mut text = match self.drive(drive) {
                Some(d) => d.images[next].clone(),
                None => String::new(),
            };
            text.append(" can't go in drive ");
            text.push(drive_letter(drive));
            text.append(":, which is a ");
            text.append(kind.name());
            assert(text@ =~= self.swap_refused(drive, Ok(inserted))->0);
            return Err(text);
        }
        let ghost before = *self;
        let ghost was = self.at(drive)->0;
        let count: usize = self.put_image(drive, next, inserted);
        let mut current = String::new();
        current.push(drive_letter(drive));
        current.append(":\\");
        match self.drive(drive) {
            Some(d) => current.append(d.current_dir.as_str()),
            None => {},
        }
        proof {
            reveal_strlit(":\\");
            reveal_strlit("\\");
            let path = seq![letter_of(drive)] + ":\\"@ + was.current_dir@;
            assert(current@ =~= path);
            crate::disk::paths::lemma_rooted(*self, drive, was.current_dir@);
        }
        if !self.is_directory(current.as_str(), has_dir) {
            self.enter_directory(drive, String::new());
        }
        let mut text = drive_message(drive, ": disk ");
        push_decimal(&mut text, next as u64 + 1, 0, ' ');
        text.append(" of ");
        push_decimal(&mut text, count as u64, 0, ' ');
        text.append(": ");
        text.append(name);
        proof {
            assert(text@ =~= before.swap_message(drive, name@));
        }
        Ok(Some(text))
    }

    /// Put an image of a drive's list in it.
    fn put_image(&mut self, drive: u8, next: usize, inserted: Inserted) -> (count: usize)
        requires
            old(self).wf(),
            drive < LASTDRIVE,
            old(self).at(drive) matches Some(d) && next < d.images@.len() && d.mount is Some,
            inserted.wf(),
        ensures
            final(self).wf(),
            final(self).changed_in(*old(self), drive),
            count == old(self).at(drive)->0.images@.len(),
            ({
                let was = old(self).at(drive)->0;
                final(self).at(drive) matches Some(d) && d.storage == inserted.storage && d.kind
                    == was.kind && d.image == next && d.label@ == label_of(
                    was.mount->0.opts.label,
                    inserted.label@,
                ) && d.read_only == (was.mount->0.opts.read_only || !inserted.writable)
                    && d.media_changed && d.mount == was.mount && d.images == was.images
                    && d.current_dir == was.current_dir
            }),
    {
        let taken = self.drives[drive as usize].take();
        match taken {
            Some(d) => {
                let mut d = d;
                match &d.mount {
                    Some(m) => {
                        d.label = label_for(&m.opts, inserted.label.as_str());
                        d.read_only = m.opts.read_only || !inserted.writable;
                    },
                    None => {},
                }
                d.storage = inserted.storage;
                d.image = next;
                d.media_changed = true;
                let count: usize = d.images.len();
                self.drives[drive as usize] = Some(d);
                count
            },
            None => 0,
        }
    }

    /// Mount `files` as the read-only drive `drive`, which must not be
    /// mounted yet. C: and Z: are taken.
    pub fn mount_memory(&mut self, drive: u8, files: MemFs, label: &str) -> (mounted: Result<
        (),
        String,
    >)
        requires
            old(self).wf(),
            files.wf(),
        ensures
            final(self).wf(),
            if drive >= LASTDRIVE || drive == DRIVE_C || drive == DRIVE_Z {
                mounted matches Err(e) && *final(self) == *old(self) && e@ == about_drive(
                    if drive >= LASTDRIVE {
                        (LASTDRIVE - 1) as u8
                    } else {
                        drive
                    },
                    ": is reserved"@,
                )
            } else if old(self).at(drive) is Some {
                mounted matches Err(e) && *final(self) == *old(self) && e@ == about_drive(
                    drive,
                    ": is already mounted"@,
                )
            } else {
                &&& mounted is Ok
                &&& final(self).changed_in(*old(self), drive)
                &&& final(self).at(drive) matches Some(d) && d.kind == DriveKind::Virtual
                    && d.storage == (Storage::Tree { files, image: None }) && d.label@ == label_text(
                    label@,
                ) && d.read_only && d.mount is None && d.current_dir@.len() == 0
            },
    {
        if drive >= LASTDRIVE {
            return Err(drive_message(LASTDRIVE - 1, ": is reserved"));
        }
        if drive == DRIVE_C || drive == DRIVE_Z {
            return Err(drive_message(drive, ": is reserved"));
        }
        if self.is_mounted(drive) {
            return Err(drive_message(drive, ": is already mounted"));
        }
        self.drives[drive as usize] = Some(DiskController::memory_drive(files, label));
        Ok(())
    }

    /// Unmount `drive`, closing its open files. C: and Z: cannot be removed.
    /// If it was the current drive, C: becomes current.
    pub fn unmount(&mut self, drive: u8) -> (unmounted: Result<(), String>)
        requires
            old(self).wf(),
        ensures
            final(self).wf(),
            if old(self).at(drive) is None {
                unmounted matches Err(e) && e@ == "Drive not mounted"@ && *final(self) == *old(self)
            } else if drive == DRIVE_C || drive == DRIVE_Z {
                unmounted matches Err(e) && e@ == about_drive(drive, ": cannot be unmounted"@)
                    && *final(self) == *old(self)
            } else {
                &&& unmounted is Ok
                &&& final(self).replaced_in(*old(self), drive)
                &&& final(self).at(drive) is None
                &&& final(self).current_drive == (if old(self).current_drive == drive {
                    DRIVE_C
                } else {
                    old(self).current_drive
                })
            },
    {
        if !self.is_mounted(drive) {
            return Err(String::from_str("Drive not mounted"));
        }
        if drive == DRIVE_C || drive == DRIVE_Z {
            return Err(drive_message(drive, ": cannot be unmounted"));
        }
        self.close_drive_files(drive);
        if self.current_drive == drive {
            self.current_drive = DRIVE_C;
        }
        self.drives[drive as usize] = None;
        Ok(())
    }

    pub fn drive_kind(&self, drive: u8) -> (kind: Option<DriveKind>)
        requires
            self.wf(),
        ensures
            kind == (match self.at(drive) {
                Some(d) => Some(d.kind),
                None => None,
            }),
    {
        match self.drive(drive) {
            Some(d) => Some(d.kind),
            None => None,
        }
    }

    /// Whether a drive is there and can be written.
    pub open spec fn can_write(&self, drive: u8) -> bool {
        self.at(drive) matches Some(d) && !d.read_only
    }

    pub fn is_writable(&self, drive: u8) -> (yes: bool)
        requires
            self.wf(),
        ensures
            yes == self.can_write(drive),
    {
        match self.drive(drive) {
            Some(d) => !d.read_only,
            None => false,
        }
    }

    pub fn volume_label(&self, drive: u8) -> (label: Option<&str>)
        requires
            self.wf(),
        ensures
            match (label, self.at(drive)) {
                (Some(l), Some(d)) => l@ == d.label@,
                (None, None) => true,
                _ => false,
            },
    {
        match self.drive(drive) {
            Some(d) => Some(d.label.as_str()),
            None => None,
        }
    }

    /// The number of the CD image a drive shows.
    pub fn cd_image(&self, drive: u8) -> (image: Option<u64>)
        requires
            self.wf(),
        ensures
            image == (match self.at(drive) {
                Some(d) => match d.storage {
                    Storage::Tree { image, .. } => image,
                    _ => None,
                },
                None => None,
            }),
    {
        match self.drive(drive) {
            Some(d) => match &d.storage {
                Storage::Tree { image, .. } => *image,
                _ => None,
            },
            None => None,
        }
    }

    /// The number of the file system of a drive mounted from a disk image.
    pub open spec fn volume_at(&self, drive: u8) -> Option<u64> {
        match self.at(drive) {
            Some(d) => match d.storage {
                Storage::Volume(volume) => Some(volume),
                _ => None,
            },
            None => None,
        }
    }

    /// The number of the file system of a drive mounted from a disk image.
    pub fn fat_volume(&self, drive: u8) -> (volume: Option<u64>)
        requires
            self.wf(),
        ensures
            volume == self.volume_at(drive),
    {
        match self.drive(drive) {
            Some(d) => match &d.storage {
                Storage::Volume(volume) => Some(*volume),
                _ => None,
            },
            None => None,
        }
    }

    /// Whether another disk went in `drive` since the last time this was
    /// asked (INT 13h AH=16h's disk change line).
    pub fn take_media_changed(&mut self, drive: u8) -> (changed: bool)
        requires
            old(self).wf(),
        ensures
            final(self).wf(),
            changed == (old(self).at(drive) matches Some(d) && d.media_changed),
            final(self).changed_in(*old(self), drive),
            match (old(self).at(drive), final(self).at(drive)) {
                (Some(was), Some(is)) => is == (Drive { media_changed: false, ..was }),
                (None, None) => true,
                _ => false,
            },
    {
        if drive >= LASTDRIVE {
            return false;
        }
        let taken = self.drives[drive as usize].take();
        match taken {
            Some(d) => {
                let mut d = d;
                let changed = d.media_changed;
                d.media_changed = false;
                self.drives[drive as usize] = Some(d);
                changed
            },
            None => false,
        }
    }

    /// Whether an info tells of a drive.
    pub open spec fn tells_of(&self, info: DriveInfo, drive: u8) -> bool {
        &&& self.at(drive) matches Some(d)
        &&& info.drive == drive
        &&& info.kind == d.kind
        &&& match (info.root, d.storage) {
            (Some(r), Storage::Host(s)) => r@ == s@,
            (None, Storage::Host(_)) => false,
            (Some(_), _) => false,
            (None, _) => true,
        }
        &&& info.image == shown_image(d.storage)
        &&& texts(info.images@) == texts(d.images@)
        &&& info.image_index == d.image
        &&& info.label@ == d.label@
        &&& info.read_only == d.read_only
        &&& info.current_dir@ == upper(d.current_dir@)
        &&& same_mount(info.mount, d.mount)
    }

    pub fn drive_info(&self, drive: u8) -> (info: Option<DriveInfo>)
        requires
            self.wf(),
        ensures
            match info {
                Some(i) => self.tells_of(i, drive),
                None => self.at(drive) is None,
            },
    {
        match self.drive(drive) {
            Some(d) => {
                let images = copy_texts(&d.images);
                Some(
                    DriveInfo {
                        drive,
                        kind: d.kind,
                        root: match &d.storage {
                            Storage::Host(root) => Some(root.clone()),
                            _ => None,
                        },
                        image: match &d.storage {
                            Storage::Host(_) => None,
                            Storage::Tree { image, .. } => *image,
                            Storage::Volume(volume) => Some(*volume),
                        },
                        images,
                        image_index: d.image,
                        label: d.label.clone(),
                        read_only: d.read_only,
                        current_dir: uppercase(d.current_dir.as_str()),
                        mount: match &d.mount {
                            Some(spec) => Some(copy_mount(spec)),
                            None => None,
                        },
                    },
                )
            },
            None => None,
        }
    }

    /// The numbers of the drives below `n` that meet a condition.
    pub open spec fn drives_below(&self, n: int, kind: Option<DriveKind>) -> Seq<u8>
        decreases n,
    {
        if n <= 0 {
            Seq::empty()
        } else {
            let before = self.drives_below(n - 1, kind);
            match self.at((n - 1) as u8) {
                Some(d) => if kind is None || kind == Some(d.kind) {
                    before.push((n - 1) as u8)
                } else {
                    before
                },
                None => before,
            }
        }
    }

    /// The drives there are, in the order of their letters.
    pub fn mounted_drives(&self) -> (infos: Vec<DriveInfo>)
        requires
            self.wf(),
        ensures
            infos@.len() == self.drives_below(LASTDRIVE as int, None).len(),
            forall|i: int|
                0 <= i < infos@.len() ==> self.tells_of(
                    #[trigger] infos@[i],
                    self.drives_below(LASTDRIVE as int, None)[i],
                ),
    {
        let mut infos: Vec<DriveInfo> = Vec::new();
        let mut d: u8 = 0;
        while d < LASTDRIVE
            invariant
                self.wf(),
                d <= LASTDRIVE,
                infos@.len() == self.drives_below(d as int, None).len(),
                forall|i: int|
                    0 <= i < infos@.len() ==> self.tells_of(
                        #[trigger] infos@[i],
                        self.drives_below(d as int, None)[i],
                    ),
            decreases LASTDRIVE - d,
        {
            if let Some(info) = self.drive_info(d) {
                infos.push(info);
            }
            d = d + 1;
        }
        infos
    }

    /// Mounted drives of the given kind, in drive-letter order.
    pub fn drives_of_kind(&self, kind: DriveKind) -> (drives: Vec<u8>)
        requires
            self.wf(),
        ensures
            drives@ == self.drives_below(LASTDRIVE as int, Some(kind)),
    {
        let mut drives: Vec<u8> = Vec::new();
        let mut d: u8 = 0;
        while d < LASTDRIVE
            invariant
                self.wf(),
                d <= LASTDRIVE,
                drives@ == self.drives_below(d as int, Some(kind)),
            decreases LASTDRIVE - d,
        {
            if let Some(k) = self.drive_kind(d) {
                if k == kind {
                    drives.push(d);
                }
            }
            d = d + 1;
        }
        drives
    }

    /// Floppy drives the BIOS reports: one for A:, two for B: even with A:
    /// empty, as a machine with two drives and one disk.
    pub fn floppy_units(&self) -> (units: u8)
        requires
            self.wf(),
        ensures
            units == (if self.at(1) matches Some(b) && b.kind == DriveKind::Floppy {
                2int
            } else if self.at(0) matches Some(a) && a.kind == DriveKind::Floppy {
                1
            } else {
                0
            }),
    {
        let mut d: u8 = FLOPPY_DRIVES;
        while d > 0
            invariant
                self.wf(),
                d <= FLOPPY_DRIVES,
                d <= 1 ==> !(self.at(1) matches Some(b) && b.kind == DriveKind::Floppy),
                d <= 0 ==> !(self.at(0) matches Some(a) && a.kind == DriveKind::Floppy),
            decreases d,
        {
            if let Some(k) = self.drive_kind(d - 1) {
                if k == DriveKind::Floppy {
                    return d;
                }
            }
            d = d - 1;
        }
        0
    }

    pub fn set_current_drive(&mut self, drive: u8) -> (last: u8)
        requires
            old(self).wf(),
        ensures
            final(self).wf(),
            last == LASTDRIVE,
            *final(self) == (DiskController {
                current_drive: if old(self).at(drive) is Some {
                    drive
                } else {
                    old(self).current_drive
                },
                ..*old(self)
            }),
    {
        // Only switch to drives that exist; always report LASTDRIVE.
        if self.is_mounted(drive) {
            self.current_drive = drive;
        }
        LASTDRIVE
    }

    pub fn get_current_drive(&self) -> (drive: u8)
        ensures
            drive == self.current_drive,
    {
        self.current_drive
    }
}

} // verus!
