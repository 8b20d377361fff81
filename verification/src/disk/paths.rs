//! DOS paths: which drive one is on, and where there.

use vstd::prelude::*;

use crate::disk::drives::{DiskController, Drive, Storage};
use crate::disk::names::{
    device_name, device_of, device_text, drive_letter, drive_prefix, letter_of, CharDevice,
    LASTDRIVE,
};
use crate::disk::short::{all_named, short_names};
use crate::text::{
    chars_of, join_text, joined, last_of, last_place, lower, replace_char, replaced, same,
    same_but_case, split, split_text, texts, upper, uppercase,
};

verus! {

/// The parts of a path that have a name.
pub open spec fn named_parts(parts: Seq<Seq<char>>) -> Seq<Seq<char>>
    decreases parts.len(),
{
    if parts.len() == 0 {
        Seq::empty()
    } else if parts.last().len() == 0 {
        named_parts(parts.drop_last())
    } else {
        named_parts(parts.drop_last()).push(parts.last())
    }
}

/// Where a path leads from a directory: "." stays, ".." goes up, but not
/// above the root.
pub open spec fn walked(from: Seq<Seq<char>>, parts: Seq<Seq<char>>) -> Seq<Seq<char>>
    decreases parts.len(),
{
    if parts.len() == 0 {
        from
    } else {
        let before = walked(from, parts.drop_last());
        let part = parts.last();
        if part.len() == 0 || part == "."@ {
            before
        } else if part == ".."@ {
            if before.len() == 0 {
                before
            } else {
                before.drop_last()
            }
        } else {
            before.push(part)
        }
    }
}

/// The components of a path on a drive with a current directory.
pub open spec fn components(dir: Seq<char>, rest: Seq<char>) -> Seq<Seq<char>> {
    walked(
        if rest.len() > 0 && rest[0] == '\\' {
            Seq::empty()
        } else {
            named_parts(split(dir, '\\'))
        },
        split(rest, '\\'),
    )
}

/// A path with backslashes only.
pub open spec fn slashed(path: Seq<char>) -> Seq<char> {
    replaced(path, '/', '\\')
}

/// Components as a path in capitals.
pub open spec fn capital_path(parts: Seq<Seq<char>>) -> Seq<char> {
    upper(joined(parts, '\\'))
}

/// A path from a drive's root.
pub open spec fn full_path(drive: u8, parts: Seq<Seq<char>>) -> Seq<char> {
    seq![letter_of(drive)] + ":\\"@ + capital_path(parts)
}

/// The directory part of a path behind the drive letter.
pub open spec fn directory_part(rest: Seq<char>) -> Seq<char> {
    match last_place(rest, '\\') {
        Some(i) => if i == 0 {
            "\\"@
        } else {
            rest.take(i)
        },
        None => Seq::empty(),
    }
}

/// Where a DOS path leads: the drive, and the components from its root.
#[derive(Debug)]
pub struct Place {
    pub drive: u8,
    pub parts: Vec<String>,
}

pub(crate) fn logical_components(drive: &Drive, rest: &Vec<char>) -> (parts: Vec<String>)
    ensures
        texts(parts@) == components(drive.current_dir@, rest@),
{
    let mut parts: Vec<String> = Vec::new();
    let ghost mut base = Seq::<Seq<char>>::empty();
    assert(texts(parts@) =~= Seq::<Seq<char>>::empty());
    if rest.len() == 0 || rest[0] != '\\' {
        let dir = chars_of(drive.current_dir.as_str());
        let pieces = split_text(&dir, '\\');
        let ghost all = texts(pieces@);
        let mut i: usize = 0;
        while i < pieces.len()
            invariant
                i <= pieces@.len(),
                all == texts(pieces@),
                texts(parts@) == named_parts(all.take(i as int)),
            decreases pieces.len() - i,
        {
            let ghost before = parts@;
            assert(all.take(i + 1).drop_last() =~= all.take(i as int));
            if pieces[i].as_str().unicode_len() > 0 {
                parts.push(pieces[i].clone());
                assert(texts(parts@) =~= texts(before).push(all[i as int]));
            }
            i = i + 1;
        }
        assert(all.take(i as int) =~= all);
        proof {
            base = texts(parts@);
        }
    }
    let pieces = split_text(rest, '\\');
    let ghost all = texts(pieces@);
    let mut i: usize = 0;
    assert(texts(parts@) =~= walked(base, all.take(0)));
    while i < pieces.len()
        invariant
            i <= pieces@.len(),
            all == texts(pieces@),
            texts(parts@) == walked(base, all.take(i as int)),
        decreases pieces.len() - i,
    {
        let ghost before = parts@;
        assert(all.take(i + 1).drop_last() =~= all.take(i as int));
        assert(all.take(i + 1).last() == pieces@[i as int]@);
        let piece = pieces[i].as_str();
        if piece.unicode_len() == 0 || same(piece, ".") {
        } else if same(piece, "..") {
            let _ = parts.pop();
            assert(before.len() > 0 ==> texts(parts@) =~= texts(before).drop_last());
            assert(before.len() == 0 ==> texts(parts@) =~= texts(before));
        } else {
            parts.push(pieces[i].clone());
            assert(texts(parts@) =~= texts(before).push(all[i as int]));
        }
        i = i + 1;
    }
    assert(all.take(i as int) =~= all);
    parts
}

pub(crate) fn capital_text(parts: &Vec<String>) -> (path: String)
    ensures
        path@ == capital_path(texts(parts@)),
{
    let path = join_text(parts, '\\');
    uppercase(path.as_str())
}

fn full_text(drive: u8, parts: &Vec<String>) -> (path: String)
    requires
        drive < LASTDRIVE,
    ensures
        path@ == full_path(drive, texts(parts@)),
{
    let mut path = String::new();
    path.push(drive_letter(drive));
    path.append(":\\");
    let rest = capital_text(parts);
    path.append(rest.as_str());
    assert(path@ =~= full_path(drive, texts(parts@)));
    path
}

impl DiskController {
    /// The drive a path with backslashes is on and what follows it, unless
    /// the drive is malformed as in "@:".
    pub open spec fn split_at_drive(&self, path: Seq<char>) -> Option<(u8, Seq<char>)> {
        match drive_prefix(path) {
            Some(d) => Some((d, path.subrange(2, path.len() as int))),
            None => if path.len() >= 2 && path[0] <= '\x7F' && path[1] == ':' {
                None
            } else {
                Some((self.current_drive, path))
            },
        }
    }

    /// Where a DOS path leads on the drives there are.
    pub open spec fn leads_to(&self, path: Seq<char>) -> Option<(u8, Seq<Seq<char>>)> {
        match self.split_at_drive(slashed(path)) {
            Some((drive, rest)) => match self.at(drive) {
                Some(d) => Some((drive, components(d.current_dir@, rest))),
                None => None,
            },
            None => None,
        }
    }

    /// The files of a drive that holds them in memory.
    pub open spec fn tree_at(&self, drive: u8) -> Option<crate::disk::memfs::MemFs> {
        match self.at(drive) {
            Some(d) => match d.storage {
                Storage::Tree { files, .. } => Some(files),
                _ => None,
            },
            None => None,
        }
    }

    /// Split a DOS path into the drive and where the remainder begins,
    /// defaulting to the current drive. None for a malformed drive
    /// specifier such as "@:".
    pub(crate) fn split_drive(&self, path: &Vec<char>) -> (split: Option<(u8, Vec<char>)>)
        requires
            self.wf(),
        ensures
            match (split, self.split_at_drive(path@)) {
                (Some((d, rest)), Some((e, r))) => d == e && rest@ == r && d < LASTDRIVE,
                (None, None) => true,
                _ => false,
            },
    {
        let n: usize = path.len();
        if n >= 2 && path[1] == ':' {
            let c = path[0];
            if ('A' <= c && c <= 'Z') || ('a' <= c && c <= 'z') {
                let rest = vstd::slice::slice_to_vec(
                    vstd::slice::slice_subrange(path.as_slice(), 2, n),
                );
                assert(rest@ =~= path@.subrange(2, n as int));
                let d: u8 = crate::text::upper_of(c) as u8 - 0x41;
                return Some((d, rest));
            }
            if c <= '\x7F' {
                return None;
            }
        }
        let rest = vstd::slice::slice_to_vec(path.as_slice());
        assert(rest@ =~= path@);
        Some((self.current_drive, rest))
    }

    /// Where a DOS path leads: None for a drive that isn't there.
    pub fn place(&self, dos_path: &str) -> (place: Option<Place>)
        requires
            self.wf(),
        ensures
            match (place, self.leads_to(dos_path@)) {
                (Some(p), Some((drive, parts))) => p.drive == drive && texts(p.parts@) == parts
                    && drive < LASTDRIVE && self.at(drive) is Some,
                (None, None) => true,
                _ => false,
            },
    {
        let chars = chars_of(dos_path);
        let path = replace_char(&chars, '/', '\\');
        match self.split_drive(&path) {
            Some((drive, rest)) => match self.drive(drive) {
                Some(d) => Some(Place { drive, parts: logical_components(d, &rest) }),
                None => None,
            },
            None => None,
        }
    }

    /// Which drive a DOS path is on.
    pub fn drive_of(&self, dos_path: &str) -> (drive: Option<u8>)
        requires
            self.wf(),
        ensures
            drive == (match self.split_at_drive(slashed(dos_path@)) {
                Some((d, _)) => Some(d),
                None => None,
            }),
    {
        let chars = chars_of(dos_path);
        let path = replace_char(&chars, '/', '\\');
        match self.split_drive(&path) {
            Some((drive, _)) => Some(drive),
            None => None,
        }
    }

    /// Fully qualified DOS directory for the directory part of a search spec,
    /// e.g. "*.EXE" on C: in GAMES -> "C:\GAMES", "D:SUB\*.*" -> "D:\SUB".
    /// Purely logical; the directory need not exist.
    pub fn qualify_directory(&self, spec: &str) -> (path: Option<String>)
        requires
            self.wf(),
        ensures
            match (path, self.qualified_directory(spec@)) {
                (Some(p), Some(q)) => p@ == q,
                (None, None) => true,
                _ => false,
            },
    {
        let chars = chars_of(spec);
        let whole = replace_char(&chars, '/', '\\');
        match self.split_drive(&whole) {
            Some((drive, rest)) => match self.drive(drive) {
                Some(d) => {
                    assert(rest@.subrange(0, rest@.len() as int) =~= rest@);
                    let dir: Vec<char> = match last_of(&rest, 0, '\\') {
                        Some(i) => if i == 0 {
                            chars_of("\\")
                        } else {
                            let head = vstd::slice::slice_to_vec(
                                vstd::slice::slice_subrange(rest.as_slice(), 0, i),
                            );
                            assert(head@ =~= rest@.take(i as int));
                            head
                        },
                        None => Vec::new(),
                    };
                    assert(dir@ =~= directory_part(rest@));
                    let parts = logical_components(d, &dir);
                    Some(full_text(drive, &parts))
                },
                None => None,
            },
            None => None,
        }
    }

    pub open spec fn qualified_directory(&self, spec: Seq<char>) -> Option<Seq<char>> {
        match self.split_at_drive(slashed(spec)) {
            Some((drive, rest)) => match self.at(drive) {
                Some(d) => Some(
                    full_path(drive, components(d.current_dir@, directory_part(rest))),
                ),
                None => None,
            },
            None => None,
        }
    }

    pub open spec fn qualified_path(&self, spec: Seq<char>) -> Option<Seq<char>> {
        match self.leads_to(spec) {
            Some((drive, parts)) => Some(full_path(drive, parts)),
            None => None,
        }
    }

    /// Fully qualified DOS path of a file name, e.g. "DESCENTR.EXE" in
    /// C:\DESCENT -> "C:\DESCENT\DESCENTR.EXE" (INT 21h AH=60h, and the
    /// program path DOS puts after a program's environment). Purely
    /// logical; the file need not exist.
    pub fn qualify_path(&self, spec: &str) -> (path: Option<String>)
        requires
            self.wf(),
        ensures
            match (path, self.qualified_path(spec@)) {
                (Some(p), Some(q)) => p@ == q,
                (None, None) => true,
                _ => false,
            },
    {
        match self.place(spec) {
            Some(place) => Some(full_text(place.drive, &place.parts)),
            None => None,
        }
    }

    /// What tells the file a DOS path names apart from others: its full
    /// path, or on a drive that isn't there the path in capitals.
    pub fn file_key(&self, dos_path: &str) -> (key: String)
        requires
            self.wf(),
        ensures
            key@ == (match self.qualified_path(dos_path@) {
                Some(q) => q,
                None => upper(dos_path@),
            }),
    {
        match self.qualify_path(dos_path) {
            Some(path) => path,
            None => uppercase(dos_path),
        }
    }

    /// The number of the file a DOS path names on a drive held in memory, and
    /// the drive.
    pub open spec fn memory_file(&self, path: Seq<char>) -> Option<(u8, int)> {
        match self.leads_to(path) {
            Some((drive, parts)) => match self.tree_at(drive) {
                Some(files) => match files.number_of(capital_path(parts)) {
                    Some(n) => Some((drive, n)),
                    None => None,
                },
                None => None,
            },
            None => None,
        }
    }

    /// Whether `filename` is a file on a drive held in memory.
    pub fn is_virtual_file(&self, filename: &str) -> (yes: bool)
        requires
            self.wf(),
        ensures
            yes == self.memory_file(filename@) is Some,
    {
        match self.place(filename) {
            Some(place) => match self.drive(place.drive) {
                Some(d) => match &d.storage {
                    Storage::Tree { files, .. } => {
                        let path = capital_text(&place.parts);
                        files.file_number(path.as_str()).is_some()
                    },
                    _ => false,
                },
                None => false,
            },
            None => false,
        }
    }

    /// Whether a DOS path names a file, where `outside` says so for drives
    /// that aren't held in memory.
    pub open spec fn names_file(&self, path: Seq<char>, outside: bool) -> bool {
        match self.leads_to(path) {
            Some((drive, parts)) => match self.tree_at(drive) {
                Some(files) => files.number_of(capital_path(parts)) is Some,
                None => outside,
            },
            None => false,
        }
    }

    /// Whether a DOS path names a directory.
    pub open spec fn names_directory(&self, path: Seq<char>, outside: bool) -> bool {
        match self.leads_to(path) {
            Some((drive, parts)) => match self.tree_at(drive) {
                Some(files) => files.has_dir(capital_path(parts)),
                None => outside,
            },
            None => false,
        }
    }

    /// Whether a DOS path names an existing file, on any drive: `outside` is
    /// whether the host directory or disk image has one there.
    pub fn is_file(&self, dos_path: &str, outside: bool) -> (yes: bool)
        requires
            self.wf(),
        ensures
            yes == self.names_file(dos_path@, outside),
    {
        match self.place(dos_path) {
            Some(place) => match self.drive(place.drive) {
                Some(d) => match &d.storage {
                    Storage::Tree { files, .. } => {
                        let path = capital_text(&place.parts);
                        files.file_number(path.as_str()).is_some()
                    },
                    _ => outside,
                },
                None => false,
            },
            None => false,
        }
    }

    /// Whether a DOS path names an existing directory, on any drive.
    pub fn is_directory(&self, dos_path: &str, outside: bool) -> (yes: bool)
        requires
            self.wf(),
        ensures
            yes == self.names_directory(dos_path@, outside),
    {
        match self.place(dos_path) {
            Some(place) => match self.drive(place.drive) {
                Some(d) => match &d.storage {
                    Storage::Tree { files, .. } => {
                        let path = capital_text(&place.parts);
                        files.is_dir(path.as_str())
                    },
                    _ => outside,
                },
                None => false,
            },
            None => false,
        }
    }

    /// Whether a DOS path names an existing file or directory, on any
    /// drive.
    pub fn is_there(&self, dos_path: &str, outside: bool) -> (yes: bool)
        requires
            self.wf(),
        ensures
            yes == (self.names_file(dos_path@, outside) || self.names_directory(
                dos_path@,
                outside,
            )),
    {
        self.is_file(dos_path, outside) || self.is_directory(dos_path, outside)
    }

    /// DOS CHDIR: changes the current directory of the drive named in `path`
    /// (or of the current drive) without switching drives. On a drive that
    /// isn't held in memory `outside` is the directory's path there in DOS
    /// names, if it is one.
    pub fn set_current_directory(&mut self, path: &str, outside: Option<String>) -> (changed: bool)
        requires
            old(self).wf(),
        ensures
            final(self).wf(),
            !changed ==> *final(self) == *old(self),
            match old(self).leads_to(path@) {
                None => !changed,
                Some((drive, parts)) => {
                    let dir = match old(self).tree_at(drive) {
                        Some(files) => if files.has_dir(capital_path(parts)) {
                            Some(capital_path(parts))
                        } else {
                            None
                        },
                        None => match outside {
                            Some(d) => Some(d@),
                            None => None,
                        },
                    };
                    &&& changed == dir is Some
                    &&& dir matches Some(to) ==> final(self).changed_in(*old(self), drive) && (
                    final(self).at(drive) matches Some(d) && d.current_dir@ == to && (Drive {
                        current_dir: d.current_dir,
                        ..old(self).at(drive)->0
                    }) == d)
                },
            },
    {
        match self.place(path) {
            None => false,
            Some(place) => {
                let dir: Option<String> = match self.drive(place.drive) {
                    None => None,
                    Some(d) => match &d.storage {
                        Storage::Tree { files, .. } => {
                            let dir = capital_text(&place.parts);
                            if files.is_dir(dir.as_str()) {
                                Some(dir)
                            } else {
                                None
                            }
                        },
                        _ => outside,
                    },
                };
                match dir {
                    None => false,
                    Some(dir) => {
                        self.enter_directory(place.drive, dir);
                        true
                    },
                }
            },
        }
    }

    /// Make a directory a drive's current one.
    pub(crate) fn enter_directory(&mut self, drive: u8, dir: String)
        requires
            old(self).wf(),
            drive < LASTDRIVE,
            old(self).at(drive) is Some,
        ensures
            final(self).wf(),
            final(self).changed_in(*old(self), drive),
            final(self).at(drive) == Some(
                Drive { current_dir: dir, ..old(self).at(drive)->0 },
            ),
    {
        let taken = self.drives[drive as usize].take();
        if let Some(d) = taken {
            let mut d = d;
            d.current_dir = dir;
            self.drives[drive as usize] = Some(d);
        }
    }

    /// Current directory of the current drive, without drive or leading "\".
    pub fn get_current_directory(&self) -> (dir: String)
        requires
            self.wf(),
        ensures
            dir@ == upper(self.drives@[self.current_drive as int]->0.current_dir@),
    {
        match self.get_current_directory_of(self.current_drive) {
            Some(dir) => dir,
            None => String::new(),
        }
    }

    /// Current directory of `drive`, or None if it isn't mounted.
    pub fn get_current_directory_of(&self, drive: u8) -> (dir: Option<String>)
        requires
            self.wf(),
        ensures
            match (dir, self.at(drive)) {
                (Some(t), Some(d)) => t@ == upper(d.current_dir@),
                (None, None) => true,
                _ => false,
            },
    {
        match self.drive(drive) {
            Some(d) => Some(uppercase(d.current_dir.as_str())),
            None => None,
        }
    }

    /// The device a file name names, while EMS is there or not.
    pub open spec fn device_named(&self, filename: Seq<char>) -> Option<CharDevice> {
        match device_of(filename) {
            Some(d) => Some(d),
            None => if self.emm_device && device_name(filename) == "EMMXXXX0"@ {
                Some(CharDevice::Emm)
            } else {
                None
            },
        }
    }

    /// The character device `filename` names, EMMXXXX0 among them while
    /// there is EMS.
    pub fn device(&self, filename: &str) -> (device: Option<CharDevice>)
        ensures
            device == self.device_named(filename@),
    {
        let device = crate::disk::names::char_device(filename);
        if device.is_some() || !self.emm_device {
            return device;
        }
        let name = device_text(filename);
        if same(name.as_str(), "EMMXXXX0") {
            Some(CharDevice::Emm)
        } else {
            None
        }
    }
}

/// A path from a drive's root leads there whatever the current drive is.
pub proof fn lemma_rooted(disk: DiskController, drive: u8, dir: Seq<char>)
    requires
        drive < LASTDRIVE,
        disk.at(drive) matches Some(d) && d.current_dir@ == dir,
    ensures
        ({
            let path = seq![letter_of(drive)] + ":\\"@ + dir;
            disk.leads_to(path) == Some(
                (drive, components(dir, slashed("\\"@ + dir))),
            )
        }),
{
    reveal_strlit(":\\");
    reveal_strlit("\\");
    let path = seq![letter_of(drive)] + ":\\"@ + dir;
    let whole = slashed(path);
    assert(whole[0] == letter_of(drive) && whole[1] == ':');
    assert(whole.subrange(2, whole.len() as int) =~= slashed("\\"@ + dir));
    assert(drive_prefix(whole) == Some(drive));
}

/// Whether a text sorts before another: by the characters' numbers.
pub open spec fn sorts_before(a: Seq<char>, b: Seq<char>) -> bool
    decreases a.len(),
{
    if b.len() == 0 {
        false
    } else if a.len() == 0 {
        true
    } else if a[0] != b[0] {
        a[0] < b[0]
    } else {
        sorts_before(a.skip(1), b.skip(1))
    }
}

fn before(a: &Vec<char>, b: &Vec<char>) -> (yes: bool)
    ensures
        yes == sorts_before(a@, b@),
{
    let mut i: usize = 0;
    assert(a@.skip(0) =~= a@ && b@.skip(0) =~= b@);
    while i < a.len() && i < b.len()
        invariant
            i <= a@.len(),
            i <= b@.len(),
            sorts_before(a@, b@) == sorts_before(a@.skip(i as int), b@.skip(i as int)),
        decreases a.len() - i,
    {
        assert(a@.skip(i as int).skip(1) =~= a@.skip(i + 1));
        assert(b@.skip(i as int).skip(1) =~= b@.skip(i + 1));
        if a[i] != b[i] {
            return a[i] < b[i];
        }
        i = i + 1;
    }
    i < b.len()
}

/// Where a name goes among sorted ones: behind those that don't sort after
/// it.
pub open spec fn sorted_place(sorted: Seq<Seq<char>>, name: Seq<char>) -> int
    decreases sorted.len(),
{
    if sorted.len() == 0 || !sorts_before(upper(name), upper(sorted.last())) {
        sorted.len() as int
    } else {
        sorted_place(sorted.drop_last(), name)
    }
}

/// The names of a host directory that DOS shows, in sorted order: not those
/// that start with a dot. Names that differ in case alone stay in order.
pub open spec fn shown_names(names: Seq<Seq<char>>) -> Seq<Seq<char>>
    decreases names.len(),
{
    if names.len() == 0 {
        Seq::empty()
    } else {
        let sorted = shown_names(names.drop_last());
        let name = names.last();
        if name.len() > 0 && name[0] == '.' {
            sorted
        } else {
            sorted.insert(sorted_place(sorted, name), name)
        }
    }
}

fn insertion_place(sorted: &Vec<String>, name: &str) -> (at: usize)
    ensures
        at == sorted_place(texts(sorted@), name@),
        at <= sorted@.len(),
{
    let key = uppercase(name);
    let key_chars = chars_of(key.as_str());
    let mut n: usize = sorted.len();
    let ghost all = texts(sorted@);
    assert(all.take(n as int) =~= all);
    while n > 0
        invariant
            n <= sorted@.len(),
            all == texts(sorted@),
            key_chars@ == upper(name@),
            sorted_place(all, name@) == sorted_place(all.take(n as int), name@),
        decreases n,
    {
        let ghost head = all.take(n as int);
        assert(head.drop_last() =~= all.take(n - 1));
        assert(head.last() == sorted@[n - 1]@);
        let other = uppercase(sorted[n - 1].as_str());
        let other_chars = chars_of(other.as_str());
        if !before(&key_chars, &other_chars) {
            return n;
        }
        n = n - 1;
    }
    0
}

/// An entry of a host directory: its name there, and its DOS name.
#[derive(Debug)]
pub struct HostName {
    pub name: String,
    pub short: String,
}

pub open spec fn long_names(entries: Seq<HostName>) -> Seq<Seq<char>> {
    Seq::new(entries.len(), |i: int| entries[i].name@)
}

pub open spec fn dos_names(entries: Seq<HostName>) -> Seq<Seq<char>> {
    Seq::new(entries.len(), |i: int| entries[i].short@)
}

/// The entries of a host directory with their DOS names (see
/// `short_names`), in sorted order. Hidden (dot) files are left out.
pub fn host_entries(names: &Vec<String>) -> (entries: Vec<HostName>)
    requires
        names@.len() < 9_999_999,
    ensures
        long_names(entries@) == shown_names(texts(names@)),
        exists|numbers: Seq<u32>|
            #[trigger] all_named(long_names(entries@), dos_names(entries@), numbers),
        entries@.len() <= names@.len(),
{
    let mut sorted: Vec<String> = Vec::new();
    let ghost all = texts(names@);
    let mut i: usize = 0;
    assert(texts(sorted@) =~= shown_names(all.take(0)));
    while i < names.len()
        invariant
            i <= names@.len() < 9_999_999,
            all == texts(names@),
            texts(sorted@) == shown_names(all.take(i as int)),
            sorted@.len() <= i,
        decreases names.len() - i,
    {
        let ghost before = sorted@;
        assert(all.take(i + 1).drop_last() =~= all.take(i as int));
        assert(all.take(i + 1).last() == names@[i as int]@);
        let name = names[i].as_str();
        if name.unicode_len() > 0 && name.get_char(0) == '.' {
        } else {
            let at: usize = insertion_place(&sorted, name);
            let copy = names[i].clone();
            let ghost text = copy@;
            sorted.insert(at, copy);
            assert(texts(sorted@) =~= texts(before).insert(at as int, text));
        }
        i = i + 1;
    }
    assert(all.take(i as int) =~= all);
    let short = short_names(&sorted);
    let ghost numbers = choose|numbers: Seq<u32>|
        #[trigger] all_named(texts(sorted@), texts(short@), numbers);
    let mut entries: Vec<HostName> = Vec::new();
    let mut i: usize = 0;
    while i < sorted.len()
        invariant
            i <= sorted@.len() == short@.len(),
            entries@.len() == i,
            forall|j: int|
                0 <= j < i ==> (#[trigger] entries@[j]).name@ == sorted@[j]@ && entries@[j].short@
                    == short@[j]@,
        decreases sorted.len() - i,
    {
        entries.push(HostName { name: sorted[i].clone(), short: short[i].clone() });
        i = i + 1;
    }
    proof {
        assert(long_names(entries@) =~= texts(sorted@));
        assert(dos_names(entries@) =~= texts(short@));
        assert(all_named(long_names(entries@), dos_names(entries@), numbers));
    }
    entries
}

/// The first entry with a long name, in any case.
pub open spec fn long_match(entries: Seq<HostName>, target: Seq<char>, from: int) -> Option<int>
    decreases entries.len() - from,
{
    if from < 0 || from >= entries.len() {
        None
    } else if lower(entries[from].name@) == lower(target) {
        Some(from)
    } else {
        long_match(entries, target, from + 1)
    }
}

/// The first entry with a DOS name.
pub open spec fn short_match(entries: Seq<HostName>, target: Seq<char>, from: int) -> Option<int>
    decreases entries.len() - from,
{
    if from < 0 || from >= entries.len() {
        None
    } else if entries[from].short@ == upper(target) {
        Some(from)
    } else {
        short_match(entries, target, from + 1)
    }
}

/// The host name and the DOS name of the entry that a DOS path component
/// names: its long name in any case, or its short name. A name that matches
/// nothing comes back uppercased, for creating it.
pub open spec fn finds(entries: Seq<HostName>, target: Seq<char>, found: HostName) -> bool {
    match long_match(entries, target, 0) {
        Some(i) => found.name@ == entries[i].name@ && found.short@ == entries[i].short@,
        None => match short_match(entries, target, 0) {
            Some(i) => found.name@ == entries[i].name@ && found.short@ == entries[i].short@,
            None => found.name@ == upper(target) && found.short@ == upper(target),
        },
    }
}

/// The entry of a host directory that a DOS path component names (see
/// `finds`).
pub fn find_host_child(entries: &Vec<HostName>, target: &str) -> (found: HostName)
    ensures
        finds(entries@, target@, found),
{
    let mut i: usize = 0;
    while i < entries.len()
        invariant
            i <= entries@.len(),
            long_match(entries@, target@, 0) == long_match(entries@, target@, i as int),
        decreases entries.len() - i,
    {
        if same_but_case(entries[i].name.as_str(), target) {
            return HostName { name: entries[i].name.clone(), short: entries[i].short.clone() };
        }
        i = i + 1;
    }
    let capital = uppercase(target);
    let mut i: usize = 0;
    while i < entries.len()
        invariant
            i <= entries@.len(),
            capital@ == upper(target@),
            long_match(entries@, target@, 0) is None,
            short_match(entries@, target@, 0) == short_match(entries@, target@, i as int),
        decreases entries.len() - i,
    {
        if same(entries[i].short.as_str(), capital.as_str()) {
            return HostName { name: entries[i].name.clone(), short: entries[i].short.clone() };
        }
        i = i + 1;
    }
    HostName { name: capital.clone(), short: capital }
}

/// No path climbs above the root: what it leads to from there is the same
/// whatever ".." it starts with.
pub proof fn law_root_is_the_top(parts: Seq<Seq<char>>)
    requires
        parts.len() > 0,
        parts[0] == ".."@,
    ensures
        walked(Seq::empty(), parts) == walked(Seq::empty(), parts.skip(1)),
    decreases parts.len(),
{
    reveal_strlit("..");
    reveal_strlit(".");
    if parts.len() == 1 {
        assert(parts.drop_last() =~= Seq::empty());
        assert(parts.skip(1) =~= Seq::empty());
        assert(".."@[1] == '.');
        assert(".."@.len() == 2 && "."@.len() == 1);
    } else {
        law_root_is_the_top(parts.drop_last());
        assert(parts.drop_last().skip(1) =~= parts.skip(1).drop_last());
    }
}

/// Going into a directory and out of it again leads back.
pub proof fn law_up_undoes_down(from: Seq<Seq<char>>, name: Seq<char>)
    requires
        name.len() > 0,
        name != "."@,
        name != ".."@,
    ensures
        walked(from, seq![name, ".."@]) == from,
{
    reveal_strlit("..");
    reveal_strlit(".");
    reveal_with_fuel(walked, 3);
    let parts = seq![name, ".."@];
    assert(parts.drop_last() =~= seq![name]);
    assert(seq![name].drop_last() =~= Seq::empty());
    assert(".."@.len() == 2 && "."@.len() == 1);
    assert(walked(from, seq![name]) == from.push(name));
    assert(from.push(name).drop_last() =~= from);
}

} // verus!
