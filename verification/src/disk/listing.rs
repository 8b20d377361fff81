//! Directory listings: what FindFirst and FindNext give, and DIR shows.

use vstd::prelude::*;

use crate::disk::drives::{DiskController, Storage};
use crate::disk::files::{node_attr, tree_attr, Entry};
use crate::disk::memfs::{entries_of, MemFs, Node, TreeEntry};
use crate::disk::names::{matches_pattern, name_matches, MEMORY_DATE, MEMORY_TIME};
use crate::disk::paths::{
    capital_path, capital_text, components, dos_names, host_entries, logical_components, long_names,
    shown_names, slashed,
};
use crate::disk::short::all_named;
use crate::text::{chars_of, last_of, last_place, replace_char, same, text_between, texts};

verus! {

/// Helper struct to transfer directory search results back to the CPU
#[derive(Debug)]
pub struct DosDirEntry {
    pub filename: String,
    pub size: u32,
    pub is_dir: bool,
    pub is_readonly: bool,
    pub dos_time: u16,
    pub dos_date: u16,
    /// DOS attribute byte (0x01 R/O, 0x08 label, 0x10 dir, 0x20 archive).
    pub attr: u8,
}

/// What a directory entry tells.
pub ghost struct Listed {
    pub filename: Seq<char>,
    pub size: u32,
    pub is_dir: bool,
    pub is_readonly: bool,
    pub dos_time: u16,
    pub dos_date: u16,
    pub attr: u8,
}

impl DosDirEntry {
    pub open spec fn view(&self) -> Listed {
        Listed {
            filename: self.filename@,
            size: self.size,
            is_dir: self.is_dir,
            is_readonly: self.is_readonly,
            dos_time: self.dos_time,
            dos_date: self.dos_date,
            attr: self.attr,
        }
    }
}

pub open spec fn listed(entries: Seq<DosDirEntry>) -> Seq<Listed> {
    Seq::new(entries.len(), |i: int| entries[i]@)
}

/// What the host knows of a file or directory.
#[derive(Clone, Copy, Debug, PartialEq, Eq, Structural)]
pub struct Meta {
    pub is_dir: bool,
    pub read_only: bool,
    pub size: u64,
    pub time: u16,
    pub date: u16,
}

/// An entry of a host directory; what the host doesn't tell of isn't shown.
#[derive(Debug)]
pub struct HostEntry {
    pub name: String,
    pub meta: Option<Meta>,
}

/// What a directory that isn't held in memory holds.
#[derive(Debug)]
pub enum Contents {
    /// A host directory, if it is one, and whether it is the drive's root.
    Host { is_dir: bool, is_root: bool, entries: Vec<HostEntry> },
    /// A directory of a disk image, or the DOS error of reading it.
    Volume(Result<Vec<Entry>, u8>),
}

/// How many bytes a character takes in UTF-8.
pub open spec fn byte_width(c: char) -> int {
    let n = c as u32;
    if n < 0x80 {
        1
    } else if n < 0x800 {
        2
    } else if n < 0x1_0000 {
        3
    } else {
        4
    }
}

fn width(c: char) -> (n: usize)
    ensures
        n == byte_width(c),
        1 <= n <= 4,
{
    let code: u32 = c as u32;
    if code < 0x80 {
        1
    } else if code < 0x800 {
        2
    } else if code < 0x1_0000 {
        3
    } else {
        4
    }
}

/// How many characters take the first `n` bytes of a text, if some do just
/// that; all of a shorter text do.
pub open spec fn chars_in(text: Seq<char>, n: int) -> Option<int>
    decreases text.len(),
{
    if n == 0 || text.len() == 0 {
        Some(0)
    } else if byte_width(text[0]) > n {
        None
    } else {
        match chars_in(text.skip(1), n - byte_width(text[0])) {
            Some(k) => Some(k + 1),
            None => None,
        }
    }
}

/// A volume label as FindFirst reports it: labels longer than 8
/// characters get a dot after the 8th, like a filename.
pub open spec fn label_shown(label: Seq<char>) -> Seq<char> {
    let k = chars_in(label, 8)->0;
    if k < label.len() {
        label.take(k) + "."@ + label.skip(k)
    } else {
        label
    }
}

pub open spec fn label_listed(label: Seq<char>) -> Listed {
    Listed {
        filename: label_shown(label),
        size: 0,
        is_dir: false,
        is_readonly: false,
        dos_time: 0x0000,
        dos_date: 0x5021,
        attr: 0x08,
    }
}

fn label_entry(label: &str) -> (entry: DosDirEntry)
    requires
        chars_in(label@, 8) is Some,
    ensures
        entry@ == label_listed(label@),
{
    let chars = chars_of(label);
    let mut k: usize = 0;
    let mut left: usize = 8;
    assert(label@.skip(0) =~= label@);
    while left > 0 && k < chars.len()
        invariant
            chars@ == label@,
            k <= chars@.len(),
            left <= 8,
            chars_in(label@, 8) is Some,
            chars_in(label@.skip(k as int), left as int) is Some,
            chars_in(label@, 8)->0 == k + chars_in(label@.skip(k as int), left as int)->0,
        decreases chars.len() - k,
    {
        let ghost rest = label@.skip(k as int);
        assert(rest.skip(1) =~= label@.skip(k + 1));
        let w: usize = width(chars[k]);
        left = left - w;
        k = k + 1;
    }
    let mut filename = text_between(&chars, 0, k);
    assert(filename@ =~= label@.take(k as int));
    if k < chars.len() {
        filename.append(".");
        let rest = text_between(&chars, k, chars.len());
        assert(rest@ =~= label@.skip(k as int));
        filename.append(rest.as_str());
    }
    assert(filename@ =~= label_shown(label@));
    DosDirEntry {
        filename,
        size: 0,
        is_dir: false,
        is_readonly: false,
        dos_time: 0x0000,
        dos_date: 0x5021,
        attr: 0x08,
    }
}

/// Whether a search lists an entry with some attributes: hidden and system
/// files and directories only if asked for.
pub open spec fn admitted(attr: u8, search_attr: u16) -> bool {
    (attr as u16 & 0x16) & !search_attr == 0
}

fn admits(attr: u8, search_attr: u16) -> (yes: bool)
    ensures
        yes == admitted(attr, search_attr),
{
    (attr as u16 & 0x16) & !search_attr == 0
}

pub open spec fn dot_listed(name: Seq<char>) -> Listed {
    Listed {
        filename: name,
        size: 0,
        is_dir: true,
        is_readonly: false,
        dos_time: 0,
        dos_date: 0,
        attr: 0x10,
    }
}

/// The ".." and "." entries of a directory below the root that match a
/// pattern.
pub open spec fn dots_listed(pattern: Seq<char>) -> Seq<Listed> {
    let up = if name_matches(".."@, pattern) {
        seq![dot_listed(".."@)]
    } else {
        Seq::empty()
    };
    if name_matches("."@, pattern) {
        up.push(dot_listed("."@))
    } else {
        up
    }
}

fn dot_entries(pattern: &str) -> (entries: Vec<DosDirEntry>)
    ensures
        listed(entries@) == dots_listed(pattern@),
{
    let mut entries: Vec<DosDirEntry> = Vec::new();
    if matches_pattern("..", pattern) {
        entries.push(dot_entry(".."));
    }
    let ghost before = entries@;
    assert(listed(before) =~= (if name_matches(".."@, pattern@) {
        seq![dot_listed(".."@)]
    } else {
        Seq::empty()
    }));
    if matches_pattern(".", pattern) {
        let dot = dot_entry(".");
        let ghost seen = dot@;
        entries.push(dot);
        assert(listed(entries@) =~= listed(before).push(seen));
    }
    entries
}

fn dot_entry(name: &str) -> (entry: DosDirEntry)
    ensures
        entry@ == dot_listed(name@),
{
    DosDirEntry {
        filename: String::from_str(name),
        size: 0,
        is_dir: true,
        is_readonly: false,
        dos_time: 0,
        dos_date: 0,
        attr: 0x10,
    }
}

/// What a file held in memory shows, or a directory.
pub open spec fn tree_shown(files: MemFs, name: Seq<char>, file: Option<int>) -> Listed {
    match file {
        None => Listed {
            filename: name,
            size: 0,
            is_dir: true,
            is_readonly: true,
            dos_time: MEMORY_TIME,
            dos_date: MEMORY_DATE,
            attr: 0x11,
        },
        Some(i) => {
            let (size, time, date) = match files.nodes@[i] {
                Node::Bytes(bytes) => (
                    (bytes@.len() % 0x1_0000_0000) as u32,
                    MEMORY_TIME,
                    MEMORY_DATE,
                ),
                Node::Extent(extent) => (extent.size, extent.time, extent.date),
            };
            Listed {
                filename: name,
                size,
                is_dir: false,
                is_readonly: true,
                dos_time: time,
                dos_date: date,
                attr: node_attr(files.nodes@[i]),
            }
        },
    }
}

/// The entries of a directory held in memory that a search lists.
pub open spec fn tree_listed(
    files: MemFs,
    entries: Seq<(Seq<char>, Option<int>)>,
    pattern: Seq<char>,
    search_attr: u16,
) -> Seq<Listed>
    decreases entries.len(),
{
    if entries.len() == 0 {
        Seq::empty()
    } else {
        let before = tree_listed(files, entries.drop_last(), pattern, search_attr);
        let (name, file) = entries.last();
        let shown = tree_shown(files, name, file);
        if admitted(shown.attr, search_attr) && name_matches(name, pattern) {
            before.push(shown)
        } else {
            before
        }
    }
}

fn tree_entry(files: &MemFs, entry: &TreeEntry) -> (shown: DosDirEntry)
    requires
        files.wf(),
        entry.file matches Some(i) ==> i < files.paths@.len(),
    ensures
        shown@ == tree_shown(*files, entry@.0, entry@.1),
{
    let filename = entry.name.clone();
    match entry.file {
        None => DosDirEntry {
            filename,
            size: 0,
            is_dir: true,
            is_readonly: true,
            dos_time: MEMORY_TIME,
            dos_date: MEMORY_DATE,
            attr: tree_attr(None),
        },
        Some(i) => {
            let node = &files.nodes[i];
            let (size, dos_time, dos_date): (u32, u16, u16) = match node {
                Node::Bytes(bytes) => {
                    assert(bytes@.len() == bytes.len());
                    ((bytes.len() as u64 % 0x1_0000_0000) as u32, MEMORY_TIME, MEMORY_DATE)
                },
                Node::Extent(extent) => (extent.size, extent.time, extent.date),
            };
            DosDirEntry {
                filename,
                size,
                is_dir: false,
                is_readonly: true,
                dos_time,
                dos_date,
                attr: tree_attr(Some(node)),
            }
        },
    }
}

fn list_tree(files: &MemFs, dir: &str, pattern: &str, search_attr: u16) -> (shown: Vec<DosDirEntry>)
    requires
        files.wf(),
    ensures
        listed(shown@) == tree_listed(
            *files,
            entries_of(texts(files.paths@), dir@, files.paths@.len() as int),
            pattern@,
            search_attr,
        ),
{
    let entries = files.list(dir);
    let ghost all = crate::disk::memfs::entry_views(entries@);
    let mut shown: Vec<DosDirEntry> = Vec::new();
    let mut i: usize = 0;
    assert(listed(shown@) =~= tree_listed(*files, all.take(0), pattern@, search_attr));
    while i < entries.len()
        invariant
            files.wf(),
            i <= entries@.len(),
            all == crate::disk::memfs::entry_views(entries@),
            forall|j: int|
                0 <= j < entries@.len() ==> ((#[trigger] entries@[j]).file matches Some(f) ==> f
                    < files.paths@.len()),
            listed(shown@) == tree_listed(*files, all.take(i as int), pattern@, search_attr),
        decreases entries.len() - i,
    {
        let ghost before = shown@;
        assert(all.take(i + 1).drop_last() =~= all.take(i as int));
        assert(all.take(i + 1).last() == entries@[i as int]@);
        let entry = tree_entry(files, &entries[i]);
        if admits(entry.attr, search_attr) && matches_pattern(entries[i].name.as_str(), pattern) {
            let ghost seen = entry@;
            shown.push(entry);
            assert(listed(shown@) =~= listed(before).push(seen));
        }
        i = i + 1;
    }
    assert(all.take(i as int) =~= all);
    shown
}

/// What an entry of a disk image's directory shows.
pub open spec fn entry_shown(entry: Entry) -> Listed {
    Listed {
        filename: entry.name@,
        size: entry.size,
        is_dir: entry.dir(),
        is_readonly: entry.attr & 0x01 != 0,
        dos_time: entry.time,
        dos_date: entry.date,
        attr: entry.attr,
    }
}

pub open spec fn volume_listed(entries: Seq<Entry>, pattern: Seq<char>, search_attr: u16) -> Seq<
    Listed,
>
    decreases entries.len(),
{
    if entries.len() == 0 {
        Seq::empty()
    } else {
        let before = volume_listed(entries.drop_last(), pattern, search_attr);
        let entry = entries.last();
        if admitted(entry.attr, search_attr) && name_matches(entry.name@, pattern) {
            before.push(entry_shown(entry))
        } else {
            before
        }
    }
}

fn list_volume(entries: &Vec<Entry>, pattern: &str, search_attr: u16) -> (shown: Vec<DosDirEntry>)
    ensures
        listed(shown@) == volume_listed(entries@, pattern@, search_attr),
{
    let mut shown: Vec<DosDirEntry> = Vec::new();
    let mut i: usize = 0;
    assert(listed(shown@) =~= volume_listed(entries@.take(0), pattern@, search_attr));
    while i < entries.len()
        invariant
            i <= entries@.len(),
            listed(shown@) == volume_listed(entries@.take(i as int), pattern@, search_attr),
        decreases entries.len() - i,
    {
        let ghost before = shown@;
        assert(entries@.take(i + 1).drop_last() =~= entries@.take(i as int));
        let entry = &entries[i];
        if admits(entry.attr, search_attr) && matches_pattern(entry.name.as_str(), pattern) {
            let one = DosDirEntry {
                filename: entry.name.clone(),
                size: entry.size,
                is_dir: entry.is_dir(),
                is_readonly: entry.attr & 0x01 != 0,
                dos_time: entry.time,
                dos_date: entry.date,
                attr: entry.attr,
            };
            let ghost seen = one@;
            shown.push(one);
            assert(listed(shown@) =~= listed(before).push(seen));
        }
        i = i + 1;
    }
    assert(entries@.take(i as int) =~= entries@);
    shown
}

/// What the host knows of the first entry with a name.
pub open spec fn meta_of(entries: Seq<HostEntry>, name: Seq<char>, from: int) -> Option<Meta>
    decreases entries.len() - from,
{
    if from < 0 || from >= entries.len() {
        None
    } else if entries[from].name@ == name {
        entries[from].meta
    } else {
        meta_of(entries, name, from + 1)
    }
}

fn find_meta(entries: &Vec<HostEntry>, name: &str) -> (meta: Option<Meta>)
    ensures
        meta == meta_of(entries@, name@, 0),
{
    let mut i: usize = 0;
    while i < entries.len()
        invariant
            i <= entries@.len(),
            meta_of(entries@, name@, 0) == meta_of(entries@, name@, i as int),
        decreases entries.len() - i,
    {
        if same(entries[i].name.as_str(), name) {
            return entries[i].meta;
        }
        i = i + 1;
    }
    None
}

/// What a host file shows; everything on read-only media is read-only.
pub open spec fn host_shown(short: Seq<char>, meta: Meta, media_read_only: bool) -> Listed {
    let read_only = media_read_only || meta.read_only;
    Listed {
        filename: short,
        size: (meta.size % 0x1_0000_0000) as u32,
        is_dir: meta.is_dir,
        is_readonly: read_only,
        dos_time: meta.time,
        dos_date: meta.date,
        attr: if meta.is_dir {
            if read_only {
                0x11
            } else {
                0x10
            }
        } else if read_only {
            0x21
        } else {
            0x20
        },
    }
}

/// The entries of a host directory that a search lists, by their DOS names.
pub open spec fn host_listed(
    names: Seq<Seq<char>>,
    short: Seq<Seq<char>>,
    entries: Seq<HostEntry>,
    media_read_only: bool,
    pattern: Seq<char>,
    search_attr: u16,
) -> Seq<Listed>
    decreases names.len(),
{
    if names.len() == 0 {
        Seq::empty()
    } else {
        let before = host_listed(
            names.drop_last(),
            short.drop_last(),
            entries,
            media_read_only,
            pattern,
            search_attr,
        );
        match meta_of(entries, names.last(), 0) {
            None => before,
            Some(meta) => {
                let shown = host_shown(short.last(), meta, media_read_only);
                if admitted(shown.attr, search_attr) && name_matches(short.last(), pattern) {
                    before.push(shown)
                } else {
                    before
                }
            },
        }
    }
}

fn host_entry(short: &String, meta: Meta, media_read_only: bool) -> (shown: DosDirEntry)
    ensures
        shown@ == host_shown(short@, meta, media_read_only),
{
    let read_only = media_read_only || meta.read_only;
    let attr: u8 = if meta.is_dir {
        if read_only {
            0x11
        } else {
            0x10
        }
    } else if read_only {
        0x21
    } else {
        0x20
    };
    DosDirEntry {
        filename: short.clone(),
        size: (meta.size % 0x1_0000_0000) as u32,
        is_dir: meta.is_dir,
        is_readonly: read_only,
        dos_time: meta.time,
        dos_date: meta.date,
        attr,
    }
}

/// Whether some entries are those of a host directory that a search lists,
/// with some DOS names.
pub open spec fn lists_host(
    shown: Seq<Listed>,
    short: Seq<Seq<char>>,
    numbers: Seq<u32>,
    entries: Seq<HostEntry>,
    media_read_only: bool,
    pattern: Seq<char>,
    search_attr: u16,
) -> bool {
    let names = shown_names(host_names(entries));
    &&& all_named(names, short, numbers)
    &&& short.len() == names.len()
    &&& shown == host_listed(names, short, entries, media_read_only, pattern, search_attr)
}

pub open spec fn host_names(entries: Seq<HostEntry>) -> Seq<Seq<char>> {
    Seq::new(entries.len(), |i: int| entries[i].name@)
}

fn list_host(
    entries: &Vec<HostEntry>,
    media_read_only: bool,
    pattern: &str,
    search_attr: u16,
) -> (shown: Vec<DosDirEntry>)
    requires
        entries@.len() < 9_999_999,
    ensures
        exists|short: Seq<Seq<char>>, numbers: Seq<u32>|
            #[trigger] lists_host(
                listed(shown@),
                short,
                numbers,
                entries@,
                media_read_only,
                pattern@,
                search_attr,
            ),
{
    let mut names: Vec<String> = Vec::new();
    let mut i: usize = 0;
    while i < entries.len()
        invariant
            i <= entries@.len(),
            names@.len() == i,
            forall|j: int| 0 <= j < i ==> #[trigger] names@[j]@ == entries@[j].name@,
        decreases entries.len() - i,
    {
        names.push(entries[i].name.clone());
        i = i + 1;
    }
    assert(texts(names@) =~= host_names(entries@));
    let sorted = host_entries(&names);
    let ghost long = long_names(sorted@);
    let ghost short = dos_names(sorted@);
    let ghost numbers = choose|numbers: Seq<u32>| #[trigger] all_named(long, short, numbers);
    let mut shown: Vec<DosDirEntry> = Vec::new();
    let mut i: usize = 0;
    assert(listed(shown@) =~= host_listed(
        long.take(0),
        short.take(0),
        entries@,
        media_read_only,
        pattern@,
        search_attr,
    ));
    while i < sorted.len()
        invariant
            i <= sorted@.len(),
            long == long_names(sorted@),
            short == dos_names(sorted@),
            listed(shown@) == host_listed(
                long.take(i as int),
                short.take(i as int),
                entries@,
                media_read_only,
                pattern@,
                search_attr,
            ),
        decreases sorted.len() - i,
    {
        let ghost before = shown@;
        assert(long.take(i + 1).drop_last() =~= long.take(i as int));
        assert(short.take(i + 1).drop_last() =~= short.take(i as int));
        assert(long.take(i + 1).last() == sorted@[i as int].name@);
        assert(short.take(i + 1).last() == sorted@[i as int].short@);
        if let Some(meta) = find_meta(entries, sorted[i].name.as_str()) {
            let entry = host_entry(&sorted[i].short, meta, media_read_only);
            if admits(entry.attr, search_attr) && matches_pattern(
                sorted[i].short.as_str(),
                pattern,
            ) {
                let ghost seen = entry@;
                shown.push(entry);
                assert(listed(shown@) =~= listed(before).push(seen));
            }
        }
        i = i + 1;
    }
    proof {
        assert(long.take(i as int) =~= long);
        assert(short.take(i as int) =~= short);
        assert(lists_host(
            listed(shown@),
            short,
            numbers,
            entries@,
            media_read_only,
            pattern@,
            search_attr,
        ));
    }
    shown
}

/// The directory and the pattern of a search behind the drive letter.
pub open spec fn search_parts(rest: Seq<char>) -> (Seq<char>, Seq<char>) {
    match last_place(rest, '\\') {
        Some(i) => (rest.take(i + 1), rest.subrange(i + 1, rest.len() as int)),
        None => ("."@, rest),
    }
}

/// Whether some entries are those of a host directory behind some others.
pub open spec fn host_gives(
    all: Seq<Listed>,
    dots: Seq<Listed>,
    entries: Seq<HostEntry>,
    media_read_only: bool,
    pattern: Seq<char>,
    search_attr: u16,
) -> bool {
    &&& all.len() >= dots.len()
    &&& all.take(dots.len() as int) == dots
    &&& exists|short: Seq<Seq<char>>, numbers: Seq<u32>|
        #[trigger] lists_host(
            all.skip(dots.len() as int),
            short,
            numbers,
            entries,
            media_read_only,
            pattern,
            search_attr,
        )
}

/// Whether a search gives some entries, or an error.
pub open spec fn search_gives(
    disk: DiskController,
    spec: Seq<char>,
    search_attr: u16,
    contents: Contents,
    result: Result<Seq<Listed>, u8>,
) -> bool {
    match disk.split_at_drive(slashed(spec)) {
        None => result == Err::<Seq<Listed>, u8>(0x03),
        Some((drive, rest)) => match disk.at(drive) {
            None => result == Err::<Seq<Listed>, u8>(0x03),
            Some(d) => {
                let (dir, pattern) = search_parts(rest);
                if search_attr & 0x08 != 0 {
                    result == Ok::<Seq<Listed>, u8>(seq![label_listed(d.label@)])
                } else {
                    match d.storage {
                        Storage::Tree { files, .. } => {
                            let path = capital_path(components(d.current_dir@, dir));
                            if !files.has_dir(path) {
                                result == Err::<Seq<Listed>, u8>(0x03)
                            } else {
                                result == Ok::<Seq<Listed>, u8>(
                                    (if path.len() > 0 {
                                        dots_listed(pattern)
                                    } else {
                                        Seq::empty()
                                    }) + tree_listed(
                                        files,
                                        entries_of(
                                            texts(files.paths@),
                                            path,
                                            files.paths@.len() as int,
                                        ),
                                        pattern,
                                        search_attr,
                                    ),
                                )
                            }
                        },
                        Storage::Volume(_) => match contents {
                            Contents::Volume(Ok(entries)) => result == Ok::<Seq<Listed>, u8>(
                                volume_listed(entries@, pattern, search_attr),
                            ),
                            _ => result == Err::<Seq<Listed>, u8>(0x03),
                        },
                        Storage::Host(_) => match contents {
                            Contents::Host { is_dir, is_root, entries } => if !is_dir {
                                result == Err::<Seq<Listed>, u8>(0x03)
                            } else {
                                result matches Ok(all) && host_gives(
                                    all,
                                    if is_root {
                                        Seq::empty()
                                    } else {
                                        dots_listed(pattern)
                                    },
                                    entries@,
                                    d.read_only,
                                    pattern,
                                    search_attr,
                                )
                            },
                            _ => result == Err::<Seq<Listed>, u8>(0x03),
                        },
                    }
                }
            },
        },
    }
}

/// A result by what its entries tell.
pub open spec fn seen(result: Result<Vec<DosDirEntry>, u8>) -> Result<Seq<Listed>, u8> {
    match result {
        Ok(entries) => Ok(listed(entries@)),
        Err(e) => Err(e),
    }
}

fn joined_lists(first: Vec<DosDirEntry>, second: Vec<DosDirEntry>) -> (all: Vec<DosDirEntry>)
    ensures
        listed(all@) == listed(first@) + listed(second@),
{
    let ghost one = first@;
    let ghost two = second@;
    let mut all = first;
    let mut second = second;
    all.append(&mut second);
    assert(all@ =~= one + two);
    assert(listed(all@) =~= listed(one) + listed(two));
    all
}

impl DiskController {
    /// All entries matching a search spec, in the order FindFirst/FindNext
    /// return them. Directory listings (DIR) use this directly. What a
    /// directory that isn't held in memory holds is given.
    pub fn list_directory(&self, search_spec: &str, search_attr: u16, contents: &Contents) -> (found:
        Result<Vec<DosDirEntry>, u8>)
        requires
            self.wf(),
            forall|d: u8|
                #[trigger] self.at(d) matches Some(drive) ==> chars_in(drive.label@, 8) is Some,
            contents matches Contents::Host { entries, .. } ==> entries@.len() < 9_999_999,
        ensures
            search_gives(*self, search_spec@, search_attr, *contents, seen(found)),
    {
        let chars = chars_of(search_spec);
        let whole = replace_char(&chars, '/', '\\');
        let (drive_num, rest): (u8, Vec<char>) = match self.split_drive(&whole) {
            Some(split) => split,
            None => {
                return Err(0x03);
            },
        };
        let drive = match self.drive(drive_num) {
            Some(d) => d,
            None => {
                return Err(0x03);
            },
        };
        // Handle Volume Label request
        if search_attr & 0x08 != 0 {
            assert(self.at(drive_num) is Some);
            let entry = label_entry(drive.label.as_str());
            let mut entries: Vec<DosDirEntry> = Vec::new();
            entries.push(entry);
            assert(listed(entries@) =~= seq![label_listed(drive.label@)]);
            return Ok(entries);
        }
        // Split Spec into Directory and Pattern
        assert(rest@.subrange(0, rest@.len() as int) =~= rest@);
        assert(rest@.len() == rest.len());
        let (dir, from): (Vec<char>, usize) = match last_of(&rest, 0, '\\') {
            Some(i) => {
                let head = vstd::slice::slice_to_vec(
                    vstd::slice::slice_subrange(rest.as_slice(), 0, i + 1),
                );
                assert(head@ =~= rest@.take(i + 1));
                (head, i + 1)
            },
            None => (chars_of("."), 0),
        };
        let pattern = text_between(&rest, from, rest.len());
        assert(pattern@ =~= search_parts(rest@).1);
        assert(dir@ =~= search_parts(rest@).0);
        match &drive.storage {
            Storage::Volume(_) => match contents {
                Contents::Volume(Ok(entries)) => Ok(
                    list_volume(entries, pattern.as_str(), search_attr),
                ),
                _ => Err(0x03),
            },
            Storage::Tree { files, .. } => {
                let parts = logical_components(drive, &dir);
                let path = capital_text(&parts);
                if !files.is_dir(path.as_str()) {
                    return Err(0x03);
                }
                let dots: Vec<DosDirEntry> = if path.as_str().unicode_len() > 0 {
                    dot_entries(pattern.as_str())
                } else {
                    Vec::new()
                };
                assert(listed(dots@) =~= (if path@.len() > 0 {
                    dots_listed(pattern@)
                } else {
                    Seq::empty()
                }));
                let shown = list_tree(files, path.as_str(), pattern.as_str(), search_attr);
                Ok(joined_lists(dots, shown))
            },
            Storage::Host(_) => match contents {
                Contents::Host { is_dir, is_root, entries } => {
                    if !*is_dir {
                        return Err(0x03);
                    }
                    let dots: Vec<DosDirEntry> = if *is_root {
                        Vec::new()
                    } else {
                        dot_entries(pattern.as_str())
                    };
                    let ghost up = listed(dots@);
                    assert(up =~= (if *is_root {
                        Seq::empty()
                    } else {
                        dots_listed(pattern@)
                    }));
                    let shown = list_host(
                        entries,
                        drive.read_only,
                        pattern.as_str(),
                        search_attr,
                    );
                    let ghost below = listed(shown@);
                    let all = joined_lists(dots, shown);
                    proof {
                        let view = listed(all@);
                        assert(view.take(up.len() as int) =~= up);
                        assert(view.skip(up.len() as int) =~= below);
                        assert(host_gives(
                            view,
                            up,
                            entries@,
                            drive.read_only,
                            pattern@,
                            search_attr,
                        ));
                    }
                    Ok(all)
                },
                _ => Err(0x03),
            },
        }
    }

    // INT 21h, AH=4E/4F: Find First / Find Next
    // search_spec contains the path AND the pattern e.g. "C:\GAMES\*.EXE" or "*.EXE"
    pub fn find_directory_entry(
        &self,
        search_spec: &str,
        search_index: usize,
        search_attr: u16,
        contents: &Contents,
    ) -> (found: Result<DosDirEntry, u8>)
        requires
            self.wf(),
            forall|d: u8|
                #[trigger] self.at(d) matches Some(drive) ==> chars_in(drive.label@, 8) is Some,
            contents matches Contents::Host { entries, .. } ==> entries@.len() < 9_999_999,
        ensures
            exists|all: Result<Seq<Listed>, u8>|
                #[trigger] search_gives(*self, search_spec@, search_attr, *contents, all) && (
                match all {
                    Err(e) => found == Err::<DosDirEntry, u8>(e),
                    Ok(entries) => if search_index < entries.len() {
                        found matches Ok(entry) && entry@ == entries[search_index as int]
                    } else {
                        found == Err::<DosDirEntry, u8>(0x12)
                    },
                }),
    {
        let result = self.list_directory(search_spec, search_attr, contents);
        let ghost all = seen(result);
        assert(search_gives(*self, search_spec@, search_attr, *contents, all));
        match result {
            Err(e) => Err(e),
            Ok(entries) => {
                let mut entries = entries;
                if search_index < entries.len() {
                    assert(listed(entries@)[search_index as int] == entries@[search_index as int]@);
                    Ok(entries.swap_remove(search_index))
                } else {
                    Err(0x12)
                }
            },
        }
    }
}

/// A path without the backslashes at its end.
pub open spec fn unslashed(path: Seq<char>) -> Seq<char>
    decreases path.len(),
{
    if path.len() > 0 && path.last() == '\\' {
        unslashed(path.drop_last())
    } else {
        path
    }
}

fn trim_slashes(path: &str) -> (out: String)
    ensures
        out@ == unslashed(path@),
{
    let chars = chars_of(path);
    let mut n: usize = chars.len();
    assert(chars@.take(n as int) =~= path@);
    while n > 0 && chars[n - 1] == '\\'
        invariant
            n <= chars@.len(),
            unslashed(path@) == unslashed(chars@.take(n as int)),
        decreases n,
    {
        assert(chars@.take(n as int).drop_last() =~= chars@.take(n - 1));
        n = n - 1;
    }
    let out = text_between(&chars, 0, n);
    assert(out@ =~= chars@.take(n as int));
    out
}

/// The files among some entries, each with its path in a directory.
pub open spec fn files_in(dir: Seq<char>, entries: Seq<Listed>) -> Seq<(Seq<char>, Listed)>
    decreases entries.len(),
{
    if entries.len() == 0 {
        Seq::empty()
    } else {
        let before = files_in(dir, entries.drop_last());
        if entries.last().is_dir {
            before
        } else {
            before.push((dir + "\\"@ + entries.last().filename, entries.last()))
        }
    }
}

pub open spec fn paths_seen(files: Seq<(String, DosDirEntry)>) -> Seq<(Seq<char>, Listed)> {
    Seq::new(files.len(), |i: int| (files[i].0@, files[i].1@))
}

impl DiskController {
    /// The files a path names, with wildcards in its last part or not,
    /// each with its fully qualified DOS path, as DEL, COPY, REN, FOR and
    /// IF EXIST take them: directories, hidden and system files are left
    /// out.
    pub fn matching_files(&self, spec: &str, contents: &Contents) -> (found: Result<
        Vec<(String, DosDirEntry)>,
        u8,
    >)
        requires
            self.wf(),
            forall|d: u8|
                #[trigger] self.at(d) matches Some(drive) ==> chars_in(drive.label@, 8) is Some,
            contents matches Contents::Host { entries, .. } ==> entries@.len() < 9_999_999,
        ensures
            exists|all: Result<Seq<Listed>, u8>|
                #[trigger] search_gives(*self, spec@, 0, *contents, all) && (match all {
                    Err(e) => found == Err::<Vec<(String, DosDirEntry)>, u8>(e),
                    Ok(entries) => match self.qualified_directory(spec@) {
                        None => found == Err::<Vec<(String, DosDirEntry)>, u8>(0x03),
                        Some(dir) => found matches Ok(files) && paths_seen(files@) == files_in(
                            unslashed(dir),
                            entries,
                        ),
                    },
                }),
    {
        let result = self.list_directory(spec, 0, contents);
        let ghost all = seen(result);
        assert(search_gives(*self, spec@, 0, *contents, all));
        let entries = match result {
            Err(e) => {
                return Err(e);
            },
            Ok(entries) => entries,
        };
        let dir = match self.qualify_directory(spec) {
            None => {
                return Err(0x03);
            },
            Some(dir) => trim_slashes(dir.as_str()),
        };
        let mut files: Vec<(String, DosDirEntry)> = Vec::new();
        let ghost views = listed(entries@);
        let mut i: usize = 0;
        assert(paths_seen(files@) =~= files_in(dir@, views.take(0)));
        while i < entries.len()
            invariant
                i <= entries@.len(),
                views == listed(entries@),
                paths_seen(files@) == files_in(dir@, views.take(i as int)),
            decreases entries.len() - i,
        {
            let ghost before = files@;
            assert(views.take(i + 1).drop_last() =~= views.take(i as int));
            assert(views.take(i + 1).last() == entries@[i as int]@);
            let entry = &entries[i];
            if !entry.is_dir {
                let mut path = dir.clone();
                path.append("\\");
                path.append(entry.filename.as_str());
                let copy = DosDirEntry {
                    filename: entry.filename.clone(),
                    size: entry.size,
                    is_dir: entry.is_dir,
                    is_readonly: entry.is_readonly,
                    dos_time: entry.dos_time,
                    dos_date: entry.dos_date,
                    attr: entry.attr,
                };
                let ghost pair = (path@, copy@);
                files.push((path, copy));
                assert(paths_seen(files@) =~= paths_seen(before).push(pair));
            }
            i = i + 1;
        }
        assert(views.take(i as int) =~= views);
        Ok(files)
    }
}

/// A search lists neither directories nor hidden or system files unless they
/// are asked for.
pub proof fn law_searches_hide(
    files: MemFs,
    entries: Seq<(Seq<char>, Option<int>)>,
    pattern: Seq<char>,
    i: int,
)
    requires
        0 <= i < tree_listed(files, entries, pattern, 0).len(),
    ensures
        !tree_listed(files, entries, pattern, 0)[i].is_dir,
        tree_listed(files, entries, pattern, 0)[i].attr & 0x06 == 0,
    decreases entries.len(),
{
    if entries.len() > 0 {
        let before = tree_listed(files, entries.drop_last(), pattern, 0);
        if i < before.len() {
            law_searches_hide(files, entries.drop_last(), pattern, i);
        } else {
            let (name, file) = entries.last();
            let attr = tree_shown(files, name, file).attr;
            assert(admitted(attr, 0));
            assert(attr == 0x11 || attr == 0x21 || attr == 0x23);
            assert((0x11u8 as u16 & 0x16) & !0u16 != 0 && (0x23u8 as u16 & 0x16) & !0u16 != 0
                && 0x21u8 & 0x06 == 0) by (bit_vector);
        }
    }
}

} // verus!
