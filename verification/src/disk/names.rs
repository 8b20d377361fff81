//! The names DOS gives to drives, files and devices, and the kinds of drives.

use vstd::prelude::*;

use crate::text::{
    chars_of, first_of, first_place, last_of, last_place, same, text_between, trim, trim_bounds,
    trimmed, upper, upper_char, upper_of, uppercase,
};

verus! {

// DOS defines standard handles: 0=Stdin, 1=Stdout, 2=Stderr, 3=Aux, 4=Printer
pub const FIRST_USER_HANDLE: u16 = 5;

/// A job file table has at most 255 slots (0xFF marks an unused one).
pub const HANDLE_LIMIT: u16 = 0xFF;

// Drive numbers are 0-based (0=A:, 2=C:, 25=Z:).
pub const DRIVE_C: u8 = 2;

pub const DRIVE_Z: u8 = 25;

/// A: and B: are the BIOS floppy units: whatever is mounted there is a
/// floppy drive.
pub const FLOPPY_DRIVES: u8 = 2;

/// Number of drive letters reported to programs (LASTDRIVE=Z).
pub const LASTDRIVE: u8 = 26;

/// Volume label used when a mount doesn't specify one.
pub const DEFAULT_LABEL: &'static str = "RUSTDOS";

/// Usable data clusters on a 1.44 MB floppy with 512-byte clusters.
pub const FLOPPY_CLUSTERS: u16 = 2847;

/// DOS time and date of the files held in memory: 1 January 2020.
pub const MEMORY_TIME: u16 = 0x0000;

pub const MEMORY_DATE: u16 = 0x5021;

/// Volumes with fewer clusters than this have 12-bit FATs.
pub const FAT12_MAX_CLUSTERS: u16 = 4085;

/// The letter of a drive.
pub open spec fn letter_of(drive: u8) -> char {
    (0x41 + drive) as char
}

pub fn drive_letter(drive: u8) -> (letter: char)
    requires
        drive <= 0xBE,
    ensures
        letter == letter_of(drive),
{
    (0x41 + drive) as char
}

pub open spec fn is_letter(c: char) -> bool {
    'A' <= c <= 'Z' || 'a' <= c <= 'z'
}

/// The drive a path starts with, if it does with a letter and a colon.
pub open spec fn drive_prefix(path: Seq<char>) -> Option<u8> {
    if path.len() >= 2 && path[1] == ':' && is_letter(path[0]) {
        Some((upper_char(path[0]) as u8 - 0x41) as u8)
    } else {
        None
    }
}

/// What stands behind the drive a path starts with.
pub open spec fn without_prefix(path: Seq<char>) -> Seq<char> {
    if drive_prefix(path) is Some {
        path.subrange(2, path.len() as int)
    } else {
        path
    }
}

/// Split an optional leading "X:" off a DOS path. Any other first
/// character, ASCII or not, is part of the path.
pub fn parse_drive_prefix(path: &str) -> (split: (Option<u8>, &str))
    ensures
        split.0 == drive_prefix(path@),
        split.1@ == without_prefix(path@),
        split.0 matches Some(d) ==> d < LASTDRIVE,
{
    let n: usize = path.unicode_len();
    if n >= 2 && path.get_char(1) == ':' {
        let c = path.get_char(0);
        if ('A' <= c && c <= 'Z') || ('a' <= c && c <= 'z') {
            return (Some(upper_of(c) as u8 - 0x41), path.substring_char(2, n));
        }
    }
    (None, path)
}

/// A volume label as DOS keeps it.
pub open spec fn label_text(label: Seq<char>) -> Seq<char> {
    let text = upper(trimmed(label));
    if text.len() > 11 {
        text.take(11)
    } else {
        text
    }
}

/// DOS volume labels are at most 11 uppercase characters.
pub fn normalize_label(label: &str) -> (text: String)
    ensures
        text@ == label_text(label@),
        text@.len() <= 11,
        forall|i: int| 0 <= i < text@.len() ==> !('a' <= #[trigger] text@[i] <= 'z'),
{
    let chars = chars_of(label);
    let (from, to): (usize, usize) = trim_bounds(&chars);
    let end: usize = if to - from > 11 {
        from + 11
    } else {
        to
    };
    let part = text_between(&chars, from, end);
    let text = uppercase(part.as_str());
    assert(text@ =~= label_text(label@));
    text
}

/// Whether DOS allows a character in a file name.
pub open spec fn is_dos_char(c: char) -> bool {
    ||| is_letter(c)
    ||| '0' <= c <= '9'
    ||| c == '!' || c == '#' || c == '$' || c == '%' || c == '&' || c == '\''
    ||| c == '(' || c == ')' || c == '-' || c == '@' || c == '^' || c == '_'
    ||| c == '`' || c == '{' || c == '}' || c == '~'
}

pub(crate) fn dos_name_char(c: char) -> (yes: bool)
    ensures
        yes == is_dos_char(c),
{
    ('A' <= c && c <= 'Z') || ('a' <= c && c <= 'z') || ('0' <= c && c <= '9') || c == '!' || c
        == '#' || c == '$' || c == '%' || c == '&' || c == '\'' || c == '(' || c == ')' || c == '-'
        || c == '@' || c == '^' || c == '_' || c == '`' || c == '{' || c == '}' || c == '~'
}

/// What stands before the last dot of a name.
pub open spec fn stem_of(name: Seq<char>) -> Seq<char> {
    match last_place(name, '.') {
        Some(i) => name.take(i),
        None => name,
    }
}

/// What stands behind the last dot of a name.
pub open spec fn ext_of(name: Seq<char>) -> Seq<char> {
    match last_place(name, '.') {
        Some(i) => name.subrange(i + 1, name.len() as int),
        None => Seq::empty(),
    }
}

pub open spec fn all_dos_chars(text: Seq<char>) -> bool {
    forall|i: int| 0 <= i < text.len() ==> is_dos_char(#[trigger] text[i])
}

/// Whether a name already is a DOS 8.3 name, in any case.
pub open spec fn is_8_3(name: Seq<char>) -> bool {
    let stem = stem_of(name);
    let ext = ext_of(name);
    &&& 0 < stem.len() <= 8
    &&& ext.len() <= 3
    &&& name.last() != '.'
    &&& all_dos_chars(stem)
    &&& all_dos_chars(ext)
}

fn dos_chars_between(chars: &Vec<char>, from: usize, to: usize) -> (yes: bool)
    requires
        from <= to <= chars@.len(),
    ensures
        yes == all_dos_chars(chars@.subrange(from as int, to as int)),
{
    let ghost part = chars@.subrange(from as int, to as int);
    let mut i: usize = from;
    while i < to
        invariant
            from <= i <= to <= chars@.len(),
            part == chars@.subrange(from as int, to as int),
            forall|j: int| 0 <= j < i - from ==> is_dos_char(#[trigger] part[j]),
        decreases to - i,
    {
        assert(part[i - from] == chars@[i as int]);
        if !dos_name_char(chars[i]) {
            return false;
        }
        i = i + 1;
    }
    true
}

/// Whether `name` already is a DOS 8.3 name, in any case.
pub(crate) fn is_short_name(chars: &Vec<char>) -> (yes: bool)
    ensures
        yes == is_8_3(chars@),
{
    let n: usize = chars.len();
    if n == 0 {
        return false;
    }
    assert(chars@.subrange(0, chars@.len() as int) =~= chars@);
    assert(chars@.len() == n);
    let (stem, ext): (usize, usize) = match last_of(chars, 0, '.') {
        Some(i) => (i, i + 1),
        None => (n, n),
    };
    assert(chars@.subrange(0, stem as int) =~= stem_of(chars@));
    assert(chars@.subrange(ext as int, n as int) =~= ext_of(chars@));
    0 < stem && stem <= 8 && n - ext <= 3 && chars[n - 1] != '.' && dos_chars_between(
        chars,
        0,
        stem,
    ) && dos_chars_between(chars, ext, n)
}

/// A DOS character device a program opened by name.
#[derive(Clone, Copy, Debug, PartialEq, Eq, Structural)]
pub enum CharDevice {
    /// NUL, and the printer and serial ports, which nothing is attached
    /// to: reads find nothing, writes vanish.
    Nul,
    /// CON: writes go to the screen.
    Con,
    /// EMMXXXX0, the expanded memory manager, which programs open to see
    /// whether there is EMS.
    Emm,
}

/// What stands behind the last separator of a path.
pub open spec fn last_component(path: Seq<char>) -> Seq<char>
    decreases path.len(),
{
    if path.len() == 0 || path.last() == '\\' || path.last() == '/' || path.last() == ':' {
        Seq::empty()
    } else {
        last_component(path.drop_last()).push(path.last())
    }
}

/// What names a device in a path: the last component without its extension.
pub open spec fn device_name(path: Seq<char>) -> Seq<char> {
    let last = last_component(path);
    upper(
        trimmed(
            match first_place(last, '.') {
                Some(i) => last.take(i),
                None => last,
            },
        ),
    )
}

/// The character device a path names.
pub open spec fn device_of(path: Seq<char>) -> Option<CharDevice> {
    let name = device_name(path);
    if name == "CON"@ {
        Some(CharDevice::Con)
    } else if name == "NUL"@ || name == "PRN"@ || name == "AUX"@ || name == "LPT1"@ || name
        == "LPT2"@ || name == "LPT3"@ || name == "COM1"@ || name == "COM2"@ || name == "COM3"@
        || name == "COM4"@ || name == "CLOCK$"@ {
        Some(CharDevice::Nul)
    } else {
        None
    }
}

/// The name of the device a path would name.
pub(crate) fn device_text(path: &str) -> (name: String)
    ensures
        name@ == device_name(path@),
{
    let chars = chars_of(path);
    let n: usize = chars.len();
    let mut from: usize = n;
    let ghost all = chars@;
    assert(all.take(n as int) =~= all);
    assert(all.subrange(n as int, n as int) =~= Seq::empty());
    while from > 0 && chars[from - 1] != '\\' && chars[from - 1] != '/' && chars[from - 1] != ':'
        invariant
            from <= n == chars@.len(),
            all == chars@,
            last_component(all) == last_component(all.take(from as int)) + all.subrange(
                from as int,
                n as int,
            ),
        decreases from,
    {
        proof {
            let head = all.take(from as int);
            assert(head.drop_last() =~= all.take(from - 1));
            assert(last_component(head) == last_component(all.take(from - 1)).push(
                all[from - 1],
            ));
            assert(all.subrange(from - 1, n as int) =~= seq![all[from - 1]] + all.subrange(
                from as int,
                n as int,
            ));
            assert(last_component(all) =~= last_component(all.take(from - 1)) + all.subrange(
                from - 1,
                n as int,
            ));
        }
        from = from - 1;
    }
    let last = text_between(&chars, from, n);
    assert(last@ =~= last_component(path@)) by {
        assert(last_component(all.take(from as int)) =~= Seq::empty());
    }
    let last_chars = chars_of(last.as_str());
    let end: usize = match first_of(&last_chars, '.') {
        Some(i) => i,
        None => last_chars.len(),
    };
    let stem = text_between(&last_chars, 0, end);
    proof {
        let whole = last_component(path@);
        match first_place(whole, '.') {
            Some(i) => {
                assert(stem@ =~= whole.take(i));
            },
            None => {
                assert(stem@ =~= whole);
            },
        }
    }
    let name = trim(stem.as_str());
    uppercase(name.as_str())
}

/// The character device a file name names. DOS finds devices by name in
/// any directory, with any extension: "C:\GAME\NUL.TXT" is NUL.
pub fn char_device(filename: &str) -> (device: Option<CharDevice>)
    ensures
        device == device_of(filename@),
{
    let text = device_text(filename);
    let name = text.as_str();
    if same(name, "CON") {
        Some(CharDevice::Con)
    } else if same(name, "NUL") || same(name, "PRN") || same(name, "AUX") || same(name, "LPT1")
        || same(name, "LPT2") || same(name, "LPT3") || same(name, "COM1") || same(name, "COM2")
        || same(name, "COM3") || same(name, "COM4") || same(name, "CLOCK$") {
        Some(CharDevice::Nul)
    } else {
        None
    }
}

/// Whether a part of a name matches a part of a pattern: `*` stands for any
/// rest, and `?` for any character or none.
pub open spec fn part_matches(name: Seq<char>, pattern: Seq<char>) -> bool
    decreases pattern.len(),
{
    if pattern.len() == 0 {
        name.len() == 0
    } else if pattern[0] == '*' {
        true
    } else if name.len() == 0 {
        pattern[0] == '?' && part_matches(name, pattern.skip(1))
    } else {
        (pattern[0] == '?' || upper_char(pattern[0]) == upper_char(name[0])) && part_matches(
            name.skip(1),
            pattern.skip(1),
        )
    }
}

/// What stands before the first dot of a name.
pub open spec fn front_of(name: Seq<char>) -> Seq<char> {
    match first_place(name, '.') {
        Some(i) => name.take(i),
        None => name,
    }
}

/// What stands behind the first dot of a name.
pub open spec fn behind_dot(name: Seq<char>) -> Seq<char> {
    match first_place(name, '.') {
        Some(i) => name.subrange(i + 1, name.len() as int),
        None => Seq::empty(),
    }
}

/// Whether a file name matches a pattern.
pub open spec fn name_matches(name: Seq<char>, pattern: Seq<char>) -> bool {
    pattern == "*.*"@ || (part_matches(front_of(name), front_of(pattern)) && part_matches(
        behind_dot(name),
        behind_dot(pattern),
    ))
}

fn match_part(
    name: &Vec<char>,
    name_from: usize,
    name_to: usize,
    pattern: &Vec<char>,
    from: usize,
    to: usize,
) -> (yes: bool)
    requires
        name_from <= name_to <= name@.len(),
        from <= to <= pattern@.len(),
    ensures
        yes == part_matches(
            name@.subrange(name_from as int, name_to as int),
            pattern@.subrange(from as int, to as int),
        ),
{
    let mut f: usize = name_from;
    let mut p: usize = from;
    let ghost goal = part_matches(
        name@.subrange(name_from as int, name_to as int),
        pattern@.subrange(from as int, to as int),
    );
    while p < to
        invariant
            name_from <= f <= name_to <= name@.len(),
            from <= p <= to <= pattern@.len(),
            goal == part_matches(
                name@.subrange(name_from as int, name_to as int),
                pattern@.subrange(from as int, to as int),
            ),
            goal == part_matches(
                name@.subrange(f as int, name_to as int),
                pattern@.subrange(p as int, to as int),
            ),
        decreases to - p,
    {
        let ghost n = name@.subrange(f as int, name_to as int);
        let ghost q = pattern@.subrange(p as int, to as int);
        assert(q.skip(1) =~= pattern@.subrange(p + 1, to as int));
        let c = pattern[p];
        if c == '*' {
            return true;
        }
        if f < name_to {
            assert(n.skip(1) =~= name@.subrange(f + 1, name_to as int));
            if c != '?' && upper_of(c) != upper_of(name[f]) {
                return false;
            }
            f = f + 1;
        } else if c != '?' {
            return false;
        }
        p = p + 1;
    }
    f == name_to
}

/// Simple DOS wildcard matching (? and *)
pub fn matches_pattern(filename: &str, pattern: &str) -> (yes: bool)
    ensures
        yes == name_matches(filename@, pattern@),
{
    if same(pattern, "*.*") {
        return true;
    }
    let f = chars_of(filename);
    let p = chars_of(pattern);
    assert(f@.len() == f.len() && p@.len() == p.len());
    let (f_end, f_ext): (usize, usize) = match first_of(&f, '.') {
        Some(i) => (i, i + 1),
        None => (f.len(), f.len()),
    };
    let (p_end, p_ext): (usize, usize) = match first_of(&p, '.') {
        Some(i) => (i, i + 1),
        None => (p.len(), p.len()),
    };
    proof {
        assert(f@.subrange(0, f_end as int) =~= front_of(filename@));
        assert(f@.subrange(f_ext as int, f@.len() as int) =~= behind_dot(filename@));
        assert(p@.subrange(0, p_end as int) =~= front_of(pattern@));
        assert(p@.subrange(p_ext as int, p@.len() as int) =~= behind_dot(pattern@));
    }
    match_part(&f, 0, f_end, &p, 0, p_end) && match_part(&f, f_ext, f.len(), &p, p_ext, p.len())
}

/// Every name matches "*.*" and itself.
pub proof fn law_names_match_themselves(name: Seq<char>)
    ensures
        name_matches(name, "*.*"@),
        name_matches(name, name),
{
    lemma_part_matches_itself(front_of(name));
    lemma_part_matches_itself(behind_dot(name));
}

proof fn lemma_part_matches_itself(part: Seq<char>)
    ensures
        part_matches(part, part),
    decreases part.len(),
{
    if part.len() > 0 {
        lemma_part_matches_itself(part.skip(1));
    }
}

} // verus!
