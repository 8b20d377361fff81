//! The way from a drive's root to a place on the host.

use vstd::prelude::*;

use crate::disk::paths::{
    dos_names, find_host_child, finds, host_entries, long_match, long_names, short_match,
    shown_names, sorted_place, walked, HostName,
};
use crate::disk::short::all_named;
use crate::text::{join_text, joined, same, texts, upper, upper_char};

verus! {

/// Whether an entry is the one that a DOS path component names among the
/// names in a host directory.
pub open spec fn child_of(listing: Seq<Seq<char>>, part: Seq<char>, found: HostName) -> bool {
    exists|entries: Seq<HostName>, numbers: Seq<u32>|
        {
            &&& long_names(entries) == shown_names(listing)
            &&& #[trigger] all_named(long_names(entries), dos_names(entries), numbers)
            &&& finds(entries, part, found)
        }
}

/// The components of a DOS path from a drive's root, and how far they were
/// followed on the host: what was found for each.
#[derive(Debug)]
pub struct HostWalk {
    pub parts: Vec<String>,
    pub found: Vec<HostName>,
}

impl HostWalk {
    pub open spec fn wf(&self) -> bool {
        self.found@.len() <= self.parts@.len()
    }

    pub fn new(parts: Vec<String>) -> (walk: Self)
        ensures
            walk.wf(),
            walk.parts == parts,
            walk.found@.len() == 0,
    {
        HostWalk { parts, found: Vec::new() }
    }

    /// Whether all of the path was followed.
    pub fn is_done(&self) -> (yes: bool)
        requires
            self.wf(),
        ensures
            yes == (self.found@.len() == self.parts@.len()),
    {
        self.found.len() == self.parts.len()
    }

    /// Follow the next component into the directory reached so far, which
    /// has the names given. The host's name of it comes back.
    pub fn enter(&mut self, listing: &Vec<String>) -> (name: String)
        requires
            old(self).wf(),
            old(self).found@.len() < old(self).parts@.len(),
            listing@.len() < 9_999_999,
        ensures
            final(self).wf(),
            final(self).parts == old(self).parts,
            final(self).found@.len() == old(self).found@.len() + 1,
            final(self).found@.drop_last() == old(self).found@,
            child_of(
                texts(listing@),
                old(self).parts@[old(self).found@.len() as int]@,
                final(self).found@.last(),
            ),
            name@ == final(self).found@.last().name@,
    {
        let entries = host_entries(listing);
        let found = find_host_child(&entries, self.parts[self.found.len()].as_str());
        proof {
            let numbers = choose|numbers: Seq<u32>|
                #[trigger] all_named(long_names(entries@), dos_names(entries@), numbers);
            assert(all_named(long_names(entries@), dos_names(entries@), numbers));
        }
        let name = found.name.clone();
        self.found.push(found);
        assert(self.found@.drop_last() =~= old(self).found@);
        name
    }

    /// The path followed so far in DOS names, e.g. "GAMES\\DAYOFT~1".
    pub fn dos_path(&self) -> (path: String)
        ensures
            path@ == joined(dos_names(self.found@), '\\'),
    {
        let mut shown: Vec<String> = Vec::new();
        let mut i: usize = 0;
        while i < self.found.len()
            invariant
                i <= self.found@.len(),
                shown@.len() == i,
                forall|j: int| 0 <= j < i ==> (#[trigger] shown@[j])@ == self.found@[j].short@,
            decreases self.found.len() - i,
        {
            shown.push(self.found[i].short.clone());
            i = i + 1;
        }
        assert(texts(shown@) =~= dos_names(self.found@));
        join_text(&shown, '\\')
    }
}

// ---------------------------------------------------------------------------
// Names that are to be made
// ---------------------------------------------------------------------------

/// A text in capitals of all alphabets, as `str::to_uppercase` has it.
pub uninterp spec fn in_capitals(text: Seq<char>) -> Seq<char>;

/// `str::to_uppercase`: the text in capitals, which are those of Unicode and
/// depend on the text alone.
#[verifier::external_body]
fn capitals(text: &str) -> (out: String)
    ensures
        out@ == in_capitals(text@),
{
    text.to_uppercase()
}

/// The name that a file or directory is made with on the host.
pub fn made_name(leaf: &str) -> (name: String)
    ensures
        name@ == in_capitals(leaf@),
{
    capitals(leaf)
}

/// The first of some names, from one on, that equals another.
pub open spec fn first_alike(names: Seq<Seq<char>>, name: Seq<char>, from: int) -> Option<int>
    decreases names.len() - from,
{
    if from < 0 || from >= names.len() {
        None
    } else if names[from] == name {
        Some(from)
    } else {
        first_alike(names, name, from + 1)
    }
}

fn find_alike(names: &Vec<String>, name: &str) -> (at: Option<usize>)
    ensures
        match (at, first_alike(texts(names@), name@, 0)) {
            (Some(i), Some(j)) => i == j,
            (None, None) => true,
            _ => false,
        },
{
    let mut i: usize = 0;
    while i < names.len()
        invariant
            i <= names@.len(),
            first_alike(texts(names@), name@, 0) == first_alike(texts(names@), name@, i as int),
        decreases names.len() - i,
    {
        if same(names[i].as_str(), name) {
            return Some(i);
        }
        i = i + 1;
    }
    None
}

pub open spec fn all_in_capitals(names: Seq<Seq<char>>) -> Seq<Seq<char>> {
    Seq::new(names.len(), |i: int| in_capitals(names[i]))
}

/// Case-insensitive lookup of a child by name among the names in a host
/// directory.
pub fn find_existing_child(listing: &Vec<String>, name: &str) -> (at: Option<usize>)
    ensures
        match (at, first_alike(all_in_capitals(texts(listing@)), in_capitals(name@), 0)) {
            (Some(i), Some(j)) => i == j,
            (None, None) => true,
            _ => false,
        },
{
    let mut upper_names: Vec<String> = Vec::new();
    let mut i: usize = 0;
    while i < listing.len()
        invariant
            i <= listing@.len(),
            upper_names@.len() == i,
            forall|j: int|
                0 <= j < i ==> (#[trigger] upper_names@[j])@ == in_capitals(listing@[j]@),
        decreases listing.len() - i,
    {
        upper_names.push(capitals(listing[i].as_str()));
        i = i + 1;
    }
    assert(texts(upper_names@) =~= all_in_capitals(texts(listing@)));
    let wanted = capitals(name);
    find_alike(&upper_names, wanted.as_str())
}

// ---------------------------------------------------------------------------
// Staying inside
// ---------------------------------------------------------------------------

/// Whether a path component is a name, and not a step in place or upwards.
pub open spec fn is_name(part: Seq<char>) -> bool {
    part.len() > 0 && part != "."@ && part != ".."@
}

pub open spec fn all_are_names(parts: Seq<Seq<char>>) -> bool {
    forall|i: int| 0 <= i < parts.len() ==> is_name(#[trigger] parts[i])
}

/// A path leads down from where it starts: all of its components are names
/// if those of the directory it starts from are.
pub proof fn law_paths_lead_down(from: Seq<Seq<char>>, parts: Seq<Seq<char>>)
    requires
        all_are_names(from),
    ensures
        all_are_names(walked(from, parts)),
    decreases parts.len(),
{
    if parts.len() > 0 {
        law_paths_lead_down(from, parts.drop_last());
    }
}

proof fn lemma_shown(names: Seq<Seq<char>>, k: int)
    requires
        0 <= k < shown_names(names).len(),
    ensures
        shown_names(names)[k].len() == 0 || shown_names(names)[k][0] != '.',
        names.contains(shown_names(names)[k]),
    decreases names.len(),
{
    let before = shown_names(names.drop_last());
    let name = names.last();
    assert(names.contains(name));
    if name.len() > 0 && name[0] == '.' {
        lemma_shown(names.drop_last(), k);
    } else {
        let at = sorted_place(before, name);
        lemma_place(before, name);
        if k < at {
            lemma_shown(names.drop_last(), k);
        } else if k > at {
            lemma_shown(names.drop_last(), k - 1);
        }
    }
    assert forall|x: Seq<char>| names.drop_last().contains(x) implies names.contains(x) by {
        let i = choose|i: int| 0 <= i < names.drop_last().len() && names.drop_last()[i] == x;
        assert(names[i] == x);
    }
}

proof fn lemma_place(sorted: Seq<Seq<char>>, name: Seq<char>)
    ensures
        0 <= sorted_place(sorted, name) <= sorted.len(),
    decreases sorted.len(),
{
    if sorted.len() > 0 {
        lemma_place(sorted.drop_last(), name);
    }
}

proof fn lemma_matches(entries: Seq<HostName>, target: Seq<char>, from: int)
    ensures
        long_match(entries, target, from) matches Some(i) ==> 0 <= i < entries.len(),
        short_match(entries, target, from) matches Some(i) ==> 0 <= i < entries.len(),
    decreases entries.len() - from,
{
    if 0 <= from < entries.len() {
        lemma_matches(entries, target, from + 1);
    }
}

/// What a component names on the host is a name there too: following a path
/// never leaves the drive's root.
pub proof fn law_walks_stay_inside(listing: Seq<Seq<char>>, part: Seq<char>, found: HostName)
    requires
        child_of(listing, part, found),
        is_name(part),
        forall|i: int| 0 <= i < listing.len() ==> (#[trigger] listing[i]).len() > 0,
    ensures
        is_name(found.name@),
{
    reveal_strlit(".");
    reveal_strlit("..");
    let (entries, numbers) = choose|entries: Seq<HostName>, numbers: Seq<u32>|
        {
            &&& long_names(entries) == shown_names(listing)
            &&& #[trigger] all_named(long_names(entries), dos_names(entries), numbers)
            &&& finds(entries, part, found)
        };
    lemma_matches(entries, part, 0);
    let hit = if long_match(entries, part, 0) is Some {
        long_match(entries, part, 0)
    } else {
        short_match(entries, part, 0)
    };
    match hit {
        Some(i) => {
            assert(long_names(entries)[i] == entries[i].name@);
            lemma_shown(listing, i);
            let k = choose|k: int| 0 <= k < listing.len() && listing[k] == found.name@;
            assert(listing[k].len() > 0);
            assert(found.name@[0] != '.');
        },
        None => {
            assert(found.name@ == upper(part));
            assert(upper(part).len() == part.len());
            assert(forall|c: char| #[trigger] upper_char(c) == '.' ==> c == '.');
            if found.name@ == "."@ {
                assert(upper(part)[0] == '.');
                assert(upper_char(part[0]) == '.');
                assert(part =~= "."@);
            }
            if found.name@ == ".."@ {
                assert(upper(part)[0] == '.' && upper(part)[1] == '.');
                assert(upper_char(part[0]) == '.' && upper_char(part[1]) == '.');
                assert(part =~= ".."@);
            }
        },
    }
}

} // verus!
