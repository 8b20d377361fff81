//! Files held in memory: a tree of them, by their paths.

use vstd::prelude::*;

use crate::text::{chars_of, first_of, first_place, same, text_between, texts, upper, uppercase};

verus! {

/// A file on a CD image: where it is there, and what its directory says.
#[derive(Clone, Copy, Debug, PartialEq, Eq, Structural)]
pub struct Extent {
    /// The sector it starts in.
    pub start: u32,
    pub size: u32,
    pub time: u16,
    pub date: u16,
    pub hidden: bool,
}

/// What a file of a tree holds.
#[derive(Debug)]
pub enum Node {
    /// Bytes, in memory too.
    Bytes(Vec<u8>),
    /// A stretch of a CD image.
    Extent(Extent),
}

/// What a node holds, seen from outside.
pub ghost enum NodeView {
    Bytes(Seq<u8>),
    Extent(Extent),
}

impl Node {
    pub open spec fn view(&self) -> NodeView {
        match self {
            Node::Bytes(bytes) => NodeView::Bytes(bytes@),
            Node::Extent(extent) => NodeView::Extent(*extent),
        }
    }
}

/// A tree of files. Paths are uppercase, with backslashes between their
/// components and none at the start.
#[derive(Debug)]
pub struct MemFs {
    pub paths: Vec<String>,
    pub nodes: Vec<Node>,
}

/// The path of a file in a directory; the root's has no name.
pub open spec fn inside(path: Seq<char>, dir: Seq<char>) -> Option<Seq<char>> {
    if dir.len() == 0 {
        Some(path)
    } else if path.len() > dir.len() && path.take(dir.len() as int) == dir && path[dir.len() as int]
        == '\\' {
        Some(path.subrange(dir.len() as int + 1, path.len() as int))
    } else {
        None
    }
}

/// The entry of a directory that a path in it starts with, and whether that
/// is a directory itself.
pub open spec fn first_component(path: Seq<char>) -> (Seq<char>, bool) {
    match first_place(path, '\\') {
        Some(i) => (path.take(i), true),
        None => (path, false),
    }
}

/// The first place of a text among others.
pub open spec fn place_of(paths: Seq<Seq<char>>, path: Seq<char>, from: int) -> Option<int>
    decreases paths.len() - from,
{
    if from < 0 || from >= paths.len() {
        None
    } else if paths[from] == path {
        Some(from)
    } else {
        place_of(paths, path, from + 1)
    }
}

/// The entries of a directory among the first `n` files, by their names and
/// by the file that is one, in the order of the files; each name once.
pub open spec fn entries_of(paths: Seq<Seq<char>>, dir: Seq<char>, n: int) -> Seq<(
    Seq<char>,
    Option<int>,
)>
    decreases n,
{
    if n <= 0 {
        Seq::empty()
    } else {
        let before = entries_of(paths, dir, n - 1);
        match inside(paths[n - 1], dir) {
            Some(rest) => {
                let (name, deeper) = first_component(rest);
                if name_listed(before, name) {
                    before
                } else {
                    before.push(
                        (
                            name,
                            if deeper {
                                None
                            } else {
                                Some(n - 1)
                            },
                        ),
                    )
                }
            },
            None => before,
        }
    }
}

pub open spec fn name_listed(entries: Seq<(Seq<char>, Option<int>)>, name: Seq<char>) -> bool {
    exists|i: int| 0 <= i < entries.len() && (#[trigger] entries[i]).0 == name
}

/// An entry of a directory held in memory: its name, and the number of the
/// file, or none for a directory.
pub struct TreeEntry {
    pub name: String,
    pub file: Option<usize>,
}

impl TreeEntry {
    pub open spec fn view(&self) -> (Seq<char>, Option<int>) {
        (
            self.name@,
            match self.file {
                Some(i) => Some(i as int),
                None => None,
            },
        )
    }
}

pub open spec fn entry_views(entries: Seq<TreeEntry>) -> Seq<(Seq<char>, Option<int>)> {
    Seq::new(entries.len(), |i: int| entries[i]@)
}

impl MemFs {
    /// There is a node for each path.
    pub open spec fn wf(&self) -> bool {
        self.paths@.len() == self.nodes@.len()
    }

    pub fn new() -> (files: Self)
        ensures
            files.wf(),
            files.paths@.len() == 0,
    {
        MemFs { paths: Vec::new(), nodes: Vec::new() }
    }

    /// The number of the file with a path.
    pub open spec fn number_of(&self, path: Seq<char>) -> Option<int> {
        place_of(texts(self.paths@), path, 0)
    }

    /// Whether a path is that of a directory: the root, or one that files are
    /// in.
    pub open spec fn has_dir(&self, path: Seq<char>) -> bool {
        path.len() == 0 || exists|i: int|
            0 <= i < self.paths@.len() && inside(#[trigger] self.paths@[i]@, path) is Some
    }

    /// Put a file in the tree. The first file with a path is the one found.
    pub fn insert(&mut self, path: &str, bytes: Vec<u8>)
        requires
            old(self).wf(),
        ensures
            final(self).wf(),
            final(self).paths@.len() == old(self).paths@.len() + 1,
            final(self).paths@.drop_last() == old(self).paths@,
            final(self).paths@.last()@ == upper(path@),
            final(self).nodes@ == old(self).nodes@.push(Node::Bytes(bytes)),
    {
        self.insert_node(path, Node::Bytes(bytes));
    }

    /// Put what is a file of a CD image in the tree.
    pub fn insert_node(&mut self, path: &str, node: Node)
        requires
            old(self).wf(),
        ensures
            final(self).wf(),
            final(self).paths@.len() == old(self).paths@.len() + 1,
            final(self).paths@.drop_last() == old(self).paths@,
            final(self).paths@.last()@ == upper(path@),
            final(self).nodes@ == old(self).nodes@.push(node),
    {
        let name = uppercase(path);
        self.paths.push(name);
        self.nodes.push(node);
        assert(self.paths@.drop_last() =~= old(self).paths@);
    }

    /// The number of the file with a path.
    pub fn file_number(&self, path: &str) -> (found: Option<usize>)
        requires
            self.wf(),
        ensures
            match (found, self.number_of(path@)) {
                (Some(i), Some(n)) => i == n && i < self.paths@.len(),
                (None, None) => true,
                _ => false,
            },
    {
        let ghost all = texts(self.paths@);
        let mut i: usize = 0;
        while i < self.paths.len()
            invariant
                self.wf(),
                i <= self.paths@.len(),
                all == texts(self.paths@),
                place_of(all, path@, 0) == place_of(all, path@, i as int),
            decreases self.paths.len() - i,
        {
            if same(self.paths[i].as_str(), path) {
                return Some(i);
            }
            i = i + 1;
        }
        None
    }

    /// The file with a path.
    pub fn file(&self, path: &str) -> (found: Option<&Node>)
        requires
            self.wf(),
        ensures
            match (found, self.number_of(path@)) {
                (Some(node), Some(n)) => *node == self.nodes@[n] && 0 <= n < self.nodes@.len(),
                (None, None) => true,
                _ => false,
            },
    {
        match self.file_number(path) {
            Some(i) => Some(&self.nodes[i]),
            None => None,
        }
    }

    /// Whether there is a directory with a path.
    pub fn is_dir(&self, path: &str) -> (yes: bool)
        requires
            self.wf(),
        ensures
            yes == self.has_dir(path@),
    {
        let dir = chars_of(path);
        if dir.len() == 0 {
            return true;
        }
        let mut i: usize = 0;
        while i < self.paths.len()
            invariant
                self.wf(),
                i <= self.paths@.len(),
                dir@ == path@,
                forall|j: int| 0 <= j < i ==> inside(#[trigger] self.paths@[j]@, path@) is None,
            decreases self.paths.len() - i,
        {
            let file = chars_of(self.paths[i].as_str());
            if rest_inside(&file, &dir).is_some() {
                assert(inside(self.paths@[i as int]@, path@) is Some);
                return true;
            }
            i = i + 1;
        }
        false
    }

    /// The entries of a directory, in the order their files were put in.
    pub fn list(&self, path: &str) -> (entries: Vec<TreeEntry>)
        requires
            self.wf(),
        ensures
            entry_views(entries@) == entries_of(
                texts(self.paths@),
                path@,
                self.paths@.len() as int,
            ),
            forall|i: int|
                0 <= i < entries@.len() ==> ((#[trigger] entries@[i]).file matches Some(f) ==> f
                    < self.paths@.len()),
    {
        let ghost all = texts(self.paths@);
        let dir = chars_of(path);
        let mut entries: Vec<TreeEntry> = Vec::new();
        let mut i: usize = 0;
        assert(entry_views(entries@) =~= entries_of(all, path@, 0));
        while i < self.paths.len()
            invariant
                self.wf(),
                i <= self.paths@.len(),
                all == texts(self.paths@),
                dir@ == path@,
                entry_views(entries@) == entries_of(all, path@, i as int),
                forall|j: int|
                    0 <= j < entries@.len() ==> ((#[trigger] entries@[j]).file matches Some(f)
                        ==> f < self.paths@.len()),
            decreases self.paths.len() - i,
        {
            let ghost before = entries@;
            let file = chars_of(self.paths[i].as_str());
            assert(file@ == all[i as int]);
            match rest_inside(&file, &dir) {
                Some(rest) => {
                    let (end, deeper): (usize, bool) = match first_of(&rest, '\\') {
                        Some(k) => (k, true),
                        None => (rest.len(), false),
                    };
                    let name = text_between(&rest, 0, end);
                    assert(name@ =~= first_component(rest@).0);
                    if !listed(&entries, name.as_str()) {
                        let entry = TreeEntry {
                            name,
                            file: if deeper {
                                None
                            } else {
                                Some(i)
                            },
                        };
                        let ghost seen = entry@;
                        entries.push(entry);
                        assert(entry_views(entries@) =~= entry_views(before).push(seen));
                    }
                },
                None => {},
            }
            i = i + 1;
        }
        entries
    }
}

/// What stands behind a directory in a path.
fn rest_inside(path: &Vec<char>, dir: &Vec<char>) -> (rest: Option<Vec<char>>)
    ensures
        match (rest, inside(path@, dir@)) {
            (Some(r), Some(s)) => r@ == s,
            (None, None) => true,
            _ => false,
        },
{
    let n: usize = dir.len();
    if n == 0 {
        let rest = vstd::slice::slice_to_vec(path.as_slice());
        assert(rest@ =~= path@);
        return Some(rest);
    }
    if path.len() <= n {
        return None;
    }
    let mut i: usize = 0;
    while i < n
        invariant
            i <= n == dir@.len() < path@.len(),
            forall|j: int| 0 <= j < i ==> path@[j] == dir@[j],
        decreases n - i,
    {
        if path[i] != dir[i] {
            assert(path@.take(n as int)[i as int] != dir@[i as int]);
            return None;
        }
        i = i + 1;
    }
    assert(path@.take(n as int) =~= dir@);
    if path[n] != '\\' {
        return None;
    }
    let rest = vstd::slice::slice_to_vec(
        vstd::slice::slice_subrange(path.as_slice(), n + 1, path.len()),
    );
    assert(rest@ =~= path@.subrange(n + 1, path@.len() as int));
    Some(rest)
}

fn listed(entries: &Vec<TreeEntry>, name: &str) -> (yes: bool)
    ensures
        yes == name_listed(entry_views(entries@), name@),
{
    let mut i: usize = 0;
    while i < entries.len()
        invariant
            i <= entries@.len(),
            forall|j: int|
                0 <= j < i ==> (#[trigger] entry_views(entries@)[j]).0 != name@,
        decreases entries.len() - i,
    {
        assert(entry_views(entries@)[i as int].0 == entries@[i as int].name@);
        if same(entries[i].name.as_str(), name) {
            return true;
        }
        i = i + 1;
    }
    false
}

/// Every name is in a directory's list once.
pub proof fn law_entries_differ(paths: Seq<Seq<char>>, dir: Seq<char>, n: int, i: int, j: int)
    requires
        0 <= i < j < entries_of(paths, dir, n).len(),
    ensures
        entries_of(paths, dir, n)[i].0 != entries_of(paths, dir, n)[j].0,
    decreases n,
{
    if n > 0 {
        let before = entries_of(paths, dir, n - 1);
        if j < before.len() {
            law_entries_differ(paths, dir, n - 1, i, j);
        } else {
            assert(entries_of(paths, dir, n)[i] == before[i]);
        }
    }
}

} // verus!
