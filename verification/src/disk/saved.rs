//! The drives' and open files' part of a save state. The drives are saved
//! as they were mounted, with their current directories and the disk in
//! them; open files by their paths, access modes and positions, so a
//! loaded state opens them again. What the files and disk images hold is
//! the host's and isn't saved: a file changed since the state was saved
//! reads as it is now, and one gone leaves its handle closed.

use vstd::prelude::*;

use crate::disk::drives::{DiskController, Drive};
use crate::disk::files::{agree, same_positions, OpenFile};
use crate::disk::names::{
    drive_letter, letter_of, CharDevice, DRIVE_C, HANDLE_LIMIT, LASTDRIVE,
};
use crate::text::{same, texts};

verus! {

/// A drive as saved: how it was mounted, its current directory, which of its
/// images is in, and whether that is news to INT 13h.
#[derive(Debug)]
pub struct SavedDrive {
    pub mount: Option<String>,
    pub current_dir: String,
    pub image: usize,
    pub media_changed: bool,
}

/// An open handle as saved.
#[derive(Debug)]
pub struct SavedFile {
    pub handle: u16,
    pub group: u64,
    pub drive: u8,
    pub owner: u16,
    pub key: u64,
    pub path: String,
    pub mode: u8,
    pub device: Option<CharDevice>,
    pub position: u64,
}

/// What loading a state does with a drive first.
#[derive(Clone, Copy, Debug, PartialEq, Eq, Structural)]
pub enum LoadStep {
    /// The state hasn't the drive, and it stays as it is.
    Leave,
    /// The state hasn't the drive, and it goes.
    Unmount,
    /// The drive is mounted as the state has it.
    Mount,
    /// The drive is mounted as the state has it already.
    Settle,
}

impl DiskController {
    /// What loading a state does with a drive first.
    pub open spec fn step_for(&self, drive: u8, saved: Option<SavedDrive>, now: Option<Seq<char>>) -> LoadStep {
        match saved {
            None => if drive != DRIVE_C && (self.at(drive) matches Some(d) && d.mount is Some) {
                LoadStep::Unmount
            } else {
                LoadStep::Leave
            },
            Some(s) => match s.mount {
                Some(text) if now != Some(text@) => LoadStep::Mount,
                _ => LoadStep::Settle,
            },
        }
    }

    /// What loading a state does with a drive first: `saved` is what the state
    /// has of it, and `now` how it is mounted, as the state would have it.
    /// Drives the machine has of itself (Z:, the Ultrasound's) stay; mounted
    /// ones that the state hasn't go, but C:.
    pub fn load_step(&self, drive: u8, saved: &Option<SavedDrive>, now: Option<&str>) -> (step:
        LoadStep)
        requires
            self.wf(),
        ensures
            step == self.step_for(
                drive,
                *saved,
                match now {
                    Some(text) => Some(text@),
                    None => None,
                },
            ),
    {
        match saved {
            None => {
                if drive != DRIVE_C && drive < LASTDRIVE {
                    if let Some(d) = &self.drives[drive as usize] {
                        if d.mount.is_some() {
                            return LoadStep::Unmount;
                        }
                    }
                }
                LoadStep::Leave
            },
            Some(s) => match &s.mount {
                Some(text) => match now {
                    Some(mounted) => if same(mounted, text.as_str()) {
                        LoadStep::Settle
                    } else {
                        LoadStep::Mount
                    },
                    None => LoadStep::Mount,
                },
                None => LoadStep::Settle,
            },
        }
    }

    /// Whether another image has to go in a drive before it shows the one that
    /// the state has in it: `swaps` is how many went in already.
    pub fn wants_swap(&self, drive: u8, image: usize, swaps: usize) -> (wants: Result<bool, String>)
        requires
            self.wf(),
            drive < LASTDRIVE,
        ensures
            match (wants, self.at(drive)) {
                (Ok(yes), Some(d)) => yes == (swaps < d.images@.len() && d.image != image),
                (Err(e), None) => e@ == "it has a drive "@ + seq![letter_of(drive)]
                    + ": and this machine hasn't"@,
                _ => false,
            },
    {
        match &self.drives[drive as usize] {
            Some(d) => Ok(swaps < d.images.len() && d.image != image),
            None => {
                let mut message = String::from_str("it has a drive ");
                message.push(drive_letter(drive));
                message.append(": and this machine hasn't");
                assert(message@ =~= "it has a drive "@ + seq![letter_of(drive)]
                    + ": and this machine hasn't"@);
                Err(message)
            },
        }
    }

    /// A drive as the state has it: its current directory, and whether the disk
    /// in it is news.
    pub fn place_drive(&mut self, drive: u8, current_dir: String, media_changed: bool)
        requires
            old(self).wf(),
            old(self).at(drive) is Some,
        ensures
            final(self).wf(),
            final(self).changed_in(*old(self), drive),
            final(self).at(drive) == Some(
                Drive { current_dir, media_changed, ..old(self).at(drive)->0 },
            ),
    {
        let taken = self.drives[drive as usize].take();
        if let Some(d) = taken {
            let mut d = d;
            d.current_dir = current_dir;
            d.media_changed = media_changed;
            self.drives[drive as usize] = Some(d);
        }
    }

    /// The current drive as the state has it, or C: if it is not there.
    pub fn place_current(&mut self, current: u8)
        requires
            old(self).wf(),
        ensures
            final(self).wf(),
            final(self).drives == old(self).drives,
            final(self).open_files == old(self).open_files,
            final(self).emm_device == old(self).emm_device,
            final(self).next_group == old(self).next_group,
            final(self).current_drive == (if old(self).at(current) is Some {
                current
            } else {
                DRIVE_C
            }),
    {
        self.current_drive = if current < LASTDRIVE && self.drives[current as usize].is_some() {
            current
        } else {
            DRIVE_C
        };
    }

    /// Close every file, and count on from where the state was.
    pub fn restart_files(&mut self, next_group: u64)
        requires
            old(self).wf(),
        ensures
            final(self).wf(),
            final(self).drives == old(self).drives,
            final(self).current_drive == old(self).current_drive,
            final(self).emm_device == old(self).emm_device,
            final(self).next_group == next_group,
            forall|i: int| 0 <= i < HANDLE_LIMIT ==> (#[trigger] final(self).open_files@[i]) is None,
    {
        let mut none: Vec<Option<OpenFile>> = Vec::new();
        let mut i: usize = 0;
        while i < HANDLE_LIMIT as usize
            invariant
                i <= HANDLE_LIMIT,
                none@.len() == i,
                forall|j: int| 0 <= j < i ==> (#[trigger] none@[j]) is None,
            decreases HANDLE_LIMIT - i,
        {
            none.push(None);
            i = i + 1;
        }
        self.open_files = none;
        self.next_group = next_group;
    }

    /// Whether a file that was opened again can have its old handle and number:
    /// those open with the number share its position.
    pub open spec fn adopts(&self, at: u16, file: SavedFile) -> bool {
        &&& self.file_at(at) is Some
        &&& file.handle < HANDLE_LIMIT
        &&& file.group < self.next_group
        &&& forall|i: int|
            0 <= i < HANDLE_LIMIT && i != at && i != file.handle ==> (
            (#[trigger] self.open_files@[i]) matches Some(f) ==> f.group == file.group ==> f.pos
                == self.file_at(at)->0.pos)
    }

    /// Give a file that was opened again its old handle, and what the state
    /// has of it.
    pub fn adopt(&mut self, at: u16, file: &SavedFile)
        requires
            old(self).wf(),
            old(self).adopts(at, *file),
        ensures
            final(self).wf(),
            final(self).drives == old(self).drives,
            final(self).current_drive == old(self).current_drive,
            final(self).emm_device == old(self).emm_device,
            final(self).next_group == old(self).next_group,
            final(self).open_files@ == old(self).open_files@.update(at as int, None).update(
                file.handle as int,
                Some(
                    OpenFile {
                        drive: file.drive,
                        owner: file.owner,
                        key: file.key,
                        group: file.group,
                        ..old(self).file_at(at)->0
                    },
                ),
            ),
    {
        let ghost before = self.open_files@;
        let taken = self.open_files[at as usize].take();
        if let Some(f) = taken {
            let mut f = f;
            f.drive = file.drive;
            f.owner = file.owner;
            f.key = file.key;
            f.group = file.group;
            self.open_files[file.handle as usize] = Some(f);
        }
        proof {
            let after = self.open_files@;
            assert(after =~= before.update(at as int, None).update(
                file.handle as int,
                after[file.handle as int],
            ));
            assert forall|i: int, j: int|
                #![trigger after[i], after[j]]
                0 <= i < after.len() && 0 <= j < after.len() implies agree(after[i], after[j]) by {
                if i != file.handle && i != at {
                    assert(after[i] == before[i]);
                }
                if j != file.handle && j != at {
                    assert(after[j] == before[j]);
                }
                assert(agree(before[i], before[j]));
            }
            assert(same_positions(after));
            assert forall|i: int| 0 <= i < HANDLE_LIMIT implies ((#[trigger] after[i]) matches Some(
                f,
            ) ==> f.group < self.next_group) by {
                if i != file.handle && i != at {
                    assert(after[i] == before[i]);
                }
            }
        }
    }
}

/// What opening a saved file again takes.
#[derive(Clone, Copy, Debug, PartialEq, Eq, Structural)]
pub enum Reopen {
    /// A duplicate of a handle that was opened again.
    Duplicate(u16),
    /// Nothing: the file it was duplicated from is gone.
    Skip,
    Device(CharDevice),
    /// The file, by its path.
    Open,
}

/// The files opened again so far: by their numbers, the handle that has them,
/// if they could be opened; and the paths of those that couldn't.
#[derive(Debug)]
pub struct Reopened {
    pub groups: Vec<(u64, Option<u16>)>,
    pub lost: Vec<String>,
}

/// What became of a file, by its number.
pub open spec fn group_at(groups: Seq<(u64, Option<u16>)>, group: u64) -> Option<Option<u16>>
    decreases groups.len(),
{
    if groups.len() == 0 {
        None
    } else if groups[0].0 == group {
        Some(groups[0].1)
    } else {
        group_at(groups.skip(1), group)
    }
}

impl Reopened {
    pub fn new() -> (reopened: Self)
        ensures
            reopened.groups@.len() == 0,
            reopened.lost@.len() == 0,
    {
        Reopened { groups: Vec::new(), lost: Vec::new() }
    }

    fn find(&self, group: u64) -> (found: Option<Option<u16>>)
        ensures
            found == group_at(self.groups@, group),
    {
        let mut i: usize = 0;
        assert(self.groups@.skip(0) =~= self.groups@);
        while i < self.groups.len()
            invariant
                i <= self.groups@.len(),
                group_at(self.groups@, group) == group_at(self.groups@.skip(i as int), group),
            decreases self.groups.len() - i,
        {
            assert(self.groups@.skip(i as int).skip(1) =~= self.groups@.skip(i + 1));
            if self.groups[i].0 == group {
                return Some(self.groups[i].1);
            }
            i = i + 1;
        }
        None
    }

    /// What opening a file again takes.
    pub open spec fn takes(&self, file: SavedFile) -> Reopen {
        match group_at(self.groups@, file.group) {
            Some(Some(first)) => Reopen::Duplicate(first),
            Some(None) => Reopen::Skip,
            None => match file.device {
                Some(device) => Reopen::Device(device),
                None => Reopen::Open,
            },
        }
    }

    /// What opening a file again takes: each is opened once, with the handles
    /// duplicated from it duplicated again.
    pub fn step(&self, file: &SavedFile) -> (step: Reopen)
        ensures
            step == self.takes(*file),
    {
        match self.find(file.group) {
            Some(Some(first)) => Reopen::Duplicate(first),
            Some(None) => Reopen::Skip,
            None => match file.device {
                Some(device) => Reopen::Device(device),
                None => Reopen::Open,
            },
        }
    }

    /// A file was opened again, or could not be.
    pub fn note(&mut self, file: &SavedFile, opened: bool)
        requires
            group_at(old(self).groups@, file.group) is None,
        ensures
            final(self).groups@ == old(self).groups@.push(
                (
                    file.group,
                    if opened {
                        Some(file.handle)
                    } else {
                        None
                    },
                ),
            ),
            texts(final(self).lost@) == (if opened {
                texts(old(self).lost@)
            } else {
                texts(old(self).lost@).push(file.path@)
            }),
    {
        let ghost before = self.lost@;
        if opened {
            self.groups.push((file.group, Some(file.handle)));
        } else {
            self.groups.push((file.group, None));
            self.lost.push(file.path.clone());
            assert(texts(self.lost@) =~= texts(before).push(file.path@));
        }
    }
}

/// A file that was noted is not opened a second time: the handles that share
/// its number are duplicated from the one that was, or stay closed with it.
pub proof fn law_files_reopen_once(
    groups: Seq<(u64, Option<u16>)>,
    group: u64,
    handle: Option<u16>,
)
    requires
        group_at(groups, group) is None,
    ensures
        group_at(groups.push((group, handle)), group) == Some(handle),
        forall|other: u64|
            other != group ==> #[trigger] group_at(groups.push((group, handle)), other) == group_at(
                groups,
                other,
            ),
    decreases groups.len(),
{
    let after = groups.push((group, handle));
    if groups.len() == 0 {
        reveal_with_fuel(group_at, 2);
        assert(after.skip(1) =~= groups);
    } else {
        let rest = groups.skip(1);
        assert(after.skip(1) =~= rest.push((group, handle)));
        law_files_reopen_once(rest, group, handle);
        assert forall|other: u64| other != group implies #[trigger] group_at(after, other)
            == group_at(groups, other) by {
            assert(after[0] == groups[0]);
            assert(group_at(rest.push((group, handle)), other) == group_at(rest, other));
        }
    }
}

/// The image that comes after some swaps of a drive with `n` images.
pub open spec fn swapped(image: int, n: int, swaps: nat) -> int
    decreases swaps,
{
    if swaps == 0 {
        image
    } else {
        let before = swapped(image, n, (swaps - 1) as nat);
        if before + 1 < n {
            before + 1
        } else {
            0
        }
    }
}

/// Swapping the images of a drive shows every one of them: any is reached
/// with fewer swaps than there are images.
pub proof fn law_swaps_reach_every_image(from: int, to: int, n: int)
    requires
        0 <= from < n,
        0 <= to < n,
    ensures
        swapped(
            from,
            n,
            (if from <= to {
                to - from
            } else {
                to + n - from
            }) as nat,
        ) == to,
{
    let swaps = if from <= to {
        to - from
    } else {
        to + n - from
    };
    lemma_swapped(from, n, swaps as nat);
}

proof fn lemma_swapped(image: int, n: int, swaps: nat)
    requires
        0 <= image < n,
        swaps < n,
    ensures
        swapped(image, n, swaps) == (if image + swaps < n {
            image + swaps
        } else {
            image + swaps - n
        }),
    decreases swaps,
{
    if swaps > 0 {
        lemma_swapped(image, n, (swaps - 1) as nat);
    }
}

} // verus!
