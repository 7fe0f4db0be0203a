//! The steps that write files, and what they leave on disk wherever they are stopped.

use vstd::prelude::*;

verus! {

/// One step in the writing of a file.
pub enum FileStep {
    /// Removes a file, where it is there.
    Remove { path: Vec<u8> },
    /// Makes a file anew with the given permissions, and opens it for writing. The file is not there.
    Create { path: Vec<u8>, mode: u32 },
    /// Writes bytes to the file that was made.
    Write { path: Vec<u8>, data: Vec<u8> },
    /// Waits until what was written is on disk.
    Sync { path: Vec<u8> },
    /// Moves a file to another place, over what is there, at once.
    Rename { from: Vec<u8>, to: Vec<u8> },
    /// Writes bytes over what a file holds, and makes the file where it is not there.
    Replace { path: Vec<u8>, data: Vec<u8> },
}

/// A `FileStep`, with bytes as sequences.
pub enum FileStepView {
    Remove { path: Seq<u8> },
    Create { path: Seq<u8>, mode: u32 },
    Write { path: Seq<u8>, data: Seq<u8> },
    Sync { path: Seq<u8> },
    Rename { from: Seq<u8>, to: Seq<u8> },
    Replace { path: Seq<u8>, data: Seq<u8> },
}

impl View for FileStep {
    type V = FileStepView;

    open spec fn view(&self) -> FileStepView {
        match *self {
            FileStep::Remove { path } => FileStepView::Remove { path: path@ },
            FileStep::Create { path, mode } => FileStepView::Create { path: path@, mode },
            FileStep::Write { path, data } => FileStepView::Write { path: path@, data: data@ },
            FileStep::Sync { path } => FileStepView::Sync { path: path@ },
            FileStep::Rename { from, to } => FileStepView::Rename { from: from@, to: to@ },
            FileStep::Replace { path, data } => FileStepView::Replace { path: path@, data: data@ },
        }
    }
}

/// The permissions of a file that is made without any being named, before the system takes its own
/// away.
pub const ANYONE: u32 = 0o666;

/// A file on disk.
pub struct FileOnDisk {
    pub mode: u32,
    pub data: Seq<u8>,
}

/// The files on disk, by their paths.
pub type Disk = Map<Seq<u8>, FileOnDisk>;

/// What a step leaves on disk when it is done.
pub open spec fn step_done(disk: Disk, step: FileStepView) -> Disk {
    match step {
        FileStepView::Remove { path } => disk.remove(path),
        FileStepView::Create { path, mode } => disk.insert(
            path,
            FileOnDisk { mode, data: Seq::empty() },
        ),
        FileStepView::Write { path, data } => disk.insert(
            path,
            FileOnDisk { mode: disk[path].mode, data: disk[path].data + data },
        ),
        FileStepView::Sync { path } => disk,
        FileStepView::Rename { from, to } => disk.insert(to, disk[from]).remove(from),
        FileStepView::Replace { path, data } => disk.insert(
            path,
            FileOnDisk {
                mode: if disk.dom().contains(path) {
                    disk[path].mode
                } else {
                    ANYONE
                },
                data,
            },
        ),
    }
}

/// What the first `n` steps leave on disk.
pub open spec fn steps_done(disk: Disk, steps: Seq<FileStepView>, n: nat) -> Disk
    decreases n,
{
    if n == 0 {
        disk
    } else {
        step_done(steps_done(disk, steps, (n - 1) as nat), steps[n - 1])
    }
}

/// What a step may leave on disk when it is stopped: of the bytes to write, any number from the first
/// on.
pub open spec fn step_stopped(disk: Disk, step: FileStepView, after: Disk) -> bool {
    ||| after == disk
    ||| after == step_done(disk, step)
    ||| (step matches FileStepView::Write { path, data } && exists|k: int|
        0 <= k <= data.len() && after == #[trigger] step_done(
            disk,
            FileStepView::Write { path, data: data.take(k) },
        ))
    ||| (step matches FileStepView::Replace { path, data } && exists|k: int|
        0 <= k <= data.len() && after == #[trigger] step_done(
            disk,
            FileStepView::Replace { path, data: data.take(k) },
        ))
}

/// What may be on disk when the steps are stopped somewhere.
pub open spec fn stopped(disk: Disk, steps: Seq<FileStepView>, after: Disk) -> bool {
    exists|n: nat|
        n < steps.len() && step_stopped(#[trigger] steps_done(disk, steps, n), steps[n as int], after)
}

/// A step changes the files that it names and no other, and does to them what it is named for.
pub proof fn law_steps(disk: Disk, path: Seq<u8>, to: Seq<u8>, data: Seq<u8>, mode: u32, p: Seq<u8>)
    requires
        p != path,
        p != to,
    ensures
        ({
            let removed = step_done(disk, FileStepView::Remove { path });
            let created = step_done(disk, FileStepView::Create { path, mode });
            let written = step_done(disk, FileStepView::Write { path, data });
            let synced = step_done(disk, FileStepView::Sync { path });
            let renamed = step_done(disk, FileStepView::Rename { from: path, to });
            let replaced = step_done(disk, FileStepView::Replace { path, data });
            &&& !removed.dom().contains(path)
            &&& created.dom().contains(path) && created[path].mode == mode && created[path].data.len()
                == 0
            &&& written[path].mode == disk[path].mode && written[path].data == disk[path].data + data
            &&& synced == disk
            &&& path != to ==> !renamed.dom().contains(path) && renamed.dom().contains(to)
                && renamed[to] == disk[path]
            &&& replaced.dom().contains(path) && replaced[path].data == data
            &&& disk.dom().contains(path) ==> replaced[path].mode == disk[path].mode
            &&& !disk.dom().contains(path) ==> replaced[path].mode == 0o666
            &&& disk.dom().contains(p) <==> removed.dom().contains(p)
            &&& disk.dom().contains(p) <==> created.dom().contains(p)
            &&& disk.dom().contains(p) <==> written.dom().contains(p)
            &&& disk.dom().contains(p) <==> renamed.dom().contains(p)
            &&& disk.dom().contains(p) <==> replaced.dom().contains(p)
            &&& disk.dom().contains(p) ==> removed[p] == disk[p] && created[p] == disk[p]
                && written[p] == disk[p] && renamed[p] == disk[p] && replaced[p] == disk[p]
        }),
{
}

/// Writing that is stopped may have written any part of the bytes from the first on, and none of what
/// follows.
pub proof fn law_stopped_writes(disk: Disk, path: Seq<u8>, data: Seq<u8>, k: int)
    requires
        0 <= k <= data.len(),
    ensures
        ({
            let after = step_done(disk, FileStepView::Write { path, data: data.take(k) });
            step_stopped(disk, FileStepView::Write { path, data }, after)
        }),
        ({
            let after = step_done(disk, FileStepView::Replace { path, data: data.take(k) });
            step_stopped(disk, FileStepView::Replace { path, data }, after)
        }),
        step_stopped(disk, (FileStepView::Write { path, data }), disk),
{
}

/// A step is seen as what it does.
pub proof fn law_steps_are_seen_whole(path: Vec<u8>, to: Vec<u8>, data: Vec<u8>, mode: u32)
    ensures
        (FileStep::Remove { path })@ == (FileStepView::Remove { path: path@ }),
        (FileStep::Create { path, mode })@ == (FileStepView::Create { path: path@, mode }),
        (FileStep::Write { path, data })@ == (FileStepView::Write { path: path@, data: data@ }),
        (FileStep::Sync { path })@ == (FileStepView::Sync { path: path@ }),
        (FileStep::Rename { from: path, to })@ == (FileStepView::Rename { from: path@, to: to@ }),
        (FileStep::Replace { path, data })@ == (FileStepView::Replace { path: path@, data: data@ }),
{
}

} // verus!
