use vstd::prelude::*;
use crate::counters::Event;

verus! {

/// What a probe of one input path found on the filesystem.
#[derive(Clone, Copy, PartialEq, Eq, Structural, Debug)]
pub enum PathKind {
    /// The path names a regular file.
    File,
    /// The path names a directory.
    Dir,
    /// The path does not exist.
    Missing,
    /// The path exists but is neither a regular file nor a directory.
    Other,
}

/// What a directory traversal found one entry to be.
#[derive(Clone, Copy, PartialEq, Eq, Structural, Debug)]
pub enum EntryKind {
    /// The entry is a regular file.
    File,
    /// The entry is a directory.
    Dir,
    /// The entry is neither (socket, device node, and the like).
    Other,
}

/// What the run does next for one input path.
#[derive(Clone, Copy, PartialEq, Eq, Structural, Debug)]
pub enum PathAction {
    /// Attempt to remove the path as a regular file.
    DeleteFile,
    /// Walk the directory contents-first, removing children before parents.
    WalkTree,
    /// Report that the path does not exist; attempt nothing.
    ReportMissing,
    /// Report an unsupported type; attempt nothing.
    ReportUnsupported,
}

/// What the run does next for one traversal entry.
#[derive(Clone, Copy, PartialEq, Eq, Structural, Debug)]
pub enum EntryAction {
    /// Attempt the non-recursive directory removal; contents-first order
    /// means the children were already visited.
    DeleteDir,
    /// Attempt to remove the entry as a regular file.
    DeleteFile,
    /// Report an unsupported type; attempt nothing.
    ReportUnsupported,
}

/// Decides, from what a probe found, what is done with one input path.
/// A missing or unsupported path is only reported; no removal is attempted
/// for it, and the run continues with the next input.
pub fn path_action(k: PathKind) -> (a: PathAction)
    ensures
        a == (match k {
            PathKind::File => PathAction::DeleteFile,
            PathKind::Dir => PathAction::WalkTree,
            PathKind::Missing => PathAction::ReportMissing,
            PathKind::Other => PathAction::ReportUnsupported,
        }),
{
    match k {
        PathKind::File => PathAction::DeleteFile,
        PathKind::Dir => PathAction::WalkTree,
        PathKind::Missing => PathAction::ReportMissing,
        PathKind::Other => PathAction::ReportUnsupported,
    }
}

/// Decides what is done with one traversal entry: directories get the
/// non-recursive removal, regular files the file removal, and anything
/// else is only reported.
pub fn entry_action(k: EntryKind) -> (a: EntryAction)
    ensures
        a == (match k {
            EntryKind::Dir => EntryAction::DeleteDir,
            EntryKind::File => EntryAction::DeleteFile,
            EntryKind::Other => EntryAction::ReportUnsupported,
        }),
{
    match k {
        EntryKind::Dir => EntryAction::DeleteDir,
        EntryKind::File => EntryAction::DeleteFile,
        EntryKind::Other => EntryAction::ReportUnsupported,
    }
}

/// The event that one input path contributes to the run, given what the
/// probe found and, where a file removal was attempted, whether it
/// succeeded. A directory contributes no event of its own here: its events
/// come from the traversal, entry by entry.
pub fn path_outcome(k: PathKind, removal_ok: bool) -> (e: Option<Event>)
    ensures
        e == (match k {
            PathKind::File => if removal_ok {
                Some(Event::FileDeleted)
            } else {
                Some(Event::FileRemovalFailed)
            },
            PathKind::Dir => None::<Event>,
            PathKind::Missing => Some(Event::PathNotFound),
            PathKind::Other => Some(Event::UnsupportedEntryType),
        }),
{
    match k {
        PathKind::File => if removal_ok {
            Some(Event::FileDeleted)
        } else {
            Some(Event::FileRemovalFailed)
        },
        PathKind::Dir => None,
        PathKind::Missing => Some(Event::PathNotFound),
        PathKind::Other => Some(Event::UnsupportedEntryType),
    }
}

/// The event that one traversal entry contributes, given what it was and,
/// where a removal was attempted, whether it succeeded. An unsupported
/// entry is an error whatever `removal_ok` says, since nothing is attempted
/// for it.
pub fn entry_outcome(k: EntryKind, removal_ok: bool) -> (e: Event)
    ensures
        e == (match k {
            EntryKind::Dir => if removal_ok {
                Event::DirDeleted
            } else {
                Event::DirRemovalFailed
            },
            EntryKind::File => if removal_ok {
                Event::FileDeleted
            } else {
                Event::FileRemovalFailed
            },
            EntryKind::Other => Event::UnsupportedEntryType,
        }),
{
    match k {
        EntryKind::Dir => if removal_ok {
            Event::DirDeleted
        } else {
            Event::DirRemovalFailed
        },
        EntryKind::File => if removal_ok {
            Event::FileDeleted
        } else {
            Event::FileRemovalFailed
        },
        EntryKind::Other => Event::UnsupportedEntryType,
    }
}

} // verus!
