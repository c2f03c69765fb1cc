//! Sizes of directory trees, and removal of validated paths.
//!
//! Walking the disk and removing files is the caller's part; what a walk adds up to, and what
//! a removal attempt comes to, is decided here. Hard links are counted once.

use vstd::prelude::*;

use crate::error::PruneError;
use crate::models::DeleteMode;

verus! {

/// Aggregate size of a directory tree.
#[derive(Debug, Clone, Copy, Default, PartialEq, Eq, Structural)]
pub struct DirStats {
    pub bytes: u64,
    pub files: u64,
    pub dirs: u64,
}

impl DirStats {
    pub fn add(&mut self, other: DirStats)
        requires
            old(self).bytes + other.bytes <= u64::MAX,
            old(self).files + other.files <= u64::MAX,
            old(self).dirs + other.dirs <= u64::MAX,
        ensures
            final(self).bytes == old(self).bytes + other.bytes,
            final(self).files == old(self).files + other.files,
            final(self).dirs == old(self).dirs + other.dirs,
    {
        self.bytes = self.bytes + other.bytes;
        self.files = self.files + other.files;
        self.dirs = self.dirs + other.dirs;
    }
}

/// A progress report goes out after this many counted files.
pub const SIZE_PROGRESS_EVERY: u64 = 512;

/// The cancel flag is looked at every this many entries.
pub const SIZE_CANCEL_EVERY: u64 = 64;

/// What a serial walk of one subtree has counted. The subtree's own root directory is counted
/// by whoever split the tree, so directories met at depth 0 are not.
pub struct SizeWalk {
    pub stats: DirStats,
    /// Entries met since the walk began.
    pub entries: u64,
    /// The (device, inode) pairs of the hard-linked files counted so far.
    pub links_seen: Vec<(u64, u64)>,
}

impl SizeWalk {
    pub fn new() -> (r: Self)
        ensures
            r.stats == (DirStats { bytes: 0, files: 0, dirs: 0 }),
            r.entries == 0,
            r.links_seen@.len() == 0,
    {
        SizeWalk { stats: DirStats { bytes: 0, files: 0, dirs: 0 }, entries: 0, links_seen: Vec::new() }
    }

    /// One more entry met; whether the cancel flag is to be looked at now.
    pub fn next_entry(&mut self) -> (check_cancel: bool)
        requires
            old(self).entries < u64::MAX,
        ensures
            final(self).entries == old(self).entries + 1,
            check_cancel == (final(self).entries % SIZE_CANCEL_EVERY == 0),
            final(self).stats == old(self).stats,
            final(self).links_seen == old(self).links_seen,
    {
        self.entries = self.entries + 1;
        self.entries % SIZE_CANCEL_EVERY == 0
    }

    /// A directory met at `depth` below the subtree's root.
    pub fn add_dir(&mut self, depth: usize)
        requires
            old(self).stats.dirs < u64::MAX,
        ensures
            final(self).stats == (DirStats {
                dirs: if depth > 0 { (old(self).stats.dirs + 1) as u64 } else { old(self).stats.dirs },
                ..old(self).stats
            }),
            final(self).entries == old(self).entries,
            final(self).links_seen == old(self).links_seen,
    {
        if depth > 0 {
            self.stats.dirs = self.stats.dirs + 1;
        }
    }

    /// A file of `size` bytes; `link` is its (device, inode) pair when it has further hard
    /// links. A file counts once; its bytes count only the first time its inode is met.
    /// Whether its bytes were counted comes back.
    pub fn add_file(&mut self, size: u64, link: Option<(u64, u64)>) -> (counted: bool)
        requires
            old(self).stats.files < u64::MAX,
            old(self).stats.bytes + size <= u64::MAX,
        ensures
            counted == match link {
                Some(l) => !old(self).links_seen@.contains(l),
                None => true,
            },
            final(self).stats.files == old(self).stats.files + 1,
            final(self).stats.bytes == old(self).stats.bytes + if counted { size } else { 0 },
            final(self).stats.dirs == old(self).stats.dirs,
            final(self).entries == old(self).entries,
            final(self).links_seen@ == match link {
                Some(l) => if counted { old(self).links_seen@.push(l) } else { old(self).links_seen@ },
                None => old(self).links_seen@,
            },
    {
        self.stats.files = self.stats.files + 1;
        let counted = match link {
            Some(l) => first_visit(&mut self.links_seen, l),
            None => true,
        };
        if counted {
            self.stats.bytes = self.stats.bytes + size;
        }
        counted
    }
}

/// Whether a (device, inode) pair is met for the first time; it is remembered.
pub fn first_visit(seen: &mut Vec<(u64, u64)>, link: (u64, u64)) -> (r: bool)
    ensures
        r == !old(seen)@.contains(link),
        final(seen)@ == if r { old(seen)@.push(link) } else { old(seen)@ },
{
    let mut i: usize = 0;
    while i < seen.len()
        invariant
            i <= seen@.len(),
            seen@ == old(seen)@,
            forall|j: int| 0 <= j < i ==> seen@[j] != link,
        decreases seen@.len() - i,
    {
        let s = seen[i];
        if s.0 == link.0 && s.1 == link.1 {
            assert(seen@[i as int] == link);
            return false;
        }
        i = i + 1;
    }
    seen.push(link);
    true
}

/// Whether a progress report is due after `files` counted files.
pub fn progress_due(files: u64) -> (r: bool)
    ensures
        r == (files % SIZE_PROGRESS_EVERY == 0),
{
    files % SIZE_PROGRESS_EVERY == 0
}

// ----- removal -----

/// What happened to a single validated path.
#[derive(Debug, Clone, Copy, PartialEq, Eq, Structural)]
pub enum RemoveOutcome {
    MovedToTrash,
    DeletedPermanently,
    /// The path vanished between validation and removal. Not an error.
    AlreadyGone,
}

/// What reading the path's own metadata (without following a link) said.
#[derive(Debug, Clone)]
pub enum PathState {
    Missing,
    Directory,
    Other,
    /// Another error, with its message.
    Unreadable(String),
}

/// What a removal does to the disk.
#[derive(Debug, Clone, Copy, PartialEq, Eq, Structural)]
pub enum RemovalStep {
    /// Nothing: the path is gone already.
    Nothing,
    MoveToTrash,
    RemoveTree,
    RemoveFile,
}

/// The step a removal takes, or the error it stops with: a missing path needs nothing, an
/// unreadable one is an error, and otherwise the mode decides (permanent removal of a
/// directory takes its whole tree).
pub fn removal_step(path: &str, state: &PathState, mode: DeleteMode) -> (r: Result<RemovalStep, PruneError>)
    ensures
        match state {
            PathState::Missing => r == Ok::<RemovalStep, PruneError>(RemovalStep::Nothing),
            PathState::Unreadable(m) => r matches Err(PruneError::Io { path: p, message: msg }) && p@ == path@ && msg@ == m@,
            PathState::Directory => r == Ok::<RemovalStep, PruneError>(if mode == DeleteMode::Trash { RemovalStep::MoveToTrash } else { RemovalStep::RemoveTree }),
            PathState::Other => r == Ok::<RemovalStep, PruneError>(if mode == DeleteMode::Trash { RemovalStep::MoveToTrash } else { RemovalStep::RemoveFile }),
        },
{
    match state {
        PathState::Missing => Ok(RemovalStep::Nothing),
        PathState::Unreadable(m) => Err(PruneError::io(path, m.as_str())),
        PathState::Directory => match mode {
            DeleteMode::Trash => Ok(RemovalStep::MoveToTrash),
            DeleteMode::Permanent => Ok(RemovalStep::RemoveTree),
        },
        PathState::Other => match mode {
            DeleteMode::Trash => Ok(RemovalStep::MoveToTrash),
            DeleteMode::Permanent => Ok(RemovalStep::RemoveFile),
        },
    }
}

/// What the step came to: the outcome it stands for, or the error it met (`failure`, the
/// operating system's message). A failed move to the trash is a trash error; a failed removal
/// an I/O error.
pub fn removal_outcome(path: &str, step: RemovalStep, failure: Option<String>) -> (r: Result<RemoveOutcome, PruneError>)
    ensures
        match failure {
            None => r == Ok::<RemoveOutcome, PruneError>(match step {
                RemovalStep::Nothing => RemoveOutcome::AlreadyGone,
                RemovalStep::MoveToTrash => RemoveOutcome::MovedToTrash,
                _ => RemoveOutcome::DeletedPermanently,
            }),
            Some(m) => if step == RemovalStep::Nothing {
                r == Ok::<RemoveOutcome, PruneError>(RemoveOutcome::AlreadyGone)
            } else if step == RemovalStep::MoveToTrash {
                r matches Err(PruneError::Trash { path: p, message: msg }) && p@ == path@ && msg@ == m@
            } else {
                r matches Err(PruneError::Io { path: p, message: msg }) && p@ == path@ && msg@ == m@
            },
        },
{
    match step {
        RemovalStep::Nothing => Ok(RemoveOutcome::AlreadyGone),
        RemovalStep::MoveToTrash => match failure {
            None => Ok(RemoveOutcome::MovedToTrash),
            Some(m) => Err(PruneError::Trash { path: crate::text::owned(path), message: m }),
        },
        _ => match failure {
            None => Ok(RemoveOutcome::DeletedPermanently),
            Some(m) => Err(PruneError::io(path, m.as_str())),
        },
    }
}

} // verus!
