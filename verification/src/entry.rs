//! The records the rest of the library works on: one entry per filesystem
//! object found strictly beneath the managed root, and the run configuration.

use vstd::prelude::*;

verus! {

/// The kind of a filesystem object, as a tree walk reports it.
#[derive(Clone, Copy, PartialEq, Eq, Structural, Debug)]
pub enum FileKind {
    /// A regular file.
    Regular,
    /// A symbolic link.
    Symlink,
    /// A directory.
    Directory,
    /// Anything else the platform surfaces (device, socket, fifo, ...).
    Other,
}

/// One filesystem object strictly beneath the managed root.
///
/// `path` holds the components of the path relative to the root, so an entry
/// directly inside the root has one component. `size` and `mtime` come from
/// the object's metadata; `mtime` is seconds since the epoch (or any other
/// consistent timestamp the caller chooses).
#[derive(Debug)]
pub struct Entry {
    pub path: Vec<String>,
    pub kind: FileKind,
    pub size: u64,
    pub mtime: i64,
}

/// The run configuration. The managed root itself stays with the caller:
/// every path the library sees or produces is relative to it.
#[derive(Clone, Copy, Debug)]
pub struct Config {
    /// Plan and report only; request no deletion of directories.
    pub dry_run: bool,
    /// Leave emptied parent directories in place.
    pub keep_parents: bool,
    /// The aggregate size, in bytes, the tree is brought down to.
    pub goal: u64,
}

/// Whether an object of this kind counts toward the aggregate size and may
/// be deleted: true exactly for regular files and symbolic links.
pub open spec fn is_counted(kind: FileKind) -> bool {
    kind == FileKind::Regular || kind == FileKind::Symlink
}

/// Classifies a file kind as contributing to the size total: regular files
/// and symbolic links count, directories and special objects do not.
pub fn counted_file_type(kind: FileKind) -> (r: bool)
    ensures
        r == is_counted(kind),
{
    match kind {
        FileKind::Regular => true,
        FileKind::Symlink => true,
        FileKind::Directory => false,
        FileKind::Other => false,
    }
}

} // verus!
