//! Entries of the project's file tree.
use vstd::prelude::*;

verus! {

/// A file, by path.
pub struct FileEntry {
    pub path: String,
}

/// A directory, by path.
pub struct DirEntry {
    pub path: String,
}

/// A file or a directory.
pub enum FileTreeEntry {
    File(FileEntry),
    Dir(DirEntry),
}

impl FileTreeEntry {
    /// The entry for `path`, a directory where `is_dir` says so.
    pub fn new(path: String, is_dir: bool) -> (r: FileTreeEntry)
        ensures
            is_dir ==> (r matches FileTreeEntry::Dir(d) && d.path@ == path@),
            !is_dir ==> (r matches FileTreeEntry::File(f) && f.path@ == path@),
    {
        if is_dir {
            FileTreeEntry::Dir(DirEntry { path })
        } else {
            FileTreeEntry::File(FileEntry { path })
        }
    }
}

} // verus!
