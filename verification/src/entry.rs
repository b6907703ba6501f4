//! What a storage source lists: files and directories.
use vstd::prelude::*;

verus! {

/// Whether an entry is a file or a directory.
#[derive(Clone, Copy, Debug, PartialEq, Eq)]
pub enum EntryKind {
    File,
    Directory,
}

/// A directory found in a source.
#[derive(Clone, Debug, PartialEq, Eq)]
pub struct DirectoryInfo {
    pub name: String,
    pub created_at: u64,
}

/// A file found in a source.
#[derive(Clone, Debug, PartialEq, Eq)]
pub struct FileInfo {
    pub name: String,
    pub size: u64,
    pub created_at: u64,
    pub modified_at: u64,
}

/// An entry of a directory listing.
#[derive(Clone, Debug, PartialEq, Eq)]
pub enum EntryInfo {
    Directory(DirectoryInfo),
    File(FileInfo),
}

impl EntryInfo {
    /// Whether the entry is a file or a directory.
    pub fn kind(&self) -> (r: EntryKind)
        ensures
            r == (match self {
                EntryInfo::Directory(_) => EntryKind::Directory,
                EntryInfo::File(_) => EntryKind::File,
            }),
    {
        match self {
            EntryInfo::Directory(_) => EntryKind::Directory,
            EntryInfo::File(_) => EntryKind::File,
        }
    }
}

} // verus!
