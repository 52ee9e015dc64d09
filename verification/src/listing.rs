//! What the file system reported while listing one directory.
use vstd::prelude::*;

verus! {

/// The type of a directory entry (`DirEntry::file_type`), or the text of the
/// error met reading it.
#[derive(Debug, Clone, PartialEq, Eq)]
pub enum EntryType {
    Unreadable(String),
    Symlink,
    File,
    Directory,
    Other,
}

/// One entry of a listed directory: its path, its name where the name is UTF-8,
/// and its type.
#[derive(Debug, Clone, PartialEq, Eq)]
pub struct DirectoryEntry {
    pub path: String,
    pub name: Option<String>,
    pub entry_type: EntryType,
}

/// What the listing yielded at one point: an entry, or the text of an error.
#[derive(Debug, Clone, PartialEq, Eq)]
pub enum ListedEntry {
    Unreadable(String),
    Entry(DirectoryEntry),
}

/// What looking at a directory and listing it gave.
#[derive(Debug, Clone, PartialEq, Eq)]
pub enum DirectoryListing {
    /// `fs::symlink_metadata` found nothing there, with the error's text.
    Missing(String),
    /// `fs::symlink_metadata` failed otherwise, with this text.
    Unreadable(String),
    Symlink,
    NotDirectory,
    /// `fs::read_dir` failed, with this text.
    Unlistable(String),
    /// The entries, in listing order.
    Listed(Vec<ListedEntry>),
}

} // verus!
