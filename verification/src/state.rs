//! Scan results and the synchronisation catalog.
use vstd::prelude::*;

verus! {

/// Time in nanoseconds since the Unix epoch.
pub type Timestamp = u128;

/// Abstract value of an optional checksum.
pub open spec fn ck(o: Option<String>) -> Option<Seq<char>> {
    match o {
        Some(s) => Some(s@),
        None => None,
    }
}

/// Metadata of one path on one side (local folder or remote backend).
#[derive(Debug, Clone)]
pub struct FileInfo {
    pub size: u64,
    pub modified: Timestamp,
    pub is_dir: bool,
    pub checksum: Option<String>,
}

/// The synced state of a single path, as last recorded.
#[derive(Debug, Clone)]
pub struct FileState {
    /// Size of the file in bytes.
    pub size: u64,
    /// The last modified time on the local machine.
    pub local_modified: Timestamp,
    /// The last modified time on the remote storage.
    pub remote_modified: Timestamp,
    /// Whether this entry represents a directory.
    pub is_dir: Option<bool>,
    /// Checksum recorded at the last sync, if any.
    pub checksum: Option<String>,
}

/// Abstract value of a scanned or listed path.
pub struct FileInfoView {
    pub size: u64,
    pub modified: Timestamp,
    pub is_dir: bool,
    pub checksum: Option<Seq<char>>,
}

impl View for FileInfo {
    type V = FileInfoView;

    open spec fn view(&self) -> FileInfoView {
        FileInfoView {
            size: self.size,
            modified: self.modified,
            is_dir: self.is_dir,
            checksum: ck(self.checksum),
        }
    }
}

impl FileInfo {
    /// A copy with the same value.
    pub fn duplicate(&self) -> (r: FileInfo)
        ensures
            r@ == self@,
    {
        FileInfo {
            size: self.size,
            modified: self.modified,
            is_dir: self.is_dir,
            checksum: clone_opt_string(&self.checksum),
        }
    }
}

/// Abstract value of an optional scan result.
pub open spec fn info_opt(o: Option<FileInfo>) -> Option<FileInfoView> {
    match o {
        Some(i) => Some(i@),
        None => None,
    }
}

/// Abstract value of an optional catalog entry.
pub open spec fn state_opt(o: Option<FileState>) -> Option<FileStateView> {
    match o {
        Some(s) => Some(s@),
        None => None,
    }
}

/// Abstract value of a catalog entry.
pub struct FileStateView {
    pub size: u64,
    pub local_modified: Timestamp,
    pub remote_modified: Timestamp,
    pub is_dir: Option<bool>,
    pub checksum: Option<Seq<char>>,
}

impl View for FileState {
    type V = FileStateView;

    open spec fn view(&self) -> FileStateView {
        FileStateView {
            size: self.size,
            local_modified: self.local_modified,
            remote_modified: self.remote_modified,
            is_dir: self.is_dir,
            checksum: ck(self.checksum),
        }
    }
}

/// One item found while scanning the local folder.
#[derive(Debug, Clone)]
pub struct ScannedItem {
    pub path: String,
    pub is_dir: bool,
    pub size: u64,
    pub modified: Timestamp,
}

impl FileState {
    /// A copy with the same value.
    pub fn duplicate(&self) -> (r: FileState)
        ensures
            r@ == self@,
    {
        FileState {
            size: self.size,
            local_modified: self.local_modified,
            remote_modified: self.remote_modified,
            is_dir: self.is_dir,
            checksum: clone_opt_string(&self.checksum),
        }
    }
}

/// Equality of optional checksums by value.
pub fn same_checksum(a: &Option<String>, b: &Option<String>) -> (r: bool)
    ensures
        r == (ck(*a) == ck(*b)),
{
    match (a, b) {
        (Some(x), Some(y)) => *x == *y,
        (None, None) => true,
        _ => false,
    }
}

/// Clones an optional string, keeping its value.
pub fn clone_opt_string(a: &Option<String>) -> (r: Option<String>)
    ensures
        ck(r) == ck(*a),
{
    match a {
        Some(x) => Some(x.clone()),
        None => None,
    }
}

/// `a.or(b)` on optional values.
pub open spec fn or_else<T>(a: Option<T>, b: Option<T>) -> Option<T> {
    if a is Some { a } else { b }
}

pub fn opt_string_or(a: Option<String>, b: Option<String>) -> (r: Option<String>)
    ensures
        ck(r) == or_else(ck(a), ck(b)),
{
    match a {
        Some(x) => Some(x),
        None => b,
    }
}

} // verus!
