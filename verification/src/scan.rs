//! What a scan keeps: entries of the watched folder and of a backend's
//! listing, and when a transfer's checksum is accepted.
use vstd::prelude::*;
use crate::daemon::{begins_with, is_internal_sync_file, is_internal_sync_file_exec, law_internal_files_are_the_synchronisers_own};
use crate::ignore::{components, rule_views, spec_is_ignored, SyncIgnore};
use crate::paths::{get_remote_path, spec_remote_path};
use crate::state::{ck, FileInfo, FileInfoView, Timestamp};
use crate::storage::StorageItem;
use crate::text::{concat_str, contains_seq, contains_str};

verus! {

/// A remote path that could leave the watched folder: it climbs with `..`,
/// refers to `./`, or is absolute.
pub open spec fn is_unsafe_remote_path(p: Seq<char>) -> bool {
    contains_seq(p, ".."@) || contains_seq(p, "./"@) || (p.len() > 0 && p[0] == '/')
}

pub open spec fn ignored(ig: SyncIgnore, path: Seq<char>, is_dir: bool) -> bool {
    spec_is_ignored(rule_views(ig.rules@), components(path, ig.root@), is_dir)
}

/// The metadata a listed entry is recorded with: folders without size or checksum.
pub open spec fn listed_info(size: u64, modified: Timestamp, is_dir: bool, checksum: Option<Seq<char>>) -> FileInfoView {
    if is_dir {
        FileInfoView { size: 0, modified, is_dir: true, checksum: None }
    } else {
        FileInfoView { size, modified, is_dir: false, checksum }
    }
}

/// Whether a listed remote entry is kept: its path is safe and not excluded.
pub open spec fn keeps_remote(item_path: Seq<char>, is_dir: bool, ig: SyncIgnore) -> bool {
    !is_unsafe_remote_path(item_path) && !ignored(ig, item_path, is_dir)
}

/// The record of a listed remote entry, or `None` when it is skipped. A kept
/// folder is also listed in turn.
pub fn remote_entry(item: &StorageItem, ignore: &SyncIgnore) -> (r: Option<FileInfo>)
    ensures
        keeps_remote(item.path@, item.is_dir, *ignore) <==> r is Some,
        r matches Some(i) ==> i@ == listed_info(item.size, item.modified, item.is_dir, ck(item.checksum)),
{
    let p = item.path.as_str();
    let slash = crate::text::starts_with(p, "/");
    proof {
        reveal_strlit("/");
        assert("/"@ =~= seq!['/']);
        if p@.len() > 0 {
            assert(p@.take(1) =~= seq![p@[0]]);
            if p@[0] == '/' {
                assert(p@.take(1) =~= "/"@);
            } else {
                assert(p@.take(1)[0] != "/"@[0]);
            }
        }
        assert(slash == (p@.len() > 0 && p@[0] == '/'));
    }
    if contains_str(p, "..") || contains_str(p, "./") || slash {
        return None;
    }
    if ignore.is_ignored(p, item.is_dir) {
        return None;
    }
    if item.is_dir {
        Some(FileInfo { size: 0, modified: item.modified, is_dir: true, checksum: None })
    } else {
        Some(FileInfo {
            size: item.size,
            modified: item.modified,
            is_dir: false,
            checksum: crate::state::clone_opt_string(&item.checksum),
        })
    }
}

/// No path kept from a listing can leave the watched folder.
pub proof fn law_kept_remote_paths_are_safe(item_path: Seq<char>, is_dir: bool, ig: SyncIgnore)
    requires
        keeps_remote(item_path, is_dir, ig),
    ensures
        !contains_seq(item_path, ".."@),
        !(item_path.len() > 0 && item_path[0] == '/'),
{
}

/// What the local scan does with an entry of the watched folder.
#[derive(Debug, Clone, Copy, PartialEq, Eq, Structural)]
pub enum LocalEntry {
    /// Leave it out (and do not enter it, for a folder).
    Skip,
    /// Enter the folder without recording it (the watched folder itself).
    Enter,
    /// Record the folder and enter it.
    RecordFolder,
    /// Record the file.
    RecordFile,
}

/// The scan's decision for an entry: excluded entries are skipped; folders are
/// entered and recorded under their relative path; files are recorded unless
/// they are the synchroniser's own.
pub open spec fn spec_local_entry(path: Seq<char>, is_dir: bool, ig: SyncIgnore) -> LocalEntry {
    if ignored(ig, path, is_dir) {
        LocalEntry::Skip
    } else {
        match spec_remote_path(path, ig.root@) {
            None => if is_dir { LocalEntry::Enter } else { LocalEntry::Skip },
            Some(rel) => if is_dir {
                if rel.len() > 0 { LocalEntry::RecordFolder } else { LocalEntry::Enter }
            } else if is_internal_sync_file(rel) {
                LocalEntry::Skip
            } else {
                LocalEntry::RecordFile
            },
        }
    }
}

/// Decides an entry of the local scan; the relative path comes with it when
/// the entry is recorded.
pub fn local_entry(path: &str, is_dir: bool, ignore: &SyncIgnore) -> (r: (LocalEntry, Option<String>))
    ensures
        r.0 == spec_local_entry(path@, is_dir, *ignore),
        (r.0 is RecordFolder || r.0 is RecordFile) ==> ck(r.1) == spec_remote_path(path@, ignore.root@),
{
    if ignore.is_ignored(path, is_dir) {
        return (LocalEntry::Skip, None);
    }
    match get_remote_path(path, ignore.root.as_str()) {
        None => if is_dir { (LocalEntry::Enter, None) } else { (LocalEntry::Skip, None) },
        Some(rel) => {
            if is_dir {
                if !rel.as_str().is_empty() { (LocalEntry::RecordFolder, Some(rel)) } else { (LocalEntry::Enter, None) }
            } else if is_internal_sync_file_exec(rel.as_str()) {
                (LocalEntry::Skip, None)
            } else {
                (LocalEntry::RecordFile, Some(rel))
            }
        },
    }
}

/// A file of the watched folder that no rule excludes is recorded under its
/// relative path unless that path begins with `.sync`: ordinary dotfiles such
/// as `.gitignore` are synced like any other file.
pub proof fn law_ordinary_files_are_recorded(path: Seq<char>, ig: SyncIgnore, rel: Seq<char>)
    requires
        !ignored(ig, path, false),
        spec_remote_path(path, ig.root@) == Some(rel),
        !begins_with(rel, ".sync"@),
    ensures
        spec_local_entry(path, false, ig) == LocalEntry::RecordFile,
{
    law_internal_files_are_the_synchronisers_own(rel);
}

/// Transfers tried in all before a checksum mismatch is reported.
pub const MAX_TRANSFERS: u32 = 4;

/// What follows a transfer once checksums are compared.
#[derive(Debug, Clone, PartialEq, Eq)]
pub enum ChecksumVerdict {
    /// The transfer stands.
    Accept,
    /// Transfer again.
    Retry,
    /// Give up with this message.
    Fail(String),
}

/// A transfer is accepted unless both checksums are known and differ;
/// differing checksums are retried three times, then reported.
pub open spec fn spec_verdict(
    local: Option<Seq<char>>,
    remote: Option<Seq<char>>,
    retries: u32,
    path: Seq<char>,
    upload: bool,
) -> (Seq<char>, int) {
    if local is Some && remote is Some && local != remote {
        if retries < 3 {
            (Seq::empty(), 1)
        } else {
            ("Checksum verification failed for '"@ + path + (if upload { "' after 3 upload attempts"@ } else {
                "' after 3 download attempts"@
            }), 2)
        }
    } else {
        (Seq::empty(), 0)
    }
}

pub open spec fn verdict_view(v: ChecksumVerdict) -> (Seq<char>, int) {
    match v {
        ChecksumVerdict::Accept => (Seq::empty(), 0),
        ChecksumVerdict::Retry => (Seq::empty(), 1),
        ChecksumVerdict::Fail(m) => (m@, 2),
    }
}

/// Compares the checksums after a transfer (`retries` made so far).
pub fn checksum_verdict(
    local: &Option<String>,
    remote: &Option<String>,
    retries: u32,
    path: &str,
    upload: bool,
) -> (v: ChecksumVerdict)
    ensures
        verdict_view(v) == spec_verdict(ck(*local), ck(*remote), retries, path@, upload),
{
    if local.is_some() && remote.is_some() && !crate::state::same_checksum(local, remote) {
        if retries < 3 {
            ChecksumVerdict::Retry
        } else {
            let m = concat_str("Checksum verification failed for '", path);
            let m = if upload {
                concat_str(m.as_str(), "' after 3 upload attempts")
            } else {
                concat_str(m.as_str(), "' after 3 download attempts")
            };
            ChecksumVerdict::Fail(m)
        }
    } else {
        ChecksumVerdict::Accept
    }
}

/// A mismatch is never retried a fourth time, so a path is transferred at
/// most `MAX_TRANSFERS` times.
pub proof fn law_transfers_are_bounded(local: Option<Seq<char>>, remote: Option<Seq<char>>, retries: u32, path: Seq<char>, upload: bool)
    requires
        retries >= 3,
    ensures
        spec_verdict(local, remote, retries, path, upload).1 != 1,
{
}

/// The folder listed to find the entry at `rel_path`: its parent, empty when
/// it has none.
pub open spec fn spec_listing_folder(rel_path: Seq<char>) -> Seq<char> {
    match crate::paths::parent_of(rel_path) {
        Some(d) => d,
        None => Seq::empty(),
    }
}

/// The folder whose listing holds the entry at `rel_path`.
pub fn listing_folder(rel_path: &str) -> (d: String)
    ensures
        d@ == spec_listing_folder(rel_path@),
{
    match crate::paths::path_parent(rel_path) {
        Some(d) => d,
        None => String::new(),
    }
}

/// The first listed item, from `from` on, whose last path component is `name`.
pub open spec fn first_listed(items: Seq<StorageItem>, name: Seq<char>, from: int) -> Option<int>
    decreases items.len() - from,
{
    if from >= items.len() || from < 0 {
        None
    } else if crate::paths::file_name_of(items[from].path@) == Some(name) {
        Some(from)
    } else {
        first_listed(items, name, from + 1)
    }
}

/// The entry a folder listing gives for `rel_path`: the first item whose
/// name is the path's last component, with its metadata as listed.
pub open spec fn spec_find_listed(items: Seq<StorageItem>, rel_path: Seq<char>) -> Option<FileInfoView> {
    match crate::paths::file_name_of(rel_path) {
        Some(n) => match first_listed(items, n, 0) {
            Some(k) => Some(FileInfoView {
                size: items[k].size,
                modified: items[k].modified,
                is_dir: items[k].is_dir,
                checksum: ck(items[k].checksum),
            }),
            None => None,
        },
        None => None,
    }
}

/// Looks the entry at `rel_path` up in the listing of its folder.
pub fn find_listed(items: &Vec<StorageItem>, rel_path: &str) -> (r: Option<FileInfo>)
    ensures
        match r {
            Some(f) => spec_find_listed(items@, rel_path@) == Some(f@),
            None => spec_find_listed(items@, rel_path@) is None,
        },
{
    let name = match crate::paths::path_file_name(rel_path) {
        Some(n) => n,
        None => return None,
    };
    let mut i: usize = 0;
    while i < items.len()
        invariant
            i <= items@.len(),
            crate::paths::file_name_of(rel_path@) == Some(name@),
            first_listed(items@, name@, 0) == first_listed(items@, name@, i as int),
        decreases items.len() - i,
    {
        let item_name = crate::paths::path_file_name(items[i].path.as_str());
        let same = match &item_name {
            Some(n) => crate::text::str_eq(n.as_str(), name.as_str()),
            None => false,
        };
        if same {
            let it = &items[i];
            return Some(FileInfo {
                size: it.size,
                modified: it.modified,
                is_dir: it.is_dir,
                checksum: crate::state::clone_opt_string(&it.checksum),
            });
        }
        i = i + 1;
    }
    None
}

} // verus!
