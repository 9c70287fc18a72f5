//! Reconciliation decisions for one backend: what to do with each path given
//! its local scan, its remote listing and the catalog of the previous sync.
use vstd::prelude::*;
use crate::catalog::{add_keys, raw_keys, distinct_strings, find_info, find_state, get, info_pairs, lemma_info_keys, lemma_state_keys, state_pairs, string_views, to_map};
use crate::policy::SyncMode;
use crate::state::{
    ck, clone_opt_string, info_opt, opt_string_or, or_else, same_checksum, state_opt, FileInfo, FileInfoView,
    FileState, FileStateView, Timestamp,
};

verus! {

/// Where a modification time comes from when it cannot be observed after a transfer.
#[derive(Debug, Clone, Copy, PartialEq, Eq, Structural)]
pub enum MtimeSource {
    /// The clock at the time of the sync.
    Now,
    /// The local scan's modification time.
    Local,
    /// The remote listing's modification time.
    Remote,
}

/// The decision for one regular file.
#[derive(Debug, Clone, Copy, PartialEq, Eq, Structural)]
pub enum FileSyncAction {
    /// Nothing is transferred and the path leaves the catalog.
    Skip,
    /// Nothing is transferred and the previous catalog entry is kept.
    Keep,
    /// Both sides already match: record them without a transfer.
    RecordMatching,
    /// One-way mode: record the remote change without downloading it.
    AcceptRemote,
    /// Upload the local file; the remote time falls back to the given source.
    Upload(MtimeSource),
    /// Download the remote file; the local time falls back to the given source.
    Download(MtimeSource),
    /// Both sides changed: rename the local copy to `<path>.local-conflict`,
    /// upload that copy and download the remote version to the original path.
    ResolveConflict,
    /// Remove the local file (it was deleted remotely).
    DeleteLocal,
    /// Remove the remote file (it was deleted locally).
    DeleteRemote,
}

/// The local copy differs from what was recorded at the last sync.
pub open spec fn local_changed(l: FileInfoView, s: FileStateView) -> bool {
    ||| l.size != s.size
    ||| l.modified != s.local_modified
    ||| (l.checksum is Some && s.checksum is Some && l.checksum != s.checksum)
}

/// The remote copy differs from what was recorded at the last sync.
pub open spec fn remote_changed(r: FileInfoView, s: FileStateView) -> bool {
    ||| r.size != s.size
    ||| r.modified != s.remote_modified
    ||| (r.checksum is Some && s.checksum is Some && r.checksum != s.checksum)
}

/// Both copies are taken to hold the same contents: equal sizes or equal known checksums.
pub open spec fn contents_match(l: FileInfoView, r: FileInfoView) -> bool {
    l.size == r.size || (l.checksum is Some && r.checksum is Some && l.checksum == r.checksum)
}

/// The reconciliation table for a regular file.
pub open spec fn spec_plan_file(
    local: Option<FileInfoView>,
    remote: Option<FileInfoView>,
    state: Option<FileStateView>,
    sync_both: bool,
    sync_deletions: bool,
) -> FileSyncAction {
    match (local, remote, state) {
        (Some(l), Some(r), Some(s)) => {
            if local_changed(l, s) && remote_changed(r, s) {
                if sync_both { FileSyncAction::ResolveConflict } else { FileSyncAction::Upload(MtimeSource::Remote) }
            } else if local_changed(l, s) {
                FileSyncAction::Upload(MtimeSource::Remote)
            } else if remote_changed(r, s) {
                if sync_both { FileSyncAction::Download(MtimeSource::Local) } else { FileSyncAction::AcceptRemote }
            } else {
                FileSyncAction::Keep
            }
        },
        (Some(l), Some(r), None) => {
            if contents_match(l, r) {
                FileSyncAction::RecordMatching
            } else if sync_both {
                FileSyncAction::ResolveConflict
            } else {
                FileSyncAction::Upload(MtimeSource::Remote)
            }
        },
        (Some(_), None, None) => FileSyncAction::Upload(MtimeSource::Now),
        (None, Some(_), None) => {
            if sync_both { FileSyncAction::Download(MtimeSource::Now) } else { FileSyncAction::Skip }
        },
        (Some(l), None, Some(s)) => {
            if local_changed(l, s) {
                FileSyncAction::Upload(MtimeSource::Now)
            } else if sync_both {
                FileSyncAction::DeleteLocal
            } else {
                FileSyncAction::Upload(MtimeSource::Now)
            }
        },
        (None, Some(r), Some(s)) => {
            if remote_changed(r, s) && sync_both {
                FileSyncAction::Download(MtimeSource::Remote)
            } else if sync_deletions {
                FileSyncAction::DeleteRemote
            } else {
                FileSyncAction::Skip
            }
        },
        (None, None, _) => FileSyncAction::Skip,
    }
}

fn local_changed_exec(l: &FileInfo, s: &FileState) -> (b: bool)
    ensures
        b == local_changed(l@, s@),
{
    l.size != s.size || l.modified != s.local_modified || (l.checksum.is_some()
        && s.checksum.is_some() && !same_checksum(&l.checksum, &s.checksum))
}

fn remote_changed_exec(r: &FileInfo, s: &FileState) -> (b: bool)
    ensures
        b == remote_changed(r@, s@),
{
    r.size != s.size || r.modified != s.remote_modified || (r.checksum.is_some()
        && s.checksum.is_some() && !same_checksum(&r.checksum, &s.checksum))
}

/// Decides what to do with one regular file.
pub fn plan_file_sync(
    local: &Option<FileInfo>,
    remote: &Option<FileInfo>,
    state: &Option<FileState>,
    sync_both: bool,
    sync_deletions: bool,
) -> (a: FileSyncAction)
    ensures
        a == spec_plan_file(info_opt(*local), info_opt(*remote), state_opt(*state), sync_both, sync_deletions),
{
    match (local, remote, state) {
        (Some(l), Some(r), Some(s)) => {
            let lc = local_changed_exec(l, s);
            let rc = remote_changed_exec(r, s);
            if lc && rc {
                if sync_both { FileSyncAction::ResolveConflict } else { FileSyncAction::Upload(MtimeSource::Remote) }
            } else if lc {
                FileSyncAction::Upload(MtimeSource::Remote)
            } else if rc {
                if sync_both { FileSyncAction::Download(MtimeSource::Local) } else { FileSyncAction::AcceptRemote }
            } else {
                FileSyncAction::Keep
            }
        },
        (Some(l), Some(r), None) => {
            let same = l.checksum.is_some() && r.checksum.is_some() && same_checksum(&l.checksum, &r.checksum);
            if l.size == r.size || same {
                FileSyncAction::RecordMatching
            } else if sync_both {
                FileSyncAction::ResolveConflict
            } else {
                FileSyncAction::Upload(MtimeSource::Remote)
            }
        },
        (Some(_), None, None) => FileSyncAction::Upload(MtimeSource::Now),
        (None, Some(_), None) => {
            if sync_both { FileSyncAction::Download(MtimeSource::Now) } else { FileSyncAction::Skip }
        },
        (Some(l), None, Some(s)) => {
            if local_changed_exec(l, s) {
                FileSyncAction::Upload(MtimeSource::Now)
            } else if sync_both {
                FileSyncAction::DeleteLocal
            } else {
                FileSyncAction::Upload(MtimeSource::Now)
            }
        },
        (None, Some(r), Some(s)) => {
            if remote_changed_exec(r, s) && sync_both {
                FileSyncAction::Download(MtimeSource::Remote)
            } else if sync_deletions {
                FileSyncAction::DeleteRemote
            } else {
                FileSyncAction::Skip
            }
        },
        (None, None, _) => FileSyncAction::Skip,
    }
}

} // verus!

verus! {

/// What was observed after a transfer: the checksum it reported and the
/// modification time read back afterwards, when it could be read.
#[derive(Debug, Clone)]
pub struct TransferReport {
    pub checksum: Option<String>,
    pub observed_mtime: Option<Timestamp>,
}

pub struct TransferReportView {
    pub checksum: Option<Seq<char>>,
    pub observed_mtime: Option<Timestamp>,
}

impl View for TransferReport {
    type V = TransferReportView;

    open spec fn view(&self) -> TransferReportView {
        TransferReportView { checksum: ck(self.checksum), observed_mtime: self.observed_mtime }
    }
}

/// Suffix given to the local copy of a file that changed on both sides.
pub open spec fn conflict_suffix() -> Seq<char> {
    ".local-conflict"@
}

/// Path under which the local copy of a conflicting file is kept.
pub fn conflict_path(rel_path: &str) -> (p: String)
    ensures
        p@ == rel_path@ + conflict_suffix(),
{
    crate::text::concat_str(rel_path, ".local-conflict")
}

pub open spec fn pick_time(observed: Option<Timestamp>, fallback: Timestamp) -> Timestamp {
    match observed {
        Some(t) => t,
        None => fallback,
    }
}

pub open spec fn source_time(
    src: MtimeSource,
    local: Option<FileInfoView>,
    remote: Option<FileInfoView>,
    now: Timestamp,
) -> Timestamp {
    match src {
        MtimeSource::Now => now,
        MtimeSource::Local => local->0.modified,
        MtimeSource::Remote => remote->0.modified,
    }
}

/// Catalog entry of a regular file, by value.
pub open spec fn file_entry(
    size: u64,
    local_modified: Timestamp,
    remote_modified: Timestamp,
    checksum: Option<Seq<char>>,
) -> FileStateView {
    FileStateView { size, local_modified, remote_modified, is_dir: Some(false), checksum }
}

/// The catalog entries a file contributes once its action has been carried out.
pub open spec fn spec_file_entries(
    rel_path: Seq<char>,
    action: FileSyncAction,
    local: Option<FileInfoView>,
    remote: Option<FileInfoView>,
    state: Option<FileStateView>,
    primary: TransferReportView,
    conflict_copy: TransferReportView,
    conflict_local_mtime: Option<Timestamp>,
    now: Timestamp,
) -> Seq<(Seq<char>, FileStateView)> {
    let l = local->0;
    let r = remote->0;
    match action {
        FileSyncAction::Skip | FileSyncAction::DeleteLocal | FileSyncAction::DeleteRemote => seq![],
        FileSyncAction::Keep => seq![(rel_path, state->0)],
        FileSyncAction::RecordMatching => seq![
            (rel_path, file_entry(l.size, l.modified, r.modified, or_else(r.checksum, l.checksum))),
        ],
        FileSyncAction::AcceptRemote => seq![
            (rel_path, file_entry(r.size, l.modified, r.modified, or_else(r.checksum, state->0.checksum))),
        ],
        FileSyncAction::Upload(src) => seq![
            (rel_path, file_entry(
                l.size,
                l.modified,
                pick_time(primary.observed_mtime, source_time(src, local, remote, now)),
                or_else(primary.checksum, l.checksum),
            )),
        ],
        FileSyncAction::Download(src) => seq![
            (rel_path, file_entry(
                r.size,
                pick_time(primary.observed_mtime, source_time(src, local, remote, now)),
                r.modified,
                or_else(primary.checksum, r.checksum),
            )),
        ],
        FileSyncAction::ResolveConflict => seq![
            (rel_path + conflict_suffix(), file_entry(
                l.size,
                pick_time(conflict_local_mtime, now),
                pick_time(conflict_copy.observed_mtime, now),
                or_else(conflict_copy.checksum, l.checksum),
            )),
            (rel_path, file_entry(
                r.size,
                pick_time(primary.observed_mtime, now),
                r.modified,
                or_else(primary.checksum, r.checksum),
            )),
        ],
    }
}

pub open spec fn entries_view(v: Seq<(String, FileState)>) -> Seq<(Seq<char>, FileStateView)> {
    v.map_values(|e: (String, FileState)| (e.0@, e.1@))
}

fn pick_time_exec(observed: Option<Timestamp>, fallback: Timestamp) -> (t: Timestamp)
    ensures
        t == pick_time(observed, fallback),
{
    match observed {
        Some(t) => t,
        None => fallback,
    }
}

fn make_entry(size: u64, local_modified: Timestamp, remote_modified: Timestamp, checksum: Option<String>) -> (e: FileState)
    ensures
        e@ == file_entry(size, local_modified, remote_modified, ck(checksum)),
{
    FileState { size, local_modified, remote_modified, is_dir: Some(false), checksum }
}

/// The catalog entries produced for a file once its planned action has been
/// carried out. `primary` reports the main transfer (the upload, or the
/// download into the original path); for a conflict, `conflict_copy` reports
/// the upload of the renamed copy and `conflict_local_mtime` that copy's local time.
pub fn file_entries_after(
    rel_path: &str,
    action: FileSyncAction,
    local: &Option<FileInfo>,
    remote: &Option<FileInfo>,
    state: &Option<FileState>,
    primary: &TransferReport,
    conflict_copy: &TransferReport,
    conflict_local_mtime: Option<Timestamp>,
    now: Timestamp,
) -> (entries: Vec<(String, FileState)>)
    requires
        exists|both: bool, del: bool|
            action == spec_plan_file(info_opt(*local), info_opt(*remote), state_opt(*state), both, del),
    ensures
        entries_view(entries@) == spec_file_entries(
            rel_path@, action, info_opt(*local), info_opt(*remote), state_opt(*state), primary@,
            conflict_copy@, conflict_local_mtime, now),
{
    let mut out: Vec<(String, FileState)> = Vec::new();
    let p = rel_path.to_owned();
    match action {
        FileSyncAction::Skip | FileSyncAction::DeleteLocal | FileSyncAction::DeleteRemote => {},
        FileSyncAction::Keep => {
            let s = state.as_ref().unwrap();
            out.push((p, s.duplicate()));
        },
        FileSyncAction::RecordMatching => {
            let l = local.as_ref().unwrap();
            let r = remote.as_ref().unwrap();
            let c = opt_string_or(clone_opt_string(&r.checksum), clone_opt_string(&l.checksum));
            out.push((p, make_entry(l.size, l.modified, r.modified, c)));
        },
        FileSyncAction::AcceptRemote => {
            let l = local.as_ref().unwrap();
            let r = remote.as_ref().unwrap();
            let s = state.as_ref().unwrap();
            let c = opt_string_or(clone_opt_string(&r.checksum), clone_opt_string(&s.checksum));
            out.push((p, make_entry(r.size, l.modified, r.modified, c)));
        },
        FileSyncAction::Upload(src) => {
            let l = local.as_ref().unwrap();
            let fallback = match src {
                MtimeSource::Now => now,
                MtimeSource::Local => l.modified,
                MtimeSource::Remote => remote.as_ref().unwrap().modified,
            };
            let c = opt_string_or(clone_opt_string(&primary.checksum), clone_opt_string(&l.checksum));
            out.push((p, make_entry(l.size, l.modified, pick_time_exec(primary.observed_mtime, fallback), c)));
        },
        FileSyncAction::Download(src) => {
            let r = remote.as_ref().unwrap();
            let fallback = match src {
                MtimeSource::Now => now,
                MtimeSource::Local => local.as_ref().unwrap().modified,
                MtimeSource::Remote => r.modified,
            };
            let c = opt_string_or(clone_opt_string(&primary.checksum), clone_opt_string(&r.checksum));
            out.push((p, make_entry(r.size, pick_time_exec(primary.observed_mtime, fallback), r.modified, c)));
        },
        FileSyncAction::ResolveConflict => {
            let l = local.as_ref().unwrap();
            let r = remote.as_ref().unwrap();
            let cp = conflict_path(rel_path);
            let c1 = opt_string_or(clone_opt_string(&conflict_copy.checksum), clone_opt_string(&l.checksum));
            out.push((cp, make_entry(
                l.size,
                pick_time_exec(conflict_local_mtime, now),
                pick_time_exec(conflict_copy.observed_mtime, now),
                c1,
            )));
            let c2 = opt_string_or(clone_opt_string(&primary.checksum), clone_opt_string(&r.checksum));
            out.push((p, make_entry(r.size, pick_time_exec(primary.observed_mtime, now), r.modified, c2)));
        },
    }
    assert(entries_view(out@) =~= spec_file_entries(
        rel_path@, action, info_opt(*local), info_opt(*remote), state_opt(*state), primary@,
        conflict_copy@, conflict_local_mtime, now));
    out
}

} // verus!

verus! {

/// A path whose two sides both still match the catalog is left alone.
pub proof fn law_unchanged_sides_are_kept(
    l: FileInfoView,
    r: FileInfoView,
    s: FileStateView,
    sync_both: bool,
    sync_deletions: bool,
)
    requires
        !local_changed(l, s),
        !remote_changed(r, s),
    ensures
        spec_plan_file(Some(l), Some(r), Some(s), sync_both, sync_deletions) == FileSyncAction::Keep,
{
}

/// Outside two-way mode nothing is ever written to or removed from the local folder.
pub proof fn law_one_way_never_writes_locally(
    local: Option<FileInfoView>,
    remote: Option<FileInfoView>,
    state: Option<FileStateView>,
    sync_deletions: bool,
)
    ensures
        ({
            let a = spec_plan_file(local, remote, state, false, sync_deletions);
            &&& !(a is Download)
            &&& a != FileSyncAction::DeleteLocal
            &&& a != FileSyncAction::ResolveConflict
        }),
{
}

/// When deletions are not propagated, no remote file is ever deleted.
pub proof fn law_no_deletion_mode_never_deletes_remotely(
    local: Option<FileInfoView>,
    remote: Option<FileInfoView>,
    state: Option<FileStateView>,
    sync_both: bool,
)
    ensures
        spec_plan_file(local, remote, state, sync_both, false) != FileSyncAction::DeleteRemote,
{
}

/// Deletion is only ever decided for a path recorded at the previous sync, and
/// only on the side where the file still exists while the other side lost it;
/// a local file is removed only when it was not edited since that sync.
pub proof fn law_deletions_require_a_catalog_entry(
    local: Option<FileInfoView>,
    remote: Option<FileInfoView>,
    state: Option<FileStateView>,
    sync_both: bool,
    sync_deletions: bool,
)
    ensures
        ({
            let a = spec_plan_file(local, remote, state, sync_both, sync_deletions);
            &&& a == FileSyncAction::DeleteLocal ==> {
                &&& state is Some && local is Some && remote is None
                &&& !local_changed(local->0, state->0)
                &&& sync_both
            }
            &&& a == FileSyncAction::DeleteRemote ==> {
                state is Some && remote is Some && local is None && sync_deletions
            }
        }),
{
}

/// A file that exists only locally and was never synced is uploaded in every mode.
pub proof fn law_new_local_file_is_uploaded(l: FileInfoView, sync_both: bool, sync_deletions: bool)
    ensures
        spec_plan_file(Some(l), None, None, sync_both, sync_deletions) is Upload,
{
}

/// A local edit reaches the remote side unless, in two-way mode, the remote
/// copy was edited as well (then both versions are kept as a conflict).
pub proof fn law_local_edit_is_uploaded(
    l: FileInfoView,
    remote: Option<FileInfoView>,
    s: FileStateView,
    sync_both: bool,
    sync_deletions: bool,
)
    requires
        local_changed(l, s),
    ensures
        ({
            let a = spec_plan_file(Some(l), remote, Some(s), sync_both, sync_deletions);
            if sync_both && remote is Some && remote_changed(remote->0, s) {
                a == FileSyncAction::ResolveConflict
            } else {
                a is Upload
            }
        }),
{
}

/// In two-way mode a remote edit reaches the local folder unless the local
/// copy was edited as well.
pub proof fn law_remote_edit_is_downloaded_in_two_way_mode(
    local: Option<FileInfoView>,
    r: FileInfoView,
    s: FileStateView,
    sync_deletions: bool,
)
    requires
        remote_changed(r, s),
        local is None || !local_changed(local->0, s),
    ensures
        spec_plan_file(local, Some(r), Some(s), true, sync_deletions) is Download,
{
}

/// In two-way mode a file edited on both sides since the last sync loses
/// neither version: the local one is kept (and uploaded) as
/// `<path>.local-conflict` with its own size, and the remote one takes the
/// original path with its size and remote time.
pub proof fn law_conflicts_keep_both_versions(
    rel_path: Seq<char>,
    l: FileInfoView,
    r: FileInfoView,
    s: FileStateView,
    sync_deletions: bool,
    primary: TransferReportView,
    copy: TransferReportView,
    conflict_mtime: Option<Timestamp>,
    now: Timestamp,
)
    requires
        local_changed(l, s),
        remote_changed(r, s),
    ensures
        spec_plan_file(Some(l), Some(r), Some(s), true, sync_deletions) == FileSyncAction::ResolveConflict,
        ({
            let e = spec_file_entries(rel_path, FileSyncAction::ResolveConflict, Some(l), Some(r), Some(s), primary, copy, conflict_mtime, now);
            &&& e.len() == 2
            &&& e[0].0 == rel_path + ".local-conflict"@
            &&& e[0].1.size == l.size
            &&& e[1].0 == rel_path
            &&& e[1].1.size == r.size
            &&& e[1].1.remote_modified == r.modified
            &&& e[0].0 != e[1].0
        }),
{
    reveal_strlit(".local-conflict");
    let e = spec_file_entries(rel_path, FileSyncAction::ResolveConflict, Some(l), Some(r), Some(s), primary, copy, conflict_mtime, now);
    assert(e[0].0.len() != e[1].0.len());
}

/// An upload is recognised on the next run: when the local file has not been
/// touched since and the remote listing shows what the upload left behind
/// (the recorded size and time, and no contradicting checksum), the next
/// plan keeps the entry and transfers nothing.
pub proof fn law_upload_is_recognised_next_run(
    rel_path: Seq<char>,
    l: FileInfoView,
    remote: Option<FileInfoView>,
    state: Option<FileStateView>,
    sync_both: bool,
    sync_deletions: bool,
    report: TransferReportView,
    unused: TransferReportView,
    conflict_mtime: Option<Timestamp>,
    now: Timestamp,
    r2: FileInfoView,
    recorded: FileStateView,
)
    requires
        spec_plan_file(Some(l), remote, state, sync_both, sync_deletions) is Upload,
        report.checksum is None || l.checksum is None || report.checksum == l.checksum,
        recorded == spec_file_entries(
            rel_path,
            spec_plan_file(Some(l), remote, state, sync_both, sync_deletions),
            Some(l), remote, state, report, unused, conflict_mtime, now)[0].1,
        r2.size == l.size,
        r2.modified == recorded.remote_modified,
        r2.checksum is None || recorded.checksum is None || r2.checksum == recorded.checksum,
    ensures
        spec_plan_file(Some(l), Some(r2), Some(recorded), sync_both, sync_deletions) == FileSyncAction::Keep,
{
}

/// A download is recognised on the next run: when the remote copy has not
/// changed since and the local file is what the download left behind, the
/// next plan keeps the entry and transfers nothing.
pub proof fn law_download_is_recognised_next_run(
    rel_path: Seq<char>,
    local: Option<FileInfoView>,
    r: FileInfoView,
    state: Option<FileStateView>,
    sync_deletions: bool,
    report: TransferReportView,
    unused: TransferReportView,
    conflict_mtime: Option<Timestamp>,
    now: Timestamp,
    l2: FileInfoView,
    recorded: FileStateView,
)
    requires
        spec_plan_file(local, Some(r), state, true, sync_deletions) is Download,
        report.checksum is None || r.checksum is None || report.checksum == r.checksum,
        recorded == spec_file_entries(
            rel_path,
            spec_plan_file(local, Some(r), state, true, sync_deletions),
            local, Some(r), state, report, unused, conflict_mtime, now)[0].1,
        l2.size == r.size,
        l2.modified == recorded.local_modified,
        l2.checksum is None || recorded.checksum is None || l2.checksum == recorded.checksum,
    ensures
        spec_plan_file(Some(l2), Some(r), Some(recorded), true, sync_deletions) == FileSyncAction::Keep,
{
}

} // verus!

verus! {

/// On a first sync in two-way mode (no catalog entry), a file present on both
/// sides whose sizes differ and whose checksums do not match is a conflict:
/// no version is overwritten. The local one is kept as
/// `<path>.local-conflict` with its own size, and the remote one takes the
/// path with its size and remote time.
pub proof fn law_first_sync_difference_is_a_conflict(
    rel_path: Seq<char>,
    l: FileInfoView,
    r: FileInfoView,
    sync_deletions: bool,
    primary: TransferReportView,
    copy: TransferReportView,
    conflict_mtime: Option<Timestamp>,
    now: Timestamp,
)
    requires
        l.size != r.size,
        !(l.checksum is Some && r.checksum is Some && l.checksum == r.checksum),
    ensures
        spec_plan_file(Some(l), Some(r), None, true, sync_deletions) == FileSyncAction::ResolveConflict,
        ({
            let e = spec_file_entries(rel_path, FileSyncAction::ResolveConflict, Some(l), Some(r), None, primary, copy, conflict_mtime, now);
            &&& e.len() == 2
            &&& e[0].0 == rel_path + ".local-conflict"@
            &&& e[0].1.size == l.size
            &&& e[1].0 == rel_path
            &&& e[1].1.size == r.size
            &&& e[1].1.remote_modified == r.modified
        }),
{
    reveal_strlit(".local-conflict");
}

/// A file found with the same contents on both sides at a first sync is only
/// recorded: its entry takes the local file's size and time as the local
/// time and the remote file's time as the remote time, so that when neither
/// side changes the next run keeps it.
pub proof fn law_matching_files_are_kept_next_run(
    rel_path: Seq<char>,
    l: FileInfoView,
    r: FileInfoView,
    sync_both: bool,
    sync_deletions: bool,
    primary: TransferReportView,
    copy: TransferReportView,
    conflict_mtime: Option<Timestamp>,
    now: Timestamp,
)
    requires
        l.size == r.size,
        l.checksum is None || r.checksum is None || l.checksum == r.checksum,
    ensures
        spec_plan_file(Some(l), Some(r), None, sync_both, sync_deletions) == FileSyncAction::RecordMatching,
        ({
            let e = spec_file_entries(rel_path, FileSyncAction::RecordMatching, Some(l), Some(r), None, primary, copy, conflict_mtime, now);
            &&& e.len() == 1
            &&& e[0].0 == rel_path
            &&& e[0].1.size == l.size
            &&& e[0].1.local_modified == l.modified
            &&& e[0].1.remote_modified == r.modified
            &&& spec_plan_file(Some(l), Some(r), Some(e[0].1), sync_both, sync_deletions) == FileSyncAction::Keep
        }),
{
}

/// A file that appeared remotely is downloaded in two-way mode, and never in
/// the one-way modes.
pub proof fn law_new_remote_files_come_down_only_in_two_way_mode(r: FileInfoView, mode: SyncMode)
    ensures
        (spec_plan_file(None, Some(r), None, mode.spec_sync_both(), mode.spec_sync_deletions()) is Download)
            <==> mode == SyncMode::TwoWay,
{
}

} // verus!

verus! {

/// The decision for one directory.
#[derive(Debug, Clone, Copy, PartialEq, Eq, Structural)]
pub enum DirSyncAction {
    /// Nothing is done and the path leaves the catalog.
    Skip,
    /// The directory exists on both sides: record it.
    RecordBoth,
    /// Create the directory remotely and record it.
    CreateRemote,
    /// Create the directory locally and record it.
    CreateLocal,
    /// Remove the local directory tree (it was deleted remotely).
    DeleteLocal,
    /// Remove the remote directory (it was deleted locally).
    DeleteRemote,
}

/// The reconciliation table for a directory.
pub open spec fn spec_plan_dir(
    local: Option<FileInfoView>,
    remote: Option<FileInfoView>,
    state: Option<FileStateView>,
    sync_both: bool,
    sync_deletions: bool,
) -> DirSyncAction {
    match (local, remote, state) {
        (Some(_), Some(_), _) => DirSyncAction::RecordBoth,
        (Some(_), None, None) => DirSyncAction::CreateRemote,
        (None, Some(_), None) => if sync_both { DirSyncAction::CreateLocal } else { DirSyncAction::Skip },
        (Some(_), None, Some(_)) => if sync_both { DirSyncAction::DeleteLocal } else { DirSyncAction::CreateRemote },
        (None, Some(_), Some(_)) => if sync_deletions { DirSyncAction::DeleteRemote } else { DirSyncAction::Skip },
        (None, None, _) => DirSyncAction::Skip,
    }
}

/// Decides what to do with one directory.
pub fn plan_dir_sync(
    local: &Option<FileInfo>,
    remote: &Option<FileInfo>,
    state: &Option<FileState>,
    sync_both: bool,
    sync_deletions: bool,
) -> (a: DirSyncAction)
    ensures
        a == spec_plan_dir(info_opt(*local), info_opt(*remote), state_opt(*state), sync_both, sync_deletions),
{
    match (local, remote, state) {
        (Some(_), Some(_), _) => DirSyncAction::RecordBoth,
        (Some(_), None, None) => DirSyncAction::CreateRemote,
        (None, Some(_), None) => if sync_both { DirSyncAction::CreateLocal } else { DirSyncAction::Skip },
        (Some(_), None, Some(_)) => if sync_both { DirSyncAction::DeleteLocal } else { DirSyncAction::CreateRemote },
        (None, Some(_), Some(_)) => if sync_deletions { DirSyncAction::DeleteRemote } else { DirSyncAction::Skip },
        (None, None, _) => DirSyncAction::Skip,
    }
}

/// Catalog entry of a directory, by value.
pub open spec fn dir_entry(local_modified: Timestamp, remote_modified: Timestamp) -> FileStateView {
    FileStateView { size: 0, local_modified, remote_modified, is_dir: Some(true), checksum: None }
}

/// The catalog entries a directory contributes once its action has been carried
/// out; `observed` is the time read back from the side that was just created.
pub open spec fn spec_dir_entries(
    rel_path: Seq<char>,
    action: DirSyncAction,
    local: Option<FileInfoView>,
    remote: Option<FileInfoView>,
    observed: Option<Timestamp>,
    now: Timestamp,
) -> Seq<(Seq<char>, FileStateView)> {
    match action {
        DirSyncAction::RecordBoth => seq![(rel_path, dir_entry(local->0.modified, remote->0.modified))],
        DirSyncAction::CreateRemote => seq![(rel_path, dir_entry(local->0.modified, pick_time(observed, now)))],
        DirSyncAction::CreateLocal => seq![(rel_path, dir_entry(pick_time(observed, now), remote->0.modified))],
        _ => seq![],
    }
}

pub fn dir_entries_after(
    rel_path: &str,
    action: DirSyncAction,
    local: &Option<FileInfo>,
    remote: &Option<FileInfo>,
    state: &Option<FileState>,
    observed: Option<Timestamp>,
    now: Timestamp,
) -> (entries: Vec<(String, FileState)>)
    requires
        exists|both: bool, del: bool|
            action == spec_plan_dir(info_opt(*local), info_opt(*remote), state_opt(*state), both, del),
    ensures
        entries_view(entries@) == spec_dir_entries(rel_path@, action, info_opt(*local), info_opt(*remote), observed, now),
{
    let mut out: Vec<(String, FileState)> = Vec::new();
    let p = rel_path.to_owned();
    match action {
        DirSyncAction::RecordBoth => {
            let e = FileState {
                size: 0,
                local_modified: local.as_ref().unwrap().modified,
                remote_modified: remote.as_ref().unwrap().modified,
                is_dir: Some(true),
                checksum: None,
            };
            out.push((p, e));
        },
        DirSyncAction::CreateRemote => {
            let e = FileState {
                size: 0,
                local_modified: local.as_ref().unwrap().modified,
                remote_modified: pick_time_exec(observed, now),
                is_dir: Some(true),
                checksum: None,
            };
            out.push((p, e));
        },
        DirSyncAction::CreateLocal => {
            let e = FileState {
                size: 0,
                local_modified: pick_time_exec(observed, now),
                remote_modified: remote.as_ref().unwrap().modified,
                is_dir: Some(true),
                checksum: None,
            };
            out.push((p, e));
        },
        _ => {},
    }
    assert(entries_view(out@) =~= spec_dir_entries(rel_path@, action, info_opt(*local), info_opt(*remote), observed, now));
    out
}

/// Outside two-way mode no local directory is ever created or removed.
pub proof fn law_one_way_never_changes_local_directories(
    local: Option<FileInfoView>,
    remote: Option<FileInfoView>,
    state: Option<FileStateView>,
    sync_deletions: bool,
)
    ensures
        spec_plan_dir(local, remote, state, false, sync_deletions) != DirSyncAction::CreateLocal,
        spec_plan_dir(local, remote, state, false, sync_deletions) != DirSyncAction::DeleteLocal,
{
}

/// Directories are deleted only when recorded at the previous sync, and remote
/// ones only when deletions are propagated.
pub proof fn law_directory_deletions_require_a_catalog_entry(
    local: Option<FileInfoView>,
    remote: Option<FileInfoView>,
    state: Option<FileStateView>,
    sync_both: bool,
    sync_deletions: bool,
)
    ensures
        ({
            let a = spec_plan_dir(local, remote, state, sync_both, sync_deletions);
            &&& a == DirSyncAction::DeleteLocal ==> state is Some && remote is None && sync_both
            &&& a == DirSyncAction::DeleteRemote ==> state is Some && local is None && sync_deletions
        }),
{
}

/// Whether a path is handled as a directory: any side says so.
pub open spec fn is_dir_path(
    local: Option<FileInfoView>,
    remote: Option<FileInfoView>,
    state: Option<FileStateView>,
) -> bool {
    ||| (local is Some && local->0.is_dir)
    ||| (remote is Some && remote->0.is_dir)
    ||| (state is Some && state->0.is_dir == Some(true))
}

/// What is decided for one path.
#[derive(Debug, Clone, Copy, PartialEq, Eq, Structural)]
pub enum PathAction {
    Dir(DirSyncAction),
    File(FileSyncAction),
}

pub open spec fn spec_path_action(
    local: Option<FileInfoView>,
    remote: Option<FileInfoView>,
    state: Option<FileStateView>,
    sync_both: bool,
    sync_deletions: bool,
) -> PathAction {
    if is_dir_path(local, remote, state) {
        PathAction::Dir(spec_plan_dir(local, remote, state, sync_both, sync_deletions))
    } else {
        PathAction::File(spec_plan_file(local, remote, state, sync_both, sync_deletions))
    }
}

/// One path of a synchronisation run with what each side holds and the decision.
#[derive(Debug, Clone)]
pub struct PathPlan {
    pub path: String,
    pub local: Option<FileInfo>,
    pub remote: Option<FileInfo>,
    pub state: Option<FileState>,
    pub action: PathAction,
}

/// A plan entry agrees with the three inputs of the run.
pub open spec fn plan_matches(
    p: PathPlan,
    local: Seq<(String, FileInfo)>,
    remote: Seq<(String, FileInfo)>,
    catalog: Seq<(String, FileState)>,
    sync_both: bool,
    sync_deletions: bool,
) -> bool {
    &&& info_opt(p.local) == get(to_map(info_pairs(local)), p.path@)
    &&& info_opt(p.remote) == get(to_map(info_pairs(remote)), p.path@)
    &&& state_opt(p.state) == get(to_map(state_pairs(catalog)), p.path@)
    &&& p.action == spec_path_action(info_opt(p.local), info_opt(p.remote), state_opt(p.state), sync_both, sync_deletions)
}

fn plan_path(
    path: &String,
    local: &Vec<(String, FileInfo)>,
    remote: &Vec<(String, FileInfo)>,
    catalog: &Vec<(String, FileState)>,
    sync_both: bool,
    sync_deletions: bool,
) -> (p: PathPlan)
    ensures
        p.path@ == path@,
        plan_matches(p, local@, remote@, catalog@, sync_both, sync_deletions),
{
    let l = find_info(local, path);
    let r = find_info(remote, path);
    let s = find_state(catalog, path);
    let is_dir = match &l { Some(x) => x.is_dir, None => false } || match &r { Some(x) => x.is_dir, None => false }
        || match &s { Some(x) => match x.is_dir { Some(d) => d, None => false }, None => false };
    let action = if is_dir {
        PathAction::Dir(plan_dir_sync(&l, &r, &s, sync_both, sync_deletions))
    } else {
        PathAction::File(plan_file_sync(&l, &r, &s, sync_both, sync_deletions))
    };
    PathPlan { path: path.clone(), local: l, remote: r, state: s, action }
}

/// Plans a whole synchronisation run: every path known locally, remotely or to
/// the catalog appears exactly once, directories before files.
pub fn plan_sync(
    local: &Vec<(String, FileInfo)>,
    remote: &Vec<(String, FileInfo)>,
    catalog: &Vec<(String, FileState)>,
    sync_both: bool,
    sync_deletions: bool,
) -> (plans: Vec<PathPlan>)
    ensures
        forall|i: int| 0 <= i < plans@.len() ==> plan_matches(#[trigger] plans@[i], local@, remote@, catalog@, sync_both, sync_deletions),
        forall|i: int, j: int| 0 <= i < j < plans@.len() ==> plans@[i].path@ != plans@[j].path@,
        forall|k: Seq<char>| (exists|i: int| 0 <= i < plans@.len() && #[trigger] plans@[i].path@ == k) <==> (
            to_map(info_pairs(local@)).dom().contains(k)
            || to_map(info_pairs(remote@)).dom().contains(k)
            || to_map(state_pairs(catalog@)).dom().contains(k)),
        forall|i: int, j: int| 0 <= i < j < plans@.len() && (plans@[j].action is Dir) ==> (plans@[i].action is Dir),
{
    let mut paths: Vec<String> = Vec::new();
    assert(string_views(paths@).to_set() =~= Set::<Seq<char>>::empty());
    add_keys(&mut paths, local);
    add_keys(&mut paths, remote);
    add_keys(&mut paths, catalog);
    proof {
        lemma_info_keys(local@);
        lemma_info_keys(remote@);
        lemma_state_keys(catalog@);
    }
    let ghost all = string_views(paths@).to_set();
    assert(all =~= raw_keys(local@).union(raw_keys(remote@)).union(raw_keys(catalog@)));
    let mut dirs: Vec<PathPlan> = Vec::new();
    let mut files: Vec<PathPlan> = Vec::new();
    let mut i: usize = 0;
    while i < paths.len()
        invariant
            i <= paths.len(),
            distinct_strings(paths@),
            all == string_views(paths@).to_set(),
            all == raw_keys(local@).union(raw_keys(remote@)).union(raw_keys(catalog@)),
            forall|x: int| 0 <= x < dirs@.len() ==> plan_matches(#[trigger] dirs@[x], local@, remote@, catalog@, sync_both, sync_deletions),
            forall|x: int| 0 <= x < files@.len() ==> plan_matches(#[trigger] files@[x], local@, remote@, catalog@, sync_both, sync_deletions),
            forall|x: int| 0 <= x < dirs@.len() ==> (#[trigger] dirs@[x]).action is Dir,
            forall|x: int| 0 <= x < files@.len() ==> !((#[trigger] files@[x]).action is Dir),
            forall|x: int| 0 <= x < dirs@.len() ==> exists|j: int| 0 <= j < i && paths@[j]@ == (#[trigger] dirs@[x]).path@,
            forall|x: int| 0 <= x < files@.len() ==> exists|j: int| 0 <= j < i && paths@[j]@ == (#[trigger] files@[x]).path@,
            forall|j: int| 0 <= j < i ==> (exists|x: int| 0 <= x < dirs@.len() && dirs@[x].path@ == (#[trigger] paths@[j])@)
                || (exists|x: int| 0 <= x < files@.len() && files@[x].path@ == paths@[j]@),
            forall|x: int, y: int| 0 <= x < y < dirs@.len() ==> dirs@[x].path@ != dirs@[y].path@,
            forall|x: int, y: int| 0 <= x < y < files@.len() ==> files@[x].path@ != files@[y].path@,
            forall|x: int, y: int| 0 <= x < dirs@.len() && 0 <= y < files@.len() ==> dirs@[x].path@ != files@[y].path@,
        decreases paths.len() - i,
    {
        let p = plan_path(&paths[i], local, remote, catalog, sync_both, sync_deletions);
        proof {
            assert forall|x: int| 0 <= x < dirs@.len() implies dirs@[x].path@ != p.path@ by {
                let j = choose|j: int| 0 <= j < i && paths@[j]@ == (#[trigger] dirs@[x]).path@;
                assert(paths@[j]@ != paths@[i as int]@);
            }
            assert forall|x: int| 0 <= x < files@.len() implies files@[x].path@ != p.path@ by {
                let j = choose|j: int| 0 <= j < i && paths@[j]@ == (#[trigger] files@[x]).path@;
                assert(paths@[j]@ != paths@[i as int]@);
            }
        }
        let ghost old_dirs = dirs@;
        let ghost old_files = files@;
        let is_dir_plan = match p.action { PathAction::Dir(_) => true, PathAction::File(_) => false };
        if is_dir_plan {
            dirs.push(p);
            proof {
                assert(dirs@[dirs@.len() - 1].path@ == paths@[i as int]@);
                assert forall|j: int| 0 <= j < i + 1 implies (exists|x: int| 0 <= x < dirs@.len() && dirs@[x].path@ == (#[trigger] paths@[j])@)
                    || (exists|x: int| 0 <= x < files@.len() && files@[x].path@ == paths@[j]@) by {
                    if j < i {
                        if exists|x: int| 0 <= x < old_dirs.len() && old_dirs[x].path@ == paths@[j]@ {
                            let x = choose|x: int| 0 <= x < old_dirs.len() && old_dirs[x].path@ == paths@[j]@;
                            assert(dirs@[x] == old_dirs[x]);
                        }
                    } else {
                        assert(dirs@[dirs@.len() - 1].path@ == paths@[j]@);
                    }
                }
                assert forall|x: int| 0 <= x < dirs@.len() implies exists|j: int| 0 <= j < i + 1 && paths@[j]@ == (#[trigger] dirs@[x]).path@ by {
                    if x < old_dirs.len() {
                        assert(dirs@[x] == old_dirs[x]);
                    } else {
                        assert(paths@[i as int]@ == dirs@[x].path@);
                    }
                }
            }
        } else {
            files.push(p);
            proof {
                assert(files@[files@.len() - 1].path@ == paths@[i as int]@);
                assert forall|j: int| 0 <= j < i + 1 implies (exists|x: int| 0 <= x < dirs@.len() && dirs@[x].path@ == (#[trigger] paths@[j])@)
                    || (exists|x: int| 0 <= x < files@.len() && files@[x].path@ == paths@[j]@) by {
                    if j < i {
                        if exists|x: int| 0 <= x < old_files.len() && old_files[x].path@ == paths@[j]@ {
                            let x = choose|x: int| 0 <= x < old_files.len() && old_files[x].path@ == paths@[j]@;
                            assert(files@[x] == old_files[x]);
                        }
                    } else {
                        assert(files@[files@.len() - 1].path@ == paths@[j]@);
                    }
                }
                assert forall|x: int| 0 <= x < files@.len() implies exists|j: int| 0 <= j < i + 1 && paths@[j]@ == (#[trigger] files@[x]).path@ by {
                    if x < old_files.len() {
                        assert(files@[x] == old_files[x]);
                    } else {
                        assert(paths@[i as int]@ == files@[x].path@);
                    }
                }
            }
        }
        i = i + 1;
    }
    let ghost d = dirs@;
    let ghost f = files@;
    dirs.append(&mut files);
    proof {
        lemma_info_keys(local@);
        lemma_info_keys(remote@);
        lemma_state_keys(catalog@);
        assert(dirs@ == d + f);
        assert forall|k: Seq<char>| (exists|i: int| 0 <= i < dirs@.len() && #[trigger] dirs@[i].path@ == k) <==> all.contains(k) by {
            if exists|i: int| 0 <= i < dirs@.len() && #[trigger] dirs@[i].path@ == k {
                let x = choose|i: int| 0 <= i < dirs@.len() && #[trigger] dirs@[i].path@ == k;
                if x < d.len() {
                    assert(d[x] == dirs@[x]);
                    let j = choose|j: int| 0 <= j < paths@.len() && paths@[j]@ == (#[trigger] d[x]).path@;
                    assert(string_views(paths@)[j] == k);
                } else {
                    assert(f[x - d.len()] == dirs@[x]);
                    let j = choose|j: int| 0 <= j < paths@.len() && paths@[j]@ == (#[trigger] f[x - d.len()]).path@;
                    assert(string_views(paths@)[j] == k);
                }
            }
            if all.contains(k) {
                let j = choose|j: int| 0 <= j < string_views(paths@).len() && string_views(paths@)[j] == k;
                assert(paths@[j]@ == k);
                if exists|x: int| 0 <= x < d.len() && d[x].path@ == (#[trigger] paths@[j])@ {
                    let x = choose|x: int| 0 <= x < d.len() && d[x].path@ == (#[trigger] paths@[j])@;
                    assert(dirs@[x] == d[x]);
                } else {
                    let x = choose|x: int| 0 <= x < f.len() && f[x].path@ == paths@[j]@;
                    assert(dirs@[d.len() + x] == f[x]);
                }
            }
        }
        assert forall|k: Seq<char>| (exists|i: int| 0 <= i < dirs@.len() && #[trigger] dirs@[i].path@ == k) <==> (
            to_map(info_pairs(local@)).dom().contains(k)
            || to_map(info_pairs(remote@)).dom().contains(k)
            || to_map(state_pairs(catalog@)).dom().contains(k)) by {
            assert(all.contains(k) == (raw_keys(local@).contains(k) || raw_keys(remote@).contains(k) || raw_keys(catalog@).contains(k)));
            if exists|i: int| 0 <= i < dirs@.len() && #[trigger] dirs@[i].path@ == k {
                assert(all.contains(k));
            }
            if all.contains(k) {
                assert(exists|i: int| 0 <= i < dirs@.len() && #[trigger] dirs@[i].path@ == k);
            }
        }
        assert forall|a: int, b: int| 0 <= a < b < dirs@.len() && (dirs@[b].action is Dir) implies (dirs@[a].action is Dir) by {
            if b >= d.len() {
                assert(dirs@[b] == f[b - d.len()]);
            } else {
                assert(dirs@[a] == d[a]);
            }
        }
        assert forall|a: int, b: int| 0 <= a < b < dirs@.len() implies dirs@[a].path@ != dirs@[b].path@ by {
            if b < d.len() {
                assert(dirs@[a] == d[a] && dirs@[b] == d[b]);
            } else if a >= d.len() {
                assert(dirs@[a] == f[a - d.len()] && dirs@[b] == f[b - d.len()]);
            } else {
                assert(dirs@[a] == d[a] && dirs@[b] == f[b - d.len()]);
            }
        }
        assert forall|a: int| 0 <= a < dirs@.len() implies plan_matches(#[trigger] dirs@[a], local@, remote@, catalog@, sync_both, sync_deletions) by {
            if a < d.len() {
                assert(dirs@[a] == d[a]);
            } else {
                assert(dirs@[a] == f[a - d.len()]);
            }
        }
    }
    dirs
}

} // verus!
