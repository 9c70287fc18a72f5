use cloud_sync::catalog::SyncState;
use cloud_sync::daemon::{
    build_gitignore, change_target, event_action, is_internal_sync_file_exec, is_syncignore_path_exec, propagates_deletion,
    removal_target, EventAction, WatchEvent,
};
use cloud_sync::ignore::SyncIgnore;
use cloud_sync::policy::{SyncMode, SyncPolicy};
use cloud_sync::sync_plan::{
    conflict_path, dir_entries_after, file_entries_after, plan_dir_sync, plan_file_sync, plan_sync, DirSyncAction,
    FileSyncAction, MtimeSource, PathAction, TransferReport,
};
use cloud_sync::state::{FileInfo, FileState};

fn info(size: u64, modified: u128) -> FileInfo {
    FileInfo { size, modified, is_dir: false, checksum: None }
}

fn dir(modified: u128) -> FileInfo {
    FileInfo { size: 0, modified, is_dir: true, checksum: None }
}

fn state(size: u64, local: u128, remote: u128) -> FileState {
    FileState { size, local_modified: local, remote_modified: remote, is_dir: Some(false), checksum: None }
}

#[test]
fn unchanged_files_are_kept() {
    let a = plan_file_sync(&Some(info(5, 10)), &Some(info(5, 20)), &Some(state(5, 10, 20)), true, true);
    assert_eq!(a, FileSyncAction::Keep);
}

#[test]
fn local_edits_upload_and_remote_edits_download_in_two_way_mode() {
    let s = Some(state(5, 10, 20));
    assert_eq!(
        plan_file_sync(&Some(info(6, 11)), &Some(info(5, 20)), &s, true, true),
        FileSyncAction::Upload(MtimeSource::Remote)
    );
    assert_eq!(
        plan_file_sync(&Some(info(5, 10)), &Some(info(7, 21)), &s, true, true),
        FileSyncAction::Download(MtimeSource::Local)
    );
    assert_eq!(plan_file_sync(&Some(info(5, 10)), &Some(info(7, 21)), &s, false, true), FileSyncAction::AcceptRemote);
    assert_eq!(plan_file_sync(&Some(info(6, 11)), &Some(info(7, 21)), &s, true, true), FileSyncAction::ResolveConflict);
    assert_eq!(
        plan_file_sync(&Some(info(6, 11)), &Some(info(7, 21)), &s, false, true),
        FileSyncAction::Upload(MtimeSource::Remote)
    );
}

#[test]
fn checksums_detect_changes_with_equal_size_and_time() {
    let mut l = info(16, 10);
    l.checksum = Some("new_checksum".to_string());
    let mut s = state(16, 10, 20);
    s.checksum = Some("old_checksum".to_string());
    let a = plan_file_sync(&Some(l), &Some(info(16, 20)), &Some(s), true, true);
    assert_eq!(a, FileSyncAction::Upload(MtimeSource::Remote));
}

#[test]
fn new_and_deleted_files() {
    assert_eq!(plan_file_sync(&Some(info(1, 1)), &None, &None, false, true), FileSyncAction::Upload(MtimeSource::Now));
    assert_eq!(plan_file_sync(&None, &Some(info(1, 1)), &None, true, true), FileSyncAction::Download(MtimeSource::Now));
    assert_eq!(plan_file_sync(&None, &Some(info(1, 1)), &None, false, true), FileSyncAction::Skip);
    let s = Some(state(1, 1, 1));
    assert_eq!(plan_file_sync(&None, &Some(info(1, 1)), &s, true, true), FileSyncAction::DeleteRemote);
    assert_eq!(plan_file_sync(&None, &Some(info(1, 1)), &s, true, false), FileSyncAction::Skip);
    assert_eq!(plan_file_sync(&Some(info(1, 1)), &None, &s, true, true), FileSyncAction::DeleteLocal);
    assert_eq!(plan_file_sync(&Some(info(1, 1)), &None, &s, false, true), FileSyncAction::Upload(MtimeSource::Now));
    assert_eq!(plan_file_sync(&Some(info(3, 3)), &Some(info(3, 9)), &None, true, true), FileSyncAction::RecordMatching);
}

#[test]
fn directories() {
    assert_eq!(plan_dir_sync(&Some(dir(1)), &None, &None, false, true), DirSyncAction::CreateRemote);
    assert_eq!(plan_dir_sync(&None, &Some(dir(1)), &None, true, true), DirSyncAction::CreateLocal);
    assert_eq!(plan_dir_sync(&None, &Some(dir(1)), &None, false, true), DirSyncAction::Skip);
    assert_eq!(plan_dir_sync(&Some(dir(1)), &Some(dir(2)), &None, false, true), DirSyncAction::RecordBoth);
    let entries = dir_entries_after("empty_dir", DirSyncAction::CreateRemote, &Some(dir(4)), &None, &None, Some(8), 100);
    assert_eq!(entries.len(), 1);
    assert_eq!(entries[0].0, "empty_dir");
    assert_eq!(entries[0].1.local_modified, 4);
    assert_eq!(entries[0].1.remote_modified, 8);
    assert_eq!(entries[0].1.is_dir, Some(true));
}

#[test]
fn catalog_entries_after_transfers() {
    let l = Some(info(10, 50));
    let r = Some(info(12, 60));
    let report = TransferReport { checksum: Some("abc".to_string()), observed_mtime: None };
    let none = TransferReport { checksum: None, observed_mtime: None };
    let e = file_entries_after("f.txt", FileSyncAction::Upload(MtimeSource::Remote), &l, &r, &Some(state(1, 1, 1)), &report, &none, None, 999);
    assert_eq!(e.len(), 1);
    assert_eq!(e[0].1.size, 10);
    assert_eq!(e[0].1.local_modified, 50);
    assert_eq!(e[0].1.remote_modified, 60);
    assert_eq!(e[0].1.checksum.as_deref(), Some("abc"));
    let e = file_entries_after("f.txt", FileSyncAction::ResolveConflict, &l, &r, &None, &none, &none, Some(70), 999);
    assert_eq!(e.len(), 2);
    assert_eq!(e[0].0, "f.txt.local-conflict");
    assert_eq!(e[0].1.local_modified, 70);
    assert_eq!(e[1].0, "f.txt");
    assert_eq!(e[1].1.size, 12);
    assert_eq!(conflict_path("a/b"), "a/b.local-conflict");
}

#[test]
fn whole_run_plans_each_path_once_with_directories_first() {
    let local = vec![("file1.txt".to_string(), info(10, 1)), ("empty_dir".to_string(), dir(1))];
    let remote = vec![("file2.txt".to_string(), info(11, 2)), ("remote_empty_dir".to_string(), dir(2))];
    let plans = plan_sync(&local, &remote, &vec![], true, true);
    assert_eq!(plans.len(), 4);
    assert!(matches!(plans[0].action, PathAction::Dir(_)));
    assert!(matches!(plans[1].action, PathAction::Dir(_)));
    let find = |p: &str| plans.iter().find(|x| x.path == p).unwrap().action;
    assert_eq!(find("file1.txt"), PathAction::File(FileSyncAction::Upload(MtimeSource::Now)));
    assert_eq!(find("file2.txt"), PathAction::File(FileSyncAction::Download(MtimeSource::Now)));
    assert_eq!(find("empty_dir"), PathAction::Dir(DirSyncAction::CreateRemote));
    assert_eq!(find("remote_empty_dir"), PathAction::Dir(DirSyncAction::CreateLocal));
    let one_way = plan_sync(&local, &remote, &vec![], false, true);
    let find = |p: &str| one_way.iter().find(|x| x.path == p).unwrap().action;
    assert_eq!(find("file2.txt"), PathAction::File(FileSyncAction::Skip));
}

#[test]
fn catalog_keeps_the_last_entry() {
    let mut c = SyncState::new();
    assert!(c.get(&"a".to_string()).is_none());
    c.insert("a".to_string(), state(1, 2, 3));
    c.insert("a".to_string(), state(4, 5, 6));
    assert_eq!(c.get(&"a".to_string()).unwrap().size, 4);
}

#[test]
fn catalog_holds_one_entry_per_path() {
    let mut c = SyncState::new();
    c.insert("a".to_string(), state(1, 2, 3));
    c.insert("b".to_string(), state(7, 8, 9));
    c.insert("a".to_string(), state(4, 5, 6));
    assert_eq!(c.files.len(), 2);
    assert_eq!(c.files[0].0, "a");
    assert_eq!(c.files[0].1.size, 4);
    assert_eq!(c.get(&"b".to_string()).unwrap().size, 7);
}

#[test]
fn watcher_targets_skip_internal_and_excluded_files() {
    let ig = build_gitignore("/home/user/watch", &Some(vec!["*.log".to_string()]));
    assert_eq!(change_target("/home/user/watch/test.txt", false, &ig), Some("test.txt".to_string()));
    assert_eq!(change_target("/home/user/watch/.sync_state.bin", false, &ig), None);
    assert_eq!(change_target("/home/user/watch/x.log", false, &ig), None);
    assert_eq!(change_target("/elsewhere/x", false, &ig), None);
    assert_eq!(removal_target("/home/user/watch/test.txt", &ig), Some("test.txt".to_string()));
    assert!(is_internal_sync_file_exec(".sync_state_Dropbox.json"));
    assert!(is_internal_sync_file_exec(".syncignore"));
    assert!(!is_internal_sync_file_exec("notes.json"));
}

/// A local removal reaches a backend when the path is a synced one and the
/// backend's policy propagates deletions.
fn deletes_remotely(path: &str, ignore: &SyncIgnore, policy: &SyncPolicy) -> bool {
    removal_target(path, ignore).is_some() && propagates_deletion(policy)
}

#[test]
fn test_watcher_deletions_sync_flag() {
    let ignore = SyncIgnore::new("/home/user/watch", &vec![]);
    let sync_true = SyncPolicy::new(SyncMode::OneWay);
    let sync_false = SyncPolicy::new(SyncMode::OneWayNoDeletions);
    assert_eq!(removal_target("/home/user/watch/test.txt", &ignore), Some("test.txt".to_string()));
    assert!(deletes_remotely("/home/user/watch/test.txt", &ignore, &sync_true), "Backend with sync=true should have delete called");
    assert!(!deletes_remotely("/home/user/watch/test.txt", &ignore, &sync_false), "Backend with sync=false should NOT have delete called");
}

#[test]
fn test_handle_event_ignores_sync_files() {
    let ignore = SyncIgnore::new("/tmp/watch", &vec![]);
    let policy = SyncPolicy::new(SyncMode::TwoWay);
    // A created or removed `.sync_state.bin` is neither uploaded nor deleted.
    assert_eq!(change_target("/tmp/watch/.sync_state.bin", false, &ignore), None);
    assert!(!deletes_remotely("/tmp/watch/.sync_state.bin", &ignore, &policy), "Should not trigger upload/delete operations for internal sync files");
}

#[test]
fn notifications_are_skipped_while_paused() {
    assert_eq!(event_action(true, WatchEvent::Change), EventAction::Skip);
    assert_eq!(event_action(true, WatchEvent::Removal), EventAction::Skip);
    assert_eq!(event_action(false, WatchEvent::Change), EventAction::SyncChanges);
    assert_eq!(event_action(false, WatchEvent::Removal), EventAction::PropagateRemovals);
    assert_eq!(event_action(false, WatchEvent::Other), EventAction::Skip);
}

#[test]
fn ignore_file_changes_are_recognised_by_file_name() {
    assert!(is_syncignore_path_exec("/w/.syncignore"));
    assert!(is_syncignore_path_exec("/w/.syncignore/"));
    assert!(is_syncignore_path_exec("/w/.syncignore/."));
    assert!(!is_syncignore_path_exec("/w/.syncignore/.."));
    assert!(!is_syncignore_path_exec("/w/notes.txt"));
}
