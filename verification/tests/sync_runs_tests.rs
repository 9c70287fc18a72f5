use cloud_sync::checksum::compute_sha256;
use cloud_sync::sync_plan::{
    conflict_path, dir_entries_after, file_entries_after, plan_file_sync, plan_sync, DirSyncAction, FileSyncAction,
    PathAction, TransferReport,
};
use cloud_sync::scan::{find_listed, listing_folder};
use cloud_sync::state::{FileInfo, FileState};
use cloud_sync::storage::StorageItem;
use std::collections::BTreeMap;

#[derive(Clone)]
struct Entry {
    data: Vec<u8>,
    is_dir: bool,
    mtime: u128,
}

/// Two in-memory trees and a catalog, synchronised by the library's plans.
struct World {
    local: BTreeMap<String, Entry>,
    remote: BTreeMap<String, Entry>,
    catalog: Vec<(String, FileState)>,
    clock: u128,
}

impl World {
    fn new() -> Self {
        World { local: BTreeMap::new(), remote: BTreeMap::new(), catalog: Vec::new(), clock: 1 }
    }

    fn tick(&mut self) -> u128 {
        self.clock += 1;
        self.clock
    }

    fn write_local(&mut self, path: &str, data: &str) {
        let t = self.tick();
        self.local.insert(path.to_string(), Entry { data: data.as_bytes().to_vec(), is_dir: false, mtime: t });
    }

    fn write_remote(&mut self, path: &str, data: &str) {
        let t = self.tick();
        self.remote.insert(path.to_string(), Entry { data: data.as_bytes().to_vec(), is_dir: false, mtime: t });
    }

    fn infos(tree: &BTreeMap<String, Entry>, with_checksum: bool) -> Vec<(String, FileInfo)> {
        tree.iter()
            .map(|(p, e)| {
                let checksum = if e.is_dir || !with_checksum { None } else { Some(compute_sha256(&e.data)) };
                let size = if e.is_dir { 0 } else { e.data.len() as u64 };
                (p.clone(), FileInfo { size, modified: e.mtime, is_dir: e.is_dir, checksum })
            })
            .collect()
    }

    fn copy(&mut self, from_local: bool, from: &str, to: &str) -> TransferReport {
        let t = self.tick();
        let src = if from_local { self.local.get(from) } else { self.remote.get(from) }.unwrap().clone();
        let e = Entry { data: src.data.clone(), is_dir: false, mtime: t };
        if from_local {
            self.remote.insert(to.to_string(), e);
            // The uploaded file's time is read back from its folder's listing.
            let info = find_listed(&self.listing(&listing_folder(to)), to).expect("uploaded file is listed");
            TransferReport { checksum: None, observed_mtime: Some(info.modified) }
        } else {
            self.local.insert(to.to_string(), e);
            TransferReport { checksum: None, observed_mtime: Some(t) }
        }
    }

    /// What the remote side lists for a folder: the entries directly in it.
    fn listing(&self, folder: &str) -> Vec<StorageItem> {
        self.remote
            .iter()
            .filter(|(p, _)| listing_folder(p) == folder)
            .map(|(p, e)| StorageItem {
                path: p.clone(),
                size: e.data.len() as u64,
                modified: e.mtime,
                is_dir: e.is_dir,
                checksum: None,
            })
            .collect()
    }

    fn run(&mut self, sync_both: bool, sync_deletions: bool) {
        let local = Self::infos(&self.local, true);
        let remote = Self::infos(&self.remote, false);
        let plans = plan_sync(&local, &remote, &self.catalog, sync_both, sync_deletions);
        let mut next: Vec<(String, FileState)> = Vec::new();
        let none = TransferReport { checksum: None, observed_mtime: None };
        let now = self.tick();
        for p in plans {
            match p.action {
                PathAction::Dir(a) => {
                    let mut observed = None;
                    match a {
                        DirSyncAction::CreateRemote => {
                            let t = self.tick();
                            self.remote.insert(p.path.clone(), Entry { data: vec![], is_dir: true, mtime: t });
                            observed = Some(t);
                        }
                        DirSyncAction::CreateLocal => {
                            let t = self.tick();
                            self.local.insert(p.path.clone(), Entry { data: vec![], is_dir: true, mtime: t });
                            observed = Some(t);
                        }
                        DirSyncAction::DeleteLocal => {
                            let prefix = format!("{}/", p.path);
                            self.local.retain(|k, _| k != &p.path && !k.starts_with(&prefix));
                        }
                        DirSyncAction::DeleteRemote => {
                            self.remote.remove(&p.path);
                        }
                        DirSyncAction::RecordBoth | DirSyncAction::Skip => {}
                    }
                    next.extend(dir_entries_after(&p.path, a, &p.local, &p.remote, &p.state, observed, now));
                }
                PathAction::File(a) => {
                    let mut primary = TransferReport { checksum: None, observed_mtime: None };
                    let mut copy = TransferReport { checksum: None, observed_mtime: None };
                    let mut copy_mtime = None;
                    match a {
                        FileSyncAction::Upload(_) => primary = self.copy(true, &p.path, &p.path),
                        FileSyncAction::Download(_) => primary = self.copy(false, &p.path, &p.path),
                        FileSyncAction::ResolveConflict => {
                            let cp = conflict_path(&p.path);
                            let e = self.local.remove(&p.path).unwrap();
                            copy_mtime = Some(e.mtime);
                            self.local.insert(cp.clone(), e);
                            copy = self.copy(true, &cp, &cp);
                            primary = self.copy(false, &p.path, &p.path);
                        }
                        FileSyncAction::DeleteLocal => {
                            self.local.remove(&p.path);
                        }
                        FileSyncAction::DeleteRemote => {
                            self.remote.remove(&p.path);
                        }
                        _ => {}
                    }
                    let _ = &none;
                    next.extend(file_entries_after(&p.path, a, &p.local, &p.remote, &p.state, &primary, &copy, copy_mtime, now));
                }
            }
        }
        self.catalog = next;
    }

    fn quiet(&mut self, sync_both: bool) -> bool {
        let local = Self::infos(&self.local, true);
        let remote = Self::infos(&self.remote, false);
        plan_sync(&local, &remote, &self.catalog, sync_both, true).iter().all(|p| {
            matches!(p.action, PathAction::File(FileSyncAction::Keep) | PathAction::Dir(DirSyncAction::RecordBoth))
        })
    }
}

#[test]
fn test_bidirectional_sync_flows() {
    let mut w = World::new();
    w.run(true, true);
    w.write_local("file1.txt", "local data");
    w.run(true, true);
    assert!(w.remote.contains_key("file1.txt"));
    assert!(w.quiet(true));
    w.write_remote("file2.txt", "remote data");
    w.run(true, true);
    assert!(w.local.contains_key("file2.txt"));
    w.write_local("file1.txt", "local modified data");
    w.run(true, true);
    assert_eq!(w.remote["file1.txt"].data, b"local modified data".to_vec());
    w.local.remove("file1.txt");
    w.run(true, true);
    assert!(!w.remote.contains_key("file1.txt"));
    w.remote.remove("file2.txt");
    w.run(true, true);
    assert!(!w.local.contains_key("file2.txt"));
    let t = w.tick();
    w.local.insert("empty_dir".to_string(), Entry { data: vec![], is_dir: true, mtime: t });
    w.run(true, true);
    assert!(w.remote.get("empty_dir").map(|e| e.is_dir).unwrap_or(false));
    let t = w.tick();
    w.remote.insert("remote_empty_dir".to_string(), Entry { data: vec![], is_dir: true, mtime: t });
    w.run(true, true);
    assert!(w.local.get("remote_empty_dir").map(|e| e.is_dir).unwrap_or(false));
    assert!(w.quiet(true));
}

#[test]
fn test_unidirectional_sync_flows() {
    let mut w = World::new();
    w.run(false, true);
    w.write_local("file1.txt", "local data");
    w.run(false, true);
    assert!(w.remote.contains_key("file1.txt"));
    w.write_remote("file2.txt", "remote data");
    w.run(false, true);
    assert!(!w.local.contains_key("file2.txt"));
    w.write_remote("file2.txt", "remote modified data");
    w.run(false, true);
    assert!(!w.local.contains_key("file2.txt"));
    w.remote.remove("file2.txt");
    w.run(false, true);
    assert!(w.remote.contains_key("file1.txt"));
    w.remote.remove("file1.txt");
    w.run(false, true);
    assert!(w.remote.contains_key("file1.txt"));
    w.local.remove("file1.txt");
    w.run(false, true);
    assert!(!w.remote.contains_key("file1.txt"));
}

#[test]
fn test_checksum_based_change_detection() {
    let state = FileState { size: 16, local_modified: 7, remote_modified: 0, is_dir: Some(false), checksum: Some("old_checksum".to_string()) };
    let local = FileInfo { size: 16, modified: 7, is_dir: false, checksum: Some("new_checksum".to_string()) };
    let remote = FileInfo { size: 16, modified: 0, is_dir: false, checksum: Some("old_checksum".to_string()) };
    let (l, r, s) = (Some(local), Some(remote), Some(state));
    let action = plan_file_sync(&l, &r, &s, true, true);
    assert!(matches!(action, FileSyncAction::Upload(_)));
    let report = TransferReport { checksum: Some("new_checksum".to_string()), observed_mtime: Some(9) };
    let none = TransferReport { checksum: None, observed_mtime: None };
    let updates = file_entries_after("test.txt", action, &l, &r, &s, &report, &none, None, 100);
    assert!(!updates.is_empty());
    let (path, new_state) = &updates[0];
    assert_eq!(path, "test.txt");
    assert_eq!(new_state.size, 16);
    assert_eq!(new_state.checksum.as_deref(), Some("new_checksum"));
}

#[test]
fn conflicting_edits_keep_both_versions() {
    let mut w = World::new();
    w.write_local("doc.txt", "base");
    w.run(true, true);
    w.write_local("doc.txt", "local edit");
    w.write_remote("doc.txt", "remote edit!");
    w.run(true, true);
    assert_eq!(w.local["doc.txt"].data, b"remote edit!".to_vec());
    assert_eq!(w.local["doc.txt.local-conflict"].data, b"local edit".to_vec());
    assert_eq!(w.remote["doc.txt.local-conflict"].data, b"local edit".to_vec());
    assert!(w.quiet(true));
}
