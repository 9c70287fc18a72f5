use cloud_sync::daemon::build_gitignore;
use cloud_sync::scan::{checksum_verdict, find_listed, listing_folder, local_entry, remote_entry, ChecksumVerdict, LocalEntry};
use cloud_sync::storage::StorageItem;

fn item(path: &str, is_dir: bool) -> StorageItem {
    StorageItem { path: path.to_string(), size: 9, modified: 3, is_dir, checksum: Some("c".to_string()) }
}

#[test]
fn remote_entries_that_could_escape_are_skipped() {
    let ig = build_gitignore("/w", &Some(vec!["*.log".to_string()]));
    assert!(remote_entry(&item("../etc/passwd", false), &ig).is_none());
    assert!(remote_entry(&item("a/./b", false), &ig).is_none());
    assert!(remote_entry(&item("/abs", false), &ig).is_none());
    assert!(remote_entry(&item("x.log", false), &ig).is_none());
    let f = remote_entry(&item("docs/a.txt", false), &ig).unwrap();
    assert_eq!((f.size, f.modified, f.is_dir, f.checksum.as_deref()), (9, 3, false, Some("c")));
    let d = remote_entry(&item("docs", true), &ig).unwrap();
    assert_eq!((d.size, d.is_dir, d.checksum), (0, true, None));
}

#[test]
fn test_scan_local_directory_ignores_sync_files() {
    let ig = build_gitignore("/w", &Some(vec!["*.log".to_string()]));
    assert_eq!(local_entry("/w/test.txt", false, &ig), (LocalEntry::RecordFile, Some("test.txt".to_string())));
    assert_eq!(local_entry("/w/.sync_state.bin", false, &ig).0, LocalEntry::Skip);
    assert_eq!(local_entry("/w/.syncignore", false, &ig).0, LocalEntry::Skip);
    assert_eq!(local_entry("/w/a.log", false, &ig).0, LocalEntry::Skip);
    assert_eq!(local_entry("/w/sub", true, &ig), (LocalEntry::RecordFolder, Some("sub".to_string())));
    assert_eq!(local_entry("/w", true, &ig).0, LocalEntry::Enter);
}

#[test]
fn checksum_mismatches_are_retried_three_times() {
    let a = Some("a".to_string());
    let b = Some("b".to_string());
    assert_eq!(checksum_verdict(&a, &a, 0, "f", true), ChecksumVerdict::Accept);
    assert_eq!(checksum_verdict(&a, &None, 0, "f", true), ChecksumVerdict::Accept);
    assert_eq!(checksum_verdict(&a, &b, 2, "f", true), ChecksumVerdict::Retry);
    assert_eq!(
        checksum_verdict(&a, &b, 3, "f", true),
        ChecksumVerdict::Fail("Checksum verification failed for 'f' after 3 upload attempts".to_string())
    );
    assert_eq!(
        checksum_verdict(&a, &b, 3, "g", false),
        ChecksumVerdict::Fail("Checksum verification failed for 'g' after 3 download attempts".to_string())
    );
}

#[test]
fn listed_files_are_found_by_name() {
    assert_eq!(listing_folder("docs/a.txt"), "docs");
    assert_eq!(listing_folder("a.txt"), "");
    let items = vec![
        StorageItem { path: "docs/b.txt".to_string(), size: 1, modified: 5, is_dir: false, checksum: None },
        StorageItem { path: "a.txt".to_string(), size: 3, modified: 7, is_dir: false, checksum: Some("x".to_string()) },
        StorageItem { path: "other/a.txt".to_string(), size: 9, modified: 9, is_dir: false, checksum: None },
    ];
    let found = find_listed(&items, "docs/a.txt").unwrap();
    assert_eq!((found.size, found.modified, found.is_dir, found.checksum), (3, 7, false, Some("x".to_string())));
    assert!(find_listed(&items, "docs/c.txt").is_none());
    assert!(find_listed(&items, "").is_none());
}
