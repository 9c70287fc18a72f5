use cloud_sync::listings::{
    box_items, drive_items, dropbox_items, entry_path, join_path, nanos_from_secs, nanos_of_instant,
    nextcloud_items, onedrive_items, pcloud_items, pin_items, s3_list_prefix,
    s3_page_items, sftp_items, BoxItem, DriveFile, DropboxEntry, OneDriveEntry, PCloudEntry, PinRow,
    S3Object, SftpEntry,
};
use cloud_sync::endpoints::{onedrive_content_url, onedrive_item_url, onedrive_list_url, pcloud_api_url};
use cloud_sync::storage::StorageItem;

const NOW: u128 = 42;

fn fields(it: &StorageItem) -> (String, u64, u128, bool, Option<String>) {
    (it.path.clone(), it.size, it.modified, it.is_dir, it.checksum.clone())
}

fn s(x: &str) -> Option<String> {
    Some(x.to_string())
}

#[test]
fn dropbox_entries_become_items() {
    let entries = vec![
        DropboxEntry { name: s("a.txt"), size: Some(10), tag: s("file") },
        DropboxEntry { name: s("photos"), size: None, tag: s("folder") },
        DropboxEntry { name: None, size: None, tag: None },
    ];
    let items = dropbox_items(&entries, NOW);
    assert_eq!(items.len(), 3);
    assert_eq!(fields(&items[0]), ("a.txt".to_string(), 10, NOW, false, None));
    assert_eq!(fields(&items[1]), ("photos".to_string(), 0, NOW, true, None));
    assert_eq!(fields(&items[2]), (String::new(), 0, NOW, false, None));
}

#[test]
fn onedrive_entries_and_list_addresses() {
    let entries = vec![
        OneDriveEntry { name: s("doc.pdf"), size: Some(7), has_folder: false },
        OneDriveEntry { name: s("Music"), size: Some(0), has_folder: true },
    ];
    let items = onedrive_items(&entries, NOW);
    assert_eq!(fields(&items[0]), ("doc.pdf".to_string(), 7, NOW, false, None));
    assert_eq!(fields(&items[1]), ("Music".to_string(), 0, NOW, true, None));
    assert_eq!(onedrive_list_url(""), "https://graph.microsoft.com/v1.0/me/drive/root/children");
    assert_eq!(onedrive_list_url("/"), "https://graph.microsoft.com/v1.0/me/drive/root/children");
    assert_eq!(
        onedrive_list_url("/docs/2024"),
        "https://graph.microsoft.com/v1.0/me/drive/root:/docs/2024:/children"
    );
    assert_eq!(onedrive_item_url("/a/b.txt"), "https://graph.microsoft.com/v1.0/me/drive/root:/a/b.txt");
    assert_eq!(onedrive_content_url("a/b.txt"), "https://graph.microsoft.com/v1.0/me/drive/root:/a/b.txt:/content");
}

#[test]
fn pcloud_address_defaults_to_pcloud() {
    assert_eq!(pcloud_api_url(&None), "https://api.pcloud.com");
    assert_eq!(pcloud_api_url(&Some("http://localhost:9000//".to_string())), "http://localhost:9000");
}

#[test]
fn drive_files_read_sizes_types_and_checksums() {
    let files = vec![
        DriveFile { name: s("a.bin"), size: s("123"), mime_type: s("application/octet-stream"), md5_checksum: s("abc") },
        DriveFile { name: s("dir"), size: None, mime_type: s("application/vnd.google-apps.folder"), md5_checksum: None },
        DriveFile { name: s("odd"), size: s("12x"), mime_type: None, md5_checksum: None },
    ];
    let items = drive_items(&files, NOW);
    assert_eq!(fields(&items[0]), ("a.bin".to_string(), 123, NOW, false, s("abc")));
    assert_eq!(fields(&items[1]), ("dir".to_string(), 0, NOW, true, None));
    assert_eq!(fields(&items[2]), ("odd".to_string(), 0, NOW, false, None));
}

#[test]
fn pcloud_lists_files_below_the_destination() {
    let entries = vec![
        PCloudEntry { name: "backup/a.txt".to_string(), size: Some(5), modified: Some(10), isfolder: false },
        PCloudEntry { name: "backup/sub".to_string(), size: None, modified: None, isfolder: true },
        PCloudEntry { name: "other/b.txt".to_string(), size: None, modified: None, isfolder: false },
    ];
    let items = pcloud_items(&entries, Some("/backup/"), NOW);
    assert_eq!(items.len(), 2);
    assert_eq!(fields(&items[0]), ("a.txt".to_string(), 5, 10_000_000_000, false, None));
    assert_eq!(fields(&items[1]), ("other/b.txt".to_string(), 0, NOW, false, None));
    let plain = pcloud_items(&entries, None, NOW);
    assert_eq!(plain[0].path, "backup/a.txt");
    assert_eq!(nanos_from_secs(3), 3_000_000_000);
}

#[test]
fn pins_are_dated_by_their_pinning() {
    let rows = vec![
        PinRow { name: "dest/x.txt".to_string(), size: 9, date_pinned: s("2024-01-01T00:00:00Z") },
        PinRow { name: "y.txt".to_string(), size: 1, date_pinned: s("yesterday") },
        PinRow { name: "z.txt".to_string(), size: 2, date_pinned: None },
    ];
    let items = pin_items(&rows, Some("dest"), NOW);
    assert_eq!(fields(&items[0]), ("x.txt".to_string(), 9, 1_704_067_200_000_000_000, false, None));
    assert_eq!(fields(&items[1]), ("y.txt".to_string(), 1, NOW, false, None));
    assert_eq!(fields(&items[2]), ("z.txt".to_string(), 2, NOW, false, None));
}

#[test]
fn parsed_times_count_from_the_epoch() {
    assert_eq!(nanos_of_instant(1, 5), 1_000_000_005);
    assert_eq!(nanos_of_instant(0, 0), 0);
    assert_eq!(nanos_of_instant(-5, 0), 0);
    assert_eq!(nanos_of_instant(-1, 999_999_999), 0);
}

#[test]
fn box_entries_sit_under_the_listed_folder() {
    let entries = vec![
        BoxItem {
            item_type: "file".to_string(),
            name: "a.txt".to_string(),
            size: Some(4),
            content_modified_at: s("2024-01-01T01:00:00+01:00"),
            sha1: s("da39"),
        },
        BoxItem { item_type: "folder".to_string(), name: "sub".to_string(), size: None, content_modified_at: None, sha1: None },
    ];
    let items = box_items(&entries, "docs", NOW);
    assert_eq!(fields(&items[0]), ("docs/a.txt".to_string(), 4, 1_704_067_200_000_000_000, false, s("da39")));
    assert_eq!(fields(&items[1]), ("docs/sub".to_string(), 0, NOW, true, None));
    let top = box_items(&entries, "", NOW);
    assert_eq!(top[0].path, "a.txt");
    assert_eq!(entry_path("", "a.txt"), "a.txt");
    assert_eq!(entry_path("docs", "a.txt"), "docs/a.txt");
}

#[test]
fn s3_pages_list_files_then_folders() {
    assert_eq!(s3_list_prefix(""), "");
    assert_eq!(s3_list_prefix("dest/docs"), "dest/docs/");
    assert_eq!(s3_list_prefix("dest/docs/"), "dest/docs/");
    let prefix = s3_list_prefix("dest/docs");
    let objects = vec![
        S3Object { key: "dest/docs/".to_string(), size: 0 },
        S3Object { key: "dest/docs/a.txt".to_string(), size: 5 },
    ];
    let folders = vec!["dest/docs/sub/".to_string(), "dest/docs/".to_string()];
    let items = s3_page_items(&prefix, &objects, &folders, NOW);
    assert_eq!(items.len(), 2);
    assert_eq!(fields(&items[0]), ("a.txt".to_string(), 5, NOW, false, None));
    assert_eq!(fields(&items[1]), ("sub".to_string(), 0, NOW, true, None));
}

#[test]
fn sftp_reads_skip_dot_entries() {
    let entries = vec![
        SftpEntry { name: ".".to_string(), size: None, mtime: None, is_dir: true },
        SftpEntry { name: "..".to_string(), size: None, mtime: None, is_dir: true },
        SftpEntry { name: "a.txt".to_string(), size: Some(3), mtime: Some(2), is_dir: false },
        SftpEntry { name: "sub".to_string(), size: None, mtime: None, is_dir: true },
    ];
    let items = sftp_items("docs", &entries);
    assert_eq!(items.len(), 2);
    assert_eq!(fields(&items[0]), ("docs/a.txt".to_string(), 3, 2_000_000_000, false, None));
    assert_eq!(fields(&items[1]), ("docs/sub".to_string(), 0, 0, true, None));
    assert_eq!(join_path("", "f"), "f");
    assert_eq!(join_path("a/", "f"), "a/f");
    assert_eq!(join_path("a", "/f"), "/f");
}

#[test]
fn nextcloud_items_sit_under_the_listed_folder() {
    let entries = vec![
        ("/remote.php/dav/files/u/docs/".to_string(), 0, true),
        ("/remote.php/dav/files/u/docs/a%20b.txt".to_string(), 3, false),
        ("/remote.php/dav/files/u/docs/sub/".to_string(), 0, true),
    ];
    let items = nextcloud_items(&entries, "docs", NOW);
    assert_eq!(items.len(), 2);
    assert_eq!(fields(&items[0]), ("docs/a b.txt".to_string(), 3, NOW, false, None));
    assert_eq!(fields(&items[1]), ("docs/sub".to_string(), 0, NOW, true, None));
    let top = nextcloud_items(&entries, "", NOW);
    assert_eq!(top[0].path, "a b.txt");
}
