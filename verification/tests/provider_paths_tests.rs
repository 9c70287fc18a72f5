use cloud_sync::drive::{children_query, escape_name, lookup_query, segment_is_folder};
use cloud_sync::endpoints::{gateway_file_url, ipfs_api_url, ipfs_gateway_url, nextcloud_base_url};
use cloud_sync::listings::entry_path;
use cloud_sync::path_walk::{box_existing_file, parent_and_name, BoxEntry};
use cloud_sync::paths::{pinned_file_name, strip_destination, upload_target};
use cloud_sync::storage::StorageError;
use cloud_sync::webdav::{folder_created, nonempty_names, parent_collections};

#[test]
fn drive_queries() {
    assert_eq!(
        lookup_query("hello.txt", "root", false),
        "name = 'hello.txt' and 'root' in parents and mimeType != 'application/vnd.google-apps.folder' and trashed = false"
    );
    assert_eq!(
        lookup_query("docs", "abc", true),
        "name = 'docs' and 'abc' in parents and mimeType = 'application/vnd.google-apps.folder' and trashed = false"
    );
    assert_eq!(children_query("root"), "'root' in parents and trashed = false");
    assert_eq!(escape_name("it's a 'test'"), "it\\'s a \\'test\\'");
    assert!(segment_is_folder(0, 2, false));
    assert!(!segment_is_folder(1, 2, false));
    assert!(segment_is_folder(1, 2, true));
}

#[test]
fn service_addresses() {
    assert_eq!(nextcloud_base_url("https://cloud.example.com//", "alice"), "https://cloud.example.com/remote.php/dav/files/alice");
    assert_eq!(entry_path("", "a.txt"), "a.txt");
    assert_eq!(entry_path("docs", "a.txt"), "docs/a.txt");
    assert_eq!(ipfs_api_url(&None), "https://api.pinata.cloud");
    assert_eq!(ipfs_api_url(&Some("http://localhost:5001/".to_string())), "http://localhost:5001");
    assert_eq!(ipfs_gateway_url(&None), "https://gateway.pinata.cloud/ipfs/");
    assert_eq!(gateway_file_url("https://gateway.pinata.cloud/ipfs/", "Qm1"), "https://gateway.pinata.cloud/ipfs/Qm1");
    assert_eq!(gateway_file_url("http://gw", "Qm1"), "http://gw/Qm1");
}

#[test]
fn webdav_parent_collections() {
    assert_eq!(parent_collections("/MySyncFolder/docs/hello.txt"), vec!["/MySyncFolder", "/MySyncFolder/docs"]);
    assert_eq!(parent_collections("/hello.txt"), Vec::<String>::new());
    assert_eq!(parent_collections("a//b/"), vec!["/a"]);
    assert_eq!(parent_collections(""), Vec::<String>::new());
}

#[test]
fn upload_targets_split_folder_and_name() {
    assert_eq!(upload_target("/docs/a.txt"), ("/docs".to_string(), "a.txt".to_string()));
    assert_eq!(upload_target("/a.txt"), ("/".to_string(), "a.txt".to_string()));
    assert_eq!(upload_target(""), ("/".to_string(), String::new()));
    assert_eq!(pinned_file_name("dest/docs/a.txt"), "a.txt");
    assert_eq!(pinned_file_name(".."), "..");
}

#[test]
fn destination_prefixes_are_stripped_by_component() {
    assert_eq!(strip_destination("backup/a.txt", Some("/backup/")), "a.txt");
    assert_eq!(strip_destination("backupx/a.txt", Some("backup")), "backupx/a.txt");
    assert_eq!(strip_destination("backup/a.txt", Some("//")), "backup/a.txt");
    assert_eq!(strip_destination("backup/a.txt", None), "backup/a.txt");
}

#[test]
fn box_uploads_find_their_parent_and_existing_file() {
    assert_eq!(parent_and_name("docs/a.txt").unwrap(), ("docs".to_string(), "a.txt".to_string()));
    assert_eq!(parent_and_name("a.txt").unwrap(), (String::new(), "a.txt".to_string()));
    match parent_and_name("") {
        Err(StorageError::Provider { message, status }) => {
            assert_eq!(message, "Invalid file name");
            assert_eq!(status, None);
        }
        other => panic!("unexpected {:?}", other),
    }
    let entries = vec![
        BoxEntry { id: "1".to_string(), name: "a.txt".to_string(), item_type: "folder".to_string() },
        BoxEntry { id: "2".to_string(), name: "a.txt".to_string(), item_type: "file".to_string() },
        BoxEntry { id: "3".to_string(), name: "a.txt".to_string(), item_type: "file".to_string() },
    ];
    assert_eq!(box_existing_file(&entries, "a.txt"), Some("2".to_string()));
    assert_eq!(box_existing_file(&entries, "b.txt"), None);
}

#[test]
fn folder_creation_answers() {
    assert!(folder_created(201, "").is_ok());
    assert!(folder_created(405, "").is_ok());
    assert!(folder_created(409, "").is_ok());
    assert!(folder_created(500, "the folder already exists").is_ok());
    match folder_created(403, "denied") {
        Err(StorageError::Provider { message, status }) => {
            assert_eq!(message, "Failed to create folder: denied");
            assert_eq!(status, Some(403));
        }
        other => panic!("unexpected {:?}", other),
    }
    assert_eq!(nonempty_names("/a//b/"), vec!["a".to_string(), "b".to_string()]);
}
