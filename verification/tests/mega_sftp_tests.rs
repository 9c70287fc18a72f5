use cloud_sync::backends::{s3_outcome, sftp_failure, S3Request, SFTPProvider, SftpAuth};
use cloud_sync::mega_tree::{created_folder, mega_child, mega_items, mega_root, mega_walk, upload_parts, MegaKind, MegaNode, MegaWalk};
use cloud_sync::settings::{CommonProviderSettings, SFTPCredentials};
use cloud_sync::storage::StorageError;

fn node(handle: &str, name: &str, parent: Option<&str>, kind: MegaKind, children: &[&str]) -> MegaNode {
    MegaNode {
        handle: handle.to_string(),
        name: name.to_string(),
        parent: parent.map(|p| p.to_string()),
        kind,
        size: 7,
        created_at: None,
        children: children.iter().map(|c| c.to_string()).collect(),
    }
}

fn tree() -> Vec<MegaNode> {
    vec![
        node("t", "Rubbish Bin", None, MegaKind::Other, &[]),
        node("r", "Cloud Drive", None, MegaKind::Root, &["gone", "d", "f"]),
        node("d", "docs", Some("r"), MegaKind::Folder, &["f2"]),
        node("f", "a.txt", Some("r"), MegaKind::File, &[]),
        MegaNode { created_at: Some((10, 5)), ..node("f2", "b.txt", Some("d"), MegaKind::File, &[]) },
    ]
}

#[test]
fn mega_walk_follows_the_path_or_stops_at_the_missing_folder() {
    let nodes = tree();
    let segs = |p: &[&str]| p.iter().map(|s| s.to_string()).collect::<Vec<String>>();
    match mega_walk(&nodes, 1, &segs(&["docs", "b.txt"]), 0) {
        MegaWalk::Found(k) => {
            assert_eq!(k, 4);
            assert_eq!(nodes[k].name, "b.txt");
        }
        _ => panic!("expected the file to be found"),
    }
    match mega_walk(&nodes, 1, &segs(&["docs", "new", "x"]), 0) {
        MegaWalk::Missing { index, parent } => {
            assert_eq!(index, 1);
            assert_eq!(parent, 2);
        }
        _ => panic!("expected a missing folder"),
    }
    match mega_walk(&nodes, 2, &segs(&["docs", "b.txt"]), 1) {
        MegaWalk::Found(k) => assert_eq!(k, 4),
        _ => panic!("expected the walk to resume below docs"),
    }
    match mega_walk(&nodes, 1, &segs(&[]), 0) {
        MegaWalk::Found(k) => assert_eq!(k, 1),
        _ => panic!("an empty path is the start node"),
    }
}

#[test]
fn mega_paths_lead_through_children_by_name() {
    let nodes = tree();
    assert_eq!(mega_root(&nodes), Some(1));
    assert_eq!(mega_child(&nodes[1].children, &nodes, "docs"), Some(2));
    assert_eq!(mega_child(&nodes[1].children, &nodes, "a.txt"), Some(3));
    assert_eq!(mega_child(&nodes[1].children, &nodes, "gone"), None);
    assert_eq!(mega_child(&nodes[2].children, &nodes, "b.txt"), Some(4));
    assert_eq!(created_folder(&nodes, "r", "docs").unwrap(), 2);
    match created_folder(&nodes, "r", "new") {
        Err(StorageError::Provider { message, .. }) => assert_eq!(message, "Failed to retrieve created folder"),
        other => panic!("unexpected {:?}", other.is_ok()),
    }
}

#[test]
fn mega_folders_list_their_children() {
    let nodes = tree();
    let top = mega_items(&nodes[1].children, &nodes, "", 42);
    assert_eq!(top.len(), 2);
    assert_eq!((top[0].path.as_str(), top[0].is_dir, top[0].modified), ("docs", true, 42));
    assert_eq!((top[1].path.as_str(), top[1].is_dir, top[1].size), ("a.txt", false, 7));
    let docs = mega_items(&nodes[2].children, &nodes, "docs", 42);
    assert_eq!((docs[0].path.as_str(), docs[0].modified), ("docs/b.txt", 10_000_000_005));
}

#[test]
fn mega_uploads_split_parent_and_name() {
    assert_eq!(upload_parts("docs/a.txt").unwrap(), ("docs".to_string(), "a.txt".to_string()));
    assert_eq!(upload_parts("a.txt").unwrap(), (String::new(), "a.txt".to_string()));
    match upload_parts("") {
        Err(StorageError::Provider { message, .. }) => assert_eq!(message, "Invalid remote file name"),
        _ => panic!("an empty path has no file name"),
    }
}

fn sftp(password: Option<&str>, key: Option<&str>) -> SFTPProvider {
    SFTPProvider::new(SFTPCredentials {
        host: "example.org".to_string(),
        port: None,
        username: "u".to_string(),
        password: password.map(|p| p.to_string()),
        private_key_path: key.map(|k| k.to_string()),
        common: CommonProviderSettings::default(),
    })
}

#[test]
fn sftp_sign_in_prefers_a_key() {
    assert!(matches!(sftp(Some("pw"), Some("/k")).auth_method(), Ok(SftpAuth::PublicKey(p)) if p == "/k"));
    assert!(matches!(sftp(Some("pw"), Some("")).auth_method(), Ok(SftpAuth::Password(p)) if p == "pw"));
    assert!(matches!(sftp(Some("pw"), None).auth_method(), Ok(SftpAuth::Password(p)) if p == "pw"));
    match sftp(None, Some("")).auth_method() {
        Err(StorageError::Authentication(m)) => assert_eq!(m, "No password or private key provided for SFTP"),
        _ => panic!("no way to sign in"),
    }
    assert_eq!(sftp(None, None).port(), 22);
}

#[test]
fn sftp_missing_files_are_not_found() {
    match sftp_failure(Some(2), "no such file", "docs/a.txt") {
        StorageError::NotFound(p) => assert_eq!(p, "docs/a.txt"),
        other => panic!("unexpected {:?}", other),
    }
    match sftp_failure(Some(3), "permission denied", "docs/a.txt") {
        StorageError::Provider { message, status } => {
            assert_eq!(message, "permission denied");
            assert_eq!(status, None);
        }
        other => panic!("unexpected {:?}", other),
    }
}

#[test]
fn s3_answers_are_checked_by_request() {
    assert!(s3_outcome(S3Request::Upload, 200).is_ok());
    assert!(s3_outcome(S3Request::Upload, 201).is_ok());
    assert!(s3_outcome(S3Request::Download, 200).is_ok());
    assert!(s3_outcome(S3Request::Delete, 204).is_ok());
    match s3_outcome(S3Request::Download, 206) {
        Err(StorageError::Provider { message, status }) => {
            assert_eq!(message, "S3 download returned status code: 206");
            assert_eq!(status, None);
        }
        other => panic!("unexpected {:?}", other),
    }
    match s3_outcome(S3Request::Delete, 201) {
        Err(StorageError::Provider { message, .. }) => assert_eq!(message, "S3 delete returned status code: 201"),
        other => panic!("unexpected {:?}", other),
    }
}
