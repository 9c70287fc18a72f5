use cloud_sync::backends::{LocalSimulation, MegaProvider, S3Provider, SFTPProvider};
use cloud_sync::box_auth::{replace_refresh_token, token_expiry, token_is_fresh};
use cloud_sync::path_walk::{
    box_check_segment, box_find_entry, box_missing_segment, box_walk_created, box_walk_listed, box_walk_next, box_walk_start,
    mega_missing_segment, remote_segments, BoxEntry, BoxStep, MissingSegment, WalkCheck,
};
use cloud_sync::rate_limit::TokenBucket;
use cloud_sync::settings::{CommonProviderSettings, MegaCredentials, S3Credentials, SFTPCredentials};
use cloud_sync::storage::StorageError;

fn common(dest: Option<&str>) -> CommonProviderSettings {
    CommonProviderSettings { destination_folder: dest.map(|d| d.to_string()), ..Default::default() }
}

#[test]
fn simulation_paths() {
    let sim = LocalSimulation::new("/tmp/sim".to_string(), "Dropbox".to_string());
    assert_eq!(sim.resolve("/a/b.txt"), "/tmp/sim/a/b.txt");
    assert_eq!(sim.resolve("a"), "/tmp/sim/a");
    assert_eq!(sim.resolve(""), "/tmp/sim/");
    assert_eq!(sim.name(), "Dropbox");
    let sim = LocalSimulation::new("/tmp/sim/".to_string(), "X".to_string())
        .with_limiters(Some(TokenBucket::new(100, 0)), None);
    assert_eq!(sim.resolve("//x"), "/tmp/sim/x");
    assert_eq!(sim.upload_limiter.unwrap().rate, 100);
    assert!(sim.download_limiter.is_none());
}

#[test]
fn s3_keys_and_targets() {
    let creds = S3Credentials {
        bucket: "test-bucket".to_string(),
        region: "us-east-1".to_string(),
        access_key_id: "access_key".to_string(),
        secret_access_key: "secret_key".to_string(),
        endpoint: None,
        common: common(Some("/MySyncFolder/")),
    };
    let p = S3Provider::new(creds);
    assert!(!p.target.path_style);
    assert_eq!(p.format_path("/hello.txt"), "MySyncFolder/hello.txt");
    assert_eq!(p.format_path(""), "MySyncFolder");
    let p = p.with_endpoints("http://127.0.0.1:9000".to_string());
    assert!(p.target.path_style);
    assert_eq!(p.target.endpoint.as_deref(), Some("http://127.0.0.1:9000"));
    assert_eq!(p.target.region, "us-east-1");
    assert_eq!(p.name(), "S3");
}

#[test]
fn sftp_paths_and_port() {
    let creds = SFTPCredentials {
        host: "h".to_string(),
        port: None,
        username: "u".to_string(),
        password: None,
        private_key_path: None,
        common: common(Some("backup/")),
    };
    let p = SFTPProvider::new(creds);
    assert_eq!(p.port(), 22);
    assert_eq!(p.resolve_remote_path("/docs/a.txt/"), "backup/docs/a.txt");
    assert_eq!(p.resolve_remote_path("/"), "backup");
    let mut creds = p.creds.clone();
    creds.common.destination_folder = None;
    creds.port = Some(2222);
    let p = SFTPProvider::new(creds);
    assert_eq!(p.port(), 2222);
    assert_eq!(p.resolve_remote_path("x"), "x");
}

#[test]
fn mega_client_name() {
    let p = MegaProvider::new(MegaCredentials { email: "e".into(), password: "p".into(), common: common(None) });
    assert_eq!(p.name(), "MEGA");
    assert_eq!(p.credentials.email, "e");
}

#[test]
fn walk_segments_and_decisions() {
    assert_eq!(remote_segments(Some("/root/sub/"), "/a/b.txt"), vec!["root", "sub", "a", "b.txt"]);
    assert_eq!(remote_segments(None, ""), Vec::<String>::new());
    assert_eq!(remote_segments(Some("//"), "a//b"), vec!["a", "", "b"]);
    assert!(matches!(box_check_segment("", false), WalkCheck::Skip));
    assert!(matches!(box_check_segment("a", true), WalkCheck::Lookup));
    match box_check_segment("a", false) {
        WalkCheck::Fail(StorageError::Provider { message, status }) => {
            assert_eq!(message, "Path resolution error: intermediate segment 'a' is not a folder");
            assert_eq!(status, None);
        }
        _ => panic!("expected a failure"),
    }
    let entries = vec![
        BoxEntry { id: "1".into(), name: "docs".into(), item_type: "folder".into() },
        BoxEntry { id: "2".into(), name: "docs".into(), item_type: "file".into() },
        BoxEntry { id: "3".into(), name: "a.txt".into(), item_type: "file".into() },
    ];
    assert_eq!(box_find_entry(&entries, "docs"), Some(("1".to_string(), true)));
    assert_eq!(box_find_entry(&entries, "a.txt"), Some(("3".to_string(), false)));
    assert_eq!(box_find_entry(&entries, "b"), None);
    assert!(matches!(box_missing_segment("x", 0, 2, true, true), MissingSegment::CreateFolder));
    match box_missing_segment("x", 1, 2, true, false) {
        MissingSegment::Fail(StorageError::NotFound(m)) => assert_eq!(m, "Path segment 'x' not found"),
        _ => panic!("expected a failure"),
    }
    assert!(matches!(mega_missing_segment("x", 0, 1, true), MissingSegment::Fail(_)));
    assert!(matches!(mega_missing_segment("x", 1, 2, true), MissingSegment::CreateFolder));
    assert!(matches!(mega_missing_segment("x", 0, 3, false), MissingSegment::Fail(_)));
}

#[test]
fn box_walk_goes_folder_by_folder() {
    let segs: Vec<String> = vec!["".into(), "docs".into(), "new".into(), "f.txt".into()];
    let root = vec![BoxEntry { id: "1".into(), name: "docs".into(), item_type: "folder".into() }];
    let docs = vec![BoxEntry { id: "5".into(), name: "old".into(), item_type: "folder".into() }];
    let mut w = box_walk_start();
    match box_walk_next(&mut w, &segs) {
        BoxStep::List(f) => assert_eq!(f, "0"),
        _ => panic!("expected the root to be listed"),
    }
    assert_eq!(w.index, 1);
    match box_walk_listed(&mut w, &segs, &root, true) {
        BoxStep::List(f) => assert_eq!(f, "1"),
        _ => panic!("expected docs to be listed"),
    }
    match box_walk_listed(&mut w, &segs, &docs, true) {
        BoxStep::Create { parent_id, name } => {
            assert_eq!(parent_id, "1");
            assert_eq!(name, "new");
        }
        _ => panic!("expected a folder to be created"),
    }
    match box_walk_created(&mut w, &segs, "9".to_string()) {
        BoxStep::List(f) => assert_eq!(f, "9"),
        _ => panic!("expected the new folder to be listed"),
    }
    let file = vec![BoxEntry { id: "7".into(), name: "f.txt".into(), item_type: "file".into() }];
    match box_walk_listed(&mut w, &segs, &file, false) {
        BoxStep::Done(id, is_dir) => {
            assert_eq!(id, "7");
            assert!(!is_dir);
        }
        _ => panic!("expected the walk to end at the file"),
    }
    let mut w = box_walk_start();
    let segs: Vec<String> = vec!["f.txt".into(), "below".into()];
    let _ = box_walk_next(&mut w, &segs);
    match box_walk_listed(&mut w, &segs, &file, false) {
        BoxStep::Fail(StorageError::Provider { message, .. }) => {
            assert_eq!(message, "Path resolution error: intermediate segment 'below' is not a folder")
        }
        _ => panic!("expected a failure below a file"),
    }
    let mut w = box_walk_start();
    let segs: Vec<String> = vec!["gone".into()];
    let _ = box_walk_next(&mut w, &segs);
    match box_walk_listed(&mut w, &segs, &root, false) {
        BoxStep::Fail(StorageError::NotFound(m)) => assert_eq!(m, "Path segment 'gone' not found"),
        _ => panic!("expected a missing segment"),
    }
}

#[test]
fn box_token_upkeep() {
    assert!(token_is_fresh(200_000, 100_000));
    assert!(!token_is_fresh(160_000, 100_000));
    assert!(!token_is_fresh(50, 100));
    assert_eq!(token_expiry(1_000, 3600), 3_601_000);
    let cfg = "[google_credentials]\nrefresh_token = \"g\"\n[box_credentials]\nclient_id = \"c\"\nrefresh_token = \"old\"\n";
    assert_eq!(
        replace_refresh_token(cfg, "new").unwrap(),
        "[google_credentials]\nrefresh_token = \"g\"\n[box_credentials]\nclient_id = \"c\"\nrefresh_token = \"new\"\n"
    );
    assert_eq!(replace_refresh_token("[box_credentials]\nrefresh_token = 1\n", "x"), None);
    assert_eq!(replace_refresh_token("refresh_token = \"a\"", "x"), None);
}

#[test]
fn token_bucket_refills_and_advises_waits() {
    let mut b = TokenBucket::new(1000, 0);
    assert_eq!(b.take(300), 300);
    assert_eq!(b.tokens, 700);
    assert_eq!(b.take(900), 700);
    assert_eq!(b.tokens, 0);
    assert_eq!(b.wait_ms(500), 500);
    b.refill(500);
    assert_eq!(b.tokens, 500);
    b.refill(10_000);
    assert_eq!(b.tokens, 1000);
    b.refill(5);
    assert_eq!(b.tokens, 1000);
    assert_eq!(b.wait_ms(10), 0);
    let mut b = TokenBucket::new(3, 0);
    b.take(3);
    assert_eq!(b.wait_ms(1), 334);
    b.refill(334);
    assert!(b.tokens >= 1);
}

#[test]
fn rotated_box_token_is_read_back_after_rewrite() {
    let cfg = "[dropbox_credentials]\nrefresh_token = \"keep\"\n[box_credentials]\nclient_id = \"id\"\nrefresh_token = \"old\"\n";
    let once = replace_refresh_token(cfg, "first-rotation").unwrap();
    let twice = replace_refresh_token(&once, "second").unwrap();
    // The section's token is the one written last; the rest is untouched.
    assert_eq!(
        twice,
        "[dropbox_credentials]\nrefresh_token = \"keep\"\n[box_credentials]\nclient_id = \"id\"\nrefresh_token = \"second\"\n"
    );
    let start = twice.find("[box_credentials]").unwrap();
    let key = start + twice[start..].find("refresh_token").unwrap();
    let open = key + twice[key..].find('"').unwrap();
    let close = open + 1 + twice[open + 1..].find('"').unwrap();
    assert_eq!(&twice[open + 1..close], "second");
}
