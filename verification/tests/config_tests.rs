use cloud_sync::daemon::{build_gitignore, is_enabled, resolve_config_file, AppConfig};
use cloud_sync::paths::get_remote_path;
use cloud_sync::settings::{CommonProviderSettings, OAuthCredentials, ProviderConfig};

/// Tests that `is_enabled` returns true/false based on OAuth credentials status.
#[test]
fn test_is_enabled() {
    let creds_none: Option<OAuthCredentials> = None;
    assert!(is_enabled(&creds_none));

    let creds_disabled = Some(OAuthCredentials {
        client_id: "id".to_string(),
        client_secret: "secret".to_string(),
        refresh_token: "token".to_string(),
        common: CommonProviderSettings {
            destination_folder: None,
            enabled: Some(false),
            sync_mode: None,
            ..Default::default()
        },
    });
    assert!(!is_enabled(&creds_disabled));

    let creds_enabled = Some(OAuthCredentials {
        client_id: "id".to_string(),
        client_secret: "secret".to_string(),
        refresh_token: "token".to_string(),
        common: CommonProviderSettings {
            destination_folder: None,
            enabled: Some(true),
            sync_mode: None,
            ..Default::default()
        },
    });
    assert!(is_enabled(&creds_enabled));
}

/// Tests that `get_remote_path` maps watched local file paths and rejects unrelated files.
#[test]
fn test_get_remote_path() {
    let watch_dir = "/home/user/watch";
    let file_path = "/home/user/watch/docs/report.pdf";
    assert_eq!(get_remote_path(file_path, watch_dir), Some("docs/report.pdf".to_string()));

    let unrelated_path = "/home/user/other/report.pdf";
    assert_eq!(get_remote_path(unrelated_path, watch_dir), None);
}

#[test]
fn test_build_gitignore_and_matching() {
    let watch_dir = "/tmp/watch_root";
    let exclude = Some(vec!["*.log".to_string(), "temp/".to_string()]);
    let gitignore = build_gitignore(watch_dir, &exclude);

    assert!(gitignore.is_ignored("/tmp/watch_root/error.log", false));
    assert!(!gitignore.is_ignored("/tmp/watch_root/error.txt", false));
    assert!(gitignore.is_ignored("/tmp/watch_root/temp/file.txt", false));
    assert!(gitignore.is_ignored("/tmp/watch_root/temp", false) || gitignore.is_ignored("/tmp/watch_root/temp", true));
}

#[test]
fn remote_path_of_watch_dir_itself_and_prefix_lookalikes() {
    assert_eq!(get_remote_path("/w", "/w/"), Some(String::new()));
    assert_eq!(get_remote_path("/wx/a", "/w"), None);
    assert_eq!(get_remote_path("/w//a", "/w"), Some("a".to_string()));
}

#[test]
fn private_config_is_preferred() {
    assert_eq!(resolve_config_file(true), "private_config.toml");
    assert_eq!(resolve_config_file(false), "config.toml");
}

#[test]
fn default_config_values() {
    let c = AppConfig::default();
    assert_eq!(c.watch_directory, "./watched_folder");
    assert_eq!(c.box_root.as_deref(), Some("./cloud_simulation/box"));
    assert!(c.google_credentials.is_none());
}

#[test]
fn provider_settings_defaults() {
    let creds = OAuthCredentials {
        client_id: "a".to_string(),
        client_secret: "b".to_string(),
        refresh_token: "c".to_string(),
        common: CommonProviderSettings::default(),
    };
    assert!(creds.is_enabled());
    assert_eq!(creds.sync_mode(), cloud_sync::policy::SyncMode::OneWay);
    assert!(creds.sync_deletions());
    assert!(!creds.sync_both());
    assert_eq!(creds.destination_folder(), None);
}
