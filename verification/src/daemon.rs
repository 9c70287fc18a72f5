//! Daemon configuration and the decisions taken on file-system events.
use vstd::prelude::*;
use crate::ignore::{components, rule_views, rules_of_lines, spec_is_ignored, SyncIgnore};
use crate::policy::SyncPolicy;
use crate::settings::{
    settings_enabled, AzureBlobCredentials, GCSCredentials, MegaCredentials, NextcloudCredentials,
    OAuthCredentials, S3Credentials, SFTPCredentials, WebDAVCredentials,
};
use crate::text::{ends_with, starts_with, str_eq, views_of};

verus! {

pub const DEFAULT_CONFIG_FILE: &'static str = "config.toml";
pub const PRIVATE_CONFIG_FILE: &'static str = "private_config.toml";
pub const DEFAULT_WATCH_DIR: &'static str = "./watched_folder";
pub const DEFAULT_GOOGLE_DRIVE_ROOT: &'static str = "./cloud_simulation/google_drive";
pub const DEFAULT_DROPBOX_ROOT: &'static str = "./cloud_simulation/dropbox";
pub const DEFAULT_ONEDRIVE_ROOT: &'static str = "./cloud_simulation/onedrive";
pub const DEFAULT_WEBDAV_ROOT: &'static str = "./cloud_simulation/webdav";
pub const DEFAULT_S3_ROOT: &'static str = "./cloud_simulation/s3";
pub const DEFAULT_SFTP_ROOT: &'static str = "./cloud_simulation/sftp";
pub const DEFAULT_NEXTCLOUD_ROOT: &'static str = "./cloud_simulation/nextcloud";
pub const DEFAULT_BOX_ROOT: &'static str = "./cloud_simulation/box";
pub const DEFAULT_MEGA_ROOT: &'static str = "./cloud_simulation/mega";
pub const DEFAULT_AZURE_BLOB_ROOT: &'static str = "./cloud_simulation/azure_blob";
pub const DEFAULT_GCS_ROOT: &'static str = "./cloud_simulation/gcs";

/// Address of the daemon's control socket.
pub const DAEMON_BIND_ADDR: &'static str = "127.0.0.1:8081";
/// Pause before syncing a changed path, letting concurrent writes settle.
pub const DEBOUNCE_DELAY_MS: u64 = 150;
/// Pause between attempts to sync a changed path.
pub const RETRY_DELAY_MS: u64 = 500;
/// Attempts made to sync a changed path.
pub const MAX_SYNC_ATTEMPTS: u32 = 3;

/// Global configuration read from the configuration file.
#[derive(Debug, Clone)]
pub struct AppConfig {
    pub watch_directory: String,
    pub google_drive_root: String,
    pub dropbox_root: String,
    pub onedrive_root: String,
    pub webdav_root: String,
    pub s3_root: String,
    pub sftp_root: String,
    pub nextcloud_root: String,
    pub box_root: Option<String>,
    pub mega_root: Option<String>,
    pub azure_blob_root: Option<String>,
    pub gcs_root: Option<String>,
    pub google_credentials: Option<OAuthCredentials>,
    pub dropbox_credentials: Option<OAuthCredentials>,
    pub onedrive_credentials: Option<OAuthCredentials>,
    pub webdav_credentials: Option<WebDAVCredentials>,
    pub s3_credentials: Option<S3Credentials>,
    pub sftp_credentials: Option<SFTPCredentials>,
    pub nextcloud_credentials: Option<NextcloudCredentials>,
    pub box_credentials: Option<OAuthCredentials>,
    pub mega_credentials: Option<MegaCredentials>,
    pub azure_blob_credentials: Option<AzureBlobCredentials>,
    pub gcs_credentials: Option<GCSCredentials>,
    /// Extra exclusion patterns besides the watched folder's `.syncignore`.
    pub exclude: Option<Vec<String>>,
    /// Upload limit shared by all backends, in KB/s.
    pub max_upload_rate: Option<u64>,
    /// Download limit shared by all backends, in KB/s.
    pub max_download_rate: Option<u64>,
}

impl Default for AppConfig {
    fn default() -> (c: AppConfig)
        ensures
            c.watch_directory@ == DEFAULT_WATCH_DIR@,
            c.google_drive_root@ == DEFAULT_GOOGLE_DRIVE_ROOT@,
            c.dropbox_root@ == DEFAULT_DROPBOX_ROOT@,
            c.onedrive_root@ == DEFAULT_ONEDRIVE_ROOT@,
            c.webdav_root@ == DEFAULT_WEBDAV_ROOT@,
            c.s3_root@ == DEFAULT_S3_ROOT@,
            c.sftp_root@ == DEFAULT_SFTP_ROOT@,
            c.nextcloud_root@ == DEFAULT_NEXTCLOUD_ROOT@,
            crate::state::ck(c.box_root) == Some(DEFAULT_BOX_ROOT@),
            crate::state::ck(c.mega_root) == Some(DEFAULT_MEGA_ROOT@),
            crate::state::ck(c.azure_blob_root) == Some(DEFAULT_AZURE_BLOB_ROOT@),
            crate::state::ck(c.gcs_root) == Some(DEFAULT_GCS_ROOT@),
            c.google_credentials is None,
            c.dropbox_credentials is None,
            c.onedrive_credentials is None,
            c.webdav_credentials is None,
            c.s3_credentials is None,
            c.sftp_credentials is None,
            c.nextcloud_credentials is None,
            c.box_credentials is None,
            c.mega_credentials is None,
            c.azure_blob_credentials is None,
            c.gcs_credentials is None,
            c.exclude is None,
            c.max_upload_rate is None,
            c.max_download_rate is None,
    {
        AppConfig {
            watch_directory: DEFAULT_WATCH_DIR.to_owned(),
            google_drive_root: DEFAULT_GOOGLE_DRIVE_ROOT.to_owned(),
            dropbox_root: DEFAULT_DROPBOX_ROOT.to_owned(),
            onedrive_root: DEFAULT_ONEDRIVE_ROOT.to_owned(),
            webdav_root: DEFAULT_WEBDAV_ROOT.to_owned(),
            s3_root: DEFAULT_S3_ROOT.to_owned(),
            sftp_root: DEFAULT_SFTP_ROOT.to_owned(),
            nextcloud_root: DEFAULT_NEXTCLOUD_ROOT.to_owned(),
            box_root: Some(DEFAULT_BOX_ROOT.to_owned()),
            mega_root: Some(DEFAULT_MEGA_ROOT.to_owned()),
            azure_blob_root: Some(DEFAULT_AZURE_BLOB_ROOT.to_owned()),
            gcs_root: Some(DEFAULT_GCS_ROOT.to_owned()),
            google_credentials: None,
            dropbox_credentials: None,
            onedrive_credentials: None,
            webdav_credentials: None,
            s3_credentials: None,
            sftp_credentials: None,
            nextcloud_credentials: None,
            box_credentials: None,
            mega_credentials: None,
            azure_blob_credentials: None,
            gcs_credentials: None,
            exclude: None,
            max_upload_rate: None,
            max_download_rate: None,
        }
    }
}

/// A provider is enabled unless its credentials switch it off; a provider
/// without credentials runs against its local simulation and counts as enabled.
pub open spec fn spec_enabled(common: Option<crate::settings::CommonProviderSettings>) -> bool {
    match common {
        Some(c) => settings_enabled(c),
        None => true,
    }
}

/// Whether an OAuth-based provider is enabled.
pub fn is_enabled(credentials: &Option<OAuthCredentials>) -> (b: bool)
    ensures
        b == spec_enabled(match *credentials { Some(c) => Some(c.common), None => None }),
{
    match credentials {
        Some(c) => c.common.enabled.unwrap_or(true),
        None => true,
    }
}

/// Whether the WebDAV provider is enabled.
pub fn is_webdav_enabled(credentials: &Option<WebDAVCredentials>) -> (b: bool)
    ensures
        b == spec_enabled(match *credentials { Some(c) => Some(c.common), None => None }),
{
    match credentials {
        Some(c) => c.common.enabled.unwrap_or(true),
        None => true,
    }
}

/// Whether the S3 provider is enabled.
pub fn is_s3_enabled(credentials: &Option<S3Credentials>) -> (b: bool)
    ensures
        b == spec_enabled(match *credentials { Some(c) => Some(c.common), None => None }),
{
    match credentials {
        Some(c) => c.common.enabled.unwrap_or(true),
        None => true,
    }
}

/// Whether the SFTP provider is enabled.
pub fn is_sftp_enabled(credentials: &Option<SFTPCredentials>) -> (b: bool)
    ensures
        b == spec_enabled(match *credentials { Some(c) => Some(c.common), None => None }),
{
    match credentials {
        Some(c) => c.common.enabled.unwrap_or(true),
        None => true,
    }
}

/// Whether the Nextcloud provider is enabled.
pub fn is_nextcloud_enabled(credentials: &Option<NextcloudCredentials>) -> (b: bool)
    ensures
        b == spec_enabled(match *credentials { Some(c) => Some(c.common), None => None }),
{
    match credentials {
        Some(c) => c.common.enabled.unwrap_or(true),
        None => true,
    }
}

/// Whether the MEGA provider is enabled.
pub fn is_mega_enabled(credentials: &Option<MegaCredentials>) -> (b: bool)
    ensures
        b == spec_enabled(match *credentials { Some(c) => Some(c.common), None => None }),
{
    match credentials {
        Some(c) => c.common.enabled.unwrap_or(true),
        None => true,
    }
}

/// Whether the Azure Blob provider is enabled.
pub fn is_azure_blob_enabled(credentials: &Option<AzureBlobCredentials>) -> (b: bool)
    ensures
        b == spec_enabled(match *credentials { Some(c) => Some(c.common), None => None }),
{
    match credentials {
        Some(c) => c.common.enabled.unwrap_or(true),
        None => true,
    }
}

/// Whether the GCS provider is enabled.
pub fn is_gcs_enabled(credentials: &Option<GCSCredentials>) -> (b: bool)
    ensures
        b == spec_enabled(match *credentials { Some(c) => Some(c.common), None => None }),
{
    match credentials {
        Some(c) => c.common.enabled.unwrap_or(true),
        None => true,
    }
}

/// The configuration file to use: the private one when it exists.
pub fn resolve_config_file(private_config_exists: bool) -> (f: &'static str)
    ensures
        f@ == if private_config_exists { PRIVATE_CONFIG_FILE@ } else { DEFAULT_CONFIG_FILE@ },
{
    if private_config_exists { PRIVATE_CONFIG_FILE } else { DEFAULT_CONFIG_FILE }
}

/// Builds the exclusion matcher of the watched folder from the configured
/// patterns; the rules of the folder's `.syncignore` are added with
/// `SyncIgnore::add_rules_from_text` by whoever reads that file.
pub fn build_gitignore(watch_dir: &str, exclude_patterns: &Option<Vec<String>>) -> (s: SyncIgnore)
    ensures
        s.root@ == watch_dir@,
        rule_views(s.rules@) == match *exclude_patterns {
            Some(p) => rules_of_lines(views_of(p@)),
            None => Seq::empty(),
        },
{
    match exclude_patterns {
        Some(p) => SyncIgnore::new(watch_dir, p),
        None => {
            let empty: Vec<String> = Vec::new();
            let s = SyncIgnore::new(watch_dir, &empty);
            assert(views_of(empty@) =~= Seq::<Seq<char>>::empty());
            s
        },
    }
}

/// Files the synchroniser keeps for itself in the watched folder, which are never synced.
pub open spec fn is_internal_sync_file(rel: Seq<char>) -> bool {
    ||| rel == ".sync_state.json"@
    ||| rel == ".sync_state.bin"@
    ||| rel == ".syncignore"@
    ||| (rel.len() >= ".sync_state_"@.len() && rel.take(".sync_state_"@.len() as int) == ".sync_state_"@ && (
        (rel.len() >= ".json"@.len() && rel.skip(rel.len() - ".json"@.len()) == ".json"@)
        || (rel.len() >= ".bin"@.len() && rel.skip(rel.len() - ".bin"@.len()) == ".bin"@)))
}

pub fn is_internal_sync_file_exec(rel: &str) -> (b: bool)
    ensures
        b == is_internal_sync_file(rel@),
{
    str_eq(rel, ".sync_state.json") || str_eq(rel, ".sync_state.bin") || str_eq(rel, ".syncignore")
        || (starts_with(rel, ".sync_state_") && (ends_with(rel, ".json") || ends_with(rel, ".bin")))
}

/// Whether a text begins with another.
pub open spec fn begins_with(s: Seq<char>, p: Seq<char>) -> bool {
    s.len() >= p.len() && s.take(p.len() as int) == p
}

/// Whether a text ends with another.
pub open spec fn finishes_with(s: Seq<char>, p: Seq<char>) -> bool {
    s.len() >= p.len() && s.skip(s.len() - p.len()) == p
}

/// Only the synchroniser's own files are internal: `.syncignore` and the
/// catalog files, whose names begin with `.sync_state` and end with `.json`
/// or `.bin`. Any other path, such as `.gitignore` or `.env`, is not, and in
/// particular no path that does not begin with `.sync`.
pub proof fn law_internal_files_are_the_synchronisers_own(rel: Seq<char>)
    ensures
        is_internal_sync_file(rel) ==> rel == ".syncignore"@ || (begins_with(rel, ".sync_state"@) && (
            finishes_with(rel, ".json"@) || finishes_with(rel, ".bin"@))),
        !begins_with(rel, ".sync"@) ==> !is_internal_sync_file(rel),
        is_internal_sync_file(".sync_state.json"@),
        is_internal_sync_file(".sync_state.bin"@),
        is_internal_sync_file(".syncignore"@),
{
    reveal_strlit(".sync_state.json");
    reveal_strlit(".sync_state.bin");
    reveal_strlit(".syncignore");
    reveal_strlit(".sync_state_");
    reveal_strlit(".sync_state");
    reveal_strlit(".sync");
    reveal_strlit(".json");
    reveal_strlit(".bin");
    assert(".sync_state.json"@.skip(11) =~= ".json"@);
    assert(".sync_state.bin"@.skip(11) =~= ".bin"@);
    if is_internal_sync_file(rel) {
        if rel == ".sync_state.json"@ {
            assert(rel.take(11) =~= ".sync_state"@);
            assert(rel.skip(rel.len() - 5) =~= ".json"@);
        } else if rel == ".sync_state.bin"@ {
            assert(rel.take(11) =~= ".sync_state"@);
            assert(rel.skip(rel.len() - 4) =~= ".bin"@);
        } else if rel != ".syncignore"@ {
            assert(rel.take(11) =~= rel.take(12).take(11));
            assert(".sync_state_"@.take(11) =~= ".sync_state"@);
        }
    }
    if is_internal_sync_file(rel) {
        if rel == ".syncignore"@ {
            assert(rel.take(5) =~= ".sync"@);
        } else {
            assert(rel.take(5) =~= rel.take(11).take(5));
            assert(".sync_state"@.take(5) =~= ".sync"@);
        }
    }
}

/// The path to sync after a local creation or modification, or `None` when
/// the path is excluded, lies outside the watched folder or is one of the
/// synchroniser's own files.
pub open spec fn spec_change_target(path: Seq<char>, is_dir: bool, ig: SyncIgnore) -> Option<Seq<char>> {
    if spec_is_ignored(rule_views(ig.rules@), components(path, ig.root@), is_dir) {
        None
    } else {
        match crate::paths::spec_remote_path(path, ig.root@) {
            Some(r) => if is_internal_sync_file(r) { None } else { Some(r) },
            None => None,
        }
    }
}

pub fn change_target(path: &str, is_dir: bool, ignore: &SyncIgnore) -> (r: Option<String>)
    ensures
        crate::state::ck(r) == spec_change_target(path@, is_dir, *ignore),
{
    if ignore.is_ignored(path, is_dir) {
        return None;
    }
    match crate::paths::get_remote_path(path, ignore.root.as_str()) {
        Some(r) => if is_internal_sync_file_exec(r.as_str()) { None } else { Some(r) },
        None => None,
    }
}

/// The path to delete remotely after a local removal, or `None` when the path
/// is excluded (as a file or as a directory, since it can no longer be
/// inspected), lies outside the watched folder or is one of the synchroniser's files.
pub open spec fn spec_removal_target(path: Seq<char>, ig: SyncIgnore) -> Option<Seq<char>> {
    if spec_is_ignored(rule_views(ig.rules@), components(path, ig.root@), false)
        || spec_is_ignored(rule_views(ig.rules@), components(path, ig.root@), true) {
        None
    } else {
        match crate::paths::spec_remote_path(path, ig.root@) {
            Some(r) => if is_internal_sync_file(r) { None } else { Some(r) },
            None => None,
        }
    }
}

pub fn removal_target(path: &str, ignore: &SyncIgnore) -> (r: Option<String>)
    ensures
        crate::state::ck(r) == spec_removal_target(path@, *ignore),
{
    if ignore.is_ignored(path, false) || ignore.is_ignored(path, true) {
        return None;
    }
    match crate::paths::get_remote_path(path, ignore.root.as_str()) {
        Some(r) => if is_internal_sync_file_exec(r.as_str()) { None } else { Some(r) },
        None => None,
    }
}

/// Whether a local deletion is propagated to a backend with this policy.
pub fn propagates_deletion(policy: &SyncPolicy) -> (b: bool)
    ensures
        b == policy.mode.spec_sync_deletions(),
{
    policy.sync_deletions()
}

/// The kinds of file-watcher notifications the daemon tells apart.
#[derive(Debug, Clone, Copy, PartialEq, Eq, Structural)]
pub enum WatchEvent {
    /// A path was created, or its data changed.
    Change,
    /// A path was removed.
    Removal,
    /// Anything else (access, metadata, renames reported as such).
    Other,
}

/// What the daemon does with a notification.
#[derive(Debug, Clone, Copy, PartialEq, Eq, Structural)]
pub enum EventAction {
    /// Nothing.
    Skip,
    /// Push the changed paths to every backend.
    SyncChanges,
    /// Delete the removed paths from the backends that propagate deletions.
    PropagateRemovals,
}

/// While paused the daemon ignores every notification; otherwise it pushes
/// changes, propagates removals and ignores the rest.
pub fn event_action(paused: bool, event: WatchEvent) -> (a: EventAction)
    ensures
        paused ==> a == EventAction::Skip,
        !paused ==> a == match event {
            WatchEvent::Change => EventAction::SyncChanges,
            WatchEvent::Removal => EventAction::PropagateRemovals,
            WatchEvent::Other => EventAction::Skip,
        },
{
    if paused {
        return EventAction::Skip;
    }
    match event {
        WatchEvent::Change => EventAction::SyncChanges,
        WatchEvent::Removal => EventAction::PropagateRemovals,
        WatchEvent::Other => EventAction::Skip,
    }
}

/// The file name of a path, as `Path::file_name` reads it, is `.syncignore`.
pub open spec fn is_syncignore_path(path: Seq<char>) -> bool {
    crate::paths::file_name_of(path) == Some(".syncignore"@)
}

pub fn is_syncignore_path_exec(path: &str) -> (b: bool)
    ensures
        b == is_syncignore_path(path@),
{
    match crate::paths::path_file_name(path) {
        Some(name) => str_eq(name.as_str(), ".syncignore"),
        None => false,
    }
}

} // verus!
