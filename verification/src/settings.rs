//! Provider credentials and the settings every provider shares.
use vstd::prelude::*;
use crate::policy::SyncMode;

verus! {

/// Configuration settings shared by all storage providers.
#[derive(Debug, Clone)]
pub struct CommonProviderSettings {
    /// Prefix folder in the remote storage where files are synced.
    pub destination_folder: Option<String>,
    /// Toggle to enable or disable the provider.
    pub enabled: Option<bool>,
    /// Sync mode: two-way, one-way, one-way-no-deletions.
    pub sync_mode: Option<SyncMode>,
    /// Password for client-side encryption.
    pub encryption_password: Option<String>,
    /// Upload rate limit in KB/s.
    pub max_upload_rate: Option<u64>,
    /// Download rate limit in KB/s.
    pub max_download_rate: Option<u64>,
}

impl Default for CommonProviderSettings {
    fn default() -> (s: CommonProviderSettings)
        ensures
            s.destination_folder is None,
            s.enabled is None,
            s.sync_mode is None,
            s.encryption_password is None,
            s.max_upload_rate is None,
            s.max_download_rate is None,
    {
        CommonProviderSettings {
            destination_folder: None,
            enabled: None,
            sync_mode: None,
            encryption_password: None,
            max_upload_rate: None,
            max_download_rate: None,
        }
    }
}

/// Whether settings enable their provider (enabled unless switched off).
pub open spec fn settings_enabled(s: CommonProviderSettings) -> bool {
    match s.enabled {
        Some(b) => b,
        None => true,
    }
}

/// The sync mode settings select (one-way unless named).
pub open spec fn settings_mode(s: CommonProviderSettings) -> SyncMode {
    match s.sync_mode {
        Some(m) => m,
        None => SyncMode::OneWay,
    }
}

fn opt_as_str(o: &Option<String>) -> (r: Option<&str>)
    ensures
        crate::paths::opt_str(r) == crate::state::ck(*o),
{
    match o {
        Some(s) => Some(s.as_str()),
        None => None,
    }
}

/// Access to the settings every provider configuration carries.
pub trait ProviderConfig {
    spec fn spec_common(&self) -> CommonProviderSettings;

    fn common_settings(&self) -> (r: &CommonProviderSettings)
        ensures
            *r == self.spec_common(),
    ;

    fn is_enabled(&self) -> (b: bool)
        ensures
            b == settings_enabled(self.spec_common()),
    {
        self.common_settings().enabled.unwrap_or(true)
    }

    fn sync_mode(&self) -> (m: SyncMode)
        ensures
            m == settings_mode(self.spec_common()),
    {
        self.common_settings().sync_mode.unwrap_or(SyncMode::OneWay)
    }

    fn sync_deletions(&self) -> (b: bool)
        ensures
            b == settings_mode(self.spec_common()).spec_sync_deletions(),
    {
        match self.sync_mode() {
            SyncMode::TwoWay | SyncMode::OneWay => true,
            SyncMode::OneWayNoDeletions => false,
        }
    }

    fn sync_both(&self) -> (b: bool)
        ensures
            b == settings_mode(self.spec_common()).spec_sync_both(),
    {
        match self.sync_mode() {
            SyncMode::TwoWay => true,
            SyncMode::OneWay | SyncMode::OneWayNoDeletions => false,
        }
    }

    fn destination_folder(&self) -> (r: Option<&str>)
        ensures
            crate::paths::opt_str(r) == crate::state::ck(self.spec_common().destination_folder),
    {
        opt_as_str(&self.common_settings().destination_folder)
    }

    fn encryption_password(&self) -> (r: Option<&str>)
        ensures
            crate::paths::opt_str(r) == crate::state::ck(self.spec_common().encryption_password),
    {
        opt_as_str(&self.common_settings().encryption_password)
    }

    fn max_upload_rate(&self) -> (r: Option<u64>)
        ensures
            r == self.spec_common().max_upload_rate,
    {
        self.common_settings().max_upload_rate
    }

    fn max_download_rate(&self) -> (r: Option<u64>)
        ensures
            r == self.spec_common().max_download_rate,
    {
        self.common_settings().max_download_rate
    }
}
/// Credentials configuration for OAuth2 authorization flows: client secrets and
/// a long-lived refresh token exchanged for short-lived access tokens.
#[derive(Debug, Clone)]
pub struct OAuthCredentials {
    /// OAuth2 client ID.
    pub client_id: String,
    /// OAuth2 client secret.
    pub client_secret: String,
    /// Long-lived refresh token.
    pub refresh_token: String,
    /// Settings shared by every provider.
    pub common: CommonProviderSettings,
}

impl ProviderConfig for OAuthCredentials {
    open spec fn spec_common(&self) -> CommonProviderSettings {
        self.common
    }

    fn common_settings(&self) -> (r: &CommonProviderSettings) {
        &self.common
    }
}

/// Credentials and URL configuration for WebDAV servers.
#[derive(Debug, Clone)]
pub struct WebDAVCredentials {
    /// WebDAV server base URL.
    pub url: String,
    /// WebDAV username.
    pub username: String,
    /// WebDAV password.
    pub password: String,
    /// Settings shared by every provider.
    pub common: CommonProviderSettings,
}

impl ProviderConfig for WebDAVCredentials {
    open spec fn spec_common(&self) -> CommonProviderSettings {
        self.common
    }

    fn common_settings(&self) -> (r: &CommonProviderSettings) {
        &self.common
    }
}

/// Credentials configuration for Amazon S3 and S3-compatible backends.
#[derive(Debug, Clone)]
pub struct S3Credentials {
    /// Bucket name.
    pub bucket: String,
    /// Region name.
    pub region: String,
    /// Access key ID.
    pub access_key_id: String,
    /// Secret access key.
    pub secret_access_key: String,
    /// Custom endpoint URL (S3-compatible providers).
    pub endpoint: Option<String>,
    /// Settings shared by every provider.
    pub common: CommonProviderSettings,
}

impl ProviderConfig for S3Credentials {
    open spec fn spec_common(&self) -> CommonProviderSettings {
        self.common
    }

    fn common_settings(&self) -> (r: &CommonProviderSettings) {
        &self.common
    }
}

/// Credentials configuration for SFTP.
#[derive(Debug, Clone)]
pub struct SFTPCredentials {
    /// Host address.
    pub host: String,
    /// Port (22 when absent).
    pub port: Option<u16>,
    /// Username.
    pub username: String,
    /// Password (optional with key-based authentication).
    pub password: Option<String>,
    /// Path to the SSH private key.
    pub private_key_path: Option<String>,
    /// Settings shared by every provider.
    pub common: CommonProviderSettings,
}

impl ProviderConfig for SFTPCredentials {
    open spec fn spec_common(&self) -> CommonProviderSettings {
        self.common
    }

    fn common_settings(&self) -> (r: &CommonProviderSettings) {
        &self.common
    }
}

/// Credentials configuration for Nextcloud WebDAV and OCS services.
#[derive(Debug, Clone)]
pub struct NextcloudCredentials {
    /// Server URL.
    pub url: String,
    /// Username.
    pub username: String,
    /// App password.
    pub app_password: String,
    /// Settings shared by every provider.
    pub common: CommonProviderSettings,
}

impl ProviderConfig for NextcloudCredentials {
    open spec fn spec_common(&self) -> CommonProviderSettings {
        self.common
    }

    fn common_settings(&self) -> (r: &CommonProviderSettings) {
        &self.common
    }
}

/// Credentials configuration for MEGA cloud storage.
#[derive(Debug, Clone)]
pub struct MegaCredentials {
    /// Account e-mail.
    pub email: String,
    /// Account password.
    pub password: String,
    /// Settings shared by every provider.
    pub common: CommonProviderSettings,
}

impl ProviderConfig for MegaCredentials {
    open spec fn spec_common(&self) -> CommonProviderSettings {
        self.common
    }

    fn common_settings(&self) -> (r: &CommonProviderSettings) {
        &self.common
    }
}

/// Credentials configuration for Azure Blob Storage.
#[derive(Debug, Clone)]
pub struct AzureBlobCredentials {
    /// Storage account name.
    pub account_name: String,
    /// Storage account access key (Base64).
    pub account_key: String,
    /// Target container.
    pub container: String,
    /// Custom endpoint URL (local emulator).
    pub endpoint: Option<String>,
    /// Settings shared by every provider.
    pub common: CommonProviderSettings,
}

impl ProviderConfig for AzureBlobCredentials {
    open spec fn spec_common(&self) -> CommonProviderSettings {
        self.common
    }

    fn common_settings(&self) -> (r: &CommonProviderSettings) {
        &self.common
    }
}

/// Credentials configuration for Google Cloud Storage.
#[derive(Debug, Clone)]
pub struct GCSCredentials {
    /// Target bucket.
    pub bucket: String,
    /// Path of the service account JSON key.
    pub service_account_key_path: String,
    /// Custom endpoint URL (local emulator).
    pub endpoint: Option<String>,
    /// Settings shared by every provider.
    pub common: CommonProviderSettings,
}

impl ProviderConfig for GCSCredentials {
    open spec fn spec_common(&self) -> CommonProviderSettings {
        self.common
    }

    fn common_settings(&self) -> (r: &CommonProviderSettings) {
        &self.common
    }
}

/// Credentials configuration for Backblaze B2.
#[derive(Debug, Clone)]
pub struct B2Credentials {
    /// Target bucket.
    pub bucket: String,
    /// Key ID.
    pub key_id: String,
    /// Application key.
    pub application_key: String,
    /// Custom endpoint URL.
    pub endpoint: Option<String>,
    /// Settings shared by every provider.
    pub common: CommonProviderSettings,
}

impl ProviderConfig for B2Credentials {
    open spec fn spec_common(&self) -> CommonProviderSettings {
        self.common
    }

    fn common_settings(&self) -> (r: &CommonProviderSettings) {
        &self.common
    }
}

/// Credentials configuration for pCloud.
#[derive(Debug, Clone)]
pub struct PCloudCredentials {
    /// OAuth2 access token.
    pub access_token: String,
    /// Custom API endpoint.
    pub endpoint: Option<String>,
    /// Settings shared by every provider.
    pub common: CommonProviderSettings,
}

impl ProviderConfig for PCloudCredentials {
    open spec fn spec_common(&self) -> CommonProviderSettings {
        self.common
    }

    fn common_settings(&self) -> (r: &CommonProviderSettings) {
        &self.common
    }
}

/// Credentials configuration for an IPFS pinning service.
#[derive(Debug, Clone)]
pub struct IPFSCredentials {
    /// JWT bearer token.
    pub jwt_token: String,
    /// Custom API endpoint.
    pub endpoint: Option<String>,
    /// Gateway URL resolving pinned CIDs.
    pub gateway_url: Option<String>,
    /// Settings shared by every provider.
    pub common: CommonProviderSettings,
}

impl ProviderConfig for IPFSCredentials {
    open spec fn spec_common(&self) -> CommonProviderSettings {
        self.common
    }

    fn common_settings(&self) -> (r: &CommonProviderSettings) {
        &self.common
    }
}

} // verus!
