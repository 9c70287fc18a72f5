//! Backend descriptions: the local simulation folder, and the provider
//! clients' targets and remote path forms.
use vstd::prelude::*;
use crate::paths::{join_path, opt_str, spec_join, spec_relative_path, spec_trimmed_join, format_relative_path, trimmed_join};
use crate::rate_limit::TokenBucket;
use crate::settings::{MegaCredentials, S3Credentials, SFTPCredentials};
use crate::storage::{StorageError, StorageErrorView};
use crate::text::{trim_start, trim_start_str};

verus! {

/// A folder on the local disk that stands in for a provider.
pub struct LocalSimulation {
    /// The folder that plays the remote root.
    pub root_dir: String,
    /// The provider simulated, e.g. `Dropbox`.
    pub provider_name: String,
    pub upload_limiter: Option<TokenBucket>,
    pub download_limiter: Option<TokenBucket>,
}

impl LocalSimulation {
    /// A simulation rooted at `root_dir`, without rate limits.
    pub fn new(root_dir: String, provider_name: String) -> (s: LocalSimulation)
        ensures
            s.root_dir@ == root_dir@,
            s.provider_name@ == provider_name@,
            s.upload_limiter is None,
            s.download_limiter is None,
    {
        LocalSimulation { root_dir, provider_name, upload_limiter: None, download_limiter: None }
    }

    /// The same simulation with the given rate limiters.
    pub fn with_limiters(
        self,
        upload_limiter: Option<TokenBucket>,
        download_limiter: Option<TokenBucket>,
    ) -> (s: LocalSimulation)
        ensures
            s.root_dir@ == self.root_dir@,
            s.provider_name@ == self.provider_name@,
            s.upload_limiter == upload_limiter,
            s.download_limiter == download_limiter,
    {
        LocalSimulation { upload_limiter, download_limiter, ..self }
    }

    /// The local path that plays `remote_path`: the root joined with the
    /// remote path stripped of its leading slashes.
    pub fn resolve(&self, remote_path: &str) -> (p: String)
        ensures
            p@ == spec_join(self.root_dir@, trim_start(remote_path@, '/')),
    {
        let normalized = trim_start_str(remote_path, '/');
        join_path(self.root_dir.as_str(), normalized.as_str())
    }

    /// The name the simulation reports.
    pub fn name(&self) -> (n: &str)
        ensures
            n@ == self.provider_name@,
    {
        self.provider_name.as_str()
    }
}

/// A simulated remote path is written under the simulation folder: it begins
/// with the folder's path, since a leading slash of the remote path cannot
/// make it absolute. (Components such as `..` are kept as they are.)
pub proof fn law_resolved_paths_begin_with_root(root: Seq<char>, remote: Seq<char>)
    requires
        root.len() > 0,
    ensures
        spec_join(root, trim_start(remote, '/')).take(root.len() as int) == root,
        spec_join(root, trim_start(remote, '/')).len() >= root.len(),
{
    let r = trim_start(remote, '/');
    if root.last() == '/' {
        assert((root + r).take(root.len() as int) =~= root);
    } else {
        assert((root + seq!['/'] + r).take(root.len() as int) =~= root);
    }
}

/// A client for MEGA.
pub struct MegaProvider {
    pub credentials: MegaCredentials,
}

impl MegaProvider {
    /// A client for the account in `credentials`.
    pub fn new(credentials: MegaCredentials) -> (p: MegaProvider)
        ensures
            p.credentials == credentials,
    {
        MegaProvider { credentials }
    }

    pub fn name(&self) -> (n: &'static str)
        ensures
            n@ == "MEGA"@,
    {
        "MEGA"
    }
}

/// Where an S3 client sends its requests.
#[derive(Debug, Clone)]
pub struct BucketTarget {
    /// The bucket's name.
    pub bucket: String,
    /// The region's name.
    pub region: String,
    /// A custom endpoint (S3-compatible services), or `None` for AWS.
    pub endpoint: Option<String>,
    /// Whether the bucket is addressed in the path rather than the host name.
    pub path_style: bool,
}

/// A client for Amazon S3 and S3-compatible services.
pub struct S3Provider {
    pub target: BucketTarget,
    pub credentials: S3Credentials,
}

impl S3Provider {
    /// A client for the bucket in `credentials`: a custom endpoint, when one
    /// is given, is addressed path-style.
    pub fn new(credentials: S3Credentials) -> (p: S3Provider)
        ensures
            p.target.bucket@ == credentials.bucket@,
            p.target.region@ == credentials.region@,
            crate::state::ck(p.target.endpoint) == crate::state::ck(credentials.endpoint),
            p.target.path_style == (credentials.endpoint is Some),
            p.credentials == credentials,
    {
        let target = BucketTarget {
            bucket: credentials.bucket.clone(),
            region: credentials.region.clone(),
            endpoint: crate::state::clone_opt_string(&credentials.endpoint),
            path_style: credentials.endpoint.is_some(),
        };
        S3Provider { target, credentials }
    }

    /// The same client sending its requests to `url`, path-style, in region `us-east-1`.
    pub fn with_endpoints(self, url: String) -> (p: S3Provider)
        ensures
            p.target.bucket@ == self.credentials.bucket@,
            p.target.region@ == "us-east-1"@,
            p.target.endpoint is Some && p.target.endpoint->0@ == url@,
            p.target.path_style,
            p.credentials == self.credentials,
    {
        let target = BucketTarget {
            bucket: self.credentials.bucket.clone(),
            region: "us-east-1".to_owned(),
            endpoint: Some(url),
            path_style: true,
        };
        S3Provider { target, credentials: self.credentials }
    }

    /// The object key for a remote path: under the destination folder, without a leading slash.
    pub fn format_path(&self, remote_path: &str) -> (k: String)
        ensures
            k@ == spec_relative_path(
                remote_path@,
                crate::state::ck(self.credentials.common.destination_folder),
            ),
    {
        let dest = match &self.credentials.common.destination_folder {
            Some(d) => Some(d.as_str()),
            None => None,
        };
        format_relative_path(remote_path, dest)
    }

    pub fn name(&self) -> (n: &'static str)
        ensures
            n@ == "S3"@,
    {
        "S3"
    }
}

/// The S3 requests whose answers the client checks.
#[derive(Debug, Clone, Copy, PartialEq, Eq, Structural)]
pub enum S3Request {
    Upload,
    Download,
    Delete,
}

/// The statuses that mean success: 200 or 201 for an upload, 200 for a
/// download, 200 or 204 for a delete.
pub open spec fn s3_accepts(request: S3Request, status: u16) -> bool {
    match request {
        S3Request::Upload => status == 200 || status == 201,
        S3Request::Download => status == 200,
        S3Request::Delete => status == 200 || status == 204,
    }
}

pub open spec fn s3_request_word(request: S3Request) -> Seq<char> {
    match request {
        S3Request::Upload => "upload"@,
        S3Request::Download => "download"@,
        S3Request::Delete => "delete"@,
    }
}

/// The outcome of an S3 request from its status: success, or an error
/// naming the request and the status.
pub open spec fn spec_s3_outcome(request: S3Request, status: u16) -> Result<(), StorageErrorView> {
    if s3_accepts(request, status) {
        Ok(())
    } else {
        Err(StorageErrorView::Provider {
            message: "S3 "@ + s3_request_word(request) + " returned status code: "@ + crate::numbers::dec(status as nat),
            status: None,
        })
    }
}

/// Whether an S3 request succeeded, from the status it was answered with.
pub fn s3_outcome(request: S3Request, status: u16) -> (r: Result<(), StorageError>)
    ensures
        match r {
            Ok(()) => spec_s3_outcome(request, status) is Ok,
            Err(e) => spec_s3_outcome(request, status) == Err::<(), StorageErrorView>(e@),
        },
{
    let (ok, word) = match request {
        S3Request::Upload => (status == 200 || status == 201, "upload"),
        S3Request::Download => (status == 200, "download"),
        S3Request::Delete => (status == 200 || status == 204, "delete"),
    };
    if ok {
        Ok(())
    } else {
        let m = crate::text::concat_str("S3 ", word);
        let m = crate::text::concat_str(m.as_str(), " returned status code: ");
        let code = crate::numbers::decimal(status as u64);
        Err(StorageError::Provider { message: crate::text::concat_str(m.as_str(), code.as_str()), status: None })
    }
}

/// A client for SFTP servers.
pub struct SFTPProvider {
    pub creds: SFTPCredentials,
}

impl SFTPProvider {
    /// A client for the server in `creds`.
    pub fn new(creds: SFTPCredentials) -> (p: SFTPProvider)
        ensures
            p.creds == creds,
    {
        SFTPProvider { creds }
    }

    /// The port to connect to: 22 unless one is configured.
    pub fn port(&self) -> (p: u16)
        ensures
            p == match self.creds.port { Some(p) => p, None => 22 },
    {
        match self.creds.port {
            Some(p) => p,
            None => 22,
        }
    }

    /// The server path for a remote path: `dest/path` with slashes trimmed
    /// from both ends of both parts.
    pub fn resolve_remote_path(&self, remote_path: &str) -> (p: String)
        ensures
            p@ == spec_trimmed_join(remote_path@, crate::state::ck(self.creds.common.destination_folder)),
    {
        let dest = match &self.creds.common.destination_folder {
            Some(d) => Some(d.as_str()),
            None => None,
        };
        let r = trimmed_join(remote_path, dest);
        proof {
            assert(opt_str(dest) == crate::state::ck(self.creds.common.destination_folder));
        }
        r
    }

    pub fn name(&self) -> (n: &'static str)
        ensures
            n@ == "SFTP"@,
    {
        "SFTP"
    }

    /// How to sign in: with the private key when a non-empty key path is
    /// configured, else with the password; without either it cannot.
    pub fn auth_method(&self) -> (r: Result<SftpAuth, StorageError>)
        ensures
            match self.creds.private_key_path {
                Some(k) if k@.len() > 0 => r matches Ok(SftpAuth::PublicKey(p)) && p@ == k@,
                _ => match self.creds.password {
                    Some(pw) => r matches Ok(SftpAuth::Password(p)) && p@ == pw@,
                    None => r matches Err(e) && e@ == StorageErrorView::Authentication(
                        "No password or private key provided for SFTP"@,
                    ),
                },
            },
    {
        match &self.creds.private_key_path {
            Some(k) if !k.as_str().is_empty() => {
                return Ok(SftpAuth::PublicKey(k.clone()));
            },
            _ => {},
        }
        match &self.creds.password {
            Some(pw) => Ok(SftpAuth::Password(pw.clone())),
            None => Err(StorageError::Authentication("No password or private key provided for SFTP".to_owned())),
        }
    }
}

/// How an SFTP session signs in.
pub enum SftpAuth {
    /// With the private key file at this path.
    PublicKey(String),
    /// With this password.
    Password(String),
}

/// The error an SFTP operation on `remote_path` is reported as: a missing
/// file (SFTP status 2) is `NotFound` for the path, anything else a provider
/// error with the server's message.
pub fn sftp_failure(sftp_status: Option<i32>, message: &str, remote_path: &str) -> (e: StorageError)
    ensures
        sftp_status == Some(2i32) ==> e@ == StorageErrorView::NotFound(remote_path@),
        sftp_status != Some(2i32) ==> e@ == (StorageErrorView::Provider { message: message@, status: None }),
{
    match sftp_status {
        Some(2) => StorageError::NotFound(remote_path.to_owned()),
        _ => StorageError::Provider { message: message.to_owned(), status: None },
    }
}

} // verus!
