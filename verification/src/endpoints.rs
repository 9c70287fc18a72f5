//! Service addresses of providers: Nextcloud's WebDAV root, the IPFS
//! pinning service and gateway, pCloud's API and OneDrive's drive items.
use vstd::prelude::*;
use crate::text::{chars_of, concat_str, trim_end, trim_start, trim_start_str};

verus! {

fn without_trailing_slashes(s: &str) -> (r: String)
    ensures
        r@ == trim_end(s@, '/'),
{
    let cs = chars_of(s);
    let end = crate::text::skip_trailing(cs.as_slice(), 0, cs.len(), '/');
    assert(cs@.subrange(0, cs@.len() as int) =~= cs@);
    crate::text::string_from_range(cs.as_slice(), 0, end)
}

/// Nextcloud's WebDAV root for a user: the server address without trailing
/// slashes, then `/remote.php/dav/files/<user>`.
pub fn nextcloud_base_url(url: &str, username: &str) -> (r: String)
    ensures
        r@ == trim_end(url@, '/') + "/remote.php/dav/files/"@ + username@,
{
    let base = without_trailing_slashes(url);
    let r = concat_str(base.as_str(), "/remote.php/dav/files/");
    concat_str(r.as_str(), username)
}

/// The pinning service's address: a configured endpoint without trailing
/// slashes, or Pinata's.
pub fn ipfs_api_url(endpoint: &Option<String>) -> (r: String)
    ensures
        match endpoint {
            Some(e) => r@ == trim_end(e@, '/'),
            None => r@ == "https://api.pinata.cloud"@,
        },
{
    match endpoint {
        Some(e) => without_trailing_slashes(e.as_str()),
        None => "https://api.pinata.cloud".to_owned(),
    }
}

/// The gateway serving pinned files: a configured one, or Pinata's.
pub fn ipfs_gateway_url(gateway: &Option<String>) -> (r: String)
    ensures
        match gateway {
            Some(g) => r@ == g@,
            None => r@ == "https://gateway.pinata.cloud/ipfs/"@,
        },
{
    match gateway {
        Some(g) => g.clone(),
        None => "https://gateway.pinata.cloud/ipfs/".to_owned(),
    }
}

/// The gateway address of a pinned file: the gateway and the content
/// identifier, separated by exactly the one slash the gateway may lack.
pub fn gateway_file_url(gateway: &str, cid: &str) -> (r: String)
    ensures
        gateway@.len() > 0 && gateway@.last() == '/' ==> r@ == gateway@ + cid@,
        !(gateway@.len() > 0 && gateway@.last() == '/') ==> r@ == gateway@ + "/"@ + cid@,
{
    let cs = chars_of(gateway);
    if cs.len() > 0 && cs[cs.len() - 1] == '/' {
        concat_str(gateway, cid)
    } else {
        let r = concat_str(gateway, "/");
        concat_str(r.as_str(), cid)
    }
}

/// pCloud's API address: a configured endpoint without trailing slashes,
/// or pCloud's own.
pub fn pcloud_api_url(endpoint: &Option<String>) -> (r: String)
    ensures
        match endpoint {
            Some(e) => r@ == trim_end(e@, '/'),
            None => r@ == "https://api.pcloud.com"@,
        },
{
    match endpoint {
        Some(e) => without_trailing_slashes(e.as_str()),
        None => "https://api.pcloud.com".to_owned(),
    }
}

/// The Graph address that lists a folder of the drive: the root's children,
/// or those of `root:/path:` for any other folder.
pub open spec fn spec_onedrive_list_url(remote_path: Seq<char>) -> Seq<char> {
    let p = trim_start(remote_path, '/');
    if p.len() == 0 {
        "https://graph.microsoft.com/v1.0/me/drive/root/children"@
    } else {
        "https://graph.microsoft.com/v1.0/me/drive/root:/"@ + p + ":/children"@
    }
}

/// The address that lists `remote_path` on OneDrive.
pub fn onedrive_list_url(remote_path: &str) -> (u: String)
    ensures
        u@ == spec_onedrive_list_url(remote_path@),
{
    let p = trim_start_str(remote_path, '/');
    if p.as_str().is_empty() {
        "https://graph.microsoft.com/v1.0/me/drive/root/children".to_owned()
    } else {
        let u = concat_str("https://graph.microsoft.com/v1.0/me/drive/root:/", p.as_str());
        concat_str(u.as_str(), ":/children")
    }
}

/// The Graph address of the drive item at `remote_path`, the one a delete
/// goes to.
pub open spec fn spec_onedrive_item_url(remote_path: Seq<char>) -> Seq<char> {
    "https://graph.microsoft.com/v1.0/me/drive/root:/"@ + trim_start(remote_path, '/')
}

/// The address of the drive item at `remote_path`.
pub fn onedrive_item_url(remote_path: &str) -> (u: String)
    ensures
        u@ == spec_onedrive_item_url(remote_path@),
{
    let p = trim_start_str(remote_path, '/');
    concat_str("https://graph.microsoft.com/v1.0/me/drive/root:/", p.as_str())
}

/// The address of the content of the drive item at `remote_path`, the one
/// uploads and downloads go to.
pub fn onedrive_content_url(remote_path: &str) -> (u: String)
    ensures
        u@ == spec_onedrive_item_url(remote_path@) + ":/content"@,
{
    let item = onedrive_item_url(remote_path);
    concat_str(item.as_str(), ":/content")
}

} // verus!
