//! Client-side encryption of file contents: a key derived from a password,
//! payloads framed as nonce followed by AES-256-GCM ciphertext, and listed
//! sizes corrected for the framing.
use vstd::prelude::*;
use aes_gcm::aead::{Aead, KeyInit};
use rand::RngCore;
use crate::checksum::{sha256_digest, sha256_of};
use crate::storage::{StorageError, StorageErrorView, StorageItem};
use crate::state::{ck, clone_opt_string};
use crate::text::concat_str;

verus! {

/// Length of the nonce that starts every payload.
pub const NONCE_LEN: usize = 12;

/// Length of the authentication tag that ends every ciphertext.
pub const TAG_LEN: usize = 16;

/// Bytes a payload adds to its plaintext: nonce and tag.
pub const PAYLOAD_OVERHEAD: u64 = 28;

/// The longest plaintext AES-GCM encrypts: 2^36 bytes.
pub const MAX_PLAINTEXT: u64 = 68719476736;

/// AES-256-GCM encryption of `plaintext` under `key` and `nonce`, without
/// associated data: the ciphertext followed by the 16-byte tag.
pub uninterp spec fn gcm_seal(key: Seq<u8>, nonce: Seq<u8>, plaintext: Seq<u8>) -> Seq<u8>;

/// AES-256-GCM decryption of `ciphertext` under `key` and `nonce`: the
/// plaintext, or `None` when the tag does not authenticate it.
pub uninterp spec fn gcm_open(key: Seq<u8>, nonce: Seq<u8>, ciphertext: Seq<u8>) -> Option<Seq<u8>>;

/// `Aes256Gcm::encrypt` with a 32-byte key and a 12-byte nonce. It fails,
/// with the message `aead::Error`, exactly for plaintexts longer than 2^36
/// bytes; otherwise it returns the plaintext's length plus the 16-byte tag,
/// which `Aes256Gcm::decrypt` under the same key and nonce turns back into
/// the plaintext.
#[verifier::external_body]
fn aes_gcm_encrypt(key: &[u8], nonce: &[u8], plaintext: &[u8]) -> (r: Result<Vec<u8>, String>)
    requires
        key@.len() == 32,
        nonce@.len() == 12,
    ensures
        r is Ok <==> plaintext@.len() <= MAX_PLAINTEXT,
        r is Ok ==> r->Ok_0@ == gcm_seal(key@, nonce@, plaintext@),
        r is Ok ==> r->Ok_0@.len() == plaintext@.len() + 16,
        r is Ok ==> gcm_open(key@, nonce@, r->Ok_0@) == Some(plaintext@),
        r is Err ==> r->Err_0@ == "aead::Error"@,
{
    let cipher = aes_gcm::Aes256Gcm::new(aes_gcm::Key::<aes_gcm::Aes256Gcm>::from_slice(key));
    cipher.encrypt(aes_gcm::Nonce::from_slice(nonce), plaintext).map_err(|e| e.to_string())
}

/// `Aes256Gcm::decrypt` with a 32-byte key and a 12-byte nonce: the
/// plaintext when the tag authenticates the ciphertext, else the error
/// `aead::Error`. A ciphertext shorter than the tag never authenticates.
#[verifier::external_body]
fn aes_gcm_decrypt(key: &[u8], nonce: &[u8], ciphertext: &[u8]) -> (r: Result<Vec<u8>, String>)
    requires
        key@.len() == 32,
        nonce@.len() == 12,
    ensures
        r is Ok <==> gcm_open(key@, nonce@, ciphertext@) is Some,
        r is Ok ==> Some(r->Ok_0@) == gcm_open(key@, nonce@, ciphertext@),
        r is Err ==> r->Err_0@ == "aead::Error"@,
        ciphertext@.len() < 16 ==> r is Err,
{
    let cipher = aes_gcm::Aes256Gcm::new(aes_gcm::Key::<aes_gcm::Aes256Gcm>::from_slice(key));
    cipher.decrypt(aes_gcm::Nonce::from_slice(nonce), ciphertext).map_err(|e| e.to_string())
}

/// `rand::thread_rng().fill_bytes` on a 12-byte buffer: a fresh random nonce.
/// Nothing is said of its bytes but their number.
#[verifier::external_body]
fn random_nonce() -> (n: Vec<u8>)
    ensures
        n@.len() == NONCE_LEN,
{
    let mut bytes = vec![0u8; 12];
    rand::thread_rng().fill_bytes(&mut bytes);
    bytes
}

/// The key derived from a password: SHA-256 of its UTF-8 bytes.
pub open spec fn key_of(password: Seq<char>) -> Seq<u8> {
    sha256_of(vstd::utf8::encode_utf8(password))
}

/// The error a failed cryptographic step is reported as.
pub open spec fn crypto_error(message: Seq<char>) -> StorageErrorView {
    StorageErrorView::Provider { message, status: None }
}

pub open spec fn bytes_result(r: Result<Vec<u8>, StorageError>) -> Result<Seq<u8>, StorageErrorView> {
    match r {
        Ok(v) => Ok(v@),
        Err(e) => Err(e@),
    }
}

/// The stored form of a plaintext under a nonce: the nonce, then the ciphertext.
pub open spec fn spec_seal(key: Seq<u8>, nonce: Seq<u8>, plaintext: Seq<u8>) -> Result<Seq<u8>, StorageErrorView> {
    if plaintext.len() <= MAX_PLAINTEXT {
        Ok(nonce + gcm_seal(key, nonce, plaintext))
    } else {
        Err(crypto_error("Encryption failed: aead::Error"@))
    }
}

/// The plaintext of a stored payload, or why there is none.
pub open spec fn spec_open(key: Seq<u8>, payload: Seq<u8>) -> Result<Seq<u8>, StorageErrorView> {
    if payload.len() < NONCE_LEN {
        Err(crypto_error("Invalid encrypted file: too short"@))
    } else {
        match gcm_open(key, payload.take(NONCE_LEN as int), payload.skip(NONCE_LEN as int)) {
            Some(p) => Ok(p),
            None => Err(crypto_error("Decryption failed: aead::Error"@)),
        }
    }
}

/// Encryption around a backend: the key and the name it is shown under.
pub struct EncryptedBackend {
    /// The AES-256 key.
    pub key: Vec<u8>,
    /// `Encrypted(<inner name>)`.
    pub name: String,
}

impl EncryptedBackend {
    pub open spec fn wf(&self) -> bool {
        self.key@.len() == 32
    }

    /// Encryption for the backend named `inner_name`, keyed by `password`.
    pub fn new(inner_name: &str, password: &str) -> (b: EncryptedBackend)
        ensures
            b.wf(),
            b.key@ == key_of(password@),
            b.name@ == "Encrypted("@ + inner_name@ + ")"@,
    {
        let key = sha256_digest(password.as_bytes());
        let name = concat_str("Encrypted(", inner_name);
        let name = concat_str(name.as_str(), ")");
        EncryptedBackend { key, name }
    }

    /// The payload stored for `plaintext` under `nonce`.
    pub fn seal(&self, nonce: &[u8], plaintext: &[u8]) -> (r: Result<Vec<u8>, StorageError>)
        requires
            self.wf(),
            nonce@.len() == NONCE_LEN,
        ensures
            bytes_result(r) == spec_seal(self.key@, nonce@, plaintext@),
            r is Ok ==> r->Ok_0@.len() == plaintext@.len() + PAYLOAD_OVERHEAD,
            r is Ok ==> spec_open(self.key@, r->Ok_0@) == Ok::<Seq<u8>, StorageErrorView>(plaintext@),
    {
        match aes_gcm_encrypt(self.key.as_slice(), nonce, plaintext) {
            Ok(ct) => {
                let mut payload: Vec<u8> = Vec::new();
                let mut i: usize = 0;
                while i < nonce.len()
                    invariant
                        i <= nonce@.len(),
                        payload@ == nonce@.take(i as int),
                    decreases nonce.len() - i,
                {
                    payload.push(nonce[i]);
                    assert(nonce@.take(i as int + 1) =~= nonce@.take(i as int).push(nonce@[i as int]));
                    i = i + 1;
                }
                let mut j: usize = 0;
                while j < ct.len()
                    invariant
                        j <= ct@.len(),
                        payload@ == nonce@ + ct@.take(j as int),
                    decreases ct.len() - j,
                {
                    payload.push(ct[j]);
                    assert(ct@.take(j as int + 1) =~= ct@.take(j as int).push(ct@[j as int]));
                    j = j + 1;
                }
                assert(nonce@.take(nonce@.len() as int) =~= nonce@);
                assert(ct@.take(ct@.len() as int) =~= ct@);
                proof { lemma_open_undoes_seal(self.key@, nonce@, plaintext@); }
                Ok(payload)
            },
            Err(e) => {
                let message = concat_str("Encryption failed: ", e.as_str());
                proof {
                    reveal_strlit("Encryption failed: ");
                    reveal_strlit("aead::Error");
                    reveal_strlit("Encryption failed: aead::Error");
                    assert(message@ =~= "Encryption failed: aead::Error"@);
                }
                Err(StorageError::Provider { message, status: None })
            },
        }
    }

    /// The plaintext of a stored payload.
    pub fn open(&self, payload: &[u8]) -> (r: Result<Vec<u8>, StorageError>)
        requires
            self.wf(),
        ensures
            bytes_result(r) == spec_open(self.key@, payload@),
    {
        if payload.len() < NONCE_LEN {
            return Err(StorageError::Provider {
                message: "Invalid encrypted file: too short".to_owned(),
                status: None,
            });
        }
        let nonce = vstd::slice::slice_subrange(payload, 0, NONCE_LEN);
        let ct = vstd::slice::slice_subrange(payload, NONCE_LEN, payload.len());
        assert(nonce@ =~= payload@.take(NONCE_LEN as int));
        assert(ct@ =~= payload@.skip(NONCE_LEN as int));
        match aes_gcm_decrypt(self.key.as_slice(), nonce, ct) {
            Ok(p) => Ok(p),
            Err(e) => {
                let message = concat_str("Decryption failed: ", e.as_str());
                proof {
                    reveal_strlit("Decryption failed: ");
                    reveal_strlit("aead::Error");
                    reveal_strlit("Decryption failed: aead::Error");
                    assert(message@ =~= "Decryption failed: aead::Error"@);
                }
                Err(StorageError::Provider { message, status: None })
            },
        }
    }

    /// The payload for uploading `plaintext`, under a fresh random nonce.
    /// Whatever nonce is drawn, opening the payload gives the plaintext back.
    pub fn encrypt_for_upload(&self, plaintext: &[u8]) -> (r: Result<Vec<u8>, StorageError>)
        requires
            self.wf(),
        ensures
            plaintext@.len() <= MAX_PLAINTEXT <==> r is Ok,
            r is Ok ==> r->Ok_0@.len() == plaintext@.len() + PAYLOAD_OVERHEAD,
            r is Ok ==> spec_open(self.key@, r->Ok_0@) == Ok::<Seq<u8>, StorageErrorView>(plaintext@),
            r is Err ==> r->Err_0@ == crypto_error("Encryption failed: aead::Error"@),
    {
        let nonce = random_nonce();
        self.seal(nonce.as_slice(), plaintext)
    }
}

/// The framing undoes itself: when AES-GCM opens what it sealed, opening the
/// stored payload gives the plaintext back.
proof fn lemma_open_undoes_seal(key: Seq<u8>, nonce: Seq<u8>, plaintext: Seq<u8>)
    requires
        key.len() == 32,
        nonce.len() == NONCE_LEN,
        plaintext.len() <= MAX_PLAINTEXT,
        gcm_open(key, nonce, gcm_seal(key, nonce, plaintext)) == Some(plaintext),
    ensures
        spec_seal(key, nonce, plaintext) is Ok,
        spec_open(key, spec_seal(key, nonce, plaintext)->Ok_0) == Ok::<Seq<u8>, StorageErrorView>(plaintext),
{
    let payload = nonce + gcm_seal(key, nonce, plaintext);
    assert(payload.take(NONCE_LEN as int) =~= nonce);
    assert(payload.skip(NONCE_LEN as int) =~= gcm_seal(key, nonce, plaintext));
}

/// The size a listing reports for the plaintext of a stored file: the
/// framing is taken off files (never below zero), directories stay as listed.
pub open spec fn plain_size(item_size: u64, is_dir: bool) -> u64 {
    if is_dir {
        item_size
    } else if item_size >= PAYLOAD_OVERHEAD {
        (item_size - PAYLOAD_OVERHEAD) as u64
    } else {
        0
    }
}

/// A listing of the backend with sizes as the plaintexts have them.
pub fn plain_listing(items: Vec<StorageItem>) -> (r: Vec<StorageItem>)
    ensures
        r@.len() == items@.len(),
        forall|i: int| 0 <= i < r@.len() ==> {
            &&& (#[trigger] r@[i]).size == plain_size(items@[i].size, items@[i].is_dir)
            &&& r@[i].path@ == items@[i].path@
            &&& r@[i].modified == items@[i].modified
            &&& r@[i].is_dir == items@[i].is_dir
            &&& ck(r@[i].checksum) == ck(items@[i].checksum)
        },
{
    let mut r: Vec<StorageItem> = Vec::new();
    let n = items.len();
    let mut i: usize = 0;
    while i < n
        invariant
            n == items@.len(),
            i <= n,
            r@.len() == i,
            forall|k: int| 0 <= k < i ==> {
                &&& (#[trigger] r@[k]).size == plain_size(items@[k].size, items@[k].is_dir)
                &&& r@[k].path@ == items@[k].path@
                &&& r@[k].modified == items@[k].modified
                &&& r@[k].is_dir == items@[k].is_dir
                &&& ck(r@[k].checksum) == ck(items@[k].checksum)
            },
        decreases n - i,
    {
        let item = &items[i];
        let size = if item.is_dir { item.size } else { item.size.saturating_sub(PAYLOAD_OVERHEAD) };
        r.push(StorageItem {
            path: item.path.clone(),
            size,
            modified: item.modified,
            is_dir: item.is_dir,
            checksum: clone_opt_string(&item.checksum),
        });
        i = i + 1;
    }
    r
}

} // verus!
