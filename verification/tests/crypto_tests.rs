use sha2::Digest;
use cloud_sync::checksum::{compute_dropbox_hash, compute_md5, compute_sha1, compute_sha256, hex_lower};
use cloud_sync::crypto::{plain_listing, EncryptedBackend};
use cloud_sync::storage::{StorageError, StorageItem};

#[test]
fn known_digests() {
    assert_eq!(compute_sha256(b"abc"), "ba7816bf8f01cfea414140de5dae2223b00361a396177a9cb410ff61f20015ad");
    assert_eq!(compute_sha256(b""), "e3b0c44298fc1c149afbf4c8996fb92427ae41e4649b934ca495991b7852b855");
    assert_eq!(compute_sha1(b"abc"), "a9993e364706816aba3e25717850c26c9cd0d89d");
    assert_eq!(compute_md5(b"abc"), "900150983cd24fb0d6963f7d28e17f72");
    assert_eq!(hex_lower(&[0x00, 0x0f, 0xa0, 0xff]), "000fa0ff");
}

#[test]
fn dropbox_hash_hashes_block_digests() {
    // No data: the hash of no block digests.
    assert_eq!(compute_dropbox_hash(b""), compute_sha256(b""));
    // One block: the hash of that block's digest.
    let inner = sha2::Sha256::digest(b"hello");
    assert_eq!(compute_dropbox_hash(b"hello"), compute_sha256(&inner));
    // Two blocks: 4 MiB and one byte.
    let mut data = vec![7u8; 4 * 1024 * 1024];
    data.push(1);
    let mut digests = sha2::Sha256::digest(&data[..4 * 1024 * 1024]).to_vec();
    digests.extend_from_slice(&sha2::Sha256::digest(&data[4 * 1024 * 1024..]));
    assert_eq!(compute_dropbox_hash(&data), compute_sha256(&digests));
}

#[test]
fn test_encrypted_backend_flow() {
    let enc = EncryptedBackend::new("MockRemote", "supersecretpassword");
    assert_eq!(enc.name, "Encrypted(MockRemote)");
    let plaintext = b"Hello, Zero-Knowledge Sync World!";
    let payload = enc.encrypt_for_upload(plaintext).unwrap();
    assert_eq!(payload.len(), plaintext.len() + 28);
    assert_ne!(&payload[12..12 + plaintext.len()], &plaintext[..]);
    let back = enc.open(&payload).unwrap();
    assert_eq!(back, plaintext.to_vec());
}

#[test]
fn key_is_sha256_of_password() {
    let enc = EncryptedBackend::new("X", "pw");
    assert_eq!(enc.key, sha2::Sha256::digest(b"pw").to_vec());
}

#[test]
fn sealing_is_deterministic_under_a_nonce() {
    let enc = EncryptedBackend::new("X", "pw");
    let nonce = [3u8; 12];
    let a = enc.seal(&nonce, b"data").unwrap();
    let b = enc.seal(&nonce, b"data").unwrap();
    assert_eq!(a, b);
    assert_eq!(&a[..12], &nonce);
    assert_eq!(enc.open(&a).unwrap(), b"data".to_vec());
}

#[test]
fn opening_rejects_short_tampered_or_foreign_payloads() {
    let enc = EncryptedBackend::new("X", "pw");
    match enc.open(&[0u8; 11]) {
        Err(StorageError::Provider { message, status }) => {
            assert_eq!(message, "Invalid encrypted file: too short");
            assert_eq!(status, None);
        }
        other => panic!("unexpected {:?}", other),
    }
    let mut payload = enc.seal(&[1u8; 12], b"secret").unwrap();
    let last = payload.len() - 1;
    payload[last] ^= 1;
    match enc.open(&payload) {
        Err(StorageError::Provider { message, .. }) => assert_eq!(message, "Decryption failed: aead::Error"),
        other => panic!("unexpected {:?}", other),
    }
    let other = EncryptedBackend::new("X", "other");
    let payload = enc.seal(&[1u8; 12], b"secret").unwrap();
    assert!(other.open(&payload).is_err());
    assert!(enc.open(&[0u8; 12]).is_err());
}

#[test]
fn listed_sizes_lose_the_framing() {
    let item = |size, is_dir| StorageItem { path: "p".to_string(), size, modified: 5, is_dir, checksum: None };
    let out = plain_listing(vec![item(100, false), item(10, false), item(4096, true)]);
    assert_eq!(out.iter().map(|i| i.size).collect::<Vec<_>>(), vec![72, 0, 4096]);
    assert_eq!(out[0].path, "p");
    assert_eq!(out[0].modified, 5);
}
