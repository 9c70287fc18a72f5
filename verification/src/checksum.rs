//! File checksums in the forms providers compare: SHA-256, SHA-1 and MD5 in
//! lowercase hexadecimal, and Dropbox's content hash.
use vstd::prelude::*;
use sha2::Digest;

verus! {

/// The SHA-256 digest of a byte string (FIPS 180-4).
pub uninterp spec fn sha256_of(data: Seq<u8>) -> Seq<u8>;

/// The SHA-1 digest of a byte string (FIPS 180-4).
pub uninterp spec fn sha1_of(data: Seq<u8>) -> Seq<u8>;

/// The MD5 digest of a byte string (RFC 1321).
pub uninterp spec fn md5_of(data: Seq<u8>) -> Seq<u8>;

/// `sha2::Sha256::digest`: the 32-byte SHA-256 digest of the data.
#[verifier::external_body]
pub(crate) fn sha256_digest(data: &[u8]) -> (d: Vec<u8>)
    ensures
        d@ == sha256_of(data@),
        d@.len() == 32,
{
    sha2::Sha256::digest(data).to_vec()
}

/// `sha1::Sha1::digest`: the 20-byte SHA-1 digest of the data.
#[verifier::external_body]
fn sha1_digest(data: &[u8]) -> (d: Vec<u8>)
    ensures
        d@ == sha1_of(data@),
        d@.len() == 20,
{
    sha1::Sha1::digest(data).to_vec()
}

/// `md5::compute`: the 16-byte MD5 digest of the data.
#[verifier::external_body]
fn md5_digest(data: &[u8]) -> (d: Vec<u8>)
    ensures
        d@ == md5_of(data@),
        d@.len() == 16,
{
    md5::compute(data).0.to_vec()
}

/// A lowercase hexadecimal digit.
pub open spec fn hex_digit(n: int) -> char {
    if n < 10 {
        if n == 0 { '0' } else if n == 1 { '1' } else if n == 2 { '2' } else if n == 3 { '3' }
        else if n == 4 { '4' } else if n == 5 { '5' } else if n == 6 { '6' } else if n == 7 { '7' }
        else if n == 8 { '8' } else { '9' }
    } else {
        if n == 10 { 'a' } else if n == 11 { 'b' } else if n == 12 { 'c' } else if n == 13 { 'd' }
        else if n == 14 { 'e' } else { 'f' }
    }
}

/// Bytes in lowercase hexadecimal, two digits each (`{:x}` of a digest).
pub open spec fn hex_of(bytes: Seq<u8>) -> Seq<char>
    decreases bytes.len(),
{
    if bytes.len() == 0 {
        Seq::empty()
    } else {
        hex_of(bytes.drop_last()) + seq![hex_digit((bytes.last() / 16) as int), hex_digit((bytes.last() % 16) as int)]
    }
}

fn hex_char(n: u8) -> (c: char)
    requires
        n < 16,
    ensures
        c == hex_digit(n as int),
{
    if n == 0 { '0' } else if n == 1 { '1' } else if n == 2 { '2' } else if n == 3 { '3' }
    else if n == 4 { '4' } else if n == 5 { '5' } else if n == 6 { '6' } else if n == 7 { '7' }
    else if n == 8 { '8' } else if n == 9 { '9' } else if n == 10 { 'a' } else if n == 11 { 'b' }
    else if n == 12 { 'c' } else if n == 13 { 'd' } else if n == 14 { 'e' } else { 'f' }
}

/// Lowercase hexadecimal of a byte string.
pub fn hex_lower(bytes: &[u8]) -> (s: String)
    ensures
        s@ == hex_of(bytes@),
{
    let mut s = String::new();
    let mut i: usize = 0;
    while i < bytes.len()
        invariant
            i <= bytes@.len(),
            s@ == hex_of(bytes@.take(i as int)),
        decreases bytes.len() - i,
    {
        let b = bytes[i];
        s.push(hex_char(b / 16));
        s.push(hex_char(b % 16));
        proof {
            assert(bytes@.take(i as int + 1).drop_last() =~= bytes@.take(i as int));
            assert(bytes@.take(i as int + 1).last() == b);
            assert(s@ =~= hex_of(bytes@.take(i as int + 1)));
        }
        i = i + 1;
    }
    assert(bytes@.take(bytes@.len() as int) =~= bytes@);
    s
}

/// SHA-256 checksum of a file's contents, in lowercase hexadecimal.
pub fn compute_sha256(data: &[u8]) -> (s: String)
    ensures
        s@ == hex_of(sha256_of(data@)),
{
    let d = sha256_digest(data);
    hex_lower(d.as_slice())
}

/// SHA-1 checksum of a file's contents, in lowercase hexadecimal.
pub fn compute_sha1(data: &[u8]) -> (s: String)
    ensures
        s@ == hex_of(sha1_of(data@)),
{
    let d = sha1_digest(data);
    hex_lower(d.as_slice())
}

/// MD5 checksum of a file's contents, in lowercase hexadecimal.
pub fn compute_md5(data: &[u8]) -> (s: String)
    ensures
        s@ == hex_of(md5_of(data@)),
{
    let d = md5_digest(data);
    hex_lower(d.as_slice())
}

/// The block size of Dropbox's content hash: 4 MiB.
pub const DROPBOX_BLOCK: usize = 4194304;

/// The SHA-256 digests of the data's consecutive 4 MiB blocks (the last one
/// possibly shorter), one after the other.
pub open spec fn block_digests(data: Seq<u8>) -> Seq<u8>
    decreases data.len(),
{
    if data.len() == 0 {
        Seq::empty()
    } else if data.len() <= DROPBOX_BLOCK {
        sha256_of(data)
    } else {
        sha256_of(data.take(DROPBOX_BLOCK as int)) + block_digests(data.skip(DROPBOX_BLOCK as int))
    }
}

/// Dropbox's `content_hash`: SHA-256 of the block digests, in lowercase hexadecimal.
pub open spec fn dropbox_hash(data: Seq<u8>) -> Seq<char> {
    hex_of(sha256_of(block_digests(data)))
}

/// Dropbox's content hash of a file's contents.
pub fn compute_dropbox_hash(data: &[u8]) -> (s: String)
    ensures
        s@ == dropbox_hash(data@),
{
    let n = data.len();
    let mut digests: Vec<u8> = Vec::new();
    let mut off: usize = 0;
    assert(data@.skip(0) =~= data@);
    assert(digests@ + block_digests(data@) =~= block_digests(data@));
    while off < n
        invariant
            off <= n == data@.len(),
            digests@ + block_digests(data@.skip(off as int)) == block_digests(data@),
        decreases n - off,
    {
        let end = if n - off <= DROPBOX_BLOCK { n } else { off + DROPBOX_BLOCK };
        let block = vstd::slice::slice_subrange(data, off, end);
        let d = sha256_digest(block);
        let ghost rest = data@.skip(off as int);
        proof {
            if n - off <= DROPBOX_BLOCK {
                assert(block@ =~= rest);
                assert(data@.skip(end as int) =~= Seq::<u8>::empty());
            } else {
                assert(block@ =~= rest.take(DROPBOX_BLOCK as int));
                assert(rest.skip(DROPBOX_BLOCK as int) =~= data@.skip(end as int));
            }
            assert(block_digests(data@.skip(end as int)) == block_digests(rest.skip((end - off) as int)));
        }
        let ghost before = digests@;
        let mut k: usize = 0;
        while k < d.len()
            invariant
                k <= d@.len(),
                digests@ == before + d@.take(k as int),
            decreases d.len() - k,
        {
            digests.push(d[k]);
            assert(d@.take(k as int + 1) =~= d@.take(k as int).push(d@[k as int]));
            k = k + 1;
        }
        proof {
            assert(d@.take(d@.len() as int) =~= d@);
            assert(block_digests(rest) == d@ + block_digests(data@.skip(end as int)));
            assert(digests@ + block_digests(data@.skip(end as int)) =~= before + block_digests(rest));
        }
        off = end;
    }
    assert(data@.skip(n as int) =~= Seq::<u8>::empty());
    assert(digests@ + block_digests(Seq::<u8>::empty()) =~= digests@);
    let top = sha256_digest(digests.as_slice());
    hex_lower(top.as_slice())
}

} // verus!
