//! Azure Blob Storage: the service address, Shared Key request signing, and
//! the reading of blob listings.
use vstd::prelude::*;
use base64::Engine;
use hmac::Mac;
use crate::numbers::{dec, decimal};
use crate::paths::{format_relative_path, spec_relative_path};
use crate::settings::AzureBlobCredentials;
use crate::state::ck;
use crate::storage::{StorageError, StorageErrorView};
use crate::xml::{events_view, first_stop, is_stop, xml_event_seq, xml_events, XmlEvent, XmlEventView};
use crate::text::{chars_of, concat_str, string_from_chars, trim_end, trim_start, trim_ws};

verus! {

/// Lexicographic order of character sequences (the order of `str::cmp`).
pub open spec fn seq_le(a: Seq<char>, b: Seq<char>) -> bool
    decreases a.len(),
{
    if a.len() == 0 {
        true
    } else if b.len() == 0 {
        false
    } else if a[0] != b[0] {
        a[0] < b[0]
    } else {
        seq_le(a.drop_first(), b.drop_first())
    }
}

fn chars_le(a: &[char], b: &[char]) -> (r: bool)
    ensures
        r == seq_le(a@, b@),
{
    let mut i: usize = 0;
    assert(a@.skip(0) =~= a@);
    assert(b@.skip(0) =~= b@);
    while i < a.len() && i < b.len() && a[i] == b[i]
        invariant
            i <= a@.len(),
            i <= b@.len(),
            seq_le(a@, b@) == seq_le(a@.skip(i as int), b@.skip(i as int)),
        decreases a.len() - i,
    {
        assert(a@.skip(i as int).drop_first() =~= a@.skip(i as int + 1));
        assert(b@.skip(i as int).drop_first() =~= b@.skip(i as int + 1));
        i = i + 1;
    }
    if i == a.len() {
        true
    } else if i == b.len() {
        false
    } else {
        a[i] < b[i]
    }
}

/// A key and a value, as plain text.
pub open spec fn pair_view(p: (String, String)) -> (Seq<char>, Seq<char>) {
    (p.0@, p.1@)
}

pub open spec fn pairs_view(v: Seq<(String, String)>) -> Seq<(Seq<char>, Seq<char>)> {
    v.map_values(|p: (String, String)| pair_view(p))
}

/// Where a stable sort by key puts `x` in the sorted `s`: after every entry
/// whose key is not greater.
pub open spec fn insert_pos(s: Seq<(Seq<char>, Seq<char>)>, x: (Seq<char>, Seq<char>)) -> int
    decreases s.len(),
{
    if s.len() == 0 {
        0
    } else if seq_le(s.last().0, x.0) {
        s.len() as int
    } else {
        insert_pos(s.drop_last(), x)
    }
}

/// The entries sorted by key, entries with equal keys in their first order
/// (`slice::sort_by` on the keys).
pub open spec fn sort_by_key(s: Seq<(Seq<char>, Seq<char>)>) -> Seq<(Seq<char>, Seq<char>)>
    decreases s.len(),
{
    if s.len() == 0 {
        s
    } else {
        let r = sort_by_key(s.drop_last());
        r.insert(insert_pos(r, s.last()), s.last())
    }
}

/// The place of a new entry lies within the sequence.
pub proof fn lemma_insert_pos_bound(s: Seq<(Seq<char>, Seq<char>)>, x: (Seq<char>, Seq<char>))
    ensures
        0 <= insert_pos(s, x) <= s.len(),
    decreases s.len(),
{
    if s.len() > 0 && !seq_le(s.last().0, x.0) {
        lemma_insert_pos_bound(s.drop_last(), x);
    }
}

/// Sorts key-value pairs by key, stably.
fn sort_pairs(v: Vec<(String, String)>) -> (r: Vec<(String, String)>)
    ensures
        pairs_view(r@) == sort_by_key(pairs_view(v@)),
{
    let mut r: Vec<(String, String)> = Vec::new();
    let n = v.len();
    let mut i: usize = 0;
    assert(pairs_view(v@).take(0) =~= Seq::<(Seq<char>, Seq<char>)>::empty());
    assert(pairs_view(r@) =~= Seq::<(Seq<char>, Seq<char>)>::empty());
    while i < n
        invariant
            i <= n == v@.len(),
            pairs_view(r@) == sort_by_key(pairs_view(v@).take(i as int)),
        decreases n - i,
    {
        let x = (v[i].0.clone(), v[i].1.clone());
        let ghost xv = pair_view(x);
        let ghost rv = pairs_view(r@);
        let kx = chars_of(x.0.as_str());
        let mut j = r.len();
        assert(rv.take(j as int) =~= rv);
        while j > 0 && !chars_le(chars_of(r[j - 1].0.as_str()).as_slice(), kx.as_slice())
            invariant
                j <= r@.len(),
                rv == pairs_view(r@),
                kx@ == xv.0,
                insert_pos(rv, xv) == insert_pos(rv.take(j as int), xv),
            decreases j,
        {
            assert(rv.take(j as int).drop_last() =~= rv.take(j as int - 1));
            assert(rv.take(j as int).last() == rv[j as int - 1]);
            j = j - 1;
        }
        proof {
            if j > 0 {
                assert(rv.take(j as int).last() == rv[j as int - 1]);
            }
            assert(insert_pos(rv.take(j as int), xv) == j);
            assert(pairs_view(v@).take(i as int + 1).drop_last() =~= pairs_view(v@).take(i as int));
            assert(pairs_view(v@).take(i as int + 1).last() == xv);
        }
        r.insert(j, x);
        proof {
            assert(pairs_view(r@) =~= rv.insert(j as int, xv));
        }
        i = i + 1;
    }
    assert(pairs_view(v@).take(n as int) =~= pairs_view(v@));
    r
}

} // verus!

verus! {

/// `str::to_lowercase`: the Unicode lowercase of a text.
pub uninterp spec fn lowercase_of(s: Seq<char>) -> Seq<char>;

/// `str::to_uppercase`: the Unicode uppercase of a text.
pub uninterp spec fn uppercase_of(s: Seq<char>) -> Seq<char>;

/// Every character is ASCII.
pub open spec fn is_ascii_text(s: Seq<char>) -> bool {
    forall|i: int| 0 <= i < s.len() ==> (#[trigger] s[i]) as int <= 127
}

/// ASCII lowercase of one character: `A`..`Z` become `a`..`z`, the rest stays.
pub open spec fn ascii_lower_char(c: char) -> char {
    if 'A' <= c && c <= 'Z' { ((c as int) + 32) as char } else { c }
}

/// ASCII uppercase of one character: `a`..`z` become `A`..`Z`, the rest stays.
pub open spec fn ascii_upper_char(c: char) -> char {
    if 'a' <= c && c <= 'z' { ((c as int) - 32) as char } else { c }
}

pub open spec fn ascii_lower(s: Seq<char>) -> Seq<char> {
    s.map_values(|c: char| ascii_lower_char(c))
}

pub open spec fn ascii_upper(s: Seq<char>) -> Seq<char> {
    s.map_values(|c: char| ascii_upper_char(c))
}

/// The lowercase of a header name: the ASCII lowercase of an ASCII name.
pub open spec fn name_lower(s: Seq<char>) -> Seq<char> {
    if is_ascii_text(s) { ascii_lower(s) } else { lowercase_of(s) }
}

/// The uppercase of a verb: the ASCII uppercase of an ASCII verb.
pub open spec fn verb_upper(s: Seq<char>) -> Seq<char> {
    if is_ascii_text(s) { ascii_upper(s) } else { uppercase_of(s) }
}

/// `str::to_lowercase`, as the standard library defines it: each character
/// takes its Unicode lowercase mapping, under which the ASCII letters `A`..`Z`
/// map to `a`..`z` and the other ASCII characters have no case mapping.
#[verifier::external_body]
fn lowercase(s: &str) -> (r: String)
    ensures
        r@ == lowercase_of(s@),
        is_ascii_text(s@) ==> r@ == ascii_lower(s@),
{
    s.to_lowercase()
}

/// `str::to_uppercase`, as the standard library defines it: each character
/// takes its Unicode uppercase mapping, under which the ASCII letters `a`..`z`
/// map to `A`..`Z` and the other ASCII characters have no case mapping.
#[verifier::external_body]
fn uppercase(s: &str) -> (r: String)
    ensures
        r@ == uppercase_of(s@),
        is_ascii_text(s@) ==> r@ == ascii_upper(s@),
{
    s.to_uppercase()
}

pub open spec fn has_prefix(s: Seq<char>, p: Seq<char>) -> bool {
    p.len() <= s.len() && s.take(p.len() as int) == p
}

/// The `x-ms-` headers of a request, names lowercased and values trimmed, in order.
pub open spec fn ms_headers(hs: Seq<(Seq<char>, Seq<char>)>) -> Seq<(Seq<char>, Seq<char>)>
    decreases hs.len(),
{
    if hs.len() == 0 {
        Seq::empty()
    } else {
        let rest = ms_headers(hs.drop_last());
        let k = name_lower(hs.last().0);
        if has_prefix(k, "x-ms-"@) { rest.push((k, trim_ws(hs.last().1))) } else { rest }
    }
}

/// One `name:value` line per header.
pub open spec fn header_lines(s: Seq<(Seq<char>, Seq<char>)>) -> Seq<char>
    decreases s.len(),
{
    if s.len() == 0 {
        Seq::empty()
    } else {
        header_lines(s.drop_last()) + s.last().0 + ":"@ + s.last().1 + "\n"@
    }
}

/// One `\nname:value` entry per query parameter.
pub open spec fn param_lines(s: Seq<(Seq<char>, Seq<char>)>) -> Seq<char>
    decreases s.len(),
{
    if s.len() == 0 {
        Seq::empty()
    } else {
        param_lines(s.drop_last()) + "\n"@ + s.last().0 + ":"@ + s.last().1
    }
}

/// The first position of a character in a text.
pub open spec fn index_of(s: Seq<char>, c: char) -> Option<int> {
    crate::box_auth::find_from(s, seq![c], 0)
}

/// A query parameter split at its first `=` (the value is empty without one).
pub open spec fn key_value(part: Seq<char>) -> (Seq<char>, Seq<char>) {
    match index_of(part, '=') {
        Some(e) => (part.take(e), part.skip(e + 1)),
        None => (part, Seq::empty()),
    }
}

/// The query parameters after the first `?`, in order.
pub open spec fn query_params(pq: Seq<char>) -> Seq<(Seq<char>, Seq<char>)> {
    match index_of(pq, '?') {
        Some(i) => crate::text::spec_split(pq.skip(i + 1), '&').map_values(|p: Seq<char>| key_value(p)),
        None => Seq::empty(),
    }
}

/// The path before the first `?`.
pub open spec fn resource_path(pq: Seq<char>) -> Seq<char> {
    match index_of(pq, '?') {
        Some(i) => pq.take(i),
        None => pq,
    }
}

/// Shared Key's canonicalized resource: account, container, blob path and
/// the query parameters sorted by name.
pub open spec fn canonical_resource(account: Seq<char>, container: Seq<char>, pq: Seq<char>) -> Seq<char> {
    let rp = resource_path(pq);
    let base = "/"@ + account + "/"@ + container;
    let with_path = if rp != "/"@ && rp.len() > 0 { base + "/"@ + trim_start(rp, '/') } else { base };
    with_path + param_lines(sort_by_key(query_params(pq)))
}

/// The text Shared Key signs.
pub open spec fn string_to_sign(
    verb: Seq<char>,
    content_length: Option<u64>,
    content_type: Option<Seq<char>>,
    headers: Seq<(Seq<char>, Seq<char>)>,
    account: Seq<char>,
    container: Seq<char>,
    pq: Seq<char>,
) -> Seq<char> {
    let cl = match content_length { Some(n) => dec(n as nat), None => Seq::empty() };
    let ct = match content_type { Some(t) => t, None => Seq::empty() };
    verb_upper(verb) + "\n\n\n"@ + cl + "\n\n"@ + ct + "\n\n\n\n\n\n\n"@
        + header_lines(sort_by_key(ms_headers(headers))) + canonical_resource(account, container, pq)
}

fn push_str(out: &mut String, s: &str)
    ensures
        final(out)@ == old(out)@ + s@,
{
    out.append(s);
}

/// The `x-ms-` headers of a request, names lowercased and values trimmed.
fn collect_ms_headers(headers: &Vec<(String, String)>) -> (r: Vec<(String, String)>)
    ensures
        pairs_view(r@) == ms_headers(pairs_view(headers@)),
{
    let mut r: Vec<(String, String)> = Vec::new();
    let mut i: usize = 0;
    assert(pairs_view(r@) =~= ms_headers(pairs_view(headers@).take(0)));
    while i < headers.len()
        invariant
            i <= headers@.len(),
            pairs_view(r@) == ms_headers(pairs_view(headers@).take(i as int)),
        decreases headers.len() - i,
    {
        let ghost hv = pairs_view(headers@).take(i as int + 1);
        assert(hv.drop_last() =~= pairs_view(headers@).take(i as int));
        assert(hv.last() == pair_view(headers@[i as int]));
        let k = lowercase(headers[i].0.as_str());
        if crate::text::starts_with(k.as_str(), "x-ms-") {
            let v = crate::text::trim_ws_str(headers[i].1.as_str());
            let ghost before = pairs_view(r@);
            r.push((k, v));
            assert(pairs_view(r@) =~= before.push((k@, v@)));
        }
        i = i + 1;
    }
    assert(pairs_view(headers@).take(headers@.len() as int) =~= pairs_view(headers@));
    r
}

fn header_text(sorted: &Vec<(String, String)>) -> (s: String)
    ensures
        s@ == header_lines(pairs_view(sorted@)),
{
    let mut s = String::new();
    let mut i: usize = 0;
    while i < sorted.len()
        invariant
            i <= sorted@.len(),
            s@ == header_lines(pairs_view(sorted@).take(i as int)),
        decreases sorted.len() - i,
    {
        let ghost pv = pairs_view(sorted@).take(i as int + 1);
        assert(pv.drop_last() =~= pairs_view(sorted@).take(i as int));
        push_str(&mut s, sorted[i].0.as_str());
        push_str(&mut s, ":");
        push_str(&mut s, sorted[i].1.as_str());
        push_str(&mut s, "\n");
        proof {
            assert(s@ =~= header_lines(pv));
        }
        i = i + 1;
    }
    assert(pairs_view(sorted@).take(sorted@.len() as int) =~= pairs_view(sorted@));
    s
}

fn param_text(sorted: &Vec<(String, String)>) -> (s: String)
    ensures
        s@ == param_lines(pairs_view(sorted@)),
{
    let mut s = String::new();
    let mut i: usize = 0;
    while i < sorted.len()
        invariant
            i <= sorted@.len(),
            s@ == param_lines(pairs_view(sorted@).take(i as int)),
        decreases sorted.len() - i,
    {
        let ghost pv = pairs_view(sorted@).take(i as int + 1);
        assert(pv.drop_last() =~= pairs_view(sorted@).take(i as int));
        push_str(&mut s, "\n");
        push_str(&mut s, sorted[i].0.as_str());
        push_str(&mut s, ":");
        push_str(&mut s, sorted[i].1.as_str());
        proof {
            assert(s@ =~= param_lines(pv));
        }
        i = i + 1;
    }
    assert(pairs_view(sorted@).take(sorted@.len() as int) =~= pairs_view(sorted@));
    s
}

fn first_index(cs: &[char], c: char) -> (r: Option<usize>)
    ensures
        r matches Some(i) ==> index_of(cs@, c) == Some(i as int) && i < cs@.len() && cs@[i as int] == c,
        r is None ==> index_of(cs@, c) is None,
{
    let mut i: usize = 0;
    while i < cs.len()
        invariant
            i <= cs@.len(),
            crate::box_auth::find_from(cs@, seq![c], 0) == crate::box_auth::find_from(cs@, seq![c], i as int),
        decreases cs.len() - i,
    {
        if cs[i] == c {
            assert(cs@.subrange(i as int, i as int + 1) =~= seq![c]);
            return Some(i);
        }
        assert(cs@.subrange(i as int, i as int + 1)[0] != c);
        i = i + 1;
    }
    assert(!crate::text::occurs(cs@, seq![c], i as int));
    assert(crate::box_auth::find_from(cs@, seq![c], i as int + 1) is None);
    None
}

fn key_value_of(part: &String) -> (kv: (String, String))
    ensures
        pair_view(kv) == key_value(part@),
{
    let cs = chars_of(part.as_str());
    match first_index(cs.as_slice(), '=') {
        Some(e) => {
            let n = cs.len();
            assert(e < n);
            let k = crate::text::string_from_range(cs.as_slice(), 0, e);
            let v = crate::text::string_from_range(cs.as_slice(), e + 1, cs.len());
            assert(k@ =~= part@.take(e as int));
            assert(v@ =~= part@.skip(e as int + 1));
            (k, v)
        },
        None => (part.clone(), String::new()),
    }
}

fn query_param_list(cs: &Vec<char>) -> (r: Vec<(String, String)>)
    ensures
        pairs_view(r@) == query_params(cs@),
{
    match first_index(cs.as_slice(), '?') {
        Some(q) => {
            let n = cs.len();
            assert(q < n);
            let query = crate::text::string_from_range(cs.as_slice(), q + 1, cs.len());
            assert(query@ =~= cs@.skip(q as int + 1));
            let parts = crate::text::split_str(query.as_str(), '&');
            let mut r: Vec<(String, String)> = Vec::new();
            let mut i: usize = 0;
            let ghost target = crate::text::spec_split(cs@.skip(q as int + 1), '&').map_values(|p: Seq<char>| key_value(p));
            while i < parts.len()
                invariant
                    i <= parts@.len(),
                    crate::text::views_of(parts@) == crate::text::spec_split(cs@.skip(q as int + 1), '&'),
                    target == crate::text::spec_split(cs@.skip(q as int + 1), '&').map_values(|p: Seq<char>| key_value(p)),
                    pairs_view(r@) == target.take(i as int),
                decreases parts.len() - i,
            {
                let kv = key_value_of(&parts[i]);
                let ghost before = pairs_view(r@);
                r.push(kv);
                proof {
                    assert(crate::text::views_of(parts@)[i as int] == parts@[i as int]@);
                    assert(pairs_view(r@) =~= before.push(pair_view(kv)));
                    assert(target.take(i as int + 1) =~= target.take(i as int).push(target[i as int]));
                }
                i = i + 1;
            }
            assert(target.take(parts@.len() as int) =~= target);
            r
        },
        None => {
            let r: Vec<(String, String)> = Vec::new();
            assert(pairs_view(r@) =~= Seq::<(Seq<char>, Seq<char>)>::empty());
            r
        },
    }
}

/// Shared Key's canonicalized resource for a request path and query.
pub fn canonicalized_resource(account: &str, container: &str, path_and_query: &str) -> (s: String)
    ensures
        s@ == canonical_resource(account@, container@, path_and_query@),
{
    let cs = chars_of(path_and_query);
    let rp: String = match first_index(cs.as_slice(), '?') {
        Some(q) => crate::text::string_from_range(cs.as_slice(), 0, q),
        None => path_and_query.to_owned(),
    };
    assert(rp@ == resource_path(path_and_query@)) by {
        if let Some(q) = index_of(cs@, '?') {
            assert(rp@ =~= cs@.take(q));
        }
    }
    let mut s = String::new();
    push_str(&mut s, "/");
    push_str(&mut s, account);
    push_str(&mut s, "/");
    push_str(&mut s, container);
    if !crate::text::str_eq(rp.as_str(), "/") && !rp.as_str().is_empty() {
        push_str(&mut s, "/");
        let t = crate::text::trim_start_str(rp.as_str(), '/');
        push_str(&mut s, t.as_str());
    }
    let params = query_param_list(&cs);
    let sorted = sort_pairs(params);
    let pt = param_text(&sorted);
    push_str(&mut s, pt.as_str());
    s
}

} // verus!

verus! {

/// What `base64::engine::general_purpose::STANDARD.decode` gives for a text:
/// the decoded bytes, or the `Display` text of the decoding error.
pub uninterp spec fn base64_decode_result(s: Seq<char>) -> Result<Seq<u8>, Seq<char>>;

/// A digit of the standard Base64 alphabet: `A`..`Z`, `a`..`z`, `0`..`9`,
/// `+` and `/` for 0 to 63.
pub open spec fn b64_digit(v: int) -> char {
    if v < 26 {
        (65 + v) as char
    } else if v < 52 {
        (71 + v) as char
    } else if v < 62 {
        (v - 4) as char
    } else if v == 62 {
        '+'
    } else {
        '/'
    }
}

/// Standard Base64 with padding (RFC 4648), as
/// `base64::engine::general_purpose::STANDARD.encode` writes it: every three
/// bytes become four digits of six bits each, and a last group of one or two
/// bytes is padded with `=` to four characters.
pub open spec fn base64_encoded(b: Seq<u8>) -> Seq<char>
    decreases b.len(),
{
    let x: int = if b.len() > 0 { b[0] as int } else { 0 };
    let y: int = if b.len() > 1 { b[1] as int } else { 0 };
    let z: int = if b.len() > 2 { b[2] as int } else { 0 };
    if b.len() == 0 {
        Seq::empty()
    } else if b.len() == 1 {
        seq![b64_digit(x / 4), b64_digit((x % 4) * 16), '=', '=']
    } else if b.len() == 2 {
        seq![b64_digit(x / 4), b64_digit((x % 4) * 16 + y / 16), b64_digit((y % 16) * 4), '=']
    } else {
        seq![b64_digit(x / 4), b64_digit((x % 4) * 16 + y / 16), b64_digit((y % 16) * 4 + z / 64), b64_digit(z % 64)]
            + base64_encoded(b.skip(3))
    }
}

/// HMAC-SHA-256 (RFC 2104) of a message under a key: 32 bytes.
pub uninterp spec fn hmac_sha256_of(key: Seq<u8>, message: Seq<u8>) -> Seq<u8>;

/// `STANDARD.decode`: the bytes a Base64 text encodes, or the error's text.
#[verifier::external_body]
fn base64_decode(s: &str) -> (r: Result<Vec<u8>, String>)
    ensures
        match r {
            Ok(b) => base64_decode_result(s@) == Ok::<Seq<u8>, Seq<char>>(b@),
            Err(m) => base64_decode_result(s@) == Err::<Seq<u8>, Seq<char>>(m@),
        },
{
    base64::engine::general_purpose::STANDARD.decode(s).map_err(|e| e.to_string())
}

/// `STANDARD.encode`: standard Base64 of the bytes.
#[verifier::external_body]
fn base64_encode(bytes: &[u8]) -> (s: String)
    ensures
        s@ == base64_encoded(bytes@),
{
    base64::engine::general_purpose::STANDARD.encode(bytes)
}

/// `Hmac::<Sha256>::new_from_slice(key)`, `update(message)` and `finalize`:
/// the HMAC-SHA-256 of the message. HMAC takes keys of every length, so
/// `new_from_slice` does not fail.
#[verifier::external_body]
fn hmac_sha256(key: &[u8], message: &[u8]) -> (d: Vec<u8>)
    ensures
        d@ == hmac_sha256_of(key@, message@),
{
    match hmac::Hmac::<sha2::Sha256>::new_from_slice(key) {
        Ok(mut mac) => {
            mac.update(message);
            mac.finalize().into_bytes().to_vec()
        },
        Err(_) => Vec::new(),
    }
}

/// The Shared Key authorization of a request, or why it cannot be signed.
pub open spec fn spec_authorization(
    account: Seq<char>,
    account_key: Seq<char>,
    signable: Seq<char>,
) -> Result<Seq<char>, StorageErrorView> {
    match base64_decode_result(account_key) {
        Err(m) => Err(StorageErrorView::Authentication("Invalid account key base64: "@ + m)),
        Ok(key) => Ok("SharedKey "@ + account + ":"@
            + base64_encoded(hmac_sha256_of(key, vstd::utf8::encode_utf8(signable)))),
    }
}

pub open spec fn text_result(r: Result<String, StorageError>) -> Result<Seq<char>, StorageErrorView> {
    match r {
        Ok(s) => Ok(s@),
        Err(e) => Err(e@),
    }
}

/// A client for Azure Blob Storage.
pub struct AzureBlobProvider {
    pub credentials: AzureBlobCredentials,
    /// The service address, without a trailing slash.
    pub api_url: String,
}

/// The service address: a configured endpoint without trailing slashes, or
/// the account's public address.
pub open spec fn spec_api_url(account: Seq<char>, endpoint: Option<Seq<char>>) -> Seq<char> {
    match endpoint {
        Some(ep) => trim_end(ep, '/'),
        None => "https://"@ + account + ".blob.core.windows.net"@,
    }
}

/// Azure lists a folder by the prefix of its blobs' names, which ends with a slash.
pub open spec fn list_path_and_query(clean_path: Seq<char>) -> Seq<char> {
    if clean_path.len() == 0 {
        "/?comp=list&restype=container"@
    } else if clean_path.last() == '/' {
        "/?comp=list&restype=container"@ + "&prefix="@ + clean_path
    } else {
        "/?comp=list&restype=container"@ + "&prefix="@ + clean_path + "/"@
    }
}

impl AzureBlobProvider {
    /// A client for the account in `credentials`.
    pub fn new(credentials: AzureBlobCredentials) -> (p: AzureBlobProvider)
        ensures
            p.api_url@ == spec_api_url(credentials.account_name@, ck(credentials.endpoint)),
            p.credentials == credentials,
    {
        let api_url = match &credentials.endpoint {
            Some(ep) => {
                let cs = chars_of(ep.as_str());
                let end = crate::text::skip_trailing(cs.as_slice(), 0, cs.len(), '/');
                assert(cs@.subrange(0, cs@.len() as int) =~= cs@);
                crate::text::string_from_range(cs.as_slice(), 0, end)
            },
            None => {
                let u = concat_str("https://", credentials.account_name.as_str());
                concat_str(u.as_str(), ".blob.core.windows.net")
            },
        };
        AzureBlobProvider { credentials, api_url }
    }

    /// The same client sending its requests to `api_url`.
    pub fn with_endpoints(self, api_url: String) -> (p: AzureBlobProvider)
        ensures
            p.api_url@ == api_url@,
            p.credentials == self.credentials,
    {
        AzureBlobProvider { api_url, ..self }
    }

    pub fn name(&self) -> (n: &'static str)
        ensures
            n@ == "Azure Blob"@,
    {
        "Azure Blob"
    }

    /// The blob name for a remote path, under the destination folder.
    pub fn format_path(&self, remote_path: &str) -> (p: String)
        ensures
            p@ == spec_relative_path(remote_path@, ck(self.credentials.common.destination_folder)),
    {
        let dest = match &self.credentials.common.destination_folder {
            Some(d) => Some(d.as_str()),
            None => None,
        };
        format_relative_path(remote_path, dest)
    }

    /// Signs a request with Shared Key: the authorization header's value.
    pub fn sign_request(
        &self,
        verb: &str,
        path_and_query: &str,
        content_length: Option<u64>,
        content_type: Option<&str>,
        additional_headers: &Vec<(String, String)>,
    ) -> (r: Result<String, StorageError>)
        ensures
            text_result(r) == spec_authorization(
                self.credentials.account_name@,
                self.credentials.account_key@,
                string_to_sign(
                    verb@,
                    content_length,
                    crate::paths::opt_str(content_type),
                    pairs_view(additional_headers@),
                    self.credentials.account_name@,
                    self.credentials.container@,
                    path_and_query@,
                ),
            ),
    {
        let ms = collect_ms_headers(additional_headers);
        let sorted = sort_pairs(ms);
        let headers = header_text(&sorted);
        let resource = canonicalized_resource(
            self.credentials.account_name.as_str(),
            self.credentials.container.as_str(),
            path_and_query,
        );
        let mut signable = uppercase(verb);
        push_str(&mut signable, "\n\n\n");
        match content_length {
            Some(n) => push_str(&mut signable, decimal(n).as_str()),
            None => {},
        }
        push_str(&mut signable, "\n\n");
        match content_type {
            Some(t) => push_str(&mut signable, t),
            None => {},
        }
        push_str(&mut signable, "\n\n\n\n\n\n\n");
        push_str(&mut signable, headers.as_str());
        push_str(&mut signable, resource.as_str());
        proof {
            let cl = match content_length { Some(n) => dec(n as nat), None => Seq::<char>::empty() };
            let ct = match crate::paths::opt_str(content_type) { Some(t) => t, None => Seq::<char>::empty() };
            assert(signable@ =~= string_to_sign(
                verb@,
                content_length,
                crate::paths::opt_str(content_type),
                pairs_view(additional_headers@),
                self.credentials.account_name@,
                self.credentials.container@,
                path_and_query@,
            ));
        }
        let key = match base64_decode(self.credentials.account_key.as_str()) {
            Ok(k) => k,
            Err(m) => {
                return Err(StorageError::Authentication(concat_str("Invalid account key base64: ", m.as_str())));
            },
        };
        let mac = hmac_sha256(key.as_slice(), signable.as_str().as_bytes());
        let signature = base64_encode(mac.as_slice());
        let mut auth = concat_str("SharedKey ", self.credentials.account_name.as_str());
        push_str(&mut auth, ":");
        push_str(&mut auth, signature.as_str());
        Ok(auth)
    }

    /// The path and query that list a folder's blobs.
    pub fn list_query(&self, remote_path: &str) -> (pq: String)
        ensures
            pq@ == list_path_and_query(
                spec_relative_path(remote_path@, ck(self.credentials.common.destination_folder)),
            ),
    {
        let clean = self.format_path(remote_path);
        let mut pq = "/?comp=list&restype=container".to_owned();
        let cs = chars_of(clean.as_str());
        if cs.len() > 0 {
            push_str(&mut pq, "&prefix=");
            push_str(&mut pq, clean.as_str());
            if cs[cs.len() - 1] != '/' {
                push_str(&mut pq, "/");
            }
        }
        pq
    }

    /// The URL of a listing request: the service address, the container, and
    /// the path and query without its leading slash.
    pub fn list_url(&self, path_and_query: &str) -> (u: String)
        requires
            path_and_query@.len() > 0,
        ensures
            u@ == self.api_url@ + "/"@ + self.credentials.container@ + path_and_query@.skip(1),
    {
        let cs = chars_of(path_and_query);
        let rest = crate::text::string_from_range(cs.as_slice(), 1, cs.len());
        let mut u = self.api_url.clone();
        push_str(&mut u, "/");
        push_str(&mut u, self.credentials.container.as_str());
        push_str(&mut u, rest.as_str());
        assert(rest@ =~= path_and_query@.skip(1));
        u
    }
}

} // verus!

verus! {

/// `httpdate::parse_http_date` of a text, as nanoseconds since the Unix
/// epoch; `None` for text that is not an HTTP date.
pub uninterp spec fn http_date_nanos(text: Seq<char>) -> Option<u128>;

/// `httpdate::parse_http_date`, read as nanoseconds since the Unix epoch.
#[verifier::external_body]
fn parse_http_date(text: &str) -> (t: Option<u128>)
    ensures
        t == http_date_nanos(text@),
{
    match httpdate::parse_http_date(text) {
        Ok(time) => match time.duration_since(std::time::UNIX_EPOCH) {
            Ok(d) => Some(d.as_nanos()),
            Err(_) => None,
        },
        Err(_) => None,
    }
}

/// A blob as listed: path below the destination folder, size and modification time.
pub struct BlobView {
    pub path: Seq<char>,
    pub size: u64,
    pub modified: u128,
}

/// What the reading of a listing has gathered so far.
pub struct ListingState {
    pub tag: Seq<char>,
    pub name: Seq<char>,
    pub size: u64,
    pub modified: u128,
    pub blobs: Seq<BlobView>,
}

/// The effect of one event: the open tag is remembered, the texts of `Name`,
/// `Content-Length` and `Last-Modified` are kept, and the end of a `Blob`
/// records one blob and starts the next afresh.
pub open spec fn listing_step(st: ListingState, ev: XmlEventView, dest: Option<Seq<char>>, now: u128) -> ListingState {
    match ev {
        XmlEventView::Start(t) => ListingState { tag: t, ..st },
        XmlEventView::End(t) => if t == "Blob"@ {
            ListingState {
                tag: Seq::empty(),
                name: Seq::empty(),
                size: 0,
                modified: now,
                blobs: st.blobs.push(BlobView { path: crate::paths::path_in_destination(st.name, dest), size: st.size, modified: st.modified }),
            }
        } else {
            ListingState { tag: Seq::empty(), ..st }
        },
        XmlEventView::Text(x) => if st.tag == "Name"@ {
            ListingState { name: x, ..st }
        } else if st.tag == "Content-Length"@ {
            ListingState {
                size: match crate::numbers::spec_parse_u64(x) { Some(n) => n, None => 0 },
                ..st
            }
        } else if st.tag == "Last-Modified"@ {
            match http_date_nanos(x) {
                Some(t) => ListingState { modified: t, ..st },
                None => st,
            }
        } else {
            st
        },
        _ => st,
    }
}

pub open spec fn listing_start(now: u128) -> ListingState {
    ListingState { tag: Seq::empty(), name: Seq::empty(), size: 0, modified: now, blobs: Seq::empty() }
}

/// The state after a run of events.
pub open spec fn listing_run(evs: Seq<XmlEventView>, dest: Option<Seq<char>>, now: u128) -> ListingState
    decreases evs.len(),
{
    if evs.len() == 0 {
        listing_start(now)
    } else {
        listing_step(listing_run(evs.drop_last(), dest, now), evs.last(), dest, now)
    }
}

pub open spec fn blobs_as_items(blobs: Seq<BlobView>, items: Seq<crate::storage::StorageItem>) -> bool {
    &&& items.len() == blobs.len()
    &&& forall|i: int| 0 <= i < items.len() ==> {
        &&& (#[trigger] items[i]).path@ == blobs[i].path
        &&& items[i].size == blobs[i].size
        &&& items[i].modified == blobs[i].modified
        &&& !items[i].is_dir
        &&& items[i].checksum is None
    }
}

/// The blobs a listing's events describe: the events up to the end of the
/// document are read in order; an error event stops the reading with an error.
pub open spec fn listing_outcome(
    evs: Seq<XmlEventView>,
    dest: Option<Seq<char>>,
    now: u128,
) -> Result<Seq<BlobView>, StorageErrorView> {
    match first_stop(evs, 0) {
        Some(k) => match evs[k] {
            XmlEventView::Error(m) => Err(StorageErrorView::Provider { message: "XML parse error: "@ + m, status: None }),
            _ => Ok(listing_run(evs.take(k), dest, now).blobs),
        },
        None => Ok(listing_run(evs, dest, now).blobs),
    }
}

fn str_is(s: &String, lit: &str) -> (b: bool)
    ensures
        b == (s@ == lit@),
{
    crate::text::str_eq(s.as_str(), lit)
}

/// Reads the blobs of a listing from its events. `now` is the time given to
/// blobs whose listing has no readable modification date.
pub fn blobs_from_events(
    events: &Vec<XmlEvent>,
    destination_folder: Option<&str>,
    now: u128,
) -> (r: Result<Vec<crate::storage::StorageItem>, StorageError>)
    ensures
        match r {
            Ok(items) => listing_outcome(events_view(events@), crate::paths::opt_str(destination_folder), now)
                matches Ok(blobs) && blobs_as_items(blobs, items@),
            Err(e) => listing_outcome(events_view(events@), crate::paths::opt_str(destination_folder), now)
                == Err::<Seq<BlobView>, StorageErrorView>(e@),
        },
{
    let ghost dest = crate::paths::opt_str(destination_folder);
    let ghost evs = events_view(events@);
    let mut tag = String::new();
    let mut name = String::new();
    let mut size: u64 = 0;
    let mut modified: u128 = now;
    let mut items: Vec<crate::storage::StorageItem> = Vec::new();
    let mut i: usize = 0;
    while i < events.len()
        invariant
            i <= events@.len(),
            evs == events_view(events@),
            dest == crate::paths::opt_str(destination_folder),
            first_stop(evs, 0) == first_stop(evs, i as int),
            ({
                let st = listing_run(evs.take(i as int), dest, now);
                &&& st.tag == tag@
                &&& st.name == name@
                &&& st.size == size
                &&& st.modified == modified
                &&& blobs_as_items(st.blobs, items@)
            }),
        decreases events.len() - i,
    {
        let ghost st = listing_run(evs.take(i as int), dest, now);
        proof {
            assert(evs.take(i as int + 1).drop_last() =~= evs.take(i as int));
            assert(evs.take(i as int + 1).last() == events@[i as int]@);
        }
        match &events[i] {
            XmlEvent::Eof => {
                assert(first_stop(evs, i as int) == Some(i as int));
                return Ok(items);
            },
            XmlEvent::Error(m) => {
                assert(first_stop(evs, i as int) == Some(i as int));
                return Err(StorageError::Provider { message: concat_str("XML parse error: ", m.as_str()), status: None });
            },
            XmlEvent::Start(t) => {
                tag = t.clone();
            },
            XmlEvent::End(t) => {
                tag = String::new();
                if str_is(t, "Blob") {
                    let path: String = crate::paths::strip_destination(name.as_str(), destination_folder);
                    let ghost before = items@;
                    items.push(crate::storage::StorageItem { path, size, modified, is_dir: false, checksum: None });
                    proof {
                        let nb = st.blobs.push(BlobView { path: crate::paths::path_in_destination(st.name, dest), size: st.size, modified: st.modified });
                        assert forall|k: int| 0 <= k < items@.len() implies {
                            &&& (#[trigger] items@[k]).path@ == nb[k].path
                            &&& items@[k].size == nb[k].size
                            &&& items@[k].modified == nb[k].modified
                            &&& !items@[k].is_dir
                            &&& items@[k].checksum is None
                        } by {
                            if k < before.len() {
                                assert(items@[k] == before[k]);
                            }
                        }
                    }
                    name = String::new();
                    size = 0;
                    modified = now;
                }
            },
            XmlEvent::Text(x) => {
                if str_is(&tag, "Name") {
                    name = x.clone();
                } else if str_is(&tag, "Content-Length") {
                    size = match crate::numbers::parse_u64(x.as_str()) {
                        Some(n) => n,
                        None => 0,
                    };
                } else if str_is(&tag, "Last-Modified") {
                    match parse_http_date(x.as_str()) {
                        Some(t) => { modified = t; },
                        None => {},
                    }
                }
            },
            XmlEvent::Empty(_) => {},
            XmlEvent::Other => {},
        }
        proof {
            assert(!is_stop(evs[i as int]));
        }
        i = i + 1;
    }
    assert(evs.take(events@.len() as int) =~= evs);
    assert(first_stop(evs, events@.len() as int) is None);
    Ok(items)
}

impl AzureBlobProvider {
    /// The blobs a listing response body describes, read from the events
    /// quick-xml produces for it. Blobs are files without checksums.
    pub fn read_listing(&self, body: &str, now: u128) -> (r: Result<Vec<crate::storage::StorageItem>, StorageError>)
        ensures
            match r {
                Ok(items) => listing_outcome(
                    xml_event_seq(body@, false),
                    crate::state::ck(self.credentials.common.destination_folder),
                    now,
                ) matches Ok(blobs) && blobs_as_items(blobs, items@),
                Err(e) => listing_outcome(
                    xml_event_seq(body@, false),
                    crate::state::ck(self.credentials.common.destination_folder),
                    now,
                ) == Err::<Seq<BlobView>, StorageErrorView>(e@),
            },
    {
        let evs = xml_events(body, false);
        let dest = match &self.credentials.common.destination_folder {
            Some(d) => Some(d.as_str()),
            None => None,
        };
        assert(crate::paths::opt_str(dest) == crate::state::ck(self.credentials.common.destination_folder));
        blobs_from_events(&evs, dest, now)
    }
}

} // verus!
