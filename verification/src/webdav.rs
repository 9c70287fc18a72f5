//! WebDAV and Nextcloud: remote paths, collection URLs, and the reading of
//! `PROPFIND` answers.
use vstd::prelude::*;
use crate::paths::{format_absolute_path, opt_str, spec_absolute_path};
use crate::storage::{StorageError, StorageErrorView, StorageItem};
use crate::text::{chars_of, concat_str, spec_split, split_str, trim_end, views_of};
use crate::xml::{events_view, first_stop, is_stop, xml_event_seq, xml_events, XmlEvent, XmlEventView};

verus! {

/// The value of a hexadecimal digit byte.
pub open spec fn hex_val(c: u8) -> Option<int> {
    if 48 <= c <= 57 {
        Some(c - 48)
    } else if 97 <= c <= 102 {
        Some(c - 87)
    } else if 65 <= c <= 70 {
        Some(c - 55)
    } else {
        None
    }
}

/// Two bytes read as `u8::from_str_radix(_, 16)` reads them: two hex digits,
/// or a `+` and one hex digit.
pub open spec fn hex_pair(h: u8, l: u8) -> Option<u8> {
    if h == 43 {
        match hex_val(l) {
            Some(v) => Some(v as u8),
            None => None,
        }
    } else {
        match (hex_val(h), hex_val(l)) {
            (Some(a), Some(b)) => Some((16 * a + b) as u8),
            _ => None,
        }
    }
}

/// The bytes a percent-encoded text stands for: each `%` and two hexadecimal
/// digits is the byte they write, any other byte is itself. A `%` followed by
/// two bytes that are not a hexadecimal number stays, and the two bytes are
/// dropped; a `%` followed by a single last byte stays, and that byte is
/// dropped.
pub open spec fn percent_bytes(b: Seq<u8>) -> Seq<u8>
    decreases b.len(),
{
    if b.len() == 0 {
        Seq::empty()
    } else if b[0] == 37 && b.len() == 2 {
        seq![37u8]
    } else if b[0] == 37 && b.len() >= 3 {
        match hex_pair(b[1], b[2]) {
            Some(n) => seq![n] + percent_bytes(b.skip(3)),
            None => seq![37u8] + percent_bytes(b.skip(3)),
        }
    } else {
        seq![b[0]] + percent_bytes(b.skip(1))
    }
}

/// Bytes read one character per byte (Latin-1).
pub open spec fn latin1(b: Seq<u8>) -> Seq<char> {
    b.map_values(|x: u8| x as char)
}

/// Percent-decoding of a text's bytes: the decoded bytes read as UTF-8; when
/// they are not valid UTF-8, each byte is read as one character.
pub open spec fn spec_percent_decode(b: Seq<u8>) -> Seq<char> {
    let d = percent_bytes(b);
    if vstd::utf8::valid_utf8(d) {
        vstd::utf8::decode_utf8(d)
    } else {
        latin1(d)
    }
}

fn hex_val_exec(c: u8) -> (r: Option<u8>)
    ensures
        match hex_val(c) {
            Some(v) => r == Some(v as u8),
            None => r is None,
        },
{
    if 48 <= c && c <= 57 {
        Some(c - 48)
    } else if 97 <= c && c <= 102 {
        Some(c - 87)
    } else if 65 <= c && c <= 70 {
        Some(c - 55)
    } else {
        None
    }
}

fn hex_pair_exec(h: u8, l: u8) -> (r: Option<u8>)
    ensures
        r == hex_pair(h, l),
{
    if h == 43 {
        hex_val_exec(l)
    } else {
        match (hex_val_exec(h), hex_val_exec(l)) {
            (Some(a), Some(b)) => Some(16 * a + b),
            _ => None,
        }
    }
}

/// `String::from_utf8`: the text the bytes encode when they are valid
/// UTF-8, and `None` otherwise.
#[verifier::external_body]
fn string_from_utf8(bytes: Vec<u8>) -> (r: Option<String>)
    ensures
        r is Some <==> vstd::utf8::valid_utf8(bytes@),
        r matches Some(s) ==> s@ == vstd::utf8::decode_utf8(bytes@),
{
    String::from_utf8(bytes).ok()
}

fn latin1_string(bytes: &Vec<u8>) -> (s: String)
    ensures
        s@ == latin1(bytes@),
{
    let mut s = String::new();
    let mut i: usize = 0;
    while i < bytes.len()
        invariant
            i <= bytes@.len(),
            s@ == latin1(bytes@.take(i as int)),
        decreases bytes.len() - i,
    {
        s.push(bytes[i] as char);
        assert(latin1(bytes@.take(i as int + 1)) =~= latin1(bytes@.take(i as int)).push(bytes@[i as int] as char));
        i = i + 1;
    }
    assert(bytes@.take(bytes@.len() as int) =~= bytes@);
    s
}

/// Decodes `%XX` escapes in a URL path: the decoded bytes are read as UTF-8.
pub fn percent_decode(s: &str) -> (d: String)
    ensures
        d@ == spec_percent_decode(vstd::utf8::encode_utf8(s@)),
{
    let bytes = s.as_bytes();
    let n = bytes.len();
    let mut out: Vec<u8> = Vec::new();
    let mut i: usize = 0;
    assert(bytes@.skip(0) =~= bytes@);
    while i < n
        invariant
            i <= n == bytes@.len(),
            bytes@ == vstd::utf8::encode_utf8(s@),
            out@ + percent_bytes(bytes@.skip(i as int)) == percent_bytes(bytes@),
        decreases n - i,
    {
        let ghost rest = bytes@.skip(i as int);
        let b = bytes[i];
        if b == 37 && n - i >= 3 {
            let h = bytes[i + 1];
            let l = bytes[i + 2];
            assert(rest.skip(3) =~= bytes@.skip(i as int + 3));
            match hex_pair_exec(h, l) {
                Some(v) => out.push(v),
                None => out.push(37u8),
            }
            proof {
                assert(out@ + percent_bytes(bytes@.skip(i as int + 3)) =~= percent_bytes(bytes@));
            }
            i = i + 3;
        } else if b == 37 && n - i == 2 {
            out.push(37u8);
            proof {
                assert(bytes@.skip(i as int + 2) =~= Seq::<u8>::empty());
                assert(out@ + percent_bytes(bytes@.skip(i as int + 2)) =~= percent_bytes(bytes@));
            }
            i = i + 2;
        } else {
            assert(rest.skip(1) =~= bytes@.skip(i as int + 1));
            out.push(b);
            proof {
                assert(out@ + percent_bytes(bytes@.skip(i as int + 1)) =~= percent_bytes(bytes@));
            }
            i = i + 1;
        }
    }
    assert(bytes@.skip(n as int) =~= Seq::<u8>::empty());
    assert(out@ + Seq::<u8>::empty() =~= out@);
    let latin = latin1_string(&out);
    match string_from_utf8(out) {
        Some(text) => text,
        None => latin,
    }
}

/// The path of a remote entry on the server: `/dest/path`, always beginning
/// with a slash (`/` alone for the root without a destination folder).
pub open spec fn spec_server_path(remote_path: Seq<char>, dest: Option<Seq<char>>) -> Seq<char> {
    let p = spec_absolute_path(remote_path, dest);
    if p.len() == 0 { "/"@ } else { p }
}

/// The server path of a remote entry.
pub fn format_path(remote_path: &str, destination_folder: Option<&str>) -> (p: String)
    ensures
        p@ == spec_server_path(remote_path@, opt_str(destination_folder)),
        p@.len() > 0 && p@[0] == '/',
{
    let p = format_absolute_path(remote_path, destination_folder);
    proof { crate::paths::law_absolute_is_slash_then_relative(remote_path@, opt_str(destination_folder)); }
    if p.as_str().is_empty() {
        proof { reveal_strlit("/"); }
        "/".to_owned()
    } else {
        p
    }
}

/// The collection URL a folder is listed at: the server address without
/// trailing slashes, the folder's path, and a closing slash.
pub open spec fn spec_collection_url(base: Seq<char>, path: Seq<char>) -> Seq<char> {
    let u = trim_end(base, '/') + path;
    if u.len() > 0 && u.last() == '/' { u } else { u.push('/') }
}

pub fn collection_url(base: &str, path: &str) -> (u: String)
    ensures
        u@ == spec_collection_url(base@, path@),
{
    let cs = chars_of(base);
    let end = crate::text::skip_trailing(cs.as_slice(), 0, cs.len(), '/');
    assert(cs@.subrange(0, cs@.len() as int) =~= cs@);
    let head = crate::text::string_from_range(cs.as_slice(), 0, end);
    let mut u = concat_str(head.as_str(), path);
    let us = chars_of(u.as_str());
    if us.len() == 0 || us[us.len() - 1] != '/' {
        u.push('/');
    }
    u
}

/// An entry of a `PROPFIND` answer: its `href`, size and whether it is a collection.
pub struct PropEntry {
    pub href: Seq<char>,
    pub size: u64,
    pub is_dir: bool,
}

/// What the reading of an answer has gathered so far.
pub struct PropState {
    pub tag: Seq<char>,
    pub href: Option<Seq<char>>,
    pub size: u64,
    pub is_dir: bool,
    pub entries: Seq<PropEntry>,
}

/// The effect of one event: a `collection` tag marks the entry as a folder,
/// the texts of `href` and `getcontentlength` are kept, and the end of a
/// `response` records the entry when it had an `href`.
pub open spec fn prop_step(st: PropState, ev: XmlEventView) -> PropState {
    match ev {
        XmlEventView::Start(t) => PropState { tag: t, is_dir: st.is_dir || t == "collection"@, ..st },
        XmlEventView::Empty(t) => PropState { is_dir: st.is_dir || t == "collection"@, ..st },
        XmlEventView::End(t) => if t == "response"@ {
            PropState {
                tag: Seq::empty(),
                href: None,
                size: 0,
                is_dir: false,
                entries: match st.href {
                    Some(h) => st.entries.push(PropEntry { href: h, size: st.size, is_dir: st.is_dir }),
                    None => st.entries,
                },
            }
        } else {
            PropState { tag: Seq::empty(), ..st }
        },
        XmlEventView::Text(x) => if st.tag == "href"@ {
            PropState { href: Some(x), ..st }
        } else if st.tag == "getcontentlength"@ {
            PropState { size: match crate::numbers::spec_parse_u64(x) { Some(n) => n, None => 0 }, ..st }
        } else {
            st
        },
        _ => st,
    }
}

pub open spec fn prop_run(evs: Seq<XmlEventView>) -> PropState
    decreases evs.len(),
{
    if evs.len() == 0 {
        PropState { tag: Seq::empty(), href: None, size: 0, is_dir: false, entries: Seq::empty() }
    } else {
        prop_step(prop_run(evs.drop_last()), evs.last())
    }
}

/// The entries an answer's events describe, or the XML error that stopped the reading.
pub open spec fn propfind_outcome(evs: Seq<XmlEventView>) -> Result<Seq<PropEntry>, StorageErrorView> {
    match first_stop(evs, 0) {
        Some(k) => match evs[k] {
            XmlEventView::Error(m) => Err(StorageErrorView::Provider { message: "XML parse error: "@ + m, status: None }),
            _ => Ok(prop_run(evs.take(k)).entries),
        },
        None => Ok(prop_run(evs).entries),
    }
}

pub open spec fn entries_match(es: Seq<PropEntry>, v: Seq<(String, u64, bool)>) -> bool {
    &&& v.len() == es.len()
    &&& forall|i: int| 0 <= i < v.len() ==> {
        &&& (#[trigger] v[i]).0@ == es[i].href
        &&& v[i].1 == es[i].size
        &&& v[i].2 == es[i].is_dir
    }
}

fn str_is(s: &String, lit: &str) -> (b: bool)
    ensures
        b == (s@ == lit@),
{
    crate::text::str_eq(s.as_str(), lit)
}

/// Reads the entries of a `PROPFIND` answer from its events.
pub fn propfind_entries(events: &Vec<XmlEvent>) -> (r: Result<Vec<(String, u64, bool)>, StorageError>)
    ensures
        match r {
            Ok(v) => propfind_outcome(events_view(events@)) matches Ok(es) && entries_match(es, v@),
            Err(e) => propfind_outcome(events_view(events@)) == Err::<Seq<PropEntry>, StorageErrorView>(e@),
        },
{
    let ghost evs = events_view(events@);
    let mut tag = String::new();
    let mut href: Option<String> = None;
    let mut size: u64 = 0;
    let mut is_dir = false;
    let mut items: Vec<(String, u64, bool)> = Vec::new();
    let mut i: usize = 0;
    while i < events.len()
        invariant
            i <= events@.len(),
            evs == events_view(events@),
            first_stop(evs, 0) == first_stop(evs, i as int),
            ({
                let st = prop_run(evs.take(i as int));
                &&& st.tag == tag@
                &&& st.href == crate::state::ck(href)
                &&& st.size == size
                &&& st.is_dir == is_dir
                &&& entries_match(st.entries, items@)
            }),
        decreases events.len() - i,
    {
        let ghost st = prop_run(evs.take(i as int));
        proof {
            assert(evs.take(i as int + 1).drop_last() =~= evs.take(i as int));
            assert(evs.take(i as int + 1).last() == events@[i as int]@);
        }
        match &events[i] {
            XmlEvent::Eof => {
                assert(first_stop(evs, i as int) == Some(i as int));
                return Ok(items);
            },
            XmlEvent::Error(m) => {
                assert(first_stop(evs, i as int) == Some(i as int));
                return Err(StorageError::Provider { message: concat_str("XML parse error: ", m.as_str()), status: None });
            },
            XmlEvent::Start(t) => {
                tag = t.clone();
                if str_is(t, "collection") {
                    is_dir = true;
                }
            },
            XmlEvent::Empty(t) => {
                if str_is(t, "collection") {
                    is_dir = true;
                }
            },
            XmlEvent::End(t) => {
                tag = String::new();
                if str_is(t, "response") {
                    let ghost before = items@;
                    match href {
                        Some(h) => {
                            items.push((h, size, is_dir));
                            proof {
                                let ne = st.entries.push(PropEntry { href: st.href->0, size: st.size, is_dir: st.is_dir });
                                assert forall|k: int| 0 <= k < items@.len() implies {
                                    &&& (#[trigger] items@[k]).0@ == ne[k].href
                                    &&& items@[k].1 == ne[k].size
                                    &&& items@[k].2 == ne[k].is_dir
                                } by {
                                    if k < before.len() {
                                        assert(items@[k] == before[k]);
                                    }
                                }
                            }
                        },
                        None => {},
                    }
                    href = None;
                    size = 0;
                    is_dir = false;
                }
            },
            XmlEvent::Text(x) => {
                if str_is(&tag, "href") {
                    href = Some(x.clone());
                } else if str_is(&tag, "getcontentlength") {
                    size = match crate::numbers::parse_u64(x.as_str()) {
                        Some(n) => n,
                        None => 0,
                    };
                }
            },
            XmlEvent::Other => {},
        }
        proof {
            assert(!is_stop(evs[i as int]));
        }
        i = i + 1;
    }
    assert(evs.take(events@.len() as int) =~= evs);
    assert(first_stop(evs, events@.len() as int) is None);
    Ok(items)
}

/// Reads the entries of a `PROPFIND` answer (text trimmed): what
/// `propfind_entries` makes of the events quick-xml reads from it.
pub fn parse_propfind_response(xml: &str) -> (r: Result<Vec<(String, u64, bool)>, StorageError>)
    ensures
        match r {
            Ok(v) => propfind_outcome(xml_event_seq(xml@, true)) matches Ok(es) && entries_match(es, v@),
            Err(e) => propfind_outcome(xml_event_seq(xml@, true)) == Err::<Seq<PropEntry>, StorageErrorView>(e@),
        },
{
    let evs = xml_events(xml, true);
    propfind_entries(&evs)
}

/// The name an `href` shows: the last segment of its decoded path, trailing
/// slashes removed.
pub open spec fn href_name(href: Seq<char>) -> Seq<char> {
    spec_split(trim_end(href, '/'), '/').last()
}

/// The name of an entry from its `href`.
pub fn entry_name(href: &str) -> (n: String)
    ensures
        n@ == href_name(spec_percent_decode(vstd::utf8::encode_utf8(href@))),
{
    let decoded = percent_decode(href);
    let cs = chars_of(decoded.as_str());
    let end = crate::text::skip_trailing(cs.as_slice(), 0, cs.len(), '/');
    assert(cs@.subrange(0, cs@.len() as int) =~= cs@);
    let clean = crate::text::string_from_range(cs.as_slice(), 0, end);
    let parts = split_str(clean.as_str(), '/');
    proof { crate::text::lemma_split_nonempty(clean@, '/'); }
    let k = parts.len();
    assert(views_of(parts@)[k - 1] == parts@[k - 1]@);
    parts[k - 1].clone()
}

/// The items a listing shows: every entry but the first (the listed folder
/// itself), by name, skipping entries whose name is empty.
pub open spec fn spec_listing(entries: Seq<(String, u64, bool)>) -> Seq<(Seq<char>, u64, bool)>
    decreases entries.len(),
{
    if entries.len() <= 1 {
        Seq::empty()
    } else {
        let e = entries.last();
        let name = href_name(spec_percent_decode(vstd::utf8::encode_utf8(e.0@)));
        let rest = spec_listing(entries.drop_last());
        if name.len() > 0 { rest.push((name, e.1, e.2)) } else { rest }
    }
}

/// The items of a folder listing from a `PROPFIND` answer's entries; `now`
/// is the modification time they are given.
pub fn listing_items(entries: &Vec<(String, u64, bool)>, now: u128) -> (r: Vec<StorageItem>)
    ensures
        r@.len() == spec_listing(entries@).len(),
        forall|i: int| 0 <= i < r@.len() ==> {
            &&& (#[trigger] r@[i]).path@ == spec_listing(entries@)[i].0
            &&& r@[i].size == spec_listing(entries@)[i].1
            &&& r@[i].is_dir == spec_listing(entries@)[i].2
            &&& r@[i].modified == now
            &&& r@[i].checksum is None
        },
{
    let mut r: Vec<StorageItem> = Vec::new();
    if entries.len() <= 1 {
        return r;
    }
    let mut i: usize = 1;
    assert(spec_listing(entries@.take(1)) =~= Seq::<(Seq<char>, u64, bool)>::empty());
    while i < entries.len()
        invariant
            1 <= i <= entries@.len(),
            r@.len() == spec_listing(entries@.take(i as int)).len(),
            forall|k: int| 0 <= k < r@.len() ==> {
                &&& (#[trigger] r@[k]).path@ == spec_listing(entries@.take(i as int))[k].0
                &&& r@[k].size == spec_listing(entries@.take(i as int))[k].1
                &&& r@[k].is_dir == spec_listing(entries@.take(i as int))[k].2
                &&& r@[k].modified == now
                &&& r@[k].checksum is None
            },
        decreases entries.len() - i,
    {
        let ghost prev = spec_listing(entries@.take(i as int));
        proof {
            assert(entries@.take(i as int + 1).drop_last() =~= entries@.take(i as int));
            assert(entries@.take(i as int + 1).last() == entries@[i as int]);
        }
        let name = entry_name(entries[i].0.as_str());
        if !name.as_str().is_empty() {
            let ghost before = r@;
            r.push(StorageItem { path: name, size: entries[i].1, modified: now, is_dir: entries[i].2, checksum: None });
            proof {
                assert forall|k: int| 0 <= k < r@.len() implies
                    (#[trigger] r@[k]).path@ == spec_listing(entries@.take(i as int + 1))[k].0 by {
                    if k < before.len() {
                        assert(r@[k] == before[k]);
                    }
                }
                assert forall|k: int| 0 <= k < r@.len() implies {
                    &&& (#[trigger] r@[k]).size == spec_listing(entries@.take(i as int + 1))[k].1
                    &&& r@[k].is_dir == spec_listing(entries@.take(i as int + 1))[k].2
                    &&& r@[k].modified == now
                    &&& r@[k].checksum is None
                } by {
                    if k < before.len() {
                        assert(r@[k] == before[k]);
                    }
                }
            }
        }
        i = i + 1;
    }
    assert(entries@.take(entries@.len() as int) =~= entries@);
    r
}

} // verus!

verus! {

/// `/p0/p1/.../p(k-1)`: the first `k` names behind slashes.
pub open spec fn prefix_path(names: Seq<Seq<char>>, k: int) -> Seq<char>
    decreases k,
{
    if k <= 0 {
        Seq::empty()
    } else {
        prefix_path(names, k - 1) + "/"@ + names[k - 1]
    }
}

/// The collections to create, outermost first, before a file is stored at
/// `path`: every leading run of its non-empty segments but the whole path.
pub open spec fn spec_parent_collections(path: Seq<char>) -> Seq<Seq<char>> {
    let names = crate::ignore::nonempty_parts(spec_split(path, '/'));
    if names.len() <= 1 {
        Seq::empty()
    } else {
        Seq::new((names.len() - 1) as nat, |k: int| prefix_path(names, k + 1))
    }
}

/// The non-empty segments of a slash-separated path, in order.
pub fn nonempty_names(path: &str) -> (v: Vec<String>)
    ensures
        views_of(v@) == crate::ignore::nonempty_parts(spec_split(path@, '/')),
{
    let parts = split_str(path, '/');
    let mut v: Vec<String> = Vec::new();
    let mut i: usize = 0;
    assert(views_of(v@) =~= crate::ignore::nonempty_parts(views_of(parts@).take(0)));
    while i < parts.len()
        invariant
            i <= parts@.len(),
            views_of(parts@) == spec_split(path@, '/'),
            views_of(v@) == crate::ignore::nonempty_parts(views_of(parts@).take(i as int)),
        decreases parts.len() - i,
    {
        let ghost pv = views_of(parts@).take(i as int + 1);
        assert(pv.drop_last() =~= views_of(parts@).take(i as int));
        assert(pv.last() == parts@[i as int]@);
        if !parts[i].as_str().is_empty() {
            let c = parts[i].clone();
            let ghost before = v@;
            v.push(c);
            assert(views_of(v@) =~= views_of(before).push(c@));
        }
        i = i + 1;
    }
    assert(views_of(parts@).take(parts@.len() as int) =~= views_of(parts@));
    v
}

/// The collections a WebDAV upload creates first, outermost first.
pub fn parent_collections(path: &str) -> (r: Vec<String>)
    ensures
        views_of(r@) == spec_parent_collections(path@),
{
    let names = nonempty_names(path);
    let ghost nv = views_of(names@);
    let mut r: Vec<String> = Vec::new();
    if names.len() <= 1 {
        assert(views_of(r@) =~= Seq::<Seq<char>>::empty());
        return r;
    }
    let mut current = String::new();
    let mut k: usize = 0;
    while k + 1 < names.len()
        invariant
            nv == views_of(names@),
            names@.len() >= 2,
            k + 1 <= names@.len(),
            current@ == prefix_path(nv, k as int),
            views_of(r@) == Seq::new(k as nat, |j: int| prefix_path(nv, j + 1)),
        decreases names.len() - k,
    {
        current.push('/');
        current.append(names[k].as_str());
        proof {
            reveal_strlit("/");
            assert(nv[k as int] == names@[k as int]@);
            assert(current@ =~= prefix_path(nv, k as int + 1));
        }
        let c = current.clone();
        let ghost before = views_of(r@);
        r.push(c);
        proof {
            assert(views_of(r@) =~= before.push(c@));
            assert(views_of(r@) =~= Seq::new((k + 1) as nat, |j: int| prefix_path(nv, j + 1)));
        }
        k = k + 1;
    }
    r
}

/// How the answer to a request creating a folder is read: success, or a
/// folder that is already there (405, 409, or a body speaking of a conflict
/// or of an existing item), is fine; anything else fails with the body.
pub open spec fn spec_folder_created(status: u16, body: Seq<char>) -> Result<(), StorageErrorView> {
    if 200 <= status < 300 {
        Ok(())
    } else if status == 405 || status == 409 || crate::text::contains_seq(body, "conflict"@)
        || crate::text::contains_seq(body, "exists"@) {
        Ok(())
    } else {
        Err(StorageErrorView::Provider { message: "Failed to create folder: "@ + body, status: Some(status) })
    }
}

/// The outcome of a folder creation from the answer's status and body.
pub fn folder_created(status: u16, body: &str) -> (r: Result<(), StorageError>)
    ensures
        match r {
            Ok(()) => spec_folder_created(status, body@) is Ok,
            Err(e) => spec_folder_created(status, body@) == Err::<(), StorageErrorView>(e@),
        },
{
    if 200 <= status && status < 300 {
        Ok(())
    } else if status == 405 || status == 409 || crate::text::contains_str(body, "conflict")
        || crate::text::contains_str(body, "exists") {
        Ok(())
    } else {
        Err(StorageError::Provider { message: concat_str("Failed to create folder: ", body), status: Some(status) })
    }
}

} // verus!
