//! Folder listings of the providers: the fields of each answer's entries
//! that a listing reads, as plain values, and the storage items made of them.
use vstd::prelude::*;
use crate::numbers::{parse_u64, spec_parse_u64};
use crate::state::{ck, Timestamp};
use crate::storage::StorageItem;
use crate::text::{concat_str, str_eq};

verus! {

/// The text of an optional string, empty when there is none.
pub open spec fn text_or_empty(o: Option<String>) -> Seq<char> {
    match o {
        Some(s) => s@,
        None => Seq::empty(),
    }
}

/// A size the answer may leave out, 0 when it does.
pub open spec fn size_or_zero(o: Option<u64>) -> u64 {
    match o {
        Some(n) => n,
        None => 0,
    }
}

/// The item `it` has exactly these fields.
pub open spec fn item_is(
    it: StorageItem,
    path: Seq<char>,
    size: u64,
    modified: Timestamp,
    is_dir: bool,
    checksum: Option<Seq<char>>,
) -> bool {
    &&& it.path@ == path
    &&& it.size == size
    &&& it.modified == modified
    &&& it.is_dir == is_dir
    &&& ck(it.checksum) == checksum
}

fn text_of(o: &Option<String>) -> (r: String)
    ensures
        r@ == text_or_empty(*o),
{
    match o {
        Some(s) => s.clone(),
        None => String::new(),
    }
}

fn copy_text(o: &Option<String>) -> (r: Option<String>)
    ensures
        ck(r) == ck(*o),
{
    match o {
        Some(s) => Some(s.clone()),
        None => None,
    }
}

fn size_of(o: Option<u64>) -> (n: u64)
    ensures
        n == size_or_zero(o),
{
    match o {
        Some(n) => n,
        None => 0,
    }
}

/// An entry of a Dropbox `list_folder` answer: its `name`, `size` and
/// `.tag`, each where the answer has it with the expected type.
pub struct DropboxEntry {
    pub name: Option<String>,
    pub size: Option<u64>,
    pub tag: Option<String>,
}

/// What a Dropbox entry lists: a folder when its tag is `folder`.
pub open spec fn dropbox_shows(e: DropboxEntry, it: StorageItem, now: Timestamp) -> bool {
    item_is(it, text_or_empty(e.name), size_or_zero(e.size), now, text_or_empty(e.tag) == "folder"@, None)
}

/// The items of a Dropbox folder listing, one per entry, in order; `now` is
/// their modification time.
pub fn dropbox_items(entries: &Vec<DropboxEntry>, now: Timestamp) -> (r: Vec<StorageItem>)
    ensures
        r@.len() == entries@.len(),
        forall|k: int| 0 <= k < r@.len() ==> dropbox_shows(entries@[k], #[trigger] r@[k], now),
{
    let mut r: Vec<StorageItem> = Vec::new();
    let mut i: usize = 0;
    while i < entries.len()
        invariant
            i <= entries@.len(),
            r@.len() == i,
            forall|k: int| 0 <= k < i ==> dropbox_shows(entries@[k], #[trigger] r@[k], now),
        decreases entries.len() - i,
    {
        let e = &entries[i];
        let tag = text_of(&e.tag);
        let is_dir = str_eq(tag.as_str(), "folder");
        r.push(StorageItem { path: text_of(&e.name), size: size_of(e.size), modified: now, is_dir, checksum: None });
        i = i + 1;
    }
    r
}

/// An entry of a OneDrive `children` answer: its `name` and `size` where it
/// has them, and whether it carries a `folder` facet.
pub struct OneDriveEntry {
    pub name: Option<String>,
    pub size: Option<u64>,
    pub has_folder: bool,
}

/// What a OneDrive entry lists: a folder when it has the `folder` facet.
pub open spec fn onedrive_shows(e: OneDriveEntry, it: StorageItem, now: Timestamp) -> bool {
    item_is(it, text_or_empty(e.name), size_or_zero(e.size), now, e.has_folder, None)
}

/// The items of a OneDrive folder listing, one per entry, in order.
pub fn onedrive_items(entries: &Vec<OneDriveEntry>, now: Timestamp) -> (r: Vec<StorageItem>)
    ensures
        r@.len() == entries@.len(),
        forall|k: int| 0 <= k < r@.len() ==> onedrive_shows(entries@[k], #[trigger] r@[k], now),
{
    let mut r: Vec<StorageItem> = Vec::new();
    let mut i: usize = 0;
    while i < entries.len()
        invariant
            i <= entries@.len(),
            r@.len() == i,
            forall|k: int| 0 <= k < i ==> onedrive_shows(entries@[k], #[trigger] r@[k], now),
        decreases entries.len() - i,
    {
        let e = &entries[i];
        r.push(StorageItem { path: text_of(&e.name), size: size_of(e.size), modified: now, is_dir: e.has_folder, checksum: None });
        i = i + 1;
    }
    r
}

/// A file of a Google Drive `files` answer: `name`, `size` (a decimal
/// string), `mimeType` and `md5Checksum`, each where it is a string.
pub struct DriveFile {
    pub name: Option<String>,
    pub size: Option<String>,
    pub mime_type: Option<String>,
    pub md5_checksum: Option<String>,
}

/// The size Drive reports: its decimal text read as a `u64`, 0 when it is
/// missing or does not read as one.
pub open spec fn drive_size(s: Option<String>) -> u64 {
    match s {
        Some(t) => match spec_parse_u64(t@) {
            Some(n) => n,
            None => 0,
        },
        None => 0,
    }
}

/// What a Drive file lists: a folder when its type is Drive's folder type,
/// with its MD5 checksum when it has one.
pub open spec fn drive_shows(f: DriveFile, it: StorageItem, now: Timestamp) -> bool {
    item_is(
        it,
        text_or_empty(f.name),
        drive_size(f.size),
        now,
        text_or_empty(f.mime_type) == "application/vnd.google-apps.folder"@,
        ck(f.md5_checksum),
    )
}

/// The items of a Google Drive folder listing, one per file, in order.
pub fn drive_items(files: &Vec<DriveFile>, now: Timestamp) -> (r: Vec<StorageItem>)
    ensures
        r@.len() == files@.len(),
        forall|k: int| 0 <= k < r@.len() ==> drive_shows(files@[k], #[trigger] r@[k], now),
{
    let mut r: Vec<StorageItem> = Vec::new();
    let mut i: usize = 0;
    while i < files.len()
        invariant
            i <= files@.len(),
            r@.len() == i,
            forall|k: int| 0 <= k < i ==> drive_shows(files@[k], #[trigger] r@[k], now),
        decreases files.len() - i,
    {
        let f = &files[i];
        let size: u64 = match &f.size {
            Some(t) => match parse_u64(t.as_str()) {
                Some(n) => n,
                None => 0,
            },
            None => 0,
        };
        let mime = text_of(&f.mime_type);
        let is_dir = str_eq(mime.as_str(), "application/vnd.google-apps.folder");
        r.push(StorageItem { path: text_of(&f.name), size, modified: now, is_dir, checksum: copy_text(&f.md5_checksum) });
        i = i + 1;
    }
    r
}

/// A time `secs` seconds after the Unix epoch, in nanoseconds.
pub open spec fn secs_nanos(secs: u64) -> Timestamp {
    (secs as int * 1_000_000_000) as Timestamp
}

/// The nanoseconds since the Unix epoch of `secs` whole seconds.
pub fn nanos_from_secs(secs: u64) -> (t: Timestamp)
    ensures
        t == secs_nanos(secs),
{
    assert(secs as int * 1_000_000_000 <= u64::MAX as int * 1_000_000_000) by (nonlinear_arith);
    (secs as u128) * 1_000_000_000
}

/// An entry of a pCloud `listfolder` answer.
pub struct PCloudEntry {
    pub name: String,
    pub size: Option<u64>,
    /// Seconds since the Unix epoch, where the answer has them.
    pub modified: Option<u64>,
    pub isfolder: bool,
}

/// The files among pCloud entries, in order: folders are left out.
pub open spec fn pcloud_files(es: Seq<PCloudEntry>) -> Seq<PCloudEntry>
    decreases es.len(),
{
    if es.len() == 0 {
        Seq::empty()
    } else {
        let rest = pcloud_files(es.drop_last());
        if es.last().isfolder { rest } else { rest.push(es.last()) }
    }
}

/// What a pCloud file lists: its name below the destination folder, its
/// time when it has one (`now` otherwise).
pub open spec fn pcloud_shows(e: PCloudEntry, it: StorageItem, dest: Option<Seq<char>>, now: Timestamp) -> bool {
    item_is(
        it,
        crate::paths::path_in_destination(e.name@, dest),
        size_or_zero(e.size),
        match e.modified {
            Some(s) => secs_nanos(s),
            None => now,
        },
        false,
        None,
    )
}

/// The items of a pCloud folder listing: its files, in order.
pub fn pcloud_items(entries: &Vec<PCloudEntry>, destination_folder: Option<&str>, now: Timestamp) -> (r: Vec<StorageItem>)
    ensures
        r@.len() == pcloud_files(entries@).len(),
        forall|k: int| 0 <= k < r@.len() ==> pcloud_shows(
            pcloud_files(entries@)[k],
            #[trigger] r@[k],
            crate::paths::opt_str(destination_folder),
            now,
        ),
{
    let ghost dest = crate::paths::opt_str(destination_folder);
    let mut r: Vec<StorageItem> = Vec::new();
    let mut i: usize = 0;
    assert(entries@.take(0) =~= Seq::<PCloudEntry>::empty());
    while i < entries.len()
        invariant
            i <= entries@.len(),
            dest == crate::paths::opt_str(destination_folder),
            r@.len() == pcloud_files(entries@.take(i as int)).len(),
            forall|k: int| 0 <= k < r@.len() ==> pcloud_shows(
                pcloud_files(entries@.take(i as int))[k],
                #[trigger] r@[k],
                dest,
                now,
            ),
        decreases entries.len() - i,
    {
        proof {
            assert(entries@.take(i as int + 1).drop_last() =~= entries@.take(i as int));
            assert(entries@.take(i as int + 1).last() == entries@[i as int]);
        }
        let e = &entries[i];
        if !e.isfolder {
            let modified = match e.modified {
                Some(s) => nanos_from_secs(s),
                None => now,
            };
            let path = crate::paths::strip_destination(e.name.as_str(), destination_folder);
            let ghost before = r@;
            r.push(StorageItem { path, size: size_of(e.size), modified, is_dir: false, checksum: None });
            proof {
                assert forall|k: int| 0 <= k < r@.len() implies pcloud_shows(
                    pcloud_files(entries@.take(i as int + 1))[k],
                    #[trigger] r@[k],
                    dest,
                    now,
                ) by {
                    if k < before.len() {
                        assert(r@[k] == before[k]);
                    }
                }
            }
        }
        i = i + 1;
    }
    assert(entries@.take(entries@.len() as int) =~= entries@);
    r
}

/// `DateTime::parse_from_rfc3339`: the seconds since the Unix epoch and the
/// nanoseconds past that second of an RFC 3339 date-and-time, `None` when
/// the text is not one.
pub uninterp spec fn rfc3339_time(text: Seq<char>) -> Option<(i64, u32)>;

/// chrono's RFC 3339 parser, read as a timestamp and its sub-second part.
#[verifier::external_body]
fn parse_rfc3339(text: &str) -> (r: Option<(i64, u32)>)
    ensures
        r == rfc3339_time(text@),
{
    match chrono::DateTime::parse_from_rfc3339(text) {
        Ok(dt) => Some((dt.timestamp(), dt.timestamp_subsec_nanos())),
        Err(_) => None,
    }
}

/// The nanoseconds since the Unix epoch of a parsed time; times before the
/// epoch, which a timestamp cannot hold, are taken as the epoch.
pub open spec fn instant_nanos(secs: i64, subsec: u32) -> Timestamp {
    let n = secs as int * 1_000_000_000 + subsec as int;
    if n < 0 { 0 } else { n as Timestamp }
}

/// The timestamp of a parsed time (seconds and nanoseconds).
pub fn nanos_of_instant(secs: i64, subsec: u32) -> (t: Timestamp)
    ensures
        t == instant_nanos(secs, subsec),
{
    assert(i64::MIN as int * 1_000_000_000 <= secs as int * 1_000_000_000 <= i64::MAX as int * 1_000_000_000)
        by (nonlinear_arith);
    let n: i128 = (secs as i128) * 1_000_000_000 + (subsec as i128);
    if n < 0 {
        0
    } else {
        n as u128
    }
}

/// The time a provider dates an entry with, `now` when it has no date or
/// the date is not RFC 3339.
pub open spec fn dated_or(date: Option<String>, now: Timestamp) -> Timestamp {
    match date {
        Some(d) => match rfc3339_time(d@) {
            Some(t) => instant_nanos(t.0, t.1),
            None => now,
        },
        None => now,
    }
}

fn date_or_now(date: &Option<String>, now: Timestamp) -> (t: Timestamp)
    ensures
        t == dated_or(*date, now),
{
    match date {
        Some(d) => match parse_rfc3339(d.as_str()) {
            Some(x) => nanos_of_instant(x.0, x.1),
            None => now,
        },
        None => now,
    }
}

/// A row of Pinata's pin list: the pinned file's name, size and pinning date.
pub struct PinRow {
    pub name: String,
    pub size: u64,
    pub date_pinned: Option<String>,
}

/// What a pin lists: a file below the destination folder, dated by its pinning.
pub open spec fn pin_shows(row: PinRow, it: StorageItem, dest: Option<Seq<char>>, now: Timestamp) -> bool {
    item_is(
        it,
        crate::paths::path_in_destination(row.name@, dest),
        row.size,
        dated_or(row.date_pinned, now),
        false,
        None,
    )
}

/// The items of a pin list, one per row, in order.
pub fn pin_items(rows: &Vec<PinRow>, destination_folder: Option<&str>, now: Timestamp) -> (r: Vec<StorageItem>)
    ensures
        r@.len() == rows@.len(),
        forall|k: int| 0 <= k < r@.len() ==> pin_shows(
            rows@[k],
            #[trigger] r@[k],
            crate::paths::opt_str(destination_folder),
            now,
        ),
{
    let mut r: Vec<StorageItem> = Vec::new();
    let mut i: usize = 0;
    while i < rows.len()
        invariant
            i <= rows@.len(),
            r@.len() == i,
            forall|k: int| 0 <= k < i ==> pin_shows(
                rows@[k],
                #[trigger] r@[k],
                crate::paths::opt_str(destination_folder),
                now,
            ),
        decreases rows.len() - i,
    {
        let row = &rows[i];
        let path = crate::paths::strip_destination(row.name.as_str(), destination_folder);
        let modified = date_or_now(&row.date_pinned, now);
        r.push(StorageItem { path, size: row.size, modified, is_dir: false, checksum: None });
        i = i + 1;
    }
    r
}

/// The path of an entry listed under `listed_path`: its name, behind the
/// listed path and a slash unless that path is empty.
pub open spec fn child_path(listed_path: Seq<char>, name: Seq<char>) -> Seq<char> {
    if listed_path.len() == 0 { name } else { listed_path + "/"@ + name }
}

/// The path of an entry named `name` listed under `listed_path`.
pub fn entry_path(listed_path: &str, name: &str) -> (r: String)
    ensures
        r@ == child_path(listed_path@, name@),
{
    if listed_path.is_empty() {
        name.to_owned()
    } else {
        let r = concat_str(listed_path, "/");
        concat_str(r.as_str(), name)
    }
}

/// An entry of a Box folder's `items` answer.
pub struct BoxItem {
    /// `file` or `folder`.
    pub item_type: String,
    pub name: String,
    pub size: Option<u64>,
    pub content_modified_at: Option<String>,
    pub sha1: Option<String>,
}

/// What a Box entry lists: its path under the listed folder, a folder when
/// its type is `folder`, dated by its content and with its SHA-1.
pub open spec fn box_shows(e: BoxItem, it: StorageItem, listed_path: Seq<char>, now: Timestamp) -> bool {
    item_is(
        it,
        child_path(listed_path, e.name@),
        size_or_zero(e.size),
        dated_or(e.content_modified_at, now),
        e.item_type@ == "folder"@,
        ck(e.sha1),
    )
}

/// The items of a Box folder listing, one per entry, in order.
pub fn box_items(entries: &Vec<BoxItem>, listed_path: &str, now: Timestamp) -> (r: Vec<StorageItem>)
    ensures
        r@.len() == entries@.len(),
        forall|k: int| 0 <= k < r@.len() ==> box_shows(entries@[k], #[trigger] r@[k], listed_path@, now),
{
    let mut r: Vec<StorageItem> = Vec::new();
    let mut i: usize = 0;
    while i < entries.len()
        invariant
            i <= entries@.len(),
            r@.len() == i,
            forall|k: int| 0 <= k < i ==> box_shows(entries@[k], #[trigger] r@[k], listed_path@, now),
        decreases entries.len() - i,
    {
        let e = &entries[i];
        let path = entry_path(listed_path, e.name.as_str());
        let modified = date_or_now(&e.content_modified_at, now);
        let is_dir = str_eq(e.item_type.as_str(), "folder");
        r.push(StorageItem { path, size: size_of(e.size), modified, is_dir, checksum: copy_text(&e.sha1) });
        i = i + 1;
    }
    r
}

/// The prefix an S3 listing asks for: the folder's key, with a closing
/// slash unless it is empty or already has one.
pub open spec fn spec_s3_list_prefix(key: Seq<char>) -> Seq<char> {
    if key.len() > 0 && key.last() != '/' { key.push('/') } else { key }
}

/// The prefix that lists the folder whose key is `key`.
pub fn s3_list_prefix(key: &str) -> (p: String)
    ensures
        p@ == spec_s3_list_prefix(key@),
{
    let mut p = key.to_owned();
    let closed = crate::text::ends_with(key, "/");
    proof {
        reveal_strlit("/");
        if key@.len() > 0 {
            let last = key@.skip(key@.len() - 1);
            assert(last =~= seq![key@.last()]);
            assert(closed == (key@.last() == '/')) by {
                if closed {
                    assert(last[0] == "/"@[0]);
                }
                if key@.last() == '/' {
                    assert(last =~= "/"@);
                }
            }
        }
    }
    if !key.is_empty() && !closed {
        p.push('/');
    }
    p
}

/// A key with a leading `prefix` removed, when it has one.
pub open spec fn below_prefix(key: Seq<char>, prefix: Seq<char>) -> Seq<char> {
    if prefix.len() <= key.len() && key.take(prefix.len() as int) == prefix {
        key.skip(prefix.len() as int)
    } else {
        key
    }
}

fn strip_key_prefix(key: &str, prefix: &str) -> (r: String)
    ensures
        r@ == below_prefix(key@, prefix@),
{
    if crate::text::starts_with(key, prefix) {
        let cs = crate::text::chars_of(key);
        let n = prefix.unicode_len();
        let r = crate::text::string_from_range(cs.as_slice(), n, cs.len());
        assert(key@.subrange(n as int, key@.len() as int) =~= key@.skip(n as int));
        r
    } else {
        key.to_owned()
    }
}

/// An object of an S3 listing: its key and size.
pub struct S3Object {
    pub key: String,
    pub size: u64,
}

/// The files of an S3 listing page: each object's key below the prefix and
/// its size, leaving out the objects with nothing below it (the folder's own
/// marker among them).
pub open spec fn s3_files(objects: Seq<S3Object>, prefix: Seq<char>) -> Seq<(Seq<char>, u64)>
    decreases objects.len(),
{
    if objects.len() == 0 {
        Seq::empty()
    } else {
        let rest = s3_files(objects.drop_last(), prefix);
        let rel = below_prefix(objects.last().key@, prefix);
        if rel.len() == 0 { rest } else { rest.push((rel, objects.last().size)) }
    }
}

/// The sub-folders of an S3 listing page: each common prefix below the
/// listed one, closing slashes removed, leaving out the empty ones.
pub open spec fn s3_folders(prefixes: Seq<String>, prefix: Seq<char>) -> Seq<Seq<char>>
    decreases prefixes.len(),
{
    if prefixes.len() == 0 {
        Seq::empty()
    } else {
        let rest = s3_folders(prefixes.drop_last(), prefix);
        let rel = crate::text::trim_end(below_prefix(prefixes.last()@, prefix), '/');
        if rel.len() == 0 { rest } else { rest.push(rel) }
    }
}

/// The items of one page of an S3 listing under `prefix`: its files, then
/// its sub-folders, each in order.
pub fn s3_page_items(
    prefix: &str,
    objects: &Vec<S3Object>,
    common_prefixes: &Vec<String>,
    now: Timestamp,
) -> (r: Vec<StorageItem>)
    ensures
        r@.len() == s3_files(objects@, prefix@).len() + s3_folders(common_prefixes@, prefix@).len(),
        forall|k: int| 0 <= k < s3_files(objects@, prefix@).len() ==> item_is(
            #[trigger] r@[k],
            s3_files(objects@, prefix@)[k].0,
            s3_files(objects@, prefix@)[k].1,
            now,
            false,
            None,
        ),
        forall|k: int| 0 <= k < s3_folders(common_prefixes@, prefix@).len() ==> item_is(
            #[trigger] r@[s3_files(objects@, prefix@).len() + k],
            s3_folders(common_prefixes@, prefix@)[k],
            0,
            now,
            true,
            None,
        ),
{
    let mut r: Vec<StorageItem> = Vec::new();
    let mut i: usize = 0;
    assert(objects@.take(0) =~= Seq::<S3Object>::empty());
    while i < objects.len()
        invariant
            i <= objects@.len(),
            r@.len() == s3_files(objects@.take(i as int), prefix@).len(),
            forall|k: int| 0 <= k < r@.len() ==> item_is(
                #[trigger] r@[k],
                s3_files(objects@.take(i as int), prefix@)[k].0,
                s3_files(objects@.take(i as int), prefix@)[k].1,
                now,
                false,
                None,
            ),
        decreases objects.len() - i,
    {
        proof {
            assert(objects@.take(i as int + 1).drop_last() =~= objects@.take(i as int));
            assert(objects@.take(i as int + 1).last() == objects@[i as int]);
        }
        let rel = strip_key_prefix(objects[i].key.as_str(), prefix);
        if !rel.as_str().is_empty() {
            let ghost before = r@;
            r.push(StorageItem { path: rel, size: objects[i].size, modified: now, is_dir: false, checksum: None });
            proof {
                let fs = s3_files(objects@.take(i as int + 1), prefix@);
                assert forall|k: int| 0 <= k < r@.len() implies item_is(#[trigger] r@[k], fs[k].0, fs[k].1, now, false, None) by {
                    if k < before.len() {
                        assert(r@[k] == before[k]);
                    }
                }
            }
        }
        i = i + 1;
    }
    assert(objects@.take(objects@.len() as int) =~= objects@);
    let ghost files = r@;
    let nf = r.len();
    let mut j: usize = 0;
    assert(common_prefixes@.take(0) =~= Seq::<String>::empty());
    while j < common_prefixes.len()
        invariant
            j <= common_prefixes@.len(),
            nf == files.len(),
            files.len() == s3_files(objects@, prefix@).len(),
            r@.len() == nf + s3_folders(common_prefixes@.take(j as int), prefix@).len(),
            forall|k: int| 0 <= k < nf ==> #[trigger] r@[k] == files[k],
            forall|k: int| 0 <= k < files.len() ==> item_is(
                #[trigger] files[k],
                s3_files(objects@, prefix@)[k].0,
                s3_files(objects@, prefix@)[k].1,
                now,
                false,
                None,
            ),
            forall|k: int| 0 <= k < s3_folders(common_prefixes@.take(j as int), prefix@).len() ==> item_is(
                #[trigger] r@[nf + k],
                s3_folders(common_prefixes@.take(j as int), prefix@)[k],
                0,
                now,
                true,
                None,
            ),
        decreases common_prefixes.len() - j,
    {
        proof {
            assert(common_prefixes@.take(j as int + 1).drop_last() =~= common_prefixes@.take(j as int));
            assert(common_prefixes@.take(j as int + 1).last() == common_prefixes@[j as int]);
        }
        let below = strip_key_prefix(common_prefixes[j].as_str(), prefix);
        let cs = crate::text::chars_of(below.as_str());
        let end = crate::text::skip_trailing(cs.as_slice(), 0, cs.len(), '/');
        assert(cs@.subrange(0, cs@.len() as int) =~= cs@);
        let rel = crate::text::string_from_range(cs.as_slice(), 0, end);
        if !rel.as_str().is_empty() {
            let ghost before = r@;
            r.push(StorageItem { path: rel, size: 0, modified: now, is_dir: true, checksum: None });
            proof {
                let ds = s3_folders(common_prefixes@.take(j as int + 1), prefix@);
                assert forall|k: int| 0 <= k < ds.len() implies item_is(#[trigger] r@[nf + k], ds[k], 0, now, true, None) by {
                    if nf + k < before.len() {
                        assert(r@[nf + k] == before[nf + k]);
                    }
                }
                assert forall|k: int| 0 <= k < nf implies #[trigger] r@[k] == files[k] by {
                    assert(r@[k] == before[k]);
                }
            }
        }
        j = j + 1;
    }
    assert(common_prefixes@.take(common_prefixes@.len() as int) =~= common_prefixes@);
    r
}

/// `base` joined with `name` as `Path::join` does on Unix: an absolute
/// `name` replaces `base`; otherwise a slash separates them unless `base`
/// is empty or already ends with one.
pub open spec fn path_join(base: Seq<char>, name: Seq<char>) -> Seq<char> {
    if name.len() > 0 && name[0] == '/' {
        name
    } else if base.len() == 0 || base.last() == '/' {
        base + name
    } else {
        base + "/"@ + name
    }
}

/// `base` joined with `name`.
pub fn join_path(base: &str, name: &str) -> (r: String)
    ensures
        r@ == path_join(base@, name@),
{
    let absolute = crate::text::starts_with(name, "/");
    let closed = crate::text::ends_with(base, "/");
    proof {
        reveal_strlit("/");
        if name@.len() > 0 {
            let first = name@.take(1);
            assert(first =~= seq![name@[0]]);
            assert(absolute == (name@[0] == '/')) by {
                if absolute {
                    assert(first[0] == "/"@[0]);
                }
                if name@[0] == '/' {
                    assert(first =~= "/"@);
                }
            }
        }
        if base@.len() > 0 {
            let last = base@.skip(base@.len() - 1);
            assert(last =~= seq![base@.last()]);
            assert(closed == (base@.last() == '/')) by {
                if closed {
                    assert(last[0] == "/"@[0]);
                }
                if base@.last() == '/' {
                    assert(last =~= "/"@);
                }
            }
        }
    }
    if absolute {
        name.to_owned()
    } else if base.is_empty() || closed {
        concat_str(base, name)
    } else {
        let r = concat_str(base, "/");
        concat_str(r.as_str(), name)
    }
}

/// An entry of an SFTP directory read: its file name and attributes.
pub struct SftpEntry {
    pub name: String,
    pub size: Option<u64>,
    /// Seconds since the Unix epoch, where the server gives them.
    pub mtime: Option<u64>,
    pub is_dir: bool,
}

/// The entries of a directory read other than `.` and `..`, in order.
pub open spec fn sftp_kept(es: Seq<SftpEntry>) -> Seq<SftpEntry>
    decreases es.len(),
{
    if es.len() == 0 {
        Seq::empty()
    } else {
        let rest = sftp_kept(es.drop_last());
        let n = es.last().name@;
        if n == "."@ || n == ".."@ { rest } else { rest.push(es.last()) }
    }
}

/// What an SFTP entry lists: its path under the listed one, dated by its
/// modification time (the epoch when the server gives none).
pub open spec fn sftp_shows(e: SftpEntry, it: StorageItem, listed_path: Seq<char>) -> bool {
    item_is(
        it,
        path_join(listed_path, e.name@),
        size_or_zero(e.size),
        secs_nanos(size_or_zero(e.mtime)),
        e.is_dir,
        None,
    )
}

/// The items of an SFTP directory listing of `listed_path`.
pub fn sftp_items(listed_path: &str, entries: &Vec<SftpEntry>) -> (r: Vec<StorageItem>)
    ensures
        r@.len() == sftp_kept(entries@).len(),
        forall|k: int| 0 <= k < r@.len() ==> sftp_shows(sftp_kept(entries@)[k], #[trigger] r@[k], listed_path@),
{
    let mut r: Vec<StorageItem> = Vec::new();
    let mut i: usize = 0;
    assert(entries@.take(0) =~= Seq::<SftpEntry>::empty());
    while i < entries.len()
        invariant
            i <= entries@.len(),
            r@.len() == sftp_kept(entries@.take(i as int)).len(),
            forall|k: int| 0 <= k < r@.len() ==> sftp_shows(
                sftp_kept(entries@.take(i as int))[k],
                #[trigger] r@[k],
                listed_path@,
            ),
        decreases entries.len() - i,
    {
        proof {
            assert(entries@.take(i as int + 1).drop_last() =~= entries@.take(i as int));
            assert(entries@.take(i as int + 1).last() == entries@[i as int]);
        }
        let e = &entries[i];
        let dot = str_eq(e.name.as_str(), ".");
        let dotdot = str_eq(e.name.as_str(), "..");
        if !dot && !dotdot {
            let path = join_path(listed_path, e.name.as_str());
            let modified = nanos_from_secs(size_of(e.mtime));
            let ghost before = r@;
            r.push(StorageItem { path, size: size_of(e.size), modified, is_dir: e.is_dir, checksum: None });
            proof {
                assert forall|k: int| 0 <= k < r@.len() implies sftp_shows(
                    sftp_kept(entries@.take(i as int + 1))[k],
                    #[trigger] r@[k],
                    listed_path@,
                ) by {
                    if k < before.len() {
                        assert(r@[k] == before[k]);
                    }
                }
            }
        }
        i = i + 1;
    }
    assert(entries@.take(entries@.len() as int) =~= entries@);
    r
}

/// The items of a Nextcloud folder listing of `listed_path`, from the
/// entries of its `PROPFIND` answer: those `webdav::listing_items` shows,
/// each placed under the listed path.
pub fn nextcloud_items(entries: &Vec<(String, u64, bool)>, listed_path: &str, now: Timestamp) -> (r: Vec<StorageItem>)
    ensures
        r@.len() == crate::webdav::spec_listing(entries@).len(),
        forall|k: int| 0 <= k < r@.len() ==> item_is(
            #[trigger] r@[k],
            child_path(listed_path@, crate::webdav::spec_listing(entries@)[k].0),
            crate::webdav::spec_listing(entries@)[k].1,
            now,
            crate::webdav::spec_listing(entries@)[k].2,
            None,
        ),
{
    let named = crate::webdav::listing_items(entries, now);
    let ghost ls = crate::webdav::spec_listing(entries@);
    let mut r: Vec<StorageItem> = Vec::new();
    let mut i: usize = 0;
    while i < named.len()
        invariant
            i <= named@.len(),
            ls == crate::webdav::spec_listing(entries@),
            named@.len() == ls.len(),
            forall|k: int| 0 <= k < named@.len() ==> {
                &&& (#[trigger] named@[k]).path@ == ls[k].0
                &&& named@[k].size == ls[k].1
                &&& named@[k].is_dir == ls[k].2
                &&& named@[k].modified == now
                &&& named@[k].checksum is None
            },
            r@.len() == i,
            forall|k: int| 0 <= k < i ==> item_is(#[trigger] r@[k], child_path(listed_path@, ls[k].0), ls[k].1, now, ls[k].2, None),
        decreases named.len() - i,
    {
        let it = &named[i];
        let path = entry_path(listed_path, it.path.as_str());
        r.push(StorageItem { path, size: it.size, modified: it.modified, is_dir: it.is_dir, checksum: None });
        i = i + 1;
    }
    r
}

} // verus!
