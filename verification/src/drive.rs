//! Google Drive search queries: finding an item by name under a parent
//! folder, and listing a folder's children.
use vstd::prelude::*;
use crate::text::concat_str;

verus! {

/// A name with every single quote escaped by a backslash (`str::replace('\'', "\\'")`).
pub open spec fn escape_quotes(s: Seq<char>) -> Seq<char>
    decreases s.len(),
{
    if s.len() == 0 {
        Seq::empty()
    } else {
        escape_quotes(s.drop_last()) + if s.last() == '\'' { seq!['\\', '\''] } else { seq![s.last()] }
    }
}

pub fn escape_name(s: &str) -> (r: String)
    ensures
        r@ == escape_quotes(s@),
{
    let cs = crate::text::chars_of(s);
    let mut r = String::new();
    let mut i: usize = 0;
    while i < cs.len()
        invariant
            i <= cs@.len(),
            cs@ == s@,
            r@ == escape_quotes(cs@.take(i as int)),
        decreases cs.len() - i,
    {
        let ghost before = r@;
        if cs[i] == '\'' {
            r.push('\\');
            r.push('\'');
        } else {
            r.push(cs[i]);
        }
        proof {
            assert(cs@.take(i as int + 1).drop_last() =~= cs@.take(i as int));
            assert(cs@.take(i as int + 1).last() == cs@[i as int]);
            assert(r@ =~= escape_quotes(cs@.take(i as int + 1)));
        }
        i = i + 1;
    }
    assert(cs@.take(cs@.len() as int) =~= cs@);
    r
}

/// The query that finds an item by name in a parent folder: folders only, or
/// everything but folders; items in the trash are left out.
pub open spec fn spec_lookup_query(name: Seq<char>, parent_id: Seq<char>, folder: bool) -> Seq<char> {
    "name = '"@ + escape_quotes(name) + "' and '"@ + parent_id + "' in parents and mimeType "@
        + (if folder { "="@ } else { "!="@ }) + " 'application/vnd.google-apps.folder' and trashed = false"@
}

/// The search query for an item named `name` in the folder `parent_id`.
pub fn lookup_query(name: &str, parent_id: &str, folder: bool) -> (q: String)
    ensures
        q@ == spec_lookup_query(name@, parent_id@, folder),
{
    let q = concat_str("name = '", escape_name(name).as_str());
    let q = concat_str(q.as_str(), "' and '");
    let q = concat_str(q.as_str(), parent_id);
    let q = concat_str(q.as_str(), "' in parents and mimeType ");
    let q = concat_str(q.as_str(), if folder { "=" } else { "!=" });
    concat_str(q.as_str(), " 'application/vnd.google-apps.folder' and trashed = false")
}

/// The search query for the children of a folder.
pub fn children_query(folder_id: &str) -> (q: String)
    ensures
        q@ == "'"@ + folder_id@ + "' in parents and trashed = false"@,
{
    let q = concat_str("'", folder_id);
    concat_str(q.as_str(), "' in parents and trashed = false")
}

/// When resolving a path, every segment but the last is a folder; the last
/// is one when a folder is being resolved.
pub fn segment_is_folder(index: usize, count: usize, resolving_folder: bool) -> (b: bool)
    requires
        index < count,
    ensures
        b == (index + 1 < count || resolving_folder),
{
    index + 1 < count || resolving_folder
}

} // verus!
