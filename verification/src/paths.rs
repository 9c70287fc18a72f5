//! Remote path formatting: destination-folder prefixes and watched-folder paths.
use vstd::prelude::*;
use crate::text::{concat_str, concat_strings, trim_both, trim_both_str, trim_start, trim_start_str};

verus! {

/// Abstract value of an optional string slice.
pub open spec fn opt_str(o: Option<&str>) -> Option<Seq<char>> {
    match o {
        Some(s) => Some(s@),
        None => None,
    }
}

/// The destination folder with surrounding slashes removed, when it is not empty.
pub open spec fn clean_dest(dest: Option<Seq<char>>) -> Option<Seq<char>> {
    match dest {
        Some(d) => if trim_both(d, '/').len() > 0 { Some(trim_both(d, '/')) } else { None },
        None => None,
    }
}

/// `dest/path` without leading slash, the form used by object stores.
pub open spec fn spec_relative_path(path: Seq<char>, dest: Option<Seq<char>>) -> Seq<char> {
    let p = trim_start(path, '/');
    match clean_dest(dest) {
        Some(d) => if p.len() == 0 { d } else { d + seq!['/'] + p },
        None => p,
    }
}

/// `/dest/path`, the form used by file-oriented APIs (empty for the root).
pub open spec fn spec_absolute_path(path: Seq<char>, dest: Option<Seq<char>>) -> Seq<char> {
    let p = trim_start(path, '/');
    let head = match clean_dest(dest) {
        Some(d) => seq!['/'] + d,
        None => Seq::empty(),
    };
    if p.len() > 0 { head + seq!['/'] + p } else { head }
}

fn clean_dest_exec(dest: Option<&str>) -> (r: Option<String>)
    ensures
        crate::state::ck(r) == clean_dest(opt_str(dest)),
{
    match dest {
        Some(d) => {
            let t = trim_both_str(d, '/');
            if !t.as_str().is_empty() { Some(t) } else { None }
        },
        None => None,
    }
}

/// Formats a relative remote path, incorporating an optional destination folder prefix.
pub fn format_relative_path(remote_path: &str, destination_folder: Option<&str>) -> (r: String)
    ensures
        r@ == spec_relative_path(remote_path@, opt_str(destination_folder)),
{
    let clean_path = trim_start_str(remote_path, '/');
    match clean_dest_exec(destination_folder) {
        Some(d) => {
            if clean_path.as_str().is_empty() {
                d
            } else {
                let with_slash = concat_str(d.as_str(), "/");
                proof { reveal_strlit("/"); }
                concat_strings(&with_slash, &clean_path)
            }
        },
        None => clean_path,
    }
}

/// Formats an absolute remote path starting with a slash, incorporating an
/// optional destination folder prefix.
pub fn format_absolute_path(remote_path: &str, destination_folder: Option<&str>) -> (r: String)
    ensures
        r@ == spec_absolute_path(remote_path@, opt_str(destination_folder)),
{
    let clean_path = trim_start_str(remote_path, '/');
    let mut full_path = String::new();
    match clean_dest_exec(destination_folder) {
        Some(d) => {
            full_path.push('/');
            full_path.append(d.as_str());
        },
        None => {},
    }
    if !clean_path.as_str().is_empty() {
        full_path.push('/');
        full_path.append(clean_path.as_str());
    }
    full_path
}

/// The absolute form is the relative form behind a slash (and empty for the root).
pub proof fn law_absolute_is_slash_then_relative(path: Seq<char>, dest: Option<Seq<char>>)
    ensures
        spec_absolute_path(path, dest) == if spec_relative_path(path, dest).len() == 0 {
            Seq::<char>::empty()
        } else {
            seq!['/'] + spec_relative_path(path, dest)
        },
{
    let p = trim_start(path, '/');
    match clean_dest(dest) {
        Some(d) => {
            if p.len() > 0 {
                assert(seq!['/'] + d + seq!['/'] + p =~= seq!['/'] + (d + seq!['/'] + p));
            }
        },
        None => {
            assert(Seq::<char>::empty() + seq!['/'] + p =~= seq!['/'] + p);
        },
    }
}

} // verus!

verus! {

/// Whether `cs` begins with `pre`.
pub fn has_prefix(cs: &[char], pre: &[char], pre_len: usize) -> (b: bool)
    requires
        pre_len <= pre@.len(),
    ensures
        b == (pre_len <= cs@.len() && cs@.take(pre_len as int) == pre@.take(pre_len as int)),
{
    if pre_len > cs.len() {
        return false;
    }
    let mut i: usize = 0;
    while i < pre_len
        invariant
            i <= pre_len <= cs@.len(),
            pre_len <= pre@.len(),
            cs@.take(i as int) == pre@.take(i as int),
        decreases pre_len - i,
    {
        if cs[i] != pre[i] {
            assert(cs@.take(pre_len as int)[i as int] != pre@.take(pre_len as int)[i as int]);
            return false;
        }
        assert(cs@.take(i as int + 1) =~= cs@.take(i as int).push(cs@[i as int]));
        assert(pre@.take(i as int + 1) =~= pre@.take(i as int).push(pre@[i as int]));
        i = i + 1;
    }
    true
}

/// The path of `path` relative to the watched folder, or `None` when it lies
/// outside it. Trailing slashes of the folder are ignored.
pub open spec fn spec_remote_path(path: Seq<char>, watch_dir: Seq<char>) -> Option<Seq<char>> {
    let w = crate::text::trim_end(watch_dir, '/');
    if path == w {
        Some(Seq::empty())
    } else if path.len() > w.len() && path.take(w.len() as int) == w && path[w.len() as int] == '/' {
        Some(trim_start(path.skip(w.len() as int), '/'))
    } else {
        None
    }
}

/// Maps a local path inside the watched folder to its remote path.
pub fn get_remote_path(path: &str, watch_dir: &str) -> (r: Option<String>)
    ensures
        crate::state::ck(r) == spec_remote_path(path@, watch_dir@),
{
    let p = chars_of_str(path);
    let w = chars_of_str(watch_dir);
    let wl = crate::text::skip_trailing(w.as_slice(), 0, w.len(), '/');
    assert(w@.subrange(0, w@.len() as int) =~= w@);
    let ghost wv = crate::text::trim_end(watch_dir@, '/');
    assert(wv == w@.take(wl as int));
    if p.len() == wl && has_prefix(p.as_slice(), w.as_slice(), wl) {
        assert(p@ =~= p@.take(wl as int));
        return Some(String::new());
    }
    proof {
        if p@ == wv {
            assert(p@.take(wl as int) =~= p@);
        }
    }
    if p.len() > wl && has_prefix(p.as_slice(), w.as_slice(), wl) && p[wl] == '/' {
        let i = crate::text::skip_leading(p.as_slice(), wl, '/');
        assert(p@.subrange(wl as int, p@.len() as int) =~= p@.skip(wl as int));
        return Some(crate::text::string_from_range(p.as_slice(), i, p.len()));
    }
    None
}

fn chars_of_str(s: &str) -> (v: Vec<char>)
    ensures
        v@ == s@,
{
    crate::text::chars_of(s)
}

/// `root` joined with `rest` the way `Path::join` does for a relative `rest`.
pub open spec fn spec_join(root: Seq<char>, rest: Seq<char>) -> Seq<char> {
    if root.len() == 0 {
        rest
    } else if root.last() == '/' {
        root + rest
    } else {
        root + seq!['/'] + rest
    }
}

pub fn join_path(root: &str, rest: &str) -> (r: String)
    ensures
        r@ == spec_join(root@, rest@),
{
    if root.is_empty() {
        return rest.to_owned();
    }
    let cs = chars_of_str(root);
    if cs[cs.len() - 1] == '/' {
        concat_str(root, rest)
    } else {
        let mut r = root.to_owned();
        r.push('/');
        r.append(rest);
        r
    }
}

/// `dest/path` with slashes trimmed from both ends of both parts (the SFTP form).
pub open spec fn spec_trimmed_join(path: Seq<char>, dest: Option<Seq<char>>) -> Seq<char> {
    let d = match dest { Some(d) => trim_both(d, '/'), None => Seq::empty() };
    let p = trim_both(path, '/');
    if d.len() == 0 {
        p
    } else if p.len() == 0 {
        d
    } else {
        d + seq!['/'] + p
    }
}

pub fn trimmed_join(path: &str, dest: Option<&str>) -> (r: String)
    ensures
        r@ == spec_trimmed_join(path@, opt_str(dest)),
{
    let d = match dest {
        Some(d) => trim_both_str(d, '/'),
        None => String::new(),
    };
    let p = trim_both_str(path, '/');
    if d.as_str().is_empty() {
        p
    } else if p.as_str().is_empty() {
        d
    } else {
        let mut r = d;
        r.push('/');
        r.append(p.as_str());
        r
    }
}

} // verus!

verus! {

/// `Path::strip_prefix`: the rest of a path below `base`, or `None` when
/// `base` is not a leading part of it (compared component by component).
pub uninterp spec fn path_below(path: Seq<char>, base: Seq<char>) -> Option<Seq<char>>;

/// `Path::new(path).strip_prefix(base)`, as text.
#[verifier::external_body]
fn strip_path_prefix(path: &str, base: &str) -> (r: Option<String>)
    ensures
        crate::state::ck(r) == path_below(path@, base@),
{
    match std::path::Path::new(path).strip_prefix(base) {
        Ok(p) => Some(p.to_string_lossy().into_owned()),
        Err(_) => None,
    }
}

/// A listed name's path below the destination folder, when it lies there;
/// the name itself otherwise.
pub open spec fn path_in_destination(name: Seq<char>, dest: Option<Seq<char>>) -> Seq<char> {
    match clean_dest(dest) {
        Some(d) => match path_below(name, d) {
            Some(p) => p,
            None => name,
        },
        None => name,
    }
}

/// The path of a listed name relative to the destination folder.
pub fn strip_destination(name: &str, destination_folder: Option<&str>) -> (r: String)
    ensures
        r@ == path_in_destination(name@, opt_str(destination_folder)),
{
    match clean_dest_exec(destination_folder) {
        Some(d) => match strip_path_prefix(name, d.as_str()) {
            Some(p) => p,
            None => name.to_owned(),
        },
        None => name.to_owned(),
    }
}

/// `Path::parent`: the path without its last component, `None` for a root
/// or an empty path.
pub uninterp spec fn parent_of(path: Seq<char>) -> Option<Seq<char>>;

/// `Path::new(path).parent()`, as text.
#[verifier::external_body]
pub(crate) fn path_parent(path: &str) -> (r: Option<String>)
    ensures
        crate::state::ck(r) == parent_of(path@),
{
    std::path::Path::new(path).parent().map(|p| p.to_string_lossy().into_owned())
}

/// `Path::file_name`: the last component of a path, `None` when the path
/// ends in `..` or has no component.
pub uninterp spec fn file_name_of(path: Seq<char>) -> Option<Seq<char>>;

/// `Path::new(path).file_name()`, as text.
#[verifier::external_body]
pub(crate) fn path_file_name(path: &str) -> (r: Option<String>)
    ensures
        crate::state::ck(r) == file_name_of(path@),
{
    std::path::Path::new(path).file_name().map(|n| n.to_string_lossy().into_owned())
}

/// Where an upload of `path` goes on a service that takes a folder and a
/// file name: the parent folder (`/` when there is none) and the last
/// component (empty when there is none).
pub open spec fn spec_upload_target(path: Seq<char>) -> (Seq<char>, Seq<char>) {
    (
        match parent_of(path) {
            Some(d) => d,
            None => "/"@,
        },
        match file_name_of(path) {
            Some(n) => n,
            None => Seq::empty(),
        },
    )
}

/// The folder and file name an upload of `path` is sent as.
pub fn upload_target(path: &str) -> (r: (String, String))
    ensures
        (r.0@, r.1@) == spec_upload_target(path@),
{
    let dir = match path_parent(path) {
        Some(d) => d,
        None => "/".to_owned(),
    };
    let name = match path_file_name(path) {
        Some(n) => n,
        None => String::new(),
    };
    (dir, name)
}

/// The name a pinned file is uploaded under: the last component of its
/// path, or the whole path when it has none.
pub fn pinned_file_name(path: &str) -> (n: String)
    ensures
        n@ == match file_name_of(path@) {
            Some(f) => f,
            None => path@,
        },
{
    match path_file_name(path) {
        Some(n) => n,
        None => path.to_owned(),
    }
}

} // verus!
