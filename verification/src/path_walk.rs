//! Walking a remote path folder by folder, for providers that address items
//! by identifier (Box, MEGA): the segments to walk, and what to do at each.
use vstd::prelude::*;
use crate::storage::{StorageError, StorageErrorView};
use crate::text::{concat_str, spec_split, split_str, str_eq, trim_both, trim_both_str, trim_start, trim_start_str, views_of};

verus! {

/// The folder names to walk for a remote path: those of the destination
/// folder (slashes trimmed), then those of the path (leading slashes trimmed).
pub open spec fn spec_segments(dest: Option<Seq<char>>, path: Seq<char>) -> Seq<Seq<char>> {
    let d = match dest {
        Some(d) => trim_both(d, '/'),
        None => Seq::empty(),
    };
    let p = trim_start(path, '/');
    let ds = if d.len() > 0 { spec_split(d, '/') } else { Seq::empty() };
    let ps = if p.len() > 0 { spec_split(p, '/') } else { Seq::empty() };
    ds + ps
}

fn append_all(out: &mut Vec<String>, more: &Vec<String>)
    ensures
        views_of(final(out)@) == views_of(old(out)@) + views_of(more@),
{
    let ghost start = views_of(out@);
    let mut i: usize = 0;
    while i < more.len()
        invariant
            i <= more@.len(),
            views_of(out@) == start + views_of(more@).take(i as int),
        decreases more.len() - i,
    {
        let c = more[i].clone();
        let ghost prev = out@;
        out.push(c);
        proof {
            assert(views_of(out@) =~= views_of(prev).push(c@));
            assert(views_of(more@).take(i as int + 1) =~= views_of(more@).take(i as int).push(more@[i as int]@));
            assert(views_of(out@) =~= start + views_of(more@).take(i as int + 1));
        }
        i = i + 1;
    }
    assert(views_of(more@).take(more@.len() as int) =~= views_of(more@));
}

/// The folder names to walk for `path` under the destination folder.
pub fn remote_segments(dest: Option<&str>, path: &str) -> (segs: Vec<String>)
    ensures
        views_of(segs@) == spec_segments(crate::paths::opt_str(dest), path@),
{
    let mut segs: Vec<String> = Vec::new();
    assert(views_of(segs@) =~= Seq::<Seq<char>>::empty());
    match dest {
        Some(d) => {
            let clean = trim_both_str(d, '/');
            if !clean.as_str().is_empty() {
                let parts = split_str(clean.as_str(), '/');
                append_all(&mut segs, &parts);
            }
        },
        None => {},
    }
    let clean_path = trim_start_str(path, '/');
    if !clean_path.as_str().is_empty() {
        let parts = split_str(clean_path.as_str(), '/');
        append_all(&mut segs, &parts);
    }
    proof {
        let ds = views_of(segs@);
        assert(ds =~= spec_segments(crate::paths::opt_str(dest), path@));
    }
    segs
}

/// What a walk does with the next segment before looking it up.
pub enum WalkCheck {
    /// An empty segment (from doubled slashes) is passed over.
    Skip,
    /// Look the segment up in the current folder.
    Lookup,
    /// The walk cannot go on.
    Fail(StorageError),
}

/// What a walk does when the segment is not in the current folder.
pub enum MissingSegment {
    /// Create the folder, then go on from it.
    CreateFolder,
    /// The walk cannot go on.
    Fail(StorageError),
}

pub open spec fn not_folder_message(segment: Seq<char>) -> Seq<char> {
    "Path resolution error: intermediate segment '"@ + segment + "' is not a folder"@
}

pub open spec fn missing_message(segment: Seq<char>) -> Seq<char> {
    "Path segment '"@ + segment + "' not found"@
}

/// Box: empty segments are skipped, and a segment cannot be looked up under
/// an item that is not a folder.
pub fn box_check_segment(segment: &str, current_is_dir: bool) -> (c: WalkCheck)
    ensures
        segment@.len() == 0 ==> c is Skip,
        segment@.len() > 0 && current_is_dir ==> c is Lookup,
        segment@.len() > 0 && !current_is_dir ==> (c matches WalkCheck::Fail(e)
            && e@ == (StorageErrorView::Provider { message: not_folder_message(segment@), status: None })),
{
    if segment.is_empty() {
        WalkCheck::Skip
    } else if !current_is_dir {
        let m = concat_str("Path resolution error: intermediate segment '", segment);
        let m = concat_str(m.as_str(), "' is not a folder");
        WalkCheck::Fail(StorageError::Provider { message: m, status: None })
    } else {
        WalkCheck::Lookup
    }
}

/// An entry of a Box folder listing.
pub struct BoxEntry {
    pub id: String,
    pub name: String,
    /// `folder` or `file`.
    pub item_type: String,
}

/// The first entry named `name`, if any.
pub open spec fn first_named(entries: Seq<BoxEntry>, name: Seq<char>, from: int) -> Option<int>
    decreases entries.len() - from,
{
    if from >= entries.len() || from < 0 {
        None
    } else if entries[from].name@ == name {
        Some(from)
    } else {
        first_named(entries, name, from + 1)
    }
}

/// Box: the entry for a segment, the first one with its name: its
/// identifier, and whether it is a folder.
pub fn box_find_entry(entries: &Vec<BoxEntry>, segment: &str) -> (r: Option<(String, bool)>)
    ensures
        first_named(entries@, segment@, 0) is None <==> r is None,
        first_named(entries@, segment@, 0) matches Some(k) ==> (r matches Some(f)
            && f.0@ == entries@[k].id@ && f.1 == (entries@[k].item_type@ == "folder"@)),
{
    let mut i: usize = 0;
    while i < entries.len()
        invariant
            i <= entries@.len(),
            first_named(entries@, segment@, 0) == first_named(entries@, segment@, i as int),
        decreases entries.len() - i,
    {
        if str_eq(entries[i].name.as_str(), segment) {
            let is_dir = str_eq(entries[i].item_type.as_str(), "folder");
            return Some((entries[i].id.clone(), is_dir));
        }
        i = i + 1;
    }
    None
}

fn missing_error(segment: &str) -> (e: StorageError)
    ensures
        e@ == StorageErrorView::NotFound(missing_message(segment@)),
{
    let m = concat_str("Path segment '", segment);
    let m = concat_str(m.as_str(), "' not found");
    StorageError::NotFound(m)
}

/// Box: a missing segment is created when folders may be created and it is
/// not a file at the end of the path; otherwise the walk fails.
pub fn box_missing_segment(
    segment: &str,
    index: usize,
    count: usize,
    current_is_dir: bool,
    create_folders: bool,
) -> (n: MissingSegment)
    requires
        index < count,
    ensures
        create_folders && (index + 1 < count || current_is_dir) ==> n is CreateFolder,
        !(create_folders && (index + 1 < count || current_is_dir)) ==> (n matches MissingSegment::Fail(e)
            && e@ == StorageErrorView::NotFound(missing_message(segment@))),
{
    let is_last = index == count - 1;
    if create_folders && (!is_last || current_is_dir) {
        MissingSegment::CreateFolder
    } else {
        MissingSegment::Fail(missing_error(segment))
    }
}

/// MEGA: a missing segment is created when folders may be created, unless it
/// is the only segment of the path; otherwise the walk fails.
pub fn mega_missing_segment(segment: &str, index: usize, count: usize, create_folders: bool) -> (n: MissingSegment)
    requires
        index < count,
    ensures
        create_folders && (index + 1 < count || count > 1) ==> n is CreateFolder,
        !(create_folders && (index + 1 < count || count > 1)) ==> (n matches MissingSegment::Fail(e)
            && e@ == StorageErrorView::NotFound(missing_message(segment@))),
{
    let is_last = index == count - 1;
    if create_folders && (!is_last || count > 1) {
        MissingSegment::CreateFolder
    } else {
        MissingSegment::Fail(missing_error(segment))
    }
}

/// Box: the first entry that is a file named `name`.
pub open spec fn first_file_named(entries: Seq<BoxEntry>, name: Seq<char>, from: int) -> Option<int>
    decreases entries.len() - from,
{
    if from >= entries.len() || from < 0 {
        None
    } else if entries[from].name@ == name && entries[from].item_type@ == "file"@ {
        Some(from)
    } else {
        first_file_named(entries, name, from + 1)
    }
}

/// Box: the identifier of the file an upload of `name` replaces, the first
/// file of the folder with that name, if any.
pub fn box_existing_file(entries: &Vec<BoxEntry>, name: &str) -> (r: Option<String>)
    ensures
        first_file_named(entries@, name@, 0) is None <==> r is None,
        first_file_named(entries@, name@, 0) matches Some(k) ==> (r matches Some(id) && id@ == entries@[k].id@),
{
    let mut i: usize = 0;
    while i < entries.len()
        invariant
            i <= entries@.len(),
            first_file_named(entries@, name@, 0) == first_file_named(entries@, name@, i as int),
        decreases entries.len() - i,
    {
        if str_eq(entries[i].name.as_str(), name) && str_eq(entries[i].item_type.as_str(), "file") {
            return Some(entries[i].id.clone());
        }
        i = i + 1;
    }
    None
}

/// Box: the folder an upload of `remote_path` goes to (its parent, empty
/// when it has none) and the file's name; an error when the path has no
/// file name.
pub open spec fn spec_parent_and_name(remote_path: Seq<char>) -> Result<(Seq<char>, Seq<char>), StorageErrorView> {
    match crate::paths::file_name_of(remote_path) {
        Some(n) => Ok((
            match crate::paths::parent_of(remote_path) {
                Some(d) => d,
                None => Seq::empty(),
            },
            n,
        )),
        None => Err(StorageErrorView::Provider { message: "Invalid file name"@, status: None }),
    }
}

/// Box: the parent folder and the name of the file at `remote_path`.
pub fn parent_and_name(remote_path: &str) -> (r: Result<(String, String), StorageError>)
    ensures
        match r {
            Ok(p) => spec_parent_and_name(remote_path@) == Ok::<(Seq<char>, Seq<char>), StorageErrorView>((p.0@, p.1@)),
            Err(e) => spec_parent_and_name(remote_path@) == Err::<(Seq<char>, Seq<char>), StorageErrorView>(e@),
        },
{
    match crate::paths::path_file_name(remote_path) {
        Some(n) => {
            let parent = match crate::paths::path_parent(remote_path) {
                Some(d) => d,
                None => String::new(),
            };
            Ok((parent, n))
        },
        None => Err(StorageError::Provider { message: "Invalid file name".to_owned(), status: None }),
    }
}

} // verus!

verus! {

/// Where a Box walk stands: the position of the next segment, the item
/// reached so far (`0` is the root folder) and whether it is a folder.
pub struct BoxWalk {
    pub index: usize,
    pub current_id: String,
    pub is_dir: bool,
}

/// What a Box walk needs next.
pub enum BoxStep {
    /// The listing of this folder, to be handed to `box_walk_listed`.
    List(String),
    /// A folder to create under `parent_id`; its identifier is handed to
    /// `box_walk_created`.
    Create { parent_id: String, name: String },
    /// The walk is over: the item reached and whether it is a folder.
    Done(String, bool),
    /// The walk cannot go on.
    Fail(StorageError),
}

pub enum BoxStepView {
    List(Seq<char>),
    Create { parent_id: Seq<char>, name: Seq<char> },
    Done(Seq<char>, bool),
    Fail(StorageErrorView),
}

impl View for BoxStep {
    type V = BoxStepView;

    open spec fn view(&self) -> BoxStepView {
        match self {
            BoxStep::List(f) => BoxStepView::List(f@),
            BoxStep::Create { parent_id, name } => BoxStepView::Create { parent_id: parent_id@, name: name@ },
            BoxStep::Done(id, d) => BoxStepView::Done(id@, *d),
            BoxStep::Fail(e) => BoxStepView::Fail(e@),
        }
    }
}

/// The first position from `i` on whose segment is not empty, or the number
/// of segments.
pub open spec fn next_nonempty(segs: Seq<Seq<char>>, i: int) -> int
    decreases segs.len() - i,
{
    if i < 0 || i >= segs.len() || segs[i].len() > 0 {
        i
    } else {
        next_nonempty(segs, i + 1)
    }
}

/// What the walk needs at the non-empty segment `j` (or at the end), standing
/// on the item `id`.
pub open spec fn next_step(segs: Seq<Seq<char>>, j: int, id: Seq<char>, is_dir: bool) -> BoxStepView {
    if j >= segs.len() {
        BoxStepView::Done(id, is_dir)
    } else if !is_dir {
        BoxStepView::Fail(StorageErrorView::Provider { message: not_folder_message(segs[j]), status: None })
    } else {
        BoxStepView::List(id)
    }
}

/// A walk from the root folder, before the first segment.
pub fn box_walk_start() -> (w: BoxWalk)
    ensures
        w.index == 0,
        w.current_id@ == "0"@,
        w.is_dir,
{
    BoxWalk { index: 0, current_id: "0".to_string(), is_dir: true }
}

/// Passes over empty segments and says what the walk needs next.
pub fn box_walk_next(w: &mut BoxWalk, segments: &Vec<String>) -> (step: BoxStep)
    requires
        old(w).index <= segments@.len(),
    ensures
        final(w).index == next_nonempty(views_of(segments@), old(w).index as int),
        final(w).index <= segments@.len(),
        final(w).current_id@ == old(w).current_id@,
        final(w).is_dir == old(w).is_dir,
        step@ == next_step(views_of(segments@), final(w).index as int, old(w).current_id@, old(w).is_dir),
{
    let ghost segs = views_of(segments@);
    let ghost start = w.index as int;
    while w.index < segments.len() && segments[w.index].as_str().is_empty()
        invariant
            start <= w.index <= segments@.len(),
            segs == views_of(segments@),
            next_nonempty(segs, start) == next_nonempty(segs, w.index as int),
            w.current_id@ == old(w).current_id@,
            w.is_dir == old(w).is_dir,
        decreases segments.len() - w.index,
    {
        assert(segs[w.index as int] == segments@[w.index as int]@);
        w.index = w.index + 1;
    }
    if w.index < segments.len() {
        assert(segs[w.index as int] == segments@[w.index as int]@);
    }
    if w.index == segments.len() {
        BoxStep::Done(w.current_id.clone(), w.is_dir)
    } else if !w.is_dir {
        match box_check_segment(segments[w.index].as_str(), false) {
            WalkCheck::Fail(e) => BoxStep::Fail(e),
            _ => BoxStep::Done(w.current_id.clone(), w.is_dir),
        }
    } else {
        BoxStep::List(w.current_id.clone())
    }
}

/// Takes the listing of the current folder for the next segment: goes on
/// from the entry of that name, or, when there is none, creates the folder or
/// fails as `box_missing_segment` decides.
pub fn box_walk_listed(w: &mut BoxWalk, segments: &Vec<String>, entries: &Vec<BoxEntry>, create_folders: bool) -> (step: BoxStep)
    requires
        old(w).index < segments@.len(),
    ensures
        ({
            let segs = views_of(segments@);
            let i = old(w).index as int;
            match first_named(entries@, segs[i], 0) {
                Some(k) => {
                    &&& final(w).index == next_nonempty(segs, i + 1)
                    &&& final(w).current_id@ == entries@[k].id@
                    &&& final(w).is_dir == (entries@[k].item_type@ == "folder"@)
                    &&& step@ == next_step(segs, final(w).index as int, final(w).current_id@, final(w).is_dir)
                },
                None => {
                    &&& final(w).index == old(w).index
                    &&& final(w).current_id@ == old(w).current_id@
                    &&& final(w).is_dir == old(w).is_dir
                    &&& step@ == (if create_folders && (i + 1 < segs.len() || old(w).is_dir) {
                        BoxStepView::Create { parent_id: old(w).current_id@, name: segs[i] }
                    } else {
                        BoxStepView::Fail(StorageErrorView::NotFound(missing_message(segs[i])))
                    })
                },
            }
        }),
        final(w).index <= segments@.len(),
{
    let ghost segs = views_of(segments@);
    assert(segs[w.index as int] == segments@[w.index as int]@);
    let i = w.index;
    let n = segments.len();
    assert(i < n);
    let segment = segments[i].as_str();
    match box_find_entry(entries, segment) {
        Some((id, dir)) => {
            w.current_id = id;
            w.is_dir = dir;
            w.index = i + 1;
            box_walk_next(w, segments)
        },
        None => {
            match box_missing_segment(segment, w.index, segments.len(), w.is_dir, create_folders) {
                MissingSegment::CreateFolder => BoxStep::Create {
                    parent_id: w.current_id.clone(),
                    name: segments[w.index].clone(),
                },
                MissingSegment::Fail(e) => BoxStep::Fail(e),
            }
        },
    }
}

/// Goes on from the folder just created for the next segment.
pub fn box_walk_created(w: &mut BoxWalk, segments: &Vec<String>, folder_id: String) -> (step: BoxStep)
    requires
        old(w).index < segments@.len(),
    ensures
        final(w).index == next_nonempty(views_of(segments@), old(w).index + 1),
        final(w).index <= segments@.len(),
        final(w).current_id@ == folder_id@,
        final(w).is_dir,
        step@ == next_step(views_of(segments@), final(w).index as int, folder_id@, true),
{
    let i = w.index;
    let n = segments.len();
    assert(i < n);
    w.current_id = folder_id;
    w.is_dir = true;
    w.index = i + 1;
    box_walk_next(w, segments)
}

} // verus!
