//! MEGA's file tree as plain values: the node a path leads to, what a folder
//! lists, and where an upload goes.
use vstd::prelude::*;
use crate::listings::{instant_nanos, join_path, nanos_of_instant, path_join};
use crate::paths::{file_name_of, parent_of, path_file_name, path_parent};
use crate::state::Timestamp;
use crate::storage::{StorageError, StorageErrorView, StorageItem};
use crate::text::{str_eq, views_of};

verus! {

/// The kinds of MEGA nodes the synchroniser tells apart.
#[derive(Debug, Clone, Copy, PartialEq, Eq, Structural)]
pub enum MegaKind {
    File,
    Folder,
    /// The Cloud Drive's root.
    Root,
    /// Inbox, Rubbish Bin and unknown kinds.
    Other,
}

/// A node of the account's tree.
pub struct MegaNode {
    pub handle: String,
    pub name: String,
    pub parent: Option<String>,
    pub kind: MegaKind,
    pub size: u64,
    /// Creation time, as seconds since the Unix epoch and nanoseconds past them.
    pub created_at: Option<(i64, u32)>,
    /// The handles of the node's children, in order.
    pub children: Vec<String>,
}

/// The first node of kind `kind`, from `from` on.
pub open spec fn first_of_kind(nodes: Seq<MegaNode>, kind: MegaKind, from: int) -> Option<int>
    decreases nodes.len() - from,
{
    if from < 0 || from >= nodes.len() {
        None
    } else if nodes[from].kind == kind {
        Some(from)
    } else {
        first_of_kind(nodes, kind, from + 1)
    }
}

/// The Cloud Drive's root node, the first one of root kind.
pub fn mega_root(nodes: &Vec<MegaNode>) -> (r: Option<usize>)
    ensures
        match r {
            Some(k) => first_of_kind(nodes@, MegaKind::Root, 0) == Some(k as int),
            None => first_of_kind(nodes@, MegaKind::Root, 0) is None,
        },
{
    let mut i: usize = 0;
    while i < nodes.len()
        invariant
            i <= nodes@.len(),
            first_of_kind(nodes@, MegaKind::Root, 0) == first_of_kind(nodes@, MegaKind::Root, i as int),
        decreases nodes.len() - i,
    {
        if nodes[i].kind == MegaKind::Root {
            return Some(i);
        }
        i = i + 1;
    }
    None
}

/// The first node with handle `handle`, from `from` on.
pub open spec fn node_with_handle(nodes: Seq<MegaNode>, handle: Seq<char>, from: int) -> Option<int>
    decreases nodes.len() - from,
{
    if from < 0 || from >= nodes.len() {
        None
    } else if nodes[from].handle@ == handle {
        Some(from)
    } else {
        node_with_handle(nodes, handle, from + 1)
    }
}

fn find_handle(nodes: &Vec<MegaNode>, handle: &str) -> (r: Option<usize>)
    ensures
        match r {
            Some(k) => node_with_handle(nodes@, handle@, 0) == Some(k as int) && k < nodes@.len()
                && nodes@[k as int].handle@ == handle@,
            None => node_with_handle(nodes@, handle@, 0) is None,
        },
{
    let mut i: usize = 0;
    while i < nodes.len()
        invariant
            i <= nodes@.len(),
            node_with_handle(nodes@, handle@, 0) == node_with_handle(nodes@, handle@, i as int),
        decreases nodes.len() - i,
    {
        if str_eq(nodes[i].handle.as_str(), handle) {
            return Some(i);
        }
        i = i + 1;
    }
    None
}

/// The node of the first child, in the folder's order from `from` on, that
/// has a node and is named `name`.
pub open spec fn named_child(children: Seq<String>, nodes: Seq<MegaNode>, name: Seq<char>, from: int) -> Option<int>
    decreases children.len() - from,
{
    if from < 0 || from >= children.len() {
        None
    } else {
        match node_with_handle(nodes, children[from]@, 0) {
            Some(k) => if nodes[k].name@ == name { Some(k) } else { named_child(children, nodes, name, from + 1) },
            None => named_child(children, nodes, name, from + 1),
        }
    }
}

/// The child of a folder named `name`: the first of its children, in order,
/// that has a node with that name.
pub fn mega_child(children: &Vec<String>, nodes: &Vec<MegaNode>, name: &str) -> (r: Option<usize>)
    ensures
        match r {
            Some(k) => named_child(children@, nodes@, name@, 0) == Some(k as int),
            None => named_child(children@, nodes@, name@, 0) is None,
        },
{
    let mut i: usize = 0;
    while i < children.len()
        invariant
            i <= children@.len(),
            named_child(children@, nodes@, name@, 0) == named_child(children@, nodes@, name@, i as int),
        decreases children.len() - i,
    {
        match find_handle(nodes, children[i].as_str()) {
            Some(k) => {
                if str_eq(nodes[k].name.as_str(), name) {
                    return Some(k);
                }
            },
            None => {},
        }
        i = i + 1;
    }
    None
}

/// The first node, from `from` on, below the parent `parent` and named `name`.
pub open spec fn child_named(nodes: Seq<MegaNode>, parent: Seq<char>, name: Seq<char>, from: int) -> Option<int>
    decreases nodes.len() - from,
{
    if from < 0 || from >= nodes.len() {
        None
    } else if crate::state::ck(nodes[from].parent) == Some(parent) && nodes[from].name@ == name {
        Some(from)
    } else {
        child_named(nodes, parent, name, from + 1)
    }
}

/// A folder just created: the first node below `parent` named `name`; an
/// error when the fetched tree has none.
pub fn created_folder(nodes: &Vec<MegaNode>, parent: &str, name: &str) -> (r: Result<usize, StorageError>)
    ensures
        match r {
            Ok(k) => child_named(nodes@, parent@, name@, 0) == Some(k as int),
            Err(e) => child_named(nodes@, parent@, name@, 0) is None
                && e@ == (StorageErrorView::Provider { message: "Failed to retrieve created folder"@, status: None }),
        },
{
    let mut i: usize = 0;
    while i < nodes.len()
        invariant
            i <= nodes@.len(),
            child_named(nodes@, parent@, name@, 0) == child_named(nodes@, parent@, name@, i as int),
        decreases nodes.len() - i,
    {
        let below = match &nodes[i].parent {
            Some(p) => str_eq(p.as_str(), parent),
            None => false,
        };
        if below && str_eq(nodes[i].name.as_str(), name) {
            return Ok(i);
        }
        i = i + 1;
    }
    Err(StorageError::Provider { message: "Failed to retrieve created folder".to_owned(), status: None })
}

/// The nodes of a folder's children, in order, leaving out children that
/// have no node.
pub open spec fn listed_nodes(children: Seq<String>, nodes: Seq<MegaNode>) -> Seq<int>
    decreases children.len(),
{
    if children.len() == 0 {
        Seq::empty()
    } else {
        let rest = listed_nodes(children.drop_last(), nodes);
        match node_with_handle(nodes, children.last()@, 0) {
            Some(k) => rest.push(k),
            None => rest,
        }
    }
}

/// What a node lists as, under `listed_path`: its path (the name alone for
/// the root), size, creation time (`now` without one) and whether it is a
/// folder.
pub open spec fn mega_shows(n: MegaNode, it: StorageItem, listed_path: Seq<char>, now: Timestamp) -> bool {
    crate::listings::item_is(
        it,
        if listed_path.len() == 0 { n.name@ } else { path_join(listed_path, n.name@) },
        n.size,
        match n.created_at {
            Some(t) => instant_nanos(t.0, t.1),
            None => now,
        },
        n.kind == MegaKind::Folder,
        None,
    )
}

/// The items of a folder listing: one per child that has a node, in order.
pub fn mega_items(children: &Vec<String>, nodes: &Vec<MegaNode>, listed_path: &str, now: Timestamp) -> (r: Vec<StorageItem>)
    ensures
        r@.len() == listed_nodes(children@, nodes@).len(),
        forall|k: int| 0 <= k < r@.len() ==> {
            let j = #[trigger] listed_nodes(children@, nodes@)[k];
            &&& 0 <= j < nodes@.len()
            &&& mega_shows(nodes@[j], r@[k], listed_path@, now)
        },
{
    let mut r: Vec<StorageItem> = Vec::new();
    let mut i: usize = 0;
    assert(children@.take(0) =~= Seq::<String>::empty());
    while i < children.len()
        invariant
            i <= children@.len(),
            r@.len() == listed_nodes(children@.take(i as int), nodes@).len(),
            forall|k: int| 0 <= k < r@.len() ==> {
                let j = #[trigger] listed_nodes(children@.take(i as int), nodes@)[k];
                &&& 0 <= j < nodes@.len()
                &&& mega_shows(nodes@[j], r@[k], listed_path@, now)
            },
        decreases children.len() - i,
    {
        proof {
            assert(children@.take(i as int + 1).drop_last() =~= children@.take(i as int));
            assert(children@.take(i as int + 1).last() == children@[i as int]);
        }
        match find_handle(nodes, children[i].as_str()) {
            Some(k) => {
                let n = &nodes[k];
                let path = if listed_path.is_empty() { n.name.clone() } else { join_path(listed_path, n.name.as_str()) };
                let modified = match n.created_at {
                    Some(t) => nanos_of_instant(t.0, t.1),
                    None => now,
                };
                let ghost before = r@;
                r.push(StorageItem {
                    path,
                    size: n.size,
                    modified,
                    is_dir: n.kind == MegaKind::Folder,
                    checksum: None,
                });
                proof {
                    let ls = listed_nodes(children@.take(i as int + 1), nodes@);
                    assert forall|x: int| 0 <= x < r@.len() implies {
                        let j = #[trigger] ls[x];
                        &&& 0 <= j < nodes@.len()
                        &&& mega_shows(nodes@[j], r@[x], listed_path@, now)
                    } by {
                        if x < before.len() {
                            assert(r@[x] == before[x]);
                        }
                    }
                }
            },
            None => {},
        }
        i = i + 1;
    }
    assert(children@.take(children@.len() as int) =~= children@);
    r
}

/// Where an upload of `remote_path` goes: its parent folder (empty when it
/// has none) and its file name; an error when it has no file name.
pub open spec fn spec_upload_parts(remote_path: Seq<char>) -> Result<(Seq<char>, Seq<char>), StorageErrorView> {
    match file_name_of(remote_path) {
        Some(n) => Ok((
            match parent_of(remote_path) {
                Some(d) => d,
                None => Seq::empty(),
            },
            n,
        )),
        None => Err(StorageErrorView::Provider { message: "Invalid remote file name"@, status: None }),
    }
}

/// The parent folder and file name of an upload.
pub fn upload_parts(remote_path: &str) -> (r: Result<(String, String), StorageError>)
    ensures
        match r {
            Ok(p) => spec_upload_parts(remote_path@) == Ok::<(Seq<char>, Seq<char>), StorageErrorView>((p.0@, p.1@)),
            Err(e) => spec_upload_parts(remote_path@) == Err::<(Seq<char>, Seq<char>), StorageErrorView>(e@),
        },
{
    match path_file_name(remote_path) {
        Some(n) => {
            let parent = match path_parent(remote_path) {
                Some(d) => d,
                None => String::new(),
            };
            Ok((parent, n))
        },
        None => Err(StorageError::Provider { message: "Invalid remote file name".to_owned(), status: None }),
    }
}

} // verus!

verus! {

proof fn lemma_node_with_handle_found(nodes: Seq<MegaNode>, handle: Seq<char>, from: int)
    ensures
        node_with_handle(nodes, handle, from) matches Some(k) ==> 0 <= k < nodes.len() && nodes[k].handle@ == handle,
    decreases nodes.len() - from,
{
    if 0 <= from < nodes.len() && nodes[from].handle@ != handle {
        lemma_node_with_handle_found(nodes, handle, from + 1);
    }
}

/// The child found by name is a node of the tree, and bears that name.
pub proof fn lemma_named_child_found(children: Seq<String>, nodes: Seq<MegaNode>, name: Seq<char>, from: int)
    ensures
        named_child(children, nodes, name, from) matches Some(k) ==> 0 <= k < nodes.len() && nodes[k].name@ == name,
    decreases children.len() - from,
{
    if 0 <= from < children.len() {
        lemma_node_with_handle_found(nodes, children[from]@, 0);
        lemma_named_child_found(children, nodes, name, from + 1);
    }
}

/// Walking the segments `segs[i..]` down from the node `start`: the position
/// of the first segment that has no child of that name, or the number of
/// segments when all were found, with the node reached.
pub open spec fn spec_walk(nodes: Seq<MegaNode>, start: int, segs: Seq<Seq<char>>, i: int) -> (int, int)
    decreases segs.len() - i,
{
    if i < 0 || i >= segs.len() || start < 0 || start >= nodes.len() {
        (i, start)
    } else {
        match named_child(nodes[start].children@, nodes, segs[i], 0) {
            Some(k) => spec_walk(nodes, k, segs, i + 1),
            None => (i, start),
        }
    }
}

/// Where a walk down the tree stops.
pub enum MegaWalk {
    /// Every segment was found; the node reached.
    Found(usize),
    /// The segment at `index` is not a child of the folder `parent`.
    Missing { index: usize, parent: usize },
}

/// Walks the segments from position `from` on down from the node `start`,
/// as far as the tree has them.
pub fn mega_walk(nodes: &Vec<MegaNode>, start: usize, segments: &Vec<String>, from: usize) -> (w: MegaWalk)
    requires
        start < nodes@.len(),
        from <= segments@.len(),
    ensures
        match w {
            MegaWalk::Found(k) => spec_walk(nodes@, start as int, views_of(segments@), from as int)
                == (segments@.len() as int, k as int) && k < nodes@.len(),
            MegaWalk::Missing { index, parent } => spec_walk(nodes@, start as int, views_of(segments@), from as int)
                == (index as int, parent as int) && from <= index < segments@.len() && parent < nodes@.len(),
        },
{
    let ghost segs = views_of(segments@);
    let mut current = start;
    let mut i = from;
    while i < segments.len()
        invariant
            from <= i <= segments@.len(),
            current < nodes@.len(),
            segs == views_of(segments@),
            spec_walk(nodes@, start as int, segs, from as int) == spec_walk(nodes@, current as int, segs, i as int),
        decreases segments.len() - i,
    {
        assert(segs[i as int] == segments@[i as int]@);
        match mega_child(&nodes[current].children, nodes, segments[i].as_str()) {
            Some(k) => {
                proof {
                    lemma_named_child_found(nodes@[current as int].children@, nodes@, segs[i as int], 0);
                }
                current = k;
            },
            None => {
                return MegaWalk::Missing { index: i, parent: current };
            },
        }
        i = i + 1;
    }
    MegaWalk::Found(current)
}

/// The node a non-empty path leads to bears the path's last name.
pub proof fn law_walk_ends_at_named_node(nodes: Seq<MegaNode>, start: int, segs: Seq<Seq<char>>, i: int)
    requires
        0 <= start < nodes.len(),
        0 <= i < segs.len(),
        spec_walk(nodes, start, segs, i).0 == segs.len(),
    ensures
        0 <= spec_walk(nodes, start, segs, i).1 < nodes.len(),
        nodes[spec_walk(nodes, start, segs, i).1].name@ == segs.last(),
    decreases segs.len() - i,
{
    let found = named_child(nodes[start].children@, nodes, segs[i], 0);
    lemma_named_child_found(nodes[start].children@, nodes, segs[i], 0);
    match found {
        Some(k) => {
            assert(spec_walk(nodes, start, segs, i) == spec_walk(nodes, k, segs, i + 1));
            if i + 1 < segs.len() {
                law_walk_ends_at_named_node(nodes, k, segs, i + 1);
            } else {
                assert(spec_walk(nodes, k, segs, i + 1) == (i + 1, k));
            }
        },
        None => {
            assert(spec_walk(nodes, start, segs, i) == (i, start));
        },
    }
}

} // verus!
