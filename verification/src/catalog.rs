//! Keyed collections of scan results and catalog entries.
//!
//! A collection is a sequence of `(path, value)` pairs read as a map in which
//! a later pair overrides an earlier one with the same path, the way
//! successive insertions into a hash map behave.
use vstd::prelude::*;
use crate::state::{FileInfo, FileInfoView, FileState, FileStateView};

verus! {

/// The map a sequence of pairs stands for (later pairs win).
pub open spec fn to_map<T>(s: Seq<(Seq<char>, T)>) -> Map<Seq<char>, T>
    decreases s.len(),
{
    if s.len() == 0 {
        Map::empty()
    } else {
        to_map(s.drop_last()).insert(s.last().0, s.last().1)
    }
}

/// The value stored under `k`, if any.
pub open spec fn get<T>(m: Map<Seq<char>, T>, k: Seq<char>) -> Option<T> {
    if m.dom().contains(k) { Some(m[k]) } else { None }
}

/// The set of keys occurring in a sequence of pairs.
pub open spec fn key_set<T>(s: Seq<(Seq<char>, T)>) -> Set<Seq<char>> {
    Set::new(|k: Seq<char>| exists|i: int| 0 <= i < s.len() && s[i].0 == k)
}

pub open spec fn info_pairs(v: Seq<(String, FileInfo)>) -> Seq<(Seq<char>, FileInfoView)> {
    v.map_values(|e: (String, FileInfo)| (e.0@, e.1@))
}

pub open spec fn state_pairs(v: Seq<(String, FileState)>) -> Seq<(Seq<char>, FileStateView)> {
    v.map_values(|e: (String, FileState)| (e.0@, e.1@))
}

/// The keys of the map are the keys occurring in the sequence.
pub proof fn lemma_to_map_dom<T>(s: Seq<(Seq<char>, T)>)
    ensures
        to_map(s).dom() == key_set(s),
    decreases s.len(),
{
    if s.len() > 0 {
        lemma_to_map_dom(s.drop_last());
        assert forall|k: Seq<char>| #[trigger] key_set(s).contains(k) implies to_map(s).dom().contains(k) by {
            let i = choose|i: int| 0 <= i < s.len() && s[i].0 == k;
            if i < s.len() - 1 {
                assert(s.drop_last()[i].0 == k);
                assert(key_set(s.drop_last()).contains(k));
            }
        }
        assert forall|k: Seq<char>| #[trigger] to_map(s).dom().contains(k) implies key_set(s).contains(k) by {
            if k != s.last().0 {
                assert(key_set(s.drop_last()).contains(k));
                let i = choose|i: int| 0 <= i < s.drop_last().len() && s.drop_last()[i].0 == k;
                assert(s[i].0 == k);
            }
        }
        assert(to_map(s).dom() =~= key_set(s));
    } else {
        assert(to_map(s).dom() =~= key_set(s));
    }
}

/// Pairs after position `i` that do not carry `k` do not affect its value.
pub proof fn lemma_to_map_prefix<T>(s: Seq<(Seq<char>, T)>, i: int, k: Seq<char>)
    requires
        0 <= i <= s.len(),
        forall|j: int| i <= j < s.len() ==> s[j].0 != k,
    ensures
        get(to_map(s), k) == get(to_map(s.take(i)), k),
    decreases s.len() - i,
{
    if i < s.len() {
        assert(s.drop_last().take(i) =~= s.take(i));
        lemma_to_map_prefix(s.drop_last(), i, k);
    } else {
        assert(s.take(i) =~= s);
    }
}

/// The value stored under a path in a scan, by a backwards search.
pub fn find_info(v: &Vec<(String, FileInfo)>, k: &String) -> (r: Option<FileInfo>)
    ensures
        crate::state::info_opt(r) == get(to_map(info_pairs(v@)), k@),
{
    let ghost s = info_pairs(v@);
    let mut i = v.len();
    while i > 0
        invariant
            i <= v.len(),
            s == info_pairs(v@),
            forall|j: int| i <= j < s.len() ==> s[j].0 != k@,
        decreases i,
    {
        if v[i - 1].0 == *k {
            proof {
                lemma_to_map_prefix(s, i as int, k@);
                assert(s.take(i as int).drop_last() =~= s.take(i as int - 1));
            }
            return Some(v[i - 1].1.duplicate());
        }
        i = i - 1;
    }
    proof {
        lemma_to_map_prefix(s, 0, k@);
        assert(s.take(0) =~= Seq::<(Seq<char>, FileInfoView)>::empty());
    }
    None
}

/// The catalog entry stored under a path, by a backwards search.
pub fn find_state(v: &Vec<(String, FileState)>, k: &String) -> (r: Option<FileState>)
    ensures
        crate::state::state_opt(r) == get(to_map(state_pairs(v@)), k@),
{
    let ghost s = state_pairs(v@);
    let mut i = v.len();
    while i > 0
        invariant
            i <= v.len(),
            s == state_pairs(v@),
            forall|j: int| i <= j < s.len() ==> s[j].0 != k@,
        decreases i,
    {
        if v[i - 1].0 == *k {
            proof {
                lemma_to_map_prefix(s, i as int, k@);
                assert(s.take(i as int).drop_last() =~= s.take(i as int - 1));
            }
            return Some(v[i - 1].1.duplicate());
        }
        i = i - 1;
    }
    proof {
        lemma_to_map_prefix(s, 0, k@);
        assert(s.take(0) =~= Seq::<(Seq<char>, FileStateView)>::empty());
    }
    None
}

/// The values of a list of strings.
pub open spec fn string_views(v: Seq<String>) -> Seq<Seq<char>> {
    v.map_values(|s: String| s@)
}

/// No two strings of the list have the same value.
pub open spec fn distinct_strings(v: Seq<String>) -> bool {
    forall|i: int, j: int| 0 <= i < j < v.len() ==> v[i]@ != v[j]@
}

/// Whether a list of strings holds a given value.
pub fn contains_string(v: &Vec<String>, k: &String) -> (b: bool)
    ensures
        b == string_views(v@).contains(k@),
{
    let mut i: usize = 0;
    while i < v.len()
        invariant
            i <= v.len(),
            forall|j: int| 0 <= j < i ==> v@[j]@ != k@,
        decreases v.len() - i,
    {
        if v[i] == *k {
            assert(string_views(v@)[i as int] == k@);
            return true;
        }
        i = i + 1;
    }
    proof {
        if string_views(v@).contains(k@) {
            let j = choose|j: int| 0 <= j < string_views(v@).len() && string_views(v@)[j] == k@;
            assert(v@[j]@ == k@);
        }
    }
    false
}

/// Appends a string unless a string of that value is already present.
pub fn push_unique(v: &mut Vec<String>, k: &String)
    requires
        distinct_strings(old(v)@),
    ensures
        distinct_strings(final(v)@),
        string_views(final(v)@).to_set() == string_views(old(v)@).to_set().insert(k@),
{
    if !contains_string(v, k) {
        v.push(k.clone());
        proof {
            assert(string_views(v@) =~= string_views(old(v)@).push(k@));
            assert forall|i: int, j: int| 0 <= i < j < v@.len() implies v@[i]@ != v@[j]@ by {
                if j == v@.len() - 1 {
                    assert(string_views(old(v)@)[i] == old(v)@[i]@);
                    assert(v@[i] == old(v)@[i]);
                } else {
                    assert(v@[i] == old(v)@[i]);
                    assert(v@[j] == old(v)@[j]);
                }
            }
            assert forall|x: Seq<char>| #[trigger] string_views(v@).to_set().contains(x)
                == string_views(old(v)@).to_set().insert(k@).contains(x) by {
                if x == k@ {
                    assert(string_views(v@)[v@.len() - 1] == x);
                }
                if string_views(old(v)@).contains(x) {
                    let j = choose|j: int| 0 <= j < string_views(old(v)@).len() && string_views(old(v)@)[j] == x;
                    assert(string_views(v@)[j] == x);
                }
            }
            assert(string_views(v@).to_set() =~= string_views(old(v)@).to_set().insert(k@));
        }
    } else {
        proof {
            assert(string_views(v@).to_set() =~= string_views(old(v)@).to_set().insert(k@));
        }
    }
}

} // verus!

verus! {

/// The values of the keys of a list of pairs.
pub open spec fn raw_keys<T>(v: Seq<(String, T)>) -> Set<Seq<char>> {
    Set::new(|k: Seq<char>| exists|i: int| 0 <= i < v.len() && v[i].0@ == k)
}

pub proof fn lemma_info_keys(v: Seq<(String, FileInfo)>)
    ensures
        to_map(info_pairs(v)).dom() == raw_keys(v),
{
    lemma_to_map_dom(info_pairs(v));
    assert forall|k: Seq<char>| #[trigger] raw_keys(v).contains(k) implies key_set(info_pairs(v)).contains(k) by {
        let i = choose|i: int| 0 <= i < v.len() && v[i].0@ == k;
        assert(info_pairs(v)[i].0 == k);
    }
    assert(key_set(info_pairs(v)) =~= raw_keys(v));
}

pub proof fn lemma_state_keys(v: Seq<(String, FileState)>)
    ensures
        to_map(state_pairs(v)).dom() == raw_keys(v),
{
    lemma_to_map_dom(state_pairs(v));
    assert forall|k: Seq<char>| #[trigger] raw_keys(v).contains(k) implies key_set(state_pairs(v)).contains(k) by {
        let i = choose|i: int| 0 <= i < v.len() && v[i].0@ == k;
        assert(state_pairs(v)[i].0 == k);
    }
    assert(key_set(state_pairs(v)) =~= raw_keys(v));
}

/// Adds every key of `v` to a duplicate-free list of strings.
pub fn add_keys<T>(paths: &mut Vec<String>, v: &Vec<(String, T)>)
    requires
        distinct_strings(old(paths)@),
    ensures
        distinct_strings(final(paths)@),
        string_views(final(paths)@).to_set() == string_views(old(paths)@).to_set().union(raw_keys(v@)),
{
    let mut i: usize = 0;
    while i < v.len()
        invariant
            i <= v.len(),
            distinct_strings(paths@),
            string_views(paths@).to_set() == string_views(old(paths)@).to_set().union(
                raw_keys(v@.take(i as int)),
            ),
        decreases v.len() - i,
    {
        push_unique(paths, &v[i].0);
        proof {
            assert forall|k: Seq<char>| raw_keys(v@.take(i as int + 1)).contains(k)
                == raw_keys(v@.take(i as int)).insert(v@[i as int].0@).contains(k) by {
                if raw_keys(v@.take(i as int + 1)).contains(k) {
                    let j = choose|j: int| 0 <= j < v@.take(i as int + 1).len() && #[trigger] v@.take(i as int + 1)[j].0@ == k;
                    if j < i {
                        assert(v@.take(i as int)[j].0@ == k);
                    }
                }
                if raw_keys(v@.take(i as int)).contains(k) {
                    let j = choose|j: int| 0 <= j < v@.take(i as int).len() && #[trigger] v@.take(i as int)[j].0@ == k;
                    assert(v@.take(i as int + 1)[j].0@ == k);
                }
                if k == v@[i as int].0@ {
                    assert(v@.take(i as int + 1)[i as int].0@ == k);
                }
            }
            assert(raw_keys(v@.take(i as int + 1)) =~= raw_keys(v@.take(i as int)).insert(v@[i as int].0@));
            assert(string_views(paths@).to_set() =~= string_views(old(paths)@).to_set().union(
                raw_keys(v@.take(i as int + 1))));
        }
        i = i + 1;
    }
    assert(v@.take(v.len() as int) =~= v@);
}

/// The catalog of the last completed synchronisation: the recorded state of
/// each relative path.
#[derive(Debug, Clone)]
pub struct SyncState {
    pub files: Vec<(String, FileState)>,
}

impl View for SyncState {
    type V = Map<Seq<char>, FileStateView>;

    open spec fn view(&self) -> Map<Seq<char>, FileStateView> {
        to_map(state_pairs(self.files@))
    }
}

/// No key occurs twice.
pub open spec fn unique_keys<T>(s: Seq<(Seq<char>, T)>) -> bool {
    forall|i: int, j: int| 0 <= i < j < s.len() ==> #[trigger] s[i].0 != #[trigger] s[j].0
}

/// Replacing the value at the last occurrence of a key is storing the key.
proof fn lemma_to_map_update_last<T>(s: Seq<(Seq<char>, T)>, j: int, k: Seq<char>, e: T)
    requires
        0 <= j < s.len(),
        s[j].0 == k,
        forall|m: int| j < m < s.len() ==> #[trigger] s[m].0 != k,
    ensures
        to_map(s.update(j, (k, e))) == to_map(s).insert(k, e),
    decreases s.len(),
{
    let t = s.update(j, (k, e));
    if j == s.len() - 1 {
        assert(t.drop_last() =~= s.drop_last());
        assert(to_map(t) =~= to_map(s).insert(k, e));
    } else {
        let d = s.drop_last();
        assert(t.drop_last() =~= d.update(j, (k, e)));
        assert forall|m: int| j < m < d.len() implies #[trigger] d[m].0 != k by {
            assert(d[m] == s[m]);
        }
        lemma_to_map_update_last(d, j, k, e);
        assert(s.last().0 != k);
        assert(to_map(t) =~= to_map(s).insert(k, e));
    }
}

/// The position of the last entry of a path, if any.
fn last_position(v: &Vec<(String, FileState)>, k: &String) -> (r: Option<usize>)
    ensures
        match r {
            Some(j) => j < v@.len() && v@[j as int].0@ == k@
                && forall|m: int| j < m < v@.len() ==> (#[trigger] v@[m]).0@ != k@,
            None => forall|m: int| 0 <= m < v@.len() ==> (#[trigger] v@[m]).0@ != k@,
        },
{
    let mut i = v.len();
    while i > 0
        invariant
            i <= v@.len(),
            forall|m: int| i <= m < v@.len() ==> (#[trigger] v@[m]).0@ != k@,
        decreases i,
    {
        if v[i - 1].0 == *k {
            return Some(i - 1);
        }
        i = i - 1;
    }
    None
}

impl SyncState {
    /// Each path has at most one entry.
    pub open spec fn well_formed(&self) -> bool {
        unique_keys(state_pairs(self.files@))
    }

    /// An empty catalog.
    pub fn new() -> (s: SyncState)
        ensures
            s@ == Map::<Seq<char>, FileStateView>::empty(),
            s.well_formed(),
    {
        let s = SyncState { files: Vec::new() };
        assert(state_pairs(s.files@) =~= Seq::<(Seq<char>, FileStateView)>::empty());
        s
    }

    /// The entry recorded for a path.
    pub fn get(&self, path: &String) -> (r: Option<FileState>)
        ensures
            crate::state::state_opt(r) == get(self@, path@),
    {
        find_state(&self.files, path)
    }

    /// Records (or replaces) the entry of a path: a recorded path has its
    /// entry replaced in place, a new one is added.
    pub fn insert(&mut self, path: String, entry: FileState)
        ensures
            final(self)@ == old(self)@.insert(path@, entry@),
            old(self).well_formed() ==> final(self).well_formed(),
    {
        let ghost p = path@;
        let ghost e = entry@;
        let ghost before = state_pairs(self.files@);
        match last_position(&self.files, &path) {
            Some(j) => {
                self.files.set(j, (path, entry));
                proof {
                    assert forall|m: int| j < m < before.len() implies #[trigger] before[m].0 != p by {
                        assert(before[m].0 == old(self).files@[m].0@);
                    }
                    assert(state_pairs(self.files@) =~= before.update(j as int, (p, e)));
                    lemma_to_map_update_last(before, j as int, p, e);
                    let after = state_pairs(self.files@);
                    if unique_keys(before) {
                        assert forall|a: int, b: int| 0 <= a < b < after.len() implies #[trigger] after[a].0 != #[trigger] after[b].0 by {
                            assert(after[a].0 == before[a].0 && after[b].0 == before[b].0);
                        }
                    }
                }
            },
            None => {
                self.files.push((path, entry));
                proof {
                    assert(state_pairs(self.files@).drop_last() =~= before);
                    assert(state_pairs(self.files@).last() == (p, e));
                    assert forall|m: int| 0 <= m < before.len() implies #[trigger] before[m].0 != p by {
                        assert(before[m].0 == old(self).files@[m].0@);
                    }
                    let after = state_pairs(self.files@);
                    if unique_keys(before) {
                        assert forall|a: int, b: int| 0 <= a < b < after.len() implies #[trigger] after[a].0 != #[trigger] after[b].0 by {
                            assert(after[a] == before[a]);
                            if b < before.len() {
                                assert(after[b] == before[b]);
                            }
                        }
                    }
                }
            },
        }
    }
}

impl Default for SyncState {
    fn default() -> (s: SyncState)
        ensures
            s@ == Map::<Seq<char>, FileStateView>::empty(),
    {
        SyncState::new()
    }
}

} // verus!
