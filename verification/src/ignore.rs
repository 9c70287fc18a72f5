//! Exclusion rules for the watched folder, in the manner of `.gitignore`:
//! `*` and `?` wildcards that stay within one path component, a trailing
//! `/` for rules that only match directories, and rules holding a `/` that
//! are matched against the whole path from the folder's root.
use vstd::prelude::*;
use crate::text::{chars_of, spec_split, split_str, trim_end, trim_start, views_of};

verus! {

/// Wildcard matching: `*` matches any run of characters other than `/`,
/// `?` any single character other than `/`, anything else itself.
pub open spec fn glob(p: Seq<char>, s: Seq<char>) -> bool
    decreases p.len(), s.len(),
{
    if p.len() == 0 {
        s.len() == 0
    } else if p[0] == '*' {
        glob(p.drop_first(), s) || (s.len() > 0 && s[0] != '/' && glob(p, s.drop_first()))
    } else if p[0] == '?' {
        s.len() > 0 && s[0] != '/' && glob(p.drop_first(), s.drop_first())
    } else {
        s.len() > 0 && s[0] == p[0] && glob(p.drop_first(), s.drop_first())
    }
}

proof fn lemma_glob_step(p: Seq<char>, s: Seq<char>, i: int, j: int)
    requires
        0 <= i < p.len(),
        0 <= j <= s.len(),
    ensures
        glob(p.skip(i), s.skip(j)) == if p[i] == '*' {
            glob(p.skip(i + 1), s.skip(j)) || (j < s.len() && s[j] != '/' && glob(p.skip(i), s.skip(j + 1)))
        } else if p[i] == '?' {
            j < s.len() && s[j] != '/' && glob(p.skip(i + 1), s.skip(j + 1))
        } else {
            j < s.len() && s[j] == p[i] && glob(p.skip(i + 1), s.skip(j + 1))
        },
{
    assert(p.skip(i).drop_first() =~= p.skip(i + 1));
    if j < s.len() {
        assert(s.skip(j).drop_first() =~= s.skip(j + 1));
    }
}

/// Decides `glob(p, s)` by dynamic programming over suffixes.
pub fn glob_match(p: &[char], s: &[char]) -> (b: bool)
    ensures
        b == glob(p@, s@),
{
    let n = p.len();
    let m = s.len();
    // next[j] == glob(p[i+1..], s[j..]) for the row below the current one
    let mut next: Vec<bool> = Vec::new();
    let mut j: usize = 0;
    while j < m
        invariant
            j <= m,
            m == s@.len(),
            next@.len() == j,
            forall|k: int| 0 <= k < j ==> next@[k] == false,
        decreases m - j,
    {
        next.push(false);
        j = j + 1;
    }
    next.push(true);
    proof {
        assert forall|k: int| 0 <= k <= m implies next@[k] == glob(p@.skip(n as int), s@.skip(k)) by {
            assert(p@.skip(n as int) =~= Seq::<char>::empty());
        }
    }
    let mut i = n;
    while i > 0
        invariant
            i <= n,
            n == p@.len(),
            m == s@.len(),
            next@.len() == m + 1,
            forall|k: int| 0 <= k <= m ==> next@[k] == glob(p@.skip(i as int), s@.skip(k)),
        decreases i,
    {
        let pi = p[i - 1];
        let mut cur: Vec<bool> = Vec::new();
        let mut k: usize = 0;
        while k < m
            invariant
                k <= m,
                next@.len() == m + 1,
                cur@.len() == k,
            decreases m - k,
        {
            cur.push(false);
            k = k + 1;
        }
        let last = pi == '*' && next[m];
        proof {
            lemma_glob_step(p@, s@, i - 1, m as int);
        }
        cur.push(last);
        let mut jj = m;
        while jj > 0
            invariant
                jj <= m + 1,
                1 <= i <= n,
                n == p@.len(),
                m == s@.len(),
                pi == p@[i - 1],
                next@.len() == m + 1,
                cur@.len() == m + 1,
                forall|k: int| 0 <= k <= m ==> next@[k] == glob(p@.skip(i as int), s@.skip(k)),
                forall|k: int| jj <= k <= m ==> cur@[k] == glob(p@.skip(i - 1), s@.skip(k)),
            decreases jj,
        {
            let j = jj - 1;
            let v = if pi == '*' {
                next[j] || (j < m && s[j] != '/' && cur[j + 1])
            } else if pi == '?' {
                j < m && s[j] != '/' && next[j + 1]
            } else {
                j < m && s[j] == pi && next[j + 1]
            };
            proof {
                lemma_glob_step(p@, s@, i - 1, j as int);
            }
            cur.set(j, v);
            jj = j;
        }
        next = cur;
        i = i - 1;
    }
    assert(p@.skip(0) =~= p@);
    assert(s@.skip(0) =~= s@);
    next[0]
}

} // verus!

verus! {

/// One exclusion rule.
#[derive(Debug, Clone)]
pub struct IgnoreRule {
    /// The wildcard pattern, without leading and trailing slashes.
    pub pattern: Vec<char>,
    /// The rule only matches directories (it was written with a trailing `/`).
    pub dir_only: bool,
    /// The rule is matched against the whole path (it holds a `/`).
    pub anchored: bool,
}

pub struct RuleView {
    pub pattern: Seq<char>,
    pub dir_only: bool,
    pub anchored: bool,
}

impl View for IgnoreRule {
    type V = RuleView;

    open spec fn view(&self) -> RuleView {
        RuleView { pattern: self.pattern@, dir_only: self.dir_only, anchored: self.anchored }
    }
}

/// The rule a line of text stands for: blank lines and `#` comments stand for none.
pub open spec fn spec_parse_rule(line: Seq<char>) -> Option<RuleView> {
    let t = crate::text::trim_ws(line);
    let body = trim_end(t, '/');
    let g = trim_start(body, '/');
    if t.len() == 0 || t[0] == '#' || g.len() == 0 {
        None
    } else {
        Some(RuleView { pattern: g, dir_only: body.len() < t.len(), anchored: body.contains('/') })
    }
}

fn contains_char(cs: &[char], lo: usize, hi: usize, c: char) -> (b: bool)
    requires
        lo <= hi <= cs@.len(),
    ensures
        b == cs@.subrange(lo as int, hi as int).contains(c),
{
    let mut i = lo;
    while i < hi
        invariant
            lo <= i <= hi <= cs@.len(),
            forall|k: int| lo <= k < i ==> cs@[k] != c,
        decreases hi - i,
    {
        if cs[i] == c {
            assert(cs@.subrange(lo as int, hi as int)[i - lo] == c);
            return true;
        }
        i = i + 1;
    }
    proof {
        if cs@.subrange(lo as int, hi as int).contains(c) {
            let k = choose|k: int| 0 <= k < hi - lo && cs@.subrange(lo as int, hi as int)[k] == c;
            assert(cs@[lo + k] == c);
        }
    }
    false
}

/// Reads one rule from a line of text.
pub fn parse_rule(line: &str) -> (r: Option<IgnoreRule>)
    ensures
        match r {
            Some(x) => spec_parse_rule(line@) == Some(x@),
            None => spec_parse_rule(line@) is None,
        },
{
    let cs = chars_of(line);
    assert(cs@.subrange(0, cs@.len() as int) =~= cs@);
    let (i, j) = crate::text::trim_ws_bounds(cs.as_slice(), 0, cs.len());
    if i == j || cs[i] == '#' {
        return None;
    }
    let k = crate::text::skip_trailing(cs.as_slice(), i, j, '/');
    let g0 = crate::text::skip_leading_within(cs.as_slice(), i, k, '/');
    if g0 == k {
        return None;
    }
    let anchored = contains_char(cs.as_slice(), i, k, '/');
    let mut pattern: Vec<char> = Vec::new();
    let mut x = g0;
    while x < k
        invariant
            g0 <= x <= k <= cs@.len(),
            pattern@ == cs@.subrange(g0 as int, x as int),
        decreases k - x,
    {
        pattern.push(cs[x]);
        assert(cs@.subrange(g0 as int, x as int + 1) =~= cs@.subrange(g0 as int, x as int).push(cs@[x as int]));
        x = x + 1;
    }
    Some(IgnoreRule { pattern, dir_only: k < j, anchored })
}

} // verus!

verus! {

/// The non-empty parts of a split path.
pub open spec fn nonempty_parts(parts: Seq<Seq<char>>) -> Seq<Seq<char>>
    decreases parts.len(),
{
    if parts.len() == 0 {
        Seq::empty()
    } else if parts.last().len() > 0 {
        nonempty_parts(parts.drop_last()).push(parts.last())
    } else {
        nonempty_parts(parts.drop_last())
    }
}

/// Components joined with `/`.
pub open spec fn join_slash(cs: Seq<Seq<char>>) -> Seq<char>
    decreases cs.len(),
{
    if cs.len() == 0 {
        Seq::empty()
    } else if cs.len() == 1 {
        cs[0]
    } else {
        join_slash(cs.drop_last()) + seq!['/'] + cs.last()
    }
}

/// The path components of `path` below the watched folder `root`.
pub open spec fn components(path: Seq<char>, root: Seq<char>) -> Seq<Seq<char>> {
    let rel = match crate::paths::spec_remote_path(path, root) {
        Some(r) => r,
        None => trim_start(path, '/'),
    };
    nonempty_parts(spec_split(rel, '/'))
}

/// Whether a rule excludes the path made of the components `prefix`.
pub open spec fn rule_matches(r: RuleView, prefix: Seq<Seq<char>>, is_dir: bool) -> bool {
    &&& (!r.dir_only || is_dir)
    &&& if r.anchored { glob(r.pattern, join_slash(prefix)) } else { glob(r.pattern, prefix.last()) }
}

/// A path is excluded when a rule matches it or one of the directories above it.
pub open spec fn spec_is_ignored(rules: Seq<RuleView>, comps: Seq<Seq<char>>, is_dir: bool) -> bool {
    exists|k: int, ri: int| 1 <= k <= comps.len() && 0 <= ri < rules.len() && #[trigger] matches_at(rules, comps, k, ri, is_dir)
}

/// Rule `ri` excludes the first `k` components (a directory unless they are all of them).
pub open spec fn matches_at(rules: Seq<RuleView>, comps: Seq<Seq<char>>, k: int, ri: int, is_dir: bool) -> bool {
    rule_matches(rules[ri], comps.take(k), k < comps.len() || is_dir)
}

/// Exclusion rules rooted at the watched folder.
#[derive(Debug, Clone)]
pub struct SyncIgnore {
    pub root: String,
    pub rules: Vec<IgnoreRule>,
}

pub open spec fn rule_views(rules: Seq<IgnoreRule>) -> Seq<RuleView> {
    rules.map_values(|r: IgnoreRule| r@)
}

/// The rules the lines of a text stand for, in order.
pub open spec fn rules_of_lines(lines: Seq<Seq<char>>) -> Seq<RuleView>
    decreases lines.len(),
{
    if lines.len() == 0 {
        Seq::empty()
    } else {
        match spec_parse_rule(lines.last()) {
            Some(r) => rules_of_lines(lines.drop_last()).push(r),
            None => rules_of_lines(lines.drop_last()),
        }
    }
}

impl SyncIgnore {
    /// A matcher that excludes nothing.
    pub fn empty() -> (s: SyncIgnore)
        ensures
            s.root@ == Seq::<char>::empty(),
            s.rules@.len() == 0,
    {
        SyncIgnore { root: String::new(), rules: Vec::new() }
    }

    /// Adds the rules written in `patterns`, one pattern per entry.
    pub fn add_patterns(&mut self, patterns: &Vec<String>)
        ensures
            final(self).root@ == old(self).root@,
            rule_views(final(self).rules@) == rule_views(old(self).rules@) + rules_of_lines(views_of(patterns@)),
    {
        let mut i: usize = 0;
        while i < patterns.len()
            invariant
                i <= patterns.len(),
                self.root@ == old(self).root@,
                rule_views(self.rules@) == rule_views(old(self).rules@) + rules_of_lines(views_of(patterns@).take(i as int)),
            decreases patterns.len() - i,
        {
            let r = parse_rule(patterns[i].as_str());
            let ghost before = rule_views(self.rules@);
            proof {
                assert(views_of(patterns@).take(i as int + 1).drop_last() =~= views_of(patterns@).take(i as int));
                assert(views_of(patterns@).take(i as int + 1).last() == patterns@[i as int]@);
            }
            match r {
                Some(rule) => {
                    self.rules.push(rule);
                    assert(rule_views(self.rules@) =~= before.push(self.rules@.last()@));
                },
                None => {},
            }
            i = i + 1;
        }
        assert(views_of(patterns@).take(patterns.len() as int) =~= views_of(patterns@));
    }

    /// Adds the rules of an ignore file: one pattern per line, `#` for comments.
    pub fn add_rules_from_text(&mut self, text: &str)
        ensures
            final(self).root@ == old(self).root@,
            rule_views(final(self).rules@) == rule_views(old(self).rules@) + rules_of_lines(spec_split(text@, '\n')),
    {
        let lines = split_str(text, '\n');
        self.add_patterns(&lines);
    }

    /// A matcher rooted at `root` with the given exclusion patterns.
    pub fn new(root: &str, patterns: &Vec<String>) -> (s: SyncIgnore)
        ensures
            s.root@ == root@,
            rule_views(s.rules@) == rules_of_lines(views_of(patterns@)),
    {
        let mut s = SyncIgnore { root: root.to_owned(), rules: Vec::new() };
        assert(rule_views(s.rules@) =~= Seq::<RuleView>::empty());
        s.add_patterns(patterns);
        assert(Seq::<RuleView>::empty() + rules_of_lines(views_of(patterns@)) =~= rules_of_lines(views_of(patterns@)));
        s
    }
}

} // verus!

verus! {

pub open spec fn char_vec_views(v: Seq<Vec<char>>) -> Seq<Seq<char>> {
    v.map_values(|x: Vec<char>| x@)
}

fn nonempty_components(parts: &Vec<String>) -> (comps: Vec<Vec<char>>)
    ensures
        char_vec_views(comps@) == nonempty_parts(views_of(parts@)),
{
    let mut comps: Vec<Vec<char>> = Vec::new();
    let mut i: usize = 0;
    while i < parts.len()
        invariant
            i <= parts.len(),
            char_vec_views(comps@) == nonempty_parts(views_of(parts@).take(i as int)),
        decreases parts.len() - i,
    {
        let cs = chars_of(parts[i].as_str());
        let ghost before = char_vec_views(comps@);
        proof {
            assert(views_of(parts@).take(i as int + 1).drop_last() =~= views_of(parts@).take(i as int));
            assert(views_of(parts@).take(i as int + 1).last() == parts@[i as int]@);
        }
        if cs.len() > 0 {
            comps.push(cs);
            assert(char_vec_views(comps@) =~= before.push(comps@.last()@));
        }
        i = i + 1;
    }
    assert(views_of(parts@).take(parts.len() as int) =~= views_of(parts@));
    comps
}

impl SyncIgnore {
    /// Whether `path` (absolute under the root, or relative to it) is excluded.
    pub fn is_ignored(&self, path: &str, is_dir: bool) -> (b: bool)
        ensures
            b == spec_is_ignored(rule_views(self.rules@), components(path@, self.root@), is_dir),
    {
        let rel = match crate::paths::get_remote_path(path, self.root.as_str()) {
            Some(r) => r,
            None => crate::text::trim_start_str(path, '/'),
        };
        let parts = split_str(rel.as_str(), '/');
        let comps = nonempty_components(&parts);
        let ghost cv = char_vec_views(comps@);
        let ghost rv = rule_views(self.rules@);
        assert(cv == components(path@, self.root@));
        let n = comps.len();
        let mut joined: Vec<char> = Vec::new();
        let mut k: usize = 0;
        while k < n
            invariant
                k <= n == comps@.len(),
                cv == char_vec_views(comps@),
                cv == components(path@, self.root@),
                rv == rule_views(self.rules@),
                k >= 1 ==> joined@ == join_slash(cv.take(k as int)),
                forall|k2: int, ri: int| 1 <= k2 <= k && 0 <= ri < rv.len() ==> !#[trigger] matches_at(rv, cv, k2, ri, is_dir),
            decreases n - k,
        {
            if k == 0 {
                joined = comps[0].clone();
                assert(cv.take(1).len() == 1);
            } else {
                joined.push('/');
                let mut x: usize = 0;
                let ghost base = joined@;
                while x < comps[k].len()
                    invariant
                        k < n == comps@.len(),
                        x <= comps@[k as int]@.len(),
                        joined@ == base + comps@[k as int]@.take(x as int),
                    decreases comps@[k as int]@.len() - x,
                {
                    joined.push(comps[k][x]);
                    assert(comps@[k as int]@.take(x as int + 1) =~= comps@[k as int]@.take(x as int).push(comps@[k as int]@[x as int]));
                    x = x + 1;
                }
                proof {
                    assert(comps@[k as int]@.take(comps@[k as int]@.len() as int) =~= comps@[k as int]@);
                    assert(cv.take(k as int + 1).drop_last() =~= cv.take(k as int));
                    assert(cv.take(k as int + 1).last() == cv[k as int]);
                }
            }
            proof {
                assert(cv.take(k as int + 1).last() == cv[k as int]);
                assert(cv[k as int] == comps@[k as int]@);
            }
            let as_dir = k + 1 < n || is_dir;
            let mut ri: usize = 0;
            while ri < self.rules.len()
                invariant
                    k < n == comps@.len(),
                    cv == char_vec_views(comps@),
                    cv == components(path@, self.root@),
                    rv == rule_views(self.rules@),
                    ri <= self.rules@.len(),
                    joined@ == join_slash(cv.take(k as int + 1)),
                    as_dir == (k + 1 < n || is_dir),
                    cv.take(k as int + 1).last() == comps@[k as int]@,
                    forall|r2: int| 0 <= r2 < ri ==> !#[trigger] matches_at(rv, cv, k as int + 1, r2, is_dir),
                decreases self.rules@.len() - ri,
            {
                let rule = &self.rules[ri];
                let hit = (!rule.dir_only || as_dir) && if rule.anchored {
                    glob_match(rule.pattern.as_slice(), joined.as_slice())
                } else {
                    glob_match(rule.pattern.as_slice(), comps[k].as_slice())
                };
                assert(rv[ri as int] == self.rules@[ri as int]@);
                if hit {
                    assert(matches_at(rv, cv, k as int + 1, ri as int, is_dir));
                    return true;
                }
                ri = ri + 1;
            }
            k = k + 1;
        }
        false
    }
}

} // verus!
