//! Box sign-in upkeep: when a cached access token is still usable, and how a
//! rotated refresh token is written back into a configuration file's text.
use vstd::prelude::*;
use crate::text::{chars_of, occurs};

verus! {

/// A cached access token is used while it stays valid for more than a minute.
pub fn token_is_fresh(expires_at_ms: u128, now_ms: u128) -> (b: bool)
    ensures
        b == (expires_at_ms > now_ms + 60000),
{
    expires_at_ms > now_ms && expires_at_ms - now_ms > 60000
}

/// When a token issued at `now_ms` for `expires_in` seconds expires.
pub fn token_expiry(now_ms: u128, expires_in: u64) -> (t: u128)
    requires
        now_ms + (expires_in as int) * 1000 <= u128::MAX,
    ensures
        t == now_ms + (expires_in as int) * 1000,
{
    now_ms + (expires_in as u128) * 1000
}

/// The first position at or after `from` where `pat` occurs in `s`.
pub open spec fn find_from(s: Seq<char>, pat: Seq<char>, from: int) -> Option<int>
    decreases s.len() + 1 - from,
{
    if from < 0 || from > s.len() {
        None
    } else if occurs(s, pat, from) {
        Some(from)
    } else {
        find_from(s, pat, from + 1)
    }
}

/// Where the refresh token of the `[box_credentials]` section sits: the
/// positions of its opening and closing quotes (the first `refresh_token`
/// after the section header, and the first two quotes after that).
pub open spec fn token_quotes(c: Seq<char>) -> Option<(int, int)> {
    match find_from(c, "[box_credentials]"@, 0) {
        None => None,
        Some(b) => match find_from(c, "refresh_token"@, b) {
            None => None,
            Some(t) => match find_from(c, seq!['"'], t) {
                None => None,
                Some(q) => match find_from(c, seq!['"'], q + 1) {
                    None => None,
                    Some(e) => Some((q, e)),
                },
            },
        },
    }
}

/// The configuration text with the Box refresh token replaced, or `None`
/// when the text has no quoted token in a `[box_credentials]` section.
pub open spec fn spec_replace_token(c: Seq<char>, token: Seq<char>) -> Option<Seq<char>> {
    match token_quotes(c) {
        None => None,
        Some((q, e)) => Some(c.take(q + 1) + token + c.skip(e)),
    }
}

/// The Box refresh token a configuration text holds.
pub open spec fn spec_read_token(c: Seq<char>) -> Option<Seq<char>> {
    match token_quotes(c) {
        None => None,
        Some((q, e)) => Some(c.subrange(q + 1, e)),
    }
}

fn occurs_at(cs: &[char], i: usize, pat: &[char]) -> (b: bool)
    requires
        i <= cs@.len(),
    ensures
        b == occurs(cs@, pat@, i as int),
{
    let cl = cs.len();
    if pat.len() > cl - i {
        return false;
    }
    let mut k: usize = 0;
    while k < pat.len()
        invariant
            k <= pat@.len(),
            cl == cs@.len(),
            i + pat@.len() <= cl,
            forall|x: int| 0 <= x < k ==> cs@[i + x] == pat@[x],
        decreases pat.len() - k,
    {
        assert(i + k < cl);
        if cs[i + k] != pat[k] {
            assert(cs@.subrange(i as int, i + pat@.len())[k as int] != pat@[k as int]);
            return false;
        }
        k = k + 1;
    }
    assert(cs@.subrange(i as int, i + pat@.len()) =~= pat@);
    true
}

/// The first occurrence of `pat` at or after `from`.
fn find_chars(cs: &[char], pat: &[char], from: usize) -> (r: Option<usize>)
    requires
        from <= cs@.len(),
    ensures
        r matches Some(i) ==> find_from(cs@, pat@, from as int) == Some(i as int),
        r is None ==> find_from(cs@, pat@, from as int) is None,
{
    let n = cs.len();
    let mut i = from;
    while i < n
        invariant
            from <= i <= n == cs@.len(),
            find_from(cs@, pat@, from as int) == find_from(cs@, pat@, i as int),
        decreases n - i,
    {
        if occurs_at(cs, i, pat) {
            return Some(i);
        }
        i = i + 1;
    }
    if occurs_at(cs, n, pat) {
        return Some(n);
    }
    assert(find_from(cs@, pat@, n as int + 1) is None);
    None
}

/// Replaces the Box refresh token in a configuration file's text: the text
/// between the first two quotes after the first `refresh_token` that
/// follows `[box_credentials]`.
pub fn replace_refresh_token(content: &str, new_token: &str) -> (r: Option<String>)
    ensures
        match r {
            Some(s) => spec_replace_token(content@, new_token@) == Some(s@),
            None => spec_replace_token(content@, new_token@) is None,
        },
{
    let cs = chars_of(content);
    let header = chars_of("[box_credentials]");
    let key = chars_of("refresh_token");
    let quote = vec!['"'];
    assert(quote@ =~= seq!['"']);
    let b = match find_chars(cs.as_slice(), header.as_slice(), 0) {
        Some(b) => b,
        None => return None,
    };
    proof { lemma_find_bound(cs@, "[box_credentials]"@, 0); }
    let t = match find_chars(cs.as_slice(), key.as_slice(), b) {
        Some(t) => t,
        None => return None,
    };
    proof { lemma_find_bound(cs@, "refresh_token"@, b as int); }
    let q = match find_chars(cs.as_slice(), quote.as_slice(), t) {
        Some(q) => q,
        None => return None,
    };
    proof {
        lemma_find_bound(cs@, seq!['"'], t as int);
        assert(q + 1 <= cs@.len());
    }
    let n = cs.len();
    assert(q + 1 <= n);
    let e = match find_chars(cs.as_slice(), quote.as_slice(), q + 1) {
        Some(e) => e,
        None => return None,
    };
    proof { lemma_find_bound(cs@, seq!['"'], q as int + 1); }
    let mut out = String::new();
    let mut i: usize = 0;
    while i <= q
        invariant
            i <= q + 1,
            q < e <= cs@.len(),
            out@ == cs@.take(i as int),
        decreases q + 1 - i,
    {
        out.push(cs[i]);
        assert(cs@.take(i as int + 1) =~= cs@.take(i as int).push(cs@[i as int]));
        i = i + 1;
    }
    out.append(new_token);
    let ghost mid = out@;
    let mut j: usize = e;
    while j < cs.len()
        invariant
            e <= j <= cs@.len(),
            out@ == mid + cs@.subrange(e as int, j as int),
        decreases cs.len() - j,
    {
        out.push(cs[j]);
        assert(cs@.subrange(e as int, j as int + 1) =~= cs@.subrange(e as int, j as int).push(cs@[j as int]));
        j = j + 1;
    }
    assert(cs@.subrange(e as int, cs@.len() as int) =~= cs@.skip(e as int));
    Some(out)
}

proof fn lemma_find_bound(s: Seq<char>, pat: Seq<char>, from: int)
    ensures
        find_from(s, pat, from) matches Some(i) ==> from <= i && occurs(s, pat, i) && i <= s.len(),
    decreases s.len() + 1 - from,
{
    if 0 <= from <= s.len() && !occurs(s, pat, from) {
        lemma_find_bound(s, pat, from + 1);
    }
}

/// No occurrence comes before the first one found from `from`.
proof fn lemma_find_first(s: Seq<char>, pat: Seq<char>, from: int, j: int)
    requires
        find_from(s, pat, from) matches Some(k) && from <= j < k,
    ensures
        !occurs(s, pat, j),
    decreases s.len() + 1 - from,
{
    if j > from {
        lemma_find_first(s, pat, from + 1, j);
    }
}

/// Two texts that agree on their first `m` characters find the same first
/// occurrence, when the one found ends within those characters.
proof fn lemma_find_agrees(s: Seq<char>, t: Seq<char>, pat: Seq<char>, from: int, m: int)
    requires
        0 <= from,
        m <= s.len(),
        m <= t.len(),
        forall|x: int| 0 <= x < m ==> s[x] == t[x],
        find_from(s, pat, from) matches Some(k) && k + pat.len() <= m,
    ensures
        find_from(t, pat, from) == find_from(s, pat, from),
    decreases s.len() + 1 - from,
{
    lemma_find_bound(s, pat, from);
    let k = find_from(s, pat, from)->0;
    assert(t.subrange(from, from + pat.len()) =~= s.subrange(from, from + pat.len()));
    if from < k {
        lemma_find_agrees(s, t, pat, from + 1, m);
    }
}

/// The first quote from `from` on is at `k` when there is one at `k` and
/// none before it.
proof fn lemma_find_quote(s: Seq<char>, from: int, k: int)
    requires
        0 <= from <= k < s.len(),
        s[k] == '"',
        forall|x: int| from <= x < k ==> s[x] != '"',
    ensures
        find_from(s, seq!['"'], from) == Some(k),
    decreases k - from,
{
    if from == k {
        assert(s.subrange(k, k + 1) =~= seq!['"']);
    } else {
        assert(!occurs(s, seq!['"'], from)) by {
            if occurs(s, seq!['"'], from) {
                assert(s.subrange(from, from + 1)[0] == s[from]);
            }
        }
        lemma_find_quote(s, from + 1, k);
    }
}

/// A found quote is a quote character.
proof fn lemma_quote_at(s: Seq<char>, from: int)
    requires
        find_from(s, seq!['"'], from) is Some,
    ensures
        ({
            let q = find_from(s, seq!['"'], from)->0;
            &&& from <= q < s.len()
            &&& s[q] == '"'
        }),
{
    lemma_find_bound(s, seq!['"'], from);
    let q = find_from(s, seq!['"'], from)->0;
    assert(s.subrange(q, q + 1)[0] == s[q]);
}

/// A position inside an occurrence of `pat` holds a character of `pat`.
proof fn lemma_inside(s: Seq<char>, pat: Seq<char>, i: int, x: int)
    requires
        occurs(s, pat, i),
        i <= x < i + pat.len(),
    ensures
        s[x] == pat[x - i],
{
    assert(s.subrange(i, i + pat.len())[x - i] == s[x]);
}

/// Once a rotated refresh token (one without quotes) is written into a
/// configuration text, reading the text's Box refresh token gives it back.
pub proof fn law_rotated_token_reads_back(c: Seq<char>, token: Seq<char>)
    requires
        spec_replace_token(c, token) is Some,
        crate::text::lacks(token, '"'),
    ensures
        spec_read_token(spec_replace_token(c, token)->0) == Some(token),
{
    let header = "[box_credentials]"@;
    let key = "refresh_token"@;
    let quote = seq!['"'];
    reveal_strlit("[box_credentials]");
    reveal_strlit("refresh_token");
    let b = find_from(c, header, 0)->0;
    let t = find_from(c, key, b)->0;
    let q = find_from(c, quote, t)->0;
    let e = find_from(c, quote, q + 1)->0;
    lemma_find_bound(c, header, 0);
    lemma_find_bound(c, key, b);
    lemma_quote_at(c, t);
    lemma_quote_at(c, q + 1);
    assert(q >= b + header.len()) by {
        if q < b + header.len() {
            lemma_inside(c, header, b, q);
        }
    }
    assert(q >= t + key.len()) by {
        if q < t + key.len() {
            lemma_inside(c, key, t, q);
        }
    }
    let c2 = c.take(q + 1) + token + c.skip(e);
    assert(forall|x: int| 0 <= x < q + 1 ==> c[x] == c2[x]);
    lemma_find_agrees(c, c2, header, 0, q + 1);
    lemma_find_agrees(c, c2, key, b, q + 1);
    lemma_find_agrees(c, c2, quote, t, q + 1);
    let f = q + 1 + token.len();
    assert(c2[f] == c[e]);
    assert forall|x: int| q + 1 <= x < f implies c2[x] != '"' by {
        assert(c2[x] == token[x - q - 1]);
    }
    lemma_find_quote(c2, q + 1, f);
    assert(c2.subrange(q + 1, f) =~= token);
}

} // verus!
