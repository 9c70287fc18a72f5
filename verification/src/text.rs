//! Character-level string helpers with exact specifications.
use vstd::prelude::*;

verus! {

/// `String::push` appends one character (std documentation).
pub assume_specification[ String::push ](s: &mut String, ch: char)
    ensures
        final(s)@ == old(s)@.push(ch),
;

/// The characters of a string slice, in order.
pub fn chars_of(s: &str) -> (v: Vec<char>)
    ensures
        v@ == s@,
{
    let mut v: Vec<char> = Vec::new();
    for c in it: s.chars()
        invariant
            v@ == it.seq().take(it.index() as int),
    {
        v.push(c);
    }
    v
}

/// Builds a `String` from a character sequence.
pub fn string_from_chars(cs: &[char]) -> (s: String)
    ensures
        s@ == cs@,
{
    let mut s = String::new();
    let mut i: usize = 0;
    while i < cs.len()
        invariant
            i <= cs.len(),
            s@ == cs@.take(i as int),
        decreases cs.len() - i,
    {
        s.push(cs[i]);
        assert(cs@.take(i as int + 1) =~= cs@.take(i as int).push(cs@[i as int]));
        i = i + 1;
    }
    assert(cs@.take(cs.len() as int) =~= cs@);
    s
}

} // verus!

verus! {

/// Concatenation of two string slices.
pub fn concat_str(a: &str, b: &str) -> (r: String)
    ensures
        r@ == a@ + b@,
{
    let mut r = a.to_owned();
    r.append(b);
    r
}

} // verus!

verus! {

/// Builds a `String` from a range of a character slice.
pub fn string_from_range(cs: &[char], lo: usize, hi: usize) -> (s: String)
    requires
        lo <= hi <= cs@.len(),
    ensures
        s@ == cs@.subrange(lo as int, hi as int),
{
    let mut s = String::new();
    let mut i: usize = lo;
    while i < hi
        invariant
            lo <= i <= hi <= cs@.len(),
            s@ == cs@.subrange(lo as int, i as int),
        decreases hi - i,
    {
        s.push(cs[i]);
        assert(cs@.subrange(lo as int, i as int + 1) =~= cs@.subrange(lo as int, i as int).push(cs@[i as int]));
        i = i + 1;
    }
    s
}

/// `s` with every leading `c` removed (`str::trim_start_matches` with one character).
pub open spec fn trim_start(s: Seq<char>, c: char) -> Seq<char>
    decreases s.len(),
{
    if s.len() > 0 && s[0] == c { trim_start(s.drop_first(), c) } else { s }
}

/// `s` with every trailing `c` removed (`str::trim_end_matches` with one character).
pub open spec fn trim_end(s: Seq<char>, c: char) -> Seq<char>
    decreases s.len(),
{
    if s.len() > 0 && s.last() == c { trim_end(s.drop_last(), c) } else { s }
}

/// `s` with `c` removed at both ends (`str::trim_matches` with one character).
pub open spec fn trim_both(s: Seq<char>, c: char) -> Seq<char> {
    trim_end(trim_start(s, c), c)
}

/// Index of the first character of `cs` at or after `lo` that is not `c`.
pub fn skip_leading(cs: &[char], lo: usize, c: char) -> (i: usize)
    requires
        lo <= cs@.len(),
    ensures
        lo <= i <= cs@.len(),
        trim_start(cs@.subrange(lo as int, cs@.len() as int), c) == cs@.subrange(i as int, cs@.len() as int),
{
    let mut i = lo;
    while i < cs.len() && cs[i] == c
        invariant
            lo <= i <= cs@.len(),
            trim_start(cs@.subrange(lo as int, cs@.len() as int), c) == trim_start(cs@.subrange(i as int, cs@.len() as int), c),
        decreases cs.len() - i,
    {
        assert(cs@.subrange(i as int, cs@.len() as int).drop_first() =~= cs@.subrange(i as int + 1, cs@.len() as int));
        i = i + 1;
    }
    i
}

/// Index just past the last character of `cs[lo..hi]` that is not `c`.
pub fn skip_trailing(cs: &[char], lo: usize, hi: usize, c: char) -> (j: usize)
    requires
        lo <= hi <= cs@.len(),
    ensures
        lo <= j <= hi,
        trim_end(cs@.subrange(lo as int, hi as int), c) == cs@.subrange(lo as int, j as int),
{
    let mut j = hi;
    while j > lo && cs[j - 1] == c
        invariant
            lo <= j <= hi,
            hi <= cs@.len(),
            trim_end(cs@.subrange(lo as int, hi as int), c) == trim_end(cs@.subrange(lo as int, j as int), c),
        decreases j,
    {
        assert(cs@.subrange(lo as int, j as int).drop_last() =~= cs@.subrange(lo as int, j as int - 1));
        j = j - 1;
    }
    j
}

/// `str::trim_start_matches` with one character.
pub fn trim_start_str(s: &str, c: char) -> (r: String)
    ensures
        r@ == trim_start(s@, c),
{
    let cs = chars_of(s);
    let i = skip_leading(cs.as_slice(), 0, c);
    assert(cs@.subrange(0, cs@.len() as int) =~= cs@);
    string_from_range(cs.as_slice(), i, cs.len())
}

/// `str::trim_matches` with one character.
pub fn trim_both_str(s: &str, c: char) -> (r: String)
    ensures
        r@ == trim_both(s@, c),
{
    let cs = chars_of(s);
    let i = skip_leading(cs.as_slice(), 0, c);
    assert(cs@.subrange(0, cs@.len() as int) =~= cs@);
    let j = skip_trailing(cs.as_slice(), i, cs.len(), c);
    string_from_range(cs.as_slice(), i, j)
}

/// Concatenation of two owned strings.
pub fn concat_strings(a: &String, b: &String) -> (r: String)
    ensures
        r@ == a@ + b@,
{
    concat_str(a.as_str(), b.as_str())
}

} // verus!

verus! {

/// `parts` with `head` put in front of its first part.
pub open spec fn prefix_first(head: Seq<char>, parts: Seq<Seq<char>>) -> Seq<Seq<char>> {
    parts.update(0, head + parts[0])
}

/// The pieces of `s` between occurrences of `c` (`str::split` with one character).
pub open spec fn spec_split(s: Seq<char>, c: char) -> Seq<Seq<char>>
    decreases s.len(),
{
    if s.len() == 0 {
        seq![Seq::<char>::empty()]
    } else if s[0] == c {
        seq![Seq::<char>::empty()] + spec_split(s.drop_first(), c)
    } else {
        prefix_first(seq![s[0]], spec_split(s.drop_first(), c))
    }
}

pub proof fn lemma_split_nonempty(s: Seq<char>, c: char)
    ensures
        spec_split(s, c).len() >= 1,
    decreases s.len(),
{
    if s.len() > 0 {
        lemma_split_nonempty(s.drop_first(), c);
    }
}

/// The values of a list of strings.
pub open spec fn views_of(v: Seq<String>) -> Seq<Seq<char>> {
    v.map_values(|s: String| s@)
}

/// Splits a character range on `c`.
pub fn split_chars(cs: &[char], lo: usize, hi: usize, c: char) -> (parts: Vec<String>)
    requires
        lo <= hi <= cs@.len(),
    ensures
        views_of(parts@) == spec_split(cs@.subrange(lo as int, hi as int), c),
{
    let ghost s = cs@.subrange(lo as int, hi as int);
    let mut done: Vec<String> = Vec::new();
    let mut start: usize = lo;
    let mut i: usize = lo;
    proof {
        lemma_split_nonempty(s, c);
        assert(cs@.subrange(start as int, i as int) =~= Seq::<char>::empty());
        assert(prefix_first(Seq::<char>::empty(), spec_split(cs@.subrange(i as int, hi as int), c))
            =~= spec_split(cs@.subrange(i as int, hi as int), c));
        assert(views_of(done@) =~= Seq::<Seq<char>>::empty());
    }
    while i < hi
        invariant
            lo <= start <= i <= hi <= cs@.len(),
            s == cs@.subrange(lo as int, hi as int),
            spec_split(s, c) == views_of(done@) + prefix_first(
                cs@.subrange(start as int, i as int),
                spec_split(cs@.subrange(i as int, hi as int), c),
            ),
        decreases hi - i,
    {
        let ghost rest = cs@.subrange(i as int + 1, hi as int);
        proof {
            lemma_split_nonempty(rest, c);
            assert(cs@.subrange(i as int, hi as int).drop_first() =~= rest);
        }
        if cs[i] == c {
            let piece = string_from_range(cs, start, i);
            let ghost old_done = views_of(done@);
            done.push(piece);
            proof {
                assert(views_of(done@) =~= old_done.push(cs@.subrange(start as int, i as int)));
                assert(cs@.subrange(i as int + 1, i as int + 1) =~= Seq::<char>::empty());
                assert(prefix_first(Seq::<char>::empty(), spec_split(rest, c)) =~= spec_split(rest, c));
                let a = cs@.subrange(start as int, i as int);
                let r = spec_split(rest, c);
                assert(prefix_first(a, seq![Seq::<char>::empty()] + r) =~= seq![a] + r);
                assert(old_done + (seq![a] + r) =~= old_done.push(a) + r);
            }
            i = i + 1;
            start = i;
        } else {
            proof {
                let a = cs@.subrange(start as int, i as int);
                let r = spec_split(rest, c);
                assert(cs@.subrange(start as int, i as int + 1) =~= a + seq![cs@[i as int]]);
                assert(a + (seq![cs@[i as int]] + r[0]) =~= (a + seq![cs@[i as int]]) + r[0]);
                assert(prefix_first(a, prefix_first(seq![cs@[i as int]], r))
                    =~= prefix_first(a + seq![cs@[i as int]], r));
            }
            i = i + 1;
        }
    }
    let last = string_from_range(cs, start, hi);
    let ghost old_done = views_of(done@);
    done.push(last);
    proof {
        assert(cs@.subrange(hi as int, hi as int) =~= Seq::<char>::empty());
        let a = cs@.subrange(start as int, hi as int);
        assert(prefix_first(a, seq![Seq::<char>::empty()]) =~= seq![a]);
        assert(views_of(done@) =~= old_done.push(a));
        assert(old_done + seq![a] =~= old_done.push(a));
    }
    done
}

/// `str::split` with one character.
pub fn split_str(s: &str, c: char) -> (parts: Vec<String>)
    ensures
        views_of(parts@) == spec_split(s@, c),
{
    let cs = chars_of(s);
    assert(cs@.subrange(0, cs@.len() as int) =~= cs@);
    split_chars(cs.as_slice(), 0, cs.len(), c)
}

} // verus!

verus! {

/// Unicode white space (`char::is_whitespace`).
pub open spec fn is_ws(c: char) -> bool {
    ||| ('\u{9}' <= c && c <= '\u{d}')
    ||| c == ' '
    ||| c == '\u{85}'
    ||| c == '\u{a0}'
    ||| c == '\u{1680}'
    ||| ('\u{2000}' <= c && c <= '\u{200a}')
    ||| c == '\u{2028}'
    ||| c == '\u{2029}'
    ||| c == '\u{202f}'
    ||| c == '\u{205f}'
    ||| c == '\u{3000}'
}

pub fn is_ws_exec(c: char) -> (b: bool)
    ensures
        b == is_ws(c),
{
    ('\u{9}' <= c && c <= '\u{d}') || c == ' ' || c == '\u{85}' || c == '\u{a0}' || c == '\u{1680}'
        || ('\u{2000}' <= c && c <= '\u{200a}') || c == '\u{2028}' || c == '\u{2029}' || c == '\u{202f}'
        || c == '\u{205f}' || c == '\u{3000}'
}

/// `s` without leading white space.
pub open spec fn trim_ws_start(s: Seq<char>) -> Seq<char>
    decreases s.len(),
{
    if s.len() > 0 && is_ws(s[0]) { trim_ws_start(s.drop_first()) } else { s }
}

/// `s` without trailing white space.
pub open spec fn trim_ws_end(s: Seq<char>) -> Seq<char>
    decreases s.len(),
{
    if s.len() > 0 && is_ws(s.last()) { trim_ws_end(s.drop_last()) } else { s }
}

/// `str::trim`.
pub open spec fn trim_ws(s: Seq<char>) -> Seq<char> {
    trim_ws_end(trim_ws_start(s))
}

/// Bounds of `trim_ws` of `cs[lo..hi]`.
pub fn trim_ws_bounds(cs: &[char], lo: usize, hi: usize) -> (r: (usize, usize))
    requires
        lo <= hi <= cs@.len(),
    ensures
        lo <= r.0 <= r.1 <= hi,
        trim_ws(cs@.subrange(lo as int, hi as int)) == cs@.subrange(r.0 as int, r.1 as int),
{
    let mut i = lo;
    while i < hi && is_ws_exec(cs[i])
        invariant
            lo <= i <= hi <= cs@.len(),
            trim_ws_start(cs@.subrange(lo as int, hi as int)) == trim_ws_start(cs@.subrange(i as int, hi as int)),
        decreases hi - i,
    {
        assert(cs@.subrange(i as int, hi as int).drop_first() =~= cs@.subrange(i as int + 1, hi as int));
        i = i + 1;
    }
    let mut j = hi;
    while j > i && is_ws_exec(cs[j - 1])
        invariant
            lo <= i <= j <= hi <= cs@.len(),
            trim_ws_end(cs@.subrange(i as int, hi as int)) == trim_ws_end(cs@.subrange(i as int, j as int)),
        decreases j,
    {
        assert(cs@.subrange(i as int, j as int).drop_last() =~= cs@.subrange(i as int, j as int - 1));
        j = j - 1;
    }
    (i, j)
}

/// `str::trim`.
pub fn trim_ws_str(s: &str) -> (r: String)
    ensures
        r@ == trim_ws(s@),
{
    let cs = chars_of(s);
    assert(cs@.subrange(0, cs@.len() as int) =~= cs@);
    let (i, j) = trim_ws_bounds(cs.as_slice(), 0, cs.len());
    string_from_range(cs.as_slice(), i, j)
}

} // verus!

verus! {

/// Index of the first character of `cs[lo..hi]` that is not `c` (or `hi`).
pub fn skip_leading_within(cs: &[char], lo: usize, hi: usize, c: char) -> (i: usize)
    requires
        lo <= hi <= cs@.len(),
    ensures
        lo <= i <= hi,
        trim_start(cs@.subrange(lo as int, hi as int), c) == cs@.subrange(i as int, hi as int),
{
    let mut i = lo;
    while i < hi && cs[i] == c
        invariant
            lo <= i <= hi <= cs@.len(),
            trim_start(cs@.subrange(lo as int, hi as int), c) == trim_start(cs@.subrange(i as int, hi as int), c),
        decreases hi - i,
    {
        assert(cs@.subrange(i as int, hi as int).drop_first() =~= cs@.subrange(i as int + 1, hi as int));
        i = i + 1;
    }
    i
}

} // verus!

verus! {

/// Equality of two character ranges.
pub fn slice_eq(a: &[char], b: &[char]) -> (r: bool)
    ensures
        r == (a@ == b@),
{
    if a.len() != b.len() {
        return false;
    }
    let mut i: usize = 0;
    while i < a.len()
        invariant
            i <= a@.len() == b@.len(),
            a@.take(i as int) == b@.take(i as int),
        decreases a.len() - i,
    {
        if a[i] != b[i] {
            return false;
        }
        assert(a@.take(i as int + 1) =~= a@.take(i as int).push(a@[i as int]));
        assert(b@.take(i as int + 1) =~= b@.take(i as int).push(b@[i as int]));
        i = i + 1;
    }
    assert(a@.take(a@.len() as int) =~= a@);
    assert(b@.take(b@.len() as int) =~= b@);
    true
}

/// Equality of two string slices by value.
pub fn str_eq(a: &str, b: &str) -> (r: bool)
    ensures
        r == (a@ == b@),
{
    let x = chars_of(a);
    let y = chars_of(b);
    slice_eq(x.as_slice(), y.as_slice())
}

/// `str::starts_with` with a string pattern.
pub fn starts_with(s: &str, pre: &str) -> (r: bool)
    ensures
        r == (pre@.len() <= s@.len() && s@.take(pre@.len() as int) == pre@),
{
    let x = chars_of(s);
    let y = chars_of(pre);
    if y.len() > x.len() {
        return false;
    }
    let mut i: usize = 0;
    while i < y.len()
        invariant
            i <= y@.len() <= x@.len(),
            x@ == s@,
            y@ == pre@,
            x@.take(i as int) == y@.take(i as int),
        decreases y.len() - i,
    {
        if x[i] != y[i] {
            assert(x@.take(y@.len() as int)[i as int] != y@[i as int]);
            return false;
        }
        assert(x@.take(i as int + 1) =~= x@.take(i as int).push(x@[i as int]));
        assert(y@.take(i as int + 1) =~= y@.take(i as int).push(y@[i as int]));
        i = i + 1;
    }
    assert(y@.take(y@.len() as int) =~= y@);
    true
}

/// `str::ends_with` with a string pattern.
pub fn ends_with(s: &str, suf: &str) -> (r: bool)
    ensures
        r == (suf@.len() <= s@.len() && s@.skip(s@.len() - suf@.len()) == suf@),
{
    let x = chars_of(s);
    let y = chars_of(suf);
    if y.len() > x.len() {
        return false;
    }
    let xl = x.len();
    let off = xl - y.len();
    let mut i: usize = 0;
    while i < y.len()
        invariant
            i <= y@.len() <= x@.len(),
            x@ == s@,
            y@ == suf@,
            off == x@.len() - y@.len(),
            xl == x@.len(),
            forall|k: int| 0 <= k < i ==> x@[off + k] == y@[k],
        decreases y.len() - i,
    {
        assert(off + i < xl);
        if x[off + i] != y[i] {
            assert(x@.skip(off as int)[i as int] != y@[i as int]);
            return false;
        }
        i = i + 1;
    }
    assert(x@.skip(off as int) =~= y@);
    true
}

} // verus!

verus! {

/// Whether `pat` occurs in `s` starting at position `i`.
pub open spec fn occurs(s: Seq<char>, pat: Seq<char>, i: int) -> bool {
    0 <= i && i + pat.len() <= s.len() && s.subrange(i, i + pat.len()) == pat
}

/// `str::contains` with a string pattern.
pub open spec fn contains_seq(s: Seq<char>, pat: Seq<char>) -> bool {
    exists|i: int| #[trigger] occurs(s, pat, i)
}

fn occurs_exec(cs: &[char], i: usize, pat: &[char]) -> (b: bool)
    ensures
        b == occurs(cs@, pat@, i as int),
{
    if i > cs.len() || pat.len() > cs.len() - i {
        return false;
    }
    let cl = cs.len();
    let mut k: usize = 0;
    while k < pat.len()
        invariant
            k <= pat@.len(),
            cl == cs@.len(),
            i + pat@.len() <= cs@.len(),
            forall|x: int| 0 <= x < k ==> cs@[i + x] == pat@[x],
        decreases pat.len() - k,
    {
        assert(i + k < cl);
        if cs[i + k] != pat[k] {
            assert(cs@.subrange(i as int, i + pat@.len())[k as int] != pat@[k as int]);
            return false;
        }
        k = k + 1;
    }
    assert(cs@.subrange(i as int, i + pat@.len()) =~= pat@);
    true
}

/// Whether `pat` occurs anywhere in `s`.
pub fn contains_str(s: &str, pat: &str) -> (b: bool)
    ensures
        b == contains_seq(s@, pat@),
{
    let cs = chars_of(s);
    let ps = chars_of(pat);
    let mut i: usize = 0;
    while i < cs.len()
        invariant
            i <= cs@.len(),
            cs@ == s@,
            ps@ == pat@,
            forall|j: int| 0 <= j < i ==> !occurs(s@, pat@, j),
        decreases cs@.len() - i,
    {
        if occurs_exec(cs.as_slice(), i, ps.as_slice()) {
            return true;
        }
        i = i + 1;
    }
    if occurs_exec(cs.as_slice(), i, ps.as_slice()) {
        return true;
    }
    assert forall|j: int| !occurs(s@, pat@, j) by {
        if 0 <= j && j + pat@.len() <= s@.len() {
            assert(j <= i);
        }
    }
    false
}

} // verus!

verus! {

/// Whether `c` does not occur in `s`.
pub open spec fn lacks(s: Seq<char>, c: char) -> bool {
    forall|i: int| 0 <= i < s.len() ==> s[i] != c
}

/// A text without the separator splits into itself alone.
pub proof fn lemma_split_whole(a: Seq<char>, c: char)
    requires
        lacks(a, c),
    ensures
        spec_split(a, c) == seq![a],
    decreases a.len(),
{
    if a.len() > 0 {
        lemma_split_whole(a.drop_first(), c);
        assert(a[0] != c);
        assert(seq![a[0]] + a.drop_first() =~= a);
        assert(prefix_first(seq![a[0]], seq![a.drop_first()]) =~= seq![a]);
    } else {
        assert(a =~= Seq::<char>::empty());
    }
}

/// Splitting `a c b`, where `b` has no separator, gives the pieces of `a` and then `b`.
pub proof fn lemma_split_last(a: Seq<char>, c: char, b: Seq<char>)
    requires
        lacks(b, c),
    ensures
        spec_split(a + seq![c] + b, c) == spec_split(a, c).push(b),
    decreases a.len(),
{
    let s = a + seq![c] + b;
    if a.len() == 0 {
        assert(s.drop_first() =~= b);
        lemma_split_whole(b, c);
        assert(seq![Seq::<char>::empty()] + seq![b] =~= seq![Seq::<char>::empty()].push(b));
    } else {
        assert(s.drop_first() =~= a.drop_first() + seq![c] + b);
        lemma_split_last(a.drop_first(), c, b);
        lemma_split_nonempty(a.drop_first(), c);
        let r = spec_split(a.drop_first(), c);
        if a[0] == c {
            assert(seq![Seq::<char>::empty()] + r.push(b) =~= (seq![Seq::<char>::empty()] + r).push(b));
        } else {
            assert(prefix_first(seq![a[0]], r.push(b)) =~= prefix_first(seq![a[0]], r).push(b));
        }
    }
}

} // verus!
