//! What a Shared Key signature does not depend on: the order in which a
//! request's headers and query parameters are given, the ASCII case of
//! header names and of the verb, white space around header values, and the
//! headers that are not `x-ms-` headers.
use vstd::prelude::*;
use crate::azure::{
    ascii_lower, ascii_upper, has_prefix, insert_pos, is_ascii_text, lemma_insert_pos_bound, name_lower, ms_headers, query_params, resource_path, seq_le,
    sort_by_key, spec_authorization, string_to_sign,
};
use crate::text::{is_ws, trim_ws, trim_ws_end, trim_ws_start};

verus! {

broadcast use {vstd::multiset::group_multiset_axioms, vstd::seq_lib::group_to_multiset_ensures};

/// The entries are in the order of their keys.
pub open spec fn keys_sorted(s: Seq<(Seq<char>, Seq<char>)>) -> bool {
    forall|i: int, j: int| 0 <= i < j < s.len() ==> seq_le(#[trigger] s[i].0, #[trigger] s[j].0)
}

/// No two entries share a key.
pub open spec fn keys_distinct(s: Seq<(Seq<char>, Seq<char>)>) -> bool {
    forall|i: int, j: int| 0 <= i < s.len() && 0 <= j < s.len() && i != j ==> #[trigger] s[i].0 != #[trigger] s[j].0
}

proof fn lemma_seq_le_refl(a: Seq<char>)
    ensures
        seq_le(a, a),
    decreases a.len(),
{
    if a.len() > 0 {
        lemma_seq_le_refl(a.drop_first());
    }
}

proof fn lemma_seq_le_total(a: Seq<char>, b: Seq<char>)
    ensures
        seq_le(a, b) || seq_le(b, a),
    decreases a.len(),
{
    if a.len() > 0 && b.len() > 0 && a[0] == b[0] {
        lemma_seq_le_total(a.drop_first(), b.drop_first());
    }
}

proof fn lemma_seq_le_antisym(a: Seq<char>, b: Seq<char>)
    requires
        seq_le(a, b),
        seq_le(b, a),
    ensures
        a == b,
    decreases a.len(),
{
    if a.len() > 0 && b.len() > 0 {
        lemma_seq_le_antisym(a.drop_first(), b.drop_first());
        assert forall|i: int| 0 <= i < a.len() implies a[i] == b[i] by {
            if i > 0 {
                assert(a[i] == a.drop_first()[i - 1]);
                assert(b[i] == b.drop_first()[i - 1]);
            }
        }
    }
    assert(a =~= b);
}

proof fn lemma_seq_le_trans(a: Seq<char>, b: Seq<char>, c: Seq<char>)
    requires
        seq_le(a, b),
        seq_le(b, c),
    ensures
        seq_le(a, c),
    decreases a.len(),
{
    if a.len() > 0 && b.len() > 0 && c.len() > 0 && a[0] == b[0] && b[0] == c[0] {
        lemma_seq_le_trans(a.drop_first(), b.drop_first(), c.drop_first());
    }
}

/// Where a sorted sequence takes a new entry: after every key not greater,
/// before every greater one.
proof fn lemma_insert_pos_split(r: Seq<(Seq<char>, Seq<char>)>, x: (Seq<char>, Seq<char>))
    requires
        keys_sorted(r),
    ensures
        0 <= insert_pos(r, x) <= r.len(),
        forall|k: int| 0 <= k < insert_pos(r, x) ==> seq_le(#[trigger] r[k].0, x.0),
        forall|k: int| insert_pos(r, x) <= k < r.len() ==> seq_le(x.0, #[trigger] r[k].0),
    decreases r.len(),
{
    if r.len() == 0 {
    } else if seq_le(r.last().0, x.0) {
        assert forall|k: int| 0 <= k < insert_pos(r, x) implies seq_le(#[trigger] r[k].0, x.0) by {
            if k < r.len() - 1 {
                lemma_seq_le_trans(r[k].0, r.last().0, x.0);
            }
        }
    } else {
        let d = r.drop_last();
        lemma_insert_pos_split(d, x);
        assert forall|k: int| insert_pos(r, x) <= k < r.len() implies seq_le(x.0, #[trigger] r[k].0) by {
            if k < r.len() - 1 {
                assert(r[k] == d[k]);
            } else {
                lemma_seq_le_total(r.last().0, x.0);
            }
        }
        assert forall|k: int| 0 <= k < insert_pos(r, x) implies seq_le(#[trigger] r[k].0, x.0) by {
            assert(r[k] == d[k]);
        }
    }
}

/// Sorting by key gives entries in the order of their keys.
proof fn lemma_sort_sorted(s: Seq<(Seq<char>, Seq<char>)>)
    ensures
        keys_sorted(sort_by_key(s)),
    decreases s.len(),
{
    if s.len() > 0 {
        let r = sort_by_key(s.drop_last());
        let x = s.last();
        lemma_sort_sorted(s.drop_last());
        lemma_insert_pos_split(r, x);
        let p = insert_pos(r, x);
        let t = r.insert(p, x);
        assert(t == sort_by_key(s));
        assert forall|i: int, j: int| 0 <= i < j < t.len() implies seq_le(#[trigger] t[i].0, #[trigger] t[j].0) by {
            if j < p {
                assert(t[i] == r[i] && t[j] == r[j]);
            } else if j == p {
                assert(t[i] == r[i]);
            } else if i < p {
                assert(t[i] == r[i] && t[j] == r[j - 1]);
                lemma_seq_le_trans(r[i].0, x.0, r[j - 1].0);
            } else if i == p {
                assert(t[j] == r[j - 1]);
            } else {
                assert(t[i] == r[i - 1] && t[j] == r[j - 1]);
            }
        }
    }
}

/// Sorting by key keeps every entry, as often as it occurs.
proof fn lemma_sort_multiset(s: Seq<(Seq<char>, Seq<char>)>)
    ensures
        sort_by_key(s).to_multiset() == s.to_multiset(),
    decreases s.len(),
{
    if s.len() > 0 {
        let r = sort_by_key(s.drop_last());
        let x = s.last();
        lemma_sort_multiset(s.drop_last());
        lemma_insert_pos_bound(r, x);
        let p = insert_pos(r, x);
        let t = r.insert(p, x);
        assert(t.remove(p) =~= r);
        assert(t[p] == x);
        assert(t.to_multiset().count(x) > 0) by {
            assert(t.contains(x));
        }
        assert(t.to_multiset() =~= r.to_multiset().insert(x));
        assert(s =~= s.drop_last().push(x));
    }
}

/// Two sequences in key order, with the same entries and no key twice, are equal.
proof fn lemma_sorted_unique(a: Seq<(Seq<char>, Seq<char>)>, b: Seq<(Seq<char>, Seq<char>)>)
    requires
        keys_sorted(a),
        keys_sorted(b),
        keys_distinct(a),
        keys_distinct(b),
        a.to_multiset() == b.to_multiset(),
    ensures
        a == b,
    decreases a.len(),
{
    assert(a.len() == a.to_multiset().len());
    assert(b.len() == b.to_multiset().len());
    if a.len() == 0 {
        assert(a =~= b);
    } else {
        let n = a.len() - 1;
        let x = a.last();
        let y = b.last();
        assert(a.to_multiset().count(x) > 0) by {
            assert(a.contains(x));
        }
        assert(b.contains(x));
        let j = choose|j: int| 0 <= j < b.len() && b[j] == x;
        assert(b.to_multiset().count(y) > 0) by {
            assert(b.contains(y));
        }
        assert(a.contains(y));
        let i = choose|i: int| 0 <= i < a.len() && a[i] == y;
        if i != n {
            assert(seq_le(a[i].0, a[n].0));
            if j != n {
                assert(seq_le(b[j].0, b[n].0));
            } else {
                lemma_seq_le_refl(x.0);
            }
            lemma_seq_le_antisym(x.0, y.0);
            assert(false);
        }
        assert(x == y);
        assert(a.remove(n) =~= a.drop_last());
        assert(b.remove(n) =~= b.drop_last());
        assert(a.drop_last().to_multiset() == a.to_multiset().remove(x));
        assert(b.drop_last().to_multiset() == b.to_multiset().remove(y));
        lemma_sorted_unique(a.drop_last(), b.drop_last());
        assert(a =~= b) by {
            assert forall|k: int| 0 <= k < a.len() implies a[k] == b[k] by {
                if k < n {
                    assert(a[k] == a.drop_last()[k]);
                    assert(b[k] == b.drop_last()[k]);
                }
            }
        }
    }
}

/// Whether a header is an `x-ms-` header.
pub open spec fn is_ms_header(h: (Seq<char>, Seq<char>)) -> bool {
    has_prefix(name_lower(h.0), "x-ms-"@)
}

/// An `x-ms-` header as it is signed.
pub open spec fn signed_header(h: (Seq<char>, Seq<char>)) -> (Seq<char>, Seq<char>) {
    (name_lower(h.0), trim_ws(h.1))
}

proof fn lemma_ms_headers_remove(s: Seq<(Seq<char>, Seq<char>)>, i: int)
    requires
        0 <= i < s.len(),
    ensures
        ms_headers(s).to_multiset() == (if is_ms_header(s[i]) {
            ms_headers(s.remove(i)).to_multiset().insert(signed_header(s[i]))
        } else {
            ms_headers(s.remove(i)).to_multiset()
        }),
    decreases s.len(),
{
    let d = s.drop_last();
    if i == s.len() - 1 {
        assert(s.remove(i) =~= d);
    } else {
        lemma_ms_headers_remove(d, i);
        assert(s.remove(i).drop_last() =~= d.remove(i));
        assert(s.remove(i).last() == s.last());
        assert(d[i] == s[i]);
        assert(ms_headers(s).to_multiset() =~= (if is_ms_header(s[i]) {
            ms_headers(s.remove(i)).to_multiset().insert(signed_header(s[i]))
        } else {
            ms_headers(s.remove(i)).to_multiset()
        }));
    }
}

/// Headers given in another order keep the same `x-ms-` headers, in another order.
proof fn lemma_ms_headers_permuted(h1: Seq<(Seq<char>, Seq<char>)>, h2: Seq<(Seq<char>, Seq<char>)>)
    requires
        h1.to_multiset() == h2.to_multiset(),
    ensures
        ms_headers(h1).to_multiset() == ms_headers(h2).to_multiset(),
    decreases h1.len(),
{
    assert(h1.len() == h1.to_multiset().len());
    assert(h2.len() == h2.to_multiset().len());
    if h1.len() == 0 {
        assert(h2 =~= h1);
    } else {
        let x = h1.last();
        let d = h1.drop_last();
        assert(h1 =~= d.push(x));
        assert(h1.to_multiset().count(x) > 0) by {
            assert(h1.contains(x));
        }
        assert(h2.contains(x));
        let j = choose|j: int| 0 <= j < h2.len() && h2[j] == x;
        assert(h2.remove(j).to_multiset() =~= d.to_multiset());
        lemma_ms_headers_permuted(d, h2.remove(j));
        lemma_ms_headers_remove(h2, j);
    }
}

/// A Shared Key signature does not depend on the order of the request's
/// headers, nor on the order of its query parameters, where no two `x-ms-`
/// headers share a (lowercased) name and no two query parameters share a name.
pub proof fn law_signature_ignores_order(
    verb: Seq<char>,
    content_length: Option<u64>,
    content_type: Option<Seq<char>>,
    headers1: Seq<(Seq<char>, Seq<char>)>,
    headers2: Seq<(Seq<char>, Seq<char>)>,
    account: Seq<char>,
    account_key: Seq<char>,
    container: Seq<char>,
    pq1: Seq<char>,
    pq2: Seq<char>,
)
    requires
        headers1.to_multiset() == headers2.to_multiset(),
        keys_distinct(ms_headers(headers1)),
        keys_distinct(ms_headers(headers2)),
        resource_path(pq1) == resource_path(pq2),
        query_params(pq1).to_multiset() == query_params(pq2).to_multiset(),
        keys_distinct(query_params(pq1)),
        keys_distinct(query_params(pq2)),
    ensures
        string_to_sign(verb, content_length, content_type, headers1, account, container, pq1)
            == string_to_sign(verb, content_length, content_type, headers2, account, container, pq2),
        spec_authorization(
            account,
            account_key,
            string_to_sign(verb, content_length, content_type, headers1, account, container, pq1),
        ) == spec_authorization(
            account,
            account_key,
            string_to_sign(verb, content_length, content_type, headers2, account, container, pq2),
        ),
{
    let m1 = ms_headers(headers1);
    let m2 = ms_headers(headers2);
    lemma_ms_headers_permuted(headers1, headers2);
    lemma_sort_multiset(m1);
    lemma_sort_multiset(m2);
    lemma_sort_sorted(m1);
    lemma_sort_sorted(m2);
    lemma_sort_keeps_distinct(m1);
    lemma_sort_keeps_distinct(m2);
    lemma_sorted_unique(sort_by_key(m1), sort_by_key(m2));
    let q1 = query_params(pq1);
    let q2 = query_params(pq2);
    lemma_sort_multiset(q1);
    lemma_sort_multiset(q2);
    lemma_sort_sorted(q1);
    lemma_sort_sorted(q2);
    lemma_sort_keeps_distinct(q1);
    lemma_sort_keeps_distinct(q2);
    lemma_sorted_unique(sort_by_key(q1), sort_by_key(q2));
}

/// Sorting by key leaves no key twice where there was none.
proof fn lemma_sort_keeps_distinct(s: Seq<(Seq<char>, Seq<char>)>)
    requires
        keys_distinct(s),
    ensures
        keys_distinct(sort_by_key(s)),
    decreases s.len(),
{
    if s.len() > 0 {
        let d = s.drop_last();
        let x = s.last();
        assert(keys_distinct(d)) by {
            assert forall|i: int, j: int| 0 <= i < d.len() && 0 <= j < d.len() && i != j implies #[trigger] d[i].0 != #[trigger] d[j].0 by {
                assert(d[i] == s[i] && d[j] == s[j]);
            }
        }
        lemma_sort_keeps_distinct(d);
        let r = sort_by_key(d);
        lemma_sort_multiset(d);
        lemma_insert_pos_bound(r, x);
        let p = insert_pos(r, x);
        let t = r.insert(p, x);
        assert forall|k: int| 0 <= k < r.len() implies #[trigger] r[k].0 != x.0 by {
            assert(r.to_multiset().count(r[k]) > 0) by {
                assert(r.contains(r[k]));
            }
            assert(d.contains(r[k]));
            let m = choose|m: int| 0 <= m < d.len() && d[m] == r[k];
            assert(s[m] == d[m]);
            assert(s[s.len() - 1] == x);
        }
        assert forall|i: int, j: int| 0 <= i < t.len() && 0 <= j < t.len() && i != j implies #[trigger] t[i].0 != #[trigger] t[j].0 by {
            if i < p {
                assert(t[i] == r[i]);
            } else if i > p {
                assert(t[i] == r[i - 1]);
            }
            if j < p {
                assert(t[j] == r[j]);
            } else if j > p {
                assert(t[j] == r[j - 1]);
            }
        }
    }
}

/// A header whose name, lowercased, does not start with `x-ms-` does not
/// enter the signature.
pub proof fn law_signature_ignores_other_headers(
    verb: Seq<char>,
    content_length: Option<u64>,
    content_type: Option<Seq<char>>,
    headers: Seq<(Seq<char>, Seq<char>)>,
    extra: (Seq<char>, Seq<char>),
    account: Seq<char>,
    container: Seq<char>,
    pq: Seq<char>,
)
    requires
        !is_ms_header(extra),
    ensures
        string_to_sign(verb, content_length, content_type, headers.push(extra), account, container, pq)
            == string_to_sign(verb, content_length, content_type, headers, account, container, pq),
{
    assert(headers.push(extra).drop_last() =~= headers);
}


/// Every character is white space.
pub open spec fn all_ws(w: Seq<char>) -> bool {
    forall|k: int| 0 <= k < w.len() ==> is_ws(#[trigger] w[k])
}

proof fn lemma_start_skips_padding(w: Seq<char>, s: Seq<char>)
    requires
        all_ws(w),
    ensures
        trim_ws_start(w + s) == trim_ws_start(s),
    decreases w.len(),
{
    if w.len() == 0 {
        assert(w + s =~= s);
    } else {
        assert((w + s)[0] == w[0]);
        assert((w + s).drop_first() =~= w.drop_first() + s);
        lemma_start_skips_padding(w.drop_first(), s);
    }
}

proof fn lemma_end_skips_padding(s: Seq<char>, w: Seq<char>)
    requires
        all_ws(w),
    ensures
        trim_ws_end(s + w) == trim_ws_end(s),
    decreases w.len(),
{
    if w.len() == 0 {
        assert(s + w =~= s);
    } else {
        assert((s + w).last() == w.last());
        assert((s + w).drop_last() =~= s + w.drop_last());
        lemma_end_skips_padding(s, w.drop_last());
    }
}

proof fn lemma_start_of_padding(w: Seq<char>)
    requires
        all_ws(w),
    ensures
        trim_ws_start(w).len() == 0,
    decreases w.len(),
{
    if w.len() > 0 {
        lemma_start_of_padding(w.drop_first());
    }
}

proof fn lemma_start_before_padding(s: Seq<char>, w: Seq<char>)
    ensures
        trim_ws_start(s + w) == (if trim_ws_start(s).len() > 0 { trim_ws_start(s) + w } else { trim_ws_start(w) }),
    decreases s.len(),
{
    if s.len() == 0 {
        assert(s + w =~= w);
    } else {
        assert((s + w)[0] == s[0]);
        if is_ws(s[0]) {
            assert((s + w).drop_first() =~= s.drop_first() + w);
            lemma_start_before_padding(s.drop_first(), w);
        }
    }
}

/// `str::trim` removes white space added around a text.
proof fn lemma_trim_padding(before: Seq<char>, v: Seq<char>, after: Seq<char>)
    requires
        all_ws(before),
        all_ws(after),
    ensures
        trim_ws(before + v + after) == trim_ws(v),
{
    assert(before + v + after =~= before + (v + after));
    lemma_start_skips_padding(before, v + after);
    lemma_start_before_padding(v, after);
    if trim_ws_start(v).len() > 0 {
        lemma_end_skips_padding(trim_ws_start(v), after);
    } else {
        lemma_start_of_padding(after);
        assert(trim_ws_start(after) =~= trim_ws_start(v));
    }
}

proof fn lemma_ms_headers_update(s: Seq<(Seq<char>, Seq<char>)>, i: int, h: (Seq<char>, Seq<char>))
    requires
        0 <= i < s.len(),
        h.0 == s[i].0,
        trim_ws(h.1) == trim_ws(s[i].1),
    ensures
        ms_headers(s.update(i, h)) == ms_headers(s),
    decreases s.len(),
{
    let t = s.update(i, h);
    if i == s.len() - 1 {
        assert(t.drop_last() =~= s.drop_last());
    } else {
        assert(t.drop_last() =~= s.drop_last().update(i, h));
        lemma_ms_headers_update(s.drop_last(), i, h);
    }
}

/// White space around a header's value does not enter the signature.
pub proof fn law_signature_ignores_value_padding(
    verb: Seq<char>,
    content_length: Option<u64>,
    content_type: Option<Seq<char>>,
    headers: Seq<(Seq<char>, Seq<char>)>,
    i: int,
    before: Seq<char>,
    after: Seq<char>,
    account: Seq<char>,
    container: Seq<char>,
    pq: Seq<char>,
)
    requires
        0 <= i < headers.len(),
        all_ws(before),
        all_ws(after),
    ensures
        string_to_sign(
            verb,
            content_length,
            content_type,
            headers.update(i, (headers[i].0, before + headers[i].1 + after)),
            account,
            container,
            pq,
        ) == string_to_sign(verb, content_length, content_type, headers, account, container, pq),
{
    lemma_trim_padding(before, headers[i].1, after);
    lemma_ms_headers_update(headers, i, (headers[i].0, before + headers[i].1 + after));
}


/// Two ASCII texts equal up to ASCII case.
pub open spec fn same_ascii_name(a: Seq<char>, b: Seq<char>) -> bool {
    is_ascii_text(a) && is_ascii_text(b) && ascii_lower(a) == ascii_lower(b)
}

proof fn lemma_ms_headers_case(h1: Seq<(Seq<char>, Seq<char>)>, h2: Seq<(Seq<char>, Seq<char>)>)
    requires
        h1.len() == h2.len(),
        forall|i: int| 0 <= i < h1.len() ==> same_ascii_name(#[trigger] h1[i].0, h2[i].0) && h1[i].1 == h2[i].1,
    ensures
        ms_headers(h1) == ms_headers(h2),
    decreases h1.len(),
{
    if h1.len() > 0 {
        let n = h1.len() - 1;
        assert(same_ascii_name(h1[n].0, h2[n].0));
        let (d1, d2) = (h1.drop_last(), h2.drop_last());
        assert forall|i: int| 0 <= i < d1.len() implies same_ascii_name(#[trigger] d1[i].0, d2[i].0) && d1[i].1 == d2[i].1 by {
            assert(d1[i] == h1[i] && d2[i] == h2[i]);
            assert(same_ascii_name(h1[i].0, h2[i].0));
        }
        lemma_ms_headers_case(d1, d2);
    }
}

/// Neither the ASCII case of the header names nor that of an ASCII verb
/// enters the signature.
pub proof fn law_signature_ignores_case(
    verb1: Seq<char>,
    verb2: Seq<char>,
    content_length: Option<u64>,
    content_type: Option<Seq<char>>,
    headers1: Seq<(Seq<char>, Seq<char>)>,
    headers2: Seq<(Seq<char>, Seq<char>)>,
    account: Seq<char>,
    container: Seq<char>,
    pq: Seq<char>,
)
    requires
        is_ascii_text(verb1),
        is_ascii_text(verb2),
        ascii_upper(verb1) == ascii_upper(verb2),
        headers1.len() == headers2.len(),
        forall|i: int| 0 <= i < headers1.len() ==> same_ascii_name(#[trigger] headers1[i].0, headers2[i].0)
            && headers1[i].1 == headers2[i].1,
    ensures
        string_to_sign(verb1, content_length, content_type, headers1, account, container, pq)
            == string_to_sign(verb2, content_length, content_type, headers2, account, container, pq),
{
    lemma_ms_headers_case(headers1, headers2);
}

} // verus!
