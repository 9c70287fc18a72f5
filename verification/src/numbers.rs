//! Decimal text of unsigned integers, both ways.
use vstd::prelude::*;
use crate::text::chars_of;

verus! {

/// The character of a decimal digit.
pub open spec fn digit_char(d: int) -> char {
    if d == 0 { '0' }
    else if d == 1 { '1' }
    else if d == 2 { '2' }
    else if d == 3 { '3' }
    else if d == 4 { '4' }
    else if d == 5 { '5' }
    else if d == 6 { '6' }
    else if d == 7 { '7' }
    else if d == 8 { '8' }
    else { '9' }
}

pub open spec fn is_digit(c: char) -> bool {
    '0' <= c <= '9'
}

/// The value of a digit character.
pub open spec fn digit_value(c: char) -> int {
    c as int - 48
}

/// Decimal digits of `n`, most significant first, without leading zeros (`u64::to_string`).
pub open spec fn dec(n: nat) -> Seq<char>
    decreases n,
{
    if n < 10 {
        seq![digit_char(n as int)]
    } else {
        dec(n / 10).push(digit_char((n % 10) as int))
    }
}

pub open spec fn all_digits(s: Seq<char>) -> bool {
    forall|i: int| 0 <= i < s.len() ==> is_digit(#[trigger] s[i])
}

/// The number a string of digits denotes.
pub open spec fn value_of(s: Seq<char>) -> nat
    decreases s.len(),
{
    if s.len() == 0 {
        0
    } else {
        (value_of(s.drop_last()) * 10 + digit_value(s.last())) as nat
    }
}

/// `str::parse::<u64>`: an optional `+`, then at least one decimal digit,
/// denoting a value that fits in 64 bits.
pub open spec fn spec_parse_u64(s: Seq<char>) -> Option<u64> {
    let body = if s.len() > 0 && s[0] == '+' { s.drop_first() } else { s };
    if body.len() > 0 && all_digits(body) && value_of(body) <= u64::MAX {
        Some(value_of(body) as u64)
    } else {
        None
    }
}

fn digit_to_char(d: u64) -> (c: char)
    requires
        d < 10,
    ensures
        c == digit_char(d as int),
{
    if d == 0 { '0' }
    else if d == 1 { '1' }
    else if d == 2 { '2' }
    else if d == 3 { '3' }
    else if d == 4 { '4' }
    else if d == 5 { '5' }
    else if d == 6 { '6' }
    else if d == 7 { '7' }
    else if d == 8 { '8' }
    else { '9' }
}

fn char_to_digit(c: char) -> (d: u64)
    requires
        is_digit(c),
    ensures
        d == digit_value(c),
        d < 10,
{
    if c == '0' { 0 }
    else if c == '1' { 1 }
    else if c == '2' { 2 }
    else if c == '3' { 3 }
    else if c == '4' { 4 }
    else if c == '5' { 5 }
    else if c == '6' { 6 }
    else if c == '7' { 7 }
    else if c == '8' { 8 }
    else { 9 }
}

/// The decimal text of a number.
pub fn decimal(n: u64) -> (s: String)
    ensures
        s@ == dec(n as nat),
    decreases n,
{
    if n < 10 {
        let mut s = String::new();
        s.push(digit_to_char(n));
        proof { assert(s@ =~= seq![digit_char(n as int)]); }
        s
    } else {
        let mut s = decimal(n / 10);
        s.push(digit_to_char(n % 10));
        s
    }
}

proof fn lemma_value_grows(s: Seq<char>, k: int)
    requires
        0 <= k <= s.len(),
        all_digits(s),
    ensures
        value_of(s.take(k)) <= value_of(s),
    decreases s.len() - k,
{
    if k < s.len() {
        lemma_value_grows(s, k + 1);
        assert(s.take(k + 1).drop_last() =~= s.take(k));
        assert(is_digit(s[k]));
    } else {
        assert(s.take(k) =~= s);
    }
}

/// Reads an unsigned decimal number as `str::parse::<u64>` does.
pub fn parse_u64(s: &str) -> (r: Option<u64>)
    ensures
        r == spec_parse_u64(s@),
{
    let cs = chars_of(s);
    let n = cs.len();
    let start: usize = if n > 0 && cs[0] == '+' { 1 } else { 0 };
    let ghost body = if s@.len() > 0 && s@[0] == '+' { s@.drop_first() } else { s@ };
    assert(body =~= cs@.skip(start as int));
    if start >= n {
        return None;
    }
    let mut v: u64 = 0;
    let mut i: usize = start;
    while i < n
        invariant
            start <= i <= n == cs@.len(),
            cs@ == s@,
            body == (if s@.len() > 0 && s@[0] == '+' { s@.drop_first() } else { s@ }),
            body == cs@.skip(start as int),
            all_digits(cs@.subrange(start as int, i as int)),
            v == value_of(cs@.subrange(start as int, i as int)),
        decreases n - i,
    {
        let c = cs[i];
        assert(cs@.subrange(start as int, i as int + 1).drop_last() =~= cs@.subrange(start as int, i as int));
        assert(cs@.subrange(start as int, i as int + 1).last() == c);
        if !('0' <= c && c <= '9') {
            proof {
                assert(body[i - start] == c);
                assert(!is_digit(body[i - start]));
                assert(!all_digits(body));
                assert(spec_parse_u64(s@) is None);
            }
            return None;
        }
        let d = char_to_digit(c);
        if v > 1844674407370955161 || (v == 1844674407370955161 && d > 5) {
            proof {
                let ghost pre = cs@.subrange(start as int, i as int + 1);
                assert(value_of(pre) > u64::MAX);
                assert(value_of(pre) == v * 10 + d);
                if all_digits(body) {
                    assert(body.take(i - start + 1) =~= pre);
                    lemma_value_grows(body, i - start + 1);
                    assert(value_of(body) > u64::MAX);
                }
                assert(spec_parse_u64(s@) is None);
            }
            return None;
        }
        v = v * 10 + d;
        i = i + 1;
    }
    assert(cs@.subrange(start as int, n as int) =~= body);
    Some(v)
}

/// Reading back the decimal text of a number gives the number.
pub proof fn law_parse_reads_decimal(n: u64)
    ensures
        spec_parse_u64(dec(n as nat)) == Some(n),
{
    lemma_dec_digits(n as nat);
}

proof fn lemma_dec_digits(n: nat)
    ensures
        all_digits(dec(n)),
        value_of(dec(n)) == n,
        dec(n).len() > 0,
        dec(n)[0] != '+',
    decreases n,
{
    if n >= 10 {
        lemma_dec_digits(n / 10);
        let d = dec(n / 10);
        assert(dec(n).drop_last() =~= d);
        assert(dec(n)[0] == d[0]);
        assert forall|i: int| 0 <= i < dec(n).len() implies is_digit(#[trigger] dec(n)[i]) by {
            if i < d.len() {
                assert(dec(n)[i] == d[i]);
            }
        }
        assert(n == (n / 10) * 10 + n % 10) by (nonlinear_arith);
        assert(digit_value(digit_char((n % 10) as int)) == n % 10);
    } else {
        assert(dec(n).drop_last() =~= Seq::<char>::empty());
        assert(value_of(Seq::<char>::empty()) == 0);
        assert(digit_value(digit_char(n as int)) == n);
    }
}

} // verus!
