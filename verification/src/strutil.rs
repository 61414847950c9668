//! Dash-separated token handling for release-asset filenames.
//!
//! Asset names encode their metadata as `-`-separated tokens.  This module
//! gives the mathematical model of that encoding — splitting a character
//! sequence at dashes and joining tokens back with dashes — together with
//! verified executable counterparts and a lexicographic order on names.

use vstd::prelude::*;

verus! {

/// Index of the first `'-'` in `s`, or `s.len()` if there is none.
pub open spec fn first_dash(s: Seq<char>) -> nat
    decreases s.len(),
{
    if s.len() == 0 {
        0
    } else if s[0] == '-' {
        0
    } else {
        1 + first_dash(s.subrange(1, s.len() as int))
    }
}

pub proof fn lemma_first_dash(s: Seq<char>)
    ensures
        first_dash(s) <= s.len(),
        first_dash(s) < s.len() ==> s[first_dash(s) as int] == '-',
        forall|j: int| 0 <= j < first_dash(s) ==> s[j] != '-',
    decreases s.len(),
{
    if s.len() == 0 {
    } else if s[0] == '-' {
    } else {
        let t = s.subrange(1, s.len() as int);
        lemma_first_dash(t);
        assert forall|j: int| 0 <= j < first_dash(s) implies s[j] != '-' by {
            if j > 0 {
                assert(t[j - 1] == s[j]);
            }
        }
    }
}

/// `first_dash` is pinned down by its characteristic properties.
pub proof fn lemma_first_dash_is(s: Seq<char>, k: int)
    requires
        0 <= k <= s.len(),
        k < s.len() ==> s[k] == '-',
        forall|j: int| 0 <= j < k ==> s[j] != '-',
    ensures
        first_dash(s) == k,
{
    lemma_first_dash(s);
    let f = first_dash(s) as int;
    if f < k {
        assert(s[f] == '-');
    } else if f > k {
        assert(k < s.len());
    }
}

/// The tokens of `s`, split at every `'-'`.  Never empty; splitting the
/// empty sequence yields one empty token.
pub open spec fn split_dash(s: Seq<char>) -> Seq<Seq<char>>
    decreases s.len(),
{
    let i = first_dash(s);
    if i < s.len() {
        seq![s.subrange(0, i as int)] + split_dash(s.subrange(i as int + 1, s.len() as int))
    } else {
        seq![s]
    }
}

/// The first token is everything before the first dash.
pub proof fn lemma_split_dash_first(s: Seq<char>)
    ensures
        split_dash(s)[0] == s.subrange(0, first_dash(s) as int),
{
    lemma_first_dash(s);
    if first_dash(s) >= s.len() {
        assert(s.subrange(0, first_dash(s) as int) =~= s);
    }
}

/// A sequence without dashes is a single token.
pub proof fn lemma_split_dash_whole(s: Seq<char>)
    requires
        forall|j: int| 0 <= j < s.len() ==> s[j] != '-',
    ensures
        split_dash(s) == seq![s],
{
    lemma_first_dash_is(s, s.len() as int);
}

/// Peeling one dash-terminated token off the front of a sequence.
pub proof fn lemma_split_dash_step(a: Seq<char>, b: Seq<char>)
    requires
        forall|j: int| 0 <= j < a.len() ==> a[j] != '-',
    ensures
        split_dash(a + seq!['-'] + b) == seq![a] + split_dash(b),
{
    let s = a + seq!['-'] + b;
    assert forall|j: int| 0 <= j < a.len() implies s[j] != '-' by {
        assert(s[j] == a[j]);
    }
    lemma_first_dash_is(s, a.len() as int);
    assert(s.subrange(0, a.len() as int) =~= a);
    assert(s.subrange(a.len() as int + 1, s.len() as int) =~= b);
}

/// The tokens joined back with single dashes.
pub open spec fn join_dash(ts: Seq<Seq<char>>) -> Seq<char>
    decreases ts.len(),
{
    if ts.len() == 0 {
        Seq::empty()
    } else if ts.len() == 1 {
        ts[0]
    } else {
        ts[0] + seq!['-'] + join_dash(ts.subrange(1, ts.len() as int))
    }
}

/// Appending one more token to a join adds one dash and the token.
pub proof fn lemma_join_dash_push(ts: Seq<Seq<char>>, t: Seq<char>)
    requires
        ts.len() >= 1,
    ensures
        join_dash(ts.push(t)) == join_dash(ts) + seq!['-'] + t,
    decreases ts.len(),
{
    let p = ts.push(t);
    assert(p[0] == ts[0]);
    if ts.len() == 1 {
        assert(p.subrange(1, p.len() as int) =~= seq![t]);
        assert(join_dash(seq![t]) == t);
        assert(join_dash(p) == ts[0] + seq!['-'] + t);
        assert(join_dash(ts) == ts[0]);
    } else {
        let rest = ts.subrange(1, ts.len() as int);
        lemma_join_dash_push(rest, t);
        assert(p.subrange(1, p.len() as int) =~= rest.push(t));
        assert(join_dash(p) == ts[0] + seq!['-'] + (join_dash(rest) + seq!['-'] + t));
        assert(join_dash(ts) == ts[0] + seq!['-'] + join_dash(rest));
        assert(ts[0] + seq!['-'] + (join_dash(rest) + seq!['-'] + t) =~= (ts[0] + seq!['-']
            + join_dash(rest)) + seq!['-'] + t);
    }
}

/// Splitting undoes joining, provided no token contains a dash.
pub proof fn lemma_split_join_dash(ts: Seq<Seq<char>>)
    requires
        ts.len() >= 1,
        forall|i: int, j: int|
            0 <= i < ts.len() && 0 <= j < ts[i].len() ==> #[trigger] ts[i][j] != '-',
    ensures
        split_dash(join_dash(ts)) == ts,
    decreases ts.len(),
{
    if ts.len() == 1 {
        lemma_split_dash_whole(ts[0]);
        assert(split_dash(join_dash(ts)) =~= ts);
    } else {
        let rest = ts.subrange(1, ts.len() as int);
        lemma_split_join_dash(rest);
        lemma_split_dash_step(ts[0], join_dash(rest));
        assert(seq![ts[0]] + rest =~= ts);
    }
}

/// Lexicographic order on character sequences, by Unicode scalar value;
/// a proper prefix sorts before every extension of it.
pub open spec fn lex_le(a: Seq<char>, b: Seq<char>) -> bool
    decreases a.len(),
{
    if a.len() == 0 {
        true
    } else if b.len() == 0 {
        false
    } else if (a[0] as u32) < (b[0] as u32) {
        true
    } else if (a[0] as u32) == (b[0] as u32) {
        lex_le(a.subrange(1, a.len() as int), b.subrange(1, b.len() as int))
    } else {
        false
    }
}

pub proof fn lemma_lex_le_refl(a: Seq<char>)
    ensures
        lex_le(a, a),
    decreases a.len(),
{
    if a.len() > 0 {
        lemma_lex_le_refl(a.subrange(1, a.len() as int));
    }
}

pub proof fn lemma_lex_le_total(a: Seq<char>, b: Seq<char>)
    ensures
        lex_le(a, b) || lex_le(b, a),
    decreases a.len(),
{
    if a.len() > 0 && b.len() > 0 && (a[0] as u32) == (b[0] as u32) {
        lemma_lex_le_total(a.subrange(1, a.len() as int), b.subrange(1, b.len() as int));
    }
}

pub proof fn lemma_lex_le_trans(a: Seq<char>, b: Seq<char>, c: Seq<char>)
    requires
        lex_le(a, b),
        lex_le(b, c),
    ensures
        lex_le(a, c),
    decreases a.len(),
{
    if a.len() > 0 && b.len() > 0 && c.len() > 0 && (a[0] as u32) == (b[0] as u32) && (b[0] as u32)
        == (c[0] as u32) {
        lemma_lex_le_trans(
            a.subrange(1, a.len() as int),
            b.subrange(1, b.len() as int),
            c.subrange(1, c.len() as int),
        );
    }
}

/// Decides `lex_le` on strings.
pub fn str_le(a: &str, b: &str) -> (r: bool)
    ensures
        r == lex_le(a@, b@),
{
    let na = a.unicode_len();
    let nb = b.unicode_len();
    let mut i: usize = 0;
    proof {
        assert(a@.subrange(0, na as int) =~= a@);
        assert(b@.subrange(0, nb as int) =~= b@);
    }
    while i < na && i < nb
        invariant
            0 <= i <= na,
            0 <= i <= nb,
            na == a@.len(),
            nb == b@.len(),
            lex_le(a@, b@) == lex_le(
                a@.subrange(i as int, na as int),
                b@.subrange(i as int, nb as int),
            ),
        decreases na - i,
    {
        let ca = a.get_char(i) as u32;
        let cb = b.get_char(i) as u32;
        let ghost sa = a@.subrange(i as int, na as int);
        let ghost sb = b@.subrange(i as int, nb as int);
        if ca < cb {
            return true;
        }
        if ca > cb {
            return false;
        }
        proof {
            assert(sa.subrange(1, sa.len() as int) =~= a@.subrange(i + 1, na as int));
            assert(sb.subrange(1, sb.len() as int) =~= b@.subrange(i + 1, nb as int));
        }
        i += 1;
    }
    proof {
        if i == na {
            assert(a@.subrange(i as int, na as int).len() == 0);
        } else {
            assert(b@.subrange(i as int, nb as int).len() == 0);
            assert(a@.subrange(i as int, na as int).len() > 0);
        }
    }
    na <= nb
}

/// Character-for-character string equality.
pub fn str_eq(a: &str, b: &str) -> (r: bool)
    ensures
        r == (a@ == b@),
{
    let na = a.unicode_len();
    let nb = b.unicode_len();
    if na != nb {
        return false;
    }
    let mut i: usize = 0;
    while i < na
        invariant
            0 <= i <= na,
            na == a@.len(),
            na == b@.len(),
            forall|j: int| 0 <= j < i ==> a@[j] == b@[j],
        decreases na - i,
    {
        if a.get_char(i) != b.get_char(i) {
            return false;
        }
        i += 1;
    }
    proof {
        assert(a@ =~= b@);
    }
    true
}

/// Splits `s` at every dash, in order.
pub fn split_dashes(s: &str) -> (r: Vec<String>)
    ensures
        r.deep_view() == split_dash(s@),
        r.len() == split_dash(s@).len(),
{
    let n = s.unicode_len();
    let mut parts: Vec<String> = Vec::new();
    let mut start: usize = 0;
    let mut i: usize = 0;
    proof {
        assert(s@.subrange(0, n as int) =~= s@);
    }
    while i < n
        invariant
            0 <= start <= i <= n,
            n == s@.len(),
            split_dash(s@) == parts.deep_view() + split_dash(s@.subrange(start as int, n as int)),
            forall|j: int| start <= j < i ==> s@[j] != '-',
        decreases n - i,
    {
        let c = s.get_char(i);
        if c == '-' {
            let tok = s.substring_char(start, i);
            let ghost a = s@.subrange(start as int, i as int);
            let ghost b = s@.subrange(i + 1, n as int);
            let ghost dv = parts.deep_view();
            proof {
                lemma_split_dash_step(a, b);
                assert(s@.subrange(start as int, n as int) =~= a + seq!['-'] + b);
            }
            parts.push(String::from_str(tok));
            proof {
                assert(parts.deep_view() =~= dv.push(a));
                assert(dv.push(a) + split_dash(b) =~= dv + (seq![a] + split_dash(b)));
            }
            start = i + 1;
        }
        i += 1;
    }
    let tok = s.substring_char(start, n);
    let ghost last = s@.subrange(start as int, n as int);
    let ghost dv = parts.deep_view();
    proof {
        lemma_split_dash_whole(last);
    }
    parts.push(String::from_str(tok));
    proof {
        assert(parts.deep_view() =~= dv.push(last));
        assert(dv.push(last) =~= dv + seq![last]);
    }
    parts
}

} // verus!
