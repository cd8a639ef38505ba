//! Sets of strings kept as strictly increasing vectors, in the order `String`'s `Ord` gives
//! (character by character, by code point).
use vstd::prelude::*;
use crate::text::chars_of;

verus! {

/// `a` sorts strictly before `b`: at the first differing character the code point of `a` is
/// smaller, or `a` is a proper prefix of `b`.
pub open spec fn lex_lt(a: Seq<char>, b: Seq<char>) -> bool
    decreases a.len(),
{
    if a.len() == 0 {
        b.len() > 0
    } else if b.len() == 0 {
        false
    } else if a[0] != b[0] {
        a[0] < b[0]
    } else {
        lex_lt(a.drop_first(), b.drop_first())
    }
}

pub proof fn lemma_lex_irreflexive(a: Seq<char>)
    ensures
        !lex_lt(a, a),
    decreases a.len(),
{
    if a.len() > 0 {
        lemma_lex_irreflexive(a.drop_first());
    }
}

pub proof fn lemma_lex_total(a: Seq<char>, b: Seq<char>)
    ensures
        a == b || lex_lt(a, b) || lex_lt(b, a),
    decreases a.len(),
{
    if a.len() > 0 && b.len() > 0 && a[0] == b[0] {
        lemma_lex_total(a.drop_first(), b.drop_first());
        if a.drop_first() == b.drop_first() {
            assert(a =~= seq![a[0]] + a.drop_first());
            assert(b =~= seq![b[0]] + b.drop_first());
        }
    }
    if a.len() == 0 && b.len() == 0 {
        assert(a =~= b);
    }
}

pub proof fn lemma_lex_asymmetric(a: Seq<char>, b: Seq<char>)
    requires
        lex_lt(a, b),
    ensures
        !lex_lt(b, a),
    decreases a.len(),
{
    if a.len() > 0 && b.len() > 0 && a[0] == b[0] {
        lemma_lex_asymmetric(a.drop_first(), b.drop_first());
    }
}

pub proof fn lemma_lex_transitive(a: Seq<char>, b: Seq<char>, c: Seq<char>)
    requires
        lex_lt(a, b),
        lex_lt(b, c),
    ensures
        lex_lt(a, c),
    decreases a.len(),
{
    if a.len() > 0 && b.len() > 0 && c.len() > 0 && a[0] == b[0] && b[0] == c[0] {
        lemma_lex_transitive(a.drop_first(), b.drop_first(), c.drop_first());
    }
}

/// The strings of `v`, in order, as character sequences.
pub open spec fn strs(v: Seq<String>) -> Seq<Seq<char>> {
    v.map_values(|s: String| s@)
}

/// `s` is strictly increasing.
pub open spec fn strictly_sorted(s: Seq<Seq<char>>) -> bool {
    forall|i: int, j: int| 0 <= i < j < s.len() ==> lex_lt(#[trigger] s[i], #[trigger] s[j])
}

/// `a` sorts strictly before `b`.
pub fn str_less(a: &str, b: &str) -> (r: bool)
    ensures
        r == lex_lt(a@, b@),
{
    let av = chars_of(a);
    let bv = chars_of(b);
    let mut i: usize = 0;
    assert(av@.skip(0) =~= av@);
    assert(bv@.skip(0) =~= bv@);
    loop
        invariant
            i <= av@.len(),
            i <= bv@.len(),
            lex_lt(a@, b@) == lex_lt(av@.skip(i as int), bv@.skip(i as int)),
            av@ == a@,
            bv@ == b@,
        decreases av@.len() - i,
    {
        let ghost sa = av@.skip(i as int);
        let ghost sb = bv@.skip(i as int);
        if i == av.len() {
            return i < bv.len();
        }
        if i == bv.len() {
            return false;
        }
        assert(sa[0] == av@[i as int] && sb[0] == bv@[i as int]);
        if av[i] != bv[i] {
            return av[i] < bv[i];
        }
        assert(sa.drop_first() =~= av@.skip(i + 1));
        assert(sb.drop_first() =~= bv@.skip(i + 1));
        i = i + 1;
    }
}

/// Adds `x` to the strictly increasing `v` unless it is already there.
pub fn insert_sorted(v: &mut Vec<String>, x: String)
    requires
        strictly_sorted(strs(old(v)@)),
    ensures
        strictly_sorted(strs(final(v)@)),
        strs(final(v)@).to_set() == strs(old(v)@).to_set().insert(x@),
{
    let ghost s0 = strs(v@);
    let mut p: usize = 0;
    while p < v.len() && str_less(v[p].as_str(), x.as_str())
        invariant
            s0 == strs(v@),
            p <= v@.len(),
            forall|i: int| 0 <= i < p ==> lex_lt(#[trigger] s0[i], x@),
        decreases v@.len() - p,
    {
        p = p + 1;
    }
    if p < v.len() {
        proof {
            lemma_lex_total(s0[p as int], x@);
        }
        if !str_less(x.as_str(), v[p].as_str()) {
            assert(s0[p as int] == x@);
            assert(s0.to_set() =~= s0.to_set().insert(x@)) by {
                assert(s0.contains(x@));
            }
            return;
        }
    }
    let ghost xv = x@;
    v.insert(p, x);
    let ghost s1 = strs(v@);
    assert(s1 =~= s0.insert(p as int, xv));
    assert forall|j: int| p <= j < s0.len() implies lex_lt(xv, #[trigger] s0[j]) by {
        if j > p {
            lemma_lex_transitive(xv, s0[p as int], s0[j]);
        }
    }
    assert(strictly_sorted(s1)) by {
        assert forall|i: int, j: int| 0 <= i < j < s1.len() implies lex_lt(
            #[trigger] s1[i],
            #[trigger] s1[j],
        ) by {
            if i < p && j < p {
                assert(s1[i] == s0[i] && s1[j] == s0[j]);
            } else if i < p && j == p {
            } else if i < p && j > p {
                assert(s1[j] == s0[j - 1]);
            } else if i == p {
                assert(s1[j] == s0[j - 1]);
            } else {
                assert(s1[i] == s0[i - 1] && s1[j] == s0[j - 1]);
            }
        }
    }
    assert(s1.to_set() =~= s0.to_set().insert(xv)) by {
        assert forall|y: Seq<char>| s1.to_set().contains(y) <==> s0.to_set().insert(xv).contains(y) by {
            if s1.contains(y) {
                let k = choose|k: int| 0 <= k < s1.len() && s1[k] == y;
                if k < p {
                    assert(s0[k] == y);
                } else if k > p {
                    assert(s0[k - 1] == y);
                }
            }
            if s0.contains(y) {
                let k = choose|k: int| 0 <= k < s0.len() && s0[k] == y;
                if k < p {
                    assert(s1[k] == y);
                } else {
                    assert(s1[k + 1] == y);
                }
            }
            if y == xv {
                assert(s1[p as int] == y);
            }
        }
    }
}

/// Two strictly increasing sequences with the same elements are the same sequence.
pub proof fn lemma_sorted_set_unique(s: Seq<Seq<char>>, t: Seq<Seq<char>>)
    requires
        strictly_sorted(s),
        strictly_sorted(t),
        s.to_set() == t.to_set(),
    ensures
        s == t,
    decreases s.len(),
{
    if s.len() == 0 {
        if t.len() > 0 {
            assert(t.to_set().contains(t[0]));
        }
        assert(s =~= t);
    } else {
        assert(s.to_set().contains(s[0]));
        assert(t.contains(s[0]));
        let j = choose|j: int| 0 <= j < t.len() && t[j] == s[0];
        assert(t.to_set().contains(t[0]));
        assert(s.contains(t[0]));
        let k = choose|k: int| 0 <= k < s.len() && s[k] == t[0];
        if j > 0 && k > 0 {
            assert(lex_lt(t[0], t[j]));
            assert(lex_lt(s[0], s[k]));
            lemma_lex_asymmetric(s[0], s[k]);
        }
        assert(s[0] == t[0]) by {
            if j > 0 && k == 0 {
            }
            if j == 0 {
            }
        }
        let s1 = s.drop_first();
        let t1 = t.drop_first();
        assert forall|y: Seq<char>| s1.to_set().contains(y) <==> t1.to_set().contains(y) by {
            if s1.contains(y) {
                let a = choose|a: int| 0 <= a < s1.len() && s1[a] == y;
                assert(s[a + 1] == y);
                assert(lex_lt(s[0], s[a + 1]));
                assert(t.contains(y)) by {
                    assert(s.to_set().contains(y));
                }
                let b = choose|b: int| 0 <= b < t.len() && t[b] == y;
                if b == 0 {
                    lemma_lex_irreflexive(y);
                }
                assert(t1[b - 1] == y);
            }
            if t1.contains(y) {
                let a = choose|a: int| 0 <= a < t1.len() && t1[a] == y;
                assert(t[a + 1] == y);
                assert(lex_lt(t[0], t[a + 1]));
                assert(s.contains(y)) by {
                    assert(t.to_set().contains(y));
                }
                let b = choose|b: int| 0 <= b < s.len() && s[b] == y;
                if b == 0 {
                    lemma_lex_irreflexive(y);
                }
                assert(s1[b - 1] == y);
            }
        }
        assert(s1.to_set() =~= t1.to_set());
        lemma_sorted_set_unique(s1, t1);
        assert(s =~= seq![s[0]] + s1);
        assert(t =~= seq![t[0]] + t1);
    }
}

pub proof fn lemma_push_to_set(s: Seq<Seq<char>>, x: Seq<char>)
    ensures
        s.push(x).to_set() == s.to_set().insert(x),
{
    assert forall|y: Seq<char>| s.push(x).to_set().contains(y) <==> s.to_set().insert(x).contains(
        y,
    ) by {
        if s.push(x).contains(y) {
            let k = choose|k: int| 0 <= k < s.push(x).len() && s.push(x)[k] == y;
            if k < s.len() {
                assert(s[k] == y);
            }
        }
        if s.contains(y) {
            let k = choose|k: int| 0 <= k < s.len() && s[k] == y;
            assert(s.push(x)[k] == y);
        }
        if y == x {
            assert(s.push(x)[s.len() as int] == y);
        }
    }
    assert(s.push(x).to_set() =~= s.to_set().insert(x));
}

} // verus!
