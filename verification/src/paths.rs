//! Windows paths compared the way `std::path::Path` compares them: component by component.
//! A path's components are the pieces between its separators (`\` or `/`); empty pieces
//! (repeated or trailing separators) and `.` pieces do not count.
use vstd::prelude::*;
use crate::strset::{lemma_lex_irreflexive, lemma_lex_total, lemma_lex_transitive, lex_lt, str_less, strs};
use crate::text::{chars_of, str_eq, string_from_range};

verus! {

/// A path separator.
pub open spec fn is_sep(c: char) -> bool {
    c == '\\' || c == '/'
}

/// The length of the leading run of `s` that holds no separator.
pub open spec fn first_sep(s: Seq<char>) -> nat
    decreases s.len(),
{
    if s.len() == 0 {
        0
    } else if is_sep(s[0]) {
        0
    } else {
        1 + first_sep(s.drop_first())
    }
}

/// A piece between separators that names a component: not empty, and not `.`.
pub open spec fn is_component(p: Seq<char>) -> bool {
    p.len() > 0 && p != seq!['.']
}

/// The components of path `s`, in order.
pub open spec fn path_parts(s: Seq<char>) -> Seq<Seq<char>>
    decreases s.len(),
{
    if s.len() == 0 {
        seq![]
    } else {
        let k = first_sep(s);
        let rest = if k < s.len() {
            path_parts(s.skip((k + 1) as int))
        } else {
            seq![]
        };
        if is_component(s.take(k as int)) {
            seq![s.take(k as int)] + rest
        } else {
            rest
        }
    }
}

/// Component lists in path order: at the first differing component the string order decides,
/// and a proper prefix comes first.
pub open spec fn parts_lt(a: Seq<Seq<char>>, b: Seq<Seq<char>>) -> bool
    decreases a.len(),
{
    if b.len() == 0 {
        false
    } else if a.len() == 0 {
        true
    } else if a[0] != b[0] {
        lex_lt(a[0], b[0])
    } else {
        parts_lt(a.drop_first(), b.drop_first())
    }
}

/// Path `a` sorts strictly before path `b`.
pub open spec fn path_lt(a: Seq<char>, b: Seq<char>) -> bool {
    parts_lt(path_parts(a), path_parts(b))
}

/// Path `path` lies under `root` (or is it): the components of `root` begin those of `path`.
pub open spec fn path_under(path: Seq<char>, root: Seq<char>) -> bool {
    path_parts(root).is_prefix_of(path_parts(path))
}

pub proof fn lemma_parts_irreflexive(a: Seq<Seq<char>>)
    ensures
        !parts_lt(a, a),
    decreases a.len(),
{
    if a.len() > 0 {
        lemma_parts_irreflexive(a.drop_first());
    }
}

pub proof fn lemma_parts_total(a: Seq<Seq<char>>, b: Seq<Seq<char>>)
    ensures
        a == b || parts_lt(a, b) || parts_lt(b, a),
    decreases a.len(),
{
    if a.len() > 0 && b.len() > 0 {
        if a[0] == b[0] {
            lemma_parts_total(a.drop_first(), b.drop_first());
            if a.drop_first() == b.drop_first() {
                assert(a =~= seq![a[0]] + a.drop_first());
                assert(b =~= seq![b[0]] + b.drop_first());
            }
        } else {
            lemma_lex_total(a[0], b[0]);
        }
    }
    if a.len() == 0 && b.len() == 0 {
        assert(a =~= b);
    }
}

pub proof fn lemma_parts_transitive(a: Seq<Seq<char>>, b: Seq<Seq<char>>, c: Seq<Seq<char>>)
    requires
        parts_lt(a, b),
        parts_lt(b, c),
    ensures
        parts_lt(a, c),
    decreases a.len(),
{
    if a.len() > 0 {
        if a[0] == b[0] && b[0] == c[0] {
            lemma_parts_transitive(a.drop_first(), b.drop_first(), c.drop_first());
        } else if a[0] == b[0] {
        } else if b[0] == c[0] {
        } else {
            lemma_lex_transitive(a[0], b[0], c[0]);
            if a[0] == c[0] {
                lemma_lex_transitive(a[0], b[0], a[0]);
                lemma_lex_irreflexive(a[0]);
            }
        }
    }
}

pub proof fn lemma_parts_asymmetric(a: Seq<Seq<char>>, b: Seq<Seq<char>>)
    requires
        parts_lt(a, b),
    ensures
        !parts_lt(b, a),
{
    if parts_lt(b, a) {
        lemma_parts_transitive(a, b, a);
        lemma_parts_irreflexive(a);
    }
}

proof fn lemma_first_sep(s: Seq<char>, m: int)
    requires
        0 <= m <= s.len(),
        forall|j: int| 0 <= j < m ==> !is_sep(#[trigger] s[j]),
        m == s.len() || is_sep(s[m]),
    ensures
        first_sep(s) == m,
    decreases m,
{
    if m > 0 {
        assert forall|j: int| 0 <= j < m - 1 implies !is_sep(#[trigger] s.drop_first()[j]) by {
            assert(s.drop_first()[j] == s[j + 1]);
        }
        if m < s.len() {
            assert(s.drop_first()[m - 1] == s[m]);
        }
        lemma_first_sep(s.drop_first(), m - 1);
    }
}

fn char_is_sep(c: char) -> (r: bool)
    ensures
        r == is_sep(c),
{
    c == '\\' || c == '/'
}

/// The components of path `s`, in order.
pub fn path_parts_of(s: &str) -> (r: Vec<String>)
    ensures
        strs(r@) == path_parts(s@),
{
    let v = chars_of(s);
    let mut r: Vec<String> = Vec::new();
    let mut i: usize = 0;
    assert(v@.skip(0) =~= v@);
    while i < v.len()
        invariant
            v@ == s@,
            i <= v@.len(),
            strs(r@) + path_parts(v@.skip(i as int)) == path_parts(v@),
        decreases v@.len() - i,
    {
        let ghost t = v@.skip(i as int);
        let mut k: usize = i;
        while k < v.len() && !char_is_sep(v[k])
            invariant
                i <= k <= v@.len(),
                forall|j: int| i <= j < k ==> !is_sep(#[trigger] v@[j]),
            decreases v@.len() - k,
        {
            k = k + 1;
        }
        proof {
            assert forall|j: int| 0 <= j < k - i implies !is_sep(#[trigger] t[j]) by {
                assert(t[j] == v@[i + j]);
            }
            if k < v.len() {
                assert(t[k - i] == v@[k as int]);
            }
            lemma_first_sep(t, k - i);
            assert(t.take(k - i) =~= v@.subrange(i as int, k as int));
        }
        let piece = string_from_range(&v, i, k);
        let keep = k > i && !str_eq(piece.as_str(), ".");
        proof {
            reveal_strlit(".");
            assert("."@ =~= seq!['.']);
            assert(piece@.len() == k - i);
            assert(keep == is_component(piece@));
        }
        let ghost r0 = strs(r@);
        if keep {
            r.push(piece);
            assert(strs(r@) =~= r0.push(t.take(k - i)));
        }
        if k == v.len() {
            proof {
                assert(path_parts(t) == if keep { seq![t.take(k - i)] } else { seq![] });
                assert(v@.skip(v@.len() as int) =~= Seq::<char>::empty());
                if keep {
                    assert(r0 + path_parts(t) =~= strs(r@) + path_parts(v@.skip(v@.len() as int)));
                } else {
                    assert(r0 + path_parts(t) =~= strs(r@) + path_parts(v@.skip(v@.len() as int)));
                }
            }
            i = k;
        } else {
            proof {
                assert(t.skip(k - i + 1) =~= v@.skip(k + 1));
                if keep {
                    assert(r0 + path_parts(t) =~= strs(r@) + path_parts(v@.skip(k + 1)));
                } else {
                    assert(r0 + path_parts(t) =~= strs(r@) + path_parts(v@.skip(k + 1)));
                }
            }
            i = k + 1;
        }
    }
    assert(v@.skip(i as int) =~= Seq::<char>::empty());
    assert(strs(r@) + Seq::<Seq<char>>::empty() =~= strs(r@));
    r
}

/// Component list `a` sorts strictly before `b`.
pub fn parts_less(a: &Vec<String>, b: &Vec<String>) -> (r: bool)
    ensures
        r == parts_lt(strs(a@), strs(b@)),
{
    let ghost sa = strs(a@);
    let ghost sb = strs(b@);
    let mut i: usize = 0;
    assert(sa.skip(0) =~= sa);
    assert(sb.skip(0) =~= sb);
    loop
        invariant
            i <= a@.len(),
            i <= b@.len(),
            sa == strs(a@),
            sb == strs(b@),
            parts_lt(sa, sb) == parts_lt(sa.skip(i as int), sb.skip(i as int)),
        decreases a@.len() - i,
    {
        let ghost ta = sa.skip(i as int);
        let ghost tb = sb.skip(i as int);
        if i == b.len() {
            return false;
        }
        if i == a.len() {
            return true;
        }
        assert(ta[0] == a@[i as int]@ && tb[0] == b@[i as int]@);
        if !str_eq(a[i].as_str(), b[i].as_str()) {
            return str_less(a[i].as_str(), b[i].as_str());
        }
        assert(ta.drop_first() =~= sa.skip(i + 1));
        assert(tb.drop_first() =~= sb.skip(i + 1));
        i = i + 1;
    }
}

/// Path `a` sorts strictly before path `b`, component by component.
pub fn path_less(a: &str, b: &str) -> (r: bool)
    ensures
        r == path_lt(a@, b@),
{
    let pa = path_parts_of(a);
    let pb = path_parts_of(b);
    parts_less(&pa, &pb)
}

/// Whether `path` lies under `root` (or is it), component by component.
pub fn is_under(path: &str, root: &str) -> (r: bool)
    ensures
        r == path_under(path@, root@),
{
    let pp = path_parts_of(path);
    let pr = path_parts_of(root);
    if pr.len() > pp.len() {
        return false;
    }
    let mut i: usize = 0;
    while i < pr.len()
        invariant
            strs(pp@) == path_parts(path@),
            strs(pr@) == path_parts(root@),
            pr@.len() <= pp@.len(),
            i <= pr@.len(),
            forall|j: int| 0 <= j < i ==> strs(pr@)[j] == strs(pp@)[j],
        decreases pr@.len() - i,
    {
        assert(strs(pr@)[i as int] == pr@[i as int]@ && strs(pp@)[i as int] == pp@[i as int]@);
        if !str_eq(pr[i].as_str(), pp[i].as_str()) {
            assert(strs(pr@)[i as int] != strs(pp@)[i as int]);
            proof {
                let a = strs(pr@);
                let b = strs(pp@);
                assert(b.subrange(0, a.len() as int)[i as int] == b[i as int]);
                if a.is_prefix_of(b) {
                    assert(a == b.subrange(0, a.len() as int));
                    assert(a[i as int] == b.subrange(0, a.len() as int)[i as int]);
                    assert(false);
                }
            }
            return false;
        }
        i = i + 1;
    }
    assert(strs(pr@) =~= strs(pp@).take(strs(pr@).len() as int));
    true
}

} // verus!
