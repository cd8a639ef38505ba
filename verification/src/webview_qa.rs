//! Cross-WebView QA: a probe capture from one WebView engine ([`EngineBlob`]), the pairwise
//! [`diff`] that classifies engine-to-engine differences, and the Markdown [`render_report`].
use vstd::prelude::*;
use crate::strset::{
    insert_sorted, lemma_lex_asymmetric, lemma_lex_irreflexive, lemma_lex_total,
    lemma_lex_transitive, lemma_push_to_set, lemma_sorted_set_unique, lex_lt, str_less,
    strictly_sorted, strs,
};
use crate::text::{dec, join_seqs, join_strings, occurs_at, push_dec, push_str, str_eq};

verus! {

/// A probe capture from one WebView engine. `features` (feature -> supported) and
/// `computed_styles` (selector -> property -> computed value) are kept in strictly increasing
/// key order, one entry per key, as the maps they stand for.
#[derive(Debug, Clone)]
pub struct EngineBlob {
    pub engine: String,
    pub user_agent: String,
    pub features: Vec<(String, bool)>,
    pub computed_styles: Vec<(String, Vec<(String, String)>)>,
    pub console_errors: Vec<String>,
}

pub open spec fn feature_keys(v: Seq<(String, bool)>) -> Seq<Seq<char>> {
    v.map_values(|p: (String, bool)| p.0@)
}

pub open spec fn prop_keys(v: Seq<(String, String)>) -> Seq<Seq<char>> {
    v.map_values(|p: (String, String)| p.0@)
}

pub open spec fn selector_keys(v: Seq<(String, Vec<(String, String)>)>) -> Seq<Seq<char>> {
    v.map_values(|p: (String, Vec<(String, String)>)| p.0@)
}

/// The blob's maps are well formed: keys strictly increasing at every level.
pub open spec fn blob_wf(b: EngineBlob) -> bool {
    &&& strictly_sorted(feature_keys(b.features@))
    &&& strictly_sorted(selector_keys(b.computed_styles@))
    &&& forall|i: int|
        0 <= i < b.computed_styles@.len() ==> strictly_sorted(
            prop_keys((#[trigger] b.computed_styles@[i]).1@),
        )
}

/// The value stored under `k`, from index `i` on.
pub open spec fn feature_at(v: Seq<(String, bool)>, k: Seq<char>, i: int) -> Option<bool>
    decreases v.len() - i,
{
    if i < 0 || i >= v.len() {
        None
    } else if v[i].0@ == k {
        Some(v[i].1)
    } else {
        feature_at(v, k, i + 1)
    }
}

pub open spec fn prop_at(v: Seq<(String, String)>, k: Seq<char>, i: int) -> Option<Seq<char>>
    decreases v.len() - i,
{
    if i < 0 || i >= v.len() {
        None
    } else if v[i].0@ == k {
        Some(v[i].1@)
    } else {
        prop_at(v, k, i + 1)
    }
}

pub open spec fn selector_at(v: Seq<(String, Vec<(String, String)>)>, k: Seq<char>, i: int) -> Seq<(String, String)>
    decreases v.len() - i,
{
    if i < 0 || i >= v.len() {
        seq![]
    } else if v[i].0@ == k {
        v[i].1@
    } else {
        selector_at(v, k, i + 1)
    }
}

/// The keys of two strictly increasing key lists, merged: strictly increasing, each key once.
pub open spec fn merge_keys(x: Seq<Seq<char>>, y: Seq<Seq<char>>) -> Seq<Seq<char>>
    decreases x.len() + y.len(),
{
    if x.len() == 0 {
        y
    } else if y.len() == 0 {
        x
    } else if lex_lt(x[0], y[0]) {
        seq![x[0]] + merge_keys(x.drop_first(), y)
    } else if lex_lt(y[0], x[0]) {
        seq![y[0]] + merge_keys(x, y.drop_first())
    } else {
        seq![x[0]] + merge_keys(x.drop_first(), y.drop_first())
    }
}

/// Merges two strictly increasing key lists.
fn merge_key_lists(x: &Vec<String>, y: &Vec<String>) -> (r: Vec<String>)
    ensures
        strs(r@) == merge_keys(strs(x@), strs(y@)),
{
    let ghost xs = strs(x@);
    let ghost ys = strs(y@);
    let mut out: Vec<String> = Vec::new();
    let mut i: usize = 0;
    let mut j: usize = 0;
    assert(xs.skip(0) =~= xs);
    assert(ys.skip(0) =~= ys);
    while i < x.len() || j < y.len()
        invariant
            xs == strs(x@),
            ys == strs(y@),
            i <= x@.len(),
            j <= y@.len(),
            strs(out@) + merge_keys(xs.skip(i as int), ys.skip(j as int)) == merge_keys(xs, ys),
        decreases x@.len() + y@.len() - i - j,
    {
        let ghost before = strs(out@);
        let ghost sx = xs.skip(i as int);
        let ghost sy = ys.skip(j as int);
        if i < x.len() {
            assert(sx[0] == xs[i as int]);
            assert(sx.drop_first() =~= xs.skip(i + 1));
        }
        if j < y.len() {
            assert(sy[0] == ys[j as int]);
            assert(sy.drop_first() =~= ys.skip(j + 1));
        }
        if i == x.len() {
            out.push(y[j].clone());
            assert(strs(out@) =~= before.push(ys[j as int]));
            assert(sy =~= seq![ys[j as int]] + ys.skip(j + 1));
            assert(merge_keys(xs.skip(i + 0), ys.skip(j + 1)) == ys.skip(j + 1));
            j = j + 1;
        } else if j == y.len() {
            out.push(x[i].clone());
            assert(strs(out@) =~= before.push(xs[i as int]));
            assert(sx =~= seq![xs[i as int]] + xs.skip(i + 1));
            i = i + 1;
        } else if str_less(x[i].as_str(), y[j].as_str()) {
            out.push(x[i].clone());
            assert(strs(out@) =~= before.push(xs[i as int]));
            i = i + 1;
        } else if str_less(y[j].as_str(), x[i].as_str()) {
            out.push(y[j].clone());
            assert(strs(out@) =~= before.push(ys[j as int]));
            j = j + 1;
        } else {
            out.push(x[i].clone());
            assert(strs(out@) =~= before.push(xs[i as int]));
            i = i + 1;
            j = j + 1;
        }
    }
    assert(xs.skip(i as int) =~= Seq::<Seq<char>>::empty());
    assert(ys.skip(j as int) =~= Seq::<Seq<char>>::empty());
    assert(strs(out@) + Seq::<Seq<char>>::empty() =~= strs(out@));
    out
}

/// How severe a divergence is.
#[derive(Debug, Clone, Copy, PartialEq, Eq, Structural)]
pub enum Severity {
    High,
    Medium,
    Info,
}

pub open spec fn severity_label(s: Severity) -> Seq<char> {
    match s {
        Severity::High => "HIGH"@,
        Severity::Medium => "MEDIUM"@,
        Severity::Info => "INFO"@,
    }
}

pub open spec fn severity_rank(s: Severity) -> u8 {
    match s {
        Severity::High => 0,
        Severity::Medium => 1,
        Severity::Info => 2,
    }
}

impl Severity {
    /// `"HIGH"`, `"MEDIUM"` or `"INFO"`.
    pub fn label(self) -> (r: &'static str)
        ensures
            r@ == severity_label(self),
    {
        match self {
            Severity::High => "HIGH",
            Severity::Medium => "MEDIUM",
            Severity::Info => "INFO",
        }
    }
}

/// One classified engine-to-engine difference.
#[derive(Debug, Clone)]
pub struct Divergence {
    pub severity_rank: u8,
    pub kind: String,
    pub detail: String,
}

pub struct DivergenceView {
    pub rank: u8,
    pub kind: Seq<char>,
    pub detail: Seq<char>,
}

impl View for Divergence {
    type V = DivergenceView;

    open spec fn view(&self) -> DivergenceView {
        DivergenceView { rank: self.severity_rank, kind: self.kind@, detail: self.detail@ }
    }
}

pub open spec fn divs_view(v: Seq<Divergence>) -> Seq<DivergenceView> {
    v.map_values(|d: Divergence| d@)
}

/// A divergence of severity `sev`: its rank (0 most severe) and `[LABEL] kind`.
pub open spec fn div_of(sev: Severity, kind: Seq<char>, detail: Seq<char>) -> DivergenceView {
    DivergenceView {
        rank: severity_rank(sev),
        kind: "["@ + severity_label(sev) + "] "@ + kind,
        detail,
    }
}

fn div(sev: Severity, kind: &str, detail: String) -> (d: Divergence)
    ensures
        d@ == div_of(sev, kind@, detail@),
{
    let mut k = String::new();
    push_str(&mut k, "[");
    push_str(&mut k, sev.label());
    push_str(&mut k, "] ");
    push_str(&mut k, kind);
    let rank: u8 = match sev {
        Severity::High => 0,
        Severity::Medium => 1,
        Severity::Info => 2,
    };
    Divergence { severity_rank: rank, kind: k, detail }
}

fn push_div(out: &mut Vec<Divergence>, d: Divergence)
    ensures
        divs_view(final(out)@) == divs_view(old(out)@).push(d@),
{
    let ghost dv = d@;
    out.push(d);
    assert(divs_view(out@) =~= divs_view(old(out)@).push(dv));
}

/// How `{:?}` spells a string: quoted, with quotes, backslashes and unprintable characters
/// escaped.
pub uninterp spec fn str_debug(s: Seq<char>) -> Seq<char>;

/// std's `Debug` for `str` (`format!("{:?}", s)`). The contract names the result, a function
/// of the text alone.
#[verifier::external_body]
pub(crate) fn debug_str(s: &str) -> (r: String)
    ensures
        r@ == str_debug(s@),
{
    format!("{:?}", s)
}

pub open spec fn opt_bool_debug(o: Option<bool>) -> Seq<char> {
    match o {
        Some(true) => "Some(true)"@,
        Some(false) => "Some(false)"@,
        None => "None"@,
    }
}

pub open spec fn opt_str_debug(o: Option<Seq<char>>) -> Seq<char> {
    match o {
        Some(v) => "Some("@ + str_debug(v) + ")"@,
        None => "None"@,
    }
}

fn push_opt_bool_debug(s: &mut String, o: Option<bool>)
    ensures
        final(s)@ == old(s)@ + opt_bool_debug(o),
{
    match o {
        Some(true) => push_str(s, "Some(true)"),
        Some(false) => push_str(s, "Some(false)"),
        None => push_str(s, "None"),
    }
}

fn push_opt_str_debug(s: &mut String, o: Option<&String>)
    ensures
        final(s)@ == old(s)@ + opt_str_debug(match o {
            Some(v) => Some(v@),
            None => None,
        }),
{
    match o {
        Some(v) => {
            push_str(s, "Some(");
            let d = debug_str(v.as_str());
            push_str(s, d.as_str());
            push_str(s, ")");
        },
        None => push_str(s, "None"),
    }
}

fn feature_lookup(v: &Vec<(String, bool)>, k: &str) -> (r: Option<bool>)
    ensures
        r == feature_at(v@, k@, 0),
{
    let mut i: usize = 0;
    while i < v.len()
        invariant
            i <= v@.len(),
            feature_at(v@, k@, i as int) == feature_at(v@, k@, 0),
        decreases v@.len() - i,
    {
        if str_eq(v[i].0.as_str(), k) {
            return Some(v[i].1);
        }
        i = i + 1;
    }
    None
}

fn prop_lookup<'a>(v: &'a Vec<(String, String)>, k: &str) -> (r: Option<&'a String>)
    ensures
        match r {
            Some(s) => prop_at(v@, k@, 0) == Some(s@),
            None => prop_at(v@, k@, 0) is None,
        },
{
    let mut i: usize = 0;
    while i < v.len()
        invariant
            i <= v@.len(),
            prop_at(v@, k@, i as int) == prop_at(v@, k@, 0),
        decreases v@.len() - i,
    {
        if str_eq(v[i].0.as_str(), k) {
            return Some(&v[i].1);
        }
        i = i + 1;
    }
    None
}

fn selector_lookup<'a>(v: &'a Vec<(String, Vec<(String, String)>)>, k: &str, empty: &'a Vec<(String, String)>) -> (r: &'a Vec<(String, String)>)
    requires
        empty@.len() == 0,
    ensures
        r@ == selector_at(v@, k@, 0),
{
    let mut i: usize = 0;
    while i < v.len()
        invariant
            i <= v@.len(),
            selector_at(v@, k@, i as int) == selector_at(v@, k@, 0),
        decreases v@.len() - i,
    {
        if str_eq(v[i].0.as_str(), k) {
            return &v[i].1;
        }
        i = i + 1;
    }
    assert(empty@ =~= Seq::<(String, String)>::empty());
    empty
}

fn keys_of_features(v: &Vec<(String, bool)>) -> (r: Vec<String>)
    ensures
        strs(r@) == feature_keys(v@),
{
    let mut r: Vec<String> = Vec::new();
    let mut i: usize = 0;
    while i < v.len()
        invariant
            i <= v@.len(),
            strs(r@) == feature_keys(v@).take(i as int),
        decreases v@.len() - i,
    {
        let ghost before = strs(r@);
        r.push(v[i].0.clone());
        assert(strs(r@) =~= before.push(v@[i as int].0@));
        assert(feature_keys(v@).take(i + 1) =~= feature_keys(v@).take(i as int).push(v@[i as int].0@));
        i = i + 1;
    }
    assert(feature_keys(v@).take(v@.len() as int) =~= feature_keys(v@));
    r
}

fn keys_of_props(v: &Vec<(String, String)>) -> (r: Vec<String>)
    ensures
        strs(r@) == prop_keys(v@),
{
    let mut r: Vec<String> = Vec::new();
    let mut i: usize = 0;
    while i < v.len()
        invariant
            i <= v@.len(),
            strs(r@) == prop_keys(v@).take(i as int),
        decreases v@.len() - i,
    {
        let ghost before = strs(r@);
        r.push(v[i].0.clone());
        assert(strs(r@) =~= before.push(v@[i as int].0@));
        assert(prop_keys(v@).take(i + 1) =~= prop_keys(v@).take(i as int).push(v@[i as int].0@));
        i = i + 1;
    }
    assert(prop_keys(v@).take(v@.len() as int) =~= prop_keys(v@));
    r
}

fn keys_of_selectors(v: &Vec<(String, Vec<(String, String)>)>) -> (r: Vec<String>)
    ensures
        strs(r@) == selector_keys(v@),
{
    let mut r: Vec<String> = Vec::new();
    let mut i: usize = 0;
    while i < v.len()
        invariant
            i <= v@.len(),
            strs(r@) == selector_keys(v@).take(i as int),
        decreases v@.len() - i,
    {
        let ghost before = strs(r@);
        r.push(v[i].0.clone());
        assert(strs(r@) =~= before.push(v@[i as int].0@));
        assert(selector_keys(v@).take(i + 1) =~= selector_keys(v@).take(i as int).push(v@[i as int].0@));
        i = i + 1;
    }
    assert(selector_keys(v@).take(v@.len() as int) =~= selector_keys(v@));
    r
}

/// The feature divergences of `a` against `b` over `keys`, in key order: a feature whose
/// support differs, or that only one engine reports, is HIGH.
pub open spec fn feature_divs(a: EngineBlob, b: EngineBlob, keys: Seq<Seq<char>>) -> Seq<DivergenceView>
    decreases keys.len(),
{
    if keys.len() == 0 {
        seq![]
    } else {
        let k = keys.last();
        let av = feature_at(a.features@, k, 0);
        let bv = feature_at(b.features@, k, 0);
        feature_divs(a, b, keys.drop_last()) + if av != bv {
            seq![
                div_of(
                    Severity::High,
                    "feature"@,
                    "`"@ + k + "`: "@ + a.engine@ + "="@ + opt_bool_debug(av) + " vs "@ + b.engine@
                        + "="@ + opt_bool_debug(bv),
                ),
            ]
        } else {
            Seq::<DivergenceView>::empty()
        }
    }
}

/// The computed-style divergences of one selector over `props`, in property order: MEDIUM.
pub open spec fn prop_divs(
    a: EngineBlob,
    b: EngineBlob,
    sel: Seq<char>,
    am: Seq<(String, String)>,
    bm: Seq<(String, String)>,
    props: Seq<Seq<char>>,
) -> Seq<DivergenceView>
    decreases props.len(),
{
    if props.len() == 0 {
        seq![]
    } else {
        let p = props.last();
        let av = prop_at(am, p, 0);
        let bv = prop_at(bm, p, 0);
        prop_divs(a, b, sel, am, bm, props.drop_last()) + if av != bv {
            seq![
                div_of(
                    Severity::Medium,
                    "computed-style"@,
                    "`"@ + sel + "` {"@ + p + "}: "@ + a.engine@ + "="@ + opt_str_debug(av) + " vs "@
                        + b.engine@ + "="@ + opt_str_debug(bv),
                ),
            ]
        } else {
            Seq::<DivergenceView>::empty()
        }
    }
}

/// The divergences of one selector: every property either engine captured, compared.
pub open spec fn selector_divs(a: EngineBlob, b: EngineBlob, sel: Seq<char>) -> Seq<DivergenceView> {
    let am = selector_at(a.computed_styles@, sel, 0);
    let bm = selector_at(b.computed_styles@, sel, 0);
    prop_divs(a, b, sel, am, bm, merge_keys(prop_keys(am), prop_keys(bm)))
}

pub open spec fn style_divs(a: EngineBlob, b: EngineBlob, sels: Seq<Seq<char>>) -> Seq<DivergenceView>
    decreases sels.len(),
{
    if sels.len() == 0 {
        seq![]
    } else {
        style_divs(a, b, sels.drop_last()) + selector_divs(a, b, sels.last())
    }
}

fn feature_divergences(a: &EngineBlob, b: &EngineBlob, out: &mut Vec<Divergence>)
    ensures
        divs_view(final(out)@) == divs_view(old(out)@) + feature_divs(
            *a,
            *b,
            merge_keys(feature_keys(a.features@), feature_keys(b.features@)),
        ),
{
    let ka = keys_of_features(&a.features);
    let kb = keys_of_features(&b.features);
    let keys = merge_key_lists(&ka, &kb);
    let ghost ks = strs(keys@);
    let ghost start = divs_view(out@);
    let mut i: usize = 0;
    while i < keys.len()
        invariant
            ks == strs(keys@),
            i <= keys@.len(),
            divs_view(out@) == start + feature_divs(*a, *b, ks.take(i as int)),
        decreases keys@.len() - i,
    {
        let k = keys[i].as_str();
        assert(ks.take(i + 1).drop_last() =~= ks.take(i as int));
        assert(ks.take(i + 1).last() == k@);
        let av = feature_lookup(&a.features, k);
        let bv = feature_lookup(&b.features, k);
        if av != bv {
            let mut d = String::new();
            push_str(&mut d, "`");
            push_str(&mut d, k);
            push_str(&mut d, "`: ");
            push_str(&mut d, a.engine.as_str());
            push_str(&mut d, "=");
            push_opt_bool_debug(&mut d, av);
            push_str(&mut d, " vs ");
            push_str(&mut d, b.engine.as_str());
            push_str(&mut d, "=");
            push_opt_bool_debug(&mut d, bv);
            push_div(out, div(Severity::High, "feature", d));
        }
        i = i + 1;
    }
    assert(ks.take(keys@.len() as int) =~= ks);
}

fn selector_divergences(a: &EngineBlob, b: &EngineBlob, sel: &str, out: &mut Vec<Divergence>)
    ensures
        divs_view(final(out)@) == divs_view(old(out)@) + selector_divs(*a, *b, sel@),
{
    let empty: Vec<(String, String)> = Vec::new();
    let am = selector_lookup(&a.computed_styles, sel, &empty);
    let bm = selector_lookup(&b.computed_styles, sel, &empty);
    let ka = keys_of_props(am);
    let kb = keys_of_props(bm);
    let props = merge_key_lists(&ka, &kb);
    let ghost ps = strs(props@);
    let ghost start = divs_view(out@);
    let mut i: usize = 0;
    while i < props.len()
        invariant
            ps == strs(props@),
            i <= props@.len(),
            divs_view(out@) == start + prop_divs(*a, *b, sel@, am@, bm@, ps.take(i as int)),
        decreases props@.len() - i,
    {
        let p = props[i].as_str();
        assert(ps.take(i + 1).drop_last() =~= ps.take(i as int));
        assert(ps.take(i + 1).last() == p@);
        let av = prop_lookup(am, p);
        let bv = prop_lookup(bm, p);
        let same = match (av, bv) {
            (Some(x), Some(y)) => str_eq(x.as_str(), y.as_str()),
            (None, None) => true,
            _ => false,
        };
        if !same {
            let mut d = String::new();
            push_str(&mut d, "`");
            push_str(&mut d, sel);
            push_str(&mut d, "` {");
            push_str(&mut d, p);
            push_str(&mut d, "}: ");
            push_str(&mut d, a.engine.as_str());
            push_str(&mut d, "=");
            push_opt_str_debug(&mut d, av);
            push_str(&mut d, " vs ");
            push_str(&mut d, b.engine.as_str());
            push_str(&mut d, "=");
            push_opt_str_debug(&mut d, bv);
            push_div(out, div(Severity::Medium, "computed-style", d));
        }
        i = i + 1;
    }
    assert(ps.take(props@.len() as int) =~= ps);
}

fn style_divergences(a: &EngineBlob, b: &EngineBlob, out: &mut Vec<Divergence>)
    ensures
        divs_view(final(out)@) == divs_view(old(out)@) + style_divs(
            *a,
            *b,
            merge_keys(selector_keys(a.computed_styles@), selector_keys(b.computed_styles@)),
        ),
{
    let ka = keys_of_selectors(&a.computed_styles);
    let kb = keys_of_selectors(&b.computed_styles);
    let sels = merge_key_lists(&ka, &kb);
    let ghost ss = strs(sels@);
    let ghost start = divs_view(out@);
    let mut i: usize = 0;
    while i < sels.len()
        invariant
            ss == strs(sels@),
            i <= sels@.len(),
            divs_view(out@) == start + style_divs(*a, *b, ss.take(i as int)),
        decreases sels@.len() - i,
    {
        assert(ss.take(i + 1).drop_last() =~= ss.take(i as int));
        assert(ss.take(i + 1).last() == sels@[i as int]@);
        let ghost mid = divs_view(out@);
        selector_divergences(a, b, sels[i].as_str(), out);
        assert(divs_view(out@) =~= start + style_divs(*a, *b, ss.take(i + 1)));
        i = i + 1;
    }
    assert(ss.take(sels@.len() as int) =~= ss);
}

/// The strictly increasing sequence of the strings of `st`.
pub open spec fn sorted_of(st: Set<Seq<char>>) -> Seq<Seq<char>> {
    choose|u: Seq<Seq<char>>| strictly_sorted(u) && u.to_set() == st
}

/// The console errors one engine reports and the other does not, sorted, each once.
pub open spec fn errors_only(mine: Seq<String>, theirs: Seq<String>) -> Seq<Seq<char>> {
    sorted_of(strs(mine).to_set().difference(strs(theirs).to_set()))
}

pub open spec fn console_divs(engine: Seq<char>, errs: Seq<Seq<char>>) -> Seq<DivergenceView>
    decreases errs.len(),
{
    if errs.len() == 0 {
        seq![]
    } else {
        console_divs(engine, errs.drop_last()) + seq![
            div_of(Severity::Medium, "console-error"@, "only on "@ + engine + ": "@ + errs.last()),
        ]
    }
}

/// Every difference between the captures of two engines, in the order they are found:
/// features (HIGH), then computed styles (MEDIUM), then console errors seen on one engine only
/// (MEDIUM), then the user agent (INFO).
pub open spec fn compare_spec(a: EngineBlob, b: EngineBlob) -> Seq<DivergenceView> {
    feature_divs(a, b, merge_keys(feature_keys(a.features@), feature_keys(b.features@)))
        + style_divs(a, b, merge_keys(selector_keys(a.computed_styles@), selector_keys(b.computed_styles@)))
        + console_divs(a.engine@, errors_only(a.console_errors@, b.console_errors@))
        + console_divs(b.engine@, errors_only(b.console_errors@, a.console_errors@))
        + if a.user_agent@ != b.user_agent@ {
        seq![div_of(Severity::Info, "user-agent"@, a.engine@ + " vs "@ + b.engine@)]
    } else {
        Seq::<DivergenceView>::empty()
    }
}

/// The distinct strings of `v`, sorted.
fn sorted_unique(v: &Vec<String>) -> (r: Vec<String>)
    ensures
        strictly_sorted(strs(r@)),
        strs(r@).to_set() == strs(v@).to_set(),
{
    let ghost all = strs(v@);
    let mut r: Vec<String> = Vec::new();
    assert(strs(r@).to_set() =~= all.take(0).to_set());
    let mut i: usize = 0;
    while i < v.len()
        invariant
            all == strs(v@),
            i <= v@.len(),
            strictly_sorted(strs(r@)),
            strs(r@).to_set() == all.take(i as int).to_set(),
        decreases v@.len() - i,
    {
        assert(all.take(i + 1) =~= all.take(i as int).push(all[i as int]));
        proof {
            lemma_push_to_set(all.take(i as int), all[i as int]);
        }
        insert_sorted(&mut r, v[i].clone());
        i = i + 1;
    }
    assert(all.take(v@.len() as int) =~= all);
    r
}

fn contains_str(v: &Vec<String>, x: &str) -> (r: bool)
    ensures
        r == strs(v@).contains(x@),
{
    let mut i: usize = 0;
    while i < v.len()
        invariant
            i <= v@.len(),
            forall|k: int| 0 <= k < i ==> strs(v@)[k] != x@,
        decreases v@.len() - i,
    {
        if str_eq(v[i].as_str(), x) {
            assert(strs(v@)[i as int] == x@);
            return true;
        }
        i = i + 1;
    }
    false
}

/// The errors of `mine` that `theirs` does not have, sorted, each once.
fn errors_only_in(mine: &Vec<String>, theirs: &Vec<String>) -> (r: Vec<String>)
    ensures
        strs(r@) == errors_only(mine@, theirs@),
{
    let ms = sorted_unique(mine);
    let ghost fs = strs(ms@);
    let ghost other = strs(theirs@).to_set();
    let mut out: Vec<String> = Vec::new();
    assert(strs(out@).to_set() =~= fs.take(0).to_set().difference(other));
    let mut k: usize = 0;
    while k < ms.len()
        invariant
            fs == strs(ms@),
            strictly_sorted(fs),
            other == strs(theirs@).to_set(),
            k <= ms@.len(),
            strictly_sorted(strs(out@)),
            strs(out@).to_set() == fs.take(k as int).to_set().difference(other),
            forall|a: int| 0 <= a < strs(out@).len() ==> fs.take(k as int).contains(#[trigger] strs(out@)[a]),
        decreases ms@.len() - k,
    {
        let ghost before = strs(out@);
        assert(fs.take(k + 1) =~= fs.take(k as int).push(fs[k as int]));
        proof {
            lemma_push_to_set(fs.take(k as int), fs[k as int]);
        }
        if !contains_str(theirs, ms[k].as_str()) {
            out.push(ms[k].clone());
            proof {
                let now = strs(out@);
                assert(now =~= before.push(fs[k as int]));
                lemma_push_to_set(before, fs[k as int]);
                assert(now.to_set() =~= fs.take(k + 1).to_set().difference(other));
                assert forall|a: int, b: int| 0 <= a < b < now.len() implies lex_lt(
                    #[trigger] now[a],
                    #[trigger] now[b],
                ) by {
                    if b == now.len() - 1 {
                        let w = choose|w: int| 0 <= w < k && fs.take(k as int)[w] == before[a];
                        assert(fs[w] == now[a]);
                    }
                }
                assert forall|a: int| 0 <= a < now.len() implies fs.take(k + 1).contains(
                    #[trigger] now[a],
                ) by {
                    if a < before.len() {
                        let w = choose|w: int| 0 <= w < k && fs.take(k as int)[w] == before[a];
                        assert(fs.take(k + 1)[w] == now[a]);
                    } else {
                        assert(fs.take(k + 1)[k as int] == now[a]);
                    }
                }
            }
        } else {
            proof {
                assert(other.contains(fs[k as int]));
                assert(strs(out@).to_set() =~= fs.take(k + 1).to_set().difference(other));
                assert forall|a: int| 0 <= a < strs(out@).len() implies fs.take(k + 1).contains(
                    #[trigger] strs(out@)[a],
                ) by {
                    let w = choose|w: int| 0 <= w < k && fs.take(k as int)[w] == strs(out@)[a];
                    assert(fs.take(k + 1)[w] == strs(out@)[a]);
                }
            }
        }
        k = k + 1;
    }
    assert(fs.take(ms@.len() as int) =~= fs);
    proof {
        let target = strs(mine@).to_set().difference(other);
        assert(strs(out@).to_set() =~= target);
        let c = sorted_of(target);
        lemma_sorted_set_unique(c, strs(out@));
    }
    out
}

fn console_divergences(engine: &str, errs: &Vec<String>, out: &mut Vec<Divergence>)
    ensures
        divs_view(final(out)@) == divs_view(old(out)@) + console_divs(engine@, strs(errs@)),
{
    let ghost es = strs(errs@);
    let ghost start = divs_view(out@);
    let mut i: usize = 0;
    while i < errs.len()
        invariant
            es == strs(errs@),
            i <= errs@.len(),
            divs_view(out@) == start + console_divs(engine@, es.take(i as int)),
        decreases errs@.len() - i,
    {
        assert(es.take(i + 1).drop_last() =~= es.take(i as int));
        assert(es.take(i + 1).last() == errs@[i as int]@);
        let mut d = String::new();
        push_str(&mut d, "only on ");
        push_str(&mut d, engine);
        push_str(&mut d, ": ");
        push_str(&mut d, errs[i].as_str());
        push_div(out, div(Severity::Medium, "console-error", d));
        i = i + 1;
    }
    assert(es.take(errs@.len() as int) =~= es);
}

/// Appends every difference between the captures `a` and `b` to `out`.
fn compare_pair(a: &EngineBlob, b: &EngineBlob, out: &mut Vec<Divergence>)
    ensures
        divs_view(final(out)@) == divs_view(old(out)@) + compare_spec(*a, *b),
{
    let ghost start = divs_view(out@);
    feature_divergences(a, b, out);
    style_divergences(a, b, out);
    let only_a = errors_only_in(&a.console_errors, &b.console_errors);
    console_divergences(a.engine.as_str(), &only_a, out);
    let only_b = errors_only_in(&b.console_errors, &a.console_errors);
    console_divergences(b.engine.as_str(), &only_b, out);
    if !str_eq(a.user_agent.as_str(), b.user_agent.as_str()) {
        let mut d = String::new();
        push_str(&mut d, a.engine.as_str());
        push_str(&mut d, " vs ");
        push_str(&mut d, b.engine.as_str());
        push_div(out, div(Severity::Info, "user-agent", d));
    }
    assert(divs_view(out@) =~= start + compare_spec(*a, *b));
}

/// The divergences of blob `i` against blobs `i+1 .. j`, in that order.
pub open spec fn row_divs(blobs: Seq<EngineBlob>, i: int, j: int) -> Seq<DivergenceView>
    decreases j - i,
{
    if j <= i + 1 {
        seq![]
    } else {
        row_divs(blobs, i, j - 1) + compare_spec(blobs[i], blobs[j - 1])
    }
}

/// The divergences of every pair `(i, j)` with `i < n` and `i < j`, pair by pair.
pub open spec fn pair_divs(blobs: Seq<EngineBlob>, n: int) -> Seq<DivergenceView>
    decreases n,
{
    if n <= 0 {
        seq![]
    } else {
        pair_divs(blobs, n - 1) + row_divs(blobs, n - 1, blobs.len() as int)
    }
}

/// `x` is reported before `y`: more severe first, then by detail.
pub open spec fn reported_before(x: DivergenceView, y: DivergenceView) -> bool {
    x.rank < y.rank || (x.rank == y.rank && lex_lt(x.detail, y.detail))
}

pub open spec fn most_severe_first(s: Seq<DivergenceView>) -> bool {
    forall|i: int, j: int| 0 <= i < j < s.len() ==> !reported_before(#[trigger] s[j], #[trigger] s[i])
}

proof fn lemma_reported_before_asym(x: DivergenceView, y: DivergenceView)
    requires
        reported_before(x, y),
    ensures
        !reported_before(y, x),
{
    if x.rank == y.rank {
        lemma_lex_asymmetric(x.detail, y.detail);
    }
}

proof fn lemma_reported_before_chain(a: DivergenceView, b: DivergenceView, c: DivergenceView)
    requires
        !reported_before(b, a),
        reported_before(b, c),
    ensures
        reported_before(a, c),
{
    lemma_lex_total(a.detail, b.detail);
    if a.rank == b.rank && b.rank == c.rank && lex_lt(a.detail, b.detail) {
        lemma_lex_transitive(a.detail, b.detail, c.detail);
    }
}

fn reported_before_exec(x: &Divergence, y: &Divergence) -> (r: bool)
    ensures
        r == reported_before(x@, y@),
{
    x.severity_rank < y.severity_rank || (x.severity_rank == y.severity_rank && str_less(
        x.detail.as_str(),
        y.detail.as_str(),
    ))
}

fn insert_ranked(r: &mut Vec<Divergence>, d: Divergence)
    requires
        most_severe_first(divs_view(old(r)@)),
    ensures
        most_severe_first(divs_view(final(r)@)),
        divs_view(final(r)@).to_multiset() == divs_view(old(r)@).to_multiset().insert(d@),
{
    let ghost s0 = divs_view(r@);
    let mut p: usize = 0;
    while p < r.len() && !reported_before_exec(&d, &r[p])
        invariant
            s0 == divs_view(r@),
            p <= r@.len(),
            forall|k: int| 0 <= k < p ==> !reported_before(d@, #[trigger] s0[k]),
        decreases r@.len() - p,
    {
        p = p + 1;
    }
    let ghost a = d@;
    proof {
        assert forall|m: int| p <= m < s0.len() implies !reported_before(#[trigger] s0[m], a) by {
            assert(reported_before(a, s0[p as int]));
            if reported_before(s0[m], a) {
                lemma_reported_before_asym(s0[m], a);
                lemma_reported_before_chain(s0[m], a, s0[p as int]);
                if m == p {
                    lemma_reported_before_asym(s0[m], a);
                }
            }
        }
    }
    r.insert(p, d);
    let ghost s1 = divs_view(r@);
    assert(s1 =~= s0.insert(p as int, a));
    proof {
        vstd::seq_lib::to_multiset_insert(s0, p as int, a);
        assert forall|i: int, j: int| 0 <= i < j < s1.len() implies !reported_before(
            #[trigger] s1[j],
            #[trigger] s1[i],
        ) by {
            if j < p {
                assert(s1[i] == s0[i] && s1[j] == s0[j]);
            } else if j == p {
                assert(s1[i] == s0[i]);
            } else if i == p {
                assert(s1[j] == s0[j - 1]);
            } else if i < p {
                assert(s1[i] == s0[i] && s1[j] == s0[j - 1]);
            } else {
                assert(s1[i] == s0[i - 1] && s1[j] == s0[j - 1]);
            }
        }
    }
}

/// Orders divergences most severe first, then by detail; equal ones keep their order.
fn rank_divergences(v: Vec<Divergence>) -> (r: Vec<Divergence>)
    ensures
        most_severe_first(divs_view(r@)),
        divs_view(r@).to_multiset() == divs_view(v@).to_multiset(),
{
    let ghost all = divs_view(v@);
    let n = v.len();
    let mut rest = v;
    let mut r: Vec<Divergence> = Vec::new();
    let mut i: usize = 0;
    assert(divs_view(rest@) =~= all.skip(0));
    assert(all.take(0) =~= Seq::<DivergenceView>::empty());
    assert(divs_view(r@) =~= Seq::<DivergenceView>::empty());
    while rest.len() > 0
        invariant
            i <= all.len(),
            all.len() == n,
            divs_view(rest@) == all.skip(i as int),
            most_severe_first(divs_view(r@)),
            divs_view(r@).to_multiset() == all.take(i as int).to_multiset(),
        decreases rest@.len(),
    {
        let ghost rv = rest@;
        assert(divs_view(rv).len() == rv.len());
        assert(i < all.len());
        let d = rest.remove(0);
        assert(divs_view(rv)[0] == d@);
        assert(all.skip(i as int)[0] == all[i as int]);
        assert(d@ == all[i as int]);
        assert(rest@ == rv.remove(0));
        assert(divs_view(rest@) =~= divs_view(rv).drop_first());
        assert(all.skip(i as int).drop_first() =~= all.skip(i + 1));
        assert(all.take(i + 1) =~= all.take(i as int).push(d@));
        proof {
            vstd::seq_lib::to_multiset_build(all.take(i as int), d@);
        }
        insert_ranked(&mut r, d);
        i = i + 1;
    }
    assert(all.take(i as int) =~= all);
    r
}

/// Diffs every pair of engine captures and lists the divergences most severe first (then by
/// detail; equal ones keep the order they were found in).
pub fn diff(blobs: &[EngineBlob]) -> (r: Vec<Divergence>)
    requires
        forall|i: int| 0 <= i < blobs@.len() ==> blob_wf(#[trigger] blobs@[i]),
    ensures
        most_severe_first(divs_view(r@)),
        divs_view(r@).to_multiset() == pair_divs(blobs@, blobs@.len() as int).to_multiset(),
{
    let ghost bs = blobs@;
    let n = blobs.len();
    let mut out: Vec<Divergence> = Vec::new();
    assert(divs_view(out@) =~= pair_divs(bs, 0));
    let mut i: usize = 0;
    while i < n
        invariant
            bs == blobs@,
            n == bs.len(),
            i <= n,
            divs_view(out@) == pair_divs(bs, i as int),
        decreases n - i,
    {
        let mut j: usize = i + 1;
        assert(pair_divs(bs, i as int) + row_divs(bs, i as int, j as int) =~= pair_divs(bs, i as int));
        while j < n
            invariant
                bs == blobs@,
                n == bs.len(),
                i < n,
                i + 1 <= j <= n,
                divs_view(out@) == pair_divs(bs, i as int) + row_divs(bs, i as int, j as int),
            decreases n - j,
        {
            compare_pair(&blobs[i], &blobs[j], &mut out);
            assert(divs_view(out@) =~= pair_divs(bs, i as int) + row_divs(bs, i as int, j + 1));
            j = j + 1;
        }
        assert(pair_divs(bs, i + 1) == pair_divs(bs, i as int) + row_divs(bs, i as int, n as int));
        i = i + 1;
    }
    rank_divergences(out)
}

pub open spec fn engine_names(blobs: Seq<EngineBlob>) -> Seq<Seq<char>> {
    blobs.map_values(|b: EngineBlob| b.engine@)
}

pub open spec fn div_lines(ds: Seq<DivergenceView>) -> Seq<char>
    decreases ds.len(),
{
    if ds.len() == 0 {
        seq![]
    } else {
        div_lines(ds.drop_last()) + "- "@ + ds.last().kind + " — "@ + ds.last().detail + "\n"@
    }
}

/// The divergence report: which engines were exercised (and a warning when fewer than two
/// were, so a single-engine run is never mistaken for cross-engine confidence), then the
/// divergences or a statement that there are none.
pub open spec fn report_of(blobs: Seq<EngineBlob>, ds: Seq<DivergenceView>) -> Seq<char> {
    let engines = engine_names(blobs);
    "# Cross-WebView Divergence Report\n\n"@ + "**Engines exercised ("@ + dec(engines.len()) + "):** "@
        + join_seqs(engines, ", "@) + "\n\n"@ + (if engines.len() < 2 {
        "_Fewer than two engines — no cross-engine comparison possible._\n\n"@
    } else {
        Seq::<char>::empty()
    }) + if ds.len() == 0 {
        "No divergences detected across the exercised engines.\n"@
    } else {
        "**"@ + dec(ds.len()) + " divergence(s):**\n\n"@ + div_lines(ds)
    }
}

/// Renders the divergence report for the engines exercised and the divergences found.
pub fn render_report(blobs: &[EngineBlob], divergences: &[Divergence]) -> (out: String)
    ensures
        out@ == report_of(blobs@, divs_view(divergences@)),
{
    let mut out = String::new();
    push_str(&mut out, "# Cross-WebView Divergence Report\n\n");
    let mut engines: Vec<String> = Vec::new();
    let mut i: usize = 0;
    while i < blobs.len()
        invariant
            i <= blobs@.len(),
            engines@.map_values(|s: String| s@) == engine_names(blobs@).take(i as int),
        decreases blobs@.len() - i,
    {
        let ghost before = engines@.map_values(|s: String| s@);
        engines.push(blobs[i].engine.clone());
        assert(engines@.map_values(|s: String| s@) =~= before.push(blobs@[i as int].engine@));
        assert(engine_names(blobs@).take(i + 1) =~= engine_names(blobs@).take(i as int).push(
            blobs@[i as int].engine@,
        ));
        i = i + 1;
    }
    assert(engine_names(blobs@).take(blobs@.len() as int) =~= engine_names(blobs@));
    push_str(&mut out, "**Engines exercised (");
    push_dec(&mut out, engines.len() as u64);
    push_str(&mut out, "):** ");
    let joined = join_strings(&engines, ", ");
    push_str(&mut out, joined.as_str());
    push_str(&mut out, "\n\n");
    if engines.len() < 2 {
        push_str(&mut out, "_Fewer than two engines — no cross-engine comparison possible._\n\n");
    }
    let ghost head = out@;
    let ghost ds = divs_view(divergences@);
    if divergences.len() == 0 {
        push_str(&mut out, "No divergences detected across the exercised engines.\n");
        assert(out@ =~= report_of(blobs@, ds));
        return out;
    }
    push_str(&mut out, "**");
    push_dec(&mut out, divergences.len() as u64);
    push_str(&mut out, " divergence(s):**\n\n");
    let ghost head2 = out@;
    let mut k: usize = 0;
    while k < divergences.len()
        invariant
            ds == divs_view(divergences@),
            k <= divergences@.len(),
            out@ == head2 + div_lines(ds.take(k as int)),
        decreases divergences@.len() - k,
    {
        push_str(&mut out, "- ");
        push_str(&mut out, divergences[k].kind.as_str());
        push_str(&mut out, " — ");
        push_str(&mut out, divergences[k].detail.as_str());
        push_str(&mut out, "\n");
        assert(ds.take(k + 1).drop_last() =~= ds.take(k as int));
        assert(ds.take(k + 1).last() == divergences@[k as int]@);
        k = k + 1;
    }
    assert(ds.take(divergences@.len() as int) =~= ds);
    assert(out@ =~= report_of(blobs@, ds));
    out
}

proof fn lemma_feature_at_found(v: Seq<(String, bool)>, k: Seq<char>, i: int, j: int)
    requires
        0 <= i <= j < v.len(),
        v[j].0@ == k,
        forall|m: int| i <= m < j ==> (#[trigger] v[m]).0@ != k,
    ensures
        feature_at(v, k, i) == Some(v[j].1),
    decreases j - i,
{
    if i < j {
        lemma_feature_at_found(v, k, i + 1, j);
    }
}

proof fn lemma_feature_at_absent(v: Seq<(String, bool)>, k: Seq<char>, i: int)
    requires
        0 <= i,
        forall|m: int| i <= m < v.len() ==> (#[trigger] v[m]).0@ != k,
    ensures
        feature_at(v, k, i) is None,
    decreases v.len() - i,
{
    if i < v.len() {
        lemma_feature_at_absent(v, k, i + 1);
    }
}

proof fn lemma_prop_at_found(v: Seq<(String, String)>, k: Seq<char>, i: int, j: int)
    requires
        0 <= i <= j < v.len(),
        v[j].0@ == k,
        forall|m: int| i <= m < j ==> (#[trigger] v[m]).0@ != k,
    ensures
        prop_at(v, k, i) == Some(v[j].1@),
    decreases j - i,
{
    if i < j {
        lemma_prop_at_found(v, k, i + 1, j);
    }
}

proof fn lemma_prop_at_absent(v: Seq<(String, String)>, k: Seq<char>, i: int)
    requires
        0 <= i,
        forall|m: int| i <= m < v.len() ==> (#[trigger] v[m]).0@ != k,
    ensures
        prop_at(v, k, i) is None,
    decreases v.len() - i,
{
    if i < v.len() {
        lemma_prop_at_absent(v, k, i + 1);
    }
}

proof fn lemma_selector_at_found(v: Seq<(String, Vec<(String, String)>)>, k: Seq<char>, i: int, j: int)
    requires
        0 <= i <= j < v.len(),
        v[j].0@ == k,
        forall|m: int| i <= m < j ==> (#[trigger] v[m]).0@ != k,
    ensures
        selector_at(v, k, i) == v[j].1@,
    decreases j - i,
{
    if i < j {
        lemma_selector_at_found(v, k, i + 1, j);
    }
}

proof fn lemma_selector_at_absent(v: Seq<(String, Vec<(String, String)>)>, k: Seq<char>, i: int)
    requires
        0 <= i,
        forall|m: int| i <= m < v.len() ==> (#[trigger] v[m]).0@ != k,
    ensures
        selector_at(v, k, i) == Seq::<(String, String)>::empty(),
    decreases v.len() - i,
{
    if i < v.len() {
        lemma_selector_at_absent(v, k, i + 1);
    }
}

/// In a strictly increasing key list, the first entry with key `k` is the only one.
proof fn lemma_unique_key(keys: Seq<Seq<char>>, j: int, m: int)
    requires
        strictly_sorted(keys),
        0 <= m < keys.len(),
        0 <= j < keys.len(),
        m != j,
    ensures
        keys[m] != keys[j],
{
    if m < j {
        lemma_lex_irreflexive(keys[j]);
    } else {
        lemma_lex_irreflexive(keys[m]);
    }
}

/// Where key `k` goes in the strictly increasing `keys`: the first position whose key is not
/// before `k`, and whether that key is `k` itself.
fn key_slot(keys: &Vec<String>, k: &str) -> (r: (usize, bool))
    requires
        strictly_sorted(strs(keys@)),
    ensures
        r.0 <= keys@.len(),
        forall|m: int| 0 <= m < r.0 ==> lex_lt(#[trigger] strs(keys@)[m], k@),
        forall|m: int| r.0 <= m < keys@.len() ==> lex_lt(k@, #[trigger] strs(keys@)[m]) || (m == r.0 && r.1),
        r.1 <==> (r.0 < keys@.len() && strs(keys@)[r.0 as int] == k@),
{
    let ghost ks = strs(keys@);
    let mut p: usize = 0;
    while p < keys.len() && str_less(keys[p].as_str(), k)
        invariant
            ks == strs(keys@),
            p <= keys@.len(),
            forall|m: int| 0 <= m < p ==> lex_lt(#[trigger] ks[m], k@),
        decreases keys@.len() - p,
    {
        p = p + 1;
    }
    let mut found = false;
    if p < keys.len() {
        proof {
            lemma_lex_total(ks[p as int], k@);
        }
        found = !str_less(k, keys[p].as_str());
    }
    proof {
        assert forall|m: int| p <= m < keys@.len() implies lex_lt(k@, #[trigger] ks[m]) || (m == p && found) by {
            if m > p {
                if found {
                    assert(ks[p as int] == k@);
                } else {
                    lemma_lex_transitive(k@, ks[p as int], ks[m]);
                }
            }
        }
        if found {
            assert(ks[p as int] == k@);
        }
        if p < keys@.len() && ks[p as int] == k@ {
            lemma_lex_irreflexive(k@);
        }
    }
    (p, found)
}

/// Records `value` under `name` in a strictly increasing property list, replacing an earlier
/// record of it.
fn set_prop_entry(v: &mut Vec<(String, String)>, name: &str, value: &str)
    requires
        strictly_sorted(prop_keys(old(v)@)),
    ensures
        strictly_sorted(prop_keys(final(v)@)),
        prop_at(final(v)@, name@, 0) == Some(value@),
        forall|k: Seq<char>| k != name@ ==> prop_at(final(v)@, k, 0) == prop_at(old(v)@, k, 0),
{
    let keys = keys_of_props(v);
    let (p, found) = key_slot(&keys, name);
    let ghost v0 = v@;
    let ghost ks = prop_keys(v0);
    assert(ks == strs(keys@));
    assert(keys@.len() == ks.len() && ks.len() == v0.len());
    if found {
        v.set(p, (name.to_string(), value.to_string()));
    } else {
        v.insert(p, (name.to_string(), value.to_string()));
    }
    let ghost v1 = v@;
    proof {
        if found {
            assert(prop_keys(v1) =~= ks);
            assert forall|m: int| 0 <= m < p implies (#[trigger] v1[m]).0@ != name@ by {
                assert(v1[m] == v0[m]);
                assert(strs(keys@)[m] == ks[m]);
                assert(lex_lt(ks[m], name@));
                lemma_lex_irreflexive(name@);
            }
            lemma_prop_at_found(v1, name@, 0, p as int);
            assert forall|k: Seq<char>| k != name@ implies prop_at(v1, k, 0) == prop_at(v0, k, 0) by {
                if exists|j: int| 0 <= j < v0.len() && v0[j].0@ == k {
                    let j = choose|j: int| 0 <= j < v0.len() && v0[j].0@ == k;
                    assert forall|m: int| 0 <= m < j implies (#[trigger] v0[m]).0@ != k by {
                        lemma_unique_key(ks, j, m);
                    }
                    assert forall|m: int| 0 <= m < j implies (#[trigger] v1[m]).0@ != k by {
                        lemma_unique_key(ks, j, m);
                    }
                    lemma_prop_at_found(v0, k, 0, j);
                    lemma_prop_at_found(v1, k, 0, j);
                } else {
                    lemma_prop_at_absent(v0, k, 0);
                    assert forall|m: int| 0 <= m < v1.len() implies (#[trigger] v1[m]).0@ != k by {
                        if m != p {
                            assert(v1[m] == v0[m]);
                        }
                    }
                    lemma_prop_at_absent(v1, k, 0);
                }
            }
        } else {
            let nk = prop_keys(v1);
            assert(nk =~= ks.insert(p as int, name@));
            assert(strictly_sorted(nk)) by {
                assert forall|i: int, j: int| 0 <= i < j < nk.len() implies lex_lt(#[trigger] nk[i], #[trigger] nk[j]) by {
                    if j < p {
                        assert(nk[i] == ks[i] && nk[j] == ks[j]);
                    } else if j == p {
                        assert(nk[i] == ks[i]);
                    } else if i == p {
                        assert(nk[j] == ks[j - 1]);
                    } else if i < p {
                        assert(nk[i] == ks[i] && nk[j] == ks[j - 1]);
                        lemma_lex_transitive(ks[i], name@, ks[j - 1]);
                    } else {
                        assert(nk[i] == ks[i - 1] && nk[j] == ks[j - 1]);
                    }
                }
            }
            assert forall|m: int| 0 <= m < p implies (#[trigger] v1[m]).0@ != name@ by {
                assert(v1[m] == v0[m]);
                assert(strs(keys@)[m] == ks[m]);
                assert(lex_lt(ks[m], name@));
                lemma_lex_irreflexive(name@);
            }
            lemma_prop_at_found(v1, name@, 0, p as int);
            assert forall|k: Seq<char>| k != name@ implies prop_at(v1, k, 0) == prop_at(v0, k, 0) by {
                if exists|j: int| 0 <= j < v0.len() && v0[j].0@ == k {
                    let j = choose|j: int| 0 <= j < v0.len() && v0[j].0@ == k;
                    assert forall|m: int| 0 <= m < j implies (#[trigger] v0[m]).0@ != k by {
                        lemma_unique_key(ks, j, m);
                    }
                    lemma_prop_at_found(v0, k, 0, j);
                    if j < p {
                        assert(v1[j] == v0[j]);
                        assert forall|m: int| 0 <= m < j implies (#[trigger] v1[m]).0@ != k by {
                            assert(v1[m] == v0[m]);
                        }
                        lemma_prop_at_found(v1, k, 0, j);
                    } else {
                        assert(v1[j + 1] == v0[j]);
                        assert forall|m: int| 0 <= m < j + 1 implies (#[trigger] v1[m]).0@ != k by {
                            if m < p {
                                assert(v1[m] == v0[m]);
                            } else if m > p {
                                assert(v1[m] == v0[m - 1]);
                                lemma_unique_key(ks, j, m - 1);
                            }
                        }
                        lemma_prop_at_found(v1, k, 0, j + 1);
                    }
                } else {
                    lemma_prop_at_absent(v0, k, 0);
                    assert forall|m: int| 0 <= m < v1.len() implies (#[trigger] v1[m]).0@ != k by {
                        if m < p {
                            assert(v1[m] == v0[m]);
                        } else if m > p {
                            assert(v1[m] == v0[m - 1]);
                        }
                    }
                    lemma_prop_at_absent(v1, k, 0);
                }
            }
        }
    }
}

impl EngineBlob {
    /// An empty capture labelled `engine`.
    pub fn new(engine: &str) -> (b: EngineBlob)
        ensures
            b.engine@ == engine@,
            b.user_agent@.len() == 0,
            b.features@.len() == 0,
            b.computed_styles@.len() == 0,
            b.console_errors@.len() == 0,
            blob_wf(b),
    {
        let b = EngineBlob {
            engine: engine.to_string(),
            user_agent: String::new(),
            features: Vec::new(),
            computed_styles: Vec::new(),
            console_errors: Vec::new(),
        };
        assert(feature_keys(b.features@) =~= Seq::<Seq<char>>::empty());
        assert(selector_keys(b.computed_styles@) =~= Seq::<Seq<char>>::empty());
        b
    }

    /// Records whether feature `name` is supported, replacing an earlier record of it.
    pub fn set_feature(&mut self, name: &str, supported: bool)
        requires
            blob_wf(*old(self)),
        ensures
            blob_wf(*final(self)),
            feature_at(final(self).features@, name@, 0) == Some(supported),
            forall|k: Seq<char>|
                k != name@ ==> feature_at(final(self).features@, k, 0) == feature_at(
                    old(self).features@,
                    k,
                    0,
                ),
            final(self).engine == old(self).engine,
            final(self).user_agent == old(self).user_agent,
            final(self).computed_styles == old(self).computed_styles,
            final(self).console_errors == old(self).console_errors,
    {
        let keys = keys_of_features(&self.features);
        let (p, found) = key_slot(&keys, name);
        let ghost v0 = self.features@;
        let ghost ks = feature_keys(v0);
        assert(ks == strs(keys@));
        assert(keys@.len() == ks.len() && ks.len() == v0.len());
        if found {
            self.features.set(p, (name.to_string(), supported));
        } else {
            self.features.insert(p, (name.to_string(), supported));
        }
        let ghost v1 = self.features@;
        proof {
            if found {
                assert(feature_keys(v1) =~= ks);
                assert forall|m: int| 0 <= m < p implies (#[trigger] v1[m]).0@ != name@ by {
                    assert(v1[m] == v0[m]);
                    assert(strs(keys@)[m] == ks[m]);
                    assert(lex_lt(ks[m], name@));
                    lemma_lex_irreflexive(name@);
                }
                lemma_feature_at_found(v1, name@, 0, p as int);
                assert forall|k: Seq<char>| k != name@ implies feature_at(v1, k, 0) == feature_at(v0, k, 0) by {
                    if exists|j: int| 0 <= j < v0.len() && v0[j].0@ == k {
                        let j = choose|j: int| 0 <= j < v0.len() && v0[j].0@ == k;
                        assert forall|m: int| 0 <= m < j implies (#[trigger] v0[m]).0@ != k by {
                            lemma_unique_key(ks, j, m);
                        }
                        assert forall|m: int| 0 <= m < j implies (#[trigger] v1[m]).0@ != k by {
                            lemma_unique_key(ks, j, m);
                        }
                        lemma_feature_at_found(v0, k, 0, j);
                        lemma_feature_at_found(v1, k, 0, j);
                    } else {
                        lemma_feature_at_absent(v0, k, 0);
                        assert forall|m: int| 0 <= m < v1.len() implies (#[trigger] v1[m]).0@ != k by {
                            if m != p {
                                assert(v1[m] == v0[m]);
                            }
                        }
                        lemma_feature_at_absent(v1, k, 0);
                    }
                }
            } else {
                let nk = feature_keys(v1);
                assert(nk =~= ks.insert(p as int, name@));
                assert(strictly_sorted(nk)) by {
                    assert forall|i: int, j: int| 0 <= i < j < nk.len() implies lex_lt(#[trigger] nk[i], #[trigger] nk[j]) by {
                        if j < p {
                            assert(nk[i] == ks[i] && nk[j] == ks[j]);
                        } else if j == p {
                            assert(nk[i] == ks[i]);
                        } else if i == p {
                            assert(nk[j] == ks[j - 1]);
                        } else if i < p {
                            assert(nk[i] == ks[i] && nk[j] == ks[j - 1]);
                            lemma_lex_transitive(ks[i], name@, ks[j - 1]);
                        } else {
                            assert(nk[i] == ks[i - 1] && nk[j] == ks[j - 1]);
                        }
                    }
                }
                assert forall|m: int| 0 <= m < p implies (#[trigger] v1[m]).0@ != name@ by {
                    assert(v1[m] == v0[m]);
                    assert(strs(keys@)[m] == ks[m]);
                    assert(lex_lt(ks[m], name@));
                    lemma_lex_irreflexive(name@);
                }
                lemma_feature_at_found(v1, name@, 0, p as int);
                assert forall|k: Seq<char>| k != name@ implies feature_at(v1, k, 0) == feature_at(v0, k, 0) by {
                    if exists|j: int| 0 <= j < v0.len() && v0[j].0@ == k {
                        let j = choose|j: int| 0 <= j < v0.len() && v0[j].0@ == k;
                        assert forall|m: int| 0 <= m < j implies (#[trigger] v0[m]).0@ != k by {
                            lemma_unique_key(ks, j, m);
                        }
                        lemma_feature_at_found(v0, k, 0, j);
                        if j < p {
                            assert(v1[j] == v0[j]);
                            assert forall|m: int| 0 <= m < j implies (#[trigger] v1[m]).0@ != k by {
                                assert(v1[m] == v0[m]);
                            }
                            lemma_feature_at_found(v1, k, 0, j);
                        } else {
                            assert(v1[j + 1] == v0[j]);
                            assert forall|m: int| 0 <= m < j + 1 implies (#[trigger] v1[m]).0@ != k by {
                                if m < p {
                                    assert(v1[m] == v0[m]);
                                } else if m > p {
                                    assert(v1[m] == v0[m - 1]);
                                    lemma_unique_key(ks, j, m - 1);
                                }
                            }
                            lemma_feature_at_found(v1, k, 0, j + 1);
                        }
                    } else {
                        lemma_feature_at_absent(v0, k, 0);
                        assert forall|m: int| 0 <= m < v1.len() implies (#[trigger] v1[m]).0@ != k by {
                            if m < p {
                                assert(v1[m] == v0[m]);
                            } else if m > p {
                                assert(v1[m] == v0[m - 1]);
                            }
                        }
                        lemma_feature_at_absent(v1, k, 0);
                    }
                }
            }
        }
    }
    /// Records the computed value of property `prop` for selector `sel`, replacing an earlier
    /// record of it.
    pub fn set_style(&mut self, sel: &str, prop: &str, value: &str)
        requires
            blob_wf(*old(self)),
        ensures
            blob_wf(*final(self)),
            prop_at(selector_at(final(self).computed_styles@, sel@, 0), prop@, 0) == Some(value@),
            forall|p: Seq<char>|
                p != prop@ ==> prop_at(selector_at(final(self).computed_styles@, sel@, 0), p, 0)
                    == prop_at(selector_at(old(self).computed_styles@, sel@, 0), p, 0),
            forall|k: Seq<char>|
                k != sel@ ==> selector_at(final(self).computed_styles@, k, 0) == selector_at(
                    old(self).computed_styles@,
                    k,
                    0,
                ),
            final(self).engine == old(self).engine,
            final(self).user_agent == old(self).user_agent,
            final(self).features == old(self).features,
            final(self).console_errors == old(self).console_errors,
    {
        let keys = keys_of_selectors(&self.computed_styles);
        let (p, found) = key_slot(&keys, sel);
        let ghost v0 = self.computed_styles@;
        let ghost ks = selector_keys(v0);
        assert(ks == strs(keys@));
        assert(keys@.len() == ks.len() && ks.len() == v0.len());
        proof {
            assert forall|m: int| 0 <= m < p implies (#[trigger] v0[m]).0@ != sel@ by {
                assert(strs(keys@)[m] == ks[m]);
                assert(lex_lt(ks[m], sel@));
                lemma_lex_irreflexive(sel@);
            }
        }
        let ghost old_inner: Seq<(String, String)> = if found { v0[p as int].1@ } else { seq![] };
        if found {
            let (s0, mut inner) = self.computed_styles.remove(p);
            assert(blob_wf(*old(self)));
            assert(strictly_sorted(prop_keys(inner@))) by {
                assert(v0[p as int].1@ == inner@);
            }
            set_prop_entry(&mut inner, prop, value);
            self.computed_styles.insert(p, (s0, inner));
        } else {
            let mut inner: Vec<(String, String)> = Vec::new();
            assert(prop_keys(inner@) =~= Seq::<Seq<char>>::empty());
            set_prop_entry(&mut inner, prop, value);
            self.computed_styles.insert(p, (sel.to_string(), inner));
        }
        let ghost v1 = self.computed_styles@;
        proof {
            let nk = selector_keys(v1);
            if found {
                assert(nk =~= ks);
                assert forall|i: int| 0 <= i < v1.len() implies strictly_sorted(prop_keys((#[trigger] v1[i]).1@)) by {
                    if i != p {
                        assert(v1[i] == v0[i]);
                    }
                }
                assert forall|m: int| 0 <= m < p implies (#[trigger] v1[m]).0@ != sel@ by {
                    assert(v1[m] == v0[m]);
                }
                lemma_selector_at_found(v1, sel@, 0, p as int);
                lemma_selector_at_found(v0, sel@, 0, p as int);
                assert forall|k: Seq<char>| k != sel@ implies selector_at(v1, k, 0) == selector_at(v0, k, 0) by {
                    if exists|j: int| 0 <= j < v0.len() && v0[j].0@ == k {
                        let j = choose|j: int| 0 <= j < v0.len() && v0[j].0@ == k;
                        assert(j != p);
                        assert forall|m: int| 0 <= m < j implies (#[trigger] v0[m]).0@ != k by {
                            lemma_unique_key(ks, j, m);
                        }
                        assert forall|m: int| 0 <= m < j implies (#[trigger] v1[m]).0@ != k by {
                            lemma_unique_key(ks, j, m);
                        }
                        assert(v1[j] == v0[j]);
                        lemma_selector_at_found(v0, k, 0, j);
                        lemma_selector_at_found(v1, k, 0, j);
                    } else {
                        lemma_selector_at_absent(v0, k, 0);
                        assert forall|m: int| 0 <= m < v1.len() implies (#[trigger] v1[m]).0@ != k by {
                            if m != p {
                                assert(v1[m] == v0[m]);
                            }
                        }
                        lemma_selector_at_absent(v1, k, 0);
                    }
                }
            } else {
                assert(nk =~= ks.insert(p as int, sel@));
                assert(strictly_sorted(nk)) by {
                    assert forall|i: int, j: int| 0 <= i < j < nk.len() implies lex_lt(#[trigger] nk[i], #[trigger] nk[j]) by {
                        if j < p {
                            assert(nk[i] == ks[i] && nk[j] == ks[j]);
                        } else if j == p {
                            assert(nk[i] == ks[i]);
                        } else if i == p {
                            assert(nk[j] == ks[j - 1]);
                        } else if i < p {
                            assert(nk[i] == ks[i] && nk[j] == ks[j - 1]);
                            lemma_lex_transitive(ks[i], sel@, ks[j - 1]);
                        } else {
                            assert(nk[i] == ks[i - 1] && nk[j] == ks[j - 1]);
                        }
                    }
                }
                assert forall|i: int| 0 <= i < v1.len() implies strictly_sorted(prop_keys((#[trigger] v1[i]).1@)) by {
                    if i < p {
                        assert(v1[i] == v0[i]);
                    } else if i > p {
                        assert(v1[i] == v0[i - 1]);
                    }
                }
                assert forall|m: int| 0 <= m < p implies (#[trigger] v1[m]).0@ != sel@ by {
                    assert(v1[m] == v0[m]);
                }
                lemma_selector_at_found(v1, sel@, 0, p as int);
                assert forall|m: int| 0 <= m < v0.len() implies (#[trigger] v0[m]).0@ != sel@ by {
                    if m >= p {
                        assert(strs(keys@)[m] == ks[m]);
                        assert(lex_lt(sel@, ks[m]));
                        lemma_lex_irreflexive(sel@);
                    }
                }
                lemma_selector_at_absent(v0, sel@, 0);
                assert forall|k: Seq<char>| k != sel@ implies selector_at(v1, k, 0) == selector_at(v0, k, 0) by {
                    if exists|j: int| 0 <= j < v0.len() && v0[j].0@ == k {
                        let j = choose|j: int| 0 <= j < v0.len() && v0[j].0@ == k;
                        assert forall|m: int| 0 <= m < j implies (#[trigger] v0[m]).0@ != k by {
                            lemma_unique_key(ks, j, m);
                        }
                        lemma_selector_at_found(v0, k, 0, j);
                        if j < p {
                            assert(v1[j] == v0[j]);
                            assert forall|m: int| 0 <= m < j implies (#[trigger] v1[m]).0@ != k by {
                                assert(v1[m] == v0[m]);
                            }
                            lemma_selector_at_found(v1, k, 0, j);
                        } else {
                            assert(v1[j + 1] == v0[j]);
                            assert forall|m: int| 0 <= m < j + 1 implies (#[trigger] v1[m]).0@ != k by {
                                if m < p {
                                    assert(v1[m] == v0[m]);
                                } else if m > p {
                                    assert(v1[m] == v0[m - 1]);
                                    lemma_unique_key(ks, j, m - 1);
                                }
                            }
                            lemma_selector_at_found(v1, k, 0, j + 1);
                        }
                    } else {
                        lemma_selector_at_absent(v0, k, 0);
                        assert forall|m: int| 0 <= m < v1.len() implies (#[trigger] v1[m]).0@ != k by {
                            if m < p {
                                assert(v1[m] == v0[m]);
                            } else if m > p {
                                assert(v1[m] == v0[m - 1]);
                            }
                        }
                        lemma_selector_at_absent(v1, k, 0);
                    }
                }
            }
        }
    }
}

proof fn lemma_same_features(a: EngineBlob, keys: Seq<Seq<char>>)
    ensures
        feature_divs(a, a, keys) == Seq::<DivergenceView>::empty(),
    decreases keys.len(),
{
    if keys.len() > 0 {
        lemma_same_features(a, keys.drop_last());
    }
}

proof fn lemma_same_props(a: EngineBlob, sel: Seq<char>, m: Seq<(String, String)>, props: Seq<Seq<char>>)
    ensures
        prop_divs(a, a, sel, m, m, props) == Seq::<DivergenceView>::empty(),
    decreases props.len(),
{
    if props.len() > 0 {
        lemma_same_props(a, sel, m, props.drop_last());
    }
}

proof fn lemma_same_styles(a: EngineBlob, sels: Seq<Seq<char>>)
    ensures
        style_divs(a, a, sels) == Seq::<DivergenceView>::empty(),
    decreases sels.len(),
{
    if sels.len() > 0 {
        lemma_same_styles(a, sels.drop_last());
        let sel = sels.last();
        let am = selector_at(a.computed_styles@, sel, 0);
        lemma_same_props(a, sel, am, merge_keys(prop_keys(am), prop_keys(am)));
    }
}

proof fn lemma_no_errors_only(x: Seq<String>)
    ensures
        errors_only(x, x) == Seq::<Seq<char>>::empty(),
{
    let st = strs(x).to_set().difference(strs(x).to_set());
    let e = Seq::<Seq<char>>::empty();
    assert(e.to_set() =~= st);
    assert(strictly_sorted(e));
    lemma_sorted_set_unique(sorted_of(st), e);
}

/// Two captures of the same page by engines that behave identically never diverge: comparing a
/// capture with itself reports nothing.
pub proof fn law_identical_captures_do_not_diverge(a: EngineBlob)
    ensures
        compare_spec(a, a) == Seq::<DivergenceView>::empty(),
        pair_divs(seq![a, a], 2) == Seq::<DivergenceView>::empty(),
{
    lemma_same_features(a, merge_keys(feature_keys(a.features@), feature_keys(a.features@)));
    lemma_same_styles(a, merge_keys(selector_keys(a.computed_styles@), selector_keys(a.computed_styles@)));
    lemma_no_errors_only(a.console_errors@);
    assert(compare_spec(a, a) =~= Seq::<DivergenceView>::empty());
    let bs = seq![a, a];
    assert(bs[0] == a && bs[1] == a && bs.len() == 2);
    assert(row_divs(bs, 0, 1) == Seq::<DivergenceView>::empty());
    assert(row_divs(bs, 0, 2) == row_divs(bs, 0, 1) + compare_spec(bs[0], bs[1]));
    assert(row_divs(bs, 0, 2) =~= Seq::<DivergenceView>::empty());
    assert(row_divs(bs, 1, 2) == Seq::<DivergenceView>::empty());
    assert(pair_divs(bs, 0) == Seq::<DivergenceView>::empty());
    assert(pair_divs(bs, 1) == pair_divs(bs, 0) + row_divs(bs, 0, 2));
    assert(pair_divs(bs, 1) =~= Seq::<DivergenceView>::empty());
    assert(pair_divs(bs, 2) == pair_divs(bs, 1) + row_divs(bs, 1, 2));
    assert(pair_divs(bs, 2) =~= Seq::<DivergenceView>::empty());
}

proof fn lemma_feature_at_key(v: Seq<(String, bool)>, k: Seq<char>, i: int)
    requires
        0 <= i,
        feature_at(v, k, i) is Some,
    ensures
        feature_keys(v).contains(k),
    decreases v.len() - i,
{
    if v[i].0@ == k {
        assert(feature_keys(v)[i] == k);
    } else {
        lemma_feature_at_key(v, k, i + 1);
    }
}

proof fn lemma_merge_keys_keeps(x: Seq<Seq<char>>, y: Seq<Seq<char>>, k: Seq<char>)
    requires
        x.contains(k) || y.contains(k),
    ensures
        merge_keys(x, y).contains(k),
    decreases x.len() + y.len(),
{
    let m = merge_keys(x, y);
    if x.len() == 0 || y.len() == 0 {
    } else if lex_lt(x[0], y[0]) && k == x[0] {
        assert(m[0] == x[0]);
    } else if lex_lt(x[0], y[0]) {
        if x.contains(k) {
            let j = choose|j: int| 0 <= j < x.len() && x[j] == k;
            assert(x.drop_first()[j - 1] == k);
        }
        lemma_merge_keys_keeps(x.drop_first(), y, k);
        let r = merge_keys(x.drop_first(), y);
        let j = choose|j: int| 0 <= j < r.len() && r[j] == k;
        assert(m[j + 1] == k);
    } else if lex_lt(y[0], x[0]) {
        if k == y[0] {
            assert(m[0] == y[0]);
        } else {
            if y.contains(k) {
                let j = choose|j: int| 0 <= j < y.len() && y[j] == k;
                assert(y.drop_first()[j - 1] == k);
            }
            lemma_merge_keys_keeps(x, y.drop_first(), k);
            let r = merge_keys(x, y.drop_first());
            let j = choose|j: int| 0 <= j < r.len() && r[j] == k;
            assert(m[j + 1] == k);
        }
    } else if k == x[0] {
        assert(m[0] == x[0]);
    } else {
        lemma_lex_total(x[0], y[0]);
        if x.contains(k) {
            let j = choose|j: int| 0 <= j < x.len() && x[j] == k;
            assert(x.drop_first()[j - 1] == k);
        }
        if y.contains(k) {
            let j = choose|j: int| 0 <= j < y.len() && y[j] == k;
            assert(y.drop_first()[j - 1] == k);
        }
        lemma_merge_keys_keeps(x.drop_first(), y.drop_first(), k);
        let r = merge_keys(x.drop_first(), y.drop_first());
        let j = choose|j: int| 0 <= j < r.len() && r[j] == k;
        assert(m[j + 1] == k);
    }
}

/// The divergence reported for feature `k` between captures `a` and `b`.
pub open spec fn feature_div(a: EngineBlob, b: EngineBlob, k: Seq<char>) -> DivergenceView {
    let av = feature_at(a.features@, k, 0);
    let bv = feature_at(b.features@, k, 0);
    div_of(
        Severity::High,
        "feature"@,
        "`"@ + k + "`: "@ + a.engine@ + "="@ + opt_bool_debug(av) + " vs "@ + b.engine@ + "="@
            + opt_bool_debug(bv),
    )
}

proof fn lemma_feature_divs_report(a: EngineBlob, b: EngineBlob, keys: Seq<Seq<char>>, k: Seq<char>)
    requires
        keys.contains(k),
        feature_at(a.features@, k, 0) != feature_at(b.features@, k, 0),
    ensures
        feature_divs(a, b, keys).contains(feature_div(a, b, k)),
    decreases keys.len(),
{
    let fd = feature_divs(a, b, keys);
    let rest = feature_divs(a, b, keys.drop_last());
    if keys.last() == k {
        assert(fd[rest.len() as int] == feature_div(a, b, k));
    } else {
        let j = choose|j: int| 0 <= j < keys.len() && keys[j] == k;
        assert(keys.drop_last()[j] == k);
        lemma_feature_divs_report(a, b, keys.drop_last(), k);
        let i = choose|i: int| 0 <= i < rest.len() && rest[i] == feature_div(a, b, k);
        assert(fd[i] == feature_div(a, b, k));
    }
}

/// A feature whose support differs between two captures (recorded differently, or recorded by
/// one engine only) is always reported, as a HIGH `feature` divergence naming both engines and
/// both values.
pub proof fn law_feature_differences_are_high(a: EngineBlob, b: EngineBlob, k: Seq<char>)
    requires
        feature_at(a.features@, k, 0) != feature_at(b.features@, k, 0),
    ensures
        compare_spec(a, b).contains(feature_div(a, b, k)),
        feature_div(a, b, k).rank == 0,
        feature_div(a, b, k).kind == "[HIGH] feature"@,
{
    let ka = feature_keys(a.features@);
    let kb = feature_keys(b.features@);
    if feature_at(a.features@, k, 0) is Some {
        lemma_feature_at_key(a.features@, k, 0);
    } else {
        lemma_feature_at_key(b.features@, k, 0);
    }
    lemma_merge_keys_keeps(ka, kb, k);
    let keys = merge_keys(ka, kb);
    lemma_feature_divs_report(a, b, keys, k);
    let fd = feature_divs(a, b, keys);
    let i = choose|i: int| 0 <= i < fd.len() && fd[i] == feature_div(a, b, k);
    let c = compare_spec(a, b);
    assert(c[i] == fd[i]);
    reveal_strlit("[");
    reveal_strlit("HIGH");
    reveal_strlit("] ");
    reveal_strlit("feature");
    reveal_strlit("[HIGH] feature");
    assert(feature_div(a, b, k).kind =~= "[HIGH] feature"@);
}

/// The two-engine runs of row `i`: engine `i` against each engine from `i + 1` up to `j`.
pub open spec fn two_engine_row(blobs: Seq<EngineBlob>, i: int, j: int) -> Seq<DivergenceView>
    decreases j - i,
{
    if j <= i + 1 {
        seq![]
    } else {
        two_engine_row(blobs, i, j - 1) + pair_divs(seq![blobs[i], blobs[j - 1]], 2)
    }
}

/// The two-engine runs of every pair `(i, j)` with `i < n` and `i < j`, pair by pair.
pub open spec fn two_engine_runs(blobs: Seq<EngineBlob>, n: int) -> Seq<DivergenceView>
    decreases n,
{
    if n <= 0 {
        seq![]
    } else {
        two_engine_runs(blobs, n - 1) + two_engine_row(blobs, n - 1, blobs.len() as int)
    }
}

/// A run on two engines reports exactly the differences of that pair.
pub proof fn law_two_engine_run(a: EngineBlob, b: EngineBlob)
    ensures
        pair_divs(seq![a, b], 2) == compare_spec(a, b),
{
    let bs = seq![a, b];
    assert(bs[0] == a && bs[1] == b && bs.len() == 2);
    assert(row_divs(bs, 0, 1) == Seq::<DivergenceView>::empty());
    assert(row_divs(bs, 0, 2) == row_divs(bs, 0, 1) + compare_spec(bs[0], bs[1]));
    assert(row_divs(bs, 0, 2) =~= compare_spec(a, b));
    assert(row_divs(bs, 1, 2) == Seq::<DivergenceView>::empty());
    assert(pair_divs(bs, 0) == Seq::<DivergenceView>::empty());
    assert(pair_divs(bs, 1) == pair_divs(bs, 0) + row_divs(bs, 0, 2));
    assert(pair_divs(bs, 1) =~= compare_spec(a, b));
    assert(pair_divs(bs, 2) == pair_divs(bs, 1) + row_divs(bs, 1, 2));
    assert(pair_divs(bs, 2) =~= compare_spec(a, b));
}

proof fn lemma_rows_are_two_engine_runs(blobs: Seq<EngineBlob>, i: int, j: int)
    requires
        0 <= i,
        j <= blobs.len(),
    ensures
        row_divs(blobs, i, j) == two_engine_row(blobs, i, j),
    decreases j - i,
{
    if j > i + 1 {
        lemma_rows_are_two_engine_runs(blobs, i, j - 1);
        law_two_engine_run(blobs[i], blobs[j - 1]);
    }
}

/// Comparing many engines reports what the two-engine runs of every pair report, pair by pair
/// (engine `i` against each later engine, for each `i` in turn); a run of fewer than two
/// engines reports nothing. `diff` returns these, most severe first.
pub proof fn law_every_pair_is_compared(blobs: Seq<EngineBlob>, n: int)
    requires
        0 <= n <= blobs.len(),
    ensures
        pair_divs(blobs, n) == two_engine_runs(blobs, n),
        blobs.len() < 2 ==> pair_divs(blobs, blobs.len() as int) == Seq::<DivergenceView>::empty(),
    decreases n,
{
    if n > 0 {
        law_every_pair_is_compared(blobs, n - 1);
        lemma_rows_are_two_engine_runs(blobs, n - 1, blobs.len() as int);
    }
    if blobs.len() == 1 {
        assert(pair_divs(blobs, 0) == Seq::<DivergenceView>::empty());
        assert(row_divs(blobs, 0, 1) == Seq::<DivergenceView>::empty());
        assert(pair_divs(blobs, 1) =~= Seq::<DivergenceView>::empty());
    }
}

/// `u` with `x` put in its place, unless it is there already.
pub open spec fn sorted_insert(u: Seq<Seq<char>>, x: Seq<char>) -> Seq<Seq<char>>
    decreases u.len(),
{
    if u.len() == 0 {
        seq![x]
    } else if lex_lt(u[0], x) {
        seq![u[0]] + sorted_insert(u.drop_first(), x)
    } else if u[0] == x {
        u
    } else {
        seq![x] + u
    }
}

proof fn lemma_sorted_insert(u: Seq<Seq<char>>, x: Seq<char>)
    requires
        strictly_sorted(u),
    ensures
        strictly_sorted(sorted_insert(u, x)),
        sorted_insert(u, x).to_set() == u.to_set().insert(x),
    decreases u.len(),
{
    let r = sorted_insert(u, x);
    if u.len() == 0 {
        assert(r.to_set() =~= u.to_set().insert(x)) by {
            assert forall|y: Seq<char>| r.to_set().contains(y) <==> u.to_set().insert(x).contains(y) by {
                if r.contains(y) {
                    let k = choose|k: int| 0 <= k < r.len() && r[k] == y;
                }
                if y == x {
                    assert(r[0] == x);
                }
            }
        }
    } else if lex_lt(u[0], x) {
        let rest = u.drop_first();
        assert(strictly_sorted(rest)) by {
            assert forall|i: int, j: int| 0 <= i < j < rest.len() implies lex_lt(#[trigger] rest[i], #[trigger] rest[j]) by {
                assert(rest[i] == u[i + 1] && rest[j] == u[j + 1]);
            }
        }
        lemma_sorted_insert(rest, x);
        let v = sorted_insert(rest, x);
        assert(r == seq![u[0]] + v);
        assert forall|j: int| 0 <= j < v.len() implies lex_lt(u[0], #[trigger] v[j]) by {
            assert(v.to_set().contains(v[j]));
            if v[j] != x {
                assert(rest.contains(v[j]));
                let k = choose|k: int| 0 <= k < rest.len() && rest[k] == v[j];
                assert(u[k + 1] == v[j]);
            }
        }
        assert forall|i: int, j: int| 0 <= i < j < r.len() implies lex_lt(#[trigger] r[i], #[trigger] r[j]) by {
            if i == 0 {
                assert(r[j] == v[j - 1]);
            } else {
                assert(r[i] == v[i - 1] && r[j] == v[j - 1]);
            }
        }
        assert forall|y: Seq<char>| r.to_set().contains(y) <==> u.to_set().insert(x).contains(y) by {
            if r.contains(y) {
                let k = choose|k: int| 0 <= k < r.len() && r[k] == y;
                if k > 0 {
                    assert(v[k - 1] == y);
                    assert(v.to_set().contains(y));
                    if y != x {
                        let m = choose|m: int| 0 <= m < rest.len() && rest[m] == y;
                        assert(u[m + 1] == y);
                    }
                } else {
                    assert(u[0] == y);
                }
            }
            if u.contains(y) {
                let k = choose|k: int| 0 <= k < u.len() && u[k] == y;
                if k == 0 {
                    assert(r[0] == y);
                } else {
                    assert(rest[k - 1] == y);
                    assert(v.to_set().contains(y));
                    let m = choose|m: int| 0 <= m < v.len() && v[m] == y;
                    assert(r[m + 1] == y);
                }
            }
            if y == x {
                assert(v.to_set().contains(x));
                let m = choose|m: int| 0 <= m < v.len() && v[m] == x;
                assert(r[m + 1] == x);
            }
        }
        assert(r.to_set() =~= u.to_set().insert(x));
    } else if u[0] == x {
        assert(u.to_set().contains(x)) by {
            assert(u[0] == x);
        }
        assert(r.to_set() =~= u.to_set().insert(x));
    } else {
        lemma_lex_total(u[0], x);
        assert forall|i: int, j: int| 0 <= i < j < r.len() implies lex_lt(#[trigger] r[i], #[trigger] r[j]) by {
            if i == 0 {
                assert(r[j] == u[j - 1]);
                if j - 1 > 0 {
                    lemma_lex_transitive(x, u[0], u[j - 1]);
                }
            } else {
                assert(r[i] == u[i - 1] && r[j] == u[j - 1]);
            }
        }
        assert forall|y: Seq<char>| r.to_set().contains(y) <==> u.to_set().insert(x).contains(y) by {
            if r.contains(y) {
                let k = choose|k: int| 0 <= k < r.len() && r[k] == y;
                if k > 0 {
                    assert(u[k - 1] == y);
                }
            }
            if u.contains(y) {
                let k = choose|k: int| 0 <= k < u.len() && u[k] == y;
                assert(r[k + 1] == y);
            }
            if y == x {
                assert(r[0] == x);
            }
        }
        assert(r.to_set() =~= u.to_set().insert(x));
    }
}

proof fn lemma_sortable(s: Seq<Seq<char>>)
    ensures
        exists|u: Seq<Seq<char>>| strictly_sorted(u) && u.to_set() == s.to_set(),
    decreases s.len(),
{
    if s.len() == 0 {
        let e = Seq::<Seq<char>>::empty();
        assert(e.to_set() =~= s.to_set());
        assert(strictly_sorted(e));
    } else {
        lemma_sortable(s.drop_last());
        let u = choose|u: Seq<Seq<char>>| strictly_sorted(u) && u.to_set() == s.drop_last().to_set();
        lemma_sorted_insert(u, s.last());
        lemma_push_to_set(s.drop_last(), s.last());
        assert(s.drop_last().push(s.last()) =~= s);
        let w = sorted_insert(u, s.last());
        assert(strictly_sorted(w) && w.to_set() == s.to_set());
    }
}

proof fn lemma_errors_only_has(mine: Seq<String>, theirs: Seq<String>, e: Seq<char>)
    requires
        strs(mine).contains(e),
        !strs(theirs).contains(e),
    ensures
        errors_only(mine, theirs).contains(e),
{
    let m = strs(mine);
    let t = strs(theirs);
    let pred = |y: Seq<char>| m.contains(y) && !t.contains(y);
    let g = m.filter(pred);
    m.filter_lemma(pred);
    let st = m.to_set().difference(t.to_set());
    assert forall|y: Seq<char>| g.to_set().contains(y) <==> st.contains(y) by {
        if g.contains(y) {
            let k = choose|k: int| 0 <= k < g.len() && g[k] == y;
            assert(pred(g[k]));
        }
        if st.contains(y) {
            let k = choose|k: int| 0 <= k < m.len() && m[k] == y;
            assert(pred(m[k]));
        }
    }
    assert(g.to_set() =~= st);
    lemma_sortable(g);
    let u = sorted_of(st);
    assert(strictly_sorted(u) && u.to_set() == st);
    assert(u.to_set().contains(e));
}

proof fn lemma_console_divs_has(engine: Seq<char>, errs: Seq<Seq<char>>, e: Seq<char>)
    requires
        errs.contains(e),
    ensures
        console_divs(engine, errs).contains(
            div_of(Severity::Medium, "console-error"@, "only on "@ + engine + ": "@ + e),
        ),
    decreases errs.len(),
{
    let want = div_of(Severity::Medium, "console-error"@, "only on "@ + engine + ": "@ + e);
    let c = console_divs(engine, errs);
    let rest = console_divs(engine, errs.drop_last());
    if errs.last() == e {
        assert(c[rest.len() as int] == want);
    } else {
        let k = choose|k: int| 0 <= k < errs.len() && errs[k] == e;
        assert(errs.drop_last()[k] == e);
        lemma_console_divs_has(engine, errs.drop_last(), e);
        let i = choose|i: int| 0 <= i < rest.len() && rest[i] == want;
        assert(c[i] == want);
    }
}

/// A console error that one engine reports and the other does not is always reported, as a
/// MEDIUM `console-error` divergence naming the engine that reported it, whichever of the two
/// captures holds it; and a run on those two engines reports it too.
pub proof fn law_one_sided_console_errors_are_reported(a: EngineBlob, b: EngineBlob, e: Seq<char>)
    requires
        strs(a.console_errors@).contains(e),
        !strs(b.console_errors@).contains(e),
    ensures
        compare_spec(a, b).contains(
            div_of(Severity::Medium, "console-error"@, "only on "@ + a.engine@ + ": "@ + e),
        ),
        compare_spec(b, a).contains(
            div_of(Severity::Medium, "console-error"@, "only on "@ + a.engine@ + ": "@ + e),
        ),
        pair_divs(seq![a, b], 2).contains(
            div_of(Severity::Medium, "console-error"@, "only on "@ + a.engine@ + ": "@ + e),
        ),
        div_of(Severity::Medium, "console-error"@, "only on "@ + a.engine@ + ": "@ + e).rank == 1,
        div_of(Severity::Medium, "console-error"@, "only on "@ + a.engine@ + ": "@ + e).kind
            == "[MEDIUM] console-error"@,
{
    let want = div_of(Severity::Medium, "console-error"@, "only on "@ + a.engine@ + ": "@ + e);
    lemma_errors_only_has(a.console_errors@, b.console_errors@, e);
    lemma_console_divs_has(a.engine@, errors_only(a.console_errors@, b.console_errors@), e);
    let f = feature_divs(a, b, merge_keys(feature_keys(a.features@), feature_keys(b.features@)));
    let st = style_divs(a, b, merge_keys(selector_keys(a.computed_styles@), selector_keys(b.computed_styles@)));
    let ca = console_divs(a.engine@, errors_only(a.console_errors@, b.console_errors@));
    let cb = console_divs(b.engine@, errors_only(b.console_errors@, a.console_errors@));
    let ua = if a.user_agent@ != b.user_agent@ {
        seq![div_of(Severity::Info, "user-agent"@, a.engine@ + " vs "@ + b.engine@)]
    } else {
        Seq::<DivergenceView>::empty()
    };
    assert(compare_spec(a, b) == f + st + ca + cb + ua);
    let i = choose|i: int| 0 <= i < ca.len() && ca[i] == want;
    assert(compare_spec(a, b)[f.len() + st.len() + i] == want);
    let f2 = feature_divs(b, a, merge_keys(feature_keys(b.features@), feature_keys(a.features@)));
    let st2 = style_divs(b, a, merge_keys(selector_keys(b.computed_styles@), selector_keys(a.computed_styles@)));
    let ca2 = console_divs(b.engine@, errors_only(b.console_errors@, a.console_errors@));
    let cb2 = console_divs(a.engine@, errors_only(a.console_errors@, b.console_errors@));
    let ua2 = if b.user_agent@ != a.user_agent@ {
        seq![div_of(Severity::Info, "user-agent"@, b.engine@ + " vs "@ + a.engine@)]
    } else {
        Seq::<DivergenceView>::empty()
    };
    assert(compare_spec(b, a) == f2 + st2 + ca2 + cb2 + ua2);
    assert(compare_spec(b, a)[f2.len() + st2.len() + ca2.len() + i] == want);
    law_two_engine_run(a, b);
    reveal_strlit("[");
    reveal_strlit("MEDIUM");
    reveal_strlit("] ");
    reveal_strlit("console-error");
    reveal_strlit("[MEDIUM] console-error");
    assert(want.kind =~= "[MEDIUM] console-error"@);
}

/// A report of fewer than two engines always says that no cross-engine comparison was
/// possible, so a single-engine run is never mistaken for cross-engine confidence.
pub proof fn law_single_engine_runs_are_flagged(blobs: Seq<EngineBlob>, ds: Seq<DivergenceView>)
    requires
        blobs.len() < 2,
    ensures
        exists|i: int|
            occurs_at(
                report_of(blobs, ds),
                "_Fewer than two engines — no cross-engine comparison possible._\n\n"@,
                i,
            ),
{
    let engines = engine_names(blobs);
    let head = "# Cross-WebView Divergence Report\n\n"@ + "**Engines exercised ("@ + dec(engines.len())
        + "):** "@ + join_seqs(engines, ", "@) + "\n\n"@;
    let flag = "_Fewer than two engines — no cross-engine comparison possible._\n\n"@;
    let r = report_of(blobs, ds);
    assert(r.subrange(head.len() as int, (head.len() + flag.len()) as int) =~= flag);
    assert(occurs_at(r, flag, head.len() as int));
}

} // verus!
