//! Classify a profile against the matrix: gaps, divergences, and unknown ids.
use vstd::prelude::*;
use crate::matrix::{Capability, Matrix, ParityTier, TauriPath, lookup, tier_of};
use crate::profile::{Profile, ids_view};
use crate::text::{occurs_at, push_str};

verus! {

/// A requested capability Tauri has a path for.
#[derive(Debug, Clone)]
pub struct GapItem {
    pub id: String,
    pub name: String,
    pub tauri_path: TauriPath,
    pub plugin: Option<String>,
    pub crate_name: Option<String>,
}

/// Something the port cannot reproduce (or has not verified), with its citation.
#[derive(Debug, Clone)]
pub struct DivergenceItem {
    pub id: String,
    pub name: String,
    pub reason: String,
    pub citation_url: String,
}

/// The result of [`analyze`].
#[derive(Debug, Clone)]
pub struct Analysis {
    pub gaps: Vec<GapItem>,
    pub divergences: Vec<DivergenceItem>,
    pub unknown: Vec<String>,
}

pub open spec fn opt_view(o: Option<String>) -> Option<Seq<char>> {
    match o {
        Some(s) => Some(s@),
        None => None,
    }
}

/// The plain content of a [`GapItem`].
pub struct GapView {
    pub id: Seq<char>,
    pub name: Seq<char>,
    pub tauri_path: TauriPath,
    pub plugin: Option<Seq<char>>,
    pub crate_name: Option<Seq<char>>,
}

/// The plain content of a [`DivergenceItem`].
pub struct DivView {
    pub id: Seq<char>,
    pub name: Seq<char>,
    pub reason: Seq<char>,
    pub citation_url: Seq<char>,
}

/// The plain content of an [`Analysis`].
pub struct AnalysisView {
    pub gaps: Seq<GapView>,
    pub divergences: Seq<DivView>,
    pub unknown: Seq<Seq<char>>,
}

impl View for GapItem {
    type V = GapView;

    open spec fn view(&self) -> GapView {
        GapView {
            id: self.id@,
            name: self.name@,
            tauri_path: self.tauri_path,
            plugin: opt_view(self.plugin),
            crate_name: opt_view(self.crate_name),
        }
    }
}

impl View for DivergenceItem {
    type V = DivView;

    open spec fn view(&self) -> DivView {
        DivView {
            id: self.id@,
            name: self.name@,
            reason: self.reason@,
            citation_url: self.citation_url@,
        }
    }
}

impl View for Analysis {
    type V = AnalysisView;

    open spec fn view(&self) -> AnalysisView {
        AnalysisView {
            gaps: self.gaps@.map_values(|g: GapItem| g@),
            divergences: self.divergences@.map_values(|d: DivergenceItem| d@),
            unknown: ids_view(self.unknown@),
        }
    }
}

pub open spec fn gap_of(c: Capability) -> GapView {
    GapView {
        id: c.id@,
        name: c.name@,
        tauri_path: c.tauri_path,
        plugin: opt_view(c.plugin),
        crate_name: opt_view(c.crate_name),
    }
}

pub open spec fn no_path_reason() -> Seq<char> {
    "No viable Tauri path."@
}

pub open spec fn open_question_reason() -> Seq<char> {
    "OPEN QUESTION — no confirmed path; needs research."@
}

pub open spec fn visual_suffix() -> Seq<char> {
    " — visual parity NOT measured"@
}

pub open spec fn visual_reason() -> Seq<char> {
    "behavior is covered, but look/feel equivalence is unverified until the webview-qa live engine drivers measure it."@
}

/// The divergence recorded for a row with no path (`no_path`) or an open question.
pub open spec fn path_div(c: Capability, no_path: bool) -> DivView {
    DivView {
        id: c.id@,
        name: c.name@,
        reason: if no_path { no_path_reason() } else { open_question_reason() },
        citation_url: c.citation_url@,
    }
}

/// The divergence recorded for a visual-tier gap, whose look/feel is not measured.
pub open spec fn visual_div(c: Capability) -> DivView {
    DivView {
        id: c.id@,
        name: c.name@ + visual_suffix(),
        reason: visual_reason(),
        citation_url: c.citation_url@,
    }
}

/// The WebView-engine divergence every analysis ends with.
pub open spec fn engine_div() -> DivView {
    DivView {
        id: "webview.engine"@,
        name: "WebView engine divergence"@,
        reason: "Tauri uses OS-native WebView (WebView2/WKWebView/WebKitGTK); rendering/JS behavior can diverge from the original app."@,
        citation_url: "https://v2.tauri.app/concept/architecture/"@,
    }
}

/// `a` after classifying one more requested id.
pub open spec fn classify_one(caps: Seq<Capability>, id: Seq<char>, a: AnalysisView) -> AnalysisView {
    match lookup(caps, id) {
        None => AnalysisView { unknown: a.unknown.push(id), ..a },
        Some(c) => {
            if c.tauri_path == TauriPath::NoViablePath {
                AnalysisView { divergences: a.divergences.push(path_div(c, true)), ..a }
            } else if c.tauri_path == TauriPath::OpenQuestion {
                AnalysisView { divergences: a.divergences.push(path_div(c, false)), ..a }
            } else if tier_of(c) == ParityTier::Visual {
                AnalysisView {
                    gaps: a.gaps.push(gap_of(c)),
                    divergences: a.divergences.push(visual_div(c)),
                    ..a
                }
            } else {
                AnalysisView { gaps: a.gaps.push(gap_of(c)), ..a }
            }
        },
    }
}

/// Classification of the requested ids, in order, before the engine note.
pub open spec fn classify_all(caps: Seq<Capability>, ids: Seq<Seq<char>>) -> AnalysisView
    decreases ids.len(),
{
    if ids.len() == 0 {
        AnalysisView { gaps: seq![], divergences: seq![], unknown: seq![] }
    } else {
        classify_one(caps, ids.last(), classify_all(caps, ids.drop_last()))
    }
}

/// What [`analyze`] returns for a matrix with rows `caps` and requested ids `ids`.
pub open spec fn analysis_of(caps: Seq<Capability>, ids: Seq<Seq<char>>) -> AnalysisView {
    let a = classify_all(caps, ids);
    AnalysisView { divergences: a.divergences.push(engine_div()), ..a }
}

fn clone_opt(o: &Option<String>) -> (r: Option<String>)
    ensures
        opt_view(r) == opt_view(*o),
{
    match o {
        Some(s) => Some(s.clone()),
        None => None,
    }
}

fn div_item(id: &String, name: String, reason: &str, citation_url: &String) -> (d: DivergenceItem)
    ensures
        d@ == (DivView { id: id@, name: name@, reason: reason@, citation_url: citation_url@ }),
{
    DivergenceItem {
        id: id.clone(),
        name,
        reason: reason.to_string(),
        citation_url: citation_url.clone(),
    }
}

/// Classify every requested capability of `p` against `m`.
///
/// Ids without a matrix row become `unknown`; rows with no viable path or an open question
/// become divergences (never gaps, so they never reach the scaffolder); every other row becomes
/// a gap, and a visual-tier gap is also reported as a divergence whose look/feel is unmeasured.
/// The report always ends with the WebView-engine divergence.
pub fn analyze(m: &Matrix, p: &Profile) -> (a: Analysis)
    ensures
        a@ == analysis_of(m.capabilities@, ids_view(p.capabilities@)),
{
    let ghost caps = m.capabilities@;
    let ghost ids = ids_view(p.capabilities@);
    let mut gaps: Vec<GapItem> = Vec::new();
    let mut divergences: Vec<DivergenceItem> = Vec::new();
    let mut unknown: Vec<String> = Vec::new();
    let mut i: usize = 0;
    while i < p.capabilities.len()
        invariant
            caps == m.capabilities@,
            ids == ids_view(p.capabilities@),
            i <= p.capabilities@.len(),
            ({
                let a = classify_all(caps, ids.take(i as int));
                &&& gaps@.map_values(|g: GapItem| g@) == a.gaps
                &&& divergences@.map_values(|d: DivergenceItem| d@) == a.divergences
                &&& ids_view(unknown@) == a.unknown
            }),
        decreases p.capabilities@.len() - i,
    {
        let id = &p.capabilities[i];
        let ghost prev = classify_all(caps, ids.take(i as int));
        assert(ids.take(i + 1).drop_last() =~= ids.take(i as int));
        assert(ids.take(i + 1).last() == id@);
        match m.get(id.as_str()) {
            None => {
                unknown.push(id.clone());
                assert(ids_view(unknown@) =~= prev.unknown.push(id@));
            },
            Some(c) => {
                if c.tauri_path == TauriPath::NoViablePath {
                    divergences.push(div_item(&c.id, c.name.clone(), "No viable Tauri path.", &c.citation_url));
                    assert(divergences@.map_values(|d: DivergenceItem| d@) =~= prev.divergences.push(path_div(*c, true)));
                } else if c.tauri_path == TauriPath::OpenQuestion {
                    divergences.push(div_item(&c.id, c.name.clone(),
                        "OPEN QUESTION — no confirmed path; needs research.", &c.citation_url));
                    assert(divergences@.map_values(|d: DivergenceItem| d@) =~= prev.divergences.push(path_div(*c, false)));
                } else {
                    gaps.push(GapItem {
                        id: c.id.clone(),
                        name: c.name.clone(),
                        tauri_path: c.tauri_path,
                        plugin: clone_opt(&c.plugin),
                        crate_name: clone_opt(&c.crate_name),
                    });
                    assert(gaps@.map_values(|g: GapItem| g@) =~= prev.gaps.push(gap_of(*c)));
                    if c.parity_tier() == ParityTier::Visual {
                        let mut name = c.name.clone();
                        push_str(&mut name, " — visual parity NOT measured");
                        divergences.push(div_item(&c.id, name,
                            "behavior is covered, but look/feel equivalence is unverified until the webview-qa live engine drivers measure it.",
                            &c.citation_url));
                        assert(divergences@.map_values(|d: DivergenceItem| d@) =~= prev.divergences.push(visual_div(*c)));
                    }
                }
            },
        }
        i = i + 1;
    }
    assert(ids.take(p.capabilities@.len() as int) =~= ids);
    let ghost before = divergences@.map_values(|d: DivergenceItem| d@);
    divergences.push(DivergenceItem {
        id: "webview.engine".to_string(),
        name: "WebView engine divergence".to_string(),
        reason: "Tauri uses OS-native WebView (WebView2/WKWebView/WebKitGTK); rendering/JS behavior can diverge from the original app.".to_string(),
        citation_url: "https://v2.tauri.app/concept/architecture/".to_string(),
    });
    assert(divergences@.map_values(|d: DivergenceItem| d@) =~= before.push(engine_div()));
    Analysis { gaps, divergences, unknown }
}

} // verus!

verus! {

/// The requested id has no matrix row.
pub open spec fn is_unknown(caps: Seq<Capability>, id: Seq<char>) -> bool {
    lookup(caps, id) is None
}

/// The requested id's row has no viable path or is an open question.
pub open spec fn is_divergent(caps: Seq<Capability>, id: Seq<char>) -> bool {
    lookup(caps, id) matches Some(c) && (c.tauri_path == TauriPath::NoViablePath || c.tauri_path
        == TauriPath::OpenQuestion)
}

/// The requested id's row has a Tauri path.
pub open spec fn is_gap(caps: Seq<Capability>, id: Seq<char>) -> bool {
    lookup(caps, id) is Some && !is_divergent(caps, id)
}

/// The requested id's row has a Tauri path and a visual parity tier.
pub open spec fn is_visual_gap(caps: Seq<Capability>, id: Seq<char>) -> bool {
    is_gap(caps, id) && tier_of(lookup(caps, id)->0) == ParityTier::Visual
}

/// How many of `ids` satisfy `f`.
pub open spec fn count_where(ids: Seq<Seq<char>>, f: spec_fn(Seq<char>) -> bool) -> nat
    decreases ids.len(),
{
    if ids.len() == 0 {
        0
    } else {
        count_where(ids.drop_last(), f) + if f(ids.last()) { 1nat } else { 0nat }
    }
}

/// The members of `ids` that satisfy `f`, in order.
pub open spec fn keep_where(ids: Seq<Seq<char>>, f: spec_fn(Seq<char>) -> bool) -> Seq<Seq<char>>
    decreases ids.len(),
{
    if ids.len() == 0 {
        seq![]
    } else if f(ids.last()) {
        keep_where(ids.drop_last(), f).push(ids.last())
    } else {
        keep_where(ids.drop_last(), f)
    }
}

proof fn lemma_classify_all_accounting(caps: Seq<Capability>, ids: Seq<Seq<char>>)
    ensures
        ({
            let a = classify_all(caps, ids);
            &&& a.gaps.len() == count_where(ids, |id: Seq<char>| is_gap(caps, id))
            &&& a.divergences.len() == count_where(ids, |id: Seq<char>| is_divergent(caps, id))
                + count_where(ids, |id: Seq<char>| is_visual_gap(caps, id))
            &&& a.unknown == keep_where(ids, |id: Seq<char>| is_unknown(caps, id))
            &&& forall|i: int|
                0 <= i < a.gaps.len() ==> (#[trigger] a.gaps[i]).tauri_path != TauriPath::NoViablePath
                    && a.gaps[i].tauri_path != TauriPath::OpenQuestion
        }),
    decreases ids.len(),
{
    if ids.len() > 0 {
        lemma_classify_all_accounting(caps, ids.drop_last());
    }
}

/// Every requested capability is accounted for: each id becomes exactly one gap (a Tauri path
/// exists), one divergence (no viable path or an open question) or one unknown id; a visual-tier
/// gap adds one "not measured" divergence; and one WebView-engine divergence is always added.
pub proof fn law_every_requested_id_is_accounted_for(m: Matrix, p: Profile)
    ensures
        ({
            let caps = m.capabilities@;
            let ids = ids_view(p.capabilities@);
            let a = analysis_of(caps, ids);
            &&& a.gaps.len() == count_where(ids, |id: Seq<char>| is_gap(caps, id))
            &&& a.divergences.len() == count_where(ids, |id: Seq<char>| is_divergent(caps, id))
                + count_where(ids, |id: Seq<char>| is_visual_gap(caps, id)) + 1
            &&& a.unknown == keep_where(ids, |id: Seq<char>| is_unknown(caps, id))
        }),
{
    lemma_classify_all_accounting(m.capabilities@, ids_view(p.capabilities@));
}

/// The honesty boundary: a row with no viable path or an open question never becomes a gap, so
/// it can never reach code generation.
pub proof fn law_gaps_always_have_a_path(m: Matrix, p: Profile)
    ensures
        ({
            let a = analysis_of(m.capabilities@, ids_view(p.capabilities@));
            forall|i: int|
                0 <= i < a.gaps.len() ==> (#[trigger] a.gaps[i]).tauri_path != TauriPath::NoViablePath
                    && a.gaps[i].tauri_path != TauriPath::OpenQuestion
        }),
{
    lemma_classify_all_accounting(m.capabilities@, ids_view(p.capabilities@));
}

/// Every analysis, even of an empty profile, ends with the WebView-engine divergence.
pub proof fn law_engine_divergence_is_always_reported(m: Matrix, p: Profile)
    ensures
        ({
            let a = analysis_of(m.capabilities@, ids_view(p.capabilities@));
            a.divergences.len() >= 1 && a.divergences.last() == engine_div()
        }),
{
}

} // verus!

verus! {

/// One bullet of the divergence report.
pub open spec fn div_line(d: DivView) -> Seq<char> {
    "- **"@ + d.name + "** ("@ + d.id + "): "@ + d.reason + " [doc]("@ + d.citation_url + ")\n"@
}

pub open spec fn div_lines(ds: Seq<DivView>) -> Seq<char>
    decreases ds.len(),
{
    if ds.len() == 0 {
        seq![]
    } else {
        div_lines(ds.drop_last()) + div_line(ds.last())
    }
}

pub open spec fn unknown_lines(us: Seq<Seq<char>>) -> Seq<char>
    decreases us.len(),
{
    if us.len() == 0 {
        seq![]
    } else {
        unknown_lines(us.drop_last()) + "- "@ + us.last() + "\n"@
    }
}

/// The Markdown known-divergence report for an analysis.
pub open spec fn divergence_report(a: AnalysisView) -> Seq<char> {
    "# Known-Divergence Report\n\n"@ + div_lines(a.divergences) + if a.unknown.len() == 0 {
        Seq::<char>::empty()
    } else {
        "\n## Unknown capabilities (skipped)\n\n"@ + unknown_lines(a.unknown)
    }
}

/// Render the known-divergence report: one bullet per divergence, then the skipped ids.
pub fn render_divergence(a: &Analysis) -> (out: String)
    ensures
        out@ == divergence_report(a@),
{
    let mut out = String::new();
    push_str(&mut out, "# Known-Divergence Report\n\n");
    let ghost ds = a@.divergences;
    let mut i: usize = 0;
    while i < a.divergences.len()
        invariant
            ds == a@.divergences,
            i <= a.divergences@.len(),
            out@ == "# Known-Divergence Report\n\n"@ + div_lines(ds.take(i as int)),
        decreases a.divergences@.len() - i,
    {
        let d = &a.divergences[i];
        push_str(&mut out, "- **");
        push_str(&mut out, d.name.as_str());
        push_str(&mut out, "** (");
        push_str(&mut out, d.id.as_str());
        push_str(&mut out, "): ");
        push_str(&mut out, d.reason.as_str());
        push_str(&mut out, " [doc](");
        push_str(&mut out, d.citation_url.as_str());
        push_str(&mut out, ")\n");
        assert(ds.take(i + 1).drop_last() =~= ds.take(i as int));
        assert(ds.take(i + 1).last() == d@);
        i = i + 1;
    }
    assert(ds.take(a.divergences@.len() as int) =~= ds);
    let ghost head = out@;
    if a.unknown.len() > 0 {
        push_str(&mut out, "\n## Unknown capabilities (skipped)\n\n");
        let ghost us = a@.unknown;
        let mut j: usize = 0;
        while j < a.unknown.len()
            invariant
                us == a@.unknown,
                j <= a.unknown@.len(),
                out@ == head + "\n## Unknown capabilities (skipped)\n\n"@ + unknown_lines(us.take(j as int)),
            decreases a.unknown@.len() - j,
        {
            push_str(&mut out, "- ");
            push_str(&mut out, a.unknown[j].as_str());
            push_str(&mut out, "\n");
            assert(us.take(j + 1).drop_last() =~= us.take(j as int));
            assert(us.take(j + 1).last() == a.unknown@[j as int]@);
            j = j + 1;
        }
        assert(us.take(a.unknown@.len() as int) =~= us);
    }
    proof {
        if a@.unknown.len() == 0 {
            assert(out@ =~= divergence_report(a@));
        } else {
            assert(out@ =~= divergence_report(a@));
        }
    }
    out
}

/// The known-divergence report is made from the divergences and the unknown ids alone: it
/// opens with its heading, lists the divergences, and adds the unknown-capabilities section
/// exactly when there are unknown ids.
pub proof fn law_divergence_report_shape(a: AnalysisView, b: AnalysisView)
    requires
        a.divergences == b.divergences,
        a.unknown == b.unknown,
    ensures
        divergence_report(a) == divergence_report(b),
        "# Known-Divergence Report\n\n"@.is_prefix_of(divergence_report(a)),
        a.unknown.len() == 0 ==> divergence_report(a) == "# Known-Divergence Report\n\n"@ + div_lines(
            a.divergences,
        ),
        a.unknown.len() > 0 ==> divergence_report(a) == "# Known-Divergence Report\n\n"@ + div_lines(
            a.divergences,
        ) + "\n## Unknown capabilities (skipped)\n\n"@ + unknown_lines(a.unknown),
{
    let h = "# Known-Divergence Report\n\n"@;
    let r = divergence_report(a);
    assert(r.subrange(0, h.len() as int) =~= h);
    if a.unknown.len() == 0 {
        assert(r =~= h + div_lines(a.divergences));
    }
}

/// The unknown-capabilities heading, up to its parenthesis.
pub open spec fn unknown_heading() -> Seq<char> {
    "## Unknown capabilities"@
}

/// `u` occurs nowhere in `s`.
pub open spec fn no_occ(s: Seq<char>, u: Seq<char>) -> bool {
    forall|i: int| !#[trigger] occurs_at(s, u, i)
}

/// No field of divergence `d` contains `u`.
pub open spec fn fields_free_of(d: DivView, u: Seq<char>) -> bool {
    &&& no_occ(d.name, u)
    &&& no_occ(d.id, u)
    &&& no_occ(d.reason, u)
    &&& no_occ(d.citation_url, u)
}

proof fn lemma_occ_char(s: Seq<char>, u: Seq<char>, i: int, p: int)
    requires
        occurs_at(s, u, i),
        i <= p < i + u.len(),
    ensures
        s[p] == u[p - i],
{
    assert(s.subrange(i, i + u.len())[p - i] == s[p]);
}

proof fn lemma_short_no_occ(s: Seq<char>, u: Seq<char>)
    requires
        s.len() < u.len(),
    ensures
        no_occ(s, u),
{
}

proof fn lemma_heading_chars()
    ensures
        unknown_heading().len() == 23,
        unknown_heading()[0] == '#',
        unknown_heading()[1] == '#',
        forall|k: int|
            0 <= k < 23 ==> {
                let c = #[trigger] unknown_heading()[k];
                &&& c != '*'
                &&& c != '('
                &&& c != ')'
                &&& c != '\n'
                &&& c != ':'
                &&& c != '['
                &&& (c == ' ' ==> k == 2 || k == 10)
            },
{
    reveal_strlit("## Unknown capabilities");
    let u = unknown_heading();
    assert(u =~= seq![
        '#', '#', ' ', 'U', 'n', 'k', 'n', 'o', 'w', 'n', ' ', 'c', 'a', 'p', 'a', 'b', 'i', 'l',
        'i', 't', 'i', 'e', 's',
    ]);
}

/// Appending to `x` keeps `u` out when neither part holds it and no occurrence can straddle.
proof fn lemma_no_occ_concat(x: Seq<char>, y: Seq<char>, u: Seq<char>)
    requires
        no_occ(x, u),
        no_occ(y, u),
        forall|i: int|
            0 <= i < x.len() < i + u.len() <= x.len() + y.len() ==> !#[trigger] occurs_at(
                x + y,
                u,
                i,
            ),
    ensures
        no_occ(x + y, u),
{
    assert forall|i: int| !#[trigger] occurs_at(x + y, u, i) by {
        if occurs_at(x + y, u, i) {
            if i + u.len() <= x.len() {
                assert((x + y).subrange(i, i + u.len()) =~= x.subrange(i, i + u.len()));
                assert(occurs_at(x, u, i));
            } else if i >= x.len() {
                assert((x + y).subrange(i, i + u.len()) =~= y.subrange(i - x.len(), i - x.len() + u.len()));
                assert(occurs_at(y, u, i - x.len()));
            }
        }
    }
}

/// Appending after a character that the heading does not hold.
proof fn lemma_append_after(x: Seq<char>, y: Seq<char>)
    requires
        no_occ(x, unknown_heading()),
        no_occ(y, unknown_heading()),
        x.len() > 0,
        forall|k: int| 0 <= k < 23 ==> #[trigger] unknown_heading()[k] != x.last(),
    ensures
        no_occ(x + y, unknown_heading()),
{
    let u = unknown_heading();
    lemma_heading_chars();
    assert forall|i: int|
        0 <= i < x.len() < i + u.len() <= x.len() + y.len() implies !#[trigger] occurs_at(x + y, u, i) by {
        if occurs_at(x + y, u, i) {
            lemma_occ_char(x + y, u, i, x.len() - 1);
            assert((x + y)[x.len() - 1] == x.last());
        }
    }
    lemma_no_occ_concat(x, y, u);
}

/// Appending a text whose first character the heading holds nowhere after its start.
proof fn lemma_append_starting(x: Seq<char>, y: Seq<char>)
    requires
        no_occ(x, unknown_heading()),
        no_occ(y, unknown_heading()),
        y.len() > 0,
        forall|k: int| 1 <= k < 23 ==> #[trigger] unknown_heading()[k] != y[0],
    ensures
        no_occ(x + y, unknown_heading()),
{
    let u = unknown_heading();
    lemma_heading_chars();
    assert forall|i: int|
        0 <= i < x.len() < i + u.len() <= x.len() + y.len() implies !#[trigger] occurs_at(x + y, u, i) by {
        if occurs_at(x + y, u, i) {
            lemma_occ_char(x + y, u, i, x.len() as int);
            assert((x + y)[x.len() as int] == y[0]);
        }
    }
    lemma_no_occ_concat(x, y, u);
}

/// A divergence bullet appended after a line break keeps the heading out.
proof fn lemma_line_no_occ(s: Seq<char>, d: DivView)
    requires
        no_occ(s, unknown_heading()),
        s.len() > 0,
        s.last() == '\n',
        fields_free_of(d, unknown_heading()),
    ensures
        no_occ(s + div_line(d), unknown_heading()),
        (s + div_line(d)).last() == '\n',
{
    let u = unknown_heading();
    lemma_heading_chars();
    reveal_strlit("- **");
    reveal_strlit("** (");
    reveal_strlit("): ");
    reveal_strlit(" [doc](");
    reveal_strlit(")\n");
    let f1 = "- **"@;
    let f2 = "** ("@;
    let f3 = "): "@;
    let f4 = " [doc]("@;
    let f5 = ")\n"@;
    lemma_short_no_occ(f1, u);
    lemma_short_no_occ(f2, u);
    lemma_short_no_occ(f3, u);
    lemma_short_no_occ(f4, u);
    lemma_short_no_occ(f5, u);
    let s1 = s + f1;
    lemma_append_after(s, f1);
    let s2 = s1 + d.name;
    lemma_append_after(s1, d.name);
    let s3 = s2 + f2;
    lemma_append_starting(s2, f2);
    let s4 = s3 + d.id;
    lemma_append_after(s3, d.id);
    let s5 = s4 + f3;
    lemma_append_starting(s4, f3);
    let s6 = s5 + d.reason;
    assert forall|i: int|
        0 <= i < s5.len() < i + u.len() <= s5.len() + d.reason.len() implies !#[trigger] occurs_at(
        s6,
        u,
        i,
    ) by {
        if occurs_at(s6, u, i) {
            lemma_occ_char(s6, u, i, s5.len() - 1);
            assert(s6[s5.len() - 1] == ' ');
            if s5.len() - 1 - i >= 1 {
                lemma_occ_char(s6, u, i, s5.len() - 2);
                assert(s6[s5.len() - 2] == ':');
            }
        }
    }
    lemma_no_occ_concat(s5, d.reason, u);
    let s7 = s6 + f4;
    assert forall|i: int|
        0 <= i < s6.len() < i + u.len() <= s6.len() + f4.len() implies !#[trigger] occurs_at(s7, u, i) by {
        if occurs_at(s7, u, i) {
            lemma_occ_char(s7, u, i, s6.len() as int);
            assert(s7[s6.len() as int] == ' ');
            lemma_occ_char(s7, u, i, s6.len() + 1int);
            assert(s7[s6.len() + 1int] == '[');
        }
    }
    lemma_no_occ_concat(s6, f4, u);
    let s8 = s7 + d.citation_url;
    lemma_append_after(s7, d.citation_url);
    let s9 = s8 + f5;
    lemma_append_starting(s8, f5);
    assert(s9 =~= s + div_line(d));
}

proof fn lemma_lines_no_occ(ds: Seq<DivView>)
    requires
        forall|i: int| 0 <= i < ds.len() ==> fields_free_of(#[trigger] ds[i], unknown_heading()),
    ensures
        no_occ("# Known-Divergence Report\n\n"@ + div_lines(ds), unknown_heading()),
        ("# Known-Divergence Report\n\n"@ + div_lines(ds)).last() == '\n',
    decreases ds.len(),
{
    let h = "# Known-Divergence Report\n\n"@;
    let u = unknown_heading();
    if ds.len() == 0 {
        reveal_strlit("# Known-Divergence Report\n\n");
        lemma_heading_chars();
        assert(h + div_lines(ds) =~= h);
        assert forall|i: int| !#[trigger] occurs_at(h, u, i) by {
            if occurs_at(h, u, i) {
                lemma_occ_char(h, u, i, i);
                lemma_occ_char(h, u, i, i + 1);
                assert(i <= 4);
                assert(h[i] != '#' || h[i + 1] != '#');
            }
        }
    } else {
        lemma_lines_no_occ(ds.drop_last());
        let s = h + div_lines(ds.drop_last());
        reveal_strlit("# Known-Divergence Report\n\n");
        assert(s.len() >= h.len() && h.len() > 0);
        lemma_line_no_occ(s, ds.last());
        assert(h + div_lines(ds) =~= s + div_line(ds.last()));
    }
}

/// When no divergence field holds the text `## Unknown capabilities`, the known-divergence
/// report holds the heading `## Unknown capabilities (skipped)` exactly when there are unknown
/// ids.
pub proof fn law_unknown_heading_marks_unknown_ids(a: AnalysisView)
    requires
        forall|i: int|
            0 <= i < a.divergences.len() ==> fields_free_of(#[trigger] a.divergences[i], unknown_heading()),
    ensures
        (exists|i: int| occurs_at(divergence_report(a), "## Unknown capabilities (skipped)"@, i))
            <==> a.unknown.len() > 0,
{
    let h = "# Known-Divergence Report\n\n"@;
    let t = "## Unknown capabilities (skipped)"@;
    let sec = "\n## Unknown capabilities (skipped)\n\n"@;
    let r = divergence_report(a);
    reveal_strlit("## Unknown capabilities (skipped)");
    reveal_strlit("\n## Unknown capabilities (skipped)\n\n");
    reveal_strlit("## Unknown capabilities");
    if a.unknown.len() > 0 {
        let base = h + div_lines(a.divergences);
        let k: int = base.len() + 1int;
        assert(r =~= base + sec + unknown_lines(a.unknown));
        assert(r.subrange(k, k + t.len()) =~= t);
        assert(occurs_at(r, t, k));
    } else {
        lemma_lines_no_occ(a.divergences);
        assert(r =~= h + div_lines(a.divergences));
        assert forall|i: int| !occurs_at(r, t, i) by {
            if occurs_at(r, t, i) {
                assert(r.subrange(i, i + 23) =~= t.subrange(0, 23));
                assert(t.subrange(0, 23) =~= unknown_heading());
                assert(occurs_at(r, unknown_heading(), i));
            }
        }
    }
}

} // verus!
