//! Two deterministic flows, one for UWP and one for Electron: the same input always gives the
//! same ordered step list, the same files and the same report. Every step records whether it
//! ran, was skipped, or could not run: a skipped step is reported, never silently omitted.
use vstd::prelude::*;
use crate::analyze::{
    analysis_of, analyze, div_line, div_lines, divergence_report, engine_div, opt_view, render_divergence, Analysis, AnalysisView,
    GapView,
};
use crate::manifest_types::{names_view, CapRefView, CapabilitiesBlock, CapsView, DeviceCapView, NamedCap};
use crate::matrix::{Capability, Matrix};
use crate::parse::{appx_profile_ids, electron_profile_ids, parse_appx_manifest, parse_electron};
use crate::pwa::{detect_pwa, port_of, port_pwa_to_tauri, pwa_of_xml, PwaApp, PwaView};
use crate::report::{path_debug, path_name};
use crate::msix::manifest_of;
use crate::strset::{
    insert_sorted, lemma_push_to_set, lemma_sorted_set_unique, lex_lt, strictly_sorted, strs,
};
use crate::text::{
    occurs_at, chars_of, dec, join_seqs, join_strings, push_dec, push_str, str_eq, trim_seq, trim_str,
};
use crate::xml::{
    attr_lookup, find_attr, nodes_view, parse_xml_nodes, xml_document_nodes, XmlNode, XmlNodeView,
};
use crate::xml_events::xml_event_stream;

verus! {

/// What happened at one step of a flow.
#[derive(Debug, Clone)]
pub enum StepStatus {
    Completed(String),
    /// Deliberately not applicable to this input.
    Skipped(String),
    /// Wanted to run, could not. This is a finding, not silence.
    Blocked(String),
}

/// The plain content of a [`StepStatus`].
pub enum StatusView {
    Completed(Seq<char>),
    Skipped(Seq<char>),
    Blocked(Seq<char>),
}

impl View for StepStatus {
    type V = StatusView;

    open spec fn view(&self) -> StatusView {
        match self {
            StepStatus::Completed(s) => StatusView::Completed(s@),
            StepStatus::Skipped(s) => StatusView::Skipped(s@),
            StepStatus::Blocked(s) => StatusView::Blocked(s@),
        }
    }
}

pub open spec fn status_label(s: StatusView) -> Seq<char> {
    match s {
        StatusView::Completed(_) => "ok"@,
        StatusView::Skipped(_) => "skipped"@,
        StatusView::Blocked(_) => "BLOCKED"@,
    }
}

pub open spec fn status_detail(s: StatusView) -> Seq<char> {
    match s {
        StatusView::Completed(d) => d,
        StatusView::Skipped(d) => d,
        StatusView::Blocked(d) => d,
    }
}

impl StepStatus {
    /// `"ok"`, `"skipped"` or `"BLOCKED"`.
    pub fn label(&self) -> (r: &'static str)
        ensures
            r@ == status_label(self@),
    {
        match self {
            StepStatus::Completed(_) => "ok",
            StepStatus::Skipped(_) => "skipped",
            StepStatus::Blocked(_) => "BLOCKED",
        }
    }

    /// The text the step recorded.
    pub fn detail(&self) -> (r: &str)
        ensures
            r@ == status_detail(self@),
    {
        match self {
            StepStatus::Completed(s) => s.as_str(),
            StepStatus::Skipped(s) => s.as_str(),
            StepStatus::Blocked(s) => s.as_str(),
        }
    }
}

/// One named step of a flow and what happened at it.
#[derive(Debug, Clone)]
pub struct Step {
    pub name: &'static str,
    pub status: StepStatus,
}

pub struct StepView {
    pub name: Seq<char>,
    pub status: StatusView,
}

impl View for Step {
    type V = StepView;

    open spec fn view(&self) -> StepView {
        StepView { name: self.name@, status: self.status@ }
    }
}

/// A file the flow wants written, as (relative path, contents).
#[derive(Debug, Clone)]
pub struct Artifact {
    pub path: String,
    pub contents: String,
}

impl View for Artifact {
    type V = (Seq<char>, Seq<char>);

    open spec fn view(&self) -> (Seq<char>, Seq<char>) {
        (self.path@, self.contents@)
    }
}

/// The result of running a flow: the ordered steps, the files to write, and the report.
#[derive(Debug, Clone)]
pub struct FlowResult {
    pub kind: &'static str,
    pub app_name: String,
    pub steps: Vec<Step>,
    pub artifacts: Vec<Artifact>,
    pub report_md: String,
}

pub struct FlowView {
    pub kind: Seq<char>,
    pub app_name: Seq<char>,
    pub steps: Seq<StepView>,
    pub artifacts: Seq<(Seq<char>, Seq<char>)>,
    pub report_md: Seq<char>,
}

pub open spec fn steps_view(v: Seq<Step>) -> Seq<StepView> {
    v.map_values(|s: Step| s@)
}

pub open spec fn artifacts_view(v: Seq<Artifact>) -> Seq<(Seq<char>, Seq<char>)> {
    v.map_values(|a: Artifact| a@)
}

impl View for FlowResult {
    type V = FlowView;

    open spec fn view(&self) -> FlowView {
        FlowView {
            kind: self.kind@,
            app_name: self.app_name@,
            steps: steps_view(self.steps@),
            artifacts: artifacts_view(self.artifacts@),
            report_md: self.report_md@,
        }
    }
}

pub open spec fn is_blocked(s: StepView) -> bool {
    s.status is Blocked
}

/// The blocked steps of `s`, in order.
pub open spec fn blocked_steps(s: Seq<StepView>) -> Seq<StepView>
    decreases s.len(),
{
    if s.len() == 0 {
        seq![]
    } else if is_blocked(s.last()) {
        blocked_steps(s.drop_last()).push(s.last())
    } else {
        blocked_steps(s.drop_last())
    }
}

impl FlowResult {
    /// The steps that wanted to run and could not, in order.
    pub fn blocked(&self) -> (r: Vec<&Step>)
        ensures
            r@.map_values(|s: &Step| s@) == blocked_steps(steps_view(self.steps@)),
    {
        let ghost all = steps_view(self.steps@);
        let mut r: Vec<&Step> = Vec::new();
        let mut i: usize = 0;
        while i < self.steps.len()
            invariant
                all == steps_view(self.steps@),
                i <= self.steps@.len(),
                r@.map_values(|s: &Step| s@) == blocked_steps(all.take(i as int)),
            decreases self.steps@.len() - i,
        {
            let st = &self.steps[i];
            let ghost before = r@.map_values(|s: &Step| s@);
            assert(all.take(i + 1).drop_last() =~= all.take(i as int));
            assert(all.take(i + 1).last() == st@);
            if let StepStatus::Blocked(_) = &st.status {
                r.push(st);
                assert(r@.map_values(|s: &Step| s@) =~= before.push(st@));
            }
            i = i + 1;
        }
        assert(all.take(self.steps@.len() as int) =~= all);
        r
    }
}

pub(crate) fn ok_step(name: &'static str, d: String) -> (s: Step)
    ensures
        s@ == (StepView { name: name@, status: StatusView::Completed(d@) }),
{
    Step { name, status: StepStatus::Completed(d) }
}

pub(crate) fn skipped_step(name: &'static str, d: String) -> (s: Step)
    ensures
        s@ == (StepView { name: name@, status: StatusView::Skipped(d@) }),
{
    Step { name, status: StepStatus::Skipped(d) }
}

pub(crate) fn blocked_step(name: &'static str, d: String) -> (s: Step)
    ensures
        s@ == (StepView { name: name@, status: StatusView::Blocked(d@) }),
{
    Step { name, status: StepStatus::Blocked(d) }
}

/// The number of `\n` characters in `s`.
pub open spec fn newlines(s: Seq<char>) -> nat
    decreases s.len(),
{
    if s.len() == 0 {
        0
    } else {
        newlines(s.drop_last()) + if s.last() == '\n' { 1nat } else { 0nat }
    }
}

proof fn lemma_newlines_bound(s: Seq<char>)
    ensures
        newlines(s) <= s.len(),
    decreases s.len(),
{
    if s.len() > 0 {
        lemma_newlines_bound(s.drop_last());
    }
}

/// How many lines std's `str::lines` yields for `s`: one per line ending, plus a last line
/// that has none.
pub open spec fn line_count(s: Seq<char>) -> nat {
    newlines(s) + if s.len() > 0 && s.last() != '\n' { 1nat } else { 0nat }
}

/// The UTF-8 length of `source` (as `str::len` reports it) per line (at least one line), and
/// the number of lines counted.
pub open spec fn bytes_per_line(source: Seq<char>) -> (nat, nat) {
    let lines = if line_count(source) == 0 { 1nat } else { line_count(source) };
    ((vstd::utf8::encode_utf8(source).len() as usize) as nat / lines, lines)
}

/// What [`looks_bundled`] says of `source`.
pub open spec fn bundled_note(source: Seq<char>) -> Option<Seq<char>> {
    let (per_line, lines) = bytes_per_line(source);
    if per_line >= 400 {
        Some(
            "~"@ + dec(per_line) + " bytes/line across "@ + dec(lines)
                + " line(s) — this looks bundled/minified"@,
        )
    } else {
        None
    }
}

/// Is this Electron source bundled (webpack/esbuild/rollup output)? Minified bundles pack
/// thousands of bytes onto a line; hand-written source does not. Some note when the UTF-8
/// length per line (`str::lines`, at least one) reaches 400.
pub fn looks_bundled(source: &str) -> (r: Option<String>)
    ensures
        r matches Some(s) ==> bundled_note(source@) == Some(s@),
        r is None ==> bundled_note(source@) is None,
{
    let bytes = source.len();
    let v = chars_of(source);
    let mut n: usize = 0;
    let mut i: usize = 0;
    while i < v.len()
        invariant
            v@ == source@,
            i <= v@.len(),
            n == newlines(v@.take(i as int)),
            n <= i,
        decreases v@.len() - i,
    {
        assert(v@.take(i + 1).drop_last() =~= v@.take(i as int));
        if v[i] == '\n' {
            n = n + 1;
        }
        i = i + 1;
    }
    assert(v@.take(v@.len() as int) =~= v@);
    let mut lines = n;
    if v.len() > 0 && v[v.len() - 1] != '\n' {
        proof {
            lemma_newlines_bound(v@.drop_last());
        }
        lines = lines + 1;
    }
    if lines == 0 {
        lines = 1;
    }
    let per_line = bytes / lines;
    assert(v@.len() > 0 ==> v@.last() == v@[v@.len() - 1]);
    assert(lines == (if line_count(source@) == 0 { 1nat } else { line_count(source@) }));
    assert(bytes_per_line(source@) == (per_line as nat, lines as nat));
    if per_line >= 400 {
        let mut s = String::new();
        push_str(&mut s, "~");
        push_dec(&mut s, per_line as u64);
        push_str(&mut s, " bytes/line across ");
        push_dec(&mut s, lines as u64);
        push_str(&mut s, " line(s) — this looks bundled/minified");
        assert(s@ =~= bundled_note(source@)->0);
        Some(s)
    } else {
        None
    }
}

pub open spec fn unmatched_bullets(us: Seq<Seq<char>>) -> Seq<char>
    decreases us.len(),
{
    if us.len() == 0 {
        seq![]
    } else {
        unmatched_bullets(us.drop_last()) + "- `"@ + us.last() + "`\n"@
    }
}

/// The report section that lists declared surface with no matrix row.
pub open spec fn unmatched_text(us: Seq<Seq<char>>) -> Seq<char> {
    "\n## Declared surface with no matrix row\n\n"@ + if us.len() == 0 {
        "_None — everything the manifest declares is represented in the matrix._\n"@
    } else {
        "These are declared by the app but have no row in the capability matrix. They were **not assessed** — this is a gap in coverage, not a clean result:\n\n"@
            + unmatched_bullets(us)
    }
}

fn unmatched_section(unmatched: &Vec<String>) -> (s: String)
    ensures
        s@ == unmatched_text(unmatched@.map_values(|u: String| u@)),
{
    let ghost us = unmatched@.map_values(|u: String| u@);
    let mut s = String::new();
    push_str(&mut s, "\n## Declared surface with no matrix row\n\n");
    if unmatched.len() == 0 {
        push_str(&mut s, "_None — everything the manifest declares is represented in the matrix._\n");
    } else {
        push_str(&mut s,
            "These are declared by the app but have no row in the capability matrix. They were **not assessed** — this is a gap in coverage, not a clean result:\n\n");
        let ghost head = s@;
        let mut i: usize = 0;
        while i < unmatched.len()
            invariant
                us == unmatched@.map_values(|u: String| u@),
                i <= unmatched@.len(),
                s@ == head + unmatched_bullets(us.take(i as int)),
            decreases unmatched@.len() - i,
        {
            push_str(&mut s, "- `");
            push_str(&mut s, unmatched[i].as_str());
            push_str(&mut s, "`\n");
            assert(us.take(i + 1).drop_last() =~= us.take(i as int));
            assert(us.take(i + 1).last() == unmatched@[i as int]@);
            i = i + 1;
        }
        assert(us.take(unmatched@.len() as int) =~= us);
    }
    assert(s@ =~= unmatched_text(us));
    s
}

pub open spec fn step_lines(steps: Seq<StepView>) -> Seq<char>
    decreases steps.len(),
{
    if steps.len() == 0 {
        seq![]
    } else {
        let st = steps.last();
        step_lines(steps.drop_last()) + "- **"@ + st.name + "** — "@ + status_label(st.status)
            + ": "@ + status_detail(st.status) + "\n"@
    }
}

/// The Markdown report of a flow: title, the step list, a warning when any step is blocked,
/// then the body.
pub open spec fn report_text(kind: Seq<char>, app: Seq<char>, steps: Seq<StepView>, body: Seq<char>) -> Seq<char> {
    let n = blocked_steps(steps).len();
    "# "@ + app + " — "@ + kind + " flow\n\n## Steps\n\n"@ + step_lines(steps) + (if n > 0 {
        "\n> "@ + dec(n) + " step(s) BLOCKED. Results below are incomplete accordingly.\n"@
    } else {
        Seq::<char>::empty()
    }) + "\n"@ + body
}

fn render_report_md(kind: &str, app: &str, steps: &Vec<Step>, body: &str) -> (s: String)
    ensures
        s@ == report_text(kind@, app@, steps_view(steps@), body@),
{
    let ghost all = steps_view(steps@);
    let mut s = String::new();
    push_str(&mut s, "# ");
    push_str(&mut s, app);
    push_str(&mut s, " — ");
    push_str(&mut s, kind);
    push_str(&mut s, " flow\n\n## Steps\n\n");
    let ghost head = s@;
    let mut blocked: usize = 0;
    let mut i: usize = 0;
    while i < steps.len()
        invariant
            all == steps_view(steps@),
            i <= steps@.len(),
            s@ == head + step_lines(all.take(i as int)),
            blocked == blocked_steps(all.take(i as int)).len(),
            blocked <= i,
        decreases steps@.len() - i,
    {
        let st = &steps[i];
        push_str(&mut s, "- **");
        push_str(&mut s, st.name);
        push_str(&mut s, "** — ");
        push_str(&mut s, st.status.label());
        push_str(&mut s, ": ");
        push_str(&mut s, st.status.detail());
        push_str(&mut s, "\n");
        assert(all.take(i + 1).drop_last() =~= all.take(i as int));
        assert(all.take(i + 1).last() == st@);
        if let StepStatus::Blocked(_) = &st.status {
            blocked = blocked + 1;
        }
        i = i + 1;
    }
    assert(all.take(steps@.len() as int) =~= all);
    if blocked > 0 {
        push_str(&mut s, "\n> ");
        push_dec(&mut s, blocked as u64);
        push_str(&mut s, " step(s) BLOCKED. Results below are incomplete accordingly.\n");
    }
    push_str(&mut s, "\n");
    push_str(&mut s, body);
    assert(s@ =~= report_text(kind@, app@, all, body@));
    s
}

/// Every `name` a capabilities block holds, in field order: the entries of each per-namespace
/// list, the device capabilities, then the ordered references.
pub open spec fn block_name_list(c: CapsView) -> Seq<Seq<char>> {
    c.capability + c.uap_capability + c.uap2_capability + c.uap3_capability + c.uap4_capability
        + c.uap6_capability + c.uap8_capability + c.uap10_capability + c.uap13_capability
        + c.uap15_capability + c.restricted_capability + c.device_capability.map_values(
        |d: DeviceCapView| d.name,
    ) + c.custom_capability + c.unknown_capability + c.ordered_refs.map_values(
        |r: CapRefView| r.name,
    )
}

fn append_names(out: &mut Vec<String>, v: &Vec<NamedCap>)
    ensures
        strs(final(out)@) == strs(old(out)@) + names_view(v@),
{
    let ghost start = strs(out@);
    let mut i: usize = 0;
    while i < v.len()
        invariant
            i <= v@.len(),
            strs(out@) == start + names_view(v@).take(i as int),
        decreases v@.len() - i,
    {
        let ghost before = strs(out@);
        out.push(v[i].name.clone());
        assert(strs(out@) =~= before.push(v@[i as int].name@));
        assert(names_view(v@).take(i + 1) =~= names_view(v@).take(i as int).push(v@[i as int].name@));
        i = i + 1;
    }
    assert(names_view(v@).take(v@.len() as int) =~= names_view(v@));
}

/// The names of a capabilities block, in the order of [`block_name_list`].
fn block_names(c: &CapabilitiesBlock) -> (r: Vec<String>)
    ensures
        strs(r@) == block_name_list(c@),
{
    let mut out: Vec<String> = Vec::new();
    append_names(&mut out, &c.capability);
    append_names(&mut out, &c.uap_capability);
    append_names(&mut out, &c.uap2_capability);
    append_names(&mut out, &c.uap3_capability);
    append_names(&mut out, &c.uap4_capability);
    append_names(&mut out, &c.uap6_capability);
    append_names(&mut out, &c.uap8_capability);
    append_names(&mut out, &c.uap10_capability);
    append_names(&mut out, &c.uap13_capability);
    append_names(&mut out, &c.uap15_capability);
    append_names(&mut out, &c.restricted_capability);
    let ghost before = strs(out@);
    let mut i: usize = 0;
    while i < c.device_capability.len()
        invariant
            i <= c.device_capability@.len(),
            strs(out@) == before + c@.device_capability.map_values(|d: DeviceCapView| d.name).take(
                i as int,
            ),
        decreases c.device_capability@.len() - i,
    {
        let ghost prev = strs(out@);
        out.push(c.device_capability[i].name.clone());
        assert(strs(out@) =~= prev.push(c@.device_capability[i as int].name));
        assert(c@.device_capability.map_values(|d: DeviceCapView| d.name).take(i + 1)
            =~= c@.device_capability.map_values(|d: DeviceCapView| d.name).take(i as int).push(
            c@.device_capability[i as int].name,
        ));
        i = i + 1;
    }
    assert(c@.device_capability.map_values(|d: DeviceCapView| d.name).take(
        c.device_capability@.len() as int,
    ) =~= c@.device_capability.map_values(|d: DeviceCapView| d.name));
    append_names(&mut out, &c.custom_capability);
    append_names(&mut out, &c.unknown_capability);
    let ghost before2 = strs(out@);
    let mut j: usize = 0;
    while j < c.ordered_refs.len()
        invariant
            j <= c.ordered_refs@.len(),
            strs(out@) == before2 + c@.ordered_refs.map_values(|r: CapRefView| r.name).take(j as int),
        decreases c.ordered_refs@.len() - j,
    {
        let ghost prev = strs(out@);
        out.push(c.ordered_refs[j].name.clone());
        assert(strs(out@) =~= prev.push(c@.ordered_refs[j as int].name));
        assert(c@.ordered_refs.map_values(|r: CapRefView| r.name).take(j + 1)
            =~= c@.ordered_refs.map_values(|r: CapRefView| r.name).take(j as int).push(
            c@.ordered_refs[j as int].name,
        ));
        j = j + 1;
    }
    assert(c@.ordered_refs.map_values(|r: CapRefView| r.name).take(c.ordered_refs@.len() as int)
        =~= c@.ordered_refs.map_values(|r: CapRefView| r.name));
    assert(strs(out@) =~= block_name_list(c@));
    out
}

/// The `capability:` tokens of some names: each name trimmed, empty ones dropped.
pub open spec fn name_tokens(names: Seq<Seq<char>>) -> Seq<Seq<char>>
    decreases names.len(),
{
    if names.len() == 0 {
        seq![]
    } else {
        let rest = name_tokens(names.drop_last());
        let t = trim_seq(names.last());
        if t.len() > 0 {
            rest.push("capability:"@ + t)
        } else {
            rest
        }
    }
}

/// The `extension:` tokens of a document: the `Category` attribute (no namespace) of every node
/// that has one.
pub open spec fn category_tokens(ns: Seq<XmlNodeView>) -> Seq<Seq<char>>
    decreases ns.len(),
{
    if ns.len() == 0 {
        seq![]
    } else {
        let rest = category_tokens(ns.drop_last());
        match attr_lookup(ns.last().attrs, "Category"@, false) {
            Some(v) => rest.push("extension:"@ + v),
            None => rest,
        }
    }
}

/// Everything a UWP manifest declares, as tokens: the capability names of its structured
/// parse (none when it does not parse) and the extension categories of its XML tree (none when
/// it does not parse).
pub open spec fn declared_surface(xml: Seq<char>) -> Seq<Seq<char>> {
    (match manifest_of(xml_event_stream(vstd::utf8::encode_utf8(xml))) {
        Ok(m) => name_tokens(block_name_list(m.capabilities)),
        Err(_) => seq![],
    }) + (match xml_document_nodes(xml) {
        Some(ns) => category_tokens(ns),
        None => seq![],
    })
}

/// The capability id the matrix assesses a manifest token under, for the tokens it maps.
pub open spec fn handled_id(token: Seq<char>) -> Option<Seq<char>> {
    if token == "extension:windows.shareTarget"@ {
        Some("uwp.share_target"@)
    } else if token == "extension:windows.backgroundTasks"@ {
        Some("uwp.background_tasks"@)
    } else if token == "extension:windows.protocol"@ {
        Some("uwp.protocol_activation"@)
    } else {
        None
    }
}

/// A token counts as assessed when it maps to a capability id that the profile produced.
pub open spec fn assessed(token: Seq<char>, matched: Seq<Seq<char>>) -> bool {
    match handled_id(token) {
        Some(id) => matched.contains(id),
        None => false,
    }
}

/// The declared surface the matrix did not assess.
pub open spec fn unmatched_set(xml: Seq<char>, matched: Seq<Seq<char>>) -> Set<Seq<char>> {
    declared_surface(xml).to_set().filter(|t: Seq<char>| !assessed(t, matched))
}

fn handled_id_of(token: &str) -> (r: Option<&'static str>)
    ensures
        r matches Some(id) ==> handled_id(token@) == Some(id@),
        r is None ==> handled_id(token@) is None,
{
    if str_eq(token, "extension:windows.shareTarget") {
        Some("uwp.share_target")
    } else if str_eq(token, "extension:windows.backgroundTasks") {
        Some("uwp.background_tasks")
    } else if str_eq(token, "extension:windows.protocol") {
        Some("uwp.protocol_activation")
    } else {
        None
    }
}

fn is_assessed(token: &str, matched: &Vec<String>) -> (r: bool)
    ensures
        r == assessed(token@, strs(matched@)),
{
    match handled_id_of(token) {
        None => false,
        Some(id) => {
            let ghost ms = strs(matched@);
            assert(handled_id(token@) == Some(id@));
            let mut i: usize = 0;
            while i < matched.len()
                invariant
                    ms == strs(matched@),
                    handled_id(token@) == Some(id@),
                    i <= matched@.len(),
                    forall|k: int| 0 <= k < i ==> ms[k] != id@,
                decreases matched@.len() - i,
            {
                if str_eq(matched[i].as_str(), id) {
                    assert(ms[i as int] == id@);
                    assert(ms.contains(id@));
                    return true;
                }
                i = i + 1;
            }
            assert(!ms.contains(id@));
            false
        },
    }
}

/// The `capability:` tokens of `names`, sorted, each once.
fn capability_tokens(names: &Vec<String>) -> (found: Vec<String>)
    ensures
        strictly_sorted(strs(found@)),
        strs(found@).to_set() == name_tokens(strs(names@)).to_set(),
{
    let ghost nl = strs(names@);
    let mut found: Vec<String> = Vec::new();
    assert(strs(found@).to_set() =~= name_tokens(nl.take(0)).to_set());
    let mut i: usize = 0;
    while i < names.len()
        invariant
            nl == strs(names@),
            i <= names@.len(),
            strictly_sorted(strs(found@)),
            strs(found@).to_set() == name_tokens(nl.take(i as int)).to_set(),
        decreases names@.len() - i,
    {
        assert(nl.take(i + 1).drop_last() =~= nl.take(i as int));
        assert(nl.take(i + 1).last() == names@[i as int]@);
        let t = trim_str(names[i].as_str());
        if t.unicode_len() > 0 {
            let mut tok = String::new();
            push_str(&mut tok, "capability:");
            push_str(&mut tok, t.as_str());
            proof {
                lemma_push_to_set(name_tokens(nl.take(i as int)), tok@);
            }
            insert_sorted(&mut found, tok);
        }
        i = i + 1;
    }
    assert(nl.take(names@.len() as int) =~= nl);
    found
}

/// Adds the `extension:` tokens of `nodes` to the sorted `found`, which holds `base`.
fn add_category_tokens(found: &mut Vec<String>, nodes: &Vec<XmlNode>, Ghost(base): Ghost<Seq<Seq<char>>>)
    requires
        strictly_sorted(strs(old(found)@)),
        strs(old(found)@).to_set() == base.to_set(),
    ensures
        strictly_sorted(strs(final(found)@)),
        strs(final(found)@).to_set() == (base + category_tokens(nodes_view(nodes@))).to_set(),
{
    let ghost nv = nodes_view(nodes@);
    assert(base + category_tokens(nv.take(0)) =~= base);
    let mut j: usize = 0;
    while j < nodes.len()
        invariant
            nv == nodes_view(nodes@),
            j <= nodes@.len(),
            strictly_sorted(strs(found@)),
            strs(found@).to_set() == (base + category_tokens(nv.take(j as int))).to_set(),
        decreases nodes@.len() - j,
    {
        assert(nv.take(j + 1).drop_last() =~= nv.take(j as int));
        assert(nv.take(j + 1).last() == nodes@[j as int]@);
        match find_attr(&nodes[j], "Category", false) {
            Some(cat) => {
                let mut tok = String::new();
                push_str(&mut tok, "extension:");
                push_str(&mut tok, cat);
                proof {
                    let prev = base + category_tokens(nv.take(j as int));
                    lemma_push_to_set(prev, tok@);
                    assert(prev.push(tok@) =~= base + category_tokens(nv.take(j + 1)));
                }
                insert_sorted(found, tok);
            },
            None => {
                assert(base + category_tokens(nv.take(j as int)) =~= base + category_tokens(
                    nv.take(j + 1),
                ));
            },
        }
        j = j + 1;
    }
    assert(nv.take(nodes@.len() as int) =~= nv);
}

/// The tokens of the sorted `found` that the matrix did not assess, still sorted.
fn drop_assessed(found: &Vec<String>, matched: &Vec<String>) -> (out: Vec<String>)
    requires
        strictly_sorted(strs(found@)),
    ensures
        strictly_sorted(strs(out@)),
        strs(out@).to_set() == strs(found@).to_set().filter(
            |t: Seq<char>| !assessed(t, strs(matched@)),
        ),
{
    let ghost fs = strs(found@);
    let ghost keep = |t: Seq<char>| !assessed(t, strs(matched@));
    let mut out: Vec<String> = Vec::new();
    assert(strs(out@).to_set() =~= fs.take(0).to_set().filter(keep));
    let mut k: usize = 0;
    while k < found.len()
        invariant
            fs == strs(found@),
            strictly_sorted(fs),
            keep == (|t: Seq<char>| !assessed(t, strs(matched@))),
            k <= found@.len(),
            strictly_sorted(strs(out@)),
            strs(out@).to_set() == fs.take(k as int).to_set().filter(keep),
            forall|a: int|
                0 <= a < strs(out@).len() ==> fs.take(k as int).contains(#[trigger] strs(out@)[a]),
        decreases found@.len() - k,
    {
        let ghost before = strs(out@);
        assert(fs.take(k + 1) =~= fs.take(k as int).push(fs[k as int]));
        proof {
            lemma_push_to_set(fs.take(k as int), fs[k as int]);
        }
        if !is_assessed(found[k].as_str(), matched) {
            out.push(found[k].clone());
            proof {
                let now = strs(out@);
                assert(now =~= before.push(fs[k as int]));
                lemma_push_to_set(before, fs[k as int]);
                assert(now.to_set() =~= fs.take(k + 1).to_set().filter(keep));
                assert forall|a: int, b: int| 0 <= a < b < now.len() implies lex_lt(
                    #[trigger] now[a],
                    #[trigger] now[b],
                ) by {
                    if b == now.len() - 1 {
                        let w = choose|w: int| 0 <= w < k && fs.take(k as int)[w] == before[a];
                        assert(fs[w] == now[a]);
                    }
                }
                assert forall|a: int| 0 <= a < now.len() implies fs.take(k + 1).contains(
                    #[trigger] now[a],
                ) by {
                    if a < before.len() {
                        let w = choose|w: int| 0 <= w < k && fs.take(k as int)[w] == before[a];
                        assert(fs.take(k + 1)[w] == now[a]);
                    } else {
                        assert(fs.take(k + 1)[k as int] == now[a]);
                    }
                }
            }
        } else {
            proof {
                assert(strs(out@).to_set() =~= fs.take(k + 1).to_set().filter(keep));
                assert forall|a: int| 0 <= a < strs(out@).len() implies fs.take(k + 1).contains(
                    #[trigger] strs(out@)[a],
                ) by {
                    let w = choose|w: int| 0 <= w < k && fs.take(k as int)[w] == strs(out@)[a];
                    assert(fs.take(k + 1)[w] == strs(out@)[a]);
                }
            }
        }
        k = k + 1;
    }
    assert(fs.take(found@.len() as int) =~= fs);
    out
}

/// Extension categories and capabilities the matrix has no row for.
///
/// Every capability name of the structured manifest parse and every extension `Category` of the
/// XML tree is a token (`capability:<name>`, `extension:<category>`); tokens that the matrix
/// assesses (share target, background tasks, protocol activation) count as covered only when
/// the profile actually produced their id. The rest come back sorted, each once: they were
/// never assessed, so they are coverage gaps, not clean results.
pub fn unmatched_uwp_surface(xml: &str, matched: &Vec<String>) -> (r: Vec<String>)
    ensures
        strictly_sorted(strs(r@)),
        strs(r@).to_set() == unmatched_set(xml@, strs(matched@)),
{
    let (mut found, Ghost(base)) = match crate::msix::parse_appx_manifest(xml.as_bytes()) {
        Ok(m) => {
            let names = block_names(&m.capabilities);
            (capability_tokens(&names), Ghost(name_tokens(block_name_list(m@.capabilities))))
        },
        Err(_) => {
            let v: Vec<String> = Vec::new();
            assert(strs(v@).to_set() =~= Seq::<Seq<char>>::empty().to_set());
            (v, Ghost(Seq::<Seq<char>>::empty()))
        },
    };
    let ghost cats: Seq<Seq<char>> = seq![];
    match parse_xml_nodes(xml) {
        Some(nodes) => {
            add_category_tokens(&mut found, &nodes, Ghost(base));
            proof {
                cats = category_tokens(nodes_view(nodes@));
            }
        },
        None => {
            assert(base + cats =~= base);
        },
    }
    assert(base + cats =~= declared_surface(xml@));
    drop_assessed(&found, matched)
}

/// The unmatched surface as [`unmatched_uwp_surface`] returns it: the strictly increasing
/// sequence of [`unmatched_set`].
pub open spec fn unmatched_list(xml: Seq<char>, matched: Seq<Seq<char>>) -> Seq<Seq<char>> {
    choose|u: Seq<Seq<char>>| strictly_sorted(u) && u.to_set() == unmatched_set(xml, matched)
}

proof fn lemma_unmatched_list(xml: Seq<char>, matched: Seq<Seq<char>>, u: Seq<Seq<char>>)
    requires
        strictly_sorted(u),
        u.to_set() == unmatched_set(xml, matched),
    ensures
        unmatched_list(xml, matched) == u,
{
    let c = unmatched_list(xml, matched);
    lemma_sorted_set_unique(c, u);
}

proof fn lemma_prefixed(p: Seq<char>, t: Seq<char>)
    ensures
        p.is_prefix_of(p + t),
{
    assert((p + t).subrange(0, p.len() as int) =~= p);
}

proof fn lemma_name_tokens_prefixed(names: Seq<Seq<char>>)
    ensures
        forall|i: int| 0 <= i < name_tokens(names).len() ==> "capability:"@.is_prefix_of(
            #[trigger] name_tokens(names)[i],
        ),
    decreases names.len(),
{
    if names.len() > 0 {
        lemma_name_tokens_prefixed(names.drop_last());
        lemma_prefixed("capability:"@, trim_seq(names.last()));
        let rest = name_tokens(names.drop_last());
        let t = name_tokens(names);
        assert forall|i: int| 0 <= i < t.len() implies "capability:"@.is_prefix_of(#[trigger] t[i]) by {
            if i < rest.len() {
                assert(t[i] == rest[i]);
            }
        }
    }
}

proof fn lemma_category_tokens_prefixed(ns: Seq<XmlNodeView>)
    ensures
        forall|i: int| 0 <= i < category_tokens(ns).len() ==> "extension:"@.is_prefix_of(
            #[trigger] category_tokens(ns)[i],
        ),
    decreases ns.len(),
{
    if ns.len() > 0 {
        lemma_category_tokens_prefixed(ns.drop_last());
        match attr_lookup(ns.last().attrs, "Category"@, false) {
            Some(v) => lemma_prefixed("extension:"@, v),
            None => {},
        }
        let rest = category_tokens(ns.drop_last());
        let t = category_tokens(ns);
        assert forall|i: int| 0 <= i < t.len() implies "extension:"@.is_prefix_of(#[trigger] t[i]) by {
            if i < rest.len() {
                assert(t[i] == rest[i]);
            }
        }
    }
}

/// The unmatched surface is made of `capability:` and `extension:` tokens; matching more ids
/// only ever removes tokens from it; and a declared protocol extension is left out exactly
/// when protocol activation was matched.
pub proof fn law_unmatched_surface(xml: Seq<char>, matched: Seq<Seq<char>>, more: Seq<Seq<char>>)
    requires
        forall|id: Seq<char>| matched.contains(id) ==> more.contains(id),
    ensures
        forall|t: Seq<char>|
            #[trigger] unmatched_set(xml, matched).contains(t) ==> "capability:"@.is_prefix_of(t)
                || "extension:"@.is_prefix_of(t),
        unmatched_set(xml, more).subset_of(unmatched_set(xml, matched)),
        declared_surface(xml).contains("extension:windows.protocol"@) ==> (unmatched_set(
            xml,
            matched,
        ).contains("extension:windows.protocol"@) <==> !matched.contains("uwp.protocol_activation"@)),
{
    let d = declared_surface(xml);
    let names = match manifest_of(xml_event_stream(vstd::utf8::encode_utf8(xml))) {
        Ok(m) => name_tokens(block_name_list(m.capabilities)),
        Err(_) => seq![],
    };
    let cats = match xml_document_nodes(xml) {
        Some(ns) => category_tokens(ns),
        None => seq![],
    };
    assert(d == names + cats);
    match manifest_of(xml_event_stream(vstd::utf8::encode_utf8(xml))) {
        Ok(m) => lemma_name_tokens_prefixed(block_name_list(m.capabilities)),
        Err(_) => {},
    }
    match xml_document_nodes(xml) {
        Some(ns) => lemma_category_tokens_prefixed(ns),
        None => {},
    }
    assert forall|t: Seq<char>|
        #[trigger] unmatched_set(xml, matched).contains(t) implies "capability:"@.is_prefix_of(t)
            || "extension:"@.is_prefix_of(t) by {
        assert(d.to_set().contains(t));
        let k = choose|k: int| 0 <= k < d.len() && d[k] == t;
        if k < names.len() {
            assert(names[k] == t);
        } else {
            assert(cats[k - names.len()] == t);
        }
    }
    assert forall|t: Seq<char>| unmatched_set(xml, more).contains(t) implies unmatched_set(
        xml,
        matched,
    ).contains(t) by {
        if assessed(t, matched) {
            assert(more.contains(handled_id(t)->0));
        }
    }
    reveal_strlit("extension:windows.protocol");
    reveal_strlit("extension:windows.shareTarget");
    reveal_strlit("extension:windows.backgroundTasks");
    assert("extension:windows.protocol"@.len() != "extension:windows.shareTarget"@.len());
    assert("extension:windows.protocol"@.len() != "extension:windows.backgroundTasks"@.len());
    assert(handled_id("extension:windows.protocol"@) == Some("uwp.protocol_activation"@));
}

/// Bridge scaffolding generated for an analysis: the Rust source and its dependency lines.
#[derive(Debug, Clone)]
pub struct ScaffoldOutput {
    pub rust: String,
    pub cargo_deps: Vec<String>,
}

/// A sidecar migration kit generated for an app's native Node modules.
#[derive(Debug, Clone)]
pub struct SidecarKit {
    pub cargo_toml: String,
    pub main_rs: String,
    pub client_rs: String,
    pub migration_md: String,
    pub tauri_conf_snippet: String,
}

/// Everything the UWP flow needs, already read from disk by the caller.
#[derive(Debug, Clone)]
pub struct UwpInput {
    pub app_name: String,
    pub manifest_xml: String,
}

/// Everything the Electron flow needs, already read from disk by the caller.
#[derive(Debug, Clone)]
pub struct ElectronInput {
    pub app_name: String,
    pub package_json: String,
    /// Concatenated main-process sources, and how many files produced them.
    pub main_source: String,
    pub file_count: usize,
    /// Set when the main process is packed in an asar and could not be read.
    pub packed_asar: Option<String>,
}

pub open spec fn step(name: Seq<char>, status: StatusView) -> StepView {
    StepView { name, status }
}

pub open spec fn or_question(s: Seq<char>) -> Seq<char> {
    if s.len() == 0 {
        "?"@
    } else {
        s
    }
}

/// The `parse-manifest` step: the identity of the structured parse, or why it failed.
pub open spec fn parse_step(xml: Seq<char>) -> StepView {
    match manifest_of(xml_event_stream(vstd::utf8::encode_utf8(xml))) {
        Ok(m) => step(
            "parse-manifest"@,
            StatusView::Completed(
                or_question(m.identity.name) + " "@ + m.identity.version + " (publisher "@
                    + or_question(m.identity.publisher) + ")"@,
            ),
        ),
        Err(e) => step("parse-manifest"@, StatusView::Blocked("unreadable manifest: "@ + e)),
    }
}

pub open spec fn gap_lines(gs: Seq<GapView>) -> Seq<char>
    decreases gs.len(),
{
    if gs.len() == 0 {
        seq![]
    } else {
        let g = gs.last();
        gap_lines(gs.drop_last()) + "- "@ + g.name + " ("@ + g.id + "): "@ + path_debug(g.tauri_path)
            + "\n"@
    }
}

/// The matched-capabilities list of a report: one line per gap, or `_None._`.
pub open spec fn matched_text(a: AnalysisView) -> Seq<char> {
    if a.gaps.len() == 0 {
        "_None._\n"@
    } else {
        gap_lines(a.gaps)
    }
}

pub open spec fn plain_bullets(ns: Seq<Seq<char>>) -> Seq<char>
    decreases ns.len(),
{
    if ns.len() == 0 {
        seq![]
    } else {
        plain_bullets(ns.drop_last()) + "- "@ + ns.last() + "\n"@
    }
}

pub open spec fn pwa_intro() -> Seq<char> {
    "## Port\n\nThis package is a **hosted PWA**: it ships no executable and asks Edge to render a URL. Edge and WebView2 are both Chromium, so the port loads the same URL.\n\n"@
}

/// The hosted-PWA branch of the UWP flow: its steps, the Tauri project files, and its part of
/// the report body.
pub open spec fn pwa_part(app: PwaView) -> (Seq<StepView>, Seq<(Seq<char>, Seq<char>)>, Seq<char>) {
    let port = port_of(app);
    (
        seq![
            step("classify"@, StatusView::Completed("hosted PWA — no executable; hosts "@ + app.start_url)),
            step("port"@, StatusView::Completed("Tauri project emitted ("@ + dec(port.not_ported.len()) + " caveats)"@)),
            step("scaffold-bridge"@, StatusView::Skipped("not applicable: a hosted PWA has no native capabilities to bridge"@)),
        ],
        seq![
            ("src-tauri/Cargo.toml"@, port.cargo_toml),
            ("src-tauri/build.rs"@, port.build_rs),
            ("src-tauri/tauri.conf.json"@, port.tauri_conf),
            ("src-tauri/src/main.rs"@, port.main_rs),
            ("MIGRATION.md"@, port.migration_md),
        ],
        pwa_intro() + "- Start URL: `"@ + app.start_url + "`\n"@ + "\n### Not carried over\n\n"@
            + plain_bullets(port.not_ported),
    )
}

/// The plain content of a [`ScaffoldOutput`].
pub open spec fn bridge_files(b: ScaffoldOutput) -> Seq<(Seq<char>, Seq<char>)> {
    seq![
        ("bridge/bridge.rs"@, b.rust@),
        ("bridge/deps.txt"@, join_seqs(b.cargo_deps@.map_values(|d: String| d@), "\n"@)),
    ]
}

/// The native branch of the UWP flow: no port, the bridge scaffolding for the analysis' gaps.
pub open spec fn native_part(a: AnalysisView, b: ScaffoldOutput) -> (Seq<StepView>, Seq<(Seq<char>, Seq<char>)>, Seq<char>) {
    (
        seq![
            step("classify"@, StatusView::Completed("conventional UWP package (renders native XAML)"@)),
            step("port"@, StatusView::Skipped("no mechanical port exists from native XAML to HTML — analyzed instead"@)),
            step("scaffold-bridge"@, StatusView::Completed(dec(a.gaps.len()) + " gap(s) wired"@)),
        ],
        bridge_files(b),
        seq![],
    )
}

/// The `coverage-check` step for `n` unassessed items.
pub open spec fn coverage_step(n: nat) -> StepView {
    if n == 0 {
        step("coverage-check"@, StatusView::Completed("no declared surface outside the matrix"@))
    } else {
        step("coverage-check"@, StatusView::Blocked(dec(n) + " declared item(s) have no matrix row"@))
    }
}

/// The UWP flow for a manifest: parse, classify (hosted PWA or native XAML), port or scaffold,
/// then the coverage check, with the report.
pub open spec fn uwp_flow(caps: Seq<Capability>, name: Seq<char>, xml: Seq<char>, b: ScaffoldOutput) -> FlowView {
    let ids = appx_profile_ids(xml);
    let a = analysis_of(caps, ids);
    let u = unmatched_list(xml, ids);
    let part = match pwa_of_xml(xml) {
        Some(app) => pwa_part(app),
        None => native_part(a, b),
    };
    let steps = seq![parse_step(xml)] + part.0 + seq![coverage_step(u.len())];
    let body = part.2 + "\n## Capabilities matched\n\n"@ + matched_text(a) + "\n"@ + divergence_report(a)
        + "\n"@ + unmatched_text(u);
    FlowView {
        kind: "uwp"@,
        app_name: name,
        steps,
        artifacts: part.1,
        report_md: report_text("UWP"@, name, steps, body),
    }
}

fn parse_manifest_step(xml: &str) -> (st: Step)
    ensures
        st@ == parse_step(xml@),
{
    match crate::msix::parse_appx_manifest(xml.as_bytes()) {
        Ok(m) => {
            let mut d = String::new();
            if m.identity.name.unicode_len() == 0 {
                push_str(&mut d, "?");
            } else {
                push_str(&mut d, m.identity.name.as_str());
            }
            push_str(&mut d, " ");
            push_str(&mut d, m.identity.version.as_str());
            push_str(&mut d, " (publisher ");
            if m.identity.publisher.unicode_len() == 0 {
                push_str(&mut d, "?");
            } else {
                push_str(&mut d, m.identity.publisher.as_str());
            }
            push_str(&mut d, ")");
            assert(d@ =~= or_question(m@.identity.name) + " "@ + m@.identity.version + " (publisher "@
                + or_question(m@.identity.publisher) + ")"@);
            ok_step("parse-manifest", d)
        },
        Err(e) => {
            let mut d = String::new();
            push_str(&mut d, "unreadable manifest: ");
            push_str(&mut d, e.as_str());
            blocked_step("parse-manifest", d)
        },
    }
}

/// The matched-capabilities list of an analysis.
fn matched_list(a: &Analysis) -> (s: String)
    ensures
        s@ == matched_text(a@),
{
    let mut s = String::new();
    if a.gaps.len() == 0 {
        push_str(&mut s, "_None._\n");
        return s;
    }
    let ghost gs = a@.gaps;
    let mut i: usize = 0;
    while i < a.gaps.len()
        invariant
            gs == a@.gaps,
            i <= a.gaps@.len(),
            s@ == gap_lines(gs.take(i as int)),
        decreases a.gaps@.len() - i,
    {
        let g = &a.gaps[i];
        push_str(&mut s, "- ");
        push_str(&mut s, g.name.as_str());
        push_str(&mut s, " (");
        push_str(&mut s, g.id.as_str());
        push_str(&mut s, "): ");
        push_str(&mut s, path_name(g.tauri_path));
        push_str(&mut s, "\n");
        assert(gs.take(i + 1).drop_last() =~= gs.take(i as int));
        assert(gs.take(i + 1).last() == g@);
        i = i + 1;
    }
    assert(gs.take(a.gaps@.len() as int) =~= gs);
    s
}

fn push_artifact(v: &mut Vec<Artifact>, path: &str, contents: String)
    ensures
        artifacts_view(final(v)@) == artifacts_view(old(v)@).push((path@, contents@)),
{
    v.push(Artifact { path: path.to_string(), contents });
    assert(artifacts_view(v@) =~= artifacts_view(old(v)@).push((path@, contents@)));
}

fn push_step(v: &mut Vec<Step>, s: Step)
    ensures
        steps_view(final(v)@) == steps_view(old(v)@).push(s@),
{
    let ghost sv = s@;
    v.push(s);
    assert(steps_view(v@) =~= steps_view(old(v)@).push(sv));
}

fn bullets_of(ns: &Vec<String>) -> (s: String)
    ensures
        s@ == plain_bullets(ns@.map_values(|n: String| n@)),
{
    let ghost all = ns@.map_values(|n: String| n@);
    let mut s = String::new();
    let mut i: usize = 0;
    while i < ns.len()
        invariant
            all == ns@.map_values(|n: String| n@),
            i <= ns@.len(),
            s@ == plain_bullets(all.take(i as int)),
        decreases ns@.len() - i,
    {
        push_str(&mut s, "- ");
        push_str(&mut s, ns[i].as_str());
        push_str(&mut s, "\n");
        assert(all.take(i + 1).drop_last() =~= all.take(i as int));
        i = i + 1;
    }
    assert(all.take(ns@.len() as int) =~= all);
    s
}

/// Steps, files and body text of the hosted-PWA branch.
fn run_pwa_part(app: &PwaApp, steps: &mut Vec<Step>, artifacts: &mut Vec<Artifact>) -> (body: String)
    ensures
        steps_view(final(steps)@) == steps_view(old(steps)@) + pwa_part(app@).0,
        artifacts_view(final(artifacts)@) == artifacts_view(old(artifacts)@) + pwa_part(app@).1,
        body@ == pwa_part(app@).2,
{
    let ghost s0 = steps_view(steps@);
    let ghost a0 = artifacts_view(artifacts@);
    let mut d = String::new();
    push_str(&mut d, "hosted PWA — no executable; hosts ");
    push_str(&mut d, app.start_url.as_str());
    push_step(steps, ok_step("classify", d));
    let port = port_pwa_to_tauri(app);
    push_artifact(artifacts, "src-tauri/Cargo.toml", port.cargo_toml.clone());
    push_artifact(artifacts, "src-tauri/build.rs", port.build_rs.clone());
    push_artifact(artifacts, "src-tauri/tauri.conf.json", port.tauri_conf.clone());
    push_artifact(artifacts, "src-tauri/src/main.rs", port.main_rs.clone());
    push_artifact(artifacts, "MIGRATION.md", port.migration_md.clone());
    let mut d2 = String::new();
    push_str(&mut d2, "Tauri project emitted (");
    push_dec(&mut d2, port.not_ported.len() as u64);
    push_str(&mut d2, " caveats)");
    push_step(steps, ok_step("port", d2));
    push_step(steps, skipped_step(
        "scaffold-bridge",
        "not applicable: a hosted PWA has no native capabilities to bridge".to_string(),
    ));
    let mut body = String::new();
    push_str(&mut body,
        "## Port\n\nThis package is a **hosted PWA**: it ships no executable and asks Edge to render a URL. Edge and WebView2 are both Chromium, so the port loads the same URL.\n\n");
    push_str(&mut body, "- Start URL: `");
    push_str(&mut body, app.start_url.as_str());
    push_str(&mut body, "`\n");
    push_str(&mut body, "\n### Not carried over\n\n");
    let bl = bullets_of(&port.not_ported);
    push_str(&mut body, bl.as_str());
    assert(steps_view(steps@) =~= s0 + pwa_part(app@).0);
    assert(artifacts_view(artifacts@) =~= a0 + pwa_part(app@).1);
    assert(body@ =~= pwa_part(app@).2);
    body
}

/// Steps and files of the native branch.
fn run_native_part(a: &Analysis, bridge: &ScaffoldOutput, steps: &mut Vec<Step>, artifacts: &mut Vec<Artifact>)
    ensures
        steps_view(final(steps)@) == steps_view(old(steps)@) + native_part(a@, *bridge).0,
        artifacts_view(final(artifacts)@) == artifacts_view(old(artifacts)@) + native_part(a@, *bridge).1,
{
    let ghost s0 = steps_view(steps@);
    let ghost a0 = artifacts_view(artifacts@);
    push_step(steps, ok_step("classify", "conventional UWP package (renders native XAML)".to_string()));
    push_step(steps, skipped_step(
        "port",
        "no mechanical port exists from native XAML to HTML — analyzed instead".to_string(),
    ));
    push_bridge(a, bridge, steps, artifacts);
    assert(steps_view(steps@) =~= s0 + native_part(a@, *bridge).0);
    assert(artifacts_view(artifacts@) =~= a0 + native_part(a@, *bridge).1);
}

/// The bridge files and the `scaffold-bridge` step.
fn push_bridge(a: &Analysis, bridge: &ScaffoldOutput, steps: &mut Vec<Step>, artifacts: &mut Vec<Artifact>)
    ensures
        steps_view(final(steps)@) == steps_view(old(steps)@).push(
            step("scaffold-bridge"@, StatusView::Completed(dec(a@.gaps.len()) + " gap(s) wired"@)),
        ),
        artifacts_view(final(artifacts)@) == artifacts_view(old(artifacts)@) + bridge_files(*bridge),
{
    let ghost a0 = artifacts_view(artifacts@);
    push_artifact(artifacts, "bridge/bridge.rs", bridge.rust.clone());
    push_artifact(artifacts, "bridge/deps.txt", join_strings(&bridge.cargo_deps, "\n"));
    let mut d = String::new();
    push_dec(&mut d, a.gaps.len() as u64);
    push_str(&mut d, " gap(s) wired");
    assert(a@.gaps.len() == a.gaps@.len());
    push_step(steps, ok_step("scaffold-bridge", d));
    assert(artifacts_view(artifacts@) =~= a0 + bridge_files(*bridge));
}

/// The UWP flow: classify (hosted PWA vs native), then either port or analyze, and always
/// report coverage honestly. A hosted PWA is ported to a Tauri project and needs no bridge; a
/// native package is never ported, and `bridge` (the scaffolding generated for the analysis of
/// its capability profile) is emitted instead.
pub fn run_uwp_flow(matrix: &Matrix, input: &UwpInput, bridge: &ScaffoldOutput) -> (r: FlowResult)
    ensures
        r@ == uwp_flow(matrix.capabilities@, input.app_name@, input.manifest_xml@, *bridge),
{
    let ghost xml = input.manifest_xml@;
    let mut steps: Vec<Step> = Vec::new();
    let mut artifacts: Vec<Artifact> = Vec::new();
    push_step(&mut steps, parse_manifest_step(input.manifest_xml.as_str()));
    let pwa = detect_pwa(input.manifest_xml.as_str());
    let profile = parse_appx_manifest(input.manifest_xml.as_str());
    let analysis = analyze(matrix, &profile);
    let ghost ids = appx_profile_ids(xml);
    let ghost av = analysis_of(matrix.capabilities@, ids);
    assert(analysis@ == av);
    let ghost part = match pwa_of_xml(xml) {
        Some(app) => pwa_part(app),
        None => native_part(av, *bridge),
    };
    let ghost s1 = steps_view(steps@);
    assert(s1 =~= seq![parse_step(xml)]);
    assert(artifacts_view(artifacts@) =~= Seq::<(Seq<char>, Seq<char>)>::empty());
    let mut body = match &pwa {
        Some(app) => run_pwa_part(app, &mut steps, &mut artifacts),
        None => {
            run_native_part(&analysis, bridge, &mut steps, &mut artifacts);
            String::new()
        },
    };
    assert(steps_view(steps@) =~= s1 + part.0);
    assert(artifacts_view(artifacts@) =~= part.1);
    assert(body@ =~= part.2);
    let unmatched = unmatched_uwp_surface(input.manifest_xml.as_str(), &profile.capabilities);
    let ghost u = unmatched_list(xml, ids);
    proof {
        lemma_unmatched_list(xml, ids, strs(unmatched@));
    }
    let ghost s2 = steps_view(steps@);
    if unmatched.len() == 0 {
        push_step(&mut steps, ok_step("coverage-check", "no declared surface outside the matrix".to_string()));
    } else {
        let mut d = String::new();
        push_dec(&mut d, unmatched.len() as u64);
        push_str(&mut d, " declared item(s) have no matrix row");
        push_step(&mut steps, blocked_step("coverage-check", d));
    }
    assert(steps_view(steps@) =~= s2.push(coverage_step(u.len())));
    let ghost sv = steps_view(steps@);
    assert(sv =~= seq![parse_step(xml)] + part.0 + seq![coverage_step(u.len())]);
    let ghost b0 = body@;
    push_str(&mut body, "\n## Capabilities matched\n\n");
    let ml = matched_list(&analysis);
    push_str(&mut body, ml.as_str());
    push_str(&mut body, "\n");
    let dv = render_divergence(&analysis);
    push_str(&mut body, dv.as_str());
    push_str(&mut body, "\n");
    let us = unmatched_section(&unmatched);
    assert(strs(unmatched@) == unmatched@.map_values(|x: String| x@));
    push_str(&mut body, us.as_str());
    let ghost bv = part.2 + "\n## Capabilities matched\n\n"@ + matched_text(av) + "\n"@ + divergence_report(av)
        + "\n"@ + unmatched_text(u);
    assert(body@ =~= bv);
    let report_md = render_report_md("UWP", input.app_name.as_str(), &steps, body.as_str());
    let r = FlowResult {
        kind: "uwp",
        app_name: input.app_name.clone(),
        steps,
        artifacts,
        report_md,
    };
    assert(r@.steps == sv);
    assert(r@.report_md == report_text("UWP"@, input.app_name@, sv, bv));
    r
}

/// The `read-main-process` step: can the main process be read at all?
pub open spec fn read_step(packed_asar: Option<Seq<char>>, file_count: nat) -> StepView {
    match packed_asar {
        Some(p) => step(
            "read-main-process"@,
            StatusView::Blocked(
                "packed in "@ + p
                    + " — unpack it first; every capability result below is from package.json alone"@,
            ),
        ),
        None => if file_count == 0 {
            step("read-main-process"@, StatusView::Blocked("no JS/TS sources found"@))
        } else {
            step("read-main-process"@, StatusView::Completed(dec(file_count) + " source file(s)"@))
        },
    }
}

/// The `bundling-check` step.
pub open spec fn bundling_step(source: Seq<char>) -> StepView {
    match bundled_note(source) {
        Some(why) => step(
            "bundling-check"@,
            StatusView::Blocked(why + "; textual API detection is unreliable here"@),
        ),
        None => step("bundling-check"@, StatusView::Completed("sources look unbundled"@)),
    }
}

/// The plain content of a [`SidecarKit`], as the files it becomes.
pub open spec fn sidecar_files(k: SidecarKit) -> Seq<(Seq<char>, Seq<char>)> {
    seq![
        ("sidecar/sidecar/Cargo.toml"@, k.cargo_toml@),
        ("sidecar/sidecar/src/main.rs"@, k.main_rs@),
        ("sidecar/sidecar_client.rs"@, k.client_rs@),
        ("sidecar/MIGRATION.md"@, k.migration_md@),
        ("sidecar/tauri.conf.snippet.json"@, k.tauri_conf_snippet@),
    ]
}

/// The `sidecar` step and files for `n` native modules.
pub open spec fn sidecar_part(n: nat, k: SidecarKit) -> (StepView, Seq<(Seq<char>, Seq<char>)>) {
    if n == 0 {
        (step("sidecar"@, StatusView::Skipped("no native Node modules in dependencies"@)), seq![])
    } else {
        (step("sidecar"@, StatusView::Completed(dec(n) + " native module(s)"@)), sidecar_files(k))
    }
}

pub open spec fn coverage_caveat() -> Seq<char> {
    "\n## Coverage caveat\n\nElectron detection is textual: it matches API identifiers in the main-process sources. Dynamically-built or aliased requires are not detected, and a bundled main process can defeat it entirely. Treat the list above as a floor, not a total.\n"@
}

/// The Electron flow for one app: read check, bundling check, capability detection, the
/// sidecar kit for its native modules, the bridge scaffolding, and the report.
pub open spec fn electron_flow(
    caps: Seq<Capability>,
    input: ElectronInput,
    b: ScaffoldOutput,
    native_modules: nat,
    k: SidecarKit,
) -> FlowView {
    let ids = electron_profile_ids(input.package_json@, input.main_source@);
    let a = analysis_of(caps, ids);
    let side = sidecar_part(native_modules, k);
    let steps = seq![
        read_step(opt_view(input.packed_asar), input.file_count as nat),
        bundling_step(input.main_source@),
        step("detect-capabilities"@, StatusView::Completed(dec(ids.len()) + " matched"@)),
        side.0,
        step("scaffold-bridge"@, StatusView::Completed(dec(a.gaps.len()) + " gap(s) wired"@)),
    ];
    let body = "## Capabilities matched\n\n"@ + matched_text(a) + "\n"@ + divergence_report(a) + "\n"@
        + coverage_caveat();
    FlowView {
        kind: "electron"@,
        app_name: input.app_name@,
        steps,
        artifacts: side.1 + bridge_files(b),
        report_md: report_text("Electron"@, input.app_name@, steps, body),
    }
}

fn read_main_step(input: &ElectronInput) -> (st: Step)
    ensures
        st@ == read_step(opt_view(input.packed_asar), input.file_count as nat),
{
    match &input.packed_asar {
        Some(asar) => {
            let mut d = String::new();
            push_str(&mut d, "packed in ");
            push_str(&mut d, asar.as_str());
            push_str(&mut d, " — unpack it first; every capability result below is from package.json alone");
            blocked_step("read-main-process", d)
        },
        None => {
            if input.file_count == 0 {
                blocked_step("read-main-process", "no JS/TS sources found".to_string())
            } else {
                let mut d = String::new();
                push_dec(&mut d, input.file_count as u64);
                push_str(&mut d, " source file(s)");
                ok_step("read-main-process", d)
            }
        },
    }
}

fn bundling_check_step(source: &str) -> (st: Step)
    ensures
        st@ == bundling_step(source@),
{
    match looks_bundled(source) {
        Some(why) => {
            let mut d = why;
            push_str(&mut d, "; textual API detection is unreliable here");
            blocked_step("bundling-check", d)
        },
        None => ok_step("bundling-check", "sources look unbundled".to_string()),
    }
}

/// The Electron flow: check the main process is readable and unbundled, detect capabilities,
/// then emit the sidecar kit (`kit`, generated for the app's `native_modules`, when there are
/// any) and the bridge scaffolding (`bridge`, generated for the analysis of the detected
/// profile).
pub fn run_electron_flow(
    matrix: &Matrix,
    input: &ElectronInput,
    bridge: &ScaffoldOutput,
    native_modules: &Vec<String>,
    kit: &SidecarKit,
) -> (r: FlowResult)
    ensures
        r@ == electron_flow(matrix.capabilities@, *input, *bridge, native_modules@.len(), *kit),
{
    let mut steps: Vec<Step> = Vec::new();
    let mut artifacts: Vec<Artifact> = Vec::new();
    push_step(&mut steps, read_main_step(input));
    push_step(&mut steps, bundling_check_step(input.main_source.as_str()));
    let profile = parse_electron(input.package_json.as_str(), input.main_source.as_str());
    let analysis = analyze(matrix, &profile);
    let ghost ids = electron_profile_ids(input.package_json@, input.main_source@);
    let ghost av = analysis_of(matrix.capabilities@, ids);
    assert(analysis@ == av);
    let mut d = String::new();
    push_dec(&mut d, profile.capabilities.len() as u64);
    push_str(&mut d, " matched");
    assert(ids.len() == profile.capabilities@.len());
    push_step(&mut steps, ok_step("detect-capabilities", d));
    if native_modules.len() == 0 {
        push_step(&mut steps, skipped_step("sidecar", "no native Node modules in dependencies".to_string()));
    } else {
        push_artifact(&mut artifacts, "sidecar/sidecar/Cargo.toml", kit.cargo_toml.clone());
        push_artifact(&mut artifacts, "sidecar/sidecar/src/main.rs", kit.main_rs.clone());
        push_artifact(&mut artifacts, "sidecar/sidecar_client.rs", kit.client_rs.clone());
        push_artifact(&mut artifacts, "sidecar/MIGRATION.md", kit.migration_md.clone());
        push_artifact(&mut artifacts, "sidecar/tauri.conf.snippet.json", kit.tauri_conf_snippet.clone());
        let mut d2 = String::new();
        push_dec(&mut d2, native_modules.len() as u64);
        push_str(&mut d2, " native module(s)");
        push_step(&mut steps, ok_step("sidecar", d2));
    }
    let ghost side = sidecar_part(native_modules@.len(), *kit);
    assert(artifacts_view(artifacts@) =~= side.1);
    push_bridge(&analysis, bridge, &mut steps, &mut artifacts);
    let ghost sv = steps_view(steps@);
    assert(sv =~= seq![
        read_step(opt_view(input.packed_asar), input.file_count as nat),
        bundling_step(input.main_source@),
        step("detect-capabilities"@, StatusView::Completed(dec(ids.len()) + " matched"@)),
        side.0,
        step("scaffold-bridge"@, StatusView::Completed(dec(av.gaps.len()) + " gap(s) wired"@)),
    ]);
    let mut body = String::new();
    push_str(&mut body, "## Capabilities matched\n\n");
    let ml = matched_list(&analysis);
    push_str(&mut body, ml.as_str());
    push_str(&mut body, "\n");
    let dv = render_divergence(&analysis);
    push_str(&mut body, dv.as_str());
    push_str(&mut body, "\n");
    push_str(&mut body,
        "\n## Coverage caveat\n\nElectron detection is textual: it matches API identifiers in the main-process sources. Dynamically-built or aliased requires are not detected, and a bundled main process can defeat it entirely. Treat the list above as a floor, not a total.\n");
    let ghost bv = "## Capabilities matched\n\n"@ + matched_text(av) + "\n"@ + divergence_report(av) + "\n"@
        + coverage_caveat();
    assert(body@ =~= bv);
    let report_md = render_report_md("Electron", input.app_name.as_str(), &steps, body.as_str());
    let r = FlowResult {
        kind: "electron",
        app_name: input.app_name.clone(),
        steps,
        artifacts,
        report_md,
    };
    assert(r@.steps == sv);
    assert(r@.artifacts =~= side.1 + bridge_files(*bridge));
    r
}

pub open spec fn step_names(steps: Seq<StepView>) -> Seq<Seq<char>> {
    steps.map_values(|st: StepView| st.name)
}

/// The UWP flow is deterministic in shape: whatever the manifest, its steps are
/// `parse-manifest`, `classify`, `port`, `scaffold-bridge`, `coverage-check`, in that order.
pub proof fn law_uwp_step_list_is_fixed(caps: Seq<Capability>, name: Seq<char>, xml: Seq<char>, b: ScaffoldOutput)
    ensures
        step_names(uwp_flow(caps, name, xml, b).steps) == seq![
            "parse-manifest"@,
            "classify"@,
            "port"@,
            "scaffold-bridge"@,
            "coverage-check"@,
        ],
{
    let f = uwp_flow(caps, name, xml, b);
    assert(step_names(f.steps) =~= seq![
        "parse-manifest"@,
        "classify"@,
        "port"@,
        "scaffold-bridge"@,
        "coverage-check"@,
    ]);
}

/// The Electron flow is deterministic in shape: whatever the input, its steps are
/// `read-main-process`, `bundling-check`, `detect-capabilities`, `sidecar`, `scaffold-bridge`.
pub proof fn law_electron_step_list_is_fixed(
    caps: Seq<Capability>,
    input: ElectronInput,
    b: ScaffoldOutput,
    n: nat,
    k: SidecarKit,
)
    ensures
        step_names(electron_flow(caps, input, b, n, k).steps) == seq![
            "read-main-process"@,
            "bundling-check"@,
            "detect-capabilities"@,
            "sidecar"@,
            "scaffold-bridge"@,
        ],
{
    let f = electron_flow(caps, input, b, n, k);
    assert(step_names(f.steps) =~= seq![
        "read-main-process"@,
        "bundling-check"@,
        "detect-capabilities"@,
        "sidecar"@,
        "scaffold-bridge"@,
    ]);
}

/// Only a hosted PWA is ported, and then nothing is bridged; a native package is never ported
/// and is bridged instead. The skipped step is reported, not omitted.
pub proof fn law_uwp_ports_or_bridges(caps: Seq<Capability>, name: Seq<char>, xml: Seq<char>, b: ScaffoldOutput)
    ensures
        ({
            let f = uwp_flow(caps, name, xml, b);
            &&& (pwa_of_xml(xml) is Some) <==> (f.steps[2].status is Completed)
            &&& (pwa_of_xml(xml) is Some) <==> (f.steps[3].status is Skipped)
            &&& (pwa_of_xml(xml) is None) ==> f.artifacts == bridge_files(b)
        }),
{
}

/// Declared surface the matrix did not assess always blocks the coverage check, and the
/// coverage check passes only when there is none.
pub proof fn law_unassessed_surface_blocks_coverage(caps: Seq<Capability>, name: Seq<char>, xml: Seq<char>, b: ScaffoldOutput)
    ensures
        ({
            let f = uwp_flow(caps, name, xml, b);
            (f.steps[4].status is Blocked) <==> unmatched_list(xml, appx_profile_ids(xml)).len() > 0
        }),
{
}

/// Every Electron report ends with the caveat that detection is textual.
pub proof fn law_electron_report_states_the_caveat(
    caps: Seq<Capability>,
    input: ElectronInput,
    b: ScaffoldOutput,
    n: nat,
    k: SidecarKit,
)
    ensures
        coverage_caveat().is_suffix_of(electron_flow(caps, input, b, n, k).report_md),
{
    let f = electron_flow(caps, input, b, n, k);
    let r = f.report_md;
    let c = coverage_caveat();
    assert(r.subrange(r.len() - c.len(), r.len() as int) =~= c);
}

proof fn lemma_occurs_mid(x: Seq<char>, d: Seq<char>, y: Seq<char>)
    ensures
        occurs_at(x + d + y, d, x.len() as int),
{
    assert((x + d + y).subrange(x.len() as int, (x.len() + d.len()) as int) =~= d);
}

proof fn lemma_occurs_within(s: Seq<char>, n: Seq<char>, i: int, big: Seq<char>, j: int)
    requires
        occurs_at(s, n, i),
        occurs_at(big, s, j),
    ensures
        occurs_at(big, n, i + j),
{
    assert forall|k: int| 0 <= k < n.len() implies big.subrange(i + j, i + j + n.len())[k] == n[k] by {
        assert(s.subrange(i, i + n.len())[k] == s[i + k]);
        assert(big.subrange(j, j + s.len())[i + k] == big[j + i + k]);
    }
    assert(big.subrange(i + j, i + j + n.len()) =~= n);
}

/// Whatever the manifest, the UWP flow's report carries the known-divergence report of the
/// analysis of the manifest's capabilities, and with it the WebView-engine divergence.
pub proof fn law_uwp_report_carries_the_divergences(
    caps: Seq<Capability>,
    name: Seq<char>,
    xml: Seq<char>,
    b: ScaffoldOutput,
)
    ensures
        exists|i: int|
            occurs_at(
                uwp_flow(caps, name, xml, b).report_md,
                divergence_report(analysis_of(caps, appx_profile_ids(xml))),
                i,
            ),
        exists|i: int| occurs_at(uwp_flow(caps, name, xml, b).report_md, div_line(engine_div()), i),
{
    let ids = appx_profile_ids(xml);
    let a = analysis_of(caps, ids);
    let u = unmatched_list(xml, ids);
    let part = match pwa_of_xml(xml) {
        Some(app) => pwa_part(app),
        None => native_part(a, b),
    };
    let steps = seq![parse_step(xml)] + part.0 + seq![coverage_step(u.len())];
    let d = divergence_report(a);
    let q = part.2 + "\n## Capabilities matched\n\n"@ + matched_text(a) + "\n"@;
    let r = "\n"@ + unmatched_text(u);
    let body = q + d + r;
    let n = blocked_steps(steps).len();
    let head = "# "@ + name + " — "@ + "UWP"@ + " flow\n\n## Steps\n\n"@ + step_lines(steps) + (if n > 0 {
        "\n> "@ + dec(n) + " step(s) BLOCKED. Results below are incomplete accordingly.\n"@
    } else {
        Seq::<char>::empty()
    }) + "\n"@;
    let report = uwp_flow(caps, name, xml, b).report_md;
    assert(report =~= (head + q) + d + r);
    lemma_occurs_mid(head + q, d, r);
    let j = (head + q).len() as int;
    let ds = a.divergences;
    assert(ds.len() >= 1 && ds.last() == engine_div());
    let h = "# Known-Divergence Report\n\n"@;
    let tail = if a.unknown.len() == 0 {
        Seq::<char>::empty()
    } else {
        "\n## Unknown capabilities (skipped)\n\n"@ + crate::analyze::unknown_lines(a.unknown)
    };
    assert(div_lines(ds) == div_lines(ds.drop_last()) + div_line(ds.last()));
    assert(d =~= (h + div_lines(ds.drop_last())) + div_line(engine_div()) + tail);
    lemma_occurs_mid(h + div_lines(ds.drop_last()), div_line(engine_div()), tail);
    lemma_occurs_within(d, div_line(engine_div()), (h + div_lines(ds.drop_last())).len() as int, report, j);
}

} // verus!
