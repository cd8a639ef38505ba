//! Detect MSIX packages that are really **hosted PWAs**, and port them to Tauri.
//!
//! A hosted PWA declares `uap10:HostId="PWA"` (or a host-runtime dependency on Microsoft Edge)
//! and ships no executable: the app *is* a URL rendered by Edge. Edge and WebView2 are both
//! Chromium, so such a package ports by loading the same URL.
use vstd::prelude::*;
use crate::text::{
    ascii_lower, join_strings, push_str,
    chars_of, contains_seq, find_chars, find_seq, first_char, first_ws, lemma_find_from_props,
    next_char, next_ws, occurs_at, str_contains, str_eq, str_is_empty, trim_seq, trim_str,
    trimmed_range,
};
use crate::xml::{XmlAttrView, XmlNode, XmlNodeView, attr_lookup, find_attr, nodes_view, parse_xml_nodes, xml_document_nodes};

verus! {

/// A hosted-PWA package: the facts needed to reproduce it as a Tauri app.
#[derive(Debug, Clone)]
pub struct PwaApp {
    pub name: String,
    /// The URL the shell actually loads.
    pub start_url: String,
    /// e.g. `standalone` — how the window is presented.
    pub display_mode: Option<String>,
    /// The runtime that hosts it (Edge, in every case observed so far).
    pub host_runtime: Option<String>,
    /// File extensions the app accepts via the Share Target contract, if declared.
    pub share_target_types: Vec<String>,
}

pub struct PwaView {
    pub name: Seq<char>,
    pub start_url: Seq<char>,
    pub display_mode: Option<Seq<char>>,
    pub host_runtime: Option<Seq<char>>,
    pub share_target_types: Seq<Seq<char>>,
}

pub open spec fn oview(o: Option<String>) -> Option<Seq<char>> {
    match o {
        Some(s) => Some(s@),
        None => None,
    }
}

impl View for PwaApp {
    type V = PwaView;

    open spec fn view(&self) -> PwaView {
        PwaView {
            name: self.name@,
            start_url: self.start_url@,
            display_mode: oview(self.display_mode),
            host_runtime: oview(self.host_runtime),
            share_target_types: self.share_target_types@.map_values(|s: String| s@),
        }
    }
}

pub open spec fn opt_pwa_view(o: Option<PwaApp>) -> Option<PwaView> {
    match o {
        Some(a) => Some(a@),
        None => None,
    }
}

/// A `--flag=value` value in `blob`: the text after the first occurrence of `flag`, up to the
/// first whitespace, trimmed; `None` when the flag is absent or its value is empty.
pub open spec fn flag_value(blob: Seq<char>, flag: Seq<char>) -> Option<Seq<char>> {
    match find_seq(blob, flag) {
        None => None,
        Some(i) => {
            let rest = blob.skip(i + flag.len());
            let v = trim_seq(rest.take(first_ws(rest) as int));
            if v.len() == 0 {
                None
            } else {
                Some(v)
            }
        },
    }
}

/// The launch URL of an Edge parameter blob: the `--app-fallback-url=` flag, else the text
/// after `start-url?` up to the next `;`, trimmed.
pub open spec fn start_url_of(blob: Seq<char>) -> Option<Seq<char>> {
    match flag_value(blob, "--app-fallback-url="@) {
        Some(u) => Some(u),
        None => match find_seq(blob, "start-url?"@) {
            None => None,
            Some(i) => {
                let rest = blob.skip(i + "start-url?"@.len());
                let v = trim_seq(rest.take(first_char(rest, ';') as int));
                if v.len() == 0 {
                    None
                } else {
                    Some(v)
                }
            },
        },
    }
}

/// Read a `--flag=value` value, terminated by whitespace.
fn extract_flag(blob: &str, flag: &str) -> (r: Option<String>)
    ensures
        oview(r) == flag_value(blob@, flag@),
{
    let v = chars_of(blob);
    let f = chars_of(flag);
    proof {
        lemma_find_from_props(v@, f@, 0);
    }
    let vlen = v.len();
    match find_chars(&v, &f) {
        None => None,
        Some(i) => {
            assert(i + f@.len() <= vlen);
            let idx = i + f.len();
            let end = next_ws(&v, idx);
            assert(v@.subrange(idx as int, end as int) =~= v@.skip(idx as int).take(
                first_ws(v@.skip(idx as int)) as int,
            ));
            let val = trimmed_range(&v, idx, end);
            if str_is_empty(val.as_str()) {
                None
            } else {
                Some(val)
            }
        },
    }
}

/// Pull the launch URL out of an Edge parameter blob.
///
/// Two spellings occur: the `--app-fallback-url=` command-line flag, and a `start-url?…;`
/// entry inside the web-app-internals extension description.
pub fn extract_start_url(blob: &str) -> (r: Option<String>)
    ensures
        oview(r) == start_url_of(blob@),
{
    if let Some(u) = extract_flag(blob, "--app-fallback-url=") {
        return Some(u);
    }
    let v = chars_of(blob);
    let key = chars_of("start-url?");
    proof {
        lemma_find_from_props(v@, key@, 0);
    }
    let vlen = v.len();
    match find_chars(&v, &key) {
        None => None,
        Some(i) => {
            assert(i + key@.len() <= vlen);
            let idx = i + key.len();
            let end = next_char(&v, idx, ';');
            assert(v@.subrange(idx as int, end as int) =~= v@.skip(idx as int).take(
                first_char(v@.skip(idx as int), ';') as int,
            ));
            let url = trimmed_range(&v, idx, end);
            if str_is_empty(url.as_str()) {
                None
            } else {
                Some(url)
            }
        },
    }
}

/// What the detector has gathered after some prefix of the document's nodes.
pub struct PwaScan {
    pub is_host: bool,
    pub host_runtime: Option<Seq<char>>,
    pub params: Seq<char>,
    pub descriptions: Seq<Seq<char>>,
    pub name: Option<Seq<char>>,
    pub types: Seq<Seq<char>>,
}

/// Some attribute (any namespace) is `HostId="PWA"`.
pub open spec fn has_pwa_host_id(attrs: Seq<XmlAttrView>) -> bool {
    exists|i: int| 0 <= i < attrs.len() && (#[trigger] attrs[i]).name == "HostId"@ && attrs[i].value == "PWA"@
}

/// The scan after one more node.
pub open spec fn scan_step(st: PwaScan, n: XmlNodeView) -> PwaScan {
    let is_dep = n.tag == "HostRuntimeDependency"@;
    let hr = if is_dep { attr_lookup(n.attrs, "Name"@, false) } else { st.host_runtime };
    let edge = is_dep && (hr matches Some(h) && contains_seq(h, "MicrosoftEdge"@));
    PwaScan {
        is_host: st.is_host || edge || has_pwa_host_id(n.attrs),
        host_runtime: hr,
        params: match attr_lookup(n.attrs, "Parameters"@, true) {
            Some(p) => if st.params.len() == 0 { p } else { st.params },
            None => st.params,
        },
        descriptions: match attr_lookup(n.attrs, "Description"@, false) {
            Some(d) => st.descriptions.push(d),
            None => st.descriptions,
        },
        name: if n.tag == "DisplayName"@ && st.name is None {
            match n.text {
                Some(t) => Some(trim_seq(t)),
                None => None,
            }
        } else {
            st.name
        },
        types: if n.tag == "FileType"@ {
            match n.text {
                Some(t) => st.types.push(trim_seq(t)),
                None => st.types,
            }
        } else {
            st.types
        },
    }
}

pub open spec fn scan_all(ns: Seq<XmlNodeView>) -> PwaScan
    decreases ns.len(),
{
    if ns.len() == 0 {
        PwaScan {
            is_host: false,
            host_runtime: None,
            params: seq![],
            descriptions: seq![],
            name: None,
            types: seq![],
        }
    } else {
        scan_step(scan_all(ns.drop_last()), ns.last())
    }
}

/// The first description that yields a start URL.
pub open spec fn first_description_url(ds: Seq<Seq<char>>) -> Option<Seq<char>>
    decreases ds.len(),
{
    if ds.len() == 0 {
        None
    } else {
        match start_url_of(ds[0]) {
            Some(u) => Some(u),
            None => first_description_url(ds.drop_first()),
        }
    }
}

/// The hosted PWA a document's nodes describe, if any: it must be hosted by Edge (explicit PWA
/// host id or an Edge host-runtime dependency) and have a recoverable start URL.
pub open spec fn pwa_of(ns: Seq<XmlNodeView>) -> Option<PwaView> {
    let st = scan_all(ns);
    if !st.is_host {
        None
    } else {
        let url = match start_url_of(st.params) {
            Some(u) => Some(u),
            None => first_description_url(st.descriptions),
        };
        match url {
            None => None,
            Some(u) => Some(
                PwaView {
                    name: match st.name {
                        Some(n) => n,
                        None => "App"@,
                    },
                    start_url: u,
                    display_mode: flag_value(st.params, "--display-mode="@),
                    host_runtime: st.host_runtime,
                    share_target_types: st.types,
                },
            ),
        }
    }
}

fn attrs_have_pwa_host_id(node: &XmlNode) -> (r: bool)
    ensures
        r == has_pwa_host_id(node@.attrs),
{
    let ghost all = node@.attrs;
    let mut i: usize = 0;
    while i < node.attrs.len()
        invariant
            all == node@.attrs,
            i <= all.len(),
            forall|j: int| 0 <= j < i ==> !((#[trigger] all[j]).name == "HostId"@ && all[j].value == "PWA"@),
        decreases all.len() - i,
    {
        let a = &node.attrs[i];
        assert(all[i as int] == a@);
        if str_eq(a.name.as_str(), "HostId") && str_eq(a.value.as_str(), "PWA") {
            return true;
        }
        i = i + 1;
    }
    false
}

fn opt_clone(o: &Option<String>) -> (r: Option<String>)
    ensures
        oview(r) == oview(*o),
{
    match o {
        Some(s) => Some(s.clone()),
        None => None,
    }
}

/// The first start URL found among the description attributes, in order.
fn first_url_in(descriptions: &Vec<String>) -> (r: Option<String>)
    ensures
        oview(r) == first_description_url(descriptions@.map_values(|s: String| s@)),
{
    let ghost ds = descriptions@.map_values(|s: String| s@);
    let mut j: usize = 0;
    assert(ds.skip(0) =~= ds);
    while j < descriptions.len()
        invariant
            ds == descriptions@.map_values(|s: String| s@),
            j <= ds.len(),
            first_description_url(ds) == first_description_url(ds.skip(j as int)),
        decreases ds.len() - j,
    {
        assert(ds.skip(j as int)[0] == descriptions@[j as int]@);
        assert(ds.skip(j as int).drop_first() =~= ds.skip(j + 1));
        let u = extract_start_url(descriptions[j].as_str());
        if u.is_some() {
            return u;
        }
        j = j + 1;
    }
    None
}

/// Detect a hosted PWA from a parsed manifest's nodes.
pub fn detect_pwa_in(nodes: &Vec<XmlNode>) -> (r: Option<PwaApp>)
    ensures
        opt_pwa_view(r) == pwa_of(nodes_view(nodes@)),
{
    let ghost ns = nodes_view(nodes@);
    let mut is_pwa_host = false;
    let mut host_runtime: Option<String> = None;
    let mut params = String::new();
    let mut descriptions: Vec<String> = Vec::new();
    let mut name: Option<String> = None;
    let mut share_target_types: Vec<String> = Vec::new();
    let mut i: usize = 0;
    while i < nodes.len()
        invariant
            ns == nodes_view(nodes@),
            i <= nodes@.len(),
            ({
                let st = scan_all(ns.take(i as int));
                &&& is_pwa_host == st.is_host
                &&& oview(host_runtime) == st.host_runtime
                &&& params@ == st.params
                &&& descriptions@.map_values(|s: String| s@) == st.descriptions
                &&& oview(name) == st.name
                &&& share_target_types@.map_values(|s: String| s@) == st.types
            }),
        decreases nodes@.len() - i,
    {
        let node = &nodes[i];
        let ghost prev = scan_all(ns.take(i as int));
        assert(ns.take(i + 1).drop_last() =~= ns.take(i as int));
        assert(ns.take(i + 1).last() == node@);
        let is_dep = str_eq(node.tag.as_str(), "HostRuntimeDependency");
        if is_dep {
            host_runtime = match find_attr(node, "Name", false) {
                Some(h) => Some(h.to_string()),
                None => None,
            };
            let edge = match &host_runtime {
                Some(h) => str_contains(h.as_str(), "MicrosoftEdge"),
                None => false,
            };
            if edge {
                is_pwa_host = true;
            }
        }
        if attrs_have_pwa_host_id(node) {
            is_pwa_host = true;
        }
        if let Some(p) = find_attr(node, "Parameters", true) {
            if str_is_empty(params.as_str()) {
                params = p.to_string();
            }
        }
        if let Some(d) = find_attr(node, "Description", false) {
            let ghost before = descriptions@.map_values(|s: String| s@);
            descriptions.push(d.to_string());
            assert(descriptions@.map_values(|s: String| s@) =~= before.push(d@));
        }
        if str_eq(node.tag.as_str(), "DisplayName") && name.is_none() {
            name = match &node.text {
                Some(t) => Some(trim_str(t.as_str())),
                None => None,
            };
        }
        if str_eq(node.tag.as_str(), "FileType") {
            if let Some(t) = &node.text {
                let ghost before = share_target_types@.map_values(|s: String| s@);
                share_target_types.push(trim_str(t.as_str()));
                assert(share_target_types@.map_values(|s: String| s@) =~= before.push(trim_seq(t@)));
            }
        }
        i = i + 1;
    }
    assert(ns.take(nodes@.len() as int) =~= ns);
    if !is_pwa_host {
        return None;
    }
    let start_url = match extract_start_url(params.as_str()) {
        Some(u) => u,
        None => match first_url_in(&descriptions) {
            Some(u) => u,
            None => {
                return None;
            },
        },
    };
    let display_mode = extract_flag(params.as_str(), "--display-mode=");
    let app_name = match name {
        Some(n) => n,
        None => "App".to_string(),
    };
    Some(PwaApp {
        name: app_name,
        start_url,
        display_mode,
        host_runtime,
        share_target_types,
    })
}

/// The hosted PWA an `AppxManifest.xml` text describes (none when the XML does not parse).
pub open spec fn pwa_of_xml(xml: Seq<char>) -> Option<PwaView> {
    match xml_document_nodes(xml) {
        Some(ns) => pwa_of(ns),
        None => None,
    }
}

/// Detect a hosted PWA from an `AppxManifest.xml`.
///
/// Returns `None` for a conventional UWP package — it requires an explicit PWA host id or an
/// Edge host-runtime dependency, *and* a recoverable start URL.
pub fn detect_pwa(xml: &str) -> (r: Option<PwaApp>)
    ensures
        opt_pwa_view(r) == pwa_of_xml(xml@),
{
    match parse_xml_nodes(xml) {
        Some(nodes) => detect_pwa_in(&nodes),
        None => None,
    }
}

} // verus!

verus! {

/// A generated Tauri project reproducing a hosted PWA.
#[derive(Debug, Clone)]
pub struct TauriPort {
    pub cargo_toml: String,
    pub main_rs: String,
    /// Tauri will not compile without this: `tauri_build::build()` generates the context that
    /// `tauri::generate_context!()` expands to.
    pub build_rs: String,
    pub tauri_conf: String,
    pub migration_md: String,
    /// What the packaged app does that the Tauri project does not. Never empty: it always at
    /// least records that the package ran in Edge and the project runs in WebView2.
    pub not_ported: Vec<String>,
}

pub open spec fn is_ascii_alnum(c: char) -> bool {
    ('a' <= c && c <= 'z') || ('A' <= c && c <= 'Z') || ('0' <= c && c <= '9')
}

pub open spec fn slug_char(c: char) -> char {
    if is_ascii_alnum(c) {
        ascii_lower(c)
    } else {
        '-'
    }
}

pub open spec fn lead_dash(s: Seq<char>) -> nat
    decreases s.len(),
{
    if s.len() > 0 && s[0] == '-' {
        1 + lead_dash(s.drop_first())
    } else {
        0
    }
}

pub open spec fn trail_dash(s: Seq<char>) -> nat
    decreases s.len(),
{
    if s.len() > 0 && s.last() == '-' {
        1 + trail_dash(s.drop_last())
    } else {
        0
    }
}

/// `s` without leading and trailing dashes (std's `trim_matches('-')`).
pub open spec fn trim_dashes(s: Seq<char>) -> Seq<char> {
    let t = s.skip(lead_dash(s) as int);
    t.take(t.len() - trail_dash(t))
}

/// Lowercase, dot-free identifier fragment for a bundle id / crate name.
pub open spec fn slug_of(name: Seq<char>) -> Seq<char> {
    let t = trim_dashes(name.map_values(|c: char| slug_char(c)));
    if t.len() == 0 {
        "app"@
    } else {
        t
    }
}

proof fn lemma_lead_dash(s: Seq<char>, k: int)
    requires
        0 <= k <= s.len(),
        forall|j: int| 0 <= j < k ==> #[trigger] s[j] == '-',
        k == s.len() || s[k] != '-',
    ensures
        lead_dash(s) == k,
    decreases k,
{
    if k > 0 {
        assert forall|j: int| 0 <= j < k - 1 implies #[trigger] s.drop_first()[j] == '-' by {
            assert(s.drop_first()[j] == s[j + 1]);
        }
        if k < s.len() {
            assert(s.drop_first()[k - 1] == s[k]);
        }
        lemma_lead_dash(s.drop_first(), k - 1);
    }
}

proof fn lemma_trail_dash(s: Seq<char>, k: int)
    requires
        0 <= k <= s.len(),
        forall|j: int| s.len() - k <= j < s.len() ==> #[trigger] s[j] == '-',
        k == s.len() || s[s.len() - k - 1] != '-',
    ensures
        trail_dash(s) == k,
    decreases k,
{
    if k > 0 {
        let t = s.drop_last();
        assert forall|j: int| t.len() - (k - 1) <= j < t.len() implies #[trigger] t[j] == '-' by {
            assert(t[j] == s[j]);
        }
        if k < s.len() {
            assert(t[t.len() - (k - 1) - 1] == s[s.len() - k - 1]);
        }
        lemma_trail_dash(t, k - 1);
    }
}

fn slug_char_exec(c: char) -> (r: char)
    ensures
        r == slug_char(c),
{
    if ('a' <= c && c <= 'z') || ('0' <= c && c <= '9') {
        c
    } else if 'A' <= c && c <= 'Z' {
        crate::text::ascii_lowercase(c)
    } else {
        '-'
    }
}

/// Lowercase, dot-free identifier fragment for a bundle id / crate name.
pub fn slug(name: &str) -> (r: String)
    ensures
        r@ == slug_of(name@),
{
    let cs = chars_of(name);
    let mut mapped: Vec<char> = Vec::new();
    let mut i: usize = 0;
    while i < cs.len()
        invariant
            i <= cs@.len(),
            mapped@ == cs@.take(i as int).map_values(|c: char| slug_char(c)),
        decreases cs@.len() - i,
    {
        mapped.push(slug_char_exec(cs[i]));
        assert(cs@.take(i + 1).map_values(|c: char| slug_char(c)) =~= cs@.take(i as int).map_values(
            |c: char| slug_char(c),
        ).push(slug_char(cs@[i as int])));
        i = i + 1;
    }
    assert(cs@.take(cs@.len() as int) =~= cs@);
    let ghost s = mapped@;
    let mut lo: usize = 0;
    while lo < mapped.len() && mapped[lo] == '-'
        invariant
            s == mapped@,
            lo <= s.len(),
            forall|j: int| 0 <= j < lo ==> #[trigger] s[j] == '-',
        decreases s.len() - lo,
    {
        lo = lo + 1;
    }
    proof {
        lemma_lead_dash(s, lo as int);
    }
    let mut hi: usize = mapped.len();
    while hi > lo && mapped[hi - 1] == '-'
        invariant
            s == mapped@,
            lo <= hi <= s.len(),
            forall|j: int| hi <= j < s.len() ==> #[trigger] s[j] == '-',
        decreases hi - lo,
    {
        hi = hi - 1;
    }
    proof {
        let t = s.skip(lo as int);
        assert forall|j: int| t.len() - (s.len() - hi) <= j < t.len() implies #[trigger] t[j] == '-' by {
            assert(t[j] == s[lo + j]);
        }
        if hi > lo {
            assert(t[t.len() - (s.len() - hi) - 1] == s[hi - 1]);
        }
        lemma_trail_dash(t, s.len() - hi);
        assert(t.take(t.len() - trail_dash(t)) =~= s.subrange(lo as int, hi as int));
    }
    if lo == hi {
        "app".to_string()
    } else {
        crate::text::string_from_range(&mapped, lo, hi)
    }
}

} // verus!

verus! {

pub const CONF_A: &'static str = "{\n  \"$schema\": \"https://schema.tauri.app/config/2\",\n  \"productName\": \"";
pub const CONF_B: &'static str = "\",\n  \"version\": \"0.1.0\",\n  \"identifier\": \"com.example.";
pub const CONF_C: &'static str = "\",\n  \"build\": {\n    \"frontendDist\": \"../dist\"\n  },\n  \"app\": {\n    \"windows\": [\n      {\n        \"title\": \"";
pub const CONF_D: &'static str = "\",\n        \"url\": \"";
pub const CONF_E: &'static str = "\",\n        \"width\": 1000,\n        \"height\": 800,\n        \"resizable\": true\n      }\n    ],\n    \"security\": {\n      \"csp\": null\n    }\n  },\n  \"bundle\": {\n    \"active\": true,\n    \"targets\": [\"msi\"],\n    \"icon\": [\"icons/icon.ico\"]\n  }\n}\n";
pub const CARGO_A: &'static str = "[package]\nname = \"";
pub const CARGO_B: &'static str = "\"\nversion = \"0.1.0\"\nedition = \"2021\"\npublish = false\n\n[build-dependencies]\ntauri-build = { version = \"2\", features = [] }\n\n[dependencies]\ntauri = { version = \"2\", features = [] }\n";
pub const MAIN_A: &'static str = "// Tauri port of the \"";
pub const MAIN_B: &'static str = "\" hosted PWA.\n//\n// The original is an MSIX package with no executable: it asks Edge to render\n// ";
pub const MAIN_C: &'static str = " in standalone mode. This loads the same URL in WebView2, which is the\n// same Chromium engine Edge uses.\n#![cfg_attr(not(debug_assertions), windows_subsystem = \"windows\")]\n\nfn main() {\n    tauri::Builder::default()\n        .run(tauri::generate_context!())\n        .expect(\"error while running tauri application\");\n}\n";
pub const SHARE_A: &'static str = "Share Target contract (";
pub const SHARE_B: &'static str = "). Windows can hand shared files to the original; Tauri has no equivalent registration, so this is lost.";
pub const LIVE_TILES_NOTE: &'static str = "Live tiles and Store-managed updates: the original is a Store package; the port is a plain MSI and updates through whatever mechanism you add.";
pub const ENGINE_NOTE: &'static str = "Engine version: Edge is evergreen and the WebView2 runtime updates independently, so the port tracks a different Chromium build than the machine's Edge at any given moment.";
pub const MIG_A: &'static str = "# ";
pub const MIG_B: &'static str = " — Tauri port\n\nGenerated by `assay port`. The original package is a **hosted PWA**, not a conventional UWP\napp: it ships no executable and declares `HostId=\"PWA\"`";
pub const MIG_C: &'static str = ", asking Edge to render a URL.\n\n| | |\n|---|---|\n| Start URL | `";
pub const MIG_D: &'static str = "` |\n| Display mode | `";
pub const MIG_E: &'static str = "` |\n| Host runtime | `";
pub const MIG_F: &'static str = "` |\n\n## Why this port is close to faithful\n\nEdge renders with Chromium. Tauri on Windows renders in WebView2, which is also Chromium. The\noriginal app *is* the remote site, so pointing a WebView2 window at the same URL reproduces it\nrather than reimplementing it.\n\n## What is NOT ported\n\n";
pub const MIG_G: &'static str = "\n\n## Before you ship this\n\n- The window loads **remote content**. Review Tauri's remote-content security guidance before\n  exposing any command to it; this scaffold registers no commands, deliberately.\n- `frontendDist` points at `../dist`, which is unused for a remote URL but keeps `tauri build`\n  happy — create an empty `dist/` directory.\n- Supply your own `icons/icon.ico`; the original's images are in the MSIX package's `Images\\`\n  folder and are the publisher's assets, so they are not copied for you.\n- Verify the site works without Edge-specific PWA integration (install prompts, Store hooks).\n";
pub const HOST_A: &'static str = " with a host-runtime dependency on `";
pub const HOST_B: &'static str = "`";
pub const NOT_DECLARED: &'static str = "(not declared)";
pub const BUILD_RS: &'static str = "fn main() {\n    tauri_build::build()\n}\n";

pub open spec fn tauri_conf_text(name: Seq<char>, slug: Seq<char>, url: Seq<char>) -> Seq<char> {
    CONF_A@ + name + CONF_B@ + slug + CONF_C@ + name + CONF_D@ + url + CONF_E@
}

pub open spec fn cargo_toml_text(slug: Seq<char>) -> Seq<char> {
    CARGO_A@ + slug + CARGO_B@
}

pub open spec fn main_rs_text(name: Seq<char>, url: Seq<char>) -> Seq<char> {
    MAIN_A@ + name + MAIN_B@ + url + MAIN_C@
}

/// The caveats of a port: the share-target loss (when the app declares file types), then the
/// Store/live-tile note and the engine-version note, which are always present.
pub open spec fn not_ported_of(types: Seq<Seq<char>>) -> Seq<Seq<char>> {
    let tail = seq![LIVE_TILES_NOTE@, ENGINE_NOTE@];
    if types.len() > 0 {
        seq![SHARE_A@ + crate::text::join_seqs(types, ", "@) + SHARE_B@] + tail
    } else {
        tail
    }
}

pub open spec fn bullet_all(ns: Seq<Seq<char>>) -> Seq<Seq<char>> {
    ns.map_values(|n: Seq<char>| "- "@ + n)
}

pub open spec fn or_not_declared(o: Option<Seq<char>>) -> Seq<char> {
    match o {
        Some(v) => v,
        None => NOT_DECLARED@,
    }
}

pub open spec fn migration_text(a: PwaView, not_ported: Seq<Seq<char>>) -> Seq<char> {
    let host = match a.host_runtime {
        Some(h) => HOST_A@ + h + HOST_B@,
        None => Seq::<char>::empty(),
    };
    MIG_A@ + a.name + MIG_B@ + host + MIG_C@ + a.start_url + MIG_D@ + or_not_declared(a.display_mode)
        + MIG_E@ + or_not_declared(a.host_runtime) + MIG_F@ + crate::text::join_seqs(
        bullet_all(not_ported),
        "\n"@,
    ) + MIG_G@
}

/// The plain content of a [`TauriPort`].
pub struct PortView {
    pub cargo_toml: Seq<char>,
    pub main_rs: Seq<char>,
    pub build_rs: Seq<char>,
    pub tauri_conf: Seq<char>,
    pub migration_md: Seq<char>,
    pub not_ported: Seq<Seq<char>>,
}

impl View for TauriPort {
    type V = PortView;

    open spec fn view(&self) -> PortView {
        PortView {
            cargo_toml: self.cargo_toml@,
            main_rs: self.main_rs@,
            build_rs: self.build_rs@,
            tauri_conf: self.tauri_conf@,
            migration_md: self.migration_md@,
            not_ported: self.not_ported@.map_values(|s: String| s@),
        }
    }
}

/// The Tauri v2 project [`port_pwa_to_tauri`] generates for a hosted PWA.
pub open spec fn port_of(a: PwaView) -> PortView {
    let s = slug_of(a.name);
    let np = not_ported_of(a.share_target_types);
    PortView {
        cargo_toml: cargo_toml_text(s),
        main_rs: main_rs_text(a.name, a.start_url),
        build_rs: BUILD_RS@,
        tauri_conf: tauri_conf_text(a.name, s, a.start_url),
        migration_md: migration_text(a, np),
        not_ported: np,
    }
}

/// Generate a Tauri v2 project that loads the PWA's start URL.
pub fn port_pwa_to_tauri(app: &PwaApp) -> (port: TauriPort)
    ensures
        port@ == port_of(app@),
{
    let slug = slug(app.name.as_str());
    let mut tauri_conf = String::new();
    push_str(&mut tauri_conf, CONF_A);
    push_str(&mut tauri_conf, app.name.as_str());
    push_str(&mut tauri_conf, CONF_B);
    push_str(&mut tauri_conf, slug.as_str());
    push_str(&mut tauri_conf, CONF_C);
    push_str(&mut tauri_conf, app.name.as_str());
    push_str(&mut tauri_conf, CONF_D);
    push_str(&mut tauri_conf, app.start_url.as_str());
    push_str(&mut tauri_conf, CONF_E);
    let mut cargo_toml = String::new();
    push_str(&mut cargo_toml, CARGO_A);
    push_str(&mut cargo_toml, slug.as_str());
    push_str(&mut cargo_toml, CARGO_B);
    let mut main_rs = String::new();
    push_str(&mut main_rs, MAIN_A);
    push_str(&mut main_rs, app.name.as_str());
    push_str(&mut main_rs, MAIN_B);
    push_str(&mut main_rs, app.start_url.as_str());
    push_str(&mut main_rs, MAIN_C);

    let mut not_ported: Vec<String> = Vec::new();
    if app.share_target_types.len() > 0 {
        let mut share = String::new();
        push_str(&mut share, SHARE_A);
        let joined = join_strings(&app.share_target_types, ", ");
        push_str(&mut share, joined.as_str());
        push_str(&mut share, SHARE_B);
        not_ported.push(share);
    }
    not_ported.push(LIVE_TILES_NOTE.to_string());
    not_ported.push(ENGINE_NOTE.to_string());
    let ghost np = not_ported@.map_values(|s: String| s@);
    assert(np =~= not_ported_of(app@.share_target_types));

    let mut bullets: Vec<String> = Vec::new();
    let mut i: usize = 0;
    while i < not_ported.len()
        invariant
            np == not_ported@.map_values(|s: String| s@),
            i <= np.len(),
            bullets@.map_values(|s: String| s@) == bullet_all(np.take(i as int)),
        decreases np.len() - i,
    {
        let mut b = String::new();
        push_str(&mut b, "- ");
        push_str(&mut b, not_ported[i].as_str());
        let ghost before = bullets@.map_values(|s: String| s@);
        assert(b@ == "- "@ + np[i as int]);
        assert(bullet_all(np.take(i + 1)) =~= bullet_all(np.take(i as int)).push(b@));
        bullets.push(b);
        assert(bullets@.map_values(|s: String| s@) =~= before.push(b@));
        i = i + 1;
    }
    assert(np.take(np.len() as int) =~= np);
    let listed = join_strings(&bullets, "\n");

    let mut migration_md = String::new();
    push_str(&mut migration_md, MIG_A);
    push_str(&mut migration_md, app.name.as_str());
    push_str(&mut migration_md, MIG_B);
    if let Some(h) = &app.host_runtime {
        push_str(&mut migration_md, HOST_A);
        push_str(&mut migration_md, h.as_str());
        push_str(&mut migration_md, HOST_B);
    }
    push_str(&mut migration_md, MIG_C);
    push_str(&mut migration_md, app.start_url.as_str());
    push_str(&mut migration_md, MIG_D);
    match &app.display_mode {
        Some(d) => push_str(&mut migration_md, d.as_str()),
        None => push_str(&mut migration_md, NOT_DECLARED),
    }
    push_str(&mut migration_md, MIG_E);
    match &app.host_runtime {
        Some(h) => push_str(&mut migration_md, h.as_str()),
        None => push_str(&mut migration_md, NOT_DECLARED),
    }
    push_str(&mut migration_md, MIG_F);
    push_str(&mut migration_md, listed.as_str());
    push_str(&mut migration_md, MIG_G);
    proof {
        let host = match app@.host_runtime {
            Some(h) => HOST_A@ + h + HOST_B@,
            None => Seq::<char>::empty(),
        };
        assert(migration_md@ =~= migration_text(app@, np));
    }
    TauriPort {
        cargo_toml,
        main_rs,
        build_rs: BUILD_RS.to_string(),
        tauri_conf,
        migration_md,
        not_ported,
    }
}

} // verus!

verus! {

/// ICONDIR + the single ICONDIRENTRY of the placeholder icon.
pub open spec fn icon_dir() -> Seq<u8> {
    seq![0u8, 0, 1, 0, 1, 0, 16, 16, 0, 0, 1, 0, 32, 0, 0x68, 0x04, 0, 0, 22, 0, 0, 0]
}

/// The BITMAPINFOHEADER of the placeholder icon.
pub open spec fn icon_dib_header() -> Seq<u8> {
    seq![
        40u8, 0, 0, 0, 16, 0, 0, 0, 32, 0, 0, 0, 1, 0, 32, 0, 0, 0, 0, 0, 0x40, 0x04, 0, 0, 0, 0, 0,
        0, 0, 0, 0, 0, 0, 0, 0, 0, 0, 0, 0, 0,
    ]
}

/// One opaque BGRA pixel.
pub open spec fn icon_pixel(k: int) -> u8 {
    if k % 4 == 0 {
        0x81u8
    } else if k % 4 == 1 {
        0x4Eu8
    } else if k % 4 == 2 {
        0x3Du8
    } else {
        0xFFu8
    }
}

/// The placeholder icon: header, 16x16 opaque pixels, and a fully-opaque AND mask.
pub open spec fn icon_bytes() -> Seq<u8> {
    icon_dir() + icon_dib_header() + Seq::new(1024, |k: int| icon_pixel(k)) + Seq::new(
        64,
        |k: int| 0u8,
    )
}

fn push_bytes(out: &mut Vec<u8>, bytes: &[u8])
    ensures
        final(out)@ == old(out)@ + bytes@,
{
    let mut i: usize = 0;
    while i < bytes.len()
        invariant
            i <= bytes@.len(),
            out@ == old(out)@ + bytes@.take(i as int),
        decreases bytes@.len() - i,
    {
        out.push(bytes[i]);
        assert(bytes@.take(i + 1) =~= bytes@.take(i as int).push(bytes@[i as int]));
        i = i + 1;
    }
    assert(bytes@.take(bytes@.len() as int) =~= bytes@);
}

/// A minimal valid 16x16 Windows `.ico`, as a placeholder `icons/icon.ico` for a port.
pub fn placeholder_icon() -> (r: Vec<u8>)
    ensures
        r@ == icon_bytes(),
{
    let mut out: Vec<u8> = Vec::new();
    let dir: [u8; 22] = [0, 0, 1, 0, 1, 0, 16, 16, 0, 0, 1, 0, 32, 0, 0x68, 0x04, 0, 0, 22, 0, 0, 0];
    let dib: [u8; 40] = [
        40, 0, 0, 0, 16, 0, 0, 0, 32, 0, 0, 0, 1, 0, 32, 0, 0, 0, 0, 0, 0x40, 0x04, 0, 0, 0, 0, 0,
        0, 0, 0, 0, 0, 0, 0, 0, 0, 0, 0, 0, 0,
    ];
    push_bytes(&mut out, dir.as_slice());
    push_bytes(&mut out, dib.as_slice());
    assert(dir@ =~= icon_dir());
    assert(dib@ =~= icon_dib_header());
    let ghost head = out@;
    let mut p: usize = 0;
    while p < 1024
        invariant
            p <= 1024,
            p % 4 == 0,
            out@ == head + Seq::new(p as nat, |k: int| icon_pixel(k)),
        decreases 1024 - p,
    {
        out.push(0x81);
        out.push(0x4E);
        out.push(0x3D);
        out.push(0xFF);
        assert(out@ =~= head + Seq::new((p + 4) as nat, |k: int| icon_pixel(k)));
        p = p + 4;
    }
    let ghost mid = out@;
    let mut m: usize = 0;
    while m < 64
        invariant
            m <= 64,
            out@ == mid + Seq::new(m as nat, |k: int| 0u8),
        decreases 64 - m,
    {
        out.push(0);
        assert(out@ =~= mid + Seq::new((m + 1) as nat, |k: int| 0u8));
        m = m + 1;
    }
    assert(out@ =~= icon_bytes());
    out
}

proof fn lemma_lead_dash_stops(s: Seq<char>)
    ensures
        lead_dash(s) <= s.len(),
        lead_dash(s) < s.len() ==> s[lead_dash(s) as int] != '-',
    decreases s.len(),
{
    if s.len() > 0 && s[0] == '-' {
        lemma_lead_dash_stops(s.drop_first());
        if lead_dash(s) < s.len() {
            assert(s.drop_first()[lead_dash(s.drop_first()) as int] == s[lead_dash(s) as int]);
        }
    }
}

proof fn lemma_trail_dash_stops(s: Seq<char>)
    ensures
        trail_dash(s) <= s.len(),
        trail_dash(s) < s.len() ==> s[s.len() - trail_dash(s) - 1] != '-',
    decreases s.len(),
{
    if s.len() > 0 && s.last() == '-' {
        let t = s.drop_last();
        lemma_trail_dash_stops(t);
        if trail_dash(s) < s.len() {
            assert(t[t.len() - trail_dash(t) - 1] == s[s.len() - trail_dash(s) - 1]);
        }
    }
}

/// A character a slug may hold: a lowercase ASCII letter, a digit or a dash.
pub open spec fn slug_safe(c: char) -> bool {
    ('a' <= c && c <= 'z') || ('0' <= c && c <= '9') || c == '-'
}

/// Slugs are safe as crate names and bundle-id fragments: never empty, only lowercase ASCII
/// letters, digits and dashes, and never starting or ending with a dash.
pub proof fn law_slugs_are_safe(name: Seq<char>)
    ensures
        ({
            let s = slug_of(name);
            &&& s.len() > 0
            &&& forall|i: int| 0 <= i < s.len() ==> slug_safe(#[trigger] s[i])
            &&& s[0] != '-'
            &&& s.last() != '-'
        }),
{
    let m = name.map_values(|c: char| slug_char(c));
    assert forall|i: int| 0 <= i < m.len() implies slug_safe(#[trigger] m[i]) by {
        let c = name[i];
        assert(m[i] == slug_char(c));
        if 'A' <= c && c <= 'Z' {
            assert('a' <= ((c as u32) + 32) as char && ((c as u32) + 32) as char <= 'z');
        }
    }
    lemma_lead_dash_stops(m);
    let u = m.skip(lead_dash(m) as int);
    lemma_trail_dash_stops(u);
    let t = trim_dashes(m);
    assert(t =~= u.take(u.len() - trail_dash(u)));
    if t.len() == 0 {
        reveal_strlit("app");
        assert(slug_of(name) == "app"@);
    } else {
        assert(t[0] == u[0] && u[0] == m[lead_dash(m) as int]);
        assert(t.last() == u[u.len() - trail_dash(u) - 1]);
        assert forall|i: int| 0 <= i < t.len() implies slug_safe(#[trigger] t[i]) by {
            assert(t[i] == m[lead_dash(m) + i]);
        }
    }
}

/// The placeholder icon is a structurally valid `.ico`: the ICONDIR magic, one 16x16 image,
/// image data right after the single directory entry, and a declared size that matches the
/// bytes that follow.
pub proof fn law_placeholder_icon_is_a_valid_ico()
    ensures
        ({
            let b = icon_bytes();
            &&& b.len() == 1150
            &&& b[0] == 0 && b[1] == 0 && b[2] == 1 && b[3] == 0
            &&& b[4] as int + 256 * b[5] as int == 1
            &&& b[6] == 16 && b[7] == 16
            &&& b[18] as int + 256 * b[19] as int + 65536 * b[20] as int + 16777216 * b[21] as int
                == 22
            &&& 22 + (b[14] as int + 256 * b[15] as int + 65536 * b[16] as int + 16777216
                * b[17] as int) == b.len()
        }),
{
    let b = icon_bytes();
    assert(b.len() == 1150);
    assert(b[14] == 0x68 && b[15] == 0x04 && b[16] == 0 && b[17] == 0);
}

/// The generated window is the PWA's: in `tauri.conf.json` the window's `"title"` is the app's
/// name and its `"url"` is exactly the start URL, each followed by the end of its value.
pub proof fn law_window_shows_the_start_url(a: PwaView)
    ensures
        exists|i: int|
            occurs_at(
                port_of(a).tauri_conf,
                "\"title\": \""@ + a.name + "\",\n        \"url\": \""@ + a.start_url + "\",\n"@,
                i,
            ),
{
    let conf = port_of(a).tauri_conf;
    let s = slug_of(a.name);
    reveal_strlit("\"title\": \"");
    reveal_strlit("\",\n        \"url\": \"");
    reveal_strlit("\",\n");
    reveal_strlit("\",\n  \"build\": {\n    \"frontendDist\": \"../dist\"\n  },\n  \"app\": {\n    \"windows\": [\n      {\n        \"title\": \"");
    reveal_strlit("\",\n        \"url\": \"");
    reveal_strlit("\",\n        \"width\": 1000,\n        \"height\": 800,\n        \"resizable\": true\n      }\n    ],\n    \"security\": {\n      \"csp\": null\n    }\n  },\n  \"bundle\": {\n    \"active\": true,\n    \"targets\": [\"msi\"],\n    \"icon\": [\"icons/icon.ico\"]\n  }\n}\n");
    let t = "\"title\": \""@;
    let c = CONF_C@;
    let c1 = c.subrange(0, c.len() - t.len());
    assert(c =~= c1 + t);
    let e = CONF_E@;
    let e0 = "\",\n"@;
    let e1 = e.subrange(e0.len() as int, e.len() as int);
    assert(e =~= e0 + e1);
    assert(CONF_D@ =~= "\",\n        \"url\": \""@);
    let piece = t + a.name + "\",\n        \"url\": \""@ + a.start_url + e0;
    let x = CONF_A@ + a.name + CONF_B@ + s + c1;
    assert(conf =~= x + piece + e1);
    assert((x + piece + e1).subrange(x.len() as int, (x.len() + piece.len()) as int) =~= piece);
    assert(occurs_at(conf, piece, x.len() as int));
}

} // verus!
