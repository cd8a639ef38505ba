//! The probe protocol: a [`Config`] declares what to measure (feature expressions and
//! per-selector CSS properties) and [`render_probe`] inlines it into a self-contained JS snippet
//! that a driver evaluates in the page; the snippet returns a JSON string shaped like an
//! `EngineBlob`.
use vstd::prelude::*;
use crate::strset::strs;
use crate::text::{join_seqs, join_strings, push_str};

verus! {

/// What a probe run measures. `features` (feature name -> JS expression whose truthiness is the
/// support signal) and `selectors` (CSS selector -> computed properties to capture) are kept in
/// strictly increasing key order, as the maps they stand for.
#[derive(Debug, Clone)]
pub struct Config {
    /// Pages to load (drivers iterate these).
    pub urls: Vec<String>,
    pub features: Vec<(String, String)>,
    pub selectors: Vec<(String, Vec<String>)>,
}

impl Default for Config {
    fn default() -> (c: Config)
        ensures
            c.urls@.len() == 0,
            c.features@.len() == 0,
            c.selectors@.len() == 0,
    {
        Config { urls: Vec::new(), features: Vec::new(), selectors: Vec::new() }
    }
}

/// The starter config's feature probes, in key order.
pub open spec fn sample_features() -> Seq<(Seq<char>, Seq<char>)> {
    seq![
        ("backdrop_filter"@, "CSS.supports('backdrop-filter', 'blur(1px)')"@),
        ("css_gap"@, "CSS.supports('gap', '1px')"@),
        ("dialog_element"@, "typeof HTMLDialogElement !== 'undefined'"@),
        ("resize_observer"@, "typeof ResizeObserver !== 'undefined'"@),
    ]
}

pub open spec fn pairs_view(v: Seq<(String, String)>) -> Seq<(Seq<char>, Seq<char>)> {
    v.map_values(|p: (String, String)| (p.0@, p.1@))
}

pub open spec fn selectors_view(v: Seq<(String, Vec<String>)>) -> Seq<(Seq<char>, Seq<Seq<char>>)> {
    v.map_values(|p: (String, Vec<String>)| (p.0@, strs(p.1@)))
}

impl Config {
    /// A starter config covering the divergences most likely to bite a port: CSS `gap`,
    /// `<dialog>`, `backdrop-filter` and `ResizeObserver` support, and the body's font.
    pub fn sample() -> (c: Config)
        ensures
            strs(c.urls@) == seq!["http://localhost:1420/"@],
            pairs_view(c.features@) == sample_features(),
            selectors_view(c.selectors@) == seq![("body"@, seq!["font-family"@, "font-size"@])],
    {
        let mut features: Vec<(String, String)> = Vec::new();
        features.push(("backdrop_filter".to_string(), "CSS.supports('backdrop-filter', 'blur(1px)')".to_string()));
        features.push(("css_gap".to_string(), "CSS.supports('gap', '1px')".to_string()));
        features.push(("dialog_element".to_string(), "typeof HTMLDialogElement !== 'undefined'".to_string()));
        features.push(("resize_observer".to_string(), "typeof ResizeObserver !== 'undefined'".to_string()));
        let mut props: Vec<String> = Vec::new();
        props.push("font-family".to_string());
        props.push("font-size".to_string());
        let mut selectors: Vec<(String, Vec<String>)> = Vec::new();
        selectors.push(("body".to_string(), props));
        let mut urls: Vec<String> = Vec::new();
        urls.push("http://localhost:1420/".to_string());
        let c = Config { urls, features, selectors };
        assert(strs(c.urls@) =~= seq!["http://localhost:1420/"@]);
        assert(pairs_view(c.features@) =~= sample_features());
        assert(strs(c.selectors@[0].1@) =~= seq!["font-family"@, "font-size"@]);
        assert(selectors_view(c.selectors@) =~= seq![("body"@, seq!["font-family"@, "font-size"@])]);
        c
    }
}

/// A lowercase hexadecimal digit.
pub open spec fn hex_digit(n: int) -> char {
    if n < 10 {
        (48 + n) as char
    } else {
        (87 + n) as char
    }
}

/// How `serde_json` writes one character inside a string literal: `"` and `\` escaped with a
/// backslash, backspace, tab, line feed, form feed and carriage return as `\b`, `\t`, `\n`,
/// `\f`, `\r`, other control characters below U+0020 as `\u00XX` (lowercase hex), and every
/// other character as itself.
pub open spec fn json_char(c: char) -> Seq<char> {
    if c == '"' {
        seq!['\\', '"']
    } else if c == '\\' {
        seq!['\\', '\\']
    } else if c == '\u{8}' {
        seq!['\\', 'b']
    } else if c == '\t' {
        seq!['\\', 't']
    } else if c == '\n' {
        seq!['\\', 'n']
    } else if c == '\u{c}' {
        seq!['\\', 'f']
    } else if c == '\r' {
        seq!['\\', 'r']
    } else if (c as int) < 32 {
        seq!['\\', 'u', '0', '0', hex_digit((c as int) / 16), hex_digit((c as int) % 16)]
    } else {
        seq![c]
    }
}

/// The escaped characters of `s`, each as [`json_char`] writes it.
pub open spec fn json_escaped(s: Seq<char>) -> Seq<char>
    decreases s.len(),
{
    if s.len() == 0 {
        seq![]
    } else {
        json_escaped(s.drop_last()) + json_char(s.last())
    }
}

/// `s` as a JSON string literal: quoted, and escaped character by character.
pub open spec fn json_string(s: Seq<char>) -> Seq<char> {
    seq!['"'] + json_escaped(s) + seq!['"']
}

/// `serde_json::to_string` of a string: the string literal [`json_string`] describes (its
/// escape table maps exactly the characters [`json_char`] lists; writing a `str` cannot fail).
#[verifier::external_body]
pub(crate) fn json_quote(s: &str) -> (r: String)
    ensures
        r@ == json_string(s@),
{
    serde_json::to_string(s).unwrap_or_default()
}

pub open spec fn feature_entries(fs: Seq<(Seq<char>, Seq<char>)>) -> Seq<Seq<char>> {
    fs.map_values(|p: (Seq<char>, Seq<char>)| json_string(p.0) + ":"@ + json_string(p.1))
}

/// The feature map as compact JSON: `{"name":"expression",...}` in key order.
pub open spec fn features_json(fs: Seq<(Seq<char>, Seq<char>)>) -> Seq<char> {
    "{"@ + join_seqs(feature_entries(fs), ","@) + "}"@
}

pub open spec fn json_array(items: Seq<Seq<char>>) -> Seq<char> {
    "["@ + join_seqs(items.map_values(|i: Seq<char>| json_string(i)), ","@) + "]"@
}

pub open spec fn selector_entries(ss: Seq<(Seq<char>, Seq<Seq<char>>)>) -> Seq<Seq<char>> {
    ss.map_values(|p: (Seq<char>, Seq<Seq<char>>)| json_string(p.0) + ":"@ + json_array(p.1))
}

/// The selector map as compact JSON: `{"selector":["prop",...],...}` in key order.
pub open spec fn selectors_json(ss: Seq<(Seq<char>, Seq<Seq<char>>)>) -> Seq<char> {
    "{"@ + join_seqs(selector_entries(ss), ","@) + "}"@
}

pub const PROBE_HEAD: &'static str = "(function () {\n  var ENGINE = ";
pub const PROBE_FEATURES: &'static str = ";\n  var FEATURES = ";
pub const PROBE_SELECTORS: &'static str = ";\n  var SELECTORS = ";
pub const PROBE_TAIL: &'static str = ";\n  var errors = [];\n  try {\n    window.addEventListener('error', function (e) { errors.push(String(e.message)); });\n  } catch (e) { /* no window (worker/headless shim) */ }\n\n  var features = {};\n  for (var name in FEATURES) {\n    try { features[name] = !!eval(FEATURES[name]); }\n    catch (e) { features[name] = false; }\n  }\n\n  var computed_styles = {};\n  for (var sel in SELECTORS) {\n    var el = null;\n    try { el = document.querySelector(sel); } catch (e) { el = null; }\n    if (!el) { continue; }\n    var cs = getComputedStyle(el);\n    var props = {};\n    var list = SELECTORS[sel];\n    for (var i = 0; i < list.length; i++) {\n      props[list[i]] = cs.getPropertyValue(list[i]);\n    }\n    computed_styles[sel] = props;\n  }\n\n  return JSON.stringify({\n    engine: ENGINE,\n    user_agent: (typeof navigator !== 'undefined' ? navigator.userAgent : ''),\n    features: features,\n    computed_styles: computed_styles,\n    console_errors: errors\n  });\n})()\n";

/// The probe snippet for `engine` and a config: an IIFE with the engine name, the feature
/// expressions and the selectors inlined as JSON, that returns a JSON string shaped like an
/// `EngineBlob`.
pub open spec fn probe_text(engine: Seq<char>, fs: Seq<(Seq<char>, Seq<char>)>, ss: Seq<(Seq<char>, Seq<Seq<char>>)>) -> Seq<char> {
    PROBE_HEAD@ + json_string(engine) + PROBE_FEATURES@ + features_json(fs) + PROBE_SELECTORS@
        + selectors_json(ss) + PROBE_TAIL@
}

fn json_array_of(items: &Vec<String>) -> (r: String)
    ensures
        r@ == json_array(strs(items@)),
{
    let mut quoted: Vec<String> = Vec::new();
    let mut i: usize = 0;
    while i < items.len()
        invariant
            i <= items@.len(),
            strs(quoted@) == strs(items@).take(i as int).map_values(|x: Seq<char>| json_string(x)),
        decreases items@.len() - i,
    {
        let ghost before = strs(quoted@);
        quoted.push(json_quote(items[i].as_str()));
        assert(strs(quoted@) =~= before.push(json_string(items@[i as int]@)));
        assert(strs(items@).take(i + 1).map_values(|x: Seq<char>| json_string(x)) =~= strs(items@).take(
            i as int,
        ).map_values(|x: Seq<char>| json_string(x)).push(json_string(items@[i as int]@)));
        i = i + 1;
    }
    assert(strs(items@).take(items@.len() as int) =~= strs(items@));
    let mut r = String::new();
    push_str(&mut r, "[");
    let j = join_strings(&quoted, ",");
    push_str(&mut r, j.as_str());
    push_str(&mut r, "]");
    r
}

fn features_json_of(fs: &Vec<(String, String)>) -> (r: String)
    ensures
        r@ == features_json(pairs_view(fs@)),
{
    let mut entries: Vec<String> = Vec::new();
    let ghost all = feature_entries(pairs_view(fs@));
    let mut i: usize = 0;
    while i < fs.len()
        invariant
            all == feature_entries(pairs_view(fs@)),
            i <= fs@.len(),
            strs(entries@) == all.take(i as int),
        decreases fs@.len() - i,
    {
        let mut e = json_quote(fs[i].0.as_str());
        push_str(&mut e, ":");
        let v = json_quote(fs[i].1.as_str());
        push_str(&mut e, v.as_str());
        let ghost before = strs(entries@);
        assert(pairs_view(fs@)[i as int] == (fs@[i as int].0@, fs@[i as int].1@));
        assert(e@ == all[i as int]);
        entries.push(e);
        assert(strs(entries@) =~= before.push(all[i as int]));
        assert(all.take(i + 1) =~= all.take(i as int).push(all[i as int]));
        i = i + 1;
    }
    assert(all.take(fs@.len() as int) =~= all);
    let mut r = String::new();
    push_str(&mut r, "{");
    let j = join_strings(&entries, ",");
    push_str(&mut r, j.as_str());
    push_str(&mut r, "}");
    r
}

fn selectors_json_of(ss: &Vec<(String, Vec<String>)>) -> (r: String)
    ensures
        r@ == selectors_json(selectors_view(ss@)),
{
    let mut entries: Vec<String> = Vec::new();
    let ghost all = selector_entries(selectors_view(ss@));
    let mut i: usize = 0;
    while i < ss.len()
        invariant
            all == selector_entries(selectors_view(ss@)),
            i <= ss@.len(),
            strs(entries@) == all.take(i as int),
        decreases ss@.len() - i,
    {
        let mut e = json_quote(ss[i].0.as_str());
        push_str(&mut e, ":");
        let arr = json_array_of(&ss[i].1);
        push_str(&mut e, arr.as_str());
        let ghost before = strs(entries@);
        assert(selectors_view(ss@)[i as int] == (ss@[i as int].0@, strs(ss@[i as int].1@)));
        assert(e@ == all[i as int]);
        entries.push(e);
        assert(strs(entries@) =~= before.push(all[i as int]));
        assert(all.take(i + 1) =~= all.take(i as int).push(all[i as int]));
        i = i + 1;
    }
    assert(all.take(ss@.len() as int) =~= all);
    let mut r = String::new();
    push_str(&mut r, "{");
    let j = join_strings(&entries, ",");
    push_str(&mut r, j.as_str());
    push_str(&mut r, "}");
    r
}

/// Renders the injectable probe snippet for `engine`, inlining `cfg`.
pub fn render_probe(engine: &str, cfg: &Config) -> (r: String)
    ensures
        r@ == probe_text(engine@, pairs_view(cfg.features@), selectors_view(cfg.selectors@)),
{
    let mut r = String::new();
    push_str(&mut r, PROBE_HEAD);
    let e = json_quote(engine);
    push_str(&mut r, e.as_str());
    push_str(&mut r, PROBE_FEATURES);
    let f = features_json_of(&cfg.features);
    push_str(&mut r, f.as_str());
    push_str(&mut r, PROBE_SELECTORS);
    let s = selectors_json_of(&cfg.selectors);
    push_str(&mut r, s.as_str());
    push_str(&mut r, PROBE_TAIL);
    r
}

} // verus!
