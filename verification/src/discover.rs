//! Installed apps and where they live: what makes one analyzable, how a sweep is narrowed and
//! ordered, and what an Electron install's `package.json` says about it. Reading the registry,
//! walking the disk and listing processes is the caller's part; everything decided from what
//! was found is here.
use vstd::prelude::*;
use crate::json::{has_member, json_has_member, json_member_str, json_parses, member_str, parses_as_json};
use crate::paths::{
    is_under, lemma_parts_irreflexive, lemma_parts_total, lemma_parts_transitive, parts_lt, path_less,
    path_parts, path_under,
};
use crate::strset::{
    lemma_lex_asymmetric, lemma_lex_irreflexive, lemma_lex_total, lemma_lex_transitive, lex_lt,
    str_less,
};
use crate::text::{
    ascii_lower, ascii_lowercase, chars_of, contains_seq, first_char, lemma_first_char, next_char,
    occurs_at, push_char, push_str, str_contains, str_eq, str_is_empty, str_starts_with, string_from_range,
};

verus! {

/// Which porting story an app falls under: an Electron app is Chromium-to-Chromium on Windows,
/// whereas a UWP app renders native XAML.
#[derive(Debug, Clone, Copy, PartialEq, Eq, Structural)]
pub enum AppKind {
    Uwp,
    Electron,
}

pub open spec fn kind_str(k: AppKind) -> Seq<char> {
    match k {
        AppKind::Uwp => "uwp"@,
        AppKind::Electron => "electron"@,
    }
}

impl AppKind {
    /// `"uwp"` or `"electron"`.
    pub fn as_str(self) -> (r: &'static str)
        ensures
            r@ == kind_str(self),
    {
        match self {
            AppKind::Uwp => "uwp",
            AppKind::Electron => "electron",
        }
    }
}

/// One installed app, with everything needed to feed it to `analyze`.
#[derive(Debug, Clone)]
pub struct InstalledApp {
    pub display_name: String,
    pub kind: AppKind,
    /// Package full name (UWP) or install-folder name (Electron).
    pub id: String,
    pub version: Option<String>,
    pub install_root: String,
    /// `AppxManifest.xml`: present only for UWP, and only when actually readable.
    pub manifest: Option<String>,
    /// Electron `package.json`.
    pub package_json: Option<String>,
    /// Electron main-process directory, resolved from `package.json`'s `main` field.
    pub main_dir: Option<String>,
    /// Set when the Electron app ships a packed `app.asar` instead of a loose `app/` directory.
    pub asar: Option<String>,
    /// PIDs of processes currently running out of this app's install root.
    pub running_pids: Vec<u32>,
}

pub open spec fn ostr(o: Option<String>) -> Option<Seq<char>> {
    match o {
        Some(s) => Some(s@),
        None => None,
    }
}

/// Why an app cannot be analyzed as-is, if that is the case.
pub open spec fn blocker_of(app: InstalledApp) -> Option<Seq<char>> {
    match app.kind {
        AppKind::Uwp => if app.manifest is None {
            Some("AppxManifest.xml is not readable (package may be for another user)"@)
        } else {
            None
        },
        AppKind::Electron => if app.package_json is None {
            Some(
                "main process is packed in "@ + match ostr(app.asar) {
                    Some(p) => p,
                    None => "app.asar"@,
                } + " — unpack the asar first"@,
            )
        } else {
            None
        },
    }
}

/// The ready-to-paste `assay analyze` invocation for an app, when one exists.
pub open spec fn analyze_command_of(app: InstalledApp) -> Option<Seq<char>> {
    if blocker_of(app) is Some {
        None
    } else {
        match app.kind {
            AppKind::Uwp => match ostr(app.manifest) {
                Some(m) => Some("assay analyze --appx \""@ + m + "\""@),
                None => None,
            },
            AppKind::Electron => match (ostr(app.package_json), ostr(app.main_dir)) {
                (Some(p), Some(d)) => Some(
                    "assay analyze --electron-pkg \""@ + p + "\" --electron-main \""@ + d + "\""@,
                ),
                _ => None,
            },
        }
    }
}

impl InstalledApp {
    /// At least one live process runs out of the install root.
    pub fn is_running(&self) -> (r: bool)
        ensures
            r == (self.running_pids@.len() > 0),
    {
        self.running_pids.len() > 0
    }

    /// Why this app cannot be analyzed as-is, if that is the case: a UWP package whose manifest
    /// is not readable, or an Electron app whose main process is packed in an asar. The reason
    /// is returned rather than the app omitted, so a search by name is told why it found
    /// nothing usable.
    pub fn blocker(&self) -> (r: Option<String>)
        ensures
            ostr(r) == blocker_of(*self),
    {
        match self.kind {
            AppKind::Uwp => {
                if self.manifest.is_none() {
                    Some("AppxManifest.xml is not readable (package may be for another user)".to_string())
                } else {
                    None
                }
            },
            AppKind::Electron => {
                if self.package_json.is_none() {
                    let mut s = String::new();
                    push_str(&mut s, "main process is packed in ");
                    match &self.asar {
                        Some(p) => push_str(&mut s, p.as_str()),
                        None => push_str(&mut s, "app.asar"),
                    }
                    push_str(&mut s, " — unpack the asar first");
                    Some(s)
                } else {
                    None
                }
            },
        }
    }

    /// The ready-to-paste `assay analyze` invocation for this app, when one exists: none for a
    /// blocked app, `--appx` for UWP, `--electron-pkg` with `--electron-main` for Electron.
    pub fn analyze_command(&self) -> (r: Option<String>)
        ensures
            ostr(r) == analyze_command_of(*self),
    {
        if self.blocker().is_some() {
            return None;
        }
        match self.kind {
            AppKind::Uwp => match &self.manifest {
                Some(m) => {
                    let mut s = String::new();
                    push_str(&mut s, "assay analyze --appx \"");
                    push_str(&mut s, m.as_str());
                    push_str(&mut s, "\"");
                    Some(s)
                },
                None => None,
            },
            AppKind::Electron => match (&self.package_json, &self.main_dir) {
                (Some(p), Some(d)) => {
                    let mut s = String::new();
                    push_str(&mut s, "assay analyze --electron-pkg \"");
                    push_str(&mut s, p.as_str());
                    push_str(&mut s, "\" --electron-main \"");
                    push_str(&mut s, d.as_str());
                    push_str(&mut s, "\"");
                    Some(s)
                },
                _ => None,
            },
        }
    }
}

/// std's `str::to_lowercase` of `s`: the Unicode lowercase mapping (a final sigma is lowercased
/// by its context).
pub uninterp spec fn unicode_lowercase(s: Seq<char>) -> Seq<char>;

/// std's `str::to_lowercase`. The contract names the result, a function of the text alone.
#[verifier::external_body]
pub(crate) fn lowercase(s: &str) -> (r: String)
    ensures
        r@ == unicode_lowercase(s@),
{
    s.to_lowercase()
}

/// Options narrowing a discovery sweep.
#[derive(Debug, Clone)]
pub struct DiscoverOptions {
    /// Restrict to one kind of app.
    pub kind: Option<AppKind>,
    /// Case-insensitive substring matched against the display name and the id.
    pub filter: Option<String>,
    /// Only report apps with at least one live process.
    pub running_only: bool,
}

impl Default for DiscoverOptions {
    fn default() -> (r: DiscoverOptions)
        ensures
            r.kind is None,
            r.filter is None,
            !r.running_only,
    {
        DiscoverOptions { kind: None, filter: None, running_only: false }
    }
}

/// An app passes the options: right kind, running when that is asked, and the filter (when
/// given) a case-insensitive substring of its display name or its id.
pub open spec fn matches_spec(opts: DiscoverOptions, app: InstalledApp) -> bool {
    &&& (opts.kind matches Some(k) ==> app.kind == k)
    &&& (opts.running_only ==> app.running_pids@.len() > 0)
    &&& (opts.filter matches Some(f) ==> {
        let lf = unicode_lowercase(f@);
        contains_seq(unicode_lowercase(app.display_name@), lf) || contains_seq(
            unicode_lowercase(app.id@),
            lf,
        )
    })
}

impl DiscoverOptions {
    /// Whether `app` passes these options.
    pub fn matches(&self, app: &InstalledApp) -> (r: bool)
        ensures
            r == matches_spec(*self, *app),
    {
        if let Some(k) = self.kind {
            if app.kind != k {
                return false;
            }
        }
        if self.running_only && !app.is_running() {
            return false;
        }
        if let Some(f) = &self.filter {
            let f = lowercase(f.as_str());
            let name = lowercase(app.display_name.as_str());
            let id = lowercase(app.id.as_str());
            if !str_contains(name.as_str(), f.as_str()) && !str_contains(id.as_str(), f.as_str()) {
                return false;
            }
        }
        true
    }
}

/// `a` is listed before `b`: running apps first, then by kind name, then by lowercase display
/// name.
pub open spec fn listed_before(a: InstalledApp, b: InstalledApp) -> bool {
    let ra = a.running_pids@.len() > 0;
    let rb = b.running_pids@.len() > 0;
    ||| (ra && !rb)
    ||| (ra == rb && lex_lt(kind_str(a.kind), kind_str(b.kind)))
    ||| (ra == rb && a.kind == b.kind && lex_lt(
        unicode_lowercase(a.display_name@),
        unicode_lowercase(b.display_name@),
    ))
}

/// No app of `s` is listed before an app that precedes it.
pub open spec fn listed_in_order(s: Seq<InstalledApp>) -> bool {
    forall|i: int, j: int| 0 <= i < j < s.len() ==> !listed_before(#[trigger] s[j], #[trigger] s[i])
}

proof fn lemma_kind_order(a: AppKind, b: AppKind)
    ensures
        a != b ==> (lex_lt(kind_str(a), kind_str(b)) != lex_lt(kind_str(b), kind_str(a))),
        !lex_lt(kind_str(a), kind_str(a)),
{
    reveal_strlit("uwp");
    reveal_strlit("electron");
    lemma_lex_irreflexive(kind_str(a));
    if a != b {
        assert(kind_str(a)[0] != kind_str(b)[0]);
        lemma_lex_total(kind_str(a), kind_str(b));
        if lex_lt(kind_str(a), kind_str(b)) {
            lemma_lex_asymmetric(kind_str(a), kind_str(b));
        }
    }
}

/// `listed_before` is a strict weak order: `b` not before `a` and `c` after `b` put `c` after `a`.
proof fn lemma_listed_before_chain(a: InstalledApp, b: InstalledApp, c: InstalledApp)
    requires
        !listed_before(b, a),
        listed_before(b, c),
    ensures
        listed_before(a, c),
{
    lemma_kind_order(a.kind, b.kind);
    lemma_kind_order(b.kind, c.kind);
    lemma_kind_order(a.kind, c.kind);
    let la = unicode_lowercase(a.display_name@);
    let lb = unicode_lowercase(b.display_name@);
    let lc = unicode_lowercase(c.display_name@);
    lemma_lex_total(la, lb);
    if lex_lt(la, lb) && lex_lt(lb, lc) {
        lemma_lex_transitive(la, lb, lc);
    }
    if a.kind != b.kind || b.kind != c.kind {
        reveal_strlit("uwp");
        reveal_strlit("electron");
        lemma_lex_total(kind_str(a.kind), kind_str(c.kind));
    }
}

/// Whether `a` is listed before `b`.
fn listed_before_exec(a: &InstalledApp, b: &InstalledApp) -> (r: bool)
    ensures
        r == listed_before(*a, *b),
{
    let ra = a.is_running();
    let rb = b.is_running();
    if ra && !rb {
        return true;
    }
    if ra != rb {
        return false;
    }
    if str_less(a.kind.as_str(), b.kind.as_str()) {
        return true;
    }
    if a.kind != b.kind {
        return false;
    }
    let la = lowercase(a.display_name.as_str());
    let lb = lowercase(b.display_name.as_str());
    str_less(la.as_str(), lb.as_str())
}

proof fn lemma_listed_before_asym(a: InstalledApp, b: InstalledApp)
    requires
        listed_before(a, b),
    ensures
        !listed_before(b, a),
{
    lemma_kind_order(a.kind, b.kind);
    let la = unicode_lowercase(a.display_name@);
    let lb = unicode_lowercase(b.display_name@);
    if lex_lt(la, lb) {
        lemma_lex_asymmetric(la, lb);
    }
    if lex_lt(kind_str(a.kind), kind_str(b.kind)) {
        lemma_lex_asymmetric(kind_str(a.kind), kind_str(b.kind));
    }
}

/// The first position from `k` on whose app `a` is listed before (the end when none is).
pub open spec fn place_from(s: Seq<InstalledApp>, a: InstalledApp, k: int) -> int
    decreases s.len() - k,
{
    if k < 0 || k >= s.len() {
        s.len() as int
    } else if listed_before(a, s[k]) {
        k
    } else {
        place_from(s, a, k + 1)
    }
}

/// `s` with `a` put after every app it is not listed before.
pub open spec fn placed(s: Seq<InstalledApp>, a: InstalledApp) -> Seq<InstalledApp> {
    s.insert(place_from(s, a, 0), a)
}

/// `s` in listing order, apps that compare equal keeping their order in `s`: each app in turn
/// put after every earlier app it is not listed before.
pub open spec fn in_listing_order(s: Seq<InstalledApp>) -> Seq<InstalledApp>
    decreases s.len(),
{
    if s.len() == 0 {
        s
    } else {
        placed(in_listing_order(s.drop_last()), s.last())
    }
}

/// Puts `app` into the ordered `r` after every app it is not listed before.
fn insert_in_order(r: &mut Vec<InstalledApp>, app: InstalledApp)
    requires
        listed_in_order(old(r)@),
    ensures
        listed_in_order(final(r)@),
        final(r)@.to_multiset() == old(r)@.to_multiset().insert(app),
        final(r)@ == placed(old(r)@, app),
{
    let ghost s0 = r@;
    let mut p: usize = 0;
    while p < r.len() && !listed_before_exec(&app, &r[p])
        invariant
            s0 == r@,
            p <= r@.len(),
            forall|k: int| 0 <= k < p ==> !listed_before(app, #[trigger] s0[k]),
            place_from(s0, app, p as int) == place_from(s0, app, 0),
        decreases r@.len() - p,
    {
        p = p + 1;
    }
    assert(place_from(s0, app, p as int) == p);
    let ghost a = app;
    proof {
        assert forall|m: int| p <= m < s0.len() implies !listed_before(#[trigger] s0[m], a) by {
            assert(listed_before(a, s0[p as int]));
            if listed_before(s0[m], a) {
                lemma_listed_before_asym(s0[m], a);
                lemma_listed_before_chain(s0[m], a, s0[p as int]);
                if m == p {
                    lemma_listed_before_asym(s0[m], a);
                }
            }
        }
    }
    r.insert(p, app);
    let ghost s1 = r@;
    proof {
        vstd::seq_lib::to_multiset_insert(s0, p as int, a);
        assert forall|i: int, j: int| 0 <= i < j < s1.len() implies !listed_before(
            #[trigger] s1[j],
            #[trigger] s1[i],
        ) by {
            if j < p {
                assert(s1[i] == s0[i] && s1[j] == s0[j]);
            } else if j == p {
                assert(s1[i] == s0[i]);
            } else if i == p {
                assert(s1[j] == s0[j - 1]);
            } else if i < p {
                assert(s1[i] == s0[i] && s1[j] == s0[j - 1]);
            } else {
                assert(s1[i] == s0[i - 1] && s1[j] == s0[j - 1]);
            }
        }
    }
}

/// Narrow a sweep's findings to the apps the options ask for, listed running-first, then by
/// kind, then by name; apps that compare equal keep the order they were found in.
pub fn discover(opts: &DiscoverOptions, found: Vec<InstalledApp>) -> (r: Vec<InstalledApp>)
    ensures
        r@ == in_listing_order(found@.filter(|a: InstalledApp| matches_spec(*opts, a))),
        r@.to_multiset() == found@.filter(|a: InstalledApp| matches_spec(*opts, a)).to_multiset(),
        listed_in_order(r@),
{
    let ghost keep = |a: InstalledApp| matches_spec(*opts, a);
    let ghost all = found@;
    let n = found.len();
    let mut rest = found;
    let mut r: Vec<InstalledApp> = Vec::new();
    let mut i: usize = 0;
    assert(all.take(0).filter(keep) =~= Seq::<InstalledApp>::empty());
    assert(all.skip(0) =~= all);
    while rest.len() > 0
        invariant
            i <= all.len(),
            all.len() == n,
            rest@ == all.skip(i as int),
            keep == (|a: InstalledApp| matches_spec(*opts, a)),
            r@.to_multiset() == all.take(i as int).filter(keep).to_multiset(),
            r@ == in_listing_order(all.take(i as int).filter(keep)),
            listed_in_order(r@),
        decreases rest@.len(),
    {
        let app = rest.remove(0);
        assert(app == all[i as int]);
        assert(rest@ =~= all.skip(i + 1));
        assert(all.take(i + 1) =~= all.take(i as int).push(app));
        proof {
            all.take(i as int).lemma_filter_push(app, keep);
        }
        if opts.matches(&app) {
            proof {
                vstd::seq_lib::to_multiset_build(all.take(i as int).filter(keep), app);
                let x = all.take(i as int).filter(keep);
                assert(x.push(app).drop_last() =~= x);
            }
            insert_in_order(&mut r, app);
        }
        i = i + 1;
    }
    assert(all.take(i as int) =~= all);
    r
}

/// The name part of a package full name (`Name_Version_arch__hash`): everything before the
/// first `_`.
pub open spec fn id_name(id: Seq<char>) -> Seq<char> {
    id.take(first_char(id, '_') as int)
}

/// The version part of a package full name: between the first and second `_`, when there is
/// a first.
pub open spec fn id_version(id: Seq<char>) -> Option<Seq<char>> {
    let k = first_char(id, '_');
    if k >= id.len() {
        None
    } else {
        let rest = id.skip(k as int + 1);
        Some(rest.take(first_char(rest, '_') as int))
    }
}

proof fn lemma_first_char_bound(s: Seq<char>, c: char)
    ensures
        first_char(s, c) <= s.len(),
    decreases s.len(),
{
    if s.len() > 0 && s[0] != c {
        lemma_first_char_bound(s.drop_first(), c);
    }
}

/// Splits a package full name (`Name_Version_arch__hash`) into its name and version parts.
pub fn split_package_id(id: &str) -> (r: (String, Option<String>))
    ensures
        r.0@ == id_name(id@),
        ostr(r.1) == id_version(id@),
{
    let v = chars_of(id);
    let k = next_char(&v, 0, '_');
    assert(v@.skip(0) =~= v@);
    let name = string_from_range(&v, 0, k);
    assert(v@.subrange(0, k as int) =~= id_name(id@));
    if k >= v.len() {
        return (name, None);
    }
    let e = next_char(&v, k + 1, '_');
    let version = string_from_range(&v, k + 1, e);
    assert(v@.subrange(k + 1, e as int) =~= v@.skip(k + 1).take(first_char(v@.skip(k + 1), '_') as int));
    (name, Some(version))
}

/// A registry display name, unless it is empty or an unresolved resource indirection
/// (`ms-resource:...` or `@{...}`), in which case the package name.
pub open spec fn display_name_of(raw: Option<Seq<char>>, package_id: Seq<char>) -> Seq<char> {
    match raw {
        Some(d) => if d.len() > 0 && !"ms-resource:"@.is_prefix_of(d) && !"@{"@.is_prefix_of(d) {
            d
        } else {
            id_name(package_id)
        },
        None => id_name(package_id),
    }
}

/// The display name to list a UWP package under: the registry's, unless it is empty or an
/// unresolved resource indirection, which fall back to the package name.
pub fn clean_display_name(raw: Option<String>, package_id: &str) -> (r: String)
    ensures
        r@ == display_name_of(ostr(raw), package_id@),
{
    let (name, _) = split_package_id(package_id);
    match raw {
        Some(d) => {
            if !str_is_empty(d.as_str()) && !str_starts_with(d.as_str(), "ms-resource:")
                && !str_starts_with(d.as_str(), "@{") {
                d
            } else {
                name
            }
        },
        None => name,
    }
}

/// Directory names that never contain an installed app but do contain many copies of one.
pub open spec fn skip_dirs() -> Seq<Seq<char>> {
    seq!["temp"@, "cache"@, "crashdumps"@, "node_modules"@, "logs"@, "backup"@]
}

/// A directory the Electron walk does not enter: a scratch or dependency directory (ASCII
/// case-insensitively), or a dotted one.
pub open spec fn skipped_dir(name: Seq<char>) -> bool {
    let lower = name.map_values(|c: char| ascii_lower(c));
    skip_dirs().contains(lower) || (lower.len() > 0 && lower[0] == '.')
}

/// `name` with `A`..=`Z` mapped to `a`..=`z`.
fn ascii_lowercase_string(name: &str) -> (r: String)
    ensures
        r@ == name@.map_values(|c: char| ascii_lower(c)),
{
    let v = chars_of(name);
    let mut lower = String::new();
    let mut i: usize = 0;
    while i < v.len()
        invariant
            v@ == name@,
            i <= v@.len(),
            lower@ == v@.take(i as int).map_values(|c: char| ascii_lower(c)),
        decreases v@.len() - i,
    {
        push_char(&mut lower, ascii_lowercase(v[i]));
        assert(v@.take(i + 1).map_values(|c: char| ascii_lower(c)) =~= v@.take(i as int).map_values(
            |c: char| ascii_lower(c),
        ).push(ascii_lower(v@[i as int])));
        i = i + 1;
    }
    assert(v@.take(v@.len() as int) =~= v@);
    lower
}

/// A directory called `name` is an install's `resources` directory (ASCII case-insensitively).
pub open spec fn resources_dir(name: Seq<char>) -> bool {
    name.map_values(|c: char| ascii_lower(c)) == "resources"@
}

/// Whether a directory called `name` is where an Electron install keeps its app.
pub fn is_resources_dir(name: &str) -> (r: bool)
    ensures
        r == resources_dir(name@),
{
    let lower = ascii_lowercase_string(name);
    str_eq(lower.as_str(), "resources")
}

/// Whether the Electron walk skips a directory called `name`.
pub fn is_skipped_dir(name: &str) -> (r: bool)
    ensures
        r == skipped_dir(name@),
{
    let lower = ascii_lowercase_string(name);
    let ghost lv = name@.map_values(|c: char| ascii_lower(c));
    let l = lower.as_str();
    let listed = str_eq(l, "temp") || str_eq(l, "cache") || str_eq(l, "crashdumps") || str_eq(
        l,
        "node_modules",
    ) || str_eq(l, "logs") || str_eq(l, "backup");
    assert(listed == skip_dirs().contains(lv)) by {
        if skip_dirs().contains(lv) {
            let k = choose|k: int| 0 <= k < skip_dirs().len() && skip_dirs()[k] == lv;
            assert(k == 0 || k == 1 || k == 2 || k == 3 || k == 4 || k == 5);
        }
        if listed {
            if lv == "temp"@ { assert(skip_dirs()[0] == lv); }
            else if lv == "cache"@ { assert(skip_dirs()[1] == lv); }
            else if lv == "crashdumps"@ { assert(skip_dirs()[2] == lv); }
            else if lv == "node_modules"@ { assert(skip_dirs()[3] == lv); }
            else if lv == "logs"@ { assert(skip_dirs()[4] == lv); }
            else { assert(skip_dirs()[5] == lv); }
        }
    }
    let dotted = str_starts_with(l, ".");
    proof {
        reveal_strlit(".");
        if lv.len() > 0 && lv[0] == '.' {
            assert(lv.subrange(0, 1) =~= "."@);
        }
        if dotted {
            assert(lv.subrange(0, 1)[0] == lv[0]);
        }
        assert(dotted == (lv.len() > 0 && lv[0] == '.'));
    }
    listed || dotted
}

/// What an Electron app's `package.json` says about it.
#[derive(Debug, Clone)]
pub struct ElectronPackage {
    /// `productName`, or `name` when there is no `productName` member.
    pub display_name: Option<String>,
    pub version: Option<String>,
    /// The main-process entry, relative to the package root (`index.js` when unset).
    pub main: String,
}

pub struct ElectronPackageView {
    pub display_name: Option<Seq<char>>,
    pub version: Option<Seq<char>>,
    pub main: Seq<char>,
}

impl View for ElectronPackage {
    type V = ElectronPackageView;

    open spec fn view(&self) -> ElectronPackageView {
        ElectronPackageView {
            display_name: ostr(self.display_name),
            version: ostr(self.version),
            main: self.main@,
        }
    }
}

/// The facts of an Electron `package.json`, or `None` when the text is not JSON.
pub open spec fn electron_package_of(text: Seq<char>) -> Option<ElectronPackageView> {
    if !json_parses(text) {
        None
    } else {
        Some(
            ElectronPackageView {
                display_name: if json_has_member(text, "productName"@) {
                    json_member_str(text, "productName"@)
                } else {
                    json_member_str(text, "name"@)
                },
                version: json_member_str(text, "version"@),
                main: match json_member_str(text, "main"@) {
                    Some(m) => m,
                    None => "index.js"@,
                },
            },
        )
    }
}

/// Reads an Electron `package.json`: its display name (`productName`, else `name`; a
/// `productName` that is not a string gives none), its version, and its `main` entry
/// (`index.js` when unset). `None` when the text is not JSON.
pub fn electron_package_info(text: &str) -> (r: Option<ElectronPackage>)
    ensures
        match r {
            Some(p) => electron_package_of(text@) == Some(p@),
            None => electron_package_of(text@) is None,
        },
{
    if !parses_as_json(text) {
        return None;
    }
    let display_name = if has_member(text, "productName") {
        member_str(text, "productName")
    } else {
        member_str(text, "name")
    };
    let version = member_str(text, "version");
    let main = match member_str(text, "main") {
        Some(m) => m,
        None => "index.js".to_string(),
    };
    Some(ElectronPackage { display_name, version, main })
}

/// The app an Electron `resources` directory describes, or `None` when it holds neither a
/// loose `app/package.json` nor an `app.asar`. An unpacked package wins over an asar; the
/// display name comes from `package.json` when it has one, else the install folder's name,
/// else `unknown`.
pub open spec fn electron_app_of(
    install_root: Seq<char>,
    folder_name: Option<Seq<char>>,
    unpacked: Option<Seq<char>>,
    asar: Option<Seq<char>>,
    package: Option<ElectronPackageView>,
    main_dir: Option<Seq<char>>,
    app: InstalledApp,
) -> bool {
    &&& app.kind == AppKind::Electron
    &&& app.install_root@ == install_root
    &&& app.id@ == match folder_name {
        Some(n) => n,
        None => Seq::<char>::empty(),
    }
    &&& app.display_name@ == match package {
        Some(p) if unpacked is Some && p.display_name is Some => p.display_name->0,
        _ => match folder_name {
            Some(n) => n,
            None => "unknown"@,
        },
    }
    &&& ostr(app.version) == match package {
        Some(p) if unpacked is Some => p.version,
        _ => None,
    }
    &&& app.manifest is None
    &&& ostr(app.package_json) == unpacked
    &&& ostr(app.asar) == if unpacked is Some { None } else { asar }
    &&& ostr(app.main_dir) == if unpacked is Some && package is Some { main_dir } else { None }
    &&& app.running_pids@.len() == 0
}

/// Builds the app found at an Electron `resources` directory from what the walk saw there:
/// the install root and its folder name, the `app/package.json` path when it is a file, the
/// `app.asar` path when it is a file, the parsed `package.json` (when it was read and is JSON),
/// and the main-process directory its `main` entry points into (when that is a directory). A
/// packed app's `package.json` is not read, so only an unpacked one names the app.
pub fn electron_app_at(
    install_root: String,
    folder_name: Option<String>,
    unpacked: Option<String>,
    asar: Option<String>,
    package: Option<ElectronPackage>,
    main_dir: Option<String>,
) -> (r: Option<InstalledApp>)
    ensures
        (unpacked is None && asar is None) <==> r is None,
        r matches Some(app) ==> electron_app_of(
            install_root@,
            ostr(folder_name),
            ostr(unpacked),
            ostr(asar),
            match package {
                Some(p) => Some(p@),
                None => None,
            },
            ostr(main_dir),
            app,
        ),
{
    let (package_json, asar) = match unpacked {
        Some(p) => (Some(p), None),
        None => match asar {
            Some(a) => (None, Some(a)),
            None => {
                return None;
            },
        },
    };
    let id = match &folder_name {
        Some(n) => n.clone(),
        None => String::new(),
    };
    let fallback = match folder_name {
        Some(n) => n,
        None => "unknown".to_string(),
    };
    let mut display_name = fallback;
    let mut version: Option<String> = None;
    let mut dir: Option<String> = None;
    if package_json.is_some() {
        if let Some(p) = package {
            if let Some(n) = p.display_name {
                display_name = n;
            }
            version = p.version;
            dir = main_dir;
        }
    }
    Some(InstalledApp {
        display_name,
        kind: AppKind::Electron,
        id,
        version,
        install_root,
        manifest: None,
        package_json,
        main_dir: dir,
        asar,
        running_pids: Vec::new(),
    })
}

/// The install roots of `s`, each as its path components.
pub open spec fn root_parts(s: Seq<InstalledApp>) -> Seq<Seq<Seq<char>>> {
    s.map_values(|a: InstalledApp| path_parts(a.install_root@))
}

/// Component lists strictly increasing in path order.
pub open spec fn paths_ascending(s: Seq<Seq<Seq<char>>>) -> bool {
    forall|i: int, j: int| 0 <= i < j < s.len() ==> parts_lt(#[trigger] s[i], #[trigger] s[j])
}

/// `app` is the first app of `all` with its install root (roots compared as paths, component
/// by component).
pub open spec fn first_with_root(all: Seq<InstalledApp>, app: InstalledApp) -> bool {
    exists|j: int|
        0 <= j < all.len() && all[j] == app && forall|k: int|
            0 <= k < j ==> path_parts((#[trigger] all[k]).install_root@) != path_parts(
                app.install_root@,
            )
}

proof fn lemma_push_set<A>(s: Seq<A>, x: A)
    ensures
        s.push(x).to_set() == s.to_set().insert(x),
{
    assert forall|y: A| s.push(x).to_set().contains(y) <==> s.to_set().insert(x).contains(y) by {
        if s.push(x).contains(y) {
            let k = choose|k: int| 0 <= k < s.push(x).len() && s.push(x)[k] == y;
            if k < s.len() {
                assert(s[k] == y);
            }
        }
        if s.contains(y) {
            let k = choose|k: int| 0 <= k < s.len() && s[k] == y;
            assert(s.push(x)[k] == y);
        }
        if y == x {
            assert(s.push(x)[s.len() as int] == y);
        }
    }
    assert(s.push(x).to_set() =~= s.to_set().insert(x));
}

/// Puts `app` into `r` (strictly ordered by install root, as paths) unless its root is already
/// there.
fn insert_new_root(r: &mut Vec<InstalledApp>, app: InstalledApp)
    requires
        paths_ascending(root_parts(old(r)@)),
    ensures
        paths_ascending(root_parts(final(r)@)),
        root_parts(final(r)@).to_set() == root_parts(old(r)@).to_set().insert(
            path_parts(app.install_root@),
        ),
        root_parts(old(r)@).contains(path_parts(app.install_root@)) ==> final(r)@ == old(r)@,
        !root_parts(old(r)@).contains(path_parts(app.install_root@)) ==> exists|p: int|
            0 <= p <= old(r)@.len() && final(r)@ == old(r)@.insert(p, app),
{
    let ghost s0 = root_parts(r@);
    let ghost x = path_parts(app.install_root@);
    let mut p: usize = 0;
    while p < r.len() && path_less(r[p].install_root.as_str(), app.install_root.as_str())
        invariant
            s0 == root_parts(r@),
            x == path_parts(app.install_root@),
            p <= r@.len(),
            forall|k: int| 0 <= k < p ==> parts_lt(#[trigger] s0[k], x),
        decreases r@.len() - p,
    {
        p = p + 1;
    }
    if p < r.len() {
        proof {
            lemma_parts_total(s0[p as int], x);
        }
        if !path_less(app.install_root.as_str(), r[p].install_root.as_str()) {
            assert(s0[p as int] == x);
            assert(s0.to_set() =~= s0.to_set().insert(x)) by {
                assert(s0.contains(x));
            }
            return;
        }
    }
    proof {
        assert forall|j: int| p <= j < s0.len() implies parts_lt(x, #[trigger] s0[j]) by {
            if j > p {
                lemma_parts_transitive(x, s0[p as int], s0[j]);
            }
        }
        if s0.contains(x) {
            let k = choose|k: int| 0 <= k < s0.len() && s0[k] == x;
            lemma_parts_irreflexive(x);
            if k >= p {
                assert(parts_lt(x, s0[k]));
            }
        }
    }
    let ghost a = app;
    let ghost r0 = r@;
    r.insert(p, app);
    let ghost s1 = root_parts(r@);
    assert(s1 =~= s0.insert(p as int, x));
    assert(r@ == r0.insert(p as int, a));
    proof {
        assert forall|ii: int, jj: int| 0 <= ii < jj < s1.len() implies parts_lt(
            #[trigger] s1[ii],
            #[trigger] s1[jj],
        ) by {
            if jj < p {
                assert(s1[ii] == s0[ii] && s1[jj] == s0[jj]);
            } else if jj == p {
                assert(s1[ii] == s0[ii]);
            } else if ii == p {
                assert(s1[jj] == s0[jj - 1]);
            } else if ii < p {
                assert(s1[ii] == s0[ii] && s1[jj] == s0[jj - 1]);
            } else {
                assert(s1[ii] == s0[ii - 1] && s1[jj] == s0[jj - 1]);
            }
        }
        assert forall|y: Seq<Seq<char>>| s1.to_set().contains(y) <==> s0.to_set().insert(x).contains(y) by {
            if s1.contains(y) {
                let k = choose|k: int| 0 <= k < s1.len() && s1[k] == y;
                if k < p {
                    assert(s0[k] == y);
                } else if k > p {
                    assert(s0[k - 1] == y);
                }
            }
            if s0.contains(y) {
                let k = choose|k: int| 0 <= k < s0.len() && s0[k] == y;
                if k < p {
                    assert(s1[k] == y);
                } else {
                    assert(s1[k + 1] == y);
                }
            }
            if y == x {
                assert(s1[p as int] == y);
            }
        }
        assert(s1.to_set() =~= s0.to_set().insert(x));
    }
}

/// One app per install root, in path order of the roots (component by component, as
/// `std::path::Path` orders them), keeping the first app found for each root (the Electron
/// walk can reach one install from two search roots). Roots with the same components are the
/// same root.
pub fn dedup_installs(found: Vec<InstalledApp>) -> (r: Vec<InstalledApp>)
    ensures
        paths_ascending(root_parts(r@)),
        root_parts(r@).to_set() == root_parts(found@).to_set(),
        forall|k: int| 0 <= k < r@.len() ==> first_with_root(found@, #[trigger] r@[k]),
{
    let ghost all = found@;
    let n = found.len();
    let mut rest = found;
    let mut r: Vec<InstalledApp> = Vec::new();
    let mut i: usize = 0;
    assert(all.skip(0) =~= all);
    assert(root_parts(r@).to_set() =~= root_parts(all.take(0)).to_set());
    while rest.len() > 0
        invariant
            i <= all.len(),
            all.len() == n,
            rest@ == all.skip(i as int),
            paths_ascending(root_parts(r@)),
            root_parts(r@).to_set() == root_parts(all.take(i as int)).to_set(),
            forall|k: int| 0 <= k < r@.len() ==> exists|j: int|
                0 <= j < i && all[j] == #[trigger] r@[k] && forall|m: int|
                    0 <= m < j ==> path_parts((#[trigger] all[m]).install_root@) != path_parts(
                        r@[k].install_root@,
                    ),
        decreases rest@.len(),
    {
        let app = rest.remove(0);
        assert(app == all[i as int]);
        assert(rest@ =~= all.skip(i + 1));
        let ghost x = path_parts(app.install_root@);
        let ghost prefix = root_parts(all.take(i as int));
        assert(root_parts(all.take(i + 1)) =~= prefix.push(x));
        proof {
            lemma_push_set(prefix, x);
        }
        let ghost r0 = r@;
        let ghost was_there = root_parts(r0).contains(x);
        proof {
            if !was_there {
                assert forall|m: int| 0 <= m < i implies path_parts((#[trigger] all[m]).install_root@) != x by {
                    if path_parts(all[m].install_root@) == x {
                        assert(prefix[m] == x);
                        assert(prefix.to_set().contains(x));
                        assert(root_parts(r0).to_set().contains(x));
                    }
                }
            }
        }
        insert_new_root(&mut r, app);
        proof {
            assert forall|k: int| 0 <= k < r@.len() implies exists|j: int|
                0 <= j < i + 1 && all[j] == #[trigger] r@[k] && forall|m: int|
                    0 <= m < j ==> path_parts((#[trigger] all[m]).install_root@) != path_parts(
                        r@[k].install_root@,
                    ) by {
                if was_there {
                    assert(r@[k] == r0[k]);
                } else {
                    let p = choose|p: int| 0 <= p <= r0.len() && r@ == r0.insert(p, all[i as int]);
                    if k == p {
                        assert(all[i as int] == r@[k]);
                    } else if k < p {
                        assert(r@[k] == r0[k]);
                    } else {
                        assert(r@[k] == r0[k - 1]);
                    }
                }
            }
        }
        i = i + 1;
    }
    assert(all.take(i as int) =~= all);
    r
}

/// The ids of the processes in `procs` whose executable lies under `root`, in `procs` order.
pub open spec fn pids_under(procs: Seq<(u32, String)>, root: Seq<char>) -> Seq<u32>
    decreases procs.len(),
{
    if procs.len() == 0 {
        seq![]
    } else {
        let rest = pids_under(procs.drop_last(), root);
        if path_under(procs.last().1@, root) {
            rest.push(procs.last().0)
        } else {
            rest
        }
    }
}

/// `b` is `a` with its running processes set to `pids`.
pub open spec fn with_pids(a: InstalledApp, b: InstalledApp, pids: Seq<u32>) -> bool {
    &&& b.display_name == a.display_name
    &&& b.kind == a.kind
    &&& b.id == a.id
    &&& b.version == a.version
    &&& b.install_root == a.install_root
    &&& b.manifest == a.manifest
    &&& b.package_json == a.package_json
    &&& b.main_dir == a.main_dir
    &&& b.asar == a.asar
    &&& b.running_pids@ == pids
}

/// The processes of `procs` (id and executable path) running from under `root`.
fn pids_of(procs: &Vec<(u32, String)>, root: &str) -> (r: Vec<u32>)
    ensures
        r@ == pids_under(procs@, root@),
{
    let mut r: Vec<u32> = Vec::new();
    let mut i: usize = 0;
    while i < procs.len()
        invariant
            i <= procs@.len(),
            r@ == pids_under(procs@.take(i as int), root@),
        decreases procs@.len() - i,
    {
        assert(procs@.take(i + 1).drop_last() =~= procs@.take(i as int));
        let (pid, path) = &procs[i];
        if is_under(path.as_str(), root) {
            r.push(*pid);
        }
        i = i + 1;
    }
    assert(procs@.take(procs@.len() as int) =~= procs@);
    r
}

/// Each app with the processes (id and executable path) running from under its install
/// root, compared by path components as `Path::starts_with` does, in the order the
/// processes are listed; nothing else about the apps changes.
pub fn attach_running(apps: Vec<InstalledApp>, procs: &Vec<(u32, String)>) -> (r: Vec<InstalledApp>)
    ensures
        r@.len() == apps@.len(),
        forall|i: int|
            0 <= i < r@.len() ==> with_pids(
                apps@[i],
                #[trigger] r@[i],
                pids_under(procs@, apps@[i].install_root@),
            ),
{
    let ghost all = apps@;
    let mut rest = apps;
    let mut r: Vec<InstalledApp> = Vec::new();
    assert(all.skip(0) =~= all);
    while rest.len() > 0
        invariant
            r@.len() + rest@.len() == all.len(),
            rest@ == all.skip(r@.len() as int),
            forall|i: int|
                0 <= i < r@.len() ==> with_pids(
                    all[i],
                    #[trigger] r@[i],
                    pids_under(procs@, all[i].install_root@),
                ),
        decreases rest@.len(),
    {
        let k = r.len();
        let mut a = rest.remove(0);
        assert(a == all[k as int]);
        assert(rest@ =~= all.skip(k + 1));
        let pids = pids_of(procs, a.install_root.as_str());
        a.running_pids = pids;
        r.push(a);
    }
    r
}

proof fn lemma_contains_itself(h: Seq<char>)
    ensures
        contains_seq(h, h),
{
    assert(h.subrange(0, h.len() as int) =~= h);
    assert(occurs_at(h, h, 0));
}

/// The filter ignores case and covers both the display name and the id: an app is found by a
/// filter that equals its display name or its id up to case, whenever the kind and the
/// running requirement let it through.
pub proof fn law_a_name_filter_finds_its_app(opts: DiscoverOptions, app: InstalledApp)
    requires
        opts.kind matches Some(k) ==> app.kind == k,
        opts.running_only ==> app.running_pids@.len() > 0,
        opts.filter matches Some(f) && (unicode_lowercase(f@) == unicode_lowercase(app.display_name@)
            || unicode_lowercase(f@) == unicode_lowercase(app.id@)),
    ensures
        matches_spec(opts, app),
{
    lemma_contains_itself(unicode_lowercase(app.display_name@));
    lemma_contains_itself(unicode_lowercase(app.id@));
}

} // verus!
