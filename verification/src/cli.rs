//! The decisions behind the command line: reading `--kind` / `--source`, resolving `--app` to
//! exactly one discovered app and to what can be read from it, and the discovery listing.
use vstd::prelude::*;
use crate::discover::{analyze_command_of, blocker_of, kind_str, ostr, AppKind, InstalledApp};
use crate::matrix::Source;
use crate::text::{dec, join_seqs, join_strings, push_dec, push_str, str_eq, str_starts_with};

verus! {

/// `--kind`: `uwp`, `electron`, or absent; anything else is a usage error with this message.
pub open spec fn kind_arg(kind: Option<Seq<char>>) -> Result<Option<AppKind>, Seq<char>> {
    match kind {
        None => Ok(None),
        Some(k) => if k == "uwp"@ {
            Ok(Some(AppKind::Uwp))
        } else if k == "electron"@ {
            Ok(Some(AppKind::Electron))
        } else {
            Err("--kind must be 'uwp' or 'electron', got '"@ + k + "'"@)
        },
    }
}

/// Reads `--kind`. An unknown value is a usage error, whose message comes back.
pub fn parse_kind(kind: &Option<String>) -> (r: Result<Option<AppKind>, String>)
    ensures
        match r {
            Ok(k) => kind_arg(ostr(*kind)) == Ok::<Option<AppKind>, Seq<char>>(k),
            Err(m) => kind_arg(ostr(*kind)) == Err::<Option<AppKind>, Seq<char>>(m@),
        },
{
    match kind {
        None => Ok(None),
        Some(k) => {
            if str_eq(k.as_str(), "uwp") {
                Ok(Some(AppKind::Uwp))
            } else if str_eq(k.as_str(), "electron") {
                Ok(Some(AppKind::Electron))
            } else {
                let mut m = String::new();
                push_str(&mut m, "--kind must be 'uwp' or 'electron', got '");
                push_str(&mut m, k.as_str());
                push_str(&mut m, "'");
                Err(m)
            }
        },
    }
}

/// `--source`: `uwp`, `electron`, or absent; anything else is a usage error with this message.
pub open spec fn source_arg(source: Option<Seq<char>>) -> Result<Option<Source>, Seq<char>> {
    match source {
        None => Ok(None),
        Some(k) => if k == "uwp"@ {
            Ok(Some(Source::Uwp))
        } else if k == "electron"@ {
            Ok(Some(Source::Electron))
        } else {
            Err("--source must be 'uwp' or 'electron', got '"@ + k + "'"@)
        },
    }
}

/// Reads `--source`. An unknown value is a usage error, whose message comes back.
pub fn parse_source(source: &Option<String>) -> (r: Result<Option<Source>, String>)
    ensures
        match r {
            Ok(k) => source_arg(ostr(*source)) == Ok::<Option<Source>, Seq<char>>(k),
            Err(m) => source_arg(ostr(*source)) == Err::<Option<Source>, Seq<char>>(m@),
        },
{
    match source {
        None => Ok(None),
        Some(k) => {
            if str_eq(k.as_str(), "uwp") {
                Ok(Some(Source::Uwp))
            } else if str_eq(k.as_str(), "electron") {
                Ok(Some(Source::Electron))
            } else {
                let mut m = String::new();
                push_str(&mut m, "--source must be 'uwp' or 'electron', got '");
                push_str(&mut m, k.as_str());
                push_str(&mut m, "'");
                Err(m)
            }
        },
    }
}

pub open spec fn app_label(a: InstalledApp) -> Seq<char> {
    a.display_name@ + " ("@ + a.id@ + ")"@
}

/// Why `--app <name>` does not pick out exactly one app, or the app it picks.
pub open spec fn one_app_error(name: Seq<char>, apps: Seq<InstalledApp>) -> Option<Seq<char>> {
    if apps.len() == 0 {
        Some("no installed app matches '"@ + name + "' — run `assay discover` to see what is available"@)
    } else if apps.len() == 1 {
        None
    } else {
        Some(
            "'"@ + name + "' is ambiguous — "@ + dec(apps.len()) + " apps match:\n  "@ + join_seqs(
                apps.map_values(|a: InstalledApp| app_label(a)),
                "\n  "@,
            ),
        )
    }
}

/// Resolves `--app <name>` against the apps discovered for it: exactly one, or an error that
/// says there is none or lists the candidates (guessing risks analyzing the wrong app).
pub fn pick_one_app(name: &str, apps: Vec<InstalledApp>) -> (r: Result<InstalledApp, String>)
    ensures
        match r {
            Ok(a) => one_app_error(name@, apps@) is None && a == apps@[0],
            Err(m) => one_app_error(name@, apps@) == Some(m@),
        },
{
    if apps.len() == 0 {
        let mut m = String::new();
        push_str(&mut m, "no installed app matches '");
        push_str(&mut m, name);
        push_str(&mut m, "' — run `assay discover` to see what is available");
        return Err(m);
    }
    if apps.len() == 1 {
        let mut apps = apps;
        return Ok(apps.remove(0));
    }
    let mut labels: Vec<String> = Vec::new();
    let mut i: usize = 0;
    while i < apps.len()
        invariant
            i <= apps@.len(),
            labels@.map_values(|s: String| s@) == apps@.take(i as int).map_values(
                |a: InstalledApp| app_label(a),
            ),
        decreases apps@.len() - i,
    {
        let mut l = String::new();
        push_str(&mut l, apps[i].display_name.as_str());
        push_str(&mut l, " (");
        push_str(&mut l, apps[i].id.as_str());
        push_str(&mut l, ")");
        let ghost before = labels@.map_values(|s: String| s@);
        labels.push(l);
        assert(labels@.map_values(|s: String| s@) =~= before.push(app_label(apps@[i as int])));
        assert(apps@.take(i + 1).map_values(|a: InstalledApp| app_label(a)) =~= apps@.take(
            i as int,
        ).map_values(|a: InstalledApp| app_label(a)).push(app_label(apps@[i as int])));
        i = i + 1;
    }
    assert(apps@.take(apps@.len() as int) =~= apps@);
    let mut m = String::new();
    push_str(&mut m, "'");
    push_str(&mut m, name);
    push_str(&mut m, "' is ambiguous — ");
    push_dec(&mut m, apps.len() as u64);
    push_str(&mut m, " apps match:\n  ");
    let joined = join_strings(&labels, "\n  ");
    push_str(&mut m, joined.as_str());
    Err(m)
}

/// Where an app's capability profile is read from.
#[derive(Debug, Clone)]
pub enum AppSource {
    /// A UWP package's `AppxManifest.xml`.
    Appx(String),
    /// An Electron app's `package.json` and main-process directory.
    Electron { package_json: String, main_dir: String },
}

/// What `analyze --app` reads for a resolved app, or why it cannot.
pub open spec fn analysis_source_of(app: InstalledApp) -> Result<(Seq<char>, Option<Seq<char>>), Seq<char>> {
    match blocker_of(app) {
        Some(why) => Err("'"@ + app.display_name@ + "' cannot be analyzed: "@ + why),
        None => match app.kind {
            AppKind::Uwp => Ok((ostr(app.manifest)->0, None)),
            AppKind::Electron => match ostr(app.main_dir) {
                Some(d) => Ok((ostr(app.package_json)->0, Some(d))),
                None => Err("'"@ + app.display_name@ + "' has no resolvable main-process directory"@),
            },
        },
    }
}

/// What `analyze --app` reads for a resolved app: its manifest (UWP) or its `package.json`
/// and main-process directory (Electron). A blocked app, or an Electron app without a
/// resolvable main-process directory, is an error saying so.
pub fn analysis_source(app: &InstalledApp) -> (r: Result<AppSource, String>)
    ensures
        match r {
            Ok(AppSource::Appx(m)) => analysis_source_of(*app) == Ok::<(Seq<char>, Option<Seq<char>>), Seq<char>>((m@, None)),
            Ok(AppSource::Electron { package_json, main_dir }) => analysis_source_of(*app) == Ok::<
                (Seq<char>, Option<Seq<char>>),
                Seq<char>,
            >((package_json@, Some(main_dir@))),
            Err(e) => analysis_source_of(*app) == Err::<(Seq<char>, Option<Seq<char>>), Seq<char>>(e@),
        },
{
    if let Some(why) = app.blocker() {
        let mut m = String::new();
        push_str(&mut m, "'");
        push_str(&mut m, app.display_name.as_str());
        push_str(&mut m, "' cannot be analyzed: ");
        push_str(&mut m, why.as_str());
        return Err(m);
    }
    match app.kind {
        AppKind::Uwp => match &app.manifest {
            Some(m) => Ok(AppSource::Appx(m.clone())),
            None => Err(String::new()),
        },
        AppKind::Electron => match (&app.package_json, &app.main_dir) {
            (Some(p), Some(d)) => Ok(AppSource::Electron { package_json: p.clone(), main_dir: d.clone() }),
            (Some(_), None) => {
                let mut m = String::new();
                push_str(&mut m, "'");
                push_str(&mut m, app.display_name.as_str());
                push_str(&mut m, "' has no resolvable main-process directory");
                Err(m)
            },
            (None, _) => Err(String::new()),
        },
    }
}

/// The manifest `port --app` reads, or why it cannot.
pub open spec fn port_manifest_of(app: InstalledApp) -> Result<Seq<char>, Seq<char>> {
    match blocker_of(app) {
        Some(why) => Err("'"@ + app.display_name@ + "' cannot be ported: "@ + why),
        None => match ostr(app.manifest) {
            Some(m) => Ok(m),
            None => Err(
                "'"@ + app.display_name@ + "' is an "@ + kind_str(app.kind)
                    + " app; `port` currently handles hosted-PWA MSIX packages only"@,
            ),
        },
    }
}

/// The `AppxManifest.xml` that `port --app` reads for a resolved app; a blocked app or one
/// without a manifest (Electron) is an error saying so.
pub fn port_manifest(app: &InstalledApp) -> (r: Result<String, String>)
    ensures
        match r {
            Ok(m) => port_manifest_of(*app) == Ok::<Seq<char>, Seq<char>>(m@),
            Err(e) => port_manifest_of(*app) == Err::<Seq<char>, Seq<char>>(e@),
        },
{
    if let Some(why) = app.blocker() {
        let mut m = String::new();
        push_str(&mut m, "'");
        push_str(&mut m, app.display_name.as_str());
        push_str(&mut m, "' cannot be ported: ");
        push_str(&mut m, why.as_str());
        return Err(m);
    }
    match &app.manifest {
        Some(m) => Ok(m.clone()),
        None => {
            let mut e = String::new();
            push_str(&mut e, "'");
            push_str(&mut e, app.display_name.as_str());
            push_str(&mut e, "' is an ");
            push_str(&mut e, app.kind.as_str());
            push_str(&mut e, " app; `port` currently handles hosted-PWA MSIX packages only");
            Err(e)
        },
    }
}

/// One app's entry in the discovery listing.
pub open spec fn discovery_entry(a: InstalledApp) -> Seq<char> {
    a.display_name@ + " ("@ + kind_str(a.kind) + ") "@ + match ostr(a.version) {
        Some(v) => v,
        None => "-"@,
    } + (if a.running_pids@.len() > 0 {
        " [running: "@ + dec(a.running_pids@.len()) + " pid(s)]"@
    } else {
        Seq::<char>::empty()
    }) + "\n  id:   "@ + a.id@ + "\n  path: "@ + a.install_root@ + "\n"@ + (match blocker_of(a) {
        Some(why) => "  NOT ANALYZABLE: "@ + why + "\n"@,
        None => match analyze_command_of(a) {
            Some(cmd) => "  "@ + cmd + "\n"@,
            None => Seq::<char>::empty(),
        },
    }) + "\n"@
}

pub open spec fn discovery_entries(apps: Seq<InstalledApp>) -> Seq<char>
    decreases apps.len(),
{
    if apps.len() == 0 {
        seq![]
    } else {
        discovery_entries(apps.drop_last()) + discovery_entry(apps.last())
    }
}

/// The discovery listing: every app with its kind, version, whether it runs, its id and path,
/// and either why it is not analyzable or the command that analyzes it; then the count.
pub open spec fn discovery_listing(apps: Seq<InstalledApp>) -> Seq<char> {
    if apps.len() == 0 {
        "No matching apps found.\n"@
    } else {
        discovery_entries(apps) + dec(apps.len()) + " app(s).\n"@
    }
}

fn discovery_entry_text(a: &InstalledApp) -> (s: String)
    ensures
        s@ == discovery_entry(*a),
{
    let mut s = String::new();
    push_str(&mut s, a.display_name.as_str());
    push_str(&mut s, " (");
    push_str(&mut s, a.kind.as_str());
    push_str(&mut s, ") ");
    match &a.version {
        Some(v) => push_str(&mut s, v.as_str()),
        None => push_str(&mut s, "-"),
    }
    if a.is_running() {
        push_str(&mut s, " [running: ");
        push_dec(&mut s, a.running_pids.len() as u64);
        push_str(&mut s, " pid(s)]");
    }
    push_str(&mut s, "\n  id:   ");
    push_str(&mut s, a.id.as_str());
    push_str(&mut s, "\n  path: ");
    push_str(&mut s, a.install_root.as_str());
    push_str(&mut s, "\n");
    match a.blocker() {
        Some(why) => {
            push_str(&mut s, "  NOT ANALYZABLE: ");
            push_str(&mut s, why.as_str());
            push_str(&mut s, "\n");
        },
        None => {
            if let Some(cmd) = a.analyze_command() {
                push_str(&mut s, "  ");
                push_str(&mut s, cmd.as_str());
                push_str(&mut s, "\n");
            }
        },
    }
    push_str(&mut s, "\n");
    assert(s@ =~= discovery_entry(*a));
    s
}

/// The text `discover` prints for the apps it found. An app that cannot be analyzed is still
/// listed, with the reason: dropping it would look the same as not having it installed.
pub fn render_discovery(apps: &Vec<InstalledApp>) -> (s: String)
    ensures
        s@ == discovery_listing(apps@),
{
    if apps.len() == 0 {
        return "No matching apps found.\n".to_string();
    }
    let mut s = String::new();
    let mut i: usize = 0;
    while i < apps.len()
        invariant
            i <= apps@.len(),
            s@ == discovery_entries(apps@.take(i as int)),
        decreases apps@.len() - i,
    {
        let e = discovery_entry_text(&apps[i]);
        push_str(&mut s, e.as_str());
        assert(apps@.take(i + 1).drop_last() =~= apps@.take(i as int));
        i = i + 1;
    }
    assert(apps@.take(apps@.len() as int) =~= apps@);
    push_dec(&mut s, apps.len() as u64);
    push_str(&mut s, " app(s).\n");
    s
}

/// A directory the main-process source scan does not enter: dependencies (`node_modules`) and
/// dotted directories.
pub open spec fn skipped_source_dir(name: Seq<char>) -> bool {
    name == "node_modules"@ || (name.len() > 0 && name[0] == '.')
}

/// Whether the main-process source scan skips a directory called `name`.
pub fn is_skipped_source_dir(name: &str) -> (r: bool)
    ensures
        r == skipped_source_dir(name@),
{
    let dotted = str_starts_with(name, ".");
    proof {
        reveal_strlit(".");
        if name@.len() > 0 && name@[0] == '.' {
            assert(name@.subrange(0, 1) =~= "."@);
        }
        if dotted {
            assert(name@.subrange(0, 1)[0] == name@[0]);
        }
    }
    str_eq(name, "node_modules") || dotted
}

/// Source extensions an Electron main process can be written in.
pub open spec fn js_exts() -> Seq<Seq<char>> {
    seq!["js"@, "mjs"@, "cjs"@, "ts"@, "tsx"@, "jsx"@]
}

/// A file extension of Electron main-process source.
pub fn is_js_ext(ext: &str) -> (r: bool)
    ensures
        r == js_exts().contains(ext@),
{
    let r = str_eq(ext, "js") || str_eq(ext, "mjs") || str_eq(ext, "cjs") || str_eq(ext, "ts")
        || str_eq(ext, "tsx") || str_eq(ext, "jsx");
    proof {
        if js_exts().contains(ext@) {
            let k = choose|k: int| 0 <= k < js_exts().len() && js_exts()[k] == ext@;
            assert(k == 0 || k == 1 || k == 2 || k == 3 || k == 4 || k == 5);
        }
        if r {
            if ext@ == "js"@ { assert(js_exts()[0] == ext@); }
            else if ext@ == "mjs"@ { assert(js_exts()[1] == ext@); }
            else if ext@ == "cjs"@ { assert(js_exts()[2] == ext@); }
            else if ext@ == "ts"@ { assert(js_exts()[3] == ext@); }
            else if ext@ == "tsx"@ { assert(js_exts()[4] == ext@); }
            else { assert(js_exts()[5] == ext@); }
        }
    }
    r
}

/// The note printed after reading Electron main-process sources: a single file read from a
/// file path is called out as likely partial.
pub open spec fn scan_note_text(files: nat, single_file_path: bool, path: Seq<char>) -> Seq<char> {
    if files == 1 && single_file_path {
        "note: scanned 1 file ("@ + path
            + "). Electron main processes usually span several files — pass the main-process DIRECTORY to --electron-main for full coverage."@
    } else {
        "note: scanned "@ + dec(files) + " source file(s) under "@ + path
    }
}

/// The note printed after reading `files` main-process sources from `path` (a single file when
/// `single_file_path`).
pub fn scan_note(files: usize, single_file_path: bool, path: &str) -> (s: String)
    ensures
        s@ == scan_note_text(files as nat, single_file_path, path@),
{
    let mut s = String::new();
    if files == 1 && single_file_path {
        push_str(&mut s, "note: scanned 1 file (");
        push_str(&mut s, path);
        push_str(&mut s,
            "). Electron main processes usually span several files — pass the main-process DIRECTORY to --electron-main for full coverage.");
    } else {
        push_str(&mut s, "note: scanned ");
        push_dec(&mut s, files as u64);
        push_str(&mut s, " source file(s) under ");
        push_str(&mut s, path);
    }
    s
}

} // verus!
