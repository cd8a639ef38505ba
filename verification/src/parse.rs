//! Detect capability ids from an `AppxManifest.xml` or an Electron app's sources.
use vstd::prelude::*;
use crate::json::{json_member_keys, member_keys};
use crate::matrix::Source;
use crate::profile::{Profile, ids_view};
use crate::text::{contains_seq, str_contains, str_eq};
use crate::xml::{XmlNode, XmlNodeView, attr_lookup, find_attr, nodes_view, parse_xml_nodes, xml_document_nodes};

verus! {

/// `ids` with `id` appended unless already present.
pub open spec fn push_unique(ids: Seq<Seq<char>>, id: Seq<char>) -> Seq<Seq<char>> {
    if ids.contains(id) {
        ids
    } else {
        ids.push(id)
    }
}

/// Append `id` to `v` unless it is already there.
fn push(v: &mut Vec<String>, id: &str)
    ensures
        ids_view(final(v)@) == push_unique(ids_view(old(v)@), id@),
{
    let ghost before = ids_view(v@);
    let mut i: usize = 0;
    while i < v.len()
        invariant
            before == ids_view(v@),
            i <= v@.len(),
            forall|j: int| 0 <= j < i ==> before[j] != id@,
        decreases v@.len() - i,
    {
        if str_eq(v[i].as_str(), id) {
            assert(before[i as int] == id@);
            return;
        }
        i = i + 1;
    }
    v.push(id.to_string());
    assert(ids_view(v@) =~= before.push(id@));
}

/// The value of a node's un-namespaced `Category` attribute, empty when absent.
pub open spec fn category_of(n: XmlNodeView) -> Seq<char> {
    match attr_lookup(n.attrs, "Category"@, false) {
        Some(c) => c,
        None => Seq::<char>::empty(),
    }
}

/// The ids detected so far, after looking at one more manifest node.
pub open spec fn appx_step(caps: Seq<Seq<char>>, n: XmlNodeView) -> Seq<Seq<char>> {
    let c1 = if n.tag == "Protocol"@ {
        push_unique(caps, "uwp.protocol_activation"@)
    } else {
        caps
    };
    let c2 = if category_of(n) == "windows.shareTarget"@ {
        push_unique(c1, "uwp.share_target"@)
    } else {
        c1
    };
    if category_of(n) == "windows.backgroundTasks"@ {
        push_unique(c2, "uwp.background_tasks"@)
    } else {
        c2
    }
}

/// The capability ids a manifest's nodes declare, in first-seen order.
pub open spec fn appx_caps(ns: Seq<XmlNodeView>) -> Seq<Seq<char>>
    decreases ns.len(),
{
    if ns.len() == 0 {
        seq![]
    } else {
        appx_step(appx_caps(ns.drop_last()), ns.last())
    }
}

/// The UWP profile declared by a parsed manifest: protocol activation for a `Protocol`
/// element, share target and background tasks for extensions of those categories.
pub fn appx_profile_from_nodes(nodes: &Vec<XmlNode>) -> (p: Profile)
    ensures
        p.source == Source::Uwp,
        ids_view(p.capabilities@) == appx_caps(nodes_view(nodes@)),
{
    let ghost ns = nodes_view(nodes@);
    let mut caps: Vec<String> = Vec::new();
    let mut i: usize = 0;
    while i < nodes.len()
        invariant
            ns == nodes_view(nodes@),
            i <= nodes@.len(),
            ids_view(caps@) == appx_caps(ns.take(i as int)),
        decreases nodes@.len() - i,
    {
        let node = &nodes[i];
        assert(ns.take(i + 1).drop_last() =~= ns.take(i as int));
        assert(ns.take(i + 1).last() == node@);
        let category = match find_attr(node, "Category", false) {
            Some(c) => c,
            None => "",
        };
        proof {
            reveal_strlit("");
        }
        assert(category@ == category_of(node@));
        if str_eq(node.tag.as_str(), "Protocol") {
            push(&mut caps, "uwp.protocol_activation");
        }
        if str_eq(category, "windows.shareTarget") {
            push(&mut caps, "uwp.share_target");
        }
        if str_eq(category, "windows.backgroundTasks") {
            push(&mut caps, "uwp.background_tasks");
        }
        i = i + 1;
    }
    assert(ns.take(nodes@.len() as int) =~= ns);
    Profile { source: Source::Uwp, capabilities: caps }
}

/// The ids an `AppxManifest.xml` text declares: none when the XML does not parse.
pub open spec fn appx_profile_ids(xml: Seq<char>) -> Seq<Seq<char>> {
    match xml_document_nodes(xml) {
        Some(ns) => appx_caps(ns),
        None => seq![],
    }
}

/// Map an `AppxManifest.xml` to a UWP capability profile. Unparseable XML gives an empty profile.
pub fn parse_appx_manifest(xml: &str) -> (p: Profile)
    ensures
        p.source == Source::Uwp,
        ids_view(p.capabilities@) == appx_profile_ids(xml@),
{
    match parse_xml_nodes(xml) {
        Some(nodes) => appx_profile_from_nodes(&nodes),
        None => Profile { source: Source::Uwp, capabilities: Vec::new() },
    }
}

/// Electron API identifiers and the capability each one reveals, in detection order.
pub open spec fn api_needles() -> Seq<(Seq<char>, Seq<char>)> {
    seq![
        ("Tray"@, "electron.tray"@),
        ("globalShortcut"@, "electron.global_shortcut"@),
        ("autoUpdater"@, "electron.auto_update"@),
        ("ipcMain"@, "electron.ipc"@),
        ("ipcRenderer"@, "electron.ipc"@),
        ("powerMonitor"@, "electron.power_monitor"@),
        ("setAsDefaultProtocolClient"@, "electron.deep_link"@),
    ]
}

/// Dependencies that mark a native Node module.
pub open spec fn native_markers() -> Seq<Seq<char>> {
    seq!["node-gyp"@, "bindings"@, "node-addon-api"@, "ffi-napi"@]
}

/// The ids found by the first `k` needles in `src`.
pub open spec fn api_caps(src: Seq<char>, k: nat) -> Seq<Seq<char>>
    decreases k,
{
    if k == 0 {
        seq![]
    } else {
        let prev = api_caps(src, (k - 1) as nat);
        let e = api_needles()[k - 1];
        if contains_seq(src, e.0) {
            push_unique(prev, e.1)
        } else {
            prev
        }
    }
}

/// Some dependency name is a native-module marker.
pub open spec fn has_native_dep(keys: Seq<Seq<char>>) -> bool {
    exists|i: int| 0 <= i < keys.len() && native_markers().contains(#[trigger] keys[i])
}

/// The Electron capability ids of main-process source `src` and dependency names `deps`.
pub open spec fn electron_caps(src: Seq<char>, deps: Option<Seq<Seq<char>>>) -> Seq<Seq<char>> {
    let c = api_caps(src, 7);
    match deps {
        Some(keys) => if has_native_dep(keys) {
            push_unique(c, "electron.native_module"@)
        } else {
            c
        },
        None => c,
    }
}

fn is_native_marker(name: &str) -> (r: bool)
    ensures
        r == native_markers().contains(name@),
{
    let r = str_eq(name, "node-gyp") || str_eq(name, "bindings") || str_eq(name, "node-addon-api")
        || str_eq(name, "ffi-napi");
    proof {
        if native_markers().contains(name@) {
            let k = choose|k: int| 0 <= k < 4 && native_markers()[k] == name@;
            assert(k == 0 || k == 1 || k == 2 || k == 3);
        }
        if r {
            if name@ == "node-gyp"@ { assert(native_markers()[0] == name@); }
            if name@ == "bindings"@ { assert(native_markers()[1] == name@); }
            if name@ == "node-addon-api"@ { assert(native_markers()[2] == name@); }
            if name@ == "ffi-napi"@ { assert(native_markers()[3] == name@); }
        }
    }
    r
}

/// The Electron profile of main-process source `main_source` whose `package.json`
/// `dependencies` member lists `deps` (`None` when there is no such object).
pub fn electron_profile_from(main_source: &str, deps: &Option<Vec<String>>) -> (p: Profile)
    ensures
        p.source == Source::Electron,
        ids_view(p.capabilities@) == electron_caps(
            main_source@,
            match deps {
                Some(v) => Some(ids_view(v@)),
                None => None,
            },
        ),
{
    let map: [(&str, &str); 7] = [
        ("Tray", "electron.tray"),
        ("globalShortcut", "electron.global_shortcut"),
        ("autoUpdater", "electron.auto_update"),
        ("ipcMain", "electron.ipc"),
        ("ipcRenderer", "electron.ipc"),
        ("powerMonitor", "electron.power_monitor"),
        ("setAsDefaultProtocolClient", "electron.deep_link"),
    ];
    assert(map@.map_values(|e: (&str, &str)| (e.0@, e.1@)) =~= api_needles());
    let mut caps: Vec<String> = Vec::new();
    let mut k: usize = 0;
    while k < 7
        invariant
            k <= 7,
            map@.map_values(|e: (&str, &str)| (e.0@, e.1@)) == api_needles(),
            ids_view(caps@) == api_caps(main_source@, k as nat),
        decreases 7 - k,
    {
        let (needle, id) = map[k];
        assert(api_needles()[k as int] == (needle@, id@));
        if str_contains(main_source, needle) {
            push(&mut caps, id);
        }
        k = k + 1;
    }
    if let Some(keys) = deps {
        let mut found = false;
        let mut i: usize = 0;
        while i < keys.len()
            invariant
                i <= keys@.len(),
                found == exists|j: int| 0 <= j < i && native_markers().contains(#[trigger] ids_view(keys@)[j]),
            decreases keys@.len() - i,
        {
            let m = is_native_marker(keys[i].as_str());
            proof {
                if m {
                    assert(native_markers().contains(ids_view(keys@)[i as int]));
                }
                if found || m {
                    assert(exists|j: int| 0 <= j < i + 1 && native_markers().contains(#[trigger] ids_view(keys@)[j]));
                }
            }
            found = found || m;
            i = i + 1;
        }
        if found {
            push(&mut caps, "electron.native_module");
        }
    }
    Profile { source: Source::Electron, capabilities: caps }
}

/// The ids the Electron parser produces for a `package.json` text and main-process source.
pub open spec fn electron_profile_ids(package_json: Seq<char>, main_source: Seq<char>) -> Seq<Seq<char>> {
    electron_caps(main_source, json_member_keys(package_json, "dependencies"@))
}

/// Map an Electron app's `package.json` and main-process source to a capability profile.
pub fn parse_electron(package_json: &str, main_source: &str) -> (p: Profile)
    ensures
        p.source == Source::Electron,
        ids_view(p.capabilities@) == electron_profile_ids(package_json@, main_source@),
{
    let deps = member_keys(package_json, "dependencies");
    electron_profile_from(main_source, &deps)
}

} // verus!
