//! `AppxManifest.xml` parsing over the reader's event stream: identity, properties, target
//! device families, the ordered capabilities block and the applications.
use vstd::prelude::*;
use crate::manifest_types::{
    empty_caps, empty_manifest, empty_visual, AppxApplication, AppxManifest, AppxVisualElementsXml,
    ApplicationView, CapRefView, CapabilitiesBlock, CapsView, DeviceCap, DeviceCapView, DeviceChild,
    DeviceChildView, DeviceFunc, FamilyView, Identity, IdentityView, ManifestView, NamedCap,
    OrderedCapRef, Properties, PropertiesView, TargetDeviceFamily, VisualView,
    MAX_CAPABILITY_ENTRIES,
};
use crate::manifest_types::names_view;
use crate::text::{
    chars_of, dec, ends_with_seq, push_char, push_dec, push_str, str_ends_with, str_eq,
    string_from_range,
};
use crate::xml_events::{
    events_view, lossy_string, read_xml_events, utf8_lossy, xml_event_stream, XmlEvent, XmlEventKind,
    XmlEventView,
};

verus! {

/// The index just past the last `:` among the first `n` characters of `s` (0 when none).
pub open spec fn local_start(s: Seq<char>, n: int) -> int
    decreases n,
{
    if n <= 0 {
        0
    } else if s[n - 1] == ':' {
        n
    } else {
        local_start(s, n - 1)
    }
}

/// A name with any `prefix:` stripped: what follows its last colon.
pub open spec fn strip_prefix_spec(s: Seq<char>) -> Seq<char> {
    s.subrange(local_start(s, s.len() as int), s.len() as int)
}

/// The local name of a raw (possibly prefixed) element or attribute name.
pub open spec fn local_of(raw: Seq<u8>) -> Seq<char> {
    strip_prefix_spec(utf8_lossy(raw))
}

/// The local name (any `prefix:` stripped) of a raw element or attribute name.
pub fn local_name(raw: &Vec<u8>) -> (r: String)
    ensures
        r@ == local_of(raw@),
{
    let s = lossy_string(raw.as_slice());
    let v = chars_of(s.as_str());
    let mut n = v.len();
    while n > 0 && v[n - 1] != ':'
        invariant
            v@ == utf8_lossy(raw@),
            n <= v@.len(),
            local_start(v@, n as int) == local_start(v@, v@.len() as int),
        decreases n,
    {
        n = n - 1;
    }
    string_from_range(&v, n, v.len())
}

/// The value of the first attribute, from index `i` on, whose local name is `want` (empty when
/// there is none).
pub open spec fn attr_from(attrs: Seq<(Seq<u8>, Seq<char>)>, want: Seq<char>, i: int) -> Seq<char>
    decreases attrs.len() - i,
{
    if i < 0 || i >= attrs.len() {
        seq![]
    } else if local_of(attrs[i].0) == want {
        attrs[i].1
    } else {
        attr_from(attrs, want, i + 1)
    }
}

/// The value of the first attribute of `e` whose local name is `want`, empty when there is none.
pub open spec fn attr_of(e: XmlEventView, want: Seq<char>) -> Seq<char> {
    attr_from(e.attrs, want, 0)
}

/// The value of the first attribute whose local name equals `want` (case-sensitive), or the
/// empty string.
pub fn attr(e: &XmlEvent, want: &str) -> (r: String)
    ensures
        r@ == attr_of(e@, want@),
{
    let mut i: usize = 0;
    while i < e.attrs.len()
        invariant
            i <= e.attrs@.len(),
            attr_from(e@.attrs, want@, i as int) == attr_of(e@, want@),
        decreases e.attrs@.len() - i,
    {
        let local = local_name(&e.attrs[i].0);
        if str_eq(local.as_str(), want) {
            return e.attrs[i].1.clone();
        }
        i = i + 1;
    }
    String::new()
}

/// The identity held in the attributes of an `<Identity>` tag.
pub open spec fn identity_of(e: XmlEventView) -> IdentityView {
    IdentityView {
        name: attr_of(e, "Name"@),
        version: attr_of(e, "Version"@),
        publisher: attr_of(e, "Publisher"@),
        processor_architecture: attr_of(e, "ProcessorArchitecture"@),
    }
}

fn parse_identity(e: &XmlEvent) -> (r: Identity)
    ensures
        r@ == identity_of(e@),
{
    Identity {
        name: attr(e, "Name"),
        version: attr(e, "Version"),
        publisher: attr(e, "Publisher"),
        processor_architecture: attr(e, "ProcessorArchitecture"),
    }
}

/// `prefix` followed by `msg`.
fn prefixed(prefix: &str, msg: &String) -> (r: String)
    ensures
        r@ == prefix@ + msg@,
{
    let mut r = String::new();
    push_str(&mut r, prefix);
    push_str(&mut r, msg.as_str());
    r
}

pub open spec fn opt_text(o: Option<String>) -> Option<Seq<char>> {
    match o {
        Some(s) => Some(s@),
        None => None,
    }
}

pub open spec fn empty_props() -> PropertiesView {
    PropertiesView { display_name: seq![], description: seq![], publisher_display_name: seq![] }
}

/// `p` with the property called `name` set to `text` (other names leave it unchanged).
pub open spec fn set_prop(p: PropertiesView, name: Seq<char>, text: Seq<char>) -> PropertiesView {
    if name == "DisplayName"@ {
        PropertiesView { display_name: text, ..p }
    } else if name == "Description"@ {
        PropertiesView { description: text, ..p }
    } else if name == "PublisherDisplayName"@ {
        PropertiesView { publisher_display_name: text, ..p }
    } else {
        p
    }
}

/// The `<Properties>` walk from event `pos` on, with the element currently open (`cur`), the
/// text gathered inside it, and the properties so far: the properties and the position after
/// `</Properties>` (or at the end of the document), or the error.
pub open spec fn props_run(
    evs: Seq<XmlEventView>,
    pos: int,
    cur: Option<Seq<char>>,
    text: Seq<char>,
    p: PropertiesView,
) -> Result<(PropertiesView, int), Seq<char>>
    decreases evs.len() - pos,
{
    if pos < 0 || pos >= evs.len() {
        Ok((p, pos))
    } else {
        let e = evs[pos];
        match e.kind {
            XmlEventKind::Error => Err("properties: "@ + e.text),
            XmlEventKind::Eof => Ok((p, pos)),
            XmlEventKind::Start => props_run(evs, pos + 1, Some(local_of(e.raw)), seq![], p),
            XmlEventKind::Text => props_run(
                evs,
                pos + 1,
                cur,
                if cur is Some { text + e.text } else { text },
                p,
            ),
            XmlEventKind::BadText => if cur is Some {
                Err("text: "@ + e.text)
            } else {
                props_run(evs, pos + 1, cur, text, p)
            },
            XmlEventKind::End => {
                let name = local_of(e.raw);
                if name == "Properties"@ {
                    Ok((p, pos + 1))
                } else if cur == Some(name) {
                    props_run(evs, pos + 1, None, text, set_prop(p, name, text))
                } else {
                    props_run(evs, pos + 1, cur, text, p)
                }
            },
            _ => props_run(evs, pos + 1, cur, text, p),
        }
    }
}

/// Reads the children of `<Properties>` from event `pos` on: the text of `DisplayName`,
/// `Description` and `PublisherDisplayName`, up to `</Properties>`.
fn parse_properties(evs: &Vec<XmlEvent>, pos: usize) -> (r: Result<(Properties, usize), String>)
    ensures
        props_run(events_view(evs@), pos as int, None, seq![], empty_props()) == match r {
            Ok((p, q)) => Ok((p@, q as int)),
            Err(m) => Err(m@),
        },
{
    let ghost evv = events_view(evs@);
    let mut p = Properties {
        display_name: String::new(),
        description: String::new(),
        publisher_display_name: String::new(),
    };
    let mut cur: Option<String> = None;
    let mut text = String::new();
    let mut i = pos;
    loop
        invariant
            evv == events_view(evs@),
            props_run(evv, i as int, opt_text(cur), text@, p@) == props_run(
                evv,
                pos as int,
                None,
                seq![],
                empty_props(),
            ),
        decreases evs@.len() - i,
    {
        if i >= evs.len() {
            return Ok((p, i));
        }
        let e = &evs[i];
        assert(evv[i as int] == e@);
        match e.kind {
            XmlEventKind::Error => {
                return Err(prefixed("properties: ", &e.text));
            },
            XmlEventKind::Eof => {
                return Ok((p, i));
            },
            XmlEventKind::Start => {
                cur = Some(local_name(&e.raw));
                text = String::new();
            },
            XmlEventKind::Text => {
                if cur.is_some() {
                    push_str(&mut text, e.text.as_str());
                }
            },
            XmlEventKind::BadText => {
                if cur.is_some() {
                    return Err(prefixed("text: ", &e.text));
                }
            },
            XmlEventKind::End => {
                let name = local_name(&e.raw);
                if str_eq(name.as_str(), "Properties") {
                    return Ok((p, i + 1));
                }
                let same = match &cur {
                    Some(c) => str_eq(c.as_str(), name.as_str()),
                    None => false,
                };
                if same {
                    if str_eq(name.as_str(), "DisplayName") {
                        p.display_name = text.clone();
                    } else if str_eq(name.as_str(), "Description") {
                        p.description = text.clone();
                    } else if str_eq(name.as_str(), "PublisherDisplayName") {
                        p.publisher_display_name = text.clone();
                    }
                    cur = None;
                }
            },
            _ => {},
        }
        i = i + 1;
    }
}

/// The target device family held in the attributes of a `<TargetDeviceFamily>` tag.
pub open spec fn family_of(e: XmlEventView) -> FamilyView {
    FamilyView {
        name: attr_of(e, "Name"@),
        min_version: attr_of(e, "MinVersion"@),
        max_version_tested: attr_of(e, "MaxVersionTested"@),
    }
}

pub open spec fn families_view(v: Seq<TargetDeviceFamily>) -> Seq<FamilyView> {
    v.map_values(|t: TargetDeviceFamily| t@)
}

/// The `<Dependencies>` walk from event `pos` on: every `TargetDeviceFamily` tag up to
/// `</Dependencies>` (or the end of the document), and the position after it.
pub open spec fn deps_run(evs: Seq<XmlEventView>, pos: int, out: Seq<FamilyView>) -> Result<
    (Seq<FamilyView>, int),
    Seq<char>,
>
    decreases evs.len() - pos,
{
    if pos < 0 || pos >= evs.len() {
        Ok((out, pos))
    } else {
        let e = evs[pos];
        match e.kind {
            XmlEventKind::Error => Err("dependencies: "@ + e.text),
            XmlEventKind::Eof => Ok((out, pos)),
            XmlEventKind::Start | XmlEventKind::Empty => deps_run(
                evs,
                pos + 1,
                if local_of(e.raw) == "TargetDeviceFamily"@ { out.push(family_of(e)) } else { out },
            ),
            XmlEventKind::End => if local_of(e.raw) == "Dependencies"@ {
                Ok((out, pos + 1))
            } else {
                deps_run(evs, pos + 1, out)
            },
            _ => deps_run(evs, pos + 1, out),
        }
    }
}

/// Reads the `TargetDeviceFamily` entries of `<Dependencies>` from event `pos` on.
fn parse_dependencies(evs: &Vec<XmlEvent>, pos: usize) -> (r: Result<
    (Vec<TargetDeviceFamily>, usize),
    String,
>)
    ensures
        deps_run(events_view(evs@), pos as int, seq![]) == match r {
            Ok((v, q)) => Ok((families_view(v@), q as int)),
            Err(m) => Err(m@),
        },
{
    let ghost evv = events_view(evs@);
    let mut out: Vec<TargetDeviceFamily> = Vec::new();
    let mut i = pos;
    assert(families_view(out@) =~= seq![]);
    loop
        invariant
            evv == events_view(evs@),
            deps_run(evv, i as int, families_view(out@)) == deps_run(evv, pos as int, seq![]),
        decreases evs@.len() - i,
    {
        if i >= evs.len() {
            return Ok((out, i));
        }
        let e = &evs[i];
        assert(evv[i as int] == e@);
        match e.kind {
            XmlEventKind::Error => {
                return Err(prefixed("dependencies: ", &e.text));
            },
            XmlEventKind::Eof => {
                return Ok((out, i));
            },
            XmlEventKind::Start | XmlEventKind::Empty => {
                let local = local_name(&e.raw);
                if str_eq(local.as_str(), "TargetDeviceFamily") {
                    let t = TargetDeviceFamily {
                        name: attr(e, "Name"),
                        min_version: attr(e, "MinVersion"),
                        max_version_tested: attr(e, "MaxVersionTested"),
                    };
                    let ghost before = out@;
                    out.push(t);
                    assert(families_view(out@) =~= families_view(before).push(family_of(e@)));
                }
            },
            XmlEventKind::End => {
                let local = local_name(&e.raw);
                if str_eq(local.as_str(), "Dependencies") {
                    return Ok((out, i + 1));
                }
            },
            _ => {},
        }
        i = i + 1;
    }
}

/// The application head held in the attributes of an `<Application>` tag, with no visual
/// elements yet.
pub open spec fn app_head(e: XmlEventView) -> ApplicationView {
    ApplicationView {
        id: attr_of(e, "Id"@),
        executable: attr_of(e, "Executable"@),
        entry_point: attr_of(e, "EntryPoint"@),
        visual_elements: empty_visual(),
    }
}

/// The visual elements held in the attributes of a `<VisualElements>` tag.
pub open spec fn visual_of(e: XmlEventView) -> VisualView {
    VisualView {
        display_name: attr_of(e, "DisplayName"@),
        description: attr_of(e, "Description"@),
        background_color: attr_of(e, "BackgroundColor"@),
        square150x150_logo: attr_of(e, "Square150x150Logo"@),
        square44x44_logo: attr_of(e, "Square44x44Logo"@),
    }
}

/// The walk of one `<Application>` element's children from event `pos` on: the application
/// with the last `VisualElements` tag applied, and the position after `</Application>` (or at
/// the end of the document).
pub open spec fn app_children_run(evs: Seq<XmlEventView>, pos: int, app: ApplicationView) -> Result<
    (ApplicationView, int),
    Seq<char>,
>
    decreases evs.len() - pos,
{
    if pos < 0 || pos >= evs.len() {
        Ok((app, pos))
    } else {
        let e = evs[pos];
        match e.kind {
            XmlEventKind::Error => Err("application: "@ + e.text),
            XmlEventKind::Eof => Ok((app, pos)),
            XmlEventKind::Start | XmlEventKind::Empty => app_children_run(
                evs,
                pos + 1,
                if local_of(e.raw) == "VisualElements"@ {
                    ApplicationView { visual_elements: visual_of(e), ..app }
                } else {
                    app
                },
            ),
            XmlEventKind::End => if local_of(e.raw) == "Application"@ {
                Ok((app, pos + 1))
            } else {
                app_children_run(evs, pos + 1, app)
            },
            _ => app_children_run(evs, pos + 1, app),
        }
    }
}

pub proof fn lemma_app_children_bounds(evs: Seq<XmlEventView>, pos: int, app: ApplicationView)
    requires
        0 <= pos <= evs.len(),
    ensures
        app_children_run(evs, pos, app) matches Ok((_, q)) ==> pos <= q <= evs.len(),
    decreases evs.len() - pos,
{
    if pos < evs.len() {
        let e = evs[pos];
        let next = if local_of(e.raw) == "VisualElements"@ {
            ApplicationView { visual_elements: visual_of(e), ..app }
        } else {
            app
        };
        lemma_app_children_bounds(evs, pos + 1, app);
        lemma_app_children_bounds(evs, pos + 1, next);
    }
}

/// Reads the children of an `<Application>` element from event `pos` on, taking the
/// `VisualElements` attributes into `app`.
fn parse_application_children(evs: &Vec<XmlEvent>, pos: usize, head: AppxApplication) -> (r: Result<
    (AppxApplication, usize),
    String,
>)
    ensures
        app_children_run(events_view(evs@), pos as int, head@) == match r {
            Ok((a, q)) => Ok((a@, q as int)),
            Err(m) => Err(m@),
        },
{
    let ghost evv = events_view(evs@);
    let mut app = head;
    let mut i = pos;
    loop
        invariant
            evv == events_view(evs@),
            app_children_run(evv, i as int, app@) == app_children_run(evv, pos as int, head@),
        decreases evs@.len() - i,
    {
        if i >= evs.len() {
            return Ok((app, i));
        }
        let e = &evs[i];
        assert(evv[i as int] == e@);
        match e.kind {
            XmlEventKind::Error => {
                return Err(prefixed("application: ", &e.text));
            },
            XmlEventKind::Eof => {
                return Ok((app, i));
            },
            XmlEventKind::Start | XmlEventKind::Empty => {
                let local = local_name(&e.raw);
                if str_eq(local.as_str(), "VisualElements") {
                    app.visual_elements = AppxVisualElementsXml {
                        display_name: attr(e, "DisplayName"),
                        description: attr(e, "Description"),
                        background_color: attr(e, "BackgroundColor"),
                        square150x150_logo: attr(e, "Square150x150Logo"),
                        square44x44_logo: attr(e, "Square44x44Logo"),
                    };
                }
            },
            XmlEventKind::End => {
                let local = local_name(&e.raw);
                if str_eq(local.as_str(), "Application") {
                    return Ok((app, i + 1));
                }
            },
            _ => {},
        }
        i = i + 1;
    }
}

pub open spec fn apps_view(v: Seq<AppxApplication>) -> Seq<ApplicationView> {
    v.map_values(|a: AppxApplication| a@)
}

/// The `<Applications>` walk from event `pos` on: every `Application` element up to
/// `</Applications>` (or the end of the document), and the position after it.
pub open spec fn apps_run(evs: Seq<XmlEventView>, pos: int, out: Seq<ApplicationView>) -> Result<
    (Seq<ApplicationView>, int),
    Seq<char>,
>
    decreases evs.len() - pos,
{
    if pos < 0 || pos >= evs.len() {
        Ok((out, pos))
    } else {
        let e = evs[pos];
        match e.kind {
            XmlEventKind::Error => Err("applications: "@ + e.text),
            XmlEventKind::Eof => Ok((out, pos)),
            XmlEventKind::Empty => apps_run(
                evs,
                pos + 1,
                if local_of(e.raw) == "Application"@ { out.push(app_head(e)) } else { out },
            ),
            XmlEventKind::Start => if local_of(e.raw) == "Application"@ {
                match app_children_run(evs, pos + 1, app_head(e)) {
                    Err(m) => Err(m),
                    Ok((app, q)) => {
                        proof {
                            lemma_app_children_bounds(evs, pos + 1, app_head(e));
                        }
                        apps_run(evs, q, out.push(app))
                    },
                }
            } else {
                apps_run(evs, pos + 1, out)
            },
            XmlEventKind::End => if local_of(e.raw) == "Applications"@ {
                Ok((out, pos + 1))
            } else {
                apps_run(evs, pos + 1, out)
            },
            _ => apps_run(evs, pos + 1, out),
        }
    }
}

/// Reads the `Application` elements of `<Applications>` from event `pos` on.
fn parse_applications(evs: &Vec<XmlEvent>, pos: usize) -> (r: Result<
    (Vec<AppxApplication>, usize),
    String,
>)
    ensures
        apps_run(events_view(evs@), pos as int, seq![]) == match r {
            Ok((v, q)) => Ok((apps_view(v@), q as int)),
            Err(m) => Err(m@),
        },
{
    let ghost evv = events_view(evs@);
    let mut out: Vec<AppxApplication> = Vec::new();
    let mut i = pos;
    assert(apps_view(out@) =~= seq![]);
    loop
        invariant
            evv == events_view(evs@),
            apps_run(evv, i as int, apps_view(out@)) == apps_run(evv, pos as int, seq![]),
        decreases evs@.len() - i,
    {
        if i >= evs.len() {
            return Ok((out, i));
        }
        let e = &evs[i];
        assert(evv[i as int] == e@);
        match e.kind {
            XmlEventKind::Error => {
                return Err(prefixed("applications: ", &e.text));
            },
            XmlEventKind::Eof => {
                return Ok((out, i));
            },
            XmlEventKind::Empty | XmlEventKind::Start => {
                let local = local_name(&e.raw);
                if str_eq(local.as_str(), "Application") {
                    let head = AppxApplication {
                        id: attr(e, "Id"),
                        executable: attr(e, "Executable"),
                        entry_point: attr(e, "EntryPoint"),
                        visual_elements: AppxVisualElementsXml::new(),
                    };
                    assert(head@ == app_head(e@));
                    let ghost before = out@;
                    if e.kind == XmlEventKind::Empty {
                        out.push(head);
                        assert(apps_view(out@) =~= apps_view(before).push(app_head(e@)));
                    } else {
                        proof {
                            lemma_app_children_bounds(evv, i + 1, app_head(e@));
                        }
                        match parse_application_children(evs, i + 1, head) {
                            Err(m) => {
                                return Err(m);
                            },
                            Ok((app, q)) => {
                                out.push(app);
                                assert(apps_view(out@) =~= apps_view(before).push(app@));
                                i = q;
                                continue;
                            },
                        }
                    }
                }
            },
            XmlEventKind::End => {
                let local = local_name(&e.raw);
                if str_eq(local.as_str(), "Applications") {
                    return Ok((out, i + 1));
                }
            },
            _ => {},
        }
        i = i + 1;
    }
}

// AppxManifest namespace URIs.
pub const NS_FOUNDATION: &'static str = "http://schemas.microsoft.com/appx/manifest/foundation/windows10";
pub const NS_RESCAP: &'static str =
    "http://schemas.microsoft.com/appx/manifest/foundation/windows10/restrictedcapabilities";
pub const NS_UAP: &'static str = "http://schemas.microsoft.com/appx/manifest/uap/windows10";
pub const NS_UAP2: &'static str = "http://schemas.microsoft.com/appx/manifest/uap/windows10/2";
pub const NS_UAP3: &'static str = "http://schemas.microsoft.com/appx/manifest/uap/windows10/3";
pub const NS_UAP4: &'static str = "http://schemas.microsoft.com/appx/manifest/uap/windows10/4";
pub const NS_UAP6: &'static str = "http://schemas.microsoft.com/appx/manifest/uap/windows10/6";
pub const NS_UAP8: &'static str = "http://schemas.microsoft.com/appx/manifest/uap/windows10/8";
pub const NS_UAP10: &'static str = "http://schemas.microsoft.com/appx/manifest/uap/windows10/10";
pub const NS_UAP13: &'static str = "http://schemas.microsoft.com/appx/manifest/uap/windows10/13";
pub const NS_UAP15: &'static str = "http://schemas.microsoft.com/appx/manifest/uap/windows10/15";

/// Namespace URI to the canonical tag of a `<Capability>` element.
pub open spec fn ns_tag_spec(ns: Seq<char>) -> Option<Seq<char>> {
    if ns == ""@ || ns == NS_FOUNDATION@ {
        Some(""@)
    } else if ns == NS_UAP@ {
        Some("uap"@)
    } else if ns == NS_UAP2@ {
        Some("uap2"@)
    } else if ns == NS_UAP3@ {
        Some("uap3"@)
    } else if ns == NS_UAP4@ {
        Some("uap4"@)
    } else if ns == NS_UAP6@ {
        Some("uap6"@)
    } else if ns == NS_UAP8@ {
        Some("uap8"@)
    } else if ns == NS_UAP10@ {
        Some("uap10"@)
    } else if ns == NS_UAP13@ {
        Some("uap13"@)
    } else if ns == NS_UAP15@ {
        Some("uap15"@)
    } else if ns == NS_RESCAP@ {
        Some("rescap"@)
    } else {
        None
    }
}

/// The tag of a capability in an unrecognised namespace.
pub open spec fn unknown_tag(ns: Seq<char>) -> Seq<char> {
    if ns.len() == 0 {
        "unknown"@
    } else {
        "unknown:"@ + ns
    }
}

/// The tag recorded for a `<Capability>` element in namespace `ns`.
pub open spec fn cap_tag(ns: Seq<char>) -> Seq<char> {
    match ns_tag_spec(ns) {
        Some(t) => t,
        None => unknown_tag(ns),
    }
}

fn ns_tag(ns: &str) -> (r: Option<&'static str>)
    ensures
        r matches Some(t) ==> ns_tag_spec(ns@) == Some(t@),
        r is None ==> ns_tag_spec(ns@) is None,
{
    if str_eq(ns, "") || str_eq(ns, NS_FOUNDATION) {
        Some("")
    } else if str_eq(ns, NS_UAP) {
        Some("uap")
    } else if str_eq(ns, NS_UAP2) {
        Some("uap2")
    } else if str_eq(ns, NS_UAP3) {
        Some("uap3")
    } else if str_eq(ns, NS_UAP4) {
        Some("uap4")
    } else if str_eq(ns, NS_UAP6) {
        Some("uap6")
    } else if str_eq(ns, NS_UAP8) {
        Some("uap8")
    } else if str_eq(ns, NS_UAP10) {
        Some("uap10")
    } else if str_eq(ns, NS_UAP13) {
        Some("uap13")
    } else if str_eq(ns, NS_UAP15) {
        Some("uap15")
    } else if str_eq(ns, NS_RESCAP) {
        Some("rescap")
    } else {
        None
    }
}

fn unknown_tag_of(ns: &String) -> (r: String)
    ensures
        r@ == unknown_tag(ns@),
{
    if ns.unicode_len() == 0 {
        String::from_str("unknown")
    } else {
        prefixed("unknown:", ns)
    }
}

fn cap_tag_of(ns: &String) -> (r: String)
    ensures
        r@ == cap_tag(ns@),
{
    match ns_tag(ns.as_str()) {
        Some(t) => String::from_str(t),
        None => unknown_tag_of(ns),
    }
}

/// `c` with capability `name` appended to the list that `tag` selects.
pub open spec fn push_cap(c: CapsView, tag: Seq<char>, name: Seq<char>) -> CapsView {
    if tag == ""@ {
        CapsView { capability: c.capability.push(name), ..c }
    } else if tag == "uap"@ {
        CapsView { uap_capability: c.uap_capability.push(name), ..c }
    } else if tag == "uap2"@ {
        CapsView { uap2_capability: c.uap2_capability.push(name), ..c }
    } else if tag == "uap3"@ {
        CapsView { uap3_capability: c.uap3_capability.push(name), ..c }
    } else if tag == "uap4"@ {
        CapsView { uap4_capability: c.uap4_capability.push(name), ..c }
    } else if tag == "uap6"@ {
        CapsView { uap6_capability: c.uap6_capability.push(name), ..c }
    } else if tag == "uap8"@ {
        CapsView { uap8_capability: c.uap8_capability.push(name), ..c }
    } else if tag == "uap10"@ {
        CapsView { uap10_capability: c.uap10_capability.push(name), ..c }
    } else if tag == "uap13"@ {
        CapsView { uap13_capability: c.uap13_capability.push(name), ..c }
    } else if tag == "uap15"@ {
        CapsView { uap15_capability: c.uap15_capability.push(name), ..c }
    } else if tag == "rescap"@ {
        CapsView { restricted_capability: c.restricted_capability.push(name), ..c }
    } else {
        CapsView { unknown_capability: c.unknown_capability.push(name), ..c }
    }
}

fn push_named(v: &mut Vec<NamedCap>, name: &String)
    ensures
        names_view(final(v)@) == names_view(old(v)@).push(name@),
{
    v.push(NamedCap { name: name.clone() });
    assert(names_view(v@) =~= names_view(old(v)@).push(name@));
}

fn push_capability(c: &mut CapabilitiesBlock, tag: &str, name: &String)
    ensures
        final(c)@ == push_cap(old(c)@, tag@, name@),
{
    if str_eq(tag, "") {
        push_named(&mut c.capability, name);
    } else if str_eq(tag, "uap") {
        push_named(&mut c.uap_capability, name);
    } else if str_eq(tag, "uap2") {
        push_named(&mut c.uap2_capability, name);
    } else if str_eq(tag, "uap3") {
        push_named(&mut c.uap3_capability, name);
    } else if str_eq(tag, "uap4") {
        push_named(&mut c.uap4_capability, name);
    } else if str_eq(tag, "uap6") {
        push_named(&mut c.uap6_capability, name);
    } else if str_eq(tag, "uap8") {
        push_named(&mut c.uap8_capability, name);
    } else if str_eq(tag, "uap10") {
        push_named(&mut c.uap10_capability, name);
    } else if str_eq(tag, "uap13") {
        push_named(&mut c.uap13_capability, name);
    } else if str_eq(tag, "uap15") {
        push_named(&mut c.uap15_capability, name);
    } else if str_eq(tag, "rescap") {
        push_named(&mut c.restricted_capability, name);
    } else {
        push_named(&mut c.unknown_capability, name);
    }
    assert(c@ =~= push_cap(old(c)@, tag@, name@));
}

fn bytes_eq(a: &Vec<u8>, b: &Vec<u8>) -> (r: bool)
    ensures
        r == (a@ == b@),
{
    if a.len() != b.len() {
        return false;
    }
    let mut i: usize = 0;
    while i < a.len()
        invariant
            a@.len() == b@.len(),
            i <= a@.len(),
            forall|j: int| 0 <= j < i ==> a@[j] == b@[j],
        decreases a@.len() - i,
    {
        if a[i] != b[i] {
            return false;
        }
        i = i + 1;
    }
    assert(a@ =~= b@);
    true
}

/// Skipping the rest of an element whose raw name is `name`, from event `pos` on, at nesting
/// `depth` of same-named elements: the position after its matching end tag. An error event
/// stops the skip and is passed over; the end of the document stops it too.
pub open spec fn skip_to_end(evs: Seq<XmlEventView>, pos: int, name: Seq<u8>, depth: nat) -> int
    decreases evs.len() - pos,
{
    if pos < 0 || pos >= evs.len() {
        pos
    } else {
        let e = evs[pos];
        match e.kind {
            XmlEventKind::Error => pos + 1,
            XmlEventKind::Eof => pos,
            XmlEventKind::Start => if e.raw == name {
                skip_to_end(evs, pos + 1, name, depth + 1)
            } else {
                skip_to_end(evs, pos + 1, name, depth)
            },
            XmlEventKind::End => if e.raw == name {
                if depth == 0 {
                    pos + 1
                } else {
                    skip_to_end(evs, pos + 1, name, (depth - 1) as nat)
                }
            } else {
                skip_to_end(evs, pos + 1, name, depth)
            },
            _ => skip_to_end(evs, pos + 1, name, depth),
        }
    }
}

pub proof fn lemma_skip_bounds(evs: Seq<XmlEventView>, pos: int, name: Seq<u8>, depth: nat)
    requires
        0 <= pos <= evs.len(),
    ensures
        pos <= skip_to_end(evs, pos, name, depth) <= evs.len(),
    decreases evs.len() - pos,
{
    if pos < evs.len() {
        let e = evs[pos];
        if e.raw == name && e.kind == XmlEventKind::Start {
            lemma_skip_bounds(evs, pos + 1, name, depth + 1);
        } else if e.raw == name && e.kind == XmlEventKind::End && depth > 0 {
            lemma_skip_bounds(evs, pos + 1, name, (depth - 1) as nat);
        } else {
            lemma_skip_bounds(evs, pos + 1, name, depth);
        }
    }
}

/// Skips the rest of an element whose raw name is `name`, from event `pos` on.
fn skip_element(evs: &Vec<XmlEvent>, pos: usize, name: &Vec<u8>) -> (r: usize)
    ensures
        r == skip_to_end(events_view(evs@), pos as int, name@, 0),
{
    let ghost evv = events_view(evs@);
    let mut depth: usize = 0;
    let mut i = pos;
    loop
        invariant
            evv == events_view(evs@),
            depth <= i,
            skip_to_end(evv, i as int, name@, depth as nat) == skip_to_end(evv, pos as int, name@, 0),
        decreases evs@.len() - i,
    {
        if i >= evs.len() {
            return i;
        }
        let e = &evs[i];
        assert(evv[i as int] == e@);
        match e.kind {
            XmlEventKind::Error => {
                return i + 1;
            },
            XmlEventKind::Eof => {
                return i;
            },
            XmlEventKind::Start => {
                if bytes_eq(&e.raw, name) {
                    depth = depth + 1;
                }
            },
            XmlEventKind::End => {
                if bytes_eq(&e.raw, name) {
                    if depth == 0 {
                        return i + 1;
                    }
                    depth = depth - 1;
                }
            },
            _ => {},
        }
        i = i + 1;
    }
}

/// The walk of one `<Device>` element's children from event `pos` on, up to the end tag whose
/// raw name is `end`: the `Function` types gathered into `child`.
pub open spec fn dev_funcs_run(evs: Seq<XmlEventView>, pos: int, end: Seq<u8>, child: DeviceChildView) -> Result<
    (DeviceChildView, int),
    Seq<char>,
>
    decreases evs.len() - pos,
{
    if pos < 0 || pos >= evs.len() {
        Ok((child, pos))
    } else {
        let e = evs[pos];
        match e.kind {
            XmlEventKind::Error => Err("device functions: "@ + e.text),
            XmlEventKind::Eof => Ok((child, pos)),
            XmlEventKind::End => if e.raw == end {
                Ok((child, pos + 1))
            } else {
                dev_funcs_run(evs, pos + 1, end, child)
            },
            XmlEventKind::Start | XmlEventKind::Empty => dev_funcs_run(
                evs,
                pos + 1,
                end,
                if local_of(e.raw) == "Function"@ {
                    DeviceChildView { function: child.function.push(attr_of(e, "Type"@)), ..child }
                } else {
                    child
                },
            ),
            _ => dev_funcs_run(evs, pos + 1, end, child),
        }
    }
}

pub proof fn lemma_dev_funcs_bounds(evs: Seq<XmlEventView>, pos: int, end: Seq<u8>, child: DeviceChildView)
    requires
        0 <= pos <= evs.len(),
    ensures
        dev_funcs_run(evs, pos, end, child) matches Ok((_, q)) ==> pos <= q <= evs.len(),
    decreases evs.len() - pos,
{
    if pos < evs.len() {
        let e = evs[pos];
        let next = DeviceChildView { function: child.function.push(attr_of(e, "Type"@)), ..child };
        lemma_dev_funcs_bounds(evs, pos + 1, end, child);
        lemma_dev_funcs_bounds(evs, pos + 1, end, next);
    }
}

fn decode_device_functions(evs: &Vec<XmlEvent>, pos: usize, end: &Vec<u8>, child: DeviceChild) -> (r: Result<
    (DeviceChild, usize),
    String,
>)
    ensures
        dev_funcs_run(events_view(evs@), pos as int, end@, child@) == match r {
            Ok((c, q)) => Ok((c@, q as int)),
            Err(m) => Err(m@),
        },
{
    let ghost evv = events_view(evs@);
    let mut ch = child;
    let mut i = pos;
    loop
        invariant
            evv == events_view(evs@),
            dev_funcs_run(evv, i as int, end@, ch@) == dev_funcs_run(evv, pos as int, end@, child@),
        decreases evs@.len() - i,
    {
        if i >= evs.len() {
            return Ok((ch, i));
        }
        let e = &evs[i];
        assert(evv[i as int] == e@);
        match e.kind {
            XmlEventKind::Error => {
                return Err(prefixed("device functions: ", &e.text));
            },
            XmlEventKind::Eof => {
                return Ok((ch, i));
            },
            XmlEventKind::End => {
                if bytes_eq(&e.raw, end) {
                    return Ok((ch, i + 1));
                }
            },
            XmlEventKind::Start | XmlEventKind::Empty => {
                let local = local_name(&e.raw);
                if str_eq(local.as_str(), "Function") {
                    let ghost before = ch@;
                    ch.function.push(DeviceFunc { type_: attr(e, "Type") });
                    assert(ch@ =~= DeviceChildView {
                        function: before.function.push(attr_of(e@, "Type"@)),
                        ..before
                    });
                }
            },
            _ => {},
        }
        i = i + 1;
    }
}

/// The device child held in the attributes of a `<Device>` tag, with no functions yet.
pub open spec fn device_head(e: XmlEventView) -> DeviceChildView {
    DeviceChildView { id: attr_of(e, "Id"@), function: seq![] }
}

/// The walk of one `<DeviceCapability>` element's children from event `pos` on, up to the end
/// tag whose raw name is `end`: its `Device` children gathered into `dc`.
pub open spec fn dev_children_run(evs: Seq<XmlEventView>, pos: int, end: Seq<u8>, dc: DeviceCapView) -> Result<
    (DeviceCapView, int),
    Seq<char>,
>
    decreases evs.len() - pos,
{
    if pos < 0 || pos >= evs.len() {
        Ok((dc, pos))
    } else {
        let e = evs[pos];
        match e.kind {
            XmlEventKind::Error => Err("device children: "@ + e.text),
            XmlEventKind::Eof => Ok((dc, pos)),
            XmlEventKind::End => if e.raw == end {
                Ok((dc, pos + 1))
            } else {
                dev_children_run(evs, pos + 1, end, dc)
            },
            XmlEventKind::Start => if local_of(e.raw) == "Device"@ {
                match dev_funcs_run(evs, pos + 1, e.raw, device_head(e)) {
                    Err(m) => Err(m),
                    Ok((child, q)) => {
                        proof {
                            lemma_dev_funcs_bounds(evs, pos + 1, e.raw, device_head(e));
                        }
                        dev_children_run(evs, q, end, DeviceCapView { device: dc.device.push(child), ..dc })
                    },
                }
            } else {
                dev_children_run(evs, pos + 1, end, dc)
            },
            XmlEventKind::Empty => dev_children_run(
                evs,
                pos + 1,
                end,
                if local_of(e.raw) == "Device"@ {
                    DeviceCapView { device: dc.device.push(device_head(e)), ..dc }
                } else {
                    dc
                },
            ),
            _ => dev_children_run(evs, pos + 1, end, dc),
        }
    }
}

pub proof fn lemma_dev_children_bounds(evs: Seq<XmlEventView>, pos: int, end: Seq<u8>, dc: DeviceCapView)
    requires
        0 <= pos <= evs.len(),
    ensures
        dev_children_run(evs, pos, end, dc) matches Ok((_, q)) ==> pos <= q <= evs.len(),
    decreases evs.len() - pos,
{
    if pos < evs.len() {
        let e = evs[pos];
        if e.kind == XmlEventKind::Start && local_of(e.raw) == "Device"@ {
            lemma_dev_funcs_bounds(evs, pos + 1, e.raw, device_head(e));
            match dev_funcs_run(evs, pos + 1, e.raw, device_head(e)) {
                Err(_) => {},
                Ok((child, q)) => {
                    lemma_dev_children_bounds(evs, q, end, DeviceCapView { device: dc.device.push(child), ..dc });
                },
            }
        } else if e.kind == XmlEventKind::Empty && local_of(e.raw) == "Device"@ {
            lemma_dev_children_bounds(evs, pos + 1, end, DeviceCapView { device: dc.device.push(device_head(e)), ..dc });
        } else {
            lemma_dev_children_bounds(evs, pos + 1, end, dc);
        }
    }
}

fn decode_device_children(evs: &Vec<XmlEvent>, pos: usize, end: &Vec<u8>, dc: DeviceCap) -> (r: Result<
    (DeviceCap, usize),
    String,
>)
    ensures
        dev_children_run(events_view(evs@), pos as int, end@, dc@) == match r {
            Ok((d, q)) => Ok((d@, q as int)),
            Err(m) => Err(m@),
        },
{
    let ghost evv = events_view(evs@);
    let mut cur = dc;
    let mut i = pos;
    loop
        invariant
            evv == events_view(evs@),
            dev_children_run(evv, i as int, end@, cur@) == dev_children_run(evv, pos as int, end@, dc@),
        decreases evs@.len() - i,
    {
        if i >= evs.len() {
            return Ok((cur, i));
        }
        let e = &evs[i];
        assert(evv[i as int] == e@);
        match e.kind {
            XmlEventKind::Error => {
                return Err(prefixed("device children: ", &e.text));
            },
            XmlEventKind::Eof => {
                return Ok((cur, i));
            },
            XmlEventKind::End => {
                if bytes_eq(&e.raw, end) {
                    return Ok((cur, i + 1));
                }
            },
            XmlEventKind::Start | XmlEventKind::Empty => {
                let local = local_name(&e.raw);
                if str_eq(local.as_str(), "Device") {
                    let head = DeviceChild { id: attr(e, "Id"), function: Vec::new() };
                    assert(head@ =~= device_head(e@));
                    let ghost before = cur@;
                    if e.kind == XmlEventKind::Empty {
                        cur.device.push(head);
                        assert(cur@ =~= DeviceCapView { device: before.device.push(device_head(e@)), ..before });
                    } else {
                        proof {
                            lemma_dev_funcs_bounds(evv, i + 1, e@.raw, device_head(e@));
                        }
                        match decode_device_functions(evs, i + 1, &e.raw, head) {
                            Err(m) => {
                                return Err(m);
                            },
                            Ok((child, q)) => {
                                cur.device.push(child);
                                assert(cur@ =~= DeviceCapView { device: before.device.push(child@), ..before });
                                i = q;
                                continue;
                            },
                        }
                    }
                }
            },
            _ => {},
        }
        i = i + 1;
    }
}

/// `c` with the ordered reference `(tag, name, idx)` appended.
pub open spec fn add_ref(c: CapsView, tag: Seq<char>, name: Seq<char>, idx: int) -> CapsView {
    CapsView {
        ordered_refs: c.ordered_refs.push(CapRefView { namespace: tag, name, index: idx }),
        ..c
    }
}

/// The `<Capabilities>` walk from event `pos` on, with the block so far and the number of
/// entries recorded (`idx`): the block and the position after `</Capabilities>` (or at the end
/// of the document). Once `MAX_CAPABILITY_ENTRIES` entries are recorded, every further tag
/// only sets `truncated`, and an element that opens is skipped whole.
pub open spec fn caps_run(evs: Seq<XmlEventView>, pos: int, c: CapsView, idx: int) -> Result<
    (CapsView, int),
    Seq<char>,
>
    decreases evs.len() - pos,
{
    if pos < 0 || pos >= evs.len() {
        Ok((c, pos))
    } else {
        let e = evs[pos];
        match e.kind {
            XmlEventKind::Error => Err("capabilities: "@ + e.text),
            XmlEventKind::Eof => Ok((c, pos)),
            XmlEventKind::End => if local_of(e.raw) == "Capabilities"@ {
                Ok((c, pos + 1))
            } else {
                caps_run(evs, pos + 1, c, idx)
            },
            XmlEventKind::Start | XmlEventKind::Empty => {
                let is_start = e.kind == XmlEventKind::Start;
                let local = local_of(e.raw);
                let name = attr_of(e, "Name"@);
                let ns = utf8_lossy(e.ns);
                if idx >= MAX_CAPABILITY_ENTRIES {
                    let c2 = CapsView { truncated: true, ..c };
                    if is_start {
                        proof {
                            lemma_skip_bounds(evs, pos + 1, e.raw, 0);
                        }
                        caps_run(evs, skip_to_end(evs, pos + 1, e.raw, 0), c2, idx)
                    } else {
                        caps_run(evs, pos + 1, c2, idx)
                    }
                } else if local == "Capability"@ {
                    let tag = cap_tag(ns);
                    caps_run(evs, pos + 1, add_ref(push_cap(c, tag, name), tag, name, idx), idx + 1)
                } else if local == "DeviceCapability"@ {
                    let head = DeviceCapView { name, device: seq![] };
                    if is_start {
                        match dev_children_run(evs, pos + 1, e.raw, head) {
                            Err(m) => Err(m),
                            Ok((dc, q)) => {
                                proof {
                                    lemma_dev_children_bounds(evs, pos + 1, e.raw, head);
                                }
                                caps_run(
                                    evs,
                                    q,
                                    add_ref(
                                        CapsView { device_capability: c.device_capability.push(dc), ..c },
                                        "device"@,
                                        name,
                                        idx,
                                    ),
                                    idx + 1,
                                )
                            },
                        }
                    } else {
                        caps_run(
                            evs,
                            pos + 1,
                            add_ref(
                                CapsView { device_capability: c.device_capability.push(head), ..c },
                                "device"@,
                                name,
                                idx,
                            ),
                            idx + 1,
                        )
                    }
                } else if local == "CustomCapability"@ {
                    caps_run(
                        evs,
                        pos + 1,
                        add_ref(
                            CapsView { custom_capability: c.custom_capability.push(name), ..c },
                            "custom"@,
                            name,
                            idx,
                        ),
                        idx + 1,
                    )
                } else if name.len() > 0 && ends_with_seq(local, "Capability"@) {
                    caps_run(
                        evs,
                        pos + 1,
                        add_ref(
                            CapsView { unknown_capability: c.unknown_capability.push(name), ..c },
                            unknown_tag(ns),
                            name,
                            idx,
                        ),
                        idx + 1,
                    )
                } else {
                    caps_run(evs, pos + 1, c, idx)
                }
            },
            _ => caps_run(evs, pos + 1, c, idx),
        }
    }
}

fn add_ordered_ref(c: &mut CapabilitiesBlock, tag: String, name: String, idx: i32)
    ensures
        final(c)@ == add_ref(old(c)@, tag@, name@, idx as int),
{
    c.ordered_refs.push(OrderedCapRef { namespace: tag, name, index: idx });
    assert(c@ =~= add_ref(old(c)@, tag@, name@, idx as int));
}

/// Reads the `<Capabilities>` block from event `pos` on, keeping the document order of its
/// entries across namespaces and recording at most `MAX_CAPABILITY_ENTRIES` of them.
fn parse_capabilities(evs: &Vec<XmlEvent>, pos: usize) -> (r: Result<(CapabilitiesBlock, usize), String>)
    ensures
        caps_run(events_view(evs@), pos as int, empty_caps(), 0) == match r {
            Ok((c, q)) => Ok((c@, q as int)),
            Err(m) => Err(m@),
        },
{
    let ghost evv = events_view(evs@);
    let mut c = CapabilitiesBlock::new();
    let mut idx: i32 = 0;
    let mut i = pos;
    loop
        invariant
            evv == events_view(evs@),
            0 <= idx <= MAX_CAPABILITY_ENTRIES,
            caps_run(evv, i as int, c@, idx as int) == caps_run(evv, pos as int, empty_caps(), 0),
        decreases evs@.len() - i,
    {
        if i >= evs.len() {
            return Ok((c, i));
        }
        let e = &evs[i];
        assert(evv[i as int] == e@);
        match e.kind {
            XmlEventKind::Error => {
                return Err(prefixed("capabilities: ", &e.text));
            },
            XmlEventKind::Eof => {
                return Ok((c, i));
            },
            XmlEventKind::End => {
                let local = local_name(&e.raw);
                if str_eq(local.as_str(), "Capabilities") {
                    return Ok((c, i + 1));
                }
            },
            XmlEventKind::Start | XmlEventKind::Empty => {
                let is_start = e.kind == XmlEventKind::Start;
                let ns = lossy_string(e.ns.as_slice());
                let local = local_name(&e.raw);
                if idx as usize >= MAX_CAPABILITY_ENTRIES {
                    c.truncated = true;
                    if is_start {
                        proof {
                            lemma_skip_bounds(evv, i + 1, e@.raw, 0);
                        }
                        i = skip_element(evs, i + 1, &e.raw);
                        continue;
                    }
                } else if str_eq(local.as_str(), "Capability") {
                    let name = attr(e, "Name");
                    let tag = cap_tag_of(&ns);
                    push_capability(&mut c, tag.as_str(), &name);
                    add_ordered_ref(&mut c, tag, name, idx);
                    idx = idx + 1;
                } else if str_eq(local.as_str(), "DeviceCapability") {
                    let name = attr(e, "Name");
                    let head = DeviceCap { name: name.clone(), device: Vec::new() };
                    assert(head@ =~= DeviceCapView { name: name@, device: seq![] });
                    if is_start {
                        proof {
                            lemma_dev_children_bounds(evv, i + 1, e@.raw, head@);
                        }
                        match decode_device_children(evs, i + 1, &e.raw, head) {
                            Err(m) => {
                                return Err(m);
                            },
                            Ok((dc, q)) => {
                                let ghost before = c@;
                                c.device_capability.push(dc);
                                assert(c@ =~= CapsView {
                                    device_capability: before.device_capability.push(dc@),
                                    ..before
                                });
                                add_ordered_ref(&mut c, String::from_str("device"), name, idx);
                                idx = idx + 1;
                                i = q;
                                continue;
                            },
                        }
                    } else {
                        let ghost before = c@;
                        c.device_capability.push(head);
                        assert(c@ =~= CapsView {
                            device_capability: before.device_capability.push(
                                DeviceCapView { name: name@, device: seq![] },
                            ),
                            ..before
                        });
                        add_ordered_ref(&mut c, String::from_str("device"), name, idx);
                        idx = idx + 1;
                    }
                } else if str_eq(local.as_str(), "CustomCapability") {
                    let name = attr(e, "Name");
                    push_named(&mut c.custom_capability, &name);
                    add_ordered_ref(&mut c, String::from_str("custom"), name, idx);
                    idx = idx + 1;
                } else {
                    let name = attr(e, "Name");
                    if name.unicode_len() > 0 && str_ends_with(local.as_str(), "Capability") {
                        push_named(&mut c.unknown_capability, &name);
                        add_ordered_ref(&mut c, unknown_tag_of(&ns), name, idx);
                        idx = idx + 1;
                    }
                }
            },
            _ => {},
        }
        i = i + 1;
    }
}

pub proof fn lemma_props_bounds(
    evs: Seq<XmlEventView>,
    pos: int,
    cur: Option<Seq<char>>,
    text: Seq<char>,
    p: PropertiesView,
)
    requires
        0 <= pos <= evs.len(),
    ensures
        props_run(evs, pos, cur, text, p) matches Ok((_, q)) ==> pos <= q <= evs.len(),
    decreases evs.len() - pos,
{
    if pos < evs.len() {
        let e = evs[pos];
        let name = local_of(e.raw);
        match e.kind {
            XmlEventKind::Start => lemma_props_bounds(evs, pos + 1, Some(name), seq![], p),
            XmlEventKind::Text => lemma_props_bounds(
                evs,
                pos + 1,
                cur,
                if cur is Some { text + e.text } else { text },
                p,
            ),
            XmlEventKind::End => if cur == Some(name) {
                lemma_props_bounds(evs, pos + 1, None, text, set_prop(p, name, text));
            } else {
                lemma_props_bounds(evs, pos + 1, cur, text, p);
            },
            _ => lemma_props_bounds(evs, pos + 1, cur, text, p),
        }
    }
}

pub proof fn lemma_deps_bounds(evs: Seq<XmlEventView>, pos: int, out: Seq<FamilyView>)
    requires
        0 <= pos <= evs.len(),
    ensures
        deps_run(evs, pos, out) matches Ok((_, q)) ==> pos <= q <= evs.len(),
    decreases evs.len() - pos,
{
    if pos < evs.len() {
        let e = evs[pos];
        lemma_deps_bounds(evs, pos + 1, out);
        lemma_deps_bounds(evs, pos + 1, out.push(family_of(e)));
    }
}

pub proof fn lemma_apps_bounds(evs: Seq<XmlEventView>, pos: int, out: Seq<ApplicationView>)
    requires
        0 <= pos <= evs.len(),
    ensures
        apps_run(evs, pos, out) matches Ok((_, q)) ==> pos <= q <= evs.len(),
    decreases evs.len() - pos,
{
    if pos < evs.len() {
        let e = evs[pos];
        if e.kind == XmlEventKind::Start && local_of(e.raw) == "Application"@ {
            lemma_app_children_bounds(evs, pos + 1, app_head(e));
            match app_children_run(evs, pos + 1, app_head(e)) {
                Err(_) => {},
                Ok((app, q)) => lemma_apps_bounds(evs, q, out.push(app)),
            }
        } else {
            lemma_apps_bounds(evs, pos + 1, out);
            lemma_apps_bounds(evs, pos + 1, out.push(app_head(e)));
        }
    }
}

pub proof fn lemma_caps_bounds(evs: Seq<XmlEventView>, pos: int, c: CapsView, idx: int)
    requires
        0 <= pos <= evs.len(),
    ensures
        caps_run(evs, pos, c, idx) matches Ok((_, q)) ==> pos <= q <= evs.len(),
    decreases evs.len() - pos,
{
    if pos < evs.len() {
        let e = evs[pos];
        let is_start = e.kind == XmlEventKind::Start;
        let local = local_of(e.raw);
        let name = attr_of(e, "Name"@);
        let ns = utf8_lossy(e.ns);
        if e.kind == XmlEventKind::Start || e.kind == XmlEventKind::Empty {
            if idx >= MAX_CAPABILITY_ENTRIES {
                let c2 = CapsView { truncated: true, ..c };
                if is_start {
                    lemma_skip_bounds(evs, pos + 1, e.raw, 0);
                    lemma_caps_bounds(evs, skip_to_end(evs, pos + 1, e.raw, 0), c2, idx);
                } else {
                    lemma_caps_bounds(evs, pos + 1, c2, idx);
                }
            } else if local == "Capability"@ {
                let tag = cap_tag(ns);
                lemma_caps_bounds(evs, pos + 1, add_ref(push_cap(c, tag, name), tag, name, idx), idx + 1);
            } else if local == "DeviceCapability"@ {
                let head = DeviceCapView { name, device: seq![] };
                if is_start {
                    lemma_dev_children_bounds(evs, pos + 1, e.raw, head);
                    match dev_children_run(evs, pos + 1, e.raw, head) {
                        Err(_) => {},
                        Ok((dc, q)) => lemma_caps_bounds(
                            evs,
                            q,
                            add_ref(
                                CapsView { device_capability: c.device_capability.push(dc), ..c },
                                "device"@,
                                name,
                                idx,
                            ),
                            idx + 1,
                        ),
                    }
                } else {
                    lemma_caps_bounds(
                        evs,
                        pos + 1,
                        add_ref(
                            CapsView { device_capability: c.device_capability.push(head), ..c },
                            "device"@,
                            name,
                            idx,
                        ),
                        idx + 1,
                    );
                }
            } else if local == "CustomCapability"@ {
                lemma_caps_bounds(
                    evs,
                    pos + 1,
                    add_ref(
                        CapsView { custom_capability: c.custom_capability.push(name), ..c },
                        "custom"@,
                        name,
                        idx,
                    ),
                    idx + 1,
                );
            } else if name.len() > 0 && ends_with_seq(local, "Capability"@) {
                lemma_caps_bounds(
                    evs,
                    pos + 1,
                    add_ref(
                        CapsView { unknown_capability: c.unknown_capability.push(name), ..c },
                        unknown_tag(ns),
                        name,
                        idx,
                    ),
                    idx + 1,
                );
            } else {
                lemma_caps_bounds(evs, pos + 1, c, idx);
            }
        } else {
            lemma_caps_bounds(evs, pos + 1, c, idx);
        }
    }
}

/// How a manifest walk ends at the end of the document.
pub open spec fn finish(m: ManifestView, saw_package: bool) -> Result<ManifestView, Seq<char>> {
    if saw_package {
        Ok(m)
    } else {
        Err("unmarshal appx manifest: no <Package> root"@)
    }
}

/// The top-level walk of an `AppxManifest.xml` event stream from event `pos` on, with the
/// manifest so far and whether a `Package` tag was seen.
pub open spec fn manifest_run(evs: Seq<XmlEventView>, pos: int, m: ManifestView, saw_package: bool) -> Result<
    ManifestView,
    Seq<char>,
>
    decreases evs.len() - pos,
{
    if pos < 0 || pos >= evs.len() {
        finish(m, saw_package)
    } else {
        let e = evs[pos];
        let local = local_of(e.raw);
        match e.kind {
            XmlEventKind::Error => Err("unmarshal appx manifest: "@ + e.text),
            XmlEventKind::Eof => finish(m, saw_package),
            XmlEventKind::DocType => Err("unmarshal appx manifest: DOCTYPE not allowed"@),
            XmlEventKind::Start => if local == "Package"@ {
                manifest_run(evs, pos + 1, m, true)
            } else if local == "Identity"@ {
                manifest_run(evs, pos + 1, ManifestView { identity: identity_of(e), ..m }, saw_package)
            } else if local == "Properties"@ {
                match props_run(evs, pos + 1, None, seq![], empty_props()) {
                    Err(msg) => Err(msg),
                    Ok((p, q)) => {
                        proof {
                            lemma_props_bounds(evs, pos + 1, None, seq![], empty_props());
                        }
                        manifest_run(evs, q, ManifestView { properties: p, ..m }, saw_package)
                    },
                }
            } else if local == "Dependencies"@ {
                match deps_run(evs, pos + 1, seq![]) {
                    Err(msg) => Err(msg),
                    Ok((t, q)) => {
                        proof {
                            lemma_deps_bounds(evs, pos + 1, seq![]);
                        }
                        manifest_run(evs, q, ManifestView { target_device_family: t, ..m }, saw_package)
                    },
                }
            } else if local == "Capabilities"@ {
                match caps_run(evs, pos + 1, empty_caps(), 0) {
                    Err(msg) => Err(msg),
                    Ok((c, q)) => {
                        proof {
                            lemma_caps_bounds(evs, pos + 1, empty_caps(), 0);
                        }
                        manifest_run(evs, q, ManifestView { capabilities: c, ..m }, saw_package)
                    },
                }
            } else if local == "Applications"@ {
                match apps_run(evs, pos + 1, seq![]) {
                    Err(msg) => Err(msg),
                    Ok((a, q)) => {
                        proof {
                            lemma_apps_bounds(evs, pos + 1, seq![]);
                        }
                        manifest_run(evs, q, ManifestView { applications: a, ..m }, saw_package)
                    },
                }
            } else {
                manifest_run(evs, pos + 1, m, saw_package)
            },
            XmlEventKind::Empty => if local == "Package"@ {
                manifest_run(evs, pos + 1, m, true)
            } else if local == "Identity"@ {
                manifest_run(evs, pos + 1, ManifestView { identity: identity_of(e), ..m }, saw_package)
            } else {
                manifest_run(evs, pos + 1, m, saw_package)
            },
            _ => manifest_run(evs, pos + 1, m, saw_package),
        }
    }
}

/// The manifest an event stream describes, or the error that reading it meets.
pub open spec fn manifest_of(evs: Seq<XmlEventView>) -> Result<ManifestView, Seq<char>> {
    manifest_run(evs, 0, empty_manifest(), false)
}

/// Builds the typed manifest from the reader's event stream: identity, properties,
/// dependencies, capabilities and applications, each from its block. A `<!DOCTYPE>` is refused
/// (no entity expansion), and a document without a `Package` tag is an error.
pub fn parse_appx_events(evs: &Vec<XmlEvent>) -> (r: Result<AppxManifest, String>)
    ensures
        manifest_of(events_view(evs@)) == match r {
            Ok(m) => Ok(m@),
            Err(msg) => Err(msg@),
        },
{
    let ghost evv = events_view(evs@);
    let mut m = AppxManifest::new();
    let mut saw_package = false;
    let mut i: usize = 0;
    loop
        invariant
            evv == events_view(evs@),
            manifest_run(evv, i as int, m@, saw_package) == manifest_of(evv),
        ensures
            manifest_of(evv) == finish(m@, saw_package),
        decreases evs@.len() - i,
    {
        if i >= evs.len() {
            break;
        }
        let e = &evs[i];
        assert(evv[i as int] == e@);
        match e.kind {
            XmlEventKind::Error => {
                return Err(prefixed("unmarshal appx manifest: ", &e.text));
            },
            XmlEventKind::Eof => {
                break;
            },
            XmlEventKind::DocType => {
                return Err(String::from_str("unmarshal appx manifest: DOCTYPE not allowed"));
            },
            XmlEventKind::Start => {
                let local = local_name(&e.raw);
                if str_eq(local.as_str(), "Package") {
                    saw_package = true;
                } else if str_eq(local.as_str(), "Identity") {
                    m.identity = parse_identity(e);
                } else if str_eq(local.as_str(), "Properties") {
                    proof {
                        lemma_props_bounds(evv, i + 1, None, seq![], empty_props());
                    }
                    match parse_properties(evs, i + 1) {
                        Err(msg) => {
                            return Err(msg);
                        },
                        Ok((p, q)) => {
                            m.properties = p;
                            i = q;
                            continue;
                        },
                    }
                } else if str_eq(local.as_str(), "Dependencies") {
                    proof {
                        lemma_deps_bounds(evv, i + 1, seq![]);
                    }
                    match parse_dependencies(evs, i + 1) {
                        Err(msg) => {
                            return Err(msg);
                        },
                        Ok((t, q)) => {
                            m.target_device_family = t;
                            i = q;
                            continue;
                        },
                    }
                } else if str_eq(local.as_str(), "Capabilities") {
                    proof {
                        lemma_caps_bounds(evv, i + 1, empty_caps(), 0);
                    }
                    match parse_capabilities(evs, i + 1) {
                        Err(msg) => {
                            return Err(msg);
                        },
                        Ok((c, q)) => {
                            m.capabilities = c;
                            i = q;
                            continue;
                        },
                    }
                } else if str_eq(local.as_str(), "Applications") {
                    proof {
                        lemma_apps_bounds(evv, i + 1, seq![]);
                    }
                    match parse_applications(evs, i + 1) {
                        Err(msg) => {
                            return Err(msg);
                        },
                        Ok((a, q)) => {
                            m.applications = a;
                            i = q;
                            continue;
                        },
                    }
                }
            },
            XmlEventKind::Empty => {
                let local = local_name(&e.raw);
                if str_eq(local.as_str(), "Package") {
                    saw_package = true;
                } else if str_eq(local.as_str(), "Identity") {
                    m.identity = parse_identity(e);
                }
            },
            _ => {},
        }
        i = i + 1;
    }
    if !saw_package {
        return Err(String::from_str("unmarshal appx manifest: no <Package> root"));
    }
    Ok(m)
}

/// Parses raw `AppxManifest.xml` bytes into a typed [`AppxManifest`]: the bytes are read by
/// `quick_xml`'s namespace-aware reader and the event stream is walked by
/// [`parse_appx_events`]. A malformed manifest is an error, never a panic.
pub fn parse_appx_manifest(data: &[u8]) -> (r: Result<AppxManifest, String>)
    ensures
        manifest_of(xml_event_stream(data@)) == match r {
            Ok(m) => Ok(m@),
            Err(msg) => Err(msg@),
        },
{
    let evs = read_xml_events(data);
    parse_appx_events(&evs)
}

/// `a / d` rounded to the nearest integer, an exact half going to the even neighbour.
pub open spec fn div_half_even(a: nat, d: nat) -> nat {
    let q = a / d;
    let r = a % d;
    if 2 * r > d || (2 * r == d && q % 2 == 1) {
        q + 1
    } else {
        q
    }
}

/// The spacing of the binary64 doubles around `n` (a power of two, at least 1): the smallest
/// power of two `d`, from `d` up, with `n / d < 2^53`.
pub open spec fn f64_spacing(n: nat, d: nat) -> nat
    decreases n - d,
{
    if d == 0 || n / d < 0x20_0000_0000_0000 {
        d
    } else {
        proof {
            assert(n >= 2 * d) by (nonlinear_arith)
                requires
                    n / d >= 2,
                    d > 0,
            ;
        }
        f64_spacing(n, 2 * d)
    }
}

/// The binary64 double nearest to `n` (ties to even), as `n as f64` rounds it.
pub open spec fn nearest_f64(n: nat) -> nat {
    let d = f64_spacing(n, 1);
    div_half_even(n, d) * d
}

/// Tenths of `n / unit` for the double nearest to `n` and a power-of-two `unit`, rounded as
/// `{:.1}` rounds: to nearest, an exact half going to the even neighbour.
pub open spec fn tenths(n: nat, unit: nat) -> nat {
    div_half_even(nearest_f64(n) * 10, unit)
}

/// `t` tenths spelled with one decimal place.
pub open spec fn one_decimal(t: nat) -> Seq<char> {
    dec(t / 10) + seq!['.'] + dec(t % 10)
}

pub const KB: i64 = 1024;
pub const MB: i64 = 1048576;
pub const GB: i64 = 1073741824;

/// A byte count as `format_bytes` spells it: one decimal place of GB, MB or KB from 1 KB up,
/// otherwise the plain count.
pub open spec fn bytes_text(size: int) -> Seq<char> {
    if size >= GB {
        one_decimal(tenths(size as nat, GB as nat)) + " GB"@
    } else if size >= MB {
        one_decimal(tenths(size as nat, MB as nat)) + " MB"@
    } else if size >= KB {
        one_decimal(tenths(size as nat, KB as nat)) + " KB"@
    } else if size < 0 {
        seq!['-'] + dec((-size) as nat) + " bytes"@
    } else {
        dec(size as nat) + " bytes"@
    }
}

fn div_half_even_exec(a: u128, d: u128) -> (q: u128)
    requires
        d > 0,
        a <= 0x1_0000_0000_0000_0000_0000_0000,
    ensures
        q == div_half_even(a as nat, d as nat),
        q <= a / d + 1,
{
    let q = a / d;
    let r = a % d;
    assert(r < d);
    if r > d - r || (r == d - r && q % 2 == 1) {
        q + 1
    } else {
        q
    }
}

/// The tenths that `{:.1}` prints for `n as f64 / unit`.
fn tenths_exec(n: u64, unit: u128) -> (t: u64)
    requires
        n >= 1,
        unit >= 1024,
    ensures
        t == tenths(n as nat, unit as nat),
{
    let n = n as u128;
    let mut d: u128 = 1;
    while n / d >= 0x20_0000_0000_0000
        invariant
            1 <= d <= n,
            n < 0x1_0000_0000_0000_0000,
            f64_spacing(n as nat, d as nat) == f64_spacing(n as nat, 1),
        decreases n - d,
    {
        assert(n >= 2 * d) by (nonlinear_arith)
            requires
                n / d >= 2,
                d > 0,
        ;
        d = d * 2;
    }
    assert(f64_spacing(n as nat, d as nat) == d as nat);
    let k = div_half_even_exec(n, d);
    assert(k * d <= n + d) by (nonlinear_arith)
        requires
            k <= n / d + 1,
            d > 0,
    ;
    let f = k * d;
    assert(f == nearest_f64(n as nat));
    let a = f * 10;
    let t = div_half_even_exec(a, unit);
    assert(t < 0x1_0000_0000_0000_0000) by (nonlinear_arith)
        requires
            t <= a / unit + 1,
            a <= 20 * 0x1_0000_0000_0000_0000,
            unit >= 1024,
    ;
    t as u64
}

/// Appends `t` tenths spelled with one decimal place.
fn push_one_decimal(out: &mut String, t: u64)
    ensures
        final(out)@ == old(out)@ + one_decimal(t as nat),
{
    push_dec(out, t / 10);
    push_char(out, '.');
    push_dec(out, t % 10);
    assert(final(out)@ =~= old(out)@ + one_decimal(t as nat));
}

/// Formats a byte count as human-readable text: `"1.5 MB"`, `"512 bytes"`. From 1 KB up the
/// value is shown in the largest unit it reaches (KB, MB, GB, powers of 1024) with one decimal
/// place, as `{:.1}` prints the quotient of the nearest double.
pub fn format_bytes(size: i64) -> (r: String)
    ensures
        r@ == bytes_text(size as int),
{
    let mut out = String::new();
    if size >= GB {
        push_one_decimal(&mut out, tenths_exec(size as u64, GB as u128));
        push_str(&mut out, " GB");
    } else if size >= MB {
        push_one_decimal(&mut out, tenths_exec(size as u64, MB as u128));
        push_str(&mut out, " MB");
    } else if size >= KB {
        push_one_decimal(&mut out, tenths_exec(size as u64, KB as u128));
        push_str(&mut out, " KB");
    } else if size < 0 {
        push_char(&mut out, '-');
        let mag: u64 = if size == i64::MIN {
            0x8000_0000_0000_0000
        } else {
            (-size) as u64
        };
        push_dec(&mut out, mag);
        push_str(&mut out, " bytes");
    } else {
        push_dec(&mut out, size as u64);
        push_str(&mut out, " bytes");
    }
    assert(out@ =~= bytes_text(size as int));
    out
}

/// The number of entries a capabilities block records across all its lists.
pub open spec fn caps_total(c: CapsView) -> nat {
    c.capability.len() + c.uap_capability.len() + c.uap2_capability.len() + c.uap3_capability.len()
        + c.uap4_capability.len() + c.uap6_capability.len() + c.uap8_capability.len()
        + c.uap10_capability.len() + c.uap13_capability.len() + c.uap15_capability.len()
        + c.restricted_capability.len() + c.device_capability.len() + c.custom_capability.len()
        + c.unknown_capability.len()
}

/// The ordered references of a block number its entries `0, 1, 2, ...` in document order,
/// there is one per recorded entry, there are at most `MAX_CAPABILITY_ENTRIES`, and the block
/// is marked truncated only once that many are recorded.
pub open spec fn refs_numbered(c: CapsView) -> bool {
    &&& c.ordered_refs.len() <= MAX_CAPABILITY_ENTRIES
    &&& c.truncated ==> c.ordered_refs.len() == MAX_CAPABILITY_ENTRIES
    &&& forall|i: int| 0 <= i < c.ordered_refs.len() ==> #[trigger] c.ordered_refs[i].index == i
    &&& caps_total(c) == c.ordered_refs.len()
}

proof fn lemma_caps_numbered(evs: Seq<XmlEventView>, pos: int, c: CapsView, idx: int)
    requires
        refs_numbered(c),
        c.ordered_refs.len() == idx,
    ensures
        caps_run(evs, pos, c, idx) matches Ok((c2, _)) ==> refs_numbered(c2),
    decreases evs.len() - pos,
{
    if 0 <= pos < evs.len() {
        let e = evs[pos];
        let is_start = e.kind == XmlEventKind::Start;
        let local = local_of(e.raw);
        let name = attr_of(e, "Name"@);
        let ns = utf8_lossy(e.ns);
        if e.kind == XmlEventKind::Start || e.kind == XmlEventKind::Empty {
            if idx >= MAX_CAPABILITY_ENTRIES {
                let c2 = CapsView { truncated: true, ..c };
                if is_start {
                    lemma_skip_bounds(evs, pos + 1, e.raw, 0);
                    lemma_caps_numbered(evs, skip_to_end(evs, pos + 1, e.raw, 0), c2, idx);
                } else {
                    lemma_caps_numbered(evs, pos + 1, c2, idx);
                }
            } else if local == "Capability"@ {
                let tag = cap_tag(ns);
                let c2 = add_ref(push_cap(c, tag, name), tag, name, idx);
                assert(caps_total(push_cap(c, tag, name)) == caps_total(c) + 1);
                assert(refs_numbered(c2));
                lemma_caps_numbered(evs, pos + 1, c2, idx + 1);
            } else if local == "DeviceCapability"@ {
                let head = DeviceCapView { name, device: seq![] };
                if is_start {
                    lemma_dev_children_bounds(evs, pos + 1, e.raw, head);
                    match dev_children_run(evs, pos + 1, e.raw, head) {
                        Err(_) => {},
                        Ok((dc, q)) => {
                            let c2 = add_ref(
                                CapsView { device_capability: c.device_capability.push(dc), ..c },
                                "device"@,
                                name,
                                idx,
                            );
                            assert(refs_numbered(c2));
                            lemma_caps_numbered(evs, q, c2, idx + 1);
                        },
                    }
                } else {
                    let c2 = add_ref(
                        CapsView { device_capability: c.device_capability.push(head), ..c },
                        "device"@,
                        name,
                        idx,
                    );
                    assert(refs_numbered(c2));
                    lemma_caps_numbered(evs, pos + 1, c2, idx + 1);
                }
            } else if local == "CustomCapability"@ {
                let c2 = add_ref(
                    CapsView { custom_capability: c.custom_capability.push(name), ..c },
                    "custom"@,
                    name,
                    idx,
                );
                assert(refs_numbered(c2));
                lemma_caps_numbered(evs, pos + 1, c2, idx + 1);
            } else if name.len() > 0 && ends_with_seq(local, "Capability"@) {
                let c2 = add_ref(
                    CapsView { unknown_capability: c.unknown_capability.push(name), ..c },
                    unknown_tag(ns),
                    name,
                    idx,
                );
                assert(refs_numbered(c2));
                lemma_caps_numbered(evs, pos + 1, c2, idx + 1);
            } else {
                lemma_caps_numbered(evs, pos + 1, c, idx);
            }
        } else {
            lemma_caps_numbered(evs, pos + 1, c, idx);
        }
    }
}

proof fn lemma_manifest_numbered(evs: Seq<XmlEventView>, pos: int, m: ManifestView, saw: bool)
    requires
        refs_numbered(m.capabilities),
    ensures
        manifest_run(evs, pos, m, saw) matches Ok(m2) ==> refs_numbered(m2.capabilities),
    decreases evs.len() - pos,
{
    if 0 <= pos < evs.len() {
        let e = evs[pos];
        let local = local_of(e.raw);
        let with_identity = ManifestView { identity: identity_of(e), ..m };
        if e.kind != XmlEventKind::Start || local == "Package"@ || local == "Identity"@ {
            lemma_manifest_numbered(evs, pos + 1, m, true);
            lemma_manifest_numbered(evs, pos + 1, m, saw);
            lemma_manifest_numbered(evs, pos + 1, with_identity, saw);
        } else if local == "Properties"@ {
            lemma_props_bounds(evs, pos + 1, None, seq![], empty_props());
            match props_run(evs, pos + 1, None, seq![], empty_props()) {
                Err(_) => {},
                Ok((p, q)) => lemma_manifest_numbered(evs, q, ManifestView { properties: p, ..m }, saw),
            }
        } else if local == "Dependencies"@ {
            lemma_deps_bounds(evs, pos + 1, seq![]);
            match deps_run(evs, pos + 1, seq![]) {
                Err(_) => {},
                Ok((t, q)) => lemma_manifest_numbered(
                    evs,
                    q,
                    ManifestView { target_device_family: t, ..m },
                    saw,
                ),
            }
        } else if local == "Capabilities"@ {
            lemma_caps_bounds(evs, pos + 1, empty_caps(), 0);
            lemma_caps_numbered(evs, pos + 1, empty_caps(), 0);
            match caps_run(evs, pos + 1, empty_caps(), 0) {
                Err(_) => {},
                Ok((c, q)) => lemma_manifest_numbered(evs, q, ManifestView { capabilities: c, ..m }, saw),
            }
        } else if local == "Applications"@ {
            lemma_apps_bounds(evs, pos + 1, seq![]);
            match apps_run(evs, pos + 1, seq![]) {
                Err(_) => {},
                Ok((a, q)) => lemma_manifest_numbered(evs, q, ManifestView { applications: a, ..m }, saw),
            }
        } else {
            lemma_manifest_numbered(evs, pos + 1, m, saw);
        }
    }
}

/// Whatever the document, a parsed manifest's capabilities keep document order: the ordered
/// references number the recorded entries `0, 1, 2, ...`, there is exactly one reference per
/// entry recorded in the per-namespace lists, at most `MAX_CAPABILITY_ENTRIES` are kept, and
/// the block is marked truncated only when the limit was reached.
pub proof fn law_capability_refs_number_every_entry(evs: Seq<XmlEventView>)
    ensures
        manifest_of(evs) matches Ok(m) ==> refs_numbered(m.capabilities),
{
    assert(refs_numbered(empty_caps()));
    lemma_manifest_numbered(evs, 0, empty_manifest(), false);
}

/// A `Package` tag, opening or self-closing, in any namespace.
pub open spec fn is_package_tag(e: XmlEventView) -> bool {
    (e.kind == XmlEventKind::Start || e.kind == XmlEventKind::Empty) && local_of(e.raw) == "Package"@
}

proof fn lemma_no_package(evs: Seq<XmlEventView>, pos: int, m: ManifestView)
    requires
        0 <= pos,
        forall|i: int| pos <= i < evs.len() ==> !is_package_tag(#[trigger] evs[i]),
    ensures
        manifest_run(evs, pos, m, false) is Err,
    decreases evs.len() - pos,
{
    if pos < evs.len() {
        let e = evs[pos];
        let local = local_of(e.raw);
        assert(!is_package_tag(evs[pos]));
        if e.kind == XmlEventKind::Start && local == "Properties"@ {
            lemma_props_bounds(evs, pos + 1, None, seq![], empty_props());
            match props_run(evs, pos + 1, None, seq![], empty_props()) {
                Err(_) => {},
                Ok((p, q)) => lemma_no_package(evs, q, ManifestView { properties: p, ..m }),
            }
        }
        if e.kind == XmlEventKind::Start && local == "Dependencies"@ {
            lemma_deps_bounds(evs, pos + 1, seq![]);
            match deps_run(evs, pos + 1, seq![]) {
                Err(_) => {},
                Ok((t, q)) => lemma_no_package(evs, q, ManifestView { target_device_family: t, ..m }),
            }
        }
        if e.kind == XmlEventKind::Start && local == "Capabilities"@ {
            lemma_caps_bounds(evs, pos + 1, empty_caps(), 0);
            match caps_run(evs, pos + 1, empty_caps(), 0) {
                Err(_) => {},
                Ok((c, q)) => lemma_no_package(evs, q, ManifestView { capabilities: c, ..m }),
            }
        }
        if e.kind == XmlEventKind::Start && local == "Applications"@ {
            lemma_apps_bounds(evs, pos + 1, seq![]);
            match apps_run(evs, pos + 1, seq![]) {
                Err(_) => {},
                Ok((a, q)) => lemma_no_package(evs, q, ManifestView { applications: a, ..m }),
            }
        }
        lemma_no_package(evs, pos + 1, m);
        lemma_no_package(evs, pos + 1, ManifestView { identity: identity_of(e), ..m });
    }
}

/// A document in which no `Package` tag occurs never parses as a manifest.
pub proof fn law_manifest_needs_package_tag(evs: Seq<XmlEventView>)
    requires
        forall|i: int| 0 <= i < evs.len() ==> !is_package_tag(#[trigger] evs[i]),
    ensures
        manifest_of(evs) is Err,
{
    lemma_no_package(evs, 0, empty_manifest());
}

proof fn lemma_prolog_doctype(evs: Seq<XmlEventView>, pos: int, k: int)
    requires
        0 <= pos <= k < evs.len(),
        evs[k].kind == XmlEventKind::DocType,
        forall|i: int|
            0 <= i < k ==> (#[trigger] evs[i]).kind == XmlEventKind::Other || evs[i].kind
                == XmlEventKind::Text,
    ensures
        manifest_run(evs, pos, empty_manifest(), false) == Err::<ManifestView, Seq<char>>(
            "unmarshal appx manifest: DOCTYPE not allowed"@,
        ),
    decreases k - pos,
{
    if pos < k {
        assert(evs[pos].kind == XmlEventKind::Other || evs[pos].kind == XmlEventKind::Text);
        lemma_prolog_doctype(evs, pos + 1, k);
    }
}

/// A document type declaration that follows only the XML declaration, comments and text is
/// refused: DTDs, and so entity expansion, are never accepted.
pub proof fn law_doctype_refused(evs: Seq<XmlEventView>, k: int)
    requires
        0 <= k < evs.len(),
        evs[k].kind == XmlEventKind::DocType,
        forall|i: int|
            0 <= i < k ==> (#[trigger] evs[i]).kind == XmlEventKind::Other || evs[i].kind
                == XmlEventKind::Text,
    ensures
        manifest_of(evs) == Err::<ManifestView, Seq<char>>(
            "unmarshal appx manifest: DOCTYPE not allowed"@,
        ),
{
    lemma_prolog_doctype(evs, 0, k);
}

/// Family `f` was read from a `TargetDeviceFamily` tag of `evs`: its name, minimum version and
/// maximum version tested are that tag's `Name`, `MinVersion` and `MaxVersionTested`
/// attributes.
pub open spec fn read_from_family_tag(evs: Seq<XmlEventView>, f: FamilyView) -> bool {
    exists|k: int|
        0 <= k < evs.len() && (evs[k].kind == XmlEventKind::Start || evs[k].kind == XmlEventKind::Empty)
            && local_of(evs[k].raw) == "TargetDeviceFamily"@ && f.name == attr_of(#[trigger] evs[k], "Name"@)
            && f.min_version == attr_of(evs[k], "MinVersion"@) && f.max_version_tested == attr_of(
            evs[k],
            "MaxVersionTested"@,
        )
}

proof fn lemma_deps_read_from_tags(evs: Seq<XmlEventView>, pos: int, out: Seq<FamilyView>)
    requires
        0 <= pos,
        forall|i: int| 0 <= i < out.len() ==> read_from_family_tag(evs, #[trigger] out[i]),
    ensures
        deps_run(evs, pos, out) matches Ok((t, _)) ==> forall|i: int|
            0 <= i < t.len() ==> read_from_family_tag(evs, #[trigger] t[i]),
    decreases evs.len() - pos,
{
    if pos < evs.len() {
        let e = evs[pos];
        if (e.kind == XmlEventKind::Start || e.kind == XmlEventKind::Empty) && local_of(e.raw)
            == "TargetDeviceFamily"@ {
            let o2 = out.push(family_of(e));
            assert(read_from_family_tag(evs, family_of(e))) by {
                assert(attr_of(evs[pos], "Name"@) == family_of(e).name);
            }
            assert forall|i: int| 0 <= i < o2.len() implies read_from_family_tag(evs, #[trigger] o2[i]) by {
                if i < out.len() {
                    assert(o2[i] == out[i]);
                }
            }
            lemma_deps_read_from_tags(evs, pos + 1, o2);
        } else {
            lemma_deps_read_from_tags(evs, pos + 1, out);
        }
    }
}

proof fn lemma_manifest_families(evs: Seq<XmlEventView>, pos: int, m: ManifestView, saw: bool)
    requires
        0 <= pos,
        forall|i: int| 0 <= i < m.target_device_family.len() ==> read_from_family_tag(
            evs,
            #[trigger] m.target_device_family[i],
        ),
    ensures
        manifest_run(evs, pos, m, saw) matches Ok(m2) ==> forall|i: int|
            0 <= i < m2.target_device_family.len() ==> read_from_family_tag(
                evs,
                #[trigger] m2.target_device_family[i],
            ),
    decreases evs.len() - pos,
{
    if pos < evs.len() {
        let e = evs[pos];
        let local = local_of(e.raw);
        let with_identity = ManifestView { identity: identity_of(e), ..m };
        if e.kind != XmlEventKind::Start || local == "Package"@ || local == "Identity"@ {
            lemma_manifest_families(evs, pos + 1, m, true);
            lemma_manifest_families(evs, pos + 1, m, saw);
            lemma_manifest_families(evs, pos + 1, with_identity, saw);
        } else if local == "Properties"@ {
            lemma_props_bounds(evs, pos + 1, None, seq![], empty_props());
            match props_run(evs, pos + 1, None, seq![], empty_props()) {
                Err(_) => {},
                Ok((p, q)) => lemma_manifest_families(evs, q, ManifestView { properties: p, ..m }, saw),
            }
        } else if local == "Dependencies"@ {
            lemma_deps_bounds(evs, pos + 1, seq![]);
            lemma_deps_read_from_tags(evs, pos + 1, seq![]);
            match deps_run(evs, pos + 1, seq![]) {
                Err(_) => {},
                Ok((t, q)) => lemma_manifest_families(
                    evs,
                    q,
                    ManifestView { target_device_family: t, ..m },
                    saw,
                ),
            }
        } else if local == "Capabilities"@ {
            lemma_caps_bounds(evs, pos + 1, empty_caps(), 0);
            match caps_run(evs, pos + 1, empty_caps(), 0) {
                Err(_) => {},
                Ok((c, q)) => lemma_manifest_families(evs, q, ManifestView { capabilities: c, ..m }, saw),
            }
        } else if local == "Applications"@ {
            lemma_apps_bounds(evs, pos + 1, seq![]);
            match apps_run(evs, pos + 1, seq![]) {
                Err(_) => {},
                Ok((a, q)) => lemma_manifest_families(evs, q, ManifestView { applications: a, ..m }, saw),
            }
        } else {
            lemma_manifest_families(evs, pos + 1, m, saw);
        }
    }
}

/// Every target device family of a parsed manifest comes from a `TargetDeviceFamily` tag of the
/// document, with that tag's `Name`, `MinVersion` and `MaxVersionTested` attributes as its
/// name, minimum version and maximum version tested.
pub proof fn law_families_keep_their_attributes(evs: Seq<XmlEventView>)
    ensures
        manifest_of(evs) matches Ok(m) ==> forall|i: int|
            0 <= i < m.target_device_family.len() ==> read_from_family_tag(
                evs,
                #[trigger] m.target_device_family[i],
            ),
{
    lemma_manifest_families(evs, 0, empty_manifest(), false);
}

} // verus!
