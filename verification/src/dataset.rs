//! The cited capability dataset that ships with the crate.
use vstd::prelude::*;
use crate::matrix::{Capability, Matrix, ParityTier, Recipe, Severity, Source, TauriPath, tier_of};
use crate::text::{is_ws, lead_ws, trail_ws, trim_seq};

verus! {

/// A citation is a public `https://` document.
pub open spec fn cited(url: Seq<char>) -> bool {
    "https://"@.is_prefix_of(url)
}

/// The (id, source, Tauri path, parity tier) spine of the shipped dataset, in row order.
pub open spec fn embedded_spine() -> Seq<(Seq<char>, Source, TauriPath, ParityTier)> {
    seq![
        ("uwp.live_tiles"@, Source::Uwp, TauriPath::NoViablePath, ParityTier::Behavioral),
        ("uwp.toast"@, Source::Uwp, TauriPath::CustomRust, ParityTier::Visual),
        ("uwp.background_tasks"@, Source::Uwp, TauriPath::CustomRust, ParityTier::Behavioral),
        ("uwp.share_target"@, Source::Uwp, TauriPath::NoViablePath, ParityTier::Behavioral),
        ("uwp.protocol_activation"@, Source::Uwp, TauriPath::Plugin, ParityTier::Behavioral),
        ("uwp.credential_locker"@, Source::Uwp, TauriPath::Plugin, ParityTier::Behavioral),
        ("uwp.app_services"@, Source::Uwp, TauriPath::CustomRust, ParityTier::Behavioral),
        ("uwp.file_picker"@, Source::Uwp, TauriPath::Plugin, ParityTier::Visual),
        ("uwp.clipboard"@, Source::Uwp, TauriPath::Plugin, ParityTier::Behavioral),
        ("uwp.startup_task"@, Source::Uwp, TauriPath::Plugin, ParityTier::Behavioral),
        ("uwp.app_settings"@, Source::Uwp, TauriPath::Plugin, ParityTier::Behavioral),
        ("electron.ipc"@, Source::Electron, TauriPath::Native, ParityTier::Behavioral),
        ("electron.native_module"@, Source::Electron, TauriPath::Sidecar, ParityTier::Behavioral),
        ("electron.tray"@, Source::Electron, TauriPath::Native, ParityTier::Visual),
        ("electron.menu"@, Source::Electron, TauriPath::Native, ParityTier::Visual),
        ("electron.global_shortcut"@, Source::Electron, TauriPath::Plugin, ParityTier::Behavioral),
        ("electron.auto_update"@, Source::Electron, TauriPath::Plugin, ParityTier::Behavioral),
        ("electron.power_monitor"@, Source::Electron, TauriPath::CustomRust, ParityTier::Behavioral),
        ("electron.deep_link"@, Source::Electron, TauriPath::Plugin, ParityTier::Behavioral),
        ("electron.dialog"@, Source::Electron, TauriPath::Plugin, ParityTier::Visual),
        ("electron.notifications"@, Source::Electron, TauriPath::Plugin, ParityTier::Visual),
        ("electron.clipboard"@, Source::Electron, TauriPath::Plugin, ParityTier::Behavioral),
        ("electron.autostart"@, Source::Electron, TauriPath::Plugin, ParityTier::Behavioral),
        ("electron.single_instance"@, Source::Electron, TauriPath::Plugin, ParityTier::Behavioral),
    ]
}

/// What a dataset row says, as plain values.
pub struct RowText {
    pub id: Seq<char>,
    pub source: Source,
    pub name: Seq<char>,
    pub description: Seq<char>,
    pub tauri_path: TauriPath,
    pub severity: Severity,
    pub citation_url: Seq<char>,
    pub recipe: Option<Recipe>,
    pub plugin: Option<Seq<char>>,
    pub crate_name: Option<Seq<char>>,
    pub parity_tier: ParityTier,
}

pub open spec fn opt_text(o: Option<String>) -> Option<Seq<char>> {
    match o {
        Some(v) => Some(v@),
        None => None,
    }
}

/// What row `c` says, its parity tier resolved.
pub open spec fn row_text(c: Capability) -> RowText {
    RowText {
        id: c.id@,
        source: c.source,
        name: c.name@,
        description: c.description@,
        tauri_path: c.tauri_path,
        severity: c.severity,
        citation_url: c.citation_url@,
        recipe: c.recipe,
        plugin: opt_text(c.plugin),
        crate_name: opt_text(c.crate_name),
        parity_tier: tier_of(c),
    }
}

/// Every row of the shipped dataset, in order.
pub open spec fn embedded_rows() -> Seq<RowText> {
    seq![
        RowText {
            id: "uwp.live_tiles"@,
            source: Source::Uwp,
            name: "Live Tiles"@,
            description: "Dynamic Start-menu tile content"@,
            tauri_path: TauriPath::NoViablePath,
            severity: Severity::NoParity,
            citation_url: "https://learn.microsoft.com/en-us/windows/uwp/launch-resume/update-a-live-tile-from-a-background-task"@,
            recipe: None,
            plugin: None,
            crate_name: None,
            parity_tier: ParityTier::Behavioral,
        },
        RowText {
            id: "uwp.toast"@,
            source: Source::Uwp,
            name: "Toast notifications"@,
            description: "OS notification-center toasts"@,
            tauri_path: TauriPath::CustomRust,
            severity: Severity::Partial,
            citation_url: "https://docs.rs/tauri-winrt-notification"@,
            recipe: Some(Recipe::Proven),
            plugin: None,
            crate_name: Some("tauri-winrt-notification"@),
            parity_tier: ParityTier::Visual,
        },
        RowText {
            id: "uwp.background_tasks"@,
            source: Source::Uwp,
            name: "Background tasks"@,
            description: "Work registered through BackgroundTaskBuilder; requires package identity"@,
            tauri_path: TauriPath::CustomRust,
            severity: Severity::Partial,
            citation_url: "https://learn.microsoft.com/en-us/windows/apps/develop/launch/create-and-register-a-background-task"@,
            recipe: Some(Recipe::Stub),
            plugin: None,
            crate_name: None,
            parity_tier: ParityTier::Behavioral,
        },
        RowText {
            id: "uwp.share_target"@,
            source: Source::Uwp,
            name: "Share Target contract"@,
            description: "Receive content that other apps share to this one"@,
            tauri_path: TauriPath::NoViablePath,
            severity: Severity::NoParity,
            citation_url: "https://learn.microsoft.com/en-us/windows/uwp/app-to-app/receive-data"@,
            recipe: None,
            plugin: None,
            crate_name: None,
            parity_tier: ParityTier::Behavioral,
        },
        RowText {
            id: "uwp.protocol_activation"@,
            source: Source::Uwp,
            name: "Protocol activation"@,
            description: "A manifest-declared custom URI scheme activates the app"@,
            tauri_path: TauriPath::Plugin,
            severity: Severity::Full,
            citation_url: "https://v2.tauri.app/plugin/deep-linking/"@,
            recipe: Some(Recipe::Proven),
            plugin: Some("deep-link"@),
            crate_name: Some("tauri-plugin-deep-link"@),
            parity_tier: ParityTier::Behavioral,
        },
        RowText {
            id: "uwp.credential_locker"@,
            source: Source::Uwp,
            name: "Secure credential storage"@,
            description: "PasswordVault credential locker, isolated per package"@,
            tauri_path: TauriPath::Plugin,
            severity: Severity::Partial,
            citation_url: "https://v2.tauri.app/plugin/stronghold/"@,
            recipe: Some(Recipe::Stub),
            plugin: Some("stronghold"@),
            crate_name: Some("tauri-plugin-stronghold"@),
            parity_tier: ParityTier::Behavioral,
        },
        RowText {
            id: "uwp.app_services"@,
            source: Source::Uwp,
            name: "App services"@,
            description: "Inter-app RPC addressed by package family name; needs an MSIX-packaged build"@,
            tauri_path: TauriPath::CustomRust,
            severity: Severity::Partial,
            citation_url: "https://learn.microsoft.com/en-us/windows/uwp/launch-resume/how-to-create-and-consume-an-app-service"@,
            recipe: Some(Recipe::Stub),
            plugin: None,
            crate_name: None,
            parity_tier: ParityTier::Behavioral,
        },
        RowText {
            id: "uwp.file_picker"@,
            source: Source::Uwp,
            name: "File picker"@,
            description: "System open/save pickers"@,
            tauri_path: TauriPath::Plugin,
            severity: Severity::Full,
            citation_url: "https://v2.tauri.app/plugin/dialog/"@,
            recipe: Some(Recipe::Proven),
            plugin: Some("dialog"@),
            crate_name: Some("tauri-plugin-dialog"@),
            parity_tier: ParityTier::Visual,
        },
        RowText {
            id: "uwp.clipboard"@,
            source: Source::Uwp,
            name: "Clipboard"@,
            description: "Read and write the system clipboard"@,
            tauri_path: TauriPath::Plugin,
            severity: Severity::Full,
            citation_url: "https://v2.tauri.app/plugin/clipboard/"@,
            recipe: Some(Recipe::Proven),
            plugin: Some("clipboard-manager"@),
            crate_name: Some("tauri-plugin-clipboard-manager"@),
            parity_tier: ParityTier::Behavioral,
        },
        RowText {
            id: "uwp.startup_task"@,
            source: Source::Uwp,
            name: "Startup task"@,
            description: "Launch at user sign-in"@,
            tauri_path: TauriPath::Plugin,
            severity: Severity::Full,
            citation_url: "https://v2.tauri.app/plugin/autostart/"@,
            recipe: Some(Recipe::Stub),
            plugin: Some("autostart"@),
            crate_name: Some("tauri-plugin-autostart"@),
            parity_tier: ParityTier::Behavioral,
        },
        RowText {
            id: "uwp.app_settings"@,
            source: Source::Uwp,
            name: "App settings storage"@,
            description: "ApplicationData local settings"@,
            tauri_path: TauriPath::Plugin,
            severity: Severity::Full,
            citation_url: "https://v2.tauri.app/plugin/store/"@,
            recipe: Some(Recipe::Stub),
            plugin: Some("store"@),
            crate_name: Some("tauri-plugin-store"@),
            parity_tier: ParityTier::Behavioral,
        },
        RowText {
            id: "electron.ipc"@,
            source: Source::Electron,
            name: "Main/renderer IPC"@,
            description: "ipcMain/ipcRenderer bridge between the main process and renderers"@,
            tauri_path: TauriPath::Native,
            severity: Severity::Full,
            citation_url: "https://v2.tauri.app/develop/calling-rust/"@,
            recipe: None,
            plugin: None,
            crate_name: None,
            parity_tier: ParityTier::Behavioral,
        },
        RowText {
            id: "electron.native_module"@,
            source: Source::Electron,
            name: "Native Node modules"@,
            description: "In-process native addons (N-API / node-gyp)"@,
            tauri_path: TauriPath::Sidecar,
            severity: Severity::Partial,
            citation_url: "https://www.electronjs.org/docs/latest/tutorial/using-native-node-modules"@,
            recipe: Some(Recipe::Stub),
            plugin: None,
            crate_name: None,
            parity_tier: ParityTier::Behavioral,
        },
        RowText {
            id: "electron.tray"@,
            source: Source::Electron,
            name: "Tray icon + menu"@,
            description: "System tray icon with a context menu"@,
            tauri_path: TauriPath::Native,
            severity: Severity::Full,
            citation_url: "https://v2.tauri.app/learn/system-tray/"@,
            recipe: None,
            plugin: None,
            crate_name: None,
            parity_tier: ParityTier::Visual,
        },
        RowText {
            id: "electron.menu"@,
            source: Source::Electron,
            name: "Application menu"@,
            description: "Native application and window menus"@,
            tauri_path: TauriPath::Native,
            severity: Severity::Full,
            citation_url: "https://v2.tauri.app/learn/window-menu/"@,
            recipe: None,
            plugin: None,
            crate_name: None,
            parity_tier: ParityTier::Visual,
        },
        RowText {
            id: "electron.global_shortcut"@,
            source: Source::Electron,
            name: "Global shortcuts"@,
            description: "System-wide keyboard shortcuts"@,
            tauri_path: TauriPath::Plugin,
            severity: Severity::Full,
            citation_url: "https://v2.tauri.app/plugin/global-shortcut/"@,
            recipe: Some(Recipe::Stub),
            plugin: Some("global-shortcut"@),
            crate_name: Some("tauri-plugin-global-shortcut"@),
            parity_tier: ParityTier::Behavioral,
        },
        RowText {
            id: "electron.auto_update"@,
            source: Source::Electron,
            name: "Auto-update"@,
            description: "autoUpdater-driven application updates"@,
            tauri_path: TauriPath::Plugin,
            severity: Severity::Full,
            citation_url: "https://v2.tauri.app/plugin/updater/"@,
            recipe: Some(Recipe::Stub),
            plugin: Some("updater"@),
            crate_name: Some("tauri-plugin-updater"@),
            parity_tier: ParityTier::Behavioral,
        },
        RowText {
            id: "electron.power_monitor"@,
            source: Source::Electron,
            name: "PowerMonitor events"@,
            description: "Sleep, wake and battery notifications"@,
            tauri_path: TauriPath::CustomRust,
            severity: Severity::Partial,
            citation_url: "https://github.com/tauri-apps/plugins-workspace/issues/990"@,
            recipe: Some(Recipe::Stub),
            plugin: None,
            crate_name: None,
            parity_tier: ParityTier::Behavioral,
        },
        RowText {
            id: "electron.deep_link"@,
            source: Source::Electron,
            name: "Deep links"@,
            description: "Custom protocol registered with setAsDefaultProtocolClient"@,
            tauri_path: TauriPath::Plugin,
            severity: Severity::Full,
            citation_url: "https://v2.tauri.app/plugin/deep-linking/"@,
            recipe: Some(Recipe::Proven),
            plugin: Some("deep-link"@),
            crate_name: Some("tauri-plugin-deep-link"@),
            parity_tier: ParityTier::Behavioral,
        },
        RowText {
            id: "electron.dialog"@,
            source: Source::Electron,
            name: "Native dialogs"@,
            description: "Open, save and message dialogs"@,
            tauri_path: TauriPath::Plugin,
            severity: Severity::Full,
            citation_url: "https://v2.tauri.app/plugin/dialog/"@,
            recipe: Some(Recipe::Proven),
            plugin: Some("dialog"@),
            crate_name: Some("tauri-plugin-dialog"@),
            parity_tier: ParityTier::Visual,
        },
        RowText {
            id: "electron.notifications"@,
            source: Source::Electron,
            name: "Notifications"@,
            description: "Desktop notifications"@,
            tauri_path: TauriPath::Plugin,
            severity: Severity::Full,
            citation_url: "https://v2.tauri.app/plugin/notification/"@,
            recipe: Some(Recipe::Proven),
            plugin: Some("notification"@),
            crate_name: Some("tauri-plugin-notification"@),
            parity_tier: ParityTier::Visual,
        },
        RowText {
            id: "electron.clipboard"@,
            source: Source::Electron,
            name: "Clipboard"@,
            description: "The clipboard module"@,
            tauri_path: TauriPath::Plugin,
            severity: Severity::Full,
            citation_url: "https://v2.tauri.app/plugin/clipboard/"@,
            recipe: Some(Recipe::Proven),
            plugin: Some("clipboard-manager"@),
            crate_name: Some("tauri-plugin-clipboard-manager"@),
            parity_tier: ParityTier::Behavioral,
        },
        RowText {
            id: "electron.autostart"@,
            source: Source::Electron,
            name: "Launch at login"@,
            description: "app.setLoginItemSettings"@,
            tauri_path: TauriPath::Plugin,
            severity: Severity::Full,
            citation_url: "https://v2.tauri.app/plugin/autostart/"@,
            recipe: Some(Recipe::Stub),
            plugin: Some("autostart"@),
            crate_name: Some("tauri-plugin-autostart"@),
            parity_tier: ParityTier::Behavioral,
        },
        RowText {
            id: "electron.single_instance"@,
            source: Source::Electron,
            name: "Single instance"@,
            description: "app.requestSingleInstanceLock"@,
            tauri_path: TauriPath::Plugin,
            severity: Severity::Full,
            citation_url: "https://v2.tauri.app/plugin/single-instance/"@,
            recipe: Some(Recipe::Stub),
            plugin: Some("single-instance"@),
            crate_name: Some("tauri-plugin-single-instance"@),
            parity_tier: ParityTier::Behavioral,
        },
    ]
}

/// Row `c` agrees with spine entry `e`.
pub open spec fn row_matches(c: Capability, e: (Seq<char>, Source, TauriPath, ParityTier)) -> bool {
    &&& c.id@ == e.0
    &&& c.source == e.1
    &&& c.tauri_path == e.2
    &&& tier_of(c) == e.3
}

fn opt_string(s: Option<&str>) -> (r: Option<String>)
    ensures
        r is Some <==> s is Some,
        r matches Some(v) ==> v@ == s->0@,
{
    match s {
        Some(v) => Some(v.to_string()),
        None => None,
    }
}

#[allow(clippy::too_many_arguments)]
fn row(
    id: &str,
    source: Source,
    name: &str,
    description: &str,
    tauri_path: TauriPath,
    severity: Severity,
    citation_url: &str,
    recipe: Option<Recipe>,
    plugin: Option<&str>,
    crate_name: Option<&str>,
    visual: bool,
) -> (c: Capability)
    requires
        cited(citation_url@),
    ensures
        c.id@ == id@,
        c.source == source,
        c.name@ == name@,
        c.description@ == description@,
        c.tauri_path == tauri_path,
        c.severity == severity,
        c.citation_url@ == citation_url@,
        c.recipe == recipe,
        c.plugin is Some <==> plugin is Some,
        c.plugin matches Some(p) ==> p@ == plugin->0@,
        c.crate_name is Some <==> crate_name is Some,
        c.crate_name matches Some(p) ==> p@ == crate_name->0@,
        tier_of(c) == (if visual { ParityTier::Visual } else { ParityTier::Behavioral }),
        cited(c.citation_url@),
{
    Capability {
        id: id.to_string(),
        source,
        name: name.to_string(),
        description: description.to_string(),
        tauri_path,
        severity,
        citation_url: citation_url.to_string(),
        recipe,
        plugin: opt_string(plugin),
        crate_name: opt_string(crate_name),
        parity_tier: if visual { Some(ParityTier::Visual) } else { None },
    }
}

pub proof fn lemma_trail_ws_bound(s: Seq<char>)
    ensures
        trail_ws(s) <= s.len(),
        s.len() > 0 && !is_ws(s[0]) ==> trail_ws(s) < s.len(),
    decreases s.len(),
{
    if s.len() > 0 && is_ws(s.last()) {
        lemma_trail_ws_bound(s.drop_last());
        if s.len() > 1 {
            assert(s.drop_last()[0] == s[0]);
        }
    }
}

/// A cited URL is never blank.
pub proof fn lemma_cited_not_blank(url: Seq<char>)
    requires
        cited(url),
    ensures
        trim_seq(url).len() > 0,
{
    reveal_strlit("https://");
    assert("https://"@[0] == 'h');
    assert(url[0] == "https://"@[0]);
    assert(lead_ws(url) == 0);
    assert(url.skip(0) =~= url);
    lemma_trail_ws_bound(url);
}

impl Matrix {
    /// The dataset that ships with the crate. Every row cites a public `https://` document, so
    /// no citation is blank.
    pub fn embedded() -> (m: Matrix)
        ensures
            m.capabilities@.len() == embedded_spine().len(),
            forall|i: int|
                0 <= i < m.capabilities@.len() ==> row_matches(
                    #[trigger] m.capabilities@[i],
                    embedded_spine()[i],
                ),
            forall|i: int|
                0 <= i < m.capabilities@.len() ==> row_text(#[trigger] m.capabilities@[i]) == embedded_rows()[i],
            forall|i: int| 0 <= i < m.capabilities@.len() ==> cited(#[trigger] m.capabilities@[i].citation_url@),
            forall|i: int|
                0 <= i < m.capabilities@.len() ==> trim_seq(#[trigger] m.capabilities@[i].citation_url@).len() > 0,
    {
        proof {
            reveal_strlit("https://");
            reveal_strlit("https://learn.microsoft.com/en-us/windows/uwp/launch-resume/update-a-live-tile-from-a-background-task");
            reveal_strlit("https://docs.rs/tauri-winrt-notification");
            reveal_strlit("https://learn.microsoft.com/en-us/windows/apps/develop/launch/create-and-register-a-background-task");
            reveal_strlit("https://learn.microsoft.com/en-us/windows/uwp/app-to-app/receive-data");
            reveal_strlit("https://v2.tauri.app/plugin/deep-linking/");
            reveal_strlit("https://v2.tauri.app/plugin/stronghold/");
            reveal_strlit("https://learn.microsoft.com/en-us/windows/uwp/launch-resume/how-to-create-and-consume-an-app-service");
            reveal_strlit("https://v2.tauri.app/plugin/dialog/");
            reveal_strlit("https://v2.tauri.app/plugin/clipboard/");
            reveal_strlit("https://v2.tauri.app/plugin/autostart/");
            reveal_strlit("https://v2.tauri.app/plugin/store/");
            reveal_strlit("https://v2.tauri.app/develop/calling-rust/");
            reveal_strlit("https://www.electronjs.org/docs/latest/tutorial/using-native-node-modules");
            reveal_strlit("https://v2.tauri.app/learn/system-tray/");
            reveal_strlit("https://v2.tauri.app/learn/window-menu/");
            reveal_strlit("https://v2.tauri.app/plugin/global-shortcut/");
            reveal_strlit("https://v2.tauri.app/plugin/updater/");
            reveal_strlit("https://github.com/tauri-apps/plugins-workspace/issues/990");
            reveal_strlit("https://v2.tauri.app/plugin/notification/");
            reveal_strlit("https://v2.tauri.app/plugin/single-instance/");
        }
        let mut caps: Vec<Capability> = Vec::new();
        caps.push(row("uwp.live_tiles", Source::Uwp, "Live Tiles", "Dynamic Start-menu tile content",
            TauriPath::NoViablePath, Severity::NoParity,
            "https://learn.microsoft.com/en-us/windows/uwp/launch-resume/update-a-live-tile-from-a-background-task",
            None, None, None, false));
        caps.push(row("uwp.toast", Source::Uwp, "Toast notifications", "OS notification-center toasts",
            TauriPath::CustomRust, Severity::Partial, "https://docs.rs/tauri-winrt-notification",
            Some(Recipe::Proven), None, Some("tauri-winrt-notification"), true));
        caps.push(row("uwp.background_tasks", Source::Uwp, "Background tasks",
            "Work registered through BackgroundTaskBuilder; requires package identity",
            TauriPath::CustomRust, Severity::Partial,
            "https://learn.microsoft.com/en-us/windows/apps/develop/launch/create-and-register-a-background-task",
            Some(Recipe::Stub), None, None, false));
        caps.push(row("uwp.share_target", Source::Uwp, "Share Target contract",
            "Receive content that other apps share to this one", TauriPath::NoViablePath,
            Severity::NoParity, "https://learn.microsoft.com/en-us/windows/uwp/app-to-app/receive-data",
            None, None, None, false));
        caps.push(row("uwp.protocol_activation", Source::Uwp, "Protocol activation",
            "A manifest-declared custom URI scheme activates the app", TauriPath::Plugin,
            Severity::Full, "https://v2.tauri.app/plugin/deep-linking/", Some(Recipe::Proven),
            Some("deep-link"), Some("tauri-plugin-deep-link"), false));
        caps.push(row("uwp.credential_locker", Source::Uwp, "Secure credential storage",
            "PasswordVault credential locker, isolated per package", TauriPath::Plugin,
            Severity::Partial, "https://v2.tauri.app/plugin/stronghold/", Some(Recipe::Stub),
            Some("stronghold"), Some("tauri-plugin-stronghold"), false));
        caps.push(row("uwp.app_services", Source::Uwp, "App services",
            "Inter-app RPC addressed by package family name; needs an MSIX-packaged build",
            TauriPath::CustomRust, Severity::Partial,
            "https://learn.microsoft.com/en-us/windows/uwp/launch-resume/how-to-create-and-consume-an-app-service",
            Some(Recipe::Stub), None, None, false));
        caps.push(row("uwp.file_picker", Source::Uwp, "File picker", "System open/save pickers",
            TauriPath::Plugin, Severity::Full, "https://v2.tauri.app/plugin/dialog/",
            Some(Recipe::Proven), Some("dialog"), Some("tauri-plugin-dialog"), true));
        caps.push(row("uwp.clipboard", Source::Uwp, "Clipboard", "Read and write the system clipboard",
            TauriPath::Plugin, Severity::Full, "https://v2.tauri.app/plugin/clipboard/",
            Some(Recipe::Proven), Some("clipboard-manager"), Some("tauri-plugin-clipboard-manager"),
            false));
        caps.push(row("uwp.startup_task", Source::Uwp, "Startup task", "Launch at user sign-in",
            TauriPath::Plugin, Severity::Full, "https://v2.tauri.app/plugin/autostart/",
            Some(Recipe::Stub), Some("autostart"), Some("tauri-plugin-autostart"), false));
        caps.push(row("uwp.app_settings", Source::Uwp, "App settings storage",
            "ApplicationData local settings", TauriPath::Plugin, Severity::Full,
            "https://v2.tauri.app/plugin/store/", Some(Recipe::Stub), Some("store"),
            Some("tauri-plugin-store"), false));
        caps.push(row("electron.ipc", Source::Electron, "Main/renderer IPC",
            "ipcMain/ipcRenderer bridge between the main process and renderers", TauriPath::Native,
            Severity::Full, "https://v2.tauri.app/develop/calling-rust/", None, None, None, false));
        caps.push(row("electron.native_module", Source::Electron, "Native Node modules",
            "In-process native addons (N-API / node-gyp)", TauriPath::Sidecar, Severity::Partial,
            "https://www.electronjs.org/docs/latest/tutorial/using-native-node-modules",
            Some(Recipe::Stub), None, None, false));
        caps.push(row("electron.tray", Source::Electron, "Tray icon + menu",
            "System tray icon with a context menu", TauriPath::Native, Severity::Full,
            "https://v2.tauri.app/learn/system-tray/", None, None, None, true));
        caps.push(row("electron.menu", Source::Electron, "Application menu",
            "Native application and window menus", TauriPath::Native, Severity::Full,
            "https://v2.tauri.app/learn/window-menu/", None, None, None, true));
        caps.push(row("electron.global_shortcut", Source::Electron, "Global shortcuts",
            "System-wide keyboard shortcuts", TauriPath::Plugin, Severity::Full,
            "https://v2.tauri.app/plugin/global-shortcut/", Some(Recipe::Stub),
            Some("global-shortcut"), Some("tauri-plugin-global-shortcut"), false));
        caps.push(row("electron.auto_update", Source::Electron, "Auto-update",
            "autoUpdater-driven application updates", TauriPath::Plugin, Severity::Full,
            "https://v2.tauri.app/plugin/updater/", Some(Recipe::Stub), Some("updater"),
            Some("tauri-plugin-updater"), false));
        caps.push(row("electron.power_monitor", Source::Electron, "PowerMonitor events",
            "Sleep, wake and battery notifications", TauriPath::CustomRust, Severity::Partial,
            "https://github.com/tauri-apps/plugins-workspace/issues/990", Some(Recipe::Stub), None,
            None, false));
        caps.push(row("electron.deep_link", Source::Electron, "Deep links",
            "Custom protocol registered with setAsDefaultProtocolClient", TauriPath::Plugin,
            Severity::Full, "https://v2.tauri.app/plugin/deep-linking/", Some(Recipe::Proven),
            Some("deep-link"), Some("tauri-plugin-deep-link"), false));
        caps.push(row("electron.dialog", Source::Electron, "Native dialogs",
            "Open, save and message dialogs", TauriPath::Plugin, Severity::Full,
            "https://v2.tauri.app/plugin/dialog/", Some(Recipe::Proven), Some("dialog"),
            Some("tauri-plugin-dialog"), true));
        caps.push(row("electron.notifications", Source::Electron, "Notifications",
            "Desktop notifications", TauriPath::Plugin, Severity::Full,
            "https://v2.tauri.app/plugin/notification/", Some(Recipe::Proven), Some("notification"),
            Some("tauri-plugin-notification"), true));
        caps.push(row("electron.clipboard", Source::Electron, "Clipboard",
            "The clipboard module", TauriPath::Plugin, Severity::Full,
            "https://v2.tauri.app/plugin/clipboard/", Some(Recipe::Proven),
            Some("clipboard-manager"), Some("tauri-plugin-clipboard-manager"), false));
        caps.push(row("electron.autostart", Source::Electron, "Launch at login",
            "app.setLoginItemSettings", TauriPath::Plugin, Severity::Full,
            "https://v2.tauri.app/plugin/autostart/", Some(Recipe::Stub), Some("autostart"),
            Some("tauri-plugin-autostart"), false));
        caps.push(row("electron.single_instance", Source::Electron, "Single instance",
            "app.requestSingleInstanceLock", TauriPath::Plugin, Severity::Full,
            "https://v2.tauri.app/plugin/single-instance/", Some(Recipe::Stub),
            Some("single-instance"), Some("tauri-plugin-single-instance"), false));
        let m = Matrix { capabilities: caps };
        assert(m.capabilities@.len() == embedded_spine().len());
        assert forall|i: int| 0 <= i < m.capabilities@.len() implies trim_seq(
            #[trigger] m.capabilities@[i].citation_url@,
        ).len() > 0 by {
            lemma_cited_not_blank(m.capabilities@[i].citation_url@);
        }
        m
    }
}

} // verus!
