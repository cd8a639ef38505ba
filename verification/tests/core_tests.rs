use assay::analyze::analyze;
use assay::matrix::{Matrix, ParityTier, Source, TauriPath};
use assay::parse::{parse_appx_manifest, parse_electron};
use assay::profile::Profile;
use assay::pwa::{detect_pwa, extract_start_url, placeholder_icon, port_pwa_to_tauri, slug};
use assay::report::render_report;

fn profile(ids: &[&str]) -> Profile {
    Profile {
        source: Source::Uwp,
        capabilities: ids.iter().map(|s| s.to_string()).collect(),
    }
}

#[test]
fn classifies_gaps_divergences_and_unknowns() {
    let m = Matrix::embedded();
    let a = analyze(
        &m,
        &profile(&["uwp.toast", "uwp.live_tiles", "uwp.share_target", "nope.bogus"]),
    );
    assert!(a
        .gaps
        .iter()
        .any(|g| g.id == "uwp.toast" && g.tauri_path == TauriPath::CustomRust));
    assert!(a.divergences.iter().any(|d| d.id == "uwp.live_tiles"));
    assert!(a.divergences.iter().any(|d| d.id == "uwp.share_target"));
    assert_eq!(a.unknown, vec!["nope.bogus".to_string()]);
}

#[test]
fn embedded_matrix_parses() {
    let m = Matrix::embedded();
    assert!(m.get("uwp.toast").is_some());
    assert!(m.get("electron.ipc").is_some());
}

#[test]
fn embedded_matrix_marks_ui_capabilities_visual() {
    let m = Matrix::embedded();
    for id in ["uwp.toast", "electron.tray", "electron.menu"] {
        assert_eq!(
            m.get(id).unwrap().parity_tier(),
            ParityTier::Visual,
            "{id} should be visual tier"
        );
    }
    assert_eq!(m.get("electron.ipc").unwrap().parity_tier(), ParityTier::Behavioral);
}

#[test]
fn every_row_has_a_citation() {
    let m = Matrix::embedded();
    for c in &m.capabilities {
        assert!(!c.citation_url.trim().is_empty(), "row {} missing citation", c.id);
    }
}

#[test]
fn renders_embedded_matrix_markdown() {
    let out = render_report(&Matrix::embedded(), None);
    assert!(out.contains("## UWP"));
    assert!(out.contains("## Electron"));
    assert!(out.contains("no viable path"));
    assert!(out.contains("Path rollup:"));
}

#[test]
fn source_filter_restricts_sections() {
    let out = render_report(&Matrix::embedded(), Some(Source::Electron));
    assert!(out.contains("## Electron"));
    assert!(!out.contains("## UWP"));
}

const APPX: &str = r#"<?xml version="1.0"?>
<Package xmlns="http://schemas.microsoft.com/appx/manifest/foundation/windows10"
         xmlns:uap="http://schemas.microsoft.com/appx/manifest/uap/windows10">
  <Applications><Application>
    <Extensions>
      <uap:Extension Category="windows.protocol"><uap:Protocol Name="myapp"/></uap:Extension>
      <Extension Category="windows.shareTarget"/>
    </Extensions>
  </Application></Applications>
</Package>"#;

#[test]
fn appx_maps_protocol_and_share_target() {
    let p = parse_appx_manifest(APPX);
    assert_eq!(p.source, Source::Uwp);
    assert!(p.capabilities.contains(&"uwp.protocol_activation".to_string()));
    assert!(p.capabilities.contains(&"uwp.share_target".to_string()));
}

#[test]
fn electron_maps_apis_from_main_source() {
    let pkg = r#"{"dependencies":{"foo":"1"}}"#;
    let main = "const { Tray, globalShortcut, ipcMain } = require('electron')";
    let p = parse_electron(pkg, main);
    assert_eq!(p.source, Source::Electron);
    assert!(p.capabilities.contains(&"electron.tray".to_string()));
    assert!(p.capabilities.contains(&"electron.global_shortcut".to_string()));
    assert!(p.capabilities.contains(&"electron.ipc".to_string()));
}

const INSTAGRAM: &str = r#"<?xml version="1.0" encoding="utf-8"?>
<Package xmlns="http://schemas.microsoft.com/appx/manifest/foundation/windows10"
  xmlns:uap="http://schemas.microsoft.com/appx/manifest/uap/windows10"
  xmlns:uap3="http://schemas.microsoft.com/appx/manifest/uap/windows10/3"
  xmlns:uap10="http://schemas.microsoft.com/appx/manifest/uap/windows10/10">
  <Properties><DisplayName>Instagram</DisplayName></Properties>
  <Dependencies>
    <uap10:HostRuntimeDependency Name="Microsoft.MicrosoftEdge.Stable" MinVersion="1.0.0.0" />
  </Dependencies>
  <Applications>
    <Application Id="App" uap10:HostId="PWA" uap10:Parameters="--app-id=akpam --app-fallback-url=https://www.instagram.com/?utm_source=pwa_homescreen&amp;__pwa=1 --display-mode=standalone --windows-store-app">
      <Extensions>
        <uap:Extension Category="windows.shareTarget">
          <uap:ShareTarget><uap:SupportedFileTypes>
            <uap:FileType>.mp4</uap:FileType>
            <uap:FileType>.jpg</uap:FileType>
          </uap:SupportedFileTypes></uap:ShareTarget>
        </uap:Extension>
      </Extensions>
    </Application>
  </Applications>
</Package>"#;

const PLAIN_UWP: &str = r#"<?xml version="1.0" encoding="utf-8"?>
<Package xmlns="http://schemas.microsoft.com/appx/manifest/foundation/windows10"
  xmlns:uap="http://schemas.microsoft.com/appx/manifest/uap/windows10">
  <Properties><DisplayName>Real App</DisplayName></Properties>
  <Applications>
    <Application Id="App" Executable="App.exe" EntryPoint="App.App">
      <Extensions>
        <uap:Extension Category="windows.protocol">
          <uap:Protocol Name="myapp" />
        </uap:Extension>
      </Extensions>
    </Application>
  </Applications>
</Package>"#;

#[test]
fn detects_the_real_instagram_package_as_a_hosted_pwa() {
    let app = detect_pwa(INSTAGRAM).expect("should detect a PWA");
    assert_eq!(app.name, "Instagram");
    assert_eq!(app.start_url, "https://www.instagram.com/?utm_source=pwa_homescreen&__pwa=1");
    assert_eq!(app.display_mode.as_deref(), Some("standalone"));
    assert_eq!(app.host_runtime.as_deref(), Some("Microsoft.MicrosoftEdge.Stable"));
    assert_eq!(app.share_target_types, vec![".mp4", ".jpg"]);
}

#[test]
fn a_conventional_uwp_app_is_not_a_pwa() {
    assert!(detect_pwa(PLAIN_UWP).is_none());
}

#[test]
fn a_pwa_host_without_a_recoverable_url_is_not_claimed() {
    let xml = INSTAGRAM.replace(
        "--app-fallback-url=https://www.instagram.com/?utm_source=pwa_homescreen&amp;__pwa=1 ",
        "",
    );
    assert!(detect_pwa(&xml).is_none());
}

#[test]
fn start_url_falls_back_to_the_web_app_internals_description() {
    let blob = "parameters?--app-id=x;profile-directory?Default;start-url?https://example.com/app;handlers?share_target";
    assert_eq!(extract_start_url(blob).as_deref(), Some("https://example.com/app"));
}

#[test]
fn generated_config_carries_the_real_url_and_names() {
    let app = detect_pwa(INSTAGRAM).expect("detect");
    let port = port_pwa_to_tauri(&app);
    assert!(port.tauri_conf.contains("https://www.instagram.com/"));
    assert!(port.tauri_conf.contains("\"productName\": \"Instagram\""));
    assert!(port.tauri_conf.contains("\"identifier\": \"com.example.instagram\""));
    assert!(port.cargo_toml.contains("name = \"instagram\""));
    assert!(port.cargo_toml.contains("publish = false"));
    assert!(port.main_rs.contains("tauri::Builder::default()"));
}

#[test]
fn the_share_target_loss_is_stated_not_hidden() {
    let app = detect_pwa(INSTAGRAM).expect("detect");
    let port = port_pwa_to_tauri(&app);
    let shares: Vec<_> = port.not_ported.iter().filter(|n| n.contains("Share Target")).collect();
    assert_eq!(shares.len(), 1, "share target loss must be reported exactly once");
    assert!(port.migration_md.contains("Share Target"));
    assert!(port.migration_md.contains("What is NOT ported"));
}

#[test]
fn a_build_script_is_emitted_because_tauri_cannot_compile_without_one() {
    let app = detect_pwa(INSTAGRAM).expect("detect");
    let port = port_pwa_to_tauri(&app);
    assert!(port.build_rs.contains("tauri_build::build()"));
    assert!(port.cargo_toml.contains("tauri-build"));
}

#[test]
fn slugs_are_safe_for_crate_and_bundle_ids() {
    assert_eq!(slug("Instagram"), "instagram");
    assert_eq!(slug("My App 2.0"), "my-app-2-0");
    assert_eq!(slug("!!!"), "app");
}

#[test]
fn the_placeholder_icon_is_a_structurally_valid_ico() {
    let ico = placeholder_icon();
    assert_eq!(&ico[0..4], &[0, 0, 1, 0], "ICONDIR magic: reserved=0, type=1");
    assert_eq!(u16::from_le_bytes([ico[4], ico[5]]), 1, "one image");
    assert_eq!(ico[6], 16, "width");
    assert_eq!(ico[7], 16, "height");
    let size = u32::from_le_bytes([ico[14], ico[15], ico[16], ico[17]]) as usize;
    let offset = u32::from_le_bytes([ico[18], ico[19], ico[20], ico[21]]) as usize;
    assert_eq!(offset, 22, "image data follows the single directory entry");
    assert_eq!(offset + size, ico.len(), "declared image size must match the actual bytes");
}

#[test]
fn the_embedded_matrix_has_both_sources() {
    let m = Matrix::embedded();
    assert!(m.capabilities.iter().any(|c| c.source == Source::Uwp));
    assert!(m.capabilities.iter().any(|c| c.source == Source::Electron));
}

#[test]
fn every_analysis_ends_with_the_engine_divergence() {
    let m = Matrix::embedded();
    for ids in [vec![], vec!["uwp.toast"], vec!["nope.x", "electron.tray"]] {
        let a = analyze(&m, &profile(&ids));
        let last = a.divergences.last().expect("engine divergence present");
        assert_eq!(last.id, "webview.engine");
    }
}

#[test]
fn a_visual_gap_is_also_reported_as_unmeasured() {
    let m = Matrix::embedded();
    let a = analyze(&m, &profile(&["electron.tray"]));
    assert_eq!(a.gaps.len(), 1);
    assert!(a
        .divergences
        .iter()
        .any(|d| d.id == "electron.tray" && d.name.contains("visual parity NOT measured")));
}

#[test]
fn the_unknown_section_appears_exactly_when_ids_are_unknown() {
    let m = Matrix::embedded();
    let known = assay::analyze::render_divergence(&analyze(&m, &profile(&["uwp.live_tiles"])));
    assert!(known.starts_with("# Known-Divergence Report\n\n"));
    assert!(!known.contains("## Unknown capabilities (skipped)"));
    let unknown = assay::analyze::render_divergence(&analyze(&m, &profile(&["uwp.live_tiles", "nope.bogus"])));
    assert!(unknown.contains("## Unknown capabilities (skipped)\n\n- nope.bogus\n"));
}
