use assay::flow::{
    looks_bundled, run_electron_flow, run_uwp_flow, unmatched_uwp_surface, ElectronInput,
    FlowResult, ScaffoldOutput, SidecarKit, StepStatus, UwpInput,
};
use assay::matrix::Matrix;

const PWA: &str = r#"<?xml version="1.0" encoding="utf-8"?>
<Package xmlns="http://schemas.microsoft.com/appx/manifest/foundation/windows10"
  xmlns:uap="http://schemas.microsoft.com/appx/manifest/uap/windows10"
  xmlns:uap3="http://schemas.microsoft.com/appx/manifest/uap/windows10/3"
  xmlns:uap10="http://schemas.microsoft.com/appx/manifest/uap/windows10/10"
  xmlns:rescap="http://schemas.microsoft.com/appx/manifest/foundation/windows10/restrictedcapabilities">
  <Identity Name="Facebook.InstagramBeta" Publisher="CN=X" Version="42.0.23.0" />
  <Properties><DisplayName>Instagram</DisplayName></Properties>
  <Dependencies>
    <uap10:HostRuntimeDependency Name="Microsoft.MicrosoftEdge.Stable" MinVersion="1.0.0.0" />
  </Dependencies>
  <Applications>
    <Application Id="App" uap10:HostId="PWA" uap10:Parameters="--app-fallback-url=https://www.instagram.com/ --display-mode=standalone">
      <Extensions>
        <uap:Extension Category="windows.shareTarget">
          <uap:ShareTarget><uap:SupportedFileTypes><uap:FileType>.jpg</uap:FileType></uap:SupportedFileTypes></uap:ShareTarget>
        </uap:Extension>
        <uap3:Extension Category="windows.appExtension">
          <uap3:AppExtension Name="microsoft.store.edgePWA" Id="MicrosoftEdge" PublicFolder="Public" />
        </uap3:Extension>
      </Extensions>
    </Application>
  </Applications>
  <Capabilities><rescap:Capability Name="runFullTrust" /></Capabilities>
</Package>"#;

const NATIVE_UWP: &str = r#"<?xml version="1.0" encoding="utf-8"?>
<Package xmlns="http://schemas.microsoft.com/appx/manifest/foundation/windows10"
  xmlns:uap="http://schemas.microsoft.com/appx/manifest/uap/windows10">
  <Identity Name="Contoso.App" Publisher="CN=Y" Version="1.2.3.0" />
  <Properties><DisplayName>Contoso</DisplayName></Properties>
  <Applications>
    <Application Id="App" Executable="App.exe" EntryPoint="App.App">
      <Extensions>
        <uap:Extension Category="windows.protocol">
          <uap:Protocol Name="contoso" />
        </uap:Extension>
      </Extensions>
    </Application>
  </Applications>
</Package>"#;

fn no_bridge() -> ScaffoldOutput {
    ScaffoldOutput { rust: String::new(), cargo_deps: Vec::new() }
}

fn no_kit() -> SidecarKit {
    SidecarKit {
        cargo_toml: String::new(),
        main_rs: String::new(),
        client_rs: String::new(),
        migration_md: String::new(),
        tauri_conf_snippet: String::new(),
    }
}

fn uwp(xml: &str, name: &str) -> FlowResult {
    run_uwp_flow(
        &Matrix::embedded(),
        &UwpInput { app_name: name.into(), manifest_xml: xml.into() },
        &no_bridge(),
    )
}

#[test]
fn the_uwp_flow_ports_a_hosted_pwa_and_skips_bridging() {
    let r = uwp(PWA, "Instagram");
    assert_eq!(r.kind, "uwp");
    let names: Vec<_> = r.steps.iter().map(|s| s.name).collect();
    assert_eq!(
        names,
        vec!["parse-manifest", "classify", "port", "scaffold-bridge", "coverage-check"],
        "the step list must be deterministic"
    );
    let paths: Vec<String> = r.artifacts.iter().map(|a| a.path.clone()).collect();
    assert!(paths.iter().any(|p| p.contains("tauri.conf.json")));
    assert!(paths.iter().any(|p| p.contains("build.rs")));
    let bridge = r.steps.iter().find(|s| s.name == "scaffold-bridge").unwrap();
    assert!(matches!(bridge.status, StepStatus::Skipped(_)));
}

#[test]
fn the_uwp_flow_refuses_to_port_a_native_package() {
    let r = uwp(NATIVE_UWP, "Contoso");
    let port = r.steps.iter().find(|s| s.name == "port").unwrap();
    assert!(matches!(port.status, StepStatus::Skipped(_)));
    assert!(port.status.detail().contains("native XAML"));
    let bridge = r.steps.iter().find(|s| s.name == "scaffold-bridge").unwrap();
    assert!(matches!(bridge.status, StepStatus::Completed(_)));
}

#[test]
fn an_assessed_extension_is_not_also_reported_as_a_coverage_gap() {
    let unmatched = unmatched_uwp_surface(PWA, &vec!["uwp.share_target".to_string()]);
    assert!(
        !unmatched.iter().any(|u| u.contains("shareTarget")),
        "shareTarget was assessed and must not be flagged as uncovered: {unmatched:?}"
    );
    assert!(unmatched.iter().any(|u| u == "capability:runFullTrust"));
    assert!(unmatched.iter().any(|u| u.contains("appExtension")));
}

#[test]
fn runfulltrust_is_reported_as_unassessed_instead_of_dropped() {
    let r = uwp(PWA, "Instagram");
    assert!(r.report_md.contains("runFullTrust"), "declared capability must appear in the report:\n{}", r.report_md);
    assert!(r.report_md.contains("no matrix row"));
    let cov = r.steps.iter().find(|s| s.name == "coverage-check").unwrap();
    assert!(matches!(cov.status, StepStatus::Blocked(_)));
}

#[test]
fn a_fully_covered_manifest_reports_no_coverage_gap() {
    let unmatched = unmatched_uwp_surface(NATIVE_UWP, &vec!["uwp.protocol_activation".to_string()]);
    assert!(
        unmatched.is_empty(),
        "protocol activation is in the matrix, so nothing should be unmatched: {unmatched:?}"
    );
}

fn electron(main: &str, files: usize, pkg: &str) -> FlowResult {
    run_electron_flow(
        &Matrix::embedded(),
        &ElectronInput {
            app_name: "Test".into(),
            package_json: pkg.into(),
            main_source: main.into(),
            file_count: files,
            packed_asar: None,
        },
        &no_bridge(),
        &Vec::new(),
        &no_kit(),
    )
}

#[test]
fn the_electron_flow_step_list_is_deterministic() {
    let r = electron("const { Tray } = require('electron')\n", 1, "{}");
    assert_eq!(r.kind, "electron");
    let names: Vec<_> = r.steps.iter().map(|s| s.name).collect();
    assert_eq!(
        names,
        vec!["read-main-process", "bundling-check", "detect-capabilities", "sidecar", "scaffold-bridge"]
    );
}

#[test]
fn a_bundled_main_process_is_flagged_not_silently_trusted() {
    let bundled = format!("const a=1;{}\n", "x".repeat(5000));
    let r = electron(&bundled, 1, "{}");
    let step = r.steps.iter().find(|s| s.name == "bundling-check").unwrap();
    assert!(matches!(step.status, StepStatus::Blocked(_)), "bundled sources must be reported: {step:?}");
    assert!(step.status.detail().contains("unreliable"));
}

#[test]
fn ordinary_sources_are_not_misflagged_as_bundled() {
    let normal = "const { app, Tray } = require('electron')\n\
                  app.on('ready', () => {\n  console.log('hi')\n})\n";
    assert!(looks_bundled(normal).is_none());
}

#[test]
fn a_packed_asar_blocks_the_read_step_and_says_results_are_partial() {
    let r = run_electron_flow(
        &Matrix::embedded(),
        &ElectronInput {
            app_name: "Packed".into(),
            package_json: "{}".into(),
            main_source: String::new(),
            file_count: 0,
            packed_asar: Some("C:\\a\\resources\\app.asar".to_string()),
        },
        &no_bridge(),
        &Vec::new(),
        &no_kit(),
    );
    let step = r.steps.iter().find(|s| s.name == "read-main-process").unwrap();
    assert!(matches!(step.status, StepStatus::Blocked(_)));
    assert!(r.report_md.contains("BLOCKED"));
    assert!(!r.blocked().is_empty());
}

#[test]
fn every_report_states_the_electron_detection_caveat() {
    let r = electron("const { Tray } = require('electron')\n", 1, "{}");
    assert!(r.report_md.contains("Coverage caveat"));
    assert!(r.report_md.contains("floor, not a total"));
}

#[test]
fn the_bundling_note_reports_bytes_per_line() {
    let src = format!("{}\n{}\n", "a".repeat(900), "b".repeat(99));
    assert_eq!(
        looks_bundled(&src).as_deref(),
        Some("~500 bytes/line across 2 line(s) — this looks bundled/minified")
    );
    assert!(looks_bundled("").is_none());
}

#[test]
fn native_modules_get_a_sidecar_kit_and_the_bridge_is_emitted() {
    let kit = SidecarKit {
        cargo_toml: "[package]".into(),
        main_rs: "fn main() {}".into(),
        client_rs: "// client".into(),
        migration_md: "# Migration".into(),
        tauri_conf_snippet: "{}".into(),
    };
    let bridge = ScaffoldOutput { rust: "// bridge".into(), cargo_deps: vec!["a = \"1\"".into(), "b = \"2\"".into()] };
    let r = run_electron_flow(
        &Matrix::embedded(),
        &ElectronInput {
            app_name: "Native".into(),
            package_json: r#"{"dependencies":{"ffi-napi":"1"}}"#.into(),
            main_source: "ipcMain\n".into(),
            file_count: 2,
            packed_asar: None,
        },
        &bridge,
        &vec!["ffi-napi".to_string()],
        &kit,
    );
    let side = r.steps.iter().find(|s| s.name == "sidecar").unwrap();
    assert!(matches!(side.status, StepStatus::Completed(_)));
    assert_eq!(side.status.detail(), "1 native module(s)");
    let paths: Vec<&str> = r.artifacts.iter().map(|a| a.path.as_str()).collect();
    assert_eq!(
        paths,
        vec![
            "sidecar/sidecar/Cargo.toml",
            "sidecar/sidecar/src/main.rs",
            "sidecar/sidecar_client.rs",
            "sidecar/MIGRATION.md",
            "sidecar/tauri.conf.snippet.json",
            "bridge/bridge.rs",
            "bridge/deps.txt"
        ]
    );
    assert_eq!(r.artifacts[6].contents, "a = \"1\"\nb = \"2\"");
    let read = r.steps.iter().find(|s| s.name == "read-main-process").unwrap();
    assert_eq!(read.status.detail(), "2 source file(s)");
    assert_eq!(read.status.label(), "ok");
}

#[test]
fn an_unreadable_manifest_blocks_the_parse_step() {
    let r = uwp("<Package", "Broken");
    let parse = r.steps.iter().find(|s| s.name == "parse-manifest").unwrap();
    assert!(matches!(parse.status, StepStatus::Blocked(_)));
    assert!(parse.status.detail().starts_with("unreadable manifest: unmarshal appx manifest: "));
    let ok = uwp(NATIVE_UWP, "Contoso");
    let parse = ok.steps.iter().find(|s| s.name == "parse-manifest").unwrap();
    assert_eq!(parse.status.detail(), "Contoso.App 1.2.3.0 (publisher CN=Y)");
}

#[test]
fn identity_is_parsed_from_a_self_closing_element() {
    let m = assay::msix::parse_appx_manifest(PWA.as_bytes()).expect("parse");
    assert_eq!(m.identity.name, "Facebook.InstagramBeta");
    assert_eq!(m.identity.version, "42.0.23.0");
}
