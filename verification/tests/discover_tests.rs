use assay::cli::{parse_kind, pick_one_app, port_manifest, render_discovery, analysis_source, AppSource};
use assay::discover::{
    clean_display_name, dedup_installs, discover, electron_app_at, electron_package_info,
    is_skipped_dir, split_package_id, AppKind, DiscoverOptions, InstalledApp,
};

fn app(name: &str, kind: AppKind, id: &str, root: &str) -> InstalledApp {
    InstalledApp {
        display_name: name.into(),
        kind,
        id: id.into(),
        version: None,
        install_root: root.into(),
        manifest: None,
        package_json: None,
        main_dir: None,
        asar: None,
        running_pids: Vec::new(),
    }
}

#[test]
fn package_id_splits_into_name_and_version() {
    let (n, v) = split_package_id("Facebook.InstagramBeta_42.0.23.0_neutral__8xx8rvfyw5nnt");
    assert_eq!(n, "Facebook.InstagramBeta");
    assert_eq!(v.as_deref(), Some("42.0.23.0"));
}

#[test]
fn ms_resource_display_names_fall_back_to_the_package_name() {
    let got = clean_display_name(
        Some("ms-resource:appDisplayName".into()),
        "Microsoft.DesktopAppInstaller_1.29.279.0_x64__8wekyb3d8bbwe",
    );
    assert_eq!(got, "Microsoft.DesktopAppInstaller");
}

#[test]
fn indirect_resource_display_names_fall_back_to_the_package_name() {
    let got = clean_display_name(
        Some(
            "@{Microsoft.Windows.StartMenuExperienceHost_10.0.26100.4768_neutral_neutral_cw5n1h2txyewy?ms-resource://Microsoft.Windows.StartMenuExperienceHost/StartMenuExperienceHost/PkgDisplayName}"
                .into(),
        ),
        "Microsoft.Windows.StartMenuExperienceHost_10.0.26100.4768_neutral_neutral_cw5n1h2txyewy",
    );
    assert_eq!(got, "Microsoft.Windows.StartMenuExperienceHost");
}

#[test]
fn scratch_directories_are_not_walked() {
    assert!(is_skipped_dir("Temp"));
    assert!(is_skipped_dir("temp"));
    assert!(is_skipped_dir("Cache"));
    assert!(is_skipped_dir("node_modules"));
    assert!(is_skipped_dir(".git"));
    assert!(!is_skipped_dir("Programs"));
    assert!(!is_skipped_dir("resources"));
}

#[test]
fn real_display_names_are_kept() {
    let got = clean_display_name(Some("Instagram".into()), "Facebook.InstagramBeta_42.0.0.0");
    assert_eq!(got, "Instagram");
}

#[test]
fn a_packed_asar_is_reported_as_a_blocker_not_silently_skipped() {
    let mut a = app("Packed", AppKind::Electron, "packed", "C:\\app");
    a.asar = Some("C:\\app\\resources\\app.asar".into());
    assert!(a.blocker().unwrap().contains("unpack the asar"));
    assert!(a.analyze_command().is_none());
}

#[test]
fn an_unreadable_uwp_manifest_is_reported_as_a_blocker() {
    let mut a = app("Locked", AppKind::Uwp, "Locked_1.0.0.0", "C:\\WindowsApps\\Locked");
    a.version = Some("1.0.0.0".into());
    assert!(a.blocker().unwrap().contains("not readable"));
}

#[test]
fn filters_match_on_both_display_name_and_id() {
    let mut a = app("Instagram", AppKind::Uwp, "Facebook.InstagramBeta_42.0.23.0", "C:\\x");
    a.manifest = Some("C:\\x\\AppxManifest.xml".into());
    let by_name = DiscoverOptions { filter: Some("instagram".into()), ..Default::default() };
    let by_id = DiscoverOptions { filter: Some("facebook".into()), ..Default::default() };
    let miss = DiscoverOptions { filter: Some("telegram".into()), ..Default::default() };
    assert!(by_name.matches(&a));
    assert!(by_id.matches(&a));
    assert!(!miss.matches(&a));
}

#[test]
fn running_only_excludes_idle_apps() {
    let mut a = app("Idle", AppKind::Electron, "idle", "C:\\x");
    a.package_json = Some("C:\\x\\resources\\app\\package.json".into());
    a.main_dir = Some("C:\\x\\resources\\app".into());
    let opts = DiscoverOptions { running_only: true, ..Default::default() };
    assert!(!opts.matches(&a));
    a.running_pids.push(1234);
    assert!(opts.matches(&a));
}

#[test]
fn analyze_command_is_emitted_for_each_kind() {
    let mut uwp = app("Instagram", AppKind::Uwp, "Facebook.InstagramBeta_42.0.23.0", "C:\\x");
    uwp.manifest = Some("C:\\x\\AppxManifest.xml".into());
    assert!(uwp.analyze_command().unwrap().contains("--appx"));
    let el = InstalledApp {
        kind: AppKind::Electron,
        manifest: None,
        package_json: Some("C:\\y\\resources\\app\\package.json".into()),
        main_dir: Some("C:\\y\\resources\\app\\out".into()),
        ..uwp.clone()
    };
    let cmd = el.analyze_command().unwrap();
    assert!(cmd.contains("--electron-pkg") && cmd.contains("--electron-main"));
}

#[test]
fn discovery_lists_running_apps_first_then_kind_then_name() {
    let mut busy = app("zeta", AppKind::Uwp, "z", "C:\\z");
    busy.running_pids.push(7);
    let found = vec![
        app("beta", AppKind::Uwp, "b", "C:\\b"),
        app("Alpha", AppKind::Uwp, "a", "C:\\a"),
        app("gamma", AppKind::Electron, "g", "C:\\g"),
        busy,
    ];
    let out = discover(&DiscoverOptions::default(), found);
    let names: Vec<&str> = out.iter().map(|a| a.display_name.as_str()).collect();
    assert_eq!(names, vec!["zeta", "gamma", "Alpha", "beta"]);
    let only_uwp = discover(
        &DiscoverOptions { kind: Some(AppKind::Uwp), ..Default::default() },
        vec![app("gamma", AppKind::Electron, "g", "C:\\g"), app("b", AppKind::Uwp, "b", "C:\\b")],
    );
    assert_eq!(only_uwp.len(), 1);
    assert_eq!(only_uwp[0].kind.as_str(), "uwp");
}

#[test]
fn one_install_reached_twice_is_listed_once() {
    let found = vec![
        app("second", AppKind::Electron, "x", "C:\\b"),
        app("first", AppKind::Electron, "x", "C:\\a"),
        app("again", AppKind::Electron, "x", "C:\\b"),
    ];
    let out = dedup_installs(found);
    let names: Vec<&str> = out.iter().map(|a| a.display_name.as_str()).collect();
    assert_eq!(names, vec!["first", "second"]);
}

#[test]
fn electron_package_facts_are_read_from_package_json() {
    let p = electron_package_info(r#"{"productName":"Slack","name":"slack","version":"4.1","main":"dist/main.js"}"#).unwrap();
    assert_eq!(p.display_name.as_deref(), Some("Slack"));
    assert_eq!(p.version.as_deref(), Some("4.1"));
    assert_eq!(p.main, "dist/main.js");
    let q = electron_package_info(r#"{"name":"tool"}"#).unwrap();
    assert_eq!(q.display_name.as_deref(), Some("tool"));
    assert_eq!(q.main, "index.js");
    let r = electron_package_info(r#"{"productName":3,"name":"tool"}"#).unwrap();
    assert_eq!(r.display_name, None);
    assert!(electron_package_info("not json").is_none());
}

#[test]
fn an_electron_install_prefers_the_unpacked_package() {
    let info = electron_package_info(r#"{"productName":"Code"}"#);
    let a = electron_app_at(
        "C:\\Code".into(),
        Some("Code".into()),
        Some("C:\\Code\\resources\\app\\package.json".into()),
        Some("C:\\Code\\resources\\app.asar".into()),
        info,
        Some("C:\\Code\\resources\\app\\out".into()),
    )
    .unwrap();
    assert_eq!(a.display_name, "Code");
    assert!(a.asar.is_none());
    assert!(a.blocker().is_none());
    let packed = electron_app_at("C:\\P".into(), Some("P".into()), None, Some("C:\\P\\resources\\app.asar".into()), None, None).unwrap();
    assert_eq!(packed.display_name, "P");
    assert!(packed.blocker().is_some());
    assert!(electron_app_at("C:\\N".into(), None, None, None, None, None).is_none());
}

#[test]
fn an_ambiguous_app_name_lists_the_candidates() {
    let e = pick_one_app("x", vec![app("X1", AppKind::Uwp, "x1", "C:\\1"), app("X2", AppKind::Uwp, "x2", "C:\\2")]).unwrap_err();
    assert_eq!(e, "'x' is ambiguous — 2 apps match:\n  X1 (x1)\n  X2 (x2)");
    let e = pick_one_app("none", Vec::new()).unwrap_err();
    assert_eq!(e, "no installed app matches 'none' — run `assay discover` to see what is available");
    let one = pick_one_app("a", vec![app("A", AppKind::Uwp, "a", "C:\\a")]).unwrap();
    assert_eq!(one.display_name, "A");
}

#[test]
fn app_resolution_explains_what_cannot_be_read() {
    let locked = app("Locked", AppKind::Uwp, "l", "C:\\l");
    assert!(matches!(analysis_source(&locked), Err(e) if e.contains("cannot be analyzed")));
    let mut el = app("E", AppKind::Electron, "e", "C:\\e");
    el.package_json = Some("C:\\e\\package.json".into());
    assert_eq!(analysis_source(&el).err().as_deref(), Some("'E' has no resolvable main-process directory"));
    el.main_dir = Some("C:\\e".into());
    assert!(matches!(analysis_source(&el), Ok(AppSource::Electron { .. })));
    assert_eq!(
        port_manifest(&el).unwrap_err(),
        "'E' is an electron app; `port` currently handles hosted-PWA MSIX packages only"
    );
    assert!(parse_kind(&Some("mac".into())).is_err());
    assert_eq!(parse_kind(&Some("uwp".into())).unwrap(), Some(AppKind::Uwp));
}

#[test]
fn the_discovery_listing_names_blockers_and_commands() {
    let mut a = app("Insta", AppKind::Uwp, "I_1.0", "C:\\i");
    a.manifest = Some("C:\\i\\AppxManifest.xml".into());
    a.version = Some("1.0".into());
    a.running_pids.push(3);
    let text = render_discovery(&vec![a, app("Locked", AppKind::Uwp, "L", "C:\\l")]);
    assert!(text.starts_with("Insta (uwp) 1.0 [running: 1 pid(s)]\n  id:   I_1.0\n  path: C:\\i\n  assay analyze --appx \"C:\\i\\AppxManifest.xml\"\n\n"));
    assert!(text.contains("  NOT ANALYZABLE: AppxManifest.xml is not readable"));
    assert!(text.ends_with("2 app(s).\n"));
    assert_eq!(render_discovery(&Vec::new()), "No matching apps found.\n");
}

#[test]
fn a_single_file_scan_warns_that_it_is_partial() {
    let n = assay::cli::scan_note(1, true, "main.js");
    assert!(n.contains("scanned 1 file"));
    assert!(n.contains("DIRECTORY"));
    let n = assay::cli::scan_note(3, false, "src");
    assert_eq!(n, "note: scanned 3 source file(s) under src");
}

#[test]
fn main_process_extensions_are_recognised() {
    for e in ["js", "mjs", "cjs", "ts", "tsx", "jsx"] {
        assert!(assay::cli::is_js_ext(e));
    }
    assert!(!assay::cli::is_js_ext("json"));
    assert!(!assay::cli::is_js_ext("JS"));
}

#[test]
fn an_unknown_source_is_a_usage_error() {
    assert!(assay::cli::parse_source(&Some("uwp".to_string())).unwrap().is_some());
    assert!(assay::cli::parse_source(&None).unwrap().is_none());
    assert_eq!(
        assay::cli::parse_source(&Some("qt".to_string())).unwrap_err(),
        "--source must be 'uwp' or 'electron', got 'qt'"
    );
}

#[test]
fn resources_directories_are_recognised_in_any_case() {
    assert!(assay::discover::is_resources_dir("resources"));
    assert!(assay::discover::is_resources_dir("Resources"));
    assert!(!assay::discover::is_resources_dir("resource"));
}

#[test]
fn the_source_scan_skips_dependencies_and_dotted_directories() {
    assert!(assay::cli::is_skipped_source_dir("node_modules"));
    assert!(assay::cli::is_skipped_source_dir(".git"));
    assert!(!assay::cli::is_skipped_source_dir("src"));
    assert!(!assay::cli::is_skipped_source_dir("Node_Modules"));
}

#[test]
fn apps_that_compare_equal_keep_the_order_they_were_found_in() {
    let found = vec![
        app("Zed", AppKind::Uwp, "z", "C:\\z"),
        app("same", AppKind::Electron, "first", "C:\\1"),
        app("Same", AppKind::Electron, "second", "C:\\2"),
        app("Alpha", AppKind::Electron, "a", "C:\\a"),
    ];
    let opts = DiscoverOptions { kind: None, filter: None, running_only: false };
    let ids: Vec<String> = assay::discover::discover(&opts, found).into_iter().map(|a| a.id).collect();
    assert_eq!(ids, vec!["a", "first", "second", "z"]);
}

#[test]
fn install_roots_are_ordered_component_by_component() {
    let found = vec![
        app("B", AppKind::Electron, "b", "C:\\a b"),
        app("A", AppKind::Electron, "a", "C:\\a\\b"),
        app("A2", AppKind::Electron, "a2", "C:\\a\\b\\"),
    ];
    let roots: Vec<String> =
        assay::discover::dedup_installs(found).into_iter().map(|a| a.install_root).collect();
    assert_eq!(roots, vec!["C:\\a\\b".to_string(), "C:\\a b".to_string()]);
}

#[test]
fn running_processes_are_attached_by_install_root() {
    let apps = vec![app("X", AppKind::Electron, "x", "C:\\Apps\\X"), app("Y", AppKind::Uwp, "y", "C:\\Apps\\Xy")];
    let procs = vec![
        (7u32, "C:\\Apps\\X\\x.exe".to_string()),
        (8u32, "C:\\Apps\\Xy\\y.exe".to_string()),
        (9u32, "C:/Apps/X/sub/helper.exe".to_string()),
    ];
    let r = assay::discover::attach_running(apps, &procs);
    assert_eq!(r[0].running_pids, vec![7, 9]);
    assert_eq!(r[1].running_pids, vec![8]);
    assert_eq!(r[0].id, "x");
}

#[test]
fn path_components_ignore_repeated_and_trailing_separators() {
    assert_eq!(assay::paths::path_parts_of("C:\\\\a\\.\\b\\"), vec!["C:".to_string(), "a".to_string(), "b".to_string()]);
    assert!(assay::paths::path_less("C:\\a\\b", "C:\\a b"));
    assert!(!assay::paths::path_less("C:\\a b", "C:\\a\\b"));
    assert!(assay::paths::is_under("C:\\a\\b\\c.exe", "C:\\a\\b"));
    assert!(!assay::paths::is_under("C:\\a\\bc.exe", "C:\\a\\b"));
}
