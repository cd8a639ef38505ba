use assay::driver::{find_subslice, http_body, page_target, reply_outcome, ChromiumDriver, DriverError, ReplyOutcome};
use assay::probe::{render_probe, Config};
use assay::webview_qa::{diff, render_report, EngineBlob, Severity};

fn blob(engine: &str) -> EngineBlob {
    EngineBlob::new(engine)
}

#[test]
fn feature_mismatch_is_high() {
    let mut a = blob("webview2");
    a.set_feature("dialog", true);
    let mut b = blob("webkitgtk");
    b.set_feature("dialog", false);
    let d = diff(&[a, b]);
    assert!(d.iter().any(|x| x.kind.contains("HIGH") && x.kind.contains("feature")));
}

#[test]
fn console_error_on_one_engine_is_medium() {
    let a = blob("webview2");
    let mut b = blob("wkwebview");
    b.console_errors.push("TypeError: x".into());
    let d = diff(&[a, b]);
    assert!(d
        .iter()
        .any(|x| x.kind.contains("MEDIUM") && x.detail.contains("only on wkwebview")));
}

#[test]
fn computed_style_mismatch_is_medium() {
    let mut a = blob("webview2");
    a.set_style(".btn", "gap", "8px");
    let mut b = blob("webkitgtk");
    b.set_style(".btn", "gap", "0px");
    let d = diff(&[a, b]);
    assert!(d.iter().any(|x| x.kind.contains("computed-style")));
}

#[test]
fn identical_blobs_produce_no_divergence() {
    let a = blob("webview2");
    let b = blob("webview2");
    assert!(diff(&[a, b]).is_empty());
}

#[test]
fn report_lists_engines_and_flags_single_engine() {
    let out = render_report(&[blob("webview2")], &[]);
    assert!(out.contains("Engines exercised (1)"));
    assert!(out.contains("no cross-engine comparison"));
}

#[test]
fn identical_captures_with_content_do_not_diverge() {
    let mut a = blob("webview2");
    a.set_feature("css_gap", true);
    a.set_style("body", "font-size", "16px");
    let b = a.clone();
    assert!(diff(&[a, b]).is_empty());
}

#[test]
fn divergences_come_most_severe_first() {
    let mut a = blob("webview2");
    a.set_style("body", "font-size", "16px");
    a.set_feature("dialog", true);
    let mut b = blob("webkitgtk");
    b.set_style("body", "font-size", "15px");
    b.set_feature("dialog", false);
    let d = diff(&[a, b]);
    assert!(d.len() >= 2);
    assert!(d[0].kind.contains("HIGH"));
    for w in d.windows(2) {
        assert!(w[0].severity_rank <= w[1].severity_rank);
    }
}

#[test]
fn severity_labels() {
    assert_eq!(Severity::High.label(), "HIGH");
    assert_eq!(Severity::Medium.label(), "MEDIUM");
    assert_eq!(Severity::Info.label(), "INFO");
}

#[test]
fn set_feature_replaces_an_earlier_record() {
    let mut a = blob("webview2");
    a.set_feature("b", true);
    a.set_feature("a", false);
    a.set_feature("b", false);
    assert_eq!(a.features, vec![("a".to_string(), false), ("b".to_string(), false)]);
}

#[test]
fn probe_inlines_engine_features_and_selectors() {
    let js = render_probe("webview2", &Config::sample());
    assert!(js.contains("\"webview2\""));
    assert!(js.contains("css_gap"));
    assert!(js.contains("font-family"));
    assert!(js.contains("JSON.stringify"));
}

#[test]
fn empty_config_still_renders_runnable_probe() {
    let js = render_probe("wkwebview", &Config::default());
    assert!(js.contains("\"wkwebview\""));
    assert!(js.contains("computed_styles"));
}

#[test]
fn sample_config_has_one_url_four_features_and_the_body_selector() {
    let c = Config::sample();
    assert_eq!(c.urls, vec!["http://localhost:1420/".to_string()]);
    assert_eq!(c.features.len(), 4);
    assert_eq!(c.selectors.len(), 1);
    assert_eq!(c.selectors[0].0, "body");
}

#[test]
fn probe_quotes_an_engine_name_with_special_characters() {
    let js = render_probe("we\"ird", &Config::default());
    assert!(js.contains("\"we\\\"ird\""));
}

#[test]
fn driver_errors_display_usefully() {
    let e = DriverError::EngineNotFound("nothing installed".into());
    assert!(e.message().contains("engine not found"));
    let e = DriverError::Protocol("boom".into());
    assert!(e.message().contains("devtools protocol error"));
}

#[test]
fn detect_reports_a_missing_engine() {
    match ChromiumDriver::detect(None) {
        Err(e) => assert!(e.message().contains("engine not found")),
        Ok(_) => panic!("no binary was found"),
    }
    let d = ChromiumDriver::detect(Some("/usr/bin/msedge".to_string())).unwrap();
    assert_eq!(d.engine, "chromium-edge");
    let d = d.with_engine_label("edge-beta".to_string());
    assert_eq!(d.exe, "/usr/bin/msedge");
    assert_eq!(d.engine, "edge-beta");
}

#[test]
fn subslices_are_found_at_their_first_occurrence() {
    assert_eq!(find_subslice(b"abcabc", b"bc"), Some(1));
    assert_eq!(find_subslice(b"abc", b"x"), None);
    assert_eq!(find_subslice(b"ab", b"abc"), None);
}

#[test]
fn http_body_waits_for_the_header_terminator() {
    assert!(http_body(b"HTTP/1.1 200 OK\r\nContent-Length: 2\r\n", false).is_none());
    match http_body(b"HTTP/1.1 200 OK\r\nContent-Length: 2\r\n\r\n[]", false) {
        Some(Ok(b)) => assert_eq!(b, "[]"),
        _ => panic!("a complete reply must give its body"),
    }
    assert!(http_body(b"HTTP/1.1 200 OK\r\nContent-Length: 4\r\n\r\n[]", false).is_none());
    match http_body(b"HTTP/1.1 200 OK", true) {
        Some(Err(DriverError::DevToolsUnavailable(_))) => {}
        _ => panic!("a closed connection without headers is an error"),
    }
}

#[test]
fn page_targets_are_read_from_the_list() {
    let body = r#"[{"type":"service_worker","webSocketDebuggerUrl":"ws://x/1"},{"type":"page","webSocketDebuggerUrl":"ws://x/2"}]"#;
    assert_eq!(page_target(body), Ok("ws://x/2".to_string()));
    assert_eq!(page_target("[]"), Err("no page target yet".to_string()));
    assert!(page_target("not json").unwrap_err().starts_with("bad json: "));
}

#[test]
fn replies_are_classified() {
    assert!(matches!(reply_outcome(r#"{"method":"Runtime.consoleAPICalled"}"#), ReplyOutcome::Skip));
    assert!(matches!(reply_outcome("garbage"), ReplyOutcome::Skip));
    match reply_outcome(r#"{"id":1,"result":{"result":{"type":"string","value":"{}"}}}"#) {
        ReplyOutcome::Probe(v) => assert_eq!(v, "{}"),
        _ => panic!("a string result is the probe's capture"),
    }
    assert!(matches!(
        reply_outcome(r#"{"id":1,"error":{"message":"bad"}}"#),
        ReplyOutcome::Failed(DriverError::Protocol(_))
    ));
    assert!(matches!(
        reply_outcome(r#"{"id":1,"result":{}}"#),
        ReplyOutcome::Failed(DriverError::BadProbeResult(_))
    ));
}

#[test]
fn a_feature_divergence_names_both_engines_and_values() {
    let mut a = blob("webview2");
    a.set_feature("dialog", true);
    let b = blob("webkitgtk");
    let d = diff(&[a, b]);
    assert_eq!(d.len(), 1);
    assert_eq!(d[0].kind, "[HIGH] feature");
    assert_eq!(d[0].detail, "`dialog`: webview2=Some(true) vs webkitgtk=None");
    assert_eq!(d[0].severity_rank, 0);
}

#[test]
fn a_style_divergence_quotes_the_values() {
    let mut a = blob("webview2");
    a.set_style(".btn", "gap", "8px");
    let mut b = blob("webkitgtk");
    b.set_style(".btn", "gap", "0\"px");
    let d = diff(&[a, b]);
    assert_eq!(d.len(), 1);
    assert_eq!(d[0].kind, "[MEDIUM] computed-style");
    assert_eq!(d[0].detail, "`.btn` {gap}: webview2=Some(\"8px\") vs webkitgtk=Some(\"0\\\"px\")");
}
