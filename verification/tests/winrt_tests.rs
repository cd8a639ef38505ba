use assay::winrt_shim::{escape, system_toast_error, ShimError, SystemToast, ToastContent, ToastShim};

#[test]
fn xml_contains_title_and_body() {
    let c = ToastContent::new("Hello".to_string(), "World".to_string());
    let xml = c.to_xml();
    assert!(xml.contains("template=\"ToastGeneric\""));
    assert!(xml.contains("<text>Hello</text>"));
    assert!(xml.contains("<text>World</text>"));
    assert!(!xml.contains("<actions>"));
}

#[test]
fn xml_renders_actions() {
    let c = ToastContent::new("t".to_string(), "b".to_string())
        .with_action("Open".to_string(), "action=open".to_string())
        .with_action("Dismiss".to_string(), "action=dismiss".to_string());
    let xml = c.to_xml();
    assert!(xml.contains("content=\"Open\""));
    assert!(xml.contains("arguments=\"action=open\""));
    assert!(xml.contains("content=\"Dismiss\""));
}

#[test]
fn xml_escapes_special_chars() {
    let c = ToastContent::new("a & b".to_string(), "<x> \"q\"".to_string());
    let xml = c.to_xml();
    assert!(xml.contains("a &amp; b"));
    assert!(xml.contains("&lt;x&gt; &quot;q&quot;"));
}

#[test]
fn escape_leaves_apostrophes_and_plain_text_alone() {
    assert_eq!(escape("it's <b>"), "it's &lt;b&gt;");
    assert_eq!(escape("plain"), "plain");
}

#[test]
fn the_system_toast_never_silently_succeeds() {
    assert!(matches!(system_toast_error(false), ShimError::Unsupported));
    match system_toast_error(true) {
        ShimError::NotImplemented(why) => assert!(why.contains("ToastNotificationManager")),
        _ => panic!("windows hosts report the missing binding"),
    }
    assert_eq!(system_toast_error(false).message(), "capability unsupported on this OS");
}

#[test]
fn system_toast_reports_an_error_until_wired() {
    assert!(SystemToast.show(&ToastContent::new("t".to_string(), "b".to_string())).is_err());
}
