use assay::manifest_types::MAX_CAPABILITY_ENTRIES;
use assay::msix::{format_bytes, parse_appx_manifest};

#[test]
fn foundation_cap() {
    let m = parse_appx_manifest(
        br#"<?xml version="1.0" encoding="utf-8"?>
<Package xmlns="http://schemas.microsoft.com/appx/manifest/foundation/windows10">
  <Identity Name="A" Version="1.0.0.0" Publisher="CN=X"/>
  <Capabilities>
    <Capability Name="internetClient"/>
  </Capabilities>
</Package>"#,
    )
    .unwrap();
    assert_eq!(m.capabilities.capability.len(), 1);
    assert_eq!(m.capabilities.capability[0].name, "internetClient");
    assert_eq!(m.capabilities.ordered_refs.len(), 1);
    assert_eq!(m.capabilities.ordered_refs[0].namespace, "");
}

#[test]
fn uap_cap() {
    let m = parse_appx_manifest(
        br#"<Package xmlns="http://schemas.microsoft.com/appx/manifest/foundation/windows10"
         xmlns:uap="http://schemas.microsoft.com/appx/manifest/uap/windows10">
  <Identity Name="A" Version="1.0.0.0" Publisher="CN=X"/>
  <Capabilities><uap:Capability Name="userDataSystem"/></Capabilities>
</Package>"#,
    )
    .unwrap();
    assert_eq!(m.capabilities.uap_capability.len(), 1);
    assert_eq!(m.capabilities.uap_capability[0].name, "userDataSystem");
    assert_eq!(m.capabilities.ordered_refs[0].namespace, "uap");
}

#[test]
fn uap3_cap() {
    let m = parse_appx_manifest(
        br#"<Package xmlns="http://schemas.microsoft.com/appx/manifest/foundation/windows10"
         xmlns:uap3="http://schemas.microsoft.com/appx/manifest/uap/windows10/3">
  <Identity Name="A" Version="1.0.0.0" Publisher="CN=X"/>
  <Capabilities><uap3:Capability Name="userDataAccountsProvider"/></Capabilities>
</Package>"#,
    )
    .unwrap();
    assert_eq!(m.capabilities.uap3_capability.len(), 1);
    assert_eq!(m.capabilities.ordered_refs[0].namespace, "uap3");
}

#[test]
fn uap2_cap() {
    let m = parse_appx_manifest(
        br#"<Package xmlns="http://schemas.microsoft.com/appx/manifest/foundation/windows10"
         xmlns:uap2="http://schemas.microsoft.com/appx/manifest/uap/windows10/2">
  <Identity Name="A" Version="1.0.0.0" Publisher="CN=X"/>
  <Capabilities><uap2:Capability Name="phoneCallHistorySystem"/></Capabilities>
</Package>"#,
    )
    .unwrap();
    assert_eq!(m.capabilities.uap2_capability.len(), 1);
    assert_eq!(m.capabilities.uap2_capability[0].name, "phoneCallHistorySystem");
}

#[test]
fn uap8_cap() {
    let m = parse_appx_manifest(
        br#"<Package xmlns="http://schemas.microsoft.com/appx/manifest/foundation/windows10"
         xmlns:uap8="http://schemas.microsoft.com/appx/manifest/uap/windows10/8">
  <Identity Name="A" Version="1.0.0.0" Publisher="CN=X"/>
  <Capabilities><uap8:Capability Name="screenCapture"/></Capabilities>
</Package>"#,
    )
    .unwrap();
    assert_eq!(m.capabilities.uap8_capability.len(), 1);
}

#[test]
fn uap6_cap() {
    let m = parse_appx_manifest(
        br#"<Package xmlns="http://schemas.microsoft.com/appx/manifest/foundation/windows10"
         xmlns:uap6="http://schemas.microsoft.com/appx/manifest/uap/windows10/6">
  <Identity Name="A" Version="1.0.0.0" Publisher="CN=X"/>
  <Capabilities><uap6:Capability Name="backgroundMediaPlayback"/></Capabilities>
</Package>"#,
    )
    .unwrap();
    assert_eq!(m.capabilities.uap6_capability.len(), 1);
}

#[test]
fn rescap() {
    let m = parse_appx_manifest(
        br#"<Package xmlns="http://schemas.microsoft.com/appx/manifest/foundation/windows10"
         xmlns:rescap="http://schemas.microsoft.com/appx/manifest/foundation/windows10/restrictedcapabilities">
  <Identity Name="A" Version="1.0.0.0" Publisher="CN=X"/>
  <Capabilities><rescap:Capability Name="runFullTrust"/></Capabilities>
</Package>"#,
    )
    .unwrap();
    assert_eq!(m.capabilities.restricted_capability.len(), 1);
    assert_eq!(m.capabilities.restricted_capability[0].name, "runFullTrust");
    assert_eq!(m.capabilities.ordered_refs[0].namespace, "rescap");
}

#[test]
fn device_cap() {
    let m = parse_appx_manifest(
        br#"<Package xmlns="http://schemas.microsoft.com/appx/manifest/foundation/windows10">
  <Identity Name="A" Version="1.0.0.0" Publisher="CN=X"/>
  <Capabilities>
    <DeviceCapability Name="webcam">
      <Device Id="any"><Function Type="name:vendorSpecific"/></Device>
    </DeviceCapability>
  </Capabilities>
</Package>"#,
    )
    .unwrap();
    assert_eq!(m.capabilities.device_capability.len(), 1);
    let dev = &m.capabilities.device_capability[0];
    assert_eq!(dev.name, "webcam");
    assert_eq!(dev.device.len(), 1);
    assert_eq!(dev.device[0].id, "any");
    assert_eq!(dev.device[0].function.len(), 1);
    assert_eq!(dev.device[0].function[0].type_, "name:vendorSpecific");
}

#[test]
fn custom_cap() {
    let m = parse_appx_manifest(
        br#"<Package xmlns="http://schemas.microsoft.com/appx/manifest/foundation/windows10"
         xmlns:uap4="http://schemas.microsoft.com/appx/manifest/foundation/windows10/4">
  <Identity Name="A" Version="1.0.0.0" Publisher="CN=X"/>
  <Capabilities>
    <uap4:CustomCapability Name="microsoft.contoso.somecap_8wekyb3d8bbwe"/>
  </Capabilities>
</Package>"#,
    )
    .unwrap();
    assert_eq!(m.capabilities.custom_capability.len(), 1);
    assert_eq!(m.capabilities.ordered_refs[0].namespace, "custom");
}

#[test]
fn all_namespaces() {
    let m = parse_appx_manifest(
        br#"<Package xmlns="http://schemas.microsoft.com/appx/manifest/foundation/windows10"
         xmlns:uap="http://schemas.microsoft.com/appx/manifest/uap/windows10"
         xmlns:uap2="http://schemas.microsoft.com/appx/manifest/uap/windows10/2"
         xmlns:uap4="http://schemas.microsoft.com/appx/manifest/foundation/windows10/4"
         xmlns:rescap="http://schemas.microsoft.com/appx/manifest/foundation/windows10/restrictedcapabilities">
  <Identity Name="A" Version="1.0.0.0" Publisher="CN=X"/>
  <Capabilities>
    <Capability Name="internetClient"/>
    <uap:Capability Name="userDataSystem"/>
    <uap2:Capability Name="phoneCallHistorySystem"/>
    <rescap:Capability Name="runFullTrust"/>
    <DeviceCapability Name="webcam"/>
    <uap4:CustomCapability Name="contoso.cap_xxxx"/>
  </Capabilities>
</Package>"#,
    )
    .unwrap();
    assert_eq!(m.capabilities.capability.len(), 1);
    assert_eq!(m.capabilities.uap_capability.len(), 1);
    assert_eq!(m.capabilities.uap2_capability.len(), 1);
    assert_eq!(m.capabilities.restricted_capability.len(), 1);
    assert_eq!(m.capabilities.device_capability.len(), 1);
    assert_eq!(m.capabilities.custom_capability.len(), 1);
    assert_eq!(m.capabilities.ordered_refs.len(), 6);
}

#[test]
fn billion_laughs_rejected() {
    let manifest = br#"<?xml version="1.0"?>
<!DOCTYPE Package [
  <!ENTITY a "AAAAAAAAAA">
  <!ENTITY b "&a;&a;&a;&a;&a;&a;&a;&a;&a;&a;">
]>
<Package xmlns="http://schemas.microsoft.com/appx/manifest/foundation/windows10">
  <Identity Name="&b;" Version="1.0.0.0" Publisher="CN=X"/>
</Package>"#;
    assert!(parse_appx_manifest(manifest).is_err());
}

#[test]
fn truncated_xml() {
    assert!(parse_appx_manifest(b"<Package").is_err());
}

#[test]
fn bounded_capabilities() {
    let mut s = String::from(
        r#"<?xml version="1.0"?><Package xmlns="http://schemas.microsoft.com/appx/manifest/foundation/windows10"><Identity Name="A" Version="1.0.0.0" Publisher="CN=X"/><Capabilities>"#,
    );
    for _ in 0..(MAX_CAPABILITY_ENTRIES + 10) {
        s.push_str(r#"<Capability Name="capx"/>"#);
    }
    s.push_str("</Capabilities></Package>");
    let m = parse_appx_manifest(s.as_bytes()).unwrap();
    assert!(m.capabilities.truncated);
    assert!(m.capabilities.ordered_refs.len() <= MAX_CAPABILITY_ENTRIES);
}

#[test]
fn format_bytes_matches_go() {
    assert_eq!(format_bytes(0), "0 bytes");
    assert_eq!(format_bytes(512), "512 bytes");
    assert_eq!(format_bytes(1024), "1.0 KB");
    assert_eq!(format_bytes(1048576), "1.0 MB");
    assert_eq!(format_bytes(1073741824), "1.0 GB");
}

#[test]
fn format_bytes_rounds_tenths_like_a_float() {
    assert_eq!(format_bytes(1536), "1.5 KB");
    assert_eq!(format_bytes(1023), "1023 bytes");
    assert_eq!(format_bytes(-5), "-5 bytes");
    assert_eq!(format_bytes(1075), "1.0 KB");
    assert_eq!(format_bytes(1127), "1.1 KB");
    assert_eq!(format_bytes(10 * 1024 * 1024 * 1024), "10.0 GB");
}

#[test]
fn capability_refs_number_each_entry_in_document_order() {
    let m = parse_appx_manifest(
        br#"<Package xmlns="http://schemas.microsoft.com/appx/manifest/foundation/windows10"
         xmlns:rescap="http://schemas.microsoft.com/appx/manifest/foundation/windows10/restrictedcapabilities">
  <Identity Name="A" Version="1.0.0.0" Publisher="CN=X" ProcessorArchitecture="x64"/>
  <Properties><DisplayName>Demo</DisplayName><PublisherDisplayName>Pub</PublisherDisplayName></Properties>
  <Capabilities>
    <rescap:Capability Name="runFullTrust"/>
    <Capability Name="internetClient"/>
  </Capabilities>
</Package>"#,
    )
    .unwrap();
    assert_eq!(m.identity.name, "A");
    assert_eq!(m.identity.processor_architecture, "x64");
    assert_eq!(m.properties.display_name, "Demo");
    assert_eq!(m.properties.publisher_display_name, "Pub");
    assert_eq!(m.capabilities.ordered_refs.len(), 2);
    assert_eq!(m.capabilities.ordered_refs[0].name, "runFullTrust");
    assert_eq!(m.capabilities.ordered_refs[0].index, 0);
    assert_eq!(m.capabilities.ordered_refs[1].namespace, "");
    assert_eq!(m.capabilities.ordered_refs[1].index, 1);
    assert!(!m.capabilities.truncated);
}

#[test]
fn a_document_without_a_package_is_refused() {
    assert!(parse_appx_manifest(b"<Other/>").is_err());
}
