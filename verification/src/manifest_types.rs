//! The typed `AppxManifest.xml` model and its plain-value views.
use vstd::prelude::*;

verus! {

/// Bounds capability entries per manifest to mitigate capability-count DoS. Excess entries are
/// dropped and `truncated` is set.
pub const MAX_CAPABILITY_ENTRIES: usize = 1024;

/// Any `<Capability Name="..."/>` element.
#[derive(Debug, Clone)]
pub struct NamedCap {
    pub name: String,
}

/// `<DeviceCapability Name="...">` with optional `<Device>` children.
#[derive(Debug, Clone)]
pub struct DeviceCap {
    pub name: String,
    pub device: Vec<DeviceChild>,
}

/// A `<Device Id="...">` element with optional `<Function>` entries.
#[derive(Debug, Clone)]
pub struct DeviceChild {
    pub id: String,
    pub function: Vec<DeviceFunc>,
}

/// `<Function Type="..."/>`.
#[derive(Debug, Clone)]
pub struct DeviceFunc {
    pub type_: String,
}

/// Preserves the cross-tag manifest order of capabilities.
#[derive(Debug, Clone)]
pub struct OrderedCapRef {
    pub namespace: String,
    pub name: String,
    pub index: i32,
}

/// Parsed `<Capabilities>` block with cross-namespace document order preserved.
#[derive(Debug, Clone)]
pub struct CapabilitiesBlock {
    pub capability: Vec<NamedCap>,
    pub uap_capability: Vec<NamedCap>,
    pub uap2_capability: Vec<NamedCap>,
    pub uap3_capability: Vec<NamedCap>,
    pub uap4_capability: Vec<NamedCap>,
    pub uap6_capability: Vec<NamedCap>,
    pub uap8_capability: Vec<NamedCap>,
    pub uap10_capability: Vec<NamedCap>,
    pub uap13_capability: Vec<NamedCap>,
    pub uap15_capability: Vec<NamedCap>,
    pub restricted_capability: Vec<NamedCap>,
    pub device_capability: Vec<DeviceCap>,
    pub custom_capability: Vec<NamedCap>,
    pub unknown_capability: Vec<NamedCap>,
    pub ordered_refs: Vec<OrderedCapRef>,
    pub truncated: bool,
}

/// `<Identity>` attributes.
#[derive(Debug, Clone)]
pub struct Identity {
    pub name: String,
    pub version: String,
    pub publisher: String,
    pub processor_architecture: String,
}

/// `<Properties>` child text.
#[derive(Debug, Clone)]
pub struct Properties {
    pub display_name: String,
    pub description: String,
    pub publisher_display_name: String,
}

/// A `<TargetDeviceFamily>` entry.
#[derive(Debug, Clone)]
pub struct TargetDeviceFamily {
    pub name: String,
    pub min_version: String,
    pub max_version_tested: String,
}

/// The parsed-XML mirror of `<uap:VisualElements>`.
#[derive(Debug, Clone)]
pub struct AppxVisualElementsXml {
    pub display_name: String,
    pub description: String,
    pub background_color: String,
    pub square150x150_logo: String,
    pub square44x44_logo: String,
}

/// A single `<Application>` node (the deep `<Extensions>` tree is not parsed).
#[derive(Debug, Clone)]
pub struct AppxApplication {
    pub id: String,
    pub executable: String,
    pub entry_point: String,
    pub visual_elements: AppxVisualElementsXml,
}

/// The parsed AppxManifest.xml.
#[derive(Debug, Clone)]
pub struct AppxManifest {
    pub identity: Identity,
    pub properties: Properties,
    pub target_device_family: Vec<TargetDeviceFamily>,
    pub capabilities: CapabilitiesBlock,
    pub applications: Vec<AppxApplication>,
}

#[verifier::ext_equal]
pub struct DeviceChildView {
    pub id: Seq<char>,
    pub function: Seq<Seq<char>>,
}

#[verifier::ext_equal]
pub struct DeviceCapView {
    pub name: Seq<char>,
    pub device: Seq<DeviceChildView>,
}

#[verifier::ext_equal]
pub struct CapRefView {
    pub namespace: Seq<char>,
    pub name: Seq<char>,
    pub index: int,
}

#[verifier::ext_equal]
pub struct CapsView {
    pub capability: Seq<Seq<char>>,
    pub uap_capability: Seq<Seq<char>>,
    pub uap2_capability: Seq<Seq<char>>,
    pub uap3_capability: Seq<Seq<char>>,
    pub uap4_capability: Seq<Seq<char>>,
    pub uap6_capability: Seq<Seq<char>>,
    pub uap8_capability: Seq<Seq<char>>,
    pub uap10_capability: Seq<Seq<char>>,
    pub uap13_capability: Seq<Seq<char>>,
    pub uap15_capability: Seq<Seq<char>>,
    pub restricted_capability: Seq<Seq<char>>,
    pub device_capability: Seq<DeviceCapView>,
    pub custom_capability: Seq<Seq<char>>,
    pub unknown_capability: Seq<Seq<char>>,
    pub ordered_refs: Seq<CapRefView>,
    pub truncated: bool,
}

#[verifier::ext_equal]
pub struct IdentityView {
    pub name: Seq<char>,
    pub version: Seq<char>,
    pub publisher: Seq<char>,
    pub processor_architecture: Seq<char>,
}

#[verifier::ext_equal]
pub struct PropertiesView {
    pub display_name: Seq<char>,
    pub description: Seq<char>,
    pub publisher_display_name: Seq<char>,
}

#[verifier::ext_equal]
pub struct FamilyView {
    pub name: Seq<char>,
    pub min_version: Seq<char>,
    pub max_version_tested: Seq<char>,
}

#[verifier::ext_equal]
pub struct VisualView {
    pub display_name: Seq<char>,
    pub description: Seq<char>,
    pub background_color: Seq<char>,
    pub square150x150_logo: Seq<char>,
    pub square44x44_logo: Seq<char>,
}

#[verifier::ext_equal]
pub struct ApplicationView {
    pub id: Seq<char>,
    pub executable: Seq<char>,
    pub entry_point: Seq<char>,
    pub visual_elements: VisualView,
}

#[verifier::ext_equal]
pub struct ManifestView {
    pub identity: IdentityView,
    pub properties: PropertiesView,
    pub target_device_family: Seq<FamilyView>,
    pub capabilities: CapsView,
    pub applications: Seq<ApplicationView>,
}

pub open spec fn names_view(v: Seq<NamedCap>) -> Seq<Seq<char>> {
    v.map_values(|c: NamedCap| c.name@)
}

impl View for DeviceChild {
    type V = DeviceChildView;

    open spec fn view(&self) -> DeviceChildView {
        DeviceChildView { id: self.id@, function: self.function@.map_values(|f: DeviceFunc| f.type_@) }
    }
}

impl View for DeviceCap {
    type V = DeviceCapView;

    open spec fn view(&self) -> DeviceCapView {
        DeviceCapView { name: self.name@, device: self.device@.map_values(|d: DeviceChild| d@) }
    }
}

impl View for OrderedCapRef {
    type V = CapRefView;

    open spec fn view(&self) -> CapRefView {
        CapRefView { namespace: self.namespace@, name: self.name@, index: self.index as int }
    }
}

impl View for CapabilitiesBlock {
    type V = CapsView;

    open spec fn view(&self) -> CapsView {
        CapsView {
            capability: names_view(self.capability@),
            uap_capability: names_view(self.uap_capability@),
            uap2_capability: names_view(self.uap2_capability@),
            uap3_capability: names_view(self.uap3_capability@),
            uap4_capability: names_view(self.uap4_capability@),
            uap6_capability: names_view(self.uap6_capability@),
            uap8_capability: names_view(self.uap8_capability@),
            uap10_capability: names_view(self.uap10_capability@),
            uap13_capability: names_view(self.uap13_capability@),
            uap15_capability: names_view(self.uap15_capability@),
            restricted_capability: names_view(self.restricted_capability@),
            device_capability: self.device_capability@.map_values(|d: DeviceCap| d@),
            custom_capability: names_view(self.custom_capability@),
            unknown_capability: names_view(self.unknown_capability@),
            ordered_refs: self.ordered_refs@.map_values(|r: OrderedCapRef| r@),
            truncated: self.truncated,
        }
    }
}

impl View for Identity {
    type V = IdentityView;

    open spec fn view(&self) -> IdentityView {
        IdentityView {
            name: self.name@,
            version: self.version@,
            publisher: self.publisher@,
            processor_architecture: self.processor_architecture@,
        }
    }
}

impl View for Properties {
    type V = PropertiesView;

    open spec fn view(&self) -> PropertiesView {
        PropertiesView {
            display_name: self.display_name@,
            description: self.description@,
            publisher_display_name: self.publisher_display_name@,
        }
    }
}

impl View for TargetDeviceFamily {
    type V = FamilyView;

    open spec fn view(&self) -> FamilyView {
        FamilyView {
            name: self.name@,
            min_version: self.min_version@,
            max_version_tested: self.max_version_tested@,
        }
    }
}

impl View for AppxVisualElementsXml {
    type V = VisualView;

    open spec fn view(&self) -> VisualView {
        VisualView {
            display_name: self.display_name@,
            description: self.description@,
            background_color: self.background_color@,
            square150x150_logo: self.square150x150_logo@,
            square44x44_logo: self.square44x44_logo@,
        }
    }
}

impl View for AppxApplication {
    type V = ApplicationView;

    open spec fn view(&self) -> ApplicationView {
        ApplicationView {
            id: self.id@,
            executable: self.executable@,
            entry_point: self.entry_point@,
            visual_elements: self.visual_elements@,
        }
    }
}

impl View for AppxManifest {
    type V = ManifestView;

    open spec fn view(&self) -> ManifestView {
        ManifestView {
            identity: self.identity@,
            properties: self.properties@,
            target_device_family: self.target_device_family@.map_values(|t: TargetDeviceFamily| t@),
            capabilities: self.capabilities@,
            applications: self.applications@.map_values(|a: AppxApplication| a@),
        }
    }
}

pub open spec fn empty_caps() -> CapsView {
    CapsView {
        capability: seq![],
        uap_capability: seq![],
        uap2_capability: seq![],
        uap3_capability: seq![],
        uap4_capability: seq![],
        uap6_capability: seq![],
        uap8_capability: seq![],
        uap10_capability: seq![],
        uap13_capability: seq![],
        uap15_capability: seq![],
        restricted_capability: seq![],
        device_capability: seq![],
        custom_capability: seq![],
        unknown_capability: seq![],
        ordered_refs: seq![],
        truncated: false,
    }
}

pub open spec fn empty_visual() -> VisualView {
    VisualView {
        display_name: seq![],
        description: seq![],
        background_color: seq![],
        square150x150_logo: seq![],
        square44x44_logo: seq![],
    }
}

pub open spec fn empty_manifest() -> ManifestView {
    ManifestView {
        identity: IdentityView { name: seq![], version: seq![], publisher: seq![], processor_architecture: seq![] },
        properties: PropertiesView { display_name: seq![], description: seq![], publisher_display_name: seq![] },
        target_device_family: seq![],
        capabilities: empty_caps(),
        applications: seq![],
    }
}

impl CapabilitiesBlock {
    pub fn new() -> (c: CapabilitiesBlock)
        ensures
            c@ == empty_caps(),
    {
        let c = CapabilitiesBlock {
            capability: Vec::new(),
            uap_capability: Vec::new(),
            uap2_capability: Vec::new(),
            uap3_capability: Vec::new(),
            uap4_capability: Vec::new(),
            uap6_capability: Vec::new(),
            uap8_capability: Vec::new(),
            uap10_capability: Vec::new(),
            uap13_capability: Vec::new(),
            uap15_capability: Vec::new(),
            restricted_capability: Vec::new(),
            device_capability: Vec::new(),
            custom_capability: Vec::new(),
            unknown_capability: Vec::new(),
            ordered_refs: Vec::new(),
            truncated: false,
        };
        assert(c@ =~= empty_caps());
        c
    }
}

impl AppxVisualElementsXml {
    pub fn new() -> (v: AppxVisualElementsXml)
        ensures
            v@ == empty_visual(),
    {
        AppxVisualElementsXml {
            display_name: String::new(),
            description: String::new(),
            background_color: String::new(),
            square150x150_logo: String::new(),
            square44x44_logo: String::new(),
        }
    }
}

impl AppxManifest {
    pub fn new() -> (m: AppxManifest)
        ensures
            m@ == empty_manifest(),
    {
        let m = AppxManifest {
            identity: Identity {
                name: String::new(),
                version: String::new(),
                publisher: String::new(),
                processor_architecture: String::new(),
            },
            properties: Properties {
                display_name: String::new(),
                description: String::new(),
                publisher_display_name: String::new(),
            },
            target_device_family: Vec::new(),
            capabilities: CapabilitiesBlock::new(),
            applications: Vec::new(),
        };
        assert(m@ =~= empty_manifest());
        m
    }
}

} // verus!
