//! The resources that controllers read and publish.

use crate::ip::{AddrCidr, IpAddr};
use vstd::prelude::*;
use vstd::string::*;

verus! {

/// The kinds of resource.
#[derive(Clone, Copy, Debug, PartialEq, Eq, Structural)]
pub enum ResourceType {
    MachineConfig,
    ServiceStatus,
    LinkSpec,
    AddressSpec,
    RouteSpec,
    HostnameSpec,
    ResolverSpec,
    LinkStatus,
    AddressStatus,
    RouteStatus,
    DiskStatus,
    DiscoveredVolume,
    VolumeStatus,
    MountStatus,
    TimeStatus,
    RuntimeStatus,
    PodStatus,
    UpgradeStatus,
}

/// The loaded machine configuration.
#[derive(Debug)]
pub struct MachineConfigSpec {
    pub raw_yaml: String,
}

/// What a supervised service is doing. States other than `Running` are only
/// ever shown, by their name.
#[derive(Debug)]
pub enum ServiceState {
    Running,
    Other(String),
}

#[derive(Debug)]
pub struct ServiceStatusSpec {
    pub service_id: String,
    pub state: ServiceState,
    pub healthy: bool,
    pub last_message: String,
}

/// A link as it should be.
#[derive(Debug)]
pub struct LinkSpec {
    pub name: String,
    pub up: bool,
    pub mtu: Option<u32>,
}

/// An address that a link should have.
#[derive(Debug)]
pub struct AddressSpec {
    pub link: String,
    pub address: AddrCidr,
}

/// A route that should exist; without a destination it is the default route.
#[derive(Debug)]
pub struct RouteSpec {
    pub destination: Option<AddrCidr>,
    pub gateway: Option<IpAddr>,
    pub link: String,
    pub metric: u32,
}

#[derive(Debug)]
pub struct HostnameSpec {
    pub hostname: String,
}

#[derive(Debug)]
pub struct ResolverSpec {
    pub nameservers: Vec<IpAddr>,
    pub search: Vec<String>,
}

/// A link as the kernel reports it.
#[derive(Debug)]
pub struct LinkStatus {
    pub name: String,
    pub up: bool,
    pub mtu: u32,
    pub mac: String,
}

#[derive(Debug)]
pub struct AddressStatus {
    pub link: String,
    pub address: AddrCidr,
}

#[derive(Debug)]
pub struct RouteStatus {
    pub destination: Option<AddrCidr>,
    pub gateway: Option<IpAddr>,
    pub link: String,
}

/// A disk that was found.
#[derive(Debug)]
pub struct DiskStatus {
    pub name: String,
    pub path: String,
    pub size_bytes: u64,
    pub model: String,
    pub serial: String,
    pub rotational: bool,
    pub read_only: bool,
}

/// A partition that was found.
#[derive(Debug)]
pub struct DiscoveredVolume {
    pub device: String,
    pub disk: String,
    pub partition_uuid: String,
    pub partition_label: String,
    pub partition_type_guid: String,
    pub fs_type: Option<String>,
    pub fs_label: Option<String>,
    pub fs_uuid: Option<String>,
    pub size_bytes: u64,
}

#[derive(Clone, Copy, Debug, PartialEq, Eq, Structural)]
pub enum VolumePhase {
    Provisioned,
    Failed,
}

/// A system volume.
#[derive(Debug)]
pub struct VolumeStatus {
    pub name: String,
    pub device: String,
    pub fs: String,
    pub label: String,
    pub phase: VolumePhase,
}

#[derive(Debug)]
pub struct MountStatus {
    pub volume: String,
    pub source: String,
    pub target: String,
    pub fstype: String,
    pub mounted: bool,
}

#[derive(Debug)]
pub struct TimeStatus {
    pub synced: bool,
    pub server: String,
    pub offset_ns: i64,
    pub sync_count: u64,
}

#[derive(Debug)]
pub struct RuntimeStatus {
    pub ready: bool,
    pub name: String,
    pub version: String,
}

#[derive(Clone, Copy, Debug, PartialEq, Eq, Structural)]
pub enum PodPhase {
    Pending,
    Running,
    Failed,
}

#[derive(Debug)]
pub struct PodStatus {
    pub name: String,
    pub phase: PodPhase,
    pub container_id: String,
    pub pod_ip: String,
    pub message: String,
}

/// How far an upgrade has come; its phase is only ever shown, by its name.
#[derive(Debug)]
pub struct UpgradeStatus {
    pub phase: String,
    pub message: String,
}

/// A resource of one of the kinds.
#[derive(Debug)]
pub enum Resource {
    MachineConfig(MachineConfigSpec),
    ServiceStatus(ServiceStatusSpec),
    LinkSpec(LinkSpec),
    AddressSpec(AddressSpec),
    RouteSpec(RouteSpec),
    HostnameSpec(HostnameSpec),
    ResolverSpec(ResolverSpec),
    LinkStatus(LinkStatus),
    AddressStatus(AddressStatus),
    RouteStatus(RouteStatus),
    DiskStatus(DiskStatus),
    DiscoveredVolume(DiscoveredVolume),
    VolumeStatus(VolumeStatus),
    MountStatus(MountStatus),
    TimeStatus(TimeStatus),
    RuntimeStatus(RuntimeStatus),
    PodStatus(PodStatus),
    UpgradeStatus(UpgradeStatus),
}

/// Where a resource lives.
#[derive(Debug)]
pub struct Metadata {
    pub namespace: String,
    pub id: String,
}

/// A resource with its place.
#[derive(Debug)]
pub struct ResourceObject {
    pub metadata: Metadata,
    pub spec: Resource,
}

/// What a resource says.
#[verifier::ext_equal]
#[allow(inconsistent_fields)]
pub enum ResourceView {
    MachineConfig { raw_yaml: Seq<char> },
    ServiceStatus {
        service_id: Seq<char>,
        state: Seq<char>,
        healthy: bool,
        last_message: Seq<char>,
    },
    LinkSpec { name: Seq<char>, up: bool, mtu: Option<u32> },
    AddressSpec { link: Seq<char>, address: AddrCidr },
    RouteSpec {
        destination: Option<AddrCidr>,
        gateway: Option<IpAddr>,
        link: Seq<char>,
        metric: u32,
    },
    HostnameSpec { hostname: Seq<char> },
    ResolverSpec { nameservers: Seq<IpAddr>, search: Seq<Seq<char>> },
    LinkStatus { name: Seq<char>, up: bool, mtu: u32, mac: Seq<char> },
    AddressStatus { link: Seq<char>, address: AddrCidr },
    RouteStatus { destination: Option<AddrCidr>, gateway: Option<IpAddr>, link: Seq<char> },
    DiskStatus {
        name: Seq<char>,
        path: Seq<char>,
        size_bytes: u64,
        model: Seq<char>,
        serial: Seq<char>,
        rotational: bool,
        read_only: bool,
    },
    DiscoveredVolume(VolumeView),
    VolumeStatus {
        name: Seq<char>,
        device: Seq<char>,
        fs: Seq<char>,
        label: Seq<char>,
        phase: VolumePhase,
    },
    MountStatus {
        volume: Seq<char>,
        source: Seq<char>,
        target: Seq<char>,
        fstype: Seq<char>,
        mounted: bool,
    },
    TimeStatus { synced: bool, server: Seq<char>, offset_ns: i64, sync_count: u64 },
    RuntimeStatus { ready: bool, name: Seq<char>, version: Seq<char> },
    PodStatus {
        name: Seq<char>,
        phase: PodPhase,
        container_id: Seq<char>,
        pod_ip: Seq<char>,
        message: Seq<char>,
    },
    UpgradeStatus { phase: Seq<char>, message: Seq<char> },
}

/// What a discovered volume says.
#[verifier::ext_equal]
pub struct VolumeView {
    pub device: Seq<char>,
    pub disk: Seq<char>,
    pub partition_uuid: Seq<char>,
    pub partition_label: Seq<char>,
    pub partition_type_guid: Seq<char>,
    pub fs_type: Option<Seq<char>>,
    pub fs_label: Option<Seq<char>>,
    pub fs_uuid: Option<Seq<char>>,
    pub size_bytes: u64,
}

/// The text of an optional string.
pub open spec fn opt_text(o: Option<String>) -> Option<Seq<char>> {
    match o {
        Some(s) => Some(s@),
        None => None,
    }
}

impl View for ServiceState {
    type V = Seq<char>;

    open spec fn view(&self) -> Seq<char> {
        match self {
            ServiceState::Running => "Running"@,
            ServiceState::Other(name) => name@,
        }
    }
}

impl View for DiscoveredVolume {
    type V = VolumeView;

    open spec fn view(&self) -> VolumeView {
        VolumeView {
            device: self.device@,
            disk: self.disk@,
            partition_uuid: self.partition_uuid@,
            partition_label: self.partition_label@,
            partition_type_guid: self.partition_type_guid@,
            fs_type: opt_text(self.fs_type),
            fs_label: opt_text(self.fs_label),
            fs_uuid: opt_text(self.fs_uuid),
            size_bytes: self.size_bytes,
        }
    }
}

impl View for Resource {
    type V = ResourceView;

    open spec fn view(&self) -> ResourceView {
        match *self {
            Resource::MachineConfig(c) => ResourceView::MachineConfig { raw_yaml: c.raw_yaml@ },
            Resource::ServiceStatus(s) => ResourceView::ServiceStatus {
                service_id: s.service_id@,
                state: s.state@,
                healthy: s.healthy,
                last_message: s.last_message@,
            },
            Resource::LinkSpec(l) => ResourceView::LinkSpec { name: l.name@, up: l.up, mtu: l.mtu },
            Resource::AddressSpec(a) => ResourceView::AddressSpec {
                link: a.link@,
                address: a.address,
            },
            Resource::RouteSpec(r) => ResourceView::RouteSpec {
                destination: r.destination,
                gateway: r.gateway,
                link: r.link@,
                metric: r.metric,
            },
            Resource::HostnameSpec(h) => ResourceView::HostnameSpec { hostname: h.hostname@ },
            Resource::ResolverSpec(r) => ResourceView::ResolverSpec {
                nameservers: r.nameservers@,
                search: crate::text::texts(r.search@),
            },
            Resource::LinkStatus(l) => ResourceView::LinkStatus {
                name: l.name@,
                up: l.up,
                mtu: l.mtu,
                mac: l.mac@,
            },
            Resource::AddressStatus(a) => ResourceView::AddressStatus {
                link: a.link@,
                address: a.address,
            },
            Resource::RouteStatus(r) => ResourceView::RouteStatus {
                destination: r.destination,
                gateway: r.gateway,
                link: r.link@,
            },
            Resource::DiskStatus(d) => ResourceView::DiskStatus {
                name: d.name@,
                path: d.path@,
                size_bytes: d.size_bytes,
                model: d.model@,
                serial: d.serial@,
                rotational: d.rotational,
                read_only: d.read_only,
            },
            Resource::DiscoveredVolume(v) => ResourceView::DiscoveredVolume(v@),
            Resource::VolumeStatus(v) => ResourceView::VolumeStatus {
                name: v.name@,
                device: v.device@,
                fs: v.fs@,
                label: v.label@,
                phase: v.phase,
            },
            Resource::MountStatus(m) => ResourceView::MountStatus {
                volume: m.volume@,
                source: m.source@,
                target: m.target@,
                fstype: m.fstype@,
                mounted: m.mounted,
            },
            Resource::TimeStatus(t) => ResourceView::TimeStatus {
                synced: t.synced,
                server: t.server@,
                offset_ns: t.offset_ns,
                sync_count: t.sync_count,
            },
            Resource::RuntimeStatus(r) => ResourceView::RuntimeStatus {
                ready: r.ready,
                name: r.name@,
                version: r.version@,
            },
            Resource::PodStatus(p) => ResourceView::PodStatus {
                name: p.name@,
                phase: p.phase,
                container_id: p.container_id@,
                pod_ip: p.pod_ip@,
                message: p.message@,
            },
            Resource::UpgradeStatus(u) => ResourceView::UpgradeStatus {
                phase: u.phase@,
                message: u.message@,
            },
        }
    }
}

/// What a resource object says, and where it lives.
#[verifier::ext_equal]
pub struct ObjectView {
    pub namespace: Seq<char>,
    pub id: Seq<char>,
    pub spec: ResourceView,
}

impl View for ResourceObject {
    type V = ObjectView;

    open spec fn view(&self) -> ObjectView {
        ObjectView {
            namespace: self.metadata.namespace@,
            id: self.metadata.id@,
            spec: self.spec@,
        }
    }
}

/// What a list of objects says.
pub open spec fn objects(v: Seq<ResourceObject>) -> Seq<ObjectView> {
    Seq::new(v.len(), |i: int| v[i]@)
}

impl ResourceObject {
    /// A resource at `(namespace, id)`.
    pub fn new(namespace: &str, id: &str, spec: Resource) -> (r: ResourceObject)
        ensures
            r@ == (ObjectView { namespace: namespace@, id: id@, spec: spec@ }),
            r.spec == spec,
    {
        ResourceObject {
            metadata: Metadata { namespace: namespace.to_owned(), id: id.to_owned() },
            spec,
        }
    }
}

impl Resource {
    /// The kind of a resource.
    pub open spec fn kind(self) -> ResourceType {
        match self {
            Resource::MachineConfig(_) => ResourceType::MachineConfig,
            Resource::ServiceStatus(_) => ResourceType::ServiceStatus,
            Resource::LinkSpec(_) => ResourceType::LinkSpec,
            Resource::AddressSpec(_) => ResourceType::AddressSpec,
            Resource::RouteSpec(_) => ResourceType::RouteSpec,
            Resource::HostnameSpec(_) => ResourceType::HostnameSpec,
            Resource::ResolverSpec(_) => ResourceType::ResolverSpec,
            Resource::LinkStatus(_) => ResourceType::LinkStatus,
            Resource::AddressStatus(_) => ResourceType::AddressStatus,
            Resource::RouteStatus(_) => ResourceType::RouteStatus,
            Resource::DiskStatus(_) => ResourceType::DiskStatus,
            Resource::DiscoveredVolume(_) => ResourceType::DiscoveredVolume,
            Resource::VolumeStatus(_) => ResourceType::VolumeStatus,
            Resource::MountStatus(_) => ResourceType::MountStatus,
            Resource::TimeStatus(_) => ResourceType::TimeStatus,
            Resource::RuntimeStatus(_) => ResourceType::RuntimeStatus,
            Resource::PodStatus(_) => ResourceType::PodStatus,
            Resource::UpgradeStatus(_) => ResourceType::UpgradeStatus,
        }
    }

    /// The kind of this resource.
    pub fn resource_type(&self) -> (r: ResourceType)
        ensures
            r == self.kind(),
    {
        match self {
            Resource::MachineConfig(_) => ResourceType::MachineConfig,
            Resource::ServiceStatus(_) => ResourceType::ServiceStatus,
            Resource::LinkSpec(_) => ResourceType::LinkSpec,
            Resource::AddressSpec(_) => ResourceType::AddressSpec,
            Resource::RouteSpec(_) => ResourceType::RouteSpec,
            Resource::HostnameSpec(_) => ResourceType::HostnameSpec,
            Resource::ResolverSpec(_) => ResourceType::ResolverSpec,
            Resource::LinkStatus(_) => ResourceType::LinkStatus,
            Resource::AddressStatus(_) => ResourceType::AddressStatus,
            Resource::RouteStatus(_) => ResourceType::RouteStatus,
            Resource::DiskStatus(_) => ResourceType::DiskStatus,
            Resource::DiscoveredVolume(_) => ResourceType::DiscoveredVolume,
            Resource::VolumeStatus(_) => ResourceType::VolumeStatus,
            Resource::MountStatus(_) => ResourceType::MountStatus,
            Resource::TimeStatus(_) => ResourceType::TimeStatus,
            Resource::RuntimeStatus(_) => ResourceType::RuntimeStatus,
            Resource::PodStatus(_) => ResourceType::PodStatus,
            Resource::UpgradeStatus(_) => ResourceType::UpgradeStatus,
        }
    }
}

/// The name of a kind of resource.
pub open spec fn kind_name(t: ResourceType) -> Seq<char> {
    match t {
        ResourceType::MachineConfig => "MachineConfig"@,
        ResourceType::ServiceStatus => "ServiceStatus"@,
        ResourceType::LinkSpec => "LinkSpec"@,
        ResourceType::AddressSpec => "AddressSpec"@,
        ResourceType::RouteSpec => "RouteSpec"@,
        ResourceType::HostnameSpec => "HostnameSpec"@,
        ResourceType::ResolverSpec => "ResolverSpec"@,
        ResourceType::LinkStatus => "LinkStatus"@,
        ResourceType::AddressStatus => "AddressStatus"@,
        ResourceType::RouteStatus => "RouteStatus"@,
        ResourceType::DiskStatus => "DiskStatus"@,
        ResourceType::DiscoveredVolume => "DiscoveredVolume"@,
        ResourceType::VolumeStatus => "VolumeStatus"@,
        ResourceType::MountStatus => "MountStatus"@,
        ResourceType::TimeStatus => "TimeStatus"@,
        ResourceType::RuntimeStatus => "RuntimeStatus"@,
        ResourceType::PodStatus => "PodStatus"@,
        ResourceType::UpgradeStatus => "UpgradeStatus"@,
    }
}

impl ResourceType {
    /// The name of the kind.
    pub fn to_string(&self) -> (r: String)
        ensures
            r@ == kind_name(*self),
    {
        let name: &'static str = match self {
            ResourceType::MachineConfig => "MachineConfig",
            ResourceType::ServiceStatus => "ServiceStatus",
            ResourceType::LinkSpec => "LinkSpec",
            ResourceType::AddressSpec => "AddressSpec",
            ResourceType::RouteSpec => "RouteSpec",
            ResourceType::HostnameSpec => "HostnameSpec",
            ResourceType::ResolverSpec => "ResolverSpec",
            ResourceType::LinkStatus => "LinkStatus",
            ResourceType::AddressStatus => "AddressStatus",
            ResourceType::RouteStatus => "RouteStatus",
            ResourceType::DiskStatus => "DiskStatus",
            ResourceType::DiscoveredVolume => "DiscoveredVolume",
            ResourceType::VolumeStatus => "VolumeStatus",
            ResourceType::MountStatus => "MountStatus",
            ResourceType::TimeStatus => "TimeStatus",
            ResourceType::RuntimeStatus => "RuntimeStatus",
            ResourceType::PodStatus => "PodStatus",
            ResourceType::UpgradeStatus => "UpgradeStatus",
        };
        name.to_owned()
    }
}

/// A resource is of the kind that it is.
pub proof fn a_resource_is_of_its_kind(r: Resource)
    ensures
        r is MachineConfig <==> r.kind() is MachineConfig,
        r is ServiceStatus <==> r.kind() is ServiceStatus,
        r is LinkSpec <==> r.kind() is LinkSpec,
        r is AddressSpec <==> r.kind() is AddressSpec,
        r is RouteSpec <==> r.kind() is RouteSpec,
        r is HostnameSpec <==> r.kind() is HostnameSpec,
        r is ResolverSpec <==> r.kind() is ResolverSpec,
        r is LinkStatus <==> r.kind() is LinkStatus,
        r is AddressStatus <==> r.kind() is AddressStatus,
        r is RouteStatus <==> r.kind() is RouteStatus,
        r is DiskStatus <==> r.kind() is DiskStatus,
        r is DiscoveredVolume <==> r.kind() is DiscoveredVolume,
        r is VolumeStatus <==> r.kind() is VolumeStatus,
        r is MountStatus <==> r.kind() is MountStatus,
        r is TimeStatus <==> r.kind() is TimeStatus,
        r is RuntimeStatus <==> r.kind() is RuntimeStatus,
        r is PodStatus <==> r.kind() is PodStatus,
        r is UpgradeStatus <==> r.kind() is UpgradeStatus,
{
}

/// A kind is called by its name.
pub proof fn a_kind_is_called_by_its_name()
    ensures
        kind_name(ResourceType::MachineConfig) == "MachineConfig"@,
        kind_name(ResourceType::ServiceStatus) == "ServiceStatus"@,
        kind_name(ResourceType::LinkSpec) == "LinkSpec"@,
        kind_name(ResourceType::AddressSpec) == "AddressSpec"@,
        kind_name(ResourceType::RouteSpec) == "RouteSpec"@,
        kind_name(ResourceType::HostnameSpec) == "HostnameSpec"@,
        kind_name(ResourceType::ResolverSpec) == "ResolverSpec"@,
        kind_name(ResourceType::LinkStatus) == "LinkStatus"@,
        kind_name(ResourceType::AddressStatus) == "AddressStatus"@,
        kind_name(ResourceType::RouteStatus) == "RouteStatus"@,
        kind_name(ResourceType::DiskStatus) == "DiskStatus"@,
        kind_name(ResourceType::DiscoveredVolume) == "DiscoveredVolume"@,
        kind_name(ResourceType::VolumeStatus) == "VolumeStatus"@,
        kind_name(ResourceType::MountStatus) == "MountStatus"@,
        kind_name(ResourceType::TimeStatus) == "TimeStatus"@,
        kind_name(ResourceType::RuntimeStatus) == "RuntimeStatus"@,
        kind_name(ResourceType::PodStatus) == "PodStatus"@,
        kind_name(ResourceType::UpgradeStatus) == "UpgradeStatus"@,
{
}

} // verus!
