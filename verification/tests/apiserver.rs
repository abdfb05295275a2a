use machined::apiserver::mapping::{kv, opt, parse_resource_type, resource_to_fields};
use machined::apiserver::service::{Code, Machine, NodeAction};
use machined::ip::{AddrCidr, IpAddr};
use machined::resources::{
    AddressSpec, DiscoveredVolume, DiskStatus, HostnameSpec, LinkSpec, LinkStatus,
    MachineConfigSpec, MountStatus, PodPhase, PodStatus, ResolverSpec, Resource, ResourceObject,
    ResourceType, RouteSpec, RouteStatus, RuntimeStatus, ServiceState, ServiceStatusSpec,
    TimeStatus, UpgradeStatus, VolumePhase, VolumeStatus,
};

fn pair(k: &str, v: &str) -> (String, String) {
    (k.to_string(), v.to_string())
}

#[test]
fn type_name_round_trips_display() {
    for t in [
        ResourceType::ServiceStatus,
        ResourceType::DiskStatus,
        ResourceType::TimeStatus,
        ResourceType::MountStatus,
    ] {
        assert_eq!(parse_resource_type(&t.to_string()), Some(t));
    }
    assert_eq!(parse_resource_type("Nonsense"), None);
}

#[test]
fn every_type_name_is_read_back() {
    for t in [
        ResourceType::MachineConfig,
        ResourceType::ServiceStatus,
        ResourceType::LinkSpec,
        ResourceType::AddressSpec,
        ResourceType::RouteSpec,
        ResourceType::HostnameSpec,
        ResourceType::ResolverSpec,
        ResourceType::LinkStatus,
        ResourceType::AddressStatus,
        ResourceType::RouteStatus,
        ResourceType::DiskStatus,
        ResourceType::DiscoveredVolume,
        ResourceType::VolumeStatus,
        ResourceType::MountStatus,
        ResourceType::TimeStatus,
        ResourceType::RuntimeStatus,
        ResourceType::PodStatus,
        ResourceType::UpgradeStatus,
    ] {
        assert_eq!(parse_resource_type(&t.to_string()), Some(t));
    }
    assert_eq!(parse_resource_type(""), None);
    assert_eq!(parse_resource_type("diskstatus"), None);
}

#[test]
fn maps_fields() {
    let svc = Resource::ServiceStatus(ServiceStatusSpec {
        service_id: "etcd".into(),
        state: ServiceState::Running,
        healthy: true,
        last_message: "ok".into(),
    });
    let f = resource_to_fields(&svc);
    assert!(f.contains(&("service_id".to_string(), "etcd".to_string())));
    assert!(f.contains(&("healthy".to_string(), "true".to_string())));

    let t = Resource::TimeStatus(TimeStatus {
        synced: true,
        server: "a".into(),
        offset_ns: -5,
        sync_count: 2,
    });
    assert!(resource_to_fields(&t).contains(&("offset_ns".to_string(), "-5".to_string())));
}

#[test]
fn fields_of_network_resources() {
    let gateway = IpAddr::V4(192, 168, 1, 1);
    let address = AddrCidr::new(IpAddr::V4(192, 168, 1, 10), 24);
    let link = resource_to_fields(&Resource::LinkSpec(LinkSpec {
        name: "eth0".into(),
        up: true,
        mtu: None,
    }));
    assert!(link.contains(&pair("name", "eth0")));
    assert!(link.contains(&pair("up", "true")));
    let addr = resource_to_fields(&Resource::AddressSpec(AddressSpec {
        link: "eth0".into(),
        address,
    }));
    assert!(addr.contains(&pair("address", "192.168.1.10/24")));
    let route = resource_to_fields(&Resource::RouteSpec(RouteSpec {
        destination: None,
        gateway: Some(gateway),
        link: "eth0".into(),
        metric: 100,
    }));
    assert!(route.contains(&pair("gateway", "192.168.1.1")));
    assert!(route.contains(&pair("link", "eth0")));
    let state = resource_to_fields(&Resource::RouteStatus(RouteStatus {
        destination: Some(address),
        gateway: None,
        link: "eth0".into(),
    }));
    assert!(state.contains(&pair("destination", "192.168.1.10/24")));
    assert!(state.contains(&pair("gateway", "")));
    let status = resource_to_fields(&Resource::LinkStatus(LinkStatus {
        name: "eth0".into(),
        up: false,
        mtu: 1500,
        mac: "aa:bb".into(),
    }));
    assert!(status.contains(&pair("mtu", "1500")));
    assert!(status.contains(&pair("mac", "aa:bb")));
    let host = resource_to_fields(&Resource::HostnameSpec(HostnameSpec {
        hostname: "node-1".into(),
    }));
    assert_eq!(host, vec![pair("hostname", "node-1")]);
    let resolver = resource_to_fields(&Resource::ResolverSpec(ResolverSpec {
        nameservers: vec![IpAddr::V4(1, 1, 1, 1), IpAddr::V4(8, 8, 8, 8)],
        search: vec!["a".into(), "b".into()],
    }));
    assert!(resolver.contains(&pair("nameservers", "2")));
    assert!(resolver.contains(&pair("search", "a,b")));
}

#[test]
fn fields_of_the_other_resources() {
    let disk = resource_to_fields(&Resource::DiskStatus(DiskStatus {
        name: "sda".into(),
        path: "/dev/sda".into(),
        size_bytes: 1024,
        model: "M".into(),
        serial: "S".into(),
        rotational: true,
        read_only: false,
    }));
    assert!(disk.contains(&pair("size_bytes", "1024")));
    assert!(disk.contains(&pair("rotational", "true")));
    let volume = resource_to_fields(&Resource::DiscoveredVolume(DiscoveredVolume {
        device: "/dev/sda1".into(),
        disk: "sda".into(),
        partition_uuid: "u".into(),
        partition_label: "EFI".into(),
        partition_type_guid: "g".into(),
        fs_type: None,
        fs_label: Some("EFI".into()),
        fs_uuid: None,
        size_bytes: 7,
    }));
    assert!(volume.contains(&pair("fs_type", "")));
    assert!(volume.contains(&pair("disk", "sda")));
    let status = resource_to_fields(&Resource::VolumeStatus(VolumeStatus {
        name: "EFI".into(),
        device: "/dev/sda1".into(),
        fs: "vfat".into(),
        label: "EFI".into(),
        phase: VolumePhase::Provisioned,
    }));
    assert!(status.contains(&pair("fs", "vfat")));
    let mount = resource_to_fields(&Resource::MountStatus(MountStatus {
        volume: "EFI".into(),
        source: "/dev/sda1".into(),
        target: "/boot".into(),
        fstype: "vfat".into(),
        mounted: true,
    }));
    assert!(mount.contains(&pair("target", "/boot")));
    let runtime = resource_to_fields(&Resource::RuntimeStatus(RuntimeStatus {
        ready: true,
        name: "containerd".into(),
        version: "2".into(),
    }));
    assert!(runtime.contains(&pair("ready", "true")));
    let pod = resource_to_fields(&Resource::PodStatus(PodStatus {
        name: "hello".into(),
        phase: PodPhase::Running,
        container_id: "c0".into(),
        pod_ip: String::new(),
        message: String::new(),
    }));
    assert!(pod.contains(&pair("name", "hello")));
    assert!(pod.contains(&pair("container_id", "c0")));
    let upgrade = resource_to_fields(&Resource::UpgradeStatus(UpgradeStatus {
        phase: "Staged".into(),
        message: "m".into(),
    }));
    assert!(upgrade.contains(&pair("message", "m")));
    assert_eq!(kv("k", "v".into()), pair("k", "v"));
    assert_eq!(opt(&None), "");
    assert_eq!(opt(&Some("x".into())), "x");
}

#[test]
fn the_service_answers_requests() {
    let m = Machine::new("1.2.3".into(), "img".into());
    assert_eq!(m.version().version, "1.2.3");
    assert_eq!(m.version().image_id, "img");
    assert_eq!(m.requested_type("DiskStatus"), Ok(ResourceType::DiskStatus));
    let refused = m.requested_type("Nonsense").unwrap_err();
    assert_eq!(refused.code, Code::InvalidArgument);
    assert_eq!(refused.message, "unknown resource type: Nonsense");
    assert_eq!(m.reboot(), NodeAction::Reboot);
    assert_eq!(m.shutdown(), NodeAction::Shutdown);
    assert_eq!(m.reset(), NodeAction::Reset);
    assert_eq!(
        m.upgrade("u".into(), "s".into()),
        NodeAction::Upgrade { url: "u".into(), sha256: "s".into() }
    );
    assert_eq!(m.action_answer(true), Ok(()));
    let down = m.action_answer(false).unwrap_err();
    assert_eq!(down.code, Code::Unavailable);
    assert_eq!(down.message, "daemon is shutting down");
}

#[test]
fn listed_resources_keep_their_order() {
    let m = Machine::new("1".into(), "i".into());
    let listed = vec![
        ResourceObject::new(
            "runtime",
            "machine-config",
            Resource::MachineConfig(MachineConfigSpec { raw_yaml: "machine: {}".into() }),
        ),
        ResourceObject::new(
            "network",
            "hostname",
            Resource::HostnameSpec(HostnameSpec { hostname: "n".into() }),
        ),
    ];
    let entries = m.list_resources(&listed);
    assert_eq!(entries.len(), 2);
    assert_eq!(entries[0].id, "machine-config");
    assert_eq!(entries[1].id, "hostname");
    assert_eq!(entries[1].fields, vec![pair("hostname", "n")]);
}
