use machined::apiserver::service::{Machine, ResourceEntry, VersionResponse};
use machined::machinectl::{entry_line, refusal, taken, version_line, Command};
use machined::resources::{
    DiskStatus, Resource, ResourceObject, RuntimeStatus, ServiceState, ServiceStatusSpec,
};

fn lines(listed: Vec<ResourceObject>) -> Vec<String> {
    let m = Machine::new("1.0".into(), "i".into());
    m.list_resources(&listed).iter().map(|e| entry_line(e)).collect()
}

fn service(id: &str) -> ResourceObject {
    ResourceObject::new(
        "runtime",
        id,
        Resource::ServiceStatus(ServiceStatusSpec {
            service_id: id.into(),
            state: ServiceState::Running,
            healthy: true,
            last_message: "running".into(),
        }),
    )
}

#[test]
fn a_disk_is_listed_with_its_fields() {
    let disk = ResourceObject::new(
        "block",
        "sda",
        Resource::DiskStatus(DiskStatus {
            name: "sda".into(),
            path: "/dev/sda".into(),
            size_bytes: 256060514304,
            model: "Samsung_SSD".into(),
            serial: "S".into(),
            rotational: false,
            read_only: false,
        }),
    );
    assert_eq!(
        lines(vec![disk]),
        vec![
            "sda\tname=sda path=/dev/sda size_bytes=256060514304 model=Samsung_SSD \
             rotational=false read_only=false"
        ]
    );
}

#[test]
fn the_runtime_and_the_services_are_listed() {
    let runtime = ResourceObject::new(
        "runtime",
        "containerd",
        Resource::RuntimeStatus(RuntimeStatus {
            ready: true,
            name: "containerd".into(),
            version: "2.0.0".into(),
        }),
    );
    assert_eq!(lines(vec![runtime]), vec!["containerd\tready=true name=containerd version=2.0.0"]);
    assert_eq!(
        lines(vec![service("containerd"), service("kubelet")]),
        vec![
            "containerd\tservice_id=containerd state=Running healthy=true message=running",
            "kubelet\tservice_id=kubelet state=Running healthy=true message=running",
        ]
    );
}

#[test]
fn a_reset_has_to_be_confirmed() {
    let no = refusal(&Command::Reset { yes: false }).unwrap();
    assert_eq!(no.status, 2);
    assert_eq!(no.message, "reset wipes STATE and EPHEMERAL; pass --yes to confirm");
    assert!(refusal(&Command::Reset { yes: true }).is_none());
    assert!(refusal(&Command::Reboot).is_none());
}

#[test]
fn actions_are_acknowledged() {
    assert_eq!(taken(&Command::Reboot), Some("reboot requested"));
    assert_eq!(taken(&Command::Shutdown), Some("shutdown requested"));
    assert_eq!(taken(&Command::Reset { yes: true }), Some("reset requested"));
    assert_eq!(taken(&Command::Version), None);
    let get = Command::Get { resource_type: "DiskStatus".into(), namespace: "block".into() };
    assert_eq!(taken(&get), None);
}

#[test]
fn entries_are_printed_on_one_line() {
    let e = ResourceEntry {
        id: "sda".into(),
        fields: vec![("name".into(), "sda".into()), ("size_bytes".into(), "7".into())],
    };
    assert_eq!(entry_line(&e), "sda\tname=sda size_bytes=7");
    assert_eq!(entry_line(&ResourceEntry { id: "x".into(), fields: vec![] }), "x\t");
    let v = VersionResponse { version: "1.0".into(), image_id: "i".into() };
    assert_eq!(version_line(&v), "1.0");
}
