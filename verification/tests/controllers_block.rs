use machined::block::fake::FakeBlockBackend;
use machined::block::{BlockBackend, BlockProvisioner, DiskInfo, FsType, VolumeInfo};
use machined::config::provider::Provider;
use machined::config::types::{InstallSection, MachineConfig, MachineSection};
use machined::controllers::block::discovery::{leaf, DiskDiscoveryController};
use machined::controllers::block::mount::{
    mountpoint, MountAction, MountEvent, MountSpec, VolumeMountController,
};
use machined::controllers::block::provision::{
    fixed_layout, plan_provisioning, provisioned_status_from_discovered, ProvisionAction,
    ProvisionDecision, ProvisionEvent, VolumeProvisionerController,
};
use machined::controllers::block::NS;
use machined::controllers::{InputKind, OutputKind, Publication};
use machined::resources::{
    DiscoveredVolume, Resource, ResourceObject, ResourceType, VolumePhase, VolumeStatus,
};

fn disk(name: &str) -> DiskInfo {
    DiskInfo {
        name: name.into(),
        path: format!("/dev/{name}"),
        size_bytes: 1 << 30,
        model: "M".into(),
        serial: "S".into(),
        rotational: false,
        read_only: false,
    }
}

fn found_volume(disk: &str, dev: &str) -> VolumeInfo {
    VolumeInfo {
        device: format!("/dev/{dev}"),
        disk: disk.into(),
        partition_uuid: "u".into(),
        partition_label: "STATE".into(),
        partition_type_guid: "g".into(),
        fs_type: Some(FsType::Ext4),
        fs_label: None,
        fs_uuid: None,
        size_bytes: 1 << 20,
    }
}

fn of(published: &[Publication], typ: ResourceType) -> &Vec<ResourceObject> {
    &published.iter().find(|p| p.typ == typ).unwrap().objects
}

#[test]
fn publishes_disks_and_volumes() {
    let backend = FakeBlockBackend::new()
        .with_disk(disk("sda"))
        .with_volume(found_volume("sda", "sda1"));
    let c = DiskDiscoveryController::new();
    let published = c.reconcile(backend.list_disks().unwrap(), backend.list_volumes().unwrap());

    assert_eq!(of(&published, ResourceType::DiskStatus).len(), 1);
    let vols = of(&published, ResourceType::DiscoveredVolume);
    assert_eq!(vols.len(), 1);
    assert_eq!(vols[0].metadata.namespace, NS);
    assert_eq!(vols[0].metadata.id, "sda1");
    match &vols[0].spec {
        Resource::DiscoveredVolume(v) => assert_eq!(v.fs_type.as_deref(), Some("ext4")),
        _ => panic!("wrong type"),
    }
}

#[test]
fn gcs_disappeared_devices() {
    let c = DiskDiscoveryController::new();
    let first = FakeBlockBackend::new().with_disk(disk("sda"));
    let published = c.reconcile(first.list_disks().unwrap(), first.list_volumes().unwrap());
    assert_eq!(of(&published, ResourceType::DiskStatus).len(), 1);

    let second = FakeBlockBackend::new();
    let published = c.reconcile(second.list_disks().unwrap(), second.list_volumes().unwrap());
    assert_eq!(of(&published, ResourceType::DiskStatus).len(), 0);
}

#[test]
fn the_leaf_of_a_device_is_its_name() {
    assert_eq!(leaf("/dev/nvme0n1p2"), "nvme0n1p2");
    assert_eq!(leaf("sda"), "sda");
}

#[test]
fn block_controllers_say_what_they_watch() {
    let d = DiskDiscoveryController::new();
    assert!(d.inputs().is_empty());
    assert_eq!(d.outputs().len(), 2);
    let m = VolumeMountController::new();
    assert_eq!(m.inputs()[0].typ, ResourceType::VolumeStatus);
    assert_eq!(m.outputs()[0].typ, ResourceType::MountStatus);
    let p = VolumeProvisionerController::new(provider("/dev/sda", false));
    assert_eq!(p.inputs()[0].typ, ResourceType::DiscoveredVolume);
    assert_eq!(p.inputs()[0].kind, InputKind::Weak);
    assert_eq!(p.inputs()[0].namespace, NS);
    assert_eq!(p.outputs()[0].kind, OutputKind::Exclusive);
}

#[test]
fn mountpoint_map() {
    assert_eq!(mountpoint("EFI"), Some("/boot"));
    assert_eq!(mountpoint("STATE"), Some("/system/state"));
    assert_eq!(mountpoint("EPHEMERAL"), Some("/var"));
    assert_eq!(mountpoint("DATA"), None);
}

fn seed_volume(label: &str, phase: VolumePhase) -> ResourceObject {
    ResourceObject::new(
        NS,
        label,
        Resource::VolumeStatus(VolumeStatus {
            name: label.into(),
            device: format!("/dev/sda-{label}"),
            fs: "ext4".into(),
            label: label.into(),
            phase,
        }),
    )
}

/// Mounts that have been made.
fn mount_all(mounts: &mut Vec<MountSpec>, listed: &Vec<ResourceObject>) -> Vec<ResourceObject> {
    let c = VolumeMountController::new();
    let (mut run, mut action) = c.reconcile(listed);
    loop {
        let event = match action {
            MountAction::Query { target } => {
                MountEvent::Queried { mounted: mounts.iter().any(|m| m.target == target) }
            }
            MountAction::Mount { spec } => {
                mounts.push(spec);
                MountEvent::Mounted
            }
            MountAction::Publish { statuses } => return statuses,
            MountAction::Fail { message } => panic!("{message}"),
        };
        action = run.step(event);
    }
}

#[test]
fn skips_already_mounted_target() {
    let mut mounts = vec![MountSpec {
        source: "/dev/other".into(),
        target: "/var".into(),
        fstype: "ext4".into(),
        flags: 0,
        data: None,
    }];
    let statuses = mount_all(&mut mounts, &vec![seed_volume("EPHEMERAL", VolumePhase::Provisioned)]);
    assert_eq!(mounts.len(), 1);
    assert_eq!(statuses.len(), 1);
}

#[test]
fn mounts_provisioned_volumes_idempotently() {
    let mut mounts = vec![];
    let listed = vec![
        seed_volume("EFI", VolumePhase::Provisioned),
        seed_volume("STATE", VolumePhase::Provisioned),
        seed_volume("EPHEMERAL", VolumePhase::Provisioned),
        seed_volume("DATA", VolumePhase::Provisioned),
    ];
    let statuses = mount_all(&mut mounts, &listed);
    assert_eq!(mounts.len(), 3);
    assert_eq!(statuses.len(), 3);
    assert_eq!(mounts[1].source, "/dev/sda-STATE");
    assert_eq!(mounts[1].target, "/system/state");

    mount_all(&mut mounts, &listed);
    assert_eq!(mounts.len(), 3);
}

#[test]
fn skips_unprovisioned() {
    let mut mounts = vec![];
    let statuses = mount_all(&mut mounts, &vec![seed_volume("STATE", VolumePhase::Failed)]);
    assert_eq!(mounts.len(), 0);
    assert_eq!(statuses.len(), 0);
}

#[test]
fn a_mount_that_fails_ends_the_run() {
    let c = VolumeMountController::new();
    let (mut run, action) = c.reconcile(&vec![seed_volume("STATE", VolumePhase::Provisioned)]);
    assert!(matches!(action, MountAction::Query { .. }));
    let action = run.step(MountEvent::Queried { mounted: false });
    assert!(matches!(action, MountAction::Mount { .. }));
    match run.step(MountEvent::Failed { message: "EINVAL".into() }) {
        MountAction::Fail { message } => assert!(message.contains("EINVAL")),
        _ => panic!("expected a failure"),
    }
}

fn vol(disk: &str, label: &str) -> DiscoveredVolume {
    DiscoveredVolume {
        device: format!("/dev/{disk}1"),
        disk: disk.into(),
        partition_uuid: "u".into(),
        partition_label: label.into(),
        partition_type_guid: "g".into(),
        fs_type: None,
        fs_label: None,
        fs_uuid: None,
        size_bytes: 1 << 20,
    }
}

#[test]
fn blank_disk_provisions() {
    assert_eq!(plan_provisioning("/dev/sda", false, &[]), ProvisionDecision::Provision);
}

#[test]
fn our_exact_layout_skips() {
    let d = vec![vol("sda", "EFI"), vol("sda", "STATE"), vol("sda", "EPHEMERAL")];
    assert_eq!(plan_provisioning("/dev/sda", false, &d), ProvisionDecision::Skip);
}

#[test]
fn foreign_no_wipe_refuses() {
    let d = vec![vol("sda", "WINDOWS")];
    assert_eq!(plan_provisioning("/dev/sda", false, &d), ProvisionDecision::RefuseForeign);
}

#[test]
fn foreign_with_wipe_provisions() {
    let d = vec![vol("sda", "WINDOWS")];
    assert_eq!(plan_provisioning("/dev/sda", true, &d), ProvisionDecision::Provision);
}

#[test]
fn partial_our_layout_is_foreign() {
    let d = vec![vol("sda", "STATE")];
    assert_eq!(plan_provisioning("/dev/sda", false, &d), ProvisionDecision::RefuseForeign);
}

#[test]
fn volumes_on_other_disk_ignored() {
    let d = vec![vol("sdb", "WINDOWS")];
    assert_eq!(plan_provisioning("/dev/sda", false, &d), ProvisionDecision::Provision);
}

#[test]
fn our_layout_plus_foreign_partition_refuses() {
    let d = vec![
        vol("sda", "EFI"),
        vol("sda", "STATE"),
        vol("sda", "EPHEMERAL"),
        vol("sda", "RECOVERY"),
    ];
    assert_eq!(plan_provisioning("/dev/sda", false, &d), ProvisionDecision::RefuseForeign);
}

#[test]
fn similar_disk_name_does_not_match() {
    let d = vec![vol("sdaa", "WINDOWS"), vol("sda1", "DATA")];
    assert_eq!(plan_provisioning("/dev/sda", false, &d), ProvisionDecision::Provision);
}

#[test]
fn our_layout_with_foreign_on_other_disk_skips() {
    let d = vec![
        vol("sda", "EFI"),
        vol("sda", "STATE"),
        vol("sda", "EPHEMERAL"),
        vol("sdb", "WINDOWS"),
    ];
    assert_eq!(plan_provisioning("/dev/sda", false, &d), ProvisionDecision::Skip);
}

#[test]
fn nvme_leaf_extraction() {
    let d = vec![vol("nvme0n1", "WINDOWS")];
    assert_eq!(plan_provisioning("/dev/nvme0n1", false, &d), ProvisionDecision::RefuseForeign);
}

fn provider(disk: &str, wipe: bool) -> Provider {
    Provider::new(MachineConfig {
        machine: MachineSection {
            install: Some(InstallSection { disk: disk.into(), wipe }),
            ..Default::default()
        },
    })
}

fn seed_discovered(disk: &str, label: &str) -> ResourceObject {
    ResourceObject::new(
        NS,
        &format!("{disk}-{label}"),
        Resource::DiscoveredVolume(vol(disk, label)),
    )
}

fn provision(
    backend: &mut FakeBlockBackend,
    c: &VolumeProvisionerController,
    listed: &Vec<ResourceObject>,
) -> Result<Vec<ResourceObject>, String> {
    let (mut run, mut action) = c.reconcile(listed);
    loop {
        let event = match action {
            ProvisionAction::Idle => return Ok(vec![]),
            ProvisionAction::Wipe { disk } => {
                backend.wipe(&disk).unwrap();
                ProvisionEvent::Wiped
            }
            ProvisionAction::CreatePartitions { disk, plan } => {
                ProvisionEvent::Created { devices: backend.create_partitions(&disk, &plan).unwrap() }
            }
            ProvisionAction::Format { device, fs, label } => {
                backend.format(&device, fs, &label).unwrap();
                ProvisionEvent::Formatted
            }
            ProvisionAction::Publish { statuses } => return Ok(statuses),
            ProvisionAction::Fail { message } => return Err(message),
        };
        action = run.step(event);
    }
}

#[test]
fn blank_disk_gets_provisioned() {
    let mut backend = FakeBlockBackend::new().with_disk(DiskInfo {
        name: "sda".into(),
        path: "/dev/sda".into(),
        size_bytes: 8 << 30,
        model: "M".into(),
        serial: "S".into(),
        rotational: false,
        read_only: false,
    });
    let c = VolumeProvisionerController::new(provider("/dev/sda", false));
    let statuses = provision(&mut backend, &c, &vec![]).unwrap();
    assert_eq!(backend.creates(), vec!["/dev/sda".to_string()]);
    assert_eq!(backend.formats().len(), 3);
    assert_eq!(statuses.len(), 3);
}

#[test]
fn foreign_disk_without_wipe_makes_no_destructive_call() {
    let mut backend = FakeBlockBackend::new();
    let c = VolumeProvisionerController::new(provider("/dev/sda", false));
    let res = provision(&mut backend, &c, &vec![seed_discovered("sda", "WINDOWS")]);
    assert!(res.is_err(), "refuses foreign disk");
    assert!(backend.wipes().is_empty());
    assert!(backend.creates().is_empty());
    assert!(backend.formats().is_empty());
    assert_eq!(
        res.unwrap_err(),
        "install disk /dev/sda has foreign data; set install.wipe to overwrite"
    );
}

#[test]
fn idempotent_second_reconcile_skips() {
    let mut backend = FakeBlockBackend::new();
    let c = VolumeProvisionerController::new(provider("/dev/sda", false));
    provision(&mut backend, &c, &vec![]).unwrap();
    assert_eq!(backend.creates().len(), 1);
    let listed: Vec<ResourceObject> =
        ["EFI", "STATE", "EPHEMERAL"].iter().map(|l| seed_discovered("sda", l)).collect();
    let statuses = provision(&mut backend, &c, &listed).unwrap();
    assert_eq!(backend.creates().len(), 1);
    assert_eq!(statuses.len(), 3);
}

#[test]
fn foreign_with_wipe_wipes_then_provisions() {
    let mut backend = FakeBlockBackend::new();
    let c = VolumeProvisionerController::new(provider("/dev/sda", true));
    provision(&mut backend, &c, &vec![seed_discovered("sda", "WINDOWS")]).unwrap();
    assert_eq!(backend.wipes(), vec!["/dev/sda".to_string()]);
    assert_eq!(backend.creates().len(), 1);
    assert_eq!(backend.formats().len(), 3);
}

#[test]
fn without_an_install_target_nothing_is_done() {
    let mut backend = FakeBlockBackend::new();
    let c = VolumeProvisionerController::new(Provider::new(MachineConfig::default()));
    assert_eq!(provision(&mut backend, &c, &vec![]).unwrap().len(), 0);
    assert!(backend.creates().is_empty());
}

#[test]
fn the_layout_is_fixed() {
    let layout = fixed_layout();
    let labels: Vec<&str> = layout.iter().map(|p| p.label.as_str()).collect();
    assert_eq!(labels, vec!["EFI", "STATE", "EPHEMERAL"]);
    assert_eq!(layout[0].size_bytes, 512 << 20);
    assert_eq!(layout[2].size_bytes, 0);
    let mut one = vol("sda", "STATE");
    one.fs_type = Some("ext4".into());
    let found = provisioned_status_from_discovered("/dev/sda", &[one, vol("sda", "X"), vol("sdb", "EFI")]);
    assert_eq!(found.len(), 1);
    assert_eq!(found[0].metadata.id, "STATE");
}
