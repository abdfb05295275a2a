use machined::block::fake::FakeBlockBackend;
use machined::block::fsprobe::probe_fs;
use machined::block::run::{Action, Event, PartitionRun};
use machined::block::sysfs::{
    blkpg_add_partitions, format_result, mkfs_command, part_device, read_trim, wipe_tail,
    CommandEnd, DiskFiles, DiskTable, KernelAnswer, PartitionNotice, SysfsBlock, TableEntry,
};
use machined::block::{
    BlockBackend, BlockError, BlockProvisioner, DiskInfo, FsType, PartType, PartitionPlan,
    VolumeInfo,
};
use std::io::Cursor;

fn disk(name: &str) -> DiskInfo {
    DiskInfo {
        name: name.into(),
        path: format!("/dev/{name}"),
        size_bytes: 8 << 30,
        model: "FAKE".into(),
        serial: "S1".into(),
        rotational: false,
        read_only: false,
    }
}

fn efi_volume(size_bytes: u64) -> VolumeInfo {
    VolumeInfo {
        device: "/dev/sda1".into(),
        disk: "sda".into(),
        partition_uuid: "u".into(),
        partition_label: "EFI".into(),
        partition_type_guid: "g".into(),
        fs_type: Some(FsType::Vfat),
        fs_label: None,
        fs_uuid: None,
        size_bytes,
    }
}

fn part(label: &str, part_type: PartType, fs: FsType, size_bytes: u64) -> PartitionPlan {
    PartitionPlan { label: label.into(), part_type, fs, size_bytes }
}

#[test]
fn returns_seeded_disks_and_volumes() {
    let be = FakeBlockBackend::new().with_disk(disk("sda")).with_volume(efi_volume(1 << 20));
    assert_eq!(be.list_disks().unwrap().len(), 1);
    assert_eq!(be.list_volumes().unwrap()[0].disk, "sda");
}

#[test]
fn simulates_provisioning() {
    let mut be = FakeBlockBackend::new();
    let plan = vec![
        part("EFI", PartType::EfiSystem, FsType::Vfat, 512 << 20),
        part("STATE", PartType::LinuxFilesystem, FsType::Ext4, 1 << 30),
    ];
    let devs = be.create_partitions("/dev/sda", &plan).unwrap();
    assert_eq!(devs, vec!["/dev/sda1".to_string(), "/dev/sda2".to_string()]);
    be.format("/dev/sda2", FsType::Ext4, "STATE").unwrap();

    let vols = be.list_volumes().unwrap();
    assert_eq!(vols.len(), 2);
    let state = vols.iter().find(|v| v.partition_label == "STATE").unwrap();
    assert_eq!(state.fs_type, Some(FsType::Ext4));
    assert_eq!(be.creates(), vec!["/dev/sda".to_string()]);
    assert_eq!(be.formats().len(), 1);

    be.wipe("/dev/sda").unwrap();
    assert!(be.list_volumes().unwrap().is_empty());
    assert_eq!(be.wipes(), vec!["/dev/sda".to_string()]);
}

#[test]
fn add_partitions_numbers_after_existing() {
    let mut be = FakeBlockBackend::new().with_volume(efi_volume(512 << 20));
    let plan = vec![
        part("STATE", PartType::LinuxFilesystem, FsType::Ext4, 1 << 30),
        part("EPHEMERAL", PartType::LinuxFilesystem, FsType::Ext4, 0),
    ];
    let devs = be.add_partitions("/dev/sda", &plan).unwrap();
    assert_eq!(devs, vec!["/dev/sda2".to_string(), "/dev/sda3".to_string()]);

    assert_eq!(
        be.adds(),
        vec![("/dev/sda".to_string(), vec!["STATE".to_string(), "EPHEMERAL".to_string()])]
    );

    let vols = be.list_volumes().unwrap();
    assert_eq!(vols.len(), 3);
    assert!(vols.iter().any(|v| v.partition_label == "EFI"));
    assert!(vols.iter().any(|v| v.device == "/dev/sda2"));
    assert!(vols.iter().any(|v| v.device == "/dev/sda3"));

    let err = be.add_partitions("/dev/sda", &plan);
    assert!(err.is_err(), "duplicate-label append must error");
    assert!(err.unwrap_err().to_string().contains("STATE"), "error names the duplicate label");
    assert_eq!(be.adds().len(), 1, "failed append is not recorded");
    assert_eq!(be.list_volumes().unwrap().len(), 3, "no partition was added by the refused call");
}

#[test]
fn laying_out_formatting_and_wiping_again_converge() {
    let plan = vec![
        part("EFI", PartType::EfiSystem, FsType::Vfat, 512 << 20),
        part("STATE", PartType::LinuxFilesystem, FsType::Ext4, 1 << 30),
    ];
    let mut be = FakeBlockBackend::default();
    let first = be.create_partitions("/dev/sda", &plan).unwrap();
    let vols = be.list_volumes().unwrap();
    assert_eq!(be.create_partitions("/dev/sda", &plan).unwrap(), first);
    assert_eq!(be.list_volumes().unwrap(), vols);
    assert_eq!(vols.len(), 2);
    assert_eq!(be.creates().len(), 2, "both calls are recorded");

    be.create_partitions("/dev/sdb", &plan).unwrap();
    assert_eq!(be.list_volumes().unwrap().len(), 4, "other disks are left alone");

    be.format("/dev/sda2", FsType::Ext4, "STATE").unwrap();
    let vols = be.list_volumes().unwrap();
    be.format("/dev/sda2", FsType::Ext4, "STATE").unwrap();
    assert_eq!(be.list_volumes().unwrap(), vols);

    be.wipe("/dev/sda").unwrap();
    let vols = be.list_volumes().unwrap();
    be.wipe("/dev/sda").unwrap();
    assert_eq!(be.list_volumes().unwrap(), vols);
    assert_eq!(vols.len(), 2);
}

#[test]
fn wiping_leaves_other_disks_alone() {
    let mut be = FakeBlockBackend::new().with_volume(efi_volume(1));
    be.create_partitions("/dev/sdb", &[part("DATA", PartType::LinuxFilesystem, FsType::Xfs, 5)])
        .unwrap();
    be.wipe("/dev/sdb").unwrap();
    let vols = be.list_volumes().unwrap();
    assert_eq!(vols.len(), 1);
    assert_eq!(vols[0].disk, "sda");
}

#[test]
fn part_device_naming() {
    assert_eq!(part_device("sda", 1), "sda1");
    assert_eq!(part_device("nvme0n1", 2), "nvme0n1p2");
    assert_eq!(part_device("loop0", 1), "loop0p1");
}

fn text(s: &str) -> Option<String> {
    Some(s.to_string())
}

#[test]
fn list_disks_parses_sysfs_fixture() {
    let be = SysfsBlock::with_roots("/tmp/fixture", "/dev");
    let found = vec![
        DiskFiles {
            name: "sda".into(),
            size: text("2048\n"),
            model: text("TEST MODEL\n"),
            serial: text("SER123\n"),
            rotational: text("1\n"),
            ro: text("0\n"),
        },
        DiskFiles {
            name: "ram0".into(),
            size: text("100\n"),
            model: None,
            serial: None,
            rotational: None,
            ro: None,
        },
    ];
    let disks = be.list_disks(&found);
    assert_eq!(disks.len(), 1, "ram0 filtered");
    let d = &disks[0];
    assert_eq!(d.name, "sda");
    assert_eq!(d.size_bytes, 2048 * 512);
    assert!(d.rotational);
    assert!(!d.read_only);
    assert_eq!(d.model, "TEST MODEL");
    assert_eq!(d.serial, "SER123");
    assert_eq!(d.path, "/dev/sda");
}

#[test]
fn read_partitions_from_gpt_tempfile() {
    let mut img = Cursor::new(vec![0u8; 16 * 1024 * 1024]);
    {
        let mut gdisk = gpt::GptConfig::new()
            .writable(true)
            .initialized(false)
            .open_from_device(Box::new(&mut img))
            .unwrap();
        gdisk.update_partitions(std::collections::BTreeMap::new()).unwrap();
        gdisk.add_partition("EFI", 1024 * 1024, gpt::partition_types::EFI, 0, None).unwrap();
        gdisk.add_partition("STATE", 1024 * 1024, gpt::partition_types::EFI, 0, None).unwrap();
        gdisk.write().unwrap();
    }
    let disk =
        gpt::GptConfig::new().writable(false).open_from_device(Box::new(&mut img)).unwrap();
    let lb = *disk.logical_block_size();
    let table: Vec<TableEntry> = disk
        .partitions()
        .iter()
        .map(|(index, p)| TableEntry {
            index: *index,
            uuid: p.part_guid.to_string(),
            label: p.name.clone(),
            type_guid: p.part_type_guid.guid.to_string(),
            size: p.bytes_len(lb).ok(),
        })
        .collect();

    let be = SysfsBlock::with_roots("/sys", "/tmp/gpt");
    let parts = be.read_partitions("sdz", &table);
    assert_eq!(parts.len(), 2);
    assert_eq!(parts[0].device, "sdz1");
    assert_eq!(parts[1].device, "sdz2");
    assert!(parts.iter().any(|p| p.label == "EFI"));
    assert!(parts.iter().any(|p| p.label == "STATE"));
    assert!(parts.iter().all(|p| p.size_bytes == 1024 * 1024));
}

#[test]
fn a_table_gives_volumes_with_what_is_on_them() {
    let be = SysfsBlock::new();
    let table = vec![TableEntry {
        index: 1,
        uuid: "a".into(),
        label: "STATE".into(),
        type_guid: "g".into(),
        size: Some(4096),
    }];
    let mut parts = be.read_partitions("sda", &table);
    let head = ext4_image();
    let tables = vec![DiskTable {
        name: "sda".into(),
        parts: Some(vec![(parts.remove(0), Some(head))]),
    }];
    let volumes = be.list_volumes(&tables);
    assert_eq!(volumes.len(), 1);
    assert_eq!(volumes[0].device, "/dev/sda1");
    assert_eq!(volumes[0].fs_type, Some(FsType::Ext4));
    assert_eq!(volumes[0].fs_label.as_deref(), Some("STATE"));
}

fn ext4_image() -> Vec<u8> {
    let mut b = vec![0u8; 2048];
    b[1024 + 56] = 0x53;
    b[1024 + 57] = 0xEF;
    for i in 0..16 {
        b[1024 + 104 + i] = i as u8;
    }
    b[1024 + 120..1024 + 125].copy_from_slice(b"STATE");
    b
}

#[test]
fn file_systems_are_told_by_their_magic() {
    let p = probe_fs(&ext4_image()).unwrap();
    assert_eq!(p.fs_type, FsType::Ext4);
    assert_eq!(p.label.as_deref(), Some("STATE"));
    assert_eq!(p.uuid.as_deref(), Some("00010203-0405-0607-0809-0a0b0c0d0e0f"));
    assert!(probe_fs(&vec![0u8; 4096]).is_none());
    assert!(probe_fs(&[]).is_none());
    let mut fat = vec![0u8; 512];
    fat[510] = 0x55;
    fat[511] = 0xAA;
    fat[82..90].copy_from_slice(b"FAT32   ");
    fat[71..82].copy_from_slice(b"EFI        ");
    fat[67..71].copy_from_slice(&[0x78, 0x56, 0x34, 0x12]);
    let p = probe_fs(&fat).unwrap();
    assert_eq!(p.fs_type, FsType::Vfat);
    assert_eq!(p.label.as_deref(), Some("EFI"));
    assert_eq!(p.uuid.as_deref(), Some("1234-5678"));
    let mut xfs = vec![0u8; 512];
    xfs[0..4].copy_from_slice(b"XFSB");
    assert_eq!(probe_fs(&xfs).unwrap().fs_type, FsType::Xfs);
    let mut swap = vec![0u8; 4096];
    swap[4086..4096].copy_from_slice(b"SWAPSPACE2");
    assert_eq!(probe_fs(&swap).unwrap().fs_type, FsType::Swap);
}

#[test]
fn read_trim_drops_space() {
    assert_eq!(read_trim(&text(" a b\n")), text("a b"));
    assert_eq!(read_trim(&None), None);
}

fn finish(mut run: PartitionRun, mut action: Action, labels: Vec<String>, reread: bool) -> Action {
    let mut next_id: u32 = labels.len() as u32 + 1;
    let mut waits = 0;
    loop {
        let event = match &action {
            Action::Open { .. } => {
                Event::Opened { block_size: 512, labels: labels.clone() }
            }
            Action::Clear => Event::Finished,
            Action::FreeRuns => Event::Free { runs: vec![10, 4096, 7] },
            Action::Add { size_bytes, .. } => {
                let id = next_id;
                next_id += 1;
                let first = 2048 * id as u64;
                Event::Added { id, extent: Some((first, first + size_bytes / 512 - 1)) }
            }
            Action::Write => Event::Finished,
            Action::Reread => Event::Reread { ok: reread },
            Action::Register { .. } => Event::Finished,
            Action::Probe { .. } => Event::Seen { present: true },
            Action::Wait => {
                waits += 1;
                assert!(waits < 100);
                Event::Finished
            }
            Action::Done { .. } | Action::Fail { .. } => return action,
        };
        action = run.step(event);
    }
}

#[test]
fn a_fresh_table_gets_all_partitions() {
    let block = SysfsBlock::new();
    let plan = vec![
        part("EFI", PartType::EfiSystem, FsType::Vfat, 512 << 20),
        part("STATE", PartType::LinuxFilesystem, FsType::Ext4, 1 << 30),
    ];
    let (run, action) = PartitionRun::start(&block, "/dev/sda", plan, true);
    match finish(run, action, vec![], true) {
        Action::Done { devices } => {
            assert_eq!(devices, vec!["/dev/sda1".to_string(), "/dev/sda2".to_string()])
        }
        _ => panic!("expected partitions"),
    }
}

#[test]
fn an_append_refuses_a_label_that_exists() {
    let block = SysfsBlock::new();
    let plan = vec![part("STATE", PartType::LinuxFilesystem, FsType::Ext4, 1 << 30)];
    let (run, action) = PartitionRun::start(&block, "/dev/sda", plan, false);
    match finish(run, action, vec!["STATE".to_string()], true) {
        Action::Fail { error } => assert!(error.to_string().contains("STATE")),
        _ => panic!("expected a refusal"),
    }
}

#[test]
fn an_append_numbers_behind_what_is_there() {
    let block = SysfsBlock::new();
    let plan = vec![part("STATE", PartType::LinuxFilesystem, FsType::Ext4, 1 << 30)];
    let (run, action) = PartitionRun::start(&block, "/dev/nvme0n1", plan, false);
    match finish(run, action, vec!["EFI".to_string()], false) {
        Action::Done { devices } => assert_eq!(devices, vec!["/dev/nvme0n1p2".to_string()]),
        _ => panic!("expected partitions"),
    }
}

#[test]
fn the_kernel_is_told_of_partitions_one_by_one() {
    let parts = vec![(2u32, 10u64, 19u64), (3, 20, 20)];
    let first = blkpg_add_partitions("/dev/sda", 512, &parts, &vec![]).unwrap();
    assert_eq!(first, Some(PartitionNotice { number: 2, start: 5120, length: 5120 }));
    let second = blkpg_add_partitions("/dev/sda", 512, &parts, &vec![KernelAnswer::Busy]).unwrap();
    assert_eq!(second, Some(PartitionNotice { number: 3, start: 10240, length: 512 }));
    let answers = vec![KernelAnswer::Exists, KernelAnswer::Added];
    assert_eq!(blkpg_add_partitions("/dev/sda", 512, &parts, &answers).unwrap(), None);
    let answers = vec![KernelAnswer::Added, KernelAnswer::Failed { message: "EPERM".into() }];
    match blkpg_add_partitions("/dev/sda", 512, &parts, &answers) {
        Err(BlockError::Gpt { device, message }) => {
            assert_eq!(device, "/dev/sda");
            assert_eq!(message, "BLKPG add partition 3: EPERM");
        }
        _ => panic!("expected a failure"),
    }
}

#[test]
fn both_ends_of_a_disk_are_wiped() {
    assert_eq!(wipe_tail(3 << 20), Some(2 << 20));
    assert_eq!(wipe_tail(1 << 20), None);
}

#[test]
fn file_systems_are_made_by_their_tools() {
    let (program, args) = mkfs_command("/dev/sda2", FsType::Ext4, "STATE");
    assert!(program.contains("mkfs.ext4"), "{program}");
    assert!(args.contains(&"STATE".to_string()) && args.contains(&"/dev/sda2".to_string()));
    let ok = CommandEnd::Ended { success: true, status: "exit status: 0".into() };
    assert!(format_result("/dev/sda2", FsType::Ext4, ok).is_ok());
    let bad = CommandEnd::Ended { success: false, status: "exit status: 1".into() };
    assert!(format_result("/dev/sda2", FsType::Ext4, bad)
        .unwrap_err()
        .to_string()
        .contains("exit status: 1"));
    let none = CommandEnd::NotRun { message: "not found".into() };
    assert!(format_result("/dev/sda2", FsType::Ext4, none)
        .unwrap_err()
        .to_string()
        .contains("not found"));
}
