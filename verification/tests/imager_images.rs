use fatfs::{FatType, FileSystem, FormatVolumeOptions, FsOptions};
use flate2::read::GzDecoder;
use fscommon::StreamSlice;
use machined::block::{FsType, PartType, PartitionPlan};
use machined::controllers::block::provision::fixed_layout;
use machined::imager::arch::PartScheme;
use machined::imager::fetch::{check_pin, digest, fetch_verified, valid_pin, Action, Event, Fetch};
use machined::imager::image::{
    copy_tree, efi_partition, partition_bytes, volume_label, write_image, Layout,
};
use machined::imager::initramfs::{build_archive, build_initramfs, module_list};
use machined::imager::manifest::{Artifact, Manifest};
use machined::imager::pipeline::{
    artifacts_for, check_pki, find_kver, route, stage_pki, staged_in, BuildRun, Outcome, Route,
    Task,
};
use machined::imager::prune::{prune_modules, Removal};
use machined::imager::rpi::{
    cmdline_txt_for, config_txt, move_kernel_to_slot_a, stage_pi_firmware, PI3_BLOBS, PI3_DTB,
};
use machined::imager::sdboot::{
    assemble, entry_conf, entry_in, loader_conf, stage_boot_loader,
};
use machined::imager::stage::{Act, Step};
use machined::imager::tree::{flatten, Item, Named, Node};
use machined::imager::Error;
use sha2::{Digest, Sha256};
use std::collections::BTreeMap;
use std::io::{Cursor, Read, Seek, Write};

/// A disk in memory.
type Files = BTreeMap<String, Vec<u8>>;

struct StaticFetcher(Vec<u8>);

impl Fetch for StaticFetcher {
    fn get(&self, _url: &str) -> Result<Vec<u8>, Error> {
        Ok(self.0.clone())
    }
}

struct Bomb;

impl Fetch for Bomb {
    fn get(&self, _url: &str) -> Result<Vec<u8>, Error> {
        panic!("must not re-download")
    }
}

fn fetch(
    fetcher: &dyn Fetch,
    url: &str,
    sha256: &str,
    dir: &str,
    files: &mut Files,
) -> Result<String, Error> {
    let (mut run, mut action) = fetch_verified(url, sha256, dir);
    loop {
        let event = match action {
            Action::MakeDir { .. } => Event::Finished,
            Action::LookUp { path } => match files.get(&path) {
                Some(data) => Event::Got { data: data.clone() },
                None => Event::Absent,
            },
            Action::Remove { path } => {
                files.remove(&path);
                Event::Finished
            }
            Action::Download { url } => match fetcher.get(&url) {
                Ok(data) => Event::Got { data },
                Err(e) => Event::Failed { reason: e.to_string() },
            },
            Action::Write { path, data } => {
                files.insert(path, data);
                Event::Finished
            }
            Action::Move { from, to } => {
                let data = files.remove(&from).unwrap();
                files.insert(to, data);
                Event::Finished
            }
            Action::Done { path } => return Ok(path),
            Action::Fail { error } => return Err(error),
        };
        action = run.step(event);
    }
}

fn hex_digest(body: &[u8]) -> String {
    hex::encode(Sha256::digest(body))
}

#[test]
fn good_checksum_is_cached_and_returned() {
    let mut files = Files::new();
    let body = b"payload".to_vec();
    let sum = hex_digest(&body);
    let p = fetch(&StaticFetcher(body.clone()), "http://x/a", &sum, "/cache", &mut files).unwrap();
    assert_eq!(files[&p], body);
    let p2 = fetch(&Bomb, "http://x/a", &sum, "/cache", &mut files).unwrap();
    assert_eq!(p, p2);
}

#[test]
fn poisoned_cache_entry_is_replaced() {
    let mut files = Files::new();
    let body = b"payload".to_vec();
    let sum = hex_digest(&body);
    files.insert(format!("/cache/{sum}"), b"garbage".to_vec());
    let p = fetch(&StaticFetcher(body.clone()), "http://x/a", &sum, "/cache", &mut files).unwrap();
    assert_eq!(files[&p], body);
}

#[test]
fn malformed_pins_are_rejected_and_nothing_is_written() {
    let mut files = Files::new();
    let body = b"payload".to_vec();
    let upper = hex_digest(&body).to_uppercase();
    for pin in [upper.as_str(), "../evil", "aa"] {
        let err =
            fetch(&StaticFetcher(body.clone()), "http://x/a", pin, "/cache", &mut files).unwrap_err();
        assert!(err.to_string().contains("invalid sha256 pin"), "{err:?}");
    }
    assert_eq!(files.len(), 0);
}

#[test]
fn bad_checksum_is_a_hard_error_and_nothing_is_cached() {
    let mut files = Files::new();
    let err = fetch(
        &StaticFetcher(b"evil".to_vec()),
        "http://x/a",
        &"00".repeat(32),
        "/cache",
        &mut files,
    )
    .unwrap_err();
    assert!(err.to_string().contains("sha256 mismatch"), "{err:?}");
    assert_eq!(files.len(), 0);
}

#[test]
fn failures_of_a_fetch_say_where() {
    let pin = digest(b"payload");
    assert!(valid_pin(&pin));
    assert!(!valid_pin("zz"));
    assert_eq!(pin, "239f59ed55e737c77147cf55ad0c1b030b6d7ee748a7426952f9b852d5a935e5");
    let fail = || Event::Failed { reason: "disk full".into() };
    let (mut run, _) = fetch_verified("u", &pin, "/cache");
    match run.step(fail()) {
        Action::Fail { error } => assert_eq!(error.to_string(), "creating cache dir /cache"),
        _ => panic!("expected a failure"),
    }
    let (mut run, _) = fetch_verified("u", &pin, "/cache");
    run.step(Event::Finished);
    match run.step(fail()) {
        Action::Fail { error } => {
            assert_eq!(error.to_string(), format!("reading cached artifact /cache/{pin}"))
        }
        _ => panic!("expected a failure"),
    }
    let (mut run, _) = fetch_verified("u", &pin, "/cache");
    run.step(Event::Finished);
    run.step(Event::Got { data: b"other".to_vec() });
    match run.step(fail()) {
        Action::Fail { error } => {
            assert_eq!(error.to_string(), format!("removing corrupt cache entry /cache/{pin}"))
        }
        _ => panic!("expected a failure"),
    }
    let (mut run, _) = fetch_verified("u", &pin, "/cache");
    run.step(Event::Finished);
    run.step(Event::Absent);
    match run.step(fail()) {
        Action::Fail { error } => assert_eq!(error.to_string(), "disk full"),
        _ => panic!("expected a failure"),
    }
    let (mut run, _) = fetch_verified("u", &pin, "/cache");
    run.step(Event::Finished);
    run.step(Event::Absent);
    match run.step(Event::Got { data: b"payload".to_vec() }) {
        Action::Write { path, .. } => assert_eq!(path, format!("/cache/.{pin}.tmp")),
        _ => panic!("expected a write"),
    }
    match run.step(fail()) {
        Action::Fail { error } => {
            assert_eq!(error.to_string(), format!("writing artifact to /cache/.{pin}.tmp"))
        }
        _ => panic!("expected a failure"),
    }
    assert_eq!(
        check_pin("u", "a", "b").unwrap_err().to_string(),
        "sha256 mismatch for u: expected a, got b"
    );
    assert!(check_pin("u", "a", "a").is_ok());
}

fn dir(name: &str, entries: Vec<Named>) -> Named {
    Named { name: name.into(), node: Node::Dir { entries } }
}

fn file(name: &str, mode: u32, data: &[u8]) -> Named {
    Named { name: name.into(), node: Node::File { mode, data: data.to_vec() } }
}

fn link(name: &str, target: &str) -> Named {
    Named { name: name.into(), node: Node::Link { target: target.into() } }
}

fn gunzip(bytes: &[u8]) -> Vec<u8> {
    let mut raw = Vec::new();
    GzDecoder::new(bytes).read_to_end(&mut raw).unwrap();
    raw
}

#[test]
fn builds_gzip_cpio_with_init_console_and_modules_load() {
    let rootfs = vec![dir("sbin", vec![file("mkfs.ext4", 0o755, b"elf")])];
    let bytes = build_initramfs(
        &rootfs,
        b"machined-elf",
        &vec!["kernel/fs/ext4/ext4.ko".into(), "kernel/drivers/block/virtio_blk.ko".into()],
        "6.12.81-0-virt",
        "test-image",
    )
    .unwrap();
    let raw = gunzip(&bytes);
    let text = String::from_utf8_lossy(&raw);
    assert!(text.contains("init"));
    assert!(text.contains("dev/console"));
    assert!(text.contains("sbin/mkfs.ext4"));
    assert!(text.contains("etc/machined/modules.load"));
    assert!(text.contains("etc/machined/image-id"));
    let want = "/lib/modules/6.12.81-0-virt/kernel/fs/ext4/ext4.ko\n/lib/modules/6.12.81-0-virt/kernel/drivers/block/virtio_blk.ko\n";
    assert!(text.contains(want), "ordered absolute module paths embedded");
    assert!(text.contains("TRAILER!!!"));
}

#[test]
fn preserves_rootfs_symlinks_via_cpio_round_trip() {
    let rootfs =
        vec![dir("sbin", vec![file("mke2fs", 0o755, b"elf"), link("mkfs.ext4", "mke2fs")])];
    let bytes =
        build_initramfs(&rootfs, b"machined-elf", &vec![], "6.12.81-0-virt", "test-image").unwrap();
    let raw = gunzip(&bytes);
    let name = b"sbin/mkfs.ext4\0";
    let name_pos =
        raw.windows(name.len()).position(|win| win == name).expect("mkfs.ext4 entry present");
    let header_start = name_pos - 110;
    assert_eq!(&raw[header_start..header_start + 6], b"070701", "newc magic");
    let mode_hex = std::str::from_utf8(&raw[header_start + 14..header_start + 22]).unwrap();
    assert_eq!(
        u32::from_str_radix(mode_hex, 16).unwrap(),
        0o120777,
        "sbin/mkfs.ext4 is a symlink entry"
    );
}

#[test]
fn output_is_deterministic() {
    let sbin = || dir("sbin", vec![file("mkfs.ext4", 0o644, b"elf")]);
    let usr = || dir("usr", vec![dir("lib", vec![file("libc.so", 0o644, b"libc")])]);
    let modules: Vec<String> = vec!["kernel/fs/ext4/ext4.ko".into()];
    let a = build_initramfs(
        &vec![sbin(), usr()],
        b"machined-elf",
        &modules,
        "6.12.81-0-virt",
        "test-image",
    )
    .unwrap();
    let b = build_initramfs(
        &vec![usr(), sbin()],
        b"machined-elf",
        &modules,
        "6.12.81-0-virt",
        "test-image",
    )
    .unwrap();
    assert_eq!(a, b, "identical inputs must yield byte-identical archives");
}

#[test]
fn rejects_rootfs_with_top_level_init() {
    let rootfs = vec![file("init", 0o755, b"impostor")];
    let err = build_initramfs(&rootfs, b"machined-elf", &vec![], "6.12.81-0-virt", "test-image")
        .unwrap_err();
    assert!(err.to_string().contains("init"), "error should mention the init collision: {err:?}");
    let nested = vec![dir("sbin", vec![file("init", 0o755, b"ok")])];
    assert!(build_archive(&nested, b"m", &vec![], "k", "i").is_ok());
}

#[test]
fn module_lists_are_absolute_and_in_order() {
    assert_eq!(module_list(&vec![], "6"), "");
    assert_eq!(module_list(&vec!["b.ko".into(), "a.ko".into()], "6"), "/lib/modules/6/b.ko\n/lib/modules/6/a.ko\n");
}

#[test]
fn trees_are_listed_by_name_directories_first() {
    let tree = vec![file("b", 0o600, b"x"), dir("a", vec![link("z", "t"), file("y", 0o644, b"")])];
    let paths: Vec<String> = flatten("", &tree)
        .iter()
        .map(|i| match i {
            Item::Link { path, .. } | Item::Dir { path } | Item::File { path, .. } => path.clone(),
        })
        .collect();
    assert_eq!(paths, vec!["a", "a/y", "a/z", "b"]);
}

fn fill<T: Read + Write + Seek>(mut region: StreamSlice<T>, label: &str, staging: &Vec<Named>) {
    let mut volume_label = [0u8; 11];
    volume_label.copy_from_slice(label.as_bytes());
    let options = FormatVolumeOptions::new().fat_type(FatType::Fat32).volume_label(volume_label);
    fatfs::format_volume(&mut region, options).unwrap();
    let fs = FileSystem::new(region, FsOptions::new()).unwrap();
    for item in copy_tree(staging) {
        match item {
            Item::Dir { path } => {
                fs.root_dir().create_dir(&path).unwrap();
            }
            Item::File { path, data, .. } => {
                let mut f = fs.root_dir().create_file(&path).unwrap();
                f.truncate().unwrap();
                f.write_all(data).unwrap();
            }
            Item::Link { .. } => panic!("FAT has no links"),
        }
    }
}

/// An image with its partition and what is staged in it.
fn make_image(size: u64, staging: &Vec<Named>, scheme: PartScheme) -> Cursor<Vec<u8>> {
    let mut image = Cursor::new(vec![0u8; size as usize]);
    match write_image(size, scheme).unwrap() {
        Layout::Gpt { lba0, partition } => {
            image.write_all(&lba0).unwrap();
            let mut disk = gpt::GptConfig::new()
                .writable(true)
                .initialized(false)
                .logical_block_size(gpt::disk::LogicalBlockSize::Lb512)
                .open_from_device(Box::new(&mut image))
                .unwrap();
            disk.update_partitions(BTreeMap::new()).unwrap();
            assert_eq!(partition.part_type, PartType::EfiSystem);
            disk.add_partition(
                &partition.label,
                partition.size_bytes,
                gpt::partition_types::EFI,
                0,
                None,
            )
            .unwrap();
            let p = disk.partitions().values().next().unwrap().clone();
            disk.write().unwrap();
            let (start, end) = partition_bytes(p.first_lba, p.last_lba);
            let region = StreamSlice::new(&mut image, start, end).unwrap();
            fill(region, volume_label(scheme), staging);
        }
        Layout::Mbr { lba0, start, end } => {
            image.write_all(&lba0).unwrap();
            let region = StreamSlice::new(&mut image, start, end).unwrap();
            fill(region, volume_label(scheme), staging);
        }
    }
    image
}

#[test]
fn image_has_efi_only_gpt_and_populated_fat() {
    let staging = vec![
        file("vmlinuz", 0o644, b"kernel"),
        file("config.yaml", 0o644, b"machine: {}\n"),
        dir("bin", vec![file("tool", 0o755, b"t")]),
    ];
    let mut img = make_image(2 * 1024 * 1024 * 1024, &staging, PartScheme::Gpt);

    let disk = gpt::GptConfig::new().writable(false).open_from_device(Box::new(&mut img)).unwrap();
    let parts = disk.partitions().clone();
    drop(disk);
    assert_eq!(parts.len(), 1);
    let p = parts.values().next().unwrap();
    assert_eq!(p.name, "EFI");
    assert_eq!(p.part_type_guid, gpt::partition_types::EFI);

    let (start, end) = (p.first_lba * 512, (p.last_lba + 1) * 512);
    let slice = StreamSlice::new(img, start, end).unwrap();
    let fs = FileSystem::new(slice, FsOptions::new()).unwrap();
    let names: Vec<String> = fs.root_dir().iter().map(|e| e.unwrap().file_name()).collect();
    assert!(names.contains(&"config.yaml".to_string()), "{names:?}");
    assert!(names.contains(&"vmlinuz".to_string()));
    let mut buf = String::new();
    fs.root_dir().open_file("config.yaml").unwrap().read_to_string(&mut buf).unwrap();
    assert_eq!(buf, "machine: {}\n");
    let sub: Vec<String> = fs
        .root_dir()
        .open_dir("bin")
        .unwrap()
        .iter()
        .map(|e| e.unwrap().file_name())
        .filter(|n| n != "." && n != "..")
        .collect();
    assert_eq!(sub, vec!["tool".to_string()]);
}

#[test]
fn too_small_image_errors() {
    let err = write_image(100 * 1024 * 1024, PartScheme::Gpt).unwrap_err();
    assert!(
        err.to_string().contains("too small"),
        "error should mention 'too small': {err:?}"
    );
    assert_eq!(
        err.to_string(),
        "image size 104857600 too small (need at least 541065216 bytes)"
    );
    assert_eq!(write_image(4096 * 512, PartScheme::Mbr).unwrap_err().to_string(), "image too small");
    assert!(write_image(4096 * 512 + 1, PartScheme::Mbr).is_ok());
}

#[test]
fn protective_mbr_present() {
    match write_image(2 * 1024 * 1024 * 1024, PartScheme::Gpt).unwrap() {
        Layout::Gpt { lba0: bytes, .. } => {
            assert_eq!(bytes.len(), 512);
            assert_eq!(&bytes[510..512], &[0x55, 0xAA]);
            assert_eq!(bytes[0x1C2], 0xEE);
            assert_eq!(&bytes[446..462], &[0, 0, 2, 0, 0xEE, 0xFF, 0xFF, 0xFF, 1, 0, 0, 0, 0xFF, 0xFF, 0x3F, 0]);
            assert!(bytes[..446].iter().all(|b| *b == 0));
        }
        _ => panic!("expected a GPT"),
    }
}

#[test]
fn mbr_image_has_bootable_fat_primary_and_no_gpt() {
    let staging = vec![file("config.txt", 0o644, b"arm_64bit=1\n")];
    let img = make_image(1024 * 1024 * 1024, &staging, PartScheme::Mbr);
    let raw = img.get_ref();
    assert_eq!(&raw[510..512], &[0x55, 0xAA], "MBR signature");
    assert_eq!(raw[446], 0x80, "partition 1 bootable");
    assert_eq!(raw[446 + 4], 0x0C, "partition 1 type FAT32 LBA");
    let lba = u32::from_le_bytes(raw[446 + 8..446 + 12].try_into().unwrap());
    let cnt = u32::from_le_bytes(raw[446 + 12..446 + 16].try_into().unwrap());
    assert_eq!(lba, 2048, "FAT starts at LBA 2048");
    assert!(cnt > 0);
    assert_ne!(raw[446 + 4], 0xEE, "not a protective GPT MBR");
    assert_ne!(&raw[512..520], b"EFI PART", "no GPT header");

    let slice = StreamSlice::new(
        img,
        u64::from(lba) * 512,
        (u64::from(lba) + u64::from(cnt)) * 512,
    )
    .unwrap();
    let fs = FileSystem::new(slice, FsOptions::new()).unwrap();
    let names: Vec<String> = fs.root_dir().iter().map(|e| e.unwrap().file_name()).collect();
    assert!(names.contains(&"config.txt".to_string()), "{names:?}");
}

#[test]
fn the_partition_of_an_mbr_ends_with_the_image() {
    match write_image(1024 * 1024 * 1024, PartScheme::Mbr).unwrap() {
        Layout::Mbr { start, end, .. } => {
            assert_eq!((start, end), (2048 * 512, 1024 * 1024 * 1024))
        }
        _ => panic!("expected an MBR"),
    }
    assert_eq!(volume_label(PartScheme::Mbr), "BOOT       ");
    assert_eq!(volume_label(PartScheme::Gpt), "EFI        ");
    assert_eq!(partition_bytes(2048, 4095), (1 << 20, 2 << 20));
}

fn artifact(name: &str, kind: &str, rename: Option<&str>) -> Artifact {
    Artifact {
        name: name.into(),
        url: format!("https://example.org/{name}"),
        sha256: "aa".into(),
        kind: kind.into(),
        rename: rename.map(|r| r.to_string()),
    }
}

#[test]
fn parses_manifest_and_selects_arch() {
    let m = Manifest {
        artifact: vec![("x86_64".to_string(), vec![artifact("linux-virt", "apk", None)])],
    };
    let arts = m.for_arch("x86_64").unwrap();
    assert_eq!(arts.len(), 1);
    assert_eq!(arts[0].name, "linux-virt");
    assert_eq!(arts[0].clone(), arts[0]);
    assert!(m.for_arch("riscv").is_none());
}

#[test]
fn empty_artifact_list_is_an_error() {
    let m = Manifest { artifact: vec![("x86_64".to_string(), vec![])] };
    let msg = artifacts_for(&m, "x86_64").unwrap_err().to_string().to_lowercase();
    assert!(msg.contains("pin") || msg.contains("empty"), "error should mention pin/empty: {msg}");
    assert_eq!(
        artifacts_for(&m, "riscv").unwrap_err().to_string(),
        "no artifacts for riscv"
    );
    let full = Manifest { artifact: vec![("x86_64".to_string(), vec![artifact("a", "apk", None)])] };
    assert_eq!(artifacts_for(&full, "x86_64").unwrap().len(), 1);
}

#[test]
fn artifacts_go_where_their_kind_says() {
    assert_eq!(route(&artifact("linux", "apk", None)), Ok(Route::Rootfs));
    assert_eq!(route(&artifact("containerd", "boot-tarball", None)), Ok(Route::BootTarball));
    assert_eq!(
        route(&artifact("runc-bin", "boot-binary", Some("runc"))),
        Ok(Route::BootBinary { name: "runc".into() })
    );
    assert_eq!(
        route(&artifact("runc", "boot-binary", None)),
        Ok(Route::BootBinary { name: "runc".into() })
    );
    assert_eq!(
        route(&artifact("busybox", "oci-image", Some("busybox.tar"))),
        Ok(Route::OciImage { name: "busybox.tar".into() })
    );
    assert_eq!(
        route(&artifact("pause.tar", "oci-image", None)),
        Ok(Route::OciImage { name: "pause.tar".into() })
    );
    assert_eq!(route(&artifact("cni", "cni-plugins", None)), Ok(Route::CniPlugins));
    assert_eq!(route(&artifact("sd-boot", "sd-boot-efi", None)), Ok(Route::BootLoader));
    assert_eq!(staged_in(&Route::Rootfs), None);
    assert_eq!(staged_in(&Route::BootTarball), Some("bin"));
    assert_eq!(staged_in(&Route::BootBinary { name: "runc".into() }), Some("bin"));
    assert_eq!(staged_in(&Route::OciImage { name: "a".into() }), Some("images"));
    assert_eq!(staged_in(&Route::CniPlugins), Some("cni/bin"));
    assert_eq!(staged_in(&Route::BootLoader), Some("EFI/BOOT"));
    assert_eq!(
        route(&artifact("x", "odd", None)).unwrap_err().to_string(),
        "unknown artifact kind odd for x"
    );
}

#[test]
fn there_is_one_kernel_version() {
    assert_eq!(find_kver("/r/lib/modules", &vec!["6.12".into()]).unwrap(), "6.12");
    assert_eq!(
        find_kver("/r/lib/modules", &vec!["b".into(), "a\"".into()]).unwrap_err().to_string(),
        "expected exactly one kernel version under /r/lib/modules, found [\"a\\\"\", \"b\"]"
    );
    assert_eq!(
        find_kver("/m", &vec![]).unwrap_err().to_string(),
        "expected exactly one kernel version under /m, found []"
    );
}

#[test]
fn only_needed_modules_are_left() {
    let modules = vec![
        file("modules.dep", 0o644, b"dep"),
        dir(
            "kernel",
            vec![
                dir("fs", vec![file("ext4.ko", 0o644, b""), file("xfs.ko", 0o644, b"")]),
                dir("net", vec![file("unused.ko", 0o644, b"")]),
                dir("empty", vec![]),
            ],
        ),
    ];
    let removed = prune_modules(&modules, &vec!["kernel/fs/ext4.ko".into()]);
    assert_eq!(
        removed,
        vec![
            Removal::File { path: "modules.dep".into() },
            Removal::File { path: "kernel/fs/xfs.ko".into() },
            Removal::File { path: "kernel/net/unused.ko".into() },
            Removal::Dir { path: "kernel/net".into() },
            Removal::Dir { path: "kernel/empty".into() },
        ]
    );
}

fn perform(files: &mut Files, steps: &[Step]) -> Result<(), String> {
    for s in steps {
        match &s.act {
            Act::Require { path } => {
                if !files.contains_key(path) {
                    return Err(s.message.clone());
                }
            }
            Act::MakeDir { .. } | Act::MakeExecutable { .. } => {}
            Act::Copy { from, to } => {
                let data = files.get(from).cloned().ok_or(s.message.clone())?;
                files.insert(to.clone(), data);
            }
            Act::Rename { from, to } => {
                let data = files.remove(from).ok_or(s.message.clone())?;
                files.insert(to.clone(), data);
            }
            Act::Write { to, text } => {
                files.insert(to.clone(), text.as_bytes().to_vec());
            }
        }
    }
    Ok(())
}

#[test]
fn config_has_os_prefix_and_essentials() {
    let c = config_txt();
    assert!(c.contains("os_prefix=A/"), "{c}");
    assert!(c.contains("arm_64bit=1") && c.contains("kernel=vmlinuz"));
    assert!(c.contains("initramfs initramfs.img followkernel"));
    assert!(
        c.contains("dtoverlay=disable-bt") && c.contains("device_tree=bcm2837-rpi-3-a-plus.dtb")
    );
    assert!(cmdline_txt_for("a").contains("console=serial0,115200"));
    assert!(cmdline_txt_for("a").contains("machined.slot=a"));
    assert!(cmdline_txt_for("b").contains("machined.slot=b"));
}

#[test]
fn scaffolds_both_slots_with_dtb_overlay_cmdline_and_moves_kernel() {
    let mut files = Files::new();
    for f in PI3_BLOBS {
        files.insert(format!("/rootfs/boot/{f}"), f.as_bytes().to_vec());
    }
    files.insert(format!("/rootfs/boot/{PI3_DTB}"), b"dtb".to_vec());
    files.insert("/rootfs/boot/overlays/disable-bt.dtbo".into(), b"ovl".to_vec());

    perform(&mut files, &stage_pi_firmware("/rootfs", "/staging")).unwrap();
    for f in PI3_BLOBS {
        assert!(files.contains_key(&format!("/staging/{f}")));
    }
    let config = String::from_utf8(files["/staging/config.txt"].clone()).unwrap();
    assert!(config.contains("os_prefix=A/"));
    for (d, id) in [("A", "a"), ("B", "b")] {
        assert_eq!(files[&format!("/staging/{d}/{PI3_DTB}")], b"dtb");
        assert_eq!(files[&format!("/staging/{d}/overlays/disable-bt.dtbo")], b"ovl");
        let cl = String::from_utf8(files[&format!("/staging/{d}/cmdline.txt")].clone()).unwrap();
        assert!(cl.contains(&format!("machined.slot={id}")), "{cl}");
    }
    files.insert("/staging/vmlinuz".into(), b"K".to_vec());
    files.insert("/staging/initramfs.img".into(), b"I".to_vec());
    perform(&mut files, &move_kernel_to_slot_a("/staging")).unwrap();
    assert_eq!(files["/staging/A/vmlinuz"], b"K");
    assert_eq!(files["/staging/A/initramfs.img"], b"I");
    assert!(!files.contains_key("/staging/vmlinuz"));
    assert!(!files.contains_key("/staging/B/vmlinuz"));
}

#[test]
fn missing_blob_is_an_error() {
    let mut files = Files::new();
    let err = perform(&mut files, &stage_pi_firmware("/rootfs", "/staging")).unwrap_err();
    assert!(err.contains("bootcode.bin"), "{err}");
    assert_eq!(err, "Pi firmware blob bootcode.bin missing (raspberrypi-bootloader apks)");
}

#[test]
fn assemble_moves_kernel_and_writes_loader() {
    let mut s = Files::new();
    s.insert("/s/vmlinuz".into(), b"k".to_vec());
    s.insert("/s/initramfs.img".into(), b"i".to_vec());

    perform(&mut s, &assemble("/s", "console=ttyS0")).unwrap();

    assert_eq!(s["/s/A/vmlinuz"], b"k");
    assert_eq!(s["/s/A/initramfs.img"], b"i");
    assert!(!s.contains_key("/s/vmlinuz"));
    assert_eq!(s["/s/loader/loader.conf"], b"default a\ntimeout 0\n");
    let a = String::from_utf8(s["/s/loader/entries/a.conf"].clone()).unwrap();
    assert!(a.contains("linux /A/vmlinuz"), "{a}");
    assert!(a.contains("machined.slot=a"), "{a}");
    let b = String::from_utf8(s["/s/loader/entries/b.conf"].clone()).unwrap();
    assert!(b.contains("linux /B/vmlinuz") && b.contains("machined.slot=b"), "{b}");
}

#[test]
fn the_one_partition_of_a_gpt_is_efi() {
    let efi = PartitionPlan {
        label: "EFI".into(),
        part_type: PartType::EfiSystem,
        fs: FsType::Vfat,
        size_bytes: 512 * 1024 * 1024,
    };
    assert_eq!(efi_partition(), efi);
    assert_eq!(fixed_layout()[0], efi);
    match write_image(541065216, PartScheme::Gpt).unwrap() {
        Layout::Gpt { partition, .. } => assert_eq!(partition, efi),
        _ => panic!("expected a GPT"),
    }
}

#[test]
fn a_boot_loader_goes_where_firmware_looks() {
    let mut files = Files::new();
    files.insert("/cache/sd".into(), b"MZ".to_vec());
    perform(&mut files, &stage_boot_loader("/cache/sd", "/s/EFI/BOOT", "x86_64").unwrap())
        .unwrap();
    assert_eq!(files["/s/EFI/BOOT/BOOTX64.EFI"], b"MZ");
    perform(&mut files, &stage_boot_loader("/cache/sd", "/s/EFI/BOOT", "aarch64").unwrap())
        .unwrap();
    assert_eq!(files["/s/EFI/BOOT/BOOTAA64.EFI"], b"MZ");
    assert_eq!(
        stage_boot_loader("/cache/sd", "/s", "aarch64-rpi").unwrap_err().to_string(),
        "no UEFI boot loader for aarch64-rpi"
    );
}

#[test]
fn a_boot_entry_names_its_slot() {
    assert_eq!(loader_conf(), "default a\ntimeout 0\n");
    let text = "title machined (a)\nlinux /A/vmlinuz\ninitrd /A/initramfs.img\noptions quiet machined.slot=a\n";
    assert_eq!(entry_conf("a", "quiet"), text);
    assert_eq!(entry_in("a", "A", "quiet"), text);
    assert!(entry_conf("stra\u{df}e", "q").contains("linux /STRASSE/vmlinuz"));
}

#[test]
fn a_pki_is_checked_before_it_is_staged() {
    let mut files = Files::new();
    let err = perform(&mut files, &check_pki("/pki")).unwrap_err();
    assert_eq!(err, "PKI file missing: /pki/ca.pem");
    for f in ["ca.pem", "ca.key", "server.pem", "server.key"] {
        files.insert(format!("/pki/{f}"), f.as_bytes().to_vec());
    }
    perform(&mut files, &check_pki("/pki")).unwrap();
    perform(&mut files, &stage_pki("/pki", "/staging")).unwrap();
    assert_eq!(files["/staging/pki/server.key"], b"server.key");
}

#[test]
fn a_failed_check_of_the_config_ends_the_build() {
    let mut run = BuildRun::start(false, true);
    assert_eq!(run.task(), Task::CheckConfig);
    assert_eq!(run.step(Outcome::Failed), Task::Fail);
}

#[test]
fn a_failed_fetch_ends_the_build() {
    let mut run = BuildRun::start(false, false);
    run.step(Outcome::Finished);
    run.step(Outcome::Listed { count: 2 });
    assert_eq!(run.step(Outcome::Finished), Task::Fetch { index: 0 });
    assert_eq!(run.step(Outcome::Failed), Task::Fail);
}

#[test]
fn a_build_goes_through_its_tasks_in_order() {
    let mut run = BuildRun::start(true, true);
    let mut tasks = vec![run.task()];
    loop {
        let outcome = match run.task() {
            Task::LoadManifest => Outcome::Listed { count: 2 },
            Task::Done | Task::Fail => break,
            _ => Outcome::Finished,
        };
        tasks.push(run.step(outcome));
    }
    assert_eq!(
        tasks,
        vec![
            Task::CheckConfig,
            Task::CheckPki,
            Task::LoadManifest,
            Task::MakeScratch,
            Task::Fetch { index: 0 },
            Task::Place { index: 0 },
            Task::Fetch { index: 1 },
            Task::Place { index: 1 },
            Task::FindKernel,
            Task::Prune,
            Task::MakeInitramfs,
            Task::StageFiles,
            Task::StagePki,
            Task::WriteImage,
            Task::EmitBoot,
            Task::Done,
        ]
    );
}
