use fatfs::{FatType, FileSystem, FormatVolumeOptions, FsOptions};
use flate2::read::{GzDecoder, MultiGzDecoder};
use flate2::write::GzEncoder;
use flate2::Compression;
use fscommon::StreamSlice;
use machined::block::PartType;
use machined::imager::apk::{extract_apk, Step};
use machined::imager::arch::arch_config;
use machined::imager::boot::{copy_boot_binary, copy_oci_image, extract_boot_tarball};
use machined::imager::cni::extract_cni_plugins;
use machined::imager::fetch::{fetch_verified, Action, Event, Fetch};
use machined::imager::image::{copy_tree, partition_bytes, volume_label, write_image, Layout};
use machined::imager::initramfs::build_initramfs;
use machined::imager::manifest::{Artifact, Manifest};
use machined::imager::modules::resolve_closure;
use machined::imager::pipeline::{
    artifacts_for, check_pki, emit_boot, find_kver, route, stage_files, stage_pki, staged_in,
    BuildRun, Outcome, Part, Placement, Route, Task, PKI_FILES,
};
use machined::imager::prune::{prune_for_initramfs, Removal};
use machined::imager::sdboot::stage_boot_loader;
use machined::imager::stage::Act;
use machined::imager::tree::{Item, Named, Node};
use machined::imager::Error;
use sha2::{Digest, Sha256};
use std::collections::BTreeMap;
use std::io::{Cursor, Read, Write};

const KVER: &str = "6.12.81-0-virt";

const MODULES_DEP: &str = "\
kernel/drivers/block/virtio_blk.ko.gz: kernel/drivers/virtio/virtio.ko.gz
kernel/drivers/net/virtio_net.ko.gz: kernel/drivers/virtio/virtio.ko.gz
kernel/drivers/virtio/virtio.ko.gz:
kernel/fs/ext4/ext4.ko.gz: kernel/fs/jbd2/jbd2.ko.gz kernel/lib/crc16.ko.gz
kernel/fs/jbd2/jbd2.ko.gz:
kernel/lib/crc16.ko.gz:
kernel/fs/fat/vfat.ko.gz: kernel/fs/fat/fat.ko.gz
kernel/fs/fat/fat.ko.gz:
kernel/fs/nls/nls_cp437.ko.gz:
kernel/fs/nls/nls_iso8859_1.ko.gz:
kernel/fs/nls/nls_utf8.ko.gz:
";

const ALL_KO_GZ: &[&str] = &[
    "kernel/drivers/block/virtio_blk.ko.gz",
    "kernel/drivers/net/virtio_net.ko.gz",
    "kernel/drivers/virtio/virtio.ko.gz",
    "kernel/fs/ext4/ext4.ko.gz",
    "kernel/fs/jbd2/jbd2.ko.gz",
    "kernel/lib/crc16.ko.gz",
    "kernel/fs/fat/vfat.ko.gz",
    "kernel/fs/fat/fat.ko.gz",
    "kernel/fs/nls/nls_cp437.ko.gz",
    "kernel/fs/nls/nls_iso8859_1.ko.gz",
    "kernel/fs/nls/nls_utf8.ko.gz",
];

const UNUSED_KO_GZ: &str = "kernel/net/unused.ko.gz";

/// Files by path.
type Files = BTreeMap<String, Vec<u8>>;

struct MapFetcher(BTreeMap<String, Vec<u8>>);

impl Fetch for MapFetcher {
    fn get(&self, url: &str) -> Result<Vec<u8>, Error> {
        match self.0.get(url) {
            Some(data) => Ok(data.clone()),
            None => Err(Error { message: format!("no such url {url}") }),
        }
    }
}

fn gzip(bytes: &[u8]) -> Vec<u8> {
    let mut e = GzEncoder::new(Vec::new(), Compression::default());
    e.write_all(bytes).unwrap();
    e.finish().unwrap()
}

fn archive(entries: &[(String, u32, Vec<u8>)]) -> Vec<u8> {
    let mut tar_bytes = Vec::new();
    {
        let mut b = tar::Builder::new(&mut tar_bytes);
        for (name, mode, data) in entries {
            let mut h = tar::Header::new_gnu();
            h.set_size(data.len() as u64);
            h.set_mode(*mode);
            h.set_cksum();
            b.append_data(&mut h, name, &data[..]).unwrap();
        }
        b.finish().unwrap();
    }
    gzip(&tar_bytes)
}

fn linux_virt_apk() -> Vec<u8> {
    let mut entries = vec![
        (".PKGINFO".to_string(), 0o644, b"meta".to_vec()),
        ("boot/vmlinuz-virt".to_string(), 0o644, b"KERNEL".to_vec()),
        (format!("lib/modules/{KVER}/modules.dep"), 0o644, MODULES_DEP.as_bytes().to_vec()),
    ];
    for ko in ALL_KO_GZ.iter().chain(std::iter::once(&UNUSED_KO_GZ)) {
        entries.push((format!("lib/modules/{KVER}/{ko}"), 0o644, gzip(b"")));
    }
    archive(&entries)
}

fn e2fsprogs_apk() -> Vec<u8> {
    archive(&[("sbin/mkfs.ext4".to_string(), 0o755, b"\x7fELF!".to_vec())])
}

fn containerd_tgz() -> Vec<u8> {
    archive(&[
        ("bin/containerd".to_string(), 0o755, b"ELF-c".to_vec()),
        ("LICENSE".to_string(), 0o644, b"license".to_vec()),
    ])
}

struct Fixture {
    manifest: Manifest,
    fetcher: MapFetcher,
    files: Files,
}

fn fixture(linux_sha_override: Option<&str>) -> Fixture {
    let sources = [
        ("linux-virt", "http://example/linux-virt.apk", linux_virt_apk(), "apk", None),
        ("e2fsprogs", "http://example/e2fsprogs.apk", e2fsprogs_apk(), "apk", None),
        (
            "containerd",
            "http://example/containerd.tar.gz",
            containerd_tgz(),
            "boot-tarball",
            None,
        ),
        (
            "runc",
            "http://example/runc.amd64",
            b"ELF-runc".to_vec(),
            "boot-binary",
            Some("runc".to_string()),
        ),
    ];
    let mut map = BTreeMap::new();
    let mut list = Vec::new();
    for (name, url, data, kind, rename) in sources {
        let sha = hex::encode(Sha256::digest(&data));
        let sha256 = match linux_sha_override {
            Some(pin) if name == "linux-virt" => pin.to_string(),
            _ => sha,
        };
        map.insert(url.to_string(), data);
        list.push(Artifact {
            name: name.into(),
            url: url.into(),
            sha256,
            kind: kind.into(),
            rename,
        });
    }
    let mut files = Files::new();
    files.insert("/machined".into(), b"machined-elf".to_vec());
    files.insert("/config.yaml".into(), b"machine: {}\n".to_vec());
    for f in PKI_FILES {
        files.insert(format!("/pki/{f}"), format!("pem of {f}").into_bytes());
    }
    Fixture {
        manifest: Manifest { artifact: vec![("x86_64".to_string(), list)] },
        fetcher: MapFetcher(map),
        files,
    }
}

fn stage(files: &mut Files, steps: &[machined::imager::stage::Step]) -> Result<(), String> {
    for step in steps {
        match &step.act {
            Act::Require { path } => {
                if !files.contains_key(path) {
                    return Err(step.message.clone());
                }
            }
            Act::MakeDir { .. } | Act::MakeExecutable { .. } => {}
            Act::Copy { from, to } => {
                let data = files.get(from).cloned().ok_or(step.message.clone())?;
                files.insert(to.clone(), data);
            }
            Act::Rename { from, to } => {
                let data = files.remove(from).ok_or(step.message.clone())?;
                files.insert(to.clone(), data);
            }
            Act::Write { to, text } => {
                files.insert(to.clone(), text.as_bytes().to_vec());
            }
        }
    }
    Ok(())
}

fn fetch(
    fetcher: &MapFetcher,
    url: &str,
    pin: &str,
    files: &mut Files,
) -> Result<String, String> {
    let (mut run, mut action) = fetch_verified(url, pin, "/cache");
    loop {
        let event = match action {
            Action::MakeDir { .. } => Event::Finished,
            Action::LookUp { path } => match files.get(&path) {
                Some(data) => Event::Got { data: data.clone() },
                None => Event::Absent,
            },
            Action::Remove { path } => {
                files.remove(&path);
                Event::Finished
            }
            Action::Download { url } => match fetcher.get(&url) {
                Ok(data) => Event::Got { data },
                Err(e) => Event::Failed { reason: e.to_string() },
            },
            Action::Write { path, data } => {
                files.insert(path, data);
                Event::Finished
            }
            Action::Move { from, to } => {
                let data = files.remove(&from).unwrap();
                files.insert(to, data);
                Event::Finished
            }
            Action::Done { path } => return Ok(path),
            Action::Fail { error } => return Err(error.to_string()),
        };
        action = run.step(event);
    }
}

fn place(files: &mut Files, a: &Artifact, fetched: &str) -> Result<(), String> {
    let bytes = files[fetched].clone();
    let to = route(a).map_err(|e| e.to_string())?;
    let root = match staged_in(&to) {
        Some(dir) => format!("/staging/{dir}"),
        None => "/rootfs".to_string(),
    };
    let plan = match to {
        Route::Rootfs => extract_apk(&bytes),
        Route::BootTarball => extract_boot_tarball(&bytes),
        Route::CniPlugins => extract_cni_plugins(&bytes),
        Route::BootBinary { name } => {
            return stage(files, &copy_boot_binary(fetched, &root, &name));
        }
        Route::OciImage { name } => return stage(files, &copy_oci_image(fetched, &root, &name)),
        Route::BootLoader => {
            let steps =
                stage_boot_loader(fetched, &root, "x86_64").map_err(|e| e.to_string())?;
            return stage(files, &steps);
        }
    };
    for step in &plan.steps {
        match step {
            Step::MakeParent { .. } => {}
            Step::Write { target, data, .. } => {
                let path = String::from_utf8(target.clone()).unwrap();
                files.insert(format!("{root}/{path}"), data.clone());
            }
            Step::Unpack { index } => {
                let mut archive = tar::Archive::new(MultiGzDecoder::new(&bytes[..]));
                let mut entry = archive.entries().unwrap().nth(*index).unwrap().unwrap();
                let path = String::from_utf8(entry.path_bytes().into_owned()).unwrap();
                let mut data = Vec::new();
                entry.read_to_end(&mut data).unwrap();
                files.insert(format!("{root}/{path}"), data);
            }
        }
    }
    match plan.error {
        Some(e) => Err(e.to_string()),
        None => Ok(()),
    }
}

fn insert(tree: &mut Vec<Named>, names: &[&str], data: &[u8]) {
    if names.len() == 1 {
        tree.push(Named {
            name: names[0].into(),
            node: Node::File { mode: 0o644, data: data.to_vec() },
        });
        return;
    }
    let at = match tree.iter().position(|e| e.name == names[0]) {
        Some(at) => at,
        None => {
            tree.push(Named { name: names[0].into(), node: Node::Dir { entries: vec![] } });
            tree.len() - 1
        }
    };
    if let Node::Dir { entries } = &mut tree[at].node {
        insert(entries, &names[1..], data);
    }
}

fn tree(files: &Files, root: &str) -> Vec<Named> {
    let mut out = Vec::new();
    for (path, data) in files {
        if let Some(rest) = path.strip_prefix(root).and_then(|p| p.strip_prefix('/')) {
            insert(&mut out, &rest.split('/').collect::<Vec<_>>(), data);
        }
    }
    out
}

fn image(size: u64, staging: &Vec<Named>) -> Result<Cursor<Vec<u8>>, String> {
    let scheme = arch_config("x86_64").unwrap().scheme;
    let (lba0, partition) = match write_image(size, scheme).map_err(|e| e.to_string())? {
        Layout::Gpt { lba0, partition } => (lba0, partition),
        Layout::Mbr { .. } => panic!("expected a GPT"),
    };
    let mut img = Cursor::new(vec![0u8; size as usize]);
    img.write_all(&lba0).unwrap();
    let mut disk = gpt::GptConfig::new()
        .writable(true)
        .initialized(false)
        .logical_block_size(gpt::disk::LogicalBlockSize::Lb512)
        .open_from_device(Box::new(&mut img))
        .unwrap();
    disk.update_partitions(BTreeMap::new()).unwrap();
    assert_eq!(partition.part_type, PartType::EfiSystem);
    disk.add_partition(
        &partition.label,
        partition.size_bytes,
        gpt::partition_types::EFI,
        0,
        None,
    )
    .unwrap();
    let p = disk.partitions().values().next().unwrap().clone();
    disk.write().unwrap();
    let (start, end) = partition_bytes(p.first_lba, p.last_lba);
    let mut region = StreamSlice::new(&mut img, start, end).unwrap();
    let mut label = [0u8; 11];
    label.copy_from_slice(volume_label(scheme).as_bytes());
    let options = FormatVolumeOptions::new().fat_type(FatType::Fat32).volume_label(label);
    fatfs::format_volume(&mut region, options).unwrap();
    {
        let fs = FileSystem::new(region, FsOptions::new()).unwrap();
        for item in copy_tree(staging) {
            match item {
                Item::Dir { path } => {
                    fs.root_dir().create_dir(&path).unwrap();
                }
                Item::File { path, data, .. } => {
                    fs.root_dir().create_file(&path).unwrap().write_all(data).unwrap();
                }
                Item::Link { .. } => panic!("FAT has no links"),
            }
        }
    }
    Ok(img)
}

#[derive(Default)]
struct Work {
    artifacts: Vec<Artifact>,
    fetched: String,
    modules: Vec<String>,
    kernel: Vec<u8>,
    initramfs: Vec<u8>,
    image: Option<Cursor<Vec<u8>>>,
}

fn put(files: &mut Files, work: &Work, placements: &[Placement]) {
    for p in placements {
        let data = match p.part {
            Part::Kernel => work.kernel.clone(),
            Part::Initramfs => work.initramfs.clone(),
            Part::Config => files["/config.yaml"].clone(),
        };
        files.insert(p.path.clone(), data);
    }
}

fn perform(f: &mut Fixture, work: &mut Work, task: Task) -> Result<Outcome, String> {
    match task {
        Task::CheckConfig | Task::MakeScratch | Task::Done | Task::Fail => {}
        Task::CheckPki => stage(&mut f.files, &check_pki("/pki"))?,
        Task::LoadManifest => {
            work.artifacts =
                artifacts_for(&f.manifest, "x86_64").map_err(|e| e.to_string())?.to_vec();
            return Ok(Outcome::Listed { count: work.artifacts.len() });
        }
        Task::Fetch { index } => {
            let a = &work.artifacts[index];
            work.fetched = fetch(&f.fetcher, &a.url, &a.sha256, &mut f.files)?;
        }
        Task::Place { index } => place(&mut f.files, &work.artifacts[index], &work.fetched)?,
        Task::FindKernel => {
            let names: Vec<String> = tree(&f.files, "/rootfs/lib/modules")
                .into_iter()
                .map(|e| e.name)
                .collect();
            let kver =
                find_kver("/rootfs/lib/modules", &names).map_err(|e| e.to_string())?;
            assert_eq!(kver, KVER);
            let dep = &f.files[&format!("/rootfs/lib/modules/{kver}/modules.dep")];
            let dep = String::from_utf8(dep.clone()).unwrap();
            let cfg = arch_config("x86_64").unwrap();
            work.modules =
                resolve_closure(&dep, cfg.module_roots).map_err(|e| e.to_string())?;
            work.kernel = f.files[&format!("/rootfs/{}", cfg.kernel_path)].clone();
        }
        Task::Prune => {
            let modules = tree(&f.files, &format!("/rootfs/lib/modules/{KVER}"));
            let boot = f.files.keys().any(|p| p.starts_with("/rootfs/boot/"));
            for removal in prune_for_initramfs(boot, KVER, &modules, &work.modules) {
                match removal {
                    Removal::File { path } => {
                        f.files.remove(&format!("/rootfs/{path}")).unwrap();
                    }
                    Removal::Dir { path } => {
                        let inside = format!("/rootfs/{path}/");
                        assert!(!f.files.keys().any(|p| p.starts_with(&inside)));
                    }
                    Removal::Tree { path } => {
                        let inside = format!("/rootfs/{path}/");
                        f.files.retain(|p, _| !p.starts_with(&inside));
                    }
                }
            }
        }
        Task::MakeInitramfs => {
            let rootfs = tree(&f.files, "/rootfs");
            let program = f.files["/machined"].clone();
            work.initramfs = build_initramfs(&rootfs, &program, &work.modules, KVER, "image-1")
                .map_err(|e| e.to_string())?;
        }
        Task::StageFiles => put(&mut f.files, work, &stage_files("/staging")),
        Task::StagePki => stage(&mut f.files, &stage_pki("/pki", "/staging"))?,
        Task::WriteImage => {
            work.image = Some(image(600 * 1024 * 1024, &tree(&f.files, "/staging"))?);
        }
        Task::EmitBoot => put(&mut f.files, work, &emit_boot("/boot")),
    }
    Ok(Outcome::Finished)
}

fn build(f: &mut Fixture, pki: bool, emit: bool) -> Result<Work, (String, Work)> {
    let mut run = BuildRun::start(pki, emit);
    let mut work = Work::default();
    while run.task() != Task::Done {
        match perform(f, &mut work, run.task()) {
            Ok(outcome) => {
                run.step(outcome);
            }
            Err(e) => {
                assert_eq!(run.step(Outcome::Failed), Task::Fail);
                return Err((e, work));
            }
        }
    }
    Ok(work)
}

#[test]
fn happy_path_builds_image_with_all_boot_files() {
    let mut f = fixture(None);
    let work = build(&mut f, true, true).ok().unwrap();
    let mut img = work.image.expect("image must exist");
    let disk = gpt::GptConfig::new().writable(false).open_from_device(Box::new(&mut img)).unwrap();
    let parts = disk.partitions().clone();
    drop(disk);
    assert_eq!(parts.len(), 1, "exactly one (EFI) partition");
    let p = parts.values().next().unwrap();
    assert_eq!(p.name, "EFI");
    assert_eq!(p.part_type_guid, gpt::partition_types::EFI);
    let (start, end) = (p.first_lba * 512, (p.last_lba + 1) * 512);
    let fs =
        FileSystem::new(StreamSlice::new(img, start, end).unwrap(), FsOptions::new()).unwrap();
    let read = |path: &str| {
        let mut buf = Vec::new();
        fs.root_dir().open_file(path).unwrap().read_to_end(&mut buf).unwrap();
        buf
    };
    let names: Vec<String> = fs.root_dir().iter().map(|e| e.unwrap().file_name()).collect();
    for want in ["vmlinuz", "initramfs.img", "config.yaml", "pki"] {
        assert!(names.contains(&want.to_string()), "FAT root missing {want}: {names:?}");
    }
    assert_eq!(read("vmlinuz"), b"KERNEL");
    assert_eq!(read("config.yaml"), b"machine: {}\n");
    for f4 in PKI_FILES {
        assert!(!read(&format!("pki/{f4}")).is_empty(), "pki file {f4} empty");
    }
    let bin_names: Vec<String> = fs
        .root_dir()
        .open_dir("bin")
        .expect("bin dir on FAT")
        .iter()
        .map(|e| e.unwrap().file_name())
        .collect();
    assert!(bin_names.contains(&"containerd".to_string()), "{bin_names:?}");
    assert!(bin_names.contains(&"runc".to_string()), "{bin_names:?}");
    assert!(
        !bin_names.contains(&"LICENSE".to_string()),
        "non-bin tarball entries must be skipped: {bin_names:?}"
    );
    assert_eq!(read("bin/containerd"), b"ELF-c");
    assert_eq!(read("bin/runc"), b"ELF-runc");

    let mut initrd = Vec::new();
    GzDecoder::new(&read("initramfs.img")[..]).read_to_end(&mut initrd).unwrap();
    let cpio = String::from_utf8_lossy(&initrd);
    assert!(cpio.contains("init\0"), "init present");
    assert!(cpio.contains("etc/machined/modules.load"), "modules.load present");
    assert!(cpio.contains("sbin/mkfs.ext4"), "mkfs.ext4 from e2fsprogs present");
    assert!(!cpio.contains("boot/vmlinuz-virt"), "kernel must be pruned from initramfs");
    assert!(!cpio.contains("unused.ko"), "non-closure module must be pruned");
    assert!(cpio.contains("ext4.ko"), "closure module ext4 present");

    assert_eq!(f.files["/boot/vmlinuz"], read("vmlinuz"));
    assert_eq!(f.files["/boot/initramfs.img"], read("initramfs.img"));
}

#[test]
fn checksum_mismatch_aborts() {
    let wrong = "00".repeat(32);
    let mut f = fixture(Some(&wrong));
    let (err, work) = build(&mut f, false, false).err().unwrap();
    assert!(err.contains("sha256 mismatch"), "checksum mismatch must propagate: {err}");
    assert!(work.image.is_none(), "no image on checksum mismatch");
}

#[test]
fn a_missing_pki_file_fails_before_anything_is_fetched() {
    let mut f = fixture(None);
    f.files.remove("/pki/server.pem");
    let (err, _) = build(&mut f, true, false).err().unwrap();
    assert_eq!(err, "PKI file missing: /pki/server.pem");
    assert!(!f.files.keys().any(|p| p.starts_with("/cache/")));
}
