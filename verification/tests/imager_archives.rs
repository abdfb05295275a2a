use flate2::write::GzEncoder;
use flate2::Compression;
use machined::imager::apk::{classify, extract_apk, plan_extraction, Kind, Plan, Step};
use machined::imager::boot::{
    copy_boot_binary, copy_oci_image, extract_boot_tarball, guard_contained, staged_path,
};
use machined::imager::cni::{extract_cni_plugins, staged_name};
use machined::imager::codec::{TarEntry, TarRead};
use machined::imager::stage::Act;
use std::collections::BTreeMap;
use std::io::{Read, Write};

fn gzip(bytes: &[u8]) -> Vec<u8> {
    let mut e = GzEncoder::new(Vec::new(), Compression::default());
    e.write_all(bytes).unwrap();
    e.finish().unwrap()
}

fn append(b: &mut tar::Builder<&mut Vec<u8>>, name: &str, mode: u32, data: &[u8]) {
    let mut h = tar::Header::new_gnu();
    h.set_size(data.len() as u64);
    h.set_mode(mode);
    h.set_cksum();
    b.append_data(&mut h, name, data).unwrap();
}

fn synthetic_apk() -> Vec<u8> {
    let mut tar_bytes = Vec::new();
    {
        let mut b = tar::Builder::new(&mut tar_bytes);
        append(&mut b, ".PKGINFO", 0o644, b"meta");
        let mut hd = tar::Header::new_gnu();
        hd.set_size(0);
        hd.set_entry_type(tar::EntryType::Directory);
        hd.set_mode(0o755);
        hd.set_cksum();
        b.append_data(&mut hd, "sbin/", &b""[..]).unwrap();
        append(&mut b, "sbin/mkfs.ext4", 0o755, b"\x7fELF!");
        let ko = gzip(b"module-bytes");
        append(&mut b, "lib/modules/6.12.81-0-virt/kernel/fs/ext4/ext4.ko.gz", 0o644, &ko);
        b.finish().unwrap();
    }
    gzip(&tar_bytes)
}

/// Files by path, with their permissions; a link holds its target.
type Files = BTreeMap<Vec<u8>, (u32, Vec<u8>)>;

fn perform(apk: &[u8], plan: &Plan) -> Files {
    let mut files = Files::new();
    for step in &plan.steps {
        match step {
            Step::MakeParent { .. } => {}
            Step::Write { target, data, mode } => {
                files.insert(target.clone(), (*mode, data.clone()));
            }
            Step::Unpack { index } => {
                let gz = flate2::read::MultiGzDecoder::new(apk);
                let mut archive = tar::Archive::new(gz);
                let mut entry = archive.entries().unwrap().nth(*index).unwrap().unwrap();
                let mode = entry.header().mode().unwrap();
                let path = entry.path_bytes().into_owned();
                let mut data = Vec::new();
                if entry.header().entry_type().is_symlink() {
                    data = entry.link_name_bytes().unwrap().into_owned();
                } else {
                    entry.read_to_end(&mut data).unwrap();
                }
                files.insert(path, (mode, data));
            }
        }
    }
    files
}

#[test]
fn extracts_payload_skips_metadata_decompresses_ko_gz() {
    let apk = synthetic_apk();
    let plan = extract_apk(&apk);
    assert!(plan.error.is_none());
    let root = perform(&apk, &plan);
    assert!(!root.contains_key(&b".PKGINFO"[..]), "metadata must be skipped");
    let mkfs = &root[&b"sbin/mkfs.ext4"[..]];
    assert_eq!(mkfs.1, b"\x7fELF!");
    let ko = &root[&b"lib/modules/6.12.81-0-virt/kernel/fs/ext4/ext4.ko"[..]];
    assert_eq!(ko.1, b"module-bytes");
    assert_eq!(mkfs.0 & 0o777, 0o755, "exec bit must survive");
    assert_eq!(ko.0 & 0o777, 0o644, "module mode must not be umask-dependent");
}

fn malicious_apk(name: &[u8]) -> Vec<u8> {
    let ko = gzip(b"evil");
    let mut tar_bytes = Vec::new();
    {
        let mut b = tar::Builder::new(&mut tar_bytes);
        let mut h = tar::Header::new_gnu();
        h.as_old_mut().name[..name.len()].copy_from_slice(name);
        h.set_size(ko.len() as u64);
        h.set_mode(0o644);
        h.set_cksum();
        b.append(&h, &ko[..]).unwrap();
        b.finish().unwrap();
    }
    gzip(&tar_bytes)
}

#[test]
fn rejects_parent_traversal_in_ko_gz_entry() {
    let plan = extract_apk(&malicious_apk(b"../evil.ko.gz"));
    let err = plan.error.unwrap();
    assert!(err.to_string().contains("escapes rootfs"), "{err:?}");
    assert_eq!(err.to_string(), "apk entry escapes rootfs: ../evil.ko.gz");
    assert!(plan.steps.is_empty(), "must not write outside rootfs");
}

#[test]
fn rejects_absolute_path_in_ko_gz_entry() {
    let plan = extract_apk(&malicious_apk(b"/abs/evil.ko.gz"));
    let err = plan.error.unwrap();
    assert!(err.to_string().contains("escapes rootfs"), "{err:?}");
    assert!(plan.steps.is_empty());
}

#[test]
fn reproduces_symlinks() {
    let mut tar_bytes = Vec::new();
    {
        let mut b = tar::Builder::new(&mut tar_bytes);
        append(&mut b, "sbin/mke2fs", 0o755, b"\x7fELF!");
        let mut hl = tar::Header::new_gnu();
        hl.set_size(0);
        hl.set_entry_type(tar::EntryType::Symlink);
        hl.set_mode(0o777);
        hl.set_link_name("mke2fs").unwrap();
        hl.set_cksum();
        b.append_data(&mut hl, "sbin/mkfs.ext4", &b""[..]).unwrap();
        b.finish().unwrap();
    }
    let apk = gzip(&tar_bytes);
    let plan = extract_apk(&apk);
    assert!(plan.error.is_none());
    assert!(matches!(plan.steps[1], Step::Unpack { index: 1 }), "unpacked as it is, not copied");
    let root = perform(&apk, &plan);
    assert_eq!(root[&b"sbin/mkfs.ext4"[..]].1, b"mke2fs");
}

#[test]
fn a_package_of_several_streams_reads_as_one() {
    let whole = synthetic_apk();
    let mut head = Vec::new();
    {
        let mut b = tar::Builder::new(&mut head);
        append(&mut b, ".SIGN.RSA", 0o644, b"sig");
        b.into_inner().unwrap();
    }
    head.truncate(1024);
    let mut apk = gzip(&head);
    apk.extend_from_slice(&whole);
    let plan = extract_apk(&apk);
    assert!(plan.error.is_none());
    assert!(perform(&apk, &plan).contains_key(&b"sbin/mkfs.ext4"[..]));
}

#[test]
fn a_broken_package_is_an_error() {
    let plan = extract_apk(b"not gzip at all");
    assert!(plan.error.is_some());
    assert!(plan.steps.is_empty());
    let mut tar_bytes = Vec::new();
    {
        let mut b = tar::Builder::new(&mut tar_bytes);
        append(&mut b, "lib/a.ko.gz", 0o644, b"not gzip");
        b.finish().unwrap();
    }
    let plan = extract_apk(&gzip(&tar_bytes));
    assert_eq!(plan.error.unwrap().to_string(), "decompressing module lib/a.ko.gz");
}

#[test]
fn entries_are_told_apart_by_their_paths() {
    assert_eq!(classify(&b"".to_vec()), Kind::Skip);
    assert_eq!(classify(&b".PKGINFO".to_vec()), Kind::Skip);
    assert_eq!(classify(&b"../x".to_vec()), Kind::Escape);
    assert_eq!(classify(&b"a/../x".to_vec()), Kind::Escape);
    assert_eq!(classify(&b"a/..".to_vec()), Kind::Escape);
    assert_eq!(classify(&b"./x".to_vec()), Kind::Escape);
    assert_eq!(classify(&b"/x".to_vec()), Kind::Escape);
    assert_eq!(classify(&b"a/..b".to_vec()), Kind::Payload);
    assert_eq!(classify(&b"a/./b".to_vec()), Kind::Payload);
    assert_eq!(classify(&b"a/b.ko.gz".to_vec()), Kind::Module);
    assert_eq!(classify(&b"a/b.ko".to_vec()), Kind::Payload);
}

#[test]
fn what_stands_before_a_refused_entry_is_still_done() {
    let entry = |path: &str| TarEntry {
        path: path.as_bytes().to_vec(),
        is_file: true,
        data: vec![],
        whole: true,
    };
    let read = TarRead {
        entries: vec![entry("bin/a"), entry("../b"), entry("bin/c")],
        error: None,
    };
    let plan = plan_extraction(&read, &vec![None, None, None]);
    assert_eq!(plan.steps.len(), 1);
    assert!(matches!(plan.steps[0], Step::Unpack { index: 0 }));
    assert_eq!(plan.error.unwrap().to_string(), "apk entry escapes rootfs: ../b");
}

fn tar_with(entries: &[(&str, &[u8])]) -> Vec<u8> {
    let mut buf = Vec::new();
    {
        let mut b = tar::Builder::new(&mut buf);
        for (name, data) in entries {
            append(&mut b, name, 0o644, data);
        }
        b.finish().unwrap();
    }
    buf
}

#[test]
fn boot_tarball_stages_bin_entries_executable() {
    let tgz = gzip(&tar_with(&[
        ("bin/containerd", b"\x7fELF-c"),
        ("bin/containerd-shim-runc-v2", b"\x7fELF-s"),
        ("bin/ctr", b"\x7fELF-x"),
        ("LICENSE", b"license"),
    ]));
    let plan = extract_boot_tarball(&tgz);
    assert!(plan.error.is_none());
    let staging_bin = perform(&tgz, &plan);
    assert_eq!(staging_bin[&b"containerd"[..]].1, b"\x7fELF-c");
    assert_eq!(staging_bin[&b"containerd-shim-runc-v2"[..]].1, b"\x7fELF-s");
    assert_eq!(staging_bin[&b"ctr"[..]].1, b"\x7fELF-x");
    assert!(!staging_bin.contains_key(&b"LICENSE"[..]), "non-bin entries skipped");
    assert_eq!(staging_bin[&b"containerd"[..]].0 & 0o777, 0o755, "must be executable");
}

#[test]
fn boot_tarball_rejects_path_escape() {
    let mut raw = Vec::new();
    {
        let mut b = tar::Builder::new(&mut raw);
        let mut h = tar::Header::new_gnu();
        let name = b"bin/../../etc/evil";
        h.as_old_mut().name[..name.len()].copy_from_slice(name);
        h.set_size(3);
        h.set_mode(0o755);
        h.set_cksum();
        b.append(&h, &b"bad"[..]).unwrap();
        b.finish().unwrap();
    }
    let plan = extract_boot_tarball(&gzip(&raw));
    let err = plan.error.unwrap();
    assert!(err.to_string().contains("escapes"), "{err:?}");
    assert!(plan.steps.is_empty());
}

#[test]
fn boot_binary_copies_with_rename_executable() {
    let steps = copy_boot_binary("/cache/runc.amd64", "/staging/bin", "runc");
    let acts: Vec<&Act> = steps.iter().map(|s| &s.act).collect();
    assert_eq!(
        acts,
        vec![
            &Act::MakeDir { path: "/staging/bin".into() },
            &Act::Copy { from: "/cache/runc.amd64".into(), to: "/staging/bin/runc".into() },
            &Act::MakeExecutable { path: "/staging/bin/runc".into() },
        ]
    );
    assert_eq!(steps[1].message, "copy /cache/runc.amd64 -> /staging/bin/runc");
    assert_eq!(steps[2].message, "chmod 0755 /staging/bin/runc");
}

#[test]
fn only_files_below_bin_are_staged() {
    assert_eq!(staged_path(&b"bin/a".to_vec(), true), Some(b"a".to_vec()));
    assert_eq!(staged_path(&b"bin//b/./c".to_vec(), true), Some(b"b/c".to_vec()));
    assert_eq!(staged_path(&b"bin/".to_vec(), true), None);
    assert_eq!(staged_path(&b"bin/a".to_vec(), false), None);
    assert_eq!(staged_path(&b"lib/a".to_vec(), true), None);
    assert!(guard_contained(&b"bin/a".to_vec()).is_ok());
    assert_eq!(
        guard_contained(&b"../a".to_vec()).unwrap_err().to_string(),
        "boot-tarball entry escapes staging: ../a"
    );
}

#[test]
fn an_image_archive_is_copied_under_its_name() {
    let steps = copy_oci_image("/cache/abc", "/staging/images", "busybox.tar");
    let acts: Vec<&Act> = steps.iter().map(|s| &s.act).collect();
    assert_eq!(
        acts,
        vec![
            &Act::MakeDir { path: "/staging/images".into() },
            &Act::Copy { from: "/cache/abc".into(), to: "/staging/images/busybox.tar".into() },
        ]
    );
}

#[test]
fn the_needed_network_plugins_are_staged_executable() {
    let mut raw = Vec::new();
    {
        let mut b = tar::Builder::new(&mut raw);
        for (name, data) in [
            (&b"./bridge"[..], &b"br"[..]),
            (&b"./vlan"[..], &b"vl"[..]),
            (&b"host-local"[..], &b"hl"[..]),
            (&b"./loopback"[..], &b"lo"[..]),
            (&b"./sub/bridge"[..], &b"no"[..]),
        ] {
            let mut h = tar::Header::new_gnu();
            h.as_old_mut().name[..name.len()].copy_from_slice(name);
            h.set_size(data.len() as u64);
            h.set_mode(0o644);
            h.set_cksum();
            b.append(&h, data).unwrap();
        }
        b.finish().unwrap();
    }
    let tgz = gzip(&raw);
    let plan = extract_cni_plugins(&tgz);
    assert!(plan.error.is_none());
    let staged = perform(&tgz, &plan);
    assert_eq!(staged.len(), 3);
    assert_eq!(staged[&b"bridge"[..]], (0o755, b"br".to_vec()));
    assert_eq!(staged[&b"host-local"[..]], (0o755, b"hl".to_vec()));
    assert_eq!(staged[&b"loopback"[..]], (0o755, b"lo".to_vec()));
    assert_eq!(staged_name(&b"./".to_vec(), true), None);
    assert_eq!(staged_name(&b"bridge".to_vec(), false), None);

    let plan = extract_cni_plugins(&malicious_apk(b"./../bridge"));
    assert_eq!(
        plan.error.unwrap().to_string(),
        "cni-plugins entry escapes staging: ./../bridge"
    );
    assert!(plan.steps.is_empty());
}

#[test]
fn nothing_is_staged_of_a_content_that_breaks_off() {
    let mut noise: Vec<u8> = Vec::new();
    let mut x: u32 = 1;
    for _ in 0..200_000 {
        x = x.wrapping_mul(1664525).wrapping_add(1013904223);
        noise.push((x >> 24) as u8);
    }
    let mut tgz = gzip(&tar_with(&[("bin/a", b"whole"), ("bin/b", &noise)]));
    tgz.truncate(tgz.len() / 2);
    let plan = extract_boot_tarball(&tgz);
    assert!(plan.error.is_some());
    let staged = perform(&tgz, &plan);
    assert_eq!(staged.len(), 1);
    assert_eq!(staged[&b"a"[..]].1, b"whole");
}
