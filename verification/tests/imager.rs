use machined::imager::arch::{arch_config, PartScheme};
use machined::imager::cpio::CpioWriter;
use machined::imager::modules::{module_name, resolve_closure, strip_gz, VIRT_MODULES};

#[test]
fn virt_arches_share_gpt_and_virt_modules() {
    for a in ["x86_64", "aarch64"] {
        let c = arch_config(a).unwrap();
        assert_eq!(c.kernel_path, "boot/vmlinuz-virt");
        assert_eq!(c.scheme, PartScheme::Gpt);
        assert!(!c.rpi_firmware);
        assert!(!c.module_roots.is_empty());
    }
}

#[test]
fn rpi_uses_rpi_kernel_mbr_empty_modules_firmware() {
    let c = arch_config("aarch64-rpi").unwrap();
    assert_eq!(c.kernel_path, "boot/vmlinuz-rpi");
    assert_eq!(c.scheme, PartScheme::Mbr);
    assert!(c.rpi_firmware);
    assert!(c.module_roots.is_empty(), "Pi SD/FS drivers are builtin");
}

#[test]
fn mbr_test_arch_uses_virt_kernel_with_mbr_scheme() {
    let c = arch_config("aarch64-mbr").unwrap();
    assert_eq!(c.kernel_path, "boot/vmlinuz-virt");
    assert_eq!(c.scheme, PartScheme::Mbr);
    assert!(!c.rpi_firmware);
    assert_eq!(c.module_roots, VIRT_MODULES);
}

#[test]
fn unknown_arch_is_none() {
    assert!(arch_config("riscv").is_none());
}

fn field(archive: &[u8], entry_off: usize, n: usize) -> u32 {
    let s = std::str::from_utf8(&archive[entry_off + 6 + n * 8..entry_off + 6 + (n + 1) * 8])
        .unwrap();
    u32::from_str_radix(s, 16).unwrap()
}

#[test]
fn writes_parseable_newc_with_device_node_and_trailer() {
    let mut w = CpioWriter::new();
    w.dir("dev", 0o755);
    w.char_device("dev/console", 0o600, 5, 1);
    w.file("init", 0o755, b"#!ELF");
    let bytes = w.finish();
    assert_eq!(&bytes[0..6], b"070701", "newc magic");
    let text = String::from_utf8_lossy(&bytes);
    assert!(text.contains("dev/console"));
    assert!(text.contains("TRAILER!!!"));
    assert_eq!(bytes.len() % 4, 0, "archive padded to 4");
    assert_eq!(field(&bytes, 0, 1), 0o040755);
}

#[test]
fn file_data_is_embedded_and_padded() {
    let mut w = CpioWriter::new();
    w.file("a", 0o644, b"xyz");
    let bytes = w.finish();
    let pos = bytes.windows(3).position(|w| w == b"xyz").unwrap();
    assert_eq!(pos % 4, 0, "data 4-aligned");
}

#[test]
fn symlink_entry_has_symlink_mode_and_target_data() {
    let mut w = CpioWriter::new();
    w.symlink("sbin/mkfs.ext4", "mke2fs");
    let bytes = w.finish();
    assert_eq!(field(&bytes, 0, 1), 0o120777);
    let pos = bytes.windows(b"mke2fs".len()).position(|win| win == b"mke2fs").unwrap();
    assert_eq!(pos % 4, 0, "target data 4-aligned");
}

#[test]
fn an_archive_is_written_byte_for_byte() {
    let mut w = CpioWriter::new();
    w.file("a", 0o644, b"xyz");
    let bytes = w.finish();
    let first = concat_text(&[
        "070701", "00000001", "000081A4", "00000000", "00000000", "00000001", "00000000",
        "00000003", "00000000", "00000000", "00000000", "00000000", "00000002", "00000000",
        "a\0", "xyz\0",
    ]);
    assert_eq!(&bytes[..first.len()], first.as_bytes());
    assert_eq!(field(&bytes, 116, 0), 2, "the trailer has the next inode number");
}

fn concat_text(parts: &[&str]) -> String {
    parts.concat()
}

const DEP: &str = "\
kernel/drivers/block/virtio_blk.ko.gz: kernel/drivers/virtio/virtio.ko.gz
kernel/drivers/virtio/virtio.ko.gz:
kernel/fs/ext4/ext4.ko.gz: kernel/fs/jbd2/jbd2.ko.gz kernel/lib/crc16.ko.gz
kernel/fs/jbd2/jbd2.ko.gz:
kernel/lib/crc16.ko.gz:
kernel/fs/fat/vfat.ko.gz: kernel/fs/fat/fat.ko.gz
kernel/fs/fat/fat.ko.gz:
";

#[test]
fn closure_is_dep_ordered_and_deduped() {
    let order = resolve_closure(DEP, &["virtio_blk", "ext4"]).unwrap();
    let pos = |n: &str| order.iter().position(|p| p.ends_with(&format!("/{n}.ko"))).unwrap();
    assert!(pos("virtio") < pos("virtio_blk"));
    assert!(pos("jbd2") < pos("ext4"));
    assert!(pos("crc16") < pos("ext4"));
    assert_eq!(order.len(), 5, "no duplicates, nothing extra: {order:?}");
    assert!(order.iter().all(|p| p.ends_with(".ko")), "gz suffix stripped");
}

#[test]
fn shared_dep_across_roots_appears_exactly_once() {
    let diamond = "\
kernel/fs/ext4/ext4.ko.gz: kernel/lib/crc32c.ko.gz
kernel/fs/xfs/xfs.ko.gz: kernel/lib/crc32c.ko.gz
kernel/lib/crc32c.ko.gz:
";
    let order = resolve_closure(diamond, &["ext4", "xfs"]).unwrap();
    let occurrences = order.iter().filter(|p| p.ends_with("/crc32c.ko")).count();
    assert_eq!(occurrences, 1, "shared dep emitted exactly once: {order:?}");
    let pos = |n: &str| order.iter().position(|p| p.ends_with(&format!("/{n}.ko"))).unwrap();
    assert!(pos("crc32c") < pos("ext4"));
    assert!(pos("crc32c") < pos("xfs"));
    assert_eq!(order.len(), 3, "{order:?}");
}

#[test]
fn empty_roots_yields_no_modules() {
    let order = resolve_closure(DEP, &[]).unwrap();
    assert!(order.is_empty(), "empty roots resolve to no modules: {order:?}");
}

#[test]
fn unknown_module_is_an_error() {
    let err = resolve_closure(DEP, &["nvme"]).unwrap_err();
    assert!(err.to_string().contains("nvme"), "{err:?}");
}

#[test]
fn a_cycle_of_modules_ends() {
    let cycle = "a.ko: b.ko\nb.ko: a.ko\n";
    let order = resolve_closure(cycle, &["a"]).unwrap();
    assert_eq!(order, vec!["b.ko".to_string(), "a.ko".to_string()]);
}

#[test]
fn module_names_are_canonical() {
    assert_eq!(strip_gz("kernel/a.ko.gz"), "kernel/a.ko");
    assert_eq!(strip_gz("kernel/a.ko"), "kernel/a.ko");
    assert_eq!(module_name("kernel/drivers/virtio-blk.ko"), "virtio_blk");
}
