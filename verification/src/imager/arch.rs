//! Per-architecture image parameters. `x86_64` and `aarch64` (virtio machines)
//! share the kernel, the modules and a GPT; `aarch64-rpi` (Raspberry Pi 3)
//! has its own kernel, no initramfs modules, an MBR (the Pi's boot ROM reads no
//! GPT) and the Pi's firmware on its FAT. `aarch64-mbr` is the virtio kernel on
//! an MBR disk: it exercises the Pi's boot path under emulation.

use crate::imager::modules::{PI_MODULES, VIRT_MODULES};
use crate::text::same;
use vstd::prelude::*;

verus! {

/// Partition table scheme of an image.
#[derive(Clone, Copy, Debug, PartialEq, Eq, Structural)]
pub enum PartScheme {
    /// GPT with a protective MBR and one FAT32 partition labelled as EFI.
    Gpt,
    /// One FAT32 primary partition in a classic MBR.
    Mbr,
}

/// Build parameters of one architecture.
#[derive(Clone, Copy, Debug)]
pub struct ArchConfig {
    /// Kernel image path inside the extracted root filesystem.
    pub kernel_path: &'static str,
    /// Names of the modules that the initramfs needs; none at all is fine.
    pub module_roots: &'static [&'static str],
    /// Partition table scheme.
    pub scheme: PartScheme,
    /// Whether Raspberry Pi firmware is staged on the boot partition.
    pub rpi_firmware: bool,
}

/// What a configuration amounts to.
#[verifier::ext_equal]
pub struct ArchView {
    pub kernel_path: Seq<char>,
    pub module_roots: Seq<Seq<char>>,
    pub scheme: PartScheme,
    pub rpi_firmware: bool,
}

impl View for ArchConfig {
    type V = ArchView;

    open spec fn view(&self) -> ArchView {
        ArchView {
            kernel_path: self.kernel_path@,
            module_roots: crate::text::str_texts(self.module_roots@),
            scheme: self.scheme,
            rpi_firmware: self.rpi_firmware,
        }
    }
}

/// The parameters of each known architecture.
pub open spec fn config_of(arch: Seq<char>) -> Option<ArchView> {
    let virt = crate::text::str_texts(VIRT_MODULES@);
    if arch == "x86_64"@ || arch == "aarch64"@ {
        Some(
            ArchView {
                kernel_path: "boot/vmlinuz-virt"@,
                module_roots: virt,
                scheme: PartScheme::Gpt,
                rpi_firmware: false,
            },
        )
    } else if arch == "aarch64-rpi"@ {
        Some(
            ArchView {
                kernel_path: "boot/vmlinuz-rpi"@,
                module_roots: Seq::empty(),
                scheme: PartScheme::Mbr,
                rpi_firmware: true,
            },
        )
    } else if arch == "aarch64-mbr"@ {
        Some(
            ArchView {
                kernel_path: "boot/vmlinuz-virt"@,
                module_roots: virt,
                scheme: PartScheme::Mbr,
                rpi_firmware: false,
            },
        )
    } else {
        None
    }
}

/// The build parameters of `arch`, or `None` where it is not known.
pub fn arch_config(arch: &str) -> (r: Option<ArchConfig>)
    ensures
        r is Some == config_of(arch@) is Some,
        r matches Some(c) ==> config_of(arch@) == Some(c@),
{
    if same(arch, "x86_64") || same(arch, "aarch64") {
        Some(
            ArchConfig {
                kernel_path: "boot/vmlinuz-virt",
                module_roots: &VIRT_MODULES,
                scheme: PartScheme::Gpt,
                rpi_firmware: false,
            },
        )
    } else if same(arch, "aarch64-rpi") {
        let c = ArchConfig {
            kernel_path: "boot/vmlinuz-rpi",
            module_roots: &PI_MODULES,
            scheme: PartScheme::Mbr,
            rpi_firmware: true,
        };
        assert(c@.module_roots =~= Seq::empty());
        Some(c)
    } else if same(arch, "aarch64-mbr") {
        Some(
            ArchConfig {
                kernel_path: "boot/vmlinuz-virt",
                module_roots: &VIRT_MODULES,
                scheme: PartScheme::Mbr,
                rpi_firmware: false,
            },
        )
    } else {
        None
    }
}

/// The architectures that images are built for, and no others: all but the Pi
/// boot the same kernel, and the Pi alone has its own firmware. Those with UEFI
/// have a GPT, and the others an MBR.
pub proof fn each_architecture_has_its_way_to_boot(arch: Seq<char>)
    ensures
        config_of(arch) is Some <==> arch == "x86_64"@ || arch == "aarch64"@ || arch
            == "aarch64-rpi"@ || arch == "aarch64-mbr"@,
        config_of(arch) matches Some(c) ==> {
            &&& c.rpi_firmware <==> arch == "aarch64-rpi"@
            &&& c.scheme is Gpt <==> arch == "x86_64"@ || arch == "aarch64"@
            &&& c.kernel_path == if arch == "aarch64-rpi"@ {
                "boot/vmlinuz-rpi"@
            } else {
                "boot/vmlinuz-virt"@
            }
            &&& arch == "aarch64-rpi"@ <==> c.module_roots.len() == 0
        },
{
    reveal_strlit("x86_64");
    reveal_strlit("aarch64");
    reveal_strlit("aarch64-rpi");
    reveal_strlit("aarch64-mbr");
    assert("x86_64"@.len() == 6 && "aarch64"@.len() == 7);
    assert("aarch64-rpi"@.len() == 11 && "aarch64-mbr"@.len() == 11);
    assert("aarch64-rpi"@[8] == 'r' && "aarch64-mbr"@[8] == 'm');
}

/// A virtio machine can reach its disk and its network and mount what it is
/// provisioned with: the modules for that are among those that are loaded.
pub proof fn a_virtio_machine_has_its_modules(arch: Seq<char>, name: Seq<char>)
    requires
        arch == "x86_64"@ || arch == "aarch64"@ || arch == "aarch64-mbr"@,
        name == "virtio_blk"@ || name == "virtio_net"@ || name == "ext4"@ || name == "vfat"@ || name
            == "nls_cp437"@ || name == "nls_iso8859_1"@ || name == "nls_utf8"@,
    ensures
        config_of(arch) matches Some(c) && c.module_roots.contains(name),
{
    each_architecture_has_its_way_to_boot(arch);
    reveal_strlit("aarch64-rpi");
    reveal_strlit("aarch64-mbr");
    reveal_strlit("x86_64");
    reveal_strlit("aarch64");
    assert("aarch64-rpi"@[8] == 'r' && "aarch64-mbr"@[8] == 'm');
    assert("x86_64"@.len() == 6 && "aarch64"@.len() == 7 && "aarch64-rpi"@.len() == 11);
    let roots = crate::text::str_texts(VIRT_MODULES@);
    assert(config_of(arch)->0.module_roots == roots);
    assert(roots[0] == "virtio_blk"@ && roots[1] == "virtio_net"@ && roots[2] == "ext4"@ && roots[3]
        == "vfat"@ && roots[4] == "nls_cp437"@ && roots[5] == "nls_iso8859_1"@ && roots[6]
        == "nls_utf8"@);
}

} // verus!
