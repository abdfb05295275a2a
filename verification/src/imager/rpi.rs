//! The boot partition of a Raspberry Pi: firmware, device tree and overlays out
//! of the root filesystem, and the configuration that the firmware reads.

use crate::imager::stage::{push_step, Act, Step};
use crate::paths::join;
use crate::text::joined;
use vstd::prelude::*;
use vstd::string::*;

verus! {

/// The firmware that a Pi 3 needs.
pub const PI3_BLOBS: [&'static str; 3] = ["bootcode.bin", "start.elf", "fixup.dat"];

/// The device tree of the Pi 3A+.
pub const PI3_DTB: &'static str = "bcm2837-rpi-3-a-plus.dtb";

/// The overlay that puts the serial console on the header.
pub const PI3_OVERLAY: &'static str = "disable-bt.dtbo";

/// `config.txt`, which the firmware reads first: a 64-bit kernel and its
/// initramfs out of slot A.
pub const CONFIG_TXT: &'static str =
    "arm_64bit=1\nos_prefix=A/\nkernel=vmlinuz\ninitramfs initramfs.img followkernel\ngpu_mem=16\nenable_uart=1\ndtoverlay=disable-bt\ndevice_tree=bcm2837-rpi-3-a-plus.dtb\n";

/// `config.txt`.
pub fn config_txt() -> (r: &'static str)
    ensures
        r@ == CONFIG_TXT@,
{
    CONFIG_TXT
}

/// The kernel's command line in slot `slot`.
pub open spec fn cmdline(slot: Seq<char>) -> Seq<char> {
    "console=serial0,115200 console=tty1 machined.slot="@ + slot + "\n"@
}

/// `cmdline.txt` of a slot: the consoles, and which slot it is.
pub fn cmdline_txt_for(slot: &str) -> (r: String)
    ensures
        r@ == cmdline(slot@),
{
    let mut out = joined("console=serial0,115200 console=tty1 machined.slot=", slot);
    out.append("\n");
    out
}

/// The steps for one file of the firmware, found in `boot`.
pub open spec fn blob_steps(
    boot: Seq<char>,
    staging: Seq<char>,
    f: Seq<char>,
) -> Seq<crate::imager::stage::StepView> {
    let src = crate::paths::below(boot, f);
    seq![
        crate::imager::stage::step(
            crate::imager::stage::ActView::Require { path: src },
            "Pi firmware blob "@ + f + " missing (raspberrypi-bootloader apks)"@,
        ),
        crate::imager::stage::step(
            crate::imager::stage::ActView::Copy {
                from: src,
                to: crate::paths::below(staging, f),
            },
            "stage "@ + f,
        ),
    ]
}

/// The steps for the slot `id` in the directory `dir`: all that it needs but
/// the kernel and its initramfs.
pub open spec fn slot_steps(
    boot: Seq<char>,
    staging: Seq<char>,
    dir: Seq<char>,
    id: Seq<char>,
) -> Seq<crate::imager::stage::StepView> {
    let slot = crate::paths::below(staging, dir);
    let overlays = crate::paths::below(slot, "overlays"@);
    let src = crate::paths::below(crate::paths::below(boot, "overlays"@), PI3_OVERLAY@);
    seq![
        crate::imager::stage::step(
            crate::imager::stage::ActView::MakeDir { path: overlays },
            "create slot dir "@ + overlays,
        ),
        crate::imager::stage::step(
            crate::imager::stage::ActView::Copy {
                from: crate::paths::below(boot, PI3_DTB@),
                to: crate::paths::below(slot, PI3_DTB@),
            },
            "stage "@ + PI3_DTB@ + " into "@ + dir,
        ),
        crate::imager::stage::step(
            crate::imager::stage::ActView::Require { path: src },
            "Pi overlay "@ + PI3_OVERLAY@ + " missing (linux-rpi apk)"@,
        ),
        crate::imager::stage::step(
            crate::imager::stage::ActView::Copy {
                from: src,
                to: crate::paths::below(overlays, PI3_OVERLAY@),
            },
            "stage overlay "@ + PI3_OVERLAY@ + " into "@ + dir,
        ),
        crate::imager::stage::step(
            crate::imager::stage::ActView::Write {
                to: crate::paths::below(slot, "cmdline.txt"@),
                text: cmdline(id),
            },
            "write "@ + dir + "/cmdline.txt"@,
        ),
    ]
}

/// The steps that stage what the firmware reads.
pub open spec fn firmware_steps(rootfs: Seq<char>, staging: Seq<char>) -> Seq<
    crate::imager::stage::StepView,
> {
    let boot = crate::paths::below(rootfs, "boot"@);
    blob_steps(boot, staging, PI3_BLOBS@[0]@) + blob_steps(boot, staging, PI3_BLOBS@[1]@)
        + blob_steps(boot, staging, PI3_BLOBS@[2]@) + seq![
        crate::imager::stage::step(
            crate::imager::stage::ActView::Write {
                to: crate::paths::below(staging, "config.txt"@),
                text: CONFIG_TXT@,
            },
            "write config.txt"@,
        ),
        crate::imager::stage::step(
            crate::imager::stage::ActView::Require { path: crate::paths::below(boot, PI3_DTB@) },
            "Pi 3A+ DTB "@ + PI3_DTB@ + " missing (linux-rpi apk)"@,
        ),
    ] + slot_steps(boot, staging, "A"@, "a"@) + slot_steps(boot, staging, "B"@, "b"@)
}

fn stage_blob(steps: &mut Vec<Step>, boot: &str, staging: &str, f: &str)
    ensures
        crate::imager::stage::step_views(final(steps)@) == crate::imager::stage::step_views(
            old(steps)@,
        ) + blob_steps(boot@, staging@, f@),
{
    let src = join(boot, f);
    let mut message = joined("Pi firmware blob ", f);
    message.append(" missing (raspberrypi-bootloader apks)");
    push_step(steps, Act::Require { path: src.clone() }, message);
    push_step(steps, Act::Copy { from: src, to: join(staging, f) }, joined("stage ", f));
    assert(crate::imager::stage::step_views(steps@) =~= crate::imager::stage::step_views(
        old(steps)@,
    ) + blob_steps(boot@, staging@, f@));
}

fn stage_slot(steps: &mut Vec<Step>, boot: &str, staging: &str, dir: &str, id: &str)
    ensures
        crate::imager::stage::step_views(final(steps)@) == crate::imager::stage::step_views(
            old(steps)@,
        ) + slot_steps(boot@, staging@, dir@, id@),
{
    let slot = join(staging, dir);
    let overlays = join(slot.as_str(), "overlays");
    let message = joined("create slot dir ", overlays.as_str());
    push_step(steps, Act::MakeDir { path: overlays.clone() }, message);
    let mut message = joined("stage ", PI3_DTB);
    message.append(" into ");
    message.append(dir);
    push_step(
        steps,
        Act::Copy { from: join(boot, PI3_DTB), to: join(slot.as_str(), PI3_DTB) },
        message,
    );
    let src = join(join(boot, "overlays").as_str(), PI3_OVERLAY);
    let mut message = joined("Pi overlay ", PI3_OVERLAY);
    message.append(" missing (linux-rpi apk)");
    push_step(steps, Act::Require { path: src.clone() }, message);
    let mut message = joined("stage overlay ", PI3_OVERLAY);
    message.append(" into ");
    message.append(dir);
    push_step(
        steps,
        Act::Copy { from: src, to: join(overlays.as_str(), PI3_OVERLAY) },
        message,
    );
    let mut message = joined("write ", dir);
    message.append("/cmdline.txt");
    push_step(
        steps,
        Act::Write { to: join(slot.as_str(), "cmdline.txt"), text: cmdline_txt_for(id) },
        message,
    );
    assert(crate::imager::stage::step_views(steps@) =~= crate::imager::stage::step_views(
        old(steps)@,
    ) + slot_steps(boot@, staging@, dir@, id@));
}

/// What is to be done to stage what the firmware reads: the firmware and its
/// configuration at the root, and each slot with its own device tree, overlays
/// and command line.
pub fn stage_pi_firmware(rootfs: &str, staging: &str) -> (r: Vec<Step>)
    ensures
        crate::imager::stage::step_views(r@) == firmware_steps(rootfs@, staging@),
{
    let boot = join(rootfs, "boot");
    let mut steps: Vec<Step> = Vec::new();
    stage_blob(&mut steps, boot.as_str(), staging, PI3_BLOBS[0]);
    stage_blob(&mut steps, boot.as_str(), staging, PI3_BLOBS[1]);
    stage_blob(&mut steps, boot.as_str(), staging, PI3_BLOBS[2]);
    push_step(
        &mut steps,
        Act::Write { to: join(staging, "config.txt"), text: config_txt().to_owned() },
        "write config.txt".to_owned(),
    );
    let mut message = joined("Pi 3A+ DTB ", PI3_DTB);
    message.append(" missing (linux-rpi apk)");
    push_step(&mut steps, Act::Require { path: join(boot.as_str(), PI3_DTB) }, message);
    stage_slot(&mut steps, boot.as_str(), staging, "A", "a");
    stage_slot(&mut steps, boot.as_str(), staging, "B", "b");
    assert(crate::imager::stage::step_views(steps@) =~= firmware_steps(rootfs@, staging@));
    steps
}

/// The step that moves the file `f` of the staging tree into slot A.
pub open spec fn move_step(staging: Seq<char>, f: Seq<char>) -> crate::imager::stage::StepView {
    crate::imager::stage::step(
        crate::imager::stage::ActView::Rename {
            from: crate::paths::below(staging, f),
            to: crate::paths::below(crate::paths::below(staging, "A"@), f),
        },
        "move "@ + f + " into slot A"@,
    )
}

/// The steps that move the kernel and its initramfs into slot A.
pub open spec fn move_steps(staging: Seq<char>) -> Seq<crate::imager::stage::StepView> {
    let a = crate::paths::below(staging, "A"@);
    seq![
        crate::imager::stage::step(crate::imager::stage::ActView::MakeDir { path: a }, "create "@ + a),
        move_step(staging, "vmlinuz"@),
        move_step(staging, "initramfs.img"@),
    ]
}

fn move_file(steps: &mut Vec<Step>, staging: &str, slot: &str, f: &str)
    requires
        slot@ == crate::paths::below(staging@, "A"@),
    ensures
        crate::imager::stage::step_views(final(steps)@) == crate::imager::stage::step_views(
            old(steps)@,
        ).push(move_step(staging@, f@)),
{
    let mut message = joined("move ", f);
    message.append(" into slot A");
    push_step(steps, Act::Rename { from: join(staging, f), to: join(slot, f) }, message);
}

/// What is to be done to move the staged kernel and its initramfs into slot A.
pub fn move_kernel_to_slot_a(staging: &str) -> (r: Vec<Step>)
    ensures
        crate::imager::stage::step_views(r@) == move_steps(staging@),
{
    let a = join(staging, "A");
    let mut steps: Vec<Step> = Vec::new();
    let message = joined("create ", a.as_str());
    push_step(&mut steps, Act::MakeDir { path: a.clone() }, message);
    move_file(&mut steps, staging, a.as_str(), "vmlinuz");
    move_file(&mut steps, staging, a.as_str(), "initramfs.img");
    assert(crate::imager::stage::step_views(steps@) =~= move_steps(staging@));
    steps
}

/// Whether `dir` gets its own device tree, overlay and command line.
pub open spec fn is_complete(
    steps: Seq<crate::imager::stage::StepView>,
    staging: Seq<char>,
    dir: Seq<char>,
    id: Seq<char>,
) -> bool {
    let slot = crate::paths::below(staging, dir);
    &&& exists|i: int|
        0 <= i < steps.len() && (#[trigger] steps[i]).act is Copy && steps[i].act->Copy_to
            == crate::paths::below(slot, PI3_DTB@)
    &&& exists|i: int|
        0 <= i < steps.len() && (#[trigger] steps[i]).act is Copy && steps[i].act->Copy_to
            == crate::paths::below(crate::paths::below(slot, "overlays"@), PI3_OVERLAY@)
    &&& exists|i: int|
        0 <= i < steps.len() && (#[trigger] steps[i]).act
            == (crate::imager::stage::ActView::Write {
            to: crate::paths::below(slot, "cmdline.txt"@),
            text: cmdline(id),
        })
}

/// Each slot is complete in itself: the firmware looks for device tree,
/// overlays and command line in the slot alone.
pub proof fn slots_are_complete(rootfs: Seq<char>, staging: Seq<char>)
    ensures
        is_complete(firmware_steps(rootfs, staging), staging, "A"@, "a"@),
        is_complete(firmware_steps(rootfs, staging), staging, "B"@, "b"@),
{
    let boot = crate::paths::below(rootfs, "boot"@);
    let steps = firmware_steps(rootfs, staging);
    let a = slot_steps(boot, staging, "A"@, "a"@);
    let b = slot_steps(boot, staging, "B"@, "b"@);
    assert(steps.len() == 18);
    assert(steps[9] == a[1] && steps[11] == a[3] && steps[12] == a[4]);
    assert(steps[14] == b[1] && steps[16] == b[3] && steps[17] == b[4]);
}

/// Whether one of the steps copies `from` to `to`, and an earlier one sees that
/// `from` is there.
pub open spec fn is_copied(
    steps: Seq<crate::imager::stage::StepView>,
    from: Seq<char>,
    to: Seq<char>,
) -> bool {
    exists|i: int, j: int|
        #![trigger steps[i], steps[j]]
        0 <= j < i < steps.len() && steps[i].act == (crate::imager::stage::ActView::Copy {
            from,
            to,
        }) && steps[j].act == (crate::imager::stage::ActView::Require { path: from })
}

/// All that the firmware of a Pi needs goes to the boot partition: its programs
/// to the root, and the device tree and the overlay to each of the slots. Each
/// file is copied from the root filesystem under its own name, once it was seen
/// there.
pub proof fn the_firmware_is_staged(rootfs: Seq<char>, staging: Seq<char>)
    ensures
        ({
            let steps = firmware_steps(rootfs, staging);
            let boot = crate::paths::below(rootfs, "boot"@);
            let a = crate::paths::below(staging, "A"@);
            let b = crate::paths::below(staging, "B"@);
            let dtb = "bcm2837-rpi-3-a-plus.dtb"@;
            let overlay = "disable-bt.dtbo"@;
            let overlays = crate::paths::below(boot, "overlays"@);
            &&& is_copied(
                steps,
                crate::paths::below(boot, "bootcode.bin"@),
                crate::paths::below(staging, "bootcode.bin"@),
            )
            &&& is_copied(
                steps,
                crate::paths::below(boot, "start.elf"@),
                crate::paths::below(staging, "start.elf"@),
            )
            &&& is_copied(
                steps,
                crate::paths::below(boot, "fixup.dat"@),
                crate::paths::below(staging, "fixup.dat"@),
            )
            &&& is_copied(steps, crate::paths::below(boot, dtb), crate::paths::below(a, dtb))
            &&& is_copied(steps, crate::paths::below(boot, dtb), crate::paths::below(b, dtb))
            &&& is_copied(
                steps,
                crate::paths::below(overlays, overlay),
                crate::paths::below(crate::paths::below(a, "overlays"@), overlay),
            )
            &&& is_copied(
                steps,
                crate::paths::below(overlays, overlay),
                crate::paths::below(crate::paths::below(b, "overlays"@), overlay),
            )
        }),
{
    let boot = crate::paths::below(rootfs, "boot"@);
    let steps = firmware_steps(rootfs, staging);
    let x = blob_steps(boot, staging, PI3_BLOBS@[0]@);
    let y = blob_steps(boot, staging, PI3_BLOBS@[1]@);
    let z = blob_steps(boot, staging, PI3_BLOBS@[2]@);
    let a = slot_steps(boot, staging, "A"@, "a"@);
    let b = slot_steps(boot, staging, "B"@, "b"@);
    assert(steps.len() == 18);
    assert(steps[0] == x[0] && steps[1] == x[1]);
    assert(steps[2] == y[0] && steps[3] == y[1]);
    assert(steps[4] == z[0] && steps[5] == z[1]);
    assert(steps[7].act == (crate::imager::stage::ActView::Require {
        path: crate::paths::below(boot, PI3_DTB@),
    }));
    assert(steps[9] == a[1] && steps[10] == a[2] && steps[11] == a[3]);
    assert(steps[14] == b[1] && steps[15] == b[2] && steps[16] == b[3]);
}

/// Each slot's command line has both consoles and says which slot it is.
pub proof fn a_command_line_names_its_slot(slot: Seq<char>)
    ensures
        cmdline(slot).len() == 50 + slot.len() + 1,
        cmdline(slot).take(50) == "console=serial0,115200 console=tty1 machined.slot="@,
        cmdline(slot).skip(50) == slot + "\n"@,
{
    reveal_strlit("console=serial0,115200 console=tty1 machined.slot=");
    reveal_strlit("\n");
    let head = "console=serial0,115200 console=tty1 machined.slot="@;
    assert(head.len() == 50);
    assert(cmdline(slot).take(50) =~= head);
    assert(cmdline(slot).skip(50) =~= slot + "\n"@);
}

/// The staged kernel and its initramfs are moved into slot A, from which the
/// firmware loads them: nothing of them is left where they were staged.
pub proof fn the_kernel_is_moved_to_slot_a(staging: Seq<char>)
    ensures
        move_steps(staging).len() == 3,
        move_steps(staging)[0].act == (crate::imager::stage::ActView::MakeDir {
            path: crate::paths::below(staging, "A"@),
        }),
        move_steps(staging)[1].act == (crate::imager::stage::ActView::Rename {
            from: crate::paths::below(staging, "vmlinuz"@),
            to: crate::paths::below(crate::paths::below(staging, "A"@), "vmlinuz"@),
        }),
        move_steps(staging)[2].act == (crate::imager::stage::ActView::Rename {
            from: crate::paths::below(staging, "initramfs.img"@),
            to: crate::paths::below(crate::paths::below(staging, "A"@), "initramfs.img"@),
        }),
{
}

/// The firmware is told to load the kernel and its initramfs from where they are
/// put, slot A, and the device tree and the overlay that are staged there.
pub proof fn the_firmware_loads_what_is_staged()
    ensures
        CONFIG_TXT@ == "arm_64bit=1\n"@ + ("os_prefix="@ + "A"@ + "/\n"@) + ("kernel="@ + "vmlinuz"@
            + "\n"@) + ("initramfs "@ + "initramfs.img"@ + " followkernel\n"@) + "gpu_mem=16\n"@
            + "enable_uart=1\n"@ + ("dtoverlay="@ + "disable-bt"@ + "\n"@) + ("device_tree="@
            + PI3_DTB@ + "\n"@),
        PI3_OVERLAY@ == "disable-bt"@ + ".dtbo"@,
{
    reveal_strlit("\n");
    reveal_strlit("/\n");
    reveal_strlit("A");
    reveal_strlit("vmlinuz");
    reveal_strlit("initramfs.img");
    reveal_strlit("disable-bt");
    reveal_strlit(".dtbo");
    reveal_strlit("disable-bt.dtbo");
    reveal_strlit("bcm2837-rpi-3-a-plus.dtb");
    reveal_strlit("arm_64bit=1\n");
    reveal_strlit("os_prefix=");
    reveal_strlit("kernel=");
    reveal_strlit("initramfs ");
    reveal_strlit(" followkernel\n");
    reveal_strlit("gpu_mem=16\n");
    reveal_strlit("enable_uart=1\n");
    reveal_strlit("dtoverlay=");
    reveal_strlit("device_tree=");
    reveal_strlit(
        "arm_64bit=1\nos_prefix=A/\nkernel=vmlinuz\ninitramfs initramfs.img followkernel\ngpu_mem=16\nenable_uart=1\ndtoverlay=disable-bt\ndevice_tree=bcm2837-rpi-3-a-plus.dtb\n",
    );
    assert("disable-bt.dtbo"@ =~= "disable-bt"@ + ".dtbo"@);
    assert(CONFIG_TXT@ =~= "arm_64bit=1\n"@ + ("os_prefix="@ + "A"@ + "/\n"@) + ("kernel="@
        + "vmlinuz"@ + "\n"@) + ("initramfs "@ + "initramfs.img"@ + " followkernel\n"@)
        + "gpu_mem=16\n"@ + "enable_uart=1\n"@ + ("dtoverlay="@ + "disable-bt"@ + "\n"@) + (
    "device_tree="@ + PI3_DTB@ + "\n"@));
}

} // verus!
