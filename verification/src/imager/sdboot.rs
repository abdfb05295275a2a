//! The boot partition of a machine with UEFI: the boot loader's configuration
//! and an entry for each of two slots. The kernel goes to slot A; slot B is
//! filled by the first upgrade of a node.

use crate::imager::codec::to_upper;
use crate::imager::rpi::move_kernel_to_slot_a;
use crate::imager::stage::{push_step, Act, Step};
use crate::imager::Error;
use crate::paths::join;
use crate::text::{joined, same};
use vstd::prelude::*;
use vstd::string::*;

verus! {

/// The boot loader's configuration: slot A, without a menu.
pub fn loader_conf() -> (r: &'static str)
    ensures
        r@ == "default a\ntimeout 0\n"@,
{
    "default a\ntimeout 0\n"
}

/// The entry for a slot whose directory is `up`.
pub open spec fn entry_text(slot: Seq<char>, up: Seq<char>, cmdline: Seq<char>) -> Seq<char> {
    "title machined ("@ + slot + ")\nlinux /"@ + up + "/vmlinuz\ninitrd /"@ + up
        + "/initramfs.img\noptions "@ + cmdline + " machined.slot="@ + slot + "\n"@
}

/// The entry for a slot whose directory is `up`.
pub fn entry_in(slot: &str, up: &str, cmdline: &str) -> (r: String)
    ensures
        r@ == entry_text(slot@, up@, cmdline@),
{
    let mut out = joined("title machined (", slot);
    out.append(")\nlinux /");
    out.append(up);
    out.append("/vmlinuz\ninitrd /");
    out.append(up);
    out.append("/initramfs.img\noptions ");
    out.append(cmdline);
    out.append(" machined.slot=");
    out.append(slot);
    out.append("\n");
    out
}

/// The entry for a slot, with the kernel's command line `cmdline` and the name
/// of the slot behind it. The slot's directory is its name in upper case.
pub fn entry_conf(slot: &str, cmdline: &str) -> (r: String)
    ensures
        r@ == entry_text(slot@, crate::imager::codec::upper_of(slot@), cmdline@),
        slot@ == "a"@ ==> r@ == entry_text("a"@, "A"@, cmdline@),
        slot@ == "b"@ ==> r@ == entry_text("b"@, "B"@, cmdline@),
{
    let up = to_upper(slot);
    proof {
        reveal_strlit("a");
        reveal_strlit("b");
        reveal_strlit("A");
        reveal_strlit("B");
        if slot@ == "a"@ {
            assert(up@ =~= "A"@);
        }
        if slot@ == "b"@ {
            assert(up@ =~= "B"@);
        }
    }
    entry_in(slot, up.as_str(), cmdline)
}

/// The file that the firmware of an architecture starts from a disk without an
/// entry of its own, if it is UEFI.
pub open spec fn loader_name(arch: Seq<char>) -> Option<Seq<char>> {
    if arch == "x86_64"@ {
        Some("BOOTX64.EFI"@)
    } else if arch == "aarch64"@ {
        Some("BOOTAA64.EFI"@)
    } else {
        None
    }
}

/// The steps that stage the boot loader `src` as `name`.
pub open spec fn loader_steps(src: Seq<char>, dir: Seq<char>, name: Seq<char>) -> Seq<
    crate::imager::stage::StepView,
> {
    let target = crate::paths::below(dir, name);
    seq![
        crate::imager::stage::step(
            crate::imager::stage::ActView::MakeDir { path: dir },
            "create "@ + dir,
        ),
        crate::imager::stage::step(
            crate::imager::stage::ActView::Copy { from: src, to: target },
            "copy "@ + src + " -> "@ + target,
        ),
    ]
}

/// What is to be done to stage the boot loader `src` in `dir` under the name by
/// which the firmware of `arch` looks for one.
pub fn stage_boot_loader(src: &str, dir: &str, arch: &str) -> (r: Result<Vec<Step>, Error>)
    ensures
        match r {
            Ok(steps) => loader_name(arch@) is Some && crate::imager::stage::step_views(steps@)
                == loader_steps(src@, dir@, loader_name(arch@)->0),
            Err(e) => loader_name(arch@) is None && e.message@ == "no UEFI boot loader for "@
                + arch@,
        },
{
    let name: &str = if same(arch, "x86_64") {
        "BOOTX64.EFI"
    } else if same(arch, "aarch64") {
        "BOOTAA64.EFI"
    } else {
        return Err(Error { message: joined("no UEFI boot loader for ", arch) });
    };
    let target = join(dir, name);
    let mut steps: Vec<Step> = Vec::new();
    push_step(&mut steps, Act::MakeDir { path: dir.to_owned() }, joined("create ", dir));
    let mut message = joined("copy ", src);
    message.append(" -> ");
    message.append(target.as_str());
    push_step(&mut steps, Act::Copy { from: src.to_owned(), to: target }, message);
    assert(crate::imager::stage::step_views(steps@) =~= loader_steps(src@, dir@, name@));
    Ok(steps)
}

/// The steps that lay out the boot partition.
pub open spec fn assemble_steps(staging: Seq<char>, cmdline: Seq<char>) -> Seq<
    crate::imager::stage::StepView,
> {
    let entries = crate::paths::below(staging, "loader/entries"@);
    crate::imager::rpi::move_steps(staging) + seq![
        crate::imager::stage::step(
            crate::imager::stage::ActView::MakeDir { path: entries },
            "create "@ + entries,
        ),
        crate::imager::stage::step(
            crate::imager::stage::ActView::Write {
                to: crate::paths::below(staging, "loader/loader.conf"@),
                text: "default a\ntimeout 0\n"@,
            },
            "write loader.conf"@,
        ),
        crate::imager::stage::step(
            crate::imager::stage::ActView::Write {
                to: crate::paths::below(entries, "a.conf"@),
                text: entry_text("a"@, "A"@, cmdline),
            },
            "write a.conf"@,
        ),
        crate::imager::stage::step(
            crate::imager::stage::ActView::Write {
                to: crate::paths::below(entries, "b.conf"@),
                text: entry_text("b"@, "B"@, cmdline),
            },
            "write b.conf"@,
        ),
    ]
}

/// What is to be done to lay out the boot partition: the staged kernel and its
/// initramfs go to slot A, and the boot loader gets its configuration and an
/// entry for each slot.
pub fn assemble(staging: &str, cmdline: &str) -> (r: Vec<Step>)
    ensures
        crate::imager::stage::step_views(r@) == assemble_steps(staging@, cmdline@),
{
    let mut steps = move_kernel_to_slot_a(staging);
    let entries = join(staging, "loader/entries");
    let message = joined("create ", entries.as_str());
    push_step(&mut steps, Act::MakeDir { path: entries.clone() }, message);
    push_step(
        &mut steps,
        Act::Write { to: join(staging, "loader/loader.conf"), text: loader_conf().to_owned() },
        "write loader.conf".to_owned(),
    );
    push_step(
        &mut steps,
        Act::Write { to: join(entries.as_str(), "a.conf"), text: entry_conf("a", cmdline) },
        "write a.conf".to_owned(),
    );
    push_step(
        &mut steps,
        Act::Write { to: join(entries.as_str(), "b.conf"), text: entry_conf("b", cmdline) },
        "write b.conf".to_owned(),
    );
    assert(crate::imager::stage::step_views(steps@) =~= assemble_steps(staging@, cmdline@));
    steps
}

/// The boot loader of an architecture is staged as a copy of its source, under
/// the name by which the firmware looks for one.
pub proof fn a_staged_loader_is_its_source(
    t: crate::imager::stage::FilesView,
    src: Seq<char>,
    dir: Seq<char>,
)
    requires
        dir.len() > 0,
        dir.last() != '/',
    ensures
        loader_name("x86_64"@) is Some,
        loader_name("aarch64"@) is Some,
        loader_name("aarch64-rpi"@) is None,
        crate::imager::stage::after_steps(
            t,
            loader_steps(src, dir, loader_name("x86_64"@)->0),
        ).files[dir + "/BOOTX64.EFI"@] == t.files[src],
        crate::imager::stage::after_steps(
            t,
            loader_steps(src, dir, loader_name("aarch64"@)->0),
        ).files[dir + "/BOOTAA64.EFI"@] == t.files[src],
{
    reveal_strlit("x86_64");
    reveal_strlit("aarch64");
    reveal_strlit("aarch64-rpi");
    reveal_strlit("/");
    reveal_strlit("BOOTX64.EFI");
    reveal_strlit("BOOTAA64.EFI");
    reveal_strlit("/BOOTX64.EFI");
    reveal_strlit("/BOOTAA64.EFI");
    assert("x86_64"@[0] == 'x' && "aarch64"@[0] == 'a' && "aarch64-rpi"@[0] == 'a');
    assert("aarch64"@.len() != "aarch64-rpi"@.len());
    assert(dir + "/"@ + "BOOTX64.EFI"@ =~= dir + "/BOOTX64.EFI"@);
    assert(dir + "/"@ + "BOOTAA64.EFI"@ =~= dir + "/BOOTAA64.EFI"@);
    reveal_with_fuel(crate::imager::stage::after_steps, 4);
    let a = loader_steps(src, dir, "BOOTX64.EFI"@);
    let b = loader_steps(src, dir, "BOOTAA64.EFI"@);
    assert(a.drop_last().drop_last() =~= Seq::empty());
    assert(b.drop_last().drop_last() =~= Seq::empty());
}

proof fn lemma_paths(staging: Seq<char>)
    requires
        staging.len() > 0,
        staging.last() != '/',
    ensures
        crate::paths::below(staging, "A"@) == staging + "/A"@,
        crate::paths::below(staging, "vmlinuz"@) == staging + "/vmlinuz"@,
        crate::paths::below(staging, "initramfs.img"@) == staging + "/initramfs.img"@,
        crate::paths::below(staging + "/A"@, "vmlinuz"@) == staging + "/A/vmlinuz"@,
        crate::paths::below(staging + "/A"@, "initramfs.img"@) == staging + "/A/initramfs.img"@,
        crate::paths::below(staging, "loader/entries"@) == staging + "/loader/entries"@,
        crate::paths::below(staging, "loader/loader.conf"@) == staging + "/loader/loader.conf"@,
        crate::paths::below(staging + "/loader/entries"@, "a.conf"@) == staging
            + "/loader/entries/a.conf"@,
        crate::paths::below(staging + "/loader/entries"@, "b.conf"@) == staging
            + "/loader/entries/b.conf"@,
{
    reveal_strlit("/");
    reveal_strlit("A");
    reveal_strlit("/A");
    reveal_strlit("vmlinuz");
    reveal_strlit("/vmlinuz");
    reveal_strlit("initramfs.img");
    reveal_strlit("/initramfs.img");
    reveal_strlit("/A/vmlinuz");
    reveal_strlit("/A/initramfs.img");
    reveal_strlit("loader/entries");
    reveal_strlit("/loader/entries");
    reveal_strlit("loader/loader.conf");
    reveal_strlit("/loader/loader.conf");
    reveal_strlit("a.conf");
    reveal_strlit("b.conf");
    reveal_strlit("/loader/entries/a.conf");
    reveal_strlit("/loader/entries/b.conf");
    assert(crate::paths::below(staging, "A"@) =~= staging + "/A"@);
    assert(crate::paths::below(staging, "vmlinuz"@) =~= staging + "/vmlinuz"@);
    assert(crate::paths::below(staging, "initramfs.img"@) =~= staging + "/initramfs.img"@);
    assert((staging + "/A"@).last() == 'A');
    assert(crate::paths::below(staging + "/A"@, "vmlinuz"@) =~= staging + "/A/vmlinuz"@);
    assert(crate::paths::below(staging + "/A"@, "initramfs.img"@) =~= staging
        + "/A/initramfs.img"@);
    assert(crate::paths::below(staging, "loader/entries"@) =~= staging + "/loader/entries"@);
    assert(crate::paths::below(staging, "loader/loader.conf"@) =~= staging
        + "/loader/loader.conf"@);
    assert((staging + "/loader/entries"@).last() == 's');
    assert(crate::paths::below(staging + "/loader/entries"@, "a.conf"@) =~= staging
        + "/loader/entries/a.conf"@);
    assert(crate::paths::below(staging + "/loader/entries"@, "b.conf"@) =~= staging
        + "/loader/entries/b.conf"@);
}

proof fn lemma_paths_differ(staging: Seq<char>)
    ensures
        staging + "/A/vmlinuz"@ != staging + "/initramfs.img"@,
        staging + "/A/vmlinuz"@ != staging + "/A/initramfs.img"@,
        staging + "/vmlinuz"@ != staging + "/initramfs.img"@,
        staging + "/A/vmlinuz"@ != staging + "/loader/loader.conf"@,
        staging + "/A/initramfs.img"@ != staging + "/loader/loader.conf"@,
        staging + "/A/vmlinuz"@ != staging + "/loader/entries/a.conf"@,
        staging + "/A/initramfs.img"@ != staging + "/loader/entries/a.conf"@,
        staging + "/A/vmlinuz"@ != staging + "/loader/entries/b.conf"@,
        staging + "/A/initramfs.img"@ != staging + "/loader/entries/b.conf"@,
        staging + "/loader/loader.conf"@ != staging + "/loader/entries/a.conf"@,
        staging + "/loader/loader.conf"@ != staging + "/loader/entries/b.conf"@,
        staging + "/loader/entries/a.conf"@ != staging + "/loader/entries/b.conf"@,
        staging + "/initramfs.img"@ != staging + "/A/vmlinuz"@,
{
    reveal_strlit("/vmlinuz");
    reveal_strlit("/initramfs.img");
    reveal_strlit("/A/vmlinuz");
    reveal_strlit("/A/initramfs.img");
    reveal_strlit("/loader/loader.conf");
    reveal_strlit("/loader/entries/a.conf");
    reveal_strlit("/loader/entries/b.conf");
    let n = staging.len() as int;
    assert((staging + "/A/vmlinuz"@)[n + 1] == 'A');
    assert((staging + "/A/initramfs.img"@)[n + 1] == 'A');
    assert((staging + "/A/vmlinuz"@)[n + 3] == 'v');
    assert((staging + "/A/initramfs.img"@)[n + 3] == 'i');
    assert((staging + "/vmlinuz"@)[n + 1] == 'v');
    assert((staging + "/initramfs.img"@)[n + 1] == 'i');
    assert((staging + "/loader/loader.conf"@)[n + 1] == 'l');
    assert((staging + "/loader/loader.conf"@)[n + 8] == 'l');
    assert((staging + "/loader/entries/a.conf"@)[n + 1] == 'l');
    assert((staging + "/loader/entries/b.conf"@)[n + 1] == 'l');
    assert((staging + "/loader/entries/a.conf"@)[n + 8] == 'e');
    assert((staging + "/loader/entries/b.conf"@)[n + 8] == 'e');
    assert((staging + "/loader/entries/a.conf"@)[n + 16] == 'a');
    assert((staging + "/loader/entries/b.conf"@)[n + 16] == 'b');
}

/// The boot partition boots: the kernel and its initramfs are where the entry of
/// slot A says, that entry is the default one, and each slot's entry names its
/// own directory and its own slot.
pub proof fn slot_a_boots_what_was_staged(
    t: crate::imager::stage::FilesView,
    staging: Seq<char>,
    cmdline: Seq<char>,
)
    requires
        staging.len() > 0,
        staging.last() != '/',
    ensures
        ({
            let u = crate::imager::stage::after_steps(t, assemble_steps(staging, cmdline));
            &&& u.files[staging + "/A/vmlinuz"@] == t.files[staging + "/vmlinuz"@]
            &&& u.files[staging + "/A/initramfs.img"@] == t.files[staging + "/initramfs.img"@]
            &&& u.files[staging + "/loader/loader.conf"@] == vstd::utf8::encode_utf8(
                "default a\ntimeout 0\n"@,
            )
            &&& u.files[staging + "/loader/entries/a.conf"@] == vstd::utf8::encode_utf8(
                "title machined (a)\nlinux /A/vmlinuz\ninitrd /A/initramfs.img\noptions "@ + cmdline
                    + " machined.slot=a\n"@,
            )
            &&& u.files[staging + "/loader/entries/b.conf"@] == vstd::utf8::encode_utf8(
                "title machined (b)\nlinux /B/vmlinuz\ninitrd /B/initramfs.img\noptions "@ + cmdline
                    + " machined.slot=b\n"@,
            )
        }),
{
    lemma_paths(staging);
    lemma_paths_differ(staging);
    lemma_entries(cmdline);
    let steps = assemble_steps(staging, cmdline);
    let first = crate::imager::rpi::move_steps(staging);
    let more = steps.skip(3);
    assert(first.len() == 3);
    assert(steps =~= first + more);
    crate::imager::stage::lemma_after_more_steps(t, first, more);
    lemma_moved(t, staging);
    let m = crate::imager::stage::after_steps(t, first);
    reveal_with_fuel(crate::imager::stage::after_steps, 5);
    assert(more.len() == 4);
    assert(more.drop_last().drop_last().drop_last().drop_last() =~= Seq::empty());
    assert(more[0] == steps[3] && more[1] == steps[4] && more[2] == steps[5] && more[3]
        == steps[6]);
}

proof fn lemma_moved(t: crate::imager::stage::FilesView, staging: Seq<char>)
    requires
        staging.len() > 0,
        staging.last() != '/',
    ensures
        ({
            let m = crate::imager::stage::after_steps(t, crate::imager::rpi::move_steps(staging));
            &&& m.files[staging + "/A/vmlinuz"@] == t.files[staging + "/vmlinuz"@]
            &&& m.files[staging + "/A/initramfs.img"@] == t.files[staging + "/initramfs.img"@]
        }),
{
    lemma_paths(staging);
    lemma_paths_differ(staging);
    let first = crate::imager::rpi::move_steps(staging);
    reveal_with_fuel(crate::imager::stage::after_steps, 4);
    assert(first.drop_last().drop_last().drop_last() =~= Seq::empty());
}

proof fn lemma_entries(cmdline: Seq<char>)
    ensures
        entry_text("a"@, "A"@, cmdline)
            == "title machined (a)\nlinux /A/vmlinuz\ninitrd /A/initramfs.img\noptions "@ + cmdline
            + " machined.slot=a\n"@,
        entry_text("b"@, "B"@, cmdline)
            == "title machined (b)\nlinux /B/vmlinuz\ninitrd /B/initramfs.img\noptions "@ + cmdline
            + " machined.slot=b\n"@,
{
    reveal_strlit("a");
    reveal_strlit("b");
    reveal_strlit("A");
    reveal_strlit("B");
    reveal_strlit("\n");
    reveal_strlit("title machined (");
    reveal_strlit(")\nlinux /");
    reveal_strlit("/vmlinuz\ninitrd /");
    reveal_strlit("/initramfs.img\noptions ");
    reveal_strlit(" machined.slot=");
    reveal_strlit(" machined.slot=a\n");
    reveal_strlit(" machined.slot=b\n");
    reveal_strlit("title machined (a)\nlinux /A/vmlinuz\ninitrd /A/initramfs.img\noptions ");
    reveal_strlit("title machined (b)\nlinux /B/vmlinuz\ninitrd /B/initramfs.img\noptions ");
    let head = "title machined ("@ + "a"@ + ")\nlinux /"@ + "A"@ + "/vmlinuz\ninitrd /"@ + "A"@
        + "/initramfs.img\noptions "@;
    assert(head =~= "title machined (a)\nlinux /A/vmlinuz\ninitrd /A/initramfs.img\noptions "@);
    let tail = " machined.slot="@ + "a"@ + "\n"@;
    assert(tail =~= " machined.slot=a\n"@);
    assert(entry_text("a"@, "A"@, cmdline) =~= head + cmdline + tail);
    let head = "title machined ("@ + "b"@ + ")\nlinux /"@ + "B"@ + "/vmlinuz\ninitrd /"@ + "B"@
        + "/initramfs.img\noptions "@;
    assert(head =~= "title machined (b)\nlinux /B/vmlinuz\ninitrd /B/initramfs.img\noptions "@);
    let tail = " machined.slot="@ + "b"@ + "\n"@;
    assert(tail =~= " machined.slot=b\n"@);
    assert(entry_text("b"@, "B"@, cmdline) =~= head + cmdline + tail);
}

/// Where staging the boot loader fails, what is shown names the file.
pub proof fn a_failed_step_names_its_file(src: Seq<char>, dir: Seq<char>, name: Seq<char>, i: int)
    requires
        0 <= i < loader_steps(src, dir, name).len(),
    ensures
        crate::imager::stage::names_its_file(loader_steps(src, dir, name)[i]),
{
    let none = Seq::<char>::empty();
    crate::text::lemma_shows("create "@ + dir, "create "@, dir, none);
    crate::imager::stage::lemma_copy_is_named(src, crate::paths::below(dir, name));
}

} // verus!
