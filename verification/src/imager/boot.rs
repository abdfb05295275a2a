//! Programs for the boot partition: those in a tarball of static binaries, and
//! single ones. Image archives for the container runtime go there too.

use crate::imager::apk::{Plan, Step};
use crate::imager::codec::{lossy, read_gz_tar, TarRead};
use crate::imager::stage::{push_step, Act};
use crate::imager::Error;
use crate::paths::{is_contained, join, path_names};
use vstd::prelude::*;
use vstd::string::*;

verus! {

/// What is shown for a path that leads out of the directory of programs.
pub open spec fn escape_message(path: Seq<u8>) -> Seq<char> {
    "boot-tarball entry escapes staging: "@ + crate::imager::codec::lossy_of(path)
}

/// Refuses a path whose components are not all names.
pub fn guard_contained(path: &Vec<u8>) -> (r: Result<(), Error>)
    ensures
        match r {
            Ok(_) => crate::paths::contained(path@),
            Err(e) => !crate::paths::contained(path@) && e.message@ == escape_message(path@),
        },
{
    if is_contained(path) {
        return Ok(());
    }
    let shown = lossy(path.as_slice());
    let mut message = "boot-tarball entry escapes staging: ".to_owned();
    message.append(shown.as_str());
    Err(Error { message })
}

/// The bytes of `bin`.
pub open spec fn bin() -> Seq<u8> {
    seq![98u8, 105u8, 110u8]
}

/// Where an entry is staged: the path below `bin`, for a file that has one.
pub open spec fn target_of(path: Seq<u8>, is_file: bool) -> Option<Seq<u8>> {
    let names = crate::paths::names_in(path);
    if is_file && names.len() > 1 && names[0] == bin() {
        Some(crate::paths::path_of(names.skip(1)))
    } else {
        None
    }
}

/// What is to be done for an entry. Content that could not be read to its end
/// is not written.
pub open spec fn entry_plan(e: crate::imager::codec::EntryView) -> crate::imager::apk::PlanView {
    if !crate::paths::contained(e.path) {
        (Seq::empty(), Some(escape_message(e.path)))
    } else {
        match target_of(e.path, e.is_file) {
            None => (Seq::empty(), None),
            Some(target) => {
                let parent = crate::imager::apk::StepView::MakeParent { target };
                if e.whole {
                    (
                        seq![
                            parent,
                            crate::imager::apk::StepView::Write { target, data: e.data, mode: 0o755 },
                        ],
                        None,
                    )
                } else {
                    (seq![parent], None)
                }
            },
        }
    }
}

/// What is to be done for entries: the first that is refused is the last that
/// is looked at.
pub open spec fn plan_upto(
    entries: Seq<crate::imager::codec::EntryView>,
    n: nat,
) -> crate::imager::apk::PlanView
    decreases n,
{
    if n == 0 {
        (Seq::empty(), None)
    } else {
        let before = plan_upto(entries, (n - 1) as nat);
        if before.1 is Some {
            before
        } else {
            let last = entry_plan(entries[n - 1]);
            (before.0 + last.0, last.1)
        }
    }
}

/// What is to be done for a tarball that was read as `read`.
pub open spec fn plan(
    read: (Seq<crate::imager::codec::EntryView>, Option<Seq<char>>),
) -> crate::imager::apk::PlanView {
    let all = plan_upto(read.0, read.0.len());
    if all.1 is Some {
        all
    } else {
        (all.0, read.1)
    }
}

/// Names behind the first, with `/` between them.
fn join_rest(names: &Vec<Vec<u8>>) -> (r: Vec<u8>)
    requires
        names@.len() > 1,
    ensures
        r@ == crate::paths::path_of(crate::paths::byte_texts(names@).skip(1)),
{
    let ghost all = crate::paths::byte_texts(names@).skip(1);
    let mut out = names[1].clone();
    assert(out@ =~= all.take(1)[0]);
    let mut i: usize = 2;
    while i < names.len()
        invariant
            2 <= i <= names@.len(),
            all == crate::paths::byte_texts(names@).skip(1),
            out@ == crate::paths::path_of(all.take(i - 1)),
        decreases names@.len() - i,
    {
        let ghost before = out@;
        out.push(47);
        let mut next = names[i].clone();
        assert(next@ =~= names@[i as int]@);
        out.append(&mut next);
        i += 1;
        assert(all.take(i - 1).drop_last() =~= all.take(i - 2));
        assert(out@ =~= before + seq![47u8] + all[i - 2]);
    }
    assert(all.take(i - 1) =~= all);
    out
}

/// Where an entry is staged.
pub fn staged_path(path: &Vec<u8>, is_file: bool) -> (r: Option<Vec<u8>>)
    ensures
        match r {
            Some(target) => target_of(path@, is_file) == Some(target@),
            None => target_of(path@, is_file) is None,
        },
{
    if !is_file {
        return None;
    }
    let names = path_names(path);
    let ghost texts = crate::paths::byte_texts(names@);
    if names.len() < 2 {
        return None;
    }
    let first = &names[0];
    let found = first.len() == 3 && first[0] == 98 && first[1] == 105 && first[2] == 110;
    assert(found == (texts[0] =~= bin()));
    if found {
        Some(join_rest(&names))
    } else {
        None
    }
}

proof fn lemma_plan_stops(entries: Seq<crate::imager::codec::EntryView>, n: nat, m: nat)
    requires
        n <= m,
        plan_upto(entries, n).1 is Some,
    ensures
        plan_upto(entries, m) == plan_upto(entries, n),
    decreases m,
{
    if n < m {
        lemma_plan_stops(entries, n, (m - 1) as nat);
    }
}

/// What is to be done for a tarball that was read as `read`.
pub fn plan_extraction(read: &TarRead) -> (r: Plan)
    ensures
        r@ == plan(read@),
{
    let mut steps: Vec<Step> = Vec::new();
    let ghost entries = crate::imager::codec::entry_views(read.entries@);
    let mut i: usize = 0;
    assert(crate::imager::apk::step_views(steps@) =~= Seq::empty());
    while i < read.entries.len()
        invariant
            i <= read.entries@.len(),
            entries == crate::imager::codec::entry_views(read.entries@),
            read@.0 == entries,
            plan_upto(entries, i as nat) == (
                crate::imager::apk::step_views(steps@),
                None::<Seq<char>>,
            ),
        decreases read.entries@.len() - i,
    {
        let entry = &read.entries[i];
        let ghost before = crate::imager::apk::step_views(steps@);
        assert(entries[i as int] == entry@);
        match guard_contained(&entry.path) {
            Err(e) => {
                assert(before + Seq::empty() =~= before);
                proof {
                    lemma_plan_stops(entries, (i + 1) as nat, entries.len());
                }
                return Plan { steps, error: Some(e) };
            },
            Ok(_) => {},
        }
        match staged_path(&entry.path, entry.is_file) {
            None => {
                assert(before + Seq::empty() =~= before);
            },
            Some(target) => {
                let same = target.clone();
                assert(same@ =~= target@);
                steps.push(Step::MakeParent { target: same });
                let ghost parent = crate::imager::apk::StepView::MakeParent { target: target@ };
                assert(crate::imager::apk::step_views(steps@) =~= before + seq![parent]);
                if entry.whole {
                    let data = entry.data.clone();
                    assert(data@ =~= entry.data@);
                    let ghost write = crate::imager::apk::StepView::Write {
                        target: target@,
                        data: entry.data@,
                        mode: 0o755,
                    };
                    steps.push(Step::Write { target, data, mode: 0o755 });
                    assert(crate::imager::apk::step_views(steps@) =~= before + seq![parent, write]);
                }
            },
        }
        i += 1;
    }
    let error = match &read.error {
        Some(text) => Some(Error { message: text.clone() }),
        None => None,
    };
    Plan { steps, error }
}

/// What is to be done to stage the programs in the gzipped tarball `tgz`: the
/// files below its `bin`, executable.
pub fn extract_boot_tarball(tgz: &[u8]) -> (r: Plan)
    ensures
        r@ == plan(crate::imager::codec::gz_tar(tgz@)),
{
    let read = read_gz_tar(tgz);
    plan_extraction(&read)
}

/// The steps that stage the program `src` as `name`.
pub open spec fn binary_steps(
    src: Seq<char>,
    staging_bin: Seq<char>,
    name: Seq<char>,
) -> Seq<crate::imager::stage::StepView> {
    let target = crate::paths::below(staging_bin, name);
    seq![
        crate::imager::stage::step(
            crate::imager::stage::ActView::MakeDir { path: staging_bin },
            "create "@ + staging_bin,
        ),
        crate::imager::stage::step(
            crate::imager::stage::ActView::Copy { from: src, to: target },
            "copy "@ + src + " -> "@ + target,
        ),
        crate::imager::stage::step(
            crate::imager::stage::ActView::MakeExecutable { path: target },
            "chmod 0755 "@ + target,
        ),
    ]
}

/// What is to be done to stage the program `src` as `name`, executable.
pub fn copy_boot_binary(src: &str, staging_bin: &str, name: &str) -> (r: Vec<
    crate::imager::stage::Step,
>)
    ensures
        crate::imager::stage::step_views(r@) == binary_steps(src@, staging_bin@, name@),
{
    let mut steps: Vec<crate::imager::stage::Step> = Vec::new();
    let target = join(staging_bin, name);
    push_step(
        &mut steps,
        Act::MakeDir { path: staging_bin.to_owned() },
        crate::text::joined("create ", staging_bin),
    );
    let mut message = crate::text::joined("copy ", src);
    message.append(" -> ");
    message.append(target.as_str());
    push_step(
        &mut steps,
        Act::Copy { from: src.to_owned(), to: target.clone() },
        message,
    );
    let shown = crate::text::joined("chmod 0755 ", target.as_str());
    push_step(&mut steps, Act::MakeExecutable { path: target }, shown);
    assert(crate::imager::stage::step_views(steps@) =~= binary_steps(
        src@,
        staging_bin@,
        name@,
    ));
    steps
}

/// The steps that stage the image archive `src` as `name`.
pub open spec fn image_steps(src: Seq<char>, images: Seq<char>, name: Seq<char>) -> Seq<
    crate::imager::stage::StepView,
> {
    let target = crate::paths::below(images, name);
    seq![
        crate::imager::stage::step(
            crate::imager::stage::ActView::MakeDir { path: images },
            "create "@ + images,
        ),
        crate::imager::stage::step(
            crate::imager::stage::ActView::Copy { from: src, to: target },
            "copy "@ + src + " -> "@ + target,
        ),
    ]
}

/// What is to be done to stage the image archive `src` as `name` in the directory
/// of images, from which the container runtime imports it.
pub fn copy_oci_image(src: &str, images: &str, name: &str) -> (r: Vec<crate::imager::stage::Step>)
    ensures
        crate::imager::stage::step_views(r@) == image_steps(src@, images@, name@),
{
    let mut steps: Vec<crate::imager::stage::Step> = Vec::new();
    let target = join(images, name);
    push_step(
        &mut steps,
        Act::MakeDir { path: images.to_owned() },
        crate::text::joined("create ", images),
    );
    let mut message = crate::text::joined("copy ", src);
    message.append(" -> ");
    message.append(target.as_str());
    push_step(&mut steps, Act::Copy { from: src.to_owned(), to: target }, message);
    assert(crate::imager::stage::step_views(steps@) =~= image_steps(src@, images@, name@));
    steps
}

/// A tarball with an entry that leads out of the directory of programs is
/// refused.
pub proof fn a_path_that_leads_out_is_refused(
    read: (Seq<crate::imager::codec::EntryView>, Option<Seq<char>>),
    k: int,
)
    requires
        0 <= k < read.0.len(),
        !crate::paths::contained(read.0[k].path),
    ensures
        plan(read).1 is Some,
{
    lemma_plan_refuses(read.0, k, read.0.len());
}

proof fn lemma_plan_refuses(entries: Seq<crate::imager::codec::EntryView>, k: int, n: nat)
    requires
        0 <= k < n <= entries.len(),
        !crate::paths::contained(entries[k].path),
    ensures
        plan_upto(entries, n).1 is Some,
    decreases n,
{
    if k < n - 1 {
        lemma_plan_refuses(entries, k, (n - 1) as nat);
    }
}

/// Whether a step writes below the directory of programs, with names alone for
/// components.
pub open spec fn is_below(step: crate::imager::apk::StepView) -> bool {
    let target = match step {
        crate::imager::apk::StepView::MakeParent { target } => Some(target),
        crate::imager::apk::StepView::Write { target, .. } => Some(target),
        crate::imager::apk::StepView::Unpack { .. } => None,
    };
    exists|names: Seq<Seq<u8>>| #[trigger]
        are_names(names) && target == Some(crate::paths::path_of(names))
}

/// Whether all of `names` are names, and there is one.
pub open spec fn are_names(names: Seq<Seq<u8>>) -> bool {
    &&& names.len() > 0
    &&& forall|i: int| 0 <= i < names.len() ==> crate::paths::is_name(#[trigger] names[i])
}

/// Whatever a tarball holds, nothing is staged outside the directory of
/// programs.
pub proof fn nothing_is_staged_outside(
    read: (Seq<crate::imager::codec::EntryView>, Option<Seq<char>>),
)
    ensures
        forall|i: int| 0 <= i < plan(read).0.len() ==> is_below(#[trigger] plan(read).0[i]),
{
    lemma_plan_below(read.0, read.0.len());
    assert(plan(read).0 == plan_upto(read.0, read.0.len()).0);
}

proof fn lemma_plan_below(entries: Seq<crate::imager::codec::EntryView>, n: nat)
    requires
        n <= entries.len(),
    ensures
        forall|i: int|
            0 <= i < plan_upto(entries, n).0.len() ==> is_below(
                #[trigger] plan_upto(entries, n).0[i],
            ),
    decreases n,
{
    if n > 0 {
        lemma_plan_below(entries, (n - 1) as nat);
        let e = entries[n - 1];
        let before = plan_upto(entries, (n - 1) as nat);
        let last = entry_plan(e);
        let all = plan_upto(entries, n);
        if crate::paths::contained(e.path) {
            crate::paths::contained_paths_hold_names_alone(e.path);
        }
        let names = crate::paths::names_in(e.path);
        if last.0.len() > 0 {
            assert forall|i: int| 0 <= i < names.skip(1).len() implies crate::paths::is_name(
                #[trigger] names.skip(1)[i],
            ) by {
                assert(names.skip(1)[i] == names[i + 1]);
            }
            assert(are_names(names.skip(1)));
        }
        assert forall|i: int| 0 <= i < all.0.len() implies is_below(#[trigger] all.0[i]) by {
            if i < before.0.len() {
                assert(all.0[i] == before.0[i]);
            } else {
                assert(all.0[i] == last.0[i - before.0.len()]);
            }
        }
    }
}

/// A staged program is a copy of its source, is executable, and stands in the
/// directory of programs under the name that it was given; no other file is
/// touched.
pub proof fn a_staged_program_is_its_source(
    t: crate::imager::stage::FilesView,
    src: Seq<char>,
    dir: Seq<char>,
    name: Seq<char>,
    other: Seq<char>,
)
    requires
        dir.len() > 0,
        dir.last() != '/',
        name.len() > 0,
        name[0] != '/',
    ensures
        ({
            let u = crate::imager::stage::after_steps(t, binary_steps(src, dir, name));
            let target = dir + "/"@ + name;
            &&& u.files.contains_key(target)
            &&& u.files[target] == t.files[src]
            &&& u.executable.contains(target)
            &&& u.dirs.contains(dir)
            &&& other != target ==> u.files.contains_key(other) == t.files.contains_key(other)
                && u.files[other] == t.files[other] && u.executable.contains(other)
                == t.executable.contains(other)
        }),
{
    let steps = binary_steps(src, dir, name);
    reveal_with_fuel(crate::imager::stage::after_steps, 4);
    assert(steps.drop_last().drop_last().drop_last() =~= Seq::empty());
}

/// A staged image archive is a copy of its source and stands among the images
/// under the name that it was given; no other file is touched.
pub proof fn a_staged_image_is_its_source(
    t: crate::imager::stage::FilesView,
    src: Seq<char>,
    dir: Seq<char>,
    name: Seq<char>,
    other: Seq<char>,
)
    requires
        dir.len() > 0,
        dir.last() != '/',
        name.len() > 0,
        name[0] != '/',
    ensures
        ({
            let u = crate::imager::stage::after_steps(t, image_steps(src, dir, name));
            let target = dir + "/"@ + name;
            &&& u.files.contains_key(target)
            &&& u.files[target] == t.files[src]
            &&& u.dirs.contains(dir)
            &&& other != target ==> u.files.contains_key(other) == t.files.contains_key(other)
                && u.files[other] == t.files[other]
        }),
{
    let steps = image_steps(src, dir, name);
    reveal_with_fuel(crate::imager::stage::after_steps, 4);
    assert(steps.drop_last().drop_last() =~= Seq::empty());
}

proof fn lemma_plan_holds(
    entries: Seq<crate::imager::codec::EntryView>,
    k: int,
    n: nat,
    step: crate::imager::apk::StepView,
)
    requires
        0 <= k < n <= entries.len(),
        plan_upto(entries, n).1 is None,
        entry_plan(entries[k]).0.contains(step),
    ensures
        plan_upto(entries, n).0.contains(step),
    decreases n,
{
    let before = plan_upto(entries, (n - 1) as nat);
    let last = entry_plan(entries[n - 1]);
    let all = plan_upto(entries, n);
    if k == n - 1 {
        let x = choose|x: int| 0 <= x < last.0.len() && last.0[x] == step;
        assert(all.0[before.0.len() + x] == step);
    } else {
        lemma_plan_holds(entries, k, (n - 1) as nat, step);
        let x = choose|x: int| 0 <= x < before.0.len() && before.0[x] == step;
        assert(all.0[x] == step);
    }
}

/// Of a tarball that is not refused, every regular file below `bin` is staged:
/// at its path below `bin`, with its content, and executable.
pub proof fn every_program_is_staged(
    read: (Seq<crate::imager::codec::EntryView>, Option<Seq<char>>),
    k: int,
    names: Seq<Seq<u8>>,
)
    requires
        plan(read).1 is None,
        0 <= k < read.0.len(),
        read.0[k].is_file,
        read.0[k].whole,
        names.len() > 0,
        forall|i: int| 0 <= i < names.len() ==> crate::paths::is_name(#[trigger] names[i]),
        read.0[k].path == crate::paths::path_of(seq![seq![98u8, 105u8, 110u8]] + names),
    ensures
        plan(read).0.contains(
            crate::imager::apk::StepView::Write {
                target: crate::paths::path_of(names),
                data: read.0[k].data,
                mode: 0o755,
            },
        ),
{
    let e = read.0[k];
    let first = seq![98u8, 105u8, 110u8];
    let all = seq![first] + names;
    assert(first[0] == 98);
    assert(crate::paths::is_name(first));
    assert forall|i: int| 0 <= i < all.len() implies crate::paths::is_name(#[trigger] all[i]) by {
        if i > 0 {
            assert(all[i] == names[i - 1]);
        }
    }
    crate::paths::the_names_of_a_path_are_found_again(all);
    assert(all.skip(1) =~= names);
    assert(all[0] == bin());
    if !crate::paths::contained(e.path) {
        a_path_that_leads_out_is_refused(read, k);
    }
    let step = crate::imager::apk::StepView::Write {
        target: crate::paths::path_of(names),
        data: e.data,
        mode: 0o755,
    };
    assert(entry_plan(e).0[1] == step);
    lemma_plan_holds(read.0, k, read.0.len(), step);
}

/// A tarball that breaks off is refused, whatever was read of it before.
pub proof fn a_broken_tarball_is_refused(
    read: (Seq<crate::imager::codec::EntryView>, Option<Seq<char>>),
)
    requires
        read.1 is Some,
    ensures
        plan(read).1 is Some,
        plan_upto(read.0, read.0.len()).1 is None ==> plan(read).1 == read.1,
{
}

proof fn lemma_written(entries: Seq<crate::imager::codec::EntryView>, n: nat, x: int)
    requires
        n <= entries.len(),
        0 <= x < plan_upto(entries, n).0.len(),
        plan_upto(entries, n).0[x] is Write,
    ensures
        exists|k: int|
            0 <= k < n && (#[trigger] entries[k]).is_file && entries[k].whole
                && target_of(entries[k].path, true) == Some(plan_upto(entries, n).0[x]->Write_target)
                && entries[k].data == plan_upto(entries, n).0[x]->data,
    decreases n,
{
    if n > 0 {
        let before = plan_upto(entries, (n - 1) as nat);
        let last = entry_plan(entries[n - 1]);
        let all = plan_upto(entries, n);
        if x < before.0.len() {
            assert(all.0[x] == before.0[x]);
            lemma_written(entries, (n - 1) as nat, x);
        } else {
            assert(all.0[x] == last.0[x - before.0.len()]);
            assert(entries[n - 1].is_file);
        }
    }
}

/// What is written is the whole content of a regular file of the tarball, and of
/// the one whose path leads there.
pub proof fn what_is_written_was_in_the_tarball(
    read: (Seq<crate::imager::codec::EntryView>, Option<Seq<char>>),
    x: int,
)
    requires
        0 <= x < plan(read).0.len(),
        plan(read).0[x] is Write,
    ensures
        exists|k: int|
            0 <= k < read.0.len() && (#[trigger] read.0[k]).is_file && read.0[k].whole
                && target_of(read.0[k].path, true) == Some(plan(read).0[x]->Write_target)
                && read.0[k].data == plan(read).0[x]->data,
{
    lemma_written(read.0, read.0.len(), x);
}

/// What does not stand below `bin` is not staged.
pub proof fn only_what_is_below_bin_is_staged(path: Seq<u8>, is_file: bool)
    ensures
        target_of(path, is_file) is Some ==> is_file && crate::paths::names_in(path).len() > 1
            && crate::paths::names_in(path)[0] == seq![98u8, 105u8, 110u8],
        target_of(path, false) is None,
{
}

proof fn lemma_not_refused(entries: Seq<crate::imager::codec::EntryView>, n: nat)
    requires
        n <= entries.len(),
        forall|k: int|
            0 <= k < entries.len() ==> crate::paths::contained((#[trigger] entries[k]).path),
    ensures
        plan_upto(entries, n).1 is None,
    decreases n,
{
    if n > 0 {
        lemma_not_refused(entries, (n - 1) as nat);
        assert(crate::paths::contained(entries[n - 1].path));
    }
}

/// A tarball whose entries all stay inside is not refused for them: it ends as
/// its reading ended.
pub proof fn a_sound_tarball_is_not_refused(
    read: (Seq<crate::imager::codec::EntryView>, Option<Seq<char>>),
)
    requires
        forall|k: int|
            0 <= k < read.0.len() ==> crate::paths::contained((#[trigger] read.0[k]).path),
    ensures
        plan(read).1 == read.1,
{
    lemma_not_refused(read.0, read.0.len());
}

/// Where staging a program or an image fails, what is shown names the file.
pub proof fn a_failed_step_names_its_file(
    src: Seq<char>,
    dir: Seq<char>,
    name: Seq<char>,
    i: int,
)
    ensures
        0 <= i < binary_steps(src, dir, name).len() ==> crate::imager::stage::names_its_file(
            binary_steps(src, dir, name)[i],
        ),
        0 <= i < image_steps(src, dir, name).len() ==> crate::imager::stage::names_its_file(
            image_steps(src, dir, name)[i],
        ),
{
    let none = Seq::<char>::empty();
    let target = crate::paths::below(dir, name);
    crate::text::lemma_shows("create "@ + dir, "create "@, dir, none);
    crate::imager::stage::lemma_copy_is_named(src, target);
    crate::text::lemma_shows("chmod 0755 "@ + target, "chmod 0755 "@, target, none);
}

} // verus!
