//! Building an image: pinned artifacts become a root filesystem, an initramfs
//! and a disk image.

use crate::imager::codec::debug_list;
use crate::imager::manifest::{Artifact, Manifest};
use crate::imager::stage::{push_step, Act, Step};
use crate::imager::Error;
use crate::order::sort_order;
use crate::paths::join;
use crate::text::{joined, same};
use vstd::prelude::*;
use vstd::string::*;

verus! {

/// The files of a node's PKI that go to the boot partition.
pub const PKI_FILES: [&'static str; 4] = ["ca.pem", "ca.key", "server.pem", "server.key"];

/// What is shown for an architecture whose list is empty.
pub open spec fn empty_message(arch: Seq<char>) -> Seq<char> {
    "artifact list for "@ + arch + " is empty — pin artifacts.toml first"@
}

/// The artifacts that an image for `arch` is built from: there has to be at
/// least one.
pub fn artifacts_for<'a>(m: &'a Manifest, arch: &str) -> (r: Result<&'a [Artifact], Error>)
    ensures
        ({
            let place = crate::imager::manifest::place_of(m.artifact@, arch@);
            match r {
                Ok(list) => place is Some && list@ == m.artifact@[place->0].1@ && list@.len() > 0,
                Err(e) => match place {
                    None => e.message@ == "no artifacts for "@ + arch@,
                    Some(i) => m.artifact@[i].1@.len() == 0 && e.message@ == empty_message(arch@),
                },
            }
        }),
{
    match m.for_arch(arch) {
        None => Err(Error { message: joined("no artifacts for ", arch) }),
        Some(list) => {
            if list.len() == 0 {
                let mut message = joined("artifact list for ", arch);
                message.append(" is empty — pin artifacts.toml first");
                return Err(Error { message });
            }
            Ok(list)
        },
    }
}

/// Where an artifact goes.
#[derive(Debug, PartialEq, Eq)]
pub enum Route {
    /// A package for the root filesystem.
    Rootfs,
    /// A tarball of programs for the boot partition.
    BootTarball,
    /// A program for the boot partition, under this name.
    BootBinary { name: String },
    /// An image archive for the boot partition, under this name.
    OciImage { name: String },
    /// A tarball of network plugins for the boot partition.
    CniPlugins,
    /// The boot loader of a machine with UEFI.
    BootLoader,
}

/// Where an artifact goes; of a program, under which name.
#[verifier::ext_equal]
pub enum RouteView {
    Rootfs,
    BootTarball,
    BootBinary { name: Seq<char> },
    OciImage { name: Seq<char> },
    CniPlugins,
    BootLoader,
}

impl View for Route {
    type V = RouteView;

    open spec fn view(&self) -> RouteView {
        match *self {
            Route::Rootfs => RouteView::Rootfs,
            Route::BootTarball => RouteView::BootTarball,
            Route::BootBinary { name } => RouteView::BootBinary { name: name@ },
            Route::OciImage { name } => RouteView::OciImage { name: name@ },
            Route::CniPlugins => RouteView::CniPlugins,
            Route::BootLoader => RouteView::BootLoader,
        }
    }
}

/// The name that an artifact is staged under: its own, unless it is renamed.
pub open spec fn staged_name(a: crate::imager::manifest::ArtifactView) -> Seq<char> {
    match a.rename {
        Some(name) => name,
        None => a.name,
    }
}

fn name_to_stage(a: &Artifact) -> (r: String)
    ensures
        r@ == staged_name(a@),
{
    match &a.rename {
        Some(name) => name.clone(),
        None => a.name.clone(),
    }
}

/// Where the artifact `a` goes, if its kind is known.
pub open spec fn route_of(a: crate::imager::manifest::ArtifactView) -> Option<RouteView> {
    if a.kind == "apk"@ {
        Some(RouteView::Rootfs)
    } else if a.kind == "boot-tarball"@ {
        Some(RouteView::BootTarball)
    } else if a.kind == "boot-binary"@ {
        Some(RouteView::BootBinary { name: staged_name(a) })
    } else if a.kind == "oci-image"@ {
        Some(RouteView::OciImage { name: staged_name(a) })
    } else if a.kind == "cni-plugins"@ {
        Some(RouteView::CniPlugins)
    } else if a.kind == "sd-boot-efi"@ {
        Some(RouteView::BootLoader)
    } else {
        None
    }
}

/// Where an artifact goes.
pub fn route(a: &Artifact) -> (r: Result<Route, Error>)
    ensures
        match r {
            Ok(to) => route_of(a@) == Some(to@),
            Err(e) => route_of(a@) is None && e.message@ == "unknown artifact kind "@ + a.kind@
                + " for "@ + a.name@,
        },
{
    if same(a.kind.as_str(), "apk") {
        Ok(Route::Rootfs)
    } else if same(a.kind.as_str(), "boot-tarball") {
        Ok(Route::BootTarball)
    } else if same(a.kind.as_str(), "boot-binary") {
        Ok(Route::BootBinary { name: name_to_stage(a) })
    } else if same(a.kind.as_str(), "oci-image") {
        Ok(Route::OciImage { name: name_to_stage(a) })
    } else if same(a.kind.as_str(), "cni-plugins") {
        Ok(Route::CniPlugins)
    } else if same(a.kind.as_str(), "sd-boot-efi") {
        Ok(Route::BootLoader)
    } else {
        let mut message = joined("unknown artifact kind ", a.kind.as_str());
        message.append(" for ");
        message.append(a.name.as_str());
        Err(Error { message })
    }
}

/// The directory of the boot partition that an artifact is staged in, if it goes
/// there.
pub open spec fn boot_dir(to: RouteView) -> Option<Seq<char>> {
    match to {
        RouteView::Rootfs => None,
        RouteView::BootTarball => Some("bin"@),
        RouteView::BootBinary { .. } => Some("bin"@),
        RouteView::OciImage { .. } => Some("images"@),
        RouteView::CniPlugins => Some("cni/bin"@),
        RouteView::BootLoader => Some("EFI/BOOT"@),
    }
}

/// The directory of the boot partition that an artifact is staged in.
pub fn staged_in(to: &Route) -> (r: Option<&'static str>)
    ensures
        match r {
            Some(dir) => boot_dir(to@) == Some(dir@),
            None => boot_dir(to@) is None,
        },
{
    match to {
        Route::Rootfs => None,
        Route::BootTarball => Some("bin"),
        Route::BootBinary { .. } => Some("bin"),
        Route::OciImage { .. } => Some("images"),
        Route::CniPlugins => Some("cni/bin"),
        Route::BootLoader => Some("EFI/BOOT"),
    }
}

/// Whether `sorted` holds `names` by name.
pub open spec fn is_sorted_list(names: Seq<Seq<char>>, sorted: Seq<Seq<char>>) -> bool {
    exists|order: Seq<usize>| #[trigger]
        crate::order::is_order(names, order) && sorted == Seq::new(
            names.len(),
            |k: int| names[order[k] as int],
        )
}

/// Texts by name.
fn sorted_list(names: &Vec<String>) -> (r: Vec<String>)
    ensures
        is_sorted_list(crate::text::texts(names@), crate::text::texts(r@)),
{
    let order = sort_order(names);
    let ghost all = crate::text::texts(names@);
    let ghost sorted = Seq::new(all.len(), |k: int| all[order@[k] as int]);
    let mut r: Vec<String> = Vec::new();
    let mut k: usize = 0;
    while k < order.len()
        invariant
            k <= order@.len() == all.len(),
            all == crate::text::texts(names@),
            crate::order::is_order(all, order@),
            sorted == Seq::new(all.len(), |k: int| all[order@[k] as int]),
            crate::text::texts(r@) == sorted.take(k as int),
        decreases order@.len() - k,
    {
        let i: usize = order[k];
        assert(order@[k as int] < all.len());
        let ghost before = r@;
        r.push(names[i].clone());
        k += 1;
        assert(crate::text::texts(r@) =~= crate::text::texts(before).push(all[i as int]));
        assert(crate::text::texts(r@) =~= sorted.take(k as int));
    }
    assert(sorted.take(k as int) =~= sorted);
    r
}

/// Whether `message` is what is shown where there is not exactly one kernel
/// version: it lists what is there by name.
pub open spec fn is_kver_message(
    message: Seq<char>,
    dir: Seq<char>,
    names: Seq<Seq<char>>,
) -> bool {
    exists|sorted: Seq<Seq<char>>| #[trigger]
        is_sorted_list(names, sorted) && message == "expected exactly one kernel version under "@
            + dir + ", found "@ + crate::imager::codec::debug_of(sorted)
}

/// The one kernel version among the entries `names` of the directory of
/// modules `dir`.
pub fn find_kver(dir: &str, names: &Vec<String>) -> (r: Result<String, Error>)
    ensures
        match r {
            Ok(kver) => names@.len() == 1 && kver@ == names@[0]@,
            Err(e) => names@.len() != 1 && is_kver_message(
                e.message@,
                dir@,
                crate::text::texts(names@),
            ),
        },
{
    if names.len() == 1 {
        return Ok(names[0].clone());
    }
    let sorted = sorted_list(names);
    let shown = debug_list(&sorted);
    let mut message = joined("expected exactly one kernel version under ", dir);
    message.append(", found ");
    message.append(shown.as_str());
    assert(is_sorted_list(crate::text::texts(names@), crate::text::texts(sorted@)));
    Err(Error { message })
}

/// The steps that check that all of a PKI is there.
pub open spec fn pki_checks(pki: Seq<char>) -> Seq<crate::imager::stage::StepView> {
    Seq::new(
        4,
        |i: int|
            {
                let p = crate::paths::below(pki, PKI_FILES@[i]@);
                crate::imager::stage::step(
                    crate::imager::stage::ActView::Require { path: p },
                    "PKI file missing: "@ + p,
                )
            },
    )
}

/// What is to be done to check that all of a PKI is there.
pub fn check_pki(pki: &str) -> (r: Vec<Step>)
    ensures
        crate::imager::stage::step_views(r@) == pki_checks(pki@),
{
    let mut steps: Vec<Step> = Vec::new();
    let mut i: usize = 0;
    assert(crate::imager::stage::step_views(steps@) =~= pki_checks(pki@).take(0));
    while i < 4
        invariant
            i <= 4,
            crate::imager::stage::step_views(steps@) == pki_checks(pki@).take(i as int),
        decreases 4 - i,
    {
        let p = join(pki, PKI_FILES[i]);
        let message = joined("PKI file missing: ", p.as_str());
        push_step(&mut steps, Act::Require { path: p }, message);
        i += 1;
        assert(crate::imager::stage::step_views(steps@) =~= pki_checks(pki@).take(i as int));
    }
    assert(pki_checks(pki@).take(4) =~= pki_checks(pki@));
    steps
}

/// The steps that stage a PKI on the boot partition.
pub open spec fn pki_copies(pki: Seq<char>, staging: Seq<char>) -> Seq<
    crate::imager::stage::StepView,
> {
    let dst = crate::paths::below(staging, "pki"@);
    seq![
        crate::imager::stage::step(
            crate::imager::stage::ActView::MakeDir { path: dst },
            "creating "@ + dst,
        ),
    ] + Seq::new(
        4,
        |i: int|
            crate::imager::stage::step(
                crate::imager::stage::ActView::Copy {
                    from: crate::paths::below(pki, PKI_FILES@[i]@),
                    to: crate::paths::below(dst, PKI_FILES@[i]@),
                },
                "copying PKI file "@ + PKI_FILES@[i]@,
            ),
    )
}

/// What is to be done to stage a PKI on the boot partition.
pub fn stage_pki(pki: &str, staging: &str) -> (r: Vec<Step>)
    ensures
        crate::imager::stage::step_views(r@) == pki_copies(pki@, staging@),
{
    let dst = join(staging, "pki");
    let mut steps: Vec<Step> = Vec::new();
    let message = joined("creating ", dst.as_str());
    push_step(&mut steps, Act::MakeDir { path: dst.clone() }, message);
    let ghost all = pki_copies(pki@, staging@);
    let mut i: usize = 0;
    assert(crate::imager::stage::step_views(steps@) =~= all.take(1));
    while i < 4
        invariant
            i <= 4,
            dst@ == crate::paths::below(staging@, "pki"@),
            all == pki_copies(pki@, staging@),
            crate::imager::stage::step_views(steps@) == all.take(i + 1),
        decreases 4 - i,
    {
        let f = PKI_FILES[i];
        push_step(
            &mut steps,
            Act::Copy { from: join(pki, f), to: join(dst.as_str(), f) },
            joined("copying PKI file ", f),
        );
        i += 1;
        assert(crate::imager::stage::step_views(steps@) =~= all.take(i + 1));
    }
    assert(all.take(5) =~= all);
    steps
}

/// What a build puts into files.
#[derive(Clone, Copy, Debug, PartialEq, Eq, Structural)]
pub enum Part {
    Kernel,
    Initramfs,
    Config,
}

/// What goes into the file at a path, and what is shown where it cannot be
/// written.
#[derive(Debug, PartialEq, Eq)]
pub struct Placement {
    pub part: Part,
    pub path: String,
    pub message: String,
}

/// What a placement says.
#[verifier::ext_equal]
pub struct PlacementView {
    pub part: Part,
    pub path: Seq<char>,
    pub message: Seq<char>,
}

impl View for Placement {
    type V = PlacementView;

    open spec fn view(&self) -> PlacementView {
        PlacementView { part: self.part, path: self.path@, message: self.message@ }
    }
}

/// What placements say.
pub open spec fn placement_views(v: Seq<Placement>) -> Seq<PlacementView> {
    Seq::new(v.len(), |i: int| v[i]@)
}

/// The name of the file that a part goes into.
pub open spec fn part_name(part: Part) -> Seq<char> {
    match part {
        Part::Kernel => "vmlinuz"@,
        Part::Initramfs => "initramfs.img"@,
        Part::Config => "config.yaml"@,
    }
}

/// A part in its file in a directory.
pub open spec fn placed(part: Part, dir: Seq<char>) -> PlacementView {
    let path = crate::paths::below(dir, part_name(part));
    PlacementView { part, path, message: "writing "@ + path }
}

fn place(part: Part, dir: &str) -> (r: Placement)
    ensures
        r@ == placed(part, dir@),
{
    let name: &str = match part {
        Part::Kernel => "vmlinuz",
        Part::Initramfs => "initramfs.img",
        Part::Config => "config.yaml",
    };
    let path = join(dir, name);
    let message = joined("writing ", path.as_str());
    Placement { part, path, message }
}

/// The parts that go to the boot partition.
pub open spec fn staged_parts() -> Seq<Part> {
    seq![Part::Kernel, Part::Initramfs, Part::Config]
}

/// The parts that are put beside the image where that is asked for.
pub open spec fn emitted_parts() -> Seq<Part> {
    seq![Part::Kernel, Part::Initramfs]
}

/// Parts in their files in a directory.
pub open spec fn all_placed(parts: Seq<Part>, dir: Seq<char>) -> Seq<PlacementView> {
    Seq::new(parts.len(), |i: int| placed(parts[i], dir))
}

/// What is to be staged for the boot partition besides programs and the PKI.
pub fn stage_files(staging: &str) -> (r: Vec<Placement>)
    ensures
        placement_views(r@) == all_placed(staged_parts(), staging@),
{
    let r = vec![
        place(Part::Kernel, staging),
        place(Part::Initramfs, staging),
        place(Part::Config, staging),
    ];
    assert(placement_views(r@) =~= all_placed(staged_parts(), staging@));
    r
}

/// What is to be put beside the image, to boot from without it.
pub fn emit_boot(dir: &str) -> (r: Vec<Placement>)
    ensures
        placement_views(r@) == all_placed(emitted_parts(), dir@),
{
    let r = vec![place(Part::Kernel, dir), place(Part::Initramfs, dir)];
    assert(placement_views(r@) =~= all_placed(emitted_parts(), dir@));
    r
}

/// What is put beside the image is also in it, in a file of the same name.
pub proof fn what_is_emitted_is_in_the_image(dir: Seq<char>, staging: Seq<char>, i: int)
    requires
        0 <= i < all_placed(emitted_parts(), dir).len(),
    ensures
        ({
            let e = all_placed(emitted_parts(), dir)[i];
            let s = all_placed(staged_parts(), staging)[i];
            &&& i < all_placed(staged_parts(), staging).len()
            &&& s.part == e.part
            &&& e.path == crate::paths::below(dir, part_name(e.part))
            &&& s.path == crate::paths::below(staging, part_name(e.part))
        }),
{
}

/// What is to be done next in a build.
#[derive(Clone, Copy, Debug, PartialEq, Eq, Structural)]
pub enum Task {
    /// Read and parse the configuration.
    CheckConfig,
    /// See that the PKI is there.
    CheckPki,
    /// Read the manifest and list the artifacts of the architecture.
    LoadManifest,
    /// Make room for the root filesystem and the staging tree.
    MakeScratch,
    /// Fetch the artifact at an index.
    Fetch { index: usize },
    /// Unpack or stage the artifact at an index.
    Place { index: usize },
    /// Find the kernel and resolve its modules.
    FindKernel,
    /// Strip the root filesystem down to what the initramfs needs.
    Prune,
    /// Build the initramfs.
    MakeInitramfs,
    /// Stage the kernel, the initramfs and the configuration.
    StageFiles,
    /// Stage the PKI.
    StagePki,
    /// Write the image.
    WriteImage,
    /// Put kernel and initramfs beside the image.
    EmitBoot,
    /// The build is done.
    Done,
    /// The build has failed.
    Fail,
}

/// What came of a task.
#[derive(Clone, Copy, Debug, PartialEq, Eq, Structural)]
pub enum Outcome {
    /// It is done.
    Finished,
    /// The manifest lists this many artifacts.
    Listed { count: usize },
    /// It has failed.
    Failed,
}

/// What a build knows: whether there is a PKI, whether kernel and initramfs are
/// asked for, the number of artifacts, and the task that it waits for.
#[verifier::ext_equal]
pub struct BuildView {
    pub pki: bool,
    pub emit: bool,
    pub count: nat,
    pub task: Task,
}

/// Whether `o` can come of `task`.
pub open spec fn can_follow(task: Task, o: Outcome) -> bool {
    match o {
        Outcome::Finished => !(task is LoadManifest || task is Done || task is Fail),
        Outcome::Listed { count } => task is LoadManifest && count > 0,
        Outcome::Failed => !(task is Done || task is Fail),
    }
}

/// The task behind one that is done.
pub open spec fn task_after(v: BuildView) -> Task {
    match v.task {
        Task::CheckConfig => if v.pki {
            Task::CheckPki
        } else {
            Task::LoadManifest
        },
        Task::CheckPki => Task::LoadManifest,
        Task::LoadManifest => Task::MakeScratch,
        Task::MakeScratch => Task::Fetch { index: 0 },
        Task::Fetch { index } => Task::Place { index },
        Task::Place { index } => if index + 1 < v.count {
            Task::Fetch { index: (index + 1) as usize }
        } else {
            Task::FindKernel
        },
        Task::FindKernel => Task::Prune,
        Task::Prune => Task::MakeInitramfs,
        Task::MakeInitramfs => Task::StageFiles,
        Task::StageFiles => if v.pki {
            Task::StagePki
        } else {
            Task::WriteImage
        },
        Task::StagePki => Task::WriteImage,
        Task::WriteImage => if v.emit {
            Task::EmitBoot
        } else {
            Task::Done
        },
        Task::EmitBoot => Task::Done,
        Task::Done => Task::Done,
        Task::Fail => Task::Fail,
    }
}

/// The build after `o`.
pub open spec fn next(v: BuildView, o: Outcome) -> BuildView {
    match o {
        Outcome::Failed => BuildView { task: Task::Fail, ..v },
        Outcome::Listed { count } => BuildView {
            count: count as nat,
            task: Task::MakeScratch,
            ..v
        },
        Outcome::Finished => BuildView { task: task_after(v), ..v },
    }
}

/// A build under way.
#[derive(Debug)]
pub struct BuildRun {
    pki: bool,
    emit: bool,
    count: usize,
    task: Task,
}

impl View for BuildRun {
    type V = BuildView;

    closed spec fn view(&self) -> BuildView {
        BuildView { pki: self.pki, emit: self.emit, count: self.count as nat, task: self.task }
    }
}

impl BuildRun {
    /// Starts a build.
    pub fn start(pki: bool, emit: bool) -> (r: BuildRun)
        ensures
            r@ == (BuildView { pki, emit, count: 0, task: Task::CheckConfig }),
    {
        BuildRun { pki, emit, count: 0, task: Task::CheckConfig }
    }

    /// The task that is waited for.
    pub fn task(&self) -> (r: Task)
        ensures
            r == self@.task,
    {
        self.task
    }

    /// Takes what came of the task that was waited for; says which is next.
    pub fn step(&mut self, o: Outcome) -> (r: Task)
        requires
            can_follow(old(self)@.task, o),
        ensures
            final(self)@ == next(old(self)@, o),
            r == final(self)@.task,
    {
        let task = match o {
            Outcome::Failed => Task::Fail,
            Outcome::Listed { count } => {
                self.count = count;
                Task::MakeScratch
            },
            Outcome::Finished => match self.task {
                Task::CheckConfig => if self.pki {
                    Task::CheckPki
                } else {
                    Task::LoadManifest
                },
                Task::CheckPki => Task::LoadManifest,
                Task::LoadManifest => Task::MakeScratch,
                Task::MakeScratch => Task::Fetch { index: 0 },
                Task::Fetch { index } => Task::Place { index },
                Task::Place { index } => if index < self.count && index + 1 < self.count {
                    Task::Fetch { index: index + 1 }
                } else {
                    Task::FindKernel
                },
                Task::FindKernel => Task::Prune,
                Task::Prune => Task::MakeInitramfs,
                Task::MakeInitramfs => Task::StageFiles,
                Task::StageFiles => if self.pki {
                    Task::StagePki
                } else {
                    Task::WriteImage
                },
                Task::StagePki => Task::WriteImage,
                Task::WriteImage => if self.emit {
                    Task::EmitBoot
                } else {
                    Task::Done
                },
                Task::EmitBoot => Task::Done,
                Task::Done => Task::Done,
                Task::Fail => Task::Fail,
            },
        };
        self.task = task;
        task
    }
}

/// How far a build has come.
pub open spec fn progress(v: BuildView) -> int {
    match v.task {
        Task::CheckConfig => 0,
        Task::CheckPki => 1,
        Task::LoadManifest => 2,
        Task::MakeScratch => 3,
        Task::Fetch { index } => 4 + 2 * index,
        Task::Place { index } => 5 + 2 * index,
        Task::FindKernel => 4 + 2 * (v.count as int),
        Task::Prune => 5 + 2 * (v.count as int),
        Task::MakeInitramfs => 6 + 2 * (v.count as int),
        Task::StageFiles => 7 + 2 * (v.count as int),
        Task::StagePki => 8 + 2 * (v.count as int),
        Task::WriteImage => 9 + 2 * (v.count as int),
        Task::EmitBoot => 10 + 2 * (v.count as int),
        Task::Done => 11 + 2 * (v.count as int),
        Task::Fail => 12 + 2 * (v.count as int),
    }
}

/// What holds of every build: an artifact that it works on is listed.
pub open spec fn is_build(v: BuildView) -> bool {
    &&& v.count <= usize::MAX
    &&& match v.task {
        Task::Fetch { index } => index < v.count,
        Task::Place { index } => index < v.count,
        Task::MakeScratch => v.count > 0,
        _ => true,
    }
}

/// A build only goes forward, one task at a time: it checks the configuration
/// before it does anything else, an artifact is placed only when it was
/// fetched, and the image is written only when all of them were placed. What
/// has failed stays failed.
pub proof fn a_build_goes_forward(v: BuildView, o: Outcome)
    requires
        is_build(v),
        can_follow(v.task, o),
    ensures
        is_build(next(v, o)),
        progress(next(v, o)) > progress(v),
        o is Failed ==> next(v, o).task is Fail,
        !(next(v, o).task is CheckConfig),
        next(v, o).task is Place ==> v.task == (Task::Fetch { index: next(v, o).task->Place_index }),
        next(v, o).task is FindKernel ==> v.task is Place && v.task->Place_index + 1 == v.count,
        next(v, o).task is WriteImage ==> v.task is StageFiles || v.task is StagePki,
{
}

/// The tasks of a build that goes well, behind the listing of `count` artifacts:
/// the state after `n` tasks that were done.
pub open spec fn after_tasks(v: BuildView, count: usize, n: nat) -> BuildView
    decreases n,
{
    if n == 0 {
        next(v, Outcome::Listed { count })
    } else {
        next(after_tasks(v, count, (n - 1) as nat), Outcome::Finished)
    }
}

proof fn lemma_fetching(v: BuildView, count: usize, i: nat)
    requires
        v.task is LoadManifest,
        i < count,
    ensures
        after_tasks(v, count, 1 + 2 * i) == (BuildView {
            count: count as nat,
            task: Task::Fetch { index: i as usize },
            ..v
        }),
        after_tasks(v, count, 2 + 2 * i) == (BuildView {
            count: count as nat,
            task: Task::Place { index: i as usize },
            ..v
        }),
    decreases i,
{
    if i == 0 {
        reveal_with_fuel(after_tasks, 3);
    } else {
        lemma_fetching(v, count, (i - 1) as nat);
        let n = 2 * i;
        assert(after_tasks(v, count, (n + 1) as nat) == next(
            after_tasks(v, count, n as nat),
            Outcome::Finished,
        ));
        assert(after_tasks(v, count, (n + 2) as nat) == next(
            after_tasks(v, count, (n + 1) as nat),
            Outcome::Finished,
        ));
    }
}

/// Every artifact that the manifest lists is fetched and placed, once each and in
/// its order, before the kernel is looked for.
pub proof fn every_artifact_is_fetched_and_placed(v: BuildView, count: usize, i: nat)
    requires
        v.task is LoadManifest,
        i < count,
    ensures
        after_tasks(v, count, 1 + 2 * i).task == (Task::Fetch { index: i as usize }),
        after_tasks(v, count, 2 + 2 * i).task == (Task::Place { index: i as usize }),
        after_tasks(v, count, 1 + 2 * (count as nat)).task is FindKernel,
{
    lemma_fetching(v, count, i);
    lemma_fetching(v, count, (count - 1) as nat);
    let n = 2 * (count as nat);
    assert(after_tasks(v, count, n + 1) == next(after_tasks(v, count, n), Outcome::Finished));
}

/// Once the kernel is found, the root filesystem is stripped, the initramfs is
/// built and staged, the PKI is staged where there is one, and the image is
/// written last; kernel and initramfs are put beside it where that was asked
/// for.
pub proof fn an_image_is_written_last(v: BuildView)
    requires
        v.task is FindKernel,
    ensures
        ({
            let a = next(v, Outcome::Finished);
            let b = next(a, Outcome::Finished);
            let c = next(b, Outcome::Finished);
            let d = next(c, Outcome::Finished);
            let e = next(d, Outcome::Finished);
            &&& a.task is Prune
            &&& b.task is MakeInitramfs
            &&& c.task is StageFiles
            &&& v.pki ==> d.task is StagePki && e.task is WriteImage
            &&& !v.pki ==> d.task is WriteImage
            &&& v.pki && v.emit ==> next(e, Outcome::Finished).task is EmitBoot
            &&& v.pki && !v.emit ==> next(e, Outcome::Finished).task is Done
            &&& !v.pki && v.emit ==> e.task is EmitBoot
            &&& !v.pki && !v.emit ==> e.task is Done
        }),
{
}

/// A PKI that was given is checked before anything is fetched, and is staged
/// whole: each of its files is seen to be there, and is copied under its own
/// name.
pub proof fn the_pki_is_staged_whole(pki: Seq<char>, staging: Seq<char>, f: Seq<char>)
    requires
        f == "ca.pem"@ || f == "ca.key"@ || f == "server.pem"@ || f == "server.key"@,
    ensures
        exists|i: int|
            0 <= i < pki_checks(pki).len() && (#[trigger] pki_checks(pki)[i]).act == (
            crate::imager::stage::ActView::Require { path: crate::paths::below(pki, f) }),
        exists|i: int|
            0 <= i < pki_copies(pki, staging).len() && (#[trigger] pki_copies(pki, staging)[i]).act
                == (crate::imager::stage::ActView::Copy {
                from: crate::paths::below(pki, f),
                to: crate::paths::below(crate::paths::below(staging, "pki"@), f),
            }),
        pki_checks(pki).len() == 4,
        pki_copies(pki, staging).len() == 5,
{
    let k: int = if f == "ca.pem"@ {
        0
    } else if f == "ca.key"@ {
        1
    } else if f == "server.pem"@ {
        2
    } else {
        3
    };
    assert(PKI_FILES@[k]@ == f);
    assert(pki_checks(pki)[k].act == (crate::imager::stage::ActView::Require {
        path: crate::paths::below(pki, f),
    }));
    assert(pki_copies(pki, staging)[k + 1].act == (crate::imager::stage::ActView::Copy {
        from: crate::paths::below(pki, f),
        to: crate::paths::below(crate::paths::below(staging, "pki"@), f),
    }));
}

/// The kind of an artifact decides where it goes, and nothing else does; a
/// program and an image archive are staged under the name that they are given,
/// or else under their own.
pub proof fn an_artifact_goes_where_its_kind_says(a: crate::imager::manifest::Artifact)
    ensures
        a.kind@ == "apk"@ ==> route_of(a@) == Some(RouteView::Rootfs),
        a.kind@ == "boot-tarball"@ ==> route_of(a@) == Some(RouteView::BootTarball),
        a.kind@ == "cni-plugins"@ ==> route_of(a@) == Some(RouteView::CniPlugins),
        a.kind@ == "sd-boot-efi"@ ==> route_of(a@) == Some(RouteView::BootLoader),
        a.kind@ == "boot-binary"@ ==> (route_of(a@) matches Some(RouteView::BootBinary { name })
            && match a.rename {
            Some(other) => name == other@,
            None => name == a.name@,
        }),
        a.kind@ == "oci-image"@ ==> (route_of(a@) matches Some(RouteView::OciImage { name })
            && match a.rename {
            Some(other) => name == other@,
            None => name == a.name@,
        }),
        route_of(a@) is None ==> a.kind@ != "apk"@ && a.kind@ != "boot-binary"@,
{
    lemma_kinds_differ();
}

proof fn lemma_kinds_differ()
    ensures
        "apk"@ != "boot-tarball"@,
        "apk"@ != "boot-binary"@,
        "apk"@ != "oci-image"@,
        "apk"@ != "cni-plugins"@,
        "apk"@ != "sd-boot-efi"@,
        "boot-tarball"@ != "boot-binary"@,
        "boot-tarball"@ != "oci-image"@,
        "boot-tarball"@ != "cni-plugins"@,
        "boot-tarball"@ != "sd-boot-efi"@,
        "boot-binary"@ != "oci-image"@,
        "boot-binary"@ != "cni-plugins"@,
        "boot-binary"@ != "sd-boot-efi"@,
        "oci-image"@ != "cni-plugins"@,
        "oci-image"@ != "sd-boot-efi"@,
        "cni-plugins"@ != "sd-boot-efi"@,
{
    reveal_strlit("apk");
    reveal_strlit("boot-tarball");
    reveal_strlit("boot-binary");
    reveal_strlit("oci-image");
    reveal_strlit("cni-plugins");
    reveal_strlit("sd-boot-efi");
    assert("apk"@[0] == 'a' && "boot-tarball"@[0] == 'b' && "boot-binary"@[0] == 'b'
        && "oci-image"@[0] == 'o' && "cni-plugins"@[0] == 'c' && "sd-boot-efi"@[0] == 's');
    assert("boot-tarball"@.len() != "boot-binary"@.len());
}

/// Programs, images, plugins and the boot loader have directories of their own
/// on the boot partition; packages are not staged there.
pub proof fn each_route_has_its_directory(name: Seq<char>)
    ensures
        boot_dir(RouteView::Rootfs) is None,
        boot_dir(RouteView::BootTarball) == Some("bin"@),
        boot_dir(RouteView::BootBinary { name }) == Some("bin"@),
        boot_dir(RouteView::OciImage { name }) == Some("images"@),
        boot_dir(RouteView::CniPlugins) == Some("cni/bin"@),
        boot_dir(RouteView::BootLoader) == Some("EFI/BOOT"@),
{
}

/// The kernel, the initramfs and the configuration are staged, each in the file
/// in which a node looks for it.
pub proof fn each_part_has_its_file(dir: Seq<char>)
    ensures
        all_placed(staged_parts(), dir).len() == 3,
        all_placed(staged_parts(), dir)[0].part is Kernel,
        all_placed(staged_parts(), dir)[0].path == crate::paths::below(dir, "vmlinuz"@),
        all_placed(staged_parts(), dir)[1].part is Initramfs,
        all_placed(staged_parts(), dir)[1].path == crate::paths::below(dir, "initramfs.img"@),
        all_placed(staged_parts(), dir)[2].part is Config,
        all_placed(staged_parts(), dir)[2].path == crate::paths::below(dir, "config.yaml"@),
        all_placed(emitted_parts(), dir).len() == 2,
{
}

/// A list by name holds what was listed and nothing else, and no text stands
/// behind one that comes later.
pub proof fn a_list_by_name_is_the_list_in_order(names: Seq<Seq<char>>, sorted: Seq<Seq<char>>)
    requires
        is_sorted_list(names, sorted),
        names.len() <= usize::MAX,
    ensures
        sorted.len() == names.len(),
        forall|i: int| 0 <= i < names.len() ==> sorted.contains(#[trigger] names[i]),
        forall|i: int| 0 <= i < sorted.len() ==> names.contains(#[trigger] sorted[i]),
        forall|i: int, j: int|
            0 <= i < j < sorted.len() ==> !crate::order::text_less(
                #[trigger] sorted[j],
                #[trigger] sorted[i],
            ),
{
    let order = choose|order: Seq<usize>| #[trigger]
        crate::order::is_order(names, order) && sorted == Seq::new(
            names.len(),
            |k: int| names[order[k] as int],
        );
    crate::order::an_order_lists_everything_by_name(names, order);
    assert forall|i: int| 0 <= i < names.len() implies sorted.contains(#[trigger] names[i]) by {
        assert(order.contains(i as usize));
        let k = choose|k: int| 0 <= k < order.len() && order[k] == i as usize;
        assert(sorted[k] == names[i]);
    }
    assert forall|i: int| 0 <= i < sorted.len() implies names.contains(#[trigger] sorted[i]) by {
        assert(order[i] < names.len());
        assert(sorted[i] == names[order[i] as int]);
    }
}

/// What is shown where there is not exactly one kernel version names the
/// directory, and ends in what is there, listed by name.
pub proof fn the_kernel_versions_are_shown(
    message: Seq<char>,
    dir: Seq<char>,
    names: Seq<Seq<char>>,
) -> (sorted: Seq<Seq<char>>)
    requires
        is_kver_message(message, dir, names),
    ensures
        crate::text::shows(message, dir),
        is_sorted_list(names, sorted),
        exists|a: Seq<char>| message == #[trigger] (a + crate::imager::codec::debug_of(sorted)),
{
    let sorted = choose|sorted: Seq<Seq<char>>| #[trigger]
        is_sorted_list(names, sorted) && message == "expected exactly one kernel version under "@
            + dir + ", found "@ + crate::imager::codec::debug_of(sorted);
    let end = crate::imager::codec::debug_of(sorted);
    let a = "expected exactly one kernel version under "@ + dir + ", found "@;
    assert(message == a + end);
    crate::text::lemma_shows(
        message,
        "expected exactly one kernel version under "@,
        dir,
        ", found "@ + end,
    );
    sorted
}

} // verus!
