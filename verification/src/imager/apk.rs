//! Packages to be unpacked into a root filesystem.
//!
//! A package is a sequence of gzipped tar streams that read as one archive. Its
//! payload is every entry whose path does not start with `.`; the others are
//! metadata. Compressed kernel modules (`*.ko.gz`) are written decompressed, so
//! that a node needs no support for compressed modules.

use crate::imager::codec::{gunzip, lossy, read_multi_gz_tar, TarRead};
use crate::imager::Error;
use crate::paths::is_contained;
use vstd::prelude::*;
use vstd::string::*;

verus! {

/// What is to be done in the root filesystem.
#[derive(Debug)]
pub enum Step {
    /// Create the directory that `target` is in, and those above it.
    MakeParent { target: Vec<u8> },
    /// Write a file with this content and these permissions.
    Write { target: Vec<u8>, data: Vec<u8>, mode: u32 },
    /// Unpack the entry at this index of the archive.
    Unpack { index: usize },
}

/// What a step says.
#[verifier::ext_equal]
pub enum StepView {
    MakeParent { target: Seq<u8> },
    Write { target: Seq<u8>, data: Seq<u8>, mode: u32 },
    Unpack { index: nat },
}

impl View for Step {
    type V = StepView;

    open spec fn view(&self) -> StepView {
        match *self {
            Step::MakeParent { target } => StepView::MakeParent { target: target@ },
            Step::Write { target, data, mode } => StepView::Write {
                target: target@,
                data: data@,
                mode,
            },
            Step::Unpack { index } => StepView::Unpack { index: index as nat },
        }
    }
}

/// What steps say.
pub open spec fn step_views(v: Seq<Step>) -> Seq<StepView> {
    Seq::new(v.len(), |i: int| v[i]@)
}

/// The steps to be done in order, and the error that stands behind them.
#[derive(Debug)]
pub struct Plan {
    pub steps: Vec<Step>,
    pub error: Option<Error>,
}

/// What a plan says.
pub type PlanView = (Seq<StepView>, Option<Seq<char>>);

/// The message of an error, if there is one.
pub open spec fn message_of(e: Option<Error>) -> Option<Seq<char>> {
    match e {
        Some(e) => Some(e.message@),
        None => None,
    }
}

impl View for Plan {
    type V = PlanView;

    open spec fn view(&self) -> PlanView {
        (step_views(self.steps@), message_of(self.error))
    }
}

/// What an entry of a package is.
#[derive(Clone, Copy, Debug, PartialEq, Eq, Structural)]
pub enum Kind {
    /// Nothing to be unpacked: metadata, or an entry without a path.
    Skip,
    /// An entry whose path leads out of the root filesystem.
    Escape,
    /// A compressed kernel module.
    Module,
    /// Anything else.
    Payload,
}

/// The bytes of `.ko.gz`.
pub open spec fn ko_gz() -> Seq<u8> {
    seq![46u8, 107u8, 111u8, 46u8, 103u8, 122u8]
}

/// Whether a path ends in `.ko.gz`.
pub open spec fn is_module(path: Seq<u8>) -> bool {
    path.len() >= 6 && path.skip(path.len() - 6) == ko_gz()
}

/// What the entry at `path` is. That a path leads out counts before that it
/// starts with `.`: a leading `..` is no metadata.
pub open spec fn kind_of(path: Seq<u8>) -> Kind {
    if path.len() == 0 {
        Kind::Skip
    } else if !crate::paths::contained(path) {
        Kind::Escape
    } else if path[0] == 46 {
        Kind::Skip
    } else if is_module(path) {
        Kind::Module
    } else {
        Kind::Payload
    }
}

/// Where the module at `path` is written: without `.gz`.
pub open spec fn module_target(path: Seq<u8>) -> Seq<u8> {
    path.take(path.len() - 3)
}

/// What is shown for a path that leads out.
pub open spec fn escape_message(path: Seq<u8>) -> Seq<char> {
    "apk entry escapes rootfs: "@ + crate::imager::codec::lossy_of(path)
}

/// What is shown for a module that cannot be decompressed.
pub open spec fn module_message(path: Seq<u8>) -> Seq<char> {
    "decompressing module "@ + crate::imager::codec::lossy_of(path)
}

/// What is to be done for the entry at `index`, whose content decompresses to
/// `raw`.
pub open spec fn entry_plan(index: nat, path: Seq<u8>, raw: Option<Seq<u8>>) -> PlanView {
    match kind_of(path) {
        Kind::Skip => (Seq::empty(), None),
        Kind::Escape => (Seq::empty(), Some(escape_message(path))),
        Kind::Module => {
            let parent = StepView::MakeParent { target: module_target(path) };
            match raw {
                Some(data) => (
                    seq![
                        parent,
                        StepView::Write { target: module_target(path), data, mode: 0o644 },
                    ],
                    None,
                ),
                None => (seq![parent], Some(module_message(path))),
            }
        },
        Kind::Payload => (seq![StepView::Unpack { index }], None),
    }
}

/// What is to be done for the first `n` entries: the first that is refused is
/// the last that is looked at.
pub open spec fn plan_upto(
    entries: Seq<crate::imager::codec::EntryView>,
    raws: Seq<Option<Seq<u8>>>,
    n: nat,
) -> PlanView
    decreases n,
{
    if n == 0 {
        (Seq::empty(), None)
    } else {
        let before = plan_upto(entries, raws, (n - 1) as nat);
        if before.1 is Some {
            before
        } else {
            let last = entry_plan((n - 1) as nat, entries[n - 1].path, raws[n - 1]);
            (before.0 + last.0, last.1)
        }
    }
}

/// What is to be done for a package that was read as `read`, the contents of
/// its modules decompressed to `raws`.
pub open spec fn plan(
    read: (Seq<crate::imager::codec::EntryView>, Option<Seq<char>>),
    raws: Seq<Option<Seq<u8>>>,
) -> PlanView {
    let all = plan_upto(read.0, raws, read.0.len());
    if all.1 is Some {
        all
    } else {
        (all.0, read.1)
    }
}

/// What contents say.
pub open spec fn raw_views(v: Seq<Option<Vec<u8>>>) -> Seq<Option<Seq<u8>>> {
    Seq::new(
        v.len(),
        |i: int|
            match v[i] {
                Some(data) => Some(data@),
                None => None,
            },
    )
}

/// What the entry at `path` is.
pub fn classify(path: &Vec<u8>) -> (r: Kind)
    ensures
        r == kind_of(path@),
{
    let len: usize = path.len();
    if len == 0 {
        return Kind::Skip;
    }
    if !is_contained(path) {
        return Kind::Escape;
    }
    if path[0] == 46 {
        return Kind::Skip;
    }
    if len >= 6 {
        let ghost tail = path@.skip(len - 6);
        let found = path[len - 6] == 46 && path[len - 5] == 107 && path[len - 4] == 111
            && path[len - 3] == 46 && path[len - 2] == 103 && path[len - 1] == 122;
        assert(tail[0] == path@[len - 6] && tail[1] == path@[len - 5] && tail[2] == path@[len - 4]
            && tail[3] == path@[len - 3] && tail[4] == path@[len - 2] && tail[5] == path@[len
            - 1]);
        assert(found == (tail =~= ko_gz()));
        if found {
            return Kind::Module;
        }
    }
    Kind::Payload
}

/// A message that ends in a path.
fn path_error(text: &str, path: &Vec<u8>) -> (r: Error)
    ensures
        r.message@ == text@ + crate::imager::codec::lossy_of(path@),
{
    let shown = lossy(path.as_slice());
    let mut message = text.to_owned();
    message.append(shown.as_str());
    Error { message }
}

/// What is to be done for a package that was read as `read`. Where the entry
/// at an index is a module, `raws` holds its decompressed content, or `None`
/// where it could not be decompressed.
pub fn plan_extraction(read: &TarRead, raws: &Vec<Option<Vec<u8>>>) -> (r: Plan)
    requires
        raws@.len() == read.entries@.len(),
    ensures
        r@ == plan(read@, raw_views(raws@)),
{
    let mut steps: Vec<Step> = Vec::new();
    let ghost entries = crate::imager::codec::entry_views(read.entries@);
    let ghost views = raw_views(raws@);
    let mut i: usize = 0;
    assert(step_views(steps@) =~= Seq::empty());
    while i < read.entries.len()
        invariant
            i <= read.entries@.len() == raws@.len(),
            entries == crate::imager::codec::entry_views(read.entries@),
            read@.0 == entries,
            views == raw_views(raws@),
            plan_upto(entries, views, i as nat) == (step_views(steps@), None::<Seq<char>>),
        decreases read.entries@.len() - i,
    {
        let path = &read.entries[i].path;
        let ghost before = step_views(steps@);
        assert(entries[i as int].path == path@);
        let kind = classify(path);
        let mut refused: Option<Error> = None;
        match kind {
            Kind::Skip => {
                assert(before + Seq::empty() =~= before);
            },
            Kind::Escape => {
                refused = Some(path_error("apk entry escapes rootfs: ", path));
                assert(before + Seq::empty() =~= before);
            },
            Kind::Module => {
                let mut target = path.clone();
                assert(target@ =~= path@);
                target.truncate(path.len() - 3);
                assert(target@ =~= module_target(path@));
                let same = target.clone();
                assert(same@ =~= target@);
                steps.push(Step::MakeParent { target: same });
                let ghost parent = StepView::MakeParent { target: module_target(path@) };
                assert(step_views(steps@) =~= before + seq![parent]);
                match &raws[i] {
                    Some(data) => {
                        assert(views[i as int] == Some(data@));
                        let copy = data.clone();
                        assert(copy@ =~= data@);
                        steps.push(Step::Write { target, data: copy, mode: 0o644 });
                        let ghost write = StepView::Write {
                            target: module_target(path@),
                            data: data@,
                            mode: 0o644,
                        };
                        assert(step_views(steps@) =~= before + seq![parent, write]);
                    },
                    None => {
                        assert(views[i as int] is None);
                        refused = Some(path_error("decompressing module ", path));
                    },
                }
            },
            Kind::Payload => {
                steps.push(Step::Unpack { index: i });
                assert(step_views(steps@) =~= before + seq![StepView::Unpack { index: i as nat }]);
            },
        }
        assert(plan_upto(entries, views, (i + 1) as nat) == (
            step_views(steps@),
            message_of(refused),
        ));
        if refused.is_some() {
            proof {
                lemma_plan_stops(entries, views, (i + 1) as nat, entries.len());
            }
            return Plan { steps, error: refused };
        }
        i += 1;
    }
    let error = match &read.error {
        Some(text) => Some(Error { message: text.clone() }),
        None => None,
    };
    Plan { steps, error }
}

proof fn lemma_plan_stops(
    entries: Seq<crate::imager::codec::EntryView>,
    raws: Seq<Option<Seq<u8>>>,
    n: nat,
    m: nat,
)
    requires
        n <= m,
        plan_upto(entries, raws, n).1 is Some,
    ensures
        plan_upto(entries, raws, m) == plan_upto(entries, raws, n),
    decreases m,
{
    if n < m {
        lemma_plan_stops(entries, raws, n, (m - 1) as nat);
    }
}

/// What the contents of modules among the entries decompress to.
pub open spec fn raws_of(entries: Seq<crate::imager::codec::EntryView>) -> Seq<Option<Seq<u8>>> {
    Seq::new(
        entries.len(),
        |i: int|
            if kind_of(entries[i].path) is Module {
                crate::imager::codec::gunzip_of(entries[i].data)
            } else {
                None
            },
    )
}

/// What is to be done to unpack the package `apk` into a root filesystem.
pub fn extract_apk(apk: &[u8]) -> (r: Plan)
    ensures
        ({
            let read = crate::imager::codec::multi_gz_tar(apk@);
            r@ == plan(read, raws_of(read.0))
        }),
{
    let read = read_multi_gz_tar(apk);
    let mut raws: Vec<Option<Vec<u8>>> = Vec::new();
    let ghost entries = crate::imager::codec::entry_views(read.entries@);
    let mut i: usize = 0;
    while i < read.entries.len()
        invariant
            i <= read.entries@.len(),
            entries == crate::imager::codec::entry_views(read.entries@),
            raw_views(raws@) == raws_of(entries).take(i as int),
        decreases read.entries@.len() - i,
    {
        let ghost before = raws@;
        assert(entries[i as int] == read.entries@[i as int]@);
        let raw: Option<Vec<u8>> = match classify(&read.entries[i].path) {
            Kind::Module => match gunzip(read.entries[i].data.as_slice()) {
                Ok(data) => Some(data),
                Err(_) => None,
            },
            _ => None,
        };
        raws.push(raw);
        i += 1;
        assert(raw_views(raws@) =~= raw_views(before).push(raw_views(raws@)[i - 1]));
        assert(raw_views(raws@) =~= raws_of(entries).take(i as int));
    }
    assert(raws_of(entries).take(i as int) =~= raws_of(entries));
    plan_extraction(&read, &raws)
}

proof fn lemma_module_target(path: Seq<u8>)
    requires
        crate::paths::contained(path),
        is_module(path),
    ensures
        crate::paths::contained(module_target(path)),
{
    let t = module_target(path);
    let tail = path.skip(path.len() - 6);
    assert(tail[0] == 46 && tail[1] == 107 && tail[2] == 111);
    assert(path[path.len() - 6] == 46 && path[path.len() - 5] == 107 && path[path.len() - 4]
        == 111);
    assert forall|i: int| 0 <= i < t.len() implies !(#[trigger] crate::paths::parent_at(t, i)) by {
        assert(!crate::paths::parent_at(path, i));
    }
}

/// Whether a step stays inside the root filesystem.
pub open spec fn stays_inside(
    entries: Seq<crate::imager::codec::EntryView>,
    step: StepView,
) -> bool {
    match step {
        StepView::MakeParent { target } => crate::paths::contained(target),
        StepView::Write { target, .. } => crate::paths::contained(target),
        StepView::Unpack { index } => index < entries.len() && crate::paths::contained(
            entries[index as int].path,
        ) && entries[index as int].path.len() > 0 && entries[index as int].path[0] != 46,
    }
}

proof fn lemma_plan_stays(
    entries: Seq<crate::imager::codec::EntryView>,
    raws: Seq<Option<Seq<u8>>>,
    n: nat,
)
    requires
        n <= entries.len(),
    ensures
        forall|i: int|
            0 <= i < plan_upto(entries, raws, n).0.len() ==> stays_inside(
                entries,
                #[trigger] plan_upto(entries, raws, n).0[i],
            ),
    decreases n,
{
    if n > 0 {
        lemma_plan_stays(entries, raws, (n - 1) as nat);
        let path = entries[n - 1].path;
        if kind_of(path) is Module {
            lemma_module_target(path);
        }
        let before = plan_upto(entries, raws, (n - 1) as nat);
        let last = entry_plan((n - 1) as nat, path, raws[n - 1]);
        let all = plan_upto(entries, raws, n);
        assert forall|i: int| 0 <= i < all.0.len() implies stays_inside(
            entries,
            #[trigger] all.0[i],
        ) by {
            if i < before.0.len() {
                assert(all.0[i] == before.0[i]);
            } else {
                assert(all.0[i] == last.0[i - before.0.len()]);
            }
        }
    }
}

/// Whatever a package holds, nothing is written outside the root filesystem,
/// and no metadata is unpacked.
pub proof fn nothing_is_written_outside(
    read: (Seq<crate::imager::codec::EntryView>, Option<Seq<char>>),
    raws: Seq<Option<Seq<u8>>>,
)
    ensures
        forall|i: int|
            0 <= i < plan(read, raws).0.len() ==> stays_inside(
                read.0,
                #[trigger] plan(read, raws).0[i],
            ),
{
    lemma_plan_stays(read.0, raws, read.0.len());
    let all = plan_upto(read.0, raws, read.0.len());
    assert(plan(read, raws).0 == all.0);
}

proof fn lemma_plan_refuses(
    entries: Seq<crate::imager::codec::EntryView>,
    raws: Seq<Option<Seq<u8>>>,
    k: int,
    n: nat,
)
    requires
        0 <= k < n <= entries.len(),
        kind_of(entries[k].path) is Escape,
    ensures
        plan_upto(entries, raws, n).1 is Some,
    decreases n,
{
    if k < n - 1 {
        lemma_plan_refuses(entries, raws, k, (n - 1) as nat);
    }
}

/// A package with an entry that leads out of the root filesystem is refused.
pub proof fn a_path_that_leads_out_is_refused(
    read: (Seq<crate::imager::codec::EntryView>, Option<Seq<char>>),
    raws: Seq<Option<Seq<u8>>>,
    k: int,
)
    requires
        0 <= k < read.0.len(),
        read.0[k].path.len() > 0,
        !crate::paths::contained(read.0[k].path),
    ensures
        plan(read, raws).1 is Some,
{
    lemma_plan_refuses(read.0, raws, k, read.0.len());
}

proof fn lemma_plan_holds(
    entries: Seq<crate::imager::codec::EntryView>,
    raws: Seq<Option<Seq<u8>>>,
    k: int,
    n: nat,
    step: StepView,
)
    requires
        0 <= k < n <= entries.len(),
        plan_upto(entries, raws, n).1 is None,
        entry_plan(k as nat, entries[k].path, raws[k]).0.contains(step),
    ensures
        plan_upto(entries, raws, n).0.contains(step),
        entry_plan(k as nat, entries[k].path, raws[k]).1 is None,
    decreases n,
{
    let before = plan_upto(entries, raws, (n - 1) as nat);
    let last = entry_plan((n - 1) as nat, entries[n - 1].path, raws[n - 1]);
    let all = plan_upto(entries, raws, n);
    if k == n - 1 {
        let x = choose|x: int| 0 <= x < last.0.len() && last.0[x] == step;
        assert(all.0[before.0.len() + x] == step);
    } else {
        lemma_plan_holds(entries, raws, k, (n - 1) as nat, step);
        let x = choose|x: int| 0 <= x < before.0.len() && before.0[x] == step;
        assert(all.0[x] == step);
    }
}

/// Of a package that is not refused, everything but metadata and compressed
/// modules is unpacked as it is.
pub proof fn every_payload_is_unpacked(
    read: (Seq<crate::imager::codec::EntryView>, Option<Seq<char>>),
    k: int,
)
    requires
        plan(read, raws_of(read.0)).1 is None,
        0 <= k < read.0.len(),
        read.0[k].path.len() > 0,
        read.0[k].path[0] != 46,
        read.0[k].path.len() >= 6 ==> read.0[k].path.skip(read.0[k].path.len() - 6) != seq![
            46u8,
            107u8,
            111u8,
            46u8,
            103u8,
            122u8,
        ],
    ensures
        plan(read, raws_of(read.0)).0.contains(StepView::Unpack { index: k as nat }),
{
    let raws = raws_of(read.0);
    if !crate::paths::contained(read.0[k].path) {
        a_path_that_leads_out_is_refused(read, raws, k);
    }
    let step = StepView::Unpack { index: k as nat };
    assert(kind_of(read.0[k].path) is Payload);
    assert(entry_plan(k as nat, read.0[k].path, raws[k]).0[0] == step);
    lemma_plan_holds(read.0, raws, k, read.0.len(), step);
}

/// Of a package that is not refused, every compressed module is written
/// decompressed, at its path without `.gz`: what is written is what its content
/// decompresses to.
pub proof fn every_module_is_written_decompressed(
    read: (Seq<crate::imager::codec::EntryView>, Option<Seq<char>>),
    k: int,
    stem: Seq<u8>,
)
    requires
        plan(read, raws_of(read.0)).1 is None,
        0 <= k < read.0.len(),
        stem.len() > 0,
        stem[0] != 46,
        read.0[k].path == stem + seq![46u8, 107u8, 111u8, 46u8, 103u8, 122u8],
    ensures
        crate::imager::codec::gunzip_of(read.0[k].data) is Some,
        plan(read, raws_of(read.0)).0.contains(
            StepView::Write {
                target: stem + seq![46u8, 107u8, 111u8],
                data: crate::imager::codec::gunzip_of(read.0[k].data)->0,
                mode: 0o644,
            },
        ),
{
    let raws = raws_of(read.0);
    let path = read.0[k].path;
    let tail = seq![46u8, 107u8, 111u8, 46u8, 103u8, 122u8];
    if !crate::paths::contained(path) {
        a_path_that_leads_out_is_refused(read, raws, k);
    }
    assert(path.skip(path.len() - 6) =~= tail);
    assert(tail =~= ko_gz());
    assert(path[0] == stem[0]);
    assert(kind_of(path) is Module);
    assert(module_target(path) =~= stem + seq![46u8, 107u8, 111u8]);
    let parent = StepView::MakeParent { target: module_target(path) };
    assert(entry_plan(k as nat, path, raws[k]).0[0] == parent);
    lemma_plan_holds(read.0, raws, k, read.0.len(), parent);
    let data = crate::imager::codec::gunzip_of(read.0[k].data);
    assert(raws[k] == data);
    let step = StepView::Write { target: module_target(path), data: data->0, mode: 0o644 };
    assert(entry_plan(k as nat, path, raws[k]).0[1] == step);
    lemma_plan_holds(read.0, raws, k, read.0.len(), step);
}

/// A package that breaks off is refused, whatever was read of it before.
pub proof fn a_broken_package_is_refused(
    read: (Seq<crate::imager::codec::EntryView>, Option<Seq<char>>),
    raws: Seq<Option<Seq<u8>>>,
)
    requires
        read.1 is Some,
    ensures
        plan(read, raws).1 is Some,
        plan_upto(read.0, raws, read.0.len()).1 is None ==> plan(read, raws).1 == read.1,
{
}

proof fn lemma_written(
    entries: Seq<crate::imager::codec::EntryView>,
    raws: Seq<Option<Seq<u8>>>,
    n: nat,
    x: int,
)
    requires
        n <= entries.len(),
        0 <= x < plan_upto(entries, raws, n).0.len(),
        plan_upto(entries, raws, n).0[x] is Write,
    ensures
        exists|k: int|
            0 <= k < n && kind_of((#[trigger] entries[k]).path) is Module
                && plan_upto(entries, raws, n).0[x]->Write_target == module_target(entries[k].path)
                && raws[k] == Some(plan_upto(entries, raws, n).0[x]->data),
    decreases n,
{
    if n > 0 {
        let before = plan_upto(entries, raws, (n - 1) as nat);
        let last = entry_plan((n - 1) as nat, entries[n - 1].path, raws[n - 1]);
        let all = plan_upto(entries, raws, n);
        if x < before.0.len() {
            assert(all.0[x] == before.0[x]);
            lemma_written(entries, raws, (n - 1) as nat, x);
        } else {
            assert(all.0[x] == last.0[x - before.0.len()]);
            assert(kind_of(entries[n - 1].path) is Module);
        }
    }
}

/// Nothing is written but modules, each with what its own content decompresses
/// to.
pub proof fn only_modules_are_written(
    read: (Seq<crate::imager::codec::EntryView>, Option<Seq<char>>),
    x: int,
)
    requires
        0 <= x < plan(read, raws_of(read.0)).0.len(),
        plan(read, raws_of(read.0)).0[x] is Write,
    ensures
        exists|k: int|
            0 <= k < read.0.len() && is_module((#[trigger] read.0[k]).path) && plan(
                read,
                raws_of(read.0),
            ).0[x]->Write_target == read.0[k].path.take(read.0[k].path.len() - 3)
                && crate::imager::codec::gunzip_of(read.0[k].data) == Some(
                plan(read, raws_of(read.0)).0[x]->data,
            ),
{
    let raws = raws_of(read.0);
    lemma_written(read.0, raws, read.0.len(), x);
    let k = choose|k: int|
        0 <= k < read.0.len() && kind_of((#[trigger] read.0[k]).path) is Module && plan_upto(
            read.0,
            raws,
            read.0.len(),
        ).0[x]->Write_target == module_target(read.0[k].path) && raws[k] == Some(
            plan_upto(read.0, raws, read.0.len()).0[x]->data,
        );
    assert(is_module(read.0[k].path));
    assert(raws[k] == crate::imager::codec::gunzip_of(read.0[k].data));
}

proof fn lemma_not_refused(
    entries: Seq<crate::imager::codec::EntryView>,
    raws: Seq<Option<Seq<u8>>>,
    n: nat,
)
    requires
        n <= entries.len(),
        forall|k: int|
            0 <= k < entries.len() ==> entry_plan(
                k as nat,
                (#[trigger] entries[k]).path,
                raws[k],
            ).1 is None,
    ensures
        plan_upto(entries, raws, n).1 is None,
    decreases n,
{
    if n > 0 {
        lemma_not_refused(entries, raws, (n - 1) as nat);
        assert(entry_plan((n - 1) as nat, entries[n - 1].path, raws[n - 1]).1 is None);
    }
}

/// A package whose entries all stay inside and whose modules can all be
/// decompressed is not refused for them: it ends as its reading ended.
pub proof fn a_sound_package_is_not_refused(
    read: (Seq<crate::imager::codec::EntryView>, Option<Seq<char>>),
)
    requires
        forall|k: int|
            0 <= k < read.0.len() ==> crate::paths::contained((#[trigger] read.0[k]).path) && (
            is_module(read.0[k].path) ==> crate::imager::codec::gunzip_of(read.0[k].data) is Some),
    ensures
        plan(read, raws_of(read.0)).1 == read.1,
{
    let raws = raws_of(read.0);
    assert forall|k: int| 0 <= k < read.0.len() implies entry_plan(
        k as nat,
        (#[trigger] read.0[k]).path,
        raws[k],
    ).1 is None by {
        assert(crate::paths::contained(read.0[k].path));
    }
    lemma_not_refused(read.0, raws, read.0.len());
}

} // verus!
