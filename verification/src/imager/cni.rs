//! Network plugins for the boot partition: those that pods need, out of the
//! tarball that all plugins are released in.

use crate::imager::apk::{Plan, Step};
use crate::imager::codec::{lossy, read_gz_tar, TarRead};
use crate::imager::Error;
use crate::paths::{is_contained, path_names};
use vstd::prelude::*;
use vstd::string::*;
use vstd::utf8::*;

verus! {

/// The plugins that are staged.
pub const PLUGINS: [&'static str; 3] = ["bridge", "host-local", "loopback"];

/// The path of an entry without a leading `./`, which stands before all paths of
/// a release.
pub open spec fn relative(path: Seq<u8>) -> Seq<u8> {
    if path.len() >= 2 && path[0] == 46 && path[1] == 47 {
        path.skip(2)
    } else {
        path
    }
}

/// Whether bytes are the name of a plugin that is staged.
pub open spec fn is_plugin(name: Seq<u8>) -> bool {
    exists|i: int| 0 <= i < 3 && name == encode_utf8((#[trigger] PLUGINS@[i])@)
}

/// The name under which an entry is staged: that of a plugin, for a file at the
/// top of the tarball.
pub open spec fn target_of(path: Seq<u8>, is_file: bool) -> Option<Seq<u8>> {
    let names = crate::paths::names_in(relative(path));
    if is_file && names.len() == 1 && is_plugin(names[0]) {
        Some(names[0])
    } else {
        None
    }
}

/// What is shown for a path that leads out of the directory of plugins.
pub open spec fn escape_message(path: Seq<u8>) -> Seq<char> {
    "cni-plugins entry escapes staging: "@ + crate::imager::codec::lossy_of(path)
}

/// What is to be done for an entry. Content that could not be read to its end
/// is not written.
pub open spec fn entry_plan(e: crate::imager::codec::EntryView) -> crate::imager::apk::PlanView {
    if !crate::paths::contained(relative(e.path)) {
        (Seq::empty(), Some(escape_message(e.path)))
    } else {
        match target_of(e.path, e.is_file) {
            Some(target) => if e.whole {
                (
                    seq![
                        crate::imager::apk::StepView::Write { target, data: e.data, mode: 0o755 },
                    ],
                    None,
                )
            } else {
                (Seq::empty(), None)
            },
            None => (Seq::empty(), None),
        }
    }
}

/// What is to be done for the first `n` entries: the first that is refused is
/// the last that is looked at.
pub open spec fn plan_upto(
    entries: Seq<crate::imager::codec::EntryView>,
    n: nat,
) -> crate::imager::apk::PlanView
    decreases n,
{
    if n == 0 {
        (Seq::empty(), None)
    } else {
        let before = plan_upto(entries, (n - 1) as nat);
        if before.1 is Some {
            before
        } else {
            let last = entry_plan(entries[n - 1]);
            (before.0 + last.0, last.1)
        }
    }
}

/// What is to be done for a tarball that was read as `read`.
pub open spec fn plan(
    read: (Seq<crate::imager::codec::EntryView>, Option<Seq<char>>),
) -> crate::imager::apk::PlanView {
    let all = plan_upto(read.0, read.0.len());
    if all.1 is Some {
        all
    } else {
        (all.0, read.1)
    }
}

fn relative_path(path: &Vec<u8>) -> (r: Vec<u8>)
    ensures
        r@ == relative(path@),
{
    let mut i: usize = if path.len() >= 2 && path[0] == 46 && path[1] == 47 {
        2
    } else {
        0
    };
    let ghost from = i as int;
    let mut out: Vec<u8> = Vec::new();
    while i < path.len()
        invariant
            0 <= from <= i <= path@.len(),
            out@ == path@.subrange(from, i as int),
        decreases path@.len() - i,
    {
        out.push(path[i]);
        i += 1;
        assert(out@ =~= path@.subrange(from, i as int));
    }
    assert(out@ =~= relative(path@));
    out
}

fn same_bytes(a: &Vec<u8>, b: &[u8]) -> (r: bool)
    ensures
        r == (a@ == b@),
{
    if a.len() != b.len() {
        return false;
    }
    let mut i: usize = 0;
    while i < a.len()
        invariant
            i <= a@.len() == b@.len(),
            forall|k: int| 0 <= k < i ==> a@[k] == b@[k],
        decreases a@.len() - i,
    {
        if a[i] != b[i] {
            return false;
        }
        i += 1;
    }
    assert(a@ =~= b@);
    true
}

/// The name under which an entry is staged.
pub fn staged_name(path: &Vec<u8>, is_file: bool) -> (r: Option<Vec<u8>>)
    ensures
        match r {
            Some(target) => target_of(path@, is_file) == Some(target@),
            None => target_of(path@, is_file) is None,
        },
{
    if !is_file {
        return None;
    }
    let mut names = path_names(&relative_path(path));
    let ghost texts = crate::paths::byte_texts(names@);
    if names.len() != 1 {
        return None;
    }
    assert(texts[0] == names@[0]@);
    let mut i: usize = 0;
    while i < 3
        invariant
            i <= 3,
            names@.len() == 1,
            texts.len() == 1,
            texts[0] == names@[0]@,
            is_file,
            texts == crate::paths::names_in(relative(path@)),
            forall|k: int| 0 <= k < i ==> texts[0] != encode_utf8((#[trigger] PLUGINS@[k])@),
        decreases 3 - i,
    {
        if same_bytes(&names[0], PLUGINS[i].as_bytes()) {
            assert(texts[0] == encode_utf8(PLUGINS@[i as int]@));
            return Some(names.remove(0));
        }
        i += 1;
    }
    None
}

proof fn lemma_plan_stops(entries: Seq<crate::imager::codec::EntryView>, n: nat, m: nat)
    requires
        n <= m,
        plan_upto(entries, n).1 is Some,
    ensures
        plan_upto(entries, m) == plan_upto(entries, n),
    decreases m,
{
    if n < m {
        lemma_plan_stops(entries, n, (m - 1) as nat);
    }
}

/// What is to be done for a tarball that was read as `read`.
pub fn plan_extraction(read: &TarRead) -> (r: Plan)
    ensures
        r@ == plan(read@),
{
    let mut steps: Vec<Step> = Vec::new();
    let ghost entries = crate::imager::codec::entry_views(read.entries@);
    let mut i: usize = 0;
    assert(crate::imager::apk::step_views(steps@) =~= Seq::empty());
    while i < read.entries.len()
        invariant
            i <= read.entries@.len(),
            entries == crate::imager::codec::entry_views(read.entries@),
            read@.0 == entries,
            plan_upto(entries, i as nat) == (
                crate::imager::apk::step_views(steps@),
                None::<Seq<char>>,
            ),
        decreases read.entries@.len() - i,
    {
        let entry = &read.entries[i];
        let ghost before = crate::imager::apk::step_views(steps@);
        assert(entries[i as int] == entry@);
        assert(before + Seq::empty() =~= before);
        if !is_contained(&relative_path(&entry.path)) {
            let shown = lossy(entry.path.as_slice());
            let message = crate::text::joined(
                "cni-plugins entry escapes staging: ",
                shown.as_str(),
            );
            proof {
                lemma_plan_stops(entries, (i + 1) as nat, entries.len());
            }
            return Plan { steps, error: Some(Error { message }) };
        }
        if let Some(target) = staged_name(&entry.path, entry.is_file) {
            if entry.whole {
                let data = entry.data.clone();
                assert(data@ =~= entry.data@);
                let ghost write = crate::imager::apk::StepView::Write {
                    target: target@,
                    data: entry.data@,
                    mode: 0o755,
                };
                steps.push(Step::Write { target, data, mode: 0o755 });
                assert(crate::imager::apk::step_views(steps@) =~= before + seq![write]);
            }
        }
        i += 1;
    }
    let error = match &read.error {
        Some(text) => Some(Error { message: text.clone() }),
        None => None,
    };
    Plan { steps, error }
}

/// What is to be done to stage the plugins in the gzipped tarball `tgz`,
/// executable.
pub fn extract_cni_plugins(tgz: &[u8]) -> (r: Plan)
    ensures
        r@ == plan(crate::imager::codec::gz_tar(tgz@)),
{
    let read = read_gz_tar(tgz);
    plan_extraction(&read)
}

/// Whatever a tarball holds, plugins alone are staged, each under its own name.
pub proof fn only_plugins_are_staged(
    read: (Seq<crate::imager::codec::EntryView>, Option<Seq<char>>),
)
    ensures
        forall|i: int|
            0 <= i < plan(read).0.len() ==> (#[trigger] plan(read).0[i] matches
                crate::imager::apk::StepView::Write { target, data, mode } && is_plugin(target)
                && mode == 0o755),
{
    lemma_only_plugins(read.0, read.0.len());
}

proof fn lemma_only_plugins(entries: Seq<crate::imager::codec::EntryView>, n: nat)
    ensures
        forall|i: int|
            0 <= i < plan_upto(entries, n).0.len() ==> (#[trigger] plan_upto(entries, n).0[i]
                matches crate::imager::apk::StepView::Write { target, data, mode } && is_plugin(
                target,
            ) && mode == 0o755),
    decreases n,
{
    if n > 0 {
        lemma_only_plugins(entries, (n - 1) as nat);
        let before = plan_upto(entries, (n - 1) as nat);
        let last = entry_plan(entries[n - 1]);
        let all = plan_upto(entries, n);
        assert forall|i: int| 0 <= i < all.0.len() implies (#[trigger] all.0[i] matches
            crate::imager::apk::StepView::Write { target, data, mode } && is_plugin(target)
            && mode == 0o755) by {
            if i < before.0.len() {
                assert(all.0[i] == before.0[i]);
            } else {
                assert(all.0[i] == last.0[i - before.0.len()]);
            }
        }
    }
}

proof fn lemma_plan_holds(
    entries: Seq<crate::imager::codec::EntryView>,
    k: int,
    n: nat,
    step: crate::imager::apk::StepView,
)
    requires
        0 <= k < n <= entries.len(),
        plan_upto(entries, n).1 is None,
        entry_plan(entries[k]).0.contains(step),
    ensures
        plan_upto(entries, n).0.contains(step),
    decreases n,
{
    let before = plan_upto(entries, (n - 1) as nat);
    let last = entry_plan(entries[n - 1]);
    let all = plan_upto(entries, n);
    if k == n - 1 {
        let x = choose|x: int| 0 <= x < last.0.len() && last.0[x] == step;
        assert(all.0[before.0.len() + x] == step);
    } else {
        lemma_plan_holds(entries, k, (n - 1) as nat, step);
        let x = choose|x: int| 0 <= x < before.0.len() && before.0[x] == step;
        assert(all.0[x] == step);
    }
}

proof fn lemma_refused(entries: Seq<crate::imager::codec::EntryView>, k: int, n: nat)
    requires
        0 <= k < n <= entries.len(),
        !crate::paths::contained(relative(entries[k].path)),
    ensures
        plan_upto(entries, n).1 is Some,
    decreases n,
{
    if k < n - 1 {
        lemma_refused(entries, k, (n - 1) as nat);
    }
}

/// A tarball with an entry that leads out of the directory of plugins is
/// refused.
pub proof fn a_path_that_leads_out_is_refused(
    read: (Seq<crate::imager::codec::EntryView>, Option<Seq<char>>),
    k: int,
)
    requires
        0 <= k < read.0.len(),
        !crate::paths::contained(relative(read.0[k].path)),
    ensures
        plan(read).1 is Some,
{
    lemma_refused(read.0, k, read.0.len());
}

proof fn lemma_plugin_name(name: Seq<char>)
    requires
        name == "bridge"@ || name == "host-local"@ || name == "loopback"@,
    ensures
        is_plugin(encode_utf8(name)),
        crate::paths::is_name(encode_utf8(name)),
        encode_utf8(name)[0] != 46,
{
    reveal_strlit("bridge");
    reveal_strlit("host-local");
    reveal_strlit("loopback");
    is_ascii_chars_encode_utf8(name);
    let b = encode_utf8(name);
    assert(b.len() == name.len());
    assert forall|i: int| 0 <= i < b.len() implies b[i] != 47 && b[i] != 46 by {
        assert(b[i] == name[i] as u8);
    }
    assert(b[0] != 46);
    if name == "bridge"@ {
        assert(b == encode_utf8(PLUGINS@[0]@));
    } else if name == "host-local"@ {
        assert(b == encode_utf8(PLUGINS@[1]@));
    } else {
        assert(b == encode_utf8(PLUGINS@[2]@));
    }
    if b == seq![46u8, 46u8] {
        assert(b[0] == 46);
    }
    if b == seq![46u8] {
        assert(b[0] == 46);
    }
}

/// Of a tarball that is not refused, each of the plugins that pods need is
/// staged, under its name, with its content, and executable, whether or not
/// `./` stands before its path.
pub proof fn every_plugin_is_staged(
    read: (Seq<crate::imager::codec::EntryView>, Option<Seq<char>>),
    k: int,
    name: Seq<char>,
)
    requires
        plan(read).1 is None,
        0 <= k < read.0.len(),
        read.0[k].is_file,
        read.0[k].whole,
        name == "bridge"@ || name == "host-local"@ || name == "loopback"@,
        read.0[k].path == encode_utf8(name) || read.0[k].path == seq![46u8, 47u8] + encode_utf8(
            name,
        ),
    ensures
        plan(read).0.contains(
            crate::imager::apk::StepView::Write {
                target: encode_utf8(name),
                data: read.0[k].data,
                mode: 0o755,
            },
        ),
{
    let e = read.0[k];
    let b = encode_utf8(name);
    lemma_plugin_name(name);
    assert(relative(e.path) =~= b) by {
        if e.path == seq![46u8, 47u8] + b {
            assert(e.path[0] == 46 && e.path[1] == 47);
            assert(e.path.skip(2) =~= b);
        }
    }
    let one = seq![b];
    assert(one[0] == b);
    assert(crate::paths::path_of(one) == b);
    crate::paths::the_names_of_a_path_are_found_again(one);
    if !crate::paths::contained(b) {
        a_path_that_leads_out_is_refused(read, k);
    }
    let step = crate::imager::apk::StepView::Write { target: b, data: e.data, mode: 0o755 };
    assert(entry_plan(e).0[0] == step);
    lemma_plan_holds(read.0, k, read.0.len(), step);
}

/// Nothing is staged that is not one of the three plugins.
pub proof fn there_are_three_plugins(name: Seq<u8>)
    requires
        is_plugin(name),
    ensures
        name == encode_utf8("bridge"@) || name == encode_utf8("host-local"@) || name == encode_utf8(
            "loopback"@,
        ),
{
    let i = choose|i: int| 0 <= i < 3 && name == encode_utf8((#[trigger] PLUGINS@[i])@);
    assert(i == 0 || i == 1 || i == 2);
}

/// A tarball that breaks off is refused, whatever was read of it before.
pub proof fn a_broken_tarball_is_refused(
    read: (Seq<crate::imager::codec::EntryView>, Option<Seq<char>>),
)
    requires
        read.1 is Some,
    ensures
        plan(read).1 is Some,
        plan_upto(read.0, read.0.len()).1 is None ==> plan(read).1 == read.1,
{
}

proof fn lemma_written(entries: Seq<crate::imager::codec::EntryView>, n: nat, x: int)
    requires
        n <= entries.len(),
        0 <= x < plan_upto(entries, n).0.len(),
        plan_upto(entries, n).0[x] is Write,
    ensures
        exists|k: int|
            0 <= k < n && (#[trigger] entries[k]).is_file && entries[k].whole
                && target_of(entries[k].path, true) == Some(plan_upto(entries, n).0[x]->Write_target)
                && entries[k].data == plan_upto(entries, n).0[x]->data,
    decreases n,
{
    if n > 0 {
        let before = plan_upto(entries, (n - 1) as nat);
        let last = entry_plan(entries[n - 1]);
        let all = plan_upto(entries, n);
        if x < before.0.len() {
            assert(all.0[x] == before.0[x]);
            lemma_written(entries, (n - 1) as nat, x);
        } else {
            assert(all.0[x] == last.0[x - before.0.len()]);
            assert(entries[n - 1].is_file);
        }
    }
}

/// What is written is the whole content of a regular file of the tarball, and of
/// the one whose path leads there.
pub proof fn what_is_written_was_in_the_tarball(
    read: (Seq<crate::imager::codec::EntryView>, Option<Seq<char>>),
    x: int,
)
    requires
        0 <= x < plan(read).0.len(),
        plan(read).0[x] is Write,
    ensures
        exists|k: int|
            0 <= k < read.0.len() && (#[trigger] read.0[k]).is_file && read.0[k].whole
                && target_of(read.0[k].path, true) == Some(plan(read).0[x]->Write_target)
                && read.0[k].data == plan(read).0[x]->data,
{
    lemma_written(read.0, read.0.len(), x);
}

proof fn lemma_not_refused(entries: Seq<crate::imager::codec::EntryView>, n: nat)
    requires
        n <= entries.len(),
        forall|k: int|
            0 <= k < entries.len() ==> crate::paths::contained(
                relative((#[trigger] entries[k]).path),
            ),
    ensures
        plan_upto(entries, n).1 is None,
    decreases n,
{
    if n > 0 {
        lemma_not_refused(entries, (n - 1) as nat);
        assert(crate::paths::contained(relative(entries[n - 1].path)));
    }
}

/// A tarball whose entries all stay inside is not refused for them: it ends as
/// its reading ended.
pub proof fn a_sound_tarball_is_not_refused(
    read: (Seq<crate::imager::codec::EntryView>, Option<Seq<char>>),
)
    requires
        forall|k: int|
            0 <= k < read.0.len() ==> crate::paths::contained(
                relative((#[trigger] read.0[k]).path),
            ),
    ensures
        plan(read).1 == read.1,
{
    lemma_not_refused(read.0, read.0.len());
}

} // verus!
