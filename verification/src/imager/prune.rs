//! Stripping a root filesystem down to what an initramfs needs.

use crate::imager::tree::{child_path, Named, Node};
use crate::text::{joined, same};
use vstd::prelude::*;
use vstd::string::*;

verus! {

/// What is to be removed from a tree.
#[derive(Debug, PartialEq, Eq)]
pub enum Removal {
    /// Anything but a directory.
    File { path: String },
    /// A directory that is empty by then.
    Dir { path: String },
    /// A directory with all that is in it.
    Tree { path: String },
}

/// What a removal says.
#[verifier::ext_equal]
pub enum RemovalView {
    File { path: Seq<char> },
    Dir { path: Seq<char> },
    Tree { path: Seq<char> },
}

impl View for Removal {
    type V = RemovalView;

    open spec fn view(&self) -> RemovalView {
        match *self {
            Removal::File { path } => RemovalView::File { path: path@ },
            Removal::Dir { path } => RemovalView::Dir { path: path@ },
            Removal::Tree { path } => RemovalView::Tree { path: path@ },
        }
    }
}

/// What removals say.
pub open spec fn removal_views(v: Seq<Removal>) -> Seq<RemovalView> {
    Seq::new(v.len(), |i: int| v[i]@)
}

/// Whether one of the first `n` entries of the directory at `dir` is to be
/// kept, or holds what is.
pub open spec fn any_kept(
    dir: Seq<char>,
    entries: Seq<Named>,
    keep: Seq<Seq<char>>,
    n: nat,
) -> bool
    decreases entries, n,
{
    0 < n <= entries.len() && (any_kept(dir, entries, keep, (n - 1) as nat) || is_kept(
        dir,
        entries[n - 1],
        keep,
    ))
}

/// Whether an entry of the directory at `dir` is to be kept, or holds what is.
pub open spec fn is_kept(dir: Seq<char>, e: Named, keep: Seq<Seq<char>>) -> bool
    decreases e, 0nat,
{
    let path = crate::imager::tree::child(dir, e.name@);
    match e.node {
        Node::Dir { entries } => any_kept(path, entries@, keep, entries@.len()),
        _ => keep.contains(path),
    }
}

/// What is to be removed of the first `n` entries of the directory at `dir`,
/// each with what is below it: what is in a directory goes before the
/// directory.
pub open spec fn removals(
    dir: Seq<char>,
    entries: Seq<Named>,
    keep: Seq<Seq<char>>,
    n: nat,
) -> Seq<RemovalView>
    decreases entries, n,
{
    if 0 < n <= entries.len() {
        removals(dir, entries, keep, (n - 1) as nat) + removals_at(dir, entries[n - 1], keep)
    } else {
        Seq::empty()
    }
}

/// What is to be removed of an entry of the directory at `dir`.
pub open spec fn removals_at(dir: Seq<char>, e: Named, keep: Seq<Seq<char>>) -> Seq<RemovalView>
    decreases e, 0nat,
{
    let path = crate::imager::tree::child(dir, e.name@);
    match e.node {
        Node::Dir { entries } => {
            let below = removals(path, entries@, keep, entries@.len());
            if any_kept(path, entries@, keep, entries@.len()) {
                below
            } else {
                below.push(RemovalView::Dir { path })
            }
        },
        _ => if keep.contains(path) {
            Seq::empty()
        } else {
            seq![RemovalView::File { path }]
        },
    }
}

fn is_listed(keep: &Vec<String>, path: &String) -> (r: bool)
    ensures
        r == crate::text::texts(keep@).contains(path@),
{
    let ghost all = crate::text::texts(keep@);
    let mut i: usize = 0;
    while i < keep.len()
        invariant
            i <= keep@.len(),
            all == crate::text::texts(keep@),
            forall|k: int| 0 <= k < i ==> all[k] != path@,
        decreases keep@.len() - i,
    {
        if same(keep[i].as_str(), path.as_str()) {
            assert(all[i as int] == path@);
            return true;
        }
        i += 1;
    }
    false
}

/// Lists what is to be removed of the directory at `dir`; says whether anything
/// stays.
fn prune_dir(out: &mut Vec<Removal>, dir: &str, entries: &Vec<Named>, keep: &Vec<String>) -> (r:
    bool)
    ensures
        r == any_kept(dir@, entries@, crate::text::texts(keep@), entries@.len()),
        removal_views(final(out)@) == removal_views(old(out)@) + removals(
            dir@,
            entries@,
            crate::text::texts(keep@),
            entries@.len(),
        ),
    decreases entries,
{
    let ghost kept = crate::text::texts(keep@);
    let ghost start = removal_views(out@);
    let mut any = false;
    let mut i: usize = 0;
    assert(start + Seq::empty() =~= start);
    while i < entries.len()
        invariant
            i <= entries@.len(),
            kept == crate::text::texts(keep@),
            any == any_kept(dir@, entries@, kept, i as nat),
            removal_views(out@) == start + removals(dir@, entries@, kept, i as nat),
        decreases entries@.len() - i,
    {
        let e = &entries[i];
        let ghost before = removal_views(out@);
        assert(decreases_to!(entries => entries@[i as int]));
        let path = child_path(dir, e.name.as_str());
        let stays: bool = match &e.node {
            Node::Dir { entries: inner } => {
                let some = prune_dir(out, path.as_str(), inner, keep);
                if !some {
                    let ghost below = removal_views(out@);
                    out.push(Removal::Dir { path });
                    assert(removal_views(out@) =~= below.push(RemovalView::Dir { path: path@ }));
                }
                some
            },
            _ => {
                let listed = is_listed(keep, &path);
                if !listed {
                    out.push(Removal::File { path });
                    assert(removal_views(out@) =~= before.push(RemovalView::File { path: path@ }));
                }
                listed
            },
        };
        assert(stays == is_kept(dir@, *e, kept));
        assert(removal_views(out@) =~= before + removals_at(dir@, *e, kept));
        any = any || stays;
        i += 1;
        assert(removal_views(out@) =~= start + removals(dir@, entries@, kept, i as nat));
    }
    any
}

/// What is to be removed of a tree of modules so that the files in `keep` are
/// left, and no directory without any.
pub fn prune_modules(modules: &Vec<Named>, keep: &Vec<String>) -> (r: Vec<Removal>)
    ensures
        removal_views(r@) == removals(
            Seq::empty(),
            modules@,
            crate::text::texts(keep@),
            modules@.len(),
        ),
{
    assert(""@ =~= Seq::<char>::empty()) by {
        reveal_strlit("");
    }
    let mut out: Vec<Removal> = Vec::new();
    prune_dir(&mut out, "", modules, keep);
    assert(removal_views(out@) =~= removals(
        Seq::empty(),
        modules@,
        crate::text::texts(keep@),
        modules@.len(),
    ));
    out
}

/// Where the modules of a kernel version are in a root filesystem.
pub open spec fn module_root(kver: Seq<char>) -> Seq<char> {
    "lib/modules/"@ + kver
}

/// What is removed at a path below `root`.
pub open spec fn under(root: Seq<char>, r: RemovalView) -> RemovalView {
    match r {
        RemovalView::File { path } => RemovalView::File {
            path: crate::imager::tree::child(root, path),
        },
        RemovalView::Dir { path } => RemovalView::Dir {
            path: crate::imager::tree::child(root, path),
        },
        RemovalView::Tree { path } => RemovalView::Tree {
            path: crate::imager::tree::child(root, path),
        },
    }
}

/// What is removed at paths below `root`.
pub open spec fn all_under(root: Seq<char>, v: Seq<RemovalView>) -> Seq<RemovalView> {
    Seq::new(v.len(), |i: int| under(root, v[i]))
}

/// What is to be removed of a root filesystem so that it holds what an initramfs
/// needs: the directory `boot`, where it is there, since the kernel is loaded
/// from elsewhere, and of the modules of the kernel version all but those in
/// `keep`.
pub fn prune_for_initramfs(
    boot_exists: bool,
    kver: &str,
    modules: &Vec<Named>,
    keep: &Vec<String>,
) -> (r: Vec<Removal>)
    ensures
        removal_views(r@) == (if boot_exists {
            seq![RemovalView::Tree { path: "boot"@ }]
        } else {
            Seq::empty()
        }) + all_under(
            module_root(kver@),
            removals(Seq::empty(), modules@, crate::text::texts(keep@), modules@.len()),
        ),
{
    let root = joined("lib/modules/", kver);
    let pruned = prune_modules(modules, keep);
    let ghost views = removal_views(pruned@);
    let ghost all = all_under(module_root(kver@), views);
    let mut out: Vec<Removal> = Vec::new();
    if boot_exists {
        out.push(Removal::Tree { path: "boot".to_owned() });
    }
    let ghost start = removal_views(out@);
    assert(boot_exists ==> start =~= seq![RemovalView::Tree { path: "boot"@ }]);
    assert(!boot_exists ==> start =~= Seq::empty());
    let mut i: usize = 0;
    assert(removal_views(out@) =~= start + all.take(0));
    while i < pruned.len()
        invariant
            i <= pruned@.len(),
            root@ == module_root(kver@),
            views == removal_views(pruned@),
            all == all_under(module_root(kver@), views),
            removal_views(out@) == start + all.take(i as int),
        decreases pruned@.len() - i,
    {
        let ghost before = removal_views(out@);
        assert(views[i as int] == pruned@[i as int]@);
        let removal = match &pruned[i] {
            Removal::File { path } => Removal::File {
                path: child_path(root.as_str(), path.as_str()),
            },
            Removal::Dir { path } => Removal::Dir {
                path: child_path(root.as_str(), path.as_str()),
            },
            Removal::Tree { path } => Removal::Tree {
                path: child_path(root.as_str(), path.as_str()),
            },
        };
        assert(removal@ == all[i as int]);
        out.push(removal);
        i += 1;
        assert(removal_views(out@) =~= before.push(all[i - 1]));
        assert(removal_views(out@) =~= start + all.take(i as int));
    }
    assert(all.take(i as int) =~= all);
    out
}

/// Whether the file at `path` is among the first `n` entries of the directory
/// at `dir`, or below one.
pub open spec fn has_file(
    dir: Seq<char>,
    entries: Seq<Named>,
    path: Seq<char>,
    n: nat,
) -> bool
    decreases entries, n,
{
    0 < n <= entries.len() && (has_file(dir, entries, path, (n - 1) as nat) || is_file_at(
        dir,
        entries[n - 1],
        path,
    ))
}

/// Whether the file at `path` is an entry of the directory at `dir`, or below
/// it.
pub open spec fn is_file_at(dir: Seq<char>, e: Named, path: Seq<char>) -> bool
    decreases e, 0nat,
{
    let here = crate::imager::tree::child(dir, e.name@);
    match e.node {
        Node::Dir { entries } => has_file(here, entries@, path, entries@.len()),
        _ => path == here,
    }
}

proof fn lemma_removed(
    dir: Seq<char>,
    entries: Seq<Named>,
    keep: Seq<Seq<char>>,
    path: Seq<char>,
    n: nat,
)
    requires
        n <= entries.len(),
    ensures
        removals(dir, entries, keep, n).contains(RemovalView::File { path }) <==> (has_file(
            dir,
            entries,
            path,
            n,
        ) && !keep.contains(path)),
    decreases entries, n,
{
    let file = RemovalView::File { path };
    if n > 0 {
        lemma_removed(dir, entries, keep, path, (n - 1) as nat);
        let before = removals(dir, entries, keep, (n - 1) as nat);
        let e = entries[n - 1];
        let last = removals_at(dir, e, keep);
        let here = crate::imager::tree::child(dir, e.name@);
        assert(last.contains(file) <==> (is_file_at(dir, e, path) && !keep.contains(path))) by {
            match e.node {
                Node::Dir { entries: inner } => {
                    lemma_removed(here, inner@, keep, path, inner@.len());
                    let below = removals(here, inner@, keep, inner@.len());
                    let dir_too = below.push(RemovalView::Dir { path: here });
                    if below.contains(file) {
                        let i = choose|i: int| 0 <= i < below.len() && below[i] == file;
                        assert(dir_too[i] == file);
                    }
                    if dir_too.contains(file) {
                        let i = choose|i: int| 0 <= i < dir_too.len() && dir_too[i] == file;
                        assert(below[i] == file);
                    }
                },
                _ => {
                    if !keep.contains(here) {
                        assert(last[0] == RemovalView::File { path: here });
                        if here == path {
                            assert(last[0] == file);
                        }
                    }
                },
            }
        }
        let all = before + last;
        if all.contains(file) {
            let i = choose|i: int| 0 <= i < all.len() && all[i] == file;
            if i < before.len() {
                assert(before[i] == file);
            } else {
                assert(last[i - before.len()] == file);
            }
        }
        if before.contains(file) {
            let i = choose|i: int| 0 <= i < before.len() && before[i] == file;
            assert(all[i] == file);
        }
        if last.contains(file) {
            let i = choose|i: int| 0 <= i < last.len() && last[i] == file;
            assert(all[i + before.len()] == file);
        }
    }
}

/// A file is removed exactly where it is not among those to be kept.
pub proof fn what_is_not_kept_is_removed(
    modules: Seq<Named>,
    keep: Seq<Seq<char>>,
    path: Seq<char>,
)
    ensures
        removals(Seq::empty(), modules, keep, modules.len()).contains(
            RemovalView::File { path },
        ) <==> (has_file(Seq::empty(), modules, path, modules.len()) && !keep.contains(path)),
{
    lemma_removed(Seq::empty(), modules, keep, path, modules.len());
}

proof fn lemma_any_kept(dir: Seq<char>, entries: Seq<Named>, keep: Seq<Seq<char>>, n: nat)
    requires
        n <= entries.len(),
    ensures
        any_kept(dir, entries, keep, n) <==> exists|path: Seq<char>| #[trigger]
            has_file(dir, entries, path, n) && keep.contains(path),
    decreases entries, n,
{
    reveal_with_fuel(any_kept, 2);
    reveal_with_fuel(is_kept, 2);
    reveal_with_fuel(has_file, 2);
    reveal_with_fuel(is_file_at, 2);
    if n > 0 {
        lemma_any_kept(dir, entries, keep, (n - 1) as nat);
        let e = entries[n - 1];
        let here = crate::imager::tree::child(dir, e.name@);
        if let Node::Dir { entries: inner } = e.node {
            assert(decreases_to!(entries => entries[n - 1]));
            lemma_any_kept(here, inner@, keep, inner@.len());
        }
        if any_kept(dir, entries, keep, n) {
            if any_kept(dir, entries, keep, (n - 1) as nat) {
                let path = choose|path: Seq<char>| #[trigger]
                    has_file(dir, entries, path, (n - 1) as nat) && keep.contains(path);
                assert(has_file(dir, entries, path, n));
            } else {
                assert(is_kept(dir, e, keep));
                match e.node {
                    Node::Dir { entries: inner } => {
                        assert(any_kept(here, inner@, keep, inner@.len()));
                        let path = choose|path: Seq<char>| #[trigger]
                            has_file(here, inner@, path, inner@.len()) && keep.contains(path);
                        assert(is_file_at(dir, e, path));
                        assert(has_file(dir, entries, path, n));
                    },
                    _ => {
                        assert(is_file_at(dir, e, here));
                        assert(has_file(dir, entries, here, n));
                    },
                }
            }
        }
        if exists|path: Seq<char>| #[trigger] has_file(dir, entries, path, n) && keep.contains(path) {
            let path = choose|path: Seq<char>| #[trigger]
                has_file(dir, entries, path, n) && keep.contains(path);
            if has_file(dir, entries, path, (n - 1) as nat) {
                assert(any_kept(dir, entries, keep, (n - 1) as nat));
            } else {
                assert(is_file_at(dir, e, path));
                match e.node {
                    Node::Dir { entries: inner } => {
                        assert(has_file(here, inner@, path, inner@.len()));
                        assert(any_kept(here, inner@, keep, inner@.len()));
                    },
                    _ => {},
                }
                assert(is_kept(dir, e, keep));
            }
        }
    }
}

/// A directory stays if and only if something in it, or below it, is kept; it
/// goes behind all that is removed in it.
pub proof fn a_directory_goes_with_the_last_of_its_files(
    dir: Seq<char>,
    e: Named,
    keep: Seq<Seq<char>>,
)
    requires
        e.node is Dir,
    ensures
        ({
            let here = crate::imager::tree::child(dir, e.name@);
            let inner = e.node->entries;
            let below = removals(here, inner@, keep, inner@.len());
            if exists|path: Seq<char>| #[trigger]
                has_file(here, inner@, path, inner@.len()) && keep.contains(path) {
                removals_at(dir, e, keep) == below
            } else {
                removals_at(dir, e, keep) == below.push(RemovalView::Dir { path: here })
            }
        }),
{
    let here = crate::imager::tree::child(dir, e.name@);
    let inner = e.node->entries;
    lemma_any_kept(here, inner@, keep, inner@.len());
}

/// What is removed of the modules is removed below the directory of their kernel
/// version, and nowhere else.
pub proof fn modules_are_pruned_in_their_place(kver: Seq<char>, v: Seq<RemovalView>, i: int)
    requires
        0 <= i < v.len(),
    ensures
        all_under(module_root(kver), v).len() == v.len(),
        v[i] matches RemovalView::File { path } ==> all_under(module_root(kver), v)[i] == (
        RemovalView::File { path: "lib/modules/"@ + kver + "/"@ + path }),
        v[i] matches RemovalView::Dir { path } ==> all_under(module_root(kver), v)[i] == (
        RemovalView::Dir { path: "lib/modules/"@ + kver + "/"@ + path }),
{
    reveal_strlit("lib/modules/");
}

} // verus!
