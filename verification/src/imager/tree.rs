//! Trees of files in memory, and the order in which they go into an image.

use crate::order::sort_order;
use vstd::prelude::*;
use vstd::string::*;

verus! {

/// What stands in a directory.
#[derive(Debug)]
pub struct Named {
    pub name: String,
    pub node: Node,
}

/// A symbolic link, a directory or a file.
#[derive(Debug)]
pub enum Node {
    Link { target: String },
    Dir { entries: Vec<Named> },
    File { mode: u32, data: Vec<u8> },
}

/// One thing of a tree, with its path.
#[derive(Debug)]
pub enum Item<'a> {
    Link { path: String, target: &'a String },
    Dir { path: String },
    File { path: String, mode: u32, data: &'a Vec<u8> },
}

/// What an item says.
#[verifier::ext_equal]
pub enum ItemView {
    Link { path: Seq<char>, target: Seq<char> },
    Dir { path: Seq<char> },
    File { path: Seq<char>, mode: u32, data: Seq<u8> },
}

impl<'a> View for Item<'a> {
    type V = ItemView;

    open spec fn view(&self) -> ItemView {
        match *self {
            Item::Link { path, target } => ItemView::Link { path: path@, target: target@ },
            Item::Dir { path } => ItemView::Dir { path: path@ },
            Item::File { path, mode, data } => ItemView::File { path: path@, mode, data: data@ },
        }
    }
}

/// What items say.
pub open spec fn item_views(v: Seq<Item>) -> Seq<ItemView> {
    Seq::new(v.len(), |i: int| v[i]@)
}

/// The names in a directory.
pub open spec fn names(entries: Seq<Named>) -> Seq<Seq<char>> {
    Seq::new(entries.len(), |i: int| entries[i].name@)
}

/// The indices of a directory's entries by name.
pub open spec fn by_name(entries: Seq<Named>) -> Seq<usize> {
    choose|o: Seq<usize>| crate::order::is_order(names(entries), o)
}

/// The path of what is called `name` in the directory at `dir`; the path of
/// the root is empty.
pub open spec fn child(dir: Seq<char>, name: Seq<char>) -> Seq<char> {
    if dir.len() == 0 {
        name
    } else {
        dir + "/"@ + name
    }
}

/// The first `n` entries by name of the directory at `dir`, each with what is
/// below it.
pub open spec fn first_items(dir: Seq<char>, entries: Seq<Named>, n: nat) -> Seq<ItemView>
    decreases entries, n,
{
    if n == 0 {
        Seq::empty()
    } else {
        let i = by_name(entries)[n - 1] as int;
        if 0 <= i < entries.len() {
            first_items(dir, entries, (n - 1) as nat) + items_at(dir, entries[i])
        } else {
            Seq::empty()
        }
    }
}

/// An entry of the directory at `dir`, with what is below it.
pub open spec fn items_at(dir: Seq<char>, e: Named) -> Seq<ItemView>
    decreases e, 0nat,
{
    let path = child(dir, e.name@);
    match e.node {
        Node::Link { target } => seq![ItemView::Link { path, target: target@ }],
        Node::Dir { entries } => seq![ItemView::Dir { path }] + first_items(
            path,
            entries@,
            entries@.len(),
        ),
        Node::File { mode, data } => seq![ItemView::File { path, mode, data: data@ }],
    }
}

/// All that is in the directory at `dir`, directories before what is in them
/// and each directory by name.
pub open spec fn items(dir: Seq<char>, entries: Seq<Named>) -> Seq<ItemView> {
    first_items(dir, entries, entries.len())
}

/// The path of what is called `name` in the directory at `dir`.
pub fn child_path(dir: &str, name: &str) -> (r: String)
    ensures
        r@ == child(dir@, name@),
{
    let len: usize = dir.unicode_len();
    if len == 0 {
        return name.to_owned();
    }
    let mut path = dir.to_owned();
    path.append("/");
    path.append(name);
    path
}

fn names_of(entries: &Vec<Named>) -> (r: Vec<String>)
    ensures
        crate::text::texts(r@) == names(entries@),
{
    let mut r: Vec<String> = Vec::new();
    let mut i: usize = 0;
    while i < entries.len()
        invariant
            i <= entries@.len(),
            crate::text::texts(r@) == names(entries@).take(i as int),
        decreases entries@.len() - i,
    {
        let ghost before = r@;
        r.push(entries[i].name.clone());
        i += 1;
        assert(crate::text::texts(r@) =~= crate::text::texts(before).push(entries@[i - 1].name@));
        assert(crate::text::texts(r@) =~= names(entries@).take(i as int));
    }
    assert(names(entries@).take(i as int) =~= names(entries@));
    r
}

/// All that is in the directory at `dir`.
pub fn flatten<'a>(dir: &str, entries: &'a Vec<Named>) -> (r: Vec<Item<'a>>)
    ensures
        item_views(r@) == items(dir@, entries@),
    decreases entries,
{
    let all = names_of(entries);
    let order = sort_order(&all);
    proof {
        crate::order::order_is_unique(names(entries@), order@, by_name(entries@));
    }
    let mut out: Vec<Item<'a>> = Vec::new();
    assert(item_views(out@) =~= Seq::empty());
    let mut k: usize = 0;
    while k < order.len()
        invariant
            k <= order@.len() == entries@.len(),
            order@ == by_name(entries@),
            crate::order::is_order(names(entries@), order@),
            item_views(out@) == first_items(dir@, entries@, k as nat),
        decreases order@.len() - k,
    {
        let ghost before = item_views(out@);
        let i: usize = order[k];
        assert(order@[k as int] < names(entries@).len());
        let e: &'a Named = &entries[i];
        assert(decreases_to!(entries => entries@[i as int]));
        let path = child_path(dir, e.name.as_str());
        match &e.node {
            Node::Link { target } => {
                out.push(Item::Link { path, target });
            },
            Node::Dir { entries: inner } => {
                let mut below = flatten(path.as_str(), inner);
                let ghost there = item_views(below@);
                let ghost p = path@;
                out.push(Item::Dir { path });
                out.append(&mut below);
                assert(item_views(out@) =~= before + (seq![ItemView::Dir { path: p }] + there));
            },
            Node::File { mode, data } => {
                out.push(Item::File { path, mode: *mode, data });
            },
        }
        assert(item_views(out@) =~= before + items_at(dir@, *e));
        k += 1;
    }
    out
}

/// Whether no two of `names` are the same.
pub open spec fn distinct(names: Seq<Seq<char>>) -> bool {
    forall|i: int, j: int| 0 <= i < j < names.len() ==> names[i] != names[j]
}

/// Whether two directories hold the same: what is in one, by name, is in the
/// other, in whatever order they list it.
pub open spec fn same_dir(a: Seq<Named>, b: Seq<Named>) -> bool
    decreases a, 0nat,
{
    &&& a.len() == b.len()
    &&& distinct(names(a))
    &&& distinct(names(b))
    &&& forall|i: int| 0 <= i < a.len() ==> holds(b, #[trigger] a[i])
}

/// Whether a directory holds the same as `e` under the same name.
pub open spec fn holds(b: Seq<Named>, e: Named) -> bool
    decreases e, 1nat,
{
    exists|j: int| 0 <= j < b.len() && same_entry(e, #[trigger] b[j])
}

/// Whether two entries have the same name and hold the same.
pub open spec fn same_entry(a: Named, b: Named) -> bool
    decreases a, 0nat,
{
    &&& a.name@ == b.name@
    &&& match (a.node, b.node) {
        (Node::Link { target: x }, Node::Link { target: y }) => x@ == y@,
        (Node::Dir { entries: x }, Node::Dir { entries: y }) => same_dir(x@, y@),
        (Node::File { mode: m, data: x }, Node::File { mode: n, data: y }) => m == n && x@ == y@,
        _ => false,
    }
}

spec fn place(b: Seq<Named>, e: Named) -> int {
    choose|j: int| 0 <= j < b.len() && same_entry(e, #[trigger] b[j])
}

/// What goes into an image does not depend on the order in which directories
/// list their entries.
pub proof fn listing_order_does_not_matter(dir: Seq<char>, a: Seq<Named>, b: Seq<Named>)
    requires
        same_dir(a, b),
        a.len() <= usize::MAX,
    ensures
        items(dir, a) == items(dir, b),
    decreases a, a.len() + 1,
{
    crate::order::lemma_order_exists(names(a));
    let oa = by_name(a);
    let ob = Seq::new(a.len(), |k: int| place(b, a[oa[k] as int]) as usize);
    assert forall|k: int| 0 <= k < a.len() implies (#[trigger] ob[k]) < b.len() && same_entry(
        a[oa[k] as int],
        b[ob[k] as int],
    ) by {
        assert(oa[k] < names(a).len());
        assert(holds(b, a[oa[k] as int]));
    }
    assert forall|i: int, j: int| 0 <= i < j < ob.len() implies crate::order::listed_first(
        names(b),
        #[trigger] ob[i] as int,
        #[trigger] ob[j] as int,
    ) by {
        let x = oa[i] as int;
        let y = oa[j] as int;
        assert(crate::order::listed_first(names(a), x, y));
        crate::order::lemma_listed_first_total(names(a), x, y);
        assert(names(a)[x] != names(a)[y]);
        assert(names(b)[ob[i] as int] == names(a)[x]);
        assert(names(b)[ob[j] as int] == names(a)[y]);
    }
    assert(crate::order::is_order(names(b), ob));
    crate::order::order_is_unique(names(b), ob, by_name(b));
    lemma_same_items(dir, a, b, a.len());
}

proof fn lemma_same_items(dir: Seq<char>, a: Seq<Named>, b: Seq<Named>, n: nat)
    requires
        n <= a.len() == b.len(),
        a.len() <= usize::MAX,
        forall|k: int|
            0 <= k < a.len() ==> (#[trigger] by_name(a)[k]) < a.len() && by_name(b)[k] < b.len()
                && same_entry(a[by_name(a)[k] as int], b[by_name(b)[k] as int]),
    ensures
        first_items(dir, a, n) == first_items(dir, b, n),
    decreases a, n,
{
    if n > 0 {
        lemma_same_items(dir, a, b, (n - 1) as nat);
        let x = a[by_name(a)[n - 1] as int];
        let y = b[by_name(b)[n - 1] as int];
        assert(same_entry(x, y));
        match (x.node, y.node) {
            (Node::Dir { entries: p }, Node::Dir { entries: q }) => {
                assert(p.len() == p@.len());
                listing_order_does_not_matter(child(dir, x.name@), p@, q@);
            },
            _ => {},
        }
        assert(items_at(dir, x) == items_at(dir, y));
        assert(first_items(dir, a, n) == first_items(dir, a, (n - 1) as nat) + items_at(dir, x));
        assert(first_items(dir, b, n) == first_items(dir, b, (n - 1) as nat) + items_at(dir, y));
    }
}

/// What is in the second of two directories that hold the same has a like in
/// the first.
pub proof fn lemma_same_dir_back(a: Seq<Named>, b: Seq<Named>, j: int)
    requires
        same_dir(a, b),
        0 <= j < b.len(),
    ensures
        exists|i: int| 0 <= i < a.len() && same_entry(#[trigger] a[i], b[j]),
{
    let places = Seq::new(a.len(), |i: int| place(b, a[i]));
    assert forall|i: int| 0 <= i < a.len() implies 0 <= #[trigger] places[i] < b.len()
        && same_entry(a[i], b[places[i]]) by {
        assert(holds(b, a[i]));
    }
    assert(places.no_duplicates()) by {
        assert forall|i: int, k: int| 0 <= i < a.len() && 0 <= k < a.len() && i
            != k implies places[i] != places[k] by {
            assert(names(a)[i] != names(a)[k]);
            assert(names(b)[places[i]] == names(a)[i]);
            assert(names(b)[places[k]] == names(a)[k]);
        }
    }
    let all = vstd::set_lib::set_int_range(0, b.len() as int);
    vstd::set_lib::lemma_int_range(0, b.len() as int);
    places.unique_seq_to_set();
    assert(places.to_set().subset_of(all)) by {
        assert forall|x: int| places.to_set().contains(x) implies all.contains(x) by {
            let i = choose|i: int| 0 <= i < places.len() && places[i] == x;
            assert(0 <= places[i] < b.len());
        }
    }
    vstd::set_lib::lemma_subset_equality(places.to_set(), all);
    assert(all.contains(j));
    let i = choose|i: int| 0 <= i < places.len() && places[i] == j;
    assert(same_entry(a[i], b[places[i]]));
}

/// Whether `node` stands at `path` in a directory: the names of the directories
/// on the way, from the top, and then its own.
pub open spec fn stands_at(entries: Seq<Named>, path: Seq<Seq<char>>, node: Node) -> bool
    decreases path.len(), 1int,
{
    path.len() > 0 && exists|i: int|
        0 <= i < entries.len() && leads_to(#[trigger] entries[i], path, node)
}

/// Whether an entry is the first step of `path`, which leads to `node`.
pub open spec fn leads_to(e: Named, path: Seq<Seq<char>>, node: Node) -> bool
    decreases path.len(), 0int,
{
    path.len() > 0 && e.name@ == path[0] && if path.len() == 1 {
        e.node == node
    } else {
        match e.node {
            Node::Dir { entries } => stands_at(entries@, path.skip(1), node),
            _ => false,
        }
    }
}

/// A path below the directory at `dir`, as text.
pub open spec fn path_below(dir: Seq<char>, path: Seq<Seq<char>>) -> Seq<char> {
    if dir.len() == 0 {
        crate::text::join(path, "/"@)
    } else {
        dir + "/"@ + crate::text::join(path, "/"@)
    }
}

/// What is listed of a node.
pub open spec fn listed(path: Seq<char>, node: Node) -> ItemView {
    match node {
        Node::Link { target } => ItemView::Link { path, target: target@ },
        Node::Dir { .. } => ItemView::Dir { path },
        Node::File { mode, data } => ItemView::File { path, mode, data: data@ },
    }
}

/// Nothing in a directory, or below it, is without a name.
pub open spec fn is_named(entries: Seq<Named>) -> bool {
    forall|path: Seq<Seq<char>>, node: Node| #[trigger]
        stands_at(entries, path, node) ==> path.last().len() > 0
}

proof fn lemma_path_below(dir: Seq<char>, name: Seq<char>, path: Seq<Seq<char>>)
    requires
        name.len() > 0,
        path.len() > 0,
    ensures
        path_below(dir, seq![name]) == child(dir, name),
        path_below(child(dir, name), path) == path_below(dir, seq![name] + path),
{
    let all = seq![name] + path;
    assert(seq![name][0] == name);
    assert(crate::text::join(seq![name], "/"@) == name);
    crate::text::lemma_join_from_the_front(all, "/"@);
    assert(all.skip(1) =~= path);
    assert(all[0] == name);
    assert(path_below(child(dir, name), path) =~= path_below(dir, all));
}

proof fn lemma_first_step(entries: Seq<Named>, i: int, path: Seq<Seq<char>>, node: Node)
    requires
        0 <= i < entries.len(),
        entries[i].node matches Node::Dir { entries: inner } && stands_at(inner@, path, node),
    ensures
        stands_at(entries, seq![entries[i].name@] + path, node),
{
    let all = seq![entries[i].name@] + path;
    assert(all.skip(1) =~= path);
    assert(all[0] == entries[i].name@);
    assert(leads_to(entries[i], all, node));
}

proof fn lemma_is_named(entries: Seq<Named>, i: int)
    requires
        is_named(entries),
        0 <= i < entries.len(),
    ensures
        entries[i].name@.len() > 0,
        entries[i].node matches Node::Dir { entries: inner } ==> is_named(inner@),
{
    let one = seq![entries[i].name@];
    assert(one[0] == entries[i].name@);
    assert(leads_to(entries[i], one, entries[i].node));
    assert(stands_at(entries, one, entries[i].node));
    assert(one.last().len() > 0);
    if let Node::Dir { entries: inner } = entries[i].node {
        assert forall|path: Seq<Seq<char>>, node: Node| #[trigger]
            stands_at(inner@, path, node) implies path.last().len() > 0 by {
            lemma_first_step(entries, i, path, node);
            let all = one + path;
            assert(stands_at(entries, all, node));
            assert(all.last() == path.last());
        }
    }
}

proof fn lemma_first_items_hold(dir: Seq<char>, entries: Seq<Named>, n: nat, k: int, item: ItemView)
    requires
        n <= entries.len(),
        0 <= k < n,
        forall|j: int| 0 <= j < n ==> (#[trigger] by_name(entries)[j]) < entries.len(),
        items_at(dir, entries[by_name(entries)[k] as int]).contains(item),
    ensures
        first_items(dir, entries, n).contains(item),
    decreases n,
{
    let i = by_name(entries)[n - 1] as int;
    let before = first_items(dir, entries, (n - 1) as nat);
    let here = items_at(dir, entries[i]);
    let all = first_items(dir, entries, n);
    assert(all == before + here);
    if k == n - 1 {
        let x = choose|x: int| 0 <= x < here.len() && here[x] == item;
        assert(all[before.len() + x] == item);
    } else {
        lemma_first_items_hold(dir, entries, (n - 1) as nat, k, item);
        let x = choose|x: int| 0 <= x < before.len() && before[x] == item;
        assert(all[x] == item);
    }
}

/// Nothing of a tree is left out: whatever stands somewhere in it is listed,
/// under its path and as it is.
pub proof fn everything_is_listed(
    dir: Seq<char>,
    entries: Seq<Named>,
    path: Seq<Seq<char>>,
    node: Node,
)
    requires
        entries.len() <= usize::MAX,
        is_named(entries),
        stands_at(entries, path, node),
    ensures
        items(dir, entries).contains(listed(path_below(dir, path), node)),
    decreases path.len(),
{
    let i = choose|i: int| 0 <= i < entries.len() && leads_to(#[trigger] entries[i], path, node);
    let e = entries[i];
    crate::order::lemma_order_exists(names(entries));
    let order = by_name(entries);
    assert(crate::order::is_order(names(entries), order));
    crate::order::lemma_order_has(names(entries), order, i as usize);
    let k = choose|k: int| 0 <= k < order.len() && order[k] == i as usize;
    lemma_is_named(entries, i);
    let here = items_at(dir, e);
    let item = listed(path_below(dir, path), node);
    if path.len() == 1 {
        assert(path =~= seq![e.name@]);
        lemma_path_below(dir, e.name@, path);
        assert(here[0] == item);
    } else {
        let rest = path.skip(1);
        assert(path =~= seq![e.name@] + rest);
        lemma_path_below(dir, e.name@, rest);
        if let Node::Dir { entries: inner } = e.node {
            assert(inner.len() == inner@.len());
            everything_is_listed(child(dir, e.name@), inner@, rest, node);
            let below = items(child(dir, e.name@), inner@);
            let x = choose|x: int| 0 <= x < below.len() && below[x] == item;
            assert(here[x + 1] == item);
        }
    }
    assert forall|j: int| 0 <= j < entries.len() implies (#[trigger] order[j]) < entries.len() by {
        assert(order[j] < names(entries).len());
    }
    lemma_first_items_hold(dir, entries, entries.len(), k, item);
}

/// Whether an item is listed of something that stands in the tree.
pub open spec fn is_of(dir: Seq<char>, entries: Seq<Named>, item: ItemView) -> bool {
    exists|path: Seq<Seq<char>>, node: Node| #[trigger]
        stands_at(entries, path, node) && item == listed(path_below(dir, path), node)
}

proof fn lemma_items_are_of(dir: Seq<char>, entries: Seq<Named>, n: nat)
    requires
        n <= entries.len(),
        is_named(entries),
    ensures
        forall|x: int|
            0 <= x < first_items(dir, entries, n).len() ==> is_of(
                dir,
                entries,
                #[trigger] first_items(dir, entries, n)[x],
            ),
    decreases entries, n,
{
    let all = first_items(dir, entries, n);
    if n > 0 {
        let i = by_name(entries)[n - 1] as int;
        if 0 <= i < entries.len() {
            lemma_items_are_of(dir, entries, (n - 1) as nat);
            let before = first_items(dir, entries, (n - 1) as nat);
            let e = entries[i];
            let here = items_at(dir, e);
            assert(all == before + here);
            lemma_is_named(entries, i);
            let one = seq![e.name@];
            assert(one[0] == e.name@);
            assert(leads_to(e, one, e.node));
            assert(stands_at(entries, one, e.node));
            lemma_path_below(dir, e.name@, one);
            assert(here[0] == listed(path_below(dir, one), e.node));
            if let Node::Dir { entries: inner } = e.node {
                assert(decreases_to!(entries => entries[i]));
                lemma_items_are_of(child(dir, e.name@), inner@, inner@.len());
            }
            assert forall|x: int| 0 <= x < all.len() implies is_of(dir, entries, #[trigger] all[x]) by {
                if x < before.len() {
                    assert(all[x] == before[x]);
                } else if x == before.len() {
                    assert(all[x] == here[0]);
                } else {
                    assert(e.node is Dir);
                    let inner = e.node->entries;
                    let below = first_items(child(dir, e.name@), inner@, inner@.len());
                    let y = x - before.len() - 1;
                    assert(all[x] == below[y]);
                    assert(is_of(child(dir, e.name@), inner@, below[y]));
                    let (path, node) = choose|path: Seq<Seq<char>>, node: Node| #[trigger]
                        stands_at(inner@, path, node) && below[y] == listed(
                            path_below(child(dir, e.name@), path),
                            node,
                        );
                    lemma_first_step(entries, i, path, node);
                    lemma_path_below(dir, e.name@, path);
                    assert(stands_at(entries, one + path, node));
                }
            }
        }
    }
}

/// Nothing is listed that is not in the tree.
pub proof fn nothing_else_is_listed(dir: Seq<char>, entries: Seq<Named>, x: int)
    requires
        is_named(entries),
        0 <= x < items(dir, entries).len(),
    ensures
        exists|path: Seq<Seq<char>>, node: Node| #[trigger]
            stands_at(entries, path, node) && items(dir, entries)[x] == listed(
                path_below(dir, path),
                node,
            ),
{
    lemma_items_are_of(dir, entries, entries.len());
    assert(is_of(dir, entries, items(dir, entries)[x]));
}

/// A directory is listed before all that is in it.
pub proof fn a_directory_comes_before_its_content(dir: Seq<char>, e: Named)
    ensures
        items_at(dir, e).len() > 0,
        items_at(dir, e)[0] == listed(child(dir, e.name@), e.node),
        e.node matches Node::Dir { entries } ==> items_at(dir, e).skip(1) == items(
            child(dir, e.name@),
            entries@,
        ),
{
    if let Node::Dir { entries } = e.node {
        assert(items_at(dir, e).skip(1) =~= items(child(dir, e.name@), entries@));
    }
}

} // verus!
