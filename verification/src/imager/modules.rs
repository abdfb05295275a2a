//! `modules.dep` closure resolution: from root module names to a dependency-
//! ordered list of `.ko` paths (relative to `/lib/modules/<ver>`), so the node
//! can load them in file order with no dependency logic at boot.

use crate::imager::Error;
use crate::paths::base_start;
use crate::text::{chars_of, ends_with_at, find_char, split_chars, string_of, trim_range, words_from};
use vstd::prelude::*;
use vstd::string::*;
verus! {

/// The modules that a virtio machine needs: block, net, and the filesystems
/// that are mounted. The kernel's vfat defaults to the utf8 charset, without
/// which the boot partition cannot be mounted.
pub const VIRT_MODULES: [&'static str; 7] = [
    "virtio_blk",
    "virtio_net",
    "ext4",
    "vfat",
    "nls_cp437",
    "nls_iso8859_1",
    "nls_utf8",
];

/// The modules that a Raspberry Pi needs: none, its kernel has them built in.
pub const PI_MODULES: [&'static str; 0] = [];

/// `p` without one trailing `.gz`.
pub open spec fn without_gz(p: Seq<char>) -> Seq<char> {
    if crate::text::ends_in(p, ".gz"@) {
        p.take(p.len() - 3)
    } else {
        p
    }
}

/// `p` without any number of trailing `.ko`.
pub open spec fn without_ko(p: Seq<char>) -> Seq<char>
    decreases p.len(),
{
    if crate::text::ends_in(p, ".ko"@) && p.len() >= 3 {
        without_ko(p.take(p.len() - 3))
    } else {
        p
    }
}

/// A module name with `-` written as `_`.
pub open spec fn canonical(name: Seq<char>) -> Seq<char> {
    Seq::new(name.len(), |i: int| if name[i] == '-' { '_' } else { name[i] })
}

/// The name of the module that lives at `path`.
pub open spec fn name_of(path: Seq<char>) -> Seq<char> {
    canonical(without_ko(without_gz(crate::paths::base_name(path))))
}

/// `p` without one trailing `.gz`.
pub fn strip_gz(p: &str) -> (r: String)
    ensures
        r@ == without_gz(p@),
{
    let v = chars_of(p);
    proof {
        reveal_strlit(".gz");
    }
    assert(v@.take(v@.len() as int) =~= v@);
    if ends_with_at(&v, v.len(), ".gz") {
        assert(p@.take(p@.len() - 3) =~= p@.subrange(0, p@.len() - 3));
        string_of(&v, 0, v.len() - 3)
    } else {
        assert(p@ =~= p@.subrange(0, p@.len() as int));
        string_of(&v, 0, v.len())
    }
}

/// `name` with `-` written as `_`.
fn with_underscores(v: &Vec<char>, from: usize, to: usize) -> (r: String)
    requires
        from <= to <= v@.len(),
    ensures
        r@ == canonical(v@.subrange(from as int, to as int)),
{
    let mut s = String::new();
    let mut i: usize = from;
    while i < to
        invariant
            from <= i <= to <= v@.len(),
            s@ == canonical(v@.subrange(from as int, i as int)),
        decreases to - i,
    {
        let c = if v[i] == '-' {
            '_'
        } else {
            v[i]
        };
        s.push(c);
        i += 1;
        assert(canonical(v@.subrange(from as int, i as int)) =~= canonical(
            v@.subrange(from as int, i - 1),
        ).push(c));
    }
    s
}

/// The name of the module that lives at `path`: its last component without
/// `.gz` and `.ko`, with `-` written as `_`.
pub fn module_name(path: &str) -> (r: String)
    ensures
        r@ == name_of(path@),
{
    let v = chars_of(path);
    proof {
        reveal_strlit(".gz");
        reveal_strlit(".ko");
    }
    assert(v@.take(v@.len() as int) =~= v@);
    let from = base_start(&v, v.len());
    let base = string_of(&v, from, v.len());
    let stem = strip_gz(base.as_str());
    let w = chars_of(stem.as_str());
    let mut to: usize = w.len();
    assert(w@.take(to as int) =~= w@);
    while ends_with_at(&w, to, ".ko")
        invariant
            to <= w@.len(),
            without_ko(w@.take(to as int)) == without_ko(w@),
            ".ko"@.len() == 3,
        decreases to,
    {
        assert(w@.take(to as int).take(to - 3) =~= w@.take(to - 3));
        to -= 3;
    }
    assert(w@.take(to as int) =~= w@.subrange(0, to as int));
    with_underscores(&w, 0, to)
}

/// One line of `modules.dep`: a module's path and the paths it depends on.
#[verifier::ext_equal]
pub struct Line {
    pub path: Seq<char>,
    pub deps: Seq<Seq<char>>,
}

/// What a line of `modules.dep` declares; a line without `:` declares nothing.
/// A carriage return before the line break is white space and goes with it.
pub open spec fn parse_line(line: Seq<char>) -> Option<Line> {
    let n = crate::text::until(line, ':') as int;
    if n < line.len() {
        Some(
            Line {
                path: without_gz(crate::text::trimmed(line.take(n))),
                deps: without_gz_all(crate::text::words(line.skip(n + 1))),
            },
        )
    } else {
        None
    }
}

/// The paths without their `.gz`.
pub open spec fn without_gz_all(paths: Seq<Seq<char>>) -> Seq<Seq<char>> {
    Seq::new(paths.len(), |i: int| without_gz(paths[i]))
}

/// What the lines declare, in their order.
pub open spec fn parse_lines(lines: Seq<Seq<char>>) -> Seq<Line>
    decreases lines.len(),
{
    if lines.len() == 0 {
        seq![]
    } else {
        let before = parse_lines(lines.drop_last());
        match parse_line(lines.last()) {
            Some(l) => before.push(l),
            None => before,
        }
    }
}

/// What a `modules.dep` text declares.
pub open spec fn parse(text: Seq<char>) -> Seq<Line> {
    parse_lines(crate::text::split(text, '\n'))
}

/// The direct dependencies of the module at `path`: those of its last line.
pub open spec fn deps_of(g: Seq<Line>, path: Seq<char>) -> Seq<Seq<char>>
    decreases g.len(),
{
    if g.len() == 0 {
        seq![]
    } else if g.last().path == path {
        g.last().deps
    } else {
        deps_of(g.drop_last(), path)
    }
}

/// The path of the module called `name`: that of the last line with this name.
pub open spec fn path_of(g: Seq<Line>, name: Seq<char>) -> Option<Seq<char>>
    decreases g.len(),
{
    if g.len() == 0 {
        None
    } else if name_of(g.last().path) == name {
        Some(g.last().path)
    } else {
        path_of(g.drop_last(), name)
    }
}

/// How far a traversal has come: the paths it has entered, and those it has
/// left, in the order in which it left them.
#[verifier::ext_equal]
pub struct Walk {
    pub seen: Set<Seq<char>>,
    pub order: Seq<Seq<char>>,
}

/// Depth-first traversal of `todo`, dependencies before the module itself.
/// `depth` bounds the nesting; the number of known paths is always enough.
pub open spec fn walk(g: Seq<Line>, todo: Seq<Seq<char>>, w: Walk, depth: nat) -> Walk
    decreases depth, todo.len(),
{
    if todo.len() == 0 {
        w
    } else {
        let before = walk(g, todo.drop_last(), w, depth);
        let path = todo.last();
        if before.seen.contains(path) || depth == 0 {
            before
        } else {
            let inner = walk(
                g,
                deps_of(g, path),
                Walk { seen: before.seen.insert(path), order: before.order },
                (depth - 1) as nat,
            );
            Walk { seen: inner.seen, order: inner.order.push(path) }
        }
    }
}

/// Every path that the text mentions.
pub open spec fn paths(g: Seq<Line>) -> Set<Seq<char>>
    decreases g.len(),
{
    if g.len() == 0 {
        Set::empty()
    } else {
        paths(g.drop_last()).insert(g.last().path).union(g.last().deps.to_set())
    }
}

/// The paths of the named modules.
pub open spec fn root_paths(g: Seq<Line>, roots: Seq<Seq<char>>) -> Seq<Seq<char>> {
    Seq::new(roots.len(), |i: int| path_of(g, canonical(roots[i]))->0)
}

/// The load order for `roots`: a depth-first post-order over their
/// dependencies.
pub open spec fn closure(g: Seq<Line>, roots: Seq<Seq<char>>) -> Seq<Seq<char>> {
    walk(
        g,
        root_paths(g, roots),
        Walk { seen: Set::empty(), order: seq![] },
        paths(g).len(),
    ).order
}

/// All of `roots` are declared.
pub open spec fn all_known(g: Seq<Line>, roots: Seq<Seq<char>>) -> bool {
    forall|i: int| 0 <= i < roots.len() ==> path_of(g, canonical(#[trigger] roots[i])) is Some
}

/// What a root that no line declares is answered.
pub open spec fn unknown_message(root: Seq<char>) -> Seq<char> {
    "module "@ + root + " not found in modules.dep"@
}

/// A parsed line of `modules.dep`.
struct DepLine {
    path: String,
    deps: Vec<String>,
}

impl DepLine {
    spec fn line(self) -> Line {
        Line { path: self.path@, deps: crate::text::texts(self.deps@) }
    }
}

spec fn lines_of(v: Seq<DepLine>) -> Seq<Line> {
    Seq::new(v.len(), |i: int| v[i].line())
}

fn read_line(line: &str) -> (r: Option<DepLine>)
    ensures
        match r {
            Some(l) => parse_line(line@) == Some(l.line()),
            None => parse_line(line@) is None,
        },
{
    let v = chars_of(line);
    let n = find_char(&v, ':');
    if n == v.len() {
        return None;
    }
    assert(v@.subrange(0, n as int) =~= v@.take(n as int));
    let module = trim_range(&v, 0, n);
    let path = strip_gz(module.as_str());
    let words = words_from(&v, n + 1);
    let mut deps: Vec<String> = Vec::new();
    let mut i: usize = 0;
    while i < words.len()
        invariant
            i <= words@.len(),
            crate::text::texts(deps@) == without_gz_all(crate::text::texts(words@)).take(i as int),
        decreases words@.len() - i,
    {
        let d = strip_gz(words[i].as_str());
        proof {
            let all = without_gz_all(crate::text::texts(words@));
            assert(all.take(i + 1) =~= all.take(i as int).push(d@));
            assert(crate::text::texts(deps@.push(d)) =~= crate::text::texts(deps@).push(d@));
        }
        deps.push(d);
        i += 1;
    }
    assert(crate::text::texts(deps@) =~= without_gz_all(crate::text::texts(words@)));
    Some(DepLine { path, deps })
}

fn read(text: &str) -> (r: Vec<DepLine>)
    ensures
        lines_of(r@) == parse(text@),
{
    let lines = split_chars(&chars_of(text), '\n');
    let ghost all = crate::text::texts(lines@);
    let mut out: Vec<DepLine> = Vec::new();
    let mut i: usize = 0;
    assert(lines_of(out@) =~= parse_lines(all.take(0)));
    while i < lines.len()
        invariant
            i <= lines@.len(),
            all == crate::text::texts(lines@),
            lines_of(out@) == parse_lines(all.take(i as int)),
        decreases lines@.len() - i,
    {
        assert(all.take(i + 1).drop_last() =~= all.take(i as int));
        assert(all.take(i + 1).last() == lines@[i as int]@);
        if let Some(l) = read_line(lines[i].as_str()) {
            assert(lines_of(out@.push(l)) =~= lines_of(out@).push(l.line()));
            out.push(l);
        }
        i += 1;
    }
    assert(all.take(all.len() as int) =~= all);
    out
}

/// The index of the last line for `path`.
fn find_path(g: &Vec<DepLine>, path: &String) -> (r: Option<usize>)
    ensures
        match r {
            Some(i) => i < g@.len() && deps_of(lines_of(g@), path@) == g@[i as int].line().deps,
            None => deps_of(lines_of(g@), path@) == Seq::<Seq<char>>::empty(),
        },
{
    let mut n: usize = g.len();
    let ghost all = lines_of(g@);
    assert(all.take(n as int) =~= all);
    while n > 0
        invariant
            n <= g@.len(),
            all == lines_of(g@),
            deps_of(all, path@) == deps_of(all.take(n as int), path@),
        decreases n,
    {
        let i: usize = n - 1;
        assert(all.take(n as int).drop_last() =~= all.take(i as int));
        assert(all.take(n as int).last() == g@[i as int].line());
        if g[i].path == *path {
            return Some(i);
        }
        n = i;
    }
    None
}

/// The index of the last line for a module called `name`.
fn find_name(g: &Vec<DepLine>, name: &String) -> (r: Option<usize>)
    ensures
        match r {
            Some(i) => i < g@.len() && path_of(lines_of(g@), name@) == Some(g@[i as int].path@),
            None => path_of(lines_of(g@), name@) is None,
        },
{
    let mut n: usize = g.len();
    let ghost all = lines_of(g@);
    assert(all.take(n as int) =~= all);
    while n > 0
        invariant
            n <= g@.len(),
            all == lines_of(g@),
            path_of(all, name@) == path_of(all.take(n as int), name@),
        decreases n,
    {
        let i: usize = n - 1;
        assert(all.take(n as int).drop_last() =~= all.take(i as int));
        assert(all.take(n as int).last() == g@[i as int].line());
        if module_name(g[i].path.as_str()) == *name {
            return Some(i);
        }
        n = i;
    }
    None
}

proof fn lemma_paths(g: Seq<Line>, path: Seq<char>, name: Seq<char>)
    ensures
        paths(g).finite(),
        deps_of(g, path).to_set().subset_of(paths(g)),
        path_of(g, name) is Some ==> paths(g).contains(path_of(g, name)->0),
    decreases g.len(),
{
    if g.len() > 0 {
        lemma_paths(g.drop_last(), path, name);
    }
}

/// A traversal only ever adds to what it has seen.
proof fn lemma_walk_grows(g: Seq<Line>, todo: Seq<Seq<char>>, w: Walk, depth: nat)
    ensures
        w.seen.subset_of(walk(g, todo, w, depth).seen),
    decreases depth, todo.len(),
{
    if todo.len() > 0 {
        let before = walk(g, todo.drop_last(), w, depth);
        lemma_walk_grows(g, todo.drop_last(), w, depth);
        if !before.seen.contains(todo.last()) && depth > 0 {
            lemma_walk_grows(
                g,
                deps_of(g, todo.last()),
                Walk { seen: before.seen.insert(todo.last()), order: before.order },
                (depth - 1) as nat,
            );
        }
    }
}

/// What walking a single path comes to.
proof fn lemma_walk_one(g: Seq<Line>, path: Seq<char>, w: Walk, depth: nat)
    ensures
        walk(g, seq![path], w, depth) == (if w.seen.contains(path) || depth == 0 {
            w
        } else {
            let inner = walk(
                g,
                deps_of(g, path),
                Walk { seen: w.seen.insert(path), order: w.order },
                (depth - 1) as nat,
            );
            Walk { seen: inner.seen, order: inner.order.push(path) }
        }),
{
    let none = seq![path].drop_last();
    assert(none.len() == 0);
    assert(walk(g, none, w, depth) == w);
}

/// Walking a list is walking its last path after the others.
proof fn lemma_walk_last(g: Seq<Line>, todo: Seq<Seq<char>>, path: Seq<char>, w: Walk, depth: nat)
    ensures
        walk(g, todo.push(path), w, depth) == walk(g, seq![path], walk(g, todo, w, depth), depth),
{
    assert(todo.push(path).drop_last() =~= todo);
    lemma_walk_one(g, path, walk(g, todo, w, depth), depth);
}

/// The traversal that the two lists stand for.
spec fn walk_of(seen: Seq<String>, order: Seq<String>) -> Walk {
    Walk { seen: crate::text::texts(seen).to_set(), order: crate::text::texts(order) }
}

/// The number of paths not yet entered.
spec fn left(g: Seq<Line>, w: Walk) -> nat {
    paths(g).difference(w.seen).len()
}

proof fn lemma_left(g: Seq<Line>, w: Walk, later: Walk)
    requires
        w.seen.subset_of(later.seen),
    ensures
        left(g, later) <= left(g, w),
        forall|p: Seq<char>|
            paths(g).contains(p) && !w.seen.contains(p) && #[trigger] later.seen.contains(p)
                ==> left(g, later) < left(g, w),
{
    lemma_paths(g, seq![], seq![]);
    let a = paths(g).difference(w.seen);
    let b = paths(g).difference(later.seen);
    assert(b.subset_of(a));
    vstd::set_lib::lemma_len_subset(b, a);
    assert forall|p: Seq<char>|
        paths(g).contains(p) && !w.seen.contains(p) && #[trigger] later.seen.contains(p) implies left(
        g,
        later,
    ) < left(g, w) by {
        assert(b.subset_of(a.remove(p)));
        vstd::set_lib::lemma_len_subset(b, a.remove(p));
    }
}

fn is_seen(seen: &Vec<String>, path: &String) -> (r: bool)
    ensures
        r == crate::text::texts(seen@).to_set().contains(path@),
{
    let mut i: usize = 0;
    while i < seen.len()
        invariant
            i <= seen@.len(),
            forall|k: int| 0 <= k < i ==> seen@[k]@ != path@,
        decreases seen@.len() - i,
    {
        if seen[i] == *path {
            assert(crate::text::texts(seen@)[i as int] == path@);
            return true;
        }
        i += 1;
    }
    false
}

/// Enters `path`, its dependencies first, and leaves it behind them.
///
/// A path is noted as seen before its dependencies are entered, so that a
/// cycle in the text ends the descent.
fn visit(
    path: &String,
    g: &Vec<DepLine>,
    seen: &mut Vec<String>,
    order: &mut Vec<String>,
    Ghost(depth): Ghost<nat>,
)
    requires
        paths(lines_of(g@)).contains(path@),
        left(lines_of(g@), walk_of(old(seen)@, old(order)@)) <= depth,
    ensures
        walk_of(final(seen)@, final(order)@) == walk(
            lines_of(g@),
            seq![path@],
            walk_of(old(seen)@, old(order)@),
            depth,
        ),
    decreases depth,
{
    let ghost lines = lines_of(g@);
    let ghost start = walk_of(seen@, order@);
    proof {
        lemma_walk_one(lines, path@, start, depth);
    }
    if is_seen(seen, path) {
        return;
    }
    seen.push(path.clone());
    let ghost entered = walk_of(seen@, order@);
    proof {
        let before = crate::text::texts(old(seen)@);
        let after = crate::text::texts(seen@);
        assert(after =~= before.push(path@));
        crate::text::lemma_to_set_push(before, path@);
        lemma_left(lines, start, entered);
        assert(entered.seen.contains(path@));
        lemma_paths(lines, path@, seq![]);
    }
    let ghost inner = (depth - 1) as nat;
    match find_path(g, path) {
        Some(at) => {
            let ghost todo = crate::text::texts(g@[at as int].deps@);
            let mut i: usize = 0;
            while i < g[at].deps.len()
                invariant
                    at < g@.len(),
                    i <= g@[at as int].deps@.len(),
                    lines == lines_of(g@),
                    todo == crate::text::texts(g@[at as int].deps@),
                    todo == deps_of(lines, path@),
                    todo.to_set().subset_of(paths(lines)),
                    left(lines, entered) <= inner,
                    inner < depth,
                    walk_of(seen@, order@) == walk(lines, todo.take(i as int), entered, inner),
                decreases todo.len() - i,
            {
                proof {
                    lemma_walk_grows(lines, todo.take(i as int), entered, inner);
                    lemma_left(lines, entered, walk_of(seen@, order@));
                    assert(todo.to_set().contains(todo[i as int]));
                    lemma_walk_last(lines, todo.take(i as int), todo[i as int], entered, inner);
                    assert(todo.take(i + 1) =~= todo.take(i as int).push(todo[i as int]));
                }
                visit(&g[at].deps[i], g, seen, order, Ghost(inner));
                i += 1;
            }
            assert(todo.take(todo.len() as int) =~= todo);
        },
        None => {},
    }
    let ghost left_behind = walk_of(seen@, order@);
    order.push(path.clone());
    assert(crate::text::texts(order@) =~= left_behind.order.push(path@));
}

/// Resolves `roots` (bare module names, `-` and `_` alike) against the text of
/// a `modules.dep`. The result holds `.ko` paths without `.gz`, dependencies
/// first.
///
/// It fails if and only if some root is not declared, and names the first such
/// root.
pub fn resolve_closure(modules_dep: &str, roots: &[&str]) -> (r: Result<Vec<String>, Error>)
    ensures
        match r {
            Ok(order) => {
                &&& all_known(parse(modules_dep@), crate::text::str_texts(roots@))
                &&& crate::text::texts(order@) == closure(
                    parse(modules_dep@),
                    crate::text::str_texts(roots@),
                )
            },
            Err(e) => exists|i: int|
                0 <= i < roots@.len() && all_known(
                    parse(modules_dep@),
                    crate::text::str_texts(roots@).take(i),
                ) && path_of(parse(modules_dep@), canonical((#[trigger] roots@[i])@)) is None
                    && e.message@ == unknown_message(roots@[i]@),
        },
{
    let g = read(modules_dep);
    let ghost lines = lines_of(g@);
    let ghost names = crate::text::str_texts(roots@);
    let ghost found = root_paths(lines, names);
    let ghost depth = paths(lines).len();
    let ghost start = Walk { seen: Set::<Seq<char>>::empty(), order: seq![] };
    let mut seen: Vec<String> = Vec::new();
    let mut order: Vec<String> = Vec::new();
    proof {
        assert(walk_of(seen@, order@) =~= start);
        assert(paths(lines).difference(start.seen) =~= paths(lines));
    }
    let mut i: usize = 0;
    while i < roots.len()
        invariant
            i <= roots@.len(),
            lines == lines_of(g@),
            lines == parse(modules_dep@),
            names == crate::text::str_texts(roots@),
            found == root_paths(lines, names),
            all_known(lines, names.take(i as int)),
            left(lines, start) <= depth,
            walk_of(seen@, order@) == walk(lines, found.take(i as int), start, depth),
        decreases roots@.len() - i,
    {
        let v = chars_of(roots[i]);
        assert(v@.subrange(0, v@.len() as int) =~= v@);
        let name = with_underscores(&v, 0, v.len());
        match find_name(&g, &name) {
            None => {
                assert(path_of(lines, canonical(roots@[i as int]@)) is None);
                let mut message = "module ".to_owned();
                message.append(roots[i]);
                message.append(" not found in modules.dep");
                return Err(Error { message });
            },
            Some(at) => {
                proof {
                    lemma_walk_grows(lines, found.take(i as int), start, depth);
                    lemma_left(lines, start, walk_of(seen@, order@));
                    lemma_paths(lines, seq![], name@);
                    lemma_walk_last(lines, found.take(i as int), found[i as int], start, depth);
                    assert(found.take(i + 1) =~= found.take(i as int).push(found[i as int]));
                    assert(names.take(i + 1) =~= names.take(i as int).push(names[i as int]));
                    assert forall|k: int| 0 <= k < i + 1 implies path_of(
                        lines,
                        canonical(#[trigger] names.take(i + 1)[k]),
                    ) is Some by {
                        if k < i {
                            assert(names.take(i as int)[k] == names.take(i + 1)[k]);
                        }
                    }
                }
                visit(&g[at].path, &g, &mut seen, &mut order, Ghost(depth));
            },
        }
        i += 1;
    }
    assert(found.take(found.len() as int) =~= found);
    assert(names.take(names.len() as int) =~= names);
    Ok(order)
}

/// `c` holds with every path the path's direct dependencies.
pub open spec fn is_closed(g: Seq<Line>, c: Set<Seq<char>>) -> bool {
    forall|p: Seq<char>, d: Seq<char>|
        c.contains(p) && #[trigger] deps_of(g, p).contains(d) ==> c.contains(d)
}

/// `rank` falls along every dependency: there is no cycle.
pub open spec fn is_ranked(g: Seq<Line>, rank: spec_fn(Seq<char>) -> nat) -> bool {
    forall|p: Seq<char>, d: Seq<char>| #[trigger]
        deps_of(g, p).contains(d) ==> rank(d) < rank(p)
}

/// What holds of the lists of a traversal at every moment.
spec fn is_walk(w: Walk) -> bool {
    &&& w.order.no_duplicates()
    &&& forall|x: Seq<char>| #[trigger] w.order.contains(x) ==> w.seen.contains(x)
}

/// What walking `todo` keeps of `w` and what it adds to it.
spec fn extends(g: Seq<Line>, todo: Seq<Seq<char>>, w: Walk, r: Walk) -> bool {
    &&& is_walk(r)
    &&& w.seen.subset_of(r.seen)
    &&& w.order.len() <= r.order.len()
    &&& r.order.take(w.order.len() as int) == w.order
    &&& forall|x: Seq<char>| #[trigger] todo.contains(x) ==> r.seen.contains(x)
    &&& forall|x: Seq<char>| #[trigger]
        r.seen.contains(x) ==> w.seen.contains(x) || r.order.contains(x)
    &&& forall|i: int|
        w.order.len() <= i < r.order.len() ==> !w.seen.contains(#[trigger] r.order[i])
    &&& forall|i: int, d: Seq<char>|
        w.order.len() <= i < r.order.len() && #[trigger] deps_of(g, r.order[i]).contains(d)
            ==> r.seen.contains(d)
}

proof fn lemma_drop_last_contains(s: Seq<Seq<char>>, x: Seq<char>)
    requires
        s.len() > 0,
    ensures
        s.contains(x) <==> s.drop_last().contains(x) || s.last() == x,
{
    if s.contains(x) {
        let i = choose|i: int| 0 <= i < s.len() && s[i] == x;
        if i < s.len() - 1 {
            assert(s.drop_last()[i] == x);
        }
    }
    if s.drop_last().contains(x) {
        let i = choose|i: int| 0 <= i < s.drop_last().len() && s.drop_last()[i] == x;
        assert(s[i] == x);
    }
    assert(s[s.len() - 1] == s.last());
}

proof fn lemma_walk(g: Seq<Line>, todo: Seq<Seq<char>>, w: Walk, depth: nat)
    requires
        forall|x: Seq<char>| #[trigger] todo.contains(x) ==> paths(g).contains(x),
        left(g, w) <= depth,
        is_walk(w),
    ensures
        extends(g, todo, w, walk(g, todo, w, depth)),
    decreases depth, todo.len(),
{
    if todo.len() == 0 {
        assert(w.order.take(w.order.len() as int) =~= w.order);
    } else {
        let init = todo.drop_last();
        let path = todo.last();
        assert forall|x: Seq<char>| #[trigger] init.contains(x) implies paths(g).contains(x) by {
            lemma_drop_last_contains(todo, x);
        }
        assert(todo.contains(path)) by {
            lemma_drop_last_contains(todo, path);
        }
        lemma_walk(g, init, w, depth);
        let before = walk(g, init, w, depth);
        let r = walk(g, todo, w, depth);
        lemma_left(g, w, before);
        assert forall|x: Seq<char>| #[trigger] todo.contains(x) implies init.contains(x) || x
            == path by {
            lemma_drop_last_contains(todo, x);
        }
        if !before.seen.contains(path) {
            assert(paths(g).difference(before.seen).contains(path));
            lemma_paths(g, path, seq![]);
            if depth == 0 {
                assert(paths(g).difference(before.seen) =~= Set::empty());
            }
            let deps = deps_of(g, path);
            let entered = Walk { seen: before.seen.insert(path), order: before.order };
            assert(entered.seen.contains(path));
            lemma_left(g, before, entered);
            assert forall|x: Seq<char>| #[trigger] deps.contains(x) implies paths(g).contains(x) by {
                assert(deps.to_set().contains(x));
            }
            lemma_walk(g, deps, entered, (depth - 1) as nat);
            let inner = walk(g, deps, entered, (depth - 1) as nat);
            lemma_walk_left(g, path, before, inner);
            assert(r.order.take(w.order.len() as int) =~= w.order) by {
                assert(r.order.take(before.order.len() as int).take(w.order.len() as int)
                    =~= r.order.take(w.order.len() as int));
            }
            assert forall|i: int, d: Seq<char>|
                w.order.len() <= i < r.order.len() && #[trigger] deps_of(g, r.order[i]).contains(
                    d,
                ) implies r.seen.contains(d) by {
                if i < before.order.len() {
                    assert(r.order.take(before.order.len() as int)[i] == before.order[i]);
                }
            }
            assert forall|i: int| w.order.len() <= i < r.order.len() implies !w.seen.contains(
                #[trigger] r.order[i],
            ) by {
                if i < before.order.len() {
                    assert(r.order.take(before.order.len() as int)[i] == before.order[i]);
                }
            }
            assert forall|x: Seq<char>| #[trigger] r.seen.contains(x) implies w.seen.contains(x)
                || r.order.contains(x) by {
                if before.seen.contains(x) && !w.seen.contains(x) {
                    let i = choose|i: int| 0 <= i < before.order.len() && before.order[i] == x;
                    assert(r.order.take(before.order.len() as int)[i] == r.order[i]);
                }
            }
        }
    }
}

/// Leaving `path` after its dependencies: what is added to the traversal as it
/// was before `path` was entered.
proof fn lemma_walk_left(g: Seq<Line>, path: Seq<char>, before: Walk, inner: Walk)
    requires
        is_walk(before),
        !before.seen.contains(path),
        extends(
            g,
            deps_of(g, path),
            Walk { seen: before.seen.insert(path), order: before.order },
            inner,
        ),
    ensures
        extends(
            g,
            seq![path],
            before,
            Walk { seen: inner.seen, order: inner.order.push(path) },
        ),
{
    let entered = Walk { seen: before.seen.insert(path), order: before.order };
    let r = Walk { seen: inner.seen, order: inner.order.push(path) };
    let n = before.order.len() as int;
    assert(!inner.order.contains(path)) by {
        if inner.order.contains(path) {
            let i = choose|i: int| 0 <= i < inner.order.len() && inner.order[i] == path;
            if i < n {
                assert(inner.order.take(n)[i] == before.order[i]);
                assert(before.order.contains(path));
            } else {
                assert(!entered.seen.contains(inner.order[i]));
            }
        }
    }
    assert(entered.seen.contains(path));
    assert(r.order.take(n) =~= inner.order.take(n));
    assert forall|x: Seq<char>| #[trigger] r.order.contains(x) implies r.seen.contains(x) by {
        lemma_drop_last_contains(r.order, x);
        assert(r.order.drop_last() =~= inner.order);
    }
    assert forall|x: Seq<char>| #[trigger] r.seen.contains(x) implies before.seen.contains(x)
        || r.order.contains(x) by {
        lemma_drop_last_contains(r.order, x);
        assert(r.order.drop_last() =~= inner.order);
    }
    assert forall|i: int| n <= i < r.order.len() implies !before.seen.contains(
        #[trigger] r.order[i],
    ) by {
        if i < inner.order.len() {
            assert(!entered.seen.contains(inner.order[i]));
        }
    }
    assert forall|i: int, d: Seq<char>|
        n <= i < r.order.len() && #[trigger] deps_of(g, r.order[i]).contains(
            d,
        ) implies r.seen.contains(d) by {
        if i < inner.order.len() {
            assert(deps_of(g, inner.order[i]).contains(d));
        }
    }
    assert forall|x: Seq<char>| #[trigger] seq![path].contains(x) implies r.seen.contains(x) by {}
}

/// All that walking `todo` adds lies in every closed set around `todo`.
proof fn lemma_walk_within(
    g: Seq<Line>,
    todo: Seq<Seq<char>>,
    w: Walk,
    depth: nat,
    c: Set<Seq<char>>,
)
    requires
        is_closed(g, c),
        forall|x: Seq<char>| #[trigger] todo.contains(x) ==> c.contains(x),
        forall|x: Seq<char>| #[trigger] w.order.contains(x) ==> c.contains(x),
    ensures
        forall|x: Seq<char>| #[trigger]
            walk(g, todo, w, depth).order.contains(x) ==> c.contains(x),
    decreases depth, todo.len(),
{
    if todo.len() > 0 {
        let init = todo.drop_last();
        let path = todo.last();
        assert forall|x: Seq<char>| #[trigger] init.contains(x) implies c.contains(x) by {
            lemma_drop_last_contains(todo, x);
        }
        lemma_drop_last_contains(todo, path);
        lemma_walk_within(g, init, w, depth, c);
        let before = walk(g, init, w, depth);
        if !before.seen.contains(path) && depth > 0 {
            let entered = Walk { seen: before.seen.insert(path), order: before.order };
            lemma_walk_within(g, deps_of(g, path), entered, (depth - 1) as nat, c);
            let inner = walk(g, deps_of(g, path), entered, (depth - 1) as nat);
            let order = inner.order.push(path);
            assert forall|x: Seq<char>| #[trigger] order.contains(x) implies c.contains(x) by {
                lemma_drop_last_contains(order, x);
                assert(order.drop_last() =~= inner.order);
            }
        }
    }
}

/// Every path of `order` comes after its dependencies.
pub open spec fn dependencies_first(g: Seq<Line>, order: Seq<Seq<char>>) -> bool {
    forall|i: int, d: Seq<char>|
        0 <= i < order.len() && #[trigger] deps_of(g, order[i]).contains(d) ==> order.take(
            i,
        ).contains(d)
}

/// The paths entered and not yet left rank above `todo`.
spec fn ranks_above(rank: spec_fn(Seq<char>) -> nat, w: Walk, todo: Seq<Seq<char>>) -> bool {
    forall|x: Seq<char>, t: Seq<char>|
        w.seen.contains(x) && !w.order.contains(x) && #[trigger] todo.contains(t) ==> rank(t)
            < #[trigger] rank(x)
}

proof fn lemma_walk_ranked(
    g: Seq<Line>,
    todo: Seq<Seq<char>>,
    w: Walk,
    depth: nat,
    rank: spec_fn(Seq<char>) -> nat,
)
    requires
        forall|x: Seq<char>| #[trigger] todo.contains(x) ==> paths(g).contains(x),
        left(g, w) <= depth,
        is_walk(w),
        is_ranked(g, rank),
        ranks_above(rank, w, todo),
        dependencies_first(g, w.order),
    ensures
        dependencies_first(g, walk(g, todo, w, depth).order),
    decreases depth, todo.len(),
{
    if todo.len() > 0 {
        let init = todo.drop_last();
        let path = todo.last();
        assert forall|x: Seq<char>| #[trigger] init.contains(x) implies paths(g).contains(x)
            && todo.contains(x) by {
            lemma_drop_last_contains(todo, x);
        }
        assert(todo.contains(path)) by {
            lemma_drop_last_contains(todo, path);
        }
        lemma_walk(g, init, w, depth);
        lemma_walk_ranked(g, init, w, depth, rank);
        let before = walk(g, init, w, depth);
        lemma_left(g, w, before);
        if !before.seen.contains(path) && depth > 0 {
            lemma_paths(g, path, seq![]);
            let deps = deps_of(g, path);
            let entered = Walk { seen: before.seen.insert(path), order: before.order };
            assert(entered.seen.contains(path));
            lemma_left(g, before, entered);
            assert forall|x: Seq<char>| #[trigger] deps.contains(x) implies paths(g).contains(x) by {
                assert(deps.to_set().contains(x));
            }
            // Whatever is entered and not left here was so at the start, or is
            // `path` itself.
            assert forall|x: Seq<char>, t: Seq<char>|
                entered.seen.contains(x) && !entered.order.contains(x) && #[trigger] deps.contains(
                    t,
                ) implies rank(t) < #[trigger] rank(x) by {
                if x != path {
                    assert(before.seen.contains(x));
                    assert(w.seen.contains(x));
                    assert(!w.order.contains(x)) by {
                        if w.order.contains(x) {
                            let i = choose|i: int| 0 <= i < w.order.len() && w.order[i] == x;
                            assert(before.order.take(w.order.len() as int)[i] == before.order[i]);
                        }
                    }
                    assert(rank(path) < rank(x));
                }
            }
            lemma_walk(g, deps, entered, (depth - 1) as nat);
            lemma_walk_ranked(g, deps, entered, (depth - 1) as nat, rank);
            let inner = walk(g, deps, entered, (depth - 1) as nat);
            let order = inner.order.push(path);
            assert forall|i: int, d: Seq<char>|
                0 <= i < order.len() && #[trigger] deps_of(g, order[i]).contains(
                    d,
                ) implies order.take(i).contains(d) by {
                assert(order.take(i) =~= inner.order.take(i));
                if i < inner.order.len() {
                    assert(deps_of(g, inner.order[i]).contains(d));
                } else {
                    assert(deps.contains(d));
                    assert(inner.seen.contains(d));
                    assert(inner.order.take(i) =~= inner.order);
                    if !inner.order.contains(d) {
                        assert(entered.seen.contains(d));
                        assert(!entered.order.contains(d)) by {
                            if entered.order.contains(d) {
                                let k = choose|k: int|
                                    0 <= k < entered.order.len() && entered.order[k] == d;
                                assert(inner.order.take(entered.order.len() as int)[k]
                                    == inner.order[k]);
                            }
                        }
                        assert(rank(d) < rank(d));
                    }
                }
            }
        }
    }
}

/// No module is listed twice.
pub proof fn closure_has_no_duplicates(g: Seq<Line>, roots: Seq<Seq<char>>)
    requires
        all_known(g, roots),
    ensures
        closure(g, roots).no_duplicates(),
{
    lemma_closure(g, roots);
}

/// The closure is the smallest set of modules that holds the roots and, with
/// every module, what the module depends on: nothing is missing and nothing is
/// extra.
pub proof fn closure_is_the_least_closed_set(
    g: Seq<Line>,
    roots: Seq<Seq<char>>,
    c: Set<Seq<char>>,
)
    requires
        all_known(g, roots),
    ensures
        forall|i: int|
            0 <= i < roots.len() ==> #[trigger] closure(g, roots).contains(
                path_of(g, canonical(roots[i]))->0,
            ),
        is_closed(g, closure(g, roots).to_set()),
        is_closed(g, c) && (forall|i: int|
            0 <= i < roots.len() ==> #[trigger] c.contains(path_of(g, canonical(roots[i]))->0))
            ==> closure(g, roots).to_set().subset_of(c),
{
    lemma_closure(g, roots);
    let found = root_paths(g, roots);
    let start = Walk { seen: Set::empty(), order: seq![] };
    let r = walk(g, found, start, paths(g).len());
    assert forall|i: int| 0 <= i < roots.len() implies #[trigger] closure(g, roots).contains(
        path_of(g, canonical(roots[i]))->0,
    ) by {
        assert(found[i] == path_of(g, canonical(roots[i]))->0);
        assert(found.contains(found[i]));
    }
    assert forall|p: Seq<char>, d: Seq<char>|
        r.order.to_set().contains(p) && #[trigger] deps_of(g, p).contains(
            d,
        ) implies r.order.to_set().contains(d) by {
        let i = choose|i: int| 0 <= i < r.order.len() && r.order[i] == p;
        assert(deps_of(g, r.order[i]).contains(d));
    }
    if is_closed(g, c) && (forall|i: int|
        0 <= i < roots.len() ==> #[trigger] c.contains(path_of(g, canonical(roots[i]))->0)) {
        assert forall|x: Seq<char>| #[trigger] found.contains(x) implies c.contains(x) by {
            let i = choose|i: int| 0 <= i < found.len() && found[i] == x;
            assert(c.contains(path_of(g, canonical(roots[i]))->0));
        }
        lemma_walk_within(g, found, start, paths(g).len(), c);
        assert(closure(g, roots).to_set().subset_of(c));
    }
}

/// Where the text has no cycle, every module comes after all it depends on.
/// (That there is no cycle is said by a rank that falls along each dependency.)
pub proof fn closure_lists_dependencies_first(
    g: Seq<Line>,
    roots: Seq<Seq<char>>,
    rank: spec_fn(Seq<char>) -> nat,
)
    requires
        all_known(g, roots),
        is_ranked(g, rank),
    ensures
        dependencies_first(g, closure(g, roots)),
{
    lemma_closure(g, roots);
    lemma_walk_ranked(
        g,
        root_paths(g, roots),
        Walk { seen: Set::empty(), order: seq![] },
        paths(g).len(),
        rank,
    );
}

/// `chain` leads from a module to one that it needs, step by step.
pub open spec fn is_chain(g: Seq<Line>, chain: Seq<Seq<char>>) -> bool {
    forall|k: int|
        0 <= k < chain.len() - 1 ==> deps_of(g, #[trigger] chain[k]).contains(chain[k + 1])
}

/// Where every path comes after its direct dependencies, it comes after all
/// that it needs through others too.
pub proof fn transitive_dependencies_come_first(
    g: Seq<Line>,
    order: Seq<Seq<char>>,
    chain: Seq<Seq<char>>,
    i: int,
)
    requires
        dependencies_first(g, order),
        is_chain(g, chain),
        chain.len() > 1,
        0 <= i < order.len(),
        order[i] == chain[0],
    ensures
        order.take(i).contains(chain.last()),
    decreases chain.len(),
{
    assert(deps_of(g, chain[0]).contains(chain[1]));
    let before = order.take(i);
    let j = choose|j: int| 0 <= j < before.len() && before[j] == chain[1];
    if chain.len() > 2 {
        let rest = chain.skip(1);
        assert forall|k: int| 0 <= k < rest.len() - 1 implies deps_of(
            g,
            #[trigger] rest[k],
        ).contains(rest[k + 1]) by {
            assert(deps_of(g, chain[k + 1]).contains(chain[k + 1 + 1]));
        }
        transitive_dependencies_come_first(g, order, rest, j);
        let k = choose|k: int| 0 <= k < order.take(j).len() && order.take(j)[k] == chain.last();
        assert(before[k] == chain.last());
    }
}

proof fn lemma_closure(g: Seq<Line>, roots: Seq<Seq<char>>)
    requires
        all_known(g, roots),
    ensures
        ({
            let start = Walk { seen: Set::empty(), order: seq![] };
            let found = root_paths(g, roots);
            &&& left(g, start) <= paths(g).len()
            &&& is_walk(start)
            &&& forall|x: Seq<char>| #[trigger] found.contains(x) ==> paths(g).contains(x)
            &&& extends(g, found, start, walk(g, found, start, paths(g).len()))
        }),
{
    let start = Walk { seen: Set::empty(), order: seq![] };
    let found = root_paths(g, roots);
    assert(paths(g).difference(start.seen) =~= paths(g));
    assert forall|x: Seq<char>| #[trigger] found.contains(x) implies paths(g).contains(x) by {
        let i = choose|i: int| 0 <= i < found.len() && found[i] == x;
        assert(path_of(g, canonical(roots[i])) is Some);
        lemma_paths(g, seq![], canonical(roots[i]));
    }
    lemma_walk(g, found, start, paths(g).len());
}

/// A path as `modules.dep` can write it: one word without a `:`, and no
/// trailing `.gz` of its own.
pub open spec fn is_plain(p: Seq<char>) -> bool {
    &&& crate::text::is_word(p)
    &&& !p.contains(':')
    &&& p.len() >= 3 ==> p.skip(p.len() - 3) != ".gz"@
}

/// A path as it is written, with or without `.gz`.
pub open spec fn packed(p: Seq<char>, gz: bool) -> Seq<char> {
    if gz {
        p + ".gz"@
    } else {
        p
    }
}

/// The paths as they are written.
pub open spec fn packed_all(all: Seq<Seq<char>>, gz: Seq<bool>) -> Seq<Seq<char>> {
    Seq::new(all.len(), |i: int| packed(all[i], gz[i]))
}

/// One `.gz` is taken off a path, and nothing else.
pub proof fn only_gz_is_taken_off(p: Seq<char>)
    ensures
        without_gz(p + ".gz"@) == p,
        without_gz(p) == p || without_gz(p) + ".gz"@ == p,
        p.len() >= 3 && p.skip(p.len() - 3) == ".gz"@ ==> without_gz(p) + ".gz"@ == p,
{
    reveal_strlit(".gz");
    let q = p + ".gz"@;
    assert(q.skip(q.len() - 3) =~= ".gz"@);
    assert(q.take(q.len() - 3) =~= p);
    if crate::text::ends_in(p, ".gz"@) {
        assert(p.take(p.len() - 3) + ".gz"@ =~= p);
    }
}

proof fn lemma_packed(p: Seq<char>, gz: bool)
    requires
        is_plain(p),
    ensures
        without_gz(packed(p, gz)) == p,
        crate::text::is_word(packed(p, gz)),
        !packed(p, gz).contains(':'),
        !packed(p, gz).contains('\n'),
{
    reveal_strlit(".gz");
    only_gz_is_taken_off(p);
    let q = packed(p, gz);
    assert forall|i: int| 0 <= i < q.len() implies !crate::text::is_space(#[trigger] q[i]) && q[i]
        != ':' by {
        if i < p.len() {
            assert(q[i] == p[i]);
            assert(p.contains(p[i]));
        }
    }
    assert forall|i: int| 0 <= i < q.len() implies q[i] != '\n' by {
        assert(!crate::text::is_space(q[i]));
    }
}

/// Every word behind the colon is a dependency. A line that is written as a
/// module's path, a colon and any number of paths with white space between
/// them declares that module with all of those paths, in their order and each
/// without its `.gz`.
pub proof fn every_word_behind_the_colon_is_a_dependency(
    before: Seq<char>,
    path: Seq<char>,
    path_gz: bool,
    behind: Seq<char>,
    gaps: Seq<Seq<char>>,
    deps: Seq<Seq<char>>,
    deps_gz: Seq<bool>,
    tail: Seq<char>,
)
    requires
        crate::text::is_blank(before),
        crate::text::is_blank(behind),
        crate::text::is_blank(tail),
        is_plain(path),
        gaps.len() == deps.len(),
        forall|i: int| 0 <= i < deps.len() ==> is_plain(#[trigger] deps[i]),
        forall|i: int| 0 <= i < gaps.len() ==> crate::text::is_blank(#[trigger] gaps[i]),
        forall|i: int| 0 < i < gaps.len() ==> (#[trigger] gaps[i]).len() > 0,
    ensures
        ({
            let words = crate::text::spread(gaps, packed_all(deps, deps_gz), tail);
            let line = before + packed(path, path_gz) + behind + ":"@ + words;
            parse_line(line) == Some(Line { path, deps })
        }),
{
    reveal_strlit(":");
    let all = packed_all(deps, deps_gz);
    let words = crate::text::spread(gaps, all, tail);
    let name = packed(path, path_gz);
    let head = before + name + behind;
    let line = before + packed(path, path_gz) + behind + ":"@ + words;
    lemma_packed(path, path_gz);
    let n = head.len() as int;
    assert forall|i: int| 0 <= i < n implies line[i] != ':' by {
        if i < before.len() {
            assert(line[i] == before[i]);
        } else if i < before.len() + name.len() {
            assert(line[i] == name[i - before.len()]);
            assert(name.contains(name[i - before.len()]));
        } else {
            assert(line[i] == behind[i - before.len() - name.len()]);
        }
    }
    assert(line[n] == ':');
    crate::text::lemma_until(line, ':', n as nat);
    assert(line.take(n) =~= head);
    assert(line.skip(n + 1) =~= words);
    crate::text::trimming_takes_off_white_space_only(before, name, behind);
    assert forall|i: int| 0 <= i < all.len() implies crate::text::is_word(#[trigger] all[i]) by {
        lemma_packed(deps[i], deps_gz[i]);
    }
    crate::text::words_are_read_back(gaps, all, tail);
    assert forall|i: int| 0 <= i < deps.len() implies #[trigger] without_gz_all(all)[i]
        == deps[i] by {
        lemma_packed(deps[i], deps_gz[i]);
    }
    assert(without_gz_all(all) =~= deps);
}

/// A line of `modules.dep` as it is written: the path, a colon, and the
/// dependencies, each behind a blank.
pub open spec fn written_line(l: Line, gz: bool) -> Seq<char> {
    packed(l.path, gz) + ":"@ + crate::text::spread(
        Seq::new(l.deps.len(), |i: int| " "@),
        packed_all(l.deps, Seq::new(l.deps.len(), |i: int| gz)),
        Seq::empty(),
    )
}

/// The text of a `modules.dep`: its lines, each with a line break behind it.
pub open spec fn written(g: Seq<Line>, gz: bool) -> Seq<char> {
    crate::text::join(
        Seq::new(g.len(), |i: int| written_line(g[i], gz)).push(Seq::empty()),
        seq!['\n'],
    )
}

/// All paths can be written.
pub open spec fn is_writable(g: Seq<Line>) -> bool {
    forall|i: int| 0 <= i < g.len() ==> is_writable_line(#[trigger] g[i])
}

/// The paths of a line can be written.
pub open spec fn is_writable_line(l: Line) -> bool {
    is_plain(l.path) && forall|j: int| 0 <= j < l.deps.len() ==> is_plain(#[trigger] l.deps[j])
}

proof fn lemma_spread_is_one_line(gaps: Seq<Seq<char>>, all: Seq<Seq<char>>)
    requires
        gaps.len() == all.len(),
        forall|i: int| 0 <= i < gaps.len() ==> #[trigger] gaps[i] == " "@,
        forall|i: int| 0 <= i < all.len() ==> !(#[trigger] all[i]).contains('\n'),
    ensures
        !crate::text::spread(gaps, all, Seq::empty()).contains('\n'),
    decreases all.len(),
{
    reveal_strlit(" ");
    let s = crate::text::spread(gaps, all, Seq::empty());
    if all.len() > 0 {
        let g = gaps.skip(1);
        let a = all.skip(1);
        assert forall|i: int| 0 <= i < a.len() implies !(#[trigger] a[i]).contains('\n') by {
            assert(a[i] == all[i + 1]);
        }
        assert forall|i: int| 0 <= i < g.len() implies #[trigger] g[i] == " "@ by {
            assert(g[i] == gaps[i + 1]);
        }
        lemma_spread_is_one_line(g, a);
        let rest = crate::text::spread(g, a, Seq::empty());
        assert(gaps[0] == " "@);
        assert forall|i: int| 0 <= i < s.len() implies s[i] != '\n' by {
            if i >= 1 && i < 1 + all[0].len() {
                assert(s[i] == all[0][i - 1]);
                assert(all[0].contains(all[0][i - 1]));
            } else if i >= 1 {
                let k = i - 1 - all[0].len();
                assert(s[i] == rest[k]);
                assert(rest.contains(rest[k]));
            }
        }
    }
}

proof fn lemma_written_line(l: Line, gz: bool)
    requires
        is_writable_line(l),
    ensures
        parse_line(written_line(l, gz)) == Some(l),
        !written_line(l, gz).contains('\n'),
{
    reveal_strlit(" ");
    reveal_strlit(":");
    let gaps = Seq::new(l.deps.len(), |i: int| " "@);
    let flags = Seq::new(l.deps.len(), |i: int| gz);
    let none = Seq::<char>::empty();
    assert forall|i: int| 0 <= i < gaps.len() implies crate::text::is_blank(#[trigger] gaps[i]) by {
        assert(" "@[0] == ' ');
    }
    every_word_behind_the_colon_is_a_dependency(
        none,
        l.path,
        gz,
        none,
        gaps,
        l.deps,
        flags,
        none,
    );
    let all = packed_all(l.deps, flags);
    let words = crate::text::spread(gaps, all, none);
    let line = written_line(l, gz);
    assert(none + packed(l.path, gz) + none + ":"@ + words =~= line);
    lemma_packed(l.path, gz);
    assert forall|i: int| 0 <= i < all.len() implies !(#[trigger] all[i]).contains('\n') by {
        lemma_packed(l.deps[i], gz);
    }
    lemma_spread_is_one_line(gaps, all);
    let name = packed(l.path, gz);
    assert forall|i: int| 0 <= i < line.len() implies line[i] != '\n' by {
        if i < name.len() {
            assert(line[i] == name[i]);
            assert(name.contains(name[i]));
        } else if i > name.len() {
            assert(line[i] == words[i - name.len() - 1]);
            assert(words.contains(words[i - name.len() - 1]));
        }
    }
}

proof fn lemma_parse_lines(g: Seq<Line>, gz: bool, n: int)
    requires
        is_writable(g),
        0 <= n <= g.len(),
    ensures
        parse_lines(Seq::new(g.len(), |i: int| written_line(g[i], gz)).take(n)) == g.take(n),
    decreases n,
{
    let lines = Seq::new(g.len(), |i: int| written_line(g[i], gz));
    if n > 0 {
        lemma_parse_lines(g, gz, n - 1);
        assert(lines.take(n).drop_last() =~= lines.take(n - 1));
        assert(lines.take(n).last() == written_line(g[n - 1], gz));
        assert(is_writable_line(g[n - 1]));
        lemma_written_line(g[n - 1], gz);
        assert(g.take(n) =~= g.take(n - 1).push(g[n - 1]));
    } else {
        assert(lines.take(0) =~= seq![]);
        assert(g.take(0) =~= seq![]);
    }
}

/// A `modules.dep` is read as it was written: every module with every one of
/// its dependencies, and nothing else, whether or not the modules are packed.
pub proof fn a_written_text_is_read_back(g: Seq<Line>, gz: bool)
    requires
        is_writable(g),
    ensures
        parse(written(g, gz)) == g,
{
    let lines = Seq::new(g.len(), |i: int| written_line(g[i], gz));
    let parts = lines.push(Seq::empty());
    assert forall|i: int| 0 <= i < parts.len() implies !(#[trigger] parts[i]).contains('\n') by {
        if i < g.len() {
            assert(is_writable_line(g[i]));
            lemma_written_line(g[i], gz);
        }
    }
    crate::text::what_was_joined_is_split_again(parts, '\n');
    assert(parts.drop_last() =~= lines);
    assert(parts.last() == Seq::<char>::empty());
    lemma_parse_lines(g, gz, g.len() as int);
    assert(lines.take(g.len() as int) =~= lines);
    assert(g.take(g.len() as int) =~= g);
}

/// The last line for a path says what the module there depends on; a path
/// without a line depends on nothing.
pub proof fn the_last_line_for_a_path_counts(g: Seq<Line>, path: Seq<char>, i: int)
    requires
        -1 <= i < g.len(),
        i >= 0 ==> g[i].path == path,
        forall|j: int| i < j < g.len() ==> (#[trigger] g[j]).path != path,
    ensures
        i >= 0 ==> deps_of(g, path) == g[i].deps,
        i < 0 ==> deps_of(g, path).len() == 0,
    decreases g.len(),
{
    if g.len() > 0 && i < g.len() - 1 {
        assert(g[g.len() - 1].path != path);
        let less = g.drop_last();
        assert forall|j: int| i < j < less.len() implies (#[trigger] less[j]).path != path by {
            assert(less[j] == g[j]);
        }
        the_last_line_for_a_path_counts(less, path, i);
    }
}

/// The module that a name means is that of the last line whose file has this
/// name.
pub proof fn the_last_line_with_a_name_counts(g: Seq<Line>, name: Seq<char>, i: int)
    requires
        -1 <= i < g.len(),
        i >= 0 ==> name_of(g[i].path) == name,
        forall|j: int| i < j < g.len() ==> name_of((#[trigger] g[j]).path) != name,
    ensures
        i >= 0 ==> path_of(g, name) == Some(g[i].path),
        i < 0 ==> path_of(g, name) is None,
    decreases g.len(),
{
    if g.len() > 0 && i < g.len() - 1 {
        assert(name_of(g[g.len() - 1].path) != name);
        let less = g.drop_last();
        assert forall|j: int| i < j < less.len() implies name_of((#[trigger] less[j]).path)
            != name by {
            assert(less[j] == g[j]);
        }
        the_last_line_with_a_name_counts(less, name, i);
    }
}

/// The name of a module is that of its file, without the directories, `.ko` and
/// `.gz`; `-` and `_` mean the same in it.
pub proof fn a_module_is_called_like_its_file(dir: Seq<char>, stem: Seq<char>, gz: bool)
    requires
        !stem.contains('/'),
        stem.len() >= 3 ==> stem.skip(stem.len() - 3) != ".ko"@,
    ensures
        name_of(packed(dir + "/"@ + stem + ".ko"@, gz)) == canonical(stem),
        canonical(stem).len() == stem.len(),
        forall|i: int|
            0 <= i < stem.len() ==> #[trigger] canonical(stem)[i] == (if stem[i] == '-' {
                '_'
            } else {
                stem[i]
            }),
{
    reveal_strlit(".ko");
    reveal_strlit(".gz");
    let file = stem + ".ko"@;
    let whole = packed(file, gz);
    let path = packed(dir + "/"@ + stem + ".ko"@, gz);
    assert(path =~= dir + "/"@ + whole);
    assert forall|i: int| 0 <= i < whole.len() implies whole[i] != '/' by {
        if i < stem.len() {
            assert(whole[i] == stem[i]);
            assert(stem.contains(stem[i]));
        }
    }
    assert(!whole.contains('/'));
    crate::paths::the_last_component_is_the_base_name(dir, whole);
    only_gz_is_taken_off(file);
    if !gz {
        assert(whole == file);
        assert(whole.skip(whole.len() - 3) =~= ".ko"@);
        assert(".ko"@[1] == 'k' && ".gz"@[1] == 'g');
        assert(".ko"@ != ".gz"@);
    }
    assert(without_gz(whole) == file);
    assert(file.skip(file.len() - 3) =~= ".ko"@);
    assert(file.take(file.len() - 3) =~= stem);
    assert(without_ko(stem) == stem);
}

/// The load order that a text gives. Of a `modules.dep` that declares each
/// module once and without a cycle, each dependency that is written in the text
/// is loaded before the module that needs it, and none twice.
pub proof fn what_the_text_asks_for_is_loaded(
    g: Seq<Line>,
    gz: bool,
    roots: Seq<Seq<char>>,
    rank: spec_fn(Seq<char>) -> nat,
    i: int,
    j: int,
    k: int,
)
    requires
        is_writable(g),
        all_known(parse(written(g, gz)), roots),
        forall|a: int, b: int| 0 <= a < b < g.len() ==> (#[trigger] g[a]).path != (
        #[trigger] g[b]).path,
        forall|a: int, b: int|
            #![trigger g[a].deps[b]]
            0 <= a < g.len() && 0 <= b < g[a].deps.len() ==> rank(g[a].deps[b]) < rank(g[a].path),
        0 <= i < g.len(),
        0 <= j < g[i].deps.len(),
        0 <= k < closure(parse(written(g, gz)), roots).len(),
        closure(parse(written(g, gz)), roots)[k] == g[i].path,
    ensures
        closure(parse(written(g, gz)), roots).take(k).contains(g[i].deps[j]),
        closure(parse(written(g, gz)), roots).no_duplicates(),
{
    a_written_text_is_read_back(g, gz);
    let order = closure(g, roots);
    closure_has_no_duplicates(g, roots);
    assert forall|p: Seq<char>, d: Seq<char>| #[trigger]
        deps_of(g, p).contains(d) implies rank(d) < rank(p) by {
        lemma_deps_of_is_a_line(g, p);
        let a = choose|a: int| 0 <= a < g.len() && g[a].path == p && g[a].deps == deps_of(g, p);
        let b = choose|b: int| 0 <= b < g[a].deps.len() && g[a].deps[b] == d;
        assert(rank(g[a].deps[b]) < rank(g[a].path));
    }
    closure_lists_dependencies_first(g, roots, rank);
    the_last_line_for_a_path_counts(g, g[i].path, i);
    assert(deps_of(g, order[k]).contains(g[i].deps[j]));
}

proof fn lemma_deps_of_is_a_line(g: Seq<Line>, p: Seq<char>)
    requires
        deps_of(g, p).len() > 0,
    ensures
        exists|a: int| 0 <= a < g.len() && (#[trigger] g[a]).path == p && g[a].deps == deps_of(g, p),
    decreases g.len(),
{
    if g.last().path == p {
        assert(g[g.len() - 1].path == p);
    } else {
        let less = g.drop_last();
        lemma_deps_of_is_a_line(less, p);
        let a = choose|a: int|
            0 <= a < less.len() && (#[trigger] less[a]).path == p && less[a].deps == deps_of(less, p);
        assert(g[a] == less[a]);
    }
}

/// With a module, all that its line names is loaded, cycles or not.
pub proof fn what_a_loaded_module_needs_is_loaded(
    g: Seq<Line>,
    gz: bool,
    roots: Seq<Seq<char>>,
    i: int,
    j: int,
)
    requires
        is_writable(g),
        all_known(parse(written(g, gz)), roots),
        0 <= i < g.len(),
        forall|b: int| i < b < g.len() ==> (#[trigger] g[b]).path != g[i].path,
        0 <= j < g[i].deps.len(),
        closure(parse(written(g, gz)), roots).contains(g[i].path),
    ensures
        closure(parse(written(g, gz)), roots).contains(g[i].deps[j]),
{
    a_written_text_is_read_back(g, gz);
    closure_is_the_least_closed_set(g, roots, Set::empty());
    the_last_line_for_a_path_counts(g, g[i].path, i);
    let c = closure(g, roots).to_set();
    assert(c.contains(g[i].path));
    assert(deps_of(g, g[i].path).contains(g[i].deps[j]));
}

/// A module that is asked for by the name of its file is loaded.
pub proof fn a_module_that_is_asked_for_is_loaded(
    g: Seq<Line>,
    gz: bool,
    roots: Seq<Seq<char>>,
    r: int,
    i: int,
)
    requires
        is_writable(g),
        all_known(parse(written(g, gz)), roots),
        0 <= r < roots.len(),
        0 <= i < g.len(),
        name_of(g[i].path) == canonical(roots[r]),
        forall|b: int| i < b < g.len() ==> name_of((#[trigger] g[b]).path) != canonical(roots[r]),
    ensures
        closure(parse(written(g, gz)), roots).contains(g[i].path),
{
    a_written_text_is_read_back(g, gz);
    closure_is_the_least_closed_set(g, roots, Set::empty());
    the_last_line_with_a_name_counts(g, canonical(roots[r]), i);
    assert(closure(g, roots).contains(path_of(g, canonical(roots[r]))->0));
}

/// A root is known if and only if some module of the text is called like it; a
/// dash counts as an underscore.
pub proof fn a_root_is_known_by_the_name_of_a_file(
    g: Seq<Line>,
    gz: bool,
    root: Seq<char>,
)
    requires
        is_writable(g),
    ensures
        path_of(parse(written(g, gz)), canonical(root)) is Some <==> exists|i: int|
            0 <= i < g.len() && name_of((#[trigger] g[i]).path) == canonical(root),
{
    a_written_text_is_read_back(g, gz);
    lemma_path_of(g, canonical(root));
}

proof fn lemma_path_of(g: Seq<Line>, name: Seq<char>)
    ensures
        path_of(g, name) is Some <==> exists|i: int|
            0 <= i < g.len() && name_of((#[trigger] g[i]).path) == name,
    decreases g.len(),
{
    if g.len() > 0 {
        let less = g.drop_last();
        lemma_path_of(less, name);
        if name_of(g.last().path) == name {
            assert(name_of(g[g.len() - 1].path) == name);
        }
        if exists|i: int| 0 <= i < less.len() && name_of((#[trigger] less[i]).path) == name {
            let i = choose|i: int| 0 <= i < less.len() && name_of((#[trigger] less[i]).path) == name;
            assert(g[i] == less[i]);
        }
        if exists|i: int| 0 <= i < g.len() && name_of((#[trigger] g[i]).path) == name {
            let i = choose|i: int| 0 <= i < g.len() && name_of((#[trigger] g[i]).path) == name;
            if i < less.len() {
                assert(less[i] == g[i]);
            }
        }
    }
}

} // verus!
