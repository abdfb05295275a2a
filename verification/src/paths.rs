//! Paths as text, on a system where `/` separates components.

use crate::text::{chars_of, string_of};
use vstd::prelude::*;
use vstd::string::*;

verus! {

/// The part of a path behind its last `/`.
pub open spec fn base_name(p: Seq<char>) -> Seq<char>
    decreases p.len(),
{
    if p.len() == 0 || p.last() == '/' {
        Seq::empty()
    } else {
        base_name(p.drop_last()).push(p.last())
    }
}

/// `name` below `root`: an absolute `name` stands for itself, and no second
/// `/` is put behind a root that ends in one (or is empty).
pub open spec fn below(root: Seq<char>, name: Seq<char>) -> Seq<char> {
    if name.len() > 0 && name[0] == '/' {
        name
    } else if root.len() == 0 || root.last() == '/' {
        root + name
    } else {
        root + "/"@ + name
    }
}

/// A path without the `/` and `/.` at its end, which name the same thing.
pub open spec fn without_tail(p: Seq<char>) -> Seq<char>
    decreases p.len(),
{
    if p.len() > 0 && p.last() == '/' {
        without_tail(p.drop_last())
    } else if p.len() > 1 && p.last() == '.' && p[p.len() - 2] == '/' {
        without_tail(p.take(p.len() - 2))
    } else {
        p
    }
}

/// The last component of a path, if it is a name.
pub open spec fn file_name_of(p: Seq<char>) -> Option<Seq<char>> {
    let name = base_name(without_tail(p));
    if name.len() == 0 || name == "."@ || name == ".."@ {
        None
    } else {
        Some(name)
    }
}

/// The index behind the last `/` of `v[..to]`.
pub fn base_start(v: &Vec<char>, to: usize) -> (from: usize)
    requires
        to <= v@.len(),
    ensures
        from <= to,
        v@.subrange(from as int, to as int) == base_name(v@.take(to as int)),
{
    let mut from: usize = to;
    let ghost whole = v@.take(to as int);
    assert(whole.take(from as int) =~= whole);
    assert(base_name(whole.take(from as int)) + whole.subrange(from as int, to as int)
        =~= base_name(whole));
    while from > 0 && v[from - 1] != '/'
        invariant
            from <= to <= v@.len(),
            whole == v@.take(to as int),
            base_name(whole.take(from as int)) + whole.subrange(from as int, to as int)
                == base_name(whole),
        decreases from,
    {
        let ghost head = whole.take(from as int);
        assert(head.drop_last() =~= whole.take(from - 1));
        assert(base_name(head) + whole.subrange(from as int, to as int) =~= base_name(
            whole.take(from - 1),
        ) + whole.subrange(from - 1, to as int));
        from -= 1;
    }
    assert(base_name(whole.take(from as int)) =~= Seq::empty());
    assert(v@.subrange(from as int, to as int) =~= base_name(whole));
    from
}

/// The part of a path behind its last `/`.
pub fn leaf_of(path: &str) -> (r: String)
    ensures
        r@ == base_name(path@),
{
    let v = chars_of(path);
    assert(v@.take(v@.len() as int) =~= v@);
    let from = base_start(&v, v.len());
    string_of(&v, from, v.len())
}

/// `name` below `root`.
pub fn join(root: &str, name: &str) -> (r: String)
    ensures
        r@ == below(root@, name@),
{
    let n = chars_of(name);
    if n.len() > 0 && n[0] == '/' {
        return name.to_owned();
    }
    let v = chars_of(root);
    let mut out = root.to_owned();
    if v.len() > 0 && v[v.len() - 1] != '/' {
        out.append("/");
    }
    out.append(name);
    out
}

/// The last component of a path, if it is a name.
pub fn file_name(path: &str) -> (r: Option<String>)
    ensures
        crate::resources::opt_text(r) == file_name_of(path@),
{
    let v = chars_of(path);
    let mut to: usize = v.len();
    assert(v@.take(to as int) =~= v@);
    while (to > 0 && v[to - 1] == '/') || (to > 1 && v[to - 1] == '.' && v[to - 2] == '/')
        invariant
            to <= v@.len(),
            without_tail(v@.take(to as int)) == without_tail(v@),
        decreases to,
    {
        if v[to - 1] == '/' {
            assert(v@.take(to as int).drop_last() =~= v@.take(to - 1));
            to -= 1;
        } else {
            assert(v@.take(to as int).take(to - 2) =~= v@.take(to - 2));
            to -= 2;
        }
    }
    let from = base_start(&v, to);
    let name = string_of(&v, from, to);
    if from == to || crate::text::same(name.as_str(), ".") || crate::text::same(
        name.as_str(),
        "..",
    ) {
        None
    } else {
        Some(name)
    }
}

/// Whether the component `..` stands at `i` of a path in bytes.
pub open spec fn parent_at(p: Seq<u8>, i: int) -> bool {
    &&& 0 <= i <= p.len() - 2
    &&& i == 0 || p[i - 1] == 47
    &&& p[i] == 46
    &&& p[i + 1] == 46
    &&& i + 2 == p.len() || p[i + 2] == 47
}

/// Whether all components of a path in bytes are names: it is not absolute,
/// does not start with the component `.` and holds no `..`.
pub open spec fn contained(p: Seq<u8>) -> bool {
    &&& p.len() > 0 ==> p[0] != 47
    &&& !(p.len() > 0 && p[0] == 46 && (p.len() == 1 || p[1] == 47))
    &&& forall|i: int| 0 <= i < p.len() ==> !(#[trigger] parent_at(p, i))
}

/// Whether all components of a path are names.
pub fn is_contained(p: &Vec<u8>) -> (r: bool)
    ensures
        r == contained(p@),
{
    let len: usize = p.len();
    if len > 0 && p[0] == 47 {
        return false;
    }
    if len > 0 && p[0] == 46 && (len == 1 || p[1] == 47) {
        return false;
    }
    let mut i: usize = 0;
    while i < len
        invariant
            i <= len == p@.len(),
            forall|k: int| 0 <= k < i ==> !(#[trigger] parent_at(p@, k)),
        decreases len - i,
    {
        if len - i >= 2 && (i == 0 || p[i - 1] == 47) && p[i] == 46 && p[i + 1] == 46 && (len - i
            == 2 || p[i + 2] == 47) {
            assert(parent_at(p@, i as int));
            return false;
        }
        i += 1;
    }
    true
}

/// The number of bytes before the first `/`.
pub open spec fn until_slash(p: Seq<u8>) -> nat
    decreases p.len(),
{
    if p.len() == 0 || p[0] == 47 {
        0
    } else {
        1 + until_slash(p.skip(1))
    }
}

/// A component of a path, as the list of its names: an empty one and `.` are
/// none.
pub open spec fn name_or_none(part: Seq<u8>) -> Seq<Seq<u8>> {
    if part.len() == 0 || part == seq![46u8] {
        Seq::empty()
    } else {
        seq![part]
    }
}

/// The names that a path in bytes is made of.
pub open spec fn names_in(p: Seq<u8>) -> Seq<Seq<u8>>
    decreases p.len(),
{
    let n = until_slash(p);
    if n >= p.len() {
        name_or_none(p)
    } else {
        name_or_none(p.take(n as int)) + names_in(p.skip(n as int + 1))
    }
}

pub proof fn lemma_until_slash(p: Seq<u8>)
    ensures
        until_slash(p) <= p.len(),
        until_slash(p) < p.len() ==> p[until_slash(p) as int] == 47,
        forall|i: int| 0 <= i < until_slash(p) ==> p[i] != 47,
    decreases p.len(),
{
    if p.len() > 0 && p[0] != 47 {
        lemma_until_slash(p.skip(1));
        assert forall|i: int| 0 <= i < until_slash(p) implies p[i] != 47 by {
            if i > 0 {
                assert(p.skip(1)[i - 1] == p[i]);
            }
        }
    }
}

/// The names that a path is made of. Bytes of `p` from `from` on are read.
fn read_names(p: &Vec<u8>, from: usize) -> (r: Vec<Vec<u8>>)
    requires
        from <= p@.len(),
    ensures
        byte_texts(r@) == names_in(p@.skip(from as int)),
    decreases p@.len() - from,
{
    let ghost rest = p@.skip(from as int);
    proof {
        lemma_until_slash(rest);
    }
    let mut part: Vec<u8> = Vec::new();
    let mut i: usize = from;
    while i < p.len() && p[i] != 47
        invariant
            from <= i <= p@.len(),
            rest == p@.skip(from as int),
            part@ == p@.subrange(from as int, i as int),
            i - from <= until_slash(rest) <= rest.len(),
            until_slash(rest) < rest.len() ==> rest[until_slash(rest) as int] == 47,
            forall|k: int| 0 <= k < until_slash(rest) ==> rest[k] != 47,
        decreases p@.len() - i,
    {
        assert(rest[i - from] == p@[i as int]);
        part.push(p[i]);
        i += 1;
        assert(part@ =~= p@.subrange(from as int, i as int));
    }
    assert(i - from == until_slash(rest)) by {
        if i - from < until_slash(rest) {
            assert(rest[i - from] == p@[i as int]);
        }
    }
    assert(part@ =~= rest.take(until_slash(rest) as int));
    let mut r: Vec<Vec<u8>> = Vec::new();
    let plain = part.len() == 0 || (part.len() == 1 && part[0] == 46);
    assert(plain == (part@.len() == 0 || part@ =~= seq![46u8]));
    if !plain {
        r.push(part);
    }
    assert(byte_texts(r@) =~= name_or_none(rest.take(until_slash(rest) as int)));
    if i < p.len() {
        assert(p@.skip(i + 1) =~= rest.skip(until_slash(rest) as int + 1));
        let mut tail = read_names(p, i + 1);
        let ghost first = r@;
        let ghost others = tail@;
        r.append(&mut tail);
        assert(byte_texts(r@) =~= byte_texts(first) + byte_texts(others));
    } else {
        assert(rest.take(until_slash(rest) as int) =~= rest);
    }
    r
}

/// What byte strings hold.
pub open spec fn byte_texts(v: Seq<Vec<u8>>) -> Seq<Seq<u8>> {
    Seq::new(v.len(), |i: int| v[i]@)
}

/// The names that a path is made of.
pub fn path_names(p: &Vec<u8>) -> (r: Vec<Vec<u8>>)
    ensures
        byte_texts(r@) == names_in(p@),
{
    assert(p@.skip(0) =~= p@);
    read_names(p, 0)
}

/// Names with `/` between them.
pub open spec fn path_of(names: Seq<Seq<u8>>) -> Seq<u8>
    decreases names.len(),
{
    if names.len() == 0 {
        Seq::empty()
    } else if names.len() == 1 {
        names[0]
    } else {
        path_of(names.drop_last()) + seq![47u8] + names.last()
    }
}

/// Whether bytes are the name of something in a directory.
pub open spec fn is_name(n: Seq<u8>) -> bool {
    &&& n.len() > 0
    &&& n != seq![46u8]
    &&& n != seq![46u8, 46u8]
    &&& !n.contains(47u8)
}

proof fn lemma_names_in(p: Seq<u8>)
    requires
        forall|i: int| 0 <= i < p.len() ==> !(#[trigger] parent_at(p, i)),
    ensures
        forall|i: int| 0 <= i < names_in(p).len() ==> is_name(#[trigger] names_in(p)[i]),
    decreases p.len(),
{
    lemma_until_slash(p);
    let n = until_slash(p) as int;
    let part = p.take(n);
    if part == seq![46u8, 46u8] {
        assert(part[0] == 46 && part[1] == 46);
        assert(parent_at(p, 0));
    }
    assert(p.len() == n ==> part =~= p);
    if n < p.len() {
        let rest = p.skip(n + 1);
        assert forall|i: int| 0 <= i < rest.len() implies !(#[trigger] parent_at(rest, i)) by {
            assert(!parent_at(p, i + n + 1));
        }
        lemma_names_in(rest);
        assert(names_in(p) == name_or_none(part) + names_in(rest));
    } else {
        assert(names_in(p) == name_or_none(part));
    }
    assert(!part.contains(47u8));
    let head = name_or_none(part);
    assert(forall|i: int| 0 <= i < head.len() ==> is_name(#[trigger] head[i]));
    assert forall|i: int| 0 <= i < names_in(p).len() implies is_name(
        #[trigger] names_in(p)[i],
    ) by {
        if i < head.len() {
            assert(names_in(p)[i] == head[i]);
        } else {
            assert(names_in(p)[i] == names_in(p.skip(n + 1))[i - head.len()]);
        }
    }
}

/// A contained path is made of names alone: none of its components leads out
/// of the directory that it is taken in.
pub proof fn contained_paths_hold_names_alone(p: Seq<u8>)
    requires
        contained(p),
    ensures
        forall|i: int| 0 <= i < names_in(p).len() ==> is_name(#[trigger] names_in(p)[i]),
{
    lemma_names_in(p);
}

/// Of a path, what stands behind the last `/` is its base name, whatever stands
/// before it.
pub proof fn the_last_component_is_the_base_name(dir: Seq<char>, name: Seq<char>)
    requires
        !name.contains('/'),
    ensures
        base_name(name) == name,
        base_name(dir + "/"@ + name) == name,
    decreases name.len(),
{
    reveal_strlit("/");
    let p = dir + "/"@ + name;
    if name.len() == 0 {
        assert(p.last() == '/');
        assert(base_name(p) =~= name);
        assert(base_name(name) =~= name);
    } else {
        let less = name.drop_last();
        assert(name.contains(name[name.len() - 1]));
        assert forall|i: int| 0 <= i < less.len() implies less[i] != '/' by {
            assert(name.contains(name[i]));
        }
        assert(!less.contains('/'));
        the_last_component_is_the_base_name(dir, less);
        assert(p.drop_last() =~= dir + "/"@ + less);
        assert(p.last() == name.last());
        assert(less.push(name.last()) =~= name);
    }
}

/// A relative name is put below its root: the root comes first, the name last,
/// and between them stands one `/`. An absolute name stands for itself.
pub proof fn a_name_is_put_below_its_root(root: Seq<char>, name: Seq<char>)
    requires
        root.len() > 0,
        root.last() != '/',
    ensures
        name.len() == 0 || name[0] != '/' ==> below(root, name) == root + "/"@ + name && below(
            root + "/"@,
            name,
        ) == root + "/"@ + name,
        name.len() > 0 && name[0] == '/' ==> below(root, name) == name,
        !name.contains('/') ==> base_name(below(root, name)) == name,
{
    reveal_strlit("/");
    assert((root + "/"@).last() == '/');
    if !name.contains('/') {
        if name.len() > 0 {
            assert(name.contains(name[0]));
        }
        the_last_component_is_the_base_name(root, name);
    }
}

proof fn lemma_path_from_the_front(names: Seq<Seq<u8>>)
    requires
        names.len() >= 2,
    ensures
        path_of(names) == names[0] + seq![47u8] + path_of(names.skip(1)),
    decreases names.len(),
{
    let less = names.drop_last();
    let rest = names.skip(1);
    if names.len() == 2 {
        assert(less[0] == names[0]);
        assert(rest[0] == names[1]);
        assert(path_of(less) == names[0]);
        assert(path_of(rest) == names[1]);
    } else {
        lemma_path_from_the_front(less);
        assert(less.skip(1) =~= rest.drop_last());
        assert(less[0] == names[0]);
        assert(rest.last() == names.last());
        assert(path_of(names) =~= names[0] + seq![47u8] + (path_of(rest.drop_last()) + seq![47u8]
            + rest.last()));
    }
}

proof fn lemma_until_slash_at(p: Seq<u8>, n: nat)
    requires
        n <= p.len(),
        forall|i: int| 0 <= i < n ==> p[i] != 47,
        n == p.len() || p[n as int] == 47,
    ensures
        until_slash(p) == n,
    decreases n,
{
    if n > 0 {
        lemma_until_slash_at(p.skip(1), (n - 1) as nat);
    }
}

/// Names that are put together to a path are found in it again.
pub proof fn the_names_of_a_path_are_found_again(names: Seq<Seq<u8>>)
    requires
        names.len() > 0,
        forall|i: int| 0 <= i < names.len() ==> is_name(#[trigger] names[i]),
    ensures
        names_in(path_of(names)) == names,
    decreases names.len(),
{
    let p = path_of(names);
    let first = names[0];
    assert(is_name(first));
    assert forall|i: int| 0 <= i < first.len() implies first[i] != 47 by {
        assert(first.contains(first[i]));
    }
    if names.len() == 1 {
        lemma_until_slash_at(p, p.len());
        assert(names_in(p) =~= names);
    } else {
        let rest = names.skip(1);
        assert forall|i: int| 0 <= i < rest.len() implies is_name(#[trigger] rest[i]) by {
            assert(rest[i] == names[i + 1]);
        }
        the_names_of_a_path_are_found_again(rest);
        lemma_path_from_the_front(names);
        let n = first.len() as int;
        assert(p[n] == 47);
        assert forall|i: int| 0 <= i < n implies p[i] != 47 by {
            assert(p[i] == first[i]);
        }
        lemma_until_slash_at(p, n as nat);
        assert(p.take(n) =~= first);
        assert(p.skip(n + 1) =~= path_of(rest));
        assert(seq![first] + rest =~= names);
    }
}

/// A path that begins at the root, or that climbs anywhere on its way, is not
/// contained.
pub proof fn what_climbs_is_not_contained(before: Seq<u8>, behind: Seq<u8>)
    ensures
        !contained(seq![47u8] + behind),
        !contained(seq![46u8, 46u8]),
        !contained(seq![46u8, 46u8, 47u8] + behind),
        !contained(before + seq![47u8, 46u8, 46u8]),
        !contained(before + seq![47u8, 46u8, 46u8, 47u8] + behind),
{
    assert((seq![47u8] + behind)[0] == 47);
    assert(parent_at(seq![46u8, 46u8], 0));
    assert(parent_at(seq![46u8, 46u8, 47u8] + behind, 0));
    let n = before.len() as int;
    let p = before + seq![47u8, 46u8, 46u8];
    assert(p[n] == 47 && p[n + 1] == 46 && p[n + 2] == 46);
    assert(parent_at(p, n + 1));
    let q = before + seq![47u8, 46u8, 46u8, 47u8] + behind;
    assert(q[n] == 47 && q[n + 1] == 46 && q[n + 2] == 46 && q[n + 3] == 47);
    assert(parent_at(q, n + 1));
}

/// The file name of a path is its last component, with or without a slash behind
/// it.
pub proof fn the_last_component_is_the_file_name(dir: Seq<char>, name: Seq<char>)
    requires
        name.len() > 0,
        !name.contains('/'),
        name != "."@,
        name != ".."@,
    ensures
        file_name_of(name) == Some(name),
        file_name_of(dir + "/"@ + name) == Some(name),
        file_name_of(dir + "/"@ + name + "/"@) == Some(name),
        file_name_of(Seq::empty()) is None,
{
    reveal_strlit("/");
    reveal_strlit(".");
    let p = dir + "/"@ + name;
    let n = name.len() as int;
    assert(name.contains(name[n - 1]));
    assert(name.last() != '/');
    if name.last() == '.' && n > 1 {
        assert(name.contains(name[n - 2]));
    }
    assert(p.last() == name.last());
    if p.last() == '.' && p[p.len() - 2] == '/' {
        if n == 1 {
            assert(name =~= "."@);
        } else {
            assert(p[p.len() - 2] == name[n - 2]);
        }
    }
    assert(without_tail(name) == name);
    assert(without_tail(p) == p);
    let q = p + "/"@;
    assert(q.last() == '/');
    assert(q.drop_last() =~= p);
    the_last_component_is_the_base_name(dir, name);
    assert(base_name(without_tail(Seq::<char>::empty())).len() == 0);
}

proof fn lemma_no_parent(names: Seq<Seq<u8>>, i: int)
    requires
        names.len() > 0,
        forall|k: int| 0 <= k < names.len() ==> is_name(#[trigger] names[k]),
    ensures
        !parent_at(path_of(names), i),
        path_of(names).len() > 0,
        path_of(names)[0] == names[0][0],
        names[0].len() == 1 && names.len() > 1 ==> path_of(names)[1] == 47,
        names[0].len() == 1 && names.len() == 1 ==> path_of(names).len() == 1,
        names[0].len() > 1 ==> path_of(names).len() > 1 && path_of(names)[1] == names[0][1],
    decreases names.len(),
{
    let p = path_of(names);
    let first = names[0];
    assert(is_name(first));
    let n = first.len() as int;
    assert forall|k: int| 0 <= k < n implies first[k] != 47 by {
        assert(first.contains(first[k]));
    }
    if names.len() == 1 {
        assert(p == first);
        if parent_at(p, i) {
            if i > 0 {
                assert(first[i - 1] != 47);
            }
            if i + 2 < n {
                assert(first[i + 2] != 47);
            }
            assert(first =~= seq![46u8, 46u8]);
        }
    } else {
        let rest = names.skip(1);
        assert forall|k: int| 0 <= k < rest.len() implies is_name(#[trigger] rest[k]) by {
            assert(rest[k] == names[k + 1]);
        }
        lemma_path_from_the_front(names);
        lemma_no_parent(rest, i - n - 1);
        let tail = path_of(rest);
        assert(p == first + seq![47u8] + tail);
        assert(p[n] == 47);
        if parent_at(p, i) {
            if i < n {
                if i > 0 {
                    assert(p[i - 1] == first[i - 1]);
                }
                assert(p[i] == first[i]);
                if i + 1 < n {
                    assert(p[i + 1] == first[i + 1]);
                }
                if i + 2 < n {
                    assert(p[i + 2] == first[i + 2]);
                }
                assert(first =~= seq![46u8, 46u8]);
            } else if i == n {
                assert(p[i] == 47);
            } else {
                let j = i - n - 1;
                assert(p[i] == tail[j] && p[i + 1] == tail[j + 1]);
                if j > 0 {
                    assert(p[i - 1] == tail[j - 1]);
                }
                if i + 2 < p.len() {
                    assert(p[i + 2] == tail[j + 2]);
                }
                assert(parent_at(tail, j));
            }
        }
    }
}

/// A path that is made of names alone is contained.
pub proof fn a_path_of_names_is_contained(names: Seq<Seq<u8>>)
    requires
        names.len() > 0,
        forall|k: int| 0 <= k < names.len() ==> is_name(#[trigger] names[k]),
    ensures
        contained(path_of(names)),
{
    let p = path_of(names);
    lemma_no_parent(names, 0);
    assert(is_name(names[0]));
    assert(names[0].contains(names[0][0]));
    if names[0].len() == 1 && names[0][0] == 46 {
        assert(names[0] =~= seq![46u8]);
    }
    if names[0].len() > 1 {
        assert(names[0].contains(names[0][1]));
    }
    assert forall|i: int| 0 <= i < p.len() implies !(#[trigger] parent_at(p, i)) by {
        lemma_no_parent(names, i);
    }
}

} // verus!
