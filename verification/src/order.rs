//! The order of texts, byte by byte, and sorting by it.

use vstd::prelude::*;
use vstd::string::*;
use vstd::utf8::*;

verus! {

/// `a` comes before `b`, byte by byte; a prefix comes before what it begins.
pub open spec fn bytes_less(a: Seq<u8>, b: Seq<u8>) -> bool
    decreases a.len(),
{
    if b.len() == 0 {
        false
    } else if a.len() == 0 {
        true
    } else if a[0] != b[0] {
        a[0] < b[0]
    } else {
        bytes_less(a.skip(1), b.skip(1))
    }
}

/// The order of texts: that of their UTF-8 bytes.
pub open spec fn text_less(a: Seq<char>, b: Seq<char>) -> bool {
    bytes_less(encode_utf8(a), encode_utf8(b))
}

/// No two texts come before each other, and of two texts that differ one comes
/// before the other.
pub proof fn bytes_less_is_total(a: Seq<u8>, b: Seq<u8>)
    ensures
        !(bytes_less(a, b) && bytes_less(b, a)),
        a == b || bytes_less(a, b) || bytes_less(b, a),
        a == b ==> !bytes_less(a, b),
    decreases a.len(),
{
    if a.len() > 0 && b.len() > 0 && a[0] == b[0] {
        bytes_less_is_total(a.skip(1), b.skip(1));
        if a.skip(1) == b.skip(1) {
            assert(a =~= seq![a[0]] + a.skip(1));
            assert(b =~= seq![b[0]] + b.skip(1));
        }
    } else if a.len() == 0 && b.len() == 0 {
        assert(a =~= b);
    }
}

/// What comes before a text comes before all that the text comes before.
pub proof fn bytes_less_is_transitive(a: Seq<u8>, b: Seq<u8>, c: Seq<u8>)
    requires
        bytes_less(a, b),
        bytes_less(b, c),
    ensures
        bytes_less(a, c),
    decreases a.len(),
{
    if a.len() > 0 && b.len() > 0 && c.len() > 0 && a[0] == b[0] && b[0] == c[0] {
        bytes_less_is_transitive(a.skip(1), b.skip(1), c.skip(1));
    }
}

/// Texts with the same bytes are the same.
pub proof fn lemma_encode_injective(a: Seq<char>, b: Seq<char>)
    requires
        encode_utf8(a) == encode_utf8(b),
    ensures
        a == b,
{
    encode_utf8_decode_utf8(a);
    encode_utf8_decode_utf8(b);
}

/// Whether `a` comes before `b`.
pub fn comes_before(a: &str, b: &str) -> (r: bool)
    ensures
        r == text_less(a@, b@),
{
    let x = a.as_bytes();
    let y = b.as_bytes();
    let mut i: usize = 0;
    assert(x@.skip(0) =~= x@);
    assert(y@.skip(0) =~= y@);
    while i < x.len() && i < y.len() && x[i] == y[i]
        invariant
            i <= x@.len(),
            i <= y@.len(),
            bytes_less(x@, y@) == bytes_less(x@.skip(i as int), y@.skip(i as int)),
        decreases x@.len() - i,
    {
        assert(x@.skip(i as int).skip(1) =~= x@.skip(i + 1));
        assert(y@.skip(i as int).skip(1) =~= y@.skip(i + 1));
        assert(x@.skip(i as int)[0] == y@.skip(i as int)[0]);
        i += 1;
    }
    if i == y.len() {
        false
    } else if i == x.len() {
        true
    } else {
        assert(x@.skip(i as int)[0] == x@[i as int]);
        assert(y@.skip(i as int)[0] == y@[i as int]);
        x[i] < y[i]
    }
}

/// The item at `a` is listed before the one at `b`: its name comes first, or
/// the names are the same and it stood first.
pub open spec fn listed_first(names: Seq<Seq<char>>, a: int, b: int) -> bool {
    text_less(names[a], names[b]) || (names[a] == names[b] && a < b)
}

/// `order` lists every index of `names` once, by name, and items of the same
/// name in the order in which they stand.
pub open spec fn is_order(names: Seq<Seq<char>>, order: Seq<usize>) -> bool {
    &&& order.len() == names.len()
    &&& forall|i: int| 0 <= i < order.len() ==> #[trigger] order[i] < names.len()
    &&& forall|i: int, j: int|
        0 <= i < j < order.len() ==> listed_first(
            names,
            #[trigger] order[i] as int,
            #[trigger] order[j] as int,
        )
}

proof fn lemma_listed_first_transitive(names: Seq<Seq<char>>, a: int, b: int, c: int)
    requires
        listed_first(names, a, b),
        listed_first(names, b, c),
    ensures
        listed_first(names, a, c),
{
    if text_less(names[a], names[b]) && text_less(names[b], names[c]) {
        bytes_less_is_transitive(
            encode_utf8(names[a]),
            encode_utf8(names[b]),
            encode_utf8(names[c]),
        );
    }
}

pub proof fn lemma_listed_first_total(names: Seq<Seq<char>>, a: int, b: int)
    ensures
        !(listed_first(names, a, b) && listed_first(names, b, a)),
        a != b ==> listed_first(names, a, b) || listed_first(names, b, a),
{
    let x = encode_utf8(names[a]);
    let y = encode_utf8(names[b]);
    bytes_less_is_total(x, y);
    bytes_less_is_total(x, x);
    if x == y {
        lemma_encode_injective(names[a], names[b]);
    }
}

/// The indices of `names`, by name; where names are the same, in the order in
/// which they stand.
pub fn sort_order(names: &Vec<String>) -> (r: Vec<usize>)
    ensures
        is_order(crate::text::texts(names@), r@),
{
    let ghost all = crate::text::texts(names@);
    let mut order: Vec<usize> = Vec::new();
    let mut n: usize = 0;
    while n < names.len()
        invariant
            n <= names@.len(),
            all == crate::text::texts(names@),
            order@.len() == n,
            forall|i: int| 0 <= i < n ==> #[trigger] order@[i] < n,
            forall|i: int, j: int|
                0 <= i < j < n ==> listed_first(
                    all,
                    #[trigger] order@[i] as int,
                    #[trigger] order@[j] as int,
                ),
        decreases names@.len() - n,
    {
        let mut p: usize = 0;
        while p < order.len() && !comes_before(names[n].as_str(), names[order[p]].as_str())
            invariant
                n < names@.len(),
                p <= order@.len(),
                all == crate::text::texts(names@),
                order@.len() == n,
                forall|i: int| 0 <= i < n ==> #[trigger] order@[i] < n,
                forall|i: int| 0 <= i < p ==> listed_first(all, #[trigger] order@[i] as int, n as int),
            decreases order@.len() - p,
        {
            proof {
                let x = encode_utf8(all[n as int]);
                let y = encode_utf8(all[order@[p as int] as int]);
                bytes_less_is_total(x, y);
                if x == y {
                    lemma_encode_injective(all[n as int], all[order@[p as int] as int]);
                }
            }
            p += 1;
        }
        let ghost before = order@;
        proof {
            assert forall|i: int| p <= i < before.len() implies listed_first(
                all,
                n as int,
                #[trigger] before[i] as int,
            ) by {
                let first = before[p as int] as int;
                assert(text_less(all[n as int], all[first]));
                if i > p {
                    lemma_listed_first_transitive(all, n as int, first, before[i] as int);
                }
            }
        }
        order.insert(p, n);
        proof {
            assert forall|i: int, j: int| 0 <= i < j < n + 1 implies listed_first(
                all,
                #[trigger] order@[i] as int,
                #[trigger] order@[j] as int,
            ) by {
                let a = if i < p {
                    before[i]
                } else if i == p {
                    n
                } else {
                    before[i - 1]
                };
                let b = if j < p {
                    before[j]
                } else if j == p {
                    n
                } else {
                    before[j - 1]
                };
                assert(order@[i] == a && order@[j] == b);
            }
        }
        n += 1;
    }
    order
}

/// There is one way to list names in order: listing is deterministic.
pub proof fn order_is_unique(names: Seq<Seq<char>>, a: Seq<usize>, b: Seq<usize>)
    requires
        is_order(names, a),
        is_order(names, b),
    ensures
        a == b,
{
    lemma_order_counts(names, a, b, names.len() as int);
    assert(a.take(names.len() as int) =~= a);
    assert(b.take(names.len() as int) =~= b);
}

proof fn lemma_order_counts(names: Seq<Seq<char>>, a: Seq<usize>, b: Seq<usize>, n: int)
    requires
        is_order(names, a),
        is_order(names, b),
        0 <= n <= names.len(),
    ensures
        a.take(n) == b.take(n),
    decreases n,
{
    if n > 0 {
        lemma_order_counts(names, a, b, n - 1);
        let k = n - 1;
        assert(a.take(n) =~= a.take(k).push(a[k]));
        assert(b.take(n) =~= b.take(k).push(b[k]));
        if a[k] != b[k] {
            lemma_order_has(names, b, a[k]);
            lemma_order_has(names, a, b[k]);
            let i = choose|i: int| 0 <= i < b.len() && b[i] == a[k];
            let j = choose|j: int| 0 <= j < a.len() && a[j] == b[k];
            if i < k {
                assert(a.take(k)[i] == b.take(k)[i]);
                lemma_listed_first_total(names, a[i] as int, a[k] as int);
                assert(listed_first(names, a[i] as int, a[k] as int));
            } else if j < k {
                assert(a.take(k)[j] == b.take(k)[j]);
                lemma_listed_first_total(names, b[j] as int, b[k] as int);
                assert(listed_first(names, b[j] as int, b[k] as int));
            } else {
                assert(listed_first(names, b[k] as int, b[i] as int));
                assert(listed_first(names, a[k] as int, a[j] as int));
                lemma_listed_first_total(names, a[k] as int, b[k] as int);
            }
        }
    }
}

/// An order holds every index.
pub proof fn lemma_order_has(names: Seq<Seq<char>>, order: Seq<usize>, x: usize)
    requires
        is_order(names, order),
        x < names.len(),
    ensures
        order.contains(x),
{
    assert(order.no_duplicates()) by {
        assert forall|i: int, j: int| 0 <= i < order.len() && 0 <= j < order.len() && i
            != j implies order[i] != order[j] by {
            if i < j {
                assert(listed_first(names, order[i] as int, order[j] as int));
                lemma_listed_first_total(names, order[i] as int, order[j] as int);
            } else {
                assert(listed_first(names, order[j] as int, order[i] as int));
                lemma_listed_first_total(names, order[j] as int, order[i] as int);
            }
        }
    }
    if !order.contains(x) {
        let ints = order.map_values(|u: usize| u as int);
        let all = vstd::set_lib::set_int_range(0, names.len() as int);
        vstd::set_lib::lemma_int_range(0, names.len() as int);
        assert(ints.no_duplicates());
        ints.unique_seq_to_set();
        assert forall|y: int| ints.to_set().contains(y) implies all.remove(x as int).contains(y) by {
            let i = choose|i: int| 0 <= i < ints.len() && ints[i] == y;
            assert(order[i] == y);
            assert(order[i] < names.len());
        }
        vstd::set_lib::lemma_len_subset(ints.to_set(), all.remove(x as int));
    }
}

/// There is a way to list any names in order.
pub proof fn lemma_order_exists(names: Seq<Seq<char>>)
    requires
        names.len() <= usize::MAX,
    ensures
        exists|o: Seq<usize>| is_order(names, o),
{
    let leq = |x: usize, y: usize| x == y || listed_first(names, x as int, y as int);
    assert forall|x: usize, y: usize| #[trigger] leq(x, y) && #[trigger] leq(y, x) implies x
        == y by {
        lemma_listed_first_total(names, x as int, y as int);
    }
    assert forall|x: usize, y: usize| #[trigger] leq(x, y) || #[trigger] leq(y, x) by {
        lemma_listed_first_total(names, x as int, y as int);
    }
    assert forall|x: usize, y: usize, z: usize| #[trigger] leq(x, y) && #[trigger] leq(
        y,
        z,
    ) implies leq(x, z) by {
        if x != y && y != z {
            lemma_listed_first_transitive(names, x as int, y as int, z as int);
        }
    }
    assert(vstd::relations::total_ordering(leq));
    let all = Seq::new(names.len(), |i: int| i as usize);
    all.lemma_sort_by_ensures(leq);
    let o = all.sort_by(leq);
    assert(all.no_duplicates());
    all.lemma_multiset_has_no_duplicates();
    o.lemma_multiset_has_no_duplicates_conv();
    vstd::seq_lib::to_multiset_len(all);
    vstd::seq_lib::to_multiset_len(o);
    assert forall|i: int| 0 <= i < o.len() implies #[trigger] o[i] < names.len() by {
        if !all.contains(o[i]) {
            assert(o.contains(o[i]));
        }
        let k = choose|k: int| 0 <= k < all.len() && all[k] == o[i];
        assert(all[k] == k as usize);
    }
    assert forall|i: int, j: int| 0 <= i < j < o.len() implies listed_first(
        names,
        #[trigger] o[i] as int,
        #[trigger] o[j] as int,
    ) by {
        assert(leq(o[i], o[j]));
    }
    assert(is_order(names, o));
}

/// The first byte in which two texts differ decides, and a text comes before all
/// that it begins.
pub proof fn the_first_difference_decides(common: Seq<u8>, x: u8, y: u8, a: Seq<u8>, b: Seq<u8>)
    requires
        x < y,
    ensures
        bytes_less(common + seq![x] + a, common + seq![y] + b),
        bytes_less(common, common + seq![x] + a),
    decreases common.len(),
{
    let p = common + seq![x] + a;
    let q = common + seq![y] + b;
    if common.len() > 0 {
        let rest = common.skip(1);
        the_first_difference_decides(rest, x, y, a, b);
        assert(p.skip(1) =~= rest + seq![x] + a);
        assert(q.skip(1) =~= rest + seq![y] + b);
        assert(p[0] == common[0] && q[0] == common[0]);
    } else {
        assert(p[0] == x && q[0] == y);
    }
}

/// What lists items by name lists each of them once, no item behind one whose
/// name comes later, and items of the same name as they stood.
pub proof fn an_order_lists_everything_by_name(names: Seq<Seq<char>>, order: Seq<usize>)
    requires
        is_order(names, order),
    ensures
        order.len() == names.len(),
        order.no_duplicates(),
        forall|x: usize| x < names.len() ==> #[trigger] order.contains(x),
        forall|i: int, j: int|
            0 <= i < j < order.len() ==> !text_less(
                names[#[trigger] order[j] as int],
                names[#[trigger] order[i] as int],
            ),
        forall|i: int, j: int|
            0 <= i < j < order.len() && names[#[trigger] order[i] as int]
                == names[#[trigger] order[j] as int] ==> order[i] < order[j],
{
    assert forall|x: usize| x < names.len() implies #[trigger] order.contains(x) by {
        lemma_order_has(names, order, x);
    }
    assert forall|i: int, j: int| 0 <= i < j < order.len() implies !text_less(
        names[#[trigger] order[j] as int],
        names[#[trigger] order[i] as int],
    ) && order[i] != order[j] && (names[order[i] as int] == names[order[j] as int] ==> order[i]
        < order[j]) by {
        let (a, b) = (order[i] as int, order[j] as int);
        assert(listed_first(names, a, b));
        lemma_listed_first_total(names, a, b);
        bytes_less_is_total(encode_utf8(names[a]), encode_utf8(names[b]));
    }
}

} // verus!
