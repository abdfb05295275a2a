//! Addresses as they are read.

use crate::ip::{AddrCidr, IpAddr};
use crate::text::{chars_of, find_char, parse_u64, split_chars, string_of};
use vstd::prelude::*;
use vstd::string::*;

verus! {

/// The value of a hexadecimal digit, in either case.
pub open spec fn digit_value(c: char) -> Option<nat> {
    if '0' <= c <= '9' {
        Some((c as nat - 48) as nat)
    } else if 'a' <= c <= 'f' {
        Some((c as nat - 87) as nat)
    } else if 'A' <= c <= 'F' {
        Some((c as nat - 55) as nat)
    } else {
        None
    }
}

/// The number that a row of digits writes in a base.
pub open spec fn value_of(s: Seq<char>, base: nat) -> Option<nat>
    decreases s.len(),
{
    if s.len() == 0 {
        Some(0)
    } else {
        match (value_of(s.drop_last(), base), digit_value(s.last())) {
            (Some(v), Some(d)) => if d < base {
                Some(v * base + d)
            } else {
                None
            },
            _ => None,
        }
    }
}

/// The octet that a text writes in decimal, without leading zeros.
pub open spec fn octet_of(s: Seq<char>) -> Option<u8> {
    match value_of(s, 10) {
        Some(v) => if 1 <= s.len() <= 3 && (s[0] != '0' || s.len() == 1) && v <= 255 {
            Some(v as u8)
        } else {
            None
        },
        None => None,
    }
}

/// The four octets that a text writes in dotted decimal.
pub open spec fn octets_of(s: Seq<char>) -> Option<(u8, u8, u8, u8)> {
    let p = crate::text::split(s, '.');
    if p.len() == 4 {
        match (octet_of(p[0]), octet_of(p[1]), octet_of(p[2]), octet_of(p[3])) {
            (Some(a), Some(b), Some(c), Some(d)) => Some((a, b, c, d)),
            _ => None,
        }
    } else {
        None
    }
}

/// The segment that one to four hexadecimal digits write.
pub open spec fn segment_of(s: Seq<char>) -> Option<u16> {
    match value_of(s, 16) {
        Some(v) => if 1 <= s.len() <= 4 {
            Some(v as u16)
        } else {
            None
        },
        None => None,
    }
}

/// The segments that the last of several pieces writes: one in hexadecimal or,
/// where it may be an IPv4 address, two in dotted decimal.
pub open spec fn last_segments(s: Seq<char>, dotted: bool) -> Option<Seq<u16>> {
    match segment_of(s) {
        Some(g) => Some(seq![g]),
        None => match octets_of(s) {
            Some((a, b, c, d)) => if dotted {
                Some(seq![(a * 256 + b) as u16, (c * 256 + d) as u16])
            } else {
                None
            },
            None => None,
        },
    }
}

/// The segments that pieces write, of which the last may be an IPv4 address.
pub open spec fn segments_of(pieces: Seq<Seq<char>>, dotted: bool) -> Option<Seq<u16>>
    decreases pieces.len(),
{
    if pieces.len() == 0 {
        Some(Seq::empty())
    } else {
        match (segments_of(pieces.drop_last(), false), last_segments(pieces.last(), dotted)) {
            (Some(before), Some(last)) => Some(before + last),
            _ => None,
        }
    }
}

/// The segments that a text writes with colons between them. An empty text
/// writes none.
pub open spec fn run_of(s: Seq<char>, dotted: bool) -> Option<Seq<u16>> {
    if s.len() == 0 {
        Some(Seq::empty())
    } else {
        segments_of(crate::text::split(s, ':'), dotted)
    }
}

/// Where the first `::` stands; the length of the text where there is none.
pub open spec fn gap_at(s: Seq<char>) -> nat
    decreases s.len(),
{
    if s.len() < 2 {
        s.len()
    } else if s[0] == ':' && s[1] == ':' {
        0
    } else {
        1 + gap_at(s.skip(1))
    }
}

/// The eight segments that a text writes. `::` stands for as many zeros as are
/// missing, at least one; an IPv4 address may only stand at the very end.
pub open spec fn v6_of(s: Seq<char>) -> Option<Seq<u16>> {
    let n = gap_at(s) as int;
    if n >= s.len() {
        match run_of(s, true) {
            Some(all) => if all.len() == 8 {
                Some(all)
            } else {
                None
            },
            None => None,
        }
    } else {
        match (run_of(s.take(n), false), run_of(s.skip(n + 2), true)) {
            (Some(head), Some(tail)) => if head.len() + tail.len() <= 7 {
                Some(head + Seq::new((8 - head.len() - tail.len()) as nat, |i: int| 0u16) + tail)
            } else {
                None
            },
            _ => None,
        }
    }
}

/// The address that a text writes.
pub open spec fn ip_of(s: Seq<char>) -> Option<IpAddr> {
    match octets_of(s) {
        Some((a, b, c, d)) => Some(IpAddr::V4(a, b, c, d)),
        None => match v6_of(s) {
            Some(g) => Some(IpAddr::V6(g[0], g[1], g[2], g[3], g[4], g[5], g[6], g[7])),
            None => None,
        },
    }
}

/// The longest prefix that an address can have.
pub open spec fn bits(ip: IpAddr) -> u64 {
    match ip {
        IpAddr::V4(..) => 32,
        IpAddr::V6(..) => 128,
    }
}

/// The address and prefix that a text writes with a slash between them.
pub open spec fn cidr_of(s: Seq<char>) -> Option<AddrCidr> {
    let n = crate::text::until(s, '/') as int;
    if n >= s.len() {
        None
    } else {
        match (ip_of(s.take(n)), crate::text::u64_of(s.skip(n + 1))) {
            (Some(ip), Some(prefix)) => if prefix <= bits(ip) {
                Some(AddrCidr { ip, prefix: prefix as u8 })
            } else {
                None
            },
            _ => None,
        }
    }
}

fn read_digit(c: char) -> (r: Option<u32>)
    ensures
        match r {
            Some(d) => digit_value(c) == Some(d as nat) && d < 16,
            None => digit_value(c) is None,
        },
{
    if '0' <= c && c <= '9' {
        Some(c as u32 - 48)
    } else if 'a' <= c && c <= 'f' {
        Some(c as u32 - 87)
    } else if 'A' <= c && c <= 'F' {
        Some(c as u32 - 55)
    } else {
        None
    }
}

proof fn lemma_no_value(s: Seq<char>, base: nat, n: int)
    requires
        0 <= n <= s.len(),
        value_of(s.take(n), base) is None,
    ensures
        value_of(s, base) is None,
    decreases s.len() - n,
{
    if n < s.len() {
        assert(s.take(n + 1).drop_last() =~= s.take(n));
        lemma_no_value(s, base, n + 1);
    } else {
        assert(s.take(n) =~= s);
    }
}

/// The number that at most four digits write in a base.
fn read_number(v: &Vec<char>, base: u32) -> (r: Option<u32>)
    requires
        v@.len() <= 4,
        base == 10 || base == 16,
    ensures
        match r {
            Some(n) => value_of(v@, base as nat) == Some(n as nat) && n <= 0xffff,
            None => value_of(v@, base as nat) is None,
        },
{
    let mut n: u32 = 0;
    let mut most: u32 = 1;
    let mut i: usize = 0;
    while i < v.len()
        invariant
            i <= v@.len() <= 4,
            base == 10 || base == 16,
            value_of(v@.take(i as int), base as nat) == Some(n as nat),
            n < most,
            i == 0 ==> most == 1,
            i == 1 ==> most == 16,
            i == 2 ==> most == 256,
            i == 3 ==> most == 4096,
            i == 4 ==> most == 65536,
        decreases v@.len() - i,
    {
        assert(v@.take(i + 1).drop_last() =~= v@.take(i as int));
        assert(v@.take(i + 1).last() == v@[i as int]);
        let d: u32 = match read_digit(v[i]) {
            Some(d) => d,
            None => {
                proof {
                    lemma_no_value(v@, base as nat, i + 1);
                }
                return None;
            },
        };
        if d >= base {
            proof {
                lemma_no_value(v@, base as nat, i + 1);
            }
            return None;
        }
        assert(n * base + d < most * 16) by (nonlinear_arith)
            requires
                n < most,
                d < base,
                base <= 16,
        ;
        n = n * base + d;
        most = most * 16;
        i += 1;
    }
    assert(v@.take(i as int) =~= v@);
    Some(n)
}

fn read_octet(s: &str) -> (r: Option<u8>)
    ensures
        r == octet_of(s@),
{
    let v = chars_of(s);
    if v.len() == 0 || v.len() > 3 || (v[0] == '0' && v.len() > 1) {
        return None;
    }
    match read_number(&v, 10) {
        Some(n) => if n <= 255 {
            Some(n as u8)
        } else {
            None
        },
        None => None,
    }
}

fn read_octets(s: &str) -> (r: Option<(u8, u8, u8, u8)>)
    ensures
        r == octets_of(s@),
{
    let v = chars_of(s);
    let p = split_chars(&v, '.');
    let ghost pieces = crate::text::split(s@, '.');
    assert(pieces.len() == p@.len());
    if p.len() != 4 {
        return None;
    }
    assert(pieces[0] == p@[0]@ && pieces[1] == p@[1]@);
    assert(pieces[2] == p@[2]@ && pieces[3] == p@[3]@);
    match (
        read_octet(p[0].as_str()),
        read_octet(p[1].as_str()),
        read_octet(p[2].as_str()),
        read_octet(p[3].as_str()),
    ) {
        (Some(a), Some(b), Some(c), Some(d)) => Some((a, b, c, d)),
        _ => None,
    }
}

fn read_segment(s: &str) -> (r: Option<u16>)
    ensures
        r == segment_of(s@),
{
    let v = chars_of(s);
    if v.len() == 0 || v.len() > 4 {
        return None;
    }
    match read_number(&v, 16) {
        Some(n) => Some(n as u16),
        None => None,
    }
}

/// The segments that a read gave.
pub open spec fn read_as(r: Option<Vec<u16>>) -> Option<Seq<u16>> {
    match r {
        Some(v) => Some(v@),
        None => None,
    }
}

proof fn lemma_no_segments(pieces: Seq<Seq<char>>, dotted: bool, n: int)
    requires
        0 <= n < pieces.len(),
        segments_of(pieces.take(n), false) is None,
    ensures
        segments_of(pieces, dotted) is None,
    decreases pieces.len() - n,
{
    if n + 1 < pieces.len() {
        assert(pieces.take(n + 1).drop_last() =~= pieces.take(n));
        lemma_no_segments(pieces, dotted, n + 1);
    } else {
        assert(pieces.drop_last() =~= pieces.take(n));
    }
}

fn read_pieces(p: &Vec<String>, dotted: bool) -> (r: Option<Vec<u16>>)
    requires
        p@.len() > 0,
    ensures
        read_as(r) == segments_of(crate::text::texts(p@), dotted),
{
    let ghost pieces = crate::text::texts(p@);
    let mut out: Vec<u16> = Vec::new();
    let last: usize = p.len() - 1;
    let mut i: usize = 0;
    assert(out@ =~= Seq::empty());
    while i < last
        invariant
            i <= last,
            last == p@.len() - 1,
            pieces == crate::text::texts(p@),
            segments_of(pieces.take(i as int), false) == Some(out@),
        decreases last - i,
    {
        assert(pieces.take(i + 1).drop_last() =~= pieces.take(i as int));
        assert(pieces.take(i + 1).last() == p@[i as int]@);
        match read_segment(p[i].as_str()) {
            Some(g) => {
                assert(out@.push(g) =~= out@ + seq![g]);
                out.push(g);
            },
            None => {
                proof {
                    lemma_no_segments(pieces, dotted, i + 1);
                }
                return None;
            },
        }
        i += 1;
    }
    assert(pieces.drop_last() =~= pieces.take(i as int));
    assert(pieces.last() == p@[i as int]@);
    match read_segment(p[last].as_str()) {
        Some(g) => {
            assert(out@.push(g) =~= out@ + seq![g]);
            out.push(g);
            Some(out)
        },
        None => match read_octets(p[last].as_str()) {
            Some((a, b, c, d)) => {
                if !dotted {
                    return None;
                }
                let high: u16 = a as u16 * 256 + b as u16;
                let low: u16 = c as u16 * 256 + d as u16;
                assert(out@.push(high).push(low) =~= out@ + seq![high, low]);
                out.push(high);
                out.push(low);
                Some(out)
            },
            None => None,
        },
    }
}

fn read_run(v: &Vec<char>, from: usize, to: usize, dotted: bool) -> (r: Option<Vec<u16>>)
    requires
        from <= to <= v@.len(),
    ensures
        read_as(r) == run_of(v@.subrange(from as int, to as int), dotted),
{
    let ghost s = v@.subrange(from as int, to as int);
    if from == to {
        let r: Vec<u16> = Vec::new();
        assert(r@ =~= Seq::empty());
        return Some(r);
    }
    let text = string_of(v, from, to);
    let chars = chars_of(text.as_str());
    let p = split_chars(&chars, ':');
    assert(crate::text::texts(p@).len() == p@.len());
    read_pieces(&p, dotted)
}

proof fn lemma_gap(s: Seq<char>, n: int)
    requires
        0 <= n <= s.len(),
        forall|k: int| 0 <= k < n ==> !(s[k] == ':' && k + 1 < s.len() && #[trigger] s[k + 1] == ':'),
        n == s.len() || (n + 1 < s.len() && s[n] == ':' && s[n + 1] == ':'),
    ensures
        gap_at(s) == n,
    decreases n,
{
    if n > 0 {
        let t = s.skip(1);
        if s.len() >= 2 {
            assert(s[0int + 1] == s[1]);
            assert forall|k: int| 0 <= k < n - 1 implies !(t[k] == ':' && k + 1 < t.len()
                && #[trigger] t[k + 1] == ':') by {
                if k + 1 < t.len() {
                    assert(s[(k + 1) + 1] == t[k + 1]);
                }
            }
            lemma_gap(t, n - 1);
        }
    }
}

fn find_gap(v: &Vec<char>) -> (n: usize)
    ensures
        n == gap_at(v@),
        n == v@.len() || n + 2 <= v@.len(),
{
    let mut i: usize = 0;
    while i < v.len()
        invariant
            i <= v@.len(),
            forall|k: int|
                0 <= k < i ==> !(v@[k] == ':' && k + 1 < v@.len() && #[trigger] v@[k + 1] == ':'),
        decreases v@.len() - i,
    {
        if v[i] == ':' && i + 1 < v.len() && v[i + 1] == ':' {
            proof {
                lemma_gap(v@, i as int);
            }
            return i;
        }
        i += 1;
    }
    proof {
        lemma_gap(v@, i as int);
    }
    i
}

fn read_v6(s: &str) -> (r: Option<Vec<u16>>)
    ensures
        read_as(r) == v6_of(s@),
        r matches Some(g) ==> g@.len() == 8,
{
    let v = chars_of(s);
    let n = find_gap(&v);
    if n == v.len() {
        assert(v@.subrange(0, n as int) =~= v@);
        return match read_run(&v, 0, n, true) {
            Some(all) => if all.len() == 8 {
                Some(all)
            } else {
                None
            },
            None => None,
        };
    }
    assert(v@.subrange(0, n as int) =~= v@.take(n as int));
    assert(v@.subrange(n + 2, v@.len() as int) =~= v@.skip(n + 2));
    let head = match read_run(&v, 0, n, false) {
        Some(head) => head,
        None => {
            return None;
        },
    };
    let tail = match read_run(&v, n + 2, v.len(), true) {
        Some(tail) => tail,
        None => {
            return None;
        },
    };
    if head.len() > 7 || tail.len() > 7 - head.len() {
        return None;
    }
    let missing: usize = 8 - head.len() - tail.len();
    let ghost zeros = Seq::new(missing as nat, |i: int| 0u16);
    let mut out = head;
    let mut i: usize = 0;
    assert(out@ =~= head@ + zeros.take(0));
    while i < missing
        invariant
            i <= missing,
            zeros == Seq::new(missing as nat, |i: int| 0u16),
            out@ == head@ + zeros.take(i as int),
        decreases missing - i,
    {
        out.push(0);
        i += 1;
        assert(out@ =~= head@ + zeros.take(i as int));
    }
    let mut j: usize = 0;
    assert(out@ =~= head@ + zeros + tail@.take(0));
    while j < tail.len()
        invariant
            j <= tail@.len(),
            out@ == head@ + zeros + tail@.take(j as int),
        decreases tail@.len() - j,
    {
        out.push(tail[j]);
        j += 1;
        assert(out@ =~= head@ + zeros + tail@.take(j as int));
    }
    assert(tail@.take(j as int) =~= tail@);
    Some(out)
}

impl IpAddr {
    /// The address that a text writes, if it writes one.
    pub fn parse(s: &str) -> (r: Option<IpAddr>)
        ensures
            r == ip_of(s@),
    {
        match read_octets(s) {
            Some((a, b, c, d)) => Some(IpAddr::V4(a, b, c, d)),
            None => match read_v6(s) {
                Some(g) => Some(IpAddr::V6(g[0], g[1], g[2], g[3], g[4], g[5], g[6], g[7])),
                None => None,
            },
        }
    }
}

impl AddrCidr {
    /// The address and prefix that a text writes, if it writes them, such as
    /// `192.168.1.10/24`.
    pub fn parse(s: &str) -> (r: Option<AddrCidr>)
        ensures
            r == cidr_of(s@),
    {
        let v = chars_of(s);
        let n = find_char(&v, '/');
        if n == v.len() {
            return None;
        }
        let address = string_of(&v, 0, n);
        let prefix = string_of(&v, n + 1, v.len());
        assert(address@ =~= s@.take(n as int));
        assert(prefix@ =~= s@.skip(n + 1));
        let ip = match IpAddr::parse(address.as_str()) {
            Some(ip) => ip,
            None => {
                return None;
            },
        };
        let most: u64 = match ip {
            IpAddr::V4(..) => 32,
            IpAddr::V6(..) => 128,
        };
        match parse_u64(prefix.as_str()) {
            Some(p) => if p <= most {
                Some(AddrCidr { ip, prefix: p as u8 })
            } else {
                None
            },
            None => None,
        }
    }
}

/// Whether every character is a digit of a base.
spec fn all_below(s: Seq<char>, base: nat) -> bool {
    forall|i: int|
        0 <= i < s.len() ==> digit_value(#[trigger] s[i]) is Some && digit_value(s[i])->0 < base
}

proof fn lemma_number(n: nat, base: nat)
    requires
        base == 10 || base == 16,
    ensures
        value_of(crate::text::number(n, base), base) == Some(n),
        all_below(crate::text::number(n, base), base),
        crate::text::number(n, base).len() >= 1,
        n < base ==> crate::text::number(n, base).len() == 1,
        crate::text::number(n, base).len() > 1 ==> crate::text::number(n, base)[0] != '0',
        n > 0 ==> crate::text::number(n, base)[0] != '0',
    decreases n,
{
    let t = crate::text::number(n, base);
    if n < base {
        assert(t.drop_last() =~= Seq::<char>::empty());
        assert(value_of(t.drop_last(), base) == Some(0nat));
    } else {
        let before = crate::text::number(n / base, base);
        lemma_number(n / base, base);
        assert(t.drop_last() =~= before);
        assert(n == (n / base) * base + n % base) by (nonlinear_arith)
            requires
                base == 10 || base == 16,
        ;
    }
}

proof fn lemma_number_short(n: nat)
    ensures
        n < 256 ==> crate::text::number(n, 10).len() <= 3,
        n < 65536 ==> crate::text::number(n, 16).len() <= 4,
{
    if n < 256 {
        lemma_number(n / 100, 10);
        assert(n / 10 / 10 == n / 100);
        reveal_with_fuel(crate::text::number, 4);
    }
    if n < 65536 {
        assert(n / 16 / 16 == n / 256);
        assert(n / 256 / 16 == n / 4096);
        reveal_with_fuel(crate::text::number, 5);
    }
}

proof fn lemma_split_one(s: Seq<char>, sep: char)
    requires
        !s.contains(sep),
    ensures
        crate::text::split(s, sep) == seq![s],
{
    crate::text::lemma_until_is(s, sep);
}

proof fn lemma_split_push(a: Seq<char>, b: Seq<char>, sep: char)
    requires
        !b.contains(sep),
    ensures
        crate::text::split(a + seq![sep] + b, sep) == crate::text::split(a, sep).push(b),
    decreases a.len(),
{
    let s = a + seq![sep] + b;
    crate::text::lemma_until_is(a, sep);
    let n = crate::text::until(a, sep);
    assert(s[n as int] == sep);
    crate::text::lemma_until(s, sep, n);
    if n >= a.len() {
        assert(s.take(n as int) =~= a);
        assert(s.skip(n as int + 1) =~= b);
        lemma_split_one(b, sep);
        assert(crate::text::split(s, sep) =~= seq![a].push(b));
    } else {
        let rest = a.skip(n as int + 1);
        assert(s.take(n as int) =~= a.take(n as int));
        assert(s.skip(n as int + 1) =~= rest + seq![sep] + b);
        lemma_split_push(rest, b, sep);
        assert(crate::text::split(s, sep) =~= crate::text::split(a, sep).push(b));
    }
}

proof fn lemma_digits_alone(s: Seq<char>, base: nat)
    requires
        all_below(s, base),
    ensures
        !s.contains('.'),
        !s.contains(':'),
        !s.contains('/'),
        !s.contains('+'),
{
    if s.contains('.') {
        let i = choose|i: int| 0 <= i < s.len() && s[i] == '.';
        assert(digit_value(s[i]) is Some);
    }
    if s.contains(':') {
        let i = choose|i: int| 0 <= i < s.len() && s[i] == ':';
        assert(digit_value(s[i]) is Some);
    }
    if s.contains('/') {
        let i = choose|i: int| 0 <= i < s.len() && s[i] == '/';
        assert(digit_value(s[i]) is Some);
    }
    if s.contains('+') {
        let i = choose|i: int| 0 <= i < s.len() && s[i] == '+';
        assert(digit_value(s[i]) is Some);
    }
}

proof fn lemma_octet(a: u8)
    ensures
        octet_of(crate::text::dec(a as nat)) == Some(a),
        all_below(crate::text::dec(a as nat), 10),
        !crate::text::dec(a as nat).contains('.'),
        !crate::text::dec(a as nat).contains(':'),
        !crate::text::dec(a as nat).contains('/'),
{
    lemma_number(a as nat, 10);
    lemma_number_short(a as nat);
    lemma_digits_alone(crate::text::dec(a as nat), 10);
}

proof fn lemma_octets(a: u8, b: u8, c: u8, d: u8)
    ensures
        octets_of(crate::ip::dotted(a as nat, b as nat, c as nat, d as nat)) == Some((a, b, c, d)),
{
    let (p, q, r, s) = (
        crate::text::dec(a as nat),
        crate::text::dec(b as nat),
        crate::text::dec(c as nat),
        crate::text::dec(d as nat),
    );
    lemma_octet(a);
    lemma_octet(b);
    lemma_octet(c);
    lemma_octet(d);
    reveal_strlit(".");
    assert("."@ =~= seq!['.']);
    lemma_split_one(p, '.');
    lemma_split_push(p, q, '.');
    lemma_split_push(p + "."@ + q, r, '.');
    lemma_split_push(p + "."@ + q + "."@ + r, s, '.');
    let text = crate::ip::dotted(a as nat, b as nat, c as nat, d as nat);
    assert(crate::text::split(text, '.') =~= seq![p, q, r, s]);
}

/// No two colons stand side by side.
spec fn single_colons(s: Seq<char>) -> bool {
    forall|k: int|
        0 <= k < s.len() ==> !(s[k] == ':' && k + 1 < s.len() && #[trigger] s[k + 1] == ':')
}

proof fn lemma_segment(g: u16)
    ensures
        segment_of(crate::text::number(g as nat, 16)) == Some(g),
        crate::text::number(g as nat, 16).len() >= 1,
        !crate::text::number(g as nat, 16).contains(':'),
        !crate::text::number(g as nat, 16).contains('/'),
{
    lemma_number(g as nat, 16);
    lemma_number_short(g as nat);
    lemma_digits_alone(crate::text::number(g as nat, 16), 16);
}

proof fn lemma_segments(s: Seq<u16>, from: int, to: int, dotted: bool)
    requires
        0 <= from < to <= s.len(),
    ensures
        ({
            let t = crate::ip::segments(s, from, to);
            &&& t.len() > 0
            &&& t[0] != ':'
            &&& t.last() != ':'
            &&& single_colons(t)
            &&& !t.contains('/')
            &&& to - from > 1 ==> t.contains(':')
            &&& run_of(t, dotted) == Some(s.subrange(from, to))
        }),
    decreases to,
{
    let t = crate::ip::segments(s, from, to);
    let g = s[to - 1];
    let w = crate::text::number(g as nat, 16);
    lemma_segment(g);
    assert(w.contains(w[0]));
    assert(w.contains(w.last()));
    if from + 1 == to {
        assert(single_colons(t)) by {
            assert forall|k: int| 0 <= k < t.len() implies !(t[k] == ':' && k + 1 < t.len()
                && #[trigger] t[k + 1] == ':') by {
                assert(t.contains(t[k]));
            }
        }
        lemma_split_one(t, ':');
        let p = seq![t];
        assert(p.drop_last() =~= Seq::<Seq<char>>::empty());
        assert(segments_of(p.drop_last(), false) == Some(Seq::<u16>::empty()));
        assert(Seq::<u16>::empty() + seq![g] =~= s.subrange(from, to));
    } else {
        let before = crate::ip::segments(s, from, to - 1);
        let n = before.len() as int;
        lemma_segments(s, from, to - 1, false);
        reveal_strlit(":");
        assert(":"@ =~= seq![':']);
        assert(t =~= before + seq![':'] + w);
        assert(t[n] == ':');
        assert(t.last() == w.last());
        assert(t[0] == before[0]);
        assert forall|k: int| 0 <= k < t.len() implies !(t[k] == ':' && k + 1 < t.len()
            && #[trigger] t[k + 1] == ':') by {
            if k + 1 < n {
                assert(before[k + 1] == t[k + 1]);
                assert(before[k] == t[k]);
            } else if k + 1 == n {
                assert(t[k] == before.last());
            } else if k + 1 < t.len() {
                assert(t[k + 1] == w[k - n]);
                assert(w.contains(w[k - n]));
            }
        }
        assert(!t.contains('/')) by {
            if t.contains('/') {
                let i = choose|i: int| 0 <= i < t.len() && t[i] == '/';
                if i < n {
                    assert(before[i] == '/');
                } else if i > n {
                    assert(w[i - n - 1] == '/');
                }
            }
        }
        lemma_split_push(before, w, ':');
        let p = crate::text::split(before, ':');
        assert(p.push(w).drop_last() =~= p);
        assert(s.subrange(from, to - 1) + seq![g] =~= s.subrange(from, to));
    }
}

proof fn lemma_value_digits(s: Seq<char>, base: nat)
    requires
        value_of(s, base) is Some,
    ensures
        all_below(s, base),
    decreases s.len(),
{
    if s.len() > 0 {
        lemma_value_digits(s.drop_last(), base);
        assert forall|i: int| 0 <= i < s.len() implies digit_value(#[trigger] s[i]) is Some
            && digit_value(s[i])->0 < base by {
            if i < s.len() - 1 {
                assert(s.drop_last()[i] == s[i]);
            }
        }
    }
}

proof fn lemma_in_a_piece(s: Seq<char>, sep: char, i: int)
    requires
        0 <= i < s.len(),
        s[i] != sep,
    ensures
        exists|j: int|
            0 <= j < crate::text::split(s, sep).len() && (#[trigger] crate::text::split(
                s,
                sep,
            )[j]).contains(s[i]),
    decreases s.len(),
{
    crate::text::lemma_until_is(s, sep);
    let n = crate::text::until(s, sep) as int;
    let p = crate::text::split(s, sep);
    if n >= s.len() {
        assert(p[0].contains(s[i]));
    } else if i < n {
        assert(p[0] == s.take(n));
        assert(s.take(n)[i] == s[i]);
        assert(p[0].contains(s[i]));
    } else {
        let rest = s.skip(n + 1);
        assert(rest[i - n - 1] == s[i]);
        lemma_in_a_piece(rest, sep, i - n - 1);
        let q = crate::text::split(rest, sep);
        let j = choose|j: int| 0 <= j < q.len() && (#[trigger] q[j]).contains(s[i]);
        assert(p[j + 1] == q[j]);
    }
}

proof fn lemma_no_octets(s: Seq<char>)
    requires
        s.contains(':'),
    ensures
        octets_of(s) is None,
{
    if octets_of(s) is Some {
        let i = choose|i: int| 0 <= i < s.len() && s[i] == ':';
        lemma_in_a_piece(s, '.', i);
        let p = crate::text::split(s, '.');
        let j = choose|j: int| 0 <= j < p.len() && (#[trigger] p[j]).contains(s[i]);
        assert(j == 0 || j == 1 || j == 2 || j == 3);
        assert(octet_of(p[j]) is Some);
        lemma_value_digits(p[j], 10);
        lemma_digits_alone(p[j], 10);
    }
}

proof fn lemma_zeros(s: Seq<u16>, i: int)
    requires
        0 <= i <= s.len(),
    ensures
        i + crate::ip::zeros(s, i) <= s.len(),
        forall|k: int| i <= k < i + crate::ip::zeros(s, i) ==> s[k] == 0,
    decreases s.len() - i,
{
    if i < s.len() && s[i] == 0 {
        lemma_zeros(s, i + 1);
    }
}

proof fn lemma_longest(s: Seq<u16>, i: int)
    requires
        0 <= i <= s.len(),
    ensures
        ({
            let (start, len) = crate::ip::longest(s, i);
            &&& i <= start
            &&& start + len <= s.len()
            &&& forall|k: int| start <= k < start + len ==> s[k] == 0
        }),
    decreases s.len() - i,
{
    if i < s.len() {
        lemma_longest(s, i + 1);
        lemma_zeros(s, i);
    }
}

/// What stands around a gap is read on its own.
proof fn lemma_around_a_gap(s: Seq<u16>, start: int, len: int)
    requires
        s.len() == 8,
        0 <= start,
        len > 1,
        start + len <= 8,
        forall|k: int| start <= k < start + len ==> s[k] == 0,
    ensures
        ({
            let t = crate::ip::segments(s, 0, start) + "::"@ + crate::ip::segments(
                s,
                start + len,
                8,
            );
            &&& v6_of(t) == Some(s)
            &&& t.contains(':')
            &&& !t.contains('/')
        }),
{
    let a = crate::ip::segments(s, 0, start);
    let b = crate::ip::segments(s, start + len, 8);
    let t = a + "::"@ + b;
    let n = a.len() as int;
    reveal_strlit("::");
    if start > 0 {
        lemma_segments(s, 0, start, false);
    } else {
        assert(s.subrange(0, 0) =~= Seq::<u16>::empty());
    }
    if start + len < 8 {
        lemma_segments(s, start + len, 8, true);
    } else {
        assert(s.subrange(8, 8) =~= Seq::<u16>::empty());
    }
    assert(t[n] == ':' && t[n + 1] == ':');
    assert forall|k: int| 0 <= k < n implies !(t[k] == ':' && k + 1 < t.len() && #[trigger] t[k + 1]
        == ':') by {
        assert(t[k] == a[k]);
        if k + 1 < n {
            assert(t[k + 1] == a[k + 1]);
        } else {
            assert(t[k] == a.last());
        }
    }
    lemma_gap(t, n);
    assert(t.take(n) =~= a);
    assert(t.skip(n + 2) =~= b);
    let zeros = Seq::new((8 - start - (8 - start - len)) as nat, |i: int| 0u16);
    assert(s.subrange(0, start) + zeros + s.subrange(start + len, 8) =~= s);
    if t.contains('/') {
        let i = choose|i: int| 0 <= i < t.len() && t[i] == '/';
        if i < n {
            assert(a[i] == '/');
        } else if i >= n + 2 {
            assert(b[i - n - 2] == '/');
        }
    }
}

proof fn lemma_all_ones()
    ensures
        segment_of(seq!['f', 'f', 'f', 'f']) == Some(0xffffu16),
        !seq!['f', 'f', 'f', 'f'].contains(':'),
{
    let f = seq!['f', 'f', 'f', 'f'];
    let g = f.drop_last();
    let h = g.drop_last();
    let i = h.drop_last();
    assert(i.drop_last() =~= Seq::<char>::empty());
    assert(value_of(i.drop_last(), 16) == Some(0nat));
    assert(value_of(i, 16) == Some(15nat));
    assert(value_of(h, 16) == Some(255nat));
    assert(value_of(g, 16) == Some(4095nat));
    assert(value_of(f, 16) == Some(65535nat));
}

/// An IPv4 address behind a segment of ones.
proof fn lemma_mapped(a: u8, b: u8, c: u8, d: u8)
    ensures
        ({
            let four = crate::ip::dotted(a as nat, b as nat, c as nat, d as nat);
            let rest = seq!['f', 'f', 'f', 'f'] + seq![':'] + four;
            run_of(rest, true) == Some(
                seq![0xffffu16, (a * 256 + b) as u16, (c * 256 + d) as u16],
            )
        }),
{
    let four = crate::ip::dotted(a as nat, b as nat, c as nat, d as nat);
    let f = seq!['f', 'f', 'f', 'f'];
    let rest = f + seq![':'] + four;
    lemma_octets(a, b, c, d);
    lemma_dotted_plain(a, b, c, d);
    lemma_all_ones();
    lemma_split_one(f, ':');
    lemma_split_push(f, four, ':');
    let p = crate::text::split(rest, ':');
    assert(p == seq![f].push(four));
    assert(p.drop_last() =~= seq![f]);
    assert(seq![f].drop_last() =~= Seq::<Seq<char>>::empty());
    assert(segments_of(Seq::<Seq<char>>::empty(), false) == Some(Seq::<u16>::empty()));
    assert(Seq::<u16>::empty() + seq![0xffffu16] =~= seq![0xffffu16]);
    assert(segments_of(seq![f], false) == Some(seq![0xffffu16]));
    if segment_of(four) is Some {
        lemma_value_digits(four, 16);
        lemma_digits_alone(four, 16);
    }
    let low = seq![(a * 256 + b) as u16, (c * 256 + d) as u16];
    assert(last_segments(four, true) == Some(low));
    assert(seq![0xffffu16] + low =~= seq![
        0xffffu16,
        (a * 256 + b) as u16,
        (c * 256 + d) as u16,
    ]);
}

proof fn lemma_mapped_v6(s: Seq<u16>)
    requires
        s.len() == 8,
        s[0] == 0 && s[1] == 0 && s[2] == 0 && s[3] == 0 && s[4] == 0 && s[5] == 0xffff,
    ensures
        v6_of(crate::ip::v6_text(s)) == Some(s),
        crate::ip::v6_text(s).contains(':'),
        !crate::ip::v6_text(s).contains('/'),
{
    let t = crate::ip::v6_text(s);
    let (a, b) = ((s[6] / 256) as u8, (s[6] % 256) as u8);
    let (c, d) = ((s[7] / 256) as u8, (s[7] % 256) as u8);
    let four = crate::ip::dotted(a as nat, b as nat, c as nat, d as nat);
    let rest = seq!['f', 'f', 'f', 'f'] + seq![':'] + four;
    reveal_strlit("::ffff:");
    assert(t =~= seq![':', ':'] + rest);
    assert(t[0] == ':' && t[1] == ':');
    assert(gap_at(t) == 0);
    assert(t.take(0) =~= Seq::<char>::empty());
    assert(t.skip(2) =~= rest);
    lemma_mapped(a, b, c, d);
    assert((a * 256 + b) as u16 == s[6]);
    assert((c * 256 + d) as u16 == s[7]);
    let tail = seq![0xffffu16, s[6], s[7]];
    assert(Seq::<u16>::empty() + Seq::new(5, |i: int| 0u16) + tail =~= s);
    lemma_dotted_plain(a, b, c, d);
    if t.contains('/') {
        let i = choose|i: int| 0 <= i < t.len() && t[i] == '/';
        assert(i >= 7);
        assert(four[i - 7] == '/');
    }
}

proof fn lemma_v6(s: Seq<u16>)
    requires
        s.len() == 8,
    ensures
        v6_of(crate::ip::v6_text(s)) == Some(s),
        crate::ip::v6_text(s).contains(':'),
        !crate::ip::v6_text(s).contains('/'),
{
    let t = crate::ip::v6_text(s);
    if s[0] == 0 && s[1] == 0 && s[2] == 0 && s[3] == 0 && s[4] == 0 && s[5] == 0xffff {
        lemma_mapped_v6(s);
    } else {
        let (start, len) = crate::ip::longest(s, 0);
        lemma_longest(s, 0);
        if len > 1 {
            lemma_around_a_gap(s, start, len as int);
        } else {
            lemma_segments(s, 0, 8, true);
            lemma_gap(t, t.len() as int);
            assert(s.subrange(0, 8) =~= s);
        }
    }
}

proof fn lemma_dotted_plain(a: u8, b: u8, c: u8, d: u8)
    ensures
        ({
            let t = crate::ip::dotted(a as nat, b as nat, c as nat, d as nat);
            &&& t.contains('.')
            &&& !t.contains(':')
            &&& !t.contains('/')
        }),
{
    let (p, q, r, s) = (
        crate::text::dec(a as nat),
        crate::text::dec(b as nat),
        crate::text::dec(c as nat),
        crate::text::dec(d as nat),
    );
    let t = crate::ip::dotted(a as nat, b as nat, c as nat, d as nat);
    reveal_strlit(".");
    lemma_octet(a);
    lemma_octet(b);
    lemma_octet(c);
    lemma_octet(d);
    assert(t[p.len() as int] == '.');
    assert forall|i: int| 0 <= i < t.len() implies #[trigger] t[i] != ':' && t[i] != '/' by {
        let x = p.len() as int;
        let y = x + 1 + q.len();
        let z = y + 1 + r.len();
        if i < x {
            assert(t[i] == p[i]);
            assert(p.contains(p[i]));
        } else if x < i < y {
            assert(t[i] == q[i - x - 1]);
            assert(q.contains(q[i - x - 1]));
        } else if y < i < z {
            assert(t[i] == r[i - y - 1]);
            assert(r.contains(r[i - y - 1]));
        } else if z < i {
            assert(t[i] == s[i - z - 1]);
            assert(s.contains(s[i - z - 1]));
        }
    }
}

/// An address that was written reads back as it was.
pub proof fn an_address_reads_back(ip: IpAddr)
    ensures
        ip_of(crate::ip::ip_text(ip)) == Some(ip),
        !crate::ip::ip_text(ip).contains('/'),
{
    match ip {
        IpAddr::V4(a, b, c, d) => {
            lemma_octets(a, b, c, d);
            lemma_dotted_plain(a, b, c, d);
        },
        IpAddr::V6(a, b, c, d, e, f, g, h) => {
            let s = seq![a, b, c, d, e, f, g, h];
            lemma_v6(s);
            lemma_no_octets(crate::ip::v6_text(s));
        },
    }
}

proof fn lemma_digits_value(s: Seq<char>)
    requires
        all_below(s, 10),
    ensures
        crate::text::all_digits(s),
        value_of(s, 10) == Some(crate::text::digits_value(s)),
    decreases s.len(),
{
    assert forall|i: int| 0 <= i < s.len() implies '0' <= #[trigger] s[i] <= '9' by {
        assert(digit_value(s[i]) is Some);
    }
    if s.len() > 0 {
        assert forall|i: int| 0 <= i < s.drop_last().len() implies digit_value(
            #[trigger] s.drop_last()[i],
        ) is Some && digit_value(s.drop_last()[i])->0 < 10 by {
            assert(s.drop_last()[i] == s[i]);
        }
        lemma_digits_value(s.drop_last());
        assert(digit_value(s[s.len() - 1]) is Some);
    }
}

/// An address with a prefix that was written reads back as it was, where the
/// prefix is no longer than the address.
pub proof fn a_prefix_reads_back(a: AddrCidr)
    requires
        a.prefix <= bits(a.ip),
    ensures
        cidr_of(crate::ip::cidr_text(a)) == Some(a),
{
    let ip = crate::ip::ip_text(a.ip);
    let p = crate::text::dec(a.prefix as nat);
    let t = crate::ip::cidr_text(a);
    let n = ip.len() as int;
    reveal_strlit("/");
    an_address_reads_back(a.ip);
    assert(t[n] == '/');
    assert forall|i: int| 0 <= i < n implies t[i] != '/' by {
        assert(t[i] == ip[i]);
        assert(ip.contains(ip[i]));
    }
    crate::text::lemma_until(t, '/', n as nat);
    assert(t.take(n) =~= ip);
    assert(t.skip(n + 1) =~= p);
    lemma_number(a.prefix as nat, 10);
    lemma_digits_alone(p, 10);
    lemma_digits_value(p);
    assert(p.contains(p[0]));
}

/// A prefix that is longer than its address is refused.
pub proof fn a_prefix_is_no_longer_than_its_address(ip: IpAddr, prefix: u8)
    requires
        prefix > match ip {
            IpAddr::V4(..) => 32u8,
            IpAddr::V6(..) => 128u8,
        },
    ensures
        cidr_of(crate::ip::ip_text(ip) + "/"@ + crate::text::dec(prefix as nat)) is None,
{
    let a = AddrCidr { ip, prefix };
    let t = crate::ip::cidr_text(a);
    let text = crate::ip::ip_text(ip);
    let p = crate::text::dec(prefix as nat);
    let n = text.len() as int;
    reveal_strlit("/");
    an_address_reads_back(ip);
    assert(t[n] == '/');
    assert forall|i: int| 0 <= i < n implies t[i] != '/' by {
        assert(t[i] == text[i]);
        assert(text.contains(text[i]));
    }
    crate::text::lemma_until(t, '/', n as nat);
    assert(t.take(n) =~= text);
    assert(t.skip(n + 1) =~= p);
    crate::text::a_written_number_is_read_back(prefix as u64);
}

/// A number above 255, an empty one, or one with a leading zero is no part of an
/// IPv4 address; every other number is.
pub proof fn an_octet_is_a_plain_number(n: nat)
    ensures
        n <= 255 ==> octet_of(crate::text::dec(n)) == Some(n as u8),
        n > 255 ==> octet_of(crate::text::dec(n)) is None,
        octet_of(seq!['0'] + crate::text::dec(n)) is None,
        octet_of(Seq::empty()) is None,
{
    lemma_number(n, 10);
    if n <= 255 {
        lemma_octet(n as u8);
    }
}

/// A digit has the value of which it is the digit, in either case, and nothing
/// else is a digit.
pub proof fn a_digit_has_its_value_in_either_case(d: nat, c: char)
    ensures
        d < 16 ==> digit_value(crate::text::digit_char(d)) == Some(d),
        10 <= d < 16 ==> digit_value((d + 55) as char) == Some(d),
        digit_value(c) is Some ==> digit_value(c)->0 < 16 && (c == crate::text::digit_char(
            digit_value(c)->0,
        ) || c as nat == digit_value(c)->0 + 55),
{
}

} // verus!
