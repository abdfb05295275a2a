//! IP addresses and address/prefix pairs, and how they are written.

pub mod reading;

use crate::text::{push_dec, push_hex};
use vstd::prelude::*;
use vstd::string::*;

verus! {

/// An IP address: four octets, or eight 16-bit segments.
#[derive(Clone, Copy, Debug, PartialEq, Eq, Structural)]
pub enum IpAddr {
    V4(u8, u8, u8, u8),
    V6(u16, u16, u16, u16, u16, u16, u16, u16),
}

/// An address with its network prefix length.
#[derive(Clone, Copy, Debug, PartialEq, Eq, Structural)]
pub struct AddrCidr {
    pub ip: IpAddr,
    pub prefix: u8,
}

/// Four octets in dotted decimal.
pub open spec fn dotted(a: nat, b: nat, c: nat, d: nat) -> Seq<char> {
    crate::text::dec(a) + "."@ + crate::text::dec(b) + "."@ + crate::text::dec(c) + "."@
        + crate::text::dec(d)
}

/// The number of zero segments from `i` on.
pub open spec fn zeros(s: Seq<u16>, i: int) -> nat
    decreases s.len() - i,
{
    if 0 <= i < s.len() && s[i] == 0 {
        1 + zeros(s, i + 1)
    } else {
        0
    }
}

/// Where, from `i` on, the first of the longest runs of zero segments begins,
/// and its length.
pub open spec fn longest(s: Seq<u16>, i: int) -> (int, nat)
    decreases s.len() - i,
{
    if i >= s.len() {
        (i, 0)
    } else {
        let later = longest(s, i + 1);
        if zeros(s, i) >= later.1 {
            (i, zeros(s, i))
        } else {
            later
        }
    }
}

/// The segments from `from` up to `to`, with colons between them.
pub open spec fn segments(s: Seq<u16>, from: int, to: int) -> Seq<char>
    decreases to - from,
{
    if from >= to {
        Seq::empty()
    } else if from + 1 == to {
        crate::text::number(s[from] as nat, 16)
    } else {
        segments(s, from, to - 1) + ":"@ + crate::text::number(s[to - 1] as nat, 16)
    }
}

/// How eight segments are written: an embedded IPv4 address in dotted decimal,
/// else in hexadecimal, with the first of the longest runs of zeros, where it
/// is longer than one, shortened to `::`.
pub open spec fn v6_text(s: Seq<u16>) -> Seq<char> {
    if s[0] == 0 && s[1] == 0 && s[2] == 0 && s[3] == 0 && s[4] == 0 && s[5] == 0xffff {
        "::ffff:"@ + dotted(
            s[6] as nat / 256,
            s[6] as nat % 256,
            s[7] as nat / 256,
            s[7] as nat % 256,
        )
    } else {
        let (start, len) = longest(s, 0);
        if len > 1 {
            segments(s, 0, start) + "::"@ + segments(s, start + len, 8)
        } else {
            segments(s, 0, 8)
        }
    }
}

/// How an address is written.
pub open spec fn ip_text(ip: IpAddr) -> Seq<char> {
    match ip {
        IpAddr::V4(a, b, c, d) => dotted(a as nat, b as nat, c as nat, d as nat),
        IpAddr::V6(a, b, c, d, e, f, g, h) => v6_text(seq![a, b, c, d, e, f, g, h]),
    }
}

/// How an address with a prefix is written.
pub open spec fn cidr_text(a: AddrCidr) -> Seq<char> {
    ip_text(a.ip) + "/"@ + crate::text::dec(a.prefix as nat)
}

fn push_dotted(out: &mut String, a: u8, b: u8, c: u8, d: u8)
    ensures
        final(out)@ == old(out)@ + dotted(a as nat, b as nat, c as nat, d as nat),
{
    let ghost start = out@;
    push_dec(out, a as u64);
    out.append(".");
    push_dec(out, b as u64);
    out.append(".");
    push_dec(out, c as u64);
    out.append(".");
    push_dec(out, d as u64);
    assert(out@ =~= start + dotted(a as nat, b as nat, c as nat, d as nat));
}

fn push_segments(out: &mut String, s: &[u16; 8], from: usize, to: usize)
    requires
        from <= to <= 8,
    ensures
        final(out)@ == old(out)@ + segments(s@, from as int, to as int),
{
    let ghost start = out@;
    let mut i: usize = from;
    assert(out@ =~= start + segments(s@, from as int, i as int));
    while i < to
        invariant
            from <= i <= to <= 8,
            out@ == start + segments(s@, from as int, i as int),
        decreases to - i,
    {
        let ghost before = out@;
        if i > from {
            out.append(":");
        }
        push_hex(out, s[i] as u64);
        i += 1;
        assert(out@ =~= start + segments(s@, from as int, i as int));
    }
}

fn count_zeros(s: &[u16; 8], from: usize) -> (n: usize)
    requires
        from <= 8,
    ensures
        n == zeros(s@, from as int),
        from + n <= 8,
    decreases 8 - from,
{
    if from < 8 && s[from] == 0 {
        1 + count_zeros(s, from + 1)
    } else {
        0
    }
}

fn longest_zeros(s: &[u16; 8], from: usize) -> (r: (usize, usize))
    requires
        from <= 8,
    ensures
        r.0 == longest(s@, from as int).0,
        r.1 == longest(s@, from as int).1,
        r.0 + r.1 <= 8,
    decreases 8 - from,
{
    if from >= 8 {
        (from, 0)
    } else {
        let later = longest_zeros(s, from + 1);
        let here = count_zeros(s, from);
        if here >= later.1 {
            (from, here)
        } else {
            later
        }
    }
}

impl IpAddr {
    /// The address as text.
    pub fn to_string(&self) -> (r: String)
        ensures
            r@ == ip_text(*self),
    {
        let mut out = String::new();
        match *self {
            IpAddr::V4(a, b, c, d) => {
                push_dotted(&mut out, a, b, c, d);
            },
            IpAddr::V6(a, b, c, d, e, f, g, h) => {
                let s: [u16; 8] = [a, b, c, d, e, f, g, h];
                assert(s@ =~= seq![a, b, c, d, e, f, g, h]);
                if a == 0 && b == 0 && c == 0 && d == 0 && e == 0 && f == 0xffff {
                    out.append("::ffff:");
                    push_dotted(
                        &mut out,
                        (g / 256) as u8,
                        (g % 256) as u8,
                        (h / 256) as u8,
                        (h % 256) as u8,
                    );
                } else {
                    let (start, len) = longest_zeros(&s, 0);
                    if len > 1 {
                        push_segments(&mut out, &s, 0, start);
                        out.append("::");
                        push_segments(&mut out, &s, start + len, 8);
                    } else {
                        push_segments(&mut out, &s, 0, 8);
                    }
                }
            },
        }
        assert(out@ =~= ip_text(*self));
        out
    }
}

impl AddrCidr {
    /// An address with a prefix length.
    pub fn new(ip: IpAddr, prefix: u8) -> (r: AddrCidr)
        ensures
            r == (AddrCidr { ip, prefix }),
    {
        AddrCidr { ip, prefix }
    }

    /// The address and its prefix as text.
    pub fn to_string(&self) -> (r: String)
        ensures
            r@ == cidr_text(*self),
    {
        let mut out = self.ip.to_string();
        out.append("/");
        push_dec(&mut out, self.prefix as u64);
        out
    }
}

proof fn lemma_zeros(s: Seq<u16>, i: int)
    requires
        0 <= i <= s.len(),
    ensures
        i + zeros(s, i) <= s.len(),
        forall|k: int| i <= k < i + zeros(s, i) ==> s[k] == 0,
        i + zeros(s, i) < s.len() ==> s[i + zeros(s, i)] != 0,
    decreases s.len() - i,
{
    if i < s.len() && s[i] == 0 {
        lemma_zeros(s, i + 1);
    }
}

proof fn lemma_longest(s: Seq<u16>, i: int)
    requires
        0 <= i <= s.len(),
    ensures
        i <= longest(s, i).0 <= s.len(),
        longest(s, i).1 == zeros(s, longest(s, i).0) || longest(s, i).1 == 0,
        forall|k: int| i <= k < s.len() ==> #[trigger] zeros(s, k) <= longest(s, i).1,
        forall|k: int| i <= k < longest(s, i).0 ==> #[trigger] zeros(s, k) < longest(s, i).1,
    decreases s.len() - i,
{
    if i < s.len() {
        lemma_longest(s, i + 1);
    }
}

/// What is shortened to `::` is a run of zero segments, as long as any, and the
/// first of that length.
pub proof fn the_first_longest_run_is_shortened(s: Seq<u16>, k: int)
    requires
        0 <= k < s.len(),
    ensures
        ({
            let (start, len) = longest(s, 0);
            &&& 0 <= start
            &&& start + len <= s.len()
            &&& forall|j: int| start <= j < start + len ==> s[j] == 0
            &&& zeros(s, k) <= len
            &&& k < start ==> zeros(s, k) < len
        }),
{
    lemma_longest(s, 0);
    let (start, len) = longest(s, 0);
    lemma_zeros(s, start);
}

/// The four numbers of an address stand between its dots, each in decimal.
pub proof fn an_address_has_four_numbers(a: u8, b: u8, c: u8, d: u8)
    ensures
        crate::text::split(ip_text(IpAddr::V4(a, b, c, d)), '.') == seq![
            crate::text::dec(a as nat),
            crate::text::dec(b as nat),
            crate::text::dec(c as nat),
            crate::text::dec(d as nat),
        ],
{
    let parts = seq![
        crate::text::dec(a as nat),
        crate::text::dec(b as nat),
        crate::text::dec(c as nat),
        crate::text::dec(d as nat),
    ];
    lemma_no_dot(a as nat);
    lemma_no_dot(b as nat);
    lemma_no_dot(c as nat);
    lemma_no_dot(d as nat);
    assert forall|i: int| 0 <= i < parts.len() implies !(#[trigger] parts[i]).contains('.') by {
        assert(i == 0 || i == 1 || i == 2 || i == 3);
    }
    crate::text::what_was_joined_is_split_again(parts, '.');
    reveal_strlit(".");
    assert("."@ =~= seq!['.']);
    reveal_with_fuel(crate::text::join, 5);
    let one = parts.drop_last().drop_last().drop_last();
    assert(one.len() == 1 && one[0] == parts[0]);
    assert(parts.drop_last().drop_last().last() == parts[1]);
    assert(parts.drop_last().last() == parts[2]);
    assert(crate::text::join(parts, seq!['.']) =~= ip_text(IpAddr::V4(a, b, c, d)));
}

proof fn lemma_no_dot(n: nat)
    ensures
        !crate::text::dec(n).contains('.'),
{
    crate::text::lemma_dec_reads_back(n);
    let s = crate::text::dec(n);
    assert forall|i: int| 0 <= i < s.len() implies s[i] != '.' by {
        assert('0' <= s[i] <= '9');
    }
}

/// An address with a prefix is the address, a slash and the length of the
/// prefix.
pub proof fn a_prefix_stands_behind_the_slash(a: AddrCidr)
    ensures
        crate::text::until(cidr_text(a), '/') == ip_text(a.ip).len(),
        cidr_text(a).take(ip_text(a.ip).len() as int) == ip_text(a.ip),
        crate::text::u64_of(cidr_text(a).skip(ip_text(a.ip).len() as int + 1)) == Some(
            a.prefix as u64,
        ),
{
    reveal_strlit("/");
    crate::ip::reading::an_address_reads_back(a.ip);
    let ip = ip_text(a.ip);
    let t = cidr_text(a);
    let n = ip.len() as int;
    assert(t[n] == '/');
    assert forall|i: int| 0 <= i < n implies t[i] != '/' by {
        assert(t[i] == ip[i]);
        assert(ip.contains(ip[i]));
    }
    crate::text::lemma_until(t, '/', n as nat);
    assert(t.take(n) =~= ip);
    assert(t.skip(n + 1) =~= crate::text::dec(a.prefix as nat));
    crate::text::a_written_number_is_read_back(a.prefix as u64);
}

/// An address that embeds an IPv4 address shows it as one.
pub proof fn an_embedded_address_is_shown_as_one(g: u16, h: u16)
    ensures
        ip_text(IpAddr::V6(0, 0, 0, 0, 0, 0xffff, g, h)) == "::ffff:"@ + ip_text(
            IpAddr::V4((g / 256) as u8, (g % 256) as u8, (h / 256) as u8, (h % 256) as u8),
        ),
{
}

proof fn lemma_hex_no_colon(n: nat)
    ensures
        !crate::text::number(n, 16).contains(':'),
    decreases n,
{
    let s = crate::text::number(n, 16);
    if n < 16 {
        assert(s =~= seq![crate::text::digit_char(n)]);
        assert(crate::text::digit_char(n) != ':');
    } else {
        lemma_hex_no_colon(n / 16);
        let m = crate::text::number(n / 16, 16);
        assert(s =~= m.push(crate::text::digit_char(n % 16)));
        assert(crate::text::digit_char(n % 16) != ':');
        assert forall|i: int| 0 <= i < s.len() implies s[i] != ':' by {
            if i < m.len() {
                assert(s[i] == m[i]);
                assert(m.contains(m[i]));
            }
        }
    }
}

proof fn lemma_segments(s: Seq<u16>, to: int)
    requires
        1 <= to <= s.len(),
    ensures
        segments(s, 0, to) == crate::text::join(
            Seq::new(to as nat, |i: int| crate::text::number(s[i] as nat, 16)),
            seq![':'],
        ),
    decreases to,
{
    reveal_strlit(":");
    assert(":"@ =~= seq![':']);
    let parts = Seq::new(to as nat, |i: int| crate::text::number(s[i] as nat, 16));
    if to > 1 {
        lemma_segments(s, to - 1);
        assert(parts.drop_last() =~= Seq::new(
            (to - 1) as nat,
            |i: int| crate::text::number(s[i] as nat, 16),
        ));
    }
}

/// An address without two zero segments side by side is written out in full:
/// its eight segments in hexadecimal, with colons between them.
pub proof fn a_full_address_has_eight_segments(s: Seq<u16>)
    requires
        s.len() == 8,
        forall|i: int| 0 <= i < 7 ==> #[trigger] s[i] != 0 || s[i + 1] != 0,
    ensures
        crate::text::split(v6_text(s), ':') == Seq::new(
            8,
            |i: int| crate::text::number(s[i] as nat, 16),
        ),
{
    lemma_longest(s, 0);
    let (start, len) = longest(s, 0);
    lemma_zeros(s, start);
    assert(s[0] != 0 || s[1] != 0);
    if len > 1 {
        assert(s[start] == 0);
        assert(s[start + 1] == 0);
        assert(s[start] != 0 || s[start + 1] != 0);
    }
    lemma_segments(s, 8);
    let parts = Seq::new(8, |i: int| crate::text::number(s[i] as nat, 16));
    assert forall|i: int| 0 <= i < parts.len() implies !(#[trigger] parts[i]).contains(':') by {
        lemma_hex_no_colon(s[i] as nat);
    }
    crate::text::what_was_joined_is_split_again(parts, ':');
}

} // verus!
