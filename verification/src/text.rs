//! Text helpers: strings as sequences of characters, with the handful of
//! operations (comparing, splitting, trimming, decimal numbers) that the rest
//! of the library builds on.

use vstd::prelude::*;
use vstd::string::*;

verus! {

/// `String::push` appends the character to the end of the string and changes
/// nothing else.
pub assume_specification[ String::push ](s: &mut String, c: char)
    ensures
        final(s)@ == old(s)@.push(c),
;

/// The texts that a sequence of strings holds.
pub open spec fn texts(v: Seq<String>) -> Seq<Seq<char>> {
    Seq::new(v.len(), |i: int| v[i]@)
}

/// The texts that a sequence of string slices holds.
pub open spec fn str_texts(v: Seq<&str>) -> Seq<Seq<char>> {
    Seq::new(v.len(), |i: int| v[i]@)
}

/// The characters of `s`.
pub fn chars_of(s: &str) -> (v: Vec<char>)
    ensures
        v@ == s@,
{
    let mut v: Vec<char> = Vec::new();
    for c in it: s.chars()
        invariant
            it.seq() == s@,
            v@ == s@.take(it.index()),
    {
        proof {
            assert(s@.take(it.index() + 1) =~= s@.take(it.index()).push(c));
        }
        v.push(c);
    }
    assert(s@.take(s@.len() as int) =~= s@);
    v
}

/// The string made of the characters `v[from..to]`.
pub fn string_of(v: &Vec<char>, from: usize, to: usize) -> (s: String)
    requires
        from <= to <= v@.len(),
    ensures
        s@ == v@.subrange(from as int, to as int),
{
    let mut s = String::new();
    let mut i: usize = from;
    while i < to
        invariant
            from <= i <= to <= v@.len(),
            s@ == v@.subrange(from as int, i as int),
        decreases to - i,
    {
        s.push(v[i]);
        i += 1;
        assert(v@.subrange(from as int, i as int) =~= v@.subrange(from as int, i - 1).push(
            v@[i - 1],
        ));
    }
    s
}

/// Whether two strings hold the same text.
pub fn same(a: &str, b: &str) -> (r: bool)
    ensures
        r == (a@ == b@),
{
    let x = a.to_owned();
    let y = b.to_owned();
    x == y
}

/// `a` followed by `b`.
pub fn joined(a: &str, b: &str) -> (r: String)
    ensures
        r@ == a@ + b@,
{
    let mut s = a.to_owned();
    s.append(b);
    s
}

/// Unicode's `White_Space` property.
pub open spec fn is_space(c: char) -> bool {
    ||| '\u{9}' <= c <= '\u{d}'
    ||| c == ' '
    ||| c == '\u{85}'
    ||| c == '\u{a0}'
    ||| c == '\u{1680}'
    ||| '\u{2000}' <= c <= '\u{200a}'
    ||| c == '\u{2028}'
    ||| c == '\u{2029}'
    ||| c == '\u{202f}'
    ||| c == '\u{205f}'
    ||| c == '\u{3000}'
}

/// Whether `c` is white space.
pub fn space(c: char) -> (r: bool)
    ensures
        r == is_space(c),
{
    ('\u{9}' <= c && c <= '\u{d}') || c == ' ' || c == '\u{85}' || c == '\u{a0}' || c == '\u{1680}'
        || ('\u{2000}' <= c && c <= '\u{200a}') || c == '\u{2028}' || c == '\u{2029}' || c
        == '\u{202f}' || c == '\u{205f}' || c == '\u{3000}'
}

/// The number of leading characters of `s` that are not `sep`.
pub open spec fn until(s: Seq<char>, sep: char) -> nat
    decreases s.len(),
{
    if s.len() == 0 || s[0] == sep {
        0
    } else {
        1 + until(s.skip(1), sep)
    }
}

/// The pieces of `s` between occurrences of `sep`.
pub open spec fn split(s: Seq<char>, sep: char) -> Seq<Seq<char>>
    decreases s.len(),
{
    let n = until(s, sep);
    if n >= s.len() {
        seq![s]
    } else {
        seq![s.take(n as int)] + split(s.skip(n as int + 1), sep)
    }
}

/// The first `n` characters hold no `sep` and the next one, if any, is one.
pub proof fn lemma_until(s: Seq<char>, sep: char, n: nat)
    requires
        n <= s.len(),
        forall|i: int| 0 <= i < n ==> s[i] != sep,
        n == s.len() || s[n as int] == sep,
    ensures
        until(s, sep) == n,
    decreases n,
{
    if n > 0 {
        lemma_until(s.skip(1), sep, (n - 1) as nat);
    }
}

/// What `until` counts: characters other than `sep`, up to the first `sep`.
pub proof fn lemma_until_is(s: Seq<char>, sep: char)
    ensures
        until(s, sep) <= s.len(),
        forall|i: int| 0 <= i < until(s, sep) ==> s[i] != sep,
        until(s, sep) < s.len() ==> s[until(s, sep) as int] == sep,
        until(s, sep) < s.len() <==> s.contains(sep),
    decreases s.len(),
{
    if s.len() > 0 && s[0] != sep {
        let t = s.skip(1);
        lemma_until_is(t, sep);
        assert forall|i: int| 0 <= i < until(s, sep) implies s[i] != sep by {
            if i > 0 {
                assert(s[i] == t[i - 1]);
            }
        }
        if s.contains(sep) {
            let i = choose|i: int| 0 <= i < s.len() && s[i] == sep;
            assert(t[i - 1] == sep);
        }
    }
}

/// The index of the first `sep` in `v`, or its length.
pub fn find_char(v: &Vec<char>, sep: char) -> (n: usize)
    ensures
        n == until(v@, sep),
        n <= v@.len(),
{
    let mut i: usize = 0;
    while i < v.len() && v[i] != sep
        invariant
            i <= v@.len(),
            forall|k: int| 0 <= k < i ==> v@[k] != sep,
        decreases v@.len() - i,
    {
        i += 1;
    }
    proof {
        lemma_until(v@, sep, i as nat);
    }
    i
}

/// The pieces of `v` between occurrences of `sep`.
pub fn split_chars(v: &Vec<char>, sep: char) -> (r: Vec<String>)
    ensures
        texts(r@) == split(v@, sep),
{
    let mut out: Vec<String> = Vec::new();
    let mut start: usize = 0;
    let mut i: usize = 0;
    assert(v@.skip(0) =~= v@);
    assert(texts(out@) + split(v@, sep) =~= split(v@, sep));
    while i < v.len()
        invariant
            start <= i <= v@.len(),
            forall|k: int| start <= k < i ==> v@[k] != sep,
            texts(out@) + split(v@.skip(start as int), sep) == split(v@, sep),
        decreases v@.len() - i,
    {
        if v[i] == sep {
            let piece = string_of(v, start, i);
            proof {
                let rest = v@.skip(start as int);
                lemma_until(rest, sep, (i - start) as nat);
                assert(rest.skip(i - start + 1) =~= v@.skip(i + 1));
                assert(rest.take(i - start) =~= piece@);
                assert(texts(out@.push(piece)) =~= texts(out@).push(piece@));
                assert(texts(out@) + split(rest, sep) =~= texts(out@).push(piece@) + split(
                    v@.skip(i + 1),
                    sep,
                ));
            }
            out.push(piece);
            start = i + 1;
        }
        i += 1;
    }
    let piece = string_of(v, start, i);
    proof {
        let rest = v@.skip(start as int);
        lemma_until(rest, sep, rest.len());
        assert(rest =~= piece@);
        assert(texts(out@.push(piece)) =~= texts(out@) + split(rest, sep));
    }
    out.push(piece);
    out
}

/// `s` without its leading white space.
pub open spec fn trim_start(s: Seq<char>) -> Seq<char>
    decreases s.len(),
{
    if s.len() > 0 && is_space(s[0]) {
        trim_start(s.skip(1))
    } else {
        s
    }
}

/// `s` without its trailing white space.
pub open spec fn trim_end(s: Seq<char>) -> Seq<char>
    decreases s.len(),
{
    if s.len() > 0 && is_space(s.last()) {
        trim_end(s.drop_last())
    } else {
        s
    }
}

/// `s` without white space at either end.
pub open spec fn trimmed(s: Seq<char>) -> Seq<char> {
    trim_end(trim_start(s))
}

/// The characters `v[from..to]` without white space at either end.
pub fn trim_range(v: &Vec<char>, from: usize, to: usize) -> (r: String)
    requires
        from <= to <= v@.len(),
    ensures
        r@ == trimmed(v@.subrange(from as int, to as int)),
{
    let mut a: usize = from;
    while a < to && space(v[a])
        invariant
            from <= a <= to <= v@.len(),
            trim_start(v@.subrange(from as int, to as int)) == trim_start(
                v@.subrange(a as int, to as int),
            ),
        decreases to - a,
    {
        assert(v@.subrange(a as int, to as int).skip(1) =~= v@.subrange(a + 1, to as int));
        a += 1;
    }
    let mut b: usize = to;
    while b > a && space(v[b - 1])
        invariant
            from <= a <= b <= to <= v@.len(),
            trim_end(v@.subrange(a as int, to as int)) == trim_end(
                v@.subrange(a as int, b as int),
            ),
        decreases b,
    {
        assert(v@.subrange(a as int, b as int).drop_last() =~= v@.subrange(a as int, b - 1));
        b -= 1;
    }
    string_of(v, a, b)
}

/// `s` without white space at either end.
pub fn trim(s: &str) -> (r: String)
    ensures
        r@ == trimmed(s@),
{
    let v = chars_of(s);
    assert(v@.subrange(0, v@.len() as int) =~= v@);
    trim_range(&v, 0, v.len())
}

/// The length of the leading run of characters that are not white space.
pub open spec fn word_len(s: Seq<char>) -> nat
    decreases s.len(),
{
    if s.len() == 0 || is_space(s[0]) {
        0
    } else {
        1 + word_len(s.skip(1))
    }
}

/// A word is no longer than the text it begins.
pub proof fn lemma_word_len_bound(s: Seq<char>)
    ensures
        word_len(s) <= s.len(),
    decreases s.len(),
{
    if s.len() > 0 && !is_space(s[0]) {
        lemma_word_len_bound(s.skip(1));
    }
}

/// The maximal runs of characters of `s` that are not white space.
pub open spec fn words(s: Seq<char>) -> Seq<Seq<char>>
    decreases s.len(),
{
    if s.len() == 0 {
        seq![]
    } else if is_space(s[0]) {
        words(s.skip(1))
    } else {
        let n = word_len(s);
        proof {
            lemma_word_len_bound(s);
        }
        seq![s.take(n as int)] + words(s.skip(n as int))
    }
}

proof fn lemma_word_len(s: Seq<char>, n: nat)
    requires
        n <= s.len(),
        forall|i: int| 0 <= i < n ==> !is_space(s[i]),
        n == s.len() || is_space(s[n as int]),
    ensures
        word_len(s) == n,
    decreases n,
{
    if n > 0 {
        lemma_word_len(s.skip(1), (n - 1) as nat);
    }
}

/// The maximal runs of `v[from..]` that are not white space.
pub fn words_from(v: &Vec<char>, from: usize) -> (r: Vec<String>)
    requires
        from <= v@.len(),
    ensures
        texts(r@) == words(v@.skip(from as int)),
{
    let mut out: Vec<String> = Vec::new();
    let mut i: usize = from;
    assert(texts(out@) + words(v@.skip(i as int)) =~= words(v@.skip(i as int)));
    while i < v.len()
        invariant
            from <= i <= v@.len(),
            texts(out@) + words(v@.skip(i as int)) == words(v@.skip(from as int)),
        decreases v@.len() - i,
    {
        let ghost rest = v@.skip(i as int);
        if space(v[i]) {
            assert(rest.skip(1) =~= v@.skip(i + 1));
            i += 1;
        } else {
            let mut j: usize = i;
            while j < v.len() && !space(v[j])
                invariant
                    i <= j <= v@.len(),
                    forall|k: int| i <= k < j ==> !is_space(v@[k]),
                decreases v@.len() - j,
            {
                j += 1;
            }
            let word = string_of(v, i, j);
            proof {
                lemma_word_len(rest, (j - i) as nat);
                assert(!is_space(rest[0]));
                assert(j > i);
                assert(rest.take(j - i) =~= word@);
                assert(rest.skip(j - i) =~= v@.skip(j as int));
                assert(texts(out@.push(word)) =~= texts(out@).push(word@));
                assert(texts(out@) + words(rest) =~= texts(out@).push(word@) + words(
                    v@.skip(j as int),
                ));
            }
            out.push(word);
            i = j;
        }
    }
    assert(words(v@.skip(i as int)) =~= seq![]);
    assert(texts(out@) =~= texts(out@) + words(v@.skip(i as int)));
    out
}

/// Whether `s` ends with `suffix`.
pub open spec fn ends_in(s: Seq<char>, suffix: Seq<char>) -> bool {
    s.len() >= suffix.len() && s.skip(s.len() - suffix.len()) == suffix
}

/// Whether `s` begins with `prefix`.
pub open spec fn begins(s: Seq<char>, prefix: Seq<char>) -> bool {
    s.len() >= prefix.len() && s.take(prefix.len() as int) == prefix
}

/// Whether `v[..to]` ends with `suffix`.
pub fn ends_with_at(v: &Vec<char>, to: usize, suffix: &str) -> (r: bool)
    requires
        to <= v@.len(),
    ensures
        r == ends_in(v@.take(to as int), suffix@),
{
    let w = chars_of(suffix);
    if w.len() > to {
        return false;
    }
    let base: usize = to - w.len();
    let ghost tail = v@.take(to as int).skip(base as int);
    let mut i: usize = 0;
    while i < w.len()
        invariant
            i <= w@.len(),
            base + w@.len() == to,
            to <= v@.len(),
            w@ == suffix@,
            tail == v@.take(to as int).skip(base as int),
            forall|k: int| 0 <= k < i ==> tail[k] == w@[k],
        decreases w@.len() - i,
    {
        assert(tail[i as int] == v@[base + i]);
        if v[base + i] != w[i] {
            return false;
        }
        i += 1;
    }
    assert(tail =~= suffix@);
    true
}

/// Whether `s` begins with `prefix`.
pub fn starts_with(s: &str, prefix: &str) -> (r: bool)
    ensures
        r == begins(s@, prefix@),
{
    let v = chars_of(s);
    let w = chars_of(prefix);
    if w.len() > v.len() {
        return false;
    }
    let ghost head = s@.take(w@.len() as int);
    let mut i: usize = 0;
    while i < w.len()
        invariant
            i <= w@.len() <= v@.len(),
            v@ == s@,
            w@ == prefix@,
            head == s@.take(w@.len() as int),
            forall|k: int| 0 <= k < i ==> head[k] == w@[k],
        decreases w@.len() - i,
    {
        assert(head[i as int] == v@[i as int]);
        if v[i] != w[i] {
            return false;
        }
        i += 1;
    }
    assert(head =~= prefix@);
    true
}

/// Whether `s` ends with `suffix`.
pub fn ends_with(s: &str, suffix: &str) -> (r: bool)
    ensures
        r == ends_in(s@, suffix@),
{
    let v = chars_of(s);
    assert(v@.take(v@.len() as int) =~= v@);
    ends_with_at(&v, v.len(), suffix)
}

/// The character for a digit below 16, in lower case.
pub open spec fn digit_char(n: nat) -> char {
    if n < 10 {
        (48 + n) as char
    } else {
        (87 + n) as char
    }
}

/// `n` in the given base, without leading zeros.
pub open spec fn number(n: nat, base: nat) -> Seq<char>
    decreases n,
{
    if n < base || base < 2 {
        seq![digit_char(n)]
    } else {
        proof {
            assert(n / base < n) by (nonlinear_arith)
                requires
                    n >= base,
                    base >= 2,
            ;
        }
        number(n / base, base).push(digit_char(n % base))
    }
}

/// `n` in decimal.
pub open spec fn dec(n: nat) -> Seq<char> {
    number(n, 10)
}

/// `n` in decimal, with a minus sign where it is negative.
pub open spec fn signed_dec(n: int) -> Seq<char> {
    if n < 0 {
        seq!['-'] + dec((-n) as nat)
    } else {
        dec(n as nat)
    }
}

/// The digit for a number below 16.
fn digit_of(d: u8) -> (c: char)
    requires
        d < 16,
    ensures
        c == digit_char(d as nat),
{
    if d < 10 {
        (48 + d) as char
    } else {
        (87 + d) as char
    }
}

/// Appends the digit for a number below 16.
pub fn push_digit(s: &mut String, d: u8)
    requires
        d < 16,
    ensures
        final(s)@ == old(s)@.push(digit_char(d as nat)),
{
    s.push(digit_of(d));
}

/// Appends `n` in the given base, without leading zeros.
fn push_number(s: &mut String, n: u128, base: u128)
    requires
        2 <= base <= 16,
    ensures
        final(s)@ == old(s)@ + number(n as nat, base as nat),
    decreases n,
{
    let ghost start = s@;
    if n >= base {
        proof {
            assert(n / base < n) by (nonlinear_arith)
                requires
                    n >= base,
                    base >= 2,
            ;
        }
        push_number(s, n / base, base);
    }
    let d: u128 = n % base;
    proof {
        vstd::arithmetic::div_mod::lemma_mod_bound(n as int, base as int);
        if n < base {
            vstd::arithmetic::div_mod::lemma_small_mod(n as nat, base as nat);
        }
    }
    s.push(digit_of(d as u8));
    assert(s@ =~= start + number(n as nat, base as nat));
}

/// Appends `n` in decimal.
pub fn push_dec(s: &mut String, n: u64)
    ensures
        final(s)@ == old(s)@ + dec(n as nat),
{
    push_number(s, n as u128, 10)
}

/// Appends `n` in decimal.
pub fn push_big_dec(s: &mut String, n: u128)
    ensures
        final(s)@ == old(s)@ + dec(n as nat),
{
    push_number(s, n, 10)
}

/// Appends `n` in hexadecimal, in lower case and without leading zeros.
pub fn push_hex(s: &mut String, n: u64)
    ensures
        final(s)@ == old(s)@ + number(n as nat, 16),
{
    push_number(s, n as u128, 16)
}

/// `n` in decimal.
pub fn decimal(n: u64) -> (r: String)
    ensures
        r@ == dec(n as nat),
{
    let mut s = String::new();
    push_dec(&mut s, n);
    assert(s@ =~= dec(n as nat));
    s
}

/// `n` in decimal, with a minus sign where it is negative.
pub fn signed_decimal(n: i64) -> (r: String)
    ensures
        r@ == signed_dec(n as int),
{
    let mut s = String::new();
    if n < 0 {
        s.push('-');
        let m: u64 = (-(n + 1)) as u64 + 1;
        push_dec(&mut s, m);
        assert(s@ =~= signed_dec(n as int));
    } else {
        push_dec(&mut s, n as u64);
        assert(s@ =~= signed_dec(n as int));
    }
    s
}

/// `true` or `false`.
pub open spec fn flag(b: bool) -> Seq<char> {
    if b {
        "true"@
    } else {
        "false"@
    }
}

/// `true` or `false`.
pub fn flag_text(b: bool) -> (r: String)
    ensures
        r@ == flag(b),
{
    if b {
        "true".to_owned()
    } else {
        "false".to_owned()
    }
}

/// The texts with `sep` between them.
pub open spec fn join(parts: Seq<Seq<char>>, sep: Seq<char>) -> Seq<char>
    decreases parts.len(),
{
    if parts.len() == 0 {
        Seq::empty()
    } else if parts.len() == 1 {
        parts[0]
    } else {
        join(parts.drop_last(), sep) + sep + parts.last()
    }
}

/// The strings with `sep` between them.
pub fn join_strings(parts: &Vec<String>, sep: &str) -> (r: String)
    ensures
        r@ == join(texts(parts@), sep@),
{
    let mut s = String::new();
    let mut i: usize = 0;
    let ghost all = texts(parts@);
    while i < parts.len()
        invariant
            i <= parts@.len(),
            all == texts(parts@),
            s@ == join(all.take(i as int), sep@),
        decreases parts@.len() - i,
    {
        if i > 0 {
            s.append(sep);
        }
        s.append(parts[i].as_str());
        proof {
            assert(all.take(i + 1).drop_last() =~= all.take(i as int));
            assert(all.take(i + 1).last() == parts@[i as int]@);
            if i == 0 {
                assert(all.take(1)[0] == parts@[0]@);
                assert(s@ =~= parts@[0]@);
            }
        }
        i += 1;
    }
    assert(all.take(all.len() as int) =~= all);
    s
}

/// A copy of a list of strings.
pub fn copy_strings(v: &Vec<String>) -> (r: Vec<String>)
    ensures
        r@ == v@,
{
    let mut out: Vec<String> = Vec::new();
    let mut i: usize = 0;
    while i < v.len()
        invariant
            i <= v@.len(),
            out@ == v@.take(i as int),
        decreases v@.len() - i,
    {
        out.push(v[i].clone());
        i += 1;
        assert(v@.take(i as int) =~= v@.take(i - 1).push(v@[i - 1]));
    }
    assert(v@.take(i as int) =~= v@);
    out
}

/// A text that is put behind others is added to their set.
pub proof fn lemma_to_set_push(s: Seq<Seq<char>>, x: Seq<char>)
    ensures
        s.push(x).to_set() == s.to_set().insert(x),
{
    let t = s.push(x);
    assert forall|y: Seq<char>| t.to_set().contains(y) == s.to_set().insert(x).contains(y) by {
        if s.contains(y) {
            let i = choose|i: int| 0 <= i < s.len() && s[i] == y;
            assert(t[i] == y);
        }
        if y == x {
            assert(t[s.len() as int] == y);
        }
    }
    assert(t.to_set() =~= s.to_set().insert(x));
}

/// Whether all characters are decimal digits.
pub open spec fn all_digits(s: Seq<char>) -> bool {
    forall|i: int| 0 <= i < s.len() ==> '0' <= #[trigger] s[i] <= '9'
}

/// The number that a row of decimal digits writes.
pub open spec fn digits_value(s: Seq<char>) -> nat
    decreases s.len(),
{
    if s.len() == 0 {
        0
    } else {
        digits_value(s.drop_last()) * 10 + (s.last() as nat - 48) as nat
    }
}

/// The digits of a number: what stands behind an optional `+`.
pub open spec fn digits_of(s: Seq<char>) -> Seq<char> {
    if s.len() > 0 && s[0] == '+' {
        s.skip(1)
    } else {
        s
    }
}

/// The unsigned 64-bit number that a text writes, if it writes one.
pub open spec fn u64_of(s: Seq<char>) -> Option<u64> {
    let t = digits_of(s);
    if t.len() > 0 && all_digits(t) && digits_value(t) <= u64::MAX {
        Some(digits_value(t) as u64)
    } else {
        None
    }
}

proof fn lemma_digits_value_grows(s: Seq<char>, n: int)
    requires
        0 <= n <= s.len(),
    ensures
        digits_value(s.take(n)) <= digits_value(s),
    decreases s.len() - n,
{
    if n < s.len() {
        assert(s.take(n + 1).drop_last() =~= s.take(n));
        lemma_digits_value_grows(s, n + 1);
    } else {
        assert(s.take(n) =~= s);
    }
}

/// The unsigned 64-bit number that a text writes, if it writes one.
pub fn parse_u64(s: &str) -> (r: Option<u64>)
    ensures
        r == u64_of(s@),
{
    let v = chars_of(s);
    let from: usize = if v.len() > 0 && v[0] == '+' {
        1
    } else {
        0
    };
    let ghost t = digits_of(s@);
    assert(t =~= v@.skip(from as int));
    if from == v.len() {
        return None;
    }
    let mut value: u64 = 0;
    let mut i: usize = from;
    while i < v.len()
        invariant
            from <= i <= v@.len(),
            t == v@.skip(from as int),
            t == digits_of(s@),
            value == digits_value(t.take(i - from)),
            forall|k: int| 0 <= k < i - from ==> '0' <= #[trigger] t[k] <= '9',
        decreases v@.len() - i,
    {
        let c = v[i];
        assert(t[i - from] == c);
        if c < '0' || '9' < c {
            return None;
        }
        let d: u64 = (c as u32 - 48) as u64;
        proof {
            assert(t.take(i - from + 1).drop_last() =~= t.take(i - from));
            lemma_digits_value_grows(t, i - from + 1);
        }
        if value > (u64::MAX - d) / 10 {
            return None;
        }
        value = value * 10 + d;
        i += 1;
    }
    assert(t.take(i - from) =~= t);
    Some(value)
}

/// Nothing but white space.
pub open spec fn is_blank(s: Seq<char>) -> bool {
    forall|i: int| 0 <= i < s.len() ==> is_space(#[trigger] s[i])
}

/// A word: something, without white space.
pub open spec fn is_word(s: Seq<char>) -> bool {
    s.len() > 0 && forall|i: int| 0 <= i < s.len() ==> !is_space(#[trigger] s[i])
}

/// The words, each behind its gap, and then the tail.
pub open spec fn spread(
    gaps: Seq<Seq<char>>,
    all: Seq<Seq<char>>,
    tail: Seq<char>,
) -> Seq<char>
    decreases all.len(),
{
    if all.len() == 0 {
        tail
    } else {
        gaps[0] + all[0] + spread(gaps.skip(1), all.skip(1), tail)
    }
}

proof fn lemma_words_behind_a_gap(gap: Seq<char>, s: Seq<char>)
    requires
        is_blank(gap),
    ensures
        words(gap + s) == words(s),
    decreases gap.len(),
{
    if gap.len() > 0 {
        let rest = gap.skip(1);
        assert forall|i: int| 0 <= i < rest.len() implies is_space(#[trigger] rest[i]) by {
            assert(rest[i] == gap[i + 1]);
        }
        lemma_words_behind_a_gap(rest, s);
        assert((gap + s).skip(1) =~= rest + s);
        assert((gap + s)[0] == gap[0]);
    } else {
        assert(gap + s =~= s);
    }
}

proof fn lemma_words_from_a_word(w: Seq<char>, s: Seq<char>)
    requires
        is_word(w),
        s.len() == 0 || is_space(s[0]),
    ensures
        words(w + s) == seq![w] + words(s),
{
    let t = w + s;
    assert forall|i: int| 0 <= i < w.len() implies !is_space(t[i]) by {
        assert(t[i] == w[i]);
    }
    if s.len() > 0 {
        assert(t[w.len() as int] == s[0]);
    }
    lemma_word_len(t, w.len());
    assert(t[0] == w[0]);
    assert(t.take(w.len() as int) =~= w);
    assert(t.skip(w.len() as int) =~= s);
}

/// Words with white space between them are read back as those words: all of
/// them, in their order, and nothing else. White space before the first and
/// behind the last does not matter.
pub proof fn words_are_read_back(gaps: Seq<Seq<char>>, all: Seq<Seq<char>>, tail: Seq<char>)
    requires
        gaps.len() == all.len(),
        is_blank(tail),
        forall|i: int| 0 <= i < all.len() ==> is_word(#[trigger] all[i]),
        forall|i: int| 0 <= i < gaps.len() ==> is_blank(#[trigger] gaps[i]),
        forall|i: int| 0 < i < gaps.len() ==> (#[trigger] gaps[i]).len() > 0,
    ensures
        words(spread(gaps, all, tail)) == all,
    decreases all.len(),
{
    if all.len() == 0 {
        lemma_words_behind_a_gap(tail, Seq::empty());
        assert(tail + Seq::<char>::empty() =~= tail);
        assert(words(Seq::empty()) =~= seq![]);
        assert(all =~= seq![]);
    } else {
        let g = gaps.skip(1);
        let a = all.skip(1);
        assert forall|i: int| 0 <= i < a.len() implies is_word(#[trigger] a[i]) by {
            assert(a[i] == all[i + 1]);
        }
        assert forall|i: int| 0 <= i < g.len() implies is_blank(#[trigger] g[i]) by {
            assert(g[i] == gaps[i + 1]);
        }
        assert forall|i: int| 0 <= i < g.len() implies (#[trigger] g[i]).len() > 0 by {
            assert(g[i] == gaps[i + 1]);
        }
        words_are_read_back(g, a, tail);
        let rest = spread(g, a, tail);
        if a.len() > 0 {
            assert(g[0].len() > 0);
            assert(rest[0] == g[0][0]);
            assert(is_space(g[0][0]));
        }
        lemma_words_from_a_word(all[0], rest);
        lemma_words_behind_a_gap(gaps[0], all[0] + rest);
        assert(gaps[0] + all[0] + rest =~= gaps[0] + (all[0] + rest));
        assert(seq![all[0]] + a =~= all);
    }
}

pub proof fn lemma_join_from_the_front(parts: Seq<Seq<char>>, sep: Seq<char>)
    requires
        parts.len() >= 2,
    ensures
        join(parts, sep) == parts[0] + sep + join(parts.skip(1), sep),
    decreases parts.len(),
{
    let less = parts.drop_last();
    let rest = parts.skip(1);
    if parts.len() == 2 {
        assert(less[0] == parts[0]);
        assert(rest[0] == parts[1]);
        assert(join(less, sep) == parts[0]);
        assert(join(rest, sep) == parts[1]);
    } else {
        lemma_join_from_the_front(less, sep);
        assert(less.skip(1) =~= rest.drop_last());
        assert(less[0] == parts[0]);
        assert(rest.last() == parts.last());
        assert(join(parts, sep) =~= parts[0] + sep + (join(rest.drop_last(), sep) + sep
            + rest.last()));
    }
}

/// Splitting loses nothing: the pieces with the separator between them are the
/// text, and no piece holds the separator.
pub proof fn the_pieces_make_up_the_text(s: Seq<char>, sep: char)
    ensures
        split(s, sep).len() > 0,
        join(split(s, sep), seq![sep]) == s,
        forall|i: int| 0 <= i < split(s, sep).len() ==> !(#[trigger] split(s, sep)[i]).contains(sep),
    decreases s.len(),
{
    lemma_until_is(s, sep);
    let n = until(s, sep) as int;
    let all = split(s, sep);
    if n >= s.len() {
        assert(all =~= seq![s]);
        assert(all[0] == s);
    } else {
        let rest = s.skip(n + 1);
        the_pieces_make_up_the_text(rest, sep);
        assert(all.skip(1) =~= split(rest, sep));
        assert(all[0] == s.take(n));
        lemma_join_from_the_front(all, seq![sep]);
        assert(s.take(n) + seq![sep] + rest =~= s);
        assert forall|i: int| 0 <= i < all.len() implies !(#[trigger] all[i]).contains(sep) by {
            if i > 0 {
                assert(all[i] == split(rest, sep)[i - 1]);
            }
        }
    }
}

/// Pieces that do not hold the separator are what is found between the
/// separators again.
pub proof fn what_was_joined_is_split_again(parts: Seq<Seq<char>>, sep: char)
    requires
        parts.len() > 0,
        forall|i: int| 0 <= i < parts.len() ==> !(#[trigger] parts[i]).contains(sep),
    ensures
        split(join(parts, seq![sep]), sep) == parts,
    decreases parts.len(),
{
    let s = join(parts, seq![sep]);
    let first = parts[0];
    assert forall|i: int| 0 <= i < first.len() implies first[i] != sep by {
        assert(first.contains(first[i]));
    }
    if parts.len() == 1 {
        lemma_until(s, sep, s.len());
        assert(split(s, sep) =~= parts);
    } else {
        let rest = parts.skip(1);
        assert forall|i: int| 0 <= i < rest.len() implies !(#[trigger] rest[i]).contains(sep) by {
            assert(rest[i] == parts[i + 1]);
        }
        what_was_joined_is_split_again(rest, sep);
        lemma_join_from_the_front(parts, seq![sep]);
        let n = first.len() as int;
        assert(s[n] == sep);
        assert forall|i: int| 0 <= i < n implies s[i] != sep by {
            assert(s[i] == first[i]);
        }
        lemma_until(s, sep, n as nat);
        assert(s.take(n) =~= first);
        assert(s.skip(n + 1) =~= join(rest, seq![sep]));
        assert(seq![first] + rest =~= parts);
    }
}

proof fn lemma_trim_start(gap: Seq<char>, s: Seq<char>)
    requires
        is_blank(gap),
        s.len() > 0 ==> !is_space(s[0]),
    ensures
        trim_start(gap + s) == s,
    decreases gap.len(),
{
    if gap.len() > 0 {
        let rest = gap.skip(1);
        assert forall|i: int| 0 <= i < rest.len() implies is_space(#[trigger] rest[i]) by {
            assert(rest[i] == gap[i + 1]);
        }
        lemma_trim_start(rest, s);
        assert((gap + s)[0] == gap[0]);
        assert((gap + s).skip(1) =~= rest + s);
    } else {
        assert(gap + s =~= s);
    }
}

proof fn lemma_trim_end(s: Seq<char>, gap: Seq<char>)
    requires
        is_blank(gap),
        s.len() > 0 ==> !is_space(s.last()),
    ensures
        trim_end(s + gap) == s,
    decreases gap.len(),
{
    if gap.len() > 0 {
        let rest = gap.drop_last();
        assert forall|i: int| 0 <= i < rest.len() implies is_space(#[trigger] rest[i]) by {
            assert(rest[i] == gap[i]);
        }
        lemma_trim_end(s, rest);
        assert((s + gap).last() == gap.last());
        assert(is_space(gap[gap.len() - 1]));
        assert((s + gap).drop_last() =~= s + rest);
    } else {
        assert(s + gap =~= s);
    }
}

/// Trimming takes off the white space at both ends and leaves the rest as it
/// is.
pub proof fn trimming_takes_off_white_space_only(
    before: Seq<char>,
    s: Seq<char>,
    behind: Seq<char>,
)
    requires
        is_blank(before),
        is_blank(behind),
        s.len() > 0,
        !is_space(s[0]),
        !is_space(s.last()),
    ensures
        trimmed(before + s + behind) == s,
{
    lemma_trim_start(before, s + behind);
    assert(before + s + behind =~= before + (s + behind));
    assert((s + behind)[0] == s[0]);
    lemma_trim_end(s, behind);
}

pub proof fn lemma_dec_reads_back(n: nat)
    ensures
        dec(n).len() > 0,
        all_digits(dec(n)),
        digits_value(dec(n)) == n,
        n > 0 ==> dec(n)[0] != '0',
    decreases n,
{
    if n < 10 {
        let s = dec(n);
        assert(s =~= seq![digit_char(n)]);
        assert(s.drop_last() =~= Seq::empty());
        assert(digits_value(s.drop_last()) == 0);
        assert(s.last() == digit_char(n));
    } else {
        lemma_dec_reads_back(n / 10);
        let s = dec(n);
        let m = dec(n / 10);
        assert(s =~= m.push(digit_char(n % 10)));
        assert(s.drop_last() =~= m);
        assert(s.last() == digit_char(n % 10));
        assert forall|i: int| 0 <= i < s.len() implies '0' <= #[trigger] s[i] <= '9' by {
            if i < m.len() {
                assert(s[i] == m[i]);
            }
        }
        assert(s[0] == m[0]);
    }
}

/// A number that was written in decimal is read back as that number; it is
/// written with digits alone, and without a leading zero.
pub proof fn a_written_number_is_read_back(n: u64)
    ensures
        u64_of(dec(n as nat)) == Some(n),
        all_digits(dec(n as nat)),
        n > 0 ==> dec(n as nat)[0] != '0',
{
    lemma_dec_reads_back(n as nat);
    let s = dec(n as nat);
    assert('0' <= s[0] <= '9');
    assert(digits_of(s) == s);
}

/// What is not a number of decimal digits, behind at most one plus sign, is not
/// read as one.
pub proof fn only_digits_are_a_number(s: Seq<char>, i: int)
    requires
        0 <= i < s.len(),
        s[i] < '0' || '9' < s[i],
        i > 0 || s[0] != '+',
    ensures
        u64_of(s) is None,
{
    let t = digits_of(s);
    if s[0] == '+' {
        assert(t[i - 1] == s[i]);
    } else {
        assert(t[i] == s[i]);
    }
}

/// Blanks, tabs and line ends are white space; what can be seen is not.
pub proof fn what_is_seen_is_no_white_space(c: char)
    ensures
        c == ' ' || c == '\t' || c == '\n' || c == '\r' ==> is_space(c),
        '!' <= c <= '~' ==> !is_space(c),
{
}

/// Whether a part stands somewhere in a text.
pub open spec fn shows(text: Seq<char>, part: Seq<char>) -> bool {
    exists|a: Seq<char>, b: Seq<char>| text == #[trigger] (a + part + b)
}

/// A text that is put together from a beginning, a part and an end shows the
/// part.
pub proof fn lemma_shows(text: Seq<char>, a: Seq<char>, part: Seq<char>, b: Seq<char>)
    requires
        text =~= a + part + b,
    ensures
        shows(text, part),
{
    assert(text == a + part + b);
}

} // verus!
