//! Tells a filesystem by the magic bytes at the beginning of its device, and
//! reads its label and identifier from the superblock.

use crate::block::FsType;
use vstd::prelude::*;
use vstd::string::*;

verus! {

/// What a filesystem says of itself.
#[derive(Debug, PartialEq, Eq)]
pub struct FsProbe {
    pub fs_type: FsType,
    pub label: Option<String>,
    pub uuid: Option<String>,
}

/// Whether `buf` holds `pattern` at `at`.
pub open spec fn holds(buf: Seq<u8>, at: int, pattern: Seq<u8>) -> bool {
    at + pattern.len() <= buf.len() && buf.subrange(at, at + pattern.len()) == pattern
}

/// The superblock magic of ext2 to ext4.
pub open spec fn ext_magic() -> Seq<u8> {
    seq![0x53u8, 0xef]
}

/// `XFSB`.
pub open spec fn xfs_magic() -> Seq<u8> {
    seq![0x58u8, 0x46, 0x53, 0x42]
}

/// `SWAPSPACE2`.
pub open spec fn swap_magic() -> Seq<u8> {
    seq![0x53u8, 0x57, 0x41, 0x50, 0x53, 0x50, 0x41, 0x43, 0x45, 0x32]
}

/// The signature that ends a boot sector.
pub open spec fn boot_magic() -> Seq<u8> {
    seq![0x55u8, 0xaa]
}

/// `FAT32   `.
pub open spec fn fat32_name() -> Seq<u8> {
    seq![0x46u8, 0x41, 0x54, 0x33, 0x32, 0x20, 0x20, 0x20]
}

/// `FAT1`, which begins the name of the smaller FATs.
pub open spec fn fat1_name() -> Seq<u8> {
    seq![0x46u8, 0x41, 0x54, 0x31]
}

/// A FAT32 boot sector.
pub open spec fn is_fat32(buf: Seq<u8>) -> bool {
    holds(buf, 510, boot_magic()) && holds(buf, 82, fat32_name())
}

/// A FAT12 or FAT16 boot sector.
pub open spec fn is_fat1x(buf: Seq<u8>) -> bool {
    holds(buf, 510, boot_magic()) && holds(buf, 54, fat1_name())
}

/// The filesystem that the magic bytes tell.
pub open spec fn fs_of(buf: Seq<u8>) -> Option<FsType> {
    if holds(buf, 1080, ext_magic()) {
        Some(FsType::Ext4)
    } else if holds(buf, 0, xfs_magic()) {
        Some(FsType::Xfs)
    } else if holds(buf, 4086, swap_magic()) {
        Some(FsType::Swap)
    } else if is_fat32(buf) || is_fat1x(buf) {
        Some(FsType::Vfat)
    } else {
        None
    }
}

/// Where the label stands, and its width.
pub open spec fn label_at(buf: Seq<u8>) -> (int, int) {
    match fs_of(buf) {
        Some(FsType::Ext4) => (1144, 16),
        Some(FsType::Xfs) => (108, 12),
        Some(FsType::Swap) => (1052, 16),
        _ => if is_fat32(buf) {
            (71, 11)
        } else {
            (43, 11)
        },
    }
}

/// Where the identifier of a filesystem other than FAT stands: 16 bytes.
pub open spec fn uuid_at(buf: Seq<u8>) -> int {
    match fs_of(buf) {
        Some(FsType::Ext4) => 1128,
        Some(FsType::Xfs) => 32,
        _ => 1036,
    }
}

/// Where the serial number of a FAT stands: 4 bytes, lowest first.
pub open spec fn serial_at(buf: Seq<u8>) -> int {
    if is_fat32(buf) {
        67
    } else {
        39
    }
}

/// The number of bytes before the first zero byte.
pub open spec fn before_nul(s: Seq<u8>) -> nat
    decreases s.len(),
{
    if s.len() == 0 || s[0] == 0 {
        0
    } else {
        1 + before_nul(s.skip(1))
    }
}

/// `s` without the spaces at its end.
pub open spec fn without_spaces(s: Seq<u8>) -> Seq<u8>
    decreases s.len(),
{
    if s.len() > 0 && s.last() == 0x20 {
        without_spaces(s.drop_last())
    } else {
        s
    }
}

/// The text of a label field: the bytes before the first zero byte, without
/// the spaces at their end. There is none where nothing is left or where a
/// byte is not ASCII.
pub open spec fn label_text(s: Seq<u8>) -> Option<Seq<char>> {
    let t = without_spaces(s.take(before_nul(s) as int));
    if t.len() > 0 && (forall|i: int| 0 <= i < t.len() ==> t[i] < 128) {
        Some(Seq::new(t.len(), |i: int| t[i] as char))
    } else {
        None
    }
}

/// The label of the filesystem, where its field lies within `buf`.
pub open spec fn label_of(buf: Seq<u8>) -> Option<Seq<char>> {
    let (at, width) = label_at(buf);
    if at + width <= buf.len() {
        label_text(buf.subrange(at, at + width))
    } else {
        None
    }
}

/// A byte as two hexadecimal digits in lower case.
pub open spec fn hex_pair(b: u8) -> Seq<char> {
    seq![
        crate::text::digit_char((b / 16) as nat),
        crate::text::digit_char((b % 16) as nat),
    ]
}

/// Bytes in hexadecimal.
pub open spec fn hex_bytes(s: Seq<u8>) -> Seq<char>
    decreases s.len(),
{
    if s.len() == 0 {
        Seq::empty()
    } else {
        hex_bytes(s.drop_last()) + hex_pair(s.last())
    }
}

/// Sixteen bytes as a UUID.
pub open spec fn uuid_text(s: Seq<u8>) -> Seq<char> {
    hex_bytes(s.subrange(0, 4)) + "-"@ + hex_bytes(s.subrange(4, 6)) + "-"@ + hex_bytes(
        s.subrange(6, 8),
    ) + "-"@ + hex_bytes(s.subrange(8, 10)) + "-"@ + hex_bytes(s.subrange(10, 16))
}

/// The serial number of a FAT: four bytes, lowest first, in two halves.
pub open spec fn serial_text(s: Seq<u8>) -> Seq<char> {
    hex_bytes(seq![s[3], s[2]]) + "-"@ + hex_bytes(seq![s[1], s[0]])
}

/// The identifier of the filesystem, where its field lies within `buf`.
pub open spec fn uuid_of(buf: Seq<u8>) -> Option<Seq<char>> {
    if fs_of(buf) == Some(FsType::Vfat) {
        let at = serial_at(buf);
        if at + 4 <= buf.len() {
            Some(serial_text(buf.subrange(at, at + 4)))
        } else {
            None
        }
    } else {
        let at = uuid_at(buf);
        if at + 16 <= buf.len() {
            Some(uuid_text(buf.subrange(at, at + 16)))
        } else {
            None
        }
    }
}

fn found(buf: &[u8], at: usize, pattern: &[u8]) -> (r: bool)
    requires
        at + pattern@.len() <= usize::MAX,
    ensures
        r == holds(buf@, at as int, pattern@),
{
    if buf.len() < at + pattern.len() {
        return false;
    }
    let ghost part = buf@.subrange(at as int, at + pattern@.len());
    let mut i: usize = 0;
    while i < pattern.len()
        invariant
            i <= pattern@.len(),
            at + pattern@.len() <= buf@.len(),
            at + pattern@.len() <= usize::MAX,
            part == buf@.subrange(at as int, at + pattern@.len()),
            forall|k: int| 0 <= k < i ==> part[k] == pattern@[k],
        decreases pattern@.len() - i,
    {
        assert(part[i as int] == buf@[at + i]);
        if buf[at + i] != pattern[i] {
            return false;
        }
        i += 1;
    }
    assert(part =~= pattern@);
    true
}

fn read_label(buf: &[u8], at: usize, width: usize) -> (r: Option<String>)
    requires
        at + width <= 8192,
    ensures
        crate::resources::opt_text(r) == (if at + width <= buf@.len() {
            label_text(buf@.subrange(at as int, at + width))
        } else {
            None
        }),
{
    if buf.len() < at + width {
        return None;
    }
    let ghost s = buf@.subrange(at as int, at + width);
    let mut n: usize = 0;
    assert(s.skip(0) =~= s);
    while n < width && buf[at + n] != 0
        invariant
            n <= width,
            at + width <= buf@.len(),
            at + width <= 8192,
            s == buf@.subrange(at as int, at + width),
            before_nul(s) == n + before_nul(s.skip(n as int)),
        decreases width - n,
    {
        assert(s.skip(n as int)[0] == buf@[at + n]);
        assert(s.skip(n as int).skip(1) =~= s.skip(n + 1));
        n += 1;
    }
    assert(before_nul(s) == n) by {
        if n < width {
            assert(s.skip(n as int)[0] == buf@[at + n]);
        }
    }
    let ghost t = s.take(n as int);
    let mut m: usize = n;
    assert(t.take(m as int) =~= t);
    while m > 0 && buf[at + m - 1] == 0x20
        invariant
            m <= n <= width,
            at + width <= buf@.len(),
            at + width <= 8192,
            s == buf@.subrange(at as int, at + width),
            t == s.take(n as int),
            without_spaces(t) == without_spaces(t.take(m as int)),
        decreases m,
    {
        assert(t.take(m as int).last() == buf@[at + m - 1]);
        assert(t.take(m as int).drop_last() =~= t.take(m - 1));
        m -= 1;
    }
    let ghost u = t.take(m as int);
    assert(without_spaces(t) == u) by {
        if m > 0 {
            assert(u.last() == buf@[at + m - 1]);
        }
    }
    if m == 0 {
        return None;
    }
    let mut out = String::new();
    let mut i: usize = 0;
    while i < m
        invariant
            i <= m <= n <= width,
            at + width <= buf@.len(),
            at + width <= 8192,
            s == buf@.subrange(at as int, at + width),
            t == s.take(n as int),
            u == t.take(m as int),
            u.len() == m,
            before_nul(s) == n,
            without_spaces(t) == u,
            forall|k: int| 0 <= k < i ==> u[k] < 128,
            out@ == Seq::new(i as nat, |k: int| u[k] as char),
        decreases m - i,
    {
        let c: u8 = buf[at + i];
        assert(u[i as int] == c);
        if c >= 128 {
            return None;
        }
        out.push(c as char);
        i += 1;
        assert(out@ =~= Seq::new(i as nat, |k: int| u[k] as char));
    }
    assert(out@ =~= Seq::new(u.len(), |k: int| u[k] as char));
    Some(out)
}

fn push_byte(out: &mut String, b: u8)
    ensures
        final(out)@ == old(out)@ + hex_pair(b),
{
    let ghost start = out@;
    crate::text::push_digit(out, b / 16);
    crate::text::push_digit(out, b % 16);
    assert(out@ =~= start + hex_pair(b));
}

fn push_bytes(out: &mut String, buf: &[u8], from: usize, to: usize)
    requires
        from <= to <= buf@.len(),
    ensures
        final(out)@ == old(out)@ + hex_bytes(buf@.subrange(from as int, to as int)),
{
    let ghost start = out@;
    let mut i: usize = from;
    assert(out@ =~= start + hex_bytes(buf@.subrange(from as int, i as int)));
    while i < to
        invariant
            from <= i <= to <= buf@.len(),
            out@ == start + hex_bytes(buf@.subrange(from as int, i as int)),
        decreases to - i,
    {
        push_byte(out, buf[i]);
        proof {
            let whole = buf@.subrange(from as int, i + 1);
            assert(whole.drop_last() =~= buf@.subrange(from as int, i as int));
            assert(out@ =~= start + hex_bytes(whole));
        }
        i += 1;
    }
}

fn read_uuid(buf: &[u8], at: usize) -> (r: Option<String>)
    requires
        at + 16 <= 8192,
    ensures
        crate::resources::opt_text(r) == (if at + 16 <= buf@.len() {
            Some(uuid_text(buf@.subrange(at as int, at + 16)))
        } else {
            None
        }),
{
    if buf.len() < at + 16 {
        return None;
    }
    let mut out = String::new();
    push_bytes(&mut out, buf, at, at + 4);
    out.append("-");
    push_bytes(&mut out, buf, at + 4, at + 6);
    out.append("-");
    push_bytes(&mut out, buf, at + 6, at + 8);
    out.append("-");
    push_bytes(&mut out, buf, at + 8, at + 10);
    out.append("-");
    push_bytes(&mut out, buf, at + 10, at + 16);
    proof {
        let s = buf@.subrange(at as int, at + 16);
        assert(s.subrange(0, 4) =~= buf@.subrange(at as int, at + 4));
        assert(s.subrange(4, 6) =~= buf@.subrange(at + 4, at + 6));
        assert(s.subrange(6, 8) =~= buf@.subrange(at + 6, at + 8));
        assert(s.subrange(8, 10) =~= buf@.subrange(at + 8, at + 10));
        assert(s.subrange(10, 16) =~= buf@.subrange(at + 10, at + 16));
        assert(out@ =~= uuid_text(s));
    }
    Some(out)
}

fn read_serial(buf: &[u8], at: usize) -> (r: Option<String>)
    requires
        at + 4 <= 8192,
    ensures
        crate::resources::opt_text(r) == (if at + 4 <= buf@.len() {
            Some(serial_text(buf@.subrange(at as int, at + 4)))
        } else {
            None
        }),
{
    if buf.len() < at + 4 {
        return None;
    }
    let high: [u8; 2] = [buf[at + 3], buf[at + 2]];
    let low: [u8; 2] = [buf[at + 1], buf[at]];
    let mut out = String::new();
    push_bytes(&mut out, &high, 0, 2);
    out.append("-");
    push_bytes(&mut out, &low, 0, 2);
    proof {
        let s = buf@.subrange(at as int, at + 4);
        assert(high@.subrange(0, 2) =~= seq![s[3], s[2]]);
        assert(low@.subrange(0, 2) =~= seq![s[1], s[0]]);
        assert(out@ =~= serial_text(s));
    }
    Some(out)
}

/// Tells the filesystem whose device begins with `buf`.
pub fn probe_fs(buf: &[u8]) -> (r: Option<FsProbe>)
    ensures
        match r {
            Some(p) => {
                &&& fs_of(buf@) == Some(p.fs_type)
                &&& crate::resources::opt_text(p.label) == label_of(buf@)
                &&& crate::resources::opt_text(p.uuid) == uuid_of(buf@)
            },
            None => fs_of(buf@) is None,
        },
{
    let ext: [u8; 2] = [0x53, 0xef];
    let xfs: [u8; 4] = [0x58, 0x46, 0x53, 0x42];
    let swap: [u8; 10] = [0x53, 0x57, 0x41, 0x50, 0x53, 0x50, 0x41, 0x43, 0x45, 0x32];
    let boot: [u8; 2] = [0x55, 0xaa];
    let fat32: [u8; 8] = [0x46, 0x41, 0x54, 0x33, 0x32, 0x20, 0x20, 0x20];
    let fat1: [u8; 4] = [0x46, 0x41, 0x54, 0x31];
    proof {
        assert(ext@ =~= ext_magic());
        assert(xfs@ =~= xfs_magic());
        assert(swap@ =~= swap_magic());
        assert(boot@ =~= boot_magic());
        assert(fat32@ =~= fat32_name());
        assert(fat1@ =~= fat1_name());
    }
    if found(buf, 1080, &ext) {
        return Some(
            FsProbe {
                fs_type: FsType::Ext4,
                label: read_label(buf, 1144, 16),
                uuid: read_uuid(buf, 1128),
            },
        );
    }
    if found(buf, 0, &xfs) {
        return Some(
            FsProbe {
                fs_type: FsType::Xfs,
                label: read_label(buf, 108, 12),
                uuid: read_uuid(buf, 32),
            },
        );
    }
    if found(buf, 4086, &swap) {
        return Some(
            FsProbe {
                fs_type: FsType::Swap,
                label: read_label(buf, 1052, 16),
                uuid: read_uuid(buf, 1036),
            },
        );
    }
    if !found(buf, 510, &boot) {
        return None;
    }
    if found(buf, 82, &fat32) {
        return Some(
            FsProbe {
                fs_type: FsType::Vfat,
                label: read_label(buf, 71, 11),
                uuid: read_serial(buf, 67),
            },
        );
    }
    if found(buf, 54, &fat1) {
        return Some(
            FsProbe {
                fs_type: FsType::Vfat,
                label: read_label(buf, 43, 11),
                uuid: read_serial(buf, 39),
            },
        );
    }
    None
}

proof fn lemma_before_nul(s: Seq<u8>, n: nat)
    requires
        n <= s.len(),
        forall|i: int| 0 <= i < n ==> s[i] != 0,
        n == s.len() || s[n as int] == 0,
    ensures
        before_nul(s) == n,
    decreases n,
{
    if n > 0 {
        lemma_before_nul(s.skip(1), (n - 1) as nat);
    }
}

proof fn lemma_without_spaces(s: Seq<u8>, n: nat)
    requires
        s.len() > 0 ==> s.last() != 0x20,
    ensures
        without_spaces(s + Seq::new(n, |i: int| 0x20u8)) == s,
    decreases n,
{
    let t = s + Seq::new(n, |i: int| 0x20u8);
    if n > 0 {
        lemma_without_spaces(s, (n - 1) as nat);
        assert(t.last() == 0x20);
        assert(t.drop_last() =~= s + Seq::new((n - 1) as nat, |i: int| 0x20u8));
    } else {
        assert(t =~= s);
    }
}

/// A label is read as it was written, whether its field is filled up with spaces
/// or with zero bytes.
pub proof fn a_label_is_read_as_it_was_written(
    text: Seq<char>,
    spaces: nat,
    zeros: nat,
    field: Seq<u8>,
)
    requires
        text.len() > 0,
        forall|i: int| 0 <= i < text.len() ==> 0 < (#[trigger] text[i] as int) < 128,
        text.last() != ' ',
        field == Seq::new(text.len(), |i: int| text[i] as u8) + Seq::new(spaces, |i: int| 0x20u8)
            + Seq::new(zeros, |i: int| 0u8),
    ensures
        label_text(field) == Some(text),
{
    let body = Seq::new(text.len(), |i: int| text[i] as u8);
    let shown = body + Seq::new(spaces, |i: int| 0x20u8);
    let n = shown.len();
    assert forall|i: int| 0 <= i < n implies field[i] != 0 by {
        if i < text.len() {
            assert(field[i] == text[i] as u8);
            assert(0 < (text[i] as int) < 128);
        }
    }
    lemma_before_nul(field, n);
    assert(field.take(n as int) =~= shown);
    assert(0 < (text[text.len() - 1] as int) < 128);
    assert(body.last() == text.last() as u8);
    assert(body.last() != 0x20);
    lemma_without_spaces(body, spaces);
    assert forall|i: int| 0 <= i < body.len() implies body[i] < 128 by {
        assert(0 < (text[i] as int) < 128);
    }
    assert forall|i: int| 0 <= i < body.len() implies body[i] as char == text[i] by {
        assert(0 < (text[i] as int) < 128);
    }
    assert(Seq::new(body.len(), |i: int| body[i] as char) =~= text);
}

/// A filesystem is told by the bytes that its tools write: each has its magic at
/// its place, and its label and identifier at theirs.
pub proof fn a_filesystem_is_told_by_its_magic(buf: Seq<u8>)
    requires
        buf.len() >= 4096,
    ensures
        buf[1080] == 0x53 && buf[1081] == 0xef ==> fs_of(buf) == Some(FsType::Ext4) && label_of(buf)
            == label_text(buf.subrange(1144, 1160)) && uuid_of(buf) == Some(
            uuid_text(buf.subrange(1128, 1144)),
        ),
        !(buf[1080] == 0x53 && buf[1081] == 0xef) && buf[0] == 0x58 && buf[1] == 0x46 && buf[2]
            == 0x53 && buf[3] == 0x42 ==> fs_of(buf) == Some(FsType::Xfs) && label_of(buf)
            == label_text(buf.subrange(108, 120)) && uuid_of(buf) == Some(
            uuid_text(buf.subrange(32, 48)),
        ),
        fs_of(buf) == Some(FsType::Vfat) ==> buf[510] == 0x55 && buf[511] == 0xaa,
        fs_of(buf) == Some(FsType::Ext4) ==> buf[1080] == 0x53 && buf[1081] == 0xef,
        fs_of(buf) == Some(FsType::Xfs) ==> buf[0] == 0x58 && buf[1] == 0x46 && buf[2] == 0x53
            && buf[3] == 0x42,
        fs_of(buf) == Some(FsType::Swap) ==> buf[4086] == 0x53 && buf[4095] == 0x32,
{
    let e = buf.subrange(1080, 1082);
    let x = buf.subrange(0, 4);
    let s = buf.subrange(4086, 4096);
    let m = buf.subrange(510, 512);
    assert(e[0] == buf[1080] && e[1] == buf[1081]);
    assert(x[0] == buf[0] && x[1] == buf[1] && x[2] == buf[2] && x[3] == buf[3]);
    assert(s[0] == buf[4086] && s[9] == buf[4095]);
    assert(m[0] == buf[510] && m[1] == buf[511]);
    if buf[1080] == 0x53 && buf[1081] == 0xef {
        assert(e =~= ext_magic());
    }
    if buf[0] == 0x58 && buf[1] == 0x46 && buf[2] == 0x53 && buf[3] == 0x42 {
        assert(x =~= xfs_magic());
    }
}

/// A FAT is told by its boot sector, which names it; the smaller FATs have their
/// label and serial number elsewhere than FAT32.
pub proof fn a_fat_is_told_by_its_boot_sector(buf: Seq<u8>)
    requires
        buf.len() >= 512,
        buf[510] == 0x55,
        buf[511] == 0xaa,
        fs_of(buf) is None || fs_of(buf) == Some(FsType::Vfat),
    ensures
        buf.subrange(82, 90) == seq![0x46u8, 0x41, 0x54, 0x33, 0x32, 0x20, 0x20, 0x20] ==> fs_of(buf)
            == Some(FsType::Vfat) && label_of(buf) == label_text(buf.subrange(71, 82)) && uuid_of(
            buf,
        ) == Some(serial_text(buf.subrange(67, 71))),
        buf.subrange(82, 90) != seq![0x46u8, 0x41, 0x54, 0x33, 0x32, 0x20, 0x20, 0x20]
            && buf.subrange(54, 58) == seq![0x46u8, 0x41, 0x54, 0x31] ==> fs_of(buf) == Some(
            FsType::Vfat,
        ) && label_of(buf) == label_text(buf.subrange(43, 54)) && uuid_of(buf) == Some(
            serial_text(buf.subrange(39, 43)),
        ),
{
    let m = buf.subrange(510, 512);
    assert(m =~= boot_magic());
}

/// The value of a hexadecimal digit in lower case.
pub open spec fn hex_value(c: char) -> int {
    if c <= '9' {
        c as int - 48
    } else {
        c as int - 87
    }
}

/// Bytes are written as two digits each, in their order, and can be read back.
pub proof fn every_byte_is_two_digits(s: Seq<u8>, i: int)
    requires
        0 <= i < s.len(),
    ensures
        hex_bytes(s).len() == 2 * s.len(),
        hex_value(hex_bytes(s)[2 * i]) * 16 + hex_value(hex_bytes(s)[2 * i + 1]) == s[i],
    decreases s.len(),
{
    let less = s.drop_last();
    lemma_hex_len(less);
    lemma_hex_len(s);
    if i < less.len() {
        every_byte_is_two_digits(less, i);
        assert(hex_bytes(s)[2 * i] == hex_bytes(less)[2 * i]);
        assert(hex_bytes(s)[2 * i + 1] == hex_bytes(less)[2 * i + 1]);
    } else {
        let p = hex_pair(s.last());
        assert(hex_bytes(s)[2 * i] == p[0]);
        assert(hex_bytes(s)[2 * i + 1] == p[1]);
    }
}

proof fn lemma_hex_len(s: Seq<u8>)
    ensures
        hex_bytes(s).len() == 2 * s.len(),
    decreases s.len(),
{
    if s.len() > 0 {
        lemma_hex_len(s.drop_last());
    }
}

/// A UUID has 36 characters, with dashes at the places where they belong; a
/// serial number has its highest byte first.
pub proof fn an_identifier_has_its_form(s: Seq<u8>)
    requires
        s.len() == 16,
    ensures
        uuid_text(s).len() == 36,
        uuid_text(s)[8] == '-',
        uuid_text(s)[13] == '-',
        uuid_text(s)[18] == '-',
        uuid_text(s)[23] == '-',
        uuid_text(s).take(8) == hex_bytes(s.take(4)),
        uuid_text(s).skip(24) == hex_bytes(s.skip(10)),
        serial_text(s) == hex_bytes(seq![s[3], s[2]]) + "-"@ + hex_bytes(seq![s[1], s[0]]),
{
    reveal_strlit("-");
    lemma_hex_len(s.subrange(0, 4));
    lemma_hex_len(s.subrange(4, 6));
    lemma_hex_len(s.subrange(6, 8));
    lemma_hex_len(s.subrange(8, 10));
    lemma_hex_len(s.subrange(10, 16));
    assert(s.take(4) =~= s.subrange(0, 4));
    assert(s.skip(10) =~= s.subrange(10, 16));
    assert(uuid_text(s).take(8) =~= hex_bytes(s.take(4)));
    assert(uuid_text(s).skip(24) =~= hex_bytes(s.skip(10)));
}

/// Swap space is told by the signature at the end of its first page, and has its
/// label and identifier at their places.
pub proof fn swap_is_told_by_its_signature(buf: Seq<u8>)
    requires
        buf.len() >= 4096,
        buf.subrange(4086, 4096) == seq![
            0x53u8,
            0x57,
            0x41,
            0x50,
            0x53,
            0x50,
            0x41,
            0x43,
            0x45,
            0x32,
        ],
        !(buf[1080] == 0x53 && buf[1081] == 0xef),
        !(buf[0] == 0x58 && buf[1] == 0x46),
    ensures
        fs_of(buf) == Some(FsType::Swap),
        label_of(buf) == label_text(buf.subrange(1052, 1068)),
        uuid_of(buf) == Some(uuid_text(buf.subrange(1036, 1052))),
{
    let e = buf.subrange(1080, 1082);
    let x = buf.subrange(0, 4);
    assert(e[0] == buf[1080] && e[1] == buf[1081]);
    assert(x[0] == buf[0] && x[1] == buf[1]);
}

/// A field that is empty, or whose text is not ASCII, has no label.
pub proof fn an_unreadable_label_is_none(field: Seq<u8>, i: int)
    requires
        0 <= i < field.len(),
        field[i] >= 128,
        forall|k: int| 0 <= k < i ==> field[k] != 0,
    ensures
        label_text(field) is None,
{
    lemma_before_nul_passes(field, i + 1);
    let n = before_nul(field) as int;
    let s = field.take(n);
    lemma_spaces_end(s, i);
    let t = without_spaces(s);
    assert(t[i] == field[i]);
}

proof fn lemma_before_nul_passes(s: Seq<u8>, n: int)
    requires
        0 <= n <= s.len(),
        forall|k: int| 0 <= k < n ==> s[k] != 0,
    ensures
        n <= before_nul(s) <= s.len(),
    decreases s.len(),
{
    if n > 0 {
        lemma_before_nul_passes(s.skip(1), n - 1);
    } else if s.len() > 0 && s[0] != 0 {
        lemma_before_nul_passes(s.skip(1), 0);
    }
}

proof fn lemma_spaces_end(s: Seq<u8>, i: int)
    requires
        0 <= i < s.len(),
        s[i] != 0x20,
    ensures
        i < without_spaces(s).len() <= s.len(),
        without_spaces(s)[i] == s[i],
    decreases s.len(),
{
    if s.last() == 0x20 {
        assert(i < s.len() - 1);
        lemma_spaces_end(s.drop_last(), i);
    }
}

/// A field that begins with a zero byte, or has no bytes, has no label.
pub proof fn an_empty_label_is_none(field: Seq<u8>)
    requires
        field.len() == 0 || field[0] == 0,
    ensures
        label_text(field) is None,
{
    assert(before_nul(field) == 0);
    assert(field.take(0) =~= Seq::<u8>::empty());
    assert(without_spaces(field.take(0)).len() == 0);
}

} // verus!
