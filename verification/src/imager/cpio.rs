//! A writer for cpio "newc" (070701) archives: what an initramfs needs, that is
//! directories, regular files, symbolic links and character devices. An entry
//! is a 6-byte magic and 13 zero-padded fields of 8 hexadecimal digits, the
//! name with a trailing NUL, and the data; name and data are each padded to
//! 4 bytes. The entry `TRAILER!!!` ends the archive.
//!
//! Archives are reproducible: time, owner and group are 0 and inode numbers
//! count up from 1.

use vstd::prelude::*;
use vstd::string::*;
use vstd::utf8::*;

verus! {

pub const S_IFDIR: u32 = 0o040000;

pub const S_IFCHR: u32 = 0o020000;

pub const S_IFREG: u32 = 0o100000;

pub const S_IFLNK: u32 = 0o120000;

/// One entry of an archive.
#[verifier::ext_equal]
pub struct Entry {
    pub name: Seq<u8>,
    pub mode: nat,
    pub rmajor: nat,
    pub rminor: nat,
    pub data: Seq<u8>,
}

/// The upper-case hexadecimal digit for `n`.
pub open spec fn digit(n: nat) -> u8 {
    if n < 10 {
        (48 + n) as u8
    } else {
        (55 + n) as u8
    }
}

/// The lowest `width` hexadecimal digits of `n`, highest first.
pub open spec fn hex(n: nat, width: nat) -> Seq<u8>
    decreases width,
{
    if width == 0 {
        Seq::empty()
    } else {
        hex(n / 16, (width - 1) as nat).push(digit(n % 16))
    }
}

/// The number of bytes missing to the next multiple of 4.
pub open spec fn missing(len: nat) -> nat {
    ((4 - len % 4) % 4) as nat
}

/// `s` with zero bytes up to the next multiple of 4.
pub open spec fn padded(s: Seq<u8>) -> Seq<u8> {
    s + Seq::new(missing(s.len()), |i: int| 0u8)
}

/// The magic that begins every entry: `070701`.
pub open spec fn magic() -> Seq<u8> {
    seq![48u8, 55, 48, 55, 48, 49]
}

/// The 13 header fields of an entry, in their order.
pub open spec fn fields(ino: nat, e: Entry) -> Seq<nat> {
    seq![
        ino,
        e.mode,
        0,  // uid
        0,  // gid
        1,  // nlink
        0,  // mtime
        e.data.len(),
        0,  // devmajor
        0,  // devminor
        e.rmajor,
        e.rminor,
        e.name.len() + 1,
        0,  // check
    ]
}

/// Fields as text, 8 digits each.
pub open spec fn fields_text(f: Seq<nat>) -> Seq<u8>
    decreases f.len(),
{
    if f.len() == 0 {
        Seq::empty()
    } else {
        fields_text(f.drop_last()) + hex(f.last(), 8)
    }
}

/// The header, the name and the NUL behind it.
pub open spec fn head(ino: nat, e: Entry) -> Seq<u8> {
    magic() + fields_text(fields(ino, e)) + e.name + seq![0u8]
}

/// An entry as it stands in an archive.
pub open spec fn encode(ino: nat, e: Entry) -> Seq<u8> {
    padded(padded(head(ino, e)) + e.data)
}

/// Entries one after the other, with inode numbers from `ino` up.
pub open spec fn encode_all(ino: nat, entries: Seq<Entry>) -> Seq<u8>
    decreases entries.len(),
{
    if entries.len() == 0 {
        Seq::empty()
    } else {
        encode_all(ino, entries.drop_last()) + encode(
            (ino + entries.len() - 1) as nat,
            entries.last(),
        )
    }
}

/// The entry that ends an archive.
pub open spec fn trailer() -> Entry {
    Entry {
        name: encode_utf8("TRAILER!!!"@),
        mode: 0,
        rmajor: 0,
        rminor: 0,
        data: Seq::empty(),
    }
}

/// A directory.
pub open spec fn dir_entry(name: Seq<char>, perm: u32) -> Entry {
    Entry {
        name: encode_utf8(name),
        mode: (S_IFDIR | perm) as nat,
        rmajor: 0,
        rminor: 0,
        data: Seq::empty(),
    }
}

/// A regular file.
pub open spec fn file_entry(name: Seq<char>, perm: u32, data: Seq<u8>) -> Entry {
    Entry { name: encode_utf8(name), mode: (S_IFREG | perm) as nat, rmajor: 0, rminor: 0, data }
}

/// A symbolic link: its target is its data.
pub open spec fn symlink_entry(name: Seq<char>, target: Seq<char>) -> Entry {
    Entry {
        name: encode_utf8(name),
        mode: (S_IFLNK | 0o777u32) as nat,
        rmajor: 0,
        rminor: 0,
        data: encode_utf8(target),
    }
}

/// A character device.
pub open spec fn device_entry(name: Seq<char>, perm: u32, major: u32, minor: u32) -> Entry {
    Entry {
        name: encode_utf8(name),
        mode: (S_IFCHR | perm) as nat,
        rmajor: major as nat,
        rminor: minor as nat,
        data: Seq::empty(),
    }
}

/// An archive being written.
pub struct CpioWriter {
    buf: Vec<u8>,
    ino: u32,
}

fn push_hex(buf: &mut Vec<u8>, n: u128)
    ensures
        final(buf)@ == old(buf)@ + hex(n as nat, 8),
{
    let mut digits: [u8; 8] = [0; 8];
    let mut i: usize = 8;
    let mut left: u128 = n;
    while i > 0
        invariant
            i <= 8,
            hex(left as nat, i as nat) + digits@.subrange(i as int, 8) == hex(n as nat, 8),
        decreases i,
    {
        let d: u128 = left % 16;
        let c: u8 = if d < 10 {
            (48 + d) as u8
        } else {
            (55 + d) as u8
        };
        let ghost before = digits@.subrange(i as int, 8);
        digits[i - 1] = c;
        proof {
            assert(digits@.subrange(i - 1, 8) =~= seq![c] + before);
            assert(hex(left as nat, i as nat) + before =~= hex(left as nat / 16, (i - 1) as nat) + (
            seq![c] + before));
        }
        left = left / 16;
        i -= 1;
    }
    proof {
        assert(hex(left as nat, 0) + digits@.subrange(0, 8) =~= digits@);
    }
    buf.extend_from_slice(&digits);
}

impl CpioWriter {
    /// What has been written so far.
    pub closed spec fn bytes(self) -> Seq<u8> {
        self.buf@
    }

    /// The inode number of the next entry.
    pub closed spec fn next_ino(self) -> nat {
        self.ino as nat
    }

    /// Entries are written at multiples of 4.
    pub open spec fn wf(self) -> bool {
        self.bytes().len() % 4 == 0
    }

    /// An empty archive.
    pub fn new() -> (r: CpioWriter)
        ensures
            r.wf(),
            r.bytes() == Seq::<u8>::empty(),
            r.next_ino() == 1,
    {
        CpioWriter { buf: Vec::new(), ino: 1 }
    }

    /// Appends one entry. `rmajor` and `rminor` number a device (0 otherwise);
    /// `data` is the content of a file or the target of a link. The length
    /// fields hold the lowest 32 bits of the lengths.
    pub fn entry(&mut self, name: &str, mode: u32, rmajor: u32, rminor: u32, data: &[u8])
        requires
            old(self).wf(),
            old(self).next_ino() < u32::MAX,
        ensures
            final(self).wf(),
            final(self).next_ino() == old(self).next_ino() + 1,
            final(self).bytes() == old(self).bytes() + encode(
                old(self).next_ino(),
                (Entry {
                    name: encode_utf8(name@),
                    mode: mode as nat,
                    rmajor: rmajor as nat,
                    rminor: rminor as nat,
                    data: data@,
                }),
            ),
    {
        let ghost e = Entry {
            name: encode_utf8(name@),
            mode: mode as nat,
            rmajor: rmajor as nat,
            rminor: rminor as nat,
            data: data@,
        };
        let ghost start = self.buf@;
        let ghost all = fields(self.ino as nat, e);
        let ino = self.ino;
        self.ino = self.ino + 1;
        let namesize: u128 = name.as_bytes().len() as u128;
        let fields: [u128; 13] = [
            ino as u128,
            mode as u128,
            0,
            0,
            1,
            0,
            data.len() as u128,
            0,
            0,
            rmajor as u128,
            rminor as u128,
            namesize + 1,
            0,
        ];
        self.buf.extend_from_slice(&[48, 55, 48, 55, 48, 49]);
        assert(self.buf@ =~= start + magic());
        let mut i: usize = 0;
        while i < 13
            invariant
                i <= 13,
                self.ino == ino + 1,
                all.len() == 13,
                forall|k: int| 0 <= k < 13 ==> hex(#[trigger] fields@[k] as nat, 8) == hex(all[k], 8),
                self.buf@ == start + magic() + fields_text(all.take(i as int)),
            decreases 13 - i,
        {
            push_hex(&mut self.buf, fields[i]);
            proof {
                assert(all.take(i + 1).drop_last() =~= all.take(i as int));
                assert(start + magic() + fields_text(all.take(i + 1)) =~= start + magic()
                    + fields_text(all.take(i as int)) + hex(all[i as int], 8));
            }
            i += 1;
        }
        assert(all.take(13) =~= all);
        self.buf.extend_from_slice(name.as_bytes());
        self.buf.push(0);
        assert(self.buf@ =~= start + head(ino as nat, e));
        self.pad4();
        proof {
            lemma_padded_behind(start, head(ino as nat, e));
        }
        self.buf.extend_from_slice(data);
        assert(self.buf@ =~= start + (padded(head(ino as nat, e)) + data@));
        self.pad4();
        proof {
            lemma_padded_behind(start, padded(head(ino as nat, e)) + data@);
        }
    }

    /// Pads what has been written to a multiple of 4 bytes.
    fn pad4(&mut self)
        ensures
            final(self).buf@ == padded(old(self).buf@),
            final(self).ino == old(self).ino,
            final(self).buf@.len() % 4 == 0,
    {
        let ghost start = self.buf@;
        while self.buf.len() % 4 != 0
            invariant
                start.len() <= self.buf@.len() <= start.len() + missing(start.len()),
                self.buf@ == start + Seq::new((self.buf@.len() - start.len()) as nat, |i: int| 0u8),
                self.ino == old(self).ino,
            decreases start.len() + missing(start.len()) - self.buf@.len(),
        {
            self.buf.push(0);
            assert(self.buf@ =~= start + Seq::new(
                (self.buf@.len() - start.len()) as nat,
                |i: int| 0u8,
            ));
        }
        assert(self.buf@ =~= padded(start));
    }

    /// Appends a directory.
    pub fn dir(&mut self, name: &str, perm: u32)
        requires
            old(self).wf(),
            old(self).next_ino() < u32::MAX,
        ensures
            final(self).wf(),
            final(self).next_ino() == old(self).next_ino() + 1,
            final(self).bytes() == old(self).bytes() + encode(
                old(self).next_ino(),
                dir_entry(name@, perm),
            ),
    {
        self.entry(name, S_IFDIR | perm, 0, 0, &[]);
    }

    /// Appends a regular file.
    pub fn file(&mut self, name: &str, perm: u32, data: &[u8])
        requires
            old(self).wf(),
            old(self).next_ino() < u32::MAX,
        ensures
            final(self).wf(),
            final(self).next_ino() == old(self).next_ino() + 1,
            final(self).bytes() == old(self).bytes() + encode(
                old(self).next_ino(),
                file_entry(name@, perm, data@),
            ),
    {
        self.entry(name, S_IFREG | perm, 0, 0, data);
    }

    /// Appends a symbolic link, with the conventional permissions 0777.
    pub fn symlink(&mut self, name: &str, target: &str)
        requires
            old(self).wf(),
            old(self).next_ino() < u32::MAX,
        ensures
            final(self).wf(),
            final(self).next_ino() == old(self).next_ino() + 1,
            final(self).bytes() == old(self).bytes() + encode(
                old(self).next_ino(),
                symlink_entry(name@, target@),
            ),
    {
        self.entry(name, S_IFLNK | 0o777, 0, 0, target.as_bytes());
    }

    /// Appends a character device.
    pub fn char_device(&mut self, name: &str, perm: u32, major: u32, minor: u32)
        requires
            old(self).wf(),
            old(self).next_ino() < u32::MAX,
        ensures
            final(self).wf(),
            final(self).next_ino() == old(self).next_ino() + 1,
            final(self).bytes() == old(self).bytes() + encode(
                old(self).next_ino(),
                device_entry(name@, perm, major, minor),
            ),
    {
        self.entry(name, S_IFCHR | perm, major, minor, &[]);
    }

    /// Ends the archive and hands it out.
    pub fn finish(self) -> (r: Vec<u8>)
        requires
            self.wf(),
            self.next_ino() < u32::MAX,
        ensures
            r@ == self.bytes() + encode(self.next_ino(), trailer()),
            r@.len() % 4 == 0,
    {
        let mut w = self;
        w.entry("TRAILER!!!", 0, 0, 0, &[]);
        w.buf
    }
}

impl Default for CpioWriter {
    fn default() -> (r: CpioWriter)
        ensures
            r.wf(),
            r.bytes() == Seq::<u8>::empty(),
            r.next_ino() == 1,
    {
        CpioWriter::new()
    }
}

/// Behind a multiple of 4 bytes, padding the whole is padding what follows.
proof fn lemma_padded_behind(start: Seq<u8>, s: Seq<u8>)
    requires
        start.len() % 4 == 0,
    ensures
        padded(start + s) == start + padded(s),
        padded(s).len() % 4 == 0,
{
    assert((start + s).len() % 4 == s.len() % 4);
    assert(padded(start + s) =~= start + padded(s));
}

/// The value of a hexadecimal digit.
pub open spec fn digit_value(d: u8) -> nat {
    if d < 58 {
        (d - 48) as nat
    } else {
        (d - 55) as nat
    }
}

/// The number that a row of hexadecimal digits writes.
pub open spec fn unhex(s: Seq<u8>) -> nat
    decreases s.len(),
{
    if s.len() == 0 {
        0
    } else {
        unhex(s.drop_last()) * 16 + digit_value(s.last())
    }
}

/// The `k`-th header field of the entry that begins `b`.
pub open spec fn field(b: Seq<u8>, k: int) -> nat {
    unhex(b.subrange(6 + 8 * k, 14 + 8 * k))
}

/// How a reader takes the first entry off an archive: its inode number, the
/// entry and the rest.
pub open spec fn read_entry(b: Seq<u8>) -> Option<(nat, Entry, Seq<u8>)> {
    if b.len() < 110 || b.take(6) != magic() {
        None
    } else {
        let name_end = 110 + field(b, 11);
        let data = name_end + missing(name_end);
        let data_end = data + field(b, 6);
        let next = data_end + missing(data_end);
        if field(b, 11) == 0 || next > b.len() {
            None
        } else {
            Some(
                (
                    field(b, 0),
                    Entry {
                        name: b.subrange(110, name_end - 1),
                        mode: field(b, 1),
                        rmajor: field(b, 9),
                        rminor: field(b, 10),
                        data: b.subrange(data as int, data_end as int),
                    },
                    b.skip(next as int),
                ),
            )
        }
    }
}

/// How a reader takes an archive apart: its entries up to the trailer.
#[verifier::opaque]
pub open spec fn read_archive(b: Seq<u8>) -> Option<Seq<Entry>>
    decreases b.len(),
{
    match read_entry(b) {
        Some((_, e, rest)) => if e.name == trailer().name {
            Some(Seq::empty())
        } else if rest.len() < b.len() {
            match read_archive(rest) {
                Some(more) => Some(seq![e] + more),
                None => None,
            }
        } else {
            None
        },
        None => None,
    }
}

/// The numbers of an entry fit the 8 digits of a field.
pub open spec fn fits(ino: nat, e: Entry) -> bool {
    &&& ino < 0x1_0000_0000
    &&& e.mode < 0x1_0000_0000
    &&& e.rmajor < 0x1_0000_0000
    &&& e.rminor < 0x1_0000_0000
    &&& e.data.len() < 0x1_0000_0000
    &&& e.name.len() + 1 < 0x1_0000_0000
}

spec fn limit(width: nat) -> nat
    decreases width,
{
    if width == 0 {
        1
    } else {
        16 * limit((width - 1) as nat)
    }
}

proof fn lemma_unhex(n: nat, width: nat)
    requires
        n < limit(width),
    ensures
        hex(n, width).len() == width,
        unhex(hex(n, width)) == n,
    decreases width,
{
    if width > 0 {
        lemma_unhex(n / 16, (width - 1) as nat);
        assert(hex(n, width).drop_last() =~= hex(n / 16, (width - 1) as nat));
    }
}

proof fn lemma_hex_len(n: nat, width: nat)
    ensures
        hex(n, width).len() == width,
    decreases width,
{
    if width > 0 {
        lemma_hex_len(n / 16, (width - 1) as nat);
    }
}

proof fn lemma_fields_text(f: Seq<nat>, k: int)
    ensures
        fields_text(f).len() == 8 * f.len(),
        0 <= k < f.len() ==> fields_text(f).subrange(8 * k, 8 * k + 8) == hex(f[k], 8),
    decreases f.len(),
{
    if f.len() > 0 {
        let init = f.drop_last();
        lemma_fields_text(init, k);
        lemma_hex_len(f.last(), 8);
        if k == f.len() - 1 {
            assert(fields_text(f).subrange(8 * k, 8 * k + 8) =~= hex(f.last(), 8));
        } else if 0 <= k < f.len() - 1 {
            assert(fields_text(f).subrange(8 * k, 8 * k + 8) =~= fields_text(init).subrange(
                8 * k,
                8 * k + 8,
            ));
        }
    }
}

proof fn lemma_field(ino: nat, e: Entry, rest: Seq<u8>, k: int)
    requires
        fits(ino, e),
        0 <= k < 13,
    ensures
        field(encode(ino, e) + rest, k) == fields(ino, e)[k],
{
    let f = fields(ino, e);
    let b = encode(ino, e) + rest;
    lemma_fields_text(f, k);
    assert(b.subrange(6 + 8 * k, 14 + 8 * k) =~= fields_text(f).subrange(8 * k, 8 * k + 8));
    reveal_with_fuel(limit, 9);
    lemma_unhex(f[k], 8);
}

/// Reading the first entry of what was written gives it back, whatever follows.
pub proof fn reading_gives_back_the_entry(ino: nat, e: Entry, rest: Seq<u8>)
    requires
        fits(ino, e),
    ensures
        read_entry(encode(ino, e) + rest) == Some((ino, e, rest)),
{
    let f = fields(ino, e);
    let b = encode(ino, e) + rest;
    let h = head(ino, e);
    lemma_fields_text(f, 0);
    assert(h.len() == 110 + e.name.len() + 1);
    lemma_field(ino, e, rest, 0);
    lemma_field(ino, e, rest, 1);
    lemma_field(ino, e, rest, 6);
    lemma_field(ino, e, rest, 9);
    lemma_field(ino, e, rest, 10);
    lemma_field(ino, e, rest, 11);
    assert(b.take(6) =~= magic());
    let name_end = 110 + field(b, 11);
    assert(name_end == h.len());
    let data = name_end + missing(name_end);
    assert(data == padded(h).len());
    let data_end = data + field(b, 6);
    let next = data_end + missing(data_end);
    assert(next == encode(ino, e).len());
    assert(b.subrange(110, name_end - 1) =~= e.name);
    assert(b.subrange(data as int, data_end as int) =~= e.data);
    assert(b.skip(next as int) =~= rest);
}

/// The entries, numbered from `ino` up, fit their fields and none is called
/// like the trailer.
pub open spec fn are_plain(ino: nat, entries: Seq<Entry>) -> bool {
    &&& forall|i: int| 0 <= i < entries.len() ==> fits((ino + i) as nat, #[trigger] entries[i])
    &&& forall|i: int| 0 <= i < entries.len() ==> (#[trigger] entries[i]).name != trailer().name
}

proof fn lemma_read_one(ino: nat, e: Entry, tail: Seq<u8>)
    requires
        fits(ino, e),
        e.name != trailer().name,
        read_archive(tail) is Some,
    ensures
        read_archive(encode(ino, e) + tail) == Some(seq![e] + read_archive(tail)->0),
{
    reveal(read_archive);
    reading_gives_back_the_entry(ino, e, tail);
    assert(encode(ino, e).len() > 0);
}

proof fn lemma_read_archive(ino: nat, entries: Seq<Entry>, tail: Seq<u8>)
    requires
        are_plain(ino, entries),
        read_archive(tail) is Some,
    ensures
        read_archive(encode_all(ino, entries) + tail) == Some(entries + read_archive(tail)->0),
    decreases entries.len(),
{
    if entries.len() == 0 {
        assert(encode_all(ino, entries) + tail =~= tail);
        assert(entries + read_archive(tail)->0 =~= read_archive(tail)->0);
    } else {
        let init = entries.drop_last();
        let last = entries.last();
        let n = (ino + entries.len() - 1) as nat;
        assert(last == entries[entries.len() - 1]);
        lemma_read_one(n, last, tail);
        lemma_read_archive(ino, init, encode(n, last) + tail);
        assert(encode_all(ino, entries) + tail =~= encode_all(ino, init) + (encode(n, last)
            + tail));
        assert(entries + read_archive(tail)->0 =~= init + (seq![last] + read_archive(tail)->0));
    }
}

/// Reading a finished archive gives back the entries that were written, in
/// their order. (An entry called `TRAILER!!!` would end the archive, and a
/// number that does not fit its field is cut short: both are left out.)
pub proof fn reading_gives_back_the_archive(entries: Seq<Entry>)
    requires
        are_plain(1, entries),
        entries.len() + 1 < 0x1_0000_0000,
    ensures
        read_archive(encode_all(1, entries) + encode(entries.len() + 1, trailer())) == Some(
            entries,
        ),
{
    let n = entries.len() + 1;
    let tail = encode(n, trailer());
    assert(trailer().name.len() < 100) by {
        reveal_strlit("TRAILER!!!");
        is_ascii_chars_encode_utf8("TRAILER!!!"@);
    }
    reading_gives_back_the_entry(n, trailer(), Seq::empty());
    reveal(read_archive);
    assert(tail + Seq::<u8>::empty() =~= tail);
    lemma_read_archive(1, entries, tail);
    assert(entries + Seq::<Entry>::empty() =~= entries);
}

/// How an entry stands in an archive: the magic, then the inode number, the
/// mode, the length of the data, the device's numbers and the length of the
/// name, each as 8 digits at its place, one link and zeros in the other fields;
/// the name with a zero byte behind it; and
/// the data at the next multiple of 4.
pub proof fn an_entry_has_the_newc_form(ino: nat, e: Entry)
    requires
        fits(ino, e),
    ensures
        ({
            let b = encode(ino, e);
            let name_end = 110 + e.name.len() + 1;
            let from = name_end + (4 - name_end % 4) % 4;
            &&& b.len() % 4 == 0
            &&& b.take(6) == seq![48u8, 55, 48, 55, 48, 49]
            &&& unhex(b.subrange(6, 14)) == ino
            &&& unhex(b.subrange(14, 22)) == e.mode
            &&& unhex(b.subrange(22, 30)) == 0
            &&& unhex(b.subrange(30, 38)) == 0
            &&& unhex(b.subrange(38, 46)) == 1
            &&& unhex(b.subrange(46, 54)) == 0
            &&& unhex(b.subrange(54, 62)) == e.data.len()
            &&& unhex(b.subrange(62, 70)) == 0
            &&& unhex(b.subrange(70, 78)) == 0
            &&& unhex(b.subrange(78, 86)) == e.rmajor
            &&& unhex(b.subrange(86, 94)) == e.rminor
            &&& unhex(b.subrange(94, 102)) == e.name.len() + 1
            &&& unhex(b.subrange(102, 110)) == 0
            &&& b.subrange(110, name_end - 1) == e.name
            &&& b[name_end - 1] == 0
            &&& b.subrange(from as int, (from + e.data.len()) as int) == e.data
        }),
{
    let b = encode(ino, e);
    let none = Seq::<u8>::empty();
    assert(b + none =~= b);
    lemma_fields_text(fields(ino, e), 0);
    lemma_field(ino, e, none, 0);
    lemma_field(ino, e, none, 1);
    lemma_field(ino, e, none, 2);
    lemma_field(ino, e, none, 3);
    lemma_field(ino, e, none, 4);
    lemma_field(ino, e, none, 5);
    lemma_field(ino, e, none, 6);
    lemma_field(ino, e, none, 7);
    lemma_field(ino, e, none, 8);
    lemma_field(ino, e, none, 9);
    lemma_field(ino, e, none, 10);
    lemma_field(ino, e, none, 11);
    lemma_field(ino, e, none, 12);
    let h = head(ino, e);
    let name_end = 110 + e.name.len() + 1;
    let from = name_end + (4 - name_end % 4) % 4;
    assert(h.len() == name_end);
    assert(padded(h).len() == from);
    assert(b.take(6) =~= seq![48u8, 55, 48, 55, 48, 49]);
    assert(b.subrange(110, name_end - 1) =~= e.name);
    assert(b[name_end - 1] == h[name_end - 1]);
    assert(b.subrange(from as int, (from + e.data.len()) as int) =~= e.data);
}

/// The type of an entry is in the upper digits of its mode, and the permissions
/// are in the lower ones.
pub proof fn a_mode_is_a_type_and_permissions(
    name: Seq<char>,
    target: Seq<char>,
    perm: u32,
    major: u32,
    minor: u32,
    data: Seq<u8>,
)
    requires
        perm < 0o10000,
    ensures
        dir_entry(name, perm).mode == 0o40000 + perm,
        file_entry(name, perm, data).mode == 0o100000 + perm,
        device_entry(name, perm, major, minor).mode == 0o20000 + perm,
        symlink_entry(name, target).mode == 0o120777,
        file_entry(name, perm, data).data == data,
        symlink_entry(name, target).data == encode_utf8(target),
        device_entry(name, perm, major, minor).rmajor == major,
        device_entry(name, perm, major, minor).rminor == minor,
        dir_entry(name, perm).name == encode_utf8(name),
        file_entry(name, perm, data).name == encode_utf8(name),
        symlink_entry(name, target).name == encode_utf8(name),
        device_entry(name, perm, major, minor).name == encode_utf8(name),
{
    assert(0o040000u32 | perm == 0o040000 + perm) by (bit_vector)
        requires
            perm < 0o10000,
    ;
    assert(0o100000u32 | perm == 0o100000 + perm) by (bit_vector)
        requires
            perm < 0o10000,
    ;
    assert(0o020000u32 | perm == 0o020000 + perm) by (bit_vector)
        requires
            perm < 0o10000,
    ;
    assert(0o120000u32 | 0o777u32 == 0o120777) by (bit_vector);
}

} // verus!
