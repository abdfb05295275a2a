//! The outside functions that images are built with: digests, compression and
//! archives.

use flate2::read::{GzDecoder, MultiGzDecoder};
use flate2::write::GzEncoder;
use sha2::{Digest, Sha256};
use std::io::{Read, Write};
use vstd::prelude::*;
use vstd::utf8::*;

verus! {

/// What `sha2::Sha256::digest` returns: the SHA-256 digest of `data`.
pub uninterp spec fn sha256_of(data: Seq<u8>) -> Seq<u8>;

/// What `flate2::write::GzEncoder` makes of `data` at the default level.
pub uninterp spec fn gzip_of(data: Seq<u8>) -> Seq<u8>;

/// What `flate2::read::GzDecoder` reads to the end out of `data`, or `None`
/// where it fails.
pub uninterp spec fn gunzip_of(data: Seq<u8>) -> Option<Seq<u8>>;

/// What `tar::Archive` reads through a `flate2::read::MultiGzDecoder` out of
/// `data`: the entries up to the end or to the first failure, and the text of
/// that failure.
pub uninterp spec fn multi_gz_tar(data: Seq<u8>) -> (Seq<EntryView>, Option<Seq<char>>);

/// What `tar::Archive` reads through a `flate2::read::GzDecoder` out of `data`.
pub uninterp spec fn gz_tar(data: Seq<u8>) -> (Seq<EntryView>, Option<Seq<char>>);

/// What `String::from_utf8_lossy` makes of bytes.
pub uninterp spec fn lossy_of(bytes: Seq<u8>) -> Seq<char>;

/// One entry of a tar archive: its path, whether it is a regular file, its
/// content, and whether the content was read to its end. What was read of a
/// content that breaks off is dropped.
#[derive(Debug)]
pub struct TarEntry {
    pub path: Vec<u8>,
    pub is_file: bool,
    pub data: Vec<u8>,
    pub whole: bool,
}

/// What an entry of a tar archive says.
#[verifier::ext_equal]
pub struct EntryView {
    pub path: Seq<u8>,
    pub is_file: bool,
    pub data: Seq<u8>,
    pub whole: bool,
}

impl View for TarEntry {
    type V = EntryView;

    open spec fn view(&self) -> EntryView {
        EntryView {
            path: self.path@,
            is_file: self.is_file,
            data: self.data@,
            whole: self.whole,
        }
    }
}

/// What was read of a tar archive: its entries up to the end, or up to a
/// failure.
#[derive(Debug)]
pub struct TarRead {
    pub entries: Vec<TarEntry>,
    pub error: Option<String>,
}

/// What entries say.
pub open spec fn entry_views(v: Seq<TarEntry>) -> Seq<EntryView> {
    Seq::new(v.len(), |i: int| v[i]@)
}

impl View for TarRead {
    type V = (Seq<EntryView>, Option<Seq<char>>);

    open spec fn view(&self) -> (Seq<EntryView>, Option<Seq<char>>) {
        (entry_views(self.entries@), crate::resources::opt_text(self.error))
    }
}

/// Calls `sha2::Sha256::digest`, which returns the 32 bytes of the SHA-256
/// digest of its argument. Which bytes they are is left to its name.
#[verifier::external_body]
pub(crate) fn sha256(data: &[u8]) -> (r: Vec<u8>)
    ensures
        r@ == sha256_of(data@),
        r@.len() == 32,
{
    Sha256::digest(data).to_vec()
}

/// Calls `hex::encode`, which writes each byte as two hexadecimal digits in
/// lower case, the higher one first.
#[verifier::external_body]
pub(crate) fn hex_encode(data: &[u8]) -> (r: String)
    ensures
        r@ == crate::block::fsprobe::hex_bytes(data@),
{
    hex::encode(data)
}

/// Writes `data` through a `flate2::write::GzEncoder` at the default level
/// into a vector. That succeeds, since a vector takes all that is written to it
/// and the compressor, which is always given room for output, has no error of
/// its own. What comes out depends on `data` alone (the header has no time and
/// no name in it), and `flate2::read::GzDecoder` reads `data` out of it again.
#[verifier::external_body]
pub(crate) fn gzip(data: &[u8]) -> (r: Result<Vec<u8>, String>)
    ensures
        r is Ok,
        r matches Ok(z) ==> z@ == gzip_of(data@) && gunzip_of(z@) == Some(data@),
{
    let mut gz = GzEncoder::new(Vec::new(), flate2::Compression::default());
    gz.write_all(data).map_err(|e| e.to_string())?;
    gz.finish().map_err(|e| e.to_string())
}

/// Reads `data` to the end through a `flate2::read::GzDecoder`. Whether that
/// succeeds, and what it gives, depends on `data` alone.
#[verifier::external_body]
pub(crate) fn gunzip(data: &[u8]) -> (r: Result<Vec<u8>, String>)
    ensures
        match r {
            Ok(raw) => gunzip_of(data@) == Some(raw@),
            Err(_) => gunzip_of(data@) is None,
        },
{
    let mut raw = Vec::new();
    GzDecoder::new(data).read_to_end(&mut raw).map_err(|e| e.to_string())?;
    Ok(raw)
}

/// Reads the entries of a `tar::Archive` through a
/// `flate2::read::MultiGzDecoder`, each with its path, its type and its
/// content, until the archive ends or fails. Of an entry whose content cannot be
/// read to its end, the content is left empty: how much of it came out before
/// the failure depends on how it was asked for.
#[verifier::external_body]
pub(crate) fn read_multi_gz_tar(data: &[u8]) -> (r: TarRead)
    ensures
        r@ == multi_gz_tar(data@),
{
    let mut archive = tar::Archive::new(MultiGzDecoder::new(data));
    let mut entries = Vec::new();
    let result = archive.entries().and_then(|listed| {
        for item in listed {
            let mut entry = item?;
            let (path, mut data) = (entry.path_bytes().into_owned(), Vec::new());
            let is_file = entry.header().entry_type().is_file();
            let end = entry.read_to_end(&mut data);
            let data = if end.is_ok() { data } else { Vec::new() };
            entries.push(TarEntry { path, is_file, data, whole: end.is_ok() });
            end?;
        }
        Ok(())
    });
    TarRead { entries, error: result.err().map(|e| e.to_string()) }
}

/// Reads the entries of a `tar::Archive` through a `flate2::read::GzDecoder`,
/// each with its path, its type and its content, until the archive ends or
/// fails. Of an entry whose content cannot be read to its end, the content is
/// left empty: how much of it came out before the failure depends on how it was
/// asked for.
#[verifier::external_body]
pub(crate) fn read_gz_tar(data: &[u8]) -> (r: TarRead)
    ensures
        r@ == gz_tar(data@),
{
    let mut archive = tar::Archive::new(GzDecoder::new(data));
    let mut entries = Vec::new();
    let result = archive.entries().and_then(|listed| {
        for item in listed {
            let mut entry = item?;
            let (path, mut data) = (entry.path_bytes().into_owned(), Vec::new());
            let is_file = entry.header().entry_type().is_file();
            let end = entry.read_to_end(&mut data);
            let data = if end.is_ok() { data } else { Vec::new() };
            entries.push(TarEntry { path, is_file, data, whole: end.is_ok() });
            end?;
        }
        Ok(())
    });
    TarRead { entries, error: result.err().map(|e| e.to_string()) }
}

/// Calls `String::from_utf8_lossy`: bytes that are valid UTF-8 become the text
/// that they encode. What stands for others is left to its name.
#[verifier::external_body]
pub(crate) fn lossy(bytes: &[u8]) -> (r: String)
    ensures
        r@ == lossy_of(bytes@),
        valid_utf8(bytes@) ==> r@ == decode_utf8(bytes@),
{
    String::from_utf8_lossy(bytes).into_owned()
}

/// What `str::to_uppercase` makes of a text.
pub uninterp spec fn upper_of(s: Seq<char>) -> Seq<char>;

/// The upper case of an ASCII character.
pub open spec fn ascii_upper(c: char) -> char {
    if 'a' <= c <= 'z' {
        (c as int - 32) as char
    } else {
        c
    }
}

/// Calls `str::to_uppercase`: an ASCII text has its letters `a` to `z` replaced
/// by `A` to `Z`. What becomes of others is left to its name.
#[verifier::external_body]
pub(crate) fn to_upper(s: &str) -> (r: String)
    ensures
        r@ == upper_of(s@),
        (forall|i: int| 0 <= i < s@.len() ==> (#[trigger] s@[i] as int) < 128) ==> r@ == Seq::new(
            s@.len(),
            |i: int| ascii_upper(s@[i]),
        ),
{
    s.to_uppercase()
}

/// What `format!` makes of a list of texts with `{:?}`.
pub uninterp spec fn debug_of(v: Seq<Seq<char>>) -> Seq<char>;

/// Formats a list of texts with `{:?}`, as `format!` does. Which quotes and
/// escapes that takes is left to its name.
#[verifier::external_body]
pub(crate) fn debug_list(v: &Vec<String>) -> (r: String)
    ensures
        r@ == debug_of(crate::text::texts(v@)),
{
    format!("{:?}", v)
}

} // verus!
