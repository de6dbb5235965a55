//! The archive format of a snapshot, which the `zip` crate reads and writes.
//!
//! Nothing in this file is proved: each item states what the crate does, as its
//! source shows it, and the rest of the library is verified against these
//! statements.

use std::io::Cursor;
use std::io::Read;
use std::io::Write;
use vstd::prelude::*;
use zip::result::ZipError;
use zip::write::FileOptions;
use zip::CompressionMethod;
use zip::ZipArchive;
use zip::ZipWriter;

verus! {

/// Trusted: `std::io::Cursor`, an in-memory reader; nothing is said of it.
#[verifier::external_type_specification]
#[verifier::external_body]
#[verifier::reject_recursive_types(T)]
pub struct ExCursor<T>(Cursor<T>);

/// Trusted: `zip::ZipArchive`, an archive opened for reading.
#[verifier::external_type_specification]
#[verifier::external_body]
#[verifier::reject_recursive_types(R)]
pub struct ExZipArchive<R>(ZipArchive<R>);

/// Trusted: `zip::result::ZipError`; nothing is said of it.
#[verifier::external_type_specification]
#[verifier::external_body]
pub struct ExZipError(ZipError);

/// A `zip::ZipWriter` over a buffer in memory, with the way in which it packs
/// each file.
#[verifier::external_body]
pub struct ArchiveWriter {
    inner: ZipWriter<Cursor<Vec<u8>>>,
    method: CompressionMethod,
}

/// How the bytes of a file lie in an archive.
#[derive(Clone, Copy, Debug, PartialEq, Eq, Structural)]
pub enum Packing {
    /// As they are.
    Stored,
    /// Compressed with deflate.
    Deflated,
}

/// One file of an archive: its name and its bytes.
#[derive(Debug, PartialEq, Eq)]
pub struct ArchiveFile {
    pub name: String,
    pub data: Vec<u8>,
}

/// The largest number of bytes that one file of an archive holds.
pub const MAX_FILE_SIZE: u64 = 0xFFFF_FFFF;

/// The files that were handed to the writer so far, each with its name and the
/// bytes written to it, in the order in which they were started.
pub uninterp spec fn written(w: ArchiveWriter) -> Seq<(Seq<char>, Seq<u8>)>;

/// Whether the writer still takes files and bytes: it was not finished, and no
/// write to it went over the size that a file may have.
pub uninterp spec fn accepting(w: ArchiveWriter) -> bool;

/// The way in which the writer packs, as it was made with.
pub uninterp spec fn packing_of(w: ArchiveWriter) -> Packing;

/// The bytes of the archive that `ZipWriter::finish` leaves for the given files,
/// each started with the default options and stored as it is.
pub uninterp spec fn archive_of(files: Seq<(Seq<char>, Seq<u8>)>) -> Seq<u8>;

/// What `ZipArchive::new` makes of the given bytes: nothing where they are no
/// archive, else its entries in the order of the central directory.
pub uninterp spec fn opened(data: Seq<u8>) -> Option<Seq<Option<(Seq<char>, Seq<u8>)>>>;

/// The entries of an open archive, each with its name and its bytes; an entry
/// that cannot be read holds nothing.
pub uninterp spec fn entries_of(a: ZipArchive<Cursor<Vec<u8>>>) -> Seq<Option<(Seq<char>, Seq<u8>)>>;

/// What `ZipArchive::by_name_decrypt`, with an empty password, finds in the
/// archive that the given bytes hold: the bytes of the entry of that name,
/// nothing where there is none or it cannot be read.
pub uninterp spec fn member(data: Seq<u8>, name: Seq<char>) -> Option<Seq<u8>>;

/// Trusted: `ZipArchive::new` opens the bytes, and `ZipArchive::by_name_decrypt`
/// with an empty password finds the entry of the given name, whose bytes are then
/// read out; an entry that is encrypted, or cannot be read, counts as none. The
/// outer result is nothing exactly where the bytes are no archive.
#[verifier::external_body]
pub(crate) fn read_member(data: &Vec<u8>, name: &str) -> (r: Option<Option<Vec<u8>>>)
    ensures
        r is None <==> opened(data@) is None,
        r matches Some(Some(bytes)) ==> member(data@, name@) == Some(bytes@),
        r matches Some(None) ==> member(data@, name@) is None,
{
    let mut archive = ZipArchive::new(Cursor::new(data.as_slice())).ok()?;
    let mut file = match archive.by_name_decrypt(name, &[]) {
        Ok(Ok(f)) => f,
        _ => return Some(None),
    };
    let mut bytes = Vec::new();
    match file.read_to_end(&mut bytes) {
        Ok(_) => Some(Some(bytes)),
        Err(_) => Some(None),
    }
}

/// Trusted: `ZipWriter::new` over an empty buffer starts an archive without
/// files, which takes files and bytes.
#[verifier::external_body]
pub(crate) fn new_writer(packing: Packing) -> (w: ArchiveWriter)
    ensures
        written(w) == Seq::<(Seq<char>, Seq<u8>)>::empty(),
        accepting(w),
        packing_of(w) == packing,
{
    let method = match packing {
        Packing::Stored => CompressionMethod::Stored,
        Packing::Deflated => CompressionMethod::Deflated,
    };
    ArchiveWriter { inner: ZipWriter::new(Cursor::new(Vec::new())), method }
}

/// Trusted: `ZipWriter::start_file`, with the default options but for the way
/// of packing, ends the file before and adds a file of the given name that holds
/// no bytes yet. It returns `Ok` only where the writer still took files; over a
/// buffer in memory, and with files stored as they are, it returns `Ok` wherever
/// it did. Built without a clock, the crate gives every file the same date.
#[verifier::external_body]
pub(crate) fn start_file(w: &mut ArchiveWriter, name: &str) -> (r: Result<(), ZipError>)
    ensures
        packing_of(*final(w)) == packing_of(*old(w)),
        r is Ok ==> accepting(*old(w)),
        accepting(*old(w)) && packing_of(*old(w)) == Packing::Stored ==> r is Ok,
        r is Ok ==> accepting(*final(w)) && written(*final(w)) == written(*old(w)).push(
            (name@, Seq::<u8>::empty()),
        ),
{
    w.inner.start_file(name, FileOptions::default().compression_method(w.method))
}

/// Trusted: `write_all` on a `ZipWriter`. Without bytes it returns `Ok` and
/// changes nothing. With bytes it returns `Ok` exactly where the writer still
/// takes bytes, a file was started, and that file stays within the size that a
/// file may have; the bytes are then at the end of the file that was started
/// last.
#[verifier::external_body]
pub(crate) fn write_all(w: &mut ArchiveWriter, data: &Vec<u8>) -> (ok: bool)
    ensures
        packing_of(*final(w)) == packing_of(*old(w)),
        data@.len() == 0 ==> ok && written(*final(w)) == written(*old(w)) && accepting(*final(w))
            == accepting(*old(w)),
        data@.len() > 0 ==> (ok <==> accepting(*old(w)) && written(*old(w)).len() > 0 && written(
            *old(w),
        ).last().1.len() + data@.len() <= MAX_FILE_SIZE),
        ok && data@.len() > 0 ==> accepting(*final(w)) && written(*final(w)) == written(
            *old(w),
        ).update(
            written(*old(w)).len() - 1,
            (written(*old(w)).last().0, written(*old(w)).last().1 + data@),
        ),
{
    w.inner.write_all(data).is_ok()
}

/// Trusted: `ZipWriter::finish` ends the last file, writes the central
/// directory and hands back the buffer. It returns `Ok` only where the writer
/// still took files. With files stored as they are it returns `Ok` wherever it
/// did, and the buffer then holds the archive of the files that were written;
/// of the bytes of an archive with compressed files nothing is said.
#[verifier::external_body]
pub(crate) fn finish(w: ArchiveWriter) -> (r: Result<Vec<u8>, ZipError>)
    ensures
        r is Ok ==> accepting(w),
        accepting(w) && packing_of(w) == Packing::Stored ==> r is Ok,
        packing_of(w) == Packing::Stored ==> (r matches Ok(bytes) ==> bytes@ == archive_of(
            written(w),
        )),
{
    let mut w = w;
    let cursor = w.inner.finish()?;
    Ok(cursor.into_inner())
}

/// Trusted: `ZipArchive::new` reads the central directory of the bytes and
/// returns an error where they are no archive.
#[verifier::external_body]
pub(crate) fn open_archive(data: Vec<u8>) -> (r: Result<ZipArchive<Cursor<Vec<u8>>>, ZipError>)
    ensures
        match r {
            Ok(a) => opened(data@) == Some(entries_of(a)),
            Err(_) => opened(data@) is None,
        },
{
    ZipArchive::new(Cursor::new(data))
}

/// Trusted: `ZipArchive::len` is the number of entries.
#[verifier::external_body]
pub(crate) fn archive_len(a: &ZipArchive<Cursor<Vec<u8>>>) -> (n: usize)
    ensures
        n == entries_of(*a).len(),
{
    a.len()
}

/// Trusted: `ZipArchive::by_index_decrypt`, with an empty password, finds the
/// entry at `index`, whose name and bytes are then read out; reading changes no
/// entry. Nothing comes back where the entry is encrypted or cannot be read.
#[verifier::external_body]
pub(crate) fn read_entry(a: &mut ZipArchive<Cursor<Vec<u8>>>, index: usize) -> (r: Option<
    ArchiveFile,
>)
    ensures
        entries_of(*final(a)) == entries_of(*old(a)),
        index < entries_of(*old(a)).len() ==> match r {
            Some(f) => entries_of(*old(a))[index as int] == Some((f.name@, f.data@)),
            None => entries_of(*old(a))[index as int] is None,
        },
{
    let mut file = a.by_index_decrypt(index, &[]).ok()?.ok()?;
    let name = file.name().to_string();
    let mut data = Vec::new();
    file.read_to_end(&mut data).ok()?;
    Some(ArchiveFile { name, data })
}

} // verus!
