//! The zip crate as the transcoder uses it: reading the entries of an
//! archive held in memory, and writing a new one into memory.
use vstd::prelude::*;
use std::io::{Cursor, Read, Write};
use zip::result::ZipError;
use zip::write::SimpleFileOptions;
use zip::{ZipArchive, ZipWriter};

verus! {

/// `std::io::Cursor`, which holds the bytes an archive is read from or written to.
#[verifier::external_type_specification]
#[verifier::external_body]
#[verifier::reject_recursive_types(T)]
pub struct ExCursor<T>(Cursor<T>);

/// `std::io::Error`, carried back when writing an entry fails.
#[verifier::external_type_specification]
#[verifier::external_body]
pub struct ExIoError(std::io::Error);

/// `zip::result::ZipError`, carried back when the zip crate fails.
#[verifier::external_type_specification]
#[verifier::external_body]
pub struct ExZipError(ZipError);

/// `zip::ZipArchive`, an archive opened for reading.
#[verifier::external_type_specification]
#[verifier::external_body]
#[verifier::reject_recursive_types(R)]
pub struct ExZipArchive<R>(ZipArchive<R>);


/// An archive read from bytes in memory.
pub type MemArchive = ZipArchive<Cursor<Vec<u8>>>;

/// An archive being written into memory. The zip writer is held behind a
/// field of this type since its declaration, bound by `Write + Seek`, cannot
/// be given to the verifier.
#[verifier::external_body]
pub struct MemWriter {
    inner: ZipWriter<Cursor<Vec<u8>>>,
}

/// The names of the entries of an archive, in the order of its central directory.
pub uninterp spec fn archive_names(a: MemArchive) -> Seq<Seq<char>>;

/// The content of each entry of an archive, by name.
pub uninterp spec fn archive_data(a: MemArchive) -> Map<Seq<char>, Seq<u8>>;

/// The entries written so far, in order: name and content.
pub uninterp spec fn written_entries(w: MemWriter) -> Seq<(Seq<char>, Seq<u8>)>;

/// The names of the entries whose content reads back without error.
pub uninterp spec fn archive_readable(a: MemArchive) -> Set<Seq<char>>;

/// Whether the bytes `src` open as an archive.
pub uninterp spec fn zip_readable(src: Seq<u8>) -> bool;

/// What the central directory of the archive in `src` lists: entry names in
/// order, the content of each entry by name, and the names whose content
/// reads back without error.
pub uninterp spec fn zip_listing(src: Seq<u8>) -> (Seq<Seq<char>>, Map<Seq<char>, Seq<u8>>, Set<Seq<char>>);

/// Every operation on the writer so far succeeded.
pub uninterp spec fn intact(w: MemWriter) -> bool;

/// Whether a writer that holds the entries `es` starts an entry named `name`.
pub uninterp spec fn start_ok(es: Seq<(Seq<char>, Seq<u8>)>, name: Seq<char>) -> bool;

/// Whether a writer that holds the entries `es` takes `data` into its last entry.
pub uninterp spec fn write_ok(es: Seq<(Seq<char>, Seq<u8>)>, data: Seq<u8>) -> bool;

/// Whether a writer that holds the entries `es` finishes its archive.
pub uninterp spec fn finish_ok(es: Seq<(Seq<char>, Seq<u8>)>) -> bool;

/// The names of entries.
pub open spec fn entry_names_of(es: Seq<(Seq<char>, Seq<u8>)>) -> Seq<Seq<char>> {
    es.map_values(|e: (Seq<char>, Seq<u8>)| e.0)
}

/// Longest entry name, in characters, handed to the writer: at four bytes per
/// character at most, its UTF-8 fits the 16-bit length field of a zip header.
pub const MAX_ENTRY_NAME_CHARS: usize = 16383;

/// The bytes of the finished archive.
pub uninterp spec fn archive_bytes(w: MemWriter) -> Seq<u8>;

/// Relies on `ZipArchive::new`: reads the central directory of the archive in `src`.
#[verifier::external_body]
pub(crate) fn open_archive(src: Vec<u8>) -> (r: Result<MemArchive, ZipError>)
    ensures
        r is Ok <==> zip_readable(src@),
        r matches Ok(a) ==> (archive_names(a), archive_data(a), archive_readable(a)) == zip_listing(src@),
{
    ZipArchive::new(Cursor::new(src))
}

/// Relies on `ZipArchive::file_names`: the entries' names, in order.
#[verifier::external_body]
pub(crate) fn entry_names(a: &MemArchive) -> (r: Vec<String>)
    ensures
        r@.map_values(|s: String| s@) == archive_names(*a),
{
    a.file_names().map(|n| n.to_string()).collect()
}

/// Relies on `ZipArchive::by_name` and reading the entry it returns to its end:
/// the content of the entry `name`. The entries themselves are not changed.
#[verifier::external_body]
pub(crate) fn read_entry(a: &mut MemArchive, name: &str) -> (r: Result<Vec<u8>, ZipError>)
    ensures
        archive_names(*final(a)) == archive_names(*old(a)),
        archive_data(*final(a)) == archive_data(*old(a)),
        archive_readable(*final(a)) == archive_readable(*old(a)),
        r is Ok <==> archive_readable(*old(a)).contains(name@),
        r matches Ok(d) ==> d@ == archive_data(*old(a))[name@],
{
    let mut entry = a.by_name(name)?;
    let mut data = Vec::new();
    entry.read_to_end(&mut data)?;
    Ok(data)
}

/// Relies on `ZipWriter::new`: a writer with no entry yet.
#[verifier::external_body]
pub(crate) fn new_writer() -> (r: MemWriter)
    ensures
        written_entries(r) == Seq::<(Seq<char>, Seq<u8>)>::empty(),
        intact(r),
{
    MemWriter { inner: ZipWriter::new(Cursor::new(Vec::new())) }
}

/// Relies on `ZipWriter::start_file`: starts an empty entry named `name`, with
/// default options; a name that the writer already holds is refused. A name
/// whose UTF-8 exceeds 65535 bytes makes it panic, hence the bound.
#[verifier::external_body]
pub(crate) fn start_entry(w: &mut MemWriter, name: &str) -> (r: Result<(), ZipError>)
    requires
        name@.len() <= MAX_ENTRY_NAME_CHARS,
    ensures
        intact(*old(w)) ==> (r is Ok <==> start_ok(written_entries(*old(w)), name@)),
        entry_names_of(written_entries(*old(w))).contains(name@) ==> r is Err,
        r is Ok ==> intact(*final(w)),
        r is Ok ==> written_entries(*final(w)) == written_entries(*old(w)).push((name@, Seq::empty())),
{
    w.inner.start_file(name, SimpleFileOptions::default())
}

/// Relies on `Write::write_all` for `ZipWriter`: appends `data` to the entry
/// started last; empty data writes nothing.
#[verifier::external_body]
pub(crate) fn write_data(w: &mut MemWriter, data: &[u8]) -> (r: Result<(), std::io::Error>)
    ensures
        intact(*old(w)) ==> (r is Ok <==> write_ok(written_entries(*old(w)), data@)),
        r is Ok ==> intact(*final(w)),
        r is Ok && data@.len() == 0 ==> written_entries(*final(w)) == written_entries(*old(w)),
        r is Ok && data@.len() > 0 ==> written_entries(*old(w)).len() > 0 && written_entries(*final(w))
            == written_entries(*old(w)).drop_last().push(
            (written_entries(*old(w)).last().0, written_entries(*old(w)).last().1 + data@),
        ),
{
    w.inner.write_all(data)
}

/// Relies on `ZipWriter::finish`: writes the central directory and hands back
/// the bytes of the archive.
#[verifier::external_body]
pub(crate) fn finish_writer(w: MemWriter) -> (r: Result<Vec<u8>, ZipError>)
    ensures
        intact(w) ==> (r is Ok <==> finish_ok(written_entries(w))),
        r matches Ok(b) ==> b@ == archive_bytes(w),
{
    w.inner.finish().map(|c| c.into_inner())
}

} // verus!
