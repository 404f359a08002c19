//! The ZIP container of an HWPX package, built with the `zip` crate.
//!
//! The archive is modelled by the list of its entries in the order they
//! were added: each entry has a path, whether it is deflated (otherwise
//! stored), and its uncompressed bytes.

use vstd::prelude::*;
use std::io::Cursor;
use std::io::Write;
use zip::ZipWriter;
use zip::CompressionMethod;
use zip::System;
use zip::write::SimpleFileOptions;
use zip::result::ZipError;
use crate::error::{io_error_text, zip_error_text, SerializeError};

verus! {

/// Writer of an HWPX ZIP package (a `zip::ZipWriter` over an in-memory buffer).
#[verifier::external_body]
pub struct HwpxZipWriter {
    zip: ZipWriter<Cursor<Vec<u8>>>,
}

/// One archive entry: path, deflated (true) or stored (false), uncompressed bytes.
pub type ZipEntry = (Seq<char>, bool, Seq<u8>);

/// The entries written to a ZIP writer so far, in order; the last one is
/// the entry that data is currently written to.
pub uninterp spec fn zip_entries(w: HwpxZipWriter) -> Seq<(Seq<char>, bool, Seq<u8>)>;

/// No operation on the writer has failed so far.
pub uninterp spec fn zip_sound(w: HwpxZipWriter) -> bool;

/// The bytes of the finished archive with the given entries, as this
/// module writes them: default options but for the host system, which is
/// always Unix; timestamps fixed at 1980-01-01 (the crate is built without
/// its `time` feature).
pub uninterp spec fn zip_archive_bytes(entries: Seq<(Seq<char>, bool, Seq<u8>)>) -> Seq<u8>;

/// Bytes an archive needs at most per entry beyond its data: the UTF-8
/// path (four bytes per character at most) and 128 bytes of headers.
pub open spec fn entries_size(es: Seq<ZipEntry>) -> nat
    decreases es.len(),
{
    if es.len() == 0 {
        0
    } else {
        entries_size(es.drop_last()) + 4 * es.last().0.len() + es.last().2.len() + 128
    }
}

/// An archive well within the limits of a plain (non-ZIP64) archive: fewer
/// than 65535 entries, every path under 16000 characters (its local header
/// stays under 64 KiB), and less than 2 GiB of data, paths and headers in
/// all (so no entry, compressed or not, and no offset reaches 4 GiB).
pub open spec fn zip_room(es: Seq<ZipEntry>) -> bool {
    &&& es.len() < 65535
    &&& entries_size(es) < 0x8000_0000
    &&& forall|i: int| 0 <= i < es.len() ==> (#[trigger] es[i]).0.len() < 16000
}

/// Whether an entry with path `p` is among `es`.
pub open spec fn has_path(es: Seq<ZipEntry>, p: Seq<char>) -> bool {
    exists|i: int| 0 <= i < es.len() && (#[trigger] es[i]).0 == p
}

/// A smaller last entry keeps an archive within its limits.
pub proof fn lemma_room_shrink_last(es: Seq<ZipEntry>, a: ZipEntry, b: ZipEntry)
    requires
        zip_room(es.push(b)),
        a.0 == b.0,
        a.2.len() <= b.2.len(),
    ensures
        zip_room(es.push(a)),
{
    assert(es.push(a).drop_last() =~= es);
    assert(es.push(b).drop_last() =~= es);
    assert forall|i: int| 0 <= i < es.push(a).len() implies (#[trigger] es.push(a)[i]).0.len() < 16000 by {
        if i < es.len() {
            assert(es.push(a)[i] == es.push(b)[i]);
        } else {
            assert(es.push(b)[i].0 == b.0);
        }
    }
}

/// `ZipWriter::new` over an empty in-memory buffer: an archive with no
/// entries, and nothing failed yet.
#[verifier::external_body]
fn zip_new() -> (w: HwpxZipWriter)
    ensures
        zip_entries(w) == Seq::<ZipEntry>::empty(),
        zip_sound(w),
{
    HwpxZipWriter { zip: ZipWriter::new(Cursor::new(Vec::new())) }
}

/// `ZipWriter::start_file` with default options, host system Unix, and the
/// Deflated (`deflate == true`) or Stored method: on success a new, empty
/// entry with that path is appended. On a sound writer it succeeds when the
/// path is new and the archive with the new entry stays within `zip_room`
/// (writing to memory cannot fail otherwise; starting an entry closes the
/// previous one, whose size the room bounds). What the writer holds after
/// a refusal is left unsaid.
#[verifier::external_body]
fn zip_start_file(w: &mut HwpxZipWriter, name: &str, deflate: bool) -> (r: Result<(), ZipError>)
    ensures
        r is Ok ==> zip_entries(*final(w)) == zip_entries(*old(w)).push((name@, deflate, Seq::<u8>::empty())),
        r is Ok && zip_sound(*old(w)) ==> zip_sound(*final(w)),
        zip_sound(*old(w)) && !has_path(zip_entries(*old(w)), name@)
            && zip_room(zip_entries(*old(w)).push((name@, deflate, Seq::<u8>::empty()))) ==> r is Ok,
{
    let method = if deflate { CompressionMethod::Deflated } else { CompressionMethod::Stored };
    w.zip.start_file(name, SimpleFileOptions::default().compression_method(method).system(System::Unix))
}

/// `Write::write_all` on the writer: on success the bytes are appended to
/// the entry that was started last. On a sound writer with an entry
/// started it succeeds when the archive stays within `zip_room`. What the
/// writer holds after an error is left unsaid.
#[verifier::external_body]
fn zip_write_all(w: &mut HwpxZipWriter, data: &[u8]) -> (r: Result<(), std::io::Error>)
    ensures
        r is Ok ==> {
            let old_e = zip_entries(*old(w));
            let last = old_e.last();
            &&& old_e.len() > 0
            &&& zip_entries(*final(w)) == old_e.update(old_e.len() - 1, (last.0, last.1, last.2 + data@))
        },
        r is Ok && zip_sound(*old(w)) ==> zip_sound(*final(w)),
        ({
            let old_e = zip_entries(*old(w));
            let last = old_e.last();
            zip_sound(*old(w)) && old_e.len() > 0
                && zip_room(old_e.drop_last().push((last.0, last.1, last.2 + data@)))
        }) ==> r is Ok,
{
    w.zip.write_all(data)
}

/// `ZipWriter::finish`, then the in-memory buffer: on success, the bytes of
/// the archive with the entries written. On a sound writer within
/// `zip_room` it succeeds.
#[verifier::external_body]
fn zip_finish(w: HwpxZipWriter) -> (r: Result<Vec<u8>, ZipError>)
    ensures
        r matches Ok(bytes) ==> bytes@ == zip_archive_bytes(zip_entries(w)),
        zip_sound(w) && zip_room(zip_entries(w)) ==> r is Ok,
{
    w.zip.finish().map(|c| c.into_inner())
}

impl HwpxZipWriter {
    /// The entries written so far.
    pub open spec fn entries(&self) -> Seq<ZipEntry> {
        zip_entries(*self)
    }

    /// No operation on the writer has failed so far.
    pub open spec fn sound(&self) -> bool {
        zip_sound(*self)
    }

    /// An empty package.
    pub fn new() -> (z: HwpxZipWriter)
        ensures
            z.entries() == Seq::<ZipEntry>::empty(),
            z.sound(),
    {
        zip_new()
    }

    fn write_entry(&mut self, name: &str, data: &[u8], deflate: bool) -> (r: Result<(), SerializeError>)
        ensures
            r is Ok ==> final(self).entries() == old(self).entries().push((name@, deflate, data@)),
            r is Ok && old(self).sound() ==> final(self).sound(),
            r matches Err(e) ==> e is ZipError,
            old(self).sound() && !has_path(old(self).entries(), name@)
                && zip_room(old(self).entries().push((name@, deflate, data@))) ==> r is Ok,
    {
        let ghost ok0 = old(self).sound() && !has_path(old(self).entries(), name@)
            && zip_room(old(self).entries().push((name@, deflate, data@)));
        proof {
            if ok0 {
                lemma_room_shrink_last(old(self).entries(), (name@, deflate, Seq::<u8>::empty()), (name@, deflate, data@));
            }
        }
        match zip_start_file(self, name, deflate) {
            Ok(()) => {},
            Err(e) => return Err(SerializeError::ZipError(zip_error_text(&e))),
        }
        proof {
            let es = zip_entries(*self);
            assert(es.drop_last() =~= old(self).entries());
            assert(Seq::<u8>::empty() + data@ =~= data@);
        }
        match zip_write_all(self, data) {
            Ok(()) => {
                assert(Seq::<u8>::empty() + data@ =~= data@);
                assert(zip_entries(*self) =~= old(self).entries().push((name@, deflate, data@)));
                Ok(())
            },
            Err(e) => Err(SerializeError::ZipError(io_error_text(&e))),
        }
    }

    /// Adds a stored (uncompressed) entry. On a sound writer it succeeds
    /// when the path is new and the archive stays within `zip_room`.
    pub fn write_stored(&mut self, name: &str, data: &[u8]) -> (r: Result<(), SerializeError>)
        ensures
            r is Ok ==> final(self).entries() == old(self).entries().push((name@, false, data@)),
            r is Ok && old(self).sound() ==> final(self).sound(),
            r matches Err(e) ==> e is ZipError,
            old(self).sound() && !has_path(old(self).entries(), name@)
                && zip_room(old(self).entries().push((name@, false, data@))) ==> r is Ok,
    {
        self.write_entry(name, data, false)
    }

    /// Adds a deflated entry. On a sound writer it succeeds when the path
    /// is new and the archive stays within `zip_room`.
    pub fn write_deflated(&mut self, name: &str, data: &[u8]) -> (r: Result<(), SerializeError>)
        ensures
            r is Ok ==> final(self).entries() == old(self).entries().push((name@, true, data@)),
            r is Ok && old(self).sound() ==> final(self).sound(),
            r matches Err(e) ==> e is ZipError,
            old(self).sound() && !has_path(old(self).entries(), name@)
                && zip_room(old(self).entries().push((name@, true, data@))) ==> r is Ok,
    {
        self.write_entry(name, data, true)
    }

    /// Finishes the archive and returns its bytes; a sound writer within
    /// `zip_room` always succeeds.
    pub fn finish(self) -> (r: Result<Vec<u8>, SerializeError>)
        ensures
            r matches Ok(bytes) ==> bytes@ == zip_archive_bytes(self.entries()),
            r matches Err(e) ==> e is ZipError,
            self.sound() && zip_room(self.entries()) ==> r is Ok,
    {
        match zip_finish(self) {
            Ok(bytes) => Ok(bytes),
            Err(e) => Err(SerializeError::ZipError(zip_error_text(&e))),
        }
    }
}

} // verus!
