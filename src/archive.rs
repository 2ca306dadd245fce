//! The EPUB archive: base64 decoding, the zip reader, and reading entries
//! by path with a percent-decoded second try.
use vstd::prelude::*;
use base64::Engine;
use std::io::Read;
use vstd::string::StringSliceAdditionalSpecFns;
use crate::error::{EpubError, ErrorKind};
use crate::path::{from_utf8_lossy, percent_decode, percent_decode_path, utf8_lossy};

verus! {

#[verifier::external_type_specification]
#[verifier::external_body]
#[verifier::reject_recursive_types(T)]
pub struct ExCursor<T>(std::io::Cursor<T>);

#[verifier::external_type_specification]
#[verifier::external_body]
#[verifier::reject_recursive_types(R)]
pub struct ExZipArchive<R>(zip::ZipArchive<R>);

/// A zip archive read from memory.
pub type Archive = zip::ZipArchive<std::io::Cursor<Vec<u8>>>;

/// The bytes that the base64 text `s` stands for, or `None` when it is not
/// valid base64 (standard alphabet, with padding).
pub uninterp spec fn base64_decoded(s: Seq<char>) -> Option<Seq<u8>>;

/// The base64 text (standard alphabet, with padding) of `b`.
pub uninterp spec fn base64_encoded(b: Seq<u8>) -> Seq<char>;

/// What an archive made from `b` holds: the entries that open and read,
/// by name, each with its uncompressed contents, and the names that open
/// at all; `None` when `b` is not a zip archive.
pub uninterp spec fn zip_contents(b: Seq<u8>) -> Option<(Map<Seq<char>, Seq<u8>>, Set<Seq<char>>)>;

/// The entries of an open archive that open and read, by name, each with
/// its uncompressed contents.
pub uninterp spec fn archive_entries(a: Archive) -> Map<Seq<char>, Seq<u8>>;

/// The names under which an open archive opens an entry.
pub uninterp spec fn archive_opens(a: Archive) -> Set<Seq<char>>;

/// Whether two states of an archive hold the same entries.
pub open spec fn same_archive(a: Archive, b: Archive) -> bool {
    archive_entries(a) == archive_entries(b) && archive_opens(a) == archive_opens(b)
}

/// Relies on `base64::engine::general_purpose::STANDARD.decode`: the result
/// depends on the text alone; an error comes back as its message.
#[verifier::external_body]
pub(crate) fn decode_base64(s: &str) -> (r: Result<Vec<u8>, String>)
    ensures
        match r {
            Ok(b) => base64_decoded(s@) == Some(b@),
            Err(_) => base64_decoded(s@) is None,
        },
{
    base64::engine::general_purpose::STANDARD.decode(s.as_bytes()).map_err(|e| e.to_string())
}

/// Relies on `base64::engine::general_purpose::STANDARD.encode`: the result
/// depends on the bytes alone.
#[verifier::external_body]
pub(crate) fn encode_base64(b: &[u8]) -> (r: String)
    ensures
        r@ == base64_encoded(b@),
{
    base64::engine::general_purpose::STANDARD.encode(b)
}

/// Relies on `zip::ZipArchive::new` over a `std::io::Cursor`: it reads the
/// central directory of the bytes, and fails when they hold no zip archive;
/// an error comes back as its message.
#[verifier::external_body]
pub(crate) fn open_archive(bytes: Vec<u8>) -> (r: Result<Archive, String>)
    ensures
        match r {
            Ok(a) => zip_contents(bytes@) == Some((archive_entries(a), archive_opens(a))),
            Err(_) => zip_contents(bytes@) is None,
        },
{
    zip::ZipArchive::new(std::io::Cursor::new(bytes)).map_err(|e| e.to_string())
}

/// Why an entry could not be read.
#[derive(Debug, Clone, Copy, PartialEq, Eq, Structural)]
pub enum EntryFailure {
    /// The archive has no entry of that name, or cannot open it.
    Unopened,
    /// The entry was opened but its contents could not be read.
    Unreadable,
}

/// Relies on `zip::ZipArchive::by_name`, then `std::io::Read::read_to_end`
/// on the entry. Both depend on the archive's bytes and the name alone, and
/// reading leaves the entries as they were.
#[verifier::external_body]
pub(crate) fn read_entry(zip: &mut Archive, name: &str) -> (r: Result<Vec<u8>, EntryFailure>)
    ensures
        same_archive(*final(zip), *old(zip)),
        archive_entries(*old(zip)).contains_key(name@) ==> r is Ok
            && r->Ok_0@ == archive_entries(*old(zip))[name@],
        !archive_entries(*old(zip)).contains_key(name@) ==> r is Err
            && (r->Err_0 == EntryFailure::Unopened <==> !archive_opens(*old(zip)).contains(name@)),
{
    let mut file = zip.by_name(name).map_err(|_| EntryFailure::Unopened)?;
    let mut bytes = Vec::new();
    file.read_to_end(&mut bytes).map_err(|_| EntryFailure::Unreadable)?;
    Ok(bytes)
}

/// The path with its `%XX` escapes decoded, as archives sometimes store names.
pub open spec fn decoded_path(path: Seq<char>) -> Seq<char> {
    utf8_lossy(percent_decode(crate::text::encode_utf8_of(path)))
}

/// The bytes read for `path`: the entry of that name; or, when no entry of
/// that name opens, the entry under the percent-decoded name. An entry that
/// opens but cannot be read gives nothing.
pub open spec fn entry_bytes(entries: Map<Seq<char>, Seq<u8>>, opens: Set<Seq<char>>, path: Seq<char>) -> Option<Seq<u8>> {
    if entries.contains_key(path) {
        Some(entries[path])
    } else if opens.contains(path) {
        None
    } else if entries.contains_key(decoded_path(path)) {
        Some(entries[decoded_path(path)])
    } else {
        None
    }
}

/// The text read for `path`, with invalid UTF-8 replaced.
pub open spec fn entry_text(entries: Map<Seq<char>, Seq<u8>>, opens: Set<Seq<char>>, path: Seq<char>) -> Option<Seq<char>> {
    match entry_bytes(entries, opens, path) {
        Some(b) => Some(utf8_lossy(b)),
        None => None,
    }
}

/// Reads the entry at `path`; when the archive cannot open an entry of that
/// name, it tries the percent-decoded name.
pub fn read_zip_bytes(zip: &mut Archive, path: &str) -> (r: Result<Vec<u8>, EpubError>)
    ensures
        same_archive(*final(zip), *old(zip)),
        match entry_bytes(archive_entries(*old(zip)), archive_opens(*old(zip)), path@) {
            Some(b) => r is Ok && r->Ok_0@ == b,
            None => r is Err && r->Err_0.kind == ErrorKind::MissingEntryError && r->Err_0.detail@ == path@,
        },
{
    match read_entry(zip, path) {
        Ok(b) => Ok(b),
        Err(EntryFailure::Unreadable) => Err(EpubError::new(ErrorKind::MissingEntryError, path)),
        Err(EntryFailure::Unopened) => {
            let decoded = percent_decode_path(path);
            match read_entry(zip, decoded.as_str()) {
                Ok(b) => Ok(b),
                Err(_) => Err(EpubError::new(ErrorKind::MissingEntryError, path)),
            }
        },
    }
}

/// Reads the entry at `path` as text, replacing invalid UTF-8.
pub fn read_zip_file(zip: &mut Archive, path: &str) -> (r: Result<String, EpubError>)
    ensures
        same_archive(*final(zip), *old(zip)),
        match entry_text(archive_entries(*old(zip)), archive_opens(*old(zip)), path@) {
            Some(t) => r is Ok && r->Ok_0@ == t,
            None => r is Err && r->Err_0.kind == ErrorKind::MissingEntryError && r->Err_0.detail@ == path@,
        },
{
    let bytes = read_zip_bytes(zip, path)?;
    Ok(from_utf8_lossy(bytes.as_slice()))
}

} // verus!
