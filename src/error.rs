//! Errors that abort the parse of a book.
use vstd::prelude::*;
use vstd::string::StringExecFns;

verus! {

/// What went wrong.
#[derive(Clone, Copy, Debug, PartialEq, Eq, Structural)]
pub enum ErrorKind {
    /// The input is not valid base64.
    DecodeError,
    /// The decoded bytes are not a zip archive.
    ArchiveError,
    /// A required archive entry is absent or cannot be read.
    MissingEntryError,
    /// A required XML document is not well-formed.
    XmlParseError,
    /// The container document names no package document.
    MissingFieldError,
    /// No chapter with any text was found.
    NoChaptersError,
}

/// An error with its kind and the path or document it concerns (empty
/// where there is none).
pub struct EpubError {
    pub kind: ErrorKind,
    pub detail: String,
}

/// The opening words of the message for each kind of error.
pub open spec fn message_head(kind: ErrorKind) -> Seq<char> {
    match kind {
        ErrorKind::DecodeError => "Invalid base64: "@,
        ErrorKind::ArchiveError => "Invalid EPUB archive: "@,
        ErrorKind::MissingEntryError => "Missing file "@,
        ErrorKind::XmlParseError => "Invalid XML in "@,
        ErrorKind::MissingFieldError => "EPUB container missing rootfile"@,
        ErrorKind::NoChaptersError => "No readable chapters found in EPUB."@,
    }
}

impl EpubError {
    /// An error of kind `kind` about `detail`.
    pub fn new(kind: ErrorKind, detail: &str) -> (r: EpubError)
        ensures
            r.kind == kind,
            r.detail@ == detail@,
    {
        EpubError { kind, detail: String::from_str(detail) }
    }

    /// A message for people, naming the path or document concerned.
    pub fn message(&self) -> (r: String)
        ensures
            r@ == message_head(self.kind) + self.detail@,
    {
        let head = match self.kind {
            ErrorKind::DecodeError => "Invalid base64: ",
            ErrorKind::ArchiveError => "Invalid EPUB archive: ",
            ErrorKind::MissingEntryError => "Missing file ",
            ErrorKind::XmlParseError => "Invalid XML in ",
            ErrorKind::MissingFieldError => "EPUB container missing rootfile",
            ErrorKind::NoChaptersError => "No readable chapters found in EPUB.",
        };
        String::from_str(head).concat(self.detail.as_str())
    }
}

} // verus!
