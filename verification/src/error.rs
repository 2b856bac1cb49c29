//! The ways in which detecting, unpacking and version parsing fail.
use vstd::prelude::*;

verus! {

/// What is reported when a probe or a download turns out not to be what was
/// asked for.
pub const PARSE_ERROR: &'static str = "Wrong browser/driver version";

/// The part of reading an archive that went wrong.
#[derive(Debug, Clone, Copy, PartialEq, Eq, Structural)]
pub enum Failure {
    /// The zip directory could not be read.
    ZipDirectory,
    /// An entry of the zip archive could not be read.
    ZipEntry,
    /// The gzip stream could not be decoded.
    GzipStream,
}

/// A failed operation.
#[derive(Debug, Clone, PartialEq, Eq)]
pub enum Error {
    /// The content matches no known format.
    FormatInferenceFailure,
    /// The content has a known format that cannot be unpacked; the field is
    /// the extension that goes with that format.
    UnsupportedFormat(String),
    /// The text or the download stands for an error, not for a version or a
    /// binary.
    WrongVersion,
    /// The archive could not be read.
    IoFailure(Failure),
    /// A search pattern was rejected.
    InvalidPattern,
}

/// The mathematical value of an [`Error`].
pub enum ErrorView {
    FormatInferenceFailure,
    UnsupportedFormat(Seq<char>),
    WrongVersion,
    IoFailure(Failure),
    InvalidPattern,
}

impl View for Error {
    type V = ErrorView;

    open spec fn view(&self) -> ErrorView {
        match *self {
            Error::FormatInferenceFailure => ErrorView::FormatInferenceFailure,
            Error::UnsupportedFormat(ext) => ErrorView::UnsupportedFormat(ext@),
            Error::WrongVersion => ErrorView::WrongVersion,
            Error::IoFailure(step) => ErrorView::IoFailure(step),
            Error::InvalidPattern => ErrorView::InvalidPattern,
        }
    }
}

/// The text that describes an error.
pub open spec fn message_of(e: ErrorView) -> Seq<char> {
    match e {
        ErrorView::FormatInferenceFailure => "Format for file cannot be inferred"@,
        ErrorView::UnsupportedFormat(ext) => "Downloaded file cannot be uncompressed ("@ + ext
            + " extension)"@,
        ErrorView::WrongVersion => PARSE_ERROR@,
        ErrorView::IoFailure(Failure::ZipDirectory) => "Zip archive cannot be read"@,
        ErrorView::IoFailure(Failure::ZipEntry) => "Zip entry cannot be read"@,
        ErrorView::IoFailure(Failure::GzipStream) => "Gzip stream cannot be decoded"@,
        ErrorView::InvalidPattern => "Version pattern was rejected"@,
    }
}

impl Error {
    /// A description of the error for a person to read.
    pub fn message(&self) -> (r: String)
        ensures
            r@ == message_of(self@),
    {
        match self {
            Error::FormatInferenceFailure => String::from_str("Format for file cannot be inferred"),
            Error::UnsupportedFormat(ext) => {
                let start = String::from_str("Downloaded file cannot be uncompressed (");
                start.concat(ext.as_str()).concat(" extension)")
            },
            Error::WrongVersion => String::from_str(PARSE_ERROR),
            Error::IoFailure(Failure::ZipDirectory) => String::from_str("Zip archive cannot be read"),
            Error::IoFailure(Failure::ZipEntry) => String::from_str("Zip entry cannot be read"),
            Error::IoFailure(Failure::GzipStream) => String::from_str(
                "Gzip stream cannot be decoded",
            ),
            Error::InvalidPattern => String::from_str("Version pattern was rejected"),
        }
    }
}

} // verus!
