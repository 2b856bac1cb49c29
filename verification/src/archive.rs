//! Telling a download's format from its leading bytes, and taking the wanted
//! file out of it.
//!
//! Nothing here touches the file system. The caller reads the download,
//! says whether the target is already there, and carries out the
//! [`Extraction`] that comes back.
use vstd::prelude::*;
use vstd::slice::slice_subrange;
use crate::error::{Error, ErrorView, Failure};
use crate::text::{base_name, base_name_of, eq_ignore_ascii_case, lower};

verus! {

/// How many leading bytes of a download are looked at to tell its format.
pub const SNIFF_LIMIT: usize = 8192;

/// The extension that goes with zip archives.
pub const ZIP: &'static str = "zip";

/// The extension that goes with gzip streams.
pub const GZ: &'static str = "gz";

/// The extension that goes with XML documents.
pub const XML: &'static str = "xml";

/// The extension of the first format known to `infer` whose signature the
/// bytes carry, or `None` where no signature is found.
pub uninterp spec fn inferred_extension(head: Seq<u8>) -> Option<Seq<char>>;

/// The number of entries in the directory of a zip archive, or `None` where
/// `zip` cannot read the bytes as an archive.
pub uninterp spec fn zip_entry_count(bytes: Seq<u8>) -> Option<nat>;

/// The name of the entry at `index` of a zip archive, or `None` where `zip`
/// cannot open that entry.
pub uninterp spec fn zip_entry_name(bytes: Seq<u8>, index: nat) -> Option<Seq<char>>;

/// The unpacked content of the entry at `index` of a zip archive, or `None`
/// where `zip` cannot open or unpack that entry.
pub uninterp spec fn zip_entry_data(bytes: Seq<u8>, index: nat) -> Option<Seq<u8>>;

/// What a gzip stream decodes to, or `None` where `flate2` cannot decode the
/// bytes.
pub uninterp spec fn gzip_decoded(bytes: Seq<u8>) -> Option<Seq<u8>>;

/// Calls `infer::get` and, on a match, `infer::Type::extension`. Assumed:
/// the outcome depends on the bytes alone.
#[verifier::external_body]
fn infer_extension(head: &[u8]) -> (r: Option<String>)
    ensures
        match r {
            Some(ext) => inferred_extension(head@) == Some(ext@),
            None => inferred_extension(head@) is None,
        },
{
    match infer::get(head) {
        Some(kind) => Some(kind.extension().to_string()),
        None => None,
    }
}

/// Calls `zip::ZipArchive::new` on the bytes and then `ZipArchive::len`.
/// Assumed: the outcome depends on the bytes alone.
#[verifier::external_body]
fn read_zip_len(bytes: &[u8]) -> (r: Option<usize>)
    ensures
        match r {
            Some(n) => zip_entry_count(bytes@) == Some(n as nat),
            None => zip_entry_count(bytes@) is None,
        },
{
    match zip::ZipArchive::new(std::io::Cursor::new(bytes)) {
        Ok(archive) => Some(archive.len()),
        Err(_) => None,
    }
}

/// Calls `zip::ZipArchive::by_index_decrypt` with an empty password and
/// then `ZipFile::name`. Assumed: the outcome depends on the bytes and the
/// index alone. `by_index_decrypt` stands in for `by_index`, which panics on
/// an entry that carries an AES field without being marked as encrypted;
/// on every other entry the two open the same.
#[verifier::external_body]
fn read_zip_entry_name(bytes: &[u8], index: usize) -> (r: Option<String>)
    ensures
        match r {
            Some(name) => zip_entry_name(bytes@, index as nat) == Some(name@),
            None => zip_entry_name(bytes@, index as nat) is None,
        },
{
    let mut archive = zip::ZipArchive::new(std::io::Cursor::new(bytes)).ok()?;
    let entry = archive.by_index_decrypt(index, &[]).ok()?.ok()?;
    Some(entry.name().to_string())
}

/// Calls `zip::ZipArchive::by_index_decrypt` with an empty password and
/// reads the entry to its end. Assumed: the outcome depends on the bytes and
/// the index alone.
#[verifier::external_body]
fn read_zip_entry_data(bytes: &[u8], index: usize) -> (r: Option<Vec<u8>>)
    ensures
        match r {
            Some(data) => zip_entry_data(bytes@, index as nat) == Some(data@),
            None => zip_entry_data(bytes@, index as nat) is None,
        },
{
    let mut archive = zip::ZipArchive::new(std::io::Cursor::new(bytes)).ok()?;
    let mut entry = archive.by_index_decrypt(index, &[]).ok()?.ok()?;
    let mut data = Vec::new();
    std::io::Read::read_to_end(&mut entry, &mut data).ok()?;
    Some(data)
}

/// Reads a `flate2::read::GzDecoder` over the bytes to its end. Assumed: the
/// outcome depends on the bytes alone.
#[verifier::external_body]
fn gunzip(bytes: &[u8]) -> (r: Option<Vec<u8>>)
    ensures
        match r {
            Some(data) => gzip_decoded(bytes@) == Some(data@),
            None => gzip_decoded(bytes@) is None,
        },
{
    let mut decoder = flate2::read::GzDecoder::new(bytes);
    let mut data = Vec::new();
    std::io::Read::read_to_end(&mut decoder, &mut data).ok()?;
    Some(data)
}

/// The container format of a download, told from its content.
#[derive(Debug, Clone, Copy, PartialEq, Eq, Structural)]
pub enum DetectedFormat {
    /// A zip archive.
    Zip,
    /// A gzip stream, taken to hold a tar archive.
    GzipTar,
    /// An XML document: the server's way of saying that there is no such
    /// download.
    UnsupportedXml,
    /// A format that is recognised and cannot be unpacked here.
    Unknown,
}

/// The format that an extension stands for. Letter case does not count.
pub open spec fn format_of(extension: Seq<char>) -> DetectedFormat {
    if lower(extension) == lower(ZIP@) {
        DetectedFormat::Zip
    } else if lower(extension) == lower(GZ@) {
        DetectedFormat::GzipTar
    } else if lower(extension) == lower(XML@) {
        DetectedFormat::UnsupportedXml
    } else {
        DetectedFormat::Unknown
    }
}

/// The leading bytes of a download that decide its format.
pub open spec fn head_of(content: Seq<u8>) -> Seq<u8> {
    if content.len() <= SNIFF_LIMIT {
        content
    } else {
        content.take(SNIFF_LIMIT as int)
    }
}

/// Tells the format that an extension stands for.
pub fn classify(extension: &str) -> (r: DetectedFormat)
    ensures
        r == format_of(extension@),
{
    if eq_ignore_ascii_case(extension, ZIP) {
        DetectedFormat::Zip
    } else if eq_ignore_ascii_case(extension, GZ) {
        DetectedFormat::GzipTar
    } else if eq_ignore_ascii_case(extension, XML) {
        DetectedFormat::UnsupportedXml
    } else {
        DetectedFormat::Unknown
    }
}

/// The extension that goes with the format of a download, told from its
/// leading bytes. Its name plays no part.
pub fn detect_extension(content: &[u8]) -> (r: Option<String>)
    ensures
        match r {
            Some(ext) => inferred_extension(head_of(content@)) == Some(ext@),
            None => inferred_extension(head_of(content@)) is None,
        },
{
    if content.len() <= SNIFF_LIMIT {
        infer_extension(content)
    } else {
        let head = slice_subrange(content, 0, SNIFF_LIMIT);
        infer_extension(head)
    }
}

/// What is left for the caller to do once a download has been looked at.
#[derive(Debug, Clone, PartialEq, Eq)]
pub enum Extraction {
    /// The target is there already: nothing is read and nothing is written.
    AlreadyPresent,
    /// The zip archive holds no entry of the target's name: nothing is
    /// written.
    NoMatchingEntry,
    /// These bytes are the target's content: write them to the target,
    /// make its directories first, and make it executable.
    WriteFile(Vec<u8>),
    /// These bytes are a tar archive: unpack all of it into the directory
    /// that holds the target.
    UnpackAll(Vec<u8>),
}

/// The mathematical value of an [`Extraction`].
pub enum ExtractionView {
    AlreadyPresent,
    NoMatchingEntry,
    WriteFile(Seq<u8>),
    UnpackAll(Seq<u8>),
}

impl View for Extraction {
    type V = ExtractionView;

    open spec fn view(&self) -> ExtractionView {
        match *self {
            Extraction::AlreadyPresent => ExtractionView::AlreadyPresent,
            Extraction::NoMatchingEntry => ExtractionView::NoMatchingEntry,
            Extraction::WriteFile(data) => ExtractionView::WriteFile(data@),
            Extraction::UnpackAll(data) => ExtractionView::UnpackAll(data@),
        }
    }
}

/// The mathematical value of what an extraction returns.
pub open spec fn outcome(r: Result<Extraction, Error>) -> Result<ExtractionView, ErrorView> {
    match r {
        Ok(extraction) => Ok(extraction@),
        Err(e) => Err(e@),
    }
}

/// An entry of this name is the one wanted for a target of that file name:
/// what follows the last `/` of the entry's name equals the target's file
/// name, letter case aside.
pub open spec fn names_match(entry_name: Seq<char>, target_name: Seq<char>) -> bool {
    lower(base_name_of(entry_name)) == lower(target_name)
}

/// What scanning the entries from `from` on gives, in an archive of `count`
/// entries: the content of the first entry whose name matches, a failure
/// where that entry or one before it cannot be read, and no match where the
/// entries run out.
pub open spec fn scan_from(bytes: Seq<u8>, target_name: Seq<char>, from: nat, count: nat) -> Result<
    ExtractionView,
    ErrorView,
>
    decreases count - from,
{
    if from >= count {
        Ok(ExtractionView::NoMatchingEntry)
    } else {
        match zip_entry_name(bytes, from) {
            None => Err(ErrorView::IoFailure(Failure::ZipEntry)),
            Some(name) => if names_match(name, target_name) {
                match zip_entry_data(bytes, from) {
                    Some(data) => Ok(ExtractionView::WriteFile(data)),
                    None => Err(ErrorView::IoFailure(Failure::ZipEntry)),
                }
            } else {
                scan_from(bytes, target_name, from + 1, count)
            },
        }
    }
}

/// What taking the target out of a zip archive gives.
pub open spec fn unzip_outcome(bytes: Seq<u8>, target_name: Seq<char>, target_exists: bool) -> Result<
    ExtractionView,
    ErrorView,
> {
    if target_exists {
        Ok(ExtractionView::AlreadyPresent)
    } else {
        match zip_entry_count(bytes) {
            None => Err(ErrorView::IoFailure(Failure::ZipDirectory)),
            Some(count) => scan_from(bytes, target_name, 0, count),
        }
    }
}

/// What unpacking a gzipped tar archive gives.
pub open spec fn untargz_outcome(bytes: Seq<u8>, target_exists: bool) -> Result<
    ExtractionView,
    ErrorView,
> {
    if target_exists {
        Ok(ExtractionView::AlreadyPresent)
    } else {
        match gzip_decoded(bytes) {
            None => Err(ErrorView::IoFailure(Failure::GzipStream)),
            Some(data) => Ok(ExtractionView::UnpackAll(data)),
        }
    }
}

/// What unpacking content of the given format gives; `extension` is the one
/// that was inferred.
pub open spec fn dispatch_outcome(
    extension: Seq<char>,
    bytes: Seq<u8>,
    target_name: Seq<char>,
    target_exists: bool,
) -> Result<ExtractionView, ErrorView> {
    match format_of(extension) {
        DetectedFormat::Zip => unzip_outcome(bytes, target_name, target_exists),
        DetectedFormat::GzipTar => untargz_outcome(bytes, target_exists),
        DetectedFormat::UnsupportedXml => Err(ErrorView::WrongVersion),
        DetectedFormat::Unknown => Err(ErrorView::UnsupportedFormat(extension)),
    }
}

/// What unpacking a download gives.
pub open spec fn uncompress_outcome(bytes: Seq<u8>, target_name: Seq<char>, target_exists: bool) -> Result<
    ExtractionView,
    ErrorView,
> {
    match inferred_extension(head_of(bytes)) {
        None => Err(ErrorView::FormatInferenceFailure),
        Some(extension) => dispatch_outcome(extension, bytes, target_name, target_exists),
    }
}

/// Whether the entry of this name is the one wanted for a target of that
/// file name.
pub fn entry_matches(entry_name: &str, target_name: &str) -> (r: bool)
    ensures
        r == names_match(entry_name@, target_name@),
{
    let base = base_name(entry_name);
    eq_ignore_ascii_case(base.as_str(), target_name)
}

/// Takes the target out of a zip archive: the content of the first entry, in
/// the archive's order, whose name matches the target's file name. Where the
/// target exists the archive is not read.
pub fn unzip(content: &[u8], target_name: &str, target_exists: bool) -> (r: Result<Extraction, Error>)
    ensures
        outcome(r) == unzip_outcome(content@, target_name@, target_exists),
{
    if target_exists {
        return Ok(Extraction::AlreadyPresent);
    }
    let count = match read_zip_len(content) {
        Some(count) => count,
        None => {
            return Err(Error::IoFailure(Failure::ZipDirectory));
        },
    };
    let mut i: usize = 0;
    while i < count
        invariant
            i <= count,
            !target_exists,
            zip_entry_count(content@) == Some(count as nat),
            scan_from(content@, target_name@, 0, count as nat) == scan_from(
                content@,
                target_name@,
                i as nat,
                count as nat,
            ),
        decreases count - i,
    {
        let name = match read_zip_entry_name(content, i) {
            Some(name) => name,
            None => {
                return Err(Error::IoFailure(Failure::ZipEntry));
            },
        };
        if entry_matches(name.as_str(), target_name) {
            return match read_zip_entry_data(content, i) {
                Some(data) => Ok(Extraction::WriteFile(data)),
                None => Err(Error::IoFailure(Failure::ZipEntry)),
            };
        }
        i += 1;
    }
    Ok(Extraction::NoMatchingEntry)
}

/// Decodes a gzipped tar archive for unpacking as a whole. Where the target
/// exists the stream is not read.
pub fn untargz(content: &[u8], target_exists: bool) -> (r: Result<Extraction, Error>)
    ensures
        outcome(r) == untargz_outcome(content@, target_exists),
{
    if target_exists {
        return Ok(Extraction::AlreadyPresent);
    }
    match gunzip(content) {
        Some(data) => Ok(Extraction::UnpackAll(data)),
        None => Err(Error::IoFailure(Failure::GzipStream)),
    }
}

/// Unpacks content whose format has been inferred already, `extension`
/// being the extension that goes with it.
pub fn dispatch(extension: String, content: &[u8], target_name: &str, target_exists: bool) -> (r: Result<
    Extraction,
    Error,
>)
    ensures
        outcome(r) == dispatch_outcome(extension@, content@, target_name@, target_exists),
{
    match classify(extension.as_str()) {
        DetectedFormat::Zip => unzip(content, target_name, target_exists),
        DetectedFormat::GzipTar => untargz(content, target_exists),
        DetectedFormat::UnsupportedXml => Err(Error::WrongVersion),
        DetectedFormat::Unknown => Err(Error::UnsupportedFormat(extension)),
    }
}

/// Unpacks a download whose name says nothing reliable of its format: the
/// format is inferred from the leading bytes, and the download is unpacked
/// as that format asks.
pub fn uncompress(content: &[u8], target_name: &str, target_exists: bool) -> (r: Result<
    Extraction,
    Error,
>)
    ensures
        outcome(r) == uncompress_outcome(content@, target_name@, target_exists),
{
    match detect_extension(content) {
        None => Err(Error::FormatInferenceFailure),
        Some(extension) => dispatch(extension, content, target_name, target_exists),
    }
}

/// The entry at `index` can be opened and is not the one wanted.
pub open spec fn is_passed_over(bytes: Seq<u8>, target_name: Seq<char>, index: nat) -> bool {
    match zip_entry_name(bytes, index) {
        Some(name) => !names_match(name, target_name),
        None => false,
    }
}

/// The entry at `index` can be opened and is the one wanted.
pub open spec fn is_wanted(bytes: Seq<u8>, target_name: Seq<char>, index: nat) -> bool {
    match zip_entry_name(bytes, index) {
        Some(name) => names_match(name, target_name),
        None => false,
    }
}

/// The content is found to be a zip archive or a gzip stream.
pub open spec fn is_archive(bytes: Seq<u8>) -> bool {
    match inferred_extension(head_of(bytes)) {
        Some(extension) => format_of(extension) == DetectedFormat::Zip || format_of(extension)
            == DetectedFormat::GzipTar,
        None => false,
    }
}

/// Unpacking for a target that exists asks for nothing to be done and does
/// not fail, whatever the archive holds. For a download whose format is yet
/// to be told this holds once its content is found to be a zip archive or a
/// gzip stream.
pub proof fn lemma_existing_target_is_kept(bytes: Seq<u8>, target_name: Seq<char>)
    ensures
        unzip_outcome(bytes, target_name, true) == Ok::<ExtractionView, ErrorView>(
            ExtractionView::AlreadyPresent,
        ),
        untargz_outcome(bytes, true) == Ok::<ExtractionView, ErrorView>(ExtractionView::AlreadyPresent),
        is_archive(bytes) ==> uncompress_outcome(bytes, target_name, true) == Ok::<
            ExtractionView,
            ErrorView,
        >(ExtractionView::AlreadyPresent),
{
}

/// The three extensions that are told apart stand for three formats.
pub proof fn lemma_known_formats()
    ensures
        format_of(ZIP@) == DetectedFormat::Zip,
        format_of(GZ@) == DetectedFormat::GzipTar,
        format_of(XML@) == DetectedFormat::UnsupportedXml,
{
    reveal_strlit("zip");
    reveal_strlit("gz");
    reveal_strlit("xml");
    assert(lower(XML@)[0] != lower(ZIP@)[0]);
}

/// Content that is found to be a zip archive is unpacked as one, and content
/// that is found to be XML is reported as a wrong version, whether or not
/// the target exists. The name of the download plays no part: the outcome
/// is a function of its bytes.
pub proof fn lemma_format_decides(bytes: Seq<u8>, target_name: Seq<char>, target_exists: bool)
    ensures
        inferred_extension(head_of(bytes)) == Some(ZIP@) ==> uncompress_outcome(
            bytes,
            target_name,
            target_exists,
        ) == unzip_outcome(bytes, target_name, target_exists),
        inferred_extension(head_of(bytes)) == Some(GZ@) ==> uncompress_outcome(
            bytes,
            target_name,
            target_exists,
        ) == untargz_outcome(bytes, target_exists),
        inferred_extension(head_of(bytes)) == Some(XML@) ==> uncompress_outcome(
            bytes,
            target_name,
            target_exists,
        ) == Err::<ExtractionView, ErrorView>(ErrorView::WrongVersion),
{
    lemma_known_formats();
}

/// Scanning picks the first match: where the entries before `index` can be
/// opened and none of them matches, and the entry at `index` matches, the
/// outcome is the content of that entry, or a failure where it cannot be
/// unpacked.
pub proof fn lemma_first_match_is_taken(bytes: Seq<u8>, target_name: Seq<char>, index: nat, count: nat)
    requires
        index < count,
        forall|j: nat| j < index ==> #[trigger] is_passed_over(bytes, target_name, j),
        is_wanted(bytes, target_name, index),
    ensures
        scan_from(bytes, target_name, 0, count) == match zip_entry_data(bytes, index) {
            Some(data) => Ok::<ExtractionView, ErrorView>(ExtractionView::WriteFile(data)),
            None => Err(ErrorView::IoFailure(Failure::ZipEntry)),
        },
{
    lemma_scan_skips(bytes, target_name, 0, index, count);
}

/// Scanning passes over entries that can be opened and do not match.
pub proof fn lemma_scan_skips(bytes: Seq<u8>, target_name: Seq<char>, from: nat, to: nat, count: nat)
    requires
        from <= to <= count,
        forall|j: nat| from <= j < to ==> #[trigger] is_passed_over(bytes, target_name, j),
    ensures
        scan_from(bytes, target_name, from, count) == scan_from(bytes, target_name, to, count),
    decreases to - from,
{
    if from < to {
        assert(is_passed_over(bytes, target_name, from));
        lemma_scan_skips(bytes, target_name, from + 1, to, count);
    }
}

/// Where every entry can be opened and none matches, nothing is taken out
/// and nothing fails.
pub proof fn lemma_no_match_is_no_failure(bytes: Seq<u8>, target_name: Seq<char>, count: nat)
    requires
        forall|j: nat| j < count ==> #[trigger] is_passed_over(bytes, target_name, j),
    ensures
        scan_from(bytes, target_name, 0, count) == Ok::<ExtractionView, ErrorView>(
            ExtractionView::NoMatchingEntry,
        ),
{
    lemma_scan_skips(bytes, target_name, 0, count, count);
}

} // verus!
