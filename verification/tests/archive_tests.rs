use std::io::Write;

use selenium_manager::{
    classify, detect_extension, dispatch, entry_matches, uncompress, untargz, unzip, DetectedFormat, Error,
    Extraction, Failure,
};

fn zip_of(entries: &[(&str, &[u8])]) -> Vec<u8> {
    let mut writer = zip::ZipWriter::new(std::io::Cursor::new(Vec::new()));
    for (name, data) in entries {
        writer.start_file(*name, zip::write::FileOptions::default()).unwrap();
        writer.write_all(data).unwrap();
    }
    writer.finish().unwrap().into_inner()
}

fn gzip_of(data: &[u8]) -> Vec<u8> {
    let mut encoder = flate2::write::GzEncoder::new(Vec::new(), flate2::Compression::default());
    encoder.write_all(data).unwrap();
    encoder.finish().unwrap()
}

const XML_PAGE: &[u8] =
    b"<?xml version='1.0' encoding='UTF-8'?><Error><Code>NoSuchKey</Code></Error>";

const PNG_HEAD: &[u8] = &[0x89, 0x50, 0x4E, 0x47, 0x0D, 0x0A, 0x1A, 0x0A, 0, 0, 0, 0x0D];

#[test]
fn zip_content_is_told_from_its_bytes() {
    let archive = zip_of(&[("chromedriver", b"binary")]);
    assert_eq!(detect_extension(&archive), Some("zip".to_string()));
    assert_eq!(uncompress(&archive, "chromedriver", false), Ok(Extraction::WriteFile(b"binary".to_vec())));
}

#[test]
fn gzip_content_is_told_from_its_bytes() {
    let stream = gzip_of(b"not really a tar archive");
    assert_eq!(detect_extension(&stream), Some("gz".to_string()));
    assert_eq!(
        uncompress(&stream, "geckodriver", false),
        Ok(Extraction::UnpackAll(b"not really a tar archive".to_vec()))
    );
}

#[test]
fn xml_content_is_a_wrong_version() {
    assert_eq!(detect_extension(XML_PAGE), Some("xml".to_string()));
    assert_eq!(uncompress(XML_PAGE, "chromedriver", false), Err(Error::WrongVersion));
    assert_eq!(uncompress(XML_PAGE, "chromedriver", true), Err(Error::WrongVersion));
}

#[test]
fn another_known_format_is_unsupported_by_its_extension() {
    assert_eq!(
        uncompress(PNG_HEAD, "chromedriver", false),
        Err(Error::UnsupportedFormat("png".to_string()))
    );
    assert_eq!(
        Error::UnsupportedFormat("png".to_string()).message(),
        "Downloaded file cannot be uncompressed (png extension)"
    );
}

#[test]
fn unknown_content_fails_inference() {
    assert_eq!(detect_extension(b"plain words"), None);
    assert_eq!(uncompress(b"plain words", "chromedriver", false), Err(Error::FormatInferenceFailure));
    assert_eq!(uncompress(b"", "chromedriver", true), Err(Error::FormatInferenceFailure));
    assert_eq!(Error::FormatInferenceFailure.message(), "Format for file cannot be inferred");
}

#[test]
fn only_the_leading_bytes_decide_the_format() {
    let mut late = vec![0u8; 8192];
    late.extend_from_slice(&zip_of(&[("a", b"b")]));
    assert_eq!(detect_extension(&late), None);
    let mut padded = zip_of(&[("a", b"b")]);
    padded.resize(20000, 0);
    assert_eq!(detect_extension(&padded), Some("zip".to_string()));
}

#[test]
fn an_existing_target_is_left_alone() {
    let archive = zip_of(&[("chromedriver", b"binary")]);
    assert_eq!(unzip(&archive, "chromedriver", true), Ok(Extraction::AlreadyPresent));
    assert_eq!(unzip(b"rubbish", "chromedriver", true), Ok(Extraction::AlreadyPresent));
    assert_eq!(untargz(b"rubbish", true), Ok(Extraction::AlreadyPresent));
    assert_eq!(uncompress(&archive, "chromedriver", true), Ok(Extraction::AlreadyPresent));
    assert_eq!(uncompress(&gzip_of(b"x"), "geckodriver", true), Ok(Extraction::AlreadyPresent));
}

#[test]
fn the_first_matching_entry_is_taken() {
    let archive = zip_of(&[
        ("LICENSE.chromedriver", b"license"),
        ("chromedriver-linux64/chromedriver", b"first"),
        ("other/ChromeDriver", b"second"),
    ]);
    assert_eq!(unzip(&archive, "chromedriver", false), Ok(Extraction::WriteFile(b"first".to_vec())));
    assert_eq!(unzip(&archive, "CHROMEDRIVER", false), Ok(Extraction::WriteFile(b"first".to_vec())));
    assert_eq!(unzip(&archive, "license.CHROMEDRIVER", false), Ok(Extraction::WriteFile(b"license".to_vec())));
}

#[test]
fn no_matching_entry_is_no_error() {
    let archive = zip_of(&[("chromedriver-linux64/chromedriver", b"first")]);
    assert_eq!(unzip(&archive, "geckodriver", false), Ok(Extraction::NoMatchingEntry));
    assert_eq!(unzip(&archive, "chromedriver-linux64", false), Ok(Extraction::NoMatchingEntry));
    assert_eq!(unzip(&zip_of(&[]), "chromedriver", false), Ok(Extraction::NoMatchingEntry));
}

#[test]
fn an_empty_entry_is_written_empty() {
    let archive = zip_of(&[("msedgedriver.exe", b"")]);
    assert_eq!(unzip(&archive, "msedgedriver.exe", false), Ok(Extraction::WriteFile(Vec::new())));
}

#[test]
fn a_broken_zip_fails_at_its_directory() {
    assert_eq!(unzip(b"PK\x03\x04 and then nothing", "chromedriver", false), Err(Error::IoFailure(Failure::ZipDirectory)));
    assert_eq!(Error::IoFailure(Failure::ZipDirectory).message(), "Zip archive cannot be read");
}

#[test]
fn a_damaged_entry_fails_when_it_is_the_one_wanted() {
    let content = vec![7u8; 4000];
    let mut archive = zip_of(&[("chromedriver", &content)]);
    let at = 30 + "chromedriver".len() + 3;
    archive[at] ^= 0xFF;
    archive[at + 1] ^= 0xFF;
    assert_eq!(unzip(&archive, "chromedriver", false), Err(Error::IoFailure(Failure::ZipEntry)));
    assert_eq!(unzip(&archive, "geckodriver", false), Ok(Extraction::NoMatchingEntry));
    assert_eq!(Error::IoFailure(Failure::ZipEntry).message(), "Zip entry cannot be read");
}

#[test]
fn a_gzip_stream_is_decoded_whole() {
    let data: Vec<u8> = (0..50000u32).map(|i| (i % 251) as u8).collect();
    assert_eq!(untargz(&gzip_of(&data), false), Ok(Extraction::UnpackAll(data)));
}

#[test]
fn a_broken_gzip_stream_fails() {
    let mut stream = gzip_of(b"some content that is long enough to matter");
    stream.truncate(stream.len() - 6);
    assert_eq!(untargz(&stream, false), Err(Error::IoFailure(Failure::GzipStream)));
    assert_eq!(untargz(b"", false), Err(Error::IoFailure(Failure::GzipStream)));
    assert_eq!(Error::IoFailure(Failure::GzipStream).message(), "Gzip stream cannot be decoded");
}

#[test]
fn extensions_are_classified_whatever_their_case() {
    assert_eq!(classify("zip"), DetectedFormat::Zip);
    assert_eq!(classify("ZIP"), DetectedFormat::Zip);
    assert_eq!(classify("gz"), DetectedFormat::GzipTar);
    assert_eq!(classify("Gz"), DetectedFormat::GzipTar);
    assert_eq!(classify("xml"), DetectedFormat::UnsupportedXml);
    assert_eq!(classify("XmL"), DetectedFormat::UnsupportedXml);
    assert_eq!(classify("tar"), DetectedFormat::Unknown);
    assert_eq!(classify(""), DetectedFormat::Unknown);
    assert_eq!(classify("zipp"), DetectedFormat::Unknown);
}

#[test]
fn dispatch_goes_by_the_extension_given() {
    let archive = zip_of(&[("chromedriver", b"binary")]);
    assert_eq!(
        dispatch("ZIP".to_string(), &archive, "chromedriver", false),
        Ok(Extraction::WriteFile(b"binary".to_vec()))
    );
    assert_eq!(
        dispatch("gz".to_string(), &archive, "chromedriver", false),
        Err(Error::IoFailure(Failure::GzipStream))
    );
    assert_eq!(dispatch("xml".to_string(), &archive, "chromedriver", false), Err(Error::WrongVersion));
    assert_eq!(
        dispatch("7z".to_string(), &archive, "chromedriver", true),
        Err(Error::UnsupportedFormat("7z".to_string()))
    );
}

#[test]
fn entries_match_by_their_last_component() {
    assert!(entry_matches("chromedriver", "chromedriver"));
    assert!(entry_matches("a/b/ChromeDriver", "chromedriver"));
    assert!(entry_matches("a/msedgedriver.exe", "MSEDGEDRIVER.EXE"));
    assert!(!entry_matches("a/chromedriver/", "chromedriver"));
    assert!(!entry_matches("a\\chromedriver", "chromedriver"));
    assert!(!entry_matches("chromedriver.exe", "chromedriver"));
    assert!(entry_matches("dir/", ""));
}

fn le16(value: u16) -> [u8; 2] {
    value.to_le_bytes()
}

fn le32(value: u32) -> [u8; 4] {
    value.to_le_bytes()
}

/// One stored entry whose directory record carries an AES field while its
/// flags do not mark it as encrypted.
fn zip_with_unmarked_aes_entry(name: &str, data: &[u8]) -> Vec<u8> {
    let mut aes = Vec::new();
    aes.extend_from_slice(&le16(0x9901));
    aes.extend_from_slice(&le16(7));
    aes.extend_from_slice(&le16(2));
    aes.extend_from_slice(&le16(0x4541));
    aes.push(3);
    aes.extend_from_slice(&le16(0));

    let mut common = Vec::new();
    common.extend_from_slice(&le16(20));
    common.extend_from_slice(&le16(0));
    common.extend_from_slice(&le16(0));
    common.extend_from_slice(&le16(0));
    common.extend_from_slice(&le16(0x21));
    common.extend_from_slice(&le32(0));
    common.extend_from_slice(&le32(data.len() as u32));
    common.extend_from_slice(&le32(data.len() as u32));
    common.extend_from_slice(&le16(name.len() as u16));

    let mut bytes = Vec::new();
    bytes.extend_from_slice(&le32(0x04034b50));
    bytes.extend_from_slice(&common);
    bytes.extend_from_slice(&le16(0));
    bytes.extend_from_slice(name.as_bytes());
    bytes.extend_from_slice(data);

    let directory_at = bytes.len() as u32;
    bytes.extend_from_slice(&le32(0x02014b50));
    bytes.extend_from_slice(&le16(20));
    bytes.extend_from_slice(&common);
    bytes.extend_from_slice(&le16(aes.len() as u16));
    bytes.extend_from_slice(&le16(0));
    bytes.extend_from_slice(&le16(0));
    bytes.extend_from_slice(&le16(0));
    bytes.extend_from_slice(&le32(0));
    bytes.extend_from_slice(&le32(0));
    bytes.extend_from_slice(name.as_bytes());
    bytes.extend_from_slice(&aes);
    let directory_len = bytes.len() as u32 - directory_at;

    bytes.extend_from_slice(&le32(0x06054b50));
    bytes.extend_from_slice(&le16(0));
    bytes.extend_from_slice(&le16(0));
    bytes.extend_from_slice(&le16(1));
    bytes.extend_from_slice(&le16(1));
    bytes.extend_from_slice(&le32(directory_len));
    bytes.extend_from_slice(&le32(directory_at));
    bytes.extend_from_slice(&le16(0));
    bytes
}

#[test]
fn an_entry_that_cannot_be_opened_is_a_failure() {
    let archive = zip_with_unmarked_aes_entry("chromedriver", b"binary");
    let mut opened = zip::ZipArchive::new(std::io::Cursor::new(&archive[..])).unwrap();
    assert_eq!(opened.len(), 1);
    assert!(matches!(opened.by_index_decrypt(0, &[]), Ok(Err(_))));
    assert_eq!(detect_extension(&archive), Some("zip".to_string()));
    assert_eq!(unzip(&archive, "chromedriver", false), Err(Error::IoFailure(Failure::ZipEntry)));
    assert_eq!(unzip(&archive, "geckodriver", false), Err(Error::IoFailure(Failure::ZipEntry)));
    assert_eq!(unzip(&archive, "chromedriver", true), Ok(Extraction::AlreadyPresent));
}
