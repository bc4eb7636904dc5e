use std::io::Write;
use super_analyzer::archive::{extract_entry, ArchiveError};

fn archive_with(entries: &[(&str, &[u8])]) -> Vec<u8> {
    let mut writer = zip::ZipWriter::new(std::io::Cursor::new(Vec::new()));
    for (name, content) in entries {
        writer.start_file(*name, zip::write::SimpleFileOptions::default()).unwrap();
        writer.write_all(content).unwrap();
    }
    writer.finish().unwrap().into_inner()
}

#[test]
fn extracted_entry_is_what_was_stored() {
    let dex: Vec<u8> = (0..2000u32).map(|i| (i % 251) as u8).collect();
    let bytes = archive_with(&[("AndroidManifest.xml", b"<manifest/>"), ("classes.dex", &dex)]);
    assert_ne!(bytes, dex);
    assert_eq!(extract_entry(bytes.clone(), "classes.dex"), Ok(dex));
    assert_eq!(extract_entry(bytes, "AndroidManifest.xml"), Ok(b"<manifest/>".to_vec()));
}

#[test]
fn extraction_is_repeatable() {
    let bytes = archive_with(&[("classes.dex", b"dex\n035")]);
    let first = extract_entry(bytes.clone(), "classes.dex");
    let second = extract_entry(bytes, "classes.dex");
    assert_eq!(first, second);
    assert_eq!(first, Ok(b"dex\n035".to_vec()));
}

#[test]
fn missing_entry_is_not_found() {
    let bytes = archive_with(&[("classes.dex", b"dex")]);
    assert_eq!(extract_entry(bytes.clone(), "classes2.dex"), Err(ArchiveError::EntryNotFound));
    assert_eq!(extract_entry(bytes, "Classes.dex"), Err(ArchiveError::EntryNotFound));
}

#[test]
fn empty_archive_has_no_entry() {
    let bytes = archive_with(&[]);
    assert_eq!(extract_entry(bytes, "classes.dex"), Err(ArchiveError::EntryNotFound));
}

#[test]
fn bytes_that_are_no_archive_do_not_open() {
    assert_eq!(extract_entry(b"not an archive".to_vec(), "classes.dex"), Err(ArchiveError::Open));
    assert_eq!(extract_entry(Vec::new(), "classes.dex"), Err(ArchiveError::Open));
}

#[test]
fn damaged_entry_is_a_read_failure() {
    let content = [7u8; 64];
    let mut writer = zip::ZipWriter::new(std::io::Cursor::new(Vec::new()));
    let stored = zip::write::SimpleFileOptions::default()
        .compression_method(zip::CompressionMethod::Stored);
    writer.start_file("classes.dex", stored).unwrap();
    writer.write_all(&content).unwrap();
    let mut bytes = writer.finish().unwrap().into_inner();
    let at = bytes.windows(64).position(|w| w == content).unwrap();
    bytes[at] = 8;
    assert_eq!(extract_entry(bytes, "classes.dex"), Err(ArchiveError::Io));
}
