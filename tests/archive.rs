use nanopdf::{Archive, ArchiveEntry, ArchiveError, ArchiveFormat};

#[test]
fn test_archive_format_name() {
    assert_eq!(ArchiveFormat::Zip.name(), "zip");
    assert_eq!(ArchiveFormat::Tar.name(), "tar");
    assert_eq!(ArchiveFormat::Directory.name(), "directory");
}

#[test]
fn test_archive_entry() {
    let entry = ArchiveEntry::new("test.txt".to_string(), 1024, false);
    assert_eq!(entry.name, "test.txt");
    assert_eq!(entry.size, 1024);
    assert!(!entry.is_dir);
}

#[test]
fn test_detect_zip_format() {
    let zip_magic = vec![0x50, 0x4B, 0x03, 0x04, 0x00, 0x00];
    assert_eq!(Archive::detect_format(&zip_magic), ArchiveFormat::Zip);
}

#[test]
fn test_detect_unknown_format() {
    let data = vec![0x00, 0x01, 0x02, 0x03];
    assert_eq!(Archive::detect_format(&data), ArchiveFormat::Unknown);
}

#[test]
fn test_from_buffer_zip() {
    let zip_data = vec![0x50, 0x4B, 0x03, 0x04];
    let result = Archive::from_buffer(zip_data);
    assert!(result.is_ok() || result.is_err());
}

#[test]
fn test_from_buffer_unknown() {
    let unknown_data = vec![0x00, 0x01, 0x02, 0x03];
    let result = Archive::from_buffer(unknown_data);
    assert!(result.is_err());
}

#[test]
fn tar_magic_is_detected() {
    let mut data = vec![0u8; 300];
    data[257..262].copy_from_slice(b"ustar");
    assert_eq!(Archive::detect_format(&data), ArchiveFormat::Tar);
    let archive = Archive::from_buffer(data).unwrap();
    assert_eq!(archive.format(), ArchiveFormat::Tar);
    assert_eq!(archive.count_entries(), Ok(0));
    assert!(archive.entry_names().is_empty());
    assert!(!archive.has_entry("a.txt"));
    assert_eq!(archive.list_entry(0), Err(ArchiveError::Argument));
    assert_eq!(Archive::detect_format(&[0x50, 0x4B, 0x03]), ArchiveFormat::Unknown);
    assert_eq!(ArchiveFormat::Unknown.name(), "unknown");
}
