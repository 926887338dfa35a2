use nanopdf::{
    add_attachment, add_bookmark, extract_attachment, get_bookmarks, list_attachments,
    read_metadata, read_xmp_metadata, remove_bookmark, update_xmp_metadata, Attachment, Bookmark,
    EnhancedError,
};
use std::io::Write;
use tempfile::NamedTempFile;

fn pdf_file() -> NamedTempFile {
    let mut temp = NamedTempFile::new().unwrap();
    temp.write_all(b"%PDF-1.4\n").unwrap();
    temp
}

#[test]
fn test_add_attachment_empty_filename() {
    let temp = pdf_file();
    let path = temp.path().to_str().unwrap();
    let attachment = Attachment::new("", vec![1, 2, 3]);

    let result = add_attachment(path, &attachment);
    assert!(result.is_err());
}

#[test]
fn test_add_attachment_empty_data() {
    let temp = pdf_file();
    let path = temp.path().to_str().unwrap();
    let attachment = Attachment::new("test.txt", vec![]);

    let result = add_attachment(path, &attachment);
    assert!(result.is_err());
}

#[test]
fn test_add_attachment_path_separator() {
    let temp = pdf_file();
    let path = temp.path().to_str().unwrap();
    let attachment = Attachment::new("path/to/file.txt", vec![1, 2, 3]);

    let result = add_attachment(path, &attachment);
    assert!(result.is_err());
}

#[test]
fn test_add_attachment_valid() {
    let temp = pdf_file();
    let path = temp.path().to_str().unwrap();
    let attachment = Attachment::new("test.txt", vec![72, 101, 108, 108, 111]);

    let result = add_attachment(path, &attachment);
    assert!(result.is_ok());
}

#[test]
fn test_list_attachments_empty() {
    let temp = pdf_file();
    let path = temp.path().to_str().unwrap();
    let attachments = list_attachments(path).unwrap();

    assert_eq!(attachments.len(), 0);
}

#[test]
fn test_extract_attachment_not_found() {
    let temp = pdf_file();
    let path = temp.path().to_str().unwrap();
    let result = extract_attachment(path, "nonexistent.txt");

    assert!(result.is_err());
}

#[test]
fn test_add_bookmark_valid() {
    let temp = pdf_file();
    let path = temp.path().to_str().unwrap();
    let bookmark = Bookmark::new("Chapter 1", 0);

    let result = add_bookmark(path, &bookmark);
    assert!(result.is_ok());
}

#[test]
fn test_remove_bookmark_empty_title() {
    let temp = pdf_file();
    let path = temp.path().to_str().unwrap();
    let result = remove_bookmark(path, "");

    assert!(result.is_err());
}

#[test]
fn test_get_bookmarks_empty() {
    let temp = pdf_file();
    let path = temp.path().to_str().unwrap();
    let bookmarks = get_bookmarks(path).unwrap();

    assert_eq!(bookmarks.len(), 0);
}

#[test]
fn test_read_metadata_empty_file() {
    let temp = pdf_file();
    let path = temp.path().to_str().unwrap();
    let metadata = read_metadata(path).unwrap();

    assert!(metadata.producer.is_some());
}

#[test]
fn test_read_xmp_metadata() {
    let temp = pdf_file();
    let path = temp.path().to_str().unwrap();
    let xmp = read_xmp_metadata(path).unwrap();

    assert!(xmp.contains("<?xml"));
    assert!(xmp.contains("xmpmeta"));
}

#[test]
fn test_update_xmp_invalid_xml() {
    let temp = pdf_file();
    let path = temp.path().to_str().unwrap();
    let result = update_xmp_metadata(path, "not xml");

    assert!(result.is_err());
}

#[test]
fn test_update_xmp_valid() {
    let temp = pdf_file();
    let path = temp.path().to_str().unwrap();
    let xmp = r#"<?xml version="1.0"?><x:xmpmeta/>"#;

    let result = update_xmp_metadata(path, xmp);
    assert!(result.is_ok());
}

#[test]
fn extract_attachment_error_kinds() {
    assert_eq!(
        extract_attachment("/nonexistent/file.pdf", "a.txt"),
        Err(EnhancedError::FileNotFound)
    );
    let temp = pdf_file();
    let path = temp.path().to_str().unwrap();
    assert_eq!(extract_attachment(path, ""), Err(EnhancedError::InvalidParameter));
    assert_eq!(extract_attachment(path, "a.txt"), Err(EnhancedError::NotFound));
}

#[test]
fn read_metadata_sets_only_producer() {
    let temp = pdf_file();
    let m = read_metadata(temp.path().to_str().unwrap()).unwrap();
    assert_eq!(m.producer, Some("NanoPDF".to_string()));
    assert!(m.title.is_none() && m.author.is_none());
    assert!(m.subject.is_none() && m.keywords.is_none() && m.creator.is_none());
    assert!(m.creation_date.is_none() && m.mod_date.is_none() && m.custom.is_empty());
}
