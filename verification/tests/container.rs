use std::io::{Cursor, Write};

use docx_parser::container::{load_body, Entry};
use docx_parser::{Docx, DocxError, ParagraphChildren};
use zip::write::FileOptions;
use zip::{CompressionMethod, ZipWriter};

fn archive_with(method: CompressionMethod, entries: &[(&str, &[u8])]) -> Vec<u8> {
    let mut writer = ZipWriter::new(Cursor::new(Vec::new()));
    for (name, bytes) in entries {
        writer.start_file(*name, FileOptions::default().compression_method(method)).unwrap();
        writer.write_all(bytes).unwrap();
    }
    writer.finish().unwrap().into_inner()
}

fn archive(entries: &[(&str, &[u8])]) -> Vec<u8> {
    archive_with(CompressionMethod::Deflated, entries)
}

fn text(value: &str) -> ParagraphChildren {
    ParagraphChildren::Text(value.to_string())
}

const BODY: &[u8] = b"<?xml version=\"1.0\" encoding=\"UTF-8\" standalone=\"yes\"?>\n\
<w:document xmlns:w=\"http://schemas.openxmlformats.org/wordprocessingml/2006/main\"><w:body>\
<w:p w:rsidR=\"00A1\"><w:pPr><w:jc w:val=\"center\"/></w:pPr><w:r w:rsidRPr=\"00B2\"><w:rPr><w:b/></w:rPr><w:t>Hello</w:t></w:r><w:r><w:t>World</w:t></w:r></w:p>\
<w:p><w:r><w:t>Second &amp; last</w:t></w:r></w:p>\
<w:sectPr/></w:body></w:document>";

#[test]
fn from_bytes_reads_the_body_entry() {
    let bytes = archive(&[("[Content_Types].xml", b"<Types/>"), ("word/document.xml", BODY), ("word/styles.xml", b"<w:styles/>")]);
    let d = Docx::from_bytes(&bytes).unwrap();
    assert_eq!(d.paragraphs.len(), 2);
    assert_eq!(d.paragraphs[0].style, "w:rsidR=00A1;w:rsidRPr=00B2;");
    assert_eq!(d.paragraphs[0].children, vec![text("Hello"), text("World")]);
    assert_eq!(d.paragraphs[1].style, "");
    assert_eq!(d.paragraphs[1].children, vec![text("Second & last")]);
    assert_eq!(d.to_text(), "HelloWorld\nSecond & last");
    assert!(d.styles.is_empty());
    assert!(d.foot_notes.is_empty());
    assert!(d.images.is_empty());
}

#[test]
fn from_bytes_reads_a_stored_entry() {
    let bytes = archive_with(CompressionMethod::Stored, &[("word/document.xml", BODY)]);
    let d = Docx::from_bytes(&bytes).unwrap();
    assert_eq!(d.to_text(), "HelloWorld\nSecond & last");
    assert_eq!(Docx::from_bytes_strict(&bytes), Ok(d));
}

#[test]
fn paragraph_count_equals_paragraph_starts() {
    let mut body = Vec::new();
    body.extend_from_slice(b"<w:document><w:body>");
    for i in 0..37 {
        body.extend_from_slice(format!("<w:p n=\"{}\"><w:r><w:t>{}</w:t></w:r></w:p>", i, i).as_bytes());
    }
    body.extend_from_slice(b"</w:body></w:document>");
    let d = Docx::from_bytes(&archive(&[("word/document.xml", &body)])).unwrap();
    assert_eq!(d.paragraphs.len(), 37);
    assert_eq!(d.paragraphs[36].style, "n=36;");
    assert_eq!(d.paragraphs[36].to_text(), "36");
}

#[test]
fn style_accumulation_is_order_preserving() {
    let body = b"<w:document><w:body><w:p a=\"1\"><w:r b=\"2\"><w:t>x</w:t></w:r></w:p></w:body></w:document>";
    let d = Docx::from_bytes(&archive(&[("word/document.xml", body)])).unwrap();
    assert_eq!(d.paragraphs.len(), 1);
    assert_eq!(d.paragraphs[0].style, "a=1;b=2;");
}

#[test]
fn text_runs_round_trip() {
    let body = b"<w:document><w:body><w:p><w:r><w:t>Hello</w:t></w:r><w:r><w:t>World</w:t></w:r></w:p></w:body></w:document>";
    let d = Docx::from_bytes(&archive(&[("word/document.xml", body)])).unwrap();
    assert_eq!(d.paragraphs[0].to_text(), "HelloWorld");
}

#[test]
fn two_paragraphs_give_two_lines() {
    let body = b"<w:document><w:body><w:p><w:r><w:t>A</w:t></w:r></w:p><w:p><w:r><w:t>B</w:t></w:r></w:p></w:body></w:document>";
    let d = Docx::from_bytes(&archive(&[("word/document.xml", body)])).unwrap();
    assert_eq!(d.to_text(), "A\nB");
}

#[test]
fn empty_input_is_a_container_error() {
    assert_eq!(Docx::from_bytes(b""), Err(DocxError::Container));
    assert_eq!(Docx::from_bytes_strict(b""), Err(DocxError::Container));
}

#[test]
fn truncated_zip_header_is_a_container_error() {
    assert_eq!(Docx::from_bytes(b"PK\x03\x04"), Err(DocxError::Container));
    assert_eq!(Docx::from_bytes(&[0x50, 0x4b, 0x03, 0x04, 0x14, 0x00, 0x00]), Err(DocxError::Container));
}

#[test]
fn truncated_archive_is_a_container_error() {
    let bytes = archive(&[("word/document.xml", BODY)]);
    assert_eq!(Docx::from_bytes(&bytes[..bytes.len() / 2]), Err(DocxError::Container));
    assert_eq!(Docx::from_bytes(&bytes[..bytes.len() - 1]), Err(DocxError::Container));
    assert_eq!(Docx::from_bytes(&bytes[..30]), Err(DocxError::Container));
}

#[test]
fn plain_xml_is_a_container_error() {
    assert_eq!(Docx::from_bytes(BODY), Err(DocxError::Container));
}

#[test]
fn missing_body_entry_is_an_entry_error() {
    let bytes = archive(&[("word/styles.xml", b"<w:styles/>"), ("docProps/app.xml", b"<x/>")]);
    assert_eq!(Docx::from_bytes(&bytes), Err(DocxError::EntryNotFound));
    assert_eq!(Docx::from_bytes_strict(&bytes), Err(DocxError::EntryNotFound));
}

#[test]
fn empty_archive_is_an_entry_error() {
    assert_eq!(Docx::from_bytes(&archive(&[])), Err(DocxError::EntryNotFound));
}

#[test]
fn entry_names_are_matched_exactly() {
    let bytes = archive(&[("Word/Document.xml", BODY), ("document.xml", BODY)]);
    assert_eq!(Docx::from_bytes(&bytes), Err(DocxError::EntryNotFound));
}

#[test]
fn load_body_returns_the_bytes_of_the_entry() {
    let bytes = archive(&[("a.txt", b"other"), ("word/document.xml", BODY)]);
    assert_eq!(load_body(&bytes), Ok(Entry { bytes: BODY.to_vec(), complete: true }));
    assert_eq!(load_body(b"not an archive"), Err(DocxError::Container));
    assert_eq!(load_body(&archive(&[("a.txt", b"other")])), Err(DocxError::EntryNotFound));
}

#[test]
fn load_body_reports_an_entry_that_fails_its_checksum() {
    let mut bytes = archive_with(CompressionMethod::Stored, &[("word/document.xml", b"<w:p>abc</w:p>")]);
    let at = bytes.windows(3).position(|w| w == b"abc").unwrap();
    bytes[at] = b'x';
    let entry = load_body(&bytes).unwrap();
    assert!(!entry.complete);
}

#[test]
fn tolerant_reading_returns_a_partial_tree() {
    let body = b"<w:document><w:body><w:p a=\"1\"><w:r><w:t>kept</w:t></w:r></w:p><w:p><w:r b=2>";
    let bytes = archive(&[("word/document.xml", body)]);
    let d = Docx::from_bytes(&bytes).unwrap();
    assert_eq!(d.paragraphs.len(), 2);
    assert_eq!(d.to_text(), "kept\n");
    assert_eq!(Docx::from_bytes_strict(&bytes), Err(DocxError::AttributeDecode));
}

#[test]
fn strict_reading_rejects_a_truncated_body() {
    let body = b"<w:document><w:body><w:p><w:r><w:t>kept</w:t></w:r></w:p><w:p";
    let bytes = archive(&[("word/document.xml", body)]);
    assert_eq!(Docx::from_bytes(&bytes).unwrap().to_text(), "kept");
    assert_eq!(Docx::from_bytes_strict(&bytes), Err(DocxError::StreamTermination));
}

#[test]
fn strict_reading_rejects_an_entry_that_fails_its_checksum() {
    let mut bytes = archive_with(CompressionMethod::Stored, &[("word/document.xml", b"<w:p><w:r><w:t>abc</w:t></w:r></w:p>")]);
    let at = bytes.windows(3).position(|w| w == b"abc").unwrap();
    bytes[at] = b'x';
    assert_eq!(Docx::from_bytes_strict(&bytes), Err(DocxError::StreamTermination));
    assert!(Docx::from_bytes(&bytes).is_ok());
}

#[test]
fn strict_reading_accepts_a_clean_body() {
    let bytes = archive(&[("word/document.xml", BODY)]);
    let strict = Docx::from_bytes_strict(&bytes).unwrap();
    assert_eq!(strict, Docx::from_bytes(&bytes).unwrap());
    assert_eq!(strict.to_text(), "HelloWorld\nSecond & last");
}

#[test]
fn reading_the_same_bytes_twice_gives_the_same_tree() {
    let bytes = archive(&[("word/document.xml", BODY)]);
    assert_eq!(Docx::from_bytes(&bytes), Docx::from_bytes(&bytes));
}
