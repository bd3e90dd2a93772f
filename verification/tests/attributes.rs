use docx_parser::attributes::{analyze_attributes, flatten_tag, text_of};
use docx_parser::xml::Attribute;
use docx_parser::DocxError;

fn attribute(key: &[u8], value: &[u8]) -> Attribute {
    Attribute { key: key.to_vec(), value: value.to_vec() }
}

#[test]
fn no_attributes_flatten_to_nothing() {
    assert_eq!(analyze_attributes(&vec![]), Ok(String::new()));
}

#[test]
fn one_attribute_gives_one_fragment() {
    assert_eq!(analyze_attributes(&vec![attribute(b"a", b"1")]), Ok("a=1;".to_string()));
}

#[test]
fn attributes_keep_their_order() {
    let list = vec![attribute(b"w:b", b"2"), attribute(b"w:a", b"1"), attribute(b"w:c", b"3")];
    assert_eq!(analyze_attributes(&list), Ok("w:b=2;w:a=1;w:c=3;".to_string()));
}

#[test]
fn separators_in_values_are_not_escaped() {
    let list = vec![attribute(b"k", b"x=y;z"), attribute(b"e", b"")];
    assert_eq!(analyze_attributes(&list), Ok("k=x=y;z;e=;".to_string()));
}

#[test]
fn attribute_text_is_decoded_as_utf8() {
    let list = vec![attribute("clé".as_bytes(), "värde".as_bytes())];
    assert_eq!(analyze_attributes(&list), Ok("clé=värde;".to_string()));
}

#[test]
fn a_key_that_is_not_text_is_a_decode_error() {
    let list = vec![attribute(b"a", b"1"), attribute(&[0xff, 0xfe], b"2")];
    assert_eq!(analyze_attributes(&list), Err(DocxError::AttributeDecode));
}

#[test]
fn a_value_that_is_not_text_is_a_decode_error() {
    let list = vec![attribute(b"a", &[0xc3, 0x28])];
    assert_eq!(analyze_attributes(&list), Err(DocxError::AttributeDecode));
}

#[test]
fn text_of_accepts_utf8_only() {
    assert_eq!(text_of(b"plain"), Some("plain"));
    assert_eq!(text_of("ü€".as_bytes()), Some("ü€"));
    assert_eq!(text_of(b""), Some(""));
    assert_eq!(text_of(&[0x80]), None);
    assert_eq!(text_of(&[0xe2, 0x82]), None);
}

#[test]
fn flatten_tag_reads_quoted_attributes() {
    assert_eq!(flatten_tag(b" a=\"1\" b='2'"), Ok("a=1;b=2;".to_string()));
    assert_eq!(flatten_tag(b""), Ok(String::new()));
    assert_eq!(flatten_tag(b"   "), Ok(String::new()));
    assert_eq!(flatten_tag(b" w:rsidR = \"00A1\"\n w:val=\"x y\""), Ok("w:rsidR=00A1;w:val=x y;".to_string()));
}

#[test]
fn flatten_tag_leaves_references_in_values_as_written() {
    assert_eq!(flatten_tag(b" t=\"a &amp; b\""), Ok("t=a &amp; b;".to_string()));
}

#[test]
fn flatten_tag_rejects_malformed_attributes() {
    assert_eq!(flatten_tag(b" a=1"), Err(DocxError::AttributeDecode));
    assert_eq!(flatten_tag(b" a"), Err(DocxError::AttributeDecode));
    assert_eq!(flatten_tag(b" a=\"1"), Err(DocxError::AttributeDecode));
    assert_eq!(flatten_tag(b" a=\"1\" a=\"2\""), Err(DocxError::AttributeDecode));
}

#[test]
fn flatten_tag_rejects_bytes_that_are_not_text() {
    assert_eq!(flatten_tag(&[b' ', b'a', b'=', b'"', 0xff, b'"']), Err(DocxError::AttributeDecode));
}
