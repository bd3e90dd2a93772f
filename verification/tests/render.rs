use docx_parser::{Docx, FootNote, Image, Paragraph, ParagraphChildren};

fn text(value: &str) -> ParagraphChildren {
    ParagraphChildren::Text(value.to_string())
}

fn paragraph(children: Vec<ParagraphChildren>) -> Paragraph {
    Paragraph { children, ..Paragraph::default() }
}

fn document(paragraphs: Vec<Paragraph>) -> Docx {
    Docx { paragraphs, ..Docx::default() }
}

#[test]
fn default_paragraph_is_empty() {
    let p = Paragraph::default();
    assert_eq!(p.id, "");
    assert_eq!(p.style, "");
    assert_eq!(p.element, "");
    assert!(p.children.is_empty());
    assert_eq!(p.comment, None);
}

#[test]
fn default_document_is_empty() {
    let d = Docx::default();
    assert!(d.styles.is_empty());
    assert!(d.paragraphs.is_empty());
    assert!(d.foot_notes.is_empty());
    assert!(d.images.is_empty());
    assert_eq!(d.to_text(), "");
}

#[test]
fn sibling_text_runs_are_joined_without_separator() {
    let p = paragraph(vec![text("Hello"), text("World")]);
    assert_eq!(p.to_text(), "HelloWorld");
}

#[test]
fn paragraphs_are_joined_by_one_newline() {
    let d = document(vec![paragraph(vec![text("A")]), paragraph(vec![text("B")])]);
    assert_eq!(d.to_text(), "A\nB");
}

#[test]
fn single_paragraph_has_no_newline() {
    let d = document(vec![paragraph(vec![text("only")])]);
    assert_eq!(d.to_text(), "only");
}

#[test]
fn empty_paragraphs_still_take_a_line() {
    let d = document(vec![
        paragraph(vec![text("A")]),
        paragraph(vec![]),
        paragraph(vec![text("C")]),
    ]);
    assert_eq!(d.to_text(), "A\n\nC");
}

#[test]
fn references_render_as_nothing() {
    assert_eq!(ParagraphChildren::FootNoteReference(FootNote).to_text(), "");
    assert_eq!(ParagraphChildren::ImageReference(Image).to_text(), "");
    assert_eq!(ParagraphChildren::FootNoteReference(FootNote).to_md(), "");
    assert_eq!(ParagraphChildren::ImageReference(Image).to_html(), "");
    let p = paragraph(vec![
        text("a"),
        ParagraphChildren::FootNoteReference(FootNote),
        text("b"),
        ParagraphChildren::ImageReference(Image),
        text("c"),
    ]);
    assert_eq!(p.to_text(), "abc");
}

#[test]
fn text_child_renders_as_itself() {
    assert_eq!(text("plain").to_text(), "plain");
    assert_eq!(text("plain").to_md(), "plain");
    assert_eq!(text("plain").to_html(), "plain");
}

#[test]
fn nested_paragraphs_recurse() {
    let inner = paragraph(vec![text("in"), text("ner")]);
    let deeper = paragraph(vec![text("["), ParagraphChildren::Paragraph(inner), text("]")]);
    let outer = paragraph(vec![text("<"), ParagraphChildren::Paragraph(deeper), text(">")]);
    assert_eq!(outer.to_text(), "<[inner]>");
    assert_eq!(outer.to_md(), "<[inner]>");
    assert_eq!(outer.to_html(), "<[inner]>");
    assert_eq!(ParagraphChildren::Paragraph(outer).to_text(), "<[inner]>");
}

#[test]
fn style_and_comment_do_not_show_in_text() {
    let p = Paragraph {
        id: "intro".to_string(),
        style: "a=1;".to_string(),
        element: "w:p".to_string(),
        children: vec![text("body")],
        comment: Some("note".to_string()),
    };
    assert_eq!(p.to_text(), "body");
    assert_eq!(p.to_md(), "body");
    assert_eq!(p.to_html(), "body");
}

#[test]
fn markdown_and_html_of_a_document_are_empty() {
    let d = document(vec![paragraph(vec![text("A")]), paragraph(vec![text("B")])]);
    assert_eq!(d.to_markdown(), "");
    assert_eq!(d.to_html(), "");
}

#[test]
fn rendering_twice_gives_the_same_text() {
    let d = document(vec![
        paragraph(vec![text("Hello"), text(" "), text("World")]),
        paragraph(vec![ParagraphChildren::Paragraph(paragraph(vec![text("nested")]))]),
    ]);
    let first = d.to_text();
    let second = d.to_text();
    assert_eq!(first, second);
    assert_eq!(first, "Hello World\nnested");
}

#[test]
fn text_keeps_characters_outside_ascii() {
    let d = document(vec![paragraph(vec![text("naïve — ok"), text("✓")])]);
    assert_eq!(d.to_text(), "naïve — ok✓");
}
