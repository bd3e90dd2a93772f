use vstd::prelude::*;

verus! {

/// A named style definition. No field of it is populated yet.
#[derive(Debug, Clone, Copy, PartialEq, Eq)]
pub struct Style;

/// A footnote record. No field of it is populated yet.
#[derive(Debug, Clone, Copy, PartialEq, Eq)]
pub struct FootNote;

/// An image record. No field of it is populated yet.
#[derive(Debug, Clone, Copy, PartialEq, Eq)]
pub struct Image;

/// What a paragraph may hold, in the order in which it was met.
#[derive(Debug, PartialEq, Eq)]
pub enum ParagraphChildren {
    Paragraph(Paragraph),
    FootNoteReference(FootNote),
    ImageReference(Image),
    Text(String),
}

/// One block-level unit of the document.
#[derive(Debug, PartialEq, Eq)]
pub struct Paragraph {
    pub id: String,
    pub style: String,
    pub element: String,
    pub children: Vec<ParagraphChildren>,
    pub comment: Option<String>,
}

/// The whole document.
#[derive(Debug, PartialEq, Eq)]
pub struct Docx {
    pub styles: Vec<Style>,
    pub paragraphs: Vec<Paragraph>,
    pub foot_notes: Vec<FootNote>,
    pub images: Vec<Image>,
}

/// The mathematical value of a [`ParagraphChildren`].
pub enum ChildModel {
    Paragraph(ParagraphModel),
    FootNoteReference,
    ImageReference,
    Text(Seq<char>),
}

/// The mathematical value of a [`Paragraph`].
pub struct ParagraphModel {
    pub id: Seq<char>,
    pub style: Seq<char>,
    pub element: Seq<char>,
    pub children: Seq<ChildModel>,
    pub comment: Option<Seq<char>>,
}

/// The mathematical value of a [`Docx`].
pub struct DocxModel {
    pub styles: Seq<Style>,
    pub paragraphs: Seq<ParagraphModel>,
    pub foot_notes: Seq<FootNote>,
    pub images: Seq<Image>,
}

/// The value of the first `n` children of `children`, in order.
pub open spec fn children_model(children: Seq<ParagraphChildren>, n: nat) -> Seq<ChildModel>
    decreases children, n,
{
    if n == 0 || n > children.len() {
        Seq::empty()
    } else {
        children_model(children, (n - 1) as nat).push(child_model(children[n - 1]))
    }
}

pub open spec fn child_model(child: ParagraphChildren) -> ChildModel
    decreases child, 0nat,
{
    match child {
        ParagraphChildren::Paragraph(paragraph) => ChildModel::Paragraph(
            paragraph_model(paragraph),
        ),
        ParagraphChildren::FootNoteReference(_) => ChildModel::FootNoteReference,
        ParagraphChildren::ImageReference(_) => ChildModel::ImageReference,
        ParagraphChildren::Text(text) => ChildModel::Text(text@),
    }
}

pub open spec fn paragraph_model(paragraph: Paragraph) -> ParagraphModel
    decreases paragraph, 0nat,
{
    ParagraphModel {
        id: paragraph.id@,
        style: paragraph.style@,
        element: paragraph.element@,
        children: children_model(paragraph.children@, paragraph.children@.len()),
        comment: match paragraph.comment {
            Some(text) => Some(text@),
            None => None,
        },
    }
}

impl ParagraphModel {
    /// A paragraph that holds nothing but the given style.
    pub open spec fn styled(style: Seq<char>) -> ParagraphModel {
        ParagraphModel {
            id: Seq::empty(),
            style,
            element: Seq::empty(),
            children: Seq::empty(),
            comment: None,
        }
    }
}

impl DocxModel {
    /// The document without paragraphs, styles, footnotes or images.
    pub open spec fn empty() -> DocxModel {
        DocxModel {
            styles: Seq::empty(),
            paragraphs: Seq::empty(),
            foot_notes: Seq::empty(),
            images: Seq::empty(),
        }
    }
}

/// The value of a list of children is the list of their values.
pub proof fn lemma_children_model(children: Seq<ParagraphChildren>, n: nat)
    requires
        n <= children.len(),
    ensures
        children_model(children, n).len() == n,
        forall|i: int| 0 <= i < n ==> #[trigger] children_model(children, n)[i] == children[i]@,
    decreases n,
{
    if n > 0 {
        lemma_children_model(children, (n - 1) as nat);
    }
}

impl View for ParagraphChildren {
    type V = ChildModel;

    open spec fn view(&self) -> ChildModel {
        child_model(*self)
    }
}

impl View for Paragraph {
    type V = ParagraphModel;

    open spec fn view(&self) -> ParagraphModel {
        paragraph_model(*self)
    }
}

impl View for Docx {
    type V = DocxModel;

    open spec fn view(&self) -> DocxModel {
        DocxModel {
            styles: self.styles@,
            paragraphs: self.paragraphs@.map_values(|paragraph: Paragraph| paragraph@),
            foot_notes: self.foot_notes@,
            images: self.images@,
        }
    }
}

impl Default for Paragraph {
    fn default() -> (paragraph: Paragraph)
        ensures
            paragraph@ == ParagraphModel::styled(Seq::empty()),
    {
        Paragraph {
            id: String::new(),
            style: String::new(),
            element: String::new(),
            children: Vec::new(),
            comment: None,
        }
    }
}

impl Default for Docx {
    fn default() -> (docx: Docx)
        ensures
            docx@ == DocxModel::empty(),
    {
        let docx = Docx {
            styles: Vec::new(),
            paragraphs: Vec::new(),
            foot_notes: Vec::new(),
            images: Vec::new(),
        };
        assert(docx@.paragraphs =~= Seq::empty());
        docx
    }
}

} // verus!
