use vstd::prelude::*;
use vstd::string::*;
use crate::tree::{
    lemma_children_model, ChildModel, Docx, DocxModel, Paragraph, ParagraphChildren,
    ParagraphModel,
};

verus! {

/// The text of the first `n` of `children`, one after the other with nothing
/// between them.
pub open spec fn children_text(children: Seq<ChildModel>, n: nat) -> Seq<char>
    decreases children, n,
{
    if n == 0 || n > children.len() {
        Seq::empty()
    } else {
        children_text(children, (n - 1) as nat) + children[n - 1].text()
    }
}

/// The text of the first `n` of `paragraphs`, with one line feed between each
/// two neighbours and none at either end.
pub open spec fn paragraphs_text(paragraphs: Seq<ParagraphModel>, n: nat) -> Seq<char>
    decreases n,
{
    if n == 0 || n > paragraphs.len() {
        Seq::empty()
    } else if n == 1 {
        paragraphs[0].text()
    } else {
        paragraphs_text(paragraphs, (n - 1) as nat) + seq!['\n'] + paragraphs[n - 1].text()
    }
}

impl ChildModel {
    /// A text run is its own text, a nested paragraph is the text of that
    /// paragraph, and a reference to a footnote or an image has none.
    pub open spec fn text(self) -> Seq<char>
        decreases self, 0nat,
    {
        match self {
            ChildModel::Paragraph(paragraph) => children_text(
                paragraph.children,
                paragraph.children.len(),
            ),
            ChildModel::Text(text) => text,
            ChildModel::FootNoteReference => Seq::empty(),
            ChildModel::ImageReference => Seq::empty(),
        }
    }

    /// No mapping from style fragments to Markdown is defined: a child
    /// contributes its plain text.
    pub open spec fn markdown(self) -> Seq<char> {
        self.text()
    }

    /// No mapping from style fragments to HTML is defined: a child contributes
    /// its plain text.
    pub open spec fn html(self) -> Seq<char> {
        self.text()
    }
}

impl ParagraphModel {
    /// The text of the children, in order, with no separator.
    pub open spec fn text(self) -> Seq<char> {
        children_text(self.children, self.children.len())
    }

    pub open spec fn markdown(self) -> Seq<char> {
        self.text()
    }

    pub open spec fn html(self) -> Seq<char> {
        self.text()
    }
}

impl DocxModel {
    /// One line per top-level paragraph.
    pub open spec fn text(self) -> Seq<char> {
        paragraphs_text(self.paragraphs, self.paragraphs.len())
    }
}

/// The text of a prefix of the children does not depend on what follows it.
pub proof fn lemma_children_text_prefix(a: Seq<ChildModel>, b: Seq<ChildModel>, n: nat)
    requires
        n <= a.len(),
        n <= b.len(),
        forall|i: int| 0 <= i < n ==> a[i] == b[i],
    ensures
        children_text(a, n) == children_text(b, n),
    decreases n,
{
    if n > 0 {
        lemma_children_text_prefix(a, b, (n - 1) as nat);
    }
}

/// A child that is appended to a paragraph adds its text at the end of the
/// text of the paragraph, with nothing between the two.
pub proof fn lemma_text_of_appended_child(paragraph: ParagraphModel, child: ChildModel)
    ensures
        (ParagraphModel { children: paragraph.children.push(child), ..paragraph }).text()
            == paragraph.text() + child.text(),
{
    let before = paragraph.children;
    let after = before.push(child);
    lemma_children_text_prefix(before, after, before.len());
}

/// The text of a prefix of the paragraphs does not depend on what follows it.
pub proof fn lemma_paragraphs_text_prefix(a: Seq<ParagraphModel>, b: Seq<ParagraphModel>, n: nat)
    requires
        n <= a.len(),
        n <= b.len(),
        forall|i: int| 0 <= i < n ==> a[i] == b[i],
    ensures
        paragraphs_text(a, n) == paragraphs_text(b, n),
    decreases n,
{
    if n > 0 {
        lemma_paragraphs_text_prefix(a, b, (n - 1) as nat);
    }
}

/// A paragraph that is appended to a document adds one line to its text: the
/// first paragraph is the text on its own, and every later one follows exactly
/// one line feed.
pub proof fn lemma_text_of_appended_paragraph(docx: DocxModel, paragraph: ParagraphModel)
    ensures
        (DocxModel { paragraphs: docx.paragraphs.push(paragraph), ..docx }).text() == if
            docx.paragraphs.len() == 0 {
            paragraph.text()
        } else {
            docx.text() + seq!['\n'] + paragraph.text()
        },
{
    let before = docx.paragraphs;
    let after = before.push(paragraph);
    lemma_paragraphs_text_prefix(before, after, before.len());
}

/// Rendering is idempotent: whatever the text renderer returns for a tree is
/// fixed by the tree, so two renderings of the same tree are the same text.
pub proof fn lemma_text_rendering_is_idempotent(docx: Docx, first: String, second: String)
    requires
        first@ == docx@.text(),
        second@ == docx@.text(),
    ensures
        first@ == second@,
{
}

impl ParagraphChildren {
    pub fn to_text(&self) -> (text: String)
        ensures
            text@ == self@.text(),
        decreases self,
    {
        match self {
            ParagraphChildren::Paragraph(paragraph) => paragraph.to_text(),
            ParagraphChildren::Text(text) => text.clone(),
            _ => String::new(),
        }
    }

    pub fn to_md(&self) -> (text: String)
        ensures
            text@ == self@.markdown(),
        decreases self,
    {
        match self {
            ParagraphChildren::Paragraph(paragraph) => paragraph.to_md(),
            ParagraphChildren::Text(text) => text.clone(),
            _ => String::new(),
        }
    }

    pub fn to_html(&self) -> (text: String)
        ensures
            text@ == self@.html(),
        decreases self,
    {
        match self {
            ParagraphChildren::Paragraph(paragraph) => paragraph.to_html(),
            ParagraphChildren::Text(text) => text.clone(),
            _ => String::new(),
        }
    }
}

impl Paragraph {
    pub fn to_text(&self) -> (text: String)
        ensures
            text@ == self@.text(),
        decreases self,
    {
        let mut text = String::new();
        let mut i: usize = 0;
        proof {
            lemma_children_model(self.children@, self.children@.len());
        }
        while i < self.children.len()
            invariant
                i <= self.children.len(),
                self@.children.len() == self.children.len(),
                forall|k: int| 0 <= k < self.children.len() ==> self@.children[k] == self.children[k]@,
                text@ == children_text(self@.children, i as nat),
            decreases self.children.len() - i,
        {
            let piece = self.children[i].to_text();
            text.append(piece.as_str());
            i += 1;
        }
        text
    }

    pub fn to_md(&self) -> (text: String)
        ensures
            text@ == self@.markdown(),
        decreases self,
    {
        let mut text = String::new();
        let mut i: usize = 0;
        proof {
            lemma_children_model(self.children@, self.children@.len());
        }
        while i < self.children.len()
            invariant
                i <= self.children.len(),
                self@.children.len() == self.children.len(),
                forall|k: int| 0 <= k < self.children.len() ==> self@.children[k] == self.children[k]@,
                text@ == children_text(self@.children, i as nat),
            decreases self.children.len() - i,
        {
            let piece = self.children[i].to_md();
            text.append(piece.as_str());
            i += 1;
        }
        text
    }

    pub fn to_html(&self) -> (text: String)
        ensures
            text@ == self@.html(),
        decreases self,
    {
        let mut text = String::new();
        let mut i: usize = 0;
        proof {
            lemma_children_model(self.children@, self.children@.len());
        }
        while i < self.children.len()
            invariant
                i <= self.children.len(),
                self@.children.len() == self.children.len(),
                forall|k: int| 0 <= k < self.children.len() ==> self@.children[k] == self.children[k]@,
                text@ == children_text(self@.children, i as nat),
            decreases self.children.len() - i,
        {
            let piece = self.children[i].to_html();
            text.append(piece.as_str());
            i += 1;
        }
        text
    }
}

impl Docx {
    /// The HTML renderer is a stub: it yields the empty string for every tree.
    pub fn to_html(&self) -> (text: String)
        ensures
            text@ == Seq::<char>::empty(),
    {
        String::new()
    }

    /// The Markdown renderer is a stub: it yields the empty string for every
    /// tree.
    pub fn to_markdown(&self) -> (text: String)
        ensures
            text@ == Seq::<char>::empty(),
    {
        String::new()
    }

    /// The text of the paragraphs, joined by single line feeds.
    pub fn to_text(&self) -> (text: String)
        ensures
            text@ == self@.text(),
    {
        let mut text = String::new();
        let mut i: usize = 0;
        while i < self.paragraphs.len()
            invariant
                i <= self.paragraphs.len(),
                self@.paragraphs.len() == self.paragraphs.len(),
                forall|k: int| 0 <= k < self.paragraphs.len() ==> self@.paragraphs[k] == self.paragraphs[k]@,
                text@ == paragraphs_text(self@.paragraphs, i as nat),
            decreases self.paragraphs.len() - i,
        {
            let ghost before = text@;
            if i > 0 {
                text.append("\n");
                proof {
                    reveal_strlit("\n");
                    assert("\n"@ =~= seq!['\n']);
                }
            }
            let piece = self.paragraphs[i].to_text();
            text.append(piece.as_str());
            proof {
                if i > 0 {
                    assert(text@ =~= before + seq!['\n'] + piece@);
                } else {
                    assert(text@ =~= piece@);
                }
            }
            i += 1;
        }
        text
    }
}

} // verus!
