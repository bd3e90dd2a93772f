use vstd::prelude::*;
use vstd::string::{StringExecFns, StringSliceAdditionalSpecFns};
use vstd::utf8::{decode_utf8, valid_utf8};
use crate::attributes::{flatten_tag, style_fragment, text_of};
use crate::error::DocxError;
use crate::tree::{
    lemma_children_model, ChildModel, Docx, DocxModel, FootNote, Image, Paragraph,
    ParagraphChildren, ParagraphModel,
};
use crate::xml::{
    is_event_stream, open_reader, pending_events, read_event, unescape_text, xml_events,
    xml_unescaped, TagModel, XmlEvent, XmlEventModel,
};

verus! {

impl DocxModel {
    /// A paragraph is current: the last of the list, if there is one.
    pub open spec fn has_current(self) -> bool {
        self.paragraphs.len() > 0
    }

    /// The current paragraph.
    pub open spec fn current(self) -> ParagraphModel
        recommends
            self.has_current(),
    {
        self.paragraphs.last()
    }

    /// The document with its current paragraph replaced.
    pub open spec fn with_current(self, paragraph: ParagraphModel) -> DocxModel
        recommends
            self.has_current(),
    {
        DocxModel { paragraphs: self.paragraphs.drop_last().push(paragraph), ..self }
    }

    /// A new paragraph with the given style and nothing else is appended, and
    /// becomes current.
    pub open spec fn open_paragraph(self, style: Seq<char>) -> DocxModel {
        DocxModel { paragraphs: self.paragraphs.push(ParagraphModel::styled(style)), ..self }
    }

    /// The fragment is appended to the style of the current paragraph. Without
    /// a current paragraph the document stays as it is.
    pub open spec fn extend_style(self, fragment: Seq<char>) -> DocxModel {
        if self.has_current() {
            self.with_current(
                ParagraphModel { style: self.current().style + fragment, ..self.current() },
            )
        } else {
            self
        }
    }

    /// The child is appended to the children of the current paragraph. Without
    /// a current paragraph it is dropped.
    pub open spec fn push_child(self, child: ChildModel) -> DocxModel {
        if self.has_current() {
            self.with_current(
                ParagraphModel { children: self.current().children.push(child), ..self.current() },
            )
        } else {
            self
        }
    }
}

impl Docx {
    /// Appends a new paragraph that holds only the given style. It becomes the
    /// current paragraph.
    pub fn open_paragraph(&mut self, style: String)
        ensures
            final(self)@ == old(self)@.open_paragraph(style@),
    {
        let paragraph = Paragraph {
            id: String::new(),
            style,
            element: String::new(),
            children: Vec::new(),
            comment: None,
        };
        self.paragraphs.push(paragraph);
        assert(self@.paragraphs =~= old(self)@.paragraphs.push(ParagraphModel::styled(style@)));
    }

    /// Appends a style fragment to the style of the current paragraph. What
    /// the style held before stays in front of it.
    pub fn extend_style(&mut self, fragment: &str)
        requires
            old(self)@.has_current(),
        ensures
            final(self)@ == old(self)@.extend_style(fragment@),
    {
        let mut paragraph = self.paragraphs.pop().unwrap();
        let ghost before = paragraph@;
        paragraph.style.append(fragment);
        assert(paragraph@ == ParagraphModel { style: before.style + fragment@, ..before });
        self.paragraphs.push(paragraph);
        assert(self@.paragraphs =~= old(self)@.extend_style(fragment@).paragraphs);
    }

    /// Appends a child to the current paragraph, behind the children it has.
    /// Without a current paragraph the child is dropped and the document stays
    /// as it is.
    pub fn push_child(&mut self, child: ParagraphChildren)
        ensures
            final(self)@ == old(self)@.push_child(child@),
    {
        match self.paragraphs.pop() {
            Some(mut paragraph) => {
                let ghost before = paragraph@;
                let ghost children = paragraph.children@;
                paragraph.children.push(child);
                proof {
                    let after = paragraph.children@;
                    lemma_children_model(children, children.len());
                    lemma_children_model(after, after.len());
                    assert(paragraph@.children =~= before.children.push(child@));
                }
                self.paragraphs.push(paragraph);
                assert(self@.paragraphs =~= old(self)@.push_child(child@).paragraphs);
            },
            None => {
                assert(self.paragraphs@ =~= old(self).paragraphs@);
            },
        }
    }
}

/// The elements that the builder tells apart, by the name in their tag.
#[derive(Debug, Clone, Copy, PartialEq, Eq, Structural)]
pub enum ElementKind {
    /// `w:document`, the root of the body description.
    Document,
    /// `w:body`.
    Body,
    /// `w:p`, a paragraph.
    Paragraph,
    /// `w:pPr`, the properties of a paragraph.
    ParagraphProperties,
    /// `w:rPr`, the properties of a run.
    RunProperties,
    /// `w:r`, a run.
    Run,
    /// `w:footnoteReference`.
    FootnoteReference,
    /// `w:drawing`, an embedded image.
    Drawing,
    /// Every other element.
    Other,
}

/// The kind of the element with the given name. Names are compared byte for
/// byte, prefix included.
pub open spec fn element_kind(name: Seq<u8>) -> ElementKind {
    if name == "w:document".spec_bytes() {
        ElementKind::Document
    } else if name == "w:body".spec_bytes() {
        ElementKind::Body
    } else if name == "w:p".spec_bytes() {
        ElementKind::Paragraph
    } else if name == "w:pPr".spec_bytes() {
        ElementKind::ParagraphProperties
    } else if name == "w:rPr".spec_bytes() {
        ElementKind::RunProperties
    } else if name == "w:r".spec_bytes() {
        ElementKind::Run
    } else if name == "w:footnoteReference".spec_bytes() {
        ElementKind::FootnoteReference
    } else if name == "w:drawing".spec_bytes() {
        ElementKind::Drawing
    } else {
        ElementKind::Other
    }
}

/// Whether two byte strings are the same.
pub fn same_bytes(a: &[u8], b: &[u8]) -> (same: bool)
    ensures
        same == (a@ == b@),
{
    if a.len() != b.len() {
        return false;
    }
    let mut i: usize = 0;
    while i < a.len()
        invariant
            i <= a.len(),
            a.len() == b.len(),
            forall|k: int| 0 <= k < i ==> a[k] == b[k],
        decreases a.len() - i,
    {
        if a[i] != b[i] {
            return false;
        }
        i += 1;
    }
    assert(a@ =~= b@);
    true
}

impl ElementKind {
    /// The kind of the element with the given name.
    pub fn of(name: &[u8]) -> (kind: ElementKind)
        ensures
            kind == element_kind(name@),
    {
        if same_bytes(name, "w:document".as_bytes()) {
            ElementKind::Document
        } else if same_bytes(name, "w:body".as_bytes()) {
            ElementKind::Body
        } else if same_bytes(name, "w:p".as_bytes()) {
            ElementKind::Paragraph
        } else if same_bytes(name, "w:pPr".as_bytes()) {
            ElementKind::ParagraphProperties
        } else if same_bytes(name, "w:rPr".as_bytes()) {
            ElementKind::RunProperties
        } else if same_bytes(name, "w:r".as_bytes()) {
            ElementKind::Run
        } else if same_bytes(name, "w:footnoteReference".as_bytes()) {
            ElementKind::FootnoteReference
        } else if same_bytes(name, "w:drawing".as_bytes()) {
            ElementKind::Drawing
        } else {
            ElementKind::Other
        }
    }

    /// The attributes of such an element are part of the style of the
    /// paragraph around it.
    pub open spec fn bears_style(self) -> bool {
        self == ElementKind::ParagraphProperties || self == ElementKind::RunProperties || self
            == ElementKind::Run
    }
}

/// Whether the builder goes on to the next event.
#[derive(Debug, Clone, Copy, PartialEq, Eq, Structural)]
pub enum Flow {
    /// The event was taken in; the next one may follow.
    Continue,
    /// The input came to its end.
    Finished,
    /// Nothing more is consumed. The event that led here changed nothing.
    Halted(DocxError),
}

/// Character data as text: decoded, and with its references replaced. `None`
/// where the bytes are not valid UTF-8 or a reference cannot be replaced.
pub open spec fn plain_text(raw: Seq<u8>) -> Option<Seq<char>> {
    if valid_utf8(raw) {
        xml_unescaped(decode_utf8(raw))
    } else {
        None
    }
}

/// What the start tag of an element does to the document.
///
/// A paragraph element opens a paragraph whose style is the fragment of its
/// own attributes. A paragraph-properties, run-properties or run element adds
/// the fragment of its attributes to the style of the current paragraph; where
/// no paragraph is current the style has no place to go, and the builder halts.
/// A footnote reference or a drawing leaves a placeholder among the children
/// of the current paragraph. Every other element passes through.
pub open spec fn start_step(docx: DocxModel, tag: TagModel) -> (DocxModel, Flow) {
    let kind = element_kind(tag.name);
    if kind == ElementKind::Paragraph {
        match style_fragment(tag.attributes) {
            Some(style) => (docx.open_paragraph(style), Flow::Continue),
            None => (docx, Flow::Halted(DocxError::AttributeDecode)),
        }
    } else if kind.bears_style() {
        if !docx.has_current() {
            (docx, Flow::Halted(DocxError::StreamTermination))
        } else {
            match style_fragment(tag.attributes) {
                Some(fragment) => (docx.extend_style(fragment), Flow::Continue),
                None => (docx, Flow::Halted(DocxError::AttributeDecode)),
            }
        }
    } else {
        empty_step(docx, tag)
    }
}

/// What the tag of an element without content does to the document: a
/// footnote reference or a drawing leaves its placeholder, every other element
/// passes through.
pub open spec fn empty_step(docx: DocxModel, tag: TagModel) -> (DocxModel, Flow) {
    let kind = element_kind(tag.name);
    if kind == ElementKind::FootnoteReference {
        (docx.push_child(ChildModel::FootNoteReference), Flow::Continue)
    } else if kind == ElementKind::Drawing {
        (docx.push_child(ChildModel::ImageReference), Flow::Continue)
    } else {
        (docx, Flow::Continue)
    }
}

/// What character data does to the document: with a current paragraph it
/// becomes a text child of it, without one it is dropped unread.
pub open spec fn text_step(docx: DocxModel, raw: Seq<u8>) -> (DocxModel, Flow) {
    if !docx.has_current() {
        (docx, Flow::Continue)
    } else {
        match plain_text(raw) {
            Some(text) => (docx.push_child(ChildModel::Text(text)), Flow::Continue),
            None => (docx, Flow::Halted(DocxError::StreamTermination)),
        }
    }
}

/// The transition of the builder: the document after the event, and whether
/// the builder goes on.
pub open spec fn step(docx: DocxModel, event: XmlEventModel) -> (DocxModel, Flow) {
    match event {
        XmlEventModel::Start(tag) => start_step(docx, tag),
        XmlEventModel::Empty(tag) => empty_step(docx, tag),
        XmlEventModel::Text(raw) => text_step(docx, raw),
        XmlEventModel::Other => (docx, Flow::Continue),
        XmlEventModel::Eof => (docx, Flow::Finished),
        XmlEventModel::Failed => (docx, Flow::Halted(DocxError::StreamTermination)),
    }
}

impl Docx {
    /// Whether a paragraph is current.
    pub fn has_current(&self) -> (current: bool)
        ensures
            current == self@.has_current(),
    {
        self.paragraphs.len() > 0
    }

    /// Takes in one event of the tokenizer.
    pub fn consume(&mut self, event: &XmlEvent) -> (flow: Flow)
        ensures
            (final(self)@, flow) == step(old(self)@, event@),
    {
        match event {
            XmlEvent::Start(tag) => {
                let kind = ElementKind::of(tag.name.as_slice());
                match kind {
                    ElementKind::Paragraph => match flatten_tag(tag.attributes.as_slice()) {
                        Ok(style) => {
                            self.open_paragraph(style);
                            Flow::Continue
                        },
                        Err(error) => Flow::Halted(error),
                    },
                    ElementKind::ParagraphProperties | ElementKind::RunProperties | ElementKind::Run => {
                        if !self.has_current() {
                            Flow::Halted(DocxError::StreamTermination)
                        } else {
                            match flatten_tag(tag.attributes.as_slice()) {
                                Ok(fragment) => {
                                    self.extend_style(fragment.as_str());
                                    Flow::Continue
                                },
                                Err(error) => Flow::Halted(error),
                            }
                        }
                    },
                    _ => {
                        self.place_reference(kind);
                        Flow::Continue
                    },
                }
            },
            XmlEvent::Empty(tag) => {
                let kind = ElementKind::of(tag.name.as_slice());
                self.place_reference(kind);
                Flow::Continue
            },
            XmlEvent::Text(raw) => {
                if !self.has_current() {
                    Flow::Continue
                } else {
                    let text = match text_of(raw.as_slice()) {
                        Some(text) => unescape_text(text),
                        None => None,
                    };
                    match text {
                        Some(text) => {
                            self.push_child(ParagraphChildren::Text(text));
                            Flow::Continue
                        },
                        None => Flow::Halted(DocxError::StreamTermination),
                    }
                }
            },
            XmlEvent::Other => Flow::Continue,
            XmlEvent::Eof => Flow::Finished,
            XmlEvent::Failed => Flow::Halted(DocxError::StreamTermination),
        }
    }

    /// Leaves the placeholder of a footnote reference or of a drawing in the
    /// current paragraph. An element of another kind leaves nothing.
    fn place_reference(&mut self, kind: ElementKind)
        ensures
            final(self)@ == (if kind == ElementKind::FootnoteReference {
                old(self)@.push_child(ChildModel::FootNoteReference)
            } else if kind == ElementKind::Drawing {
                old(self)@.push_child(ChildModel::ImageReference)
            } else {
                old(self)@
            }),
    {
        match kind {
            ElementKind::FootnoteReference => {
                self.push_child(ParagraphChildren::FootNoteReference(FootNote));
            },
            ElementKind::Drawing => {
                self.push_child(ParagraphChildren::ImageReference(Image));
            },
            _ => {},
        }
    }
}

/// How the consumption of a stream of events ended.
pub struct BodyRun {
    /// The document as it stood when consumption ended.
    pub docx: DocxModel,
    /// `None` after a clean end of input, else the reason for the halt.
    pub outcome: Option<DocxError>,
    /// The number of events that were taken in before the one that ended
    /// consumption.
    pub consumed: nat,
}

/// Consumes `events` from position `from` on, starting with `docx`, until an
/// event ends consumption.
pub open spec fn run(docx: DocxModel, events: Seq<XmlEventModel>, from: nat) -> BodyRun
    decreases events.len() - from,
{
    if from >= events.len() {
        BodyRun { docx, outcome: Some(DocxError::StreamTermination), consumed: from }
    } else {
        let (next, flow) = step(docx, events[from as int]);
        match flow {
            Flow::Continue => run(next, events, from + 1),
            Flow::Finished => BodyRun { docx: next, outcome: None, consumed: from },
            Flow::Halted(error) => BodyRun { docx: next, outcome: Some(error), consumed: from },
        }
    }
}

/// `after` holds everything that `before` holds, in the same place: the
/// paragraphs of `before` come first and in the same order, all but its current
/// one are unchanged, and its current one has kept its style and its children
/// as the beginning of what it now has.
pub open spec fn grows_into(before: DocxModel, after: DocxModel) -> bool {
    &&& after.styles == before.styles
    &&& after.foot_notes == before.foot_notes
    &&& after.images == before.images
    &&& before.paragraphs.len() <= after.paragraphs.len()
    &&& forall|i: int|
        0 <= i < before.paragraphs.len() - 1 ==> #[trigger] after.paragraphs[i]
            == before.paragraphs[i]
    &&& before.has_current() ==> {
        let old_current = before.current();
        let new_current = after.paragraphs[before.paragraphs.len() - 1];
        &&& new_current.id == old_current.id
        &&& new_current.element == old_current.element
        &&& new_current.comment == old_current.comment
        &&& old_current.style.is_prefix_of(new_current.style)
        &&& old_current.children.is_prefix_of(new_current.children)
    }
}

/// No event changes or reorders what the document already holds: a transition only
/// appends a paragraph, or appends to the style or to the children of the
/// current paragraph.
pub proof fn lemma_step_grows(docx: DocxModel, event: XmlEventModel)
    ensures
        grows_into(docx, step(docx, event).0),
{
    let after = step(docx, event).0;
    if docx.has_current() {
        let last = docx.paragraphs.len() - 1;
        let old_current = docx.current();
        assert(old_current.style.is_prefix_of(after.paragraphs[last].style)) by {
            assert(forall|fragment: Seq<char>| #[trigger]
                old_current.style.is_prefix_of(old_current.style + fragment));
        }
        assert(old_current.children.is_prefix_of(after.paragraphs[last].children)) by {
            assert(forall|child: ChildModel| #[trigger]
                old_current.children.is_prefix_of(old_current.children.push(child)));
        }
    }
}

/// Growth carries over a chain of documents.
pub proof fn lemma_growth_is_transitive(a: DocxModel, b: DocxModel, c: DocxModel)
    requires
        grows_into(a, b),
        grows_into(b, c),
    ensures
        grows_into(a, c),
{
    if a.has_current() {
        let last = a.paragraphs.len() - 1;
        if last < b.paragraphs.len() - 1 {
            assert(c.paragraphs[last] == b.paragraphs[last]);
        }
    }
}

/// However many events are consumed, the document only grows: paragraph order
/// is document order, child order is encounter order, and a style once written
/// stays in front of what is added to it.
pub proof fn lemma_run_grows(docx: DocxModel, events: Seq<XmlEventModel>, from: nat)
    ensures
        grows_into(docx, run(docx, events, from).docx),
    decreases events.len() - from,
{
    if from < events.len() {
        let (next, flow) = step(docx, events[from as int]);
        lemma_step_grows(docx, events[from as int]);
        if flow == Flow::Continue {
            lemma_run_grows(next, events, from + 1);
            lemma_growth_is_transitive(docx, next, run(next, events, from + 1).docx);
        }
    }
}

impl XmlEventModel {
    /// The start tag of a paragraph element.
    pub open spec fn is_paragraph_start(self) -> bool {
        self matches XmlEventModel::Start(tag) && element_kind(tag.name) == ElementKind::Paragraph
    }
}

/// The number of paragraph starts among the first `n` events.
pub open spec fn paragraph_starts(events: Seq<XmlEventModel>, n: nat) -> nat
    decreases n,
{
    if n == 0 || n > events.len() {
        0
    } else {
        paragraph_starts(events, (n - 1) as nat) + if events[n - 1].is_paragraph_start() {
            1nat
        } else {
            0nat
        }
    }
}

/// An event that the builder takes in adds one paragraph if it is a paragraph
/// start and none otherwise; an event that ends consumption changes nothing;
/// and the input ends cleanly on the end of input alone.
pub proof fn lemma_step_paragraphs(docx: DocxModel, event: XmlEventModel)
    ensures
        step(docx, event).1 == Flow::Continue ==> step(docx, event).0.paragraphs.len()
            == docx.paragraphs.len() + if event.is_paragraph_start() {
            1nat
        } else {
            0nat
        },
        step(docx, event).1 != Flow::Continue ==> step(docx, event).0 == docx,
        step(docx, event).1 == Flow::Finished <==> event is Eof,
        event.is_last() ==> step(docx, event).1 != Flow::Continue,
{
}

/// The number of paragraphs of the document is the number of paragraph starts
/// among the events that were consumed: every paragraph start opens exactly
/// one paragraph, and nothing else opens or removes one.
///
/// Consumption of a stream of events ends on one of its events, and it ends
/// cleanly only on the end of input, which is the last event of the stream:
/// then every event before it was consumed.
pub proof fn lemma_paragraph_count(docx: DocxModel, events: Seq<XmlEventModel>, from: nat)
    requires
        from <= events.len(),
    ensures
        from <= run(docx, events, from).consumed <= events.len(),
        run(docx, events, from).docx.paragraphs.len() == docx.paragraphs.len() + paragraph_starts(
            events,
            run(docx, events, from).consumed,
        ) - paragraph_starts(events, from),
        is_event_stream(events) && from < events.len() ==> run(docx, events, from).consumed
            < events.len(),
        is_event_stream(events) && from < events.len() && run(docx, events, from).outcome
            is None ==> run(docx, events, from).consumed == events.len() - 1,
    decreases events.len() - from,
{
    if from < events.len() {
        let event = events[from as int];
        let (next, flow) = step(docx, event);
        lemma_step_paragraphs(docx, event);
        if flow == Flow::Continue {
            lemma_paragraph_count(next, events, from + 1);
            assert(paragraph_starts(events, from + 1) == paragraph_starts(events, from)
                + if event.is_paragraph_start() {
                1nat
            } else {
                0nat
            });
        }
    }
}

impl XmlEventModel {
    /// Whether the builder takes the event in and goes on, given whether a
    /// paragraph is current when the event arrives. A paragraph start needs
    /// attributes that flatten; the start of a style-bearing element needs a
    /// current paragraph as well; character data inside a paragraph must be
    /// readable as text. The end of input and a failure are never taken in.
    pub open spec fn is_taken_in(self, in_paragraph: bool) -> bool {
        match self {
            XmlEventModel::Start(tag) => {
                let kind = element_kind(tag.name);
                if kind == ElementKind::Paragraph {
                    style_fragment(tag.attributes) is Some
                } else if kind.bears_style() {
                    in_paragraph && style_fragment(tag.attributes) is Some
                } else {
                    true
                }
            },
            XmlEventModel::Text(raw) => in_paragraph ==> plain_text(raw) is Some,
            XmlEventModel::Empty(_) => true,
            XmlEventModel::Other => true,
            XmlEventModel::Eof => false,
            XmlEventModel::Failed => false,
        }
    }
}

/// Every event of the stream but its last can be taken in where it stands: a
/// paragraph is current for an event as soon as a paragraph start comes
/// before it.
pub open spec fn body_is_consumable(events: Seq<XmlEventModel>) -> bool {
    forall|i: int|
        0 <= i < events.len() - 1 ==> (#[trigger] events[i]).is_taken_in(
            paragraph_starts(events, i as nat) > 0,
        )
}

/// The builder goes on after an event exactly when the event can be taken in.
pub proof fn lemma_step_continues(docx: DocxModel, event: XmlEventModel)
    ensures
        step(docx, event).1 == Flow::Continue <==> event.is_taken_in(docx.has_current()),
{
}

/// Consumption from a point of a consumable stream on reaches the last event
/// of the stream, and has then opened one paragraph for every paragraph start.
proof fn lemma_run_of_consumable_body(docx: DocxModel, events: Seq<XmlEventModel>, from: nat)
    requires
        is_event_stream(events),
        body_is_consumable(events),
        from < events.len(),
        docx.paragraphs.len() == paragraph_starts(events, from),
    ensures
        run(docx, events, from).consumed == events.len() - 1,
        run(docx, events, from).docx.paragraphs.len() == paragraph_starts(events, events.len()),
        run(docx, events, from).outcome is None <==> events.last() is Eof,
    decreases events.len() - from,
{
    let event = events[from as int];
    let (next, flow) = step(docx, event);
    lemma_step_paragraphs(docx, event);
    lemma_step_continues(docx, event);
    if from < events.len() - 1 {
        assert(event.is_taken_in(paragraph_starts(events, from) > 0));
        assert(paragraph_starts(events, from + 1) == paragraph_starts(events, from)
            + if event.is_paragraph_start() {
            1nat
        } else {
            0nat
        });
        lemma_run_of_consumable_body(next, events, from + 1);
    } else {
        assert(event == events.last());
        assert(!event.is_paragraph_start());
        assert(paragraph_starts(events, events.len()) == paragraph_starts(events, from));
    }
}

/// The number of paragraphs of the tree is the number of paragraph starts in
/// the body: where every event of the body can be taken in, the builder
/// consumes the stream up to its last event and opens one paragraph for each
/// paragraph start in it, whether the stream ends in the end of input or in a
/// failure of the tokenizer. The input has ended cleanly exactly when that last
/// event is the end of input.
pub proof fn lemma_paragraph_count_of_body(events: Seq<XmlEventModel>)
    requires
        is_event_stream(events),
        body_is_consumable(events),
    ensures
        run(DocxModel::empty(), events, 0).consumed == events.len() - 1,
        run(DocxModel::empty(), events, 0).docx.paragraphs.len() == paragraph_starts(
            events,
            events.len(),
        ),
        run(DocxModel::empty(), events, 0).outcome is None <==> events.last() is Eof,
{
    lemma_run_of_consumable_body(DocxModel::empty(), events, 0);
}

/// Style accumulation keeps the order of encounter: a paragraph whose own
/// attributes flatten to `own`, followed by a paragraph-properties,
/// run-properties or run element whose attributes flatten to `added`, has the
/// style `own` followed by `added`, with nothing between them and nothing
/// after.
pub proof fn lemma_style_accumulates_in_order(
    docx: DocxModel,
    paragraph: TagModel,
    bearer: TagModel,
    own: Seq<char>,
    added: Seq<char>,
)
    requires
        element_kind(paragraph.name) == ElementKind::Paragraph,
        element_kind(bearer.name).bears_style(),
        style_fragment(paragraph.attributes) == Some(own),
        style_fragment(bearer.attributes) == Some(added),
    ensures
        ({
            let opened = step(docx, XmlEventModel::Start(paragraph));
            let extended = step(opened.0, XmlEventModel::Start(bearer));
            &&& opened.1 == Flow::Continue
            &&& extended.1 == Flow::Continue
            &&& opened.0.paragraphs == docx.paragraphs.push(ParagraphModel::styled(own))
            &&& extended.0.paragraphs == docx.paragraphs.push(ParagraphModel::styled(own + added))
        }),
{
    let opened = step(docx, XmlEventModel::Start(paragraph));
    let extended = step(opened.0, XmlEventModel::Start(bearer));
    assert(opened.0.paragraphs.drop_last() =~= docx.paragraphs);
    assert(extended.0.paragraphs =~= docx.paragraphs.push(ParagraphModel::styled(own + added)));
}

impl Docx {
    /// Builds the document tree from the XML of a body entry.
    ///
    /// The events of the tokenizer are consumed in order until the input ends,
    /// the tokenizer fails, or an event cannot be taken in. Whatever was built
    /// up to that point is returned, together with the reason where the input
    /// did not end cleanly.
    pub fn read_body(xml: &[u8]) -> (result: (Docx, Option<DocxError>))
        ensures
            result.0@ == run(DocxModel::empty(), xml_events(xml@), 0).docx,
            result.1 == run(DocxModel::empty(), xml_events(xml@), 0).outcome,
            result.0@.paragraphs.len() == paragraph_starts(
                xml_events(xml@),
                run(DocxModel::empty(), xml_events(xml@), 0).consumed,
            ),
            body_is_consumable(xml_events(xml@)) ==> result.0@.paragraphs.len()
                == paragraph_starts(xml_events(xml@), xml_events(xml@).len()),
    {
        let mut reader = open_reader(xml);
        let mut docx = Docx::default();
        let mut outcome: Option<DocxError> = None;
        let ghost events = xml_events(xml@);
        let ghost mut at: nat = 0;
        proof {
            assert(events.skip(0) =~= events);
        }
        loop
            invariant_except_break
                at < events.len(),
                pending_events(reader) == events.skip(at as int),
                run(DocxModel::empty(), events, 0) == run(docx@, events, at),
            invariant
                is_event_stream(events),
            ensures
                docx@ == run(DocxModel::empty(), events, 0).docx,
                outcome == run(DocxModel::empty(), events, 0).outcome,
            decreases events.len() - at,
        {
            let event = read_event(&mut reader);
            let ghost before = docx@;
            let flow = docx.consume(&event);
            proof {
                assert(event@ == events[at as int]);
                lemma_step_paragraphs(before, event@);
                assert(events.skip(at as int).drop_first() =~= events.skip(at as int + 1));
            }
            match flow {
                Flow::Continue => {
                    proof {
                        at = at + 1;
                    }
                },
                Flow::Finished => {
                    outcome = None;
                    break ;
                },
                Flow::Halted(error) => {
                    outcome = Some(error);
                    break ;
                },
            }
        }
        proof {
            lemma_paragraph_count(DocxModel::empty(), events, 0);
            if body_is_consumable(events) {
                lemma_paragraph_count_of_body(events);
            }
        }
        (docx, outcome)
    }
}

} // verus!
