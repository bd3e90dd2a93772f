use vstd::prelude::*;
use vstd::string::StringSliceAdditionalSpecFns;
use quick_xml::events::attributes::Attributes;
use quick_xml::events::{BytesText, Event};
use quick_xml::reader::Reader;

verus! {

/// One attribute of an element, as the bytes it was written with.
#[derive(Debug, Clone, PartialEq, Eq)]
pub struct Attribute {
    pub key: Vec<u8>,
    pub value: Vec<u8>,
}

/// The mathematical value of an [`Attribute`].
pub struct AttributeModel {
    pub key: Seq<u8>,
    pub value: Seq<u8>,
}

impl View for Attribute {
    type V = AttributeModel;

    open spec fn view(&self) -> AttributeModel {
        AttributeModel { key: self.key@, value: self.value@ }
    }
}

/// The values of a list of attributes, in order.
pub open spec fn attributes_model(attributes: Seq<Attribute>) -> Seq<AttributeModel> {
    attributes.map_values(|attribute: Attribute| attribute@)
}

/// The opening tag of an element: its name, and what follows the name up to
/// the closing bracket, both as written.
#[derive(Debug, Clone, PartialEq, Eq)]
pub struct Tag {
    pub name: Vec<u8>,
    pub attributes: Vec<u8>,
}

/// The mathematical value of a [`Tag`].
pub struct TagModel {
    pub name: Seq<u8>,
    pub attributes: Seq<u8>,
}

impl View for Tag {
    type V = TagModel;

    open spec fn view(&self) -> TagModel {
        TagModel { name: self.name@, attributes: self.attributes@ }
    }
}

/// What the tokenizer hands over at one step.
#[derive(Debug, Clone, PartialEq, Eq)]
pub enum XmlEvent {
    /// The start tag of an element that has content.
    Start(Tag),
    /// The tag of an element without content.
    Empty(Tag),
    /// Character data, still escaped.
    Text(Vec<u8>),
    /// An end tag, a comment, a declaration or another event that carries
    /// nothing of interest here.
    Other,
    /// The input is exhausted.
    Eof,
    /// The tokenizer could not go on.
    Failed,
}

/// The mathematical value of an [`XmlEvent`].
pub enum XmlEventModel {
    Start(TagModel),
    Empty(TagModel),
    Text(Seq<u8>),
    Other,
    Eof,
    Failed,
}

impl View for XmlEvent {
    type V = XmlEventModel;

    open spec fn view(&self) -> XmlEventModel {
        match self {
            XmlEvent::Start(tag) => XmlEventModel::Start(tag@),
            XmlEvent::Empty(tag) => XmlEventModel::Empty(tag@),
            XmlEvent::Text(text) => XmlEventModel::Text(text@),
            XmlEvent::Other => XmlEventModel::Other,
            XmlEvent::Eof => XmlEventModel::Eof,
            XmlEvent::Failed => XmlEventModel::Failed,
        }
    }
}

impl XmlEventModel {
    /// After one of these no further event is read.
    pub open spec fn is_last(self) -> bool {
        self is Eof || self is Failed
    }
}

/// A stream of events is read up to its first end of input or failure, which
/// is its last element.
pub open spec fn is_event_stream(events: Seq<XmlEventModel>) -> bool {
    &&& events.len() > 0
    &&& events.last().is_last()
    &&& forall|i: int| 0 <= i < events.len() - 1 ==> !(#[trigger] events[i]).is_last()
}

/// The value of an optional string.
pub open spec fn text_model(text: Option<String>) -> Option<Seq<char>> {
    match text {
        Some(text) => Some(text@),
        None => None,
    }
}

/// The value of an optional list of attributes.
pub open spec fn scan_model(scan: Option<Vec<Attribute>>) -> Option<Seq<AttributeModel>> {
    match scan {
        Some(attributes) => Some(attributes_model(attributes@)),
        None => None,
    }
}

/// `quick_xml::reader::Reader`, the tokenizer. Nothing of its state is
/// visible here; what it has yet to yield goes by the name `pending_events`.
#[verifier::external_type_specification]
#[verifier::external_body]
#[verifier::reject_recursive_types(R)]
pub struct ExReader<R>(Reader<R>);

/// The events that a tokenizer over `xml` yields, up to and including the
/// first end of input or failure.
pub uninterp spec fn xml_events(xml: Seq<u8>) -> Seq<XmlEventModel>;

/// The events that `reader` has yet to yield, up to and including the first
/// end of input or failure. Nothing is said of a reader that has yielded that
/// last event: it may yield the end of input again, or go on after a failure.
pub uninterp spec fn pending_events(reader: Reader<&[u8]>) -> Seq<XmlEventModel>;

/// The attributes that the tokenizer finds in the text that follows the name
/// in a tag, or `None` where one of them is malformed or occurs twice.
pub uninterp spec fn xml_attributes(text: Seq<char>) -> Option<Seq<AttributeModel>>;

/// Character data with its entity and character references replaced, or `None`
/// where a reference is unknown or unfinished.
pub uninterp spec fn xml_unescaped(text: Seq<char>) -> Option<Seq<char>>;

/// `Reader::from_reader` on a byte slice. The tokenizer is a function of its
/// input: a new reader holds the events of `xml`. It consumes input with every
/// event, so it reaches the end of the input or a failure.
#[verifier::external_body]
pub(crate) fn open_reader<'a>(xml: &'a [u8]) -> (reader: Reader<&'a [u8]>)
    ensures
        pending_events(reader) == xml_events(xml@),
        is_event_stream(pending_events(reader)),
{
    Reader::from_reader(xml)
}

/// `Reader::read_event`: hands over the next event. Unless that event is the
/// end of input or a failure, the reader is left with the events that follow
/// it; of the reader after one of those two nothing is claimed. Of a tag the
/// name and the raw attribute text are kept, of character data the raw bytes.
#[verifier::external_body]
pub(crate) fn read_event(reader: &mut Reader<&[u8]>) -> (event: XmlEvent)
    requires
        pending_events(*old(reader)).len() > 0,
    ensures
        event@ == pending_events(*old(reader)).first(),
        !event@.is_last() ==> pending_events(*final(reader)) == pending_events(
            *old(reader),
        ).drop_first(),
{
    match reader.read_event() {
        Ok(Event::Start(tag)) => XmlEvent::Start(
            Tag { name: tag.name().as_ref().to_vec(), attributes: tag.attributes_raw().to_vec() },
        ),
        Ok(Event::Empty(tag)) => XmlEvent::Empty(
            Tag { name: tag.name().as_ref().to_vec(), attributes: tag.attributes_raw().to_vec() },
        ),
        Ok(Event::Text(text)) => XmlEvent::Text(text.into_inner().into_owned()),
        Ok(Event::Eof) => XmlEvent::Eof,
        Ok(_) => XmlEvent::Other,
        Err(_) => XmlEvent::Failed,
    }
}

/// `Attributes::new` and the iteration over it, from the start of `text`. The
/// result is `None` as soon as the iterator yields an error.
#[verifier::external_body]
pub(crate) fn scan_attributes(text: &str) -> (scan: Option<Vec<Attribute>>)
    ensures
        scan_model(scan) == xml_attributes(text@),
{
    Attributes::new(text, 0).map(
        |item| item.map(|a| Attribute { key: a.key.as_ref().to_vec(), value: a.value.into_owned() }),
    ).collect::<Result<Vec<Attribute>, _>>().ok()
}

/// `BytesText::unescape` on character data that is valid UTF-8.
#[verifier::external_body]
pub(crate) fn unescape_text(text: &str) -> (plain: Option<String>)
    ensures
        text_model(plain) == xml_unescaped(text@),
{
    BytesText::from_escaped(text).unescape().ok().map(|plain| plain.into_owned())
}

/// `str::from_utf8`: succeeds on exactly the byte sequences that are valid
/// UTF-8, and the string it yields is made of those bytes.
#[verifier::external_body]
pub(crate) fn decode_text(bytes: &[u8]) -> (text: Option<&str>)
    ensures
        text is Some <==> vstd::utf8::valid_utf8(bytes@),
        text matches Some(text) ==> text.spec_bytes() == bytes@,
{
    std::str::from_utf8(bytes).ok()
}

} // verus!
