use vstd::prelude::*;
use crate::builder::{body_is_consumable, paragraph_starts, run};
use crate::container::{body_entry_name, body_of, load_body, zip_entry, zip_opens, EntryModel};
use crate::error::DocxError;
use crate::tree::{Docx, DocxModel};
use crate::xml::xml_events;

verus! {

/// The tree that the body entry gives: what the builder has put together when
/// the consumption of its events ends.
pub open spec fn body_tree(entry: EntryModel) -> DocxModel {
    run(DocxModel::empty(), xml_events(entry.bytes), 0).docx
}

/// Why the tree of the body entry may be partial: `None` where the entry was
/// read to its end and its events were consumed up to a clean end of input.
pub open spec fn body_outcome(entry: EntryModel) -> Option<DocxError> {
    let outcome = run(DocxModel::empty(), xml_events(entry.bytes), 0).outcome;
    if outcome is None && !entry.complete {
        Some(DocxError::StreamTermination)
    } else {
        outcome
    }
}

impl Docx {
    /// Reads a document from the bytes of its container.
    ///
    /// It fails only on the container: with [`DocxError::Container`] where the
    /// bytes are no archive, with [`DocxError::EntryNotFound`] where the
    /// archive has no body entry. A body that cannot be consumed to its end
    /// gives the tree that was built up to that point. The tree has one
    /// paragraph for every paragraph start that was consumed, which is every
    /// paragraph start of the body where all of its events can be taken in.
    pub fn from_bytes(buffer: &[u8]) -> (result: Result<Docx, DocxError>)
        ensures
            !zip_opens(buffer@) ==> result == Err::<Docx, DocxError>(DocxError::Container),
            zip_opens(buffer@) && zip_entry(buffer@, body_entry_name(), Seq::empty()) is None
                ==> result == Err::<Docx, DocxError>(DocxError::EntryNotFound),
            match body_of(buffer@) {
                Err(error) => result == Err::<Docx, DocxError>(error),
                Ok(entry) => {
                    &&& result matches Ok(docx)
                    &&& docx@ == body_tree(entry)
                    &&& docx@.paragraphs.len() == paragraph_starts(
                        xml_events(entry.bytes),
                        run(DocxModel::empty(), xml_events(entry.bytes), 0).consumed,
                    )
                    &&& body_is_consumable(xml_events(entry.bytes)) ==> docx@.paragraphs.len()
                        == paragraph_starts(
                        xml_events(entry.bytes),
                        xml_events(entry.bytes).len(),
                    )
                },
            },
    {
        let entry = match load_body(buffer) {
            Ok(entry) => entry,
            Err(error) => {
                return Err(error);
            },
        };
        let (docx, _) = Docx::read_body(entry.bytes.as_slice());
        Ok(docx)
    }

    /// Reads a document from the bytes of its container, and accepts only a
    /// body that was consumed to a clean end of input: a tree that would be
    /// partial is withheld, and the reason is returned in its place.
    pub fn from_bytes_strict(buffer: &[u8]) -> (result: Result<Docx, DocxError>)
        ensures
            match body_of(buffer@) {
                Err(error) => result == Err::<Docx, DocxError>(error),
                Ok(entry) => match body_outcome(entry) {
                    Some(error) => result == Err::<Docx, DocxError>(error),
                    None => result matches Ok(docx) && docx@ == body_tree(entry),
                },
            },
    {
        let entry = match load_body(buffer) {
            Ok(entry) => entry,
            Err(error) => {
                return Err(error);
            },
        };
        let (docx, outcome) = Docx::read_body(entry.bytes.as_slice());
        match outcome {
            Some(error) => Err(error),
            None => if entry.complete {
                Ok(docx)
            } else {
                Err(DocxError::StreamTermination)
            },
        }
    }
}

} // verus!
