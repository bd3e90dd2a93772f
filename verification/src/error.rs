use vstd::prelude::*;

verus! {

/// Why a document could not be read, or why reading it stopped early.
#[derive(Debug, Clone, Copy, PartialEq, Eq, Structural)]
pub enum DocxError {
    /// The bytes are not a valid archive.
    Container,
    /// The archive is valid but holds no readable body entry.
    EntryNotFound,
    /// The attributes of a style-bearing element are not well-formed text.
    AttributeDecode,
    /// The event stream could not be consumed to its end.
    StreamTermination,
}

impl DocxError {
    /// A sentence for the user that names the kind of failure.
    pub fn message(&self) -> (text: &'static str)
        ensures
            text@ == self.spec_message(),
    {
        match self {
            DocxError::Container => "Failed to read file. Is it a valid .docx file?",
            DocxError::EntryNotFound => "Failed to find document.xml in .docx file",
            DocxError::AttributeDecode => "Failed to decode the attributes of an element",
            DocxError::StreamTermination => "The document body ended before its end of input",
        }
    }

    pub open spec fn spec_message(&self) -> Seq<char> {
        match self {
            DocxError::Container => "Failed to read file. Is it a valid .docx file?"@,
            DocxError::EntryNotFound => "Failed to find document.xml in .docx file"@,
            DocxError::AttributeDecode => "Failed to decode the attributes of an element"@,
            DocxError::StreamTermination => "The document body ended before its end of input"@,
        }
    }
}

} // verus!
