//! Extraction of a renderable document tree from a word-processing container:
//! a zip archive whose body entry is an XML description of paragraphs and runs.
//!
//! The tree is built by a small state machine that consumes tokenizer events,
//! and is rendered back to plain text by recursive visitors. Every function of
//! the crate carries a contract that Verus proves; the zip reader and the XML
//! tokenizer are called through a handful of trusted wrappers, each of which
//! says in its doc comment what is believed of the function it calls.
//!
//! - [`tree`]: the document tree and its mathematical model.
//! - [`render`]: the text, Markdown and HTML renderers.
//! - [`xml`]: the events of the tokenizer, and the wrappers around it.
//! - [`attributes`]: the flattening of attributes into style fragments.
//! - [`builder`]: the state machine that turns events into a tree.
//! - [`container`]: the lookup of the body entry in the archive.
//! - [`document`]: reading a document from the bytes of its container.
//! - [`error`]: the kinds of failure.

pub mod attributes;
pub mod builder;
pub mod container;
pub mod document;
pub mod error;
pub mod render;
pub mod tree;
pub mod xml;

pub use attributes::analyze_attributes;
pub use error::DocxError;
pub use tree::{Docx, FootNote, Image, Paragraph, ParagraphChildren, Style};
