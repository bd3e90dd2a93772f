use vstd::prelude::*;
use std::io::{Cursor, Read};
use zip::result::ZipError;
use zip::ZipArchive;
use crate::error::DocxError;

verus! {

/// What reading one entry of an archive gave.
#[derive(Debug, Clone, PartialEq, Eq)]
pub struct Entry {
    /// The bytes of the entry, as far as they could be read.
    pub bytes: Vec<u8>,
    /// Whether the entry was read to its end.
    pub complete: bool,
}

/// The mathematical value of an [`Entry`].
pub struct EntryModel {
    pub bytes: Seq<u8>,
    pub complete: bool,
}

impl View for Entry {
    type V = EntryModel;

    open spec fn view(&self) -> EntryModel {
        EntryModel { bytes: self.bytes@, complete: self.complete }
    }
}

/// The value of an optional entry.
pub open spec fn entry_model(entry: Option<Entry>) -> Option<EntryModel> {
    match entry {
        Some(entry) => Some(entry@),
        None => None,
    }
}

/// `std::io::Cursor`, through which the archive reads bytes that are in
/// memory. It is only carried along.
#[verifier::external_type_specification]
#[verifier::external_body]
#[verifier::reject_recursive_types(T)]
pub struct ExCursor<T>(Cursor<T>);

/// `zip::ZipArchive`, an archive that has been opened. Nothing of its state is
/// visible here but the bytes it reads from, by the name `archive_bytes`.
#[verifier::external_type_specification]
#[verifier::external_body]
#[verifier::reject_recursive_types(R)]
pub struct ExZipArchive<R>(ZipArchive<R>);

/// `zip::result::ZipError`, why an archive could not be opened. It is only
/// told apart from success.
#[verifier::external_type_specification]
#[verifier::external_body]
pub struct ExZipError(ZipError);

/// Whether the bytes can be opened as a zip archive.
pub uninterp spec fn zip_opens(container: Seq<u8>) -> bool;

/// The bytes that an open archive reads from.
pub uninterp spec fn archive_bytes(archive: ZipArchive<Cursor<&[u8]>>) -> Seq<u8>;

/// The entry of the given name in the archive that `container` holds, opened
/// with the given password: `None` where the archive has no entry of that
/// name or the entry cannot be opened, else what reading it gives.
pub uninterp spec fn zip_entry(container: Seq<u8>, name: Seq<char>, password: Seq<u8>) -> Option<
    EntryModel,
>;

/// `ZipArchive::new` over the bytes in memory. Whether it succeeds depends on
/// the bytes alone; the archive it yields reads from them.
#[verifier::external_body]
pub(crate) fn open_archive<'a>(container: &'a [u8]) -> (archive: Result<
    ZipArchive<Cursor<&'a [u8]>>,
    ZipError,
>)
    ensures
        archive is Ok <==> zip_opens(container@),
        archive matches Ok(archive) ==> archive_bytes(archive) == container@,
{
    ZipArchive::new(Cursor::new(container))
}

/// `ZipArchive::by_name_decrypt`, and `read_to_end` on the file it yields. An
/// entry that is not encrypted is opened whatever the password, as `by_name`
/// opens it. The archive reads from the same bytes afterwards.
#[verifier::external_body]
pub(crate) fn read_entry(
    archive: &mut ZipArchive<Cursor<&[u8]>>,
    name: &str,
    password: &[u8],
) -> (entry: Option<Entry>)
    ensures
        archive_bytes(*final(archive)) == archive_bytes(*old(archive)),
        entry_model(entry) == zip_entry(archive_bytes(*old(archive)), name@, password@),
{
    let mut file = archive.by_name_decrypt(name, password).ok()?.ok()?;
    let mut bytes = Vec::new();
    let complete = file.read_to_end(&mut bytes).is_ok();
    Some(Entry { bytes, complete })
}

/// The name of the entry that describes the body of a document.
pub open spec fn body_entry_name() -> Seq<char> {
    "word/document.xml"@
}

/// What loading the body entry of a container gives: the container error
/// where the bytes are no archive, the missing-entry error where the archive
/// has no body entry that can be opened, else the entry as read.
pub open spec fn body_of(container: Seq<u8>) -> Result<EntryModel, DocxError> {
    if !zip_opens(container) {
        Err(DocxError::Container)
    } else {
        match zip_entry(container, body_entry_name(), Seq::empty()) {
            Some(entry) => Ok(entry),
            None => Err(DocxError::EntryNotFound),
        }
    }
}

/// The value of a loaded body.
pub open spec fn loaded_model(loaded: Result<Entry, DocxError>) -> Result<EntryModel, DocxError> {
    match loaded {
        Ok(entry) => Ok(entry@),
        Err(error) => Err(error),
    }
}

/// Opens the container and reads its body entry. No other entry is read.
pub fn load_body(container: &[u8]) -> (loaded: Result<Entry, DocxError>)
    ensures
        loaded_model(loaded) == body_of(container@),
{
    let mut archive = match open_archive(container) {
        Ok(archive) => archive,
        Err(_) => {
            return Err(DocxError::Container);
        },
    };
    let password: [u8; 0] = [];
    let found = read_entry(&mut archive, "word/document.xml", password.as_slice());
    proof {
        assert(password@ =~= Seq::empty());
    }
    match found {
        Some(entry) => Ok(entry),
        None => Err(DocxError::EntryNotFound),
    }
}

} // verus!
