//! Reading one entry out of a zip archive held in memory.

use vstd::prelude::*;

verus! {

/// `zip::ZipArchive`, an open archive over a reader.
#[verifier::external_type_specification]
#[verifier::external_body]
#[verifier::reject_recursive_types(R)]
pub struct ExZipArchive<R>(zip::ZipArchive<R>);

/// `std::io::Cursor`, a reader over bytes in memory.
#[verifier::external_type_specification]
#[verifier::external_body]
#[verifier::reject_recursive_types(T)]
pub struct ExCursor<T>(std::io::Cursor<T>);

/// `zip::result::ZipError`, why an archive or an entry could not be read.
#[verifier::external_type_specification]
#[verifier::external_body]
pub struct ExZipError(zip::result::ZipError);

/// The bytes that an open archive reads from.
pub uninterp spec fn archive_source(archive: zip::ZipArchive<std::io::Cursor<Vec<u8>>>) -> Seq<u8>;

/// The names of the entries that an open archive lists.
pub uninterp spec fn archive_listing(archive: zip::ZipArchive<std::io::Cursor<Vec<u8>>>) -> Set<
    Seq<char>,
>;

/// The names of the entries that the directory of an archive lists, or
/// `None` where the bytes are not accepted as an archive.
pub uninterp spec fn archive_names(bytes: Seq<u8>) -> Option<Set<Seq<char>>>;

/// What reading the entry `name` of an archive gives, or `None` where the
/// entry cannot be read.
pub uninterp spec fn entry_content(bytes: Seq<u8>, name: Seq<char>) -> Option<Seq<u8>>;

/// `ZipArchive::new` over the bytes of an archive: succeeds where the bytes
/// are accepted as an archive; the archive then reads from those bytes and
/// lists the entries of their directory.
#[verifier::external_body]
pub(crate) fn open_archive(bytes: Vec<u8>) -> (out: Result<
    zip::ZipArchive<std::io::Cursor<Vec<u8>>>,
    zip::result::ZipError,
>)
    ensures
        out.is_ok() == archive_names(bytes@).is_some(),
        out matches Ok(archive) ==> archive_source(archive) == bytes@ && archive_names(bytes@)
            == Some(archive_listing(archive)),
{
    zip::ZipArchive::new(std::io::Cursor::new(bytes))
}

/// `ZipArchive::index_for_name`: whether the archive lists an entry under
/// exactly this name.
#[verifier::external_body]
pub(crate) fn has_entry(archive: &zip::ZipArchive<std::io::Cursor<Vec<u8>>>, name: &str) -> (yes:
    bool)
    ensures
        yes == archive_listing(*archive).contains(name@),
{
    archive.index_for_name(name).is_some()
}

/// `ZipArchive::by_name`, read to its end: the decompressed bytes of the
/// entry, which depend on the archive's bytes and the name alone. The
/// archive reads from the same bytes afterwards.
#[verifier::external_body]
pub(crate) fn read_entry(archive: &mut zip::ZipArchive<std::io::Cursor<Vec<u8>>>, name: &str) -> (out:
    Result<Vec<u8>, zip::result::ZipError>)
    ensures
        archive_source(*final(archive)) == archive_source(*old(archive)),
        out matches Ok(bytes) ==> entry_content(archive_source(*old(archive)), name@) == Some(
            bytes@,
        ),
        out.is_err() ==> entry_content(archive_source(*old(archive)), name@).is_none(),
{
    let mut file = archive.by_name(name)?;
    let mut bytes = Vec::new();
    let _ = std::io::Read::read_to_end(&mut file, &mut bytes)?;
    Ok(bytes)
}

/// Why an entry could not be taken out of an archive.
#[derive(Clone, Copy, Debug, PartialEq, Eq)]
pub enum ArchiveError {
    /// The bytes are not a valid archive.
    Open,
    /// The archive lists no entry of that name.
    EntryNotFound,
    /// The entry is listed but could not be read.
    Io,
}

/// What extracting the entry `name` gives, from the names that the archive
/// lists and what reading the entry gives.
pub open spec fn extraction(
    names: Option<Set<Seq<char>>>,
    content: Option<Seq<u8>>,
    name: Seq<char>,
) -> Result<Seq<u8>, ArchiveError> {
    match names {
        None => Err(ArchiveError::Open),
        Some(listed) => if !listed.contains(name) {
            Err(ArchiveError::EntryNotFound)
        } else {
            match content {
                None => Err(ArchiveError::Io),
                Some(bytes) => Ok(bytes),
            }
        },
    }
}

/// An entry that the archive lists and that can be read is returned as it
/// reads, byte for byte.
pub proof fn lemma_listed_entry_is_returned(
    listed: Set<Seq<char>>,
    content: Seq<u8>,
    name: Seq<char>,
)
    requires
        listed.contains(name),
    ensures
        extraction(Some(listed), Some(content), name) == Ok::<Seq<u8>, ArchiveError>(content),
{
}

/// A name that the archive does not list is not found, whatever else the
/// archive holds.
pub proof fn lemma_unlisted_entry_is_not_found(
    listed: Set<Seq<char>>,
    content: Option<Seq<u8>>,
    name: Seq<char>,
)
    requires
        !listed.contains(name),
    ensures
        extraction(Some(listed), content, name) == Err::<Seq<u8>, ArchiveError>(
            ArchiveError::EntryNotFound,
        ),
{
}

/// The value of what an extraction returns.
pub open spec fn extracted_view(out: Result<Vec<u8>, ArchiveError>) -> Result<
    Seq<u8>,
    ArchiveError,
> {
    match out {
        Ok(bytes) => Ok(bytes@),
        Err(e) => Err(e),
    }
}

/// Judges the reading of an entry that the archive lists: its bytes, or a
/// failure to read.
pub fn entry_outcome(read: Result<Vec<u8>, zip::result::ZipError>) -> (out: Result<
    Vec<u8>,
    ArchiveError,
>)
    ensures
        read matches Ok(bytes) ==> out == Ok::<Vec<u8>, ArchiveError>(bytes),
        read.is_err() ==> out == Err::<Vec<u8>, ArchiveError>(ArchiveError::Io),
{
    match read {
        Ok(bytes) => Ok(bytes),
        Err(_) => Err(ArchiveError::Io),
    }
}

/// Takes the entry `name` out of the archive `bytes`. Names are compared
/// exactly.
pub fn extract_entry(bytes: Vec<u8>, name: &str) -> (out: Result<Vec<u8>, ArchiveError>)
    ensures
        extracted_view(out) == extraction(
            archive_names(bytes@),
            entry_content(bytes@, name@),
            name@,
        ),
{
    match open_archive(bytes) {
        Err(_) => Err(ArchiveError::Open),
        Ok(archive) => {
            let mut archive = archive;
            if !has_entry(&archive, name) {
                Err(ArchiveError::EntryNotFound)
            } else {
                entry_outcome(read_entry(&mut archive, name))
            }
        },
    }
}

} // verus!
