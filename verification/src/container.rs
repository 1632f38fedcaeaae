//! The archive container, written and read by the `zip` crate in memory.
//!
//! Nothing in this file is proved. Each function here hands one operation
//! to `zip` and states what it does in terms of the names declared below;
//! the rest of the library is verified against these statements.
//!
//! A writer is handed over by value and comes back only from a step that
//! succeeded, so every writer there is has taken each of its steps
//! without a failure. `zip` is built with its `deflate` feature alone: an
//! entry stored by another method is read as an unsupported archive, and
//! no entry is stamped with the time of day.

use crate::entry::{ArchiveEntry, EntryView, FaultKind, FaultView};
use std::io::{Cursor, Read, Write};
use vstd::prelude::*;
use zip::result::ZipError;
use zip::write::FileOptions;
use zip::{ZipArchive, ZipWriter};

verus! {

/// `std::io::Cursor`, carried through as it is.
#[verifier::external_type_specification]
#[verifier::external_body]
#[verifier::reject_recursive_types(T)]
pub struct ExCursor<T>(Cursor<T>);

/// `zip::ZipArchive`, known only by the names below.
#[verifier::external_type_specification]
#[verifier::external_body]
#[verifier::reject_recursive_types(R)]
pub struct ExZipArchive<R>(ZipArchive<R>);

/// `zip::result::ZipError`, known only by its kind and its message.
#[verifier::external_type_specification]
#[verifier::external_body]
pub struct ExZipError(ZipError);

/// A `zip::ZipArchive` that reads from memory.
pub type MemoryArchive = ZipArchive<Cursor<Vec<u8>>>;

/// A `zip::ZipWriter` that writes into memory, known only by the names
/// below.
#[verifier::external_body]
pub struct ContainerWriter {
    inner: ZipWriter<Cursor<Vec<u8>>>,
}

/// What a writer holds of one entry: the name it was started under,
/// whether it was started as a directory, the content written to it, and
/// the permissions that its options carried.
pub struct Written {
    pub name: Seq<char>,
    pub directory: bool,
    pub content: Seq<u8>,
    pub mode: Option<u32>,
}

/// The entries that a writer holds, in the order in which they were
/// started.
pub uninterp spec fn written_entries(w: ContainerWriter) -> Seq<Written>;

/// The failure, if any, with which a writer that holds `before` refuses a
/// step, whatever the call that takes it. A step without content stands
/// for starting that entry, with `ZipWriter::start_file` or
/// `ZipWriter::add_directory`; a step with content stands for writing that
/// content, in one piece, to the file just started without it.
pub uninterp spec fn zip_step_fault(before: Seq<Written>, step: Written) -> Option<FaultView>;

/// What `ZipWriter::finish` gives for a writer that holds `entries`: the
/// bytes of the archive, or the failure. The entries alone decide it only
/// because `zip` is built without its `time` feature, with which it would
/// stamp each entry with the time of day.
pub uninterp spec fn zip_finished(entries: Seq<Written>) -> Result<Seq<u8>, FaultView>;

/// The bytes that an archive reads from.
pub uninterp spec fn archive_bytes(a: MemoryArchive) -> Seq<u8>;

/// What `ZipArchive::new` makes of `bytes`: the number of entries in the
/// central directory, or the failure it reports.
pub uninterp spec fn zip_directory(bytes: Seq<u8>) -> Result<usize, FaultView>;

/// What reading the entry at `index` of the archive in `bytes` gives: its
/// name, its content in full and its mode, or the failure reported.
pub uninterp spec fn zip_entry(bytes: Seq<u8>, index: int) -> Result<EntryView, FaultView>;

/// The kind of a `ZipError`, by its variant, and its message, as its
/// `Display` writes it.
pub uninterp spec fn zip_fault(e: ZipError) -> FaultView;

/// `ZipWriter::new` on an empty buffer: a writer that holds no entry.
#[verifier::external_body]
pub(crate) fn new_writer() -> (w: ContainerWriter)
    ensures
        written_entries(w).len() == 0,
{
    ContainerWriter { inner: ZipWriter::new(Cursor::new(Vec::new())) }
}

/// `ZipWriter::start_file` with the default options: the writer comes
/// back holding one more entry, a file of that name without content; or
/// the step is refused.
#[verifier::external_body]
pub(crate) fn start_file(w: ContainerWriter, name: &str) -> (r: Result<ContainerWriter, ZipError>)
    ensures
        match r {
            Ok(after) => {
                &&& written_entries(after) == written_entries(w).push(
                    Written { name: name@, directory: false, content: Seq::empty(), mode: None },
                )
                &&& zip_step_fault(
                    written_entries(w),
                    Written { name: name@, directory: false, content: Seq::empty(), mode: None },
                ) is None
            },
            Err(e) => zip_step_fault(
                written_entries(w),
                Written { name: name@, directory: false, content: Seq::empty(), mode: None },
            ) == Some(zip_fault(e)),
        },
{
    let mut w = w;
    w.inner.start_file(name, FileOptions::default())?;
    Ok(w)
}

/// `ZipWriter::start_file` with the default options and
/// `FileOptions::unix_permissions` of `mode`, which is permission bits and
/// nothing else: the writer comes back holding one more entry, a file of
/// that name and mode without content; or the step is refused.
#[verifier::external_body]
pub(crate) fn start_file_with_mode(w: ContainerWriter, name: &str, mode: u32) -> (r: Result<
    ContainerWriter,
    ZipError,
>)
    requires
        mode <= 0o777,
    ensures
        match r {
            Ok(after) => {
                &&& written_entries(after) == written_entries(w).push(
                    Written {
                        name: name@,
                        directory: false,
                        content: Seq::empty(),
                        mode: Some(mode),
                    },
                )
                &&& zip_step_fault(
                    written_entries(w),
                    Written {
                        name: name@,
                        directory: false,
                        content: Seq::empty(),
                        mode: Some(mode),
                    },
                ) is None
            },
            Err(e) => zip_step_fault(
                written_entries(w),
                Written { name: name@, directory: false, content: Seq::empty(), mode: Some(mode) },
            ) == Some(zip_fault(e)),
        },
{
    let mut w = w;
    w.inner.start_file(name, FileOptions::default().unix_permissions(mode))?;
    Ok(w)
}

/// `ZipWriter::add_directory` with the default options, under a name that
/// ends in `/` and so is kept as it is: the writer comes back holding one
/// more entry, a directory of that name; or the step is refused.
#[verifier::external_body]
pub(crate) fn add_directory(w: ContainerWriter, name: &str) -> (r: Result<
    ContainerWriter,
    ZipError,
>)
    requires
        name@.len() > 0,
        name@.last() == '/',
    ensures
        match r {
            Ok(after) => {
                &&& written_entries(after) == written_entries(w).push(
                    Written { name: name@, directory: true, content: Seq::empty(), mode: None },
                )
                &&& zip_step_fault(
                    written_entries(w),
                    Written { name: name@, directory: true, content: Seq::empty(), mode: None },
                ) is None
            },
            Err(e) => zip_step_fault(
                written_entries(w),
                Written { name: name@, directory: true, content: Seq::empty(), mode: None },
            ) == Some(zip_fault(e)),
        },
{
    let mut w = w;
    w.inner.add_directory(name, FileOptions::default())?;
    Ok(w)
}

/// `Write::write_all` on the writer, as the one write to the file started
/// last: the writer comes back with `content`, which is not empty, for the
/// content of that file; or the step is refused.
#[verifier::external_body]
pub(crate) fn write_content(w: ContainerWriter, content: &Vec<u8>) -> (r: Result<
    ContainerWriter,
    ZipError,
>)
    requires
        written_entries(w).len() > 0,
        !written_entries(w).last().directory,
        written_entries(w).last().content.len() == 0,
        content@.len() > 0,
    ensures
        match r {
            Ok(after) => {
                &&& written_entries(after) == written_entries(w).drop_last().push(
                    Written { content: content@, ..written_entries(w).last() },
                )
                &&& zip_step_fault(
                    written_entries(w).drop_last(),
                    Written { content: content@, ..written_entries(w).last() },
                ) is None
            },
            Err(e) => zip_step_fault(
                written_entries(w).drop_last(),
                Written { content: content@, ..written_entries(w).last() },
            ) == Some(zip_fault(e)),
        },
{
    let mut w = w;
    w.inner.write_all(content)?;
    Ok(w)
}

/// `ZipWriter::finish`: what `zip_finished` names for the entries that
/// the writer holds.
#[verifier::external_body]
pub(crate) fn finish(w: ContainerWriter) -> (r: Result<Vec<u8>, ZipError>)
    ensures
        match r {
            Ok(bytes) => zip_finished(written_entries(w)) == Ok::<Seq<u8>, FaultView>(bytes@),
            Err(e) => zip_finished(written_entries(w)) == Err::<Seq<u8>, FaultView>(zip_fault(e)),
        },
{
    let mut w = w;
    Ok(w.inner.finish()?.into_inner())
}

/// `ZipArchive::new` on bytes in memory: it succeeds exactly when
/// `zip_directory` of the bytes is a count, and the archive then reads from
/// these bytes; else the failure is the one that `zip_directory` names.
#[verifier::external_body]
pub(crate) fn open_container(bytes: Vec<u8>) -> (r: Result<MemoryArchive, ZipError>)
    ensures
        match r {
            Ok(a) => archive_bytes(a) == bytes@ && zip_directory(bytes@) is Ok,
            Err(e) => zip_directory(bytes@) == Err::<usize, FaultView>(zip_fault(e)),
        },
{
    ZipArchive::new(Cursor::new(bytes))
}

/// `ZipArchive::len`: the number of entries that `zip_directory` names for
/// the bytes that the archive was opened on.
#[verifier::external_body]
pub(crate) fn entry_count(a: &MemoryArchive) -> (count: usize)
    ensures
        count == zip_directory(archive_bytes(*a))->Ok_0,
{
    a.len()
}

/// `ZipArchive::by_index_decrypt` with an empty password, then the entry's
/// name, mode and whole content: what `zip_entry` names for the archive's
/// bytes and this index. An entry that the empty password does not open
/// is reported as `ZipArchive::by_index` reports an encrypted one, as an
/// unsupported archive; `by_index` itself is not called, because it panics
/// on an entry that carries encryption data without being marked as
/// encrypted. The archive still reads from the same bytes.
#[verifier::external_body]
pub(crate) fn load_entry(a: &mut MemoryArchive, index: usize) -> (r: Result<
    ArchiveEntry,
    ZipError,
>)
    ensures
        archive_bytes(*final(a)) == archive_bytes(*old(a)),
        match r {
            Ok(entry) => zip_entry(archive_bytes(*old(a)), index as int) == Ok::<
                EntryView,
                FaultView,
            >(entry@),
            Err(e) => zip_entry(archive_bytes(*old(a)), index as int) == Err::<
                EntryView,
                FaultView,
            >(zip_fault(e)),
        },
{
    let mut file = match a.by_index_decrypt(index, &[])? {
        Ok(file) => file,
        Err(_) => return Err(ZipError::UnsupportedArchive(ZipError::PASSWORD_REQUIRED)),
    };
    let mut content = Vec::new();
    file.read_to_end(&mut content)?;
    Ok(ArchiveEntry { name: file.name().to_owned(), content, mode: file.unix_mode() })
}

/// Tells the variants of `ZipError` apart.
#[verifier::external_body]
pub(crate) fn fault_kind(e: &ZipError) -> (kind: FaultKind)
    ensures
        kind == zip_fault(*e).kind,
{
    match e {
        ZipError::Io(_) => FaultKind::Io,
        ZipError::InvalidArchive(_) => FaultKind::Invalid,
        ZipError::UnsupportedArchive(_) => FaultKind::Unsupported,
        ZipError::FileNotFound => FaultKind::NotFound,
    }
}

/// `ToString::to_string` on a `ZipError`: the message that its `Display`
/// writes.
#[verifier::external_body]
pub(crate) fn fault_message(e: &ZipError) -> (message: String)
    ensures
        message@ == zip_fault(*e).message,
{
    e.to_string()
}

} // verus!
