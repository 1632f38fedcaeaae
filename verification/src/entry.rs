//! Archive entries and the errors of packing and extracting them.

use crate::container::{fault_kind, fault_message, zip_fault};
use crate::path::{is_directory_name, names_directory, PathRejection};
use vstd::prelude::*;
use zip::result::ZipError;

verus! {

/// One named record of an archive: a directory marker, whose name ends in
/// `/`, or a file with its content and, where known, its permission mode.
/// Of a mode only the permission bits, the lowest nine, are packed.
#[derive(Debug, PartialEq, Eq)]
pub struct ArchiveEntry {
    pub name: String,
    pub content: Vec<u8>,
    pub mode: Option<u32>,
}

/// An entry as plain values.
pub struct EntryView {
    pub name: Seq<char>,
    pub content: Seq<u8>,
    pub mode: Option<u32>,
}

impl View for ArchiveEntry {
    type V = EntryView;

    open spec fn view(&self) -> EntryView {
        EntryView { name: self.name@, content: self.content@, mode: self.mode }
    }
}

/// The views of a list of entries.
pub open spec fn entry_views(entries: Seq<ArchiveEntry>) -> Seq<EntryView> {
    entries.map_values(|e: ArchiveEntry| e@)
}

/// The kinds of failure of the container library.
#[derive(Clone, Copy, Debug, PartialEq, Eq, Structural)]
pub enum FaultKind {
    /// Reading or writing the container's bytes failed.
    Io,
    /// The bytes are not a well-formed archive.
    Invalid,
    /// The archive uses a feature that cannot be read here.
    Unsupported,
    /// The archive has no such entry.
    NotFound,
}

/// A failure of the container library: its kind, and the cause in the
/// library's own words.
#[derive(Debug, PartialEq, Eq)]
pub struct Fault {
    pub kind: FaultKind,
    pub message: String,
}

/// A fault as plain values.
pub struct FaultView {
    pub kind: FaultKind,
    pub message: Seq<char>,
}

impl View for Fault {
    type V = FaultView;

    open spec fn view(&self) -> FaultView {
        FaultView { kind: self.kind, message: self.message@ }
    }
}

/// Why packing or extracting failed.
#[derive(Debug, PartialEq, Eq)]
pub enum ArchiveError {
    /// Reading or writing the container's bytes failed; `cause` is what
    /// the container library said.
    Io { cause: String },
    /// The container is malformed or cannot be read here; `cause` is what
    /// the container library said.
    ContainerParse { cause: String },
    /// The container has no entry at this index.
    EntryNotFound { index: usize },
    /// The name of the entry at this index was rejected for extraction.
    PathTraversalRejected { index: usize, rejection: PathRejection },
    /// The name of the entry at this index is not one that packing accepts.
    InvalidName { index: usize },
    /// The name of the entry at this index is longer than a container can
    /// record.
    NameTooLong { index: usize },
}

/// An error as plain values.
pub enum ArchiveErrorView {
    Io { cause: Seq<char> },
    ContainerParse { cause: Seq<char> },
    EntryNotFound { index: usize },
    PathTraversalRejected { index: usize, rejection: PathRejection },
    InvalidName { index: usize },
    NameTooLong { index: usize },
}

impl View for ArchiveError {
    type V = ArchiveErrorView;

    open spec fn view(&self) -> ArchiveErrorView {
        match self {
            ArchiveError::Io { cause } => ArchiveErrorView::Io { cause: cause@ },
            ArchiveError::ContainerParse { cause } => ArchiveErrorView::ContainerParse {
                cause: cause@,
            },
            ArchiveError::EntryNotFound { index } => ArchiveErrorView::EntryNotFound {
                index: *index,
            },
            ArchiveError::PathTraversalRejected {
                index,
                rejection,
            } => ArchiveErrorView::PathTraversalRejected { index: *index, rejection: *rejection },
            ArchiveError::InvalidName { index } => ArchiveErrorView::InvalidName { index: *index },
            ArchiveError::NameTooLong { index } => ArchiveErrorView::NameTooLong { index: *index },
        }
    }
}

/// The error that a failure of the container library amounts to, for the
/// entry at `index`: the failure's kind decides the error, and the error
/// keeps the failure's message as its cause.
pub open spec fn container_error(fault: FaultView, index: usize) -> ArchiveErrorView {
    match fault.kind {
        FaultKind::Io => ArchiveErrorView::Io { cause: fault.message },
        FaultKind::Invalid => ArchiveErrorView::ContainerParse { cause: fault.message },
        FaultKind::Unsupported => ArchiveErrorView::ContainerParse { cause: fault.message },
        FaultKind::NotFound => ArchiveErrorView::EntryNotFound { index },
    }
}

/// The failure that a `ZipError` reports: its kind and its message.
pub(crate) fn fault_of(e: &ZipError) -> (fault: Fault)
    ensures
        fault@ == zip_fault(*e),
{
    Fault { kind: fault_kind(e), message: fault_message(e) }
}

/// The error that a `ZipError` amounts to, for the entry at `index`.
pub(crate) fn error_of(e: &ZipError, index: usize) -> (error: ArchiveError)
    ensures
        error@ == container_error(zip_fault(*e), index),
{
    ArchiveError::from_fault(fault_of(e), index)
}

impl ArchiveError {
    /// The error that a failure of the container library amounts to, for
    /// the entry at `index`.
    pub fn from_fault(fault: Fault, index: usize) -> (e: ArchiveError)
        ensures
            e@ == container_error(fault@, index),
    {
        match fault.kind {
            FaultKind::Io => ArchiveError::Io { cause: fault.message },
            FaultKind::Invalid => ArchiveError::ContainerParse { cause: fault.message },
            FaultKind::Unsupported => ArchiveError::ContainerParse { cause: fault.message },
            FaultKind::NotFound => ArchiveError::EntryNotFound { index },
        }
    }

    /// Whether this error reports an attempt to leave the destination.
    pub fn is_path_traversal(&self) -> (r: bool)
        ensures
            r == (self@ is PathTraversalRejected),
    {
        match self {
            ArchiveError::PathTraversalRejected { .. } => true,
            _ => false,
        }
    }

    /// What the container library said of the failure, where the error
    /// comes from it.
    pub fn cause(&self) -> (cause: Option<&String>)
        ensures
            match cause {
                Some(text) => self@ == (ArchiveErrorView::Io { cause: text@ }) || self@ == (
                ArchiveErrorView::ContainerParse { cause: text@ }),
                None => !(self@ is Io) && !(self@ is ContainerParse),
            },
    {
        match self {
            ArchiveError::Io { cause } => Some(cause),
            ArchiveError::ContainerParse { cause } => Some(cause),
            _ => None,
        }
    }
}

impl ArchiveEntry {
    /// A file entry.
    pub fn file(name: String, content: Vec<u8>, mode: Option<u32>) -> (e: ArchiveEntry)
        ensures
            e@ == (EntryView { name: name@, content: content@, mode }),
    {
        ArchiveEntry { name, content, mode }
    }

    /// The marker of the directory at `path`, a relative path without a
    /// `/` at its end.
    pub fn directory(path: &str) -> (e: ArchiveEntry)
        ensures
            e@ == (EntryView { name: path@.push('/'), content: Seq::<u8>::empty(), mode: None }),
    {
        let mut name = path.to_owned();
        proof {
            reveal_strlit("/");
            assert("/"@ =~= seq!['/']);
            assert(path@ + seq!['/'] =~= path@.push('/'));
        }
        name.append("/");
        ArchiveEntry { name, content: Vec::new(), mode: None }
    }

    /// Whether this entry marks a directory.
    pub fn is_directory(&self) -> (r: bool)
        ensures
            r == is_directory_name(self.name@),
    {
        names_directory(self.name.as_str())
    }
}

} // verus!
