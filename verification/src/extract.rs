//! Reading an archive and planning its extraction below a destination root.
//!
//! Extraction is planned, not performed: each entry becomes one step, a
//! directory to create or a file to write, whose path has been approved by
//! the sanitizer. Whoever performs the steps touches nothing outside the
//! destination root.

use crate::container::{
    archive_bytes, entry_count, load_entry, open_container, zip_directory, zip_entry,
};
use crate::entry::{
    container_error, entry_views, error_of, fault_of, ArchiveEntry, ArchiveError,
    ArchiveErrorView, EntryView, FaultKind, FaultView,
};
use crate::path::{
    descends_from, has_parent_ref, is_directory_name, is_entry_name, joined,
    lemma_empty_name_is_the_root, lemma_entry_name_is_approved,
    lemma_relative_name_stays_below, sanitize_path, sanitized, PathRejection,
};
use vstd::prelude::*;

verus! {

/// One thing to do to the destination tree.
#[derive(Debug, PartialEq, Eq)]
pub enum ExtractStep {
    /// Create the directory at `path`, with any missing ancestors; nothing
    /// to do where it exists.
    CreateDirectory { path: String },
    /// Create the file at `path`, or replace it, with `content`, after
    /// creating any missing ancestors; then give it `mode` where there is
    /// one and the platform has permission bits.
    WriteFile { path: String, content: Vec<u8>, mode: Option<u32> },
}

/// A step as plain values.
pub enum StepView {
    CreateDirectory { path: Seq<char> },
    WriteFile { path: Seq<char>, content: Seq<u8>, mode: Option<u32> },
}

impl StepView {
    /// The path that the step creates or writes.
    pub open spec fn target(self) -> Seq<char> {
        match self {
            StepView::CreateDirectory { path } => path,
            StepView::WriteFile { path, .. } => path,
        }
    }
}

impl View for ExtractStep {
    type V = StepView;

    open spec fn view(&self) -> StepView {
        match self {
            ExtractStep::CreateDirectory { path } => StepView::CreateDirectory { path: path@ },
            ExtractStep::WriteFile { path, content, mode } => StepView::WriteFile {
                path: path@,
                content: content@,
                mode: *mode,
            },
        }
    }
}

impl ExtractStep {
    /// The path that the step creates or writes.
    pub fn target(&self) -> (path: &String)
        ensures
            path@ == self@.target(),
    {
        match self {
            ExtractStep::CreateDirectory { path } => path,
            ExtractStep::WriteFile { path, .. } => path,
        }
    }
}

/// The views of a list of steps.
pub open spec fn step_views(steps: Seq<ExtractStep>) -> Seq<StepView> {
    steps.map_values(|s: ExtractStep| s@)
}

/// The step for the entry at `index` below the root `dest`: its name is
/// sanitized, and a rejection is the error of the whole extraction. A name
/// that marks a directory gives a directory to create; any other gives a
/// file to write with the entry's content and mode.
pub open spec fn planned(dest: Seq<char>, index: usize, entry: EntryView) -> Result<
    StepView,
    ArchiveErrorView,
> {
    match sanitized(dest, entry.name) {
        Err(rejection) => Err(ArchiveErrorView::PathTraversalRejected { index, rejection }),
        Ok(path) => if is_directory_name(entry.name) {
            Ok(StepView::CreateDirectory { path })
        } else {
            Ok(StepView::WriteFile { path, content: entry.content, mode: entry.mode })
        },
    }
}

/// The steps for the first `n` entries of the archive in `bytes`, in the
/// archive's order. An entry that the archive reports as not found is
/// passed over; any other failure to read an entry, and any rejected name,
/// ends the extraction with that error.
pub open spec fn extracted_upto(bytes: Seq<u8>, dest: Seq<char>, n: nat) -> Result<
    Seq<StepView>,
    ArchiveErrorView,
>
    decreases n,
{
    if n == 0 {
        Ok(Seq::empty())
    } else {
        let index = (n - 1) as usize;
        match extracted_upto(bytes, dest, (n - 1) as nat) {
            Err(e) => Err(e),
            Ok(steps) => match zip_entry(bytes, index as int) {
                Err(fault) => if fault.kind is NotFound {
                    Ok(steps)
                } else {
                    Err(container_error(fault, index))
                },
                Ok(entry) => match planned(dest, index, entry) {
                    Err(e) => Err(e),
                    Ok(step) => Ok(steps.push(step)),
                },
            },
        }
    }
}

/// The steps that extract the archive in `bytes` below `dest`, or the error
/// that ends the extraction.
pub open spec fn extraction(bytes: Seq<u8>, dest: Seq<char>) -> Result<
    Seq<StepView>,
    ArchiveErrorView,
> {
    match zip_directory(bytes) {
        Err(fault) => Err(container_error(fault, 0)),
        Ok(count) => extracted_upto(bytes, dest, count as nat),
    }
}

/// The entries among the first `n` of the archive in `bytes`, in the
/// archive's order, without those that the archive reports as not found; or
/// the error of the first entry that cannot be read otherwise.
pub open spec fn entries_upto(bytes: Seq<u8>, n: nat) -> Result<Seq<EntryView>, ArchiveErrorView>
    decreases n,
{
    if n == 0 {
        Ok(Seq::empty())
    } else {
        let index = (n - 1) as usize;
        match entries_upto(bytes, (n - 1) as nat) {
            Err(e) => Err(e),
            Ok(entries) => match zip_entry(bytes, index as int) {
                Err(fault) => if fault.kind is NotFound {
                    Ok(entries)
                } else {
                    Err(container_error(fault, index))
                },
                Ok(entry) => Ok(entries.push(entry)),
            },
        }
    }
}

/// The entries of the archive in `bytes`, or the error that reading it
/// ends with.
pub open spec fn archive_listing(bytes: Seq<u8>) -> Result<Seq<EntryView>, ArchiveErrorView> {
    match zip_directory(bytes) {
        Err(fault) => Err(container_error(fault, 0)),
        Ok(count) => entries_upto(bytes, count as nat),
    }
}

/// Every planned step creates or writes the root or something below it.
pub proof fn lemma_planned_stays_below(dest: Seq<char>, index: usize, entry: EntryView)
    ensures
        planned(dest, index, entry) matches Ok(step) ==> descends_from(step.target(), dest),
        planned(dest, index, entry) matches Ok(step) ==> step.target() == joined(dest, entry.name),
{
    if sanitized(dest, entry.name) is Ok {
        lemma_relative_name_stays_below(dest, entry.name);
    }
}

/// The empty name plans, under every root, the creation of the root
/// itself: it is a directory to create, never an error and never a file.
pub proof fn lemma_empty_name_plans_the_root(dest: Seq<char>, index: usize, entry: EntryView)
    requires
        entry.name.len() == 0,
    ensures
        planned(dest, index, entry) == Ok::<StepView, ArchiveErrorView>(
            StepView::CreateDirectory { path: joined(dest, entry.name) },
        ),
        descends_from(joined(dest, entry.name), dest),
{
    assert(entry.name =~= Seq::<char>::empty());
    lemma_empty_name_is_the_root(dest);
}

/// An entry with a `..` segment in its name is never planned: it ends the
/// extraction as a rejected path.
pub proof fn lemma_parent_reference_is_never_planned(
    dest: Seq<char>,
    index: usize,
    entry: EntryView,
)
    requires
        has_parent_ref(entry.name),
    ensures
        planned(dest, index, entry) == Err::<StepView, ArchiveErrorView>(
            ArchiveErrorView::PathTraversalRejected {
                index,
                rejection: PathRejection::ParentReference,
            },
        ),
{
}

/// An entry under a name that packing gives is planned under every root,
/// at the root followed by the name: what was packed can be extracted.
pub proof fn lemma_packed_name_is_planned(dest: Seq<char>, index: usize, entry: EntryView)
    requires
        is_entry_name(entry.name),
    ensures
        planned(dest, index, entry) matches Ok(step) && step.target() == joined(dest, entry.name),
        is_directory_name(entry.name) <==> planned(dest, index, entry)->Ok_0 is CreateDirectory,
{
    lemma_entry_name_is_approved(dest, entry.name);
}

/// Once an extraction has failed, the entries after the failure change
/// nothing.
pub proof fn lemma_extraction_failure_is_final(bytes: Seq<u8>, dest: Seq<char>, n: nat, m: nat)
    requires
        n <= m,
        extracted_upto(bytes, dest, n) is Err,
    ensures
        extracted_upto(bytes, dest, m) == extracted_upto(bytes, dest, n),
    decreases m,
{
    if n < m {
        lemma_extraction_failure_is_final(bytes, dest, n, (m - 1) as nat);
    }
}

/// Once reading has failed, the entries after the failure change nothing.
pub proof fn lemma_listing_failure_is_final(bytes: Seq<u8>, n: nat, m: nat)
    requires
        n <= m,
        entries_upto(bytes, n) is Err,
    ensures
        entries_upto(bytes, m) == entries_upto(bytes, n),
    decreases m,
{
    if n < m {
        lemma_listing_failure_is_final(bytes, n, (m - 1) as nat);
    }
}

/// Whether every one of `steps` creates or writes `dest` or something
/// below it.
pub open spec fn all_below(steps: Seq<StepView>, dest: Seq<char>) -> bool {
    forall|k: int| 0 <= k < steps.len() ==> descends_from((#[trigger] steps[k]).target(), dest)
}

/// Every step of a successful extraction creates or writes the root or
/// something below it.
pub proof fn lemma_extraction_stays_below(bytes: Seq<u8>, dest: Seq<char>, n: nat)
    ensures
        extracted_upto(bytes, dest, n) matches Ok(steps) ==> all_below(steps, dest),
    decreases n,
{
    if n > 0 {
        let index = (n - 1) as usize;
        lemma_extraction_stays_below(bytes, dest, (n - 1) as nat);
        if zip_entry(bytes, index as int) is Ok {
            lemma_planned_stays_below(dest, index, zip_entry(bytes, index as int)->Ok_0);
        }
    }
}

/// Plans the extraction of one entry, the one at `index` of its archive,
/// below `dest_dir`.
pub fn plan_entry(dest_dir: &str, index: usize, entry: ArchiveEntry) -> (r: Result<
    ExtractStep,
    ArchiveError,
>)
    ensures
        match r {
            Ok(step) => planned(dest_dir@, index, entry@) == Ok::<StepView, ArchiveErrorView>(step@),
            Err(e) => planned(dest_dir@, index, entry@) == Err::<StepView, ArchiveErrorView>(e@),
        },
        r matches Ok(step) ==> descends_from(step@.target(), dest_dir@),
{
    match sanitize_path(dest_dir, entry.name.as_str()) {
        Err(rejection) => Err(ArchiveError::PathTraversalRejected { index, rejection }),
        Ok(path) => {
            if entry.is_directory() {
                Ok(ExtractStep::CreateDirectory { path })
            } else {
                Ok(ExtractStep::WriteFile { path, content: entry.content, mode: entry.mode })
            }
        },
    }
}

/// Reads every entry of the archive in `archive`, in the archive's order.
pub fn read_archive(archive: Vec<u8>) -> (r: Result<Vec<ArchiveEntry>, ArchiveError>)
    ensures
        match r {
            Ok(entries) => archive_listing(archive@) == Ok::<Seq<EntryView>, ArchiveErrorView>(
                entry_views(entries@),
            ),
            Err(e) => archive_listing(archive@) == Err::<Seq<EntryView>, ArchiveErrorView>(e@),
        },
{
    let ghost bytes = archive@;
    let mut a = match open_container(archive) {
        Ok(a) => a,
        Err(e) => {
            return Err(error_of(&e, 0));
        },
    };
    let count = entry_count(&a);
    let mut entries: Vec<ArchiveEntry> = Vec::new();
    let mut i: usize = 0;
    assert(entry_views(entries@) =~= Seq::<EntryView>::empty());
    while i < count
        invariant
            i <= count,
            bytes == archive@,
            archive_bytes(a) == bytes,
            zip_directory(bytes) == Ok::<usize, FaultView>(count),
            entries_upto(bytes, i as nat) == Ok::<Seq<EntryView>, ArchiveErrorView>(
                entry_views(entries@),
            ),
        decreases count - i,
    {
        match load_entry(&mut a, i) {
            Ok(entry) => {
                let ghost before = entries@;
                entries.push(entry);
                assert(entry_views(entries@) =~= entry_views(
                    before,
                ).push(entry@));
            },
            Err(e) => {
                let fault = fault_of(&e);
                match fault.kind {
                    FaultKind::NotFound => {},
                    _ => {
                        proof {
                            lemma_listing_failure_is_final(bytes, (i + 1) as nat, count as nat);
                        }
                        return Err(ArchiveError::from_fault(fault, i));
                    },
                }
            },
        }
        i += 1;
    }
    Ok(entries)
}

/// Plans the extraction of the archive in `archive` below `dest_dir`.
///
/// The entries are taken in the archive's order. Each name is sanitized
/// against `dest_dir`; the first rejected name fails the whole call, as
/// does the first entry that cannot be read, and nothing is planned. On
/// success there is one step for each entry, and every step creates or
/// writes `dest_dir` or something below it.
pub fn unzip_file(archive: Vec<u8>, dest_dir: &str) -> (r: Result<Vec<ExtractStep>, ArchiveError>)
    ensures
        match r {
            Ok(steps) => extraction(archive@, dest_dir@) == Ok::<Seq<StepView>, ArchiveErrorView>(
                step_views(steps@),
            ),
            Err(e) => extraction(archive@, dest_dir@) == Err::<Seq<StepView>, ArchiveErrorView>(
                e@,
            ),
        },
        r matches Ok(steps) ==> all_below(step_views(steps@), dest_dir@),
{
    let ghost bytes = archive@;
    let mut a = match open_container(archive) {
        Ok(a) => a,
        Err(e) => {
            return Err(error_of(&e, 0));
        },
    };
    let count = entry_count(&a);
    let mut steps: Vec<ExtractStep> = Vec::new();
    let mut i: usize = 0;
    assert(step_views(steps@) =~= Seq::<StepView>::empty());
    while i < count
        invariant
            i <= count,
            bytes == archive@,
            archive_bytes(a) == bytes,
            zip_directory(bytes) == Ok::<usize, FaultView>(count),
            extracted_upto(bytes, dest_dir@, i as nat) == Ok::<Seq<StepView>, ArchiveErrorView>(
                step_views(steps@),
            ),
        decreases count - i,
    {
        match load_entry(&mut a, i) {
            Ok(entry) => {
                match plan_entry(dest_dir, i, entry) {
                    Ok(step) => {
                        let ghost before = steps@;
                        steps.push(step);
                        assert(step_views(steps@) =~= step_views(before).push(step@));
                    },
                    Err(e) => {
                        proof {
                            lemma_extraction_failure_is_final(
                                bytes,
                                dest_dir@,
                                (i + 1) as nat,
                                count as nat,
                            );
                        }
                        return Err(e);
                    },
                }
            },
            Err(e) => {
                let fault = fault_of(&e);
                match fault.kind {
                    FaultKind::NotFound => {},
                    _ => {
                        proof {
                            lemma_extraction_failure_is_final(
                                bytes,
                                dest_dir@,
                                (i + 1) as nat,
                                count as nat,
                            );
                        }
                        return Err(ArchiveError::from_fault(fault, i));
                    },
                }
            },
        }
        i += 1;
    }
    proof {
        lemma_extraction_stays_below(bytes, dest_dir@, count as nat);
    }
    Ok(steps)
}

} // verus!
