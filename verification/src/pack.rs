//! Packing entries into the bytes of an archive.

use crate::container::{
    add_directory, finish, new_writer, start_file, start_file_with_mode, write_content,
    written_entries, zip_finished, zip_step_fault, Written,
};
use crate::entry::{
    container_error, entry_views, error_of, ArchiveEntry, ArchiveError, ArchiveErrorView,
    EntryView, FaultView,
};
use crate::path::{
    is_clean_relative, is_directory_name, is_entry_name, is_entry_path,
    lemma_clean_path_is_harmless,
};
use vstd::prelude::*;
use vstd::utf8::encode_utf8;

verus! {

/// The longest name, in bytes of UTF-8, that a container can record.
pub const MAX_NAME_BYTES: usize = 65535;

/// The bits of a mode that are packed: the permissions.
pub const PERMISSION_BITS: u32 = 0o777;

/// What is wrong with `name` as the name of the entry at `index`, if
/// anything.
pub open spec fn name_fault(name: Seq<char>, index: usize) -> Option<ArchiveErrorView> {
    if !is_entry_name(name) {
        Some(ArchiveErrorView::InvalidName { index })
    } else if encode_utf8(name).len() > MAX_NAME_BYTES {
        Some(ArchiveErrorView::NameTooLong { index })
    } else {
        None
    }
}

/// What is wrong with the first of the first `n` entries whose name is
/// unfit, if any is.
pub open spec fn first_name_fault(entries: Seq<EntryView>, n: nat) -> Option<ArchiveErrorView>
    decreases n,
{
    if n == 0 {
        None
    } else {
        match first_name_fault(entries, (n - 1) as nat) {
            Some(e) => Some(e),
            None => name_fault(entries[n - 1].name, (n - 1) as usize),
        }
    }
}

/// What a writer comes to hold of an entry: a name that marks a directory
/// makes a directory, which has neither content nor a mode of its own; any
/// other makes a file with the entry's content and, of its mode, the
/// permission bits.
pub open spec fn recorded(entry: EntryView) -> Written {
    if is_directory_name(entry.name) {
        Written { name: entry.name, directory: true, content: Seq::empty(), mode: None }
    } else {
        Written {
            name: entry.name,
            directory: false,
            content: entry.content,
            mode: match entry.mode {
                Some(mode) => Some(mode & PERMISSION_BITS),
                None => None,
            },
        }
    }
}

/// What a writer holds of an entry once it is started and nothing is
/// written to it yet.
pub open spec fn started(entry: EntryView) -> Written {
    Written { content: Seq::empty(), ..recorded(entry) }
}

/// The failure, if any, with which a writer that holds `before` refuses
/// `entry`: at its start, or else at the writing of its content, where it
/// has any.
pub open spec fn entry_fault(before: Seq<Written>, entry: EntryView) -> Option<FaultView> {
    match zip_step_fault(before, started(entry)) {
        Some(fault) => Some(fault),
        None => if recorded(entry).content.len() > 0 {
            zip_step_fault(before, recorded(entry))
        } else {
            None
        },
    }
}

/// What a writer holds after the first `n` entries, or the error of the
/// first of them that it refuses.
pub open spec fn written_upto(entries: Seq<EntryView>, n: nat) -> Result<
    Seq<Written>,
    ArchiveErrorView,
>
    decreases n,
{
    if n == 0 {
        Ok(Seq::empty())
    } else {
        match written_upto(entries, (n - 1) as nat) {
            Err(e) => Err(e),
            Ok(before) => match entry_fault(before, entries[n - 1]) {
                Some(fault) => Err(container_error(fault, (n - 1) as usize)),
                None => Ok(before.push(recorded(entries[n - 1]))),
            },
        }
    }
}

/// What packing `entries` gives: the error of the first unfit name; else
/// the error of the first entry that the writer refuses; else what the
/// writer finishes with, the bytes of the archive or its failure.
pub open spec fn packed(entries: Seq<EntryView>) -> Result<Seq<u8>, ArchiveErrorView> {
    match first_name_fault(entries, entries.len()) {
        Some(e) => Err(e),
        None => match written_upto(entries, entries.len()) {
            Err(e) => Err(e),
            Ok(written) => match zip_finished(written) {
                Ok(bytes) => Ok(bytes),
                Err(fault) => Err(container_error(fault, entries.len() as usize)),
            },
        },
    }
}

/// The first unfit name decides: entries after it change nothing.
pub proof fn lemma_name_fault_is_final(entries: Seq<EntryView>, n: nat, m: nat)
    requires
        n <= m,
        first_name_fault(entries, n) is Some,
    ensures
        first_name_fault(entries, m) == first_name_fault(entries, n),
    decreases m,
{
    if n < m {
        lemma_name_fault_is_final(entries, n, (m - 1) as nat);
    }
}

/// The first refused entry decides: entries after it change nothing.
pub proof fn lemma_refusal_is_final(entries: Seq<EntryView>, n: nat, m: nat)
    requires
        n <= m,
        written_upto(entries, n) is Err,
    ensures
        written_upto(entries, m) == written_upto(entries, n),
    decreases m,
{
    if n < m {
        lemma_refusal_is_final(entries, n, (m - 1) as nat);
    }
}

/// Where no name is unfit among the first `n`, none of them is.
pub proof fn lemma_names_fit(entries: Seq<EntryView>, n: nat, k: int)
    requires
        first_name_fault(entries, n) is None,
        0 <= k < n,
    ensures
        name_fault(entries[k].name, k as usize) is None,
    decreases n,
{
    if k < n - 1 {
        lemma_names_fit(entries, (n - 1) as nat, k);
    }
}

/// What a writer holds after entries that it did not refuse is what each
/// of them records, in their order.
pub proof fn lemma_written_is_recorded(entries: Seq<EntryView>, n: nat)
    requires
        n <= entries.len(),
    ensures
        written_upto(entries, n) matches Ok(written) ==> written == entries.take(
            n as int,
        ).map_values(|e: EntryView| recorded(e)),
    decreases n,
{
    if n > 0 {
        lemma_written_is_recorded(entries, (n - 1) as nat);
        if written_upto(entries, n) is Ok {
            let earlier = entries.take(n - 1).map_values(|e: EntryView| recorded(e));
            assert(entries.take(n as int) =~= entries.take(n - 1).push(entries[n - 1]));
            assert(entries.take(n as int).map_values(|e: EntryView| recorded(e)) =~= earlier.push(
                recorded(entries[n - 1]),
            ));
        }
    } else {
        assert(entries.take(0).map_values(|e: EntryView| recorded(e)) =~= Seq::<Written>::empty());
    }
}

/// What is wrong with `name` as the name of the entry at `index`, if
/// anything.
pub fn check_name(name: &str, index: usize) -> (r: Option<ArchiveError>)
    ensures
        match r {
            Some(e) => name_fault(name@, index) == Some(e@),
            None => name_fault(name@, index) is None,
        },
{
    if !is_entry_path(name) {
        Some(ArchiveError::InvalidName { index })
    } else if name.as_bytes().len() > MAX_NAME_BYTES {
        Some(ArchiveError::NameTooLong { index })
    } else {
        None
    }
}

/// Packs the entries of the application's data directory, in their order,
/// into the bytes of one archive.
///
/// Every name is checked before anything is written: the first entry whose
/// name is not a clean relative path, or is too long to record, fails the
/// whole call. After that only the container library can fail, and the
/// first failure of it fails the whole call, with its cause. An entry whose
/// name ends in `/` becomes a directory; any other becomes a file with the
/// entry's content and, where it has a mode, the permission bits of it.
pub fn zip_app_directory(entries: &Vec<ArchiveEntry>) -> (r: Result<Vec<u8>, ArchiveError>)
    ensures
        match r {
            Ok(bytes) => packed(entry_views(entries@)) == Ok::<Seq<u8>, ArchiveErrorView>(bytes@),
            Err(e) => packed(entry_views(entries@)) == Err::<Seq<u8>, ArchiveErrorView>(e@),
        },
{
    let ghost all = entry_views(entries@);
    let mut i: usize = 0;
    while i < entries.len()
        invariant
            i <= entries.len(),
            all == entry_views(entries@),
            first_name_fault(all, i as nat) is None,
        decreases entries.len() - i,
    {
        match check_name(entries[i].name.as_str(), i) {
            Some(e) => {
                proof {
                    assert(first_name_fault(all, (i + 1) as nat) == Some(e@));
                    lemma_name_fault_is_final(all, (i + 1) as nat, all.len());
                }
                return Err(e);
            },
            None => {},
        }
        i += 1;
    }
    let mut w = new_writer();
    let mut i: usize = 0;
    assert(written_entries(w) =~= Seq::<Written>::empty());
    while i < entries.len()
        invariant
            i <= entries.len(),
            all == entry_views(entries@),
            first_name_fault(all, all.len()) is None,
            written_upto(all, i as nat) == Ok::<Seq<Written>, ArchiveErrorView>(written_entries(w)),
        decreases entries.len() - i,
    {
        let entry = &entries[i];
        let ghost before = written_entries(w);
        proof {
            assert(all[i as int] == entry@);
            lemma_names_fit(all, all.len(), i as int);
            if is_directory_name(entry@.name) && is_clean_relative(entry@.name) {
                lemma_clean_path_is_harmless(entry@.name);
            }
        }
        let step = if entry.is_directory() {
            add_directory(w, entry.name.as_str())
        } else {
            match entry.mode {
                Some(mode) => {
                    assert(mode & PERMISSION_BITS <= 0o777) by (bit_vector);
                    start_file_with_mode(w, entry.name.as_str(), mode & PERMISSION_BITS)
                },
                None => start_file(w, entry.name.as_str()),
            }
        };
        w = match step {
            Ok(after) => after,
            Err(e) => {
                proof {
                    assert(written_upto(all, (i + 1) as nat) is Err);
                    lemma_refusal_is_final(all, (i + 1) as nat, all.len());
                }
                return Err(error_of(&e, i));
            },
        };
        if !entry.is_directory() && entry.content.len() > 0 {
            proof {
                assert(written_entries(w).drop_last() =~= before);
                assert(written_entries(w).last() == started(entry@));
            }
            w = match write_content(w, &entry.content) {
                Ok(after) => after,
                Err(e) => {
                    proof {
                        assert(written_upto(all, (i + 1) as nat) is Err);
                        lemma_refusal_is_final(all, (i + 1) as nat, all.len());
                    }
                    return Err(error_of(&e, i));
                },
            };
        }
        proof {
            if recorded(entry@).content.len() == 0 {
                assert(recorded(entry@).content =~= Seq::<u8>::empty());
            }
            assert(written_entries(w) == before.push(recorded(entry@)));
        }
        i += 1;
    }
    match finish(w) {
        Ok(bytes) => Ok(bytes),
        Err(e) => Err(error_of(&e, entries.len())),
    }
}

} // verus!
