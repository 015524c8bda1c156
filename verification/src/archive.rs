//! Naming the entries of an archive and fixing how they are written.

use vstd::prelude::*;
use crate::error::PackError;
use crate::indexer::{find_files_and_dirs, entries_in, failure_in, paths_of, Entry, EntryView, Node};
use crate::manifest::all_inside;
use crate::path::{archive_name, PackPath};

verus! {

/// How an entry's bytes are compressed.
#[derive(Debug, Clone, Copy, PartialEq, Eq, Structural)]
pub enum Compression {
    /// Bytes are kept as they are.
    Stored,
    /// Bytes are compressed with bzip2.
    Bzip2,
}

/// The settings every entry is written with, whatever the source file's own
/// permissions were.
#[derive(Debug, Clone, Copy, PartialEq, Eq, Structural)]
pub struct ArchiveOptions {
    pub unix_permissions: u32,
    pub compression: Compression,
    pub compression_level: i32,
}

/// Owner may read and write, everybody else may read.
pub const ENTRY_PERMISSIONS: u32 = 0o644;

/// The highest effort the compressor offers.
pub const ENTRY_COMPRESSION_LEVEL: i32 = 9;

/// The settings every entry of a pack archive is written with: the fixed
/// permissions and the highest effort of bzip2.
pub open spec fn fixed_options() -> ArchiveOptions {
    ArchiveOptions {
        unix_permissions: ENTRY_PERMISSIONS,
        compression: Compression::Bzip2,
        compression_level: ENTRY_COMPRESSION_LEVEL,
    }
}

/// The settings every entry of a pack archive is written with.
pub fn entry_options() -> (r: ArchiveOptions)
    ensures
        r == fixed_options(),
{
    ArchiveOptions {
        unix_permissions: ENTRY_PERMISSIONS,
        compression: Compression::Bzip2,
        compression_level: ENTRY_COMPRESSION_LEVEL,
    }
}

/// One entry to write: its name inside the archive, whether it is a
/// directory, where its bytes are read from, and the settings it is written
/// with.
#[derive(Debug, PartialEq, Eq)]
pub struct ArchiveEntry {
    pub name: String,
    pub is_dir: bool,
    pub source: PackPath,
    pub options: ArchiveOptions,
}

/// What an archive entry stands for in contracts.
pub ghost struct ArchiveEntryView {
    pub name: Seq<char>,
    pub is_dir: bool,
    pub source: Seq<Seq<char>>,
    pub options: ArchiveOptions,
}

impl View for ArchiveEntry {
    type V = ArchiveEntryView;

    open spec fn view(&self) -> ArchiveEntryView {
        ArchiveEntryView {
            name: self.name@,
            is_dir: self.is_dir,
            source: self.source@,
            options: self.options,
        }
    }
}

/// The entries of a run of `ArchiveEntry`s.
pub open spec fn archive_view(entries: Seq<ArchiveEntry>) -> Seq<ArchiveEntryView> {
    Seq::new(entries.len(), |i: int| entries[i]@)
}

/// The archive entry for something met in a walk: named by its path
/// relative to `base`, and written with the fixed settings whatever the
/// source's own permissions are.
pub open spec fn archive_entry_of(base: Seq<Seq<char>>, entry: EntryView) -> ArchiveEntryView {
    ArchiveEntryView {
        name: archive_name(entry.path.skip(base.len() as int)),
        is_dir: entry.is_dir,
        source: entry.path,
        options: fixed_options(),
    }
}

/// The archive entries for a whole walk, in walk order.
pub open spec fn archive_entries_of(base: Seq<Seq<char>>, entries: Seq<EntryView>) -> Seq<
    ArchiveEntryView,
> {
    Seq::new(entries.len(), |i: int| archive_entry_of(base, entries[i]))
}

/// Plans the archive of the tree under `path`, whose listing is `listing`:
/// one entry for everything the walk meets, files and directories, named by
/// its path relative to `base_dir` with `/` as the only separator, and
/// written with the fixed permissions and compression.
///
/// An unreadable directory in the tree fails the plan with its reason; an
/// entry that does not lie under `base_dir` fails it as unresolvable.
pub fn zip_dir(path: &PackPath, listing: &Vec<Node>, base_dir: &PackPath) -> (r: Result<
    Vec<ArchiveEntry>,
    PackError,
>)
    ensures
        match r {
            Ok(plan) => failure_in(listing@, listing@.len()) is None && all_inside(
                base_dir@,
                paths_of(entries_in(path@, listing@, listing@.len(), true)),
            ) && archive_view(plan@) == archive_entries_of(
                base_dir@,
                entries_in(path@, listing@, listing@.len(), true),
            ),
            Err(PackError::Io(reason)) => failure_in(listing@, listing@.len()) == Some(reason@),
            Err(PackError::PathResolution) => failure_in(listing@, listing@.len()) is None
                && !all_inside(
                base_dir@,
                paths_of(entries_in(path@, listing@, listing@.len(), true)),
            ),
            Err(_) => false,
        },
{
    let entries = find_files_and_dirs(path, listing)?;
    let ghost walked = entries_in(path@, listing@, listing@.len(), true);
    let mut plan: Vec<ArchiveEntry> = Vec::new();
    let mut i: usize = 0;
    while i < entries.len()
        invariant
            i <= entries@.len(),
            plan@.len() == i,
            walked.len() == entries@.len(),
            walked == entries_in(path@, listing@, listing@.len(), true),
            failure_in(listing@, listing@.len()) is None,
            forall|j: int| 0 <= j < entries@.len() ==> (#[trigger] entries@[j])@ == walked[j],
            forall|j: int|
                0 <= j < i ==> base_dir@.is_prefix_of(#[trigger] paths_of(walked)[j]),
            forall|j: int|
                0 <= j < i ==> (#[trigger] plan@[j])@ == archive_entry_of(base_dir@, walked[j]),
        decreases entries@.len() - i,
    {
        let entry = &entries[i];
        match entry.path.strip_prefix(base_dir) {
            None => {
                assert(paths_of(walked)[i as int] == entry.path@);
                assert(!base_dir@.is_prefix_of(paths_of(walked)[i as int]));
                assert(!all_inside(base_dir@, paths_of(walked)));
                return Err(PackError::PathResolution);
            },
            Some(rel) => {
                assert(paths_of(walked)[i as int] == entry.path@);
                plan.push(
                    ArchiveEntry {
                        name: rel.to_archive_name(),
                        is_dir: entry.is_dir,
                        source: entry.path.clone(),
                        options: entry_options(),
                    },
                );
            },
        }
        i += 1;
    }
    assert(archive_view(plan@) =~= archive_entries_of(base_dir@, walked));
    Ok(plan)
}

/// Every entry of a plan is written with the same fixed settings: owner
/// may read and write, everybody else may read, and bzip2 at its highest
/// effort.
pub proof fn lemma_entries_share_fixed_options(
    base: Seq<Seq<char>>,
    entries: Seq<EntryView>,
    i: int,
)
    requires
        0 <= i < entries.len(),
    ensures
        archive_entries_of(base, entries)[i].options.unix_permissions == 0o644u32,
        archive_entries_of(base, entries)[i].options.compression == Compression::Bzip2,
        archive_entries_of(base, entries)[i].options.compression_level == 9i32,
{
}

} // verus!
