//! Laying a pack out in a staging folder, ready to be archived.

use vstd::prelude::*;
use crate::manifest::{Manifest, ManifestView, MANIFEST_NAME};
use crate::archive::{archive_entries_of, archive_entry_of, ArchiveEntryView};
use crate::indexer::{
    distinct_in, entries_in, lemma_listing_meets_no_path_twice, paths_distinct, EntryView, Node,
};
use crate::path::{archive_name, lemma_strip_join, PackPath};

verus! {

/// What the name of every staging folder begins with.
pub const STAGING_PREFIX: &'static str = "modpack";

/// One file to copy into the staging folder. The folder `parent` has to
/// exist before the copy; it is absent only where `dest` has no components.
#[derive(Debug, PartialEq, Eq)]
pub struct CopyStep {
    pub source: PackPath,
    pub dest: PackPath,
    pub parent: Option<PackPath>,
}

/// Everything staging has to do: the copies, in manifest order, and then
/// the manifest file to write.
#[derive(Debug)]
pub struct StagingPlan {
    pub root: PackPath,
    pub copies: Vec<CopyStep>,
    pub manifest_file: PackPath,
}

/// What a copy step stands for in contracts.
pub ghost struct CopyView {
    pub source: Seq<Seq<char>>,
    pub dest: Seq<Seq<char>>,
    pub parent: Option<Seq<Seq<char>>>,
}

impl View for CopyStep {
    type V = CopyView;

    open spec fn view(&self) -> CopyView {
        CopyView {
            source: self.source@,
            dest: self.dest@,
            parent: match self.parent {
                Some(p) => Some(p@),
                None => None,
            },
        }
    }
}

/// The copy that stages the file at `rel`: from under the pack root to the
/// same relative path under the staging root.
pub open spec fn copy_of(base: Seq<Seq<char>>, staging: Seq<Seq<char>>, rel: Seq<Seq<char>>) -> CopyView {
    CopyView {
        source: base + rel,
        dest: staging + rel,
        parent: if (staging + rel).len() > 0 {
            Some((staging + rel).drop_last())
        } else {
            None
        },
    }
}

/// The copies that stage a whole manifest, one per record, in order.
pub open spec fn copies_of(staging: Seq<Seq<char>>, manifest: ManifestView) -> Seq<CopyView> {
    Seq::new(
        manifest.files.len(),
        |i: int| copy_of(manifest.base_dir, staging, manifest.files[i].path),
    )
}

impl StagingPlan {
    /// The copies of the plan, as a model.
    pub open spec fn copies_view(self) -> Seq<CopyView> {
        Seq::new(self.copies@.len(), |i: int| self.copies@[i]@)
    }
}

/// Plans the staging of a pack under `staging_root`: every file of the
/// manifest is copied from the pack folder to the same relative path under
/// the staging root, and the manifest file goes directly under that root.
pub fn make_zipfs_structure(staging_root: &PackPath, manifest: &Manifest) -> (plan: StagingPlan)
    ensures
        plan.root@ == staging_root@,
        plan.copies_view() == copies_of(staging_root@, manifest@),
        plan.manifest_file@ == staging_root@.push(MANIFEST_NAME@),
{
    let mut copies: Vec<CopyStep> = Vec::new();
    let mut i: usize = 0;
    while i < manifest.files.len()
        invariant
            i <= manifest.files@.len(),
            copies@.len() == i,
            forall|j: int|
                0 <= j < i ==> (#[trigger] copies@[j])@ == copy_of(
                    manifest@.base_dir,
                    staging_root@,
                    manifest@.files[j].path,
                ),
        decreases manifest.files@.len() - i,
    {
        let rel = &manifest.files[i].path;
        let source = manifest.base_dir.join(rel);
        let dest = staging_root.join(rel);
        let parent = dest.parent();
        copies.push(CopyStep { source, dest, parent });
        i += 1;
    }
    let plan = StagingPlan {
        root: staging_root.clone(),
        copies,
        manifest_file: staging_root.child(MANIFEST_NAME),
    };
    assert(plan.copies_view() =~= copies_of(staging_root@, manifest@));
    plan
}

/// Round trip of a record through staging: the file of the `i`-th record is
/// staged where the archive writer names it by the record's own path.
pub proof fn lemma_record_keeps_its_path(staging: Seq<Seq<char>>, manifest: ManifestView, i: int)
    requires
        0 <= i < manifest.files.len(),
    ensures
        staging.is_prefix_of(copies_of(staging, manifest)[i].dest),
        archive_entry_of(
            staging,
            EntryView { path: copies_of(staging, manifest)[i].dest, is_dir: false },
        ).name == archive_name(manifest.files[i].path),
{
    lemma_strip_join(staging, manifest.files[i].path);
}

/// The manifest file lies directly under the staging root and is named in
/// the archive by its own name.
pub proof fn lemma_manifest_file_at_root(staging: Seq<Seq<char>>)
    ensures
        archive_entry_of(
            staging,
            EntryView { path: staging.push(MANIFEST_NAME@), is_dir: false },
        ).name == archive_name(seq![MANIFEST_NAME@]),
{
    assert(staging.push(MANIFEST_NAME@).skip(staging.len() as int) =~= seq![MANIFEST_NAME@]);
}

/// The files staging puts under the staging root: the file of every
/// record, and the manifest file.
pub open spec fn staged_files(staging: Seq<Seq<char>>, manifest: ManifestView) -> Set<
    Seq<Seq<char>>,
> {
    Set::new(
        |p: Seq<Seq<char>>|
            p == staging.push(MANIFEST_NAME@) || exists|i: int|
                0 <= i < manifest.files.len() && p == staging + (#[trigger] manifest.files[i]).path,
    )
}

/// The names a manifest promises in its archive: the path of every record,
/// and the manifest file's own name.
pub open spec fn promised_names(manifest: ManifestView) -> Set<Seq<char>> {
    Set::new(
        |n: Seq<char>|
            n == archive_name(seq![MANIFEST_NAME@]) || exists|i: int|
                0 <= i < manifest.files.len() && n == archive_name(
                    (#[trigger] manifest.files[i]).path,
                ),
    )
}

/// The paths of the files among what a walk met.
pub open spec fn walked_files(walked: Seq<EntryView>) -> Set<Seq<Seq<char>>> {
    Set::new(
        |p: Seq<Seq<char>>|
            exists|k: int|
                0 <= k < walked.len() && !(#[trigger] walked[k]).is_dir && p == walked[k].path,
    )
}

/// The archive names of the files among what a walk met.
pub open spec fn archived_names(base: Seq<Seq<char>>, walked: Seq<EntryView>) -> Set<Seq<char>> {
    Set::new(
        |n: Seq<char>|
            exists|k: int|
                0 <= k < walked.len() && !(#[trigger] walked[k]).is_dir && n == archive_entry_of(
                    base,
                    walked[k],
                ).name,
    )
}

/// Round trip of a whole manifest. Where the walk of the staging folder
/// meets as files what staging put there, no more and no less, the files of
/// the archive are named by the paths of the manifest's records and by the
/// manifest file's name, no more and no less.
pub proof fn lemma_archive_lists_the_manifest(
    staging: Seq<Seq<char>>,
    manifest: ManifestView,
    walked: Seq<EntryView>,
)
    requires
        walked_files(walked) == staged_files(staging, manifest),
    ensures
        archived_names(staging, walked) == promised_names(manifest),
{
    assert forall|n: Seq<char>| archived_names(staging, walked).contains(n) implies promised_names(
        manifest,
    ).contains(n) by {
        let k = choose|k: int|
            0 <= k < walked.len() && !(#[trigger] walked[k]).is_dir && n == archive_entry_of(
                staging,
                walked[k],
            ).name;
        let p = walked[k].path;
        assert(walked_files(walked).contains(p));
        assert(staged_files(staging, manifest).contains(p));
        if p == staging.push(MANIFEST_NAME@) {
            lemma_manifest_file_at_root(staging);
        } else {
            let i = choose|i: int|
                0 <= i < manifest.files.len() && p == staging + (#[trigger] manifest.files[i]).path;
            lemma_strip_join(staging, manifest.files[i].path);
        }
    }
    assert forall|n: Seq<char>| promised_names(manifest).contains(n) implies archived_names(
        staging,
        walked,
    ).contains(n) by {
        if n == archive_name(seq![MANIFEST_NAME@]) {
            let p = staging.push(MANIFEST_NAME@);
            assert(staged_files(staging, manifest).contains(p));
            assert(walked_files(walked).contains(p));
            let k = choose|k: int|
                0 <= k < walked.len() && !(#[trigger] walked[k]).is_dir && p == walked[k].path;
            lemma_manifest_file_at_root(staging);
            assert(n == archive_entry_of(staging, walked[k]).name);
        } else {
            let i = choose|i: int|
                0 <= i < manifest.files.len() && n == archive_name(
                    (#[trigger] manifest.files[i]).path,
                );
            let p = staging + manifest.files[i].path;
            assert(staged_files(staging, manifest).contains(p));
            assert(walked_files(walked).contains(p));
            let k = choose|k: int|
                0 <= k < walked.len() && !(#[trigger] walked[k]).is_dir && p == walked[k].path;
            lemma_strip_join(staging, manifest.files[i].path);
            assert(n == archive_entry_of(staging, walked[k]).name);
        }
    }
    assert(archived_names(staging, walked) =~= promised_names(manifest));
}

/// Whether the entry at position `k` of a plan is the one and only entry
/// that is read from `source`.
pub open spec fn sole_entry_for(plan: Seq<ArchiveEntryView>, source: Seq<Seq<char>>, k: int) -> bool {
    &&& 0 <= k < plan.len()
    &&& plan[k].source == source
    &&& forall|other: int|
        0 <= other < plan.len() && (#[trigger] plan[other]).source == source ==> other == k
}

/// Every record has exactly one entry in the archive plan. Where the
/// staging folder lists no name twice in any of its folders and holds as
/// files what staging put there, the plan that `zip_dir` makes of it has,
/// for the `i`-th record of the manifest, one entry read from where the
/// record was staged and no second one; that entry is a file and is named by
/// the record's own path.
pub proof fn lemma_each_record_has_one_entry(
    staging: Seq<Seq<char>>,
    manifest: ManifestView,
    listing: Seq<Node>,
    i: int,
)
    requires
        0 <= i < manifest.files.len(),
        distinct_in(listing, listing.len()),
        walked_files(entries_in(staging, listing, listing.len(), true)) == staged_files(
            staging,
            manifest,
        ),
    ensures
        ({
            let plan = archive_entries_of(
                staging,
                entries_in(staging, listing, listing.len(), true),
            );
            exists|k: int|
                sole_entry_for(plan, staging + manifest.files[i].path, k) && !(#[trigger] plan[k]).is_dir
                    && plan[k].name == archive_name(manifest.files[i].path)
        }),
{
    let walked = entries_in(staging, listing, listing.len(), true);
    let plan = archive_entries_of(staging, walked);
    let rel = manifest.files[i].path;
    let p = staging + rel;
    lemma_listing_meets_no_path_twice(staging, listing, listing.len(), true);
    assert(staged_files(staging, manifest).contains(p));
    assert(walked_files(walked).contains(p));
    let k = choose|k: int|
        0 <= k < walked.len() && !(#[trigger] walked[k]).is_dir && p == walked[k].path;
    lemma_strip_join(staging, rel);
    assert(plan[k] == archive_entry_of(staging, walked[k]));
    assert forall|other: int|
        0 <= other < plan.len() && (#[trigger] plan[other]).source == p implies other == k by {
        assert(plan[other] == archive_entry_of(staging, walked[other]));
        if other < k {
            assert(walked[other].path != walked[k].path);
        } else if k < other {
            assert(walked[k].path != walked[other].path);
        }
    }
    assert(sole_entry_for(plan, p, k));
}

/// The manifest file has exactly one entry in the archive plan, under the
/// same premises: a file at the root of the archive, named by the manifest
/// file's own name.
pub proof fn lemma_manifest_file_has_one_entry(
    staging: Seq<Seq<char>>,
    manifest: ManifestView,
    listing: Seq<Node>,
)
    requires
        distinct_in(listing, listing.len()),
        walked_files(entries_in(staging, listing, listing.len(), true)) == staged_files(
            staging,
            manifest,
        ),
    ensures
        ({
            let plan = archive_entries_of(
                staging,
                entries_in(staging, listing, listing.len(), true),
            );
            exists|k: int|
                sole_entry_for(plan, staging.push(MANIFEST_NAME@), k) && !(#[trigger] plan[k]).is_dir
                    && plan[k].name == archive_name(seq![MANIFEST_NAME@])
        }),
{
    let walked = entries_in(staging, listing, listing.len(), true);
    let plan = archive_entries_of(staging, walked);
    let p = staging.push(MANIFEST_NAME@);
    lemma_listing_meets_no_path_twice(staging, listing, listing.len(), true);
    assert(staged_files(staging, manifest).contains(p));
    assert(walked_files(walked).contains(p));
    let k = choose|k: int|
        0 <= k < walked.len() && !(#[trigger] walked[k]).is_dir && p == walked[k].path;
    lemma_manifest_file_at_root(staging);
    assert(plan[k] == archive_entry_of(staging, walked[k]));
    assert forall|other: int|
        0 <= other < plan.len() && (#[trigger] plan[other]).source == p implies other == k by {
        assert(plan[other] == archive_entry_of(staging, walked[other]));
        if other < k {
            assert(walked[other].path != walked[k].path);
        } else if k < other {
            assert(walked[k].path != walked[other].path);
        }
    }
    assert(sole_entry_for(plan, p, k));
}

} // verus!
