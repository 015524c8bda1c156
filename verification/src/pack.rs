//! Packaging a modpack: choosing the pack, and the decisions of the
//! packaging operation from its first step to its last.
//!
//! The operation itself touches the disk at every step, so it is written as
//! a machine: `Packaging::step` takes what the last action brought and says
//! what to do next. Whoever drives it performs the actions.

use vstd::prelude::*;
use crate::error::{ErrorView, PackError};
use crate::indexer::{
    distinct_in, entries_in, failure_in, file_count_in, find_files,
    lemma_listing_begins_with_names, lemma_listing_meets_no_path_twice, lemma_prefix_chain,
    lemma_walk_of_listing, paths_of, Node,
};
use crate::manifest::{
    all_inside, paths_view, records_of, Category, Manifest, ManifestView, RecordView, OUTSIDE_ROOT,
};
use crate::path::PackPath;

verus! {

/// How the pack to package is chosen.
#[derive(Debug)]
pub enum Selection {
    /// The first pack whose path ends with this one.
    ByName(PackPath),
    /// The pack at this position of the list, as a prompt returned it.
    Picked(usize),
}

/// Whether some pack before position `n` ends with `name`.
pub open spec fn matched_before(modpacks: Seq<PackPath>, name: Seq<Seq<char>>, n: int) -> bool {
    exists|j: int| 0 <= j < n && name.is_suffix_of(#[trigger] modpacks[j]@)
}

/// Picks the pack to package. By name, the first pack in list order whose
/// path ends with the name is chosen; by position, the position itself,
/// where the list reaches that far. Anything else is no selection.
pub fn select_modpack(selection: &Selection, modpacks: &Vec<PackPath>) -> (r: Result<
    usize,
    PackError,
>)
    ensures
        match r {
            Ok(i) => i < modpacks@.len() && (match *selection {
                Selection::ByName(name) => name@.is_suffix_of(modpacks@[i as int]@)
                    && !matched_before(modpacks@, name@, i as int),
                Selection::Picked(k) => i == k,
            }),
            Err(e) => e == PackError::NoSelection && (match *selection {
                Selection::ByName(name) => !matched_before(
                    modpacks@,
                    name@,
                    modpacks@.len() as int,
                ),
                Selection::Picked(k) => k >= modpacks@.len(),
            }),
        },
{
    match selection {
        Selection::Picked(k) => {
            if *k < modpacks.len() {
                Ok(*k)
            } else {
                Err(PackError::NoSelection)
            }
        },
        Selection::ByName(name) => {
            let mut i: usize = 0;
            while i < modpacks.len()
                invariant
                    i <= modpacks@.len(),
                    *selection == Selection::ByName(*name),
                    !matched_before(modpacks@, name@, i as int),
                decreases modpacks@.len() - i,
            {
                if modpacks[i].ends_with(name) {
                    return Ok(i);
                }
                i += 1;
            }
            Err(PackError::NoSelection)
        },
    }
}

/// The names a prompt shows for a list of packs: the last component of
/// each.
pub fn candidate_names(modpacks: &Vec<PackPath>) -> (names: Vec<String>)
    requires
        forall|i: int| 0 <= i < modpacks@.len() ==> (#[trigger] modpacks@[i])@.len() > 0,
    ensures
        names@.len() == modpacks@.len(),
        forall|i: int| 0 <= i < names@.len() ==> (#[trigger] names@[i])@ == modpacks@[i]@.last(),
{
    let mut names: Vec<String> = Vec::new();
    let mut i: usize = 0;
    while i < modpacks.len()
        invariant
            i <= modpacks@.len(),
            names@.len() == i,
            forall|j: int| 0 <= j < modpacks@.len() ==> (#[trigger] modpacks@[j])@.len() > 0,
            forall|j: int| 0 <= j < i ==> (#[trigger] names@[j])@ == modpacks@[j]@.last(),
        decreases modpacks@.len() - i,
    {
        let pack = &modpacks[i];
        assert(pack@.len() > 0);
        names.push(pack.parts[pack.parts.len() - 1].clone());
        i += 1;
    }
    names
}

/// The folders among the first `n` entries of the listing of `home`, in
/// listing order.
pub open spec fn folders_in(home: Seq<Seq<char>>, nodes: Seq<Node>, n: nat) -> Seq<
    Seq<Seq<char>>,
>
    decreases n,
{
    if n == 0 || n > nodes.len() {
        Seq::<Seq<Seq<char>>>::empty()
    } else {
        let before = folders_in(home, nodes, (n - 1) as nat);
        match nodes[n - 1] {
            Node::File(_) => before,
            Node::Dir(name, _) => before.push(home.push(name@)),
            Node::Unreadable(name, _) => before.push(home.push(name@)),
        }
    }
}

/// The packs in a home folder: every folder directly inside it, in listing
/// order. A home without any folder offers no selection.
pub fn list_modpacks(home_dir: &PackPath, listing: &Vec<Node>) -> (r: Result<
    Vec<PackPath>,
    PackError,
>)
    ensures
        match r {
            Ok(packs) => packs@.len() > 0 && paths_view(packs@) == folders_in(
                home_dir@,
                listing@,
                listing@.len(),
            ),
            Err(e) => e == PackError::NoSelection && folders_in(
                home_dir@,
                listing@,
                listing@.len(),
            ).len() == 0,
        },
{
    let mut packs: Vec<PackPath> = Vec::new();
    let mut i: usize = 0;
    while i < listing.len()
        invariant
            i <= listing@.len(),
            paths_view(packs@) == folders_in(home_dir@, listing@, i as nat),
        decreases listing@.len() - i,
    {
        let ghost before = paths_view(packs@);
        match &listing[i] {
            Node::File(_) => {},
            Node::Dir(name, _) => {
                packs.push(home_dir.child(name.as_str()));
                assert(paths_view(packs@) =~= before.push(
                    home_dir@.push(name@),
                ));
            },
            Node::Unreadable(name, _) => {
                packs.push(home_dir.child(name.as_str()));
                assert(paths_view(packs@) =~= before.push(
                    home_dir@.push(name@),
                ));
            },
        }
        i += 1;
    }
    if packs.len() == 0 {
        Err(PackError::NoSelection)
    } else {
        Ok(packs)
    }
}

/// Where a packaging operation stands.
#[derive(Debug, Clone, Copy, PartialEq, Eq, Structural)]
pub enum PackState {
    /// The archive file is being created.
    Start,
    /// The required folder is being looked for.
    Validate,
    /// The folder of this category is being listed.
    Index(Category),
    /// The files are being copied into the staging folder.
    Staging,
    /// The staging folder is being written into the archive.
    Archive,
    /// What was opened is being closed.
    Cleanup,
    /// Done, with the archive in place.
    Finish,
    /// Done, with an error and nothing left behind.
    Fail,
}

/// What the driver is asked to do next.
#[derive(Debug, Clone, Copy, PartialEq, Eq, Structural)]
pub enum PackAction {
    /// Create the archive file; one that already exists must make this fail.
    CreateArchive,
    /// Report whether the folder of the category exists.
    CheckFolder(Category),
    /// Report the listing of the folder of the category.
    ListFolder(Category),
    /// Create a fresh staging folder and carry out the staging plan.
    Stage,
    /// Write the staging folder into the archive.
    WriteArchive,
    /// Close what is open: finish the archive container, remove the archive
    /// file again, discard the staging folder, each where asked.
    Cleanup { finish_archive: bool, remove_archive: bool, close_staging: bool },
    /// Nothing: the operation is over.
    Finished,
}

/// What the last action brought.
#[derive(Debug)]
pub enum PackEvent {
    /// The action was carried out.
    Done,
    /// Whether the folder asked about exists.
    Present(bool),
    /// The listing asked for; `None` where the folder does not exist.
    Listed(Option<Vec<Node>>),
    /// The action failed.
    Failed(PackError),
}

/// A packaging operation under way.
#[derive(Debug)]
pub struct Packaging {
    pub state: PackState,
    pub manifest: Manifest,
    pub archive_created: bool,
    pub staging_created: bool,
    pub error: Option<PackError>,
}

/// What a packaging operation stands for in contracts.
pub ghost struct PackagingView {
    pub state: PackState,
    pub manifest: ManifestView,
    pub archive_created: bool,
    pub staging_created: bool,
    pub error: Option<ErrorView>,
}

impl View for Packaging {
    type V = PackagingView;

    open spec fn view(&self) -> PackagingView {
        PackagingView {
            state: self.state,
            manifest: self.manifest@,
            archive_created: self.archive_created,
            staging_created: self.staging_created,
            error: match self.error {
                Some(e) => Some(e@),
                None => None,
            },
        }
    }
}

/// What listing one category does to a manifest.
pub ghost enum IndexOutcome {
    /// The folder is absent and the pack cannot do without it.
    Missing,
    /// A directory below the folder could not be read, for this reason.
    Unreadable(Seq<char>),
    /// A file met does not lie under the pack root.
    Outside,
    /// Every file met was registered; these are the manifest's files now.
    Registered(Seq<RecordView>),
}

/// The outcome of listing the folder of `category` for `manifest`. An absent
/// folder fails only where the category is required and otherwise adds
/// nothing.
pub open spec fn index_outcome(
    manifest: ManifestView,
    category: Category,
    listing: Option<Vec<Node>>,
) -> IndexOutcome {
    match listing {
        None => if category == Category::Mods {
            IndexOutcome::Missing
        } else {
            IndexOutcome::Registered(manifest.files)
        },
        Some(nodes) => {
            let folder = manifest.base_dir.push(category.name_spec());
            match failure_in(nodes@, nodes@.len()) {
                Some(reason) => IndexOutcome::Unreadable(reason),
                None => {
                    let files = paths_of(entries_in(folder, nodes@, nodes@.len(), false));
                    if all_inside(manifest.base_dir, files) {
                        IndexOutcome::Registered(
                            manifest.files + records_of(manifest.base_dir, files, category),
                        )
                    } else {
                        IndexOutcome::Outside
                    }
                },
            }
        },
    }
}

/// The cleanup a state calls for: the archive container is finished where
/// the archive was created, the archive file is removed where the operation
/// failed after creating it, and the staging folder is closed where one was
/// made.
pub open spec fn cleanup_of(s: PackagingView) -> PackAction {
    PackAction::Cleanup {
        finish_archive: s.archive_created,
        remove_archive: s.archive_created && s.error is Some,
        close_staging: s.staging_created,
    }
}

/// The action a state is waiting on.
pub open spec fn pending_action(s: PackagingView) -> PackAction {
    match s.state {
        PackState::Start => PackAction::CreateArchive,
        PackState::Validate => PackAction::CheckFolder(Category::Mods),
        PackState::Index(c) => PackAction::ListFolder(c),
        PackState::Staging => PackAction::Stage,
        PackState::Archive => PackAction::WriteArchive,
        PackState::Cleanup => cleanup_of(s),
        PackState::Finish => PackAction::Finished,
        PackState::Fail => PackAction::Finished,
    }
}

/// A failure before cleanup: the error is kept and cleanup begins.
pub open spec fn fail_spec(pre: PackagingView, e: ErrorView) -> (PackagingView, PackAction) {
    let post = PackagingView { state: PackState::Cleanup, error: Some(e), ..pre };
    (post, cleanup_of(post))
}

/// After a category was registered: on to the next one, or to staging after
/// the last.
pub open spec fn advance_spec(pre: PackagingView, category: Category, files: Seq<RecordView>) -> (
    PackagingView,
    PackAction,
) {
    let manifest = ManifestView { files, ..pre.manifest };
    match category.next_spec() {
        Some(next) => (
            PackagingView { state: PackState::Index(next), manifest, ..pre },
            PackAction::ListFolder(next),
        ),
        None => (
            PackagingView { state: PackState::Staging, manifest, staging_created: true, ..pre },
            PackAction::Stage,
        ),
    }
}

/// The whole transition relation: the state and action that follow `pre`
/// when `event` comes in.
///
/// The operation runs straight from start through validation, the three
/// categories, staging and archiving to cleanup. A failure anywhere before
/// cleanup goes to cleanup at once and keeps its error; a failure of cleanup
/// itself is reported only where no earlier error is held. An event that
/// does not answer the pending action changes nothing, and that action is
/// asked again.
pub open spec fn step_spec(pre: PackagingView, event: PackEvent) -> (PackagingView, PackAction) {
    match pre.state {
        PackState::Finish => (pre, PackAction::Finished),
        PackState::Fail => (pre, PackAction::Finished),
        PackState::Cleanup => match event {
            PackEvent::Done => (
                PackagingView {
                    state: if pre.error is Some {
                        PackState::Fail
                    } else {
                        PackState::Finish
                    },
                    ..pre
                },
                PackAction::Finished,
            ),
            PackEvent::Failed(e) => (
                PackagingView {
                    state: PackState::Fail,
                    error: if pre.error is Some {
                        pre.error
                    } else {
                        Some(e@)
                    },
                    ..pre
                },
                PackAction::Finished,
            ),
            _ => (pre, pending_action(pre)),
        },
        PackState::Start => match event {
            PackEvent::Done => (
                PackagingView { state: PackState::Validate, archive_created: true, ..pre },
                PackAction::CheckFolder(Category::Mods),
            ),
            PackEvent::Failed(e) => fail_spec(pre, e@),
            _ => (pre, pending_action(pre)),
        },
        PackState::Validate => match event {
            PackEvent::Present(true) => (
                PackagingView { state: PackState::Index(Category::Mods), ..pre },
                PackAction::ListFolder(Category::Mods),
            ),
            PackEvent::Present(false) => fail_spec(pre, ErrorView::DoesNotExist(Category::Mods)),
            PackEvent::Failed(e) => fail_spec(pre, e@),
            _ => (pre, pending_action(pre)),
        },
        PackState::Index(category) => match event {
            PackEvent::Listed(listing) => match index_outcome(pre.manifest, category, listing) {
                IndexOutcome::Missing => fail_spec(pre, ErrorView::DoesNotExist(category)),
                IndexOutcome::Unreadable(reason) => fail_spec(pre, ErrorView::Io(reason)),
                IndexOutcome::Outside => fail_spec(pre, ErrorView::Io(OUTSIDE_ROOT@)),
                IndexOutcome::Registered(files) => advance_spec(pre, category, files),
            },
            PackEvent::Failed(e) => fail_spec(pre, e@),
            _ => (pre, pending_action(pre)),
        },
        PackState::Staging => match event {
            PackEvent::Done => (
                PackagingView { state: PackState::Archive, ..pre },
                PackAction::WriteArchive,
            ),
            PackEvent::Failed(e) => fail_spec(pre, e@),
            _ => (pre, pending_action(pre)),
        },
        PackState::Archive => match event {
            PackEvent::Done => {
                let post = PackagingView { state: PackState::Cleanup, ..pre };
                (post, cleanup_of(post))
            },
            PackEvent::Failed(e) => fail_spec(pre, e@),
            _ => (pre, pending_action(pre)),
        },
    }
}

/// The state that follows `pre` on `event`.
pub open spec fn after(pre: PackagingView, event: PackEvent) -> PackagingView {
    step_spec(pre, event).0
}

/// Number of regular files in a folder that may be absent.
pub open spec fn file_count(listing: Option<Vec<Node>>) -> nat {
    match listing {
        Some(nodes) => file_count_in(nodes@, nodes@.len()),
        None => 0,
    }
}

/// Whether every directory of a folder that may be absent can be read.
pub open spec fn readable(listing: Option<Vec<Node>>) -> bool {
    match listing {
        Some(nodes) => failure_in(nodes@, nodes@.len()) is None,
        None => true,
    }
}

/// Indexing a folder of the pack never meets a file outside the pack, and a
/// readable folder that is there registers one record per regular file in
/// it.
pub proof fn lemma_index_registers_every_file(
    manifest: ManifestView,
    category: Category,
    listing: Option<Vec<Node>>,
)
    ensures
        !(index_outcome(manifest, category, listing) is Outside),
        readable(listing) && (listing is Some || category != Category::Mods) ==> (index_outcome(
            manifest,
            category,
            listing,
        ) matches IndexOutcome::Registered(files) && files.len() == manifest.files.len()
            + file_count(listing)),
{
    match listing {
        None => {},
        Some(nodes) => {
            let folder = manifest.base_dir.push(category.name_spec());
            let walked = entries_in(folder, nodes@, nodes@.len(), false);
            lemma_walk_of_listing(folder, nodes@, nodes@.len(), false);
            assert(manifest.base_dir =~= folder.subrange(0, manifest.base_dir.len() as int));
            assert forall|i: int| 0 <= i < paths_of(walked).len() implies manifest.base_dir.is_prefix_of(
                #[trigger] paths_of(walked)[i],
            ) by {
                lemma_prefix_chain(manifest.base_dir, folder, walked[i].path);
            }
        },
    }
}

/// Count invariant of a whole run. Where every action succeeds, the mods
/// folder is there and every directory can be read, the operation ends in
/// `Finish` without an error, and its manifest holds exactly one record per
/// regular file under the three folders together.
pub proof fn lemma_run_registers_every_file(
    start: PackagingView,
    mods: Vec<Node>,
    config: Option<Vec<Node>>,
    resourcepacks: Option<Vec<Node>>,
)
    requires
        start.state == PackState::Start,
        start.error is None,
        start.manifest.files.len() == 0,
        readable(Some(mods)),
        readable(config),
        readable(resourcepacks),
    ensures
        ({
            let created = after(start, PackEvent::Done);
            let checked = after(created, PackEvent::Present(true));
            let with_mods = after(checked, PackEvent::Listed(Some(mods)));
            let with_config = after(with_mods, PackEvent::Listed(config));
            let indexed = after(with_config, PackEvent::Listed(resourcepacks));
            let staged = after(indexed, PackEvent::Done);
            let archived = after(staged, PackEvent::Done);
            let end = after(archived, PackEvent::Done);
            &&& end.state == PackState::Finish
            &&& end.error is None
            &&& end.manifest.files.len() == file_count(Some(mods)) + file_count(config)
                + file_count(resourcepacks)
        }),
{
    let created = after(start, PackEvent::Done);
    let checked = after(created, PackEvent::Present(true));
    lemma_index_registers_every_file(checked.manifest, Category::Mods, Some(mods));
    let with_mods = after(checked, PackEvent::Listed(Some(mods)));
    lemma_index_registers_every_file(with_mods.manifest, Category::Config, config);
    let with_config = after(with_mods, PackEvent::Listed(config));
    lemma_index_registers_every_file(with_config.manifest, Category::Resourcepacks, resourcepacks);
}

/// Whether every record lies in the folder of its own category and no two
/// records share a path.
pub open spec fn tidy(files: Seq<RecordView>) -> bool {
    &&& forall|i: int|
        0 <= i < files.len() ==> (#[trigger] files[i]).path.len() > 0 && files[i].path[0]
            == files[i].category.name_spec()
    &&& forall|a: int, b: int|
        0 <= a < b < files.len() ==> (#[trigger] files[a]).path != (#[trigger] files[b]).path
}

/// Whether some record is of the given category.
pub open spec fn uses(files: Seq<RecordView>, category: Category) -> bool {
    exists|i: int| 0 <= i < files.len() && (#[trigger] files[i]).category == category
}

/// Different categories have different folder names.
pub proof fn lemma_folder_names_differ(a: Category, b: Category)
    requires
        a != b,
    ensures
        a.name_spec() != b.name_spec(),
{
    reveal_strlit("mods");
    reveal_strlit("config");
    reveal_strlit("resourcepacks");
    assert("mods"@[0] == 'm');
    assert("config"@[0] == 'c');
    assert("resourcepacks"@[0] == 'r');
}

/// Indexing keeps the manifest tidy. Where the manifest is tidy, holds no
/// record of the category yet, and the folder lists no name twice in any of
/// its folders, the records after indexing the folder are tidy again, and
/// the only category they use beyond those used before is this one.
pub proof fn lemma_index_keeps_records_apart(
    manifest: ManifestView,
    category: Category,
    listing: Option<Vec<Node>>,
)
    requires
        tidy(manifest.files),
        !uses(manifest.files, category),
        listing matches Some(nodes) ==> distinct_in(nodes@, nodes@.len()),
    ensures
        index_outcome(manifest, category, listing) matches IndexOutcome::Registered(files) ==> tidy(
            files,
        ) && forall|other: Category| other != category && uses(files, other) ==> uses(manifest.files, other),
{
    match listing {
        None => {},
        Some(nodes) => {
            let base = manifest.base_dir;
            let folder = base.push(category.name_spec());
            let walked = entries_in(folder, nodes@, nodes@.len(), false);
            let paths = paths_of(walked);
            if failure_in(nodes@, nodes@.len()) is None && all_inside(base, paths) {
                let recs = records_of(base, paths, category);
                let files = manifest.files + recs;
                lemma_walk_of_listing(folder, nodes@, nodes@.len(), false);
                lemma_listing_begins_with_names(folder, nodes@, nodes@.len(), false);
                lemma_listing_meets_no_path_twice(folder, nodes@, nodes@.len(), false);
                let old_len = manifest.files.len() as int;
                assert forall|i: int| 0 <= i < recs.len() implies (#[trigger] recs[i]).path.len() > 0
                    && recs[i].path[0] == category.name_spec() && recs[i].category == category by {
                    let p = walked[i].path;
                    assert(paths[i] == p);
                    assert(folder.is_prefix_of(p));
                    assert(p.len() > folder.len());
                    assert(folder[base.len() as int] == p.subrange(0, folder.len() as int)[base.len() as int]);
                    assert(recs[i].path == p.skip(base.len() as int));
                }
                assert forall|a: int, b: int| 0 <= a < b < recs.len() implies (#[trigger] recs[a]).path
                    != (#[trigger] recs[b]).path by {
                    let p = walked[a].path;
                    let q = walked[b].path;
                    assert(paths[a] == p && paths[b] == q);
                    assert(base.is_prefix_of(p) && base.is_prefix_of(q));
                    assert(p != q);
                    if p.skip(base.len() as int) == q.skip(base.len() as int) {
                        assert(p.len() == q.len()) by {
                            assert(p.skip(base.len() as int).len() == q.skip(base.len() as int).len());
                        }
                        assert forall|x: int| 0 <= x < p.len() implies p[x] == q[x] by {
                            if x < base.len() {
                                assert(base[x] == p.subrange(0, base.len() as int)[x]);
                                assert(base[x] == q.subrange(0, base.len() as int)[x]);
                            } else {
                                assert(p[x] == p.skip(base.len() as int)[x - base.len()]);
                                assert(q[x] == q.skip(base.len() as int)[x - base.len()]);
                            }
                        }
                        assert(p =~= q);
                    }
                }
                assert forall|i: int| 0 <= i < files.len() implies (#[trigger] files[i]).path.len() > 0
                    && files[i].path[0] == files[i].category.name_spec() by {
                    if i < old_len {
                        assert(files[i] == manifest.files[i]);
                    } else {
                        assert(files[i] == recs[i - old_len]);
                    }
                }
                assert forall|a: int, b: int| 0 <= a < b < files.len() implies (#[trigger] files[a]).path
                    != (#[trigger] files[b]).path by {
                    if b < old_len {
                        assert(files[a] == manifest.files[a] && files[b] == manifest.files[b]);
                    } else if a >= old_len {
                        assert(files[a] == recs[a - old_len] && files[b] == recs[b - old_len]);
                    } else {
                        assert(files[a] == manifest.files[a] && files[b] == recs[b - old_len]);
                        assert(manifest.files[a].category != category);
                        lemma_folder_names_differ(manifest.files[a].category, category);
                    }
                }
                assert forall|other: Category| other != category && uses(files, other) implies uses(
                    manifest.files,
                    other,
                ) by {
                    let i = choose|i: int| 0 <= i < files.len() && (#[trigger] files[i]).category == other;
                    if i < old_len {
                        assert(files[i] == manifest.files[i]);
                    } else {
                        assert(files[i] == recs[i - old_len]);
                    }
                }
            }
        },
    }
}

/// Whether no folder of a listing that may be absent lists a name twice.
pub open spec fn no_name_twice(listing: Option<Vec<Node>>) -> bool {
    match listing {
        Some(nodes) => distinct_in(nodes@, nodes@.len()),
        None => true,
    }
}

/// No file is registered twice in a whole run. Where every action
/// succeeds, every directory can be read and no folder lists a name twice,
/// the operation ends in `Finish` with a tidy manifest: every record lies in
/// the folder of its category, and no two records share a path.
pub proof fn lemma_run_keeps_records_apart(
    start: PackagingView,
    mods: Vec<Node>,
    config: Option<Vec<Node>>,
    resourcepacks: Option<Vec<Node>>,
)
    requires
        start.state == PackState::Start,
        start.error is None,
        start.manifest.files.len() == 0,
        readable(Some(mods)),
        readable(config),
        readable(resourcepacks),
        no_name_twice(Some(mods)),
        no_name_twice(config),
        no_name_twice(resourcepacks),
    ensures
        ({
            let created = after(start, PackEvent::Done);
            let checked = after(created, PackEvent::Present(true));
            let with_mods = after(checked, PackEvent::Listed(Some(mods)));
            let with_config = after(with_mods, PackEvent::Listed(config));
            let indexed = after(with_config, PackEvent::Listed(resourcepacks));
            let staged = after(indexed, PackEvent::Done);
            let archived = after(staged, PackEvent::Done);
            let end = after(archived, PackEvent::Done);
            &&& end.state == PackState::Finish
            &&& tidy(end.manifest.files)
        }),
{
    let created = after(start, PackEvent::Done);
    let checked = after(created, PackEvent::Present(true));
    lemma_index_registers_every_file(checked.manifest, Category::Mods, Some(mods));
    lemma_index_keeps_records_apart(checked.manifest, Category::Mods, Some(mods));
    let with_mods = after(checked, PackEvent::Listed(Some(mods)));
    assert(!uses(with_mods.manifest.files, Category::Config));
    assert(!uses(with_mods.manifest.files, Category::Resourcepacks));
    lemma_index_registers_every_file(with_mods.manifest, Category::Config, config);
    lemma_index_keeps_records_apart(with_mods.manifest, Category::Config, config);
    let with_config = after(with_mods, PackEvent::Listed(config));
    assert(!uses(with_config.manifest.files, Category::Resourcepacks));
    lemma_index_registers_every_file(with_config.manifest, Category::Resourcepacks, resourcepacks);
    lemma_index_keeps_records_apart(with_config.manifest, Category::Resourcepacks, resourcepacks);
}

/// The manifest depends on the pack alone. Two operations that stand at the
/// same state with the same manifest hold the same manifest after the same
/// event, whatever else differs between them: where their archives go, what
/// they have opened so far, which error they hold. Outside cleanup they
/// also stand at the same state afterwards.
pub proof fn lemma_manifest_depends_on_pack_alone(
    a: PackagingView,
    b: PackagingView,
    event: PackEvent,
)
    requires
        a.state == b.state,
        a.manifest == b.manifest,
    ensures
        after(a, event).manifest == after(b, event).manifest,
        a.state != PackState::Cleanup ==> after(a, event).state == after(b, event).state,
{
}

/// Nothing ends without cleanup. An operation reaches `Finish` or `Fail`
/// only from `Cleanup`, and whenever it turns to cleanup it asks for what
/// it has opened to be closed: the archive container finished and the
/// staging folder discarded where they were created, and the archive file
/// removed again where an error is held.
pub proof fn lemma_every_end_passes_cleanup(pre: PackagingView, event: PackEvent)
    ensures
        (after(pre, event).state == PackState::Finish || after(pre, event).state
            == PackState::Fail) ==> (pre.state == PackState::Cleanup || pre.state == after(
            pre,
            event,
        ).state),
        after(pre, event).state == PackState::Cleanup ==> step_spec(pre, event).1
            == (PackAction::Cleanup {
            finish_archive: after(pre, event).archive_created,
            remove_archive: after(pre, event).archive_created && after(pre, event).error is Some,
            close_staging: after(pre, event).staging_created,
        }),
        pre.archive_created ==> after(pre, event).archive_created,
        pre.staging_created ==> after(pre, event).staging_created,
{
}

/// Nothing is staged before the archive file could be created: a failure
/// to create it leaves nothing to close and nothing to remove.
pub proof fn lemma_occupied_destination_touches_nothing(pre: PackagingView, e: PackError)
    requires
        pre.state == PackState::Start,
        !pre.archive_created,
        !pre.staging_created,
    ensures
        step_spec(pre, PackEvent::Failed(e)).1 == (PackAction::Cleanup {
            finish_archive: false,
            remove_archive: false,
            close_staging: false,
        }),
        after(after(pre, PackEvent::Failed(e)), PackEvent::Done).state == PackState::Fail,
        after(after(pre, PackEvent::Failed(e)), PackEvent::Done).error == Some(e@),
        after(after(pre, PackEvent::Failed(e)), PackEvent::Done).manifest == pre.manifest,
{
}

/// A pack without its mods folder fails with exactly that, after a cleanup
/// that removes the archive file again.
pub proof fn lemma_missing_mods_fails(pre: PackagingView)
    requires
        pre.state == PackState::Validate,
        pre.archive_created,
    ensures
        step_spec(pre, PackEvent::Present(false)).1 == (PackAction::Cleanup {
            finish_archive: true,
            remove_archive: true,
            close_staging: pre.staging_created,
        }),
        after(after(pre, PackEvent::Present(false)), PackEvent::Done).state == PackState::Fail,
        after(after(pre, PackEvent::Present(false)), PackEvent::Done).error == Some(
            ErrorView::DoesNotExist(Category::Mods),
        ),
{
}

/// A failure before cleanup is what the operation ends with: cleanup, done
/// or failed, does not replace it.
pub proof fn lemma_first_error_is_kept(pre: PackagingView, e: PackError, cleanup: PackEvent)
    requires
        pre.state != PackState::Cleanup,
        pre.state != PackState::Finish,
        pre.state != PackState::Fail,
        cleanup is Done || cleanup is Failed,
    ensures
        after(after(pre, PackEvent::Failed(e)), cleanup).state == PackState::Fail,
        after(after(pre, PackEvent::Failed(e)), cleanup).error == Some(e@),
{
}

impl Packaging {
    /// A terminal state agrees with the error held: failure holds one,
    /// success holds none.
    pub open spec fn wf(self) -> bool {
        &&& self.state == PackState::Fail ==> self.error is Some
        &&& self.state == PackState::Finish ==> self.error is None
    }

    /// Begins packaging the pack in `modpack_path`. The first thing to do is
    /// to create the archive.
    pub fn begin(modpack_path: PackPath) -> (r: (Packaging, PackAction))
        requires
            modpack_path@.len() > 0,
        ensures
            r.0@.state == PackState::Start,
            r.0@.manifest.name == modpack_path@.last(),
            r.0@.manifest.base_dir == modpack_path@,
            r.0@.manifest.files.len() == 0,
            !r.0@.archive_created,
            !r.0@.staging_created,
            r.0@.error is None,
            r.0.wf(),
            r.1 == PackAction::CreateArchive,
    {
        let op = Packaging {
            state: PackState::Start,
            manifest: Manifest::new(modpack_path),
            archive_created: false,
            staging_created: false,
            error: None,
        };
        (op, PackAction::CreateArchive)
    }

    /// Where the archive goes inside `archive_dir`: a file named after the
    /// pack, ending in `.zip`.
    pub fn archive_path(&self, archive_dir: &PackPath) -> (r: PackPath)
        ensures
            r@ == archive_dir@.push(self@.manifest.name + ".zip"@),
    {
        let file = self.manifest.archive_file_name();
        archive_dir.child(file.as_str())
    }

    /// Whether the operation is over.
    pub fn is_over(&self) -> (r: bool)
        ensures
            r == (self@.state == PackState::Finish || self@.state == PackState::Fail),
    {
        match self.state {
            PackState::Finish => true,
            PackState::Fail => true,
            _ => false,
        }
    }

    /// The cleanup that the present state calls for.
    fn cleanup_action(&self) -> (r: PackAction)
        ensures
            r == cleanup_of(self@),
    {
        PackAction::Cleanup {
            finish_archive: self.archive_created,
            remove_archive: self.archive_created && self.error.is_some(),
            close_staging: self.staging_created,
        }
    }

    /// The action the operation is waiting on.
    pub fn pending(&self) -> (r: PackAction)
        ensures
            r == pending_action(self@),
    {
        match self.state {
            PackState::Start => PackAction::CreateArchive,
            PackState::Validate => PackAction::CheckFolder(Category::Mods),
            PackState::Index(c) => PackAction::ListFolder(c),
            PackState::Staging => PackAction::Stage,
            PackState::Archive => PackAction::WriteArchive,
            PackState::Cleanup => self.cleanup_action(),
            PackState::Finish => PackAction::Finished,
            PackState::Fail => PackAction::Finished,
        }
    }

    /// Keeps the error and turns to cleanup.
    fn fail(&mut self, e: PackError) -> (r: PackAction)
        ensures
            (final(self)@, r) == fail_spec(old(self)@, e@),
    {
        self.error = Some(e);
        self.state = PackState::Cleanup;
        self.cleanup_action()
    }

    /// Moves on after the files of `category` were registered.
    fn advance(&mut self, category: Category) -> (r: PackAction)
        ensures
            (final(self)@, r) == advance_spec(old(self)@, category, old(self)@.manifest.files),
    {
        match category.next() {
            Some(next) => {
                self.state = PackState::Index(next);
                PackAction::ListFolder(next)
            },
            None => {
                self.state = PackState::Staging;
                self.staging_created = true;
                PackAction::Stage
            },
        }
    }

    /// Lists one category into the manifest and moves on, or fails.
    fn index(&mut self, category: Category, listing: Option<Vec<Node>>) -> (r: PackAction)
        requires
            old(self)@.state == PackState::Index(category),
        ensures
            (final(self)@, r) == step_spec(old(self)@, PackEvent::Listed(listing)),
    {
        match listing {
            None => {
                if category.is_required() {
                    self.fail(PackError::DoesNotExist(category))
                } else {
                    self.advance(category)
                }
            },
            Some(nodes) => {
                let folder = self.manifest.base_dir.child(category.name());
                match find_files(&folder, &nodes) {
                    Err(e) => self.fail(e),
                    Ok(files) => match self.manifest.register_all(&files, category) {
                        Err(e) => self.fail(e),
                        Ok(()) => {
                            let ghost mid = self@;
                            let r = self.advance(category);
                            assert(ManifestView { files: mid.manifest.files, ..old(self)@.manifest }
                                == mid.manifest);
                            r
                        },
                    },
                }
            },
        }
    }

    /// Takes what the last action brought and says what to do next.
    pub fn step(&mut self, event: PackEvent) -> (r: PackAction)
        ensures
            (final(self)@, r) == step_spec(old(self)@, event),
            old(self).wf() ==> final(self).wf(),
    {
        match self.state {
            PackState::Finish => PackAction::Finished,
            PackState::Fail => PackAction::Finished,
            PackState::Cleanup => match event {
                PackEvent::Done => {
                    self.state = if self.error.is_some() {
                        PackState::Fail
                    } else {
                        PackState::Finish
                    };
                    PackAction::Finished
                },
                PackEvent::Failed(e) => {
                    if self.error.is_none() {
                        self.error = Some(e);
                    }
                    self.state = PackState::Fail;
                    PackAction::Finished
                },
                _ => self.pending(),
            },
            PackState::Start => match event {
                PackEvent::Done => {
                    self.archive_created = true;
                    self.state = PackState::Validate;
                    PackAction::CheckFolder(Category::Mods)
                },
                PackEvent::Failed(e) => self.fail(e),
                _ => self.pending(),
            },
            PackState::Validate => match event {
                PackEvent::Present(true) => {
                    self.state = PackState::Index(Category::Mods);
                    PackAction::ListFolder(Category::Mods)
                },
                PackEvent::Present(false) => self.fail(PackError::DoesNotExist(Category::Mods)),
                PackEvent::Failed(e) => self.fail(e),
                _ => self.pending(),
            },
            PackState::Index(category) => match event {
                PackEvent::Listed(listing) => self.index(category, listing),
                PackEvent::Failed(e) => self.fail(e),
                _ => self.pending(),
            },
            PackState::Staging => match event {
                PackEvent::Done => {
                    self.state = PackState::Archive;
                    PackAction::WriteArchive
                },
                PackEvent::Failed(e) => self.fail(e),
                _ => self.pending(),
            },
            PackState::Archive => match event {
                PackEvent::Done => {
                    self.state = PackState::Cleanup;
                    self.cleanup_action()
                },
                PackEvent::Failed(e) => self.fail(e),
                _ => self.pending(),
            },
        }
    }

    /// How the operation ended: the manifest of the archive that now
    /// exists, or the error that stopped it. An operation that is not over,
    /// or whose state and error disagree, has no outcome.
    pub fn outcome(self) -> (r: Option<Result<Manifest, PackError>>)
        ensures
            match r {
                Some(Ok(m)) => self@.state == PackState::Finish && self@.error is None && m@
                    == self@.manifest,
                Some(Err(e)) => self@.state == PackState::Fail && self@.error == Some(e@),
                None => !(self@.state == PackState::Finish && self@.error is None) && !(
                self@.state == PackState::Fail && self@.error is Some),
            },
    {
        match self.state {
            PackState::Finish => match self.error {
                None => Some(Ok(self.manifest)),
                Some(_) => None,
            },
            PackState::Fail => match self.error {
                Some(e) => Some(Err(e)),
                None => None,
            },
            _ => None,
        }
    }
}

} // verus!
