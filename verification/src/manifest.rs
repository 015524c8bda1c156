//! The manifest of a pack: which files it holds, and under which category.

use vstd::prelude::*;
use crate::error::{ErrorView, PackError};
use crate::path::PackPath;

verus! {

/// The content buckets of a pack.
#[derive(Debug, Clone, Copy, PartialEq, Eq, Structural)]
pub enum Category {
    Mods,
    Config,
    Resourcepacks,
}

impl Category {
    /// The folder name of the category, as a model.
    pub open spec fn name_spec(self) -> Seq<char> {
        match self {
            Category::Mods => "mods"@,
            Category::Config => "config"@,
            Category::Resourcepacks => "resourcepacks"@,
        }
    }

    /// The category that is indexed after this one, as a model.
    pub open spec fn next_spec(self) -> Option<Category> {
        match self {
            Category::Mods => Some(Category::Config),
            Category::Config => Some(Category::Resourcepacks),
            Category::Resourcepacks => None,
        }
    }

    /// The category that is indexed first.
    pub fn first() -> (r: Category)
        ensures
            r == Category::Mods,
    {
        Category::Mods
    }

    /// The folder of the pack that holds the category's files.
    pub fn name(self) -> (r: &'static str)
        ensures
            r@ == self.name_spec(),
    {
        match self {
            Category::Mods => "mods",
            Category::Config => "config",
            Category::Resourcepacks => "resourcepacks",
        }
    }

    /// The category indexed after this one: mods, then config, then
    /// resource packs, then nothing.
    pub fn next(self) -> (r: Option<Category>)
        ensures
            r == self.next_spec(),
    {
        match self {
            Category::Mods => Some(Category::Config),
            Category::Config => Some(Category::Resourcepacks),
            Category::Resourcepacks => None,
        }
    }

    /// Whether a pack without this folder is refused. Only mods are.
    pub fn is_required(self) -> (r: bool)
        ensures
            r == (self == Category::Mods),
    {
        match self {
            Category::Mods => true,
            _ => false,
        }
    }
}

/// One packaged file: where it lies relative to the pack root, and its
/// category.
#[derive(Debug, PartialEq, Eq)]
pub struct FileRecord {
    pub path: PackPath,
    pub category: Category,
}

/// What a record stands for in contracts.
pub ghost struct RecordView {
    pub path: Seq<Seq<char>>,
    pub category: Category,
}

impl View for FileRecord {
    type V = RecordView;

    open spec fn view(&self) -> RecordView {
        RecordView { path: self.path@, category: self.category }
    }
}

/// What registering a file outside the pack root is refused with.
pub const OUTSIDE_ROOT: &'static str = "prefix not found";

/// The file inside every archive that lists its contents.
pub const MANIFEST_NAME: &'static str = "mpack-mod.json";

/// A pack's name, the folder it was read from, and its files in the order
/// they were registered.
#[derive(Debug, PartialEq, Eq)]
pub struct Manifest {
    pub name: String,
    pub base_dir: PackPath,
    pub files: Vec<FileRecord>,
}

/// What a manifest stands for in contracts.
pub ghost struct ManifestView {
    pub name: Seq<char>,
    pub base_dir: Seq<Seq<char>>,
    pub files: Seq<RecordView>,
}

impl View for Manifest {
    type V = ManifestView;

    open spec fn view(&self) -> ManifestView {
        ManifestView {
            name: self.name@,
            base_dir: self.base_dir@,
            files: Seq::new(self.files@.len(), |i: int| self.files@[i]@),
        }
    }
}

/// The records that a run of files gives: each file relative to `base`,
/// tagged with `category`, in the order of the files.
pub open spec fn records_of(
    base: Seq<Seq<char>>,
    files: Seq<Seq<Seq<char>>>,
    category: Category,
) -> Seq<RecordView> {
    Seq::new(
        files.len(),
        |i: int| RecordView { path: files[i].skip(base.len() as int), category },
    )
}

/// Whether every one of `files` lies under `base`.
pub open spec fn all_inside(base: Seq<Seq<char>>, files: Seq<Seq<Seq<char>>>) -> bool {
    forall|i: int| 0 <= i < files.len() ==> base.is_prefix_of(#[trigger] files[i])
}

/// The paths a run of `PackPath`s stands for.
pub open spec fn paths_view(paths: Seq<PackPath>) -> Seq<Seq<Seq<char>>> {
    Seq::new(paths.len(), |i: int| paths[i]@)
}

impl Manifest {
    /// An empty manifest for the pack in `base_dir`, named after the last
    /// component of that folder.
    pub fn new(base_dir: PackPath) -> (r: Manifest)
        requires
            base_dir@.len() > 0,
        ensures
            r@.name == base_dir@.last(),
            r@.base_dir == base_dir@,
            r@.files.len() == 0,
    {
        let name = base_dir.parts[base_dir.parts.len() - 1].clone();
        Manifest { name, base_dir, files: Vec::new() }
    }

    /// Number of registered files.
    pub fn file_count(&self) -> (n: usize)
        ensures
            n == self@.files.len(),
    {
        self.files.len()
    }

    /// The file name of the pack's archive: the pack's name followed by
    /// `.zip`.
    pub fn archive_file_name(&self) -> (r: String)
        ensures
            r@ == self@.name + ".zip"@,
    {
        self.name.clone().concat(".zip")
    }

    /// Appends the record of one file. The file must lie under the pack
    /// root; one that does not is refused with an i/o error that says
    /// `OUTSIDE_ROOT`, and the manifest stays as it was.
    pub fn register_file(&mut self, file_path: &PackPath, category: Category) -> (r: Result<
        (),
        PackError,
    >)
        ensures
            final(self)@.name == old(self)@.name,
            final(self)@.base_dir == old(self)@.base_dir,
            match r {
                Ok(()) => old(self)@.base_dir.is_prefix_of(file_path@) && final(self)@.files == old(self)@.files.push(
                    (RecordView {
                        path: file_path@.skip(old(self)@.base_dir.len() as int),
                        category,
                    }),
                ),
                Err(e) => e@ == ErrorView::Io(OUTSIDE_ROOT@) && !old(self)@.base_dir.is_prefix_of(
                    file_path@,
                ) && final(self)@.files == old(self)@.files,
            },
    {
        match file_path.strip_prefix(&self.base_dir) {
            Some(rel) => {
                let ghost before = self@.files;
                self.files.push(FileRecord { path: rel, category });
                assert(self@.files =~= before.push(
                    (RecordView {
                        path: file_path@.skip(old(self)@.base_dir.len() as int),
                        category,
                    }),
                ));
                Ok(())
            },
            None => Err(PackError::Io(String::from_str(OUTSIDE_ROOT))),
        }
    }

    /// Registers a run of files under one category, in their order. Either
    /// all of them are registered, or, where one lies outside the pack root,
    /// none, and the refusal is that of `register_file`.
    pub fn register_all(&mut self, files: &Vec<PackPath>, category: Category) -> (r: Result<
        (),
        PackError,
    >)
        ensures
            final(self)@.name == old(self)@.name,
            final(self)@.base_dir == old(self)@.base_dir,
            match r {
                Ok(()) => all_inside(old(self)@.base_dir, paths_view(files@)) && final(self)@.files == old(self)@.files + records_of(
                    old(self)@.base_dir,
                    paths_view(files@),
                    category,
                ),
                Err(e) => e@ == ErrorView::Io(OUTSIDE_ROOT@) && !all_inside(
                    old(self)@.base_dir,
                    paths_view(files@),
                ) && final(self)@.files == old(self)@.files,
            },
    {
        let ghost base = self@.base_dir;
        let ghost all = paths_view(files@);
        let mut i: usize = 0;
        while i < files.len()
            invariant
                i <= files@.len(),
                *self == *old(self),
                base == self@.base_dir,
                all == paths_view(files@),
                forall|j: int| 0 <= j < i ==> base.is_prefix_of(#[trigger] all[j]),
            decreases files@.len() - i,
        {
            if !files[i].starts_with(&self.base_dir) {
                assert(!base.is_prefix_of(all[i as int]));
                return Err(PackError::Io(String::from_str(OUTSIDE_ROOT)));
            }
            i += 1;
        }
        let mut k: usize = 0;
        while k < files.len()
            invariant
                k <= files@.len(),
                base == self@.base_dir,
                base == old(self)@.base_dir,
                self@.name == old(self)@.name,
                all == paths_view(files@),
                all_inside(base, all),
                self@.files == old(self)@.files + records_of(base, all.take(k as int), category),
            decreases files@.len() - k,
        {
            let ghost before = self@.files;
            assert(base.is_prefix_of(all[k as int]));
            let r = self.register_file(&files[k], category);
            assert(r.is_ok());
            assert(records_of(base, all.take(k + 1), category) =~= records_of(
                base,
                all.take(k as int),
                category,
            ).push((RecordView { path: all[k as int].skip(base.len() as int), category })));
            assert(self@.files =~= old(self)@.files + records_of(
                base,
                all.take(k + 1),
                category,
            ));
            k += 1;
        }
        assert(all.take(files@.len() as int) =~= all);
        Ok(())
    }
}

} // verus!
