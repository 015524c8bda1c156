use mpack::archive::{entry_options, zip_dir, ArchiveEntry, ArchiveOptions, Compression};
use mpack::document::{assemble_manifest, assemble_record};
use mpack::error::PackError;
use mpack::indexer::{find_files, find_files_and_dirs, Entry, Node};
use mpack::manifest::{Category, FileRecord, Manifest, MANIFEST_NAME};
use mpack::pack::{
    candidate_names, list_modpacks, select_modpack, PackAction, PackEvent, PackState, Packaging,
    Selection,
};
use mpack::path::PackPath;
use mpack::staging::{make_zipfs_structure, STAGING_PREFIX};

fn p(text: &str) -> PackPath {
    PackPath::from_parts(text.split('/').filter(|s| !s.is_empty()).map(String::from).collect())
}

fn file(name: &str) -> Node {
    Node::File(String::from(name))
}

fn dir(name: &str, kids: Vec<Node>) -> Node {
    Node::Dir(String::from(name), kids)
}

fn record(path: &str, category: Category) -> FileRecord {
    FileRecord { path: p(path), category }
}

fn indexed(source: &str, mods: Vec<Node>, config: Option<Vec<Node>>, packs: Option<Vec<Node>>) -> Packaging {
    let (mut op, first) = Packaging::begin(p(source));
    assert_eq!(first, PackAction::CreateArchive);
    assert_eq!(op.step(PackEvent::Done), PackAction::CheckFolder(Category::Mods));
    assert_eq!(op.step(PackEvent::Present(true)), PackAction::ListFolder(Category::Mods));
    assert_eq!(op.step(PackEvent::Listed(Some(mods))), PackAction::ListFolder(Category::Config));
    assert_eq!(op.step(PackEvent::Listed(config)), PackAction::ListFolder(Category::Resourcepacks));
    assert_eq!(op.step(PackEvent::Listed(packs)), PackAction::Stage);
    op
}

#[test]
fn concrete_pack_is_packaged() {
    let mut op = indexed(
        "home/packs/pack",
        vec![file("a.jar"), file("b.jar")],
        Some(vec![file("settings.cfg")]),
        None,
    );
    assert_eq!(op.manifest.name, "pack");
    assert_eq!(op.manifest.base_dir, p("home/packs/pack"));
    assert_eq!(
        op.manifest.files,
        vec![
            record("mods/a.jar", Category::Mods),
            record("mods/b.jar", Category::Mods),
            record("config/settings.cfg", Category::Config),
        ]
    );
    let names: Vec<String> = op.manifest.files.iter().map(|f| f.path.to_archive_name()).collect();
    assert_eq!(names, vec!["mods/a.jar", "mods/b.jar", "config/settings.cfg"]);
    assert_eq!(op.archive_path(&p("out")), p("out/pack.zip"));
    assert_eq!(op.manifest.archive_file_name(), "pack.zip");

    let root = p("tmp/modpack.77");
    let plan = make_zipfs_structure(&root, &op.manifest);
    assert_eq!(plan.root, root);
    assert_eq!(plan.copies.len(), 3);
    assert_eq!(plan.copies[0].source, p("home/packs/pack/mods/a.jar"));
    assert_eq!(plan.copies[0].dest, p("tmp/modpack.77/mods/a.jar"));
    assert_eq!(plan.copies[0].parent, Some(p("tmp/modpack.77/mods")));
    assert_eq!(plan.copies[2].source, p("home/packs/pack/config/settings.cfg"));
    assert_eq!(plan.copies[2].dest, p("tmp/modpack.77/config/settings.cfg"));
    assert_eq!(plan.manifest_file, p("tmp/modpack.77/mpack-mod.json"));
    assert_eq!(MANIFEST_NAME, "mpack-mod.json");
    assert_eq!(STAGING_PREFIX, "modpack");
    assert_eq!(op.step(PackEvent::Done), PackAction::WriteArchive);

    let staged = vec![
        dir("mods", vec![file("a.jar"), file("b.jar")]),
        dir("config", vec![file("settings.cfg")]),
        file("mpack-mod.json"),
    ];
    let entries = zip_dir(&root, &staged, &root).unwrap();
    let files: Vec<&str> = entries.iter().filter(|e| !e.is_dir).map(|e| e.name.as_str()).collect();
    assert_eq!(files, vec!["mods/a.jar", "mods/b.jar", "config/settings.cfg", "mpack-mod.json"]);
    let dirs: Vec<&str> = entries.iter().filter(|e| e.is_dir).map(|e| e.name.as_str()).collect();
    assert_eq!(dirs, vec!["mods", "config"]);
    assert_eq!(
        entries[0],
        ArchiveEntry {
            name: String::from("mods/a.jar"),
            is_dir: false,
            source: p("tmp/modpack.77/mods/a.jar"),
            options: entry_options(),
        }
    );

    for step in &plan.copies {
        let read_from_it = entries.iter().filter(|e| e.source == step.dest).count();
        assert_eq!(read_from_it, 1);
    }
    let manifest_entries = entries.iter().filter(|e| e.source == plan.manifest_file).count();
    assert_eq!(manifest_entries, 1);
    for (at, entry) in entries.iter().enumerate() {
        assert_eq!(entry.options, entry_options());
        assert!(entries.iter().skip(at + 1).all(|later| later.source != entry.source));
    }

    assert_eq!(
        op.step(PackEvent::Done),
        PackAction::Cleanup { finish_archive: true, remove_archive: false, close_staging: true }
    );
    assert_eq!(op.step(PackEvent::Done), PackAction::Finished);
    assert_eq!(op.state, PackState::Finish);
    assert!(op.is_over());
    let manifest = op.outcome().unwrap().unwrap();
    assert_eq!(manifest.files.len(), 3);
}

#[test]
fn manifest_has_one_record_per_regular_file() {
    let op = indexed(
        "packs/big",
        vec![file("a.jar"), dir("libs", vec![file("x.jar"), dir("empty", vec![]), file("y.jar")])],
        Some(vec![dir("a", vec![dir("b", vec![file("deep.toml")])])]),
        Some(vec![file("faithful.zip"), file("other.zip")]),
    );
    assert_eq!(op.manifest.file_count(), 6);
    let names: Vec<String> = op.manifest.files.iter().map(|f| f.path.to_slash_string()).collect();
    assert_eq!(
        names,
        vec![
            "mods/a.jar",
            "mods/libs/x.jar",
            "mods/libs/y.jar",
            "config/a/b/deep.toml",
            "resourcepacks/faithful.zip",
            "resourcepacks/other.zip",
        ]
    );
    let categories: Vec<Category> = op.manifest.files.iter().map(|f| f.category).collect();
    assert_eq!(
        categories,
        vec![
            Category::Mods,
            Category::Mods,
            Category::Mods,
            Category::Config,
            Category::Resourcepacks,
            Category::Resourcepacks,
        ]
    );
}

#[test]
fn no_file_is_registered_twice() {
    let op = indexed(
        "packs/same",
        vec![file("same.jar"), dir("same", vec![file("same.jar")])],
        Some(vec![file("same.jar"), dir("same", vec![file("same.jar")])]),
        Some(vec![file("same.jar")]),
    );
    let files = &op.manifest.files;
    assert_eq!(files.len(), 5);
    for (at, record) in files.iter().enumerate() {
        assert_eq!(record.path.parts[0], record.category.name());
        assert!(files.iter().skip(at + 1).all(|later| later.path != record.path));
    }
}

#[test]
fn same_source_gives_the_same_manifest_whatever_the_destination() {
    let run = || {
        indexed(
            "packs/twice",
            vec![file("b.jar"), file("a.jar")],
            Some(vec![file("c.cfg")]),
            Some(vec![]),
        )
    };
    let first = run();
    let second = run();
    assert_ne!(first.archive_path(&p("out/one")), second.archive_path(&p("out/two")));
    assert_eq!(first.manifest, second.manifest);
    assert_eq!(first.manifest.files[0], record("mods/b.jar", Category::Mods));
}

#[test]
fn missing_mods_folder_fails_and_leaves_nothing() {
    let (mut op, _) = Packaging::begin(p("packs/nomods"));
    assert_eq!(op.step(PackEvent::Done), PackAction::CheckFolder(Category::Mods));
    assert_eq!(
        op.step(PackEvent::Present(false)),
        PackAction::Cleanup { finish_archive: true, remove_archive: true, close_staging: false }
    );
    assert_eq!(op.state, PackState::Cleanup);
    assert_eq!(op.step(PackEvent::Done), PackAction::Finished);
    assert_eq!(op.state, PackState::Fail);
    let err = op.outcome().unwrap().unwrap_err();
    assert_eq!(err, PackError::DoesNotExist(Category::Mods));
    assert_eq!(err.message(), "required folder does not exist: mods");
}

#[test]
fn missing_mods_listing_fails_the_same_way() {
    let (mut op, _) = Packaging::begin(p("packs/raced"));
    op.step(PackEvent::Done);
    op.step(PackEvent::Present(true));
    assert_eq!(
        op.step(PackEvent::Listed(None)),
        PackAction::Cleanup { finish_archive: true, remove_archive: true, close_staging: false }
    );
    op.step(PackEvent::Done);
    assert_eq!(op.outcome(), Some(Err(PackError::DoesNotExist(Category::Mods))));
}

#[test]
fn occupied_destination_fails_before_anything_else() {
    let (mut op, first) = Packaging::begin(p("packs/pack"));
    assert_eq!(first, PackAction::CreateArchive);
    assert_eq!(
        op.step(PackEvent::Failed(PackError::Io(String::from("File exists")))),
        PackAction::Cleanup { finish_archive: false, remove_archive: false, close_staging: false }
    );
    assert!(!op.archive_created);
    assert!(!op.staging_created);
    assert_eq!(op.step(PackEvent::Done), PackAction::Finished);
    let err = op.outcome().unwrap().unwrap_err();
    assert_eq!(err, PackError::Io(String::from("File exists")));
    assert_eq!(err.message(), "i/o error: File exists");
}

#[test]
fn archive_failure_is_returned_unchanged_after_cleanup() {
    let mut op = indexed("packs/pack", vec![file("a.jar")], None, None);
    assert_eq!(op.step(PackEvent::Done), PackAction::WriteArchive);
    assert_eq!(
        op.step(PackEvent::Failed(PackError::Compression(String::from("bad entry")))),
        PackAction::Cleanup { finish_archive: true, remove_archive: true, close_staging: true }
    );
    assert_eq!(
        op.step(PackEvent::Failed(PackError::Io(String::from("cannot remove")))),
        PackAction::Finished
    );
    assert_eq!(op.state, PackState::Fail);
    let err = op.outcome().unwrap().unwrap_err();
    assert_eq!(err, PackError::Compression(String::from("bad entry")));
    assert_eq!(err.message(), "zip error: bad entry");
}

#[test]
fn staging_failure_closes_the_staging_folder() {
    let mut op = indexed("packs/pack", vec![file("a.jar")], None, None);
    assert_eq!(
        op.step(PackEvent::Failed(PackError::Io(String::from("disk full")))),
        PackAction::Cleanup { finish_archive: true, remove_archive: true, close_staging: true }
    );
    op.step(PackEvent::Done);
    assert_eq!(op.outcome(), Some(Err(PackError::Io(String::from("disk full")))));
}

#[test]
fn failing_cleanup_after_success_is_an_error() {
    let mut op = indexed("packs/pack", vec![file("a.jar")], None, None);
    op.step(PackEvent::Done);
    op.step(PackEvent::Done);
    assert_eq!(op.state, PackState::Cleanup);
    op.step(PackEvent::Failed(PackError::Io(String::from("busy"))));
    assert_eq!(op.outcome(), Some(Err(PackError::Io(String::from("busy")))));
}

#[test]
fn unreadable_folder_aborts_indexing() {
    let (mut op, _) = Packaging::begin(p("packs/pack"));
    op.step(PackEvent::Done);
    op.step(PackEvent::Present(true));
    let mods = vec![
        file("a.jar"),
        dir("locked", vec![Node::Unreadable(String::from("inner"), String::from("permission denied"))]),
        Node::Unreadable(String::from("later"), String::from("gone")),
    ];
    assert_eq!(
        op.step(PackEvent::Listed(Some(mods))),
        PackAction::Cleanup { finish_archive: true, remove_archive: true, close_staging: false }
    );
    assert_eq!(op.manifest.file_count(), 0);
    op.step(PackEvent::Done);
    assert_eq!(op.outcome(), Some(Err(PackError::Io(String::from("permission denied")))));
}

#[test]
fn events_that_answer_nothing_are_ignored() {
    let (mut op, _) = Packaging::begin(p("packs/pack"));
    assert_eq!(op.step(PackEvent::Present(true)), PackAction::CreateArchive);
    assert_eq!(op.state, PackState::Start);
    assert_eq!(op.pending(), PackAction::CreateArchive);
    op.step(PackEvent::Done);
    assert_eq!(op.step(PackEvent::Done), PackAction::CheckFolder(Category::Mods));
    assert_eq!(op.step(PackEvent::Listed(None)), PackAction::CheckFolder(Category::Mods));
    assert_eq!(op.state, PackState::Validate);
    assert!(!op.is_over());
}

#[test]
fn finished_operation_stays_finished() {
    let mut op = indexed("packs/pack", vec![], None, None);
    op.step(PackEvent::Done);
    op.step(PackEvent::Done);
    op.step(PackEvent::Done);
    assert_eq!(op.state, PackState::Finish);
    assert_eq!(op.step(PackEvent::Failed(PackError::NoSelection)), PackAction::Finished);
    assert_eq!(op.state, PackState::Finish);
    assert_eq!(op.outcome().map(|r| r.map(|m| m.files.len())), Some(Ok(0)));
}

#[test]
fn unfinished_operation_has_no_outcome() {
    let (op, _) = Packaging::begin(p("packs/pack"));
    assert_eq!(op.outcome(), None);
    let op = indexed("packs/pack", vec![], None, None);
    assert_eq!(op.outcome(), None);
    let (mut odd, _) = Packaging::begin(p("packs/pack"));
    odd.state = PackState::Fail;
    assert_eq!(odd.outcome(), None);
}

#[test]
fn manifest_document_is_compact_json() {
    let op = indexed(
        "home/packs/pack",
        vec![file("a.jar"), file("b.jar")],
        Some(vec![file("settings.cfg")]),
        None,
    );
    assert_eq!(
        op.manifest.to_json().unwrap(),
        "{\"name\":\"pack\",\"base_dir\":\"home/packs/pack\",\"files\":[\
         {\"path\":\"mods/a.jar\",\"category\":\"mods\"},\
         {\"path\":\"mods/b.jar\",\"category\":\"mods\"},\
         {\"path\":\"config/settings.cfg\",\"category\":\"config\"}]}"
    );
    let empty = Manifest::new(p("/packs/empty"));
    assert_eq!(
        empty.to_json().unwrap(),
        "{\"name\":\"empty\",\"base_dir\":\"packs/empty\",\"files\":[]}"
    );
}

#[test]
fn manifest_document_escapes_its_texts() {
    let mut manifest = Manifest::new(PackPath::from_parts(vec![
        String::new(),
        String::from("packs"),
        String::from("my \"best\" pack"),
    ]));
    let odd = PackPath::from_parts(vec![
        String::new(),
        String::from("packs"),
        String::from("my \"best\" pack"),
        String::from("mods"),
        String::from("tab\there\\.jar"),
    ]);
    assert_eq!(manifest.register_file(&odd, Category::Mods), Ok(()));
    let text = manifest.to_json().unwrap();
    assert_eq!(
        text,
        "{\"name\":\"my \\\"best\\\" pack\",\"base_dir\":\"/packs/my \\\"best\\\" pack\",\
         \"files\":[{\"path\":\"mods/tab\\there\\\\.jar\",\"category\":\"mods\"}]}"
    );
    let value: serde_json::Value = serde_json::from_str(&text).unwrap();
    assert_eq!(value["name"], "my \"best\" pack");
    assert_eq!(value["files"][0]["path"], "mods/tab\there\\.jar");
    assert_eq!(value["files"][0]["category"], "mods");
}

#[test]
fn manifest_document_is_always_there() {
    let empty = Manifest::new(p("x"));
    assert!(empty.to_json().is_ok());
    let mut odd = Manifest::new(PackPath::from_parts(vec![String::from("\u{0}\u{1f}\n\"\\ü\u{1F600}")]));
    let inside = PackPath::from_parts(vec![
        String::from("\u{0}\u{1f}\n\"\\ü\u{1F600}"),
        String::from("\u{7f}\t"),
    ]);
    assert_eq!(odd.register_file(&inside, Category::Mods), Ok(()));
    let text = odd.to_json().unwrap();
    let value: serde_json::Value = serde_json::from_str(&text).unwrap();
    assert_eq!(value["name"], "\u{0}\u{1f}\n\"\\ü\u{1F600}");
    assert_eq!(value["files"][0]["path"], "\u{7f}\t");
}

#[test]
fn document_parts_are_put_together_in_order() {
    assert_eq!(assemble_record("\"p\"", "\"c\""), "{\"path\":\"p\",\"category\":\"c\"}");
    assert_eq!(
        assemble_manifest("N", "B", &vec![String::from("r1"), String::from("r2")]),
        "{\"name\":N,\"base_dir\":B,\"files\":[r1,r2]}"
    );
    assert_eq!(assemble_manifest("N", "B", &vec![]), "{\"name\":N,\"base_dir\":B,\"files\":[]}");
}

#[test]
fn same_manifest_gives_the_same_document() {
    let run = || indexed("packs/twice", vec![file("b.jar"), file("a.jar")], Some(vec![]), None);
    assert_eq!(run().manifest.to_json(), run().manifest.to_json());
}

#[test]
fn register_file_refuses_what_lies_outside() {
    let mut manifest = Manifest::new(p("packs/pack"));
    assert_eq!(manifest.register_file(&p("packs/pack/mods/a.jar"), Category::Mods), Ok(()));
    assert_eq!(
        manifest.register_file(&p("packs/other/mods/b.jar"), Category::Mods),
        Err(PackError::Io(String::from("prefix not found")))
    );
    assert_eq!(manifest.files, vec![record("mods/a.jar", Category::Mods)]);
    assert_eq!(
        PackError::PathResolution.message(),
        "entry is not inside the folder being archived"
    );
}

#[test]
fn register_all_is_all_or_nothing() {
    let mut manifest = Manifest::new(p("packs/pack"));
    let bad = vec![p("packs/pack/config/a.cfg"), p("elsewhere/b.cfg")];
    assert_eq!(
        manifest.register_all(&bad, Category::Config),
        Err(PackError::Io(String::from("prefix not found")))
    );
    assert_eq!(manifest.file_count(), 0);
    let good = vec![p("packs/pack/config/a.cfg"), p("packs/pack/config/b.cfg")];
    assert_eq!(manifest.register_all(&good, Category::Config), Ok(()));
    assert_eq!(
        manifest.files,
        vec![record("config/a.cfg", Category::Config), record("config/b.cfg", Category::Config)]
    );
}

#[test]
fn categories_come_in_fixed_order() {
    assert_eq!(Category::first(), Category::Mods);
    assert_eq!(Category::Mods.next(), Some(Category::Config));
    assert_eq!(Category::Config.next(), Some(Category::Resourcepacks));
    assert_eq!(Category::Resourcepacks.next(), None);
    assert_eq!(Category::Mods.name(), "mods");
    assert_eq!(Category::Config.name(), "config");
    assert_eq!(Category::Resourcepacks.name(), "resourcepacks");
    assert!(Category::Mods.is_required());
    assert!(!Category::Config.is_required());
    assert!(!Category::Resourcepacks.is_required());
}

#[test]
fn find_files_walks_depth_first() {
    let listing = vec![
        file("a"),
        dir("d", vec![file("b"), dir("e", vec![file("c")]), dir("empty", vec![])]),
        file("z"),
    ];
    let files = find_files(&p("root"), &listing).unwrap();
    assert_eq!(files, vec![p("root/a"), p("root/d/b"), p("root/d/e/c"), p("root/z")]);
    assert_eq!(find_files(&p("root"), &vec![]), Ok(vec![]));
}

#[test]
fn find_files_and_dirs_yields_directories_after_their_contents() {
    let listing = vec![file("a"), dir("d", vec![file("b"), dir("e", vec![])])];
    let entries = find_files_and_dirs(&p("root"), &listing).unwrap();
    assert_eq!(
        entries,
        vec![
            Entry { path: p("root/a"), is_dir: false },
            Entry { path: p("root/d/b"), is_dir: false },
            Entry { path: p("root/d/e"), is_dir: true },
            Entry { path: p("root/d"), is_dir: true },
        ]
    );
}

#[test]
fn find_files_reports_the_first_unreadable_directory() {
    let listing = vec![
        file("a"),
        Node::Unreadable(String::from("x"), String::from("first")),
        Node::Unreadable(String::from("y"), String::from("second")),
    ];
    assert_eq!(find_files(&p("root"), &listing), Err(PackError::Io(String::from("first"))));
    assert_eq!(
        find_files_and_dirs(&p("root"), &listing),
        Err(PackError::Io(String::from("first")))
    );
}

#[test]
fn zip_dir_refuses_entries_outside_the_base() {
    let listing = vec![file("a")];
    assert_eq!(zip_dir(&p("tmp/one"), &listing, &p("tmp/two")), Err(PackError::PathResolution));
    let unreadable = vec![Node::Unreadable(String::from("d"), String::from("denied"))];
    assert_eq!(
        zip_dir(&p("tmp/one"), &unreadable, &p("tmp/two")),
        Err(PackError::Io(String::from("denied")))
    );
    let named = zip_dir(&p("tmp/one"), &listing, &p("tmp")).unwrap();
    assert_eq!(named[0].name, "one/a");
}

#[test]
fn every_planned_entry_carries_the_fixed_settings() {
    let listing = vec![file("run.sh"), dir("secret", vec![file("key.pem")]), dir("empty", vec![])];
    let plan = zip_dir(&p("tmp/s"), &listing, &p("tmp/s")).unwrap();
    assert_eq!(plan.len(), 4);
    for entry in &plan {
        assert_eq!(entry.options.unix_permissions, 0o644);
        assert_eq!(entry.options.compression, Compression::Bzip2);
        assert_eq!(entry.options.compression_level, 9);
        assert_eq!(entry.options, entry_options());
    }
}

#[test]
fn entries_are_written_with_fixed_settings() {
    let options = entry_options();
    assert_eq!(
        options,
        ArchiveOptions {
            unix_permissions: 0o644,
            compression: Compression::Bzip2,
            compression_level: 9,
        }
    );
    assert_eq!(options.unix_permissions, 0o644);
    assert_eq!(options.unix_permissions, 420);
    assert_eq!(options.compression, Compression::Bzip2);
    assert_eq!(options.compression_level, 9);
}

#[test]
fn select_by_name_takes_the_first_match() {
    let packs = vec![p("home/a"), p("home/skyblock"), p("other/skyblock")];
    assert_eq!(select_modpack(&Selection::ByName(p("skyblock")), &packs), Ok(1));
    assert_eq!(select_modpack(&Selection::ByName(p("other/skyblock")), &packs), Ok(2));
    assert_eq!(select_modpack(&Selection::ByName(p("a")), &packs), Ok(0));
    assert_eq!(
        select_modpack(&Selection::ByName(p("block")), &packs),
        Err(PackError::NoSelection)
    );
    assert_eq!(
        select_modpack(&Selection::ByName(p("a")), &vec![]),
        Err(PackError::NoSelection)
    );
    assert_eq!(
        PackError::NoSelection.message(),
        "no modpacks available/no such modpack exists"
    );
}

#[test]
fn select_by_position_checks_the_range() {
    let packs = vec![p("home/a"), p("home/b")];
    assert_eq!(select_modpack(&Selection::Picked(1), &packs), Ok(1));
    assert_eq!(select_modpack(&Selection::Picked(2), &packs), Err(PackError::NoSelection));
    assert_eq!(candidate_names(&packs), vec!["a", "b"]);
}

#[test]
fn list_modpacks_keeps_the_folders() {
    let listing = vec![
        file("launcher.json"),
        dir("skyblock", vec![file("ignored")]),
        file("notes.txt"),
        Node::Unreadable(String::from("locked"), String::from("denied")),
        dir("vanilla", vec![]),
    ];
    assert_eq!(
        list_modpacks(&p("home"), &listing),
        Ok(vec![p("home/skyblock"), p("home/locked"), p("home/vanilla")])
    );
    assert_eq!(list_modpacks(&p("home"), &vec![file("x")]), Err(PackError::NoSelection));
    assert_eq!(list_modpacks(&p("home"), &vec![]), Err(PackError::NoSelection));
}
