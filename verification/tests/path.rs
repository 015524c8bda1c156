use mpack::install::install_target;
use mpack::path::PackPath;

fn p(text: &str) -> PackPath {
    PackPath::from_parts(text.split('/').filter(|s| !s.is_empty()).map(String::from).collect())
}

#[test]
fn strip_prefix_gives_the_rest() {
    let file = p("home/packs/pack/mods/a.jar");
    assert_eq!(file.strip_prefix(&p("home/packs/pack")), Some(p("mods/a.jar")));
    assert_eq!(file.strip_prefix(&p("home/packs/pack/mods/a.jar")), Some(PackPath::new()));
    assert_eq!(file.strip_prefix(&PackPath::new()), Some(p("home/packs/pack/mods/a.jar")));
}

#[test]
fn strip_prefix_refuses_what_lies_elsewhere() {
    let file = p("home/packs/pack/mods/a.jar");
    assert_eq!(file.strip_prefix(&p("home/packs/other")), None);
    assert_eq!(file.strip_prefix(&p("home/packs/pa")), None);
    assert_eq!(p("home").strip_prefix(&p("home/packs")), None);
}

#[test]
fn starts_and_ends_with_whole_components() {
    let path = p("home/packs/skyblock");
    assert!(path.starts_with(&p("home/packs")));
    assert!(!path.starts_with(&p("home/pack")));
    assert!(path.ends_with(&p("skyblock")));
    assert!(path.ends_with(&p("packs/skyblock")));
    assert!(!path.ends_with(&p("block")));
    assert!(!path.ends_with(&p("x/home/packs/skyblock")));
    assert!(path.ends_with(&PackPath::new()));
}

#[test]
fn join_then_strip_is_identity() {
    let root = p("tmp/modpack.1234");
    let rel = p("config/deep/settings.cfg");
    let joined = root.join(&rel);
    assert_eq!(joined, p("tmp/modpack.1234/config/deep/settings.cfg"));
    assert_eq!(joined.strip_prefix(&root), Some(rel));
}

#[test]
fn file_name_and_parent() {
    let path = p("a/b/c.txt");
    assert_eq!(path.file_name(), Some(String::from("c.txt")));
    assert_eq!(path.parent(), Some(p("a/b")));
    assert_eq!(PackPath::new().file_name(), None);
    assert_eq!(PackPath::new().parent(), None);
    assert_eq!(path.len(), 3);
    assert_eq!(path.child("d"), p("a/b/c.txt/d"));
    assert_eq!(path.clone(), path);
}

#[test]
fn archive_names_use_forward_slashes_only() {
    assert_eq!(p("mods/a.jar").to_archive_name(), "mods/a.jar");
    assert_eq!(p("mods").to_archive_name(), "mods");
    assert_eq!(PackPath::new().to_archive_name(), "");
    let odd = PackPath::from_parts(vec![String::from("config"), String::from("sub\\file.cfg")]);
    assert_eq!(odd.to_slash_string(), "config/sub\\file.cfg");
    assert_eq!(odd.to_archive_name(), "config/sub/file.cfg");
}

#[test]
fn install_target_lies_in_the_game_folder() {
    assert_eq!(
        install_target(&p("home/user/.minecraft"), "skyblock"),
        p("home/user/.minecraft/version/skyblock")
    );
    assert_eq!(
        install_target(&p("home/user"), "skyblock"),
        p("home/user/.minecraft/version/skyblock")
    );
    assert_eq!(install_target(&PackPath::new(), "x"), p(".minecraft/version/x"));
}
