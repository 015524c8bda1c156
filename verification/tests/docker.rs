use mpack::docker::{dockerfile_for, generate_dockerfile, DOCKERFILE, PLACEHOLDER};
use mpack::text::{join_strings, replace_all};

#[test]
fn test_dockerfile() {
    assert_eq!(
        DOCKERFILE,
        r#"FROM eclipse-temurin:�-jre-alpine

WORKDIR /srv/minecraft
COPY dockerfs .

EXPOSE 25565 25575
ENTRYPOINT [ "./run.sh" ]"#
    )
}

#[test]
fn test_dockergen() {
    assert_eq!(
        generate_dockerfile(17),
        r#"FROM eclipse-temurin:17-jre-alpine

WORKDIR /srv/minecraft
COPY dockerfs .

EXPOSE 25565 25575
ENTRYPOINT [ "./run.sh" ]"#
    );
}

#[test]
fn placeholder_is_the_replacement_character() {
    assert_eq!(PLACEHOLDER, char::REPLACEMENT_CHARACTER);
    assert_eq!(DOCKERFILE.chars().filter(|c| *c == PLACEHOLDER).count(), 1);
}

#[test]
fn dockergen_matches_std_replace() {
    for version in ["8", "21", "", "17.0.2"] {
        assert_eq!(
            generate_dockerfile(version),
            DOCKERFILE.replace(char::REPLACEMENT_CHARACTER, version)
        );
        assert_eq!(dockerfile_for(version), generate_dockerfile(version));
    }
    assert_eq!(generate_dockerfile(21u8), dockerfile_for("21"));
    assert!(dockerfile_for("11").starts_with("FROM eclipse-temurin:11-jre-alpine\n"));
}

#[test]
fn replace_all_replaces_every_mark() {
    assert_eq!(replace_all("a\\b\\c", '\\', "/"), "a/b/c");
    assert_eq!(replace_all("xx", 'x', "ab"), "abab");
    assert_eq!(replace_all("", 'x', "ab"), "");
    assert_eq!(replace_all("héllo wörld", 'ö', ""), "héllo wrld");
    assert_eq!(replace_all("plain", 'x', "y"), "plain");
}

#[test]
fn join_strings_puts_the_separator_between() {
    let items = vec![String::from("a"), String::from("b"), String::from("c")];
    assert_eq!(join_strings(&items, ", "), "a, b, c");
    assert_eq!(join_strings(&vec![String::from("only")], "/"), "only");
    assert_eq!(join_strings(&vec![], "/"), "");
    assert_eq!(join_strings(&vec![String::new(), String::from("x")], "/"), "/x");
}
