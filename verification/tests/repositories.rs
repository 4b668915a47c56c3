use spacezed::path::{DirPath, PathComponent};
use spacezed::repository::{outermost_repository_in, repository_candidates};

fn path(text: &str) -> DirPath {
    let mut components = vec![PathComponent::RootDir];
    for name in text.split('/') {
        if !name.is_empty() {
            components.push(PathComponent::named(name));
        }
    }
    DirPath { components }
}

#[test]
fn test_outermost_repository_in() {
    let root = path("/tmp/project");
    let mut nested = root.clone();
    nested.push_name("vendored");
    nested.push_name("lib");
    nested.push_name("submodule");
    let mut repositories = vec![nested.clone()];

    assert_eq!(
        outermost_repository_in(&root, &nested.parent().expect("parent of nested"), &repositories),
        None,
        "no repository on the chain to the parent directory"
    );
    assert_eq!(
        outermost_repository_in(&root, &nested, &repositories),
        Some(nested.clone()),
        "the requested directory itself is the outermost repository"
    );

    let mut intermediate = root.clone();
    intermediate.push_name("vendored");
    repositories.push(intermediate.clone());
    assert_eq!(
        outermost_repository_in(&root, &nested, &repositories),
        Some(intermediate),
        "a gitlink file at an intermediate directory shadows deeper repositories"
    );

    repositories.push(root.clone());
    assert_eq!(
        outermost_repository_in(&root, &nested, &repositories),
        Some(root.clone()),
        "a repository at the root shadows everything below it"
    );

    assert_eq!(
        outermost_repository_in(&nested, &root, &repositories),
        None,
        "paths outside the root are not remapped"
    );
}

#[test]
fn candidates_lead_from_the_root_to_the_directory() {
    assert_eq!(
        repository_candidates(&path("/w"), &path("/w/a/b")),
        vec![path("/w"), path("/w/a"), path("/w/a/b")]
    );
    assert_eq!(repository_candidates(&path("/w"), &path("/w")), vec![path("/w")]);
    assert!(repository_candidates(&path("/w"), &path("/v/a")).is_empty());
    assert!(repository_candidates(&path("/w/a"), &path("/w")).is_empty());
}

#[test]
fn repositories_off_the_way_do_not_matter() {
    let repositories = vec![path("/"), path("/w/b"), path("/w/a/b/c"), path("/w/a")];
    assert_eq!(
        outermost_repository_in(&path("/w"), &path("/w/a/b"), &repositories),
        Some(path("/w/a"))
    );
    let seen = vec![path("/w/a")];
    assert_eq!(
        outermost_repository_in(&path("/w"), &path("/w/a/b"), &seen),
        Some(path("/w/a"))
    );
}

#[test]
fn nested_directories_share_the_outermost_repository() {
    let repositories = vec![path("/w/a"), path("/w/a/x"), path("/w/a/y/z")];
    for directory in ["/w/a", "/w/a/x", "/w/a/x/q", "/w/a/y/z"] {
        assert_eq!(
            outermost_repository_in(&path("/w"), &path(directory), &repositories),
            Some(path("/w/a"))
        );
    }
}
