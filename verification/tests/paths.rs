use spacezed::path::{file_name_of, same_bytes, DirPath, PathComponent};
use spacezed::text::{decimal, truncate_and_trailoff};

fn path(text: &str) -> DirPath {
    let mut components = Vec::new();
    if text.starts_with('/') {
        components.push(PathComponent::RootDir);
    }
    for name in text.split('/') {
        if name == ".." {
            components.push(PathComponent::ParentDir);
        } else if !name.is_empty() {
            components.push(PathComponent::named(name));
        }
    }
    DirPath { components }
}

#[test]
fn decimals_have_no_leading_zeros() {
    assert_eq!(decimal(0), "0");
    assert_eq!(decimal(9), "9");
    assert_eq!(decimal(10), "10");
    assert_eq!(decimal(1234567890), "1234567890");
    assert_eq!(decimal(u64::MAX), u64::MAX.to_string());
}

#[test]
fn different_numbers_have_different_numerals() {
    assert_ne!(decimal(7), decimal(70));
    assert_ne!(decimal(101), decimal(110));
}

#[test]
fn long_text_trails_off() {
    assert_eq!(truncate_and_trailoff("", 5), "");
    assert_eq!(truncate_and_trailoff("èèèèèè", 7), "èèèèèè");
    assert_eq!(truncate_and_trailoff("èèèèèè", 6), "èèèèèè");
    assert_eq!(truncate_and_trailoff("èèèèèè", 5), "èèèèè…");
}

#[test]
fn parents_end_at_the_root() {
    assert_eq!(path("/a/b").parent(), Some(path("/a")));
    assert_eq!(path("/a").parent(), Some(path("/")));
    assert_eq!(path("/").parent(), None);
    assert_eq!(path("").parent(), None);
    assert_eq!(path("a").parent(), Some(path("")));
    let drive = DirPath { components: vec![PathComponent::Prefix(b"C:".to_vec())] };
    assert_eq!(drive.parent(), None);
}

#[test]
fn file_names_are_last_names() {
    assert_eq!(path("/a/b").file_name(), Some(b"b".to_vec()));
    assert_eq!(path("/a/..").file_name(), None);
    assert_eq!(path("/").file_name(), None);
    assert_eq!(path("").file_name(), None);
}

#[test]
fn prefixes_are_of_whole_components() {
    assert!(path("/a/b").starts_with(&path("/a")));
    assert!(path("/a/b").starts_with(&path("/a/b")));
    assert!(!path("/ab").starts_with(&path("/a")));
    assert!(!path("/a").starts_with(&path("/a/b")));
    assert!(!path("a/b").starts_with(&path("/a")));
    assert!(path("/a/b").same(&path("/a/b")));
    assert!(!path("/a/b").same(&path("/a")));
}

#[test]
fn json_files_have_a_stem() {
    assert!(path("/agents/one.json").is_json_file());
    assert!(path("/agents/one.two.json").is_json_file());
    assert!(!path("/agents/.json").is_json_file());
    assert!(!path("/agents/json").is_json_file());
    assert!(!path("/agents/one.jsonc").is_json_file());
    assert!(!path("/agents/one.json/..").is_json_file());
    assert!(!path("/").is_json_file());
}

#[test]
fn json_files_are_those_that_the_system_takes_for_json() {
    for name in ["a.json", ".json", "a.b", "json", "a.json.", "..json", "x.JSON", "a.json.json"] {
        let expected = std::path::Path::new(name).extension() == Some("json".as_ref());
        assert_eq!(path(name).is_json_file(), expected, "{}", name);
    }
}

#[test]
fn file_names_in_text_are_those_of_the_system() {
    for text in [
        "", "/", ".", "..", "/..", "a", "a/", "a//", "a/.", "a/./", "/a/b", "/a/b/", "/a/b/.",
        "a/..", "a/../", "a/../b", "./a", "...", "a/...", ".hidden", "/x/.git", "è/ü", "a/.//./",
    ] {
        let expected = std::path::Path::new(text)
            .file_name()
            .map(|name| name.to_string_lossy().to_string());
        assert_eq!(file_name_of(text), expected, "{:?}", text);
    }
}

#[test]
fn bytes_are_compared_whole() {
    assert!(same_bytes(&vec![1, 2], &vec![1, 2]));
    assert!(!same_bytes(&vec![1, 2], &vec![1, 3]));
    assert!(!same_bytes(&vec![1, 2], &vec![1]));
}

#[test]
fn copies_of_paths_are_the_same_path() {
    let nested = path("/a/../b");
    assert_eq!(nested.clone(), nested);
    let mut longer = nested.clone();
    longer.push_name("c");
    assert_eq!(longer, path("/a/../b/c"));
}
