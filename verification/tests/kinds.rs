use fs_scout::failure::FailureReason;
use fs_scout::kind::{classify, extension_present, PathKind};

fn has_extension(name: &str) -> bool {
    extension_present(&name.chars().collect::<Vec<char>>())
}

#[test]
fn files_and_directories() {
    assert_eq!(classify("a/b.txt"), Ok(PathKind::FileTarget));
    assert_eq!(classify("a/b"), Ok(PathKind::DirectoryTarget));
    assert_eq!(classify("a/.hidden"), Ok(PathKind::DirectoryTarget));
    assert_eq!(classify("a/.hidden.bin"), Ok(PathKind::FileTarget));
}

#[test]
fn classifying_twice_gives_the_same() {
    for path in ["a/b.txt", "a/b", "a/.hidden", "a/.hidden.bin", "", "/", "C:\\x.y"] {
        assert_eq!(classify(path), classify(path));
    }
}

#[test]
fn empty_path_has_no_kind() {
    assert_eq!(classify(""), Err(FailureReason::EmptyPath));
}

#[test]
fn every_other_path_has_a_kind() {
    for path in ["/", "\\", ".", "..", "a", "C:", "//./x", " ", "\n", "a/", "a.b/"] {
        assert!(classify(path).is_ok(), "{:?}", path);
    }
}

#[test]
fn only_the_last_component_counts() {
    assert_eq!(classify("a.d/b"), Ok(PathKind::DirectoryTarget));
    assert_eq!(classify("a.d/b.c/"), Ok(PathKind::FileTarget));
    assert_eq!(classify("a.d\\b.c\\\\"), Ok(PathKind::FileTarget));
    assert_eq!(classify("/x.y/.."), Ok(PathKind::DirectoryTarget));
    assert_eq!(classify("/x.y/."), Ok(PathKind::DirectoryTarget));
}

#[test]
fn roots_and_prefixes_are_directories() {
    assert_eq!(classify("/"), Ok(PathKind::DirectoryTarget));
    assert_eq!(classify("C:"), Ok(PathKind::DirectoryTarget));
    assert_eq!(classify("C:\\"), Ok(PathKind::DirectoryTarget));
    assert_eq!(classify("//./a.b"), Ok(PathKind::DirectoryTarget));
    assert_eq!(classify("//./a.b/c.d"), Ok(PathKind::FileTarget));
}

#[test]
fn extensions() {
    assert!(has_extension("b.txt"));
    assert!(has_extension(".hidden.bin"));
    assert!(has_extension("a.b.c"));
    assert!(has_extension("..x"));
    assert!(has_extension("a..b"));
    assert!(has_extension("a. "));
    assert!(!has_extension(""));
    assert!(!has_extension("b"));
    assert!(!has_extension(".hidden"));
    assert!(!has_extension("name."));
    assert!(!has_extension("."));
    assert!(!has_extension(".."));
    assert!(!has_extension("a.b."));
    assert!(!has_extension(".a."));
}
