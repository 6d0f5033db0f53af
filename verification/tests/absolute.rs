use fs_scout::absolute::{absolutize, is_absolute, join, parent, rooted};

#[test]
fn absolute_paths_start_at_a_root() {
    for path in ["/", "/a", "\\a", "C:\\a", "c:/", "\\\\?\\C:\\a", "//a"] {
        assert!(is_absolute(path), "{:?}", path);
        assert!(rooted(&path.chars().collect::<Vec<char>>()), "{:?}", path);
    }
    for path in ["", "a", "a/b", "./a", "../a", "C:", "C:a", ".", "\\\\?\\C:", "a/"] {
        assert!(!is_absolute(path), "{:?}", path);
        assert!(!rooted(&path.chars().collect::<Vec<char>>()), "{:?}", path);
    }
}

#[test]
fn join_puts_one_separator_between() {
    assert_eq!(join("/tmp", "dir/CON"), "/tmp/dir/CON");
    assert_eq!(join("/tmp/", "dir"), "/tmp/dir");
    assert_eq!(join("C:\\", "dir"), "C:\\dir");
    assert_eq!(join("C:", "dir"), "C:dir");
    assert_eq!(join("1:", "dir"), "1:/dir");
    assert_eq!(join("C:x", "dir"), "C:x/dir");
    assert_eq!(join("\\\\?\\C:", "dir"), "\\\\?\\C:/dir");
    assert_eq!(join("/", "a"), "/a");
    assert_eq!(join("", "a"), "a");
    assert_eq!(join("/a", ""), "/a/");
    assert_eq!(join("", ""), "");
    assert_eq!(join("a", "../b"), "a/../b");
    assert_eq!(join("/\u{e9}", "\u{e9}"), "/\u{e9}/\u{e9}");
}

#[test]
fn absolute_path_is_left_alone() {
    assert_eq!(absolutize("/yes_file.txt", "/"), "/yes_file.txt");
    assert_eq!(absolutize("C:\\Letter.txt", "/"), "C:\\Letter.txt");
    assert_eq!(absolutize("\\user", "/home"), "\\user");
}

#[test]
fn relative_path_is_joined_to_the_origin() {
    assert_eq!(absolutize("../../escape.bin", "/a/b"), "/a/b/../../escape.bin");
    assert_eq!(absolutize("dir/CON", "/tmp"), "/tmp/dir/CON");
    assert_eq!(absolutize("C:x", "/tmp"), "/tmp/C:x");
    assert_eq!(absolutize("", "/tmp"), "/tmp/");
    assert_eq!(absolutize("a", "rel"), "rel/a");
}

#[test]
fn parents() {
    let p = |s: &str| parent(s);
    assert_eq!(p("/a/b"), Some("/a".to_string()));
    assert_eq!(p("/a"), Some("/".to_string()));
    assert_eq!(p("/a//b//"), Some("/a".to_string()));
    assert_eq!(p("a"), Some("".to_string()));
    assert_eq!(p("a/b"), Some("a".to_string()));
    assert_eq!(p("/a/.."), Some("/a".to_string()));
    assert_eq!(p("/a/."), Some("/a".to_string()));
    assert_eq!(p("C:\\a"), Some("C:\\".to_string()));
    assert_eq!(p("C:a"), Some("C:".to_string()));
    assert_eq!(p("\\\\?\\C:\\Letter.txt\\"), Some("\\\\?\\C:\\".to_string()));
    assert_eq!(p("/\u{e9}\u{e9}/x"), Some("/\u{e9}\u{e9}".to_string()));
}

#[test]
fn roots_and_prefixes_have_no_parent() {
    assert_eq!(parent(""), None);
    assert_eq!(parent("/"), None);
    assert_eq!(parent("\\\\"), None);
    assert_eq!(parent("C:"), None);
    assert_eq!(parent("C:\\"), None);
    assert_eq!(parent("//./dev"), None);
}
