use fs_scout::absolute::join;
use fs_scout::component::{components, ComponentKind};
use fs_scout::containment::{escapes, moves, Move};

fn kinds(path: &str) -> Vec<ComponentKind> {
    components(path).iter().map(|c| c.kind).collect()
}

fn walk(path: &str) -> Vec<Move> {
    moves(&components(path))
}

#[test]
fn joined_path_has_the_components_of_both() {
    for origin in ["/", "/a", "/a/b/", "C:\\", "C:\\work", "\\\\?\\C:\\x\\..", "/a/./b//"] {
        for path in ["", "x", "./x", "../x", "a/b/../c", "..", "x.txt", "a\\b"] {
            let whole = join(origin, path);
            let mut expected = kinds(origin);
            expected.extend(kinds(path));
            assert_eq!(kinds(&whole), expected, "{:?} {:?}", origin, path);

            let mut expected = walk(origin);
            expected.extend(walk(path));
            assert_eq!(walk(&whole), expected, "{:?} {:?}", origin, path);
        }
    }
}

#[test]
fn components_of_the_path_move_right() {
    let whole = join("/work", "a/../b");
    assert_eq!(whole, "/work/a/../b");
    let own = components("a/../b");
    let all = components(&whole);
    assert_eq!(all.len(), 2 + own.len());
    for (c, moved) in own.iter().zip(&all[2..]) {
        assert_eq!(moved.kind, c.kind);
        assert_eq!(moved.start, c.start + 6);
        assert_eq!(moved.end, c.end + 6);
    }
}

#[test]
fn doubled_root_can_make_a_device_of_a_path() {
    assert_eq!(join("//", "./x"), "//./x");
    assert_eq!(kinds("//./x"), vec![ComponentKind::Prefix]);
    assert_eq!(kinds("//"), vec![ComponentKind::RootMarker]);
    assert_eq!(kinds("./x"), vec![ComponentKind::CurrentDir, ComponentKind::Normal]);
}

#[test]
fn escape_is_judged_on_the_walk_from_the_origin() {
    // Two levels deep, two levels up: at the root.
    assert!(!escapes(&walk(&join("/a/b", "../../escape.bin"))));
    // One level more leaves it.
    assert!(escapes(&walk(&join("/a/b", "../../../escape.bin"))));
    assert!(escapes(&walk(&join("/", "../escape.bin"))));
}
