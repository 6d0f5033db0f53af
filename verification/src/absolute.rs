//! Absolute paths: telling them apart, making them, and finding a parent.

use crate::component::{
    components_of, has_drive_prefix, parse_components, prefix_len, prefix_length, views,
    Component, ComponentKind, ComponentView,
};
use crate::text::{chars_of, drive_letter, is_separator, separator};
use vstd::prelude::*;

verus! {

/// The path `s` starts at a root: a separator comes first, or directly after
/// the prefix.
pub open spec fn has_root(s: Seq<char>) -> bool {
    prefix_len(s) < s.len() && is_separator(s[prefix_len(s)])
}

/// Nothing needs to be put between `origin` and a path joined to it: it is
/// empty, ends in a separator, or is a bare drive, which a separator would
/// turn into the root of that drive.
pub open spec fn joins_directly(origin: Seq<char>) -> bool {
    ||| origin.len() == 0
    ||| is_separator(origin.last())
    ||| origin.len() == 2 && has_drive_prefix(origin)
}

/// The path `path` as seen from the directory `origin`: the two texts, with
/// a `/` between them where one is needed.
pub open spec fn joined(origin: Seq<char>, path: Seq<char>) -> Seq<char> {
    if joins_directly(origin) {
        origin + path
    } else {
        origin + seq!['/'] + path
    }
}

/// The absolute form of `path`: itself where it starts at a root, else
/// joined to `origin`.
pub open spec fn absolute_form(path: Seq<char>, origin: Seq<char>) -> Seq<char> {
    if has_root(path) {
        path
    } else {
        joined(origin, path)
    }
}

/// Where the parent of the path ends in its text: behind the component before
/// the last one. A path has no parent where it has no component or ends in a
/// prefix or a root marker.
pub open spec fn parent_end(cs: Seq<ComponentView>) -> Option<int> {
    if cs.len() == 0 {
        None
    } else if cs.last().kind == ComponentKind::Prefix || cs.last().kind
        == ComponentKind::RootMarker {
        None
    } else if cs.len() == 1 {
        Some(0)
    } else {
        Some(cs[cs.len() - 2].end)
    }
}

/// The parent of the path `s`: the path without its last component.
pub open spec fn parent_of(s: Seq<char>) -> Option<Seq<char>> {
    match parent_end(components_of(s)) {
        Some(e) => Some(s.subrange(0, e)),
        None => None,
    }
}

/// Whether the characters `s` make a path that starts at a root.
pub fn rooted(s: &[char]) -> (b: bool)
    ensures
        b == has_root(s@),
{
    let p = prefix_length(s);
    p < s.len() && separator(s[p])
}

/// Whether a path is absolute: whether it starts at a root, with or without
/// a prefix before it.
pub fn is_absolute(path: &str) -> (b: bool)
    ensures
        b == has_root(path@),
{
    let chars = chars_of(path);
    rooted(chars.as_slice())
}

/// Joins `path` to `origin`.
pub fn join(origin: &str, path: &str) -> (r: String)
    ensures
        r@ == joined(origin@, path@),
{
    let base = chars_of(origin);
    let n = base.len();
    let mut r = String::from_str(origin);
    let bare_drive = n == 2 && drive_letter(base[0]) && base[1] == ':';
    if n > 0 && !separator(base[n - 1]) && !bare_drive {
        proof {
            reveal_strlit("/");
            assert("/"@ =~= seq!['/']);
        }
        r.append("/");
    }
    r.append(path);
    r
}

/// The absolute form of `path`: unchanged where it is absolute, else
/// joined to `origin`.
pub fn absolutize(path: &str, origin: &str) -> (r: String)
    ensures
        r@ == absolute_form(path@, origin@),
{
    if is_absolute(path) {
        String::from_str(path)
    } else {
        join(origin, path)
    }
}

/// Where the parent ends, given the components of a path.
pub(crate) fn parent_end_of(cs: &[Component]) -> (r: Option<usize>)
    ensures
        match r {
            Some(e) => parent_end(views(cs@)) == Some(e as int),
            None => parent_end(views(cs@)) is None,
        },
{
    let n = cs.len();
    assert(views(cs@).len() == n);
    if n == 0 {
        return None;
    }
    assert(views(cs@).last() == cs@[n - 1]@);
    match cs[n - 1].kind {
        ComponentKind::Prefix | ComponentKind::RootMarker => None,
        _ => {
            if n == 1 {
                Some(0)
            } else {
                assert(views(cs@)[n - 2] == cs@[n - 2]@);
                Some(cs[n - 2].end)
            }
        },
    }
}

/// The parent of a path: the path without its last component, and without
/// the separators before it. `None` where the path is empty or ends in a
/// prefix or a root marker.
pub fn parent(path: &str) -> (r: Option<String>)
    ensures
        match r {
            Some(p) => parent_of(path@) == Some(p@),
            None => parent_of(path@) is None,
        },
{
    let chars = chars_of(path);
    let cs = parse_components(chars.as_slice());
    match parent_end_of(cs.as_slice()) {
        None => None,
        Some(e) => {
            assert(e <= path@.len()) by {
                let n = cs@.len() as int;
                if n >= 2 {
                    assert(cs@[n - 2].start < cs@[n - 2].end <= chars.len());
                }
            }
            Some(path.substring_char(0, e).to_owned())
        },
    }
}

} // verus!
