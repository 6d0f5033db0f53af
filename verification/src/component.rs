//! The lexical structure of a path.
//!
//! A path is split from left to right into typed components. The split is
//! purely lexical and the same on every host: both `/` and `\` separate
//! components, a drive (`C:`) or device (`\\?\C:`, `\\.\COM1`) prefix is
//! recognised wherever the program runs, and nothing is looked up on disk.

use crate::text::{chars_of, drive_letter, is_drive_letter, is_separator, separator};
use vstd::prelude::*;

verus! {

/// What a component of a path is.
#[derive(Clone, Copy, Debug, PartialEq, Eq, Structural)]
pub enum ComponentKind {
    /// A drive or device prefix.
    Prefix,
    /// The separator that makes a path start at the root.
    RootMarker,
    /// The segment `.`.
    CurrentDir,
    /// The segment `..`.
    ParentDir,
    /// Any other segment: a file or directory name.
    Normal,
}

/// One component of a path, with the place of its text in the path:
/// the characters from `start` up to, not including, `end`.
#[derive(Clone, Copy, Debug, PartialEq, Eq, Structural)]
pub struct Component {
    pub kind: ComponentKind,
    pub start: usize,
    pub end: usize,
}

/// The mathematical model of a [`Component`].
pub struct ComponentView {
    pub kind: ComponentKind,
    pub start: int,
    pub end: int,
}

impl View for Component {
    type V = ComponentView;

    open spec fn view(&self) -> ComponentView {
        ComponentView { kind: self.kind, start: self.start as int, end: self.end as int }
    }
}

/// The models of a sequence of components.
pub open spec fn views(cs: Seq<Component>) -> Seq<ComponentView> {
    Seq::new(cs.len(), |k: int| cs[k]@)
}

/// The kinds of a sequence of components, in order.
pub open spec fn kinds(cs: Seq<ComponentView>) -> Seq<ComponentKind> {
    Seq::new(cs.len(), |k: int| cs[k].kind)
}

/// The text of a component of the path `s`.
pub open spec fn text_of(s: Seq<char>, c: ComponentView) -> Seq<char> {
    s.subrange(c.start, c.end)
}

/// Where the run of non-separator characters that covers position `i` ends:
/// the first position from `i` on that holds a separator, or the length of `s`.
pub open spec fn run_end(s: Seq<char>, i: int) -> int
    decreases s.len() - i,
{
    if 0 <= i < s.len() && !is_separator(s[i]) {
        run_end(s, i + 1)
    } else {
        i
    }
}

/// `s` starts with a drive prefix: a letter and a colon.
pub open spec fn has_drive_prefix(s: Seq<char>) -> bool {
    s.len() >= 2 && is_drive_letter(s[0]) && s[1] == ':'
}

/// `s` starts with a device prefix: two separators, `?` or `.`, a separator,
/// and a name that is not empty.
pub open spec fn has_device_prefix(s: Seq<char>) -> bool {
    &&& s.len() >= 5
    &&& is_separator(s[0])
    &&& is_separator(s[1])
    &&& (s[2] == '?' || s[2] == '.')
    &&& is_separator(s[3])
    &&& !is_separator(s[4])
}

/// The length of the prefix of `s`; 0 where it has none.
pub open spec fn prefix_len(s: Seq<char>) -> int {
    if has_drive_prefix(s) {
        2
    } else if has_device_prefix(s) {
        run_end(s, 4)
    } else {
        0
    }
}

/// The kind of the segment that holds the characters of `s` from `start` to `end`.
pub open spec fn segment_kind(s: Seq<char>, start: int, end: int) -> ComponentKind {
    if end - start == 1 && s[start] == '.' {
        ComponentKind::CurrentDir
    } else if end - start == 2 && s[start] == '.' && s[start + 1] == '.' {
        ComponentKind::ParentDir
    } else {
        ComponentKind::Normal
    }
}

/// The segments of `s` from position `i` on: its maximal runs of
/// non-separator characters, from left to right.
pub open spec fn segments(s: Seq<char>, i: int) -> Seq<ComponentView>
    decreases s.len() - i,
{
    if i < 0 || i >= s.len() {
        Seq::empty()
    } else if is_separator(s[i]) {
        segments(s, i + 1)
    } else {
        let e = run_end(s, i);
        proof {
            lemma_run_end_bounds(s, i);
        }
        seq![ComponentView { kind: segment_kind(s, i, e), start: i, end: e }] + segments(s, e)
    }
}

/// The components of the path `s`: its prefix, if it has one; a root marker,
/// if a separator follows directly; then its segments.
pub open spec fn components_of(s: Seq<char>) -> Seq<ComponentView> {
    let p = prefix_len(s);
    let prefix = if p > 0 {
        seq![ComponentView { kind: ComponentKind::Prefix, start: 0, end: p }]
    } else {
        Seq::empty()
    };
    let root = if p < s.len() && is_separator(s[p]) {
        seq![ComponentView { kind: ComponentKind::RootMarker, start: p, end: p + 1 }]
    } else {
        Seq::empty()
    };
    prefix + root + segments(s, p)
}

/// A run ends at or after the position it is asked from, within `s`, and
/// strictly after it where that position holds no separator.
pub proof fn lemma_run_end_bounds(s: Seq<char>, i: int)
    requires
        0 <= i <= s.len(),
    ensures
        i <= run_end(s, i) <= s.len(),
        i < s.len() && !is_separator(s[i]) ==> i < run_end(s, i),
        run_end(s, i) < s.len() ==> is_separator(s[run_end(s, i)]),
        forall|j: int| i <= j < run_end(s, i) ==> !is_separator(#[trigger] s[j]),
    decreases s.len() - i,
{
    if i < s.len() && !is_separator(s[i]) {
        lemma_run_end_bounds(s, i + 1);
    }
}

/// Only the empty path has no component.
pub proof fn lemma_components_empty(s: Seq<char>)
    ensures
        components_of(s).len() == 0 <==> s.len() == 0,
{
    let p = prefix_len(s);
    if has_device_prefix(s) {
        lemma_run_end_bounds(s, 4);
    }
    if s.len() > 0 && p == 0 && !is_separator(s[0]) {
        lemma_run_end_bounds(s, 0);
    }
}

/// The length of the prefix of `s`.
pub fn prefix_length(s: &[char]) -> (p: usize)
    ensures
        p == prefix_len(s@),
        p <= s.len(),
{
    let n = s.len();
    if n >= 2 && drive_letter(s[0]) && s[1] == ':' {
        2
    } else if n >= 5 && separator(s[0]) && separator(s[1]) && (s[2] == '?' || s[2] == '.')
        && separator(s[3]) && !separator(s[4]) {
        scan_run(s, 4)
    } else {
        0
    }
}

/// The end of the run of non-separator characters from position `i` on.
pub fn scan_run(s: &[char], i: usize) -> (e: usize)
    requires
        i <= s.len(),
    ensures
        e == run_end(s@, i as int),
        i <= e <= s.len(),
{
    let n = s.len();
    let mut e = i;
    while e < n && !separator(s[e])
        invariant
            i <= e <= n,
            n == s.len(),
            run_end(s@, e as int) == run_end(s@, i as int),
        decreases n - e,
    {
        e += 1;
    }
    e
}

/// The kind of the segment from `start` to `end`.
fn kind_of_segment(s: &[char], start: usize, end: usize) -> (k: ComponentKind)
    requires
        start < end <= s.len(),
    ensures
        k == segment_kind(s@, start as int, end as int),
{
    if end - start == 1 && s[start] == '.' {
        ComponentKind::CurrentDir
    } else if end - start == 2 && s[start] == '.' && s[start + 1] == '.' {
        ComponentKind::ParentDir
    } else {
        ComponentKind::Normal
    }
}

/// Every component lies within a text of length `n` and is not empty.
pub open spec fn within(cs: Seq<Component>, n: int) -> bool {
    forall|k: int| 0 <= k < cs.len() ==> (#[trigger] cs[k]).start < cs[k].end <= n
}

/// Splits a path into its components.
pub fn parse_components(s: &[char]) -> (cs: Vec<Component>)
    ensures
        views(cs@) == components_of(s@),
        within(cs@, s.len() as int),
{
    let n = s.len();
    let p = prefix_length(s);
    let mut cs: Vec<Component> = Vec::new();
    if p > 0 {
        cs.push(Component { kind: ComponentKind::Prefix, start: 0, end: p });
    }
    if p < n && separator(s[p]) {
        cs.push(Component { kind: ComponentKind::RootMarker, start: p, end: p + 1 });
    }
    assert(views(cs@) + segments(s@, p as int) =~= components_of(s@));
    let mut i = p;
    while i < n
        invariant
            p <= i <= n,
            n == s.len(),
            views(cs@) + segments(s@, i as int) == components_of(s@),
            within(cs@, n as int),
        decreases n - i,
    {
        if separator(s[i]) {
            i += 1;
        } else {
            let e = scan_run(s, i);
            proof {
                lemma_run_end_bounds(s@, i as int);
            }
            let c = Component { kind: kind_of_segment(s, i, e), start: i, end: e };
            let ghost before = cs@;
            cs.push(c);
            assert(views(cs@) + segments(s@, e as int) =~= views(before) + segments(s@, i as int));
            i = e;
        }
    }
    assert(views(cs@) + segments(s@, i as int) =~= views(cs@));
    cs
}

/// The components of a path, from left to right. Their places count
/// characters, not bytes.
pub fn components(path: &str) -> (cs: Vec<Component>)
    ensures
        views(cs@) == components_of(path@),
        within(cs@, path@.len() as int),
{
    let chars = chars_of(path);
    parse_components(chars.as_slice())
}

} // verus!
