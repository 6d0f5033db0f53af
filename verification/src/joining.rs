//! What joining does to the components of a path: a relative path that is
//! joined to an absolute origin has the components of the origin, followed by
//! its own. So the walk that the containment analysis judges is the walk
//! along the origin, then the walk along the path.

use crate::absolute::{has_root, joined, joins_directly};
use crate::component::{
    components_of, has_device_prefix, has_drive_prefix, kinds, lemma_run_end_bounds, prefix_len,
    run_end, segment_kind, segments, ComponentKind, ComponentView,
};
use crate::containment::moves_of;
use crate::text::is_separator;
use vstd::prelude::*;

verus! {

/// The component `c`, moved `by` positions to the right.
pub open spec fn shifted(c: ComponentView, by: int) -> ComponentView {
    ComponentView { kind: c.kind, start: c.start + by, end: c.end + by }
}

/// The components `cs`, each moved `by` positions to the right.
pub open spec fn all_shifted(cs: Seq<ComponentView>, by: int) -> Seq<ComponentView> {
    Seq::new(cs.len(), |k: int| shifted(cs[k], by))
}

/// The origin does not start with two separators, unless as part of a
/// device prefix. (Joined to `//`, the path `./x` would read as a device.)
pub open spec fn plain_root(origin: Seq<char>) -> bool {
    prefix_len(origin) == 0 && origin.len() >= 2 ==> !is_separator(origin[1])
}

/// The path has neither a prefix nor a root.
pub open spec fn plainly_relative(path: Seq<char>) -> bool {
    prefix_len(path) == 0 && !has_root(path)
}

/// A run in the second of two texts ends where it ends in that text alone.
proof fn lemma_run_end_right(a: Seq<char>, r: Seq<char>, j: int)
    requires
        0 <= j <= r.len(),
    ensures
        run_end(a + r, a.len() + j) == a.len() + run_end(r, j),
    decreases r.len() - j,
{
    if j < r.len() {
        assert((a + r)[a.len() + j] == r[j]);
        if !is_separator(r[j]) {
            lemma_run_end_right(a, r, j + 1);
        }
    }
}

/// A run that ends within the first of two texts ends there in both.
proof fn lemma_run_end_left(a: Seq<char>, r: Seq<char>, i: int)
    requires
        0 <= i <= a.len(),
        run_end(a, i) < a.len(),
    ensures
        run_end(a + r, i) == run_end(a, i),
    decreases a.len() - i,
{
    if i < a.len() {
        assert((a + r)[i] == a[i]);
        if !is_separator(a[i]) {
            lemma_run_end_left(a, r, i + 1);
        }
    }
}

/// The kind of a segment depends on its characters alone.
proof fn lemma_segment_kind_same(s: Seq<char>, t: Seq<char>, start: int, end: int, by: int)
    requires
        0 <= start < end <= s.len(),
        0 <= start + by,
        end + by <= t.len(),
        forall|j: int| start <= j < end ==> s[j] == t[j + by],
    ensures
        segment_kind(t, start + by, end + by) == segment_kind(s, start, end),
{
    assert(s[start] == t[start + by]);
    if end - start == 2 {
        assert(s[start + 1] == t[start + 1 + by]);
    }
}

/// The segments of the second of two texts are those it has alone, moved
/// to the right by the length of the first.
proof fn lemma_segments_right(a: Seq<char>, r: Seq<char>, j: int)
    requires
        0 <= j <= r.len(),
    ensures
        segments(a + r, a.len() + j) == all_shifted(segments(r, j), a.len() as int),
    decreases r.len() - j,
{
    let n = a.len() as int;
    if j < r.len() {
        assert((a + r)[n + j] == r[j]);
        if is_separator(r[j]) {
            lemma_segments_right(a, r, j + 1);
        } else {
            let e = run_end(r, j);
            lemma_run_end_bounds(r, j);
            lemma_run_end_right(a, r, j);
            assert forall|k: int| j <= k < e implies r[k] == (a + r)[k + n] by {}
            lemma_segment_kind_same(r, a + r, j, e, n);
            lemma_segments_right(a, r, e);
            assert(segments(a + r, n + j) =~= all_shifted(segments(r, j), n));
        }
    } else {
        assert(segments(a + r, n + j) =~= all_shifted(segments(r, j), n));
    }
}

/// The segments of two texts put together, where the first ends in a
/// separator, are the segments of the first and then those of the second.
proof fn lemma_segments_left(a: Seq<char>, r: Seq<char>, i: int)
    requires
        a.len() > 0,
        is_separator(a.last()),
        0 <= i <= a.len(),
    ensures
        segments(a + r, i) == segments(a, i) + all_shifted(segments(r, 0), a.len() as int),
    decreases a.len() - i,
{
    let n = a.len() as int;
    let tail = all_shifted(segments(r, 0), n);
    if i < n {
        assert((a + r)[i] == a[i]);
        if is_separator(a[i]) {
            lemma_segments_left(a, r, i + 1);
        } else {
            let e = run_end(a, i);
            lemma_run_end_bounds(a, i);
            assert(e < n) by {
                if e == n {
                    assert(!is_separator(a[n - 1]));
                }
            }
            lemma_run_end_left(a, r, i);
            assert forall|k: int| i <= k < e implies a[k] == (a + r)[k + 0] by {}
            lemma_segment_kind_same(a, a + r, i, e, 0);
            lemma_segments_left(a, r, e);
            assert(segments(a + r, i) =~= segments(a, i) + tail);
        }
    } else {
        lemma_segments_right(a, r, 0);
        assert(segments(a + r, i) =~= segments(a, i) + tail);
    }
}

/// A separator at the end of a text does not move the end of a run.
proof fn lemma_run_end_closed(o: Seq<char>, i: int)
    requires
        0 <= i <= o.len(),
    ensures
        run_end(o + seq!['/'], i) == run_end(o, i),
    decreases o.len() - i,
{
    let a = o + seq!['/'];
    if i < o.len() {
        assert(a[i] == o[i]);
        if !is_separator(o[i]) {
            lemma_run_end_closed(o, i + 1);
        }
    } else {
        assert(a[i] == '/');
    }
}

/// A separator at the end of a text adds no segment.
proof fn lemma_segments_closed(o: Seq<char>, i: int)
    requires
        0 <= i <= o.len(),
    ensures
        segments(o + seq!['/'], i) == segments(o, i),
    decreases o.len() - i,
{
    let a = o + seq!['/'];
    if i < o.len() {
        assert(a[i] == o[i]);
        if is_separator(o[i]) {
            lemma_segments_closed(o, i + 1);
        } else {
            let e = run_end(o, i);
            lemma_run_end_bounds(o, i);
            lemma_run_end_closed(o, i);
            assert forall|k: int| i <= k < e implies o[k] == a[k + 0] by {}
            lemma_segment_kind_same(o, a, i, e, 0);
            lemma_segments_closed(o, e);
        }
    } else {
        assert(a[i] == '/');
        assert(segments(a, i + 1) =~= Seq::<ComponentView>::empty());
    }
}

/// An absolute origin keeps its prefix and its root when a relative path is
/// put behind it.
proof fn lemma_prefix_kept(origin: Seq<char>, rest: Seq<char>)
    requires
        has_root(origin),
        plain_root(origin),
        origin.len() == 1 ==> rest.len() == 0 || !is_separator(rest[0]),
    ensures
        prefix_len(origin + rest) == prefix_len(origin),
        has_root(origin + rest),
{
    let whole = origin + rest;
    let p = prefix_len(origin);
    assert(whole[0] == origin[0]);
    if origin.len() >= 2 {
        assert(whole[1] == origin[1]);
    }
    if has_drive_prefix(origin) {
        assert(whole[p] == origin[p]);
    } else if has_device_prefix(origin) {
        assert(whole[2] == origin[2]);
        assert(whole[3] == origin[3]);
        assert(whole[4] == origin[4]);
        lemma_run_end_bounds(origin, 4);
        lemma_run_end_left(origin, rest, 4);
        assert(whole[p] == origin[p]);
    } else {
        assert(is_separator(origin[0]));
        if origin.len() == 1 && rest.len() > 0 {
            assert(whole[1] == rest[0]);
        }
        assert(!has_device_prefix(whole));
    }
}

/// The moves of two sequences of components put together are the moves of
/// the first and then those of the second.
pub proof fn lemma_moves_of_both(first: Seq<ComponentKind>, second: Seq<ComponentKind>)
    ensures
        moves_of(first + second) == moves_of(first) + moves_of(second),
    decreases second.len(),
{
    if second.len() == 0 {
        assert(first + second =~= first);
        assert(moves_of(first) + moves_of(second) =~= moves_of(first));
    } else {
        assert((first + second).drop_last() =~= first + second.drop_last());
        assert((first + second).last() == second.last());
        lemma_moves_of_both(first, second.drop_last());
        assert(moves_of(first + second) =~= moves_of(first) + moves_of(second));
    }
}

/// A relative path joined to an absolute origin has the components of the
/// origin, followed by its own, which stand further to the right by what
/// was put before the path.
pub proof fn lemma_components_of_joined(origin: Seq<char>, path: Seq<char>)
    requires
        has_root(origin),
        plain_root(origin),
        plainly_relative(path),
    ensures
        components_of(joined(origin, path)) == components_of(origin) + all_shifted(
            components_of(path),
            joined(origin, path).len() - path.len(),
        ),
        has_root(joined(origin, path)),
{
    let whole = joined(origin, path);
    let p = prefix_len(origin);
    if has_device_prefix(origin) {
        lemma_run_end_bounds(origin, 4);
    }
    assert(components_of(path) =~= segments(path, 0));
    if joins_directly(origin) {
        assert(is_separator(origin.last()));
        lemma_prefix_kept(origin, path);
        lemma_segments_left(origin, path, p);
        assert(whole[p] == origin[p]);
        assert(components_of(whole) =~= components_of(origin) + all_shifted(
            segments(path, 0),
            origin.len() as int,
        ));
    } else {
        let closed = origin + seq!['/'];
        assert(whole =~= origin + (seq!['/'] + path));
        assert((seq!['/'] + path)[0] == '/');
        lemma_prefix_kept(origin, seq!['/'] + path);
        assert(closed.last() == '/');
        lemma_segments_left(closed, path, p);
        lemma_segments_closed(origin, p);
        assert(whole[p] == origin[p]);
        assert(components_of(whole) =~= components_of(origin) + all_shifted(
            segments(path, 0),
            closed.len() as int,
        ));
    }
}

/// The walk along a relative path joined to an absolute origin is the walk
/// along the origin, then the walk along the path.
pub proof fn lemma_walk_of_joined(origin: Seq<char>, path: Seq<char>)
    requires
        has_root(origin),
        plain_root(origin),
        plainly_relative(path),
    ensures
        moves_of(kinds(components_of(joined(origin, path)))) == moves_of(
            kinds(components_of(origin)),
        ) + moves_of(kinds(components_of(path))),
{
    lemma_components_of_joined(origin, path);
    let by = joined(origin, path).len() - path.len();
    let first = components_of(origin);
    let second = components_of(path);
    assert(kinds(first + all_shifted(second, by)) =~= kinds(first) + kinds(second));
    lemma_moves_of_both(kinds(first), kinds(second));
}

} // verus!
