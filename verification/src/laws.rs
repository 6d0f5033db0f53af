//! What holds of the validator as a whole, stated once and proved.

use crate::absolute::{absolute_form, has_root};
use crate::component::{
    components_of, has_device_prefix, kinds, lemma_components_empty, lemma_run_end_bounds,
    prefix_len, run_end, segment_kind, segments, text_of, ComponentKind, ComponentView,
};
use crate::containment::{
    containment_of, depth, escapes_root, moves_of, shape_of, starts_at_root, through_last_ascend,
    Move,
};
use crate::failure::{about, agrees, Failure, FailureReason, FailureView};
use crate::joining::{
    lemma_components_of_joined, lemma_walk_of_joined, plain_root, plainly_relative,
};
use crate::kind::{has_extension, kind_of};
use crate::names::{
    first_forbidden, first_illegal_part, is_forbidden_char, is_illegal_at_end, is_legal_name,
    is_reserved_name, lemma_first_forbidden, name_check_of, violation_of,
};
use crate::policy::{ProbeReport, ValidationMode, ValidationPolicy};
use crate::text::is_separator;
use crate::validate::{absolute_check_of, outcome, placement_of, relative_check_of};
use vstd::prelude::*;

verus! {

/// `n` moves down.
pub open spec fn descents(n: nat) -> Seq<Move> {
    Seq::new(n, |i: int| Move::Descend)
}

/// `n` moves up.
pub open spec fn ascents(n: nat) -> Seq<Move> {
    Seq::new(n, |i: int| Move::Ascend)
}

/// No component of `ks` is `..`.
pub open spec fn without_parent_dir(ks: Seq<ComponentKind>) -> bool {
    forall|i: int| 0 <= i < ks.len() ==> ks[i] != ComponentKind::ParentDir
}

/// Components without `..` make no move up.
proof fn lemma_no_ascend(ks: Seq<ComponentKind>)
    requires
        without_parent_dir(ks),
    ensures
        forall|i: int| 0 <= i < moves_of(ks).len() ==> moves_of(ks)[i] != Move::Ascend,
    decreases ks.len(),
{
    if ks.len() > 0 {
        lemma_no_ascend(ks.drop_last());
    }
}

/// A walk with no move up has nothing before its last move up.
proof fn lemma_all_down(ms: Seq<Move>)
    requires
        forall|i: int| 0 <= i < ms.len() ==> ms[i] != Move::Ascend,
    ensures
        through_last_ascend(ms).len() == 0,
    decreases ms.len(),
{
    if ms.len() > 0 {
        lemma_all_down(ms.drop_last());
    }
}

/// An absolute path that holds no `..` always passes the containment
/// analysis.
pub proof fn lemma_without_parent_dir_contained(ks: Seq<ComponentKind>)
    requires
        starts_at_root(ks),
        without_parent_dir(ks),
    ensures
        containment_of(ks) is Ok,
{
    lemma_no_ascend(ks);
    lemma_all_down(moves_of(ks));
}

/// The depth after `n` moves down is `n`.
proof fn lemma_depth_of_descents(n: nat)
    ensures
        depth(descents(n)) == n,
    decreases n,
{
    if n > 0 {
        assert(descents(n).drop_last() =~= descents((n - 1) as nat));
        lemma_depth_of_descents((n - 1) as nat);
    }
}

/// The depth after `down` moves down and `up` moves up is their difference.
proof fn lemma_depth_down_then_up(down: nat, up: nat)
    ensures
        depth(descents(down) + ascents(up)) == down - up,
    decreases up,
{
    if up == 0 {
        assert(descents(down) + ascents(0) =~= descents(down));
        lemma_depth_of_descents(down);
    } else {
        assert((descents(down) + ascents(up)).drop_last() =~= descents(down) + ascents(
            (up - 1) as nat,
        ));
        lemma_depth_down_then_up(down, (up - 1) as nat);
    }
}

/// A path that goes `down` levels down and then `up` levels up is judged to
/// leave the root exactly where it goes up more than it went down. So `..`
/// at the root leaves it, two down and two up stay within it, and three down
/// and four up leave it.
pub proof fn lemma_down_then_up(down: nat, up: nat)
    ensures
        escapes_root(descents(down) + ascents(up)) <==> up > down,
{
    let ms = descents(down) + ascents(up);
    if up == 0 {
        assert(ms =~= descents(down));
        lemma_all_down(ms);
    } else {
        assert(ms.last() == Move::Ascend);
        lemma_depth_down_then_up(down, up);
    }
}

/// What is looked at is the walk up to its last move up: a beginning of
/// the walk that ends in an `Ascend` after which none follows, or nothing
/// where the walk never goes up.
pub proof fn lemma_through_last_ascend(ms: Seq<Move>)
    ensures
        through_last_ascend(ms).len() <= ms.len(),
        through_last_ascend(ms) == ms.take(through_last_ascend(ms).len() as int),
        through_last_ascend(ms).len() > 0 ==> through_last_ascend(ms).last() == Move::Ascend,
        forall|j: int| through_last_ascend(ms).len() <= j < ms.len() ==> ms[j] != Move::Ascend,
    decreases ms.len(),
{
    if ms.len() == 0 || ms.last() == Move::Ascend {
        assert(ms.take(ms.len() as int) =~= ms);
    } else {
        lemma_through_last_ascend(ms.drop_last());
        let k = through_last_ascend(ms.drop_last()).len() as int;
        assert(ms.drop_last().take(k) =~= ms.take(k));
        assert forall|j: int| k <= j < ms.len() implies ms[j] != Move::Ascend by {
            if j < ms.len() - 1 {
                assert(ms.drop_last()[j] == ms[j]);
            }
        }
    }
}

/// The analysis raises no false alarm: a walk that is judged to leave the
/// root does stand above it at some point.
pub proof fn lemma_escape_is_real(ms: Seq<Move>)
    requires
        escapes_root(ms),
    ensures
        exists|k: int| 0 <= k <= ms.len() && depth(#[trigger] ms.take(k)) < 0,
{
    lemma_through_last_ascend(ms);
    let k = through_last_ascend(ms).len() as int;
    assert(depth(ms.take(k)) < 0);
}

/// Moves down at the end of a walk do not change the judgement.
pub proof fn lemma_trailing_descents_ignored(ms: Seq<Move>, n: nat)
    ensures
        escapes_root(ms + descents(n)) == escapes_root(ms),
    decreases n,
{
    if n == 0 {
        assert(ms + descents(0) =~= ms);
    } else {
        let longer = ms + descents(n);
        assert(longer.last() == Move::Descend);
        assert(longer.drop_last() =~= ms + descents((n - 1) as nat));
        lemma_trailing_descents_ignored(ms, (n - 1) as nat);
    }
}

/// `c` is a segment of `s` at or after position `from`: a run of
/// non-separator characters that cannot be made longer on either side, with
/// the kind that its text gives it.
pub open spec fn is_maximal_run(s: Seq<char>, from: int, c: ComponentView) -> bool {
    &&& from <= c.start < c.end <= s.len()
    &&& forall|j: int| c.start <= j < c.end ==> !is_separator(#[trigger] s[j])
    &&& (c.start == from || is_separator(s[c.start - 1]))
    &&& (c.end == s.len() || is_separator(s[c.end]))
    &&& c.kind == segment_kind(s, c.start, c.end)
}

/// Position `j` of the text lies in one of the components `cs`.
pub open spec fn covered(cs: Seq<ComponentView>, j: int) -> bool {
    exists|k: int| 0 <= k < cs.len() && (#[trigger] cs[k]).start <= j < cs[k].end
}

/// The segments of a path from position `i` on are exactly its maximal
/// runs of non-separator characters: each segment is such a run, they come
/// from left to right with at least one separator between two of them, and
/// every character from `i` on that is no separator lies in one of them.
pub proof fn lemma_segments_are_the_runs(s: Seq<char>, i: int)
    requires
        0 <= i <= s.len(),
    ensures
        forall|k: int|
            0 <= k < segments(s, i).len() ==> is_maximal_run(s, i, #[trigger] segments(s, i)[k]),
        forall|k: int, l: int|
            0 <= k < l < segments(s, i).len() ==> (#[trigger] segments(s, i)[k]).end < (
            #[trigger] segments(s, i)[l]).start,
        forall|j: int| i <= j < s.len() && !is_separator(s[j]) ==> covered(segments(s, i), j),
    decreases s.len() - i,
{
    let here = segments(s, i);
    if i < s.len() {
        if is_separator(s[i]) {
            lemma_segments_are_the_runs(s, i + 1);
            assert forall|k: int| 0 <= k < here.len() implies is_maximal_run(
                s,
                i,
                #[trigger] here[k],
            ) by {
                assert(is_maximal_run(s, i + 1, segments(s, i + 1)[k]));
            }
            assert forall|j: int| i <= j < s.len() && !is_separator(s[j]) implies covered(
                here,
                j,
            ) by {
                assert(covered(segments(s, i + 1), j));
            }
        } else {
            let e = run_end(s, i);
            lemma_run_end_bounds(s, i);
            lemma_segments_are_the_runs(s, e);
            let rest = segments(s, e);
            assert(here.len() == rest.len() + 1);
            assert forall|k: int| 0 <= k < here.len() implies is_maximal_run(
                s,
                i,
                #[trigger] here[k],
            ) by {
                if k > 0 {
                    assert(here[k] == rest[k - 1]);
                    assert(is_maximal_run(s, e, rest[k - 1]));
                }
            }
            assert forall|k: int, l: int| 0 <= k < l < here.len() implies (#[trigger] here[k]).end
                < (#[trigger] here[l]).start by {
                assert(here[l] == rest[l - 1]);
                assert(is_maximal_run(s, e, rest[l - 1]));
                if k > 0 {
                    assert(here[k] == rest[k - 1]);
                }
            }
            assert forall|j: int| i <= j < s.len() && !is_separator(s[j]) implies covered(
                here,
                j,
            ) by {
                if j < e {
                    assert(here[0].start <= j < here[0].end);
                } else {
                    assert(covered(rest, j));
                    let k = choose|k: int| 0 <= k < rest.len() && (#[trigger] rest[k]).start <= j
                        < rest[k].end;
                    assert(here[k + 1] == rest[k]);
                }
            }
        }
    }
}

/// The components of a path lie within it, none is empty, and they come
/// from left to right without overlap.
pub proof fn lemma_components_in_order(s: Seq<char>)
    ensures
        forall|k: int|
            0 <= k < components_of(s).len() ==> 0 <= (#[trigger] components_of(s)[k]).start
                < components_of(s)[k].end <= s.len(),
        forall|k: int, l: int|
            0 <= k < l < components_of(s).len() ==> (#[trigger] components_of(s)[k]).end <= (
            #[trigger] components_of(s)[l]).start,
{
    let p = prefix_len(s);
    if has_device_prefix(s) {
        lemma_run_end_bounds(s, 4);
    }
    lemma_segments_are_the_runs(s, p);
    let cs = components_of(s);
    let segs = segments(s, p);
    let lead = cs.len() - segs.len();
    assert(0 <= lead <= 2);
    assert forall|k: int| lead <= k < cs.len() implies #[trigger] cs[k] == segs[k - lead] by {}
    assert forall|k: int| 0 <= k < cs.len() implies 0 <= (#[trigger] cs[k]).start < cs[k].end
        <= s.len() by {
        if k >= lead {
            assert(is_maximal_run(s, p, segs[k - lead]));
        }
    }
    assert forall|k: int, l: int| 0 <= k < l < cs.len() implies (#[trigger] cs[k]).end <= (
    #[trigger] cs[l]).start by {
        if l >= lead {
            assert(is_maximal_run(s, p, segs[l - lead]));
            if has_root(s) {
                assert(is_separator(s[p]));
                assert(segs[l - lead].start != p);
            }
        }
        if k >= lead {
            assert(is_maximal_run(s, p, segs[k - lead]));
        }
    }
}

/// Segments are never prefixes or root markers.
proof fn lemma_segment_kinds(s: Seq<char>, i: int)
    requires
        0 <= i <= s.len(),
    ensures
        forall|k: int|
            0 <= k < segments(s, i).len() ==> {
                let kind = (#[trigger] segments(s, i)[k]).kind;
                kind != ComponentKind::Prefix && kind != ComponentKind::RootMarker
            },
    decreases s.len() - i,
{
    if i < s.len() {
        if is_separator(s[i]) {
            lemma_segment_kinds(s, i + 1);
        } else {
            lemma_run_end_bounds(s, i);
            lemma_segment_kinds(s, run_end(s, i));
        }
    }
}

/// A path has the leading shape of an absolute path exactly where it is
/// absolute: where a separator comes first, or directly after its prefix.
pub proof fn lemma_absolute_shape(s: Seq<char>)
    ensures
        shape_of(kinds(components_of(s))) is Ok <==> has_root(s),
{
    let p = prefix_len(s);
    if has_device_prefix(s) {
        lemma_run_end_bounds(s, 4);
    }
    lemma_segment_kinds(s, p);
    let cs = components_of(s);
    let ks = kinds(cs);
    if p > 0 {
        assert(cs[0].kind == ComponentKind::Prefix);
        if has_root(s) {
            assert(cs[1].kind == ComponentKind::RootMarker);
        } else if cs.len() >= 2 {
            assert(cs[1] == segments(s, p)[0]);
        }
    } else {
        if has_root(s) {
            assert(cs[0].kind == ComponentKind::RootMarker);
        } else if cs.len() >= 1 {
            assert(cs[0] == segments(s, p)[0]);
        }
    }
}

/// A name is legal exactly where it does not end in a dot or a space, holds
/// no forbidden character and is no reserved device name.
pub proof fn lemma_legal_name(name: Seq<char>)
    ensures
        is_legal_name(name) <==> {
            &&& !(name.len() > 0 && is_illegal_at_end(name.last()))
            &&& !is_reserved_name(name)
            &&& forall|i: int| 0 <= i < name.len() ==> !is_forbidden_char(name[i])
        },
{
    lemma_first_forbidden(name, 0);
}

/// What a violation reports lies within the name and is not empty.
pub proof fn lemma_violation_within(name: Seq<char>)
    requires
        violation_of(name) is Some,
    ensures
        0 <= violation_of(name).unwrap().start < violation_of(name).unwrap().end <= name.len(),
{
    lemma_first_forbidden(name, 0);
}

/// What a name that breaks a rule is reported with.
pub open spec fn reported_part(name: Seq<char>) -> Seq<char> {
    name.subrange(violation_of(name).unwrap().start, violation_of(name).unwrap().end)
}

/// The component at position `k` is the first name among `cs` that breaks
/// a rule.
pub open spec fn is_first_illegal(s: Seq<char>, cs: Seq<ComponentView>, k: int) -> bool {
    &&& 0 <= k < cs.len()
    &&& cs[k].kind == ComponentKind::Normal
    &&& !is_legal_name(text_of(s, cs[k]))
    &&& forall|j: int|
        0 <= j < k && cs[j].kind == ComponentKind::Normal ==> is_legal_name(
            text_of(s, #[trigger] cs[j]),
        )
}

/// Nothing is reported of a path exactly where each of its names is legal;
/// else the first name from the left that breaks a rule is reported, with
/// the part that breaks it. Components that are no names are passed over.
pub proof fn lemma_first_illegal_part(s: Seq<char>, cs: Seq<ComponentView>)
    ensures
        first_illegal_part(s, cs) is None <==> forall|k: int|
            0 <= k < cs.len() && cs[k].kind == ComponentKind::Normal ==> is_legal_name(
                text_of(s, #[trigger] cs[k]),
            ),
        first_illegal_part(s, cs) is Some ==> exists|k: int|
            is_first_illegal(s, cs, k) && first_illegal_part(s, cs) == Some(
                reported_part(text_of(s, cs[k])),
            ),
    decreases cs.len(),
{
    if cs.len() > 0 {
        let rest = cs.drop_first();
        lemma_first_illegal_part(s, rest);
        let name = text_of(s, cs[0]);
        if cs[0].kind == ComponentKind::Normal && violation_of(name) is Some {
            assert(is_first_illegal(s, cs, 0));
        } else {
            assert forall|k: int| 0 <= k < rest.len() implies rest[k] == cs[k + 1] by {}
            if first_illegal_part(s, rest) is Some {
                let k = choose|k: int|
                    is_first_illegal(s, rest, k) && first_illegal_part(s, rest) == Some(
                        reported_part(text_of(s, rest[k])),
                    );
                assert forall|j: int|
                    0 <= j < k + 1 && cs[j].kind == ComponentKind::Normal implies is_legal_name(
                    text_of(s, #[trigger] cs[j]),
                ) by {
                    if j > 0 {
                        assert(rest[j - 1] == cs[j]);
                    }
                }
                assert(is_first_illegal(s, cs, k + 1));
            } else {
                assert forall|k: int|
                    0 <= k < cs.len() && cs[k].kind == ComponentKind::Normal implies is_legal_name(
                    text_of(s, #[trigger] cs[k]),
                ) by {
                    if k > 0 {
                        assert(rest[k - 1] == cs[k]);
                    }
                }
            }
        }
    }
}

/// Under a policy that does not enforce the name rules no name is turned
/// down, and no validation fails with `IllegalName`.
pub proof fn lemma_policy_off(
    name: Seq<char>,
    path: Seq<char>,
    mode: ValidationMode,
    origin: Seq<char>,
    probe: ProbeReport,
)
    ensures
        name_check_of(name, ValidationPolicy { enforce_cross_platform_names: false }) is Ok,
        outcome(
            path,
            mode,
            ValidationPolicy { enforce_cross_platform_names: false },
            origin,
            probe,
        ) matches Err(f) ==> f.reason != FailureReason::IllegalName,
{
}

/// Validating a path for a directory tree a second time gives what the
/// first time gave, whatever has changed on disk in between, as long as the
/// path is absolute or the origin can be read as before. In particular a
/// path that passed passes again.
pub proof fn lemma_directory_tree_repeatable(
    path: Seq<char>,
    policy: ValidationPolicy,
    origin: Seq<char>,
    before: ProbeReport,
    after: ProbeReport,
)
    requires
        has_root(path) || before.origin_accessible == after.origin_accessible,
    ensures
        outcome(path, ValidationMode::ValidDirTree, policy, origin, before) == outcome(
            path,
            ValidationMode::ValidDirTree,
            policy,
            origin,
            after,
        ),
{
}

/// Two validations of the same path, in the same mode, under the same
/// policy and against the same findings end alike: both pass, or both fail
/// for the same reason and about the same text.
pub proof fn lemma_validation_repeatable<T>(
    first: Result<T, Failure>,
    second: Result<T, Failure>,
    expected: Result<(), FailureView>,
)
    requires
        agrees(first, expected),
        agrees(second, expected),
    ensures
        first is Ok <==> second is Ok,
        first is Err ==> first->Err_0@ == second->Err_0@,
{
}

/// `name` has a dot at position `i` and none after it.
pub open spec fn is_last_dot(name: Seq<char>, i: int) -> bool {
    &&& 0 <= i < name.len()
    &&& name[i] == '.'
    &&& forall|j: int| i < j < name.len() ==> name[j] != '.'
}

/// Where a name holds a dot after its first character, among the
/// characters up to position `k`, the last such dot can be named.
proof fn lemma_last_dot_up_to(name: Seq<char>, k: int) -> (i: int)
    requires
        0 < k < name.len(),
        exists|d: int| 0 < d <= k && name[d] == '.',
    ensures
        0 < i <= k,
        name[i] == '.',
        forall|j: int| i < j <= k ==> name[j] != '.',
    decreases k,
{
    if name[k] == '.' {
        k
    } else {
        let d = choose|d: int| 0 < d <= k && name[d] == '.';
        assert(0 < d <= k - 1 && name[d] == '.');
        lemma_last_dot_up_to(name, k - 1)
    }
}

/// A name has an extension exactly where its last dot is neither its first
/// nor its last character: where something stands before the dot and
/// something after it.
pub proof fn lemma_extension_follows_last_dot(name: Seq<char>)
    ensures
        has_extension(name) <==> exists|i: int| 0 < i < name.len() - 1 && is_last_dot(name, i),
{
    if has_extension(name) {
        let i = lemma_last_dot_up_to(name, name.len() - 1);
        assert(is_last_dot(name, i));
    }
    if exists|i: int| 0 < i < name.len() - 1 && is_last_dot(name, i) {
        let i = choose|i: int| 0 < i < name.len() - 1 && is_last_dot(name, i);
        assert(name[i] == '.');
        assert(name[name.len() - 1] != '.');
    }
}

/// Every path but the empty one has a kind.
pub proof fn lemma_kind_total(s: Seq<char>)
    ensures
        kind_of(s) is Ok <==> s.len() > 0,
{
    lemma_components_empty(s);
}

/// An absolute path is never turned down as empty or malformed, and one
/// without `..` is never judged to leave the root.
pub proof fn lemma_absolute_path_analysis(s: Seq<char>, policy: ValidationPolicy)
    requires
        has_root(s),
    ensures
        absolute_check_of(s, policy) matches Err(f) ==> {
            &&& f.reason != FailureReason::EmptyPath
            &&& f.reason != FailureReason::MalformedAbsolutePath
            &&& (without_parent_dir(kinds(components_of(s))) ==> f.reason
                == FailureReason::IllegalName)
        },
{
    lemma_absolute_shape(s);
    if without_parent_dir(kinds(components_of(s))) {
        lemma_without_parent_dir_contained(kinds(components_of(s)));
    }
}

/// A relative path, seen from an absolute origin, is turned down for
/// leaving the root exactly where the walk along the origin and then along
/// the path is judged to leave it. So a path that climbs as many levels as
/// the origin is deep reaches the root and stays within it.
pub proof fn lemma_escape_from_origin(
    path: Seq<char>,
    origin: Seq<char>,
    policy: ValidationPolicy,
)
    requires
        has_root(origin),
        plain_root(origin),
        plainly_relative(path),
    ensures
        ({
            let said = absolute_check_of(absolute_form(path, origin), policy);
            said is Err && said->Err_0.reason == FailureReason::EscapesRoot
        }) <==> escapes_root(
            moves_of(kinds(components_of(origin))) + moves_of(kinds(components_of(path))),
        ),
{
    lemma_components_of_joined(origin, path);
    lemma_walk_of_joined(origin, path);
    lemma_absolute_shape(absolute_form(path, origin));
}

/// From an absolute origin that lies `deep` levels down, a relative path
/// that first climbs `up` levels and then goes `down` levels is turned down
/// for leaving the root exactly where it climbs more levels than the origin
/// is deep.
pub proof fn lemma_climb_from_origin(
    path: Seq<char>,
    origin: Seq<char>,
    policy: ValidationPolicy,
    deep: nat,
    up: nat,
    down: nat,
)
    requires
        has_root(origin),
        plain_root(origin),
        plainly_relative(path),
        moves_of(kinds(components_of(origin))) == descents(deep),
        moves_of(kinds(components_of(path))) == ascents(up) + descents(down),
    ensures
        ({
            let said = absolute_check_of(absolute_form(path, origin), policy);
            said is Err && said->Err_0.reason == FailureReason::EscapesRoot
        }) <==> up > deep,
{
    lemma_escape_from_origin(path, origin, policy);
    assert(descents(deep) + (ascents(up) + descents(down)) =~= (descents(deep) + ascents(up))
        + descents(down));
    lemma_trailing_descents_ignored(descents(deep) + ascents(up), down);
    lemma_down_then_up(deep, up);
}

/// A relative path is never analysed from an origin that cannot be read:
/// it fails with `InaccessibleOrigin`, about the origin, whatever the path
/// holds. An absolute path is analysed alike whatever is known of the origin.
pub proof fn lemma_origin_must_be_read(
    path: Seq<char>,
    origin: Seq<char>,
    other: Seq<char>,
    policy: ValidationPolicy,
)
    ensures
        !has_root(path) ==> relative_check_of(path, origin, false, policy) == Err::<
            (),
            FailureView,
        >(about(FailureReason::InaccessibleOrigin, origin)),
        has_root(path) ==> relative_check_of(path, origin, false, policy) == relative_check_of(
            path,
            other,
            true,
            policy,
        ),
{
}

/// The analysis of a path that may be relative is what the directory-tree
/// mode does once the path is known to name a directory: the same check of
/// the origin, no parent asked for, the same analysis of the absolute form.
pub proof fn lemma_relative_check_is_placement(
    path: Seq<char>,
    origin: Seq<char>,
    policy: ValidationPolicy,
    probe: ProbeReport,
)
    ensures
        relative_check_of(path, origin, probe.origin_accessible, policy) == placement_of(
            path,
            policy,
            origin,
            probe,
            false,
        ),
{
}

/// The part that is reported of a name breaks, taken as a name of its own,
/// the rule that the name breaks. So the rule can be read off the report.
pub proof fn lemma_reported_part_breaks_the_rule(name: Seq<char>)
    requires
        violation_of(name) is Some,
    ensures
        violation_of(reported_part(name)) is Some,
        violation_of(reported_part(name)).unwrap().rule == violation_of(name).unwrap().rule,
{
    lemma_first_forbidden(name, 0);
    let v = violation_of(name).unwrap();
    let part = reported_part(name);
    if name.len() > 0 && is_illegal_at_end(name.last()) {
        assert(part.len() == 1);
        assert(part.last() == name.last());
    } else if is_reserved_name(name) {
        assert(part =~= name);
    } else {
        assert(part.len() == 1);
        assert(part[0] == name[v.start]);
        assert(is_forbidden_char(part[0]));
        assert(first_forbidden(part, 0) == 0);
    }
}

} // verus!
