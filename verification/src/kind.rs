//! Path kinds: does a path name a file or a directory?
//!
//! The answer is read off the text alone, whatever is on disk: a path names a
//! file where its last component is a name with an extension.

use crate::component::{
    components_of, lemma_components_empty, parse_components, text_of, views, within, Component,
    ComponentKind,
};
use crate::failure::FailureReason;
use crate::text::chars_of;
use vstd::prelude::*;
use vstd::slice::slice_subrange;

verus! {

/// What a path is meant to name.
#[derive(Clone, Copy, Debug, PartialEq, Eq, Structural)]
pub enum PathKind {
    /// A file: the last component has an extension.
    FileTarget,
    /// A directory: it has none.
    DirectoryTarget,
}

/// `name` has an extension: a dot that is not its first character, with
/// something other than a dot at the end of the name. So `.hidden` and
/// `name.` have none, `.hidden.bin` has one.
pub open spec fn has_extension(name: Seq<char>) -> bool {
    &&& name.len() > 0
    &&& name.last() != '.'
    &&& exists|i: int| 0 < i < name.len() && name[i] == '.'
}

/// The kind of the path `s`; `EmptyPath` where it has no component.
pub open spec fn kind_of(s: Seq<char>) -> Result<PathKind, FailureReason> {
    let cs = components_of(s);
    if cs.len() == 0 {
        Err(FailureReason::EmptyPath)
    } else if cs.last().kind == ComponentKind::Normal && has_extension(text_of(s, cs.last())) {
        Ok(PathKind::FileTarget)
    } else {
        Ok(PathKind::DirectoryTarget)
    }
}

/// Whether `name` has an extension.
pub fn extension_present(name: &[char]) -> (b: bool)
    ensures
        b == has_extension(name@),
{
    let n = name.len();
    if n == 0 || name[n - 1] == '.' {
        return false;
    }
    let mut i: usize = 1;
    while i < n
        invariant
            1 <= i <= n,
            n == name.len(),
            name@.last() != '.',
            forall|j: int| 0 < j < i ==> name@[j] != '.',
        decreases n - i,
    {
        if name[i] == '.' {
            return true;
        }
        i += 1;
    }
    false
}

/// The kind of a path, given its characters and its components.
pub(crate) fn classify_components(s: &[char], cs: &[Component]) -> (r: Result<
    PathKind,
    FailureReason,
>)
    requires
        views(cs@) == components_of(s@),
        within(cs@, s.len() as int),
    ensures
        r == kind_of(s@),
{
    let n = cs.len();
    assert(views(cs@).len() == n);
    if n == 0 {
        return Err(FailureReason::EmptyPath);
    }
    let last = cs[n - 1];
    assert(views(cs@).last() == last@);
    if last.kind == ComponentKind::Normal && extension_present(
        slice_subrange(s, last.start, last.end),
    ) {
        Ok(PathKind::FileTarget)
    } else {
        Ok(PathKind::DirectoryTarget)
    }
}

/// Classifies a path as a file target or a directory target.
///
/// Every path but the empty one has a kind; the empty path fails with
/// `EmptyPath`.
pub fn classify(path: &str) -> (r: Result<PathKind, FailureReason>)
    ensures
        r == kind_of(path@),
        r is Ok <==> path@.len() > 0,
        r is Err ==> r == Err::<PathKind, _>(FailureReason::EmptyPath),
{
    let chars = chars_of(path);
    let cs = parse_components(chars.as_slice());
    proof {
        lemma_components_empty(path@);
    }
    classify_components(chars.as_slice(), cs.as_slice())
}

} // verus!
