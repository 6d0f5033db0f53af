//! Root containment: does a path, read from left to right, climb above the
//! root it starts at?
//!
//! The analysis never touches the disk. It looks at the last `..` of the path
//! and asks how deep the path stands right after it: below zero, the path is
//! judged to leave the root. Segments after the last `..` only lead further
//! down and are not looked at. This is a deliberate approximation: a path that
//! dips above the root early and has come back down by its last `..` passes.

use crate::component::{kinds, views, Component, ComponentKind};
use crate::failure::FailureReason;
use vstd::prelude::*;

verus! {

/// One step of a walk along a path.
#[derive(Clone, Copy, Debug, PartialEq, Eq, Structural)]
pub enum Move {
    /// Into a named directory: one level down.
    Descend,
    /// Through `..`: one level up.
    Ascend,
}

/// The move that a component makes, if it makes one.
pub open spec fn move_of(kind: ComponentKind) -> Option<Move> {
    match kind {
        ComponentKind::Normal => Some(Move::Descend),
        ComponentKind::ParentDir => Some(Move::Ascend),
        _ => None,
    }
}

/// The moves that a sequence of components makes, in order.
pub open spec fn moves_of(ks: Seq<ComponentKind>) -> Seq<Move>
    decreases ks.len(),
{
    if ks.len() == 0 {
        Seq::empty()
    } else {
        match move_of(ks.last()) {
            Some(m) => moves_of(ks.drop_last()).push(m),
            None => moves_of(ks.drop_last()),
        }
    }
}

/// How a move changes the depth.
pub open spec fn step(m: Move) -> int {
    match m {
        Move::Descend => 1,
        Move::Ascend => -1,
    }
}

/// The depth reached after the moves `ms`, starting from 0.
pub open spec fn depth(ms: Seq<Move>) -> int
    decreases ms.len(),
{
    if ms.len() == 0 {
        0
    } else {
        depth(ms.drop_last()) + step(ms.last())
    }
}

/// The moves up to and including the last `Ascend`; none where there is no `Ascend`.
pub open spec fn through_last_ascend(ms: Seq<Move>) -> Seq<Move>
    decreases ms.len(),
{
    if ms.len() == 0 || ms.last() == Move::Ascend {
        ms
    } else {
        through_last_ascend(ms.drop_last())
    }
}

/// The walk `ms` is judged to leave the root: right after its last `Ascend`
/// it stands above the level it started at.
pub open spec fn escapes_root(ms: Seq<Move>) -> bool {
    depth(through_last_ascend(ms)) < 0
}

/// The path starts at a root: a root marker comes first, or directly after a prefix.
pub open spec fn starts_at_root(ks: Seq<ComponentKind>) -> bool {
    ||| ks.len() >= 1 && ks[0] == ComponentKind::RootMarker
    ||| ks.len() >= 2 && ks[0] == ComponentKind::Prefix && ks[1] == ComponentKind::RootMarker
}

/// What the leading shape of a path says: a path without components is
/// empty, one that does not start at a root is malformed.
pub open spec fn shape_of(ks: Seq<ComponentKind>) -> Result<(), FailureReason> {
    if ks.len() == 0 {
        Err(FailureReason::EmptyPath)
    } else if !starts_at_root(ks) {
        Err(FailureReason::MalformedAbsolutePath)
    } else {
        Ok(())
    }
}

/// What the containment analysis says of the components `ks` of a path.
pub open spec fn containment_of(ks: Seq<ComponentKind>) -> Result<(), FailureReason> {
    match shape_of(ks) {
        Err(reason) => Err(reason),
        Ok(_) => if escapes_root(moves_of(ks)) {
            Err(FailureReason::EscapesRoot)
        } else {
            Ok(())
        },
    }
}

/// The moves that the components make, in order.
pub fn moves(components: &[Component]) -> (ms: Vec<Move>)
    ensures
        ms@ == moves_of(kinds(views(components@))),
{
    let ghost ks = kinds(views(components@));
    let n = components.len();
    let mut ms: Vec<Move> = Vec::new();
    let mut i: usize = 0;
    assert(ks.take(0) =~= Seq::<ComponentKind>::empty());
    while i < n
        invariant
            i <= n,
            n == components.len(),
            ks == kinds(views(components@)),
            ms@ == moves_of(ks.take(i as int)),
        decreases n - i,
    {
        assert(ks.take(i + 1).drop_last() =~= ks.take(i as int));
        assert(ks.take(i + 1).last() == components@[i as int].kind);
        match components[i].kind {
            ComponentKind::Normal => ms.push(Move::Descend),
            ComponentKind::ParentDir => ms.push(Move::Ascend),
            _ => {},
        }
        i += 1;
    }
    assert(ks.take(n as int) =~= ks);
    ms
}

/// Whether the walk is judged to leave the root.
pub fn escapes(ms: &[Move]) -> (b: bool)
    ensures
        b == escapes_root(ms@),
{
    let mut n = ms.len();
    assert(ms@.take(n as int) =~= ms@);
    while n > 0 && ms[n - 1] != Move::Ascend
        invariant
            n <= ms.len(),
            through_last_ascend(ms@) == through_last_ascend(ms@.take(n as int)),
        decreases n,
    {
        assert(ms@.take(n as int).drop_last() =~= ms@.take(n - 1));
        n -= 1;
    }
    let mut down: usize = 0;
    let mut up: usize = 0;
    let mut i: usize = 0;
    assert(ms@.take(0) =~= Seq::<Move>::empty());
    while i < n
        invariant
            i <= n <= ms.len(),
            down + up == i,
            down - up == depth(ms@.take(i as int)),
        decreases n - i,
    {
        assert(ms@.take(i + 1).drop_last() =~= ms@.take(i as int));
        match ms[i] {
            Move::Descend => down += 1,
            Move::Ascend => up += 1,
        }
        i += 1;
    }
    up > down
}

/// Checks that the components start as those of an absolute path do: with
/// a root marker, or with a prefix and a root marker.
///
/// Fails with `EmptyPath` where there is no component and with
/// `MalformedAbsolutePath` for any other start.
pub fn leading_shape(components: &[Component]) -> (r: Result<(), FailureReason>)
    ensures
        r == shape_of(kinds(views(components@))),
{
    let n = components.len();
    if n == 0 {
        return Err(FailureReason::EmptyPath);
    }
    let rooted = match components[0].kind {
        ComponentKind::RootMarker => true,
        ComponentKind::Prefix => n >= 2 && components[1].kind == ComponentKind::RootMarker,
        _ => false,
    };
    if rooted {
        Ok(())
    } else {
        Err(FailureReason::MalformedAbsolutePath)
    }
}

/// The containment analysis of an absolute path, given by its components.
///
/// Fails with `EmptyPath` where there is no component, with
/// `MalformedAbsolutePath` where the path does not start at a root, and with
/// `EscapesRoot` where the walk is judged to leave the root.
pub fn check_containment(components: &[Component]) -> (r: Result<(), FailureReason>)
    ensures
        r == containment_of(kinds(views(components@))),
{
    match leading_shape(components) {
        Err(reason) => Err(reason),
        Ok(_) => {
            let ms = moves(components);
            if escapes(ms.as_slice()) {
                Err(FailureReason::EscapesRoot)
            } else {
                Ok(())
            }
        },
    }
}

} // verus!
