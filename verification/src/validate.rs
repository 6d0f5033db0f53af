//! The validator: for the mode asked, runs the checks of that mode in their
//! order and stops at the first that fails.
//!
//! | mode           | checks, in order                                              |
//! |----------------|---------------------------------------------------------------|
//! | `Exists`       | the path exists                                               |
//! | `NotExists`    | the path does not exist                                       |
//! | `ValidFile`    | names a file; writable if it exists; origin readable if the   |
//! |                | path is relative; parent exists; stays below the root; names  |
//! | `ValidDir`     | names a directory; origin; parent exists; root; names         |
//! | `ValidDirTree` | names a directory; origin; root; names                        |
//!
//! The validator reads no disk itself. What it needs to know of the
//! filesystem comes in as a [`ProbeReport`].

use crate::absolute::{absolute_form, has_root, is_absolute, join, parent, parent_of};
use crate::component::{
    components_of, kinds, parse_components, views, within, Component, ComponentView,
};
use crate::containment::{escapes, escapes_root, leading_shape, moves, moves_of, shape_of};
use crate::failure::{
    about, agrees, bare, Failure, FailureReason, FailureView, ValidationResult,
};
use crate::kind::{classify, kind_of, PathKind};
use crate::names::{find_illegal_component, first_illegal_part};
use crate::policy::{ProbeReport, ValidationMode, ValidationPolicy};
use crate::text::chars_of;
use vstd::prelude::*;

verus! {

/// What the walk and the names of the components `cs` of the path `s` say:
/// `EscapesRoot`, about the whole path, where the walk is judged to leave the
/// root; else, under a policy that enforces the name rules, `IllegalName`
/// about the first part of the path that breaks one.
pub open spec fn components_check_of(
    s: Seq<char>,
    cs: Seq<ComponentView>,
    policy: ValidationPolicy,
) -> Result<(), FailureView> {
    if escapes_root(moves_of(kinds(cs))) {
        Err(about(FailureReason::EscapesRoot, s))
    } else if policy.enforce_cross_platform_names && first_illegal_part(s, cs) is Some {
        Err(about(FailureReason::IllegalName, first_illegal_part(s, cs).unwrap()))
    } else {
        Ok(())
    }
}

/// What the analysis of the absolute path `s` says: first its leading shape,
/// then its walk, then its names.
pub open spec fn absolute_check_of(s: Seq<char>, policy: ValidationPolicy) -> Result<
    (),
    FailureView,
> {
    match shape_of(kinds(components_of(s))) {
        Err(reason) => Err(bare(reason)),
        Ok(_) => components_check_of(s, components_of(s), policy),
    }
}

/// What the analysis of a path that may be relative says: a relative path
/// needs an origin that can be read, else it fails with `InaccessibleOrigin`
/// about the origin; then the absolute form is analysed.
pub open spec fn relative_check_of(
    path: Seq<char>,
    origin: Seq<char>,
    origin_accessible: bool,
    policy: ValidationPolicy,
) -> Result<(), FailureView> {
    if !has_root(path) && !origin_accessible {
        Err(about(FailureReason::InaccessibleOrigin, origin))
    } else {
        absolute_check_of(absolute_form(path, origin), policy)
    }
}

/// What the check for a parent says of the path `s`: `MissingParent`, about
/// the parent, where the path has a parent and the probe did not find it.
pub open spec fn parent_check_of(s: Seq<char>, probe: ProbeReport) -> Result<(), FailureView> {
    match parent_of(s) {
        Some(p) => if probe.parent_exists {
            Ok(())
        } else {
            Err(about(FailureReason::MissingParent, p))
        },
        None => Ok(()),
    }
}

/// What the checks on an absolute path say: its parent must have been
/// found, where `needs_parent` asks for it; then the path is analysed.
pub open spec fn located_check_of(
    full: Seq<char>,
    policy: ValidationPolicy,
    probe: ProbeReport,
    needs_parent: bool,
) -> Result<(), FailureView> {
    if needs_parent && parent_check_of(full, probe) is Err {
        parent_check_of(full, probe)
    } else {
        absolute_check_of(full, policy)
    }
}

/// What placing `path` says: a relative path needs an origin that can be
/// read, and is joined to it; then the absolute form is checked.
pub open spec fn placement_of(
    path: Seq<char>,
    policy: ValidationPolicy,
    origin: Seq<char>,
    probe: ProbeReport,
    needs_parent: bool,
) -> Result<(), FailureView> {
    if !has_root(path) && !probe.origin_accessible {
        Err(about(FailureReason::InaccessibleOrigin, origin))
    } else {
        located_check_of(absolute_form(path, origin), policy, probe, needs_parent)
    }
}

/// What the `Exists` mode says.
pub open spec fn exists_outcome(probe: ProbeReport) -> Result<(), FailureView> {
    if probe.exists {
        Ok(())
    } else {
        Err(bare(FailureReason::NotFound))
    }
}

/// What the `NotExists` mode says.
pub open spec fn not_exists_outcome(probe: ProbeReport) -> Result<(), FailureView> {
    if probe.exists {
        Err(bare(FailureReason::AlreadyExists))
    } else {
        Ok(())
    }
}

/// What the `ValidFile` mode says.
pub open spec fn valid_file_outcome(
    path: Seq<char>,
    policy: ValidationPolicy,
    origin: Seq<char>,
    probe: ProbeReport,
) -> Result<(), FailureView> {
    match kind_of(path) {
        Err(reason) => Err(bare(reason)),
        Ok(PathKind::DirectoryTarget) => Err(bare(FailureReason::WrongKind)),
        Ok(PathKind::FileTarget) => if probe.exists && !probe.writable {
            Err(bare(FailureReason::ReadOnly))
        } else {
            placement_of(path, policy, origin, probe, true)
        },
    }
}

/// What the `ValidDir` and `ValidDirTree` modes say; only the first asks for
/// the parent.
pub open spec fn directory_outcome(
    path: Seq<char>,
    policy: ValidationPolicy,
    origin: Seq<char>,
    probe: ProbeReport,
    needs_parent: bool,
) -> Result<(), FailureView> {
    match kind_of(path) {
        Err(reason) => Err(bare(reason)),
        Ok(PathKind::FileTarget) => Err(bare(FailureReason::WrongKind)),
        Ok(PathKind::DirectoryTarget) => placement_of(path, policy, origin, probe, needs_parent),
    }
}

/// What validating `path` in `mode` says.
pub open spec fn outcome(
    path: Seq<char>,
    mode: ValidationMode,
    policy: ValidationPolicy,
    origin: Seq<char>,
    probe: ProbeReport,
) -> Result<(), FailureView> {
    match mode {
        ValidationMode::Exists => exists_outcome(probe),
        ValidationMode::NotExists => not_exists_outcome(probe),
        ValidationMode::ValidFile => valid_file_outcome(path, policy, origin, probe),
        ValidationMode::ValidDir => directory_outcome(path, policy, origin, probe, true),
        ValidationMode::ValidDirTree => directory_outcome(path, policy, origin, probe, false),
    }
}

/// Checks the walk and the names of a path that is given with its
/// components.
///
/// Fails with `EscapesRoot`, about the whole path, where the walk is judged
/// to leave the root. Else, under a policy that enforces the name rules,
/// fails with `IllegalName` about the first part of the path that breaks one.
pub fn try_absolute_components(
    path: &str,
    components: &[Component],
    policy: ValidationPolicy,
) -> (r: Result<(), Failure>)
    requires
        within(components@, path@.len() as int),
    ensures
        agrees(r, components_check_of(path@, views(components@), policy)),
{
    let move_history = moves(components);
    if escapes(move_history.as_slice()) {
        return Err(Failure::with_text(FailureReason::EscapesRoot, path.to_owned()));
    }
    if policy.enforce_cross_platform_names {
        let chars = chars_of(path);
        match find_illegal_component(chars.as_slice(), components) {
            Some((from, to)) => {
                let part = path.substring_char(from, to);
                return Err(Failure::with_text(FailureReason::IllegalName, part.to_owned()));
            },
            None => {},
        }
    }
    Ok(())
}

/// Analyses an absolute path.
///
/// Fails with `EmptyPath` where the path is empty, with
/// `MalformedAbsolutePath` where it does not start at a root, with
/// `EscapesRoot` where its walk is judged to leave the root and, under a
/// policy that enforces the name rules, with `IllegalName` where a name
/// breaks one; in this order.
pub fn try_absolute(path: &str, policy: ValidationPolicy) -> (r: Result<(), Failure>)
    ensures
        agrees(r, absolute_check_of(path@, policy)),
{
    let chars = chars_of(path);
    let components = parse_components(chars.as_slice());
    match leading_shape(components.as_slice()) {
        Err(reason) => Err(Failure::new(reason)),
        Ok(_) => try_absolute_components(path, components.as_slice(), policy),
    }
}

/// Analyses a path that may be relative to `origin`.
///
/// An absolute path is analysed as `try_absolute` does, and the origin is
/// not looked at. A relative path fails with `InaccessibleOrigin`, about the
/// origin, where `origin_accessible` says that the origin cannot be read;
/// else it is joined to the origin and the joined path is analysed.
pub fn try_valid(
    path: &str,
    origin: &str,
    origin_accessible: bool,
    policy: ValidationPolicy,
) -> (r: Result<(), Failure>)
    ensures
        agrees(r, relative_check_of(path@, origin@, origin_accessible, policy)),
{
    if is_absolute(path) {
        try_absolute(path, policy)
    } else if !origin_accessible {
        Err(Failure::with_text(FailureReason::InaccessibleOrigin, origin.to_owned()))
    } else {
        let full = join(origin, path);
        try_absolute(full.as_str(), policy)
    }
}

/// Checks that the parent of a path, if it has one, was found.
///
/// Fails with `MissingParent`, about the parent, where the path has a parent
/// and the probe did not find it.
pub fn try_parent_exists(path: &str, probe: &ProbeReport) -> (r: Result<(), Failure>)
    ensures
        agrees(r, parent_check_of(path@, *probe)),
{
    match parent(path) {
        None => Ok(()),
        Some(p) => {
            if probe.parent_exists {
                Ok(())
            } else {
                Err(Failure::with_text(FailureReason::MissingParent, p))
            }
        },
    }
}

/// Checks an absolute path: for its parent, where `needs_parent` asks for
/// it, and then as `try_absolute` does.
fn locate(
    full: &str,
    policy: ValidationPolicy,
    probe: &ProbeReport,
    needs_parent: bool,
) -> (r: Result<(), Failure>)
    ensures
        agrees(r, located_check_of(full@, policy, *probe, needs_parent)),
{
    if needs_parent {
        match try_parent_exists(full, probe) {
            Err(f) => {
                return Err(f);
            },
            Ok(_) => {},
        }
    }
    try_absolute(full, policy)
}

/// Places a path: the part that the file and directory modes share.
fn place(
    path: &str,
    policy: ValidationPolicy,
    origin: &str,
    probe: &ProbeReport,
    needs_parent: bool,
) -> (r: Result<(), Failure>)
    ensures
        agrees(r, placement_of(path@, policy, origin@, *probe, needs_parent)),
{
    if is_absolute(path) {
        locate(path, policy, probe, needs_parent)
    } else if !probe.origin_accessible {
        Err(Failure::with_text(FailureReason::InaccessibleOrigin, origin.to_owned()))
    } else {
        let full = join(origin, path);
        locate(full.as_str(), policy, probe, needs_parent)
    }
}

/// The `Exists` mode: the path must exist, else `NotFound`.
pub fn must_exist<'a>(path: &'a str, probe: &ProbeReport) -> (r: ValidationResult<'a>)
    ensures
        agrees(r, exists_outcome(*probe)),
        r matches Ok(p) ==> p@ == path@,
{
    if probe.exists {
        Ok(path)
    } else {
        Err(Failure::new(FailureReason::NotFound))
    }
}

/// The `NotExists` mode: the path must not exist, else `AlreadyExists`.
pub fn must_not_exist<'a>(path: &'a str, probe: &ProbeReport) -> (r: ValidationResult<'a>)
    ensures
        agrees(r, not_exists_outcome(*probe)),
        r matches Ok(p) ==> p@ == path@,
{
    if probe.exists {
        Err(Failure::new(FailureReason::AlreadyExists))
    } else {
        Ok(path)
    }
}

/// The `ValidFile` mode: the path is fit to create or overwrite a file at.
///
/// In this order: the path names a file (else `WrongKind`, or `EmptyPath`
/// for the empty path); if it exists, it can be written (else `ReadOnly`);
/// if it is relative, the origin can be read (else `InaccessibleOrigin`);
/// the parent of its absolute form exists (else `MissingParent`); its
/// absolute form passes `try_absolute`.
pub fn valid_file<'a>(
    path: &'a str,
    policy: ValidationPolicy,
    origin: &str,
    probe: &ProbeReport,
) -> (r: ValidationResult<'a>)
    ensures
        agrees(r, valid_file_outcome(path@, policy, origin@, *probe)),
        r matches Ok(p) ==> p@ == path@,
{
    match classify(path) {
        Err(reason) => Err(Failure::new(reason)),
        Ok(PathKind::DirectoryTarget) => Err(Failure::new(FailureReason::WrongKind)),
        Ok(PathKind::FileTarget) => {
            if probe.exists && !probe.writable {
                return Err(Failure::new(FailureReason::ReadOnly));
            }
            match place(path, policy, origin, probe, true) {
                Err(f) => Err(f),
                Ok(_) => Ok(path),
            }
        },
    }
}

/// The part that the two directory modes share.
fn directory<'a>(
    path: &'a str,
    policy: ValidationPolicy,
    origin: &str,
    probe: &ProbeReport,
    needs_parent: bool,
) -> (r: ValidationResult<'a>)
    ensures
        agrees(r, directory_outcome(path@, policy, origin@, *probe, needs_parent)),
        r matches Ok(p) ==> p@ == path@,
{
    match classify(path) {
        Err(reason) => Err(Failure::new(reason)),
        Ok(PathKind::FileTarget) => Err(Failure::new(FailureReason::WrongKind)),
        Ok(PathKind::DirectoryTarget) => {
            match place(path, policy, origin, probe, needs_parent) {
                Err(f) => Err(f),
                Ok(_) => Ok(path),
            }
        },
    }
}

/// The `ValidDir` mode: the path is fit to create a directory at, in a
/// parent that exists.
///
/// In this order: the path names a directory (else `WrongKind`, or
/// `EmptyPath` for the empty path); if it is relative, the origin can be
/// read (else `InaccessibleOrigin`); the parent of its absolute form exists
/// (else `MissingParent`); its absolute form passes `try_absolute`.
pub fn valid_dir<'a>(
    path: &'a str,
    policy: ValidationPolicy,
    origin: &str,
    probe: &ProbeReport,
) -> (r: ValidationResult<'a>)
    ensures
        agrees(r, directory_outcome(path@, policy, origin@, *probe, true)),
        r matches Ok(p) ==> p@ == path@,
{
    directory(path, policy, origin, probe, true)
}

/// The `ValidDirTree` mode: the path is fit to create a directory at,
/// together with every ancestor that is missing.
///
/// As `valid_dir`, but no parent needs to exist.
pub fn valid_dir_all<'a>(
    path: &'a str,
    policy: ValidationPolicy,
    origin: &str,
    probe: &ProbeReport,
) -> (r: ValidationResult<'a>)
    ensures
        agrees(r, directory_outcome(path@, policy, origin@, *probe, false)),
        r matches Ok(p) ==> p@ == path@,
{
    directory(path, policy, origin, probe, false)
}

/// Validates `path` for the use that `mode` names.
///
/// `origin` is the directory that a relative path is relative to, and
/// `probe` holds what the caller found on disk. On success the path comes
/// back as it went in.
pub fn validate<'a>(
    path: &'a str,
    mode: ValidationMode,
    policy: ValidationPolicy,
    origin: &str,
    probe: &ProbeReport,
) -> (r: ValidationResult<'a>)
    ensures
        agrees(r, outcome(path@, mode, policy, origin@, *probe)),
        r matches Ok(p) ==> p@ == path@,
{
    match mode {
        ValidationMode::Exists => must_exist(path, probe),
        ValidationMode::NotExists => must_not_exist(path, probe),
        ValidationMode::ValidFile => valid_file(path, policy, origin, probe),
        ValidationMode::ValidDir => valid_dir(path, policy, origin, probe),
        ValidationMode::ValidDirTree => valid_dir_all(path, policy, origin, probe),
    }
}

} // verus!
