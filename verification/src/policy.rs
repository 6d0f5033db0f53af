//! What a validation is asked to check.

use vstd::prelude::*;

verus! {

/// The admission contract that the caller asks for.
#[derive(Clone, Copy, Debug, PartialEq, Eq, Structural)]
pub enum ValidationMode {
    /// The path must exist.
    Exists,
    /// The path must not exist.
    NotExists,
    /// The path must be fit to create or overwrite a file at.
    ValidFile,
    /// The path must be fit to create a directory at, in a parent that exists.
    ValidDir,
    /// The path must be fit to create a directory at, with all its ancestors.
    ValidDirTree,
}

/// How strictly names are judged.
#[derive(Clone, Copy, Debug, PartialEq, Eq, Structural)]
pub struct ValidationPolicy {
    /// Hold every name to the rules of the strictest platform, whatever the
    /// host would accept.
    pub enforce_cross_platform_names: bool,
}

impl Default for ValidationPolicy {
    /// The default policy enforces the cross-platform name rules.
    fn default() -> (p: Self)
        ensures
            p.enforce_cross_platform_names,
    {
        ValidationPolicy { enforce_cross_platform_names: true }
    }
}

/// What the caller found on the filesystem about a path, before asking for
/// its validation. A probe that could not be made counts as `false`.
#[derive(Clone, Copy, Debug, PartialEq, Eq, Structural)]
pub struct ProbeReport {
    /// The path exists.
    pub exists: bool,
    /// The path exists and may be written.
    pub writable: bool,
    /// The parent of the path, once made absolute, exists.
    pub parent_exists: bool,
    /// The origin that relative paths are joined to can be read.
    pub origin_accessible: bool,
}

} // verus!
