//! Why a path was turned down.

use vstd::prelude::*;

verus! {

/// The reasons for which a validation fails.
#[derive(Clone, Copy, Debug, PartialEq, Eq, Structural)]
pub enum FailureReason {
    /// The path has no components.
    EmptyPath,
    /// The path, made absolute, does not start at a root.
    MalformedAbsolutePath,
    /// A file was asked for and the path names a directory, or the reverse.
    WrongKind,
    /// The path must exist and does not.
    NotFound,
    /// The path must not exist and does.
    AlreadyExists,
    /// The parent directory of the path does not exist.
    MissingParent,
    /// The path exists and cannot be written.
    ReadOnly,
    /// The path leads above the root.
    EscapesRoot,
    /// A name in the path breaks the cross-platform rules.
    IllegalName,
    /// The origin that the path is relative to cannot be read.
    InaccessibleOrigin,
}

/// A failed validation: the reason, and the text it is about where there is one.
#[derive(Clone, Debug, PartialEq, Eq)]
pub struct Failure {
    pub reason: FailureReason,
    pub offending: Option<String>,
}

/// What a validation gives: the path as it was handed in, or why it was
/// turned down.
pub type ValidationResult<'a> = Result<&'a str, Failure>;

/// The mathematical model of a [`Failure`].
pub struct FailureView {
    pub reason: FailureReason,
    pub offending: Option<Seq<char>>,
}

impl View for Failure {
    type V = FailureView;

    open spec fn view(&self) -> FailureView {
        FailureView {
            reason: self.reason,
            offending: match self.offending {
                Some(text) => Some(text@),
                None => None,
            },
        }
    }
}

/// A failure that is about no particular text.
pub open spec fn bare(reason: FailureReason) -> FailureView {
    FailureView { reason, offending: None }
}

/// A failure that is about the text `text`.
pub open spec fn about(reason: FailureReason, text: Seq<char>) -> FailureView {
    FailureView { reason, offending: Some(text) }
}

/// The result `r` is the outcome `m`: both succeed, or both fail for the
/// same reason and about the same text.
pub open spec fn agrees<T>(r: Result<T, Failure>, m: Result<(), FailureView>) -> bool {
    match r {
        Ok(_) => m is Ok,
        Err(f) => m == Err::<(), FailureView>(f@),
    }
}

impl Failure {
    /// A failure that is about no particular text.
    pub fn new(reason: FailureReason) -> (f: Failure)
        ensures
            f@ == bare(reason),
    {
        Failure { reason, offending: None }
    }

    /// A failure that is about `text`.
    pub fn with_text(reason: FailureReason, text: String) -> (f: Failure)
        ensures
            f@ == about(reason, text@),
    {
        Failure { reason, offending: Some(text) }
    }
}

} // verus!
