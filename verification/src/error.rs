use vstd::prelude::*;

verus! {

/// What can go wrong while a test runs.
#[derive(Debug)]
pub enum RunnerErrorKind {
    /// The driver backend failed; the text is its report.
    WebdriverError(String),
    /// The command list's control-flow structure is malformed.
    BranchValidationError(String),
    /// A value did not have the expected shape.
    MismatchedType(String),
    /// A URL could not be built; the text is the reason.
    Url(String),
    /// A wait ran out of time; the text names the wait.
    Timeout(String),
    /// An explicit check failed, with both sides of the comparison.
    AssertFailed { lhs: String, rhs: String },
}

/// A runner failure, tagged with the offending command's position in the
/// pre-filter command list, and once known, the owning test's name.
#[derive(Debug)]
pub struct RunnerError {
    pub kind: RunnerErrorKind,
    pub index: usize,
    pub test: Option<String>,
}

impl RunnerError {
    pub fn new(kind: RunnerErrorKind, index: usize) -> (r: Self)
        ensures
            r.kind == kind,
            r.index == index,
            r.test is None,
    {
        Self { kind, index, test: None }
    }
}

/// What can go wrong while a side file is parsed.
#[derive(Debug)]
pub enum ParseError {
    /// A locator does not have the `strategy=expression` form, or names an
    /// unknown strategy.
    LocatorFormatError(String),
    /// A field does not have the expected shape, such as a timeout that is
    /// not an integer.
    TypeError(String),
    /// A command name is not recognized.
    ValidationError(String),
}

} // verus!
