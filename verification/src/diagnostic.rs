//! Diagnostic data carried by permission operations and their failures.

use vstd::prelude::*;

verus! {

/// A source location recorded when a permission is invalidated, so that a
/// later misuse can be reported as "given away here".
#[derive(Clone, Copy, Debug, PartialEq, Eq, Structural)]
pub struct Cause {
    pub location: u64,
}

/// The context a permission operation runs in: the location of the
/// operation itself, used as the recorded cause when it invalidates
/// something.
#[derive(Clone, Copy, Debug, PartialEq, Eq, Structural)]
pub struct Ctx {
    pub location: u64,
}

impl Ctx {
    /// The cause that this operation records when it invalidates a
    /// permission.
    pub open spec fn spec_cause(self) -> Cause {
        Cause { location: self.location }
    }

    #[verifier::when_used_as_spec(spec_cause)]
    pub fn cause(self) -> (r: Cause)
        ensures
            r == self.spec_cause(),
    {
        Cause { location: self.location }
    }
}

/// The two failures the engine can report.  Both are recoverable: the
/// interpreter halts the current statement and renders a diagnostic from
/// the recorded cause; the engine never aborts.
#[derive(Clone, Copy, Debug, PartialEq, Eq, Structural)]
pub enum PermissionError {
    /// An operation was attempted on a permission that was already given
    /// away (or awaited across).  `cause` is where that happened.
    UseAfterGive { cause: Cause },
    /// An attempt to give away (or await across) a permission a second
    /// time.  `cause` is where the first give happened.
    DoubleGive { cause: Cause },
}

} // verus!
