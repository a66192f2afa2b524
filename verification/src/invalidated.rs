//! The invalidation flag: a one-shot validity tracker.
//!
//! A flag starts valid and can be invalidated exactly once, recording the
//! location of the invalidating operation as its cause.  Once invalidated
//! it never becomes valid again.

use vstd::prelude::*;

use crate::diagnostic::{Cause, Ctx, PermissionError};

verus! {

/// Records whether the permission embedding it has been consumed, and if
/// so, where.  `None` means still valid.
#[derive(Clone, Copy, Debug, PartialEq, Eq)]
pub struct Invalidated {
    pub cause: Option<Cause>,
}

impl Invalidated {
    /// A flag is valid while no cause has been recorded.
    pub open spec fn spec_is_valid(self) -> bool {
        self.cause is None
    }

    /// The flag after a silent cancellation at `c`: an already invalid
    /// flag keeps its original cause, so diagnostics always point at the
    /// first invalidation.
    pub open spec fn spec_canceled_with(self, c: Cause) -> Invalidated {
        if self.spec_is_valid() {
            Invalidated { cause: Some(c) }
        } else {
            self
        }
    }

    pub fn new() -> (r: Invalidated)
        ensures
            r.spec_is_valid(),
    {
        Invalidated { cause: None }
    }

    /// Observation only: whether the flag is still valid.
    pub fn is_valid(&self) -> (r: bool)
        ensures
            r == self.spec_is_valid(),
    {
        self.cause.is_none()
    }

    /// Fails with `UseAfterGive`, carrying the recorded cause, if the flag
    /// was already invalidated; otherwise succeeds.  Never changes state.
    pub fn check_still_valid(&self, _ctx: Ctx) -> (r: Result<(), PermissionError>)
        ensures
            self.spec_is_valid() ==> r == Ok::<(), PermissionError>(()),
            !self.spec_is_valid() ==> r == Err::<(), PermissionError>(
                PermissionError::UseAfterGive { cause: self.cause->0 },
            ),
    {
        match self.cause {
            None => Ok(()),
            Some(c) => Err(PermissionError::UseAfterGive { cause: c }),
        }
    }

    /// The one permitted transition: records the operation's location as
    /// the cause.  Invalidating twice fails with `DoubleGive` and leaves
    /// the flag exactly as it was, original cause included.
    pub fn invalidate(&mut self, ctx: Ctx) -> (r: Result<(), PermissionError>)
        ensures
            old(self).spec_is_valid() ==> r == Ok::<(), PermissionError>(())
                && final(self).cause == Some(ctx.spec_cause()),
            !old(self).spec_is_valid() ==> r == Err::<(), PermissionError>(
                PermissionError::DoubleGive { cause: old(self).cause->0 },
            ) && *final(self) == *old(self),
    {
        match self.cause {
            None => {
                self.cause = Some(ctx.cause());
                Ok(())
            },
            Some(c) => Err(PermissionError::DoubleGive { cause: c }),
        }
    }

    /// The flag as [`Self::cancel`] would leave it, without mutating in
    /// place.
    pub fn canceled_with(self, c: Cause) -> (r: Invalidated)
        ensures
            r == self.spec_canceled_with(c),
    {
        if self.cause.is_none() {
            Invalidated { cause: Some(c) }
        } else {
            self
        }
    }

    /// Silent, unconditional invalidation, used when a lease is revoked on
    /// behalf of its owner: the revoked party only discovers it on next
    /// use.  A flag that is already invalid is left untouched.
    pub fn cancel(&mut self, ctx: Ctx)
        ensures
            *final(self) == old(self).spec_canceled_with(ctx.spec_cause()),
    {
        if self.cause.is_none() {
            self.cause = Some(ctx.cause());
        }
    }
}

} // verus!
