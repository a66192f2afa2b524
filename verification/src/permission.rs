//! The permission variants and the handle bindings hold.
//!
//! A permission is one of four kinds.  *My* is unique ownership: an
//! invalidation flag records whether it has been given away, and a tenancy
//! slot tracks the one lease issued from it.  *Our* is joint ownership:
//! freely duplicable, never invalidated, but still able to lease.
//! *Leased* and *Shared* are the two lease kinds a tenancy slot issues,
//! exclusive and shared respectively; their validity is controlled by the
//! slot that issued them, which cancels their flag when the owner's
//! operations revoke the lease.
//!
//! Bindings hold a [`Permission`]: a cheap copyable handle into the
//! machine's table of permission records.  Handles rather than references
//! make the back-relation from a lease to its issuing slot cycle-free and
//! let one binding's operation invalidate a permission reachable from
//! another binding.

use vstd::prelude::*;

use crate::diagnostic::Cause;
use crate::invalidated::Invalidated;
use crate::tenant::{Exclusivity, Tenant};

verus! {

/// The handle a binding holds: an index into the machine's permission
/// table.
#[derive(Clone, Copy, Debug, PartialEq, Eq, Hash, Structural)]
pub struct Permission {
    pub index: usize,
}

/// Unique ownership.  Usable only while `given` is valid; at most one
/// live tenant at a time.
#[derive(Clone, Copy, Debug, PartialEq, Eq)]
pub struct My {
    /// Invalidated when ownership is given away or awaited across.
    pub given: Invalidated,
    /// The one outstanding lease issued from this owner.
    pub tenant: Tenant,
}

/// Joint ownership.  Giving or sharing it mints another co-owning
/// permission and leaves the giver usable, so it carries no invalidation
/// flag; it can still lease, so it keeps a tenancy slot.
#[derive(Clone, Copy, Debug, PartialEq, Eq)]
pub struct Our {
    pub tenant: Tenant,
}

/// An exclusive (write) lease issued by a tenancy slot.  `canceled` is set
/// by the issuing slot when the lease is revoked or superseded.
#[derive(Clone, Copy, Debug, PartialEq, Eq)]
pub struct Leased {
    pub canceled: Invalidated,
    /// A lease can itself lease out what it borrowed.
    pub tenant: Tenant,
}

/// A shared (read) lease issued by a tenancy slot.  It survives reads
/// through its owner; writes, gives and awaits revoke it.
#[derive(Clone, Copy, Debug, PartialEq, Eq)]
pub struct Shared {
    pub canceled: Invalidated,
    pub tenant: Tenant,
}

/// The tagged union of permission kinds a binding can hold.  The set is
/// closed: the machine and the diagnostics code match it exhaustively.
#[derive(Clone, Copy, Debug, PartialEq, Eq)]
pub enum PermissionData {
    My(My),
    Our(Our),
    Leased(Leased),
    Shared(Shared),
}

impl My {
    pub fn new() -> (r: My)
        ensures
            r == (My { given: Invalidated { cause: None }, tenant: Tenant { lease: None } }),
    {
        My { given: Invalidated::new(), tenant: Tenant::new() }
    }

    pub fn is_valid(&self) -> (r: bool)
        ensures
            r == self.given.spec_is_valid(),
    {
        self.given.is_valid()
    }

    pub fn peek_tenant(&self) -> (r: Option<Permission>)
        ensures
            r == self.tenant.lease,
    {
        self.tenant.peek_tenant()
    }
}

impl PermissionData {
    /// A fresh unique-owner record: valid, no tenant.
    pub open spec fn fresh_my() -> PermissionData {
        PermissionData::My(My { given: Invalidated { cause: None }, tenant: Tenant { lease: None } })
    }

    /// A fresh joint-owner record: no tenant.
    pub open spec fn fresh_our() -> PermissionData {
        PermissionData::Our(Our { tenant: Tenant { lease: None } })
    }

    /// A fresh lease record of the given exclusivity: valid, no tenant.
    pub open spec fn fresh_lease(excl: Exclusivity) -> PermissionData {
        match excl {
            Exclusivity::Exclusive => PermissionData::Leased(
                Leased { canceled: Invalidated { cause: None }, tenant: Tenant { lease: None } },
            ),
            Exclusivity::Shared => PermissionData::Shared(
                Shared { canceled: Invalidated { cause: None }, tenant: Tenant { lease: None } },
            ),
        }
    }

    /// Whether this record still grants its rights: unique owners and
    /// leases by their flag, joint owners always.
    pub open spec fn spec_is_valid(self) -> bool {
        match self {
            PermissionData::My(m) => m.given.spec_is_valid(),
            PermissionData::Our(_) => true,
            PermissionData::Leased(l) => l.canceled.spec_is_valid(),
            PermissionData::Shared(s) => s.canceled.spec_is_valid(),
        }
    }

    /// The recorded invalidation cause, if any.
    pub open spec fn spec_cause(self) -> Option<Cause> {
        match self {
            PermissionData::My(m) => m.given.cause,
            PermissionData::Our(_) => None,
            PermissionData::Leased(l) => l.canceled.cause,
            PermissionData::Shared(s) => s.canceled.cause,
        }
    }

    /// The record's tenancy slot.
    pub open spec fn spec_tenant(self) -> Option<Permission> {
        match self {
            PermissionData::My(m) => m.tenant.lease,
            PermissionData::Our(o) => o.tenant.lease,
            PermissionData::Leased(l) => l.tenant.lease,
            PermissionData::Shared(s) => s.tenant.lease,
        }
    }

    /// Whether this record is a lease issued by some tenancy slot.
    pub open spec fn is_lease(self) -> bool {
        self is Leased || self is Shared
    }

    /// Whether this record is an exclusive lease.
    pub open spec fn is_exclusive_lease(self) -> bool {
        self is Leased
    }

    /// The record with its validity flag silently canceled at `c` (first
    /// cause wins) and everything else unchanged.  Joint owners have no
    /// flag and are unchanged.
    pub open spec fn spec_canceled(self, c: Cause) -> PermissionData {
        match self {
            PermissionData::My(m) => PermissionData::My(
                My { given: m.given.spec_canceled_with(c), tenant: m.tenant },
            ),
            PermissionData::Our(o) => PermissionData::Our(o),
            PermissionData::Leased(l) => PermissionData::Leased(
                Leased { canceled: l.canceled.spec_canceled_with(c), tenant: l.tenant },
            ),
            PermissionData::Shared(s) => PermissionData::Shared(
                Shared { canceled: s.canceled.spec_canceled_with(c), tenant: s.tenant },
            ),
        }
    }

    /// The record with its tenancy slot replaced and everything else
    /// unchanged.
    pub open spec fn spec_with_slot(self, slot: Option<Permission>) -> PermissionData {
        match self {
            PermissionData::My(m) => PermissionData::My(
                My { given: m.given, tenant: Tenant { lease: slot } },
            ),
            PermissionData::Our(_) => PermissionData::Our(Our { tenant: Tenant { lease: slot } }),
            PermissionData::Leased(l) => PermissionData::Leased(
                Leased { canceled: l.canceled, tenant: Tenant { lease: slot } },
            ),
            PermissionData::Shared(s) => PermissionData::Shared(
                Shared { canceled: s.canceled, tenant: Tenant { lease: slot } },
            ),
        }
    }

    /// Build a fresh lease record of the given exclusivity.
    pub fn new_lease(excl: Exclusivity) -> (r: PermissionData)
        ensures
            r == PermissionData::fresh_lease(excl),
    {
        match excl {
            Exclusivity::Exclusive => PermissionData::Leased(
                Leased { canceled: Invalidated::new(), tenant: Tenant::new() },
            ),
            Exclusivity::Shared => PermissionData::Shared(
                Shared { canceled: Invalidated::new(), tenant: Tenant::new() },
            ),
        }
    }

    /// The record as [`Self::spec_canceled`] describes it.
    pub fn canceled_at(self, c: Cause) -> (r: PermissionData)
        ensures
            r == self.spec_canceled(c),
    {
        match self {
            PermissionData::My(m) => PermissionData::My(
                My { given: m.given.canceled_with(c), tenant: m.tenant },
            ),
            PermissionData::Our(o) => PermissionData::Our(o),
            PermissionData::Leased(l) => PermissionData::Leased(
                Leased { canceled: l.canceled.canceled_with(c), tenant: l.tenant },
            ),
            PermissionData::Shared(s) => PermissionData::Shared(
                Shared { canceled: s.canceled.canceled_with(c), tenant: s.tenant },
            ),
        }
    }

    /// The record as [`Self::spec_with_slot`] describes it.
    pub fn with_slot(self, slot: Option<Permission>) -> (r: PermissionData)
        ensures
            r == self.spec_with_slot(slot),
    {
        match self {
            PermissionData::My(m) => PermissionData::My(
                My { given: m.given, tenant: Tenant { lease: slot } },
            ),
            PermissionData::Our(_) => PermissionData::Our(Our { tenant: Tenant { lease: slot } }),
            PermissionData::Leased(l) => PermissionData::Leased(
                Leased { canceled: l.canceled, tenant: Tenant { lease: slot } },
            ),
            PermissionData::Shared(s) => PermissionData::Shared(
                Shared { canceled: s.canceled, tenant: Tenant { lease: slot } },
            ),
        }
    }

    /// Whether this record is an exclusive lease, decided at run time for
    /// the owner-read path.
    pub fn is_exclusive(&self) -> (r: bool)
        ensures
            r == self.is_exclusive_lease(),
    {
        match self {
            PermissionData::Leased(_) => true,
            _ => false,
        }
    }
}

impl From<My> for PermissionData {
    fn from(m: My) -> (r: PermissionData) {
        PermissionData::My(m)
    }
}

impl vstd::std_specs::convert::FromSpecImpl<My> for PermissionData {
    open spec fn obeys_from_spec() -> bool {
        true
    }

    open spec fn from_spec(m: My) -> PermissionData {
        PermissionData::My(m)
    }
}

} // verus!
