//! The tenancy slot: tracks at most one outstanding lease issued from an
//! owning permission.
//!
//! The slot holds a handle to the current lease, if any.  A new lease
//! overwrites (and thereby revokes) the previous one; the owner's read,
//! write, give and await operations may cancel the lease outright.  Those
//! mutations need access to the lease the handle points at, so they live
//! on [`crate::machine::Machine`]; the slot itself is plain data plus its
//! non-mutating observation.

use vstd::prelude::*;

use crate::permission::Permission;

verus! {

/// Whether a lease tolerates concurrent reads through its owner.  An
/// exclusive (write) lease is revoked as soon as the owner reads; a shared
/// (read) lease survives owner reads and dies only on an owner write,
/// give, or await.
#[derive(Clone, Copy, Debug, PartialEq, Eq, Structural)]
pub enum Exclusivity {
    Exclusive,
    Shared,
}

/// A tenancy slot: `None`, or the handle of the one outstanding lease.
#[derive(Clone, Copy, Debug, PartialEq, Eq, Structural)]
pub struct Tenant {
    pub lease: Option<Permission>,
}

impl Tenant {
    pub fn new() -> (r: Tenant)
        ensures
            r.lease is None,
    {
        Tenant { lease: None }
    }

    /// Non-mutating copy of the current lease, for introspection and
    /// heap-graph rendering.
    pub fn peek_tenant(&self) -> (r: Option<Permission>)
        ensures
            r == self.lease,
    {
        self.lease
    }
}

} // verus!
