//! The permission machine: the table of live permission records and the
//! operation surface the interpreter calls.
//!
//! Bindings hold [`Permission`] handles; the machine owns the records they
//! point at.  Every operation the interpreter performs on a heap value is
//! preceded by the corresponding call here: it may fail (reported, never
//! fatal), and on success it may mint a new permission and may invalidate
//! permissions reachable from *other* bindings that alias the same value.
//! That aliasing effect is explicit in each operation's contract.

use vstd::prelude::*;

use crate::diagnostic::{Cause, Ctx, PermissionError};
use crate::permission::{My, Our, Permission, PermissionData};
use crate::tenant::Exclusivity;

verus! {

/// The permission table.  A record is never removed: an invalidated
/// permission stays behind its handle so that a later use can be reported
/// with its cause.
pub struct Machine {
    pub perms: Vec<PermissionData>,
}

impl Machine {
    /// A handle is meaningful once it indexes the table.
    pub open spec fn contains(self, p: Permission) -> bool {
        p.index < self.perms@.len()
    }

    /// The record a handle points at.
    pub open spec fn data_of(self, p: Permission) -> PermissionData {
        self.perms@[p.index as int]
    }

    /// Whether the permission behind `p` still grants its rights.
    pub open spec fn spec_is_valid(self, p: Permission) -> bool {
        self.data_of(p).spec_is_valid()
    }

    /// The recorded invalidation cause behind `p`, if any.  A permission
    /// is valid exactly when it has no recorded cause.
    pub open spec fn spec_cause(self, p: Permission) -> Option<Cause> {
        self.data_of(p).spec_cause()
    }

    /// The current lease in `p`'s tenancy slot, if any.
    pub open spec fn spec_tenant(self, p: Permission) -> Option<Permission> {
        self.data_of(p).spec_tenant()
    }

    /// A tenancy slot points forward: at a lease record minted after its
    /// owner.  That keeps owner-to-lease reachability cycle-free.
    pub open spec fn slot_wf(self, i: int) -> bool {
        match self.perms@[i].spec_tenant() {
            None => true,
            Some(t) => i < t.index < self.perms@.len() && self.perms@[t.index as int].is_lease(),
        }
    }

    pub open spec fn wf(self) -> bool {
        forall|i: int| 0 <= i < self.perms@.len() ==> #[trigger] self.slot_wf(i)
    }

    /// The table after `p`'s current lease, if any, has been silently
    /// canceled (recording `c` as its cause) and `p`'s slot cleared.
    pub open spec fn spec_tenant_canceled(self, p: Permission, c: Cause) -> Seq<PermissionData> {
        match self.spec_tenant(p) {
            None => self.perms@,
            Some(t) => self.perms@.update(
                t.index as int,
                self.data_of(t).spec_canceled(c),
            ).update(p.index as int, self.data_of(p).spec_with_slot(None)),
        }
    }

    /// The table after ownership behind `p` has been consumed at `c`:
    /// `p`'s flag is invalidated, its slot cleared, and its current lease,
    /// if any, canceled.
    pub open spec fn spec_given_away(self, p: Permission, c: Cause) -> Seq<PermissionData> {
        match self.spec_tenant(p) {
            None => self.perms@.update(
                p.index as int,
                self.data_of(p).spec_canceled(c).spec_with_slot(None),
            ),
            Some(t) => self.perms@.update(
                t.index as int,
                self.data_of(t).spec_canceled(c),
            ).update(p.index as int, self.data_of(p).spec_canceled(c).spec_with_slot(None)),
        }
    }

    /// The table after a new lease of exclusivity `excl` has been issued
    /// from `p`: the previous lease, if any, is superseded (silently
    /// canceled at `c`), `p`'s slot holds the fresh lease, and the fresh
    /// lease record sits at the end of the table.
    pub open spec fn spec_after_lease(self, p: Permission, excl: Exclusivity, c: Cause) -> Seq<
        PermissionData,
    > {
        let q = Permission { index: self.perms@.len() as usize };
        let base = match self.spec_tenant(p) {
            None => self.perms@,
            Some(t) => self.perms@.update(t.index as int, self.data_of(t).spec_canceled(c)),
        };
        base.update(p.index as int, self.data_of(p).spec_with_slot(Some(q))).push(
            PermissionData::fresh_lease(excl),
        )
    }

    /// An empty machine: no permissions minted yet.
    pub fn new() -> (m: Machine)
        ensures
            m.wf(),
            m.perms@.len() == 0,
    {
        Machine { perms: Vec::new() }
    }

    /// How many permissions have ever been minted; handles below this
    /// count are meaningful.
    pub fn num_permissions(&self) -> (n: usize)
        ensures
            n == self.perms@.len(),
    {
        self.perms.len()
    }

    /// Whether `p` is a handle this machine minted.
    pub fn is_handle(&self, p: Permission) -> (r: bool)
        ensures
            r == self.contains(p),
    {
        p.index < self.perms.len()
    }

    /// Mint a fresh uniquely-owned permission.
    pub fn my(&mut self) -> (p: Permission)
        requires
            old(self).wf(),
        ensures
            final(self).wf(),
            final(self).perms@ == old(self).perms@.push(PermissionData::fresh_my()),
            p.index == old(self).perms@.len(),
            final(self).contains(p),
            final(self).spec_is_valid(p),
            final(self).spec_tenant(p) is None,
    {
        let p = Permission { index: self.perms.len() };
        self.perms.push(PermissionData::My(My::new()));
        proof {
            assert forall|i: int| 0 <= i < self.perms@.len() implies #[trigger] self.slot_wf(i) by {
                if i < old(self).perms@.len() {
                    assert(old(self).slot_wf(i));
                }
            }
        }
        p
    }

    /// Mint a fresh jointly-owned permission.
    pub fn our(&mut self) -> (p: Permission)
        requires
            old(self).wf(),
        ensures
            final(self).wf(),
            final(self).perms@ == old(self).perms@.push(PermissionData::fresh_our()),
            p.index == old(self).perms@.len(),
            final(self).contains(p),
            final(self).spec_is_valid(p),
            final(self).spec_tenant(p) is None,
    {
        let p = Permission { index: self.perms.len() };
        self.perms.push(PermissionData::Our(Our { tenant: crate::tenant::Tenant::new() }));
        proof {
            assert forall|i: int| 0 <= i < self.perms@.len() implies #[trigger] self.slot_wf(i) by {
                if i < old(self).perms@.len() {
                    assert(old(self).slot_wf(i));
                }
            }
        }
        p
    }

    /// Observation only: whether the permission behind `p` is still
    /// usable.
    pub fn is_valid(&self, p: Permission) -> (r: bool)
        requires
            self.contains(p),
        ensures
            r == self.spec_is_valid(p),
    {
        match &self.perms[p.index] {
            PermissionData::My(m) => m.given.is_valid(),
            PermissionData::Our(_) => true,
            PermissionData::Leased(l) => l.canceled.is_valid(),
            PermissionData::Shared(s) => s.canceled.is_valid(),
        }
    }

    /// Observation only: the recorded invalidation cause behind `p`, for
    /// diagnostics.
    pub fn invalidation_cause(&self, p: Permission) -> (r: Option<Cause>)
        requires
            self.contains(p),
        ensures
            r == self.spec_cause(p),
    {
        match &self.perms[p.index] {
            PermissionData::My(m) => m.given.cause,
            PermissionData::Our(_) => None,
            PermissionData::Leased(l) => l.canceled.cause,
            PermissionData::Shared(s) => s.canceled.cause,
        }
    }

    /// Observation only: the current lease issued from `p`, for
    /// introspection and heap-graph rendering.  Calling it never changes
    /// anything: it takes the machine by shared reference.
    pub fn peek_tenant(&self, p: Permission) -> (r: Option<Permission>)
        requires
            self.contains(p),
        ensures
            r == self.spec_tenant(p),
    {
        match &self.perms[p.index] {
            PermissionData::My(m) => m.tenant.peek_tenant(),
            PermissionData::Our(o) => o.tenant.peek_tenant(),
            PermissionData::Leased(l) => l.tenant.peek_tenant(),
            PermissionData::Shared(s) => s.tenant.peek_tenant(),
        }
    }

    /// Copy of the record behind `p`.
    fn entry(&self, p: Permission) -> (d: PermissionData)
        requires
            self.contains(p),
        ensures
            d == self.data_of(p),
    {
        self.perms[p.index]
    }

    /// Replace the record at `i`.
    fn set_entry(&mut self, i: usize, d: PermissionData)
        requires
            i < old(self).perms@.len(),
        ensures
            final(self).perms@ == old(self).perms@.update(i as int, d),
    {
        self.perms[i] = d;
    }

    /// Unconditionally revoke the current lease issued from `p`, if any:
    /// the lease is silently invalidated (it discovers this on next use)
    /// and the slot cleared.  No-op if the slot is empty.  Used whenever
    /// the owner is about to be written to, given away, or awaited
    /// across.  Only the lease in the slot is revoked: a sublease it
    /// issued in turn stays governed by the revoked lease's own slot.
    fn cancel_tenant(&mut self, p: Permission, ctx: Ctx)
        requires
            old(self).wf(),
            old(self).contains(p),
        ensures
            final(self).wf(),
            final(self).perms@.len() == old(self).perms@.len(),
            final(self).perms@ == old(self).spec_tenant_canceled(p, ctx.spec_cause()),
    {
        let slot = self.peek_tenant(p);
        match slot {
            None => (),
            Some(t) => {
                proof {
                    assert(old(self).slot_wf(p.index as int));
                }
                let td = self.entry(t);
                self.set_entry(t.index, td.canceled_at(ctx.cause()));
                let pd = self.entry(p);
                self.set_entry(p.index, pd.with_slot(None));
                proof {
                    assert forall|i: int| 0 <= i < self.perms@.len() implies #[trigger] self.slot_wf(
                        i,
                    ) by {
                        assert(old(self).slot_wf(i));
                    }
                }
            },
        }
    }

    /// Revoke the current lease only if it is exclusive: a read through
    /// the owner is compatible with a shared lease but retroactively
    /// revokes an exclusive one.
    fn cancel_tenant_if_exclusive(&mut self, p: Permission, ctx: Ctx)
        requires
            old(self).wf(),
            old(self).contains(p),
        ensures
            final(self).wf(),
            final(self).perms@.len() == old(self).perms@.len(),
            ({
                let slot = old(self).spec_tenant(p);
                if slot is Some && old(self).data_of(slot->0).is_exclusive_lease() {
                    final(self).perms@ == old(self).spec_tenant_canceled(p, ctx.spec_cause())
                } else {
                    *final(self) == *old(self)
                }
            }),
    {
        let slot = self.peek_tenant(p);
        match slot {
            None => (),
            Some(t) => {
                proof {
                    assert(self.slot_wf(p.index as int));
                }
                let td = self.entry(t);
                if td.is_exclusive() {
                    self.cancel_tenant(p, ctx);
                }
            },
        }
    }

    /// Issue a new lease from `p`'s tenancy slot.  Leasing itself cannot
    /// fail: validity must be checked by the caller beforehand.  Any
    /// previous lease is silently superseded: it becomes permanently
    /// invalid, with this operation recorded as its cause, even though no
    /// explicit cancel was issued on it.
    fn lease_from(&mut self, p: Permission, excl: Exclusivity, ctx: Ctx) -> (q: Permission)
        requires
            old(self).wf(),
            old(self).contains(p),
        ensures
            final(self).wf(),
            q.index == old(self).perms@.len(),
            final(self).perms@ == old(self).spec_after_lease(p, excl, ctx.spec_cause()),
            final(self).contains(q),
            final(self).data_of(q) == PermissionData::fresh_lease(excl),
            final(self).spec_is_valid(q),
            final(self).spec_tenant(p) == Some(q),
    {
        let q = Permission { index: self.perms.len() };
        let slot = self.peek_tenant(p);
        match slot {
            None => (),
            Some(t) => {
                proof {
                    assert(self.slot_wf(p.index as int));
                }
                let td = self.entry(t);
                self.set_entry(t.index, td.canceled_at(ctx.cause()));
            },
        }
        let pd = self.entry(p);
        self.set_entry(p.index, pd.with_slot(Some(q)));
        self.perms.push(PermissionData::new_lease(excl));
        proof {
            assert forall|i: int| 0 <= i < self.perms@.len() implies #[trigger] self.slot_wf(i) by {
                if i < old(self).perms@.len() {
                    assert(old(self).slot_wf(i));
                }
            }
        }
        q
    }

    /// The shared "consume ownership" step behind `give`, `give_share` and
    /// `check_await` on a unique owner, and behind `check_await` on an
    /// exclusive lease: invalidate the record's flag (failing with
    /// `DoubleGive` if it was already consumed) and unconditionally cancel
    /// any tenant.  Invalidation comes first: if it fails, the tenant is
    /// left untouched, so a failed operation has no partial effect.
    fn check_owned(&mut self, p: Permission, ctx: Ctx) -> (r: Result<(), PermissionError>)
        requires
            old(self).wf(),
            old(self).contains(p),
            old(self).data_of(p) is My || old(self).data_of(p) is Leased,
        ensures
            final(self).wf(),
            final(self).perms@.len() == old(self).perms@.len(),
            old(self).spec_is_valid(p) ==> r == Ok::<(), PermissionError>(()) && final(self).perms@ == old(self).spec_given_away(p, ctx.spec_cause()),
            !old(self).spec_is_valid(p) ==> r == Err::<(), PermissionError>(
                PermissionError::DoubleGive { cause: old(self).spec_cause(p)->0 },
            ) && *final(self) == *old(self),
    {
        let d = self.entry(p);
        match d {
            PermissionData::My(m) => {
                let mut flag = m.given;
                match flag.invalidate(ctx) {
                    Err(e) => Err(e),
                    Ok(()) => {
                        self.set_entry(
                            p.index,
                            PermissionData::My(My { given: flag, tenant: m.tenant }),
                        );
                        proof {
                            assert forall|i: int|
                                0 <= i < self.perms@.len() implies #[trigger] self.slot_wf(i) by {
                                assert(old(self).slot_wf(i));
                            }
                        }
                        self.cancel_tenant(p, ctx);
                        proof {
                            assert(old(self).slot_wf(p.index as int));
                            assert(self.perms@ =~= old(self).spec_given_away(
                                p,
                                ctx.spec_cause(),
                            ));
                        }
                        Ok(())
                    },
                }
            },
            PermissionData::Leased(l) => {
                let mut flag = l.canceled;
                match flag.invalidate(ctx) {
                    Err(e) => Err(e),
                    Ok(()) => {
                        self.set_entry(
                            p.index,
                            PermissionData::Leased(
                                crate::permission::Leased { canceled: flag, tenant: l.tenant },
                            ),
                        );
                        proof {
                            assert forall|i: int|
                                0 <= i < self.perms@.len() implies #[trigger] self.slot_wf(i) by {
                                assert(old(self).slot_wf(i));
                            }
                        }
                        self.cancel_tenant(p, ctx);
                        proof {
                            assert(old(self).slot_wf(p.index as int));
                            assert(self.perms@ =~= old(self).spec_given_away(
                                p,
                                ctx.spec_cause(),
                            ));
                        }
                        Ok(())
                    },
                }
            },
            _ => {
                // The requires clause admits only owner and exclusive-lease
                // records here.
                proof {
                    assert(false);
                }
                Ok(())
            },
        }
    }

    /// Transfer what `p` grants to a new binding and return the new
    /// binding's permission.
    ///
    /// A unique owner is consumed: its flag is invalidated (this is the
    /// one successful give it admits; a second attempt fails with
    /// `DoubleGive`), any lease it issued is revoked, and a fresh unique
    /// owner is minted.  A joint owner just mints another joint owner and
    /// stays usable.  A lease cannot pass on ownership it does not hold:
    /// giving a valid lease issues a sublease of the same exclusivity,
    /// superseding any previous sublease; giving a dead lease fails with
    /// `UseAfterGive`.
    pub fn give(&mut self, p: Permission, ctx: Ctx) -> (r: Result<Permission, PermissionError>)
        requires
            old(self).wf(),
            old(self).contains(p),
        ensures
            final(self).wf(),
            old(self).perms@.len() <= final(self).perms@.len(),
            invalid_stays_invalid(*old(self), *final(self)),
            (r is Ok) == old(self).spec_is_valid(p),
            !old(self).spec_is_valid(p) ==> *final(self) == *old(self) && r == Err::<
                Permission,
                PermissionError,
            >(
                if old(self).data_of(p) is My {
                    PermissionError::DoubleGive { cause: old(self).spec_cause(p)->0 }
                } else {
                    PermissionError::UseAfterGive { cause: old(self).spec_cause(p)->0 }
                },
            ),
            old(self).spec_is_valid(p) ==> (r matches Ok(q) && q.index == old(self).perms@.len()
                && final(self).contains(q) && final(self).spec_is_valid(q)),
            old(self).spec_is_valid(p) ==> final(self).perms@ == match old(self).data_of(p) {
                PermissionData::My(_) => old(self).spec_given_away(p, ctx.spec_cause()).push(
                    PermissionData::fresh_my(),
                ),
                PermissionData::Our(_) => old(self).perms@.push(PermissionData::fresh_our()),
                PermissionData::Leased(_) => old(self).spec_after_lease(
                    p,
                    Exclusivity::Exclusive,
                    ctx.spec_cause(),
                ),
                PermissionData::Shared(_) => old(self).spec_after_lease(
                    p,
                    Exclusivity::Shared,
                    ctx.spec_cause(),
                ),
            },
            old(self).spec_is_valid(p) && old(self).data_of(p) is My ==> !final(self).spec_is_valid(p),
            old(self).spec_is_valid(p) && !(old(self).data_of(p) is My) ==> final(self).spec_is_valid(p),
    {
        let d = self.entry(p);
        match d {
            PermissionData::My(_) => {
                match self.check_owned(p, ctx) {
                    Err(e) => Err(e),
                    Ok(()) => {
                        let q = self.my();
                        proof {
                            assert(old(self).slot_wf(p.index as int));
                            assert(!self.spec_is_valid(p));
                            assert forall|h: Permission|
                                old(self).contains(h) && !old(self).spec_is_valid(h) implies self.contains(h)
                                && !self.spec_is_valid(h) by {}
                        }
                        Ok(q)
                    },
                }
            },
            PermissionData::Our(_) => {
                let q = self.our();
                proof {
                    assert forall|h: Permission|
                        old(self).contains(h) && !old(self).spec_is_valid(h) implies self.contains(h)
                        && !self.spec_is_valid(h) by {}
                }
                Ok(q)
            },
            PermissionData::Leased(l) => {
                match l.canceled.check_still_valid(ctx) {
                    Err(e) => Err(e),
                    Ok(()) => {
                        let q = self.lease_from(p, Exclusivity::Exclusive, ctx);
                        proof {
                            assert(old(self).slot_wf(p.index as int));
                            assert(self.spec_is_valid(p));
                            assert forall|h: Permission|
                                old(self).contains(h) && !old(self).spec_is_valid(h) implies self.contains(h)
                                && !self.spec_is_valid(h) by {}
                        }
                        Ok(q)
                    },
                }
            },
            PermissionData::Shared(s) => {
                match s.canceled.check_still_valid(ctx) {
                    Err(e) => Err(e),
                    Ok(()) => {
                        let q = self.lease_from(p, Exclusivity::Shared, ctx);
                        proof {
                            assert(old(self).slot_wf(p.index as int));
                            assert(self.spec_is_valid(p));
                            assert forall|h: Permission|
                                old(self).contains(h) && !old(self).spec_is_valid(h) implies self.contains(h)
                                && !self.spec_is_valid(h) by {}
                        }
                        Ok(q)
                    },
                }
            },
        }
    }

    /// Whether the permission behind `p` may be used at all, as the
    /// failing side of every operation: `Ok` exactly when `p` is valid,
    /// `UseAfterGive` carrying the recorded cause otherwise.
    fn check_valid(&self, p: Permission, ctx: Ctx) -> (r: Result<(), PermissionError>)
        requires
            self.contains(p),
        ensures
            (r is Ok) == self.spec_is_valid(p),
            !self.spec_is_valid(p) ==> r == Err::<(), PermissionError>(
                PermissionError::UseAfterGive { cause: self.spec_cause(p)->0 },
            ),
    {
        match &self.perms[p.index] {
            PermissionData::My(m) => m.given.check_still_valid(ctx),
            PermissionData::Our(_) => Ok(()),
            PermissionData::Leased(l) => l.canceled.check_still_valid(ctx),
            PermissionData::Shared(s) => s.canceled.check_still_valid(ctx),
        }
    }

    /// Share what `p` grants: like `give`, but the new binding receives
    /// joint ownership.  A unique owner is consumed exactly as by `give`
    /// (downgrading exclusivity still requires holding full ownership); a
    /// joint owner mints another joint owner; a valid lease issues a
    /// shared sublease.
    pub fn give_share(&mut self, p: Permission, ctx: Ctx) -> (r: Result<
        Permission,
        PermissionError,
    >)
        requires
            old(self).wf(),
            old(self).contains(p),
        ensures
            final(self).wf(),
            old(self).perms@.len() <= final(self).perms@.len(),
            invalid_stays_invalid(*old(self), *final(self)),
            (r is Ok) == old(self).spec_is_valid(p),
            !old(self).spec_is_valid(p) ==> *final(self) == *old(self) && r == Err::<
                Permission,
                PermissionError,
            >(
                if old(self).data_of(p) is My {
                    PermissionError::DoubleGive { cause: old(self).spec_cause(p)->0 }
                } else {
                    PermissionError::UseAfterGive { cause: old(self).spec_cause(p)->0 }
                },
            ),
            old(self).spec_is_valid(p) ==> (r matches Ok(q) && q.index == old(self).perms@.len()
                && final(self).contains(q) && final(self).spec_is_valid(q)),
            old(self).spec_is_valid(p) ==> final(self).perms@ == match old(self).data_of(p) {
                PermissionData::My(_) => old(self).spec_given_away(p, ctx.spec_cause()).push(
                    PermissionData::fresh_our(),
                ),
                PermissionData::Our(_) => old(self).perms@.push(PermissionData::fresh_our()),
                PermissionData::Leased(_) => old(self).spec_after_lease(
                    p,
                    Exclusivity::Shared,
                    ctx.spec_cause(),
                ),
                PermissionData::Shared(_) => old(self).spec_after_lease(
                    p,
                    Exclusivity::Shared,
                    ctx.spec_cause(),
                ),
            },
            old(self).spec_is_valid(p) && old(self).data_of(p) is My ==> !final(self).spec_is_valid(p),
            old(self).spec_is_valid(p) && !(old(self).data_of(p) is My) ==> final(self).spec_is_valid(p),
    {
        let d = self.entry(p);
        match d {
            PermissionData::My(_) => {
                match self.check_owned(p, ctx) {
                    Err(e) => Err(e),
                    Ok(()) => {
                        let q = self.our();
                        proof {
                            assert(old(self).slot_wf(p.index as int));
                            assert(!self.spec_is_valid(p));
                            assert forall|h: Permission|
                                old(self).contains(h) && !old(self).spec_is_valid(h) implies self.contains(h)
                                && !self.spec_is_valid(h) by {}
                        }
                        Ok(q)
                    },
                }
            },
            PermissionData::Our(_) => {
                let q = self.our();
                proof {
                    assert forall|h: Permission|
                        old(self).contains(h) && !old(self).spec_is_valid(h) implies self.contains(h)
                        && !self.spec_is_valid(h) by {}
                }
                Ok(q)
            },
            PermissionData::Leased(l) => {
                match l.canceled.check_still_valid(ctx) {
                    Err(e) => Err(e),
                    Ok(()) => {
                        let q = self.lease_from(p, Exclusivity::Shared, ctx);
                        proof {
                            assert(old(self).slot_wf(p.index as int));
                            assert(self.spec_is_valid(p));
                            assert forall|h: Permission|
                                old(self).contains(h) && !old(self).spec_is_valid(h) implies self.contains(h)
                                && !self.spec_is_valid(h) by {}
                        }
                        Ok(q)
                    },
                }
            },
            PermissionData::Shared(s) => {
                match s.canceled.check_still_valid(ctx) {
                    Err(e) => Err(e),
                    Ok(()) => {
                        let q = self.lease_from(p, Exclusivity::Shared, ctx);
                        proof {
                            assert(old(self).slot_wf(p.index as int));
                            assert(self.spec_is_valid(p));
                            assert forall|h: Permission|
                                old(self).contains(h) && !old(self).spec_is_valid(h) implies self.contains(h)
                                && !self.spec_is_valid(h) by {}
                        }
                        Ok(q)
                    },
                }
            },
        }
    }

    /// Issue a lease of the requested exclusivity from `p`.  Leasing does
    /// not consume the permission: `p` stays valid and its slot now holds
    /// the new lease.  Any previous lease is silently superseded and
    /// becomes permanently invalid.  Fails with `UseAfterGive` exactly
    /// when `p` itself is no longer valid.
    pub fn lease(&mut self, p: Permission, excl: Exclusivity, ctx: Ctx) -> (r: Result<
        Permission,
        PermissionError,
    >)
        requires
            old(self).wf(),
            old(self).contains(p),
        ensures
            final(self).wf(),
            old(self).perms@.len() <= final(self).perms@.len(),
            invalid_stays_invalid(*old(self), *final(self)),
            (r is Ok) == old(self).spec_is_valid(p),
            !old(self).spec_is_valid(p) ==> *final(self) == *old(self) && r == Err::<
                Permission,
                PermissionError,
            >(PermissionError::UseAfterGive { cause: old(self).spec_cause(p)->0 }),
            old(self).spec_is_valid(p) ==> (r matches Ok(q) && q.index == old(self).perms@.len()
                && final(self).contains(q) && final(self).spec_is_valid(q) && final(self).data_of(q) == PermissionData::fresh_lease(excl) && final(self).spec_tenant(p) == Some(q)),
            old(self).spec_is_valid(p) ==> final(self).perms@ == old(self).spec_after_lease(
                p,
                excl,
                ctx.spec_cause(),
            ),
            old(self).spec_is_valid(p) ==> final(self).spec_is_valid(p),
            old(self).spec_is_valid(p) && old(self).spec_tenant(p) is Some ==> !final(self).spec_is_valid(old(self).spec_tenant(p)->0),
    {
        match self.check_valid(p, ctx) {
            Err(e) => Err(e),
            Ok(()) => {
                let q = self.lease_from(p, excl, ctx);
                proof {
                    assert(old(self).slot_wf(p.index as int));
                    assert(self.spec_is_valid(p));
                    assert forall|h: Permission|
                        old(self).contains(h) && !old(self).spec_is_valid(h) implies self.contains(h)
                        && !self.spec_is_valid(h) by {}
                }
                Ok(q)
            },
        }
    }

    /// Announce a read through `p`.  Requires `p` to be valid.  A read is
    /// compatible with a shared lease, which survives untouched, but
    /// retroactively revokes an exclusive lease: the borrower no longer
    /// has exclusive access, so the lease is invalidated (an effect
    /// visible through *other* bindings that hold that lease).
    pub fn check_read(&mut self, p: Permission, ctx: Ctx) -> (r: Result<(), PermissionError>)
        requires
            old(self).wf(),
            old(self).contains(p),
        ensures
            final(self).wf(),
            final(self).perms@.len() == old(self).perms@.len(),
            invalid_stays_invalid(*old(self), *final(self)),
            (r is Ok) == old(self).spec_is_valid(p),
            !old(self).spec_is_valid(p) ==> *final(self) == *old(self) && r == Err::<
                (),
                PermissionError,
            >(PermissionError::UseAfterGive { cause: old(self).spec_cause(p)->0 }),
            old(self).spec_is_valid(p) ==> ({
                let slot = old(self).spec_tenant(p);
                if slot is Some && old(self).data_of(slot->0).is_exclusive_lease() {
                    final(self).perms@ == old(self).spec_tenant_canceled(p, ctx.spec_cause())
                        && !final(self).spec_is_valid(slot->0)
                } else {
                    *final(self) == *old(self)
                }
            }),
            old(self).spec_is_valid(p) ==> final(self).spec_is_valid(p),
    {
        match self.check_valid(p, ctx) {
            Err(e) => Err(e),
            Ok(()) => {
                self.cancel_tenant_if_exclusive(p, ctx);
                proof {
                    assert(old(self).slot_wf(p.index as int));
                    assert forall|h: Permission|
                        old(self).contains(h) && !old(self).spec_is_valid(h) implies self.contains(h)
                        && !self.spec_is_valid(h) by {}
                }
                Ok(())
            },
        }
    }

    /// Announce a write through `p`.  Requires `p` to be valid.  A write
    /// revokes the current lease regardless of its exclusivity: no
    /// outstanding borrow of any kind survives a write through the
    /// permission it was issued from.
    pub fn check_write(&mut self, p: Permission, ctx: Ctx) -> (r: Result<(), PermissionError>)
        requires
            old(self).wf(),
            old(self).contains(p),
        ensures
            final(self).wf(),
            final(self).perms@.len() == old(self).perms@.len(),
            invalid_stays_invalid(*old(self), *final(self)),
            (r is Ok) == old(self).spec_is_valid(p),
            !old(self).spec_is_valid(p) ==> *final(self) == *old(self) && r == Err::<
                (),
                PermissionError,
            >(PermissionError::UseAfterGive { cause: old(self).spec_cause(p)->0 }),
            old(self).spec_is_valid(p) ==> final(self).perms@ == old(self).spec_tenant_canceled(
                p,
                ctx.spec_cause(),
            ),
            old(self).spec_is_valid(p) && old(self).spec_tenant(p) is Some ==> !final(self).spec_is_valid(old(self).spec_tenant(p)->0) && final(self).spec_tenant(p) is None,
            old(self).spec_is_valid(p) ==> final(self).spec_is_valid(p),
    {
        match self.check_valid(p, ctx) {
            Err(e) => Err(e),
            Ok(()) => {
                self.cancel_tenant(p, ctx);
                proof {
                    assert(old(self).slot_wf(p.index as int));
                    assert forall|h: Permission|
                        old(self).contains(h) && !old(self).spec_is_valid(h) implies self.contains(h)
                        && !self.spec_is_valid(h) by {}
                }
                Ok(())
            },
        }
    }

    /// Announce that `p` is held across a suspension point.  Holding
    /// unique ownership or an exclusive lease across a suspension is
    /// treated as giving it away: a continuation may resume concurrently,
    /// so the permission is consumed and any tenant revoked.  Joint
    /// ownership and shared leases tolerate suspension and are left
    /// untouched.
    pub fn check_await(&mut self, p: Permission, ctx: Ctx) -> (r: Result<(), PermissionError>)
        requires
            old(self).wf(),
            old(self).contains(p),
        ensures
            final(self).wf(),
            final(self).perms@.len() == old(self).perms@.len(),
            invalid_stays_invalid(*old(self), *final(self)),
            (r is Ok) == old(self).spec_is_valid(p),
            !old(self).spec_is_valid(p) ==> *final(self) == *old(self) && r == Err::<
                (),
                PermissionError,
            >(
                if old(self).data_of(p) is Shared {
                    PermissionError::UseAfterGive { cause: old(self).spec_cause(p)->0 }
                } else {
                    PermissionError::DoubleGive { cause: old(self).spec_cause(p)->0 }
                },
            ),
            old(self).spec_is_valid(p) && (old(self).data_of(p) is My || old(self).data_of(p)
                is Leased) ==> final(self).perms@ == old(self).spec_given_away(
                p,
                ctx.spec_cause(),
            ) && !final(self).spec_is_valid(p),
            old(self).spec_is_valid(p) && (old(self).data_of(p) is Our || old(self).data_of(p)
                is Shared) ==> *final(self) == *old(self),
    {
        let d = self.entry(p);
        match d {
            PermissionData::My(_) => {
                let r = self.check_owned(p, ctx);
                proof {
                    assert(old(self).slot_wf(p.index as int));
                    if old(self).spec_is_valid(p) {
                        assert(!self.spec_is_valid(p));
                    }
                    assert forall|h: Permission|
                        old(self).contains(h) && !old(self).spec_is_valid(h) implies self.contains(h)
                        && !self.spec_is_valid(h) by {}
                }
                r
            },
            PermissionData::Leased(_) => {
                let r = self.check_owned(p, ctx);
                proof {
                    assert(old(self).slot_wf(p.index as int));
                    if old(self).spec_is_valid(p) {
                        assert(!self.spec_is_valid(p));
                    }
                    assert forall|h: Permission|
                        old(self).contains(h) && !old(self).spec_is_valid(h) implies self.contains(h)
                        && !self.spec_is_valid(h) by {}
                }
                r
            },
            PermissionData::Our(_) => Ok(()),
            PermissionData::Shared(s) => s.canceled.check_still_valid(ctx),
        }
    }
}

/// Once a permission has been invalidated, no later operation ever makes

/// Once a permission has been invalidated, no later operation ever makes
/// it valid again: handles survive and invalidity is forever.
pub open spec fn invalid_stays_invalid(pre: Machine, post: Machine) -> bool {
    forall|q: Permission|
        pre.contains(q) && !pre.spec_is_valid(q) ==> #[trigger] post.contains(q) && !post.spec_is_valid(q)
}

} // verus!
