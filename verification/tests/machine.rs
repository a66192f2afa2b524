use dada::diagnostic::{Cause, Ctx, PermissionError};
use dada::machine::Machine;
use dada::tenant::Exclusivity;

fn at(location: u64) -> Ctx {
    Ctx { location }
}

#[test]
fn fresh_owner_is_valid_with_no_tenant() {
    let mut m = Machine::new();
    let o = m.my();
    assert!(m.is_valid(o));
    assert_eq!(m.peek_tenant(o), None);
    assert_eq!(m.invalidation_cause(o), None);
}

#[test]
fn give_invalidates_the_giver_and_mints_a_new_owner() {
    let mut m = Machine::new();
    let o = m.my();
    let q = m.give(o, at(1)).unwrap();
    assert!(!m.is_valid(o));
    assert!(m.is_valid(q));
    assert_eq!(m.invalidation_cause(o), Some(Cause { location: 1 }));
}

#[test]
fn second_give_fails_with_double_give() {
    let mut m = Machine::new();
    let o = m.my();
    m.give(o, at(3)).unwrap();
    assert_eq!(
        m.give(o, at(8)),
        Err(PermissionError::DoubleGive { cause: Cause { location: 3 } })
    );
    assert!(!m.is_valid(o));
}

#[test]
fn give_share_consumes_the_unique_owner() {
    let mut m = Machine::new();
    let o = m.my();
    let j = m.give_share(o, at(2)).unwrap();
    assert!(!m.is_valid(o));
    assert!(m.is_valid(j));
}

#[test]
fn joint_owner_survives_giving() {
    let mut m = Machine::new();
    let j = m.our();
    let k = m.give(j, at(1)).unwrap();
    let l = m.give_share(j, at(2)).unwrap();
    assert!(m.is_valid(j));
    assert!(m.is_valid(k));
    assert!(m.is_valid(l));
    assert!(m.check_await(j, at(3)).is_ok());
    assert!(m.is_valid(j));
}

#[test]
fn use_of_a_dead_owner_reports_the_give_site() {
    let mut m = Machine::new();
    let o = m.my();
    m.give(o, at(5)).unwrap();
    assert_eq!(
        m.check_read(o, at(9)),
        Err(PermissionError::UseAfterGive { cause: Cause { location: 5 } })
    );
    assert_eq!(
        m.lease(o, Exclusivity::Shared, at(10)),
        Err(PermissionError::UseAfterGive { cause: Cause { location: 5 } })
    );
}

#[test]
fn shared_lease_survives_an_owner_read() {
    let mut m = Machine::new();
    let o = m.my();
    let l = m.lease(o, Exclusivity::Shared, at(1)).unwrap();
    assert!(m.is_valid(l));
    assert!(m.check_read(o, at(2)).is_ok());
    assert!(m.is_valid(l));
    assert_eq!(m.peek_tenant(o), Some(l));
}

#[test]
fn exclusive_lease_is_revoked_by_an_owner_read() {
    let mut m = Machine::new();
    let o = m.my();
    let l = m.lease(o, Exclusivity::Exclusive, at(1)).unwrap();
    assert!(m.is_valid(l));
    assert!(m.check_read(o, at(2)).is_ok());
    assert!(!m.is_valid(l));
    assert_eq!(m.peek_tenant(o), None);
    assert_eq!(
        m.check_read(l, at(3)),
        Err(PermissionError::UseAfterGive { cause: Cause { location: 2 } })
    );
}

#[test]
fn owner_write_revokes_a_shared_lease() {
    let mut m = Machine::new();
    let o = m.my();
    let l = m.lease(o, Exclusivity::Shared, at(1)).unwrap();
    assert!(m.check_write(o, at(4)).is_ok());
    assert!(!m.is_valid(l));
    assert_eq!(m.peek_tenant(o), None);
}

#[test]
fn owner_write_revokes_an_exclusive_lease() {
    let mut m = Machine::new();
    let o = m.my();
    let l = m.lease(o, Exclusivity::Exclusive, at(1)).unwrap();
    assert!(m.check_write(o, at(4)).is_ok());
    assert!(!m.is_valid(l));
    assert_eq!(
        m.check_write(l, at(6)),
        Err(PermissionError::UseAfterGive { cause: Cause { location: 4 } })
    );
}

#[test]
fn second_lease_silently_supersedes_the_first() {
    let mut m = Machine::new();
    let o = m.my();
    let l1 = m.lease(o, Exclusivity::Shared, at(1)).unwrap();
    let l2 = m.lease(o, Exclusivity::Exclusive, at(2)).unwrap();
    assert!(!m.is_valid(l1));
    assert!(m.is_valid(l2));
    assert_eq!(m.peek_tenant(o), Some(l2));
    assert_eq!(
        m.check_read(l1, at(3)),
        Err(PermissionError::UseAfterGive { cause: Cause { location: 2 } })
    );
}

#[test]
fn peek_tenant_never_mutates() {
    let mut m = Machine::new();
    let o = m.my();
    let l = m.lease(o, Exclusivity::Exclusive, at(1)).unwrap();
    let first = m.peek_tenant(o);
    let second = m.peek_tenant(o);
    let third = m.peek_tenant(o);
    assert_eq!(first, Some(l));
    assert_eq!(second, first);
    assert_eq!(third, first);
    assert!(m.is_valid(l));
    assert!(m.is_valid(o));
}

#[test]
fn exclusive_lease_read_then_give() {
    let mut m = Machine::new();
    let o = m.my();
    assert!(m.is_valid(o));
    let l1 = m.lease(o, Exclusivity::Exclusive, at(1)).unwrap();
    assert!(m.is_valid(l1));
    assert!(m.check_read(o, at(2)).is_ok());
    assert!(!m.is_valid(l1));
    assert_eq!(
        m.check_read(l1, at(3)),
        Err(PermissionError::UseAfterGive { cause: Cause { location: 2 } })
    );
    let o2 = m.give(o, at(4)).unwrap();
    assert!(m.is_valid(o2));
    assert!(!m.is_valid(o));
    assert_eq!(
        m.give(o, at(5)),
        Err(PermissionError::DoubleGive { cause: Cause { location: 4 } })
    );
}

#[test]
fn shared_lease_read_then_write() {
    let mut m = Machine::new();
    let o = m.my();
    let l1 = m.lease(o, Exclusivity::Shared, at(1)).unwrap();
    assert!(m.is_valid(l1));
    assert!(m.check_read(o, at(2)).is_ok());
    assert!(m.is_valid(l1));
    assert!(m.check_write(o, at(3)).is_ok());
    assert!(!m.is_valid(l1));
}

#[test]
fn await_consumes_the_owner_and_its_tenant() {
    let mut m = Machine::new();
    let o = m.my();
    let l = m.lease(o, Exclusivity::Shared, at(1)).unwrap();
    assert!(m.check_await(o, at(6)).is_ok());
    assert!(!m.is_valid(o));
    assert!(!m.is_valid(l));
    assert_eq!(m.peek_tenant(o), None);
    assert_eq!(
        m.check_read(o, at(7)),
        Err(PermissionError::UseAfterGive { cause: Cause { location: 6 } })
    );
    assert_eq!(
        m.check_await(o, at(8)),
        Err(PermissionError::DoubleGive { cause: Cause { location: 6 } })
    );
}

#[test]
fn await_on_leases_kills_exclusive_and_spares_shared() {
    let mut m = Machine::new();
    let o = m.my();
    let sh = m.lease(o, Exclusivity::Shared, at(1)).unwrap();
    assert!(m.check_await(sh, at(2)).is_ok());
    assert!(m.is_valid(sh));
    let ex = m.lease(o, Exclusivity::Exclusive, at(3)).unwrap();
    assert!(m.check_await(ex, at(4)).is_ok());
    assert!(!m.is_valid(ex));
    assert_eq!(
        m.check_await(ex, at(5)),
        Err(PermissionError::DoubleGive { cause: Cause { location: 4 } })
    );
}

#[test]
fn giving_a_lease_issues_a_sublease() {
    let mut m = Machine::new();
    let o = m.my();
    let l = m.lease(o, Exclusivity::Exclusive, at(1)).unwrap();
    let s = m.give(l, at(2)).unwrap();
    assert!(m.is_valid(l));
    assert!(m.is_valid(s));
    assert_eq!(m.peek_tenant(l), Some(s));
    let s2 = m.give_share(l, at(3)).unwrap();
    assert!(!m.is_valid(s));
    assert!(m.is_valid(s2));
    assert_eq!(m.peek_tenant(l), Some(s2));
}

#[test]
fn handles_stay_meaningful_as_the_machine_grows() {
    let mut m = Machine::new();
    let o = m.my();
    assert_eq!(m.num_permissions(), 1);
    assert!(m.is_handle(o));
    let l = m.lease(o, Exclusivity::Shared, at(1)).unwrap();
    assert_eq!(m.num_permissions(), 2);
    assert!(m.is_handle(l));
    assert!(!m.is_handle(dada::permission::Permission { index: 2 }));
}

#[test]
fn joint_owner_can_lease_and_revokes_on_write() {
    let mut m = Machine::new();
    let j = m.our();
    let ex = m.lease(j, Exclusivity::Exclusive, at(1)).unwrap();
    assert!(m.is_valid(ex));
    assert!(m.check_read(j, at(2)).is_ok());
    assert!(!m.is_valid(ex));
    let sh = m.lease(j, Exclusivity::Shared, at(3)).unwrap();
    assert!(m.check_read(j, at(4)).is_ok());
    assert!(m.is_valid(sh));
    assert!(m.check_write(j, at(5)).is_ok());
    assert!(!m.is_valid(sh));
    assert!(m.is_valid(j));
}

#[test]
fn a_lease_can_sublease_and_read_through_it_works() {
    let mut m = Machine::new();
    let o = m.my();
    let l = m.lease(o, Exclusivity::Exclusive, at(1)).unwrap();
    let s = m.lease(l, Exclusivity::Exclusive, at(2)).unwrap();
    assert!(m.is_valid(s));
    assert!(m.check_read(l, at(3)).is_ok());
    assert!(!m.is_valid(s));
    assert!(m.is_valid(l));
}

#[test]
fn lease_after_revocation_starts_fresh() {
    let mut m = Machine::new();
    let o = m.my();
    let l1 = m.lease(o, Exclusivity::Exclusive, at(1)).unwrap();
    assert!(m.check_write(o, at(2)).is_ok());
    assert_eq!(m.peek_tenant(o), None);
    let l2 = m.lease(o, Exclusivity::Shared, at(3)).unwrap();
    assert!(m.is_valid(l2));
    assert!(!m.is_valid(l1));
    assert_eq!(m.peek_tenant(o), Some(l2));
}
