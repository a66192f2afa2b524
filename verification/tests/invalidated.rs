use dada::diagnostic::{Cause, Ctx, PermissionError};
use dada::invalidated::Invalidated;

fn at(location: u64) -> Ctx {
    Ctx { location }
}

#[test]
fn fresh_flag_is_valid() {
    let flag = Invalidated::new();
    assert!(flag.is_valid());
    assert!(flag.check_still_valid(at(1)).is_ok());
}

#[test]
fn invalidate_records_the_cause() {
    let mut flag = Invalidated::new();
    assert!(flag.invalidate(at(7)).is_ok());
    assert!(!flag.is_valid());
    assert_eq!(
        flag.check_still_valid(at(9)),
        Err(PermissionError::UseAfterGive { cause: Cause { location: 7 } })
    );
}

#[test]
fn double_invalidate_fails_and_keeps_state() {
    let mut flag = Invalidated::new();
    flag.invalidate(at(3)).unwrap();
    assert_eq!(
        flag.invalidate(at(8)),
        Err(PermissionError::DoubleGive { cause: Cause { location: 3 } })
    );
    assert!(!flag.is_valid());
    assert_eq!(
        flag.check_still_valid(at(9)),
        Err(PermissionError::UseAfterGive { cause: Cause { location: 3 } })
    );
}

#[test]
fn check_still_valid_has_no_side_effect() {
    let flag = Invalidated::new();
    assert!(flag.check_still_valid(at(1)).is_ok());
    assert!(flag.check_still_valid(at(2)).is_ok());
    assert!(flag.is_valid());
}

#[test]
fn cancel_is_silent_and_first_cause_wins() {
    let mut flag = Invalidated::new();
    flag.cancel(at(4));
    assert!(!flag.is_valid());
    flag.cancel(at(6));
    assert_eq!(
        flag.check_still_valid(at(9)),
        Err(PermissionError::UseAfterGive { cause: Cause { location: 4 } })
    );
}
