use fast_stm::{
    abort, guard, retry, unwrap_or_retry, StmClosureResult, StmError, TransactionError,
    TransactionResult,
};

#[test]
fn unwrap_none() {
    let x: Option<i32> = None;
    assert_eq!(unwrap_or_retry(x), retry());
}

#[test]
fn guard_true() {
    let x = guard(true);
    assert_eq!(x, Ok(()));
}

#[test]
fn guard_false() {
    let x = guard(false);
    assert_eq!(x, retry());
}

#[test]
fn unwrap_some_direct() {
    assert_eq!(unwrap_or_retry(Some(42)), Ok(42));
}

#[test]
fn retry_is_retry_signal() {
    let r: StmClosureResult<u8> = retry();
    assert_eq!(r, Err(StmError::Retry));
}

#[test]
fn abort_carries_error() {
    let r: Result<u8, TransactionError<&str>> = abort("boom");
    assert_eq!(r, Err(TransactionError::Abort("boom")));
}

#[test]
fn result_validated_accessors() {
    let r: TransactionResult<i32, &str> = TransactionResult::Validated(42);
    assert!(r.is_validated());
    assert!(!r.is_cancelled());
    assert!(r.is_validated_and(|v| v == 42));
    assert!(!r.is_validated_and(|v| v == 1));
    assert!(!r.is_cancelled_and(|_| true));
    assert_eq!(r.validated(), Some(42));
    assert_eq!(r.cancelled(), None);
    assert!(!r.failed());
    assert_eq!(r.unwrap(), 42);
    assert_eq!(r.expect("validated"), 42);
    assert_eq!(r.unwrap_or_default(), 42);
}

#[test]
fn result_cancelled_accessors() {
    let r: TransactionResult<i32, &str> = TransactionResult::Cancelled("no");
    assert!(!r.is_validated());
    assert!(r.is_cancelled());
    assert!(r.is_cancelled_and(|e| e == "no"));
    assert!(!r.is_validated_and(|_| true));
    assert_eq!(r.validated(), None);
    assert_eq!(r.cancelled(), Some("no"));
    assert!(!r.failed());
    assert_eq!(r.unwrap_err(), "no");
    assert_eq!(r.expect_err("cancelled"), "no");
    assert_eq!(r.unwrap_or_default(), 0);
}

#[test]
fn result_failed_accessors() {
    let r: TransactionResult<i32, &str> = TransactionResult::Failed;
    assert!(!r.is_validated());
    assert!(!r.is_cancelled());
    assert!(r.failed());
    assert_eq!(r.validated(), None);
    assert_eq!(r.cancelled(), None);
    assert_eq!(r.unwrap_or_default(), 0);
}
