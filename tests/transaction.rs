use fast_stm::control_block::ControlBlock;
use fast_stm::{
    optionally, retry, unwrap_or_retry, Attempt, Settled, StmClosureResult, StmError, TVar, Transaction,
    TransactionControl, TransactionGuard,
};

fn with_control<T, F, C>(mut control: C, f: F) -> Option<T>
where
    F: Fn(&mut Transaction) -> StmClosureResult<T>,
    C: FnMut(StmError) -> TransactionControl,
{
    let mut tx = Transaction::new();
    loop {
        match tx.attempt(&f) {
            Attempt::Validated(t, _) => return Some(t),
            Attempt::Cancelled(()) => unreachable!(),
            Attempt::Conflict(_, _) => {
                if let Settled::GaveUp = tx.settle(StmError::Failure, control(StmError::Failure)) {
                    return None;
                }
            }
            Attempt::Signalled(s) => {
                if let Settled::GaveUp = tx.settle(s, control(s)) {
                    return None;
                }
            }
        }
    }
}

fn atomically<T, F>(f: F) -> T
where
    F: Fn(&mut Transaction) -> StmClosureResult<T>,
{
    match with_control(|_| TransactionControl::Retry, f) {
        Some(t) => t,
        None => unreachable!(),
    }
}

#[test]
fn mod_read() {
    let mut log = Transaction::new();
    let var = TVar::new(vec![1, 2, 3, 4]);
    assert_eq!(&*log.read(&var).unwrap(), &[1, 2, 3, 4]);
}

#[test]
fn regular_read() {
    let mut log = Transaction::new();
    let var = TVar::new(vec![1, 2, 3, 4]);
    assert_eq!(&*log.read(&var).unwrap(), &[1, 2, 3, 4]);
}

#[test]
fn mod_write_read() {
    let mut log = Transaction::new();
    let var = TVar::new(vec![1, 2]);
    log.write(&var, vec![1, 2, 3, 4]).unwrap();
    assert_eq!(log.read(&var).unwrap(), [1, 2, 3, 4]);
    assert_eq!(var.read_atomic().unwrap(), [1, 2]);
}

#[test]
fn regular_write_read() {
    let mut log = Transaction::new();
    let var = TVar::new(vec![1, 2]);
    log.write(&var, vec![1, 2, 3, 4]).unwrap();
    assert_eq!(log.read(&var).unwrap(), [1, 2, 3, 4]);
    assert_eq!(var.read_atomic().unwrap(), [1, 2]);
}

#[test]
fn mod_transaction_simple() {
    let x = atomically(|_| Ok(42));
    assert_eq!(x, 42);
}

#[test]
fn regular_transaction_simple() {
    let x = atomically(|_| Ok(42));
    assert_eq!(x, 42);
}

#[test]
fn mod_transaction_read() {
    let read = TVar::new(42);
    let x = atomically(|trans| read.read(trans));
    assert_eq!(x, 42);
}

#[test]
fn regular_transaction_read() {
    let read = TVar::new(42);
    let x = atomically(|trans| read.read(trans));
    assert_eq!(x, 42);
}

#[test]
fn mod_transaction_with_control_abort_on_single_run() {
    let read = TVar::new(42);
    let x = with_control(|_| TransactionControl::Abort, |tx| read.read(tx));
    assert_eq!(x, Some(42));
}

#[test]
fn regular_transaction_with_control_abort_on_single_run() {
    let read = TVar::new(42);
    let x = with_control(|_| TransactionControl::Abort, |tx| read.read(tx));
    assert_eq!(x, Some(42));
}

#[test]
fn mod_transaction_with_control_abort_on_retry() {
    let x: Option<i32> = with_control(|_| TransactionControl::Abort, |_| Err(StmError::Retry));
    assert_eq!(x, None);
}

#[test]
fn regular_transaction_with_control_abort_on_retry() {
    let x: Option<i32> = with_control(|_| TransactionControl::Abort, |_| Err(StmError::Retry));
    assert_eq!(x, None);
}

#[test]
fn mod_transaction_write() {
    let write = TVar::new(42);
    atomically(|trans| write.write(trans, 0));
    assert_eq!(write.read_atomic().unwrap(), 0);
}

#[test]
fn regular_transaction_write() {
    let write = TVar::new(42);
    atomically(|trans| write.write(trans, 0));
    assert_eq!(write.read_atomic().unwrap(), 0);
}

#[test]
fn mod_transaction_copy() {
    let read = TVar::new(42);
    let write = TVar::new(0);
    atomically(|trans| {
        let r = read.read(trans)?;
        write.write(trans, r)
    });
    assert_eq!(write.read_atomic().unwrap(), 42);
}

#[test]
fn regular_transaction_copy() {
    let read = TVar::new(42);
    let write = TVar::new(0);
    atomically(|trans| {
        let r = read.read(trans)?;
        write.write(trans, r)
    });
    assert_eq!(write.read_atomic().unwrap(), 42);
}

#[test]
fn mod_transaction_control_stuff() {
    let read = TVar::new(42);
    let write = TVar::new(0);
    atomically(|trans| {
        let r = read.read(trans)?;
        write.write(trans, r)
    });
    assert_eq!(write.read_atomic().unwrap(), 42);
}

#[test]
fn regular_transaction_control_stuff() {
    let read = TVar::new(42);
    let write = TVar::new(0);
    atomically(|trans| {
        let r = read.read(trans)?;
        write.write(trans, r)
    });
    assert_eq!(write.read_atomic().unwrap(), 42);
}

#[test]
fn test_read_atomic() {
    let var = TVar::new(42);
    assert_eq!(42, var.read_atomic().unwrap());
}

#[test]
fn stm_nested() {
    let var = TVar::new(0);
    let x = atomically(|tx| {
        var.write(tx, 42)?;
        var.read(tx)
    });
    assert_eq!(42, x);
}

#[test]
fn or_simple() {
    let var = TVar::new(42);
    let x = atomically(|tx| tx.or(|_| retry(), |tx| var.read(tx)));
    assert_eq!(x, 42);
}

#[test]
fn or_nocommit() {
    let var = TVar::new(42);
    let x = atomically(|tx| {
        tx.or(
            |tx| {
                var.write(tx, 23)?;
                retry()
            },
            |tx| var.read(tx),
        )
    });
    assert_eq!(x, 42);
}

#[test]
fn or_nested_first() {
    let var = TVar::new(42);
    let x = atomically(|tx| tx.or(|tx| tx.or(|_| retry(), |_| retry()), |tx| var.read(tx)));
    assert_eq!(x, 42);
}

#[test]
fn or_nested_second() {
    let var = TVar::new(42);
    let x = atomically(|tx| tx.or(|_| retry(), |t| t.or(|t2| var.read(t2), |_| retry())));
    assert_eq!(x, 42);
}

#[test]
fn unwrap_some() {
    let x = Some(42);
    let y = atomically(|_| unwrap_or_retry(x));
    assert_eq!(y, 42);
}

#[test]
fn optionally_succeed() {
    let x = atomically(|t| optionally(t, |_| Ok(42)));
    assert_eq!(x, Some(42));
}

#[test]
fn optionally_fail() {
    let x: Option<i32> = atomically(|t| optionally(t, |_| retry()));
    assert_eq!(x, None);
}

#[test]
fn new_control_block_is_live() {
    let ctrl = ControlBlock::new();
    assert!(ctrl.is_live());
}

#[test]
fn modify_doubles() {
    let var = TVar::new(21);
    atomically(|trans| var.modify(trans, |x| x * 2));
    assert_eq!(var.read_atomic().unwrap(), 42);
}

#[test]
fn replace_returns_old_value() {
    let var = TVar::new(0);
    let x = atomically(|trans| var.replace(trans, 42));
    assert_eq!(x, 0);
    assert_eq!(var.read_atomic().unwrap(), 42);
}

#[test]
fn ref_eq_follows_clones() {
    let a = TVar::new(1);
    let b = a.clone();
    let c = TVar::new(1);
    assert!(TVar::ref_eq(&a, &b));
    assert!(!TVar::ref_eq(&a, &c));
}

#[test]
fn read_after_write_in_same_attempt() {
    let var = TVar::new(1);
    let mut tx = Transaction::new();
    assert_eq!(var.read(&mut tx), Ok(1));
    var.write(&mut tx, 5).unwrap();
    assert_eq!(var.read(&mut tx), Ok(5));
    assert_eq!(var.read_atomic().unwrap(), 1);
}

#[test]
fn or_left_bias_hides_second_branch() {
    let a = TVar::new(0);
    let b = TVar::new(0);
    let x = atomically(|tx| {
        tx.or(
            |tx| {
                a.write(tx, 1)?;
                Ok(1)
            },
            |tx| {
                b.write(tx, 2)?;
                Ok(2)
            },
        )
    });
    assert_eq!(x, 1);
    assert_eq!(a.read_atomic().unwrap(), 1);
    assert_eq!(b.read_atomic().unwrap(), 0);
}

#[test]
fn both_writes_commit_together() {
    let a = TVar::new(0);
    let b = TVar::new(0);
    let mut tx = Transaction::new();
    a.write(&mut tx, 1).unwrap();
    b.write(&mut tx, 2).unwrap();
    assert_eq!((a.read_atomic().unwrap(), b.read_atomic().unwrap()), (0, 0));
    let body = |_: &mut Transaction| Ok(());
    let mut run = Transaction::new();
    run.write(&a, 1).unwrap();
    run.write(&b, 2).unwrap();
    assert!(matches!(run.attempt(&body), Attempt::Validated((), _)));
    assert_eq!((a.read_atomic().unwrap(), b.read_atomic().unwrap()), (1, 2));
}

#[test]
fn conflicting_write_reruns_against_new_value() {
    let var = TVar::new(0);
    let interfered = std::cell::Cell::new(false);
    let runs = std::cell::Cell::new(0);
    let x = atomically(|tx| {
        runs.set(runs.get() + 1);
        let x = var.read(tx)?;
        if !interfered.get() {
            interfered.set(true);
            atomically(|other| var.write(other, 32));
        }
        var.write(tx, x + 10)?;
        Ok(x)
    });
    assert_eq!(x, 32);
    assert_eq!(runs.get(), 2);
    assert_eq!(var.read_atomic().unwrap(), 42);
}

#[test]
fn retry_wakes_after_external_write() {
    let var = TVar::new(0);
    let mut tx = Transaction::new();
    let body = |tx: &mut Transaction| {
        let x = var.read(tx)?;
        if x == 0 {
            retry()
        } else {
            Ok(x)
        }
    };
    let signal = match tx.attempt(&body) {
        Attempt::Signalled(s) => s,
        _ => panic!("the first run must retry"),
    };
    assert_eq!(signal, StmError::Retry);
    atomically(|other| var.write(other, 42));
    match tx.settle(signal, TransactionControl::Retry) {
        Settled::Woke(Some((key, live)), _) => {
            assert_eq!(key, var.key());
            assert!(live.same(&var.read_ref_atomic()));
        }
        _ => panic!("the write must be seen before sleeping"),
    }
    assert!(matches!(tx.attempt(&body), Attempt::Validated(42, _)));
}

#[test]
fn or_retry_in_both_branches_waits_on_first_branch() {
    let a = TVar::new(0);
    let b = TVar::new(0);
    let mut tx = Transaction::new();
    let body = |tx: &mut Transaction| {
        tx.or(
            |tx| {
                let x = a.read(tx)?;
                if x == 0 {
                    retry()
                } else {
                    Ok(x)
                }
            },
            |tx| {
                let y = b.read(tx)?;
                if y == 0 {
                    retry()
                } else {
                    Ok(y)
                }
            },
        )
    };
    let signal = match tx.attempt(&body) {
        Attempt::Signalled(s) => s,
        _ => panic!("both branches must retry"),
    };
    atomically(|other| a.write(other, 7));
    match tx.settle(signal, TransactionControl::Retry) {
        Settled::Woke(Some((key, _)), _) => assert_eq!(key, a.key()),
        _ => panic!("the write to the first branch's variable must be seen"),
    }
    assert!(matches!(tx.attempt(&body), Attempt::Validated(7, _)));
}

#[test]
fn control_abort_on_conflict_signal() {
    let mut tx = Transaction::new();
    assert!(matches!(tx.settle(StmError::Failure, TransactionControl::Abort), Settled::GaveUp));
}

#[test]
fn guard_marks_and_releases_running_flag() {
    let mut running = false;
    let guard = TransactionGuard::new(&mut running);
    assert!(running);
    guard.release(&mut running);
    assert!(!running);
}

#[test]
fn settle_retry_on_conflict_signal_clears_without_waiting() {
    let var = TVar::new(3);
    let mut tx = Transaction::new();
    var.read(&mut tx).unwrap();
    assert!(matches!(tx.settle(StmError::Failure, TransactionControl::Retry), Settled::Rerun));
    var.write(&mut tx, 4).unwrap();
    let body = |_: &mut Transaction| Ok(());
    assert!(matches!(tx.attempt(&body), Attempt::Validated((), _)));
    assert_eq!(var.read_atomic().unwrap(), 4);
}

#[test]
fn fallible_attempt_abort_commits_nothing() {
    let var = TVar::new(1);
    let mut tx = Transaction::new();
    let body = |tx: &mut Transaction| {
        var.write(tx, 2).map_err(fast_stm::TransactionError::Stm)?;
        fast_stm::abort::<(), &str>("stop")
    };
    assert!(matches!(tx.attempt_with_err(&body), Attempt::Cancelled("stop")));
    assert_eq!(var.read_atomic().unwrap(), 1);
}

#[test]
fn conflict_names_the_stale_variable() {
    let var = TVar::new(1);
    let other = TVar::new(0);
    let mut tx = Transaction::new();
    let body = |tx: &mut Transaction| {
        let x = var.read(tx)?;
        other.write(tx, x)
    };
    var.read(&mut tx).unwrap();
    atomically(|t| var.write(t, 2));
    match tx.attempt(&body) {
        Attempt::Conflict(key, live) => {
            assert_eq!(key, var.key());
            assert!(live.same(&var.read_ref_atomic()));
        }
        _ => panic!("the read of var is stale"),
    }
    assert_eq!(other.read_atomic().unwrap(), 0);
}

#[test]
fn validated_reports_found_snapshots() {
    let var = TVar::new(5);
    let out = TVar::new(0);
    let mut tx = Transaction::new();
    let body = |tx: &mut Transaction| {
        let x = var.read(tx)?;
        out.write(tx, x + 1)?;
        Ok(x)
    };
    match tx.attempt(&body) {
        Attempt::Validated(x, found) => {
            assert_eq!(x, 5);
            assert_eq!(found.len(), 2);
            assert!(found.iter().any(|(k, _)| *k == var.key()));
            assert!(found.iter().any(|(k, _)| *k == out.key()));
        }
        _ => panic!("nothing interferes"),
    }
    assert_eq!(out.read_atomic().unwrap(), 6);
}
