use std::sync::mpsc::channel;
use std::time::Duration;

use threadpool::ThreadPool;

use stm_core::atomically;
use stm_core::guard;
use stm_core::optionally;
use stm_core::retry;
use stm_core::unwrap_or_retry;
use stm_core::StmError;
use stm_core::TVar;

/// Block the calling thread for `ms` milliseconds.
fn pause(ms: u64) {
    let (keep, gate) = channel::<()>();
    let _ = gate.recv_timeout(Duration::from_millis(ms));
    drop(keep);
}

fn terminates<F: FnOnce() + Send + 'static>(ms: u64, f: F) -> bool {
    let pool = ThreadPool::new(1);
    let (tx, rx) = channel();
    pool.execute(move || {
        f();
        let _ = tx.send(());
    });
    rx.recv_timeout(Duration::from_millis(ms)).is_ok()
}

fn run_with_trigger<T, F, G>(ms: u64, action: F, trigger: G) -> Option<T>
where
    T: Send + 'static,
    F: FnOnce() -> T + Send + 'static,
    G: FnOnce(),
{
    let pool = ThreadPool::new(1);
    let (tx, rx) = channel();
    pool.execute(move || {
        let _ = tx.send(action());
    });
    trigger();
    rx.recv_timeout(Duration::from_millis(ms)).ok()
}

#[test]
fn infinite_retry() {
    let terminated = terminates(300, || {
        let _infinite_retry: i64 = atomically(|_| retry());
    });
    assert!(!terminated);
}

#[test]
fn stm_nested() {
    let var = TVar::new(0);

    let x = atomically(|tx| {
        var.write(tx, 42)?;
        var.read(tx)
    });

    assert_eq!(42, x);
}

/// Run multiple threads.
///
/// Thread 1: Read a var, block until it is not 0 and then return that value.
/// Thread 2: Wait a bit. Then write a value.
///
/// Check if Thread 1 is woken up correctly and then check for correctness.
#[test]
fn threaded() {
    let var = TVar::new(0);
    // Clone for other thread.
    let varc = var.clone();

    let x = run_with_trigger(
        800,
        move || {
            atomically(|tx| {
                let x = varc.read(tx)?;
                if x == 0 {
                    retry()
                } else {
                    Ok(x)
                }
            })
        },
        || {
            pause(100);

            atomically(|tx| var.write(tx, 42));
        },
    )
    .unwrap();

    assert_eq!(42, x);
}

/// Test if a STM calculation is rerun when a Var changes while executing.
#[test]
fn read_write_interfere() {
    // create var
    let var = TVar::new(0);
    let varc = var.clone(); // Clone for other thread.

    // run the slow writer on a worker
    let pool = ThreadPool::new(1);
    let (done_tx, done_rx) = channel();
    pool.execute(move || {
        atomically(|tx| {
            // read the var
            let x = varc.read(tx)?;
            // ensure that x varc changes in between
            pause(500);

            // write back modified data this should only
            // happen when the value has not changed
            varc.write(tx, x + 10)
        });
        let _ = done_tx.send(());
    });

    // ensure that the worker has started and already read the var
    pause(100);

    // now change it
    atomically(|tx| var.write(tx, 32));

    // finish and compare
    let _ = done_rx.recv_timeout(Duration::from_millis(5000));
    assert_eq!(42, var.read_atomic());
}

#[test]
fn or_simple() {
    let var = TVar::new(42);

    let x = atomically(|tx| tx.or(|_| retry(), |tx| var.read(tx)));

    assert_eq!(x, 42);
}

/// A variable should not be written, when another branch was taken.
#[test]
fn or_nocommit() {
    let var = TVar::new(42);

    let x = atomically(|tx| {
        tx.or(
            |tx| {
                var.write(tx, 23)?;
                retry()
            },
            |tx| var.read(tx),
        )
    });

    assert_eq!(x, 42);
}

#[test]
fn or_nested_first() {
    let var = TVar::new(42);

    let x = atomically(|tx| tx.or(|tx| tx.or(|_| retry(), |_| retry()), |tx| var.read(tx)));

    assert_eq!(x, 42);
}

#[test]
fn or_nested_second() {
    let var = TVar::new(42);

    let x = atomically(|tx| {
        tx.or(
            |_| retry(),
            |t| t.or(|t2| var.read(t2), |_| retry()),
        )
    });

    assert_eq!(x, 42);
}

/// When both branches of an alternative retry, the thread still wakes on a
/// write to a variable only the first, abandoned branch had read.
#[test]
fn or_waits_on_first_branch_reads() {
    let var = TVar::new(0);
    let varc = var.clone();

    let x = run_with_trigger(
        800,
        move || {
            atomically(|tx| {
                tx.or(
                    |t| {
                        let x = varc.read(t)?;
                        if x == 0 {
                            retry()
                        } else {
                            Ok(x)
                        }
                    },
                    |_| retry(),
                )
            })
        },
        || {
            pause(100);
            atomically(|tx| var.write(tx, 5));
        },
    )
    .unwrap();

    assert_eq!(5, x);
}

#[test]
fn unwrap_some() {
    let x = Some(42);
    let y = atomically(|_| unwrap_or_retry(x));
    assert_eq!(y, 42);
}

#[test]
fn unwrap_none() {
    let x: Option<i64> = None;
    assert_eq!(unwrap_or_retry(x), retry());
}

#[test]
fn guard_true() {
    let x = guard(true);
    assert_eq!(x, Ok(()));
}

#[test]
fn guard_false() {
    let x = guard(false);
    assert_eq!(x, retry());
}

#[test]
fn optionally_succeed() {
    let x = atomically(|t| optionally(t, |_| Ok(42)));
    assert_eq!(x, Some(42));
}

#[test]
fn optionally_fail() {
    let x: Option<i64> = atomically(|t| optionally(t, |_| retry()));
    assert_eq!(x, None);
}

#[test]
fn optionally_keeps_failure() {
    let x: Result<Option<i64>, StmError> = {
        let mut tx = stm_core::Transaction::new();
        optionally(&mut tx, |_| Err(StmError::Failure))
    };
    assert_eq!(x, Err(StmError::Failure));
}

/// Two concurrent committers both add to one variable; read validation
/// forces the lost update to re-run, so both increments land.
#[test]
fn concurrent_committers_both_land() {
    let var = TVar::new(0);
    let pool = ThreadPool::new(2);
    let (d1, r1) = channel();
    let varc1 = var.clone();
    pool.execute(move || {
        atomically(|tx| {
            let x = varc1.read(tx)?;
            pause(50);
            varc1.write(tx, x + 1)
        });
        let _ = d1.send(());
    });
    let (d2, r2) = channel();
    let varc2 = var.clone();
    pool.execute(move || {
        atomically(|tx| {
            let x = varc2.read(tx)?;
            pause(50);
            varc2.write(tx, x + 1)
        });
        let _ = d2.send(());
    });
    assert!(r1.recv_timeout(Duration::from_millis(5000)).is_ok());
    assert!(r2.recv_timeout(Duration::from_millis(5000)).is_ok());
    assert_eq!(2, var.read_atomic());
}

#[test]
fn option_payload_round_trip() {
    let x = TVar::new(Some(42));
    let inner = atomically(|tx| {
        let v = x.read(tx)?;
        unwrap_or_retry(v)
    });
    assert_eq!(inner, 42);
    assert_eq!(x.read_atomic(), Some(42));
}

#[test]
fn bool_payload_round_trip() {
    let b = TVar::new(true);
    assert_eq!(b.read_atomic(), true);
    atomically(|tx| b.write(tx, false));
    assert_eq!(b.read_atomic(), false);
}
