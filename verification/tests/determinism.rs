use std::sync::mpsc::channel;
use std::time::Duration;

use threadpool::ThreadPool;

use stm_core::det_atomically;
use stm_core::dtm;
use stm_core::TVar;

/// Two registered transactions write to one variable; the second registered
/// handle commits last, whatever order the workers are started or run in.
#[test]
fn deterministic_dep_order() {
    let var = TVar::new(0);
    // Clone for transactions.
    let varc1 = var.clone();
    let varc2 = var.clone();

    // dtm setup
    let mut dtm = dtm();
    let handle1 = dtm.register();
    let handle2 = dtm.register();

    // The coordinator blocks until all participants have completed, and the
    // participant workers start afterwards, so it runs on a worker of its
    // own.
    let pool = ThreadPool::new(3);
    pool.execute(move || dtm.freeze());

    let (d1, r1) = channel();
    pool.execute(move || {
        det_atomically(handle1, |tx| varc1.write(tx, 1));
        let _ = d1.send(());
    });
    let (d2, r2) = channel();
    pool.execute(move || {
        det_atomically(handle2, |tx| varc2.write(tx, 2));
        let _ = d2.send(());
    });

    let ok1 = r1.recv_timeout(Duration::from_millis(5000));
    assert!(ok1.is_ok());
    let ok2 = r2.recv_timeout(Duration::from_millis(5000));
    assert!(ok2.is_ok());

    pool.join();

    assert_eq!(2, var.read_atomic());
}

#[test]
fn repeat_deterministic_dep_order() {
    for _i in 1..100 {
        deterministic_dep_order()
    }
}

/// As above, with the participant workers started in the other order.
#[test]
fn deterministic_dep_reorder() {
    let var = TVar::new(0);
    // Clone for transactions.
    let varc1 = var.clone();
    let varc2 = var.clone();

    // dtm setup
    let mut dtm = dtm();
    let handle1 = dtm.register();
    let handle2 = dtm.register();

    let pool = ThreadPool::new(3);
    pool.execute(move || dtm.freeze());

    let (d2, r2) = channel();
    pool.execute(move || {
        det_atomically(handle2, |tx| varc2.write(tx, 2));
        let _ = d2.send(());
    });
    let (d1, r1) = channel();
    pool.execute(move || {
        det_atomically(handle1, |tx| varc1.write(tx, 1));
        let _ = d1.send(());
    });

    let ok1 = r1.recv_timeout(Duration::from_millis(5000));
    assert!(ok1.is_ok());
    let ok2 = r2.recv_timeout(Duration::from_millis(5000));
    assert!(ok2.is_ok());

    pool.join();

    assert_eq!(2, var.read_atomic());
}

#[test]
fn repeat_deterministic_dep_reorder() {
    for _i in 1..100 {
        deterministic_dep_reorder()
    }
}

/// Freezing after the participant workers are running works the same.
#[test]
fn freeze_after_spawn() {
    let var = TVar::new(0);
    // Clone for transactions.
    let varc1 = var.clone();
    let varc2 = var.clone();

    // dtm setup
    let mut dtm = dtm();
    let handle1 = dtm.register();
    let handle2 = dtm.register();

    let pool = ThreadPool::new(2);
    let (d1, r1) = channel();
    pool.execute(move || {
        det_atomically(handle1, |tx| varc1.write(tx, 1));
        let _ = d1.send(());
    });
    let (d2, r2) = channel();
    pool.execute(move || {
        det_atomically(handle2, |tx| varc2.write(tx, 2));
        let _ = d2.send(());
    });

    dtm.freeze();

    let ok1 = r1.recv_timeout(Duration::from_millis(5000));
    assert!(ok1.is_ok());
    let ok2 = r2.recv_timeout(Duration::from_millis(5000));
    assert!(ok2.is_ok());

    assert_eq!(2, var.read_atomic());
}
