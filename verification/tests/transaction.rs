use stm_core::retry;
use stm_core::NonDeterministic;
use stm_core::StmError;
use stm_core::TVar;
use stm_core::Transaction;
use stm_core::TransactionControl;
use stm_core::Tx;
use stm_core::TxVersion;
use stm_core::with;

#[test]
fn transaction_simple() {
    let x = with(TxVersion::NonDeterministic, |_| Ok(42));
    assert_eq!(x, 42);
}

#[test]
fn transaction_read() {
    let read = TVar::new(42);

    let x = with(TxVersion::NonDeterministic, |trans| read.read(trans));

    assert_eq!(x, 42);
}

/// Run a transaction with a control function, that always aborts.
/// The transaction still tries to run a single time and should successfully
/// commit in this test.
#[test]
fn transaction_with_control_abort_on_single_run() {
    let read = TVar::new(42);

    let x = NonDeterministic::new().with_control(|_| TransactionControl::Abort, |tx| read.read(tx));

    assert_eq!(x, Some(42));
}

/// Run a transaction with a control function, that always aborts.
/// The transaction retries infinitely often. The control function will abort
/// this loop.
#[test]
fn transaction_with_control_abort_on_retry() {
    let x: Option<i64> =
        NonDeterministic::new().with_control(|_| TransactionControl::Abort, |_| Err(StmError::Retry));

    assert_eq!(x, None);
}

#[test]
fn transaction_write() {
    let write = TVar::new(42);

    with(TxVersion::NonDeterministic, |trans| write.write(trans, 0));

    assert_eq!(write.read_atomic(), 0);
}

#[test]
fn transaction_copy() {
    let read = TVar::new(42);
    let write = TVar::new(0);

    with(TxVersion::NonDeterministic, |trans| {
        let r = read.read(trans)?;
        write.write(trans, r)
    });

    assert_eq!(write.read_atomic(), 42);
}

#[test]
fn transaction_control_stuff() {
    let read = TVar::new(42);
    let write = TVar::new(0);

    with(TxVersion::NonDeterministic, |trans| {
        let r = read.read(trans)?;
        write.write(trans, r)
    });

    assert_eq!(write.read_atomic(), 42);
}

#[test]
fn read() {
    let mut log = Transaction::new();
    let var = TVar::new(vec![1, 2, 3, 4]);

    // The variable can be read.
    assert_eq!(&*log.read(&var).unwrap(), &[1, 2, 3, 4]);
}

#[test]
fn write_read() {
    let mut log = Transaction::new();
    let var = TVar::new(vec![1, 2]);

    log.write(&var, vec![1, 2, 3, 4]).unwrap();

    // Consecutive reads get the updated version.
    assert_eq!(log.read(&var).unwrap(), [1, 2, 3, 4]);

    // The original value is still preserved.
    assert_eq!(var.read_atomic(), [1, 2]);
}

/// A log with only writes always commits, and the writes become visible.
#[test]
fn commit_write_only() {
    let var = TVar::new(7);
    let mut log = Transaction::new();
    log.write(&var, 9).unwrap();
    assert!(log.commit());
    assert_eq!(var.read_atomic(), 9);
}

/// A read snapshot that another commit has outrun makes the commit fail,
/// and nothing is published.
#[test]
fn commit_stale_read_fails() {
    let var = TVar::new(1);
    let target = TVar::new(0);
    let mut log = Transaction::new();
    let seen = log.read(&var).unwrap();
    assert_eq!(seen, 1);
    log.write(&target, 5).unwrap();

    // Another transaction moves the variable on.
    let mut other = Transaction::new();
    other.write(&var, 2).unwrap();
    assert!(other.commit());

    assert!(!log.commit());
    assert_eq!(target.read_atomic(), 0);
}

/// Within one log, a read after a write observes the pending write; after a
/// clear, the log starts over from the committed state.
#[test]
fn clear_discards_pending_writes() {
    let var = TVar::new(3);
    let mut log = Transaction::new();
    log.write(&var, 8).unwrap();
    assert_eq!(log.read(&var).unwrap(), 8);
    log.clear();
    assert_eq!(log.read(&var).unwrap(), 3);
    assert!(log.commit());
    assert_eq!(var.read_atomic(), 3);
}

/// Cloned handles name the same variable: a commit through one is seen
/// through the other.
#[test]
fn clone_shares_the_variable() {
    let a = TVar::new(10);
    let b = a.clone();
    let mut log = Transaction::new();
    log.write(&a, 11).unwrap();
    assert!(log.commit());
    assert_eq!(b.read_atomic(), 11);
}

/// The retry error and the failure error stay distinct values.
#[test]
fn error_variants_are_distinct() {
    let r: Result<i64, StmError> = retry();
    assert_eq!(r, Err(StmError::Retry));
    assert_ne!(r, Err(StmError::Failure));
}
