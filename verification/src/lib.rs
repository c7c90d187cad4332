//! Software transactional memory: composable, lock-free-looking atomic
//! updates on shared memory cells.
//!
//! Client code expresses reads and writes on transactional variables
//! (`TVar`) inside a closure; `atomically` runs the closure speculatively
//! against a per-thread log (`Transaction`), validates the log's read
//! snapshots against the committed state, and either publishes its writes
//! as one atomic step or runs the closure again. `retry` abandons an
//! attempt and blocks the thread until a variable it observed changes;
//! `Transaction::or` composes alternatives. Next to this optimistic mode, a
//! deterministic one (`dtm`, `det_atomically`, `freeze`) drives a
//! registered set of transactions so that their commits land in
//! registration order, whatever the thread schedule.
//!
//! Keep transaction bodies free of side effects: they may run many times,
//! and blocking inside one defeats the retry mechanism. Nested top-level
//! atomic blocks on one thread are a usage bug; the runtime's verified core
//! cannot hold the thread-local flag that detects them, so embedding
//! applications are expected to wrap `atomically` with such a check.

use vstd::prelude::*;

mod deterministic;
mod driver;
mod log_var;
mod nondeterministic;
mod result;
mod sync;
mod tvar;
mod tx;
mod value;

pub use log_var::{lemma_obsolete_residue, lemma_write_keeps_snapshot, lemma_write_then_observe, LogVar, LogVarV};
pub use result::{StmError, StmResult};
pub use deterministic::{subsequence_of, Coordination, Deterministic, TxHandle};
pub use driver::{with, Tx, TxBase, TxVersion};
pub use nondeterministic::NonDeterministic;
pub use tvar::TVar;
pub use tx::{combined_log, lemma_or_left_retry, lemma_or_right_first, validation_free, Transaction, TransactionControl};
pub use value::{StmValue, Value, ValueV};

verus! {

/// Abort the current attempt and ask to run the whole transaction again.
///
/// The runtime blocks until one of the variables the attempt observed has
/// changed, then re-runs the body.
#[inline]
pub fn retry<T>() -> (r: StmResult<T>)
    ensures
        r == StmResult::<T>::Err(StmError::Retry),
{
    Err(StmError::Retry)
}

/// Retry until `cond` is true.
#[inline]
pub fn guard(cond: bool) -> (r: StmResult<()>)
    ensures
        cond ==> r == StmResult::<()>::Ok(()),
        !cond ==> r == StmResult::<()>::Err(StmError::Retry),
{
    if cond {
        Ok(())
    } else {
        retry()
    }
}

/// Unwrap an `Option`, or retry if it is `None`.
///
/// `optionally` is the inverse of `unwrap_or_retry`.
#[inline]
pub fn unwrap_or_retry<T>(option: Option<T>) -> (r: StmResult<T>)
    ensures
        match option {
            Some(x) => r == StmResult::<T>::Ok(x),
            None => r == StmResult::<T>::Err(StmError::Retry),
        },
{
    match option {
        Some(x) => Ok(x),
        None => retry(),
    }
}

/// Run a function atomically by using software transactional memory.
///
/// Runs `f` against a fresh transaction until an attempt commits and
/// returns its value; see `with`, which this calls, for the one degenerate
/// case in which the thread parks instead. The contract says when the value
/// is owed: for a body that, run on a log with nothing to validate, always
/// returns `Ok` and leaves the log that way, the first attempt commits, and
/// the result is a value some run of the body returned `Ok`.
pub fn atomically<T, F>(f: F) -> (r: T) where F: Fn(&mut Transaction) -> StmResult<T>
    requires
        forall|t: &mut Transaction| #[trigger] call_requires(f, (t,)),
    ensures
        (forall|t: &mut Transaction, out: StmResult<T>|
            #[trigger] call_ensures(f, (t,), out) ==> (validation_free((*t).log()) ==> out is Ok
                && validation_free(final(t).log())))
            ==> exists|t: &mut Transaction, out: StmResult<T>|
                #[trigger] call_ensures(f, (t,), out) && out == StmResult::<T>::Ok(r),
{
    with(TxVersion::NonDeterministic, f)
}

/// Run a function atomically under the deterministic protocol, against a
/// registered handle. Commits of the handles of one coordinator land in
/// registration order. No success clause is stated here: whether a value
/// comes back depends on the coordinator's channels staying alive, which no
/// contract of this crate can promise.
pub fn det_atomically<T, F>(h: TxHandle, f: F) -> T where F: Fn(&mut Transaction) -> StmResult<T>
    requires
        forall|t: &mut Transaction| #[trigger] call_requires(f, (t,)),
{
    with(TxVersion::Deterministic(h), f)
}

/// A fresh coordinator for deterministic software transactional memory.
pub fn dtm() -> (r: Coordination)
    ensures
        r.participants() == 0,
{
    Coordination::new()
}

/// Consume the coordinator: freeze its participant set and run the
/// coordination loop on the calling thread; it returns exactly when every
/// participant has completed. See `Coordination::freeze` for the contract
/// on the coordinator it consumes.
pub fn freeze(d: Coordination) {
    let mut d = d;
    d.freeze()
}

/// Optionally run a transaction `f`: its result under `Some` if it neither
/// retried nor failed, `None` in place of blocking if it retried, and its
/// failure unchanged. A body that can only retry makes the whole call
/// return `Ok(None)`.
pub fn optionally<T, F>(tx: &mut Transaction, f: F) -> (r: StmResult<Option<T>>) where
    F: Fn(&mut Transaction) -> StmResult<T>,

    requires
        forall|t: &mut Transaction| #[trigger] call_requires(f, (t,)),
    ensures
        r != StmResult::<Option<T>>::Err(StmError::Retry),
        match r {
            Ok(Some(x)) => exists|t: &mut Transaction, out: StmResult<T>|
                {
                    &&& (#[trigger] call_ensures(f, (t,), out))
                    &&& out == StmResult::<T>::Ok(x)
                    &&& (*t).log() == old(tx).log()
                    &&& final(t).log() == final(tx).log()
                },
            Ok(None) => exists|t: &mut Transaction, out: StmResult<T>|
                {
                    &&& (#[trigger] call_ensures(f, (t,), out))
                    &&& out == StmResult::<T>::Err(StmError::Retry)
                    &&& (*t).log() == old(tx).log()
                    &&& combined_log(old(tx).log(), final(t).log(), final(tx).log())
                },
            Err(e) => exists|t: &mut Transaction, out: StmResult<T>|
                {
                    &&& (#[trigger] call_ensures(f, (t,), out))
                    &&& out == StmResult::<T>::Err(e)
                    &&& (*t).log() == old(tx).log()
                    &&& final(t).log() == final(tx).log()
                },
        },
        (forall|t: &mut Transaction, out: StmResult<T>|
            #[trigger] call_ensures(f, (t,), out) ==> out == StmResult::<T>::Err(StmError::Retry))
            ==> r == StmResult::<Option<T>>::Ok(None::<T>),
        (forall|t: &mut Transaction, out: StmResult<T>|
            #[trigger] call_ensures(f, (t,), out) ==> out != StmResult::<T>::Err(StmError::Retry))
            ==> r != StmResult::<Option<T>>::Ok(None::<T>),
{
    let copy = tx.duplicate();
    let t: &mut Transaction = &mut *tx;
    let res = f(t);
    match res {
        Ok(x) => Ok(Some(x)),
        Err(StmError::Retry) => {
            // Roll back to the log as it stood before the attempt, keeping
            // the attempt's wait-relevant residue, as the alternative
            // composition does for an abandoned branch.
            let mut attempt = copy;
            std::mem::swap(tx, &mut attempt);
            tx.combine(attempt);
            Ok(None)
        }
        Err(StmError::Failure) => Err(StmError::Failure),
    }
}

} // verus!
