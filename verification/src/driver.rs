use vstd::prelude::*;
use crate::deterministic::{Deterministic, TxHandle};
use crate::log_var::LogVarV;
use crate::nondeterministic::NonDeterministic;
use crate::result::{StmError, StmResult};
use crate::sync::block_thread_forever;
use crate::tvar::TVar;
use crate::tx::{validation_free, Transaction, TransactionControl};
use crate::value::{StmValue, ValueV};

verus! {

/// Which runtime drives a transaction: the deterministic protocol against a
/// registered handle, or the free-running optimistic one.
pub enum TxVersion {
    Deterministic(TxHandle),
    NonDeterministic,
}

/// The logged accesses a transaction runner offers.
pub trait TxBase {
    /// The runner's transaction log.
    spec fn log_of(&self) -> Map<usize, LogVarV>;

    /// Read a variable through the runner's log; see `Transaction::read`.
    fn read<T: StmValue>(&mut self, var: &TVar<T>) -> (r: StmResult<T>)
        ensures
            r is Ok,
            old(self).log_of().contains_key(var.key()) ==> {
                &&& final(self).log_of() == old(self).log_of()
                &&& match r {
                    Ok(x) => T::is_value_of(old(self).log_of()[var.key()].observed(), x),
                    Err(_) => false,
                }
            },
            !old(self).log_of().contains_key(var.key()) ==> exists|ver: u64, v: ValueV|
                {
                    &&& final(self).log_of() == old(self).log_of().insert(
                        var.key(),
                        LogVarV::Read(ver, v),
                    )
                    &&& match r {
                        Ok(x) => T::is_value_of(v, x),
                        Err(_) => false,
                    }
                },
    ;

    /// Write a variable through the runner's log; see `Transaction::write`.
    fn write<T: StmValue>(&mut self, var: &TVar<T>, value: T) -> (r: StmResult<()>)
        ensures
            r == StmResult::<()>::Ok(()),
            old(self).log_of().contains_key(var.key()) ==> final(self).log_of() == old(
                self,
            ).log_of().insert(
                var.key(),
                old(self).log_of()[var.key()].write_step(value.as_value()),
            ),
            !old(self).log_of().contains_key(var.key()) ==> final(self).log_of() == old(
                self,
            ).log_of().insert(var.key(), LogVarV::Write(value.as_value())),
    ;

    /// Alternative composition through the runner's log; see
    /// `Transaction::or` for the relation the clauses state.
    fn or<T, F1, F2>(&mut self, first: F1, second: F2) -> (r: StmResult<T>) where
        F1: Fn(&mut Transaction) -> StmResult<T>,
        F2: Fn(&mut Transaction) -> StmResult<T>,

        requires
            forall|t: &mut Transaction| #[trigger] call_requires(first, (t,)),
            forall|t: &mut Transaction| #[trigger] call_requires(second, (t,)),
        ensures
            ({
                ||| (exists|t: &mut Transaction|
                    {
                        &&& (#[trigger] call_ensures(first, (t,), r))
                        &&& (*t).log() == old(self).log_of()
                        &&& final(t).log() == final(self).log_of()
                        &&& r != StmResult::<T>::Err(StmError::Retry)
                    })
                ||| (exists|t1: &mut Transaction, t2: &mut Transaction|
                    {
                        &&& (#[trigger] call_ensures(
                            first,
                            (t1,),
                            StmResult::<T>::Err(StmError::Retry),
                        ))
                        &&& (#[trigger] call_ensures(second, (t2,), r))
                        &&& (*t1).log() == old(self).log_of()
                        &&& (*t2).log() == old(self).log_of()
                        &&& if r == StmResult::<T>::Err(StmError::Failure) {
                            final(self).log_of() == final(t2).log()
                        } else {
                            crate::tx::combined_log(
                                final(t2).log(),
                                final(t1).log(),
                                final(self).log_of(),
                            )
                        }
                    })
            }),
    ;
}

/// A transaction runner.
pub trait Tx: TxBase {
    /// Run `f` against a fresh log until an attempt commits, steering
    /// failures through `control`: an attempt that fails asks `control`
    /// whether to run again or to give the transaction up.
    ///
    /// A returned value always is the result of an attempt of `f` that
    /// returned it and committed. `None` comes from an abort decision of
    /// `control`, from the runner's astronomically large retry budget
    /// running out, or, under the deterministic protocol, from the
    /// coordination channels being gone.
    fn with_control<T, F, C>(&mut self, control: C, f: F) -> (r: Option<T>) where
        F: Fn(&mut Transaction) -> StmResult<T>,
        C: Fn(StmError) -> TransactionControl,

        requires
            forall|t: &mut Transaction| #[trigger] call_requires(f, (t,)),
            forall|e: StmError| #[trigger] call_requires(control, (e,)),
        ensures
            match r {
                Some(v) => exists|t: &mut Transaction, out: StmResult<T>|
                    #[trigger] call_ensures(f, (t,), out) && out == StmResult::<T>::Ok(v),
                None => true,
            },
    ;
}

/// Run a function with a transaction; equivalent to `atomically`.
///
/// The value returned is always one an attempt of `f` returned `Ok` with and
/// committed; the contract states this outright for the optimistic runner
/// on bodies that cannot fail an attempt (every outcome `Ok`, nothing to
/// validate). Where the driver gives the transaction up, which the
/// optimistic runner never does unless its astronomically large retry budget
/// runs out, and the deterministic one does only when the coordination
/// protocol has broken down, the thread parks forever in place of the
/// reference semantics' fatal stop, so no value is returned at all.
pub fn with<T, F>(v: TxVersion, f: F) -> (r: T) where F: Fn(&mut Transaction) -> StmResult<T>
    requires
        forall|t: &mut Transaction| #[trigger] call_requires(f, (t,)),
    ensures
        (v is NonDeterministic && (forall|t: &mut Transaction, out: StmResult<T>|
            #[trigger] call_ensures(f, (t,), out) ==> (validation_free((*t).log()) ==> out is Ok
                && validation_free(final(t).log()))))
            ==> exists|t: &mut Transaction, out: StmResult<T>|
                #[trigger] call_ensures(f, (t,), out) && out == StmResult::<T>::Ok(r),
{
    let keep_going = |_e: StmError| -> (c: TransactionControl)
        ensures
            c == TransactionControl::Retry,
        {
            TransactionControl::Retry
        };
    let r = match v {
        TxVersion::Deterministic(h) => {
            let mut d = Deterministic::new(h);
            d.with_control(keep_going, f)
        }
        TxVersion::NonDeterministic => {
            let mut n = NonDeterministic::new();
            n.drive(keep_going, f)
        }
    };
    match r {
        Some(t) => t,
        None => block_thread_forever(),
    }
}

} // verus!
