use vstd::prelude::*;
use crate::driver::{Tx, TxBase};
use crate::log_var::LogVarV;
use crate::result::{StmError, StmResult};
use crate::sync::{chan_new, chan_recv};
use crate::tvar::TVar;
use crate::tx::{validation_free, Transaction, TransactionControl};
use crate::value::StmValue;

verus! {

/// The free-running optimistic runner: run the body, try to commit, and on
/// failure run it again; a retry parks the thread on the wait lists of every
/// observed variable until a commit to one of them wakes it.
pub struct NonDeterministic {
    tx: Transaction,
}

impl NonDeterministic {
    /// A fresh runner with an empty log.
    pub fn new() -> (r: NonDeterministic)
        ensures
            r.log_of() == Map::<usize, LogVarV>::empty(),
    {
        NonDeterministic { tx: Transaction::new() }
    }

    /// The optimistic retry loop; `Tx::with_control` forwards here.
    ///
    /// Besides the shared promise that a returned value stems from an
    /// attempt of `f` that returned it and committed, this runner owes
    /// success outright wherever the body cannot fail it: starting from a
    /// log with nothing to validate, when every outcome of `f` on such a
    /// log returns `Ok` and leaves the log that way, the very first attempt
    /// commits and a value is returned.
    pub fn drive<T, F, C>(&mut self, control: C, f: F) -> (r: Option<T>) where
        F: Fn(&mut Transaction) -> StmResult<T>,
        C: Fn(StmError) -> TransactionControl,

        requires
            forall|t: &mut Transaction| #[trigger] call_requires(f, (t,)),
            forall|e: StmError| #[trigger] call_requires(control, (e,)),
        ensures
            match r {
                Some(v) => exists|t: &mut Transaction, out: StmResult<T>|
                    #[trigger] call_ensures(f, (t,), out) && out == StmResult::<T>::Ok(v),
                None => true,
            },
            (validation_free(old(self).log_of()) && (forall|t: &mut Transaction, out: StmResult<T>|
                #[trigger] call_ensures(f, (t,), out) ==> (validation_free((*t).log())
                    ==> out is Ok && validation_free(final(t).log())))) ==> r is Some,
    {
        let mut rounds: u64 = 0;
        loop
            invariant
                forall|t: &mut Transaction| #[trigger] call_requires(f, (t,)),
                forall|e: StmError| #[trigger] call_requires(control, (e,)),
                validation_free(old(self).log_of()) ==> validation_free(self.tx.log()),
            decreases u64::MAX - rounds,
        {
            let t: &mut Transaction = &mut self.tx;
            let res = f(t);
            match res {
                Ok(v) => {
                    if self.tx.commit() {
                        return Some(v);
                    }
                }
                Err(e) => {
                    match control(e) {
                        TransactionControl::Abort => {
                            return None;
                        }
                        TransactionControl::Retry => {
                            // Enroll on every observed variable before
                            // parking; skip parking if one has already
                            // changed, since its wake may have come first.
                            let (w, park) = chan_new::<()>();
                            let changed = self.tx.register_waits(&w);
                            if !changed {
                                let _ = chan_recv(&park);
                            }
                        }
                    }
                }
            }
            self.tx.clear();
            if rounds == u64::MAX {
                // The retry budget is out; give the transaction up.
                return None;
            }
            rounds += 1;
        }
    }
}

impl TxBase for NonDeterministic {
    closed spec fn log_of(&self) -> Map<usize, LogVarV> {
        self.tx.log()
    }

    fn read<T: StmValue>(&mut self, var: &TVar<T>) -> (r: StmResult<T>) {
        self.tx.read(var)
    }

    fn write<T: StmValue>(&mut self, var: &TVar<T>, value: T) -> (r: StmResult<()>) {
        self.tx.write(var, value)
    }

    fn or<T, F1, F2>(&mut self, first: F1, second: F2) -> (r: StmResult<T>) where
        F1: Fn(&mut Transaction) -> StmResult<T>,
        F2: Fn(&mut Transaction) -> StmResult<T>,
     {
        self.tx.or(first, second)
    }
}

impl Tx for NonDeterministic {
    fn with_control<T, F, C>(&mut self, control: C, f: F) -> (r: Option<T>) where
        F: Fn(&mut Transaction) -> StmResult<T>,
        C: Fn(StmError) -> TransactionControl,
     {
        self.drive(control, f)
    }
}

} // verus!
