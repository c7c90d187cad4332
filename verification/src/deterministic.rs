use vstd::prelude::*;
use std::sync::mpsc::{Receiver, Sender};
use crate::driver::{Tx, TxBase};
use crate::log_var::LogVarV;
use crate::result::{StmError, StmResult};
use crate::sync::{block_thread_forever, chan_new, chan_recv, chan_send};
use crate::tvar::TVar;
use crate::tx::{Transaction, TransactionControl};
use crate::value::StmValue;

verus! {

// The deterministic protocol threads a single token through the registered
// participants in registration order each round; holding the token
// authorizes the commit point, so successful commits appear in registration
// order across all rounds.
/// The participant's completion decision, reported to the coordinator at the
/// end of each round.
enum Done {
    Retry,
    Completed,
}

/// The coordinator's end of one participant's channels.
struct TxCoordinationState {
    done_rx: Receiver<Done>,
    coordination_tx: Sender<(Receiver<()>, Sender<()>)>,
}

/// A single-use participant handle. Each round it receives the pair
/// (predecessor token receiver, successor token sender) and reports its
/// decision back.
pub struct TxHandle {
    done_tx: Sender<Done>,
    coordination_rx: Receiver<(Receiver<()>, Sender<()>)>,
}

/// Whether `a` is `b` with zero or more elements dropped, order kept.
pub open spec fn subsequence_of<A>(a: Seq<A>, b: Seq<A>) -> bool
    decreases a.len() + b.len(),
{
    if a.len() == 0 {
        true
    } else if b.len() == 0 {
        false
    } else if a.last() == b.last() {
        subsequence_of(a.drop_last(), b.drop_last())
    } else {
        subsequence_of(a, b.drop_last())
    }
}

proof fn lemma_subsequence_drop_last<A>(a: Seq<A>, b: Seq<A>)
    requires
        a.len() > 0,
        subsequence_of(a, b),
    ensures
        subsequence_of(a.drop_last(), b),
    decreases a.len() + b.len(),
{
    assert(b.len() > 0);
    if a.last() == b.last() {
        lemma_subsequence_grow(a.drop_last(), b.drop_last(), b.last());
        assert(b.drop_last().push(b.last()) =~= b);
    } else {
        lemma_subsequence_drop_last(a, b.drop_last());
        lemma_subsequence_grow(a.drop_last(), b.drop_last(), b.last());
        assert(b.drop_last().push(b.last()) =~= b);
    }
}

/// Extending the larger sequence keeps the subsequence relation.
proof fn lemma_subsequence_grow<A>(a: Seq<A>, b: Seq<A>, x: A)
    requires
        subsequence_of(a, b),
    ensures
        subsequence_of(a, b.push(x)),
    decreases a.len() + b.len() + 1,
{
    let b2 = b.push(x);
    assert(b2.drop_last() =~= b);
    assert(b2.last() == x);
    if a.len() == 0 {
    } else if a.last() == x {
        lemma_subsequence_drop_last(a, b);
    } else {
    }
}

/// Keeping the element on both sides keeps the subsequence relation.
proof fn lemma_subsequence_keep<A>(a: Seq<A>, b: Seq<A>, x: A)
    requires
        subsequence_of(a, b),
    ensures
        subsequence_of(a.push(x), b.push(x)),
{
    let a2 = a.push(x);
    let b2 = b.push(x);
    assert(a2.last() == b2.last());
    assert(a2.drop_last() =~= a);
    assert(b2.drop_last() =~= b);
}

/// The registry of participants. The order of the list is the registration
/// order, and it defines the commit order of every round.
pub struct Coordination {
    txs: Vec<TxCoordinationState>,
}

impl Coordination {
    /// How many participants still take part.
    pub closed spec fn participants(self) -> nat {
        self.txs@.len()
    }

    /// A coordinator with no participants.
    pub fn new() -> (r: Coordination)
        ensures
            r.participants() == 0,
    {
        Coordination { txs: Vec::new() }
    }

    /// Append a participant slot and hand out its single-use handle.
    /// Registration order defines commit order.
    pub fn register(&mut self) -> (h: TxHandle)
        ensures
            final(self).participants() == old(self).participants() + 1,
    {
        let (done_tx, done_rx) = chan_new::<Done>();
        let (coordination_tx, coordination_rx) = chan_new::<(Receiver<()>, Sender<()>)>();
        self.txs.push(TxCoordinationState { done_rx, coordination_tx });
        TxHandle { done_tx, coordination_rx }
    }

    /// Build this round's token chain over the participants in order: seed
    /// the first predecessor receiver with the token, then hand each
    /// participant its (predecessor receiver, successor sender) pair. The
    /// returned receiver would yield the token after the last participant
    /// passes it on.
    fn assign_channels(&self) -> Receiver<()> {
        let (first_tx, first_rx) = chan_new::<()>();
        let seeded = chan_send(&first_tx, ());
        match seeded {
            Ok(_) => {
            }
            Err(_) => {
            }
        }
        let mut prev_rx = first_rx;
        let n = self.txs.len();
        let mut i: usize = 0;
        while i < n
            invariant
                n == self.txs@.len(),
                i <= n,
            decreases n - i,
        {
            let (n_tx, n_rx) = chan_new::<()>();
            let sent = chan_send(&self.txs[i].coordination_tx, (prev_rx, n_tx));
            match sent {
                Ok(_) => {
                }
                Err(_) => {
                }
            }
            prev_rx = n_rx;
            i += 1;
        }
        prev_rx
    }

    /// One round's barrier: drain every participant's decision, in order,
    /// and keep exactly the retrying ones for the next round. A participant
    /// whose channel is gone is taken as completed. The survivors stay in
    /// registration order: the kept list is a subsequence of the old one.
    fn drain_round(txs: Vec<TxCoordinationState>) -> (r: Vec<TxCoordinationState>)
        ensures
            subsequence_of(r@, txs@),
    {
        let ghost txs0 = txs@;
        let n = txs.len();
        let mut retries: Vec<TxCoordinationState> = Vec::new();
        let mut remaining = txs;
        let mut i: usize = 0;
        while i < n
            invariant
                n == txs0.len(),
                i <= n,
                remaining@ =~= txs0.skip(i as int),
                subsequence_of(retries@, txs0.take(i as int)),
            decreases n - i,
        {
            let tx = remaining.remove(0);
            let ghost prefix = txs0.take(i as int);
            let done = chan_recv(&tx.done_rx);
            proof {
                assert(txs0.take(i + 1 as int) =~= prefix.push(txs0[i as int]));
                assert(txs0[i as int] == tx);
            }
            match done {
                Ok(Done::Retry) => {
                    proof {
                        lemma_subsequence_keep(retries@, prefix, tx);
                    }
                    retries.push(tx);
                }
                Ok(Done::Completed) => {
                    proof {
                        lemma_subsequence_grow(retries@, prefix, tx);
                    }
                }
                Err(_) => {
                    proof {
                        lemma_subsequence_grow(retries@, prefix, tx);
                    }
                }
            }
            i += 1;
        }
        retries
    }

    /// The coordinator loop: each round, build the token chain over the
    /// still-active participants in registration order, wait for every
    /// decision, and go on with the retrying subset, in order, until all
    /// have completed. Blocks the calling thread for the whole run: it
    /// returns exactly when no participant is left active.
    pub fn coordinate(&mut self)
        ensures
            final(self).participants() == 0,
    {
        let mut rounds: u64 = 0;
        loop
            decreases u64::MAX - rounds,
        {
            if self.txs.len() == 0 {
                return;
            }
            let _last_rx = self.assign_channels();
            let mut txs: Vec<TxCoordinationState> = Vec::new();
            std::mem::swap(&mut txs, &mut self.txs);
            self.txs = Self::drain_round(txs);
            if rounds == u64::MAX {
                // The round budget is out after astronomically many rounds
                // of retries: the protocol has stalled, so park for good
                // rather than return mid-protocol. The line after never
                // runs; it closes the contract on this dead path.
                let never: () = block_thread_forever();
                self.txs = Vec::new();
                return never;
            }
            rounds += 1;
        }
    }

    /// Freeze the set of participants and run the coordinator on the
    /// calling thread; it returns exactly when every participant has
    /// completed.
    pub fn freeze(&mut self)
        ensures
            final(self).participants() == 0,
    {
        self.coordinate()
    }
}

/// The deterministic runner: one registered participant's driver.
pub struct Deterministic {
    handle: TxHandle,
    tx: Transaction,
}

impl Deterministic {
    pub fn new(handle: TxHandle) -> Deterministic {
        Deterministic { handle, tx: Transaction::new() }
    }
}

impl TxBase for Deterministic {
    closed spec fn log_of(&self) -> Map<usize, LogVarV> {
        self.tx.log()
    }

    fn read<T: StmValue>(&mut self, var: &TVar<T>) -> (r: StmResult<T>) {
        self.tx.read(var)
    }

    fn write<T: StmValue>(&mut self, var: &TVar<T>, value: T) -> (r: StmResult<()>) {
        self.tx.write(var, value)
    }

    fn or<T, F1, F2>(&mut self, first: F1, second: F2) -> (r: StmResult<T>) where
        F1: Fn(&mut Transaction) -> StmResult<T>,
        F2: Fn(&mut Transaction) -> StmResult<T>,
     {
        self.tx.or(first, second)
    }
}

impl Tx for Deterministic {
    fn with_control<T, F, C>(&mut self, control: C, f: F) -> (r: Option<T>) where
        F: Fn(&mut Transaction) -> StmResult<T>,
        C: Fn(StmError) -> TransactionControl,
     {
        let mut rounds: u64 = 0;
        loop
            invariant
                forall|t: &mut Transaction| #[trigger] call_requires(f, (t,)),
                forall|e: StmError| #[trigger] call_requires(control, (e,)),
            decreases u64::MAX - rounds,
        {
            // The round barrier: wait for this round's token channels.
            let pair = chan_recv(&self.handle.coordination_rx);
            match pair {
                Err(_) => {
                    // The coordinator is gone: the protocol has broken down.
                    return None;
                }
                Ok((token_rx, token_tx)) => {
                    let t: &mut Transaction = &mut self.tx;
                    let res = f(t);
                    // The commit point needs the token from the predecessor.
                    match chan_recv(&token_rx) {
                        Err(_) => {
                            return None;
                        }
                        Ok(token) => {
                            let mut outcome: Option<T> = None;
                            let mut decision = TransactionControl::Retry;
                            match res {
                                Ok(v) => {
                                    if self.tx.commit() {
                                        decision = TransactionControl::Abort;
                                        outcome = Some(v);
                                    }
                                }
                                Err(e) => {
                                    decision = control(e);
                                }
                            }
                            // Whatever was decided, pass the token on.
                            let passed = chan_send(&token_tx, token);
                            match passed {
                                Ok(_) => {
                                }
                                Err(_) => {
                                }
                            }
                            match decision {
                                TransactionControl::Abort => {
                                    let sent = chan_send(&self.handle.done_tx, Done::Completed);
                                    match sent {
                                        Ok(_) => {
                                        }
                                        Err(_) => {
                                        }
                                    }
                                    return outcome;
                                }
                                TransactionControl::Retry => {
                                    self.tx.clear();
                                    let sent = chan_send(&self.handle.done_tx, Done::Retry);
                                    match sent {
                                        Ok(_) => {
                                        }
                                        Err(_) => {
                                        }
                                    }
                                }
                            }
                        }
                    }
                }
            }
            if rounds == u64::MAX {
                return None;
            }
            rounds += 1;
        }
    }
}

} // verus!
