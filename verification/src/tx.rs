use vstd::prelude::*;
use std::sync::Arc;
use std::sync::mpsc::Sender;
use crate::log_var::{LogVar, LogVarV};
use crate::tvar::{share_block, ControlBlock, Stored, TVar};
use crate::value::{StmValue, ValueV};
use crate::result::{StmError, StmResult};
use crate::sync::chan_sender_dup;

verus! {

/// The wait-set-union property of the alternative composition: `post` is
/// `live` extended, for every variable that `live` does not hold, with the
/// obsolete residue of `disc`'s entry, so a blocked retry waits on what
/// either branch observed.
pub open spec fn combined_log(
    live: Map<usize, LogVarV>,
    disc: Map<usize, LogVarV>,
    post: Map<usize, LogVarV>,
) -> bool {
    &&& forall|k: usize| #[trigger]
        live.dom().contains(k) ==> post.dom().contains(k) && post[k] == live[k]
    &&& forall|k: usize| #[trigger]
        disc.dom().contains(k) && !live.dom().contains(k) && disc[k].obsolete_spec() is Some
            ==> post.dom().contains(k) && Some(post[k]) == disc[k].obsolete_spec()
    &&& forall|k: usize| #[trigger]
        post.dom().contains(k) ==> live.dom().contains(k) || (disc.dom().contains(k)
            && !live.dom().contains(k) && disc[k].obsolete_spec() is Some)
}

/// No entry of `log` carries a live read snapshot: there is nothing to
/// validate, so a commit of such a log cannot fail.
pub open spec fn validation_free(log: Map<usize, LogVarV>) -> bool {
    forall|k: usize| log.dom().contains(k) ==> !(#[trigger] log[k]).needs_validation()
}

/// What a driver should do after a failed attempt: run the body again, or
/// give the transaction up.
#[derive(Debug, Clone, Copy, PartialEq, Eq, Structural)]
pub enum TransactionControl {
    Retry,
    Abort,
}

/// One slot of the transaction log: the variable's key, a handle on its
/// control block, and how the transaction has touched it.
struct TxEntry {
    key: usize,
    block: Arc<ControlBlock>,
    var: LogVar,
}

/// The per-transaction log: an ordered map from variable identity to entry.
///
/// The slots are kept sorted by key, and the keys order the commit-time lock
/// acquisition globally, so two commits can never deadlock on each other.
pub struct Transaction {
    entries: Vec<TxEntry>,
}

impl Transaction {
    /// Slots strictly sorted by key: the deadlock-freedom invariant.
    #[verifier::type_invariant]
    spec fn wf(self) -> bool {
        forall|i: int, j: int|
            0 <= i < j < self.entries@.len() ==> self.entries@[i].key < self.entries@[j].key
    }

    /// Whether the log holds a slot for key `k`.
    pub closed spec fn contains_key(self, k: usize) -> bool {
        exists|i: int| 0 <= i < self.entries@.len() && self.entries@[i].key == k
    }

    spec fn index_of(self, k: usize) -> int {
        choose|i: int| 0 <= i < self.entries@.len() && self.entries@[i].key == k
    }

    /// The log as a map from variable identity to entry shape.
    pub closed spec fn log(self) -> Map<usize, LogVarV> {
        Map::new(
            |k: usize| self.contains_key(k),
            |k: usize| self.entries@[self.index_of(k)].var@,
        )
    }

    proof fn lemma_entry_in_log(self, i: int)
        requires
            self.wf(),
            0 <= i < self.entries@.len(),
        ensures
            self.log().contains_key(self.entries@[i].key),
            self.log()[self.entries@[i].key] == self.entries@[i].var@,
    {
        let k = self.entries@[i].key;
        assert(self.contains_key(k));
        let j = self.index_of(k);
        assert(0 <= j < self.entries@.len() && self.entries@[j].key == k);
        if j < i {
            assert(self.entries@[j].key < self.entries@[i].key);
        } else if i < j {
            assert(self.entries@[i].key < self.entries@[j].key);
        }
    }

    /// An empty log.
    pub fn new() -> (r: Transaction)
        ensures
            r.log() == Map::<usize, LogVarV>::empty(),
    {
        let t = Transaction { entries: Vec::new() };
        proof {
            assert(t.log() =~= Map::<usize, LogVarV>::empty());
        }
        t
    }

    /// Empty the log; used between attempts of one transaction.
    pub fn clear(&mut self)
        ensures
            final(self).log() == Map::<usize, LogVarV>::empty(),
    {
        self.entries = Vec::new();
        proof {
            assert(self.log() =~= Map::<usize, LogVarV>::empty());
        }
    }

    /// The slot index holding key `k`, if any.
    fn find(&self, k: usize) -> (r: Option<usize>)
        ensures
            match r {
                Some(i) => {
                    &&& i < self.entries@.len()
                    &&& self.entries@[i as int].key == k
                    &&& self.log().contains_key(k)
                    &&& self.log()[k] == self.entries@[i as int].var@
                },
                None => !self.log().contains_key(k),
            },
    {
        proof {
            use_type_invariant(&*self);
        }
        let n = self.entries.len();
        let mut i: usize = 0;
        while i < n
            invariant
                n == self.entries@.len(),
                i <= n,
                forall|j: int| 0 <= j < i ==> self.entries@[j].key != k,
            decreases n - i,
        {
            if self.entries[i].key == k {
                proof {
                    use_type_invariant(&*self);
                    self.lemma_entry_in_log(i as int);
                }
                return Some(i);
            }
            i += 1;
        }
        None
    }

    /// Insert a slot for a key the log does not hold yet, keeping the slots
    /// sorted.
    fn insert_sorted(&mut self, e: TxEntry)
        requires
            !old(self).log().contains_key(e.key),
        ensures
            final(self).log() == old(self).log().insert(e.key, e.var@),
    {
        proof {
            use_type_invariant(&*self);
        }
        let ghost pre = *self;
        let mut es: Vec<TxEntry> = Vec::new();
        std::mem::swap(&mut es, &mut self.entries);
        let n = es.len();
        let mut i: usize = 0;
        while i < n && es[i].key < e.key
            invariant
                n == es@.len(),
                i <= n,
                forall|j: int| 0 <= j < i ==> es@[j].key < e.key,
            decreases n - i,
        {
            i += 1;
        }
        proof {
            assert(forall|j: int| 0 <= j < pre.entries@.len() ==> pre.entries@[j].key != e.key)
                by {
                assert(forall|j: int|
                    0 <= j < pre.entries@.len() ==> pre.contains_key(#[trigger] pre.entries@[j].key));
            }
        }
        es.insert(i, e);
        self.entries = es;
        proof {
            self.lemma_insert_log(pre, e, i as int);
        }
    }

    proof fn lemma_insert_log(self, pre: Transaction, e: TxEntry, i: int)
        requires
            pre.wf(),
            0 <= i <= pre.entries@.len(),
            forall|j: int| 0 <= j < pre.entries@.len() ==> pre.entries@[j].key != e.key,
            forall|j: int| 0 <= j < i ==> pre.entries@[j].key < e.key,
            i < pre.entries@.len() ==> pre.entries@[i].key > e.key,
            self.entries@ == pre.entries@.insert(i, e),
        ensures
            self.wf(),
            self.log() == pre.log().insert(e.key, e.var@),
    {
        let post = self.entries@;
        assert forall|a: int, b: int| 0 <= a < b < post.len() implies post[a].key
            < post[b].key by {
            if a < i && b < i {
                assert(post[a] == pre.entries@[a] && post[b] == pre.entries@[b]);
            } else if a < i && b == i {
                assert(post[a] == pre.entries@[a]);
            } else if a < i && b > i {
                assert(post[a] == pre.entries@[a] && post[b] == pre.entries@[b - 1]);
                if a < b - 1 {
                    assert(pre.entries@[a].key < pre.entries@[b - 1].key);
                } else {
                    assert(e.key < pre.entries@[b - 1].key);
                }
            } else if a == i {
                assert(post[b] == pre.entries@[b - 1]);
                if i < b - 1 {
                    assert(pre.entries@[i].key < pre.entries@[b - 1].key);
                }
                assert(e.key < pre.entries@[b - 1].key);
            } else {
                assert(post[a] == pre.entries@[a - 1] && post[b] == pre.entries@[b - 1]);
            }
        }
        assert forall|k: usize| true implies #[trigger] self.log().contains_key(k)
            == pre.log().insert(e.key, e.var@).contains_key(k) by {
            if k == e.key {
                assert(self.entries@[i].key == k);
                assert(self.contains_key(k));
            } else {
                if pre.contains_key(k) {
                    let j = pre.index_of(k);
                    if j < i {
                        assert(self.entries@[j].key == k);
                    } else {
                        assert(self.entries@[j + 1].key == k);
                    }
                    assert(self.contains_key(k));
                } else if self.contains_key(k) {
                    let j = self.index_of(k);
                    if j < i {
                        assert(pre.entries@[j].key == k);
                    } else {
                        assert(pre.entries@[j - 1].key == k);
                    }
                    assert(pre.contains_key(k));
                }
            }
        }
        assert forall|k: usize| self.log().contains_key(k) implies self.log()[k] == pre.log().insert(
            e.key,
            e.var@,
        )[k] by {
            let j = self.index_of(k);
            assert(0 <= j < post.len() && post[j].key == k);
            self.lemma_entry_in_log(j);
            if k == e.key {
                if j < i {
                    assert(post[j] == pre.entries@[j]);
                } else if j > i {
                    assert(post[j] == pre.entries@[j - 1]);
                }
                assert(post[j] == e);
            } else {
                if j < i {
                    assert(post[j] == pre.entries@[j]);
                    pre.lemma_entry_in_log(j);
                } else {
                    assert(j > i);
                    assert(post[j] == pre.entries@[j - 1]);
                    pre.lemma_entry_in_log(j - 1);
                }
            }
        }
        assert(self.log() =~= pre.log().insert(e.key, e.var@));
    }

    /// Read a variable inside the transaction.
    ///
    /// If the log already holds a slot for the variable, the read observes
    /// that slot: the pending write if one exists, else the recorded
    /// snapshot. Otherwise the current committed payload is read, recorded
    /// as a fresh read snapshot, and returned. Never fails.
    pub fn read<T: StmValue>(&mut self, var: &TVar<T>) -> (r: StmResult<T>)
        ensures
            r is Ok,
            old(self).log().contains_key(var.key()) ==> {
                &&& final(self).log() == old(self).log()
                &&& match r {
                    Ok(x) => T::is_value_of(old(self).log()[var.key()].observed(), x),
                    Err(_) => false,
                }
            },
            !old(self).log().contains_key(var.key()) ==> exists|ver: u64, v: ValueV|
                {
                    &&& final(self).log() == old(self).log().insert(var.key(), LogVarV::Read(ver, v))
                    &&& match r {
                        Ok(x) => T::is_value_of(v, x),
                        Err(_) => false,
                    }
                },
    {
        let k = var.id_key();
        match self.find(k) {
            Some(i) => {
                let value = self.entries[i].var.read_value();
                Ok(T::from_value(value))
            }
            None => {
                let stored = var.block_ref().snapshot();
                let ver = stored.version;
                let copy = stored.value.dup();
                let e = TxEntry {
                    key: k,
                    block: share_block(var.block_ref()),
                    var: LogVar::Read(ver, stored.value),
                };
                let ghost entry_view = e.var@;
                self.insert_sorted(e);
                let x = T::from_value(copy);
                proof {
                    assert(entry_view matches LogVarV::Read(v2, p2) && T::is_value_of(p2, x));
                }
                Ok(x)
            }
        }
    }

    /// Write a value to a variable inside the transaction.
    ///
    /// The write lands in the log slot as the table of entry transitions
    /// says, and becomes visible to other threads only at commit.
    /// Never fails.
    pub fn write<T: StmValue>(&mut self, var: &TVar<T>, value: T) -> (r: StmResult<()>)
        ensures
            r == StmResult::<()>::Ok(()),
            old(self).log().contains_key(var.key()) ==> final(self).log() == old(self).log().insert(
                var.key(),
                old(self).log()[var.key()].write_step(value.as_value()),
            ),
            !old(self).log().contains_key(var.key()) ==> final(self).log() == old(self).log().insert(
                var.key(),
                LogVarV::Write(value.as_value()),
            ),
    {
        let k = var.id_key();
        let w = value.to_value();
        match self.find(k) {
            Some(i) => {
                let nv = self.entries[i].var.dup().apply_write(w);
                self.set_entry_var(i, nv);
            }
            None => {
                let e = TxEntry {
                    key: k,
                    block: share_block(var.block_ref()),
                    var: LogVar::Write(w),
                };
                self.insert_sorted(e);
            }
        }
        Ok(())
    }

    /// Replace the entry of slot `i`, keeping its key and block.
    fn set_entry_var(&mut self, i: usize, nv: LogVar)
        requires
            i < old(self).entries@.len(),
        ensures
            final(self).log() == old(self).log().insert(old(self).entries@[i as int].key, nv@),
            final(self).entries@.len() == old(self).entries@.len(),
            final(self).entries@[i as int].key == old(self).entries@[i as int].key,
    {
        proof {
            use_type_invariant(&*self);
        }
        let ghost pre = *self;
        let k = self.entries[i].key;
        let b = share_block(&self.entries[i].block);
        let mut es: Vec<TxEntry> = Vec::new();
        std::mem::swap(&mut es, &mut self.entries);
        es[i] = TxEntry { key: k, block: b, var: nv };
        self.entries = es;
        proof {
            assert forall|k2: usize| true implies #[trigger] self.contains_key(k2)
                == pre.contains_key(k2) by {
                if pre.contains_key(k2) {
                    let j = pre.index_of(k2);
                    assert(self.entries@[j].key == k2);
                } else if self.contains_key(k2) {
                    let j = self.index_of(k2);
                    assert(pre.entries@[j].key == k2);
                }
            }
            assert forall|k2: usize| self.log().contains_key(k2) implies self.log()[k2]
                == pre.log().insert(k, nv@)[k2] by {
                let j = self.index_of(k2);
                self.lemma_entry_in_log(j);
                if k2 == k {
                    if j != i {
                        assert(pre.entries@[j].key == k2);
                        assert(pre.entries@[i as int].key == k);
                    }
                    assert(j == i);
                } else {
                    assert(j != i);
                    assert(pre.entries@[j].key == k2);
                    pre.lemma_entry_in_log(j);
                }
            }
            assert(self.log() =~= pre.log().insert(k, nv@));
        }
    }
    proof fn lemma_log_depends_on_entries(a: Transaction, b: Transaction)
        requires
            a.entries@ == b.entries@,
        ensures
            a.log() == b.log(),
    {
        assert(a.log() =~= b.log());
    }

    /// Release the commit locks of the slots named in `xs`.
    fn release_all(&self, xs: &Vec<usize>)
        requires
            forall|j: int| 0 <= j < xs@.len() ==> xs@[j] < self.entries@.len(),
    {
        let n = xs.len();
        let mut j: usize = 0;
        while j < n
            invariant
                n == xs@.len(),
                j <= n,
                forall|t: int| 0 <= t < xs@.len() ==> xs@[t] < self.entries@.len(),
            decreases n - j,
        {
            let idx = xs[j];
            self.entries[idx].block.unlock_commit();
            j += 1;
        }
    }

    /// A transaction whose log has the same shape as this one's.
    pub(crate) fn duplicate(&self) -> (r: Transaction)
        ensures
            r.log() == self.log(),
    {
        proof {
            use_type_invariant(&*self);
        }
        let n = self.entries.len();
        let mut es: Vec<TxEntry> = Vec::new();
        let mut i: usize = 0;
        while i < n
            invariant
                self.wf(),
                n == self.entries@.len(),
                i <= n,
                es@.len() == i,
                forall|j: int|
                    0 <= j < i ==> (#[trigger] es@[j]).key == self.entries@[j].key && es@[j].var@
                        == self.entries@[j].var@,
            decreases n - i,
        {
            let e = &self.entries[i];
            es.push(TxEntry { key: e.key, block: share_block(&e.block), var: e.var.dup() });
            i += 1;
        }
        let r = Transaction { entries: es };
        proof {
            assert forall|k: usize| true implies #[trigger] r.contains_key(k) == self.contains_key(
                k,
            ) by {
                if r.contains_key(k) {
                    let j = r.index_of(k);
                    assert(self.entries@[j].key == k);
                } else if self.contains_key(k) {
                    let j = self.index_of(k);
                    assert(r.entries@[j].key == k);
                }
            }
            assert forall|k: usize| r.log().contains_key(k) implies r.log()[k] == self.log()[k] by {
                let j = r.index_of(k);
                r.lemma_entry_in_log(j);
                assert(self.entries@[j].key == k);
                self.lemma_entry_in_log(j);
            }
            assert(r.log() =~= self.log());
        }
        r
    }

    /// Merge the discarded branch's log into this one: every variable the
    /// discarded branch touched but this log does not hold keeps its
    /// obsolete residue, so the wait sets of both branches union.
    pub(crate) fn combine(&mut self, other: Transaction)
        ensures
            combined_log(old(self).log(), other.log(), final(self).log()),
    {
        proof {
            use_type_invariant(&*self);
            use_type_invariant(&other);
        }
        let n = other.entries.len();
        let mut i: usize = 0;
        while i < n
            invariant
                other.wf(),
                n == other.entries@.len(),
                i <= n,
                forall|k: usize| #[trigger]
                    old(self).log().dom().contains(k) ==> self.log().dom().contains(k)
                        && self.log()[k] == old(self).log()[k],
                forall|j: int|
                    0 <= j < i ==> {
                        let k = (#[trigger] other.entries@[j]).key;
                        !old(self).log().dom().contains(k) && other.entries@[j].var@.obsolete_spec()
                            is Some ==> self.log().dom().contains(k) && Some(self.log()[k])
                            == other.entries@[j].var@.obsolete_spec()
                    },
                forall|k: usize| #[trigger]
                    self.log().dom().contains(k) ==> old(self).log().dom().contains(k) || exists|
                        j: int,
                    |
                        0 <= j < i && (#[trigger] other.entries@[j]).key == k
                            && other.entries@[j].var@.obsolete_spec() is Some
                            && !old(self).log().dom().contains(k),
            decreases n - i,
        {
            let oe = &other.entries[i];
            match oe.var.dup().into_obsolete() {
                Some(res) => {
                    match self.find(oe.key) {
                        Some(_) => {
                        }
                        None => {
                            let ghost before = *self;
                            self.insert_sorted(
                                TxEntry { key: oe.key, block: share_block(&oe.block), var: res },
                            );
                            proof {
                                assert forall|k: usize| #[trigger]
                                    self.log().dom().contains(k) implies
                                    before.log().dom().contains(k) || k == oe.key by {
                                }
                            }
                        }
                    }
                }
                None => {
                }
            }
            i += 1;
        }
        proof {
            assert forall|k: usize| #[trigger]
                other.log().dom().contains(k) && !old(self).log().dom().contains(k)
                    && other.log()[k].obsolete_spec() is Some implies self.log().dom().contains(k)
                && Some(self.log()[k]) == other.log()[k].obsolete_spec() by {
                let j = other.index_of(k);
                other.lemma_entry_in_log(j);
            }
            assert forall|k: usize| #[trigger]
                self.log().dom().contains(k) implies old(self).log().dom().contains(k) || (
            other.log().dom().contains(k) && !old(self).log().dom().contains(k)
                && other.log()[k].obsolete_spec() is Some) by {
                if !old(self).log().dom().contains(k) {
                    let j = choose|j: int|
                        0 <= j < n && (#[trigger] other.entries@[j]).key == k
                            && other.entries@[j].var@.obsolete_spec() is Some
                            && !old(self).log().dom().contains(k);
                    other.lemma_entry_in_log(j);
                }
            }
        }
    }

    /// Alternative composition. Run `first`; if it retries, roll its log
    /// effects back and run `second` on the log as it stood before, keeping
    /// the retry wait set of both branches. See `or_post` for the exact
    /// relation between branches, outcome and log.
    pub fn or<T, F1, F2>(&mut self, first: F1, second: F2) -> (r: StmResult<T>) where
        F1: Fn(&mut Transaction) -> StmResult<T>,
        F2: Fn(&mut Transaction) -> StmResult<T>,

        requires
            forall|t: &mut Transaction| #[trigger] call_requires(first, (t,)),
            forall|t: &mut Transaction| #[trigger] call_requires(second, (t,)),
        ensures
            ({
                ||| (exists|t: &mut Transaction|
                    {
                        &&& (#[trigger] call_ensures(first, (t,), r))
                        &&& (*t).log() == old(self).log()
                        &&& final(t).log() == final(self).log()
                        &&& r != StmResult::<T>::Err(StmError::Retry)
                    })
                ||| (exists|t1: &mut Transaction, t2: &mut Transaction|
                    {
                        &&& (#[trigger] call_ensures(
                            first,
                            (t1,),
                            StmResult::<T>::Err(StmError::Retry),
                        ))
                        &&& (#[trigger] call_ensures(second, (t2,), r))
                        &&& (*t1).log() == old(self).log()
                        &&& (*t2).log() == old(self).log()
                        &&& if r == StmResult::<T>::Err(StmError::Failure) {
                            final(self).log() == final(t2).log()
                        } else {
                            combined_log(final(t2).log(), final(t1).log(), final(self).log())
                        }
                    })
            }),
    {
        let mut copy = self.duplicate();
        let t1: &mut Transaction = &mut *self;
        let fr = first(t1);
        match fr {
            Err(StmError::Retry) => {
                std::mem::swap(self, &mut copy);
                let t2: &mut Transaction = &mut *self;
                let sr = second(t2);
                match sr {
                    Err(StmError::Failure) => {
                        Err(StmError::Failure)
                    }
                    sr2 => {
                        self.combine(copy);
                        sr2
                    }
                }
            }
            x => {
                x
            }
        }
    }

    /// Before a blocked retry parks: enroll the wake-up sender `w` on every
    /// variable the log observed, live or obsolete, then re-check each
    /// observed snapshot against the live version stamp. Returns true if
    /// some observed variable has already changed; the caller must then skip
    /// parking, since the wake for that change may have preceded enrolling.
    pub(crate) fn register_waits(&self, w: &Sender<()>) -> bool {
        proof {
            use_type_invariant(&*self);
        }
        let n = self.entries.len();
        let mut i: usize = 0;
        while i < n
            invariant
                n == self.entries@.len(),
                i <= n,
            decreases n - i,
        {
            let e = &self.entries[i];
            match e.var.wait_version_exec() {
                Some(_) => {
                    e.block.register_waiter(chan_sender_dup(w));
                }
                None => {
                }
            }
            i += 1;
        }
        let mut changed = false;
        i = 0;
        while i < n
            invariant
                n == self.entries@.len(),
                i <= n,
            decreases n - i,
        {
            let e = &self.entries[i];
            match e.var.wait_version_exec() {
                Some(ver) => {
                    let s = e.block.snapshot();
                    if s.version != ver {
                        changed = true;
                    }
                }
                None => {
                }
            }
            i += 1;
        }
        changed
    }

    /// Publish the log to the variables: two-phase locking in key order.
    ///
    /// First phase: walk the slots in key order; take each variable's commit
    /// lock; compare each live read snapshot's version stamp against the
    /// stamp now stored. On the first mismatch everything taken is released
    /// and the commit fails. Obsolete reads take no part. Second phase:
    /// release the read-only locks early, replace each written variable's
    /// payload under its lock with a bumped stamp, release, and wake every
    /// thread waiting on a written variable.
    ///
    /// Returns true on success, false if a read variable had changed. A log
    /// with no live read snapshot always commits.
    pub fn commit(&mut self) -> (r: bool)
        ensures
            final(self).log() == old(self).log(),
            validation_free(old(self).log()) ==> r == true,
            r == false ==> !validation_free(old(self).log()),
    {
        proof {
            use_type_invariant(&*self);
        }
        let n = self.entries.len();
        let mut locked: Vec<usize> = Vec::new();
        let mut read_idx: Vec<usize> = Vec::new();
        let mut write_idx: Vec<usize> = Vec::new();
        let mut i: usize = 0;
        while i < n
            invariant
                self.wf(),
                self.entries@ == old(self).entries@,
                n == self.entries@.len(),
                i <= n,
                forall|t: int| 0 <= t < locked@.len() ==> locked@[t] < n,
                forall|t: int| 0 <= t < read_idx@.len() ==> read_idx@[t] < n,
                forall|t: int| 0 <= t < write_idx@.len() ==> write_idx@[t] < n,
            decreases n - i,
        {
            let e = &self.entries[i];
            match &e.var {
                LogVar::ReadObsolete(_, _) => {
                }
                LogVar::Write(_) | LogVar::ReadObsoleteWrite(_, _, _) => {
                    e.block.lock_commit();
                    locked.push(i);
                    write_idx.push(i);
                }
                LogVar::ReadWrite(_, _, _) => {
                    e.block.lock_commit();
                    locked.push(i);
                    let s = e.block.snapshot();
                    if !e.var.validates_against(s.version) {
                        proof {
                            self.lemma_entry_in_log(i as int);
                            Self::lemma_log_depends_on_entries(*self, *old(self));
                        }
                        self.release_all(&locked);
                        return false;
                    }
                    write_idx.push(i);
                }
                LogVar::Read(_, _) => {
                    e.block.lock_commit();
                    locked.push(i);
                    let s = e.block.snapshot();
                    if !e.var.validates_against(s.version) {
                        proof {
                            self.lemma_entry_in_log(i as int);
                            Self::lemma_log_depends_on_entries(*self, *old(self));
                        }
                        self.release_all(&locked);
                        return false;
                    }
                    read_idx.push(i);
                }
            }
            i += 1;
        }
        self.release_all(&read_idx);
        let m = write_idx.len();
        let mut j: usize = 0;
        while j < m
            invariant
                self.entries@ == old(self).entries@,
                m == write_idx@.len(),
                j <= m,
                forall|t: int| 0 <= t < write_idx@.len() ==> write_idx@[t] < self.entries@.len(),
            decreases m - j,
        {
            let wi = write_idx[j];
            let e = &self.entries[wi];
            match e.var.written_value() {
                Some(w) => {
                    let s = e.block.snapshot();
                    let nver = if s.version == u64::MAX {
                        0
                    } else {
                        s.version + 1
                    };
                    e.block.publish(Stored { version: nver, value: w });
                }
                None => {
                }
            }
            e.block.unlock_commit();
            j += 1;
        }
        j = 0;
        while j < m
            invariant
                self.entries@ == old(self).entries@,
                m == write_idx@.len(),
                j <= m,
                forall|t: int| 0 <= t < write_idx@.len() ==> write_idx@[t] < self.entries@.len(),
            decreases m - j,
        {
            let wi = write_idx[j];
            self.entries[wi].block.wake_all();
            j += 1;
        }
        proof {
            Self::lemma_log_depends_on_entries(*self, *old(self));
        }
        true
    }
}

impl<T: StmValue> TVar<T> {
    /// Read this variable inside the transaction; see `Transaction::read`.
    pub fn read(&self, tx: &mut Transaction) -> (r: StmResult<T>)
        ensures
            r is Ok,
            old(tx).log().contains_key(self.key()) ==> {
                &&& final(tx).log() == old(tx).log()
                &&& match r {
                    Ok(x) => T::is_value_of(old(tx).log()[self.key()].observed(), x),
                    Err(_) => false,
                }
            },
            !old(tx).log().contains_key(self.key()) ==> exists|ver: u64, v: ValueV|
                {
                    &&& final(tx).log() == old(tx).log().insert(self.key(), LogVarV::Read(ver, v))
                    &&& match r {
                        Ok(x) => T::is_value_of(v, x),
                        Err(_) => false,
                    }
                },
    {
        tx.read(self)
    }

    /// Write to this variable inside the transaction; see
    /// `Transaction::write`.
    pub fn write(&self, tx: &mut Transaction, value: T) -> (r: StmResult<()>)
        ensures
            r == StmResult::<()>::Ok(()),
            old(tx).log().contains_key(self.key()) ==> final(tx).log() == old(tx).log().insert(
                self.key(),
                old(tx).log()[self.key()].write_step(value.as_value()),
            ),
            !old(tx).log().contains_key(self.key()) ==> final(tx).log() == old(tx).log().insert(
                self.key(),
                LogVarV::Write(value.as_value()),
            ),
    {
        tx.write(self, value)
    }
}


/// The left-identity law of alternative composition: `or(first, f)` where
/// `first` always retries and leaves the log alone behaves as `f` run on the
/// starting log, provided `f` never drops variables from the log. Whenever
/// `or(first, f)` can take starting log `pre` to final log `post` with
/// outcome `r`, so can `f` alone.
pub proof fn lemma_or_left_retry<T, F1, F2>(
    first: F1,
    second: F2,
    pre: Transaction,
    post: Transaction,
    r: StmResult<T>,
) where
    F1: Fn(&mut Transaction) -> StmResult<T>,
    F2: Fn(&mut Transaction) -> StmResult<T>,

    requires
        forall|t: &mut Transaction, out: StmResult<T>| #[trigger] call_ensures(first, (t,), out)
            ==> out == StmResult::<T>::Err(StmError::Retry) && final(t).log() == (*t).log(),
        forall|t: &mut Transaction, out: StmResult<T>| #[trigger] call_ensures(second, (t,), out)
            ==> (*t).log().dom() <= final(t).log().dom(),
        ({
            ||| (exists|t: &mut Transaction|
                {
                    &&& (#[trigger] call_ensures(first, (t,), r))
                    &&& (*t).log() == pre.log()
                    &&& final(t).log() == post.log()
                    &&& r != StmResult::<T>::Err(StmError::Retry)
                })
            ||| (exists|t1: &mut Transaction, t2: &mut Transaction|
                {
                    &&& (#[trigger] call_ensures(first, (t1,), StmResult::<T>::Err(StmError::Retry)))
                    &&& (#[trigger] call_ensures(second, (t2,), r))
                    &&& (*t1).log() == pre.log()
                    &&& (*t2).log() == pre.log()
                    &&& if r == StmResult::<T>::Err(StmError::Failure) {
                        post.log() == final(t2).log()
                    } else {
                        combined_log(final(t2).log(), final(t1).log(), post.log())
                    }
                })
        }),
    ensures
        exists|t2: &mut Transaction|
            {
                &&& (#[trigger] call_ensures(second, (t2,), r))
                &&& (*t2).log() == pre.log()
                &&& final(t2).log() == post.log()
            },
{
    let (t1, t2) = choose|t1: &mut Transaction, t2: &mut Transaction|
        {
            &&& (#[trigger] call_ensures(first, (t1,), StmResult::<T>::Err(StmError::Retry)))
            &&& (#[trigger] call_ensures(second, (t2,), r))
            &&& (*t1).log() == pre.log()
            &&& (*t2).log() == pre.log()
            &&& if r == StmResult::<T>::Err(StmError::Failure) {
                post.log() == final(t2).log()
            } else {
                combined_log(final(t2).log(), final(t1).log(), post.log())
            }
        };
    assert(call_ensures(second, (t2,), r));
    if r != StmResult::<T>::Err(StmError::Failure) {
        assert(final(t1).log() == pre.log());
        assert(combined_log(final(t2).log(), pre.log(), post.log()));
        assert(pre.log().dom() <= final(t2).log().dom());
        assert(post.log() =~= final(t2).log());
    }
}

/// The right-identity law of alternative composition: `or(f, second)` where
/// `f` never retries behaves as `f` alone, whatever `second` is. Whenever
/// `or(f, second)` can take starting log `pre` to final log `post` with
/// outcome `r`, so can `f` alone, and `r` is no retry.
pub proof fn lemma_or_right_first<T, F1, F2>(
    first: F1,
    second: F2,
    pre: Transaction,
    post: Transaction,
    r: StmResult<T>,
) where
    F1: Fn(&mut Transaction) -> StmResult<T>,
    F2: Fn(&mut Transaction) -> StmResult<T>,

    requires
        forall|t: &mut Transaction, out: StmResult<T>| #[trigger] call_ensures(first, (t,), out)
            ==> out != StmResult::<T>::Err(StmError::Retry),
        ({
            ||| (exists|t: &mut Transaction|
                {
                    &&& (#[trigger] call_ensures(first, (t,), r))
                    &&& (*t).log() == pre.log()
                    &&& final(t).log() == post.log()
                    &&& r != StmResult::<T>::Err(StmError::Retry)
                })
            ||| (exists|t1: &mut Transaction, t2: &mut Transaction|
                {
                    &&& (#[trigger] call_ensures(first, (t1,), StmResult::<T>::Err(StmError::Retry)))
                    &&& (#[trigger] call_ensures(second, (t2,), r))
                    &&& (*t1).log() == pre.log()
                    &&& (*t2).log() == pre.log()
                    &&& if r == StmResult::<T>::Err(StmError::Failure) {
                        post.log() == final(t2).log()
                    } else {
                        combined_log(final(t2).log(), final(t1).log(), post.log())
                    }
                })
        }),
    ensures
        exists|t: &mut Transaction|
            {
                &&& (#[trigger] call_ensures(first, (t,), r))
                &&& (*t).log() == pre.log()
                &&& final(t).log() == post.log()
            },
        r != StmResult::<T>::Err(StmError::Retry),
{
}

} // verus!
