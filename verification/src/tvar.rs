use vstd::prelude::*;
use core::marker::PhantomData;
use std::sync::Arc;
use std::sync::mpsc::Sender;
use crate::sync::{chan_send, flag_acquire, flag_release, waiters_new, waiters_push, waiters_take};
use crate::value::{StmValue, Value};

verus! {

/// The committed state of one variable: the payload and a version stamp.
///
/// Every commit that writes the variable replaces the whole pair and bumps
/// the stamp, so a snapshot's stamp differing from the live one is a faithful
/// has-changed signal, exactly as replacing a shared immutable payload makes
/// its identity differ.
#[derive(Clone)]
pub(crate) struct Stored {
    pub(crate) version: u64,
    pub(crate) value: Value,
}

/// The shared state behind one transactional variable.
///
/// `cell` holds the committed payload under a read/write lock; readers take
/// the read lock, copy, and release. `commit_flag` is the variable's
/// commit-time lock: a committer holds the flags of all its variables, in
/// address order, while it validates and publishes. `waiters` holds one
/// wake-up sender for every thread blocked on this variable.
pub struct ControlBlock {
    commit_flag: parking_lot::Mutex<bool>,
    commit_cv: parking_lot::Condvar,
    cell: parking_lot::RwLock<Stored>,
    waiters: parking_lot::Mutex<Vec<Sender<()>>>,
}

/// Relies on parking_lot::Mutex::new: a fresh, clear commit flag.
#[verifier::external_body]
fn flag_new() -> parking_lot::Mutex<bool> {
    parking_lot::Mutex::new(false)
}

/// Relies on parking_lot::Condvar::new.
#[verifier::external_body]
fn condvar_new() -> parking_lot::Condvar {
    parking_lot::Condvar::new()
}

/// Relies on parking_lot::RwLock::new.
#[verifier::external_body]
fn cell_new(s: Stored) -> parking_lot::RwLock<Stored> {
    parking_lot::RwLock::new(s)
}

/// Relies on parking_lot::RwLock::read: takes the read lock, copies the
/// stored pair, releases. The result is some committed state of the cell.
#[verifier::external_body]
fn cell_snapshot(lk: &parking_lot::RwLock<Stored>) -> Stored {
    lk.read().clone()
}

/// Relies on parking_lot::RwLock::write: takes the write lock, replaces the
/// stored pair, releases.
#[verifier::external_body]
fn cell_store(lk: &parking_lot::RwLock<Stored>, s: Stored) {
    *lk.write() = s;
}

/// Relies on Arc::as_ptr: while they are alive, distinct control blocks have
/// distinct addresses, clones of one handle share theirs, and the address
/// orders the commit-time locks globally.
#[verifier::external_body]
fn block_addr(b: &Arc<ControlBlock>) -> usize {
    Arc::as_ptr(b) as usize
}

/// Relies on Arc::clone: another handle to the same control block.
#[verifier::external_body]
pub(crate) fn share_block(b: &Arc<ControlBlock>) -> (r: Arc<ControlBlock>)
    ensures
        r == *b,
{
    b.clone()
}

impl ControlBlock {
    /// A fresh control block holding `value` at version stamp zero.
    fn new(value: Value) -> Arc<ControlBlock> {
        Arc::new(ControlBlock {
            commit_flag: flag_new(),
            commit_cv: condvar_new(),
            cell: cell_new(Stored { version: 0, value }),
            waiters: waiters_new(),
        })
    }

    /// The committed state at some moment.
    pub(crate) fn snapshot(&self) -> Stored {
        cell_snapshot(&self.cell)
    }

    /// Publish a new committed state. Only a thread holding this variable's
    /// commit lock may call this.
    pub(crate) fn publish(&self, s: Stored) {
        cell_store(&self.cell, s);
    }

    /// Take this variable's commit lock, blocking until it is free.
    pub(crate) fn lock_commit(&self) {
        flag_acquire(&self.commit_flag, &self.commit_cv);
    }

    /// Release this variable's commit lock.
    pub(crate) fn unlock_commit(&self) {
        flag_release(&self.commit_flag, &self.commit_cv);
    }

    /// Enroll a wake-up sender on this variable's wait list.
    pub(crate) fn register_waiter(&self, s: Sender<()>) {
        waiters_push(&self.waiters, s);
    }

    /// Drain the wait list and signal every entry; called once per written
    /// variable after a commit.
    pub(crate) fn wake_all(&self) {
        let mut pending = waiters_take(&self.waiters);
        loop
            decreases pending.len(),
        {
            match pending.pop() {
                Some(s) => {
                    let sent = chan_send(&s, ());
                    match sent {
                        Ok(_) => {
                        }
                        Err(_) => {
                        }
                    }
                }
                None => {
                    return;
                }
            }
        }
    }
}

/// A transactional variable: the atomic unit of STM-managed memory.
///
/// Cloning a handle yields another handle to the same variable.
pub struct TVar<T> {
    id: usize,
    block: Arc<ControlBlock>,
    marker: PhantomData<T>,
}

impl<T> Clone for TVar<T> {
    /// Another handle to the same variable.
    fn clone(&self) -> (r: TVar<T>)
        ensures
            r.key() == self.key(),
            r.control() == self.control(),
    {
        TVar { id: self.id, block: share_block(&self.block), marker: PhantomData }
    }
}

impl<T> TVar<T> {
    /// The key the transaction log files this variable under: the address of
    /// its control block, which also orders the commit-time locks.
    pub closed spec fn key(self) -> usize {
        self.id
    }

    /// The control block this handle shares.
    pub closed spec fn control(self) -> ControlBlock {
        *self.block
    }

    pub(crate) fn id_key(&self) -> (k: usize)
        ensures
            k == self.key(),
    {
        self.id
    }

    pub(crate) fn block_ref(&self) -> (b: &Arc<ControlBlock>)
        ensures
            **b == self.control(),
    {
        &self.block
    }
}

impl<T: StmValue> TVar<T> {
    /// A fresh variable whose committed value is `val`.
    pub fn new(val: T) -> TVar<T> {
        let block = ControlBlock::new(val.to_value());
        let id = block_addr(&block);
        TVar { id, block, marker: PhantomData }
    }

    /// A snapshot of the current committed value, outside any transaction.
    /// The decoding of whatever payload the variable held at some moment
    /// during the call.
    pub fn read_atomic(&self) -> T {
        let s = self.block.snapshot();
        T::from_value(s.value)
    }
}

} // verus!
