use vstd::prelude::*;

verus! {

// The lock and channel primitives the runtime is built on, declared so that
// verified code can hold and pass them. Their contents stay opaque; every
// operation on them goes through a small trusted wrapper.
#[verifier::external_type_specification]
#[verifier::external_body]
#[verifier::reject_recursive_types(R)]
#[verifier::reject_recursive_types(T)]
pub struct ExRwLock<R, T: ?Sized>(lock_api::RwLock<R, T>);

#[verifier::external_type_specification]
#[verifier::external_body]
#[verifier::reject_recursive_types(R)]
#[verifier::reject_recursive_types(T)]
pub struct ExMutex<R, T: ?Sized>(lock_api::Mutex<R, T>);

#[verifier::external_type_specification]
#[verifier::external_body]
pub struct ExRawRwLock(parking_lot::RawRwLock);

#[verifier::external_type_specification]
#[verifier::external_body]
pub struct ExCondvar(parking_lot::Condvar);

#[verifier::external_type_specification]
#[verifier::external_body]
pub struct ExRawMutex(parking_lot::RawMutex);

#[verifier::external_type_specification]
#[verifier::external_body]
#[verifier::reject_recursive_types(T)]
pub struct ExSender<T>(std::sync::mpsc::Sender<T>);

#[verifier::external_type_specification]
#[verifier::external_body]
#[verifier::reject_recursive_types(T)]
pub struct ExReceiver<T>(std::sync::mpsc::Receiver<T>);

#[verifier::external_type_specification]
#[verifier::external_body]
pub struct ExRecvError(std::sync::mpsc::RecvError);

#[verifier::external_type_specification]
#[verifier::external_body]
#[verifier::reject_recursive_types(T)]
pub struct ExSendError<T>(std::sync::mpsc::SendError<T>);

/// Relies on std::sync::mpsc::channel: a fresh asynchronous channel.
#[verifier::external_body]
pub(crate) fn chan_new<T>() -> (std::sync::mpsc::Sender<T>, std::sync::mpsc::Receiver<T>) {
    std::sync::mpsc::channel()
}

/// Relies on std::sync::mpsc::Sender::clone: another sender for the same channel.
#[verifier::external_body]
pub(crate) fn chan_sender_dup<T>(s: &std::sync::mpsc::Sender<T>) -> std::sync::mpsc::Sender<T> {
    s.clone()
}

/// Relies on std::sync::mpsc::Sender::send: delivers unless the receiver is gone.
#[verifier::external_body]
pub(crate) fn chan_send<T>(s: &std::sync::mpsc::Sender<T>, v: T) -> Result<
    (),
    std::sync::mpsc::SendError<T>,
> {
    s.send(v)
}

/// Relies on std::sync::mpsc::Receiver::recv: blocks until a value arrives,
/// and fails only once every sender is gone and the channel is drained.
#[verifier::external_body]
pub(crate) fn chan_recv<T>(r: &std::sync::mpsc::Receiver<T>) -> Result<
    T,
    std::sync::mpsc::RecvError,
> {
    r.recv()
}

/// Relies on parking_lot::Mutex::new: a fresh, empty wait list.
#[verifier::external_body]
pub(crate) fn waiters_new() -> parking_lot::Mutex<Vec<std::sync::mpsc::Sender<()>>> {
    parking_lot::Mutex::new(Vec::new())
}

/// Relies on parking_lot::Mutex::lock + Vec::push: appends under the lock.
#[verifier::external_body]
pub(crate) fn waiters_push(
    m: &parking_lot::Mutex<Vec<std::sync::mpsc::Sender<()>>>,
    s: std::sync::mpsc::Sender<()>,
) {
    m.lock().push(s)
}

/// Relies on parking_lot::Mutex::lock + std::mem::take: drains the list
/// under the lock.
#[verifier::external_body]
pub(crate) fn waiters_take(
    m: &parking_lot::Mutex<Vec<std::sync::mpsc::Sender<()>>>,
) -> Vec<std::sync::mpsc::Sender<()>> {
    std::mem::take(&mut *m.lock())
}

/// Relies on parking_lot::Condvar::wait_while over a Mutex<bool>: together
/// the pair is a blocking binary lock. The call waits until the flag is
/// clear, then sets it, holding the mutex across the test, so exactly one
/// caller comes away with the flag.
#[verifier::external_body]
pub(crate) fn flag_acquire(m: &parking_lot::Mutex<bool>, cv: &parking_lot::Condvar) {
    let mut g = m.lock();
    cv.wait_while(&mut g, |held| *held);
    *g = true;
}

/// Relies on parking_lot::Condvar::notify_all: clears the flag and wakes the
/// committers waiting on it.
#[verifier::external_body]
pub(crate) fn flag_release(m: &parking_lot::Mutex<bool>, cv: &parking_lot::Condvar) {
    *m.lock() = false;
    cv.notify_all();
}

/// Relies on std::sync::mpsc::Receiver::recv on a channel whose sender stays
/// alive, unused, in this frame: no message and no disconnection can ever
/// arrive, so the call parks the thread for good. The runtime reaches this
/// only where the reference semantics declare the state fatal; it parks the
/// thread instead of aborting the process.
#[verifier::external_body]
pub(crate) fn block_thread_forever<T>() -> T {
    let (pin, never) = std::sync::mpsc::channel::<T>();
    let got = never.recv();
    let v = match got {
        Ok(v) => v,
        Err(_) => block_thread_forever(),
    };
    drop(pin);
    v
}

} // verus!
