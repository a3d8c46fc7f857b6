//! A many-producer, single-consumer channel with a shared readiness flag:
//! while the consumer is not ready every push is refused at once, so nothing queues
//! up for a consumer that is not there to take it.

use std::sync::atomic::{AtomicBool, Ordering};
use std::sync::mpsc::{Receiver, SendError, Sender};
use std::sync::Arc;
use vstd::prelude::*;

verus! {

#[verifier::external_type_specification]
#[verifier::external_body]
#[verifier::reject_recursive_types(T)]
pub struct ExSender<T>(Sender<T>);

#[verifier::external_type_specification]
#[verifier::external_body]
#[verifier::reject_recursive_types(T)]
pub struct ExReceiver<T>(Receiver<T>);

#[verifier::external_type_specification]
#[verifier::external_body]
#[verifier::reject_recursive_types(T)]
pub struct ExSendError<T>(SendError<T>);

/// Relies on `Clone for std::sync::mpsc::Sender`: another sender into the
/// same channel.
pub assume_specification<T>[ <Sender<T> as Clone>::clone ](s: &Sender<T>) -> Sender<T>;

/// Relies on `std::sync::mpsc::channel`: a connected sender and receiver.
#[verifier::external_body]
fn mpsc_channel<T>() -> (Sender<T>, Receiver<T>) {
    std::sync::mpsc::channel()
}

/// Relies on `std::sync::mpsc::Sender::send`: queues the value, or hands it
/// back when the receiver is gone.
#[verifier::external_body]
fn mpsc_send<T>(sender: &Sender<T>, value: T) -> Result<(), SendError<T>> {
    sender.send(value)
}

/// The producer side of a guarded channel; clone it for each producer.
#[derive(Debug, Clone)]
#[verifier::reject_recursive_types(T)]
pub struct SafeSender<T> {
    sender: Sender<T>,
    ready: Arc<AtomicBool>,
}

/// The consumer side of a guarded channel; it also sets the readiness flag.
#[derive(Debug)]
#[verifier::reject_recursive_types(T)]
pub struct SafeReceiver<T> {
    receiver: Receiver<T>,
    ready: Arc<AtomicBool>,
}

/// Why a push was refused.
#[derive(Debug)]
#[verifier::reject_recursive_types(T)]
pub enum SafeSendError<T> {
    /// The consumer is gone; the value is handed back.
    SendError(SendError<T>),
    /// The consumer was not ready.
    NotReady,
}

/// A new guarded channel, ready from the start.
pub fn channel<T>() -> (SafeSender<T>, SafeReceiver<T>) {
    let (tx, rx) = mpsc_channel();
    let ready = Arc::new(AtomicBool::new(true));
    let shared = ready.clone();
    (SafeSender { sender: tx, ready: shared }, SafeReceiver { receiver: rx, ready })
}

/// What a push comes to once the readiness flag has been read: refused with
/// `NotReady` when it was closed; otherwise up to the queue.
pub open spec fn push_allowed<T>(ready: bool, r: Result<(), SafeSendError<T>>) -> bool {
    &&& !ready ==> r is Err && r->Err_0 is NotReady
    &&& ready ==> !(r is Err && r->Err_0 is NotReady)
}

impl<T> SafeSender<T> {
    /// Pushes `value` given that the flag was seen `ready`: when not ready
    /// the push is refused with `NotReady`; otherwise the value is queued, or
    /// handed back when the consumer is gone.
    pub fn send_when(&self, ready: bool, value: T) -> (r: Result<(), SafeSendError<T>>)
        ensures
            push_allowed(ready, r),
    {
        if ready {
            match mpsc_send(&self.sender, value) {
                Ok(()) => Ok(()),
                Err(e) => Err(SafeSendError::SendError(e)),
            }
        } else {
            Err(SafeSendError::NotReady)
        }
    }

    /// Pushes `value` if the consumer is ready (see `send_when`).
    pub fn send(&self, value: T) -> Result<(), SafeSendError<T>> {
        let ready = self.is_ready();
        self.send_when(ready, value)
    }

    /// Whether the consumer is ready now.
    pub fn is_ready(&self) -> bool {
        self.ready.load(Ordering::Relaxed)
    }

    /// The underlying sender.
    pub fn sender(&self) -> &Sender<T> {
        &self.sender
    }
}

impl<T> SafeReceiver<T> {
    /// Lets every producer push (`true`) or refuses their pushes.
    pub fn set_ready(&self, ready: bool) {
        self.ready.store(ready, Ordering::Relaxed);
    }

    /// The underlying receiver, for timed pulls.
    pub fn receiver(&self) -> &Receiver<T> {
        &self.receiver
    }
}

/// A push made while the consumer is not ready is always refused with `NotReady`,
/// and one made while it is ready is never refused for that reason.
pub proof fn lemma_readiness<T>(r: Result<(), SafeSendError<T>>, ready: bool)
    requires
        push_allowed(ready, r),
    ensures
        !ready <==> (r is Err && r->Err_0 is NotReady),
{
}

} // verus!
