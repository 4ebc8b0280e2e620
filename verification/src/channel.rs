//! The bounded queues that join the application's threads to the listener.
//!
//! The queues are those of the `async_channel` crate. Another thread holds
//! the other end, so what a call finds in a queue is not for this side to
//! know: the contracts below state what holds whatever the queue answered.

use async_channel::{Receiver, Sender};
use vstd::prelude::*;

verus! {

/// Makes `async_channel::Sender`, the sending end of a queue, known to the
/// verifier. Nothing inside it is seen.
#[verifier::external_type_specification]
#[verifier::external_body]
#[verifier::reject_recursive_types(T)]
pub struct ExSender<T>(async_channel::Sender<T>);

/// Makes `async_channel::Receiver`, the receiving end of a queue, known to
/// the verifier. Nothing inside it is seen.
#[verifier::external_type_specification]
#[verifier::external_body]
#[verifier::reject_recursive_types(T)]
pub struct ExReceiver<T>(async_channel::Receiver<T>);

/// Why a queue did not take a message. The message comes back.
#[derive(Debug, PartialEq, Eq)]
pub enum TrySendError<T> {
    /// The queue holds as many messages as it can.
    Full(T),
    /// The other end of the queue is gone.
    Closed(T),
}

impl<T> TrySendError<T> {
    /// The message that was not taken.
    pub open spec fn message(self) -> T {
        match self {
            TrySendError::Full(msg) => msg,
            TrySendError::Closed(msg) => msg,
        }
    }

    /// Gives back the message that was not taken.
    pub fn into_inner(self) -> (msg: T)
        ensures
            msg == self.message(),
    {
        match self {
            TrySendError::Full(msg) => msg,
            TrySendError::Closed(msg) => msg,
        }
    }

    /// Whether the queue was full.
    pub fn is_full(&self) -> (r: bool)
        ensures
            r == (self is Full),
    {
        match self {
            TrySendError::Full(_) => true,
            TrySendError::Closed(_) => false,
        }
    }

    /// Whether the other end was gone.
    pub fn is_closed(&self) -> (r: bool)
        ensures
            r == (self is Closed),
    {
        match self {
            TrySendError::Full(_) => false,
            TrySendError::Closed(_) => true,
        }
    }
}

/// Calls `async_channel::Sender::try_send`, which puts `msg` on the queue
/// if there is room and the queue is open, and never waits. Claimed: when
/// the queue refuses, the message that comes back is the one that was
/// offered. Whether it refuses is not claimed.
#[verifier::external_body]
pub(crate) fn try_send<T>(tx: &Sender<T>, msg: T) -> (r: Result<(), TrySendError<T>>)
    ensures
        r matches Err(e) ==> e.message() == msg,
{
    match tx.try_send(msg) {
        Ok(()) => Ok(()),
        Err(async_channel::TrySendError::Full(m)) => Err(TrySendError::Full(m)),
        Err(async_channel::TrySendError::Closed(m)) => Err(TrySendError::Closed(m)),
    }
}

/// Calls `async_channel::Receiver::try_recv`, which takes the oldest
/// message off the queue if there is one, and never waits. Nothing is
/// claimed of what comes back; no message comes back when the queue is
/// empty or closed.
#[verifier::external_body]
pub(crate) fn try_recv<T>(rx: &Receiver<T>) -> (r: Option<T>) {
    rx.try_recv().ok()
}

/// Calls `async_channel::Receiver::len`, the number of messages on the
/// queue at the moment of the call. Nothing is claimed of it.
#[verifier::external_body]
pub(crate) fn waiting<T>(rx: &Receiver<T>) -> (n: usize) {
    rx.len()
}

/// The largest capacity with which a queue is made.
pub const MAX_CAPACITY: usize = 0x10_0000;

/// Calls `async_channel::bounded`, which makes a queue that holds at most
/// `cap` messages and gives its two ends. It panics on a capacity of zero,
/// and on one so large that the slots of the queue, one for each message,
/// cannot be counted in bytes; the bounds leave out the first, and the
/// second for messages of up to a kilobyte. Nothing is claimed of the ends.
#[verifier::external_body]
pub(crate) fn bounded<T>(cap: usize) -> (ends: (Sender<T>, Receiver<T>))
    requires
        0 < cap <= MAX_CAPACITY,
{
    async_channel::bounded(cap)
}

/// Calls `clone` on an `async_channel::Sender`, which gives one more
/// sending end of the same queue. Claimed: the new end is the same handle
/// on the same queue as the one it was made from.
#[verifier::external_body]
pub(crate) fn another_sender<T>(tx: &Sender<T>) -> (r: Sender<T>)
    ensures
        r == *tx,
{
    tx.clone()
}

} // verus!
