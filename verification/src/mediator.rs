//! The mediator: the handle through which the application's threads reach
//! the listener.
//!
//! It holds the sending end of the bounded queue to the listener and the
//! receiving end of the bounded queue from it. No call here waits.

use crate::channel::{
    another_sender, bounded, try_recv, try_send, waiting, TrySendError, MAX_CAPACITY,
};
use crate::packets::{FromMain, Log, ToMain};
use crate::plot::Point;
use async_channel::{Receiver, Sender};
use vstd::prelude::*;

verus! {

/// Why a message did not reach the queue to the listener.
#[derive(Debug, PartialEq, Eq)]
pub enum Error {
    /// The queue did not take the message, which comes back: the queue was
    /// full, or the listener is gone.
    TrySend(TrySendError<FromMain>),
}

impl Error {
    /// The error that stands for a refusal of the queue.
    pub fn from(refusal: TrySendError<FromMain>) -> (e: Error)
        ensures
            e == Error::TrySend(refusal),
    {
        Error::TrySend(refusal)
    }

    /// Whether the queue was full.
    pub fn is_full(&self) -> (r: bool)
        ensures
            r == (self matches Error::TrySend(TrySendError::Full(_))),
    {
        match self {
            Error::TrySend(e) => e.is_full(),
        }
    }
}

/// What a call returns when the queue answered an offer with `answer`.
pub open spec fn outcome_of(answer: Result<(), TrySendError<FromMain>>) -> Result<(), Error> {
    match answer {
        Ok(()) => Ok(()),
        Err(refusal) => Err(Error::TrySend(refusal)),
    }
}

/// Turns the answer of the queue to an offer into what the caller is told:
/// a refusal becomes the error that carries the refused message.
pub fn sent(answer: Result<(), TrySendError<FromMain>>) -> (r: Result<(), Error>)
    ensures
        r == outcome_of(answer),
{
    match answer {
        Ok(()) => Ok(()),
        Err(refusal) => Err(Error::from(refusal)),
    }
}

/// The number of messages that each of the two queues holds at most.
pub const MPSC_BUFFER_SIZE: usize = 10_000;

/// The application's handle on the two queues. It keeps count, for the
/// proofs only, of the messages that the queue to the listener has taken
/// from it.
pub struct Mediator {
    send: Sender<FromMain>,
    recv: Receiver<ToMain>,
    taken: Ghost<Seq<FromMain>>,
}

impl Mediator {
    /// The messages that the queue to the listener has taken from this
    /// mediator, oldest first.
    pub closed spec fn taken(&self) -> Seq<FromMain> {
        self.taken@
    }

    /// The sending end of the queue to the listener.
    pub closed spec fn sender(&self) -> Sender<FromMain> {
        self.send
    }

    /// The receiving end of the queue from the listener.
    pub closed spec fn receiver(&self) -> Receiver<ToMain> {
        self.recv
    }

    /// The mediator on the sending end of the queue to the listener and
    /// the receiving end of the queue from it.
    pub fn new(send: Sender<FromMain>, recv: Receiver<ToMain>) -> (r: Mediator)
        ensures
            r.sender() == send,
            r.receiver() == recv,
            r.taken() == Seq::<FromMain>::empty(),
    {
        Mediator { send, recv, taken: Ghost(Seq::empty()) }
    }

    /// Offers `event` to the queue to the listener, without waiting. The
    /// queue takes it, or the error carries it back: the queue was full, or
    /// the listener is gone.
    pub fn send_event(&mut self, event: FromMain) -> (r: Result<(), Error>)
        ensures
            r is Ok ==> final(self).taken() == old(self).taken().push(event),
            r matches Err(Error::TrySend(refusal)) ==> refusal.message() == event
                && final(self).taken() == old(self).taken(),
            final(self).sender() == old(self).sender(),
            final(self).receiver() == old(self).receiver(),
    {
        let ghost offered = event;
        let r = sent(try_send(&self.send, event));
        if r.is_ok() {
            self.taken = Ghost(self.taken@.push(offered));
        }
        r
    }

    /// Offers the events to the queue in their order, and stops at the
    /// first that the queue does not take: the error carries that event
    /// back, the events before it stay on the queue, and those behind it
    /// were not offered. With no event there is nothing to fail.
    pub fn send_events(&mut self, events: Vec<FromMain>) -> (r: Result<(), Error>)
        ensures
            exists|n: int|
                0 <= n <= events@.len() && final(self).taken() == old(self).taken()
                    + #[trigger] events@.take(n) && (r is Ok ==> n == events@.len()) && (r matches Err(
                    Error::TrySend(refusal),
                ) ==> n < events@.len() && refusal.message() == events@[n]),
            final(self).sender() == old(self).sender(),
            final(self).receiver() == old(self).receiver(),
    {
        let ghost all = events@;
        let ghost before = self.taken();
        for event in it: events
            invariant
                it.seq() == all,
                all == events@,
                before == old(self).taken(),
                self.taken() == before + all.take(it.index() as int),
                self.sender() == old(self).sender(),
                self.receiver() == old(self).receiver(),
        {
            match self.send_event(event) {
                Ok(()) => {},
                Err(e) => {
                    return Err(e);
                },
            }
        }
        Ok(())
    }

    /// Asks the listener to read the socket and to hand out the plot
    /// buffers that are due, by offering `PollEvents` to the queue to it,
    /// and then takes what waits on the queue from the listener, without
    /// waiting for more. If the queue does not take the request, the error
    /// carries it back and nothing is taken from the other queue.
    pub fn poll_events(&mut self) -> (r: Result<Vec<ToMain>, Error>)
        ensures
            r is Ok ==> final(self).taken() == old(self).taken().push(FromMain::PollEvents),
            r matches Err(Error::TrySend(refusal)) ==> refusal.message() == FromMain::PollEvents
                && final(self).taken() == old(self).taken(),
            final(self).sender() == old(self).sender(),
            final(self).receiver() == old(self).receiver(),
    {
        match self.send_event(FromMain::PollEvents) {
            Ok(()) => {},
            Err(e) => {
                return Err(e);
            },
        }
        Ok(drain(&self.recv, waiting(&self.recv)))
    }

    /// A publisher on the same queue to the listener.
    pub fn publisher(&self) -> (r: Publisher)
        ensures
            r.sender() == self.sender(),
    {
        Publisher::new(another_sender(&self.send))
    }
}

/// A handle for any thread that has a log record or a plot sample to give:
/// one more sending end of the queue to the listener. Giving never waits,
/// and what the queue does not take is lost to the client.
pub struct Publisher {
    send: Sender<FromMain>,
}

impl Publisher {
    /// The sending end of the queue to the listener.
    pub closed spec fn sender(&self) -> Sender<FromMain> {
        self.send
    }

    /// The publisher on this sending end of the queue to the listener.
    pub fn new(send: Sender<FromMain>) -> (r: Publisher)
        ensures
            r.sender() == send,
    {
        Publisher { send }
    }

    /// Offers a log record to the queue to the listener. If the queue does
    /// not take it, the error carries it back.
    pub fn log(&self, record: Log) -> (r: Result<(), Error>)
        ensures
            r matches Err(Error::TrySend(refusal)) ==> refusal.message() == FromMain::Log(record),
    {
        sent(try_send(&self.send, FromMain::Log(record)))
    }

    /// Offers a plot sample under the names of its plot and its subplot to
    /// the queue to the listener. If the queue does not take it, the error
    /// carries it back.
    pub fn plot(&self, plot_name: String, subplot_name: String, point: Point) -> (r: Result<
        (),
        Error,
    >)
        ensures
            r matches Err(Error::TrySend(refusal)) ==> refusal.message() == FromMain::Point(
                plot_name,
                subplot_name,
                point,
            ),
    {
        sent(try_send(&self.send, FromMain::Point(plot_name, subplot_name, point)))
    }
}

/// The ends of the two queues between the application and the listener:
/// the mediator for the application, and for the listener the receiving end
/// of the queue from the application and the sending end of the queue to it.
pub struct Queues {
    pub mediator: Mediator,
    pub from_main: Receiver<FromMain>,
    pub to_main: Sender<ToMain>,
}

/// Makes the two queues, each for at most `capacity` messages. A queue
/// cannot have the capacity zero, nor one above [`MAX_CAPACITY`].
pub fn queues(capacity: usize) -> (r: Option<Queues>)
    ensures
        r is Some <==> 0 < capacity <= MAX_CAPACITY,
{
    if capacity == 0 || capacity > MAX_CAPACITY {
        return None;
    }
    let (main_tx, thread_rx) = bounded::<FromMain>(capacity);
    let (thread_tx, main_rx) = bounded::<ToMain>(capacity);
    Some(Queues { mediator: Mediator::new(main_tx, main_rx), from_main: thread_rx, to_main: thread_tx })
}

/// Keeps one answer of a queue that was asked for its oldest message: a
/// message goes to the end of `out`, and more may be asked for; no message
/// leaves `out` as it is, and ends the asking.
pub fn gather<T>(out: &mut Vec<T>, answer: Option<T>) -> (more: bool)
    ensures
        answer matches Some(msg) ==> more && final(out)@ == old(out)@.push(msg),
        answer is None ==> !more && final(out)@ == old(out)@,
{
    match answer {
        Some(msg) => {
            out.push(msg);
            true
        },
        None => false,
    }
}

/// Takes messages off a queue, oldest first, and never more than `limit`
/// of them, which is the number that the queue said was waiting. It stops
/// early once the queue gives no message, because it is empty or closed.
pub(crate) fn drain<T>(rx: &Receiver<T>, limit: usize) -> (r: Vec<T>)
    ensures
        r@.len() <= limit,
{
    let mut out: Vec<T> = Vec::new();
    let mut i: usize = 0;
    while i < limit
        invariant
            i <= limit,
            out@.len() == i,
        decreases limit - i,
    {
        if !gather(&mut out, try_recv(rx)) {
            break ;
        }
        i += 1;
    }
    out
}

} // verus!
