//! The shared queues: unbounded multi-producer, multi-consumer channels.
//!
//! What travels through a queue depends on what the other threads do, so
//! nothing is claimed here of the outcome of any operation. Each end keeps a
//! record of the messages that went through it, which only the operation
//! itself extends. The workers are verified for every outcome.

use vstd::prelude::*;

verus! {

/// `crossbeam::channel::Sender`, the sending end of a queue. Nothing inside
/// it is visible here.
#[verifier::external_type_specification]
#[verifier::external_body]
#[verifier::reject_recursive_types(T)]
pub struct ExSender<T>(crossbeam::channel::Sender<T>);

/// `crossbeam::channel::Receiver`, the receiving end of a queue. Nothing
/// inside it is visible here.
#[verifier::external_type_specification]
#[verifier::external_body]
#[verifier::reject_recursive_types(T)]
pub struct ExReceiver<T>(crossbeam::channel::Receiver<T>);

/// `crossbeam::channel::SendError`, which hands back a message that could
/// not be enqueued. Nothing inside it is visible here.
#[verifier::external_type_specification]
#[verifier::external_body]
#[verifier::reject_recursive_types(T)]
pub struct ExSendError<T>(crossbeam::channel::SendError<T>);

/// `crossbeam::channel::unbounded` creates a queue without a capacity limit
/// and returns its two ends. Nothing is claimed of them.
pub assume_specification<T>[ crossbeam::channel::unbounded::<T> ]() -> (ends: (
    crossbeam::channel::Sender<T>,
    crossbeam::channel::Receiver<T>,
));

/// `Receiver::is_empty` tells whether the queue held no message at the moment
/// of the call. Nothing is claimed of the answer.
pub assume_specification<T>[ crossbeam::channel::Receiver::<T>::is_empty ](
    receiver: &crossbeam::channel::Receiver<T>,
) -> (empty: bool);

/// Cloning a sender gives another handle to the same queue: one that is
/// equal to the sender cloned.
pub assume_specification<T>[ <crossbeam::channel::Sender<T> as Clone>::clone ](
    sender: &crossbeam::channel::Sender<T>,
) -> (handle: crossbeam::channel::Sender<T>)
    ensures
        handle == *sender,
;

/// Cloning a receiver gives another handle to the same queue: one that is
/// equal to the receiver cloned.
pub assume_specification<T>[ <crossbeam::channel::Receiver<T> as Clone>::clone ](
    receiver: &crossbeam::channel::Receiver<T>,
) -> (handle: crossbeam::channel::Receiver<T>)
    ensures
        handle == *receiver,
;

/// What one attempt to dequeue without waiting found.
pub enum Polled<T> {
    /// A message was waiting, and has been taken.
    Item(T),
    /// No message was waiting.
    Empty,
    /// No message was waiting and none can come: every sender is gone.
    Closed,
}

/// The sending end of a queue as a worker holds it, with the record of the
/// messages that the queue has accepted from this end.
#[verifier::reject_recursive_types(T)]
pub struct SendingEnd<T> {
    end: crossbeam::channel::Sender<T>,
    handed: Ghost<Seq<T>>,
}

impl<T> SendingEnd<T> {
    /// The sender behind this end.
    pub closed spec fn sender(&self) -> crossbeam::channel::Sender<T> {
        self.end
    }

    /// The messages that the queue has accepted from this end, in order.
    pub closed spec fn handed(&self) -> Seq<T> {
        self.handed@
    }

    /// An end on `end` that has handed nothing over yet.
    pub fn new(end: crossbeam::channel::Sender<T>) -> (fresh: Self)
        ensures
            fresh.sender() == end,
            fresh.handed() == Seq::<T>::empty(),
    {
        SendingEnd { end, handed: Ghost(Seq::empty()) }
    }

    /// Calls `Sender::send`, which enqueues a message, or hands it back in an
    /// error when the queue is disconnected. On a queue made by `unbounded`
    /// it never waits; on a queue with a capacity it waits while the queue is
    /// full. Nothing is claimed of which outcome it is. The record grows by
    /// the message exactly when the queue accepted it.
    #[verifier::external_body]
    pub(crate) fn send(&mut self, msg: T) -> (outcome: Result<
        (),
        crossbeam::channel::SendError<T>,
    >)
        ensures
            final(self).sender() == old(self).sender(),
            outcome is Ok ==> final(self).handed() == old(self).handed().push(msg),
            outcome is Err ==> final(self).handed() == old(self).handed(),
    {
        self.end.send(msg)
    }
}

/// The receiving end of a queue as a worker holds it, with the record of the
/// messages that were taken from the queue through this end.
#[verifier::reject_recursive_types(T)]
pub struct ReceivingEnd<T> {
    end: crossbeam::channel::Receiver<T>,
    drawn: Ghost<Seq<T>>,
}

impl<T> ReceivingEnd<T> {
    /// The receiver behind this end.
    pub closed spec fn receiver(&self) -> crossbeam::channel::Receiver<T> {
        self.end
    }

    /// The messages taken from the queue through this end, in order.
    pub closed spec fn drawn(&self) -> Seq<T> {
        self.drawn@
    }

    /// An end on `end` through which nothing was taken yet.
    pub fn new(end: crossbeam::channel::Receiver<T>) -> (fresh: Self)
        ensures
            fresh.receiver() == end,
            fresh.drawn() == Seq::<T>::empty(),
    {
        ReceivingEnd { end, drawn: Ghost(Seq::empty()) }
    }

    /// Calls `Receiver::try_recv`, which takes a message if one is waiting
    /// and never waits, and tells its three outcomes apart. Nothing is
    /// claimed of which one it is. The record grows by the message exactly
    /// when one was taken.
    #[verifier::external_body]
    pub(crate) fn poll(&mut self) -> (polled: Polled<T>)
        ensures
            final(self).receiver() == old(self).receiver(),
            polled matches Polled::Item(msg) ==> final(self).drawn() == old(self).drawn().push(
                msg,
            ),
            !(polled is Item) ==> final(self).drawn() == old(self).drawn(),
    {
        match self.end.try_recv() {
            Ok(item) => Polled::Item(item),
            Err(crossbeam::channel::TryRecvError::Empty) => Polled::Empty,
            Err(crossbeam::channel::TryRecvError::Disconnected) => Polled::Closed,
        }
    }

    /// Whether the queue held no message at the moment of the call.
    pub fn seems_empty(&self) -> (empty: bool) {
        self.end.is_empty()
    }
}

/// The three shared queues.
#[derive(Clone, Copy, Debug, PartialEq, Eq, Structural)]
pub enum Queue {
    /// The queue of ideas.
    Ideas,
    /// The queue of packages.
    Packages,
    /// The queue of termination tokens.
    Tokens,
}

/// A queue was disconnected when a worker tried to use it. This is fatal for
/// the run, and is never retried.
#[derive(Clone, Copy, Debug, PartialEq, Eq, Structural)]
pub struct ChannelUnavailableError {
    /// The queue that was found disconnected.
    pub queue: Queue,
}

} // verus!
