//! The consumer side of the demand protocol: a consumer accepts `Write`
//! and `End` messages and, in return, emits `Request(n)` events granting
//! demand, or a `Cancellation` abandoning the stream.
use vstd::prelude::*;

use crate::CancelReason;

verus! {

/// A message sent into a consumer.
#[derive(Debug, Clone, PartialEq)]
pub enum ConsumerMessage<T> {
    Write(T),
    End,
}

/// An event a consumer emits back upstream.
#[derive(Debug, Clone, PartialEq)]
pub enum ConsumerEvent {
    /// Grant of `n` additional units of demand.
    Request(usize),
    /// The consumer abandons the stream.
    Cancellation(CancelReason),
}

/// The receiving end of a consumer's event channel. At most one ever
/// exists per consumer: `Consumer::event_stream` hands it out once and
/// answers `None` from then on.
pub struct ConsumerEventRx {
    _held: (),
}

impl ConsumerEventRx {
    pub(crate) fn grant() -> ConsumerEventRx {
        ConsumerEventRx { _held: () }
    }
}

/// An entity that accepts writes and emits demand or cancellation.
///
/// `consumer_messages()` is the queue of messages accepted and not yet
/// processed; `consumer_events()` the queue of emitted events not yet
/// read. `write` and `end` only enqueue: a consumer's own processing
/// step drains the message queue.
pub trait Consumer<T> {
    /// The implementing type's well-formedness; every operation keeps it.
    spec fn consumer_inv(&self) -> bool;

    /// Messages accepted and not yet processed, oldest first.
    spec fn consumer_messages(&self) -> Seq<ConsumerMessage<T>>;

    /// Events emitted and not yet read, oldest first.
    spec fn consumer_events(&self) -> Seq<ConsumerEvent>;

    /// Whether the event channel's receiving end was already handed out.
    spec fn consumer_events_taken(&self) -> bool;

    /// Accept one item. Valid only against previously granted demand;
    /// the processing step surfaces a violation as a fault.
    fn write(&mut self, data: T)
        requires
            old(self).consumer_inv(),
        ensures
            final(self).consumer_inv(),
            final(self).consumer_messages() == old(self).consumer_messages().push(
                ConsumerMessage::Write(data),
            ),
            final(self).consumer_events() == old(self).consumer_events(),
            final(self).consumer_events_taken() == old(self).consumer_events_taken(),
    ;

    /// Signal that no further item will be written.
    fn end(&mut self)
        requires
            old(self).consumer_inv(),
        ensures
            final(self).consumer_inv(),
            final(self).consumer_messages() == old(self).consumer_messages().push(
                ConsumerMessage::End,
            ),
            final(self).consumer_events() == old(self).consumer_events(),
            final(self).consumer_events_taken() == old(self).consumer_events_taken(),
    ;

    /// Take the event channel's receiving end: `Some` the first time,
    /// `None` ever after.
    fn event_stream(&mut self) -> (r: Option<ConsumerEventRx>)
        requires
            old(self).consumer_inv(),
        ensures
            final(self).consumer_inv(),
            final(self).consumer_messages() == old(self).consumer_messages(),
            final(self).consumer_events() == old(self).consumer_events(),
            final(self).consumer_events_taken(),
            old(self).consumer_events_taken() ==> r is None,
            !old(self).consumer_events_taken() ==> r is Some,
    ;

    /// Read the oldest unread event, in the exact order emitted.
    fn next_event(&mut self, rx: &ConsumerEventRx) -> (r: Option<ConsumerEvent>)
        requires
            old(self).consumer_inv(),
        ensures
            final(self).consumer_inv(),
            final(self).consumer_messages() == old(self).consumer_messages(),
            final(self).consumer_events_taken() == old(self).consumer_events_taken(),
            old(self).consumer_events().len() == 0 ==> {
                &&& r is None
                &&& final(self).consumer_events() == old(self).consumer_events()
            },
            old(self).consumer_events().len() > 0 ==> {
                &&& r == Some(old(self).consumer_events()[0])
                &&& final(self).consumer_events() == old(self).consumer_events().drop_first()
            },
    ;
}

} // verus!
