//! The demand bookkeeping of a consumer that feeds each item into a
//! message sink that may be momentarily full. The sink itself lives
//! outside the library; this state machine decides what it is offered,
//! buffers the one chunk a full sink refused, grants one fresh unit of
//! demand per accepted chunk, and turns a sink failure into a
//! cancellation of the stream — an implicit disconnect, not a fault of
//! unrelated streams.
use vstd::prelude::*;

use crate::CancelReason;
use crate::Queue;
use crate::consumer::Consumer;
use crate::consumer::ConsumerEvent;
use crate::consumer::ConsumerEventRx;
use crate::consumer::ConsumerMessage;
use crate::write_adapter::AdapterFault;
use crate::write_adapter::lemma_sum_grants_push;
use crate::write_adapter::sum_grants;

verus! {

/// What the sink did with one offered chunk.
#[derive(Clone, Copy, Debug, PartialEq, Eq, Structural)]
pub enum SinkStatus {
    /// The sink took the chunk.
    Accepted,
    /// The sink is full; the chunk must be kept and offered again.
    Busy,
    /// The sink failed; the stream is cancelled as disconnected.
    Failed,
}

/// A consumer that forwards each written chunk into a message sink,
/// against granted demand, keeping at most one refused chunk buffered.
pub struct SinkAdapter {
    messages: Queue<ConsumerMessage<Vec<u8>>>,
    events: Queue<ConsumerEvent>,
    events_taken: bool,
    demand: u64,
    buffered: Option<Vec<u8>>,
    ended: bool,
    accepted: Ghost<nat>,
}

impl SinkAdapter {
    /// How much granted demand is still unspent.
    pub closed spec fn demand(&self) -> u64 {
        self.demand
    }

    /// How many writes have been taken off the message queue.
    pub closed spec fn accepted(&self) -> nat {
        self.accepted@
    }

    /// The chunk a full sink refused, if one is waiting to be retried.
    pub closed spec fn spec_buffered(&self) -> Option<Vec<u8>> {
        self.buffered
    }

    /// Every event ever emitted, oldest first.
    pub closed spec fn events_history(&self) -> Seq<ConsumerEvent> {
        self.events.history()
    }

    /// Whether the stream has ended: by `End`, or by a protocol fault.
    pub closed spec fn is_ended(&self) -> bool {
        self.ended
    }

    /// The adapter's well-formedness and its demand accounting.
    pub closed spec fn inv(&self) -> bool {
        &&& self.messages.wf()
        &&& self.events.wf()
        &&& self.accepted@ + self.demand <= sum_grants(self.events.history())
    }

    /// A fresh adapter, with one unit of demand granted up front.
    pub fn new() -> (a: SinkAdapter)
        ensures
            a.inv(),
            a.demand() == 1,
            a.accepted() == 0,
            a.spec_buffered() is None,
            !a.is_ended(),
            a.consumer_messages() == Seq::<ConsumerMessage<Vec<u8>>>::empty(),
            a.consumer_events() == seq![ConsumerEvent::Request(1)],
            a.events_history() == seq![ConsumerEvent::Request(1)],
            !a.consumer_events_taken(),
    {
        let mut events: Queue<ConsumerEvent> = Queue::new();
        events.push(ConsumerEvent::Request(1));
        proof {
            lemma_sum_grants_push(Seq::empty(), ConsumerEvent::Request(1));
        }
        SinkAdapter {
            messages: Queue::new(),
            events,
            events_taken: false,
            demand: 1,
            buffered: None,
            ended: false,
            accepted: Ghost(0),
        }
    }

    /// Take the next chunk to offer the sink. Only meaningful while no
    /// refused chunk is buffered: the buffer is the only place a second
    /// refusal could not go.
    pub fn next_chunk(&mut self) -> (r: Result<Option<Vec<u8>>, AdapterFault>)
        requires
            old(self).inv(),
            old(self).spec_buffered() is None,
        ensures
            final(self).inv(),
            final(self).spec_buffered() is None,
            final(self).events_history() == old(self).events_history(),
            final(self).consumer_events() == old(self).consumer_events(),
            final(self).consumer_events_taken() == old(self).consumer_events_taken(),
            old(self).is_ended() ==> r == Ok::<Option<Vec<u8>>, AdapterFault>(
                None::<Vec<u8>>,
            ) && *final(self) == *old(self),
            !old(self).is_ended() && old(self).consumer_messages().len() == 0 ==> {
                &&& r == Ok::<Option<Vec<u8>>, AdapterFault>(None::<Vec<u8>>)
                &&& final(self).consumer_messages() == old(self).consumer_messages()
                &&& final(self).demand() == old(self).demand()
                &&& final(self).accepted() == old(self).accepted()
                &&& final(self).is_ended() == old(self).is_ended()
            },
            !old(self).is_ended() && old(self).consumer_messages().len() > 0 ==> {
                &&& final(self).consumer_messages() == old(self).consumer_messages().drop_first()
                &&& (match old(self).consumer_messages()[0] {
                    ConsumerMessage::End => {
                        &&& r == Ok::<Option<Vec<u8>>, AdapterFault>(None::<Vec<u8>>)
                        &&& final(self).is_ended()
                    },
                    ConsumerMessage::Write(d) => {
                        &&& old(self).demand() == 0 ==> r == Err::<Option<Vec<u8>>, AdapterFault>(
                            AdapterFault::WriteWithoutDemand,
                        ) && final(self).is_ended()
                        &&& old(self).demand() > 0 ==> {
                            &&& r == Ok::<Option<Vec<u8>>, AdapterFault>(Some(d))
                            &&& final(self).demand() == old(self).demand() - 1
                            &&& final(self).accepted() == old(self).accepted() + 1
                            &&& final(self).is_ended() == old(self).is_ended()
                        }
                    },
                })
            },
    {
        if self.ended {
            return Ok(None);
        }
        match self.messages.pop() {
            None => Ok(None),
            Some(ConsumerMessage::End) => {
                self.ended = true;
                Ok(None)
            },
            Some(ConsumerMessage::Write(d)) => {
                if self.demand == 0 {
                    self.ended = true;
                    Err(AdapterFault::WriteWithoutDemand)
                } else {
                    self.demand = self.demand - 1;
                    self.accepted = Ghost(self.accepted@ + 1);
                    Ok(Some(d))
                }
            },
        }
    }

    /// Whether the stream has ended: by `End`, or by a protocol fault.
    pub fn ended(&self) -> (r: bool)
        ensures
            r == self.is_ended(),
    {
        self.ended
    }

    /// Record what the sink did with one offered chunk: an accepted
    /// chunk grants one fresh unit of demand, a refused chunk is
    /// buffered for retry, and a failure cancels the stream as
    /// disconnected.
    pub fn send_or_buffer(&mut self, data: Vec<u8>, status: SinkStatus)
        requires
            old(self).inv(),
            old(self).spec_buffered() is None,
        ensures
            final(self).inv(),
            final(self).consumer_messages() == old(self).consumer_messages(),
            final(self).consumer_events_taken() == old(self).consumer_events_taken(),
            final(self).is_ended() == old(self).is_ended(),
            (match status {
                SinkStatus::Accepted => {
                    &&& final(self).events_history() == old(self).events_history().push(
                        ConsumerEvent::Request(1),
                    )
                    &&& final(self).consumer_events() == old(self).consumer_events().push(
                        ConsumerEvent::Request(1),
                    )
                    &&& final(self).spec_buffered() is None
                },
                SinkStatus::Busy => {
                    &&& final(self).events_history() == old(self).events_history()
                    &&& final(self).consumer_events() == old(self).consumer_events()
                    &&& final(self).spec_buffered() == Some(data)
                },
                SinkStatus::Failed => {
                    &&& final(self).events_history() == old(self).events_history().push(
                        ConsumerEvent::Cancellation(CancelReason::Disconnected),
                    )
                    &&& final(self).consumer_events() == old(self).consumer_events().push(
                        ConsumerEvent::Cancellation(CancelReason::Disconnected),
                    )
                    &&& final(self).spec_buffered() is None
                },
            }),
    {
        match status {
            SinkStatus::Accepted => {
                proof {
                    lemma_sum_grants_push(self.events.history(), ConsumerEvent::Request(1));
                }
                self.events.push(ConsumerEvent::Request(1));
                if self.demand < u64::MAX {
                    self.demand = self.demand + 1;
                }
            },
            SinkStatus::Busy => {
                self.buffered = Some(data);
            },
            SinkStatus::Failed => {
                proof {
                    lemma_sum_grants_push(
                        self.events.history(),
                        ConsumerEvent::Cancellation(CancelReason::Disconnected),
                    );
                }
                self.events.push(ConsumerEvent::Cancellation(CancelReason::Disconnected));
            },
        }
    }

    /// Take the buffered chunk back out, to offer the sink again once
    /// it has caught up.
    pub fn retry_buffered(&mut self) -> (r: Option<Vec<u8>>)
        requires
            old(self).inv(),
        ensures
            final(self).inv(),
            r == old(self).spec_buffered(),
            final(self).spec_buffered() is None,
            final(self).consumer_messages() == old(self).consumer_messages(),
            final(self).consumer_events() == old(self).consumer_events(),
            final(self).events_history() == old(self).events_history(),
            final(self).consumer_events_taken() == old(self).consumer_events_taken(),
            final(self).is_ended() == old(self).is_ended(),
            final(self).demand() == old(self).demand(),
    {
        let r = Option::take(&mut self.buffered);
        r
    }
}

impl Consumer<Vec<u8>> for SinkAdapter {
    closed spec fn consumer_inv(&self) -> bool {
        self.inv()
    }

    closed spec fn consumer_messages(&self) -> Seq<ConsumerMessage<Vec<u8>>> {
        self.messages.pending()
    }

    closed spec fn consumer_events(&self) -> Seq<ConsumerEvent> {
        self.events.pending()
    }

    closed spec fn consumer_events_taken(&self) -> bool {
        self.events_taken
    }

    fn write(&mut self, data: Vec<u8>)
        ensures
            final(self).is_ended() == old(self).is_ended(),
            final(self).demand() == old(self).demand(),
            final(self).spec_buffered() == old(self).spec_buffered(),
    {
        self.messages.push(ConsumerMessage::Write(data));
    }

    fn end(&mut self)
        ensures
            final(self).is_ended() == old(self).is_ended(),
            final(self).demand() == old(self).demand(),
            final(self).spec_buffered() == old(self).spec_buffered(),
    {
        self.messages.push(ConsumerMessage::End);
    }

    fn event_stream(&mut self) -> (r: Option<ConsumerEventRx>) {
        if self.events_taken {
            None
        } else {
            self.events_taken = true;
            Some(ConsumerEventRx::grant())
        }
    }

    fn next_event(&mut self, rx: &ConsumerEventRx) -> (r: Option<ConsumerEvent>) {
        self.events.pop()
    }
}

} // verus!
