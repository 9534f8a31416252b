//! The demand bookkeeping of a consumer that writes each item to an
//! underlying writer. The writing itself happens outside the library;
//! this state machine decides what the writer is handed, enforces that
//! no item arrives without previously granted demand — a protocol
//! violation, surfaced as an explicit fault — and grants one fresh unit
//! of demand for every completed write.
use vstd::prelude::*;

use crate::Queue;
use crate::consumer::Consumer;
use crate::consumer::ConsumerEvent;
use crate::consumer::ConsumerEventRx;
use crate::consumer::ConsumerMessage;

verus! {

/// A protocol violation by the upstream side, fatal to the stream.
#[derive(Clone, Copy, Debug, PartialEq, Eq, Structural)]
pub enum AdapterFault {
    /// An item was written without one unit of unspent demand.
    WriteWithoutDemand,
}

/// The demand each sequence of consumer events grants: the sum of all
/// `Request(n)` counts in it.
pub open spec fn sum_grants(s: Seq<ConsumerEvent>) -> nat
    decreases s.len(),
{
    if s.len() == 0 {
        0
    } else {
        (match s[0] {
            ConsumerEvent::Request(n) => n as nat,
            ConsumerEvent::Cancellation(_) => 0,
        }) + sum_grants(s.drop_first())
    }
}

/// Appending one event adds exactly its own grant to the sum.
pub proof fn lemma_sum_grants_push(s: Seq<ConsumerEvent>, e: ConsumerEvent)
    ensures
        sum_grants(s.push(e)) == sum_grants(s) + (match e {
            ConsumerEvent::Request(n) => n as nat,
            ConsumerEvent::Cancellation(_) => 0,
        }),
    decreases s.len(),
{
    if s.len() == 0 {
        assert(s.push(e).drop_first() =~= s);
    } else {
        assert(s.push(e).drop_first() =~= s.drop_first().push(e));
        lemma_sum_grants_push(s.drop_first(), e);
    }
}

/// A consumer that hands each written chunk to an underlying writer,
/// one at a time, against granted demand.
pub struct WriteAdapter {
    messages: Queue<ConsumerMessage<Vec<u8>>>,
    events: Queue<ConsumerEvent>,
    events_taken: bool,
    demand: u64,
    ended: bool,
    accepted: Ghost<nat>,
}

impl WriteAdapter {
    /// How much granted demand is still unspent.
    pub closed spec fn demand(&self) -> u64 {
        self.demand
    }

    /// How many writes have been accepted and handed to the writer.
    pub closed spec fn accepted(&self) -> nat {
        self.accepted@
    }

    /// Every event ever emitted, oldest first.
    pub closed spec fn events_history(&self) -> Seq<ConsumerEvent> {
        self.events.history()
    }

    /// Whether the stream has ended: by `End`, or by a protocol fault.
    pub closed spec fn is_ended(&self) -> bool {
        self.ended
    }

    /// The adapter's well-formedness, and the consumer side of the
    /// demand accounting: the writes accepted plus the demand still
    /// unspent never exceed the total demand ever granted downstream.
    pub closed spec fn inv(&self) -> bool {
        &&& self.messages.wf()
        &&& self.events.wf()
        &&& self.accepted@ + self.demand <= sum_grants(self.events.history())
    }

    /// A fresh adapter, with one unit of demand granted up front so the
    /// first item can flow.
    pub fn new() -> (a: WriteAdapter)
        ensures
            a.inv(),
            a.demand() == 1,
            a.accepted() == 0,
            !a.is_ended(),
            a.consumer_messages() == Seq::<ConsumerMessage<Vec<u8>>>::empty(),
            a.consumer_events() == seq![ConsumerEvent::Request(1)],
            a.events_history() == seq![ConsumerEvent::Request(1)],
            !a.consumer_events_taken(),
    {
        let mut events: Queue<ConsumerEvent> = Queue::new();
        events.push(ConsumerEvent::Request(1));
        proof {
            lemma_sum_grants_push(Seq::empty(), ConsumerEvent::Request(1));
        }
        WriteAdapter {
            messages: Queue::new(),
            events,
            events_taken: false,
            demand: 1,
            ended: false,
            accepted: Ghost(0),
        }
    }

    /// Take the next chunk to write, if one is pending. An `End` ends
    /// the stream; a chunk written without unspent demand is the
    /// protocol violation `WriteWithoutDemand`, which also ends the
    /// stream rather than passing the overrun through.
    pub fn poll_write(&mut self) -> (r: Result<Option<Vec<u8>>, AdapterFault>)
        requires
            old(self).inv(),
        ensures
            final(self).inv(),
            final(self).events_history() == old(self).events_history(),
            final(self).consumer_events() == old(self).consumer_events(),
            final(self).consumer_events_taken() == old(self).consumer_events_taken(),
            old(self).is_ended() ==> r == Ok::<Option<Vec<u8>>, AdapterFault>(
                None::<Vec<u8>>,
            ) && *final(self) == *old(self),
            !old(self).is_ended() && old(self).consumer_messages().len() == 0 ==> {
                &&& r == Ok::<Option<Vec<u8>>, AdapterFault>(None::<Vec<u8>>)
                &&& final(self).consumer_messages() == old(self).consumer_messages()
                &&& final(self).demand() == old(self).demand()
                &&& final(self).accepted() == old(self).accepted()
                &&& final(self).is_ended() == old(self).is_ended()
            },
            !old(self).is_ended() && old(self).consumer_messages().len() > 0 ==> {
                &&& final(self).consumer_messages() == old(self).consumer_messages().drop_first()
                &&& (match old(self).consumer_messages()[0] {
                    ConsumerMessage::End => {
                        &&& r == Ok::<Option<Vec<u8>>, AdapterFault>(None::<Vec<u8>>)
                        &&& final(self).is_ended()
                        &&& final(self).demand() == old(self).demand()
                        &&& final(self).accepted() == old(self).accepted()
                    },
                    ConsumerMessage::Write(d) => {
                        &&& old(self).demand() == 0 ==> r == Err::<Option<Vec<u8>>, AdapterFault>(
                            AdapterFault::WriteWithoutDemand,
                        ) && final(self).is_ended()
                        &&& old(self).demand() > 0 ==> {
                            &&& r == Ok::<Option<Vec<u8>>, AdapterFault>(Some(d))
                            &&& final(self).demand() == old(self).demand() - 1
                            &&& final(self).accepted() == old(self).accepted() + 1
                            &&& final(self).is_ended() == old(self).is_ended()
                        }
                    },
                })
            },
    {
        if self.ended {
            return Ok(None);
        }
        match self.messages.pop() {
            None => Ok(None),
            Some(ConsumerMessage::End) => {
                self.ended = true;
                Ok(None)
            },
            Some(ConsumerMessage::Write(d)) => {
                if self.demand == 0 {
                    self.ended = true;
                    Err(AdapterFault::WriteWithoutDemand)
                } else {
                    self.demand = self.demand - 1;
                    self.accepted = Ghost(self.accepted@ + 1);
                    Ok(Some(d))
                }
            },
        }
    }

    /// Whether the stream has ended: by `End`, or by a protocol fault.
    pub fn ended(&self) -> (r: bool)
        ensures
            r == self.is_ended(),
    {
        self.ended
    }

    /// Record that the writer completed one chunk: grant one fresh unit
    /// of demand downstream.
    pub fn written(&mut self)
        requires
            old(self).inv(),
        ensures
            final(self).inv(),
            final(self).events_history() == old(self).events_history().push(
                ConsumerEvent::Request(1),
            ),
            final(self).consumer_events() == old(self).consumer_events().push(
                ConsumerEvent::Request(1),
            ),
            final(self).consumer_messages() == old(self).consumer_messages(),
            final(self).consumer_events_taken() == old(self).consumer_events_taken(),
            final(self).accepted() == old(self).accepted(),
            final(self).is_ended() == old(self).is_ended(),
    {
        proof {
            lemma_sum_grants_push(self.events.history(), ConsumerEvent::Request(1));
        }
        self.events.push(ConsumerEvent::Request(1));
        if self.demand < u64::MAX {
            self.demand = self.demand + 1;
        }
    }
}

impl Consumer<Vec<u8>> for WriteAdapter {
    closed spec fn consumer_inv(&self) -> bool {
        self.inv()
    }

    closed spec fn consumer_messages(&self) -> Seq<ConsumerMessage<Vec<u8>>> {
        self.messages.pending()
    }

    closed spec fn consumer_events(&self) -> Seq<ConsumerEvent> {
        self.events.pending()
    }

    closed spec fn consumer_events_taken(&self) -> bool {
        self.events_taken
    }

    fn write(&mut self, data: Vec<u8>)
        ensures
            final(self).is_ended() == old(self).is_ended(),
            final(self).demand() == old(self).demand(),
    {
        self.messages.push(ConsumerMessage::Write(data));
    }

    fn end(&mut self)
        ensures
            final(self).is_ended() == old(self).is_ended(),
            final(self).demand() == old(self).demand(),
    {
        self.messages.push(ConsumerMessage::End);
    }

    fn event_stream(&mut self) -> (r: Option<ConsumerEventRx>) {
        if self.events_taken {
            None
        } else {
            self.events_taken = true;
            Some(ConsumerEventRx::grant())
        }
    }

    fn next_event(&mut self, rx: &ConsumerEventRx) -> (r: Option<ConsumerEvent>) {
        self.events.pop()
    }
}

/// Law: the consumer side of the demand invariant. A well-formed write
/// adapter has never accepted more writes than the total demand it has
/// granted downstream.
pub proof fn lemma_write_adapter_accounting(a: &WriteAdapter)
    requires
        a.inv(),
    ensures
        a.accepted() <= sum_grants(a.events_history()),
{
}

} // verus!
