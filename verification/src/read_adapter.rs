//! The demand bookkeeping of a producer that reads chunks from an
//! underlying reader. The reading itself happens outside the library;
//! this state machine accumulates demand, admits one chunk per unit of
//! it, and ends the stream when the reader is exhausted. It obeys the
//! same demand invariant as every producer: no more data emitted than
//! demand requested.
use vstd::prelude::*;

use crate::CancelReason;
use crate::Queue;
use crate::Streamer;
use crate::producer::Producer;
use crate::producer::ProducerEvent;
use crate::producer::ProducerEventRx;
use crate::producer::ProducerMessage;
use crate::producer::count_data;
use crate::producer::lemma_count_data_add;
use crate::producer::lemma_count_data_one;
use crate::producer::lemma_sum_requests_push;
use crate::producer::sum_requests;
use crate::range_producer::sat_add;

verus! {

/// What one processing turn leaves of a read adapter's state.
pub struct ReadOutcome {
    pub demand: u64,
    pub done: bool,
}

/// What draining the pending control messages does: requests accumulate
/// demand, saturating at the counter's width; a cancellation ends the
/// stream and clears the demand; a finished adapter ignores everything.
pub open spec fn read_poll_out(demand: u64, done: bool, msgs: Seq<ProducerMessage>) -> ReadOutcome
    decreases msgs.len(),
{
    if msgs.len() == 0 {
        ReadOutcome { demand, done }
    } else if done {
        read_poll_out(demand, done, msgs.drop_first())
    } else {
        match msgs[0] {
            ProducerMessage::Request(n) => read_poll_out(
                sat_add(demand, n),
                done,
                msgs.drop_first(),
            ),
            ProducerMessage::Cancel(_) => read_poll_out(0, true, msgs.drop_first()),
        }
    }
}

/// A producer that reads one chunk from an underlying reader per unit
/// of granted demand.
pub struct ReadAdapter {
    messages: Queue<ProducerMessage>,
    events: Queue<ProducerEvent<Vec<u8>>>,
    events_taken: bool,
    demand: u64,
    done: bool,
    granted: Ghost<nat>,
}

impl ReadAdapter {
    /// Outstanding demand: granted and processed but not yet spent.
    pub closed spec fn demand(&self) -> u64 {
        self.demand
    }

    /// Whether the stream has ended: reader exhausted, or cancelled.
    pub closed spec fn is_done(&self) -> bool {
        self.done
    }

    /// Every event ever emitted, oldest first.
    pub closed spec fn events_history(&self) -> Seq<ProducerEvent<Vec<u8>>> {
        self.events.history()
    }

    /// The total demand ever requested, over all `request` calls.
    pub closed spec fn requested_total(&self) -> nat {
        self.granted@
    }

    /// How many chunks have ever been emitted.
    pub open spec fn data_emitted(&self) -> nat {
        count_data(self.events_history())
    }

    /// The adapter's well-formedness, and the demand invariant: data
    /// emitted plus demand outstanding never exceed the demand
    /// requested and processed.
    pub closed spec fn inv(&self) -> bool {
        &&& self.messages.wf()
        &&& self.events.wf()
        &&& sum_requests(self.messages.pending()) <= self.granted@
        &&& count_data(self.events.history()) + self.demand <= self.granted@ - sum_requests(
            self.messages.pending(),
        )
        &&& self.done ==> self.demand == 0
    }

    pub fn new() -> (a: ReadAdapter)
        ensures
            a.inv(),
            a.demand() == 0,
            !a.is_done(),
            a.events_history() == Seq::<ProducerEvent<Vec<u8>>>::empty(),
            a.producer_messages() == Seq::<ProducerMessage>::empty(),
            !a.producer_events_taken(),
            a.requested_total() == 0,
    {
        ReadAdapter {
            messages: Queue::new(),
            events: Queue::new(),
            events_taken: false,
            demand: 0,
            done: false,
            granted: Ghost(0),
        }
    }

    /// Whether the stream has ended: reader exhausted, or cancelled.
    pub fn finished(&self) -> (r: bool)
        ensures
            r == self.is_done(),
    {
        self.done
    }

    /// How much demand one read may currently be performed against.
    pub fn demand_left(&self) -> (r: u64)
        ensures
            r == self.demand(),
    {
        self.demand
    }

    /// Record the outcome of one read the driver performed against one
    /// unit of demand: a chunk is emitted as `Data`; an empty read is
    /// the reader's exhaustion, emitted as `End`.
    pub fn on_read(&mut self, chunk: Vec<u8>)
        requires
            old(self).inv(),
            !old(self).is_done(),
            old(self).demand() > 0,
        ensures
            final(self).inv(),
            chunk@.len() > 0 ==> {
                &&& final(self).events_history() == old(self).events_history().push(
                    ProducerEvent::Data(chunk),
                )
                &&& final(self).producer_events() == old(self).producer_events().push(
                    ProducerEvent::Data(chunk),
                )
                &&& final(self).demand() == old(self).demand() - 1
                &&& !final(self).is_done()
            },
            chunk@.len() == 0 ==> {
                &&& final(self).events_history() == old(self).events_history().push(
                    ProducerEvent::End,
                )
                &&& final(self).producer_events() == old(self).producer_events().push(
                    ProducerEvent::End,
                )
                &&& final(self).demand() == 0
                &&& final(self).is_done()
            },
            final(self).producer_messages() == old(self).producer_messages(),
            final(self).producer_events_taken() == old(self).producer_events_taken(),
            final(self).requested_total() == old(self).requested_total(),
    {
        if chunk.len() == 0 {
            proof {
                lemma_count_data_add(self.events.history(), seq![ProducerEvent::End]);
                lemma_count_data_one(ProducerEvent::<Vec<u8>>::End);
                assert(self.events.history().push(ProducerEvent::<Vec<u8>>::End) =~= self.events
                    .history() + seq![ProducerEvent::<Vec<u8>>::End]);
            }
            self.events.push(ProducerEvent::End);
            self.demand = 0;
            self.done = true;
        } else {
            proof {
                lemma_count_data_add(self.events.history(), seq![ProducerEvent::Data(chunk)]);
                lemma_count_data_one(ProducerEvent::Data(chunk));
                assert(self.events.history().push(ProducerEvent::Data(chunk)) =~= self.events
                    .history() + seq![ProducerEvent::Data(chunk)]);
            }
            self.events.push(ProducerEvent::Data(chunk));
            self.demand = self.demand - 1;
        }
    }
}

impl Streamer for ReadAdapter {
    closed spec fn inv(&self) -> bool {
        self.inv()
    }

    /// Enqueue a cancellation; the next processing turn ends the stream.
    fn cancel(&mut self, reason: CancelReason)
        ensures
            final(self).producer_messages() == old(self).producer_messages().push(
                ProducerMessage::Cancel(reason),
            ),
            final(self).events_history() == old(self).events_history(),
            final(self).producer_events() == old(self).producer_events(),
            final(self).producer_events_taken() == old(self).producer_events_taken(),
            final(self).requested_total() == old(self).requested_total(),
    {
        proof {
            lemma_sum_requests_push(self.messages.pending(), ProducerMessage::Cancel(reason));
        }
        self.messages.push(ProducerMessage::Cancel(reason));
    }
}

impl Producer<Vec<u8>> for ReadAdapter {
    closed spec fn producer_messages(&self) -> Seq<ProducerMessage> {
        self.messages.pending()
    }

    closed spec fn producer_events(&self) -> Seq<ProducerEvent<Vec<u8>>> {
        self.events.pending()
    }

    closed spec fn producer_events_taken(&self) -> bool {
        self.events_taken
    }

    /// Enqueue a demand grant; the next processing turn accumulates it.
    fn request(&mut self, num_items: usize)
        ensures
            final(self).requested_total() == old(self).requested_total() + num_items,
            final(self).events_history() == old(self).events_history(),
            final(self).demand() == old(self).demand(),
            final(self).is_done() == old(self).is_done(),
    {
        proof {
            lemma_sum_requests_push(self.messages.pending(), ProducerMessage::Request(num_items));
        }
        self.messages.push(ProducerMessage::Request(num_items));
        self.granted = Ghost((self.granted@ + num_items) as nat);
    }

    fn event_stream(&mut self) -> (r: Option<ProducerEventRx>)
        ensures
            final(self).events_history() == old(self).events_history(),
            final(self).demand() == old(self).demand(),
    {
        if self.events_taken {
            None
        } else {
            self.events_taken = true;
            Some(ProducerEventRx::grant())
        }
    }

    fn next_event(&mut self, rx: &ProducerEventRx) -> (r: Option<ProducerEvent<Vec<u8>>>)
        ensures
            final(self).events_history() == old(self).events_history(),
            final(self).demand() == old(self).demand(),
    {
        self.events.pop()
    }

    /// One processing turn: drain all pending control messages, in
    /// order, leaving exactly the demand and termination state that
    /// `read_poll_out` names. No event is emitted here: chunks flow only
    /// when the driver reads them.
    fn poll(&mut self)
        ensures
            final(self).producer_messages().len() == 0,
            final(self).events_history() == old(self).events_history(),
            final(self).producer_events() == old(self).producer_events(),
            final(self).demand() == read_poll_out(
                old(self).demand(),
                old(self).is_done(),
                old(self).producer_messages(),
            ).demand,
            final(self).is_done() == read_poll_out(
                old(self).demand(),
                old(self).is_done(),
                old(self).producer_messages(),
            ).done,
            final(self).producer_events_taken() == old(self).producer_events_taken(),
            final(self).requested_total() == old(self).requested_total(),
    {
        loop
            invariant_except_break
                self.inv(),
                self.events == old(self).events,
                self.events_taken == old(self).events_taken,
                self.granted == old(self).granted,
                read_poll_out(old(self).demand(), old(self).is_done(), old(self).producer_messages())
                    == read_poll_out(self.demand, self.done, self.messages.pending()),
            ensures
                self.inv(),
                self.events == old(self).events,
                self.events_taken == old(self).events_taken,
                self.granted == old(self).granted,
                self.messages.pending().len() == 0,
                self.demand == read_poll_out(
                    old(self).demand(),
                    old(self).is_done(),
                    old(self).producer_messages(),
                ).demand,
                self.done == read_poll_out(
                    old(self).demand(),
                    old(self).is_done(),
                    old(self).producer_messages(),
                ).done,
            decreases self.messages.pending().len(),
        {
            let ghost pre = *self;
            let m = match self.messages.pop() {
                None => {
                    break ;
                },
                Some(m) => m,
            };
            proof {
                assert(sum_requests(pre.messages.pending()) == (match m {
                    ProducerMessage::Request(n) => n as nat,
                    ProducerMessage::Cancel(_) => 0nat,
                }) + sum_requests(self.messages.pending()));
            }
            if !self.done {
                match m {
                    ProducerMessage::Request(n) => {
                        let n64 = n as u64;
                        if u64::MAX - self.demand < n64 {
                            self.demand = u64::MAX;
                        } else {
                            self.demand = self.demand + n64;
                        }
                    },
                    ProducerMessage::Cancel(_) => {
                        self.demand = 0;
                        self.done = true;
                    },
                }
            }
        }
    }
}

/// Law: the demand invariant for the read adapter. However requests,
/// turns, and reads interleave, it has never emitted more chunks than
/// the total demand ever requested of it.
pub proof fn lemma_read_adapter_demand(a: &ReadAdapter)
    requires
        a.inv(),
    ensures
        a.data_emitted() <= a.requested_total(),
{
}

} // verus!
