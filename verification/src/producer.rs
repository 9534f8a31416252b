//! The producer side of the demand protocol: a producer emits `Data`
//! items only against demand previously granted through `request`, and
//! emits `End` exactly when its source is exhausted.
use vstd::prelude::*;

use crate::CancelReason;
use crate::Conduit;
use crate::Streamer;
use crate::consumer::Consumer;
use crate::consumer::ConsumerEvent;
use crate::consumer::ConsumerEventRx;
use crate::consumer::ConsumerMessage;

verus! {

/// A message sent into a producer.
#[derive(Debug, Clone, PartialEq)]
pub enum ProducerMessage {
    /// Grant `n` additional units of demand.
    Request(usize),
    /// Cease emitting and release resources.
    Cancel(CancelReason),
}

/// An event a producer emits downstream.
#[derive(Debug, Clone, PartialEq)]
pub enum ProducerEvent<T> {
    Data(T),
    End,
}

/// The receiving end of a producer's event channel. At most one ever
/// exists per producer: `Producer::event_stream` hands it out once and
/// answers `None` from then on.
pub struct ProducerEventRx {
    _held: (),
}

impl ProducerEventRx {
    pub(crate) fn grant() -> ProducerEventRx {
        ProducerEventRx { _held: () }
    }
}

/// The demand a sequence of producer messages grants: the sum of all
/// `Request(n)` counts in it.
pub open spec fn sum_requests(s: Seq<ProducerMessage>) -> nat
    decreases s.len(),
{
    if s.len() == 0 {
        0
    } else {
        (match s[0] {
            ProducerMessage::Request(n) => n as nat,
            ProducerMessage::Cancel(_) => 0,
        }) + sum_requests(s.drop_first())
    }
}

/// Appending one message adds exactly its own grant to the sum.
pub proof fn lemma_sum_requests_push(s: Seq<ProducerMessage>, m: ProducerMessage)
    ensures
        sum_requests(s.push(m)) == sum_requests(s) + (match m {
            ProducerMessage::Request(n) => n as nat,
            ProducerMessage::Cancel(_) => 0,
        }),
    decreases s.len(),
{
    if s.len() == 0 {
        assert(s.push(m).drop_first() =~= s);
    } else {
        assert(s.push(m).drop_first() =~= s.drop_first().push(m));
        lemma_sum_requests_push(s.drop_first(), m);
    }
}

/// How many `Data` events a sequence of producer events holds.
pub open spec fn count_data<T>(s: Seq<ProducerEvent<T>>) -> nat
    decreases s.len(),
{
    if s.len() == 0 {
        0
    } else {
        (match s[0] {
            ProducerEvent::Data(_) => 1nat,
            ProducerEvent::End => 0nat,
        }) + count_data(s.drop_first())
    }
}

/// Appending events adds their own data count to the total.
pub proof fn lemma_count_data_add<T>(a: Seq<ProducerEvent<T>>, b: Seq<ProducerEvent<T>>)
    ensures
        count_data(a + b) == count_data(a) + count_data(b),
    decreases a.len(),
{
    if a.len() == 0 {
        assert(a + b =~= b);
    } else {
        assert((a + b).drop_first() =~= a.drop_first() + b);
        lemma_count_data_add(a.drop_first(), b);
    }
}

/// A single event counts as one datum or none.
pub proof fn lemma_count_data_one<T>(e: ProducerEvent<T>)
    ensures
        count_data(seq![e]) == (match e {
            ProducerEvent::Data(_) => 1nat,
            ProducerEvent::End => 0nat,
        }),
{
    reveal_with_fuel(count_data, 2);
    assert(seq![e].drop_first() =~= Seq::<ProducerEvent<T>>::empty());
}

/// An entity that emits items only against accumulated demand.
///
/// `producer_messages()` is the queue of control messages received and
/// not yet processed; `producer_events()` the queue of emitted events
/// not yet read. `request` only enqueues — it never blocks, and repeated
/// calls accumulate; the producer's own processing step turns queued
/// demand into `Data` events.
pub trait Producer<T>: Streamer {
    /// Control messages received and not yet processed, oldest first.
    spec fn producer_messages(&self) -> Seq<ProducerMessage>;

    /// Events emitted and not yet read, oldest first.
    spec fn producer_events(&self) -> Seq<ProducerEvent<T>>;

    /// Whether the event channel's receiving end was already handed out.
    spec fn producer_events_taken(&self) -> bool;

    /// Grant `num_items` more units of demand: a fire-and-forget hint.
    fn request(&mut self, num_items: usize)
        requires
            old(self).inv(),
        ensures
            final(self).inv(),
            final(self).producer_messages() == old(self).producer_messages().push(
                ProducerMessage::Request(num_items),
            ),
            final(self).producer_events() == old(self).producer_events(),
            final(self).producer_events_taken() == old(self).producer_events_taken(),
    ;

    /// Take the event channel's receiving end: `Some` the first time,
    /// `None` ever after.
    fn event_stream(&mut self) -> (r: Option<ProducerEventRx>)
        requires
            old(self).inv(),
        ensures
            final(self).inv(),
            final(self).producer_messages() == old(self).producer_messages(),
            final(self).producer_events() == old(self).producer_events(),
            final(self).producer_events_taken(),
            old(self).producer_events_taken() ==> r is None,
            !old(self).producer_events_taken() ==> r is Some,
    ;

    /// Read the oldest unread event, in the exact order emitted.
    fn next_event(&mut self, rx: &ProducerEventRx) -> (r: Option<ProducerEvent<T>>)
        requires
            old(self).inv(),
        ensures
            final(self).inv(),
            final(self).producer_messages() == old(self).producer_messages(),
            final(self).producer_events_taken() == old(self).producer_events_taken(),
            old(self).producer_events().len() == 0 ==> {
                &&& r is None
                &&& final(self).producer_events() == old(self).producer_events()
            },
            old(self).producer_events().len() > 0 ==> {
                &&& r == Some(old(self).producer_events()[0])
                &&& final(self).producer_events() == old(self).producer_events().drop_first()
            },
    ;

    /// Run one turn of the entity's own processing: drain pending
    /// control messages and emit whatever they call for. Each
    /// implementation states exactly what its turn does.
    fn poll(&mut self)
        requires
            old(self).inv(),
        ensures
            final(self).inv(),
    ;
}

/// The consumer message a producer event is forwarded as when piping.
pub open spec fn event_to_message<T>(e: ProducerEvent<T>) -> ConsumerMessage<T> {
    match e {
        ProducerEvent::Data(d) => ConsumerMessage::Write(d),
        ProducerEvent::End => ConsumerMessage::End,
    }
}

/// All of an event sequence forwarded downstream, in order.
pub open spec fn forward_downstream<T>(events: Seq<ProducerEvent<T>>) -> Seq<ConsumerMessage<T>>
    decreases events.len(),
{
    if events.len() == 0 {
        Seq::empty()
    } else {
        seq![event_to_message(events[0])] + forward_downstream(events.drop_first())
    }
}

/// The producer message a consumer event is forwarded as when piping.
pub open spec fn event_to_producer_message(e: ConsumerEvent) -> ProducerMessage {
    match e {
        ConsumerEvent::Request(n) => ProducerMessage::Request(n),
        ConsumerEvent::Cancellation(r) => ProducerMessage::Cancel(r),
    }
}

/// All of a consumer's events forwarded upstream, in order.
pub open spec fn forward_upstream(events: Seq<ConsumerEvent>) -> Seq<ProducerMessage>
    decreases events.len(),
{
    if events.len() == 0 {
        Seq::empty()
    } else {
        seq![event_to_producer_message(events[0])] + forward_upstream(events.drop_first())
    }
}

/// Whether any `Cancellation` occurs in the sequence.
pub open spec fn has_cancellation(events: Seq<ConsumerEvent>) -> bool
    decreases events.len(),
{
    if events.len() == 0 {
        false
    } else if events[0] is Cancellation {
        true
    } else {
        has_cancellation(events.drop_first())
    }
}

/// One turn of the two forwarding loops that pipe a producer into a
/// consumer. Downstream, every pending producer event becomes the
/// consumer message it stands for (`Data` to `write`, `End` to `end`),
/// in order. Upstream, every pending consumer event goes back to the
/// producer (`Request` to `request`, `Cancellation` to `cancel`), in
/// order. The two directions read from independent queues: neither
/// blocks on the other.
pub fn pipe_step<T, P: Producer<T>, C: Consumer<T>>(
    producer: &mut P,
    producer_rx: &ProducerEventRx,
    consumer: &mut C,
    consumer_rx: &ConsumerEventRx,
)
    requires
        old(producer).inv(),
        old(consumer).consumer_inv(),
    ensures
        final(producer).inv(),
        final(consumer).consumer_inv(),
        final(consumer).consumer_events().len() == 0,
        final(consumer).consumer_messages() == old(consumer).consumer_messages()
            + forward_downstream(old(producer).producer_events()),
        final(consumer).consumer_events_taken() == old(consumer).consumer_events_taken(),
        !has_cancellation(old(consumer).consumer_events()) ==> {
            &&& final(producer).producer_events().len() == 0
            &&& final(producer).producer_events_taken() == old(producer).producer_events_taken()
            &&& final(producer).producer_messages() == old(producer).producer_messages()
                + forward_upstream(old(consumer).consumer_events())
        },
{
    let ghost pe0 = producer.producer_events();
    let ghost cm0 = consumer.consumer_messages();
    loop
        invariant_except_break
            producer.inv(),
            consumer.consumer_inv(),
            producer.producer_messages() == old(producer).producer_messages(),
            producer.producer_events_taken() == old(producer).producer_events_taken(),
            consumer.consumer_events() == old(consumer).consumer_events(),
            consumer.consumer_events_taken() == old(consumer).consumer_events_taken(),
            cm0 + forward_downstream(pe0) == consumer.consumer_messages() + forward_downstream(
                producer.producer_events(),
            ),
        ensures
            producer.inv(),
            consumer.consumer_inv(),
            producer.producer_messages() == old(producer).producer_messages(),
            producer.producer_events_taken() == old(producer).producer_events_taken(),
            consumer.consumer_events() == old(consumer).consumer_events(),
            consumer.consumer_events_taken() == old(consumer).consumer_events_taken(),
            producer.producer_events().len() == 0,
            consumer.consumer_messages() == cm0 + forward_downstream(pe0),
        decreases producer.producer_events().len(),
    {
        let ghost pre_events = producer.producer_events();
        let ghost pre_msgs = consumer.consumer_messages();
        let e = match producer.next_event(producer_rx) {
            None => {
                proof {
                    assert(consumer.consumer_messages() + forward_downstream(
                        producer.producer_events(),
                    ) =~= consumer.consumer_messages());
                }
                break ;
            },
            Some(e) => e,
        };
        proof {
            assert(forward_downstream(pre_events) == seq![event_to_message(e)]
                + forward_downstream(producer.producer_events()));
        }
        match e {
            ProducerEvent::Data(d) => {
                consumer.write(d);
            },
            ProducerEvent::End => {
                consumer.end();
            },
        }
        proof {
            assert(pre_msgs + (seq![event_to_message(e)] + forward_downstream(
                producer.producer_events(),
            )) =~= consumer.consumer_messages() + forward_downstream(producer.producer_events()));
        }
    }
    let ghost ce0 = consumer.consumer_events();
    let ghost pm0 = producer.producer_messages();
    let ghost mut cancelled: bool = false;
    loop
        invariant_except_break
            producer.inv(),
            consumer.consumer_inv(),
            consumer.consumer_messages() == cm0 + forward_downstream(pe0),
            consumer.consumer_events_taken() == old(consumer).consumer_events_taken(),
            has_cancellation(consumer.consumer_events()) ==> has_cancellation(ce0),
            cancelled ==> has_cancellation(ce0),
            !cancelled ==> producer.producer_events().len() == 0,
            !cancelled ==> producer.producer_events_taken() == old(
                producer,
            ).producer_events_taken(),
            !cancelled ==> pm0 + forward_upstream(ce0) == producer.producer_messages()
                + forward_upstream(consumer.consumer_events()),
        ensures
            producer.inv(),
            consumer.consumer_inv(),
            consumer.consumer_messages() == cm0 + forward_downstream(pe0),
            consumer.consumer_events_taken() == old(consumer).consumer_events_taken(),
            consumer.consumer_events().len() == 0,
            !has_cancellation(ce0) ==> {
                &&& producer.producer_events().len() == 0
                &&& producer.producer_events_taken() == old(producer).producer_events_taken()
                &&& producer.producer_messages() == pm0 + forward_upstream(ce0)
            },
        decreases consumer.consumer_events().len(),
    {
        let ghost pre_events = consumer.consumer_events();
        let ghost pre_msgs = producer.producer_messages();
        let e = match consumer.next_event(consumer_rx) {
            None => {
                proof {
                    if !cancelled {
                        assert(producer.producer_messages() + forward_upstream(
                            consumer.consumer_events(),
                        ) =~= producer.producer_messages());
                    }
                }
                break ;
            },
            Some(e) => e,
        };
        match e {
            ConsumerEvent::Request(n) => {
                producer.request(n);
                proof {
                    if !cancelled {
                        assert(forward_upstream(pre_events) == seq![event_to_producer_message(e)]
                            + forward_upstream(consumer.consumer_events()));
                        assert(pre_msgs + (seq![event_to_producer_message(e)] + forward_upstream(
                            consumer.consumer_events(),
                        )) =~= producer.producer_messages() + forward_upstream(
                            consumer.consumer_events(),
                        ));
                    }
                }
            },
            ConsumerEvent::Cancellation(r) => {
                proof {
                    assert(has_cancellation(pre_events));
                    cancelled = true;
                }
                producer.cancel(r);
            },
        }
    }
}

/// A producer wired to a consumer: the owner of both forwarding loops.
/// The two components stay reachable so their own processing turns can
/// still be driven.
pub struct Pipe<P, C> {
    pub producer: P,
    pub consumer: C,
    pub producer_rx: ProducerEventRx,
    pub consumer_rx: ConsumerEventRx,
}

impl<P, C> Pipe<P, C> {
    /// Run one forwarding turn over the two components.
    pub fn step<T>(&mut self)
        where P: Producer<T>, C: Consumer<T>
        requires
            old(self).producer.inv(),
            old(self).consumer.consumer_inv(),
        ensures
            final(self).producer.inv(),
            final(self).consumer.consumer_inv(),
            final(self).consumer.consumer_events().len() == 0,
            final(self).consumer.consumer_messages() == old(self).consumer.consumer_messages()
                + forward_downstream(old(self).producer.producer_events()),
            !has_cancellation(old(self).consumer.consumer_events()) ==> {
                &&& final(self).producer.producer_events().len() == 0
                &&& final(self).producer.producer_messages() == old(
                    self,
                ).producer.producer_messages() + forward_upstream(
                    old(self).consumer.consumer_events(),
                )
            },
    {
        pipe_step(&mut self.producer, &self.producer_rx, &mut self.consumer, &self.consumer_rx);
    }
}

/// Wire a producer to a consumer: take both event streams and hand back
/// the pipe that owns the forwarding loops. The streams must not have
/// been taken before.
pub fn pipe_into<T, P: Producer<T>, C: Consumer<T>>(producer: P, consumer: C) -> (pipe: Pipe<P, C>)
    requires
        producer.inv(),
        consumer.consumer_inv(),
        !producer.producer_events_taken(),
        !consumer.consumer_events_taken(),
    ensures
        pipe.producer.inv(),
        pipe.consumer.consumer_inv(),
        pipe.producer.producer_messages() == producer.producer_messages(),
        pipe.producer.producer_events() == producer.producer_events(),
        pipe.producer.producer_events_taken(),
        pipe.consumer.consumer_messages() == consumer.consumer_messages(),
        pipe.consumer.consumer_events() == consumer.consumer_events(),
        pipe.consumer.consumer_events_taken(),
{
    let mut producer = producer;
    let mut consumer = consumer;
    let producer_rx = match producer.event_stream() {
        Some(rx) => rx,
        None => {
            proof {
                assert(false);
            }
            ProducerEventRx::grant()
        },
    };
    let consumer_rx = match consumer.event_stream() {
        Some(rx) => rx,
        None => {
            proof {
                assert(false);
            }
            ConsumerEventRx::grant()
        },
    };
    Pipe { producer, consumer, producer_rx, consumer_rx }
}

/// Pipe a producer through a transform conduit: split the conduit, wire
/// the producer to its consumer half, and hand back the producer half
/// for the next stage, along with the pipe.
pub fn pipe_through<T, U, P: Producer<T>, C: Conduit<T, U>>(producer: P, conduit: C) -> (r: (
    Pipe<P, C::ConcreteConsumer>,
    C::ConcreteProducer,
))
    requires
        producer.inv(),
        conduit.inv(),
        conduit.consumer_inv(),
        !producer.producer_events_taken(),
        !conduit.consumer_events_taken(),
    ensures
        r.0.producer.inv(),
        r.0.consumer.consumer_inv(),
        r.1.inv(),
        r.0.producer.producer_messages() == producer.producer_messages(),
        r.0.producer.producer_events() == producer.producer_events(),
        r.0.producer.producer_events_taken(),
        r.0.consumer.consumer_messages() == conduit.consumer_messages(),
        r.0.consumer.consumer_events() == conduit.consumer_events(),
        r.0.consumer.consumer_events_taken(),
        r.1.producer_messages() == conduit.producer_messages(),
        r.1.producer_events() == conduit.producer_events(),
        r.1.producer_events_taken() == conduit.producer_events_taken(),
{
    let (consumer_half, producer_half) = conduit.split();
    let pipe = pipe_into(producer, consumer_half);
    (pipe, producer_half)
}

} // verus!
