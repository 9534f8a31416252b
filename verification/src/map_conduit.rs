//! A one-function transform stage: a conduit that applies `f` to every
//! item written into its consumer half and emits the result from its
//! producer half, forwarding demand and cancellation upstream unchanged.
//! The two halves split apart so different pipeline stages can own them.
use vstd::prelude::*;

use crate::CancelReason;
use crate::Conduit;
use crate::Queue;
use crate::Streamer;
use crate::consumer::Consumer;
use crate::consumer::ConsumerEvent;
use crate::consumer::ConsumerEventRx;
use crate::consumer::ConsumerMessage;
use crate::producer::Producer;
use crate::producer::ProducerEvent;
use crate::producer::ProducerEventRx;
use crate::producer::ProducerMessage;

verus! {

/// The consumer event a producer-side control message is forwarded as:
/// demand passes through unchanged, a cancel becomes a cancellation.
pub open spec fn forward_event(m: ProducerMessage) -> ConsumerEvent {
    match m {
        ProducerMessage::Request(n) => ConsumerEvent::Request(n),
        ProducerMessage::Cancel(r) => ConsumerEvent::Cancellation(r),
    }
}

/// All of a message sequence forwarded, in order.
pub open spec fn forward_out(msgs: Seq<ProducerMessage>) -> Seq<ConsumerEvent>
    decreases msgs.len(),
{
    if msgs.len() == 0 {
        Seq::empty()
    } else {
        seq![forward_event(msgs[0])] + forward_out(msgs.drop_first())
    }
}

/// The prefix of consumer messages one processing turn consumes: up to
/// and including the first `End`, or everything when there is none.
pub open spec fn write_prefix<A>(msgs: Seq<ConsumerMessage<A>>) -> Seq<ConsumerMessage<A>>
    decreases msgs.len(),
{
    if msgs.len() == 0 {
        Seq::empty()
    } else if msgs[0] is End {
        seq![msgs[0]]
    } else {
        seq![msgs[0]] + write_prefix(msgs.drop_first())
    }
}

/// The messages left after the first `End`; empty when there is none.
pub open spec fn write_rest<A>(msgs: Seq<ConsumerMessage<A>>) -> Seq<ConsumerMessage<A>>
    decreases msgs.len(),
{
    if msgs.len() == 0 {
        Seq::empty()
    } else if msgs[0] is End {
        msgs.drop_first()
    } else {
        write_rest(msgs.drop_first())
    }
}

/// Whether an `End` occurs anywhere in the sequence.
pub open spec fn has_end<A>(msgs: Seq<ConsumerMessage<A>>) -> bool
    decreases msgs.len(),
{
    if msgs.len() == 0 {
        false
    } else if msgs[0] is End {
        true
    } else {
        has_end(msgs.drop_first())
    }
}

/// One input message against the event emitted for it: a written item
/// becomes a datum the transform allows, an end stays an end.
pub open spec fn pair_ok<A, B, F: Fn(A) -> B>(
    f: F,
    m: ConsumerMessage<A>,
    e: ProducerEvent<B>,
) -> bool {
    match m {
        ConsumerMessage::Write(a) => e matches ProducerEvent::Data(b) && call_ensures(f, (a,), b),
        ConsumerMessage::End => e is End,
    }
}

/// A whole batch of inputs against the events emitted for them,
/// position by position.
pub open spec fn maps_batch<A, B, F: Fn(A) -> B>(
    f: F,
    inputs: Seq<ConsumerMessage<A>>,
    out: Seq<ProducerEvent<B>>,
) -> bool {
    &&& out.len() == inputs.len()
    &&& forall|i: int| 0 <= i < inputs.len() ==> #[trigger] pair_ok(f, inputs[i], out[i])
}

/// Extending a matched batch by one matched pair keeps it matched.
pub proof fn lemma_maps_batch_push<A, B, F: Fn(A) -> B>(
    f: F,
    inputs: Seq<ConsumerMessage<A>>,
    out: Seq<ProducerEvent<B>>,
    m: ConsumerMessage<A>,
    e: ProducerEvent<B>,
)
    requires
        maps_batch(f, inputs, out),
        pair_ok(f, m, e),
    ensures
        maps_batch(f, inputs.push(m), out.push(e)),
{
    let ins2 = inputs.push(m);
    let out2 = out.push(e);
    assert forall|i: int| 0 <= i < ins2.len() implies #[trigger] pair_ok(f, ins2[i], out2[i]) by {
        if i < inputs.len() {
            assert(pair_ok(f, inputs[i], out[i]));
        }
    }
}

/// The consumer half of a transform conduit: accepts writes, carries
/// the transform, and emits the demand and cancellations forwarded from
/// the producer half.
pub struct MapConsumer<A, F> {
    messages: Queue<ConsumerMessage<A>>,
    events: Queue<ConsumerEvent>,
    events_taken: bool,
    ended: bool,
    f: F,
}

/// The producer half of a transform conduit: receives demand and
/// cancellation from downstream and emits the transformed items.
pub struct MapProducer<B> {
    messages: Queue<ProducerMessage>,
    events: Queue<ProducerEvent<B>>,
    events_taken: bool,
}

/// A transform conduit, both halves still together.
pub struct MapConduit<A, B, F> {
    consumer: MapConsumer<A, F>,
    producer: MapProducer<B>,
}

impl<A, F> MapConsumer<A, F> {
    /// The transform applied to each written item.
    pub closed spec fn transform(&self) -> F {
        self.f
    }

    /// Whether the conduit has seen `End` and emitted its final event.
    pub closed spec fn ended(&self) -> bool {
        self.ended
    }
}

impl<A, F> Consumer<A> for MapConsumer<A, F> {
    closed spec fn consumer_inv(&self) -> bool {
        &&& self.messages.wf()
        &&& self.events.wf()
    }

    closed spec fn consumer_messages(&self) -> Seq<ConsumerMessage<A>> {
        self.messages.pending()
    }

    closed spec fn consumer_events(&self) -> Seq<ConsumerEvent> {
        self.events.pending()
    }

    closed spec fn consumer_events_taken(&self) -> bool {
        self.events_taken
    }

    fn write(&mut self, data: A)
        ensures
            final(self).transform() == old(self).transform(),
            final(self).ended() == old(self).ended(),
    {
        self.messages.push(ConsumerMessage::Write(data));
    }

    fn end(&mut self)
        ensures
            final(self).transform() == old(self).transform(),
            final(self).ended() == old(self).ended(),
    {
        self.messages.push(ConsumerMessage::End);
    }

    fn event_stream(&mut self) -> (r: Option<ConsumerEventRx>)
        ensures
            final(self).transform() == old(self).transform(),
            final(self).ended() == old(self).ended(),
    {
        if self.events_taken {
            None
        } else {
            self.events_taken = true;
            Some(ConsumerEventRx::grant())
        }
    }

    fn next_event(&mut self, rx: &ConsumerEventRx) -> (r: Option<ConsumerEvent>)
        ensures
            final(self).transform() == old(self).transform(),
            final(self).ended() == old(self).ended(),
    {
        self.events.pop()
    }
}

impl<B> Streamer for MapProducer<B> {
    closed spec fn inv(&self) -> bool {
        &&& self.messages.wf()
        &&& self.events.wf()
    }

    /// Enqueue a cancellation; the next conduit turn forwards it
    /// upstream as a `Cancellation` event.
    fn cancel(&mut self, reason: CancelReason)
        ensures
            final(self).producer_messages() == old(self).producer_messages().push(
                ProducerMessage::Cancel(reason),
            ),
            final(self).producer_events() == old(self).producer_events(),
            final(self).producer_events_taken() == old(self).producer_events_taken(),
    {
        self.messages.push(ProducerMessage::Cancel(reason));
    }
}

impl<B> Producer<B> for MapProducer<B> {
    closed spec fn producer_messages(&self) -> Seq<ProducerMessage> {
        self.messages.pending()
    }

    closed spec fn producer_events(&self) -> Seq<ProducerEvent<B>> {
        self.events.pending()
    }

    closed spec fn producer_events_taken(&self) -> bool {
        self.events_taken
    }

    /// Enqueue a demand grant; the next conduit turn forwards it
    /// upstream as a `Request` event.
    fn request(&mut self, num_items: usize) {
        self.messages.push(ProducerMessage::Request(num_items));
    }

    fn event_stream(&mut self) -> (r: Option<ProducerEventRx>) {
        if self.events_taken {
            None
        } else {
            self.events_taken = true;
            Some(ProducerEventRx::grant())
        }
    }

    fn next_event(&mut self, rx: &ProducerEventRx) -> (r: Option<ProducerEvent<B>>) {
        self.events.pop()
    }

    /// A producer half on its own makes no progress: the transform runs
    /// in `conduit_step`, which needs both halves.
    fn poll(&mut self)
        ensures
            *final(self) == *old(self),
    {
    }
}

/// One processing turn of a transform conduit, over its two halves.
///
/// First every control message pending on the producer half is
/// forwarded upstream as a consumer event, in order. Then the written
/// items are consumed up to and including the first `End`: each item
/// `a` becomes one `Data` event whose value the transform allows for
/// `a`, and the `End` becomes the final `End` event, after which the
/// conduit is ended and every later turn leaves both halves unchanged.
pub fn conduit_step<A, B, F: Fn(A) -> B>(c: &mut MapConsumer<A, F>, p: &mut MapProducer<B>)
    requires
        old(c).consumer_inv(),
        old(p).inv(),
        forall|a: A| call_requires(old(c).transform(), (a,)),
    ensures
        final(c).consumer_inv(),
        final(p).inv(),
        final(c).transform() == old(c).transform(),
        final(c).consumer_events_taken() == old(c).consumer_events_taken(),
        final(p).producer_events_taken() == old(p).producer_events_taken(),
        old(c).ended() ==> *final(c) == *old(c) && *final(p) == *old(p),
        !old(c).ended() ==> {
            &&& final(p).producer_messages().len() == 0
            &&& final(c).consumer_events() == old(c).consumer_events() + forward_out(
                old(p).producer_messages(),
            )
            &&& final(c).consumer_messages() == write_rest(old(c).consumer_messages())
            &&& final(c).ended() == has_end(old(c).consumer_messages())
            &&& old(p).producer_events().is_prefix_of(final(p).producer_events())
            &&& final(p).producer_events().len() == old(p).producer_events().len() + write_prefix(
                old(c).consumer_messages(),
            ).len()
            &&& maps_batch(
                old(c).transform(),
                write_prefix(old(c).consumer_messages()),
                final(p).producer_events().skip(old(p).producer_events().len() as int),
            )
        },
{
    if c.ended {
        return ;
    }
    let ghost f0 = c.f;
    proof {
        assert forall|a: A| call_requires(f0, (a,)) by {
            assert(call_requires(old(c).transform(), (a,)));
        }
    }
    let ghost e0 = c.events.pending();
    let ghost pm0 = p.messages.pending();
    loop
        invariant_except_break
            c.consumer_inv(),
            p.inv(),
            forall|a: A| call_requires(f0, (a,)),
            c.f == f0,
            !c.ended,
            c.messages == old(c).messages,
            c.events_taken == old(c).events_taken,
            p.events == old(p).events,
            p.events_taken == old(p).events_taken,
            e0 + forward_out(pm0) == c.events.pending() + forward_out(p.messages.pending()),
        ensures
            c.consumer_inv(),
            p.inv(),
            c.f == f0,
            !c.ended,
            c.messages == old(c).messages,
            c.events_taken == old(c).events_taken,
            p.events == old(p).events,
            p.events_taken == old(p).events_taken,
            p.messages.pending().len() == 0,
            c.events.pending() == e0 + forward_out(pm0),
        decreases p.messages.pending().len(),
    {
        let ghost pre_msgs = p.messages.pending();
        let ghost pre_events = c.events.pending();
        let m = match p.messages.pop() {
            None => {
                proof {
                    assert(c.events.pending() + forward_out(p.messages.pending()) =~= c.events
                        .pending());
                }
                break ;
            },
            Some(m) => m,
        };
        let ev = match m {
            ProducerMessage::Request(n) => ConsumerEvent::Request(n),
            ProducerMessage::Cancel(r) => ConsumerEvent::Cancellation(r),
        };
        c.events.push(ev);
        proof {
            assert(forward_out(pre_msgs) == seq![forward_event(m)] + forward_out(
                p.messages.pending(),
            ));
            assert(pre_events + (seq![forward_event(m)] + forward_out(p.messages.pending())) =~= c
                .events.pending() + forward_out(p.messages.pending()));
        }
    }
    let ghost in0 = c.messages.pending();
    let ghost out0 = p.events.pending();
    let ghost cev = c.events.pending();
    let ghost mut acc: Seq<ConsumerMessage<A>> = Seq::empty();
    proof {
        assert(write_prefix(in0) =~= acc + write_prefix(c.messages.pending()));
        assert(p.events.pending() =~= out0 + p.events.pending().skip(out0.len() as int));
        assert(p.events.pending().skip(out0.len() as int) =~= Seq::<ProducerEvent<B>>::empty());
    }
    loop
        invariant_except_break
            c.consumer_inv(),
            p.inv(),
            forall|a: A| call_requires(f0, (a,)),
            c.f == f0,
            !c.ended,
            c.events.pending() == cev,
            c.events_taken == old(c).events_taken,
            p.messages.pending().len() == 0,
            p.events_taken == old(p).events_taken,
            in0 == acc + c.messages.pending(),
            !has_end(acc),
            write_prefix(in0) == acc + write_prefix(c.messages.pending()),
            write_rest(in0) == write_rest(c.messages.pending()),
            has_end(in0) == has_end(c.messages.pending()),
            out0.is_prefix_of(p.events.pending()),
            p.events.pending().len() == out0.len() + acc.len(),
            maps_batch(c.f, acc, p.events.pending().skip(out0.len() as int)),
        ensures
            c.consumer_inv(),
            p.inv(),
            c.f == f0,
            c.events.pending() == cev,
            c.events_taken == old(c).events_taken,
            p.messages.pending().len() == 0,
            p.events_taken == old(p).events_taken,
            c.messages.pending() == write_rest(in0),
            c.ended == has_end(in0),
            out0.is_prefix_of(p.events.pending()),
            p.events.pending().len() == out0.len() + write_prefix(in0).len(),
            maps_batch(c.f, write_prefix(in0), p.events.pending().skip(out0.len() as int)),
        decreases c.messages.pending().len(),
    {
        let ghost pre_in = c.messages.pending();
        let ghost pre_out = p.events.pending();
        let m = match c.messages.pop() {
            None => {
                proof {
                    assert(write_prefix(in0) =~= acc);
                    assert(write_rest(in0) =~= c.messages.pending());
                }
                break ;
            },
            Some(m) => m,
        };
        match m {
            ConsumerMessage::End => {
                p.events.push(ProducerEvent::End);
                c.ended = true;
                proof {
                    assert(write_prefix(pre_in) =~= seq![ConsumerMessage::<A>::End]);
                    assert(acc + seq![ConsumerMessage::<A>::End] =~= acc.push(
                        ConsumerMessage::End,
                    ));
                    assert(write_prefix(in0) == acc.push(ConsumerMessage::<A>::End));
                    lemma_maps_batch_push(
                        c.f,
                        acc,
                        pre_out.skip(out0.len() as int),
                        ConsumerMessage::End,
                        ProducerEvent::End,
                    );
                    assert(p.events.pending().skip(out0.len() as int) =~= pre_out.skip(
                        out0.len() as int,
                    ).push(ProducerEvent::End));
                }
                break ;
            },
            ConsumerMessage::Write(a) => {
                let ghost acc0 = acc;
                let ghost m2 = ConsumerMessage::Write(a);
                let b = (c.f)(a);
                p.events.push(ProducerEvent::Data(b));
                proof {
                    lemma_maps_batch_push(
                        c.f,
                        acc0,
                        pre_out.skip(out0.len() as int),
                        m2,
                        ProducerEvent::Data(b),
                    );
                    acc = acc0.push(m2);
                    assert(p.events.pending().skip(out0.len() as int) =~= pre_out.skip(
                        out0.len() as int,
                    ).push(ProducerEvent::Data(b)));
                    assert(in0 =~= acc + c.messages.pending());
                    assert(write_prefix(pre_in) == seq![m2] + write_prefix(c.messages.pending()));
                    assert(acc0 + (seq![m2] + write_prefix(c.messages.pending())) =~= acc
                        + write_prefix(c.messages.pending()));
                    lemma_has_end_push(acc0, m2);
                }
            },
        }
    }
}

impl<A, B, F: Fn(A) -> B> MapConduit<A, B, F> {
    /// The consumer half as it currently stands.
    pub closed spec fn consumer_half(&self) -> MapConsumer<A, F> {
        self.consumer
    }

    /// The producer half as it currently stands.
    pub closed spec fn producer_half(&self) -> MapProducer<B> {
        self.producer
    }

    /// Build a transform conduit around `f`; the transform must accept
    /// every input it can be handed.
    pub fn new(f: F) -> (c: MapConduit<A, B, F>)
        requires
            forall|a: A| call_requires(f, (a,)),
        ensures
            c.inv(),
            c.consumer_inv(),
            c.consumer_half().transform() == f,
            !c.consumer_half().ended(),
            c.consumer_messages() == Seq::<ConsumerMessage<A>>::empty(),
            c.consumer_events() == Seq::<ConsumerEvent>::empty(),
            c.producer_messages() == Seq::<ProducerMessage>::empty(),
            c.producer_events() == Seq::<ProducerEvent<B>>::empty(),
            !c.consumer_events_taken(),
            !c.producer_events_taken(),
    {
        MapConduit {
            consumer: MapConsumer {
                messages: Queue::new(),
                events: Queue::new(),
                events_taken: false,
                ended: false,
                f,
            },
            producer: MapProducer {
                messages: Queue::new(),
                events: Queue::new(),
                events_taken: false,
            },
        }
    }
}

impl<A, B, F: Fn(A) -> B> Streamer for MapConduit<A, B, F> {
    closed spec fn inv(&self) -> bool {
        &&& self.consumer.consumer_inv()
        &&& self.producer.inv()
        &&& forall|a: A| call_requires(self.consumer.transform(), (a,))
    }

    /// Enqueue a cancellation on the producer half; the next turn
    /// forwards it upstream.
    fn cancel(&mut self, reason: CancelReason)
        ensures
            final(self).producer_messages() == old(self).producer_messages().push(
                ProducerMessage::Cancel(reason),
            ),
            final(self).producer_events() == old(self).producer_events(),
            final(self).consumer_half() == old(self).consumer_half(),
    {
        self.producer.cancel(reason);
    }
}

impl<A, B, F: Fn(A) -> B> Consumer<A> for MapConduit<A, B, F> {
    closed spec fn consumer_inv(&self) -> bool {
        self.consumer.consumer_inv()
    }

    closed spec fn consumer_messages(&self) -> Seq<ConsumerMessage<A>> {
        self.consumer.consumer_messages()
    }

    closed spec fn consumer_events(&self) -> Seq<ConsumerEvent> {
        self.consumer.consumer_events()
    }

    closed spec fn consumer_events_taken(&self) -> bool {
        self.consumer.consumer_events_taken()
    }

    fn write(&mut self, data: A)
        ensures
            final(self).producer_half() == old(self).producer_half(),
            final(self).consumer_half().transform() == old(self).consumer_half().transform(),
            final(self).consumer_half().ended() == old(self).consumer_half().ended(),
    {
        self.consumer.write(data);
    }

    fn end(&mut self)
        ensures
            final(self).producer_half() == old(self).producer_half(),
            final(self).consumer_half().transform() == old(self).consumer_half().transform(),
            final(self).consumer_half().ended() == old(self).consumer_half().ended(),
    {
        self.consumer.end();
    }

    fn event_stream(&mut self) -> (r: Option<ConsumerEventRx>) {
        self.consumer.event_stream()
    }

    fn next_event(&mut self, rx: &ConsumerEventRx) -> (r: Option<ConsumerEvent>) {
        self.consumer.next_event(rx)
    }
}

impl<A, B, F: Fn(A) -> B> Producer<B> for MapConduit<A, B, F> {
    closed spec fn producer_messages(&self) -> Seq<ProducerMessage> {
        self.producer.producer_messages()
    }

    closed spec fn producer_events(&self) -> Seq<ProducerEvent<B>> {
        self.producer.producer_events()
    }

    closed spec fn producer_events_taken(&self) -> bool {
        self.producer.producer_events_taken()
    }

    /// Enqueue a demand grant on the producer half; the next turn
    /// forwards it upstream.
    fn request(&mut self, num_items: usize)
        ensures
            final(self).consumer_half() == old(self).consumer_half(),
    {
        self.producer.request(num_items);
    }

    fn event_stream(&mut self) -> (r: Option<ProducerEventRx>) {
        self.producer.event_stream()
    }

    fn next_event(&mut self, rx: &ProducerEventRx) -> (r: Option<ProducerEvent<B>>) {
        self.producer.next_event(rx)
    }

    /// One processing turn of the whole conduit: `conduit_step` over
    /// its two halves.
    fn poll(&mut self)
        ensures
            final(self).consumer_half().transform() == old(self).consumer_half().transform(),
            final(self).consumer_events_taken() == old(self).consumer_events_taken(),
            final(self).producer_events_taken() == old(self).producer_events_taken(),
            old(self).consumer_half().ended() ==> *final(self) == *old(self),
            !old(self).consumer_half().ended() ==> {
                &&& final(self).producer_messages().len() == 0
                &&& final(self).consumer_events() == old(self).consumer_events() + forward_out(
                    old(self).producer_messages(),
                )
                &&& final(self).consumer_messages() == write_rest(old(self).consumer_messages())
                &&& final(self).consumer_half().ended() == has_end(old(self).consumer_messages())
                &&& old(self).producer_events().is_prefix_of(final(self).producer_events())
                &&& final(self).producer_events().len() == old(self).producer_events().len()
                    + write_prefix(old(self).consumer_messages()).len()
                &&& maps_batch(
                    old(self).consumer_half().transform(),
                    write_prefix(old(self).consumer_messages()),
                    final(self).producer_events().skip(old(self).producer_events().len() as int),
                )
            },
    {
        conduit_step(&mut self.consumer, &mut self.producer);
    }
}

impl<A, B, F: Fn(A) -> B> Conduit<A, B> for MapConduit<A, B, F> {
    type ConcreteConsumer = MapConsumer<A, F>;

    type ConcreteProducer = MapProducer<B>;

    /// Hand the two halves to their owners; each keeps its state.
    fn split(self) -> (parts: (MapConsumer<A, F>, MapProducer<B>))
        ensures
            parts.0 == self.consumer_half(),
            parts.1 == self.producer_half(),
    {
        (self.consumer, self.producer)
    }
}

/// Whether a pushed message introduces an `End`.
proof fn lemma_has_end_push<A>(s: Seq<ConsumerMessage<A>>, m: ConsumerMessage<A>)
    requires
        !has_end(s),
        !(m is End),
    ensures
        !has_end(s.push(m)),
    decreases s.len(),
{
    if s.len() == 0 {
        assert(s.push(m).drop_first() =~= s);
    } else {
        assert(s.push(m).drop_first() =~= s.drop_first().push(m));
        lemma_has_end_push(s.drop_first(), m);
    }
}

} // verus!
