//! A bounded numeric producer: emits the integers from `start` up to
//! (and excluding) `stop`, one per unit of granted demand, then `End`.
//! With no `stop` it runs until its item type is exhausted. It is the
//! simplest complete instance of the demand protocol, and the reference
//! for its accounting: the number of `Data` events it has emitted never
//! exceeds the total demand ever requested.
use vstd::prelude::*;

use crate::CancelReason;
use crate::Queue;
use crate::Streamer;
use crate::producer::Producer;
use crate::producer::ProducerEvent;
use crate::producer::ProducerEventRx;
use crate::producer::ProducerMessage;
use crate::producer::count_data;
use crate::producer::lemma_count_data_add;
use crate::producer::lemma_count_data_one;
use crate::producer::lemma_sum_requests_push;
use crate::producer::sum_requests;

verus! {

/// What one processing turn of a range producer does: the events it
/// emits and the state it leaves behind.
pub struct RangeOutcome {
    pub events: Seq<ProducerEvent<i64>>,
    pub current: i64,
    pub demand: u64,
    pub done: bool,
}

/// Demand accumulation: adding a grant to the outstanding demand
/// counter, saturating at the counter's width.
pub open spec fn sat_add(demand: u64, n: usize) -> u64 {
    if demand + n > u64::MAX {
        u64::MAX
    } else {
        (demand + n) as u64
    }
}

/// The events emitted, and the state reached, when a range producer at
/// `current` with bound `stop` drains `demand` units: one `Data` per
/// unit until the bound (or the item type's last value) is reached,
/// then `End`.
pub open spec fn emit_out(current: i64, stop: Option<i64>, demand: u64) -> RangeOutcome
    decreases demand,
{
    if stop == Some(current) {
        RangeOutcome { events: seq![ProducerEvent::End], current, demand: 0, done: true }
    } else if demand == 0 {
        RangeOutcome { events: Seq::empty(), current, demand: 0, done: false }
    } else if current == i64::MAX {
        RangeOutcome {
            events: seq![ProducerEvent::Data(current), ProducerEvent::End],
            current,
            demand: 0,
            done: true,
        }
    } else {
        let rest = emit_out((current + 1) as i64, stop, (demand - 1) as u64);
        RangeOutcome {
            events: seq![ProducerEvent::Data(current)] + rest.events,
            current: rest.current,
            demand: rest.demand,
            done: rest.done,
        }
    }
}

/// What one control message does to a range producer's state. A
/// finished producer ignores every further message.
pub open spec fn apply_message_out(
    current: i64,
    stop: Option<i64>,
    demand: u64,
    done: bool,
    m: ProducerMessage,
) -> RangeOutcome {
    if done {
        RangeOutcome { events: Seq::empty(), current, demand, done }
    } else {
        match m {
            ProducerMessage::Request(n) => emit_out(current, stop, sat_add(demand, n)),
            ProducerMessage::Cancel(_) => RangeOutcome {
                events: Seq::empty(),
                current,
                demand: 0,
                done: true,
            },
        }
    }
}

/// What one whole processing turn does: the pending control messages
/// applied in order, oldest first.
pub open spec fn process_out(
    current: i64,
    stop: Option<i64>,
    demand: u64,
    done: bool,
    msgs: Seq<ProducerMessage>,
) -> RangeOutcome
    decreases msgs.len(),
{
    if msgs.len() == 0 {
        RangeOutcome { events: Seq::empty(), current, demand, done }
    } else {
        let first = apply_message_out(current, stop, demand, done, msgs[0]);
        let rest = process_out(first.current, stop, first.demand, first.done, msgs.drop_first());
        RangeOutcome {
            events: first.events + rest.events,
            current: rest.current,
            demand: rest.demand,
            done: rest.done,
        }
    }
}

/// A producer of consecutive `i64` values, driven purely by demand.
pub struct RangeProducer {
    messages: Queue<ProducerMessage>,
    events: Queue<ProducerEvent<i64>>,
    events_taken: bool,
    demand: u64,
    current: i64,
    stop: Option<i64>,
    done: bool,
    granted: Ghost<nat>,
}

/// Builds a `RangeProducer` from an optional start (default 0) and an
/// optional exclusive stop bound (default none: unbounded).
pub struct RangeProducerBuilder {
    pub start: i64,
    pub stop: Option<i64>,
}

impl RangeProducerBuilder {
    pub fn new() -> (b: RangeProducerBuilder)
        ensures
            b.start == 0,
            b.stop is None,
    {
        RangeProducerBuilder { start: 0, stop: None }
    }

    pub fn start(self, value: i64) -> (b: RangeProducerBuilder)
        ensures
            b.start == value,
            b.stop == self.stop,
    {
        RangeProducerBuilder { start: value, ..self }
    }

    pub fn stop(self, value: i64) -> (b: RangeProducerBuilder)
        ensures
            b.start == self.start,
            b.stop == Some(value),
    {
        RangeProducerBuilder { stop: Some(value), ..self }
    }

    pub fn build(self) -> (p: RangeProducer)
        ensures
            p.inv(),
            p.current_value() == self.start,
            p.stop_value() == self.stop,
            p.demand() == 0,
            !p.is_done(),
            p.events_history() == Seq::<ProducerEvent<i64>>::empty(),
            p.producer_messages() == Seq::<ProducerMessage>::empty(),
            !p.producer_events_taken(),
            p.requested_total() == 0,
    {
        RangeProducer::new(self.start, self.stop)
    }
}

impl RangeProducer {
    /// Every event ever emitted, oldest first.
    pub closed spec fn events_history(&self) -> Seq<ProducerEvent<i64>> {
        self.events.history()
    }

    /// The total demand ever requested, over all `request` calls.
    pub closed spec fn requested_total(&self) -> nat {
        self.granted@
    }

    /// How many `Data` events have ever been emitted.
    pub open spec fn data_emitted(&self) -> nat {
        count_data(self.events_history())
    }

    /// The next value to emit.
    pub closed spec fn current_value(&self) -> i64 {
        self.current
    }

    /// The exclusive stop bound, if any.
    pub closed spec fn stop_value(&self) -> Option<i64> {
        self.stop
    }

    /// Outstanding demand: granted and processed but not yet spent.
    pub closed spec fn demand(&self) -> u64 {
        self.demand
    }

    /// Whether the producer has terminated (emitted `End`, reached its
    /// bound, or been cancelled); a finished producer emits nothing more.
    pub closed spec fn is_done(&self) -> bool {
        self.done
    }

    pub fn new(start: i64, stop: Option<i64>) -> (p: RangeProducer)
        ensures
            p.inv(),
            p.current_value() == start,
            p.stop_value() == stop,
            p.demand() == 0,
            !p.is_done(),
            p.events_history() == Seq::<ProducerEvent<i64>>::empty(),
            p.producer_messages() == Seq::<ProducerMessage>::empty(),
            !p.producer_events_taken(),
            p.requested_total() == 0,
    {
        RangeProducer {
            messages: Queue::new(),
            events: Queue::new(),
            events_taken: false,
            demand: 0,
            current: start,
            stop,
            done: false,
            granted: Ghost(0),
        }
    }

    /// Drain the outstanding demand: emit one `Data` per unit until the
    /// bound is reached, then `End`.
    fn drain_demand(&mut self)
        requires
            old(self).inv(),
            !old(self).is_done(),
        ensures
            final(self).inv(),
            final(self).events_history() == old(self).events_history() + emit_out(
                old(self).current_value(),
                old(self).stop_value(),
                old(self).demand(),
            ).events,
            final(self).producer_events() == old(self).producer_events() + emit_out(
                old(self).current_value(),
                old(self).stop_value(),
                old(self).demand(),
            ).events,
            final(self).current_value() == emit_out(
                old(self).current_value(),
                old(self).stop_value(),
                old(self).demand(),
            ).current,
            final(self).demand() == emit_out(
                old(self).current_value(),
                old(self).stop_value(),
                old(self).demand(),
            ).demand,
            final(self).is_done() == emit_out(
                old(self).current_value(),
                old(self).stop_value(),
                old(self).demand(),
            ).done,
            final(self).stop_value() == old(self).stop_value(),
            final(self).producer_messages() == old(self).producer_messages(),
            final(self).producer_events_taken() == old(self).producer_events_taken(),
            final(self).requested_total() == old(self).requested_total(),
    {
        let ghost st0 = *self;
        let ghost c0 = self.current;
        let ghost d0 = self.demand;
        let ghost h0 = self.events.history();
        loop
            invariant_except_break
                self.inv(),
                !self.done,
                self.stop == st0.stop,
                self.messages == st0.messages,
                self.events_taken == st0.events_taken,
                self.granted == st0.granted,
                h0.is_prefix_of(self.events.history()),
                self.events.read_count() == st0.events.read_count(),
                emit_out(c0, st0.stop, d0).events == self.events.history().skip(h0.len() as int)
                    + emit_out(self.current, self.stop, self.demand).events,
                emit_out(c0, st0.stop, d0).current == emit_out(
                    self.current,
                    self.stop,
                    self.demand,
                ).current,
                emit_out(c0, st0.stop, d0).demand == emit_out(
                    self.current,
                    self.stop,
                    self.demand,
                ).demand,
                emit_out(c0, st0.stop, d0).done == emit_out(
                    self.current,
                    self.stop,
                    self.demand,
                ).done,
            ensures
                self.inv(),
                self.stop == st0.stop,
                self.messages == st0.messages,
                self.events_taken == st0.events_taken,
                self.granted == st0.granted,
                self.events.read_count() == st0.events.read_count(),
                self.events.history() == h0 + emit_out(c0, st0.stop, d0).events,
                self.current == emit_out(c0, st0.stop, d0).current,
                self.demand == emit_out(c0, st0.stop, d0).demand,
                self.done == emit_out(c0, st0.stop, d0).done,
            decreases self.demand,
        {
            let ghost pre = *self;
            let at_stop = match self.stop {
                Some(s) => s == self.current,
                None => false,
            };
            if at_stop {
                self.events.push(ProducerEvent::End);
                self.done = true;
                self.demand = 0;
                proof {
                    lemma_count_data_add(pre.events.history(), seq![ProducerEvent::End]);
                    lemma_count_data_one(ProducerEvent::<i64>::End);
                    assert(self.events.history() =~= pre.events.history() + seq![
                        ProducerEvent::<i64>::End,
                    ]);
                    assert(self.events.history() =~= h0 + (pre.events.history().skip(
                        h0.len() as int,
                    ) + seq![ProducerEvent::<i64>::End]));
                }
                break ;
            }
            if self.demand == 0 {
                proof {
                    assert(self.events.history() =~= h0 + (self.events.history().skip(
                        h0.len() as int,
                    ) + Seq::<ProducerEvent<i64>>::empty()));
                }
                break ;
            }
            if self.current == i64::MAX {
                self.events.push(ProducerEvent::Data(i64::MAX));
                self.events.push(ProducerEvent::End);
                self.done = true;
                self.demand = 0;
                proof {
                    lemma_count_data_add(
                        pre.events.history(),
                        seq![ProducerEvent::Data(i64::MAX), ProducerEvent::End],
                    );
                    lemma_count_data_add(
                        seq![ProducerEvent::Data(i64::MAX)],
                        seq![ProducerEvent::<i64>::End],
                    );
                    lemma_count_data_one(ProducerEvent::Data(i64::MAX));
                    lemma_count_data_one(ProducerEvent::<i64>::End);
                    assert(seq![ProducerEvent::Data(i64::MAX), ProducerEvent::<i64>::End] =~= seq![
                        ProducerEvent::Data(i64::MAX),
                    ] + seq![ProducerEvent::<i64>::End]);
                    assert(self.events.history() =~= pre.events.history() + seq![
                        ProducerEvent::Data(i64::MAX),
                        ProducerEvent::End,
                    ]);
                    assert(count_data(self.events.history()) == count_data(pre.events.history())
                        + 1);
                    assert(self.events.history() =~= h0 + (pre.events.history().skip(
                        h0.len() as int,
                    ) + seq![ProducerEvent::Data(i64::MAX), ProducerEvent::<i64>::End]));
                }
                break ;
            }
            let value = self.current;
            self.events.push(ProducerEvent::Data(value));
            self.current = self.current + 1;
            self.demand = self.demand - 1;
            proof {
                lemma_count_data_add(pre.events.history(), seq![ProducerEvent::Data(value)]);
                lemma_count_data_one(ProducerEvent::Data(value));
                assert(self.events.history() =~= pre.events.history() + seq![
                    ProducerEvent::Data(value),
                ]);
                assert(self.events.history().skip(h0.len() as int) =~= pre.events.history().skip(
                    h0.len() as int,
                ) + seq![ProducerEvent::Data(value)]);
                let tail = emit_out(self.current, self.stop, self.demand);
                assert(emit_out(pre.current, pre.stop, pre.demand).events == seq![
                    ProducerEvent::Data(value),
                ] + tail.events);
                assert(pre.events.history().skip(h0.len() as int) + (seq![
                    ProducerEvent::Data(value),
                ] + tail.events) =~= self.events.history().skip(h0.len() as int) + tail.events);
            }
        }
        proof {
            self.events.lemma_pending_suffix();
            st0.events.lemma_pending_suffix();
            let rc = st0.events.read_count();
            assert(st0.events.pending() == h0.skip(rc));
            assert(self.events.pending() == (h0 + emit_out(c0, st0.stop, d0).events).skip(rc));
            assert(0 <= rc <= h0.len());
            assert(self.events.pending() =~= st0.events.pending() + emit_out(
                c0,
                st0.stop,
                d0,
            ).events);
        }
    }

    /// Apply one control message: a request drains fresh demand, a
    /// cancellation terminates the producer; a finished producer
    /// ignores both.
    fn apply_message(&mut self, m: ProducerMessage)
        requires
            old(self).inv(),
            count_data(old(self).events_history()) + old(self).demand() + (match m {
                ProducerMessage::Request(n) => n as nat,
                ProducerMessage::Cancel(_) => 0nat,
            }) <= old(self).requested_total() - sum_requests(old(self).producer_messages()),
        ensures
            final(self).inv(),
            final(self).events_history() == old(self).events_history() + apply_message_out(
                old(self).current_value(),
                old(self).stop_value(),
                old(self).demand(),
                old(self).is_done(),
                m,
            ).events,
            final(self).producer_events() == old(self).producer_events() + apply_message_out(
                old(self).current_value(),
                old(self).stop_value(),
                old(self).demand(),
                old(self).is_done(),
                m,
            ).events,
            final(self).current_value() == apply_message_out(
                old(self).current_value(),
                old(self).stop_value(),
                old(self).demand(),
                old(self).is_done(),
                m,
            ).current,
            final(self).demand() == apply_message_out(
                old(self).current_value(),
                old(self).stop_value(),
                old(self).demand(),
                old(self).is_done(),
                m,
            ).demand,
            final(self).is_done() == apply_message_out(
                old(self).current_value(),
                old(self).stop_value(),
                old(self).demand(),
                old(self).is_done(),
                m,
            ).done,
            final(self).stop_value() == old(self).stop_value(),
            final(self).producer_messages() == old(self).producer_messages(),
            final(self).producer_events_taken() == old(self).producer_events_taken(),
            final(self).requested_total() == old(self).requested_total(),
    {
        proof {
            assert(self.events.pending() + Seq::<ProducerEvent<i64>>::empty() =~= self.events
                .pending());
            assert(self.events.history() + Seq::<ProducerEvent<i64>>::empty() =~= self.events
                .history());
        }
        if self.done {
            return ;
        }
        match m {
            ProducerMessage::Cancel(_) => {
                self.demand = 0;
                self.done = true;
            },
            ProducerMessage::Request(n) => {
                let n64 = n as u64;
                if u64::MAX - self.demand < n64 {
                    self.demand = u64::MAX;
                } else {
                    self.demand = self.demand + n64;
                }
                self.drain_demand();
            },
        }
    }

    /// The well-formedness of a range producer, and the demand
    /// protocol's accounting: the data emitted plus the outstanding
    /// demand never exceeds the demand requested and already processed.
    pub closed spec fn inv_spec(&self) -> bool {
        &&& self.messages.wf()
        &&& self.events.wf()
        &&& sum_requests(self.messages.pending()) <= self.granted@
        &&& count_data(self.events.history()) + self.demand <= self.granted@ - sum_requests(
            self.messages.pending(),
        )
        &&& self.done ==> self.demand == 0
    }
}

impl Streamer for RangeProducer {
    closed spec fn inv(&self) -> bool {
        self.inv_spec()
    }

    /// Enqueue a cancellation; the next processing turn ceases emission.
    fn cancel(&mut self, reason: CancelReason)
        ensures
            final(self).producer_messages() == old(self).producer_messages().push(
                ProducerMessage::Cancel(reason),
            ),
            final(self).events_history() == old(self).events_history(),
            final(self).producer_events() == old(self).producer_events(),
            final(self).producer_events_taken() == old(self).producer_events_taken(),
            final(self).requested_total() == old(self).requested_total(),
    {
        proof {
            lemma_sum_requests_push(self.messages.pending(), ProducerMessage::Cancel(reason));
        }
        self.messages.push(ProducerMessage::Cancel(reason));
    }
}

impl Producer<i64> for RangeProducer {
    closed spec fn producer_messages(&self) -> Seq<ProducerMessage> {
        self.messages.pending()
    }

    closed spec fn producer_events(&self) -> Seq<ProducerEvent<i64>> {
        self.events.pending()
    }

    closed spec fn producer_events_taken(&self) -> bool {
        self.events_taken
    }

    /// Enqueue a demand grant; the next processing turn spends it.
    /// Every call adds its full count to `requested_total`.
    fn request(&mut self, num_items: usize)
        ensures
            final(self).requested_total() == old(self).requested_total() + num_items,
            final(self).events_history() == old(self).events_history(),
            final(self).current_value() == old(self).current_value(),
            final(self).stop_value() == old(self).stop_value(),
            final(self).demand() == old(self).demand(),
            final(self).is_done() == old(self).is_done(),
    {
        proof {
            lemma_sum_requests_push(self.messages.pending(), ProducerMessage::Request(num_items));
        }
        self.messages.push(ProducerMessage::Request(num_items));
        self.granted = Ghost((self.granted@ + num_items) as nat);
    }

    fn event_stream(&mut self) -> (r: Option<ProducerEventRx>)
        ensures
            final(self).events_history() == old(self).events_history(),
            final(self).requested_total() == old(self).requested_total(),
    {
        if self.events_taken {
            None
        } else {
            self.events_taken = true;
            Some(ProducerEventRx::grant())
        }
    }

    fn next_event(&mut self, rx: &ProducerEventRx) -> (r: Option<ProducerEvent<i64>>)
        ensures
            final(self).events_history() == old(self).events_history(),
            final(self).requested_total() == old(self).requested_total(),
    {
        self.events.pop()
    }

    /// One processing turn: drain all pending control messages, in
    /// order, emitting exactly what `process_out` names.
    fn poll(&mut self)
        ensures
            final(self).producer_messages().len() == 0,
            final(self).events_history() == old(self).events_history() + process_out(
                old(self).current_value(),
                old(self).stop_value(),
                old(self).demand(),
                old(self).is_done(),
                old(self).producer_messages(),
            ).events,
            final(self).producer_events() == old(self).producer_events() + process_out(
                old(self).current_value(),
                old(self).stop_value(),
                old(self).demand(),
                old(self).is_done(),
                old(self).producer_messages(),
            ).events,
            final(self).current_value() == process_out(
                old(self).current_value(),
                old(self).stop_value(),
                old(self).demand(),
                old(self).is_done(),
                old(self).producer_messages(),
            ).current,
            final(self).demand() == process_out(
                old(self).current_value(),
                old(self).stop_value(),
                old(self).demand(),
                old(self).is_done(),
                old(self).producer_messages(),
            ).demand,
            final(self).is_done() == process_out(
                old(self).current_value(),
                old(self).stop_value(),
                old(self).demand(),
                old(self).is_done(),
                old(self).producer_messages(),
            ).done,
            final(self).stop_value() == old(self).stop_value(),
            final(self).producer_events_taken() == old(self).producer_events_taken(),
            final(self).requested_total() == old(self).requested_total(),
    {
        let ghost st0 = *self;
        let ghost h0 = self.events.history();
        let ghost pend0 = self.events.pending();
        loop
            invariant_except_break
                self.inv(),
                self.stop == st0.stop,
                self.events_taken == st0.events_taken,
                self.granted == st0.granted,
                h0.is_prefix_of(self.events.history()),
                self.events.pending() == pend0 + self.events.history().skip(h0.len() as int),
                process_out(st0.current, st0.stop, st0.demand, st0.done, st0.messages.pending())
                    == (RangeOutcome {
                    events: self.events.history().skip(h0.len() as int) + process_out(
                        self.current,
                        self.stop,
                        self.demand,
                        self.done,
                        self.messages.pending(),
                    ).events,
                    current: process_out(
                        self.current,
                        self.stop,
                        self.demand,
                        self.done,
                        self.messages.pending(),
                    ).current,
                    demand: process_out(
                        self.current,
                        self.stop,
                        self.demand,
                        self.done,
                        self.messages.pending(),
                    ).demand,
                    done: process_out(
                        self.current,
                        self.stop,
                        self.demand,
                        self.done,
                        self.messages.pending(),
                    ).done,
                }),
            ensures
                self.inv(),
                self.stop == st0.stop,
                self.events_taken == st0.events_taken,
                self.granted == st0.granted,
                self.messages.pending().len() == 0,
                self.events.history() == h0 + process_out(
                    st0.current,
                    st0.stop,
                    st0.demand,
                    st0.done,
                    st0.messages.pending(),
                ).events,
                self.events.pending() == pend0 + process_out(
                    st0.current,
                    st0.stop,
                    st0.demand,
                    st0.done,
                    st0.messages.pending(),
                ).events,
                self.current == process_out(
                    st0.current,
                    st0.stop,
                    st0.demand,
                    st0.done,
                    st0.messages.pending(),
                ).current,
                self.demand == process_out(
                    st0.current,
                    st0.stop,
                    st0.demand,
                    st0.done,
                    st0.messages.pending(),
                ).demand,
                self.done == process_out(
                    st0.current,
                    st0.stop,
                    st0.demand,
                    st0.done,
                    st0.messages.pending(),
                ).done,
            decreases self.messages.pending().len(),
        {
            let ghost pre = *self;
            let m = match self.messages.pop() {
                None => {
                    proof {
                        assert(self.events.history() =~= h0 + self.events.history().skip(
                            h0.len() as int,
                        ));
                        assert(self.events.history().skip(h0.len() as int) + Seq::<
                            ProducerEvent<i64>,
                        >::empty() =~= self.events.history().skip(h0.len() as int));
                    }
                    break ;
                },
                Some(m) => m,
            };
            proof {
                assert(sum_requests(pre.messages.pending()) == (match m {
                    ProducerMessage::Request(n) => n as nat,
                    ProducerMessage::Cancel(_) => 0nat,
                }) + sum_requests(self.messages.pending()));
            }
            self.apply_message(m);
            proof {
                let a = self.events.history().skip(h0.len() as int);
                let b = pre.events.history().skip(h0.len() as int);
                let step = apply_message_out(pre.current, pre.stop, pre.demand, pre.done, m);
                assert(a =~= b + step.events);
                let rest = process_out(
                    self.current,
                    self.stop,
                    self.demand,
                    self.done,
                    self.messages.pending(),
                );
                assert(b + (step.events + rest.events) =~= a + rest.events);
                assert(self.events.pending() =~= pend0 + a);
            }
        }
    }
}

/// Law: a finished producer emits nothing further. Whatever messages
/// reach a producer that has already terminated — further requests
/// included — its processing turn emits no event at all.
pub proof fn lemma_finished_producer_stays_silent(
    current: i64,
    stop: Option<i64>,
    demand: u64,
    msgs: Seq<ProducerMessage>,
)
    ensures
        process_out(current, stop, demand, true, msgs).events == Seq::<
            ProducerEvent<i64>,
        >::empty(),
        process_out(current, stop, demand, true, msgs).done,
    decreases msgs.len(),
{
    if msgs.len() > 0 {
        lemma_finished_producer_stays_silent(current, stop, demand, msgs.drop_first());
        assert(Seq::<ProducerEvent<i64>>::empty() + process_out(
            current,
            stop,
            demand,
            true,
            msgs.drop_first(),
        ).events =~= Seq::<ProducerEvent<i64>>::empty());
    }
}

/// Law: the demand invariant. However requests and processing turns
/// interleave, a well-formed producer has never emitted more `Data`
/// events than the total demand ever requested of it.
pub proof fn lemma_demand_invariant(p: &RangeProducer)
    requires
        p.inv(),
    ensures
        p.data_emitted() <= p.requested_total(),
{
}

} // verus!
