//! The multiplexer: owns one transport's message stream and fans it out
//! into many logical, independently flow-controlled byte streams. Each
//! inbound frame is decoded and dispatched to the per-stream receiver it
//! names; per-stream demand and cancellation flow back out as frames.
//! Stream ids are multiplexer-assigned, monotonic, never reused, and
//! exhausted — fatally — after 255 allocations. Per-stream faults stay
//! with their stream; decode faults and id exhaustion end the session.
use vstd::prelude::*;

use crate::CancelReason;
use crate::Queue;
use crate::producer::ProducerEvent;
use crate::producer::ProducerMessage;
use crate::transport::TransportEvent;
use crate::wire::DecodeError;
use crate::wire::WireForm;
use crate::wire::spec_decode;
use crate::wire::spec_encode;

verus! {

/// A fault of the multiplexer session.
#[derive(Clone, Copy, Debug, PartialEq, Eq, Structural)]
pub enum MuxError {
    /// An inbound frame was shorter than its message type allows.
    Malformed,
    /// An inbound frame's first byte names no message type.
    InvalidMessageType,
    /// An inbound frame addressed a stream id that is not open: the
    /// peer and this side have lost protocol agreement.
    UnknownStreamId,
    /// All 255 stream ids have been allocated; no new stream can open.
    StreamIdsExhausted,
}

/// Where a multiplexer session stands.
#[derive(Clone, Copy, Debug, PartialEq, Eq, Structural)]
pub enum MuxState {
    /// The transport is open.
    Active,
    /// The transport has ended but receivers remain open.
    Draining,
    /// The transport has ended and no receiver remains: terminal.
    Closed,
}

/// The application's handle to one multiplexer-created inbound stream:
/// it grants demand and cancels through the multiplexer that owns the
/// stream's bookkeeping.
pub struct ReceiverProducer {
    stream_id: u8,
}

/// The receiving end of one stream's event channel, handed out at most
/// once per stream.
pub struct ReceiverEventRx {
    stream_id: u8,
}

/// The receiving end of the multiplexer's own event channel.
pub struct MultiplexerEventRx {
    _held: (),
}

/// An event the multiplexer surfaces to the application.
pub enum MultiplexerEvent {
    /// The peer opened a new inbound stream: the handle to drain it,
    /// and the opaque creation payload that accompanied it.
    Conduit(ReceiverProducer, Vec<u8>),
    /// Session-scoped bytes tied to no stream.
    ControlMessage(Vec<u8>),
}

/// The mathematical form of a multiplexer event.
pub enum MuxEventView {
    Conduit(u8, Seq<u8>),
    ControlMessage(Seq<u8>),
}

/// One stream's dispatch-facing state: whether it is still registered,
/// and every event ever pushed to it.
#[verifier::ext_equal]
pub struct SlotView {
    pub open: bool,
    pub events: Seq<ProducerEvent<Seq<u8>>>,
}

/// The dispatch-facing state of a whole multiplexer.
#[verifier::ext_equal]
pub struct MuxView {
    pub slots: Seq<SlotView>,
    pub events: Seq<MuxEventView>,
    pub transport_done: bool,
    pub fault: Option<MuxError>,
}

/// A stream event over byte sequences instead of byte vectors.
pub open spec fn event_view(e: ProducerEvent<Vec<u8>>) -> ProducerEvent<Seq<u8>> {
    match e {
        ProducerEvent::Data(v) => ProducerEvent::Data(v@),
        ProducerEvent::End => ProducerEvent::End,
    }
}

/// A whole event sequence over byte sequences.
pub open spec fn events_view(s: Seq<ProducerEvent<Vec<u8>>>) -> Seq<ProducerEvent<Seq<u8>>> {
    s.map_values(|e: ProducerEvent<Vec<u8>>| event_view(e))
}

/// A multiplexer event in its mathematical form.
pub open spec fn mux_event_view(e: MultiplexerEvent) -> MuxEventView {
    match e {
        MultiplexerEvent::Conduit(rp, payload) => MuxEventView::Conduit(
            rp.id() as u8,
            payload@,
        ),
        MultiplexerEvent::ControlMessage(payload) => MuxEventView::ControlMessage(payload@),
    }
}

/// A whole multiplexer event sequence in mathematical form.
pub open spec fn mux_events_view(s: Seq<MultiplexerEvent>) -> Seq<MuxEventView> {
    s.map_values(|e: MultiplexerEvent| mux_event_view(e))
}

/// Byte vectors as byte sequences.
pub open spec fn bytes_view(s: Seq<Vec<u8>>) -> Seq<Seq<u8>> {
    s.map_values(|v: Vec<u8>| v@)
}

/// The session fault a decode fault becomes.
pub open spec fn fault_of(e: DecodeError) -> MuxError {
    match e {
        DecodeError::Truncated => MuxError::Malformed,
        DecodeError::InvalidType => MuxError::InvalidMessageType,
    }
}

/// The stream a decoded frame addresses, if any. A `CreateReceiver`
/// addresses none: its id is assigned by this side, never the peer's.
pub open spec fn dispatch_target(form: WireForm) -> Option<int> {
    match form {
        WireForm::CreateReceiver { stream_id, payload } => None,
        WireForm::StreamData { stream_id, payload } => Some(stream_id as int),
        WireForm::StreamEnd { stream_id } => Some(stream_id as int),
        WireForm::CancelSender { stream_id } => Some(stream_id as int),
        WireForm::StreamRequestData { stream_id, count } => None,
        WireForm::ControlMessage { payload } => None,
    }
}

/// What dispatching one inbound frame does to a multiplexer.
///
/// A frame that fails to decode faults the session. `CreateReceiver`
/// allocates the next stream id — ignoring any id in the frame — and
/// surfaces the new stream with its creation payload; the 256th
/// allocation faults the session. `StreamData` and `StreamEnd` must name
/// an open stream, else the session is faulted; data is appended to that
/// stream's events, and end closes the stream after its final event.
/// `CancelSender` silently unregisters the stream it names, if open.
/// `StreamRequestData` is outbound-only and ignored inbound, since this
/// multiplexer owns no sending streams. `ControlMessage` is surfaced
/// whole, touching no stream.
pub open spec fn dispatch_out(v: MuxView, bytes: Seq<u8>) -> MuxView {
    match spec_decode(bytes) {
        Err(e) => MuxView { fault: Some(fault_of(e)), ..v },
        Ok(form) => match form {
            WireForm::CreateReceiver { stream_id: _, payload } => {
                if v.slots.len() >= 255 {
                    MuxView { fault: Some(MuxError::StreamIdsExhausted), ..v }
                } else {
                    MuxView {
                        slots: v.slots.push(SlotView { open: true, events: Seq::empty() }),
                        events: v.events.push(
                            MuxEventView::Conduit(v.slots.len() as u8, payload),
                        ),
                        ..v
                    }
                }
            },
            WireForm::StreamData { stream_id, payload } => {
                let id = stream_id as int;
                if 0 <= id < v.slots.len() && v.slots[id].open {
                    MuxView {
                        slots: v.slots.update(
                            id,
                            SlotView {
                                open: true,
                                events: v.slots[id].events.push(ProducerEvent::Data(payload)),
                            },
                        ),
                        ..v
                    }
                } else {
                    MuxView { fault: Some(MuxError::UnknownStreamId), ..v }
                }
            },
            WireForm::StreamEnd { stream_id } => {
                let id = stream_id as int;
                if 0 <= id < v.slots.len() && v.slots[id].open {
                    MuxView {
                        slots: v.slots.update(
                            id,
                            SlotView {
                                open: false,
                                events: v.slots[id].events.push(ProducerEvent::End),
                            },
                        ),
                        ..v
                    }
                } else {
                    MuxView { fault: Some(MuxError::UnknownStreamId), ..v }
                }
            },
            WireForm::CancelSender { stream_id } => {
                let id = stream_id as int;
                if 0 <= id < v.slots.len() && v.slots[id].open {
                    MuxView {
                        slots: v.slots.update(
                            id,
                            SlotView { open: false, events: v.slots[id].events },
                        ),
                        ..v
                    }
                } else {
                    v
                }
            },
            WireForm::StreamRequestData { stream_id, count } => v,
            WireForm::ControlMessage { payload } => MuxView {
                events: v.events.push(MuxEventView::ControlMessage(payload)),
                ..v
            },
        },
    }
}

/// One stream's outbound-facing state: whether it is registered, and
/// its unprocessed demand and cancellation messages.
#[verifier::ext_equal]
pub struct SlotMsgView {
    pub open: bool,
    pub msgs: Seq<ProducerMessage>,
}

/// The frames that carry a demand grant of `n` onto the wire: the count
/// field is one byte, so larger grants go as as many frames as needed,
/// whose counts sum to exactly `n`.
pub open spec fn request_chunks(id: u8, n: nat) -> Seq<Seq<u8>>
    decreases n,
{
    if n <= 255 {
        seq![spec_encode(WireForm::StreamRequestData { stream_id: id, count: n as u8 })]
    } else {
        seq![spec_encode(WireForm::StreamRequestData { stream_id: id, count: 255 })]
            + request_chunks(id, (n - 255) as nat)
    }
}

/// The demand a sequence of demand frames carries in total: the sum of
/// their one-byte count fields.
pub open spec fn sum_chunk_counts(frames: Seq<Seq<u8>>) -> nat
    decreases frames.len(),
{
    if frames.len() == 0 {
        0
    } else {
        (if frames[0].len() >= 3 {
            frames[0][2] as nat
        } else {
            0
        }) + sum_chunk_counts(frames.drop_first())
    }
}

/// Law: demand is conserved onto the wire. The frames that carry a
/// grant of `n` for stream `id` all name that stream and the demand
/// message type, and their counts sum to exactly `n`: chunking loses
/// and invents no credit.
pub proof fn lemma_request_chunks_conserve(id: u8, n: nat)
    ensures
        sum_chunk_counts(request_chunks(id, n)) == n,
        forall|k: int|
            0 <= k < request_chunks(id, n).len() ==> (#[trigger] request_chunks(id, n)[k]).len()
                == 3 && request_chunks(id, n)[k][0] == 4 && request_chunks(id, n)[k][1] == id,
    decreases n,
{
    reveal_with_fuel(sum_chunk_counts, 3);
    if n <= 255 {
        let frames = request_chunks(id, n);
        assert(frames[0] == spec_encode(
            WireForm::StreamRequestData { stream_id: id, count: n as u8 },
        ));
        assert(frames.drop_first() =~= Seq::<Seq<u8>>::empty());
    } else {
        lemma_request_chunks_conserve(id, (n - 255) as nat);
        let frames = request_chunks(id, n);
        let rest = request_chunks(id, (n - 255) as nat);
        assert(frames.drop_first() =~= rest);
        assert(frames[0] == spec_encode(
            WireForm::StreamRequestData { stream_id: id, count: 255 },
        ));
        assert forall|k: int| 0 <= k < frames.len() implies (#[trigger] frames[k]).len() == 3
            && frames[k][0] == 4 && frames[k][1] == id by {
            if k > 0 {
                assert(frames[k] == rest[k - 1]);
            }
        }
    }
}

/// The frames one stream's pending messages become, in order: each
/// request its chunked demand frames, each cancellation one
/// `CancelSender` frame.
pub open spec fn slot_wire(id: u8, msgs: Seq<ProducerMessage>) -> Seq<Seq<u8>>
    decreases msgs.len(),
{
    if msgs.len() == 0 {
        Seq::empty()
    } else {
        (match msgs[0] {
            ProducerMessage::Request(n) => request_chunks(id, n as nat),
            ProducerMessage::Cancel(_) => seq![
                spec_encode(WireForm::CancelSender { stream_id: id }),
            ],
        }) + slot_wire(id, msgs.drop_first())
    }
}

/// Whether any cancellation occurs among the messages.
pub open spec fn has_cancel(msgs: Seq<ProducerMessage>) -> bool
    decreases msgs.len(),
{
    if msgs.len() == 0 {
        false
    } else if msgs[0] is Cancel {
        true
    } else {
        has_cancel(msgs.drop_first())
    }
}

/// The frames all registered streams' messages become, stream id order,
/// starting at id `base`. Unregistered streams contribute nothing.
pub open spec fn receivers_wire(base: int, slots: Seq<SlotMsgView>) -> Seq<Seq<u8>>
    decreases slots.len(),
{
    if slots.len() == 0 {
        Seq::empty()
    } else {
        (if slots[0].open {
            slot_wire(base as u8, slots[0].msgs)
        } else {
            Seq::empty()
        }) + receivers_wire(base + 1, slots.drop_first())
    }
}

/// The frames a control-message queue becomes, in order.
pub open spec fn control_wire(msgs: Seq<Seq<u8>>) -> Seq<Seq<u8>>
    decreases msgs.len(),
{
    if msgs.len() == 0 {
        Seq::empty()
    } else {
        seq![spec_encode(WireForm::ControlMessage { payload: msgs[0] })] + control_wire(
            msgs.drop_first(),
        )
    }
}

/// What observing one transport event does to a multiplexer: end of
/// input puts the transport out of service, and a message is dispatched
/// unless the session has already faulted or the transport has ended.
pub open spec fn transport_step(v: MuxView, ev: TransportEvent) -> MuxView {
    if v.fault is Some {
        v
    } else {
        match ev {
            TransportEvent::Close => MuxView { transport_done: true, ..v },
            TransportEvent::Message(m) => if v.transport_done {
                v
            } else {
                dispatch_out(v, m@)
            },
        }
    }
}

/// A whole batch of transport events observed in order.
pub open spec fn process_inbound(v: MuxView, evs: Seq<TransportEvent>) -> MuxView
    decreases evs.len(),
{
    if evs.len() == 0 {
        v
    } else {
        process_inbound(transport_step(v, evs[0]), evs.drop_first())
    }
}

struct ReceiverSlot {
    open: bool,
    events: Queue<ProducerEvent<Vec<u8>>>,
    messages: Queue<ProducerMessage>,
    events_taken: bool,
}

/// One multiplexer session: the per-stream bookkeeping, the queue of
/// control messages awaiting the wire, and the session's own event
/// channel toward the application.
pub struct Multiplexer {
    receivers: Vec<ReceiverSlot>,
    control: Queue<Vec<u8>>,
    events: Queue<MultiplexerEvent>,
    events_taken: bool,
    transport_done: bool,
    fault: Option<MuxError>,
}

impl ReceiverProducer {
    /// The id of the stream this handle drains.
    pub closed spec fn id(&self) -> int {
        self.stream_id as int
    }

    /// The id of the stream this handle drains.
    pub fn stream_id(&self) -> (r: u8)
        ensures
            r as int == self.id(),
    {
        self.stream_id
    }
}

impl ReceiverEventRx {
    /// The id of the stream this receiving end reads.
    pub closed spec fn id(&self) -> int {
        self.stream_id as int
    }

    /// The id of the stream this receiving end reads.
    pub fn stream_id(&self) -> (r: u8)
        ensures
            r as int == self.id(),
    {
        self.stream_id
    }
}

impl Multiplexer {
    /// How many stream ids have ever been allocated.
    pub closed spec fn stream_count(&self) -> int {
        self.receivers@.len() as int
    }

    /// Whether stream `id` is registered for dispatch.
    pub closed spec fn slot_open(&self, id: int) -> bool {
        0 <= id < self.receivers@.len() && self.receivers@[id].open
    }

    /// Every event ever pushed to stream `id`, oldest first.
    pub closed spec fn slot_events_history(&self, id: int) -> Seq<ProducerEvent<Seq<u8>>> {
        events_view(self.receivers@[id].events.history())
    }

    /// Stream `id`'s events not yet read, oldest first.
    pub closed spec fn slot_events(&self, id: int) -> Seq<ProducerEvent<Seq<u8>>> {
        events_view(self.receivers@[id].events.pending())
    }

    /// Stream `id`'s demand and cancellation messages not yet processed.
    pub closed spec fn slot_messages(&self, id: int) -> Seq<ProducerMessage> {
        self.receivers@[id].messages.pending()
    }

    /// Whether stream `id`'s event channel was already handed out.
    pub closed spec fn slot_events_taken(&self, id: int) -> bool {
        self.receivers@[id].events_taken
    }

    /// Control messages accepted and not yet written to the wire.
    pub closed spec fn control_pending(&self) -> Seq<Seq<u8>> {
        bytes_view(self.control.pending())
    }

    /// Every event the session ever surfaced, oldest first.
    pub closed spec fn mux_events_history(&self) -> Seq<MuxEventView> {
        mux_events_view(self.events.history())
    }

    /// The session's events not yet read, oldest first.
    pub closed spec fn mux_events(&self) -> Seq<MuxEventView> {
        mux_events_view(self.events.pending())
    }

    /// Whether the session's event channel was already handed out.
    pub closed spec fn mux_events_taken(&self) -> bool {
        self.events_taken
    }

    /// Whether the transport has signalled end of input.
    pub closed spec fn is_transport_done(&self) -> bool {
        self.transport_done
    }

    /// The session's fault, if it has one; a faulted session is dead.
    pub closed spec fn spec_fault(&self) -> Option<MuxError> {
        self.fault
    }

    /// The session's dispatch-facing state.
    pub open spec fn view(&self) -> MuxView {
        MuxView {
            slots: Seq::new(
                self.stream_count() as nat,
                |i: int| SlotView { open: self.slot_open(i), events: self.slot_events_history(i) },
            ),
            events: self.mux_events_history(),
            transport_done: self.is_transport_done(),
            fault: self.spec_fault(),
        }
    }

    /// The session's well-formedness: sound queues, and never more than
    /// 255 stream ids allocated.
    pub closed spec fn inv(&self) -> bool {
        &&& self.receivers@.len() <= 255
        &&& forall|i: int|
            0 <= i < self.receivers@.len() ==> (#[trigger] self.receivers@[i]).events.wf()
                && self.receivers@[i].messages.wf()
        &&& self.control.wf()
        &&& self.events.wf()
    }

    /// A fresh session: no streams, no events, transport open.
    pub fn new() -> (m: Multiplexer)
        ensures
            m.inv(),
            m.stream_count() == 0,
            m.control_pending() == Seq::<Seq<u8>>::empty(),
            m.mux_events_history() == Seq::<MuxEventView>::empty(),
            m.mux_events() == Seq::<MuxEventView>::empty(),
            !m.mux_events_taken(),
            !m.is_transport_done(),
            m.spec_fault() is None,
    {
        let m = Multiplexer {
            receivers: Vec::new(),
            control: Queue::new(),
            events: Queue::new(),
            events_taken: false,
            transport_done: false,
            fault: None,
        };
        proof {
            assert(bytes_view(m.control.pending()) =~= Seq::<Seq<u8>>::empty());
            assert(mux_events_view(m.events.history()) =~= Seq::<MuxEventView>::empty());
            assert(mux_events_view(m.events.pending()) =~= Seq::<MuxEventView>::empty());
        }
        m
    }

    /// Queue one session-scoped control message for the peer.
    pub fn send_control_message(&mut self, message: Vec<u8>)
        requires
            old(self).inv(),
        ensures
            final(self).inv(),
            final(self).control_pending() == old(self).control_pending().push(message@),
            final(self).view() == old(self).view(),
            final(self).mux_events() == old(self).mux_events(),
            final(self).mux_events_taken() == old(self).mux_events_taken(),
            forall|i: int|
                0 <= i < old(self).stream_count() ==> #[trigger] final(self).slot_messages(i)
                    == old(self).slot_messages(i) && final(self).slot_events(i) == old(
                    self,
                ).slot_events(i) && final(self).slot_events_taken(i) == old(
                    self,
                ).slot_events_taken(i),
    {
        let ghost pre = *self;
        self.control.push(message);
        proof {
            assert(bytes_view(self.control.pending()) =~= bytes_view(pre.control.pending()).push(
                message@,
            ));
            assert(final(self).view().slots =~~= pre.view().slots);
            assert(final(self).view() == pre.view());
        }
    }

}

impl crate::EventEmitter<MultiplexerEventRx> for Multiplexer {
    closed spec fn emitter_inv(&self) -> bool {
        self.inv()
    }

    /// Take the session's event channel: `Some` the first time, `None`
    /// ever after.
    fn events(&mut self) -> (r: Option<MultiplexerEventRx>)
        ensures
            final(self).inv(),
            final(self).mux_events_taken(),
            old(self).mux_events_taken() ==> r is None,
            !old(self).mux_events_taken() ==> r is Some,
            final(self).view() == old(self).view(),
            final(self).mux_events() == old(self).mux_events(),
            final(self).control_pending() == old(self).control_pending(),
            forall|i: int|
                0 <= i < old(self).stream_count() ==> #[trigger] final(self).slot_messages(i)
                    == old(self).slot_messages(i) && final(self).slot_events(i) == old(
                    self,
                ).slot_events(i) && final(self).slot_events_taken(i) == old(
                    self,
                ).slot_events_taken(i),
    {
        let ghost pre = *self;
        let r = if self.events_taken {
            None
        } else {
            self.events_taken = true;
            Some(MultiplexerEventRx { _held: () })
        };
        proof {
            assert(final(self).view().slots =~~= pre.view().slots);
            assert(final(self).view() == pre.view());
        }
        r
    }
}

impl Multiplexer {
    /// Read the session's oldest unread event, in the exact order
    /// surfaced.
    pub fn next_event(&mut self, rx: &MultiplexerEventRx) -> (r: Option<MultiplexerEvent>)
        requires
            old(self).inv(),
        ensures
            final(self).inv(),
            final(self).view() == old(self).view(),
            final(self).mux_events_taken() == old(self).mux_events_taken(),
            final(self).control_pending() == old(self).control_pending(),
            forall|i: int|
                0 <= i < old(self).stream_count() ==> #[trigger] final(self).slot_messages(i)
                    == old(self).slot_messages(i) && final(self).slot_events(i) == old(
                    self,
                ).slot_events(i) && final(self).slot_events_taken(i) == old(
                    self,
                ).slot_events_taken(i),
            old(self).mux_events().len() == 0 ==> {
                &&& r is None
                &&& final(self).mux_events() == old(self).mux_events()
            },
            old(self).mux_events().len() > 0 ==> {
                &&& r matches Some(e) && mux_event_view(e) == old(self).mux_events()[0]
                &&& final(self).mux_events() == old(self).mux_events().drop_first()
            },
    {
        let ghost pre = *self;
        let r = self.events.pop();
        proof {
            assert(final(self).view().slots =~~= pre.view().slots);
            assert(final(self).view() == pre.view());
            if pre.events.pending().len() == 0 {
                assert(mux_events_view(pre.events.pending()) =~= Seq::<MuxEventView>::empty());
            } else {
                assert(mux_events_view(self.events.pending()) =~= mux_events_view(
                    pre.events.pending(),
                ).drop_first());
                assert(mux_event_view(pre.events.pending()[0]) == pre.mux_events()[0]);
            }
        }
        r
    }

    /// Allocate the next stream id and register a fresh slot for it.
    /// Ids are handed out in order from 0 and never reused; after id
    /// 254 the space is exhausted.
    fn next_stream_id(&mut self) -> (r: Result<u8, MuxError>)
        requires
            old(self).inv(),
        ensures
            final(self).inv(),
            old(self).stream_count() >= 255 ==> {
                &&& r == Err::<u8, MuxError>(MuxError::StreamIdsExhausted)
                &&& *final(self) == *old(self)
            },
            old(self).stream_count() < 255 ==> {
                &&& r == Ok::<u8, MuxError>(old(self).stream_count() as u8)
                &&& final(self).receivers@.len() == old(self).receivers@.len() + 1
                &&& forall|i: int|
                    0 <= i < old(self).receivers@.len() ==> #[trigger] final(self).receivers@[i]
                        == old(self).receivers@[i]
                &&& final(self).receivers@[old(self).stream_count()].open
                &&& final(self).receivers@[old(self).stream_count()].events.history() == Seq::<
                    ProducerEvent<Vec<u8>>,
                >::empty()
                &&& final(self).receivers@[old(self).stream_count()].events.pending() == Seq::<
                    ProducerEvent<Vec<u8>>,
                >::empty()
                &&& final(self).receivers@[old(self).stream_count()].messages.pending() == Seq::<
                    ProducerMessage,
                >::empty()
                &&& !final(self).receivers@[old(self).stream_count()].events_taken
                &&& final(self).control == old(self).control
                &&& final(self).events == old(self).events
                &&& final(self).events_taken == old(self).events_taken
                &&& final(self).transport_done == old(self).transport_done
                &&& final(self).fault == old(self).fault
            },
    {
        if self.receivers.len() >= 255 {
            return Err(MuxError::StreamIdsExhausted);
        }
        let id = self.receivers.len() as u8;
        let slot = ReceiverSlot {
            open: true,
            events: Queue::new(),
            messages: Queue::new(),
            events_taken: false,
        };
        self.receivers.push(slot);
        proof {
            let k = old(self).stream_count();
            assert(events_view(self.receivers@[k].events.history()) =~= Seq::<
                ProducerEvent<Seq<u8>>,
            >::empty());
            assert(events_view(self.receivers@[k].events.pending()) =~= Seq::<
                ProducerEvent<Seq<u8>>,
            >::empty());
        }
        Ok(id)
    }

    /// How one multiplexer state extends another: stream ids and event
    /// histories only grow, unread events are the old unread events plus
    /// whatever was newly emitted, and the per-stream message queues,
    /// the control queue, and the hand-out flags are untouched.
    pub open spec fn extends(self, pre: Multiplexer) -> bool {
        &&& pre.stream_count() <= self.stream_count()
        &&& forall|i: int|
            0 <= i < pre.stream_count() ==> #[trigger] self.slot_messages(i) == pre.slot_messages(
                i,
            ) && self.slot_events_taken(i) == pre.slot_events_taken(i) && pre.slot_events_history(
                i,
            ).is_prefix_of(self.slot_events_history(i)) && self.slot_events(i)
                == pre.slot_events(i) + self.slot_events_history(i).skip(
                pre.slot_events_history(i).len() as int,
            )
        &&& forall|i: int|
            pre.stream_count() <= i < self.stream_count() ==> #[trigger] self.slot_messages(i)
                == Seq::<ProducerMessage>::empty() && !self.slot_events_taken(i)
                && self.slot_events(i) == self.slot_events_history(i)
        &&& self.control_pending() == pre.control_pending()
        &&& self.mux_events_taken() == pre.mux_events_taken()
        &&& pre.mux_events_history().is_prefix_of(self.mux_events_history())
        &&& self.mux_events() == pre.mux_events() + self.mux_events_history().skip(
            pre.mux_events_history().len() as int,
        )
    }

    /// Decode one inbound transport message and dispatch it, exactly as
    /// `dispatch_out` names. A session that already has a fault refuses
    /// the message and reports that fault.
    pub fn handle_message(&mut self, message: &Vec<u8>) -> (r: Result<(), MuxError>)
        requires
            old(self).inv(),
        ensures
            final(self).inv(),
            final(self).extends(*old(self)),
            old(self).spec_fault() matches Some(e) ==> r == Err::<(), MuxError>(e) && *final(self)
                == *old(self),
            old(self).spec_fault() is None ==> {
                &&& final(self).view() == dispatch_out(old(self).view(), message@)
                &&& (dispatch_out(old(self).view(), message@).fault matches Some(e) ==> r
                    == Err::<(), MuxError>(e))
                &&& (dispatch_out(old(self).view(), message@).fault is None ==> r == Ok::<
                    (),
                    MuxError,
                >(()))
            },
    {
        proof {
            lemma_extends_self(*self);
        }
        if let Some(e) = self.fault {
            return Err(e);
        }
        let ghost v0 = self.view();
        let decoded = crate::wire::decode(message);
        match decoded {
            Err(e) => {
                let f = match e {
                    DecodeError::Truncated => MuxError::Malformed,
                    DecodeError::InvalidType => MuxError::InvalidMessageType,
                };
                self.fault = Some(f);
                proof {
                    self.lemma_view_parts(*old(self));
                }
                Err(f)
            },
            Ok(w) => match w {
                crate::wire::WireMessage::CreateReceiver { stream_id: _, payload } => {
                    match self.next_stream_id() {
                        Err(e) => {
                            self.fault = Some(e);
                            proof {
                                self.lemma_view_parts(*old(self));
                            }
                            Err(e)
                        },
                        Ok(id) => {
                            let ghost mid = *self;
                            let ghost pay = payload@;
                            self.events.push(
                                MultiplexerEvent::Conduit(
                                    ReceiverProducer { stream_id: id },
                                    payload,
                                ),
                            );
                            proof {
                                assert(self.mux_events_history() =~= old(
                                    self,
                                ).mux_events_history().push(MuxEventView::Conduit(id, pay)));
                                assert(self.mux_events() =~= old(self).mux_events().push(
                                    MuxEventView::Conduit(id, pay),
                                ));
                                assert(self.view().slots =~~= dispatch_out(v0, message@).slots);
                                assert(self.view().events =~= dispatch_out(v0, message@).events);
                                assert(self.view() == dispatch_out(v0, message@));
                                assert(self.mux_events_history().take(
                                    old(self).mux_events_history().len() as int,
                                ) =~= old(self).mux_events_history());
                                assert(self.mux_events() =~= old(self).mux_events()
                                    + self.mux_events_history().skip(
                                    old(self).mux_events_history().len() as int,
                                ));
                                self.lemma_extends_parts(*old(self));
                            }
                            Ok(())
                        },
                    }
                },
                crate::wire::WireMessage::StreamData { stream_id, payload } => {
                    let id = stream_id as usize;
                    if id < self.receivers.len() && self.receivers[id].open {
                        let ghost pay = payload@;
                        let slot = &mut self.receivers[id];
                        slot.events.push(ProducerEvent::Data(payload));
                        proof {
                            assert(events_view(self.receivers@[id as int].events.history()) =~=
                                events_view(old(self).receivers@[id as int].events.history()).push(
                                ProducerEvent::Data(pay),
                            ));
                            assert(events_view(self.receivers@[id as int].events.pending()) =~=
                                events_view(old(self).receivers@[id as int].events.pending()).push(
                                ProducerEvent::Data(pay),
                            ));
                            self.lemma_slot_push(
                                *old(self),
                                id as int,
                                ProducerEvent::Data(pay),
                                true,
                            );
                            assert(self.view().slots =~~= dispatch_out(v0, message@).slots);
                            assert(self.view() == dispatch_out(v0, message@));
                        }
                        Ok(())
                    } else {
                        self.fault = Some(MuxError::UnknownStreamId);
                        proof {
                            self.lemma_view_parts(*old(self));
                        }
                        Err(MuxError::UnknownStreamId)
                    }
                },
                crate::wire::WireMessage::StreamEnd { stream_id } => {
                    let id = stream_id as usize;
                    if id < self.receivers.len() && self.receivers[id].open {
                        let slot = &mut self.receivers[id];
                        slot.events.push(ProducerEvent::End);
                        slot.open = false;
                        proof {
                            assert(events_view(self.receivers@[id as int].events.history()) =~=
                                events_view(old(self).receivers@[id as int].events.history()).push(
                                ProducerEvent::End,
                            ));
                            assert(events_view(self.receivers@[id as int].events.pending()) =~=
                                events_view(old(self).receivers@[id as int].events.pending()).push(
                                ProducerEvent::End,
                            ));
                            self.lemma_slot_push(*old(self), id as int, ProducerEvent::End, false);
                            assert(self.view().slots =~~= dispatch_out(v0, message@).slots);
                            assert(self.view() == dispatch_out(v0, message@));
                        }
                        Ok(())
                    } else {
                        self.fault = Some(MuxError::UnknownStreamId);
                        proof {
                            self.lemma_view_parts(*old(self));
                        }
                        Err(MuxError::UnknownStreamId)
                    }
                },
                crate::wire::WireMessage::CancelSender { stream_id } => {
                    let id = stream_id as usize;
                    if id < self.receivers.len() && self.receivers[id].open {
                        let slot = &mut self.receivers[id];
                        slot.open = false;
                        proof {
                            self.lemma_slot_close(*old(self), id as int);
                            assert(self.view().slots =~~= dispatch_out(v0, message@).slots);
                            assert(self.view() == dispatch_out(v0, message@));
                        }
                    } else {
                        proof {
                            self.lemma_view_parts(*old(self));
                            assert(self.view().slots =~~= dispatch_out(v0, message@).slots);
                            assert(self.view() == dispatch_out(v0, message@));
                        }
                    }
                    Ok(())
                },
                crate::wire::WireMessage::StreamRequestData { stream_id, count } => {
                    proof {
                        self.lemma_view_parts(*old(self));
                    }
                    Ok(())
                },
                crate::wire::WireMessage::ControlMessage { payload } => {
                    let ghost mid = *self;
                    let ghost pay = payload@;
                    self.events.push(MultiplexerEvent::ControlMessage(payload));
                    proof {
                        assert(self.mux_events_history() =~= old(self).mux_events_history().push(
                            MuxEventView::ControlMessage(pay),
                        ));
                        assert(self.mux_events() =~= old(self).mux_events().push(
                            MuxEventView::ControlMessage(pay),
                        ));
                        assert(self.view().slots =~~= dispatch_out(v0, message@).slots);
                        assert(self.view().events =~= dispatch_out(v0, message@).events);
                        assert(self.view() == dispatch_out(v0, message@));
                        assert(self.mux_events_history().take(
                            old(self).mux_events_history().len() as int,
                        ) =~= old(self).mux_events_history());
                        assert(self.mux_events() =~= old(self).mux_events()
                            + self.mux_events_history().skip(
                            old(self).mux_events_history().len() as int,
                        ));
                        self.lemma_extends_parts(*old(self));
                    }
                    Ok(())
                },
            },
        }
    }

    /// A multiplexer whose queues, slots, and flags are untouched, save
    /// possibly its fault, has the same view but for the fault, and
    /// extends its old self.
    proof fn lemma_view_parts(&self, pre: Multiplexer)
        requires
            self.receivers == pre.receivers,
            self.control == pre.control,
            self.events == pre.events,
            self.events_taken == pre.events_taken,
            self.transport_done == pre.transport_done,
        ensures
            self.view() == (MuxView { fault: self.spec_fault(), ..pre.view() }),
            self.extends(pre),
    {
        assert(self.view().slots =~~= pre.view().slots);
        assert(self.view() == (MuxView { fault: self.spec_fault(), ..pre.view() }));
        assert(self.mux_events_history().take(pre.mux_events_history().len() as int) =~=
            pre.mux_events_history());
        assert(self.mux_events() =~= pre.mux_events() + self.mux_events_history().skip(
            pre.mux_events_history().len() as int,
        ));
        self.lemma_extends_parts(pre);
    }

    /// Appending fresh slots and multiplexer events, and touching
    /// nothing else, is an extension.
    proof fn lemma_extends_parts(&self, pre: Multiplexer)
        requires
            pre.receivers@.len() <= self.receivers@.len(),
            forall|i: int|
                0 <= i < pre.receivers@.len() ==> self.receivers@[i] == pre.receivers@[i],
            forall|i: int|
                pre.receivers@.len() <= i < self.receivers@.len() ==> (#[trigger] self.receivers@[
                    i
                ]).messages.pending() == Seq::<ProducerMessage>::empty()
                    && !self.receivers@[i].events_taken && self.receivers@[i].events.pending()
                    == self.receivers@[i].events.history(),
            self.control == pre.control,
            self.events_taken == pre.events_taken,
            pre.mux_events_history().is_prefix_of(self.mux_events_history()),
            self.mux_events() == pre.mux_events() + self.mux_events_history().skip(
                pre.mux_events_history().len() as int,
            ),
        ensures
            self.extends(pre),
    {
        assert forall|i: int| 0 <= i < pre.stream_count() implies #[trigger] self.slot_messages(i)
            == pre.slot_messages(i) && self.slot_events_taken(i) == pre.slot_events_taken(i)
            && pre.slot_events_history(i).is_prefix_of(self.slot_events_history(i))
            && self.slot_events(i) == pre.slot_events(i) + self.slot_events_history(i).skip(
            pre.slot_events_history(i).len() as int,
        ) by {
            assert(self.receivers@[i] == pre.receivers@[i]);
            assert(self.slot_events_history(i).take(pre.slot_events_history(i).len() as int) =~=
                pre.slot_events_history(i));
            assert(self.slot_events(i) =~= pre.slot_events(i) + self.slot_events_history(i).skip(
                pre.slot_events_history(i).len() as int,
            ));
        }
        assert forall|i: int| pre.stream_count() <= i < self.stream_count() implies #[trigger] self
            .slot_messages(i) == Seq::<ProducerMessage>::empty() && !self.slot_events_taken(i)
            && self.slot_events(i) == self.slot_events_history(i) by {
            assert(self.receivers@[i].messages.pending() == Seq::<ProducerMessage>::empty());
            assert(self.slot_events(i) =~= self.slot_events_history(i));
        }
    }

    /// Pushing one event onto one slot's queue (and possibly closing
    /// that slot) leaves every other slot alone and extends the session.
    #[verifier::rlimit(50)]
    #[verifier::spinoff_prover]
    proof fn lemma_slot_push(
        &self,
        pre: Multiplexer,
        id: int,
        e: ProducerEvent<Seq<u8>>,
        still_open: bool,
    )
        requires
            pre.inv(),
            self.inv(),
            0 <= id < pre.receivers@.len(),
            self.receivers@.len() == pre.receivers@.len(),
            self.receivers@[id].open == still_open,
            self.receivers@[id].events_taken == pre.receivers@[id].events_taken,
            self.receivers@[id].messages == pre.receivers@[id].messages,
            events_view(self.receivers@[id].events.history()) == events_view(
                pre.receivers@[id].events.history(),
            ).push(e),
            events_view(self.receivers@[id].events.pending()) == events_view(
                pre.receivers@[id].events.pending(),
            ).push(e),
            forall|i: int|
                0 <= i < pre.receivers@.len() && i != id ==> self.receivers@[i]
                    == pre.receivers@[i],
            self.control == pre.control,
            self.events == pre.events,
            self.events_taken == pre.events_taken,
            self.transport_done == pre.transport_done,
            self.fault == pre.fault,
        ensures
            self.extends(pre),
            self.view() == (MuxView {
                slots: pre.view().slots.update(
                    id,
                    SlotView { open: still_open, events: pre.slot_events_history(id).push(e) },
                ),
                ..pre.view()
            }),
    {
        assert forall|i: int| 0 <= i < pre.stream_count() implies #[trigger] self.slot_messages(i)
            == pre.slot_messages(i) && self.slot_events_taken(i) == pre.slot_events_taken(i)
            && pre.slot_events_history(i).is_prefix_of(self.slot_events_history(i))
            && self.slot_events(i) == pre.slot_events(i) + self.slot_events_history(i).skip(
            pre.slot_events_history(i).len() as int,
        ) by {
            if i == id {
                assert(self.slot_events_history(i) =~= pre.slot_events_history(i).push(e));
            } else {
                assert(self.receivers@[i] == pre.receivers@[i]);
            }
            assert(self.slot_events_history(i).take(pre.slot_events_history(i).len() as int) =~=
                pre.slot_events_history(i));
            assert(self.slot_events(i) =~= pre.slot_events(i) + self.slot_events_history(i).skip(
                pre.slot_events_history(i).len() as int,
            ));
        }
        assert(self.mux_events_history().take(pre.mux_events_history().len() as int) =~=
            pre.mux_events_history());
        assert(self.mux_events() =~= pre.mux_events() + self.mux_events_history().skip(
            pre.mux_events_history().len() as int,
        ));
        assert(self.view().slots =~~= pre.view().slots.update(
            id,
            SlotView { open: still_open, events: pre.slot_events_history(id).push(e) },
        ));
    }

    /// Closing one slot, touching nothing else, leaves every other slot
    /// alone and extends the session.
    proof fn lemma_slot_close(&self, pre: Multiplexer, id: int)
        requires
            pre.inv(),
            self.inv(),
            0 <= id < pre.receivers@.len(),
            self.receivers@.len() == pre.receivers@.len(),
            !self.receivers@[id].open,
            self.receivers@[id].events == pre.receivers@[id].events,
            self.receivers@[id].events_taken == pre.receivers@[id].events_taken,
            self.receivers@[id].messages == pre.receivers@[id].messages,
            forall|i: int|
                0 <= i < pre.receivers@.len() && i != id ==> self.receivers@[i]
                    == pre.receivers@[i],
            self.control == pre.control,
            self.events == pre.events,
            self.events_taken == pre.events_taken,
            self.transport_done == pre.transport_done,
            self.fault == pre.fault,
        ensures
            self.extends(pre),
            self.view() == (MuxView {
                slots: pre.view().slots.update(
                    id,
                    SlotView { open: false, events: pre.slot_events_history(id) },
                ),
                ..pre.view()
            }),
    {
        assert forall|i: int| 0 <= i < pre.stream_count() implies #[trigger] self.slot_messages(i)
            == pre.slot_messages(i) && self.slot_events_taken(i) == pre.slot_events_taken(i)
            && pre.slot_events_history(i).is_prefix_of(self.slot_events_history(i))
            && self.slot_events(i) == pre.slot_events(i) + self.slot_events_history(i).skip(
            pre.slot_events_history(i).len() as int,
        ) by {
            assert(self.receivers@[i].events == pre.receivers@[i].events);
            assert(self.slot_events_history(i).take(pre.slot_events_history(i).len() as int) =~=
                pre.slot_events_history(i));
            assert(self.slot_events(i) =~= pre.slot_events(i) + self.slot_events_history(i).skip(
                pre.slot_events_history(i).len() as int,
            ));
        }
        assert(self.mux_events_history().take(pre.mux_events_history().len() as int) =~=
            pre.mux_events_history());
        assert(self.mux_events() =~= pre.mux_events() + self.mux_events_history().skip(
            pre.mux_events_history().len() as int,
        ));
        assert(self.view().slots =~~= pre.view().slots.update(
            id,
            SlotView { open: false, events: pre.slot_events_history(id) },
        ));
    }
}

impl Multiplexer {
    /// Changing only stream `id`'s message queue or hand-out flag — not
    /// its events, not its registration — leaves the dispatch-facing
    /// view and every other stream untouched.
    proof fn lemma_slot_meta_change(&self, pre: Multiplexer, id: int)
        requires
            self.receivers@.len() == pre.receivers@.len(),
            0 <= id < pre.receivers@.len(),
            self.receivers@[id].open == pre.receivers@[id].open,
            self.receivers@[id].events == pre.receivers@[id].events,
            forall|i: int|
                0 <= i < pre.receivers@.len() && i != id ==> self.receivers@[i]
                    == pre.receivers@[i],
            self.control == pre.control,
            self.events == pre.events,
            self.events_taken == pre.events_taken,
            self.transport_done == pre.transport_done,
            self.fault == pre.fault,
        ensures
            self.view() == pre.view(),
            self.control_pending() == pre.control_pending(),
            self.mux_events() == pre.mux_events(),
            self.mux_events_history() == pre.mux_events_history(),
            self.mux_events_taken() == pre.mux_events_taken(),
            self.stream_count() == pre.stream_count(),
            self.slot_open(id) == pre.slot_open(id),
            self.slot_events(id) == pre.slot_events(id),
            self.slot_events_history(id) == pre.slot_events_history(id),
            forall|i: int|
                0 <= i < pre.stream_count() && i != id ==> #[trigger] self.slot_messages(i)
                    == pre.slot_messages(i) && self.slot_events(i) == pre.slot_events(i)
                    && self.slot_events_taken(i) == pre.slot_events_taken(i) && self.slot_open(i)
                    == pre.slot_open(i) && self.slot_events_history(i) == pre.slot_events_history(
                    i,
                ),
    {
        assert(self.view().slots =~~= pre.view().slots);
        assert(self.view() == pre.view());
    }

    /// Nothing but the control queue differs: the view and every stream
    /// are untouched.
    proof fn lemma_control_only(&self, pre: Multiplexer)
        requires
            self.receivers == pre.receivers,
            self.events == pre.events,
            self.events_taken == pre.events_taken,
            self.transport_done == pre.transport_done,
            self.fault == pre.fault,
        ensures
            self.view() == pre.view(),
            self.mux_events() == pre.mux_events(),
            self.mux_events_taken() == pre.mux_events_taken(),
            self.stream_count() == pre.stream_count(),
            forall|i: int|
                0 <= i < pre.stream_count() ==> #[trigger] self.slot_messages(i)
                    == pre.slot_messages(i) && self.slot_events(i) == pre.slot_events(i)
                    && self.slot_events_taken(i) == pre.slot_events_taken(i) && self.slot_open(i)
                    == pre.slot_open(i),
    {
        assert(self.view().slots =~~= pre.view().slots);
        assert(self.view() == pre.view());
        assert forall|i: int| 0 <= i < pre.stream_count() implies #[trigger] self.slot_messages(i)
            == pre.slot_messages(i) && self.slot_events(i) == pre.slot_events(i)
            && self.slot_events_taken(i) == pre.slot_events_taken(i) && self.slot_open(i)
            == pre.slot_open(i) by {
            assert(self.receivers@[i] == pre.receivers@[i]);
        }
    }

    /// Write every queued control message to the wire, oldest first,
    /// each as one `ControlMessage` frame.
    pub fn process_messages(&mut self) -> (out: Vec<Vec<u8>>)
        requires
            old(self).inv(),
        ensures
            final(self).inv(),
            final(self).view() == old(self).view(),
            final(self).control_pending() == Seq::<Seq<u8>>::empty(),
            bytes_view(out@) == control_wire(old(self).control_pending()),
            final(self).mux_events() == old(self).mux_events(),
            final(self).mux_events_taken() == old(self).mux_events_taken(),
            final(self).stream_count() == old(self).stream_count(),
            forall|i: int|
                0 <= i < old(self).stream_count() ==> #[trigger] final(self).slot_messages(i)
                    == old(self).slot_messages(i) && final(self).slot_events(i) == old(
                    self,
                ).slot_events(i) && final(self).slot_events_taken(i) == old(
                    self,
                ).slot_events_taken(i) && final(self).slot_open(i) == old(self).slot_open(i),
    {
        let ghost c0 = self.control_pending();
        let mut out: Vec<Vec<u8>> = Vec::new();
        proof {
            assert(bytes_view(out@) =~= Seq::<Seq<u8>>::empty());
        }
        loop
            invariant_except_break
                self.inv(),
                self.receivers == old(self).receivers,
                self.events == old(self).events,
                self.events_taken == old(self).events_taken,
                self.transport_done == old(self).transport_done,
                self.fault == old(self).fault,
                control_wire(c0) == bytes_view(out@) + control_wire(self.control_pending()),
            ensures
                self.inv(),
                self.receivers == old(self).receivers,
                self.events == old(self).events,
                self.events_taken == old(self).events_taken,
                self.transport_done == old(self).transport_done,
                self.fault == old(self).fault,
                self.control_pending().len() == 0,
                bytes_view(out@) == control_wire(c0),
            decreases self.control.pending().len(),
        {
            let ghost pre_pend = self.control_pending();
            let ghost pre_out = out@;
            let payload = match self.control.pop() {
                None => {
                    proof {
                        assert(self.control_pending() =~= Seq::<Seq<u8>>::empty());
                        assert(bytes_view(out@) + control_wire(self.control_pending()) =~=
                            bytes_view(out@));
                    }
                    break ;
                },
                Some(p) => p,
            };
            let ghost pay = payload@;
            let frame = crate::wire::encode(
                &crate::wire::WireMessage::ControlMessage { payload },
            );
            out.push(frame);
            proof {
                assert(self.control_pending() =~= pre_pend.drop_first());
                assert(pre_pend[0] == pay);
                assert(control_wire(pre_pend) == seq![
                    spec_encode(WireForm::ControlMessage { payload: pay }),
                ] + control_wire(self.control_pending()));
                assert(bytes_view(out@) =~= bytes_view(pre_out).push(
                    spec_encode(WireForm::ControlMessage { payload: pay }),
                ));
                assert(bytes_view(pre_out) + (seq![
                    spec_encode(WireForm::ControlMessage { payload: pay }),
                ] + control_wire(self.control_pending())) =~= bytes_view(out@) + control_wire(
                    self.control_pending(),
                ));
            }
        }
        proof {
            self.lemma_control_only(*old(self));
        }
        out
    }
}

impl ReceiverProducer {
    /// Grant `num_items` more units of demand on this stream: enqueued
    /// for the session's next turn, which puts it on the wire. A stream
    /// no longer registered ignores the grant.
    pub fn request(&self, mux: &mut Multiplexer, num_items: usize)
        requires
            old(mux).inv(),
        ensures
            final(mux).inv(),
            final(mux).view() == old(mux).view(),
            final(mux).control_pending() == old(mux).control_pending(),
            final(mux).mux_events() == old(mux).mux_events(),
            final(mux).mux_events_taken() == old(mux).mux_events_taken(),
            old(mux).slot_open(self.id()) ==> final(mux).slot_messages(self.id()) == old(
                mux,
            ).slot_messages(self.id()).push(ProducerMessage::Request(num_items)),
            !old(mux).slot_open(self.id()) ==> *final(mux) == *old(mux),
            forall|i: int|
                0 <= i < old(mux).stream_count() && i != self.id() ==> #[trigger] final(mux).slot_messages(i) == old(mux).slot_messages(i),
            forall|i: int|
                0 <= i < old(mux).stream_count() ==> #[trigger] final(mux).slot_events(i) == old(
                    mux,
                ).slot_events(i) && final(mux).slot_events_taken(i) == old(mux).slot_events_taken(
                    i,
                ),
    {
        let id = self.stream_id as usize;
        if id < mux.receivers.len() && mux.receivers[id].open {
            let slot = &mut mux.receivers[id];
            slot.messages.push(ProducerMessage::Request(num_items));
            proof {
                mux.lemma_slot_meta_change(*old(mux), id as int);
            }
        }
    }

    /// Abandon this stream: enqueued for the session's next turn, which
    /// sends `CancelSender` and unregisters the stream.
    pub fn cancel(&self, mux: &mut Multiplexer, reason: CancelReason)
        requires
            old(mux).inv(),
        ensures
            final(mux).inv(),
            final(mux).view() == old(mux).view(),
            final(mux).control_pending() == old(mux).control_pending(),
            final(mux).mux_events() == old(mux).mux_events(),
            final(mux).mux_events_taken() == old(mux).mux_events_taken(),
            old(mux).slot_open(self.id()) ==> final(mux).slot_messages(self.id()) == old(
                mux,
            ).slot_messages(self.id()).push(ProducerMessage::Cancel(reason)),
            !old(mux).slot_open(self.id()) ==> *final(mux) == *old(mux),
            forall|i: int|
                0 <= i < old(mux).stream_count() && i != self.id() ==> #[trigger] final(mux).slot_messages(i) == old(mux).slot_messages(i),
            forall|i: int|
                0 <= i < old(mux).stream_count() ==> #[trigger] final(mux).slot_events(i) == old(
                    mux,
                ).slot_events(i) && final(mux).slot_events_taken(i) == old(mux).slot_events_taken(
                    i,
                ),
    {
        let id = self.stream_id as usize;
        if id < mux.receivers.len() && mux.receivers[id].open {
            let slot = &mut mux.receivers[id];
            slot.messages.push(ProducerMessage::Cancel(reason));
            proof {
                mux.lemma_slot_meta_change(*old(mux), id as int);
            }
        }
    }

    /// Take this stream's event channel: `Some` the first time, `None`
    /// ever after — and `None` for a stream id the session never issued.
    pub fn event_stream(&self, mux: &mut Multiplexer) -> (r: Option<ReceiverEventRx>)
        requires
            old(mux).inv(),
        ensures
            final(mux).inv(),
            final(mux).view() == old(mux).view(),
            final(mux).control_pending() == old(mux).control_pending(),
            final(mux).mux_events() == old(mux).mux_events(),
            final(mux).mux_events_taken() == old(mux).mux_events_taken(),
            0 <= self.id() < old(mux).stream_count() ==> {
                &&& final(mux).slot_events_taken(self.id())
                &&& old(mux).slot_events_taken(self.id()) ==> r is None && *final(mux) == *old(
                    mux,
                )
                &&& !old(mux).slot_events_taken(self.id()) ==> (r matches Some(rx) && rx.id()
                    == self.id())
                &&& final(mux).slot_messages(self.id()) == old(mux).slot_messages(self.id())
                &&& final(mux).slot_events(self.id()) == old(mux).slot_events(self.id())
            },
            !(0 <= self.id() < old(mux).stream_count()) ==> r is None && *final(mux) == *old(mux),
            forall|i: int|
                0 <= i < old(mux).stream_count() && i != self.id() ==> #[trigger] final(mux).slot_messages(i) == old(mux).slot_messages(i) && final(mux).slot_events(i)
                    == old(mux).slot_events(i) && final(mux).slot_events_taken(i) == old(
                    mux,
                ).slot_events_taken(i),
    {
        let id = self.stream_id as usize;
        if id < mux.receivers.len() {
            if mux.receivers[id].events_taken {
                None
            } else {
                let slot = &mut mux.receivers[id];
                slot.events_taken = true;
                proof {
                    mux.lemma_slot_meta_change(*old(mux), id as int);
                }
                Some(ReceiverEventRx { stream_id: self.stream_id })
            }
        } else {
            None
        }
    }
}

impl ReceiverEventRx {
    /// Read this stream's oldest unread event, in the exact order the
    /// session pushed them: strict first-in, first-out per stream.
    pub fn next_event(&self, mux: &mut Multiplexer) -> (r: Option<ProducerEvent<Vec<u8>>>)
        requires
            old(mux).inv(),
        ensures
            final(mux).inv(),
            final(mux).view() == old(mux).view(),
            final(mux).control_pending() == old(mux).control_pending(),
            final(mux).mux_events() == old(mux).mux_events(),
            final(mux).mux_events_taken() == old(mux).mux_events_taken(),
            0 <= self.id() < old(mux).stream_count() ==> {
                &&& final(mux).slot_messages(self.id()) == old(mux).slot_messages(self.id())
                &&& final(mux).slot_events_taken(self.id()) == old(mux).slot_events_taken(
                    self.id(),
                )
                &&& old(mux).slot_events(self.id()).len() == 0 ==> r is None && final(mux).slot_events(self.id()) == old(mux).slot_events(self.id())
                &&& old(mux).slot_events(self.id()).len() > 0 ==> {
                    &&& r matches Some(e) && event_view(e) == old(mux).slot_events(self.id())[0]
                    &&& final(mux).slot_events(self.id()) == old(mux).slot_events(
                        self.id(),
                    ).drop_first()
                }
            },
            !(0 <= self.id() < old(mux).stream_count()) ==> r is None && *final(mux) == *old(mux),
            forall|i: int|
                0 <= i < old(mux).stream_count() && i != self.id() ==> #[trigger] final(mux).slot_messages(i) == old(mux).slot_messages(i) && final(mux).slot_events(i)
                    == old(mux).slot_events(i) && final(mux).slot_events_taken(i) == old(
                    mux,
                ).slot_events_taken(i),
    {
        let id = self.stream_id as usize;
        if id < mux.receivers.len() {
            let slot = &mut mux.receivers[id];
            let r = slot.events.pop();
            proof {
                mux.lemma_slot_meta_change2(*old(mux), id as int);
                if old(mux).receivers@[id as int].events.pending().len() > 0 {
                    assert(events_view(mux.receivers@[id as int].events.pending()) =~=
                        events_view(old(mux).receivers@[id as int].events.pending()).drop_first());
                    assert(event_view(old(mux).receivers@[id as int].events.pending()[0]) == old(
                        mux,
                    ).slot_events(id as int)[0]);
                } else {
                    assert(events_view(old(mux).receivers@[id as int].events.pending()) =~= Seq::<
                        ProducerEvent<Seq<u8>>,
                    >::empty());
                }
            }
            r
        } else {
            None
        }
    }
}

impl Multiplexer {
    /// Changing only stream `id`'s pending events by reads — its
    /// history, registration, and everything else untouched — leaves the
    /// view and every other stream untouched.
    proof fn lemma_slot_meta_change2(&self, pre: Multiplexer, id: int)
        requires
            self.receivers@.len() == pre.receivers@.len(),
            0 <= id < pre.receivers@.len(),
            self.receivers@[id].open == pre.receivers@[id].open,
            self.receivers@[id].events_taken == pre.receivers@[id].events_taken,
            self.receivers@[id].messages == pre.receivers@[id].messages,
            self.receivers@[id].events.history() == pre.receivers@[id].events.history(),
            forall|i: int|
                0 <= i < pre.receivers@.len() && i != id ==> self.receivers@[i]
                    == pre.receivers@[i],
            self.control == pre.control,
            self.events == pre.events,
            self.events_taken == pre.events_taken,
            self.transport_done == pre.transport_done,
            self.fault == pre.fault,
        ensures
            self.view() == pre.view(),
            self.control_pending() == pre.control_pending(),
            self.mux_events() == pre.mux_events(),
            self.mux_events_taken() == pre.mux_events_taken(),
            self.stream_count() == pre.stream_count(),
            self.slot_messages(id) == pre.slot_messages(id),
            self.slot_events_taken(id) == pre.slot_events_taken(id),
            forall|i: int|
                0 <= i < pre.stream_count() && i != id ==> #[trigger] self.slot_messages(i)
                    == pre.slot_messages(i) && self.slot_events(i) == pre.slot_events(i)
                    && self.slot_events_taken(i) == pre.slot_events_taken(i),
    {
        assert(self.view().slots =~~= pre.view().slots);
        assert(self.view() == pre.view());
    }
}

/// Append the frames that carry a demand grant of `n` for stream `id`:
/// as many as the one-byte count field needs, summing to exactly `n`.
fn emit_request_frames(id: u8, n: usize, out: &mut Vec<Vec<u8>>)
    ensures
        bytes_view(final(out)@) == bytes_view(old(out)@) + request_chunks(id, n as nat),
{
    let mut rem: usize = n;
    loop
        invariant_except_break
            bytes_view(old(out)@) + request_chunks(id, n as nat) == bytes_view(out@)
                + request_chunks(id, rem as nat),
        ensures
            bytes_view(out@) == bytes_view(old(out)@) + request_chunks(id, n as nat),
        decreases rem,
    {
        let ghost pre_out = out@;
        let ghost pre_rem = rem;
        if rem <= 255 {
            let frame = crate::wire::encode(
                &crate::wire::WireMessage::StreamRequestData { stream_id: id, count: rem as u8 },
            );
            out.push(frame);
            proof {
                assert(bytes_view(out@) =~= bytes_view(pre_out).push(
                    spec_encode(WireForm::StreamRequestData { stream_id: id, count: rem as u8 }),
                ));
                assert(request_chunks(id, pre_rem as nat) =~= seq![
                    spec_encode(WireForm::StreamRequestData { stream_id: id, count: rem as u8 }),
                ]);
                assert(bytes_view(pre_out) + request_chunks(id, pre_rem as nat) =~= bytes_view(
                    out@,
                ));
            }
            break ;
        }
        let frame = crate::wire::encode(
            &crate::wire::WireMessage::StreamRequestData { stream_id: id, count: 255 },
        );
        out.push(frame);
        rem = rem - 255;
        proof {
            assert(bytes_view(out@) =~= bytes_view(pre_out).push(
                spec_encode(WireForm::StreamRequestData { stream_id: id, count: 255 }),
            ));
            assert(request_chunks(id, pre_rem as nat) == seq![
                spec_encode(WireForm::StreamRequestData { stream_id: id, count: 255 }),
            ] + request_chunks(id, rem as nat));
            assert(bytes_view(pre_out) + (seq![
                spec_encode(WireForm::StreamRequestData { stream_id: id, count: 255 }),
            ] + request_chunks(id, rem as nat)) =~= bytes_view(out@) + request_chunks(
                id,
                rem as nat,
            ));
        }
    }
}

/// Drain one stream's pending messages onto the wire: each request its
/// chunked demand frames, each cancellation one `CancelSender` frame,
/// in order; the stream stays registered only if no cancellation was
/// seen.
fn drain_slot(slot: &mut ReceiverSlot, id: u8, out: &mut Vec<Vec<u8>>)
    requires
        old(slot).messages.wf(),
        old(slot).open,
    ensures
        final(slot).messages.wf(),
        final(slot).events == old(slot).events,
        final(slot).events_taken == old(slot).events_taken,
        final(slot).messages.pending() == Seq::<ProducerMessage>::empty(),
        final(slot).open == !has_cancel(old(slot).messages.pending()),
        bytes_view(final(out)@) == bytes_view(old(out)@) + slot_wire(
            id,
            old(slot).messages.pending(),
        ),
{
    let ghost m0 = slot.messages.pending();
    let mut cancelled = false;
    loop
        invariant_except_break
            slot.messages.wf(),
            slot.events == old(slot).events,
            slot.events_taken == old(slot).events_taken,
            slot.open == old(slot).open,
            cancelled == has_cancel(m0) || (!cancelled && has_cancel(m0) == has_cancel(
                slot.messages.pending(),
            )),
            !cancelled ==> has_cancel(m0) == has_cancel(slot.messages.pending()),
            cancelled ==> has_cancel(m0),
            bytes_view(old(out)@) + slot_wire(id, m0) == bytes_view(out@) + slot_wire(
                id,
                slot.messages.pending(),
            ),
        ensures
            slot.messages.wf(),
            slot.events == old(slot).events,
            slot.events_taken == old(slot).events_taken,
            slot.open == old(slot).open,
            slot.messages.pending().len() == 0,
            cancelled == has_cancel(m0),
            bytes_view(out@) == bytes_view(old(out)@) + slot_wire(id, m0),
        decreases slot.messages.pending().len(),
    {
        let ghost pre_pend = slot.messages.pending();
        let ghost pre_out = out@;
        let m = match slot.messages.pop() {
            None => {
                proof {
                    assert(bytes_view(out@) + slot_wire(id, slot.messages.pending()) =~=
                        bytes_view(out@));
                }
                break ;
            },
            Some(m) => m,
        };
        match m {
            ProducerMessage::Request(n) => {
                emit_request_frames(id, n, out);
                proof {
                    assert(slot_wire(id, pre_pend) == request_chunks(id, n as nat) + slot_wire(
                        id,
                        slot.messages.pending(),
                    ));
                    assert(bytes_view(pre_out) + (request_chunks(id, n as nat) + slot_wire(
                        id,
                        slot.messages.pending(),
                    )) =~= bytes_view(out@) + slot_wire(id, slot.messages.pending()));
                }
            },
            ProducerMessage::Cancel(_) => {
                let frame = crate::wire::encode(
                    &crate::wire::WireMessage::CancelSender { stream_id: id },
                );
                out.push(frame);
                cancelled = true;
                proof {
                    assert(bytes_view(out@) =~= bytes_view(pre_out).push(
                        spec_encode(WireForm::CancelSender { stream_id: id }),
                    ));
                    assert(slot_wire(id, pre_pend) == seq![
                        spec_encode(WireForm::CancelSender { stream_id: id }),
                    ] + slot_wire(id, slot.messages.pending()));
                    assert(bytes_view(pre_out) + (seq![
                        spec_encode(WireForm::CancelSender { stream_id: id }),
                    ] + slot_wire(id, slot.messages.pending())) =~= bytes_view(out@) + slot_wire(
                        id,
                        slot.messages.pending(),
                    ));
                }
            },
        }
    }
    if cancelled {
        slot.open = false;
    }
}

impl Multiplexer {
    /// Each stream's registration and pending messages, in id order.
    pub closed spec fn slot_msg_views(&self) -> Seq<SlotMsgView> {
        Seq::new(
            self.receivers@.len(),
            |i: int|
                SlotMsgView {
                    open: self.receivers@[i].open,
                    msgs: self.receivers@[i].messages.pending(),
                },
        )
    }

    /// Whether any stream is still registered.
    pub open spec fn spec_any_open(&self) -> bool {
        exists|i: int| 0 <= i < self.stream_count() && self.slot_open(i)
    }

    /// The session's state: `Active` while the transport is open,
    /// `Draining` once it has ended with receivers still registered,
    /// `Closed` — terminal — once it has ended with none left.
    pub open spec fn spec_state(&self) -> MuxState {
        if !self.is_transport_done() {
            MuxState::Active
        } else if self.spec_any_open() {
            MuxState::Draining
        } else {
            MuxState::Closed
        }
    }

    /// Where the session stands.
    pub fn state(&self) -> (r: MuxState)
        ensures
            r == self.spec_state(),
    {
        if !self.transport_done {
            return MuxState::Active;
        }
        let mut i: usize = 0;
        loop
            invariant_except_break
                self.transport_done,
                i <= self.receivers@.len(),
                forall|j: int| 0 <= j < i ==> !self.slot_open(j),
            ensures
                forall|j: int| 0 <= j < self.receivers@.len() ==> !self.slot_open(j),
            decreases self.receivers@.len() - i,
        {
            if i == self.receivers.len() {
                break ;
            }
            if self.receivers[i].open {
                proof {
                    assert(self.slot_open(i as int));
                    assert(self.spec_any_open());
                }
                return MuxState::Draining;
            }
            i += 1;
        }
        proof {
            assert(!self.spec_any_open());
        }
        MuxState::Closed
    }

    /// Drain every registered stream's pending demand and cancellation
    /// messages onto the wire, in stream id order: each request as its
    /// chunked `StreamRequestData` frames, each cancellation as one
    /// `CancelSender` frame, after which the cancelled stream is
    /// unregistered.
    pub fn process_receiver_messages(&mut self) -> (out: Vec<Vec<u8>>)
        requires
            old(self).inv(),
        ensures
            final(self).inv(),
            final(self).stream_count() == old(self).stream_count(),
            bytes_view(out@) == receivers_wire(0, old(self).slot_msg_views()),
            final(self).control_pending() == old(self).control_pending(),
            final(self).mux_events() == old(self).mux_events(),
            final(self).mux_events_history() == old(self).mux_events_history(),
            final(self).mux_events_taken() == old(self).mux_events_taken(),
            final(self).is_transport_done() == old(self).is_transport_done(),
            final(self).spec_fault() == old(self).spec_fault(),
            forall|i: int|
                0 <= i < old(self).stream_count() ==> #[trigger] final(self).slot_events(i) == old(
                    self,
                ).slot_events(i) && final(self).slot_events_history(i) == old(
                    self,
                ).slot_events_history(i) && final(self).slot_events_taken(i) == old(
                    self,
                ).slot_events_taken(i),
            forall|i: int|
                0 <= i < old(self).stream_count() ==> #[trigger] final(self).slot_messages(i) == (
                if old(self).slot_open(i) {
                    Seq::<ProducerMessage>::empty()
                } else {
                    old(self).slot_messages(i)
                }),
            forall|i: int|
                0 <= i < old(self).stream_count() ==> #[trigger] final(self).slot_open(i) == (old(
                    self,
                ).slot_open(i) && !has_cancel(old(self).slot_messages(i))),
    {
        let ghost views = self.slot_msg_views();
        let mut out: Vec<Vec<u8>> = Vec::new();
        let mut i: usize = 0;
        proof {
            assert(bytes_view(out@) =~= Seq::<Seq<u8>>::empty());
            assert(views.skip(0) =~= views);
        }
        loop
            invariant_except_break
                self.inv(),
                i <= self.receivers@.len(),
                self.receivers@.len() == old(self).receivers@.len(),
                self.control == old(self).control,
                self.events == old(self).events,
                self.events_taken == old(self).events_taken,
                self.transport_done == old(self).transport_done,
                self.fault == old(self).fault,
                views == old(self).slot_msg_views(),
                forall|j: int|
                    i <= j < self.receivers@.len() ==> self.receivers@[j] == old(
                        self,
                    ).receivers@[j],
                forall|j: int|
                    0 <= j < i ==> (#[trigger] self.receivers@[j]).events == old(
                        self,
                    ).receivers@[j].events && self.receivers@[j].events_taken == old(
                        self,
                    ).receivers@[j].events_taken && self.receivers@[j].messages.wf()
                        && self.receivers@[j].messages.pending() == (if old(self).slot_open(j) {
                        Seq::<ProducerMessage>::empty()
                    } else {
                        old(self).slot_messages(j)
                    }) && self.receivers@[j].open == (old(self).slot_open(j) && !has_cancel(
                        old(self).slot_messages(j),
                    )),
                receivers_wire(0, views) == bytes_view(out@) + receivers_wire(
                    i as int,
                    views.skip(i as int),
                ),
            ensures
                self.inv(),
                self.receivers@.len() == old(self).receivers@.len(),
                self.control == old(self).control,
                self.events == old(self).events,
                self.events_taken == old(self).events_taken,
                self.transport_done == old(self).transport_done,
                self.fault == old(self).fault,
                forall|j: int|
                    0 <= j < self.receivers@.len() ==> (#[trigger] self.receivers@[j]).events
                        == old(self).receivers@[j].events && self.receivers@[j].events_taken
                        == old(self).receivers@[j].events_taken
                        && self.receivers@[j].messages.pending() == (if old(self).slot_open(j) {
                        Seq::<ProducerMessage>::empty()
                    } else {
                        old(self).slot_messages(j)
                    }) && self.receivers@[j].open == (old(self).slot_open(j) && !has_cancel(
                        old(self).slot_messages(j),
                    )),
                bytes_view(out@) == receivers_wire(0, views),
            decreases self.receivers@.len() - i,
        {
            if i == self.receivers.len() {
                proof {
                    assert(views.skip(i as int) =~= Seq::<SlotMsgView>::empty());
                    assert(bytes_view(out@) + receivers_wire(i as int, views.skip(i as int)) =~=
                        bytes_view(out@));
                }
                break ;
            }
            let ghost pre_out = out@;
            proof {
                assert(views.skip(i as int)[0] == views[i as int]);
                assert(views.skip(i as int).drop_first() =~= views.skip(i as int + 1));
            }
            if self.receivers[i].open {
                let id = i as u8;
                let slot = &mut self.receivers[i];
                drain_slot(slot, id, &mut out);
                proof {
                    assert(receivers_wire(i as int, views.skip(i as int)) == slot_wire(
                        i as u8,
                        views[i as int].msgs,
                    ) + receivers_wire(i as int + 1, views.skip(i as int + 1)));
                    assert(bytes_view(pre_out) + (slot_wire(i as u8, views[i as int].msgs)
                        + receivers_wire(i as int + 1, views.skip(i as int + 1))) =~= bytes_view(
                        out@,
                    ) + receivers_wire(i as int + 1, views.skip(i as int + 1)));
                }
            } else {
                proof {
                    assert(receivers_wire(i as int, views.skip(i as int)) == receivers_wire(
                        i as int + 1,
                        views.skip(i as int + 1),
                    ));
                }
            }
            i += 1;
        }
        proof {
            assert forall|i2: int| 0 <= i2 < old(self).stream_count() implies #[trigger] final(self).slot_events(i2) == old(self).slot_events(i2) && final(self).slot_events_history(i2)
                == old(self).slot_events_history(i2) && final(self).slot_events_taken(i2) == old(
                self,
            ).slot_events_taken(i2) by {
                assert(self.receivers@[i2].events == old(self).receivers@[i2].events);
            }
        }
        out
    }

    /// Observe a batch of transport events in order: dispatch each
    /// inbound message, and on end of input put the transport out of
    /// service; exactly as `process_inbound` names. Reports the
    /// session's fault, old or new, if it has one after the batch.
    pub fn process_transport_messages(&mut self, inbound: Vec<TransportEvent>) -> (r: Result<
        (),
        MuxError,
    >)
        requires
            old(self).inv(),
        ensures
            final(self).inv(),
            final(self).extends(*old(self)),
            final(self).view() == process_inbound(old(self).view(), inbound@),
            (match process_inbound(old(self).view(), inbound@).fault {
                Some(e) => r == Err::<(), MuxError>(e),
                None => r == Ok::<(), MuxError>(()),
            }),
    {
        let ghost v0 = self.view();
        let mut k: usize = 0;
        proof {
            lemma_extends_self(*self);
            assert(inbound@.skip(0) =~= inbound@);
        }
        loop
            invariant_except_break
                self.inv(),
                k <= inbound@.len(),
                self.extends(*old(self)),
                process_inbound(v0, inbound@) == process_inbound(
                    self.view(),
                    inbound@.skip(k as int),
                ),
            ensures
                self.inv(),
                self.extends(*old(self)),
                self.view() == process_inbound(v0, inbound@),
            decreases inbound@.len() - k,
        {
            if k == inbound.len() {
                proof {
                    assert(inbound@.skip(k as int) =~= Seq::<TransportEvent>::empty());
                }
                break ;
            }
            let ghost pre = *self;
            proof {
                assert(inbound@.skip(k as int)[0] == inbound@[k as int]);
                assert(inbound@.skip(k as int).drop_first() =~= inbound@.skip(k as int + 1));
            }
            match &inbound[k] {
                TransportEvent::Close => {
                    if self.fault.is_none() {
                        self.transport_done = true;
                        proof {
                            assert(self.view().slots =~~= pre.view().slots);
                            assert(self.view() == (MuxView {
                                transport_done: true,
                                ..pre.view()
                            }));
                            assert(self.mux_events_history().take(
                                pre.mux_events_history().len() as int,
                            ) =~= pre.mux_events_history());
                            assert(self.mux_events() =~= pre.mux_events()
                                + self.mux_events_history().skip(
                                pre.mux_events_history().len() as int,
                            ));
                            self.lemma_extends_parts(pre);
                            lemma_extends_trans(*old(self), pre, *self);
                        }
                    }
                },
                TransportEvent::Message(m) => {
                    if self.fault.is_none() && !self.transport_done {
                        let _ = self.handle_message(m);
                        proof {
                            lemma_extends_trans(*old(self), pre, *self);
                        }
                    }
                },
            }
            k += 1;
        }
        match self.fault {
            Some(e) => Err(e),
            None => Ok(()),
        }
    }

    /// One whole processing turn, in the session's fixed order: first
    /// the queued control messages go onto the wire, then the inbound
    /// transport events are dispatched, then every registered stream's
    /// demand and cancellation messages go onto the wire, cancelled
    /// streams being unregistered last — so data that arrived in the
    /// same turn as a cancellation is still delivered. Returns the
    /// outbound frames in that order, and the session's fault if it has
    /// one.
    pub fn poll(&mut self, inbound: Vec<TransportEvent>) -> (r: (Vec<Vec<u8>>, Result<
        (),
        MuxError,
    >))
        requires
            old(self).inv(),
        ensures
            final(self).inv(),
            bytes_view(r.0@) == control_wire(old(self).control_pending()) + receivers_wire(
                0,
                msg_views_after(*old(self), process_inbound(old(self).view(), inbound@)),
            ),
            (match process_inbound(old(self).view(), inbound@).fault {
                Some(e) => r.1 == Err::<(), MuxError>(e),
                None => r.1 == Ok::<(), MuxError>(()),
            }),
            final(self).control_pending() == Seq::<Seq<u8>>::empty(),
            final(self).view() == (MuxView {
                slots: Seq::new(
                    process_inbound(old(self).view(), inbound@).slots.len(),
                    |i: int|
                        SlotView {
                            open: process_inbound(old(self).view(), inbound@).slots[i].open
                                && !has_cancel(
                                msg_views_after(
                                    *old(self),
                                    process_inbound(old(self).view(), inbound@),
                                )[i].msgs,
                            ),
                            events: process_inbound(old(self).view(), inbound@).slots[i].events,
                        },
                ),
                ..process_inbound(old(self).view(), inbound@)
            }),
    {
        let ghost v0 = self.view();
        let ghost vmid = process_inbound(v0, inbound@);
        let mut out = self.process_messages();
        let ghost s1 = *self;
        let res = self.process_transport_messages(inbound);
        let ghost s2 = *self;
        proof {
            assert(s2.view() == vmid);
            assert forall|i: int| 0 <= i < s2.stream_count() implies s2.slot_msg_views()[i]
                == msg_views_after(*old(self), vmid)[i] by {
                let m2 = s2.slot_messages(i);
                let m1 = s1.slot_messages(i);
                assert(s2.view().slots[i].open == s2.slot_open(i));
                if i < old(self).stream_count() {
                    assert(m1 == old(self).slot_messages(i));
                }
            }
            assert(s2.slot_msg_views() =~~= msg_views_after(*old(self), vmid));
        }
        let mut more = self.process_receiver_messages();
        proof {
            let ghost views2 = msg_views_after(*old(self), vmid);
            assert forall|i: int| 0 <= i < self.stream_count() implies self.view().slots[i]
                == (SlotView {
                open: vmid.slots[i].open && !has_cancel(views2[i].msgs),
                events: vmid.slots[i].events,
            }) by {
                let e3 = self.slot_events(i);
                let h3 = self.slot_events_history(i);
                let o3 = self.slot_open(i);
                let m3 = self.slot_messages(i);
                assert(s2.view().slots[i].open == s2.slot_open(i));
                assert(s2.view().slots[i].events == s2.slot_events_history(i));
                assert(s2.slot_msg_views()[i].msgs == s2.slot_messages(i));
                assert(self.slot_open(i) == (s2.slot_open(i) && !has_cancel(s2.slot_messages(i))));
                assert(self.slot_events_history(i) == s2.slot_events_history(i));
            }
            assert(self.view().slots =~~= Seq::new(
                vmid.slots.len() as nat,
                |i: int|
                    SlotView {
                        open: vmid.slots[i].open && !has_cancel(
                            msg_views_after(*old(self), vmid)[i].msgs,
                        ),
                        events: vmid.slots[i].events,
                    },
            ));
            assert(self.view() == (MuxView {
                slots: Seq::new(
                    vmid.slots.len() as nat,
                    |i: int|
                        SlotView {
                            open: vmid.slots[i].open && !has_cancel(
                                msg_views_after(*old(self), vmid)[i].msgs,
                            ),
                            events: vmid.slots[i].events,
                        },
                ),
                ..vmid
            }));
        }
        let ghost out1 = out@;
        loop
            invariant_except_break
                bytes_view(out@) + bytes_view(more@) == bytes_view(out1) + receivers_wire(
                    0,
                    msg_views_after(*old(self), vmid),
                ),
            ensures
                bytes_view(out@) == bytes_view(out1) + receivers_wire(
                    0,
                    msg_views_after(*old(self), vmid),
                ),
            decreases more@.len(),
        {
            if more.len() == 0 {
                proof {
                    assert(bytes_view(more@) =~= Seq::<Seq<u8>>::empty());
                    assert(bytes_view(out@) + bytes_view(more@) =~= bytes_view(out@));
                }
                break ;
            }
            let ghost pre_out = out@;
            let ghost pre_more = more@;
            let frame = more.remove(0);
            out.push(frame);
            proof {
                assert(bytes_view(out@) =~= bytes_view(pre_out).push(frame@));
                assert(bytes_view(more@) =~= bytes_view(pre_more).drop_first());
                assert(bytes_view(pre_more) == seq![frame@] + bytes_view(more@));
                assert(bytes_view(pre_out) + (seq![frame@] + bytes_view(more@)) =~= bytes_view(
                    out@,
                ) + bytes_view(more@));
            }
        }
        (out, res)
    }
}

/// The registration and pending messages each stream has after a batch
/// of inbound transport events: the registrations the dispatch left,
/// the messages untouched — newly created streams have none.
pub open spec fn msg_views_after(pre: Multiplexer, mid: MuxView) -> Seq<SlotMsgView> {
    Seq::new(
        mid.slots.len(),
        |i: int|
            SlotMsgView {
                open: mid.slots[i].open,
                msgs: if i < pre.stream_count() {
                    pre.slot_messages(i)
                } else {
                    Seq::empty()
                },
            },
    )
}

/// Extension composes: a session that extends another, which extends a
/// third, extends the third.
proof fn lemma_extends_trans(a: Multiplexer, b: Multiplexer, c: Multiplexer)
    requires
        b.extends(a),
        c.extends(b),
    ensures
        c.extends(a),
{
    assert forall|i: int| 0 <= i < a.stream_count() implies #[trigger] c.slot_messages(i)
        == a.slot_messages(i) && c.slot_events_taken(i) == a.slot_events_taken(i)
        && a.slot_events_history(i).is_prefix_of(c.slot_events_history(i)) && c.slot_events(i)
        == a.slot_events(i) + c.slot_events_history(i).skip(
        a.slot_events_history(i).len() as int,
    ) by {
        let bm = b.slot_messages(i);
        let cm = c.slot_messages(i);
        assert(a.slot_events_history(i).is_prefix_of(b.slot_events_history(i)));
        assert(b.slot_events_history(i).is_prefix_of(c.slot_events_history(i)));
        assert(c.slot_events_history(i).take(a.slot_events_history(i).len() as int) =~=
            a.slot_events_history(i));
        assert(c.slot_events(i) =~= a.slot_events(i) + c.slot_events_history(i).skip(
            a.slot_events_history(i).len() as int,
        ));
    }
    assert forall|i: int| a.stream_count() <= i < c.stream_count() implies #[trigger] c
        .slot_messages(i) == Seq::<ProducerMessage>::empty() && !c.slot_events_taken(i)
        && c.slot_events(i) == c.slot_events_history(i) by {
        let cm = c.slot_messages(i);
        if i < b.stream_count() {
            assert(b.slot_messages(i) == Seq::<ProducerMessage>::empty());
            assert(b.slot_events(i) == b.slot_events_history(i));
            assert(b.slot_events_history(i).is_prefix_of(c.slot_events_history(i)));
            assert(c.slot_events(i) =~= c.slot_events_history(i));
        }
    }
    assert(c.mux_events_history().take(a.mux_events_history().len() as int) =~=
        a.mux_events_history());
    assert(c.mux_events() =~= a.mux_events() + c.mux_events_history().skip(
        a.mux_events_history().len() as int,
    ));
}

/// Law: dispatch isolation. A frame that does not address stream `i` —
/// whatever else it does: opening a new stream, carrying a control
/// message, failing to decode — leaves stream `i`'s registration and
/// events exactly as they were.
pub proof fn lemma_dispatch_isolation(v: MuxView, bytes: Seq<u8>, i: int)
    requires
        0 <= i < v.slots.len(),
        match spec_decode(bytes) {
            Ok(form) => dispatch_target(form) != Some(i),
            Err(_) => true,
        },
    ensures
        v.slots.len() <= dispatch_out(v, bytes).slots.len(),
        dispatch_out(v, bytes).slots[i] == v.slots[i],
{
}

/// Law: multiplexer isolation over a whole batch. If no inbound message
/// of the batch addresses stream `i`, then after the batch stream `i`'s
/// registration and events are exactly as they were: faults, control
/// messages, new streams, and traffic on other streams produce no
/// observable event on stream `i`'s channel.
pub proof fn lemma_inbound_isolation(v: MuxView, evs: Seq<TransportEvent>, i: int)
    requires
        0 <= i < v.slots.len(),
        forall|k: int|
            0 <= k < evs.len() ==> (match #[trigger] evs[k] {
                TransportEvent::Close => true,
                TransportEvent::Message(m) => match spec_decode(m@) {
                    Ok(form) => dispatch_target(form) != Some(i),
                    Err(_) => true,
                },
            }),
    ensures
        v.slots.len() <= process_inbound(v, evs).slots.len(),
        process_inbound(v, evs).slots[i] == v.slots[i],
    decreases evs.len(),
{
    if evs.len() > 0 {
        let v2 = transport_step(v, evs[0]);
        match evs[0] {
            TransportEvent::Close => {},
            TransportEvent::Message(m) => {
                if v.fault is None && !v.transport_done {
                    lemma_dispatch_isolation(v, m@, i);
                }
            },
        }
        lemma_inbound_isolation(v2, evs.drop_first(), i);
    }
}

/// Every multiplexer extends itself.
proof fn lemma_extends_self(m: Multiplexer)
    ensures
        m.extends(m),
{
    assert forall|i: int| 0 <= i < m.stream_count() implies #[trigger] m.slot_messages(i)
        == m.slot_messages(i) && m.slot_events_taken(i) == m.slot_events_taken(i)
        && m.slot_events_history(i).is_prefix_of(m.slot_events_history(i)) && m.slot_events(i)
        == m.slot_events(i) + m.slot_events_history(i).skip(
        m.slot_events_history(i).len() as int,
    ) by {
        assert(m.slot_events_history(i).take(m.slot_events_history(i).len() as int) =~=
            m.slot_events_history(i));
        assert(m.slot_events(i) =~= m.slot_events(i) + m.slot_events_history(i).skip(
            m.slot_events_history(i).len() as int,
        ));
    }
    assert(m.mux_events_history().take(m.mux_events_history().len() as int) =~=
        m.mux_events_history());
    assert(m.mux_events() =~= m.mux_events() + m.mux_events_history().skip(
        m.mux_events_history().len() as int,
    ));
}

} // verus!
