//! A backpressure-aware streaming library: producers emit items only against
//! demand granted by consumers, events travel over single-consumer channels,
//! and a multiplexer shares one message transport among many independently
//! flow-controlled logical byte streams.
use vstd::prelude::*;

mod consumer;
mod map_conduit;
mod producer;
mod multiplexer;
mod queue;
mod range_producer;
mod read_adapter;
mod sink_adapter;
mod transport;
mod wire;
mod write_adapter;

pub use consumer::Consumer;
pub use consumer::ConsumerEvent;
pub use consumer::ConsumerEventRx;
pub use consumer::ConsumerMessage;
pub use map_conduit::MapConduit;
pub use map_conduit::MapConsumer;
pub use map_conduit::MapProducer;
pub use map_conduit::conduit_step;
pub use map_conduit::forward_event;
pub use map_conduit::forward_out;
pub use map_conduit::has_end;
pub use map_conduit::lemma_maps_batch_push;
pub use map_conduit::maps_batch;
pub use map_conduit::pair_ok;
pub use map_conduit::write_prefix;
pub use map_conduit::write_rest;
pub use multiplexer::Multiplexer;
pub use multiplexer::MultiplexerEvent;
pub use multiplexer::MultiplexerEventRx;
pub use multiplexer::MuxError;
pub use multiplexer::MuxEventView;
pub use multiplexer::MuxState;
pub use multiplexer::MuxView;
pub use multiplexer::ReceiverEventRx;
pub use multiplexer::ReceiverProducer;
pub use multiplexer::SlotMsgView;
pub use multiplexer::SlotView;
pub use multiplexer::bytes_view;
pub use multiplexer::control_wire;
pub use multiplexer::dispatch_out;
pub use multiplexer::dispatch_target;
pub use multiplexer::event_view;
pub use multiplexer::events_view;
pub use multiplexer::fault_of;
pub use multiplexer::has_cancel;
pub use multiplexer::lemma_dispatch_isolation;
pub use multiplexer::lemma_inbound_isolation;
pub use multiplexer::lemma_request_chunks_conserve;
pub use multiplexer::sum_chunk_counts;
pub use multiplexer::msg_views_after;
pub use multiplexer::mux_event_view;
pub use multiplexer::mux_events_view;
pub use multiplexer::process_inbound;
pub use multiplexer::receivers_wire;
pub use multiplexer::request_chunks;
pub use multiplexer::slot_wire;
pub use multiplexer::transport_step;
pub use producer::Pipe;
pub use producer::Producer;
pub use producer::ProducerEvent;
pub use producer::ProducerEventRx;
pub use producer::ProducerMessage;
pub use producer::count_data;
pub use producer::event_to_message;
pub use producer::event_to_producer_message;
pub use producer::forward_downstream;
pub use producer::forward_upstream;
pub use producer::has_cancellation;
pub use producer::lemma_count_data_add;
pub use producer::lemma_count_data_one;
pub use producer::lemma_sum_requests_push;
pub use producer::pipe_into;
pub use producer::pipe_step;
pub use producer::pipe_through;
pub use producer::sum_requests;
pub use queue::Queue;
pub use range_producer::RangeOutcome;
pub use range_producer::RangeProducer;
pub use range_producer::RangeProducerBuilder;
pub use range_producer::apply_message_out;
pub use range_producer::emit_out;
pub use range_producer::lemma_demand_invariant;
pub use range_producer::lemma_finished_producer_stays_silent;
pub use range_producer::process_out;
pub use range_producer::sat_add;
pub use read_adapter::ReadAdapter;
pub use read_adapter::ReadOutcome;
pub use read_adapter::lemma_read_adapter_demand;
pub use read_adapter::read_poll_out;
pub use sink_adapter::SinkAdapter;
pub use sink_adapter::SinkStatus;
pub use transport::Transport;
pub use transport::TransportEvent;
pub use transport::TransportEventRx;
pub use wire::DecodeError;
pub use wire::MessageType;
pub use wire::WireForm;
pub use wire::WireMessage;
pub use wire::decode;
pub use wire::encode;
pub use wire::lemma_wire_round_trip;
pub use wire::spec_decode;
pub use wire::spec_encode;
pub use wire::spec_type_byte;
pub use write_adapter::AdapterFault;
pub use write_adapter::WriteAdapter;
pub use write_adapter::lemma_sum_grants_push;
pub use write_adapter::lemma_write_adapter_accounting;
pub use write_adapter::sum_grants;

verus! {

/// One opaque transport-level message: a chunk of bytes.
pub type Message = Vec<u8>;

/// Why a consumer abandoned a stream.
#[derive(PartialEq, Clone, Debug)]
pub enum CancelReason {
    Disconnected,
    Other(String),
}

/// Anything that can be cancelled by its downstream side. Cancellation
/// is asynchronous: it enqueues a message that the object's processing
/// step observes, after which no further data is emitted.
pub trait Streamer {
    /// The implementing type's well-formedness; every operation keeps it.
    spec fn inv(&self) -> bool;

    fn cancel(&mut self, reason: CancelReason)
        requires
            old(self).inv(),
        ensures
            final(self).inv(),
    ;
}

/// Something with an event channel whose receiving end is handed out at
/// most once: `Some` on the first call, `None` ever after.
pub trait EventEmitter<T> {
    /// The implementing type's well-formedness; every operation keeps it.
    spec fn emitter_inv(&self) -> bool;

    fn events(&mut self) -> (r: Option<T>)
        requires
            old(self).emitter_inv(),
        ensures
            final(self).emitter_inv(),
    ;
}

/// A paired consumer and producer standing for an in-pipeline
/// transform; it splits into two independently ownable halves so the
/// input and output sides can be driven by different stages.
pub trait Conduit<A, B>: consumer::Consumer<A> + producer::Producer<B> {
    type ConcreteConsumer: consumer::Consumer<A>;

    type ConcreteProducer: producer::Producer<B>;

    fn split(self) -> (parts: (Self::ConcreteConsumer, Self::ConcreteProducer))
        requires
            self.inv(),
            self.consumer_inv(),
        ensures
            parts.0.consumer_inv(),
            parts.1.inv(),
            parts.0.consumer_messages() == self.consumer_messages(),
            parts.0.consumer_events() == self.consumer_events(),
            parts.0.consumer_events_taken() == self.consumer_events_taken(),
            parts.1.producer_messages() == self.producer_messages(),
            parts.1.producer_events() == self.producer_events(),
            parts.1.producer_events_taken() == self.producer_events_taken(),
    ;
}

} // verus!
